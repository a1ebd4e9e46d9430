//! Verified core of a niconico archive client.
pub mod aes;
pub mod burnin;
pub mod api_types;
pub mod commands;
pub mod comment;
pub mod comment_ass;
pub mod error;
pub mod ffmpeg;
pub mod ingest;
pub mod json;
pub mod mp4box;
pub mod playlists;
pub mod run;
pub mod search;
pub mod text;
pub mod tools;
pub mod user_videos;
pub mod weburl;
pub mod ytdlp;
