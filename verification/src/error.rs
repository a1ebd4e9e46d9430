//! Error types of the library.
//!
//! [`LibraryError`] is what the persistence layer reports, [`ApiError`] what
//! the niconico adapters and the downloader report, and [`AppError`] what
//! command handlers surface to the frontend.
use vstd::prelude::*;

verus! {

/// The error type of the `url` crate, carried as it is.
#[verifier::external_type_specification]
#[verifier::external_body]
pub struct ExUrlParseError(url::ParseError);

/// The error type of the `reqwest` crate, carried as it is.
#[verifier::external_type_specification]
#[verifier::external_body]
pub struct ExReqwestError(reqwest::Error);

/// The error type of the `serde_json` crate, carried as it is.
#[verifier::external_type_specification]
#[verifier::external_body]
pub struct ExJsonError(serde_json::Error);

/// The error type of the `rusqlite` crate, carried as it is.
#[verifier::external_type_specification]
#[verifier::external_body]
pub struct ExSqliteError(rusqlite::Error);

/// An I/O error, carried as it is.
#[verifier::external_type_specification]
#[verifier::external_body]
pub struct ExIoError(std::io::Error);

#[derive(Debug)]
pub enum LibraryError {
    Sqlite(rusqlite::Error),
    Migration { version: u32, message: String },
    Integrity(String),
    Io(std::io::Error),
    /// A looked-up row does not exist (the kind of row is named).
    NotFound(&'static str),
}

#[derive(Debug)]
pub enum ApiError {
    /// The request was rejected locally before it was sent.
    InvalidQuery(String),
    /// The server answered HTTP 400.
    QueryParseError(String),
    /// The server answered HTTP 429.
    RateLimited,
    /// Any other non-success answer.
    ServerError { status: u16, message: String },
    /// The answer did not have the expected shape.
    ResponseShape(String),
    /// The HTTP exchange failed.
    Transport(reqwest::Error),
    /// A URL could not be built.
    UrlBuild(url::ParseError),
    /// JSON could not be read or written.
    Json(serde_json::Error),
    Io(std::io::Error),
    /// The downloader failed.
    Downloader(String),
    /// A download was canceled.
    DownloadCanceled,
}

#[derive(Debug)]
pub enum AppError {
    Library(LibraryError),
    Api(ApiError),
    Other(String),
}

} // verus!
