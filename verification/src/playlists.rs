//! Local playlists: their records and where a new item goes.
use vstd::prelude::*;

verus! {

#[derive(Debug, Clone)]
pub struct Playlist {
    pub id: i64,
    pub name: String,
    pub parent_id: Option<i64>,
    pub source: String,
    pub source_official_id: Option<String>,
    pub imported_at: Option<i64>,
    pub created_at: i64,
    pub updated_at: i64,
    pub item_count: i64,
}

#[derive(Debug, Clone)]
pub struct PlaylistItem {
    pub playlist_id: i64,
    pub video_id: String,
    pub position: i64,
    pub added_at: i64,
    pub note: Option<String>,
    pub title: Option<String>,
    pub thumbnail_url: Option<String>,
    pub duration_sec: Option<i64>,
}

/// The position of an item added to a playlist: the requested one, else
/// one past the largest position in use (1 for an empty playlist).
pub open spec fn spec_next_position(requested: Option<i64>, current_max: Option<i64>) -> int {
    match requested {
        Some(p) => p as int,
        None => match current_max {
            Some(m) => m + 1,
            None => 1,
        },
    }
}

pub fn next_position(requested: Option<i64>, current_max: Option<i64>) -> (p: i64)
    requires
        requested is None ==> (current_max matches Some(m) ==> m < i64::MAX),
    ensures
        p == spec_next_position(requested, current_max),
{
    match requested {
        Some(p) => p,
        None => match current_max {
            Some(m) => m + 1,
            None => 1,
        },
    }
}

} // verus!
