//! The records a finished download puts into the library, built from what
//! yt-dlp wrote into `info.json` and from the fetched comments.
use vstd::prelude::*;

use chrono::TimeZone;

use crate::comment::{opt_view, Comment};
use crate::json::{
    array_of, as_array, as_i64, as_str, get, get_field, i64_of, is_string, is_string_value, opt,
    str_of, Json,
};
use crate::text::{dec_int, push_dec_i64};

verus! {

/// A video as the library stores it.
#[derive(Debug, Clone)]
pub struct VideoRecord {
    pub id: String,
    pub title: String,
    pub description: Option<String>,
    pub uploader_id: Option<String>,
    pub uploader_name: Option<String>,
    pub uploader_type: Option<String>,
    pub category: Option<String>,
    pub duration_sec: i64,
    pub posted_at: Option<i64>,
    pub view_count: Option<i64>,
    pub comment_count: Option<i64>,
    pub mylist_count: Option<i64>,
    pub thumbnail_url: Option<String>,
    pub video_path: Option<String>,
    pub raw_meta_json: Option<String>,
    pub resolution: Option<String>,
}

#[derive(Debug, Clone)]
pub struct TagRecord {
    pub name: String,
    pub is_locked: bool,
}

#[derive(Debug, Clone)]
pub struct CommentRecord {
    pub no: i64,
    pub vpos_ms: i64,
    pub content: String,
    pub mail: Option<String>,
    pub user_hash: Option<String>,
    pub is_owner: bool,
    pub posted_at: Option<i64>,
}

// ---------------------------------------------------------------------------
// Dates
// ---------------------------------------------------------------------------

/// What `chrono::NaiveDate::parse_from_str(s, "%Y%m%d")` at midnight UTC
/// gives as a Unix timestamp; `None` when the text is not such a date.
pub uninterp spec fn spec_ymd_to_unix(s: Seq<char>) -> Option<i64>;

/// What `chrono::DateTime::parse_from_rfc3339(s)` gives as a Unix
/// timestamp; `None` when the text is not RFC 3339.
pub uninterp spec fn spec_rfc3339_to_unix(s: Seq<char>) -> Option<i64>;

/// Calls `NaiveDate::parse_from_str(s, "%Y%m%d")`, `NaiveTime::from_hms_opt(0, 0, 0)`
/// and `Utc.from_utc_datetime(..).timestamp()`.  Claimed: the result is the
/// name `spec_ymd_to_unix` of the text.
#[verifier::external_body]
fn ymd_to_unix(s: &str) -> (r: Option<i64>)
    ensures
        r == spec_ymd_to_unix(s@),
{
    let date = chrono::NaiveDate::parse_from_str(s, "%Y%m%d").ok()?;
    let dt = chrono::NaiveDateTime::new(date, chrono::NaiveTime::from_hms_opt(0, 0, 0)?);
    Some(chrono::Utc.from_utc_datetime(&dt).timestamp())
}

/// Calls `DateTime::parse_from_rfc3339(s)` and `timestamp`.  Claimed: the
/// result is the name `spec_rfc3339_to_unix` of the text.
#[verifier::external_body]
fn rfc3339_to_unix(s: &str) -> (r: Option<i64>)
    ensures
        r == spec_rfc3339_to_unix(s@),
{
    match chrono::DateTime::parse_from_rfc3339(s) {
        Ok(dt) => Some(dt.timestamp()),
        Err(_) => None,
    }
}

/// yt-dlp's `upload_date` (`YYYYMMDD`) as a Unix timestamp (UTC midnight).
pub fn yt_dlp_date_to_unix(yyyymmdd: &str) -> (r: Option<i64>)
    ensures
        r == spec_ymd_to_unix(yyyymmdd@),
{
    ymd_to_unix(yyyymmdd)
}

/// `2024-01-02T03:04:05+09:00` or `...Z` as a Unix timestamp.
pub fn parse_iso8601_to_unix(s: &str) -> (r: Option<i64>)
    ensures
        r == spec_rfc3339_to_unix(s@),
{
    rfc3339_to_unix(s)
}

// ---------------------------------------------------------------------------
// From yt-dlp's info.json
// ---------------------------------------------------------------------------

/// `WIDTHxHEIGHT` from `width` and `height` when both are positive
/// integers, else the `resolution` text.
pub open spec fn spec_resolution(info: Json) -> Option<Seq<char>> {
    let i = Some(info);
    match (as_i64(get(i, "width"@)), as_i64(get(i, "height"@))) {
        (Some(w), Some(h)) => if w > 0 && h > 0 {
            Some(dec_int(w as int) + "x"@ + dec_int(h as int))
        } else {
            as_str(get(i, "resolution"@))
        },
        _ => as_str(get(i, "resolution"@)),
    }
}

/// A positive width and height give the resolution `<width>x<height>`
/// (width first), whatever `resolution` says.
pub proof fn law_resolution_is_width_by_height(info: Json)
    ensures
        as_i64(get(Some(info), "width"@)) matches Some(w) ==> (as_i64(get(Some(info), "height"@))
            matches Some(h) ==> (w > 0 && h > 0 ==> spec_resolution(info) == Some(
            dec_int(w as int) + "x"@ + dec_int(h as int),
        ))),
{
}

pub fn resolution_from_info(info: &Json) -> (r: Option<String>)
    ensures
        opt_view(r) == spec_resolution(*info),
{
    match (i64_of(get_field(info, "width")), i64_of(get_field(info, "height"))) {
        (Some(w), Some(h)) => if w > 0 && h > 0 {
            let mut s = String::new();
            push_dec_i64(&mut s, w);
            s.push_str("x");
            push_dec_i64(&mut s, h);
            Some(s)
        } else {
            str_of(get_field(info, "resolution"))
        },
        _ => str_of(get_field(info, "resolution")),
    }
}

/// The first member of the first of two optional strings.
pub open spec fn or_str(a: Option<Json>, b: Option<Json>) -> Option<Seq<char>> {
    match as_str(a) {
        Some(x) => Some(x),
        None => as_str(b),
    }
}

/// `as_f64()` converted with `as i64`, or 0 for a non-number.
pub open spec fn truncated_or_zero(v: Option<Json>) -> i64 {
    match v {
        Some(Json::Num(n)) => n.truncated,
        _ => 0,
    }
}

/// The record of a video built from `info.json` alone (when the watch page
/// could not be read): title falls back to the id, the uploader is the
/// channel when there is a `channel_id`, the posting time is `timestamp`,
/// `release_timestamp` or `upload_date`, the category is the first one.
pub open spec fn record_matches_info(
    r: VideoRecord,
    video_id: Seq<char>,
    info: Json,
    resolution: Option<Seq<char>>,
    raw_meta_json: Option<Seq<char>>,
) -> bool {
    let i = Some(info);
    &&& r.id@ == video_id
    &&& r.title@ == match as_str(get(i, "title"@)) {
        Some(t) => t,
        None => video_id,
    }
    &&& opt_view(r.description) == as_str(get(i, "description"@))
    &&& opt_view(r.uploader_id) == or_str(get(i, "uploader_id"@), get(i, "channel_id"@))
    &&& opt_view(r.uploader_name) == or_str(get(i, "uploader"@), get(i, "channel"@))
    &&& opt_view(r.uploader_type) == Some(
        if is_string(get(i, "channel_id"@)) {
            "channel"@
        } else {
            "user"@
        },
    )
    &&& opt_view(r.category) == match as_array(get(i, "categories"@)) {
        Some(a) => if a.len() > 0 {
            as_str(Some(a[0]))
        } else {
            None
        },
        None => None,
    }
    &&& r.duration_sec == truncated_or_zero(get(i, "duration"@))
    &&& r.posted_at == match as_i64(get(i, "timestamp"@)) {
        Some(t) => Some(t),
        None => match as_i64(get(i, "release_timestamp"@)) {
            Some(t) => Some(t),
            None => match as_str(get(i, "upload_date"@)) {
                Some(d) => spec_ymd_to_unix(d),
                None => None,
            },
        },
    }
    &&& r.view_count == as_i64(get(i, "view_count"@))
    &&& r.comment_count == as_i64(get(i, "comment_count"@))
    &&& r.mylist_count is None
    &&& opt_view(r.thumbnail_url) == as_str(get(i, "thumbnail"@))
    &&& opt_view(r.video_path) == Some("videos/"@ + video_id + "/video.mp4"@)
    &&& opt_view(r.raw_meta_json) == raw_meta_json
    &&& opt_view(r.resolution) == resolution
}

/// Every field of a record built from `info.json` comes from the member of
/// the same name: the view count from `view_count`, the comment count from
/// `comment_count`, the description from `description`, the thumbnail from
/// `thumbnail`, the title from `title` (the id when absent), the uploader id
/// from `uploader_id` (else `channel_id`) and its name from `uploader` (else
/// `channel`); the record's id is the video id and its file is
/// `videos/<id>/video.mp4`.  No mylist count is known.
pub proof fn law_record_fields_come_from_same_named_members(
    r: VideoRecord,
    video_id: Seq<char>,
    info: Json,
    resolution: Option<Seq<char>>,
    raw_meta_json: Option<Seq<char>>,
)
    requires
        record_matches_info(r, video_id, info, resolution, raw_meta_json),
    ensures
        r.view_count == as_i64(get(Some(info), "view_count"@)),
        r.comment_count == as_i64(get(Some(info), "comment_count"@)),
        r.mylist_count is None,
        opt_view(r.description) == as_str(get(Some(info), "description"@)),
        opt_view(r.thumbnail_url) == as_str(get(Some(info), "thumbnail"@)),
        as_str(get(Some(info), "title"@)) matches Some(t) ==> r.title@ == t,
        as_str(get(Some(info), "title"@)) is None ==> r.title@ == video_id,
        as_str(get(Some(info), "uploader_id"@)) matches Some(u) ==> opt_view(r.uploader_id) == Some(u),
        as_str(get(Some(info), "uploader"@)) matches Some(u) ==> opt_view(r.uploader_name) == Some(u),
        r.id@ == video_id,
        opt_view(r.video_path) == Some("videos/"@ + video_id + "/video.mp4"@),
        opt_view(r.resolution) == resolution,
        opt_view(r.raw_meta_json) == raw_meta_json,
{
}

fn or_str_of(a: Option<&Json>, b: Option<&Json>) -> (r: Option<String>)
    ensures
        opt_view(r) == or_str(opt(a), opt(b)),
{
    match str_of(a) {
        Some(x) => Some(x),
        None => str_of(b),
    }
}

fn posted_at_of(info: &Json) -> (r: Option<i64>)
    ensures
        ({
            let i = Some(*info);
            r == match as_i64(get(i, "timestamp"@)) {
                Some(t) => Some(t),
                None => match as_i64(get(i, "release_timestamp"@)) {
                    Some(t) => Some(t),
                    None => match as_str(get(i, "upload_date"@)) {
                        Some(d) => spec_ymd_to_unix(d),
                        None => None,
                    },
                },
            }
        }),
{
    match i64_of(get_field(info, "timestamp")) {
        Some(t) => Some(t),
        None => match i64_of(get_field(info, "release_timestamp")) {
            Some(t) => Some(t),
            None => match str_of(get_field(info, "upload_date")) {
                Some(d) => yt_dlp_date_to_unix(d.as_str()),
                None => None,
            },
        },
    }
}

fn category_of(info: &Json) -> (r: Option<String>)
    ensures
        opt_view(r) == match as_array(get(Some(*info), "categories"@)) {
            Some(a) => if a.len() > 0 {
                as_str(Some(a[0]))
            } else {
                None
            },
            None => None,
        },
{
    match array_of(get_field(info, "categories")) {
        Some(a) => if a.len() > 0 {
            str_of(Some(&a[0]))
        } else {
            None
        },
        None => None,
    }
}

fn owned(s: &str) -> (r: String)
    ensures
        r@ == s@,
{
    let mut r = String::new();
    r.push_str(s);
    r
}

/// The record of a downloaded video built from yt-dlp's `info.json`.
/// `raw_meta_json` is that JSON as text, kept for later reference.
pub fn video_record_from_info(
    video_id: &str,
    info: &Json,
    resolution: Option<String>,
    raw_meta_json: Option<String>,
) -> (r: VideoRecord)
    ensures
        record_matches_info(r, video_id@, *info, opt_view(resolution), opt_view(raw_meta_json)),
{
    let title = match str_of(get_field(info, "title")) {
        Some(t) => t,
        None => owned(video_id),
    };
    let uploader_type = if is_string_value(get_field(info, "channel_id")) {
        owned("channel")
    } else {
        owned("user")
    };
    let duration_sec = match get_field(info, "duration") {
        Some(Json::Num(n)) => n.truncated,
        _ => 0,
    };
    let mut video_path = String::new();
    video_path.push_str("videos/");
    video_path.push_str(video_id);
    video_path.push_str("/video.mp4");
    VideoRecord {
        id: owned(video_id),
        title,
        description: str_of(get_field(info, "description")),
        uploader_id: or_str_of(get_field(info, "uploader_id"), get_field(info, "channel_id")),
        uploader_name: or_str_of(get_field(info, "uploader"), get_field(info, "channel")),
        uploader_type: Some(uploader_type),
        category: category_of(info),
        duration_sec,
        posted_at: posted_at_of(info),
        view_count: i64_of(get_field(info, "view_count")),
        comment_count: i64_of(get_field(info, "comment_count")),
        mylist_count: None,
        thumbnail_url: str_of(get_field(info, "thumbnail")),
        video_path: Some(video_path),
        raw_meta_json,
        resolution,
    }
}

pub open spec fn tag_views(v: Seq<TagRecord>) -> Seq<(Seq<char>, bool)> {
    v.map_values(|t: TagRecord| (t.name@, t.is_locked))
}

/// The string members of `tags`, none of them locked.
pub open spec fn spec_info_tags(info: Json) -> Seq<(Seq<char>, bool)> {
    match as_array(get(Some(info), "tags"@)) {
        Some(a) => crate::comment::strings_of(a).map_values(|n: Seq<char>| (n, false)),
        None => Seq::empty(),
    }
}

/// Tags read from `info.json` are never locked, and there are none when
/// `tags` is not an array.
pub proof fn law_info_tags_are_unlocked(info: Json)
    ensures
        forall|k: int| 0 <= k < spec_info_tags(info).len() ==> !(#[trigger] spec_info_tags(info)[k]).1,
        as_array(get(Some(info), "tags"@)) is None ==> spec_info_tags(info).len() == 0,
{
}

pub fn tags_from_info(info: &Json) -> (r: Vec<TagRecord>)
    ensures
        tag_views(r@) == spec_info_tags(*info),
{
    let mut out: Vec<TagRecord> = Vec::new();
    match array_of(get_field(info, "tags")) {
        None => {
            assert(tag_views(out@) =~= Seq::<(Seq<char>, bool)>::empty());
        },
        Some(a) => {
            let mut i: usize = 0;
            assert(a@.take(0) =~= Seq::<Json>::empty());
            assert(tag_views(out@) =~= crate::comment::strings_of(a@.take(0)).map_values(
                |n: Seq<char>| (n, false),
            ));
            while i < a.len()
                invariant
                    i <= a.len(),
                    tag_views(out@) == crate::comment::strings_of(a@.take(i as int)).map_values(
                        |n: Seq<char>| (n, false),
                    ),
                decreases a.len() - i,
            {
                let ghost t = a@.take(i + 1);
                assert(t.drop_last() =~= a@.take(i as int));
                assert(t.last() == a@[i as int]);
                let ghost before = tag_views(out@);
                match &a[i] {
                    Json::Str(s) => {
                        out.push(TagRecord { name: s.clone(), is_locked: false });
                        assert(tag_views(out@) =~= before.push((s@, false)));
                        assert(crate::comment::strings_of(t).map_values(|n: Seq<char>| (n, false))
                            =~= before.push((s@, false)));
                    },
                    _ => {},
                }
                i += 1;
            }
            assert(a@.take(a.len() as int) =~= a@);
        },
    }
    out
}

/// The stored form of a fetched comment: an empty `mail` is absent, the
/// user id becomes the user hash, and the posting time a Unix timestamp.
pub fn comment_record(c: &Comment) -> (r: CommentRecord)
    ensures
        r.no == c.no,
        r.vpos_ms == c.vpos_ms,
        r.content@ == c.content@,
        opt_view(r.mail) == (if c.mail@.len() == 0 {
            None
        } else {
            Some(c.mail@)
        }),
        opt_view(r.user_hash) == opt_view(c.user_id),
        r.is_owner == c.is_owner,
        r.posted_at == match c.posted_at {
            Some(p) => spec_rfc3339_to_unix(p@),
            None => None,
        },
{
    let mail = if c.mail.as_str().is_empty() {
        None
    } else {
        Some(c.mail.clone())
    };
    let user_hash = match &c.user_id {
        Some(u) => Some(u.clone()),
        None => None,
    };
    let posted_at = match &c.posted_at {
        Some(p) => parse_iso8601_to_unix(p.as_str()),
        None => None,
    };
    CommentRecord {
        no: c.no,
        vpos_ms: c.vpos_ms,
        content: c.content.clone(),
        mail,
        user_hash,
        is_owner: c.is_owner,
        posted_at,
    }
}

} // verus!
