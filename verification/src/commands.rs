//! The decisions of the frontend commands: which ids and URLs are accepted,
//! the local playback URLs, the HTTP `Range` of an HLS fetch, and the shape
//! of the payloads handed back.
use vstd::prelude::*;

use base64::Engine;
use vstd::utf8::encode_utf8;

use crate::error::{ApiError, AppError};
use crate::text::{
    chars_of, debug_str, is_alnum, is_ascii_alnum, push_dec, spec_debug_str,
};
use crate::weburl::{spec_url_parts, url_scheme_host};

verus! {

// ---------------------------------------------------------------------------
// Ids
// ---------------------------------------------------------------------------

/// A character allowed in a video id: ASCII letters and digits, `-`, `_`.
pub open spec fn is_id_char(c: char) -> bool {
    is_alnum(c) || c == '-' || c == '_'
}

/// A video id that may name the directory `videos/{id}`: 1 to 64 bytes of
/// ASCII letters, digits, `-` and `_` (`sm12345`, `so11111`, ...).
pub open spec fn is_valid_video_id(id: Seq<char>) -> bool {
    &&& id.len() > 0
    &&& encode_utf8(id).len() <= 64
    &&& forall|i: int| 0 <= i < id.len() ==> is_id_char(#[trigger] id[i])
}

/// The refusal message of a bad id, which quotes it as `{:?}` does.
pub open spec fn invalid_id_message(what: Seq<char>, id: Seq<char>) -> Seq<char> {
    "invalid "@ + what + ": "@ + spec_debug_str(id)
}

pub open spec fn char_ok(c: char, owner: bool) -> bool {
    if owner {
        is_alnum(c)
    } else {
        is_id_char(c)
    }
}

fn all_chars(s: &str, owner: bool) -> (r: bool)
    ensures
        r == (forall|i: int| 0 <= i < s@.len() ==> #[trigger] char_ok(s@[i], owner)),
{
    let cs = chars_of(s);
    let mut i: usize = 0;
    while i < cs.len()
        invariant
            i <= cs.len(),
            cs@ == s@,
            forall|k: int| 0 <= k < i ==> #[trigger] char_ok(s@[k], owner),
        decreases cs.len() - i,
    {
        let c = cs[i];
        let ok = if owner {
            is_ascii_alnum(c)
        } else {
            is_ascii_alnum(c) || c == '-' || c == '_'
        };
        if !ok {
            assert(!char_ok(s@[i as int], owner));
            return false;
        }
        i += 1;
    }
    true
}

fn invalid_id(what: &str, id: &str) -> (e: AppError)
    ensures
        e matches AppError::Other(m) && m@ == invalid_id_message(what@, id@),
{
    let mut m = String::new();
    m.push_str("invalid ");
    m.push_str(what);
    m.push_str(": ");
    let q = debug_str(id);
    m.push_str(q.as_str());
    AppError::Other(m)
}

/// Accept a video id only when it can safely name a directory under
/// `videos/`; anything else (`..`, `a/b`, `foo bar`, ...) is refused.
pub fn validate_video_id(video_id: &str) -> (r: Result<(), AppError>)
    ensures
        match r {
            Ok(()) => is_valid_video_id(video_id@),
            Err(AppError::Other(m)) => !is_valid_video_id(video_id@) && m@ == invalid_id_message(
                "video_id"@,
                video_id@,
            ),
            Err(_) => false,
        },
{
    let nbytes = video_id.as_bytes().len();
    if video_id.is_empty() || nbytes > 64 {
        return Err(invalid_id("video_id", video_id));
    }
    if !all_chars(video_id, false) {
        return Err(invalid_id("video_id", video_id));
    }
    assert forall|i: int| 0 <= i < video_id@.len() implies is_id_char(#[trigger] video_id@[i]) by {
        assert(char_ok(video_id@[i], false));
    }
    Ok(())
}

/// An id that is accepted is one plain path component: it is not empty and
/// holds no `/`, `\`, `.` or NUL, so it is neither `.` nor `..` and cannot
/// climb out of `videos/`.
pub proof fn law_valid_id_is_plain_component(id: Seq<char>)
    requires
        is_valid_video_id(id),
    ensures
        id.len() > 0,
        forall|i: int|
            0 <= i < id.len() ==> #[trigger] id[i] != '/' && id[i] != '\\' && id[i] != '.' && id[i]
                != '\0',
{
}

/// A user or channel id for the NV API: 1 to 64 bytes of ASCII letters and
/// digits.
pub open spec fn is_valid_owner_id(id: Seq<char>) -> bool {
    &&& id.len() > 0
    &&& encode_utf8(id).len() <= 64
    &&& forall|i: int| 0 <= i < id.len() ==> is_alnum(#[trigger] id[i])
}

pub fn validate_owner_id(owner_id: &str) -> (r: Result<(), AppError>)
    ensures
        match r {
            Ok(()) => is_valid_owner_id(owner_id@),
            Err(AppError::Other(m)) => !is_valid_owner_id(owner_id@) && m@ == invalid_id_message(
                "owner_id"@,
                owner_id@,
            ),
            Err(_) => false,
        },
{
    let nbytes = owner_id.as_bytes().len();
    if owner_id.is_empty() || nbytes > 64 || !all_chars(owner_id, true) {
        return Err(invalid_id("owner_id", owner_id));
    }
    assert forall|i: int| 0 <= i < owner_id@.len() implies is_alnum(#[trigger] owner_id@[i]) by {
        assert(char_ok(owner_id@[i], true));
    }
    Ok(())
}

// ---------------------------------------------------------------------------
// Local playback
// ---------------------------------------------------------------------------

/// The local HTTP server that serves downloaded files under `/v/`.
#[derive(Debug, Clone, Copy)]
pub struct LocalServer {
    pub port: u16,
}

/// `http://127.0.0.1:{port}/v/{video_id}/{file}`.
pub open spec fn local_url(port: u16, video_id: Seq<char>, file: Seq<char>) -> Seq<char> {
    "http://127.0.0.1:"@ + crate::text::dec(port as nat) + "/v/"@ + video_id + "/"@ + file
}

fn local_file_url(server: &LocalServer, video_id: &str, file: &str) -> (r: Result<
    String,
    AppError,
>)
    ensures
        match r {
            Ok(u) => is_valid_video_id(video_id@) && u@ == local_url(server.port, video_id@, file@),
            Err(AppError::Other(m)) => !is_valid_video_id(video_id@) && m@ == invalid_id_message(
                "video_id"@,
                video_id@,
            ),
            Err(_) => false,
        },
{
    match validate_video_id(video_id) {
        Err(e) => Err(e),
        Ok(()) => {
            let mut u = String::new();
            u.push_str("http://127.0.0.1:");
            push_dec(&mut u, server.port as u64);
            u.push_str("/v/");
            u.push_str(video_id);
            u.push_str("/");
            u.push_str(file);
            Ok(u)
        },
    }
}

/// The local server's URL of a downloaded video (Range requests work there,
/// unlike Blob URLs).
pub fn local_video_url(video_id: &str, server: &LocalServer) -> (r: Result<String, AppError>)
    ensures
        match r {
            Ok(u) => is_valid_video_id(video_id@) && u@ == local_url(
                server.port,
                video_id@,
                "video.mp4"@,
            ),
            Err(AppError::Other(m)) => !is_valid_video_id(video_id@) && m@ == invalid_id_message(
                "video_id"@,
                video_id@,
            ),
            Err(_) => false,
        },
{
    local_file_url(server, video_id, "video.mp4")
}

/// The local server's URL of a downloaded audio track.
pub fn local_audio_url(video_id: &str, server: &LocalServer) -> (r: Result<String, AppError>)
    ensures
        match r {
            Ok(u) => is_valid_video_id(video_id@) && u@ == local_url(
                server.port,
                video_id@,
                "audio.mp4"@,
            ),
            Err(AppError::Other(m)) => !is_valid_video_id(video_id@) && m@ == invalid_id_message(
                "video_id"@,
                video_id@,
            ),
            Err(_) => false,
        },
{
    local_file_url(server, video_id, "audio.mp4")
}

// ---------------------------------------------------------------------------
// HTTP ranges
// ---------------------------------------------------------------------------

/// `Range: bytes={start}-{end}` with an inclusive end (RFC 7233), or an
/// open `bytes={start}-`; `None` (no header) otherwise, also when `end` is
/// before `start`.
pub open spec fn spec_inclusive_range(start: Option<u64>, end: Option<u64>) -> Option<Seq<char>> {
    match (start, end) {
        (Some(s), Some(e)) => if e >= s {
            Some("bytes="@ + crate::text::dec(s as nat) + "-"@ + crate::text::dec(e as nat))
        } else {
            None
        },
        (Some(s), None) => Some("bytes="@ + crate::text::dec(s as nat) + "-"@),
        _ => None,
    }
}

/// An inclusive range asks for `bytes=<start>-<end>`: the start first, the
/// last byte second; a range with no end asks for everything from the start.
pub proof fn law_inclusive_range_names_start_then_end(start: u64, end: Option<u64>)
    ensures
        end matches Some(e) ==> (e >= start ==> spec_inclusive_range(Some(start), end) == Some(
            "bytes="@ + crate::text::dec(start as nat) + "-"@ + crate::text::dec(e as nat),
        )),
        end is None ==> spec_inclusive_range(Some(start), end) == Some(
            "bytes="@ + crate::text::dec(start as nat) + "-"@,
        ),
{
}

/// The same header from hls.js's convention, where `end` is exclusive; an
/// empty range (`end <= start`, such as `0-0`) asks for the whole resource.
pub open spec fn spec_hls_range(start: Option<u64>, end: Option<u64>) -> Option<Seq<char>> {
    match (start, end) {
        (Some(s), Some(e)) => if e > s {
            Some("bytes="@ + crate::text::dec(s as nat) + "-"@ + crate::text::dec((e - 1) as nat))
        } else {
            None
        },
        (Some(s), None) => Some("bytes="@ + crate::text::dec(s as nat) + "-"@),
        _ => None,
    }
}

fn range_text(start: u64, end: Option<u64>) -> (r: String)
    ensures
        r@ == "bytes="@ + crate::text::dec(start as nat) + "-"@ + match end {
            Some(e) => crate::text::dec(e as nat),
            None => Seq::empty(),
        },
{
    let mut r = String::new();
    r.push_str("bytes=");
    push_dec(&mut r, start);
    r.push_str("-");
    let ghost before = r@;
    match end {
        Some(e) => push_dec(&mut r, e),
        None => {
            assert(r@ =~= before + Seq::<char>::empty());
        },
    }
    r
}

/// The `Range` header of a Domand fetch (inclusive end).
pub fn inclusive_range_header(start: Option<u64>, end: Option<u64>) -> (r: Option<String>)
    ensures
        match r {
            Some(h) => spec_inclusive_range(start, end) == Some(h@),
            None => spec_inclusive_range(start, end) is None,
        },
{
    match (start, end) {
        (Some(s), Some(e)) => if e >= s {
            Some(range_text(s, Some(e)))
        } else {
            None
        },
        (Some(s), None) => Some(range_text(s, None)),
        _ => None,
    }
}

/// The `Range` header of an HLS resource fetched for hls.js (exclusive end).
pub fn hls_range_header(start: Option<u64>, end: Option<u64>) -> (r: Option<String>)
    ensures
        match r {
            Some(h) => spec_hls_range(start, end) == Some(h@),
            None => spec_hls_range(start, end) is None,
        },
{
    match (start, end) {
        (Some(s), Some(e)) => if e > s {
            Some(range_text(s, Some(e - 1)))
        } else {
            None
        },
        (Some(s), None) => Some(range_text(s, None)),
        _ => None,
    }
}

/// hls.js's exclusive `[start, end)` asks for exactly the bytes of the
/// inclusive `start..=end-1`; an open range is the same in both.
pub proof fn law_exclusive_range_is_inclusive_minus_one(start: u64, end: Option<u64>)
    ensures
        match end {
            Some(e) => e > start ==> spec_hls_range(Some(start), Some(e)) == spec_inclusive_range(
                Some(start),
                Some((e - 1) as u64),
            ),
            None => spec_hls_range(Some(start), None) == spec_inclusive_range(Some(start), None),
        },
{
}

// ---------------------------------------------------------------------------
// Domand URLs
// ---------------------------------------------------------------------------

/// The hosts whose signed HLS resources may be fetched for the WebView.
pub open spec fn is_domand_host(h: Seq<char>) -> bool {
    h == "delivery.domand.nicovideo.jp"@ || h == "asset.domand.nicovideo.jp"@
}

/// Accept only `https` URLs on a Domand delivery or asset host, so that the
/// resource fetch cannot become a general local HTTP proxy.
pub fn validate_domand_url(raw: &str) -> (r: Result<(), AppError>)
    ensures
        match spec_url_parts(raw@) {
            None => r matches Err(AppError::Api(ApiError::UrlBuild(_))),
            Some((_, scheme, host)) => if scheme != "https"@ {
                r matches Err(AppError::Other(m)) && m@ == "HLS URL must use https"@
            } else {
                match host {
                    None => r matches Err(AppError::Other(m)) && m@
                        == "HLS URL is missing a host"@,
                    Some(h) => if is_domand_host(h) {
                        r is Ok
                    } else {
                        r matches Err(AppError::Other(m)) && m@ == "HLS host is not allowed: "@
                            + h
                    },
                }
            },
        },
{
    let (scheme, host) = match url_scheme_host(raw) {
        Ok(p) => p,
        Err(e) => {
            return Err(AppError::Api(ApiError::UrlBuild(e)));
        },
    };
    if !crate::text::str_eq(scheme.as_str(), "https") {
        let mut m = String::new();
        m.push_str("HLS URL must use https");
        return Err(AppError::Other(m));
    }
    let host = match host {
        Some(h) => h,
        None => {
            let mut m = String::new();
            m.push_str("HLS URL is missing a host");
            return Err(AppError::Other(m));
        },
    };
    if crate::text::str_eq(host.as_str(), "delivery.domand.nicovideo.jp") || crate::text::str_eq(
        host.as_str(),
        "asset.domand.nicovideo.jp",
    ) {
        Ok(())
    } else {
        let mut m = String::new();
        m.push_str("HLS host is not allowed: ");
        m.push_str(host.as_str());
        Err(AppError::Other(m))
    }
}


// ---------------------------------------------------------------------------
// HLS resources for the WebView
// ---------------------------------------------------------------------------

/// A fetched HLS resource handed to hls.js: the body in base64, its
/// `Content-Type` and the HTTP status.
#[derive(Debug, Clone)]
pub struct HlsResource {
    pub data_base64: String,
    pub content_type: Option<String>,
    pub status: u16,
}

/// The character of a 6-bit value in the standard base64 alphabet.
pub open spec fn b64_char(v: nat) -> char {
    if v < 26 {
        ((v + 65) as u8) as char
    } else if v < 52 {
        ((v + 71) as u8) as char
    } else if v < 62 {
        ((v - 4) as u8) as char
    } else if v == 62 {
        '+'
    } else {
        '/'
    }
}

/// Standard base64 with `=` padding (RFC 4648 §4).
pub open spec fn base64_standard(b: Seq<u8>) -> Seq<char>
    decreases b.len(),
{
    if b.len() == 0 {
        Seq::empty()
    } else if b.len() == 1 {
        seq![b64_char(b[0] as nat / 4), b64_char((b[0] as nat % 4) * 16), '=', '=']
    } else if b.len() == 2 {
        seq![
            b64_char(b[0] as nat / 4),
            b64_char((b[0] as nat % 4) * 16 + b[1] as nat / 16),
            b64_char((b[1] as nat % 16) * 4),
            '=',
        ]
    } else {
        seq![
            b64_char(b[0] as nat / 4),
            b64_char((b[0] as nat % 4) * 16 + b[1] as nat / 16),
            b64_char((b[1] as nat % 16) * 4 + b[2] as nat / 64),
            b64_char(b[2] as nat % 64),
        ] + base64_standard(b.skip(3))
    }
}

/// Calls `base64::engine::general_purpose::STANDARD.encode`.  Claimed: the
/// text is the standard-alphabet, padded encoding of the bytes (RFC 4648
/// §4, which the crate documents); the length bound keeps the crate's
/// encoded-size computation from overflowing.
#[verifier::external_body]
fn base64_encode(bytes: &[u8]) -> (s: String)
    requires
        bytes.len() <= usize::MAX / 2,
    ensures
        s@ == base64_standard(bytes@),
{
    base64::engine::general_purpose::STANDARD.encode(bytes)
}

/// HTTP success: a status in `200..=299`.
pub open spec fn is_success(status: u16) -> bool {
    200 <= status <= 299
}

/// The answer to hls.js for a fetched resource: the body in base64 on
/// success; otherwise an error naming the status (`status_text`, as
/// `StatusCode` displays it) and the URL.
pub fn hls_resource(
    url: &str,
    status: u16,
    status_text: &str,
    content_type: Option<String>,
    body: &[u8],
) -> (r: Result<HlsResource, AppError>)
    requires
        body.len() <= usize::MAX / 2,
    ensures
        is_success(status) ==> (r matches Ok(res) && res.data_base64@ == base64_standard(body@)
            && res.status == status && res.content_type == content_type),
        !is_success(status) ==> (r matches Err(AppError::Other(m)) && m@
            == "HLS resource fetch failed ("@ + status_text@ + "): "@ + url@),
{
    if !(200 <= status && status <= 299) {
        let mut m = String::new();
        m.push_str("HLS resource fetch failed (");
        m.push_str(status_text);
        m.push_str("): ");
        m.push_str(url);
        return Err(AppError::Other(m));
    }
    Ok(HlsResource { data_base64: base64_encode(body), content_type, status })
}

// ---------------------------------------------------------------------------
// Payloads
// ---------------------------------------------------------------------------

/// The outcome of a password login.
#[derive(Debug, Clone)]
pub enum LoginResult {
    Success,
    Mfa { mfa_session: Option<String> },
    InvalidCredentials,
}

/// A video/audio track pair offered for playback.
#[derive(Debug, Clone)]
pub struct PickedQuality {
    pub video_track: String,
    pub audio_track: String,
    pub label: Option<String>,
}

/// A downloaded video as the library view lists it.
#[derive(Debug, Clone)]
pub struct LibraryVideoItem {
    pub id: String,
    pub title: String,
    pub duration_sec: i64,
    pub uploader_id: Option<String>,
    pub uploader_name: Option<String>,
    pub view_count: Option<i64>,
    pub posted_at: Option<i64>,
    pub downloaded_at: Option<i64>,
    /// `"1280x720"`.
    pub resolution: Option<String>,
    /// The original, remote thumbnail URL.
    pub thumbnail_url: Option<String>,
    /// Absolute path of the local thumbnail.
    pub local_thumbnail_path: Option<String>,
    /// Absolute path of the local video.
    pub local_video_path: Option<String>,
    pub tags: Vec<String>,
}

/// A stored comment as the local player wants it.
#[derive(Debug, Clone)]
pub struct LocalPlayerComment {
    pub id: String,
    pub no: i64,
    pub vpos_ms: i64,
    pub content: String,
    pub mail: String,
    pub commands: Vec<String>,
    pub user_id: Option<String>,
    pub posted_at: Option<String>,
    pub fork: String,
    pub is_owner: bool,
    pub nicoru_count: Option<i64>,
    pub score: Option<i64>,
}

#[derive(Debug, Clone)]
pub struct LibraryTag {
    pub name: String,
    pub is_locked: bool,
}

/// What the local player needs of a downloaded video.
#[derive(Debug, Clone)]
pub struct LocalPlaybackPayload {
    pub video_id: String,
    pub title: String,
    pub description: Option<String>,
    pub duration_sec: i64,
    pub uploader_id: Option<String>,
    pub uploader_name: Option<String>,
    pub uploader_type: Option<String>,
    pub view_count: Option<i64>,
    pub comment_count: Option<i64>,
    pub mylist_count: Option<i64>,
    pub posted_at: Option<i64>,
    pub thumbnail_url: Option<String>,
    pub tags: Vec<LibraryTag>,
    /// Absolute path of the video.
    pub local_video_path: String,
    /// Absolute path of a separate audio track, when there is one.
    pub local_audio_path: Option<String>,
    pub local_thumbnail_path: Option<String>,
    pub comments: Vec<LocalPlayerComment>,
}

/// Facts about the installation shown on the settings page.
#[derive(Debug, Clone)]
pub struct AppInfo {
    pub version: String,
    pub identifier: String,
    pub data_dir: String,
    pub videos_dir: String,
    pub db_path: String,
    pub local_server_port: u16,
    pub ytdlp_available: bool,
    pub ytdlp_version: Option<String>,
    /// `bundled`, `sidecar`, `system_path` or `not_found`.
    pub ytdlp_source: String,
    pub ytdlp_path: String,
    pub ffmpeg_available: bool,
    pub ffmpeg_version: Option<String>,
    pub ffmpeg_source: String,
    pub ffmpeg_path: String,
    pub library_video_count: i64,
    pub library_videos_size_bytes: u64,
}

/// The application identifier reported in [`AppInfo`].
pub const APP_IDENTIFIER: &'static str = "in.yajuvideo.nndd-next";

// ---------------------------------------------------------------------------
// Stored comments for the local player
// ---------------------------------------------------------------------------

/// A stored comment row as the local player gets it: the commands are the
/// whitespace-separated words of `mail` (absent mail is empty), the fork is
/// `owner` for the uploader's comments and `main` otherwise, and the row id
/// and posting time become decimal text.
pub open spec fn local_comment_matches(
    c: LocalPlayerComment,
    id: i64,
    no: i64,
    vpos_ms: i64,
    content: Seq<char>,
    mail: Option<Seq<char>>,
    user_hash: Option<Seq<char>>,
    is_owner: bool,
    posted_at: Option<i64>,
) -> bool {
    let m = match mail {
        Some(x) => x,
        None => Seq::empty(),
    };
    &&& c.id@ == crate::text::dec_int(id as int)
    &&& c.no == no
    &&& c.vpos_ms == vpos_ms
    &&& c.content@ == content
    &&& c.mail@ == m
    &&& crate::text::string_views(c.commands@) == crate::text::words(m)
    &&& crate::comment::opt_view(c.user_id) == user_hash
    &&& crate::comment::opt_view(c.posted_at) == match posted_at {
        Some(t) => Some(crate::text::dec_int(t as int)),
        None => None,
    }
    &&& c.fork@ == (if is_owner {
        "owner"@
    } else {
        "main"@
    })
    &&& c.is_owner == is_owner
    &&& c.nicoru_count is None
    &&& c.score is None
}

/// A stored comment row keeps its meaning in the local player: its `no`
/// stays the comment number and its `vpos_ms` the time (in milliseconds)
/// at which it is shown, its text, mail and user are those stored, and it
/// belongs to the `owner` fork exactly when it is the uploader's.
pub proof fn law_local_comment_keeps_the_row(
    c: LocalPlayerComment,
    id: i64,
    no: i64,
    vpos_ms: i64,
    content: Seq<char>,
    mail: Option<Seq<char>>,
    user_hash: Option<Seq<char>>,
    is_owner: bool,
    posted_at: Option<i64>,
)
    requires
        local_comment_matches(c, id, no, vpos_ms, content, mail, user_hash, is_owner, posted_at),
    ensures
        c.no == no,
        c.vpos_ms == vpos_ms,
        c.content@ == content,
        mail matches Some(m) ==> c.mail@ == m,
        mail is None ==> c.mail@.len() == 0,
        crate::comment::opt_view(c.user_id) == user_hash,
        c.is_owner == is_owner,
        is_owner ==> c.fork@ == "owner"@,
        !is_owner ==> c.fork@ == "main"@,
        posted_at is None <==> c.posted_at is None,
{
}

pub fn local_player_comment(
    id: i64,
    no: i64,
    vpos_ms: i64,
    content: String,
    mail: Option<String>,
    user_hash: Option<String>,
    is_owner: bool,
    posted_at: Option<i64>,
) -> (c: LocalPlayerComment)
    ensures
        local_comment_matches(
            c,
            id,
            no,
            vpos_ms,
            content@,
            crate::comment::opt_view(mail),
            crate::comment::opt_view(user_hash),
            is_owner,
            posted_at,
        ),
{
    let mail_str = match mail {
        Some(m) => m,
        None => String::new(),
    };
    let commands = crate::text::split_whitespace_of(mail_str.as_str());
    let mut id_s = String::new();
    crate::text::push_dec_i64(&mut id_s, id);
    let posted = match posted_at {
        Some(t) => {
            let mut s = String::new();
            crate::text::push_dec_i64(&mut s, t);
            Some(s)
        },
        None => None,
    };
    let mut fork = String::new();
    if is_owner {
        fork.push_str("owner");
    } else {
        fork.push_str("main");
    }
    LocalPlayerComment {
        id: id_s,
        no,
        vpos_ms,
        content,
        mail: mail_str,
        commands,
        user_id: user_hash,
        posted_at: posted,
        fork,
        is_owner,
        nicoru_count: None,
        score: None,
    }
}


// ---------------------------------------------------------------------------
// Library listing
// ---------------------------------------------------------------------------

/// `n` SQL placeholders joined by commas: `?,?,?`.
pub open spec fn placeholders(n: nat) -> Seq<char>
    decreases n,
{
    if n == 0 {
        Seq::empty()
    } else if n == 1 {
        "?"@
    } else {
        placeholders((n - 1) as nat) + ",?"@
    }
}

pub fn sql_placeholders(n: usize) -> (s: String)
    ensures
        s@ == placeholders(n as nat),
{
    let mut s = String::new();
    let mut i: usize = 0;
    while i < n
        invariant
            i <= n,
            s@ == placeholders(i as nat),
        decreases n - i,
    {
        if i == 0 {
            s.push_str("?");
        } else {
            s.push_str(",?");
        }
        i += 1;
    }
    s
}

/// The tag names of rows `(video_id, name)` that belong to `id`, in row order.
pub open spec fn tags_for(rows: Seq<(Seq<char>, Seq<char>)>, id: Seq<char>) -> Seq<Seq<char>>
    decreases rows.len(),
{
    if rows.len() == 0 {
        Seq::empty()
    } else {
        let t = tags_for(rows.drop_last(), id);
        if rows.last().0 == id {
            t.push(rows.last().1)
        } else {
            t
        }
    }
}

/// The tags to set on the `i`-th listed video: the names of its rows, given
/// to the first video with that id that has any (the rows are grouped by id
/// once); `None` leaves the video's tags as they are.
pub open spec fn spec_tags_update(
    ids: Seq<Seq<char>>,
    rows: Seq<(Seq<char>, Seq<char>)>,
    i: int,
) -> Option<Seq<Seq<char>>> {
    let t = tags_for(rows, ids[i]);
    if t.len() > 0 && forall|j: int| 0 <= j < i ==> ids[j] != ids[i] {
        Some(t)
    } else {
        None
    }
}

pub open spec fn row_views(rows: Seq<(String, String)>) -> Seq<(Seq<char>, Seq<char>)> {
    rows.map_values(|r: (String, String)| (r.0@, r.1@))
}

fn tags_of_id(rows: &Vec<(String, String)>, id: &String) -> (r: Vec<String>)
    ensures
        crate::text::string_views(r@) == tags_for(row_views(rows@), id@),
{
    let ghost rv = row_views(rows@);
    let mut out: Vec<String> = Vec::new();
    let mut k: usize = 0;
    assert(rv.take(0) =~= Seq::<(Seq<char>, Seq<char>)>::empty());
    while k < rows.len()
        invariant
            k <= rows.len(),
            rv == row_views(rows@),
            crate::text::string_views(out@) == tags_for(rv.take(k as int), id@),
        decreases rows.len() - k,
    {
        let ghost t = rv.take(k + 1);
        assert(t.drop_last() =~= rv.take(k as int));
        assert(t.last() == (rows@[k as int].0@, rows@[k as int].1@));
        if crate::text::str_eq(rows[k].0.as_str(), id.as_str()) {
            let ghost before = crate::text::string_views(out@);
            out.push(rows[k].1.clone());
            assert(crate::text::string_views(out@) =~= before.push(rows@[k as int].1@));
        }
        k += 1;
    }
    assert(rv.take(rows.len() as int) =~= rv);
    out
}

/// For each listed video (by id), the tags to set from the rows
/// `(video_id, name)` of one tag query.
pub fn tags_updates(ids: &Vec<String>, rows: &Vec<(String, String)>) -> (r: Vec<
    Option<Vec<String>>,
>)
    ensures
        r@.len() == ids@.len(),
        forall|i: int|
            0 <= i < ids@.len() ==> match #[trigger] r@[i] {
                Some(t) => spec_tags_update(crate::text::string_views(ids@), row_views(rows@), i)
                    == Some(crate::text::string_views(t@)),
                None => spec_tags_update(crate::text::string_views(ids@), row_views(rows@), i)
                    is None,
            },
{
    let ghost iv = crate::text::string_views(ids@);
    let ghost rv = row_views(rows@);
    let mut out: Vec<Option<Vec<String>>> = Vec::new();
    let mut i: usize = 0;
    while i < ids.len()
        invariant
            i <= ids.len(),
            out@.len() == i,
            iv == crate::text::string_views(ids@),
            rv == row_views(rows@),
            forall|k: int|
                0 <= k < i ==> match #[trigger] out@[k] {
                    Some(t) => spec_tags_update(iv, rv, k) == Some(crate::text::string_views(t@)),
                    None => spec_tags_update(iv, rv, k) is None,
                },
        decreases ids.len() - i,
    {
        let mut first = true;
        let mut j: usize = 0;
        while j < i
            invariant
                j <= i,
                i < ids.len(),
                iv == crate::text::string_views(ids@),
                first == (forall|k: int| 0 <= k < j ==> iv[k] != iv[i as int]),
            decreases i - j,
        {
            assert(iv[j as int] == ids@[j as int]@ && iv[i as int] == ids@[i as int]@);
            if crate::text::str_eq(ids[j].as_str(), ids[i].as_str()) {
                first = false;
            }
            j += 1;
        }
        let t = tags_of_id(rows, &ids[i]);
        let u = if first && t.len() > 0 {
            Some(t)
        } else {
            None
        };
        proof {
            assert(iv[i as int] == ids@[i as int]@);
        }
        out.push(u);
        i += 1;
    }
    out
}


// ---------------------------------------------------------------------------
// Small decisions of the commands
// ---------------------------------------------------------------------------

/// The version a tool prints: its first output line, trimmed; `None` when
/// that is empty.
pub open spec fn spec_version_line(out: Seq<char>) -> Option<Seq<char>> {
    let ls = crate::text::lines(out);
    let first = if ls.len() > 0 {
        ls[0]
    } else {
        Seq::empty()
    };
    let t = crate::text::trim(first);
    if t.len() == 0 {
        None
    } else {
        Some(t)
    }
}

/// The version line of a tool's `--version` output (decoded as lossy UTF-8).
pub fn version_line(stdout: &[u8]) -> (r: Option<String>)
    ensures
        crate::comment::opt_view(r) == spec_version_line(crate::text::spec_utf8_lossy(stdout@)),
{
    let text = crate::text::utf8_lossy(stdout);
    let ls = crate::text::lines_of(text.as_str());
    let first: Vec<char> = if ls.len() > 0 {
        crate::text::subvec(&ls[0], 0, ls[0].len())
    } else {
        Vec::new()
    };
    proof {
        if ls.len() > 0 {
            assert(first@ =~= crate::text::views(ls@)[0]);
        }
    }
    let t = crate::text::trim_chars(&first);
    if t.len() == 0 {
        None
    } else {
        Some(crate::text::string_from(&t))
    }
}

/// The files a storage cleanup keeps in a video's directory: the video,
/// its thumbnail and its description; everything else goes.
pub open spec fn spec_is_kept_file(name: Seq<char>) -> bool {
    name == "video.mp4"@ || name == "thumbnail.jpg"@ || name == "description.txt"@
}

pub fn is_kept_file(name: &str) -> (r: bool)
    ensures
        r == spec_is_kept_file(name@),
{
    crate::text::str_eq(name, "video.mp4") || crate::text::str_eq(name, "thumbnail.jpg")
        || crate::text::str_eq(name, "description.txt")
}

/// The error shown when a re-mux fails: the first 20 lines of ffmpeg's
/// stderr.
pub fn remux_failure(stderr: &str) -> (e: AppError)
    ensures
        e matches AppError::Other(m) && m@ == "ffmpeg 失敗:\n"@ + crate::text::join_first(
            crate::text::lines(stderr@),
            20,
            "\n"@,
        ),
{
    let mut m = String::new();
    m.push_str("ffmpeg 失敗:\n");
    let body = crate::text::first_lines(stderr, 20);
    m.push_str(body.as_str());
    AppError::Other(m)
}

/// Whether a queued download may start: not while it is already
/// downloading, and only for a valid video id (checked before the row is
/// marked, so a bad row cannot stay `downloading` forever).
pub fn check_startable(status: &str, video_id: &str) -> (r: Result<(), AppError>)
    ensures
        status@ == "downloading"@ ==> (r matches Err(AppError::Other(m)) && m@ == "既に DL 中です"@),
        status@ != "downloading"@ ==> match r {
            Ok(()) => is_valid_video_id(video_id@),
            Err(AppError::Other(m)) => !is_valid_video_id(video_id@) && m@ == invalid_id_message(
                "video_id"@,
                video_id@,
            ),
            Err(_) => false,
        },
{
    if crate::text::str_eq(status, "downloading") {
        let mut m = String::new();
        m.push_str("既に DL 中です");
        return Err(AppError::Other(m));
    }
    validate_video_id(video_id)
}

} // verus!
