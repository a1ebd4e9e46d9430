//! An uploader's video list from the NV API: the request URL and the items
//! read out of the answer, whichever of the API's layouts it has.
use vstd::prelude::*;

use crate::commands::invalid_id_message;
use crate::error::AppError;
use crate::json::{
    array_of, as_array, as_i64, as_str, get, get_opt, i64_of, is_object, is_object_value, opt,
    str_of, Json,
};
use crate::text::{dec, parse_i64, parse_i64_chars, chars_of, push_dec, str_eq};

verus! {

// ---------------------------------------------------------------------------
// Uploader videos (NV API)
// ---------------------------------------------------------------------------

#[derive(Debug, Clone)]
pub struct UserVideoItem {
    pub content_id: String,
    pub title: String,
    pub thumbnail_url: Option<String>,
    pub length_seconds: Option<i64>,
    pub view_counter: Option<i64>,
    pub comment_counter: Option<i64>,
    pub mylist_counter: Option<i64>,
    pub start_time: Option<String>,
    pub user_id: Option<i64>,
    pub channel_id: Option<i64>,
}

#[derive(Debug, Clone)]
pub struct UserVideosResponse {
    pub total_count: i64,
    pub items: Vec<UserVideoItem>,
    pub debug_raw: Option<String>,
}

/// The NV API listing of an uploader's videos: channels under
/// `v1/channels`, users under `v2/users`.
pub open spec fn spec_user_videos_url(
    owner_kind: Seq<char>,
    owner_id: Seq<char>,
    page: u32,
    page_size: u32,
    sort_key: Seq<char>,
    sort_order: Seq<char>,
) -> Seq<char> {
    (if owner_kind == "channel"@ {
        "https://nvapi.nicovideo.jp/v1/channels/"@
    } else {
        "https://nvapi.nicovideo.jp/v2/users/"@
    }) + owner_id + "/videos?page="@ + dec(page as nat) + "&pageSize="@
        + dec(page_size as nat) + "&sortKey="@ + sort_key + "&sortOrder="@
        + sort_order
}

/// A channel's videos are listed under `v1/channels/<id>`, anyone else's
/// under `v2/users/<id>`; the page number comes before the page size, then
/// the sort key and the sort order.
pub proof fn law_user_videos_url_places_each_argument(
    owner_kind: Seq<char>,
    owner_id: Seq<char>,
    page: u32,
    page_size: u32,
    sort_key: Seq<char>,
    sort_order: Seq<char>,
)
    ensures
        spec_user_videos_url(owner_kind, owner_id, page, page_size, sort_key, sort_order) == (if owner_kind
            == "channel"@ {
            "https://nvapi.nicovideo.jp/v1/channels/"@
        } else {
            "https://nvapi.nicovideo.jp/v2/users/"@
        }) + owner_id + "/videos?page="@ + dec(page as nat) + "&pageSize="@ + dec(page_size as nat)
            + "&sortKey="@ + sort_key + "&sortOrder="@ + sort_order,
{
}

pub fn user_videos_url(
    owner_kind: &str,
    owner_id: &str,
    page: u32,
    page_size: u32,
    sort_key: &str,
    sort_order: &str,
) -> (s: String)
    ensures
        s@ == spec_user_videos_url(owner_kind@, owner_id@, page, page_size, sort_key@, sort_order@),
{
    let mut s = String::new();
    if crate::text::str_eq(owner_kind, "channel") {
        s.push_str("https://nvapi.nicovideo.jp/v1/channels/");
    } else {
        s.push_str("https://nvapi.nicovideo.jp/v2/users/");
    }
    s.push_str(owner_id);
    s.push_str("/videos?page=");
    push_dec(&mut s, page as u64);
    s.push_str("&pageSize=");
    push_dec(&mut s, page_size as u64);
    s.push_str("&sortKey=");
    s.push_str(sort_key);
    s.push_str("&sortOrder=");
    s.push_str(sort_order);
    s
}



/// An uploader's video, its text as character sequences.
pub struct UserVideoItemV {
    pub content_id: Seq<char>,
    pub title: Seq<char>,
    pub thumbnail_url: Option<Seq<char>>,
    pub length_seconds: Option<i64>,
    pub view_counter: Option<i64>,
    pub comment_counter: Option<i64>,
    pub mylist_counter: Option<i64>,
    pub start_time: Option<Seq<char>>,
    pub user_id: Option<i64>,
    pub channel_id: Option<i64>,
}

impl View for UserVideoItem {
    type V = UserVideoItemV;

    open spec fn view(&self) -> UserVideoItemV {
        UserVideoItemV {
            content_id: self.content_id@,
            title: self.title@,
            thumbnail_url: crate::comment::opt_view(self.thumbnail_url),
            length_seconds: self.length_seconds,
            view_counter: self.view_counter,
            comment_counter: self.comment_counter,
            mylist_counter: self.mylist_counter,
            start_time: crate::comment::opt_view(self.start_time),
            user_id: self.user_id,
            channel_id: self.channel_id,
        }
    }
}

/// The first of two members that is a string.
pub open spec fn first_str(a: Option<Json>, b: Option<Json>) -> Option<Seq<char>> {
    match as_str(a) {
        Some(x) => Some(x),
        None => as_str(b),
    }
}

/// The first of two members that is an `i64`.
pub open spec fn first_i64(a: Option<Json>, b: Option<Json>) -> Option<i64> {
    match as_i64(a) {
        Some(x) => Some(x),
        None => as_i64(b),
    }
}

/// An id given as a number or as decimal text.
pub open spec fn spec_parse_id(v: Option<Json>) -> Option<i64> {
    match as_i64(v) {
        Some(n) => Some(n),
        None => match as_str(v) {
            Some(s) => parse_i64(s),
            None => None,
        },
    }
}

/// The video object of a list entry: its `essential` member when that is
/// an object, else the entry itself.
pub open spec fn video_of(raw: Json) -> Option<Json> {
    let e = get(Some(raw), "essential"@);
    if is_object(e) {
        e
    } else {
        Some(raw)
    }
}

/// The item of a video object whose id is `id`.
pub open spec fn item_fields(v: Option<Json>, id: Seq<char>) -> UserVideoItemV {
    let owner = get(v, "owner"@);
    let thumb = get(v, "thumbnail"@);
    let count = get(v, "count"@);
    UserVideoItemV {
        content_id: id,
        title: match as_str(get(v, "title"@)) {
            Some(t) => t,
            None => "(無題)"@,
        },
        thumbnail_url: match first_str(get(thumb, "url"@), get(thumb, "listingUrl"@)) {
            Some(x) => Some(x),
            None => as_str(get(v, "thumbnailUrl"@)),
        },
        length_seconds: first_i64(get(v, "duration"@), get(v, "lengthSeconds"@)),
        view_counter: first_i64(get(count, "view"@), get(v, "viewCounter"@)),
        comment_counter: first_i64(get(count, "comment"@), get(v, "commentCounter"@)),
        mylist_counter: first_i64(get(count, "mylist"@), get(v, "mylistCounter"@)),
        start_time: first_str(get(v, "registeredAt"@), get(v, "startTime"@)),
        user_id: match spec_parse_id(get(owner, "id"@)) {
            Some(n) => Some(n),
            None => spec_parse_id(get(v, "userId"@)),
        },
        channel_id: if as_str(get(owner, "ownerType"@)) == Some("channel"@) || as_str(
            get(owner, "type"@),
        ) == Some("channel"@) {
            spec_parse_id(get(owner, "id"@))
        } else {
            None
        },
    }
}

/// The id of a video object: `id`, else `contentId`, else empty.
pub open spec fn item_id(v: Option<Json>) -> Seq<char> {
    match first_str(get(v, "id"@), get(v, "contentId"@)) {
        Some(s) => s,
        None => Seq::empty(),
    }
}

/// One list entry; `None` when it has no non-empty `id` / `contentId`.
pub open spec fn spec_user_video_item(raw: Json) -> Option<UserVideoItemV> {
    let v = video_of(raw);
    let id = item_id(v);
    if id.len() == 0 {
        None
    } else {
        Some(item_fields(v, id))
    }
}

/// Each counter of a listed video comes from the count of the same name:
/// `count.view` is its view count, `count.comment` its comment count and
/// `count.mylist` its mylist count (else the flat `viewCounter`,
/// `commentCounter`, `mylistCounter`); its title is `title`, its length
/// `duration` (else `lengthSeconds`), and an object with an `id` is always
/// listed under that id.
pub proof fn law_item_counters_come_from_same_named_counts(raw: Json)
    ensures
        ({
            let v = video_of(raw);
            let count = get(v, "count"@);
            &&& as_str(get(v, "id"@)) matches Some(id) ==> (id.len() > 0 ==> (spec_user_video_item(
                raw,
            ) matches Some(it) && it.content_id == id))
            &&& spec_user_video_item(raw) matches Some(it) ==> {
                &&& as_i64(get(count, "view"@)) matches Some(n) ==> it.view_counter == Some(n)
                &&& as_i64(get(count, "comment"@)) matches Some(n) ==> it.comment_counter == Some(n)
                &&& as_i64(get(count, "mylist"@)) matches Some(n) ==> it.mylist_counter == Some(n)
                &&& as_i64(get(count, "view"@)) is None ==> it.view_counter == as_i64(
                    get(v, "viewCounter"@),
                )
                &&& as_i64(get(count, "comment"@)) is None ==> it.comment_counter == as_i64(
                    get(v, "commentCounter"@),
                )
                &&& as_i64(get(count, "mylist"@)) is None ==> it.mylist_counter == as_i64(
                    get(v, "mylistCounter"@),
                )
                &&& as_str(get(v, "title"@)) matches Some(t) ==> it.title == t
                &&& as_i64(get(v, "duration"@)) matches Some(d) ==> it.length_seconds == Some(d)
            }
        }),
{
}

/// The entries of the answer: `data.items`, `data.videosList.items`,
/// `data.videos` or `data.videoList.items`, the first that is an array.
pub open spec fn items_array(json: Json) -> Seq<Json> {
    let d = get(Some(json), "data"@);
    match as_array(get(d, "items"@)) {
        Some(a) => a,
        None => match as_array(get(get(d, "videosList"@), "items"@)) {
            Some(a) => a,
            None => match as_array(get(d, "videos"@)) {
                Some(a) => a,
                None => match as_array(get(get(d, "videoList"@), "items"@)) {
                    Some(a) => a,
                    None => Seq::empty(),
                },
            },
        },
    }
}

pub open spec fn items_of(raws: Seq<Json>) -> Seq<UserVideoItemV>
    decreases raws.len(),
{
    if raws.len() == 0 {
        Seq::empty()
    } else {
        let rest = items_of(raws.drop_last());
        match spec_user_video_item(raws.last()) {
            Some(v) => rest.push(v),
            None => rest,
        }
    }
}

/// `data.totalCount`, else `meta.totalCount`, else 0.
pub open spec fn spec_total_count(json: Json) -> i64 {
    match as_i64(get(get(Some(json), "data"@), "totalCount"@)) {
        Some(n) => n,
        None => match as_i64(get(get(Some(json), "meta"@), "totalCount"@)) {
            Some(n) => n,
            None => 0,
        },
    }
}

pub open spec fn item_views(v: Seq<UserVideoItem>) -> Seq<UserVideoItemV> {
    v.map_values(|i: UserVideoItem| i@)
}

fn first_str_of(a: Option<&Json>, b: Option<&Json>) -> (r: Option<String>)
    ensures
        crate::comment::opt_view(r) == first_str(opt(a), opt(b)),
{
    match str_of(a) {
        Some(x) => Some(x),
        None => str_of(b),
    }
}

fn first_i64_of(a: Option<&Json>, b: Option<&Json>) -> (r: Option<i64>)
    ensures
        r == first_i64(opt(a), opt(b)),
{
    match i64_of(a) {
        Some(x) => Some(x),
        None => i64_of(b),
    }
}

fn parse_id_of(v: Option<&Json>) -> (r: Option<i64>)
    ensures
        r == spec_parse_id(opt(v)),
{
    match i64_of(v) {
        Some(n) => Some(n),
        None => match str_of(v) {
            Some(s) => {
                let c = chars_of(s.as_str());
                parse_i64_chars(&c)
            },
            None => None,
        },
    }
}

fn is_channel(v: Option<&Json>) -> (r: bool)
    ensures
        r == (as_str(opt(v)) == Some("channel"@)),
{
    match str_of(v) {
        Some(s) => str_eq(s.as_str(), "channel"),
        None => false,
    }
}

fn counters(v: &Json) -> (r: (Option<i64>, Option<i64>, Option<i64>, Option<i64>))
    ensures
        ({
            let vo = Some(*v);
            let count = get(vo, "count"@);
            r == (
                first_i64(get(vo, "duration"@), get(vo, "lengthSeconds"@)),
                first_i64(get(count, "view"@), get(vo, "viewCounter"@)),
                first_i64(get(count, "comment"@), get(vo, "commentCounter"@)),
                first_i64(get(count, "mylist"@), get(vo, "mylistCounter"@)),
            )
        }),
{
    let vo = Some(v);
    let count = get_opt(vo, "count");
    (
        first_i64_of(get_opt(vo, "duration"), get_opt(vo, "lengthSeconds")),
        first_i64_of(get_opt(count, "view"), get_opt(vo, "viewCounter")),
        first_i64_of(get_opt(count, "comment"), get_opt(vo, "commentCounter")),
        first_i64_of(get_opt(count, "mylist"), get_opt(vo, "mylistCounter")),
    )
}

fn owner_ids(v: &Json) -> (r: (Option<i64>, Option<i64>))
    ensures
        ({
            let vo = Some(*v);
            let owner = get(vo, "owner"@);
            r == (
                match spec_parse_id(get(owner, "id"@)) {
                    Some(n) => Some(n),
                    None => spec_parse_id(get(vo, "userId"@)),
                },
                if as_str(get(owner, "ownerType"@)) == Some("channel"@) || as_str(
                    get(owner, "type"@),
                ) == Some("channel"@) {
                    spec_parse_id(get(owner, "id"@))
                } else {
                    None
                },
            )
        }),
{
    let vo = Some(v);
    let owner = get_opt(vo, "owner");
    let user_id = match parse_id_of(get_opt(owner, "id")) {
        Some(n) => Some(n),
        None => parse_id_of(get_opt(vo, "userId")),
    };
    let channel_id = if is_channel(get_opt(owner, "ownerType")) || is_channel(
        get_opt(owner, "type"),
    ) {
        parse_id_of(get_opt(owner, "id"))
    } else {
        None
    };
    (user_id, channel_id)
}

fn texts(v: &Json) -> (r: (String, Option<String>, Option<String>))
    ensures
        ({
            let vo = Some(*v);
            let thumb = get(vo, "thumbnail"@);
            &&& r.0@ == match as_str(get(vo, "title"@)) {
                Some(t) => t,
                None => "(無題)"@,
            }
            &&& crate::comment::opt_view(r.1) == match first_str(
                get(thumb, "url"@),
                get(thumb, "listingUrl"@),
            ) {
                Some(x) => Some(x),
                None => as_str(get(vo, "thumbnailUrl"@)),
            }
            &&& crate::comment::opt_view(r.2) == first_str(
                get(vo, "registeredAt"@),
                get(vo, "startTime"@),
            )
        }),
{
    let vo = Some(v);
    let thumb = get_opt(vo, "thumbnail");
    let title = match str_of(get_opt(vo, "title")) {
        Some(t) => t,
        None => {
            let mut t = String::new();
            t.push_str("(無題)");
            t
        },
    };
    let thumbnail_url = match first_str_of(get_opt(thumb, "url"), get_opt(thumb, "listingUrl")) {
        Some(x) => Some(x),
        None => str_of(get_opt(vo, "thumbnailUrl")),
    };
    let start = first_str_of(get_opt(vo, "registeredAt"), get_opt(vo, "startTime"));
    (title, thumbnail_url, start)
}

/// One list entry of the answer; `None` without a non-empty id.
pub fn user_video_item(raw: &Json) -> (r: Option<UserVideoItem>)
    ensures
        match r {
            Some(it) => spec_user_video_item(*raw) == Some(it@),
            None => spec_user_video_item(*raw) is None,
        },
{
    let e = crate::json::get_field(raw, "essential");
    let v: &Json = if is_object_value(e) {
        match e {
            Some(x) => x,
            None => raw,
        }
    } else {
        raw
    };
    assert(video_of(*raw) == Some(*v));
    let vo = Some(v);
    let id = match first_str_of(get_opt(vo, "id"), get_opt(vo, "contentId")) {
        Some(s) => s,
        None => String::new(),
    };
    assert(id@ == item_id(Some(*v)));
    if id.as_str().is_empty() {
        return None;
    }
    let (length_seconds, view_counter, comment_counter, mylist_counter) = counters(v);
    let (user_id, channel_id) = owner_ids(v);
    let (title, thumbnail_url, start_time) = texts(v);
    let item = UserVideoItem {
        content_id: id,
        title,
        thumbnail_url,
        length_seconds,
        view_counter,
        comment_counter,
        mylist_counter,
        start_time,
        user_id,
        channel_id,
    };
    assert(item@ == item_fields(Some(*v), id@));
    Some(item)
}

fn items_array_of(json: &Json) -> (r: Option<&Vec<Json>>)
    ensures
        match r {
            Some(a) => items_array(*json) == a@,
            None => items_array(*json) == Seq::<Json>::empty(),
        },
{
    let d = crate::json::get_field(json, "data");
    match array_of(get_opt(d, "items")) {
        Some(a) => Some(a),
        None => match array_of(get_opt(get_opt(d, "videosList"), "items")) {
            Some(a) => Some(a),
            None => match array_of(get_opt(d, "videos")) {
                Some(a) => Some(a),
                None => array_of(get_opt(get_opt(d, "videoList"), "items")),
            },
        },
    }
}

/// The uploader's videos of an NV API answer; `body` is the answer's text,
/// of which the first 2000 characters are kept for diagnosis.
pub fn parse_user_videos(json: &Json, body: &str) -> (r: UserVideosResponse)
    ensures
        r.total_count == spec_total_count(*json),
        item_views(r.items@) == items_of(items_array(*json)),
        crate::comment::opt_view(r.debug_raw) == Some(crate::text::prefix_chars(body@, 2000)),
{
    let total_count = match i64_of(get_opt(crate::json::get_field(json, "data"), "totalCount")) {
        Some(n) => n,
        None => match i64_of(get_opt(crate::json::get_field(json, "meta"), "totalCount")) {
            Some(n) => n,
            None => 0,
        },
    };
    let mut items: Vec<UserVideoItem> = Vec::new();
    match items_array_of(json) {
        None => {
            assert(item_views(items@) =~= items_of(Seq::<Json>::empty()));
        },
        Some(raws) => {
            let mut i: usize = 0;
            assert(raws@.take(0) =~= Seq::<Json>::empty());
            assert(item_views(items@) =~= items_of(raws@.take(0)));
            while i < raws.len()
                invariant
                    i <= raws.len(),
                    item_views(items@) == items_of(raws@.take(i as int)),
                decreases raws.len() - i,
            {
                let ghost t = raws@.take(i + 1);
                assert(t.drop_last() =~= raws@.take(i as int));
                assert(t.last() == raws@[i as int]);
                let ghost before = item_views(items@);
                match user_video_item(&raws[i]) {
                    Some(it) => {
                        items.push(it);
                        assert(item_views(items@) =~= before.push(it@));
                    },
                    None => {},
                }
                i += 1;
            }
            assert(raws@.take(raws.len() as int) =~= raws@);
        },
    }
    UserVideosResponse {
        total_count,
        items,
        debug_raw: Some(crate::text::take_chars(body, 2000)),
    }
}

/// The error for an answer other than success: its status (`status_text`,
/// as `StatusCode` displays it) and the first 200 characters of its body.
pub fn user_videos_error(status_text: &str, body: &str) -> (e: AppError)
    ensures
        e matches AppError::Other(m) && m@ == "ユーザー動画 API エラー ("@ + status_text@ + "): "@
            + crate::text::prefix_chars(body@, 200),
{
    let preview = crate::text::take_chars(body, 200);
    let mut m = String::new();
    m.push_str("ユーザー動画 API エラー (");
    m.push_str(status_text);
    m.push_str("): ");
    m.push_str(preview.as_str());
    AppError::Other(m)
}

} // verus!
