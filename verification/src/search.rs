//! The Snapshot Search API v2 client's logic: checking a query against the
//! API's limits, the query string it becomes, and the error an answer other
//! than HTTP 200 means.  The HTTP exchange itself belongs to the caller.
//!
//! Endpoint: `https://snapshot.search.nicovideo.jp/api/v2/snapshot/video/contents/search`.
use vstd::prelude::*;

use crate::api_types::{
    field_name, op_key, sort_param, target_name, FilterClause, FilterOp, SearchField, SearchQuery,
    SearchTarget, SortDirection, APP_VERSION,
};
use crate::error::ApiError;
use crate::json::{as_str, field_of, Json};
use crate::text::{dec, join, push_dec, spec_utf8_lossy, utf8_lossy};
use crate::weburl::{pair_views, parse_url, spec_url_parse, spec_url_with_query, url_with_query};

verus! {

/// Hard cap of the API on `_offset`; above it the server answers HTTP 400.
pub const MAX_OFFSET: u32 = 100_000;

/// Hard cap of the API on `_limit`.
pub const MAX_LIMIT: u32 = 100;

/// Longest `_context` the API accepts, in characters.
pub const MAX_CONTEXT_LEN: usize = 40;

/// The production endpoint's origin.
pub const PRODUCTION_BASE: &'static str = "https://snapshot.search.nicovideo.jp";

/// The search path under the base URL.
pub const SEARCH_PATH: &'static str = "/api/v2/snapshot/video/contents/search";

// ---------------------------------------------------------------------------
// Validation
// ---------------------------------------------------------------------------

/// The first limit a query breaks, as the message of the refusal; `Ok` when
/// it breaks none.
pub open spec fn spec_validate(q: SearchQuery) -> Result<(), Seq<char>> {
    if q.q@.len() == 0 {
        Err("`q` must not be empty"@)
    } else if q.targets@.len() == 0 {
        Err("`targets` must not be empty"@)
    } else if q.offset > MAX_OFFSET {
        Err("`offset` must be ≤ 100000 (was "@ + dec(q.offset as nat) + ")"@)
    } else if q.limit == 0 || q.limit > MAX_LIMIT {
        Err("`limit` must be in 1..=100 (was "@ + dec(q.limit as nat) + ")"@)
    } else if q.context@.len() == 0 || q.context@.len() > MAX_CONTEXT_LEN {
        Err("`context` must be 1..=40 characters"@)
    } else {
        Ok(())
    }
}

/// A query as `SearchQuery::new` makes it (offset 0, the default limit and
/// context) passes validation whenever its text and its targets are not
/// empty.
pub proof fn law_new_query_is_valid(q: SearchQuery)
    requires
        q.q@.len() > 0,
        q.targets@.len() > 0,
        q.offset == 0,
        q.limit == 10,
        q.context@ == crate::api_types::spec_default_context(),
    ensures
        spec_validate(q) is Ok,
{
    reveal_strlit("Re:NNDD/");
    reveal_strlit("0.1.0");
}

/// Each filter clause of a query becomes one request pair
/// `filters[<field>][<op>]=<value>` (after `q`, `targets` and `fields`, in
/// clause order), where `<field>` is the field's API name and `<op>` names the
/// clause's own comparison: `gt` keeps values above the bound, `gte` at or
/// above, `lt` below, `lte` at or below, and `0` equal to it.
pub proof fn law_filter_pair_names_field_and_operator(q: SearchQuery, i: int)
    requires
        0 <= i < q.filters@.len(),
    ensures
        ({
            let c = q.filters@[i];
            let k = 2 + (if q.fields@.len() == 0 {
                0int
            } else {
                1int
            }) + i;
            let field = match c.field {
                SearchField::ContentId => "contentId"@,
                SearchField::Title => "title"@,
                SearchField::Description => "description"@,
                SearchField::UserId => "userId"@,
                SearchField::ChannelId => "channelId"@,
                SearchField::ViewCounter => "viewCounter"@,
                SearchField::MylistCounter => "mylistCounter"@,
                SearchField::LikeCounter => "likeCounter"@,
                SearchField::LengthSeconds => "lengthSeconds"@,
                SearchField::ThumbnailUrl => "thumbnailUrl"@,
                SearchField::StartTime => "startTime"@,
                SearchField::LastResBody => "lastResBody"@,
                SearchField::CommentCounter => "commentCounter"@,
                SearchField::LastCommentTime => "lastCommentTime"@,
                SearchField::CategoryTags => "categoryTags"@,
                SearchField::Tags => "tags"@,
                SearchField::TagsExact => "tagsExact"@,
                SearchField::Genre => "genre"@,
                SearchField::GenreKeyword => "genre.keyword"@,
                SearchField::ContentType => "contentType"@,
            };
            let prefix = "filters["@ + field + "]["@;
            &&& k < spec_query_pairs(q).len()
            &&& spec_query_pairs(q)[k].1 == c.value@
            &&& c.op == FilterOp::Gt ==> spec_query_pairs(q)[k].0 == prefix + "gt"@ + "]"@
            &&& c.op == FilterOp::Gte ==> spec_query_pairs(q)[k].0 == prefix + "gte"@ + "]"@
            &&& c.op == FilterOp::Lt ==> spec_query_pairs(q)[k].0 == prefix + "lt"@ + "]"@
            &&& c.op == FilterOp::Lte ==> spec_query_pairs(q)[k].0 == prefix + "lte"@ + "]"@
            &&& c.op == FilterOp::Eq ==> spec_query_pairs(q)[k].0 == prefix + "0"@ + "]"@
        }),
{
}

/// The `_sort` pair of a query names the sort field by its API name, after
/// `+` for ascending and `-` for descending.
pub proof fn law_sort_pair_names_field_and_direction(q: SearchQuery)
    requires
        q.sort is Some,
    ensures
        ({
            let s = q.sort->0;
            let k = 2 + (if q.fields@.len() == 0 {
                0int
            } else {
                1int
            }) + q.filters@.len();
            let field = match s.field {
                SearchField::ContentId => "contentId"@,
                SearchField::Title => "title"@,
                SearchField::Description => "description"@,
                SearchField::UserId => "userId"@,
                SearchField::ChannelId => "channelId"@,
                SearchField::ViewCounter => "viewCounter"@,
                SearchField::MylistCounter => "mylistCounter"@,
                SearchField::LikeCounter => "likeCounter"@,
                SearchField::LengthSeconds => "lengthSeconds"@,
                SearchField::ThumbnailUrl => "thumbnailUrl"@,
                SearchField::StartTime => "startTime"@,
                SearchField::LastResBody => "lastResBody"@,
                SearchField::CommentCounter => "commentCounter"@,
                SearchField::LastCommentTime => "lastCommentTime"@,
                SearchField::CategoryTags => "categoryTags"@,
                SearchField::Tags => "tags"@,
                SearchField::TagsExact => "tagsExact"@,
                SearchField::Genre => "genre"@,
                SearchField::GenreKeyword => "genre.keyword"@,
                SearchField::ContentType => "contentType"@,
            };
            &&& k < spec_query_pairs(q).len()
            &&& spec_query_pairs(q)[k].0 == "_sort"@
            &&& s.direction == SortDirection::Asc ==> spec_query_pairs(q)[k].1 == "+"@ + field
            &&& s.direction == SortDirection::Desc ==> spec_query_pairs(q)[k].1 == "-"@ + field
        }),
{
    reveal_strlit("+");
    reveal_strlit("-");
}

/// The `targets` pair lists the targets' API names joined by commas.
pub proof fn law_targets_pair_names_targets(q: SearchQuery)
    ensures
        spec_query_pairs(q)[1] == ("targets"@, join(
            q.targets@.map_values(
                |t: SearchTarget|
                    match t {
                        SearchTarget::Title => "title"@,
                        SearchTarget::Description => "description"@,
                        SearchTarget::Tags => "tags"@,
                        SearchTarget::TagsExact => "tagsExact"@,
                    },
            ),
            ","@,
        )),
{
    assert(target_names(q.targets@) =~= q.targets@.map_values(
        |t: SearchTarget|
            match t {
                SearchTarget::Title => "title"@,
                SearchTarget::Description => "description"@,
                SearchTarget::Tags => "tags"@,
                SearchTarget::TagsExact => "tagsExact"@,
            },
    ));
}

/// The API's limits: a query with text and targets passes exactly when its
/// offset is at most 100000, its limit between 1 and 100 and its context
/// between 1 and 40 characters.
pub proof fn law_validation_limits(q: SearchQuery)
    requires
        q.q@.len() > 0,
        q.targets@.len() > 0,
    ensures
        (spec_validate(q) is Ok) == (q.offset <= 100000 && 1 <= q.limit <= 100 && 1
            <= q.context@.len() <= 40),
{
}

fn invalid(msg: &str) -> (e: ApiError)
    ensures
        e matches ApiError::InvalidQuery(m) && m@ == msg@,
{
    let mut m = String::new();
    m.push_str(msg);
    ApiError::InvalidQuery(m)
}

/// Refuse a query that the API would reject for its limits.
pub fn validate(query: &SearchQuery) -> (r: Result<(), ApiError>)
    ensures
        match r {
            Ok(()) => spec_validate(*query) is Ok,
            Err(ApiError::InvalidQuery(m)) => spec_validate(*query) == Err::<(), Seq<char>>(m@),
            Err(_) => false,
        },
{
    if query.q.as_str().is_empty() {
        return Err(invalid("`q` must not be empty"));
    }
    if query.targets.len() == 0 {
        return Err(invalid("`targets` must not be empty"));
    }
    if query.offset > MAX_OFFSET {
        let mut m = String::new();
        m.push_str("`offset` must be ≤ 100000 (was ");
        push_dec(&mut m, query.offset as u64);
        m.push_str(")");
        return Err(ApiError::InvalidQuery(m));
    }
    if query.limit == 0 || query.limit > MAX_LIMIT {
        let mut m = String::new();
        m.push_str("`limit` must be in 1..=100 (was ");
        push_dec(&mut m, query.limit as u64);
        m.push_str(")");
        return Err(ApiError::InvalidQuery(m));
    }
    let n = char_count(query.context.as_str());
    if n == 0 || n > MAX_CONTEXT_LEN {
        return Err(invalid("`context` must be 1..=40 characters"));
    }
    Ok(())
}

fn char_count(s: &str) -> (n: usize)
    ensures
        n == s@.len(),
{
    let v = crate::text::chars_of(s);
    v.len()
}

// ---------------------------------------------------------------------------
// The query string
// ---------------------------------------------------------------------------

pub open spec fn filter_key(c: FilterClause) -> Seq<char> {
    "filters["@ + field_name(c.field) + "]["@ + op_key(c.op) + "]"@
}

pub open spec fn target_names(ts: Seq<SearchTarget>) -> Seq<Seq<char>> {
    ts.map_values(|t: SearchTarget| target_name(t))
}

pub open spec fn field_names(fs: Seq<SearchField>) -> Seq<Seq<char>> {
    fs.map_values(|f: SearchField| field_name(f))
}

/// The query pairs of a request, in the order they are appended: `q`,
/// `targets` (comma-joined), `fields` when any, one `filters[f][op]` per
/// clause, `_sort` when set, then `_offset`, `_limit` and `_context`.
pub open spec fn spec_query_pairs(q: SearchQuery) -> Seq<(Seq<char>, Seq<char>)> {
    seq![("q"@, q.q@), ("targets"@, join(target_names(q.targets@), ","@))] + (if q.fields@.len()
        == 0 {
        Seq::empty()
    } else {
        seq![("fields"@, join(field_names(q.fields@), ","@))]
    }) + q.filters@.map_values(|c: FilterClause| (filter_key(c), c.value@)) + (match q.sort {
        Some(s) => seq![("_sort"@, sort_param(s))],
        None => Seq::empty(),
    }) + seq![
        ("_offset"@, dec(q.offset as nat)),
        ("_limit"@, dec(q.limit as nat)),
        ("_context"@, q.context@),
    ]
}

fn owned(s: &str) -> (r: String)
    ensures
        r@ == s@,
{
    let mut r = String::new();
    r.push_str(s);
    r
}

fn join_targets(ts: &Vec<SearchTarget>) -> (s: String)
    ensures
        s@ == join(target_names(ts@), ","@),
{
    let ghost names = target_names(ts@);
    let mut s = String::new();
    let mut i: usize = 0;
    assert(names.take(0) =~= Seq::<Seq<char>>::empty());
    while i < ts.len()
        invariant
            i <= ts.len(),
            names == target_names(ts@),
            s@ == join(names.take(i as int), ","@),
        decreases ts.len() - i,
    {
        let ghost p = names.take(i + 1);
        assert(p.drop_last() =~= names.take(i as int));
        if i > 0 {
            s.push_str(",");
        }
        s.push_str(ts[i].as_str());
        proof {
            if i == 0 {
                assert(s@ =~= p[0]);
            } else {
                assert(s@ =~= join(names.take(i as int), ","@) + ","@ + p.last());
            }
        }
        i += 1;
    }
    assert(names.take(ts.len() as int) =~= names);
    s
}

fn join_fields(fs: &Vec<SearchField>) -> (s: String)
    ensures
        s@ == join(field_names(fs@), ","@),
{
    let ghost names = field_names(fs@);
    let mut s = String::new();
    let mut i: usize = 0;
    assert(names.take(0) =~= Seq::<Seq<char>>::empty());
    while i < fs.len()
        invariant
            i <= fs.len(),
            names == field_names(fs@),
            s@ == join(names.take(i as int), ","@),
        decreases fs.len() - i,
    {
        let ghost p = names.take(i + 1);
        assert(p.drop_last() =~= names.take(i as int));
        if i > 0 {
            s.push_str(",");
        }
        s.push_str(fs[i].as_str());
        proof {
            if i == 0 {
                assert(s@ =~= p[0]);
            } else {
                assert(s@ =~= join(names.take(i as int), ","@) + ","@ + p.last());
            }
        }
        i += 1;
    }
    assert(names.take(fs.len() as int) =~= names);
    s
}

/// The query pairs of a request (see [`spec_query_pairs`]).
pub fn search_query_pairs(query: &SearchQuery) -> (r: Vec<(String, String)>)
    ensures
        pair_views(r@) == spec_query_pairs(*query),
{
    let mut out: Vec<(String, String)> = Vec::new();
    out.push((owned("q"), query.q.clone()));
    out.push((owned("targets"), join_targets(&query.targets)));
    let ghost first = seq![("q"@, query.q@), ("targets"@, join(target_names(query.targets@), ","@))];
    assert(pair_views(out@) =~= first);
    let ghost fields_part: Seq<(Seq<char>, Seq<char>)> = if query.fields@.len() == 0 {
        Seq::empty()
    } else {
        seq![("fields"@, join(field_names(query.fields@), ","@))]
    };
    if query.fields.len() > 0 {
        out.push((owned("fields"), join_fields(&query.fields)));
    }
    assert(pair_views(out@) =~= first + fields_part);
    let ghost head = pair_views(out@);
    let ghost fv = query.filters@.map_values(|c: FilterClause| (filter_key(c), c.value@));
    let mut i: usize = 0;
    assert(pair_views(out@) =~= head + fv.take(0));
    while i < query.filters.len()
        invariant
            i <= query.filters.len(),
            fv == query.filters@.map_values(|c: FilterClause| (filter_key(c), c.value@)),
            pair_views(out@) == head + fv.take(i as int),
        decreases query.filters.len() - i,
    {
        let c = &query.filters[i];
        let mut key = String::new();
        key.push_str("filters[");
        key.push_str(c.field.as_str());
        key.push_str("][");
        key.push_str(c.op.as_key());
        key.push_str("]");
        let ghost before = pair_views(out@);
        out.push((key, c.value.clone()));
        assert(pair_views(out@) =~= before.push(fv[i as int]));
        assert(fv.take(i + 1) =~= fv.take(i as int).push(fv[i as int]));
        i += 1;
    }
    assert(fv.take(query.filters.len() as int) =~= fv);
    let ghost mid = pair_views(out@);
    let ghost sort_part: Seq<(Seq<char>, Seq<char>)> = match query.sort {
        Some(s) => seq![("_sort"@, sort_param(s))],
        None => Seq::empty(),
    };
    match &query.sort {
        Some(s) => {
            out.push((owned("_sort"), s.to_param()));
        },
        None => {},
    }
    assert(pair_views(out@) =~= mid + sort_part);
    let ghost mid2 = pair_views(out@);
    let mut off = String::new();
    push_dec(&mut off, query.offset as u64);
    out.push((owned("_offset"), off));
    let mut lim = String::new();
    push_dec(&mut lim, query.limit as u64);
    out.push((owned("_limit"), lim));
    out.push((owned("_context"), query.context.clone()));
    let ghost tail = seq![
        ("_offset"@, dec(query.offset as nat)),
        ("_limit"@, dec(query.limit as nat)),
        ("_context"@, query.context@),
    ];
    assert(pair_views(out@) =~= mid2 + tail);
    assert(pair_views(out@) =~= spec_query_pairs(*query));
    out
}

// ---------------------------------------------------------------------------
// URLs
// ---------------------------------------------------------------------------

// ---------------------------------------------------------------------------
// The client
// ---------------------------------------------------------------------------

/// The search client's settings: the base URL (as `url` serializes it) and
/// the `User-Agent` the API requires.
#[derive(Debug, Clone)]
pub struct SnapshotSearchClient {
    pub base_url: String,
    pub user_agent: String,
}

/// `Re:NNDD/<version> (+https://github.com/abeshinzo78/Re-NNDD)`.
pub open spec fn spec_default_user_agent() -> Seq<char> {
    "Re:NNDD/"@ + APP_VERSION@ + " (+https://github.com/abeshinzo78/Re-NNDD)"@
}

pub fn default_user_agent() -> (s: String)
    ensures
        s@ == spec_default_user_agent(),
{
    let mut s = String::new();
    s.push_str("Re:NNDD/");
    s.push_str(APP_VERSION);
    s.push_str(" (+https://github.com/abeshinzo78/Re-NNDD)");
    s
}

impl SnapshotSearchClient {
    /// A client for the production endpoint with the default `User-Agent`.
    pub fn new() -> (r: Result<SnapshotSearchClient, ApiError>)
        ensures
            match spec_url_parse(PRODUCTION_BASE@) {
                Some(u) => r matches Ok(c) && c.base_url@ == u && c.user_agent@
                    == spec_default_user_agent(),
                None => r matches Err(ApiError::UrlBuild(_)),
            },
    {
        let ua = default_user_agent();
        Self::with_base_url(PRODUCTION_BASE, ua.as_str())
    }

    /// A client for another base URL (a local mock or proxy).
    pub fn with_base_url(base_url: &str, user_agent: &str) -> (r: Result<
        SnapshotSearchClient,
        ApiError,
    >)
        ensures
            match spec_url_parse(base_url@) {
                Some(u) => r matches Ok(c) && c.base_url@ == u && c.user_agent@ == user_agent@,
                None => r matches Err(ApiError::UrlBuild(_)),
            },
    {
        match parse_url(base_url) {
            Ok(u) => Ok(SnapshotSearchClient { base_url: u, user_agent: owned(user_agent) }),
            Err(e) => Err(ApiError::UrlBuild(e)),
        }
    }

    pub fn user_agent(&self) -> (s: &str)
        ensures
            s@ == self.user_agent@,
    {
        self.user_agent.as_str()
    }

    /// The request URL of `query`: the search path joined to the base URL,
    /// with the query pairs of [`search_query_pairs`].
    pub fn build_url(&self, query: &SearchQuery) -> (r: Result<String, ApiError>)
        ensures
            match spec_url_with_query(self.base_url@, SEARCH_PATH@, spec_query_pairs(*query)) {
                Some(u) => r matches Ok(s) && s@ == u,
                None => r matches Err(ApiError::UrlBuild(_)),
            },
    {
        let pairs = search_query_pairs(query);
        match url_with_query(self.base_url.as_str(), SEARCH_PATH, &pairs) {
            Ok(u) => Ok(u),
            Err(e) => Err(ApiError::UrlBuild(e)),
        }
    }
}

// ---------------------------------------------------------------------------
// Error answers
// ---------------------------------------------------------------------------

/// Whether a member may fill an `Option<String>` field: absent, `null` or a
/// string.
pub open spec fn optional_string(v: Option<Json>) -> bool {
    v is None || v matches Some(Json::Null) || v matches Some(Json::Str(_))
}

/// The `meta` of an error body, read as `{"meta": {...}}` (or the array
/// form `[meta]` that serde also accepts for a struct).
pub open spec fn body_meta(body: Json) -> Option<Json> {
    match body {
        Json::Obj(fs) => field_of(fs@, "meta"@),
        Json::Arr(v) => if v@.len() == 1 {
            Some(v@[0])
        } else {
            None
        },
        _ => None,
    }
}

/// `(errorMessage, errorCode)` of `meta`; `None` when `meta` does not read
/// as an object (or two-element array) of optional strings.
pub open spec fn meta_messages(meta: Json) -> Option<(Option<Seq<char>>, Option<Seq<char>>)> {
    match meta {
        Json::Obj(fs) => {
            let em = field_of(fs@, "errorMessage"@);
            let ec = field_of(fs@, "errorCode"@);
            if optional_string(em) && optional_string(ec) {
                Some((as_str(em), as_str(ec)))
            } else {
                None
            }
        },
        Json::Arr(v) => if v@.len() == 2 && optional_string(Some(v@[0])) && optional_string(
            Some(v@[1]),
        ) {
            Some((as_str(Some(v@[0])), as_str(Some(v@[1]))))
        } else {
            None
        },
        _ => None,
    }
}

/// The message of an error body: `meta.errorMessage`, else `meta.errorCode`,
/// when non-empty; `None` for a body that is not such JSON.
pub open spec fn spec_extract_error_message(body: Option<Json>) -> Option<Seq<char>> {
    match body {
        None => None,
        Some(b) => match body_meta(b) {
            None => None,
            Some(m) => match meta_messages(m) {
                None => None,
                Some((em, ec)) => {
                    let c = if em is Some {
                        em
                    } else {
                        ec
                    };
                    if c matches Some(s) && s.len() > 0 {
                        c
                    } else {
                        None
                    }
                },
            },
        },
    }
}

fn optional_string_value(v: Option<&Json>) -> (r: (bool, Option<String>))
    ensures
        r.0 == optional_string(crate::json::opt(v)),
        match r.1 {
            Some(s) => as_str(crate::json::opt(v)) == Some(s@),
            None => as_str(crate::json::opt(v)) is None,
        },
{
    match v {
        None => (true, None),
        Some(Json::Null) => (true, None),
        Some(Json::Str(s)) => (true, Some(s.clone())),
        Some(_) => (false, None),
    }
}

fn meta_messages_of(meta: &Json) -> (r: Option<(Option<String>, Option<String>)>)
    ensures
        match r {
            Some((em, ec)) => meta_messages(*meta) == Some(
                (
                    match em {
                        Some(s) => Some(s@),
                        None => None,
                    },
                    match ec {
                        Some(s) => Some(s@),
                        None => None,
                    },
                ),
            ),
            None => meta_messages(*meta) is None,
        },
{
    match meta {
        Json::Obj(_) => {
            let (ok1, em) = optional_string_value(crate::json::get_field(meta, "errorMessage"));
            let (ok2, ec) = optional_string_value(crate::json::get_field(meta, "errorCode"));
            if ok1 && ok2 {
                Some((em, ec))
            } else {
                None
            }
        },
        Json::Arr(v) => {
            if v.len() == 2 {
                let (ok1, em) = optional_string_value(Some(&v[0]));
                let (ok2, ec) = optional_string_value(Some(&v[1]));
                if ok1 && ok2 {
                    Some((em, ec))
                } else {
                    None
                }
            } else {
                None
            }
        },
        _ => None,
    }
}

/// The message of an error body (`body` is the answer parsed as JSON, or
/// `None` when it is not JSON).
pub fn extract_error_message(body: Option<&Json>) -> (r: Option<String>)
    ensures
        match r {
            Some(s) => spec_extract_error_message(crate::json::opt(body)) == Some(s@),
            None => spec_extract_error_message(crate::json::opt(body)) is None,
        },
{
    let b = match body {
        Some(b) => b,
        None => {
            return None;
        },
    };
    let meta = match b {
        Json::Obj(_) => crate::json::get_field(b, "meta"),
        Json::Arr(v) => if v.len() == 1 {
            Some(&v[0])
        } else {
            None
        },
        _ => None,
    };
    let meta = match meta {
        Some(m) => m,
        None => {
            return None;
        },
    };
    match meta_messages_of(meta) {
        None => None,
        Some((em, ec)) => {
            let c = match em {
                Some(s) => Some(s),
                None => ec,
            };
            match c {
                Some(s) => if s.as_str().is_empty() {
                    None
                } else {
                    Some(s)
                },
                None => None,
            }
        },
    }
}

/// The error an answer other than HTTP 200 means: 400 is a query the server
/// could not parse (its message, or `bad request`), 429 is rate limiting,
/// anything else a server error (its message, or the body as lossy UTF-8).
/// `parsed` is the body read as JSON, when it is JSON.
pub fn search_status_error(status: u16, body: &[u8], parsed: Option<&Json>) -> (r: Option<
    ApiError,
>)
    ensures
        ({
            let msg = spec_extract_error_message(crate::json::opt(parsed));
            if status == 200 {
                r is None
            } else if status == 400 {
                r matches Some(ApiError::QueryParseError(m)) && m@ == (match msg {
                    Some(s) => s,
                    None => "bad request"@,
                })
            } else if status == 429 {
                r matches Some(ApiError::RateLimited)
            } else {
                r matches Some(ApiError::ServerError { status: st, message: m }) && st == status
                    && m@ == (match msg {
                    Some(s) => s,
                    None => spec_utf8_lossy(body@),
                })
            }
        }),
{
    if status == 200 {
        return None;
    }
    if status == 429 {
        return Some(ApiError::RateLimited);
    }
    let msg = extract_error_message(parsed);
    if status == 400 {
        let m = match msg {
            Some(s) => s,
            None => owned("bad request"),
        };
        return Some(ApiError::QueryParseError(m));
    }
    let m = match msg {
        Some(s) => s,
        None => utf8_lossy(body),
    };
    Some(ApiError::ServerError { status, message: m })
}

} // verus!
