//! Request and response types of the niconico Snapshot Search API v2
//! (<https://site.nicovideo.jp/search-api-docs/snapshot>).
use vstd::prelude::*;

verus! {

/// The version of this client, as it names itself to the API.
pub const APP_VERSION: &'static str = "0.1.0";

/// A Snapshot Search v2 request.  [`crate::search::validate`] checks the
/// limits (offset ≤ 100 000, limit in 1..=100, `q` and `targets` non-empty,
/// context of 1..=40 characters) before a request is sent.
#[derive(Debug, Clone)]
pub struct SearchQuery {
    pub q: String,
    pub targets: Vec<SearchTarget>,
    pub fields: Vec<SearchField>,
    pub filters: Vec<FilterClause>,
    pub sort: Option<SortSpec>,
    pub offset: u32,
    pub limit: u32,
    pub context: String,
}

/// The `_limit` of a query that does not name one.
pub fn default_limit() -> (n: u32)
    ensures
        n == 10,
{
    10
}

/// The `_context` of a query that does not name one: `Re:NNDD/<version>`.
pub open spec fn spec_default_context() -> Seq<char> {
    "Re:NNDD/"@ + APP_VERSION@
}

pub fn default_context() -> (s: String)
    ensures
        s@ == spec_default_context(),
{
    let mut s = String::new();
    s.push_str("Re:NNDD/");
    s.push_str(APP_VERSION);
    s
}

impl SearchQuery {
    /// A query for `q` over `targets`, with no fields, filters or sort,
    /// offset 0, the default limit and the default context.
    pub fn new(q: &str, targets: Vec<SearchTarget>) -> (r: SearchQuery)
        ensures
            r.q@ == q@,
            r.targets@ == targets@,
            r.fields@.len() == 0,
            r.filters@.len() == 0,
            r.sort is None,
            r.offset == 0,
            r.limit == 10,
            r.context@ == spec_default_context(),
    {
        let mut qs = String::new();
        qs.push_str(q);
        SearchQuery {
            q: qs,
            targets,
            fields: Vec::new(),
            filters: Vec::new(),
            sort: None,
            offset: 0,
            limit: default_limit(),
            context: default_context(),
        }
    }
}

/// A `targets=` value.
#[derive(Debug, Clone, Copy, PartialEq, Eq)]
pub enum SearchTarget {
    Title,
    Description,
    Tags,
    TagsExact,
}

pub open spec fn target_name(t: SearchTarget) -> Seq<char> {
    match t {
        SearchTarget::Title => "title"@,
        SearchTarget::Description => "description"@,
        SearchTarget::Tags => "tags"@,
        SearchTarget::TagsExact => "tagsExact"@,
    }
}

impl SearchTarget {
    pub fn as_str(self) -> (s: &'static str)
        ensures
            s@ == target_name(self),
    {
        match self {
            SearchTarget::Title => "title",
            SearchTarget::Description => "description",
            SearchTarget::Tags => "tags",
            SearchTarget::TagsExact => "tagsExact",
        }
    }
}

/// A field that can be selected, sorted on or filtered on.
#[derive(Debug, Clone, Copy, PartialEq, Eq)]
pub enum SearchField {
    ContentId,
    Title,
    Description,
    UserId,
    ChannelId,
    ViewCounter,
    MylistCounter,
    LikeCounter,
    LengthSeconds,
    ThumbnailUrl,
    StartTime,
    LastResBody,
    CommentCounter,
    LastCommentTime,
    CategoryTags,
    Tags,
    TagsExact,
    Genre,
    GenreKeyword,
    ContentType,
}

pub open spec fn field_name(f: SearchField) -> Seq<char> {
    match f {
        SearchField::ContentId => "contentId"@,
        SearchField::Title => "title"@,
        SearchField::Description => "description"@,
        SearchField::UserId => "userId"@,
        SearchField::ChannelId => "channelId"@,
        SearchField::ViewCounter => "viewCounter"@,
        SearchField::MylistCounter => "mylistCounter"@,
        SearchField::LikeCounter => "likeCounter"@,
        SearchField::LengthSeconds => "lengthSeconds"@,
        SearchField::ThumbnailUrl => "thumbnailUrl"@,
        SearchField::StartTime => "startTime"@,
        SearchField::LastResBody => "lastResBody"@,
        SearchField::CommentCounter => "commentCounter"@,
        SearchField::LastCommentTime => "lastCommentTime"@,
        SearchField::CategoryTags => "categoryTags"@,
        SearchField::Tags => "tags"@,
        SearchField::TagsExact => "tagsExact"@,
        SearchField::Genre => "genre"@,
        SearchField::GenreKeyword => "genre.keyword"@,
        SearchField::ContentType => "contentType"@,
    }
}

impl SearchField {
    pub fn as_str(self) -> (s: &'static str)
        ensures
            s@ == field_name(self),
    {
        match self {
            SearchField::ContentId => "contentId",
            SearchField::Title => "title",
            SearchField::Description => "description",
            SearchField::UserId => "userId",
            SearchField::ChannelId => "channelId",
            SearchField::ViewCounter => "viewCounter",
            SearchField::MylistCounter => "mylistCounter",
            SearchField::LikeCounter => "likeCounter",
            SearchField::LengthSeconds => "lengthSeconds",
            SearchField::ThumbnailUrl => "thumbnailUrl",
            SearchField::StartTime => "startTime",
            SearchField::LastResBody => "lastResBody",
            SearchField::CommentCounter => "commentCounter",
            SearchField::LastCommentTime => "lastCommentTime",
            SearchField::CategoryTags => "categoryTags",
            SearchField::Tags => "tags",
            SearchField::TagsExact => "tagsExact",
            SearchField::Genre => "genre",
            SearchField::GenreKeyword => "genre.keyword",
            SearchField::ContentType => "contentType",
        }
    }
}

/// A filter operator: `filters[field][op]=value`.
#[derive(Debug, Clone, Copy, PartialEq, Eq)]
pub enum FilterOp {
    /// Exact match, written `filters[field][0]=value`.
    Eq,
    Gt,
    Gte,
    Lt,
    Lte,
}

pub open spec fn op_key(op: FilterOp) -> Seq<char> {
    match op {
        FilterOp::Eq => "0"@,
        FilterOp::Gt => "gt"@,
        FilterOp::Gte => "gte"@,
        FilterOp::Lt => "lt"@,
        FilterOp::Lte => "lte"@,
    }
}

impl FilterOp {
    /// The key inside `filters[field][...]`.
    pub fn as_key(self) -> (s: &'static str)
        ensures
            s@ == op_key(self),
    {
        match self {
            FilterOp::Eq => "0",
            FilterOp::Gt => "gt",
            FilterOp::Gte => "gte",
            FilterOp::Lt => "lt",
            FilterOp::Lte => "lte",
        }
    }
}

#[derive(Debug, Clone)]
pub struct FilterClause {
    pub field: SearchField,
    pub op: FilterOp,
    pub value: String,
}

#[derive(Debug, Clone, Copy, PartialEq, Eq)]
pub enum SortDirection {
    Asc,
    Desc,
}

#[derive(Debug, Clone, Copy, PartialEq, Eq)]
pub struct SortSpec {
    pub field: SearchField,
    pub direction: SortDirection,
}

/// `+field` (ascending) or `-field` (descending).
pub open spec fn sort_param(s: SortSpec) -> Seq<char> {
    seq![
        match s.direction {
            SortDirection::Asc => '+',
            SortDirection::Desc => '-',
        },
    ] + field_name(s.field)
}

impl SortSpec {
    pub fn to_param(&self) -> (r: String)
        ensures
            r@ == sort_param(*self),
    {
        let mut r = String::new();
        match self.direction {
            SortDirection::Asc => r.push('+'),
            SortDirection::Desc => r.push('-'),
        }
        r.push_str(self.field.as_str());
        r
    }
}

/// A Snapshot Search v2 answer.
#[derive(Debug, Clone)]
pub struct SearchResponse {
    pub meta: SearchMeta,
    pub data: Vec<SearchHit>,
}

#[derive(Debug, Clone)]
pub struct SearchMeta {
    pub status: u16,
    pub total_count: Option<u64>,
    pub id: String,
    /// Present on error answers.
    pub error_code: Option<String>,
    pub error_message: Option<String>,
}

/// One row of `data`; the server fills only the fields asked for.
#[derive(Debug, Clone)]
pub struct SearchHit {
    pub content_id: Option<String>,
    pub title: Option<String>,
    pub description: Option<String>,
    pub user_id: Option<i64>,
    pub channel_id: Option<i64>,
    pub view_counter: Option<i64>,
    pub mylist_counter: Option<i64>,
    pub like_counter: Option<i64>,
    pub length_seconds: Option<i64>,
    pub thumbnail_url: Option<String>,
    pub start_time: Option<String>,
    pub last_res_body: Option<String>,
    pub comment_counter: Option<i64>,
    pub last_comment_time: Option<String>,
    pub category_tags: Option<String>,
    pub tags: Option<String>,
    pub genre: Option<String>,
    pub content_type: Option<String>,
}

} // verus!
