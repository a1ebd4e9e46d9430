use std::collections::HashMap;

use nndd_next::api_types::{
    default_context, default_limit, FilterClause, FilterOp, SearchField, SearchQuery,
    SearchTarget, SortDirection, SortSpec,
};
use nndd_next::error::ApiError;
use nndd_next::json::{Json, JsonNumber};
use nndd_next::search::{
    default_user_agent, extract_error_message, search_query_pairs, search_status_error, validate,
    SnapshotSearchClient, MAX_CONTEXT_LEN,
};

fn baseline() -> SearchQuery {
    SearchQuery::new("ゆっくり", vec![SearchTarget::Title])
}

fn query_map(url: &str) -> HashMap<String, String> {
    let u = url::Url::parse(url).unwrap();
    u.query_pairs().into_owned().collect()
}

fn s(x: &str) -> Json {
    Json::Str(x.to_string())
}

fn obj(fields: Vec<(&str, Json)>) -> Json {
    Json::Obj(fields.into_iter().map(|(k, v)| (k.to_string(), v)).collect())
}

fn num(n: i64) -> Json {
    Json::Num(JsonNumber { as_i64: Some(n), as_u64: if n >= 0 { Some(n as u64) } else { None }, truncated: n })
}

#[test]
fn validate_rejects_empty_query() {
    let mut q = baseline();
    q.q = String::new();
    assert!(matches!(validate(&q), Err(ApiError::InvalidQuery(_))));
}

#[test]
fn validate_rejects_empty_targets() {
    let mut q = baseline();
    q.targets.clear();
    assert!(matches!(validate(&q), Err(ApiError::InvalidQuery(_))));
}

#[test]
fn validate_rejects_oversized_limit() {
    let mut q = baseline();
    q.limit = 101;
    assert!(matches!(validate(&q), Err(ApiError::InvalidQuery(_))));
}

#[test]
fn validate_rejects_oversized_offset() {
    let mut q = baseline();
    q.offset = 100_001;
    assert!(matches!(validate(&q), Err(ApiError::InvalidQuery(_))));
}

#[test]
fn validate_rejects_long_context() {
    let mut q = baseline();
    q.context = "a".repeat(MAX_CONTEXT_LEN + 1);
    assert!(matches!(validate(&q), Err(ApiError::InvalidQuery(_))));
}

#[test]
fn validate_messages_and_limits() {
    let mut q = baseline();
    assert!(validate(&q).is_ok());
    q.offset = 100_000;
    q.limit = 100;
    q.context = "あ".repeat(40);
    assert!(validate(&q).is_ok());
    q.offset = 100_001;
    match validate(&q) {
        Err(ApiError::InvalidQuery(m)) => assert_eq!(m, "`offset` must be ≤ 100000 (was 100001)"),
        other => panic!("unexpected {other:?}"),
    }
    q.offset = 0;
    q.limit = 0;
    match validate(&q) {
        Err(ApiError::InvalidQuery(m)) => assert_eq!(m, "`limit` must be in 1..=100 (was 0)"),
        other => panic!("unexpected {other:?}"),
    }
    q.limit = 10;
    q.context = String::new();
    match validate(&q) {
        Err(ApiError::InvalidQuery(m)) => assert_eq!(m, "`context` must be 1..=40 characters"),
        other => panic!("unexpected {other:?}"),
    }
}

#[test]
fn build_url_includes_required_pairs() {
    let client = SnapshotSearchClient::with_base_url("https://example.test", "ua/0").unwrap();
    let q = baseline();
    let url = client.build_url(&q).unwrap();
    let qs = query_map(&url);
    assert_eq!(qs.get("q").map(String::as_str), Some("ゆっくり"));
    assert_eq!(qs.get("targets").map(String::as_str), Some("title"));
    assert_eq!(qs.get("_offset").map(String::as_str), Some("0"));
    assert_eq!(qs.get("_limit").map(String::as_str), Some("10"));
    assert!(qs.contains_key("_context"));
}

#[test]
fn build_url_encodes_filters_with_bracket_syntax() {
    let client = SnapshotSearchClient::with_base_url("https://example.test", "ua/0").unwrap();
    let mut q = baseline();
    q.filters.push(FilterClause {
        field: SearchField::ViewCounter,
        op: FilterOp::Gte,
        value: "1000".into(),
    });
    let raw = client.build_url(&q).unwrap();
    assert!(
        raw.contains("filters[viewCounter][gte]=1000")
            || raw.contains("filters%5BviewCounter%5D%5Bgte%5D=1000"),
        "missing filters clause in {raw}"
    );
}

#[test]
fn build_url_encodes_multi_targets_and_fields() {
    let client = SnapshotSearchClient::with_base_url("https://example.test", "ua/0").unwrap();
    let mut q = baseline();
    q.targets = vec![SearchTarget::Title, SearchTarget::Tags];
    q.fields = vec![SearchField::ContentId, SearchField::ViewCounter];
    let url = client.build_url(&q).unwrap();
    let qs = query_map(&url);
    assert_eq!(qs.get("targets").map(String::as_str), Some("title,tags"));
    assert_eq!(qs.get("fields").map(String::as_str), Some("contentId,viewCounter"));
}

#[test]
fn build_url_includes_sort_param() {
    let client = SnapshotSearchClient::with_base_url("https://example.test", "ua/0").unwrap();
    let mut q = baseline();
    q.sort = Some(SortSpec { field: SearchField::ViewCounter, direction: SortDirection::Desc });
    let url = client.build_url(&q).unwrap();
    let qs = query_map(&url);
    assert_eq!(qs.get("_sort").map(String::as_str), Some("-viewCounter"));
}

#[test]
fn build_url_has_search_path_and_client_settings() {
    let client = SnapshotSearchClient::with_base_url("https://example.test/x", "ua/0").unwrap();
    assert_eq!(client.user_agent(), "ua/0");
    let url = client.build_url(&baseline()).unwrap();
    assert!(url.starts_with("https://example.test/api/v2/snapshot/video/contents/search?q="));
    assert!(SnapshotSearchClient::with_base_url("not a url", "ua").is_err());
    assert!(SnapshotSearchClient::new().is_ok());
}

#[test]
fn query_pairs_in_order() {
    let mut q = baseline();
    q.fields = vec![SearchField::GenreKeyword];
    q.filters.push(FilterClause { field: SearchField::StartTime, op: FilterOp::Eq, value: "x".into() });
    q.sort = Some(SortSpec { field: SearchField::Title, direction: SortDirection::Asc });
    let pairs = search_query_pairs(&q);
    let keys: Vec<&str> = pairs.iter().map(|p| p.0.as_str()).collect();
    assert_eq!(
        keys,
        vec!["q", "targets", "fields", "filters[startTime][0]", "_sort", "_offset", "_limit", "_context"]
    );
    assert_eq!(pairs[2].1, "genre.keyword");
    assert_eq!(pairs[4].1, "+title");
}

#[test]
fn default_user_agent_starts_with_app_name() {
    assert!(default_user_agent().starts_with("Re:NNDD/"));
}

#[test]
fn defaults_of_a_new_query() {
    let q = baseline();
    assert_eq!(q.limit, default_limit());
    assert_eq!(q.limit, 10);
    assert_eq!(q.context, default_context());
    assert!(q.context.starts_with("Re:NNDD/"));
    assert_eq!(
        default_user_agent(),
        format!("{} (+https://github.com/abeshinzo78/Re-NNDD)", q.context)
    );
}

#[test]
fn enum_wire_names() {
    assert_eq!(SearchTarget::TagsExact.as_str(), "tagsExact");
    assert_eq!(SearchField::LastCommentTime.as_str(), "lastCommentTime");
    assert_eq!(FilterOp::Eq.as_key(), "0");
    assert_eq!(FilterOp::Lte.as_key(), "lte");
    assert_eq!(
        SortSpec { field: SearchField::ViewCounter, direction: SortDirection::Desc }.to_param(),
        "-viewCounter"
    );
}

#[test]
fn error_message_extraction() {
    let body = obj(vec![("meta", obj(vec![("status", num(400)), ("errorMessage", s("oops"))]))]);
    assert_eq!(extract_error_message(Some(&body)).as_deref(), Some("oops"));
    let code_only = obj(vec![("meta", obj(vec![("errorMessage", Json::Null), ("errorCode", s("MAINTENANCE"))]))]);
    assert_eq!(extract_error_message(Some(&code_only)).as_deref(), Some("MAINTENANCE"));
    let empty = obj(vec![("meta", obj(vec![("errorMessage", s(""))]))]);
    assert_eq!(extract_error_message(Some(&empty)), None);
    let wrong_type = obj(vec![("meta", obj(vec![("errorMessage", num(1)), ("errorCode", s("X"))]))]);
    assert_eq!(extract_error_message(Some(&wrong_type)), None);
    assert_eq!(extract_error_message(Some(&obj(vec![]))), None);
    assert_eq!(extract_error_message(None), None);
}

#[test]
fn status_errors() {
    let body = br#"{"meta":{"status":503,"id":"x","errorCode":"MAINTENANCE"}}"#;
    let parsed = obj(vec![(
        "meta",
        obj(vec![("status", num(503)), ("id", s("x")), ("errorCode", s("MAINTENANCE"))]),
    )]);
    match search_status_error(503, body, Some(&parsed)) {
        Some(ApiError::ServerError { status, message }) => {
            assert_eq!(status, 503);
            assert_eq!(message, "MAINTENANCE");
        }
        other => panic!("expected ServerError, got {other:?}"),
    }
    assert!(matches!(search_status_error(429, b"", None), Some(ApiError::RateLimited)));
    match search_status_error(400, b"oops", None) {
        Some(ApiError::QueryParseError(m)) => assert_eq!(m, "bad request"),
        other => panic!("unexpected {other:?}"),
    }
    match search_status_error(500, b"plain text", None) {
        Some(ApiError::ServerError { message, .. }) => assert_eq!(message, "plain text"),
        other => panic!("unexpected {other:?}"),
    }
    assert!(search_status_error(200, b"{}", None).is_none());
}
