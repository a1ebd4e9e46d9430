use nndd_next::comment::{parse_comment, parse_threads, threads_response, threads_url};
use nndd_next::error::ApiError;
use nndd_next::json::{Json, JsonNumber};

fn s(x: &str) -> Json {
    Json::Str(x.to_string())
}

fn num(n: i64) -> Json {
    Json::Num(JsonNumber { as_i64: Some(n), as_u64: if n >= 0 { Some(n as u64) } else { None }, truncated: n })
}

fn obj(fields: Vec<(&str, Json)>) -> Json {
    Json::Obj(fields.into_iter().map(|(k, v)| (k.to_string(), v)).collect())
}

fn arr(v: Vec<Json>) -> Json {
    Json::Arr(v)
}

fn sample() -> Json {
    obj(vec![
        ("meta", obj(vec![("status", num(200))])),
        (
            "data",
            obj(vec![(
                "threads",
                arr(vec![
                    obj(vec![
                        ("id", s("owner")),
                        ("fork", s("owner")),
                        (
                            "comments",
                            arr(vec![obj(vec![
                                ("id", s("o1")),
                                ("no", num(1)),
                                ("vposMs", num(100)),
                                ("body", s("投稿者コメ")),
                                ("commands", arr(vec![s("white"), s("small")])),
                                ("userId", s("owner-1")),
                                ("postedAt", s("2024-01-01T00:00:00+09:00")),
                            ])]),
                        ),
                    ]),
                    obj(vec![
                        ("id", s("main")),
                        ("fork", s("main")),
                        (
                            "comments",
                            arr(vec![
                                obj(vec![
                                    ("id", s("m1")),
                                    ("no", num(1)),
                                    ("vposMs", num(1500)),
                                    ("body", s("wwwwwww")),
                                    ("commands", arr(vec![])),
                                    ("userId", s("user-1")),
                                ]),
                                obj(vec![
                                    ("id", s("m2")),
                                    ("no", num(2)),
                                    ("vposMs", num(3000)),
                                    ("body", s("弾幕薄いよ")),
                                    ("commands", arr(vec![s("red"), s("big")])),
                                    ("userId", s("user-2")),
                                ]),
                            ]),
                        ),
                    ]),
                ]),
            )]),
        ),
    ])
}

#[test]
fn parses_owner_and_main_threads() {
    let comments = parse_threads(&sample());
    assert_eq!(comments.len(), 3);

    let owner = &comments[0];
    assert!(owner.is_owner);
    assert_eq!(owner.fork, "owner");
    assert_eq!(owner.mail, "white small");

    let danmaku = &comments[2];
    assert!(!danmaku.is_owner);
    assert_eq!(danmaku.commands, vec!["red", "big"]);
    assert_eq!(danmaku.mail, "red big");
    assert_eq!(danmaku.vpos_ms, 3000);
}

#[test]
fn empty_threads_yields_empty_vec() {
    let envelope = obj(vec![
        ("meta", obj(vec![("status", num(200))])),
        ("data", obj(vec![("threads", arr(vec![]))])),
    ]);
    assert_eq!(parse_threads(&envelope).len(), 0);
}

#[test]
fn missing_data_yields_empty_vec() {
    let envelope = obj(vec![("meta", obj(vec![("status", num(200))]))]);
    assert_eq!(parse_threads(&envelope).len(), 0);
}

#[test]
fn comment_defaults() {
    let c = obj(vec![("body", s("x")), ("no", num(5)), ("userId", num(42)), ("commands", arr(vec![s("a"), num(1), s("b")]))]);
    let p = parse_comment(&c, "easy", false).unwrap();
    assert_eq!(p.id, "easy-5");
    assert_eq!(p.vpos_ms, 0);
    assert_eq!(p.user_id.as_deref(), Some("42"));
    assert_eq!(p.commands, vec!["a", "b"]);
    assert_eq!(p.mail, "a b");
    assert_eq!(p.nicoru_count, None);
    assert!(parse_comment(&obj(vec![("no", num(1))]), "main", false).is_none());
    let thread_without_fork = obj(vec![(
        "data",
        obj(vec![("threads", arr(vec![obj(vec![("comments", arr(vec![obj(vec![("body", s("y"))])]))])]))]),
    )]);
    let all = parse_threads(&thread_without_fork);
    assert_eq!(all[0].fork, "main");
    assert_eq!(all[0].id, "main-0");
}

#[test]
fn threads_status_and_url() {
    assert_eq!(threads_response(&sample()).unwrap().len(), 3);
    match threads_response(&obj(vec![("meta", obj(vec![("status", num(403))]))])) {
        Err(ApiError::ResponseShape(m)) => assert_eq!(m, "unexpected meta.status from threads API: 403"),
        other => panic!("unexpected {other:?}"),
    }
    match threads_response(&obj(vec![])) {
        Err(ApiError::ResponseShape(m)) => assert_eq!(m, "unexpected meta.status from threads API: 0"),
        other => panic!("unexpected {other:?}"),
    }
    assert_eq!(threads_url("https://nv-comment.nicovideo.jp//"), "https://nv-comment.nicovideo.jp/v1/threads");
}
