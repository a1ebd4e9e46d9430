use nndd_next::comment::Comment;
use nndd_next::error::ApiError;
use nndd_next::ingest::{
    comment_record, parse_iso8601_to_unix, resolution_from_info, tags_from_info,
    video_record_from_info, yt_dlp_date_to_unix,
};
use nndd_next::json::{Json, JsonNumber};
use nndd_next::playlists::next_position;
use nndd_next::run::{
    byte_range_end, decryption_plan, effective_concurrency, key_from_bytes, with_extension_suffix,
    pick_tracks, AudioRendition, KeyInfo, SegmentOrder, Variant,
};
use nndd_next::tools::{choose_binary, source_name, BinarySource, Resolved};
use nndd_next::user_videos::{parse_user_videos, user_video_item, user_videos_error, user_videos_url};
use nndd_next::aes::iv_from_media_sequence;
use nndd_next::error::AppError;

fn s(x: &str) -> Json {
    Json::Str(x.to_string())
}

fn num(n: i64) -> Json {
    Json::Num(JsonNumber { as_i64: Some(n), as_u64: if n >= 0 { Some(n as u64) } else { None }, truncated: n })
}

fn float(x: f64) -> Json {
    Json::Num(JsonNumber { as_i64: None, as_u64: None, truncated: x as i64 })
}

fn obj(fields: Vec<(&str, Json)>) -> Json {
    Json::Obj(fields.into_iter().map(|(k, v)| (k.to_string(), v)).collect())
}

#[test]
fn segments_are_written_in_playlist_order() {
    let segs: Vec<Vec<u8>> = vec![b"s0".to_vec(), b"s1".to_vec(), b"s2".to_vec(), b"s3".to_vec()];
    let mut order = SegmentOrder::new(4);
    let mut written: Vec<u8> = Vec::new();
    for idx in [2usize, 0, 3, 1] {
        assert!(idx >= order.next_index() && idx < order.len());
        for chunk in order.accept(idx, segs[idx].clone()) {
            written.extend_from_slice(&chunk);
        }
    }
    for chunk in order.finish() {
        written.extend_from_slice(&chunk);
    }
    assert_eq!(written, b"s0s1s2s3".to_vec());
}

#[test]
fn unfinished_segments_come_out_in_index_order() {
    let mut order = SegmentOrder::new(5);
    assert!(order.accept(3, vec![3]).is_empty());
    assert!(order.accept(1, vec![1]).is_empty());
    assert_eq!(order.accept(0, vec![0]), vec![vec![0], vec![1]]);
    assert_eq!(order.next_index(), 2);
    assert_eq!(order.finish(), vec![vec![3]]);
}

#[test]
fn download_decisions() {
    assert_eq!(effective_concurrency(None), 6);
    assert_eq!(effective_concurrency(Some(0)), 6);
    assert_eq!(effective_concurrency(Some(500)), 64);
    assert_eq!(effective_concurrency(Some(2)), 2);
    assert_eq!(with_extension_suffix("/tmp/video.mp4", ".part"), "/tmp/video.mp4.part");
    assert_eq!(byte_range_end(100, 50), 149);
    assert_eq!(byte_range_end(100, 0), 99);
    assert_eq!(byte_range_end(0, 0), u64::MAX);
    assert_eq!(byte_range_end(u64::MAX, 2), 0);
}

#[test]
fn key_decisions() {
    assert!(matches!(decryption_plan(&None, 3), Ok(None)));
    let k = KeyInfo { method: "aes-128".into(), uri: Some("k.bin".into()), iv: None };
    match decryption_plan(&Some(k), 9) {
        Ok(Some((u, iv))) => {
            assert_eq!(u, "k.bin");
            assert_eq!(iv, iv_from_media_sequence(9));
        }
        other => panic!("unexpected {other:?}"),
    }
    let given = KeyInfo { method: "AES-128".into(), uri: Some("k".into()), iv: Some([5u8; 16]) };
    assert!(matches!(decryption_plan(&Some(given), 0), Ok(Some((_, iv))) if iv == [5u8; 16]));
    match decryption_plan(&Some(KeyInfo { method: "SAMPLE-AES".into(), uri: None, iv: None }), 0) {
        Err(ApiError::ResponseShape(m)) => assert_eq!(m, "unsupported HLS key method: SAMPLE-AES"),
        other => panic!("unexpected {other:?}"),
    }
    match decryption_plan(&Some(KeyInfo { method: "AES-128".into(), uri: None, iv: None }), 0) {
        Err(ApiError::ResponseShape(m)) => assert_eq!(m, "AES-128 key without URI"),
        other => panic!("unexpected {other:?}"),
    }
    assert_eq!(key_from_bytes("k", &[1u8; 16]).unwrap(), [1u8; 16]);
    match key_from_bytes("https://x/k", &[1u8; 3]) {
        Err(ApiError::ResponseShape(m)) => assert_eq!(m, "AES-128 key https://x/k must be 16 bytes, got 3"),
        other => panic!("unexpected {other:?}"),
    }
}

#[test]
fn binary_choice() {
    let none: Vec<(String, BinarySource)> = Vec::new();
    let r = choose_binary(&none, "yt-dlp", true);
    assert_eq!((r.command.as_str(), r.source), ("yt-dlp", BinarySource::SystemPath));
    let r = choose_binary(&none, "ffmpeg", false);
    assert_eq!(r.source, BinarySource::NotFound);
    let found = vec![("/res/yt-dlp".to_string(), BinarySource::Bundled), ("/exe/yt-dlp".to_string(), BinarySource::Sidecar)];
    let r = choose_binary(&found, "yt-dlp", true);
    assert_eq!((r.command.as_str(), r.source), ("/res/yt-dlp", BinarySource::Bundled));
    let nf = Resolved::not_found("x");
    assert_eq!(nf.command, "x");
    assert_eq!(source_name(BinarySource::SystemPath), "system_path");
}

#[test]
fn playlist_positions() {
    assert_eq!(next_position(Some(4), Some(10)), 4);
    assert_eq!(next_position(None, Some(10)), 11);
    assert_eq!(next_position(None, None), 1);
}

#[test]
fn uploader_video_items() {
    assert_eq!(
        user_videos_url("channel", "123", 2, 50, "registeredAt", "desc"),
        "https://nvapi.nicovideo.jp/v1/channels/123/videos?page=2&pageSize=50&sortKey=registeredAt&sortOrder=desc"
    );
    assert!(user_videos_url("user", "9", 1, 10, "k", "o").starts_with("https://nvapi.nicovideo.jp/v2/users/9/"));
    let entry = obj(vec![(
        "essential",
        obj(vec![
            ("id", s("sm9")),
            ("title", s("t")),
            ("count", obj(vec![("view", num(10)), ("comment", num(2))])),
            ("thumbnail", obj(vec![("listingUrl", s("L"))])),
            ("duration", num(61)),
            ("registeredAt", s("2024")),
            ("owner", obj(vec![("id", s("777")), ("ownerType", s("channel"))])),
        ]),
    )]);
    let item = user_video_item(&entry).unwrap();
    assert_eq!(item.content_id, "sm9");
    assert_eq!(item.thumbnail_url.as_deref(), Some("L"));
    assert_eq!((item.view_counter, item.comment_counter, item.mylist_counter), (Some(10), Some(2), None));
    assert_eq!(item.user_id, Some(777));
    assert_eq!(item.channel_id, Some(777));
    let plain = obj(vec![("contentId", s("so1")), ("userId", s("x"))]);
    let p = user_video_item(&plain).unwrap();
    assert_eq!(p.title, "(無題)");
    assert_eq!(p.user_id, None);
    assert!(user_video_item(&obj(vec![("id", s(""))])).is_none());
    let answer = obj(vec![
        ("meta", obj(vec![("totalCount", num(7))])),
        ("data", obj(vec![("videos", Json::Arr(vec![entry, obj(vec![]), plain]))])),
    ]);
    let r = parse_user_videos(&answer, "body");
    assert_eq!(r.total_count, 7);
    assert_eq!(r.items.len(), 2);
    assert_eq!(r.debug_raw.as_deref(), Some("body"));
    match user_videos_error("404 Not Found", &"x".repeat(300)) {
        AppError::Other(m) => assert_eq!(m, format!("ユーザー動画 API エラー (404 Not Found): {}", "x".repeat(200))),
        other => panic!("unexpected {other:?}"),
    }
}

#[test]
fn records_from_info_json() {
    let info = obj(vec![
        ("width", num(1280)),
        ("height", num(720)),
        ("title", s("T")),
        ("channel_id", s("ch1")),
        ("channel", s("C")),
        ("categories", Json::Arr(vec![s("Game")])),
        ("duration", float(61.9)),
        ("upload_date", s("20240102")),
        ("tags", Json::Arr(vec![s("a"), num(1), s("b")])),
    ]);
    assert_eq!(resolution_from_info(&info).as_deref(), Some("1280x720"));
    assert_eq!(resolution_from_info(&obj(vec![("resolution", s("audio only"))])).as_deref(), Some("audio only"));
    let r = video_record_from_info("sm1", &info, Some("1280x720".into()), None);
    assert_eq!(r.title, "T");
    assert_eq!(r.uploader_id.as_deref(), Some("ch1"));
    assert_eq!(r.uploader_name.as_deref(), Some("C"));
    assert_eq!(r.uploader_type.as_deref(), Some("channel"));
    assert_eq!(r.category.as_deref(), Some("Game"));
    assert_eq!(r.duration_sec, 61);
    assert_eq!(r.posted_at, Some(1704153600));
    assert_eq!(r.video_path.as_deref(), Some("videos/sm1/video.mp4"));
    let bare = video_record_from_info("sm2", &obj(vec![]), None, None);
    assert_eq!(bare.title, "sm2");
    assert_eq!(bare.uploader_type.as_deref(), Some("user"));
    assert_eq!(bare.duration_sec, 0);
    let tags = tags_from_info(&info);
    assert_eq!(tags.iter().map(|t| t.name.as_str()).collect::<Vec<_>>(), vec!["a", "b"]);
    assert!(tags.iter().all(|t| !t.is_locked));
}

#[test]
fn dates_and_comment_records() {
    assert_eq!(yt_dlp_date_to_unix("19700102"), Some(86400));
    assert_eq!(yt_dlp_date_to_unix("2024-01-02"), None);
    assert_eq!(parse_iso8601_to_unix("2024-01-01T00:00:00+09:00"), Some(1704034800));
    assert_eq!(parse_iso8601_to_unix("yesterday"), None);
    let c = Comment {
        id: "m1".into(),
        no: 3,
        vpos_ms: 10,
        content: "x".into(),
        mail: String::new(),
        commands: Vec::new(),
        user_id: Some("u".into()),
        posted_at: Some("1970-01-01T00:00:10Z".into()),
        fork: "main".into(),
        is_owner: false,
        nicoru_count: None,
        score: None,
    };
    let r = comment_record(&c);
    assert_eq!(r.mail, None);
    assert_eq!(r.user_hash.as_deref(), Some("u"));
    assert_eq!(r.posted_at, Some(10));
}

fn rendition(uri: Option<&str>, default: bool) -> AudioRendition {
    AudioRendition { uri: uri.map(String::from), default }
}

#[test]
fn picks_first_variant_and_default_audio() {
    let variants = vec![
        Variant { uri: "https://x/v1.m3u8".into(), audio_group: Some("aac".into()), resolution: Some((1920, 1080)) },
        Variant { uri: "https://x/v2.m3u8".into(), audio_group: None, resolution: Some((640, 360)) },
    ];
    let groups = vec![
        ("other".to_string(), vec![rendition(Some("https://x/o.m3u8"), true)]),
        ("aac".to_string(), vec![rendition(Some("https://x/a1.m3u8"), false), rendition(Some("https://x/a2.m3u8"), true)]),
    ];
    let p = pick_tracks(&variants, &groups).unwrap();
    assert_eq!(p.video_media_url, "https://x/v1.m3u8");
    assert_eq!(p.audio_media_url.as_deref(), Some("https://x/a2.m3u8"));
    assert_eq!(p.resolution, Some((1920, 1080)));

    let no_default = vec![("aac".to_string(), vec![rendition(Some("https://x/a1.m3u8"), false), rendition(Some("https://x/a2.m3u8"), false)])];
    assert_eq!(pick_tracks(&variants, &no_default).unwrap().audio_media_url.as_deref(), Some("https://x/a1.m3u8"));
    assert_eq!(pick_tracks(&variants, &vec![]).unwrap().audio_media_url, None);
    let empty_group = vec![("aac".to_string(), vec![])];
    assert_eq!(pick_tracks(&variants, &empty_group).unwrap().audio_media_url, None);
    match pick_tracks(&vec![], &groups) {
        Err(ApiError::ResponseShape(m)) => assert_eq!(m, "master playlist has no video variant"),
        other => panic!("unexpected {other:?}"),
    }
}
