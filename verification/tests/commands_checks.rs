use nndd_next::commands::{
    check_startable, hls_range_header, hls_resource, inclusive_range_header, is_kept_file,
    local_audio_url, local_player_comment, local_video_url, remux_failure, sql_placeholders,
    tags_updates, validate_domand_url, validate_owner_id, validate_video_id, version_line,
    LocalServer,
};
use nndd_next::error::{ApiError, AppError};

#[test]
fn validate_video_id_accepts_niconico_ids() {
    assert!(validate_video_id("sm12345").is_ok());
    assert!(validate_video_id("nm67890").is_ok());
    assert!(validate_video_id("so11111").is_ok());
    assert!(validate_video_id("watch_id-1_2-3").is_ok());
}

#[test]
fn validate_video_id_rejects_path_traversal() {
    assert!(validate_video_id("..").is_err());
    assert!(validate_video_id("../etc").is_err());
    assert!(validate_video_id("../../foo").is_err());
    assert!(validate_video_id("a/b").is_err());
    assert!(validate_video_id("a\\b").is_err());
    assert!(validate_video_id("").is_err());
    assert!(validate_video_id(".").is_err());
    assert!(validate_video_id("foo bar").is_err());
    assert!(validate_video_id("foo\0bar").is_err());
}

#[test]
fn validate_video_id_rejects_overlong() {
    let long = "a".repeat(65);
    assert!(validate_video_id(&long).is_err());
}

#[test]
fn video_id_message_and_limits() {
    assert!(validate_video_id(&"a".repeat(64)).is_ok());
    match validate_video_id("a/b") {
        Err(AppError::Other(m)) => assert_eq!(m, "invalid video_id: \"a/b\""),
        other => panic!("unexpected {other:?}"),
    }
    assert!(validate_video_id("ｓｍ1").is_err());
    assert!(validate_owner_id("12345").is_ok());
    match validate_owner_id("user-1") {
        Err(AppError::Other(m)) => assert_eq!(m, "invalid owner_id: \"user-1\""),
        other => panic!("unexpected {other:?}"),
    }
}

#[test]
fn local_urls() {
    let server = LocalServer { port: 43210 };
    assert_eq!(
        local_video_url("sm9", &server).unwrap(),
        "http://127.0.0.1:43210/v/sm9/video.mp4"
    );
    assert_eq!(
        local_audio_url("sm9", &server).unwrap(),
        "http://127.0.0.1:43210/v/sm9/audio.mp4"
    );
    assert!(local_video_url("../x", &server).is_err());
}

#[test]
fn range_headers() {
    assert_eq!(hls_range_header(Some(0), Some(100)).as_deref(), Some("bytes=0-99"));
    assert_eq!(hls_range_header(Some(5), None).as_deref(), Some("bytes=5-"));
    assert_eq!(hls_range_header(Some(0), Some(0)), None);
    assert_eq!(hls_range_header(None, Some(10)), None);
    assert_eq!(inclusive_range_header(Some(0), Some(0)).as_deref(), Some("bytes=0-0"));
    assert_eq!(inclusive_range_header(Some(3), Some(2)), None);
    assert_eq!(hls_range_header(Some(7), Some(20)), inclusive_range_header(Some(7), Some(19)));
}

#[test]
fn domand_urls() {
    assert!(validate_domand_url("https://delivery.domand.nicovideo.jp/hlsbid/x/master.m3u8").is_ok());
    assert!(validate_domand_url("https://asset.domand.nicovideo.jp/seg0.cmfv").is_ok());
    match validate_domand_url("http://delivery.domand.nicovideo.jp/x") {
        Err(AppError::Other(m)) => assert_eq!(m, "HLS URL must use https"),
        other => panic!("unexpected {other:?}"),
    }
    match validate_domand_url("https://evil.example/x") {
        Err(AppError::Other(m)) => assert_eq!(m, "HLS host is not allowed: evil.example"),
        other => panic!("unexpected {other:?}"),
    }
    assert!(matches!(
        validate_domand_url("not a url"),
        Err(AppError::Api(ApiError::UrlBuild(_)))
    ));
}

#[test]
fn hls_resource_encodes_base64() {
    let ok = hls_resource("u", 206, "206 Partial Content", Some("video/mp4".into()), b"hello!?")
        .unwrap();
    assert_eq!(ok.data_base64, "aGVsbG8hPw==");
    assert_eq!(ok.status, 206);
    assert_eq!(ok.content_type.as_deref(), Some("video/mp4"));
    let two = hls_resource("u", 200, "200 OK", None, &[0xFB, 0xFF]).unwrap();
    assert_eq!(two.data_base64, "+/8=");
    match hls_resource("https://a/b", 403, "403 Forbidden", None, b"x") {
        Err(AppError::Other(m)) => assert_eq!(m, "HLS resource fetch failed (403 Forbidden): https://a/b"),
        other => panic!("unexpected {other:?}"),
    }
}

#[test]
fn placeholders_and_tags() {
    assert_eq!(sql_placeholders(0), "");
    assert_eq!(sql_placeholders(3), "?,?,?");
    let ids = vec!["sm1".to_string(), "sm2".to_string(), "sm1".to_string()];
    let rows = vec![
        ("sm1".to_string(), "a".to_string()),
        ("sm1".to_string(), "b".to_string()),
        ("sm3".to_string(), "c".to_string()),
    ];
    let up = tags_updates(&ids, &rows);
    assert_eq!(up[0], Some(vec!["a".to_string(), "b".to_string()]));
    assert_eq!(up[1], None);
    assert_eq!(up[2], None);
}

#[test]
fn local_comment_mapping() {
    let c = local_player_comment(7, 3, 1500, "hi".into(), Some(" red  big ".into()), None, true, Some(1700000000));
    assert_eq!(c.id, "7");
    assert_eq!(c.commands, vec!["red".to_string(), "big".to_string()]);
    assert_eq!(c.mail, " red  big ");
    assert_eq!(c.fork, "owner");
    assert_eq!(c.posted_at.as_deref(), Some("1700000000"));
    let d = local_player_comment(-1, 0, 0, String::new(), None, Some("u".into()), false, None);
    assert_eq!(d.fork, "main");
    assert!(d.commands.is_empty());
    assert_eq!(d.mail, "");
    assert_eq!(d.id, "-1");
}

#[test]
fn small_decisions() {
    assert_eq!(version_line(b"yt-dlp 2024.01.01\nmore").as_deref(), Some("yt-dlp 2024.01.01"));
    assert_eq!(version_line(b"  \nx"), None);
    assert_eq!(version_line(b""), None);
    assert!(is_kept_file("video.mp4"));
    assert!(is_kept_file("thumbnail.jpg"));
    assert!(is_kept_file("description.txt"));
    assert!(!is_kept_file(".cookies.txt"));
    assert!(!is_kept_file("video.info.json"));
    match remux_failure("a\nb\n") {
        AppError::Other(m) => assert_eq!(m, "ffmpeg 失敗:\na\nb"),
        other => panic!("unexpected {other:?}"),
    }
    match check_startable("downloading", "sm1") {
        Err(AppError::Other(m)) => assert_eq!(m, "既に DL 中です"),
        other => panic!("unexpected {other:?}"),
    }
    assert!(check_startable("queued", "sm1").is_ok());
    assert!(check_startable("queued", "../x").is_err());
}
