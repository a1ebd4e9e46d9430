use nndd_next::ytdlp::{build_netscape_cookies, failure_message, progress_text};

fn progress(line: &str) -> Option<f64> {
    let t = progress_text(line)?;
    let p: f64 = t.parse().ok()?;
    Some((p / 100.0).clamp(0.0, 1.0))
}

#[test]
fn builds_netscape_cookies_from_header() {
    let s = build_netscape_cookies("user_session=abc; nicosid=xyz");
    assert!(s.starts_with("# Netscape HTTP Cookie File\n"));
    assert!(s.contains(".nicovideo.jp\tTRUE\t/\tTRUE\t2147483647\tuser_session\tabc\n"));
    assert!(s.contains(".nicovideo.jp\tTRUE\t/\tTRUE\t2147483647\tnicosid\txyz\n"));
}

#[test]
fn netscape_cookies_skips_invalid_pairs() {
    let s = build_netscape_cookies("=novalue; user_session=abc; broken");
    assert_eq!(s.matches("\tuser_session\tabc\n").count(), 1);
    assert!(!s.contains("\tnovalue\t"));
    assert!(!s.contains("\tbroken\t"));
}

#[test]
fn netscape_cookies_exact_text() {
    assert_eq!(
        build_netscape_cookies(" a = 1=2 ;;b=; =x"),
        "# Netscape HTTP Cookie File\n\
         .nicovideo.jp\tTRUE\t/\tTRUE\t2147483647\ta\t1=2\n\
         .nicovideo.jp\tTRUE\t/\tTRUE\t2147483647\tb\t\n"
    );
    assert_eq!(build_netscape_cookies(""), "# Netscape HTTP Cookie File\n");
}

#[test]
fn parses_custom_progress_template() {
    assert_eq!(progress("nndd-progress:50.0%"), Some(0.5));
    assert_eq!(progress("nndd-progress:  42.5%"), Some(0.425));
    assert_eq!(progress("nndd-progress:100%"), Some(1.0));
}

#[test]
fn parses_default_download_lines() {
    assert_eq!(
        progress("[download]   0.0% of ~  120.00MiB at  Unknown B/s ETA Unknown"),
        Some(0.0)
    );
    let pct = progress("[download]  42.5% of ~120.00MiB at    5.20MiB/s ETA 00:12").unwrap();
    assert!((pct - 0.425).abs() < 1e-9);
}

#[test]
fn ignores_non_progress_lines() {
    assert!(progress("[info] Downloading webpage").is_none());
    assert!(progress("").is_none());
    assert!(progress("ERROR: something").is_none());
}

#[test]
fn clamps_out_of_range() {
    assert_eq!(progress("nndd-progress:-5%"), Some(0.0));
    assert_eq!(progress("nndd-progress:200%"), Some(1.0));
}

#[test]
fn progress_text_exact() {
    assert_eq!(progress_text("nndd-progress: 12.5%% ").as_deref(), Some("12.5"));
    assert_eq!(progress_text("[download][download] 7%").as_deref(), Some("7"));
    assert_eq!(progress_text("[download] no percent"), None);
    assert_eq!(progress_text("x nndd-progress:1%"), None);
}

#[test]
fn failure_message_keeps_forty_nonempty_lines() {
    let mut stderr = String::new();
    for i in 0..50 {
        stderr.push_str(&format!("line {i}\n\n"));
    }
    let m = failure_message(Some(2), &stderr);
    assert!(m.starts_with("yt-dlp failed (exit 2):\nline 0\nline 1\n"));
    assert!(m.ends_with("line 39"));
    assert_eq!(failure_message(None, "boom"), "yt-dlp failed (exit -1):\nboom");
}
