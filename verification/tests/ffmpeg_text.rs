use nndd_next::ffmpeg::{
    domand_headers, duration_tokens, find_dimensions, probe_dimensions, progress_value,
    ProgressValue,
};

fn timecode(s: &str) -> Option<f64> {
    let mut parts = s.split(':');
    let h: f64 = parts.next()?.trim().parse().ok()?;
    let m: f64 = parts.next()?.trim().parse().ok()?;
    let sec: f64 = parts.next()?.trim().parse().ok()?;
    Some(h * 3600.0 + m * 60.0 + sec)
}

fn progress_seconds(line: &str) -> Option<f64> {
    match progress_value(line)? {
        ProgressValue::Micros(v) => v.parse::<f64>().ok().map(|us| us / 1_000_000.0),
        ProgressValue::Timecode(v) => timecode(&v),
    }
}

#[test]
fn dimensions_ignores_aspect_ratio() {
    let line = "Video: h264, yuv420p, 1920x1080 [SAR 1:1 DAR 16x9], 30 fps";
    assert_eq!(find_dimensions(line), Some((1920, 1080)));
}

#[test]
fn dimensions_edge_cases() {
    assert_eq!(find_dimensions("16x9 then 640x360"), Some((640, 360)));
    assert_eq!(find_dimensions("x720 and 1280x"), None);
    assert_eq!(find_dimensions("99999999999x720 640x360"), None);
    assert_eq!(find_dimensions("no size here"), None);
    assert_eq!(find_dimensions("０x16 32x32"), Some((32, 32)));
    assert_eq!(find_dimensions("Video: 12x12"), Some((12, 12)));
    assert_eq!(find_dimensions("9x720 1280x7 012x34"), Some((12, 34)));
}

#[test]
fn parse_probe_extracts_dims_and_duration() {
    let stderr = "\
Input #0, mov,mp4,m4a,3gp,3g2,mj2, from 'video.mp4':
  Duration: 00:03:21.50, start: 0.000000, bitrate: 1234 kb/s
    Stream #0:0(und): Video: h264 (High), yuv420p(tv), 1280x720 [SAR 1:1 DAR 16:9], 1000 kb/s, 30 fps
    Stream #0:1(und): Audio: aac (LC), 48000 Hz, stereo, fltp, 128 kb/s
";
    assert_eq!(probe_dimensions(stderr), Some((1280, 720)));
    let tokens = duration_tokens(stderr);
    assert_eq!(tokens, vec!["00:03:21.50".to_string()]);
    let duration = tokens.iter().find_map(|t| timecode(t)).unwrap_or(0.0);
    assert!((duration - 201.5).abs() < 0.01);
}

#[test]
fn parse_probe_handles_portrait() {
    let stderr = "    Stream #0:0: Video: h264, yuv420p, 720x1280, 30 fps";
    assert_eq!(probe_dimensions(stderr), Some((720, 1280)));
}

#[test]
fn parse_probe_none_without_video() {
    let stderr = "  Duration: 00:01:00.00\n    Stream #0:0: Audio: aac";
    assert_eq!(probe_dimensions(stderr), None);
    assert_eq!(duration_tokens(stderr), vec!["00:01:00.00".to_string()]);
}

#[test]
fn duration_tokens_keep_every_candidate() {
    let stderr = "Duration: N/A, bitrate\n  Duration:   00:00:05.00 , x\nnone";
    assert_eq!(
        duration_tokens(stderr),
        vec!["N/A".to_string(), "00:00:05.00".to_string()]
    );
}

#[test]
fn timecode_parses() {
    assert!((timecode("00:03:21.50").unwrap() - 201.5).abs() < 0.001);
    assert!(timecode("N/A").is_none());
}

#[test]
fn progress_line_parsing() {
    assert!((progress_seconds("out_time_us=2500000").unwrap() - 2.5).abs() < 0.001);
    assert!((progress_seconds("out_time=0:00:05.00").unwrap() - 5.0).abs() < 0.001);
    assert_eq!(progress_seconds("frame=10"), None);
    assert_eq!(progress_seconds("progress=continue"), None);
}

#[test]
fn progress_value_kinds() {
    assert!(matches!(progress_value(" out_time_ms=7 "), Some(ProgressValue::Micros(v)) if v == "7"));
    assert!(matches!(progress_value("out_time= 1:00 "), Some(ProgressValue::Timecode(v)) if v == "1:00"));
}

#[test]
fn domand_headers_with_and_without_cookie() {
    let base = domand_headers(None);
    assert!(base.starts_with("Accept: */*\r\n"));
    assert!(base.ends_with("sec-ch-ua-platform: \"Linux\"\r\n"));
    assert!(!base.contains("Cookie"));
    let with = domand_headers(Some("user_session=abc"));
    assert_eq!(with, format!("{base}Cookie: user_session=abc\r\n"));
}
