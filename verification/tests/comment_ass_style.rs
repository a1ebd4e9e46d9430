use nndd_next::comment_ass::{
    ass_color, ass_escape, named_color, outline_color_for, parse_hex_color, parse_style, vpos_order,
    BurnInComment, Position, Size,
};

fn cmds(v: &[&str]) -> Vec<String> {
    v.iter().map(|s| s.to_string()).collect()
}

#[test]
fn named_colors_resolve() {
    assert_eq!(named_color("red"), Some(0xFF0000));
    assert_eq!(named_color("white"), Some(0xFFFFFF));
    assert_eq!(named_color("niconicowhite"), Some(0xCCCC99));
    assert_eq!(named_color("truered"), Some(0xCC0033));
    assert_eq!(named_color("marineblue"), Some(0x3399FF));
    assert_eq!(named_color("notacolor"), None);
}

#[test]
fn hex_colors_parse() {
    assert_eq!(parse_hex_color("#FF8800"), Some(0xFF8800));
    assert_eq!(parse_hex_color("#f80"), Some(0xFF8800));
    assert_eq!(parse_hex_color("FF8800"), None);
    assert_eq!(parse_hex_color("#xyz"), None);
}

#[test]
fn hex_color_edge_cases() {
    assert_eq!(parse_hex_color("#"), None);
    assert_eq!(parse_hex_color("#12345"), None);
    assert_eq!(parse_hex_color("#+12345"), None);
    assert_eq!(parse_hex_color("#-12345"), None);
    assert_eq!(parse_hex_color("#aBc"), Some(0xAABBCC));
    assert_eq!(parse_hex_color("#1234567"), None);
    assert_eq!(parse_hex_color("#+ab"), None);
    assert_eq!(parse_hex_color("#ａ"), None);
}

#[test]
fn ass_color_is_bgr() {
    assert_eq!(ass_color(0xFF0000), "&H0000FF&");
    assert_eq!(ass_color(0x00FF00), "&H00FF00&");
    assert_eq!(ass_color(0x0000FF), "&HFF0000&");
}

#[test]
fn ass_color_pads_and_ignores_high_byte() {
    assert_eq!(ass_color(0x010203), "&H030201&");
    assert_eq!(ass_color(0xAB123456), "&H563412&");
}

#[test]
fn outline_matches_float_luma_everywhere() {
    for r in 0u32..256 {
        for g in 0u32..256 {
            for b in 0u32..256 {
                let luma = 0.299 * r as f64 + 0.587 * g as f64 + 0.114 * b as f64;
                let expected = if luma < 48.0 { 0xFFFFFF } else { 0x000000 };
                assert_eq!(outline_color_for((r << 16) | (g << 8) | b), expected);
            }
        }
    }
}

#[test]
fn outline_examples() {
    assert_eq!(outline_color_for(0x000000), 0xFFFFFF);
    assert_eq!(outline_color_for(0xFFFFFF), 0x000000);
    assert_eq!(outline_color_for(0x124222), 0xFFFFFF);
    assert_eq!(outline_color_for(0x303030), 0x000000);
}

#[test]
fn parse_defaults_to_naka_medium_white() {
    let s = parse_style(&[], false);
    assert_eq!(s.position, Position::Naka);
    assert_eq!(s.size, Size::Medium);
    assert_eq!(s.rgb, 0xFFFFFF);
    assert!(!s.invisible);
}

#[test]
fn parse_position_size_color() {
    let s = parse_style(&cmds(&["shita", "big", "red"]), false);
    assert_eq!(s.position, Position::Shita);
    assert_eq!(s.size, Size::Big);
    assert_eq!(s.rgb, 0xFF0000);
}

#[test]
fn parse_last_color_wins_and_hex() {
    let s = parse_style(&cmds(&["red", "#00FF00"]), false);
    assert_eq!(s.rgb, 0x00FF00);
}

#[test]
fn parse_is_case_insensitive() {
    let s = parse_style(&cmds(&["UE", "BIG", "Red"]), false);
    assert_eq!(s.position, Position::Ue);
    assert_eq!(s.size, Size::Big);
    assert_eq!(s.rgb, 0xFF0000);
}

#[test]
fn parse_case_law_on_mixed_commands() {
    let mixed = cmds(&[" ShItA ", "SMALL", "#Ab0", "184", "Invisible"]);
    let lower: Vec<String> = mixed.iter().map(|c| c.to_ascii_lowercase()).collect();
    assert_eq!(parse_style(&mixed, false), parse_style(&lower, false));
    let s = parse_style(&mixed, true);
    assert_eq!(s.position, Position::Shita);
    assert_eq!(s.size, Size::Small);
    assert_eq!(s.rgb, 0xAABB00);
    assert!(s.invisible);
}

#[test]
fn parse_invisible_flag() {
    let s = parse_style(&cmds(&["invisible"]), false);
    assert!(s.invisible);
}

#[test]
fn parse_ignores_unknown_and_blank() {
    let s = parse_style(&cmds(&["184", "  ", "full", "mincho"]), true);
    assert_eq!(s.position, Position::Naka);
    assert_eq!(s.size, Size::Medium);
    assert_eq!(s.rgb, 0xFFFFFF);
}

#[test]
fn inert_commands_inserted_anywhere_change_nothing() {
    let base = parse_style(&cmds(&["ue", "red", "big"]), false);
    for with in [
        &["184", "ue", "red", "big"][..],
        &["ue", "full", "red", "big"][..],
        &["ue", "red", " ", "big", "mincho"][..],
    ] {
        assert_eq!(parse_style(&cmds(with), false), base);
        assert_eq!(parse_style(&cmds(with), true), base);
    }
}

#[test]
fn last_command_of_each_kind_wins() {
    let s = parse_style(&cmds(&["shita", "blue", "small", "invisible", "UE", "#00ff00", "Big"]), false);
    assert_eq!(s.position, Position::Ue);
    assert_eq!(s.size, Size::Big);
    assert_eq!(s.rgb, 0x00FF00);
    assert!(s.invisible);
}

#[test]
fn escape_braces_and_backslash() {
    assert_eq!(ass_escape("a{b}c"), "a\\{b\\}c");
    assert_eq!(ass_escape("a\\b"), "a\\\\b");
}

#[test]
fn escape_newline_to_hard_break() {
    assert_eq!(ass_escape("line1\nline2"), "line1\\Nline2");
}

#[test]
fn escape_leading_space_to_hardspace() {
    assert_eq!(ass_escape("  hi"), "\\h\\hhi");
}

#[test]
fn escape_tabs_and_carriage_returns() {
    assert_eq!(ass_escape("a\tb\r\n c"), "a\\h\\h\\h\\hb\\N\\hc");
    assert_eq!(ass_escape(""), "");
}

#[test]
fn escaped_braces_never_open_a_tag() {
    let out = ass_escape("{evil}\\{x}");
    let chars: Vec<char> = out.chars().collect();
    let mut i = 0;
    while i < chars.len() {
        if chars[i] == '\\' {
            assert!(matches!(chars[i + 1], '\\' | '{' | '}' | 'h' | 'N'));
            i += 2;
        } else {
            assert!(!matches!(chars[i], '{' | '}' | '\n' | '\r'));
            i += 1;
        }
    }
    assert!(out.contains("\\{evil\\}"));
}

fn at(vpos_ms: i64, content: &str) -> BurnInComment {
    BurnInComment { vpos_ms, content: content.to_string(), commands: Vec::new(), is_owner: false }
}

#[test]
fn comments_come_in_time_order_ties_kept() {
    let cs = vec![at(3000, "c"), at(1000, "a"), at(2000, "b1"), at(2000, "b2"), at(-5, "z")];
    assert_eq!(vpos_order(&cs), vec![4, 1, 2, 3, 0]);
    assert!(vpos_order(&[]).is_empty());
    let reversed = vec![at(3, "x"), at(2, "y"), at(1, "z")];
    assert_eq!(vpos_order(&reversed), vec![2, 1, 0]);
}
