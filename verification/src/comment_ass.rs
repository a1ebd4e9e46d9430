//! The text pieces of turning niconico comments into ASS subtitles: comment
//! commands (position, size, colour), colour formats and the escaping of
//! comment bodies for ASS `Dialogue` lines.
use vstd::prelude::*;

use crate::text::{
    all_radix_digits, char_digit_value, chars_eq, chars_of, hex2, is_radix_digit, join,
    lemma_lower_seq_idem, lemma_radix_lower, lemma_split_char_nonempty, lemma_to_lower,
    lemma_trim_lower, lower_chars, lower_seq, radix_value, push_chars, push_hex2, split_char, split_chars,
    subvec, trim, trim_chars, views,
};

verus! {

/// One comment to burn into a video.
#[derive(Debug, Clone)]
pub struct BurnInComment {
    /// Playback position in milliseconds.
    pub vpos_ms: i64,
    /// Body text.
    pub content: String,
    /// niconico commands (the `mail` field split on spaces).
    pub commands: Vec<String>,
    /// Posted by the uploader.
    pub is_owner: bool,
}

#[derive(Debug, Clone, Copy, PartialEq, Eq)]
pub enum Position {
    Naka,
    Ue,
    Shita,
}

#[derive(Debug, Clone, Copy, PartialEq, Eq)]
pub enum Size {
    Small,
    Medium,
    Big,
}

/// The meaning of a comment's command list.
#[derive(Debug, Clone, Copy, PartialEq, Eq)]
pub struct ParsedStyle {
    pub position: Position,
    pub size: Size,
    /// 0xRRGGBB.
    pub rgb: u32,
    /// `invisible`: the comment is not drawn.
    pub invisible: bool,
}

// ---------------------------------------------------------------------------
// Colours
// ---------------------------------------------------------------------------

/// niconico colour names (regular and premium, with aliases) as 0xRRGGBB.
pub open spec fn spec_named_color(name: Seq<char>) -> Option<u32> {
    if name == "white"@ {
        Some(0xFFFFFF)
    } else if name == "red"@ {
        Some(0xFF0000)
    } else if name == "pink"@ {
        Some(0xFF8080)
    } else if name == "orange"@ {
        Some(0xFFC000)
    } else if name == "yellow"@ {
        Some(0xFFFF00)
    } else if name == "green"@ {
        Some(0x00FF00)
    } else if name == "cyan"@ {
        Some(0x00FFFF)
    } else if name == "blue"@ {
        Some(0x0000FF)
    } else if name == "purple"@ {
        Some(0xC000FF)
    } else if name == "black"@ {
        Some(0x000000)
    } else if name == "white2"@ || name == "niconicowhite"@ {
        Some(0xCCCC99)
    } else if name == "red2"@ || name == "truered"@ {
        Some(0xCC0033)
    } else if name == "pink2"@ {
        Some(0xFF33CC)
    } else if name == "orange2"@ || name == "passionorange"@ {
        Some(0xFF6600)
    } else if name == "yellow2"@ || name == "madyellow"@ {
        Some(0x999900)
    } else if name == "green2"@ || name == "elementalgreen"@ {
        Some(0x00CC66)
    } else if name == "cyan2"@ {
        Some(0x00CCCC)
    } else if name == "blue2"@ || name == "marineblue"@ {
        Some(0x3399FF)
    } else if name == "purple2"@ || name == "nobleviolet"@ {
        Some(0x6633CC)
    } else if name == "black2"@ || name == "niconicoblack"@ {
        Some(0x666666)
    } else {
        None
    }
}

fn is_name(name: &[char], lit: &str) -> (r: bool)
    ensures
        r == (name@ == lit@),
{
    let l = chars_of(lit);
    chars_eq(name, &l)
}

fn named_color_chars(name: &[char]) -> (r: Option<u32>)
    ensures
        r == spec_named_color(name@),
{
    if is_name(name, "white") {
        Some(0xFFFFFF)
    } else if is_name(name, "red") {
        Some(0xFF0000)
    } else if is_name(name, "pink") {
        Some(0xFF8080)
    } else if is_name(name, "orange") {
        Some(0xFFC000)
    } else if is_name(name, "yellow") {
        Some(0xFFFF00)
    } else if is_name(name, "green") {
        Some(0x00FF00)
    } else if is_name(name, "cyan") {
        Some(0x00FFFF)
    } else if is_name(name, "blue") {
        Some(0x0000FF)
    } else if is_name(name, "purple") {
        Some(0xC000FF)
    } else if is_name(name, "black") {
        Some(0x000000)
    } else if is_name(name, "white2") || is_name(name, "niconicowhite") {
        Some(0xCCCC99)
    } else if is_name(name, "red2") || is_name(name, "truered") {
        Some(0xCC0033)
    } else if is_name(name, "pink2") {
        Some(0xFF33CC)
    } else if is_name(name, "orange2") || is_name(name, "passionorange") {
        Some(0xFF6600)
    } else if is_name(name, "yellow2") || is_name(name, "madyellow") {
        Some(0x999900)
    } else if is_name(name, "green2") || is_name(name, "elementalgreen") {
        Some(0x00CC66)
    } else if is_name(name, "cyan2") {
        Some(0x00CCCC)
    } else if is_name(name, "blue2") || is_name(name, "marineblue") {
        Some(0x3399FF)
    } else if is_name(name, "purple2") || is_name(name, "nobleviolet") {
        Some(0x6633CC)
    } else if is_name(name, "black2") || is_name(name, "niconicoblack") {
        Some(0x666666)
    } else {
        None
    }
}

/// A niconico colour name as 0xRRGGBB; `None` for an unknown name.
pub fn named_color(name: &str) -> (r: Option<u32>)
    ensures
        r == spec_named_color(name@),
{
    let n = chars_of(name);
    named_color_chars(&n)
}

/// `#RRGGBB` or `#RGB` as 0xRRGGBB: a `#` followed by exactly six, or exactly
/// three, hexadecimal digits (either case); `#RGB` stands for `#RRGGBB`.
/// Anything else is no colour.
pub open spec fn spec_parse_hex_color(s: Seq<char>) -> Option<u32> {
    if s.len() > 0 && s[0] == '#' {
        let hex = s.drop_first();
        if hex.len() == 6 && all_radix_digits(hex, 16) {
            Some(radix_value(hex, 16) as u32)
        } else if hex.len() == 3 && all_radix_digits(hex, 16) {
            Some(radix_value(seq![hex[0], hex[0], hex[1], hex[1], hex[2], hex[2]], 16) as u32)
        } else {
            None
        }
    } else {
        None
    }
}

pub open spec fn pow16(n: nat) -> nat
    decreases n,
{
    if n == 0 {
        1
    } else {
        16 * pow16((n - 1) as nat)
    }
}

/// The value of at most six hexadecimal digits; `None` when one is not a
/// hexadecimal digit.
fn hex_value(h: &[char]) -> (r: Option<u32>)
    requires
        h.len() <= 6,
    ensures
        match r {
            Some(v) => all_radix_digits(h@, 16) && v == radix_value(h@, 16) && v < pow16(
                h.len() as nat,
            ),
            None => !all_radix_digits(h@, 16),
        },
{
    let mut acc: u32 = 0;
    let mut i: usize = 0;
    assert(pow16(6) == 0x100_0000) by { reveal_with_fuel(pow16, 7); }
    while i < h.len()
        invariant
            i <= h.len() <= 6,
            pow16(6) == 0x100_0000,
            all_radix_digits(h@.take(i as int), 16),
            acc == radix_value(h@.take(i as int), 16),
            acc < pow16(i as nat),
            pow16(i as nat) <= pow16(6),
        decreases h.len() - i,
    {
        let d = char_digit_value(h[i]);
        if d >= 16 {
            assert(!is_radix_digit(h@[i as int], 16));
            return None;
        }
        let ghost t = h@.take(i + 1);
        assert(t.drop_last() =~= h@.take(i as int));
        assert(t.last() == h@[i as int]);
        assert(pow16((i + 1) as nat) == 16 * pow16(i as nat));
        proof {
            lemma_pow16_mono((i + 1) as nat, 6);
        }
        acc = acc * 16 + d;
        i += 1;
    }
    assert(h@.take(h.len() as int) =~= h@);
    Some(acc)
}

proof fn lemma_pow16_mono(a: nat, b: nat)
    requires
        a <= b,
    ensures
        pow16(a) <= pow16(b),
    decreases b,
{
    if a < b {
        lemma_pow16_mono(a, (b - 1) as nat);
    }
}

fn parse_hex_color_chars(s: &[char]) -> (r: Option<u32>)
    ensures
        r == spec_parse_hex_color(s@),
        r matches Some(v) ==> v <= 0xFF_FFFF,
{
    if s.len() == 0 || s[0] != '#' {
        return None;
    }
    let hex = subvec(s, 1, s.len());
    assert(hex@ =~= s@.drop_first());
    assert(pow16(6) == 0x100_0000) by { reveal_with_fuel(pow16, 7); }
    assert(pow16(3) == 0x1000) by { reveal_with_fuel(pow16, 4); }
    if hex.len() == 6 {
        hex_value(&hex)
    } else if hex.len() == 3 {
        let expanded: Vec<char> = vec![hex[0], hex[0], hex[1], hex[1], hex[2], hex[2]];
        let ghost e = seq![hex@[0], hex@[0], hex@[1], hex@[1], hex@[2], hex@[2]];
        assert(expanded@ =~= e);
        let r = hex_value(&expanded);
        proof {
            if all_radix_digits(hex@, 16) {
                assert forall|i: int| 0 <= i < 6 implies is_radix_digit(#[trigger] e[i], 16) by {
                    assert(is_radix_digit(hex@[i / 2], 16));
                }
            } else {
                let k = choose|k: int| 0 <= k < 3 && !is_radix_digit(#[trigger] hex@[k], 16);
                assert(e[2 * k] == hex@[k]);
            }
        }
        r
    } else {
        None
    }
}

/// Parse `#RRGGBB` / `#RGB` colours.
pub fn parse_hex_color(s: &str) -> (r: Option<u32>)
    ensures
        r == spec_parse_hex_color(s@),
        r matches Some(v) ==> v <= 0xFF_FFFF,
{
    let c = chars_of(s);
    parse_hex_color_chars(&c)
}

/// 0xRRGGBB as the ASS colour `&HBBGGRR&` (blue, green, red order).
pub open spec fn spec_ass_color(rgb: u32) -> Seq<char> {
    let r = (rgb / 65536) % 256;
    let g = (rgb / 256) % 256;
    let b = rgb % 256;
    "&H"@ + hex2(b as nat) + hex2(g as nat) + hex2(r as nat) + "&"@
}

pub fn ass_color(rgb: u32) -> (s: String)
    ensures
        s@ == spec_ass_color(rgb),
{
    let r = (rgb >> 16) & 0xFF;
    let g = (rgb >> 8) & 0xFF;
    let b = rgb & 0xFF;
    assert(r == (rgb / 65536) % 256 && g == (rgb / 256) % 256 && b == rgb % 256) by (bit_vector)
        requires
            r == (rgb >> 16) & 0xFF,
            g == (rgb >> 8) & 0xFF,
            b == rgb & 0xFF,
    ;
    let mut s = String::new();
    s.push_str("&H");
    push_hex2(&mut s, b);
    push_hex2(&mut s, g);
    push_hex2(&mut s, r);
    s.push_str("&");
    s
}

/// The colours whose luma `0.299 R + 0.587 G + 0.114 B` is exactly 48 but
/// comes out just below 48 when evaluated in `f64`, left to right.
pub open spec fn luma_rounds_below_48(r: int, g: int, b: int) -> bool {
    ||| (r == 18 && g == 66 && b == 34)
    ||| (r == 33 && g == 57 && b == 41)
    ||| (r == 41 && g == 37 && b == 123)
    ||| (r == 74 && g == 40 && b == 21)
    ||| (r == 115 && g == 23 && b == 1)
    ||| (r == 130 && g == 14 && b == 8)
    ||| (r == 134 && g == 4 && b == 49)
}

/// Outline colour: white around dark text (luma below 48), black otherwise.
/// The luma `0.299 R + 0.587 G + 0.114 B` is compared in thousandths; the
/// `f64` evaluation differs from the exact value only on seven colours of
/// luma exactly 48, which it puts below 48.
pub open spec fn spec_outline_color(rgb: u32) -> u32 {
    let r = (rgb / 65536) % 256;
    let g = (rgb / 256) % 256;
    let b = rgb % 256;
    if 299 * r + 587 * g + 114 * b < 48000 || luma_rounds_below_48(r as int, g as int, b as int) {
        0xFFFFFF
    } else {
        0x000000
    }
}

pub fn outline_color_for(rgb: u32) -> (c: u32)
    ensures
        c == spec_outline_color(rgb),
{
    let r = (rgb >> 16) & 0xFF;
    let g = (rgb >> 8) & 0xFF;
    let b = rgb & 0xFF;
    assert(r == (rgb / 65536) % 256 && g == (rgb / 256) % 256 && b == rgb % 256) by (bit_vector)
        requires
            r == (rgb >> 16) & 0xFF,
            g == (rgb >> 8) & 0xFF,
            b == rgb & 0xFF,
    ;
    let below = (r == 18 && g == 66 && b == 34) || (r == 33 && g == 57 && b == 41) || (r == 41
        && g == 37 && b == 123) || (r == 74 && g == 40 && b == 21) || (r == 115 && g == 23 && b
        == 1) || (r == 130 && g == 14 && b == 8) || (r == 134 && g == 4 && b == 49);
    if 299 * r + 587 * g + 114 * b < 48000 || below {
        0xFFFFFF
    } else {
        0x000000
    }
}

// ---------------------------------------------------------------------------
// Commands
// ---------------------------------------------------------------------------

pub open spec fn default_style() -> ParsedStyle {
    ParsedStyle { position: Position::Naka, size: Size::Medium, rgb: 0xFFFFFF, invisible: false }
}

/// The effect of one command: position, size, `invisible` and colours are
/// compared without regard to ASCII case, after trimming; unknown commands
/// (`184`, `full`, fonts, ...) change nothing.
pub open spec fn apply_command(st: ParsedStyle, raw: Seq<char>) -> ParsedStyle {
    let cmd = trim(raw);
    let lower = lower_seq(cmd);
    if cmd.len() == 0 {
        st
    } else if lower == "ue"@ {
        ParsedStyle { position: Position::Ue, ..st }
    } else if lower == "shita"@ {
        ParsedStyle { position: Position::Shita, ..st }
    } else if lower == "naka"@ {
        ParsedStyle { position: Position::Naka, ..st }
    } else if lower == "big"@ {
        ParsedStyle { size: Size::Big, ..st }
    } else if lower == "small"@ {
        ParsedStyle { size: Size::Small, ..st }
    } else if lower == "medium"@ {
        ParsedStyle { size: Size::Medium, ..st }
    } else if lower == "invisible"@ {
        ParsedStyle { invisible: true, ..st }
    } else if spec_named_color(lower) is Some {
        ParsedStyle { rgb: spec_named_color(lower)->0, ..st }
    } else if spec_parse_hex_color(cmd) is Some {
        ParsedStyle { rgb: spec_parse_hex_color(cmd)->0, ..st }
    } else {
        st
    }
}

/// Commands applied in order from the default (naka, medium, white): the
/// last position, size and colour win.
pub open spec fn spec_parse_style(cmds: Seq<Seq<char>>) -> ParsedStyle
    decreases cmds.len(),
{
    if cmds.len() == 0 {
        default_style()
    } else {
        apply_command(spec_parse_style(cmds.drop_last()), cmds.last())
    }
}

pub open spec fn string_views(v: Seq<String>) -> Seq<Seq<char>> {
    v.map_values(|s: String| s@)
}

fn apply_command_exec(st: ParsedStyle, raw: &String) -> (r: ParsedStyle)
    ensures
        r == apply_command(st, raw@),
{
    let rc = chars_of(raw.as_str());
    let cmd = trim_chars(&rc);
    if cmd.len() == 0 {
        return st;
    }
    let lower = lower_chars(&cmd);
    if is_name(&lower, "ue") {
        ParsedStyle { position: Position::Ue, ..st }
    } else if is_name(&lower, "shita") {
        ParsedStyle { position: Position::Shita, ..st }
    } else if is_name(&lower, "naka") {
        ParsedStyle { position: Position::Naka, ..st }
    } else if is_name(&lower, "big") {
        ParsedStyle { size: Size::Big, ..st }
    } else if is_name(&lower, "small") {
        ParsedStyle { size: Size::Small, ..st }
    } else if is_name(&lower, "medium") {
        ParsedStyle { size: Size::Medium, ..st }
    } else if is_name(&lower, "invisible") {
        ParsedStyle { invisible: true, ..st }
    } else {
        match named_color_chars(&lower) {
            Some(rgb) => ParsedStyle { rgb, ..st },
            None => match parse_hex_color_chars(&cmd) {
                Some(rgb) => ParsedStyle { rgb, ..st },
                None => st,
            },
        }
    }
}

/// Interpret a comment's commands.  `is_owner` does not change the result:
/// uploader comments default to white like every other comment.
pub fn parse_style(commands: &[String], is_owner: bool) -> (st: ParsedStyle)
    ensures
        st == spec_parse_style(string_views(commands@)),
{
    let ghost cv = string_views(commands@);
    let mut st = ParsedStyle {
        position: Position::Naka,
        size: Size::Medium,
        rgb: 0xFFFFFF,
        invisible: false,
    };
    let mut i: usize = 0;
    assert(cv.take(0) =~= Seq::<Seq<char>>::empty());
    while i < commands.len()
        invariant
            i <= commands.len(),
            cv == string_views(commands@),
            st == spec_parse_style(cv.take(i as int)),
        decreases commands.len() - i,
    {
        st = apply_command_exec(st, &commands[i]);
        assert(cv.take(i + 1).drop_last() =~= cv.take(i as int));
        i += 1;
    }
    assert(cv.take(commands.len() as int) =~= cv);
    st
}

proof fn lemma_hex_color_lower(s: Seq<char>)
    ensures
        spec_parse_hex_color(lower_seq(s)) == spec_parse_hex_color(s),
{
    let l = lower_seq(s);
    if s.len() > 0 {
        lemma_to_lower(s[0]);
        let hex = s.drop_first();
        let lhex = l.drop_first();
        assert(lhex =~= lower_seq(hex));
        lemma_radix_lower(hex, 16);
        if hex.len() == 3 {
            let e = seq![hex[0], hex[0], hex[1], hex[1], hex[2], hex[2]];
            assert(seq![lhex[0], lhex[0], lhex[1], lhex[1], lhex[2], lhex[2]] =~= lower_seq(e));
            lemma_radix_lower(e, 16);
        }
    }
}

proof fn lemma_apply_command_lower(st: ParsedStyle, raw: Seq<char>)
    ensures
        apply_command(st, lower_seq(raw)) == apply_command(st, raw),
{
    lemma_trim_lower(raw);
    lemma_lower_seq_idem(trim(raw));
    lemma_hex_color_lower(trim(raw));
}

/// Commands are read without regard to ASCII case: lowercasing every command
/// gives the same style.
pub proof fn law_commands_ignore_case(cmds: Seq<Seq<char>>)
    ensures
        spec_parse_style(cmds.map_values(|c: Seq<char>| lower_seq(c))) == spec_parse_style(cmds),
    decreases cmds.len(),
{
    if cmds.len() > 0 {
        let lc = cmds.map_values(|c: Seq<char>| lower_seq(c));
        assert(lc.drop_last() =~= cmds.drop_last().map_values(|c: Seq<char>| lower_seq(c)));
        law_commands_ignore_case(cmds.drop_last());
        lemma_apply_command_lower(spec_parse_style(cmds.drop_last()), cmds.last());
    }
}

// ---------------------------------------------------------------------------
// Escaping
// ---------------------------------------------------------------------------

/// The escape of one character: `\` `{` `}` are backslash-escaped, CR is
/// dropped and a tab becomes four hard spaces.
pub open spec fn esc_char(c: char) -> Seq<char> {
    if c == '\\' {
        seq!['\\', '\\']
    } else if c == '{' {
        seq!['\\', '{']
    } else if c == '}' {
        seq!['\\', '}']
    } else if c == '\r' {
        Seq::empty()
    } else if c == '\t' {
        seq!['\\', 'h', '\\', 'h', '\\', 'h', '\\', 'h']
    } else {
        seq![c]
    }
}

pub open spec fn esc_raw(line: Seq<char>) -> Seq<char>
    decreases line.len(),
{
    if line.len() == 0 {
        Seq::empty()
    } else {
        esc_raw(line.drop_last()) + esc_char(line.last())
    }
}

/// Number of leading `' '`.
pub open spec fn leading_spaces(s: Seq<char>) -> nat
    decreases s.len(),
{
    if s.len() > 0 && s[0] == ' ' {
        1 + leading_spaces(s.drop_first())
    } else {
        0
    }
}

/// `\h` repeated `n` times.
pub open spec fn hard_spaces(n: nat) -> Seq<char>
    decreases n,
{
    if n == 0 {
        Seq::empty()
    } else {
        hard_spaces((n - 1) as nat) + seq!['\\', 'h']
    }
}

/// One escaped line, its leading spaces turned into hard spaces (libass
/// would otherwise collapse them).
pub open spec fn esc_line(line: Seq<char>) -> Seq<char> {
    let e = esc_raw(line);
    let k = leading_spaces(e);
    hard_spaces(k) + e.skip(k as int)
}

/// The body of a `Dialogue` line: lines escaped and joined with `\N`.
pub open spec fn spec_ass_escape(text: Seq<char>) -> Seq<char> {
    join(split_char(text, '\n').map_values(|l: Seq<char>| esc_line(l)), seq!['\\', 'N'])
}

proof fn lemma_leading_spaces(s: Seq<char>, k: int)
    requires
        0 <= k <= s.len(),
        forall|j: int| 0 <= j < k ==> s[j] == ' ',
        k == s.len() || s[k] != ' ',
    ensures
        leading_spaces(s) == k,
    decreases k,
{
    if k > 0 {
        lemma_leading_spaces(s.drop_first(), k - 1);
    }
}

/// The characters that may follow `\` in an escaped body.
pub open spec fn is_escape_letter(c: char) -> bool {
    c == '\\' || c == '{' || c == '}' || c == 'h' || c == 'N'
}

/// Text that libass shows as it is: every `\` starts one of the escapes
/// `\\`, `\{`, `\}`, `\h`, `\N`, and no `{`, `}`, CR or LF stands on its own,
/// so no override block can open and no line can end early.
pub open spec fn is_plain_ass_text(s: Seq<char>) -> bool
    decreases s.len(),
{
    if s.len() == 0 {
        true
    } else if s[0] == '\\' {
        s.len() >= 2 && is_escape_letter(s[1]) && is_plain_ass_text(s.skip(2))
    } else {
        !(s[0] == '{' || s[0] == '}' || s[0] == '\n' || s[0] == '\r') && is_plain_ass_text(
            s.drop_first(),
        )
    }
}

proof fn lemma_plain_concat(a: Seq<char>, b: Seq<char>)
    requires
        is_plain_ass_text(a),
        is_plain_ass_text(b),
    ensures
        is_plain_ass_text(a + b),
    decreases a.len(),
{
    if a.len() == 0 {
        assert(a + b =~= b);
    } else if a[0] == '\\' {
        lemma_plain_concat(a.skip(2), b);
        assert((a + b).skip(2) =~= a.skip(2) + b);
    } else {
        lemma_plain_concat(a.drop_first(), b);
        assert((a + b).drop_first() =~= a.drop_first() + b);
    }
}

proof fn lemma_plain_pair(c: char)
    requires
        is_escape_letter(c),
    ensures
        is_plain_ass_text(seq!['\\', c]),
{
    let s = seq!['\\', c];
    assert(s[0] == '\\' && s[1] == c);
    assert(s.skip(2) =~= Seq::<char>::empty());
    assert(is_plain_ass_text(Seq::<char>::empty()));
}

proof fn lemma_plain_esc_char(c: char)
    requires
        c != '\n',
    ensures
        is_plain_ass_text(esc_char(c)),
{
    if c == '\\' || c == '{' || c == '}' {
        lemma_plain_pair(c);
        assert(esc_char(c) =~= seq!['\\', c]);
    } else if c == '\r' {
        assert(is_plain_ass_text(Seq::<char>::empty()));
    } else if c == '\t' {
        let h = seq!['\\', 'h'];
        lemma_plain_pair('h');
        lemma_plain_concat(h, h);
        lemma_plain_concat(h + h, h);
        lemma_plain_concat(h + h + h, h);
        assert(esc_char(c) =~= h + h + h + h);
    } else {
        assert(seq![c].drop_first() =~= Seq::<char>::empty());
        assert(is_plain_ass_text(Seq::<char>::empty()));
        assert(seq![c][0] == c);
    }
}

proof fn lemma_plain_esc_raw(line: Seq<char>)
    requires
        !line.contains('\n'),
    ensures
        is_plain_ass_text(esc_raw(line)),
    decreases line.len(),
{
    if line.len() > 0 {
        assert(!line.drop_last().contains('\n')) by {
            if line.drop_last().contains('\n') {
                let k = choose|k: int| 0 <= k < line.drop_last().len() && line.drop_last()[k] == '\n';
                assert(line[k] == '\n');
            }
        }
        assert(line[line.len() - 1] != '\n');
        lemma_plain_esc_raw(line.drop_last());
        lemma_plain_esc_char(line.last());
        lemma_plain_concat(esc_raw(line.drop_last()), esc_char(line.last()));
    }
}

proof fn lemma_plain_hard_spaces(n: nat)
    ensures
        is_plain_ass_text(hard_spaces(n)),
    decreases n,
{
    if n > 0 {
        lemma_plain_hard_spaces((n - 1) as nat);
        lemma_plain_pair('h');
        lemma_plain_concat(hard_spaces((n - 1) as nat), seq!['\\', 'h']);
    }
}

proof fn lemma_plain_skip_spaces(e: Seq<char>)
    requires
        is_plain_ass_text(e),
    ensures
        leading_spaces(e) <= e.len(),
        is_plain_ass_text(e.skip(leading_spaces(e) as int)),
    decreases e.len(),
{
    if e.len() > 0 && e[0] == ' ' {
        lemma_plain_skip_spaces(e.drop_first());
        assert(e.skip(leading_spaces(e) as int) =~= e.drop_first().skip(
            leading_spaces(e.drop_first()) as int,
        ));
    } else {
        assert(e.skip(0) =~= e);
    }
}

proof fn lemma_plain_esc_line(line: Seq<char>)
    requires
        !line.contains('\n'),
    ensures
        is_plain_ass_text(esc_line(line)),
{
    let e = esc_raw(line);
    lemma_plain_esc_raw(line);
    lemma_plain_skip_spaces(e);
    lemma_plain_hard_spaces(leading_spaces(e));
    lemma_plain_concat(hard_spaces(leading_spaces(e)), e.skip(leading_spaces(e) as int));
}

proof fn lemma_plain_join(parts: Seq<Seq<char>>)
    requires
        forall|i: int| 0 <= i < parts.len() ==> is_plain_ass_text(#[trigger] parts[i]),
    ensures
        is_plain_ass_text(join(parts, seq!['\\', 'N'])),
    decreases parts.len(),
{
    if parts.len() == 1 {
    } else if parts.len() > 1 {
        let init = parts.drop_last();
        assert forall|i: int| 0 <= i < init.len() implies is_plain_ass_text(#[trigger] init[i]) by {
            assert(init[i] == parts[i]);
        }
        lemma_plain_join(init);
        lemma_plain_pair('N');
        lemma_plain_concat(join(init, seq!['\\', 'N']), seq!['\\', 'N']);
        assert(is_plain_ass_text(parts[parts.len() - 1]));
        lemma_plain_concat(join(init, seq!['\\', 'N']) + seq!['\\', 'N'], parts.last());
    }
}

proof fn lemma_split_char_pieces(s: Seq<char>, sep: char)
    ensures
        forall|i: int|
            0 <= i < split_char(s, sep).len() ==> !(#[trigger] split_char(s, sep)[i]).contains(sep),
    decreases s.len(),
{
    if s.len() == 0 {
        assert(!Seq::<char>::empty().contains(sep));
    } else {
        let p = split_char(s.drop_last(), sep);
        lemma_split_char_pieces(s.drop_last(), sep);
        if s.last() == sep {
            assert(!Seq::<char>::empty().contains(sep));
            assert forall|i: int| 0 <= i < p.len() + 1 implies !(#[trigger] p.push(
                Seq::<char>::empty(),
            )[i]).contains(sep) by {
                if i < p.len() {
                    assert(p.push(Seq::<char>::empty())[i] == p[i]);
                }
            }
        } else {
            assert(p.len() >= 1) by {
                if p.len() == 0 {
                    assert(split_char(s.drop_last(), sep).len() >= 1) by {
                        lemma_split_char_nonempty(s.drop_last(), sep);
                    }
                }
            }
            let q = p.update(p.len() - 1, p.last().push(s.last()));
            assert forall|i: int| 0 <= i < q.len() implies !(#[trigger] q[i]).contains(sep) by {
                if i < p.len() - 1 {
                    assert(q[i] == p[i]);
                } else {
                    let w = p.last().push(s.last());
                    assert(!p[p.len() - 1].contains(sep));
                    if w.contains(sep) {
                        let k = choose|k: int| 0 <= k < w.len() && w[k] == sep;
                        if k < w.len() - 1 {
                            assert(p.last()[k] == sep);
                        }
                    }
                }
            }
        }
    }
}

// ---------------------------------------------------------------------------
// Time order
// ---------------------------------------------------------------------------

pub open spec fn vpos_keys(comments: Seq<BurnInComment>) -> Seq<i64> {
    comments.map_values(|c: BurnInComment| c.vpos_ms)
}

/// Comment `a` comes before comment `b`: an earlier `vpos_ms`, or the same
/// one and an earlier place in the input (the order is stable).
pub open spec fn vpos_before(keys: Seq<i64>, a: int, b: int) -> bool {
    keys[a] < keys[b] || (keys[a] == keys[b] && a < b)
}

/// The indices of `comments` in time order: every index once (`n` distinct
/// indices below `n`), ascending by `vpos_ms`, ties kept in input order.
pub fn vpos_order(comments: &[BurnInComment]) -> (order: Vec<usize>)
    ensures
        order@.len() == comments@.len(),
        forall|k: int| 0 <= k < order@.len() ==> #[trigger] order@[k] < comments@.len(),
        forall|k: int, l: int|
            0 <= k < l < order@.len() ==> vpos_before(
                vpos_keys(comments@),
                #[trigger] order@[k] as int,
                #[trigger] order@[l] as int,
            ),
{
    let ghost keys = vpos_keys(comments@);
    let mut out: Vec<usize> = Vec::new();
    let mut i: usize = 0;
    while i < comments.len()
        invariant
            i <= comments.len(),
            keys == vpos_keys(comments@),
            out@.len() == i,
            forall|k: int| 0 <= k < out@.len() ==> #[trigger] out@[k] < i,
            forall|k: int, l: int|
                0 <= k < l < out@.len() ==> vpos_before(keys, #[trigger] out@[k] as int, #[trigger] out@[l] as int),
        decreases comments.len() - i,
    {
        let key = comments[i].vpos_ms;
        assert(keys[i as int] == key);
        let mut lo: usize = 0;
        let mut hi: usize = out.len();
        while lo < hi
            invariant
                0 <= lo <= hi <= out@.len(),
                out@.len() == i,
                i < comments@.len(),
                keys == vpos_keys(comments@),
                keys[i as int] == key,
                forall|k: int| 0 <= k < out@.len() ==> #[trigger] out@[k] < i,
                forall|k: int, l: int|
                    0 <= k < l < out@.len() ==> vpos_before(keys, #[trigger] out@[k] as int, #[trigger] out@[l] as int),
                forall|q: int| 0 <= q < lo ==> vpos_before(keys, #[trigger] out@[q] as int, i as int),
                forall|q: int| hi <= q < out@.len() ==> vpos_before(keys, i as int, #[trigger] out@[q] as int),
            decreases hi - lo,
        {
            let mid = lo + (hi - lo) / 2;
            let m = out[mid];
            assert(m < comments@.len());
            assert(keys[m as int] == comments@[m as int].vpos_ms);
            if key < comments[m].vpos_ms {
                assert forall|q: int| mid <= q < out@.len() implies vpos_before(
                    keys,
                    i as int,
                    #[trigger] out@[q] as int,
                ) by {
                    if q > mid {
                        assert(vpos_before(keys, out@[mid as int] as int, out@[q] as int));
                    }
                }
                hi = mid;
            } else {
                assert forall|q: int| 0 <= q <= mid implies vpos_before(
                    keys,
                    #[trigger] out@[q] as int,
                    i as int,
                ) by {
                    if q < mid {
                        assert(vpos_before(keys, out@[q] as int, out@[mid as int] as int));
                    }
                }
                lo = mid + 1;
            }
        }
        let ghost before = out@;
        out.insert(lo, i);
        assert forall|k: int, l: int|
            0 <= k < l < out@.len() implies vpos_before(keys, #[trigger] out@[k] as int, #[trigger] out@[l] as int) by {
            if l < lo {
                assert(out@[k] == before[k] && out@[l] == before[l]);
            } else if l == lo {
                assert(out@[k] == before[k]);
            } else if k < lo {
                assert(out@[k] == before[k] && out@[l] == before[l - 1]);
            } else if k == lo {
                assert(out@[l] == before[l - 1]);
            } else {
                assert(out@[k] == before[k - 1] && out@[l] == before[l - 1]);
            }
        }
        assert forall|k: int| 0 <= k < out@.len() implies #[trigger] out@[k] < i + 1 by {
            if k < lo {
                assert(out@[k] == before[k]);
            } else if k > lo {
                assert(out@[k] == before[k - 1]);
            }
        }
        i += 1;
    }
    out
}

// ---------------------------------------------------------------------------
// The colour table
// ---------------------------------------------------------------------------

proof fn lemma_colour_white()
    ensures
        spec_named_color("white"@) == Some(0xFFFFFFu32),
        !is_style_keyword("white"@),
        "white"@.len() > 0,
{
    reveal_strlit("white");
    reveal_strlit("ue");
    reveal_strlit("shita");
    reveal_strlit("naka");
    reveal_strlit("big");
    reveal_strlit("small");
    reveal_strlit("medium");
    reveal_strlit("invisible");
    assert("white"@.len() == 5);
    assert("ue"@.len() == 2);
    assert("shita"@.len() == 5);
    assert("white"@[0] != "shita"@[0]);
    assert("naka"@.len() == 4);
    assert("big"@.len() == 3);
    assert("small"@.len() == 5);
    assert("white"@[0] != "small"@[0]);
    assert("medium"@.len() == 6);
    assert("invisible"@.len() == 9);
}

proof fn lemma_colour_red()
    ensures
        spec_named_color("red"@) == Some(0xFF0000u32),
        !is_style_keyword("red"@),
        "red"@.len() > 0,
{
    reveal_strlit("red");
    reveal_strlit("white");
    reveal_strlit("ue");
    reveal_strlit("shita");
    reveal_strlit("naka");
    reveal_strlit("big");
    reveal_strlit("small");
    reveal_strlit("medium");
    reveal_strlit("invisible");
    assert("red"@.len() == 3);
    assert("white"@.len() == 5);
    assert("ue"@.len() == 2);
    assert("shita"@.len() == 5);
    assert("naka"@.len() == 4);
    assert("big"@.len() == 3);
    assert("red"@[0] != "big"@[0]);
    assert("small"@.len() == 5);
    assert("medium"@.len() == 6);
    assert("invisible"@.len() == 9);
}

proof fn lemma_colour_pink()
    ensures
        spec_named_color("pink"@) == Some(0xFF8080u32),
        !is_style_keyword("pink"@),
        "pink"@.len() > 0,
{
    reveal_strlit("pink");
    reveal_strlit("white");
    reveal_strlit("red");
    reveal_strlit("ue");
    reveal_strlit("shita");
    reveal_strlit("naka");
    reveal_strlit("big");
    reveal_strlit("small");
    reveal_strlit("medium");
    reveal_strlit("invisible");
    assert("pink"@.len() == 4);
    assert("white"@.len() == 5);
    assert("red"@.len() == 3);
    assert("ue"@.len() == 2);
    assert("shita"@.len() == 5);
    assert("naka"@.len() == 4);
    assert("pink"@[0] != "naka"@[0]);
    assert("big"@.len() == 3);
    assert("small"@.len() == 5);
    assert("medium"@.len() == 6);
    assert("invisible"@.len() == 9);
}

proof fn lemma_colour_orange()
    ensures
        spec_named_color("orange"@) == Some(0xFFC000u32),
        !is_style_keyword("orange"@),
        "orange"@.len() > 0,
{
    reveal_strlit("orange");
    reveal_strlit("white");
    reveal_strlit("red");
    reveal_strlit("pink");
    reveal_strlit("ue");
    reveal_strlit("shita");
    reveal_strlit("naka");
    reveal_strlit("big");
    reveal_strlit("small");
    reveal_strlit("medium");
    reveal_strlit("invisible");
    assert("orange"@.len() == 6);
    assert("white"@.len() == 5);
    assert("red"@.len() == 3);
    assert("pink"@.len() == 4);
    assert("ue"@.len() == 2);
    assert("shita"@.len() == 5);
    assert("naka"@.len() == 4);
    assert("big"@.len() == 3);
    assert("small"@.len() == 5);
    assert("medium"@.len() == 6);
    assert("orange"@[0] != "medium"@[0]);
    assert("invisible"@.len() == 9);
}

proof fn lemma_colour_yellow()
    ensures
        spec_named_color("yellow"@) == Some(0xFFFF00u32),
        !is_style_keyword("yellow"@),
        "yellow"@.len() > 0,
{
    reveal_strlit("yellow");
    reveal_strlit("white");
    reveal_strlit("red");
    reveal_strlit("pink");
    reveal_strlit("orange");
    reveal_strlit("ue");
    reveal_strlit("shita");
    reveal_strlit("naka");
    reveal_strlit("big");
    reveal_strlit("small");
    reveal_strlit("medium");
    reveal_strlit("invisible");
    assert("yellow"@.len() == 6);
    assert("white"@.len() == 5);
    assert("red"@.len() == 3);
    assert("pink"@.len() == 4);
    assert("orange"@.len() == 6);
    assert("yellow"@[0] != "orange"@[0]);
    assert("ue"@.len() == 2);
    assert("shita"@.len() == 5);
    assert("naka"@.len() == 4);
    assert("big"@.len() == 3);
    assert("small"@.len() == 5);
    assert("medium"@.len() == 6);
    assert("yellow"@[0] != "medium"@[0]);
    assert("invisible"@.len() == 9);
}

proof fn lemma_colour_green()
    ensures
        spec_named_color("green"@) == Some(0x00FF00u32),
        !is_style_keyword("green"@),
        "green"@.len() > 0,
{
    reveal_strlit("green");
    reveal_strlit("white");
    reveal_strlit("red");
    reveal_strlit("pink");
    reveal_strlit("orange");
    reveal_strlit("yellow");
    reveal_strlit("ue");
    reveal_strlit("shita");
    reveal_strlit("naka");
    reveal_strlit("big");
    reveal_strlit("small");
    reveal_strlit("medium");
    reveal_strlit("invisible");
    assert("green"@.len() == 5);
    assert("white"@.len() == 5);
    assert("green"@[0] != "white"@[0]);
    assert("red"@.len() == 3);
    assert("pink"@.len() == 4);
    assert("orange"@.len() == 6);
    assert("yellow"@.len() == 6);
    assert("ue"@.len() == 2);
    assert("shita"@.len() == 5);
    assert("green"@[0] != "shita"@[0]);
    assert("naka"@.len() == 4);
    assert("big"@.len() == 3);
    assert("small"@.len() == 5);
    assert("green"@[0] != "small"@[0]);
    assert("medium"@.len() == 6);
    assert("invisible"@.len() == 9);
}

proof fn lemma_colour_cyan()
    ensures
        spec_named_color("cyan"@) == Some(0x00FFFFu32),
        !is_style_keyword("cyan"@),
        "cyan"@.len() > 0,
{
    reveal_strlit("cyan");
    reveal_strlit("white");
    reveal_strlit("red");
    reveal_strlit("pink");
    reveal_strlit("orange");
    reveal_strlit("yellow");
    reveal_strlit("green");
    reveal_strlit("ue");
    reveal_strlit("shita");
    reveal_strlit("naka");
    reveal_strlit("big");
    reveal_strlit("small");
    reveal_strlit("medium");
    reveal_strlit("invisible");
    assert("cyan"@.len() == 4);
    assert("white"@.len() == 5);
    assert("red"@.len() == 3);
    assert("pink"@.len() == 4);
    assert("cyan"@[0] != "pink"@[0]);
    assert("orange"@.len() == 6);
    assert("yellow"@.len() == 6);
    assert("green"@.len() == 5);
    assert("ue"@.len() == 2);
    assert("shita"@.len() == 5);
    assert("naka"@.len() == 4);
    assert("cyan"@[0] != "naka"@[0]);
    assert("big"@.len() == 3);
    assert("small"@.len() == 5);
    assert("medium"@.len() == 6);
    assert("invisible"@.len() == 9);
}

proof fn lemma_colour_blue()
    ensures
        spec_named_color("blue"@) == Some(0x0000FFu32),
        !is_style_keyword("blue"@),
        "blue"@.len() > 0,
{
    reveal_strlit("blue");
    reveal_strlit("white");
    reveal_strlit("red");
    reveal_strlit("pink");
    reveal_strlit("orange");
    reveal_strlit("yellow");
    reveal_strlit("green");
    reveal_strlit("cyan");
    reveal_strlit("ue");
    reveal_strlit("shita");
    reveal_strlit("naka");
    reveal_strlit("big");
    reveal_strlit("small");
    reveal_strlit("medium");
    reveal_strlit("invisible");
    assert("blue"@.len() == 4);
    assert("white"@.len() == 5);
    assert("red"@.len() == 3);
    assert("pink"@.len() == 4);
    assert("blue"@[0] != "pink"@[0]);
    assert("orange"@.len() == 6);
    assert("yellow"@.len() == 6);
    assert("green"@.len() == 5);
    assert("cyan"@.len() == 4);
    assert("blue"@[0] != "cyan"@[0]);
    assert("ue"@.len() == 2);
    assert("shita"@.len() == 5);
    assert("naka"@.len() == 4);
    assert("blue"@[0] != "naka"@[0]);
    assert("big"@.len() == 3);
    assert("small"@.len() == 5);
    assert("medium"@.len() == 6);
    assert("invisible"@.len() == 9);
}

proof fn lemma_colour_purple()
    ensures
        spec_named_color("purple"@) == Some(0xC000FFu32),
        !is_style_keyword("purple"@),
        "purple"@.len() > 0,
{
    reveal_strlit("purple");
    reveal_strlit("white");
    reveal_strlit("red");
    reveal_strlit("pink");
    reveal_strlit("orange");
    reveal_strlit("yellow");
    reveal_strlit("green");
    reveal_strlit("cyan");
    reveal_strlit("blue");
    reveal_strlit("ue");
    reveal_strlit("shita");
    reveal_strlit("naka");
    reveal_strlit("big");
    reveal_strlit("small");
    reveal_strlit("medium");
    reveal_strlit("invisible");
    assert("purple"@.len() == 6);
    assert("white"@.len() == 5);
    assert("red"@.len() == 3);
    assert("pink"@.len() == 4);
    assert("orange"@.len() == 6);
    assert("purple"@[0] != "orange"@[0]);
    assert("yellow"@.len() == 6);
    assert("purple"@[0] != "yellow"@[0]);
    assert("green"@.len() == 5);
    assert("cyan"@.len() == 4);
    assert("blue"@.len() == 4);
    assert("ue"@.len() == 2);
    assert("shita"@.len() == 5);
    assert("naka"@.len() == 4);
    assert("big"@.len() == 3);
    assert("small"@.len() == 5);
    assert("medium"@.len() == 6);
    assert("purple"@[0] != "medium"@[0]);
    assert("invisible"@.len() == 9);
}

proof fn lemma_colour_black()
    ensures
        spec_named_color("black"@) == Some(0x000000u32),
        !is_style_keyword("black"@),
        "black"@.len() > 0,
{
    reveal_strlit("black");
    reveal_strlit("white");
    reveal_strlit("red");
    reveal_strlit("pink");
    reveal_strlit("orange");
    reveal_strlit("yellow");
    reveal_strlit("green");
    reveal_strlit("cyan");
    reveal_strlit("blue");
    reveal_strlit("purple");
    reveal_strlit("ue");
    reveal_strlit("shita");
    reveal_strlit("naka");
    reveal_strlit("big");
    reveal_strlit("small");
    reveal_strlit("medium");
    reveal_strlit("invisible");
    assert("black"@.len() == 5);
    assert("white"@.len() == 5);
    assert("black"@[0] != "white"@[0]);
    assert("red"@.len() == 3);
    assert("pink"@.len() == 4);
    assert("orange"@.len() == 6);
    assert("yellow"@.len() == 6);
    assert("green"@.len() == 5);
    assert("black"@[0] != "green"@[0]);
    assert("cyan"@.len() == 4);
    assert("blue"@.len() == 4);
    assert("purple"@.len() == 6);
    assert("ue"@.len() == 2);
    assert("shita"@.len() == 5);
    assert("black"@[0] != "shita"@[0]);
    assert("naka"@.len() == 4);
    assert("big"@.len() == 3);
    assert("small"@.len() == 5);
    assert("black"@[0] != "small"@[0]);
    assert("medium"@.len() == 6);
    assert("invisible"@.len() == 9);
}

proof fn lemma_colour_white2()
    ensures
        spec_named_color("white2"@) == Some(0xCCCC99u32),
        !is_style_keyword("white2"@),
        "white2"@.len() > 0,
{
    reveal_strlit("white2");
    reveal_strlit("white");
    reveal_strlit("red");
    reveal_strlit("pink");
    reveal_strlit("orange");
    reveal_strlit("yellow");
    reveal_strlit("green");
    reveal_strlit("cyan");
    reveal_strlit("blue");
    reveal_strlit("purple");
    reveal_strlit("black");
    reveal_strlit("ue");
    reveal_strlit("shita");
    reveal_strlit("naka");
    reveal_strlit("big");
    reveal_strlit("small");
    reveal_strlit("medium");
    reveal_strlit("invisible");
    assert("white2"@.len() == 6);
    assert("white"@.len() == 5);
    assert("red"@.len() == 3);
    assert("pink"@.len() == 4);
    assert("orange"@.len() == 6);
    assert("white2"@[0] != "orange"@[0]);
    assert("yellow"@.len() == 6);
    assert("white2"@[0] != "yellow"@[0]);
    assert("green"@.len() == 5);
    assert("cyan"@.len() == 4);
    assert("blue"@.len() == 4);
    assert("purple"@.len() == 6);
    assert("white2"@[0] != "purple"@[0]);
    assert("black"@.len() == 5);
    assert("ue"@.len() == 2);
    assert("shita"@.len() == 5);
    assert("naka"@.len() == 4);
    assert("big"@.len() == 3);
    assert("small"@.len() == 5);
    assert("medium"@.len() == 6);
    assert("white2"@[0] != "medium"@[0]);
    assert("invisible"@.len() == 9);
}

proof fn lemma_colour_niconicowhite()
    ensures
        spec_named_color("niconicowhite"@) == Some(0xCCCC99u32),
        !is_style_keyword("niconicowhite"@),
        "niconicowhite"@.len() > 0,
{
    reveal_strlit("niconicowhite");
    reveal_strlit("white");
    reveal_strlit("red");
    reveal_strlit("pink");
    reveal_strlit("orange");
    reveal_strlit("yellow");
    reveal_strlit("green");
    reveal_strlit("cyan");
    reveal_strlit("blue");
    reveal_strlit("purple");
    reveal_strlit("black");
    reveal_strlit("white2");
    reveal_strlit("ue");
    reveal_strlit("shita");
    reveal_strlit("naka");
    reveal_strlit("big");
    reveal_strlit("small");
    reveal_strlit("medium");
    reveal_strlit("invisible");
    assert("niconicowhite"@.len() == 13);
    assert("white"@.len() == 5);
    assert("red"@.len() == 3);
    assert("pink"@.len() == 4);
    assert("orange"@.len() == 6);
    assert("yellow"@.len() == 6);
    assert("green"@.len() == 5);
    assert("cyan"@.len() == 4);
    assert("blue"@.len() == 4);
    assert("purple"@.len() == 6);
    assert("black"@.len() == 5);
    assert("white2"@.len() == 6);
    assert("ue"@.len() == 2);
    assert("shita"@.len() == 5);
    assert("naka"@.len() == 4);
    assert("big"@.len() == 3);
    assert("small"@.len() == 5);
    assert("medium"@.len() == 6);
    assert("invisible"@.len() == 9);
}

proof fn lemma_colour_red2()
    ensures
        spec_named_color("red2"@) == Some(0xCC0033u32),
        !is_style_keyword("red2"@),
        "red2"@.len() > 0,
{
    reveal_strlit("red2");
    reveal_strlit("white");
    reveal_strlit("red");
    reveal_strlit("pink");
    reveal_strlit("orange");
    reveal_strlit("yellow");
    reveal_strlit("green");
    reveal_strlit("cyan");
    reveal_strlit("blue");
    reveal_strlit("purple");
    reveal_strlit("black");
    reveal_strlit("white2");
    reveal_strlit("niconicowhite");
    reveal_strlit("ue");
    reveal_strlit("shita");
    reveal_strlit("naka");
    reveal_strlit("big");
    reveal_strlit("small");
    reveal_strlit("medium");
    reveal_strlit("invisible");
    assert("red2"@.len() == 4);
    assert("white"@.len() == 5);
    assert("red"@.len() == 3);
    assert("pink"@.len() == 4);
    assert("red2"@[0] != "pink"@[0]);
    assert("orange"@.len() == 6);
    assert("yellow"@.len() == 6);
    assert("green"@.len() == 5);
    assert("cyan"@.len() == 4);
    assert("red2"@[0] != "cyan"@[0]);
    assert("blue"@.len() == 4);
    assert("red2"@[0] != "blue"@[0]);
    assert("purple"@.len() == 6);
    assert("black"@.len() == 5);
    assert("white2"@.len() == 6);
    assert("niconicowhite"@.len() == 13);
    assert("ue"@.len() == 2);
    assert("shita"@.len() == 5);
    assert("naka"@.len() == 4);
    assert("red2"@[0] != "naka"@[0]);
    assert("big"@.len() == 3);
    assert("small"@.len() == 5);
    assert("medium"@.len() == 6);
    assert("invisible"@.len() == 9);
}

proof fn lemma_colour_truered()
    ensures
        spec_named_color("truered"@) == Some(0xCC0033u32),
        !is_style_keyword("truered"@),
        "truered"@.len() > 0,
{
    reveal_strlit("truered");
    reveal_strlit("white");
    reveal_strlit("red");
    reveal_strlit("pink");
    reveal_strlit("orange");
    reveal_strlit("yellow");
    reveal_strlit("green");
    reveal_strlit("cyan");
    reveal_strlit("blue");
    reveal_strlit("purple");
    reveal_strlit("black");
    reveal_strlit("white2");
    reveal_strlit("niconicowhite");
    reveal_strlit("red2");
    reveal_strlit("ue");
    reveal_strlit("shita");
    reveal_strlit("naka");
    reveal_strlit("big");
    reveal_strlit("small");
    reveal_strlit("medium");
    reveal_strlit("invisible");
    assert("truered"@.len() == 7);
    assert("white"@.len() == 5);
    assert("red"@.len() == 3);
    assert("pink"@.len() == 4);
    assert("orange"@.len() == 6);
    assert("yellow"@.len() == 6);
    assert("green"@.len() == 5);
    assert("cyan"@.len() == 4);
    assert("blue"@.len() == 4);
    assert("purple"@.len() == 6);
    assert("black"@.len() == 5);
    assert("white2"@.len() == 6);
    assert("niconicowhite"@.len() == 13);
    assert("red2"@.len() == 4);
    assert("ue"@.len() == 2);
    assert("shita"@.len() == 5);
    assert("naka"@.len() == 4);
    assert("big"@.len() == 3);
    assert("small"@.len() == 5);
    assert("medium"@.len() == 6);
    assert("invisible"@.len() == 9);
}

proof fn lemma_colour_pink2()
    ensures
        spec_named_color("pink2"@) == Some(0xFF33CCu32),
        !is_style_keyword("pink2"@),
        "pink2"@.len() > 0,
{
    reveal_strlit("pink2");
    reveal_strlit("white");
    reveal_strlit("red");
    reveal_strlit("pink");
    reveal_strlit("orange");
    reveal_strlit("yellow");
    reveal_strlit("green");
    reveal_strlit("cyan");
    reveal_strlit("blue");
    reveal_strlit("purple");
    reveal_strlit("black");
    reveal_strlit("white2");
    reveal_strlit("niconicowhite");
    reveal_strlit("red2");
    reveal_strlit("truered");
    reveal_strlit("ue");
    reveal_strlit("shita");
    reveal_strlit("naka");
    reveal_strlit("big");
    reveal_strlit("small");
    reveal_strlit("medium");
    reveal_strlit("invisible");
    assert("pink2"@.len() == 5);
    assert("white"@.len() == 5);
    assert("pink2"@[0] != "white"@[0]);
    assert("red"@.len() == 3);
    assert("pink"@.len() == 4);
    assert("orange"@.len() == 6);
    assert("yellow"@.len() == 6);
    assert("green"@.len() == 5);
    assert("pink2"@[0] != "green"@[0]);
    assert("cyan"@.len() == 4);
    assert("blue"@.len() == 4);
    assert("purple"@.len() == 6);
    assert("black"@.len() == 5);
    assert("pink2"@[0] != "black"@[0]);
    assert("white2"@.len() == 6);
    assert("niconicowhite"@.len() == 13);
    assert("red2"@.len() == 4);
    assert("truered"@.len() == 7);
    assert("ue"@.len() == 2);
    assert("shita"@.len() == 5);
    assert("pink2"@[0] != "shita"@[0]);
    assert("naka"@.len() == 4);
    assert("big"@.len() == 3);
    assert("small"@.len() == 5);
    assert("pink2"@[0] != "small"@[0]);
    assert("medium"@.len() == 6);
    assert("invisible"@.len() == 9);
}

proof fn lemma_colour_orange2()
    ensures
        spec_named_color("orange2"@) == Some(0xFF6600u32),
        !is_style_keyword("orange2"@),
        "orange2"@.len() > 0,
{
    reveal_strlit("orange2");
    reveal_strlit("white");
    reveal_strlit("red");
    reveal_strlit("pink");
    reveal_strlit("orange");
    reveal_strlit("yellow");
    reveal_strlit("green");
    reveal_strlit("cyan");
    reveal_strlit("blue");
    reveal_strlit("purple");
    reveal_strlit("black");
    reveal_strlit("white2");
    reveal_strlit("niconicowhite");
    reveal_strlit("red2");
    reveal_strlit("truered");
    reveal_strlit("pink2");
    reveal_strlit("ue");
    reveal_strlit("shita");
    reveal_strlit("naka");
    reveal_strlit("big");
    reveal_strlit("small");
    reveal_strlit("medium");
    reveal_strlit("invisible");
    assert("orange2"@.len() == 7);
    assert("white"@.len() == 5);
    assert("red"@.len() == 3);
    assert("pink"@.len() == 4);
    assert("orange"@.len() == 6);
    assert("yellow"@.len() == 6);
    assert("green"@.len() == 5);
    assert("cyan"@.len() == 4);
    assert("blue"@.len() == 4);
    assert("purple"@.len() == 6);
    assert("black"@.len() == 5);
    assert("white2"@.len() == 6);
    assert("niconicowhite"@.len() == 13);
    assert("red2"@.len() == 4);
    assert("truered"@.len() == 7);
    assert("orange2"@[0] != "truered"@[0]);
    assert("pink2"@.len() == 5);
    assert("ue"@.len() == 2);
    assert("shita"@.len() == 5);
    assert("naka"@.len() == 4);
    assert("big"@.len() == 3);
    assert("small"@.len() == 5);
    assert("medium"@.len() == 6);
    assert("invisible"@.len() == 9);
}

proof fn lemma_colour_passionorange()
    ensures
        spec_named_color("passionorange"@) == Some(0xFF6600u32),
        !is_style_keyword("passionorange"@),
        "passionorange"@.len() > 0,
{
    reveal_strlit("passionorange");
    reveal_strlit("white");
    reveal_strlit("red");
    reveal_strlit("pink");
    reveal_strlit("orange");
    reveal_strlit("yellow");
    reveal_strlit("green");
    reveal_strlit("cyan");
    reveal_strlit("blue");
    reveal_strlit("purple");
    reveal_strlit("black");
    reveal_strlit("white2");
    reveal_strlit("niconicowhite");
    reveal_strlit("red2");
    reveal_strlit("truered");
    reveal_strlit("pink2");
    reveal_strlit("orange2");
    reveal_strlit("ue");
    reveal_strlit("shita");
    reveal_strlit("naka");
    reveal_strlit("big");
    reveal_strlit("small");
    reveal_strlit("medium");
    reveal_strlit("invisible");
    assert("passionorange"@.len() == 13);
    assert("white"@.len() == 5);
    assert("red"@.len() == 3);
    assert("pink"@.len() == 4);
    assert("orange"@.len() == 6);
    assert("yellow"@.len() == 6);
    assert("green"@.len() == 5);
    assert("cyan"@.len() == 4);
    assert("blue"@.len() == 4);
    assert("purple"@.len() == 6);
    assert("black"@.len() == 5);
    assert("white2"@.len() == 6);
    assert("niconicowhite"@.len() == 13);
    assert("passionorange"@[0] != "niconicowhite"@[0]);
    assert("red2"@.len() == 4);
    assert("truered"@.len() == 7);
    assert("pink2"@.len() == 5);
    assert("orange2"@.len() == 7);
    assert("ue"@.len() == 2);
    assert("shita"@.len() == 5);
    assert("naka"@.len() == 4);
    assert("big"@.len() == 3);
    assert("small"@.len() == 5);
    assert("medium"@.len() == 6);
    assert("invisible"@.len() == 9);
}

proof fn lemma_colour_yellow2()
    ensures
        spec_named_color("yellow2"@) == Some(0x999900u32),
        !is_style_keyword("yellow2"@),
        "yellow2"@.len() > 0,
{
    reveal_strlit("yellow2");
    reveal_strlit("white");
    reveal_strlit("red");
    reveal_strlit("pink");
    reveal_strlit("orange");
    reveal_strlit("yellow");
    reveal_strlit("green");
    reveal_strlit("cyan");
    reveal_strlit("blue");
    reveal_strlit("purple");
    reveal_strlit("black");
    reveal_strlit("white2");
    reveal_strlit("niconicowhite");
    reveal_strlit("red2");
    reveal_strlit("truered");
    reveal_strlit("pink2");
    reveal_strlit("orange2");
    reveal_strlit("passionorange");
    reveal_strlit("ue");
    reveal_strlit("shita");
    reveal_strlit("naka");
    reveal_strlit("big");
    reveal_strlit("small");
    reveal_strlit("medium");
    reveal_strlit("invisible");
    assert("yellow2"@.len() == 7);
    assert("white"@.len() == 5);
    assert("red"@.len() == 3);
    assert("pink"@.len() == 4);
    assert("orange"@.len() == 6);
    assert("yellow"@.len() == 6);
    assert("green"@.len() == 5);
    assert("cyan"@.len() == 4);
    assert("blue"@.len() == 4);
    assert("purple"@.len() == 6);
    assert("black"@.len() == 5);
    assert("white2"@.len() == 6);
    assert("niconicowhite"@.len() == 13);
    assert("red2"@.len() == 4);
    assert("truered"@.len() == 7);
    assert("yellow2"@[0] != "truered"@[0]);
    assert("pink2"@.len() == 5);
    assert("orange2"@.len() == 7);
    assert("yellow2"@[0] != "orange2"@[0]);
    assert("passionorange"@.len() == 13);
    assert("ue"@.len() == 2);
    assert("shita"@.len() == 5);
    assert("naka"@.len() == 4);
    assert("big"@.len() == 3);
    assert("small"@.len() == 5);
    assert("medium"@.len() == 6);
    assert("invisible"@.len() == 9);
}

proof fn lemma_colour_madyellow()
    ensures
        spec_named_color("madyellow"@) == Some(0x999900u32),
        !is_style_keyword("madyellow"@),
        "madyellow"@.len() > 0,
{
    reveal_strlit("madyellow");
    reveal_strlit("white");
    reveal_strlit("red");
    reveal_strlit("pink");
    reveal_strlit("orange");
    reveal_strlit("yellow");
    reveal_strlit("green");
    reveal_strlit("cyan");
    reveal_strlit("blue");
    reveal_strlit("purple");
    reveal_strlit("black");
    reveal_strlit("white2");
    reveal_strlit("niconicowhite");
    reveal_strlit("red2");
    reveal_strlit("truered");
    reveal_strlit("pink2");
    reveal_strlit("orange2");
    reveal_strlit("passionorange");
    reveal_strlit("yellow2");
    reveal_strlit("ue");
    reveal_strlit("shita");
    reveal_strlit("naka");
    reveal_strlit("big");
    reveal_strlit("small");
    reveal_strlit("medium");
    reveal_strlit("invisible");
    assert("madyellow"@.len() == 9);
    assert("white"@.len() == 5);
    assert("red"@.len() == 3);
    assert("pink"@.len() == 4);
    assert("orange"@.len() == 6);
    assert("yellow"@.len() == 6);
    assert("green"@.len() == 5);
    assert("cyan"@.len() == 4);
    assert("blue"@.len() == 4);
    assert("purple"@.len() == 6);
    assert("black"@.len() == 5);
    assert("white2"@.len() == 6);
    assert("niconicowhite"@.len() == 13);
    assert("red2"@.len() == 4);
    assert("truered"@.len() == 7);
    assert("pink2"@.len() == 5);
    assert("orange2"@.len() == 7);
    assert("passionorange"@.len() == 13);
    assert("yellow2"@.len() == 7);
    assert("ue"@.len() == 2);
    assert("shita"@.len() == 5);
    assert("naka"@.len() == 4);
    assert("big"@.len() == 3);
    assert("small"@.len() == 5);
    assert("medium"@.len() == 6);
    assert("invisible"@.len() == 9);
    assert("madyellow"@[0] != "invisible"@[0]);
}

proof fn lemma_colour_green2()
    ensures
        spec_named_color("green2"@) == Some(0x00CC66u32),
        !is_style_keyword("green2"@),
        "green2"@.len() > 0,
{
    reveal_strlit("green2");
    reveal_strlit("white");
    reveal_strlit("red");
    reveal_strlit("pink");
    reveal_strlit("orange");
    reveal_strlit("yellow");
    reveal_strlit("green");
    reveal_strlit("cyan");
    reveal_strlit("blue");
    reveal_strlit("purple");
    reveal_strlit("black");
    reveal_strlit("white2");
    reveal_strlit("niconicowhite");
    reveal_strlit("red2");
    reveal_strlit("truered");
    reveal_strlit("pink2");
    reveal_strlit("orange2");
    reveal_strlit("passionorange");
    reveal_strlit("yellow2");
    reveal_strlit("madyellow");
    reveal_strlit("ue");
    reveal_strlit("shita");
    reveal_strlit("naka");
    reveal_strlit("big");
    reveal_strlit("small");
    reveal_strlit("medium");
    reveal_strlit("invisible");
    assert("green2"@.len() == 6);
    assert("white"@.len() == 5);
    assert("red"@.len() == 3);
    assert("pink"@.len() == 4);
    assert("orange"@.len() == 6);
    assert("green2"@[0] != "orange"@[0]);
    assert("yellow"@.len() == 6);
    assert("green2"@[0] != "yellow"@[0]);
    assert("green"@.len() == 5);
    assert("cyan"@.len() == 4);
    assert("blue"@.len() == 4);
    assert("purple"@.len() == 6);
    assert("green2"@[0] != "purple"@[0]);
    assert("black"@.len() == 5);
    assert("white2"@.len() == 6);
    assert("green2"@[0] != "white2"@[0]);
    assert("niconicowhite"@.len() == 13);
    assert("red2"@.len() == 4);
    assert("truered"@.len() == 7);
    assert("pink2"@.len() == 5);
    assert("orange2"@.len() == 7);
    assert("passionorange"@.len() == 13);
    assert("yellow2"@.len() == 7);
    assert("madyellow"@.len() == 9);
    assert("ue"@.len() == 2);
    assert("shita"@.len() == 5);
    assert("naka"@.len() == 4);
    assert("big"@.len() == 3);
    assert("small"@.len() == 5);
    assert("medium"@.len() == 6);
    assert("green2"@[0] != "medium"@[0]);
    assert("invisible"@.len() == 9);
}

proof fn lemma_colour_elementalgreen()
    ensures
        spec_named_color("elementalgreen"@) == Some(0x00CC66u32),
        !is_style_keyword("elementalgreen"@),
        "elementalgreen"@.len() > 0,
{
    reveal_strlit("elementalgreen");
    reveal_strlit("white");
    reveal_strlit("red");
    reveal_strlit("pink");
    reveal_strlit("orange");
    reveal_strlit("yellow");
    reveal_strlit("green");
    reveal_strlit("cyan");
    reveal_strlit("blue");
    reveal_strlit("purple");
    reveal_strlit("black");
    reveal_strlit("white2");
    reveal_strlit("niconicowhite");
    reveal_strlit("red2");
    reveal_strlit("truered");
    reveal_strlit("pink2");
    reveal_strlit("orange2");
    reveal_strlit("passionorange");
    reveal_strlit("yellow2");
    reveal_strlit("madyellow");
    reveal_strlit("green2");
    reveal_strlit("ue");
    reveal_strlit("shita");
    reveal_strlit("naka");
    reveal_strlit("big");
    reveal_strlit("small");
    reveal_strlit("medium");
    reveal_strlit("invisible");
    assert("elementalgreen"@.len() == 14);
    assert("white"@.len() == 5);
    assert("red"@.len() == 3);
    assert("pink"@.len() == 4);
    assert("orange"@.len() == 6);
    assert("yellow"@.len() == 6);
    assert("green"@.len() == 5);
    assert("cyan"@.len() == 4);
    assert("blue"@.len() == 4);
    assert("purple"@.len() == 6);
    assert("black"@.len() == 5);
    assert("white2"@.len() == 6);
    assert("niconicowhite"@.len() == 13);
    assert("red2"@.len() == 4);
    assert("truered"@.len() == 7);
    assert("pink2"@.len() == 5);
    assert("orange2"@.len() == 7);
    assert("passionorange"@.len() == 13);
    assert("yellow2"@.len() == 7);
    assert("madyellow"@.len() == 9);
    assert("green2"@.len() == 6);
    assert("ue"@.len() == 2);
    assert("shita"@.len() == 5);
    assert("naka"@.len() == 4);
    assert("big"@.len() == 3);
    assert("small"@.len() == 5);
    assert("medium"@.len() == 6);
    assert("invisible"@.len() == 9);
}

proof fn lemma_colour_cyan2()
    ensures
        spec_named_color("cyan2"@) == Some(0x00CCCCu32),
        !is_style_keyword("cyan2"@),
        "cyan2"@.len() > 0,
{
    reveal_strlit("cyan2");
    reveal_strlit("white");
    reveal_strlit("red");
    reveal_strlit("pink");
    reveal_strlit("orange");
    reveal_strlit("yellow");
    reveal_strlit("green");
    reveal_strlit("cyan");
    reveal_strlit("blue");
    reveal_strlit("purple");
    reveal_strlit("black");
    reveal_strlit("white2");
    reveal_strlit("niconicowhite");
    reveal_strlit("red2");
    reveal_strlit("truered");
    reveal_strlit("pink2");
    reveal_strlit("orange2");
    reveal_strlit("passionorange");
    reveal_strlit("yellow2");
    reveal_strlit("madyellow");
    reveal_strlit("green2");
    reveal_strlit("elementalgreen");
    reveal_strlit("ue");
    reveal_strlit("shita");
    reveal_strlit("naka");
    reveal_strlit("big");
    reveal_strlit("small");
    reveal_strlit("medium");
    reveal_strlit("invisible");
    assert("cyan2"@.len() == 5);
    assert("white"@.len() == 5);
    assert("cyan2"@[0] != "white"@[0]);
    assert("red"@.len() == 3);
    assert("pink"@.len() == 4);
    assert("orange"@.len() == 6);
    assert("yellow"@.len() == 6);
    assert("green"@.len() == 5);
    assert("cyan2"@[0] != "green"@[0]);
    assert("cyan"@.len() == 4);
    assert("blue"@.len() == 4);
    assert("purple"@.len() == 6);
    assert("black"@.len() == 5);
    assert("cyan2"@[0] != "black"@[0]);
    assert("white2"@.len() == 6);
    assert("niconicowhite"@.len() == 13);
    assert("red2"@.len() == 4);
    assert("truered"@.len() == 7);
    assert("pink2"@.len() == 5);
    assert("cyan2"@[0] != "pink2"@[0]);
    assert("orange2"@.len() == 7);
    assert("passionorange"@.len() == 13);
    assert("yellow2"@.len() == 7);
    assert("madyellow"@.len() == 9);
    assert("green2"@.len() == 6);
    assert("elementalgreen"@.len() == 14);
    assert("ue"@.len() == 2);
    assert("shita"@.len() == 5);
    assert("cyan2"@[0] != "shita"@[0]);
    assert("naka"@.len() == 4);
    assert("big"@.len() == 3);
    assert("small"@.len() == 5);
    assert("cyan2"@[0] != "small"@[0]);
    assert("medium"@.len() == 6);
    assert("invisible"@.len() == 9);
}

proof fn lemma_colour_blue2()
    ensures
        spec_named_color("blue2"@) == Some(0x3399FFu32),
        !is_style_keyword("blue2"@),
        "blue2"@.len() > 0,
{
    reveal_strlit("blue2");
    reveal_strlit("white");
    reveal_strlit("red");
    reveal_strlit("pink");
    reveal_strlit("orange");
    reveal_strlit("yellow");
    reveal_strlit("green");
    reveal_strlit("cyan");
    reveal_strlit("blue");
    reveal_strlit("purple");
    reveal_strlit("black");
    reveal_strlit("white2");
    reveal_strlit("niconicowhite");
    reveal_strlit("red2");
    reveal_strlit("truered");
    reveal_strlit("pink2");
    reveal_strlit("orange2");
    reveal_strlit("passionorange");
    reveal_strlit("yellow2");
    reveal_strlit("madyellow");
    reveal_strlit("green2");
    reveal_strlit("elementalgreen");
    reveal_strlit("cyan2");
    reveal_strlit("ue");
    reveal_strlit("shita");
    reveal_strlit("naka");
    reveal_strlit("big");
    reveal_strlit("small");
    reveal_strlit("medium");
    reveal_strlit("invisible");
    assert("blue2"@.len() == 5);
    assert("white"@.len() == 5);
    assert("blue2"@[0] != "white"@[0]);
    assert("red"@.len() == 3);
    assert("pink"@.len() == 4);
    assert("orange"@.len() == 6);
    assert("yellow"@.len() == 6);
    assert("green"@.len() == 5);
    assert("blue2"@[0] != "green"@[0]);
    assert("cyan"@.len() == 4);
    assert("blue"@.len() == 4);
    assert("purple"@.len() == 6);
    assert("black"@.len() == 5);
    assert("blue2"@[2] != "black"@[2]);
    assert("white2"@.len() == 6);
    assert("niconicowhite"@.len() == 13);
    assert("red2"@.len() == 4);
    assert("truered"@.len() == 7);
    assert("pink2"@.len() == 5);
    assert("blue2"@[0] != "pink2"@[0]);
    assert("orange2"@.len() == 7);
    assert("passionorange"@.len() == 13);
    assert("yellow2"@.len() == 7);
    assert("madyellow"@.len() == 9);
    assert("green2"@.len() == 6);
    assert("elementalgreen"@.len() == 14);
    assert("cyan2"@.len() == 5);
    assert("blue2"@[0] != "cyan2"@[0]);
    assert("ue"@.len() == 2);
    assert("shita"@.len() == 5);
    assert("blue2"@[0] != "shita"@[0]);
    assert("naka"@.len() == 4);
    assert("big"@.len() == 3);
    assert("small"@.len() == 5);
    assert("blue2"@[0] != "small"@[0]);
    assert("medium"@.len() == 6);
    assert("invisible"@.len() == 9);
}

proof fn lemma_colour_marineblue()
    ensures
        spec_named_color("marineblue"@) == Some(0x3399FFu32),
        !is_style_keyword("marineblue"@),
        "marineblue"@.len() > 0,
{
    reveal_strlit("marineblue");
    reveal_strlit("white");
    reveal_strlit("red");
    reveal_strlit("pink");
    reveal_strlit("orange");
    reveal_strlit("yellow");
    reveal_strlit("green");
    reveal_strlit("cyan");
    reveal_strlit("blue");
    reveal_strlit("purple");
    reveal_strlit("black");
    reveal_strlit("white2");
    reveal_strlit("niconicowhite");
    reveal_strlit("red2");
    reveal_strlit("truered");
    reveal_strlit("pink2");
    reveal_strlit("orange2");
    reveal_strlit("passionorange");
    reveal_strlit("yellow2");
    reveal_strlit("madyellow");
    reveal_strlit("green2");
    reveal_strlit("elementalgreen");
    reveal_strlit("cyan2");
    reveal_strlit("blue2");
    reveal_strlit("ue");
    reveal_strlit("shita");
    reveal_strlit("naka");
    reveal_strlit("big");
    reveal_strlit("small");
    reveal_strlit("medium");
    reveal_strlit("invisible");
    assert("marineblue"@.len() == 10);
    assert("white"@.len() == 5);
    assert("red"@.len() == 3);
    assert("pink"@.len() == 4);
    assert("orange"@.len() == 6);
    assert("yellow"@.len() == 6);
    assert("green"@.len() == 5);
    assert("cyan"@.len() == 4);
    assert("blue"@.len() == 4);
    assert("purple"@.len() == 6);
    assert("black"@.len() == 5);
    assert("white2"@.len() == 6);
    assert("niconicowhite"@.len() == 13);
    assert("red2"@.len() == 4);
    assert("truered"@.len() == 7);
    assert("pink2"@.len() == 5);
    assert("orange2"@.len() == 7);
    assert("passionorange"@.len() == 13);
    assert("yellow2"@.len() == 7);
    assert("madyellow"@.len() == 9);
    assert("green2"@.len() == 6);
    assert("elementalgreen"@.len() == 14);
    assert("cyan2"@.len() == 5);
    assert("blue2"@.len() == 5);
    assert("ue"@.len() == 2);
    assert("shita"@.len() == 5);
    assert("naka"@.len() == 4);
    assert("big"@.len() == 3);
    assert("small"@.len() == 5);
    assert("medium"@.len() == 6);
    assert("invisible"@.len() == 9);
}

proof fn lemma_colour_purple2()
    ensures
        spec_named_color("purple2"@) == Some(0x6633CCu32),
        !is_style_keyword("purple2"@),
        "purple2"@.len() > 0,
{
    reveal_strlit("purple2");
    reveal_strlit("white");
    reveal_strlit("red");
    reveal_strlit("pink");
    reveal_strlit("orange");
    reveal_strlit("yellow");
    reveal_strlit("green");
    reveal_strlit("cyan");
    reveal_strlit("blue");
    reveal_strlit("purple");
    reveal_strlit("black");
    reveal_strlit("white2");
    reveal_strlit("niconicowhite");
    reveal_strlit("red2");
    reveal_strlit("truered");
    reveal_strlit("pink2");
    reveal_strlit("orange2");
    reveal_strlit("passionorange");
    reveal_strlit("yellow2");
    reveal_strlit("madyellow");
    reveal_strlit("green2");
    reveal_strlit("elementalgreen");
    reveal_strlit("cyan2");
    reveal_strlit("blue2");
    reveal_strlit("marineblue");
    reveal_strlit("ue");
    reveal_strlit("shita");
    reveal_strlit("naka");
    reveal_strlit("big");
    reveal_strlit("small");
    reveal_strlit("medium");
    reveal_strlit("invisible");
    assert("purple2"@.len() == 7);
    assert("white"@.len() == 5);
    assert("red"@.len() == 3);
    assert("pink"@.len() == 4);
    assert("orange"@.len() == 6);
    assert("yellow"@.len() == 6);
    assert("green"@.len() == 5);
    assert("cyan"@.len() == 4);
    assert("blue"@.len() == 4);
    assert("purple"@.len() == 6);
    assert("black"@.len() == 5);
    assert("white2"@.len() == 6);
    assert("niconicowhite"@.len() == 13);
    assert("red2"@.len() == 4);
    assert("truered"@.len() == 7);
    assert("purple2"@[0] != "truered"@[0]);
    assert("pink2"@.len() == 5);
    assert("orange2"@.len() == 7);
    assert("purple2"@[0] != "orange2"@[0]);
    assert("passionorange"@.len() == 13);
    assert("yellow2"@.len() == 7);
    assert("purple2"@[0] != "yellow2"@[0]);
    assert("madyellow"@.len() == 9);
    assert("green2"@.len() == 6);
    assert("elementalgreen"@.len() == 14);
    assert("cyan2"@.len() == 5);
    assert("blue2"@.len() == 5);
    assert("marineblue"@.len() == 10);
    assert("ue"@.len() == 2);
    assert("shita"@.len() == 5);
    assert("naka"@.len() == 4);
    assert("big"@.len() == 3);
    assert("small"@.len() == 5);
    assert("medium"@.len() == 6);
    assert("invisible"@.len() == 9);
}

proof fn lemma_colour_nobleviolet()
    ensures
        spec_named_color("nobleviolet"@) == Some(0x6633CCu32),
        !is_style_keyword("nobleviolet"@),
        "nobleviolet"@.len() > 0,
{
    reveal_strlit("nobleviolet");
    reveal_strlit("white");
    reveal_strlit("red");
    reveal_strlit("pink");
    reveal_strlit("orange");
    reveal_strlit("yellow");
    reveal_strlit("green");
    reveal_strlit("cyan");
    reveal_strlit("blue");
    reveal_strlit("purple");
    reveal_strlit("black");
    reveal_strlit("white2");
    reveal_strlit("niconicowhite");
    reveal_strlit("red2");
    reveal_strlit("truered");
    reveal_strlit("pink2");
    reveal_strlit("orange2");
    reveal_strlit("passionorange");
    reveal_strlit("yellow2");
    reveal_strlit("madyellow");
    reveal_strlit("green2");
    reveal_strlit("elementalgreen");
    reveal_strlit("cyan2");
    reveal_strlit("blue2");
    reveal_strlit("marineblue");
    reveal_strlit("purple2");
    reveal_strlit("ue");
    reveal_strlit("shita");
    reveal_strlit("naka");
    reveal_strlit("big");
    reveal_strlit("small");
    reveal_strlit("medium");
    reveal_strlit("invisible");
    assert("nobleviolet"@.len() == 11);
    assert("white"@.len() == 5);
    assert("red"@.len() == 3);
    assert("pink"@.len() == 4);
    assert("orange"@.len() == 6);
    assert("yellow"@.len() == 6);
    assert("green"@.len() == 5);
    assert("cyan"@.len() == 4);
    assert("blue"@.len() == 4);
    assert("purple"@.len() == 6);
    assert("black"@.len() == 5);
    assert("white2"@.len() == 6);
    assert("niconicowhite"@.len() == 13);
    assert("red2"@.len() == 4);
    assert("truered"@.len() == 7);
    assert("pink2"@.len() == 5);
    assert("orange2"@.len() == 7);
    assert("passionorange"@.len() == 13);
    assert("yellow2"@.len() == 7);
    assert("madyellow"@.len() == 9);
    assert("green2"@.len() == 6);
    assert("elementalgreen"@.len() == 14);
    assert("cyan2"@.len() == 5);
    assert("blue2"@.len() == 5);
    assert("marineblue"@.len() == 10);
    assert("purple2"@.len() == 7);
    assert("ue"@.len() == 2);
    assert("shita"@.len() == 5);
    assert("naka"@.len() == 4);
    assert("big"@.len() == 3);
    assert("small"@.len() == 5);
    assert("medium"@.len() == 6);
    assert("invisible"@.len() == 9);
}

proof fn lemma_colour_black2()
    ensures
        spec_named_color("black2"@) == Some(0x666666u32),
        !is_style_keyword("black2"@),
        "black2"@.len() > 0,
{
    reveal_strlit("black2");
    reveal_strlit("white");
    reveal_strlit("red");
    reveal_strlit("pink");
    reveal_strlit("orange");
    reveal_strlit("yellow");
    reveal_strlit("green");
    reveal_strlit("cyan");
    reveal_strlit("blue");
    reveal_strlit("purple");
    reveal_strlit("black");
    reveal_strlit("white2");
    reveal_strlit("niconicowhite");
    reveal_strlit("red2");
    reveal_strlit("truered");
    reveal_strlit("pink2");
    reveal_strlit("orange2");
    reveal_strlit("passionorange");
    reveal_strlit("yellow2");
    reveal_strlit("madyellow");
    reveal_strlit("green2");
    reveal_strlit("elementalgreen");
    reveal_strlit("cyan2");
    reveal_strlit("blue2");
    reveal_strlit("marineblue");
    reveal_strlit("purple2");
    reveal_strlit("nobleviolet");
    reveal_strlit("ue");
    reveal_strlit("shita");
    reveal_strlit("naka");
    reveal_strlit("big");
    reveal_strlit("small");
    reveal_strlit("medium");
    reveal_strlit("invisible");
    assert("black2"@.len() == 6);
    assert("white"@.len() == 5);
    assert("red"@.len() == 3);
    assert("pink"@.len() == 4);
    assert("orange"@.len() == 6);
    assert("black2"@[0] != "orange"@[0]);
    assert("yellow"@.len() == 6);
    assert("black2"@[0] != "yellow"@[0]);
    assert("green"@.len() == 5);
    assert("cyan"@.len() == 4);
    assert("blue"@.len() == 4);
    assert("purple"@.len() == 6);
    assert("black2"@[0] != "purple"@[0]);
    assert("black"@.len() == 5);
    assert("white2"@.len() == 6);
    assert("black2"@[0] != "white2"@[0]);
    assert("niconicowhite"@.len() == 13);
    assert("red2"@.len() == 4);
    assert("truered"@.len() == 7);
    assert("pink2"@.len() == 5);
    assert("orange2"@.len() == 7);
    assert("passionorange"@.len() == 13);
    assert("yellow2"@.len() == 7);
    assert("madyellow"@.len() == 9);
    assert("green2"@.len() == 6);
    assert("black2"@[0] != "green2"@[0]);
    assert("elementalgreen"@.len() == 14);
    assert("cyan2"@.len() == 5);
    assert("blue2"@.len() == 5);
    assert("marineblue"@.len() == 10);
    assert("purple2"@.len() == 7);
    assert("nobleviolet"@.len() == 11);
    assert("ue"@.len() == 2);
    assert("shita"@.len() == 5);
    assert("naka"@.len() == 4);
    assert("big"@.len() == 3);
    assert("small"@.len() == 5);
    assert("medium"@.len() == 6);
    assert("black2"@[0] != "medium"@[0]);
    assert("invisible"@.len() == 9);
}

proof fn lemma_colour_niconicoblack()
    ensures
        spec_named_color("niconicoblack"@) == Some(0x666666u32),
        !is_style_keyword("niconicoblack"@),
        "niconicoblack"@.len() > 0,
{
    reveal_strlit("niconicoblack");
    reveal_strlit("white");
    reveal_strlit("red");
    reveal_strlit("pink");
    reveal_strlit("orange");
    reveal_strlit("yellow");
    reveal_strlit("green");
    reveal_strlit("cyan");
    reveal_strlit("blue");
    reveal_strlit("purple");
    reveal_strlit("black");
    reveal_strlit("white2");
    reveal_strlit("niconicowhite");
    reveal_strlit("red2");
    reveal_strlit("truered");
    reveal_strlit("pink2");
    reveal_strlit("orange2");
    reveal_strlit("passionorange");
    reveal_strlit("yellow2");
    reveal_strlit("madyellow");
    reveal_strlit("green2");
    reveal_strlit("elementalgreen");
    reveal_strlit("cyan2");
    reveal_strlit("blue2");
    reveal_strlit("marineblue");
    reveal_strlit("purple2");
    reveal_strlit("nobleviolet");
    reveal_strlit("black2");
    reveal_strlit("ue");
    reveal_strlit("shita");
    reveal_strlit("naka");
    reveal_strlit("big");
    reveal_strlit("small");
    reveal_strlit("medium");
    reveal_strlit("invisible");
    assert("niconicoblack"@.len() == 13);
    assert("white"@.len() == 5);
    assert("red"@.len() == 3);
    assert("pink"@.len() == 4);
    assert("orange"@.len() == 6);
    assert("yellow"@.len() == 6);
    assert("green"@.len() == 5);
    assert("cyan"@.len() == 4);
    assert("blue"@.len() == 4);
    assert("purple"@.len() == 6);
    assert("black"@.len() == 5);
    assert("white2"@.len() == 6);
    assert("niconicowhite"@.len() == 13);
    assert("niconicoblack"@[8] != "niconicowhite"@[8]);
    assert("red2"@.len() == 4);
    assert("truered"@.len() == 7);
    assert("pink2"@.len() == 5);
    assert("orange2"@.len() == 7);
    assert("passionorange"@.len() == 13);
    assert("niconicoblack"@[0] != "passionorange"@[0]);
    assert("yellow2"@.len() == 7);
    assert("madyellow"@.len() == 9);
    assert("green2"@.len() == 6);
    assert("elementalgreen"@.len() == 14);
    assert("cyan2"@.len() == 5);
    assert("blue2"@.len() == 5);
    assert("marineblue"@.len() == 10);
    assert("purple2"@.len() == 7);
    assert("nobleviolet"@.len() == 11);
    assert("black2"@.len() == 6);
    assert("ue"@.len() == 2);
    assert("shita"@.len() == 5);
    assert("naka"@.len() == 4);
    assert("big"@.len() == 3);
    assert("small"@.len() == 5);
    assert("medium"@.len() == 6);
    assert("invisible"@.len() == 9);
}

proof fn lemma_colour_table()
    ensures
        spec_named_color("white"@) == Some(0xFFFFFFu32),
        !is_style_keyword("white"@) && "white"@.len() > 0,
        spec_named_color("red"@) == Some(0xFF0000u32),
        !is_style_keyword("red"@) && "red"@.len() > 0,
        spec_named_color("pink"@) == Some(0xFF8080u32),
        !is_style_keyword("pink"@) && "pink"@.len() > 0,
        spec_named_color("orange"@) == Some(0xFFC000u32),
        !is_style_keyword("orange"@) && "orange"@.len() > 0,
        spec_named_color("yellow"@) == Some(0xFFFF00u32),
        !is_style_keyword("yellow"@) && "yellow"@.len() > 0,
        spec_named_color("green"@) == Some(0x00FF00u32),
        !is_style_keyword("green"@) && "green"@.len() > 0,
        spec_named_color("cyan"@) == Some(0x00FFFFu32),
        !is_style_keyword("cyan"@) && "cyan"@.len() > 0,
        spec_named_color("blue"@) == Some(0x0000FFu32),
        !is_style_keyword("blue"@) && "blue"@.len() > 0,
        spec_named_color("purple"@) == Some(0xC000FFu32),
        !is_style_keyword("purple"@) && "purple"@.len() > 0,
        spec_named_color("black"@) == Some(0x000000u32),
        !is_style_keyword("black"@) && "black"@.len() > 0,
        spec_named_color("white2"@) == Some(0xCCCC99u32),
        !is_style_keyword("white2"@) && "white2"@.len() > 0,
        spec_named_color("niconicowhite"@) == Some(0xCCCC99u32),
        !is_style_keyword("niconicowhite"@) && "niconicowhite"@.len() > 0,
        spec_named_color("red2"@) == Some(0xCC0033u32),
        !is_style_keyword("red2"@) && "red2"@.len() > 0,
        spec_named_color("truered"@) == Some(0xCC0033u32),
        !is_style_keyword("truered"@) && "truered"@.len() > 0,
        spec_named_color("pink2"@) == Some(0xFF33CCu32),
        !is_style_keyword("pink2"@) && "pink2"@.len() > 0,
        spec_named_color("orange2"@) == Some(0xFF6600u32),
        !is_style_keyword("orange2"@) && "orange2"@.len() > 0,
        spec_named_color("passionorange"@) == Some(0xFF6600u32),
        !is_style_keyword("passionorange"@) && "passionorange"@.len() > 0,
        spec_named_color("yellow2"@) == Some(0x999900u32),
        !is_style_keyword("yellow2"@) && "yellow2"@.len() > 0,
        spec_named_color("madyellow"@) == Some(0x999900u32),
        !is_style_keyword("madyellow"@) && "madyellow"@.len() > 0,
        spec_named_color("green2"@) == Some(0x00CC66u32),
        !is_style_keyword("green2"@) && "green2"@.len() > 0,
        spec_named_color("elementalgreen"@) == Some(0x00CC66u32),
        !is_style_keyword("elementalgreen"@) && "elementalgreen"@.len() > 0,
        spec_named_color("cyan2"@) == Some(0x00CCCCu32),
        !is_style_keyword("cyan2"@) && "cyan2"@.len() > 0,
        spec_named_color("blue2"@) == Some(0x3399FFu32),
        !is_style_keyword("blue2"@) && "blue2"@.len() > 0,
        spec_named_color("marineblue"@) == Some(0x3399FFu32),
        !is_style_keyword("marineblue"@) && "marineblue"@.len() > 0,
        spec_named_color("purple2"@) == Some(0x6633CCu32),
        !is_style_keyword("purple2"@) && "purple2"@.len() > 0,
        spec_named_color("nobleviolet"@) == Some(0x6633CCu32),
        !is_style_keyword("nobleviolet"@) && "nobleviolet"@.len() > 0,
        spec_named_color("black2"@) == Some(0x666666u32),
        !is_style_keyword("black2"@) && "black2"@.len() > 0,
        spec_named_color("niconicoblack"@) == Some(0x666666u32),
        !is_style_keyword("niconicoblack"@) && "niconicoblack"@.len() > 0,
{
    lemma_colour_white();
    lemma_colour_red();
    lemma_colour_pink();
    lemma_colour_orange();
    lemma_colour_yellow();
    lemma_colour_green();
    lemma_colour_cyan();
    lemma_colour_blue();
    lemma_colour_purple();
    lemma_colour_black();
    lemma_colour_white2();
    lemma_colour_niconicowhite();
    lemma_colour_red2();
    lemma_colour_truered();
    lemma_colour_pink2();
    lemma_colour_orange2();
    lemma_colour_passionorange();
    lemma_colour_yellow2();
    lemma_colour_madyellow();
    lemma_colour_green2();
    lemma_colour_elementalgreen();
    lemma_colour_cyan2();
    lemma_colour_blue2();
    lemma_colour_marineblue();
    lemma_colour_purple2();
    lemma_colour_nobleviolet();
    lemma_colour_black2();
    lemma_colour_niconicoblack();
}

/// A colour command sets the colour its name stands for, whatever came
/// before it: after any commands, a command that reads (trimmed, in any
/// ASCII case) `white` gives 0xFFFFFF, `red` 0xFF0000, `pink` 0xFF8080,
/// `orange` 0xFFC000, `yellow` 0xFFFF00, `green` 0x00FF00, `cyan` 0x00FFFF,
/// `blue` 0x0000FF, `purple` 0xC000FF, `black` 0x000000, and the premium
/// names and their aliases their own values.
pub proof fn law_colour_names_set_their_rgb(cmds: Seq<Seq<char>>, c: Seq<char>)
    ensures
        ({
            let n = lower_seq(trim(c));
            let rgb = spec_parse_style(cmds.push(c)).rgb;
            &&& n == "white"@ ==> rgb == 0xFFFFFF
            &&& n == "red"@ ==> rgb == 0xFF0000
            &&& n == "pink"@ ==> rgb == 0xFF8080
            &&& n == "orange"@ ==> rgb == 0xFFC000
            &&& n == "yellow"@ ==> rgb == 0xFFFF00
            &&& n == "green"@ ==> rgb == 0x00FF00
            &&& n == "cyan"@ ==> rgb == 0x00FFFF
            &&& n == "blue"@ ==> rgb == 0x0000FF
            &&& n == "purple"@ ==> rgb == 0xC000FF
            &&& n == "black"@ ==> rgb == 0x000000
            &&& n == "white2"@ ==> rgb == 0xCCCC99
            &&& n == "niconicowhite"@ ==> rgb == 0xCCCC99
            &&& n == "red2"@ ==> rgb == 0xCC0033
            &&& n == "truered"@ ==> rgb == 0xCC0033
            &&& n == "pink2"@ ==> rgb == 0xFF33CC
            &&& n == "orange2"@ ==> rgb == 0xFF6600
            &&& n == "passionorange"@ ==> rgb == 0xFF6600
            &&& n == "yellow2"@ ==> rgb == 0x999900
            &&& n == "madyellow"@ ==> rgb == 0x999900
            &&& n == "green2"@ ==> rgb == 0x00CC66
            &&& n == "elementalgreen"@ ==> rgb == 0x00CC66
            &&& n == "cyan2"@ ==> rgb == 0x00CCCC
            &&& n == "blue2"@ ==> rgb == 0x3399FF
            &&& n == "marineblue"@ ==> rgb == 0x3399FF
            &&& n == "purple2"@ ==> rgb == 0x6633CC
            &&& n == "nobleviolet"@ ==> rgb == 0x6633CC
            &&& n == "black2"@ ==> rgb == 0x666666
            &&& n == "niconicoblack"@ ==> rgb == 0x666666
        }),
{
    lemma_colour_table();
    assert(cmds.push(c).drop_last() =~= cmds);
    lemma_apply_command_fields(spec_parse_style(cmds), c);
}

// ---------------------------------------------------------------------------
// What each kind of command decides
// ---------------------------------------------------------------------------

/// The position a command sets, if it is a position command.
pub open spec fn cmd_position(raw: Seq<char>) -> Option<Position> {
    let l = lower_seq(trim(raw));
    if trim(raw).len() == 0 {
        None
    } else if l == "ue"@ {
        Some(Position::Ue)
    } else if l == "shita"@ {
        Some(Position::Shita)
    } else if l == "naka"@ {
        Some(Position::Naka)
    } else {
        None
    }
}

/// The size a command sets, if it is a size command.
pub open spec fn cmd_size(raw: Seq<char>) -> Option<Size> {
    let l = lower_seq(trim(raw));
    if trim(raw).len() == 0 {
        None
    } else if l == "big"@ {
        Some(Size::Big)
    } else if l == "small"@ {
        Some(Size::Small)
    } else if l == "medium"@ {
        Some(Size::Medium)
    } else {
        None
    }
}

pub open spec fn is_style_keyword(l: Seq<char>) -> bool {
    l == "ue"@ || l == "shita"@ || l == "naka"@ || l == "big"@ || l == "small"@ || l
        == "medium"@ || l == "invisible"@
}

/// The colour a command sets, if it is a colour (a name or `#hex`).
pub open spec fn cmd_color(raw: Seq<char>) -> Option<u32> {
    let cmd = trim(raw);
    let l = lower_seq(cmd);
    if cmd.len() == 0 || is_style_keyword(l) {
        None
    } else if spec_named_color(l) is Some {
        spec_named_color(l)
    } else {
        spec_parse_hex_color(cmd)
    }
}

/// Whether a command is `invisible`.
pub open spec fn cmd_invisible(raw: Seq<char>) -> bool {
    trim(raw).len() > 0 && lower_seq(trim(raw)) == "invisible"@
}

/// A command of no kind (blank, `184`, `full`, a font, ...).
pub open spec fn is_inert_command(raw: Seq<char>) -> bool {
    cmd_position(raw) is None && cmd_size(raw) is None && cmd_color(raw) is None
        && !cmd_invisible(raw)
}

/// The value that the last command giving one gives.
pub open spec fn last_given<T>(cmds: Seq<Seq<char>>, f: spec_fn(Seq<char>) -> Option<T>) -> Option<T>
    decreases cmds.len(),
{
    if cmds.len() == 0 {
        None
    } else {
        match f(cmds.last()) {
            Some(v) => Some(v),
            None => last_given(cmds.drop_last(), f),
        }
    }
}

pub open spec fn or_else<T>(o: Option<T>, d: T) -> T {
    match o {
        Some(v) => v,
        None => d,
    }
}

proof fn lemma_apply_command_fields(st: ParsedStyle, raw: Seq<char>)
    ensures
        apply_command(st, raw) == (ParsedStyle {
            position: or_else(cmd_position(raw), st.position),
            size: or_else(cmd_size(raw), st.size),
            rgb: or_else(cmd_color(raw), st.rgb),
            invisible: st.invisible || cmd_invisible(raw),
        }),
{
    reveal_strlit("ue");
    reveal_strlit("shita");
    reveal_strlit("naka");
    reveal_strlit("big");
    reveal_strlit("small");
    reveal_strlit("medium");
    reveal_strlit("invisible");
    assert("ue"@.len() == 2 && "shita"@.len() == 5 && "naka"@.len() == 4);
    assert("big"@.len() == 3 && "small"@.len() == 5 && "medium"@.len() == 6);
    assert("invisible"@.len() == 9);
    assert("shita"@ != "small"@) by {
        assert("shita"@[1] != "small"@[1]);
    }
}

/// Each part of a style comes from the last command of its kind (trimmed,
/// without regard to ASCII case), else from the default (naka, medium,
/// white); the comment is invisible when any command says so.
pub proof fn law_last_command_of_each_kind_wins(cmds: Seq<Seq<char>>)
    ensures
        spec_parse_style(cmds) == (ParsedStyle {
            position: or_else(last_given(cmds, |c: Seq<char>| cmd_position(c)), Position::Naka),
            size: or_else(last_given(cmds, |c: Seq<char>| cmd_size(c)), Size::Medium),
            rgb: or_else(last_given(cmds, |c: Seq<char>| cmd_color(c)), 0xFFFFFFu32),
            invisible: exists|i: int| 0 <= i < cmds.len() && cmd_invisible(#[trigger] cmds[i]),
        }),
    decreases cmds.len(),
{
    if cmds.len() > 0 {
        let init = cmds.drop_last();
        law_last_command_of_each_kind_wins(init);
        lemma_apply_command_fields(spec_parse_style(init), cmds.last());
        if exists|i: int| 0 <= i < init.len() && cmd_invisible(#[trigger] init[i]) {
            let i = choose|i: int| 0 <= i < init.len() && cmd_invisible(#[trigger] init[i]);
            assert(cmds[i] == init[i]);
        }
        if exists|i: int| 0 <= i < cmds.len() && cmd_invisible(#[trigger] cmds[i]) {
            let i = choose|i: int| 0 <= i < cmds.len() && cmd_invisible(#[trigger] cmds[i]);
            if i < init.len() {
                assert(init[i] == cmds[i]);
            }
        }
    }
}

/// Position, size and `invisible` commands do what their names say, after
/// any commands: `ue` puts the comment at the top, `shita` at the bottom,
/// `naka` scrolling; `big`, `small` and `medium` set the size; `invisible`
/// hides it (trimmed, in any ASCII case).
pub proof fn law_keywords_set_what_they_name(cmds: Seq<Seq<char>>, c: Seq<char>)
    ensures
        ({
            let n = lower_seq(trim(c));
            let st = spec_parse_style(cmds.push(c));
            &&& n == "ue"@ ==> st.position == Position::Ue
            &&& n == "shita"@ ==> st.position == Position::Shita
            &&& n == "naka"@ ==> st.position == Position::Naka
            &&& n == "big"@ ==> st.size == Size::Big
            &&& n == "small"@ ==> st.size == Size::Small
            &&& n == "medium"@ ==> st.size == Size::Medium
            &&& n == "invisible"@ ==> st.invisible
        }),
{
    reveal_strlit("ue");
    reveal_strlit("shita");
    reveal_strlit("naka");
    reveal_strlit("big");
    reveal_strlit("small");
    reveal_strlit("medium");
    reveal_strlit("invisible");
    assert("ue"@.len() == 2 && "shita"@.len() == 5 && "naka"@.len() == 4);
    assert("big"@.len() == 3 && "small"@.len() == 5 && "medium"@.len() == 6);
    assert("invisible"@.len() == 9);
    assert("shita"@[1] != "small"@[1]);
    assert(cmds.push(c).drop_last() =~= cmds);
    lemma_apply_command_fields(spec_parse_style(cmds), c);
}

/// The ASS colour of red, green and blue bytes lists them in the order
/// blue, green, red: `&H<bb><gg><rr>&`.
pub proof fn law_ass_color_is_blue_green_red(r: u8, g: u8, b: u8)
    ensures
        spec_ass_color(((r as int) * 65536 + (g as int) * 256 + (b as int)) as u32) == "&H"@ + hex2(b as nat)
            + hex2(g as nat) + hex2(r as nat) + "&"@,
{
    let rgb = (r as int) * 65536 + (g as int) * 256 + (b as int);
    assert(0 <= rgb < 0x100_0000 && rgb / 65536 % 256 == r && rgb / 256 % 256 == g && rgb % 256 == b) by (nonlinear_arith)
        requires
            rgb == (r as int) * 65536 + (g as int) * 256 + (b as int),
            r < 256,
            g < 256,
            b < 256,
    ;
}

/// A command of no kind changes nothing wherever it is inserted.
pub proof fn law_inert_commands_change_nothing(
    before: Seq<Seq<char>>,
    c: Seq<char>,
    after: Seq<Seq<char>>,
)
    requires
        is_inert_command(c),
    ensures
        spec_parse_style(before + seq![c] + after) == spec_parse_style(before + after),
    decreases after.len(),
{
    if after.len() == 0 {
        assert(before + seq![c] + after =~= before.push(c));
        assert(before.push(c).drop_last() =~= before);
        assert(before + after =~= before);
        lemma_apply_command_fields(spec_parse_style(before), c);
    } else {
        let a2 = after.drop_last();
        law_inert_commands_change_nothing(before, c, a2);
        assert((before + seq![c] + after).drop_last() =~= before + seq![c] + a2);
        assert((before + after).drop_last() =~= before + a2);
        assert((before + seq![c] + after).last() == after.last());
        assert((before + after).last() == after.last());
    }
}

/// Whatever a comment says, its escaped body is plain text to libass: it
/// cannot open an override block (`{...}`) nor end the `Dialogue` line.
pub proof fn law_escaped_body_is_plain(text: Seq<char>)
    ensures
        is_plain_ass_text(spec_ass_escape(text)),
{
    let parts = split_char(text, '\n').map_values(|l: Seq<char>| esc_line(l));
    assert forall|i: int| 0 <= i < parts.len() implies is_plain_ass_text(#[trigger] parts[i]) by {
        lemma_split_char_pieces(text, '\n');
        lemma_plain_esc_line(split_char(text, '\n')[i]);
    }
    lemma_plain_join(parts);
}

fn escape_line(line: &[char]) -> (r: Vec<char>)
    ensures
        r@ == esc_line(line@),
{
    let mut e: Vec<char> = Vec::new();
    let mut i: usize = 0;
    while i < line.len()
        invariant
            i <= line.len(),
            e@ == esc_raw(line@.take(i as int)),
        decreases line.len() - i,
    {
        let c = line[i];
        let ghost before = e@;
        if c == '\\' {
            e.push('\\');
            e.push('\\');
        } else if c == '{' {
            e.push('\\');
            e.push('{');
        } else if c == '}' {
            e.push('\\');
            e.push('}');
        } else if c == '\r' {
        } else if c == '\t' {
            e.push('\\');
            e.push('h');
            e.push('\\');
            e.push('h');
            e.push('\\');
            e.push('h');
            e.push('\\');
            e.push('h');
        } else {
            e.push(c);
        }
        assert(line@.take(i + 1).drop_last() =~= line@.take(i as int));
        assert(e@ =~= before + esc_char(c));
        i += 1;
    }
    assert(line@.take(line.len() as int) =~= line@);
    let mut k: usize = 0;
    while k < e.len() && e[k] == ' '
        invariant
            k <= e.len(),
            forall|j: int| 0 <= j < k ==> e@[j] == ' ',
        decreases e.len() - k,
    {
        k += 1;
    }
    proof {
        lemma_leading_spaces(e@, k as int);
    }
    let mut r: Vec<char> = Vec::new();
    let mut j: usize = 0;
    while j < k
        invariant
            j <= k,
            r@ == hard_spaces(j as nat),
        decreases k - j,
    {
        r.push('\\');
        r.push('h');
        j += 1;
        assert(r@ =~= hard_spaces((j - 1) as nat) + seq!['\\', 'h']);
    }
    let mut m: usize = k;
    let ghost base = r@;
    while m < e.len()
        invariant
            k <= m <= e.len(),
            base == hard_spaces(k as nat),
            r@ == base + e@.subrange(k as int, m as int),
        decreases e.len() - m,
    {
        r.push(e[m]);
        m += 1;
        assert(r@ =~= base + e@.subrange(k as int, m as int));
    }
    assert(e@.subrange(k as int, e.len() as int) =~= e@.skip(k as int));
    r
}

/// Make `text` safe inside an ASS `Dialogue` line: `\` `{` `}` are escaped
/// (no override block can be injected), newlines become `\N`, CR is dropped,
/// tabs and leading spaces become hard spaces `\h`.
pub fn ass_escape(text: &str) -> (s: String)
    ensures
        s@ == spec_ass_escape(text@),
        is_plain_ass_text(s@),
{
    proof {
        law_escaped_body_is_plain(text@);
    }
    let chars = chars_of(text);
    let lines = split_chars(&chars, '\n');
    let ghost ls = views(lines@);
    let ghost mapped = ls.map_values(|l: Seq<char>| esc_line(l));
    let mut out = String::new();
    let mut i: usize = 0;
    assert(mapped.take(0) =~= Seq::<Seq<char>>::empty());
    while i < lines.len()
        invariant
            i <= lines.len(),
            ls == views(lines@),
            ls == split_char(text@, '\n'),
            mapped == ls.map_values(|l: Seq<char>| esc_line(l)),
            out@ == join(mapped.take(i as int), seq!['\\', 'N']),
        decreases lines.len() - i,
    {
        let ghost before = out@;
        if i > 0 {
            out.push_str("\\N");
            proof {
                reveal_strlit("\\N");
            }
        }
        let e = escape_line(&lines[i]);
        push_chars(&mut out, &e);
        proof {
            let p = mapped.take(i + 1);
            assert(p.drop_last() =~= mapped.take(i as int));
            assert(p.last() == esc_line(ls[i as int]));
            if i == 0 {
                assert(join(p, seq!['\\', 'N']) == p[0]);
                assert(out@ =~= p[0]);
            } else {
                assert(out@ =~= join(mapped.take(i as int), seq!['\\', 'N']) + seq!['\\', 'N'] + p.last());
            }
        }
        i += 1;
    }
    assert(mapped.take(lines.len() as int) =~= mapped);
    out
}

} // verus!
