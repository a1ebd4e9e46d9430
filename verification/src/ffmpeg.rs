//! What the library decides around ffmpeg: the HTTP headers it hands ffmpeg
//! for Domand, the outcome of a mux, and the reading of ffmpeg's own text
//! (stream dimensions, the `Duration:` token, `-progress` lines).
use vstd::prelude::*;

use vstd::utf8::encode_utf8;

use crate::text::{
    chars_of, has_prefix, lemma_split_char_nonempty, push_chars, split_char, split_chars,
    starts_with_chars, subvec, trim, trim_chars, trim_start, trim_start_chars, views,
};

verus! {

/// The result of a copy-mux or burn-in run.
#[derive(Debug, Clone)]
pub enum MuxOutcome {
    /// One output file was written (video with audio, or video alone).
    Success,
    /// No ffmpeg binary was found.
    FfmpegNotFound,
    /// ffmpeg ran and failed; its stderr.
    FfmpegFailed { stderr: String },
}

// ---------------------------------------------------------------------------
// Headers
// ---------------------------------------------------------------------------

/// The browser-like headers Domand's CDN expects, each ended by CRLF.
pub open spec fn domand_base_headers() -> Seq<char> {
    "Accept: */*\r\nAccept-Language: ja,en-US;q=0.9,en;q=0.8\r\nsec-fetch-mode: cors\r\nsec-fetch-site: same-site\r\nsec-fetch-dest: empty\r\nsec-ch-ua: \"Chromium\";v=\"130\", \"Not?A_Brand\";v=\"99\"\r\nsec-ch-ua-mobile: ?0\r\nsec-ch-ua-platform: \"Linux\"\r\n"@
}

/// The value of ffmpeg's `-headers` option: the browser-like headers, then a
/// `Cookie:` line when a session cookie is known.
pub open spec fn spec_domand_headers(cookie_header: Option<Seq<char>>) -> Seq<char> {
    match cookie_header {
        Some(c) => domand_base_headers() + "Cookie: "@ + c + "\r\n"@,
        None => domand_base_headers(),
    }
}

pub fn domand_headers(cookie_header: Option<&str>) -> (s: String)
    ensures
        s@ == spec_domand_headers(
            match cookie_header {
                Some(c) => Some(c@),
                None => None,
            },
        ),
{
    let mut headers = String::new();
    headers.push_str(
        "Accept: */*\r\nAccept-Language: ja,en-US;q=0.9,en;q=0.8\r\nsec-fetch-mode: cors\r\nsec-fetch-site: same-site\r\nsec-fetch-dest: empty\r\nsec-ch-ua: \"Chromium\";v=\"130\", \"Not?A_Brand\";v=\"99\"\r\nsec-ch-ua-mobile: ?0\r\nsec-ch-ua-platform: \"Linux\"\r\n",
    );
    assert(headers@ =~= domand_base_headers());
    if let Some(cookie) = cookie_header {
        headers.push_str("Cookie: ");
        headers.push_str(cookie);
        headers.push_str("\r\n");
    }
    headers
}

// ---------------------------------------------------------------------------
// Dimensions
// ---------------------------------------------------------------------------

pub open spec fn is_digit_byte(b: u8) -> bool {
    48 <= b <= 57
}

/// Decimal value of a run of digit bytes.
pub open spec fn dec_value(s: Seq<u8>) -> nat
    decreases s.len(),
{
    if s.len() == 0 {
        0
    } else {
        dec_value(s.drop_last()) * 10 + (s.last() - 48) as nat
    }
}

/// Start of the run of digit bytes that ends just before `i`.
pub open spec fn digits_start(b: Seq<u8>, i: int) -> int
    decreases i,
{
    if i > 0 && i <= b.len() && is_digit_byte(b[i - 1]) {
        digits_start(b, i - 1)
    } else {
        i
    }
}

/// End of the run of digit bytes that starts at `i`.
pub open spec fn digits_end(b: Seq<u8>, i: int) -> int
    decreases b.len() - i,
{
    if 0 <= i < b.len() && is_digit_byte(b[i]) {
        digits_end(b, i + 1)
    } else {
        i
    }
}

/// The scan for `WIDTHxHEIGHT` from byte `i` on: the first `x` with a run
/// of at least two digits on each side is the answer (a one-digit side, as
/// in the aspect ratio `16x9`, is passed over); when one of its two numbers
/// does not fit in `u32` there is no answer.
pub open spec fn dims_from(b: Seq<u8>, i: int) -> Option<(u32, u32)>
    decreases b.len() - i,
{
    if i < 0 || i >= b.len() {
        None
    } else if b[i] == 120 && i > 0 {
        let l = digits_start(b, i);
        let r = digits_end(b, i + 1);
        if l + 2 <= i && r >= i + 3 {
            let w = dec_value(b.subrange(l, i));
            let h = dec_value(b.subrange(i + 1, r));
            if w > u32::MAX || h > u32::MAX {
                None
            } else {
                Some((w as u32, h as u32))
            }
        } else {
            dims_from(b, i + 1)
        }
    } else {
        dims_from(b, i + 1)
    }
}

proof fn lemma_digits_start(b: Seq<u8>, i: int)
    requires
        0 <= i <= b.len(),
    ensures
        0 <= digits_start(b, i) <= i,
        forall|k: int| digits_start(b, i) <= k < i ==> is_digit_byte(#[trigger] b[k]),
        digits_start(b, i) == 0 || !is_digit_byte(b[digits_start(b, i) - 1]),
    decreases i,
{
    if i > 0 && is_digit_byte(b[i - 1]) {
        lemma_digits_start(b, i - 1);
    }
}

proof fn lemma_digits_end(b: Seq<u8>, i: int)
    requires
        0 <= i <= b.len(),
    ensures
        i <= digits_end(b, i) <= b.len(),
        forall|k: int| i <= k < digits_end(b, i) ==> is_digit_byte(#[trigger] b[k]),
        digits_end(b, i) == b.len() || !is_digit_byte(b[digits_end(b, i)]),
    decreases b.len() - i,
{
    if i < b.len() && is_digit_byte(b[i]) {
        lemma_digits_end(b, i + 1);
    }
}

proof fn lemma_digits_start_step(b: Seq<u8>, l: int, i: int)
    requires
        0 <= l <= i <= b.len(),
        forall|k: int| l <= k < i ==> is_digit_byte(#[trigger] b[k]),
        l == 0 || !is_digit_byte(b[l - 1]),
    ensures
        digits_start(b, i) == l,
    decreases i - l,
{
    if i > l {
        lemma_digits_start_step(b, l, i - 1);
    }
}

proof fn lemma_digits_end_step(b: Seq<u8>, i: int, r: int)
    requires
        0 <= i <= r <= b.len(),
        forall|k: int| i <= k < r ==> is_digit_byte(#[trigger] b[k]),
        r == b.len() || !is_digit_byte(b[r]),
    ensures
        digits_end(b, i) == r,
    decreases r - i,
{
    if r > i {
        lemma_digits_end_step(b, i + 1, r);
    }
}

proof fn lemma_dec_value_grows(s: Seq<u8>, k: int)
    requires
        0 <= k <= s.len(),
        forall|j: int| 0 <= j < s.len() ==> is_digit_byte(#[trigger] s[j]),
    ensures
        dec_value(s.take(k)) <= dec_value(s),
    decreases s.len(),
{
    if k < s.len() {
        let t = s.drop_last();
        assert(t.take(k) =~= s.take(k));
        assert forall|j: int| 0 <= j < t.len() implies is_digit_byte(#[trigger] t[j]) by {
            assert(t[j] == s[j]);
        }
        lemma_dec_value_grows(t, k);
    } else {
        assert(s.take(k) =~= s);
    }
}

/// Value of the digits `b[from..to]`, or `None` when it exceeds `u32::MAX`.
fn parse_dec_u32(b: &[u8], from: usize, to: usize) -> (r: Option<u32>)
    requires
        from <= to <= b.len(),
        forall|k: int| from <= k < to ==> is_digit_byte(#[trigger] b@[k]),
    ensures
        match r {
            Some(v) => v == dec_value(b@.subrange(from as int, to as int)),
            None => dec_value(b@.subrange(from as int, to as int)) > u32::MAX,
        },
{
    let ghost s = b@.subrange(from as int, to as int);
    let mut acc: u64 = 0;
    let mut i: usize = from;
    assert(s.take(0) =~= Seq::<u8>::empty());
    while i < to
        invariant
            from <= i <= to,
            to <= b.len(),
            s == b@.subrange(from as int, to as int),
            forall|k: int| from <= k < to ==> is_digit_byte(#[trigger] b@[k]),
            acc == dec_value(s.take(i - from)),
            acc <= u32::MAX,
        decreases to - i,
    {
        let d = (b[i] - 48) as u64;
        assert(s.take(i + 1 - from).drop_last() =~= s.take(i - from));
        assert(s.take(i + 1 - from).last() == b@[i as int]);
        let nv = acc * 10 + d;
        if nv > 0xFFFF_FFFF {
            proof {
                assert forall|j: int| 0 <= j < s.len() implies is_digit_byte(#[trigger] s[j]) by {
                    assert(s[j] == b@[from + j]);
                }
                lemma_dec_value_grows(s, i + 1 - from);
            }
            return None;
        }
        acc = nv;
        i += 1;
    }
    assert(s.take(to - from) =~= s);
    Some(acc as u32)
}

/// The first `WIDTHxHEIGHT` in `line` whose two sides both have two or more
/// digits (`1280x720`, not the aspect ratio `16x9`), scanning the UTF-8
/// bytes.
pub fn find_dimensions(line: &str) -> (r: Option<(u32, u32)>)
    ensures
        r == dims_from(encode_utf8(line@), 0),
{
    let bytes = line.as_bytes();
    let mut i: usize = 0;
    while i < bytes.len()
        invariant
            i <= bytes.len(),
            bytes@ == encode_utf8(line@),
            dims_from(bytes@, i as int) == dims_from(bytes@, 0),
        decreases bytes.len() - i,
    {
        let ghost b = bytes@;
        if bytes[i] == 120 && i > 0 {
            let mut l: usize = i;
            while l > 0 && 48 <= bytes[l - 1] && bytes[l - 1] <= 57
                invariant
                    l <= i,
                    i < bytes.len(),
                    forall|k: int| l <= k < i ==> is_digit_byte(#[trigger] bytes@[k]),
                decreases l,
            {
                l -= 1;
            }
            let mut r: usize = i + 1;
            while r < bytes.len() && 48 <= bytes[r] && bytes[r] <= 57
                invariant
                    i + 1 <= r <= bytes.len(),
                    forall|k: int| i + 1 <= k < r ==> is_digit_byte(#[trigger] bytes@[k]),
                decreases bytes.len() - r,
            {
                r += 1;
            }
            proof {
                lemma_digits_start_step(b, l as int, i as int);
                lemma_digits_end_step(b, i + 1, r as int);
            }
            if i - l >= 2 && r - i >= 3 {
                let w = match parse_dec_u32(bytes, l, i) {
                    Some(v) => v,
                    None => {
                        return None;
                    },
                };
                let h = match parse_dec_u32(bytes, i + 1, r) {
                    Some(v) => v,
                    None => {
                        return None;
                    },
                };
                return Some((w, h));
            }
        }
        i += 1;
    }
    None
}

// ---------------------------------------------------------------------------
// `ffmpeg -i` output
// ---------------------------------------------------------------------------

/// Index of the first occurrence of `pat` in `s`.
#[verifier::opaque]
pub open spec fn find_sub(s: Seq<char>, pat: Seq<char>) -> Option<int> {
    if exists|i: int| 0 <= i <= s.len() - pat.len() && #[trigger] s.subrange(i, i + pat.len()) == pat {
        Some(
            choose|i: int|
                0 <= i <= s.len() - pat.len() && #[trigger] s.subrange(i, i + pat.len()) == pat
                    && forall|k: int|
                    0 <= k < i ==> #[trigger] s.subrange(k, k + pat.len()) != pat,
        )
    } else {
        None
    }
}

fn find_sub_index(s: &[char], pat: &[char]) -> (r: Option<usize>)
    ensures
        match r {
            Some(i) => find_sub(s@, pat@) == Some(i as int) && i + pat.len() <= s.len(),
            None => find_sub(s@, pat@) is None,
        },
{
    proof {
        reveal(find_sub);
    }
    if pat.len() > s.len() {
        return None;
    }
    let last = s.len() - pat.len();
    let mut i: usize = 0;
    while i <= last
        invariant
            last == s.len() - pat.len(),
            pat.len() <= s.len(),
            i <= last + 1,
            forall|k: int| 0 <= k < i ==> #[trigger] s@.subrange(k, k + pat.len()) != pat@,
        decreases last + 1 - i,
    {
        let piece = subvec(s, i, i + pat.len());
        let mut same = true;
        let mut j: usize = 0;
        while j < pat.len()
            invariant
                j <= pat.len(),
                i <= last,
                last == s.len() - pat.len(),
                pat.len() <= s.len(),
                piece@ == s@.subrange(i as int, i + pat.len()),
                same == (forall|k: int| 0 <= k < j ==> piece@[k] == pat@[k]),
            decreases pat.len() - j,
        {
            if piece[j] != pat[j] {
                same = false;
            }
            j += 1;
        }
        if same {
            assert(piece@ =~= pat@);
            proof {
                let ii = i as int;
                let n = pat@.len() as int;
                assert(s@.subrange(ii, ii + n) == pat@);
                assert(exists|w: int| 0 <= w <= s@.len() - n && #[trigger] s@.subrange(w, w + n) == pat@);
                let w = choose|w: int|
                    0 <= w <= s@.len() - n && #[trigger] s@.subrange(w, w + n) == pat@
                        && forall|k: int| 0 <= k < w ==> #[trigger] s@.subrange(k, k + n) != pat@;
                assert(0 <= ii <= s@.len() - n && s@.subrange(ii, ii + n) == pat@ && forall|k: int|
                    0 <= k < ii ==> #[trigger] s@.subrange(k, k + n) != pat@);
                assert(w == ii) by {
                    if w < ii {
                        assert(s@.subrange(w, w + n) != pat@);
                    } else if w > ii {
                        assert(s@.subrange(ii, ii + n) != pat@);
                    }
                }
                reveal(find_sub);
                assert(find_sub(s@, pat@) == Some(ii));
            }
            return Some(i);
        }
        assert(piece@ != pat@) by {
            let k = choose|k: int| 0 <= k < j && piece@[k] != pat@[k];
        }
        i += 1;
    }
    None
}

/// The `Duration:` token of one trimmed line: what follows `Duration:`,
/// without leading spaces, up to the first comma, trimmed.
pub open spec fn duration_token(t: Seq<char>) -> Option<Seq<char>> {
    match find_sub(t, "Duration:"@) {
        Some(idx) => {
            let rest = trim_start(t.skip(idx + 9));
            Some(trim(split_char(rest, ',')[0]))
        },
        None => None,
    }
}

/// The `Duration:` tokens of ffmpeg's stderr, one per line that holds one,
/// in order (the caller reads the first that parses as a timecode).
pub open spec fn spec_duration_tokens(stderr: Seq<char>) -> Seq<Seq<char>> {
    split_char(stderr, '\n').map_values(|l: Seq<char>| duration_token(trim(l))).filter(
        |o: Option<Seq<char>>| o is Some,
    ).map_values(|o: Option<Seq<char>>| o->0)
}

/// The dimensions in ffmpeg's stderr lines: the first trimmed line that
/// holds `Video:` and a `WIDTHxHEIGHT` gives them.
pub open spec fn dims_of_lines(lines: Seq<Seq<char>>) -> Option<(u32, u32)>
    decreases lines.len(),
{
    if lines.len() == 0 {
        None
    } else {
        let t = trim(lines[0]);
        if find_sub(t, "Video:"@) is Some && dims_from(encode_utf8(t), 0) is Some {
            dims_from(encode_utf8(t), 0)
        } else {
            dims_of_lines(lines.drop_first())
        }
    }
}

pub open spec fn spec_probe_dimensions(stderr: Seq<char>) -> Option<(u32, u32)> {
    dims_of_lines(split_char(stderr, '\n'))
}

/// Width and height of the first video stream that `ffmpeg -i` reports.
pub fn probe_dimensions(stderr: &str) -> (r: Option<(u32, u32)>)
    ensures
        r == spec_probe_dimensions(stderr@),
{
    let chars = chars_of(stderr);
    let lines = split_chars(&chars, '\n');
    let ghost ls = views(lines@);
    let video = chars_of("Video:");
    let mut i: usize = 0;
    assert(ls.skip(0) =~= ls);
    while i < lines.len()
        invariant
            i <= lines.len(),
            ls == views(lines@),
            ls == split_char(stderr@, '\n'),
            video@ == "Video:"@,
            dims_of_lines(ls.skip(i as int)) == dims_of_lines(ls),
        decreases lines.len() - i,
    {
        let t = trim_chars(&lines[i]);
        let ghost rest = ls.skip(i as int);
        assert(rest[0] == lines@[i as int]@);
        assert(rest.drop_first() =~= ls.skip(i + 1));
        if find_sub_index(&t, &video).is_some() {
            let ts = string_of(&t);
            match find_dimensions(ts.as_str()) {
                Some(d) => {
                    return Some(d);
                },
                None => {},
            }
        }
        i += 1;
    }
    None
}

fn string_of(v: &[char]) -> (s: String)
    ensures
        s@ == v@,
{
    let mut s = String::new();
    push_chars(&mut s, v);
    s
}

fn duration_token_of(t: &[char], pat: &[char]) -> (r: Option<Vec<char>>)
    requires
        pat@ == "Duration:"@,
    ensures
        match r {
            Some(v) => duration_token(t@) == Some(v@),
            None => duration_token(t@) is None,
        },
{
    proof {
        reveal_strlit("Duration:");
    }
    match find_sub_index(t, pat) {
        None => None,
        Some(idx) => {
            let rest = subvec(t, idx + 9, t.len());
            assert(rest@ =~= t@.skip(idx + 9));
            let rs = trim_start_chars(&rest);
            let pieces = split_chars(&rs, ',');
            proof {
                lemma_split_char_nonempty(rs@, ',');
            }
            assert(pieces@[0]@ == views(pieces@)[0]);
            let tok = trim_chars(&pieces[0]);
            Some(tok)
        },
    }
}

/// The `Duration:` tokens of `ffmpeg -i`'s stderr, in line order.
pub fn duration_tokens(stderr: &str) -> (r: Vec<String>)
    ensures
        r@.map_values(|s: String| s@) == spec_duration_tokens(stderr@),
{
    let chars = chars_of(stderr);
    let lines = split_chars(&chars, '\n');
    let ghost ls = views(lines@);
    let ghost toks = ls.map_values(|l: Seq<char>| duration_token(trim(l)));
    let pat = chars_of("Duration:");
    let mut out: Vec<String> = Vec::new();
    let mut i: usize = 0;
    while i < lines.len()
        invariant
            i <= lines.len(),
            ls == views(lines@),
            toks == ls.map_values(|l: Seq<char>| duration_token(trim(l))),
            pat@ == "Duration:"@,
            out@.map_values(|s: String| s@) == toks.take(i as int).filter(
                |o: Option<Seq<char>>| o is Some,
            ).map_values(|o: Option<Seq<char>>| o->0),
        decreases lines.len() - i,
    {
        let t = trim_chars(&lines[i]);
        let tok = duration_token_of(&t, &pat);
        let ghost prev = toks.take(i as int);
        let ghost next = toks.take(i + 1);
        assert(next.drop_last() =~= prev);
        assert(next.last() == toks[i as int]);
        proof {
            prev.lemma_filter_push(toks[i as int], |o: Option<Seq<char>>| o is Some);
        }
        match tok {
            Some(v) => {
                let ghost before = out@;
                out.push(string_of(&v));
                assert(out@.map_values(|s: String| s@) =~= before.map_values(|s: String| s@).push(
                    v@,
                ));
                assert(next =~= prev.push(toks[i as int]));
            },
            None => {
                assert(next =~= prev.push(toks[i as int]));
            },
        }
        i += 1;
    }
    assert(toks.take(lines.len() as int) =~= toks);
    proof {
        assert(ls == split_char(stderr@, '\n'));
    }
    out
}

// ---------------------------------------------------------------------------
// `-progress pipe:1` lines
// ---------------------------------------------------------------------------

/// The elapsed-time value of a `-progress` line, as text for the caller to
/// read: `out_time_us=` and `out_time_ms=` carry microseconds, `out_time=`
/// an `HH:MM:SS.us` timecode.
#[derive(Debug, Clone)]
pub enum ProgressValue {
    Micros(String),
    Timecode(String),
}

/// `(is_timecode, text)` of a progress line; `None` for other keys.
pub open spec fn spec_progress_value(line: Seq<char>) -> Option<(bool, Seq<char>)> {
    let t = trim(line);
    if has_prefix(t, "out_time_us="@) {
        Some((false, trim(t.skip(12))))
    } else if has_prefix(t, "out_time_ms="@) {
        Some((false, trim(t.skip(12))))
    } else if has_prefix(t, "out_time="@) {
        Some((true, trim(t.skip(9))))
    } else {
        None
    }
}

pub fn progress_value(line: &str) -> (r: Option<ProgressValue>)
    ensures
        match r {
            Some(ProgressValue::Micros(s)) => spec_progress_value(line@) == Some((false, s@)),
            Some(ProgressValue::Timecode(s)) => spec_progress_value(line@) == Some((true, s@)),
            None => spec_progress_value(line@) is None,
        },
{
    proof {
        reveal_strlit("out_time_us=");
        reveal_strlit("out_time_ms=");
        reveal_strlit("out_time=");
    }
    let lc = chars_of(line);
    let t = trim_chars(&lc);
    let us = chars_of("out_time_us=");
    let ms = chars_of("out_time_ms=");
    let tc = chars_of("out_time=");
    if starts_with_chars(&t, &us) || starts_with_chars(&t, &ms) {
        let rest = subvec(&t, 12, t.len());
        assert(rest@ =~= t@.skip(12));
        let v = trim_chars(&rest);
        return Some(ProgressValue::Micros(string_of(&v)));
    }
    if starts_with_chars(&t, &tc) {
        let rest = subvec(&t, 9, t.len());
        assert(rest@ =~= t@.skip(9));
        let v = trim_chars(&rest);
        return Some(ProgressValue::Timecode(string_of(&v)));
    }
    None
}

} // verus!
