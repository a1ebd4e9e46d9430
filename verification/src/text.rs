//! Character-level text utilities shared by the parsers and formatters.
//!
//! Strings are modelled by their `Seq<char>` view.  The spec functions here
//! describe the std behaviours the library relies on (`char::is_whitespace`,
//! `str::trim`, `str::split`, decimal and hexadecimal formatting) and the
//! executable functions implement them with proofs.
use vstd::prelude::*;

verus! {

/// `String::push` appends one character at the end (std documentation).
pub assume_specification[ String::push ](s: &mut String, ch: char)
    ensures
        final(s)@ == old(s)@.push(ch),
;

/// `String::push_str` appends the characters of `t` at the end (std documentation).
pub assume_specification[ String::push_str ](s: &mut String, t: &str)
    ensures
        final(s)@ == old(s)@ + t@,
;

// ---------------------------------------------------------------------------
// Character classes
// ---------------------------------------------------------------------------

/// Unicode `White_Space`, which is what `char::is_whitespace` tests.
pub open spec fn is_ws(c: char) -> bool {
    let u = c as u32;
    ||| 9 <= u <= 13
    ||| u == 32
    ||| u == 0x85
    ||| u == 0xA0
    ||| u == 0x1680
    ||| 0x2000 <= u <= 0x200A
    ||| u == 0x2028
    ||| u == 0x2029
    ||| u == 0x202F
    ||| u == 0x205F
    ||| u == 0x3000
}

pub fn is_whitespace(c: char) -> (b: bool)
    ensures
        b == is_ws(c),
{
    let u = c as u32;
    (9 <= u && u <= 13) || u == 32 || u == 0x85 || u == 0xA0 || u == 0x1680 || (0x2000 <= u && u
        <= 0x200A) || u == 0x2028 || u == 0x2029 || u == 0x202F || u == 0x205F || u == 0x3000
}

pub open spec fn is_digit(c: char) -> bool {
    48 <= c as u32 <= 57
}

pub open spec fn is_upper(c: char) -> bool {
    65 <= c as u32 <= 90
}

pub open spec fn is_lower(c: char) -> bool {
    97 <= c as u32 <= 122
}

pub open spec fn is_alnum(c: char) -> bool {
    is_digit(c) || is_upper(c) || is_lower(c)
}

pub fn is_ascii_alnum(c: char) -> (b: bool)
    ensures
        b == is_alnum(c),
{
    let u = c as u32;
    (48 <= u && u <= 57) || (65 <= u && u <= 90) || (97 <= u && u <= 122)
}

/// `char::to_ascii_lowercase`: `A`..`Z` become `a`..`z`, everything else is kept.
pub open spec fn to_lower(c: char) -> char {
    if is_upper(c) {
        ((c as u32 + 32) as u8) as char
    } else {
        c
    }
}

pub open spec fn lower_seq(s: Seq<char>) -> Seq<char> {
    s.map_values(|c: char| to_lower(c))
}

/// Lowercasing twice is lowercasing once; whitespace and digit values are
/// left alone.
pub proof fn lemma_to_lower(c: char)
    ensures
        to_lower(to_lower(c)) == to_lower(c),
        is_ws(to_lower(c)) == is_ws(c),
        digit_value(to_lower(c)) == digit_value(c),
        (to_lower(c) == '+') == (c == '+'),
        (to_lower(c) == '#') == (c == '#'),
        (to_lower(c) as u32) < 0x80 <==> (c as u32) < 0x80,
        (to_lower(c) as u32) < 0x800 <==> (c as u32) < 0x800,
        (to_lower(c) as u32) < 0x10000 <==> (c as u32) < 0x10000,
{
    if is_upper(c) {
        let u = c as u32;
        assert(((u + 32) as u8) as u32 == u + 32);
        assert((((u + 32) as u8) as char) as u32 == u + 32);
    }
}

pub proof fn lemma_lower_seq_idem(s: Seq<char>)
    ensures
        lower_seq(lower_seq(s)) == lower_seq(s),
{
    assert forall|i: int| 0 <= i < s.len() implies #[trigger] lower_seq(lower_seq(s))[i]
        == lower_seq(s)[i] by {
        lemma_to_lower(s[i]);
    }
    assert(lower_seq(lower_seq(s)) =~= lower_seq(s));
}

pub fn ascii_lower(c: char) -> (r: char)
    ensures
        r == to_lower(c),
{
    let u = c as u32;
    if 65 <= u && u <= 90 {
        ((u + 32) as u8) as char
    } else {
        c
    }
}

pub fn lower_chars(s: &Vec<char>) -> (r: Vec<char>)
    ensures
        r@ == lower_seq(s@),
{
    let mut r: Vec<char> = Vec::new();
    let mut i: usize = 0;
    while i < s.len()
        invariant
            i <= s.len(),
            r@ == lower_seq(s@.take(i as int)),
        decreases s.len() - i,
    {
        let c = ascii_lower(s[i]);
        r.push(c);
        i += 1;
        assert(lower_seq(s@.take(i as int)) =~= lower_seq(s@.take(i - 1)).push(c));
    }
    assert(s@.take(s.len() as int) =~= s@);
    r
}

// ---------------------------------------------------------------------------
// Conversions between `str` / `String` and `Vec<char>`
// ---------------------------------------------------------------------------

pub fn chars_of(s: &str) -> (v: Vec<char>)
    ensures
        v@ == s@,
{
    let mut v: Vec<char> = Vec::new();
    for c in it: s.chars()
        invariant
            v@ == it.seq().take(it.index() as int),
    {
        v.push(c);
    }
    v
}

pub fn push_chars(out: &mut String, v: &[char])
    ensures
        final(out)@ == old(out)@ + v@,
{
    let mut i: usize = 0;
    while i < v.len()
        invariant
            i <= v.len(),
            out@ == old(out)@ + v@.take(i as int),
        decreases v.len() - i,
    {
        out.push(v[i]);
        i += 1;
        assert(v@.take(i as int) =~= v@.take(i - 1).push(v@[i - 1]));
    }
    assert(v@.take(v.len() as int) =~= v@);
}

pub fn string_from(v: &[char]) -> (s: String)
    ensures
        s@ == v@,
{
    let mut s = String::new();
    push_chars(&mut s, v);
    s
}

pub fn str_eq(a: &str, b: &str) -> (r: bool)
    ensures
        r == (a@ == b@),
{
    let x = chars_of(a);
    let y = chars_of(b);
    chars_eq(&x, &y)
}

pub fn chars_eq(x: &[char], y: &[char]) -> (r: bool)
    ensures
        r == (x@ == y@),
{
    if x.len() != y.len() {
        return false;
    }
    let mut i: usize = 0;
    while i < x.len()
        invariant
            i <= x.len(),
            x.len() == y.len(),
            forall|k: int| 0 <= k < i ==> x@[k] == y@[k],
        decreases x.len() - i,
    {
        if x[i] != y[i] {
            return false;
        }
        i += 1;
    }
    assert(x@ =~= y@);
    true
}

// ---------------------------------------------------------------------------
// Decimal and hexadecimal formatting
// ---------------------------------------------------------------------------

pub open spec fn dec_digit(d: nat) -> char {
    ((d % 10 + 48) as u8) as char
}

/// Decimal representation of a natural number, as `Display` writes it.
pub open spec fn dec(n: nat) -> Seq<char>
    decreases n,
{
    if n < 10 {
        seq![dec_digit(n)]
    } else {
        dec(n / 10).push(dec_digit(n % 10))
    }
}

/// Decimal representation of an integer, with a leading `-` when negative.
pub open spec fn dec_int(n: int) -> Seq<char> {
    if n < 0 {
        seq!['-'] + dec((-n) as nat)
    } else {
        dec(n as nat)
    }
}

pub fn push_dec(s: &mut String, n: u64)
    ensures
        final(s)@ == old(s)@ + dec(n as nat),
    decreases n,
{
    if n >= 10 {
        push_dec(s, n / 10);
    }
    let d = ((n % 10) as u8 + 48u8) as char;
    s.push(d);
    assert(dec(n as nat) == if n < 10 {
        seq![dec_digit(n as nat)]
    } else {
        dec((n / 10) as nat).push(dec_digit((n % 10) as nat))
    });
}

pub fn push_dec_i64(s: &mut String, n: i64)
    ensures
        final(s)@ == old(s)@ + dec_int(n as int),
{
    if n < 0 {
        s.push('-');
        let m: u64 = if n == i64::MIN {
            9223372036854775808u64
        } else {
            (-n) as u64
        };
        push_dec(s, m);
    } else {
        push_dec(s, n as u64);
    }
}

pub open spec fn hex_upper(d: nat) -> char {
    if d < 10 {
        ((d + 48) as u8) as char
    } else {
        ((d + 55) as u8) as char
    }
}

/// Two upper-case hexadecimal digits, as `{:02X}` writes a value below 256.
pub open spec fn hex2(b: nat) -> Seq<char> {
    seq![hex_upper(b / 16), hex_upper(b % 16)]
}

pub fn push_hex2(s: &mut String, b: u32)
    requires
        b < 256,
    ensures
        final(s)@ == old(s)@ + hex2(b as nat),
{
    let hi = b / 16;
    let lo = b % 16;
    let c1 = if hi < 10 {
        (hi as u8 + 48u8) as char
    } else {
        (hi as u8 + 55u8) as char
    };
    let c2 = if lo < 10 {
        (lo as u8 + 48u8) as char
    } else {
        (lo as u8 + 55u8) as char
    };
    s.push(c1);
    s.push(c2);
    assert(old(s)@ + hex2(b as nat) =~= old(s)@.push(c1).push(c2));
}

// ---------------------------------------------------------------------------
// Digit strings
// ---------------------------------------------------------------------------

/// Value of a digit character in radix 36 (`char::to_digit` without the bound).
pub open spec fn digit_value(c: char) -> nat {
    let u = c as u32;
    if 48 <= u <= 57 {
        (u - 48) as nat
    } else if 97 <= u <= 122 {
        (u - 87) as nat
    } else if 65 <= u <= 90 {
        (u - 55) as nat
    } else {
        36
    }
}

pub open spec fn is_radix_digit(c: char, radix: nat) -> bool {
    digit_value(c) < radix
}

pub open spec fn all_radix_digits(s: Seq<char>, radix: nat) -> bool {
    forall|i: int| 0 <= i < s.len() ==> is_radix_digit(#[trigger] s[i], radix)
}

pub open spec fn radix_value(s: Seq<char>, radix: nat) -> nat
    decreases s.len(),
{
    if s.len() == 0 {
        0
    } else {
        radix_value(s.drop_last(), radix) * radix + digit_value(s.last())
    }
}

/// The digits of an unsigned number as `str::parse` reads it: the text
/// after an optional leading `+`.
pub open spec fn unsigned_digits(s: Seq<char>) -> Seq<char> {
    if s.len() > 0 && s[0] == '+' {
        s.drop_first()
    } else {
        s
    }
}

proof fn lemma_radix_value_lower(s: Seq<char>, radix: nat)
    ensures
        radix_value(lower_seq(s), radix) == radix_value(s, radix),
    decreases s.len(),
{
    if s.len() > 0 {
        lemma_radix_value_lower(s.drop_last(), radix);
        assert(lower_seq(s).drop_last() =~= lower_seq(s.drop_last()));
        lemma_to_lower(s.last());
    }
}

/// Lowercasing keeps which characters are digits of a radix and the value
/// they spell.
pub proof fn lemma_radix_lower(s: Seq<char>, radix: nat)
    ensures
        all_radix_digits(lower_seq(s), radix) == all_radix_digits(s, radix),
        radix_value(lower_seq(s), radix) == radix_value(s, radix),
{
    let l = lower_seq(s);
    lemma_radix_value_lower(s, radix);
    assert forall|i: int| 0 <= i < s.len() implies is_radix_digit(#[trigger] l[i], radix)
        == is_radix_digit(s[i], radix) by {
        lemma_to_lower(s[i]);
    }
    if all_radix_digits(s, radix) {
        assert forall|i: int| 0 <= i < l.len() implies is_radix_digit(#[trigger] l[i], radix) by {
            assert(is_radix_digit(s[i], radix));
        }
    }
    if all_radix_digits(l, radix) {
        assert forall|i: int| 0 <= i < s.len() implies is_radix_digit(#[trigger] s[i], radix) by {
            assert(is_radix_digit(l[i], radix));
        }
    }
}

pub fn char_digit_value(c: char) -> (d: u32)
    ensures
        d == digit_value(c),
{
    let u = c as u32;
    if 48 <= u && u <= 57 {
        u - 48
    } else if 97 <= u && u <= 122 {
        u - 87
    } else if 65 <= u && u <= 90 {
        u - 55
    } else {
        36
    }
}

proof fn lemma_radix_value_mono(s: Seq<char>, radix: nat, i: int)
    requires
        0 <= i <= s.len(),
        radix >= 1,
    ensures
        radix_value(s.take(i), radix) <= radix_value(s, radix),
    decreases s.len(),
{
    if i < s.len() {
        lemma_radix_value_mono(s.drop_last(), radix, i);
        assert(s.drop_last().take(i) =~= s.take(i));
        let v = radix_value(s.drop_last(), radix);
        assert(v * radix >= v) by (nonlinear_arith)
            requires
                radix >= 1,
        ;
    } else {
        assert(s.take(i) =~= s);
    }
}


// ---------------------------------------------------------------------------
// Trimming
// ---------------------------------------------------------------------------

pub open spec fn trim_start(s: Seq<char>) -> Seq<char>
    decreases s.len(),
{
    if s.len() > 0 && is_ws(s[0]) {
        trim_start(s.drop_first())
    } else {
        s
    }
}

pub open spec fn trim_end(s: Seq<char>) -> Seq<char>
    decreases s.len(),
{
    if s.len() > 0 && is_ws(s.last()) {
        trim_end(s.drop_last())
    } else {
        s
    }
}

/// `str::trim`: leading and trailing whitespace removed.
pub open spec fn trim(s: Seq<char>) -> Seq<char> {
    trim_end(trim_start(s))
}

proof fn lemma_trim_start_skip(s: Seq<char>, i: int)
    requires
        0 <= i <= s.len(),
        forall|k: int| 0 <= k < i ==> is_ws(#[trigger] s[k]),
    ensures
        trim_start(s) == trim_start(s.skip(i)),
    decreases i,
{
    if i == 0 {
        assert(s.skip(0) =~= s);
    } else {
        assert(is_ws(s[0]));
        lemma_trim_start_skip(s.drop_first(), i - 1);
        assert(s.drop_first().skip(i - 1) =~= s.skip(i));
    }
}

proof fn lemma_trim_end_take(s: Seq<char>, j: int)
    requires
        0 <= j <= s.len(),
        forall|k: int| j <= k < s.len() ==> is_ws(#[trigger] s[k]),
    ensures
        trim_end(s) == trim_end(s.take(j)),
    decreases s.len() - j,
{
    if j == s.len() {
        assert(s.take(j) =~= s);
    } else {
        assert(is_ws(s.last()));
        lemma_trim_end_take(s.drop_last(), j);
        assert(s.drop_last().take(j) =~= s.take(j));
    }
}

proof fn lemma_trim_start_lower(s: Seq<char>)
    ensures
        trim_start(lower_seq(s)) == lower_seq(trim_start(s)),
    decreases s.len(),
{
    if s.len() > 0 {
        lemma_to_lower(s[0]);
        assert(lower_seq(s).drop_first() =~= lower_seq(s.drop_first()));
        lemma_trim_start_lower(s.drop_first());
    }
}

proof fn lemma_trim_end_lower(s: Seq<char>)
    ensures
        trim_end(lower_seq(s)) == lower_seq(trim_end(s)),
    decreases s.len(),
{
    if s.len() > 0 {
        lemma_to_lower(s.last());
        assert(lower_seq(s).drop_last() =~= lower_seq(s.drop_last()));
        lemma_trim_end_lower(s.drop_last());
    }
}

/// Trimming and ASCII lowercasing commute.
pub proof fn lemma_trim_lower(s: Seq<char>)
    ensures
        trim(lower_seq(s)) == lower_seq(trim(s)),
{
    lemma_trim_start_lower(s);
    lemma_trim_end_lower(trim_start(s));
}

/// `str::trim_start`.
pub fn trim_start_chars(s: &[char]) -> (r: Vec<char>)
    ensures
        r@ == trim_start(s@),
{
    let mut i: usize = 0;
    while i < s.len() && is_whitespace(s[i])
        invariant
            i <= s.len(),
            forall|k: int| 0 <= k < i ==> is_ws(#[trigger] s@[k]),
        decreases s.len() - i,
    {
        i += 1;
    }
    proof {
        lemma_trim_start_skip(s@, i as int);
    }
    let r = subvec(s, i, s.len());
    assert(r@ =~= s@.skip(i as int));
    r
}

pub fn trim_chars(s: &[char]) -> (r: Vec<char>)
    ensures
        r@ == trim(s@),
{
    let mut i: usize = 0;
    while i < s.len() && is_whitespace(s[i])
        invariant
            i <= s.len(),
            forall|k: int| 0 <= k < i ==> is_ws(#[trigger] s@[k]),
        decreases s.len() - i,
    {
        i += 1;
    }
    proof {
        lemma_trim_start_skip(s@, i as int);
    }
    let ghost t = s@.skip(i as int);
    assert(trim_start(s@) == t);
    let mut j: usize = s.len();
    while j > i && is_whitespace(s[j - 1])
        invariant
            i <= j <= s.len(),
            forall|k: int| j <= k < s.len() ==> is_ws(#[trigger] s@[k]),
        decreases j,
    {
        j -= 1;
    }
    proof {
        assert forall|k: int| j - i <= k < t.len() implies is_ws(#[trigger] t[k]) by {
            assert(t[k] == s@[k + i]);
        }
        lemma_trim_end_take(t, j - i);
        let u = t.take(j - i);
        if u.len() > 0 {
            assert(u.last() == s@[j - 1]);
        }
        assert(trim_end(u) == u);
    }
    let mut r: Vec<char> = Vec::new();
    let mut k: usize = i;
    while k < j
        invariant
            i <= k <= j,
            j <= s.len(),
            r@ == s@.subrange(i as int, k as int),
        decreases j - k,
    {
        r.push(s[k]);
        k += 1;
        assert(r@ =~= s@.subrange(i as int, k as int));
    }
    assert(r@ =~= t.take(j - i));
    r
}

// ---------------------------------------------------------------------------
// Splitting and joining
// ---------------------------------------------------------------------------

/// `str::split(sep)` for a single character: always at least one piece.
pub open spec fn split_char(s: Seq<char>, sep: char) -> Seq<Seq<char>>
    decreases s.len(),
{
    if s.len() == 0 {
        seq![Seq::<char>::empty()]
    } else {
        let p = split_char(s.drop_last(), sep);
        if s.last() == sep {
            p.push(Seq::<char>::empty())
        } else {
            p.update(p.len() - 1, p.last().push(s.last()))
        }
    }
}

pub proof fn lemma_split_char_nonempty(s: Seq<char>, sep: char)
    ensures
        split_char(s, sep).len() >= 1,
    decreases s.len(),
{
    if s.len() > 0 {
        lemma_split_char_nonempty(s.drop_last(), sep);
    }
}

pub open spec fn views(v: Seq<Vec<char>>) -> Seq<Seq<char>> {
    v.map_values(|x: Vec<char>| x@)
}

pub fn split_chars(s: &[char], sep: char) -> (r: Vec<Vec<char>>)
    ensures
        views(r@) == split_char(s@, sep),
{
    let mut done: Vec<Vec<char>> = Vec::new();
    let mut cur: Vec<char> = Vec::new();
    let mut i: usize = 0;
    assert(s@.take(0) =~= Seq::<char>::empty());
    while i < s.len()
        invariant
            i <= s.len(),
            views(done@).push(cur@) == split_char(s@.take(i as int), sep),
        decreases s.len() - i,
    {
        let c = s[i];
        let ghost before = s@.take(i as int);
        proof {
            lemma_split_char_nonempty(before, sep);
        }
        assert(s@.take(i + 1).drop_last() =~= before);
        if c == sep {
            let finished = cur;
            done.push(finished);
            cur = Vec::new();
            assert(views(done@).push(cur@) =~= split_char(before, sep).push(Seq::<char>::empty()));
        } else {
            cur.push(c);
            let ghost p = split_char(before, sep);
            assert(views(done@).push(cur@) =~= p.update(p.len() - 1, p.last().push(c)));
        }
        i += 1;
    }
    assert(s@.take(s.len() as int) =~= s@);
    done.push(cur);
    assert(views(done@) =~= split_char(s@, sep));
    done
}

/// `slice.join(sep)` on character sequences.
pub open spec fn join(parts: Seq<Seq<char>>, sep: Seq<char>) -> Seq<char>
    decreases parts.len(),
{
    if parts.len() == 0 {
        Seq::<char>::empty()
    } else if parts.len() == 1 {
        parts[0]
    } else {
        join(parts.drop_last(), sep) + sep + parts.last()
    }
}

/// Index of the first occurrence of `c` in `s`, if any.
pub open spec fn find_char(s: Seq<char>, c: char) -> Option<int> {
    if exists|i: int| 0 <= i < s.len() && s[i] == c {
        Some(choose|i: int| 0 <= i < s.len() && s[i] == c && forall|k: int| 0 <= k < i ==> s[k] != c)
    } else {
        None
    }
}

pub fn find_char_index(s: &[char], c: char) -> (r: Option<usize>)
    ensures
        match r {
            Some(i) => i < s.len() && s@[i as int] == c && forall|k: int| 0 <= k < i ==> s@[k] != c,
            None => forall|k: int| 0 <= k < s.len() ==> s@[k] != c,
        },
        r matches Some(i) ==> find_char(s@, c) == Some(i as int),
        r is None ==> find_char(s@, c) is None,
{
    let mut i: usize = 0;
    while i < s.len()
        invariant
            i <= s.len(),
            forall|k: int| 0 <= k < i ==> s@[k] != c,
        decreases s.len() - i,
    {
        if s[i] == c {
            proof {
                let w = choose|j: int| 0 <= j < s@.len() && s@[j] == c && forall|k: int| 0 <= k < j ==> s@[k] != c;
                assert(0 <= i < s@.len() && s@[i as int] == c && forall|k: int| 0 <= k < i ==> s@[k] != c);
                if w < i {
                } else if w > i {
                    assert(s@[i as int] != c);
                }
            }
            return Some(i);
        }
        i += 1;
    }
    None
}

pub fn subvec(s: &[char], from: usize, to: usize) -> (r: Vec<char>)
    requires
        from <= to <= s.len(),
    ensures
        r@ == s@.subrange(from as int, to as int),
{
    let mut r: Vec<char> = Vec::new();
    let mut k: usize = from;
    while k < to
        invariant
            from <= k <= to,
            to <= s.len(),
            r@ == s@.subrange(from as int, k as int),
        decreases to - k,
    {
        r.push(s[k]);
        k += 1;
        assert(r@ =~= s@.subrange(from as int, k as int));
    }
    r
}


/// `starts_with` on character sequences.
pub open spec fn has_prefix(s: Seq<char>, p: Seq<char>) -> bool {
    p.len() <= s.len() && s.take(p.len() as int) == p
}

pub fn starts_with_chars(s: &[char], p: &[char]) -> (r: bool)
    ensures
        r == has_prefix(s@, p@),
{
    if p.len() > s.len() {
        return false;
    }
    let mut i: usize = 0;
    while i < p.len()
        invariant
            i <= p.len(),
            p.len() <= s.len(),
            forall|k: int| 0 <= k < i ==> s@[k] == p@[k],
        decreases p.len() - i,
    {
        if s[i] != p[i] {
            assert(s@.take(p.len() as int)[i as int] != p@[i as int]);
            return false;
        }
        i += 1;
    }
    assert(s@.take(p.len() as int) =~= p@);
    true
}

/// `trim_end_matches(c)`: every trailing `c` removed.
pub open spec fn strip_trailing(s: Seq<char>, c: char) -> Seq<char>
    decreases s.len(),
{
    if s.len() > 0 && s.last() == c {
        strip_trailing(s.drop_last(), c)
    } else {
        s
    }
}

pub fn strip_trailing_chars(s: &[char], c: char) -> (r: Vec<char>)
    ensures
        r@ == strip_trailing(s@, c),
{
    let mut j: usize = s.len();
    assert(s@.take(j as int) =~= s@);
    while j > 0 && s[j - 1] == c
        invariant
            j <= s.len(),
            strip_trailing(s@.take(j as int), c) == strip_trailing(s@, c),
        decreases j,
    {
        assert(s@.take(j as int).drop_last() =~= s@.take(j - 1));
        j -= 1;
    }
    subvec(s, 0, j)
}

/// `trim_start_matches(p)`: every leading copy of `p` removed.
pub open spec fn strip_leading(s: Seq<char>, p: Seq<char>) -> Seq<char>
    decreases s.len(),
{
    if p.len() > 0 && has_prefix(s, p) {
        strip_leading(s.skip(p.len() as int), p)
    } else {
        s
    }
}

pub fn strip_leading_chars(s: &[char], p: &[char]) -> (r: Vec<char>)
    ensures
        r@ == strip_leading(s@, p@),
{
    if p.len() == 0 {
        return subvec(s, 0, s.len());
    }
    let mut i: usize = 0;
    let mut rest = subvec(s, 0, s.len());
    assert(s@.skip(0) =~= s@);
    while starts_with_chars(&rest, p)
        invariant
            p.len() > 0,
            i <= s.len(),
            rest@ == s@.skip(i as int),
            strip_leading(s@.skip(i as int), p@) == strip_leading(s@, p@),
        decreases s.len() - i,
    {
        let ghost before = s@.skip(i as int);
        rest = subvec(s, i + p.len(), s.len());
        assert(before.skip(p.len() as int) =~= s@.skip(i + p.len()));
        i = i + p.len();
    }
    rest
}


// ---------------------------------------------------------------------------
// std formatting and decoding
// ---------------------------------------------------------------------------

/// `String::from_utf8_lossy` decodes `bytes`, replacing each invalid sequence
/// by U+FFFD; its result depends on the bytes alone.
pub uninterp spec fn spec_utf8_lossy(bytes: Seq<u8>) -> Seq<char>;

/// `<str as Debug>::fmt`: the text between double quotes, with escapes; its
/// result depends on the text alone.
pub uninterp spec fn spec_debug_str(s: Seq<char>) -> Seq<char>;

/// Calls `String::from_utf8_lossy`.  Claimed: the result is the name
/// `spec_utf8_lossy` of the bytes, and valid UTF-8 decodes exactly, as the std
/// documentation states.
#[verifier::external_body]
pub(crate) fn utf8_lossy(bytes: &[u8]) -> (s: String)
    ensures
        s@ == spec_utf8_lossy(bytes@),
        vstd::utf8::valid_utf8(bytes@) ==> s@ == vstd::utf8::decode_utf8(bytes@),
{
    String::from_utf8_lossy(bytes).into_owned()
}

/// Formats `s` with `{:?}`.  Claimed: the result is the name `spec_debug_str`
/// of the text; nothing else is stated of the escaping.
#[verifier::external_body]
pub(crate) fn debug_str(s: &str) -> (r: String)
    ensures
        r@ == spec_debug_str(s@),
{
    format!("{:?}", s)
}


// ---------------------------------------------------------------------------
// Signed decimal parsing
// ---------------------------------------------------------------------------

/// `str::parse::<i64>`: an optional `+` or `-`, one or more decimal digits,
/// and a value in the range of `i64`.
pub open spec fn parse_i64(s: Seq<char>) -> Option<i64> {
    if s.len() > 0 && s[0] == '-' {
        let d = s.drop_first();
        if d.len() > 0 && all_radix_digits(d, 10) && radix_value(d, 10) <= 0x8000_0000_0000_0000 {
            Some((-(radix_value(d, 10) as int)) as i64)
        } else {
            None
        }
    } else {
        let d = unsigned_digits(s);
        if d.len() > 0 && all_radix_digits(d, 10) && radix_value(d, 10) <= i64::MAX {
            Some(radix_value(d, 10) as i64)
        } else {
            None
        }
    }
}

/// The value of the decimal digits `s[start..]` when they are one or more
/// digits worth at most `cap`.
fn dec_digits_upto(s: &[char], start: usize, cap: u64) -> (r: Option<u64>)
    requires
        start <= s.len(),
    ensures
        ({
            let d = s@.skip(start as int);
            match r {
                Some(v) => d.len() > 0 && all_radix_digits(d, 10) && radix_value(d, 10) <= cap
                    && v == radix_value(d, 10),
                None => !(d.len() > 0 && all_radix_digits(d, 10) && radix_value(d, 10) <= cap),
            }
        }),
{
    let ghost d = s@.skip(start as int);
    if start >= s.len() {
        return None;
    }
    let mut acc: u128 = 0;
    let mut i: usize = start;
    while i < s.len()
        invariant
            start <= i <= s.len(),
            start < s.len(),
            d == s@.skip(start as int),
            all_radix_digits(s@.subrange(start as int, i as int), 10),
            acc == radix_value(s@.subrange(start as int, i as int), 10),
            acc <= cap,
        decreases s.len() - i,
    {
        let dv = char_digit_value(s[i]);
        if dv >= 10 {
            proof {
                assert(d[i - start] == s@[i as int]);
                assert(!is_radix_digit(d[i - start], 10));
            }
            return None;
        }
        let ghost prev = s@.subrange(start as int, i as int);
        let ghost next = s@.subrange(start as int, i + 1);
        assert(next.drop_last() =~= prev);
        assert(all_radix_digits(next, 10));
        let nv: u128 = acc * 10 + dv as u128;
        if nv > cap as u128 {
            proof {
                lemma_radix_value_mono(d, 10, i + 1 - start);
                assert(d.take(i + 1 - start) =~= next);
            }
            return None;
        }
        acc = nv;
        i += 1;
    }
    assert(s@.subrange(start as int, s.len() as int) =~= d);
    Some(acc as u64)
}

pub fn parse_i64_chars(s: &[char]) -> (r: Option<i64>)
    ensures
        r == parse_i64(s@),
{
    if s.len() > 0 && s[0] == '-' {
        assert(s@.skip(1) =~= s@.drop_first());
        match dec_digits_upto(s, 1, 0x8000_0000_0000_0000) {
            Some(v) => {
                if v == 0x8000_0000_0000_0000 {
                    Some(i64::MIN)
                } else {
                    Some(-(v as i64))
                }
            },
            None => None,
        }
    } else {
        let start: usize = if s.len() > 0 && s[0] == '+' {
            1
        } else {
            0
        };
        assert(s@.skip(start as int) =~= unsigned_digits(s@));
        match dec_digits_upto(s, start, 0x7FFF_FFFF_FFFF_FFFF) {
            Some(v) => Some(v as i64),
            None => None,
        }
    }
}

// ---------------------------------------------------------------------------
// Lines and words
// ---------------------------------------------------------------------------

/// A line without the `\r` of a `\r\n` ending.
pub open spec fn strip_cr(l: Seq<char>) -> Seq<char> {
    if l.len() > 0 && l.last() == '\r' {
        l.drop_last()
    } else {
        l
    }
}

/// `str::lines`: split at `\n` (and `\r\n`); a final empty line is not one.
pub open spec fn lines(s: Seq<char>) -> Seq<Seq<char>> {
    let p = split_char(s, '\n');
    let body = p.drop_last().map_values(|l: Seq<char>| strip_cr(l));
    if p.last().len() == 0 {
        body
    } else {
        body.push(p.last())
    }
}

pub fn lines_of(s: &str) -> (r: Vec<Vec<char>>)
    ensures
        views(r@) == lines(s@),
{
    let chars = chars_of(s);
    let pieces = split_chars(&chars, '\n');
    proof {
        lemma_split_char_nonempty(s@, '\n');
    }
    let ghost p = views(pieces@);
    let n = pieces.len();
    let mut out: Vec<Vec<char>> = Vec::new();
    let mut i: usize = 0;
    while i + 1 < n
        invariant
            n == pieces.len(),
            n >= 1,
            i + 1 <= n,
            p == views(pieces@),
            views(out@) == p.take(i as int).map_values(|l: Seq<char>| strip_cr(l)),
        decreases n - i,
    {
        let piece = &pieces[i];
        let stripped = if piece.len() > 0 && piece[piece.len() - 1] == '\r' {
            subvec(piece, 0, piece.len() - 1)
        } else {
            subvec(piece, 0, piece.len())
        };
        assert(piece@ == p[i as int]);
        assert(stripped@ =~= strip_cr(p[i as int]));
        let ghost before = views(out@);
        out.push(stripped);
        assert(views(out@) =~= before.push(strip_cr(p[i as int])));
        assert(p.take(i + 1).map_values(|l: Seq<char>| strip_cr(l)) =~= p.take(i as int).map_values(
            |l: Seq<char>| strip_cr(l),
        ).push(strip_cr(p[i as int])));
        i += 1;
    }
    assert(p.take(i as int) =~= p.drop_last());
    let last = &pieces[n - 1];
    assert(last@ == p.last());
    if last.len() > 0 {
        let ghost before = views(out@);
        let lc = subvec(last, 0, last.len());
        assert(lc@ =~= last@);
        out.push(lc);
        assert(views(out@) =~= before.push(p.last()));
    }
    out
}

/// `str::split_whitespace`: the maximal runs of non-whitespace characters.
pub open spec fn words(s: Seq<char>) -> Seq<Seq<char>>
    decreases s.len(),
{
    if s.len() == 0 {
        Seq::empty()
    } else {
        let w = words(s.drop_last());
        if is_ws(s.last()) {
            w
        } else if s.len() >= 2 && !is_ws(s[s.len() - 2]) {
            w.update(w.len() - 1, w.last().push(s.last()))
        } else {
            w.push(seq![s.last()])
        }
    }
}

pub open spec fn string_views(v: Seq<String>) -> Seq<Seq<char>> {
    v.map_values(|s: String| s@)
}

pub fn split_whitespace_of(s: &str) -> (r: Vec<String>)
    ensures
        string_views(r@) == words(s@),
{
    let chars = chars_of(s);
    let mut done: Vec<String> = Vec::new();
    let mut cur: Vec<char> = Vec::new();
    let mut i: usize = 0;
    assert(chars@.take(0) =~= Seq::<char>::empty());
    while i < chars.len()
        invariant
            i <= chars.len(),
            chars@ == s@,
            words(chars@.take(i as int)) == string_views(done@) + (if cur@.len() > 0 {
                seq![cur@]
            } else {
                Seq::empty()
            }),
            cur@.len() > 0 <==> (i > 0 && !is_ws(chars@[i - 1])),
        decreases chars.len() - i,
    {
        let c = chars[i];
        let ghost t = chars@.take(i + 1);
        assert(t.drop_last() =~= chars@.take(i as int));
        assert(t.last() == c);
        if is_whitespace(c) {
            if cur.len() > 0 {
                let ghost before = string_views(done@);
                done.push(string_from(&cur));
                assert(string_views(done@) =~= before.push(cur@));
                cur = Vec::new();
                assert(words(t) =~= string_views(done@) + Seq::<Seq<char>>::empty());
            }
        } else {
            let ghost w = words(chars@.take(i as int));
            if cur.len() > 0 {
                assert(t[t.len() - 2] == chars@[i - 1]);
                cur.push(c);
                assert(words(t) =~= string_views(done@) + seq![cur@]);
            } else {
                if i > 0 {
                    assert(t[t.len() - 2] == chars@[i - 1]);
                }
                cur.push(c);
                assert(cur@ =~= seq![c]);
                assert(words(t) =~= string_views(done@) + seq![cur@]);
            }
        }
        i += 1;
    }
    assert(chars@.take(chars.len() as int) =~= chars@);
    if cur.len() > 0 {
        let ghost before = string_views(done@);
        done.push(string_from(&cur));
        assert(string_views(done@) =~= before.push(cur@));
    } else {
        assert(string_views(done@) + Seq::<Seq<char>>::empty() =~= string_views(done@));
    }
    done
}

/// The first `n` items of `parts` joined by `sep`.
pub open spec fn join_first(parts: Seq<Seq<char>>, n: nat, sep: Seq<char>) -> Seq<char> {
    join(parts.take(if n < parts.len() { n as int } else { parts.len() as int }), sep)
}

/// The first `n` lines of a text (`str::lines().take(n)`), joined by `\n`.
pub fn first_lines(s: &str, n: usize) -> (r: String)
    ensures
        r@ == join_first(lines(s@), n as nat, "\n"@),
{
    let ls = lines_of(s);
    let ghost lv = views(ls@);
    let k: usize = if n < ls.len() {
        n
    } else {
        ls.len()
    };
    let ghost parts = lv.take(k as int);
    let mut out = String::new();
    let mut i: usize = 0;
    assert(parts.take(0) =~= Seq::<Seq<char>>::empty());
    while i < k
        invariant
            i <= k,
            k <= ls.len(),
            lv == views(ls@),
            parts == lv.take(k as int),
            out@ == join(parts.take(i as int), "\n"@),
        decreases k - i,
    {
        let ghost p = parts.take(i + 1);
        assert(p.drop_last() =~= parts.take(i as int));
        assert(p.last() == ls@[i as int]@);
        if i > 0 {
            out.push_str("\n");
        }
        push_chars(&mut out, &ls[i]);
        proof {
            if i == 0 {
                assert(out@ =~= p[0]);
            } else {
                assert(out@ =~= join(parts.take(i as int), "\n"@) + "\n"@ + p.last());
            }
        }
        i += 1;
    }
    assert(parts.take(k as int) =~= parts);
    out
}


/// The first `n` characters (`chars().take(n).collect()`).
pub open spec fn prefix_chars(s: Seq<char>, n: nat) -> Seq<char> {
    if n < s.len() {
        s.take(n as int)
    } else {
        s
    }
}

pub fn take_chars(s: &str, n: usize) -> (r: String)
    ensures
        r@ == prefix_chars(s@, n as nat),
{
    let c = chars_of(s);
    let k: usize = if n < c.len() {
        n
    } else {
        c.len()
    };
    let t = subvec(&c, 0, k);
    assert(t@ =~= prefix_chars(s@, n as nat));
    string_from(&t)
}


/// The non-empty lines of a text, in order.
pub open spec fn nonempty_lines(s: Seq<char>) -> Seq<Seq<char>> {
    lines(s).filter(|l: Seq<char>| l.len() > 0)
}

/// The first `n` non-empty lines (`lines().filter(|l| !l.is_empty()).take(n)`),
/// joined by `\n`.
pub fn first_nonempty_lines(s: &str, n: usize) -> (r: String)
    ensures
        r@ == join_first(nonempty_lines(s@), n as nat, "\n"@),
{
    let ls = lines_of(s);
    let ghost lv = views(ls@);
    let mut kept: Vec<Vec<char>> = Vec::new();
    let mut i: usize = 0;
    assert(lv.take(0) =~= Seq::<Seq<char>>::empty());
    while i < ls.len()
        invariant
            i <= ls.len(),
            lv == views(ls@),
            views(kept@) == lv.take(i as int).filter(|l: Seq<char>| l.len() > 0),
        decreases ls.len() - i,
    {
        let ghost t = lv.take(i + 1);
        assert(t =~= lv.take(i as int).push(lv[i as int]));
        proof {
            lv.take(i as int).lemma_filter_push(lv[i as int], |l: Seq<char>| l.len() > 0);
        }
        if ls[i].len() > 0 {
            let ghost before = views(kept@);
            let c = subvec(&ls[i], 0, ls[i].len());
            assert(c@ =~= lv[i as int]);
            kept.push(c);
            assert(views(kept@) =~= before.push(lv[i as int]));
        }
        i += 1;
    }
    assert(lv.take(ls.len() as int) =~= lv);
    let ghost kv = views(kept@);
    let k: usize = if n < kept.len() {
        n
    } else {
        kept.len()
    };
    let ghost parts = kv.take(k as int);
    let mut out = String::new();
    let mut j: usize = 0;
    assert(parts.take(0) =~= Seq::<Seq<char>>::empty());
    while j < k
        invariant
            j <= k,
            k <= kept.len(),
            kv == views(kept@),
            parts == kv.take(k as int),
            out@ == join(parts.take(j as int), "\n"@),
        decreases k - j,
    {
        let ghost p = parts.take(j + 1);
        assert(p.drop_last() =~= parts.take(j as int));
        assert(p.last() == kept@[j as int]@);
        if j > 0 {
            out.push_str("\n");
        }
        push_chars(&mut out, &kept[j]);
        proof {
            if j == 0 {
                assert(out@ =~= p[0]);
            } else {
                assert(out@ =~= join(parts.take(j as int), "\n"@) + "\n"@ + p.last());
            }
        }
        j += 1;
    }
    assert(parts.take(k as int) =~= parts);
    out
}

} // verus!
