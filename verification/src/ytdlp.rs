//! The text that goes to and comes from yt-dlp: the Netscape cookies file
//! built from a `Cookie:` header, and the percentage text of a progress line.
use vstd::prelude::*;

use crate::text::{
    chars_of, find_char, find_char_index, has_prefix, push_chars, split_char, split_chars,
    starts_with_chars, strip_leading, strip_leading_chars, strip_trailing, strip_trailing_chars,
    subvec, trim, trim_chars, views,
};

verus! {

/// The first line of a Netscape cookies file.
pub open spec fn netscape_header() -> Seq<char> {
    "# Netscape HTTP Cookie File\n"@
}

/// The fixed columns in front of a cookie's name: domain `.nicovideo.jp`
/// with subdomains, path `/`, secure, expiry 2147483647.
pub open spec fn netscape_prefix() -> Seq<char> {
    ".nicovideo.jp\tTRUE\t/\tTRUE\t2147483647\t"@
}

/// The line for one `name=value` piece of a `Cookie:` header: the piece is
/// trimmed, split at its first `=`, and name and value are trimmed.  A piece
/// without `=` or with an empty name gives no line.
pub open spec fn cookie_entry(piece: Seq<char>) -> Seq<char> {
    let kv = trim(piece);
    match find_char(kv, '=') {
        None => Seq::empty(),
        Some(i) => {
            let k = trim(kv.take(i));
            let v = trim(kv.skip(i + 1));
            if k.len() == 0 {
                Seq::empty()
            } else {
                netscape_prefix() + k + "\t"@ + v + "\n"@
            }
        },
    }
}

/// The cookies file for a `Cookie:` header: the header line, then one line
/// per valid piece, in the order of the pieces.
pub open spec fn spec_netscape_cookies(cookie_header: Seq<char>) -> Seq<char> {
    netscape_header() + split_char(cookie_header, ';').map_values(
        |p: Seq<char>| cookie_entry(p),
    ).flatten_alt()
}

fn push_cookie_entry(out: &mut String, piece: &[char])
    ensures
        final(out)@ == old(out)@ + cookie_entry(piece@),
{
    let kv = trim_chars(piece);
    match find_char_index(&kv, '=') {
        None => {
            assert(old(out)@ + Seq::<char>::empty() =~= old(out)@);
        },
        Some(i) => {
            let kpart = subvec(&kv, 0, i);
            let vpart = subvec(&kv, i + 1, kv.len());
            assert(kpart@ =~= kv@.take(i as int));
            assert(vpart@ =~= kv@.skip(i + 1));
            let k = trim_chars(&kpart);
            let v = trim_chars(&vpart);
            if k.len() == 0 {
                assert(old(out)@ + Seq::<char>::empty() =~= old(out)@);
            } else {
                out.push_str(".nicovideo.jp\tTRUE\t/\tTRUE\t2147483647\t");
                push_chars(out, &k);
                out.push_str("\t");
                push_chars(out, &v);
                out.push_str("\n");
                assert(final(out)@ =~= old(out)@ + cookie_entry(piece@)) by {
                    assert(out@ =~= old(out)@ + (netscape_prefix() + k@ + "\t"@ + v@ + "\n"@));
                }
            }
        },
    }
}

/// A Netscape-format cookies file (what `yt-dlp --cookies` reads) from a
/// `Cookie:` header such as `user_session=xxx; foo=bar`, every cookie
/// scoped to `.nicovideo.jp`.
pub fn build_netscape_cookies(cookie_header: &str) -> (s: String)
    ensures
        s@ == spec_netscape_cookies(cookie_header@),
{
    let mut out = String::new();
    out.push_str("# Netscape HTTP Cookie File\n");
    let chars = chars_of(cookie_header);
    let pieces = split_chars(&chars, ';');
    let ghost ps = views(pieces@);
    let ghost entries = ps.map_values(|p: Seq<char>| cookie_entry(p));
    let mut i: usize = 0;
    assert(entries.take(0).flatten_alt() =~= Seq::<char>::empty());
    assert(out@ =~= netscape_header() + entries.take(0).flatten_alt());
    while i < pieces.len()
        invariant
            i <= pieces.len(),
            ps == views(pieces@),
            ps == split_char(cookie_header@, ';'),
            entries == ps.map_values(|p: Seq<char>| cookie_entry(p)),
            out@ == netscape_header() + entries.take(i as int).flatten_alt(),
        decreases pieces.len() - i,
    {
        let ghost before = out@;
        push_cookie_entry(&mut out, &pieces[i]);
        proof {
            let t = entries.take(i + 1);
            assert(t.drop_last() =~= entries.take(i as int));
            assert(t.last() == cookie_entry(ps[i as int]));
            assert(out@ =~= netscape_header() + t.flatten_alt());
        }
        i += 1;
    }
    assert(entries.take(pieces.len() as int) =~= entries);
    out
}

/// The number text of a yt-dlp progress line, which the caller reads as a
/// percentage.  `nndd-progress:<n>%` (the template this client asks for)
/// gives `<n>` with spaces and trailing `%` removed; `[download]  <n>% of ...`
/// gives what stands before the first `%`, without the `[download]` tag and
/// spaces.  Any other line gives `None`.
pub open spec fn spec_progress_text(line: Seq<char>) -> Option<Seq<char>> {
    let tag = "nndd-progress:"@;
    if has_prefix(line, tag) {
        Some(trim(strip_trailing(trim(line.skip(tag.len() as int)), '%')))
    } else if has_prefix(line, "[download]"@) {
        match find_char(line, '%') {
            Some(idx) => Some(trim(strip_leading(line.take(idx), "[download]"@))),
            None => None,
        }
    } else {
        None
    }
}

pub fn progress_text(line: &str) -> (r: Option<String>)
    ensures
        match r {
            Some(t) => spec_progress_text(line@) == Some(t@),
            None => spec_progress_text(line@) is None,
        },
{
    let l = chars_of(line);
    let tag = chars_of("nndd-progress:");
    let dl = chars_of("[download]");
    if starts_with_chars(&l, &tag) {
        let rest = subvec(&l, tag.len(), l.len());
        assert(rest@ =~= l@.skip(tag@.len() as int));
        let t1 = trim_chars(&rest);
        let t2 = strip_trailing_chars(&t1, '%');
        let t3 = trim_chars(&t2);
        let mut s = String::new();
        push_chars(&mut s, &t3);
        assert(s@ =~= t3@);
        return Some(s);
    }
    if starts_with_chars(&l, &dl) {
        match find_char_index(&l, '%') {
            Some(idx) => {
                let head = subvec(&l, 0, idx);
                assert(head@ =~= l@.take(idx as int));
                let h1 = strip_leading_chars(&head, &dl);
                let h2 = trim_chars(&h1);
                let mut s = String::new();
                push_chars(&mut s, &h2);
                assert(s@ =~= h2@);
                Some(s)
            },
            None => None,
        }
    } else {
        None
    }
}


/// The error text when yt-dlp exits unsuccessfully: its exit code (-1 when
/// killed by a signal) and the first 40 non-empty lines of its stderr.
pub open spec fn spec_failure_message(code: Option<i32>, stderr: Seq<char>) -> Seq<char> {
    "yt-dlp failed (exit "@ + crate::text::dec_int(
        match code {
            Some(c) => c as int,
            None => -1,
        },
    ) + "):\n"@ + crate::text::join_first(crate::text::nonempty_lines(stderr), 40, "\n"@)
}

pub fn failure_message(code: Option<i32>, stderr: &str) -> (s: String)
    ensures
        s@ == spec_failure_message(code, stderr@),
{
    let c: i64 = match code {
        Some(c) => c as i64,
        None => -1,
    };
    let mut s = String::new();
    s.push_str("yt-dlp failed (exit ");
    crate::text::push_dec_i64(&mut s, c);
    s.push_str("):\n");
    let body = crate::text::first_nonempty_lines(stderr, 40);
    s.push_str(body.as_str());
    s
}

} // verus!
