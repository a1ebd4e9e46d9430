//! The binary frames the WebView sends to a comment burn-in session:
//! `[u8 flag][u32 LE session id length][session id, UTF-8][payload...]`.
use vstd::prelude::*;

use vstd::utf8::{decode_utf8, encode_utf8, valid_utf8};

verus! {

broadcast use {vstd::utf8::encode_utf8_valid_utf8, vstd::utf8::encode_utf8_decode_utf8};

/// The payload is one rendered PNG frame.
pub const FLAG_FRAME: u8 = 0;

/// Repeat the registered transparent frame; no payload.
pub const FLAG_EMPTY: u8 = 1;

/// The payload is the transparent frame to register.
pub const FLAG_SET_EMPTY: u8 = 2;

/// Little-endian value of four bytes.
pub open spec fn le32(b0: u8, b1: u8, b2: u8, b3: u8) -> nat {
    b0 as nat + 256 * (b1 as nat) + 65536 * (b2 as nat) + 16777216 * (b3 as nat)
}

/// The four little-endian bytes of `n` (what `u32::to_le_bytes` gives).
pub open spec fn le32_bytes(n: u32) -> Seq<u8> {
    seq![(n % 256) as u8, ((n / 256) % 256) as u8, ((n / 65536) % 256) as u8, ((n / 16777216) % 256) as u8]
}

/// A frame split into flag, session id and payload; `None` when the body is
/// shorter than its header says or the session id is not UTF-8.
pub open spec fn spec_feed_frame(body: Seq<u8>) -> Option<(u8, Seq<char>, Seq<u8>)> {
    if body.len() < 5 {
        None
    } else {
        let end = 5 + le32(body[1], body[2], body[3], body[4]);
        if body.len() < end {
            None
        } else if !valid_utf8(body.subrange(5, end as int)) {
            None
        } else {
            Some((body[0], decode_utf8(body.subrange(5, end as int)), body.skip(end as int)))
        }
    }
}

/// How a frame is read: its first byte is the flag, the next four bytes
/// give the session id's length `n` with the lowest byte first, the next
/// `n` bytes are the session id in UTF-8 and the rest is the payload; a
/// body shorter than five bytes, or shorter than `5 + n`, or whose id is not
/// UTF-8, is no frame.
pub proof fn law_feed_frame_layout(body: Seq<u8>)
    ensures
        body.len() < 5 ==> spec_feed_frame(body) is None,
        body.len() >= 5 ==> ({
            let n = body[1] as int + 256 * body[2] as int + 65536 * body[3] as int + 16777216
                * body[4] as int;
            &&& body.len() < 5 + n ==> spec_feed_frame(body) is None
            &&& body.len() >= 5 + n && valid_utf8(body.subrange(5, 5 + n)) ==> spec_feed_frame(body)
                == Some((body[0], decode_utf8(body.subrange(5, 5 + n)), body.skip(5 + n)))
            &&& body.len() >= 5 + n && !valid_utf8(body.subrange(5, 5 + n)) ==> spec_feed_frame(
                body,
            ) is None
        }),
{
}

/// The frame that carries `flag`, session id `sid` and `payload`.
pub open spec fn encode_feed_frame(flag: u8, sid: Seq<char>, payload: Seq<u8>) -> Seq<u8> {
    seq![flag] + le32_bytes(encode_utf8(sid).len() as u32) + encode_utf8(sid) + payload
}

/// `std::str::from_utf8` followed by `to_string`: `Some` exactly when the
/// bytes are well-formed UTF-8, holding the text they encode (std documents
/// `from_utf8` as failing on invalid UTF-8 only and as borrowing the bytes as
/// they are).
#[verifier::external_body]
fn utf8_to_string(bytes: &[u8]) -> (r: Option<String>)
    ensures
        match r {
            Some(s) => valid_utf8(bytes@) && s@ == decode_utf8(bytes@),
            None => !valid_utf8(bytes@),
        },
{
    match std::str::from_utf8(bytes) {
        Ok(s) => Some(s.to_string()),
        Err(_) => None,
    }
}

/// Split a burn-in feed frame into `(flag, session id, payload)`.
pub fn parse_feed_frame(body: &[u8]) -> (r: Option<(u8, String, &[u8])>)
    ensures
        match r {
            Some((flag, sid, payload)) => spec_feed_frame(body@) == Some((flag, sid@, payload@)),
            None => spec_feed_frame(body@) is None,
        },
{
    if body.len() < 5 {
        return None;
    }
    let flag = body[0];
    let sid_len: u64 = body[1] as u64 + 256 * (body[2] as u64) + 65536 * (body[3] as u64)
        + 16777216 * (body[4] as u64);
    let sid_end: u64 = 5 + sid_len;
    if (body.len() as u64) < sid_end {
        return None;
    }
    let end = sid_end as usize;
    let sid_bytes = &body[5..end];
    assert(sid_bytes@ =~= body@.subrange(5, end as int));
    match utf8_to_string(sid_bytes) {
        None => None,
        Some(sid) => {
            let payload = &body[end..body.len()];
            assert(payload@ =~= body@.skip(end as int));
            Some((flag, sid, payload))
        },
    }
}

proof fn lemma_le32_round_trip(n: u32)
    ensures
        le32(le32_bytes(n)[0], le32_bytes(n)[1], le32_bytes(n)[2], le32_bytes(n)[3]) == n,
{
    let b = le32_bytes(n);
    assert(b[0] == (n % 256) as u8);
    assert(b[1] == ((n / 256) % 256) as u8);
    assert(b[2] == ((n / 65536) % 256) as u8);
    assert(b[3] == ((n / 16777216) % 256) as u8);
    assert(((n % 256) as u8) as nat + 256 * (((n / 256) % 256) as u8) as nat + 65536 * (((n / 65536)
        % 256) as u8) as nat + 16777216 * (((n / 16777216) % 256) as u8) as nat == n as nat)
        by (nonlinear_arith);
}

/// A frame built from a flag, a session id and a payload reads back as
/// exactly those three, whenever the id's UTF-8 length fits in `u32`.
pub proof fn law_feed_frame_round_trip(flag: u8, sid: Seq<char>, payload: Seq<u8>)
    requires
        encode_utf8(sid).len() <= u32::MAX,
    ensures
        spec_feed_frame(encode_feed_frame(flag, sid, payload)) == Some((flag, sid, payload)),
{
    let e = encode_utf8(sid);
    let n = e.len() as u32;
    let body = encode_feed_frame(flag, sid, payload);
    lemma_le32_round_trip(n);
    assert(body[0] == flag);
    assert(body[1] == le32_bytes(n)[0]);
    assert(body[2] == le32_bytes(n)[1]);
    assert(body[3] == le32_bytes(n)[2]);
    assert(body[4] == le32_bytes(n)[3]);
    assert(body.subrange(5, 5 + e.len() as int) =~= e);
    assert(body.skip(5 + e.len() as int) =~= payload);
}


/// The error when the burn-in ffmpeg fails: the first 30 lines of its
/// stderr.
pub fn failure_message(stderr: &str) -> (s: String)
    ensures
        s@ == "ffmpeg failed:\n"@ + crate::text::join_first(crate::text::lines(stderr@), 30, "\n"@),
{
    let mut s = String::new();
    s.push_str("ffmpeg failed:\n");
    let body = crate::text::first_lines(stderr, 30);
    s.push_str(body.as_str());
    s
}

} // verus!
