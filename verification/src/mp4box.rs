//! Minimal reading and writing of ISO BMFF (MP4) boxes.
//!
//! Box layout (ISO/IEC 14496-12):
//! ```text
//! [size: 4 BE][type: 4 ASCII]
//!   if size == 1: [largesize: 8 BE]   (64-bit size)
//!   if size == 0: extends to EOF      (rejected: CMAF boxes always carry a size)
//! [payload: size - 8 (or - 16 with largesize)]
//! ```
use vstd::prelude::*;

use crate::error::ApiError;
use crate::text::{debug_str, dec, push_dec, spec_debug_str, spec_utf8_lossy, utf8_lossy};

verus! {

/// A box found in a byte buffer: its four-byte type and a view of its payload.
#[derive(Debug, Clone, Copy)]
pub struct BoxRef<'a> {
    pub box_type: [u8; 4],
    pub payload: &'a [u8],
}

impl<'a> View for BoxRef<'a> {
    type V = (Seq<u8>, Seq<u8>);

    open spec fn view(&self) -> (Seq<u8>, Seq<u8>) {
        (self.box_type@, self.payload@)
    }
}

impl<'a> BoxRef<'a> {
    /// The box type as text (lossy UTF-8).
    pub fn type_str(&self) -> (s: String)
        ensures
            s@ == spec_utf8_lossy(self.box_type@),
    {
        utf8_lossy(&self.box_type)
    }
}

pub open spec fn box_views<'a>(v: Seq<BoxRef<'a>>) -> Seq<(Seq<u8>, Seq<u8>)> {
    v.map_values(|b: BoxRef<'a>| b@)
}

// ---------------------------------------------------------------------------
// Big-endian integers
// ---------------------------------------------------------------------------

pub open spec fn be32_at(b: Seq<u8>, i: int) -> nat {
    (b[i] as nat) * 16777216 + (b[i + 1] as nat) * 65536 + (b[i + 2] as nat) * 256 + (b[i + 3] as nat)
}

pub open spec fn be64_at(b: Seq<u8>, i: int) -> nat {
    be32_at(b, i) * 4294967296 + be32_at(b, i + 4)
}

/// The four big-endian bytes of `n` (taken modulo 2^32).
pub open spec fn be32_bytes(n: nat) -> Seq<u8> {
    seq![
        ((n / 16777216) % 256) as u8,
        ((n / 65536) % 256) as u8,
        ((n / 256) % 256) as u8,
        (n % 256) as u8,
    ]
}

proof fn lemma_be32_roundtrip(n: nat)
    requires
        n < 4294967296,
    ensures
        be32_at(be32_bytes(n), 0) == n,
{
    let b = be32_bytes(n);
    let a0 = n / 16777216;
    let a1 = (n / 65536) % 256;
    let a2 = (n / 256) % 256;
    let a3 = n % 256;
    assert(a0 < 256 && a0 * 16777216 + a1 * 65536 + a2 * 256 + a3 == n) by (nonlinear_arith)
        requires
            n < 4294967296,
            a0 == n / 16777216,
            a1 == (n / 65536) % 256,
            a2 == (n / 256) % 256,
            a3 == n % 256,
    ;
    assert(b[0] as nat == a0);
}

// ---------------------------------------------------------------------------
// Header
// ---------------------------------------------------------------------------

/// Why a box header is rejected.
#[derive(Debug, Clone, Copy, PartialEq, Eq)]
pub enum HeaderFault {
    /// Fewer than 8 bytes.
    Short,
    /// `size == 1` but fewer than 16 bytes.
    LargeShort,
    /// `size == 1` and the 64-bit size is below 16.
    LargeTooSmall(u64),
    /// `size == 0` (extends to EOF).
    SizeZero,
    /// A 32-bit size below 8.
    SizeTooSmall(u32),
}

/// The header of the box at the start of `b`: `(header_len, total_len, type)`.
pub open spec fn spec_header(b: Seq<u8>) -> Result<(int, int, Seq<u8>), HeaderFault> {
    if b.len() < 8 {
        Err(HeaderFault::Short)
    } else {
        let size = be32_at(b, 0);
        let ty = b.subrange(4, 8);
        if size == 1 {
            if b.len() < 16 {
                Err(HeaderFault::LargeShort)
            } else if be64_at(b, 8) < 16 {
                Err(HeaderFault::LargeTooSmall(be64_at(b, 8) as u64))
            } else {
                Ok((16, ((be64_at(b, 8) as u64) as usize) as int, ty))
            }
        } else if size == 0 {
            Err(HeaderFault::SizeZero)
        } else if size < 8 {
            Err(HeaderFault::SizeTooSmall(size as u32))
        } else {
            Ok((8, size as int, ty))
        }
    }
}

pub open spec fn header_fault_message(f: HeaderFault) -> Seq<char> {
    match f {
        HeaderFault::Short => "mp4 box header < 8 bytes"@,
        HeaderFault::LargeShort => "mp4 largesize box header < 16 bytes"@,
        HeaderFault::LargeTooSmall(large) => "mp4 largesize "@ + dec(large as nat) + " < 16"@,
        HeaderFault::SizeZero => "mp4 box with size=0 (EOF-extending) is not supported"@,
        HeaderFault::SizeTooSmall(size) => "mp4 box size "@ + dec(size as nat) + " < 8"@,
    }
}

fn read_u32_be(bytes: &[u8], i: usize) -> (r: u32)
    requires
        i + 4 <= bytes.len(),
    ensures
        r == be32_at(bytes@, i as int),
{
    let b0 = bytes[i] as u32;
    let b1 = bytes[i + 1] as u32;
    let b2 = bytes[i + 2] as u32;
    let b3 = bytes[i + 3] as u32;
    assert(b0 * 16777216 + b1 * 65536 + b2 * 256 + b3 <= 0xFFFF_FFFF) by (nonlinear_arith)
        requires
            b0 < 256,
            b1 < 256,
            b2 < 256,
            b3 < 256,
    ;
    b0 * 16777216 + b1 * 65536 + b2 * 256 + b3
}

fn fault_error(f: HeaderFault) -> (e: ApiError)
    ensures
        e matches ApiError::ResponseShape(m) && m@ == header_fault_message(f),
{
    let mut m = String::new();
    match f {
        HeaderFault::Short => {
            m.push_str("mp4 box header < 8 bytes");
        },
        HeaderFault::LargeShort => {
            m.push_str("mp4 largesize box header < 16 bytes");
        },
        HeaderFault::LargeTooSmall(large) => {
            m.push_str("mp4 largesize ");
            push_dec(&mut m, large);
            m.push_str(" < 16");
        },
        HeaderFault::SizeZero => {
            m.push_str("mp4 box with size=0 (EOF-extending) is not supported");
        },
        HeaderFault::SizeTooSmall(size) => {
            m.push_str("mp4 box size ");
            push_dec(&mut m, size as u64);
            m.push_str(" < 8");
        },
    }
    ApiError::ResponseShape(m)
}

/// Parse a box header and return `(header_len, total_len, type)`.
/// `header_len` is the number of bytes before the payload (8 or 16) and
/// `total_len` the value of the size field (header included).
pub fn read_box_header(bytes: &[u8]) -> (r: Result<(usize, usize, [u8; 4]), ApiError>)
    ensures
        match spec_header(bytes@) {
            Ok((h, t, ty)) => r matches Ok((h2, t2, ty2)) && h2 == h && t2 == t && ty2@ == ty,
            Err(f) => r matches Err(ApiError::ResponseShape(m)) && m@ == header_fault_message(f),
        },
{
    if bytes.len() < 8 {
        return Err(fault_error(HeaderFault::Short));
    }
    let size = read_u32_be(bytes, 0);
    let box_type: [u8; 4] = [bytes[4], bytes[5], bytes[6], bytes[7]];
    assert(box_type@ =~= bytes@.subrange(4, 8));
    if size == 1 {
        if bytes.len() < 16 {
            return Err(fault_error(HeaderFault::LargeShort));
        }
        let hi = read_u32_be(bytes, 8) as u64;
        let lo = read_u32_be(bytes, 12) as u64;
        assert(hi * 4294967296 + lo <= 0xFFFF_FFFF_FFFF_FFFF) by (nonlinear_arith)
            requires
                hi <= 0xFFFF_FFFF,
                lo <= 0xFFFF_FFFF,
        ;
        let large: u64 = hi * 4294967296 + lo;
        if large < 16 {
            return Err(fault_error(HeaderFault::LargeTooSmall(large)));
        }
        Ok((16, large as usize, box_type))
    } else if size == 0 {
        Err(fault_error(HeaderFault::SizeZero))
    } else {
        if size < 8 {
            return Err(fault_error(HeaderFault::SizeTooSmall(size)));
        }
        Ok((8, size as usize, box_type))
    }
}

proof fn lemma_header_sizes(b: Seq<u8>)
    ensures
        spec_header(b) matches Ok((h, t, ty)) ==> (h == 8 || h == 16) && t >= 0 && ty.len() == 4 && h
            <= b.len() && (h == 8 ==> t >= 8),
{
    if b.len() >= 16 {
        let x = be32_at(b, 8);
        let y = be32_at(b, 12);
        assert(x <= 0xFFFF_FFFF && y <= 0xFFFF_FFFF);
        assert(x * 4294967296 + y <= 0xFFFF_FFFF_FFFF_FFFF) by (nonlinear_arith)
            requires
                x <= 0xFFFF_FFFF,
                y <= 0xFFFF_FFFF,
        ;
    }
}

// ---------------------------------------------------------------------------
// Iteration
// ---------------------------------------------------------------------------

/// Why the enumeration of boxes stopped.
pub enum IterFault {
    Header(HeaderFault),
    /// The box of this type starting at `offset` declares `total_len` bytes,
    /// more than the `file_len` bytes that are there.
    PastEof { box_type: Seq<u8>, offset: int, total_len: int, file_len: int },
}

/// The boxes that follow one another from `offset` to the end of `b`, as
/// `(type, payload)` pairs.
pub open spec fn spec_boxes_from(b: Seq<u8>, offset: int) -> Result<Seq<(Seq<u8>, Seq<u8>)>, IterFault>
    decreases b.len() - offset,
{
    if offset < 0 || offset >= b.len() {
        Ok(Seq::empty())
    } else {
        match spec_header(b.skip(offset)) {
            Err(f) => Err(IterFault::Header(f)),
            Ok((h, t, ty)) => {
                if offset + t > b.len() {
                    Err(IterFault::PastEof { box_type: ty, offset, total_len: t, file_len: b.len() as int })
                } else if t < h {
                    Err(IterFault::PastEof { box_type: ty, offset, total_len: t, file_len: b.len() as int })
                } else {
                    match spec_boxes_from(b, offset + t) {
                        Ok(rest) => Ok(seq![(ty, b.subrange(offset + h, offset + t))] + rest),
                        Err(e) => Err(e),
                    }
                }
            },
        }
    }
}

pub open spec fn spec_boxes(b: Seq<u8>) -> Result<Seq<(Seq<u8>, Seq<u8>)>, IterFault> {
    spec_boxes_from(b, 0)
}

pub open spec fn past_eof_message(ty: Seq<u8>, offset: int, total_len: int, file_len: int) -> Seq<char> {
    "mp4 box "@ + spec_debug_str(spec_utf8_lossy(ty)) + " extends past EOF (offset="@ + dec(
        offset as nat,
    ) + ", total_len="@ + dec(total_len as nat) + ", file_len="@ + dec(file_len as nat) + ")"@
}

pub open spec fn iter_fault_message(f: IterFault) -> Seq<char> {
    match f {
        IterFault::Header(h) => header_fault_message(h),
        IterFault::PastEof { box_type, offset, total_len, file_len } => past_eof_message(
            box_type,
            offset,
            total_len,
            file_len,
        ),
    }
}

/// What `iter_boxes` returns on `b`, stated over the views of its result.
pub open spec fn iter_result_matches<'a>(r: Result<Vec<BoxRef<'a>>, ApiError>, b: Seq<u8>) -> bool {
    match spec_boxes(b) {
        Ok(boxes) => r matches Ok(v) && box_views(v@) == boxes,
        Err(f) => r matches Err(ApiError::ResponseShape(m)) && m@ == iter_fault_message(f),
    }
}

pub open spec fn prepend_boxes(
    prefix: Seq<(Seq<u8>, Seq<u8>)>,
    r: Result<Seq<(Seq<u8>, Seq<u8>)>, IterFault>,
) -> Result<Seq<(Seq<u8>, Seq<u8>)>, IterFault> {
    match r {
        Ok(rest) => Ok(prefix + rest),
        Err(e) => Err(e),
    }
}

fn past_eof_error(ty: &[u8; 4], offset: usize, total_len: usize, file_len: usize) -> (e: ApiError)
    ensures
        e matches ApiError::ResponseShape(m) && m@ == past_eof_message(
            ty@,
            offset as int,
            total_len as int,
            file_len as int,
        ),
{
    let lossy = utf8_lossy(ty);
    let quoted = debug_str(lossy.as_str());
    let mut m = String::new();
    m.push_str("mp4 box ");
    m.push_str(quoted.as_str());
    m.push_str(" extends past EOF (offset=");
    push_dec(&mut m, offset as u64);
    m.push_str(", total_len=");
    push_dec(&mut m, total_len as u64);
    m.push_str(", file_len=");
    push_dec(&mut m, file_len as u64);
    m.push_str(")");
    ApiError::ResponseShape(m)
}

/// Enumerate the top-level boxes of `bytes`, in order.
pub fn iter_boxes(bytes: &[u8]) -> (r: Result<Vec<BoxRef<'_>>, ApiError>)
    ensures
        iter_result_matches(r, bytes@),
        r matches Ok(v) ==> forall|i: int| 0 <= i < v@.len() ==> #[trigger] v@[i].payload@.len() + 8
            <= bytes@.len(),
{
    let mut out: Vec<BoxRef<'_>> = Vec::new();
    let mut offset: usize = 0;
    while offset < bytes.len()
        invariant
            offset <= bytes.len(),
            spec_boxes(bytes@) == prepend_boxes(box_views(out@), spec_boxes_from(bytes@, offset as int)),
            forall|i: int| 0 <= i < out@.len() ==> #[trigger] out@[i].payload@.len() + 8 <= bytes@.len(),
        decreases bytes.len() - offset,
    {
        let rest = &bytes[offset..bytes.len()];
        assert(rest@ =~= bytes@.skip(offset as int));
        proof {
            lemma_header_sizes(rest@);
        }
        let hdr = read_box_header(rest);
        match hdr {
            Err(e) => {
                return Err(e);
            },
            Ok((header_len, total_len, box_type)) => {
                let end = match offset.checked_add(total_len) {
                    Some(e) => e,
                    None => {
                        return Err(past_eof_error(&box_type, offset, total_len, bytes.len()));
                    },
                };
                if end > bytes.len() || total_len < header_len {
                    return Err(past_eof_error(&box_type, offset, total_len, bytes.len()));
                }
                let payload_start = offset + header_len;
                let payload = &bytes[payload_start..end];
                let b = BoxRef { box_type, payload };
                let ghost old_out = out@;
                out.push(b);
                proof {
                    assert(box_views(out@) =~= box_views(old_out) + seq![b@]);
                    let tail = spec_boxes_from(bytes@, end as int);
                    match tail {
                        Ok(t) => {
                            assert(box_views(old_out) + (seq![b@] + t) =~= box_views(out@) + t);
                        },
                        Err(_) => {},
                    }
                }
                offset = end;
            },
        }
    }
    assert(spec_boxes_from(bytes@, offset as int) == Ok::<Seq<(Seq<u8>, Seq<u8>)>, IterFault>(Seq::empty()));
    assert(box_views(out@) + Seq::<(Seq<u8>, Seq<u8>)>::empty() =~= box_views(out@));
    Ok(out)
}

/// Enumerate the children in the payload of a container box: the payload is
/// itself a sequence of boxes.
pub fn iter_children(payload: &[u8]) -> (r: Result<Vec<BoxRef<'_>>, ApiError>)
    ensures
        iter_result_matches(r, payload@),
        r matches Ok(v) ==> forall|i: int| 0 <= i < v@.len() ==> #[trigger] v@[i].payload@.len() + 8
            <= payload@.len(),
{
    iter_boxes(payload)
}

// ---------------------------------------------------------------------------
// Writing
// ---------------------------------------------------------------------------

/// One box with a 32-bit size: `[payload.len() + 8: 4 BE][type][payload]`.
/// The size field keeps the low 32 bits of the length.
pub open spec fn encode_box(ty: Seq<u8>, payload: Seq<u8>) -> Seq<u8> {
    be32_bytes((payload.len() + 8) as nat) + ty + payload
}

/// A written box starts with its total size (payload plus the 8 header
/// bytes) as a big-endian 32-bit number, most significant byte first, then
/// its four type bytes, then the payload.
pub proof fn law_written_box_layout(ty: Seq<u8>, payload: Seq<u8>)
    requires
        ty.len() == 4,
        payload.len() + 8 < 0x1_0000_0000,
    ensures
        ({
            let e = encode_box(ty, payload);
            let n = payload.len() + 8;
            &&& e.len() == n
            &&& e[0] == n / 0x100_0000
            &&& e[1] == (n / 0x1_0000) % 256
            &&& e[2] == (n / 256) % 256
            &&& e[3] == n % 256
            &&& e.subrange(4, 8) == ty
            &&& e.subrange(8, n as int) == payload
        }),
{
    let n = payload.len() + 8;
    assert(n / 0x100_0000 < 256) by (nonlinear_arith)
        requires
            n < 0x1_0000_0000,
    ;
    let e = encode_box(ty, payload);
    assert(e.subrange(4, 8) =~= ty);
    assert(e.subrange(8, n as int) =~= payload);
}

/// Boxes written one after the other.
pub open spec fn encode_boxes(bs: Seq<(Seq<u8>, Seq<u8>)>) -> Seq<u8>
    decreases bs.len(),
{
    if bs.len() == 0 {
        Seq::empty()
    } else {
        encode_box(bs[0].0, bs[0].1) + encode_boxes(bs.drop_first())
    }
}

/// Total number of bytes of boxes written one after the other.
pub open spec fn boxes_len(bs: Seq<(Seq<u8>, Seq<u8>)>) -> nat
    decreases bs.len(),
{
    if bs.len() == 0 {
        0
    } else {
        bs[0].1.len() + 8 + boxes_len(bs.drop_first())
    }
}

/// Append one box to `out`.  The size field is 32 bits wide (payloads are
/// expected to stay below 4 GiB).
pub fn write_box(out: &mut Vec<u8>, box_type: &[u8; 4], payload: &[u8])
    requires
        payload@.len() + 8 <= usize::MAX,
    ensures
        final(out)@ == old(out)@ + encode_box(box_type@, payload@),
{
    let total: usize = payload.len() + 8;
    let b0 = ((total >> 24) & 0xff) as u8;
    let b1 = ((total >> 16) & 0xff) as u8;
    let b2 = ((total >> 8) & 0xff) as u8;
    let b3 = (total & 0xff) as u8;
    assert(b0 == (total / 16777216) % 256 && b1 == (total / 65536) % 256 && b2 == (total / 256) % 256
        && b3 == total % 256) by (bit_vector)
        requires
            b0 == ((total >> 24) & 0xff) as u8,
            b1 == ((total >> 16) & 0xff) as u8,
            b2 == ((total >> 8) & 0xff) as u8,
            b3 == (total & 0xff) as u8,
    ;
    out.push(b0);
    out.push(b1);
    out.push(b2);
    out.push(b3);
    out.push(box_type[0]);
    out.push(box_type[1]);
    out.push(box_type[2]);
    out.push(box_type[3]);
    out.extend_from_slice(payload);
    assert(final(out)@ =~= old(out)@ + encode_box(box_type@, payload@));
}

pub open spec fn child_views(children: Seq<(&[u8; 4], &[u8])>) -> Seq<(Seq<u8>, Seq<u8>)> {
    children.map_values(|c: (&[u8; 4], &[u8])| (c.0@, c.1@))
}

pub open spec fn types_are_4(bs: Seq<(Seq<u8>, Seq<u8>)>) -> bool {
    forall|i: int| 0 <= i < bs.len() ==> (#[trigger] bs[i]).0.len() == 4
}

proof fn lemma_encode_boxes_len(bs: Seq<(Seq<u8>, Seq<u8>)>)
    requires
        types_are_4(bs),
    ensures
        encode_boxes(bs).len() == boxes_len(bs),
    decreases bs.len(),
{
    if bs.len() > 0 {
        assert(bs[0].0.len() == 4);
        assert(types_are_4(bs.drop_first())) by {
            assert forall|i: int| 0 <= i < bs.drop_first().len() implies (
            #[trigger] bs.drop_first()[i]).0.len() == 4 by {
                assert(bs.drop_first()[i] == bs[i + 1]);
            }
        }
        lemma_encode_boxes_len(bs.drop_first());
    }
}

proof fn lemma_encode_boxes_push(bs: Seq<(Seq<u8>, Seq<u8>)>, b: (Seq<u8>, Seq<u8>))
    ensures
        encode_boxes(bs.push(b)) == encode_boxes(bs) + encode_box(b.0, b.1),
        boxes_len(bs.push(b)) == boxes_len(bs) + b.1.len() + 8,
    decreases bs.len(),
{
    let eb = encode_box(b.0, b.1);
    if bs.len() == 0 {
        assert(bs.push(b).drop_first() =~= Seq::<(Seq<u8>, Seq<u8>)>::empty());
        assert(bs.push(b)[0] == b);
        assert(encode_boxes(bs.push(b).drop_first()) == Seq::<u8>::empty());
        assert(boxes_len(bs.push(b).drop_first()) == 0);
        assert(encode_boxes(bs.push(b)) == eb + Seq::<u8>::empty());
        assert(eb + Seq::<u8>::empty() =~= eb);
        assert(encode_boxes(bs) =~= Seq::<u8>::empty());
        assert(Seq::<u8>::empty() + eb =~= eb);
    } else {
        let head = encode_box(bs[0].0, bs[0].1);
        lemma_encode_boxes_push(bs.drop_first(), b);
        assert(bs.push(b).drop_first() =~= bs.drop_first().push(b));
        assert(bs.push(b)[0] == bs[0]);
        let t = encode_boxes(bs.drop_first());
        assert(encode_boxes(bs.push(b)) == head + (t + eb));
        assert(encode_boxes(bs) == head + t);
        assert(head + (t + eb) =~= (head + t) + eb);
    }
}

/// Concatenate children given as `(type, payload)` into the payload of a
/// container box.
pub fn write_container_payload(children: &[(&[u8; 4], &[u8])]) -> (out: Vec<u8>)
    requires
        boxes_len(child_views(children@)) <= isize::MAX,
    ensures
        out@ == encode_boxes(child_views(children@)),
{
    let ghost cv = child_views(children@);
    let mut out: Vec<u8> = Vec::new();
    let mut i: usize = 0;
    while i < children.len()
        invariant
            i <= children.len(),
            cv == child_views(children@),
            boxes_len(cv) <= isize::MAX,
            out@ == encode_boxes(cv.take(i as int)),
            out@.len() == boxes_len(cv.take(i as int)),
        decreases children.len() - i,
    {
        let (t, p) = children[i];
        proof {
            lemma_encode_boxes_push(cv.take(i as int), cv[i as int]);
            assert(cv.take(i + 1) =~= cv.take(i as int).push(cv[i as int]));
            lemma_boxes_len_prefix(cv, i + 1);
        }
        write_box(&mut out, t, p);
        i += 1;
    }
    assert(cv.take(children.len() as int) =~= cv);
    out
}

proof fn lemma_boxes_len_prefix(bs: Seq<(Seq<u8>, Seq<u8>)>, k: int)
    requires
        0 <= k <= bs.len(),
    ensures
        boxes_len(bs.take(k)) <= boxes_len(bs),
    decreases k,
{
    if k > 0 {
        lemma_boxes_len_prefix(bs, k - 1);
        lemma_encode_boxes_push(bs.take(k - 1), bs[k - 1]);
        assert(bs.take(k) =~= bs.take(k - 1).push(bs[k - 1]));
        lemma_boxes_len_split(bs, k);
    }
}

proof fn lemma_boxes_len_split(bs: Seq<(Seq<u8>, Seq<u8>)>, k: int)
    requires
        0 <= k <= bs.len(),
    ensures
        boxes_len(bs) == boxes_len(bs.take(k)) + boxes_len(bs.skip(k)),
    decreases k,
{
    if k == 0 {
        assert(bs.take(0) =~= Seq::<(Seq<u8>, Seq<u8>)>::empty());
        assert(bs.skip(0) =~= bs);
    } else {
        lemma_boxes_len_split(bs.drop_first(), k - 1);
        assert(bs.drop_first().take(k - 1) =~= bs.take(k).drop_first());
        assert(bs.drop_first().skip(k - 1) =~= bs.skip(k));
    }
}

// ---------------------------------------------------------------------------
// Reading back what was written
// ---------------------------------------------------------------------------

pub open spec fn sizes_fit_32(bs: Seq<(Seq<u8>, Seq<u8>)>) -> bool {
    forall|i: int| 0 <= i < bs.len() ==> (#[trigger] bs[i]).1.len() + 8 < 4294967296
}

proof fn lemma_header_of_encoded(ty: Seq<u8>, payload: Seq<u8>, rest: Seq<u8>)
    requires
        ty.len() == 4,
        payload.len() + 8 < 4294967296,
    ensures
        spec_header(encode_box(ty, payload) + rest) == Ok::<(int, int, Seq<u8>), HeaderFault>(
            (8, (payload.len() + 8) as int, ty),
        ),
{
    let n = (payload.len() + 8) as nat;
    let x = encode_box(ty, payload) + rest;
    lemma_be32_roundtrip(n);
    let b = be32_bytes(n);
    assert(x[0] == b[0] && x[1] == b[1] && x[2] == b[2] && x[3] == b[3]);
    assert(be32_at(x, 0) == be32_at(b, 0));
    assert(x.subrange(4, 8) =~= ty);
}

proof fn lemma_step(whole: Seq<u8>, off: int, ty: Seq<u8>, t: int)
    requires
        0 <= off < whole.len(),
        t >= 8,
        off + t <= whole.len(),
        spec_header(whole.skip(off)) == Ok::<(int, int, Seq<u8>), HeaderFault>((8, t, ty)),
    ensures
        spec_boxes_from(whole, off) == prepend_boxes(
            seq![(ty, whole.subrange(off + 8, off + t))],
            spec_boxes_from(whole, off + t),
        ),
{
}

proof fn lemma_tail_props(bs: Seq<(Seq<u8>, Seq<u8>)>)
    requires
        bs.len() > 0,
        types_are_4(bs),
        sizes_fit_32(bs),
    ensures
        types_are_4(bs.drop_first()),
        sizes_fit_32(bs.drop_first()),
        bs[0].0.len() == 4,
        bs[0].1.len() + 8 < 4294967296,
        boxes_len(bs) == bs[0].1.len() + 8 + boxes_len(bs.drop_first()),
{
    let tail = bs.drop_first();
    assert forall|i: int| 0 <= i < tail.len() implies (#[trigger] tail[i]).0.len() == 4 by {
        assert(tail[i] == bs[i + 1]);
    }
    assert forall|i: int| 0 <= i < tail.len() implies (#[trigger] tail[i]).1.len() + 8 < 4294967296 by {
        assert(tail[i] == bs[i + 1]);
    }
    assert(bs[0].0.len() == 4);
    assert(bs[0].1.len() + 8 < 4294967296);
}

#[verifier::rlimit(100)]
#[verifier::spinoff_prover]
proof fn lemma_read_back_from(pre: Seq<u8>, bs: Seq<(Seq<u8>, Seq<u8>)>)
    requires
        types_are_4(bs),
        sizes_fit_32(bs),
    ensures
        spec_boxes_from(pre + encode_boxes(bs), pre.len() as int) == Ok::<
            Seq<(Seq<u8>, Seq<u8>)>,
            IterFault,
        >(bs),
    decreases bs.len(),
{
    lemma_encode_boxes_len(bs);
    if bs.len() == 0 {
        assert(pre + encode_boxes(bs) =~= pre);
        assert(bs =~= Seq::<(Seq<u8>, Seq<u8>)>::empty());
    } else {
        lemma_tail_props(bs);
        let ty = bs[0].0;
        let p = bs[0].1;
        let tail = bs.drop_first();
        let e0 = encode_box(ty, p);
        let rest = encode_boxes(tail);
        let whole = pre + encode_boxes(bs);
        let off = pre.len() as int;
        let t = (p.len() + 8) as int;
        lemma_encode_boxes_len(tail);
        assert(encode_boxes(bs) == e0 + rest);
        assert(whole.skip(off) =~= e0 + rest);
        lemma_header_of_encoded(ty, p, rest);
        let pre2 = pre + e0;
        assert(whole =~= pre2 + rest);
        lemma_read_back_from(pre2, tail);
        assert(pre2.len() == off + t);
        lemma_step(whole, off, ty, t);
        assert(whole.subrange(off + 8, off + t) =~= p);
        assert(seq![(ty, p)] + tail =~= bs);
    }
}

/// Law: boxes appended one after the other with [`write_box`] (or gathered by
/// [`write_container_payload`]) are enumerated back by [`iter_boxes`] /
/// [`iter_children`] in the same order, with the same types and payloads.
pub proof fn law_written_boxes_read_back(bs: Seq<(Seq<u8>, Seq<u8>)>)
    requires
        types_are_4(bs),
        sizes_fit_32(bs),
    ensures
        spec_boxes(encode_boxes(bs)) == Ok::<Seq<(Seq<u8>, Seq<u8>)>, IterFault>(bs),
{
    lemma_read_back_from(Seq::empty(), bs);
    assert(Seq::<u8>::empty() + encode_boxes(bs) =~= encode_boxes(bs));
}

// ---------------------------------------------------------------------------
// Looking up children
// ---------------------------------------------------------------------------

/// The first box of type `ty`, if any.
pub open spec fn first_of_type(bs: Seq<(Seq<u8>, Seq<u8>)>, ty: Seq<u8>) -> Option<(Seq<u8>, Seq<u8>)>
    decreases bs.len(),
{
    if bs.len() == 0 {
        None
    } else if bs[0].0 == ty {
        Some(bs[0])
    } else {
        first_of_type(bs.drop_first(), ty)
    }
}

/// All boxes of type `ty`, in order.
pub open spec fn all_of_type(bs: Seq<(Seq<u8>, Seq<u8>)>, ty: Seq<u8>) -> Seq<(Seq<u8>, Seq<u8>)> {
    bs.filter(of_type(ty))
}

/// Whether a box has type `ty`.
pub open spec fn of_type(ty: Seq<u8>) -> spec_fn((Seq<u8>, Seq<u8>)) -> bool {
    |b: (Seq<u8>, Seq<u8>)| b.0 == ty
}

/// The child that [`find_child`] returns is the first of those that
/// [`find_children`] returns, and there is none exactly when they are none.
pub proof fn law_find_child_is_first_of_children(bs: Seq<(Seq<u8>, Seq<u8>)>, ty: Seq<u8>)
    ensures
        first_of_type(bs, ty) == (if all_of_type(bs, ty).len() > 0 {
            Some(all_of_type(bs, ty)[0])
        } else {
            None
        }),
    decreases bs.len(),
{
    if bs.len() > 0 {
        let tail = bs.drop_first();
        assert(seq![bs[0]] + tail =~= bs);
        tail.lemma_filter_prepend(bs[0], of_type(ty));
        law_find_child_is_first_of_children(tail, ty);
        let f = all_of_type(bs, ty);
        if bs[0].0 == ty {
            assert(f[0] == bs[0]);
        } else {
            assert(f =~= all_of_type(tail, ty));
        }
    } else {
        assert(all_of_type(bs, ty).len() == 0) by {
            reveal_with_fuel(Seq::filter, 1);
        }
    }
}

fn same_type(a: &[u8; 4], b: &[u8; 4]) -> (r: bool)
    ensures
        r == (a@ == b@),
{
    let r = a[0] == b[0] && a[1] == b[1] && a[2] == b[2] && a[3] == b[3];
    if r {
        assert(a@ =~= b@);
    }
    r
}

proof fn lemma_first_of_type_skip(bs: Seq<(Seq<u8>, Seq<u8>)>, ty: Seq<u8>, i: int)
    requires
        0 <= i <= bs.len(),
        forall|k: int| 0 <= k < i ==> (#[trigger] bs[k]).0 != ty,
    ensures
        first_of_type(bs, ty) == first_of_type(bs.skip(i), ty),
    decreases i,
{
    if i == 0 {
        assert(bs.skip(0) =~= bs);
    } else {
        assert(bs[0].0 != ty);
        lemma_first_of_type_skip(bs.drop_first(), ty, i - 1);
        assert(bs.drop_first().skip(i - 1) =~= bs.skip(i));
    }
}

/// The first child of `payload` with type `box_type`; `None` when there is
/// none or when the payload is not a well-formed sequence of boxes.
pub fn find_child<'a>(payload: &'a [u8], box_type: &[u8; 4]) -> (r: Option<BoxRef<'a>>)
    ensures
        match spec_boxes(payload@) {
            Ok(bs) => match first_of_type(bs, box_type@) {
                Some(b) => r matches Some(x) && x@ == b,
                None => r is None,
            },
            Err(_) => r is None,
        },
{
    let children = match iter_children(payload) {
        Ok(v) => v,
        Err(_) => {
            return None;
        },
    };
    let ghost bs = box_views(children@);
    assert(spec_boxes(payload@) matches Ok(b2) && b2 == bs);
    let mut i: usize = 0;
    while i < children.len()
        invariant
            i <= children.len(),
            bs == box_views(children@),
            spec_boxes(payload@) matches Ok(b2) && b2 == bs,
            forall|k: int| 0 <= k < i ==> (#[trigger] bs[k]).0 != box_type@,
        decreases children.len() - i,
    {
        if same_type(&children[i].box_type, box_type) {
            proof {
                lemma_first_of_type_skip(bs, box_type@, i as int);
                assert(bs.skip(i as int)[0] == bs[i as int]);
                assert(bs[i as int].0 == box_type@);
                assert(first_of_type(bs.skip(i as int), box_type@) == Some(bs[i as int]));
                assert(children@[i as int]@ == bs[i as int]);
            }
            return Some(children[i]);
        }
        i += 1;
    }
    proof {
        lemma_first_of_type_skip(bs, box_type@, i as int);
    }
    None
}

/// All children of `payload` with type `box_type`, in order; empty when the
/// payload is not a well-formed sequence of boxes.
pub fn find_children<'a>(payload: &'a [u8], box_type: &[u8; 4]) -> (r: Vec<BoxRef<'a>>)
    ensures
        match spec_boxes(payload@) {
            Ok(bs) => box_views(r@) == all_of_type(bs, box_type@),
            Err(_) => r@.len() == 0,
        },
{
    let children = match iter_children(payload) {
        Ok(v) => v,
        Err(_) => {
            return Vec::new();
        },
    };
    let ghost bs = box_views(children@);
    let ghost pred = of_type(box_type@);
    let mut out: Vec<BoxRef<'a>> = Vec::new();
    let mut i: usize = 0;
    while i < children.len()
        invariant
            i <= children.len(),
            bs == box_views(children@),
            pred == of_type(box_type@),
            box_views(out@) == bs.take(i as int).filter(pred),
        decreases children.len() - i,
    {
        let c = children[i];
        let ghost old_out = out@;
        if same_type(&c.box_type, box_type) {
            out.push(c);
        }
        proof {
            reveal_with_fuel(Seq::filter, 1);
            assert(bs.take(i + 1).drop_last() =~= bs.take(i as int));
            if pred(bs[i as int]) {
                assert(box_views(out@) =~= box_views(old_out).push(c@));
            } else {
                assert(box_views(out@) =~= box_views(old_out));
            }
        }
        i += 1;
    }
    assert(bs.take(children.len() as int) =~= bs);
    out
}

} // verus!
