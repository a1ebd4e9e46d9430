//! The decisions of one HLS download: how many segments are fetched at
//! once, which byte range and key a segment needs, and the order in which
//! fetched segments are written — always the playlist's order, whatever
//! order the fetches finish in.
use vstd::prelude::*;

use crate::aes::{iv_from_media_sequence, spec_iv_from_media_sequence};
use crate::error::ApiError;
use crate::text::{chars_of, dec, lower_chars, lower_seq, push_dec};

verus! {

/// Segments fetched at once when the options do not say.
pub const DEFAULT_CONCURRENCY: usize = 6;

/// The number of concurrent segment fetches: the default for `None` or 0,
/// else the requested number clamped to `1..=64`.
pub open spec fn spec_concurrency(requested: Option<usize>) -> usize {
    let raw = match requested {
        Some(n) => n,
        None => 0,
    };
    if raw == 0 {
        DEFAULT_CONCURRENCY
    } else if raw > 64 {
        64
    } else {
        raw
    }
}

/// Six segments are fetched at once unless the options ask otherwise; a
/// request of 0 means the default, and requests above 64 are held to 64.
pub proof fn law_concurrency_default_and_cap(n: usize)
    ensures
        spec_concurrency(None) == 6,
        spec_concurrency(Some(0)) == 6,
        1 <= n <= 64 ==> spec_concurrency(Some(n)) == n,
        n > 64 ==> spec_concurrency(Some(n)) == 64,
{
}

pub fn effective_concurrency(requested: Option<usize>) -> (n: usize)
    ensures
        n == spec_concurrency(requested),
        1 <= n <= 64,
{
    let raw = match requested {
        Some(n) => n,
        None => 0,
    };
    if raw == 0 {
        DEFAULT_CONCURRENCY
    } else if raw > 64 {
        64
    } else {
        raw
    }
}

/// Events of a download.
#[derive(Debug, Clone)]
pub enum Progress {
    /// The playlist was read: this many segments follow.
    Started { total_segments: usize },
    /// One segment arrived (in any order; `index` is its playlist position).
    SegmentDone { index: usize, bytes: u64 },
    /// Everything was written; the file's path and size.
    Finished { output_path: String, total_bytes: u64 },
}

/// Where a download goes and how many segments it fetches at once.
#[derive(Debug, Clone)]
pub struct DownloadOptions {
    pub output_path: String,
    pub concurrency: Option<usize>,
}

/// The tracks picked from a master playlist.
#[derive(Debug, Clone)]
pub struct PickedTracks {
    /// The video media playlist (there is always one).
    pub video_media_url: String,
    /// The audio media playlist, when the master names one.
    pub audio_media_url: Option<String>,
    /// The resolution of the picked variant.
    pub resolution: Option<(u32, u32)>,
}

// ---------------------------------------------------------------------------
// Picking the tracks of a master playlist
// ---------------------------------------------------------------------------

/// A video variant of a master playlist (`EXT-X-STREAM-INF`), as the
/// playlist lists them (highest bandwidth first).
#[derive(Debug, Clone)]
pub struct Variant {
    pub uri: String,
    /// The `AUDIO` group it plays with.
    pub audio_group: Option<String>,
    pub resolution: Option<(u32, u32)>,
}

/// An `EXT-X-MEDIA TYPE=AUDIO` entry of a group.
#[derive(Debug, Clone)]
pub struct AudioRendition {
    pub uri: Option<String>,
    pub default: bool,
}

pub open spec fn rendition_views(v: Seq<AudioRendition>) -> Seq<(Option<Seq<char>>, bool)> {
    v.map_values(|a: AudioRendition| (crate::comment::opt_view(a.uri), a.default))
}

pub open spec fn group_views(v: Seq<(String, Vec<AudioRendition>)>) -> Seq<
    (Seq<char>, Seq<(Option<Seq<char>>, bool)>),
> {
    v.map_values(|g: (String, Vec<AudioRendition>)| (g.0@, rendition_views(g.1@)))
}

/// The renditions of the group named `g` (the first group of that name).
pub open spec fn group_lookup(
    groups: Seq<(Seq<char>, Seq<(Option<Seq<char>>, bool)>)>,
    g: Seq<char>,
) -> Option<Seq<(Option<Seq<char>>, bool)>>
    decreases groups.len(),
{
    if groups.len() == 0 {
        None
    } else if groups[0].0 == g {
        Some(groups[0].1)
    } else {
        group_lookup(groups.drop_first(), g)
    }
}

/// The first `DEFAULT=YES` rendition, else the first one.
pub open spec fn chosen_rendition(alts: Seq<(Option<Seq<char>>, bool)>) -> Option<
    (Option<Seq<char>>, bool),
> {
    if exists|i: int| 0 <= i < alts.len() && (#[trigger] alts[i]).1 {
        let i = choose|i: int|
            0 <= i < alts.len() && (#[trigger] alts[i]).1 && forall|k: int|
                0 <= k < i ==> !(#[trigger] alts[k]).1;
        Some(alts[i])
    } else if alts.len() > 0 {
        Some(alts[0])
    } else {
        None
    }
}

/// The audio playlist of a variant's group: the URI of its chosen
/// rendition; none without a group, an unknown group, an empty group or a
/// chosen rendition without URI.
pub open spec fn spec_audio_uri(
    groups: Seq<(Seq<char>, Seq<(Option<Seq<char>>, bool)>)>,
    group: Option<Seq<char>>,
) -> Option<Seq<char>> {
    match group {
        None => None,
        Some(g) => match group_lookup(groups, g) {
            None => None,
            Some(alts) => match chosen_rendition(alts) {
                None => None,
                Some(a) => a.0,
            },
        },
    }
}

proof fn lemma_first_true_exists(alts: Seq<(Option<Seq<char>>, bool)>, i: int)
    requires
        0 <= i < alts.len(),
        alts[i].1,
        forall|k: int| 0 <= k < i ==> !(#[trigger] alts[k]).1,
    ensures
        chosen_rendition(alts) == Some(alts[i]),
{
    let j = choose|j: int|
        0 <= j < alts.len() && (#[trigger] alts[j]).1 && forall|k: int|
            0 <= k < j ==> !(#[trigger] alts[k]).1;
    assert(0 <= j < alts.len() && alts[j].1 && forall|k: int| 0 <= k < j ==> !(#[trigger] alts[k]).1);
    if j < i {
        assert(!alts[j].1);
    } else if i < j {
        assert(!alts[i].1);
    }
}

fn audio_uri_of(alts: &Vec<AudioRendition>) -> (r: Option<String>)
    ensures
        crate::comment::opt_view(r) == match chosen_rendition(rendition_views(alts@)) {
            None => None,
            Some(a) => a.0,
        },
{
    let ghost v = rendition_views(alts@);
    let mut i: usize = 0;
    while i < alts.len()
        invariant
            i <= alts.len(),
            v == rendition_views(alts@),
            forall|k: int| 0 <= k < i ==> !(#[trigger] v[k]).1,
        decreases alts.len() - i,
    {
        if alts[i].default {
            proof {
                lemma_first_true_exists(v, i as int);
            }
            return alts[i].uri.clone();
        }
        i += 1;
    }
    if alts.len() > 0 {
        assert(!(exists|k: int| 0 <= k < v.len() && (#[trigger] v[k]).1));
        alts[0].uri.clone()
    } else {
        None
    }
}

fn find_group(groups: &Vec<(String, Vec<AudioRendition>)>, g: &str) -> (r: Option<usize>)
    ensures
        match r {
            Some(k) => k < groups@.len() && group_lookup(group_views(groups@), g@) == Some(
                group_views(groups@)[k as int].1,
            ),
            None => group_lookup(group_views(groups@), g@) is None,
        },
{
    let ghost gv = group_views(groups@);
    let mut i: usize = 0;
    assert(gv.skip(0) =~= gv);
    while i < groups.len()
        invariant
            i <= groups.len(),
            gv == group_views(groups@),
            group_lookup(gv, g@) == group_lookup(gv.skip(i as int), g@),
        decreases groups.len() - i,
    {
        assert(gv.skip(i as int).drop_first() =~= gv.skip(i + 1));
        assert(gv.skip(i as int)[0] == gv[i as int]);
        if crate::text::str_eq(groups[i].0.as_str(), g) {
            return Some(i);
        }
        i += 1;
    }
    assert(gv.skip(i as int).len() == 0);
    None
}

/// The tracks to download from a master playlist's variants and audio
/// groups: the first variant (the playlist lists the highest bandwidth
/// first), with the audio playlist of its group.
pub fn pick_tracks(variants: &Vec<Variant>, audio_groups: &Vec<(String, Vec<AudioRendition>)>) -> (r:
    Result<PickedTracks, ApiError>)
    ensures
        variants@.len() == 0 ==> (r matches Err(ApiError::ResponseShape(m)) && m@
            == "master playlist has no video variant"@),
        variants@.len() > 0 ==> (r matches Ok(p) && p.video_media_url@ == variants@[0].uri@
            && p.resolution == variants@[0].resolution && crate::comment::opt_view(
            p.audio_media_url,
        ) == spec_audio_uri(
            group_views(audio_groups@),
            crate::comment::opt_view(variants@[0].audio_group),
        )),
{
    if variants.len() == 0 {
        let mut m = String::new();
        m.push_str("master playlist has no video variant");
        return Err(ApiError::ResponseShape(m));
    }
    let v = &variants[0];
    let audio = match &v.audio_group {
        None => None,
        Some(g) => match find_group(audio_groups, g.as_str()) {
            None => None,
            Some(k) => audio_uri_of(&audio_groups[k].1),
        },
    };
    Ok(PickedTracks { video_media_url: v.uri.clone(), audio_media_url: audio, resolution: v.resolution })
}

/// `path` with `suffix` appended to its last component (`video.mp4` →
/// `video.mp4.part`), as `OsString::push` does.
pub fn with_extension_suffix(path: &str, suffix: &str) -> (r: String)
    ensures
        r@ == path@ + suffix@,
{
    let mut s = String::new();
    s.push_str(path);
    s.push_str(suffix);
    s
}

// ---------------------------------------------------------------------------
// Byte ranges and keys
// ---------------------------------------------------------------------------

/// The inclusive last byte of a range given by offset and length,
/// `offset + length - 1` computed modulo 2^64 (so a zero-length range at
/// `offset` ends at `offset - 1`).
pub fn byte_range_end(offset: u64, length: u64) -> (end: u64)
    ensures
        0 <= offset + length - 1 <= u64::MAX ==> end == offset + length - 1,
        offset + length - 1 > u64::MAX ==> end == offset + length - 1 - 0x1_0000_0000_0000_0000,
        offset + length == 0 ==> end == u64::MAX,
{
    offset.wrapping_add(length).wrapping_sub(1)
}

/// The `EXT-X-KEY` of a segment.
#[derive(Debug, Clone)]
pub struct KeyInfo {
    pub method: String,
    pub uri: Option<String>,
    pub iv: Option<[u8; 16]>,
}

/// What a segment needs before it can be written: nothing (clear text), or
/// the key URI and IV to decrypt it with.  Only AES-128 (in any case) is
/// supported, and it must name a key URI; without an IV the media sequence
/// number (the segment's index) is used.
pub open spec fn spec_decryption(key: Option<KeyInfo>, index: u64) -> Result<
    Option<(Seq<char>, Seq<u8>)>,
    Seq<char>,
> {
    match key {
        None => Ok(None),
        Some(k) => if lower_seq(k.method@) != "aes-128"@ {
            Err("unsupported HLS key method: "@ + k.method@)
        } else {
            match k.uri {
                None => Err("AES-128 key without URI"@),
                Some(u) => Ok(
                    Some(
                        (
                            u@,
                            match k.iv {
                                Some(iv) => iv@,
                                None => spec_iv_from_media_sequence(index),
                            },
                        ),
                    ),
                ),
            }
        },
    }
}

/// An AES-128 key with a URI is fetched from that URI, and the segment is
/// decrypted with the key's own IV when it gives one, else with the IV of
/// the segment's media sequence number; a segment without key is written as
/// it came.
pub proof fn law_decryption_uses_given_iv_else_sequence(key: Option<KeyInfo>, index: u64)
    ensures
        key is None ==> spec_decryption(key, index) == Ok::<Option<(Seq<char>, Seq<u8>)>, Seq<char>>(
            None,
        ),
        key matches Some(k) ==> (lower_seq(k.method@) == "aes-128"@ ==> (k.uri matches Some(u) ==> (
        k.iv matches Some(iv) ==> spec_decryption(key, index) == Ok::<
            Option<(Seq<char>, Seq<u8>)>,
            Seq<char>,
        >(Some((u@, iv@)))))),
        key matches Some(k) ==> (lower_seq(k.method@) == "aes-128"@ ==> (k.uri matches Some(u) ==> (
        k.iv is None ==> spec_decryption(key, index) == Ok::<Option<(Seq<char>, Seq<u8>)>, Seq<char>>(
            Some((u@, spec_iv_from_media_sequence(index))),
        )))),
        key matches Some(k) ==> (lower_seq(k.method@) != "aes-128"@ ==> spec_decryption(key, index) is Err),
{
}

pub fn decryption_plan(key: &Option<KeyInfo>, index: u64) -> (r: Result<
    Option<(String, [u8; 16])>,
    ApiError,
>)
    ensures
        match r {
            Ok(None) => spec_decryption(*key, index) == Ok::<
                Option<(Seq<char>, Seq<u8>)>,
                Seq<char>,
            >(None),
            Ok(Some((u, iv))) => spec_decryption(*key, index) == Ok::<
                Option<(Seq<char>, Seq<u8>)>,
                Seq<char>,
            >(Some((u@, iv@))),
            Err(ApiError::ResponseShape(m)) => spec_decryption(*key, index) == Err::<
                Option<(Seq<char>, Seq<u8>)>,
                Seq<char>,
            >(m@),
            Err(_) => false,
        },
{
    match key {
        None => Ok(None),
        Some(k) => {
            let m = chars_of(k.method.as_str());
            let lm = lower_chars(&m);
            let target = chars_of("aes-128");
            if !crate::text::chars_eq(&lm, &target) {
                let mut msg = String::new();
                msg.push_str("unsupported HLS key method: ");
                msg.push_str(k.method.as_str());
                return Err(ApiError::ResponseShape(msg));
            }
            match &k.uri {
                None => {
                    let mut msg = String::new();
                    msg.push_str("AES-128 key without URI");
                    Err(ApiError::ResponseShape(msg))
                },
                Some(u) => {
                    let iv = match k.iv {
                        Some(iv) => iv,
                        None => iv_from_media_sequence(index),
                    };
                    Ok(Some((u.clone(), iv)))
                },
            }
        },
    }
}

/// A fetched key: exactly 16 bytes, else an error naming the key URI and the
/// length received.
pub fn key_from_bytes(key_uri: &str, bytes: &[u8]) -> (r: Result<[u8; 16], ApiError>)
    ensures
        bytes.len() == 16 ==> (r matches Ok(k) && k@ == bytes@),
        bytes.len() != 16 ==> (r matches Err(ApiError::ResponseShape(m)) && m@ == "AES-128 key "@
            + key_uri@ + " must be 16 bytes, got "@ + dec(bytes.len() as nat)),
{
    if bytes.len() != 16 {
        let mut m = String::new();
        m.push_str("AES-128 key ");
        m.push_str(key_uri);
        m.push_str(" must be 16 bytes, got ");
        push_dec(&mut m, bytes.len() as u64);
        return Err(ApiError::ResponseShape(m));
    }
    let mut k = [0u8; 16];
    let mut i: usize = 0;
    while i < 16
        invariant
            i <= 16,
            bytes.len() == 16,
            k@.len() == 16,
            forall|j: int| 0 <= j < i ==> k@[j] == bytes@[j],
        decreases 16 - i,
    {
        k[i] = bytes[i];
        i += 1;
    }
    assert(k@ =~= bytes@);
    Ok(k)
}

// ---------------------------------------------------------------------------
// Writing segments in playlist order
// ---------------------------------------------------------------------------

/// Segments that arrived, held until every earlier one has been written.
pub struct SegmentOrder {
    /// The index of the next segment to write.
    next: usize,
    /// One slot per segment; `Some` while it waits to be written.
    slots: Vec<Option<Vec<u8>>>,
}

/// The state of a [`SegmentOrder`]: the next index to write, and the
/// segments waiting, by index.
pub struct SegmentOrderV {
    pub next: nat,
    pub slots: Seq<Option<Seq<u8>>>,
}

pub open spec fn slot_views(v: Seq<Option<Vec<u8>>>) -> Seq<Option<Seq<u8>>> {
    v.map_values(
        |o: Option<Vec<u8>>|
            match o {
                Some(b) => Some(b@),
                None => None,
            },
    )
}

impl View for SegmentOrder {
    type V = SegmentOrderV;

    closed spec fn view(&self) -> SegmentOrderV {
        SegmentOrderV { next: self.next as nat, slots: slot_views(self.slots@) }
    }
}

/// No segment before `next` waits.
pub open spec fn order_wf(s: SegmentOrderV) -> bool {
    &&& s.next <= s.slots.len()
    &&& forall|i: int| 0 <= i < s.next ==> #[trigger] s.slots[i] is None
}

/// Write every waiting segment from `next` on while there is no gap:
/// the new state and the segments written, in order.
pub open spec fn drain(s: SegmentOrderV) -> (SegmentOrderV, Seq<Seq<u8>>)
    decreases s.slots.len() - s.next,
{
    if s.next < s.slots.len() && s.slots[s.next as int] is Some {
        let b = s.slots[s.next as int]->0;
        let r = drain(
            SegmentOrderV { next: s.next + 1, slots: s.slots.update(s.next as int, None) },
        );
        (r.0, seq![b] + r.1)
    } else {
        (s, Seq::empty())
    }
}

/// The effect of segment `idx` arriving with `bytes`.
pub open spec fn spec_accept(s: SegmentOrderV, idx: nat, bytes: Seq<u8>) -> (
    SegmentOrderV,
    Seq<Seq<u8>>,
) {
    drain(SegmentOrderV { next: s.next, slots: s.slots.update(idx as int, Some(bytes)) })
}

/// What is still waiting when the fetches are over, in index order.
pub open spec fn waiting(slots: Seq<Option<Seq<u8>>>) -> Seq<Seq<u8>>
    decreases slots.len(),
{
    if slots.len() == 0 {
        Seq::empty()
    } else {
        let rest = waiting(slots.drop_last());
        match slots.last() {
            Some(b) => rest.push(b),
            None => rest,
        }
    }
}

impl SegmentOrder {
    pub closed spec fn total(&self) -> nat {
        self.slots@.len()
    }

    /// Nothing written yet, `total` segments expected.
    pub fn new(total: usize) -> (r: SegmentOrder)
        ensures
            r@.next == 0,
            r@.slots == Seq::new(total as nat, |i: int| None::<Seq<u8>>),
            order_wf(r@),
    {
        let mut slots: Vec<Option<Vec<u8>>> = Vec::new();
        let mut i: usize = 0;
        while i < total
            invariant
                i <= total,
                slots@.len() == i,
                forall|k: int| 0 <= k < i ==> #[trigger] slots@[k] is None,
            decreases total - i,
        {
            slots.push(None);
            i += 1;
        }
        assert(slot_views(slots@) =~= Seq::new(total as nat, |k: int| None::<Seq<u8>>));
        SegmentOrder { next: 0, slots }
    }

    /// The index of the next segment to write.
    pub fn next_index(&self) -> (n: usize)
        ensures
            n == self@.next,
    {
        self.next
    }

    /// The number of segments expected.
    pub fn len(&self) -> (n: usize)
        ensures
            n == self@.slots.len(),
    {
        self.slots.len()
    }

    /// Segment `idx` arrived: hold it, and hand back, in order, every
    /// segment that can now be written.
    pub fn accept(&mut self, idx: usize, bytes: Vec<u8>) -> (out: Vec<Vec<u8>>)
        requires
            order_wf(old(self)@),
            idx < old(self)@.slots.len(),
            idx >= old(self)@.next,
        ensures
            order_wf(final(self)@),
            (final(self)@, out@.map_values(|b: Vec<u8>| b@)) == spec_accept(
                old(self)@,
                idx as nat,
                bytes@,
            ),
    {
        let ghost start = SegmentOrderV {
            next: self.next as nat,
            slots: slot_views(self.slots@).update(idx as int, Some(bytes@)),
        };
        self.slots.set(idx, Some(bytes));
        assert(slot_views(self.slots@) =~= start.slots);
        let mut out: Vec<Vec<u8>> = Vec::new();
        while self.next < self.slots.len() && self.slots[self.next].is_some()
            invariant
                self.next <= self.slots.len(),
                self.slots.len() == start.slots.len(),
                forall|i: int| 0 <= i < self.next ==> #[trigger] slot_views(self.slots@)[i] is None,
                drain(start) == (
                    drain(self@).0,
                    out@.map_values(|b: Vec<u8>| b@) + drain(self@).1,
                ),
            decreases self.slots.len() - self.next,
        {
            let n = self.next;
            let ghost before = self@;
            let b = self.take_slot(n);
            out.push(b);
            self.next = n + 1;
            proof {
                assert(self@.slots =~= before.slots.update(n as int, None));
                assert(out@.map_values(|b: Vec<u8>| b@) =~= out@.drop_last().map_values(
                    |b: Vec<u8>| b@,
                ).push(out@.last()@));
            }
        }
        proof {
            assert(drain(self@).1 =~= Seq::<Seq<u8>>::empty());
            assert(out@.map_values(|b: Vec<u8>| b@) + Seq::<Seq<u8>>::empty() =~= out@.map_values(
                |b: Vec<u8>| b@,
            ));
        }
        out
    }

    fn take_slot(&mut self, n: usize) -> (b: Vec<u8>)
        requires
            n < old(self).slots@.len(),
            old(self).slots@[n as int] is Some,
        ensures
            b@ == slot_views(old(self).slots@)[n as int]->0,
            final(self).next == old(self).next,
            slot_views(final(self).slots@) == slot_views(old(self).slots@).update(n as int, None),
    {
        let mut taken: Option<Vec<u8>> = None;
        std::mem::swap(&mut taken, &mut self.slots[n]);
        assert(slot_views(self.slots@) =~= slot_views(old(self).slots@).update(n as int, None));
        match taken {
            Some(b) => b,
            None => Vec::new(),
        }
    }

    /// The fetches are over: hand back what still waits, in index order.
    pub fn finish(self) -> (out: Vec<Vec<u8>>)
        ensures
            out@.map_values(|b: Vec<u8>| b@) == waiting(self@.slots),
    {
        let mut slots = self.slots;
        let ghost sv = slot_views(slots@);
        let mut out: Vec<Vec<u8>> = Vec::new();
        let mut i: usize = 0;
        let n = slots.len();
        assert(sv.take(0) =~= Seq::<Option<Seq<u8>>>::empty());
        while i < n
            invariant
                i <= n,
                n == slots.len(),
                forall|k: int| i <= k < n ==> #[trigger] slot_views(slots@)[k] == sv[k],
                sv.len() == n,
                out@.map_values(|b: Vec<u8>| b@) == waiting(sv.take(i as int)),
            decreases n - i,
        {
            let ghost t = sv.take(i + 1);
            assert(t.drop_last() =~= sv.take(i as int));
            assert(t.last() == sv[i as int]);
            let mut taken: Option<Vec<u8>> = None;
            let ghost before_slots = slot_views(slots@);
            let ghost old_slot = slots@[i as int];
            assert(before_slots[i as int] == match old_slot {
                Some(b) => Some(b@),
                None => None::<Seq<u8>>,
            });
            std::mem::swap(&mut taken, &mut slots[i]);
            assert(taken == old_slot);
            assert(slot_views(slots@) =~= before_slots.update(i as int, None));
            let ghost before = out@.map_values(|b: Vec<u8>| b@);
            match taken {
                Some(b) => {
                    out.push(b);
                    assert(out@.map_values(|b: Vec<u8>| b@) =~= before.push(sv[i as int]->0));
                },
                None => {},
            }
            i += 1;
        }
        assert(sv.take(n as int) =~= sv);
        out
    }
}

// ---------------------------------------------------------------------------
// The law of in-order writing
// ---------------------------------------------------------------------------

/// The effect of a run of arrivals `(index, bytes)`: the final state and
/// everything written, in order.
pub open spec fn run_arrivals(s: SegmentOrderV, arrivals: Seq<(nat, Seq<u8>)>) -> (
    SegmentOrderV,
    Seq<Seq<u8>>,
)
    decreases arrivals.len(),
{
    if arrivals.len() == 0 {
        (s, Seq::empty())
    } else {
        let r = run_arrivals(s, arrivals.drop_last());
        let a = spec_accept(r.0, arrivals.last().0, arrivals.last().1);
        (a.0, r.1 + a.1)
    }
}

pub open spec fn consistent(s: SegmentOrderV, segs: Seq<Seq<u8>>, got: Set<nat>) -> bool {
    &&& s.slots.len() == segs.len()
    &&& s.next <= segs.len()
    &&& forall|i: nat| i < s.next ==> got.contains(i)
    &&& forall|i: int|
        0 <= i < segs.len() ==> #[trigger] s.slots[i] == (if i >= s.next && got.contains(
            i as nat,
        ) {
            Some(segs[i])
        } else {
            None
        })
    &&& (s.next < segs.len() ==> !got.contains(s.next))
}

proof fn lemma_drain(
    s: SegmentOrderV,
    segs: Seq<Seq<u8>>,
    got: Set<nat>,
)
    requires
        s.slots.len() == segs.len(),
        s.next <= segs.len(),
        forall|i: nat| i < s.next ==> got.contains(i),
        forall|i: int|
            0 <= i < segs.len() ==> #[trigger] s.slots[i] == (if i >= s.next && got.contains(
                i as nat,
            ) {
                Some(segs[i])
            } else {
                None
            }),
    ensures
        consistent(drain(s).0, segs, got),
        drain(s).1 == segs.subrange(s.next as int, drain(s).0.next as int),
        drain(s).0.next >= s.next,
    decreases s.slots.len() - s.next,
{
    if s.next < s.slots.len() && s.slots[s.next as int] is Some {
        let s2 = SegmentOrderV { next: s.next + 1, slots: s.slots.update(s.next as int, None) };
        assert forall|i: int| 0 <= i < segs.len() implies #[trigger] s2.slots[i] == (if i
            >= s2.next && got.contains(i as nat) {
            Some(segs[i])
        } else {
            None
        }) by {
            if i == s.next {
            } else {
                assert(s2.slots[i] == s.slots[i]);
            }
        }
        assert(got.contains(s.next));
        lemma_drain(s2, segs, got);
        let r = drain(s2);
        assert(segs.subrange(s.next as int, r.0.next as int) =~= seq![segs[s.next as int]]
            + segs.subrange(s2.next as int, r.0.next as int));
    } else {
        assert(segs.subrange(s.next as int, s.next as int) =~= Seq::<Seq<u8>>::empty());
        if s.next < segs.len() {
            assert(s.slots[s.next as int] is None);
        }
    }
}

/// The indices of a run of arrivals.
pub open spec fn arrived(arrivals: Seq<(nat, Seq<u8>)>) -> Set<nat> {
    Set::new(|i: nat| exists|k: int| 0 <= k < arrivals.len() && #[trigger] arrivals[k].0 == i)
}

proof fn lemma_run(segs: Seq<Seq<u8>>, arrivals: Seq<(nat, Seq<u8>)>)
    requires
        forall|k: int| 0 <= k < arrivals.len() ==> (#[trigger] arrivals[k]).0 < segs.len()
            && arrivals[k].1 == segs[arrivals[k].0 as int],
        forall|k: int, l: int|
            0 <= k < l < arrivals.len() ==> (#[trigger] arrivals[k]).0 != (#[trigger] arrivals[l]).0,
    ensures
        consistent(
            run_arrivals(SegmentOrderV { next: 0, slots: Seq::new(segs.len(), |i: int| None) }, arrivals).0,
            segs,
            arrived(arrivals),
        ),
        run_arrivals(
            SegmentOrderV { next: 0, slots: Seq::new(segs.len(), |i: int| None) },
            arrivals,
        ).1.flatten_alt() == segs.take(
            run_arrivals(
                SegmentOrderV { next: 0, slots: Seq::new(segs.len(), |i: int| None) },
                arrivals,
            ).0.next as int,
        ).flatten_alt(),
    decreases arrivals.len(),
{
    let init = SegmentOrderV { next: 0, slots: Seq::new(segs.len(), |i: int| None) };
    if arrivals.len() == 0 {
        assert(arrived(arrivals) =~= Set::<nat>::empty());
        assert(segs.take(0) =~= Seq::<Seq<u8>>::empty());
        assert(Seq::<Seq<u8>>::empty().flatten_alt() =~= Seq::<u8>::empty());
        if 0 < segs.len() {
            assert(!arrived(arrivals).contains(0));
        }
    } else {
        let prev = arrivals.drop_last();
        assert forall|k: int| 0 <= k < prev.len() implies (#[trigger] prev[k]).0 < segs.len()
            && prev[k].1 == segs[prev[k].0 as int] by {
            assert(prev[k] == arrivals[k]);
        }
        assert forall|k: int, l: int| 0 <= k < l < prev.len() implies (#[trigger] prev[k]).0
            != (#[trigger] prev[l]).0 by {
            assert(prev[k] == arrivals[k] && prev[l] == arrivals[l]);
        }
        lemma_run(segs, prev);
        let r = run_arrivals(init, prev);
        let s = r.0;
        let got = arrived(prev);
        let (idx, bytes) = arrivals.last();
        let got2 = arrived(arrivals);
        assert(got2 =~= got.insert(idx)) by {
            assert forall|i: nat| got2.contains(i) implies #[trigger] got.insert(idx).contains(i) by {
                let k = choose|k: int| 0 <= k < arrivals.len() && #[trigger] arrivals[k].0 == i;
                if k < arrivals.len() - 1 {
                    assert(prev[k] == arrivals[k]);
                }
            }
            assert forall|i: nat| got.insert(idx).contains(i) implies #[trigger] got2.contains(i) by {
                if i == idx {
                    assert(arrivals[arrivals.len() - 1].0 == i);
                } else {
                    let k = choose|k: int| 0 <= k < prev.len() && #[trigger] prev[k].0 == i;
                    assert(arrivals[k] == prev[k]);
                }
            }
        }
        assert(!got.contains(idx)) by {
            if got.contains(idx) {
                let k = choose|k: int| 0 <= k < prev.len() && #[trigger] prev[k].0 == idx;
                assert(arrivals[k] == prev[k]);
                assert(arrivals[k].0 != arrivals[arrivals.len() - 1].0);
            }
        }
        assert(idx >= s.next) by {
            if idx < s.next {
                assert(got.contains(idx));
            }
        }
        let s1 = SegmentOrderV { next: s.next, slots: s.slots.update(idx as int, Some(bytes)) };
        assert forall|i: int| 0 <= i < segs.len() implies #[trigger] s1.slots[i] == (if i
            >= s1.next && got2.contains(i as nat) {
            Some(segs[i])
        } else {
            None
        }) by {
            if i == idx {
            } else {
                assert(s1.slots[i] == s.slots[i]);
                assert(got2.contains(i as nat) == got.contains(i as nat));
            }
        }
        lemma_drain(s1, segs, got2);
        let d = drain(s1);
        let total = r.1 + d.1;
        assert(segs.take(d.0.next as int) =~= segs.take(s.next as int) + segs.subrange(
            s.next as int,
            d.0.next as int,
        ));
        vstd::seq_lib::lemma_flatten_alt_concat(r.1, d.1);
        vstd::seq_lib::lemma_flatten_alt_concat(
            segs.take(s.next as int),
            segs.subrange(s.next as int, d.0.next as int),
        );
    }
}

/// Whatever order the segments of a playlist arrive in, each once, what is
/// written — as they arrive, then what still waits at the end — is the
/// segments in playlist order.
pub proof fn law_segments_written_in_order(
    segs: Seq<Seq<u8>>,
    arrivals: Seq<(nat, Seq<u8>)>,
)
    requires
        arrivals.len() == segs.len(),
        forall|k: int| 0 <= k < arrivals.len() ==> (#[trigger] arrivals[k]).0 < segs.len()
            && arrivals[k].1 == segs[arrivals[k].0 as int],
        forall|k: int, l: int|
            0 <= k < l < arrivals.len() ==> (#[trigger] arrivals[k]).0 != (#[trigger] arrivals[l]).0,
    ensures
        ({
            let r = run_arrivals(
                SegmentOrderV { next: 0, slots: Seq::new(segs.len(), |i: int| None) },
                arrivals,
            );
            (r.1 + waiting(r.0.slots)).flatten_alt() == segs.flatten_alt()
        }),
{
    lemma_run(segs, arrivals);
    let r = run_arrivals(
        SegmentOrderV { next: 0, slots: Seq::new(segs.len(), |i: int| None) },
        arrivals,
    );
    let got = arrived(arrivals);
    // every index arrived: the arrivals are distinct and as many as the segments
    assert forall|i: nat| i < segs.len() implies got.contains(i) by {
        lemma_all_arrived(segs.len(), arrivals, i);
    }
    assert(r.0.next == segs.len());
    lemma_waiting_none(r.0.slots);
    assert(segs.take(segs.len() as int) =~= segs);
    assert(r.1 + Seq::<Seq<u8>>::empty() =~= r.1);
}

proof fn lemma_waiting_none(slots: Seq<Option<Seq<u8>>>)
    requires
        forall|i: int| 0 <= i < slots.len() ==> #[trigger] slots[i] is None,
    ensures
        waiting(slots) == Seq::<Seq<u8>>::empty(),
    decreases slots.len(),
{
    if slots.len() > 0 {
        assert forall|i: int| 0 <= i < slots.drop_last().len() implies #[trigger] slots.drop_last()[i]
            is None by {
            assert(slots.drop_last()[i] == slots[i]);
        }
        lemma_waiting_none(slots.drop_last());
        assert(slots[slots.len() - 1] is None);
    }
}

/// `n` distinct indices below `n` are all the indices below `n`.
proof fn lemma_all_arrived(n: nat, arrivals: Seq<(nat, Seq<u8>)>, i: nat)
    requires
        arrivals.len() == n,
        i < n,
        forall|k: int| 0 <= k < arrivals.len() ==> (#[trigger] arrivals[k]).0 < n,
        forall|k: int, l: int|
            0 <= k < l < arrivals.len() ==> (#[trigger] arrivals[k]).0 != (#[trigger] arrivals[l]).0,
    ensures
        arrived(arrivals).contains(i),
{
    let idxs = arrivals.map_values(|a: (nat, Seq<u8>)| a.0 as int);
    let s = idxs.to_set();
    assert(idxs.no_duplicates()) by {
        assert forall|k: int, l: int|
            0 <= k < idxs.len() && 0 <= l < idxs.len() && k != l implies idxs[k] != idxs[l] by {
            if k < l {
                assert(arrivals[k].0 != arrivals[l].0);
            } else {
                assert(arrivals[l].0 != arrivals[k].0);
            }
        }
    }
    idxs.unique_seq_to_set();
    vstd::seq_lib::seq_to_set_is_finite(idxs);
    let full = vstd::set_lib::set_int_range(0, n as int);
    vstd::set_lib::lemma_int_range(0, n as int);
    assert(s.subset_of(full)) by {
        assert forall|j: int| s.contains(j) implies full.contains(j) by {
            let k = choose|k: int| 0 <= k < idxs.len() && idxs[k] == j;
            assert(arrivals[k].0 < n);
        }
    }
    vstd::set_lib::lemma_subset_equality(s, full);
    assert(full.contains(i as int));
    assert(s.contains(i as int));
    let k = choose|k: int| 0 <= k < idxs.len() && idxs[k] == i as int;
    assert(arrivals[k].0 == i);
}

} // verus!
