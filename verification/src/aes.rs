//! AES-128-CBC decryption for HLS `EXT-X-KEY:METHOD=AES-128` segments
//! (RFC 8216 §5.2): a 16-byte key, a 16-byte IV and PKCS#7 padding.  The
//! cipher itself is the `aes` and `cbc` crates'.
use vstd::prelude::*;

use aes::cipher::{block_padding::Pkcs7, BlockDecryptMut, KeyIvInit};

use crate::error::ApiError;
use crate::text::{dec, push_dec};

verus! {

/// What `cbc::Decryptor<aes::Aes128>` with `decrypt_padded_mut::<Pkcs7>`
/// gives for a key, an IV and a whole number of ciphertext blocks: the
/// plaintext without its padding, or `None` when the padding is malformed.
pub uninterp spec fn aes128_cbc_pkcs7_plaintext(
    key: Seq<u8>,
    iv: Seq<u8>,
    ciphertext: Seq<u8>,
) -> Option<Seq<u8>>;

/// Calls `cbc::Decryptor::<aes::Aes128>::new(key, iv).decrypt_padded_mut::<Pkcs7>`
/// on a copy of `ciphertext`.  Claimed of it: the result is the named
/// plaintext of the three arguments; PKCS#7 removes between 1 and 16 bytes
/// (block-padding's `Pkcs7::unpad`); a malformed padding is `UnpadError`,
/// whose `Display` is `Unpad Error`.
#[verifier::external_body]
fn cbc_decrypt_padded(key: &[u8; 16], iv: &[u8; 16], ciphertext: &[u8]) -> (r: Result<
    Vec<u8>,
    String,
>)
    requires
        ciphertext.len() > 0,
        ciphertext.len() % 16 == 0,
    ensures
        match r {
            Ok(p) => {
                &&& aes128_cbc_pkcs7_plaintext(key@, iv@, ciphertext@) == Some(p@)
                &&& ciphertext.len() - 16 <= p.len() < ciphertext.len()
            },
            Err(msg) => {
                &&& aes128_cbc_pkcs7_plaintext(key@, iv@, ciphertext@) is None
                &&& msg@ == "Unpad Error"@
            },
        },
{
    let mut buffer = ciphertext.to_vec();
    let cipher = cbc::Decryptor::<aes::Aes128>::new(key.into(), iv.into());
    match cipher.decrypt_padded_mut::<Pkcs7>(&mut buffer) {
        Ok(plain) => Ok(plain.to_vec()),
        Err(e) => Err(e.to_string()),
    }
}

/// The error text for a ciphertext whose length is not a whole number of
/// blocks.
pub open spec fn misaligned_message(len: nat) -> Seq<char> {
    "AES-128-CBC ciphertext length "@ + dec(len) + " is not a multiple of 16"@
}

/// The error text for a malformed padding.
pub open spec fn decrypt_failed_message(detail: Seq<char>) -> Seq<char> {
    "AES-128-CBC decrypt failed: "@ + detail
}

/// What the decryption returns for the cipher's outcome: the plaintext, or
/// a downloader error that carries the cipher's message.
pub fn decrypt_outcome(raw: Result<Vec<u8>, String>) -> (r: Result<Vec<u8>, ApiError>)
    ensures
        match raw {
            Ok(p) => r matches Ok(q) && q@ == p@,
            Err(m) => r matches Err(ApiError::Downloader(msg)) && msg@ == decrypt_failed_message(m@),
        },
{
    match raw {
        Ok(p) => Ok(p),
        Err(m) => {
            let mut msg = String::new();
            msg.push_str("AES-128-CBC decrypt failed: ");
            msg.push_str(m.as_str());
            Err(ApiError::Downloader(msg))
        },
    }
}

/// Decrypt `ciphertext` with a 16-byte key and IV and strip the PKCS#7
/// padding.  Empty input gives empty output; a length that is not a
/// multiple of 16 is refused before the cipher runs.
pub fn decrypt_aes_128_cbc(key: &[u8; 16], iv: &[u8; 16], ciphertext: &[u8]) -> (r: Result<
    Vec<u8>,
    ApiError,
>)
    ensures
        ciphertext.len() == 0 ==> (r matches Ok(p) && p@.len() == 0),
        ciphertext.len() % 16 != 0 ==> (r matches Err(ApiError::Downloader(msg)) && msg@
            == misaligned_message(ciphertext.len() as nat)),
        ciphertext.len() > 0 && ciphertext.len() % 16 == 0 ==> match aes128_cbc_pkcs7_plaintext(
            key@,
            iv@,
            ciphertext@,
        ) {
            Some(p) => r matches Ok(q) && q@ == p,
            None => r matches Err(ApiError::Downloader(msg)) && msg@ == decrypt_failed_message(
                "Unpad Error"@,
            ),
        },
        ciphertext.len() > 0 ==> (r matches Ok(p) ==> ciphertext.len() - 16 <= p.len()
            < ciphertext.len()),
{
    if ciphertext.len() == 0 {
        return Ok(Vec::new());
    }
    if ciphertext.len() % 16 != 0 {
        let mut msg = String::new();
        msg.push_str("AES-128-CBC ciphertext length ");
        push_dec(&mut msg, ciphertext.len() as u64);
        msg.push_str(" is not a multiple of 16");
        return Err(ApiError::Downloader(msg));
    }
    let raw = cbc_decrypt_padded(key, iv, ciphertext);
    decrypt_outcome(raw)
}

/// The IV used when `EXT-X-KEY` has no `IV` attribute: the media sequence
/// number as a 128-bit big-endian integer.
pub open spec fn spec_iv_from_media_sequence(seq: u64) -> Seq<u8> {
    Seq::new(16, |i: int| if i < 8 { 0u8 } else { ((seq as nat / pow256((15 - i) as nat)) % 256) as u8 })
}

/// `256^k`.
pub open spec fn pow256(k: nat) -> nat
    decreases k,
{
    if k == 0 {
        1
    } else {
        256 * pow256((k - 1) as nat)
    }
}

/// The IV of a segment without one is its media sequence number as a
/// 128-bit big-endian integer: eight zero bytes, then the number's bytes
/// from the most significant (byte 8) to the least significant (byte 15).
pub proof fn law_iv_is_big_endian_sequence(seq: u64)
    ensures
        spec_iv_from_media_sequence(seq).len() == 16,
        forall|i: int| 0 <= i < 8 ==> #[trigger] spec_iv_from_media_sequence(seq)[i] == 0,
        spec_iv_from_media_sequence(seq)[15] == seq % 256,
        spec_iv_from_media_sequence(seq)[14] == (seq / 256) % 256,
        spec_iv_from_media_sequence(seq)[8] == seq / 0x100_0000_0000_0000,
{
    reveal_with_fuel(pow256, 8);
    assert(pow256(0) == 1 && pow256(1) == 256 && pow256(7) == 0x100_0000_0000_0000);
    assert(seq as nat / 1 == seq as nat);
    let iv = spec_iv_from_media_sequence(seq);
    assert(iv[15] == ((seq as nat / pow256(0)) % 256) as u8);
    assert(iv[14] == ((seq as nat / pow256(1)) % 256) as u8);
    assert(iv[8] == ((seq as nat / pow256(7)) % 256) as u8);
    assert(seq as nat / 0x100_0000_0000_0000 < 256) by (nonlinear_arith)
        requires
            seq < 0x1_0000_0000_0000_0000,
    ;
}

pub fn iv_from_media_sequence(seq: u64) -> (iv: [u8; 16])
    ensures
        iv@ == spec_iv_from_media_sequence(seq),
{
    let mut iv = [0u8; 16];
    let mut k: usize = 0;
    while k < 8
        invariant
            k <= 8,
            iv@.len() == 16,
            forall|i: int| 0 <= i < 8 ==> iv@[i] == 0u8,
            forall|i: int| 8 <= i < 16 && 15 - i < k ==> #[trigger] iv@[i] == ((seq as nat / pow256((15 - i) as nat)) % 256) as u8,
            forall|i: int| 8 <= i < 16 && 15 - i >= k ==> iv@[i] == 0u8,
        decreases 8 - k,
    {
        let shift: u64 = 8 * (k as u64);
        let byte = ((seq >> shift) & 0xFF) as u8;
        proof {
            lemma_byte_of(seq, k as nat);
        }
        iv[15 - k] = byte;
        k += 1;
    }
    assert(iv@ =~= spec_iv_from_media_sequence(seq));
    iv
}

proof fn lemma_byte_of(seq: u64, k: nat)
    requires
        k < 8,
    ensures
        ((seq >> (8 * k) as u64) & 0xFF) as u8 == ((seq as nat / pow256(k)) % 256) as u8,
{
    assert(pow256(0) == 1);
    assert(pow256(1) == 256);
    assert(pow256(2) == 65536);
    assert(pow256(3) == 16777216);
    assert(pow256(4) == 4294967296);
    assert(pow256(5) == 1099511627776);
    assert(pow256(6) == 281474976710656);
    assert(pow256(7) == 72057594037927936);
    if k == 0 {
        assert(((seq >> 0u64) & 0xFF) as u8 == ((seq / 1) % 256) as u8) by (bit_vector);
    } else if k == 1 {
        assert(((seq >> 8u64) & 0xFF) as u8 == ((seq / 256) % 256) as u8) by (bit_vector);
    } else if k == 2 {
        assert(((seq >> 16u64) & 0xFF) as u8 == ((seq / 65536) % 256) as u8) by (bit_vector);
    } else if k == 3 {
        assert(((seq >> 24u64) & 0xFF) as u8 == ((seq / 16777216) % 256) as u8) by (bit_vector);
    } else if k == 4 {
        assert(((seq >> 32u64) & 0xFF) as u8 == ((seq / 4294967296) % 256) as u8) by (bit_vector);
    } else if k == 5 {
        assert(((seq >> 40u64) & 0xFF) as u8 == ((seq / 1099511627776) % 256) as u8) by (bit_vector);
    } else if k == 6 {
        assert(((seq >> 48u64) & 0xFF) as u8 == ((seq / 281474976710656) % 256) as u8) by (bit_vector);
    } else {
        assert(((seq >> 56u64) & 0xFF) as u8 == ((seq / 72057594037927936) % 256) as u8) by (bit_vector);
    }
}

} // verus!
