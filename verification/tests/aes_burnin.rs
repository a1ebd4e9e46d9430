use aes::cipher::block_padding::{NoPadding, Pkcs7};
use aes::cipher::{BlockEncryptMut, KeyIvInit};
use nndd_next::aes::{decrypt_aes_128_cbc, iv_from_media_sequence};
use nndd_next::burnin::{failure_message, parse_feed_frame, FLAG_EMPTY, FLAG_FRAME, FLAG_SET_EMPTY};
use nndd_next::error::ApiError;

fn encrypt(key: &[u8; 16], iv: &[u8; 16], plaintext: &[u8]) -> Vec<u8> {
    let mut buf = vec![0u8; plaintext.len() + 16];
    let n = cbc::Encryptor::<aes::Aes128>::new(key.into(), iv.into())
        .encrypt_padded_b2b_mut::<Pkcs7>(plaintext, &mut buf)
        .expect("encrypt fits in buffer")
        .len();
    buf.truncate(n);
    buf
}

#[test]
fn round_trips_plaintext() {
    let key = [0x42u8; 16];
    let iv = [0xAAu8; 16];
    let plain = b"This is a test plaintext that crosses block boundaries.".to_vec();
    let cipher = encrypt(&key, &iv, &plain);
    let back = decrypt_aes_128_cbc(&key, &iv, &cipher).unwrap();
    assert!(cipher.len() - 16 <= back.len() && back.len() < cipher.len());
    assert_eq!(back, plain);
}

#[test]
fn empty_input_yields_empty_output() {
    let key = [0u8; 16];
    let iv = [0u8; 16];
    assert!(decrypt_aes_128_cbc(&key, &iv, &[]).unwrap().is_empty());
}

#[test]
fn rejects_non_16_byte_aligned_ciphertext() {
    let key = [0u8; 16];
    let iv = [0u8; 16];
    let bad = vec![0u8; 17];
    let err = decrypt_aes_128_cbc(&key, &iv, &bad).unwrap_err();
    assert!(matches!(err, ApiError::Downloader(_)));
}

#[test]
fn error_messages_of_decryption() {
    let key = [1u8; 16];
    let iv = [2u8; 16];
    match decrypt_aes_128_cbc(&key, &iv, &[0u8; 17]) {
        Err(ApiError::Downloader(m)) => {
            assert_eq!(m, "AES-128-CBC ciphertext length 17 is not a multiple of 16")
        }
        other => panic!("unexpected {other:?}"),
    }
    // a block whose last byte is 0 carries no valid padding
    let zero_pad = encrypt_raw_block(&key, &iv, &[0u8; 16]);
    match decrypt_aes_128_cbc(&key, &iv, &zero_pad) {
        Err(ApiError::Downloader(m)) => assert_eq!(m, "AES-128-CBC decrypt failed: Unpad Error"),
        other => panic!("unexpected {other:?}"),
    }
    let one_block = encrypt(&key, &iv, &[7u8; 15]);
    assert_eq!(one_block.len(), 16);
    assert_eq!(decrypt_aes_128_cbc(&key, &iv, &one_block).unwrap(), vec![7u8; 15]);
}

fn encrypt_raw_block(key: &[u8; 16], iv: &[u8; 16], block: &[u8; 16]) -> Vec<u8> {
    let mut buf = vec![0u8; 16];
    cbc::Encryptor::<aes::Aes128>::new(key.into(), iv.into())
        .encrypt_padded_b2b_mut::<NoPadding>(block, &mut buf)
        .expect("one block")
        .to_vec()
}

#[test]
fn iv_from_media_sequence_packs_be() {
    let iv = iv_from_media_sequence(0x0102030405060708);
    assert_eq!(iv[..8], [0u8; 8]);
    assert_eq!(iv[8..], [0x01, 0x02, 0x03, 0x04, 0x05, 0x06, 0x07, 0x08]);
}

#[test]
fn iv_of_small_sequence_numbers() {
    assert_eq!(iv_from_media_sequence(0), [0u8; 16]);
    let iv = iv_from_media_sequence(258);
    assert_eq!(iv[14..], [1, 2]);
    assert_eq!(iv_from_media_sequence(u64::MAX)[8..], [0xFF; 8]);
}

#[test]
fn feed_frame_roundtrips() {
    let sid = "abc123";
    let png = [0u8, 1, 2, 3, 255];
    let mut body = Vec::new();
    body.push(FLAG_FRAME);
    body.extend_from_slice(&(sid.len() as u32).to_le_bytes());
    body.extend_from_slice(sid.as_bytes());
    body.extend_from_slice(&png);
    let (flag, parsed_sid, payload) = parse_feed_frame(&body).unwrap();
    assert_eq!(flag, FLAG_FRAME);
    assert_eq!(parsed_sid, sid);
    assert_eq!(payload, png);
}

#[test]
fn feed_frame_empty_has_no_payload() {
    let sid = "s";
    let mut body = Vec::new();
    body.push(FLAG_EMPTY);
    body.extend_from_slice(&(sid.len() as u32).to_le_bytes());
    body.extend_from_slice(sid.as_bytes());
    let (flag, parsed_sid, payload) = parse_feed_frame(&body).unwrap();
    assert_eq!(flag, FLAG_EMPTY);
    assert_eq!(parsed_sid, sid);
    assert!(payload.is_empty());
}

#[test]
fn feed_frame_rejects_truncated() {
    assert!(parse_feed_frame(&[]).is_none());
    assert!(parse_feed_frame(&[FLAG_FRAME, 10, 0, 0, 0]).is_none());
}

#[test]
fn feed_frame_multibyte_session_and_bad_utf8() {
    let sid = "セッション";
    let mut body = vec![FLAG_SET_EMPTY];
    body.extend_from_slice(&(sid.len() as u32).to_le_bytes());
    body.extend_from_slice(sid.as_bytes());
    body.extend_from_slice(b"png");
    let (flag, parsed, payload) = parse_feed_frame(&body).unwrap();
    assert_eq!((flag, parsed.as_str(), payload), (FLAG_SET_EMPTY, sid, &b"png"[..]));
    let bad = [FLAG_FRAME, 1, 0, 0, 0, 0xFF, 9];
    assert!(parse_feed_frame(&bad).is_none());
}

#[test]
fn burn_in_failure_keeps_thirty_lines() {
    let stderr: String = (0..40).map(|i| format!("e{i}\n")).collect();
    let m = failure_message(&stderr);
    assert!(m.starts_with("ffmpeg failed:\ne0\ne1\n"));
    assert!(m.ends_with("e29"));
}
