use nndd_next::error::ApiError;
use nndd_next::mp4box::{
    find_child, find_children, iter_boxes, iter_children, read_box_header, write_box,
    write_container_payload,
};

fn build_box(box_type: &[u8; 4], payload: &[u8]) -> Vec<u8> {
    let mut out = Vec::new();
    write_box(&mut out, box_type, payload);
    out
}

#[test]
fn write_then_iter_round_trip() {
    let a = build_box(b"ftyp", b"isom");
    let b = build_box(b"mdat", &[0u8; 100]);
    let mut combined = Vec::new();
    combined.extend_from_slice(&a);
    combined.extend_from_slice(&b);

    let boxes = iter_boxes(&combined).unwrap();
    assert_eq!(boxes.len(), 2);
    assert_eq!(&boxes[0].box_type, b"ftyp");
    assert_eq!(boxes[0].payload, b"isom");
    assert_eq!(&boxes[1].box_type, b"mdat");
    assert_eq!(boxes[1].payload.len(), 100);
}

#[test]
fn container_children_round_trip() {
    let inner_a: &[u8] = b"AAAA";
    let inner_b: &[u8] = b"BBBBBB";
    let payload = write_container_payload(&[(b"trak", inner_a), (b"mvex", inner_b)]);
    let outer = build_box(b"moov", &payload);

    let top = iter_boxes(&outer).unwrap();
    assert_eq!(top.len(), 1);
    assert_eq!(&top[0].box_type, b"moov");

    let children = iter_children(top[0].payload).unwrap();
    assert_eq!(children.len(), 2);
    assert_eq!(&children[0].box_type, b"trak");
    assert_eq!(children[0].payload, inner_a);
    assert_eq!(&children[1].box_type, b"mvex");
    assert_eq!(children[1].payload, inner_b);

    let trak = find_child(top[0].payload, b"trak").unwrap();
    assert_eq!(trak.payload, inner_a);
    assert!(find_child(top[0].payload, b"NONE").is_none());
}

#[test]
fn rejects_short_header() {
    let bytes = vec![0, 0, 0, 8];
    assert!(read_box_header(&bytes).is_err());
}

#[test]
fn rejects_size_zero() {
    let mut bytes = Vec::new();
    bytes.extend_from_slice(&0u32.to_be_bytes());
    bytes.extend_from_slice(b"mdat");
    assert!(read_box_header(&bytes).is_err());
}

#[test]
fn handles_largesize_box() {
    let payload = b"abcd";
    let total = 16u64 + payload.len() as u64;
    let mut bytes = Vec::new();
    bytes.extend_from_slice(&1u32.to_be_bytes());
    bytes.extend_from_slice(b"mdat");
    bytes.extend_from_slice(&total.to_be_bytes());
    bytes.extend_from_slice(payload);

    let (header_len, total_len, t) = read_box_header(&bytes).unwrap();
    assert_eq!(header_len, 16);
    assert_eq!(total_len, total as usize);
    assert_eq!(&t, b"mdat");
}

#[test]
fn detects_box_extending_past_eof() {
    let mut bytes = Vec::new();
    bytes.extend_from_slice(&100u32.to_be_bytes());
    bytes.extend_from_slice(b"mdat");
    bytes.extend_from_slice(&[0u8; 8]);
    assert!(iter_boxes(&bytes).is_err());
}

#[test]
fn header_error_messages() {
    match read_box_header(&[0, 0, 0, 8]) {
        Err(ApiError::ResponseShape(m)) => assert_eq!(m, "mp4 box header < 8 bytes"),
        other => panic!("unexpected {other:?}"),
    }
    let mut bytes = Vec::new();
    bytes.extend_from_slice(&4u32.to_be_bytes());
    bytes.extend_from_slice(b"free");
    match read_box_header(&bytes) {
        Err(ApiError::ResponseShape(m)) => assert_eq!(m, "mp4 box size 4 < 8"),
        other => panic!("unexpected {other:?}"),
    }
    let mut large = Vec::new();
    large.extend_from_slice(&1u32.to_be_bytes());
    large.extend_from_slice(b"mdat");
    large.extend_from_slice(&8u64.to_be_bytes());
    match read_box_header(&large) {
        Err(ApiError::ResponseShape(m)) => assert_eq!(m, "mp4 largesize 8 < 16"),
        other => panic!("unexpected {other:?}"),
    }
}

#[test]
fn past_eof_message_names_box_and_sizes() {
    let mut bytes = Vec::new();
    bytes.extend_from_slice(&100u32.to_be_bytes());
    bytes.extend_from_slice(b"mdat");
    bytes.extend_from_slice(&[0u8; 8]);
    match iter_boxes(&bytes) {
        Err(ApiError::ResponseShape(m)) => assert_eq!(
            m,
            "mp4 box \"mdat\" extends past EOF (offset=0, total_len=100, file_len=16)"
        ),
        other => panic!("unexpected {other:?}"),
    }
}

#[test]
fn find_children_keeps_order_and_skips_others() {
    let p1: &[u8] = b"one";
    let p2: &[u8] = b"two";
    let p3: &[u8] = b"three";
    let payload = write_container_payload(&[(b"trak", p1), (b"mvex", p2), (b"trak", p3)]);
    let traks = find_children(&payload, b"trak");
    assert_eq!(traks.len(), 2);
    assert_eq!(traks[0].payload, p1);
    assert_eq!(traks[1].payload, p3);
    assert!(find_children(&[0, 0, 0], b"trak").is_empty());
}

#[test]
fn type_str_is_lossy_text() {
    let b = build_box(b"moov", b"");
    let boxes = iter_boxes(&b).unwrap();
    assert_eq!(boxes[0].type_str(), "moov");
}

#[test]
fn written_box_has_big_endian_size() {
    let b = build_box(b"free", &[1, 2, 3]);
    assert_eq!(b, vec![0, 0, 0, 11, b'f', b'r', b'e', b'e', 1, 2, 3]);
}

#[test]
fn overflowing_largesize_is_past_eof_not_a_panic() {
    let mut bytes = Vec::new();
    bytes.extend_from_slice(&[0, 0, 0, 8]);
    bytes.extend_from_slice(b"free");
    bytes.extend_from_slice(&[0, 0, 0, 1]);
    bytes.extend_from_slice(b"mdat");
    bytes.extend_from_slice(&(u64::MAX - 3).to_be_bytes());
    match iter_boxes(&bytes) {
        Err(ApiError::ResponseShape(m)) => assert!(m.contains("extends past EOF"), "{m}"),
        other => panic!("unexpected {other:?}"),
    }
    assert!(find_child(&bytes, b"free").is_none());
    assert!(find_children(&bytes, b"free").is_empty());
}

#[test]
fn find_child_is_the_first_found_child() {
    let p1: &[u8] = b"one";
    let p2: &[u8] = b"two";
    let payload = write_container_payload(&[(b"mvex", p2), (b"trak", p1), (b"trak", p2)]);
    let first = find_child(&payload, b"trak").unwrap();
    let all = find_children(&payload, b"trak");
    assert_eq!(first.payload, all[0].payload);
    assert_eq!(first.payload, p1);
    assert!(find_child(&payload, b"moov").is_none());
    assert!(find_children(&payload, b"moov").is_empty());
}
