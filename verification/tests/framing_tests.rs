use calf::framing::{append_parts, BatchBuilder};
use calf::reply::{MediaType, ReplyBody};

fn body_bytes(b: BatchBuilder) -> Vec<u8> {
    let r = b.build();
    assert_eq!(r.status, 200);
    assert!(r.cache_max_age.is_none());
    match r.body {
        ReplyBody::Binary(MediaType::OctetStream, bytes) => bytes,
        _ => panic!("expected an octet-stream body"),
    }
}

#[test]
fn empty_builder_builds_empty_body() {
    assert_eq!(body_bytes(BatchBuilder::new()), Vec::<u8>::new());
}

#[test]
fn strings_and_bytes_are_length_prefixed_big_endian() {
    let b = BatchBuilder::new().add_string("ab").add_bytes(&[1, 2, 3]).add_string("");
    assert_eq!(body_bytes(b), vec![0, 2, b'a', b'b', 0, 3, 1, 2, 3, 0, 0]);
}

#[test]
fn string_parts_are_utf8_bytes() {
    let b = BatchBuilder::new().add_string("é");
    assert_eq!(body_bytes(b), vec![0, 2, 0xC3, 0xA9]);
}

#[test]
fn largest_part_has_prefix_ff_ff() {
    let part = vec![7u8; 65535];
    let out = body_bytes(BatchBuilder::new().add_bytes(&part));
    assert_eq!(out.len(), 65537);
    assert_eq!(&out[0..3], &[0xff, 0xff, 7]);
}

#[test]
fn append_parts_refuses_a_part_too_long_for_its_prefix() {
    let mut b = BatchBuilder::new().add_string("x");
    let ok = append_parts(&mut b, &vec![vec![1u8], vec![7u8; 70000]]);
    assert!(!ok);
    assert_eq!(body_bytes(b), vec![0, 1, b'x']);
    let mut b = BatchBuilder::new();
    assert!(!append_parts(&mut b, &vec![vec![0u8; 65536]]));
    assert_eq!(b.byte_len(), 0);
}

#[test]
fn part_of_256_bytes_has_high_prefix_byte() {
    let part = vec![0u8; 256];
    let out = body_bytes(BatchBuilder::new().add_bytes(&part));
    assert_eq!(&out[0..2], &[1, 0]);
}

#[test]
fn append_parts_appends_each_part_in_order() {
    let mut b = BatchBuilder::new().add_string("x");
    let ok = append_parts(&mut b, &vec![vec![9u8], vec![], vec![1, 2]]);
    assert!(ok);
    assert_eq!(b.byte_len(), 3 + 3 + 2 + 4);
    assert_eq!(body_bytes(b), vec![0, 1, b'x', 0, 1, 9, 0, 0, 0, 2, 1, 2]);
}

/// Splits framed bytes back into their parts.
fn split_frames(bytes: &[u8]) -> Option<Vec<Vec<u8>>> {
    let mut parts = Vec::new();
    let mut i = 0;
    while i < bytes.len() {
        if i + 2 > bytes.len() {
            return None;
        }
        let n = (bytes[i] as usize) * 256 + bytes[i + 1] as usize;
        if i + 2 + n > bytes.len() {
            return None;
        }
        parts.push(bytes[i + 2..i + 2 + n].to_vec());
        i += 2 + n;
    }
    Some(parts)
}

#[test]
fn framed_parts_read_back_in_order() {
    let parts: Vec<Vec<u8>> = vec![b"uuid".to_vec(), vec![], vec![0xff; 300], "ü".as_bytes().to_vec(), vec![1; 65535]];
    let mut b = BatchBuilder::new();
    for p in &parts {
        b = b.add_bytes(p);
    }
    assert_eq!(split_frames(&body_bytes(b)), Some(parts));
}

#[test]
fn prefix_is_high_byte_then_low_byte() {
    let part = vec![1u8; 0x1234];
    let out = body_bytes(BatchBuilder::new().add_bytes(&part));
    assert_eq!(&out[0..2], &[0x12, 0x34]);
    assert_eq!(out.len(), 2 + 0x1234);
}
