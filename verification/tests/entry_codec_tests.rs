//! Entry model and codec tests: checksums, MIME defaulting, and the
//! byte-for-byte round trip of the binary layout.

use edgecache::cache::ImageEntry;
use edgecache::codec::{encode_entry, decode_entry};

#[test]
fn entry_checksum_is_md5_of_payload() {
    let payload = b"some image bytes".to_vec();
    let e = ImageEntry::new(payload.clone(), String::from("image/png"), 1234);
    let expect: [u8; 16] = md5::compute(&payload).into();
    assert_eq!(e.get_checksum_hex(), hex::encode(expect));
    assert_eq!(e.get_bytes(), payload);
    assert_eq!(e.get_last_modified(), 1234);
}

#[test]
fn empty_payload_has_known_digest() {
    let e = ImageEntry::new(Vec::new(), String::from("image/png"), 0);
    assert_eq!(e.get_checksum_hex(), "d41d8cd98f00b204e9800998ecf8427e");
}

#[test]
fn mime_kept_when_valid() {
    let e = ImageEntry::new(b"x".to_vec(), String::from("image/jpeg"), 0);
    assert_eq!(e.get_mime(), "image/jpeg");
}

#[test]
fn mime_defaults_to_png_when_invalid() {
    let e = ImageEntry::new(b"x".to_vec(), String::from("definitely not a mime"), 0);
    assert_eq!(e.get_mime(), "image/png");
}

#[test]
fn codec_round_trip_preserves_every_field() {
    let payload = vec![0u8, 1, 2, 250, 255, 13, 10];
    let e = ImageEntry::new(payload.clone(), String::from("image/webp"), 9_876_543_210);
    let blob = encode_entry(&e);
    let d = decode_entry(blob.as_slice()).expect("decodes");
    assert_eq!(d.get_last_modified(), 9_876_543_210);
    assert_eq!(d.get_checksum_hex(), e.get_checksum_hex());
    assert_eq!(d.get_mime(), "image/webp");
    assert_eq!(d.get_bytes(), payload);
}

#[test]
fn codec_round_trip_empty_fields() {
    let e = ImageEntry::new(Vec::new(), String::new(), 0);
    let blob = encode_entry(&e);
    let d = decode_entry(blob.as_slice()).expect("decodes");
    assert_eq!(d.get_bytes(), Vec::<u8>::new());
    assert_eq!(d.get_last_modified(), 0);
    // the empty stored MIME text is not valid, so reads default it
    assert_eq!(d.get_mime(), "image/png");
}

#[test]
fn decode_rejects_short_input() {
    assert!(decode_entry(&[]).is_none());
    assert!(decode_entry(&[0u8; 47]).is_none());
}

#[test]
fn decode_rejects_truncated_payload() {
    let e = ImageEntry::new(b"0123456789".to_vec(), String::from("image/png"), 7);
    let blob = encode_entry(&e);
    assert!(decode_entry(&blob[..blob.len() - 1]).is_none());
}

#[test]
fn decode_rejects_trailing_garbage() {
    let e = ImageEntry::new(b"abc".to_vec(), String::from("image/png"), 7);
    let mut blob = encode_entry(&e);
    blob.push(0);
    assert!(decode_entry(blob.as_slice()).is_none());
}

#[test]
fn decode_rejects_invalid_mime_utf8() {
    // 16 bytes timestamp, 16 checksum bytes, MIME length 1, one byte that
    // is not UTF-8, payload length 0
    let mut blob = vec![0u8; 32];
    blob.extend_from_slice(&1u64.to_le_bytes());
    blob.push(0xFF);
    blob.extend_from_slice(&0u64.to_le_bytes());
    assert!(decode_entry(blob.as_slice()).is_none());
}

#[test]
fn decode_rejects_oversized_mime_length() {
    let mut blob = vec![0u8; 32];
    blob.extend_from_slice(&u64::MAX.to_le_bytes());
    blob.extend_from_slice(&0u64.to_le_bytes());
    assert!(decode_entry(blob.as_slice()).is_none());
}
