//! Storage backend tests: save/load, overwrite, eviction order, size
//! accounting, and shrink behavior.

use edgecache::cache::{ImageKey, ImageCache};
use edgecache::rocks::{RocksCache, RocksConfig};

fn test_config() -> RocksConfig {
    RocksConfig {
        path: String::from("cache-db"),
        zstd_compression: true,
        parallelism: 2,
        optimize_compaction: false,
        write_rate_limit: 0,
        write_buffer_size: 64,
    }
}

fn fresh_cache() -> RocksCache {
    RocksCache::new(test_config()).expect("backend opens")
}

#[test]
fn save_then_load_returns_payload_mime_and_digest() {
    let mut c = fresh_cache();
    let k = ImageKey::from_str_like("chap", "a.png", false);
    let payload = b"png bytes here".to_vec();
    assert!(c.save(&k, String::from("image/png"), payload.clone()));
    let e = c.load(&k).expect("hit");
    assert_eq!(e.get_bytes(), payload);
    assert_eq!(e.get_mime(), "image/png");
    let expect: [u8; 16] = md5::compute(&payload).into();
    assert_eq!(e.get_checksum_hex(), hex::encode(expect));
}

#[test]
fn load_misses_on_unknown_key() {
    let c = fresh_cache();
    let k = ImageKey::from_str_like("never", "saved.png", false);
    assert!(c.load(&k).is_none());
}

#[test]
fn overwrite_keeps_only_the_second_write() {
    let mut c = fresh_cache();
    let k = ImageKey::from_str_like("chap", "a.png", false);
    assert!(c.save(&k, String::from("image/png"), b"first".to_vec()));
    assert!(c.save(&k, String::from("image/jpeg"), b"second".to_vec()));
    let e = c.load(&k).expect("hit");
    assert_eq!(e.get_bytes(), b"second".to_vec());
    assert_eq!(e.get_mime(), "image/jpeg");
    let expect: [u8; 16] = md5::compute(b"second").into();
    assert_eq!(e.get_checksum_hex(), hex::encode(expect));
}

#[test]
fn disjoint_keys_do_not_interfere() {
    let mut c = fresh_cache();
    let k1 = ImageKey::from_str_like("chap", "one.png", false);
    let k2 = ImageKey::from_str_like("chap", "two.png", false);
    assert!(c.save(&k2, String::from("image/png"), b"two".to_vec()));
    assert!(c.save(&k1, String::from("image/png"), b"one".to_vec()));
    let e2 = c.load(&k2).expect("hit");
    assert_eq!(e2.get_bytes(), b"two".to_vec());
    let e1 = c.load(&k1).expect("hit");
    assert_eq!(e1.get_bytes(), b"one".to_vec());
}

#[test]
fn report_counts_stored_blob_bytes() {
    let mut c = fresh_cache();
    assert_eq!(c.report(), 0);
    let k = ImageKey::from_str_like("chap", "a.png", false);
    assert!(c.save(&k, String::from("image/png"), b"0123456789".to_vec()));
    // 48 layout bytes + 9 MIME bytes + 10 payload bytes
    assert_eq!(c.report(), 67);
}

#[test]
fn pop_on_empty_store_is_none() {
    let mut c = fresh_cache();
    assert_eq!(c.pop().expect("pop"), None);
}

#[test]
fn pop_removes_one_entry_and_its_payload_byte_count() {
    let mut c = fresh_cache();
    let k = ImageKey::from_str_like("chap", "a.png", false);
    assert!(c.save(&k, String::from("image/png"), b"0123456789".to_vec()));
    let removed = c.pop().expect("pop").expect("entry");
    // the payload's byte count, not the encoded blob's
    assert_eq!(removed, 10);
    assert_eq!(c.report(), 0);
    assert!(c.load(&k).is_none());
}

#[test]
fn shrink_to_zero_empties_the_store() {
    let mut c = fresh_cache();
    let mut payload_bytes: u64 = 0;
    for i in 0..5u32 {
        let k = ImageKey::from_str_like("chap", &format!("img{}.png", i), false);
        assert!(c.save(&k, String::from("image/png"), vec![7u8; 100 + i as usize]));
        payload_bytes += 100 + i as u64;
    }
    let before = c.report();
    assert!(before > 0);
    let after = c.shrink(0).expect("shrink");
    // everything is evicted; the incremental figure subtracts only the
    // payload bytes, so it overcounts the (now zero) occupied size
    assert_eq!(c.report(), 0);
    assert_eq!(after, before - payload_bytes);
}

#[test]
fn shrink_is_monotonic_and_reaches_the_bound() {
    let mut c = fresh_cache();
    for i in 0..8u32 {
        let k = ImageKey::from_str_like("chap", &format!("img{}.png", i), false);
        assert!(c.save(&k, String::from("image/png"), vec![9u8; 200]));
    }
    let before = c.report();
    let after = c.shrink(before / 2).expect("shrink");
    assert!(after <= before / 2);
    assert!(after <= before);
    assert!(c.report() <= after);
}

#[test]
fn shrink_is_a_no_op_when_already_small_enough() {
    let mut c = fresh_cache();
    let k = ImageKey::from_str_like("chap", "a.png", false);
    assert!(c.save(&k, String::from("image/png"), b"tiny".to_vec()));
    let before = c.report();
    let after = c.shrink(before + 100).expect("shrink");
    assert_eq!(after, before);
    assert_eq!(c.report(), before);
    assert!(c.load(&k).is_some());
}

#[test]
fn save_to_db_and_load_from_db_round_trip() {
    let mut c = fresh_cache();
    assert!(c.save_to_db("chap", "img.png", true, String::from("image/gif"), b"gif!".to_vec())
        .is_ok());
    let loaded = c.load_from_db("chap", "img.png", true).expect("no error").expect("hit");
    assert_eq!(loaded.get_bytes(), b"gif!".to_vec());
    assert_eq!(loaded.get_mime(), "image/gif");
    // the other fidelity variant is a different key
    assert!(c.load_from_db("chap", "img.png", false).expect("no error").is_none());
}

#[test]
fn unicode_identity_components_round_trip() {
    let mut c = fresh_cache();
    let k = ImageKey::from_str_like("глава-42", "画像.png", true);
    assert!(c.save(&k, String::from("image/png"), b"bytes".to_vec()));
    let e = c.load(&k).expect("hit");
    assert_eq!(e.get_bytes(), b"bytes".to_vec());
}

#[test]
fn empty_payload_round_trips_through_the_store() {
    let mut c = fresh_cache();
    let k = ImageKey::from_str_like("chap", "empty.png", false);
    assert!(c.save(&k, String::from("image/png"), Vec::new()));
    let e = c.load(&k).expect("hit");
    assert_eq!(e.get_bytes(), Vec::<u8>::new());
    assert_eq!(e.get_checksum_hex(), "d41d8cd98f00b204e9800998ecf8427e");
}

#[test]
fn size_on_disk_matches_report() {
    let mut c = fresh_cache();
    let k = ImageKey::from_str_like("chap", "a.png", false);
    assert!(c.save(&k, String::from("image/png"), b"abc".to_vec()));
    assert_eq!(c.size_on_disk().expect("size"), c.report());
}
