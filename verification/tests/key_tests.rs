//! Addressing tests: keys, canonical paths, archive segments, and the
//! derived storage key.

use edgecache::cache::ImageKey;
use edgecache::cache::parse_archive_type;
use edgecache::rocks::RocksCache;

#[test]
fn key_accessors_round_trip() {
    let k = ImageKey::new(String::from("chap123"), String::from("img1.png"), true);
    assert_eq!(k.chapter(), "chap123");
    assert_eq!(k.image(), "img1.png");
    assert!(k.data_saver());
    assert_eq!(k.archive_name(), "data-saver");
}

#[test]
fn key_from_str_like_matches_new() {
    let a = ImageKey::from_str_like("c", "i.jpg", false);
    let b = ImageKey::new(String::from("c"), String::from("i.jpg"), false);
    assert_eq!(a.chapter(), b.chapter());
    assert_eq!(a.image(), b.image());
    assert_eq!(a.data_saver(), b.data_saver());
    assert_eq!(a.archive_name(), "data");
}

#[test]
fn canonical_path_shape() {
    let k = ImageKey::from_str_like("abcd", "1.png", false);
    assert_eq!(k.path_string(), "/data/abcd/1.png");
    let s = ImageKey::from_str_like("abcd", "1.png", true);
    assert_eq!(s.path_string(), "/data-saver/abcd/1.png");
}

#[test]
fn archive_type_parsing() {
    assert_eq!(parse_archive_type("data"), Some(false));
    assert_eq!(parse_archive_type("data-saver"), Some(true));
    assert_eq!(parse_archive_type("data-savers"), None);
    assert_eq!(parse_archive_type("DATA"), None);
    assert_eq!(parse_archive_type(""), None);
}

#[test]
fn derived_key_matches_md5_of_flag_chapter_image() {
    let key = RocksCache::get_cache_key("chapterhash", "image.png", true);
    let mut bytes: Vec<u8> = vec![1u8];
    bytes.extend_from_slice("chapterhash".as_bytes());
    bytes.extend_from_slice("image.png".as_bytes());
    let expect: [u8; 16] = md5::compute(&bytes).into();
    assert_eq!(key.as_slice(), &expect[..]);
}

#[test]
fn derived_key_deterministic() {
    let a = RocksCache::get_cache_key("c", "i", false);
    let b = RocksCache::get_cache_key("c", "i", false);
    assert_eq!(a, b);
}

#[test]
fn derived_key_changes_with_each_field() {
    let base = RocksCache::get_cache_key("c", "i", false);
    assert_ne!(base, RocksCache::get_cache_key("c2", "i", false));
    assert_ne!(base, RocksCache::get_cache_key("c", "i2", false));
    assert_ne!(base, RocksCache::get_cache_key("c", "i", true));
}
