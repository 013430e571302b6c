//! Tests for the content fingerprint.

use glyphgrid::cache::LockFreeShapeCache;
use glyphgrid::fingerprint::fnv1a_hash;

#[test]
fn hash_is_deterministic_across_calls() {
    let a = fnv1a_hash("the quick brown fox");
    let b = fnv1a_hash("the quick brown fox");
    assert_eq!(a, b);
    let owned = String::from("the quick brown fox");
    assert_eq!(a, fnv1a_hash(owned.as_str()));
}

#[test]
fn hash_matches_reference_vectors() {
    // Standard 64-bit FNV-1a values.
    assert_eq!(fnv1a_hash(""), 0xcbf29ce484222325);
    assert_eq!(fnv1a_hash("a"), 0xaf63dc4c8601ec8c);
    assert_eq!(fnv1a_hash("b"), 0xaf63df4c8601f1a5);
    assert_eq!(fnv1a_hash("hello"), 0xa430d84680aabd0b);
    assert_eq!(fnv1a_hash("abc"), 0xe71fa2190541574b);
}

#[test]
fn hash_distinguishes_typical_rows() {
    assert_ne!(fnv1a_hash("a"), fnv1a_hash("b"));
    assert_ne!(fnv1a_hash("row one"), fnv1a_hash("row two"));
    assert_ne!(fnv1a_hash("x"), fnv1a_hash("x "));
}

#[test]
fn cache_hash_method_agrees_with_free_function() {
    assert_eq!(
        LockFreeShapeCache::<16>::hash_text_fnv1a_optimized("shaped row"),
        fnv1a_hash("shaped row")
    );
}

#[test]
fn hash_covers_multibyte_text() {
    let a = fnv1a_hash("héllo ☃");
    let b = fnv1a_hash("héllo ☃");
    assert_eq!(a, b);
    assert_ne!(a, fnv1a_hash("hello ?"));
}
