use database::guid::{decimal_text, digest_of};
use std::collections::hash_map::DefaultHasher;
use std::hash::Hasher;

#[test]
fn decimal_text_matches_to_string() {
    for n in [0u64, 7, 10, 99, 100, 1234567890, u64::MAX] {
        assert_eq!(decimal_text(n), n.to_string());
    }
}

#[test]
fn digest_of_matches_default_hasher() {
    let parts = vec!["m1".to_string(), "502".to_string(), "10.0.0.1".to_string()];
    let mut h = DefaultHasher::new();
    for p in &parts {
        h.write(p.as_bytes());
    }
    assert_eq!(digest_of(&parts), h.finish());
}

#[test]
fn digest_depends_on_the_parts() {
    let a = digest_of(&vec!["m".to_string(), "1".to_string(), "a".to_string()]);
    let b = digest_of(&vec!["m".to_string(), "1".to_string(), "a".to_string()]);
    let c = digest_of(&vec!["m".to_string(), "2".to_string(), "a".to_string()]);
    assert_eq!(a, b);
    assert_ne!(a, c);
    assert_eq!(digest_of(&Vec::new()), DefaultHasher::new().finish());
}
