//! Tests for container ID generation and prefix validation.

use std::collections::HashSet;

use craterun::generate_id;
use craterun::hex_encode;
use craterun::validate_id_prefix;

/// Generate IDs in a loop and verify uniqueness.
#[test]
fn ids_are_unique() {
    let mut seen = HashSet::new();
    for _ in 0..1000 {
        let id = generate_id();
        assert_eq!(id.len(), 16);
        assert!(seen.insert(id), "duplicate ID generated");
    }
}

#[test]
fn id_format_is_lowercase_hex() {
    for _ in 0..100 {
        let id = generate_id();
        assert!(id.chars().all(|c| c.is_ascii_hexdigit()));
        assert_eq!(id, id.to_lowercase());
    }
}

#[test]
fn generated_id_has_correct_length() {
    let id = generate_id();
    assert_eq!(id.len(), 16);
}

#[test]
fn generated_id_is_hex() {
    let id = generate_id();
    assert!(id.chars().all(|c| c.is_ascii_hexdigit()));
}

#[test]
fn generated_id_is_lowercase() {
    let id = generate_id();
    assert_eq!(id, id.to_lowercase());
}

#[test]
fn generated_id_is_a_valid_prefix() {
    let id = generate_id();
    assert!(validate_id_prefix(&id));
}

#[test]
fn validate_prefix_accepts_valid() {
    assert!(validate_id_prefix("ab12"));
    assert!(validate_id_prefix("0123456789abcdef"));
}

#[test]
fn validate_prefix_rejects_invalid() {
    assert!(!validate_id_prefix(""));
    assert!(!validate_id_prefix("ABCD")); // uppercase
    assert!(!validate_id_prefix("0123456789abcdef0")); // too long
    assert!(!validate_id_prefix("zzzz")); // non-hex
}

#[test]
fn hex_encode_is_exact() {
    assert_eq!(hex_encode(&[]), "");
    assert_eq!(hex_encode(&[0x00]), "00");
    assert_eq!(hex_encode(&[0x00, 0xff, 0x1a]), "00ff1a");
    assert_eq!(hex_encode(&[0xde, 0xad, 0xbe, 0xef]), "deadbeef");
}
