use launch_core::digest::{digest_matches, generate_offline_uuid, hex_of_bytes, md5_hex};

#[test]
fn md5_of_known_inputs() {
    assert_eq!(md5_hex(&Vec::new()), "d41d8cd98f00b204e9800998ecf8427e");
    assert_eq!(md5_hex(&b"abc".to_vec()), "900150983cd24fb0d6963f7d28e17f72");
}

#[test]
fn digest_gate_compares_exactly() {
    let data = b"abc".to_vec();
    assert!(digest_matches(&data, "900150983cd24fb0d6963f7d28e17f72"));
    assert!(!digest_matches(&data, "900150983cd24fb0d6963f7d28e17f73"));
    assert!(!digest_matches(&data, ""));
}

#[test]
fn hex_encoding_is_two_lowercase_digits_per_byte() {
    let chars = hex_of_bytes(&vec![0u8, 15, 16, 255]);
    let s: String = chars.into_iter().collect();
    assert_eq!(s, "000f10ff");
}

#[test]
fn offline_uuid_of_known_nickname() {
    assert_eq!(
        generate_offline_uuid("Notch"),
        "b50ad385-829d-3141-a216-7e7d7539ba7f"
    );
}

#[test]
fn offline_uuid_is_deterministic_and_name_sensitive() {
    let a = generate_offline_uuid("alice");
    let b = generate_offline_uuid("alice");
    let c = generate_offline_uuid("bob");
    assert_eq!(a, b);
    assert_ne!(a, c);
    assert_eq!(a.len(), 36);
    // Version-3 marker and RFC 4122 hyphen layout.
    assert_eq!(a.as_bytes()[14], b'3');
    assert_eq!(a.as_bytes()[8], b'-');
    assert_eq!(a.as_bytes()[13], b'-');
    assert_eq!(a.as_bytes()[18], b'-');
    assert_eq!(a.as_bytes()[23], b'-');
}
