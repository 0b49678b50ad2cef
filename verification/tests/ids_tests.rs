use base64::Engine;
use portal::ids::{ClientId, SecretKey, ServerHello};
use sha2::Digest;

#[test]
fn secret_key_generate_is_22_alphanumeric() {
    let k = SecretKey::generate();
    assert_eq!(k.0.len(), 22);
    assert!(k.0.chars().all(|c| c.is_ascii_alphanumeric()));
}

#[test]
fn client_id_from_key_matches_hash_then_base64() {
    // recompute with the real crates: the library must agree
    let key = SecretKey("abcdefghij0123456789AB".to_string());
    let id = key.client_id();
    let expected = base64::engine::general_purpose::STANDARD_NO_PAD
        .encode(sha2::Sha256::digest(b"abcdefghij0123456789AB"));
    assert_eq!(id.0, expected);
}

#[test]
fn safe_id_matches_hash_then_padded_base64() {
    let id = ClientId::from_name("some-client");
    let safe = id.safe_id();
    let expected = base64::engine::general_purpose::STANDARD
        .encode(sha2::Sha256::digest(b"some-client"));
    assert_eq!(safe.0, expected);
}

#[test]
fn generated_client_id_is_43_url_safe_chars() {
    let id = ClientId::generate();
    assert_eq!(id.0.len(), 43);
    assert!(id
        .0
        .chars()
        .all(|c| c.is_ascii_alphanumeric() || c == '-' || c == '_'));
}

#[test]
fn random_domain_is_8_lowercase_letters() {
    for _ in 0..16 {
        let d = ServerHello::random_domain();
        assert_eq!(d.len(), 8);
        assert!(d.chars().all(|c| c.is_ascii_lowercase()));
    }
}

#[test]
fn prefixed_random_domain_passes_prefix_through() {
    assert_eq!(ServerHello::prefixed_random_domain("myprefix"), "myprefix");
}

#[test]
fn client_id_equality_is_by_value() {
    let a = ClientId::from_name("same");
    let b = ClientId::from_name("same");
    let c = ClientId::from_name("other");
    assert!(a == b);
    assert!(!(a == c));
}
