use articles::signing::{sign, verify, SignError};

const SECRET: &[u8] = b"an example secret of thirty-two bytes or more";

#[test]
fn short_secret_cannot_sign() {
    assert_eq!(sign("value", b"short"), Err(SignError::ShortSecret));
}

#[test]
fn signed_value_is_signature_then_value() {
    let t = sign("value", SECRET).unwrap();
    assert_ne!(t, "value");
    assert_eq!(t.len(), 44 + 5);
    assert!(t.ends_with("value"));
}

#[test]
fn sign_then_verify_round_trips() {
    let t = sign("token123", SECRET).unwrap();
    assert_eq!(verify(&t, SECRET), Some("token123".to_string()));
}

#[test]
fn verify_rejects_tampering_and_other_secrets() {
    let t = sign("token123", SECRET).unwrap();
    let mut tampered = t.clone();
    tampered.pop();
    tampered.push('4');
    assert_eq!(verify(&tampered, SECRET), None);
    assert_eq!(verify(&t, b"another secret, also long enough to use"), None);
    assert_eq!(verify("token123", SECRET), None);
    assert_eq!(verify("", SECRET), None);
    assert_eq!(verify(&t, b"short"), None);
    assert_eq!(verify("\u{e9}\u{e9}\u{e9}\u{e9}\u{e9}\u{e9}\u{e9}\u{e9}\u{e9}\u{e9}\u{e9}\u{e9}\u{e9}\u{e9}\u{e9}\u{e9}\u{e9}\u{e9}\u{e9}\u{e9}\u{e9}\u{e9}\u{e9}xyz", SECRET), None);
}
