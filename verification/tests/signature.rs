use ed25519_dalek::{Signer, SigningKey};
use openrouter_widget::error::AppError;
use openrouter_widget::update_signature::verify_signature;

fn signing_key() -> SigningKey {
    SigningKey::from_bytes(&[7u8; 32])
}

fn public_hex() -> String {
    hex::encode(signing_key().verifying_key().to_bytes())
}

fn message_of(r: Result<(), AppError>) -> String {
    match r {
        Err(AppError::InvalidInput(m)) => m,
        other => panic!("expected InvalidInput, got {other:?}"),
    }
}

#[test]
fn valid_signature_is_accepted() {
    let message = b"update package bytes";
    let signature = hex::encode(signing_key().sign(message).to_bytes());
    let text = format!("  {signature}\n");
    assert!(verify_signature(Some(&public_hex()), message, text.as_bytes()).is_ok());
}

#[test]
fn tampered_package_is_refused() {
    let signature = hex::encode(signing_key().sign(b"genuine").to_bytes());
    let r = verify_signature(Some(&public_hex()), b"tampered", signature.as_bytes());
    assert_eq!(message_of(r), "Update signature verification failed");
}

#[test]
fn missing_or_malformed_key_is_refused() {
    assert_eq!(message_of(verify_signature(None, b"m", b"")), "Update verification key is not configured");
    assert_eq!(message_of(verify_signature(Some("xyz"), b"m", b"")), "Invalid update verification key");
    assert_eq!(
        message_of(verify_signature(Some("abcd"), b"m", b"")),
        "Update verification key must be 32 bytes"
    );
}

#[test]
fn malformed_signature_is_refused() {
    let key = public_hex();
    assert_eq!(message_of(verify_signature(Some(&key), b"m", b"not hex")), "Invalid update signature");
    assert_eq!(message_of(verify_signature(Some(&key), b"m", b"abcd")), "Invalid update signature");
    assert_eq!(message_of(verify_signature(Some(&key), b"m", &[0xff, 0xfe])), "Invalid update signature");
}
