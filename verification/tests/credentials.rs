use openrouter_widget::credentials::compute_fingerprint;

#[test]
fn fingerprint_deterministic() {
    let key = "sk-or-v1-test123456";
    let fp1 = compute_fingerprint(key);
    let fp2 = compute_fingerprint(key);
    assert_eq!(fp1, fp2);
}

#[test]
fn fingerprint_different_for_different_keys() {
    let fp1 = compute_fingerprint("sk-or-v1-key1");
    let fp2 = compute_fingerprint("sk-or-v1-key2");
    assert_ne!(fp1, fp2);
}

#[test]
fn fingerprint_length() {
    let fp = compute_fingerprint("test");
    assert_eq!(fp.len(), 32);
}

#[test]
fn fingerprint_only_hex() {
    let fp = compute_fingerprint("test-key-for-hex-check");
    assert!(fp.chars().all(|c| c.is_ascii_hexdigit()));
}

#[test]
fn fingerprint_empty_key() {
    let fp = compute_fingerprint("");
    assert_eq!(fp.len(), 32);
}

#[test]
fn fingerprint_does_not_contain_original() {
    let key = "my-secret-api-key-12345";
    let fp = compute_fingerprint(key);
    assert!(!fp.contains(key));
}

#[test]
fn fingerprint_is_sha256_prefix() {
    assert_eq!(compute_fingerprint("abc"), "ba7816bf8f01cfea414140de5dae2223");
}

