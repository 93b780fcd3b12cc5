use auth_core::password::hash;
use auth_core::password::verify;

#[test]
fn hash_then_verify_succeeds() {
    let digest = hash(b"password123").expect("hashing succeeds");
    assert!(verify(b"password123", &digest));
    assert!(!verify(b"password124", &digest));
    assert!(!verify(b"", &digest));
}

#[test]
fn two_hashes_differ_and_both_verify() {
    let d1 = hash(b"password123").expect("hashing succeeds");
    let d2 = hash(b"password123").expect("hashing succeeds");
    assert_ne!(d1, d2);
    assert!(verify(b"password123", &d1));
    assert!(verify(b"password123", &d2));
}

#[test]
fn verify_rejects_malformed_digest() {
    assert!(!verify(b"password123", ""));
    assert!(!verify(b"password123", "not-a-digest"));
    assert!(!verify(b"password123", "$argon2id$broken"));
}

#[test]
fn digest_is_self_describing() {
    let digest = hash(b"abc").expect("hashing succeeds");
    assert!(digest.starts_with("$argon2"));
    assert_ne!(digest.as_bytes(), b"abc");
}
