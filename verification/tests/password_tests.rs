use auth_core::password::{hash, verify, PasswordError};

#[test]
fn test_hash_and_verify() {
    let password = "secure_password123";
    let hashed = hash(password).expect("Failed to hash password");

    assert!(verify(password, &hashed).expect("Failed to verify"));
    assert!(!verify("wrong_password", &hashed).expect("Failed to verify"));
}

#[test]
fn test_two_digests_differ_and_both_verify() {
    let password = "repeatable-password";
    let d1 = hash(password).expect("first hash");
    let d2 = hash(password).expect("second hash");
    assert_ne!(d1, d2);
    assert!(verify(password, &d1).expect("verify first"));
    assert!(verify(password, &d2).expect("verify second"));
}

#[test]
fn test_wrong_password_rejected_against_fresh_digest() {
    let d = hash("password-one").expect("hash");
    assert_eq!(verify("password-two", &d), Ok(false));
}

#[test]
fn test_malformed_digest_is_a_format_error() {
    let r = verify("whatever", "not-a-digest-at-all");
    assert_eq!(r, Err(PasswordError::InvalidHash));
}

#[test]
fn test_empty_password_is_hashable() {
    let d = hash("").expect("hash of empty");
    assert!(verify("", &d).expect("verify empty"));
    assert!(!verify("x", &d).expect("verify nonempty"));
}
