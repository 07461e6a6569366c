use auth_core::claims::Claims;
use auth_core::jwt::{create_token, verify_token, JwtError};

const SECRET: &str = "unit-test-secret-key";
const NOW: i64 = 1_700_000_000;
const SUB: u128 = 0x0123_4567_89ab_cdef_0123_4567_89ab_cdef;

#[test]
fn test_issue_then_verify_yields_same_subject() {
    let token = create_token(SUB, SECRET, 24, NOW).expect("issue");
    let claims = verify_token(&token, SECRET, NOW).expect("verify");
    assert_eq!(claims, Claims { sub: SUB, iat: NOW, exp: NOW + 24 * 3600 });
}

#[test]
fn test_issue_is_deterministic_for_fixed_inputs() {
    let t1 = create_token(SUB, SECRET, 24, NOW).expect("first");
    let t2 = create_token(SUB, SECRET, 24, NOW).expect("second");
    assert_eq!(t1, t2);
}

#[test]
fn test_token_has_three_segments_and_the_jwt_header() {
    let token = create_token(SUB, SECRET, 24, NOW).expect("issue");
    let parts: Vec<&str> = token.split('.').collect();
    assert_eq!(parts.len(), 3);
    // base64url of {"typ":"JWT","alg":"HS256"}
    assert_eq!(parts[0], "eyJ0eXAiOiJKV1QiLCJhbGciOiJIUzI1NiJ9");
}

#[test]
fn test_expired_token_fails_with_expiry_not_signature() {
    let ttl: i64 = 3600;
    let token = create_token(SUB, SECRET, 1, NOW).expect("issue");
    let r = verify_token(&token, SECRET, NOW + ttl + 1);
    assert_eq!(r, Err(JwtError::TokenExpired));
    // the boundary itself is already expired
    let r = verify_token(&token, SECRET, NOW + ttl);
    assert_eq!(r, Err(JwtError::TokenExpired));
    // one second before the boundary it still verifies
    assert!(verify_token(&token, SECRET, NOW + ttl - 1).is_ok());
}

#[test]
fn test_any_single_byte_flip_invalidates_the_token() {
    let token = create_token(SUB, SECRET, 24, NOW).expect("issue");
    let bytes = token.as_bytes();
    for i in 0..bytes.len() {
        let mut mutated = bytes.to_vec();
        mutated[i] = if mutated[i] == b'A' { b'B' } else { b'A' };
        let mutated = String::from_utf8(mutated).expect("ascii");
        assert!(verify_token(&mutated, SECRET, NOW).is_err(), "flip at {} verified", i);
    }
}

#[test]
fn test_wrong_key_fails_as_invalid_within_validity_window() {
    let token = create_token(SUB, "another-secret", 24, NOW).expect("issue");
    let r = verify_token(&token, SECRET, NOW);
    assert_eq!(r, Err(JwtError::InvalidToken));
}

#[test]
fn test_malformed_tokens_are_invalid() {
    assert_eq!(verify_token("", SECRET, NOW), Err(JwtError::InvalidToken));
    assert_eq!(verify_token("abc", SECRET, NOW), Err(JwtError::InvalidToken));
    assert_eq!(verify_token("a.b", SECRET, NOW), Err(JwtError::InvalidToken));
    assert_eq!(verify_token("a.b.c", SECRET, NOW), Err(JwtError::InvalidToken));
    assert_eq!(verify_token("...", SECRET, NOW), Err(JwtError::InvalidToken));
    assert_eq!(verify_token("héader.päyload.sîg", SECRET, NOW), Err(JwtError::InvalidToken));
}

#[test]
fn test_minimal_lifetime_and_late_epoch_still_round_trip() {
    let late: i64 = 4_000_000_000;
    let token = create_token(u128::MAX, SECRET, 1, late).expect("issue");
    let claims = verify_token(&token, SECRET, late).expect("verify");
    assert_eq!(claims.sub, u128::MAX);
    assert_eq!(claims.exp, late + 3600);
}
