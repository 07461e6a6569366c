use auth_core::gate::{authenticate, GateOutcome, GateRejection};
use auth_core::jwt::create_token;

const SECRET: &str = "gate-test-secret";
const NOW: i64 = 1_700_000_000;
const SUB: u128 = 42;

#[test]
fn test_missing_header_is_rejected() {
    let r = authenticate(None, SECRET, NOW);
    assert_eq!(r, GateOutcome::Rejected(GateRejection::MissingHeader));
}

#[test]
fn test_header_without_bearer_prefix_is_rejected() {
    for h in ["Token abc", "bearer abc", "Bearer", "Bearer", "BEARER abc", "abc", ""] {
        let r = authenticate(Some(h), SECRET, NOW);
        assert_eq!(r, GateOutcome::Rejected(GateRejection::MalformedHeader), "header {:?}", h);
    }
}

#[test]
fn test_expired_token_is_rejected_without_detail() {
    let token = create_token(SUB, SECRET, 1, NOW).expect("issue");
    let header = format!("Bearer {}", token);
    let r = authenticate(Some(&header), SECRET, NOW + 3601);
    assert_eq!(r, GateOutcome::Rejected(GateRejection::InvalidOrExpiredToken));
}

#[test]
fn test_wrong_key_token_is_rejected_without_detail() {
    let token = create_token(SUB, "some-other-secret", 24, NOW).expect("issue");
    let header = format!("Bearer {}", token);
    let r = authenticate(Some(&header), SECRET, NOW);
    assert_eq!(r, GateOutcome::Rejected(GateRejection::InvalidOrExpiredToken));
}

#[test]
fn test_fresh_token_passes_and_exposes_the_subject() {
    let token = create_token(SUB, SECRET, 24, NOW).expect("issue");
    let header = format!("Bearer {}", token);
    let r = authenticate(Some(&header), SECRET, NOW);
    assert_eq!(r, GateOutcome::Authenticated(SUB));
}

#[test]
fn test_garbage_after_prefix_is_rejected_as_token_trouble() {
    let r = authenticate(Some("Bearer not-a-token"), SECRET, NOW);
    assert_eq!(r, GateOutcome::Rejected(GateRejection::InvalidOrExpiredToken));
}
