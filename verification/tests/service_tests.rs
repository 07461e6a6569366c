use auth_core::auth_service::AuthService;
use auth_core::errors::DomainError;
use auth_core::jwt::verify_token;
use auth_core::store::{InMemoryUserStore, StoreError, UserStore};
use auth_core::user::User;
use auth_core::user_service::UserService;

const SECRET: &str = "service-test-secret";
const NOW: i64 = 1_700_000_000;

fn service() -> AuthService {
    AuthService::new(SECRET.to_string(), 24)
}

#[test]
fn test_register_issues_a_verifiable_token() {
    let mut store = InMemoryUserStore::new();
    let svc = service();
    let token = svc.register(&mut store, "a@b.com", "longenoughpw", "A", NOW).expect("register");
    let claims = verify_token(&token, SECRET, NOW).expect("verify");
    assert_eq!(store.users.len(), 1);
    assert_eq!(store.users[0].id, claims.sub);
    assert_eq!(store.users[0].email, "a@b.com");
    assert_eq!(store.users[0].name, "A");
    assert!(store.users[0].is_active);
    assert_eq!(store.users[0].created_at, NOW);
}

#[test]
fn test_register_duplicate_email_conflicts_and_leaves_store_alone() {
    let mut store = InMemoryUserStore::new();
    let svc = service();
    svc.register(&mut store, "a@b.com", "longenoughpw", "A", NOW).expect("first register");
    let digest_before = store.users[0].password_hash.clone();
    let r = svc.register(&mut store, "a@b.com", "otherpassword", "B", NOW + 5);
    assert_eq!(r, Err(DomainError::UserAlreadyExists));
    assert_eq!(store.users.len(), 1);
    assert_eq!(store.users[0].password_hash, digest_before);
    assert_eq!(store.users[0].name, "A");
}

#[test]
fn test_login_wrong_password_and_unknown_email_are_indistinguishable() {
    let mut store = InMemoryUserStore::new();
    let svc = service();
    svc.register(&mut store, "a@b.com", "longenoughpw", "A", NOW).expect("register");
    let wrong_pw = svc.login(&store, "a@b.com", "wrongpassword", NOW);
    let unknown = svc.login(&store, "nobody@b.com", "longenoughpw", NOW);
    assert_eq!(wrong_pw, Err(DomainError::InvalidCredentials));
    assert_eq!(unknown, Err(DomainError::InvalidCredentials));
    assert_eq!(
        wrong_pw.unwrap_err().message(),
        unknown.unwrap_err().message(),
    );
}

#[test]
fn test_register_then_login_tokens_carry_the_same_subject() {
    let mut store = InMemoryUserStore::new();
    let svc = service();
    let t1 = svc.register(&mut store, "a@b.com", "longenoughpw", "A", NOW).expect("register");
    let t2 = svc.login(&store, "a@b.com", "longenoughpw", NOW + 10).expect("login");
    let c1 = verify_token(&t1, SECRET, NOW).expect("verify t1");
    let c2 = verify_token(&t2, SECRET, NOW + 10).expect("verify t2");
    assert_eq!(c1.sub, c2.sub);
}

#[test]
fn test_two_registrations_get_distinct_identities() {
    let mut store = InMemoryUserStore::new();
    let svc = service();
    let t1 = svc.register(&mut store, "a@b.com", "longenoughpw", "A", NOW).expect("first");
    let t2 = svc.register(&mut store, "c@d.com", "longenoughpw", "C", NOW).expect("second");
    let c1 = verify_token(&t1, SECRET, NOW).expect("verify t1");
    let c2 = verify_token(&t2, SECRET, NOW).expect("verify t2");
    assert_ne!(c1.sub, c2.sub);
}

#[test]
fn test_user_service_finds_by_id_and_email() {
    let mut store = InMemoryUserStore::new();
    let svc = service();
    let token = svc.register(&mut store, "a@b.com", "longenoughpw", "Ann", NOW).expect("register");
    let sub = verify_token(&token, SECRET, NOW).expect("verify").sub;
    let users = UserService::new();
    let by_id = users.get_by_id(&store, sub).expect("by id");
    assert_eq!(by_id.email, "a@b.com");
    assert_eq!(by_id.name, "Ann");
    let by_email = users.get_by_email(&store, "a@b.com").expect("by email");
    assert_eq!(by_email.id, sub);
    assert!(matches!(users.get_by_id(&store, sub.wrapping_add(1)), Err(DomainError::UserNotFound)));
    assert!(matches!(users.get_by_email(&store, "x@y.com"), Err(DomainError::UserNotFound)));
}

#[test]
fn test_store_insert_conflicts_on_taken_email() {
    let mut store = InMemoryUserStore::new();
    let u1 = User::new("a@b.com".to_string(), "digest-one".to_string(), "A".to_string(), NOW);
    let u2 = User::new("a@b.com".to_string(), "digest-two".to_string(), "B".to_string(), NOW);
    assert_eq!(store.insert(&u1), Ok(()));
    assert_eq!(store.insert(&u2), Err(StoreError::Conflict));
    assert_eq!(store.users.len(), 1);
}

#[test]
fn test_find_by_email_skips_inactive_rows() {
    let mut store = InMemoryUserStore::new();
    let mut u = User::new("a@b.com".to_string(), "digest".to_string(), "A".to_string(), NOW);
    u.is_active = false;
    store.insert(&u).expect("insert");
    assert!(matches!(store.find_by_email("a@b.com"), Ok(None)));
    assert!(matches!(store.find_by_id(u.id), Ok(None)));
}
