use capture_core::api::{authenticate, delete_sessions, hash_password, open_session};
use capture_core::client::{CreateSessionResp, DeleteSessionResp};
use capture_core::models::DbUser;
use capture_core::session::{SessionManager, SessionManagerInner};

fn user(id: i32, name: &str) -> DbUser {
    DbUser { id, name: name.to_string(), passhash: String::new() }
}

#[test]
fn empty_store_validates_nothing() {
    let s = SessionManager::new();
    assert!(!s.validate(1, "anything"));
    assert!(!s.validate(1, ""));
}

#[test]
fn created_token_validates_for_its_user_only() {
    let mut s = SessionManager::new();
    let alice = user(1, "alice");
    let t = s.create(&alice);
    assert!(s.validate(1, &t));
    assert!(!s.validate(2, &t));
    assert!(!s.validate(1, "not-a-token"));
}

#[test]
fn token_is_base64_of_36_bytes() {
    let mut s = SessionManager::new();
    let t = s.create(&user(1, "alice"));
    assert_eq!(t.len(), 48);
    assert!(t.chars().all(|c| c.is_ascii_alphanumeric() || c == '+' || c == '/'));
}

#[test]
fn tokens_differ_and_all_stay_valid() {
    let mut s = SessionManager::new();
    let alice = user(1, "alice");
    let t1 = s.create(&alice);
    let t2 = s.create(&alice);
    assert_ne!(t1, t2);
    assert!(s.validate(1, &t1));
    assert!(s.validate(1, &t2));
}

#[test]
fn delete_all_ends_only_that_users_sessions() {
    let mut s = SessionManager::new();
    let ta = s.create(&user(1, "alice"));
    let tb = s.create(&user(2, "bob"));
    s.delete_all(1);
    assert!(!s.validate(1, &ta));
    assert!(s.validate(2, &tb));
    let ta2 = s.create(&user(1, "alice"));
    assert!(s.validate(1, &ta2));
    assert!(!s.validate(1, &ta));
}

#[test]
fn delete_all_without_sessions_is_a_no_op() {
    let mut s = SessionManager::new();
    let tb = s.create(&user(2, "bob"));
    s.delete_all(7);
    assert!(s.validate(2, &tb));
}

#[test]
fn inner_index_records_given_tokens() {
    let mut i = SessionManagerInner::new();
    assert!(!i.contains(3, "abc"));
    i.insert(3, "abc".to_string());
    assert!(i.contains(3, "abc"));
    assert!(!i.contains(4, "abc"));
    i.remove_user(3);
    assert!(!i.contains(3, "abc"));
}

#[test]
fn login_validate_and_logout_scenario() {
    let hash = hash_password("secret123").expect("hashing works");
    assert_ne!(hash, "secret123");
    let alice = DbUser { id: 1, name: "alice".to_string(), passhash: hash };
    let mut s = SessionManager::new();
    let (resp, token) = open_session(&mut s, "secret123", &alice);
    assert_eq!(resp, CreateSessionResp::Success);
    let token = token.expect("a token on success");
    assert!(s.validate(alice.id, &token));
    s.delete_all(alice.id);
    assert!(!s.validate(alice.id, &token));
}

#[test]
fn login_with_wrong_password_is_refused() {
    let hash = hash_password("secret123").unwrap();
    let alice = DbUser { id: 1, name: "alice".to_string(), passhash: hash };
    let mut s = SessionManager::new();
    let (resp, token) = open_session(&mut s, "wrong", &alice);
    assert_eq!(resp, CreateSessionResp::InvalidCredentials);
    assert!(token.is_none());
}

#[test]
fn login_against_malformed_hash_is_unexpected() {
    let alice = DbUser { id: 1, name: "alice".to_string(), passhash: "garbage".to_string() };
    let mut s = SessionManager::new();
    let (resp, token) = open_session(&mut s, "secret123", &alice);
    assert_eq!(resp, CreateSessionResp::UnexpectedError);
    assert!(token.is_none());
}

#[test]
fn cookies_authenticate_only_together() {
    let mut s = SessionManager::new();
    let t = s.create(&user(5, "eve"));
    assert_eq!(authenticate(&s, Some("5"), Some(&t)), Some(5));
    assert_eq!(authenticate(&s, None, Some(&t)), None);
    assert_eq!(authenticate(&s, Some("5"), None), None);
    assert_eq!(authenticate(&s, Some("five"), Some(&t)), None);
    assert_eq!(authenticate(&s, Some("6"), Some(&t)), None);
    assert_eq!(authenticate(&s, Some("5"), Some("forged")), None);
}

#[test]
fn delete_sessions_needs_valid_cookies() {
    let mut s = SessionManager::new();
    let t = s.create(&user(5, "eve"));
    assert_eq!(delete_sessions(&mut s, Some("5"), Some("forged")), DeleteSessionResp::InvalidCredentials);
    assert!(s.validate(5, &t));
    assert_eq!(delete_sessions(&mut s, Some("5"), Some(&t)), DeleteSessionResp::Success);
    assert!(!s.validate(5, &t));
    assert_eq!(delete_sessions(&mut s, Some("5"), Some(&t)), DeleteSessionResp::InvalidCredentials);
}

#[test]
fn token_from_bytes_is_their_base64() {
    let mut s = SessionManager::new();
    let t = s.create_from_bytes(&user(3, "carol"), &[0u8; 36]);
    assert_eq!(t, "A".repeat(48));
    assert!(s.validate(3, &t));
    let t2 = s.create_from_bytes(&user(3, "carol"), &[255u8; 36]);
    assert_eq!(t2, "/".repeat(48));
}

#[test]
fn a_token_belongs_to_one_user_only() {
    let mut i = SessionManagerInner::new();
    i.insert(1, "tok".to_string());
    i.insert(2, "tok".to_string());
    assert!(!i.contains(1, "tok"));
    assert!(i.contains(2, "tok"));
    i.remove_user(1);
    assert!(i.contains(2, "tok"));
    i.remove_user(2);
    assert!(!i.contains(2, "tok"));
}
