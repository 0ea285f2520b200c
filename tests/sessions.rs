use std::collections::HashSet;

use session_auth::database::User;
use session_auth::gate::{check, get_session, session_from_pairs, Decision, SESSION_NAME};
use session_auth::service::{AuthError, AuthService};
use session_auth::sessions::{gen_session_id, SessionManager};

fn identity(name: &str) -> User {
    User::new(name.to_string(), "pw".to_string())
}

#[test]
fn issued_tokens_are_pairwise_distinct() {
    let mut sessions = SessionManager::new();
    let u = identity("alice");
    let mut seen = HashSet::new();
    for _ in 0..2000 {
        let t = sessions.issue(&u).unwrap();
        assert_eq!(t.len(), 64);
        assert!(t.chars().all(|c| c.is_ascii_digit() || ('a'..='f').contains(&c)));
        assert!(seen.insert(t));
    }
}

#[test]
fn unissued_tokens_resolve_to_nothing() {
    let mut sessions = SessionManager::new();
    let t = sessions.issue(&identity("alice")).unwrap();
    assert!(sessions.resolve("").is_none());
    assert!(sessions.resolve("not a token; at all").is_none());
    assert!(sessions.resolve(&gen_session_id()).is_none());
    assert!(sessions.resolve(&t[..63]).is_none());
    assert!(sessions.resolve(&t.to_uppercase()).is_none());
}

#[test]
fn resolve_after_issue_keeps_username() {
    let mut sessions = SessionManager::new();
    let alice = identity("alice");
    let bob = identity("bob");
    let ta = sessions.issue(&alice).unwrap();
    let tb = sessions.issue(&bob).unwrap();
    assert_eq!(sessions.resolve(&ta).unwrap().username, "alice");
    assert_eq!(sessions.resolve(&tb).unwrap(), bob);
}

#[test]
fn insert_fresh_refuses_a_token_in_use() {
    let mut sessions = SessionManager::new();
    let alice = identity("alice");
    let bob = identity("bob");
    assert!(sessions.insert_fresh("tok".to_string(), &alice));
    assert!(!sessions.insert_fresh("tok".to_string(), &bob));
    assert_eq!(sessions.resolve("tok").unwrap(), alice);
}

#[test]
fn gate_denies_missing_and_unknown_and_allows_issued() {
    let mut sessions = SessionManager::new();
    let alice = identity("alice");
    let t = sessions.issue(&alice).unwrap();
    assert_eq!(check(&sessions, None), Decision::Deny);
    assert_eq!(check(&sessions, Some("never-issued")), Decision::Deny);
    assert_eq!(check(&sessions, Some(&t)), Decision::Allow(alice));
}

#[test]
fn scenario_login_then_gate_allows() {
    let mut service = AuthService::new();
    service.register("alice".to_string(), "correct-horse".to_string());
    let token = service.login("alice", "correct-horse").unwrap();
    match service.check(Some(&token)) {
        Decision::Allow(u) => assert_eq!(u.username, "alice"),
        Decision::Deny => panic!("issued token was denied"),
    }
}

#[test]
fn scenario_wrong_password_issues_no_token() {
    let mut service = AuthService::new();
    service.register("alice".to_string(), "correct-horse".to_string());
    assert_eq!(service.login("alice", "wrong"), Err(AuthError::AuthenticationFailed));
    assert_eq!(service.login("bob", "correct-horse"), Err(AuthError::AuthenticationFailed));
}

#[test]
fn scenario_gate_without_session_denies() {
    let service = AuthService::new();
    assert_eq!(service.check(None), Decision::Deny);
    assert_eq!(service.check(Some("garbage-token-never-issued")), Decision::Deny);
}

#[test]
fn session_cookie_first_match_wins() {
    let entries = vec![
        "other=1".to_string(),
        format!("{}=abc", SESSION_NAME),
        format!("{}=def", SESSION_NAME),
    ];
    assert_eq!(get_session(&entries), Some("abc".to_string()));
}

#[test]
fn session_cookie_skips_malformed_entries() {
    let entries = vec!["garbage".to_string(), "=x".to_string(), "nickelsession=tok".to_string()];
    assert_eq!(get_session(&entries), Some("tok".to_string()));
    assert_eq!(get_session(&vec!["garbage".to_string(), "a=b".to_string()]), None);
    assert_eq!(get_session(&Vec::new()), None);
}

#[test]
fn session_from_parsed_pairs() {
    let pairs = vec![
        None,
        Some(("nickelsessionx".to_string(), "no".to_string())),
        Some(("nickelsession".to_string(), "yes".to_string())),
    ];
    assert_eq!(session_from_pairs(&pairs), Some("yes".to_string()));
    assert_eq!(session_from_pairs(&vec![None]), None);
}
