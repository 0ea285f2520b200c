use session_auth::database::{add_user, validate_user, User};
use session_auth::hashing::{digests_equal, generate_salt};

#[test]
fn test_user_validates() {
    let mut users = Vec::new();
    let user = User::new("user".to_string(), "amazingpassword".to_string());
    add_user(&mut users, user);

    assert_eq!(
        Some("user".to_string()),
        validate_user(&users, &"user".to_string(), &"amazingpassword".to_string())
            .map(|u| u.username.to_string())
    );
}

#[test]
fn test_incorrect_password() {
    let mut users = Vec::new();
    let user = User::new("user".to_string(), "amazingpassword".to_string());
    add_user(&mut users, user);

    assert_eq!(
        None,
        validate_user(&users, &"user".to_string(), &"terrible_password".to_string())
    );
}

#[test]
fn unknown_username_is_rejected() {
    let mut users = Vec::new();
    add_user(&mut users, User::new("user".to_string(), "amazingpassword".to_string()));
    assert_eq!(None, validate_user(&users, "someone", "amazingpassword"));
    assert_eq!(None, validate_user(&users, "User", "amazingpassword"));
    assert_eq!(None, validate_user(&[], "user", "amazingpassword"));
}

#[test]
fn same_password_gets_distinct_salts_and_digests() {
    let a = User::new("a".to_string(), "same-password".to_string());
    let b = User::new("b".to_string(), "same-password".to_string());
    assert_ne!(a.salt(), b.salt());
    assert_ne!(a.password_hash(), b.password_hash());
    assert_eq!(a.salt().len(), 64);
    assert!(a.salt().chars().all(|c| c.is_ascii_digit() || ('a'..='f').contains(&c)));
}

#[test]
fn first_identity_of_a_name_shadows_later_ones() {
    let mut users = Vec::new();
    add_user(&mut users, User::new("alice".to_string(), "first".to_string()));
    add_user(&mut users, User::new("alice".to_string(), "second".to_string()));
    let found = validate_user(&users, "alice", "first").unwrap();
    assert_eq!(found.salt(), users[0].salt());
    assert_eq!(None, validate_user(&users, "alice", "second"));
}

#[test]
fn add_user_appends_in_order() {
    let mut users = Vec::new();
    add_user(&mut users, User::new("x".to_string(), "p".to_string()));
    add_user(&mut users, User::new("y".to_string(), "p".to_string()));
    assert_eq!(users.len(), 2);
    assert_eq!(users[0].username, "x");
    assert_eq!(users[1].username, "y");
}

#[test]
fn clone_keeps_every_field() {
    let u = User::new("carol".to_string(), "pw".to_string());
    let c = u.clone();
    assert_eq!(u, c);
    assert_eq!(u.salt(), c.salt());
    assert_eq!(u.password_hash(), c.password_hash());
}

#[test]
fn empty_password_round_trips() {
    let mut users = Vec::new();
    add_user(&mut users, User::new("dave".to_string(), String::new()));
    assert!(validate_user(&users, "dave", "").is_some());
    assert!(validate_user(&users, "dave", " ").is_none());
}

#[test]
fn salts_are_fresh_hex_text() {
    let a = generate_salt();
    let b = generate_salt();
    assert_eq!(a.len(), 64);
    assert!(a.chars().all(|c| c.is_ascii_digit() || ('a'..='f').contains(&c)));
    assert_ne!(a, b);
}

#[test]
fn digest_comparison_is_exact() {
    let a = [7u8; 32];
    let mut b = [7u8; 32];
    assert!(digests_equal(&a, &b));
    b[31] = 8;
    assert!(!digests_equal(&a, &b));
    b[31] = 7;
    b[0] = 0;
    assert!(!digests_equal(&a, &b));
}
