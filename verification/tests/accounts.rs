use rust_network_project::auth::{
    change_password, check_password, collect_permissions, login_allowed, register,
    session_from_record, validate_email, validate_phone, AccountError, AccountRecord, UserSession,
};

fn session(permissions: &[&str]) -> UserSession {
    UserSession {
        user_id: 7,
        username: "alice".to_string(),
        email: "alice@example.com".to_string(),
        phone: "0123456789".to_string(),
        display_name: None,
        avatar_url: None,
        role: "user".to_string(),
        permissions: permissions.iter().map(|p| p.to_string()).collect(),
    }
}

#[test]
fn permissions_are_looked_up_by_name() {
    let s = session(&["chat.send", "profile.update"]);
    assert!(s.has_permission("chat.send"));
    assert!(s.has_permission("profile.update"));
    assert!(!s.has_permission("admin.manage_users"));
    assert!(!s.has_permission("chat"));
    assert!(!session(&[]).has_permission("chat.send"));
}

#[test]
fn email_needs_at_sign_and_dot() {
    assert!(validate_email("alice@example.com"));
    assert!(!validate_email("alice.example.com"));
    assert!(!validate_email("alice@example"));
    assert!(!validate_email(""));
}

#[test]
fn phone_length_and_characters() {
    assert!(validate_phone("0123456789"));
    assert!(validate_phone("+84123456789"));
    assert!(validate_phone("01234567890123456789"));
    assert!(!validate_phone("012345678901234567890"));
    assert!(!validate_phone("012345678"));
    assert!(!validate_phone("012345678a"));
    assert!(!validate_phone("0123 456789"));
    // Arabic-Indic digits are numeric and take two bytes each.
    assert!(validate_phone("\u{663}\u{663}\u{663}\u{663}\u{663}"));
    assert!(!validate_phone("\u{663}\u{663}\u{663}\u{663}"));
}

#[test]
fn phone_examples() {
    assert!(validate_phone("0912345678"));
    assert!(validate_phone("+84912345678"));
    assert!(!validate_phone("091234567"));
    assert!(!validate_phone("0912-345-678"));
    assert!(!validate_phone("123456789012345678901"));
}

#[test]
fn registration_checks_email_then_phone() {
    assert_eq!(register("alice", "bad", "bad", "pw").unwrap_err(), AccountError::InvalidEmail);
    assert_eq!(
        register("alice", "alice@example.com", "123", "pw").unwrap_err(),
        AccountError::InvalidPhone
    );
}

#[test]
fn registration_hashes_the_password() {
    let reg = register("alice", "alice@example.com", "0123456789", "secret").unwrap();
    assert_eq!(reg.username, "alice");
    assert_eq!(reg.email, "alice@example.com");
    assert_eq!(reg.phone, "0123456789");
    assert_ne!(reg.password_hash, "secret");
    assert_eq!(reg.password_hash.len(), 60);
    assert!(check_password("secret", &reg.password_hash));
    assert!(!check_password("other", &reg.password_hash));
}

#[test]
fn unreadable_hashes_match_nothing() {
    assert!(!check_password("secret", ""));
    assert!(!check_password("secret", "not a bcrypt hash"));
}

fn record(hash: &str, is_active: bool) -> AccountRecord {
    AccountRecord {
        user_id: 3,
        username: "bob".to_string(),
        email: "bob@example.com".to_string(),
        phone: "0987654321".to_string(),
        display_name: Some("Bob".to_string()),
        avatar_url: None,
        password_hash: hash.to_string(),
        is_active,
        role: "admin".to_string(),
    }
}

#[test]
fn login_needs_an_active_account_and_the_password() {
    let reg = register("bob", "bob@example.com", "0987654321", "pw").unwrap();
    assert!(login_allowed(&record(&reg.password_hash, true), "pw"));
    assert!(!login_allowed(&record(&reg.password_hash, true), "wrong"));
    assert!(!login_allowed(&record(&reg.password_hash, false), "pw"));
}

#[test]
fn sessions_come_from_records() {
    let s = session_from_record(record("h", true), vec!["chat.send".to_string()]);
    assert_eq!(s.user_id, 3);
    assert_eq!(s.username, "bob");
    assert_eq!(s.display_name.as_deref(), Some("Bob"));
    assert_eq!(s.role, "admin");
    assert_eq!(s.permissions, vec!["chat.send".to_string()]);
}

#[test]
fn law_changed_password_is_accepted_at_login() {
    let reg = register("bob", "bob@example.com", "0987654321", "old").unwrap();
    assert_eq!(
        change_password(Some(reg.password_hash.clone()), "wrong", "new").unwrap_err(),
        AccountError::WrongPassword
    );
    assert_eq!(change_password(None, "old", "new").unwrap_err(), AccountError::WrongPassword);
    let new_hash = change_password(Some(reg.password_hash), "old", "new").unwrap();
    assert!(login_allowed(&record(&new_hash, true), "new"));
    assert!(!login_allowed(&record(&new_hash, true), "old"));
}

#[test]
fn permission_rows_without_a_name_are_skipped() {
    let names = vec![Some("a".to_string()), None, Some("b".to_string())];
    assert_eq!(collect_permissions(names), vec!["a".to_string(), "b".to_string()]);
    assert!(collect_permissions(vec![None]).is_empty());
}
