use wireframe::user::{User, UserError};

#[test]
fn user_name_validity() {
    assert!(!User::is_valid_username(""));
    assert!(User::is_valid_username("a"));
    assert!(User::is_valid_username("abcdefghijklmnopqrst"));
    assert!(!User::is_valid_username("abcdefghijklmnopqrstu"));
    // counted in bytes
    assert!(!User::is_valid_username("ééééééééééé"));
}

#[test]
fn password_validity() {
    assert!(!User::is_valid_password("1234567"));
    assert!(User::is_valid_password("12345678"));
    assert!(User::is_valid_password(&"x".repeat(50)));
    assert!(!User::is_valid_password(&"x".repeat(51)));
}

#[test]
fn record_validity_needs_both() {
    let u = User::new("alice".to_string(), Some("password1".to_string()), None);
    assert!(u.is_valid());
    let u = User::new("".to_string(), Some("password1".to_string()), None);
    assert!(!u.is_valid());
    let u = User::new("alice".to_string(), Some("short".to_string()), None);
    assert!(!u.is_valid());
}

#[test]
fn malformed_hash_is_an_error() {
    let u = User::new("alice".to_string(), Some("password1".to_string()), Some("password1".to_string()));
    assert_eq!(u.verify(), Err(UserError::MalformedHash));
}

#[test]
fn generated_hash_verifies_its_password_only() {
    let mut u = User::new("alice".to_string(), Some("password1".to_string()), None);
    assert_eq!(u.generate_hash(), Ok(()));
    let hash = u.password_hash().unwrap().to_string();
    assert_eq!(hash.len(), 60);
    assert_ne!(hash, "password1");
    assert_eq!(u.verify(), Ok(true));
    let other = User::new("alice".to_string(), Some("password2".to_string()), Some(hash));
    assert_eq!(other.verify(), Ok(false));
}
