use drive_clone_api::auth::{
    generate_token, hash_password, hash_token, validate_email, validate_password, verify_password,
};

#[test]
fn email_validation_accepts_normal_addresses() {
    assert!(validate_email("user@example.com").is_ok());
    assert!(validate_email("first.last@sub.domain.dev").is_ok());
}

#[test]
fn email_validation_rejects_malformed_addresses() {
    for email in [
        "",
        "no-at-sign",
        "@example.com",
        "user@",
        "user@nodot",
        "user@.com",
        "user@domain.",
        "a b@example.com",
    ] {
        assert!(validate_email(email).is_err(), "should reject {email:?}");
    }
}

#[test]
fn password_validation_enforces_length() {
    assert!(validate_password("12345678").is_ok());
    assert!(validate_password("1234567").is_err());
    assert!(validate_password(&"x".repeat(129)).is_err());
}

#[test]
fn auth_tokens_are_random_and_hash_deterministically() {
    let first = generate_token();
    let second = generate_token();
    assert_ne!(first, second);
    assert_eq!(first.len(), 43); // 32 bytes, base64url, no padding
    assert_eq!(hash_token(&first), hash_token(&first));
    assert_eq!(hash_token(&first).len(), 64); // sha-256 hex
}

#[test]
fn password_hashing_round_trips() {
    let hash = hash_password("hunter2hunter2").unwrap();
    assert!(verify_password("hunter2hunter2", &hash));
    assert!(!verify_password("wrong-password", &hash));
    assert!(!verify_password("hunter2hunter2", "not-a-phc-string"));
}
