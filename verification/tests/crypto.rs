use crawler::crypto::{
    generate_api_token, generate_random_password, hash_password, invalid_token, token_claims,
    validate_session_secret, verify_password, CryptoError,
};

#[test]
fn test_validate_session_secret_default_rejected() {
    assert!(validate_session_secret("change-me-to-a-random-string").is_err());
}

#[test]
fn test_validate_session_secret_empty_rejected() {
    assert!(validate_session_secret("").is_err());
}

#[test]
fn test_validate_session_secret_short_rejected() {
    assert!(validate_session_secret("short-secret").is_err());
}

#[test]
fn test_validate_session_secret_valid_accepted() {
    let ok = "a".repeat(40);
    assert!(validate_session_secret(&ok).is_ok());
}

#[test]
fn test_validate_session_secret_error_no_leak() {
    let secret = "weak-short-secret";
    let err = validate_session_secret(secret).unwrap_err();
    assert!(!err.contains(secret));
}

#[test]
fn validate_session_secret_counts_characters() {
    let s = "密".repeat(31);
    assert!(validate_session_secret(&s).is_err());
    let s = "密".repeat(32);
    assert!(validate_session_secret(&s).is_ok());
}

#[test]
fn test_generate_random_password_not_fixed() {
    let p = generate_random_password();
    assert_ne!(p, "123456");
    assert!(p.chars().count() >= 24);
}

#[test]
fn test_generate_random_password_random() {
    assert_ne!(generate_random_password(), generate_random_password());
}

#[test]
fn api_token_is_hyphenated_uuid() {
    let t = generate_api_token();
    assert_eq!(t.len(), 36);
    assert_eq!(&t[14..15], "4");
}

#[test]
fn hash_then_verify_round_trip() {
    let h = hash_password("s3cret").unwrap();
    assert_eq!(verify_password("s3cret", &h).unwrap(), true);
    assert_eq!(verify_password("other", &h).unwrap(), false);
}

#[test]
fn verify_rejects_malformed_hash() {
    match verify_password("x", "not-a-hash") {
        Err(CryptoError::Internal(m)) => assert!(m.starts_with("密码验证失败: ")),
        other => panic!("unexpected {other:?}"),
    }
}

#[test]
fn token_claims_expire_after_seven_days() {
    let c = token_claims(7, "alice", 1, 1_700_000_000);
    assert_eq!(c.exp, 1_700_000_000 + 604_800);
    assert_eq!(c.username, "alice");
    assert_eq!(invalid_token("expired"), CryptoError::Unauthorized("Token 无效: expired".into()));
}

#[test]
fn test_hash_password_success() {
    let hash = hash_password("mypassword123").unwrap();
    assert!(!hash.is_empty());
    assert!(hash.starts_with("$2b$"));
}

#[test]
fn test_verify_password_correct() {
    let hash = hash_password("mypassword123").unwrap();
    let result = verify_password("mypassword123", &hash).unwrap();
    assert!(result);
}

#[test]
fn test_verify_password_incorrect() {
    let hash = hash_password("mypassword123").unwrap();
    let result = verify_password("wrongpassword", &hash).unwrap();
    assert!(!result);
}

#[test]
fn test_verify_password_empty() {
    let hash = hash_password("").unwrap();
    assert!(verify_password("", &hash).unwrap());
    assert!(!verify_password("notempty", &hash).unwrap());
}

#[test]
fn test_generate_api_token_format() {
    let token = generate_api_token();
    assert_eq!(token.len(), 36);
    assert!(token.contains('-'));
    let token2 = generate_api_token();
    assert_ne!(token, token2);
}

#[test]
fn test_migration_hash_is_valid() {
    let fresh_hash = hash_password("123456").unwrap();
    assert!(
        verify_password("123456", &fresh_hash).unwrap(),
        "Freshly generated bcrypt hash should verify correctly"
    );
}
