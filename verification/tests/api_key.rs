use crawler::api_key::{
    check_rotatable, generate_plaintext, hash_key, key_prefix, new_key_limits, quota_allows,
    revoke_outcome, validated, ApiKeyError,
};
use crawler::image_uploader::cache_file_name;

#[test]
fn plaintext_form_and_uniqueness() {
    let a = generate_plaintext();
    let b = generate_plaintext();
    assert!(a.starts_with("pk_"));
    assert_eq!(a.len(), 35);
    assert!(a[3..].chars().all(|c| c.is_ascii_hexdigit() && !c.is_ascii_uppercase()));
    assert_ne!(a, b);
}

#[test]
fn hash_is_sha256_hex() {
    assert_eq!(hash_key("abc"), "ba7816bf8f01cfea414140de5dae2223b00361a396177a9cb410ff61f20015ad");
    assert_eq!(hash_key(""), "e3b0c44298fc1c149afbf4c8996fb92427ae41e4649b934ca495991b7852b855");
    assert_ne!(hash_key("pk_a"), hash_key("pk_b"));
}

#[test]
fn prefix_is_first_eight_chars() {
    assert_eq!(key_prefix("pk_0123456789"), "pk_01234");
    assert_eq!(key_prefix("short"), "short");
}

#[test]
fn limits_of_a_new_key() {
    assert_eq!(new_key_limits("crm", Some(100), Some(5)), Ok((100, Some(5))));
    assert_eq!(new_key_limits("crm", Some(-3), Some(0)), Ok((0, None)));
    assert_eq!(new_key_limits("crm", None, None), Ok((0, None)));
    assert_eq!(
        new_key_limits("  ", Some(1), None),
        Err(ApiKeyError::BadRequest("system_name 不能为空".into()))
    );
}

#[test]
fn quota_and_lifecycle_rules() {
    assert!(quota_allows(2, 1));
    assert!(!quota_allows(2, 2));
    assert!(quota_allows(0, 1_000_000));
    assert_eq!(validated(Some(7)), Ok(7));
    assert_eq!(
        validated::<i32>(None),
        Err(ApiKeyError::Unauthorized("无效或已吊销的 API Key".into()))
    );
    assert_eq!(revoke_outcome(9, 1), Ok(()));
    assert_eq!(
        revoke_outcome(9, 0),
        Err(ApiKeyError::NotFound("API Key 9 不存在或已吊销".into()))
    );
    assert_eq!(check_rotatable("enabled"), Ok(()));
    assert_eq!(
        check_rotatable("disabled"),
        Err(ApiKeyError::BadRequest("仅 enabled 的 Key 可轮换".into()))
    );
}

#[test]
fn image_cache_name_is_content_hash() {
    assert_eq!(
        cache_file_name(b"abc", "png"),
        "ba7816bf8f01cfea414140de5dae2223b00361a396177a9cb410ff61f20015ad.png"
    );
}
