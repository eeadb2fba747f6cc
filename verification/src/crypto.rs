//! Passwords, session tokens and secrets: bcrypt hashing and checking,
//! token claims and expiry, random API tokens and passwords, and the
//! strength rule of the session secret.
use vstd::prelude::*;
use crate::text::{chars_of, push_str, string_from_chars};

verus! {

#[verifier::external_type_specification]
#[verifier::external_body]
pub struct ExBcryptError(bcrypt::BcryptError);

/// Failure of an authentication operation.
#[derive(Debug, Clone, PartialEq, Eq)]
pub enum CryptoError {
    /// Unexpected failure (hashing, token creation).
    Internal(String),
    /// The credentials are not accepted.
    Unauthorized(String),
}

/// Claims carried by a session token.
#[derive(Debug, Clone, PartialEq, Eq)]
pub struct TokenClaims {
    /// User id.
    pub sub: i64,
    pub username: String,
    pub role: i32,
    /// Expiry, seconds since the Unix epoch.
    pub exp: usize,
}

// ---------------------------------------------------------------------------
// bcrypt
// ---------------------------------------------------------------------------

/// What `bcrypt::verify(password, hash)` returns: `Some(matches)` for a
/// well-formed hash, `None` for an error.
pub uninterp spec fn bcrypt_verify_result(password: Seq<char>, hash: Seq<char>) -> Option<bool>;

/// `bcrypt::hash(password, DEFAULT_COST)`: a salted hash (the salt is random,
/// so nothing is stated of the text), which `bcrypt::verify` accepts for the
/// same password: the source re-hashes with the salt and cost read back from
/// the hash.
#[verifier::external_body]
fn bcrypt_hash(password: &str) -> (r: Result<String, bcrypt::BcryptError>)
    ensures
        r matches Ok(h) ==> bcrypt_verify_result(password@, h@) == Some(true),
{
    bcrypt::hash(password, bcrypt::DEFAULT_COST)
}

/// `bcrypt::verify(password, hash)`, a function of its arguments alone.
#[verifier::external_body]
fn bcrypt_verify(password: &str, hash: &str) -> (r: Result<bool, bcrypt::BcryptError>)
    ensures
        match r {
            Ok(b) => bcrypt_verify_result(password@, hash@) == Some(b),
            Err(_) => bcrypt_verify_result(password@, hash@) is None,
        },
{
    bcrypt::verify(password, hash)
}

/// The `Display` text of a `bcrypt::BcryptError`; nothing is stated of it.
#[verifier::external_body]
fn bcrypt_error_text(e: &bcrypt::BcryptError) -> String {
    e.to_string()
}

fn internal(prefix: &str, detail: &str) -> (r: CryptoError)
    ensures
        r matches CryptoError::Internal(m) && m@ == prefix@ + detail@,
{
    let mut m: Vec<char> = Vec::new();
    push_str(&mut m, prefix);
    push_str(&mut m, detail);
    CryptoError::Internal(string_from_chars(m.as_slice()))
}

/// Hashes a password with bcrypt; the hash verifies against the same
/// password.
pub fn hash_password(password: &str) -> (r: Result<String, CryptoError>)
    ensures
        match r {
            Ok(h) => bcrypt_verify_result(password@, h@) == Some(true),
            Err(e) => e matches CryptoError::Internal(m) && crate::text::starts_with(m@, "密码哈希失败: "@),
        },
{
    match bcrypt_hash(password) {
        Ok(h) => Ok(h),
        Err(e) => {
            let t = bcrypt_error_text(&e);
            let r = internal("密码哈希失败: ", t.as_str());
            let ghost gr = r;
            proof {
                if let CryptoError::Internal(m) = gr {
                    assert(m@.take("密码哈希失败: "@.len() as int) =~= "密码哈希失败: "@);
                }
            }
            Err(r)
        },
    }
}

/// What checking `password` against `hash` gives: the bcrypt verdict, or
/// an internal error for a malformed hash.
pub open spec fn verify_outcome(password: Seq<char>, hash: Seq<char>, r: Result<bool, CryptoError>) -> bool {
    match r {
        Ok(b) => bcrypt_verify_result(password, hash) == Some(b),
        Err(e) => bcrypt_verify_result(password, hash) is None && (e matches CryptoError::Internal(m)
            && crate::text::starts_with(m@, "密码验证失败: "@)),
    }
}

/// Checks a password against a bcrypt hash; a malformed hash is an error.
pub fn verify_password(password: &str, password_hash: &str) -> (r: Result<bool, CryptoError>)
    ensures
        verify_outcome(password@, password_hash@, r),
{
    match bcrypt_verify(password, password_hash) {
        Ok(b) => Ok(b),
        Err(e) => {
            let t = bcrypt_error_text(&e);
            let r = internal("密码验证失败: ", t.as_str());
            let ghost gr = r;
            proof {
                if let CryptoError::Internal(m) = gr {
                    assert(m@.take("密码验证失败: "@.len() as int) =~= "密码验证失败: "@);
                }
            }
            Err(r)
        },
    }
}

/// A password checks out against any hash made of it: whenever
/// `hash_password(p)` gave `h`, `verify_password(p, h)` gives `Ok(true)`.
pub proof fn lemma_hashed_password_verifies(p: Seq<char>, h: Seq<char>, outcome: Result<bool, CryptoError>)
    requires
        bcrypt_verify_result(p, h) == Some(true),
        verify_outcome(p, h, outcome),
    ensures
        outcome == Ok::<bool, CryptoError>(true),
{
}

// ---------------------------------------------------------------------------
// Session tokens
// ---------------------------------------------------------------------------

/// Lifetime of a session token: 7 days.
pub const TOKEN_LIFETIME_SECS: i64 = 604_800;

/// The claims of a token issued at `now_secs` for the user: expiry 7 days
/// later.
pub fn token_claims(user_id: i64, username: &str, role: i32, now_secs: i64) -> (r: TokenClaims)
    requires
        0 <= now_secs + TOKEN_LIFETIME_SECS <= usize::MAX,
        now_secs + TOKEN_LIFETIME_SECS <= i64::MAX,
    ensures
        r.sub == user_id,
        r.username@ == username@,
        r.role == role,
        r.exp == now_secs + TOKEN_LIFETIME_SECS,
{
    let exp = now_secs + TOKEN_LIFETIME_SECS;
    TokenClaims { sub: user_id, username: String::from_str(username), role, exp: exp as usize }
}

/// The error for a token that does not decode or validate.
pub fn invalid_token(detail: &str) -> (r: CryptoError)
    ensures
        r matches CryptoError::Unauthorized(m) && m@ == "Token 无效: "@ + detail@,
{
    let mut m: Vec<char> = Vec::new();
    push_str(&mut m, "Token 无效: ");
    push_str(&mut m, detail);
    CryptoError::Unauthorized(string_from_chars(m.as_slice()))
}

// ---------------------------------------------------------------------------
// Random tokens
// ---------------------------------------------------------------------------

pub open spec fn is_lower_hex(c: char) -> bool {
    ('0' <= c && c <= '9') || ('a' <= c && c <= 'f')
}

/// The hyphenated form of a version-4 UUID: 36 characters, `-` at 8, 13,
/// 18 and 23, lower-case hex elsewhere, version digit `4` at 14.
pub open spec fn uuid_v4_hyphenated(s: Seq<char>) -> bool {
    &&& s.len() == 36
    &&& forall|i: int| 0 <= i < 36 ==> (if i == 8 || i == 13 || i == 18 || i == 23 {
        s[i] == '-'
    } else {
        is_lower_hex(#[trigger] s[i])
    })
    &&& s[14] == '4'
}

/// The simple form of a version-4 UUID: 32 lower-case hex digits, version
/// digit `4` at 12.
pub open spec fn uuid_v4_simple(s: Seq<char>) -> bool {
    &&& s.len() == 32
    &&& forall|i: int| 0 <= i < 32 ==> is_lower_hex(#[trigger] s[i])
    &&& s[12] == '4'
}

/// `uuid::Uuid::new_v4().to_string()`: random, so only its form is stated.
#[verifier::external_body]
fn new_uuid_v4_hyphenated() -> (r: String)
    ensures
        uuid_v4_hyphenated(r@),
{
    uuid::Uuid::new_v4().to_string()
}

/// `uuid::Uuid::new_v4().simple().to_string()`: random, so only its form is
/// stated.
#[verifier::external_body]
pub(crate) fn new_uuid_v4_simple() -> (r: String)
    ensures
        uuid_v4_simple(r@),
{
    uuid::Uuid::new_v4().simple().to_string()
}

/// A random API token: a version-4 UUID in hyphenated form.
pub fn generate_api_token() -> (r: String)
    ensures
        uuid_v4_hyphenated(r@),
{
    new_uuid_v4_hyphenated()
}

/// A random strong password: 32 hex digits of a version-4 UUID.
pub fn generate_random_password() -> (r: String)
    ensures
        uuid_v4_simple(r@),
        r@.len() >= 24,
{
    new_uuid_v4_simple()
}

// ---------------------------------------------------------------------------
// SHA-256
// ---------------------------------------------------------------------------

/// The SHA-256 digest of `bytes` in lower-case hex.
pub uninterp spec fn sha256_hex_of(bytes: Seq<u8>) -> Seq<char>;

/// `format!("{:x}", Sha256::digest(bytes))`: the 32 bytes of the digest,
/// each as two lower-case hex digits.
#[verifier::external_body]
pub(crate) fn sha256_hex(bytes: &[u8]) -> (r: String)
    ensures
        r@ == sha256_hex_of(bytes@),
        r@.len() == 64,
        forall|i: int| 0 <= i < 64 ==> is_lower_hex(#[trigger] r@[i]),
{
    format!("{:x}", <sha2::Sha256 as sha2::Digest>::digest(bytes))
}

// ---------------------------------------------------------------------------
// Session secret
// ---------------------------------------------------------------------------

/// The publicly known placeholder secret.
pub const DEFAULT_SESSION_SECRET: &'static str = "change-me-to-a-random-string";

/// Minimum length of the session secret, in characters.
pub const MIN_SECRET_CHARS: usize = 32;

/// The error a secret gets, if any: unset, the public default, or shorter
/// than 32 characters. No message holds the secret.
pub open spec fn secret_error(secret: Seq<char>) -> Option<Seq<char>> {
    if secret.len() == 0 {
        Some("SESSION_SECRET 未配置：请设置环境变量 SESSION_SECRET（≥32 字符的随机字符串）"@)
    } else if secret == "change-me-to-a-random-string"@ {
        Some("SESSION_SECRET 仍为公开默认值：请更换为随机强密钥（≥32 字符）"@)
    } else if secret.len() < 32 {
        Some("SESSION_SECRET 过短：需 ≥32 字符的随机强密钥"@)
    } else {
        None
    }
}

/// Checks the strength of the session secret.
pub fn validate_session_secret(secret: &str) -> (r: Result<(), String>)
    ensures
        match secret_error(secret@) {
            None => r is Ok,
            Some(m) => r matches Err(e) && e@ == m,
        },
{
    let v = chars_of(secret);
    if v.len() == 0 {
        return Err(String::from_str("SESSION_SECRET 未配置：请设置环境变量 SESSION_SECRET（≥32 字符的随机字符串）"));
    }
    let d = chars_of(DEFAULT_SESSION_SECRET);
    if crate::text::seq_eq(v.as_slice(), d.as_slice()) {
        return Err(String::from_str("SESSION_SECRET 仍为公开默认值：请更换为随机强密钥（≥32 字符）"));
    }
    if v.len() < MIN_SECRET_CHARS {
        return Err(String::from_str("SESSION_SECRET 过短：需 ≥32 字符的随机强密钥"));
    }
    Ok(())
}

} // verus!
