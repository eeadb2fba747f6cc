//! API keys: the plaintext form, the stored hash and prefix, and the rules
//! on creation, quota, revocation and rotation.
use vstd::prelude::*;
use vstd::utf8::encode_utf8;
use crate::crypto::{new_uuid_v4_simple, sha256_hex, sha256_hex_of, uuid_v4_simple};
use crate::text::{chars_of, is_blank, push_signed_decimal, push_str, int_decimal, slice_range, string_from_chars, trim};

verus! {

/// Status of a key that is in use.
pub const STATUS_ENABLED: &'static str = "enabled";

/// Status of a revoked or rotated key.
pub const STATUS_DISABLED: &'static str = "disabled";

/// Why a key operation was refused.
#[derive(Debug, Clone, PartialEq, Eq)]
pub enum ApiKeyError {
    BadRequest(String),
    Unauthorized(String),
    NotFound(String),
}

/// A new plaintext key: `pk_` and the 32 hex digits of a version-4 UUID.
pub fn generate_plaintext() -> (r: String)
    ensures
        r@.len() == 35,
        r@.take(3) == "pk_"@,
        uuid_v4_simple(r@.skip(3)),
{
    let u = new_uuid_v4_simple();
    let mut v: Vec<char> = Vec::new();
    push_str(&mut v, "pk_");
    let uv = chars_of(u.as_str());
    let ghost before = v@;
    crate::text::push_all(&mut v, uv.as_slice());
    proof {
        reveal_strlit("pk_");
        assert(v@.take(3) =~= "pk_"@);
        assert(v@.skip(3) =~= u@);
    }
    string_from_chars(v.as_slice())
}

/// What is stored of a key: the SHA-256 of its UTF-8 bytes in hex.
pub fn hash_key(plaintext: &str) -> (r: String)
    ensures
        r@ == sha256_hex_of(encode_utf8(plaintext@)),
        r@.len() == 64,
{
    sha256_hex(plaintext.as_bytes())
}

/// The shown prefix of a key: its first 8 characters.
pub fn key_prefix(plaintext: &str) -> (r: String)
    ensures
        r@ == if plaintext@.len() <= 8 { plaintext@ } else { plaintext@.take(8) },
{
    let v = chars_of(plaintext);
    let n = if v.len() <= 8 { v.len() } else { 8 };
    let p = slice_range(v.as_slice(), 0, n);
    proof {
        if v.len() <= 8 {
            assert(p@ =~= plaintext@);
        } else {
            assert(p@ =~= plaintext@.take(8));
        }
    }
    string_from_chars(p.as_slice())
}

/// The quota and rate limit a new key is stored with: the system name must
/// not be blank; a missing or negative quota is 0 (unlimited); a rate limit
/// that is not positive is none.
pub fn new_key_limits(system_name: &str, quota_limit: Option<i64>, rate_limit_qps: Option<i64>) -> (r: Result<(i64, Option<i64>), ApiKeyError>)
    ensures
        trim(system_name@).len() == 0 ==> (r matches Err(ApiKeyError::BadRequest(m)) && m@ == "system_name 不能为空"@),
        trim(system_name@).len() > 0 ==> (r matches Ok((q, qps)) && {
            &&& q == match quota_limit {
                Some(x) => if x > 0 { x } else { 0 },
                None => 0,
            }
            &&& qps == match rate_limit_qps {
                Some(x) => if x > 0 { Some(x) } else { None },
                None => None,
            }
        }),
{
    if is_blank(system_name) {
        return Err(ApiKeyError::BadRequest(String::from_str("system_name 不能为空")));
    }
    let q = match quota_limit {
        Some(x) => if x > 0 { x } else { 0 },
        None => 0,
    };
    let qps = match rate_limit_qps {
        Some(x) => if x > 0 { Some(x) } else { None },
        None => None,
    };
    Ok((q, qps))
}

/// Whether one more use fits the quota: a positive limit caps the uses.
pub fn quota_allows(quota_limit: i64, quota_used: i64) -> (r: bool)
    ensures
        r == !(quota_limit > 0 && quota_used >= quota_limit),
{
    !(quota_limit > 0 && quota_used >= quota_limit)
}

/// A key found by its hash, or the refusal for an unknown or revoked one.
pub fn validated<K>(found: Option<K>) -> (r: Result<K, ApiKeyError>)
    ensures
        match found {
            Some(k) => r == Ok::<K, ApiKeyError>(k),
            None => r matches Err(ApiKeyError::Unauthorized(m)) && m@ == "无效或已吊销的 API Key"@,
        },
{
    match found {
        Some(k) => Ok(k),
        None => Err(ApiKeyError::Unauthorized(String::from_str("无效或已吊销的 API Key"))),
    }
}

/// The outcome of revoking key `id`, given how many enabled keys the update
/// touched.
pub fn revoke_outcome(id: i64, affected: u64) -> (r: Result<(), ApiKeyError>)
    ensures
        affected == 0 ==> (r matches Err(ApiKeyError::NotFound(m)) && m@ == "API Key "@ + int_decimal(id as int)
            + " 不存在或已吊销"@),
        affected > 0 ==> r is Ok,
{
    if affected == 0 {
        let mut m: Vec<char> = Vec::new();
        push_str(&mut m, "API Key ");
        push_signed_decimal(&mut m, id);
        push_str(&mut m, " 不存在或已吊销");
        return Err(ApiKeyError::NotFound(string_from_chars(m.as_slice())));
    }
    Ok(())
}

/// Only an enabled key can be rotated.
pub fn check_rotatable(status: &str) -> (r: Result<(), ApiKeyError>)
    ensures
        status@ == "enabled"@ ==> r is Ok,
        status@ != "enabled"@ ==> (r matches Err(ApiKeyError::BadRequest(m)) && m@ == "仅 enabled 的 Key 可轮换"@),
{
    if crate::text::str_eq(status, STATUS_ENABLED) {
        Ok(())
    } else {
        Err(ApiKeyError::BadRequest(String::from_str("仅 enabled 的 Key 可轮换")))
    }
}

} // verus!
