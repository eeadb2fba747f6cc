//! `ctx.fetch` of the script sandbox: the SSRF address filter, the request
//! options, the response handed to scripts and the failure reasons.
use vstd::prelude::*;
use crate::json_support::{json_parse, json_whole_parses};
use crate::text::{
    ascii_lower, chars_of, nat_decimal, push_all, push_decimal, push_str, seq_eq, str_eq,
    string_from_chars, to_ascii_lower,
};

verus! {

// ---------------------------------------------------------------------------
// SSRF filter
// ---------------------------------------------------------------------------

/// An IP address as its octets.
#[derive(Debug, Clone, Copy, PartialEq, Eq)]
pub enum IpAddress {
    V4([u8; 4]),
    V6([u8; 16]),
}

/// Whether the 16 octets are the IPv6 address with only `last` set in the
/// final octet (`::` for 0, `::1` for 1).
pub open spec fn v6_is_low(o: Seq<u8>, last: u8) -> bool {
    (forall|i: int| 0 <= i < 15 ==> #[trigger] o[i] == 0) && o[15] == last
}

/// Addresses refused by `ctx.fetch`: IPv4 loopback 127/8, private 10/8,
/// 172.16/12 and 192.168/16, link-local 169.254/16 (cloud metadata),
/// 0/8, CGNAT 100.64/10; IPv6 `::1`, `::`, unique-local fc00::/7 and
/// link-local fe80::/10.
pub open spec fn ssrf_rejected(ip: IpAddress) -> bool {
    match ip {
        IpAddress::V4(o) => {
            let a = o@[0];
            let b = o@[1];
            ||| a == 127
            ||| a == 10
            ||| (a == 172 && 16 <= b <= 31)
            ||| (a == 192 && b == 168)
            ||| (a == 169 && b == 254)
            ||| a == 0
            ||| (a == 100 && 64 <= b <= 127)
        },
        IpAddress::V6(o) => {
            ||| v6_is_low(o@, 1)
            ||| (o@[0] == 0xfc || o@[0] == 0xfd)
            ||| (o@[0] == 0xfe && 0x80 <= o@[1] <= 0xbf)
            ||| v6_is_low(o@, 0)
        },
    }
}

fn v6_low(o: &[u8; 16], last: u8) -> (r: bool)
    ensures
        r == v6_is_low(o@, last),
{
    let mut i: usize = 0;
    while i < 15
        invariant
            i <= 15,
            o@.len() == 16,
            forall|k: int| 0 <= k < i ==> #[trigger] o@[k] == 0,
        decreases 15 - i,
    {
        if o[i] != 0 {
            return false;
        }
        i = i + 1;
    }
    o[15] == last
}

/// Whether `ctx.fetch` refuses to connect to `ip`.
pub fn is_ssrf_rejected(ip: &IpAddress) -> (r: bool)
    ensures
        r == ssrf_rejected(*ip),
{
    match ip {
        IpAddress::V4(o) => {
            let a = o[0];
            let b = o[1];
            assert((b & 0xf0u8) == 0x10u8 <==> 16 <= b <= 31) by (bit_vector);
            assert((b & 0xc0u8) == 0x40u8 <==> 64 <= b <= 127) by (bit_vector);
            a == 127 || a == 10 || (a == 172 && (b & 0xf0) == 0x10) || (a == 192 && b == 168)
                || (a == 169 && b == 254) || a == 0 || (a == 100 && (b & 0xc0) == 0x40)
        },
        IpAddress::V6(o) => {
            let a = o[0];
            let b = o[1];
            assert((a & 0xfeu8) == 0xfcu8 <==> (a == 0xfc || a == 0xfd)) by (bit_vector);
            assert((b & 0xc0u8) == 0x80u8 <==> 0x80 <= b <= 0xbf) by (bit_vector);
            v6_low(o, 1) || (a & 0xfe) == 0xfc || (a == 0xfe && (b & 0xc0) == 0x80) || v6_low(o, 0)
        },
    }
}

// ---------------------------------------------------------------------------
// Failures, options, responses
// ---------------------------------------------------------------------------

/// Why a fetch failed.
#[derive(Debug, Clone, PartialEq, Eq)]
pub enum FetchError {
    /// Scheme other than http / https.
    InvalidScheme(String),
    /// The URL does not parse.
    InvalidUrl(String),
    /// The host resolves to a refused address.
    Ssrf { host: String },
    /// Name resolution failed.
    Dns(String),
    /// The response is over the size limit.
    ResponseTooLarge { actual: u64, max: u64 },
    /// Any other network failure.
    Network(String),
}

impl FetchError {
    /// The message shown for the failure.
    pub open spec fn message(self) -> Seq<char> {
        match self {
            FetchError::InvalidScheme(s) => "URL 协议不被支持（仅 http/https）："@ + s@,
            FetchError::InvalidUrl(s) => "URL 解析失败："@ + s@,
            FetchError::Ssrf { host } => "SSRF 拒绝："@ + host@ + " 命中拒绝名单"@,
            FetchError::Dns(s) => "DNS 解析失败："@ + s@,
            FetchError::ResponseTooLarge { actual, max } => "响应超过大小上限（"@ + nat_decimal(
                actual as nat,
            ) + " > "@ + nat_decimal(max as nat) + "）"@,
            FetchError::Network(s) => "网络错："@ + s@,
        }
    }

    pub fn to_display(&self) -> (r: String)
        ensures
            r@ == self.message(),
    {
        let mut m: Vec<char> = Vec::new();
        match self {
            FetchError::InvalidScheme(s) => {
                push_str(&mut m, "URL 协议不被支持（仅 http/https）：");
                push_str(&mut m, s.as_str());
            },
            FetchError::InvalidUrl(s) => {
                push_str(&mut m, "URL 解析失败：");
                push_str(&mut m, s.as_str());
            },
            FetchError::Ssrf { host } => {
                push_str(&mut m, "SSRF 拒绝：");
                push_str(&mut m, host.as_str());
                push_str(&mut m, " 命中拒绝名单");
            },
            FetchError::Dns(s) => {
                push_str(&mut m, "DNS 解析失败：");
                push_str(&mut m, s.as_str());
            },
            FetchError::ResponseTooLarge { actual, max } => {
                push_str(&mut m, "响应超过大小上限（");
                push_decimal(&mut m, *actual);
                push_str(&mut m, " > ");
                push_decimal(&mut m, *max);
                push_str(&mut m, "）");
            },
            FetchError::Network(s) => {
                push_str(&mut m, "网络错：");
                push_str(&mut m, s.as_str());
            },
        }
        string_from_chars(m.as_slice())
    }
}

// ---------------------------------------------------------------------------
// URL scheme
// ---------------------------------------------------------------------------

/// What `reqwest::Url::parse(url)` gives, reduced to the scheme of the
/// parsed URL (`Ok`) or the text of the parse error (`Err`).
pub uninterp spec fn url_parse_scheme(url: Seq<char>) -> Result<Seq<char>, Seq<char>>;

/// `reqwest::Url::parse(url)`: the scheme of the URL, or the `Display` text
/// of the `url::ParseError`.
#[verifier::external_body]
fn parse_url_scheme(url: &str) -> (r: Result<String, String>)
    ensures
        match r {
            Ok(s) => url_parse_scheme(url@) == Ok::<Seq<char>, Seq<char>>(s@),
            Err(e) => url_parse_scheme(url@) == Err::<Seq<char>, Seq<char>>(e@),
        },
{
    match reqwest::Url::parse(url) {
        Ok(u) => Ok(u.scheme().to_string()),
        Err(e) => Err(e.to_string()),
    }
}

/// The verdict on a parsed URL (its scheme, or the parse error): only
/// `http` and `https` pass.
pub open spec fn scheme_verdict(parsed: Result<Seq<char>, Seq<char>>, r: Result<(), FetchError>) -> bool {
    match parsed {
        Err(e) => r matches Err(FetchError::InvalidUrl(m)) && m@ == e,
        Ok(s) => if s == "http"@ || s == "https"@ {
            r is Ok
        } else {
            r matches Err(FetchError::InvalidScheme(m)) && m@ == s
        },
    }
}

/// Decides on the result of parsing a URL: parse errors are `InvalidUrl`,
/// schemes other than `http` / `https` are `InvalidScheme`.
pub fn check_url_scheme(parsed: Result<String, String>) -> (r: Result<(), FetchError>)
    ensures
        scheme_verdict(
            match parsed {
                Ok(s) => Ok::<Seq<char>, Seq<char>>(s@),
                Err(e) => Err::<Seq<char>, Seq<char>>(e@),
            },
            r,
        ),
{
    match parsed {
        Err(e) => Err(FetchError::InvalidUrl(e)),
        Ok(s) => {
            if str_eq(s.as_str(), "http") || str_eq(s.as_str(), "https") {
                Ok(())
            } else {
                Err(FetchError::InvalidScheme(s))
            }
        },
    }
}

/// Accepts `http` and `https` URLs only.
pub fn validate_url_scheme(url: &str) -> (r: Result<(), FetchError>)
    ensures
        scheme_verdict(url_parse_scheme(url@), r),
{
    let parsed = parse_url_scheme(url);
    check_url_scheme(parsed)
}

/// Options of `ctx.fetch(url, opts)`.
#[derive(Debug, Clone, Default)]
pub struct FetchOpts {
    /// HTTP method; GET when absent.
    pub method: Option<String>,
    pub headers: Vec<(String, String)>,
    /// Request body (POST / PUT).
    pub body: Option<String>,
    /// Per-request timeout in milliseconds.
    pub timeout_ms: Option<u64>,
}

/// The response a script receives.
#[derive(Debug, Clone)]
pub struct JsResponse {
    pub status: u16,
    pub headers: Vec<(String, String)>,
    pub body_text: String,
}

/// Index of the first header whose name equals `name` ignoring ASCII case.
pub open spec fn first_header(h: Seq<(String, String)>, name: Seq<char>) -> Option<int> {
    if exists|i: int| 0 <= i < h.len() && ascii_lower(#[trigger] h[i].0@) == ascii_lower(name) {
        Some(choose|i: int|
            0 <= i < h.len() && ascii_lower(#[trigger] h[i].0@) == ascii_lower(name) && forall|j: int|
                0 <= j < i ==> ascii_lower(#[trigger] h[j].0@) != ascii_lower(name))
    } else {
        None
    }
}

impl JsResponse {
    /// The body parsed as JSON; `None` when it does not parse.
    pub fn json(&self) -> (r: Option<serde_json::Value>)
        ensures
            r is Some <==> json_whole_parses(self.body_text@),
    {
        json_parse(self.body_text.as_str()).ok()
    }

    /// The body text.
    pub fn text(&self) -> (r: &str)
        ensures
            r@ == self.body_text@,
    {
        self.body_text.as_str()
    }

    /// Value of the first header named `name` (ASCII case ignored).
    pub fn header(&self, name: &str) -> (r: Option<&str>)
        ensures
            match first_header(self.headers@, name@) {
                Some(i) => r matches Some(v) && v@ == self.headers@[i].1@,
                None => r is None,
            },
    {
        let want = to_ascii_lower(chars_of(name).as_slice());
        let mut i: usize = 0;
        while i < self.headers.len()
            invariant
                i <= self.headers.len(),
                want@ == ascii_lower(name@),
                forall|j: int| 0 <= j < i ==> ascii_lower(#[trigger] self.headers@[j].0@) != ascii_lower(name@),
            decreases self.headers.len() - i,
        {
            let k = to_ascii_lower(chars_of(self.headers[i].0.as_str()).as_slice());
            if seq_eq(k.as_slice(), want.as_slice()) {
                proof {
                    let h = self.headers@;
                    assert(ascii_lower(h[i as int].0@) == ascii_lower(name@));
                    let c = choose|c: int|
                        0 <= c < h.len() && ascii_lower(#[trigger] h[c].0@) == ascii_lower(name@) && forall|j: int|
                            0 <= j < c ==> ascii_lower(#[trigger] h[j].0@) != ascii_lower(name@);
                    assert(c == i as int);
                }
                return Some(self.headers[i].1.as_str());
            }
            i = i + 1;
        }
        None
    }
}

} // verus!
