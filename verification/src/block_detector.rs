//! Recognition of anti-crawler blocks from a response: HTTP 403/429/503,
//! Cloudflare challenges, login walls, captchas and empty responses. The
//! status code decides first; body and headers complete it.
use vstd::prelude::*;
use crate::text::{
    ascii_lower, byte_len, chars_of, contains, contains_exec, push_decimal, push_str,
    seq_eq, str_byte_len, string_from_chars, to_ascii_lower, trim, trim_bounds, nat_decimal,
    slice_range, is_ascii_upper, lower_char, is_ws, trim_start, trim_end,
};
use vstd::utf8::encode_utf8;

verus! {

/// Kind of block (stored as `crawler_run_histories.block_type`).
#[derive(Debug, Clone, PartialEq, Eq, Structural)]
pub enum BlockType {
    /// Blocking HTTP status (403 / 429 / 503).
    HttpBlocked(u16),
    /// Cloudflare challenge.
    Cloudflare,
    /// Login wall.
    LoginWall,
    /// Captcha wall.
    Captcha,
    /// Empty or abnormally short response.
    EmptyResponse,
}

impl BlockType {
    /// Stored string form: `HttpBlocked_<code>` or the variant's name.
    pub open spec fn label(self) -> Seq<char> {
        match self {
            BlockType::HttpBlocked(code) => "HttpBlocked_"@ + nat_decimal(code as nat),
            BlockType::Cloudflare => "Cloudflare"@,
            BlockType::LoginWall => "LoginWall"@,
            BlockType::Captcha => "Captcha"@,
            BlockType::EmptyResponse => "EmptyResponse"@,
        }
    }

    /// The string stored for this block type.
    pub fn as_str(&self) -> (r: String)
        ensures
            r@ == self.label(),
    {
        match self {
            BlockType::HttpBlocked(code) => {
                let mut m: Vec<char> = Vec::new();
                push_str(&mut m, "HttpBlocked_");
                push_decimal(&mut m, *code as u64);
                string_from_chars(m.as_slice())
            },
            BlockType::Cloudflare => String::from_str("Cloudflare"),
            BlockType::LoginWall => String::from_str("LoginWall"),
            BlockType::Captcha => String::from_str("Captcha"),
            BlockType::EmptyResponse => String::from_str("EmptyResponse"),
        }
    }
}

/// Login-wall keywords (matched after ASCII lower-casing).
pub const LOGIN_KEYWORDS: [&'static str; 10] = [
    "登录后",
    "请先登录",
    "请登录",
    "登录查看",
    "sign in",
    "log in first",
    "login required",
    "please log in",
    "you must log in",
    "登录后查看",
];

/// Captcha keywords.
pub const CAPTCHA_KEYWORDS: [&'static str; 9] = [
    "captcha",
    "recaptcha",
    "hcaptcha",
    "geetest",
    "极验",
    "滑动验证",
    "图形验证",
    "拖动滑块",
    "人机验证",
];

/// Bodies shorter than this many bytes are candidates for an empty response.
pub const EMPTY_BODY_THRESHOLD: usize = 200;

pub open spec fn login_keywords() -> Seq<Seq<char>> {
    seq![
        "登录后"@, "请先登录"@, "请登录"@, "登录查看"@, "sign in"@, "log in first"@,
        "login required"@, "please log in"@, "you must log in"@, "登录后查看"@,
    ]
}

pub open spec fn captcha_keywords() -> Seq<Seq<char>> {
    seq![
        "captcha"@, "recaptcha"@, "hcaptcha"@, "geetest"@, "极验"@, "滑动验证"@, "图形验证"@,
        "拖动滑块"@, "人机验证"@,
    ]
}

/// Some keyword, ASCII lower-cased, occurs in `lower`.
pub open spec fn has_keyword(lower: Seq<char>, kws: Seq<Seq<char>>) -> bool {
    exists|i: int| 0 <= i < kws.len() && contains(lower, ascii_lower(kws[i]))
}

/// A header view: name and value.
pub open spec fn header_views(h: Seq<(String, String)>) -> Seq<(Seq<char>, Seq<char>)> {
    Seq::new(h.len(), |i: int| (h[i].0@, h[i].1@))
}

/// Some header is `server` (any ASCII case) with a value containing
/// `cloudflare` (any ASCII case).
pub open spec fn is_cloudflare_spec(h: Seq<(Seq<char>, Seq<char>)>) -> bool {
    exists|i: int| 0 <= i < h.len() && ascii_lower(h[i].0) == "server"@ && contains(ascii_lower(h[i].1), "cloudflare"@)
}

/// The lower-cased body shows a Cloudflare challenge.
pub open spec fn cf_challenge_text(lower: Seq<char>) -> bool {
    contains(lower, "just a moment"@) || contains(lower, "checking your browser"@) || contains(lower, "cf-chl-bypass"@)
}

/// The body (any ASCII case) shows a Cloudflare challenge or block page.
pub open spec fn has_cloudflare_body_spec(body: Seq<char>) -> bool {
    cf_challenge_text(ascii_lower(body)) || contains(ascii_lower(body), "attention required"@)
}

/// The verdict of [`detect_block`].
pub open spec fn detect_block_spec(status: u16, body: Seq<char>, h: Seq<(Seq<char>, Seq<char>)>) -> Option<BlockType> {
    if status == 403 || status == 429 || status == 503 {
        if is_cloudflare_spec(h) && has_cloudflare_body_spec(body) {
            Some(BlockType::Cloudflare)
        } else {
            Some(BlockType::HttpBlocked(status))
        }
    } else if is_cloudflare_spec(h) && cf_challenge_text(ascii_lower(body)) {
        Some(BlockType::Cloudflare)
    } else if has_keyword(ascii_lower(body), login_keywords()) {
        Some(BlockType::LoginWall)
    } else if has_keyword(ascii_lower(body), captcha_keywords()) {
        Some(BlockType::Captcha)
    } else if byte_len(body) < 200 && byte_len(trim(body)) < 50 {
        Some(BlockType::EmptyResponse)
    } else {
        None
    }
}

fn eq_lit(v: &[char], lit: &str) -> (r: bool)
    ensures
        r == (v@ == lit@),
{
    let l = chars_of(lit);
    seq_eq(v, l.as_slice())
}

fn contains_lit(v: &[char], lit: &str) -> (r: bool)
    ensures
        r == contains(v@, lit@),
{
    let l = chars_of(lit);
    contains_exec(v, l.as_slice())
}

/// Some `server` header names Cloudflare.
pub fn is_cloudflare(headers: &[(String, String)]) -> (r: bool)
    ensures
        r == is_cloudflare_spec(header_views(headers@)),
{
    let mut i: usize = 0;
    while i < headers.len()
        invariant
            i <= headers.len(),
            forall|j: int| 0 <= j < i ==> !(ascii_lower(header_views(headers@)[j].0) == "server"@
                && contains(ascii_lower(header_views(headers@)[j].1), "cloudflare"@)),
        decreases headers.len() - i,
    {
        let k = chars_of(headers[i].0.as_str());
        let kl = to_ascii_lower(k.as_slice());
        if eq_lit(kl.as_slice(), "server") {
            let v = chars_of(headers[i].1.as_str());
            let vl = to_ascii_lower(v.as_slice());
            if contains_lit(vl.as_slice(), "cloudflare") {
                assert(ascii_lower(header_views(headers@)[i as int].0) == "server"@);
                return true;
            }
        }
        i = i + 1;
    }
    false
}

/// The body shows a Cloudflare challenge or block page.
pub fn has_cloudflare_body(body: &str) -> (r: bool)
    ensures
        r == has_cloudflare_body_spec(body@),
{
    let v = chars_of(body);
    let lower = to_ascii_lower(v.as_slice());
    cf_text(lower.as_slice()) || contains_lit(lower.as_slice(), "attention required")
}

fn cf_text(lower: &[char]) -> (r: bool)
    ensures
        r == cf_challenge_text(lower@),
{
    contains_lit(lower, "just a moment") || contains_lit(lower, "checking your browser")
        || contains_lit(lower, "cf-chl-bypass")
}

/// Whether some keyword of `kws` (lower-cased) occurs in `lower`.
fn any_keyword(lower: &[char], kws: &[&str]) -> (r: bool)
    ensures
        r == has_keyword(lower@, Seq::new(kws@.len(), |i: int| kws@[i]@)),
{
    let ghost ks = Seq::new(kws@.len(), |i: int| kws@[i]@);
    let mut i: usize = 0;
    while i < kws.len()
        invariant
            i <= kws.len(),
            ks == Seq::new(kws@.len(), |i: int| kws@[i]@),
            forall|j: int| 0 <= j < i ==> !contains(lower@, ascii_lower(ks[j])),
        decreases kws.len() - i,
    {
        let kw = chars_of(kws[i]);
        let kl = to_ascii_lower(kw.as_slice());
        if contains_exec(lower, kl.as_slice()) {
            assert(contains(lower@, ascii_lower(ks[i as int])));
            return true;
        }
        i = i + 1;
    }
    false
}

/// Classifies a response; `None` when it does not look blocked.
/// Header names are compared without regard to ASCII case.
pub fn detect_block(status: u16, body: &str, headers: &[(String, String)]) -> (r: Option<BlockType>)
    ensures
        r == detect_block_spec(status, body@, header_views(headers@)),
{
    if status == 403 || status == 429 || status == 503 {
        if is_cloudflare(headers) && has_cloudflare_body(body) {
            return Some(BlockType::Cloudflare);
        }
        return Some(BlockType::HttpBlocked(status));
    }
    let v = chars_of(body);
    let lower = to_ascii_lower(v.as_slice());
    let body_len = str_byte_len(body);
    if is_cloudflare(headers) && cf_text(lower.as_slice()) {
        return Some(BlockType::Cloudflare);
    }
    let login: [&'static str; 10] = LOGIN_KEYWORDS;
    assert(Seq::new(login@.len(), |i: int| login@[i]@) =~= login_keywords());
    if any_keyword(lower.as_slice(), &login) {
        return Some(BlockType::LoginWall);
    }
    let captcha: [&'static str; 9] = CAPTCHA_KEYWORDS;
    assert(Seq::new(captcha@.len(), |i: int| captcha@[i]@) =~= captcha_keywords());
    if any_keyword(lower.as_slice(), &captcha) {
        return Some(BlockType::Captcha);
    }
    if body_len < EMPTY_BODY_THRESHOLD {
        let (a, b) = trim_bounds(v.as_slice());
        let t = slice_range(v.as_slice(), a, b);
        let ts = string_from_chars(t.as_slice());
        if str_byte_len(ts.as_str()) < 50 {
            return Some(BlockType::EmptyResponse);
        }
    }
    None
}

} // verus!

verus! {

/// The ASCII-lower-cased form of a lower-case text is itself.
proof fn lemma_lower_fixed(s: Seq<char>)
    requires
        forall|i: int| 0 <= i < s.len() ==> !is_ascii_upper(#[trigger] s[i]),
    ensures
        ascii_lower(s) == s,
{
    assert(ascii_lower(s) =~= s);
}

/// Login walls are found whatever the ASCII case of the page: outside a
/// 403/429/503 answer and a Cloudflare challenge, a body whose lower-cased
/// form holds one of the login phrases is a login wall.
pub proof fn lemma_login_wall_any_case(status: u16, body: Seq<char>, h: Seq<(Seq<char>, Seq<char>)>, phrase: Seq<char>)
    requires
        status != 403 && status != 429 && status != 503,
        !(is_cloudflare_spec(h) && cf_challenge_text(ascii_lower(body))),
        phrase == "sign in"@ || phrase == "log in first"@ || phrase == "login required"@ || phrase
            == "please log in"@ || phrase == "you must log in"@ || phrase == "登录后"@ || phrase
            == "请先登录"@ || phrase == "请登录"@ || phrase == "登录查看"@ || phrase == "登录后查看"@,
        contains(ascii_lower(body), phrase),
    ensures
        detect_block_spec(status, body, h) == Some(BlockType::LoginWall),
{
    reveal_strlit("sign in");
    reveal_strlit("log in first");
    reveal_strlit("login required");
    reveal_strlit("please log in");
    reveal_strlit("you must log in");
    reveal_strlit("登录后");
    reveal_strlit("请先登录");
    reveal_strlit("请登录");
    reveal_strlit("登录查看");
    reveal_strlit("登录后查看");
    let kws = login_keywords();
    let k: int = if phrase == "登录后"@ {
        0
    } else if phrase == "请先登录"@ {
        1
    } else if phrase == "请登录"@ {
        2
    } else if phrase == "登录查看"@ {
        3
    } else if phrase == "sign in"@ {
        4
    } else if phrase == "log in first"@ {
        5
    } else if phrase == "login required"@ {
        6
    } else if phrase == "please log in"@ {
        7
    } else if phrase == "you must log in"@ {
        8
    } else {
        9
    };
    assert(kws[k] == phrase);
    assert forall|i: int| 0 <= i < phrase.len() implies !is_ascii_upper(#[trigger] phrase[i]) by {}
    lemma_lower_fixed(phrase);
    assert(contains(ascii_lower(body), ascii_lower(kws[k])));
    assert(has_keyword(ascii_lower(body), login_keywords()));
}


/// Lower-casing an ASCII capital gives an ASCII small letter, one byte long
/// like the capital; no other character changes.
proof fn lemma_lower_char_facts(c: char)
    ensures
        !is_ascii_upper(lower_char(c)),
        lower_char(lower_char(c)) == lower_char(c),
        is_ws(lower_char(c)) == is_ws(c),
        encode_utf8(seq![lower_char(c)]).len() == encode_utf8(seq![c]).len(),
{
    reveal_with_fuel(encode_utf8, 2);
    assert(seq![c].drop_first() =~= Seq::<char>::empty());
    assert(seq![lower_char(c)].drop_first() =~= Seq::<char>::empty());
    if is_ascii_upper(c) {
        let u = c as u32;
        assert(65 <= u <= 90);
        assert((u + 32) as char as u32 == u + 32);
    }
}

/// ASCII lower-casing twice is lower-casing once.
proof fn lemma_lower_idempotent(s: Seq<char>)
    ensures
        ascii_lower(ascii_lower(s)) == ascii_lower(s),
{
    assert forall|i: int| 0 <= i < s.len() implies #[trigger] ascii_lower(ascii_lower(s))[i] == ascii_lower(s)[i] by {
        lemma_lower_char_facts(s[i]);
    }
    assert(ascii_lower(ascii_lower(s)) =~= ascii_lower(s));
}

/// ASCII lower-casing keeps the UTF-8 byte length.
proof fn lemma_lower_bytes(s: Seq<char>)
    ensures
        byte_len(ascii_lower(s)) == byte_len(s),
        encode_utf8(ascii_lower(s)).len() == encode_utf8(s).len(),
    decreases s.len(),
{
    if s.len() > 0 {
        lemma_lower_bytes(s.drop_first());
        assert(ascii_lower(s).drop_first() =~= ascii_lower(s.drop_first()));
        lemma_lower_char_facts(s[0]);
        reveal_with_fuel(encode_utf8, 2);
        assert(seq![s[0]].drop_first() =~= Seq::<char>::empty());
        assert(seq![lower_char(s[0])].drop_first() =~= Seq::<char>::empty());
        assert(encode_utf8(seq![s[0]]) == vstd::utf8::encode_scalar(s[0] as u32));
    }
}

/// Trimming at the start commutes with ASCII lower-casing.
proof fn lemma_lower_trim_start(s: Seq<char>)
    ensures
        trim_start(ascii_lower(s)) == ascii_lower(trim_start(s)),
    decreases s.len(),
{
    if s.len() > 0 {
        lemma_lower_char_facts(s[0]);
        lemma_lower_trim_start(s.drop_first());
        assert(ascii_lower(s).drop_first() =~= ascii_lower(s.drop_first()));
    }
}

/// Trimming at the end commutes with ASCII lower-casing.
proof fn lemma_lower_trim_end(s: Seq<char>)
    ensures
        trim_end(ascii_lower(s)) == ascii_lower(trim_end(s)),
    decreases s.len(),
{
    if s.len() > 0 {
        lemma_lower_char_facts(s.last());
        lemma_lower_trim_end(s.drop_last());
        assert(ascii_lower(s).drop_last() =~= ascii_lower(s.drop_last()));
    }
}

/// The verdict does not depend on the ASCII case of the body: whatever the
/// status and the headers, a page and its ASCII-lower-cased copy get the
/// same verdict, since every phrase is matched without regard to case.
pub proof fn lemma_verdict_ignores_body_case(status: u16, body: Seq<char>, h: Seq<(Seq<char>, Seq<char>)>)
    ensures
        detect_block_spec(status, ascii_lower(body), h) == detect_block_spec(status, body, h),
{
    lemma_lower_idempotent(body);
    lemma_lower_bytes(body);
    lemma_lower_trim_start(body);
    lemma_lower_trim_end(trim_start(body));
    lemma_lower_bytes(trim(body));
}

} // verus!
