//! Source material views shared with the probe: `<meta>` tags, the
//! structured probe error, and the checks made on fetched pages (URL shape,
//! block signals, list-page self loops).
use vstd::prelude::*;
use vstd::utf8::encode_utf8;
use crate::text::{
    byte_len, str_byte_len, chars_of, contains, contains_exec, find_char, first_char, is_numeric, is_numeric_exec,
    lemma_prefix_bytes_strict, push_str, seq_eq, slice_range, split_char, split_exec,
    starts_with, starts_with_exec, str_get_prefix, string_from_chars, trim, trim_chars,
    trim_end_char, trim_end_char_exec, views,
};
use crate::extractor::{str_to_lowercase, unicode_lowercase};
use crate::engine::{resolve_url, resolve_url_spec, sub_input};
use crate::extractor::{
    apply_ops, apply_post_processors, extract_spec, hit_view, hits_view, material_input, opt_str,
    try_extract, ExtractInput, Hit, HitView, InputView,
};
use crate::field_schema::{FieldNodeSpec, FieldTreeNode, FieldType, PostProcessor, Rule, SourceLayer};
use crate::html_support::{
    meta_attr_views, meta_elements, meta_elements_result, opt_string_view, script_elements,
    script_elements_result, script_views, MetaAttrsView,
};

verus! {

// ---------------------------------------------------------------------------
// Meta tags
// ---------------------------------------------------------------------------

/// Which attribute identifies a `<meta>` tag.
#[derive(Debug, Clone, Copy, PartialEq, Eq, Structural)]
pub enum MetaKeyKind {
    Name,
    Property,
    HttpEquiv,
    Other,
}

impl MetaKeyKind {
    /// The attribute name of the kind.
    pub open spec fn label(self) -> Seq<char> {
        match self {
            MetaKeyKind::Name => "name"@,
            MetaKeyKind::Property => "property"@,
            MetaKeyKind::HttpEquiv => "http-equiv"@,
            MetaKeyKind::Other => "other"@,
        }
    }

    pub fn as_str(&self) -> (r: &'static str)
        ensures
            r@ == self.label(),
    {
        match self {
            MetaKeyKind::Name => "name",
            MetaKeyKind::Property => "property",
            MetaKeyKind::HttpEquiv => "http-equiv",
            MetaKeyKind::Other => "other",
        }
    }
}

/// One `<meta>` tag.
#[derive(Debug, Clone, PartialEq, Eq)]
pub struct MetaTag {
    pub key_kind: MetaKeyKind,
    /// Value of the name / property / http-equiv attribute.
    pub key: String,
    /// The `content` attribute.
    pub content: String,
}

/// One `<script>` block of a page.
#[derive(Debug, Clone, PartialEq, Eq)]
pub struct ScriptBlock {
    /// 0-based position among the page's scripts.
    pub index: usize,
    /// Absolute URL of an external script.
    pub src: Option<String>,
    /// Text of an inline script (none for an external or blank one).
    pub content: Option<String>,
}

// ---------------------------------------------------------------------------
// Probe errors
// ---------------------------------------------------------------------------

/// Stage of a probe that failed.
#[derive(Debug, Clone, Copy, PartialEq, Eq, Structural)]
pub enum ProbeStage {
    /// Fetching the URL.
    Fetch,
    /// Parsing HTML / JSON.
    Parse,
    /// Applying field rules.
    Match,
}

impl ProbeStage {
    /// The variant name, as `Debug` prints it.
    pub open spec fn name(self) -> Seq<char> {
        match self {
            ProbeStage::Fetch => "Fetch"@,
            ProbeStage::Parse => "Parse"@,
            ProbeStage::Match => "Match"@,
        }
    }

    pub fn name_str(&self) -> (r: &'static str)
        ensures
            r@ == self.name(),
    {
        match self {
            ProbeStage::Fetch => "Fetch",
            ProbeStage::Parse => "Parse",
            ProbeStage::Match => "Match",
        }
    }
}

/// Category of a probe failure.
#[derive(Debug, Clone, Copy, PartialEq, Eq, Structural)]
pub enum ProbeCategory {
    /// DNS / connection / timeout / TLS failure.
    UrlUnreachable,
    /// HTTP 4xx / 5xx.
    Http4xx5xx,
    /// Anti-bot block (login wall, captcha, 403 / 429 / 503).
    Blocked,
    /// Invalid field rule.
    InvalidRule,
    /// The field matched nothing.
    ZeroHits,
    /// The parent field matched nothing, so children cannot run.
    ParentEmpty,
}

impl ProbeCategory {
    /// The variant name, as `Debug` prints it.
    pub open spec fn name(self) -> Seq<char> {
        match self {
            ProbeCategory::UrlUnreachable => "UrlUnreachable"@,
            ProbeCategory::Http4xx5xx => "Http4xx5xx"@,
            ProbeCategory::Blocked => "Blocked"@,
            ProbeCategory::InvalidRule => "InvalidRule"@,
            ProbeCategory::ZeroHits => "ZeroHits"@,
            ProbeCategory::ParentEmpty => "ParentEmpty"@,
        }
    }

    pub fn name_str(&self) -> (r: &'static str)
        ensures
            r@ == self.name(),
    {
        match self {
            ProbeCategory::UrlUnreachable => "UrlUnreachable",
            ProbeCategory::Http4xx5xx => "Http4xx5xx",
            ProbeCategory::Blocked => "Blocked",
            ProbeCategory::InvalidRule => "InvalidRule",
            ProbeCategory::ZeroHits => "ZeroHits",
            ProbeCategory::ParentEmpty => "ParentEmpty",
        }
    }
}

/// Structured error of fetching and probing.
#[derive(Debug, Clone, PartialEq, Eq)]
pub struct ProbeError {
    pub stage: ProbeStage,
    pub category: ProbeCategory,
    /// Short message for the user.
    pub message: String,
    /// Suggested fix.
    pub hint: Option<String>,
}

impl ProbeError {
    pub fn new(stage: ProbeStage, category: ProbeCategory, message: &str) -> (r: Self)
        ensures
            r.stage == stage,
            r.category == category,
            r.message@ == message@,
            r.hint is None,
    {
        ProbeError { stage, category, message: String::from_str(message), hint: None }
    }

    /// The same error with `hint` set.
    pub fn with_hint(self, hint: &str) -> (r: Self)
        ensures
            r.stage == self.stage,
            r.category == self.category,
            r.message@ == self.message@,
            r.hint matches Some(h) && h@ == hint@,
    {
        ProbeError { hint: Some(String::from_str(hint)), ..self }
    }

    /// Display form: `[Stage/Category] message`.
    pub fn to_display(&self) -> (r: String)
        ensures
            r@ == seq!['['] + self.stage.name() + seq!['/'] + self.category.name() + seq![']', ' ']
                + self.message@,
    {
        let mut m: Vec<char> = Vec::new();
        m.push('[');
        push_str(&mut m, self.stage.name_str());
        m.push('/');
        push_str(&mut m, self.category.name_str());
        m.push(']');
        m.push(' ');
        push_str(&mut m, self.message.as_str());
        string_from_chars(m.as_slice())
    }
}

// ---------------------------------------------------------------------------
// Page checks
// ---------------------------------------------------------------------------

/// Non-blank after trimming and starting with `http://` or `https://`.
pub open spec fn looks_like_url_spec(s: Seq<char>) -> bool {
    let t = trim(s);
    t.len() > 0 && (starts_with(t, "http://"@) || starts_with(t, "https://"@))
}

/// Whether `s` looks like an absolute http(s) URL.
pub fn looks_like_url(s: &str) -> (r: bool)
    ensures
        r == looks_like_url_spec(s@),
{
    let t = trim_chars(chars_of(s).as_slice());
    if t.len() == 0 {
        return false;
    }
    let h = chars_of("http://");
    let hs = chars_of("https://");
    starts_with_exec(t.as_slice(), h.as_slice()) || starts_with_exec(t.as_slice(), hs.as_slice())
}

/// How many leading bytes of a body are searched for block keywords.
pub const BLOCK_SCAN_BYTES: usize = 8192;

/// Keywords of challenge and login pages.
pub const BLOCK_KEYWORDS: [&'static str; 8] = [
    "Just a moment",
    "Checking your browser",
    "cf-browser-verification",
    "Attention Required",
    "请输入验证码",
    "请登录后",
    "请先登录",
    "系统检测到您的访问行为",
];

/// The keyword list as views.
pub open spec fn block_keywords() -> Seq<Seq<char>> {
    seq![
        "Just a moment"@,
        "Checking your browser"@,
        "cf-browser-verification"@,
        "Attention Required"@,
        "请输入验证码"@,
        "请登录后"@,
        "请先登录"@,
        "系统检测到您的访问行为"@,
    ]
}

/// The first 8192 bytes of the body can be cut off at a character boundary
/// (slicing there would panic otherwise).
pub open spec fn scan_cut_ok(body: Seq<char>) -> bool {
    byte_len(body) <= 8192 || exists|k: int|
        0 <= k <= body.len() && encode_utf8(#[trigger] body.take(k)).len() == 8192
}

/// The searched head of a body: the whole body when `str::len` is at most
/// 8192, else its first 8192 bytes.
pub open spec fn scan_head(body: Seq<char>) -> Seq<char> {
    if byte_len(body) <= 8192 {
        body
    } else {
        body.take(choose|k: int| 0 <= k <= body.len() && encode_utf8(#[trigger] body.take(k)).len() == 8192)
    }
}

/// A keyword occurs in `head`, exactly or after lower-casing both.
pub open spec fn has_keyword(head: Seq<char>) -> bool {
    exists|i: int|
        0 <= i < block_keywords().len() && (contains(head, #[trigger] block_keywords()[i])
            || contains(unicode_lowercase(head), unicode_lowercase(block_keywords()[i])))
}

/// Whether the head of the body holds a challenge or login keyword.
pub fn body_has_block_keywords(body: &str) -> (r: bool)
    requires
        scan_cut_ok(body@),
    ensures
        r == has_keyword(scan_head(body@)),
{
    let head: &str = if str_byte_len(body) > BLOCK_SCAN_BYTES {
        match str_get_prefix(body, BLOCK_SCAN_BYTES) {
            Some(h) => {
                proof {
                    let k = choose|k: int| 0 <= k <= body@.len() && encode_utf8(#[trigger] body@.take(k)).len() == 8192;
                    let j = h@.len() as int;
                    assert(h@ == body@.take(j));
                    if k < j {
                        lemma_prefix_bytes_strict(body@, k, j);
                    } else if j < k {
                        lemma_prefix_bytes_strict(body@, j, k);
                    }
                    assert(h@ == scan_head(body@));
                }
                h
            },
            None => {
                proof {
                    let k = choose|k: int| 0 <= k <= body@.len() && encode_utf8(#[trigger] body@.take(k)).len() == 8192;
                    assert(encode_utf8(body@.take(k)).len() != 8192);
                }
                body
            },
        }
    } else {
        body
    };
    let hv = chars_of(head);
    let lower = str_to_lowercase(head);
    let lv = chars_of(lower.as_str());
    let mut i: usize = 0;
    while i < BLOCK_KEYWORDS.len()
        invariant
            i <= 8,
            hv@ == scan_head(body@),
            lv@ == unicode_lowercase(hv@),
            forall|j: int| 0 <= j < i ==> !(contains(hv@, #[trigger] block_keywords()[j])
                || contains(lv@, unicode_lowercase(block_keywords()[j]))),
        decreases 8 - i,
    {
        let kw = BLOCK_KEYWORDS[i];
        proof {
            reveal_strlit("Just a moment");
            reveal_strlit("Checking your browser");
            reveal_strlit("cf-browser-verification");
            reveal_strlit("Attention Required");
            reveal_strlit("请输入验证码");
            reveal_strlit("请登录后");
            reveal_strlit("请先登录");
            reveal_strlit("系统检测到您的访问行为");
        }
        assert(kw@ == block_keywords()[i as int]);
        let kv = chars_of(kw);
        let kl = str_to_lowercase(kw);
        let klv = chars_of(kl.as_str());
        if contains_exec(hv.as_slice(), kv.as_slice()) || contains_exec(lv.as_slice(), klv.as_slice()) {
            return true;
        }
        i = i + 1;
    }
    false
}

/// Whether a 4xx/5xx answer is an anti-bot block: 403, 429 or 503, or a
/// challenge / login keyword near the top of the body.
pub fn is_blocked_status(status: u16, body: &str) -> (r: bool)
    requires
        scan_cut_ok(body@),
    ensures
        r == (status == 403 || status == 429 || status == 503 || has_keyword(scan_head(body@))),
{
    status == 403 || status == 429 || status == 503 || body_has_block_keywords(body)
}

/// Whether a body can be searched for block signs, that is, whether its
/// first 8192 bytes end at a character boundary (see [`scan_cut_ok`]).
pub fn scan_cut_checked(body: &str) -> (r: bool)
    ensures
        r == scan_cut_ok(body@),
{
    if str_byte_len(body) <= BLOCK_SCAN_BYTES {
        return true;
    }
    match str_get_prefix(body, BLOCK_SCAN_BYTES) {
        Some(h) => {
            assert(encode_utf8(body@.take(h@.len() as int)).len() == 8192);
            true
        },
        None => false,
    }
}

/// [`body_has_block_keywords`], or `None` where its search would cut a
/// character.
pub fn body_has_block_keywords_checked(body: &str) -> (r: Option<bool>)
    ensures
        scan_cut_ok(body@) ==> r == Some(has_keyword(scan_head(body@))),
        !scan_cut_ok(body@) ==> r is None,
{
    if scan_cut_checked(body) {
        Some(body_has_block_keywords(body))
    } else {
        None
    }
}

/// [`is_blocked_status`], or `None` where its body search would cut a
/// character.
pub fn is_blocked_status_checked(status: u16, body: &str) -> (r: Option<bool>)
    ensures
        scan_cut_ok(body@) ==> r == Some(status == 403 || status == 429 || status == 503 || has_keyword(
            scan_head(body@),
        )),
        !scan_cut_ok(body@) ==> r is None,
{
    if scan_cut_checked(body) {
        Some(is_blocked_status(status, body))
    } else {
        None
    }
}

/// The URL before its first `#`.
pub open spec fn strip_fragment_spec(u: Seq<char>) -> Seq<char> {
    match first_char(u, '#') {
        Some(i) => u.take(i),
        None => u,
    }
}

/// `url` without its `#fragment`.
pub fn strip_fragment(url: &str) -> (r: String)
    ensures
        r@ == strip_fragment_spec(url@),
{
    let v = chars_of(url);
    match find_char(v.as_slice(), '#') {
        Some(i) => {
            let p = slice_range(v.as_slice(), 0, i);
            assert(p@ =~= v@.take(i as int));
            string_from_chars(p.as_slice())
        },
        None => String::from_str(url),
    }
}

/// Path and query of a URL split at its first `?` (the query is empty
/// without one).
pub open spec fn path_and_query(u: Seq<char>) -> (Seq<char>, Seq<char>) {
    match first_char(u, '?') {
        Some(i) => (u.take(i), u.skip(i + 1)),
        None => (u, Seq::<char>::empty()),
    }
}

fn split_path_query(v: &[char]) -> (r: (Vec<char>, Vec<char>))
    ensures
        (r.0@, r.1@) == path_and_query(v@),
{
    match find_char(v, '?') {
        Some(i) => {
            let p = slice_range(v, 0, i);
            let q = slice_range(v, i + 1, v.len());
            assert(p@ =~= v@.take(i as int));
            assert(q@ =~= v@.skip(i + 1));
            (p, q)
        },
        None => {
            let p = slice_range(v, 0, v.len());
            assert(p@ =~= v@);
            (p, Vec::new())
        },
    }
}

/// `detail_path` is the list path (trailing slashes dropped) followed by
/// `/N` or `/page/N` (N all digits), with trailing slashes allowed.
pub open spec fn is_page_suffix(d_path: Seq<char>, b_trim: Seq<char>) -> bool {
    &&& d_path.len() > b_trim.len()
    &&& starts_with(d_path, b_trim)
    &&& {
        let rest = trim_end_char(d_path.skip(b_trim.len() as int), '/');
        &&& rest.len() > 0
        &&& rest[0] == '/'
        &&& {
            let seg = rest.drop_first();
            is_numeric(seg) || (starts_with(seg, "page/"@) && is_numeric(seg.skip(5)))
        }
    }
}

/// The key of a `key=value` query item.
pub open spec fn query_key(kv: Seq<char>) -> Seq<char> {
    match first_char(kv, '=') {
        Some(i) => kv.take(i),
        None => kv,
    }
}

pub open spec fn is_page_key(k: Seq<char>) -> bool {
    k == "page"@ || k == "p"@ || k == "paged"@ || k == "pg"@
}

/// Some `&`-separated item of the query has a paging key.
pub open spec fn has_page_param(q: Seq<char>) -> bool {
    exists|j: int| 0 <= j < split_char(q, '&').len() && is_page_key(query_key(#[trigger] split_char(q, '&')[j]))
}

/// `detail` (fragment dropped) is the list URL itself, or one of its pages:
/// `/N` or `/page/N` after the list path, or the same path with a `page`,
/// `p`, `paged` or `pg` query parameter.
pub open spec fn is_list_loop(detail: Seq<char>, base: Seq<char>) -> bool {
    let d = strip_fragment_spec(detail);
    let b = strip_fragment_spec(base);
    let (d_path, d_q) = path_and_query(d);
    let (b_path, b_q) = path_and_query(b);
    ||| d == b
    ||| is_page_suffix(d_path, trim_end_char(b_path, '/'))
    ||| (d_path == b_path && d_q.len() > 0 && has_page_param(d_q))
}

fn page_suffix_exec(d_path: &[char], b_trim: &[char]) -> (r: bool)
    ensures
        r == is_page_suffix(d_path@, b_trim@),
{
    proof {
        reveal_strlit("page/");
    }
    if !(d_path.len() > b_trim.len() && starts_with_exec(d_path, b_trim)) {
        return false;
    }
    let tail = slice_range(d_path, b_trim.len(), d_path.len());
    assert(tail@ =~= d_path@.skip(b_trim.len() as int));
    let rest = trim_end_char_exec(tail.as_slice(), '/');
    if rest.len() == 0 || rest[0] != '/' {
        return false;
    }
    let seg = slice_range(rest.as_slice(), 1, rest.len());
    assert(seg@ =~= rest@.drop_first());
    if is_numeric_exec(seg.as_slice()) {
        return true;
    }
    let pg = chars_of("page/");
    if starts_with_exec(seg.as_slice(), pg.as_slice()) {
        let n = slice_range(seg.as_slice(), 5, seg.len());
        assert(n@ =~= seg@.skip(5));
        return is_numeric_exec(n.as_slice());
    }
    false
}

fn query_has_page(q: &[char]) -> (r: bool)
    ensures
        r == has_page_param(q@),
{
    proof {
        reveal_strlit("page");
        reveal_strlit("p");
        reveal_strlit("paged");
        reveal_strlit("pg");
    }
    let items = split_exec(q, '&');
    let ghost its = split_char(q@, '&');
    let mut j: usize = 0;
    while j < items.len()
        invariant
            j <= items.len(),
            views(items@) == its,
            its == split_char(q@, '&'),
            forall|k: int| 0 <= k < j ==> !is_page_key(query_key(#[trigger] its[k])),
        decreases items.len() - j,
    {
        let kv = &items[j];
        assert(its[j as int] == kv@);
        let key = match find_char(kv.as_slice(), '=') {
            Some(e) => slice_range(kv.as_slice(), 0, e),
            None => slice_range(kv.as_slice(), 0, kv.len()),
        };
        assert(key@ =~= query_key(kv@));
        let a = chars_of("page");
        let b = chars_of("p");
        let c = chars_of("paged");
        let d = chars_of("pg");
        if seq_eq(key.as_slice(), a.as_slice()) || seq_eq(key.as_slice(), b.as_slice())
            || seq_eq(key.as_slice(), c.as_slice()) || seq_eq(key.as_slice(), d.as_slice()) {
            return true;
        }
        j = j + 1;
    }
    false
}

/// Whether `detail` is the list page `base` again or one of its pages, so
/// a URL field picked navigation instead of an article link.
pub fn is_list_self_or_pagination_loop(detail: &str, base: &str) -> (r: bool)
    ensures
        r == is_list_loop(detail@, base@),
{
    let d = strip_fragment(detail);
    let b = strip_fragment(base);
    let dv = chars_of(d.as_str());
    let bv = chars_of(b.as_str());
    if seq_eq(dv.as_slice(), bv.as_slice()) {
        return true;
    }
    let (d_path, d_q) = split_path_query(dv.as_slice());
    let (b_path, _b_q) = split_path_query(bv.as_slice());
    let b_trim = trim_end_char_exec(b_path.as_slice(), '/');
    if page_suffix_exec(d_path.as_slice(), b_trim.as_slice()) {
        return true;
    }
    if seq_eq(d_path.as_slice(), b_path.as_slice()) && d_q.len() > 0 {
        if query_has_page(d_q.as_slice()) {
            return true;
        }
    }
    false
}

} // verus!

verus! {

// ---------------------------------------------------------------------------
// Parsing a fetched page
// ---------------------------------------------------------------------------

/// A script block as its index, resolved `src` and inline text.
pub type ScriptView = (nat, Option<Seq<char>>, Option<Seq<char>>);

pub open spec fn script_block_view(b: ScriptBlock) -> ScriptView {
    (b.index as nat, opt_string_view(b.src), opt_string_view(b.content))
}

pub open spec fn script_blocks_view(v: Seq<ScriptBlock>) -> Seq<ScriptView> {
    Seq::new(v.len(), |i: int| script_block_view(v[i]))
}

/// The script blocks of a page, from its `<script>` elements in document
/// order: `src` resolved against `base_url`, text kept unless blank.
pub open spec fn parse_scripts_spec(html: Seq<char>, base_url: Seq<char>) -> Seq<ScriptView> {
    let els = script_elements_result(html);
    Seq::new(
        els.len(),
        |i: int|
            (
                i as nat,
                match els[i].0 {
                    Some(s) => Some(resolve_url_spec(s, base_url)),
                    None => None,
                },
                if trim(els[i].1).len() == 0 {
                    None
                } else {
                    Some(els[i].1)
                },
            ),
    )
}

/// The `<script>` blocks of a page.
pub fn parse_scripts(html: &str, base_url: &str) -> (r: Vec<ScriptBlock>)
    ensures
        script_blocks_view(r@) == parse_scripts_spec(html@, base_url@),
{
    let els = script_elements(html);
    let ghost target = parse_scripts_spec(html@, base_url@);
    let mut out: Vec<ScriptBlock> = Vec::new();
    let mut i: usize = 0;
    while i < els.len()
        invariant
            i <= els.len(),
            script_views(els@) == script_elements_result(html@),
            target == parse_scripts_spec(html@, base_url@),
            script_blocks_view(out@) == target.take(i as int),
        decreases els.len() - i,
    {
        let e = &els[i];
        assert(script_views(els@)[i as int] == (opt_string_view(e.0), e.1@));
        let src = match &e.0 {
            Some(s) => Some(resolve_url(s.as_str(), base_url)),
            None => None,
        };
        let tv = chars_of(e.1.as_str());
        let blank = trim_chars(tv.as_slice()).len() == 0;
        let content = if blank { None } else { Some(e.1.clone()) };
        let block = ScriptBlock { index: i, src, content };
        assert(script_block_view(block) == target[i as int]);
        let ghost prev = script_blocks_view(out@);
        out.push(block);
        assert(script_blocks_view(out@) =~= prev.push(target[i as int]));
        assert(target.take(i + 1) =~= target.take(i as int).push(target[i as int]));
        i = i + 1;
    }
    assert(target.take(els.len() as int) =~= target);
    out
}

/// A meta tag as its kind, key and content.
pub type MetaView = (MetaKeyKind, Seq<char>, Seq<char>);

pub open spec fn meta_tag_view(t: MetaTag) -> MetaView {
    (t.key_kind, t.key@, t.content@)
}

pub open spec fn meta_tags_view(v: Seq<MetaTag>) -> Seq<MetaView> {
    Seq::new(v.len(), |i: int| meta_tag_view(v[i]))
}

/// The tag a `<meta>` element gives: `charset` first (key `charset`);
/// else, when it has a `content`, the first of `name`, `property` and
/// `http-equiv` it carries; else none.
pub open spec fn meta_from_attrs(a: MetaAttrsView) -> Option<MetaView> {
    match a.0 {
        Some(cs) => Some((MetaKeyKind::Other, "charset"@, cs)),
        None => match a.4 {
            None => None,
            Some(c) => match a.1 {
                Some(k) => Some((MetaKeyKind::Name, k, c)),
                None => match a.2 {
                    Some(k) => Some((MetaKeyKind::Property, k, c)),
                    None => match a.3 {
                        Some(k) => Some((MetaKeyKind::HttpEquiv, k, c)),
                        None => None,
                    },
                },
            },
        },
    }
}

/// The tags of a sequence of `<meta>` elements, in order.
pub open spec fn metas_from(attrs: Seq<MetaAttrsView>) -> Seq<MetaView>
    decreases attrs.len(),
{
    if attrs.len() == 0 {
        Seq::empty()
    } else {
        let prev = metas_from(attrs.drop_last());
        match meta_from_attrs(attrs.last()) {
            Some(t) => prev.push(t),
            None => prev,
        }
    }
}

/// The `<meta>` tags of a page.
pub fn parse_metas(html: &str) -> (r: Vec<MetaTag>)
    ensures
        meta_tags_view(r@) == metas_from(meta_elements_result(html@)),
{
    let els = meta_elements(html);
    let ghost attrs = meta_elements_result(html@);
    let mut out: Vec<MetaTag> = Vec::new();
    let mut i: usize = 0;
    assert(meta_tags_view(out@) =~= Seq::<MetaView>::empty());
    assert(attrs.take(0) =~= Seq::<MetaAttrsView>::empty());
    while i < els.len()
        invariant
            i <= els.len(),
            meta_attr_views(els@) == attrs,
            attrs == meta_elements_result(html@),
            meta_tags_view(out@) == metas_from(attrs.take(i as int)),
        decreases els.len() - i,
    {
        let e = &els[i];
        let ghost a = attrs[i as int];
        assert(a == (opt_string_view(e.0), opt_string_view(e.1), opt_string_view(e.2), opt_string_view(e.3), opt_string_view(e.4)));
        assert(attrs.take(i + 1).drop_last() =~= attrs.take(i as int));
        assert(attrs.take(i + 1).last() == a);
        let tag: Option<MetaTag> = match &e.0 {
            Some(cs) => Some(MetaTag { key_kind: MetaKeyKind::Other, key: String::from_str("charset"), content: cs.clone() }),
            None => match &e.4 {
                None => None,
                Some(c) => match &e.1 {
                    Some(k) => Some(MetaTag { key_kind: MetaKeyKind::Name, key: k.clone(), content: c.clone() }),
                    None => match &e.2 {
                        Some(k) => Some(MetaTag { key_kind: MetaKeyKind::Property, key: k.clone(), content: c.clone() }),
                        None => match &e.3 {
                            Some(k) => Some(MetaTag { key_kind: MetaKeyKind::HttpEquiv, key: k.clone(), content: c.clone() }),
                            None => None,
                        },
                    },
                },
            },
        };
        match tag {
            Some(t) => {
                assert(meta_from_attrs(a) == Some(meta_tag_view(t)));
                let ghost prev = meta_tags_view(out@);
                out.push(t);
                assert(meta_tags_view(out@) =~= prev.push(meta_tag_view(t)));
            },
            None => {
                assert(meta_from_attrs(a) is None);
            },
        }
        i = i + 1;
    }
    assert(attrs.take(els.len() as int) =~= attrs);
    out
}

} // verus!

verus! {

// ---------------------------------------------------------------------------
// Source material
// ---------------------------------------------------------------------------

#[verifier::external_type_specification]
#[verifier::external_body]
pub struct ExNaiveDateTime(chrono::NaiveDateTime);

/// The tabs of one fetched page.
#[derive(Debug)]
pub struct SourceMaterial {
    /// URL after redirects; the base for relative URLs.
    pub final_url: String,
    /// HTTP status of the final response.
    pub status: u16,
    /// Response headers, names lower-cased, repeated names merged.
    pub headers: Vec<(String, String)>,
    /// The HTML as received.
    pub html: String,
    pub scripts: Vec<ScriptBlock>,
    pub metas: Vec<MetaTag>,
    /// When the page was fetched (UTC).
    pub fetched_at: chrono::NaiveDateTime,
    pub duration_ms: u64,
}

/// Header pairs as views.
pub open spec fn pairs_view(v: Seq<(String, String)>) -> Seq<(Seq<char>, Seq<char>)> {
    Seq::new(v.len(), |i: int| (v[i].0@, v[i].1@))
}

/// The position of name `key` among merged headers.
pub open spec fn key_index(s: Seq<(Seq<char>, Seq<char>)>, key: Seq<char>) -> Option<int> {
    if exists|j: int| 0 <= j < s.len() && s[j].0 == key {
        Some(choose|j: int| 0 <= j < s.len() && s[j].0 == key)
    } else {
        None
    }
}

/// Response headers keyed by lower-cased name, in order of first
/// appearance; the values of a repeated name are joined with `, `.
pub open spec fn merge_headers_spec(raw: Seq<(Seq<char>, Seq<char>)>) -> Seq<(Seq<char>, Seq<char>)>
    decreases raw.len(),
{
    if raw.len() == 0 {
        Seq::empty()
    } else {
        let prev = merge_headers_spec(raw.drop_last());
        let key = unicode_lowercase(raw.last().0);
        let val = raw.last().1;
        match key_index(prev, key) {
            Some(j) => prev.update(j, (key, prev[j].1 + ", "@ + val)),
            None => prev.push((key, val)),
        }
    }
}

/// No two merged headers share a name.
pub open spec fn distinct_keys(s: Seq<(Seq<char>, Seq<char>)>) -> bool {
    forall|i: int, j: int| 0 <= i < j < s.len() ==> s[i].0 != s[j].0
}

pub proof fn lemma_merge_headers_distinct(raw: Seq<(Seq<char>, Seq<char>)>)
    ensures
        distinct_keys(merge_headers_spec(raw)),
    decreases raw.len(),
{
    if raw.len() > 0 {
        lemma_merge_headers_distinct(raw.drop_last());
    }
}

/// Headers of a response, merged by lower-cased name.
pub fn merge_headers(raw: &[(String, String)]) -> (r: Vec<(String, String)>)
    ensures
        pairs_view(r@) == merge_headers_spec(pairs_view(raw@)),
        distinct_keys(pairs_view(r@)),
{
    let ghost rv = pairs_view(raw@);
    let mut out: Vec<(String, String)> = Vec::new();
    let mut i: usize = 0;
    assert(rv.take(0) =~= Seq::<(Seq<char>, Seq<char>)>::empty());
    assert(pairs_view(out@) =~= Seq::<(Seq<char>, Seq<char>)>::empty());
    while i < raw.len()
        invariant
            i <= raw.len(),
            rv == pairs_view(raw@),
            pairs_view(out@) == merge_headers_spec(rv.take(i as int)),
        decreases raw.len() - i,
    {
        proof {
            lemma_merge_headers_distinct(rv.take(i as int));
        }
        assert(rv.take(i + 1).drop_last() =~= rv.take(i as int));
        assert(rv.take(i + 1).last() == rv[i as int]);
        let key = str_to_lowercase(raw[i].0.as_str());
        let ghost prev = pairs_view(out@);
        let mut j: usize = 0;
        let mut found: Option<usize> = None;
        while j < out.len() && found.is_none()
            invariant
                j <= out.len(),
                prev == pairs_view(out@),
                found matches Some(q) ==> q < out.len() && prev[q as int].0 == key@,
                found is None ==> forall|q: int| 0 <= q < j ==> prev[q].0 != key@,
            decreases out.len() - j + (if found is None { 1int } else { 0int }),
        {
            if crate::text::str_eq(out[j].0.as_str(), key.as_str()) {
                found = Some(j);
            } else {
                j = j + 1;
            }
        }
        match found {
            Some(j) => {
                proof {
                    assert(prev[j as int].0 == key@);
                    let c = choose|q: int| 0 <= q < prev.len() && prev[q].0 == key@;
                    assert(distinct_keys(prev));
                    assert(c == j);
                    assert(key_index(prev, key@) == Some(j as int));
                }
                let mut m: Vec<char> = Vec::new();
                push_str(&mut m, out[j].1.as_str());
                push_str(&mut m, ", ");
                push_str(&mut m, raw[i].1.as_str());
                let merged = (key, string_from_chars(m.as_slice()));
                out.set(j, merged);
                assert(pairs_view(out@) =~= prev.update(j as int, (key@, prev[j as int].1 + ", "@ + rv[i as int].1)));
            },
            None => {
                assert(!(exists|q: int| 0 <= q < prev.len() && prev[q].0 == key@));
                assert(key_index(prev, key@) is None);
                let val = raw[i].1.clone();
                out.push((key, val));
                assert(pairs_view(out@) =~= prev.push((key@, rv[i as int].1)));
            },
        }
        i = i + 1;
    }
    assert(rv.take(raw.len() as int) =~= rv);
    proof {
        lemma_merge_headers_distinct(rv);
    }
    out
}

/// A probe URL must look like an absolute `http(s)` URL, else
/// `Fetch / UrlUnreachable` with a hint.
pub fn check_probe_url(url: &str) -> (r: Result<(), ProbeError>)
    ensures
        match r {
            Ok(()) => looks_like_url_spec(url@),
            Err(e) => !looks_like_url_spec(url@) && e.stage == ProbeStage::Fetch
                && e.category == ProbeCategory::UrlUnreachable && e.message@ == "URL 不合法："@ + url@
                && (e.hint matches Some(h) && h@ == "URL 应包含 scheme（如 https://example.com/list）"@),
        },
{
    if looks_like_url(url) {
        return Ok(());
    }
    let mut m: Vec<char> = Vec::new();
    push_str(&mut m, "URL 不合法：");
    push_str(&mut m, url);
    let msg = string_from_chars(m.as_slice());
    Err(ProbeError::new(ProbeStage::Fetch, ProbeCategory::UrlUnreachable, msg.as_str())
        .with_hint("URL 应包含 scheme（如 https://example.com/list）"))
}

/// `r` is what [`material_from_response`] gives for the response.
pub open spec fn response_material(
    url: Seq<char>,
    final_url: Seq<char>,
    status: u16,
    headers: Seq<(String, String)>,
    body: Seq<char>,
    fetched_at: chrono::NaiveDateTime,
    duration_ms: u64,
    r: Result<SourceMaterial, ProbeError>,
) -> bool {
    match r {
        Ok(m) => !(400 <= status < 600) && m.final_url@ == final_url && m.status == status
            && m.headers@ == headers && m.html@ == body
            && script_blocks_view(m.scripts@) == parse_scripts_spec(body, final_url)
            && meta_tags_view(m.metas@) == metas_from(meta_elements_result(body))
            && m.fetched_at == fetched_at && m.duration_ms == duration_ms,
        Err(e) => 400 <= status < 600 && e.stage == ProbeStage::Fetch
            && e.category == (if status == 403 || status == 429 || status == 503 || has_keyword(scan_head(body)) {
                ProbeCategory::Blocked
            } else {
                ProbeCategory::Http4xx5xx
            })
            && e.message@ == "HTTP "@ + crate::text::nat_decimal(status as nat) + "（"@ + url + "）"@
            && e.hint is None,
    }
}

/// The material of a fetched page, or the error of a 4xx/5xx answer
/// (`Blocked` when [`is_blocked_status`] says so, else `Http4xx5xx`, with
/// the message `HTTP {status}（{url}）`). Scripts and meta tags are parsed
/// from the body.
pub fn material_from_response(
    url: &str,
    final_url: String,
    status: u16,
    headers: Vec<(String, String)>,
    body: String,
    fetched_at: chrono::NaiveDateTime,
    duration_ms: u64,
) -> (r: Result<SourceMaterial, ProbeError>)
    requires
        400 <= status < 600 ==> scan_cut_ok(body@),
    ensures
        response_material(url@, final_url@, status, headers@, body@, fetched_at, duration_ms, r),
{
    if 400 <= status && status < 600 {
        let blocked = is_blocked_status(status, body.as_str());
        let category = if blocked { ProbeCategory::Blocked } else { ProbeCategory::Http4xx5xx };
        let mut m: Vec<char> = Vec::new();
        push_str(&mut m, "HTTP ");
        crate::text::push_decimal(&mut m, status as u64);
        push_str(&mut m, "（");
        push_str(&mut m, url);
        push_str(&mut m, "）");
        let msg = string_from_chars(m.as_slice());
        return Err(ProbeError::new(ProbeStage::Fetch, category, msg.as_str()));
    }
    let scripts = parse_scripts(body.as_str(), final_url.as_str());
    let metas = parse_metas(body.as_str());
    Ok(SourceMaterial { final_url, status, headers, html: body, scripts, metas, fetched_at, duration_ms })
}

/// [`material_from_response`], or `None` for a 4xx/5xx answer whose body
/// search would cut a character.
pub fn material_from_response_checked(
    url: &str,
    final_url: String,
    status: u16,
    headers: Vec<(String, String)>,
    body: String,
    fetched_at: chrono::NaiveDateTime,
    duration_ms: u64,
) -> (r: Option<Result<SourceMaterial, ProbeError>>)
    ensures
        (400 <= status < 600 && !scan_cut_ok(body@)) <==> r is None,
        r matches Some(x) ==> response_material(url@, final_url@, status, headers@, body@, fetched_at, duration_ms, x),
{
    if 400 <= status && status < 600 && !scan_cut_checked(body.as_str()) {
        return None;
    }
    Some(material_from_response(url, final_url, status, headers, body, fetched_at, duration_ms))
}

} // verus!

verus! {

fn copy_pairs(v: &[(String, String)]) -> (r: Vec<(String, String)>)
    ensures
        pairs_view(r@) == pairs_view(v@),
{
    let mut out: Vec<(String, String)> = Vec::new();
    let mut i: usize = 0;
    while i < v.len()
        invariant
            i <= v.len(),
            pairs_view(out@) == pairs_view(v@).take(i as int),
        decreases v.len() - i,
    {
        let ghost prev = pairs_view(out@);
        let a = v[i].0.clone();
        let b = v[i].1.clone();
        out.push((a, b));
        assert(pairs_view(out@) =~= prev.push(pairs_view(v@)[i as int]));
        assert(pairs_view(v@).take(i + 1) =~= pairs_view(v@).take(i as int).push(pairs_view(v@)[i as int]));
        i = i + 1;
    }
    assert(pairs_view(v@).take(v.len() as int) =~= pairs_view(v@));
    out
}

/// The material a child rule reads under a parent hit: the hit's outer HTML
/// (its value when it has none) as the page, no scripts or meta tags, the
/// parent's URL, status, headers and fetch time, and no duration.
pub fn make_sub_material_from_hit(ph: &crate::extractor::Hit, parent: &SourceMaterial) -> (r: SourceMaterial)
    ensures
        r.html@ == (match ph.context_html {
            Some(c) => c@,
            None => ph.value@,
        }),
        r.final_url@ == parent.final_url@,
        r.status == parent.status,
        pairs_view(r.headers@) == pairs_view(parent.headers@),
        r.scripts@ == Seq::<ScriptBlock>::empty(),
        r.metas@ == Seq::<MetaTag>::empty(),
        r.fetched_at == parent.fetched_at,
        r.duration_ms == 0,
{
    let html = match &ph.context_html {
        Some(c) => c.clone(),
        None => ph.value.clone(),
    };
    SourceMaterial {
        final_url: parent.final_url.clone(),
        status: parent.status,
        headers: copy_pairs(parent.headers.as_slice()),
        html,
        scripts: Vec::new(),
        metas: Vec::new(),
        fetched_at: parent.fetched_at,
        duration_ms: 0,
    }
}

/// The material under a parent hit is what a child rule reads there.
pub proof fn lemma_sub_material_input(ph: crate::extractor::Hit, parent: SourceMaterial, sub: SourceMaterial, si: Option<i32>, layer: crate::field_schema::SourceLayer)
    requires
        sub.html@ == (match ph.context_html {
            Some(c) => c@,
            None => ph.value@,
        }),
        sub.final_url@ == parent.final_url@,
        pairs_view(sub.headers@) == pairs_view(parent.headers@),
        sub.scripts@ == Seq::<ScriptBlock>::empty(),
        sub.metas@ == Seq::<MetaTag>::empty(),
    ensures
        crate::extractor::material_input(sub, si, layer) == crate::engine::sub_input(crate::extractor::hit_view(ph), parent, si, layer),
{
}

} // verus!

verus! {

// ---------------------------------------------------------------------------
// A detail page sample from a list page
// ---------------------------------------------------------------------------

/// The hits of a rule on an input before post-processing: none when the
/// rule fails; `None` where the extraction would panic.
pub open spec fn raw_hits_spec(rule: Rule, input: InputView) -> Option<Seq<HitView>> {
    match extract_spec(rule, input) {
        None => None,
        Some(Ok(h)) => Some(h),
        Some(Err(_)) => Some(Seq::empty()),
    }
}

/// The URL a field yields on an input: its first post-processed hit,
/// trimmed, made absolute against `base`, when not empty.
pub open spec fn first_url_spec(rule: Rule, input: InputView, pps: Seq<PostProcessor>, base: Seq<char>) -> Option<Option<Seq<char>>> {
    match raw_hits_spec(rule, input) {
        None => None,
        Some(h) => {
            let p = apply_ops(h, pps, base);
            Some(
                if p.len() == 0 {
                    None
                } else {
                    let v = trim(p[0].0);
                    let u = if v.len() == 0 { Seq::<char>::empty() } else { resolve_url_spec(v, base) };
                    if u.len() == 0 {
                        None
                    } else {
                        Some(u)
                    }
                },
            )
        },
    }
}

/// Hits of a rule on a layer of `material`, before post-processing; an
/// extraction error gives none.
pub fn extract_to_hits(rule: &Rule, source_layer: SourceLayer, script_index: Option<i32>, material: &SourceMaterial) -> (r: Option<Vec<Hit>>)
    ensures
        match raw_hits_spec(*rule, material_input(*material, script_index, source_layer)) {
            None => r is None,
            Some(h) => r matches Some(v) && hits_view(v@) == h,
        },
{
    let input = ExtractInput::from_material(material, script_index).with_layer(source_layer);
    match try_extract(rule, &input) {
        None => None,
        Some(Ok(h)) => Some(h),
        Some(Err(_)) => {
            let v: Vec<Hit> = Vec::new();
            assert(hits_view(v@) =~= Seq::<HitView>::empty());
            Some(v)
        },
    }
}

fn first_url_of(hits: Vec<Hit>, post_processors: &[PostProcessor], base: &str) -> (r: Option<String>)
    ensures
        ({
            let p = apply_ops(hits_view(hits@), post_processors@, base@);
            opt_str(r) == (if p.len() == 0 {
                None
            } else {
                let v = trim(p[0].0);
                let u = if v.len() == 0 { Seq::<char>::empty() } else { resolve_url_spec(v, base@) };
                if u.len() == 0 {
                    None
                } else {
                    Some(u)
                }
            })
        }),
{
    let processed = apply_post_processors(hits, post_processors, base);
    if processed.len() == 0 {
        return None;
    }
    let vv = chars_of(processed[0].value.as_str());
    let tv = trim_chars(vv.as_slice());
    if tv.len() == 0 {
        return None;
    }
    let ts = string_from_chars(tv.as_slice());
    let u = resolve_url(ts.as_str(), base);
    if u.as_str().is_empty() {
        None
    } else {
        Some(u)
    }
}

/// The URL a field yields on a layer of `material`: its first
/// post-processed hit, trimmed and made absolute, when not empty.
pub fn extract_first_url_from_node(
    rule: &Rule,
    source_layer: SourceLayer,
    script_index: Option<i32>,
    post_processors: &[PostProcessor],
    material: &SourceMaterial,
) -> (r: Option<Option<String>>)
    ensures
        match first_url_spec(*rule, material_input(*material, script_index, source_layer), post_processors@, material.final_url@) {
            None => r is None,
            Some(u) => r matches Some(x) && opt_str(x) == u,
        },
{
    match extract_to_hits(rule, source_layer, script_index, material) {
        None => None,
        Some(h) => Some(first_url_of(h, post_processors, material.final_url.as_str())),
    }
}

/// Pass 1: the first URL field that yields a URL.
pub open spec fn detail_pass1(nodes: Seq<FieldTreeNode>, m: SourceMaterial) -> Option<Option<Seq<char>>>
    decreases nodes.len(),
{
    if nodes.len() == 0 {
        Some(None)
    } else {
        let s = nodes[0].spec;
        let r = if s.field_type is Url {
            first_url_spec(s.rule, material_input(m, s.script_index, s.source_layer), s.post_processors@, m.final_url@)
        } else {
            Some(None)
        };
        match r {
            None => None,
            Some(Some(u)) => Some(Some(u)),
            Some(None) => detail_pass1(nodes.drop_first(), m),
        }
    }
}

/// A child field tried under each parent hit in turn.
pub open spec fn detail_under_parents(cs: FieldNodeSpec, parents: Seq<HitView>, m: SourceMaterial) -> Option<Option<Seq<char>>>
    decreases parents.len(),
{
    if parents.len() == 0 {
        Some(None)
    } else {
        match first_url_spec(cs.rule, sub_input(parents[0], m, cs.script_index, cs.source_layer), cs.post_processors@, m.final_url@) {
            None => None,
            Some(Some(u)) => Some(Some(u)),
            Some(None) => detail_under_parents(cs, parents.drop_first(), m),
        }
    }
}

/// A child that can hold the detail URL: a URL field, or one named `url`
/// or `link`.
pub open spec fn wants_url(cs: FieldNodeSpec) -> bool {
    cs.field_type is Url || cs.name@ == "url"@ || cs.name@ == "link"@
}

/// The children of a link card tried in order under its hits.
pub open spec fn detail_children(children: Seq<FieldTreeNode>, parents: Seq<HitView>, m: SourceMaterial) -> Option<Option<Seq<char>>>
    decreases children.len(),
{
    if children.len() == 0 {
        Some(None)
    } else {
        let r = if wants_url(children[0].spec) {
            detail_under_parents(children[0].spec, parents, m)
        } else {
            Some(None)
        };
        match r {
            None => None,
            Some(Some(u)) => Some(Some(u)),
            Some(None) => detail_children(children.drop_first(), parents, m),
        }
    }
}

/// The post-processed hits of a field on the page.
pub open spec fn field_hits_on_page(s: FieldNodeSpec, m: SourceMaterial) -> Option<Seq<HitView>> {
    match raw_hits_spec(s.rule, material_input(m, s.script_index, s.source_layer)) {
        None => None,
        Some(h) => Some(apply_ops(h, s.post_processors@, m.final_url@)),
    }
}

/// Pass 2: a URL child of a link card, under the card's hits.
pub open spec fn detail_pass2(nodes: Seq<FieldTreeNode>, m: SourceMaterial) -> Option<Option<Seq<char>>>
    decreases nodes.len(),
{
    if nodes.len() == 0 {
        Some(None)
    } else {
        let n = nodes[0];
        let r = if n.spec.field_type is LinkCard {
            match field_hits_on_page(n.spec, m) {
                None => None,
                Some(ph) => if ph.len() == 0 {
                    Some(None)
                } else {
                    detail_children(n.children@, ph, m)
                },
            }
        } else {
            Some(None)
        };
        match r {
            None => None,
            Some(Some(u)) => Some(Some(u)),
            Some(None) => detail_pass2(nodes.drop_first(), m),
        }
    }
}

/// Pass 3: any other field whose first hit looks like an absolute URL.
pub open spec fn detail_pass3(nodes: Seq<FieldTreeNode>, m: SourceMaterial) -> Option<Option<Seq<char>>>
    decreases nodes.len(),
{
    if nodes.len() == 0 {
        Some(None)
    } else {
        let s = nodes[0].spec;
        let r = if s.field_type is Pagination || s.field_type is LinkCard {
            Some(None)
        } else {
            match field_hits_on_page(s, m) {
                None => None,
                Some(p) => if p.len() > 0 && (starts_with(trim(p[0].0), "http://"@) || starts_with(trim(p[0].0), "https://"@)) {
                    Some(Some(resolve_url_spec(trim(p[0].0), m.final_url@)))
                } else {
                    Some(None)
                },
            }
        };
        match r {
            None => None,
            Some(Some(u)) => Some(Some(u)),
            Some(None) => detail_pass3(nodes.drop_first(), m),
        }
    }
}

/// The first detail URL of a list page: URL fields first, then URL
/// children of link cards under the cards' hits, then any other field whose
/// first hit is an absolute URL. Pagination fields are never used.
pub open spec fn detail_url_spec(nodes: Seq<FieldTreeNode>, m: SourceMaterial) -> Option<Option<Seq<char>>> {
    match detail_pass1(nodes, m) {
        None => None,
        Some(Some(u)) => Some(Some(u)),
        Some(None) => match detail_pass2(nodes, m) {
            None => None,
            Some(Some(u)) => Some(Some(u)),
            Some(None) => detail_pass3(nodes, m),
        },
    }
}

fn field_hits_on_page_exec(s: &FieldNodeSpec, material: &SourceMaterial) -> (r: Option<Vec<Hit>>)
    ensures
        match field_hits_on_page(*s, *material) {
            None => r is None,
            Some(h) => r matches Some(v) && hits_view(v@) == h,
        },
{
    match extract_to_hits(&s.rule, s.source_layer, s.script_index, material) {
        None => None,
        Some(h) => Some(apply_post_processors(h, s.post_processors.as_slice(), material.final_url.as_str())),
    }
}

fn detail_pass1_exec(nodes: &Vec<FieldTreeNode>, material: &SourceMaterial) -> (r: Option<Option<String>>)
    ensures
        match detail_pass1(nodes@, *material) {
            None => r is None,
            Some(u) => r matches Some(x) && opt_str(x) == u,
        },
{
    let mut i: usize = 0;
    assert(nodes@.skip(0) =~= nodes@);
    while i < nodes.len()
        invariant
            i <= nodes.len(),
            detail_pass1(nodes@.skip(i as int), *material) == detail_pass1(nodes@, *material),
        decreases nodes.len() - i,
    {
        assert(nodes@.skip(i as int)[0] == nodes@[i as int]);
        assert(nodes@.skip(i as int).drop_first() =~= nodes@.skip(i + 1));
        let s = &nodes[i].spec;
        if let FieldType::Url = s.field_type {
            match extract_first_url_from_node(&s.rule, s.source_layer, s.script_index, s.post_processors.as_slice(), material) {
                None => {
                    return None;
                },
                Some(Some(u)) => {
                    return Some(Some(u));
                },
                Some(None) => {},
            }
        }
        i = i + 1;
    }
    Some(None)
}

fn under_parents_exec(cs: &FieldNodeSpec, parents: &Vec<Hit>, material: &SourceMaterial) -> (r: Option<Option<String>>)
    ensures
        match detail_under_parents(*cs, hits_view(parents@), *material) {
            None => r is None,
            Some(u) => r matches Some(x) && opt_str(x) == u,
        },
{
    let ghost pv = hits_view(parents@);
    let mut i: usize = 0;
    assert(pv.skip(0) =~= pv);
    while i < parents.len()
        invariant
            i <= parents.len(),
            pv == hits_view(parents@),
            detail_under_parents(*cs, pv.skip(i as int), *material) == detail_under_parents(*cs, pv, *material),
        decreases parents.len() - i,
    {
        assert(pv.skip(i as int)[0] == hit_view(parents@[i as int]));
        assert(pv.skip(i as int).drop_first() =~= pv.skip(i + 1));
        let sub = make_sub_material_from_hit(&parents[i], material);
        proof {
            lemma_sub_material_input(parents@[i as int], *material, sub, cs.script_index, cs.source_layer);
        }
        match extract_first_url_from_node(&cs.rule, cs.source_layer, cs.script_index, cs.post_processors.as_slice(), &sub) {
            None => {
                return None;
            },
            Some(Some(u)) => {
                return Some(Some(u));
            },
            Some(None) => {},
        }
        i = i + 1;
    }
    Some(None)
}

fn children_exec(children: &Vec<FieldTreeNode>, parents: &Vec<Hit>, material: &SourceMaterial) -> (r: Option<Option<String>>)
    ensures
        match detail_children(children@, hits_view(parents@), *material) {
            None => r is None,
            Some(u) => r matches Some(x) && opt_str(x) == u,
        },
{
    let mut i: usize = 0;
    assert(children@.skip(0) =~= children@);
    while i < children.len()
        invariant
            i <= children.len(),
            detail_children(children@.skip(i as int), hits_view(parents@), *material)
                == detail_children(children@, hits_view(parents@), *material),
        decreases children.len() - i,
    {
        assert(children@.skip(i as int)[0] == children@[i as int]);
        assert(children@.skip(i as int).drop_first() =~= children@.skip(i + 1));
        let cs = &children[i].spec;
        let is_url = match cs.field_type {
            FieldType::Url => true,
            _ => false,
        };
        let wants = is_url || crate::text::str_eq(cs.name.as_str(), "url") || crate::text::str_eq(cs.name.as_str(), "link");
        if wants {
            match under_parents_exec(cs, parents, material) {
                None => {
                    return None;
                },
                Some(Some(u)) => {
                    return Some(Some(u));
                },
                Some(None) => {},
            }
        }
        i = i + 1;
    }
    Some(None)
}

fn detail_pass2_exec(nodes: &Vec<FieldTreeNode>, material: &SourceMaterial) -> (r: Option<Option<String>>)
    ensures
        match detail_pass2(nodes@, *material) {
            None => r is None,
            Some(u) => r matches Some(x) && opt_str(x) == u,
        },
{
    let mut i: usize = 0;
    assert(nodes@.skip(0) =~= nodes@);
    while i < nodes.len()
        invariant
            i <= nodes.len(),
            detail_pass2(nodes@.skip(i as int), *material) == detail_pass2(nodes@, *material),
        decreases nodes.len() - i,
    {
        assert(nodes@.skip(i as int)[0] == nodes@[i as int]);
        assert(nodes@.skip(i as int).drop_first() =~= nodes@.skip(i + 1));
        let n = &nodes[i];
        if let FieldType::LinkCard = n.spec.field_type {
            match field_hits_on_page_exec(&n.spec, material) {
                None => {
                    return None;
                },
                Some(ph) => {
                    if ph.len() > 0 {
                        match children_exec(&n.children, &ph, material) {
                            None => {
                                return None;
                            },
                            Some(Some(u)) => {
                                return Some(Some(u));
                            },
                            Some(None) => {},
                        }
                    }
                },
            }
        }
        i = i + 1;
    }
    Some(None)
}

fn detail_pass3_exec(nodes: &Vec<FieldTreeNode>, material: &SourceMaterial) -> (r: Option<Option<String>>)
    ensures
        match detail_pass3(nodes@, *material) {
            None => r is None,
            Some(u) => r matches Some(x) && opt_str(x) == u,
        },
{
    let mut i: usize = 0;
    assert(nodes@.skip(0) =~= nodes@);
    while i < nodes.len()
        invariant
            i <= nodes.len(),
            detail_pass3(nodes@.skip(i as int), *material) == detail_pass3(nodes@, *material),
        decreases nodes.len() - i,
    {
        assert(nodes@.skip(i as int)[0] == nodes@[i as int]);
        assert(nodes@.skip(i as int).drop_first() =~= nodes@.skip(i + 1));
        let s = &nodes[i].spec;
        let skip = match s.field_type {
            FieldType::Pagination | FieldType::LinkCard => true,
            _ => false,
        };
        if !skip {
            match field_hits_on_page_exec(s, material) {
                None => {
                    return None;
                },
                Some(p) => {
                    if p.len() > 0 {
                        let vv = chars_of(p[0].value.as_str());
                        let tv = trim_chars(vv.as_slice());
                        let http = chars_of("http://");
                        let https = chars_of("https://");
                        if starts_with_exec(tv.as_slice(), http.as_slice()) || starts_with_exec(tv.as_slice(), https.as_slice()) {
                            let ts = string_from_chars(tv.as_slice());
                            return Some(Some(resolve_url(ts.as_str(), material.final_url.as_str())));
                        }
                    }
                },
            }
        }
        i = i + 1;
    }
    Some(None)
}

/// The detail URL to sample from a list page's field tree: a URL field
/// first, then a URL child of a link card under the card's hits, then any
/// other field whose first hit is an absolute URL; pagination fields are
/// never used. `None` where an extraction would panic.
pub fn find_first_detail_url(nodes: &Vec<FieldTreeNode>, material: &SourceMaterial) -> (r: Option<Option<String>>)
    ensures
        match detail_url_spec(nodes@, *material) {
            None => r is None,
            Some(u) => r matches Some(x) && opt_str(x) == u,
        },
{
    match detail_pass1_exec(nodes, material) {
        None => None,
        Some(Some(u)) => Some(Some(u)),
        Some(None) => match detail_pass2_exec(nodes, material) {
            None => None,
            Some(Some(u)) => Some(Some(u)),
            Some(None) => detail_pass3_exec(nodes, material),
        },
    }
}

} // verus!

verus! {

/// Hint for a detail URL that leads back to the list.
pub open spec fn list_loop_hint() -> Seq<char> {
    "url 子字段的 selector 选错了元素（选到了导航/分页/分类链接）：\n  1. 确认 attr = href（取 <a> 的链接）\n  2. 在左侧 HTML tab 找到真实文章详情的 <a> 标签，复制其 class 作为 selector\n  3. 避免选到分页栏（含下一页/页码的容器）和导航栏的链接\n  4. 若用 link_card：父规则应只匹配文章卡片容器，子 url 规则在容器内取 href"@
}

/// The decision on the detail URL found on a list page: none found is
/// `Match / ParentEmpty` with a hint; a blank one is `Match / ZeroHits`; one
/// that is the list again or one of its pages is `Match / ZeroHits` with a
/// hint; else the URL is fetched as the sample.
pub fn check_detail_url(found: Option<String>, list_final_url: &str) -> (r: Result<String, ProbeError>)
    ensures
        match found {
            None => r matches Err(e) && e.stage == ProbeStage::Match && e.category == ProbeCategory::ParentEmpty
                && e.message@ == "未找到能产出 URL 的 list_page 字段（需要 field_type=url/link_card/pagination）"@
                && opt_string_view(e.hint) == Some("在字段树中添加一个 url 类字段（如 link_card 下的 url 子字段）以让详情页 tab 取到样本"@),
            Some(u) => if trim(u@).len() == 0 {
                r matches Err(e) && e.stage == ProbeStage::Match && e.category == ProbeCategory::ZeroHits
                    && e.message@ == "URL 字段命中但值为空"@ && e.hint is None
            } else if is_list_loop(u@, list_final_url@) {
                r matches Err(e) && e.stage == ProbeStage::Match && e.category == ProbeCategory::ZeroHits
                    && e.message@ == "提取出的详情 URL 看起来还是列表页："@ + u@ + "（与列表 URL 相同或是其分页变体）"@
                    && opt_string_view(e.hint) == Some(list_loop_hint())
            } else {
                r matches Ok(x) && x@ == u@
            },
        },
{
    let u = match found {
        None => {
            return Err(ProbeError::new(
                ProbeStage::Match,
                ProbeCategory::ParentEmpty,
                "未找到能产出 URL 的 list_page 字段（需要 field_type=url/link_card/pagination）",
            ).with_hint("在字段树中添加一个 url 类字段（如 link_card 下的 url 子字段）以让详情页 tab 取到样本"));
        },
        Some(u) => u,
    };
    let uv = chars_of(u.as_str());
    if trim_chars(uv.as_slice()).len() == 0 {
        return Err(ProbeError::new(ProbeStage::Match, ProbeCategory::ZeroHits, "URL 字段命中但值为空"));
    }
    if is_list_self_or_pagination_loop(u.as_str(), list_final_url) {
        let mut m: Vec<char> = Vec::new();
        push_str(&mut m, "提取出的详情 URL 看起来还是列表页：");
        push_str(&mut m, u.as_str());
        push_str(&mut m, "（与列表 URL 相同或是其分页变体）");
        let msg = string_from_chars(m.as_slice());
        return Err(ProbeError::new(ProbeStage::Match, ProbeCategory::ZeroHits, msg.as_str()).with_hint(
            "url 子字段的 selector 选错了元素（选到了导航/分页/分类链接）：\n  1. 确认 attr = href（取 <a> 的链接）\n  2. 在左侧 HTML tab 找到真实文章详情的 <a> 标签，复制其 class 作为 selector\n  3. 避免选到分页栏（含下一页/页码的容器）和导航栏的链接\n  4. 若用 link_card：父规则应只匹配文章卡片容器，子 url 规则在容器内取 href",
        ));
    }
    Ok(u)
}

} // verus!
