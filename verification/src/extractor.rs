//! Field extraction results, extraction errors, the post-processing chain,
//! entity decoding and the substring search of the prefix/suffix mode.
use vstd::prelude::*;
use crate::engine::{resolve_url_chars, resolve_url_spec};
use crate::field_schema::{
    assemble_pattern, assembled_pattern, CssRule, HeaderFieldRule, JsonPathRule, MetaAttrRule,
    PostProcessor, PostProcessorOp, PrefixSuffixRule, RegexRule, Rule, SubRule, rule_mirrors_sub,
};
use crate::html_support::{css_select, css_select_result, element_views, ElementView};
use crate::json_support::{
    json_leading_ok, json_leading_parses, json_path_check, json_path_error_message, json_path_parses, json_path_values,
    json_parse, json_query_values, json_whole_parses, string_views,
};
use crate::regex_support::{
    captures_views, regex_all_captures, regex_captures_all, regex_check, regex_compiles,
    regex_error_message,
};
use crate::source_layer::{pairs_view, MetaKeyKind, MetaTag, ScriptBlock};
use crate::field_schema::SourceLayer;
use crate::text::{
    int_decimal, nat_decimal, push_decimal, push_signed_decimal, starts_with,
    byte_len, char_from_u32, chars_of, find, find_char, find_exec, first_char, is_scalar,
    parse_u32_radix, parse_u32_radix_exec, push_all, push_str, seq_eq, slice_range,
    str_byte_len, string_from_chars, trim, trim_chars,
    byte_to_char_index, char_index_at_byte, lemma_char_index_beyond, str_eq, debug_str, debug_string,
};
use vstd::utf8::encode_utf8;

verus! {

// ---------------------------------------------------------------------------
// Hits
// ---------------------------------------------------------------------------

/// One extracted value.
#[derive(Debug, Clone, PartialEq, Eq)]
pub struct Hit {
    /// The extracted value (post-processors rewrite it).
    pub value: String,
    /// Short label of the rule that produced it, such as `css:.title`.
    pub source_fragment: String,
    /// Position label such as `node[3]` or `match[0]`.
    pub location: Option<String>,
    /// Outer HTML of a CSS hit, used as the scope of child fields.
    pub context_html: Option<String>,
}

/// The view of an optional string.
pub open spec fn opt_str(o: Option<String>) -> Option<Seq<char>> {
    match o {
        Some(s) => Some(s@),
        None => None,
    }
}

/// A hit as views: value, source fragment, location, context HTML.
pub type HitView = (Seq<char>, Seq<char>, Option<Seq<char>>, Option<Seq<char>>);

pub open spec fn hit_view(h: Hit) -> HitView {
    (h.value@, h.source_fragment@, opt_str(h.location), opt_str(h.context_html))
}

pub open spec fn hit_value(h: Hit) -> Seq<char> {
    h.value@
}

pub open spec fn hits_view(hs: Seq<Hit>) -> Seq<HitView> {
    Seq::new(hs.len(), |i: int| hit_view(hs[i]))
}

fn clone_opt(o: &Option<String>) -> (r: Option<String>)
    ensures
        opt_str(r) == opt_str(*o),
{
    match o {
        Some(s) => Some(s.clone()),
        None => None,
    }
}

// ---------------------------------------------------------------------------
// Errors
// ---------------------------------------------------------------------------

/// Kind of extraction failure.
#[derive(Debug, Clone, Copy, PartialEq, Eq, Structural)]
pub enum ExtractErrorKind {
    /// Invalid rule (bad selector, pattern that does not compile, ...).
    InvalidRule,
    /// Mode not supported on this path.
    UnsupportedMode,
    /// Missing source (script index out of range, external script, ...).
    SourceMissing,
}

impl ExtractErrorKind {
    /// The variant name, as `Debug` prints it.
    pub open spec fn name(self) -> Seq<char> {
        match self {
            ExtractErrorKind::InvalidRule => "InvalidRule"@,
            ExtractErrorKind::UnsupportedMode => "UnsupportedMode"@,
            ExtractErrorKind::SourceMissing => "SourceMissing"@,
        }
    }

    pub fn name_str(&self) -> (r: &'static str)
        ensures
            r@ == self.name(),
    {
        match self {
            ExtractErrorKind::InvalidRule => "InvalidRule",
            ExtractErrorKind::UnsupportedMode => "UnsupportedMode",
            ExtractErrorKind::SourceMissing => "SourceMissing",
        }
    }
}

/// Extraction failure.
#[derive(Debug, Clone, PartialEq, Eq)]
pub struct ExtractError {
    pub kind: ExtractErrorKind,
    pub message: String,
}

impl ExtractError {
    pub fn new(kind: ExtractErrorKind, message: &str) -> (r: Self)
        ensures
            r.kind == kind,
            r.message@ == message@,
    {
        ExtractError { kind, message: String::from_str(message) }
    }

    /// Display form: `[Kind] message`.
    pub fn to_display(&self) -> (r: String)
        ensures
            r@ == seq!['['] + self.kind.name() + seq![']', ' '] + self.message@,
    {
        let mut m: Vec<char> = Vec::new();
        m.push('[');
        push_str(&mut m, self.kind.name_str());
        m.push(']');
        m.push(' ');
        push_str(&mut m, self.message.as_str());
        string_from_chars(m.as_slice())
    }
}

// ---------------------------------------------------------------------------
// Sub-rules
// ---------------------------------------------------------------------------

/// The rule with the same mode and fields as a `follow_url` sub-rule.
pub fn sub_rule_to_rule(sub: &SubRule) -> (r: Rule)
    ensures
        rule_mirrors_sub(*sub, r),
{
    match sub {
        SubRule::Css(r) => Rule::Css(r.duplicate()),
        SubRule::Regex(r) => Rule::Regex(r.duplicate()),
        SubRule::PrefixSuffix(r) => Rule::PrefixSuffix(r.duplicate()),
        SubRule::JsonPath(r) => Rule::JsonPath(r.duplicate()),
        SubRule::MetaAttr(r) => Rule::MetaAttr(r.duplicate()),
        SubRule::HeaderField(r) => Rule::HeaderField(r.duplicate()),
    }
}

// ---------------------------------------------------------------------------
// Substring search
// ---------------------------------------------------------------------------

/// The lower-case mapping `str::to_lowercase` applies (Unicode).
pub uninterp spec fn unicode_lowercase(s: Seq<char>) -> Seq<char>;

/// `str::to_lowercase`.
#[verifier::external_body]
pub(crate) fn str_to_lowercase(s: &str) -> (r: String)
    ensures
        r@ == unicode_lowercase(s@),
{
    s.to_lowercase()
}

/// Byte offset of the first occurrence of `needle`, comparing exactly or
/// after Unicode lower-casing of both (the offset is then one in the
/// lower-cased haystack); an empty needle is found at 0.
pub open spec fn find_substring_spec(hay: Seq<char>, needle: Seq<char>, case_sensitive: bool) -> Option<nat> {
    if needle.len() == 0 {
        Some(0)
    } else {
        let h = if case_sensitive { hay } else { unicode_lowercase(hay) };
        let n = if case_sensitive { needle } else { unicode_lowercase(needle) };
        match find(h, n) {
            Some(i) => Some(byte_len(h.take(i)) as nat),
            None => None,
        }
    }
}

/// Byte offset of `needle` in `haystack`, exactly or case-insensitively.
pub fn find_substring(haystack: &str, needle: &str, case_sensitive: bool) -> (r: Option<usize>)
    ensures
        match r {
            Some(b) => find_substring_spec(haystack@, needle@, case_sensitive) == Some(b as nat),
            None => find_substring_spec(haystack@, needle@, case_sensitive) is None,
        },
{
    let nv0 = chars_of(needle);
    if nv0.len() == 0 {
        return Some(0);
    }
    let (h, n) = if case_sensitive {
        (chars_of(haystack), nv0)
    } else {
        let lh = str_to_lowercase(haystack);
        let ln = str_to_lowercase(needle);
        (chars_of(lh.as_str()), chars_of(ln.as_str()))
    };
    match find_exec(h.as_slice(), n.as_slice()) {
        Some(i) => {
            let prefix = slice_range(h.as_slice(), 0, i);
            assert(prefix@ =~= h@.take(i as int));
            let ps = string_from_chars(prefix.as_slice());
            Some(str_byte_len(ps.as_str()))
        },
        None => None,
    }
}

// ---------------------------------------------------------------------------
// Prefix/suffix mode
// ---------------------------------------------------------------------------

/// Label such as `match[3]`.
pub open spec fn index_label(name: Seq<char>, i: nat) -> Seq<char> {
    name + "["@ + nat_decimal(i) + "]"@
}

fn index_label_exec(name: &str, i: usize) -> (r: String)
    ensures
        r@ == index_label(name@, i as nat),
{
    let mut m: Vec<char> = Vec::new();
    push_str(&mut m, name);
    push_str(&mut m, "[");
    push_decimal(&mut m, i as u64);
    push_str(&mut m, "]");
    string_from_chars(m.as_slice())
}

/// A hit without context HTML.
pub open spec fn plain_hit(value: Seq<char>, fragment: Seq<char>, location: Seq<char>) -> HitView {
    (value, fragment, Some(location), None)
}

/// `prefix_suffix:{prefix}...{suffix}`.
pub open spec fn ps_fragment(ps: PrefixSuffixRule) -> Seq<char> {
    "prefix_suffix:"@ + ps.prefix@ + "..."@ + ps.suffix@
}

/// The prefix/suffix scan of `t` from byte `cursor` on, `acc` being the
/// hits found before it: find the prefix from the cursor, then the suffix
/// after the prefix, take the text between them (or with them, when the
/// boundary is included), and go on after the suffix (at least one byte
/// further). Offsets are in bytes, as `str` slicing takes them; `None` is a
/// scan in which a slice would not fall on character boundaries, where the
/// `str` indexing panics (possible when lower-casing changes byte lengths).
pub open spec fn ps_scan(t: Seq<char>, ps: PrefixSuffixRule, cursor: int, acc: Seq<HitView>) -> Option<Seq<HitView>>
    decreases encode_utf8(t).len() - cursor,
{
    let total = encode_utf8(t).len() as int;
    if cursor >= total {
        Some(acc)
    } else {
        match char_index_at_byte(t, cursor) {
            None => None,
            Some(k) => match find_substring_spec(t.skip(k), ps.prefix@, ps.case_sensitive) {
                None => Some(acc),
                Some(off) => {
                    let p_start = cursor + off;
                    let p_end = p_start + encode_utf8(ps.prefix@).len();
                    match char_index_at_byte(t, p_end) {
                        None => None,
                        Some(k2) => match find_substring_spec(t.skip(k2), ps.suffix@, ps.case_sensitive) {
                            None => Some(acc),
                            Some(so) => {
                                let s_end = so + encode_utf8(ps.suffix@).len();
                                let vs = if ps.include_boundary { p_start } else { p_end };
                                let ve = if ps.include_boundary { p_end + s_end } else { p_end + so };
                                match (char_index_at_byte(t, vs), char_index_at_byte(t, ve)) {
                                    (Some(a), Some(b)) => if a <= b {
                                        let acc2 = acc.push(
                                            plain_hit(t.subrange(a, b), ps_fragment(ps), index_label("match"@, acc.len())),
                                        );
                                        let next = p_end + s_end;
                                        let nc = if next > cursor { next } else { cursor + 1 };
                                        if nc >= total {
                                            Some(acc2)
                                        } else {
                                            ps_scan(t, ps, nc, acc2)
                                        }
                                    } else {
                                        None
                                    },
                                    _ => None,
                                }
                            },
                        },
                    }
                },
            },
        }
    }
}

/// The hits of the prefix/suffix mode on `text`, or `None` where slicing
/// the text at the found offsets would panic.
pub open spec fn prefix_suffix_spec(ps: PrefixSuffixRule, text: Seq<char>) -> Option<Seq<HitView>> {
    ps_scan(text, ps, 0, Seq::empty())
}

fn ps_fragment_exec(ps: &PrefixSuffixRule) -> (r: String)
    ensures
        r@ == ps_fragment(*ps),
{
    let mut m: Vec<char> = Vec::new();
    push_str(&mut m, "prefix_suffix:");
    push_str(&mut m, ps.prefix.as_str());
    push_str(&mut m, "...");
    push_str(&mut m, ps.suffix.as_str());
    string_from_chars(m.as_slice())
}

/// Hits of the prefix/suffix mode on `text`: every value between a prefix
/// and the next suffix, scanning on after each suffix. `None` exactly where
/// the scan would slice the text off character boundaries.
#[verifier::rlimit(40)]
pub fn extract_prefix_suffix(ps: &PrefixSuffixRule, text: &str) -> (r: Option<Vec<Hit>>)
    ensures
        match r {
            Some(v) => prefix_suffix_spec(*ps, text@) == Some(hits_view(v@)),
            None => prefix_suffix_spec(*ps, text@) is None,
        },
{
    let tv = chars_of(text);
    let total = str_byte_len(text);
    let plen = str_byte_len(ps.prefix.as_str());
    let slen = str_byte_len(ps.suffix.as_str());
    let frag = ps_fragment_exec(ps);
    let ghost t = text@;
    let ghost target = prefix_suffix_spec(*ps, t);
    let mut hits: Vec<Hit> = Vec::new();
    let mut cursor: usize = 0;
    assert(hits_view(hits@) =~= Seq::<HitView>::empty());
    while cursor < total
        invariant
            tv@ == t,
            t == text@,
            total == encode_utf8(t).len(),
            plen == encode_utf8(ps.prefix@).len(),
            slen == encode_utf8(ps.suffix@).len(),
            frag@ == ps_fragment(*ps),
            target == prefix_suffix_spec(*ps, t),
            ps_scan(t, *ps, cursor as int, hits_view(hits@)) == target,
        decreases total - cursor,
    {
        let ghost acc = hits_view(hits@);
        let k = match byte_to_char_index(tv.as_slice(), cursor) {
            Some(k) => k,
            None => {
                return None;
            },
        };
        let rem_v = slice_range(tv.as_slice(), k, tv.len());
        assert(rem_v@ =~= t.skip(k as int));
        let rem = string_from_chars(rem_v.as_slice());
        let off = match find_substring(rem.as_str(), ps.prefix.as_str(), ps.case_sensitive) {
            Some(o) => o,
            None => {
                return Some(hits);
            },
        };
        let p_start = match cursor.checked_add(off) {
            Some(x) => x,
            None => {
                proof {
                    lemma_char_index_beyond(t, cursor + off + plen);
                }
                return None;
            },
        };
        let p_end = match p_start.checked_add(plen) {
            Some(x) => x,
            None => {
                proof {
                    lemma_char_index_beyond(t, p_start + plen);
                }
                return None;
            },
        };
        let k2 = match byte_to_char_index(tv.as_slice(), p_end) {
            Some(k2) => k2,
            None => {
                return None;
            },
        };
        let after_v = slice_range(tv.as_slice(), k2, tv.len());
        assert(after_v@ =~= t.skip(k2 as int));
        let after = string_from_chars(after_v.as_slice());
        let so = match find_substring(after.as_str(), ps.suffix.as_str(), ps.case_sensitive) {
            Some(o) => o,
            None => {
                return Some(hits);
            },
        };
        let ghost s_end_i: int = so + slen;
        let ghost ve_i: int = if ps.include_boundary { p_end + s_end_i } else { p_end + so };
        let vs = if ps.include_boundary { p_start } else { p_end };
        let ve = match p_end.checked_add(so) {
            Some(x) => if ps.include_boundary {
                match x.checked_add(slen) {
                    Some(y) => y,
                    None => {
                        proof {
                            lemma_char_index_beyond(t, ve_i);
                        }
                        return None;
                    },
                }
            } else {
                x
            },
            None => {
                proof {
                    lemma_char_index_beyond(t, ve_i);
                }
                return None;
            },
        };
        let a = match byte_to_char_index(tv.as_slice(), vs) {
            Some(a) => a,
            None => {
                return None;
            },
        };
        let b = match byte_to_char_index(tv.as_slice(), ve) {
            Some(b) => b,
            None => {
                return None;
            },
        };
        if a > b {
            return None;
        }
        let value_v = slice_range(tv.as_slice(), a, b);
        let value = string_from_chars(value_v.as_slice());
        let location = index_label_exec("match", hits.len());
        proof {
            reveal_strlit("match");
        }
        let hit = Hit { value, source_fragment: frag.clone(), location: Some(location), context_html: None };
        hits.push(hit);
        let ghost acc2 = hits_view(hits@);
        assert(acc2 =~= acc.push(plain_hit(t.subrange(a as int, b as int), ps_fragment(*ps), index_label("match"@, acc.len()))));
        let next = match p_end.checked_add(so) {
            Some(x) => x.checked_add(slen),
            None => None,
        };
        match next {
            Some(nx) => {
                let nc = if nx > cursor { nx } else { cursor + 1 };
                if nc >= total {
                    return Some(hits);
                }
                cursor = nc;
            },
            None => {
                return Some(hits);
            },
        }
    }
    Some(hits)
}

// ---------------------------------------------------------------------------
// HTML entities
// ---------------------------------------------------------------------------

/// The text an entity (between `&` and `;`) stands for: `#NN` / `#xHH`
/// numeric references to scalar values, and `amp`, `lt`, `gt`, `quot`,
/// `apos`, `nbsp`.
pub open spec fn decode_entity(e: Seq<char>) -> Option<Seq<char>> {
    if e.len() > 0 && e[0] == '#' {
        let num = e.drop_first();
        let code = if num.len() > 0 && (num[0] == 'x' || num[0] == 'X') {
            parse_u32_radix(num.drop_first(), 16)
        } else {
            parse_u32_radix(num, 10)
        };
        match code {
            Some(c) => if is_scalar(c) {
                Some(seq![c as char])
            } else {
                None
            },
            None => None,
        }
    } else if e == "amp"@ {
        Some(seq!['&'])
    } else if e == "lt"@ {
        Some(seq!['<'])
    } else if e == "gt"@ {
        Some(seq!['>'])
    } else if e == "quot"@ {
        Some(seq!['"'])
    } else if e == "apos"@ {
        Some(seq!['\''])
    } else if e == "nbsp"@ {
        Some(seq!['\u{a0}'])
    } else {
        None
    }
}

fn lit_eq(v: &[char], lit: &str) -> (r: bool)
    ensures
        r == (v@ == lit@),
{
    let l = chars_of(lit);
    seq_eq(v, l.as_slice())
}

/// Decodes one entity body.
pub fn decode_one_entity(entity: &[char]) -> (r: Option<Vec<char>>)
    ensures
        match r {
            Some(d) => decode_entity(entity@) == Some(d@),
            None => decode_entity(entity@) is None,
        },
{
    if entity.len() > 0 && entity[0] == '#' {
        let num = slice_range(entity, 1, entity.len());
        assert(num@ =~= entity@.drop_first());
        let code = if num.len() > 0 && (num[0] == 'x' || num[0] == 'X') {
            let hex = slice_range(num.as_slice(), 1, num.len());
            assert(hex@ =~= num@.drop_first());
            parse_u32_radix_exec(hex.as_slice(), 16)
        } else {
            parse_u32_radix_exec(num.as_slice(), 10)
        };
        let c = match code {
            Some(c) => c,
            None => return None,
        };
        match char_from_u32(c) {
            Some(ch) => {
                let mut out: Vec<char> = Vec::new();
                out.push(ch);
                assert(out@ =~= seq![c as char]);
                return Some(out);
            },
            None => return None,
        }
    }
    let one = |c: char| -> (v: Vec<char>)
        ensures
            v@ == seq![c],
    {
        let mut v: Vec<char> = Vec::new();
        v.push(c);
        assert(v@ =~= seq![c]);
        v
    };
    if lit_eq(entity, "amp") {
        Some(one('&'))
    } else if lit_eq(entity, "lt") {
        Some(one('<'))
    } else if lit_eq(entity, "gt") {
        Some(one('>'))
    } else if lit_eq(entity, "quot") {
        Some(one('"'))
    } else if lit_eq(entity, "apos") {
        Some(one('\''))
    } else if lit_eq(entity, "nbsp") {
        Some(one('\u{a0}'))
    } else {
        None
    }
}

/// Entity decoding from the front: `&name;` with a known entity is replaced,
/// anything else is kept character by character.
#[verifier::opaque]
pub open spec fn decode_entities(s: Seq<char>) -> Seq<char>
    decreases s.len(),
{
    if s.len() == 0 {
        s
    } else if s[0] == '&' && first_char(s.drop_first(), ';') is Some && decode_entity(
        s.drop_first().take(first_char(s.drop_first(), ';').unwrap()),
    ) is Some {
        let r = first_char(s.drop_first(), ';').unwrap();
        if 0 <= r < s.len() - 1 {
            decode_entity(s.drop_first().take(r)).unwrap() + decode_entities(s.skip(r + 2))
        } else {
            s
        }
    } else {
        seq![s[0]] + decode_entities(s.drop_first())
    }
}

proof fn lemma_decode_entity_step(rest: Seq<char>, rel: int)
    requires
        rest.len() > 0,
        rest[0] == '&',
        first_char(rest.drop_first(), ';') == Some(rel),
        0 <= rel < rest.len() - 1,
        decode_entity(rest.drop_first().take(rel)) is Some,
    ensures
        decode_entities(rest) == decode_entity(rest.drop_first().take(rel)).unwrap() + decode_entities(rest.skip(rel + 2)),
{
    reveal(decode_entities);
}

proof fn lemma_decode_char_step(rest: Seq<char>)
    requires
        rest.len() > 0,
        !(rest[0] == '&' && first_char(rest.drop_first(), ';') is Some && decode_entity(
            rest.drop_first().take(first_char(rest.drop_first(), ';').unwrap()),
        ) is Some),
    ensures
        decode_entities(rest) == seq![rest[0]] + decode_entities(rest.drop_first()),
{
    reveal(decode_entities);
}

/// HTML entity decoding of common named and numeric entities.
pub fn html_entity_decode(s: &str) -> (r: String)
    ensures
        r@ == decode_entities(s@),
{
    let v = chars_of(s);
    let mut out: Vec<char> = Vec::new();
    let mut i: usize = 0;
    assert(v@.skip(0) =~= v@);
    while i < v.len()
        invariant
            i <= v.len(),
            v@ == s@,
            out@ + decode_entities(v@.skip(i as int)) == decode_entities(s@),
        decreases v.len() - i,
    {
        let ghost rest = v@.skip(i as int);
        assert(rest.drop_first() =~= v@.skip(i + 1));
        let mut decoded: Option<(Vec<char>, usize)> = None;
        if v[i] == '&' {
            let after = slice_range(v.as_slice(), i + 1, v.len());
            assert(after@ =~= rest.drop_first());
            if let Some(rel) = find_char(after.as_slice(), ';') {
                let entity = slice_range(after.as_slice(), 0, rel);
                assert(entity@ =~= rest.drop_first().take(rel as int));
                if let Some(d) = decode_one_entity(entity.as_slice()) {
                    decoded = Some((d, rel));
                }
            }
        }
        match decoded {
            Some((d, rel)) => {
                proof {
                    lemma_decode_entity_step(rest, rel as int);
                }
                let ghost before = out@;
                push_all(&mut out, d.as_slice());
                assert(rest.skip(rel + 2) =~= v@.skip(i + 1 + rel + 1));
                assert(out@ + decode_entities(v@.skip(i + 1 + rel + 1)) =~= before + decode_entities(rest));
                i = i + 1 + rel + 1;
            },
            None => {
                proof {
                    lemma_decode_char_step(rest);
                }
                let ghost before = out@;
                out.push(v[i]);
                assert(out@ + decode_entities(v@.skip(i + 1)) =~= before + decode_entities(rest));
                i = i + 1;
            },
        }
    }
    assert(v@.skip(v.len() as int) =~= Seq::<char>::empty());
    assert(decode_entities(Seq::<char>::empty()) == Seq::<char>::empty()) by {
        reveal(decode_entities);
    }
    assert(out@ =~= decode_entities(s@));
    string_from_chars(out.as_slice())
}

// ---------------------------------------------------------------------------
// Post-processing
// ---------------------------------------------------------------------------

/// Hits with value `f(value)` and other parts kept.
pub open spec fn map_values(hs: Seq<HitView>, f: spec_fn(Seq<char>) -> Seq<char>) -> Seq<HitView> {
    Seq::new(hs.len(), |i: int| (f(hs[i].0), hs[i].1, hs[i].2, hs[i].3))
}

/// Keeps the first hit of each value, in order.
pub open spec fn dedupe_hits(hs: Seq<HitView>) -> Seq<HitView>
    decreases hs.len(),
{
    if hs.len() == 0 {
        hs
    } else {
        let r = dedupe_hits(hs.drop_last());
        if exists|j: int| 0 <= j < hs.len() - 1 && hs[j].0 == hs.last().0 {
            r
        } else {
            r.push(hs.last())
        }
    }
}

/// The value an `absolutize_url` step gives: empty values stay empty.
pub open spec fn absolutize(v: Seq<char>, base: Seq<char>) -> Seq<char> {
    if v.len() == 0 {
        v
    } else {
        resolve_url_spec(v, base)
    }
}

/// One post-processing step.
pub open spec fn apply_op(hs: Seq<HitView>, op: PostProcessorOp, base: Seq<char>) -> Seq<HitView> {
    match op {
        PostProcessorOp::Trim => map_values(hs, |v: Seq<char>| trim(v)),
        PostProcessorOp::HtmlEntityDecode => map_values(hs, |v: Seq<char>| decode_entities(v)),
        PostProcessorOp::AbsolutizeUrl => map_values(hs, |v: Seq<char>| absolutize(v, base)),
        PostProcessorOp::First => if hs.len() > 1 {
            hs.take(1)
        } else {
            hs
        },
        PostProcessorOp::All => hs,
        PostProcessorOp::Dedupe => dedupe_hits(hs),
    }
}

/// The chain of steps, in order.
pub open spec fn apply_ops(hs: Seq<HitView>, ops: Seq<PostProcessor>, base: Seq<char>) -> Seq<HitView>
    decreases ops.len(),
{
    if ops.len() == 0 {
        hs
    } else {
        apply_op(apply_ops(hs, ops.drop_last(), base), ops.last().op, base)
    }
}

fn map_trim(hits: Vec<Hit>) -> (r: Vec<Hit>)
    ensures
        hits_view(r@) == map_values(hits_view(hits@), |v: Seq<char>| trim(v)),
{
    let mut out: Vec<Hit> = Vec::new();
    let mut i: usize = 0;
    while i < hits.len()
        invariant
            i <= hits.len(),
            hits_view(out@) == map_values(hits_view(hits@), |v: Seq<char>| trim(v)).take(i as int),
        decreases hits.len() - i,
    {
        let h = &hits[i];
        let v = chars_of(h.value.as_str());
        let t = trim_chars(v.as_slice());
        let nh = Hit {
            value: string_from_chars(t.as_slice()),
            source_fragment: h.source_fragment.clone(),
            location: clone_opt(&h.location),
            context_html: clone_opt(&h.context_html),
        };
        let ghost before = hits_view(out@);
        let ghost target = map_values(hits_view(hits@), |v: Seq<char>| trim(v));
        assert(hit_view(nh) == target[i as int]);
        out.push(nh);
        assert(hits_view(out@) =~= before.push(hit_view(nh)));
        assert(target.take(i + 1) =~= target.take(i as int).push(target[i as int]));
        i = i + 1;
    }
    assert(map_values(hits_view(hits@), |v: Seq<char>| trim(v)).take(hits.len() as int) =~= map_values(hits_view(hits@), |v: Seq<char>| trim(v)));
    out
}

fn map_decode(hits: Vec<Hit>) -> (r: Vec<Hit>)
    ensures
        hits_view(r@) == map_values(hits_view(hits@), |v: Seq<char>| decode_entities(v)),
{
    let mut out: Vec<Hit> = Vec::new();
    let mut i: usize = 0;
    while i < hits.len()
        invariant
            i <= hits.len(),
            hits_view(out@) == map_values(hits_view(hits@), |v: Seq<char>| decode_entities(v)).take(i as int),
        decreases hits.len() - i,
    {
        let h = &hits[i];
        let nh = Hit {
            value: html_entity_decode(h.value.as_str()),
            source_fragment: h.source_fragment.clone(),
            location: clone_opt(&h.location),
            context_html: clone_opt(&h.context_html),
        };
        let ghost before = hits_view(out@);
        let ghost target = map_values(hits_view(hits@), |v: Seq<char>| decode_entities(v));
        assert(hit_view(nh) == target[i as int]);
        out.push(nh);
        assert(hits_view(out@) =~= before.push(hit_view(nh)));
        assert(target.take(i + 1) =~= target.take(i as int).push(target[i as int]));
        i = i + 1;
    }
    assert(map_values(hits_view(hits@), |v: Seq<char>| decode_entities(v)).take(hits.len() as int) =~= map_values(hits_view(hits@), |v: Seq<char>| decode_entities(v)));
    out
}

fn map_absolutize(hits: Vec<Hit>, base: &str) -> (r: Vec<Hit>)
    ensures
        hits_view(r@) == map_values(hits_view(hits@), |v: Seq<char>| absolutize(v, base@)),
{
    let b = chars_of(base);
    let mut out: Vec<Hit> = Vec::new();
    let mut i: usize = 0;
    while i < hits.len()
        invariant
            i <= hits.len(),
            b@ == base@,
            hits_view(out@) == map_values(hits_view(hits@), |v: Seq<char>| absolutize(v, base@)).take(i as int),
        decreases hits.len() - i,
    {
        let h = &hits[i];
        let v = chars_of(h.value.as_str());
        let nv = if v.len() > 0 {
            let r = resolve_url_chars(v.as_slice(), b.as_slice());
            string_from_chars(r.as_slice())
        } else {
            h.value.clone()
        };
        let nh = Hit {
            value: nv,
            source_fragment: h.source_fragment.clone(),
            location: clone_opt(&h.location),
            context_html: clone_opt(&h.context_html),
        };
        let ghost before = hits_view(out@);
        let ghost target = map_values(hits_view(hits@), |v: Seq<char>| absolutize(v, base@));
        assert(hit_view(nh) == target[i as int]);
        out.push(nh);
        assert(hits_view(out@) =~= before.push(hit_view(nh)));
        assert(target.take(i + 1) =~= target.take(i as int).push(target[i as int]));
        i = i + 1;
    }
    assert(map_values(hits_view(hits@), |v: Seq<char>| absolutize(v, base@)).take(hits.len() as int) =~= map_values(hits_view(hits@), |v: Seq<char>| absolutize(v, base@)));
    out
}

/// Some hit has value `x`.
pub open spec fn has_value(s: Seq<HitView>, x: Seq<char>) -> bool {
    exists|k: int| 0 <= k < s.len() && #[trigger] s[k].0 == x
}

/// De-duplication keeps every value that occurs: a value is among the
/// kept hits exactly when it is among the given ones.
pub proof fn lemma_dedupe_values(s: Seq<HitView>, x: Seq<char>)
    ensures
        has_value(dedupe_hits(s), x) == has_value(s, x),
    decreases s.len(),
{
    if s.len() > 0 {
        let p = s.drop_last();
        lemma_dedupe_values(p, x);
        let r = dedupe_hits(p);
        if has_value(s, x) {
            let j = choose|j: int| 0 <= j < s.len() && #[trigger] s[j].0 == x;
            if j < s.len() - 1 {
                assert(p[j].0 == x);
                let k = choose|k: int| 0 <= k < r.len() && #[trigger] r[k].0 == x;
                if exists|j2: int| 0 <= j2 < s.len() - 1 && s[j2].0 == s.last().0 {
                } else {
                    assert(r.push(s.last())[k].0 == x);
                }
            } else {
                if exists|j2: int| 0 <= j2 < s.len() - 1 && s[j2].0 == s.last().0 {
                    let j2 = choose|j2: int| 0 <= j2 < s.len() - 1 && s[j2].0 == s.last().0;
                    assert(p[j2].0 == x);
                } else {
                    assert(r.push(s.last())[r.len() as int].0 == x);
                }
            }
        }
        if has_value(dedupe_hits(s), x) {
            let d = dedupe_hits(s);
            let k = choose|k: int| 0 <= k < d.len() && #[trigger] d[k].0 == x;
            if exists|j2: int| 0 <= j2 < s.len() - 1 && s[j2].0 == s.last().0 {
                let j = choose|j: int| 0 <= j < p.len() && #[trigger] p[j].0 == x;
                assert(s[j].0 == x);
            } else {
                if k < r.len() {
                    assert(r[k].0 == x);
                    let j = choose|j: int| 0 <= j < p.len() && #[trigger] p[j].0 == x;
                    assert(s[j].0 == x);
                } else {
                    assert(s[s.len() - 1].0 == x);
                }
            }
        }
    }
}

fn dedupe(hits: Vec<Hit>) -> (r: Vec<Hit>)
    ensures
        hits_view(r@) == dedupe_hits(hits_view(hits@)),
{
    let ghost hv = hits_view(hits@);
    let mut out: Vec<Hit> = Vec::new();
    let mut i: usize = 0;
    assert(hv.take(0) =~= Seq::<HitView>::empty());
    while i < hits.len()
        invariant
            i <= hits.len(),
            hv == hits_view(hits@),
            hits_view(out@) == dedupe_hits(hv.take(i as int)),
        decreases hits.len() - i,
    {
        let h = &hits[i];
        let v = chars_of(h.value.as_str());
        let mut seen = false;
        let mut k: usize = 0;
        while k < out.len()
            invariant
                k <= out.len(),
                v@ == h.value@,
                seen == exists|m: int| 0 <= m < k && #[trigger] hits_view(out@)[m].0 == v@,
            decreases out.len() - k,
        {
            let o = chars_of(out[k].value.as_str());
            assert(hits_view(out@)[k as int].0 == o@);
            if seq_eq(o.as_slice(), v.as_slice()) {
                seen = true;
            }
            k = k + 1;
        }
        let ghost t = hv.take(i + 1);
        let ghost p = hv.take(i as int);
        assert(t.drop_last() =~= p);
        assert(t.last() == hv[i as int]);
        assert(hv[i as int].0 == v@);
        proof {
            lemma_dedupe_values(p, v@);
            assert(seen == has_value(hits_view(out@), v@));
            assert(has_value(p, v@) == exists|j2: int| 0 <= j2 < t.len() - 1 && t[j2].0 == t.last().0) by {
                if has_value(p, v@) {
                    let j = choose|j: int| 0 <= j < p.len() && #[trigger] p[j].0 == v@;
                    assert(t[j].0 == t.last().0);
                }
                if exists|j2: int| 0 <= j2 < t.len() - 1 && t[j2].0 == t.last().0 {
                    let j2 = choose|j2: int| 0 <= j2 < t.len() - 1 && t[j2].0 == t.last().0;
                    assert(p[j2].0 == v@);
                }
            }
        }
        if !seen {
            let nh = Hit {
                value: h.value.clone(),
                source_fragment: h.source_fragment.clone(),
                location: clone_opt(&h.location),
                context_html: clone_opt(&h.context_html),
            };
            let ghost before = hits_view(out@);
            out.push(nh);
            assert(hits_view(out@) =~= before.push(hv[i as int]));
        }
        i = i + 1;
    }
    assert(hv.take(hits.len() as int) =~= hv);
    out
}

/// Applies the post-processing chain in order: per-value steps (trim, entity
/// decoding, absolutising against `base_url`) and list steps (first, all,
/// dedupe).
pub fn apply_post_processors(hits: Vec<Hit>, ops: &[PostProcessor], base_url: &str) -> (r: Vec<Hit>)
    ensures
        hits_view(r@) == apply_ops(hits_view(hits@), ops@, base_url@),
{
    let mut cur = hits;
    let mut i: usize = 0;
    let ghost h0 = hits_view(cur@);
    assert(ops@.take(0) =~= Seq::<PostProcessor>::empty());
    while i < ops.len()
        invariant
            i <= ops.len(),
            hits_view(cur@) == apply_ops(h0, ops@.take(i as int), base_url@),
        decreases ops.len() - i,
    {
        assert(ops@.take(i + 1).drop_last() =~= ops@.take(i as int));
        assert(ops@.take(i + 1).last() == ops@[i as int]);
        let op = ops[i].op;
        cur = match op {
            PostProcessorOp::Trim => map_trim(cur),
            PostProcessorOp::HtmlEntityDecode => map_decode(cur),
            PostProcessorOp::AbsolutizeUrl => map_absolutize(cur, base_url),
            PostProcessorOp::First => {
                let mut c = cur;
                if c.len() > 1 {
                    let ghost hv = hits_view(c@);
                    c.truncate(1);
                    assert(hits_view(c@) =~= hv.take(1));
                }
                c
            },
            PostProcessorOp::All => cur,
            PostProcessorOp::Dedupe => dedupe(cur),
        };
        i = i + 1;
    }
    assert(ops@.take(ops.len() as int) =~= ops@);
    cur
}

} // verus!

verus! {

// ---------------------------------------------------------------------------
// Extraction input
// ---------------------------------------------------------------------------

/// What one extraction reads: the layer it takes text from and the parts
/// of a fetched page.
#[derive(Debug, Clone, Copy)]
pub struct ExtractInput<'a> {
    pub source_layer: SourceLayer,
    pub html: &'a str,
    pub script_blocks: &'a [ScriptBlock],
    pub metas: &'a [MetaTag],
    /// Response headers (names lower-cased when fetched).
    pub headers: &'a [(String, String)],
    pub final_url: &'a str,
    /// Script block read by the `script` layer and by JSONPath rules.
    pub script_index: Option<i32>,
}

/// An extraction input as views.
pub struct InputView {
    pub source_layer: SourceLayer,
    pub html: Seq<char>,
    pub script_blocks: Seq<ScriptBlock>,
    pub metas: Seq<MetaTag>,
    /// Header names and values.
    pub headers: Seq<(Seq<char>, Seq<char>)>,
    pub final_url: Seq<char>,
    pub script_index: Option<i32>,
}

impl<'a> View for ExtractInput<'a> {
    type V = InputView;

    open spec fn view(&self) -> InputView {
        InputView {
            source_layer: self.source_layer,
            html: self.html@,
            script_blocks: self.script_blocks@,
            metas: self.metas@,
            headers: pairs_view(self.headers@),
            final_url: self.final_url@,
            script_index: self.script_index,
        }
    }
}

/// The input over a fetched page reading `layer`.
pub open spec fn material_input(m: crate::source_layer::SourceMaterial, script_index: Option<i32>, layer: SourceLayer) -> InputView {
    InputView {
        source_layer: layer,
        html: m.html@,
        script_blocks: m.scripts@,
        metas: m.metas@,
        headers: pairs_view(m.headers@),
        final_url: m.final_url@,
        script_index,
    }
}

impl<'a> ExtractInput<'a> {
    /// The input over a fetched page, reading its HTML.
    pub fn from_material(material: &'a crate::source_layer::SourceMaterial, script_index: Option<i32>) -> (r: Self)
        ensures
            r@ == material_input(*material, script_index, SourceLayer::Html),
    {
        ExtractInput {
            source_layer: SourceLayer::Html,
            html: material.html.as_str(),
            script_blocks: material.scripts.as_slice(),
            metas: material.metas.as_slice(),
            headers: material.headers.as_slice(),
            final_url: material.final_url.as_str(),
            script_index,
        }
    }

    /// The same input reading another layer.
    pub fn with_layer(self, layer: SourceLayer) -> (r: Self)
        ensures
            r@ == (InputView { source_layer: layer, ..self@ }),
    {
        ExtractInput { source_layer: layer, ..self }
    }
}

/// An expected error: kind and message.
pub type ErrSpec = (ExtractErrorKind, Seq<char>);

pub open spec fn err_matches(e: ExtractError, x: ErrSpec) -> bool {
    e.kind == x.0 && e.message@ == x.1
}

/// The variant name of a layer, as `Debug` prints it.
pub open spec fn layer_debug(l: SourceLayer) -> Seq<char> {
    match l {
        SourceLayer::Html => "Html"@,
        SourceLayer::Header => "Header"@,
        SourceLayer::Script => "Script"@,
        SourceLayer::Meta => "Meta"@,
        SourceLayer::Url => "Url"@,
    }
}

fn layer_debug_str(l: SourceLayer) -> (r: &'static str)
    ensures
        r@ == layer_debug(l),
{
    match l {
        SourceLayer::Html => "Html",
        SourceLayer::Header => "Header",
        SourceLayer::Script => "Script",
        SourceLayer::Meta => "Meta",
        SourceLayer::Url => "Url",
    }
}

/// Message for a script index outside the page's scripts.
pub open spec fn index_out_of_range_message(idx: i32, n: nat) -> Seq<char> {
    "script_index "@ + int_decimal(idx as int) + " 越界（共 "@ + nat_decimal(n) + " 个 script 块）"@
}

/// `Debug` text of an optional string.
pub open spec fn debug_opt(o: Option<String>) -> Seq<char> {
    match o {
        Some(s) => "Some("@ + debug_str(s@) + ")"@,
        None => "None"@,
    }
}

/// Message for an external script, which has no inline text.
pub open spec fn external_script_message(idx: i32, src: Option<String>) -> Seq<char> {
    "script["@ + int_decimal(idx as int) + "] 是外链脚本（src="@ + debug_opt(src) + "），无内联内容"@
}

/// The inline script `idx` selects, or the error for a missing index, an
/// index out of range or an external script.
pub open spec fn script_text(blocks: Seq<ScriptBlock>, idx: i32) -> Result<Seq<char>, ErrSpec> {
    if idx < 0 || idx >= blocks.len() {
        Err((ExtractErrorKind::SourceMissing, index_out_of_range_message(idx, blocks.len())))
    } else {
        match blocks[idx as int].content {
            Some(c) => Ok(c@),
            None => Err((ExtractErrorKind::SourceMissing, external_script_message(idx, blocks[idx as int].src))),
        }
    }
}

/// Text of the input's layer with its label, or why there is none.
pub open spec fn layer_text_spec(input: InputView) -> Result<(Seq<char>, Seq<char>), ErrSpec> {
    match input.source_layer {
        SourceLayer::Html => Ok((input.html, "html"@)),
        SourceLayer::Url => Ok((input.final_url, "url"@)),
        SourceLayer::Script => match input.script_index {
            None => Err((ExtractErrorKind::SourceMissing, "source_layer=script 但未指定 script_index"@)),
            Some(idx) => match script_text(input.script_blocks, idx) {
                Ok(t) => Ok((t, "script"@)),
                Err(e) => Err(e),
            },
        },
        SourceLayer::Meta | SourceLayer::Header => Err((
            ExtractErrorKind::UnsupportedMode,
            "source_layer="@ + layer_debug(input.source_layer) + " 暂不支持（US4 T049-T051 实现）"@,
        )),
    }
}

/// The text of script `idx`, or its error.
fn script_text_exec<'b>(blocks: &'b [ScriptBlock], idx: i32) -> (r: Result<&'b str, ExtractError>)
    ensures
        match script_text(blocks@, idx) {
            Ok(t) => r matches Ok(s) && s@ == t,
            Err(x) => r matches Err(e) && err_matches(e, x),
        },
{
    if idx < 0 || idx as usize >= blocks.len() {
        let mut m: Vec<char> = Vec::new();
        push_str(&mut m, "script_index ");
        push_signed_decimal(&mut m, idx as i64);
        push_str(&mut m, " 越界（共 ");
        push_decimal(&mut m, blocks.len() as u64);
        push_str(&mut m, " 个 script 块）");
        return Err(ExtractError { kind: ExtractErrorKind::SourceMissing, message: string_from_chars(m.as_slice()) });
    }
    let block = &blocks[idx as usize];
    match &block.content {
        Some(c) => Ok(c.as_str()),
        None => {
            let mut m: Vec<char> = Vec::new();
            push_str(&mut m, "script[");
            push_signed_decimal(&mut m, idx as i64);
            push_str(&mut m, "] 是外链脚本（src=");
            let ghost p = m@;
            match &block.src {
                Some(s) => {
                    push_str(&mut m, "Some(");
                    let d = debug_string(s.as_str());
                    push_str(&mut m, d.as_str());
                    push_str(&mut m, ")");
                    assert(m@ =~= p + debug_opt(block.src));
                },
                None => {
                    push_str(&mut m, "None");
                    assert(m@ =~= p + debug_opt(block.src));
                },
            }
            push_str(&mut m, "），无内联内容");
            assert(m@ =~= external_script_message(idx, block.src));
            Err(ExtractError { kind: ExtractErrorKind::SourceMissing, message: string_from_chars(m.as_slice()) })
        },
    }
}

impl<'a> ExtractInput<'a> {
    /// Text of the layer the input reads, with the layer's label.
    pub fn layer_text(&self) -> (r: Result<(&'a str, &'static str), ExtractError>)
        ensures
            match layer_text_spec(self@) {
                Ok((t, l)) => r matches Ok((s, lab)) && s@ == t && lab@ == l,
                Err(x) => r matches Err(e) && err_matches(e, x),
            },
    {
        match self.source_layer {
            SourceLayer::Html => Ok((self.html, "html")),
            SourceLayer::Url => Ok((self.final_url, "url")),
            SourceLayer::Script => match self.script_index {
                None => Err(ExtractError::new(ExtractErrorKind::SourceMissing, "source_layer=script 但未指定 script_index")),
                Some(idx) => match script_text_exec(self.script_blocks, idx) {
                    Ok(t) => Ok((t, "script")),
                    Err(e) => Err(e),
                },
            },
            SourceLayer::Meta | SourceLayer::Header => {
                let mut m: Vec<char> = Vec::new();
                push_str(&mut m, "source_layer=");
                push_str(&mut m, layer_debug_str(self.source_layer));
                push_str(&mut m, " 暂不支持（US4 T049-T051 实现）");
                Err(ExtractError { kind: ExtractErrorKind::UnsupportedMode, message: string_from_chars(m.as_slice()) })
            },
        }
    }
}

} // verus!

verus! {

// ---------------------------------------------------------------------------
// Messages
// ---------------------------------------------------------------------------

fn concat_str(a: &str, b: &str) -> (r: String)
    ensures
        r@ == a@ + b@,
{
    let mut m: Vec<char> = Vec::new();
    push_str(&mut m, a);
    push_str(&mut m, b);
    string_from_chars(m.as_slice())
}

fn error_with(kind: ExtractErrorKind, head: &str, tail: &str) -> (r: ExtractError)
    ensures
        r.kind == kind,
        r.message@ == head@ + tail@,
{
    ExtractError { kind, message: concat_str(head, tail) }
}


// ---------------------------------------------------------------------------
// CSS mode
// ---------------------------------------------------------------------------

/// The value a CSS hit takes from its element: the text for attribute `""`
/// or `text`, the outer HTML for `html`, else the attribute's value (empty
/// when the element lacks it).
pub open spec fn css_value(e: ElementView, attr: Seq<char>) -> Seq<char> {
    if attr == ""@ || attr == "text"@ {
        e.0
    } else if attr == "html"@ {
        e.1
    } else {
        match e.2 {
            Some(v) => v,
            None => Seq::empty(),
        }
    }
}

/// One hit per matched element, labelled `node[i]`, with the element's
/// outer HTML as context.
pub open spec fn css_hits_spec(els: Seq<ElementView>, selector: Seq<char>, attr: Seq<char>) -> Seq<HitView> {
    Seq::new(
        els.len(),
        |i: int| (css_value(els[i], attr), "css:"@ + selector, Some(index_label("node"@, i as nat)), Some(els[i].1)),
    )
}

/// Hits of a CSS rule, built from the elements its selector matched.
pub fn css_hits(elements: &[(String, String, Option<String>)], selector: &str, attr: &str) -> (r: Vec<Hit>)
    ensures
        hits_view(r@) == css_hits_spec(element_views(elements@), selector@, attr@),
{
    let frag = concat_str("css:", selector);
    let use_text = str_eq(attr, "") || str_eq(attr, "text");
    let use_html = str_eq(attr, "html");
    let ghost target = css_hits_spec(element_views(elements@), selector@, attr@);
    let mut hits: Vec<Hit> = Vec::new();
    let mut i: usize = 0;
    while i < elements.len()
        invariant
            i <= elements.len(),
            frag@ == "css:"@ + selector@,
            use_text == (attr@ == ""@ || attr@ == "text"@),
            use_html == (attr@ == "html"@),
            target == css_hits_spec(element_views(elements@), selector@, attr@),
            hits_view(hits@) == target.take(i as int),
        decreases elements.len() - i,
    {
        let e = &elements[i];
        let value = if use_text {
            e.0.clone()
        } else if use_html {
            e.1.clone()
        } else {
            match &e.2 {
                Some(v) => v.clone(),
                None => String::new(),
            }
        };
        let location = index_label_exec("node", i);
        proof {
            reveal_strlit("node");
        }
        let ghost ev = element_views(elements@)[i as int];
        assert(ev == (e.0@, e.1@, crate::html_support::opt_string_view(e.2)));
        assert(value@ == css_value(ev, attr@));
        let ghost prev = hits_view(hits@);
        let hit = Hit { value, source_fragment: frag.clone(), location: Some(location), context_html: Some(e.1.clone()) };
        assert(hit_view(hit) == target[i as int]);
        hits.push(hit);
        assert(hits_view(hits@) =~= prev.push(target[i as int]));
        assert(target.take(i + 1) =~= target.take(i as int).push(target[i as int]));
        i = i + 1;
    }
    assert(target.take(elements.len() as int) =~= target);
    hits
}

/// Result of a CSS rule: only on the HTML layer; a selector that does not
/// parse is an invalid rule.
pub open spec fn css_extract_spec(css: CssRule, input: InputView) -> Result<Seq<HitView>, ErrSpec> {
    if !(input.source_layer is Html) {
        Err((
            ExtractErrorKind::InvalidRule,
            "css 模式只能作用于 source_layer=html（当前 source_layer="@ + layer_debug(input.source_layer) + "）"@,
        ))
    } else {
        match css_select_result(input.html, css.selector@, css.attr@) {
            Err(e) => Err((ExtractErrorKind::InvalidRule, "CSS 选择器非法: "@ + e)),
            Ok(els) => Ok(css_hits_spec(els, css.selector@, css.attr@)),
        }
    }
}

fn extract_css(css: &CssRule, input: &ExtractInput) -> (r: Result<Vec<Hit>, ExtractError>)
    ensures
        match css_extract_spec(*css, input@) {
            Ok(h) => r matches Ok(v) && hits_view(v@) == h,
            Err(x) => r matches Err(e) && err_matches(e, x),
        },
{
    match input.source_layer {
        SourceLayer::Html => {},
        _ => {
            let mut m: Vec<char> = Vec::new();
            push_str(&mut m, "css 模式只能作用于 source_layer=html（当前 source_layer=");
            push_str(&mut m, layer_debug_str(input.source_layer));
            push_str(&mut m, "）");
            return Err(ExtractError { kind: ExtractErrorKind::InvalidRule, message: string_from_chars(m.as_slice()) });
        },
    }
    match css_select(input.html, css.selector.as_str(), css.attr.as_str()) {
        Ok(els) => Ok(css_hits(els.as_slice(), css.selector.as_str(), css.attr.as_str())),
        Err(msg) => {
            Err(error_with(ExtractErrorKind::InvalidRule, "CSS 选择器非法: ", msg.as_str()))
        },
    }
}

// ---------------------------------------------------------------------------
// Regex mode
// ---------------------------------------------------------------------------

/// Message for a capture group the match does not have (`n` groups besides
/// the whole match).
pub open spec fn regex_group_message(group: nat, n: nat) -> Seq<char> {
    "regex group "@ + nat_decimal(group) + " 不存在（pattern 仅有 "@ + nat_decimal(n) + " 个捕获组）"@
}

/// Hits of a regex rule from its successive matches (each given as the
/// texts of its groups): group `group` of each match, labelled `match[i]`;
/// the first match without that group makes the rule invalid.
pub open spec fn regex_hits_spec(caps: Seq<Seq<Option<Seq<char>>>>, pattern: Seq<char>, group: nat) -> Result<Seq<HitView>, ErrSpec>
    decreases caps.len(),
{
    if caps.len() == 0 {
        Ok(Seq::empty())
    } else {
        match regex_hits_spec(caps.drop_last(), pattern, group) {
            Err(e) => Err(e),
            Ok(hs) => {
                let c = caps.last();
                if group < c.len() && c[group as int] is Some {
                    Ok(hs.push(plain_hit(c[group as int]->0, "regex:"@ + pattern, index_label("match"@, (caps.len() - 1) as nat))))
                } else {
                    Err((ExtractErrorKind::InvalidRule, regex_group_message(group, (c.len() - 1) as nat)))
                }
            },
        }
    }
}

proof fn lemma_regex_hits_err_stays(caps: Seq<Seq<Option<Seq<char>>>>, pattern: Seq<char>, group: nat, j: int)
    requires
        0 <= j <= caps.len(),
        regex_hits_spec(caps.take(j), pattern, group) is Err,
    ensures
        regex_hits_spec(caps, pattern, group) == regex_hits_spec(caps.take(j), pattern, group),
    decreases caps.len() - j,
{
    if j < caps.len() {
        assert(caps.take(j + 1).drop_last() =~= caps.take(j));
        lemma_regex_hits_err_stays(caps, pattern, group, j + 1);
    } else {
        assert(caps.take(j) =~= caps);
    }
}

/// Hits of a regex rule, built from the groups of its successive matches.
pub fn regex_hits(captures: &[Vec<Option<String>>], pattern: &str, group: u32) -> (r: Result<Vec<Hit>, ExtractError>)
    requires
        forall|i: int| 0 <= i < captures@.len() ==> (#[trigger] captures@[i])@.len() >= 1,
    ensures
        match regex_hits_spec(captures_views(captures@), pattern@, group as nat) {
            Ok(h) => r matches Ok(v) && hits_view(v@) == h,
            Err(x) => r matches Err(e) && err_matches(e, x),
        },
{
    let frag = concat_str("regex:", pattern);
    let g = group as usize;
    let ghost caps = captures_views(captures@);
    let mut hits: Vec<Hit> = Vec::new();
    let mut i: usize = 0;
    assert(caps.take(0) =~= Seq::<Seq<Option<Seq<char>>>>::empty());
    assert(hits_view(hits@) =~= Seq::<HitView>::empty());
    while i < captures.len()
        invariant
            i <= captures.len(),
            caps == captures_views(captures@),
            frag@ == "regex:"@ + pattern@,
            g == group,
            forall|j: int| 0 <= j < captures@.len() ==> (#[trigger] captures@[j])@.len() >= 1,
            regex_hits_spec(caps.take(i as int), pattern@, group as nat) == Ok::<Seq<HitView>, ErrSpec>(hits_view(hits@)),
        decreases captures.len() - i,
    {
        let cap = &captures[i];
        assert(caps.take(i + 1).drop_last() =~= caps.take(i as int));
        assert(caps.take(i + 1).last() == caps[i as int]);
        let found = if g < cap.len() {
            match &cap[g] {
                Some(m) => Some(m.clone()),
                None => None,
            }
        } else {
            None
        };
        match found {
            Some(value) => {
                let location = index_label_exec("match", i);
                proof {
                    reveal_strlit("match");
                }
                let ghost prev = hits_view(hits@);
                let hit = Hit { value, source_fragment: frag.clone(), location: Some(location), context_html: None };
                assert(caps[i as int] == crate::regex_support::group_views(captures@[i as int]@));
                assert(hit_view(hit) == plain_hit(caps[i as int][g as int]->0, "regex:"@ + pattern@, index_label("match"@, i as nat)));
                hits.push(hit);
                assert(hits_view(hits@) =~= prev.push(hit_view(hit)));
            },
            None => {
                let mut m: Vec<char> = Vec::new();
                push_str(&mut m, "regex group ");
                push_decimal(&mut m, group as u64);
                push_str(&mut m, " 不存在（pattern 仅有 ");
                push_decimal(&mut m, (cap.len() - 1) as u64);
                push_str(&mut m, " 个捕获组）");
                proof {
                    lemma_regex_hits_err_stays(caps, pattern@, group as nat, i + 1);
                }
                return Err(ExtractError { kind: ExtractErrorKind::InvalidRule, message: string_from_chars(m.as_slice()) });
            },
        }
        i = i + 1;
    }
    assert(caps.take(captures.len() as int) =~= caps);
    Ok(hits)
}

/// Result of a regex rule on the text of its layer: the pattern with its
/// flags must compile.
pub open spec fn regex_extract_spec(re: RegexRule, input: InputView) -> Result<Seq<HitView>, ErrSpec> {
    match layer_text_spec(input) {
        Err(e) => Err(e),
        Ok((t, _)) => {
            let p = assembled_pattern(re.pattern@, re.flags@);
            if !regex_compiles(p) {
                Err((ExtractErrorKind::InvalidRule, "regex 编译失败: "@ + regex_error_message(p)))
            } else {
                regex_hits_spec(regex_all_captures(p, t), re.pattern@, re.group as nat)
            }
        },
    }
}

fn extract_regex(re: &RegexRule, input: &ExtractInput) -> (r: Result<Vec<Hit>, ExtractError>)
    ensures
        match regex_extract_spec(*re, input@) {
            Ok(h) => r matches Ok(v) && hits_view(v@) == h,
            Err(x) => r matches Err(e) && err_matches(e, x),
        },
{
    let (text, _label) = match input.layer_text() {
        Ok(p) => p,
        Err(e) => {
            return Err(e);
        },
    };
    let assembled = assemble_pattern(re.pattern.as_str(), re.flags.as_str());
    match regex_check(assembled.as_str()) {
        Ok(()) => {},
        Err(msg) => {
            return Err(error_with(ExtractErrorKind::InvalidRule, "regex 编译失败: ", msg.as_str()));
        },
    }
    let caps = regex_captures_all(assembled.as_str(), text);
    regex_hits(caps.as_slice(), re.pattern.as_str(), re.group)
}

} // verus!

verus! {

// ---------------------------------------------------------------------------
// JSONPath mode
// ---------------------------------------------------------------------------

/// The first position at or after `i` holding `{` or `[` from which a JSON
/// value parses (trailing text allowed).
pub open spec fn json_start_from(c: Seq<char>, i: int) -> Option<int>
    decreases c.len() - i,
{
    if i < 0 || i >= c.len() {
        None
    } else if (c[i] == '{' || c[i] == '[') && json_leading_parses(c.skip(i)) {
        Some(i)
    } else {
        json_start_from(c, i + 1)
    }
}

proof fn lemma_json_start_from(c: Seq<char>, j: int)
    ensures
        json_start_from(c, j) matches Some(i) ==> 0 <= j <= i < c.len() && json_leading_parses(c.skip(i)),
    decreases c.len() - j,
{
    if 0 <= j < c.len() {
        lemma_json_start_from(c, j + 1);
    }
}

/// The text a script's JSON value is read from, and whether it is read
/// whole: the trimmed script when it is JSON as a whole, else the script
/// from the first `{` or `[` that starts a JSON value.
pub open spec fn json_source(c: Seq<char>) -> Option<(Seq<char>, bool)> {
    if json_whole_parses(trim(c)) {
        Some((trim(c), true))
    } else {
        match json_start_from(c, 0) {
            Some(i) => Some((c.skip(i), false)),
            None => None,
        }
    }
}

/// One hit per selected node, labelled `match[i]`.
pub open spec fn json_hits_spec(values: Seq<Seq<char>>, path: Seq<char>) -> Seq<HitView> {
    Seq::new(values.len(), |i: int| plain_hit(values[i], "json_path:"@ + path, index_label("match"@, i as nat)))
}

/// Hits of a JSONPath rule, built from the nodes its path selected.
pub fn json_path_hits(values: &[String], path: &str) -> (r: Vec<Hit>)
    ensures
        hits_view(r@) == json_hits_spec(string_views(values@), path@),
{
    let frag = concat_str("json_path:", path);
    let ghost target = json_hits_spec(string_views(values@), path@);
    let mut hits: Vec<Hit> = Vec::new();
    let mut i: usize = 0;
    while i < values.len()
        invariant
            i <= values.len(),
            frag@ == "json_path:"@ + path@,
            target == json_hits_spec(string_views(values@), path@),
            hits_view(hits@) == target.take(i as int),
        decreases values.len() - i,
    {
        let location = index_label_exec("match", i);
        proof {
            reveal_strlit("match");
        }
        let ghost prev = hits_view(hits@);
        let hit = Hit { value: values[i].clone(), source_fragment: frag.clone(), location: Some(location), context_html: None };
        assert(hit_view(hit) == target[i as int]);
        hits.push(hit);
        assert(hits_view(hits@) =~= prev.push(target[i as int]));
        assert(target.take(i + 1) =~= target.take(i as int).push(target[i as int]));
        i = i + 1;
    }
    assert(target.take(values.len() as int) =~= target);
    hits
}

fn json_start_exec(c: &[char]) -> (r: Option<usize>)
    ensures
        match r {
            Some(i) => json_start_from(c@, 0) == Some(i as int),
            None => json_start_from(c@, 0) is None,
        },
{
    let mut i: usize = 0;
    while i < c.len()
        invariant
            i <= c.len(),
            json_start_from(c@, i as int) == json_start_from(c@, 0),
        decreases c.len() - i,
    {
        if c[i] == '{' || c[i] == '[' {
            let rest = slice_range(c, i, c.len());
            assert(rest@ =~= c@.skip(i as int));
            let rs = string_from_chars(rest.as_slice());
            if json_leading_ok(rs.as_str()) {
                return Some(i);
            }
        }
        i = i + 1;
    }
    None
}

/// Where the JSON value of a script's text is read from: the trimmed text
/// when it is JSON as a whole (`true`), else the text from the first `{` or
/// `[` at which a JSON value starts (`false`, trailing text allowed).
pub fn extract_json_from_text(text: &str) -> (r: Option<(String, bool)>)
    ensures
        match r {
            Some((s, w)) => json_source(text@) == Some((s@, w)) && (w ==> json_whole_parses(s@))
                && (!w ==> json_leading_parses(s@)),
            None => json_source(text@) is None,
        },
{
    let cv = chars_of(text);
    let tv = trim_chars(cv.as_slice());
    let trimmed = string_from_chars(tv.as_slice());
    if json_parse(trimmed.as_str()).is_ok() {
        return Some((trimmed, true));
    }
    match json_start_exec(cv.as_slice()) {
        Some(i) => {
            proof {
                lemma_json_start_from(cv@, 0);
            }
            let rest = slice_range(cv.as_slice(), i, cv.len());
            assert(rest@ =~= cv@.skip(i as int));
            Some((string_from_chars(rest.as_slice()), false))
        },
        None => None,
    }
}

/// Message for a script whose text holds no JSON value.
pub open spec fn no_json_message(idx: i32) -> Seq<char> {
    "script["@ + int_decimal(idx as int) + "] 内容无法解析为 JSON（含启发式提取）"@
}

/// Result of a JSONPath rule: it reads the script `script_index` selects,
/// takes its JSON value, then applies the path, which must parse.
pub open spec fn json_path_extract_spec(jp: JsonPathRule, input: InputView) -> Result<Seq<HitView>, ErrSpec> {
    match input.script_index {
        None => Err((ExtractErrorKind::SourceMissing, "json_path 模式需要 script_index（当前未指定）"@)),
        Some(idx) => match script_text(input.script_blocks, idx) {
            Err(e) => Err(e),
            Ok(c) => match json_source(c) {
                None => Err((ExtractErrorKind::SourceMissing, no_json_message(idx))),
                Some((src, whole)) => if !json_path_parses(jp.path@) {
                    Err((ExtractErrorKind::InvalidRule, "json_path 解析失败: "@ + json_path_error_message(jp.path@)))
                } else {
                    Ok(json_hits_spec(json_query_values(jp.path@, src, whole), jp.path@))
                },
            },
        },
    }
}

fn extract_by_json_path(jp: &JsonPathRule, input: &ExtractInput) -> (r: Result<Vec<Hit>, ExtractError>)
    ensures
        match json_path_extract_spec(*jp, input@) {
            Ok(h) => r matches Ok(v) && hits_view(v@) == h,
            Err(x) => r matches Err(e) && err_matches(e, x),
        },
{
    let idx = match input.script_index {
        Some(i) => i,
        None => {
            return Err(ExtractError::new(ExtractErrorKind::SourceMissing, "json_path 模式需要 script_index（当前未指定）"));
        },
    };
    let content = match script_text_exec(input.script_blocks, idx) {
        Ok(c) => c,
        Err(e) => {
            return Err(e);
        },
    };
    let (src, whole) = match extract_json_from_text(content) {
        Some(p) => p,
        None => {
            let mut m: Vec<char> = Vec::new();
            push_str(&mut m, "script[");
            push_signed_decimal(&mut m, idx as i64);
            push_str(&mut m, "] 内容无法解析为 JSON（含启发式提取）");
            return Err(ExtractError { kind: ExtractErrorKind::SourceMissing, message: string_from_chars(m.as_slice()) });
        },
    };
    match json_path_check(jp.path.as_str()) {
        Ok(()) => {},
        Err(msg) => {
            return Err(error_with(ExtractErrorKind::InvalidRule, "json_path 解析失败: ", msg.as_str()));
        },
    }
    let values = json_path_values(jp.path.as_str(), src.as_str(), whole);
    Ok(json_path_hits(values.as_slice(), jp.path.as_str()))
}

// ---------------------------------------------------------------------------
// Meta attribute mode
// ---------------------------------------------------------------------------

/// Whether a `<meta>` tag is the one `attr_name = attr_value` designates:
/// for `name`, `property` and `http-equiv` the tag's kind must agree too;
/// any other attribute name compares the key alone.
pub open spec fn meta_attr_matches(tag: MetaTag, attr_name: Seq<char>, attr_value: Seq<char>) -> bool {
    if attr_name == "name"@ {
        tag.key_kind is Name && tag.key@ == attr_value
    } else if attr_name == "property"@ {
        tag.key_kind is Property && tag.key@ == attr_value
    } else if attr_name == "http-equiv"@ {
        tag.key_kind is HttpEquiv && tag.key@ == attr_value
    } else {
        tag.key@ == attr_value
    }
}

/// `meta_attr:{name}={value}`.
pub open spec fn meta_fragment(m: MetaAttrRule) -> Seq<char> {
    "meta_attr:"@ + m.attr_name@ + "="@ + m.attr_value@
}

/// Hits of the matching tags among the first `n`, labelled by their
/// position among all tags.
pub open spec fn meta_hits_upto(metas: Seq<MetaTag>, m: MetaAttrRule, n: int) -> Seq<HitView>
    decreases n,
{
    if n <= 0 {
        Seq::empty()
    } else {
        let prev = meta_hits_upto(metas, m, n - 1);
        let tag = metas[n - 1];
        if meta_attr_matches(tag, m.attr_name@, m.attr_value@) {
            prev.push(plain_hit(tag.content@, meta_fragment(m), index_label("meta"@, (n - 1) as nat)))
        } else {
            prev
        }
    }
}

/// Result of a meta rule: the content of every matching tag; none when the
/// rule reads an attribute other than `content` (blank means `content`).
pub open spec fn meta_extract_spec(m: MetaAttrRule, metas: Seq<MetaTag>) -> Seq<HitView> {
    let key = trim(m.content_key@);
    if key.len() != 0 && key != "content"@ {
        Seq::empty()
    } else {
        meta_hits_upto(metas, m, metas.len() as int)
    }
}

fn meta_attr_matches_exec(tag: &MetaTag, attr_name: &str, attr_value: &str) -> (r: bool)
    ensures
        r == meta_attr_matches(*tag, attr_name@, attr_value@),
{
    let key_eq = str_eq(tag.key.as_str(), attr_value);
    if str_eq(attr_name, "name") {
        (match tag.key_kind { MetaKeyKind::Name => true, _ => false }) && key_eq
    } else if str_eq(attr_name, "property") {
        (match tag.key_kind { MetaKeyKind::Property => true, _ => false }) && key_eq
    } else if str_eq(attr_name, "http-equiv") {
        (match tag.key_kind { MetaKeyKind::HttpEquiv => true, _ => false }) && key_eq
    } else {
        key_eq
    }
}

fn extract_by_meta_attr(m: &MetaAttrRule, metas: &[MetaTag]) -> (r: Vec<Hit>)
    ensures
        hits_view(r@) == meta_extract_spec(*m, metas@),
{
    let mut hits: Vec<Hit> = Vec::new();
    let kv = chars_of(m.content_key.as_str());
    let key = trim_chars(kv.as_slice());
    let content_lit = chars_of("content");
    if key.len() != 0 && !seq_eq(key.as_slice(), content_lit.as_slice()) {
        assert(hits_view(hits@) =~= Seq::<HitView>::empty());
        return hits;
    }
    let mut fv: Vec<char> = Vec::new();
    push_str(&mut fv, "meta_attr:");
    push_str(&mut fv, m.attr_name.as_str());
    push_str(&mut fv, "=");
    push_str(&mut fv, m.attr_value.as_str());
    let frag = string_from_chars(fv.as_slice());
    let mut i: usize = 0;
    assert(hits_view(hits@) =~= Seq::<HitView>::empty());
    while i < metas.len()
        invariant
            i <= metas.len(),
            frag@ == meta_fragment(*m),
            hits_view(hits@) == meta_hits_upto(metas@, *m, i as int),
        decreases metas.len() - i,
    {
        let tag = &metas[i];
        if meta_attr_matches_exec(tag, m.attr_name.as_str(), m.attr_value.as_str()) {
            let location = index_label_exec("meta", i);
            proof {
                reveal_strlit("meta");
            }
            let ghost prev = hits_view(hits@);
            let hit = Hit { value: tag.content.clone(), source_fragment: frag.clone(), location: Some(location), context_html: None };
            hits.push(hit);
            assert(hits_view(hits@) =~= prev.push(hit_view(hit)));
        }
        i = i + 1;
    }
    hits
}

// ---------------------------------------------------------------------------
// Header mode
// ---------------------------------------------------------------------------

/// Hits of the headers among the first `n` whose name equals the rule's
/// after Unicode lower-casing, labelled by their position.
pub open spec fn header_hits_upto(headers: Seq<(Seq<char>, Seq<char>)>, h: HeaderFieldRule, n: int) -> Seq<HitView>
    decreases n,
{
    if n <= 0 {
        Seq::empty()
    } else {
        let prev = header_hits_upto(headers, h, n - 1);
        let kv = headers[n - 1];
        if unicode_lowercase(kv.0) == unicode_lowercase(h.header_name@) {
            prev.push(plain_hit(kv.1, "header_field:"@ + h.header_name@, index_label("header"@, (n - 1) as nat)))
        } else {
            prev
        }
    }
}

/// Result of a header rule: the value of every header of that name, in the
/// order the headers are given.
pub open spec fn header_extract_spec(h: HeaderFieldRule, headers: Seq<(Seq<char>, Seq<char>)>) -> Seq<HitView> {
    header_hits_upto(headers, h, headers.len() as int)
}

fn extract_by_header_field(h: &HeaderFieldRule, headers: &[(String, String)]) -> (r: Vec<Hit>)
    ensures
        hits_view(r@) == header_extract_spec(*h, pairs_view(headers@)),
{
    let lower = str_to_lowercase(h.header_name.as_str());
    let frag = concat_str("header_field:", h.header_name.as_str());
    let mut hits: Vec<Hit> = Vec::new();
    let mut i: usize = 0;
    assert(hits_view(hits@) =~= Seq::<HitView>::empty());
    while i < headers.len()
        invariant
            i <= headers.len(),
            lower@ == unicode_lowercase(h.header_name@),
            frag@ == "header_field:"@ + h.header_name@,
            hits_view(hits@) == header_hits_upto(pairs_view(headers@), *h, i as int),
        decreases headers.len() - i,
    {
        let kv = &headers[i];
        assert(pairs_view(headers@)[i as int] == (kv.0@, kv.1@));
        let k = str_to_lowercase(kv.0.as_str());
        if str_eq(k.as_str(), lower.as_str()) {
            let location = index_label_exec("header", i);
            proof {
                reveal_strlit("header");
            }
            let ghost prev = hits_view(hits@);
            let hit = Hit { value: kv.1.clone(), source_fragment: frag.clone(), location: Some(location), context_html: None };
            hits.push(hit);
            assert(hits_view(hits@) =~= prev.push(hit_view(hit)));
        }
        i = i + 1;
    }
    hits
}

} // verus!

verus! {

// ---------------------------------------------------------------------------
// Entry point
// ---------------------------------------------------------------------------

/// What [`extract`] gives for a rule: its hits or its error; `None` for a
/// prefix/suffix rule whose scan would slice its text off character
/// boundaries. `follow_url` and `script` rules need the asynchronous path
/// and are refused here.
pub open spec fn extract_spec(rule: Rule, input: InputView) -> Option<Result<Seq<HitView>, ErrSpec>> {
    match rule {
        Rule::Css(c) => Some(css_extract_spec(c, input)),
        Rule::Regex(re) => Some(regex_extract_spec(re, input)),
        Rule::PrefixSuffix(ps) => match layer_text_spec(input) {
            Err(e) => Some(Err(e)),
            Ok((t, _)) => match prefix_suffix_spec(ps, t) {
                Some(h) => Some(Ok(h)),
                None => None,
            },
        },
        Rule::JsonPath(jp) => Some(json_path_extract_spec(jp, input)),
        Rule::MetaAttr(m) => Some(Ok(meta_extract_spec(m, input.metas))),
        Rule::HeaderField(h) => Some(Ok(header_extract_spec(h, input.headers))),
        Rule::FollowUrl(_) => Some(Err((
            ExtractErrorKind::UnsupportedMode,
            "follow_url 需 async 两阶段提取（中转 URL → fetch → 子规则提取），extractor 同步路径不支持，请通过 probe/engine 调用"@,
        ))),
        Rule::Script(_) => Some(Err((
            ExtractErrorKind::UnsupportedMode,
            "script 模式需 async 沙箱求值（rquickjs），extractor 同步路径不支持，由 script_runner::run_script 在 engine/probe 调用"@,
        ))),
    }
}

/// `r` is what `extract_spec` states.
pub open spec fn extract_agrees(r: Result<Vec<Hit>, ExtractError>, x: Result<Seq<HitView>, ErrSpec>) -> bool {
    match x {
        Ok(h) => r matches Ok(v) && hits_view(v@) == h,
        Err(x) => r matches Err(e) && err_matches(e, x),
    }
}

/// Hits of `rule` on the layer of `input` (meta and header rules read the
/// page's tags and headers directly).
pub fn extract(rule: &Rule, input: &ExtractInput) -> (r: Result<Vec<Hit>, ExtractError>)
    requires
        extract_spec(*rule, input@) is Some,
    ensures
        extract_agrees(r, extract_spec(*rule, input@)->0),
{
    match rule {
        Rule::Css(c) => extract_css(c, input),
        Rule::Regex(re) => extract_regex(re, input),
        Rule::PrefixSuffix(ps) => {
            let (text, _label) = match input.layer_text() {
                Ok(p) => p,
                Err(e) => {
                    return Err(e);
                },
            };
            match extract_prefix_suffix(ps, text) {
                Some(h) => Ok(h),
                None => vstd::pervasive::unreached(),
            }
        },
        Rule::JsonPath(jp) => extract_by_json_path(jp, input),
        Rule::MetaAttr(m) => Ok(extract_by_meta_attr(m, input.metas)),
        Rule::HeaderField(h) => Ok(extract_by_header_field(h, input.headers)),
        Rule::FollowUrl(_) => Err(ExtractError::new(
            ExtractErrorKind::UnsupportedMode,
            "follow_url 需 async 两阶段提取（中转 URL → fetch → 子规则提取），extractor 同步路径不支持，请通过 probe/engine 调用",
        )),
        Rule::Script(_) => Err(ExtractError::new(
            ExtractErrorKind::UnsupportedMode,
            "script 模式需 async 沙箱求值（rquickjs），extractor 同步路径不支持，由 script_runner::run_script 在 engine/probe 调用",
        )),
    }
}

/// [`extract`] on any rule: `None` exactly where a prefix/suffix scan would
/// slice its text off character boundaries.
pub fn try_extract(rule: &Rule, input: &ExtractInput) -> (r: Option<Result<Vec<Hit>, ExtractError>>)
    ensures
        match extract_spec(*rule, input@) {
            Some(x) => r matches Some(res) && extract_agrees(res, x),
            None => r is None,
        },
{
    if let Rule::PrefixSuffix(ps) = rule {
        let (text, _label) = match input.layer_text() {
            Ok(p) => p,
            Err(e) => {
                return Some(Err(e));
            },
        };
        if extract_prefix_suffix(ps, text).is_none() {
            return None;
        }
    }
    Some(extract(rule, input))
}

} // verus!

verus! {

// ---------------------------------------------------------------------------
// Properties of the post-processing steps
// ---------------------------------------------------------------------------

/// No two hits share a value.
pub open spec fn values_distinct(s: Seq<HitView>) -> bool {
    forall|i: int, j: int| 0 <= i < j < s.len() ==> #[trigger] s[i].0 != #[trigger] s[j].0
}

/// After de-duplication no two hits share a value.
pub proof fn lemma_dedupe_distinct(s: Seq<HitView>)
    ensures
        values_distinct(dedupe_hits(s)),
    decreases s.len(),
{
    if s.len() > 0 {
        let p = s.drop_last();
        lemma_dedupe_distinct(p);
        let r = dedupe_hits(p);
        if !(exists|j: int| 0 <= j < s.len() - 1 && s[j].0 == s.last().0) {
            let d = r.push(s.last());
            assert forall|i: int, j: int| 0 <= i < j < d.len() implies #[trigger] d[i].0 != #[trigger] d[j].0 by {
                if j == r.len() {
                    if d[i].0 == s.last().0 {
                        assert(has_value(r, s.last().0)) by {
                            assert(r[i].0 == s.last().0);
                        }
                        lemma_dedupe_values(p, s.last().0);
                        let k = choose|k: int| 0 <= k < p.len() && #[trigger] p[k].0 == s.last().0;
                        assert(s[k].0 == s.last().0);
                    }
                } else {
                    assert(d[i] == r[i] && d[j] == r[j]);
                }
            }
        }
    }
}

/// Hits whose values are already distinct are kept as they are.
pub proof fn lemma_dedupe_of_distinct(s: Seq<HitView>)
    requires
        values_distinct(s),
    ensures
        dedupe_hits(s) == s,
    decreases s.len(),
{
    if s.len() > 0 {
        let p = s.drop_last();
        assert(values_distinct(p)) by {
            assert forall|i: int, j: int| 0 <= i < j < p.len() implies #[trigger] p[i].0 != #[trigger] p[j].0 by {
                assert(p[i] == s[i] && p[j] == s[j]);
            }
        }
        lemma_dedupe_of_distinct(p);
        assert(!(exists|j: int| 0 <= j < s.len() - 1 && s[j].0 == s.last().0)) by {
            assert forall|j: int| 0 <= j < s.len() - 1 implies s[j].0 != s.last().0 by {
                assert(s[j].0 != s[s.len() - 1].0);
            }
        }
        assert(p.push(s.last()) =~= s);
    }
}

/// De-duplicating twice is de-duplicating once.
pub proof fn lemma_dedupe_idempotent(s: Seq<HitView>)
    ensures
        dedupe_hits(dedupe_hits(s)) == dedupe_hits(s),
{
    lemma_dedupe_distinct(s);
    lemma_dedupe_of_distinct(dedupe_hits(s));
}

/// Trimming the hits twice is trimming them once.
pub proof fn lemma_trim_step_idempotent(hs: Seq<HitView>, base: Seq<char>)
    ensures
        apply_op(apply_op(hs, PostProcessorOp::Trim, base), PostProcessorOp::Trim, base)
            == apply_op(hs, PostProcessorOp::Trim, base),
{
    let once = apply_op(hs, PostProcessorOp::Trim, base);
    let twice = apply_op(once, PostProcessorOp::Trim, base);
    assert forall|i: int| 0 <= i < hs.len() implies twice[i] == once[i] by {
        crate::text::lemma_trim_idempotent(hs[i].0);
    }
    assert(twice =~= once);
}

/// After `first` at most one hit is left, and it is the first one.
pub proof fn lemma_first_keeps_first(hs: Seq<HitView>, base: Seq<char>)
    ensures
        apply_op(hs, PostProcessorOp::First, base).len() <= 1,
        hs.len() > 0 ==> apply_op(hs, PostProcessorOp::First, base) == seq![hs[0]],
{
    if hs.len() > 0 {
        assert(apply_op(hs, PostProcessorOp::First, base) =~= seq![hs[0]]);
    }
}

} // verus!
