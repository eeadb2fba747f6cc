//! Crawl-run helpers: URL resolution against a base, the page-stop rule of
//! incremental crawling, URL-template pagination and field lookups.
use vstd::prelude::*;
use crate::extractor::{
    apply_ops, apply_post_processors, extract_spec, hit_view, hits_view, material_input, opt_str,
    try_extract, ExtractInput, Hit, HitView, InputView, hit_value,
};
use crate::field_schema::{FieldNodeSpec, FieldTree, FieldTreeNode, FieldType, PostProcessor, Rule, SourceLayer};
use crate::source_layer::{make_sub_material_from_hit, pairs_view, SourceMaterial};
use crate::text::{
    chars_of, contains, contains_exec, find, find_exec, find_char, first_char, int_decimal,
    last_char, push_all, push_signed_decimal, push_str, rfind_char, seq_eq, slice_range,
    starts_with, starts_with_exec, string_from_chars, is_first_match, nat_decimal, push_decimal,
    contains_char, is_ws, is_ws_exec, str_eq, trim, trim_chars, join,
};
use crate::url_normalize::{normalize_url, normalize_url_spec};
use crate::json_support::{entries_view, entry_view, json_object_string, json_object_text, string_views, EntryView, ExtraValue};
use crate::html_support::{css_select, css_select_result, element_views, ElementView};

verus! {

/// `href` resolved against `base`: absolute `http(s)` URLs unchanged;
/// `/path` against the origin of `base`; other paths against the directory
/// of `base`'s path; a base without a path gets `/` before `href`; a base
/// without `://` leaves `href` unchanged.
pub open spec fn resolve_url_spec(href: Seq<char>, base: Seq<char>) -> Seq<char> {
    if starts_with(href, "http://"@) || starts_with(href, "https://"@) {
        href
    } else {
        match find(base, "://"@) {
            None => href,
            Some(idx) => {
                let after = base.skip(idx + 3);
                match first_char(after, '/') {
                    None => base + seq!['/'] + href,
                    Some(slash) => {
                        let origin = base.take(idx + 3 + slash);
                        if starts_with(href, seq!['/']) {
                            origin + seq!['/'] + href.skip(1)
                        } else {
                            let base_path = after.skip(slash);
                            match last_char(base_path, '/') {
                                Some(ls) => origin + base_path.take(ls + 1) + href,
                                None => origin + seq!['/'] + href,
                            }
                        }
                    },
                }
            },
        }
    }
}

fn lit_prefix(h: &[char], lit: &str) -> (r: bool)
    ensures
        r == starts_with(h@, lit@),
{
    let l = chars_of(lit);
    starts_with_exec(h, l.as_slice())
}

/// `href` resolved against `base` on character vectors.
pub fn resolve_url_chars(href: &[char], base: &[char]) -> (r: Vec<char>)
    ensures
        r@ == resolve_url_spec(href@, base@),
{
    if lit_prefix(href, "http://") || lit_prefix(href, "https://") {
        return slice_range(href, 0, href.len());
    }
    proof {
        reveal_strlit("://");
    }
    let sep = chars_of("://");
    assert(sep@.len() == 3);
    let idx = match find_exec(base, sep.as_slice()) {
        Some(i) => i,
        None => {
            let r = slice_range(href, 0, href.len());
            assert(r@ =~= href@);
            return r;
        },
    };
    assert(idx + 3 <= base.len());
    let after = slice_range(base, idx + 3, base.len());
    assert(after@ =~= base@.skip(idx + 3));
    let mut out: Vec<char> = Vec::new();
    match find_char(after.as_slice(), '/') {
        None => {
            push_all(&mut out, base);
            out.push('/');
            push_all(&mut out, href);
            assert(out@ =~= base@ + seq!['/'] + href@);
        },
        Some(slash) => {
            let origin = slice_range(base, 0, idx + 3 + slash);
            assert(origin@ =~= base@.take(idx + 3 + slash));
            push_all(&mut out, origin.as_slice());
            if href.len() > 0 && href[0] == '/' {
                assert(href@.take(1) =~= seq!['/']);
                assert(starts_with(href@, seq!['/']));
                out.push('/');
                let tail = slice_range(href, 1, href.len());
                push_all(&mut out, tail.as_slice());
                assert(tail@ =~= href@.skip(1));
                assert(out@ =~= origin@ + seq!['/'] + href@.skip(1));
            } else {
                assert(!starts_with(href@, seq!['/'])) by {
                    if href@.len() > 0 {
                        assert(href@.take(1)[0] == href@[0]);
                    }
                }
                let base_path = slice_range(after.as_slice(), slash, after.len());
                assert(base_path@ =~= after@.skip(slash as int));
                match rfind_char(base_path.as_slice(), '/') {
                    Some(ls) => {
                        let dir = slice_range(base_path.as_slice(), 0, ls + 1);
                        assert(dir@ =~= base_path@.take(ls + 1));
                        push_all(&mut out, dir.as_slice());
                        push_all(&mut out, href);
                    },
                    None => {
                        out.push('/');
                        push_all(&mut out, href);
                    },
                }
            }
        },
    }
    out
}

/// Relative URL to absolute URL against `base`; absolute URLs unchanged.
pub fn resolve_url(href: &str, base: &str) -> (r: String)
    ensures
        r@ == resolve_url_spec(href@, base@),
{
    let h = chars_of(href);
    let b = chars_of(base);
    let r = resolve_url_chars(h.as_slice(), b.as_slice());
    string_from_chars(r.as_slice())
}

/// The early-stop rule of incremental crawling: a page without new
/// articles adds one to the count of consecutive empty pages, any new
/// article resets it; crawling stops when the count reaches `limit`.
/// With `force_full` it never stops and the count is left alone.
pub fn should_stop_after_page(
    force_full: bool,
    new_before: i64,
    new_after: i64,
    empty_pages: &mut i64,
    limit: i64,
) -> (stop: bool)
    requires
        i64::MIN <= new_after - new_before <= i64::MAX,
        new_after == new_before ==> *old(empty_pages) < i64::MAX,
    ensures
        force_full ==> !stop && *final(empty_pages) == *old(empty_pages),
        !force_full && new_after == new_before ==> *final(empty_pages) == *old(empty_pages) + 1
            && stop == (*final(empty_pages) >= limit),
        !force_full && new_after != new_before ==> *final(empty_pages) == 0 && !stop,
{
    if force_full {
        return false;
    }
    if new_after - new_before == 0 {
        *empty_pages += 1;
        *empty_pages >= limit
    } else {
        *empty_pages = 0;
        false
    }
}

/// The page placeholder of URL templates.
pub open spec fn page_placeholder() -> Seq<char> {
    "{page}"@
}

/// `template` with its single `{page}` replaced by `page`, resolved against
/// `base_url`; `None` unless the template holds exactly one `{page}`.
pub open spec fn build_template_url_spec(template: Seq<char>, page: int, base_url: Seq<char>) -> Option<Seq<char>> {
    match find(template, page_placeholder()) {
        None => None,
        Some(i) => if contains(template.skip(i + 6), page_placeholder()) {
            None
        } else {
            Some(resolve_url_spec(template.take(i) + int_decimal(page) + template.skip(i + 6), base_url))
        },
    }
}

/// URL of page `page` from a template with one `{page}` placeholder,
/// made absolute against `base_url`.
pub fn build_template_url(template: &str, page: i64, base_url: &str) -> (r: Option<String>)
    ensures
        match r {
            Some(u) => build_template_url_spec(template@, page as int, base_url@) == Some(u@),
            None => build_template_url_spec(template@, page as int, base_url@) is None,
        },
{
    proof {
        reveal_strlit("{page}");
    }
    let t = chars_of(template);
    let ph = chars_of("{page}");
    assert(ph@.len() == 6);
    let i = match find_exec(t.as_slice(), ph.as_slice()) {
        Some(i) => i,
        None => return None,
    };
    assert(i + 6 <= t.len());
    let rest = slice_range(t.as_slice(), i + 6, t.len());
    assert(rest@ =~= t@.skip(i + 6));
    if contains_exec(rest.as_slice(), ph.as_slice()) {
        return None;
    }
    let mut filled: Vec<char> = Vec::new();
    let head = slice_range(t.as_slice(), 0, i);
    assert(head@ =~= t@.take(i as int));
    push_all(&mut filled, head.as_slice());
    push_signed_decimal(&mut filled, page);
    push_all(&mut filled, rest.as_slice());
    let b = chars_of(base_url);
    let r = resolve_url_chars(filled.as_slice(), b.as_slice());
    Some(string_from_chars(r.as_slice()))
}

/// Extraction result of one field in one context.
#[derive(Debug, Clone, Default)]
pub struct FieldExtraction {
    /// Materialised path such as `/list_page/link_card/title`.
    pub field_path: String,
    pub field_node_id: Option<i64>,
    pub scope: String,
    /// Hits after post-processing; empty when nothing matched.
    pub hits: Vec<Hit>,
    /// Extraction error, if any.
    pub error: Option<String>,
}

/// The last `/`-separated segment of a path.
pub open spec fn last_segment(p: Seq<char>) -> Seq<char> {
    match last_char(p, '/') {
        Some(i) => p.skip(i + 1),
        None => p,
    }
}

/// The first value of the first extraction whose last path segment is
/// `name` and that has hits.
pub open spec fn find_first_value_spec(exts: Seq<FieldExtraction>, name: Seq<char>) -> Option<Seq<char>>
    decreases exts.len(),
{
    if exts.len() == 0 {
        None
    } else if last_segment(exts[0].field_path@) == name && exts[0].hits@.len() > 0 {
        Some(hit_value(exts[0].hits@[0]))
    } else {
        find_first_value_spec(exts.drop_first(), name)
    }
}

/// The first hit value of the field named `name`.
pub fn find_first_value(extractions: &[FieldExtraction], name: &str) -> (r: Option<String>)
    ensures
        match r {
            Some(v) => find_first_value_spec(extractions@, name@) == Some(v@),
            None => find_first_value_spec(extractions@, name@) is None,
        },
{
    let nv = chars_of(name);
    let mut i: usize = 0;
    assert(extractions@.skip(0) =~= extractions@);
    while i < extractions.len()
        invariant
            i <= extractions.len(),
            nv@ == name@,
            find_first_value_spec(extractions@, name@) == find_first_value_spec(extractions@.skip(i as int), name@),
        decreases extractions.len() - i,
    {
        let ext = &extractions[i];
        let p = chars_of(ext.field_path.as_str());
        let last = match rfind_char(p.as_slice(), '/') {
            Some(k) => slice_range(p.as_slice(), k + 1, p.len()),
            None => slice_range(p.as_slice(), 0, p.len()),
        };
        assert(last@ =~= last_segment(ext.field_path@));
        assert(extractions@.skip(i as int)[0] == *ext);
        assert(extractions@.skip(i as int).drop_first() =~= extractions@.skip(i + 1));
        if seq_eq(last.as_slice(), nv.as_slice()) && ext.hits.len() > 0 {
            return Some(ext.hits[0].value.clone());
        }
        i = i + 1;
    }
    None
}

} // verus!

verus! {

// ---------------------------------------------------------------------------
// Extracting the fields of a page
// ---------------------------------------------------------------------------

/// Message of a `follow_url` field met on the synchronous path.
pub open spec fn follow_url_skipped_message() -> Seq<char> {
    "follow_url 由异步两阶段提取处理，同步路径跳过"@
}

/// One rule on one input, then its post-processors: the hits, or no hits
/// and the error message. `follow_url` rules are left to the asynchronous
/// path. `None` where the extraction would panic.
pub open spec fn extract_one_spec(rule: Rule, input: InputView, pps: Seq<PostProcessor>, base: Seq<char>) -> Option<(Seq<HitView>, Option<Seq<char>>)> {
    match rule {
        Rule::FollowUrl(_) => Some((Seq::empty(), Some(follow_url_skipped_message()))),
        _ => match extract_spec(rule, input) {
            None => None,
            Some(Ok(h)) => Some((apply_ops(h, pps, base), None)),
            Some(Err(x)) => Some((Seq::empty(), Some(x.1))),
        },
    }
}

/// [`extract_one`]'s result against its statement.
pub open spec fn one_agrees(r: Option<(Vec<Hit>, Option<String>)>, x: Option<(Seq<HitView>, Option<Seq<char>>)>) -> bool {
    match x {
        None => r is None,
        Some((h, e)) => r matches Some((v, m)) && hits_view(v@) == h && opt_str(m) == e,
    }
}

/// Extraction of one rule on a layer of `material`, post-processed
/// against `base_url`: the hits and the error message, if any.
pub fn extract_one(
    rule: &Rule,
    layer: SourceLayer,
    material: &SourceMaterial,
    script_index: Option<i32>,
    post_processors: &[PostProcessor],
    base_url: &str,
) -> (r: Option<(Vec<Hit>, Option<String>)>)
    ensures
        one_agrees(r, extract_one_spec(*rule, material_input(*material, script_index, layer), post_processors@, base_url@)),
{
    if let Rule::FollowUrl(_) = rule {
        let empty: Vec<Hit> = Vec::new();
        assert(hits_view(empty@) =~= Seq::<HitView>::empty());
        return Some((empty, Some(String::from_str("follow_url 由异步两阶段提取处理，同步路径跳过"))));
    }
    let input = ExtractInput::from_material(material, script_index).with_layer(layer);
    match try_extract(rule, &input) {
        None => None,
        Some(Ok(hits)) => {
            let processed = apply_post_processors(hits, post_processors, base_url);
            Some((processed, None))
        },
        Some(Err(e)) => {
            let empty: Vec<Hit> = Vec::new();
            assert(hits_view(empty@) =~= Seq::<HitView>::empty());
            Some((empty, Some(e.message)))
        },
    }
}

/// A hit of a child field under parent hit `i`: its location becomes
/// `parent[i]`, followed by `::` and the old location when it had one.
pub open spec fn relabel(h: HitView, i: nat) -> HitView {
    (
        h.0,
        h.1,
        Some(
            "parent["@ + nat_decimal(i) + "]"@ + match h.2 {
                Some(l) => "::"@ + l,
                None => Seq::<char>::empty(),
            },
        ),
        h.3,
    )
}

pub open spec fn relabel_all(hs: Seq<HitView>, i: nat) -> Seq<HitView> {
    Seq::new(hs.len(), |k: int| relabel(hs[k], i))
}

/// The input a child rule reads under a parent hit: the hit's outer HTML
/// (else its value) as the page, no scripts or tags, the parent page's
/// headers and URL.
pub open spec fn sub_input(h: HitView, m: SourceMaterial, si: Option<i32>, layer: SourceLayer) -> InputView {
    InputView {
        source_layer: layer,
        html: match h.3 {
            Some(c) => c,
            None => h.0,
        },
        script_blocks: Seq::empty(),
        metas: Seq::empty(),
        headers: pairs_view(m.headers@),
        final_url: m.final_url@,
        script_index: si,
    }
}

/// A child field run under the first `n` parent hits: the relabelled hits
/// in parent order, and the last error met.
pub open spec fn child_hits_upto(s: FieldNodeSpec, m: SourceMaterial, parents: Seq<HitView>, n: int) -> Option<(Seq<HitView>, Option<Seq<char>>)>
    decreases n,
{
    if n <= 0 {
        Some((Seq::empty(), None))
    } else {
        match child_hits_upto(s, m, parents, n - 1) {
            None => None,
            Some((acc, err)) => match extract_one_spec(
                s.rule,
                sub_input(parents[n - 1], m, s.script_index, s.source_layer),
                s.post_processors@,
                m.final_url@,
            ) {
                None => None,
                Some((hs, e)) => Some((acc + relabel_all(hs, (n - 1) as nat), if e is Some { e } else { err })),
            },
        }
    }
}

proof fn lemma_child_none_stays(s: FieldNodeSpec, m: SourceMaterial, parents: Seq<HitView>, j: int, n: int)
    requires
        0 <= j <= n,
        child_hits_upto(s, m, parents, j) is None,
    ensures
        child_hits_upto(s, m, parents, n) is None,
    decreases n - j,
{
    if j < n {
        lemma_child_none_stays(s, m, parents, j, n - 1);
    }
}

/// Field types whose values are URLs, made absolute after extraction.
pub open spec fn is_url_like(t: FieldType) -> bool {
    t is Url || t is LinkCard || t is Pagination || t is Image
}

pub open spec fn absolutize_all(hs: Seq<HitView>, base: Seq<char>) -> Seq<HitView> {
    Seq::new(hs.len(), |k: int| (resolve_url_spec(hs[k].0, base), hs[k].1, hs[k].2, hs[k].3))
}

/// The hits of one field: on the whole page for a top-level field, else
/// under each parent hit; URL-like values made absolute.
pub open spec fn node_hits(s: FieldNodeSpec, m: SourceMaterial, parents: Seq<HitView>) -> Option<(Seq<HitView>, Option<Seq<char>>)> {
    let raw = if parents.len() == 0 {
        extract_one_spec(s.rule, material_input(m, s.script_index, s.source_layer), s.post_processors@, m.final_url@)
    } else {
        child_hits_upto(s, m, parents, parents.len() as int)
    };
    match raw {
        None => None,
        Some((hs, e)) => Some((if is_url_like(s.field_type) { absolutize_all(hs, m.final_url@) } else { hs }, e)),
    }
}

/// A field extraction as views: path, node id, scope, hits, error.
pub type ExtView = (Seq<char>, Option<i64>, Seq<char>, Seq<HitView>, Option<Seq<char>>);

pub open spec fn extraction_view(e: FieldExtraction) -> ExtView {
    (e.field_path@, e.field_node_id, e.scope@, hits_view(e.hits@), opt_str(e.error))
}

pub open spec fn extractions_view(v: Seq<FieldExtraction>) -> Seq<ExtView> {
    Seq::new(v.len(), |i: int| extraction_view(v[i]))
}

/// The extractions of a node and its subtree: nothing for an inactive
/// node; else its own extraction at `parent_path/name`, then its children
/// run under its hits.
pub open spec fn node_extractions(n: FieldTreeNode, m: SourceMaterial, parents: Seq<HitView>, scope: Seq<char>, parent_path: Seq<char>) -> Option<Seq<ExtView>>
    decreases n, 1int,
{
    if !n.spec.is_active {
        Some(Seq::empty())
    } else {
        let path = parent_path + "/"@ + n.spec.name@;
        match node_hits(n.spec, m, parents) {
            None => None,
            Some((hs, e)) => {
                proof {
                    assert(decreases_to!(n => n.children));
                    assert(decreases_to!(n.children => n.children@));
                }
                match layer_extractions(n.children@, m, hs, scope, path) {
                    None => None,
                    Some(rest) => Some(seq![(path, n.spec.id, scope, hs, e)] + rest),
                }
            },
        }
    }
}

/// The extractions of sibling nodes, in order.
pub open spec fn layer_extractions(nodes: Seq<FieldTreeNode>, m: SourceMaterial, parents: Seq<HitView>, scope: Seq<char>, parent_path: Seq<char>) -> Option<Seq<ExtView>>
    decreases nodes, 0int,
{
    if nodes.len() == 0 {
        Some(Seq::empty())
    } else {
        proof {
            assert(decreases_to!(nodes => nodes[0]));
            assert(decreases_to!(nodes => nodes.subrange(1, nodes.len() as int)));
        }
        match node_extractions(nodes[0], m, parents, scope, parent_path) {
            None => None,
            Some(a) => match layer_extractions(nodes.subrange(1, nodes.len() as int), m, parents, scope, parent_path) {
                None => None,
                Some(b) => Some(a + b),
            },
        }
    }
}

fn relabel_exec(h: &Hit, i: usize) -> (r: Hit)
    ensures
        hit_view(r) == relabel(hit_view(*h), i as nat),
{
    let mut m: Vec<char> = Vec::new();
    push_str(&mut m, "parent[");
    push_decimal(&mut m, i as u64);
    push_str(&mut m, "]");
    let ghost p = m@;
    match &h.location {
        Some(l) => {
            push_str(&mut m, "::");
            push_str(&mut m, l.as_str());
        },
        None => {},
    }
    proof {
        reveal_strlit("::");
    }
    assert(m@ =~= p + match opt_str(h.location) {
        Some(l) => "::"@ + l,
        None => Seq::<char>::empty(),
    });
    Hit {
        value: h.value.clone(),
        source_fragment: h.source_fragment.clone(),
        location: Some(string_from_chars(m.as_slice())),
        context_html: match &h.context_html {
            Some(c) => Some(c.clone()),
            None => None,
        },
    }
}

/// A child field run under every parent hit.
fn child_hits(
    s: &FieldNodeSpec,
    material: &SourceMaterial,
    parent_hits: &[Hit],
) -> (r: Option<(Vec<Hit>, Option<String>)>)
    ensures
        match child_hits_upto(*s, *material, hits_view(parent_hits@), parent_hits@.len() as int) {
            None => r is None,
            Some((h, e)) => r matches Some((v, m)) && hits_view(v@) == h && opt_str(m) == e,
        },
{
    let ghost parents = hits_view(parent_hits@);
    let mut combined: Vec<Hit> = Vec::new();
    let mut last_err: Option<String> = None;
    let mut i: usize = 0;
    assert(hits_view(combined@) =~= Seq::<HitView>::empty());
    while i < parent_hits.len()
        invariant
            i <= parent_hits.len(),
            parents == hits_view(parent_hits@),
            child_hits_upto(*s, *material, parents, i as int) == Some::<(Seq<HitView>, Option<Seq<char>>)>((hits_view(combined@), opt_str(last_err))),
        decreases parent_hits.len() - i,
    {
        let ph = &parent_hits[i];
        let sub = make_sub_material_from_hit(ph, material);
        proof {
            crate::source_layer::lemma_sub_material_input(*ph, *material, sub, s.script_index, s.source_layer);
        }
        let one = extract_one(&s.rule, s.source_layer, &sub, s.script_index, s.post_processors.as_slice(), material.final_url.as_str());
        match one {
            None => {
                proof {
                    lemma_child_none_stays(*s, *material, parents, i + 1, parent_hits@.len() as int);
                }
                return None;
            },
            Some((hs, e)) => {
                let ghost hv = hits_view(hs@);
                let ghost before = hits_view(combined@);
                let mut k: usize = 0;
                while k < hs.len()
                    invariant
                        k <= hs.len(),
                        hv == hits_view(hs@),
                        hits_view(combined@) == before + relabel_all(hv, i as nat).take(k as int),
                    decreases hs.len() - k,
                {
                    let ghost pre = hits_view(combined@);
                    let rh = relabel_exec(&hs[k], i);
                    combined.push(rh);
                    assert(hits_view(combined@) =~= pre.push(relabel(hv[k as int], i as nat)));
                    assert(relabel_all(hv, i as nat).take(k + 1) =~= relabel_all(hv, i as nat).take(k as int).push(relabel(hv[k as int], i as nat)));
                    k = k + 1;
                }
                assert(relabel_all(hv, i as nat).take(k as int) =~= relabel_all(hv, i as nat));
                if e.is_some() {
                    last_err = e;
                }
            },
        }
        i = i + 1;
    }
    Some((combined, last_err))
}

/// Hit values made absolute against `base`.
pub fn absolutize_hits(hits: Vec<Hit>, base: &str) -> (r: Vec<Hit>)
    ensures
        hits_view(r@) == absolutize_all(hits_view(hits@), base@),
{
    let ghost hv = hits_view(hits@);
    let mut out: Vec<Hit> = Vec::new();
    let mut k: usize = 0;
    while k < hits.len()
        invariant
            k <= hits.len(),
            hv == hits_view(hits@),
            hits_view(out@) == absolutize_all(hv, base@).take(k as int),
        decreases hits.len() - k,
    {
        let h = &hits[k];
        let value = resolve_url(h.value.as_str(), base);
        let ghost pre = hits_view(out@);
        out.push(Hit {
            value,
            source_fragment: h.source_fragment.clone(),
            location: match &h.location {
                Some(l) => Some(l.clone()),
                None => None,
            },
            context_html: match &h.context_html {
                Some(c) => Some(c.clone()),
                None => None,
            },
        });
        assert(hits_view(out@) =~= pre.push(absolutize_all(hv, base@)[k as int]));
        assert(absolutize_all(hv, base@).take(k + 1) =~= absolutize_all(hv, base@).take(k as int).push(absolutize_all(hv, base@)[k as int]));
        k = k + 1;
    }
    assert(absolutize_all(hv, base@).take(k as int) =~= absolutize_all(hv, base@));
    out
}

fn copy_hits(hits: &Vec<Hit>) -> (r: Vec<Hit>)
    ensures
        hits_view(r@) == hits_view(hits@),
{
    let mut out: Vec<Hit> = Vec::new();
    let mut i: usize = 0;
    while i < hits.len()
        invariant
            i <= hits.len(),
            hits_view(out@) == hits_view(hits@).take(i as int),
        decreases hits.len() - i,
    {
        let h = &hits[i];
        let c = Hit {
            value: h.value.clone(),
            source_fragment: h.source_fragment.clone(),
            location: match &h.location { Some(l) => Some(l.clone()), None => None },
            context_html: match &h.context_html { Some(c) => Some(c.clone()), None => None },
        };
        let ghost pre = hits_view(out@);
        out.push(c);
        assert(hits_view(out@) =~= pre.push(hits_view(hits@)[i as int]));
        assert(hits_view(hits@).take(i + 1) =~= hits_view(hits@).take(i as int).push(hits_view(hits@)[i as int]));
        i = i + 1;
    }
    assert(hits_view(hits@).take(hits.len() as int) =~= hits_view(hits@));
    out
}

/// The hits of one field node (see [`node_hits`]).
fn field_hits(s: &FieldNodeSpec, material: &SourceMaterial, parent_hits: &[Hit]) -> (r: Option<(Vec<Hit>, Option<String>)>)
    ensures
        match node_hits(*s, *material, hits_view(parent_hits@)) {
            None => r is None,
            Some((h, e)) => r matches Some((v, m)) && hits_view(v@) == h && opt_str(m) == e,
        },
{
    let raw = if parent_hits.len() == 0 {
        extract_one(&s.rule, s.source_layer, material, s.script_index, s.post_processors.as_slice(), material.final_url.as_str())
    } else {
        child_hits(s, material, parent_hits)
    };
    match raw {
        None => None,
        Some((hs, e)) => {
            let url_like = match s.field_type {
                FieldType::Url | FieldType::LinkCard | FieldType::Pagination | FieldType::Image => true,
                _ => false,
            };
            if url_like {
                Some((absolutize_hits(hs, material.final_url.as_str()), e))
            } else {
                Some((hs, e))
            }
        },
    }
}

fn join_path(parent_path: &str, name: &str) -> (r: String)
    ensures
        r@ == parent_path@ + "/"@ + name@,
{
    let mut m: Vec<char> = Vec::new();
    push_str(&mut m, parent_path);
    push_str(&mut m, "/");
    push_str(&mut m, name);
    string_from_chars(m.as_slice())
}

/// The extractions of one node and its subtree.
fn extract_node(
    node: &FieldTreeNode,
    material: &SourceMaterial,
    parent_hits: &[Hit],
    scope_str: &str,
    parent_path: &str,
) -> (r: Option<Vec<FieldExtraction>>)
    ensures
        match node_extractions(*node, *material, hits_view(parent_hits@), scope_str@, parent_path@) {
            None => r is None,
            Some(x) => r matches Some(v) && extractions_view(v@) == x,
        },
    decreases node, 1int,
{
    let s = &node.spec;
    if !s.is_active {
        let out: Vec<FieldExtraction> = Vec::new();
        assert(extractions_view(out@) =~= Seq::<ExtView>::empty());
        return Some(out);
    }
    let field_path = join_path(parent_path, s.name.as_str());
    let (hits, err) = match field_hits(s, material, parent_hits) {
        None => {
            return None;
        },
        Some(p) => p,
    };
    let own_hits = copy_hits(&hits);
    let own = FieldExtraction {
        field_path: field_path.clone(),
        field_node_id: s.id,
        scope: String::from_str(scope_str),
        hits: own_hits,
        error: err,
    };
    proof {
        assert(decreases_to!(node => node.children));
    }
    let rest = match extract_layer(&node.children, material, hits.as_slice(), scope_str, field_path.as_str()) {
        None => {
            return None;
        },
        Some(v) => v,
    };
    let mut out: Vec<FieldExtraction> = Vec::new();
    out.push(own);
    let ghost first = out@;
    let mut tail = rest;
    let ghost tv = tail@;
    out.append(&mut tail);
    assert(extractions_view(out@) =~= extractions_view(first) + extractions_view(tv));
    Some(out)
}

/// The extractions of a layer of sibling field nodes and their subtrees:
/// top-level nodes read the whole page, child nodes read each parent hit
/// (hit locations then start with `parent[i]`); URL-like fields are made
/// absolute against the page's URL; inactive nodes are skipped. `None`
/// where an extraction would panic.
pub fn extract_layer(
    nodes: &Vec<FieldTreeNode>,
    material: &SourceMaterial,
    parent_hits: &[Hit],
    scope_str: &str,
    parent_path: &str,
) -> (r: Option<Vec<FieldExtraction>>)
    ensures
        match layer_extractions(nodes@, *material, hits_view(parent_hits@), scope_str@, parent_path@) {
            None => r is None,
            Some(x) => r matches Some(v) && extractions_view(v@) == x,
        },
    decreases nodes, 0int,
{
    let mut out: Vec<FieldExtraction> = Vec::new();
    let mut i: usize = 0;
    let ghost parents = hits_view(parent_hits@);
    assert(nodes@.subrange(0, nodes@.len() as int) =~= nodes@);
    assert(extractions_view(out@) =~= Seq::<ExtView>::empty());
    while i < nodes.len()
        invariant
            i <= nodes.len(),
            parents == hits_view(parent_hits@),
            match layer_extractions(nodes@, *material, parents, scope_str@, parent_path@) {
                None => layer_extractions(nodes@.subrange(i as int, nodes@.len() as int), *material, parents, scope_str@, parent_path@) is None,
                Some(all) => layer_extractions(nodes@.subrange(i as int, nodes@.len() as int), *material, parents, scope_str@, parent_path@) matches Some(rest)
                    && all == extractions_view(out@) + rest,
            },
        decreases nodes.len() - i,
    {
        let ghost rest = nodes@.subrange(i as int, nodes@.len() as int);
        assert(rest[0] == nodes@[i as int]);
        assert(rest.subrange(1, rest.len() as int) =~= nodes@.subrange(i + 1, nodes@.len() as int));
        proof {
            assert(decreases_to!(nodes => nodes@));
            assert(decreases_to!(nodes@ => nodes@[i as int]));
        }
        let part = match extract_node(&nodes[i], material, parent_hits, scope_str, parent_path) {
            None => {
                return None;
            },
            Some(v) => v,
        };
        let ghost pv = extractions_view(part@);
        let ghost before = extractions_view(out@);
        let ghost out0 = out@;
        let mut tail = part;
        let ghost tail0 = tail@;
        out.append(&mut tail);
        assert(extractions_view(out@) =~= extractions_view(out0) + extractions_view(tail0));
        proof {
            match layer_extractions(nodes@, *material, parents, scope_str@, parent_path@) {
                Some(all) => {
                    assert(all == before + layer_extractions(rest, *material, parents, scope_str@, parent_path@)->0);
                    assert(all =~= extractions_view(out@) + layer_extractions(nodes@.subrange(i + 1, nodes@.len() as int), *material, parents, scope_str@, parent_path@)->0);
                },
                None => {},
            }
        }
        i = i + 1;
    }
    proof {
        assert(nodes@.subrange(i as int, nodes@.len() as int) =~= Seq::<FieldTreeNode>::empty());
        assert(extractions_view(out@) + Seq::<ExtView>::empty() =~= extractions_view(out@));
    }
    Some(out)
}

} // verus!

verus! {

// ---------------------------------------------------------------------------
// Field types by path, detail links, next page
// ---------------------------------------------------------------------------

/// `(path, field type)` of a node and its subtree, the node first.
pub open spec fn node_type_entries(n: FieldTreeNode, parent_path: Seq<char>) -> Seq<(Seq<char>, FieldType)>
    decreases n, 1int,
{
    let p = parent_path + "/"@ + n.spec.name@;
    proof {
        assert(decreases_to!(n => n.children));
        assert(decreases_to!(n.children => n.children@));
    }
    seq![(p, n.spec.field_type)] + type_entries(n.children@, p)
}

/// `(path, field type)` of sibling nodes and their subtrees, in order.
pub open spec fn type_entries(nodes: Seq<FieldTreeNode>, parent_path: Seq<char>) -> Seq<(Seq<char>, FieldType)>
    decreases nodes, 0int,
{
    if nodes.len() == 0 {
        Seq::empty()
    } else {
        proof {
            assert(decreases_to!(nodes => nodes[0]));
            assert(decreases_to!(nodes => nodes.subrange(1, nodes.len() as int)));
        }
        node_type_entries(nodes[0], parent_path) + type_entries(nodes.subrange(1, nodes.len() as int), parent_path)
    }
}

/// The type recorded for `path`: the last entry for it wins, as in a map
/// filled in that order.
pub open spec fn type_at(entries: Seq<(Seq<char>, FieldType)>, path: Seq<char>) -> Option<FieldType>
    decreases entries.len(),
{
    if entries.len() == 0 {
        None
    } else if entries.last().0 == path {
        Some(entries.last().1)
    } else {
        type_at(entries.drop_last(), path)
    }
}

pub open spec fn entry_views(v: Seq<(String, FieldType)>) -> Seq<(Seq<char>, FieldType)> {
    Seq::new(v.len(), |i: int| (v[i].0@, v[i].1))
}

fn node_type_index(node: &FieldTreeNode, parent_path: &str, out: &mut Vec<(String, FieldType)>)
    ensures
        entry_views(final(out)@) == entry_views(old(out)@) + node_type_entries(*node, parent_path@),
    decreases node, 1int,
{
    let p = join_path(parent_path, node.spec.name.as_str());
    let ghost before = entry_views(out@);
    out.push((p.clone(), node.spec.field_type));
    assert(entry_views(out@) =~= before + seq![(p@, node.spec.field_type)]);
    proof {
        assert(decreases_to!(node => node.children));
    }
    let ghost mid = entry_views(out@);
    build_type_index_into(&node.children, p.as_str(), out);
    assert(entry_views(out@) =~= before + node_type_entries(*node, parent_path@));
}

fn build_type_index_into(nodes: &Vec<FieldTreeNode>, parent_path: &str, out: &mut Vec<(String, FieldType)>)
    ensures
        entry_views(final(out)@) == entry_views(old(out)@) + type_entries(nodes@, parent_path@),
    decreases nodes, 0int,
{
    let ghost start = entry_views(out@);
    let mut i: usize = 0;
    assert(nodes@.subrange(0, nodes@.len() as int) =~= nodes@);
    assert(start + Seq::<(Seq<char>, FieldType)>::empty() =~= start);
    while i < nodes.len()
        invariant
            i <= nodes.len(),
            start + type_entries(nodes@, parent_path@)
                == entry_views(out@) + type_entries(nodes@.subrange(i as int, nodes@.len() as int), parent_path@),
        decreases nodes.len() - i,
    {
        let ghost rest = nodes@.subrange(i as int, nodes@.len() as int);
        assert(rest[0] == nodes@[i as int]);
        assert(rest.subrange(1, rest.len() as int) =~= nodes@.subrange(i + 1, nodes@.len() as int));
        proof {
            assert(decreases_to!(nodes => nodes@));
            assert(decreases_to!(nodes@ => nodes@[i as int]));
        }
        let ghost pre = entry_views(out@);
        node_type_index(&nodes[i], parent_path, out);
        assert(pre + type_entries(rest, parent_path@) =~= entry_views(out@)
            + type_entries(nodes@.subrange(i + 1, nodes@.len() as int), parent_path@));
        i = i + 1;
    }
    assert(nodes@.subrange(i as int, nodes@.len() as int) =~= Seq::<FieldTreeNode>::empty());
    assert(entry_views(out@) + Seq::<(Seq<char>, FieldType)>::empty() =~= entry_views(out@));
}

/// `(path, field type)` of every node of the tree below `parent_path`, in
/// depth-first order; a later entry for the same path overrides an earlier
/// one when looked up.
pub fn build_type_index(nodes: &Vec<FieldTreeNode>, parent_path: &str) -> (r: Vec<(String, FieldType)>)
    ensures
        entry_views(r@) == type_entries(nodes@, parent_path@),
{
    let mut out: Vec<(String, FieldType)> = Vec::new();
    build_type_index_into(nodes, parent_path, &mut out);
    assert(entry_views(out@) =~= type_entries(nodes@, parent_path@));
    out
}

/// The type recorded for `path` in an index.
pub fn type_lookup(index: &Vec<(String, FieldType)>, path: &str) -> (r: Option<FieldType>)
    ensures
        r == type_at(entry_views(index@), path@),
{
    let mut i: usize = index.len();
    let ghost ev = entry_views(index@);
    assert(ev.take(index.len() as int) =~= ev);
    while i > 0
        invariant
            i <= index.len(),
            ev == entry_views(index@),
            type_at(ev.take(i as int), path@) == type_at(ev, path@),
        decreases i,
    {
        assert(ev.take(i as int).drop_last() =~= ev.take(i - 1));
        if str_eq(index[i - 1].0.as_str(), path) {
            return Some(index[i - 1].1);
        }
        i = i - 1;
    }
    None
}

/// Whether a trimmed hit value can be a detail link: non-empty, no `<` or
/// `>` (an HTML fragment), no inner white space.
pub open spec fn is_link_candidate(t: Seq<char>) -> bool {
    &&& t.len() > 0
    &&& !t.contains('<')
    &&& !t.contains('>')
    &&& forall|i: int| 0 <= i < t.len() ==> !is_ws(#[trigger] t[i])
}

/// The values of the hits of the link and URL fields, in order.
pub open spec fn link_values(exts: Seq<FieldExtraction>, index: Seq<(Seq<char>, FieldType)>) -> Seq<Seq<char>>
    decreases exts.len(),
{
    if exts.len() == 0 {
        Seq::empty()
    } else {
        let prev = link_values(exts.drop_last(), index);
        let e = exts.last();
        match type_at(index, e.field_path@) {
            Some(t) => if t is LinkCard || t is Url {
                prev + hits_view(e.hits@).map_values(|h: HitView| h.0)
            } else {
                prev
            },
            None => prev,
        }
    }
}

/// Detail-link collection over candidate values: each trimmed candidate is
/// made absolute; it is kept when its normalised form is not yet in `seen`,
/// which then records it.
pub open spec fn collect_links(values: Seq<Seq<char>>, base: Seq<char>, seen: Seq<Seq<char>>) -> (Seq<Seq<char>>, Seq<Seq<char>>)
    decreases values.len(),
{
    if values.len() == 0 {
        (Seq::empty(), seen)
    } else {
        let (links, s) = collect_links(values.drop_last(), base, seen);
        let t = trim(values.last());
        if !is_link_candidate(t) {
            (links, s)
        } else {
            let abs = resolve_url_spec(t, base);
            let key = normalize_url_spec(abs);
            if s.contains(key) {
                (links, s)
            } else {
                (links.push(abs), s.push(key))
            }
        }
    }
}

/// Detail links are never collected twice: after a run the recorded keys
/// are those recorded before followed by the normalised form of each link
/// returned, in order, and no key is recorded twice when none was before.
#[verifier::rlimit(60)]
pub proof fn lemma_collect_links_no_repeat(values: Seq<Seq<char>>, base: Seq<char>, seen: Seq<Seq<char>>)
    requires
        seen.no_duplicates(),
    ensures
        collect_links(values, base, seen).1.no_duplicates(),
        collect_links(values, base, seen).1.len() == seen.len() + collect_links(values, base, seen).0.len(),
        collect_links(values, base, seen).1.take(seen.len() as int) == seen,
        forall|i: int| 0 <= i < collect_links(values, base, seen).0.len()
            ==> #[trigger] collect_links(values, base, seen).1[seen.len() + i] == normalize_url_spec(collect_links(values, base, seen).0[i]),
    decreases values.len(),
{
    if values.len() == 0 {
        assert(seen.take(seen.len() as int) =~= seen);
    } else {
        lemma_collect_links_no_repeat(values.drop_last(), base, seen);
        let (links, st) = collect_links(values.drop_last(), base, seen);
        let t = trim(values.last());
        if is_link_candidate(t) {
            let abs = resolve_url_spec(t, base);
            let key = normalize_url_spec(abs);
            if !st.contains(key) {
                let s2 = st.push(key);
                let l2 = links.push(abs);
                assert(s2.take(seen.len() as int) =~= st.take(seen.len() as int));
                assert forall|i: int, j: int| 0 <= i < s2.len() && 0 <= j < s2.len() && i != j implies s2[i] != s2[j] by {
                    if i < st.len() && j < st.len() {
                    } else if i == st.len() {
                        assert(st[j] != key);
                    } else {
                        assert(st[i] != key);
                    }
                }
                assert forall|i: int| 0 <= i < l2.len() implies #[trigger] s2[seen.len() + i] == normalize_url_spec(l2[i]) by {
                    if i < links.len() {
                        assert(s2[seen.len() + i] == st[seen.len() + i]);
                    }
                }
            }
        }
    }
}

pub open spec fn strings_view(v: Seq<String>) -> Seq<Seq<char>> {
    Seq::new(v.len(), |i: int| v[i]@)
}

fn candidate_exec(t: &[char]) -> (r: bool)
    ensures
        r == is_link_candidate(t@),
{
    if t.len() == 0 || contains_char(t, '<') || contains_char(t, '>') {
        return false;
    }
    let mut i: usize = 0;
    while i < t.len()
        invariant
            i <= t.len(),
            forall|j: int| 0 <= j < i ==> !is_ws(#[trigger] t@[j]),
        decreases t.len() - i,
    {
        if is_ws_exec(t[i]) {
            return false;
        }
        i = i + 1;
    }
    true
}

fn seen_contains(seen: &Vec<String>, key: &str) -> (r: bool)
    ensures
        r == strings_view(seen@).contains(key@),
{
    let mut i: usize = 0;
    while i < seen.len()
        invariant
            i <= seen.len(),
            forall|j: int| 0 <= j < i ==> seen@[j]@ != key@,
        decreases seen.len() - i,
    {
        if str_eq(seen[i].as_str(), key) {
            assert(strings_view(seen@)[i as int] == key@);
            return true;
        }
        i = i + 1;
    }
    assert(!strings_view(seen@).contains(key@)) by {
        assert forall|j: int| 0 <= j < strings_view(seen@).len() implies strings_view(seen@)[j] != key@ by {
            assert(seen@[j]@ != key@);
        }
    }
    false
}

/// Links to detail pages among the hits of the link and URL fields of a
/// list page: trimmed, not HTML, without inner blanks, made absolute; a
/// link whose normalised form is in `seen` is skipped, and the new ones are
/// recorded there.
pub fn collect_detail_links(
    extractions: &[FieldExtraction],
    tree_nodes: &Vec<FieldTreeNode>,
    scope_path: &str,
    base_url: &str,
    seen: &mut Vec<String>,
) -> (r: Vec<String>)
    ensures
        (strings_view(r@), strings_view(final(seen)@)) == collect_links(
            link_values(extractions@, type_entries(tree_nodes@, scope_path@)),
            base_url@,
            strings_view(old(seen)@),
        ),
{
    let index = build_type_index(tree_nodes, scope_path);
    let ghost idx = type_entries(tree_nodes@, scope_path@);
    let ghost seen0 = strings_view(seen@);
    let mut links: Vec<String> = Vec::new();
    let mut e: usize = 0;
    assert(extractions@.take(0) =~= Seq::<FieldExtraction>::empty());
    assert(strings_view(links@) =~= Seq::<Seq<char>>::empty());
    while e < extractions.len()
        invariant
            e <= extractions.len(),
            entry_views(index@) == idx,
            idx == type_entries(tree_nodes@, scope_path@),
            (strings_view(links@), strings_view(seen@)) == collect_links(link_values(extractions@.take(e as int), idx), base_url@, seen0),
        decreases extractions.len() - e,
    {
        let ext = &extractions[e];
        assert(extractions@.take(e + 1).drop_last() =~= extractions@.take(e as int));
        assert(extractions@.take(e + 1).last() == *ext);
        let t = type_lookup(&index, ext.field_path.as_str());
        let is_link = match t {
            Some(FieldType::LinkCard) | Some(FieldType::Url) => true,
            _ => false,
        };
        if is_link {
            let ghost prevv = link_values(extractions@.take(e as int), idx);
            let ghost hv = hits_view(ext.hits@).map_values(|h: HitView| h.0);
            assert(link_values(extractions@.take(e + 1), idx) == prevv + hv);
            let mut k: usize = 0;
            assert(prevv + hv.take(0) =~= prevv);
            while k < ext.hits.len()
                invariant
                    k <= ext.hits.len(),
                    hv == hits_view(ext.hits@).map_values(|h: HitView| h.0),
                    (strings_view(links@), strings_view(seen@)) == collect_links(prevv + hv.take(k as int), base_url@, seen0),
                decreases ext.hits.len() - k,
            {
                assert((prevv + hv.take(k + 1)).drop_last() =~= prevv + hv.take(k as int));
                assert((prevv + hv.take(k + 1)).last() == ext.hits@[k as int].value@);
                let vv = chars_of(ext.hits[k].value.as_str());
                let tv = trim_chars(vv.as_slice());
                if candidate_exec(tv.as_slice()) {
                    let ts = string_from_chars(tv.as_slice());
                    let abs = resolve_url(ts.as_str(), base_url);
                    let key = normalize_url(abs.as_str());
                    if !seen_contains(seen, key.as_str()) {
                        let ghost pl = strings_view(links@);
                        let ghost ps = strings_view(seen@);
                        seen.push(key);
                        links.push(abs);
                        assert(strings_view(links@) =~= pl.push(abs@));
                        assert(strings_view(seen@) =~= ps.push(key@));
                    }
                }
                k = k + 1;
            }
            assert(hv.take(k as int) =~= hv);
        } else {
            assert(link_values(extractions@.take(e + 1), idx) == link_values(extractions@.take(e as int), idx));
        }
        e = e + 1;
    }
    assert(extractions@.take(extractions.len() as int) =~= extractions@);
    links
}

/// The first non-blank hit of the first pagination field, trimmed and made
/// absolute.
pub open spec fn next_page_spec(exts: Seq<FieldExtraction>, index: Seq<(Seq<char>, FieldType)>, base: Seq<char>) -> Option<Seq<char>>
    decreases exts.len(),
{
    if exts.len() == 0 {
        None
    } else {
        let e = exts[0];
        let first = if type_at(index, e.field_path@) == Some(FieldType::Pagination) {
            first_nonblank(hits_view(e.hits@))
        } else {
            None
        };
        match first {
            Some(v) => Some(resolve_url_spec(v, base)),
            None => next_page_spec(exts.drop_first(), index, base),
        }
    }
}

/// The first hit value that is not blank, trimmed.
pub open spec fn first_nonblank(hs: Seq<HitView>) -> Option<Seq<char>>
    decreases hs.len(),
{
    if hs.len() == 0 {
        None
    } else if trim(hs[0].0).len() > 0 {
        Some(trim(hs[0].0))
    } else {
        first_nonblank(hs.drop_first())
    }
}

/// The URL of the next list page: the first non-blank hit of the first
/// pagination field that has one, made absolute against `base_url`.
pub fn find_next_page_url(
    extractions: &[FieldExtraction],
    tree_nodes: &Vec<FieldTreeNode>,
    scope_path: &str,
    base_url: &str,
) -> (r: Option<String>)
    ensures
        match next_page_spec(extractions@, type_entries(tree_nodes@, scope_path@), base_url@) {
            Some(u) => r matches Some(s) && s@ == u,
            None => r is None,
        },
{
    let index = build_type_index(tree_nodes, scope_path);
    let ghost idx = type_entries(tree_nodes@, scope_path@);
    let mut e: usize = 0;
    assert(extractions@.skip(0) =~= extractions@);
    while e < extractions.len()
        invariant
            e <= extractions.len(),
            entry_views(index@) == idx,
            idx == type_entries(tree_nodes@, scope_path@),
            next_page_spec(extractions@.skip(e as int), idx, base_url@) == next_page_spec(extractions@, idx, base_url@),
        decreases extractions.len() - e,
    {
        let ext = &extractions[e];
        assert(extractions@.skip(e as int)[0] == *ext);
        assert(extractions@.skip(e as int).drop_first() =~= extractions@.skip(e + 1));
        let t = type_lookup(&index, ext.field_path.as_str());
        let is_pg = match t {
            Some(FieldType::Pagination) => true,
            _ => false,
        };
        if is_pg {
            assert(type_at(idx, ext.field_path@) == Some(FieldType::Pagination));
            let ghost hv = hits_view(ext.hits@);
            let mut k: usize = 0;
            assert(hv.skip(0) =~= hv);
            while k < ext.hits.len()
                invariant
                    k <= ext.hits.len(),
                    hv == hits_view(ext.hits@),
                    first_nonblank(hv.skip(k as int)) == first_nonblank(hv),
                    type_at(idx, ext.field_path@) == Some(FieldType::Pagination),
                    e < extractions.len(),
                    extractions@.skip(e as int)[0] == *ext,
                    next_page_spec(extractions@.skip(e as int), idx, base_url@) == next_page_spec(extractions@, idx, base_url@),
                    idx == type_entries(tree_nodes@, scope_path@),
                decreases ext.hits.len() - k,
            {
                assert(hv.skip(k as int)[0].0 == ext.hits@[k as int].value@);
                assert(hv.skip(k as int).drop_first() =~= hv.skip(k + 1));
                let vv = chars_of(ext.hits[k].value.as_str());
                let tv = trim_chars(vv.as_slice());
                if tv.len() > 0 {
                    let ts = string_from_chars(tv.as_slice());
                    assert(first_nonblank(hv) == Some(ts@));
                    assert(type_at(idx, ext.field_path@) == Some(FieldType::Pagination));
                    assert(next_page_spec(extractions@.skip(e as int), idx, base_url@) == Some(resolve_url_spec(ts@, base_url@)));
                    return Some(resolve_url(ts.as_str(), base_url));
                }
                k = k + 1;
            }
            assert(hv.skip(k as int) =~= Seq::<HitView>::empty());
        }
        e = e + 1;
    }
    None
}

/// The list-page URL of page `page` in template mode: none past `page_end`
/// (when positive), else the template filled in (see
/// [`build_template_url`]).
pub fn next_template_page(page_url_template: &str, page_end: i64, page: i64, base_url: &str) -> (r: Option<String>)
    ensures
        page_end > 0 && page > page_end ==> r is None,
        !(page_end > 0 && page > page_end) ==> match build_template_url_spec(page_url_template@, page as int, base_url@) {
            Some(u) => r matches Some(s) && s@ == u,
            None => r is None,
        },
{
    if page_end > 0 && page > page_end {
        return None;
    }
    build_template_url(page_url_template, page, base_url)
}

} // verus!

verus! {

// ---------------------------------------------------------------------------
// Extra fields, pagination links
// ---------------------------------------------------------------------------

/// The members of the extra-fields object: for each extraction with hits,
/// in order, its last path segment with its values (one string for one
/// hit, else an array).
pub open spec fn extra_entries(exts: Seq<FieldExtraction>) -> Seq<EntryView>
    decreases exts.len(),
{
    if exts.len() == 0 {
        Seq::empty()
    } else {
        let prev = extra_entries(exts.drop_last());
        let e = exts.last();
        let vals = hits_view(e.hits@).map_values(|h: HitView| h.0);
        if e.hits@.len() == 0 {
            prev
        } else {
            prev.push((last_segment(e.field_path@), vals, e.hits@.len() == 1))
        }
    }
}

/// The hit values of the fields as a JSON object keyed by field name (the
/// last path segment): one hit gives a string, several an array; fields
/// without hits are left out, and no field with hits gives `None`.
pub fn build_extra_fields_json(extractions: &[FieldExtraction]) -> (r: Option<String>)
    ensures
        match r {
            None => extra_entries(extractions@).len() == 0,
            Some(s) => extra_entries(extractions@).len() > 0 && s@ == json_object_text(extra_entries(extractions@)),
        },
{
    let mut entries: Vec<(String, ExtraValue)> = Vec::new();
    let mut i: usize = 0;
    assert(extractions@.take(0) =~= Seq::<FieldExtraction>::empty());
    assert(entries_view(entries@) =~= Seq::<EntryView>::empty());
    while i < extractions.len()
        invariant
            i <= extractions.len(),
            entries_view(entries@) == extra_entries(extractions@.take(i as int)),
        decreases extractions.len() - i,
    {
        let ext = &extractions[i];
        assert(extractions@.take(i + 1).drop_last() =~= extractions@.take(i as int));
        assert(extractions@.take(i + 1).last() == *ext);
        if ext.hits.len() > 0 {
            let p = chars_of(ext.field_path.as_str());
            let last = match rfind_char(p.as_slice(), '/') {
                Some(k) => slice_range(p.as_slice(), k + 1, p.len()),
                None => slice_range(p.as_slice(), 0, p.len()),
            };
            assert(last@ =~= last_segment(ext.field_path@));
            let key = string_from_chars(last.as_slice());
            let ghost vals = hits_view(ext.hits@).map_values(|h: HitView| h.0);
            let value = if ext.hits.len() == 1 {
                ExtraValue::Single(ext.hits[0].value.clone())
            } else {
                let mut vs: Vec<String> = Vec::new();
                let mut k: usize = 0;
                while k < ext.hits.len()
                    invariant
                        k <= ext.hits.len(),
                        vals == hits_view(ext.hits@).map_values(|h: HitView| h.0),
                        string_views(vs@) == vals.take(k as int),
                    decreases ext.hits.len() - k,
                {
                    let ghost pre = string_views(vs@);
                    vs.push(ext.hits[k].value.clone());
                    assert(string_views(vs@) =~= pre.push(vals[k as int]));
                    assert(vals.take(k + 1) =~= vals.take(k as int).push(vals[k as int]));
                    k = k + 1;
                }
                assert(vals.take(k as int) =~= vals);
                ExtraValue::Many(vs)
            };
            let ghost pre = entries_view(entries@);
            let entry = (key, value);
            assert(entry_view(entry) == (last_segment(ext.field_path@), vals, ext.hits@.len() == 1)) by {
                if ext.hits@.len() == 1 {
                    assert(vals =~= seq![ext.hits@[0].value@]);
                }
            }
            entries.push(entry);
            assert(entries_view(entries@) =~= pre.push(entry_view(entry)));
        }
        i = i + 1;
    }
    assert(extractions@.take(extractions.len() as int) =~= extractions@);
    if entries.len() == 0 {
        None
    } else {
        Some(json_object_string(entries.as_slice()))
    }
}

/// The `href` values of the elements matched by `selector`; none for an
/// empty selector or one that does not parse.
pub open spec fn pagination_urls_spec(html: Seq<char>, selector: Seq<char>) -> Seq<Seq<char>> {
    if selector.len() == 0 {
        Seq::empty()
    } else {
        match css_select_result(html, selector, "href"@) {
            Err(_) => Seq::empty(),
            Ok(els) => hrefs_of(els),
        }
    }
}

/// The attribute values present among the elements, in order.
pub open spec fn hrefs_of(els: Seq<ElementView>) -> Seq<Seq<char>>
    decreases els.len(),
{
    if els.len() == 0 {
        Seq::empty()
    } else {
        let prev = hrefs_of(els.drop_last());
        match els.last().2 {
            Some(h) => prev.push(h),
            None => prev,
        }
    }
}

/// Pagination links of a page by CSS selector: the `href` of each matched
/// element that has one.
pub fn extract_pagination_urls(html: &str, selector: &str) -> (r: Vec<String>)
    ensures
        string_views(r@) == pagination_urls_spec(html@, selector@),
{
    let mut out: Vec<String> = Vec::new();
    if selector.is_empty() {
        assert(string_views(out@) =~= Seq::<Seq<char>>::empty());
        return out;
    }
    proof {
        reveal_strlit("href");
    }
    match css_select(html, selector, "href") {
        Err(_) => {
            assert(string_views(out@) =~= Seq::<Seq<char>>::empty());
            out
        },
        Ok(els) => {
            let ghost ev = element_views(els@);
            let mut i: usize = 0;
            assert(ev.take(0) =~= Seq::<ElementView>::empty());
            assert(string_views(out@) =~= Seq::<Seq<char>>::empty());
            while i < els.len()
                invariant
                    i <= els.len(),
                    ev == element_views(els@),
                    string_views(out@) == hrefs_of(ev.take(i as int)),
                decreases els.len() - i,
            {
                assert(ev.take(i + 1).drop_last() =~= ev.take(i as int));
                assert(ev.take(i + 1).last() == ev[i as int]);
                match &els[i].2 {
                    Some(h) => {
                        let ghost pre = string_views(out@);
                        out.push(h.clone());
                        assert(string_views(out@) =~= pre.push(h@));
                    },
                    None => {},
                }
                i = i + 1;
            }
            assert(ev.take(els.len() as int) =~= ev);
            out
        },
    }
}

} // verus!

verus! {

// ---------------------------------------------------------------------------
// Pagination of a crawl run
// ---------------------------------------------------------------------------

/// Consecutive pages without a new article after which a seed stops.
pub const EMPTY_PAGE_LIMIT: i64 = 3;

/// The list pages a run starts from: in pure template mode (a template and
/// no entry URLs) the template's page `page_start` (none when the template
/// does not fill in), else the entry URLs.
pub fn crawl_seeds(template: &str, page_start: i64, list_urls: &Vec<String>) -> (r: Vec<String>)
    ensures
        template@.len() > 0 && list_urls@.len() == 0 ==> match build_template_url_spec(
            template@,
            page_start as int,
            Seq::empty(),
        ) {
            Some(u) => strings_view(r@) == seq![u],
            None => r@.len() == 0,
        },
        !(template@.len() > 0 && list_urls@.len() == 0) ==> strings_view(r@) == strings_view(list_urls@),
{
    if template.unicode_len() > 0 && list_urls.len() == 0 {
        let mut r: Vec<String> = Vec::new();
        proof {
            reveal_strlit("");
        }
        assert(""@ =~= Seq::<char>::empty());
        if let Some(u) = build_template_url(template, page_start, "") {
            r.push(u);
            assert(strings_view(r@) =~= seq![r@[0]@]);
        }
        r
    } else {
        let mut r: Vec<String> = Vec::new();
        let mut i: usize = 0;
        while i < list_urls.len()
            invariant
                i <= list_urls.len(),
                strings_view(r@) == strings_view(list_urls@).take(i as int),
            decreases list_urls.len() - i,
        {
            let ghost prev = strings_view(r@);
            r.push(list_urls[i].clone());
            assert(strings_view(r@) =~= prev.push(strings_view(list_urls@)[i as int]));
            assert(strings_view(list_urls@).take(i + 1) =~= strings_view(list_urls@).take(i as int).push(
                strings_view(list_urls@)[i as int],
            ));
            i = i + 1;
        }
        assert(strings_view(list_urls@).take(list_urls.len() as int) =~= strings_view(list_urls@));
        r
    }
}

/// The pagination walk from one seed: the list page to visit next and the
/// counters of the walk.
pub struct SeedWalk {
    /// List-page template with a `{page}` placeholder; template mode when
    /// not empty.
    pub template: String,
    /// Last template page (none when not positive).
    pub page_end: i64,
    /// Depth limit of DOM pagination (none when not positive).
    pub max_depth: i64,
    /// Never stop early for want of new articles.
    pub force_full: bool,
    pub seed_url: String,
    /// The list page to visit next.
    pub current: Option<String>,
    /// List pages taken so far.
    pub depth: i64,
    /// Consecutive pages without a new article.
    pub empty_pages: i64,
    /// The template page number to fill in next.
    pub template_page: i64,
}

/// What to do with the current list page of a walk.
#[derive(Debug, PartialEq, Eq)]
pub enum ListStep {
    /// Fetch and process this list page.
    Fetch(String),
    /// The page was crawled already; the walk moved on to the next
    /// template page.
    Skipped,
    /// The walk from this seed is over.
    Done,
}

pub open spec fn opt_view(o: Option<String>) -> Option<Seq<char>> {
    match o {
        Some(s) => Some(s@),
        None => None,
    }
}

/// The template page `page` of a walk, or none (see [`next_template_page`]).
pub open spec fn template_page_url(w: SeedWalk, page: int, base: Seq<char>) -> Option<Seq<char>> {
    if w.page_end > 0 && page > w.page_end {
        None
    } else {
        build_template_url_spec(w.template@, page, base)
    }
}

/// The walk's settings are unchanged.
pub open spec fn same_settings(a: SeedWalk, b: SeedWalk) -> bool {
    &&& a.template@ == b.template@
    &&& a.page_end == b.page_end
    &&& a.max_depth == b.max_depth
    &&& a.force_full == b.force_full
    &&& a.seed_url@ == b.seed_url@
}

impl SeedWalk {
    /// The walk from `seed_url`: in pure template mode the seed is the
    /// template's first page, so the template resumes at the page after
    /// `page_start`.
    pub fn start(
        seed_url: &str,
        template: &str,
        page_start: i64,
        page_end: i64,
        max_depth: i64,
        force_full: bool,
        pure_template: bool,
    ) -> (w: SeedWalk)
        requires
            pure_template ==> page_start < i64::MAX,
        ensures
            w.seed_url@ == seed_url@,
            w.template@ == template@,
            w.page_end == page_end,
            w.max_depth == max_depth,
            w.force_full == force_full,
            opt_view(w.current) == Some(seed_url@),
            w.depth == 0,
            w.empty_pages == 0,
            w.template_page == if pure_template { page_start + 1 } else { page_start as int },
    {
        SeedWalk {
            template: String::from_str(template),
            page_end,
            max_depth,
            force_full,
            seed_url: String::from_str(seed_url),
            current: Some(String::from_str(seed_url)),
            depth: 0,
            empty_pages: 0,
            template_page: if pure_template { page_start + 1 } else { page_start },
        }
    }

    /// Template mode.
    pub open spec fn templated(self) -> bool {
        self.template@.len() > 0
    }

    /// Moves on to the next template page (URLs resolved against `base`);
    /// the walk ends when there is none.
    fn advance_template(&mut self, base: &str)
        requires
            old(self).template_page < i64::MAX,
        ensures
            same_settings(*final(self), *old(self)),
            final(self).depth == old(self).depth,
            final(self).empty_pages == old(self).empty_pages,
            match template_page_url(*old(self), old(self).template_page as int, base@) {
                Some(u) => opt_view(final(self).current) == Some(u) && final(self).template_page
                    == old(self).template_page + 1,
                None => final(self).current is None && final(self).template_page == old(self).template_page,
            },
    {
        match next_template_page(self.template.as_str(), self.page_end, self.template_page, base) {
            Some(u) => {
                self.template_page = self.template_page + 1;
                self.current = Some(u);
            },
            None => {
                self.current = None;
            },
        }
    }

    /// Takes the current list page: the walk is over without one, or when
    /// DOM pagination reached its depth limit. A page whose normalised URL
    /// is in `visited` is skipped (template mode moves on to its next page,
    /// DOM mode ends); any other is recorded in `visited` and fetched.
    pub fn take_list_url(&mut self, visited: &mut Vec<String>) -> (step: ListStep)
        requires
            old(self).depth < i64::MAX,
            old(self).template_page < i64::MAX,
        ensures
            same_settings(*final(self), *old(self)),
            final(self).empty_pages == old(self).empty_pages,
            old(self).current is None ==> step == ListStep::Done && final(self).depth == old(self).depth
                && final(visited)@ == old(visited)@,
            old(self).current matches Some(url) ==> {
                let key = normalize_url_spec(url@);
                if !old(self).templated() && old(self).max_depth > 0 && old(self).depth >= old(self).max_depth {
                    &&& step == ListStep::Done
                    &&& final(self).current is None
                    &&& final(visited)@ == old(visited)@
                } else if strings_view(old(visited)@).contains(key) {
                    &&& final(self).depth == old(self).depth + 1
                    &&& final(visited)@ == old(visited)@
                    &&& if old(self).templated() {
                        match template_page_url(*old(self), old(self).template_page as int, old(self).seed_url@) {
                            Some(u) => step == ListStep::Skipped && opt_view(final(self).current) == Some(u)
                                && final(self).template_page == old(self).template_page + 1,
                            None => step == ListStep::Done && final(self).current is None,
                        }
                    } else {
                        step == ListStep::Done && final(self).current is None
                    }
                } else {
                    &&& step matches ListStep::Fetch(f) && f@ == url@
                    &&& final(self).current is None
                    &&& final(self).depth == old(self).depth + 1
                    &&& strings_view(final(visited)@) == strings_view(old(visited)@).push(key)
                }
            },
    {
        let url = match self.current.take() {
            Some(u) => u,
            None => return ListStep::Done,
        };
        if self.template.as_str().unicode_len() == 0 && self.max_depth > 0 && self.depth >= self.max_depth {
            return ListStep::Done;
        }
        self.depth = self.depth + 1;
        let key = normalize_url(url.as_str());
        if seen_contains(visited, key.as_str()) {
            if self.template.as_str().unicode_len() > 0 {
                let base = self.seed_url.clone();
                self.advance_template(base.as_str());
                if self.current.is_some() {
                    return ListStep::Skipped;
                }
            }
            return ListStep::Done;
        }
        let ghost prev = strings_view(visited@);
        visited.push(key);
        assert(strings_view(visited@) =~= prev.push(normalize_url_spec(url@)));
        ListStep::Fetch(url)
    }

    /// The list page could not be fetched: template mode moves on to the
    /// next page, DOM mode ends the walk.
    pub fn list_fetch_failed(&mut self)
        requires
            old(self).template_page < i64::MAX,
        ensures
            same_settings(*final(self), *old(self)),
            final(self).depth == old(self).depth,
            final(self).empty_pages == old(self).empty_pages,
            old(self).templated() ==> match template_page_url(*old(self), old(self).template_page as int, old(self).seed_url@) {
                Some(u) => opt_view(final(self).current) == Some(u) && final(self).template_page
                    == old(self).template_page + 1,
                None => final(self).current is None && final(self).template_page == old(self).template_page,
            },
            !old(self).templated() ==> final(self).current is None && final(self).template_page == old(self).template_page,
    {
        if self.template.as_str().unicode_len() > 0 {
            let base = self.seed_url.clone();
            self.advance_template(base.as_str());
        } else {
            self.current = None;
        }
    }

    /// A list page was processed, the article count going from
    /// `new_before` to `new_after`. Unless the early-stop rule ends the walk
    /// (see [`should_stop_after_page`], with [`EMPTY_PAGE_LIMIT`]), the
    /// next list page is the next template page (resolved against the
    /// page's final URL) in template mode, else `dom_next`. Returns whether
    /// the walk stopped early.
    pub fn list_page_done(
        &mut self,
        new_before: i64,
        new_after: i64,
        final_url: &str,
        dom_next: Option<String>,
    ) -> (stopped: bool)
        requires
            i64::MIN <= new_after - new_before <= i64::MAX,
            old(self).empty_pages < i64::MAX,
            old(self).template_page < i64::MAX,
        ensures
            same_settings(*final(self), *old(self)),
            final(self).depth == old(self).depth,
            old(self).force_full ==> !stopped && final(self).empty_pages == old(self).empty_pages,
            !old(self).force_full && new_after == new_before ==> final(self).empty_pages == old(self).empty_pages + 1
                && stopped == (final(self).empty_pages >= EMPTY_PAGE_LIMIT),
            !old(self).force_full && new_after != new_before ==> final(self).empty_pages == 0 && !stopped,
            stopped ==> final(self).current is None && final(self).template_page == old(self).template_page,
            !stopped && old(self).templated() ==> opt_view(final(self).current) == template_page_url(
                *old(self),
                old(self).template_page as int,
                final_url@,
            ) && final(self).template_page == old(self).template_page + 1,
            !stopped && !old(self).templated() ==> opt_view(final(self).current) == opt_view(dom_next)
                && final(self).template_page == old(self).template_page,
    {
        let mut empty = self.empty_pages;
        if should_stop_after_page(self.force_full, new_before, new_after, &mut empty, EMPTY_PAGE_LIMIT) {
            self.empty_pages = empty;
            self.current = None;
            return true;
        }
        self.empty_pages = empty;
        if self.template.as_str().unicode_len() > 0 {
            self.current = next_template_page(self.template.as_str(), self.page_end, self.template_page, final_url);
            self.template_page = self.template_page + 1;
        } else {
            self.current = dom_next;
        }
        false
    }
}

} // verus!

verus! {

// ---------------------------------------------------------------------------
// Outcome of a crawl run
// ---------------------------------------------------------------------------

/// What a crawl run reports.
#[derive(Debug, Clone)]
pub struct RunSummary {
    pub task_id: i64,
    pub task_name: String,
    /// `success`, `partial`, `failed` or `blocked` (see [`run_status`]).
    pub status: &'static str,
    pub block_type: Option<String>,
    pub crawled_count: i64,
    pub new_count: i64,
    pub skipped_count: i64,
    pub failed_count: i64,
    pub error_message: Option<String>,
}

/// The status of a finished run: `blocked` when a page was blocked; else
/// `failed` when nothing new was stored and something failed; `partial`
/// when something new was stored and something failed; else `success`.
pub open spec fn run_status_spec(blocked: bool, new_count: i64, failed: i64) -> Seq<char> {
    if blocked {
        "blocked"@
    } else if new_count == 0 && failed > 0 {
        "failed"@
    } else if new_count > 0 && failed > 0 {
        "partial"@
    } else {
        "success"@
    }
}

pub fn run_status(blocked: bool, new_count: i64, failed: i64) -> (r: &'static str)
    ensures
        r@ == run_status_spec(blocked, new_count, failed),
{
    if blocked {
        "blocked"
    } else if new_count == 0 && failed > 0 {
        "failed"
    } else if new_count > 0 && failed > 0 {
        "partial"
    } else {
        "success"
    }
}

/// The error message stored with a run: its errors joined with `; `, cut to
/// the first 500 characters; none without errors.
pub open spec fn run_error_message_spec(errors: Seq<Seq<char>>) -> Option<Seq<char>> {
    if errors.len() == 0 {
        None
    } else {
        let j = join(errors, "; "@);
        Some(if j.len() <= 500 { j } else { j.take(500) })
    }
}

pub fn run_error_message(errors: &Vec<String>) -> (r: Option<String>)
    ensures
        opt_view(r) == run_error_message_spec(strings_view(errors@)),
{
    if errors.len() == 0 {
        return None;
    }
    let mut parts: Vec<Vec<char>> = Vec::new();
    let mut i: usize = 0;
    while i < errors.len()
        invariant
            i <= errors.len(),
            crate::text::views(parts@) == strings_view(errors@).take(i as int),
        decreases errors.len() - i,
    {
        let ghost prev = crate::text::views(parts@);
        parts.push(chars_of(errors[i].as_str()));
        assert(crate::text::views(parts@) =~= prev.push(strings_view(errors@)[i as int]));
        assert(strings_view(errors@).take(i + 1) =~= strings_view(errors@).take(i as int).push(
            strings_view(errors@)[i as int],
        ));
        i = i + 1;
    }
    assert(strings_view(errors@).take(errors.len() as int) =~= strings_view(errors@));
    let sep = chars_of("; ");
    let j = crate::text::join_exec(&parts, sep.as_slice());
    let n = if j.len() <= 500 { j.len() } else { 500 };
    let cut = slice_range(j.as_slice(), 0, n);
    proof {
        if j.len() <= 500 {
            assert(cut@ =~= j@);
        } else {
            assert(cut@ =~= j@.take(500));
        }
    }
    Some(string_from_chars(cut.as_slice()))
}

} // verus!

verus! {

// ---------------------------------------------------------------------------
// Test-run preview
// ---------------------------------------------------------------------------

/// A cloud-drive link shown in a preview.
#[derive(Debug, Clone)]
pub struct TestPanLink {
    pub platform: String,
    pub url: String,
    pub extract_code: Option<String>,
}

/// One article of a test-run preview.
#[derive(Debug, Clone)]
pub struct TestPreviewArticle {
    pub source_url: String,
    pub title: Option<String>,
    pub content_snippet: Option<String>,
    pub pan_links: Vec<TestPanLink>,
    pub direct_links: Vec<String>,
    pub images: Vec<String>,
    pub field_warnings: Vec<String>,
}

/// Whether the list page gave field hits and detail links.
#[derive(Debug, Clone)]
pub struct SelectorValidation {
    pub list_item_ok: bool,
    pub detail_link_ok: bool,
    pub missing_fields: Vec<String>,
}

/// What a test run of a task shows.
#[derive(Debug, Clone)]
pub struct CrawlerTestPreview {
    pub list_count: i64,
    pub preview_count: i64,
    pub articles: Vec<TestPreviewArticle>,
    pub selector_validation: SelectorValidation,
}

/// A task as a run reads it.
#[derive(Debug)]
pub struct TaskRuntime {
    pub task_id: i64,
    pub task_name: String,
    pub source_type: String,
    pub list_urls: Vec<String>,
    pub user_agent: Option<String>,
    pub proxy: Option<String>,
    pub task_concurrency: i64,
    pub request_delay_ms: i64,
    pub pagination_selector: Option<String>,
    pub max_pages: i64,
    /// Depth limit of DOM pagination (0: none).
    pub max_pagination_depth: i64,
    /// Crawl everything every time instead of stopping early.
    pub force_full_collect: bool,
    /// List-page template with `{page}`; empty when not used.
    pub page_url_template: String,
    pub page_start: i64,
    /// Last template page (0: none).
    pub page_end: i64,
    pub field_tree: FieldTree,
}

/// The first `n` characters (all of them when there are fewer).
pub open spec fn take_chars(s: Seq<char>, n: int) -> Seq<char> {
    if s.len() <= n {
        s
    } else {
        s.take(n)
    }
}

pub open spec fn opt_or(a: Option<Seq<char>>, b: Option<Seq<char>>) -> Option<Seq<char>> {
    match a {
        Some(x) => Some(x),
        None => b,
    }
}

/// The preview of one detail page: its URL; the title (field `title`, else
/// `name`); the first 200 characters of `content`; no links or images; the
/// warnings gathered so far.
pub fn preview_article(url: &str, detail: &[FieldExtraction], warnings: &Vec<String>) -> (r: TestPreviewArticle)
    ensures
        r.source_url@ == url@,
        opt_view(r.title) == opt_or(
            find_first_value_spec(detail@, "title"@),
            find_first_value_spec(detail@, "name"@),
        ),
        opt_view(r.content_snippet) == match find_first_value_spec(detail@, "content"@) {
            Some(c) => Some(take_chars(c, 200)),
            None => None,
        },
        r.pan_links@.len() == 0,
        r.direct_links@.len() == 0,
        r.images@.len() == 0,
        strings_view(r.field_warnings@) == strings_view(warnings@),
{
    let title = match find_first_value(detail, "title") {
        Some(t) => Some(t),
        None => find_first_value(detail, "name"),
    };
    let snippet = match find_first_value(detail, "content") {
        Some(c) => {
            let v = chars_of(c.as_str());
            let n = if v.len() <= 200 { v.len() } else { 200 };
            let t = slice_range(v.as_slice(), 0, n);
            proof {
                if v.len() <= 200 {
                    assert(t@ =~= c@);
                } else {
                    assert(t@ =~= c@.take(200));
                }
            }
            Some(string_from_chars(t.as_slice()))
        },
        None => None,
    };
    let mut ws: Vec<String> = Vec::new();
    let mut i: usize = 0;
    while i < warnings.len()
        invariant
            i <= warnings.len(),
            strings_view(ws@) == strings_view(warnings@).take(i as int),
        decreases warnings.len() - i,
    {
        let ghost prev = strings_view(ws@);
        ws.push(warnings[i].clone());
        assert(strings_view(ws@) =~= prev.push(strings_view(warnings@)[i as int]));
        assert(strings_view(warnings@).take(i + 1) =~= strings_view(warnings@).take(i as int).push(
            strings_view(warnings@)[i as int],
        ));
        i = i + 1;
    }
    assert(strings_view(warnings@).take(warnings.len() as int) =~= strings_view(warnings@));
    TestPreviewArticle {
        source_url: String::from_str(url),
        title,
        content_snippet: snippet,
        pan_links: Vec::new(),
        direct_links: Vec::new(),
        images: Vec::new(),
        field_warnings: ws,
    }
}

/// The selector check of a test run: some list field had hits, some detail
/// link was found; no missing fields are listed.
pub fn selector_validation(list: &[FieldExtraction], detail_links: usize) -> (r: SelectorValidation)
    ensures
        r.list_item_ok == exists|k: int| 0 <= k < list@.len() && (#[trigger] list@[k]).hits@.len() > 0,
        r.detail_link_ok == (detail_links > 0),
        r.missing_fields@.len() == 0,
{
    let mut ok = false;
    let mut i: usize = 0;
    while i < list.len()
        invariant
            i <= list.len(),
            ok == exists|k: int| 0 <= k < i && (#[trigger] list@[k]).hits@.len() > 0,
        decreases list.len() - i,
    {
        if list[i].hits.len() > 0 {
            ok = true;
        }
        i = i + 1;
    }
    SelectorValidation { list_item_ok: ok, detail_link_ok: detail_links > 0, missing_fields: Vec::new() }
}

} // verus!

verus! {

// ---------------------------------------------------------------------------
// Laws of URL resolution
// ---------------------------------------------------------------------------

/// Absolute `http://` and `https://` links pass through resolution
/// unchanged, whatever the base.
pub proof fn lemma_absolute_url_unchanged(href: Seq<char>, base: Seq<char>)
    requires
        (href.len() >= 7 && href.take(7) == "http://"@) || (href.len() >= 8 && href.take(8) == "https://"@),
    ensures
        resolve_url_spec(href, base) == href,
{
    reveal_strlit("http://");
    reveal_strlit("https://");
    if href.len() >= 7 && href.take(7) == "http://"@ {
        assert(starts_with(href, "http://"@));
    } else {
        assert(starts_with(href, "https://"@));
    }
}

} // verus!
