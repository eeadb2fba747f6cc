//! Field probe: requests, samples and the decisions taken around fetching
//! a page and extracting from it (parent checks, zero-hit errors, per-parent
//! grouping), plus the mapping of every failure to a `ProbeError`.
use vstd::prelude::*;
use crate::extractor::{
    apply_ops, apply_post_processors, extract_spec, hits_view, material_input, try_extract,
    ErrSpec, ExtractError, ExtractErrorKind, ExtractInput, Hit, HitView, hit_value, opt_str,
};
use crate::engine::sub_input;
use crate::field_schema::{PostProcessor, Rule, SourceLayer};
use crate::follow_url::FollowUrlError;
use crate::script_engine::{ScriptError, ScriptFailureCategory};
use crate::source_layer::{
    extract_to_hits, lemma_sub_material_input, make_sub_material_from_hit, raw_hits_spec, ProbeCategory,
    ProbeError, ProbeStage, SourceMaterial,
};
use crate::text::{chars_of, push_str, string_from_chars};

verus! {

// ---------------------------------------------------------------------------
// Requests and samples
// ---------------------------------------------------------------------------

/// Rule of a parent field, applied before the child rule.
#[derive(Debug, Clone)]
pub struct ParentFieldDef {
    pub source_layer: SourceLayer,
    pub rule: Rule,
    pub post_processors: Vec<PostProcessor>,
    /// Script block index when `source_layer` is `script`.
    pub script_index: Option<i32>,
}

/// A probe request.
#[derive(Debug, Clone)]
pub struct ProbeRequest {
    /// Target URL, with a scheme.
    pub url: String,
    pub user_agent: Option<String>,
    pub proxy: Option<String>,
    pub source_layer: SourceLayer,
    pub rule: Rule,
    pub post_processors: Vec<PostProcessor>,
    pub script_index: Option<i32>,
    /// Hits of the parent field; with `require_parent` and no parent rule,
    /// an empty list stops the probe before fetching.
    pub parent_hits: Vec<String>,
    pub require_parent: bool,
    /// Parent rule of a nested probe.
    pub parent_field: Option<ParentFieldDef>,
    /// Child samples kept per parent hit (3 by default, at least 1).
    pub per_parent_sample_limit: Option<usize>,
    /// Parent node id, only echoed.
    pub parent_node_id: Option<i64>,
}

/// One sample of a probe answer.
#[derive(Debug, Clone, PartialEq, Eq)]
pub struct ProbeSample {
    pub value: String,
    pub source_fragment: String,
    pub location: Option<String>,
}

/// Child results under one parent hit.
#[derive(Debug, Clone, PartialEq, Eq)]
pub struct PerParentSample {
    /// 0-based index of the parent hit.
    pub parent_index: usize,
    /// Parent value cut to 200 characters.
    pub parent_fragment: String,
    /// First child value, if any.
    pub child_value: Option<String>,
    pub child_hit: bool,
    /// Child samples, at most the per-parent limit; `None` without hits.
    pub child_samples: Option<Vec<ProbeSample>>,
}

/// A sample as views: value, source fragment, location.
pub type SampleView = (Seq<char>, Seq<char>, Option<Seq<char>>);

pub open spec fn sample_view(s: ProbeSample) -> SampleView {
    (s.value@, s.source_fragment@, opt_str(s.location))
}

pub open spec fn samples_view(s: Seq<ProbeSample>) -> Seq<SampleView> {
    Seq::new(s.len(), |i: int| sample_view(s[i]))
}

/// The sample a hit gives.
pub open spec fn hit_sample(h: Hit) -> SampleView {
    (h.value@, h.source_fragment@, opt_str(h.location))
}

pub open spec fn hit_samples(h: Seq<Hit>) -> Seq<SampleView> {
    Seq::new(h.len(), |i: int| hit_sample(h[i]))
}

fn clone_opt_string(o: &Option<String>) -> (r: Option<String>)
    ensures
        opt_str(r) == opt_str(*o),
{
    match o {
        Some(s) => Some(s.clone()),
        None => None,
    }
}

/// The samples of the first `n` hits.
pub fn samples_of(hits: &Vec<Hit>, n: usize) -> (r: Vec<ProbeSample>)
    ensures
        samples_view(r@) == hit_samples(hits@.take(if n <= hits.len() { n as int } else { hits.len() as int })),
{
    let n = if n <= hits.len() { n } else { hits.len() };
    let mut out: Vec<ProbeSample> = Vec::new();
    let mut i: usize = 0;
    while i < n
        invariant
            i <= n <= hits.len(),
            samples_view(out@) == hit_samples(hits@.take(i as int)),
        decreases n - i,
    {
        let h = &hits[i];
        let s = ProbeSample {
            value: h.value.clone(),
            source_fragment: h.source_fragment.clone(),
            location: clone_opt_string(&h.location),
        };
        let ghost before = samples_view(out@);
        out.push(s);
        assert(samples_view(out@) =~= before.push(sample_view(s)));
        assert(hit_samples(hits@.take(i + 1)) =~= hit_samples(hits@.take(i as int)).push(hit_sample(hits@[i as int])));
        i = i + 1;
    }
    out
}

/// `s` cut to its first `max_chars` characters followed by `…` when longer.
pub open spec fn truncated(s: Seq<char>, max_chars: nat) -> Seq<char> {
    if s.len() <= max_chars {
        s
    } else {
        s.take(max_chars as int).push('…')
    }
}

/// `s` cut to `max_chars` characters, with an ellipsis when it was longer.
pub fn truncate_fragment(s: &str, max_chars: usize) -> (r: String)
    ensures
        r@ == truncated(s@, max_chars as nat),
{
    let v = chars_of(s);
    if v.len() <= max_chars {
        return String::from_str(s);
    }
    let mut out: Vec<char> = Vec::new();
    let mut i: usize = 0;
    while i < max_chars
        invariant
            i <= max_chars < v.len(),
            out@ == v@.take(i as int),
        decreases max_chars - i,
    {
        out.push(v[i]);
        assert(v@.take(i + 1) =~= v@.take(i as int).push(v@[i as int]));
        i = i + 1;
    }
    out.push('…');
    string_from_chars(out.as_slice())
}

// ---------------------------------------------------------------------------
// Error mapping
// ---------------------------------------------------------------------------

/// Hint given for an extraction error of kind `k`.
pub open spec fn extract_hint(k: ExtractErrorKind) -> Option<Seq<char>> {
    match k {
        ExtractErrorKind::SourceMissing => Some("检查 source_layer 与 script_index 是否对应源码 tab 中的真实索引"@),
        ExtractErrorKind::UnsupportedMode => Some("此匹配模式将在后续版本支持"@),
        ExtractErrorKind::InvalidRule => None,
    }
}

/// Every extraction error is a `Parse / InvalidRule` probe error with the
/// same message; missing sources and unsupported modes carry a hint.
pub fn map_extract_error(err: ExtractError) -> (r: ProbeError)
    ensures
        r.stage == ProbeStage::Parse,
        r.category == ProbeCategory::InvalidRule,
        r.message@ == err.message@,
        opt_str(r.hint) == extract_hint(err.kind),
{
    let pe = ProbeError::new(ProbeStage::Parse, ProbeCategory::InvalidRule, err.message.as_str());
    match err.kind {
        ExtractErrorKind::SourceMissing => pe.with_hint("检查 source_layer 与 script_index 是否对应源码 tab 中的真实索引"),
        ExtractErrorKind::UnsupportedMode => pe.with_hint("此匹配模式将在后续版本支持"),
        ExtractErrorKind::InvalidRule => pe,
    }
}

/// The probe error of a failed two-stage extraction: empty stages are
/// `Match / ZeroHits` with a hint, extraction errors are mapped, a failed
/// fetch is passed through.
pub fn follow_url_err_to_probe_error(err: FollowUrlError) -> (r: ProbeError)
    ensures
        match err {
            FollowUrlError::TransitEmpty => r.stage == ProbeStage::Match && r.category == ProbeCategory::ZeroHits
                && r.message@ == "follow_url.transit 子规则未提取到中转 URL（0 命中）"@
                && opt_str(r.hint) == Some("检查 transit 子规则与 transit_layer 是否匹配当前源码 tab"@),
            FollowUrlError::TransitExtract(e) => r.stage == ProbeStage::Parse && r.category
                == ProbeCategory::InvalidRule && r.message@ == e.message@ && opt_str(r.hint) == extract_hint(e.kind),
            FollowUrlError::Fetch(p) => r == p,
            FollowUrlError::ExtractExtract(e) => r.stage == ProbeStage::Parse && r.category
                == ProbeCategory::InvalidRule && r.message@ == e.message@ && opt_str(r.hint) == extract_hint(e.kind),
            FollowUrlError::ZeroHits => r.stage == ProbeStage::Match && r.category == ProbeCategory::ZeroHits
                && r.message@ == "follow_url.extract 子规则在二次响应未命中（0 条）"@
                && opt_str(r.hint) == Some("检查 extract 子规则与 target_layer 是否匹配二次响应的源码 tab"@),
        },
{
    match err {
        FollowUrlError::TransitEmpty => ProbeError::new(
            ProbeStage::Match,
            ProbeCategory::ZeroHits,
            "follow_url.transit 子规则未提取到中转 URL（0 命中）",
        ).with_hint("检查 transit 子规则与 transit_layer 是否匹配当前源码 tab"),
        FollowUrlError::TransitExtract(e) => map_extract_error(e),
        FollowUrlError::Fetch(e) => e,
        FollowUrlError::ExtractExtract(e) => map_extract_error(e),
        FollowUrlError::ZeroHits => ProbeError::new(
            ProbeStage::Match,
            ProbeCategory::ZeroHits,
            "follow_url.extract 子规则在二次响应未命中（0 条）",
        ).with_hint("检查 extract 子规则与 target_layer 是否匹配二次响应的源码 tab"),
    }
}

/// Stage, category and hint of a script failure: compile-time problems are
/// `Parse / InvalidRule`, run-time ones `Match / InvalidRule`, network ones
/// `Fetch / UrlUnreachable`.
pub open spec fn script_mapping(c: ScriptFailureCategory) -> (ProbeStage, ProbeCategory, Seq<char>) {
    match c {
        ScriptFailureCategory::SyntaxError | ScriptFailureCategory::SecurityViolation
        | ScriptFailureCategory::TypeError => (
            ProbeStage::Parse,
            ProbeCategory::InvalidRule,
            "脚本编译期失败：检查 script.body 语法 / 是否含被禁标识符"@,
        ),
        ScriptFailureCategory::RuntimeError => (
            ProbeStage::Match,
            ProbeCategory::InvalidRule,
            "脚本运行期抛错：检查 ctx.value / ctx.fields 访问路径"@,
        ),
        ScriptFailureCategory::Timeout => (
            ProbeStage::Match,
            ProbeCategory::InvalidRule,
            "脚本执行超时（默认 100ms）：简化逻辑或拆分多字段"@,
        ),
        ScriptFailureCategory::NetworkError => (
            ProbeStage::Fetch,
            ProbeCategory::UrlUnreachable,
            "ctx.fetch 网络错（含 SSRF 拒绝 / 响应超阈值）"@,
        ),
    }
}

/// The probe error of a failed script: message `[category] message`, with
/// the stage, category and hint of [`script_mapping`].
pub fn script_err_to_probe_error(err: ScriptError) -> (r: ProbeError)
    ensures
        r.stage == script_mapping(err.category).0,
        r.category == script_mapping(err.category).1,
        opt_str(r.hint) == Some(script_mapping(err.category).2),
        r.message@ == seq!['['] + err.category.label() + seq![']', ' '] + err.message@,
{
    let (stage, category, hint): (ProbeStage, ProbeCategory, &str) = match err.category {
        ScriptFailureCategory::SyntaxError | ScriptFailureCategory::SecurityViolation
        | ScriptFailureCategory::TypeError => (
            ProbeStage::Parse,
            ProbeCategory::InvalidRule,
            "脚本编译期失败：检查 script.body 语法 / 是否含被禁标识符",
        ),
        ScriptFailureCategory::RuntimeError => (
            ProbeStage::Match,
            ProbeCategory::InvalidRule,
            "脚本运行期抛错：检查 ctx.value / ctx.fields 访问路径",
        ),
        ScriptFailureCategory::Timeout => (
            ProbeStage::Match,
            ProbeCategory::InvalidRule,
            "脚本执行超时（默认 100ms）：简化逻辑或拆分多字段",
        ),
        ScriptFailureCategory::NetworkError => (
            ProbeStage::Fetch,
            ProbeCategory::UrlUnreachable,
            "ctx.fetch 网络错（含 SSRF 拒绝 / 响应超阈值）",
        ),
    };
    let message = err.to_display();
    ProbeError::new(stage, category, message.as_str()).with_hint(hint)
}

// ---------------------------------------------------------------------------
// Decisions around fetching and extracting
// ---------------------------------------------------------------------------

/// A probe that requires parent hits, has none and no parent rule stops
/// with `Match / ParentEmpty` before anything is fetched.
pub fn check_parent_precondition(req: &ProbeRequest) -> (r: Result<(), ProbeError>)
    ensures
        match r {
            Ok(()) => !(req.require_parent && req.parent_hits@.len() == 0 && req.parent_field is None),
            Err(e) => req.require_parent && req.parent_hits@.len() == 0 && req.parent_field is None
                && e.stage == ProbeStage::Match && e.category == ProbeCategory::ParentEmpty
                && e.message@ == "父字段 0 命中，子字段无法运行（请先修正父字段规则）"@ && e.hint is None,
        },
{
    if req.require_parent && req.parent_hits.len() == 0 && req.parent_field.is_none() {
        return Err(ProbeError::new(
            ProbeStage::Match,
            ProbeCategory::ParentEmpty,
            "父字段 0 命中，子字段无法运行（请先修正父字段规则）",
        ));
    }
    Ok(())
}

/// Post-processed hits of a single-field probe: none is a `Match /
/// ZeroHits` error with `zero_message`, else every hit becomes a sample.
pub fn single_field_samples(hits: Vec<Hit>, zero_message: &str) -> (r: Result<Vec<ProbeSample>, ProbeError>)
    ensures
        match r {
            Ok(s) => hits@.len() > 0 && samples_view(s@) == hit_samples(hits@),
            Err(e) => hits@.len() == 0 && e.stage == ProbeStage::Match && e.category == ProbeCategory::ZeroHits
                && e.message@ == zero_message@ && e.hint is None,
        },
{
    if hits.len() == 0 {
        return Err(ProbeError::new(ProbeStage::Match, ProbeCategory::ZeroHits, zero_message));
    }
    let s = samples_of(&hits, hits.len());
    assert(hits@.take(hits@.len() as int) =~= hits@);
    Ok(s)
}

/// Parent hits of a nested probe: none is `Match / ParentEmpty` with a hint.
pub fn check_parent_hits(parent_hits: &Vec<Hit>) -> (r: Result<(), ProbeError>)
    ensures
        match r {
            Ok(()) => parent_hits@.len() > 0,
            Err(e) => parent_hits@.len() == 0 && e.stage == ProbeStage::Match
                && e.category == ProbeCategory::ParentEmpty
                && e.message@ == "父字段 0 命中，子字段无法运行（请先修正父字段规则）"@
                && opt_str(e.hint) == Some("检查父字段规则与源码 tab；父字段无命中时子字段无作用域可匹配"@),
        },
{
    if parent_hits.len() == 0 {
        return Err(ProbeError::new(
            ProbeStage::Match,
            ProbeCategory::ParentEmpty,
            "父字段 0 命中，子字段无法运行（请先修正父字段规则）",
        ).with_hint("检查父字段规则与源码 tab；父字段无命中时子字段无作用域可匹配"));
    }
    Ok(())
}

/// Child samples kept per parent: the requested number (3 by default), at
/// least 1.
pub open spec fn sample_limit(requested: Option<usize>) -> usize {
    let n = match requested {
        Some(n) => n,
        None => 3,
    };
    if n < 1 {
        1
    } else {
        n
    }
}

pub fn per_parent_limit(requested: Option<usize>) -> (r: usize)
    ensures
        r == sample_limit(requested),
{
    let n = match requested {
        Some(n) => n,
        None => 3,
    };
    if n < 1 {
        1
    } else {
        n
    }
}

/// The result under parent hit `index`: the parent value cut to 200
/// characters, the first child value, whether any child hit, and at most
/// `limit` child samples (`None` without child hits).
pub fn per_parent_sample(index: usize, parent: &Hit, child: &Vec<Hit>, limit: usize) -> (r: PerParentSample)
    ensures
        r.parent_index == index,
        r.parent_fragment@ == truncated(parent.value@, 200),
        r.child_hit == (child@.len() > 0),
        opt_str(r.child_value) == (if child@.len() > 0 {
            Some(hit_value(child@[0]))
        } else {
            None::<Seq<char>>
        }),
        match r.child_samples {
            None => child@.len() == 0,
            Some(s) => child@.len() > 0 && samples_view(s@) == hit_samples(
                child@.take(if child@.len() < limit { child@.len() as int } else { limit as int }),
            ),
        },
{
    let first = if child.len() > 0 {
        Some(child[0].value.clone())
    } else {
        None
    };
    let samples = if child.len() == 0 {
        None
    } else {
        let n = if child.len() < limit { child.len() } else { limit };
        Some(samples_of(child, n))
    };
    PerParentSample {
        parent_index: index,
        parent_fragment: truncate_fragment(parent.value.as_str(), 200),
        child_value: first,
        child_hit: child.len() > 0,
        child_samples: samples,
    }
}

} // verus!

verus! {

// ---------------------------------------------------------------------------
// Probing a fetched page
// ---------------------------------------------------------------------------

/// A probe answer.
#[derive(Debug)]
pub struct ProbeResponse {
    pub hit_count: usize,
    pub samples: Vec<ProbeSample>,
    /// Child results per parent hit, for a nested probe.
    pub per_parent: Option<Vec<PerParentSample>>,
    pub fetched_url: String,
    pub fetched_at: chrono::NaiveDateTime,
    pub duration_ms: u64,
}

/// A probe error as views: stage, category, message, hint.
pub type ProbeErrorView = (ProbeStage, ProbeCategory, Seq<char>, Option<Seq<char>>);

pub open spec fn probe_error_view(e: ProbeError) -> ProbeErrorView {
    (e.stage, e.category, e.message@, opt_str(e.hint))
}

/// The probe error an extraction error becomes (see [`map_extract_error`]).
pub open spec fn mapped_extract_error(x: ErrSpec) -> ProbeErrorView {
    (ProbeStage::Parse, ProbeCategory::InvalidRule, x.1, extract_hint(x.0))
}

/// Samples of hit views.
pub open spec fn view_samples(hs: Seq<HitView>) -> Seq<SampleView> {
    Seq::new(hs.len(), |i: int| (hs[i].0, hs[i].1, hs[i].2))
}

/// A per-parent result as views.
pub type PerParentView = (usize, Seq<char>, Option<Seq<char>>, bool, Option<Seq<SampleView>>);

pub open spec fn per_parent_view(p: PerParentSample) -> PerParentView {
    (
        p.parent_index,
        p.parent_fragment@,
        opt_str(p.child_value),
        p.child_hit,
        match p.child_samples {
            Some(v) => Some(samples_view(v@)),
            None => None,
        },
    )
}

pub open spec fn per_parent_views(v: Seq<PerParentSample>) -> Seq<PerParentView> {
    Seq::new(v.len(), |i: int| per_parent_view(v[i]))
}

/// The result under parent hit `index` from its value and the child hits.
pub open spec fn per_parent_spec(index: usize, parent_value: Seq<char>, child: Seq<HitView>, limit: usize) -> PerParentView {
    (
        index,
        truncated(parent_value, 200),
        if child.len() > 0 { Some(child[0].0) } else { None },
        child.len() > 0,
        if child.len() == 0 {
            None
        } else {
            Some(view_samples(child.take(if child.len() < limit { child.len() as int } else { limit as int })))
        },
    )
}

/// A probe answer as views: hit count, samples, per-parent results,
/// fetched URL, fetch time, duration.
pub type ResponseView = (usize, Seq<SampleView>, Option<Seq<PerParentView>>, Seq<char>, chrono::NaiveDateTime, u64);

pub open spec fn response_view(r: ProbeResponse) -> ResponseView {
    (
        r.hit_count,
        samples_view(r.samples@),
        match r.per_parent {
            Some(v) => Some(per_parent_views(v@)),
            None => None,
        },
        r.fetched_url@,
        r.fetched_at,
        r.duration_ms,
    )
}

/// A probe result against its statement.
pub open spec fn probe_agrees(r: Option<Result<ProbeResponse, ProbeError>>, x: Option<Result<ResponseView, ProbeErrorView>>) -> bool {
    match x {
        None => r is None,
        Some(Ok(v)) => r matches Some(Ok(resp)) && response_view(resp) == v,
        Some(Err(e)) => r matches Some(Err(pe)) && probe_error_view(pe) == e,
    }
}

/// A single-field probe on a fetched page: the rule on its layer, then its
/// post-processors; an extraction error is mapped, no hit is `Match /
/// ZeroHits`. `None` where the extraction would panic.
pub open spec fn single_probe_spec(req: ProbeRequest, m: SourceMaterial) -> Option<Result<ResponseView, ProbeErrorView>> {
    match extract_spec(req.rule, material_input(m, req.script_index, req.source_layer)) {
        None => None,
        Some(Err(x)) => Some(Err(mapped_extract_error(x))),
        Some(Ok(h)) => {
            let hits = apply_ops(h, req.post_processors@, m.final_url@);
            if hits.len() == 0 {
                Some(Err((ProbeStage::Match, ProbeCategory::ZeroHits, "字段未命中（0 条）：请检查规则与源码 tab 是否匹配"@, None)))
            } else {
                Some(Ok((hits.len() as usize, view_samples(hits), None, m.final_url@, m.fetched_at, m.duration_ms)))
            }
        },
    }
}

proof fn lemma_hit_samples_views(h: Seq<Hit>)
    ensures
        hit_samples(h) == view_samples(hits_view(h)),
{
    assert(hit_samples(h) =~= view_samples(hits_view(h)));
}

/// The probe of a single field on a fetched page.
pub fn run_single_probe(req: &ProbeRequest, material: &SourceMaterial) -> (r: Option<Result<ProbeResponse, ProbeError>>)
    ensures
        probe_agrees(r, single_probe_spec(*req, *material)),
{
    let input = ExtractInput::from_material(material, req.script_index).with_layer(req.source_layer);
    let raw = match try_extract(&req.rule, &input) {
        None => {
            return None;
        },
        Some(Err(e)) => {
            return Some(Err(map_extract_error(e)));
        },
        Some(Ok(h)) => h,
    };
    let hits = apply_post_processors(raw, req.post_processors.as_slice(), material.final_url.as_str());
    let n = hits.len();
    match single_field_samples(hits, "字段未命中（0 条）：请检查规则与源码 tab 是否匹配") {
        Err(e) => Some(Err(e)),
        Ok(samples) => {
            proof {
                lemma_hit_samples_views(hits@);
            }
            Some(Ok(ProbeResponse {
                hit_count: n,
                samples,
                per_parent: None,
                fetched_url: material.final_url.clone(),
                fetched_at: material.fetched_at,
                duration_ms: material.duration_ms,
            }))
        },
    }
}

/// The children of a nested probe under the first `n` parent hits: the
/// per-parent results and all child hits, in parent order.
#[verifier::opaque]
pub open spec fn nested_children(req: ProbeRequest, m: SourceMaterial, parents: Seq<HitView>, limit: usize, n: int) -> Option<(Seq<PerParentView>, Seq<HitView>)>
    decreases n,
{
    if n <= 0 {
        Some((Seq::empty(), Seq::empty()))
    } else {
        match nested_children(req, m, parents, limit, n - 1) {
            None => None,
            Some((pp, all)) => match raw_hits_spec(req.rule, sub_input(parents[n - 1], m, req.script_index, req.source_layer)) {
                None => None,
                Some(raw) => {
                    let child = apply_ops(raw, req.post_processors@, m.final_url@);
                    Some((pp.push(per_parent_spec((n - 1) as usize, parents[n - 1].0, child, limit)), all + child))
                },
            },
        }
    }
}

/// A nested probe on a fetched page: the parent rule first (its error is
/// mapped; no parent hit is `Match / ParentEmpty`), then the child rule
/// under each parent hit, where a failing child gives no hits. `None` where
/// an extraction would panic.
pub open spec fn nested_probe_spec(req: ProbeRequest, m: SourceMaterial, pf: ParentFieldDef) -> Option<Result<ResponseView, ProbeErrorView>> {
    match extract_spec(pf.rule, material_input(m, pf.script_index, pf.source_layer)) {
        None => None,
        Some(Err(x)) => Some(Err(mapped_extract_error(x))),
        Some(Ok(h)) => {
            let parents = apply_ops(h, pf.post_processors@, m.final_url@);
            if parents.len() == 0 {
                Some(Err((
                    ProbeStage::Match,
                    ProbeCategory::ParentEmpty,
                    "父字段 0 命中，子字段无法运行（请先修正父字段规则）"@,
                    Some("检查父字段规则与源码 tab；父字段无命中时子字段无作用域可匹配"@),
                )))
            } else {
                match nested_children(req, m, parents, sample_limit(req.per_parent_sample_limit), parents.len() as int) {
                    None => None,
                    Some((pp, all)) => Some(Ok((all.len() as usize, view_samples(all), Some(pp), m.final_url@, m.fetched_at, m.duration_ms))),
                }
            }
        },
    }
}

proof fn lemma_nested_none_stays(req: ProbeRequest, m: SourceMaterial, parents: Seq<HitView>, limit: usize, j: int, n: int)
    requires
        0 <= j <= n,
        nested_children(req, m, parents, limit, j) is None,
    ensures
        nested_children(req, m, parents, limit, n) is None,
    decreases n - j,
{
    if j < n {
        lemma_nested_none_stays(req, m, parents, limit, j, n - 1);
        reveal(nested_children);
    }
}

proof fn lemma_nested_zero(req: ProbeRequest, m: SourceMaterial, parents: Seq<HitView>, limit: usize)
    ensures
        nested_children(req, m, parents, limit, 0) == Some::<(Seq<PerParentView>, Seq<HitView>)>((Seq::empty(), Seq::empty())),
{
    reveal(nested_children);
}

proof fn lemma_nested_none_step(req: ProbeRequest, m: SourceMaterial, parents: Seq<HitView>, limit: usize, idx: int)
    requires
        0 <= idx < parents.len(),
        nested_children(req, m, parents, limit, idx) is Some,
        raw_hits_spec(req.rule, sub_input(parents[idx], m, req.script_index, req.source_layer)) is None,
    ensures
        nested_children(req, m, parents, limit, idx + 1) is None,
{
    reveal(nested_children);
}

proof fn lemma_nested_step(
    req: ProbeRequest,
    m: SourceMaterial,
    parents: Seq<HitView>,
    limit: usize,
    idx: int,
    pp: Seq<PerParentView>,
    all: Seq<HitView>,
    pview: PerParentView,
    child: Seq<HitView>,
)
    requires
        0 <= idx < parents.len(),
        nested_children(req, m, parents, limit, idx) == Some::<(Seq<PerParentView>, Seq<HitView>)>((pp, all)),
        raw_hits_spec(req.rule, sub_input(parents[idx], m, req.script_index, req.source_layer)) matches Some(raw)
            && child == apply_ops(raw, req.post_processors@, m.final_url@),
        pview == per_parent_spec(idx as usize, parents[idx].0, child, limit),
    ensures
        nested_children(req, m, parents, limit, idx + 1) == Some::<(Seq<PerParentView>, Seq<HitView>)>((pp.push(pview), all + child)),
{
    reveal(nested_children);
}

/// The result under one parent hit, and the child hits there.
fn nested_step(req: &ProbeRequest, material: &SourceMaterial, ph: &Hit, idx: usize, limit: usize) -> (r: Option<(PerParentSample, Vec<Hit>)>)
    ensures
        match raw_hits_spec(req.rule, sub_input(crate::extractor::hit_view(*ph), *material, req.script_index, req.source_layer)) {
            None => r is None,
            Some(raw) => r matches Some((p, v)) && hits_view(v@) == apply_ops(raw, req.post_processors@, material.final_url@)
                && per_parent_view(p) == per_parent_spec(idx, ph.value@, hits_view(v@), limit),
        },
{
    let sub = make_sub_material_from_hit(ph, material);
    proof {
        lemma_sub_material_input(*ph, *material, sub, req.script_index, req.source_layer);
    }
    let child_raw = match extract_to_hits(&req.rule, req.source_layer, req.script_index, &sub) {
        None => {
            return None;
        },
        Some(h) => h,
    };
    let child_final = apply_post_processors(child_raw, req.post_processors.as_slice(), sub.final_url.as_str());
    let ghost cv = hits_view(child_final@);
    let pps = per_parent_sample(idx, ph, &child_final, limit);
    proof {
        let k = if child_final@.len() < limit { child_final@.len() as int } else { limit as int };
        lemma_hit_samples_views(child_final@.take(k));
        assert(hits_view(child_final@.take(k)) =~= cv.take(k));
    }
    assert(per_parent_view(pps) == per_parent_spec(idx, ph.value@, cv, limit));
    Some((pps, child_final))
}

/// The probe of a child field under the hits of its parent field, on a
/// fetched page.
pub fn run_nested_probe(req: &ProbeRequest, material: &SourceMaterial, parent_field: &ParentFieldDef) -> (r: Option<Result<ProbeResponse, ProbeError>>)
    ensures
        probe_agrees(r, nested_probe_spec(*req, *material, *parent_field)),
{
    let p_input = ExtractInput::from_material(material, parent_field.script_index).with_layer(parent_field.source_layer);
    let p_raw = match try_extract(&parent_field.rule, &p_input) {
        None => {
            return None;
        },
        Some(Err(e)) => {
            return Some(Err(map_extract_error(e)));
        },
        Some(Ok(h)) => h,
    };
    let parent_hits = apply_post_processors(p_raw, parent_field.post_processors.as_slice(), material.final_url.as_str());
    match check_parent_hits(&parent_hits) {
        Err(e) => {
            return Some(Err(e));
        },
        Ok(()) => {},
    }
    let limit = per_parent_limit(req.per_parent_sample_limit);
    let ghost parents = hits_view(parent_hits@);
    let mut per_parent: Vec<PerParentSample> = Vec::new();
    let mut all_child_hits: Vec<Hit> = Vec::new();
    let mut idx: usize = 0;
    assert(per_parent_views(per_parent@) =~= Seq::<PerParentView>::empty());
    assert(hits_view(all_child_hits@) =~= Seq::<HitView>::empty());
    proof {
        lemma_nested_zero(*req, *material, parents, limit);
    }
    assert(nested_probe_spec(*req, *material, *parent_field) == match nested_children(*req, *material, parents, limit, parents.len() as int) {
        None => None,
        Some((pp, all)) => Some(Ok::<ResponseView, ProbeErrorView>((all.len() as usize, view_samples(all), Some(pp), material.final_url@, material.fetched_at, material.duration_ms))),
    });
    while idx < parent_hits.len()
        invariant
            nested_probe_spec(*req, *material, *parent_field) == match nested_children(*req, *material, parents, limit, parents.len() as int) {
                None => None,
                Some((pp, all)) => Some(Ok::<ResponseView, ProbeErrorView>((all.len() as usize, view_samples(all), Some(pp), material.final_url@, material.fetched_at, material.duration_ms))),
            },
            idx <= parent_hits.len(),
            parents == hits_view(parent_hits@),
            limit == sample_limit(req.per_parent_sample_limit),
            nested_children(*req, *material, parents, limit, idx as int)
                == Some::<(Seq<PerParentView>, Seq<HitView>)>((per_parent_views(per_parent@), hits_view(all_child_hits@))),
        decreases parent_hits.len() - idx,
    {
        assert(parents[idx as int] == crate::extractor::hit_view(parent_hits@[idx as int]));
        let (pps, child_final) = match nested_step(req, material, &parent_hits[idx], idx, limit) {
            None => {
                proof {
                    lemma_nested_none_step(*req, *material, parents, limit, idx as int);
                    lemma_nested_none_stays(*req, *material, parents, limit, idx + 1, parent_hits@.len() as int);
                }
                return None;
            },
            Some(p) => p,
        };
        let ghost pre_pp = per_parent_views(per_parent@);
        let ghost pre_all = hits_view(all_child_hits@);
        let ghost cv = hits_view(child_final@);
        proof {
            lemma_nested_step(*req, *material, parents, limit, idx as int, pre_pp, pre_all, per_parent_view(pps), cv);
        }
        per_parent.push(pps);
        assert(per_parent_views(per_parent@) =~= pre_pp.push(per_parent_view(pps)));
        let mut cf = child_final;
        let ghost all0 = all_child_hits@;
        let ghost cf0 = cf@;
        all_child_hits.append(&mut cf);
        assert(hits_view(all_child_hits@) =~= hits_view(all0) + hits_view(cf0));
        idx = idx + 1;
    }
    let n = all_child_hits.len();
    let samples = samples_of(&all_child_hits, n);
    proof {
        assert(all_child_hits@.take(n as int) =~= all_child_hits@);
        lemma_hit_samples_views(all_child_hits@);
    }
    Some(Ok(ProbeResponse {
        hit_count: n,
        samples,
        per_parent: Some(per_parent),
        fetched_url: material.final_url.clone(),
        fetched_at: material.fetched_at,
        duration_ms: material.duration_ms,
    }))
}

} // verus!
