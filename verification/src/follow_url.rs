//! Outcomes of two-stage `follow_url` extraction: extract a transit URL
//! from the current page, fetch it, extract the value from the response.
//! The fetch is the caller's; the steps before and after it are here.
use vstd::prelude::*;
use crate::engine::{
    absolutize_all, is_url_like, resolve_url, resolve_url_spec, FieldExtraction,
};
use crate::extractor::{
    apply_ops, apply_post_processors, hit_view, hits_view, opt_str, ExtractError, Hit, HitView,
    hit_value,
};
use crate::field_schema::{FieldNodeSpec, FieldType, Rule};
use crate::source_layer::ProbeError;
use crate::text::{push_str, string_from_chars};

verus! {

/// Why a two-stage extraction failed.
#[derive(Debug, Clone, PartialEq, Eq)]
pub enum FollowUrlError {
    /// The transit sub-rule matched nothing.
    TransitEmpty,
    /// The transit sub-rule failed.
    TransitExtract(ExtractError),
    /// Fetching the transit URL failed.
    Fetch(ProbeError),
    /// The extract sub-rule failed.
    ExtractExtract(ExtractError),
    /// The extract sub-rule matched nothing in the fetched page.
    ZeroHits,
}

impl FollowUrlError {
    /// The message shown for the failure.
    pub fn to_display(&self) -> (r: String)
        ensures
            match self {
                FollowUrlError::TransitEmpty => r@ == "transit 子规则未提取到中转 URL（0 命中）"@,
                FollowUrlError::TransitExtract(e) => r@ == "transit 子规则提取失败: "@ + seq!['['] + e.kind.name()
                    + seq![']', ' '] + e.message@,
                FollowUrlError::Fetch(e) => r@ == "二次请求失败: "@ + seq!['['] + e.stage.name() + seq!['/']
                    + e.category.name() + seq![']', ' '] + e.message@,
                FollowUrlError::ExtractExtract(e) => r@ == "extract 子规则提取失败: "@ + seq!['['] + e.kind.name()
                    + seq![']', ' '] + e.message@,
                FollowUrlError::ZeroHits => r@ == "extract 子规则在二次响应未命中（0 条）"@,
            },
    {
        match self {
            FollowUrlError::TransitEmpty => String::from_str("transit 子规则未提取到中转 URL（0 命中）"),
            FollowUrlError::TransitExtract(e) => {
                let mut m: Vec<char> = Vec::new();
                push_str(&mut m, "transit 子规则提取失败: ");
                let d = e.to_display();
                push_str(&mut m, d.as_str());
                string_from_chars(m.as_slice())
            },
            FollowUrlError::Fetch(e) => {
                let mut m: Vec<char> = Vec::new();
                push_str(&mut m, "二次请求失败: ");
                let d = e.to_display();
                push_str(&mut m, d.as_str());
                string_from_chars(m.as_slice())
            },
            FollowUrlError::ExtractExtract(e) => {
                let mut m: Vec<char> = Vec::new();
                push_str(&mut m, "extract 子规则提取失败: ");
                let d = e.to_display();
                push_str(&mut m, d.as_str());
                string_from_chars(m.as_slice())
            },
            FollowUrlError::ZeroHits => String::from_str("extract 子规则在二次响应未命中（0 条）"),
        }
    }
}

/// First stage: the URL to fetch is the first transit hit resolved against
/// the current page's URL; a failed or empty transit stops here.
pub fn transit_target(transit: Result<Vec<Hit>, ExtractError>, base_url: &str) -> (r: Result<String, FollowUrlError>)
    ensures
        match transit {
            Err(e) => r == Err::<String, FollowUrlError>(FollowUrlError::TransitExtract(e)),
            Ok(hits) => if hits@.len() == 0 {
                r == Err::<String, FollowUrlError>(FollowUrlError::TransitEmpty)
            } else {
                r matches Ok(u) && u@ == resolve_url_spec(hit_value(hits@[0]), base_url@)
            },
        },
{
    match transit {
        Err(e) => Err(FollowUrlError::TransitExtract(e)),
        Ok(hits) => {
            if hits.len() == 0 {
                Err(FollowUrlError::TransitEmpty)
            } else {
                Ok(resolve_url(hits[0].value.as_str(), base_url))
            }
        },
    }
}

/// Second stage: a failed fetch or extraction is reported as such, an empty
/// extraction is `ZeroHits`, otherwise the hits are the result.
pub fn follow_result(
    fetched: Result<(), ProbeError>,
    extracted: Result<Vec<Hit>, ExtractError>,
) -> (r: Result<Vec<Hit>, FollowUrlError>)
    ensures
        match (fetched, extracted) {
            (Err(p), _) => r == Err::<Vec<Hit>, FollowUrlError>(FollowUrlError::Fetch(p)),
            (Ok(()), Err(e)) => r == Err::<Vec<Hit>, FollowUrlError>(FollowUrlError::ExtractExtract(e)),
            (Ok(()), Ok(h)) => if h@.len() == 0 {
                r == Err::<Vec<Hit>, FollowUrlError>(FollowUrlError::ZeroHits)
            } else {
                r == Ok::<Vec<Hit>, FollowUrlError>(h)
            },
        },
{
    match fetched {
        Err(p) => Err(FollowUrlError::Fetch(p)),
        Ok(()) => match extracted {
            Err(e) => Err(FollowUrlError::ExtractExtract(e)),
            Ok(h) => if h.len() == 0 {
                Err(FollowUrlError::ZeroHits)
            } else {
                Ok(h)
            },
        },
    }
}

// ---------------------------------------------------------------------------
// The extraction of a follow_url field
// ---------------------------------------------------------------------------

/// The error text a failed follow_url field is stored with.
pub open spec fn follow_error_text(e: FollowUrlError) -> Seq<char> {
    match e {
        FollowUrlError::TransitEmpty => "transit 子规则未提取到中转 URL"@,
        FollowUrlError::TransitExtract(x) => "transit 提取失败: "@ + seq!['['] + x.kind.name() + seq![']', ' ']
            + x.message@,
        FollowUrlError::Fetch(p) => "二次请求失败: "@ + seq!['['] + p.stage.name() + seq!['/'] + p.category.name()
            + seq![']', ' '] + p.message@,
        FollowUrlError::ExtractExtract(x) => "extract 提取失败: "@ + seq!['['] + x.kind.name() + seq![']', ' ']
            + x.message@,
        FollowUrlError::ZeroHits => "extract 子规则在二次响应 0 命中"@,
    }
}

fn follow_error_string(e: &FollowUrlError) -> (r: String)
    ensures
        r@ == follow_error_text(*e),
{
    let mut m: Vec<char> = Vec::new();
    match e {
        FollowUrlError::TransitEmpty => push_str(&mut m, "transit 子规则未提取到中转 URL"),
        FollowUrlError::TransitExtract(x) => {
            push_str(&mut m, "transit 提取失败: ");
            let d = x.to_display();
            push_str(&mut m, d.as_str());
        },
        FollowUrlError::Fetch(p) => {
            push_str(&mut m, "二次请求失败: ");
            let d = p.to_display();
            push_str(&mut m, d.as_str());
        },
        FollowUrlError::ExtractExtract(x) => {
            push_str(&mut m, "extract 提取失败: ");
            let d = x.to_display();
            push_str(&mut m, d.as_str());
        },
        FollowUrlError::ZeroHits => push_str(&mut m, "extract 子规则在二次响应 0 命中"),
    }
    string_from_chars(m.as_slice())
}

/// The hits a follow_url field keeps: its post-processing steps applied
/// (when it has any), then URL-like values made absolute against the page.
pub open spec fn follow_hits(s: FieldNodeSpec, hits: Seq<HitView>, base: Seq<char>) -> Seq<HitView> {
    let p = if s.post_processors@.len() > 0 {
        apply_ops(hits, s.post_processors@, base)
    } else {
        hits
    };
    if is_url_like(s.field_type) {
        absolutize_all(p, base)
    } else {
        p
    }
}

/// The extraction stored for a follow_url field of a detail page, given
/// the outcome of its two stages: path `/detail_page/{name}`, the node's
/// id, scope `detail_page`; the hits on success (see [`follow_hits`]), else
/// no hits and the error text of the failure (see [`follow_error_text`]).
/// A failing field does not affect the others.
pub fn follow_url_extraction(
    s: &FieldNodeSpec,
    outcome: Result<Vec<Hit>, FollowUrlError>,
    base_url: &str,
) -> (r: FieldExtraction)
    ensures
        r.field_path@ == "/detail_page/"@ + s.name@,
        r.field_node_id == s.id,
        r.scope@ == "detail_page"@,
        match outcome {
            Ok(h) => hits_view(r.hits@) == follow_hits(*s, hits_view(h@), base_url@) && r.error is None,
            Err(e) => r.hits@.len() == 0 && opt_str(r.error) == Some(follow_error_text(e)),
        },
{
    let mut path: Vec<char> = Vec::new();
    push_str(&mut path, "/detail_page/");
    push_str(&mut path, s.name.as_str());
    let (hits, error) = match outcome {
        Ok(h) => {
            let p = if s.post_processors.len() > 0 {
                apply_post_processors(h, s.post_processors.as_slice(), base_url)
            } else {
                h
            };
            let is_url = match s.field_type {
                FieldType::Url | FieldType::LinkCard | FieldType::Pagination | FieldType::Image => true,
                _ => false,
            };
            let out = if is_url {
                crate::engine::absolutize_hits(p, base_url)
            } else {
                p
            };
            (out, None)
        },
        Err(e) => (Vec::new(), Some(follow_error_string(&e))),
    };
    FieldExtraction {
        field_path: string_from_chars(path.as_slice()),
        field_node_id: s.id,
        scope: String::from_str("detail_page"),
        hits,
        error,
    }
}

/// Positions of the top-level nodes whose rule is a follow_url rule: the
/// fields extracted in two stages after the synchronous pass.
pub fn follow_url_positions(specs: &[FieldNodeSpec]) -> (r: Vec<usize>)
    ensures
        forall|k: int| 0 <= k < r@.len() ==> (r@[k] as int) < specs@.len() && (#[trigger] specs@[r@[k] as int]).rule is FollowUrl,
        forall|k: int, l: int| 0 <= k < l < r@.len() ==> r@[k] < r@[l],
        forall|j: int| 0 <= j < specs@.len() && (#[trigger] specs@[j]).rule is FollowUrl ==> r@.contains(j as usize),
{
    let mut r: Vec<usize> = Vec::new();
    let mut i: usize = 0;
    while i < specs.len()
        invariant
            i <= specs.len(),
            forall|k: int| 0 <= k < r@.len() ==> (r@[k] as int) < i && (#[trigger] specs@[r@[k] as int]).rule is FollowUrl,
            forall|k: int, l: int| 0 <= k < l < r@.len() ==> r@[k] < r@[l],
            forall|j: int| 0 <= j < i && (#[trigger] specs@[j]).rule is FollowUrl ==> r@.contains(j as usize),
        decreases specs.len() - i,
    {
        if let Rule::FollowUrl(_) = &specs[i].rule {
            let ghost prev = r@;
            r.push(i);
            assert forall|k: int, l: int| 0 <= k < l < r@.len() implies r@[k] < r@[l] by {
                if l < prev.len() {
                    assert(r@[k] == prev[k] && r@[l] == prev[l]);
                } else {
                    assert(r@[k] == prev[k]);
                    assert(specs@[prev[k] as int].rule is FollowUrl);
                    assert(r@[l] == i);
                }
            }
            assert forall|j: int| 0 <= j < i + 1 && (#[trigger] specs@[j]).rule is FollowUrl implies r@.contains(j as usize) by {
                if j < i {
                    let k = choose|k: int| 0 <= k < prev.len() && prev[k] == j as usize;
                    assert(r@[k] == prev[k]);
                } else {
                    assert(r@[r@.len() - 1] == j as usize);
                }
            }
        }
        i = i + 1;
    }
    r
}

} // verus!
