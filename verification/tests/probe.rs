use crawler::extractor::{ExtractError, ExtractErrorKind, Hit};
use crawler::field_schema::{CssRule, ExtractorMode, Rule, SourceLayer};
use crawler::follow_url::FollowUrlError;
use crawler::probe::{
    check_parent_hits, check_parent_precondition, follow_url_err_to_probe_error,
    map_extract_error, per_parent_limit, per_parent_sample, script_err_to_probe_error,
    single_field_samples, truncate_fragment, ProbeRequest,
};
use crawler::script_engine::{ScriptError, ScriptFailureCategory};
use crawler::source_layer::{ProbeCategory, ProbeError, ProbeStage};
use std::collections::HashMap;

#[test]
fn map_extract_error_invalid_rule() {
    let e = ExtractError::new(ExtractErrorKind::InvalidRule, "bad css");
    let pe = map_extract_error(e);
    assert_eq!(pe.stage, ProbeStage::Parse);
    assert_eq!(pe.category, ProbeCategory::InvalidRule);
    assert!(pe.hint.is_none());
}

#[test]
fn map_extract_error_source_missing_has_hint() {
    let e = ExtractError::new(ExtractErrorKind::SourceMissing, "script_index 99 越界");
    let pe = map_extract_error(e);
    assert_eq!(pe.category, ProbeCategory::InvalidRule);
    assert!(pe.hint.is_some());
    assert!(pe.hint.unwrap().contains("script_index"));
}

#[test]
fn map_extract_error_unsupported_mode_has_hint() {
    let e = ExtractError::new(ExtractErrorKind::UnsupportedMode, "json_path 暂不支持");
    let pe = map_extract_error(e);
    assert_eq!(pe.category, ProbeCategory::InvalidRule);
    assert!(pe.hint.unwrap().contains("后续版本"));
}

#[test]
fn _ensure_hashmap_import_used() {
    let _m: HashMap<String, String> = HashMap::new();
}

#[test]
fn extractor_mode_six_kinds_exist() {
    for s in ["css", "regex", "prefix_suffix", "json_path", "meta_attr", "header_field"] {
        assert!(ExtractorMode::from_str(s).is_some());
    }
}

#[test]
fn truncate_fragment_short_unchanged() {
    assert_eq!(truncate_fragment("hi", 200), "hi");
    assert_eq!(truncate_fragment("", 200), "");
}

#[test]
fn truncate_fragment_long_truncates_with_ellipsis() {
    let long = "a".repeat(300);
    let t = truncate_fragment(&long, 10);
    assert_eq!(t.chars().count(), 11);
    assert!(t.ends_with('…'));
}

#[test]
fn extractor_mode_seven_kinds_exist() {
    for s in ["css", "regex", "prefix_suffix", "json_path", "meta_attr", "header_field", "script"] {
        assert!(ExtractorMode::from_str(s).is_some(), "缺失 mode: {s}");
    }
}

fn hit(v: &str) -> Hit {
    Hit { value: v.into(), source_fragment: "css:a".into(), location: Some("node[0]".into()), context_html: None }
}

fn req(require_parent: bool, parent_hits: Vec<String>) -> ProbeRequest {
    ProbeRequest {
        url: "https://example.com/".into(),
        user_agent: None,
        proxy: None,
        source_layer: SourceLayer::Html,
        rule: Rule::Css(CssRule { selector: "a".into(), attr: "text".into() }),
        post_processors: vec![],
        script_index: None,
        parent_hits,
        require_parent,
        parent_field: None,
        per_parent_sample_limit: None,
        parent_node_id: None,
    }
}

#[test]
fn parent_required_but_empty_stops_early() {
    let e = check_parent_precondition(&req(true, vec![])).unwrap_err();
    assert_eq!(e.category, ProbeCategory::ParentEmpty);
    assert_eq!(e.stage, ProbeStage::Match);
    assert!(check_parent_precondition(&req(false, vec![])).is_ok());
    assert!(check_parent_precondition(&req(true, vec!["x".into()])).is_ok());
}

#[test]
fn single_field_zero_hits_and_samples() {
    let e = single_field_samples(vec![], "字段未命中（0 条）").unwrap_err();
    assert_eq!(e.category, ProbeCategory::ZeroHits);
    assert_eq!(e.message, "字段未命中（0 条）");
    let s = single_field_samples(vec![hit("a"), hit("b")], "none").unwrap();
    assert_eq!(s.len(), 2);
    assert_eq!(s[1].value, "b");
    assert_eq!(s[0].location.as_deref(), Some("node[0]"));
}

#[test]
fn nested_parent_empty() {
    let e = check_parent_hits(&vec![]).unwrap_err();
    assert_eq!(e.category, ProbeCategory::ParentEmpty);
    assert!(e.hint.is_some());
    assert!(check_parent_hits(&vec![hit("p")]).is_ok());
}

#[test]
fn per_parent_limit_defaults_and_floor() {
    assert_eq!(per_parent_limit(None), 3);
    assert_eq!(per_parent_limit(Some(0)), 1);
    assert_eq!(per_parent_limit(Some(7)), 7);
}

#[test]
fn per_parent_sample_truncates_children() {
    let parent = hit(&"p".repeat(250));
    let child = vec![hit("c1"), hit("c2"), hit("c3")];
    let s = per_parent_sample(4, &parent, &child, 2);
    assert_eq!(s.parent_index, 4);
    assert_eq!(s.parent_fragment.chars().count(), 201);
    assert_eq!(s.child_value.as_deref(), Some("c1"));
    assert!(s.child_hit);
    assert_eq!(s.child_samples.as_ref().unwrap().len(), 2);
    let none = per_parent_sample(0, &hit("p"), &vec![], 2);
    assert!(!none.child_hit);
    assert!(none.child_samples.is_none());
    assert!(none.child_value.is_none());
}

#[test]
fn follow_url_errors_map_to_probe_errors() {
    let e = follow_url_err_to_probe_error(FollowUrlError::TransitEmpty);
    assert_eq!(e.category, ProbeCategory::ZeroHits);
    assert!(e.hint.unwrap().contains("transit"));
    let p = ProbeError::new(ProbeStage::Fetch, ProbeCategory::Http4xx5xx, "HTTP 404");
    assert_eq!(follow_url_err_to_probe_error(FollowUrlError::Fetch(p.clone())), p);
    let x = follow_url_err_to_probe_error(FollowUrlError::ExtractExtract(ExtractError::new(
        ExtractErrorKind::SourceMissing,
        "m",
    )));
    assert_eq!(x.stage, ProbeStage::Parse);
    assert!(x.hint.is_some());
}

#[test]
fn script_errors_map_to_probe_errors() {
    let e = script_err_to_probe_error(ScriptError::new(ScriptFailureCategory::Timeout, "slow"));
    assert_eq!(e.stage, ProbeStage::Match);
    assert_eq!(e.category, ProbeCategory::InvalidRule);
    assert_eq!(e.message, "[timeout] slow");
    let n = script_err_to_probe_error(ScriptError::new(ScriptFailureCategory::NetworkError, "x"));
    assert_eq!(n.stage, ProbeStage::Fetch);
    assert_eq!(n.category, ProbeCategory::UrlUnreachable);
}

// ===== Probing a fetched page =====

use crawler::probe::{run_nested_probe, run_single_probe, ParentFieldDef};
use crawler::source_layer::SourceMaterial;

fn page(html: &str) -> SourceMaterial {
    SourceMaterial {
        final_url: "https://example.com/list".into(),
        status: 200,
        headers: Vec::new(),
        html: html.into(),
        scripts: Vec::new(),
        metas: Vec::new(),
        fetched_at: chrono::Utc::now().naive_utc(),
        duration_ms: 12,
    }
}

fn css_req(selector: &str, attr: &str) -> ProbeRequest {
    let mut r = req(false, Vec::new());
    r.rule = Rule::Css(CssRule { selector: selector.into(), attr: attr.into() });
    r.source_layer = SourceLayer::Html;
    r
}

#[test]
fn single_probe_on_page_returns_samples() {
    let m = page(r#"<p class="t">a</p><p class="t">b</p>"#);
    let resp = run_single_probe(&css_req("p.t", "text"), &m).expect("no panic").expect("hits");
    assert_eq!(resp.hit_count, 2);
    assert_eq!(resp.samples[1].value, "b");
    assert_eq!(resp.samples[0].location.as_deref(), Some("node[0]"));
    assert!(resp.per_parent.is_none());
    assert_eq!(resp.fetched_url, "https://example.com/list");
    assert_eq!(resp.duration_ms, 12);
}

#[test]
fn single_probe_zero_hits_and_bad_rule() {
    let m = page("<p>x</p>");
    let e = run_single_probe(&css_req(".none", "text"), &m).expect("no panic").unwrap_err();
    assert_eq!(e.category, ProbeCategory::ZeroHits);
    assert_eq!(e.message, "字段未命中（0 条）：请检查规则与源码 tab 是否匹配");
    let e = run_single_probe(&css_req(">><<", "text"), &m).expect("no panic").unwrap_err();
    assert_eq!(e.stage, ProbeStage::Parse);
    assert_eq!(e.category, ProbeCategory::InvalidRule);
}

#[test]
fn nested_probe_groups_children_per_parent() {
    let m = page(r#"<div class="c"><b>1</b><b>2</b></div><div class="c"></div><div class="c"><b>3</b></div>"#);
    let mut r = css_req("b", "text");
    r.per_parent_sample_limit = Some(1);
    let pf = ParentFieldDef {
        source_layer: SourceLayer::Html,
        rule: Rule::Css(CssRule { selector: "div.c".into(), attr: "html".into() }),
        post_processors: Vec::new(),
        script_index: None,
    };
    let resp = run_nested_probe(&r, &m, &pf).expect("no panic").expect("ok");
    assert_eq!(resp.hit_count, 3);
    let pp = resp.per_parent.expect("per parent");
    assert_eq!(pp.len(), 3);
    assert_eq!(pp[0].child_value.as_deref(), Some("1"));
    assert_eq!(pp[0].child_samples.as_ref().unwrap().len(), 1);
    assert!(!pp[1].child_hit);
    assert!(pp[1].child_samples.is_none());
    assert_eq!(pp[2].parent_index, 2);
    let values: Vec<&str> = resp.samples.iter().map(|s| s.value.as_str()).collect();
    assert_eq!(values, vec!["1", "2", "3"]);
}

#[test]
fn nested_probe_without_parent_hits_is_parent_empty() {
    let m = page("<p>x</p>");
    let pf = ParentFieldDef {
        source_layer: SourceLayer::Html,
        rule: Rule::Css(CssRule { selector: "div.none".into(), attr: "html".into() }),
        post_processors: Vec::new(),
        script_index: None,
    };
    let e = run_nested_probe(&css_req("b", "text"), &m, &pf).expect("no panic").unwrap_err();
    assert_eq!(e.category, ProbeCategory::ParentEmpty);
    assert!(e.hint.is_some());
}
