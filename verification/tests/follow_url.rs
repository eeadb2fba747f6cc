use crawler::extractor::{ExtractError, ExtractErrorKind, Hit};
use crawler::field_schema::{HeaderFieldRule, JsonPathRule, RegexRule, SubRule};
use crawler::follow_url::{follow_result, transit_target, FollowUrlError};
use crawler::source_layer::{ProbeCategory, ProbeError, ProbeStage};

fn hit(v: &str) -> Hit {
    Hit { value: v.into(), source_fragment: "css:a".into(), location: None, context_html: None }
}

#[test]
fn sub_rule_variants_construct_ok() {
    let _ = SubRule::Regex(RegexRule { pattern: "x".into(), group: 0, flags: "".into() });
    let _ = SubRule::JsonPath(JsonPathRule { path: "$.x".into() });
    let _ = SubRule::HeaderField(HeaderFieldRule { header_name: "X".into() });
}

#[test]
fn transit_empty_when_no_match() {
    let r = transit_target(Ok(vec![]), "https://example.com/");
    assert_eq!(r, Err(FollowUrlError::TransitEmpty));
}

#[test]
fn transit_extract_propagates_extract_error() {
    let e = ExtractError::new(ExtractErrorKind::SourceMissing, "no script");
    let r = transit_target(Err(e.clone()), "https://example.com/");
    assert_eq!(r, Err(FollowUrlError::TransitExtract(e)));
}

#[test]
fn transit_url_resolved_against_page() {
    let r = transit_target(Ok(vec![hit("/dl/1"), hit("/dl/2")]), "https://example.com/a/b");
    assert_eq!(r, Ok("https://example.com/dl/1".to_string()));
}

#[test]
fn second_stage_outcomes() {
    let p = ProbeError::new(ProbeStage::Fetch, ProbeCategory::UrlUnreachable, "down");
    assert_eq!(follow_result(Err(p.clone()), Ok(vec![hit("x")])), Err(FollowUrlError::Fetch(p)));
    assert_eq!(follow_result(Ok(()), Ok(vec![])), Err(FollowUrlError::ZeroHits));
    assert_eq!(follow_result(Ok(()), Ok(vec![hit("v")])), Ok(vec![hit("v")]));
    let e = ExtractError::new(ExtractErrorKind::InvalidRule, "bad");
    assert_eq!(follow_result(Ok(()), Err(e.clone())), Err(FollowUrlError::ExtractExtract(e)));
}

#[test]
fn follow_url_error_display() {
    assert_eq!(FollowUrlError::ZeroHits.to_display(), "extract 子规则在二次响应未命中（0 条）");
    let e = FollowUrlError::TransitExtract(ExtractError::new(ExtractErrorKind::InvalidRule, "bad"));
    assert_eq!(e.to_display(), "transit 子规则提取失败: [InvalidRule] bad");
}
