use crawler::engine::{
    preview_article, run_error_message, run_status, selector_validation, FieldExtraction,
};
use crawler::extractor::{ExtractError, ExtractErrorKind, Hit};
use crawler::field_schema::{
    CssRule, ExtractorMode, FieldNodeSpec, FieldType, FollowUrlRule, PostProcessor,
    PostProcessorOp, Rule, Scope, SourceLayer, SubRule,
};
use crawler::follow_url::{follow_url_extraction, follow_url_positions, FollowUrlError};
use crawler::probe::samples_of;

#[test]
fn run_status_rules() {
    assert_eq!(run_status(true, 5, 0), "blocked");
    assert_eq!(run_status(false, 0, 2), "failed");
    assert_eq!(run_status(false, 3, 2), "partial");
    assert_eq!(run_status(false, 3, 0), "success");
    assert_eq!(run_status(false, 0, 0), "success");
}

#[test]
fn run_error_message_joins_and_cuts() {
    assert_eq!(run_error_message(&Vec::new()), None);
    assert_eq!(run_error_message(&vec!["a".into(), "b".into()]), Some("a; b".to_string()));
    let long = vec!["错".repeat(600)];
    assert_eq!(run_error_message(&long).unwrap().chars().count(), 500);
}

fn spec(name: &str, field_type: FieldType, rule: Rule, ops: Vec<PostProcessor>) -> FieldNodeSpec {
    FieldNodeSpec {
        id: Some(7),
        task_id: None,
        parent_id: None,
        scope: Scope::DetailPage,
        name: name.into(),
        display_name: name.into(),
        field_type,
        source_layer: SourceLayer::Html,
        extractor_mode: ExtractorMode::FollowUrl,
        rule,
        post_processors: ops,
        script_index: None,
        sort_order: 0,
        is_active: true,
        refresh_on_read: false,
    }
}

fn follow() -> Rule {
    let css = |s: &str| SubRule::Css(CssRule { selector: s.into(), attr: "href".into() });
    Rule::FollowUrl(FollowUrlRule {
        transit: css("a.dl"),
        transit_layer: SourceLayer::Html,
        transit_script_index: None,
        target_layer: SourceLayer::Html,
        target_script_index: None,
        extract: css("a.real"),
    })
}

fn hit(v: &str) -> Hit {
    Hit { value: v.into(), source_fragment: "css:a".into(), location: None, context_html: None }
}

#[test]
fn follow_url_extraction_success_absolutizes() {
    let s = spec("download", FieldType::Url, follow(), vec![PostProcessor { op: PostProcessorOp::Trim }]);
    let e = follow_url_extraction(&s, Ok(vec![hit(" /f/1.zip ")]), "https://x.io/a/b");
    assert_eq!(e.field_path, "/detail_page/download");
    assert_eq!(e.field_node_id, Some(7));
    assert_eq!(e.scope, "detail_page");
    assert_eq!(e.hits[0].value, "https://x.io/f/1.zip");
    assert_eq!(e.error, None);
}

#[test]
fn follow_url_extraction_failures() {
    let s = spec("download", FieldType::String, follow(), Vec::new());
    let e = follow_url_extraction(&s, Err(FollowUrlError::ZeroHits), "https://x.io/");
    assert!(e.hits.is_empty());
    assert_eq!(e.error.as_deref(), Some("extract 子规则在二次响应 0 命中"));
    let e = follow_url_extraction(
        &s,
        Err(FollowUrlError::TransitExtract(ExtractError { kind: ExtractErrorKind::InvalidRule, message: "bad".into() })),
        "https://x.io/",
    );
    assert_eq!(e.error.as_deref(), Some("transit 提取失败: [InvalidRule] bad"));
    let e = follow_url_extraction(&s, Err(FollowUrlError::TransitEmpty), "https://x.io/");
    assert_eq!(e.error.as_deref(), Some("transit 子规则未提取到中转 URL"));
}

#[test]
fn follow_url_positions_pick_follow_url_rules() {
    let plain = spec("t", FieldType::String, Rule::Css(CssRule { selector: "h1".into(), attr: "text".into() }), Vec::new());
    let specs = vec![plain.clone(), spec("d", FieldType::Url, follow(), Vec::new()), plain];
    assert_eq!(follow_url_positions(&specs), vec![1]);
}

#[test]
fn samples_of_takes_at_most_what_there_is() {
    let hits = vec![hit("a"), hit("b")];
    assert_eq!(samples_of(&hits, 5).len(), 2);
    assert_eq!(samples_of(&hits, 1).len(), 1);
}

fn ext(path: &str, vals: &[&str]) -> FieldExtraction {
    FieldExtraction {
        field_path: path.into(),
        field_node_id: None,
        scope: "detail_page".into(),
        hits: vals.iter().map(|v| hit(v)).collect(),
        error: None,
    }
}

#[test]
fn preview_article_reads_title_and_snippet() {
    let detail = vec![ext("/detail_page/name", &["N"]), ext("/detail_page/content", &[&"x".repeat(300)])];
    let a = preview_article("https://x.io/1", &detail, &vec!["w".to_string()]);
    assert_eq!(a.source_url, "https://x.io/1");
    assert_eq!(a.title.as_deref(), Some("N"));
    assert_eq!(a.content_snippet.unwrap().len(), 200);
    assert_eq!(a.field_warnings, vec!["w"]);
    assert!(a.pan_links.is_empty());
}

#[test]
fn selector_validation_flags() {
    let v = selector_validation(&[ext("/list_page/a", &[]), ext("/list_page/b", &["x"])], 0);
    assert!(v.list_item_ok);
    assert!(!v.detail_link_ok);
    let v = selector_validation(&[], 2);
    assert!(!v.list_item_ok && v.detail_link_ok);
}
