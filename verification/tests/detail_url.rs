use crawler::field_schema::{
    CssRule, ExtractorMode, FieldNodeSpec, FieldTreeNode, FieldType, PostProcessor,
    PostProcessorOp, Rule, Scope, SourceLayer,
};
use crawler::source_layer::{
    check_detail_url, find_first_detail_url, strip_fragment, ProbeCategory, ProbeStage,
    SourceMaterial,
};

fn material(url: &str, html: &str) -> SourceMaterial {
    SourceMaterial {
        final_url: url.into(),
        status: 200,
        headers: Vec::new(),
        html: html.into(),
        scripts: vec![],
        metas: vec![],
        fetched_at: chrono::Utc::now().naive_utc(),
        duration_ms: 10,
    }
}

fn node(
    name: &str,
    ft: FieldType,
    selector: &str,
    attr: &str,
    absolutize: bool,
    children: Vec<FieldTreeNode>,
) -> FieldTreeNode {
    FieldTreeNode {
        spec: FieldNodeSpec {
            id: Some(1),
            task_id: Some(1),
            parent_id: None,
            scope: Scope::ListPage,
            name: name.into(),
            display_name: name.into(),
            field_type: ft,
            source_layer: SourceLayer::Html,
            extractor_mode: ExtractorMode::Css,
            rule: Rule::Css(CssRule { selector: selector.into(), attr: attr.into() }),
            post_processors: if absolutize { vec![PostProcessor { op: PostProcessorOp::AbsolutizeUrl }] } else { Vec::new() },
            script_index: None,
            sort_order: 0,
            is_active: true,
            refresh_on_read: false,
        },
        children,
    }
}

fn make_url_node(name: &str, selector: &str) -> FieldTreeNode {
    node(name, FieldType::Url, selector, "href", true, Vec::new())
}

#[test]
fn find_first_detail_url_picks_url_field() {
    let m = material("https://example.com/list", r#"<a class="link" href="/post/1">p1</a>"#);
    let nodes = vec![make_url_node("post_url", "a.link")];
    let url = find_first_detail_url(&nodes, &m).expect("no panic").expect("应找到 URL");
    assert_eq!(url, "https://example.com/post/1");
}

#[test]
fn find_first_detail_url_returns_none_when_no_url_field() {
    let m = material("https://example.com/list", r#"<a class="link" href="/post/1">p1</a>"#);
    let nodes = vec![node("title", FieldType::String, "a.link", "text", false, vec![])];
    assert!(find_first_detail_url(&nodes, &m).expect("no panic").is_none());
}

#[test]
fn find_first_detail_url_pass3_heuristic_picks_url_like_value() {
    let m = material("https://example.com/list", r#"<a class="link" href="https://example.com/full/post/1">p1</a>"#);
    let nodes = vec![node("any", FieldType::String, "a.link", "href", false, vec![])];
    let url = find_first_detail_url(&nodes, &m).expect("no panic").expect("启发式应命中");
    assert_eq!(url, "https://example.com/full/post/1");
}

#[test]
fn find_first_detail_url_self_loop_when_href_equals_list_url() {
    let m = material(
        "https://example.com/list",
        r##"<div class="card"><a class="bg-white card-hover" href="https://example.com/list">所有</a></div>"##,
    );
    let nodes = vec![node(
        "link_card",
        FieldType::LinkCard,
        ".card",
        "text",
        false,
        vec![node("url", FieldType::Url, "a.bg-white.card-hover", "href", false, vec![])],
    )];
    let url = find_first_detail_url(&nodes, &m).expect("no panic").expect("应解析出 URL");
    assert_eq!(strip_fragment(&url), strip_fragment(&m.final_url), "href=list_url resolve 后应等于列表 URL，触发 self-loop 防护");
}

#[test]
fn find_first_detail_url_skips_pagination_uses_link_card_url() {
    let m = material(
        "https://www.08rj.com/category/window/",
        r##"<div class="pg"><a href="/category/window/2">下一页</a></div>
                  <div class="card"><a class="title" href="https://www.08rj.com/post/123">文章标题</a></div>"##,
    );
    let pagination = node("next_page", FieldType::Pagination, ".pg a", "href", true, vec![]);
    let link_card = node(
        "link_card",
        FieldType::LinkCard,
        ".card",
        "html",
        false,
        vec![node("url", FieldType::Url, "a.title", "href", true, vec![])],
    );
    let nodes = vec![pagination, link_card];
    let url = find_first_detail_url(&nodes, &m).expect("no panic").expect("应找到详情 URL");
    assert_eq!(url, "https://www.08rj.com/post/123", "应跳过 pagination 分页字段，使用 link_card 的 url 子字段提取的详情 URL");
}

#[test]
fn find_first_detail_url_pass3_skips_pagination_field() {
    let m = material("https://example.com/list", r#"<a class="next" href="https://example.com/list?page=2">下一页</a>"#);
    let nodes = vec![node("next", FieldType::Pagination, "a.next", "href", false, vec![])];
    assert!(
        find_first_detail_url(&nodes, &m).expect("no panic").is_none(),
        "pagination 字段不应被任何 Pass 当成详情 URL 来源"
    );
}

#[test]
fn check_detail_url_decisions() {
    let e = check_detail_url(None, "https://x.io/list").unwrap_err();
    assert_eq!(e.stage, ProbeStage::Match);
    assert_eq!(e.category, ProbeCategory::ParentEmpty);
    assert!(e.hint.is_some());
    let e = check_detail_url(Some("  ".into()), "https://x.io/list").unwrap_err();
    assert_eq!(e.category, ProbeCategory::ZeroHits);
    assert_eq!(e.message, "URL 字段命中但值为空");
    let e = check_detail_url(Some("https://x.io/list?page=2".into()), "https://x.io/list").unwrap_err();
    assert_eq!(e.category, ProbeCategory::ZeroHits);
    assert_eq!(e.message, "提取出的详情 URL 看起来还是列表页：https://x.io/list?page=2（与列表 URL 相同或是其分页变体）");
    assert!(e.hint.as_deref().unwrap().contains("\n  1. 确认 attr = href"));
    assert_eq!(check_detail_url(Some("https://x.io/post/7".into()), "https://x.io/list").unwrap(), "https://x.io/post/7");
}
