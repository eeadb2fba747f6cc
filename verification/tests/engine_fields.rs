use crawler::engine::{
    build_extra_fields_json, build_type_index, collect_detail_links, extract_layer,
    extract_pagination_urls, find_first_value, find_next_page_url, next_template_page,
    type_lookup, FieldExtraction,
};
use crawler::extractor::Hit;
use crawler::field_schema::{
    CssRule, ExtractorMode, FieldNodeSpec, FieldTreeNode, FieldType, Rule, Scope, SourceLayer,
};
use crawler::source_layer::SourceMaterial;
use serde_json::Value;

/// A CSS field node on the HTML layer.
fn node(id: i64, scope: Scope, name: &str, ft: FieldType, selector: &str, attr: &str, children: Vec<FieldTreeNode>) -> FieldTreeNode {
    FieldTreeNode {
        spec: FieldNodeSpec {
            id: Some(id),
            task_id: Some(1),
            parent_id: None,
            scope,
            name: name.into(),
            display_name: name.into(),
            field_type: ft,
            source_layer: SourceLayer::Html,
            extractor_mode: ExtractorMode::Css,
            rule: Rule::Css(CssRule { selector: selector.into(), attr: attr.into() }),
            post_processors: Vec::new(),
            script_index: None,
            sort_order: 0,
            is_active: true,
            refresh_on_read: false,
        },
        children,
    }
}

fn list_node(id: i64, name: &str, ft: FieldType) -> FieldTreeNode {
    node(id, Scope::ListPage, name, ft, ".x", "text", Vec::new())
}

fn hit(value: &str) -> Hit {
    Hit { value: value.into(), source_fragment: "css".into(), location: None, context_html: None }
}

fn material(url: &str, html: &str) -> SourceMaterial {
    SourceMaterial {
        final_url: url.into(),
        status: 200,
        headers: Vec::new(),
        html: html.into(),
        scripts: Vec::new(),
        metas: Vec::new(),
        fetched_at: chrono::Utc::now().naive_utc(),
        duration_ms: 5,
    }
}

#[test]
fn extract_pagination_urls_extracts_hrefs() {
    let html = r#"<div><a class="pg" href="/p/2">2</a><a class="pg" href="/p/3">3</a></div>"#;
    let urls = extract_pagination_urls(html, ".pg");
    assert_eq!(urls.len(), 2);
    assert!(urls.contains(&"/p/2".to_string()));
    assert!(urls.contains(&"/p/3".to_string()));
}

#[test]
fn extract_pagination_urls_empty_selector_returns_empty() {
    let urls = extract_pagination_urls("<div>x</div>", "");
    assert!(urls.is_empty());
}

#[test]
fn extract_pagination_urls_skips_elements_without_href() {
    let urls = extract_pagination_urls(r#"<a class="pg">1</a><a class="pg" href="/2">2</a>"#, "a.pg");
    assert_eq!(urls, vec!["/2".to_string()]);
    assert!(extract_pagination_urls("<a>x</a>", ">><<").is_empty());
}

#[test]
fn extra_fields_json_single_value() {
    let ext = vec![FieldExtraction {
        field_path: "/detail_page/title".into(),
        field_node_id: Some(1),
        scope: "detail_page".into(),
        hits: vec![hit("hello")],
        error: None,
    }];
    let json = build_extra_fields_json(&ext).expect("Some");
    let v: Value = serde_json::from_str(&json).unwrap();
    assert_eq!(v["title"], Value::String("hello".into()));
}

#[test]
fn extra_fields_json_multi_value() {
    let ext = vec![FieldExtraction {
        field_path: "/detail_page/tags".into(),
        field_node_id: Some(1),
        scope: "detail_page".into(),
        hits: vec![hit("a"), hit("b")],
        error: None,
    }];
    let json = build_extra_fields_json(&ext).expect("Some");
    let v: Value = serde_json::from_str(&json).unwrap();
    assert_eq!(v["tags"], Value::Array(vec![Value::String("a".into()), Value::String("b".into())]));
}

#[test]
fn extra_fields_json_skips_empty_hits() {
    let ext = vec![
        FieldExtraction {
            field_path: "/detail_page/title".into(),
            field_node_id: Some(1),
            scope: "detail_page".into(),
            hits: Vec::new(),
            error: None,
        },
        FieldExtraction {
            field_path: "/detail_page/url".into(),
            field_node_id: Some(2),
            scope: "detail_page".into(),
            hits: vec![hit("https://example.com")],
            error: None,
        },
    ];
    let json = build_extra_fields_json(&ext).expect("Some");
    let v: Value = serde_json::from_str(&json).unwrap();
    assert!(v.get("title").is_none());
    assert_eq!(v["url"], Value::String("https://example.com".into()));
}

#[test]
fn extra_fields_json_none_without_hits() {
    let ext = vec![FieldExtraction {
        field_path: "/detail_page/title".into(),
        field_node_id: Some(1),
        scope: "detail_page".into(),
        hits: Vec::new(),
        error: None,
    }];
    assert!(build_extra_fields_json(&ext).is_none());
}

#[test]
fn build_type_index_distinguishes_link_card() {
    let nodes = vec![
        node(1, Scope::ListPage, "link_card", FieldType::LinkCard, ".x", "text", vec![list_node(2, "title", FieldType::String)]),
        list_node(3, "url", FieldType::Url),
        list_node(4, "title", FieldType::String),
    ];
    let index = build_type_index(&nodes, "/list_page");
    assert!(matches!(type_lookup(&index, "/list_page/link_card"), Some(FieldType::LinkCard)));
    assert!(matches!(type_lookup(&index, "/list_page/url"), Some(FieldType::Url)));
    assert!(matches!(type_lookup(&index, "/list_page/title"), Some(FieldType::String)));
    assert!(matches!(type_lookup(&index, "/list_page/link_card/title"), Some(FieldType::String)));
    assert!(type_lookup(&index, "/list_page/none").is_none());
}

#[test]
fn find_next_page_url_returns_first_pagination_hit() {
    let nodes = vec![list_node(1, "next_page", FieldType::Pagination), list_node(2, "title", FieldType::String)];
    let extractions = vec![
        FieldExtraction {
            field_path: "/list_page/title".into(),
            field_node_id: Some(2),
            scope: "list_page".into(),
            hits: vec![Hit {
                value: "页标题".into(),
                source_fragment: "css:.title".into(),
                location: Some("node[0]".into()),
                context_html: None,
            }],
            error: None,
        },
        FieldExtraction {
            field_path: "/list_page/next_page".into(),
            field_node_id: Some(1),
            scope: "list_page".into(),
            hits: vec![Hit {
                value: "/list?page=2".into(),
                source_fragment: "css:.next".into(),
                location: Some("node[0]".into()),
                context_html: None,
            }],
            error: None,
        },
    ];
    let next = find_next_page_url(&extractions, &nodes, "/list_page", "https://example.com/list?page=1");
    assert_eq!(next.as_deref(), Some("https://example.com/list?page=2"));
}

#[test]
fn find_next_page_url_none_when_no_pagination_field() {
    let nodes = vec![list_node(1, "title", FieldType::String)];
    let extractions = vec![FieldExtraction {
        field_path: "/list_page/title".into(),
        field_node_id: Some(1),
        scope: "list_page".into(),
        hits: vec![hit("x")],
        error: None,
    }];
    assert_eq!(find_next_page_url(&extractions, &nodes, "/list_page", "https://example.com/"), None);

    let nodes2 = vec![list_node(1, "title", FieldType::String), list_node(2, "next_page", FieldType::Pagination)];
    let extractions2 = vec![FieldExtraction {
        field_path: "/list_page/next_page".into(),
        field_node_id: Some(2),
        scope: "list_page".into(),
        hits: vec![],
        error: None,
    }];
    assert_eq!(find_next_page_url(&extractions2, &nodes2, "/list_page", "https://example.com/"), None);
}

#[test]
fn next_template_page_stops_past_page_end() {
    assert_eq!(next_template_page("/list/{page}", 3, 4, "https://x.io/"), None);
    assert_eq!(next_template_page("/list/{page}", 3, 3, "https://x.io/").as_deref(), Some("https://x.io/list/3"));
    assert_eq!(next_template_page("/list/{page}", 0, 9, "https://x.io/").as_deref(), Some("https://x.io/list/9"));
}

#[test]
fn field_tree_crawl_two_stage() {
    let list_html = r#"<!DOCTYPE html><html><body>
      <div class="list">
        <div class="list-item">
          <a class="link" href="/p/1"><img class="cover" src="/c1.jpg" /></a>
        </div>
        <div class="list-item">
          <a class="link" href="/p/2"><img class="cover" src="/c2.jpg" /></a>
        </div>
        <div class="list-item">
          <a class="link" href="/p/3"><img class="cover" src="/c3.jpg" /></a>
        </div>
      </div>
    </body></html>"#;
    let list_material = material("https://example.com/list", list_html);
    let detail_html = r#"<!DOCTYPE html><html><head><title>Hello Post</title></head>
      <body><article><h1 class="title">Hello Post</h1>
        <div class="content"><p>Body text here.</p></div>
      </article></body></html>"#;
    let detail_material = material("https://example.com/p/1", detail_html);

    let list_page = vec![node(
        1,
        Scope::ListPage,
        "link_card",
        FieldType::LinkCard,
        ".list-item a.link",
        "href",
        vec![node(2, Scope::ListPage, "cover", FieldType::Image, "img.cover", "src", Vec::new())],
    )];
    let detail_page = vec![
        node(3, Scope::DetailPage, "title", FieldType::String, "h1.title", "text", Vec::new()),
        node(4, Scope::DetailPage, "content", FieldType::Text, ".content", "text", Vec::new()),
    ];

    let list_extractions =
        extract_layer(&list_page, &list_material, &[], Scope::ListPage.as_str(), "/list_page").expect("no panic");
    let link_ext = list_extractions.iter().find(|e| e.field_path.ends_with("/link_card")).unwrap();
    assert_eq!(link_ext.hits.len(), 3, "link_card 应命中 3 条 detail 链接");
    let cover_ext = list_extractions.iter().find(|e| e.field_path.ends_with("/cover")).unwrap();
    assert_eq!(cover_ext.hits.len(), 3, "cover 应在每条父命中上各命中 1 次");

    let mut seen: Vec<String> = Vec::new();
    let detail_links = collect_detail_links(
        &list_extractions,
        &list_page,
        &format!("/{}", Scope::ListPage.as_str()),
        &list_material.final_url,
        &mut seen,
    );
    assert_eq!(detail_links.len(), 3, "应收集 3 条 detail 链接");
    assert!(detail_links.iter().all(|u| u.starts_with("https://example.com/p/")));

    let detail_extractions =
        extract_layer(&detail_page, &detail_material, &[], Scope::DetailPage.as_str(), "/detail_page").expect("no panic");
    let title = find_first_value(&detail_extractions, "title").expect("title 必命中");
    assert_eq!(title, "Hello Post");
    let content = find_first_value(&detail_extractions, "content").expect("content 必命中");
    assert!(content.contains("Body text"));

    let json_str = build_extra_fields_json(&detail_extractions).expect("Some");
    let v: Value = serde_json::from_str(&json_str).unwrap();
    assert_eq!(v["title"], Value::String("Hello Post".into()));
    assert!(v["content"].as_str().unwrap().contains("Body text"));

    let list_json = build_extra_fields_json(&list_extractions).expect("Some");
    let lv: Value = serde_json::from_str(&list_json).unwrap();
    assert_eq!(
        lv["link_card"],
        Value::Array(vec![
            Value::String("https://example.com/p/1".into()),
            Value::String("https://example.com/p/2".into()),
            Value::String("https://example.com/p/3".into()),
        ])
    );
    assert_eq!(lv["cover"].as_array().unwrap().len(), 3);
}

#[test]
fn extract_layer_child_hits_carry_parent_location() {
    let html = r#"<div class="i"><b>x</b></div><div class="i"><b>y</b><b>z</b></div>"#;
    let m = material("https://example.com/", html);
    let nodes = vec![node(
        1,
        Scope::ListPage,
        "item",
        FieldType::String,
        "div.i",
        "html",
        vec![node(2, Scope::ListPage, "b", FieldType::String, "b", "text", Vec::new())],
    )];
    let ext = extract_layer(&nodes, &m, &[], "list_page", "/list_page").expect("no panic");
    assert_eq!(ext.len(), 2);
    assert_eq!(ext[1].field_path, "/list_page/item/b");
    let locs: Vec<&str> = ext[1].hits.iter().map(|h| h.location.as_deref().unwrap()).collect();
    assert_eq!(locs, vec!["parent[0]::node[0]", "parent[1]::node[0]", "parent[1]::node[1]"]);
    let vals: Vec<&str> = ext[1].hits.iter().map(|h| h.value.as_str()).collect();
    assert_eq!(vals, vec!["x", "y", "z"]);
}

#[test]
fn extract_layer_skips_inactive_and_reports_errors() {
    let m = material("https://example.com/", "<p>t</p>");
    let mut off = list_node(1, "off", FieldType::String);
    off.spec.is_active = false;
    let bad = node(2, Scope::ListPage, "bad", FieldType::String, ">><<", "text", Vec::new());
    let ext = extract_layer(&vec![off, bad], &m, &[], "list_page", "/list_page").expect("no panic");
    assert_eq!(ext.len(), 1);
    assert!(ext[0].hits.is_empty());
    assert!(ext[0].error.as_deref().unwrap().starts_with("CSS 选择器非法: "));
}

#[test]
fn collect_detail_links_filters_html_hits() {
    let nodes = vec![list_node(1, "f1", FieldType::LinkCard), list_node(2, "f2", FieldType::Url)];
    let extractions = vec![
        FieldExtraction {
            field_path: "/list_page/f1".into(),
            field_node_id: None,
            scope: "list_page".into(),
            error: None,
            hits: vec![hit(r#"<a class="card" href="/p/1"><span>title</span></a>"#), hit(r#"<a class="card" href="/p/2">x</a>"#)],
        },
        FieldExtraction {
            field_path: "/list_page/f2".into(),
            field_node_id: None,
            scope: "list_page".into(),
            error: None,
            hits: vec![hit("/p/1"), hit("/p/2"), hit("点击 下载")],
        },
    ];
    let mut seen: Vec<String> = Vec::new();
    let links = collect_detail_links(&extractions, &nodes, "/list_page", "https://example.com/list", &mut seen);
    assert_eq!(links.len(), 2, "应过滤掉 HTML 命中和含空白值，只剩 2 条合法 URL");
    assert!(links.iter().all(|u| u.starts_with("https://example.com/p/")));
}

#[test]
fn collect_detail_links_skips_seen_normalised_urls() {
    let nodes = vec![list_node(1, "u", FieldType::Url)];
    let extractions = vec![FieldExtraction {
        field_path: "/list_page/u".into(),
        field_node_id: None,
        scope: "list_page".into(),
        error: None,
        hits: vec![hit("/p?a=1&b=2"), hit("/p?b=2&a=1"), hit(" /q ")],
    }];
    let mut seen: Vec<String> = Vec::new();
    let links = collect_detail_links(&extractions, &nodes, "/list_page", "https://example.com/list", &mut seen);
    assert_eq!(links, vec!["https://example.com/p?a=1&b=2".to_string(), "https://example.com/q".to_string()]);
    assert_eq!(seen.len(), 2);
    let again = collect_detail_links(&extractions, &nodes, "/list_page", "https://example.com/list", &mut seen);
    assert!(again.is_empty());
}

#[test]
fn field_tree_unhit_does_not_propagate_error() {
    let m = material("https://example.com/x", r#"<html><body><div>no matches</div></body></html>"#);
    let nodes = vec![node(1, Scope::ListPage, "title", FieldType::String, ".missing", "text", Vec::new())];
    let ext = extract_layer(&nodes, &m, &[], Scope::ListPage.as_str(), "/list_page").expect("no panic");
    assert_eq!(ext.len(), 1);
    assert!(ext[0].hits.is_empty(), "未命中字段应为空 hits");
    assert!(ext[0].error.is_none(), "未命中（CSS 找不到元素）不应被记为 error");
}
