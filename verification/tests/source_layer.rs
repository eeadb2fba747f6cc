use crawler::source_layer::{
    body_has_block_keywords, body_has_block_keywords_checked, is_blocked_status,
    is_blocked_status_checked, scan_cut_checked, is_list_self_or_pagination_loop, looks_like_url,
    strip_fragment, MetaKeyKind, ProbeCategory, ProbeError, ProbeStage,
};

#[test]
fn looks_like_url_valid() {
    assert!(looks_like_url("http://example.com"));
    assert!(looks_like_url("https://example.com/list?page=1"));
}

#[test]
fn looks_like_url_invalid() {
    assert!(!looks_like_url(""));
    assert!(!looks_like_url("   "));
    assert!(!looks_like_url("example.com"));
    assert!(!looks_like_url("ftp://example.com"));
}

#[test]
fn looks_like_url_ignores_surrounding_blanks() {
    assert!(looks_like_url("  https://example.com  "));
}

#[test]
fn is_blocked_status_403_429_503() {
    assert!(is_blocked_status(403, ""));
    assert!(is_blocked_status(429, ""));
    assert!(is_blocked_status(503, ""));
    assert!(!is_blocked_status(404, ""));
    assert!(!is_blocked_status(500, ""));
}

#[test]
fn is_blocked_status_login_wall_keywords() {
    assert!(is_blocked_status(200, "<html><body>请先登录后查看内容</body></html>"));
    assert!(is_blocked_status(200, "Just a moment... Cloudflare"));
    assert!(!is_blocked_status(200, "<html>正常文章内容</html>"));
}

#[test]
fn block_keywords_match_ignoring_case() {
    assert!(body_has_block_keywords("ATTENTION REQUIRED | cloudflare"));
}

#[test]
fn block_keywords_only_searched_in_first_8192_bytes() {
    let mut body = "x".repeat(8192);
    body.push_str("Just a moment");
    assert!(!body_has_block_keywords(&body));
    let mut body2 = "x".repeat(100);
    body2.push_str("Just a moment");
    assert!(body_has_block_keywords(&body2));
}

#[test]
fn probe_error_with_hint_chain() {
    let e = ProbeError::new(ProbeStage::Fetch, ProbeCategory::UrlUnreachable, "GET 失败")
        .with_hint("检查 URL 是否带 scheme");
    assert_eq!(e.hint.as_deref(), Some("检查 URL 是否带 scheme"));
    assert_eq!(e.stage, ProbeStage::Fetch);
    assert_eq!(e.category, ProbeCategory::UrlUnreachable);
}

#[test]
fn probe_error_display_form() {
    let e = ProbeError::new(ProbeStage::Match, ProbeCategory::ZeroHits, "没有命中");
    assert_eq!(e.to_display(), "[Match/ZeroHits] 没有命中");
}

#[test]
fn meta_key_kind_labels() {
    assert_eq!(MetaKeyKind::HttpEquiv.as_str(), "http-equiv");
    assert_eq!(MetaKeyKind::Name.as_str(), "name");
}

#[test]
fn strip_fragment_removes_trailing_fragment() {
    assert_eq!(strip_fragment("https://x.com/p/1"), "https://x.com/p/1");
    assert_eq!(strip_fragment("https://x.com/p/1#top"), "https://x.com/p/1");
    assert_eq!(strip_fragment("https://x.com/p/1?a=1#top"), "https://x.com/p/1?a=1");
    assert_eq!(strip_fragment(""), "");
}

#[test]
fn pagination_loop_detects_discuz_style_numeric_suffix() {
    assert!(is_list_self_or_pagination_loop(
        "https://www.08rj.com/category/window/2",
        "https://www.08rj.com/category/window/",
    ));
    assert!(is_list_self_or_pagination_loop(
        "https://www.08rj.com/category/window/2",
        "https://www.08rj.com/category/window",
    ));
}

#[test]
fn pagination_loop_detects_wordpress_page_prefix() {
    assert!(is_list_self_or_pagination_loop(
        "https://example.com/blog/page/3",
        "https://example.com/blog/",
    ));
}

#[test]
fn pagination_loop_detects_query_page_param() {
    assert!(is_list_self_or_pagination_loop(
        "https://example.com/list?page=2&order=desc",
        "https://example.com/list?order=desc",
    ));
    assert!(is_list_self_or_pagination_loop("https://example.com/list?p=5", "https://example.com/list"));
}

#[test]
fn pagination_loop_self_loop_exact_match() {
    assert!(is_list_self_or_pagination_loop("https://example.com/list", "https://example.com/list"));
    assert!(is_list_self_or_pagination_loop(
        "https://example.com/list#frag",
        "https://example.com/list",
    ));
}

#[test]
fn pagination_loop_does_not_false_positive_on_real_detail() {
    assert!(!is_list_self_or_pagination_loop(
        "https://example.com/post/123",
        "https://example.com/category/news/",
    ));
    assert!(!is_list_self_or_pagination_loop(
        "https://example.com/category/news/hello-world",
        "https://example.com/category/news/",
    ));
    assert!(!is_list_self_or_pagination_loop(
        "https://detail.example.com/123",
        "https://list.example.com/list",
    ));
    assert!(!is_list_self_or_pagination_loop(
        "https://example.com/list?id=123",
        "https://example.com/list",
    ));
}

#[test]
fn pagination_loop_trailing_slash_after_page_number() {
    assert!(is_list_self_or_pagination_loop(
        "https://example.com/blog/page/3/",
        "https://example.com/blog",
    ));
    assert!(!is_list_self_or_pagination_loop(
        "https://example.com/blog/page/",
        "https://example.com/blog",
    ));
}

// ===== Parsing a fetched page =====

use crawler::source_layer::{
    check_probe_url, make_sub_material_from_hit, material_from_response, merge_headers, parse_metas,
    parse_scripts, SourceMaterial,
};

#[test]
fn parse_metas_basic_description() {
    let html = r#"<html><head>
        <meta name="description" content="测试站点描述">
        <meta charset="utf-8">
    </head><body></body></html>"#;
    let metas = parse_metas(html);
    let desc = metas.iter().find(|m| m.key == "description").expect("找到 description");
    assert_eq!(desc.content, "测试站点描述");
    assert_eq!(desc.key_kind, MetaKeyKind::Name);
}

#[test]
fn parse_metas_og_property() {
    let html = r#"<meta property="og:title" content="分享标题">"#;
    let metas = parse_metas(html);
    let og = metas.iter().find(|m| m.key == "og:title").expect("og:title");
    assert_eq!(og.content, "分享标题");
    assert_eq!(og.key_kind, MetaKeyKind::Property);
}

#[test]
fn parse_metas_http_equiv() {
    let html = r#"<meta http-equiv="refresh" content="3;url=/next">"#;
    let metas = parse_metas(html);
    let r = metas.iter().find(|m| m.key == "refresh").expect("refresh");
    assert_eq!(r.content, "3;url=/next");
    assert_eq!(r.key_kind, MetaKeyKind::HttpEquiv);
}

#[test]
fn parse_metas_charset_special_case() {
    let html = r#"<meta charset="utf-8">"#;
    let metas = parse_metas(html);
    let cs = metas.iter().find(|m| m.key == "charset").expect("charset");
    assert_eq!(cs.content, "utf-8");
    assert_eq!(cs.key_kind, MetaKeyKind::Other);
}

#[test]
fn parse_metas_skips_empty_content() {
    let html = r#"<meta name="empty" content="">"#;
    let metas = parse_metas(html);
    assert!(metas.iter().any(|m| m.key == "empty"));
}

#[test]
fn parse_metas_empty_html_returns_empty() {
    let metas = parse_metas("");
    assert!(metas.is_empty());
}

#[test]
fn parse_metas_without_content_is_dropped() {
    let metas = parse_metas(r#"<meta name="robots">"#);
    assert!(metas.is_empty());
}

#[test]
fn parse_scripts_inline_only() {
    let html = r#"<html><body>
        <script>console.log("a")</script>
        <script>var x = 1;</script>
    </body></html>"#;
    let scripts = parse_scripts(html, "https://example.com/");
    assert_eq!(scripts.len(), 2);
    assert_eq!(scripts[0].index, 0);
    assert!(scripts[0].src.is_none());
    assert!(scripts[0].content.as_deref().unwrap_or("").contains("console.log"));
    assert!(scripts[1].content.as_deref().unwrap_or("").contains("var x"));
}

#[test]
fn parse_scripts_external_only() {
    let html = r#"<script src="/static/a.js"></script>
                  <script src="https://cdn.com/b.js"></script>"#;
    let scripts = parse_scripts(html, "https://example.com/page");
    assert_eq!(scripts.len(), 2);
    assert_eq!(scripts[0].src.as_deref(), Some("https://example.com/static/a.js"));
    assert_eq!(scripts[1].src.as_deref(), Some("https://cdn.com/b.js"));
    assert!(scripts[0].content.is_none());
}

#[test]
fn parse_scripts_mixed() {
    let html = r#"<script src="a.js"></script><script>inline();</script>"#;
    let scripts = parse_scripts(html, "https://example.com/");
    assert_eq!(scripts.len(), 2);
    assert!(scripts[0].src.is_some());
    assert!(scripts[0].content.is_none());
    assert!(scripts[1].src.is_none());
    assert!(scripts[1].content.is_some());
}

#[test]
fn parse_scripts_empty_html_returns_empty() {
    assert!(parse_scripts("", "https://example.com/").is_empty());
}

#[test]
fn parse_scripts_relative_to_absolute() {
    let html = r#"<script src="../lib/c.js"></script>"#;
    let scripts = parse_scripts(html, "https://example.com/a/b/page.html");
    let src = scripts[0].src.as_deref().unwrap_or("");
    assert!(src.starts_with("https://example.com/"));
}

#[test]
fn merge_headers_lowercases_and_joins_repeats() {
    let raw = vec![
        ("Set-Cookie".to_string(), "a=1".to_string()),
        ("Content-Type".to_string(), "text/html".to_string()),
        ("set-cookie".to_string(), "b=2".to_string()),
    ];
    let merged = merge_headers(&raw);
    assert_eq!(
        merged,
        vec![
            ("set-cookie".to_string(), "a=1, b=2".to_string()),
            ("content-type".to_string(), "text/html".to_string()),
        ]
    );
}

#[test]
fn check_probe_url_rejects_missing_scheme() {
    assert!(check_probe_url("https://example.com/list").is_ok());
    let e = check_probe_url("example.com").unwrap_err();
    assert_eq!(e.stage, ProbeStage::Fetch);
    assert_eq!(e.category, ProbeCategory::UrlUnreachable);
    assert_eq!(e.message, "URL 不合法：example.com");
    assert_eq!(e.hint.as_deref(), Some("URL 应包含 scheme（如 https://example.com/list）"));
}

#[test]
fn material_from_response_maps_error_status() {
    let now = chrono::Utc::now().naive_utc();
    let e = material_from_response("https://x.io/a", "https://x.io/a".into(), 404, Vec::new(), "gone".into(), now, 5)
        .unwrap_err();
    assert_eq!(e.category, ProbeCategory::Http4xx5xx);
    assert_eq!(e.message, "HTTP 404（https://x.io/a）");
    let e = material_from_response("https://x.io/a", "https://x.io/a".into(), 403, Vec::new(), "".into(), now, 5)
        .unwrap_err();
    assert_eq!(e.category, ProbeCategory::Blocked);
    let e = material_from_response("https://x.io/a", "https://x.io/a".into(), 500, Vec::new(), "<p>请先登录</p>".into(), now, 5)
        .unwrap_err();
    assert_eq!(e.category, ProbeCategory::Blocked);
}

#[test]
fn material_from_response_parses_page() {
    let now = chrono::Utc::now().naive_utc();
    let html = r#"<meta name="k" content="v"><script src="/a.js"></script>"#;
    let m = material_from_response("https://x.io/p/", "https://x.io/p/q".into(), 200, Vec::new(), html.into(), now, 7)
        .expect("ok");
    assert_eq!(m.status, 200);
    assert_eq!(m.duration_ms, 7);
    assert_eq!(m.metas.len(), 1);
    assert_eq!(m.scripts[0].src.as_deref(), Some("https://x.io/a.js"));
}

#[test]
fn make_sub_from_hit_uses_context_html() {
    let now = chrono::Utc::now().naive_utc();
    let parent = SourceMaterial {
        final_url: "https://x.io/".into(),
        status: 200,
        headers: vec![("a".to_string(), "b".to_string())],
        html: "<html/>".into(),
        scripts: Vec::new(),
        metas: Vec::new(),
        fetched_at: now,
        duration_ms: 9,
    };
    let hit = crawler::extractor::Hit {
        value: "v".into(),
        source_fragment: "css:a".into(),
        location: None,
        context_html: Some("<a>v</a>".into()),
    };
    let sub = make_sub_material_from_hit(&hit, &parent);
    assert_eq!(sub.html, "<a>v</a>");
    assert_eq!(sub.duration_ms, 0);
    assert_eq!(sub.headers, parent.headers);
    let plain = crawler::extractor::Hit { context_html: None, ..hit };
    assert_eq!(make_sub_material_from_hit(&plain, &parent).html, "v");
}

#[test]
fn checked_block_scans() {
    assert!(scan_cut_checked("short"));
    let cut = format!("{}中", "a".repeat(8191));
    assert!(!scan_cut_checked(&cut));
    assert_eq!(body_has_block_keywords_checked(&cut), None);
    assert_eq!(is_blocked_status_checked(403, &cut), None);
    assert_eq!(is_blocked_status_checked(403, "ok"), Some(true));
    assert_eq!(is_blocked_status_checked(200, "ok"), Some(false));
    let fine = "a".repeat(9000);
    assert!(scan_cut_checked(&fine));
}
