use crawler::engine::{
    build_template_url, find_first_value, resolve_url, should_stop_after_page, FieldExtraction,
};
use crawler::extractor::Hit;

#[test]
fn resolve_url_absolute_passthrough() {
    assert_eq!(
        resolve_url("https://example.com/a", "https://other.com/"),
        "https://example.com/a"
    );
}

#[test]
fn resolve_url_root_relative() {
    assert_eq!(
        resolve_url("/path/page", "https://example.com/dir/base"),
        "https://example.com/path/page"
    );
}

#[test]
fn resolve_url_relative() {
    assert_eq!(
        resolve_url("page.html", "https://example.com/dir/base"),
        "https://example.com/dir/page.html"
    );
}

#[test]
fn resolve_url_no_path_in_base() {
    assert_eq!(resolve_url("foo", "https://example.com"), "https://example.com/foo");
}

#[test]
fn resolve_url_base_without_scheme_keeps_href() {
    assert_eq!(resolve_url("a/b", "example.com/x"), "a/b");
}

#[test]
fn find_first_value_matches() {
    let ext = vec![FieldExtraction {
        field_path: "/detail_page/title".into(),
        field_node_id: Some(1),
        scope: "detail_page".into(),
        hits: vec![Hit {
            value: "T".into(),
            source_fragment: "css".into(),
            location: None,
            context_html: None,
        }],
        error: None,
    }];
    assert_eq!(find_first_value(&ext, "title"), Some("T".to_string()));
    assert_eq!(find_first_value(&ext, "name"), None);
}

#[test]
fn find_first_value_skips_fields_without_hits() {
    let ext = vec![
        FieldExtraction {
            field_path: "/detail_page/title".into(),
            field_node_id: Some(1),
            scope: "detail_page".into(),
            hits: vec![],
            error: None,
        },
        FieldExtraction {
            field_path: "/list_page/card/title".into(),
            field_node_id: Some(2),
            scope: "list_page".into(),
            hits: vec![Hit {
                value: "second".into(),
                source_fragment: "css".into(),
                location: None,
                context_html: None,
            }],
            error: None,
        },
    ];
    assert_eq!(find_first_value(&ext, "title"), Some("second".to_string()));
}

#[test]
fn should_stop_after_page_force_full_never_stops() {
    let mut empty = 10i64;
    assert!(!should_stop_after_page(true, 5, 5, &mut empty, 3));
    assert_eq!(empty, 10, "force_full=true 时不得维护 empty_pages");
}

#[test]
fn should_stop_after_page_resets_on_new() {
    let mut empty = 2i64;
    assert!(!should_stop_after_page(false, 5, 8, &mut empty, 3));
    assert_eq!(empty, 0);
}

#[test]
fn should_stop_after_page_accumulates_below_limit() {
    let mut empty = 0i64;
    assert!(!should_stop_after_page(false, 5, 5, &mut empty, 3));
    assert_eq!(empty, 1);
    assert!(!should_stop_after_page(false, 5, 5, &mut empty, 3));
    assert_eq!(empty, 2);
}

#[test]
fn should_stop_after_page_stops_at_limit() {
    let mut empty = 2i64;
    assert!(should_stop_after_page(false, 5, 5, &mut empty, 3));
    assert_eq!(empty, 3);
}

#[test]
fn should_stop_after_page_simulates_pagination_sequence() {
    let mut empty = 0i64;
    assert!(!should_stop_after_page(false, 0, 5, &mut empty, 3));
    assert!(!should_stop_after_page(false, 5, 5, &mut empty, 3));
    assert!(!should_stop_after_page(false, 5, 5, &mut empty, 3));
    assert!(should_stop_after_page(false, 5, 5, &mut empty, 3));
    let mut empty2 = 0i64;
    assert!(!should_stop_after_page(false, 5, 5, &mut empty2, 3));
    assert!(!should_stop_after_page(false, 5, 6, &mut empty2, 3));
    assert!(!should_stop_after_page(false, 6, 6, &mut empty2, 3));
    assert!(!should_stop_after_page(false, 6, 6, &mut empty2, 3));
    assert!(should_stop_after_page(false, 6, 6, &mut empty2, 3));
}

#[test]
fn build_template_url_replaces_placeholder() {
    let u = build_template_url("https://site.com/page-{page}.html", 4, "https://site.com/");
    assert_eq!(u.as_deref(), Some("https://site.com/page-4.html"));
}

#[test]
fn build_template_url_relative_resolves() {
    let u = build_template_url("page-{page}.html", 2, "https://site.com/list/");
    assert_eq!(u.as_deref(), Some("https://site.com/list/page-2.html"));
}

#[test]
fn build_template_url_page_in_query() {
    let u = build_template_url("https://site.com/list?p={page}", 7, "https://site.com/");
    assert_eq!(u.as_deref(), Some("https://site.com/list?p=7"));
}

#[test]
fn build_template_url_no_placeholder_returns_none() {
    assert_eq!(
        build_template_url("https://site.com/page-4.html", 4, "https://site.com/"),
        None,
        "无 {{page}} 占位符应返回 None"
    );
}

#[test]
fn build_template_url_multiple_placeholders_returns_none() {
    assert_eq!(
        build_template_url("{page}/{page}", 1, "https://site.com/"),
        None,
        "多个 {{page}} 占位符应返回 None"
    );
}

#[test]
fn build_template_url_negative_and_large_pages() {
    let u = build_template_url("https://s.com/p{page}", -12, "https://s.com/");
    assert_eq!(u.as_deref(), Some("https://s.com/p-12"));
    let u = build_template_url("https://s.com/p{page}", 1234567, "https://s.com/");
    assert_eq!(u.as_deref(), Some("https://s.com/p1234567"));
}
