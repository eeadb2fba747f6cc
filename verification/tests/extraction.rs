use crawler::extractor::{
    extract, extract_json_from_text, extract_prefix_suffix, try_extract, ExtractErrorKind,
    ExtractInput,
};
use crawler::field_schema::{
    CssRule, FollowUrlRule, HeaderFieldRule, JsonPathRule, MetaAttrRule, PrefixSuffixRule,
    RegexRule, Rule, ScriptRule, SourceLayer, SubRule,
};
use crawler::source_layer::{MetaKeyKind, MetaTag, ScriptBlock, SourceMaterial};

fn make_input<'a>(html: &'a str, final_url: &'a str) -> ExtractInput<'a> {
    ExtractInput {
        source_layer: SourceLayer::Html,
        html,
        script_blocks: &[],
        metas: &[],
        headers: &[],
        final_url,
        script_index: None,
    }
}

fn make_input_with_scripts<'a>(
    html: &'a str,
    final_url: &'a str,
    scripts: &'a [ScriptBlock],
    script_index: Option<i32>,
) -> ExtractInput<'a> {
    ExtractInput {
        source_layer: SourceLayer::Script,
        html,
        script_blocks: scripts,
        metas: &[],
        headers: &[],
        final_url,
        script_index,
    }
}

/// A script block holding JSON text inline.
fn make_json_value(json: &str) -> ScriptBlock {
    ScriptBlock { index: 0, src: None, content: Some(json.to_string()) }
}

// ===== CSS =====

#[test]
fn css_text_basic_match() {
    let html = r#"<ul>
        <li class="title">第一篇</li>
        <li class="title">第二篇</li>
        <li class="other">无关</li>
    </ul>"#;
    let rule = Rule::Css(CssRule { selector: "li.title".into(), attr: "text".into() });
    let input = make_input(html, "https://example.com/");
    let hits = extract(&rule, &input).expect("css ok");
    assert_eq!(hits.len(), 2);
    assert!(hits[0].value.contains("第一篇"));
    assert!(hits[1].value.contains("第二篇"));
    assert_eq!(hits[0].source_fragment, "css:li.title");
    assert_eq!(hits[0].location.as_deref(), Some("node[0]"));
}

#[test]
fn css_attr_href() {
    let html = r#"<a class="link" href="/p/1">A</a><a class="link" href="/p/2">B</a>"#;
    let rule = Rule::Css(CssRule { selector: "a.link".into(), attr: "href".into() });
    let input = make_input(html, "https://example.com/");
    let hits = extract(&rule, &input).expect("css ok");
    assert_eq!(hits.len(), 2);
    assert_eq!(hits[0].value, "/p/1");
    assert_eq!(hits[1].value, "/p/2");
}

#[test]
fn css_zero_hits_when_no_match() {
    let html = "<div>nothing</div>";
    let rule = Rule::Css(CssRule { selector: ".missing".into(), attr: "text".into() });
    let input = make_input(html, "https://example.com/");
    let hits = extract(&rule, &input).expect("css ok");
    assert!(hits.is_empty());
}

#[test]
fn css_invalid_selector_returns_invalid_rule() {
    let rule = Rule::Css(CssRule { selector: ">><<invalid".into(), attr: "text".into() });
    let input = make_input("<div>x</div>", "https://example.com/");
    let err = extract(&rule, &input).expect_err("selector 语法错");
    assert_eq!(err.kind, ExtractErrorKind::InvalidRule);
    assert!(err.message.starts_with("CSS 选择器非法: "));
}

#[test]
fn css_only_html_layer_allowed() {
    let rule = Rule::Css(CssRule { selector: "a".into(), attr: "text".into() });
    let mut input = make_input("<a>x</a>", "https://example.com/");
    input.source_layer = SourceLayer::Script;
    let err = extract(&rule, &input).expect_err("css 只能 html");
    assert_eq!(err.kind, ExtractErrorKind::InvalidRule);
    assert_eq!(err.message, "css 模式只能作用于 source_layer=html（当前 source_layer=Script）");
}

#[test]
fn css_html_attr_gives_outer_html_and_context() {
    let html = r#"<div><p class="x">a<b>b</b></p></div>"#;
    let rule = Rule::Css(CssRule { selector: "p.x".into(), attr: "html".into() });
    let input = make_input(html, "https://example.com/");
    let hits = extract(&rule, &input).expect("css ok");
    assert_eq!(hits.len(), 1);
    assert_eq!(hits[0].value, r#"<p class="x">a<b>b</b></p>"#);
    assert_eq!(hits[0].context_html.as_deref(), Some(r#"<p class="x">a<b>b</b></p>"#));
}

#[test]
fn css_missing_attribute_gives_empty_value() {
    let html = r#"<a class="l">no href</a>"#;
    let rule = Rule::Css(CssRule { selector: "a.l".into(), attr: "href".into() });
    let input = make_input(html, "https://example.com/");
    let hits = extract(&rule, &input).expect("css ok");
    assert_eq!(hits.len(), 1);
    assert_eq!(hits[0].value, "");
}

// ===== Regex =====

#[test]
fn regex_basic_match_group_1() {
    let html = "发布时间：2024-01-02  其他";
    let rule = Rule::Regex(RegexRule { pattern: r"发布时间：(\S+)".into(), group: 1, flags: "".into() });
    let input = make_input(html, "https://example.com/");
    let hits = extract(&rule, &input).expect("regex ok");
    assert_eq!(hits.len(), 1);
    assert_eq!(hits[0].value, "2024-01-02");
}

#[test]
fn regex_group_0_whole_match() {
    let html = "view-123 view-456";
    let rule = Rule::Regex(RegexRule { pattern: r"view-\d+".into(), group: 0, flags: "".into() });
    let input = make_input(html, "https://example.com/");
    let hits = extract(&rule, &input).expect("regex ok");
    assert_eq!(hits.len(), 2);
    assert_eq!(hits[0].value, "view-123");
    assert_eq!(hits[1].value, "view-456");
    assert_eq!(hits[1].location.as_deref(), Some("match[1]"));
    assert_eq!(hits[1].source_fragment, r"regex:view-\d+");
}

#[test]
fn regex_case_insensitive_via_flags() {
    let html = "Hello hello HELLO";
    let rule = Rule::Regex(RegexRule { pattern: "hello".into(), group: 0, flags: "i".into() });
    let input = make_input(html, "https://example.com/");
    let hits = extract(&rule, &input).expect("regex ok");
    assert_eq!(hits.len(), 3);
}

#[test]
fn regex_zero_hits_when_no_match() {
    let rule = Rule::Regex(RegexRule { pattern: r"not-found-\d+".into(), group: 0, flags: "".into() });
    let input = make_input("abc", "https://example.com/");
    let hits = extract(&rule, &input).expect("regex ok");
    assert!(hits.is_empty());
}

#[test]
fn regex_invalid_pattern_returns_invalid_rule() {
    let rule = Rule::Regex(RegexRule { pattern: r"(unclosed".into(), group: 0, flags: "".into() });
    let input = make_input("abc", "https://example.com/");
    let err = extract(&rule, &input).expect_err("regex 语法错");
    assert_eq!(err.kind, ExtractErrorKind::InvalidRule);
    assert!(err.message.starts_with("regex 编译失败: "));
}

#[test]
fn regex_group_index_out_of_range_returns_invalid_rule() {
    let rule = Rule::Regex(RegexRule { pattern: r"hello".into(), group: 3, flags: "".into() });
    let input = make_input("hello", "https://example.com/");
    let err = extract(&rule, &input).expect_err("group 越界");
    assert_eq!(err.kind, ExtractErrorKind::InvalidRule);
    assert_eq!(err.message, "regex group 3 不存在（pattern 仅有 0 个捕获组）");
}

#[test]
fn regex_on_script_layer() {
    let scripts = vec![ScriptBlock {
        index: 0,
        src: None,
        content: Some(r#"window.data = {"views": 1024};"#.to_string()),
    }];
    let rule = Rule::Regex(RegexRule { pattern: r#""views":\s*(\d+)"#.into(), group: 1, flags: "".into() });
    let input = make_input_with_scripts("", "https://example.com/", &scripts, Some(0));
    let hits = extract(&rule, &input).expect("regex on script ok");
    assert_eq!(hits.len(), 1);
    assert_eq!(hits[0].value, "1024");
}

#[test]
fn regex_on_url_layer() {
    let rule = Rule::Regex(RegexRule { pattern: r"page=(\d+)".into(), group: 1, flags: "".into() });
    let mut input = make_input("ignored", "https://example.com/list?page=3");
    input.source_layer = SourceLayer::Url;
    let hits = extract(&rule, &input).expect("regex on url ok");
    assert_eq!(hits.len(), 1);
    assert_eq!(hits[0].value, "3");
}

// ===== Prefix / suffix =====

fn ps(prefix: &str, suffix: &str, include_boundary: bool, case_sensitive: bool) -> PrefixSuffixRule {
    PrefixSuffixRule { prefix: prefix.into(), suffix: suffix.into(), include_boundary, case_sensitive }
}

#[test]
fn prefix_suffix_basic() {
    let html = "<title>我的页面</title> 其他";
    let rule = Rule::PrefixSuffix(ps("<title>", "</title>", false, true));
    let input = make_input(html, "https://example.com/");
    let hits = extract(&rule, &input).expect("ps ok");
    assert_eq!(hits.len(), 1);
    assert_eq!(hits[0].value, "我的页面");
}

#[test]
fn prefix_suffix_include_boundary() {
    let html = "key=value;key2=value2;";
    let rule = Rule::PrefixSuffix(ps("key=", ";", true, true));
    let input = make_input(html, "https://example.com/");
    let hits = extract(&rule, &input).expect("ps ok");
    assert_eq!(hits.len(), 1);
    assert_eq!(hits[0].value, "key=value;");
}

#[test]
fn prefix_suffix_multiple_matches() {
    let html = "[A]x[B] [A]y[B] [A]z[B]";
    let rule = Rule::PrefixSuffix(ps("[A]", "[B]", false, true));
    let input = make_input(html, "https://example.com/");
    let hits = extract(&rule, &input).expect("ps ok");
    assert_eq!(hits.len(), 3);
    assert_eq!(hits[0].value, "x");
    assert_eq!(hits[1].value, "y");
    assert_eq!(hits[2].value, "z");
    assert_eq!(hits[2].location.as_deref(), Some("match[2]"));
    assert_eq!(hits[0].source_fragment, "prefix_suffix:[A]...[B]");
}

#[test]
fn prefix_suffix_case_insensitive() {
    let html = "<TITLE>X</TITLE>";
    let rule = Rule::PrefixSuffix(ps("<title>", "</title>", false, false));
    let input = make_input(html, "https://example.com/");
    let hits = extract(&rule, &input).expect("ps ok");
    assert_eq!(hits.len(), 1);
    assert_eq!(hits[0].value, "X");
}

#[test]
fn prefix_suffix_zero_hits_when_prefix_missing() {
    let rule = Rule::PrefixSuffix(ps("START", "END", false, true));
    let input = make_input("nothing here", "https://example.com/");
    let hits = extract(&rule, &input).expect("ps ok");
    assert!(hits.is_empty());
}

#[test]
fn prefix_suffix_zero_hits_when_suffix_missing() {
    let html = "START something";
    let rule = Rule::PrefixSuffix(ps("START", "END", false, true));
    let input = make_input(html, "https://example.com/");
    let hits = extract(&rule, &input).expect("ps ok");
    assert!(hits.is_empty());
}

#[test]
fn prefix_suffix_multibyte_text_between_markers() {
    let hits = extract_prefix_suffix(&ps("「", "」", false, true), "甲「乙」丙「丁戊」").expect("no panic");
    assert_eq!(hits.len(), 2);
    assert_eq!(hits[0].value, "乙");
    assert_eq!(hits[1].value, "丁戊");
}

#[test]
fn prefix_suffix_lowercase_length_change_reported() {
    // 'İ' (2 bytes) lower-cases to "i̇" (3 bytes): the offset found in the
    // lower-cased text points past the end of the original one.
    let rule = Rule::PrefixSuffix(ps("x", "y", false, false));
    let input = make_input("İx", "https://example.com/");
    assert!(try_extract(&rule, &input).is_none());
    assert!(extract_prefix_suffix(&ps("x", "y", false, false), "İx").is_none());
}

#[test]
fn try_extract_on_ordinary_rule_agrees_with_extract() {
    let rule = Rule::PrefixSuffix(ps("<b>", "</b>", false, true));
    let input = make_input("<b>1</b><b>2</b>", "https://example.com/");
    let hits = try_extract(&rule, &input).expect("no panic").expect("ok");
    assert_eq!(hits.len(), 2);
    assert_eq!(hits[1].value, "2");
}

// ===== Missing sources / unsupported =====

#[test]
fn script_layer_missing_script_index() {
    let rule = Rule::Regex(RegexRule { pattern: "x".into(), group: 0, flags: "".into() });
    let mut input = make_input_with_scripts("", "https://example.com/", &[], None);
    input.source_layer = SourceLayer::Script;
    let err = extract(&rule, &input).expect_err("缺 script_index");
    assert_eq!(err.kind, ExtractErrorKind::SourceMissing);
}

#[test]
fn script_layer_index_out_of_range() {
    let scripts = vec![ScriptBlock { index: 0, src: None, content: Some("x".to_string()) }];
    let rule = Rule::Regex(RegexRule { pattern: "x".into(), group: 0, flags: "".into() });
    let input = make_input_with_scripts("", "https://example.com/", &scripts, Some(99));
    let err = extract(&rule, &input).expect_err("script_index 越界");
    assert_eq!(err.kind, ExtractErrorKind::SourceMissing);
    assert_eq!(err.message, "script_index 99 越界（共 1 个 script 块）");
}

#[test]
fn script_layer_external_script_has_no_content() {
    let scripts = vec![ScriptBlock { index: 0, src: Some("https://cdn.com/a.js".to_string()), content: None }];
    let rule = Rule::Regex(RegexRule { pattern: "x".into(), group: 0, flags: "".into() });
    let input = make_input_with_scripts("", "https://example.com/", &scripts, Some(0));
    let err = extract(&rule, &input).expect_err("外链脚本无内容");
    assert_eq!(err.kind, ExtractErrorKind::SourceMissing);
    assert!(err.message.starts_with("script[0] 是外链脚本（src="));
}

#[test]
fn regex_on_meta_layer_unsupported() {
    let rule = Rule::Regex(RegexRule { pattern: "x".into(), group: 0, flags: "".into() });
    let mut input = make_input("ignored", "https://example.com/");
    input.source_layer = SourceLayer::Meta;
    let err = extract(&rule, &input).expect_err("Meta 层 regex 不支持");
    assert_eq!(err.kind, ExtractErrorKind::UnsupportedMode);
}

// ===== JSONPath =====

#[test]
fn json_path_json_ld_simple_object() {
    let scripts = vec![make_json_value(
        r#"{"@type":"NewsArticle","headline":"测试标题","datePublished":"2024-02-01"}"#,
    )];
    let rule = Rule::JsonPath(JsonPathRule { path: "$.headline".into() });
    let input = make_input_with_scripts("", "https://example.com/", &scripts, Some(0));
    let hits = extract(&rule, &input).expect("json_path ok");
    assert_eq!(hits.len(), 1);
    assert_eq!(hits[0].value, "测试标题");
    assert_eq!(hits[0].source_fragment, "json_path:$.headline");
}

#[test]
fn json_path_window_data_assignment() {
    let scripts = vec![ScriptBlock {
        index: 0,
        src: None,
        content: Some(r#"window.__DATA__ = {"list":[{"title":"A"},{"title":"B"}]};"#.to_string()),
    }];
    let rule = Rule::JsonPath(JsonPathRule { path: "$.list[*].title".into() });
    let input = make_input_with_scripts("", "https://example.com/", &scripts, Some(0));
    let hits = extract(&rule, &input).expect("json_path 启发式 ok");
    assert_eq!(hits.len(), 2);
    assert_eq!(hits[0].value, "A");
    assert_eq!(hits[1].value, "B");
}

#[test]
fn json_path_invalid_path_returns_invalid_rule() {
    let scripts = vec![make_json_value(r#"{"a": 1}"#)];
    let rule = Rule::JsonPath(JsonPathRule { path: "$.[unclosed".into() });
    let input = make_input_with_scripts("", "https://example.com/", &scripts, Some(0));
    let err = extract(&rule, &input).expect_err("非法 json_path");
    assert_eq!(err.kind, ExtractErrorKind::InvalidRule);
    assert!(err.message.starts_with("json_path 解析失败: "));
}

#[test]
fn json_path_missing_script_index() {
    let scripts = vec![make_json_value(r#"{"a": 1}"#)];
    let rule = Rule::JsonPath(JsonPathRule { path: "$.a".into() });
    let input = make_input_with_scripts("", "https://example.com/", &scripts, None);
    let err = extract(&rule, &input).expect_err("缺 script_index");
    assert_eq!(err.kind, ExtractErrorKind::SourceMissing);
}

#[test]
fn json_path_external_script_no_content() {
    let scripts = vec![ScriptBlock { index: 0, src: Some("https://cdn.com/a.js".to_string()), content: None }];
    let rule = Rule::JsonPath(JsonPathRule { path: "$.a".into() });
    let input = make_input_with_scripts("", "https://example.com/", &scripts, Some(0));
    let err = extract(&rule, &input).expect_err("外链脚本无内容");
    assert_eq!(err.kind, ExtractErrorKind::SourceMissing);
}

#[test]
fn json_path_non_json_content_returns_source_missing() {
    let scripts = vec![ScriptBlock { index: 0, src: None, content: Some("console.log('hello');".to_string()) }];
    let rule = Rule::JsonPath(JsonPathRule { path: "$.a".into() });
    let input = make_input_with_scripts("", "https://example.com/", &scripts, Some(0));
    let err = extract(&rule, &input).expect_err("无法解析 JSON");
    assert_eq!(err.kind, ExtractErrorKind::SourceMissing);
    assert_eq!(err.message, "script[0] 内容无法解析为 JSON（含启发式提取）");
}

#[test]
fn json_path_number_value() {
    let scripts = vec![make_json_value(r#"{"count": 42, "label": "x"}"#)];
    let rule = Rule::JsonPath(JsonPathRule { path: "$.count".into() });
    let input = make_input_with_scripts("", "https://example.com/", &scripts, Some(0));
    let hits = extract(&rule, &input).expect("json_path number ok");
    assert_eq!(hits.len(), 1);
    assert_eq!(hits[0].value, "42");
}

#[test]
fn json_path_object_node_is_compact_json() {
    let scripts = vec![make_json_value(r#"{ "o": { "k": [1, 2] } }"#)];
    let rule = Rule::JsonPath(JsonPathRule { path: "$.o".into() });
    let input = make_input_with_scripts("", "https://example.com/", &scripts, Some(0));
    let hits = extract(&rule, &input).expect("json_path ok");
    assert_eq!(hits[0].value, r#"{"k":[1,2]}"#);
    assert_eq!(hits[0].location.as_deref(), Some("match[0]"));
}

/// The JSON value read from the text `extract_json_from_text` points at.
fn json_value_of(text: &str) -> Option<serde_json::Value> {
    let (src, whole) = extract_json_from_text(text)?;
    if whole {
        serde_json::from_str(&src).ok()
    } else {
        serde_json::Deserializer::from_str(&src).into_iter::<serde_json::Value>().next()?.ok()
    }
}

#[test]
fn extract_json_from_text_pure_json() {
    let v = json_value_of(r#"{"a":1,"b":[2,3]}"#).expect("pure json");
    assert_eq!(v["a"], 1);
}

#[test]
fn extract_json_from_text_assignment_form() {
    let v = json_value_of(r#"window.x = {"k":"v"};"#).expect("assignment");
    assert_eq!(v["k"], "v");
}

#[test]
fn extract_json_from_text_no_json_returns_none() {
    assert!(extract_json_from_text("plain text without json").is_none());
}

// ===== Meta attributes =====

fn make_meta_input<'a>(metas: &'a [MetaTag]) -> ExtractInput<'a> {
    ExtractInput {
        source_layer: SourceLayer::Meta,
        html: "",
        script_blocks: &[],
        metas,
        headers: &[],
        final_url: "https://example.com/",
        script_index: None,
    }
}

fn meta(kind: MetaKeyKind, key: &str, content: &str) -> MetaTag {
    MetaTag { key_kind: kind, key: key.to_string(), content: content.to_string() }
}

fn meta_rule(name: &str, value: &str, content_key: &str) -> Rule {
    Rule::MetaAttr(MetaAttrRule {
        attr_name: name.into(),
        attr_value: value.into(),
        content_key: content_key.into(),
    })
}

#[test]
fn meta_attr_og_image() {
    let metas = vec![
        meta(MetaKeyKind::Property, "og:image", "https://cdn.com/cover.jpg"),
        meta(MetaKeyKind::Name, "description", "页面描述"),
    ];
    let input = make_meta_input(&metas);
    let hits = extract(&meta_rule("property", "og:image", "content"), &input).expect("meta_attr ok");
    assert_eq!(hits.len(), 1);
    assert_eq!(hits[0].value, "https://cdn.com/cover.jpg");
    assert_eq!(hits[0].source_fragment, "meta_attr:property=og:image");
}

#[test]
fn meta_attr_description_by_name() {
    let metas = vec![meta(MetaKeyKind::Name, "description", "页面描述")];
    let input = make_meta_input(&metas);
    let hits = extract(&meta_rule("name", "description", "content"), &input).expect("meta_attr ok");
    assert_eq!(hits.len(), 1);
    assert_eq!(hits[0].value, "页面描述");
}

#[test]
fn meta_attr_zero_hits_when_not_present() {
    let metas = vec![meta(MetaKeyKind::Name, "keywords", "x,y")];
    let input = make_meta_input(&metas);
    let hits = extract(&meta_rule("name", "description", "content"), &input).expect("meta_attr ok");
    assert!(hits.is_empty());
}

#[test]
fn meta_attr_default_content_key_when_empty() {
    let metas = vec![meta(MetaKeyKind::Name, "description", "默认取 content")];
    let input = make_meta_input(&metas);
    let hits = extract(&meta_rule("name", "description", ""), &input).expect("meta_attr ok");
    assert_eq!(hits.len(), 1);
    assert_eq!(hits[0].value, "默认取 content");
}

#[test]
fn meta_attr_other_content_key_gives_nothing() {
    let metas = vec![meta(MetaKeyKind::Name, "description", "d")];
    let input = make_meta_input(&metas);
    let hits = extract(&meta_rule("name", "description", " value "), &input).expect("meta_attr ok");
    assert!(hits.is_empty());
}

#[test]
fn meta_attr_kind_must_agree_and_location_counts_all_tags() {
    let metas = vec![
        meta(MetaKeyKind::Name, "og:title", "by name"),
        meta(MetaKeyKind::Property, "og:title", "by property"),
        meta(MetaKeyKind::Other, "charset", "utf-8"),
    ];
    let input = make_meta_input(&metas);
    let hits = extract(&meta_rule("property", "og:title", "content"), &input).expect("ok");
    assert_eq!(hits.len(), 1);
    assert_eq!(hits[0].value, "by property");
    assert_eq!(hits[0].location.as_deref(), Some("meta[1]"));
    let hits = extract(&meta_rule("charset", "charset", "content"), &input).expect("ok");
    assert_eq!(hits.len(), 1);
    assert_eq!(hits[0].value, "utf-8");
}

// ===== Headers =====

fn make_header_input<'a>(headers: &'a [(String, String)]) -> ExtractInput<'a> {
    ExtractInput {
        source_layer: SourceLayer::Header,
        html: "",
        script_blocks: &[],
        metas: &[],
        headers,
        final_url: "https://example.com/",
        script_index: None,
    }
}

fn header(k: &str, v: &str) -> (String, String) {
    (k.to_string(), v.to_string())
}

#[test]
fn header_field_x_total_count() {
    let headers = vec![header("x-total-count", "1234"), header("content-type", "text/html")];
    let rule = Rule::HeaderField(HeaderFieldRule { header_name: "X-Total-Count".into() });
    let input = make_header_input(&headers);
    let hits = extract(&rule, &input).expect("header_field ok");
    assert_eq!(hits.len(), 1);
    assert_eq!(hits[0].value, "1234");
    assert_eq!(hits[0].source_fragment, "header_field:X-Total-Count");
    assert_eq!(hits[0].location.as_deref(), Some("header[0]"));
}

#[test]
fn header_field_content_type_case_insensitive() {
    let headers = vec![header("content-type", "application/json")];
    let rule = Rule::HeaderField(HeaderFieldRule { header_name: "Content-Type".into() });
    let input = make_header_input(&headers);
    let hits = extract(&rule, &input).expect("header_field ok");
    assert_eq!(hits.len(), 1);
    assert_eq!(hits[0].value, "application/json");
}

#[test]
fn header_field_missing_returns_zero_hits() {
    let headers: Vec<(String, String)> = Vec::new();
    let rule = Rule::HeaderField(HeaderFieldRule { header_name: "X-Missing".into() });
    let input = make_header_input(&headers);
    let hits = extract(&rule, &input).expect("header_field ok");
    assert!(hits.is_empty());
}

// ===== follow_url / script =====

#[test]
fn follow_url_rule_rejected_in_sync_extract() {
    let fu = FollowUrlRule {
        transit: SubRule::Css(CssRule { selector: "a".into(), attr: "href".into() }),
        transit_layer: SourceLayer::Html,
        transit_script_index: None,
        target_layer: SourceLayer::Html,
        target_script_index: None,
        extract: SubRule::Css(CssRule { selector: "a".into(), attr: "href".into() }),
    };
    let material = SourceMaterial {
        final_url: "https://example.com/".into(),
        html: "<a href='/x'>x</a>".to_string(),
        status: 200,
        headers: Vec::new(),
        scripts: vec![],
        metas: vec![],
        fetched_at: chrono::Utc::now().naive_utc(),
        duration_ms: 0,
    };
    let input = ExtractInput::from_material(&material, None);
    let err = extract(&Rule::FollowUrl(fu), &input).unwrap_err();
    assert_eq!(err.kind, ExtractErrorKind::UnsupportedMode);
}

#[test]
fn t_extract_returns_unsupported_for_script_rule() {
    let rule = Rule::Script(ScriptRule { body: "return ctx.value".into(), api_version: "v1".into() });
    let input = make_input("<html></html>", "https://example.com/");
    let err = extract(&rule, &input).unwrap_err();
    assert_eq!(err.kind, ExtractErrorKind::UnsupportedMode);
    assert!(err.message.contains("script"));
}
