use crawler::field_schema::{
    compile_regex, validate_field_node_spec, validate_name, validate_rule_value,
    validate_script_rule, CssRule, ExtractorMode, FieldNodeSpec, FieldType, FollowUrlRule,
    HeaderFieldRule, JsonPathRule, MetaAttrRule, PrefixSuffixRule, RegexRule, Rule, Scope,
    ScriptRule, SourceLayer, SubRule,
};

#[test]
fn t_name_legal_simple() {
    assert!(validate_name("title").is_ok());
    assert!(validate_name("cover").is_ok());
}

#[test]
fn t_name_legal_with_underscore_and_digits() {
    assert!(validate_name("cover_url").is_ok());
    assert!(validate_name("link_card_2").is_ok());
    assert!(validate_name("a1").is_ok());
}

#[test]
fn t_name_legal_max_length_32() {
    let name = "a".to_string() + &"_b".repeat(15);
    assert_eq!(name.len(), 31);
    assert!(validate_name(&name).is_ok());

    let name32 = "a".to_string() + &"_b".repeat(15) + "c";
    assert_eq!(name32.len(), 32);
    assert!(validate_name(&name32).is_ok());
}

#[test]
fn t_name_illegal_empty() {
    assert!(validate_name("").is_err());
}

#[test]
fn t_name_illegal_uppercase() {
    assert!(validate_name("Title").is_err());
    assert!(validate_name("ABC").is_err());
}

#[test]
fn t_name_illegal_starts_with_digit_or_underscore() {
    assert!(validate_name("1title").is_err());
    assert!(validate_name("_title").is_err());
    assert!(validate_name("-title").is_err());
}

#[test]
fn t_name_illegal_too_long() {
    let name = "a".to_string() + &"b".repeat(32);
    assert_eq!(name.len(), 33);
    assert!(validate_name(&name).is_err());
}

#[test]
fn t_name_illegal_dash_or_space() {
    assert!(validate_name("link-card").is_err());
    assert!(validate_name("link card").is_err());
}

#[test]
fn t_name_error_message_names_the_field() {
    let e = validate_name("Bad").unwrap_err();
    assert!(e.contains("'Bad'"));
}

#[test]
fn t_scope_round_trip() {
    assert_eq!(Scope::ListPage.as_str(), "list_page");
    assert_eq!(Scope::from_str("list_page"), Some(Scope::ListPage));
    assert_eq!(Scope::from_str("invalid"), None);
}

#[test]
fn t_field_type_round_trip() {
    assert_eq!(FieldType::LinkCard.as_str(), "link_card");
    assert_eq!(FieldType::from_str("link_card"), Some(FieldType::LinkCard));
    assert_eq!(FieldType::Pagination.as_str(), "pagination");
}

#[test]
fn t_source_layer_round_trip() {
    assert_eq!(SourceLayer::Script.as_str(), "script");
    assert_eq!(SourceLayer::from_str("script"), Some(SourceLayer::Script));
}

#[test]
fn t_extractor_mode_all_seven() {
    for s in [
        "css",
        "regex",
        "prefix_suffix",
        "json_path",
        "meta_attr",
        "header_field",
        "follow_url",
    ] {
        assert!(ExtractorMode::from_str(s).is_some(), "missing mode {s}");
        let m = ExtractorMode::from_str(s).unwrap();
        assert_eq!(m.as_str(), s);
    }
}

#[test]
fn t_extractor_mode_script_label() {
    assert_eq!(ExtractorMode::from_str("script"), Some(ExtractorMode::Script));
    assert_eq!(ExtractorMode::Script.as_str(), "script");
}

#[test]
fn t_sub_rule_mode_str_and_extractor_mode() {
    let sub = SubRule::Css(CssRule { selector: "a".into(), attr: "href".into() });
    assert_eq!(sub.mode_str(), "css");
    assert_eq!(sub.to_extractor_mode(), ExtractorMode::Css);

    let sub = SubRule::HeaderField(HeaderFieldRule { header_name: "X-Foo".into() });
    assert_eq!(sub.mode_str(), "header_field");
    assert_eq!(sub.to_extractor_mode(), ExtractorMode::HeaderField);
}

#[test]
fn t_validate_script_rule_rejects_empty_body() {
    let r = ScriptRule { body: "   \n\t  ".into(), api_version: "v1".into() };
    let err = validate_script_rule(&r).unwrap_err();
    assert!(err.contains("script.body"));
}

#[test]
fn t_validate_script_rule_rejects_oversized_body() {
    let r = ScriptRule { body: "x".repeat(65_537), api_version: "v1".into() };
    let err = validate_script_rule(&r).unwrap_err();
    assert!(err.contains("65537"));
    assert!(err.contains("65536"));
}

#[test]
fn t_validate_script_rule_rejects_unknown_api_version() {
    let r = ScriptRule { body: "return ctx.value".into(), api_version: "v2".into() };
    let err = validate_script_rule(&r).unwrap_err();
    assert!(err.contains("v1"));
    assert!(err.contains("v2"));
}

#[test]
fn t_validate_script_rule_accepts_legal_body() {
    let r = ScriptRule { body: "return ctx.value.toUpperCase()".into(), api_version: "v1".into() };
    assert!(validate_script_rule(&r).is_ok());
}

fn node(scope: Scope, mode: ExtractorMode, rule: Rule, refresh: bool) -> FieldNodeSpec {
    FieldNodeSpec {
        id: None,
        task_id: None,
        parent_id: None,
        scope,
        name: "title".into(),
        display_name: "标题".into(),
        field_type: FieldType::String,
        source_layer: SourceLayer::Html,
        extractor_mode: mode,
        rule,
        post_processors: vec![],
        script_index: None,
        sort_order: 0,
        is_active: true,
        refresh_on_read: refresh,
    }
}

#[test]
fn t_validate_field_node_rejects_list_scope_with_script() {
    let n = node(
        Scope::ListPage,
        ExtractorMode::Script,
        Rule::Script(ScriptRule { body: "return ctx.value".into(), api_version: "v1".into() }),
        false,
    );
    let err = validate_field_node_spec(&n).unwrap_err();
    assert!(err.contains("detail_page"));
    assert!(err.contains("list_page"));
}

#[test]
fn t_validate_field_node_rejects_refresh_on_read_with_non_script() {
    let n = node(
        Scope::DetailPage,
        ExtractorMode::Css,
        Rule::Css(CssRule { selector: ".t".into(), attr: "text".into() }),
        true,
    );
    let err = validate_field_node_spec(&n).unwrap_err();
    assert!(err.contains("refresh_on_read"));
    assert!(err.contains("css"));
}

#[test]
fn t_validate_field_node_accepts_detail_script_with_refresh() {
    let n = node(
        Scope::DetailPage,
        ExtractorMode::Script,
        Rule::Script(ScriptRule { body: "return ctx.value".into(), api_version: "v1".into() }),
        true,
    );
    assert!(validate_field_node_spec(&n).is_ok());
}

// ---- rule checks on rule values ----

fn css(sel: &str) -> Rule {
    Rule::Css(CssRule { selector: sel.into(), attr: "text".into() })
}

#[test]
fn t_rule_value_css() {
    assert!(validate_rule_value(&css(".post-title")).is_ok());
    assert!(validate_rule_value(&css("")).is_err());
    assert!(validate_rule_value(&css("   ")).is_err());
}

#[test]
fn t_rule_value_regex() {
    let ok = Rule::Regex(RegexRule { pattern: "发布时间：(.+?)$".into(), group: 1, flags: "".into() });
    assert!(validate_rule_value(&ok).is_ok());
    let ok_i = Rule::Regex(RegexRule { pattern: "view".into(), group: 0, flags: "i".into() });
    assert!(validate_rule_value(&ok_i).is_ok());
    let empty = Rule::Regex(RegexRule { pattern: "".into(), group: 1, flags: "".into() });
    assert!(validate_rule_value(&empty).is_err());
    let bad = Rule::Regex(RegexRule { pattern: "(unclosed".into(), group: 1, flags: "".into() });
    assert!(validate_rule_value(&bad).is_err());
}

#[test]
fn t_rule_value_prefix_suffix() {
    let mk = |p: &str, s: &str| {
        Rule::PrefixSuffix(PrefixSuffixRule {
            prefix: p.into(),
            suffix: s.into(),
            include_boundary: false,
            case_sensitive: true,
        })
    };
    assert!(validate_rule_value(&mk("<title>", "</title>")).is_ok());
    assert!(validate_rule_value(&mk("", "</title>")).is_err());
    assert!(validate_rule_value(&mk("<title>", "")).is_err());
}

#[test]
fn t_rule_value_json_path() {
    let mk = |p: &str| Rule::JsonPath(JsonPathRule { path: p.into() });
    assert!(validate_rule_value(&mk("$.name")).is_ok());
    assert!(validate_rule_value(&mk("name")).is_err());
    assert!(validate_rule_value(&mk("")).is_err());
}

#[test]
fn t_rule_value_meta_and_header() {
    let meta = |n: &str| {
        Rule::MetaAttr(MetaAttrRule {
            attr_name: n.into(),
            attr_value: "description".into(),
            content_key: "content".into(),
        })
    };
    assert!(validate_rule_value(&meta("name")).is_ok());
    assert!(validate_rule_value(&meta("")).is_err());
    let header = |n: &str| Rule::HeaderField(HeaderFieldRule { header_name: n.into() });
    assert!(validate_rule_value(&header("X-Total-Count")).is_ok());
    assert!(validate_rule_value(&header("")).is_err());
}

fn follow(transit: SubRule, target_layer: SourceLayer, target_idx: Option<i32>, extract: SubRule) -> Rule {
    Rule::FollowUrl(FollowUrlRule {
        transit,
        transit_layer: SourceLayer::Html,
        transit_script_index: None,
        target_layer,
        target_script_index: target_idx,
        extract,
    })
}

fn sub_css(sel: &str) -> SubRule {
    SubRule::Css(CssRule { selector: sel.into(), attr: "href".into() })
}

#[test]
fn t_rule_value_follow_url() {
    assert!(validate_rule_value(&follow(sub_css("a.dl"), SourceLayer::Html, None, sub_css("a.real"))).is_ok());
    assert!(validate_rule_value(&follow(
        sub_css("a.dl"),
        SourceLayer::Script,
        Some(2),
        SubRule::JsonPath(JsonPathRule { path: "$.url".into() })
    ))
    .is_ok());
    let e = validate_rule_value(&follow(sub_css(""), SourceLayer::Html, None, sub_css("a"))).unwrap_err();
    assert!(e.contains("follow_url.transit"));
    let e = validate_rule_value(&follow(
        sub_css("a"),
        SourceLayer::Html,
        None,
        SubRule::Regex(RegexRule { pattern: "".into(), group: 1, flags: "".into() }),
    ))
    .unwrap_err();
    assert!(e.contains("follow_url.extract"));
    let e = validate_rule_value(&follow(sub_css("a"), SourceLayer::Script, None, sub_css("a"))).unwrap_err();
    assert!(e.contains("target_script_index"));
}

#[test]
fn t_rule_value_script() {
    let ok = Rule::Script(ScriptRule { body: "return ctx.value".into(), api_version: "v1".into() });
    assert!(validate_rule_value(&ok).is_ok());
    let bad = Rule::Script(ScriptRule { body: "   ".into(), api_version: "v1".into() });
    assert!(validate_rule_value(&bad).is_err());
}

#[test]
fn t_compile_regex_flags() {
    assert!(compile_regex(r"\d+", "").is_ok());
    assert!(compile_regex("title", "i").is_ok());
    assert!(compile_regex("title", "iZQ").is_ok());
    assert!(compile_regex("(unclosed", "").is_err());
    let re = compile_regex("title", "i").unwrap();
    assert!(re.is_match("TITLE"));
}

#[test]
fn t_rule_mode_str() {
    assert_eq!(css(".x").mode_str(), "css");
    let s = Rule::Script(ScriptRule::default());
    assert_eq!(s.mode_str(), "script");
    assert_eq!(ScriptRule::default().api_version, "v1");
}

#[test]
fn t_compile_regex_no_flags() {
    assert!(compile_regex(r"\d+", "").is_ok());
}

#[test]
fn t_compile_regex_inline_flags() {
    assert!(compile_regex("title", "i").is_ok());
}

#[test]
fn t_compile_regex_unknown_flags_filtered() {
    assert!(compile_regex("title", "iZQ").is_ok());
}
