use crawler::field_schema::{
    CssRule, ExtractorMode, FieldNodeSpec, FieldTree, FieldTreeNode, FieldType, Rule, Scope,
    SourceLayer,
};
use crawler::templates::{builtin_templates, find_template, validate_field_tree};

#[test]
fn builtin_templates_has_three_entries() {
    let t = builtin_templates();
    assert_eq!(t.len(), 3, "应有 3 个内置模板");
}

#[test]
fn builtin_templates_keys_are_unique() {
    let keys: Vec<&str> = builtin_templates().iter().map(|t| t.key).collect();
    let unique: std::collections::HashSet<&str> = keys.iter().copied().collect();
    assert_eq!(keys.len(), unique.len(), "模板 key 必须唯一");
}

#[test]
fn find_template_returns_correct_entry() {
    assert_eq!(find_template("discuz_forum").unwrap().source_type, "discuz");
    assert_eq!(find_template("wordpress_blog").unwrap().source_type, "wordpress");
    assert_eq!(find_template("generic_resource_site").unwrap().source_type, "generic");
    assert!(find_template("non_existent").is_none());
}

#[test]
fn all_builtin_templates_pass_field_schema_validate() {
    for t in builtin_templates() {
        validate_field_tree(&t.field_tree).unwrap_or_else(|e| panic!("模板 {} 校验失败: {e}", t.key));
    }
}

#[test]
fn all_templates_have_list_and_detail_fields() {
    for t in builtin_templates() {
        assert!(!t.field_tree.list_page.is_empty(), "模板 {} 缺少 list_page 字段", t.key);
        assert!(!t.field_tree.detail_page.is_empty(), "模板 {} 缺少 detail_page 字段", t.key);
    }
}

#[test]
fn all_templates_have_link_card_in_list_page() {
    for t in builtin_templates() {
        let has_link_card = t
            .field_tree
            .list_page
            .iter()
            .any(|n| n.spec.field_type == FieldType::LinkCard || n.spec.field_type == FieldType::Url);
        assert!(has_link_card, "模板 {} 的 list_page 必须含 link_card 或 url 字段", t.key);
    }
}

fn collect_names(nodes: &[FieldTreeNode], sink: &mut Vec<String>) {
    for n in nodes {
        sink.push(n.spec.name.clone());
        collect_names(&n.children, sink);
    }
}

#[test]
fn field_names_unique_per_scope() {
    for t in builtin_templates() {
        let mut names = Vec::new();
        collect_names(&t.field_tree.list_page, &mut names);
        let unique: std::collections::HashSet<_> = names.iter().collect();
        assert_eq!(names.len(), unique.len(), "模板 {} 的 list_page 字段名重复", t.key);

        let mut names = Vec::new();
        collect_names(&t.field_tree.detail_page, &mut names);
        let unique: std::collections::HashSet<_> = names.iter().collect();
        assert_eq!(names.len(), unique.len(), "模板 {} 的 detail_page 字段名重复", t.key);
    }
}

#[test]
fn discuz_forum_template_complete() {
    let t = find_template("discuz_forum").expect("discuz_forum 模板存在");
    assert!(t.field_tree.list_page.iter().any(|n| n.spec.name == "thread_card"));
    assert!(t.field_tree.detail_page.iter().any(|n| n.spec.name == "title"));
    assert!(t.field_tree.detail_page.iter().any(|n| n.spec.name == "content"));
}

#[test]
fn wordpress_blog_template_complete() {
    let t = find_template("wordpress_blog").expect("wordpress_blog 模板存在");
    assert!(t.field_tree.list_page.iter().any(|n| n.spec.name == "post_card"));
    assert!(t.field_tree.detail_page.iter().any(|n| n.spec.name == "title"));
    assert!(t.field_tree.detail_page.iter().any(|n| n.spec.name == "content"));
}

#[test]
fn generic_resource_site_template_complete() {
    let t = find_template("generic_resource_site").expect("generic_resource_site 模板存在");
    assert!(t.field_tree.list_page.iter().any(|n| n.spec.name == "resource_card"));
    assert!(t.field_tree.detail_page.iter().any(|n| n.spec.name == "title"));
    assert!(t.field_tree.detail_page.iter().any(|n| n.spec.name == "content"));
}

fn node(name: &str, mode: ExtractorMode, selector: &str, children: Vec<FieldTreeNode>) -> FieldTreeNode {
    FieldTreeNode {
        spec: FieldNodeSpec {
            id: None,
            task_id: None,
            parent_id: None,
            scope: Scope::ListPage,
            name: name.into(),
            display_name: name.into(),
            field_type: FieldType::String,
            source_layer: SourceLayer::Html,
            extractor_mode: mode,
            rule: Rule::Css(CssRule { selector: selector.into(), attr: "text".into() }),
            post_processors: vec![],
            script_index: None,
            sort_order: 0,
            is_active: true,
            refresh_on_read: false,
        },
        children,
    }
}

#[test]
fn validate_field_tree_reports_first_failure_depth_first() {
    let tree = FieldTree {
        list_page: vec![node("card", ExtractorMode::Css, ".c", vec![node("Bad", ExtractorMode::Css, ".x", vec![])])],
        detail_page: vec![node("title", ExtractorMode::Css, "", vec![])],
    };
    let e = validate_field_tree(&tree).unwrap_err();
    assert!(e.contains("'Bad'"));
}

#[test]
fn validate_field_tree_rejects_rule_of_other_mode() {
    let tree = FieldTree {
        list_page: vec![],
        detail_page: vec![node("title", ExtractorMode::Regex, ".t", vec![])],
    };
    let e = validate_field_tree(&tree).unwrap_err();
    assert!(e.starts_with("regex 规则反序列化失败: "));
}

#[test]
fn validate_field_tree_reports_blank_selector() {
    let tree = FieldTree {
        list_page: vec![],
        detail_page: vec![node("title", ExtractorMode::Css, "  ", vec![])],
    };
    assert_eq!(validate_field_tree(&tree).unwrap_err(), "css.selector 不能为空");
}

#[test]
fn builtin_template_names_and_unique_field_names() {
    let t = builtin_templates();
    assert_eq!(t[0].name, "Discuz! 论坛");
    assert_eq!(find_template("wordpress_blog").unwrap().name, "WordPress 博客");
    for tpl in &t {
        for page in [&tpl.field_tree.list_page, &tpl.field_tree.detail_page] {
            let mut names: Vec<&str> = Vec::new();
            for n in page.iter() {
                names.push(&n.spec.name);
                for c in &n.children {
                    names.push(&c.spec.name);
                }
            }
            let set: std::collections::HashSet<&&str> = names.iter().collect();
            assert_eq!(set.len(), names.len(), "模板 {} 字段名重复", tpl.key);
        }
    }
}
