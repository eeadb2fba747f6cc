use crawler::ai_extractor::{
    ai_result_from_json, attempt_limit, batch_outcome, chat_completions_url, default_ai_type,
    drafts_from_batch_json, extract_json_array_from_content, extract_json_from_content,
    extract_string, extract_string_array, merge_ai_result, merge_same_title_resources,
    proxy_arg, proxy_enabled, select_endpoint, split_comma_list, system_prompt, AiEndpoint,
    ResourceDraft, DEFAULT_PROMPT,
};
use crawler::json_support::JsonField;

fn ep(url: &str, enable: bool) -> AiEndpoint {
    AiEndpoint {
        id: String::new(),
        name: String::new(),
        ai_type: default_ai_type(),
        url: url.to_string(),
        key: "key".to_string(),
        model: "model".to_string(),
        enable,
        request_delay: 0,
    }
}

#[test]
fn test_select_endpoint_round_robin() {
    let endpoints = vec![
        ep("https://api1.example.com", true),
        ep("https://api2.example.com", true),
        ep("https://api3.example.com", true),
    ];
    let mut counter = 0usize;
    let ep1 = select_endpoint(&endpoints, &mut counter).unwrap();
    assert_eq!(ep1.url, "https://api1.example.com");
    let ep2 = select_endpoint(&endpoints, &mut counter).unwrap();
    assert_eq!(ep2.url, "https://api2.example.com");
    let ep3 = select_endpoint(&endpoints, &mut counter).unwrap();
    assert_eq!(ep3.url, "https://api3.example.com");
    let ep4 = select_endpoint(&endpoints, &mut counter).unwrap();
    assert_eq!(ep4.url, "https://api1.example.com");
}

#[test]
fn test_select_endpoint_empty() {
    let endpoints: Vec<AiEndpoint> = vec![];
    let mut counter = 0usize;
    assert!(select_endpoint(&endpoints, &mut counter).is_none());
}

#[test]
fn select_endpoint_skips_disabled() {
    let endpoints = vec![ep("a", false), ep("b", true), ep("c", false), ep("d", true)];
    let mut counter = 5usize;
    assert_eq!(select_endpoint(&endpoints, &mut counter).unwrap().url, "d");
    assert_eq!(counter, 6);
    let none = vec![ep("x", false)];
    assert!(select_endpoint(&none, &mut counter).is_none());
    assert_eq!(counter, 6);
}

#[test]
fn test_default_prompt_contains_field_constraints() {
    assert!(DEFAULT_PROMPT.contains("title"), "提示词应包含 title 字段约束");
    assert!(DEFAULT_PROMPT.contains("url"), "提示词应包含 url 字段约束");
    assert!(DEFAULT_PROMPT.contains("description"), "提示词应包含 description 字段约束");
    assert!(DEFAULT_PROMPT.contains("category"), "提示词应包含 category 字段约束");
    assert!(DEFAULT_PROMPT.contains("tags"), "提示词应包含 tags 字段约束");
}

#[test]
fn test_default_prompt_contains_example() {
    assert!(DEFAULT_PROMPT.contains("quark") || DEFAULT_PROMPT.contains("aliyun"), "提示词应包含网盘类型示例");
    assert!(DEFAULT_PROMPT.contains("pan.quark") || DEFAULT_PROMPT.contains("example"), "提示词应包含链接示例");
}

#[test]
fn test_extract_json_from_content_plain() {
    let content = r#"{"title":"测试","url":[],"description":"","category":"","tags":""}"#;
    let result = extract_json_from_content(content);
    assert!(result.starts_with('{'));
    let parsed: serde_json::Value = serde_json::from_str(&result).unwrap();
    assert_eq!(parsed["title"], "测试");
}

#[test]
fn test_extract_json_from_content_markdown_block() {
    let content = "```json\n{\"title\":\"MD测试\",\"url\":[],\"description\":\"\",\"category\":\"\",\"tags\":\"\"}\n```";
    let result = extract_json_from_content(content);
    let parsed: serde_json::Value = serde_json::from_str(&result).unwrap();
    assert_eq!(parsed["title"], "MD测试");
}

#[test]
fn test_extract_json_from_content_with_prefix() {
    let content = "这是AI的回复：\n{\"title\":\"带前缀\",\"url\":[\"https://example.com\"],\"description\":\"\",\"category\":\"\",\"tags\":\"\"}\n结束";
    let result = extract_json_from_content(content);
    let parsed: serde_json::Value = serde_json::from_str(&result).unwrap();
    assert_eq!(parsed["title"], "带前缀");
}

#[test]
fn test_extract_json_from_content_nested_braces() {
    let content = r#"AI 返回结果如下：{"title":"测试资源","url":["https://pan.quark.cn/s/abc"],"description":"包含嵌套{括号}的描述","category":"quark","tags":"测试"}"#;
    let json_str = extract_json_from_content(content);
    let result: serde_json::Value = serde_json::from_str(&json_str).unwrap();
    assert_eq!(result["title"], "测试资源");
    assert_eq!(result["category"], "quark");
}

#[test]
fn extract_json_from_plain_fence_with_language_line() {
    let content = "```text\n{\"a\":1}\n```";
    assert_eq!(extract_json_from_content(content), "{\"a\":1}");
    assert_eq!(extract_json_from_content("  no json here "), "no json here");
}

#[test]
fn extract_json_array_cases() {
    assert_eq!(extract_json_array_from_content(" [1,2] "), "[1,2]");
    assert_eq!(extract_json_array_from_content("结果：[{\"t\":\"a\"},[2]] 完"), "[{\"t\":\"a\"},[2]]");
    assert_eq!(extract_json_array_from_content("x [1,2"), "x [1,2");
}

#[test]
fn test_parse_ai_endpoints_with_disabled() {
    // The three endpoints of the JSON list, the third with `enable` left to its default.
    let mut third = ep("https://api3.example.com", crawler::ai_extractor::default_true());
    third.key = "sk-3".to_string();
    let endpoints = vec![
        ep("https://api1.example.com", true),
        ep("https://api2.example.com", false),
        third,
    ];
    assert_eq!(endpoints.len(), 3);
    let mut counter = 0usize;
    let selected = select_endpoint(&endpoints, &mut counter);
    assert!(selected.is_some());
    let ep = selected.unwrap();
    assert_ne!(ep.url, "https://api2.example.com");
}

fn draft(title: &str, urls: &[&str], description: &str, category: &str, tags: &str) -> ResourceDraft {
    ResourceDraft {
        title: title.to_string(),
        url: urls.iter().map(|u| u.to_string()).collect(),
        description: description.to_string(),
        category: category.to_string(),
        tags: tags.to_string(),
        source: "tg".to_string(),
    }
}

fn kind_of(url: &str) -> String {
    if url.contains("quark") {
        "quark".to_string()
    } else if url.contains("baidu") {
        "baidu".to_string()
    } else {
        String::new()
    }
}

#[test]
fn test_ai_extract_result_deserialize() {
    let json = r#"{"title":"标题","url":["https://example.com"],"description":"描述","category":"quark","tags":"电影,动作"}"#;
    let result = ai_result_from_json(json).unwrap();
    assert_eq!(result.title, "标题");
    assert_eq!(result.url.len(), 1);
    assert_eq!(result.category, "quark");
}

#[test]
fn test_ai_extract_partial_field_fallback() {
    let ai_json = r#"{"title":"AI标题","url":[],"description":"","category":"quark","tags":""}"#;
    let ai_result = ai_result_from_json(ai_json).unwrap();
    let rule_draft = draft("规则标题", &["https://pan.quark.cn/s/abc"], "规则描述", "quark", "电影");
    let merged = merge_ai_result(ai_result, &rule_draft);
    assert_eq!(merged.title, "AI标题");
    assert_eq!(merged.url, vec!["https://pan.quark.cn/s/abc"]);
    assert_eq!(merged.description, "规则描述");
    assert_eq!(merged.tags, "电影");
    assert_eq!(merged.source, "tg");
}

#[test]
fn ai_result_reads_loose_member_types() {
    let r = ai_result_from_json(r#"{"title":["a","b"],"url":"x, ,y","description":42,"category":true,"tags":{"b":"2","a":1}}"#)
        .unwrap();
    assert_eq!(r.title, "a,b");
    assert_eq!(r.url, vec!["x", "y"]);
    assert_eq!(r.description, "42");
    assert_eq!(r.category, "true");
    assert_eq!(r.tags, "1,2");
    let e = ai_result_from_json("{oops").unwrap_err();
    assert!(e.starts_with("解析 AI 返回 JSON 失败: "));
    assert!(e.ends_with("\n原始内容: {oops"));
}

#[test]
fn extract_string_and_array_on_fields() {
    assert_eq!(extract_string(None), None);
    assert_eq!(extract_string(Some(JsonField::Null)), None);
    assert_eq!(extract_string(Some(JsonField::Bool(false))), Some("false".to_string()));
    assert_eq!(extract_string(Some(JsonField::Object(vec!["a".into(), "{}".into()]))), Some("a,{}".to_string()));
    assert_eq!(extract_string_array(Some(JsonField::Number("3".into()))), Vec::<String>::new());
    assert_eq!(extract_string_array(Some(JsonField::Str(" a ,b,, ".into()))), vec!["a", "b"]);
    assert_eq!(split_comma_list(""), Vec::<String>::new());
}

#[test]
fn merge_same_title_keeps_first_and_appends_links() {
    let drafts = vec![
        draft("电影A", &["https://pan.quark.cn/s/1"], "", "", ""),
        draft("电影B", &["https://pan.baidu.com/s/2"], "B描述", "baidu", "b"),
        draft("电影A", &["https://pan.quark.cn/s/1", "https://pan.baidu.com/s/3"], "A描述", "x", "a,b"),
    ];
    let merged = merge_same_title_resources(drafts, kind_of);
    assert_eq!(merged.len(), 2);
    assert_eq!(merged[0].title, "电影A");
    assert_eq!(merged[0].url, vec!["https://pan.quark.cn/s/1", "https://pan.baidu.com/s/3"]);
    assert_eq!(merged[0].description, "A描述");
    assert_eq!(merged[0].tags, "a,b");
    assert_eq!(merged[0].category, "quark");
    assert_eq!(merged[1].title, "电影B");
    assert_eq!(merged[1].category, "baidu");
}

#[test]
fn merge_same_title_leaves_single_drafts_alone() {
    let merged = merge_same_title_resources(vec![draft("夸克网盘", &[], "", "keep", "")], kind_of);
    assert_eq!(merged.len(), 1);
    assert_eq!(merged[0].category, "keep");
    assert!(merge_same_title_resources(Vec::new(), kind_of).is_empty());
}

#[test]
fn batch_reply_becomes_merged_drafts() {
    let json = r#"[{"t":"电影[4K]","u":"https://pan.quark.cn/s/a","d":"","tags":"电影,4K"},
                   {"title":"电影[4K]","u":"a1, https://pan.baidu.com/s/b"},
                   {"t":"书","url":["https://pan.baidu.com/s/c"]}]"#;
    let drafts = drafts_from_batch_json(json, kind_of).unwrap();
    assert_eq!(drafts.len(), 2);
    assert_eq!(drafts[0].title, "电影[4K]");
    assert_eq!(drafts[0].url, vec!["https://pan.quark.cn/s/a", "a1", "https://pan.baidu.com/s/b"]);
    assert_eq!(drafts[0].tags, "电影,4K");
    assert_eq!(drafts[0].category, "quark");
    assert_eq!(drafts[0].source, "tg");
    assert_eq!(drafts[1].title, "书");
    assert_eq!(drafts[1].category, "baidu");
    assert_eq!(drafts_from_batch_json("{}", kind_of).unwrap_err(), "AI 批量返回不是 JSON 数组");
    assert!(drafts_from_batch_json("[", kind_of).unwrap_err().starts_with("解析 AI 批量返回 JSON 失败: "));
}

#[test]
fn request_decisions() {
    assert_eq!(chat_completions_url("https://api.x.com//"), "https://api.x.com/chat/completions");
    assert_eq!(chat_completions_url("https://api.x.com/v1"), "https://api.x.com/v1/chat/completions");
    assert_eq!(system_prompt(""), DEFAULT_PROMPT);
    assert_eq!(system_prompt("p"), "p");
    assert!(proxy_enabled(Some("1")));
    assert!(proxy_enabled(Some("true")));
    assert!(!proxy_enabled(Some("yes")));
    assert!(!proxy_enabled(None));
    assert_eq!(proxy_arg(true, "http://p:1"), Some("http://p:1"));
    assert_eq!(proxy_arg(true, ""), None);
    assert_eq!(proxy_arg(false, "http://p:1"), None);
    assert_eq!(attempt_limit(5), 3);
    assert_eq!(attempt_limit(2), 2);
    let rule = vec![draft("r", &[], "", "", "")];
    assert_eq!(batch_outcome(Vec::new(), &rule), rule);
    let ai = vec![draft("a", &[], "", "", "")];
    assert_eq!(batch_outcome(ai.clone(), &rule), ai);
}
