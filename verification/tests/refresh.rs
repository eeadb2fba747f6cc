use crawler::refresh::{
    classify_field_node, refreshed_field_path, script_failure, should_refresh, unchanged_value,
    RefreshError,
};
use crawler::script_engine::{ScriptError, ScriptFailureCategory};

#[test]
fn t_should_refresh_truth_table() {
    let cases: [(bool, Option<bool>, bool); 6] = [
        (true, None, true),
        (true, Some(true), true),
        (true, Some(false), false),
        (false, None, false),
        (false, Some(true), true),
        (false, Some(false), false),
    ];
    for (ror, fr, expected) in cases {
        assert_eq!(
            should_refresh(ror, fr),
            expected,
            "refresh_on_read={}, force_refresh={:?} → expected {}",
            ror,
            fr,
            expected
        );
    }
}

#[test]
fn classify_field_node_cases() {
    assert_eq!(
        classify_field_node(7, "price", None),
        Err(RefreshError::FieldNodeNotFound { article_id: 7, field_name: "price".into() })
    );
    assert_eq!(
        classify_field_node(7, "price", Some((3, true, "__not_script__:css".into()))),
        Err(RefreshError::NotScriptField { field_name: "price".into(), mode: "css".into() })
    );
    assert_eq!(
        classify_field_node(7, "price", Some((3, false, "return 1".into()))),
        Ok((3, false, "return 1".to_string()))
    );
}

#[test]
fn refresh_error_messages_and_paths() {
    let e = script_failure(ScriptError::new(ScriptFailureCategory::Timeout, "slow"));
    assert_eq!(e.to_display(), "脚本求值失败 [timeout]: slow");
    assert_eq!(RefreshError::ArticleNotFound { article_id: 42 }.to_display(), "文章 42 不存在");
    assert_eq!(refreshed_field_path("price"), "/detail_page/price");
    let v = unchanged_value("old".into(), 5);
    assert_eq!(v.new_value, "old");
    assert_eq!(v.old_value, "old");
}
