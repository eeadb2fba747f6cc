use crawler::script_engine::ScriptFailureCategory;
use crawler::script_runner::{preflight_check, ScriptOpts};

#[test]
fn t_preflight_rejects_empty_body() {
    let opts = ScriptOpts::default();
    let err = preflight_check("", &opts).unwrap_err();
    assert_eq!(err.category, ScriptFailureCategory::SyntaxError);
}

#[test]
fn t_preflight_rejects_whitespace_only_body() {
    let opts = ScriptOpts::default();
    let err = preflight_check("   \n\t  ", &opts).unwrap_err();
    assert_eq!(err.category, ScriptFailureCategory::SyntaxError);
}

#[test]
fn t_preflight_rejects_oversized_body() {
    let opts = ScriptOpts { max_body_size: 16, ..Default::default() };
    let body = "x".repeat(17);
    let err = preflight_check(&body, &opts).unwrap_err();
    assert!(err.message.contains("17"));
    assert!(err.message.contains("16"));
}

#[test]
fn t_preflight_accepts_normal_body() {
    let opts = ScriptOpts::default();
    preflight_check("return ctx.value + '!'", &opts).unwrap();
}

#[test]
fn t_script_opts_defaults_match_data_model() {
    let opts = ScriptOpts::default();
    assert_eq!(opts.timeout_ms, 100);
    assert_eq!(opts.max_response_bytes, 1_048_576);
    assert_eq!(opts.max_body_size, 65_536);
}

#[test]
fn preflight_counts_bytes_not_chars() {
    let opts = ScriptOpts { max_body_size: 6, ..Default::default() };
    let err = preflight_check("中文中", &opts).unwrap_err();
    assert_eq!(err.message, "script.body 长度 9 超过上限 6 字节");
    assert!(preflight_check("中文", &opts).is_ok());
}
