use crawler::script_engine::{classify_exception, scan_security, ScriptError, ScriptFailureCategory};

#[test]
fn t_scan_security_rejects_function_keyword() {
    let body = "return Function('return this')()";
    let err = scan_security(body).unwrap_err();
    assert_eq!(err.category, ScriptFailureCategory::SecurityViolation);
}

#[test]
fn t_scan_security_rejects_eval() {
    let body = "return eval('1+1')";
    let err = scan_security(body).unwrap_err();
    assert_eq!(err.category, ScriptFailureCategory::SecurityViolation);
}

#[test]
fn t_scan_security_rejects_process() {
    let body = "return globalThis.process";
    let err = scan_security(body).unwrap_err();
    assert_eq!(err.category, ScriptFailureCategory::SecurityViolation);
}

#[test]
fn t_scan_security_rejects_settimeout() {
    let body = "return setTimeout(() => 0, 0)";
    let err = scan_security(body).unwrap_err();
    assert_eq!(err.category, ScriptFailureCategory::SecurityViolation);
}

#[test]
fn t_scan_security_rejects_constructor_chain_indirectly() {
    let body = "return [].constructor.constructor('return process')()";
    let err = scan_security(body).unwrap_err();
    assert_eq!(err.category, ScriptFailureCategory::SecurityViolation);
}

#[test]
fn t_scan_security_rejects_reflect_apply() {
    let body = "return Reflect.apply(Function.prototype.constructor, null, [])";
    let err = scan_security(body).unwrap_err();
    assert_eq!(err.category, ScriptFailureCategory::SecurityViolation);
}

#[test]
fn t_scan_security_accepts_clean_body() {
    assert!(scan_security("return ctx.value.toUpperCase()").is_ok());
    assert!(scan_security("return String(ctx.value).trim()").is_ok());
}

#[test]
fn scan_security_message_names_identifier_and_offset() {
    let err = scan_security("x = 1; eval(x)").unwrap_err();
    assert_eq!(err.message, "脚本含被禁标识符 'eval'（位置 7），疑似沙箱逃逸尝试");
    assert_eq!(err.duration_ms, 0);
}

#[test]
fn scan_security_whole_words_only() {
    assert!(scan_security("return ctx.evaluation + processed").is_ok());
}

#[test]
fn scan_security_reports_patterns_in_order() {
    let err = scan_security("eval(1); Function()").unwrap_err();
    assert!(err.message.contains("'Function'"));
}

#[test]
fn category_labels() {
    assert_eq!(ScriptFailureCategory::SyntaxError.as_str(), "syntax_error");
    assert_eq!(ScriptFailureCategory::NetworkError.as_str(), "network_error");
}

#[test]
fn script_error_builders_and_display() {
    let e = ScriptError::new(ScriptFailureCategory::SyntaxError, "bad")
        .with_position(3, 7)
        .with_duration(12);
    assert_eq!(e.line, Some(3));
    assert_eq!(e.column, Some(7));
    assert_eq!(e.duration_ms, 12);
    assert_eq!(e.to_display(), "[syntax_error] bad");
}

#[test]
fn classify_exception_matrix() {
    assert_eq!(classify_exception("interrupted", 5).category, ScriptFailureCategory::Timeout);
    assert_eq!(
        classify_exception("ReferenceError: eval is not defined", 1).category,
        ScriptFailureCategory::SecurityViolation
    );
    assert_eq!(
        classify_exception("ReferenceError: foo is not defined", 1).category,
        ScriptFailureCategory::RuntimeError
    );
    assert_eq!(
        classify_exception("SyntaxError: unexpected token in expression", 1).category,
        ScriptFailureCategory::SyntaxError
    );
    assert_eq!(
        classify_exception("TypeError: cannot read property", 1).category,
        ScriptFailureCategory::TypeError
    );
    let e = classify_exception("Error: boom", 9);
    assert_eq!(e.category, ScriptFailureCategory::RuntimeError);
    assert_eq!(e.message, "Error: boom");
    assert_eq!(e.duration_ms, 9);
}
