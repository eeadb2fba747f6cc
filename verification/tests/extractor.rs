use crawler::extractor::{
    apply_post_processors, find_substring, html_entity_decode, ExtractError, ExtractErrorKind, Hit,
};
use crawler::field_schema::{PostProcessor, PostProcessorOp};

fn make_hits(values: &[&str]) -> Vec<Hit> {
    values
        .iter()
        .enumerate()
        .map(|(i, v)| Hit {
            value: (*v).to_string(),
            source_fragment: "test".to_string(),
            location: Some(format!("node[{i}]")),
            context_html: None,
        })
        .collect()
}

fn pp(op: PostProcessorOp) -> PostProcessor {
    PostProcessor { op }
}

#[test]
fn post_processor_trim() {
    let hits = make_hits(&["  abc  ", "\t\nfoo\r\n"]);
    let out = apply_post_processors(hits, &[pp(PostProcessorOp::Trim)], "https://example.com/");
    assert_eq!(out[0].value, "abc");
    assert_eq!(out[1].value, "foo");
}

#[test]
fn post_processor_html_entity_decode_named() {
    let hits = make_hits(&["a&amp;b", "x&lt;y&gt;z &quot;q&quot;"]);
    let out = apply_post_processors(
        hits,
        &[pp(PostProcessorOp::HtmlEntityDecode)],
        "https://example.com/",
    );
    assert_eq!(out[0].value, "a&b");
    assert_eq!(out[1].value, "x<y>z \"q\"");
}

#[test]
fn post_processor_html_entity_decode_numeric() {
    let hits = make_hits(&["&#65;&#66;&#67;", "&#x4e2d;"]);
    let out = apply_post_processors(
        hits,
        &[pp(PostProcessorOp::HtmlEntityDecode)],
        "https://example.com/",
    );
    assert_eq!(out[0].value, "ABC");
    assert_eq!(out[1].value, "中");
}

#[test]
fn post_processor_absolutize_url() {
    let hits = make_hits(&["/p/1", "//cdn.com/x.js", "https://other.com/y"]);
    let out = apply_post_processors(
        hits,
        &[pp(PostProcessorOp::AbsolutizeUrl)],
        "https://example.com/list",
    );
    assert_eq!(out[0].value, "https://example.com/p/1");
    assert!(out[1].value.contains("cdn.com") || out[1].value.starts_with("https://example.com"));
    assert_eq!(out[2].value, "https://other.com/y");
}

#[test]
fn post_processor_first_keeps_only_one() {
    let hits = make_hits(&["a", "b", "c"]);
    let out = apply_post_processors(hits, &[pp(PostProcessorOp::First)], "https://example.com/");
    assert_eq!(out.len(), 1);
    assert_eq!(out[0].value, "a");
}

#[test]
fn post_processor_first_noop_on_single() {
    let hits = make_hits(&["only"]);
    let out = apply_post_processors(hits, &[pp(PostProcessorOp::First)], "https://example.com/");
    assert_eq!(out.len(), 1);
}

#[test]
fn post_processor_dedupe() {
    let hits = make_hits(&["a", "b", "a", "c", "b", "d"]);
    let out = apply_post_processors(hits, &[pp(PostProcessorOp::Dedupe)], "https://example.com/");
    let values: Vec<_> = out.iter().map(|h| h.value.as_str()).collect();
    assert_eq!(values, vec!["a", "b", "c", "d"]);
}

#[test]
fn post_processor_all_is_noop() {
    let hits = make_hits(&["a", "b"]);
    let out = apply_post_processors(hits, &[pp(PostProcessorOp::All)], "https://example.com/");
    assert_eq!(out.len(), 2);
}

#[test]
fn post_processor_chain_trim_then_dedupe_then_first() {
    let hits = make_hits(&["  a  ", "a", "  b  ", " b ", "a"]);
    let out = apply_post_processors(
        hits,
        &[pp(PostProcessorOp::Trim), pp(PostProcessorOp::Dedupe), pp(PostProcessorOp::First)],
        "https://example.com/",
    );
    assert_eq!(out.len(), 1);
    assert_eq!(out[0].value, "a");
}

#[test]
fn post_processor_keeps_location_and_fragment() {
    let hits = make_hits(&[" x ", "y"]);
    let out = apply_post_processors(hits, &[pp(PostProcessorOp::Trim)], "https://example.com/");
    assert_eq!(out[0].location.as_deref(), Some("node[0]"));
    assert_eq!(out[1].source_fragment, "test");
}

#[test]
fn post_processor_absolutize_keeps_empty_value() {
    let hits = make_hits(&[""]);
    let out = apply_post_processors(
        hits,
        &[pp(PostProcessorOp::AbsolutizeUrl)],
        "https://example.com/list",
    );
    assert_eq!(out[0].value, "");
}

#[test]
fn dedupe_is_idempotent_on_values() {
    let hits = make_hits(&["q", "r", "q", "q"]);
    let once = apply_post_processors(hits, &[pp(PostProcessorOp::Dedupe)], "https://e.com/");
    let twice = apply_post_processors(once.clone(), &[pp(PostProcessorOp::Dedupe)], "https://e.com/");
    assert_eq!(once, twice);
}

#[test]
fn extract_error_display() {
    let e = ExtractError::new(ExtractErrorKind::InvalidRule, "bad selector");
    let s = e.to_display();
    assert!(s.contains("InvalidRule"));
    assert!(s.contains("bad selector"));
    assert_eq!(s, "[InvalidRule] bad selector");
}

#[test]
fn find_substring_case_sensitive() {
    assert_eq!(find_substring("AbCd", "Cd", true), Some(2));
    assert_eq!(find_substring("AbCd", "cd", true), None);
}

#[test]
fn find_substring_case_insensitive() {
    assert_eq!(find_substring("AbCd", "cd", false), Some(2));
    assert_eq!(find_substring("AbCd", "CD", false), Some(2));
}

#[test]
fn find_substring_empty_needle() {
    assert_eq!(find_substring("any", "", true), Some(0));
}

#[test]
fn find_substring_returns_byte_offset() {
    assert_eq!(find_substring("中文abc", "abc", true), Some(6));
}

#[test]
fn html_entity_decode_passthrough_when_no_amp() {
    assert_eq!(html_entity_decode("plain text"), "plain text");
}

#[test]
fn html_entity_decode_unknown_and_unterminated_kept() {
    assert_eq!(html_entity_decode("a &bogus; b & c"), "a &bogus; b & c");
    assert_eq!(html_entity_decode("&#xD800;"), "&#xD800;");
    assert_eq!(html_entity_decode("&apos;&nbsp;"), "'\u{a0}");
}
