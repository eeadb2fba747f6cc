use crawler::url_normalize::{normalize_url, remove_dot_segments};


#[test]
fn strips_utm_params() {
    let r = normalize_url("https://example.com/a?utm_source=x&utm_medium=y&id=42");
    assert_eq!(r, "https://example.com/a?id=42");
}

#[test]
fn sorts_query_params() {
    // b=2&a=1 → a=1&b=2
    let r = normalize_url("https://example.com/p?b=2&a=1&c=3");
    assert_eq!(r, "https://example.com/p?a=1&b=2&c=3");
}

#[test]
fn lowercases_scheme_and_host() {
    let r = normalize_url("HTTPS://Example.COM/Path");
    assert_eq!(r, "https://example.com/Path");
}

#[test]
fn removes_fragment() {
    let r = normalize_url("https://example.com/a#section");
    assert_eq!(r, "https://example.com/a");
}

#[test]
fn removes_trailing_slash_non_root() {
    let r = normalize_url("https://example.com/a/b/");
    assert_eq!(r, "https://example.com/a/b");
}

#[test]
fn preserves_root_trailing_slash() {
    let r = normalize_url("https://example.com/");
    assert_eq!(r, "https://example.com/");
}

#[test]
fn invalid_url_returned_as_is() {
    // 无 scheme — 返回原样
    let r = normalize_url("not-a-url");
    assert_eq!(r, "not-a-url");
}

#[test]
fn empty_string_passthrough() {
    assert_eq!(normalize_url(""), "");
    assert_eq!(normalize_url("   "), "   ");
}

#[test]
fn share_and_spm_params_removed() {
    let r = normalize_url("https://example.com/x?share_from=weixin&spm=1001&keep=1");
    assert_eq!(r, "https://example.com/x?keep=1");
}

#[test]
fn all_tracking_removed_yields_no_query() {
    // 全是 utm_* → query 整体消失
    let r = normalize_url("https://example.com/x?utm_a=1&utm_b=2");
    assert_eq!(r, "https://example.com/x");
}

#[test]
fn port_preserved() {
    let r = normalize_url("HTTPS://Example.COM:8080/Path");
    assert_eq!(r, "https://example.com:8080/Path");
}

#[test]
fn mixed_param_order_with_duplicates_keeps_both() {
    // 同 key 出现两次 — 保留两条，按 key 排序后稳定（按出现顺序追加）
    let r = normalize_url("https://example.com/?b=2&a=1&a=3");
    // 根 / 保留；排序：a=1, a=3, b=2
    assert_eq!(r, "https://example.com/?a=1&a=3&b=2");
}

#[test]
fn param_without_value_kept() {
    let r = normalize_url("https://example.com/?flag&a=1");
    assert_eq!(r, "https://example.com/?a=1&flag");
}

// ===== remove_dot_segments（RFC 3986 § 5.2.4）=====
#[test]
fn dot_segments_basic_parent() {
    assert_eq!(remove_dot_segments("/page-2.html/../xiazai/article.html"), "/xiazai/article.html");
}

#[test]
fn dot_segments_multi_level() {
    assert_eq!(remove_dot_segments("/a/b/../../c"), "/c");
}

#[test]
fn dot_segments_above_root_drops_silently() {
    assert_eq!(remove_dot_segments("/../foo"), "/foo");
    assert_eq!(remove_dot_segments("/../../bar"), "/bar");
}

#[test]
fn dot_segments_single_dot_ignored() {
    assert_eq!(remove_dot_segments("/a/./b"), "/a/b");
}

#[test]
fn dot_segments_preserves_leading_slash() {
    assert_eq!(remove_dot_segments("/x"), "/x");
}

#[test]
fn dot_segments_relative_path() {
    // 相对路径输入：无前导 /
    assert_eq!(remove_dot_segments("a/b/../c"), "a/c");
}

#[test]
fn dot_segments_empty_input() {
    assert_eq!(remove_dot_segments(""), "");
}

#[test]
fn dot_segments_root_only() {
    // 全部段都被弹出后保留根 /
    assert_eq!(remove_dot_segments("/a/.."), "/");
}

#[test]
fn dot_segments_collapses_consecutive_slashes() {
    assert_eq!(remove_dot_segments("/a//b"), "/a/b");
}

#[test]
fn dot_segments_preserves_non_special_segments_named_like_dot() {
    // `..foo` 不是 `..`，应保留
    assert_eq!(remove_dot_segments("/..foo/a"), "/..foo/a");
}

#[test]
fn normalize_url_strips_dot_segments() {
    let r = normalize_url("https://example.com/page-2.html/../xiazai/article-5000.html");
    assert_eq!(r, "https://example.com/xiazai/article-5000.html");
}

#[test]
fn normalize_url_dot_segments_with_query() {
    let r = normalize_url("https://example.com/a/../b?x=1");
    assert_eq!(r, "https://example.com/b?x=1");
}


#[test]
fn remove_dot_segments_twice_is_once() {
    for p in ["/a/./b/../c//d/", "a/../../b", "/..", "", "./x/.", "/"] {
        let once = remove_dot_segments(p);
        assert_eq!(remove_dot_segments(&once), once);
    }
}

#[test]
fn fragment_does_not_change_the_key() {
    assert_eq!(normalize_url("https://x.io/a?b=1#frag"), normalize_url("https://x.io/a?b=1"));
}
