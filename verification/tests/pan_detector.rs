use crawler::pan_detector::{detect, detect_platform, find_extract_code, is_direct_link, Platform};

#[test]
fn quark_detected() {
    assert_eq!(detect_platform("https://pan.quark.cn/s/abcdefg"), Some(Platform::Quark));
}

#[test]
fn uc_detected() {
    assert_eq!(detect_platform("https://drive.uc.cn/s/xyz"), Some(Platform::Uc));
}

#[test]
fn baidu_detected() {
    assert_eq!(detect_platform("https://pan.baidu.com/s/1a-12345?pwd=abc"), Some(Platform::Baidu));
}

#[test]
fn tianyi_detected() {
    assert_eq!(detect_platform("https://cloud.189.cn/t/abcdefg"), Some(Platform::Tianyi));
}

#[test]
fn pan123_both_domains_detected() {
    assert_eq!(detect_platform("https://www.123912.com/s/abc"), Some(Platform::Pan123));
    assert_eq!(detect_platform("https://123pan.com/s/def"), Some(Platform::Pan123));
}

#[test]
fn pan115_detected() {
    assert_eq!(detect_platform("https://115.com/s/abcdefg"), Some(Platform::Pan115));
}

#[test]
fn aliyun_alipan_detected() {
    assert_eq!(detect_platform("https://www.alipan.com/s/abc"), Some(Platform::Aliyun));
}

#[test]
fn aliyun_aliyundrive_detected() {
    assert_eq!(detect_platform("https://www.aliyundrive.com/s/abc"), Some(Platform::Aliyun));
}

#[test]
fn xunlei_detected() {
    assert_eq!(detect_platform("https://pan.xunlei.com/s/abcdef"), Some(Platform::Xunlei));
}

#[test]
fn mobile_caiyun_detected() {
    assert_eq!(detect_platform("https://caiyun.139.com/m/abc"), Some(Platform::Mobile));
}

#[test]
fn non_pan_url_returns_none() {
    assert!(detect_platform("https://example.com/something").is_none());
    assert!(detect_platform("https://www.google.com/search?q=test").is_none());
}

#[test]
fn invalid_url_returns_none() {
    assert!(detect_platform("not a url").is_none());
    assert!(detect_platform("").is_none());
}

#[test]
fn host_match_ignores_case_and_port() {
    assert_eq!(detect_platform("HTTPS://PAN.QUARK.CN:443/s/x"), Some(Platform::Quark));
}

#[test]
fn extract_code_chinese_label() {
    let code = find_extract_code("提取码: abcd").unwrap();
    assert_eq!(code, "abcd");
}

#[test]
fn extract_code_password_label_english() {
    let code = find_extract_code("password： XY12ab").unwrap();
    assert_eq!(code, "XY12ab");
}

#[test]
fn extract_code_with_space_after_label() {
    let code = find_extract_code("pwd 1234").unwrap();
    assert_eq!(code, "1234");
}

#[test]
fn extract_code_not_found() {
    assert!(find_extract_code("just some text").is_none());
}

#[test]
fn detect_combines_platform_and_code() {
    let r = detect("https://pan.quark.cn/s/abc", "提取码：wxyz").unwrap();
    assert_eq!(r.0, Platform::Quark);
    assert_eq!(r.1.as_deref(), Some("wxyz"));
}

#[test]
fn detect_returns_none_for_non_pan() {
    assert!(detect("https://example.com", "").is_none());
}

#[test]
fn is_direct_link_zip() {
    assert!(is_direct_link("https://example.com/file.zip"));
}

#[test]
fn is_direct_link_pdf_with_query() {
    assert!(is_direct_link("https://example.com/x.pdf?token=1"));
}

#[test]
fn is_direct_link_false_for_pan() {
    assert!(!is_direct_link("https://pan.quark.cn/s/abc"));
}

#[test]
fn is_direct_link_false_for_html() {
    assert!(!is_direct_link("https://example.com/page.html"));
}

#[test]
fn platform_labels() {
    assert_eq!(Platform::Pan123.as_str(), "123pan");
    assert_eq!(Platform::Quark.as_str(), "quark");
}

#[test]
fn is_direct_link_reads_the_path_only() {
    assert!(!is_direct_link("https://example.zip"));
    assert!(!is_direct_link("https://files.example.zip/"));
    assert!(is_direct_link("https://example.com/a/b/Movie.MKV#t=1"));
    assert!(!is_direct_link("https://example.com/dir.zip/readme"));
}

#[test]
fn extract_code_takes_at_most_six_characters() {
    assert_eq!(find_extract_code("提取码：abcdefgh").as_deref(), Some("abcdef"));
    assert!(find_extract_code("pwd 12").is_none());
}
