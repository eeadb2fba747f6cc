use crawler::script_fetch::{
    check_url_scheme, is_ssrf_rejected, validate_url_scheme, FetchError, FetchOpts, IpAddress,
    JsResponse,
};

fn v4(s: &str) -> IpAddress {
    let parts: Vec<u8> = s.split('.').map(|p| p.parse::<u8>().unwrap()).collect();
    IpAddress::V4([parts[0], parts[1], parts[2], parts[3]])
}

fn v6(groups: [u16; 8]) -> IpAddress {
    let mut o = [0u8; 16];
    for (i, g) in groups.iter().enumerate() {
        o[2 * i] = (g >> 8) as u8;
        o[2 * i + 1] = (g & 0xff) as u8;
    }
    IpAddress::V6(o)
}

#[test]
fn t_rejects_loopback_ipv4() {
    assert!(is_ssrf_rejected(&v4("127.0.0.1")));
    assert!(is_ssrf_rejected(&v4("127.255.255.255")));
    assert!(is_ssrf_rejected(&v4("127.0.0.0")));
}

#[test]
fn t_rejects_private_network_10() {
    assert!(is_ssrf_rejected(&v4("10.0.0.1")));
    assert!(is_ssrf_rejected(&v4("10.255.255.255")));
}

#[test]
fn t_rejects_private_network_192_168() {
    assert!(is_ssrf_rejected(&v4("192.168.1.1")));
    assert!(is_ssrf_rejected(&v4("192.168.0.0")));
}

#[test]
fn t_rejects_private_network_172_16_to_31() {
    assert!(is_ssrf_rejected(&v4("172.16.0.1")));
    assert!(is_ssrf_rejected(&v4("172.31.255.255")));
    assert!(is_ssrf_rejected(&v4("172.23.45.67")));
}

#[test]
fn t_allows_public_172_other_ranges() {
    assert!(!is_ssrf_rejected(&v4("172.32.0.1")));
    assert!(!is_ssrf_rejected(&v4("172.15.0.1")));
    assert!(!is_ssrf_rejected(&v4("172.1.2.3")));
}

#[test]
fn t_rejects_link_local_and_metadata_endpoint() {
    assert!(is_ssrf_rejected(&v4("169.254.169.254")));
    assert!(is_ssrf_rejected(&v4("169.254.0.1")));
    assert!(is_ssrf_rejected(&v4("169.254.255.255")));
}

#[test]
fn t_rejects_unspecified_ipv4() {
    assert!(is_ssrf_rejected(&v4("0.0.0.0")));
    assert!(is_ssrf_rejected(&v4("0.0.0.1")));
}

#[test]
fn t_rejects_cgnat_100_64() {
    assert!(is_ssrf_rejected(&v4("100.64.0.1")));
    assert!(is_ssrf_rejected(&v4("100.127.255.255")));
    assert!(!is_ssrf_rejected(&v4("100.128.0.1")));
}

#[test]
fn t_allows_public_addresses() {
    assert!(!is_ssrf_rejected(&v4("8.8.8.8")));
    assert!(!is_ssrf_rejected(&v4("1.1.1.1")));
    assert!(!is_ssrf_rejected(&v4("203.0.113.1")));
    assert!(!is_ssrf_rejected(&v4("172.217.16.46")));
}

#[test]
fn t_rejects_ipv6_loopback() {
    assert!(is_ssrf_rejected(&v6([0, 0, 0, 0, 0, 0, 0, 1])));
}

#[test]
fn t_rejects_ipv6_unspecified() {
    assert!(is_ssrf_rejected(&v6([0; 8])));
}

#[test]
fn t_rejects_ipv6_link_local() {
    assert!(is_ssrf_rejected(&v6([0xfe80, 0, 0, 0, 0, 0, 0, 1])));
}

#[test]
fn t_rejects_ipv6_unique_local() {
    assert!(is_ssrf_rejected(&v6([0xfc00, 0, 0, 0, 0, 0, 0, 1])));
    assert!(is_ssrf_rejected(&v6([0xfd00, 0, 0, 0, 0, 0, 0, 1])));
}

#[test]
fn t_allows_ipv6_public() {
    assert!(!is_ssrf_rejected(&v6([0x2001, 0x4860, 0x4860, 0, 0, 0, 0, 0x8888])));
}

#[test]
fn t_js_response_text_and_header_helpers() {
    let r = JsResponse {
        status: 200,
        headers: vec![("Content-Type".into(), "application/json".into())],
        body_text: r#"{"url":"https://x.io/d"}"#.into(),
    };
    assert_eq!(r.text(), r#"{"url":"https://x.io/d"}"#);
    assert_eq!(r.header("content-type"), Some("application/json"));
    assert_eq!(r.header("x-missing"), None);
}

#[test]
fn t_fetch_opts_default_method_get() {
    let opts = FetchOpts::default();
    assert!(opts.method.is_none());
    assert!(opts.body.is_none());
    assert!(opts.headers.is_empty());
}

#[test]
fn fetch_error_messages() {
    assert_eq!(
        FetchError::ResponseTooLarge { actual: 1024, max: 10 }.to_display(),
        "响应超过大小上限（1024 > 10）"
    );
    assert_eq!(FetchError::Ssrf { host: "127.0.0.1".into() }.to_display(), "SSRF 拒绝：127.0.0.1 命中拒绝名单");
}

#[test]
fn t_validate_url_scheme_rejects_non_http() {
    let err = validate_url_scheme("file:///etc/passwd").unwrap_err();
    assert!(matches!(err, FetchError::InvalidScheme(_)), "实际: {err:?}");
    let err = validate_url_scheme("ftp://example.com/x").unwrap_err();
    assert!(matches!(err, FetchError::InvalidScheme(_)));
}

#[test]
fn t_validate_url_scheme_accepts_http_https() {
    validate_url_scheme("http://example.com").unwrap();
    validate_url_scheme("https://example.com/path?q=1").unwrap();
}

#[test]
fn t_validate_url_scheme_rejects_malformed() {
    let err = validate_url_scheme("not-a-url").unwrap_err();
    assert!(matches!(err, FetchError::InvalidUrl(_)));
}

#[test]
fn validate_url_scheme_reports_the_scheme() {
    assert_eq!(validate_url_scheme("FTP://example.com"), Err(FetchError::InvalidScheme("ftp".into())));
}

#[test]
fn check_url_scheme_on_parsed_results() {
    assert_eq!(check_url_scheme(Ok("https".into())), Ok(()));
    assert_eq!(check_url_scheme(Ok("http".into())), Ok(()));
    assert_eq!(check_url_scheme(Ok("ws".into())), Err(FetchError::InvalidScheme("ws".into())));
    assert_eq!(check_url_scheme(Err("bad".into())), Err(FetchError::InvalidUrl("bad".into())));
}

#[test]
fn t_js_response_text_json_header_helpers() {
    let r = JsResponse {
        status: 200,
        headers: vec![("Content-Type".into(), "application/json".into())],
        body_text: r#"{"url":"https://x.io/d"}"#.into(),
    };
    assert_eq!(r.text(), r#"{"url":"https://x.io/d"}"#);
    assert_eq!(r.header("content-type"), Some("application/json"));
    let json = r.json().unwrap();
    assert_eq!(json["url"], "https://x.io/d");
}

#[test]
fn t_js_response_json_invalid_returns_none() {
    let r = JsResponse { status: 200, headers: vec![], body_text: "not-json".into() };
    assert!(r.json().is_none());
}
