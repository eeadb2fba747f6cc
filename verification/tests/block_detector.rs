use crawler::block_detector::{detect_block, BlockType};

fn h(k: &str, v: &str) -> (String, String) {
    (k.to_string(), v.to_string())
}

#[test]
fn http_403_blocked() {
    let r = detect_block(403, "<html>forbidden</html>", &[]);
    assert_eq!(r, Some(BlockType::HttpBlocked(403)));
}

#[test]
fn http_429_blocked() {
    let r = detect_block(429, "rate limited", &[]);
    assert_eq!(r, Some(BlockType::HttpBlocked(429)));
}

#[test]
fn http_503_blocked() {
    let r = detect_block(503, "service unavailable", &[]);
    assert_eq!(r, Some(BlockType::HttpBlocked(503)));
}

#[test]
fn http_200_with_no_block_returns_none() {
    let body = format!("<html><body>{}</body></html>", "x".repeat(300));
    let r = detect_block(200, &body, &[]);
    assert_eq!(r, None);
}

#[test]
fn cloudflare_403_detected() {
    let headers = vec![h("Server", "cloudflare")];
    let body = "<html><title>Just a moment...</title></html>";
    let r = detect_block(403, body, &headers);
    assert_eq!(r, Some(BlockType::Cloudflare));
}

#[test]
fn cloudflare_body_with_header_even_200() {
    let headers = vec![h("Server", "cloudflare")];
    let body = "Checking your browser before accessing";
    let r = detect_block(200, body, &headers);
    assert_eq!(r, Some(BlockType::Cloudflare));
}

#[test]
fn login_wall_chinese() {
    let body = "<html><body>请先登录后查看完整内容</body></html>";
    let r = detect_block(200, body, &[]);
    assert_eq!(r, Some(BlockType::LoginWall));
}

#[test]
fn login_wall_english() {
    let body = "<html><body>Please log in first to continue</body></html>";
    let r = detect_block(200, body, &[]);
    assert_eq!(r, Some(BlockType::LoginWall));
}

#[test]
fn captcha_detected() {
    let body = "<html><body><div class='recaptcha'></div></body></html>";
    let r = detect_block(200, body, &[]);
    assert_eq!(r, Some(BlockType::Captcha));
}

#[test]
fn captcha_chinese_slider() {
    let body = "<html><body>请完成滑动验证</body></html>";
    let r = detect_block(200, body, &[]);
    assert_eq!(r, Some(BlockType::Captcha));
}

#[test]
fn empty_response_detected() {
    let body = "";
    let r = detect_block(200, body, &[]);
    assert_eq!(r, Some(BlockType::EmptyResponse));
}

#[test]
fn whitespace_only_response_detected() {
    let body = "   \n\t  ";
    let r = detect_block(200, body, &[]);
    assert_eq!(r, Some(BlockType::EmptyResponse));
}

#[test]
fn normal_short_response_not_blocked() {
    let body = "x".repeat(100);
    let r = detect_block(200, &body, &[]);
    assert_eq!(r, None);
}

#[test]
fn block_type_as_str_formats() {
    assert_eq!(BlockType::HttpBlocked(403).as_str(), "HttpBlocked_403");
    assert_eq!(BlockType::Cloudflare.as_str(), "Cloudflare");
    assert_eq!(BlockType::LoginWall.as_str(), "LoginWall");
    assert_eq!(BlockType::Captcha.as_str(), "Captcha");
    assert_eq!(BlockType::EmptyResponse.as_str(), "EmptyResponse");
}

#[test]
fn http_403_without_cf_header_returns_plain_block() {
    let r = detect_block(403, "forbidden", &[]);
    assert_eq!(r, Some(BlockType::HttpBlocked(403)));
}

#[test]
fn cloudflare_header_lookup_ignores_name_case() {
    let headers = vec![h("SERVER", "CloudFlare-nginx")];
    let r = detect_block(200, "Just a moment please wait for the page to load now", &headers);
    assert_eq!(r, Some(BlockType::Cloudflare));
}

#[test]
fn block_status_wins_over_login_keyword() {
    let r = detect_block(429, "请先登录", &[]);
    assert_eq!(r, Some(BlockType::HttpBlocked(429)));
}
