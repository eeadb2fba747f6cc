use crawler::image_uploader::{
    backoff_wait_secs, ext_from_url, in_backoff, mime_to_ext, BACKOFF_SECS, MAX_RETRIES,
};

#[test]
fn mime_to_ext_jpeg() {
    assert_eq!(mime_to_ext("image/jpeg").unwrap(), "jpg");
    assert_eq!(mime_to_ext("image/png").unwrap(), "png");
    assert_eq!(mime_to_ext("image/gif").unwrap(), "gif");
    assert_eq!(mime_to_ext("image/webp").unwrap(), "webp");
    assert_eq!(mime_to_ext("image/svg+xml").unwrap(), "svg");
}

#[test]
fn mime_to_ext_with_parameters() {
    assert_eq!(mime_to_ext("image/jpeg; charset=utf-8").unwrap(), "jpg");
    assert_eq!(mime_to_ext("image/png; boundary=something").unwrap(), "png");
}

#[test]
fn mime_to_ext_unknown() {
    assert!(mime_to_ext("application/octet-stream").is_none());
    assert!(mime_to_ext("").is_none());
}

#[test]
fn ext_from_url_simple() {
    assert_eq!(ext_from_url("https://example.com/a.jpg").unwrap(), "jpg");
    assert_eq!(ext_from_url("https://example.com/path/x.png").unwrap(), "png");
}

#[test]
fn ext_from_url_with_query() {
    assert_eq!(ext_from_url("https://example.com/a.jpeg?token=abc").unwrap(), "jpeg");
}

#[test]
fn ext_from_url_no_ext() {
    assert!(ext_from_url("https://example.com/noext").is_none());
}

#[test]
fn ext_from_url_invalid() {
    assert!(ext_from_url("https://example.com/a.jpeeeeeg").is_none());
    assert!(ext_from_url("https://example.com/a.j-pg").is_none());
}

#[test]
fn ext_from_url_lowercases() {
    assert_eq!(ext_from_url("https://example.com/A.PNG").unwrap(), "png");
}

#[test]
fn backoff_table_sensible() {
    assert_eq!(BACKOFF_SECS[0], 10);
    assert_eq!(BACKOFF_SECS[1], 30);
    assert_eq!(BACKOFF_SECS[2], 120);
}

#[test]
fn max_retries_is_three() {
    assert_eq!(MAX_RETRIES, 3);
}

#[test]
fn backoff_clamps_retry_count() {
    assert_eq!(backoff_wait_secs(-4), 10);
    assert_eq!(backoff_wait_secs(1), 30);
    assert_eq!(backoff_wait_secs(9), 120);
    assert!(in_backoff(29, 1));
    assert!(!in_backoff(30, 1));
}
