use crawler::collector::{
    extract_photo_id, message_text_with_links, message_text_with_links_checked, MessageEntity,
    MessageMedia,
};
use crawler::collector::{inline_text_urls, inline_text_urls_checked, sort_links};

/// UTF-16 offset of `needle` in `text`.
fn utf16_offset(text: &str, needle: &str) -> i32 {
    let b = text.find(needle).expect("needle 不在文本中");
    text[..b].encode_utf16().count() as i32
}

#[test]
fn t_inline_text_urls_expands_hidden_link_with_emoji_prefix() {
    let text = "🔗 链接： 点击跳转";
    let off = utf16_offset(text, "点击跳转");
    let out = inline_text_urls(
        text,
        &[(off, "点击跳转".encode_utf16().count() as i32, "https://pan.quark.cn/s/abc123".to_string())],
    );
    assert_eq!(out, "🔗 链接： [点击跳转](https://pan.quark.cn/s/abc123)");
}

#[test]
fn t_inline_text_urls_plain_ascii_boundary() {
    let text = "see this link now";
    let off = utf16_offset(text, "link");
    let out = inline_text_urls(text, &[(off, 4, "https://example.com/x".to_string())]);
    assert_eq!(out, "see this [link](https://example.com/x) now");
}

#[test]
fn t_inline_text_urls_no_links_returns_original() {
    assert_eq!(inline_text_urls("纯文本", &[]), "纯文本");
}

#[test]
fn t_inline_text_urls_out_of_range_entity_ignored() {
    let text = "短文本";
    assert_eq!(inline_text_urls(text, &[(100, 5, "https://x.io/1".to_string())]), "短文本");
    assert_eq!(inline_text_urls(text, &[(0, 0, "https://x.io/2".to_string())]), "短文本");
}

#[test]
fn t_inline_text_urls_multiple_links_reversed_order() {
    let text = "第一处 here 第二处 there";
    let o1 = utf16_offset(text, "here");
    let o2 = utf16_offset(text, "there");
    let links = vec![(o1, 4, "https://a.io/1".to_string()), (o2, 5, "https://b.io/2".to_string())];
    let out = inline_text_urls(text, &links);
    assert_eq!(out, "第一处 [here](https://a.io/1) 第二处 [there](https://b.io/2)");
}

#[test]
fn inline_text_urls_negative_offset_is_clamped() {
    let out = inline_text_urls("abc", &[(-2, 3, "u".to_string())]);
    assert_eq!(out, "[a](u)bc");
}

#[test]
fn inline_text_urls_surrogate_pair_counts_two_units() {
    // "😀" is two UTF-16 units; the link covers the letter after it.
    let out = inline_text_urls("😀x", &[(2, 1, "u".to_string())]);
    assert_eq!(out, "😀[x](u)");
}

#[test]
fn inline_text_urls_overlap_cutting_a_character_is_reported() {
    // The second link (lower offset) ends inside the first replacement,
    // right after a multi-byte character starts there.
    let text = "a中b";
    let links = vec![(1, 2, "u".to_string()), (0, 2, "v".to_string())];
    // After "[中b](u)" replaces bytes 1..5, bytes 0..4 end inside "中".
    assert!(inline_text_urls_checked(text, &links).is_none());
}

#[test]
fn sort_links_is_stable_and_descending() {
    let links = vec![
        (1, 1, "a".to_string()),
        (5, 1, "b".to_string()),
        (1, 2, "c".to_string()),
        (3, 1, "d".to_string()),
    ];
    let sorted = sort_links(&links);
    let urls: Vec<&str> = sorted.iter().map(|l| l.2.as_str()).collect();
    assert_eq!(urls, vec!["b", "d", "a", "c"]);
}

#[test]
fn message_text_inlines_hidden_links() {
    let text = "see 点击 now";
    let es = vec![
        MessageEntity::Other,
        MessageEntity::TextUrl { offset: 4, length: 2, url: "https://x.io".into() },
    ];
    assert_eq!(message_text_with_links(text, Some(es.as_slice())), "see [点击](https://x.io) now");
    assert_eq!(message_text_with_links(text, Some(&[][..])), text);
    assert_eq!(message_text_with_links(text, None), text);
    assert_eq!(message_text_with_links(text, Some(&[MessageEntity::Other][..])), text);
}

#[test]
fn photo_id_of_media() {
    assert_eq!(extract_photo_id(Some(&MessageMedia::Photo { id: -42 })), Some("-42".to_string()));
    assert_eq!(extract_photo_id(Some(&MessageMedia::Document { name: "a.pdf".into() })), None);
    assert_eq!(extract_photo_id(None), None);
}

#[test]
fn message_text_checked_variant() {
    let es = vec![MessageEntity::TextUrl { offset: 0, length: 1, url: "u".into() }];
    assert_eq!(message_text_with_links_checked("ab", Some(es.as_slice())), Some("[a](u)b".to_string()));
    assert_eq!(message_text_with_links_checked("ab", None), Some("ab".to_string()));
}
