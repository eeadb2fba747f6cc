use crawler::bot_api::{
    bot_api_url, bot_chats_from_updates, file_download_url, BotUpdate, MemberChat, UpdateChat,
    UpdateMessage,
};
use crawler::bot_command::{
    build_reply_text, extract_id_replies, failure_backoff_secs, in_backoff, is_id_command,
    record_failure, record_success, BotCursor,
};

fn chat(id: i64, chat_type: &str, title: Option<&str>) -> UpdateChat {
    UpdateChat {
        id,
        chat_type: chat_type.to_string(),
        title: title.map(|s| s.to_string()),
        username: None,
        first_name: None,
    }
}

fn msg_update(update_id: i64, text: &str, date: i64, chat: UpdateChat) -> BotUpdate {
    BotUpdate {
        update_id,
        message: Some(UpdateMessage { chat, text: Some(text.to_string()), date }),
        channel_post: None,
        my_chat_member: None,
    }
}

#[test]
fn t_is_id_command_matrix() {
    assert!(is_id_command("/id", Some("MyBot")));
    assert!(is_id_command("/id@MyBot", Some("MyBot")));
    assert!(is_id_command("/ID@mybot", Some("MyBot")));
    assert!(is_id_command("  /id  ", None));
    assert!(is_id_command("/id\n后续内容", None));

    assert!(!is_id_command("/id@OtherBot", Some("MyBot")));
    assert!(!is_id_command("/idx", None));
    assert!(!is_id_command("/identify", Some("MyBot")));
    assert!(!is_id_command("hello /id", None));
    assert!(!is_id_command("", None));
    assert!(!is_id_command("/start", None));

    assert!(is_id_command("/id", None));
    assert!(!is_id_command("/id@anyone", None));
}

#[test]
fn t_build_reply_text_contains_id_and_title() {
    let text = build_reply_text(&chat(-1001234567890, "supergroup", Some("我的图床群")));
    assert!(text.contains("-1001234567890"));
    assert!(text.contains("我的图床群"));
    assert!(text.contains("supergroup"));

    let text = build_reply_text(&chat(12345, "private", None));
    assert!(text.contains("12345"));
    assert!(text.contains("Chat 12345"));
}

#[test]
fn t_extract_id_replies_dedup_and_filters() {
    let now = 1_700_000_600i64;
    let target = chat(-1001234567890, "supergroup", Some("测试群"));
    let updates = vec![
        msg_update(10, "/id", now - 5, chat(-100999, "group", Some("别的群"))),
        msg_update(11, "/hello", now - 5, chat(-100888, "group", None)),
        msg_update(12, "/id@MyBot", now - 10, target.clone()),
        msg_update(13, "/id", now - 700, chat(-100777, "group", None)),
    ];

    let mut cur = BotCursor::default();
    let replies = extract_id_replies(updates.clone(), &mut cur, Some("MyBot"), now);
    assert_eq!(replies.len(), 2, "应命中 update 10 与 12");
    assert_eq!(replies[0].id, -100999);
    assert_eq!(replies[1].id, -1001234567890);
    assert_eq!(cur.max_seen_update_id, 13);

    let again = extract_id_replies(updates, &mut cur, Some("MyBot"), now);
    assert!(again.is_empty(), "重复批次不应再产生回复");

    let newer = extract_id_replies(
        vec![msg_update(14, "/id", now - 1, chat(-100666, "group", None))],
        &mut cur,
        None,
        now,
    );
    assert_eq!(newer.len(), 1);
}

#[test]
fn t_extract_id_replies_channel_post() {
    let now = 1_700_000_600i64;
    let u = BotUpdate {
        update_id: 20,
        message: None,
        channel_post: Some(UpdateMessage {
            chat: chat(-1002999999999, "channel", Some("频道")),
            text: Some("/id".to_string()),
            date: now - 3,
        }),
        my_chat_member: None,
    };
    let mut cur = BotCursor::default();
    let replies = extract_id_replies(vec![u], &mut cur, None, now);
    assert_eq!(replies.len(), 1, "channel_post 的 /id 也应回复");
    assert_eq!(replies[0].id, -1002999999999);
}

#[test]
fn backoff_doubles_and_caps() {
    assert_eq!(failure_backoff_secs(1), 2);
    assert_eq!(failure_backoff_secs(2), 4);
    assert_eq!(failure_backoff_secs(5), 32);
    assert_eq!(failure_backoff_secs(6), 60);
    assert_eq!(failure_backoff_secs(40), 60);
    let mut cur = BotCursor::default();
    assert_eq!(record_failure(&mut cur, 100), 2);
    assert_eq!(cur.skip_until, Some(102));
    assert!(in_backoff(&cur, 101));
    assert!(!in_backoff(&cur, 102));
    record_success(&mut cur);
    assert_eq!(cur.consec_failures, 0);
    assert!(!in_backoff(&cur, 0));
}

#[test]
fn bot_urls() {
    assert_eq!(bot_api_url("https://api.telegram.org", "T", "getMe"), "https://api.telegram.org/botT/getMe");
    assert_eq!(
        file_download_url("https://api.telegram.org", "T", "photos/a.jpg"),
        "https://api.telegram.org/file/botT/photos/a.jpg"
    );
}

#[test]
fn bot_chats_newest_first_unique_groups_only() {
    let updates = vec![
        msg_update(1, "hi", 1, chat(-1, "group", Some("old"))),
        msg_update(2, "hi", 2, chat(5, "private", Some("me"))),
        BotUpdate {
            update_id: 3,
            message: None,
            channel_post: None,
            my_chat_member: Some(MemberChat { id: Some(-2), chat_type: "channel".into(), title: None }),
        },
        msg_update(4, "hi", 4, chat(-1, "group", Some("new"))),
    ];
    let chats = bot_chats_from_updates(&updates);
    assert_eq!(chats.len(), 2);
    assert_eq!(chats[0].id, -1);
    assert_eq!(chats[0].title, "new");
    assert_eq!(chats[1].id, -2);
    assert_eq!(chats[1].title, "Chat -2");
}
