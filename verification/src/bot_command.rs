//! `/id` command of bot clients: which messages ask for the chat id, which
//! updates are answered, the reply text, and the back-off of a bot whose
//! polling fails.
use vstd::prelude::*;
use crate::bot_api::{BotUpdate, UpdateChat, UpdateMessage, chat_name, chat_name_exec};
use crate::extractor::{opt_str, str_to_lowercase, unicode_lowercase};
use crate::text::{
    chars_of, int_decimal, is_ws, is_ws_exec, push_signed_decimal, push_str, seq_eq, slice_range,
    string_from_chars, trim_start,
};

verus! {

/// Seconds between polls.
pub const POLL_INTERVAL_SECS: u64 = 10;

/// Commands older than this many seconds are not answered.
pub const FRESH_WINDOW_SECS: i64 = 600;

/// Upper bound of the back-off after failures, in seconds.
pub const MAX_BACKOFF_SECS: u64 = 60;

/// Polling state of one bot.
#[derive(Debug, Default, Clone, PartialEq, Eq)]
pub struct BotCursor {
    /// Largest update id seen (updates come in increasing id order).
    pub max_seen_update_id: i64,
    /// Consecutive failed polls (reset by a success).
    pub consec_failures: u32,
    /// End of the back-off, in seconds of the caller's monotonic clock.
    pub skip_until: Option<u64>,
}

// ---------------------------------------------------------------------------
// The command
// ---------------------------------------------------------------------------

/// Length of the leading run of non-white-space characters.
pub open spec fn word_len(t: Seq<char>) -> nat
    decreases t.len(),
{
    if t.len() == 0 || is_ws(t[0]) {
        0
    } else {
        1 + word_len(t.drop_first())
    }
}

/// The first white-space separated word (`split_whitespace().next()`).
pub open spec fn first_word(s: Seq<char>) -> Option<Seq<char>> {
    let t = trim_start(s);
    if t.len() == 0 {
        None
    } else {
        Some(t.take(word_len(t) as int))
    }
}

/// The first word, lower-cased, is `/id`, or `/id@` followed by the
/// lower-cased bot username (when one is known and not empty).
pub open spec fn id_command(text: Seq<char>, username: Option<Seq<char>>) -> bool {
    match first_word(text) {
        None => false,
        Some(w) => {
            let first = unicode_lowercase(w);
            ||| first == "/id"@
            ||| (username matches Some(u) && u.len() > 0 && first == "/id@"@ + unicode_lowercase(u))
        },
    }
}

pub open spec fn opt_view(o: Option<&str>) -> Option<Seq<char>> {
    match o {
        Some(s) => Some(s@),
        None => None,
    }
}

fn first_word_exec(v: &[char]) -> (r: Option<Vec<char>>)
    ensures
        match first_word(v@) {
            Some(w) => r matches Some(x) && x@ == w,
            None => r is None,
        },
{
    let mut a: usize = 0;
    assert(v@.skip(0) =~= v@);
    while a < v.len() && is_ws_exec(v[a])
        invariant
            a <= v.len(),
            trim_start(v@.skip(a as int)) == trim_start(v@),
        decreases v.len() - a,
    {
        assert(v@.skip(a as int).drop_first() =~= v@.skip(a + 1));
        a = a + 1;
    }
    let ghost t = v@.skip(a as int);
    assert(trim_start(t) == t);
    if a == v.len() {
        return None;
    }
    let mut b: usize = a;
    while b < v.len() && !is_ws_exec(v[b])
        invariant
            a <= b <= v.len(),
            t == v@.skip(a as int),
            word_len(t) == (b - a) + word_len(v@.skip(b as int)),
        decreases v.len() - b,
    {
        assert(v@.skip(b as int).drop_first() =~= v@.skip(b + 1));
        b = b + 1;
    }
    let w = slice_range(v, a, b);
    assert(w@ =~= t.take(word_len(t) as int));
    Some(w)
}

/// Whether `text` is an `/id` command meant for this bot.
pub fn is_id_command(text: &str, bot_username: Option<&str>) -> (r: bool)
    ensures
        r == id_command(text@, opt_view(bot_username)),
{
    proof {
        reveal_strlit("/id");
        reveal_strlit("/id@");
    }
    let w = match first_word_exec(chars_of(text).as_slice()) {
        Some(w) => w,
        None => return false,
    };
    let ws = string_from_chars(w.as_slice());
    let first = str_to_lowercase(ws.as_str());
    let fv = chars_of(first.as_str());
    let id = chars_of("/id");
    if seq_eq(fv.as_slice(), id.as_slice()) {
        return true;
    }
    match bot_username {
        Some(u) => {
            if u.is_empty() {
                return false;
            }
            let lu = str_to_lowercase(u);
            let mut target: Vec<char> = Vec::new();
            push_str(&mut target, "/id@");
            push_str(&mut target, lu.as_str());
            seq_eq(fv.as_slice(), target.as_slice())
        },
        None => false,
    }
}

/// Text of the reply to `/id`.
pub open spec fn reply_text(chat: UpdateChat) -> Seq<char> {
    "本会话 Chat ID: "@ + int_decimal(chat.id as int) + "\n名称: "@ + chat_name(chat) + "\n类型: "@
        + chat.chat_type@ + "\n\n此 ID 为 Bot API 格式，可直接填入图床配置的群组输入框"@
}

/// The reply to `/id`: the chat id, its name and its type.
pub fn build_reply_text(chat: &UpdateChat) -> (r: String)
    ensures
        r@ == reply_text(*chat),
{
    let name = chat_name_exec(chat);
    let mut m: Vec<char> = Vec::new();
    push_str(&mut m, "本会话 Chat ID: ");
    push_signed_decimal(&mut m, chat.id);
    push_str(&mut m, "\n名称: ");
    push_str(&mut m, name.as_str());
    push_str(&mut m, "\n类型: ");
    push_str(&mut m, chat.chat_type.as_str());
    push_str(&mut m, "\n\n此 ID 为 Bot API 格式，可直接填入图床配置的群组输入框");
    string_from_chars(m.as_slice())
}

// ---------------------------------------------------------------------------
// Selecting updates
// ---------------------------------------------------------------------------

/// The message of an update: a group message, else a channel post.
pub open spec fn update_message(u: BotUpdate) -> Option<UpdateMessage> {
    match u.message {
        Some(m) => Some(m),
        None => u.channel_post,
    }
}

/// An update (not seen before) is answered when its message is an `/id`
/// command sent less than the fresh window ago.
pub open spec fn answers(u: BotUpdate, username: Option<Seq<char>>, now: i64) -> bool {
    match update_message(u) {
        None => false,
        Some(m) => {
            &&& m.text matches Some(t) && id_command(t@, username)
            &&& m.date > 0
            &&& now - m.date <= 600
        },
    }
}

/// The chats to answer and the new largest id, after a batch of updates:
/// updates at or below the largest id seen are skipped.
pub open spec fn id_replies(us: Seq<BotUpdate>, max_seen: i64, username: Option<Seq<char>>, now: i64) -> (Seq<UpdateChat>, i64)
    decreases us.len(),
{
    if us.len() == 0 {
        (Seq::empty(), max_seen)
    } else {
        let (out, m) = id_replies(us.drop_last(), max_seen, username, now);
        let u = us.last();
        if u.update_id <= m {
            (out, m)
        } else if answers(u, username, now) {
            (out.push(update_message(u).unwrap().chat), u.update_id)
        } else {
            (out, u.update_id)
        }
    }
}

/// An update chat as views: id, type, title, username, first name.
pub type UpdateChatView = (i64, Seq<char>, Option<Seq<char>>, Option<Seq<char>>, Option<Seq<char>>);

pub open spec fn update_chat_view(c: UpdateChat) -> UpdateChatView {
    (c.id, c.chat_type@, opt_str(c.title), opt_str(c.username), opt_str(c.first_name))
}

pub open spec fn update_chat_views(s: Seq<UpdateChat>) -> Seq<UpdateChatView> {
    Seq::new(s.len(), |i: int| update_chat_view(s[i]))
}

fn copy_opt(o: &Option<String>) -> (r: Option<String>)
    ensures
        opt_str(r) == opt_str(*o),
{
    match o {
        Some(s) => Some(s.clone()),
        None => None,
    }
}

fn copy_chat(c: &UpdateChat) -> (r: UpdateChat)
    ensures
        update_chat_view(r) == update_chat_view(*c),
{
    UpdateChat {
        id: c.id,
        chat_type: c.chat_type.clone(),
        title: copy_opt(&c.title),
        username: copy_opt(&c.username),
        first_name: copy_opt(&c.first_name),
    }
}

/// Chats to answer in a batch of updates; the cursor moves past every new
/// update, so a batch is never answered twice.
pub fn extract_id_replies(
    updates: Vec<BotUpdate>,
    cur: &mut BotCursor,
    username: Option<&str>,
    now: i64,
) -> (r: Vec<UpdateChat>)
    ensures
        update_chat_views(r@) == update_chat_views(id_replies(updates@, old(cur).max_seen_update_id, opt_view(username), now).0),
        final(cur).max_seen_update_id == id_replies(updates@, old(cur).max_seen_update_id, opt_view(username), now).1,
        final(cur).consec_failures == old(cur).consec_failures,
        final(cur).skip_until == old(cur).skip_until,
{
    let ghost m0 = cur.max_seen_update_id;
    let mut out: Vec<UpdateChat> = Vec::new();
    let mut i: usize = 0;
    assert(updates@.take(0) =~= Seq::<BotUpdate>::empty());
    while i < updates.len()
        invariant
            i <= updates.len(),
            update_chat_views(out@) == update_chat_views(id_replies(updates@.take(i as int), m0, opt_view(username), now).0),
            cur.max_seen_update_id == id_replies(updates@.take(i as int), m0, opt_view(username), now).1,
            cur.consec_failures == old(cur).consec_failures,
            cur.skip_until == old(cur).skip_until,
        decreases updates.len() - i,
    {
        assert(updates@.take(i + 1).drop_last() =~= updates@.take(i as int));
        assert(updates@.take(i + 1).last() == updates@[i as int]);
        let u = &updates[i];
        if u.update_id > cur.max_seen_update_id {
            cur.max_seen_update_id = u.update_id;
            let msg = match &u.message {
                Some(m) => Some(m),
                None => match &u.channel_post {
                    Some(m) => Some(m),
                    None => None,
                },
            };
            if let Some(m) = msg {
                assert(update_message(*u) == Some(*m));
                let is_cmd = match &m.text {
                    Some(t) => is_id_command(t.as_str(), username),
                    None => false,
                };
                if is_cmd && m.date > 0 && (now as i128) - (m.date as i128) <= 600 {
                    let ghost before = out@;
                    let ghost expect = id_replies(updates@.take(i as int), m0, opt_view(username), now).0;
                    out.push(copy_chat(&m.chat));
                    assert(update_chat_views(out@) =~= update_chat_views(before).push(update_chat_view(m.chat)));
                    assert(update_chat_views(expect.push(m.chat)) =~= update_chat_views(expect).push(update_chat_view(m.chat)));
                }
            }
        }
        i = i + 1;
    }
    assert(updates@.take(updates.len() as int) =~= updates@);
    out
}

proof fn lemma_replies_cursor_bound(us: Seq<BotUpdate>, m0: i64, username: Option<Seq<char>>, now: i64)
    ensures
        id_replies(us, m0, username, now).1 >= m0,
        forall|j: int| 0 <= j < us.len() ==> (#[trigger] us[j]).update_id <= id_replies(us, m0, username, now).1,
    decreases us.len(),
{
    if us.len() > 0 {
        let p = us.drop_last();
        lemma_replies_cursor_bound(p, m0, username, now);
        assert forall|j: int| 0 <= j < us.len() implies (#[trigger] us[j]).update_id <= id_replies(us, m0, username, now).1 by {
            if j < us.len() - 1 {
                assert(us[j] == p[j]);
            }
        }
    }
}

proof fn lemma_replies_all_seen(us: Seq<BotUpdate>, m: i64, username: Option<Seq<char>>, now: i64)
    requires
        forall|j: int| 0 <= j < us.len() ==> (#[trigger] us[j]).update_id <= m,
    ensures
        id_replies(us, m, username, now).0.len() == 0,
        id_replies(us, m, username, now).1 == m,
    decreases us.len(),
{
    if us.len() > 0 {
        let p = us.drop_last();
        assert forall|j: int| 0 <= j < p.len() implies (#[trigger] p[j]).update_id <= m by {
            assert(p[j] == us[j]);
        }
        lemma_replies_all_seen(p, m, username, now);
        assert(us.last() == us[us.len() - 1]);
    }
}

/// Handling a batch of updates twice answers nothing the second time and
/// leaves the cursor where the first pass put it.
pub proof fn lemma_replies_not_repeated(us: Seq<BotUpdate>, m0: i64, username: Option<Seq<char>>, now: i64)
    ensures
        id_replies(us, id_replies(us, m0, username, now).1, username, now).0.len() == 0,
        id_replies(us, id_replies(us, m0, username, now).1, username, now).1 == id_replies(us, m0, username, now).1,
{
    lemma_replies_cursor_bound(us, m0, username, now);
    lemma_replies_all_seen(us, id_replies(us, m0, username, now).1, username, now);
}

// ---------------------------------------------------------------------------
// Back-off
// ---------------------------------------------------------------------------

/// Seconds to wait after `failures` consecutive failures: 2, 4, 8, ...,
/// capped at 60.
pub open spec fn failure_backoff(failures: u32) -> u64 {
    let e = if failures < 6 { failures } else { 6 };
    let p: u64 = if e == 0 { 1 } else if e == 1 { 2 } else if e == 2 { 4 } else if e == 3 { 8 } else if e == 4 {
        16
    } else if e == 5 {
        32
    } else {
        64
    };
    if p < 60 {
        p
    } else {
        60
    }
}

pub fn failure_backoff_secs(failures: u32) -> (r: u64)
    ensures
        r == failure_backoff(failures),
{
    let e: u32 = if failures < 6 { failures } else { 6 };
    let mut p: u64 = 1;
    let mut k: u32 = 0;
    while k < e
        invariant
            k <= e <= 6,
            p == (if k == 0 { 1u64 } else if k == 1 { 2u64 } else if k == 2 { 4u64 } else if k == 3 { 8u64 } else if k == 4 { 16u64 } else if k == 5 { 32u64 } else { 64u64 }),
        decreases e - k,
    {
        p = p * 2;
        k = k + 1;
    }
    if p < MAX_BACKOFF_SECS {
        p
    } else {
        MAX_BACKOFF_SECS
    }
}

/// Whether the bot is still backing off at `now`.
pub fn in_backoff(cur: &BotCursor, now: u64) -> (r: bool)
    ensures
        r == (cur.skip_until matches Some(t) && now < t),
{
    match cur.skip_until {
        Some(t) => now < t,
        None => false,
    }
}

/// A failed poll: one more consecutive failure, and no polling until the
/// back-off for that many failures has passed.
pub fn record_failure(cur: &mut BotCursor, now: u64) -> (backoff: u64)
    requires
        old(cur).consec_failures < u32::MAX,
        now + 60 <= u64::MAX,
    ensures
        final(cur).consec_failures == old(cur).consec_failures + 1,
        backoff == failure_backoff(final(cur).consec_failures),
        final(cur).skip_until == Some((now + backoff) as u64),
        final(cur).max_seen_update_id == old(cur).max_seen_update_id,
{
    cur.consec_failures = cur.consec_failures + 1;
    let b = failure_backoff_secs(cur.consec_failures);
    cur.skip_until = Some(now + b);
    b
}

/// A successful poll clears the failures and the back-off.
pub fn record_success(cur: &mut BotCursor)
    ensures
        final(cur).consec_failures == 0,
        final(cur).skip_until is None,
        final(cur).max_seen_update_id == old(cur).max_seen_update_id,
{
    cur.consec_failures = 0;
    cur.skip_until = None;
}

} // verus!
