//! Telegram Bot API values: bot and chat descriptions, updates, request
//! URLs, and the list of groups and channels a bot has seen.
use vstd::prelude::*;
use crate::extractor::opt_str;
use crate::text::{int_decimal, push_signed_decimal, push_str, string_from_chars};

verus! {

/// The bot behind a token (`getMe`).
#[derive(Debug, Clone, PartialEq, Eq)]
pub struct BotInfo {
    pub id: i64,
    pub first_name: String,
    pub username: Option<String>,
}

/// A group, supergroup or channel the bot is in.
#[derive(Debug, Clone, PartialEq, Eq)]
pub struct BotChat {
    pub id: i64,
    pub title: String,
    pub chat_type: String,
}

/// The chat of an update.
#[derive(Debug, Clone, PartialEq, Eq)]
pub struct UpdateChat {
    pub id: i64,
    /// `private`, `group`, `supergroup` or `channel`.
    pub chat_type: String,
    pub title: Option<String>,
    pub username: Option<String>,
    pub first_name: Option<String>,
}

/// A message of an update.
#[derive(Debug, Clone, PartialEq, Eq)]
pub struct UpdateMessage {
    pub chat: UpdateChat,
    /// Text of the message (media messages have none).
    pub text: Option<String>,
    /// Unix seconds; 0 when absent.
    pub date: i64,
}

/// The chat of a membership change, as its JSON gives it: the `id` when it
/// is an integer, the `type` when it is a string (else empty), and the
/// `title` (or, without a `title`, the `username`) when it is a string.
#[derive(Debug, Clone, PartialEq, Eq)]
pub struct MemberChat {
    pub id: Option<i64>,
    pub chat_type: String,
    pub title: Option<String>,
}

/// One update of `getUpdates`.
#[derive(Debug, Clone, PartialEq, Eq)]
pub struct BotUpdate {
    /// Strictly increasing, used to skip updates already handled.
    pub update_id: i64,
    pub message: Option<UpdateMessage>,
    /// Channel messages arrive here.
    pub channel_post: Option<UpdateMessage>,
    /// Chat of a `my_chat_member` event (the bot added to a chat).
    pub my_chat_member: Option<MemberChat>,
}

/// `{base}/bot{token}/{method}`.
pub fn bot_api_url(base: &str, token: &str, method: &str) -> (r: String)
    ensures
        r@ == base@ + "/bot"@ + token@ + seq!['/'] + method@,
{
    let mut m: Vec<char> = Vec::new();
    push_str(&mut m, base);
    push_str(&mut m, "/bot");
    push_str(&mut m, token);
    m.push('/');
    push_str(&mut m, method);
    string_from_chars(m.as_slice())
}

/// `{base}/file/bot{token}/{file_path}`.
pub fn file_download_url(base: &str, token: &str, file_path: &str) -> (r: String)
    ensures
        r@ == base@ + "/file/bot"@ + token@ + seq!['/'] + file_path@,
{
    let mut m: Vec<char> = Vec::new();
    push_str(&mut m, base);
    push_str(&mut m, "/file/bot");
    push_str(&mut m, token);
    m.push('/');
    push_str(&mut m, file_path);
    string_from_chars(m.as_slice())
}

/// `Chat {id}`.
pub open spec fn chat_placeholder(id: i64) -> Seq<char> {
    "Chat "@ + int_decimal(id as int)
}

pub fn chat_placeholder_exec(id: i64) -> (r: String)
    ensures
        r@ == chat_placeholder(id),
{
    let mut m: Vec<char> = Vec::new();
    push_str(&mut m, "Chat ");
    push_signed_decimal(&mut m, id);
    string_from_chars(m.as_slice())
}

/// The displayed name of a chat: its title, else its username, else its
/// first name, else `Chat {id}`.
pub open spec fn chat_name(c: UpdateChat) -> Seq<char> {
    match opt_str(c.title) {
        Some(t) => t,
        None => match opt_str(c.username) {
            Some(u) => u,
            None => match opt_str(c.first_name) {
                Some(f) => f,
                None => chat_placeholder(c.id),
            },
        },
    }
}

pub fn chat_name_exec(c: &UpdateChat) -> (r: String)
    ensures
        r@ == chat_name(*c),
{
    match &c.title {
        Some(t) => t.clone(),
        None => match &c.username {
            Some(u) => u.clone(),
            None => match &c.first_name {
                Some(f) => f.clone(),
                None => chat_placeholder_exec(c.id),
            },
        },
    }
}

pub open spec fn is_group_type(t: Seq<char>) -> bool {
    t == "group"@ || t == "supergroup"@ || t == "channel"@
}

fn group_type(t: &str) -> (r: bool)
    ensures
        r == is_group_type(t@),
{
    crate::text::str_eq(t, "group") || crate::text::str_eq(t, "supergroup") || crate::text::str_eq(t, "channel")
}

/// A chat as views: id, title, type.
pub type ChatView = (i64, Seq<char>, Seq<char>);

pub open spec fn chat_views(c: Seq<BotChat>) -> Seq<ChatView> {
    Seq::new(c.len(), |i: int| (c[i].id, c[i].title@, c[i].chat_type@))
}

/// The chats one update contributes, given the ids already seen: the chat
/// of its message, then that of its membership event, each when it is a
/// group, supergroup or channel not seen before.
pub open spec fn update_chats(u: BotUpdate, seen: Set<i64>) -> (Seq<ChatView>, Set<i64>) {
    let (a, s1) = match u.message {
        Some(m) => if is_group_type(m.chat.chat_type@) && !seen.contains(m.chat.id) {
            (seq![(m.chat.id, chat_name(m.chat), m.chat.chat_type@)], seen.insert(m.chat.id))
        } else {
            (Seq::<ChatView>::empty(), seen)
        },
        None => (Seq::<ChatView>::empty(), seen),
    };
    match u.my_chat_member {
        Some(mc) => match mc.id {
            Some(id) => if is_group_type(mc.chat_type@) && !s1.contains(id) {
                let title = match opt_str(mc.title) {
                    Some(t) => t,
                    None => chat_placeholder(id),
                };
                (a.push((id, title, mc.chat_type@)), s1.insert(id))
            } else {
                (a, s1)
            },
            None => (a, s1),
        },
        None => (a, s1),
    }
}

/// The chats of a batch of updates, newest update first, each chat once.
pub open spec fn chats_of_updates(us: Seq<BotUpdate>, seen: Set<i64>) -> Seq<ChatView>
    decreases us.len(),
{
    if us.len() == 0 {
        Seq::empty()
    } else {
        let (a, s1) = update_chats(us.last(), seen);
        a + chats_of_updates(us.drop_last(), s1)
    }
}

proof fn lemma_push_to_set(s: Seq<i64>, x: i64)
    ensures
        s.push(x).to_set() == s.to_set().insert(x),
{
    let t = s.push(x);
    assert forall|y: i64| t.contains(y) <==> s.contains(y) || y == x by {
        if t.contains(y) {
            let j = choose|j: int| 0 <= j < t.len() && t[j] == y;
            if j < s.len() {
                assert(s[j] == y);
            }
        }
        if s.contains(y) {
            let j = choose|j: int| 0 <= j < s.len() && s[j] == y;
            assert(t[j] == y);
        }
        if y == x {
            assert(t[s.len() as int] == x);
        }
    }
    assert(t.to_set() =~= s.to_set().insert(x));
}

fn contains_id(ids: &Vec<i64>, id: i64) -> (r: bool)
    ensures
        r == ids@.contains(id),
{
    let mut i: usize = 0;
    while i < ids.len()
        invariant
            i <= ids.len(),
            forall|k: int| 0 <= k < i ==> ids@[k] != id,
        decreases ids.len() - i,
    {
        if ids[i] == id {
            assert(ids@[i as int] == id);
            return true;
        }
        i = i + 1;
    }
    false
}

/// Groups, supergroups and channels seen in a batch of updates, newest
/// first, each id once (messages and membership events).
pub fn bot_chats_from_updates(updates: &Vec<BotUpdate>) -> (r: Vec<BotChat>)
    ensures
        chat_views(r@) == chats_of_updates(updates@, Set::empty()),
{
    let mut chats: Vec<BotChat> = Vec::new();
    let mut seen: Vec<i64> = Vec::new();
    let mut k: usize = updates.len();
    assert(updates@.take(updates.len() as int) =~= updates@);
    assert(seen@.to_set() =~= Set::<i64>::empty());
    assert(chat_views(chats@) + chats_of_updates(updates@, Set::empty()) =~= chats_of_updates(updates@, Set::empty()));
    while k > 0
        invariant
            k <= updates.len(),
            chat_views(chats@) + chats_of_updates(updates@.take(k as int), seen@.to_set()) == chats_of_updates(
                updates@,
                Set::empty(),
            ),
        decreases k,
    {
        let ghost pre = updates@.take(k as int);
        assert(pre.drop_last() =~= updates@.take(k - 1));
        assert(pre.last() == updates@[k - 1]);
        let u = &updates[k - 1];
        let ghost seen0 = seen@.to_set();
        let ghost chats0 = chat_views(chats@);
        if let Some(m) = &u.message {
            if group_type(m.chat.chat_type.as_str()) && !contains_id(&seen, m.chat.id) {
                let name = chat_name_exec(&m.chat);
                let ghost before = chat_views(chats@);
                chats.push(BotChat { id: m.chat.id, title: name, chat_type: m.chat.chat_type.clone() });
                assert(chat_views(chats@) =~= before.push((m.chat.id, chat_name(m.chat), m.chat.chat_type@)));
                let ghost s0 = seen@;
                seen.push(m.chat.id);
                proof {
                    lemma_push_to_set(s0, m.chat.id);
                }
            }
        }
        if let Some(mc) = &u.my_chat_member {
            if let Some(id) = mc.id {
                if group_type(mc.chat_type.as_str()) && !contains_id(&seen, id) {
                    let title = match &mc.title {
                        Some(t) => t.clone(),
                        None => chat_placeholder_exec(id),
                    };
                    let ghost before = chat_views(chats@);
                    let ghost tv = title@;
                    chats.push(BotChat { id, title, chat_type: mc.chat_type.clone() });
                    assert(chat_views(chats@) =~= before.push((id, tv, mc.chat_type@)));
                    let ghost s0 = seen@;
                    seen.push(id);
                    proof {
                        lemma_push_to_set(s0, id);
                    }
                }
            }
        }
        proof {
            let (a, s1) = update_chats(*u, seen0);
            assert(chat_views(chats@) =~= chats0 + a);
            assert(seen@.to_set() == s1);
            assert(chats_of_updates(pre, seen0) == a + chats_of_updates(updates@.take(k - 1), s1));
            assert(chats0 + (a + chats_of_updates(updates@.take(k - 1), s1)) =~= (chats0 + a)
                + chats_of_updates(updates@.take(k - 1), s1));
        }
        k = k - 1;
    }
    assert(updates@.take(0) =~= Seq::<BotUpdate>::empty());
    assert(chat_views(chats@) + Seq::<ChatView>::empty() =~= chat_views(chats@));
    chats
}

} // verus!
