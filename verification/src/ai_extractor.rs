//! AI-assisted extraction: endpoint configuration and round-robin choice,
//! the prompts, and how the JSON part of a model reply is found.
use vstd::prelude::*;
use crate::json_support::{
    field_view, json_array_items, json_array_texts, json_error_message, json_field, json_member,
    json_parse, json_whole_parses, string_views, JsonField, JsonFieldView,
};
use crate::text::{
    chars_of, find, find_char, find_exec, first_char, last_char, push_all, push_str, rfind_char,
    join, join_exec, slice_range, split_char, split_exec, starts_with, starts_with_exec,
    string_from_chars, trim, trim_chars, trim_end_char, trim_end_char_exec, views,
};

verus! {

/// An OpenAI-compatible endpoint.
#[derive(Debug, Clone)]
pub struct AiEndpoint {
    pub id: String,
    pub name: String,
    /// `openai` by default.
    pub ai_type: String,
    pub url: String,
    pub key: String,
    pub model: String,
    /// Enabled by default.
    pub enable: bool,
    /// Delay between requests, in milliseconds.
    pub request_delay: u64,
}

/// Default endpoint type.
pub fn default_ai_type() -> (r: String)
    ensures
        r@ == "openai"@,
{
    String::from_str("openai")
}

/// Default of `enable`.
pub fn default_true() -> (r: bool)
    ensures
        r,
{
    true
}

/// One resource as the model returns it.
#[derive(Debug, Clone, PartialEq, Eq)]
pub struct AiExtractResult {
    pub title: String,
    pub url: Vec<String>,
    pub description: String,
    pub category: String,
    pub tags: String,
}

/// Positions of the enabled endpoints, in order.
pub open spec fn enabled_positions(s: Seq<AiEndpoint>) -> Seq<int>
    decreases s.len(),
{
    if s.len() == 0 {
        Seq::empty()
    } else if s.last().enable {
        enabled_positions(s.drop_last()).push(s.len() - 1)
    } else {
        enabled_positions(s.drop_last())
    }
}

proof fn lemma_enabled_positions_bounds(s: Seq<AiEndpoint>)
    ensures
        forall|k: int| 0 <= k < enabled_positions(s).len() ==> 0 <= #[trigger] enabled_positions(s)[k] < s.len(),
    decreases s.len(),
{
    if s.len() > 0 {
        let p = s.drop_last();
        lemma_enabled_positions_bounds(p);
        assert forall|k: int| 0 <= k < enabled_positions(s).len() implies 0 <= #[trigger] enabled_positions(s)[k] < s.len() by {
            if k < enabled_positions(p).len() {
                assert(enabled_positions(s)[k] == enabled_positions(p)[k]);
            }
        }
    }
}

/// Round-robin choice among the enabled endpoints: with `n` of them the
/// choice is number `counter mod n`, and the counter advances (wrapping);
/// without any, `None` and the counter is left alone.
pub fn select_endpoint<'a>(endpoints: &'a [AiEndpoint], counter: &mut usize) -> (r: Option<&'a AiEndpoint>)
    ensures
        enabled_positions(endpoints@).len() == 0 ==> r is None && *final(counter) == *old(counter),
        enabled_positions(endpoints@).len() > 0 ==> {
            let pos = enabled_positions(endpoints@);
            &&& r matches Some(e) && *e == endpoints@[pos[*old(counter) as int % pos.len() as int]]
            &&& *final(counter) == if *old(counter) == usize::MAX { 0 } else { (*old(counter) + 1) as usize }
        },
{
    let mut positions: Vec<usize> = Vec::new();
    let mut i: usize = 0;
    assert(endpoints@.take(0) =~= Seq::<AiEndpoint>::empty());
    while i < endpoints.len()
        invariant
            i <= endpoints.len(),
            positions@.len() == enabled_positions(endpoints@.take(i as int)).len(),
            forall|k: int| 0 <= k < positions@.len() ==> positions@[k] as int == #[trigger] enabled_positions(endpoints@.take(i as int))[k],
        decreases endpoints.len() - i,
    {
        let ghost before = endpoints@.take(i as int);
        assert(endpoints@.take(i + 1).drop_last() =~= before);
        if endpoints[i].enable {
            positions.push(i);
        }
        i = i + 1;
    }
    assert(endpoints@.take(endpoints.len() as int) =~= endpoints@);
    proof {
        lemma_enabled_positions_bounds(endpoints@);
    }
    if positions.len() == 0 {
        return None;
    }
    let idx = *counter % positions.len();
    *counter = counter.wrapping_add(1);
    let p = positions[idx];
    assert(enabled_positions(endpoints@.take(endpoints.len() as int)) == enabled_positions(endpoints@));
    assert(p as int == enabled_positions(endpoints@)[idx as int]);
    assert(p < endpoints.len());
    Some(&endpoints[p])
}

/// Prompt of single-resource extraction.
pub const DEFAULT_PROMPT: &'static str = r#"你是一个专业的 Telegram 消息资源提取助手。请从以下 Telegram 消息中提取结构化资源信息，返回严格的 JSON 格式。

## 字段说明
- "title": 资源完整名称标题，保留分辨率、语言、集数等关键信息（如 [WEB-4K] [国语中字] [更至6集]），不包含链接、标签或特殊符号
- "url": 所有网盘分享链接数组，每个链接保留完整 URL 和提取码（格式: 链接|提取码），必须包含消息中出现的所有网盘链接，忽略 t.me 等广告链接
- "description": 资源完整描述，从"描述："、"亮点："、"简介："、"这本书能为你"等关键词后面提取全部内容（不要截断），没有则留空
- "category": 网盘类型，取消息中第一个出现的网盘类型，必须为以下之一：quark、aliyun、baidu、uc、115、123pan、tianyi、xunlei，无法识别则留空
- "tags": 标签，逗号分隔，最多5个，去除#前缀

## 处理规则
- url 数组必须包含消息中所有不同网盘的链接，不要遗漏任何一个
- 提取码紧跟在链接后面时，以 | 分隔附加到对应链接后面，如 "https://pan.baidu.com/s/xxx?pwd=1111" 或 "https://pan.baidu.com/s/xxx|提取码：1111"
- 如果消息中出现"名称："、"标题："等关键词，提取其后的完整内容作为 title（保留 [] 中的信息）
- 如果消息中没有明确标题，从内容中推断一个简短描述性的标题
- description 要完整提取，不要截断或省略
- category 只填网盘类型标识符（quark/baidu 等），不要填内容分类（如"剧情"、"电影"）
- 处理中英文混合和格式混乱的消息

## 输出示例
{"title":"某部电影 [WEB-4K] [国语中字]","url":["https://pan.quark.cn/s/abc123","https://pan.baidu.com/s/def456|提取码：abc1","https://pan.xunlei.com/s/xyz789|提取码：pass"],"description":"这是一部精彩的电影，讲述了一个关于勇气和冒险的故事，画面精美，剧情紧凑。","category":"quark","tags":"电影,4K,国语,蓝光"}

只返回 JSON，不要包含任何其他文字。

消息内容：
"#;

/// Prompt of batch extraction.
pub const BATCH_PROMPT: &'static str = r##"逐条提取消息中的网盘资源，每条资源一个JSON对象，返回紧凑JSON数组。一个链接=一个对象，不要合并。

格式: {"t":"标题","u":"链接","d":"描述","tags":"标签"}
- t: 链接上方一行的文字，原文照搬不修改
- u: 完整链接，提取码紧跟链接用|拼接如 https://pan.baidu.com/s/x|提取码：ab
- d: 描述段落完整内容，没有则填""
- tags: 3-5个标签逗号分隔，没有则填""
忽略t.me链接。
[{"t":"电影[4K]","u":"https://pan.quark.cn/s/a","d":"","tags":"电影,4K"}]

消息：
"##;

// ---------------------------------------------------------------------------
// Finding the JSON in a reply
// ---------------------------------------------------------------------------

/// The JSON object of a reply: the trimmed reply when it starts with `{`;
/// else the content of a ```` ```json ```` block; else of a ```` ``` ````
/// block (from its first `{`); else from the first `{` to the last `}`;
/// else the trimmed reply.
pub open spec fn json_object_of(content: Seq<char>) -> Seq<char> {
    let t = trim(content);
    if t.len() > 0 && t[0] == '{' {
        t
    } else if find(t, "```json"@) is Some && find(t.skip(find(t, "```json"@).unwrap() + 7), "```"@) is Some {
        let js = find(t, "```json"@).unwrap() + 7;
        let end = find(t.skip(js), "```"@).unwrap();
        trim(t.subrange(js, js + end))
    } else if find(t, "```"@) is Some && find(t.skip(fence_body_start(t)), "```"@) is Some {
        let js = fence_body_start(t);
        let end = find(t.skip(js), "```"@).unwrap();
        trim(t.subrange(js, js + end))
    } else if first_char(t, '{') is Some && last_char(t, '}') is Some && last_char(t, '}').unwrap()
        > first_char(t, '{').unwrap() {
        t.subrange(first_char(t, '{').unwrap(), last_char(t, '}').unwrap() + 1)
    } else {
        t
    }
}

/// Start of the body of the first ```` ``` ```` block: its first `{`, or
/// right after the fence.
pub open spec fn fence_body_start(t: Seq<char>) -> int {
    let js = find(t, "```"@).unwrap() + 3;
    match first_char(t.skip(js), '{') {
        Some(p) => js + p,
        None => js,
    }
}

/// The JSON object part of a model reply.
pub fn extract_json_from_content(content: &str) -> (r: String)
    ensures
        r@ == json_object_of(content@),
{
    proof {
        reveal_strlit("```json");
        reveal_strlit("```");
    }
    let t = trim_chars(chars_of(content).as_slice());
    if t.len() > 0 && t[0] == '{' {
        return string_from_chars(t.as_slice());
    }
    let fj = chars_of("```json");
    let f3 = chars_of("```");
    if let Some(start) = find_exec(t.as_slice(), fj.as_slice()) {
        let js = start + 7;
        let rest = slice_range(t.as_slice(), js, t.len());
        assert(rest@ =~= t@.skip(js as int));
        if let Some(end) = find_exec(rest.as_slice(), f3.as_slice()) {
            let body = slice_range(t.as_slice(), js, js + end);
            return string_from_chars(trim_chars(body.as_slice()).as_slice());
        }
    }
    if let Some(start) = find_exec(t.as_slice(), f3.as_slice()) {
        let js0 = start + 3;
        let after = slice_range(t.as_slice(), js0, t.len());
        assert(after@ =~= t@.skip(js0 as int));
        let js = match find_char(after.as_slice(), '{') {
            Some(p) => js0 + p,
            None => js0,
        };
        assert(js as int == fence_body_start(t@));
        let rest = slice_range(t.as_slice(), js, t.len());
        assert(rest@ =~= t@.skip(js as int));
        if let Some(end) = find_exec(rest.as_slice(), f3.as_slice()) {
            let body = slice_range(t.as_slice(), js, js + end);
            return string_from_chars(trim_chars(body.as_slice()).as_slice());
        }
    }
    if let Some(start) = find_char(t.as_slice(), '{') {
        if let Some(end) = rfind_char(t.as_slice(), '}') {
            if end > start {
                let body = slice_range(t.as_slice(), start, end + 1);
                return string_from_chars(body.as_slice());
            }
        }
    }
    string_from_chars(t.as_slice())
}

/// Net count of `[` over `]` in `s`.
pub open spec fn bracket_balance(s: Seq<char>) -> int
    decreases s.len(),
{
    if s.len() == 0 {
        0
    } else {
        bracket_balance(s.drop_last()) + if s.last() == '[' {
            1int
        } else if s.last() == ']' {
            -1int
        } else {
            0int
        }
    }
}

/// A sequence that opens with `[` and never closes one has a positive
/// balance.
proof fn lemma_balance_positive(s: Seq<char>)
    requires
        s.len() > 0,
        s[0] == '[',
        forall|j: int| 0 <= j < s.len() ==> s[j] != ']',
    ensures
        bracket_balance(s) >= 1,
    decreases s.len(),
{
    if s.len() > 1 {
        let p = s.drop_last();
        assert forall|j: int| 0 <= j < p.len() implies p[j] != ']' by {
            assert(p[j] == s[j]);
        }
        lemma_balance_positive(p);
        assert(s.last() != ']');
    } else {
        assert(s.drop_last().len() == 0);
        assert(bracket_balance(s.drop_last()) == 0);
        assert(s.last() == s[0]);
    }
}

/// The JSON array of a reply: the trimmed reply when it starts with `[`;
/// else, when the brackets from the first `[` on balance, from that `[` to
/// the last `]`; else the trimmed reply.
pub open spec fn json_array_of(content: Seq<char>) -> Seq<char> {
    let t = trim(content);
    if t.len() > 0 && t[0] == '[' {
        t
    } else if first_char(t, '[') is Some && bracket_balance(t.skip(first_char(t, '[').unwrap())) == 0
        && last_char(t, ']') is Some {
        t.subrange(first_char(t, '[').unwrap(), last_char(t, ']').unwrap() + 1)
    } else {
        t
    }
}

/// The JSON array part of a model reply.
pub fn extract_json_array_from_content(content: &str) -> (r: String)
    ensures
        r@ == json_array_of(content@),
{
    let t = trim_chars(chars_of(content).as_slice());
    if t.len() > 0 && t[0] == '[' {
        return string_from_chars(t.as_slice());
    }
    if let Some(start) = find_char(t.as_slice(), '[') {
        let mut count: i128 = 0;
        let mut k: usize = start;
        assert(t@.subrange(start as int, start as int) =~= Seq::<char>::empty());
        while k < t.len()
            invariant
                start <= k <= t.len(),
                count as int == bracket_balance(t@.subrange(start as int, k as int)),
                -(k - start) <= count <= k - start,
            decreases t.len() - k,
        {
            assert(t@.subrange(start as int, k + 1).drop_last() =~= t@.subrange(start as int, k as int));
            if t[k] == '[' {
                count = count + 1;
            } else if t[k] == ']' {
                count = count - 1;
            }
            k = k + 1;
        }
        assert(t@.subrange(start as int, t.len() as int) =~= t@.skip(start as int));
        if count == 0 {
            if let Some(end) = rfind_char(t.as_slice(), ']') {
                assert(t@[start as int] == '[');
                proof {
                    if end < start {
                        let u = t@.skip(start as int);
                        assert forall|j: int| 0 <= j < u.len() implies u[j] != ']' by {
                            assert(u[j] == t@[start + j]);
                        }
                        lemma_balance_positive(u);
                    }
                }
                assert(end >= start);
                let body = slice_range(t.as_slice(), start, end + 1);
                return string_from_chars(body.as_slice());
            }
        }
    }
    string_from_chars(t.as_slice())
}

// ---------------------------------------------------------------------------
// Drafts
// ---------------------------------------------------------------------------

/// A resource as extraction makes it of a message.
#[derive(Debug, Clone, PartialEq, Eq)]
pub struct ResourceDraft {
    pub title: String,
    /// Share links, each possibly with `|` and its extraction code.
    pub url: Vec<String>,
    pub description: String,
    /// Net-disk kind of the first link.
    pub category: String,
    /// Comma-separated tags.
    pub tags: String,
    pub source: String,
}

/// `field` when it is not empty, else `fallback`.
pub open spec fn prefer(field: Seq<char>, fallback: Seq<char>) -> Seq<char> {
    if field.len() == 0 {
        fallback
    } else {
        field
    }
}

fn copy_strings(v: &Vec<String>) -> (r: Vec<String>)
    ensures
        string_views(r@) == string_views(v@),
{
    let mut r: Vec<String> = Vec::new();
    let mut i: usize = 0;
    while i < v.len()
        invariant
            i <= v.len(),
            string_views(r@) == string_views(v@).take(i as int),
        decreases v.len() - i,
    {
        let ghost prev = string_views(r@);
        r.push(v[i].clone());
        assert(string_views(r@) =~= prev.push(string_views(v@)[i as int]));
        assert(string_views(v@).take(i + 1) =~= string_views(v@).take(i as int).push(
            string_views(v@)[i as int],
        ));
        i = i + 1;
    }
    assert(string_views(v@).take(v.len() as int) =~= string_views(v@));
    r
}

/// The draft made of a successful AI extraction: every field the model left
/// empty falls back to the rule-based draft, and the source is `tg`.
pub fn merge_ai_result(ai: AiExtractResult, rule: &ResourceDraft) -> (r: ResourceDraft)
    ensures
        r.title@ == prefer(ai.title@, rule.title@),
        string_views(r.url@) == if ai.url@.len() == 0 {
            string_views(rule.url@)
        } else {
            string_views(ai.url@)
        },
        r.description@ == prefer(ai.description@, rule.description@),
        r.category@ == prefer(ai.category@, rule.category@),
        r.tags@ == prefer(ai.tags@, rule.tags@),
        r.source@ == "tg"@,
{
    let pick = |a: String, b: &String| -> (c: String)
        ensures
            c@ == prefer(a@, b@),
        {
            if a.as_str().unicode_len() == 0 {
                String::from_str(b.as_str())
            } else {
                a
            }
        };
    let url = if ai.url.len() == 0 {
        copy_strings(&rule.url)
    } else {
        ai.url
    };
    ResourceDraft {
        title: pick(ai.title, &rule.title),
        url,
        description: pick(ai.description, &rule.description),
        category: pick(ai.category, &rule.category),
        tags: pick(ai.tags, &rule.tags),
        source: String::from_str("tg"),
    }
}

/// The chat-completions endpoint under a base URL: trailing `/` removed,
/// then `/chat/completions`.
pub fn chat_completions_url(base: &str) -> (r: String)
    ensures
        r@ == trim_end_char(base@, '/') + "/chat/completions"@,
{
    let b = chars_of(base);
    let mut v = trim_end_char_exec(b.as_slice(), '/');
    push_str(&mut v, "/chat/completions");
    string_from_chars(v.as_slice())
}

/// The system prompt: the configured one, or the default when none is set.
pub fn system_prompt(configured: &str) -> (r: String)
    ensures
        r@ == prefer(configured@, DEFAULT_PROMPT@),
{
    if configured.unicode_len() == 0 {
        String::from_str(DEFAULT_PROMPT)
    } else {
        String::from_str(configured)
    }
}

// ---------------------------------------------------------------------------
// Merging drafts of one title
// ---------------------------------------------------------------------------

/// A group of drafts with one title, as merging builds it.
pub struct MergedView {
    pub title: Seq<char>,
    pub urls: Seq<Seq<char>>,
    pub description: Seq<char>,
    /// Category of the group's first draft.
    pub category: Seq<char>,
    pub tags: Seq<char>,
    pub source: Seq<char>,
    /// How many drafts the group holds.
    pub members: nat,
}

pub open spec fn start_group(d: ResourceDraft) -> MergedView {
    MergedView {
        title: d.title@,
        urls: string_views(d.url@),
        description: d.description@,
        category: d.category@,
        tags: d.tags@,
        source: d.source@,
        members: 1,
    }
}

/// `urls` with each of `new` appended, in order, unless already present.
pub open spec fn add_new_urls(urls: Seq<Seq<char>>, new: Seq<Seq<char>>) -> Seq<Seq<char>>
    decreases new.len(),
{
    if new.len() == 0 {
        urls
    } else {
        let u = add_new_urls(urls, new.drop_last());
        if u.contains(new.last()) {
            u
        } else {
            u.push(new.last())
        }
    }
}

proof fn lemma_add_new_urls_grows(urls: Seq<Seq<char>>, new: Seq<Seq<char>>)
    ensures
        add_new_urls(urls, new).len() >= urls.len(),
        forall|k: int| 0 <= k < urls.len() ==> #[trigger] add_new_urls(urls, new)[k] == urls[k],
    decreases new.len(),
{
    if new.len() > 0 {
        lemma_add_new_urls_grows(urls, new.drop_last());
    }
}

/// A group after taking in one more draft: new links appended, empty
/// description and tags filled from it.
pub open spec fn absorb(g: MergedView, d: ResourceDraft) -> MergedView {
    MergedView {
        title: g.title,
        urls: add_new_urls(g.urls, string_views(d.url@)),
        description: if g.description.len() == 0 && d.description@.len() > 0 {
            d.description@
        } else {
            g.description
        },
        category: g.category,
        tags: if g.tags.len() == 0 && d.tags@.len() > 0 {
            d.tags@
        } else {
            g.tags
        },
        source: g.source,
        members: g.members + 1,
    }
}

/// The group whose title is `t`, if any.
pub open spec fn group_of(m: Seq<MergedView>, t: Seq<char>) -> Option<int> {
    if exists|i: int| 0 <= i < m.len() && #[trigger] m[i].title == t {
        Some(choose|i: int| 0 <= i < m.len() && #[trigger] m[i].title == t)
    } else {
        None
    }
}

/// The groups of drafts, in order of first appearance: a draft joins the
/// group of its exact title, or starts one.
pub open spec fn merge_groups(s: Seq<ResourceDraft>) -> Seq<MergedView>
    decreases s.len(),
{
    if s.len() == 0 {
        Seq::empty()
    } else {
        let m = merge_groups(s.drop_last());
        match group_of(m, s.last().title@) {
            Some(i) => m.update(i, absorb(m[i], s.last())),
            None => m.push(start_group(s.last())),
        }
    }
}

pub open spec fn titles_distinct(m: Seq<MergedView>) -> bool {
    forall|i: int, j: int| 0 <= i < j < m.len() ==> #[trigger] m[i].title != #[trigger] m[j].title
}

/// `d` is the draft of group `g`; when the group took in more than one
/// draft and has links, its category is what `identify` gave for the first
/// link.
pub open spec fn draft_of_group<F: Fn(&str) -> String>(d: ResourceDraft, g: MergedView, identify: F) -> bool {
    &&& d.title@ == g.title
    &&& string_views(d.url@) == g.urls
    &&& d.description@ == g.description
    &&& d.tags@ == g.tags
    &&& d.source@ == g.source
    &&& if g.members >= 2 && g.urls.len() > 0 {
        exists|u: &str| u@ == g.urls[0] && #[trigger] call_ensures(identify, (u,), d.category)
    } else {
        d.category@ == g.category
    }
}

proof fn lemma_merge_groups_distinct(s: Seq<ResourceDraft>)
    ensures
        titles_distinct(merge_groups(s)),
        forall|i: int| 0 <= i < merge_groups(s).len() ==> #[trigger] merge_groups(s)[i].members >= 1,
    decreases s.len(),
{
    if s.len() > 0 {
        lemma_merge_groups_distinct(s.drop_last());
        let m = merge_groups(s.drop_last());
        let t = s.last().title@;
        match group_of(m, t) {
            Some(i) => {
                assert(m[i].title == t);
            },
            None => {
                assert forall|i: int| 0 <= i < m.len() implies #[trigger] m[i].title != t by {}
            },
        }
    }
}

/// Whether some string of `v` equals `s`.
fn contains_string(v: &Vec<String>, s: &str) -> (r: bool)
    ensures
        r == string_views(v@).contains(s@),
{
    let mut i: usize = 0;
    while i < v.len()
        invariant
            i <= v.len(),
            forall|k: int| 0 <= k < i ==> v@[k]@ != s@,
        decreases v.len() - i,
    {
        if crate::text::str_eq(v[i].as_str(), s) {
            assert(string_views(v@)[i as int] == s@);
            return true;
        }
        i = i + 1;
    }
    proof {
        if string_views(v@).contains(s@) {
            let k = choose|k: int| 0 <= k < string_views(v@).len() && string_views(v@)[k] == s@;
            assert(v@[k]@ == s@);
        }
    }
    false
}

fn add_urls(urls: &mut Vec<String>, new: &Vec<String>)
    ensures
        string_views(final(urls)@) == add_new_urls(string_views(old(urls)@), string_views(new@)),
{
    let ghost start = string_views(urls@);
    let mut i: usize = 0;
    while i < new.len()
        invariant
            i <= new.len(),
            string_views(urls@) == add_new_urls(start, string_views(new@).take(i as int)),
        decreases new.len() - i,
    {
        let ghost nv = string_views(new@).take(i + 1);
        assert(nv.drop_last() =~= string_views(new@).take(i as int));
        assert(nv.last() == new@[i as int]@);
        if !contains_string(urls, new[i].as_str()) {
            let ghost prev = string_views(urls@);
            urls.push(new[i].clone());
            assert(string_views(urls@) =~= prev.push(new@[i as int]@));
        }
        i = i + 1;
    }
    assert(string_views(new@).take(new.len() as int) =~= string_views(new@));
}

fn copy_draft(d: &ResourceDraft) -> (r: ResourceDraft)
    ensures
        r.title@ == d.title@,
        string_views(r.url@) == string_views(d.url@),
        r.description@ == d.description@,
        r.category@ == d.category@,
        r.tags@ == d.tags@,
        r.source@ == d.source@,
{
    ResourceDraft {
        title: d.title.clone(),
        url: copy_strings(&d.url),
        description: d.description.clone(),
        category: d.category.clone(),
        tags: d.tags.clone(),
        source: d.source.clone(),
    }
}

/// Merges drafts of the same title (a model may split one resource into one
/// record per link): each group keeps its first draft and takes in the new
/// links, and the description and tags it lacked, of the later ones; a
/// group that took in another draft gets the category `identify` gives for
/// its first link. Groups come in order of first appearance, and no two
/// share a title.
pub fn merge_same_title_resources<F: Fn(&str) -> String>(resources: Vec<ResourceDraft>, identify: F) -> (r: Vec<ResourceDraft>)
    requires
        forall|u: &str| #[trigger] call_requires(identify, (u,)),
    ensures
        r@.len() == merge_groups(resources@).len(),
        forall|k: int| 0 <= k < r@.len() ==> draft_of_group(#[trigger] r@[k], merge_groups(resources@)[k], identify),
        titles_distinct(merge_groups(resources@)),
{
    let mut merged: Vec<ResourceDraft> = Vec::new();
    let mut i: usize = 0;
    while i < resources.len()
        invariant
            i <= resources.len(),
            forall|u: &str| #[trigger] call_requires(identify, (u,)),
            merged@.len() == merge_groups(resources@.take(i as int)).len(),
            forall|k: int| 0 <= k < merged@.len() ==> draft_of_group(#[trigger] merged@[k], merge_groups(resources@.take(i as int))[k], identify),
        decreases resources.len() - i,
    {
        let ghost s = resources@.take(i + 1);
        let ghost m = merge_groups(resources@.take(i as int));
        assert(s.drop_last() =~= resources@.take(i as int));
        assert(s.last() == resources@[i as int]);
        proof {
            lemma_merge_groups_distinct(resources@.take(i as int));
        }
        let r = &resources[i];
        let mut j: usize = 0;
        let mut found: Option<usize> = None;
        while j < merged.len()
            invariant_except_break
                found is None,
            invariant
                j <= merged.len(),
                merged@.len() == m.len(),
                forall|k: int| 0 <= k < merged@.len() ==> #[trigger] merged@[k].title@ == m[k].title,
                forall|k: int| 0 <= k < j ==> m[k].title != r.title@,
            ensures
                match found {
                    Some(x) => x < m.len() && m[x as int].title == r.title@,
                    None => forall|k: int| 0 <= k < m.len() ==> m[k].title != r.title@,
                },
            decreases merged.len() - j,
        {
            if crate::text::str_eq(merged[j].title.as_str(), r.title.as_str()) {
                assert(merged@[j as int].title@ == m[j as int].title);
                found = Some(j);
                break;
            }
            j = j + 1;
        }
        match found {
            Some(idx) => {
                proof {
                    assert(m[idx as int].title == r.title@);
                    let c = choose|c: int| 0 <= c < m.len() && #[trigger] m[c].title == r.title@;
                    assert(c == idx as int);
                }
                let ghost target = absorb(m[idx as int], *r);
                proof {
                    lemma_add_new_urls_grows(m[idx as int].urls, string_views(r.url@));
                    assert(m[idx as int].members >= 1);
                }
                assert(draft_of_group(merged@[idx as int], m[idx as int], identify));
                let mut g = copy_draft(&merged[idx]);
                add_urls(&mut g.url, &r.url);
                assert(string_views(g.url@) == target.urls);
                if g.description.as_str().unicode_len() == 0 && r.description.as_str().unicode_len() > 0 {
                    g.description = r.description.clone();
                }
                if g.tags.as_str().unicode_len() == 0 && r.tags.as_str().unicode_len() > 0 {
                    g.tags = r.tags.clone();
                }
                if g.url.len() > 0 {
                    let u: &str = g.url[0].as_str();
                    let c = identify(u);
                    assert(u@ == string_views(g.url@)[0]);
                    assert(call_ensures(identify, (u,), c));
                    g.category = c;
                    assert(u@ == target.urls[0]);
                    assert(call_ensures(identify, (u,), g.category));
                    assert(exists|w: &str| w@ == target.urls[0] && #[trigger] call_ensures(identify, (w,), g.category));
                }
                assert(draft_of_group(g, target, identify));
                let ghost old_merged = merged@;
                merged.set(idx, g);
                proof {
                    let nm = m.update(idx as int, target);
                    assert(merge_groups(s) == nm);
                    assert forall|k: int| 0 <= k < merged@.len() implies draft_of_group(#[trigger] merged@[k], nm[k], identify) by {
                        if k != idx {
                            assert(merged@[k] == old_merged[k]);
                        }
                    }
                }
            },
            None => {
                proof {
                    assert forall|c: int| 0 <= c < m.len() implies #[trigger] m[c].title != r.title@ by {}
                }
                let g = copy_draft(r);
                merged.push(g);
                proof {
                    let nm = m.push(start_group(*r));
                    assert(merge_groups(s) == nm);
                    assert forall|k: int| 0 <= k < merged@.len() implies draft_of_group(#[trigger] merged@[k], nm[k], identify) by {
                        if k < m.len() {
                            assert(merged@[k] == merged@.drop_last()[k]);
                        }
                    }
                }
            },
        }
        i = i + 1;
    }
    assert(resources@.take(resources.len() as int) =~= resources@);
    proof {
        lemma_merge_groups_distinct(resources@);
    }
    merged
}

proof fn lemma_add_new_urls_covers(urls: Seq<Seq<char>>, new: Seq<Seq<char>>)
    ensures
        forall|x: Seq<char>| urls.contains(x) ==> #[trigger] add_new_urls(urls, new).contains(x),
        forall|j: int| 0 <= j < new.len() ==> add_new_urls(urls, new).contains(#[trigger] new[j]),
    decreases new.len(),
{
    if new.len() > 0 {
        let p = new.drop_last();
        lemma_add_new_urls_covers(urls, p);
        let u = add_new_urls(urls, p);
        assert forall|x: Seq<char>| u.contains(x) implies #[trigger] add_new_urls(urls, new).contains(x) by {
            let k = choose|k: int| 0 <= k < u.len() && u[k] == x;
            if !u.contains(new.last()) {
                assert(u.push(new.last())[k] == x);
            }
        }
        assert forall|j: int| 0 <= j < new.len() implies add_new_urls(urls, new).contains(#[trigger] new[j]) by {
            if j < p.len() {
                assert(p[j] == new[j]);
                assert(u.contains(p[j]));
            } else if !u.contains(new.last()) {
                assert(u.push(new.last())[u.len() as int] == new.last());
            }
        }
    }
}

/// Merging loses neither a title nor a link: every draft's title is the
/// title of one group, and each of the draft's links is among that group's
/// links.
pub proof fn lemma_merge_keeps_titles_and_links(s: Seq<ResourceDraft>)
    ensures
        forall|i: int| #![trigger s[i]] 0 <= i < s.len() ==> {
            &&& group_of(merge_groups(s), s[i].title@) is Some
            &&& forall|j: int| 0 <= j < s[i].url@.len() ==> merge_groups(s)[group_of(
                merge_groups(s),
                s[i].title@,
            ).unwrap()].urls.contains(#[trigger] s[i].url@[j]@)
        },
    decreases s.len(),
{
    if s.len() > 0 {
        let p = s.drop_last();
        lemma_merge_keeps_titles_and_links(p);
        lemma_merge_groups_distinct(p);
        lemma_merge_groups_distinct(s);
        let m = merge_groups(p);
        let d = s.last();
        let n = merge_groups(s);
        let gi = group_of(m, d.title@);
        assert forall|i: int| #![trigger s[i]] 0 <= i < s.len() implies {
            &&& group_of(n, s[i].title@) is Some
            &&& forall|j: int| 0 <= j < s[i].url@.len() ==> n[group_of(n, s[i].title@).unwrap()].urls.contains(
                #[trigger] s[i].url@[j]@,
            )
        } by {
            let t = s[i].title@;
            if i < p.len() {
                assert(s[i] == p[i]);
                let k = group_of(m, t).unwrap();
                assert(m[k].title == t);
                match gi {
                    Some(g) => {
                        lemma_add_new_urls_covers(m[g].urls, string_views(d.url@));
                        assert(n[k].title == t);
                    },
                    None => {
                        assert(n[k] == m[k]);
                    },
                }
                assert(n[k].title == t);
                let kk = group_of(n, t).unwrap();
                assert(n[kk].title == t);
                assert(kk == k);
                assert forall|j: int| 0 <= j < s[i].url@.len() implies n[k].urls.contains(#[trigger] s[i].url@[j]@) by {
                    assert(m[k].urls.contains(p[i].url@[j]@));
                }
            } else {
                assert(s[i] == d);
                let k: int = match gi {
                    Some(g) => g,
                    None => m.len() as int,
                };
                lemma_add_new_urls_covers(if gi is Some { m[k].urls } else { Seq::empty() }, string_views(d.url@));
                assert(n[k].title == t);
                let kk = group_of(n, t).unwrap();
                assert(n[kk].title == t);
                assert(kk == k);
                assert forall|j: int| 0 <= j < s[i].url@.len() implies n[k].urls.contains(#[trigger] s[i].url@[j]@) by {
                    assert(string_views(d.url@)[j] == d.url@[j]@);
                    if gi is None {
                        assert(n[k].urls == string_views(d.url@));
                        assert(n[k].urls[j] == d.url@[j]@);
                    }
                }
            }
        }
    }
}

// ---------------------------------------------------------------------------
// Reading the fields of a reply
// ---------------------------------------------------------------------------

/// A member read as one string: strings and numbers as their text, booleans
/// as `true` / `false`, arrays and objects as their items joined with `,`;
/// nothing for `null` or a missing member.
pub open spec fn field_string(f: Option<JsonFieldView>) -> Option<Seq<char>> {
    match f {
        Some(JsonFieldView::Str(s)) => Some(s),
        Some(JsonFieldView::Number(n)) => Some(n),
        Some(JsonFieldView::Bool(b)) => Some(if b { "true"@ } else { "false"@ }),
        Some(JsonFieldView::Array(items)) => Some(join(items, ","@)),
        Some(JsonFieldView::Object(items)) => Some(join(items, ","@)),
        _ => None,
    }
}

/// Trimmed pieces with the empty ones dropped.
pub open spec fn trimmed_nonempty(ps: Seq<Seq<char>>) -> Seq<Seq<char>>
    decreases ps.len(),
{
    if ps.len() == 0 {
        Seq::empty()
    } else {
        let r = trimmed_nonempty(ps.drop_last());
        if trim(ps.last()).len() == 0 {
            r
        } else {
            r.push(trim(ps.last()))
        }
    }
}

/// `s.split(',')`, each piece trimmed, empty pieces dropped.
pub open spec fn comma_list(s: Seq<char>) -> Seq<Seq<char>> {
    trimmed_nonempty(split_char(s, ','))
}

/// A member read as a list of strings: an array's items, or a string split
/// at commas; empty otherwise.
pub open spec fn field_strings(f: Option<JsonFieldView>) -> Seq<Seq<char>> {
    match f {
        Some(JsonFieldView::Array(items)) => items,
        Some(JsonFieldView::Str(s)) => comma_list(s),
        _ => Seq::empty(),
    }
}

pub open spec fn opt_view(o: Option<String>) -> Option<Seq<char>> {
    match o {
        Some(s) => Some(s@),
        None => None,
    }
}

fn joined(items: &Vec<String>, sep: &str) -> (r: String)
    ensures
        r@ == join(string_views(items@), sep@),
{
    let mut parts: Vec<Vec<char>> = Vec::new();
    let mut i: usize = 0;
    while i < items.len()
        invariant
            i <= items.len(),
            views(parts@) == string_views(items@).take(i as int),
        decreases items.len() - i,
    {
        let ghost prev = views(parts@);
        parts.push(chars_of(items[i].as_str()));
        assert(views(parts@) =~= prev.push(string_views(items@)[i as int]));
        assert(string_views(items@).take(i + 1) =~= string_views(items@).take(i as int).push(
            string_views(items@)[i as int],
        ));
        i = i + 1;
    }
    assert(string_views(items@).take(items.len() as int) =~= string_views(items@));
    let sv = chars_of(sep);
    let v = join_exec(&parts, sv.as_slice());
    string_from_chars(v.as_slice())
}

/// `s.split(',').map(str::trim).filter(non-empty)`.
pub fn split_comma_list(s: &str) -> (r: Vec<String>)
    ensures
        string_views(r@) == comma_list(s@),
{
    let pieces = split_exec(chars_of(s).as_slice(), ',');
    let mut out: Vec<String> = Vec::new();
    let mut i: usize = 0;
    while i < pieces.len()
        invariant
            i <= pieces.len(),
            views(pieces@) == split_char(s@, ','),
            string_views(out@) == trimmed_nonempty(views(pieces@).take(i as int)),
        decreases pieces.len() - i,
    {
        let ghost pv = views(pieces@);
        assert(pv.take(i + 1).drop_last() =~= pv.take(i as int));
        assert(pv.take(i + 1).last() == pieces@[i as int]@);
        let t = trim_chars(pieces[i].as_slice());
        if t.len() > 0 {
            let ghost prev = string_views(out@);
            out.push(string_from_chars(t.as_slice()));
            assert(string_views(out@) =~= prev.push(t@));
        }
        i = i + 1;
    }
    assert(views(pieces@).take(pieces.len() as int) =~= views(pieces@));
    out
}

/// The member `key` of an object read as one string (see [`field_string`]).
pub fn extract_string(field: Option<JsonField>) -> (r: Option<String>)
    ensures
        opt_view(r) == field_string(
            match field {
                Some(f) => Some(field_view(f)),
                None => None,
            },
        ),
{
    match field {
        Some(JsonField::Str(s)) => Some(s),
        Some(JsonField::Number(n)) => Some(n),
        Some(JsonField::Bool(b)) => Some(if b { String::from_str("true") } else { String::from_str("false") }),
        Some(JsonField::Array(items)) => Some(joined(&items, ",")),
        Some(JsonField::Object(items)) => Some(joined(&items, ",")),
        _ => None,
    }
}

/// The member `key` of an object read as a list (see [`field_strings`]).
pub fn extract_string_array(field: Option<JsonField>) -> (r: Vec<String>)
    ensures
        string_views(r@) == field_strings(
            match field {
                Some(f) => Some(field_view(f)),
                None => None,
            },
        ),
{
    match field {
        Some(JsonField::Array(items)) => items,
        Some(JsonField::Str(s)) => split_comma_list(s.as_str()),
        _ => {
            let v: Vec<String> = Vec::new();
            assert(string_views(v@) =~= Seq::<Seq<char>>::empty());
            v
        },
    }
}

/// The member `key` of the object in `text`, read as one string.
pub open spec fn member_string(text: Seq<char>, key: Seq<char>) -> Option<Seq<char>> {
    field_string(json_member(text, key))
}

pub open spec fn or_empty(o: Option<Seq<char>>) -> Seq<char> {
    match o {
        Some(s) => s,
        None => Seq::empty(),
    }
}

fn member_string_exec(text: &str, key: &str) -> (r: Option<String>)
    ensures
        opt_view(r) == member_string(text@, key@),
{
    extract_string(json_field(text, key))
}

fn unwrap_or_empty(o: Option<String>) -> (r: String)
    ensures
        r@ == or_empty(opt_view(o)),
{
    match o {
        Some(s) => s,
        None => String::new(),
    }
}

/// The message for a reply whose JSON does not parse.
pub open spec fn bad_reply_message(prefix: Seq<char>, json: Seq<char>) -> Seq<char> {
    prefix + json_error_message(json) + "\n原始内容: "@ + json
}

fn bad_reply(prefix: &str, e: &str, json: &str) -> (r: String)
    ensures
        r@ == prefix@ + e@ + "\n原始内容: "@ + json@,
{
    let mut m: Vec<char> = Vec::new();
    push_str(&mut m, prefix);
    push_str(&mut m, e);
    push_str(&mut m, "\n原始内容: ");
    push_str(&mut m, json);
    string_from_chars(m.as_slice())
}

/// Reads the JSON object of a single-resource reply: `title`,
/// `description`, `category` and `tags` as strings (empty when missing),
/// `url` as a list.
pub fn ai_result_from_json(json_str: &str) -> (r: Result<AiExtractResult, String>)
    ensures
        !json_whole_parses(json_str@) ==> (r matches Err(m) && m@ == bad_reply_message(
            "解析 AI 返回 JSON 失败: "@,
            json_str@,
        )),
        json_whole_parses(json_str@) ==> (r matches Ok(a) && {
            &&& a.title@ == or_empty(member_string(json_str@, "title"@))
            &&& string_views(a.url@) == field_strings(json_member(json_str@, "url"@))
            &&& a.description@ == or_empty(member_string(json_str@, "description"@))
            &&& a.category@ == or_empty(member_string(json_str@, "category"@))
            &&& a.tags@ == or_empty(member_string(json_str@, "tags"@))
        }),
{
    match json_parse(json_str) {
        Err(e) => Err(bad_reply("解析 AI 返回 JSON 失败: ", e.as_str(), json_str)),
        Ok(_) => Ok(
            AiExtractResult {
                title: unwrap_or_empty(member_string_exec(json_str, "title")),
                url: extract_string_array(json_field(json_str, "url")),
                description: unwrap_or_empty(member_string_exec(json_str, "description")),
                category: unwrap_or_empty(member_string_exec(json_str, "category")),
                tags: unwrap_or_empty(member_string_exec(json_str, "tags")),
            },
        ),
    }
}

pub open spec fn or_opt(a: Option<Seq<char>>, b: Option<Seq<char>>) -> Option<Seq<char>> {
    match a {
        Some(x) => Some(x),
        None => b,
    }
}

/// Title of a batch item: member `t`, else `title`.
pub open spec fn item_title(t: Seq<char>) -> Seq<char> {
    or_empty(or_opt(member_string(t, "t"@), member_string(t, "title"@)))
}

/// Links of a batch item: member `u` (else `url`) read as one string; when
/// that is empty, `url` read as a list; when it starts with `http`, that
/// one link; else its comma-separated pieces.
pub open spec fn item_urls(t: Seq<char>) -> Seq<Seq<char>> {
    let raw = or_empty(or_opt(member_string(t, "u"@), member_string(t, "url"@)));
    if raw.len() == 0 {
        field_strings(json_member(t, "url"@))
    } else if starts_with(raw, "http"@) {
        seq![raw]
    } else {
        comma_list(raw)
    }
}

/// `d` is the draft of the batch item whose JSON text is `t`; its category
/// is what `identify` gave for its first link (empty without links).
pub open spec fn draft_of_item<F: Fn(&str) -> String>(d: ResourceDraft, t: Seq<char>, identify: F) -> bool {
    &&& d.title@ == item_title(t)
    &&& string_views(d.url@) == item_urls(t)
    &&& d.description@ == or_empty(member_string(t, "d"@))
    &&& d.tags@ == or_empty(member_string(t, "tags"@))
    &&& d.source@ == "tg"@
    &&& if item_urls(t).len() > 0 {
        exists|u: &str| u@ == item_urls(t)[0] && #[trigger] call_ensures(identify, (u,), d.category)
    } else {
        d.category@ == Seq::<char>::empty()
    }
}

fn draft_from_item<F: Fn(&str) -> String>(item: &str, identify: &F) -> (d: ResourceDraft)
    requires
        forall|u: &str| #[trigger] call_requires(*identify, (u,)),
    ensures
        draft_of_item(d, item@, *identify),
{
    let title = match member_string_exec(item, "t") {
        Some(x) => x,
        None => unwrap_or_empty(member_string_exec(item, "title")),
    };
    let raw = match member_string_exec(item, "u") {
        Some(x) => x,
        None => unwrap_or_empty(member_string_exec(item, "url")),
    };
    let rv = chars_of(raw.as_str());
    let http: [char; 4] = ['h', 't', 't', 'p'];
    proof {
        reveal_strlit("http");
    }
    assert(http@ =~= "http"@);
    let urls: Vec<String> = if rv.len() == 0 {
        extract_string_array(json_field(item, "url"))
    } else if starts_with_exec(rv.as_slice(), &http) {
        let mut v: Vec<String> = Vec::new();
        v.push(raw);
        assert(string_views(v@) =~= seq![rv@]);
        v
    } else {
        split_comma_list(raw.as_str())
    };
    let category = if urls.len() > 0 {
        let u: &str = urls[0].as_str();
        let c = identify(u);
        assert(u@ == string_views(urls@)[0]);
        assert(call_ensures(*identify, (u,), c));
        assert(exists|w: &str| w@ == string_views(urls@)[0] && #[trigger] call_ensures(*identify, (w,), c));
        c
    } else {
        String::new()
    };
    let ghost uv = string_views(urls@);
    let ghost cat = category;
    assert(uv.len() > 0 ==> exists|w: &str| w@ == uv[0] && #[trigger] call_ensures(*identify, (w,), cat));
    let d = ResourceDraft {
        title,
        url: urls,
        description: unwrap_or_empty(member_string_exec(item, "d")),
        category,
        tags: unwrap_or_empty(member_string_exec(item, "tags")),
        source: String::from_str("tg"),
    };
    assert(d.title@ == item_title(item@));
    assert(string_views(d.url@) == item_urls(item@));
    assert(d.description@ == or_empty(member_string(item@, "d"@)));
    assert(d.tags@ == or_empty(member_string(item@, "tags"@)));
    assert(d.source@ == "tg"@);
    proof {
        if item_urls(item@).len() > 0 {
            assert(string_views(d.url@)[0] == item_urls(item@)[0]);
            assert(d.category == cat);
            assert(uv == item_urls(item@));
            let w = choose|w: &str| w@ == uv[0] && #[trigger] call_ensures(*identify, (w,), cat);
            assert(call_ensures(*identify, (w,), d.category));
        } else {
            assert(d.category@ == Seq::<char>::empty());
        }
    }
    d
}

/// Reads the JSON array of a batch reply: one draft per item (see
/// [`draft_of_item`]), then drafts of the same title merged (see
/// [`merge_same_title_resources`]).
pub fn drafts_from_batch_json<F: Fn(&str) -> String>(json_str: &str, identify: F) -> (r: Result<Vec<ResourceDraft>, String>)
    requires
        forall|u: &str| #[trigger] call_requires(identify, (u,)),
    ensures
        !json_whole_parses(json_str@) ==> (r matches Err(m) && m@ == bad_reply_message(
            "解析 AI 批量返回 JSON 失败: "@,
            json_str@,
        )),
        json_whole_parses(json_str@) && json_array_items(json_str@) is None ==> (r matches Err(m)
            && m@ == "AI 批量返回不是 JSON 数组"@),
        json_whole_parses(json_str@) && json_array_items(json_str@) is Some ==> (r matches Ok(v)
            && exists|ds: Seq<ResourceDraft>| #![trigger merge_groups(ds)] {
            let items = json_array_items(json_str@).unwrap();
            &&& ds.len() == items.len()
            &&& forall|k: int| 0 <= k < ds.len() ==> draft_of_item(#[trigger] ds[k], items[k], identify)
            &&& v@.len() == merge_groups(ds).len()
            &&& forall|k: int| 0 <= k < v@.len() ==> draft_of_group(#[trigger] v@[k], merge_groups(ds)[k], identify)
        }),
{
    if let Err(e) = json_parse(json_str) {
        return Err(bad_reply("解析 AI 批量返回 JSON 失败: ", e.as_str(), json_str));
    }
    let items = match json_array_texts(json_str) {
        Some(v) => v,
        None => return Err(String::from_str("AI 批量返回不是 JSON 数组")),
    };
    let ghost iv = string_views(items@);
    let mut results: Vec<ResourceDraft> = Vec::new();
    let mut i: usize = 0;
    while i < items.len()
        invariant
            i <= items.len(),
            iv == string_views(items@),
            forall|u: &str| #[trigger] call_requires(identify, (u,)),
            results@.len() == i,
            forall|k: int| 0 <= k < i ==> draft_of_item(#[trigger] results@[k], iv[k], identify),
        decreases items.len() - i,
    {
        let d = draft_from_item(items[i].as_str(), &identify);
        assert(items@[i as int]@ == iv[i as int]);
        results.push(d);
        proof {
            assert forall|k: int| 0 <= k < i + 1 implies draft_of_item(#[trigger] results@[k], iv[k], identify) by {
                if k < i {
                    assert(results@[k] == results@.drop_last()[k]);
                }
            }
        }
        i = i + 1;
    }
    let ghost ds = results@;
    let merged = merge_same_title_resources(results, identify);
    assert(ds.len() == iv.len());
    Ok(merged)
}

// ---------------------------------------------------------------------------
// Request decisions
// ---------------------------------------------------------------------------

/// Whether the `push_ai_use_proxy` option turns the proxy on: `1` or `true`.
pub fn proxy_enabled(option: Option<&str>) -> (r: bool)
    ensures
        r == (option matches Some(v) && (v@ == "1"@ || v@ == "true"@)),
{
    match option {
        Some(v) => crate::text::str_eq(v, "1") || crate::text::str_eq(v, "true"),
        None => false,
    }
}

/// The proxy a request goes through: the configured URL, when the proxy is
/// on and the URL is set.
pub fn proxy_arg(enabled: bool, url: &str) -> (r: Option<&str>)
    ensures
        r is Some <==> enabled && url@.len() > 0,
        r matches Some(u) ==> u@ == url@,
{
    if enabled && url.unicode_len() > 0 {
        Some(url)
    } else {
        None
    }
}

/// How many endpoints one extraction tries: all of them, at most three.
pub fn attempt_limit(endpoints: usize) -> (r: usize)
    ensures
        r == if endpoints < 3 { endpoints } else { 3 },
{
    if endpoints < 3 {
        endpoints
    } else {
        3
    }
}

/// The same draft, field by field.
pub open spec fn same_draft(a: ResourceDraft, b: ResourceDraft) -> bool {
    &&& a.title@ == b.title@
    &&& string_views(a.url@) == string_views(b.url@)
    &&& a.description@ == b.description@
    &&& a.category@ == b.category@
    &&& a.tags@ == b.tags@
    &&& a.source@ == b.source@
}

/// The drafts of a batch extraction: the model's when it found any, else
/// the rule-based ones.
pub fn batch_outcome(ai: Vec<ResourceDraft>, rule: &[ResourceDraft]) -> (r: Vec<ResourceDraft>)
    ensures
        ai@.len() > 0 ==> r@ == ai@,
        ai@.len() == 0 ==> r@.len() == rule@.len() && forall|k: int| 0 <= k < rule@.len() ==> same_draft(#[trigger] r@[k], rule@[k]),
{
    if ai.len() > 0 {
        return ai;
    }
    let mut out: Vec<ResourceDraft> = Vec::new();
    let mut i: usize = 0;
    while i < rule.len()
        invariant
            i <= rule.len(),
            out@.len() == i,
            forall|k: int| 0 <= k < i ==> same_draft(#[trigger] out@[k], rule@[k]),
        decreases rule.len() - i,
    {
        out.push(copy_draft(&rule[i]));
        proof {
            assert forall|k: int| 0 <= k < i + 1 implies same_draft(#[trigger] out@[k], rule@[k]) by {
                if k < i {
                    assert(out@[k] == out@.drop_last()[k]);
                }
            }
        }
        i = i + 1;
    }
    out
}

} // verus!
