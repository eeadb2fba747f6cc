//! Message collection: inlining the hidden links of a chat message into its
//! text before the message is stored.
//!
//! A link entity gives a UTF-16 offset and length into the message text and
//! a URL; the text it covers becomes `[text](url)`.
use vstd::prelude::*;
use vstd::utf8::encode_utf8;
use crate::text::{
    int_decimal, push_signed_decimal, byte_to_char_index, char_index_at_byte, chars_byte_count, chars_of, push_all, push_str,
    slice_range, str_byte_len, string_from_chars, u16_char_index, u16_count, u16_len,
    u16_position,
};

verus! {

/// A link entity as views: UTF-16 offset, UTF-16 length, URL.
pub type LinkView = (i32, i32, Seq<char>);

pub open spec fn link_view(l: (i32, i32, String)) -> LinkView {
    (l.0, l.1, l.2@)
}

pub open spec fn links_view(v: Seq<(i32, i32, String)>) -> Seq<LinkView> {
    Seq::new(v.len(), |i: int| link_view(v[i]))
}

// ---------------------------------------------------------------------------
// Order of replacement
// ---------------------------------------------------------------------------

/// The position at which `x` enters a list sorted by decreasing offset:
/// after every entry whose offset is at least its own.
pub open spec fn insert_pos(sorted: Seq<LinkView>, x: LinkView, j: int) -> int
    decreases sorted.len() - j,
{
    if j >= sorted.len() || j < 0 || sorted[j].0 < x.0 {
        j
    } else {
        insert_pos(sorted, x, j + 1)
    }
}

/// The links sorted by decreasing offset, links with equal offsets keeping
/// their order (a stable sort).
pub open spec fn sort_by_offset_desc(links: Seq<LinkView>) -> Seq<LinkView>
    decreases links.len(),
{
    if links.len() == 0 {
        Seq::empty()
    } else {
        let prev = sort_by_offset_desc(links.drop_last());
        prev.insert(insert_pos(prev, links.last(), 0), links.last())
    }
}

proof fn lemma_insert_pos_bounds(sorted: Seq<LinkView>, x: LinkView, j: int)
    requires
        0 <= j <= sorted.len(),
    ensures
        j <= insert_pos(sorted, x, j) <= sorted.len(),
        forall|q: int| j <= q < insert_pos(sorted, x, j) ==> sorted[q].0 >= x.0,
        insert_pos(sorted, x, j) < sorted.len() ==> sorted[insert_pos(sorted, x, j)].0 < x.0,
    decreases sorted.len() - j,
{
    if j < sorted.len() && !(sorted[j].0 < x.0) {
        lemma_insert_pos_bounds(sorted, x, j + 1);
    }
}

proof fn lemma_sort_len(links: Seq<LinkView>)
    ensures
        sort_by_offset_desc(links).len() == links.len(),
    decreases links.len(),
{
    if links.len() > 0 {
        lemma_sort_len(links.drop_last());
        lemma_insert_pos_bounds(sort_by_offset_desc(links.drop_last()), links.last(), 0);
    }
}

proof fn lemma_insert_pos_desc(t: Seq<LinkView>, x: LinkView, j: int)
    requires
        0 <= j <= t.len(),
        forall|a: int, b: int| 0 <= a < b < t.len() ==> #[trigger] t[a].0 >= #[trigger] t[b].0,
        forall|q: int| 0 <= q < j ==> #[trigger] t[q].0 >= x.0,
    ensures
        forall|q: int| 0 <= q < insert_pos(t, x, j) ==> #[trigger] t[q].0 >= x.0,
        forall|q: int| insert_pos(t, x, j) <= q < t.len() ==> #[trigger] t[q].0 < x.0,
    decreases t.len() - j,
{
    lemma_insert_pos_bounds(t, x, j);
    if j < t.len() && !(t[j].0 < x.0) {
        lemma_insert_pos_desc(t, x, j + 1);
    }
}

/// Links are replaced from the highest offset down: the replacement order
/// is by decreasing offset and holds every given link as often as given.
pub proof fn lemma_sort_links_order(links: Seq<LinkView>)
    ensures
        forall|a: int, b: int| 0 <= a < b < sort_by_offset_desc(links).len()
            ==> #[trigger] sort_by_offset_desc(links)[a].0 >= #[trigger] sort_by_offset_desc(links)[b].0,
        sort_by_offset_desc(links).to_multiset() == links.to_multiset(),
    decreases links.len(),
{
    broadcast use vstd::seq_lib::to_multiset_insert, vstd::seq_lib::to_multiset_build;
    if links.len() > 0 {
        let t = sort_by_offset_desc(links.drop_last());
        let x = links.last();
        lemma_sort_links_order(links.drop_last());
        lemma_insert_pos_desc(t, x, 0);
        lemma_insert_pos_bounds(t, x, 0);
        let p = insert_pos(t, x, 0);
        let r = t.insert(p, x);
        assert forall|a: int, b: int| 0 <= a < b < r.len() implies #[trigger] r[a].0 >= #[trigger] r[b].0 by {
            if b < p {
                assert(r[a] == t[a] && r[b] == t[b]);
            } else if b == p {
                assert(r[a] == t[a]);
            } else if a < p {
                assert(r[a] == t[a] && r[b] == t[b - 1]);
            } else if a == p {
                assert(r[b] == t[b - 1]);
            } else {
                assert(r[a] == t[a - 1] && r[b] == t[b - 1]);
            }
        }
        assert(r == sort_by_offset_desc(links));
        assert(links =~= links.drop_last().push(x));
        vstd::seq_lib::to_multiset_insert(t, p, x);
        vstd::seq_lib::to_multiset_build(links.drop_last(), x);
    } else {
        assert(links =~= Seq::<LinkView>::empty());
    }
}

fn copy_link(l: &(i32, i32, String)) -> (r: (i32, i32, String))
    ensures
        link_view(r) == link_view(*l),
{
    (l.0, l.1, l.2.clone())
}

/// The links in replacement order: decreasing offset, stable.
pub fn sort_links(links: &[(i32, i32, String)]) -> (r: Vec<(i32, i32, String)>)
    ensures
        links_view(r@) == sort_by_offset_desc(links_view(links@)),
{
    let ghost lv = links_view(links@);
    let mut out: Vec<(i32, i32, String)> = Vec::new();
    let mut i: usize = 0;
    assert(lv.take(0) =~= Seq::<LinkView>::empty());
    assert(links_view(out@) =~= Seq::<LinkView>::empty());
    while i < links.len()
        invariant
            i <= links.len(),
            lv == links_view(links@),
            links_view(out@) == sort_by_offset_desc(lv.take(i as int)),
        decreases links.len() - i,
    {
        let x = copy_link(&links[i]);
        let ghost prev = links_view(out@);
        assert(lv.take(i + 1).drop_last() =~= lv.take(i as int));
        assert(lv.take(i + 1).last() == lv[i as int]);
        proof {
            lemma_sort_len(lv.take(i as int));
            lemma_insert_pos_bounds(prev, link_view(x), 0);
        }
        let mut j: usize = 0;
        while j < out.len() && out[j].0 >= x.0
            invariant
                j <= out.len(),
                prev == links_view(out@),
                insert_pos(prev, link_view(x), j as int) == insert_pos(prev, link_view(x), 0),
            decreases out.len() - j,
        {
            j = j + 1;
        }
        assert(insert_pos(prev, link_view(x), j as int) == j);
        out.insert(j, x);
        assert(links_view(out@) =~= prev.insert(j as int, lv[i as int]));
        i = i + 1;
    }
    assert(lv.take(links.len() as int) =~= lv);
    out
}

// ---------------------------------------------------------------------------
// Replacement
// ---------------------------------------------------------------------------

/// `offset + length`, saturated to the `i32` range.
pub open spec fn saturating_end(offset: i32, length: i32) -> int {
    let e = offset + length;
    if e > i32::MAX {
        i32::MAX as int
    } else if e < i32::MIN {
        i32::MIN as int
    } else {
        e
    }
}

pub open spec fn clamp0(x: int) -> int {
    if x < 0 {
        0
    } else {
        x
    }
}

/// The byte offset in `text` of UTF-16 offset `u`.
pub open spec fn u16_byte_offset(text: Seq<char>, u: int) -> int {
    encode_utf8(text.take(u16_char_index(text, u))).len() as int
}

/// One link applied to `result`, offsets being taken in the unchanged
/// `text`: a link that is empty or reaches past the text, or whose byte
/// range is empty or past the end of `result`, is skipped; otherwise the
/// covered text becomes `[text](url)`. `None` when the byte range does not
/// fall on character boundaries of `result` (the replacement would panic).
pub open spec fn apply_link(text: Seq<char>, result: Seq<char>, link: LinkView) -> Option<Seq<char>> {
    let total = u16_len(text) as int;
    let start = clamp0(link.0 as int);
    let end = clamp0(saturating_end(link.0, link.1));
    if start >= end || start >= total || end > total {
        Some(result)
    } else {
        let b_start = u16_byte_offset(text, start);
        let b_end = u16_byte_offset(text, end);
        if b_start >= b_end || b_end > encode_utf8(result).len() {
            Some(result)
        } else {
            match (char_index_at_byte(result, b_start), char_index_at_byte(result, b_end)) {
                (Some(a), Some(b)) => if a <= b {
                    Some(result.take(a) + seq!['['] + result.subrange(a, b) + seq![']', '('] + link.2 + seq![')']
                        + result.skip(b))
                } else {
                    None
                },
                _ => None,
            }
        }
    }
}

/// The links applied in turn.
pub open spec fn apply_links(text: Seq<char>, result: Seq<char>, links: Seq<LinkView>) -> Option<Seq<char>>
    decreases links.len(),
{
    if links.len() == 0 {
        Some(result)
    } else {
        match apply_link(text, result, links[0]) {
            Some(r) => apply_links(text, r, links.drop_first()),
            None => None,
        }
    }
}

/// The text with its links inlined as `[text](url)`, applied from the
/// highest offset down so that earlier offsets stay valid; `None` where a
/// replacement would cut a character (overlapping links can do so).
pub open spec fn inline_text_urls_spec(text: Seq<char>, links: Seq<LinkView>) -> Option<Seq<char>> {
    if links.len() == 0 {
        Some(text)
    } else {
        apply_links(text, text, sort_by_offset_desc(links))
    }
}

/// One link applied to `result` (see [`apply_link`]).
fn apply_link_exec(tv: &[char], total: u128, result: Vec<char>, link: &(i32, i32, String)) -> (r: Option<Vec<char>>)
    requires
        total == u16_len(tv@),
        encode_utf8(tv@).len() <= usize::MAX,
    ensures
        match r {
            Some(v) => apply_link(tv@, result@, link_view(*link)) == Some(v@),
            None => apply_link(tv@, result@, link_view(*link)) is None,
        },
{
    let offset = link.0 as i64;
    let sum = offset + link.1 as i64;
    let sat = if sum > i32::MAX as i64 {
        i32::MAX as i64
    } else if sum < i32::MIN as i64 {
        i32::MIN as i64
    } else {
        sum
    };
    let start: i64 = if offset < 0 { 0 } else { offset };
    let end: i64 = if sat < 0 { 0 } else { sat };
    if start >= end || start as u128 >= total || end as u128 > total {
        return Some(result);
    }
    let (_ks, b_start) = u16_position(tv, start as u128);
    let (_ke, b_end) = u16_position(tv, end as u128);
    let rlen = chars_byte_count(result.as_slice());
    if b_start >= b_end || b_end as u128 > rlen {
        return Some(result);
    }
    let a = match byte_to_char_index(result.as_slice(), b_start) {
        Some(a) => a,
        None => {
            return None;
        },
    };
    let b = match byte_to_char_index(result.as_slice(), b_end) {
        Some(b) => b,
        None => {
            return None;
        },
    };
    if a > b {
        return None;
    }
    let head = slice_range(result.as_slice(), 0, a);
    let mid = slice_range(result.as_slice(), a, b);
    let tail = slice_range(result.as_slice(), b, result.len());
    let mut out: Vec<char> = Vec::new();
    push_all(&mut out, head.as_slice());
    out.push('[');
    push_all(&mut out, mid.as_slice());
    out.push(']');
    out.push('(');
    push_str(&mut out, link.2.as_str());
    out.push(')');
    push_all(&mut out, tail.as_slice());
    assert(head@ =~= result@.take(a as int));
    assert(tail@ =~= result@.skip(b as int));
    assert(out@ =~= result@.take(a as int) + seq!['['] + result@.subrange(a as int, b as int) + seq![']', '(']
        + link.2@ + seq![')'] + result@.skip(b as int));
    Some(out)
}

/// The text with its link entities inlined as `[text](url)`, or `None`
/// where a replacement would cut a character (see [`inline_text_urls_spec`]).
pub fn inline_text_urls_checked(text: &str, links: &[(i32, i32, String)]) -> (r: Option<String>)
    ensures
        match r {
            Some(s) => inline_text_urls_spec(text@, links_view(links@)) == Some(s@),
            None => inline_text_urls_spec(text@, links_view(links@)) is None,
        },
{
    if links.len() == 0 {
        return Some(String::from_str(text));
    }
    let tv = chars_of(text);
    let _ = str_byte_len(text);
    let total = u16_count(tv.as_slice());
    let sorted = sort_links(links);
    let ghost sv = links_view(sorted@);
    let mut result = chars_of(text);
    let mut i: usize = 0;
    assert(sv.skip(0) =~= sv);
    while i < sorted.len()
        invariant
            i <= sorted.len(),
            tv@ == text@,
            total == u16_len(tv@),
            encode_utf8(tv@).len() <= usize::MAX,
            sv == links_view(sorted@),
            sv == sort_by_offset_desc(links_view(links@)),
            links@.len() > 0,
            apply_links(tv@, result@, sv.skip(i as int)) == inline_text_urls_spec(text@, links_view(links@)),
        decreases sorted.len() - i,
    {
        assert(sv.skip(i as int)[0] == link_view(sorted@[i as int]));
        assert(sv.skip(i as int).drop_first() =~= sv.skip(i + 1));
        match apply_link_exec(tv.as_slice(), total, result, &sorted[i]) {
            Some(v) => {
                result = v;
            },
            None => {
                return None;
            },
        }
        i = i + 1;
    }
    Some(string_from_chars(result.as_slice()))
}

/// Inlines the link entities of a message into its text as `[text](url)`.
/// Entities that are empty or reach past the text are ignored.
pub fn inline_text_urls(text: &str, links: &[(i32, i32, String)]) -> (r: String)
    requires
        inline_text_urls_spec(text@, links_view(links@)) is Some,
    ensures
        inline_text_urls_spec(text@, links_view(links@)) == Some(r@),
{
    match inline_text_urls_checked(text, links) {
        Some(s) => s,
        None => vstd::pervasive::unreached(),
    }
}

// ---------------------------------------------------------------------------
// Messages
// ---------------------------------------------------------------------------

/// A formatting entity of a chat message as collection reads it: a hidden
/// link with its UTF-16 offset, UTF-16 length and URL, or any other kind.
#[derive(Debug, Clone, PartialEq, Eq)]
pub enum MessageEntity {
    TextUrl { offset: i32, length: i32, url: String },
    Other,
}

/// The media of a chat message as collection reads it.
#[derive(Debug, Clone, PartialEq, Eq)]
pub enum MessageMedia {
    Photo { id: i64 },
    Document { name: String },
    Other,
}

/// The hidden links among the entities, in order.
pub open spec fn text_url_links(es: Seq<MessageEntity>) -> Seq<LinkView>
    decreases es.len(),
{
    if es.len() == 0 {
        Seq::empty()
    } else {
        let p = text_url_links(es.drop_last());
        match es.last() {
            MessageEntity::TextUrl { offset, length, url } => p.push((offset, length, url@)),
            MessageEntity::Other => p,
        }
    }
}

/// The text a message is stored with: without entities, its text; else the
/// text with its hidden links inlined (see [`inline_text_urls`]).
pub open spec fn message_text_spec(text: Seq<char>, entities: Option<Seq<MessageEntity>>) -> Option<Seq<char>> {
    match entities {
        Some(es) => if es.len() > 0 {
            inline_text_urls_spec(text, text_url_links(es))
        } else {
            Some(text)
        },
        None => Some(text),
    }
}

pub open spec fn entities_view(e: Option<&[MessageEntity]>) -> Option<Seq<MessageEntity>> {
    match e {
        Some(es) => Some(es@),
        None => None,
    }
}

/// The hidden links among the entities, in order.
fn text_url_link_list(es: &[MessageEntity]) -> (links: Vec<(i32, i32, String)>)
    ensures
        links_view(links@) == text_url_links(es@),
{
    let mut links: Vec<(i32, i32, String)> = Vec::new();
    let mut i: usize = 0;
    while i < es.len()
        invariant
            i <= es.len(),
            links_view(links@) == text_url_links(es@.take(i as int)),
        decreases es.len() - i,
    {
        assert(es@.take(i + 1).drop_last() =~= es@.take(i as int));
        match &es[i] {
            MessageEntity::TextUrl { offset, length, url } => {
                let ghost prev = links_view(links@);
                links.push((*offset, *length, url.clone()));
                assert(links_view(links@) =~= prev.push((*offset, *length, url@)));
            },
            MessageEntity::Other => {},
        }
        i = i + 1;
    }
    assert(es@.take(es.len() as int) =~= es@);
    links
}

/// The text of a message with the URLs of its hidden links written out as
/// `[text](url)`, so that they are stored with it.
pub fn message_text_with_links(text: &str, entities: Option<&[MessageEntity]>) -> (r: String)
    requires
        message_text_spec(text@, entities_view(entities)) is Some,
    ensures
        message_text_spec(text@, entities_view(entities)) == Some(r@),
{
    let es = match entities {
        Some(e) if e.len() > 0 => e,
        _ => return String::from_str(text),
    };
    let links = text_url_link_list(es);
    inline_text_urls(text, links.as_slice())
}

/// The id of the photo of a message, in decimal; none for other media.
pub fn extract_photo_id(media: Option<&MessageMedia>) -> (r: Option<String>)
    ensures
        match media {
            Some(MessageMedia::Photo { id }) => r matches Some(s) && s@ == int_decimal(*id as int),
            _ => r is None,
        },
{
    match media {
        Some(MessageMedia::Photo { id }) => {
            let mut v: Vec<char> = Vec::new();
            push_signed_decimal(&mut v, *id);
            assert(v@ =~= int_decimal(*id as int));
            Some(string_from_chars(v.as_slice()))
        },
        _ => None,
    }
}

/// [`message_text_with_links`], or `None` where inlining a link would cut a
/// character.
pub fn message_text_with_links_checked(text: &str, entities: Option<&[MessageEntity]>) -> (r: Option<String>)
    ensures
        match r {
            Some(s) => message_text_spec(text@, entities_view(entities)) == Some(s@),
            None => message_text_spec(text@, entities_view(entities)) is None,
        },
{
    let es = match entities {
        Some(e) if e.len() > 0 => e,
        _ => return Some(String::from_str(text)),
    };
    let links = text_url_link_list(es);
    inline_text_urls_checked(text, links.as_slice())
}

} // verus!
