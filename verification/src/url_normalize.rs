//! URL canonicalisation used as the de-duplication key of crawled articles.
//!
//! Rules: an input that cannot be parsed is returned as is; scheme and
//! authority are lower-cased; the fragment is dropped; tracking query
//! parameters (`utm_*`, `share_*`, `wechat_*`, `spm`, `ref`, `from`,
//! `isappinstalled`, `nsukey`, `st`) are dropped; the remaining parameters are
//! stably sorted by key; `.`/`..` path segments are resolved and a trailing
//! slash is removed unless the path is the root.
use vstd::prelude::*;
use vstd::relations::{sorted_by, total_ordering};
use vstd::seq_lib::lemma_sorted_unique;
use crate::text::{
    ascii_lower, chars_of, find_char, first_char, is_ascii_alnum, is_ascii_alpha, join, join_exec,
    push_all, seq_eq, slice_range, split_char, split_exec, starts_with, starts_with_exec,
    string_from_chars, to_ascii_lower, trim, trim_bounds, trim_end, trim_start, views, is_ws,
};

verus! {

// ---------------------------------------------------------------------------
// remove_dot_segments
// ---------------------------------------------------------------------------

/// One step of the segment stack machine: skip empty and `.` segments,
/// pop on `..`, push anything else.
pub open spec fn dot_step(stack: Seq<Seq<char>>, seg: Seq<char>) -> Seq<Seq<char>> {
    if seg.len() == 0 || seg == seq!['.'] {
        stack
    } else if seg == seq!['.', '.'] {
        if stack.len() > 0 {
            stack.drop_last()
        } else {
            stack
        }
    } else {
        stack.push(seg)
    }
}

/// The stack left after feeding all segments, left to right.
pub open spec fn dot_fold(segs: Seq<Seq<char>>) -> Seq<Seq<char>>
    decreases segs.len(),
{
    if segs.len() == 0 {
        Seq::<Seq<char>>::empty()
    } else {
        dot_step(dot_fold(segs.drop_last()), segs.last())
    }
}

/// RFC 3986 section 5.2.4 as done here: `.` and empty segments vanish, `..`
/// pops (silently at the root), a leading `/` is kept.
pub open spec fn remove_dot_segments_spec(path: Seq<char>) -> Seq<char> {
    if path.len() == 0 {
        Seq::<char>::empty()
    } else {
        let out = dot_fold(split_char(path, '/'));
        if path[0] == '/' {
            if out.len() == 0 {
                seq!['/']
            } else {
                seq!['/'] + join(out, seq!['/'])
            }
        } else {
            join(out, seq!['/'])
        }
    }
}

fn remove_dot_segments_chars(path: &[char]) -> (r: Vec<char>)
    ensures
        r@ == remove_dot_segments_spec(path@),
{
    if path.len() == 0 {
        return Vec::new();
    }
    let segs = split_exec(path, '/');
    let mut stack: Vec<Vec<char>> = Vec::new();
    let mut i: usize = 0;
    assert(views(segs@).take(0) =~= Seq::<Seq<char>>::empty());
    while i < segs.len()
        invariant
            i <= segs.len(),
            views(stack@) == dot_fold(views(segs@).take(i as int)),
        decreases segs.len() - i,
    {
        let ghost sv = views(segs@);
        assert(sv.take(i + 1).drop_last() =~= sv.take(i as int));
        assert(sv.take(i + 1).last() == segs[i as int]@);
        let seg = &segs[i];
        let dot: [char; 1] = ['.'];
        let dotdot: [char; 2] = ['.', '.'];
        assert(dot@ =~= seq!['.']);
        assert(dotdot@ =~= seq!['.', '.']);
        let ghost before = views(stack@);
        if seg.len() == 0 || seq_eq(seg.as_slice(), &dot) {
        } else if seq_eq(seg.as_slice(), &dotdot) {
            if stack.len() > 0 {
                stack.pop();
                assert(views(stack@) =~= before.drop_last());
            }
        } else {
            stack.push(seg.clone());
            assert(views(stack@) =~= before.push(seg@));
        }
        i = i + 1;
    }
    assert(views(segs@).take(segs.len() as int) =~= views(segs@));
    let slash: [char; 1] = ['/'];
    assert(slash@ =~= seq!['/']);
    let joined = join_exec(&stack, &slash);
    if path[0] == '/' {
        let mut out: Vec<char> = Vec::new();
        out.push('/');
        if stack.len() > 0 {
            push_all(&mut out, joined.as_slice());
        }
        out
    } else {
        joined
    }
}

/// RFC 3986 section 5.2.4 `remove_dot_segments` (with empty segments merged).
pub fn remove_dot_segments(path: &str) -> (r: String)
    ensures
        r@ == remove_dot_segments_spec(path@),
{
    let v = chars_of(path);
    let r = remove_dot_segments_chars(v.as_slice());
    string_from_chars(r.as_slice())
}


// ---------------------------------------------------------------------------
// Scheme
// ---------------------------------------------------------------------------

pub open spec fn is_scheme_char(c: char) -> bool {
    is_ascii_alnum(c) || c == '+' || c == '-' || c == '.'
}

/// `k` is the first position after the leading letter that is not a scheme character.
pub open spec fn is_scheme_stop(s: Seq<char>, k: int) -> bool {
    1 <= k < s.len() && !is_scheme_char(s[k]) && forall|j: int| 1 <= j < k ==> is_scheme_char(s[j])
}

/// Position of the `:` that ends a scheme of at least two characters
/// (`[a-zA-Z][a-zA-Z0-9+.-]+:`), if the input starts with one.
pub open spec fn scheme_end(s: Seq<char>) -> Option<int> {
    if s.len() > 0 && is_ascii_alpha(s[0]) && exists|k: int| is_scheme_stop(s, k) {
        let k = choose|k: int| is_scheme_stop(s, k);
        if s[k] == ':' && k > 1 {
            Some(k)
        } else {
            None
        }
    } else {
        None
    }
}

fn is_scheme_char_exec(c: char) -> (r: bool)
    ensures
        r == is_scheme_char(c),
{
    ('a' <= c && c <= 'z') || ('A' <= c && c <= 'Z') || ('0' <= c && c <= '9') || c == '+'
        || c == '-' || c == '.'
}

/// Locates the `:` ending the scheme of `s`.
fn split_scheme(s: &[char]) -> (r: Option<usize>)
    ensures
        r == match scheme_end(s@) { Some(k) => Some(k as usize), None => None::<usize> },
{
    if s.len() == 0 {
        return None;
    }
    let first = s[0];
    if !(('a' <= first && first <= 'z') || ('A' <= first && first <= 'Z')) {
        return None;
    }
    let mut i: usize = 1;
    while i < s.len()
        invariant
            1 <= i <= s.len(),
            s.len() > 0 && is_ascii_alpha(s@[0]),
            forall|j: int| 1 <= j < i ==> is_scheme_char(s@[j]),
        decreases s.len() - i,
    {
        let c = s[i];
        if !is_scheme_char_exec(c) {
            proof {
                assert(is_scheme_stop(s@, i as int));
                let k = choose|k: int| is_scheme_stop(s@, k);
                assert(k == i as int) by {
                    if k < i {
                        assert(is_scheme_char(s@[k]));
                    } else if k > i {
                        assert(is_scheme_char(s@[i as int]));
                    }
                }
            }
            if c == ':' && i > 1 {
                return Some(i);
            }
            return None;
        }
        i = i + 1;
    }
    None
}

// ---------------------------------------------------------------------------
// Tracking parameters
// ---------------------------------------------------------------------------

/// Tracking parameters: the exact names `spm`, `ref`, `from`,
/// `isappinstalled`, `nsukey`, `st` and the prefixes `utm_`, `share_`,
/// `wechat_`, compared after ASCII lower-casing.
pub open spec fn is_tracking_param_spec(key: Seq<char>) -> bool {
    let l = ascii_lower(key);
    ||| l == "spm"@
    ||| l == "ref"@
    ||| l == "from"@
    ||| l == "isappinstalled"@
    ||| l == "nsukey"@
    ||| l == "st"@
    ||| starts_with(l, "utm_"@)
    ||| starts_with(l, "share_"@)
    ||| starts_with(l, "wechat_"@)
}

fn lower_equals(l: &[char], lit: &str) -> (r: bool)
    ensures
        r == (l@ == lit@),
{
    let v = chars_of(lit);
    seq_eq(l, v.as_slice())
}

fn lower_starts(l: &[char], lit: &str) -> (r: bool)
    ensures
        r == starts_with(l@, lit@),
{
    let v = chars_of(lit);
    starts_with_exec(l, v.as_slice())
}

fn is_tracking_param(key: &[char]) -> (r: bool)
    ensures
        r == is_tracking_param_spec(key@),
{
    let l = to_ascii_lower(key);
    let ls = l.as_slice();
    lower_equals(ls, "spm") || lower_equals(ls, "ref") || lower_equals(ls, "from")
        || lower_equals(ls, "isappinstalled") || lower_equals(ls, "nsukey") || lower_equals(ls, "st")
        || lower_starts(ls, "utm_") || lower_starts(ls, "share_") || lower_starts(ls, "wechat_")
}

// ---------------------------------------------------------------------------
// Query
// ---------------------------------------------------------------------------

/// `key=value` split at the first `=`; without `=` the value is empty.
pub open spec fn kv_split(kv: Seq<char>) -> (Seq<char>, Seq<char>) {
    match first_char(kv, '=') {
        Some(i) => (kv.take(i), kv.skip(i + 1)),
        None => (kv, Seq::<char>::empty()),
    }
}

/// The non-empty, non-tracking `key=value` pairs, in order.
pub open spec fn query_pairs(pieces: Seq<Seq<char>>) -> Seq<(Seq<char>, Seq<char>)>
    decreases pieces.len(),
{
    if pieces.len() == 0 {
        Seq::<(Seq<char>, Seq<char>)>::empty()
    } else {
        let rest = query_pairs(pieces.drop_last());
        let kv = pieces.last();
        if kv.len() == 0 || is_tracking_param_spec(kv_split(kv).0) {
            rest
        } else {
            rest.push(kv_split(kv))
        }
    }
}

/// Lexicographic order of character sequences by code point, which is the
/// byte order of their UTF-8 encodings (`String::cmp`).
pub open spec fn key_le(a: Seq<char>, b: Seq<char>) -> bool
    decreases a.len(),
{
    if a.len() == 0 {
        true
    } else if b.len() == 0 {
        false
    } else if a[0] != b[0] {
        (a[0] as u32) < (b[0] as u32)
    } else {
        key_le(a.drop_first(), b.drop_first())
    }
}

/// Where a stable sort puts an element with `key` after the sorted `s`:
/// behind every element whose key is not greater.
pub open spec fn insert_pos(s: Seq<(Seq<char>, Seq<char>)>, key: Seq<char>) -> int
    decreases s.len(),
{
    if s.len() == 0 {
        0
    } else if key_le(s.last().0, key) {
        s.len() as int
    } else {
        insert_pos(s.drop_last(), key)
    }
}

/// Stable sort of the pairs by key (`slice::sort_by` on the key).
pub open spec fn sort_by_key(s: Seq<(Seq<char>, Seq<char>)>) -> Seq<(Seq<char>, Seq<char>)>
    decreases s.len(),
{
    if s.len() == 0 {
        s
    } else {
        let t = sort_by_key(s.drop_last());
        t.insert(insert_pos(t, s.last().0), s.last())
    }
}

/// `k` alone when the value is empty, else `k=v`.
pub open spec fn render_pair(p: (Seq<char>, Seq<char>)) -> Seq<char> {
    if p.1.len() == 0 {
        p.0
    } else {
        p.0 + seq!['='] + p.1
    }
}

/// The cleaned, sorted query (empty when nothing is left).
pub open spec fn normalize_query(q: Seq<char>) -> Seq<char> {
    join(sort_by_key(query_pairs(split_char(q, '&'))).map_values(|p: (Seq<char>, Seq<char>)| render_pair(p)), seq!['&'])
}

pub open spec fn pair_views(v: Seq<(Vec<char>, Vec<char>)>) -> Seq<(Seq<char>, Seq<char>)> {
    Seq::new(v.len(), |i: int| (v[i].0@, v[i].1@))
}

proof fn lemma_insert_pos_bounds(s: Seq<(Seq<char>, Seq<char>)>, key: Seq<char>)
    ensures
        0 <= insert_pos(s, key) <= s.len(),
    decreases s.len(),
{
    if s.len() > 0 {
        lemma_insert_pos_bounds(s.drop_last(), key);
    }
}

proof fn lemma_sort_len(s: Seq<(Seq<char>, Seq<char>)>)
    ensures
        sort_by_key(s).len() == s.len(),
    decreases s.len(),
{
    if s.len() > 0 {
        lemma_sort_len(s.drop_last());
        lemma_insert_pos_bounds(sort_by_key(s.drop_last()), s.last().0);
    }
}

fn key_le_exec(a: &[char], b: &[char]) -> (r: bool)
    ensures
        r == key_le(a@, b@),
{
    let mut i: usize = 0;
    assert(a@.skip(0) =~= a@);
    assert(b@.skip(0) =~= b@);
    while i < a.len() && i < b.len() && a[i] == b[i]
        invariant
            i <= a.len(),
            i <= b.len(),
            key_le(a@, b@) == key_le(a@.skip(i as int), b@.skip(i as int)),
        decreases a.len() - i,
    {
        proof {
            let sa = a@.skip(i as int);
            let sb = b@.skip(i as int);
            assert(sa.drop_first() =~= a@.skip(i + 1));
            assert(sb.drop_first() =~= b@.skip(i + 1));
        }
        i = i + 1;
    }
    if i == a.len() {
        true
    } else if i == b.len() {
        false
    } else {
        (a[i] as u32) < (b[i] as u32)
    }
}

fn kv_split_exec(kv: &[char]) -> (r: (Vec<char>, Vec<char>))
    ensures
        (r.0@, r.1@) == kv_split(kv@),
{
    match find_char(kv, '=') {
        Some(i) => {
            let k = slice_range(kv, 0, i);
            let v = slice_range(kv, i + 1, kv.len());
            assert(k@ =~= kv@.take(i as int));
            assert(v@ =~= kv@.skip(i + 1));
            (k, v)
        },
        None => {
            let k = slice_range(kv, 0, kv.len());
            assert(k@ =~= kv@);
            (k, Vec::new())
        },
    }
}

fn query_pairs_exec(pieces: &Vec<Vec<char>>) -> (r: Vec<(Vec<char>, Vec<char>)>)
    ensures
        pair_views(r@) == query_pairs(views(pieces@)),
{
    let mut r: Vec<(Vec<char>, Vec<char>)> = Vec::new();
    let mut i: usize = 0;
    assert(views(pieces@).take(0) =~= Seq::<Seq<char>>::empty());
    while i < pieces.len()
        invariant
            i <= pieces.len(),
            pair_views(r@) == query_pairs(views(pieces@).take(i as int)),
        decreases pieces.len() - i,
    {
        let ghost pv = views(pieces@);
        assert(pv.take(i + 1).drop_last() =~= pv.take(i as int));
        assert(pv.take(i + 1).last() == pieces[i as int]@);
        let kv = &pieces[i];
        if kv.len() > 0 {
            let (k, v) = kv_split_exec(kv.as_slice());
            if !is_tracking_param(k.as_slice()) {
                let ghost before = pair_views(r@);
                let ghost kvv = (k@, v@);
                r.push((k, v));
                assert(pair_views(r@) =~= before.push(kvv));
            }
        }
        i = i + 1;
    }
    assert(views(pieces@).take(pieces.len() as int) =~= views(pieces@));
    r
}

fn sort_pairs(pairs: Vec<(Vec<char>, Vec<char>)>) -> (r: Vec<(Vec<char>, Vec<char>)>)
    ensures
        pair_views(r@) == sort_by_key(pair_views(pairs@)),
{
    let mut sorted: Vec<(Vec<char>, Vec<char>)> = Vec::new();
    let mut src = pairs;
    let ghost all = pair_views(src@);
    let mut i: usize = 0;
    let n = src.len();
    // consume the pairs front to back by reversing first
    let mut rev: Vec<(Vec<char>, Vec<char>)> = Vec::new();
    while src.len() > 0
        invariant
            src.len() + rev.len() == n,
            n == all.len(),
            pair_views(src@) == all.take(src.len() as int),
            forall|j: int| 0 <= j < rev.len() ==> pair_views(rev@)[j] == all[n - 1 - j],
        decreases src.len(),
    {
        let ghost sv = pair_views(src@);
        let ghost rv = pair_views(rev@);
        let x = src.pop().unwrap();
        assert(pair_views(src@) =~= sv.drop_last());
        assert(sv.last() == (x.0@, x.1@));
        rev.push(x);
        assert(pair_views(rev@) =~= rv.push(sv.last()));
        assert(pair_views(src@) =~= all.take(src.len() as int));
    }
    assert(all.take(0) =~= Seq::<(Seq<char>, Seq<char>)>::empty());
    while i < n
        invariant
            i <= n,
            rev.len() == n - i,
            n == all.len(),
            forall|j: int| 0 <= j < rev.len() ==> pair_views(rev@)[j] == all[n - 1 - j],
            pair_views(sorted@) == sort_by_key(all.take(i as int)),
        decreases n - i,
    {
        let ghost rv = pair_views(rev@);
        let x = rev.pop().unwrap();
        assert(pair_views(rev@) =~= rv.drop_last());
        let ghost xv = (x.0@, x.1@);
        assert(rv[rv.len() - 1] == xv);
        assert(xv == all[i as int]);
        assert(all.take(i + 1).drop_last() =~= all.take(i as int));
        assert(all.take(i + 1).last() == xv);
        let ghost t = pair_views(sorted@);
        // find the insertion point scanning from the end
        let mut j: usize = sorted.len();
        assert(t.take(j as int) =~= t);
        while j > 0 && !key_le_exec(sorted[j - 1].0.as_slice(), x.0.as_slice())
            invariant
                j <= sorted.len(),
                t == pair_views(sorted@),
                xv == (x.0@, x.1@),
                insert_pos(t, xv.0) == insert_pos(t.take(j as int), xv.0),
            decreases j,
        {
            proof {
                let tj = t.take(j as int);
                assert(tj.last() == t[j - 1]);
                assert(tj.drop_last() =~= t.take(j - 1));
            }
            j = j - 1;
        }
        proof {
            assert(t.take(t.len() as int) =~= t);
            let tj = t.take(j as int);
            if j > 0 {
                assert(tj.last() == t[j - 1]);
            }
            assert(insert_pos(t, xv.0) == j as int);
        }
        sorted.insert(j, x);
        assert(pair_views(sorted@) =~= t.insert(j as int, xv));
        i = i + 1;
    }
    assert(all.take(n as int) =~= all);
    sorted
}

fn render_query(pairs: &Vec<(Vec<char>, Vec<char>)>) -> (r: Vec<char>)
    ensures
        r@ == join(pair_views(pairs@).map_values(|p: (Seq<char>, Seq<char>)| render_pair(p)), seq!['&']),
{
    let mut rendered: Vec<Vec<char>> = Vec::new();
    let mut i: usize = 0;
    while i < pairs.len()
        invariant
            i <= pairs.len(),
            views(rendered@) == pair_views(pairs@).take(i as int).map_values(|p: (Seq<char>, Seq<char>)| render_pair(p)),
        decreases pairs.len() - i,
    {
        let mut one: Vec<char> = Vec::new();
        push_all(&mut one, pairs[i].0.as_slice());
        if pairs[i].1.len() > 0 {
            one.push('=');
            push_all(&mut one, pairs[i].1.as_slice());
        }
        let ghost pv = pair_views(pairs@);
        let ghost before = views(rendered@);
        assert(one@ =~= render_pair(pv[i as int]));
        let ghost ov = one@;
        rendered.push(one);
        assert(views(rendered@) =~= before.push(ov));
        assert(pv.take(i + 1).map_values(|p: (Seq<char>, Seq<char>)| render_pair(p)) =~= pv.take(i as int).map_values(|p: (Seq<char>, Seq<char>)| render_pair(p)).push(render_pair(pv[i as int])));
        i = i + 1;
    }
    assert(pair_views(pairs@).take(pairs.len() as int) =~= pair_views(pairs@));
    let amp: [char; 1] = ['&'];
    assert(amp@ =~= seq!['&']);
    join_exec(&rendered, &amp)
}

fn normalize_query_exec(q: &[char]) -> (r: Vec<char>)
    ensures
        r@ == normalize_query(q@),
{
    let pieces = split_exec(q, '&');
    let pairs = query_pairs_exec(&pieces);
    let sorted = sort_pairs(pairs);
    render_query(&sorted)
}


// ---------------------------------------------------------------------------
// Whole URL
// ---------------------------------------------------------------------------

/// The part before the first `#`.
pub open spec fn before_fragment(rest: Seq<char>) -> Seq<char> {
    match first_char(rest, '#') {
        Some(i) => rest.take(i),
        None => rest,
    }
}

/// Authority-and-path, and the query after the first `?`.
pub open spec fn split_query(bf: Seq<char>) -> (Seq<char>, Option<Seq<char>>) {
    match first_char(bf, '?') {
        Some(i) => (bf.take(i), Some(bf.skip(i + 1))),
        None => (bf, None),
    }
}

/// `//authority/path` splits at the first `/` after the `//`; anything else is
/// all path.
pub open spec fn split_authority(ap: Seq<char>) -> (Option<Seq<char>>, Option<Seq<char>>) {
    if starts_with(ap, seq!['/', '/']) {
        let st = ap.skip(2);
        match first_char(st, '/') {
            Some(i) => (Some(st.take(i)), Some(st.skip(i))),
            None => (Some(st), None),
        }
    } else {
        (None, Some(ap))
    }
}

/// Dot segments resolved, then a trailing `/` removed unless the path is `/`.
pub open spec fn normalize_path(p: Seq<char>) -> Seq<char> {
    let c = remove_dot_segments_spec(p);
    if c.len() > 1 && c.last() == '/' {
        c.drop_last()
    } else {
        c
    }
}

/// `//` and the lower-cased authority, if there is one.
pub open spec fn auth_part(ap: Seq<char>) -> Seq<char> {
    match split_authority(ap).0 {
        Some(a) => seq!['/', '/'] + ascii_lower(a),
        None => Seq::<char>::empty(),
    }
}

/// The normalised path, if there is one.
pub open spec fn path_part(ap: Seq<char>) -> Seq<char> {
    match split_authority(ap).1 {
        Some(p) => normalize_path(p),
        None => Seq::<char>::empty(),
    }
}

/// `?` and the normalised query, if that is not empty.
pub open spec fn query_part(bf: Seq<char>) -> Seq<char> {
    match split_query(bf).1 {
        Some(q) => if normalize_query(q).len() > 0 {
            seq!['?'] + normalize_query(q)
        } else {
            Seq::<char>::empty()
        },
        None => Seq::<char>::empty(),
    }
}

/// Canonical form of a URL whose scheme ends at `k`.
pub open spec fn assemble(t: Seq<char>, k: int) -> Seq<char> {
    let bf = before_fragment(t.skip(k + 1));
    let ap = split_query(bf).0;
    ascii_lower(t.take(k)) + seq![':'] + auth_part(ap) + path_part(ap) + query_part(bf)
}

/// The canonical form of `input`; inputs that are blank, or have no scheme,
/// are returned as given (blank) or trimmed (no scheme).
pub open spec fn normalize_url_spec(input: Seq<char>) -> Seq<char> {
    let t = trim(input);
    if t.len() == 0 {
        input
    } else {
        match scheme_end(t) {
            None => t,
            Some(k) => assemble(t, k),
        }
    }
}

/// `Option<Vec<char>>` viewed as `Option<Seq<char>>`.
pub open spec fn opt_view(o: Option<Vec<char>>) -> Option<Seq<char>> {
    match o {
        Some(v) => Some(v@),
        None => None,
    }
}

fn split_rest_exec(rest: &[char]) -> (r: (Vec<char>, Option<Vec<char>>))
    ensures
        r.0@ == split_query(before_fragment(rest@)).0,
        opt_view(r.1) == split_query(before_fragment(rest@)).1,
{
    let bf = match find_char(rest, '#') {
        Some(i) => slice_range(rest, 0, i),
        None => slice_range(rest, 0, rest.len()),
    };
    assert(bf@ =~= before_fragment(rest@));
    match find_char(bf.as_slice(), '?') {
        Some(i) => {
            let ap = slice_range(bf.as_slice(), 0, i);
            let q = slice_range(bf.as_slice(), i + 1, bf.len());
            assert(ap@ =~= bf@.take(i as int));
            assert(q@ =~= bf@.skip(i + 1));
            (ap, Some(q))
        },
        None => (bf, None),
    }
}

fn split_authority_exec(ap: &[char]) -> (r: (Option<Vec<char>>, Option<Vec<char>>))
    ensures
        opt_view(r.0) == split_authority(ap@).0,
        opt_view(r.1) == split_authority(ap@).1,
{
    let slash2: [char; 2] = ['/', '/'];
    assert(slash2@ =~= seq!['/', '/']);
    if starts_with_exec(ap, &slash2) {
        let st = slice_range(ap, 2, ap.len());
        assert(st@ =~= ap@.skip(2));
        match find_char(st.as_slice(), '/') {
            Some(i) => {
                let a = slice_range(st.as_slice(), 0, i);
                let p = slice_range(st.as_slice(), i, st.len());
                assert(a@ =~= st@.take(i as int));
                assert(p@ =~= st@.skip(i as int));
                (Some(a), Some(p))
            },
            None => (Some(st), None),
        }
    } else {
        let p = slice_range(ap, 0, ap.len());
        assert(p@ =~= ap@);
        (None, Some(p))
    }
}

fn normalize_path_exec(p: &[char]) -> (r: Vec<char>)
    ensures
        r@ == normalize_path(p@),
{
    let c = remove_dot_segments_chars(p);
    if c.len() > 1 && c[c.len() - 1] == '/' {
        let d = slice_range(c.as_slice(), 0, c.len() - 1);
        assert(d@ =~= c@.drop_last());
        d
    } else {
        c
    }
}

fn auth_part_exec(ap: &[char]) -> (r: Vec<char>)
    ensures
        r@ == auth_part(ap@),
{
    let (auth, _path) = split_authority_exec(ap);
    let mut out: Vec<char> = Vec::new();
    match auth {
        Some(a) => {
            out.push('/');
            out.push('/');
            let al = to_ascii_lower(a.as_slice());
            push_all(&mut out, al.as_slice());
            assert(out@ =~= seq!['/', '/'] + ascii_lower(a@));
        },
        None => {},
    }
    out
}

fn path_part_exec(ap: &[char]) -> (r: Vec<char>)
    ensures
        r@ == path_part(ap@),
{
    let (_auth, path) = split_authority_exec(ap);
    match path {
        Some(p) => normalize_path_exec(p.as_slice()),
        None => Vec::new(),
    }
}

fn query_part_exec(q: Option<Vec<char>>) -> (r: Vec<char>)
    ensures
        r@ == match opt_view(q) {
            Some(q) => if normalize_query(q).len() > 0 {
                seq!['?'] + normalize_query(q)
            } else {
                Seq::<char>::empty()
            },
            None => Seq::<char>::empty(),
        },
{
    let mut out: Vec<char> = Vec::new();
    match q {
        Some(qv) => {
            let nq = normalize_query_exec(qv.as_slice());
            if nq.len() > 0 {
                out.push('?');
                push_all(&mut out, nq.as_slice());
                assert(out@ =~= seq!['?'] + nq@);
            }
        },
        None => {},
    }
    out
}

fn assemble_exec(t: &[char], k: usize) -> (r: Vec<char>)
    requires
        k < t.len(),
    ensures
        r@ == assemble(t@, k as int),
{
    let scheme_raw = slice_range(t, 0, k);
    let scheme = to_ascii_lower(scheme_raw.as_slice());
    let rest = slice_range(t, k + 1, t.len());
    assert(scheme_raw@ =~= t@.take(k as int));
    assert(rest@ =~= t@.skip(k + 1));
    let (ap, q) = split_rest_exec(rest.as_slice());
    let ap_part = auth_part_exec(ap.as_slice());
    let p_part = path_part_exec(ap.as_slice());
    let q_part = query_part_exec(q);
    let mut out: Vec<char> = Vec::new();
    push_all(&mut out, scheme.as_slice());
    out.push(':');
    push_all(&mut out, ap_part.as_slice());
    push_all(&mut out, p_part.as_slice());
    push_all(&mut out, q_part.as_slice());
    assert(out@ =~= scheme@ + seq![':'] + ap_part@ + p_part@ + q_part@);
    out
}

/// Canonical de-duplication key of a URL; returns the input as given when it
/// is blank and trimmed when it has no scheme.
pub fn normalize_url(input: &str) -> (r: String)
    ensures
        r@ == normalize_url_spec(input@),
{
    let v = chars_of(input);
    let (a, b) = trim_bounds(v.as_slice());
    if a == b {
        return input.to_owned();
    }
    let t = slice_range(v.as_slice(), a, b);
    match split_scheme(t.as_slice()) {
        None => string_from_chars(t.as_slice()),
        Some(k) => {
            let out = assemble_exec(t.as_slice(), k);
            string_from_chars(out.as_slice())
        },
    }
}

} // verus!

verus! {

// ---------------------------------------------------------------------------
// Properties of the cleaned query
// ---------------------------------------------------------------------------

proof fn lemma_key_le_refl(a: Seq<char>)
    ensures
        key_le(a, a),
    decreases a.len(),
{
    if a.len() > 0 {
        lemma_key_le_refl(a.drop_first());
    }
}

proof fn lemma_key_le_total(a: Seq<char>, b: Seq<char>)
    ensures
        key_le(a, b) || key_le(b, a),
    decreases a.len(),
{
    if a.len() > 0 && b.len() > 0 {
        if a[0] == b[0] {
            lemma_key_le_total(a.drop_first(), b.drop_first());
        } else {
            vstd::utf8::char_u32_cast(a[0], a[0] as u32);
            vstd::utf8::char_u32_cast(b[0], b[0] as u32);
        }
    }
}

proof fn lemma_key_le_trans(a: Seq<char>, b: Seq<char>, c: Seq<char>)
    requires
        key_le(a, b),
        key_le(b, c),
    ensures
        key_le(a, c),
    decreases a.len(),
{
    if a.len() > 0 && b.len() > 0 && c.len() > 0 && a[0] == b[0] && b[0] == c[0] {
        lemma_key_le_trans(a.drop_first(), b.drop_first(), c.drop_first());
    }
}

proof fn lemma_key_le_antisym(a: Seq<char>, b: Seq<char>)
    requires
        key_le(a, b),
        key_le(b, a),
    ensures
        a == b,
    decreases a.len(),
{
    if a.len() > 0 && b.len() > 0 {
        lemma_key_le_antisym(a.drop_first(), b.drop_first());
        assert(a =~= seq![a[0]] + a.drop_first());
        assert(b =~= seq![b[0]] + b.drop_first());
    }
}

/// Keys never decrease along `s`.
pub open spec fn keys_sorted(s: Seq<(Seq<char>, Seq<char>)>) -> bool {
    forall|i: int, j: int| 0 <= i < j < s.len() ==> key_le(#[trigger] s[i].0, #[trigger] s[j].0)
}

/// No key occurs twice in `s`.
pub open spec fn keys_distinct(s: Seq<(Seq<char>, Seq<char>)>) -> bool {
    forall|i: int, j: int| 0 <= i < j < s.len() ==> #[trigger] s[i].0 != #[trigger] s[j].0
}

proof fn lemma_insert_pos_sorted(t: Seq<(Seq<char>, Seq<char>)>, k: Seq<char>)
    requires
        keys_sorted(t),
    ensures
        0 <= insert_pos(t, k) <= t.len(),
        forall|i: int| 0 <= i < insert_pos(t, k) ==> key_le(#[trigger] t[i].0, k),
        forall|i: int| insert_pos(t, k) <= i < t.len() ==> !key_le(#[trigger] t[i].0, k),
    decreases t.len(),
{
    if t.len() > 0 {
        if key_le(t.last().0, k) {
            assert(insert_pos(t, k) == t.len());
            assert forall|i: int| 0 <= i < t.len() implies key_le(#[trigger] t[i].0, k) by {
                if i < t.len() - 1 {
                    lemma_key_le_trans(t[i].0, t.last().0, k);
                }
            }
        } else {
            let u = t.drop_last();
            assert(keys_sorted(u)) by {
                assert forall|i: int, j: int| 0 <= i < j < u.len() implies key_le(#[trigger] u[i].0, #[trigger] u[j].0) by {
                    assert(u[i] == t[i] && u[j] == t[j]);
                }
            }
            lemma_insert_pos_sorted(u, k);
            assert(insert_pos(t, k) == insert_pos(u, k));
            assert forall|i: int| 0 <= i < insert_pos(t, k) implies key_le(#[trigger] t[i].0, k) by {
                assert(u[i] == t[i]);
            }
            assert forall|i: int| insert_pos(t, k) <= i < t.len() implies !key_le(#[trigger] t[i].0, k) by {
                if i < u.len() {
                    assert(u[i] == t[i]);
                }
            }
        }
    }
}

proof fn lemma_sort_props(s: Seq<(Seq<char>, Seq<char>)>)
    ensures
        keys_sorted(sort_by_key(s)),
        sort_by_key(s).to_multiset() == s.to_multiset(),
        sort_by_key(s).len() == s.len(),
    decreases s.len(),
{
    broadcast use vstd::seq_lib::to_multiset_insert, vstd::seq_lib::to_multiset_build;
    if s.len() > 0 {
        let t = sort_by_key(s.drop_last());
        let x = s.last();
        lemma_sort_props(s.drop_last());
        lemma_insert_pos_sorted(t, x.0);
        let p = insert_pos(t, x.0);
        let r = t.insert(p, x);
        assert(r == sort_by_key(s));
        assert forall|i: int, j: int| 0 <= i < j < r.len() implies key_le(#[trigger] r[i].0, #[trigger] r[j].0) by {
            if i < p && j < p {
                assert(r[i] == t[i] && r[j] == t[j]);
            } else if i < p && j == p {
                assert(r[i] == t[i]);
            } else if i < p {
                assert(r[i] == t[i] && r[j] == t[j - 1]);
            } else if i == p {
                assert(r[j] == t[j - 1]);
                lemma_key_le_total(t[j - 1].0, x.0);
            } else {
                assert(r[i] == t[i - 1] && r[j] == t[j - 1]);
            }
        }
        assert(s =~= s.drop_last().push(x));
    }
}

proof fn lemma_sort_distinct(s: Seq<(Seq<char>, Seq<char>)>)
    requires
        keys_distinct(s),
    ensures
        keys_distinct(sort_by_key(s)),
    decreases s.len(),
{
    broadcast use vstd::seq_lib::group_to_multiset_ensures;
    if s.len() > 0 {
        let u = s.drop_last();
        let x = s.last();
        assert(keys_distinct(u)) by {
            assert forall|i: int, j: int| 0 <= i < j < u.len() implies #[trigger] u[i].0 != #[trigger] u[j].0 by {
                assert(u[i] == s[i] && u[j] == s[j]);
            }
        }
        lemma_sort_distinct(u);
        lemma_sort_props(u);
        let t = sort_by_key(u);
        let p = insert_pos(t, x.0);
        lemma_insert_pos_bounds(t, x.0);
        let r = t.insert(p, x);
        assert forall|i: int| 0 <= i < t.len() implies #[trigger] t[i].0 != x.0 by {
            assert(t.to_multiset().contains(t[i]));
            assert(u.to_multiset().contains(t[i]));
            assert(u.contains(t[i]));
            let k = choose|k: int| 0 <= k < u.len() && u[k] == t[i];
            assert(s[k] == u[k]);
            assert(s[s.len() - 1] == x);
        }
        assert forall|i: int, j: int| 0 <= i < j < r.len() implies #[trigger] r[i].0 != #[trigger] r[j].0 by {
            if i < p && j < p {
                assert(r[i] == t[i] && r[j] == t[j]);
            } else if i < p && j == p {
                assert(r[i] == t[i]);
            } else if i < p {
                assert(r[i] == t[i] && r[j] == t[j - 1]);
            } else if i == p {
                assert(r[j] == t[j - 1]);
            } else {
                assert(r[i] == t[i - 1] && r[j] == t[j - 1]);
            }
        }
    }
}

/// Pairs ordered by key, then by value.
pub open spec fn pair_le(p: (Seq<char>, Seq<char>), q: (Seq<char>, Seq<char>)) -> bool {
    if p.0 == q.0 {
        key_le(p.1, q.1)
    } else {
        key_le(p.0, q.0)
    }
}

proof fn lemma_pair_le_total()
    ensures
        total_ordering(|p: (Seq<char>, Seq<char>), q: (Seq<char>, Seq<char>)| pair_le(p, q)),
{
    let leq = |p: (Seq<char>, Seq<char>), q: (Seq<char>, Seq<char>)| pair_le(p, q);
    assert forall|x: (Seq<char>, Seq<char>)| #[trigger] leq(x, x) by {
        lemma_key_le_refl(x.1);
    }
    assert forall|x: (Seq<char>, Seq<char>), y: (Seq<char>, Seq<char>)| #[trigger] leq(x, y) && #[trigger] leq(y, x) implies x == y by {
        if x.0 == y.0 {
            lemma_key_le_antisym(x.1, y.1);
        } else {
            lemma_key_le_antisym(x.0, y.0);
        }
    }
    assert forall|x: (Seq<char>, Seq<char>), y: (Seq<char>, Seq<char>), z: (Seq<char>, Seq<char>)| #[trigger] leq(x, y) && #[trigger] leq(y, z) implies leq(x, z) by {
        if x.0 == y.0 && y.0 == z.0 {
            lemma_key_le_trans(x.1, y.1, z.1);
        } else if x.0 == y.0 {
        } else if y.0 == z.0 {
        } else {
            lemma_key_le_trans(x.0, y.0, z.0);
            if x.0 == z.0 {
                lemma_key_le_antisym(x.0, y.0);
            }
        }
    }
    assert forall|x: (Seq<char>, Seq<char>), y: (Seq<char>, Seq<char>)| #[trigger] leq(x, y) || #[trigger] leq(y, x) by {
        lemma_key_le_total(x.0, y.0);
        lemma_key_le_total(x.1, y.1);
    }
}

/// The cleaned pairs of a query, in the order the query gives them.
pub open spec fn cleaned_pairs(q: Seq<char>) -> Seq<(Seq<char>, Seq<char>)> {
    query_pairs(split_char(q, '&'))
}

proof fn lemma_query_pairs_clean(pieces: Seq<Seq<char>>)
    ensures
        forall|i: int| 0 <= i < query_pairs(pieces).len() ==> !is_tracking_param_spec(#[trigger] query_pairs(pieces)[i].0),
    decreases pieces.len(),
{
    if pieces.len() > 0 {
        lemma_query_pairs_clean(pieces.drop_last());
        let rest = query_pairs(pieces.drop_last());
        assert forall|i: int| 0 <= i < query_pairs(pieces).len() implies !is_tracking_param_spec(#[trigger] query_pairs(pieces)[i].0) by {
            if i < rest.len() {
                assert(query_pairs(pieces)[i] == rest[i]);
            }
        }
    }
}

/// The parameters of a normalised query are stably sorted by key (byte
/// order), as many as the query's non-tracking parameters, and none of
/// them is a tracking parameter.
pub proof fn lemma_normalized_query_sorted_and_clean(q: Seq<char>)
    ensures
        keys_sorted(sort_by_key(cleaned_pairs(q))),
        sort_by_key(cleaned_pairs(q)).to_multiset() == cleaned_pairs(q).to_multiset(),
        forall|i: int| 0 <= i < sort_by_key(cleaned_pairs(q)).len()
            ==> !is_tracking_param_spec(#[trigger] sort_by_key(cleaned_pairs(q))[i].0),
{
    broadcast use vstd::seq_lib::group_to_multiset_ensures;
    let c = cleaned_pairs(q);
    lemma_sort_props(c);
    lemma_query_pairs_clean(split_char(q, '&'));
    assert forall|i: int| 0 <= i < sort_by_key(c).len() implies !is_tracking_param_spec(#[trigger] sort_by_key(c)[i].0) by {
        let x = sort_by_key(c)[i];
        assert(sort_by_key(c).to_multiset().contains(x));
        assert(c.contains(x));
        let k = choose|k: int| 0 <= k < c.len() && c[k] == x;
        assert(!is_tracking_param_spec(c[k].0));
    }
}

/// Two queries holding the same parameters in another order, no key given
/// twice, normalise to the same query: the order of parameters does not
/// change the de-duplication key.
pub proof fn lemma_normalize_query_order_independent(q1: Seq<char>, q2: Seq<char>)
    requires
        cleaned_pairs(q1).to_multiset() == cleaned_pairs(q2).to_multiset(),
        keys_distinct(cleaned_pairs(q1)),
        keys_distinct(cleaned_pairs(q2)),
    ensures
        normalize_query(q1) == normalize_query(q2),
{
    let c1 = cleaned_pairs(q1);
    let c2 = cleaned_pairs(q2);
    let leq = |p: (Seq<char>, Seq<char>), q: (Seq<char>, Seq<char>)| pair_le(p, q);
    lemma_sort_props(c1);
    lemma_sort_props(c2);
    lemma_sort_distinct(c1);
    lemma_sort_distinct(c2);
    lemma_pair_le_total();
    let s1 = sort_by_key(c1);
    let s2 = sort_by_key(c2);
    assert(sorted_by(s1, leq)) by {
        assert forall|i: int, j: int| 0 <= i < j < s1.len() implies #[trigger] leq(s1[i], s1[j]) by {
            assert(key_le(s1[i].0, s1[j].0));
            assert(s1[i].0 != s1[j].0);
        }
    }
    assert(sorted_by(s2, leq)) by {
        assert forall|i: int, j: int| 0 <= i < j < s2.len() implies #[trigger] leq(s2[i], s2[j]) by {
            assert(key_le(s2[i].0, s2[j].0));
            assert(s2[i].0 != s2[j].0);
        }
    }
    lemma_sorted_unique(s1, s2, leq);
    assert(s1 == s2);
}

proof fn lemma_trim_end_append(x: Seq<char>, y: Seq<char>)
    requires
        x.len() > 0,
        !is_ws(x.last()),
    ensures
        trim_end(x + y) == x + trim_end(y),
    decreases y.len(),
{
    if y.len() == 0 {
        assert(x + y =~= x);
        assert(x + trim_end(y) =~= x);
    } else {
        assert((x + y).last() == y.last());
        if is_ws(y.last()) {
            assert((x + y).drop_last() =~= x + y.drop_last());
            lemma_trim_end_append(x, y.drop_last());
        }
    }
}

proof fn lemma_trim_start_append(x: Seq<char>, y: Seq<char>)
    requires
        trim_start(x).len() > 0,
    ensures
        trim_start(x + y) == trim_start(x) + y,
    decreases x.len(),
{
    if x.len() > 0 && is_ws(x[0]) {
        assert((x + y).drop_first() =~= x.drop_first() + y);
        lemma_trim_start_append(x.drop_first(), y);
    } else {
        assert(x.len() > 0);
        assert((x + y)[0] == x[0]);
    }
}

proof fn lemma_scheme_stop_unique(s: Seq<char>, a: int, b: int)
    requires
        is_scheme_stop(s, a),
        is_scheme_stop(s, b),
    ensures
        a == b,
{
    if a < b {
        assert(is_scheme_char(s[a]));
    } else if b < a {
        assert(is_scheme_char(s[b]));
    }
}

/// A fragment does not change the key: `u#f` normalises like `u` when `u`
/// has a scheme, no `#`, and does not end in whitespace.
pub proof fn lemma_fragment_ignored(u: Seq<char>, f: Seq<char>)
    requires
        u.len() > 0,
        !is_ws(u.last()),
        !u.contains('#'),
        scheme_end(trim(u)) is Some,
    ensures
        normalize_url_spec(u + seq!['#'] + f) == normalize_url_spec(u),
{
    let w = u + seq!['#'] + f;
    let ts = trim_start(u);
    crate::text::lemma_trim_end_shape(u);
    assert(trim_end(u) == u);
    crate::text::lemma_trim_start_first(u);
    // trim_start(u) ends with u's last character, so it is not empty
    lemma_trim_start_suffix(u);
    assert(ts.len() > 0);
    assert(ts.last() == u.last());
    lemma_trim_end_append(ts, seq![]);
    assert(ts + Seq::<char>::empty() =~= ts);
    assert(trim(u) == ts) by {
        assert(trim_end(ts + Seq::<char>::empty()) == ts + trim_end(Seq::<char>::empty()));
        assert(ts + trim_end(Seq::<char>::empty()) =~= ts);
    }
    lemma_trim_start_append(u, seq!['#'] + f);
    assert(u + (seq!['#'] + f) =~= w);
    let g = trim_end(seq!['#'] + f);
    lemma_trim_end_append(ts, seq!['#'] + f);
    let t2 = ts + g;
    assert(trim(w) == t2);
    // the scheme of t2 is that of ts
    let k = scheme_end(ts).unwrap();
    let k0 = choose|j: int| is_scheme_stop(ts, j);
    assert(k == k0);
    crate::text::lemma_trim_end_shape(seq!['#'] + f);
    assert(g.len() > 0) by {
        assert((seq!['#'] + f)[0] == '#');
    }
    assert(g[0] == '#') by {
        assert(g == (seq!['#'] + f).take(g.len() as int));
    }
    assert forall|j: int| 0 <= j < ts.len() implies t2[j] == ts[j] by {}
    assert(is_scheme_stop(t2, k0));
    let k2 = choose|j: int| is_scheme_stop(t2, j);
    lemma_scheme_stop_unique(t2, k0, k2);
    assert(scheme_end(t2) == Some(k));
    assert(t2.len() > 0);
    // the part after the scheme loses the fragment
    let r2 = t2.skip(k + 1);
    let r1 = ts.skip(k + 1);
    assert(r2 =~= r1 + g);
    assert(!ts.contains('#')) by {
        assert forall|j: int| 0 <= j < ts.len() implies ts[j] != '#' by {
            lemma_trim_start_suffix(u);
            assert(ts[j] == u[u.len() - ts.len() + j]);
        }
    }
    assert(first_char(r1, '#') is None) by {
        assert forall|j: int| 0 <= j < r1.len() implies r1[j] != '#' by {
            assert(r1[j] == ts[k + 1 + j]);
        }
    }
    assert(r2[r1.len() as int] == '#');
    let p = first_char(r2, '#').unwrap();
    assert(p == r1.len()) by {
        if p < r1.len() {
            assert(r2[p] == r1[p]);
        }
        assert(r2[r1.len() as int] == '#');
    }
    assert(before_fragment(r2) =~= before_fragment(r1));
    assert(t2.take(k) =~= ts.take(k));
}

proof fn lemma_trim_start_suffix(s: Seq<char>)
    ensures
        trim_start(s).len() <= s.len(),
        trim_start(s) == s.skip(s.len() - trim_start(s).len()),
    decreases s.len(),
{
    if s.len() > 0 && is_ws(s[0]) {
        lemma_trim_start_suffix(s.drop_first());
        assert(s.drop_first().skip(s.drop_first().len() - trim_start(s).len()) =~= s.skip(
            s.len() - trim_start(s).len(),
        ));
    } else {
        assert(s.skip(0) =~= s);
    }
}

} // verus!

verus! {

// ---------------------------------------------------------------------------
// remove_dot_segments: shape and idempotence
// ---------------------------------------------------------------------------

/// A segment that survives dot removal: not empty, not `.` or `..`, and
/// without `/`.
pub open spec fn plain_segment(s: Seq<char>) -> bool {
    s.len() > 0 && s != seq!['.'] && s != seq!['.', '.'] && !s.contains('/')
}

pub open spec fn plain_segments(xs: Seq<Seq<char>>) -> bool {
    forall|i: int| 0 <= i < xs.len() ==> plain_segment(#[trigger] xs[i])
}

proof fn lemma_split_no_sep(s: Seq<char>, c: char)
    ensures
        forall|i: int| 0 <= i < split_char(s, c).len() ==> !(#[trigger] split_char(s, c)[i]).contains(c),
    decreases s.len(),
{
    if s.len() > 0 {
        let p = s.drop_last();
        lemma_split_no_sep(p, c);
        crate::text::lemma_split_char_nonempty(p, c);
        let rest = split_char(p, c);
        if s.last() != c {
            assert forall|i: int| 0 <= i < split_char(s, c).len() implies !(#[trigger] split_char(s, c)[i]).contains(c) by {
                if i == rest.len() - 1 {
                    let x = rest.last().push(s.last());
                    assert(split_char(s, c)[i] == x);
                    if x.contains(c) {
                        let k = choose|k: int| 0 <= k < x.len() && x[k] == c;
                        if k < rest.last().len() {
                            assert(rest.last()[k] == c);
                            assert(rest.last().contains(c));
                        }
                    }
                }
            }
        } else {
            assert forall|i: int| 0 <= i < split_char(s, c).len() implies !(#[trigger] split_char(s, c)[i]).contains(c) by {
                if i == rest.len() {
                    assert(split_char(s, c)[i] =~= Seq::<char>::empty());
                }
            }
        }
    }
}

proof fn lemma_dot_fold_plain(segs: Seq<Seq<char>>)
    requires
        forall|i: int| 0 <= i < segs.len() ==> !(#[trigger] segs[i]).contains('/'),
    ensures
        plain_segments(dot_fold(segs)),
    decreases segs.len(),
{
    if segs.len() > 0 {
        let p = segs.drop_last();
        assert forall|i: int| 0 <= i < p.len() implies !(#[trigger] p[i]).contains('/') by {
            assert(p[i] == segs[i]);
        }
        lemma_dot_fold_plain(p);
        assert(!segs.last().contains('/'));
    }
}

/// Plain segments pass through the stack machine unchanged.
proof fn lemma_dot_fold_of_plain(xs: Seq<Seq<char>>)
    requires
        plain_segments(xs),
    ensures
        dot_fold(xs) == xs,
    decreases xs.len(),
{
    if xs.len() > 0 {
        let p = xs.drop_last();
        assert forall|i: int| 0 <= i < p.len() implies plain_segment(#[trigger] p[i]) by {
            assert(p[i] == xs[i]);
        }
        lemma_dot_fold_of_plain(p);
        assert(plain_segment(xs.last()));
        assert(p.push(xs.last()) =~= xs);
    }
}

/// A leading empty segment is skipped.
proof fn lemma_dot_fold_lead_empty(xs: Seq<Seq<char>>)
    requires
        plain_segments(xs),
    ensures
        dot_fold(seq![Seq::<char>::empty()] + xs) == xs,
    decreases xs.len(),
{
    let ys = seq![Seq::<char>::empty()] + xs;
    if xs.len() == 0 {
        assert(ys.drop_last() =~= Seq::<Seq<char>>::empty());
        assert(dot_fold(ys.drop_last()) =~= Seq::<Seq<char>>::empty());
        assert(ys.last() =~= Seq::<char>::empty());
        assert(dot_fold(ys) == dot_step(dot_fold(ys.drop_last()), ys.last()));
        assert(xs =~= Seq::<Seq<char>>::empty());
    } else {
        let p = xs.drop_last();
        assert forall|i: int| 0 <= i < p.len() implies plain_segment(#[trigger] p[i]) by {
            assert(p[i] == xs[i]);
        }
        lemma_dot_fold_lead_empty(p);
        assert(dot_fold(ys) == dot_step(dot_fold(ys.drop_last()), ys.last()));
        assert(ys.drop_last() =~= seq![Seq::<char>::empty()] + p);
        assert(ys.last() == xs.last());
        assert(plain_segment(xs.last()));
        assert(p.push(xs.last()) =~= xs);
    }
}

/// Splitting at a separator distributes over it.
proof fn lemma_split_concat(a: Seq<char>, b: Seq<char>, c: char)
    ensures
        split_char(a + seq![c] + b, c) == split_char(a, c) + split_char(b, c),
    decreases b.len(),
{
    let s = a + seq![c] + b;
    crate::text::lemma_split_char_nonempty(a, c);
    if b.len() == 0 {
        assert(s.drop_last() =~= a);
        assert(split_char(b, c) =~= seq![Seq::<char>::empty()]);
        assert(split_char(s, c) =~= split_char(a, c) + split_char(b, c));
    } else {
        let bp = b.drop_last();
        lemma_split_concat(a, bp, c);
        crate::text::lemma_split_char_nonempty(bp, c);
        assert(s.drop_last() =~= a + seq![c] + bp);
        assert(s.last() == b.last());
        let sa = split_char(a, c);
        let sb = split_char(bp, c);
        if b.last() == c {
            assert((sa + sb).push(Seq::<char>::empty()) =~= sa + sb.push(Seq::<char>::empty()));
        } else {
            let u = (sa + sb).update((sa + sb).len() - 1, (sa + sb).last().push(b.last()));
            assert(u =~= sa + sb.update(sb.len() - 1, sb.last().push(b.last())));
        }
    }
}

proof fn lemma_split_single(b: Seq<char>, c: char)
    requires
        !b.contains(c),
    ensures
        split_char(b, c) == seq![b],
    decreases b.len(),
{
    if b.len() > 0 {
        let p = b.drop_last();
        assert(!p.contains(c)) by {
            if p.contains(c) {
                let k = choose|k: int| 0 <= k < p.len() && p[k] == c;
                assert(b[k] == c);
            }
        }
        lemma_split_single(p, c);
        assert(b.last() != c);
        assert(p.push(b.last()) =~= b);
        assert(seq![p].update(0, p.push(b.last())) =~= seq![b]);
    } else {
        assert(b =~= Seq::<char>::empty());
    }
}

proof fn lemma_split_join(xs: Seq<Seq<char>>)
    requires
        xs.len() > 0,
        forall|i: int| 0 <= i < xs.len() ==> !(#[trigger] xs[i]).contains('/'),
    ensures
        split_char(join(xs, seq!['/']), '/') == xs,
    decreases xs.len(),
{
    if xs.len() == 1 {
        lemma_split_single(xs[0], '/');
        assert(seq![xs[0]] =~= xs);
    } else {
        let p = xs.drop_last();
        assert forall|i: int| 0 <= i < p.len() implies !(#[trigger] p[i]).contains('/') by {
            assert(p[i] == xs[i]);
        }
        lemma_split_join(p);
        lemma_split_concat(join(p, seq!['/']), xs.last(), '/');
        assert(join(p, seq!['/']) + seq!['/'] + xs.last() == join(xs, seq!['/']));
        lemma_split_single(xs.last(), '/');
        assert(p + seq![xs.last()] =~= xs);
    }
}

proof fn lemma_join_first(xs: Seq<Seq<char>>)
    requires
        xs.len() > 0,
        xs[0].len() > 0,
    ensures
        join(xs, seq!['/']).len() > 0,
        join(xs, seq!['/'])[0] == xs[0][0],
    decreases xs.len(),
{
    if xs.len() > 1 {
        let p = xs.drop_last();
        assert(p[0] == xs[0]);
        lemma_join_first(p);
        let j = join(p, seq!['/']) + seq!['/'] + xs.last();
        assert(j[0] == join(p, seq!['/'])[0]);
    }
}

/// Dot removal leaves only plain segments, keeps a leading `/` (and adds
/// none), and removing dot segments again changes nothing.
pub proof fn lemma_remove_dot_segments_idempotent(p: Seq<char>)
    ensures
        plain_segments(dot_fold(split_char(p, '/'))),
        p.len() > 0 && p[0] == '/' ==> remove_dot_segments_spec(p).len() > 0 && remove_dot_segments_spec(p)[0] == '/',
        p.len() > 0 && p[0] != '/' && remove_dot_segments_spec(p).len() > 0 ==> remove_dot_segments_spec(p)[0] != '/',
        remove_dot_segments_spec(remove_dot_segments_spec(p)) == remove_dot_segments_spec(p),
{
    let r = remove_dot_segments_spec(p);
    lemma_split_no_sep(p, '/');
    let out = dot_fold(split_char(p, '/'));
    lemma_dot_fold_plain(split_char(p, '/'));
    if p.len() == 0 {
        return;
    }
    assert forall|i: int| 0 <= i < out.len() implies !(#[trigger] out[i]).contains('/') by {
        assert(plain_segment(out[i]));
    }
    if p[0] == '/' {
        if out.len() == 0 {
            assert(r =~= seq!['/']);
            lemma_split_concat(Seq::<char>::empty(), Seq::<char>::empty(), '/');
            assert(Seq::<char>::empty() + seq!['/'] + Seq::<char>::empty() =~= seq!['/']);
            assert(split_char(Seq::<char>::empty(), '/') =~= seq![Seq::<char>::empty()]);
            let ss = split_char(r, '/');
            assert(ss =~= seq![Seq::<char>::empty(), Seq::<char>::empty()]);
            assert(ss.drop_last() =~= seq![Seq::<char>::empty()]);
            let s1 = ss.drop_last();
            assert(s1.drop_last() =~= Seq::<Seq<char>>::empty());
            assert(dot_fold(s1.drop_last()) =~= Seq::<Seq<char>>::empty());
            assert(s1.last() =~= Seq::<char>::empty());
            assert(dot_fold(s1) == dot_step(dot_fold(s1.drop_last()), s1.last()));
            assert(dot_fold(s1) =~= Seq::<Seq<char>>::empty());
            assert(ss.last() =~= Seq::<char>::empty());
            assert(dot_fold(ss) == dot_step(dot_fold(s1), ss.last()));
            assert(dot_fold(ss) =~= Seq::<Seq<char>>::empty());
        } else {
            let j = join(out, seq!['/']);
            assert(r == seq!['/'] + j);
            lemma_split_join(out);
            lemma_split_concat(Seq::<char>::empty(), j, '/');
            assert(Seq::<char>::empty() + seq!['/'] + j =~= r);
            assert(split_char(Seq::<char>::empty(), '/') =~= seq![Seq::<char>::empty()]);
            lemma_dot_fold_lead_empty(out);
            assert(r[0] == '/');
        }
    } else {
        if out.len() > 0 {
            let j = join(out, seq!['/']);
            assert(plain_segment(out[0]));
            lemma_join_first(out);
            assert(r == j);
            assert(j[0] == out[0][0]);
            assert(out[0][0] != '/') by {
                assert(!out[0].contains('/'));
                if out[0][0] == '/' {
                    assert(out[0].contains('/'));
                }
            }
            lemma_split_join(out);
            lemma_dot_fold_of_plain(out);
        } else {
            assert(r == join(out, seq!['/']));
            assert(r =~= Seq::<char>::empty());
        }
    }
}

} // verus!

verus! {

// ---------------------------------------------------------------------------
// Laws of tracking parameters
// ---------------------------------------------------------------------------

/// A key that names a tracking parameter: after ASCII lower-casing, one of
/// `spm`, `ref`, `from`, `isappinstalled`, `nsukey`, `st`, or starting with
/// `utm_`, `share_` or `wechat_`.
pub open spec fn listed_tracking_key(k: Seq<char>) -> bool {
    let l = ascii_lower(k);
    ||| l == "spm"@
    ||| l == "ref"@
    ||| l == "from"@
    ||| l == "isappinstalled"@
    ||| l == "nsukey"@
    ||| l == "st"@
    ||| (l.len() >= 4 && l.take(4) == "utm_"@)
    ||| (l.len() >= 6 && l.take(6) == "share_"@)
    ||| (l.len() >= 7 && l.take(7) == "wechat_"@)
}

proof fn lemma_listed_is_tracking(k: Seq<char>)
    requires
        listed_tracking_key(k),
    ensures
        is_tracking_param_spec(k),
{
    let l = ascii_lower(k);
    reveal_strlit("utm_");
    reveal_strlit("share_");
    reveal_strlit("wechat_");
    if l.len() >= 4 && l.take(4) == "utm_"@ {
        assert(starts_with(l, "utm_"@));
    } else if l.len() >= 6 && l.take(6) == "share_"@ {
        assert(starts_with(l, "share_"@));
    } else if l.len() >= 7 && l.take(7) == "wechat_"@ {
        assert(starts_with(l, "wechat_"@));
    }
}

/// A parameter appended to a query: `q&k=v`.
pub open spec fn with_param(q: Seq<char>, k: Seq<char>, v: Seq<char>) -> Seq<char> {
    q + seq!['&'] + k + seq!['='] + v
}

/// Appending a tracking parameter to a query leaves its normal form as it
/// was: tracking parameters never reach the de-duplication key.
pub proof fn lemma_tracking_param_dropped(q: Seq<char>, k: Seq<char>, v: Seq<char>)
    requires
        listed_tracking_key(k),
        !k.contains('&'),
        !k.contains('='),
        !v.contains('&'),
    ensures
        normalize_query(with_param(q, k, v)) == normalize_query(q),
{
    let b = k + seq!['='] + v;
    assert(with_param(q, k, v) =~= q + seq!['&'] + b);
    lemma_split_concat(q, b, '&');
    assert(!b.contains('&')) by {
        if b.contains('&') {
            let j = choose|j: int| 0 <= j < b.len() && b[j] == '&';
            if j < k.len() {
                assert(k[j] == '&');
            } else if j > k.len() {
                assert(v[j - k.len() - 1] == '&');
            }
        }
    }
    lemma_split_single(b, '&');
    let ps = split_char(q, '&');
    let all = ps + seq![b];
    assert(all.drop_last() =~= ps);
    assert(all.last() == b);
    assert(b[k.len() as int] == '=');
    assert(first_char(b, '=') == Some(k.len() as int)) by {
        assert(exists|i: int| 0 <= i < b.len() && b[i] == '=');
        let i = choose|i: int| 0 <= i < b.len() && b[i] == '=' && forall|j: int| 0 <= j < i ==> b[j] != '=';
        if i < k.len() {
            assert(k[i] == '=');
        }
        assert(i <= k.len());
    }
    assert(kv_split(b).0 =~= k);
    lemma_listed_is_tracking(k);
    assert(query_pairs(all) == query_pairs(ps));
}

/// No parameter that a normalised query keeps has a tracking key: whatever
/// the query, the keys rendered into its normal form are, after ASCII
/// lower-casing, none of `spm`, `ref`, `from`, `isappinstalled`, `nsukey`,
/// `st`, and start with none of `utm_`, `share_`, `wechat_`.
pub proof fn lemma_normalized_query_keeps_no_tracking_key(q: Seq<char>)
    ensures
        forall|i: int| 0 <= i < sort_by_key(cleaned_pairs(q)).len()
            ==> !listed_tracking_key(#[trigger] sort_by_key(cleaned_pairs(q))[i].0),
{
    lemma_normalized_query_sorted_and_clean(q);
    assert forall|i: int| 0 <= i < sort_by_key(cleaned_pairs(q)).len()
        implies !listed_tracking_key(#[trigger] sort_by_key(cleaned_pairs(q))[i].0) by {
        let k = sort_by_key(cleaned_pairs(q))[i].0;
        assert(!is_tracking_param_spec(k));
        if listed_tracking_key(k) {
            lemma_listed_is_tracking(k);
        }
    }
}

} // verus!

verus! {

proof fn lemma_append_keeps_trim_and_scheme(u: Seq<char>, s: Seq<char>)
    requires
        u.len() > 0,
        !is_ws(u[0]),
        !is_ws(u.last()),
        s.len() > 0,
        !is_ws(s.last()),
        scheme_end(u) is Some,
    ensures
        trim(u) == u,
        trim(u + s) == u + s,
        scheme_end(u + s) == scheme_end(u),
{
    let w = u + s;
    assert(trim_start(u) == u);
    crate::text::lemma_trim_end_shape(u);
    assert(trim_end(u) == u);
    assert(trim_end(s) == s);
    lemma_trim_start_append(u, s);
    lemma_trim_end_append(u, s);
    let kk = scheme_end(u).unwrap();
    let k0 = choose|j: int| is_scheme_stop(u, j);
    assert(kk == k0);
    assert forall|j: int| 0 <= j < u.len() implies w[j] == u[j] by {}
    assert(is_scheme_stop(w, k0));
    let k2 = choose|j: int| is_scheme_stop(w, j);
    lemma_scheme_stop_unique(w, k0, k2);
}

proof fn lemma_first_char_prefix(a: Seq<char>, b: Seq<char>, c: char, p: int)
    requires
        first_char(a, c) == Some(p),
    ensures
        first_char(a + b, c) == Some(p),
{
    let w = a + b;
    crate::text::lemma_first_char_spec(a, c);
    crate::text::lemma_first_char_spec(w, c);
    assert(w[p] == c);
    match first_char(w, c) {
        Some(p2) => {
            if p2 < p {
                assert(w[p2] == a[p2]);
            } else if p < p2 {
                assert(w[p] != c);
            }
        },
        None => {
            assert(w[p] != c);
        },
    }
}

proof fn lemma_first_char_none(a: Seq<char>, b: Seq<char>, c: char)
    requires
        !a.contains(c),
        !b.contains(c),
    ensures
        first_char(a, c) is None,
        first_char(a + b, c) is None,
{
    let w = a + b;
    if exists|j: int| 0 <= j < w.len() && w[j] == c {
        let j = choose|j: int| 0 <= j < w.len() && w[j] == c;
        if j < a.len() {
            assert(a[j] == c);
            assert(a.contains(c));
        } else {
            assert(b[j - a.len()] == c);
            assert(b.contains(c));
        }
    }
}

proof fn lemma_query_after_append(r1: Seq<char>, s: Seq<char>, p: int)
    requires
        !r1.contains('#'),
        !s.contains('#'),
        0 <= p < r1.len(),
        first_char(r1, '?') == Some(p),
    ensures
        before_fragment(r1) == r1,
        before_fragment(r1 + s) == r1 + s,
        split_query(r1 + s).0 == split_query(r1).0,
        split_query(r1).1 == Some(r1.skip(p + 1)),
        split_query(r1 + s).1 == Some(r1.skip(p + 1) + s),
{
    let r2 = r1 + s;
    lemma_first_char_none(r1, s, '#');
    lemma_first_char_prefix(r1, s, '?', p);
    assert(r2.take(p) =~= r1.take(p));
    assert(r2.skip(p + 1) =~= r1.skip(p + 1) + s);
}

proof fn lemma_assemble_append(u: Seq<char>, s: Seq<char>, kk: int)
    requires
        0 <= kk < u.len(),
        !u.skip(kk + 1).contains('#'),
        !s.contains('#'),
        u.skip(kk + 1).contains('?'),
        forall|q: Seq<char>| normalize_query(#[trigger] (q + s)) == normalize_query(q),
    ensures
        assemble(u + s, kk) == assemble(u, kk),
{
    let r1 = u.skip(kk + 1);
    let w = u + s;
    assert(w.skip(kk + 1) =~= r1 + s);
    crate::text::lemma_first_char_spec(r1, '?');
    let j = choose|j: int| 0 <= j < r1.len() && r1[j] == '?';
    assert(r1[j] == '?');
    let p = first_char(r1, '?').unwrap();
    lemma_query_after_append(r1, s, p);
    let q1 = r1.skip(p + 1);
    assert(normalize_query(q1 + s) == normalize_query(q1));
    assert(w.take(kk) =~= u.take(kk));
}

proof fn lemma_query_after_scheme(u: Seq<char>, kk: int)
    requires
        scheme_end(u) == Some(kk),
        u.contains('?'),
        !u.contains('#'),
    ensures
        0 <= kk < u.len(),
        u.skip(kk + 1).contains('?'),
        !u.skip(kk + 1).contains('#'),
{
    let k0 = choose|j: int| is_scheme_stop(u, j);
    assert(kk == k0 && u[kk] == ':');
    let j0 = choose|j: int| 0 <= j < u.len() && u[j] == '?';
    assert(j0 > kk) by {
        if j0 == 0 {
            assert(is_ascii_alpha(u[0]));
        } else if j0 < kk {
            assert(is_scheme_char(u[j0]));
        }
    }
    let r1 = u.skip(kk + 1);
    assert(r1[j0 - kk - 1] == '?');
    if r1.contains('#') {
        let j = choose|j: int| 0 <= j < r1.len() && r1[j] == '#';
        assert(u[kk + 1 + j] == '#');
    }
}

/// Appending a tracking parameter to the query of a URL does not change its
/// de-duplication key: `normalize_url(u&k=v) == normalize_url(u)` for a URL
/// `u` with a scheme and a query, no fragment, and no white space at its
/// ends.
#[verifier::rlimit(40)]
pub proof fn lemma_url_tracking_param_dropped(u: Seq<char>, k: Seq<char>, v: Seq<char>)
    requires
        u.len() > 0,
        !is_ws(u[0]),
        !is_ws(u.last()),
        scheme_end(u) is Some,
        u.contains('?'),
        !u.contains('#'),
        listed_tracking_key(k),
        !k.contains('&'),
        !k.contains('='),
        !k.contains('#'),
        !v.contains('&'),
        !v.contains('#'),
        v.len() == 0 || !is_ws(v.last()),
    ensures
        normalize_url_spec(u + seq!['&'] + k + seq!['='] + v) == normalize_url_spec(u),
{
    let s = seq!['&'] + k + seq!['='] + v;
    let w = u + s;
    assert(u + seq!['&'] + k + seq!['='] + v =~= w);
    assert(s.len() > 0);
    assert(!is_ws(s.last())) by {
        if v.len() == 0 {
            assert(s.last() == '=');
        } else {
            assert(s.last() == v.last());
        }
    }
    lemma_append_keeps_trim_and_scheme(u, s);
    let kk = scheme_end(u).unwrap();
    lemma_query_after_scheme(u, kk);
    assert(!s.contains('#')) by {
        if s.contains('#') {
            let j = choose|j: int| 0 <= j < s.len() && s[j] == '#';
            if j == 0 {
            } else if j <= k.len() {
                assert(k[j - 1] == '#');
            } else if j == k.len() + 1 {
            } else {
                assert(v[j - k.len() - 2] == '#');
            }
        }
    }
    assert forall|q: Seq<char>| normalize_query(#[trigger] (q + s)) == normalize_query(q) by {
        assert(q + s =~= with_param(q, k, v));
        lemma_tracking_param_dropped(q, k, v);
    }
    lemma_assemble_append(u, s, kk);
}

} // verus!
