//! Character-sequence utilities shared by the crawler modules.
//!
//! Strings are modelled by their view, a `Seq<char>`. The executable helpers
//! work on `Vec<char>` / `&[char]` and are proved against the spec functions
//! below, which state the behaviour of the corresponding `str` operations.
use vstd::prelude::*;
use vstd::utf8::encode_utf8;

verus! {

// ---------------------------------------------------------------------------
// Conversions
// ---------------------------------------------------------------------------

/// The characters of `s`, in order.
pub fn chars_of(s: &str) -> (v: Vec<char>)
    ensures
        v@ == s@,
{
    let mut v: Vec<char> = Vec::new();
    for c in it: s.chars()
        invariant
            v@ == it.seq().take(it.index() as int),
    {
        v.push(c);
    }
    v
}

/// Builds a `String` holding exactly the given characters
/// (`String::from_iter` over a char slice); the result's view is `v`.
#[verifier::external_body]
pub(crate) fn string_from_chars(v: &[char]) -> (s: String)
    ensures
        s@ == v@,
{
    v.iter().collect()
}

/// The text `format!("{:?}", s)` gives for a string: quoted, with the
/// escapes of `str::escape_debug`.
pub uninterp spec fn debug_str(s: Seq<char>) -> Seq<char>;

/// `format!("{:?}", s)`.
#[verifier::external_body]
pub(crate) fn debug_string(s: &str) -> (r: String)
    ensures
        r@ == debug_str(s@),
{
    format!("{:?}", s)
}

/// `a == b` on character sequences.
pub fn seq_eq(a: &[char], b: &[char]) -> (res: bool)
    ensures
        res == (a@ == b@),
{
    if a.len() != b.len() {
        return false;
    }
    let mut i: usize = 0;
    while i < a.len()
        invariant
            a.len() == b.len(),
            i <= a.len(),
            forall|j: int| 0 <= j < i ==> a@[j] == b@[j],
        decreases a.len() - i,
    {
        if a[i] != b[i] {
            return false;
        }
        i = i + 1;
    }
    assert(a@ =~= b@);
    true
}

/// `a == b` on strings.
pub fn str_eq(a: &str, b: &str) -> (res: bool)
    ensures
        res == (a@ == b@),
{
    let va = chars_of(a);
    let vb = chars_of(b);
    seq_eq(va.as_slice(), vb.as_slice())
}

/// The number of UTF-8 bytes of `s`, as `str::len` returns it.
pub open spec fn byte_len(s: Seq<char>) -> usize {
    encode_utf8(s).len() as usize
}

/// `s.len()`: the UTF-8 byte length of a string.
pub fn str_byte_len(s: &str) -> (r: usize)
    ensures
        r == byte_len(s@),
        r == encode_utf8(s@).len(),
{
    let b = s.as_bytes();
    b.len()
}

/// UTF-8 encoding distributes over concatenation.
pub proof fn lemma_encode_utf8_concat(a: Seq<char>, b: Seq<char>)
    ensures
        encode_utf8(a + b) == encode_utf8(a) + encode_utf8(b),
    decreases a.len(),
{
    if a.len() == 0 {
        assert(a + b =~= b);
        assert(encode_utf8(a) + encode_utf8(b) =~= encode_utf8(b));
    } else {
        assert((a + b).drop_first() =~= a.drop_first() + b);
        assert((a + b)[0] == a[0]);
        lemma_encode_utf8_concat(a.drop_first(), b);
        assert(encode_utf8(a + b) =~= encode_utf8(a) + encode_utf8(b));
    }
}

/// Every character takes at least one byte, so longer prefixes take more
/// bytes.
pub proof fn lemma_prefix_bytes_strict(s: Seq<char>, i: int, j: int)
    requires
        0 <= i < j <= s.len(),
    ensures
        encode_utf8(s.take(i)).len() < encode_utf8(s.take(j)).len(),
{
    let rest = s.subrange(i, j);
    assert(s.take(j) =~= s.take(i) + rest);
    lemma_encode_utf8_concat(s.take(i), rest);
    assert(rest.len() > 0);
    assert(encode_utf8(rest).len() > 0);
}

/// `str::get(..n)`: the prefix of `s` that is `n` bytes long, when `n` is a
/// character boundary of `s`.
#[verifier::external_body]
pub(crate) fn str_get_prefix(s: &str, n: usize) -> (r: Option<&str>)
    ensures
        match r {
            Some(p) => p@ == s@.take(p@.len() as int) && p@.len() <= s@.len()
                && encode_utf8(p@).len() == n,
            None => forall|k: int| 0 <= k <= s@.len() ==> encode_utf8(#[trigger] s@.take(k)).len() != n,
        },
{
    s.get(..n)
}

/// `str::trim_end_matches(c)`: all trailing `c` removed.
pub open spec fn trim_end_char(s: Seq<char>, c: char) -> Seq<char>
    decreases s.len(),
{
    if s.len() > 0 && s.last() == c {
        trim_end_char(s.drop_last(), c)
    } else {
        s
    }
}

/// `trim_end_matches(c)` on a character vector.
pub fn trim_end_char_exec(v: &[char], c: char) -> (r: Vec<char>)
    ensures
        r@ == trim_end_char(v@, c),
{
    let mut e: usize = v.len();
    assert(v@.take(e as int) =~= v@);
    while e > 0 && v[e - 1] == c
        invariant
            e <= v.len(),
            trim_end_char(v@.take(e as int), c) == trim_end_char(v@, c),
        decreases e,
    {
        assert(v@.take(e as int).drop_last() =~= v@.take(e - 1));
        e = e - 1;
    }
    let r = slice_range(v, 0, e);
    assert(r@ =~= v@.take(e as int));
    r
}

/// All characters are ASCII digits, and there is at least one.
pub open spec fn is_numeric(s: Seq<char>) -> bool {
    s.len() > 0 && forall|i: int| 0 <= i < s.len() ==> is_ascii_digit(#[trigger] s[i])
}

pub fn is_numeric_exec(v: &[char]) -> (r: bool)
    ensures
        r == is_numeric(v@),
{
    if v.len() == 0 {
        return false;
    }
    let mut i: usize = 0;
    while i < v.len()
        invariant
            i <= v.len(),
            forall|k: int| 0 <= k < i ==> is_ascii_digit(#[trigger] v@[k]),
        decreases v.len() - i,
    {
        if !('0' <= v[i] && v[i] <= '9') {
            return false;
        }
        i = i + 1;
    }
    true
}

// ---------------------------------------------------------------------------
// ASCII case mapping
// ---------------------------------------------------------------------------

pub open spec fn is_ascii_upper(c: char) -> bool {
    'A' <= c && c <= 'Z'
}

pub open spec fn is_ascii_lower(c: char) -> bool {
    'a' <= c && c <= 'z'
}

pub open spec fn is_ascii_digit(c: char) -> bool {
    '0' <= c && c <= '9'
}

pub open spec fn is_ascii_alpha(c: char) -> bool {
    is_ascii_upper(c) || is_ascii_lower(c)
}

pub open spec fn is_ascii_alnum(c: char) -> bool {
    is_ascii_alpha(c) || is_ascii_digit(c)
}

/// `char::to_ascii_lowercase`.
pub open spec fn lower_char(c: char) -> char {
    if is_ascii_upper(c) {
        ((c as u32) + 32) as char
    } else {
        c
    }
}

/// `str::to_ascii_lowercase`.
pub open spec fn ascii_lower(s: Seq<char>) -> Seq<char> {
    s.map_values(|c: char| lower_char(c))
}

pub fn lower_char_exec(c: char) -> (r: char)
    ensures
        r == lower_char(c),
{
    if 'A' <= c && c <= 'Z' {
        let b: u8 = c as u8;
        ((b + 32) as char)
    } else {
        c
    }
}

/// The ASCII-lowercased copy of `v`.
pub fn to_ascii_lower(v: &[char]) -> (r: Vec<char>)
    ensures
        r@ == ascii_lower(v@),
{
    let mut r: Vec<char> = Vec::new();
    let mut i: usize = 0;
    while i < v.len()
        invariant
            i <= v.len(),
            r@ == ascii_lower(v@.take(i as int)),
        decreases v.len() - i,
    {
        let c = lower_char_exec(v[i]);
        r.push(c);
        assert(ascii_lower(v@.take(i + 1)) =~= ascii_lower(v@.take(i as int)).push(lower_char(v@[i as int])));
        i = i + 1;
    }
    assert(v@.take(v.len() as int) =~= v@);
    r
}

// ---------------------------------------------------------------------------
// Whitespace and trimming
// ---------------------------------------------------------------------------

/// `char::is_whitespace`: the Unicode `White_Space` property.
pub open spec fn is_ws(c: char) -> bool {
    ||| ('\u{9}' <= c && c <= '\u{d}')
    ||| c == ' '
    ||| c == '\u{85}'
    ||| c == '\u{a0}'
    ||| c == '\u{1680}'
    ||| ('\u{2000}' <= c && c <= '\u{200a}')
    ||| c == '\u{2028}'
    ||| c == '\u{2029}'
    ||| c == '\u{202f}'
    ||| c == '\u{205f}'
    ||| c == '\u{3000}'
}

pub fn is_ws_exec(c: char) -> (r: bool)
    ensures
        r == is_ws(c),
{
    ('\u{9}' <= c && c <= '\u{d}') || c == ' ' || c == '\u{85}' || c == '\u{a0}'
        || c == '\u{1680}' || ('\u{2000}' <= c && c <= '\u{200a}') || c == '\u{2028}'
        || c == '\u{2029}' || c == '\u{202f}' || c == '\u{205f}' || c == '\u{3000}'
}

/// `str::trim_start`.
pub open spec fn trim_start(s: Seq<char>) -> Seq<char>
    decreases s.len(),
{
    if s.len() > 0 && is_ws(s[0]) {
        trim_start(s.drop_first())
    } else {
        s
    }
}

/// `str::trim_end`.
pub open spec fn trim_end(s: Seq<char>) -> Seq<char>
    decreases s.len(),
{
    if s.len() > 0 && is_ws(s.last()) {
        trim_end(s.drop_last())
    } else {
        s
    }
}

/// `str::trim`.
pub open spec fn trim(s: Seq<char>) -> Seq<char> {
    trim_end(trim_start(s))
}

pub proof fn lemma_trim_start_first(s: Seq<char>)
    ensures
        trim_start(s).len() == 0 || !is_ws(trim_start(s)[0]),
    decreases s.len(),
{
    if s.len() > 0 && is_ws(s[0]) {
        lemma_trim_start_first(s.drop_first());
    }
}

pub proof fn lemma_trim_end_shape(s: Seq<char>)
    ensures
        trim_end(s).len() <= s.len(),
        trim_end(s) == s.take(trim_end(s).len() as int),
        trim_end(s).len() == 0 || !is_ws(trim_end(s).last()),
        s.len() > 0 && !is_ws(s[0]) ==> trim_end(s).len() > 0,
    decreases s.len(),
{
    if s.len() > 0 && is_ws(s.last()) {
        lemma_trim_end_shape(s.drop_last());
        let t = trim_end(s.drop_last());
        assert(s.drop_last().take(t.len() as int) =~= s.take(t.len() as int));
        if s.len() > 1 && !is_ws(s[0]) {
            assert(s.drop_last()[0] == s[0]);
        }
    } else {
        assert(s.take(s.len() as int) =~= s);
    }
}

/// Trimming twice is trimming once.
pub proof fn lemma_trim_idempotent(s: Seq<char>)
    ensures
        trim(trim(s)) == trim(s),
{
    let a = trim_start(s);
    let t = trim_end(a);
    lemma_trim_start_first(s);
    lemma_trim_end_shape(a);
    if t.len() > 0 {
        assert(t[0] == a[0]);
    }
    assert(trim_start(t) == t);
    lemma_trim_end_shape(t);
    assert(trim_end(t) == t);
}

proof fn lemma_trim_start_skip(s: Seq<char>, i: int)
    requires
        0 <= i < s.len(),
        is_ws(s[i]),
    ensures
        trim_start(s.skip(i)) == trim_start(s.skip(i + 1)),
{
    assert(s.skip(i).drop_first() =~= s.skip(i + 1));
}

/// Bounds `(a, b)` with `trim(v) == v[a..b]`.
pub fn trim_bounds(v: &[char]) -> (r: (usize, usize))
    ensures
        r.0 <= r.1 <= v.len(),
        trim(v@) == v@.subrange(r.0 as int, r.1 as int),
{
    let mut a: usize = 0;
    assert(v@.skip(0) =~= v@);
    while a < v.len() && is_ws_exec(v[a])
        invariant
            a <= v.len(),
            trim_start(v@) == trim_start(v@.skip(a as int)),
        decreases v.len() - a,
    {
        proof {
            lemma_trim_start_skip(v@, a as int);
        }
        a = a + 1;
    }
    let ghost rest = v@.skip(a as int);
    assert(trim_start(v@) == rest) by {
        if a < v.len() {
            assert(rest[0] == v@[a as int]);
        } else {
            assert(rest.len() == 0);
        }
    }
    let mut b: usize = v.len();
    while b > a && is_ws_exec(v[b - 1])
        invariant
            a <= b <= v.len(),
            trim_end(rest) == trim_end(v@.subrange(a as int, b as int)),
            rest == v@.skip(a as int),
        decreases b,
    {
        proof {
            let t = v@.subrange(a as int, b as int);
            assert(t.drop_last() =~= v@.subrange(a as int, b - 1));
        }
        b = b - 1;
    }
    proof {
        let t = v@.subrange(a as int, b as int);
        if b > a {
            assert(t.last() == v@[b - 1]);
        }
    }
    (a, b)
}

/// `str::trim` on a character slice.
pub fn trim_chars(v: &[char]) -> (r: Vec<char>)
    ensures
        r@ == trim(v@),
{
    let (a, b) = trim_bounds(v);
    slice_range(v, a, b)
}

/// Whether `trim(s)` is empty.
pub fn is_blank(s: &str) -> (r: bool)
    ensures
        r == (trim(s@).len() == 0),
{
    let v = chars_of(s);
    let (a, b) = trim_bounds(v.as_slice());
    a == b
}

/// `v[a..b]` as a new vector.
pub fn slice_range(v: &[char], a: usize, b: usize) -> (r: Vec<char>)
    requires
        a <= b <= v.len(),
    ensures
        r@ == v@.subrange(a as int, b as int),
{
    let mut r: Vec<char> = Vec::new();
    let mut i: usize = a;
    while i < b
        invariant
            a <= i <= b <= v.len(),
            r@ == v@.subrange(a as int, i as int),
        decreases b - i,
    {
        r.push(v[i]);
        assert(v@.subrange(a as int, i + 1) =~= v@.subrange(a as int, i as int).push(v@[i as int]));
        i = i + 1;
    }
    r
}


// ---------------------------------------------------------------------------
// Searching
// ---------------------------------------------------------------------------

/// `n` occurs in `h` starting at position `i`.
pub open spec fn matches_at(h: Seq<char>, n: Seq<char>, i: int) -> bool {
    0 <= i && i + n.len() <= h.len() && h.subrange(i, i + n.len()) == n
}

/// `str::contains` with a string pattern.
pub open spec fn contains(h: Seq<char>, n: Seq<char>) -> bool {
    exists|i: int| matches_at(h, n, i)
}

/// `i` is the position of the first occurrence of `n` in `h`.
pub open spec fn is_first_match(h: Seq<char>, n: Seq<char>, i: int) -> bool {
    matches_at(h, n, i) && forall|j: int| 0 <= j < i ==> !matches_at(h, n, j)
}

/// `i` is the position of the last occurrence of `n` in `h`.
pub open spec fn is_last_match(h: Seq<char>, n: Seq<char>, i: int) -> bool {
    matches_at(h, n, i) && forall|j: int| i < j <= h.len() ==> !matches_at(h, n, j)
}

/// The character position `str::find` reports (as a char index).
pub open spec fn find(h: Seq<char>, n: Seq<char>) -> Option<int> {
    if contains(h, n) {
        Some(choose|i: int| is_first_match(h, n, i))
    } else {
        None
    }
}

/// The character position `str::rfind` reports (as a char index).
pub open spec fn rfind(h: Seq<char>, n: Seq<char>) -> Option<int> {
    if contains(h, n) {
        Some(choose|i: int| is_last_match(h, n, i))
    } else {
        None
    }
}

pub proof fn lemma_find_is_first(h: Seq<char>, n: Seq<char>, i: int)
    requires
        is_first_match(h, n, i),
    ensures
        find(h, n) == Some(i),
{
    assert(contains(h, n));
    let k = choose|k: int| is_first_match(h, n, k);
    assert(is_first_match(h, n, k));
}

pub proof fn lemma_rfind_is_last(h: Seq<char>, n: Seq<char>, i: int)
    requires
        is_last_match(h, n, i),
    ensures
        rfind(h, n) == Some(i),
{
    assert(contains(h, n));
    let k = choose|k: int| is_last_match(h, n, k);
    assert(is_last_match(h, n, k));
}

/// `str::starts_with`.
pub open spec fn starts_with(h: Seq<char>, p: Seq<char>) -> bool {
    p.len() <= h.len() && h.take(p.len() as int) == p
}

/// `str::ends_with`.
pub open spec fn ends_with(h: Seq<char>, p: Seq<char>) -> bool {
    p.len() <= h.len() && h.skip(h.len() - p.len()) == p
}

/// Does `n` occur in `h` at position `i`?
pub fn match_at(h: &[char], n: &[char], i: usize) -> (r: bool)
    ensures
        r == matches_at(h@, n@, i as int),
{
    if i > h.len() || n.len() > h.len() - i {
        return false;
    }
    let mut k: usize = 0;
    while k < n.len()
        invariant
            i + n.len() <= h.len(),
            k <= n.len(),
            forall|j: int| 0 <= j < k ==> h@[i + j] == n@[j],
        decreases n.len() - k,
    {
        if h[i + k] != n[k] {
            assert(h@.subrange(i as int, i + n.len())[k as int] != n@[k as int]);
            return false;
        }
        k = k + 1;
    }
    assert(h@.subrange(i as int, i + n.len()) =~= n@);
    true
}

/// `h.starts_with(p)`.
pub fn starts_with_exec(h: &[char], p: &[char]) -> (r: bool)
    ensures
        r == starts_with(h@, p@),
{
    let r = match_at(h, p, 0);
    proof {
        if p@.len() <= h@.len() {
            assert(h@.subrange(0, p@.len() as int) =~= h@.take(p@.len() as int));
        }
    }
    r
}

/// `h.ends_with(p)`.
pub fn ends_with_exec(h: &[char], p: &[char]) -> (r: bool)
    ensures
        r == ends_with(h@, p@),
{
    if p.len() > h.len() {
        return false;
    }
    let r = match_at(h, p, h.len() - p.len());
    proof {
        assert(h@.subrange(h@.len() - p@.len(), h@.len() as int) =~= h@.skip(h@.len() - p@.len()));
    }
    r
}

/// First occurrence of `n` in `h` at or after `from` (char positions).
pub fn find_from(h: &[char], n: &[char], from: usize) -> (r: Option<usize>)
    requires
        from <= h.len(),
    ensures
        match r {
            Some(i) => from <= i && matches_at(h@, n@, i as int) && forall|j: int|
                from <= j < i ==> !matches_at(h@, n@, j),
            None => forall|j: int| from <= j ==> !matches_at(h@, n@, j),
        },
{
    let mut i: usize = from;
    loop
        invariant
            from <= i <= h.len(),
            forall|j: int| from <= j < i ==> !matches_at(h@, n@, j),
        decreases h.len() - i,
    {
        if match_at(h, n, i) {
            return Some(i);
        }
        if i == h.len() {
            return None;
        }
        i = i + 1;
    }
}

/// `str::find` with a string pattern, as a char position.
pub fn find_exec(h: &[char], n: &[char]) -> (r: Option<usize>)
    ensures
        match r {
            Some(i) => find(h@, n@) == Some(i as int) && is_first_match(h@, n@, i as int),
            None => find(h@, n@) is None && !contains(h@, n@),
        },
{
    let r = find_from(h, n, 0);
    proof {
        match r {
            Some(i) => lemma_find_is_first(h@, n@, i as int),
            None => {},
        }
    }
    r
}

/// `str::contains` with a string pattern.
pub fn contains_exec(h: &[char], n: &[char]) -> (r: bool)
    ensures
        r == contains(h@, n@),
{
    match find_exec(h, n) {
        Some(_) => true,
        None => false,
    }
}

// ---------------------------------------------------------------------------
// Single-character search
// ---------------------------------------------------------------------------

/// Position of the first `c` in `s`.
pub open spec fn first_char(s: Seq<char>, c: char) -> Option<int> {
    if exists|i: int| 0 <= i < s.len() && s[i] == c {
        Some(choose|i: int| 0 <= i < s.len() && s[i] == c && forall|j: int| 0 <= j < i ==> s[j] != c)
    } else {
        None
    }
}

proof fn lemma_first_char_min_exists(s: Seq<char>, c: char, i: int)
    requires
        0 <= i < s.len(),
        s[i] == c,
    ensures
        exists|m: int| 0 <= m < s.len() && s[m] == c && forall|j: int| 0 <= j < m ==> s[j] != c,
    decreases i,
{
    if exists|j: int| 0 <= j < i && s[j] == c {
        let j = choose|j: int| 0 <= j < i && s[j] == c;
        lemma_first_char_min_exists(s, c, j);
    } else {
        assert(forall|j: int| 0 <= j < i ==> s[j] != c);
    }
}

/// What [`first_char`] gives: the first position of `c`, or none when `c`
/// does not occur.
pub proof fn lemma_first_char_spec(s: Seq<char>, c: char)
    ensures
        match first_char(s, c) {
            Some(p) => 0 <= p < s.len() && s[p] == c && forall|j: int| 0 <= j < p ==> s[j] != c,
            None => forall|j: int| 0 <= j < s.len() ==> s[j] != c,
        },
{
    if exists|i: int| 0 <= i < s.len() && s[i] == c {
        let i = choose|i: int| 0 <= i < s.len() && s[i] == c;
        lemma_first_char_min_exists(s, c, i);
    }
}

/// Position of the last `c` in `s`.
pub open spec fn last_char(s: Seq<char>, c: char) -> Option<int> {
    if exists|i: int| 0 <= i < s.len() && s[i] == c {
        Some(choose|i: int| 0 <= i < s.len() && s[i] == c && forall|j: int| i < j < s.len() ==> s[j] != c)
    } else {
        None
    }
}

pub fn find_char(s: &[char], c: char) -> (r: Option<usize>)
    ensures
        match r {
            Some(i) => first_char(s@, c) == Some(i as int) && i < s.len() && s@[i as int] == c
                && forall|j: int| 0 <= j < i ==> s@[j] != c,
            None => first_char(s@, c) is None && forall|j: int| 0 <= j < s.len() ==> s@[j] != c,
        },
{
    let mut i: usize = 0;
    while i < s.len()
        invariant
            i <= s.len(),
            forall|j: int| 0 <= j < i ==> s@[j] != c,
        decreases s.len() - i,
    {
        if s[i] == c {
            proof {
                let k = choose|k: int| 0 <= k < s.len() && s@[k] == c && forall|j: int| 0 <= j < k ==> s@[j] != c;
                assert(k == i);
            }
            return Some(i);
        }
        i = i + 1;
    }
    None
}

pub fn rfind_char(s: &[char], c: char) -> (r: Option<usize>)
    ensures
        match r {
            Some(i) => last_char(s@, c) == Some(i as int) && i < s.len() && s@[i as int] == c
                && forall|j: int| i < j < s.len() ==> s@[j] != c,
            None => last_char(s@, c) is None && forall|j: int| 0 <= j < s.len() ==> s@[j] != c,
        },
{
    let mut i: usize = s.len();
    while i > 0
        invariant
            i <= s.len(),
            forall|j: int| i <= j < s.len() ==> s@[j] != c,
        decreases i,
    {
        if s[i - 1] == c {
            proof {
                let k = choose|k: int| 0 <= k < s.len() && s@[k] == c && forall|j: int| k < j < s.len() ==> s@[j] != c;
                assert(k == i - 1);
            }
            return Some(i - 1);
        }
        i = i - 1;
    }
    None
}

// ---------------------------------------------------------------------------
// Building strings
// ---------------------------------------------------------------------------

/// Appends all of `src` to `dst`.
pub fn push_all(dst: &mut Vec<char>, src: &[char])
    ensures
        final(dst)@ == old(dst)@ + src@,
{
    let mut i: usize = 0;
    while i < src.len()
        invariant
            i <= src.len(),
            dst@ == old(dst)@ + src@.take(i as int),
        decreases src.len() - i,
    {
        dst.push(src[i]);
        assert(src@.take(i + 1) =~= src@.take(i as int).push(src@[i as int]));
        i = i + 1;
    }
    assert(src@.take(src.len() as int) =~= src@);
}

/// Appends the characters of `s` to `dst`.
pub fn push_str(dst: &mut Vec<char>, s: &str)
    ensures
        final(dst)@ == old(dst)@ + s@,
{
    let v = chars_of(s);
    push_all(dst, v.as_slice());
}

/// The decimal digit for `d < 10`.
pub open spec fn digit_char(d: nat) -> char {
    ((48 + d) as u32) as char
}

/// Decimal representation of a natural number (`u64::to_string`).
pub open spec fn nat_decimal(n: nat) -> Seq<char>
    decreases n,
{
    if n < 10 {
        seq![digit_char(n)]
    } else {
        nat_decimal(n / 10).push(digit_char(n % 10))
    }
}

/// Decimal representation of an integer (`i64::to_string`).
pub open spec fn int_decimal(x: int) -> Seq<char> {
    if x < 0 {
        seq!['-'] + nat_decimal((-x) as nat)
    } else {
        nat_decimal(x as nat)
    }
}

/// Appends the decimal digits of `n`.
pub fn push_decimal(dst: &mut Vec<char>, n: u64)
    ensures
        final(dst)@ == old(dst)@ + nat_decimal(n as nat),
    decreases n,
{
    if n >= 10 {
        push_decimal(dst, n / 10);
    }
    let d: u8 = (n % 10) as u8;
    let c: char = (48u8 + d) as char;
    assert(c == digit_char((n % 10) as nat));
    dst.push(c);
}

/// Appends the decimal representation of a signed integer.
pub fn push_signed_decimal(dst: &mut Vec<char>, x: i64)
    ensures
        final(dst)@ == old(dst)@ + int_decimal(x as int),
{
    if x < 0 {
        dst.push('-');
        let m: i128 = -(x as i128);
        push_decimal(dst, m as u64);
        assert(final(dst)@ =~= old(dst)@ + int_decimal(x as int)) by {
        }
    } else {
        push_decimal(dst, x as u64);
    }
}


// ---------------------------------------------------------------------------
// Splitting and joining
// ---------------------------------------------------------------------------

/// `str::split(c)`: the pieces between occurrences of `c`, left to right.
pub open spec fn split_char(s: Seq<char>, c: char) -> Seq<Seq<char>>
    decreases s.len(),
{
    if s.len() == 0 {
        seq![Seq::<char>::empty()]
    } else {
        let rest = split_char(s.drop_last(), c);
        if s.last() == c {
            rest.push(Seq::<char>::empty())
        } else {
            rest.update(rest.len() - 1, rest.last().push(s.last()))
        }
    }
}

pub proof fn lemma_split_char_nonempty(s: Seq<char>, c: char)
    ensures
        split_char(s, c).len() >= 1,
    decreases s.len(),
{
    if s.len() > 0 {
        lemma_split_char_nonempty(s.drop_last(), c);
    }
}

/// Pieces joined with `sep` in between (`[T]::join`).
pub open spec fn join(parts: Seq<Seq<char>>, sep: Seq<char>) -> Seq<char>
    decreases parts.len(),
{
    if parts.len() == 0 {
        Seq::<char>::empty()
    } else if parts.len() == 1 {
        parts[0]
    } else {
        join(parts.drop_last(), sep) + sep + parts.last()
    }
}

/// The views of a sequence of character vectors.
pub open spec fn views(v: Seq<Vec<char>>) -> Seq<Seq<char>> {
    Seq::new(v.len(), |i: int| v[i]@)
}

/// `s.split(c)` as owned pieces.
pub fn split_exec(s: &[char], c: char) -> (r: Vec<Vec<char>>)
    ensures
        views(r@) == split_char(s@, c),
{
    let mut done: Vec<Vec<char>> = Vec::new();
    let mut cur: Vec<char> = Vec::new();
    let mut i: usize = 0;
    assert(s@.take(0) =~= Seq::<char>::empty());
    while i < s.len()
        invariant
            i <= s.len(),
            split_char(s@.take(i as int), c) == views(done@).push(cur@),
        decreases s.len() - i,
    {
        let ghost pre = s@.take(i as int);
        let ghost nxt = s@.take(i + 1);
        assert(nxt.drop_last() =~= pre);
        assert(nxt.last() == s@[i as int]);
        if s[i] == c {
            let ghost dv = views(done@);
            let ghost cv = cur@;
            let old_cur = cur;
            done.push(old_cur);
            cur = Vec::new();
            assert(views(done@) =~= dv.push(cv));
            assert(views(done@) =~= split_char(pre, c));
            assert(split_char(nxt, c) =~= views(done@).push(cur@));
        } else {
            let ghost before = cur@;
            cur.push(s[i]);
            assert(split_char(nxt, c) =~= views(done@).push(cur@));
        }
        i = i + 1;
    }
    assert(s@.take(s.len() as int) =~= s@);
    let ghost dv = views(done@);
    let ghost cv = cur@;
    done.push(cur);
    assert(views(done@) =~= dv.push(cv));
    assert(views(done@) =~= split_char(s@, c));
    done
}

/// `parts.join(sep)`.
pub fn join_exec(parts: &Vec<Vec<char>>, sep: &[char]) -> (r: Vec<char>)
    ensures
        r@ == join(views(parts@), sep@),
{
    let mut r: Vec<char> = Vec::new();
    let mut i: usize = 0;
    while i < parts.len()
        invariant
            i <= parts.len(),
            r@ == join(views(parts@).take(i as int), sep@),
        decreases parts.len() - i,
    {
        let ghost pv = views(parts@);
        assert(pv.take(i + 1).drop_last() =~= pv.take(i as int));
        if i > 0 {
            push_all(&mut r, sep);
        }
        push_all(&mut r, parts[i].as_slice());
        assert(pv.take(i + 1).last() == parts[i as int]@);
        proof {
            if i == 0 {
                assert(pv.take(1)[0] == parts[0]@);
                assert(r@ =~= parts[0]@);
            }
        }
        i = i + 1;
    }
    assert(views(parts@).take(parts.len() as int) =~= views(parts@));
    r
}


/// `s.contains(c)` for a single character.
pub fn contains_char(s: &[char], c: char) -> (r: bool)
    ensures
        r == s@.contains(c),
{
    let mut k: usize = 0;
    while k < s.len()
        invariant
            k <= s.len(),
            forall|j: int| 0 <= j < k ==> s@[j] != c,
        decreases s.len() - k,
    {
        if s[k] == c {
            assert(s@[k as int] == c);
            return true;
        }
        k = k + 1;
    }
    false
}

/// The views of a slice of string literals.
pub open spec fn str_views(list: Seq<&str>) -> Seq<Seq<char>> {
    Seq::new(list.len(), |i: int| list[i]@)
}

/// Whether `v` equals one of the strings of `list`.
pub fn in_str_list(v: &[char], list: &[&str]) -> (r: bool)
    ensures
        r == str_views(list@).contains(v@),
{
    let ghost ls = str_views(list@);
    let mut i: usize = 0;
    while i < list.len()
        invariant
            i <= list.len(),
            ls == str_views(list@),
            forall|j: int| 0 <= j < i ==> ls[j] != v@,
        decreases list.len() - i,
    {
        let lv = chars_of(list[i]);
        if seq_eq(v, lv.as_slice()) {
            assert(ls[i as int] == v@);
            return true;
        }
        i = i + 1;
    }
    false
}


/// `code` is a Unicode scalar value (a valid `char`).
pub open spec fn is_scalar(code: u32) -> bool {
    code <= 0x10FFFF && !(0xD800 <= code <= 0xDFFF)
}

/// `char::from_u32`: the character with that code, when it is a Unicode
/// scalar value.
#[verifier::external_body]
pub(crate) fn char_from_u32(code: u32) -> (r: Option<char>)
    ensures
        is_scalar(code) ==> r == Some(code as char),
        !is_scalar(code) ==> r is None,
{
    char::from_u32(code)
}

/// Value of the digit `c` in `radix` (10 or 16), if it is one.
pub open spec fn digit_value(c: char, radix: nat) -> Option<nat> {
    if '0' <= c && c <= '9' {
        Some((c as nat - '0' as nat) as nat)
    } else if radix == 16 && 'a' <= c && c <= 'f' {
        Some((c as nat - 'a' as nat + 10) as nat)
    } else if radix == 16 && 'A' <= c && c <= 'F' {
        Some((c as nat - 'A' as nat + 10) as nat)
    } else {
        None
    }
}

pub open spec fn all_digits(s: Seq<char>, radix: nat) -> bool {
    forall|i: int| 0 <= i < s.len() ==> digit_value(s[i], radix) is Some
}

pub open spec fn digits_value(s: Seq<char>, radix: nat) -> nat
    decreases s.len(),
{
    if s.len() == 0 {
        0
    } else {
        digits_value(s.drop_last(), radix) * radix + digit_value(s.last(), radix).unwrap()
    }
}

/// `u32::from_str_radix` for radix 10 or 16: an optional `+`, then at least
/// one digit, with a value that fits in `u32`.
pub open spec fn parse_u32_radix(s: Seq<char>, radix: nat) -> Option<u32> {
    let d = if s.len() > 0 && s[0] == '+' {
        s.drop_first()
    } else {
        s
    };
    if d.len() == 0 || !all_digits(d, radix) {
        None
    } else if digits_value(d, radix) <= u32::MAX {
        Some(digits_value(d, radix) as u32)
    } else {
        None
    }
}

fn digit_value_exec(c: char, radix: u32) -> (r: Option<u32>)
    requires
        radix == 10 || radix == 16,
    ensures
        match r {
            Some(v) => digit_value(c, radix as nat) == Some(v as nat) && v < radix,
            None => digit_value(c, radix as nat) is None,
        },
{
    let code = c as u32;
    if '0' <= c && c <= '9' {
        Some(code - 48)
    } else if radix == 16 && 'a' <= c && c <= 'f' {
        Some(code - 97 + 10)
    } else if radix == 16 && 'A' <= c && c <= 'F' {
        Some(code - 65 + 10)
    } else {
        None
    }
}

proof fn lemma_digits_value_monotone(s: Seq<char>, radix: nat, k: int)
    requires
        radix >= 1,
        0 <= k <= s.len(),
        all_digits(s, radix),
    ensures
        digits_value(s.take(k), radix) <= digits_value(s, radix),
    decreases s.len() - k,
{
    if k < s.len() {
        lemma_digits_value_monotone(s, radix, k + 1);
        let t = s.take(k + 1);
        assert(t.drop_last() =~= s.take(k));
        assert(digits_value(t, radix) == digits_value(s.take(k), radix) * radix + digit_value(t.last(), radix).unwrap());
        assert(digits_value(s.take(k), radix) * radix >= digits_value(s.take(k), radix)) by (nonlinear_arith)
            requires
                radix >= 1,
        ;
    } else {
        assert(s.take(k) =~= s);
    }
}

/// `u32::from_str_radix(s, radix)` for radix 10 or 16, errors as `None`.
pub fn parse_u32_radix_exec(s: &[char], radix: u32) -> (r: Option<u32>)
    requires
        radix == 10 || radix == 16,
    ensures
        r == parse_u32_radix(s@, radix as nat),
{
    let start: usize = if s.len() > 0 && s[0] == '+' { 1 } else { 0 };
    let d = slice_range(s, start, s.len());
    assert(d@ =~= (if s@.len() > 0 && s@[0] == '+' { s@.drop_first() } else { s@ }));
    if d.len() == 0 {
        return None;
    }
    let mut acc: u64 = 0;
    let mut overflow = false;
    let mut i: usize = 0;
    while i < d.len()
        invariant
            i <= d.len(),
            radix == 10 || radix == 16,
            d@ == (if s@.len() > 0 && s@[0] == '+' { s@.drop_first() } else { s@ }),
            all_digits(d@.take(i as int), radix as nat),
            !overflow ==> acc as nat == digits_value(d@.take(i as int), radix as nat) && acc <= u32::MAX,
            overflow ==> digits_value(d@.take(i as int), radix as nat) > u32::MAX,
        decreases d.len() - i,
    {
        let ghost t = d@.take(i + 1);
        assert(t.drop_last() =~= d@.take(i as int));
        match digit_value_exec(d[i], radix) {
            None => {
                assert(!all_digits(d@, radix as nat)) by {
                    assert(digit_value(d@[i as int], radix as nat) is None);
                }
                return None;
            },
            Some(v) => {
                assert(all_digits(t, radix as nat)) by {
                    assert forall|j: int| 0 <= j < t.len() implies digit_value(t[j], radix as nat) is Some by {
                        if j < i {
                            assert(t[j] == d@.take(i as int)[j]);
                        }
                    }
                }
                if !overflow {
                    let next: u64 = acc * (radix as u64) + (v as u64);
                    assert(digits_value(t, radix as nat) == acc as nat * radix as nat + v as nat);
                    if next > 4294967295 {
                        overflow = true;
                    } else {
                        acc = next;
                    }
                } else {
                    assert(digits_value(t, radix as nat) >= digits_value(d@.take(i as int), radix as nat)) by {
                        let a = digits_value(d@.take(i as int), radix as nat);
                        assert(a * radix as nat >= a) by (nonlinear_arith)
                            requires
                                radix >= 10,
                        ;
                    }
                }
            },
        }
        i = i + 1;
    }
    assert(d@.take(d.len() as int) =~= d@);
    if overflow {
        None
    } else {
        Some(acc as u32)
    }
}


// ---------------------------------------------------------------------------
// Byte offsets and UTF-16 offsets
// ---------------------------------------------------------------------------

/// The number of UTF-8 bytes of one character (`char::len_utf8`).
pub open spec fn char_bytes(c: char) -> nat {
    encode_utf8(seq![c]).len()
}

/// `char::len_utf8`.
pub fn char_utf8_len(c: char) -> (r: usize)
    ensures
        r == char_bytes(c),
        1 <= r <= 4,
{
    proof {
        reveal_with_fuel(encode_utf8, 2);
        assert(seq![c].drop_first() =~= Seq::<char>::empty());
        vstd::utf8::char_is_scalar(c);
    }
    let u = c as u32;
    if u <= 0x7f {
        1
    } else if u <= 0x7ff {
        2
    } else if u <= 0xffff {
        3
    } else {
        4
    }
}

/// One more character adds its own bytes.
pub proof fn lemma_bytes_take_step(t: Seq<char>, k: int)
    requires
        0 <= k < t.len(),
    ensures
        encode_utf8(t.take(k + 1)).len() == encode_utf8(t.take(k)).len() + char_bytes(t[k]),
{
    assert(t.take(k + 1) =~= t.take(k) + seq![t[k]]);
    lemma_encode_utf8_concat(t.take(k), seq![t[k]]);
}

/// Byte lengths of prefixes grow with the prefix.
pub proof fn lemma_bytes_take_monotone(t: Seq<char>, i: int, j: int)
    requires
        0 <= i <= j <= t.len(),
    ensures
        encode_utf8(t.take(i)).len() <= encode_utf8(t.take(j)).len(),
        i < j ==> encode_utf8(t.take(i)).len() < encode_utf8(t.take(j)).len(),
{
    if i < j {
        lemma_prefix_bytes_strict(t, i, j);
    }
}

/// `b` is a character boundary of `t` at character index `k`.
pub open spec fn boundary_at(t: Seq<char>, b: int, k: int) -> bool {
    0 <= k <= t.len() && encode_utf8(t.take(k)).len() == b
}

/// The character index of byte offset `b` of `t` when `b` is a character
/// boundary (0 and the length included); `None` where `str` slicing at `b`
/// panics.
pub open spec fn char_index_at_byte(t: Seq<char>, b: int) -> Option<int> {
    if exists|k: int| boundary_at(t, b, k) {
        Some(choose|k: int| boundary_at(t, b, k))
    } else {
        None
    }
}

/// A boundary has exactly one character index.
pub proof fn lemma_char_index_at_byte(t: Seq<char>, b: int, k: int)
    requires
        boundary_at(t, b, k),
    ensures
        char_index_at_byte(t, b) == Some(k),
{
    let c = choose|j: int| boundary_at(t, b, j);
    assert(boundary_at(t, b, c));
    if c < k {
        lemma_prefix_bytes_strict(t, c, k);
    } else if k < c {
        lemma_prefix_bytes_strict(t, k, c);
    }
}

/// No character boundary lies past the end.
pub proof fn lemma_char_index_beyond(t: Seq<char>, b: int)
    requires
        b > encode_utf8(t).len(),
    ensures
        char_index_at_byte(t, b) is None,
{
    assert forall|j: int| !boundary_at(t, b, j) by {
        if 0 <= j <= t.len() {
            lemma_bytes_take_monotone(t, j, t.len() as int);
            assert(t.take(t.len() as int) =~= t);
        }
    }
}

/// The character index of byte offset `b` of the characters `v`, when `b`
/// is a character boundary.
pub fn byte_to_char_index(v: &[char], b: usize) -> (r: Option<usize>)
    ensures
        match r {
            Some(k) => char_index_at_byte(v@, b as int) == Some(k as int),
            None => char_index_at_byte(v@, b as int) is None,
        },
{
    let mut k: usize = 0;
    let mut acc: usize = 0;
    while k < v.len() && acc < b
        invariant
            k <= v.len(),
            acc == encode_utf8(v@.take(k as int)).len(),
            acc <= b,
        decreases v.len() - k,
    {
        let w = char_utf8_len(v[k]);
        proof {
            lemma_bytes_take_step(v@, k as int);
        }
        if w > b - acc {
            proof {
                assert forall|j: int| !boundary_at(v@, b as int, j) by {
                    if 0 <= j <= v@.len() {
                        if j <= k {
                            lemma_bytes_take_monotone(v@, j, k as int);
                        } else {
                            lemma_bytes_take_monotone(v@, k + 1, j);
                        }
                    }
                }
            }
            return None;
        }
        acc = acc + w;
        k = k + 1;
    }
    if acc == b {
        proof {
            lemma_char_index_at_byte(v@, b as int, k as int);
        }
        Some(k)
    } else {
        proof {
            assert(k == v.len());
            assert forall|j: int| !boundary_at(v@, b as int, j) by {
                if 0 <= j <= v@.len() {
                    lemma_bytes_take_monotone(v@, j, k as int);
                }
            }
        }
        None
    }
}

/// The number of UTF-16 code units of one character (`char::len_utf16`).
pub open spec fn char_u16(c: char) -> nat {
    if (c as u32) >= 0x10000 { 2 } else { 1 }
}

/// The number of UTF-16 code units of `s`.
pub open spec fn u16_len(s: Seq<char>) -> nat
    decreases s.len(),
{
    if s.len() == 0 {
        0
    } else {
        u16_len(s.drop_last()) + char_u16(s.last())
    }
}

/// The first character index at or after `k` whose prefix covers `i`
/// UTF-16 code units.
pub open spec fn u16_index_from(t: Seq<char>, i: int, k: int) -> int
    decreases t.len() - k,
{
    if k >= t.len() || u16_len(t.take(k)) >= i {
        k
    } else {
        u16_index_from(t, i, k + 1)
    }
}

/// The character index where UTF-16 offset `i` falls: the first prefix
/// covering `i` code units (a unit inside a surrogate pair counts as the
/// end of its character).
pub open spec fn u16_char_index(t: Seq<char>, i: int) -> int {
    u16_index_from(t, i, 0)
}

proof fn lemma_u16_take_step(t: Seq<char>, k: int)
    requires
        0 <= k < t.len(),
    ensures
        u16_len(t.take(k + 1)) == u16_len(t.take(k)) + char_u16(t[k]),
{
    assert(t.take(k + 1).drop_last() =~= t.take(k));
}

/// The total UTF-16 length of `v` (`str::encode_utf16().count()`).
pub fn u16_count(v: &[char]) -> (r: u128)
    ensures
        r == u16_len(v@),
{
    let mut k: usize = 0;
    let mut n: u128 = 0;
    while k < v.len()
        invariant
            k <= v.len(),
            n == u16_len(v@.take(k as int)),
            n <= 2 * k,
        decreases v.len() - k,
    {
        proof {
            lemma_u16_take_step(v@, k as int);
        }
        if (v[k] as u32) >= 0x10000 {
            n = n + 2;
        } else {
            n = n + 1;
        }
        k = k + 1;
    }
    assert(v@.take(v.len() as int) =~= v@);
    n
}

/// The number of UTF-8 bytes of `v`.
pub fn chars_byte_count(v: &[char]) -> (r: u128)
    ensures
        r == encode_utf8(v@).len(),
{
    let mut k: usize = 0;
    let mut n: u128 = 0;
    while k < v.len()
        invariant
            k <= v.len(),
            n == encode_utf8(v@.take(k as int)).len(),
            n <= 4 * k,
        decreases v.len() - k,
    {
        proof {
            lemma_bytes_take_step(v@, k as int);
        }
        n = n + char_utf8_len(v[k]) as u128;
        k = k + 1;
    }
    assert(v@.take(v.len() as int) =~= v@);
    n
}

/// The character index and the byte offset of UTF-16 offset `i` in `v`
/// (`i` at most the UTF-16 length).
pub fn u16_position(v: &[char], i: u128) -> (r: (usize, usize))
    requires
        i <= u16_len(v@),
        encode_utf8(v@).len() <= usize::MAX,
    ensures
        r.0 == u16_char_index(v@, i as int),
        r.1 == encode_utf8(v@.take(r.0 as int)).len(),
        r.0 <= v.len(),
{
    let mut k: usize = 0;
    let mut n: u128 = 0;
    let mut b: usize = 0;
    assert(v@.take(v.len() as int) =~= v@);
    while k < v.len() && n < i
        invariant
            k <= v.len(),
            n == u16_len(v@.take(k as int)),
            n <= 2 * k,
            b == encode_utf8(v@.take(k as int)).len(),
            u16_index_from(v@, i as int, k as int) == u16_char_index(v@, i as int),
            encode_utf8(v@).len() <= usize::MAX,
            v@.take(v.len() as int) == v@,
        decreases v.len() - k,
    {
        proof {
            lemma_u16_take_step(v@, k as int);
            lemma_bytes_take_step(v@, k as int);
            lemma_bytes_take_monotone(v@, k + 1, v.len() as int);
        }
        assert(b + char_bytes(v@[k as int]) <= usize::MAX);
        if (v[k] as u32) >= 0x10000 {
            n = n + 2;
        } else {
            n = n + 1;
        }
        b = b + char_utf8_len(v[k]);
        k = k + 1;
    }
    (k, b)
}

} // verus!
