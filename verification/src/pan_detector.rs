//! Recognition of the nine cloud-drive platforms in a URL, the extraction
//! code near a link, and direct download links.
use vstd::prelude::*;
use crate::regex_support::{regex_capture, regex_compiles, regex_first_capture};
use crate::text::{
    ascii_lower, is_ascii_upper, matches_at, byte_len, chars_of, contains, contains_exec, ends_with, ends_with_exec, find,
    find_exec, find_char, first_char, last_char, rfind_char, seq_eq, slice_range, str_byte_len, string_from_chars,
    to_ascii_lower, is_first_match, contains_char, in_str_list, str_views,
};

verus! {

/// Cloud-drive brand (the string form is stored in `crawler_article_links.platform`).
#[derive(Debug, Clone, Copy, PartialEq, Eq, Hash, Structural)]
pub enum Platform {
    Quark,
    Uc,
    Baidu,
    Tianyi,
    Pan123,
    Pan115,
    Aliyun,
    Xunlei,
    Mobile,
}

impl Platform {
    pub open spec fn label(self) -> Seq<char> {
        match self {
            Platform::Quark => "quark"@,
            Platform::Uc => "uc"@,
            Platform::Baidu => "baidu"@,
            Platform::Tianyi => "tianyi"@,
            Platform::Pan123 => "123pan"@,
            Platform::Pan115 => "115"@,
            Platform::Aliyun => "aliyun"@,
            Platform::Xunlei => "xunlei"@,
            Platform::Mobile => "mobile"@,
        }
    }

    /// The stored string form of the platform.
    pub fn as_str(&self) -> (r: &'static str)
        ensures
            r@ == self.label(),
    {
        match self {
            Platform::Quark => "quark",
            Platform::Uc => "uc",
            Platform::Baidu => "baidu",
            Platform::Tianyi => "tianyi",
            Platform::Pan123 => "123pan",
            Platform::Pan115 => "115",
            Platform::Aliyun => "aliyun",
            Platform::Xunlei => "xunlei",
            Platform::Mobile => "mobile",
        }
    }
}

/// Position of the first character of `s` that is one of `cs`.
pub open spec fn first_of(s: Seq<char>, cs: Seq<char>) -> Option<int> {
    if exists|i: int| 0 <= i < s.len() && cs.contains(s[i]) {
        Some(choose|i: int| 0 <= i < s.len() && cs.contains(s[i]) && forall|j: int| 0 <= j < i ==> !cs.contains(s[j]))
    } else {
        None
    }
}

fn first_of_exec(s: &[char], cs: &[char]) -> (r: Option<usize>)
    ensures
        match r {
            Some(i) => first_of(s@, cs@) == Some(i as int) && i < s.len(),
            None => first_of(s@, cs@) is None,
        },
{
    let mut i: usize = 0;
    while i < s.len()
        invariant
            i <= s.len(),
            forall|j: int| 0 <= j < i ==> !cs@.contains(s@[j]),
        decreases s.len() - i,
    {
        let mut k: usize = 0;
        let mut hit = false;
        while k < cs.len()
            invariant
                k <= cs.len(),
                i < s.len(),
                hit == exists|m: int| 0 <= m < k && cs@[m] == s@[i as int],
            decreases cs.len() - k,
        {
            if cs[k] == s[i] {
                hit = true;
            }
            k = k + 1;
        }
        if hit {
            proof {
                let w = choose|i2: int| 0 <= i2 < s.len() && cs@.contains(s@[i2]) && forall|j: int| 0 <= j < i2 ==> !cs@.contains(s@[j]);
                assert(cs@.contains(s@[i as int]));
                assert(w == i as int) by {
                    if w < i {
                    } else if w > i {
                    }
                }
            }
            return Some(i);
        }
        i = i + 1;
    }
    None
}

/// The authority: up to the first `/`, `?` or `#`.
pub open spec fn authority_of(after: Seq<char>) -> Seq<char> {
    match first_of(after, seq!['/', '?', '#']) {
        Some(e) => after.take(e),
        None => after,
    }
}

/// Host and port: the authority after its last `@`.
pub open spec fn host_port_of(auth: Seq<char>) -> Seq<char> {
    match last_char(auth, '@') {
        Some(a) => auth.skip(a + 1),
        None => auth,
    }
}

/// The host (and port) of `scheme://[userinfo@]host[:port]/...`: the text
/// after the first `://` up to the first `/`, `?` or `#`, after its last `@`.
pub open spec fn extract_host_spec(lower: Seq<char>) -> Option<Seq<char>> {
    match find(lower, "://"@) {
        None => None,
        Some(i) => {
            let hp = host_port_of(authority_of(lower.skip(i + 3)));
            if hp.len() == 0 {
                None
            } else {
                Some(hp)
            }
        },
    }
}

fn authority_exec(after: &[char]) -> (r: Vec<char>)
    ensures
        r@ == authority_of(after@),
{
    let stops: [char; 3] = ['/', '?', '#'];
    assert(stops@ =~= seq!['/', '?', '#']);
    match first_of_exec(after, &stops) {
        Some(e) => {
            let r = slice_range(after, 0, e);
            assert(r@ =~= after@.take(e as int));
            r
        },
        None => {
            let r = slice_range(after, 0, after.len());
            assert(r@ =~= after@);
            r
        },
    }
}

fn host_port_exec(auth: &[char]) -> (r: Vec<char>)
    ensures
        r@ == host_port_of(auth@),
{
    match rfind_char(auth, '@') {
        Some(a) => {
            let r = slice_range(auth, a + 1, auth.len());
            assert(r@ =~= auth@.skip(a + 1));
            r
        },
        None => {
            let r = slice_range(auth, 0, auth.len());
            assert(r@ =~= auth@);
            r
        },
    }
}

/// Host and port of an absolute URL (userinfo removed); `None` without `://`
/// or with an empty host.
pub fn extract_host(lower_url: &[char]) -> (r: Option<Vec<char>>)
    ensures
        match r {
            Some(h) => extract_host_spec(lower_url@) == Some(h@),
            None => extract_host_spec(lower_url@) is None,
        },
{
    proof {
        reveal_strlit("://");
    }
    let sep = chars_of("://");
    assert(sep@.len() == 3);
    let i = match find_exec(lower_url, sep.as_slice()) {
        Some(i) => i,
        None => return None,
    };
    assert(i + 3 <= lower_url.len());
    let after = slice_range(lower_url, i + 3, lower_url.len());
    assert(after@ =~= lower_url@.skip(i + 3));
    let auth = authority_exec(after.as_slice());
    let hp = host_port_exec(auth.as_slice());
    if hp.len() == 0 {
        None
    } else {
        Some(hp)
    }
}

/// The platform a host belongs to; more specific names are tried first.
pub open spec fn platform_of_host(host: Seq<char>) -> Option<Platform> {
    if contains(host, "pan.quark.cn"@) {
        Some(Platform::Quark)
    } else if contains(host, "drive.uc.cn"@) || contains(host, "pan.uc.cn"@) {
        Some(Platform::Uc)
    } else if contains(host, "pan.baidu.com"@) || contains(host, "yun.baidu.com"@) {
        Some(Platform::Baidu)
    } else if contains(host, "cloud.189.cn"@) || contains(host, "pan.189.cn"@) {
        Some(Platform::Tianyi)
    } else if contains(host, "123912.com"@) || contains(host, "123pan.com"@) || contains(host, "www.123pan.cn"@) {
        Some(Platform::Pan123)
    } else if contains(host, "115.com"@) {
        Some(Platform::Pan115)
    } else if contains(host, "alipan.com"@) || contains(host, "aliyundrive.com"@) || contains(host, "aliyunpan.com"@) {
        Some(Platform::Aliyun)
    } else if contains(host, "pan.xunlei.com"@) || contains(host, "xunlei.com"@) {
        Some(Platform::Xunlei)
    } else if contains(host, "caiyun.139.com"@) || contains(host, "yun.139.com"@) || ends_with(host, ".139.com"@) {
        Some(Platform::Mobile)
    } else {
        None
    }
}

/// The platform of a URL: its ASCII-lower-cased host matched against the
/// known domains.
pub open spec fn detect_platform_spec(url: Seq<char>) -> Option<Platform> {
    match extract_host_spec(ascii_lower(url)) {
        Some(h) => platform_of_host(h),
        None => None,
    }
}

fn has(h: &[char], lit: &str) -> (r: bool)
    ensures
        r == contains(h@, lit@),
{
    let l = chars_of(lit);
    contains_exec(h, l.as_slice())
}

/// Which of the nine platforms a URL points to, if any.
pub fn detect_platform(url: &str) -> (r: Option<Platform>)
    ensures
        r == detect_platform_spec(url@),
{
    let v = chars_of(url);
    let lower = to_ascii_lower(v.as_slice());
    let host = match extract_host(lower.as_slice()) {
        Some(h) => h,
        None => return None,
    };
    let h = host.as_slice();
    if has(h, "pan.quark.cn") {
        return Some(Platform::Quark);
    }
    if has(h, "drive.uc.cn") || has(h, "pan.uc.cn") {
        return Some(Platform::Uc);
    }
    if has(h, "pan.baidu.com") || has(h, "yun.baidu.com") {
        return Some(Platform::Baidu);
    }
    if has(h, "cloud.189.cn") || has(h, "pan.189.cn") {
        return Some(Platform::Tianyi);
    }
    if has(h, "123912.com") || has(h, "123pan.com") || has(h, "www.123pan.cn") {
        return Some(Platform::Pan123);
    }
    if has(h, "115.com") {
        return Some(Platform::Pan115);
    }
    if has(h, "alipan.com") || has(h, "aliyundrive.com") || has(h, "aliyunpan.com") {
        return Some(Platform::Aliyun);
    }
    if has(h, "pan.xunlei.com") || has(h, "xunlei.com") {
        return Some(Platform::Xunlei);
    }
    let suffix = chars_of(".139.com");
    if has(h, "caiyun.139.com") || has(h, "yun.139.com") || ends_with_exec(h, suffix.as_slice()) {
        return Some(Platform::Mobile);
    }
    None
}

/// The extraction-code pattern: a label (提取码, 密码, 访问码, password,
/// code, pwd) followed by `:`, `：` or white space and 4 to 6 ASCII letters
/// or digits, captured.
pub open spec fn extract_code_pattern() -> Seq<char> {
    "(?:提取码|密码|访问码|password|code|pwd)[:：\\s]*([A-Za-z0-9]{4,6})"@
}

/// The extraction code near a link: capture 1 of the first match of
/// [`extract_code_pattern`] in the text (none if the pattern were rejected).
pub fn find_extract_code(surrounding_text: &str) -> (r: Option<String>)
    ensures
        regex_compiles(extract_code_pattern()) ==> match r {
            Some(c) => regex_first_capture(extract_code_pattern(), surrounding_text@, 1) == Some(c@),
            None => regex_first_capture(extract_code_pattern(), surrounding_text@, 1) is None,
        },
        !regex_compiles(extract_code_pattern()) ==> r is None,
{
    regex_capture("(?:提取码|密码|访问码|password|code|pwd)[:：\\s]*([A-Za-z0-9]{4,6})", surrounding_text, 1)
}

/// The code [`find_extract_code`] reports for a text.
pub open spec fn extract_code_of(text: Seq<char>) -> Option<Seq<char>> {
    if regex_compiles(extract_code_pattern()) {
        regex_first_capture(extract_code_pattern(), text, 1)
    } else {
        None
    }
}

/// Brand of the URL and the extraction code found in the nearby text;
/// `None` when the URL is not a cloud-drive link.
pub fn detect(url: &str, surrounding_text: &str) -> (r: Option<(Platform, Option<String>)>)
    ensures
        match r {
            Some((p, c)) => detect_platform_spec(url@) == Some(p) && match c {
                Some(c) => extract_code_of(surrounding_text@) == Some(c@),
                None => extract_code_of(surrounding_text@) is None,
            },
            None => detect_platform_spec(url@) is None,
        },
{
    let platform = match detect_platform(url) {
        Some(p) => p,
        None => return None,
    };
    let code = find_extract_code(surrounding_text);
    Some((platform, code))
}

/// Extensions of direct download links (lower case, without the dot).
pub const DIRECT_LINK_EXTENSIONS: [&'static str; 33] = [
    "zip", "rar", "7z", "exe", "dmg", "pkg", "iso", "tar", "gz", "bz2", "xz", "mkv", "mp4", "mov",
    "avi", "flv", "wmv", "pdf", "doc", "docx", "xls", "xlsx", "ppt", "pptx", "apk", "ipa", "mp3",
    "flac", "wav", "epub", "mobi", "azw3", "txt",
];

pub open spec fn direct_link_extensions() -> Seq<Seq<char>> {
    seq![
        "zip"@, "rar"@, "7z"@, "exe"@, "dmg"@, "pkg"@, "iso"@, "tar"@, "gz"@, "bz2"@, "xz"@, "mkv"@,
        "mp4"@, "mov"@, "avi"@, "flv"@, "wmv"@, "pdf"@, "doc"@, "docx"@, "xls"@, "xlsx"@, "ppt"@,
        "pptx"@, "apk"@, "ipa"@, "mp3"@, "flac"@, "wav"@, "epub"@, "mobi"@, "azw3"@, "txt"@,
    ]
}

/// The URL without query and fragment: up to the first `?` or `#`.
pub open spec fn before_query(url: Seq<char>) -> Seq<char> {
    match first_of(url, seq!['?', '#']) {
        Some(i) => url.take(i),
        None => url,
    }
}

/// The path of a URL: after `scheme://host`, from the first `/` on (empty
/// when the host is followed by nothing); the whole text when there is no
/// `://`.
pub open spec fn url_path(u: Seq<char>) -> Seq<char> {
    match find(u, "://"@) {
        Some(i) => {
            let rest = u.skip(i + 3);
            match first_char(rest, '/') {
                Some(j) => rest.skip(j),
                None => Seq::empty(),
            }
        },
        None => u,
    }
}

/// The last `/`-separated segment of a path.
pub open spec fn last_path_segment(p: Seq<char>) -> Seq<char> {
    match last_char(p, '/') {
        Some(i) => p.skip(i + 1),
        None => p,
    }
}

/// The extension of a URL: the text after the last `.` of the last segment
/// of its path (query and fragment left out); none when that segment has no
/// `.`.
pub open spec fn path_extension(url: Seq<char>) -> Option<Seq<char>> {
    let seg = last_path_segment(url_path(before_query(url)));
    match last_char(seg, '.') {
        Some(i) => Some(seg.skip(i + 1)),
        None => None,
    }
}

/// A direct link: not a cloud drive, and the lower-cased extension of its
/// path is in [`DIRECT_LINK_EXTENSIONS`].
pub open spec fn is_direct_link_spec(url: Seq<char>) -> bool {
    &&& detect_platform_spec(url) is None
    &&& path_extension(url) matches Some(e) && direct_link_extensions().contains(ascii_lower(e))
}

fn url_path_exec(nq: Vec<char>) -> (path: Vec<char>)
    ensures
        path@ == url_path(nq@),
{
    let sep = chars_of("://");
    assert(sep@.len() == 3) by {
        reveal_strlit("://");
    }
    match find_exec(nq.as_slice(), sep.as_slice()) {
        Some(i) => {
            assert(i + 3 <= nq.len());
            let rest = slice_range(nq.as_slice(), i + 3, nq.len());
            assert(rest@ =~= nq@.skip(i + 3));
            match find_char(rest.as_slice(), '/') {
                Some(j) => {
                    let p = slice_range(rest.as_slice(), j, rest.len());
                    assert(p@ =~= rest@.skip(j as int));
                    p
                },
                None => {
                    let e: Vec<char> = Vec::new();
                    assert(e@ =~= Seq::<char>::empty());
                    e
                },
            }
        },
        None => nq,
    }
}

fn path_extension_exec(url: &str) -> (r: Option<Vec<char>>)
    ensures
        match r {
            Some(e) => path_extension(url@) == Some(e@),
            None => path_extension(url@) is None,
        },
{
    let v = chars_of(url);
    let stops: [char; 2] = ['?', '#'];
    assert(stops@ =~= seq!['?', '#']);
    let nq = match first_of_exec(v.as_slice(), &stops) {
        Some(i) => slice_range(v.as_slice(), 0, i),
        None => slice_range(v.as_slice(), 0, v.len()),
    };
    assert(nq@ =~= before_query(url@));
    let path = url_path_exec(nq);
    let seg = match rfind_char(path.as_slice(), '/') {
        Some(i) => slice_range(path.as_slice(), i + 1, path.len()),
        None => slice_range(path.as_slice(), 0, path.len()),
    };
    assert(seg@ =~= last_path_segment(path@));
    match rfind_char(seg.as_slice(), '.') {
        Some(i) => {
            let e = slice_range(seg.as_slice(), i + 1, seg.len());
            assert(e@ =~= seg@.skip(i + 1));
            Some(e)
        },
        None => None,
    }
}

/// Whether the URL is a direct download link.
pub fn is_direct_link(url: &str) -> (r: bool)
    ensures
        r == is_direct_link_spec(url@),
{
    if detect_platform(url).is_some() {
        return false;
    }
    let raw_ext = match path_extension_exec(url) {
        Some(e) => e,
        None => return false,
    };
    let ext = to_ascii_lower(raw_ext.as_slice());
    let list: [&'static str; 33] = DIRECT_LINK_EXTENSIONS;
    assert(str_views(list@) =~= direct_link_extensions());
    in_str_list(ext.as_slice(), &list)
}

} // verus!

verus! {

// ---------------------------------------------------------------------------
// Law of direct links
// ---------------------------------------------------------------------------

proof fn lemma_first_match_exists(h: Seq<char>, n: Seq<char>, i: int)
    requires
        matches_at(h, n, i),
    ensures
        exists|m: int| is_first_match(h, n, m),
    decreases i,
{
    if exists|j: int| 0 <= j < i && matches_at(h, n, j) {
        let j = choose|j: int| 0 <= j < i && matches_at(h, n, j);
        lemma_first_match_exists(h, n, j);
    } else {
        assert(is_first_match(h, n, i));
    }
}

proof fn lemma_last_char_max_exists(s: Seq<char>, c: char, i: int)
    requires
        0 <= i < s.len(),
        s[i] == c,
    ensures
        exists|m: int| 0 <= m < s.len() && s[m] == c && forall|j: int| m < j < s.len() ==> s[j] != c,
    decreases s.len() - i,
{
    if exists|j: int| i < j < s.len() && s[j] == c {
        let j = choose|j: int| i < j < s.len() && s[j] == c;
        lemma_last_char_max_exists(s, c, j);
    } else {
        assert(forall|j: int| i < j < s.len() ==> s[j] != c);
    }
}

proof fn lemma_last_char_at(s: Seq<char>, c: char, p: int)
    requires
        0 <= p < s.len(),
        s[p] == c,
        forall|j: int| p < j < s.len() ==> s[j] != c,
    ensures
        last_char(s, c) == Some(p),
{
    lemma_last_char_max_exists(s, c, p);
    let m = choose|i: int| 0 <= i < s.len() && s[i] == c && forall|j: int| i < j < s.len() ==> s[j] != c;
    if m < p {
        assert(s[p] != c);
    } else if p < m {
        assert(s[m] != c);
    }
}

/// The extension of a direct link is what follows the last `.` of the
/// path: for a URL `base/name.e` (the base holding `scheme://host` and
/// maybe directories, no query or fragment anywhere) that is not a cloud
/// drive, with `e` free of `.` and `/`, the link is direct exactly when `e`
/// lower-cased is a listed extension, whatever dots `name` holds.
pub proof fn lemma_direct_link_last_dot(base: Seq<char>, name: Seq<char>, e: Seq<char>)
    requires
        contains(base, "://"@),
        !base.contains('?') && !base.contains('#'),
        !name.contains('/') && !name.contains('?') && !name.contains('#'),
        !e.contains('.') && !e.contains('/') && !e.contains('?') && !e.contains('#'),
        detect_platform_spec(base + seq!['/'] + name + seq!['.'] + e) is None,
    ensures
        is_direct_link_spec(base + seq!['/'] + name + seq!['.'] + e) == direct_link_extensions().contains(
            ascii_lower(e),
        ),
{
    let url = base + seq!['/'] + name + seq!['.'] + e;
    let bl = base.len() as int;
    let nl = name.len() as int;
    assert forall|j: int| 0 <= j < bl implies url[j] == base[j] by {}
    assert(url[bl] == '/');
    assert forall|j: int| 0 <= j < nl implies url[bl + 1 + j] == name[j] by {}
    assert(url[bl + 1 + nl] == '.');
    assert forall|j: int| 0 <= j < e.len() implies url[bl + 2 + nl + j] == e[j] by {}
    // no query or fragment
    assert(first_of(url, seq!['?', '#']) is None) by {
        if exists|i: int| 0 <= i < url.len() && seq!['?', '#'].contains(url[i]) {
            let i = choose|i: int| 0 <= i < url.len() && seq!['?', '#'].contains(url[i]);
            assert(url[i] == '?' || url[i] == '#');
            if i < bl {
                assert(base.contains(url[i]));
            } else if bl < i < bl + 1 + nl {
                assert(name[i - bl - 1] == url[i]);
                assert(name.contains(url[i]));
            } else if i > bl + 1 + nl {
                assert(e[i - bl - 2 - nl] == url[i]);
                assert(e.contains(url[i]));
            }
        }
    }
    assert(before_query(url) == url);
    // the scheme separator is found in the base
    reveal_strlit("://");
    let sep = "://"@;
    let i1 = choose|i: int| matches_at(base, sep, i);
    lemma_first_match_exists(base, sep, i1);
    let i0 = choose|m: int| is_first_match(base, sep, m);
    assert(sep.len() == 3);
    assert(matches_at(base, sep, i0));
    assert(i0 + 3 <= bl);
    assert(is_first_match(url, sep, i0)) by {
        assert(url.subrange(i0, i0 + 3) =~= base.subrange(i0, i0 + 3));
        assert forall|j: int| 0 <= j < i0 implies !matches_at(url, sep, j) by {
            assert(!matches_at(base, sep, j));
            assert(url.subrange(j, j + 3) =~= base.subrange(j, j + 3));
        }
    }
    crate::text::lemma_find_is_first(url, sep, i0);
    let rest = url.skip(i0 + 3);
    let slash = bl - i0 - 3;
    assert(rest[slash] == '/');
    crate::text::lemma_first_char_spec(rest, '/');
    let j = first_char(rest, '/').unwrap();
    assert(j <= slash);
    let path = rest.skip(j);
    assert(path == url_path(url));
    let off = i0 + 3 + j;
    assert(path =~= url.skip(off));
    let ps = bl - off;
    assert(path[ps] == '/');
    assert forall|t: int| ps < t < path.len() implies path[t] != '/' by {
        let x = off + t;
        assert(path[t] == url[x]);
        if x < bl + 1 + nl {
            assert(url[x] == name[x - bl - 1]);
            if name[x - bl - 1] == '/' {
                assert(name.contains('/'));
            }
        } else if x > bl + 1 + nl {
            assert(url[x] == e[x - bl - 2 - nl]);
            if e[x - bl - 2 - nl] == '/' {
                assert(e.contains('/'));
            }
        }
    }
    lemma_last_char_at(path, '/', ps);
    let seg = path.skip(ps + 1);
    assert(seg =~= name + seq!['.'] + e);
    assert(seg[nl] == '.');
    assert forall|t: int| nl < t < seg.len() implies seg[t] != '.' by {
        assert(seg[t] == e[t - nl - 1]);
        if e[t - nl - 1] == '.' {
            assert(e.contains('.'));
        }
    }
    lemma_last_char_at(seg, '.', nl);
    assert(seg.skip(nl + 1) =~= e);
    assert(path_extension(url) == Some(e));
}

} // verus!

verus! {

// ---------------------------------------------------------------------------
// Law of the domain table
// ---------------------------------------------------------------------------

proof fn lemma_not_contains_char(h: Seq<char>, n: Seq<char>, k: int)
    requires
        0 <= k < n.len(),
        forall|i: int| 0 <= i < h.len() ==> h[i] != n[k],
    ensures
        !contains(h, n),
{
    if contains(h, n) {
        let i = choose|i: int| matches_at(h, n, i);
        assert(h.subrange(i, i + n.len())[k] == n[k]);
        assert(h[i + k] == n[k]);
    }
}

proof fn lemma_not_contains_pair(h: Seq<char>, n: Seq<char>, k: int)
    requires
        0 <= k && k + 1 < n.len(),
        forall|i: int| 0 <= i && i + 1 < h.len() ==> !(#[trigger] h[i] == n[k] && h[i + 1] == n[k + 1]),
    ensures
        !contains(h, n),
{
    if contains(h, n) {
        let i = choose|i: int| matches_at(h, n, i);
        assert(h.subrange(i, i + n.len())[k] == n[k]);
        assert(h.subrange(i, i + n.len())[k + 1] == n[k + 1]);
        assert(h[i + k] == n[k] && h[i + k + 1] == n[k + 1]);
    }
}

proof fn lemma_contains_self(h: Seq<char>)
    ensures
        contains(h, h),
{
    assert(h.subrange(0, h.len() as int) =~= h);
    assert(matches_at(h, h, 0));
}

/// A URL `https://d/rest` whose host `d` is lower case and free of `/`,
/// `?`, `#` and `@` has the platform of `d`.
proof fn lemma_platform_of_url(d: Seq<char>, rest: Seq<char>)
    requires
        d.len() > 0,
        forall|i: int| 0 <= i < d.len() ==> !is_ascii_upper(#[trigger] d[i]) && d[i] != '/' && d[i] != '?'
            && d[i] != '#' && d[i] != '@',
    ensures
        detect_platform_spec("https://"@ + d + seq!['/'] + rest) == platform_of_host(d),
{
    reveal_strlit("https://");
    reveal_strlit("://");
    let url = "https://"@ + d + seq!['/'] + rest;
    let lr = ascii_lower(rest);
    let lower = ascii_lower(url);
    assert(lower =~= "https://"@ + d + seq!['/'] + lr) by {
        assert forall|i: int| 0 <= i < url.len() implies lower[i] == ("https://"@ + d + seq!['/'] + lr)[i] by {
            if i < 8 {
            } else if i < 8 + d.len() {
                assert(url[i] == d[i - 8]);
            } else if i == 8 + d.len() {
            } else {
                assert(url[i] == rest[i - 9 - d.len()]);
            }
        }
    }
    let sep = "://"@;
    assert(lower.subrange(5, 8) =~= sep);
    assert(is_first_match(lower, sep, 5)) by {
        assert forall|j: int| 0 <= j < 5 implies !matches_at(lower, sep, j) by {
            if matches_at(lower, sep, j) {
                assert(lower.subrange(j, j + 3)[0] == ':');
                assert(lower[j] == ':');
            }
        }
    }
    crate::text::lemma_find_is_first(lower, sep, 5);
    let after = lower.skip(8);
    assert(after =~= d + seq!['/'] + lr);
    let cs = seq!['/', '?', '#'];
    assert(after[d.len() as int] == '/');
    assert(cs.contains(after[d.len() as int]));
    let e = first_of(after, cs).unwrap();
    assert(0 <= e < after.len() && cs.contains(after[e]) && forall|j: int| 0 <= j < e ==> !cs.contains(after[j])) by {
        lemma_first_of_min_exists(after, cs, d.len() as int);
    }
    assert(e == d.len()) by {
        if e < d.len() {
            assert(after[e] == d[e]);
            assert(cs.contains(d[e]));
            assert(d[e] == '/' || d[e] == '?' || d[e] == '#');
        }
    }
    assert(authority_of(after) =~= d);
    assert(last_char(d, '@') is None);
    assert(host_port_of(d) == d);
}

proof fn lemma_first_of_min_exists(s: Seq<char>, cs: Seq<char>, i: int)
    requires
        0 <= i < s.len(),
        cs.contains(s[i]),
    ensures
        exists|m: int| 0 <= m < s.len() && cs.contains(s[m]) && forall|j: int| 0 <= j < m ==> !cs.contains(s[j]),
    decreases i,
{
    if exists|j: int| 0 <= j < i && cs.contains(s[j]) {
        let j = choose|j: int| 0 <= j < i && cs.contains(s[j]);
        lemma_first_of_min_exists(s, cs, j);
    } else {
        assert(forall|j: int| 0 <= j < i ==> !cs.contains(s[j]));
    }
}

} // verus!

verus! {

/// The known cloud-drive domains and their platforms.
pub open spec fn domain_table() -> Seq<(Seq<char>, Platform)> {
    seq![
        ("pan.quark.cn"@, Platform::Quark),
        ("drive.uc.cn"@, Platform::Uc),
        ("pan.uc.cn"@, Platform::Uc),
        ("pan.baidu.com"@, Platform::Baidu),
        ("yun.baidu.com"@, Platform::Baidu),
        ("cloud.189.cn"@, Platform::Tianyi),
        ("pan.189.cn"@, Platform::Tianyi),
        ("123912.com"@, Platform::Pan123),
        ("123pan.com"@, Platform::Pan123),
        ("www.123pan.cn"@, Platform::Pan123),
        ("115.com"@, Platform::Pan115),
        ("alipan.com"@, Platform::Aliyun),
        ("aliyundrive.com"@, Platform::Aliyun),
        ("aliyunpan.com"@, Platform::Aliyun),
        ("pan.xunlei.com"@, Platform::Xunlei),
        ("xunlei.com"@, Platform::Xunlei),
        ("caiyun.139.com"@, Platform::Mobile),
        ("yun.139.com"@, Platform::Mobile),
    ]
}

proof fn lemma_domain_host_0()
    ensures
        "pan.quark.cn"@.len() > 0,
        forall|i: int| 0 <= i < "pan.quark.cn"@.len() ==> !is_ascii_upper(#[trigger] "pan.quark.cn"@[i]) && "pan.quark.cn"@[i] != '/' && "pan.quark.cn"@[i] != '?' && "pan.quark.cn"@[i] != '#' && "pan.quark.cn"@[i] != '@',
{
    reveal_strlit("pan.quark.cn");
}

proof fn lemma_domain_host_1()
    ensures
        "drive.uc.cn"@.len() > 0,
        forall|i: int| 0 <= i < "drive.uc.cn"@.len() ==> !is_ascii_upper(#[trigger] "drive.uc.cn"@[i]) && "drive.uc.cn"@[i] != '/' && "drive.uc.cn"@[i] != '?' && "drive.uc.cn"@[i] != '#' && "drive.uc.cn"@[i] != '@',
{
    reveal_strlit("drive.uc.cn");
}

proof fn lemma_domain_host_2()
    ensures
        "pan.uc.cn"@.len() > 0,
        forall|i: int| 0 <= i < "pan.uc.cn"@.len() ==> !is_ascii_upper(#[trigger] "pan.uc.cn"@[i]) && "pan.uc.cn"@[i] != '/' && "pan.uc.cn"@[i] != '?' && "pan.uc.cn"@[i] != '#' && "pan.uc.cn"@[i] != '@',
{
    reveal_strlit("pan.uc.cn");
}

proof fn lemma_domain_host_3()
    ensures
        "pan.baidu.com"@.len() > 0,
        forall|i: int| 0 <= i < "pan.baidu.com"@.len() ==> !is_ascii_upper(#[trigger] "pan.baidu.com"@[i]) && "pan.baidu.com"@[i] != '/' && "pan.baidu.com"@[i] != '?' && "pan.baidu.com"@[i] != '#' && "pan.baidu.com"@[i] != '@',
{
    reveal_strlit("pan.baidu.com");
}

proof fn lemma_domain_host_4()
    ensures
        "yun.baidu.com"@.len() > 0,
        forall|i: int| 0 <= i < "yun.baidu.com"@.len() ==> !is_ascii_upper(#[trigger] "yun.baidu.com"@[i]) && "yun.baidu.com"@[i] != '/' && "yun.baidu.com"@[i] != '?' && "yun.baidu.com"@[i] != '#' && "yun.baidu.com"@[i] != '@',
{
    reveal_strlit("yun.baidu.com");
}

proof fn lemma_domain_host_5()
    ensures
        "cloud.189.cn"@.len() > 0,
        forall|i: int| 0 <= i < "cloud.189.cn"@.len() ==> !is_ascii_upper(#[trigger] "cloud.189.cn"@[i]) && "cloud.189.cn"@[i] != '/' && "cloud.189.cn"@[i] != '?' && "cloud.189.cn"@[i] != '#' && "cloud.189.cn"@[i] != '@',
{
    reveal_strlit("cloud.189.cn");
}

proof fn lemma_domain_host_6()
    ensures
        "pan.189.cn"@.len() > 0,
        forall|i: int| 0 <= i < "pan.189.cn"@.len() ==> !is_ascii_upper(#[trigger] "pan.189.cn"@[i]) && "pan.189.cn"@[i] != '/' && "pan.189.cn"@[i] != '?' && "pan.189.cn"@[i] != '#' && "pan.189.cn"@[i] != '@',
{
    reveal_strlit("pan.189.cn");
}

proof fn lemma_domain_host_7()
    ensures
        "123912.com"@.len() > 0,
        forall|i: int| 0 <= i < "123912.com"@.len() ==> !is_ascii_upper(#[trigger] "123912.com"@[i]) && "123912.com"@[i] != '/' && "123912.com"@[i] != '?' && "123912.com"@[i] != '#' && "123912.com"@[i] != '@',
{
    reveal_strlit("123912.com");
}

proof fn lemma_domain_host_8()
    ensures
        "123pan.com"@.len() > 0,
        forall|i: int| 0 <= i < "123pan.com"@.len() ==> !is_ascii_upper(#[trigger] "123pan.com"@[i]) && "123pan.com"@[i] != '/' && "123pan.com"@[i] != '?' && "123pan.com"@[i] != '#' && "123pan.com"@[i] != '@',
{
    reveal_strlit("123pan.com");
}

proof fn lemma_domain_host_9()
    ensures
        "www.123pan.cn"@.len() > 0,
        forall|i: int| 0 <= i < "www.123pan.cn"@.len() ==> !is_ascii_upper(#[trigger] "www.123pan.cn"@[i]) && "www.123pan.cn"@[i] != '/' && "www.123pan.cn"@[i] != '?' && "www.123pan.cn"@[i] != '#' && "www.123pan.cn"@[i] != '@',
{
    reveal_strlit("www.123pan.cn");
}

proof fn lemma_domain_host_10()
    ensures
        "115.com"@.len() > 0,
        forall|i: int| 0 <= i < "115.com"@.len() ==> !is_ascii_upper(#[trigger] "115.com"@[i]) && "115.com"@[i] != '/' && "115.com"@[i] != '?' && "115.com"@[i] != '#' && "115.com"@[i] != '@',
{
    reveal_strlit("115.com");
}

proof fn lemma_domain_host_11()
    ensures
        "alipan.com"@.len() > 0,
        forall|i: int| 0 <= i < "alipan.com"@.len() ==> !is_ascii_upper(#[trigger] "alipan.com"@[i]) && "alipan.com"@[i] != '/' && "alipan.com"@[i] != '?' && "alipan.com"@[i] != '#' && "alipan.com"@[i] != '@',
{
    reveal_strlit("alipan.com");
}

proof fn lemma_domain_host_12()
    ensures
        "aliyundrive.com"@.len() > 0,
        forall|i: int| 0 <= i < "aliyundrive.com"@.len() ==> !is_ascii_upper(#[trigger] "aliyundrive.com"@[i]) && "aliyundrive.com"@[i] != '/' && "aliyundrive.com"@[i] != '?' && "aliyundrive.com"@[i] != '#' && "aliyundrive.com"@[i] != '@',
{
    reveal_strlit("aliyundrive.com");
}

proof fn lemma_domain_host_13()
    ensures
        "aliyunpan.com"@.len() > 0,
        forall|i: int| 0 <= i < "aliyunpan.com"@.len() ==> !is_ascii_upper(#[trigger] "aliyunpan.com"@[i]) && "aliyunpan.com"@[i] != '/' && "aliyunpan.com"@[i] != '?' && "aliyunpan.com"@[i] != '#' && "aliyunpan.com"@[i] != '@',
{
    reveal_strlit("aliyunpan.com");
}

proof fn lemma_domain_host_14()
    ensures
        "pan.xunlei.com"@.len() > 0,
        forall|i: int| 0 <= i < "pan.xunlei.com"@.len() ==> !is_ascii_upper(#[trigger] "pan.xunlei.com"@[i]) && "pan.xunlei.com"@[i] != '/' && "pan.xunlei.com"@[i] != '?' && "pan.xunlei.com"@[i] != '#' && "pan.xunlei.com"@[i] != '@',
{
    reveal_strlit("pan.xunlei.com");
}

proof fn lemma_domain_host_15()
    ensures
        "xunlei.com"@.len() > 0,
        forall|i: int| 0 <= i < "xunlei.com"@.len() ==> !is_ascii_upper(#[trigger] "xunlei.com"@[i]) && "xunlei.com"@[i] != '/' && "xunlei.com"@[i] != '?' && "xunlei.com"@[i] != '#' && "xunlei.com"@[i] != '@',
{
    reveal_strlit("xunlei.com");
}

proof fn lemma_domain_host_16()
    ensures
        "caiyun.139.com"@.len() > 0,
        forall|i: int| 0 <= i < "caiyun.139.com"@.len() ==> !is_ascii_upper(#[trigger] "caiyun.139.com"@[i]) && "caiyun.139.com"@[i] != '/' && "caiyun.139.com"@[i] != '?' && "caiyun.139.com"@[i] != '#' && "caiyun.139.com"@[i] != '@',
{
    reveal_strlit("caiyun.139.com");
}

proof fn lemma_domain_host_17()
    ensures
        "yun.139.com"@.len() > 0,
        forall|i: int| 0 <= i < "yun.139.com"@.len() ==> !is_ascii_upper(#[trigger] "yun.139.com"@[i]) && "yun.139.com"@[i] != '/' && "yun.139.com"@[i] != '?' && "yun.139.com"@[i] != '#' && "yun.139.com"@[i] != '@',
{
    reveal_strlit("yun.139.com");
}

proof fn lemma_domain_entry_0(rest: Seq<char>)
    ensures
        detect_platform_spec("https://"@ + "pan.quark.cn"@ + seq!['/'] + rest) == Some(Platform::Quark),
{
    lemma_domain_host_0();
    lemma_contains_self("pan.quark.cn"@);
    lemma_platform_of_url("pan.quark.cn"@, rest);
}

proof fn lemma_domain_excludes_0()
    ensures
        !contains("drive.uc.cn"@, "pan.quark.cn"@),
{
    reveal_strlit("drive.uc.cn");
    reveal_strlit("pan.quark.cn");
    assert(forall|i: int| 0 <= i < "drive.uc.cn"@.len() ==> "drive.uc.cn"@[i] != 'p');
    lemma_not_contains_char("drive.uc.cn"@, "pan.quark.cn"@, 0);
}

proof fn lemma_domain_entry_1(rest: Seq<char>)
    ensures
        detect_platform_spec("https://"@ + "drive.uc.cn"@ + seq!['/'] + rest) == Some(Platform::Uc),
{
    lemma_domain_host_1();
    lemma_contains_self("drive.uc.cn"@);
    lemma_domain_excludes_0();
    lemma_platform_of_url("drive.uc.cn"@, rest);
}

proof fn lemma_domain_excludes_1()
    ensures
        !contains("pan.uc.cn"@, "pan.quark.cn"@),
{
    reveal_strlit("pan.uc.cn");
    reveal_strlit("pan.quark.cn");
    assert(forall|i: int| 0 <= i < "pan.uc.cn"@.len() ==> "pan.uc.cn"@[i] != 'q');
    lemma_not_contains_char("pan.uc.cn"@, "pan.quark.cn"@, 4);
}

proof fn lemma_domain_entry_2(rest: Seq<char>)
    ensures
        detect_platform_spec("https://"@ + "pan.uc.cn"@ + seq!['/'] + rest) == Some(Platform::Uc),
{
    lemma_domain_host_2();
    lemma_contains_self("pan.uc.cn"@);
    lemma_domain_excludes_1();
    lemma_platform_of_url("pan.uc.cn"@, rest);
}

proof fn lemma_domain_excludes_2()
    ensures
        !contains("pan.baidu.com"@, "pan.quark.cn"@),
{
    reveal_strlit("pan.baidu.com");
    reveal_strlit("pan.quark.cn");
    assert(forall|i: int| 0 <= i < "pan.baidu.com"@.len() ==> "pan.baidu.com"@[i] != 'q');
    lemma_not_contains_char("pan.baidu.com"@, "pan.quark.cn"@, 4);
}

proof fn lemma_domain_excludes_3()
    ensures
        !contains("pan.baidu.com"@, "drive.uc.cn"@),
{
    reveal_strlit("pan.baidu.com");
    reveal_strlit("drive.uc.cn");
    assert(forall|i: int| 0 <= i < "pan.baidu.com"@.len() ==> "pan.baidu.com"@[i] != 'r');
    lemma_not_contains_char("pan.baidu.com"@, "drive.uc.cn"@, 1);
}

proof fn lemma_domain_excludes_4()
    ensures
        !contains("pan.baidu.com"@, "pan.uc.cn"@),
{
    reveal_strlit("pan.baidu.com");
    reveal_strlit("pan.uc.cn");
    assert(forall|i: int| 0 <= i && i + 1 < "pan.baidu.com"@.len() ==> !(#[trigger] "pan.baidu.com"@[i] == '.' && "pan.baidu.com"@[i + 1] == 'u'));
    lemma_not_contains_pair("pan.baidu.com"@, "pan.uc.cn"@, 3);
}

proof fn lemma_domain_entry_3(rest: Seq<char>)
    ensures
        detect_platform_spec("https://"@ + "pan.baidu.com"@ + seq!['/'] + rest) == Some(Platform::Baidu),
{
    lemma_domain_host_3();
    lemma_contains_self("pan.baidu.com"@);
    lemma_domain_excludes_2();
    lemma_domain_excludes_3();
    lemma_domain_excludes_4();
    lemma_platform_of_url("pan.baidu.com"@, rest);
}

proof fn lemma_domain_excludes_5()
    ensures
        !contains("yun.baidu.com"@, "pan.quark.cn"@),
{
    reveal_strlit("yun.baidu.com");
    reveal_strlit("pan.quark.cn");
    assert(forall|i: int| 0 <= i < "yun.baidu.com"@.len() ==> "yun.baidu.com"@[i] != 'p');
    lemma_not_contains_char("yun.baidu.com"@, "pan.quark.cn"@, 0);
}

proof fn lemma_domain_excludes_6()
    ensures
        !contains("yun.baidu.com"@, "drive.uc.cn"@),
{
    reveal_strlit("yun.baidu.com");
    reveal_strlit("drive.uc.cn");
    assert(forall|i: int| 0 <= i < "yun.baidu.com"@.len() ==> "yun.baidu.com"@[i] != 'r');
    lemma_not_contains_char("yun.baidu.com"@, "drive.uc.cn"@, 1);
}

proof fn lemma_domain_excludes_7()
    ensures
        !contains("yun.baidu.com"@, "pan.uc.cn"@),
{
    reveal_strlit("yun.baidu.com");
    reveal_strlit("pan.uc.cn");
    assert(forall|i: int| 0 <= i < "yun.baidu.com"@.len() ==> "yun.baidu.com"@[i] != 'p');
    lemma_not_contains_char("yun.baidu.com"@, "pan.uc.cn"@, 0);
}

proof fn lemma_domain_entry_4(rest: Seq<char>)
    ensures
        detect_platform_spec("https://"@ + "yun.baidu.com"@ + seq!['/'] + rest) == Some(Platform::Baidu),
{
    lemma_domain_host_4();
    lemma_contains_self("yun.baidu.com"@);
    lemma_domain_excludes_5();
    lemma_domain_excludes_6();
    lemma_domain_excludes_7();
    lemma_platform_of_url("yun.baidu.com"@, rest);
}

proof fn lemma_domain_excludes_8()
    ensures
        !contains("cloud.189.cn"@, "pan.quark.cn"@),
{
    reveal_strlit("cloud.189.cn");
    reveal_strlit("pan.quark.cn");
    assert(forall|i: int| 0 <= i < "cloud.189.cn"@.len() ==> "cloud.189.cn"@[i] != 'p');
    lemma_not_contains_char("cloud.189.cn"@, "pan.quark.cn"@, 0);
}

proof fn lemma_domain_excludes_9()
    ensures
        !contains("cloud.189.cn"@, "drive.uc.cn"@),
{
    reveal_strlit("cloud.189.cn");
    reveal_strlit("drive.uc.cn");
    assert(forall|i: int| 0 <= i < "cloud.189.cn"@.len() ==> "cloud.189.cn"@[i] != 'r');
    lemma_not_contains_char("cloud.189.cn"@, "drive.uc.cn"@, 1);
}

proof fn lemma_domain_excludes_10()
    ensures
        !contains("cloud.189.cn"@, "pan.uc.cn"@),
{
    reveal_strlit("cloud.189.cn");
    reveal_strlit("pan.uc.cn");
    assert(forall|i: int| 0 <= i < "cloud.189.cn"@.len() ==> "cloud.189.cn"@[i] != 'p');
    lemma_not_contains_char("cloud.189.cn"@, "pan.uc.cn"@, 0);
}

proof fn lemma_domain_excludes_11()
    ensures
        !contains("cloud.189.cn"@, "pan.baidu.com"@),
{
    reveal_strlit("cloud.189.cn");
    reveal_strlit("pan.baidu.com");
    assert(forall|i: int| 0 <= i < "cloud.189.cn"@.len() ==> "cloud.189.cn"@[i] != 'p');
    lemma_not_contains_char("cloud.189.cn"@, "pan.baidu.com"@, 0);
}

proof fn lemma_domain_excludes_12()
    ensures
        !contains("cloud.189.cn"@, "yun.baidu.com"@),
{
    reveal_strlit("cloud.189.cn");
    reveal_strlit("yun.baidu.com");
    assert(forall|i: int| 0 <= i < "cloud.189.cn"@.len() ==> "cloud.189.cn"@[i] != 'y');
    lemma_not_contains_char("cloud.189.cn"@, "yun.baidu.com"@, 0);
}

proof fn lemma_domain_entry_5(rest: Seq<char>)
    ensures
        detect_platform_spec("https://"@ + "cloud.189.cn"@ + seq!['/'] + rest) == Some(Platform::Tianyi),
{
    lemma_domain_host_5();
    lemma_contains_self("cloud.189.cn"@);
    lemma_domain_excludes_8();
    lemma_domain_excludes_9();
    lemma_domain_excludes_10();
    lemma_domain_excludes_11();
    lemma_domain_excludes_12();
    lemma_platform_of_url("cloud.189.cn"@, rest);
}

proof fn lemma_domain_excludes_13()
    ensures
        !contains("pan.189.cn"@, "pan.quark.cn"@),
{
    reveal_strlit("pan.189.cn");
    reveal_strlit("pan.quark.cn");
    assert(forall|i: int| 0 <= i < "pan.189.cn"@.len() ==> "pan.189.cn"@[i] != 'q');
    lemma_not_contains_char("pan.189.cn"@, "pan.quark.cn"@, 4);
}

proof fn lemma_domain_excludes_14()
    ensures
        !contains("pan.189.cn"@, "drive.uc.cn"@),
{
    reveal_strlit("pan.189.cn");
    reveal_strlit("drive.uc.cn");
    assert(forall|i: int| 0 <= i < "pan.189.cn"@.len() ==> "pan.189.cn"@[i] != 'd');
    lemma_not_contains_char("pan.189.cn"@, "drive.uc.cn"@, 0);
}

proof fn lemma_domain_excludes_15()
    ensures
        !contains("pan.189.cn"@, "pan.uc.cn"@),
{
    reveal_strlit("pan.189.cn");
    reveal_strlit("pan.uc.cn");
    assert(forall|i: int| 0 <= i < "pan.189.cn"@.len() ==> "pan.189.cn"@[i] != 'u');
    lemma_not_contains_char("pan.189.cn"@, "pan.uc.cn"@, 4);
}

proof fn lemma_domain_excludes_16()
    ensures
        !contains("pan.189.cn"@, "pan.baidu.com"@),
{
    reveal_strlit("pan.189.cn");
    reveal_strlit("pan.baidu.com");
    assert(forall|i: int| 0 <= i < "pan.189.cn"@.len() ==> "pan.189.cn"@[i] != 'b');
    lemma_not_contains_char("pan.189.cn"@, "pan.baidu.com"@, 4);
}

proof fn lemma_domain_excludes_17()
    ensures
        !contains("pan.189.cn"@, "yun.baidu.com"@),
{
    reveal_strlit("pan.189.cn");
    reveal_strlit("yun.baidu.com");
    assert(forall|i: int| 0 <= i < "pan.189.cn"@.len() ==> "pan.189.cn"@[i] != 'y');
    lemma_not_contains_char("pan.189.cn"@, "yun.baidu.com"@, 0);
}

proof fn lemma_domain_entry_6(rest: Seq<char>)
    ensures
        detect_platform_spec("https://"@ + "pan.189.cn"@ + seq!['/'] + rest) == Some(Platform::Tianyi),
{
    lemma_domain_host_6();
    lemma_contains_self("pan.189.cn"@);
    lemma_domain_excludes_13();
    lemma_domain_excludes_14();
    lemma_domain_excludes_15();
    lemma_domain_excludes_16();
    lemma_domain_excludes_17();
    lemma_platform_of_url("pan.189.cn"@, rest);
}

proof fn lemma_domain_excludes_18()
    ensures
        !contains("123912.com"@, "pan.quark.cn"@),
{
    reveal_strlit("123912.com");
    reveal_strlit("pan.quark.cn");
    assert(forall|i: int| 0 <= i < "123912.com"@.len() ==> "123912.com"@[i] != 'p');
    lemma_not_contains_char("123912.com"@, "pan.quark.cn"@, 0);
}

proof fn lemma_domain_excludes_19()
    ensures
        !contains("123912.com"@, "drive.uc.cn"@),
{
    reveal_strlit("123912.com");
    reveal_strlit("drive.uc.cn");
    assert(forall|i: int| 0 <= i < "123912.com"@.len() ==> "123912.com"@[i] != 'd');
    lemma_not_contains_char("123912.com"@, "drive.uc.cn"@, 0);
}

proof fn lemma_domain_excludes_20()
    ensures
        !contains("123912.com"@, "pan.uc.cn"@),
{
    reveal_strlit("123912.com");
    reveal_strlit("pan.uc.cn");
    assert(forall|i: int| 0 <= i < "123912.com"@.len() ==> "123912.com"@[i] != 'p');
    lemma_not_contains_char("123912.com"@, "pan.uc.cn"@, 0);
}

proof fn lemma_domain_excludes_21()
    ensures
        !contains("123912.com"@, "pan.baidu.com"@),
{
    reveal_strlit("123912.com");
    reveal_strlit("pan.baidu.com");
    assert(forall|i: int| 0 <= i < "123912.com"@.len() ==> "123912.com"@[i] != 'p');
    lemma_not_contains_char("123912.com"@, "pan.baidu.com"@, 0);
}

proof fn lemma_domain_excludes_22()
    ensures
        !contains("123912.com"@, "yun.baidu.com"@),
{
    reveal_strlit("123912.com");
    reveal_strlit("yun.baidu.com");
    assert(forall|i: int| 0 <= i < "123912.com"@.len() ==> "123912.com"@[i] != 'y');
    lemma_not_contains_char("123912.com"@, "yun.baidu.com"@, 0);
}

proof fn lemma_domain_excludes_23()
    ensures
        !contains("123912.com"@, "cloud.189.cn"@),
{
    reveal_strlit("123912.com");
    reveal_strlit("cloud.189.cn");
    assert(forall|i: int| 0 <= i < "123912.com"@.len() ==> "123912.com"@[i] != 'l');
    lemma_not_contains_char("123912.com"@, "cloud.189.cn"@, 1);
}

proof fn lemma_domain_excludes_24()
    ensures
        !contains("123912.com"@, "pan.189.cn"@),
{
    reveal_strlit("123912.com");
    reveal_strlit("pan.189.cn");
    assert(forall|i: int| 0 <= i < "123912.com"@.len() ==> "123912.com"@[i] != 'p');
    lemma_not_contains_char("123912.com"@, "pan.189.cn"@, 0);
}

proof fn lemma_domain_entry_7(rest: Seq<char>)
    ensures
        detect_platform_spec("https://"@ + "123912.com"@ + seq!['/'] + rest) == Some(Platform::Pan123),
{
    lemma_domain_host_7();
    lemma_contains_self("123912.com"@);
    lemma_domain_excludes_18();
    lemma_domain_excludes_19();
    lemma_domain_excludes_20();
    lemma_domain_excludes_21();
    lemma_domain_excludes_22();
    lemma_domain_excludes_23();
    lemma_domain_excludes_24();
    lemma_platform_of_url("123912.com"@, rest);
}

proof fn lemma_domain_excludes_25()
    ensures
        !contains("123pan.com"@, "pan.quark.cn"@),
{
    reveal_strlit("123pan.com");
    reveal_strlit("pan.quark.cn");
    assert(forall|i: int| 0 <= i < "123pan.com"@.len() ==> "123pan.com"@[i] != 'q');
    lemma_not_contains_char("123pan.com"@, "pan.quark.cn"@, 4);
}

proof fn lemma_domain_excludes_26()
    ensures
        !contains("123pan.com"@, "drive.uc.cn"@),
{
    reveal_strlit("123pan.com");
    reveal_strlit("drive.uc.cn");
    assert(forall|i: int| 0 <= i < "123pan.com"@.len() ==> "123pan.com"@[i] != 'd');
    lemma_not_contains_char("123pan.com"@, "drive.uc.cn"@, 0);
}

proof fn lemma_domain_excludes_27()
    ensures
        !contains("123pan.com"@, "pan.uc.cn"@),
{
    reveal_strlit("123pan.com");
    reveal_strlit("pan.uc.cn");
    assert(forall|i: int| 0 <= i < "123pan.com"@.len() ==> "123pan.com"@[i] != 'u');
    lemma_not_contains_char("123pan.com"@, "pan.uc.cn"@, 4);
}

proof fn lemma_domain_excludes_28()
    ensures
        !contains("123pan.com"@, "pan.baidu.com"@),
{
    reveal_strlit("123pan.com");
    reveal_strlit("pan.baidu.com");
    assert(forall|i: int| 0 <= i < "123pan.com"@.len() ==> "123pan.com"@[i] != 'b');
    lemma_not_contains_char("123pan.com"@, "pan.baidu.com"@, 4);
}

proof fn lemma_domain_excludes_29()
    ensures
        !contains("123pan.com"@, "yun.baidu.com"@),
{
    reveal_strlit("123pan.com");
    reveal_strlit("yun.baidu.com");
    assert(forall|i: int| 0 <= i < "123pan.com"@.len() ==> "123pan.com"@[i] != 'y');
    lemma_not_contains_char("123pan.com"@, "yun.baidu.com"@, 0);
}

proof fn lemma_domain_excludes_30()
    ensures
        !contains("123pan.com"@, "cloud.189.cn"@),
{
    reveal_strlit("123pan.com");
    reveal_strlit("cloud.189.cn");
    assert(forall|i: int| 0 <= i < "123pan.com"@.len() ==> "123pan.com"@[i] != 'l');
    lemma_not_contains_char("123pan.com"@, "cloud.189.cn"@, 1);
}

proof fn lemma_domain_excludes_31()
    ensures
        !contains("123pan.com"@, "pan.189.cn"@),
{
    reveal_strlit("123pan.com");
    reveal_strlit("pan.189.cn");
    assert(forall|i: int| 0 <= i < "123pan.com"@.len() ==> "123pan.com"@[i] != '8');
    lemma_not_contains_char("123pan.com"@, "pan.189.cn"@, 5);
}

proof fn lemma_domain_entry_8(rest: Seq<char>)
    ensures
        detect_platform_spec("https://"@ + "123pan.com"@ + seq!['/'] + rest) == Some(Platform::Pan123),
{
    lemma_domain_host_8();
    lemma_contains_self("123pan.com"@);
    lemma_domain_excludes_25();
    lemma_domain_excludes_26();
    lemma_domain_excludes_27();
    lemma_domain_excludes_28();
    lemma_domain_excludes_29();
    lemma_domain_excludes_30();
    lemma_domain_excludes_31();
    lemma_platform_of_url("123pan.com"@, rest);
}

proof fn lemma_domain_excludes_32()
    ensures
        !contains("www.123pan.cn"@, "pan.quark.cn"@),
{
    reveal_strlit("www.123pan.cn");
    reveal_strlit("pan.quark.cn");
    assert(forall|i: int| 0 <= i < "www.123pan.cn"@.len() ==> "www.123pan.cn"@[i] != 'q');
    lemma_not_contains_char("www.123pan.cn"@, "pan.quark.cn"@, 4);
}

proof fn lemma_domain_excludes_33()
    ensures
        !contains("www.123pan.cn"@, "drive.uc.cn"@),
{
    reveal_strlit("www.123pan.cn");
    reveal_strlit("drive.uc.cn");
    assert(forall|i: int| 0 <= i < "www.123pan.cn"@.len() ==> "www.123pan.cn"@[i] != 'd');
    lemma_not_contains_char("www.123pan.cn"@, "drive.uc.cn"@, 0);
}

proof fn lemma_domain_excludes_34()
    ensures
        !contains("www.123pan.cn"@, "pan.uc.cn"@),
{
    reveal_strlit("www.123pan.cn");
    reveal_strlit("pan.uc.cn");
    assert(forall|i: int| 0 <= i < "www.123pan.cn"@.len() ==> "www.123pan.cn"@[i] != 'u');
    lemma_not_contains_char("www.123pan.cn"@, "pan.uc.cn"@, 4);
}

proof fn lemma_domain_excludes_35()
    ensures
        !contains("www.123pan.cn"@, "pan.baidu.com"@),
{
    reveal_strlit("www.123pan.cn");
    reveal_strlit("pan.baidu.com");
    assert(forall|i: int| 0 <= i < "www.123pan.cn"@.len() ==> "www.123pan.cn"@[i] != 'b');
    lemma_not_contains_char("www.123pan.cn"@, "pan.baidu.com"@, 4);
}

proof fn lemma_domain_excludes_36()
    ensures
        !contains("www.123pan.cn"@, "yun.baidu.com"@),
{
    reveal_strlit("www.123pan.cn");
    reveal_strlit("yun.baidu.com");
    assert(forall|i: int| 0 <= i < "www.123pan.cn"@.len() ==> "www.123pan.cn"@[i] != 'y');
    lemma_not_contains_char("www.123pan.cn"@, "yun.baidu.com"@, 0);
}

proof fn lemma_domain_excludes_37()
    ensures
        !contains("www.123pan.cn"@, "cloud.189.cn"@),
{
    reveal_strlit("www.123pan.cn");
    reveal_strlit("cloud.189.cn");
    assert(forall|i: int| 0 <= i < "www.123pan.cn"@.len() ==> "www.123pan.cn"@[i] != 'l');
    lemma_not_contains_char("www.123pan.cn"@, "cloud.189.cn"@, 1);
}

proof fn lemma_domain_excludes_38()
    ensures
        !contains("www.123pan.cn"@, "pan.189.cn"@),
{
    reveal_strlit("www.123pan.cn");
    reveal_strlit("pan.189.cn");
    assert(forall|i: int| 0 <= i < "www.123pan.cn"@.len() ==> "www.123pan.cn"@[i] != '8');
    lemma_not_contains_char("www.123pan.cn"@, "pan.189.cn"@, 5);
}

proof fn lemma_domain_entry_9(rest: Seq<char>)
    ensures
        detect_platform_spec("https://"@ + "www.123pan.cn"@ + seq!['/'] + rest) == Some(Platform::Pan123),
{
    lemma_domain_host_9();
    lemma_contains_self("www.123pan.cn"@);
    lemma_domain_excludes_32();
    lemma_domain_excludes_33();
    lemma_domain_excludes_34();
    lemma_domain_excludes_35();
    lemma_domain_excludes_36();
    lemma_domain_excludes_37();
    lemma_domain_excludes_38();
    lemma_platform_of_url("www.123pan.cn"@, rest);
}

proof fn lemma_domain_excludes_39()
    ensures
        !contains("115.com"@, "pan.quark.cn"@),
{
    reveal_strlit("115.com");
    reveal_strlit("pan.quark.cn");
    assert(forall|i: int| 0 <= i < "115.com"@.len() ==> "115.com"@[i] != 'p');
    lemma_not_contains_char("115.com"@, "pan.quark.cn"@, 0);
}

proof fn lemma_domain_excludes_40()
    ensures
        !contains("115.com"@, "drive.uc.cn"@),
{
    reveal_strlit("115.com");
    reveal_strlit("drive.uc.cn");
    assert(forall|i: int| 0 <= i < "115.com"@.len() ==> "115.com"@[i] != 'd');
    lemma_not_contains_char("115.com"@, "drive.uc.cn"@, 0);
}

proof fn lemma_domain_excludes_41()
    ensures
        !contains("115.com"@, "pan.uc.cn"@),
{
    reveal_strlit("115.com");
    reveal_strlit("pan.uc.cn");
    assert(forall|i: int| 0 <= i < "115.com"@.len() ==> "115.com"@[i] != 'p');
    lemma_not_contains_char("115.com"@, "pan.uc.cn"@, 0);
}

proof fn lemma_domain_excludes_42()
    ensures
        !contains("115.com"@, "pan.baidu.com"@),
{
    reveal_strlit("115.com");
    reveal_strlit("pan.baidu.com");
    assert(forall|i: int| 0 <= i < "115.com"@.len() ==> "115.com"@[i] != 'p');
    lemma_not_contains_char("115.com"@, "pan.baidu.com"@, 0);
}

proof fn lemma_domain_excludes_43()
    ensures
        !contains("115.com"@, "yun.baidu.com"@),
{
    reveal_strlit("115.com");
    reveal_strlit("yun.baidu.com");
    assert(forall|i: int| 0 <= i < "115.com"@.len() ==> "115.com"@[i] != 'y');
    lemma_not_contains_char("115.com"@, "yun.baidu.com"@, 0);
}

proof fn lemma_domain_excludes_44()
    ensures
        !contains("115.com"@, "cloud.189.cn"@),
{
    reveal_strlit("115.com");
    reveal_strlit("cloud.189.cn");
    assert(forall|i: int| 0 <= i < "115.com"@.len() ==> "115.com"@[i] != 'l');
    lemma_not_contains_char("115.com"@, "cloud.189.cn"@, 1);
}

proof fn lemma_domain_excludes_45()
    ensures
        !contains("115.com"@, "pan.189.cn"@),
{
    reveal_strlit("115.com");
    reveal_strlit("pan.189.cn");
    assert(forall|i: int| 0 <= i < "115.com"@.len() ==> "115.com"@[i] != 'p');
    lemma_not_contains_char("115.com"@, "pan.189.cn"@, 0);
}

proof fn lemma_domain_excludes_46()
    ensures
        !contains("115.com"@, "123912.com"@),
{
    reveal_strlit("115.com");
    reveal_strlit("123912.com");
    assert(forall|i: int| 0 <= i < "115.com"@.len() ==> "115.com"@[i] != '2');
    lemma_not_contains_char("115.com"@, "123912.com"@, 1);
}

proof fn lemma_domain_excludes_47()
    ensures
        !contains("115.com"@, "123pan.com"@),
{
    reveal_strlit("115.com");
    reveal_strlit("123pan.com");
    assert(forall|i: int| 0 <= i < "115.com"@.len() ==> "115.com"@[i] != '2');
    lemma_not_contains_char("115.com"@, "123pan.com"@, 1);
}

proof fn lemma_domain_excludes_48()
    ensures
        !contains("115.com"@, "www.123pan.cn"@),
{
    reveal_strlit("115.com");
    reveal_strlit("www.123pan.cn");
    assert(forall|i: int| 0 <= i < "115.com"@.len() ==> "115.com"@[i] != 'w');
    lemma_not_contains_char("115.com"@, "www.123pan.cn"@, 0);
}

proof fn lemma_domain_entry_10(rest: Seq<char>)
    ensures
        detect_platform_spec("https://"@ + "115.com"@ + seq!['/'] + rest) == Some(Platform::Pan115),
{
    lemma_domain_host_10();
    lemma_contains_self("115.com"@);
    lemma_domain_excludes_39();
    lemma_domain_excludes_40();
    lemma_domain_excludes_41();
    lemma_domain_excludes_42();
    lemma_domain_excludes_43();
    lemma_domain_excludes_44();
    lemma_domain_excludes_45();
    lemma_domain_excludes_46();
    lemma_domain_excludes_47();
    lemma_domain_excludes_48();
    lemma_platform_of_url("115.com"@, rest);
}

proof fn lemma_domain_excludes_49()
    ensures
        !contains("alipan.com"@, "pan.quark.cn"@),
{
    reveal_strlit("alipan.com");
    reveal_strlit("pan.quark.cn");
    assert(forall|i: int| 0 <= i < "alipan.com"@.len() ==> "alipan.com"@[i] != 'q');
    lemma_not_contains_char("alipan.com"@, "pan.quark.cn"@, 4);
}

proof fn lemma_domain_excludes_50()
    ensures
        !contains("alipan.com"@, "drive.uc.cn"@),
{
    reveal_strlit("alipan.com");
    reveal_strlit("drive.uc.cn");
    assert(forall|i: int| 0 <= i < "alipan.com"@.len() ==> "alipan.com"@[i] != 'd');
    lemma_not_contains_char("alipan.com"@, "drive.uc.cn"@, 0);
}

proof fn lemma_domain_excludes_51()
    ensures
        !contains("alipan.com"@, "pan.uc.cn"@),
{
    reveal_strlit("alipan.com");
    reveal_strlit("pan.uc.cn");
    assert(forall|i: int| 0 <= i < "alipan.com"@.len() ==> "alipan.com"@[i] != 'u');
    lemma_not_contains_char("alipan.com"@, "pan.uc.cn"@, 4);
}

proof fn lemma_domain_excludes_52()
    ensures
        !contains("alipan.com"@, "pan.baidu.com"@),
{
    reveal_strlit("alipan.com");
    reveal_strlit("pan.baidu.com");
    assert(forall|i: int| 0 <= i < "alipan.com"@.len() ==> "alipan.com"@[i] != 'b');
    lemma_not_contains_char("alipan.com"@, "pan.baidu.com"@, 4);
}

proof fn lemma_domain_excludes_53()
    ensures
        !contains("alipan.com"@, "yun.baidu.com"@),
{
    reveal_strlit("alipan.com");
    reveal_strlit("yun.baidu.com");
    assert(forall|i: int| 0 <= i < "alipan.com"@.len() ==> "alipan.com"@[i] != 'y');
    lemma_not_contains_char("alipan.com"@, "yun.baidu.com"@, 0);
}

proof fn lemma_domain_excludes_54()
    ensures
        !contains("alipan.com"@, "cloud.189.cn"@),
{
    reveal_strlit("alipan.com");
    reveal_strlit("cloud.189.cn");
    assert(forall|i: int| 0 <= i < "alipan.com"@.len() ==> "alipan.com"@[i] != 'u');
    lemma_not_contains_char("alipan.com"@, "cloud.189.cn"@, 3);
}

proof fn lemma_domain_excludes_55()
    ensures
        !contains("alipan.com"@, "pan.189.cn"@),
{
    reveal_strlit("alipan.com");
    reveal_strlit("pan.189.cn");
    assert(forall|i: int| 0 <= i < "alipan.com"@.len() ==> "alipan.com"@[i] != '1');
    lemma_not_contains_char("alipan.com"@, "pan.189.cn"@, 4);
}

proof fn lemma_domain_excludes_56()
    ensures
        !contains("alipan.com"@, "123912.com"@),
{
    reveal_strlit("alipan.com");
    reveal_strlit("123912.com");
    assert(forall|i: int| 0 <= i < "alipan.com"@.len() ==> "alipan.com"@[i] != '1');
    lemma_not_contains_char("alipan.com"@, "123912.com"@, 0);
}

proof fn lemma_domain_excludes_57()
    ensures
        !contains("alipan.com"@, "123pan.com"@),
{
    reveal_strlit("alipan.com");
    reveal_strlit("123pan.com");
    assert(forall|i: int| 0 <= i < "alipan.com"@.len() ==> "alipan.com"@[i] != '1');
    lemma_not_contains_char("alipan.com"@, "123pan.com"@, 0);
}

proof fn lemma_domain_excludes_58()
    ensures
        !contains("alipan.com"@, "www.123pan.cn"@),
{
    reveal_strlit("alipan.com");
    reveal_strlit("www.123pan.cn");
    assert(forall|i: int| 0 <= i < "alipan.com"@.len() ==> "alipan.com"@[i] != 'w');
    lemma_not_contains_char("alipan.com"@, "www.123pan.cn"@, 0);
}

proof fn lemma_domain_excludes_59()
    ensures
        !contains("alipan.com"@, "115.com"@),
{
    reveal_strlit("alipan.com");
    reveal_strlit("115.com");
    assert(forall|i: int| 0 <= i < "alipan.com"@.len() ==> "alipan.com"@[i] != '1');
    lemma_not_contains_char("alipan.com"@, "115.com"@, 0);
}

proof fn lemma_domain_entry_11(rest: Seq<char>)
    ensures
        detect_platform_spec("https://"@ + "alipan.com"@ + seq!['/'] + rest) == Some(Platform::Aliyun),
{
    lemma_domain_host_11();
    lemma_contains_self("alipan.com"@);
    lemma_domain_excludes_49();
    lemma_domain_excludes_50();
    lemma_domain_excludes_51();
    lemma_domain_excludes_52();
    lemma_domain_excludes_53();
    lemma_domain_excludes_54();
    lemma_domain_excludes_55();
    lemma_domain_excludes_56();
    lemma_domain_excludes_57();
    lemma_domain_excludes_58();
    lemma_domain_excludes_59();
    lemma_platform_of_url("alipan.com"@, rest);
}

proof fn lemma_domain_excludes_60()
    ensures
        !contains("aliyundrive.com"@, "pan.quark.cn"@),
{
    reveal_strlit("aliyundrive.com");
    reveal_strlit("pan.quark.cn");
    assert(forall|i: int| 0 <= i < "aliyundrive.com"@.len() ==> "aliyundrive.com"@[i] != 'p');
    lemma_not_contains_char("aliyundrive.com"@, "pan.quark.cn"@, 0);
}

proof fn lemma_domain_excludes_61()
    ensures
        !contains("aliyundrive.com"@, "drive.uc.cn"@),
{
    reveal_strlit("aliyundrive.com");
    reveal_strlit("drive.uc.cn");
    assert(forall|i: int| 0 <= i && i + 1 < "aliyundrive.com"@.len() ==> !(#[trigger] "aliyundrive.com"@[i] == '.' && "aliyundrive.com"@[i + 1] == 'u'));
    lemma_not_contains_pair("aliyundrive.com"@, "drive.uc.cn"@, 5);
}

proof fn lemma_domain_excludes_62()
    ensures
        !contains("aliyundrive.com"@, "pan.uc.cn"@),
{
    reveal_strlit("aliyundrive.com");
    reveal_strlit("pan.uc.cn");
    assert(forall|i: int| 0 <= i < "aliyundrive.com"@.len() ==> "aliyundrive.com"@[i] != 'p');
    lemma_not_contains_char("aliyundrive.com"@, "pan.uc.cn"@, 0);
}

proof fn lemma_domain_excludes_63()
    ensures
        !contains("aliyundrive.com"@, "pan.baidu.com"@),
{
    reveal_strlit("aliyundrive.com");
    reveal_strlit("pan.baidu.com");
    assert(forall|i: int| 0 <= i < "aliyundrive.com"@.len() ==> "aliyundrive.com"@[i] != 'p');
    lemma_not_contains_char("aliyundrive.com"@, "pan.baidu.com"@, 0);
}

proof fn lemma_domain_excludes_64()
    ensures
        !contains("aliyundrive.com"@, "yun.baidu.com"@),
{
    reveal_strlit("aliyundrive.com");
    reveal_strlit("yun.baidu.com");
    assert(forall|i: int| 0 <= i < "aliyundrive.com"@.len() ==> "aliyundrive.com"@[i] != 'b');
    lemma_not_contains_char("aliyundrive.com"@, "yun.baidu.com"@, 4);
}

proof fn lemma_domain_excludes_65()
    ensures
        !contains("aliyundrive.com"@, "cloud.189.cn"@),
{
    reveal_strlit("aliyundrive.com");
    reveal_strlit("cloud.189.cn");
    assert(forall|i: int| 0 <= i < "aliyundrive.com"@.len() ==> "aliyundrive.com"@[i] != '1');
    lemma_not_contains_char("aliyundrive.com"@, "cloud.189.cn"@, 6);
}

proof fn lemma_domain_excludes_66()
    ensures
        !contains("aliyundrive.com"@, "pan.189.cn"@),
{
    reveal_strlit("aliyundrive.com");
    reveal_strlit("pan.189.cn");
    assert(forall|i: int| 0 <= i < "aliyundrive.com"@.len() ==> "aliyundrive.com"@[i] != 'p');
    lemma_not_contains_char("aliyundrive.com"@, "pan.189.cn"@, 0);
}

proof fn lemma_domain_excludes_67()
    ensures
        !contains("aliyundrive.com"@, "123912.com"@),
{
    reveal_strlit("aliyundrive.com");
    reveal_strlit("123912.com");
    assert(forall|i: int| 0 <= i < "aliyundrive.com"@.len() ==> "aliyundrive.com"@[i] != '1');
    lemma_not_contains_char("aliyundrive.com"@, "123912.com"@, 0);
}

proof fn lemma_domain_excludes_68()
    ensures
        !contains("aliyundrive.com"@, "123pan.com"@),
{
    reveal_strlit("aliyundrive.com");
    reveal_strlit("123pan.com");
    assert(forall|i: int| 0 <= i < "aliyundrive.com"@.len() ==> "aliyundrive.com"@[i] != '1');
    lemma_not_contains_char("aliyundrive.com"@, "123pan.com"@, 0);
}

proof fn lemma_domain_excludes_69()
    ensures
        !contains("aliyundrive.com"@, "www.123pan.cn"@),
{
    reveal_strlit("aliyundrive.com");
    reveal_strlit("www.123pan.cn");
    assert(forall|i: int| 0 <= i < "aliyundrive.com"@.len() ==> "aliyundrive.com"@[i] != 'w');
    lemma_not_contains_char("aliyundrive.com"@, "www.123pan.cn"@, 0);
}

proof fn lemma_domain_excludes_70()
    ensures
        !contains("aliyundrive.com"@, "115.com"@),
{
    reveal_strlit("aliyundrive.com");
    reveal_strlit("115.com");
    assert(forall|i: int| 0 <= i < "aliyundrive.com"@.len() ==> "aliyundrive.com"@[i] != '1');
    lemma_not_contains_char("aliyundrive.com"@, "115.com"@, 0);
}

proof fn lemma_domain_entry_12(rest: Seq<char>)
    ensures
        detect_platform_spec("https://"@ + "aliyundrive.com"@ + seq!['/'] + rest) == Some(Platform::Aliyun),
{
    lemma_domain_host_12();
    lemma_contains_self("aliyundrive.com"@);
    lemma_domain_excludes_60();
    lemma_domain_excludes_61();
    lemma_domain_excludes_62();
    lemma_domain_excludes_63();
    lemma_domain_excludes_64();
    lemma_domain_excludes_65();
    lemma_domain_excludes_66();
    lemma_domain_excludes_67();
    lemma_domain_excludes_68();
    lemma_domain_excludes_69();
    lemma_domain_excludes_70();
    lemma_platform_of_url("aliyundrive.com"@, rest);
}

proof fn lemma_domain_excludes_71()
    ensures
        !contains("aliyunpan.com"@, "pan.quark.cn"@),
{
    reveal_strlit("aliyunpan.com");
    reveal_strlit("pan.quark.cn");
    assert(forall|i: int| 0 <= i < "aliyunpan.com"@.len() ==> "aliyunpan.com"@[i] != 'q');
    lemma_not_contains_char("aliyunpan.com"@, "pan.quark.cn"@, 4);
}

proof fn lemma_domain_excludes_72()
    ensures
        !contains("aliyunpan.com"@, "drive.uc.cn"@),
{
    reveal_strlit("aliyunpan.com");
    reveal_strlit("drive.uc.cn");
    assert(forall|i: int| 0 <= i < "aliyunpan.com"@.len() ==> "aliyunpan.com"@[i] != 'd');
    lemma_not_contains_char("aliyunpan.com"@, "drive.uc.cn"@, 0);
}

proof fn lemma_domain_excludes_73()
    ensures
        !contains("aliyunpan.com"@, "pan.uc.cn"@),
{
    reveal_strlit("aliyunpan.com");
    reveal_strlit("pan.uc.cn");
    assert(forall|i: int| 0 <= i && i + 1 < "aliyunpan.com"@.len() ==> !(#[trigger] "aliyunpan.com"@[i] == '.' && "aliyunpan.com"@[i + 1] == 'u'));
    lemma_not_contains_pair("aliyunpan.com"@, "pan.uc.cn"@, 3);
}

proof fn lemma_domain_excludes_74()
    ensures
        !contains("aliyunpan.com"@, "pan.baidu.com"@),
{
    reveal_strlit("aliyunpan.com");
    reveal_strlit("pan.baidu.com");
    assert(forall|i: int| 0 <= i < "aliyunpan.com"@.len() ==> "aliyunpan.com"@[i] != 'b');
    lemma_not_contains_char("aliyunpan.com"@, "pan.baidu.com"@, 4);
}

proof fn lemma_domain_excludes_75()
    ensures
        !contains("aliyunpan.com"@, "yun.baidu.com"@),
{
    reveal_strlit("aliyunpan.com");
    reveal_strlit("yun.baidu.com");
    assert(forall|i: int| 0 <= i < "aliyunpan.com"@.len() ==> "aliyunpan.com"@[i] != 'b');
    lemma_not_contains_char("aliyunpan.com"@, "yun.baidu.com"@, 4);
}

proof fn lemma_domain_excludes_76()
    ensures
        !contains("aliyunpan.com"@, "cloud.189.cn"@),
{
    reveal_strlit("aliyunpan.com");
    reveal_strlit("cloud.189.cn");
    assert(forall|i: int| 0 <= i < "aliyunpan.com"@.len() ==> "aliyunpan.com"@[i] != 'd');
    lemma_not_contains_char("aliyunpan.com"@, "cloud.189.cn"@, 4);
}

proof fn lemma_domain_excludes_77()
    ensures
        !contains("aliyunpan.com"@, "pan.189.cn"@),
{
    reveal_strlit("aliyunpan.com");
    reveal_strlit("pan.189.cn");
    assert(forall|i: int| 0 <= i < "aliyunpan.com"@.len() ==> "aliyunpan.com"@[i] != '1');
    lemma_not_contains_char("aliyunpan.com"@, "pan.189.cn"@, 4);
}

proof fn lemma_domain_excludes_78()
    ensures
        !contains("aliyunpan.com"@, "123912.com"@),
{
    reveal_strlit("aliyunpan.com");
    reveal_strlit("123912.com");
    assert(forall|i: int| 0 <= i < "aliyunpan.com"@.len() ==> "aliyunpan.com"@[i] != '1');
    lemma_not_contains_char("aliyunpan.com"@, "123912.com"@, 0);
}

proof fn lemma_domain_excludes_79()
    ensures
        !contains("aliyunpan.com"@, "123pan.com"@),
{
    reveal_strlit("aliyunpan.com");
    reveal_strlit("123pan.com");
    assert(forall|i: int| 0 <= i < "aliyunpan.com"@.len() ==> "aliyunpan.com"@[i] != '1');
    lemma_not_contains_char("aliyunpan.com"@, "123pan.com"@, 0);
}

proof fn lemma_domain_excludes_80()
    ensures
        !contains("aliyunpan.com"@, "www.123pan.cn"@),
{
    reveal_strlit("aliyunpan.com");
    reveal_strlit("www.123pan.cn");
    assert(forall|i: int| 0 <= i < "aliyunpan.com"@.len() ==> "aliyunpan.com"@[i] != 'w');
    lemma_not_contains_char("aliyunpan.com"@, "www.123pan.cn"@, 0);
}

proof fn lemma_domain_excludes_81()
    ensures
        !contains("aliyunpan.com"@, "115.com"@),
{
    reveal_strlit("aliyunpan.com");
    reveal_strlit("115.com");
    assert(forall|i: int| 0 <= i < "aliyunpan.com"@.len() ==> "aliyunpan.com"@[i] != '1');
    lemma_not_contains_char("aliyunpan.com"@, "115.com"@, 0);
}

proof fn lemma_domain_entry_13(rest: Seq<char>)
    ensures
        detect_platform_spec("https://"@ + "aliyunpan.com"@ + seq!['/'] + rest) == Some(Platform::Aliyun),
{
    lemma_domain_host_13();
    lemma_contains_self("aliyunpan.com"@);
    lemma_domain_excludes_71();
    lemma_domain_excludes_72();
    lemma_domain_excludes_73();
    lemma_domain_excludes_74();
    lemma_domain_excludes_75();
    lemma_domain_excludes_76();
    lemma_domain_excludes_77();
    lemma_domain_excludes_78();
    lemma_domain_excludes_79();
    lemma_domain_excludes_80();
    lemma_domain_excludes_81();
    lemma_platform_of_url("aliyunpan.com"@, rest);
}

proof fn lemma_domain_excludes_82()
    ensures
        !contains("pan.xunlei.com"@, "pan.quark.cn"@),
{
    reveal_strlit("pan.xunlei.com");
    reveal_strlit("pan.quark.cn");
    assert(forall|i: int| 0 <= i < "pan.xunlei.com"@.len() ==> "pan.xunlei.com"@[i] != 'q');
    lemma_not_contains_char("pan.xunlei.com"@, "pan.quark.cn"@, 4);
}

proof fn lemma_domain_excludes_83()
    ensures
        !contains("pan.xunlei.com"@, "drive.uc.cn"@),
{
    reveal_strlit("pan.xunlei.com");
    reveal_strlit("drive.uc.cn");
    assert(forall|i: int| 0 <= i < "pan.xunlei.com"@.len() ==> "pan.xunlei.com"@[i] != 'd');
    lemma_not_contains_char("pan.xunlei.com"@, "drive.uc.cn"@, 0);
}

proof fn lemma_domain_excludes_84()
    ensures
        !contains("pan.xunlei.com"@, "pan.uc.cn"@),
{
    reveal_strlit("pan.xunlei.com");
    reveal_strlit("pan.uc.cn");
    assert(forall|i: int| 0 <= i && i + 1 < "pan.xunlei.com"@.len() ==> !(#[trigger] "pan.xunlei.com"@[i] == '.' && "pan.xunlei.com"@[i + 1] == 'u'));
    lemma_not_contains_pair("pan.xunlei.com"@, "pan.uc.cn"@, 3);
}

proof fn lemma_domain_excludes_85()
    ensures
        !contains("pan.xunlei.com"@, "pan.baidu.com"@),
{
    reveal_strlit("pan.xunlei.com");
    reveal_strlit("pan.baidu.com");
    assert(forall|i: int| 0 <= i < "pan.xunlei.com"@.len() ==> "pan.xunlei.com"@[i] != 'b');
    lemma_not_contains_char("pan.xunlei.com"@, "pan.baidu.com"@, 4);
}

proof fn lemma_domain_excludes_86()
    ensures
        !contains("pan.xunlei.com"@, "yun.baidu.com"@),
{
    reveal_strlit("pan.xunlei.com");
    reveal_strlit("yun.baidu.com");
    assert(forall|i: int| 0 <= i < "pan.xunlei.com"@.len() ==> "pan.xunlei.com"@[i] != 'y');
    lemma_not_contains_char("pan.xunlei.com"@, "yun.baidu.com"@, 0);
}

proof fn lemma_domain_excludes_87()
    ensures
        !contains("pan.xunlei.com"@, "cloud.189.cn"@),
{
    reveal_strlit("pan.xunlei.com");
    reveal_strlit("cloud.189.cn");
    assert(forall|i: int| 0 <= i < "pan.xunlei.com"@.len() ==> "pan.xunlei.com"@[i] != 'd');
    lemma_not_contains_char("pan.xunlei.com"@, "cloud.189.cn"@, 4);
}

proof fn lemma_domain_excludes_88()
    ensures
        !contains("pan.xunlei.com"@, "pan.189.cn"@),
{
    reveal_strlit("pan.xunlei.com");
    reveal_strlit("pan.189.cn");
    assert(forall|i: int| 0 <= i < "pan.xunlei.com"@.len() ==> "pan.xunlei.com"@[i] != '1');
    lemma_not_contains_char("pan.xunlei.com"@, "pan.189.cn"@, 4);
}

proof fn lemma_domain_excludes_89()
    ensures
        !contains("pan.xunlei.com"@, "123912.com"@),
{
    reveal_strlit("pan.xunlei.com");
    reveal_strlit("123912.com");
    assert(forall|i: int| 0 <= i < "pan.xunlei.com"@.len() ==> "pan.xunlei.com"@[i] != '1');
    lemma_not_contains_char("pan.xunlei.com"@, "123912.com"@, 0);
}

proof fn lemma_domain_excludes_90()
    ensures
        !contains("pan.xunlei.com"@, "123pan.com"@),
{
    reveal_strlit("pan.xunlei.com");
    reveal_strlit("123pan.com");
    assert(forall|i: int| 0 <= i < "pan.xunlei.com"@.len() ==> "pan.xunlei.com"@[i] != '1');
    lemma_not_contains_char("pan.xunlei.com"@, "123pan.com"@, 0);
}

proof fn lemma_domain_excludes_91()
    ensures
        !contains("pan.xunlei.com"@, "www.123pan.cn"@),
{
    reveal_strlit("pan.xunlei.com");
    reveal_strlit("www.123pan.cn");
    assert(forall|i: int| 0 <= i < "pan.xunlei.com"@.len() ==> "pan.xunlei.com"@[i] != 'w');
    lemma_not_contains_char("pan.xunlei.com"@, "www.123pan.cn"@, 0);
}

proof fn lemma_domain_excludes_92()
    ensures
        !contains("pan.xunlei.com"@, "115.com"@),
{
    reveal_strlit("pan.xunlei.com");
    reveal_strlit("115.com");
    assert(forall|i: int| 0 <= i < "pan.xunlei.com"@.len() ==> "pan.xunlei.com"@[i] != '1');
    lemma_not_contains_char("pan.xunlei.com"@, "115.com"@, 0);
}

proof fn lemma_domain_excludes_93()
    ensures
        !contains("pan.xunlei.com"@, "alipan.com"@),
{
    reveal_strlit("pan.xunlei.com");
    reveal_strlit("alipan.com");
    assert(forall|i: int| 0 <= i && i + 1 < "pan.xunlei.com"@.len() ==> !(#[trigger] "pan.xunlei.com"@[i] == 'a' && "pan.xunlei.com"@[i + 1] == 'l'));
    lemma_not_contains_pair("pan.xunlei.com"@, "alipan.com"@, 0);
}

proof fn lemma_domain_excludes_94()
    ensures
        !contains("pan.xunlei.com"@, "aliyundrive.com"@),
{
    reveal_strlit("pan.xunlei.com");
    reveal_strlit("aliyundrive.com");
    assert(forall|i: int| 0 <= i < "pan.xunlei.com"@.len() ==> "pan.xunlei.com"@[i] != 'y');
    lemma_not_contains_char("pan.xunlei.com"@, "aliyundrive.com"@, 3);
}

proof fn lemma_domain_excludes_95()
    ensures
        !contains("pan.xunlei.com"@, "aliyunpan.com"@),
{
    reveal_strlit("pan.xunlei.com");
    reveal_strlit("aliyunpan.com");
    assert(forall|i: int| 0 <= i < "pan.xunlei.com"@.len() ==> "pan.xunlei.com"@[i] != 'y');
    lemma_not_contains_char("pan.xunlei.com"@, "aliyunpan.com"@, 3);
}

proof fn lemma_domain_entry_14(rest: Seq<char>)
    ensures
        detect_platform_spec("https://"@ + "pan.xunlei.com"@ + seq!['/'] + rest) == Some(Platform::Xunlei),
{
    lemma_domain_host_14();
    lemma_contains_self("pan.xunlei.com"@);
    lemma_domain_excludes_82();
    lemma_domain_excludes_83();
    lemma_domain_excludes_84();
    lemma_domain_excludes_85();
    lemma_domain_excludes_86();
    lemma_domain_excludes_87();
    lemma_domain_excludes_88();
    lemma_domain_excludes_89();
    lemma_domain_excludes_90();
    lemma_domain_excludes_91();
    lemma_domain_excludes_92();
    lemma_domain_excludes_93();
    lemma_domain_excludes_94();
    lemma_domain_excludes_95();
    lemma_platform_of_url("pan.xunlei.com"@, rest);
}

proof fn lemma_domain_excludes_96()
    ensures
        !contains("xunlei.com"@, "pan.quark.cn"@),
{
    reveal_strlit("xunlei.com");
    reveal_strlit("pan.quark.cn");
    assert(forall|i: int| 0 <= i < "xunlei.com"@.len() ==> "xunlei.com"@[i] != 'p');
    lemma_not_contains_char("xunlei.com"@, "pan.quark.cn"@, 0);
}

proof fn lemma_domain_excludes_97()
    ensures
        !contains("xunlei.com"@, "drive.uc.cn"@),
{
    reveal_strlit("xunlei.com");
    reveal_strlit("drive.uc.cn");
    assert(forall|i: int| 0 <= i < "xunlei.com"@.len() ==> "xunlei.com"@[i] != 'd');
    lemma_not_contains_char("xunlei.com"@, "drive.uc.cn"@, 0);
}

proof fn lemma_domain_excludes_98()
    ensures
        !contains("xunlei.com"@, "pan.uc.cn"@),
{
    reveal_strlit("xunlei.com");
    reveal_strlit("pan.uc.cn");
    assert(forall|i: int| 0 <= i < "xunlei.com"@.len() ==> "xunlei.com"@[i] != 'p');
    lemma_not_contains_char("xunlei.com"@, "pan.uc.cn"@, 0);
}

proof fn lemma_domain_excludes_99()
    ensures
        !contains("xunlei.com"@, "pan.baidu.com"@),
{
    reveal_strlit("xunlei.com");
    reveal_strlit("pan.baidu.com");
    assert(forall|i: int| 0 <= i < "xunlei.com"@.len() ==> "xunlei.com"@[i] != 'p');
    lemma_not_contains_char("xunlei.com"@, "pan.baidu.com"@, 0);
}

proof fn lemma_domain_excludes_100()
    ensures
        !contains("xunlei.com"@, "yun.baidu.com"@),
{
    reveal_strlit("xunlei.com");
    reveal_strlit("yun.baidu.com");
    assert(forall|i: int| 0 <= i < "xunlei.com"@.len() ==> "xunlei.com"@[i] != 'y');
    lemma_not_contains_char("xunlei.com"@, "yun.baidu.com"@, 0);
}

proof fn lemma_domain_excludes_101()
    ensures
        !contains("xunlei.com"@, "cloud.189.cn"@),
{
    reveal_strlit("xunlei.com");
    reveal_strlit("cloud.189.cn");
    assert(forall|i: int| 0 <= i < "xunlei.com"@.len() ==> "xunlei.com"@[i] != 'd');
    lemma_not_contains_char("xunlei.com"@, "cloud.189.cn"@, 4);
}

proof fn lemma_domain_excludes_102()
    ensures
        !contains("xunlei.com"@, "pan.189.cn"@),
{
    reveal_strlit("xunlei.com");
    reveal_strlit("pan.189.cn");
    assert(forall|i: int| 0 <= i < "xunlei.com"@.len() ==> "xunlei.com"@[i] != 'p');
    lemma_not_contains_char("xunlei.com"@, "pan.189.cn"@, 0);
}

proof fn lemma_domain_excludes_103()
    ensures
        !contains("xunlei.com"@, "123912.com"@),
{
    reveal_strlit("xunlei.com");
    reveal_strlit("123912.com");
    assert(forall|i: int| 0 <= i < "xunlei.com"@.len() ==> "xunlei.com"@[i] != '1');
    lemma_not_contains_char("xunlei.com"@, "123912.com"@, 0);
}

proof fn lemma_domain_excludes_104()
    ensures
        !contains("xunlei.com"@, "123pan.com"@),
{
    reveal_strlit("xunlei.com");
    reveal_strlit("123pan.com");
    assert(forall|i: int| 0 <= i < "xunlei.com"@.len() ==> "xunlei.com"@[i] != '1');
    lemma_not_contains_char("xunlei.com"@, "123pan.com"@, 0);
}

proof fn lemma_domain_excludes_105()
    ensures
        !contains("xunlei.com"@, "www.123pan.cn"@),
{
    reveal_strlit("xunlei.com");
    reveal_strlit("www.123pan.cn");
    assert(forall|i: int| 0 <= i < "xunlei.com"@.len() ==> "xunlei.com"@[i] != 'w');
    lemma_not_contains_char("xunlei.com"@, "www.123pan.cn"@, 0);
}

proof fn lemma_domain_excludes_106()
    ensures
        !contains("xunlei.com"@, "115.com"@),
{
    reveal_strlit("xunlei.com");
    reveal_strlit("115.com");
    assert(forall|i: int| 0 <= i < "xunlei.com"@.len() ==> "xunlei.com"@[i] != '1');
    lemma_not_contains_char("xunlei.com"@, "115.com"@, 0);
}

proof fn lemma_domain_excludes_107()
    ensures
        !contains("xunlei.com"@, "alipan.com"@),
{
    reveal_strlit("xunlei.com");
    reveal_strlit("alipan.com");
    assert(forall|i: int| 0 <= i < "xunlei.com"@.len() ==> "xunlei.com"@[i] != 'a');
    lemma_not_contains_char("xunlei.com"@, "alipan.com"@, 0);
}

proof fn lemma_domain_excludes_108()
    ensures
        !contains("xunlei.com"@, "aliyundrive.com"@),
{
    reveal_strlit("xunlei.com");
    reveal_strlit("aliyundrive.com");
    assert(forall|i: int| 0 <= i < "xunlei.com"@.len() ==> "xunlei.com"@[i] != 'a');
    lemma_not_contains_char("xunlei.com"@, "aliyundrive.com"@, 0);
}

proof fn lemma_domain_excludes_109()
    ensures
        !contains("xunlei.com"@, "aliyunpan.com"@),
{
    reveal_strlit("xunlei.com");
    reveal_strlit("aliyunpan.com");
    assert(forall|i: int| 0 <= i < "xunlei.com"@.len() ==> "xunlei.com"@[i] != 'a');
    lemma_not_contains_char("xunlei.com"@, "aliyunpan.com"@, 0);
}

proof fn lemma_domain_entry_15(rest: Seq<char>)
    ensures
        detect_platform_spec("https://"@ + "xunlei.com"@ + seq!['/'] + rest) == Some(Platform::Xunlei),
{
    lemma_domain_host_15();
    lemma_contains_self("xunlei.com"@);
    lemma_domain_excludes_96();
    lemma_domain_excludes_97();
    lemma_domain_excludes_98();
    lemma_domain_excludes_99();
    lemma_domain_excludes_100();
    lemma_domain_excludes_101();
    lemma_domain_excludes_102();
    lemma_domain_excludes_103();
    lemma_domain_excludes_104();
    lemma_domain_excludes_105();
    lemma_domain_excludes_106();
    lemma_domain_excludes_107();
    lemma_domain_excludes_108();
    lemma_domain_excludes_109();
    lemma_platform_of_url("xunlei.com"@, rest);
}

proof fn lemma_domain_excludes_110()
    ensures
        !contains("caiyun.139.com"@, "pan.quark.cn"@),
{
    reveal_strlit("caiyun.139.com");
    reveal_strlit("pan.quark.cn");
    assert(forall|i: int| 0 <= i < "caiyun.139.com"@.len() ==> "caiyun.139.com"@[i] != 'p');
    lemma_not_contains_char("caiyun.139.com"@, "pan.quark.cn"@, 0);
}

proof fn lemma_domain_excludes_111()
    ensures
        !contains("caiyun.139.com"@, "drive.uc.cn"@),
{
    reveal_strlit("caiyun.139.com");
    reveal_strlit("drive.uc.cn");
    assert(forall|i: int| 0 <= i < "caiyun.139.com"@.len() ==> "caiyun.139.com"@[i] != 'd');
    lemma_not_contains_char("caiyun.139.com"@, "drive.uc.cn"@, 0);
}

proof fn lemma_domain_excludes_112()
    ensures
        !contains("caiyun.139.com"@, "pan.uc.cn"@),
{
    reveal_strlit("caiyun.139.com");
    reveal_strlit("pan.uc.cn");
    assert(forall|i: int| 0 <= i < "caiyun.139.com"@.len() ==> "caiyun.139.com"@[i] != 'p');
    lemma_not_contains_char("caiyun.139.com"@, "pan.uc.cn"@, 0);
}

proof fn lemma_domain_excludes_113()
    ensures
        !contains("caiyun.139.com"@, "pan.baidu.com"@),
{
    reveal_strlit("caiyun.139.com");
    reveal_strlit("pan.baidu.com");
    assert(forall|i: int| 0 <= i < "caiyun.139.com"@.len() ==> "caiyun.139.com"@[i] != 'p');
    lemma_not_contains_char("caiyun.139.com"@, "pan.baidu.com"@, 0);
}

proof fn lemma_domain_excludes_114()
    ensures
        !contains("caiyun.139.com"@, "yun.baidu.com"@),
{
    reveal_strlit("caiyun.139.com");
    reveal_strlit("yun.baidu.com");
    assert(forall|i: int| 0 <= i < "caiyun.139.com"@.len() ==> "caiyun.139.com"@[i] != 'b');
    lemma_not_contains_char("caiyun.139.com"@, "yun.baidu.com"@, 4);
}

proof fn lemma_domain_excludes_115()
    ensures
        !contains("caiyun.139.com"@, "cloud.189.cn"@),
{
    reveal_strlit("caiyun.139.com");
    reveal_strlit("cloud.189.cn");
    assert(forall|i: int| 0 <= i < "caiyun.139.com"@.len() ==> "caiyun.139.com"@[i] != 'l');
    lemma_not_contains_char("caiyun.139.com"@, "cloud.189.cn"@, 1);
}

proof fn lemma_domain_excludes_116()
    ensures
        !contains("caiyun.139.com"@, "pan.189.cn"@),
{
    reveal_strlit("caiyun.139.com");
    reveal_strlit("pan.189.cn");
    assert(forall|i: int| 0 <= i < "caiyun.139.com"@.len() ==> "caiyun.139.com"@[i] != 'p');
    lemma_not_contains_char("caiyun.139.com"@, "pan.189.cn"@, 0);
}

proof fn lemma_domain_excludes_117()
    ensures
        !contains("caiyun.139.com"@, "123912.com"@),
{
    reveal_strlit("caiyun.139.com");
    reveal_strlit("123912.com");
    assert(forall|i: int| 0 <= i < "caiyun.139.com"@.len() ==> "caiyun.139.com"@[i] != '2');
    lemma_not_contains_char("caiyun.139.com"@, "123912.com"@, 1);
}

proof fn lemma_domain_excludes_118()
    ensures
        !contains("caiyun.139.com"@, "123pan.com"@),
{
    reveal_strlit("caiyun.139.com");
    reveal_strlit("123pan.com");
    assert(forall|i: int| 0 <= i < "caiyun.139.com"@.len() ==> "caiyun.139.com"@[i] != '2');
    lemma_not_contains_char("caiyun.139.com"@, "123pan.com"@, 1);
}

proof fn lemma_domain_excludes_119()
    ensures
        !contains("caiyun.139.com"@, "www.123pan.cn"@),
{
    reveal_strlit("caiyun.139.com");
    reveal_strlit("www.123pan.cn");
    assert(forall|i: int| 0 <= i < "caiyun.139.com"@.len() ==> "caiyun.139.com"@[i] != 'w');
    lemma_not_contains_char("caiyun.139.com"@, "www.123pan.cn"@, 0);
}

proof fn lemma_domain_excludes_120()
    ensures
        !contains("caiyun.139.com"@, "115.com"@),
{
    reveal_strlit("caiyun.139.com");
    reveal_strlit("115.com");
    assert(forall|i: int| 0 <= i < "caiyun.139.com"@.len() ==> "caiyun.139.com"@[i] != '5');
    lemma_not_contains_char("caiyun.139.com"@, "115.com"@, 2);
}

proof fn lemma_domain_excludes_121()
    ensures
        !contains("caiyun.139.com"@, "alipan.com"@),
{
    reveal_strlit("caiyun.139.com");
    reveal_strlit("alipan.com");
    assert(forall|i: int| 0 <= i < "caiyun.139.com"@.len() ==> "caiyun.139.com"@[i] != 'l');
    lemma_not_contains_char("caiyun.139.com"@, "alipan.com"@, 1);
}

proof fn lemma_domain_excludes_122()
    ensures
        !contains("caiyun.139.com"@, "aliyundrive.com"@),
{
    reveal_strlit("caiyun.139.com");
    reveal_strlit("aliyundrive.com");
    assert(forall|i: int| 0 <= i < "caiyun.139.com"@.len() ==> "caiyun.139.com"@[i] != 'l');
    lemma_not_contains_char("caiyun.139.com"@, "aliyundrive.com"@, 1);
}

proof fn lemma_domain_excludes_123()
    ensures
        !contains("caiyun.139.com"@, "aliyunpan.com"@),
{
    reveal_strlit("caiyun.139.com");
    reveal_strlit("aliyunpan.com");
    assert(forall|i: int| 0 <= i < "caiyun.139.com"@.len() ==> "caiyun.139.com"@[i] != 'l');
    lemma_not_contains_char("caiyun.139.com"@, "aliyunpan.com"@, 1);
}

proof fn lemma_domain_excludes_124()
    ensures
        !contains("caiyun.139.com"@, "pan.xunlei.com"@),
{
    reveal_strlit("caiyun.139.com");
    reveal_strlit("pan.xunlei.com");
    assert(forall|i: int| 0 <= i < "caiyun.139.com"@.len() ==> "caiyun.139.com"@[i] != 'p');
    lemma_not_contains_char("caiyun.139.com"@, "pan.xunlei.com"@, 0);
}

proof fn lemma_domain_excludes_125()
    ensures
        !contains("caiyun.139.com"@, "xunlei.com"@),
{
    reveal_strlit("caiyun.139.com");
    reveal_strlit("xunlei.com");
    assert(forall|i: int| 0 <= i < "caiyun.139.com"@.len() ==> "caiyun.139.com"@[i] != 'x');
    lemma_not_contains_char("caiyun.139.com"@, "xunlei.com"@, 0);
}

proof fn lemma_domain_entry_16(rest: Seq<char>)
    ensures
        detect_platform_spec("https://"@ + "caiyun.139.com"@ + seq!['/'] + rest) == Some(Platform::Mobile),
{
    lemma_domain_host_16();
    lemma_contains_self("caiyun.139.com"@);
    lemma_domain_excludes_110();
    lemma_domain_excludes_111();
    lemma_domain_excludes_112();
    lemma_domain_excludes_113();
    lemma_domain_excludes_114();
    lemma_domain_excludes_115();
    lemma_domain_excludes_116();
    lemma_domain_excludes_117();
    lemma_domain_excludes_118();
    lemma_domain_excludes_119();
    lemma_domain_excludes_120();
    lemma_domain_excludes_121();
    lemma_domain_excludes_122();
    lemma_domain_excludes_123();
    lemma_domain_excludes_124();
    lemma_domain_excludes_125();
    lemma_platform_of_url("caiyun.139.com"@, rest);
}

proof fn lemma_domain_excludes_126()
    ensures
        !contains("yun.139.com"@, "pan.quark.cn"@),
{
    reveal_strlit("yun.139.com");
    reveal_strlit("pan.quark.cn");
    assert(forall|i: int| 0 <= i < "yun.139.com"@.len() ==> "yun.139.com"@[i] != 'p');
    lemma_not_contains_char("yun.139.com"@, "pan.quark.cn"@, 0);
}

proof fn lemma_domain_excludes_127()
    ensures
        !contains("yun.139.com"@, "drive.uc.cn"@),
{
    reveal_strlit("yun.139.com");
    reveal_strlit("drive.uc.cn");
    assert(forall|i: int| 0 <= i < "yun.139.com"@.len() ==> "yun.139.com"@[i] != 'd');
    lemma_not_contains_char("yun.139.com"@, "drive.uc.cn"@, 0);
}

proof fn lemma_domain_excludes_128()
    ensures
        !contains("yun.139.com"@, "pan.uc.cn"@),
{
    reveal_strlit("yun.139.com");
    reveal_strlit("pan.uc.cn");
    assert(forall|i: int| 0 <= i < "yun.139.com"@.len() ==> "yun.139.com"@[i] != 'p');
    lemma_not_contains_char("yun.139.com"@, "pan.uc.cn"@, 0);
}

proof fn lemma_domain_excludes_129()
    ensures
        !contains("yun.139.com"@, "pan.baidu.com"@),
{
    reveal_strlit("yun.139.com");
    reveal_strlit("pan.baidu.com");
    assert(forall|i: int| 0 <= i < "yun.139.com"@.len() ==> "yun.139.com"@[i] != 'p');
    lemma_not_contains_char("yun.139.com"@, "pan.baidu.com"@, 0);
}

proof fn lemma_domain_excludes_130()
    ensures
        !contains("yun.139.com"@, "yun.baidu.com"@),
{
    reveal_strlit("yun.139.com");
    reveal_strlit("yun.baidu.com");
    assert(forall|i: int| 0 <= i < "yun.139.com"@.len() ==> "yun.139.com"@[i] != 'b');
    lemma_not_contains_char("yun.139.com"@, "yun.baidu.com"@, 4);
}

proof fn lemma_domain_excludes_131()
    ensures
        !contains("yun.139.com"@, "cloud.189.cn"@),
{
    reveal_strlit("yun.139.com");
    reveal_strlit("cloud.189.cn");
    assert(forall|i: int| 0 <= i < "yun.139.com"@.len() ==> "yun.139.com"@[i] != 'l');
    lemma_not_contains_char("yun.139.com"@, "cloud.189.cn"@, 1);
}

proof fn lemma_domain_excludes_132()
    ensures
        !contains("yun.139.com"@, "pan.189.cn"@),
{
    reveal_strlit("yun.139.com");
    reveal_strlit("pan.189.cn");
    assert(forall|i: int| 0 <= i < "yun.139.com"@.len() ==> "yun.139.com"@[i] != 'p');
    lemma_not_contains_char("yun.139.com"@, "pan.189.cn"@, 0);
}

proof fn lemma_domain_excludes_133()
    ensures
        !contains("yun.139.com"@, "123912.com"@),
{
    reveal_strlit("yun.139.com");
    reveal_strlit("123912.com");
    assert(forall|i: int| 0 <= i < "yun.139.com"@.len() ==> "yun.139.com"@[i] != '2');
    lemma_not_contains_char("yun.139.com"@, "123912.com"@, 1);
}

proof fn lemma_domain_excludes_134()
    ensures
        !contains("yun.139.com"@, "123pan.com"@),
{
    reveal_strlit("yun.139.com");
    reveal_strlit("123pan.com");
    assert(forall|i: int| 0 <= i < "yun.139.com"@.len() ==> "yun.139.com"@[i] != '2');
    lemma_not_contains_char("yun.139.com"@, "123pan.com"@, 1);
}

proof fn lemma_domain_excludes_135()
    ensures
        !contains("yun.139.com"@, "www.123pan.cn"@),
{
    reveal_strlit("yun.139.com");
    reveal_strlit("www.123pan.cn");
    assert(forall|i: int| 0 <= i < "yun.139.com"@.len() ==> "yun.139.com"@[i] != 'w');
    lemma_not_contains_char("yun.139.com"@, "www.123pan.cn"@, 0);
}

proof fn lemma_domain_excludes_136()
    ensures
        !contains("yun.139.com"@, "115.com"@),
{
    reveal_strlit("yun.139.com");
    reveal_strlit("115.com");
    assert(forall|i: int| 0 <= i < "yun.139.com"@.len() ==> "yun.139.com"@[i] != '5');
    lemma_not_contains_char("yun.139.com"@, "115.com"@, 2);
}

proof fn lemma_domain_excludes_137()
    ensures
        !contains("yun.139.com"@, "alipan.com"@),
{
    reveal_strlit("yun.139.com");
    reveal_strlit("alipan.com");
    assert(forall|i: int| 0 <= i < "yun.139.com"@.len() ==> "yun.139.com"@[i] != 'a');
    lemma_not_contains_char("yun.139.com"@, "alipan.com"@, 0);
}

proof fn lemma_domain_excludes_138()
    ensures
        !contains("yun.139.com"@, "aliyundrive.com"@),
{
    reveal_strlit("yun.139.com");
    reveal_strlit("aliyundrive.com");
    assert(forall|i: int| 0 <= i < "yun.139.com"@.len() ==> "yun.139.com"@[i] != 'a');
    lemma_not_contains_char("yun.139.com"@, "aliyundrive.com"@, 0);
}

proof fn lemma_domain_excludes_139()
    ensures
        !contains("yun.139.com"@, "aliyunpan.com"@),
{
    reveal_strlit("yun.139.com");
    reveal_strlit("aliyunpan.com");
    assert(forall|i: int| 0 <= i < "yun.139.com"@.len() ==> "yun.139.com"@[i] != 'a');
    lemma_not_contains_char("yun.139.com"@, "aliyunpan.com"@, 0);
}

proof fn lemma_domain_excludes_140()
    ensures
        !contains("yun.139.com"@, "pan.xunlei.com"@),
{
    reveal_strlit("yun.139.com");
    reveal_strlit("pan.xunlei.com");
    assert(forall|i: int| 0 <= i < "yun.139.com"@.len() ==> "yun.139.com"@[i] != 'p');
    lemma_not_contains_char("yun.139.com"@, "pan.xunlei.com"@, 0);
}

proof fn lemma_domain_excludes_141()
    ensures
        !contains("yun.139.com"@, "xunlei.com"@),
{
    reveal_strlit("yun.139.com");
    reveal_strlit("xunlei.com");
    assert(forall|i: int| 0 <= i < "yun.139.com"@.len() ==> "yun.139.com"@[i] != 'x');
    lemma_not_contains_char("yun.139.com"@, "xunlei.com"@, 0);
}

proof fn lemma_domain_entry_17(rest: Seq<char>)
    ensures
        detect_platform_spec("https://"@ + "yun.139.com"@ + seq!['/'] + rest) == Some(Platform::Mobile),
{
    lemma_domain_host_17();
    lemma_contains_self("yun.139.com"@);
    lemma_domain_excludes_126();
    lemma_domain_excludes_127();
    lemma_domain_excludes_128();
    lemma_domain_excludes_129();
    lemma_domain_excludes_130();
    lemma_domain_excludes_131();
    lemma_domain_excludes_132();
    lemma_domain_excludes_133();
    lemma_domain_excludes_134();
    lemma_domain_excludes_135();
    lemma_domain_excludes_136();
    lemma_domain_excludes_137();
    lemma_domain_excludes_138();
    lemma_domain_excludes_139();
    lemma_domain_excludes_140();
    lemma_domain_excludes_141();
    lemma_platform_of_url("yun.139.com"@, rest);
}

/// Every listed domain is recognised as its platform: for any path and
/// query, `https://{domain}/...` belongs to the domain's platform.
pub proof fn lemma_domain_table(k: int, rest: Seq<char>)
    requires
        0 <= k < domain_table().len(),
    ensures
        detect_platform_spec("https://"@ + domain_table()[k].0 + seq!['/'] + rest) == Some(domain_table()[k].1),
{
    if k == 0 {
        lemma_domain_entry_0(rest);
    } else if k == 1 {
        lemma_domain_entry_1(rest);
    } else if k == 2 {
        lemma_domain_entry_2(rest);
    } else if k == 3 {
        lemma_domain_entry_3(rest);
    } else if k == 4 {
        lemma_domain_entry_4(rest);
    } else if k == 5 {
        lemma_domain_entry_5(rest);
    } else if k == 6 {
        lemma_domain_entry_6(rest);
    } else if k == 7 {
        lemma_domain_entry_7(rest);
    } else if k == 8 {
        lemma_domain_entry_8(rest);
    } else if k == 9 {
        lemma_domain_entry_9(rest);
    } else if k == 10 {
        lemma_domain_entry_10(rest);
    } else if k == 11 {
        lemma_domain_entry_11(rest);
    } else if k == 12 {
        lemma_domain_entry_12(rest);
    } else if k == 13 {
        lemma_domain_entry_13(rest);
    } else if k == 14 {
        lemma_domain_entry_14(rest);
    } else if k == 15 {
        lemma_domain_entry_15(rest);
    } else if k == 16 {
        lemma_domain_entry_16(rest);
    } else {
        lemma_domain_entry_17(rest);
    }
}

} // verus!
