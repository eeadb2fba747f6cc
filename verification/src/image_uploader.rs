//! Image upload queue rules: retry limits and back-off, and the file
//! extension of a downloaded image from its content type or URL.
use vstd::prelude::*;
use crate::crypto::{sha256_hex, sha256_hex_of};
use crate::extractor::{str_to_lowercase, unicode_lowercase};
use crate::text::{
    byte_len, chars_of, find_char, first_char, is_ascii_alnum, last_char, rfind_char, seq_eq,
    slice_range, str_byte_len, string_from_chars, trim, trim_chars,
};

verus! {

/// Images fetched per round.
pub const BATCH_LIMIT: i64 = 20;

/// Failed uploads are retried until this many attempts.
pub const MAX_RETRIES: i64 = 3;

/// Seconds to wait after the n-th failure (the last entry repeats).
pub const BACKOFF_SECS: [u64; 3] = [10, 30, 120];

/// The wait after `retry_count` failures: the table entry at the count,
/// clamped to the table.
pub open spec fn backoff_wait(retry_count: i64) -> u64 {
    if retry_count <= 0 {
        10
    } else if retry_count == 1 {
        30
    } else {
        120
    }
}

pub fn backoff_wait_secs(retry_count: i64) -> (r: u64)
    ensures
        r == backoff_wait(retry_count),
{
    let idx: usize = if retry_count <= 0 {
        0
    } else if retry_count >= 2 {
        2
    } else {
        1
    };
    BACKOFF_SECS[idx]
}

/// An image is skipped this round while fewer seconds than its back-off have
/// passed since its last attempt.
pub fn in_backoff(elapsed_secs: i64, retry_count: i64) -> (r: bool)
    ensures
        r == (elapsed_secs < backoff_wait(retry_count) as int),
{
    let wait = backoff_wait_secs(retry_count);
    elapsed_secs < wait as i64
}

/// The primary type of a content type: the part before `;`, trimmed.
pub open spec fn primary_type(ctype: Seq<char>) -> Seq<char> {
    match first_char(ctype, ';') {
        Some(i) => trim(ctype.take(i)),
        None => trim(ctype),
    }
}

/// The file extension of an image content type.
pub open spec fn mime_ext(ctype: Seq<char>) -> Option<Seq<char>> {
    let p = primary_type(ctype);
    if p == "image/jpeg"@ || p == "image/jpg"@ {
        Some("jpg"@)
    } else if p == "image/png"@ {
        Some("png"@)
    } else if p == "image/gif"@ {
        Some("gif"@)
    } else if p == "image/webp"@ {
        Some("webp"@)
    } else if p == "image/bmp"@ {
        Some("bmp"@)
    } else if p == "image/svg+xml"@ {
        Some("svg"@)
    } else {
        None
    }
}

fn is_lit(v: &[char], lit: &str) -> (r: bool)
    ensures
        r == (v@ == lit@),
{
    let l = chars_of(lit);
    seq_eq(v, l.as_slice())
}

/// Extension for a `Content-Type` value, parameters ignored.
pub fn mime_to_ext(ctype: &str) -> (r: Option<String>)
    ensures
        match mime_ext(ctype@) {
            Some(e) => r matches Some(s) && s@ == e,
            None => r is None,
        },
{
    let v = chars_of(ctype);
    let head = match find_char(v.as_slice(), ';') {
        Some(i) => slice_range(v.as_slice(), 0, i),
        None => slice_range(v.as_slice(), 0, v.len()),
    };
    assert(head@ =~= (match first_char(ctype@, ';') {
        Some(i) => ctype@.take(i),
        None => ctype@,
    }));
    let p = trim_chars(head.as_slice());
    if is_lit(p.as_slice(), "image/jpeg") || is_lit(p.as_slice(), "image/jpg") {
        Some(String::from_str("jpg"))
    } else if is_lit(p.as_slice(), "image/png") {
        Some(String::from_str("png"))
    } else if is_lit(p.as_slice(), "image/gif") {
        Some(String::from_str("gif"))
    } else if is_lit(p.as_slice(), "image/webp") {
        Some(String::from_str("webp"))
    } else if is_lit(p.as_slice(), "image/bmp") {
        Some(String::from_str("bmp"))
    } else if is_lit(p.as_slice(), "image/svg+xml") {
        Some(String::from_str("svg"))
    } else {
        None
    }
}

/// The last path segment of a URL: after the last `/` of the part before
/// the first `?`.
pub open spec fn last_path_segment(url: Seq<char>) -> Seq<char> {
    let path = match first_char(url, '?') {
        Some(i) => url.take(i),
        None => url,
    };
    match last_char(path, '/') {
        Some(j) => path.skip(j + 1),
        None => path,
    }
}

/// The lower-cased text after the last `.` of the last path segment, when
/// it is 1 to 5 bytes of ASCII letters and digits.
pub open spec fn url_ext(url: Seq<char>) -> Option<Seq<char>> {
    let last = last_path_segment(url);
    match last_char(last, '.') {
        None => None,
        Some(d) => {
            let e = unicode_lowercase(last.skip(d + 1));
            if (forall|i: int| 0 <= i < e.len() ==> is_ascii_alnum(#[trigger] e[i])) && 1 <= byte_len(e)
                <= 5 {
                Some(e)
            } else {
                None
            }
        },
    }
}

/// Extension taken from an image URL.
pub fn ext_from_url(url: &str) -> (r: Option<String>)
    ensures
        match url_ext(url@) {
            Some(e) => r matches Some(s) && s@ == e,
            None => r is None,
        },
{
    let v = chars_of(url);
    let path = match find_char(v.as_slice(), '?') {
        Some(i) => slice_range(v.as_slice(), 0, i),
        None => slice_range(v.as_slice(), 0, v.len()),
    };
    assert(path@ =~= (match first_char(url@, '?') {
        Some(i) => url@.take(i),
        None => url@,
    }));
    let last = match rfind_char(path.as_slice(), '/') {
        Some(j) => slice_range(path.as_slice(), j + 1, path.len()),
        None => slice_range(path.as_slice(), 0, path.len()),
    };
    assert(last@ =~= last_path_segment(url@));
    let d = match rfind_char(last.as_slice(), '.') {
        Some(d) => d,
        None => return None,
    };
    let raw = slice_range(last.as_slice(), d + 1, last.len());
    assert(raw@ =~= last@.skip(d + 1));
    let raw_s = string_from_chars(raw.as_slice());
    let ext = str_to_lowercase(raw_s.as_str());
    let ev = chars_of(ext.as_str());
    assert(ev@ == unicode_lowercase(last_path_segment(url@).skip(d + 1)));
    let mut i: usize = 0;
    while i < ev.len()
        invariant
            i <= ev.len(),
            last_char(last_path_segment(url@), '.') == Some(d as int),
            ev@ == unicode_lowercase(last_path_segment(url@).skip(d + 1)),
            forall|k: int| 0 <= k < i ==> is_ascii_alnum(#[trigger] ev@[k]),
        decreases ev.len() - i,
    {
        let c = ev[i];
        if !(('a' <= c && c <= 'z') || ('A' <= c && c <= 'Z') || ('0' <= c && c <= '9')) {
            assert(!is_ascii_alnum(ev@[i as int]));
            assert(url_ext(url@) is None) by {
                let l = last_path_segment(url@);
                assert(last_char(l, '.') == Some(d as int));
                let e = unicode_lowercase(l.skip(d + 1));
                assert(e == ev@);
                assert(!is_ascii_alnum(e[i as int]));
            }
            return None;
        }
        i = i + 1;
    }
    let n = str_byte_len(ext.as_str());
    if 1 <= n && n <= 5 {
        Some(ext)
    } else {
        None
    }
}

/// Name of the cached copy of a downloaded image: the SHA-256 of its bytes
/// in hex, a dot, its extension.
pub fn cache_file_name(bytes: &[u8], ext: &str) -> (r: String)
    ensures
        r@ == sha256_hex_of(bytes@) + "."@ + ext@,
{
    let h = sha256_hex(bytes);
    let mut v = chars_of(h.as_str());
    crate::text::push_str(&mut v, ".");
    crate::text::push_str(&mut v, ext);
    string_from_chars(v.as_slice())
}

} // verus!
