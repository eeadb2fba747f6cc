//! The regular-expression engine of the `regex` crate, as the library uses it.
//!
//! Matching semantics (leftmost-first, Unicode classes, size limits) are the
//! crate's; they are named here rather than restated.
use vstd::prelude::*;
use vstd::utf8::encode_utf8;
use crate::text::matches_at;

verus! {

#[verifier::external_type_specification]
#[verifier::external_body]
pub struct ExRegex(regex::Regex);

#[verifier::external_type_specification]
#[verifier::external_body]
pub struct ExRegexError(regex::Error);

/// Whether `regex::Regex::new` accepts `pattern` (valid syntax, within the
/// default size limit).
pub uninterp spec fn regex_compiles(pattern: Seq<char>) -> bool;

/// The first match `regex::Regex::find` reports: its byte offset and text.
pub uninterp spec fn regex_first_match(pattern: Seq<char>, haystack: Seq<char>) -> Option<(nat, Seq<char>)>;

/// Capture group `group` of the first match `regex::Regex::captures` reports.
pub uninterp spec fn regex_first_capture(pattern: Seq<char>, haystack: Seq<char>, group: nat) -> Option<Seq<char>>;

/// `regex::Regex::new`: succeeds exactly when the pattern compiles.
#[verifier::external_body]
pub(crate) fn regex_new(pattern: &str) -> (r: Result<regex::Regex, regex::Error>)
    ensures
        r is Ok <==> regex_compiles(pattern@),
{
    regex::Regex::new(pattern)
}

/// `regex::Regex::find` on `Regex::new(pattern)`: the first match, as its byte
/// offset and matched text. The text occurs in the haystack at that offset.
/// A pattern that does not compile gives `None`.
#[verifier::external_body]
pub(crate) fn regex_find(pattern: &str, haystack: &str) -> (r: Option<(usize, String)>)
    ensures
        !regex_compiles(pattern@) ==> r is None,
        regex_compiles(pattern@) ==> match r {
            Some((b, m)) => regex_first_match(pattern@, haystack@) == Some((b as nat, m@))
                && exists|i: int| matches_at(haystack@, m@, i) && encode_utf8(haystack@.take(i)).len() == b,
            None => regex_first_match(pattern@, haystack@) is None,
        },
{
    regex::Regex::new(pattern).ok()?.find(haystack).map(|m| (m.start(), m.as_str().to_string()))
}

/// `regex::Captures::get(group)` of `Regex::new(pattern).captures(haystack)`:
/// the text of that group in the first match, when both exist. The text
/// occurs in the haystack. A pattern that does not compile gives `None`.
#[verifier::external_body]
pub(crate) fn regex_capture(pattern: &str, haystack: &str, group: usize) -> (r: Option<String>)
    ensures
        !regex_compiles(pattern@) ==> r is None,
        regex_compiles(pattern@) ==> match r {
            Some(m) => regex_first_capture(pattern@, haystack@, group as nat) == Some(m@)
                && exists|i: int| matches_at(haystack@, m@, i),
            None => regex_first_capture(pattern@, haystack@, group as nat) is None,
        },
{
    regex::Regex::new(pattern).ok()?.captures(haystack)?.get(group).map(|m| m.as_str().to_string())
}

/// Every successive non-overlapping match `regex::Regex::captures_iter`
/// reports, each as the texts of all its groups (`None` for a group that
/// did not take part).
pub uninterp spec fn regex_all_captures(pattern: Seq<char>, haystack: Seq<char>) -> Seq<Seq<Option<Seq<char>>>>;

pub open spec fn group_views(c: Seq<Option<String>>) -> Seq<Option<Seq<char>>> {
    Seq::new(c.len(), |j: int| match c[j] {
        Some(s) => Some(s@),
        None => None,
    })
}

pub open spec fn captures_views(v: Seq<Vec<Option<String>>>) -> Seq<Seq<Option<Seq<char>>>> {
    Seq::new(v.len(), |i: int| group_views(v[i]@))
}

/// `Regex::new(pattern)?.captures_iter(haystack)`, each match as the texts
/// of its groups. Group 0, the whole match, is always present.
#[verifier::external_body]
pub(crate) fn regex_captures_all(pattern: &str, haystack: &str) -> (r: Vec<Vec<Option<String>>>)
    requires
        regex_compiles(pattern@),
    ensures
        captures_views(r@) == regex_all_captures(pattern@, haystack@),
        forall|i: int| 0 <= i < r@.len() ==> (#[trigger] r@[i])@.len() >= 1 && r@[i]@[0] is Some,
{
    let re = regex::Regex::new(pattern).unwrap();
    re.captures_iter(haystack).map(|c| c.iter().map(|m| m.map(|m| m.as_str().to_string())).collect()).collect()
}

/// The text of the error `regex::Regex::new` reports for a pattern that
/// does not compile.
pub uninterp spec fn regex_error_message(pattern: Seq<char>) -> Seq<char>;

/// `regex::Regex::new(pattern)`, keeping only whether it compiled and the
/// `Display` text of its error.
#[verifier::external_body]
pub(crate) fn regex_check(pattern: &str) -> (r: Result<(), String>)
    ensures
        match r {
            Ok(()) => regex_compiles(pattern@),
            Err(m) => !regex_compiles(pattern@) && m@ == regex_error_message(pattern@),
        },
{
    regex::Regex::new(pattern).map(|_| ()).map_err(|e| e.to_string())
}

} // verus!
