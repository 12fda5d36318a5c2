//! Regular-expression matching, done by the `regex` crate.
//!
//! What a pattern matches is regex's own business: the results are named
//! here, as functions of the pattern and the text, and the library's own
//! logic is stated over those names.

use vstd::prelude::*;

verus! {

/// Whether `regex::Regex::new` accepts the pattern.
pub uninterp spec fn regex_compiles(pattern: Seq<char>) -> bool;

/// The text that `Regex::replace_all` gives when every match of the pattern
/// in `haystack` is replaced by `replacement`.
pub uninterp spec fn regex_replace_all(
    pattern: Seq<char>,
    haystack: Seq<char>,
    replacement: Seq<char>,
) -> Seq<char>;

/// The successive non-overlapping matches of the pattern in `haystack`, as
/// `Regex::captures_iter` yields them: for each match, its capture groups in
/// order (group 0 is the whole match), `None` for a group that took no part.
pub uninterp spec fn regex_captures_all(pattern: Seq<char>, haystack: Seq<char>) -> Seq<
    Seq<Option<Seq<char>>>,
>;

/// The capture groups of the leftmost match of the pattern in `haystack`, as
/// `Regex::captures` gives them, or `None` where nothing matches.
pub uninterp spec fn regex_captures_first(pattern: Seq<char>, haystack: Seq<char>) -> Option<
    Seq<Option<Seq<char>>>,
>;

/// Calls `Regex::new` and tells whether it accepted the pattern.
#[verifier::external_body]
pub(crate) fn regex_valid(pattern: &str) -> (r: bool)
    ensures
        r == regex_compiles(pattern@),
{
    regex::Regex::new(pattern).is_ok()
}

/// Compiles the pattern with `Regex::new` and replaces every match in
/// `haystack` with `Regex::replace_all`; `None` where the pattern does not
/// compile. The replaced text is named, not described.
#[verifier::external_body]
pub(crate) fn replace_all(pattern: &str, haystack: &str, replacement: &str) -> (r: Option<String>)
    ensures
        r is Some <==> regex_compiles(pattern@),
        r matches Some(s) ==> s@ == regex_replace_all(pattern@, haystack@, replacement@),
{
    match regex::Regex::new(pattern) {
        Ok(re) => Some(re.replace_all(haystack, replacement).into_owned()),
        Err(_) => None,
    }
}

/// Compiles the pattern with `Regex::new` and collects what
/// `Regex::captures_iter` yields on `haystack`, each match as the list of its
/// groups (`Captures::iter`); `None` where the pattern does not compile.
#[verifier::external_body]
pub(crate) fn captures_all(pattern: &str, haystack: &str) -> (r: Option<Vec<Vec<Option<String>>>>)
    ensures
        r is Some <==> regex_compiles(pattern@),
        r matches Some(v) ==> v.deep_view() == regex_captures_all(pattern@, haystack@),
{
    match regex::Regex::new(pattern) {
        Ok(re) => Some(
            re.captures_iter(haystack).map(
                |c| c.iter().map(|m| m.map(|m| m.as_str().to_string())).collect(),
            ).collect(),
        ),
        Err(_) => None,
    }
}

/// Compiles the pattern with `Regex::new` and takes the groups of the match
/// that `Regex::captures` finds in `haystack`, if any; the outer `None` where
/// the pattern does not compile.
#[verifier::external_body]
pub(crate) fn captures_first(pattern: &str, haystack: &str) -> (r: Option<
    Option<Vec<Option<String>>>,
>)
    ensures
        r is Some <==> regex_compiles(pattern@),
        r matches Some(found) ==> found.deep_view() == regex_captures_first(pattern@, haystack@),
{
    match regex::Regex::new(pattern) {
        Ok(re) => Some(
            re.captures(haystack).map(
                |c| c.iter().map(|m| m.map(|m| m.as_str().to_string())).collect(),
            ),
        ),
        Err(_) => None,
    }
}

} // verus!
