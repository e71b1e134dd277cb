//! The regular expressions of the command language and the calls into the
//! `regex` crate that evaluate them.
//!
//! What a regular expression matches is not restated here. The two functions
//! `regex_is_match` and `regex_captures` name the crate's answers, and the
//! contracts of this library speak of those names.
use vstd::prelude::*;

verus! {

/// A vote: an optional sign, which may be written `\+`, and one digit.
pub const VOTE_PATTERN: &'static str = "^(\\\\?\\+|-)?\\d$";

/// A label toggle: a sign, which may be written `\+`, and a possibly empty
/// run of ASCII letters.
pub const LABEL_PATTERN: &'static str = "^(\\\\?\\+|-)([[:alpha:]]*)$";

/// Whether the regular expression `pattern` matches somewhere in `haystack`,
/// as the `regex` crate decides it; `None` where it does not accept `pattern`.
pub uninterp spec fn regex_is_match(pattern: Seq<char>, haystack: Seq<char>) -> Option<bool>;

/// The capture groups of the first match of `pattern` in `haystack`, as the
/// `regex` crate finds them: the outer `None` where it does not accept
/// `pattern`, the inner `None` where nothing matches, else one entry for each
/// group, group 0 being the whole match, with the text it captured or `None`
/// where the group took no part in the match.
pub uninterp spec fn regex_captures(pattern: Seq<char>, haystack: Seq<char>) -> Option<
    Option<Seq<Option<Seq<char>>>>,
>;

/// Trusted: compiles `pattern` with `regex::Regex::new` and asks
/// `regex::Regex::is_match` about `haystack`. The contract only gives the
/// answer its name; a pattern that does not compile yields `None`.
#[verifier::external_body]
pub(crate) fn is_match(pattern: &str, haystack: &str) -> (r: Option<bool>)
    ensures
        r == regex_is_match(pattern@, haystack@),
{
    match regex::Regex::new(pattern) {
        Ok(re) => Some(re.is_match(haystack)),
        Err(_) => None,
    }
}

/// Trusted: compiles `pattern` with `regex::Regex::new`, runs
/// `regex::Regex::captures` on `haystack` and copies out, through
/// `regex::Captures::iter` and `regex::Match::as_str`, the text of every
/// group. The contract only gives the answer its name; a pattern that does
/// not compile yields `None`.
#[verifier::external_body]
pub(crate) fn captures(pattern: &str, haystack: &str) -> (r: Option<Option<Vec<Option<String>>>>)
    ensures
        r.deep_view() == regex_captures(pattern@, haystack@),
{
    match regex::Regex::new(pattern) {
        Ok(re) => Some(
            re.captures(haystack).map(
                |caps| caps.iter().map(|group| group.map(|m| m.as_str().to_string())).collect(),
            ),
        ),
        Err(_) => None,
    }
}

} // verus!
