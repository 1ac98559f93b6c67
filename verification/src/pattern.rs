//! Pattern search over page text, done by the `regex` crate.
//!
//! What a search returns is a function of the pattern and the text alone.
//! It is named here and not spelled out: the functions that use a search
//! state their results over these names.

use vstd::prelude::*;

verus! {

/// What the first match of `pattern` in `text` captured in its first group;
/// `None` where the pattern is no regular expression, matches nowhere, or
/// matches without that group taking part.
pub uninterp spec fn first_capture(pattern: Seq<char>, text: Seq<char>) -> Option<Seq<char>>;

/// How many matches of `pattern`, none overlapping another, `text` holds
/// when it is searched from the left; 0 where the pattern is no regular
/// expression.
pub uninterp spec fn match_count(pattern: Seq<char>, text: Seq<char>) -> nat;

/// Compiles `pattern` with `regex::Regex::new`, searches `text` with
/// `Regex::captures` and copies the text of group 1 (`Captures::get`,
/// `Match::as_str`). The contract only says that the result is the named
/// function of the two arguments.
#[verifier::external_body]
pub(crate) fn capture_first(pattern: &str, text: &str) -> (r: Option<String>)
    ensures
        r.deep_view() == first_capture(pattern@, text@),
{
    let re = match regex::Regex::new(pattern) {
        Ok(re) => re,
        Err(_) => return None,
    };
    match re.captures(text) {
        Some(caps) => match caps.get(1) {
            Some(group) => Some(group.as_str().to_string()),
            None => None,
        },
        None => None,
    }
}

/// Compiles `pattern` with `regex::Regex::new` and counts what
/// `Regex::find_iter` yields on `text`. The contract only says that the
/// result is the named function of the two arguments.
#[verifier::external_body]
pub(crate) fn count_matches(pattern: &str, text: &str) -> (r: usize)
    ensures
        r == match_count(pattern@, text@),
{
    match regex::Regex::new(pattern) {
        Ok(re) => re.find_iter(text).count(),
        Err(_) => 0,
    }
}

} // verus!
