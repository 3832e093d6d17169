use vstd::prelude::*;

use crate::errors::Error;
use crate::errors::no_match_message;

verus! {

/// Whether `pattern` is a regular expression that `regex::Regex::new`
/// accepts. Compilation is deterministic, so this depends on the pattern
/// alone.
pub uninterp spec fn regex_is_valid(pattern: Seq<char>) -> bool;

/// What the first capture group of `pattern` captures in `text`: the
/// captured substring where the leftmost match of `pattern` in `text` has a
/// participating first capture group, and nothing where the pattern does not
/// match or its first group does not take part in the match. For a valid
/// pattern this depends on the pattern and the text alone.
pub uninterp spec fn regex_first_capture(pattern: Seq<char>, text: Seq<char>) -> Option<Seq<char>>;

/// Relies on regex::Regex::new: whether a pattern compiles depends on the
/// pattern alone.
#[verifier::external_body]
pub(crate) fn regex_compiles(pattern: &str) -> (r: bool)
    ensures
        r == regex_is_valid(pattern@),
{
    regex::Regex::new(pattern).is_ok()
}

/// Relies on regex::Regex::captures, regex::Captures::get and
/// regex::Match::as_str: for a valid pattern, the leftmost match in a
/// haystack and the substring each group captured depend on the pattern and
/// the haystack alone; `captures` returns nothing when there is no match,
/// and `get(1)` returns nothing when the first group is absent from the
/// pattern or did not participate in the match.
#[verifier::external_body]
fn capture_first(pattern: &str, text: &str) -> (r: Option<String>)
    requires
        regex_is_valid(pattern@),
    ensures
        match regex_first_capture(pattern@, text@) {
            Some(c) => r is Some && r->0@ == c,
            None => r is None,
        },
{
    match regex::Regex::new(pattern) {
        Ok(re) => match re.captures(text) {
            Some(groups) => match groups.get(1) {
                Some(m) => Some(m.as_str().to_string()),
                None => None,
            },
            None => None,
        },
        Err(_) => None,
    }
}

/// Applies the configured regular expression to the commit message and
/// returns what its first capture group captured. A message the pattern does
/// not match fails with the no-match error; a pattern whose first capture
/// group does not participate in the match is treated the same way.
pub fn match_regex(input: &str, regex: &str) -> (r: Result<String, Error>)
    requires
        regex_is_valid(regex@),
    ensures
        match regex_first_capture(regex@, input@) {
            Some(c) => r is Ok && r->Ok_0@ == c,
            None => r is Err && r->Err_0.message@ == no_match_message(),
        },
{
    match capture_first(regex, input) {
        Some(captured) => Ok(captured),
        None => Err(Error::no_match()),
    }
}

} // verus!
