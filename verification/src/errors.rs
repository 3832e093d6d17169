use vstd::prelude::*;

verus! {

/// A terminal failure of one pipeline stage, carrying a human-readable
/// message. No stage recovers from another stage's error: the first failure
/// is propagated unchanged to the caller.
#[derive(Debug)]
pub struct Error {
    pub message: String,
}

/// Message reported when the configured regular expression does not match
/// the commit message.
pub open spec fn no_match_message() -> Seq<char> {
    "Regex does not match."@
}

/// Message reported when the captured group begins or ends with the
/// configured separator.
pub open spec fn malformed_separator_message() -> Seq<char> {
    "Match starts or ends with the separator which is not allowed."@
}

/// Message reported when a short code has no entry in the team roster,
/// naming the offending code.
pub open spec fn unknown_member_message(short: Seq<char>) -> Seq<char> {
    "Could not find: "@ + short
}

impl Error {
    pub fn no_match() -> (e: Error)
        ensures
            e.message@ == no_match_message(),
    {
        Error { message: "Regex does not match.".to_owned() }
    }

    pub fn malformed_separator() -> (e: Error)
        ensures
            e.message@ == malformed_separator_message(),
    {
        Error { message: "Match starts or ends with the separator which is not allowed.".to_owned() }
    }

    pub fn unknown_member(short: &String) -> (e: Error)
        ensures
            e.message@ == unknown_member_message(short@),
    {
        let mut message = "Could not find: ".to_owned();
        message.append(short.as_str());
        Error { message }
    }
}

} // verus!
