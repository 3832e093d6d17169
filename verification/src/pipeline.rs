use vstd::prelude::*;

use crate::builder::build_msg;
use crate::builder::build_msg_spec;
use crate::builder::lemma_only_committer_round_trip;
use crate::config::Config;
use crate::config::TeamMember;
use crate::errors::Error;
use crate::errors::malformed_separator_message;
use crate::errors::no_match_message;
use crate::errors::unknown_member_message;
use crate::extractor::match_regex;
use crate::extractor::regex_compiles;
use crate::extractor::regex_first_capture;
use crate::extractor::regex_is_valid;
use crate::resolver::find_member;
use crate::resolver::lemma_resolve_preserves_shorts;
use crate::resolver::lemma_unknown_member_aborts;
use crate::resolver::resolve_spec;
use crate::resolver::shorts_to_members;
use crate::splitter::ends_with_spec;
use crate::splitter::extract_shorts;
use crate::splitter::split_spec;
use crate::splitter::starts_with_spec;

verus! {

/// The outcome the pipeline owes for the commit message `input` under a
/// configuration with a valid pattern `regex`: the rebuilt message, or the
/// message of the first failing stage.
pub open spec fn pipeline_spec(
    input: Seq<char>,
    regex: Seq<char>,
    separator: Seq<char>,
    team: Seq<TeamMember>,
    me: Seq<char>,
) -> Result<Seq<char>, Seq<char>> {
    match regex_first_capture(regex, input) {
        None => Err(no_match_message()),
        Some(captured) => if starts_with_spec(captured, separator) || ends_with_spec(
            captured,
            separator,
        ) {
            Err(malformed_separator_message())
        } else {
            match resolve_spec(split_spec(captured, separator), team) {
                Err(short) => Err(unknown_member_message(short)),
                Ok(ms) => Ok(build_msg_spec(input, ms, me)),
            }
        },
    }
}

/// Runs extraction, splitting, resolution and message building in order,
/// short-circuiting on the first failure and propagating its error
/// unchanged. The only entry point the surrounding driver calls on success.
pub fn build_commit_msg(input: &str, config: &Config) -> (r: Result<String, Error>)
    requires
        regex_is_valid(config.regex@),
    ensures
        match pipeline_spec(input@, config.regex@, config.separator@, config.team@, config.me@) {
            Ok(msg) => r is Ok && r->Ok_0@ == msg,
            Err(message) => r is Err && r->Err_0.message@ == message,
        },
{
    let extracted = match match_regex(input, config.regex.as_str()) {
        Ok(captured) => captured,
        Err(e) => {
            return Err(e);
        },
    };
    let shorts = match extract_shorts(extracted.as_str(), config.separator.as_str()) {
        Ok(parts) => parts,
        Err(e) => {
            return Err(e);
        },
    };
    let members = match shorts_to_members(shorts, &config.team) {
        Ok(ms) => ms,
        Err(e) => {
            return Err(e);
        },
    };
    Ok(build_msg(input, extracted.as_str(), members, config))
}

/// Tests whether the configured pattern compiles before running the
/// pipeline: the pipeline's outcome for a valid pattern, nothing for an
/// invalid one.
pub fn check_and_build_commit_msg(input: &str, config: &Config) -> (r: Option<
    Result<String, Error>,
>)
    ensures
        r is Some <==> regex_is_valid(config.regex@),
        r is Some ==> (match pipeline_spec(
            input@,
            config.regex@,
            config.separator@,
            config.team@,
            config.me@,
        ) {
            Ok(msg) => r->0 is Ok && r->0->Ok_0@ == msg,
            Err(message) => r->0 is Err && r->0->Err_0.message@ == message,
        }),
{
    if regex_compiles(config.regex.as_str()) {
        Some(build_commit_msg(input, config))
    } else {
        None
    }
}

/// Whenever the pipeline succeeds, its output begins with the untouched
/// original message followed by a newline.
pub proof fn lemma_output_preserves_message(
    input: Seq<char>,
    regex: Seq<char>,
    separator: Seq<char>,
    team: Seq<TeamMember>,
    me: Seq<char>,
)
    requires
        pipeline_spec(input, regex, separator, team, me) is Ok,
    ensures
        pipeline_spec(input, regex, separator, team, me)->Ok_0.len() >= input.len() + 1,
        pipeline_spec(input, regex, separator, team, me)->Ok_0.subrange(0, input.len() as int + 1)
            == input + "\n"@,
{
    reveal_strlit("\n");
    let out = pipeline_spec(input, regex, separator, team, me)->Ok_0;
    let captured = regex_first_capture(regex, input)->0;
    let ms = resolve_spec(split_spec(captured, separator), team)->Ok_0;
    assert(out == build_msg_spec(input, ms, me));
    assert(out.subrange(0, input.len() as int + 1) =~= input + "\n"@);
}

/// A captured group that is the separator itself, or begins or ends with it,
/// always fails with the malformed-separator error.
pub proof fn lemma_separator_boundary(
    input: Seq<char>,
    regex: Seq<char>,
    separator: Seq<char>,
    team: Seq<TeamMember>,
    me: Seq<char>,
    captured: Seq<char>,
)
    requires
        regex_first_capture(regex, input) == Some(captured),
        captured == separator || starts_with_spec(captured, separator) || ends_with_spec(
            captured,
            separator,
        ),
    ensures
        pipeline_spec(input, regex, separator, team, me) == Err::<Seq<char>, Seq<char>>(
            malformed_separator_message(),
        ),
{
    if captured == separator {
        assert(captured.subrange(0, separator.len() as int) =~= separator);
        assert(starts_with_spec(captured, separator));
    }
}

/// An unresolvable short code anywhere in the split list fails the pipeline
/// with the unknown-member error naming exactly that code, even when every
/// later code would have resolved.
pub proof fn lemma_unknown_member_named(
    input: Seq<char>,
    regex: Seq<char>,
    separator: Seq<char>,
    team: Seq<TeamMember>,
    me: Seq<char>,
    captured: Seq<char>,
    k: int,
)
    requires
        regex_first_capture(regex, input) == Some(captured),
        !starts_with_spec(captured, separator),
        !ends_with_spec(captured, separator),
        0 <= k < split_spec(captured, separator).len(),
        find_member(team, split_spec(captured, separator)[k]) is None,
        forall|j: int|
            0 <= j < k ==> find_member(team, #[trigger] split_spec(captured, separator)[j])
                is Some,
    ensures
        pipeline_spec(input, regex, separator, team, me) == Err::<Seq<char>, Seq<char>>(
            unknown_member_message(split_spec(captured, separator)[k]),
        ),
{
    lemma_unknown_member_aborts(split_spec(captured, separator), team, k);
}

/// When every extracted short code is the committer's own and resolution
/// succeeds, the pipeline returns exactly the original message plus a single
/// trailing newline: no trailer block at all.
pub proof fn lemma_no_coauthors_round_trip(
    input: Seq<char>,
    regex: Seq<char>,
    separator: Seq<char>,
    team: Seq<TeamMember>,
    me: Seq<char>,
    captured: Seq<char>,
)
    requires
        regex_first_capture(regex, input) == Some(captured),
        !starts_with_spec(captured, separator),
        !ends_with_spec(captured, separator),
        forall|i: int|
            0 <= i < split_spec(captured, separator).len() ==> #[trigger] split_spec(
                captured,
                separator,
            )[i] == me,
        resolve_spec(split_spec(captured, separator), team) is Ok,
    ensures
        pipeline_spec(input, regex, separator, team, me) == Ok::<Seq<char>, Seq<char>>(
            input + "\n"@,
        ),
{
    let shorts = split_spec(captured, separator);
    let ms = resolve_spec(shorts, team)->Ok_0;
    lemma_resolve_preserves_shorts(shorts, team);
    assert(forall|i: int| 0 <= i < ms.len() ==> #[trigger] ms[i].short@ == me);
    lemma_only_committer_round_trip(input, ms, me);
}

} // verus!
