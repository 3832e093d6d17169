use commit_msg::build_commit_msg;
use commit_msg::check_and_build_commit_msg;
use commit_msg::config::Config;
use commit_msg::config::TeamMember;
use commit_msg::match_regex;

fn member(short: &str, name: &str, email: &str) -> TeamMember {
    TeamMember { short: short.to_string(), name: name.to_string(), email: email.to_string() }
}

fn heli_lopi_config(separator: &str) -> Config {
    Config {
        regex: "\\[.+?\\]\\s(.*?)\\s.*".to_string(),
        separator: separator.to_string(),
        drop_shorts: false,
        me: "hug".to_string(),
        team: vec![
            member("hug", "Hugo Heli", "hugo.heli@domain.com"),
            member("lup", "Lud Lopi", "lud.lopi@domain.com"),
        ],
    }
}

#[test]
fn test_pairing() {
    let config = heli_lopi_config("|");
    let input = "[12] hug|lup some commit message";
    let expected = "[12] hug|lup some commit message\n\nCo-authored-by: Lud Lopi <lud.lopi@domain.com>";

    assert_eq!(build_commit_msg(input, &config).unwrap(), expected.to_string());
}

#[test]
fn test_me_not_first() {
    let config = Config {
        regex: "(.*?)\\s.*".to_string(),
        separator: "|".to_string(),
        drop_shorts: true,
        me: "hug".to_string(),
        team: vec![
            member("hug", "Hugo Heli", "hugo.heli@domain.com"),
            member("lup", "Lud Lopi", "lud.lopi@domain.com"),
        ],
    };
    let input = "lup|hug some commit message";
    // The message body is never altered: even with `drop_shorts` set, the
    // matched codes stay in place and only the trailer block is appended.
    let expected = "lup|hug some commit message\n\nCo-authored-by: Lud Lopi <lud.lopi@domain.com>";
    let dropped = "some commit message\n\nCo-authored-by: Lud Lopi <lud.lopi@domain.com>";

    let built = build_commit_msg(input, &config).unwrap();
    assert_eq!(built, expected.to_string());
    assert_ne!(built, dropped.to_string());
}

#[test]
fn test_me_not_first_two() {
    let mut config = heli_lopi_config("|");
    config.drop_shorts = true;
    let input = "[TR-123] lup|hug some commit message";
    // As above: removing the matched codes is deliberately a no-op.
    let expected =
        "[TR-123] lup|hug some commit message\n\nCo-authored-by: Lud Lopi <lud.lopi@domain.com>";
    let dropped = "[TR-123] some commit message\n\nCo-authored-by: Lud Lopi <lud.lopi@domain.com>";

    let built = build_commit_msg(input, &config).unwrap();
    assert_eq!(built, expected.to_string());
    assert_ne!(built, dropped.to_string());
}

#[test]
fn test_team_member_missing() {
    let config = Config {
        regex: "\\[.+?\\]\\s(.*?)\\s.*".to_string(),
        separator: ",".to_string(),
        drop_shorts: false,
        me: "hug".to_string(),
        team: vec![member("hug", "Hugo Heli", "hugo.heli@domain.com")],
    };
    let input = "[12] hug,lup some commit message";

    assert!(build_commit_msg(input, &config).is_err());
}

#[test]
fn test_team_member_missing_is_named() {
    let config = Config {
        regex: "\\[.+?\\]\\s(.*?)\\s.*".to_string(),
        separator: ",".to_string(),
        drop_shorts: false,
        me: "hug".to_string(),
        team: vec![member("hug", "Hugo Heli", "hugo.heli@domain.com")],
    };
    let input = "[12] hug,lup some commit message";

    let err = build_commit_msg(input, &config).unwrap_err();
    assert_eq!(err.message, "Could not find: lup".to_string());
}

#[test]
fn test_unknown_member_aborts_before_later_codes() {
    // "lup" has no roster entry; "hug" after it would resolve, but the first
    // unresolvable code aborts the run and is the one named.
    let config = Config {
        regex: "\\[.+?\\]\\s(.*?)\\s.*".to_string(),
        separator: "|".to_string(),
        drop_shorts: false,
        me: "hug".to_string(),
        team: vec![member("hug", "Hugo Heli", "hugo.heli@domain.com")],
    };
    let input = "[12] lup|hug some commit message";

    let err = build_commit_msg(input, &config).unwrap_err();
    assert_eq!(err.message, "Could not find: lup".to_string());
}

#[test]
fn test_no_match_error() {
    let config = heli_lopi_config("|");
    let input = "no ticket reference here";

    let err = build_commit_msg(input, &config).unwrap_err();
    assert_eq!(err.message, "Regex does not match.".to_string());
}

#[test]
fn test_capture_starting_with_separator_is_malformed() {
    let config = heli_lopi_config("|");
    let input = "[12] |hug some commit message";

    let err = build_commit_msg(input, &config).unwrap_err();
    assert_eq!(
        err.message,
        "Match starts or ends with the separator which is not allowed.".to_string()
    );
}

#[test]
fn test_capture_ending_with_separator_is_malformed() {
    let config = heli_lopi_config("|");
    let input = "[12] hug| some commit message";

    let err = build_commit_msg(input, &config).unwrap_err();
    assert_eq!(
        err.message,
        "Match starts or ends with the separator which is not allowed.".to_string()
    );
}

#[test]
fn test_capture_equal_to_separator_is_malformed() {
    let config = heli_lopi_config("|");
    let input = "[12] | some commit message";

    let err = build_commit_msg(input, &config).unwrap_err();
    assert_eq!(
        err.message,
        "Match starts or ends with the separator which is not allowed.".to_string()
    );
}

#[test]
fn test_output_starts_with_original_message() {
    let config = heli_lopi_config("|");
    let input = "[12] lup|hug some commit message";

    let built = build_commit_msg(input, &config).unwrap();
    assert!(built.starts_with("[12] lup|hug some commit message\n"));
}

#[test]
fn test_committer_alone_round_trips() {
    let config = heli_lopi_config("|");
    let input = "[12] hug some commit message";

    let built = build_commit_msg(input, &config).unwrap();
    assert_eq!(built, "[12] hug some commit message\n".to_string());
}

#[test]
fn test_committer_excluded_in_any_position() {
    let mut config = heli_lopi_config("|");
    config.team.push(member("fli", "Fliedbelt Igel", "fliedbelt.igel@domain.com"));
    let input = "[12] lup|hug|fli some commit message";

    let built = build_commit_msg(input, &config).unwrap();
    let expected = "[12] lup|hug|fli some commit message\n\nCo-authored-by: Lud Lopi <lud.lopi@domain.com>\nCo-authored-by: Fliedbelt Igel <fliedbelt.igel@domain.com>";
    assert_eq!(built, expected.to_string());
}

#[test]
fn test_trailer_order_follows_code_order() {
    // The roster lists "fli" after "lup"; the codes name "fli" first, and the
    // trailers follow the codes, not the roster.
    let mut config = heli_lopi_config("|");
    config.team.push(member("fli", "Fliedbelt Igel", "fliedbelt.igel@domain.com"));
    let input = "[12] fli|lup some commit message";

    let built = build_commit_msg(input, &config).unwrap();
    let expected = "[12] fli|lup some commit message\n\nCo-authored-by: Fliedbelt Igel <fliedbelt.igel@domain.com>\nCo-authored-by: Lud Lopi <lud.lopi@domain.com>";
    assert_eq!(built, expected.to_string());
}

#[test]
fn test_repeated_code_resolves_twice() {
    let config = heli_lopi_config("|");
    let input = "[12] lup|lup some commit message";

    let built = build_commit_msg(input, &config).unwrap();
    let expected = "[12] lup|lup some commit message\n\nCo-authored-by: Lud Lopi <lud.lopi@domain.com>\nCo-authored-by: Lud Lopi <lud.lopi@domain.com>";
    assert_eq!(built, expected.to_string());
}

#[test]
fn test_drop_shorts_changes_nothing() {
    let mut with_flag = heli_lopi_config("|");
    with_flag.drop_shorts = true;
    let without_flag = heli_lopi_config("|");
    let input = "[12] hug|lup some commit message";

    assert_eq!(
        build_commit_msg(input, &with_flag).unwrap(),
        build_commit_msg(input, &without_flag).unwrap()
    );
}

#[test]
fn test_match_regex_returns_first_group() {
    let captured = match_regex("[12] hug|lup some commit message", "\\[.+?\\]\\s(.*?)\\s.*");
    assert_eq!(captured.unwrap(), "hug|lup".to_string());
}

#[test]
fn test_match_regex_no_match() {
    let captured = match_regex("nothing bracketed", "\\[.+?\\]\\s(.*?)\\s.*");
    assert_eq!(captured.unwrap_err().message, "Regex does not match.".to_string());
}

#[test]
fn test_match_regex_group_not_participating() {
    // The pattern matches, but its first group takes no part in the match:
    // treated as no match.
    let captured = match_regex("y", "(x)?y");
    assert_eq!(captured.unwrap_err().message, "Regex does not match.".to_string());
}

#[test]
fn test_check_and_build_rejects_invalid_pattern() {
    let mut config = heli_lopi_config("|");
    config.regex = "(".to_string();
    let outcome = check_and_build_commit_msg("[12] hug|lup some commit message", &config);
    assert!(outcome.is_none());
}

#[test]
fn test_check_and_build_runs_valid_pattern() {
    let config = heli_lopi_config("|");
    let outcome = check_and_build_commit_msg("[12] hug|lup some commit message", &config);
    let expected = "[12] hug|lup some commit message\n\nCo-authored-by: Lud Lopi <lud.lopi@domain.com>";
    assert_eq!(outcome.unwrap().unwrap(), expected.to_string());
}
