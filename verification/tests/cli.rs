use cptool::cli::{
    generation_lock_timeout, normalize_run_positionals, parse_case_args, positive_seconds,
};
use cptool::package::slugify;
use cptool::problem::{case_file_stem, parse_case_selector, selector_text};
use cptool::support::count_lines;
use cptool::time::Duration;

#[test]
fn normalizes_single_case_selector_positional() {
    assert_eq!(
        normalize_run_positionals(Some("sample[0]".to_string()), None),
        (None, Some("sample[0]".to_string()))
    );
    assert_eq!(
        normalize_run_positionals(Some("solution".to_string()), None),
        (Some("solution".to_string()), None)
    );
    assert_eq!(
        normalize_run_positionals(Some("solution".to_string()), Some("sample[0]".to_string())),
        (Some("solution".to_string()), Some("sample[0]".to_string()))
    );
}

#[test]
fn positive_seconds_rejects_zero_and_non_numbers() {
    assert_eq!(positive_seconds("1"), Ok(1));
    assert!(positive_seconds("0").is_err());
    assert!(positive_seconds("1.5").is_err());
    assert!(positive_seconds("abc").is_err());
}

#[test]
fn positive_seconds_messages_and_sign() {
    assert_eq!(positive_seconds("+7"), Ok(7));
    assert_eq!(
        positive_seconds("0").unwrap_err(),
        "value must be at least 1 second"
    );
    assert_eq!(
        positive_seconds("-1").unwrap_err(),
        "`-1` is not a positive integer number of seconds"
    );
    assert_eq!(positive_seconds("18446744073709551615"), Ok(u64::MAX));
    assert!(positive_seconds("18446744073709551616").is_err());
}

#[test]
fn generation_lock_timeout_maps_seconds_to_duration() {
    assert_eq!(generation_lock_timeout(None), None);
    assert_eq!(
        generation_lock_timeout(Some(3)),
        Some(Duration::from_secs(3))
    );
}

#[test]
fn count_lines_handles_trailing_newlines() {
    assert_eq!(count_lines(b""), 0);
    assert_eq!(count_lines(b"one"), 1);
    assert_eq!(count_lines(b"one\n"), 1);
    assert_eq!(count_lines(b"one\ntwo"), 2);
    assert_eq!(count_lines(b"one\ntwo\n"), 2);
}

#[test]
fn case_args_split_on_commas() {
    assert_eq!(parse_case_args(String::new()), Vec::<String>::new());
    assert_eq!(parse_case_args("1,2,,x".to_string()), vec!["1", "2", "", "x"]);
    assert_eq!(parse_case_args("solo".to_string()), vec!["solo"]);
}

#[test]
fn slugify_keeps_ascii_ids_predictable() {
    assert_eq!(slugify("My Problem 01").unwrap(), "my-problem-01");
    assert_eq!(slugify(" already_ok ").unwrap(), "already_ok");
    assert!(slugify("   ").is_err());
}

#[test]
fn slugify_collapses_runs_and_is_idempotent() {
    assert_eq!(slugify("My Problem: #1").unwrap(), "my-problem-1");
    assert_eq!(slugify("a--b").unwrap(), "a--b");
    assert_eq!(slugify("--x--").unwrap(), "x");
    assert_eq!(slugify("***").unwrap_err(), "problem id cannot be empty");
    let once = slugify("Agent 45 / Round (2)").unwrap();
    assert_eq!(slugify(&once).unwrap(), once);
}

#[test]
fn parse_case_selector_uses_zero_based_index() {
    let selector = parse_case_selector("s1[0]").unwrap();
    assert_eq!(selector.bundle, "s1");
    assert_eq!(selector.index, 0);
    assert!(parse_case_selector("s1").is_err());
    assert!(parse_case_selector("[0]").is_err());
}

#[test]
fn case_selector_errors_and_round_trip() {
    assert_eq!(
        parse_case_selector("s1").unwrap_err().message(),
        "case selector must look like bundle[index], got `s1`"
    );
    assert_eq!(
        parse_case_selector("[0]").unwrap_err().message(),
        "case selector bundle cannot be empty"
    );
    assert_eq!(
        parse_case_selector("s[x]").unwrap_err().message(),
        "invalid case selector index `x`"
    );
    let selector = parse_case_selector("a[b][12]").unwrap();
    assert_eq!(selector.bundle, "a[b]");
    assert_eq!(selector.index, 12);
    assert_eq!(selector_text(&selector), "a[b][12]");
    assert_eq!(case_file_stem(&selector), "a[b]-12");
}
