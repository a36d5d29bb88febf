use cptool::batch_args::{legacy_stress_args_by_case, range_args, RangeIssue};

fn strings(v: &[&str]) -> Vec<String> {
    v.iter().map(|s| s.to_string()).collect()
}

#[test]
fn batch_range_args_expand_every_combination() {
    let rows = range_args(&strings(&["1..2", "x", "{5:6}"])).unwrap();
    assert_eq!(
        rows,
        vec![
            strings(&["1", "x", "5"]),
            strings(&["1", "x", "6"]),
            strings(&["2", "x", "5"]),
            strings(&["2", "x", "6"]),
        ]
    );
}

#[test]
fn batch_range_args_keep_literals_and_negative_ranges() {
    assert_eq!(range_args(&[]).unwrap(), vec![Vec::<String>::new()]);
    assert_eq!(
        range_args(&strings(&["-2..-1", "..3", "1..", "1..2..3"])).unwrap(),
        vec![
            strings(&["-2", "..3", "1..", "1..2..3"]),
            strings(&["-1", "..3", "1..", "1..2..3"]),
        ]
    );
}

#[test]
fn batch_range_args_report_the_first_bad_range() {
    let err = range_args(&strings(&["1..2", "a..3", "5..1"])).unwrap_err();
    assert_eq!(err.issue, RangeIssue::InvalidStart);
    assert_eq!(err.arg, "a..3");
    let err = range_args(&strings(&["{1:b}"])).unwrap_err();
    assert_eq!(err.issue, RangeIssue::InvalidEnd);
    let err = range_args(&strings(&["5..1"])).unwrap_err();
    assert_eq!(err.issue, RangeIssue::Reversed);
}

#[test]
fn stress_range_args_only_expand_braces() {
    let rows = cptool::stress_args::range_args(&strings(&["1..2", "{3:4}"])).unwrap();
    assert_eq!(rows, vec![strings(&["1..2", "3"]), strings(&["1..2", "4"])]);
}

#[test]
fn legacy_args_substitute_case_numbers() {
    let rows = legacy_stress_args_by_case(&strings(&["--n={case}", "{case0}-{case}"]), 2);
    assert_eq!(rows, vec![strings(&["--n=1", "0-1"]), strings(&["--n=2", "1-2"])]);
}
