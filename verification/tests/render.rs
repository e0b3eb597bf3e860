use getver::outcome::{Crate, LookupOutcome};
use getver::render::{failed_line, found_line, join, not_found_line, render};
use getver::report::{Failure, Report};

fn strings(names: &[&str]) -> Vec<String> {
    names.iter().map(|n| n.to_string()).collect()
}

#[test]
fn join_puts_the_separator_between() {
    assert_eq!(join(&strings(&[]), ", "), "");
    assert_eq!(join(&strings(&["a"]), ", "), "a");
    assert_eq!(join(&strings(&["a", "b"]), ", "), "a, b");
    assert_eq!(join(&strings(&["a", "b", "c"]), "-"), "a-b-c");
    assert_eq!(join(&strings(&["a", "", "c"]), "+"), "a++c");
    assert_eq!(join(&strings(&["", ""]), "+"), "+");
    assert_eq!(join(&strings(&["a", "b"]), ""), "ab");
}

#[test]
fn found_line_is_name_colon_version() {
    let krate = Crate { name: "left-pad".to_string(), max_version: "1.3.0".to_string() };
    assert_eq!(found_line(&krate), "left-pad: 1.3.0");
}

#[test]
fn not_found_line_lists_all_names() {
    assert_eq!(not_found_line(&strings(&["zzz-nonexistent-pkg"])), "not found: zzz-nonexistent-pkg");
    assert_eq!(not_found_line(&strings(&["a", "b", "c"])), "not found: a, b, c");
}

#[test]
fn failed_line_is_name_colon_cause() {
    let failure = Failure { name: "serde".to_string(), cause: "timed out".to_string() };
    assert_eq!(failed_line(&failure), "serde: timed out");
}

#[test]
fn render_of_an_empty_report_is_no_line() {
    assert!(render(&Report::new()).is_empty());
}

#[test]
fn render_gives_found_then_not_found_then_failed() {
    let mut report = Report::new();
    report.record(LookupOutcome::Failed { name: "f1".to_string(), cause: "boom".to_string() });
    report.record(LookupOutcome::NotFound { name: "n1".to_string() });
    report.record(LookupOutcome::Found { name: "a".to_string(), max_version: "1.0.0".to_string() });
    report.record(LookupOutcome::NotFound { name: "n2".to_string() });
    report.record(LookupOutcome::Found { name: "b".to_string(), max_version: "0.2.1".to_string() });
    report.record(LookupOutcome::Failed { name: "f2".to_string(), cause: "bang".to_string() });
    assert_eq!(
        render(&report),
        strings(&["a: 1.0.0", "b: 0.2.1", "not found: n1, n2", "f1: boom", "f2: bang"])
    );
}

#[test]
fn render_has_no_not_found_line_without_such_names() {
    let mut report = Report::new();
    report.record(LookupOutcome::Found { name: "a".to_string(), max_version: "1".to_string() });
    report.record(LookupOutcome::Failed { name: "f".to_string(), cause: "c".to_string() });
    assert_eq!(render(&report), strings(&["a: 1", "f: c"]));
}

#[test]
fn render_of_only_missing_names_is_one_line() {
    let mut report = Report::new();
    report.record(LookupOutcome::NotFound { name: "x".to_string() });
    report.record(LookupOutcome::NotFound { name: "y".to_string() });
    assert_eq!(render(&report), strings(&["not found: x, y"]));
}
