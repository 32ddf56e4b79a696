use cargo_do::harness::{scan, Harness, LineAction, Verdict};

fn lines(v: &[&str]) -> Vec<String> {
    v.iter().map(|s| s.to_string()).collect()
}

#[test]
fn two_present_markers_pass() {
    let h = scan(&lines(&["app miscomp !!: Some(x)", "app miscomp !!: Some(y)"]));
    assert_eq!(h.verdict, Verdict::Pass);
    assert_eq!(h.markers, 2);
    assert_eq!(h.verdict.exit_code(), 0);
}

#[test]
fn second_marker_none_is_regression() {
    let h = scan(&lines(&["app miscomp !!: Some(x)", "app miscomp !!: None"]));
    assert_eq!(h.verdict, Verdict::Regression);
    assert_eq!(h.verdict.exit_code(), 1);
    assert!(h.verdict.message().contains("miscompilation detected"));
}

#[test]
fn no_second_marker_ends_in_timeout() {
    let h = scan(&lines(&["app miscomp !!: Some(x)", "app miscomp started", "noise"]));
    assert_eq!(h.verdict, Verdict::Pending);
    assert_eq!(h.markers, 1);
    assert_eq!(h.verdict.exit_code(), 1);
    assert!(h.verdict.message().contains("timeout"));
}

#[test]
fn empty_log_ends_in_timeout() {
    let h = scan(&Vec::new());
    assert_eq!(h.verdict, Verdict::Pending);
    assert_eq!(h.markers, 0);
    assert!(h.verdict.message().contains("timeout"));
}

#[test]
fn foreign_lines_never_count() {
    let h = scan(&lines(&[
        "kernel !!: None",
        "app miscomp !!: Some(x)",
        "other !!: None",
        "!!:",
        "app miscomp !!: Some(y)",
    ]));
    assert_eq!(h.verdict, Verdict::Pass);
    let h = scan(&lines(&["kernel !!: Some(x)", "kernel !!: None"]));
    assert_eq!(h.markers, 0);
    assert_eq!(h.verdict, Verdict::Pending);
}

#[test]
fn first_marker_is_not_evaluated() {
    let h = scan(&lines(&["app miscomp !!: None", "app miscomp !!: Some(y)"]));
    assert_eq!(h.verdict, Verdict::Pass);
}

#[test]
fn app_lines_without_marker_do_not_count() {
    let h = scan(&lines(&["miscomp a", "miscomp !!: Some(1)", "miscomp b", "miscomp !!:   None"]));
    assert_eq!(h.verdict, Verdict::Regression);
}

#[test]
fn payload_after_white_space_is_read() {
    let h = scan(&lines(&["miscomp !!: Some(1)", "miscomp !!:\t  Some(2)"]));
    assert_eq!(h.verdict, Verdict::Pass);
}

#[test]
fn other_payload_is_malformed() {
    let h = scan(&lines(&["miscomp !!: Some(1)", "miscomp !!: test-event None"]));
    assert_eq!(h.verdict, Verdict::Malformed);
    assert_eq!(h.verdict.exit_code(), 1);
}

#[test]
fn verdict_is_never_revisited() {
    let mut h = Harness::new();
    assert_eq!(h.step("miscomp !!: Some(1)"), LineAction::Echo);
    assert_eq!(h.step("miscomp !!: None"), LineAction::Echo);
    assert_eq!(h.verdict, Verdict::Regression);
    assert_eq!(h.step("miscomp !!: Some(3)"), LineAction::Discard);
    assert_eq!(h.verdict, Verdict::Regression);
    assert_eq!(h.markers, 2);
}

#[test]
fn step_discards_foreign_lines() {
    let mut h = Harness::new();
    assert_eq!(h.step("kernel !!: None"), LineAction::Discard);
    assert_eq!(h, Harness::new());
    assert_eq!(h.step("miscomp hello"), LineAction::Echo);
    assert_eq!(h.markers, 0);
}

#[test]
fn messages_are_distinct() {
    assert_eq!(Verdict::Regression.message(), "miscompilation detected");
    assert_eq!(Verdict::Pending.message(), "timeout, no test print on log after 20s");
    assert_ne!(Verdict::Regression.message(), Verdict::Pending.message());
}
