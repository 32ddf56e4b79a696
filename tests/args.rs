use cargo_do::args::{split_args, ArgumentError, FlagSpec};

fn toks(v: &[&str]) -> Vec<String> {
    v.iter().map(|s| s.to_string()).collect()
}

fn decl() -> Vec<FlagSpec> {
    vec![FlagSpec::boolean("--dev"), FlagSpec::valued("--target")]
}

#[test]
fn too_few_positionals_fail() {
    let r = split_args(&toks(&["a"]), 2, &decl(), false, true);
    assert!(matches!(r, Err(ArgumentError::MissingPositional)));
    let r = split_args(&toks(&[]), 1, &decl(), false, true);
    assert!(matches!(r, Err(ArgumentError::MissingPositional)));
    let r = split_args(&toks(&["--dev", "a"]), 1, &decl(), false, true);
    assert!(matches!(r, Err(ArgumentError::MissingPositional)));
}

#[test]
fn repeated_value_flag_keeps_order() {
    let p = split_args(
        &toks(&["pkg", "--target", "b", "--dev", "--target", "a", "--target", "--x"]),
        1,
        &decl(),
        true,
        true,
    )
    .unwrap();
    assert_eq!(p.positional, toks(&["pkg"]));
    assert_eq!(p.get("--target").unwrap(), &toks(&["b", "a", "--x"]));
    assert!(p.contains_key("--dev"));
    assert!(p.rest.is_empty());
}

#[test]
fn separator_passes_rest_through() {
    let p = split_args(&toks(&["--dev", "--", "--target", "--zz", "x"]), 0, &decl(), true, true)
        .unwrap();
    assert_eq!(p.rest, toks(&["--target", "--zz", "x"]));
    assert!(p.contains_key("--dev"));
    assert!(!p.contains_key("--target"));
    assert!(p.get("--target").is_none());
}

#[test]
fn unknown_flag_rejected_or_passed() {
    let r = split_args(&toks(&["--what"]), 0, &decl(), true, true);
    assert_eq!(r.err(), Some(ArgumentError::UnknownFlag("--what".to_string())));
    let p = split_args(&toks(&["--what", "plain", "--dev"]), 0, &decl(), false, true).unwrap();
    assert_eq!(p.rest, toks(&["--what", "plain"]));
    assert!(p.contains_key("--dev"));
}

#[test]
fn value_flag_at_end_fails() {
    let r = split_args(&toks(&["--target"]), 0, &decl(), false, true);
    assert_eq!(r.err(), Some(ArgumentError::MissingValue("--target".to_string())));
}

#[test]
fn separator_disabled_is_unknown_flag() {
    let r = split_args(&toks(&["--", "x"]), 0, &decl(), true, false);
    assert_eq!(r.err(), Some(ArgumentError::UnknownFlag("--".to_string())));
    let p = split_args(&toks(&["--", "--dev"]), 0, &decl(), false, false).unwrap();
    assert_eq!(p.rest, toks(&["--"]));
    assert!(p.contains_key("--dev"));
}

#[test]
fn undeclared_name_is_absent() {
    let p = split_args(&toks(&["x"]), 0, &decl(), false, true).unwrap();
    assert!(!p.contains_key("--nope"));
    assert_eq!(p.rest, toks(&["x"]));
}
