use cargo_do::cli::{command_of, fmt, forwarded, help, l10n, relay_exit, split_command, update, Command, USAGE};
use cargo_do::plan::Invocation;

fn toks(v: &[&str]) -> Vec<String> {
    v.iter().map(|s| s.to_string()).collect()
}

fn env_of(c: &Invocation) -> Vec<(String, String)> {
    c.env.iter().map(|e| (e.name.clone(), e.value.clone())).collect()
}

#[test]
fn commands_are_recognised() {
    assert_eq!(command_of("fmt"), Command::Fmt);
    assert_eq!(command_of("l10n"), Command::L10n);
    assert_eq!(command_of("pack"), Command::Pack);
    assert_eq!(command_of("build-r"), Command::BuildR);
    assert_eq!(command_of("build-ndk"), Command::BuildNdk);
    assert_eq!(command_of("run-r"), Command::RunR);
    assert_eq!(command_of("update"), Command::Update);
    assert_eq!(command_of("test-apk"), Command::TestApk);
    for h in ["help", "--help", "-h", ""] {
        assert_eq!(command_of(h), Command::Help);
    }
    assert_eq!(command_of("check"), Command::Forward);
    assert_eq!(command_of("Fmt"), Command::Forward);
}

#[test]
fn split_command_line() {
    let (name, rest) = split_command(&toks(&["pack", "deb", "--no-build"]));
    assert_eq!(name, "pack");
    assert_eq!(rest, toks(&["deb", "--no-build"]));
    let (name, rest) = split_command(&Vec::new());
    assert_eq!(name, "");
    assert!(rest.is_empty());
}

#[test]
fn unknown_command_forwarded_in_order() {
    let c = forwarded(&toks(&["clippy", "--all", "--", "-D", "warnings"])).unwrap();
    assert_eq!(c.program, "cargo");
    assert_eq!(c.args, toks(&["clippy", "--all", "--", "-D", "warnings"]));
    assert!(c.env.is_empty());
    assert!(forwarded(&toks(&["fmt", "x"])).is_none());
    assert!(forwarded(&Vec::new()).is_none());
}

#[test]
fn child_exit_code_relayed() {
    assert_eq!(relay_exit(Some(3)), 3);
    assert_eq!(relay_exit(Some(-2)), -2);
    assert_eq!(relay_exit(Some(0)), 0);
    assert_eq!(relay_exit(None), 1);
}

#[test]
fn fmt_and_l10n_calls() {
    let c = fmt(toks(&["--check"]));
    assert_eq!(c.program, "cargo");
    assert_eq!(c.args, toks(&["zng", "fmt", "--check"]));
    let c = l10n(toks(&["--verbose"]));
    assert_eq!(
        c.args,
        toks(&["zng", "l10n", "--package", "miscomp-issue", "--output", "res/l10n", "--clean", "--verbose"])
    );
    assert!(env_of(&c).is_empty());
}

#[test]
fn update_with_and_without_args() {
    let v = update(Vec::new());
    assert_eq!(v.len(), 2);
    assert_eq!(v[0].args, toks(&["update"]));
    assert_eq!(
        v[1].args,
        toks(&[
            "zng", "l10n", "--package", "miscomp-issue", "--output", "res/l10n", "--clean",
            "--no-local", "--no-pkg"
        ])
    );
    let v = update(toks(&["-p", "zng"]));
    assert_eq!(v.len(), 1);
    assert_eq!(v[0].args, toks(&["update", "-p", "zng"]));
}

#[test]
fn help_prints_usage() {
    let h = help(Vec::new());
    assert_eq!(h, USAGE);
    assert!(h.contains("do test-apk"));
}
