use vstd::prelude::*;
use crate::plan::{Invocation, owned};
use crate::text::{lemma_views_push, same_text, views};

verus! {

/// The toolchain that unknown subcommands are handed to.
pub const CARGO: &'static str = "cargo";

/// A subcommand of the tool.
#[derive(Clone, Copy, Debug, PartialEq, Eq, Structural)]
pub enum Command {
    Fmt,
    L10n,
    Pack,
    BuildR,
    BuildNdk,
    RunR,
    Update,
    TestApk,
    Help,
    /// Not one of the tool's own: forwarded to the toolchain.
    Forward,
}

/// The subcommand that `name` selects.
pub open spec fn command_spec(name: Seq<char>) -> Command {
    if name == "fmt"@ {
        Command::Fmt
    } else if name == "l10n"@ {
        Command::L10n
    } else if name == "pack"@ {
        Command::Pack
    } else if name == "build-r"@ {
        Command::BuildR
    } else if name == "build-ndk"@ {
        Command::BuildNdk
    } else if name == "run-r"@ {
        Command::RunR
    } else if name == "update"@ {
        Command::Update
    } else if name == "test-apk"@ {
        Command::TestApk
    } else if name == "help"@ || name == "--help"@ || name == "-h"@ || name == ""@ {
        Command::Help
    } else {
        Command::Forward
    }
}

/// The subcommand that `name` selects.
pub fn command_of(name: &str) -> (r: Command)
    ensures
        r == command_spec(name@),
{
    if same_text(name, "fmt") {
        Command::Fmt
    } else if same_text(name, "l10n") {
        Command::L10n
    } else if same_text(name, "pack") {
        Command::Pack
    } else if same_text(name, "build-r") {
        Command::BuildR
    } else if same_text(name, "build-ndk") {
        Command::BuildNdk
    } else if same_text(name, "run-r") {
        Command::RunR
    } else if same_text(name, "update") {
        Command::Update
    } else if same_text(name, "test-apk") {
        Command::TestApk
    } else if same_text(name, "help") || same_text(name, "--help") || same_text(name, "-h")
        || same_text(name, "") {
        Command::Help
    } else {
        Command::Forward
    }
}

/// Splits the command line (without the program's own path) into the
/// subcommand name, empty when there is none, and the rest.
pub fn split_command(argv: &Vec<String>) -> (r: (String, Vec<String>))
    ensures
        argv@.len() == 0 ==> r.0@ == ""@ && r.1@.len() == 0,
        argv@.len() > 0 ==> r.0@ == argv@[0]@ && views(r.1@) == views(argv@).drop_first(),
{
    if argv.len() == 0 {
        return (owned(""), Vec::new());
    }
    let mut rest: Vec<String> = Vec::new();
    let mut k: usize = 1;
    while k < argv.len()
        invariant
            1 <= k <= argv@.len(),
            views(rest@) == views(argv@).subrange(1, k as int),
        decreases argv.len() - k,
    {
        let s = argv[k].clone();
        proof {
            lemma_views_push(rest@, s);
        }
        rest.push(s);
        assert(views(rest@) =~= views(argv@).subrange(1, k + 1));
        k = k + 1;
    }
    assert(views(argv@).subrange(1, k as int) =~= views(argv@).drop_first());
    (argv[0].clone(), rest)
}

/// Hands an unknown subcommand and its arguments, in order, to the toolchain.
pub fn forward(name: &str, rest: &Vec<String>) -> (r: Invocation)
    ensures
        r.program@ == CARGO@,
        r.args_view() == seq![name@] + views(rest@),
        r.env@.len() == 0,
{
    let mut c = Invocation::new(CARGO);
    c.arg(name);
    c.args(rest);
    c
}

/// The exit code to end with after a child exited with `code`: the child's
/// own, or 1 where it has none (killed by a signal).
pub fn relay_exit(code: Option<i32>) -> (r: i32)
    ensures
        r == (match code {
            Some(c) => c,
            None => 1i32,
        }),
{
    match code {
        Some(c) => c,
        None => 1,
    }
}

/// The toolchain call for a command line whose subcommand is not one of the
/// tool's own: the whole command line, in its order; `None` for the tool's
/// own subcommands.
pub fn forwarded(argv: &Vec<String>) -> (r: Option<Invocation>)
    ensures
        r is Some <==> (argv@.len() > 0 && command_spec(argv@[0]@) == Command::Forward),
        r matches Some(c) ==> c.program@ == CARGO@ && c.args_view() == views(argv@)
            && c.env@.len() == 0,
{
    let (name, rest) = split_command(argv);
    if argv.len() == 0 {
        return None;
    }
    match command_of(name.as_str()) {
        Command::Forward => {
            let c = forward(name.as_str(), &rest);
            assert(seq![name@] + views(rest@) =~= views(argv@));
            Some(c)
        },
        _ => None,
    }
}

/// `cargo zng fmt` with `args` appended.
pub fn fmt(args: Vec<String>) -> (r: Invocation)
    ensures
        r.program@ == CARGO@,
        r.args_view() == seq!["zng"@, "fmt"@] + views(args@),
        r.env@.len() == 0,
{
    let mut c = Invocation::new(CARGO);
    c.arg("zng");
    c.arg("fmt");
    c.args(&args);
    c
}

/// The fixed arguments of the localization scrape.
pub open spec fn l10n_base() -> Seq<Seq<char>> {
    seq![
        "zng"@,
        "l10n"@,
        "--package"@,
        "miscomp-issue"@,
        "--output"@,
        "res/l10n"@,
        "--clean"@,
    ]
}

/// The localization scrape, `cargo zng l10n ...`, with `args` appended.
pub fn l10n(args: Vec<String>) -> (r: Invocation)
    ensures
        r.program@ == CARGO@,
        r.args_view() == l10n_base() + views(args@),
        r.env@.len() == 0,
{
    let mut c = Invocation::new(CARGO);
    c.arg("zng");
    c.arg("l10n");
    c.arg("--package");
    c.arg("miscomp-issue");
    c.arg("--output");
    c.arg("res/l10n");
    c.arg("--clean");
    c.args(&args);
    c
}

/// `cargo update` with `args`; with no arguments, followed by a scrape of
/// the localization text of the dependencies.
pub fn update(args: Vec<String>) -> (r: Vec<Invocation>)
    ensures
        r@.len() == (if args@.len() == 0 { 2int } else { 1int }),
        r@[0].program@ == CARGO@,
        r@[0].args_view() == seq!["update"@] + views(args@),
        r@[0].env@.len() == 0,
        args@.len() == 0 ==> r@[1].program@ == CARGO@ && r@[1].args_view() == l10n_base()
            + seq!["--no-local"@, "--no-pkg"@] && r@[1].env@.len() == 0,
{
    let empty = args.len() == 0;
    let mut c = Invocation::new(CARGO);
    c.arg("update");
    c.args(&args);
    let mut out: Vec<Invocation> = Vec::new();
    out.push(c);
    if empty {
        let mut extra: Vec<String> = Vec::new();
        let a = owned("--no-local");
        proof {
            lemma_views_push(extra@, a);
        }
        extra.push(a);
        let b = owned("--no-pkg");
        proof {
            lemma_views_push(extra@, b);
        }
        extra.push(b);
        assert(views(extra@) =~= seq!["--no-local"@, "--no-pkg"@]);
        out.push(l10n(extra));
    }
    out
}

/// The usage text.
pub const USAGE: &'static str = "do fmt
   Calls cargo zng fmt

do l10n
   Scraps localization text

do pack <PACKAGE> [--no-build]
   Compile with release profile+features and package

   ARGS
      <PACKAGE>  - Name of a pack/{PACKAGE}
      --no-build - Skips release build

do build-r [--bleed] [--dev]
   Compile miscomp-issue release profile+features

   ARGS
      --bleed - Build with nightly compiler optimizations.
      --dev   - Build with dev profile and release features.

do run-r [--dev] [-- <APP-ARGS>]
   Compile and run the \"portable\" pack

   ARGS
      --dev   - Build with dev profile and release features.

do build-ndk [--platform API-LEVEL] [--target TRIPLE] [--release] [--dev]
   Compile miscomp-issue-mobile for Android using cargo-ndk

   Default --platform is the latest installed
   Default --target is all android targets installed
   Default profile is 'dev'

   ARGS
      --release - Build with release profile and features
      --dev     - Build with dev profile and release features

do update
   Update dependencies and localization from dependencies

do test-apk
   Runs the installed apk and checks its test prints on the device log

do help
   Prints this help

Any other command is passed to cargo.
";

/// The usage text; the arguments are ignored.
pub fn help(args: Vec<String>) -> (r: String)
    ensures
        r@ == USAGE@,
{
    owned(USAGE)
}

} // verus!
