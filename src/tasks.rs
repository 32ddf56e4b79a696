use vstd::prelude::*;
use crate::args::{
    ArgFault, ArgumentError, FlagSpec, Parsed, SEPARATOR, names_of, parse, split_args, takes_of,
};
use crate::cli::CARGO;
use crate::plan::{Invocation, joined, owned};
use crate::text::{contains, contains_str, lemma_views_push, same_text, views};

verus! {

/// Appended to `RUSTFLAGS` for a nightly desktop build.
pub const BLEED_RUSTFLAGS: &'static str = " -Z share-generics -C link-args=-znostart-stop-gc";

/// Appended to `RUSTFLAGS` for the mobile build, which its linker needs.
pub const NDK_RUSTFLAGS: &'static str = " -Clink-arg=-z -Clink-arg=nostart-stop-gc";

/// What marks an installed target as a mobile one.
pub const ANDROID_MARK: &'static str = "-android";

/// Appends flag `f` to `v`.
fn declare(v: &mut Vec<FlagSpec>, f: FlagSpec)
    ensures
        names_of(final(v)@) == names_of(old(v)@).push(f.name@),
        takes_of(final(v)@) == takes_of(old(v)@).push(f.takes_value),
{
    let ghost before = v@;
    v.push(f);
    assert(names_of(v@) =~= names_of(before).push(f.name@));
    assert(takes_of(v@) =~= takes_of(before).push(f.takes_value));
}

/// Appends a copy of `s` to `v`.
fn push_copy(v: &mut Vec<String>, s: &String)
    ensures
        views(final(v)@) == views(old(v)@).push(s@),
{
    let c = s.clone();
    proof {
        lemma_views_push(v@, c);
    }
    v.push(c);
}

// ---- build-r ----

pub open spec fn build_r_names() -> Seq<Seq<char>> {
    seq!["--bleed"@, "--dev"@]
}

pub open spec fn build_r_takes() -> Seq<bool> {
    seq![false, false]
}

/// The toolchain arguments of a desktop build.
pub open spec fn build_r_args(bleed: bool, dev: bool, rest: Seq<Seq<char>>) -> Seq<Seq<char>> {
    (if bleed {
        seq!["+nightly"@]
    } else {
        Seq::empty()
    }) + seq![
        "build"@,
        if dev {
            "--profile=dev"@
        } else {
            "--profile=release"@
        },
        "--no-default-features"@,
        "--features=release"@,
        "--package"@,
        "miscomp-issue"@,
    ] + rest
}

/// Plans the desktop build. `rustflags` is the inherited `RUSTFLAGS`
/// (empty when unset); `--bleed` appends the nightly flags to it.
pub fn build_r(args: Vec<String>, rustflags: &str) -> (r: Result<Invocation, ArgumentError>)
    ensures
        match r {
            Ok(c) => parse(views(args@), 0, build_r_names(), build_r_takes(), true, true) matches Ok(
                p,
            ) && c.program@ == CARGO@ && c.args_view() == build_r_args(
                p.present[0],
                p.present[1],
                p.rest,
            ) && c.env_view() == (if p.present[0] {
                seq![("RUSTFLAGS"@, rustflags@ + BLEED_RUSTFLAGS@)]
            } else {
                Seq::empty()
            }),
            Err(e) => parse(views(args@), 0, build_r_names(), build_r_takes(), true, true) == Err::<
                Parsed,
                ArgFault,
            >(e.fault()),
        },
{
    let mut flags: Vec<FlagSpec> = Vec::new();
    declare(&mut flags, FlagSpec::boolean("--bleed"));
    declare(&mut flags, FlagSpec::boolean("--dev"));
    assert(names_of(flags@) =~= build_r_names());
    assert(takes_of(flags@) =~= build_r_takes());
    let p = match split_args(&args, 0, &flags, true, true) {
        Ok(p) => p,
        Err(e) => {
            return Err(e);
        },
    };
    let bleed = p.present[0];
    let dev = p.present[1];
    let mut c = Invocation::new(CARGO);
    if bleed {
        c.arg("+nightly");
    }
    c.arg("build");
    if dev {
        c.arg("--profile=dev");
    } else {
        c.arg("--profile=release");
    }
    c.arg("--no-default-features");
    c.arg("--features=release");
    c.arg("--package");
    c.arg("miscomp-issue");
    c.args(&p.rest);
    assert(c.args_view() =~= build_r_args(bleed, dev, p@.rest));
    if bleed {
        c.env("RUSTFLAGS", joined(rustflags, BLEED_RUSTFLAGS));
        assert(c.env_view() =~= seq![("RUSTFLAGS"@, rustflags@ + BLEED_RUSTFLAGS@)]);
    } else {
        assert(c.env_view() =~= Seq::empty());
    }
    Ok(c)
}

// ---- run-r ----

/// Index of the first `--` in `toks` from `i` on, or its length.
pub open spec fn separator_at(toks: Seq<Seq<char>>, i: int) -> int
    decreases toks.len() - i,
{
    if i < 0 || i >= toks.len() {
        toks.len() as int
    } else if toks[i] == SEPARATOR@ {
        i
    } else {
        separator_at(toks, i + 1)
    }
}

/// Where the program's packaged executable lands, for executable suffix `suffix`.
pub open spec fn portable_path(suffix: Seq<char>) -> Seq<char> {
    "target/pack/portable/miscomp-issue"@ + suffix
}

/// The two steps of `run-r`: package "portable" with `pack_args`, then run.
pub struct RunPlan {
    pub pack_args: Vec<String>,
    pub run: Invocation,
}

/// Plans `run-r`: the tokens before the first `--` go to packaging, after
/// the package name "portable"; those after it go, in order, to the program.
pub fn run_r(args: Vec<String>, exe_suffix: &str) -> (r: RunPlan)
    ensures
        ({
            let toks = views(args@);
            let s = separator_at(toks, 0);
            &&& views(r.pack_args@) == seq!["portable"@] + toks.subrange(0, s)
            &&& r.run.program@ == portable_path(exe_suffix@)
            &&& r.run.args_view() == (if s < toks.len() {
                toks.subrange(s + 1, toks.len() as int)
            } else {
                Seq::empty()
            })
            &&& r.run.env@.len() == 0
        }),
{
    let ghost toks = views(args@);
    let n = args.len();
    let mut pack_args: Vec<String> = Vec::new();
    push_copy(&mut pack_args, &owned("portable"));
    let mut i: usize = 0;
    while i < n && !same_text(args[i].as_str(), SEPARATOR)
        invariant
            n == args@.len(),
            i <= n,
            toks == views(args@),
            separator_at(toks, 0) == separator_at(toks, i as int),
            views(pack_args@) == seq!["portable"@] + toks.subrange(0, i as int),
        decreases n - i,
    {
        push_copy(&mut pack_args, &args[i]);
        assert(views(pack_args@) =~= seq!["portable"@] + toks.subrange(0, i + 1));
        i = i + 1;
    }
    let path = joined("target/pack/portable/miscomp-issue", exe_suffix);
    let mut run = Invocation { program: path, args: Vec::new(), env: Vec::new() };
    if i < n {
        let mut q: usize = i + 1;
        assert(run.args_view() =~= toks.subrange(i + 1, q as int));
        while q < n
            invariant
                n == args@.len(),
                i < q <= n,
                toks == views(args@),
                run.program@ == portable_path(exe_suffix@),
                run.env@.len() == 0,
                run.args_view() == toks.subrange(i + 1, q as int),
            decreases n - q,
        {
            run.arg(args[q].as_str());
            assert(run.args_view() =~= toks.subrange(i + 1, q + 1));
            q = q + 1;
        }
    } else {
        assert(run.args_view() =~= Seq::<Seq<char>>::empty());
    }
    RunPlan { pack_args, run }
}

// ---- pack ----

pub open spec fn pack_names() -> Seq<Seq<char>> {
    seq!["--no-build"@]
}

pub open spec fn pack_takes() -> Seq<bool> {
    seq![false]
}

/// The build that precedes packaging.
#[derive(Clone, Copy, Debug, PartialEq, Eq, Structural)]
pub enum PackBuild {
    /// `--no-build` was given.
    Skip,
    /// The desktop release build, `build-r` with no arguments.
    Desktop,
    /// The mobile release build, `build-ndk --release`.
    Android,
}

/// The build step and the packaging call of `pack`.
pub struct PackPlan {
    pub build: PackBuild,
    pub pack: Invocation,
}

/// The packaging tool's arguments for package `pkg`.
pub open spec fn pack_args(pkg: Seq<char>, rest: Seq<Seq<char>>) -> Seq<Seq<char>> {
    seq![
        "zng"@,
        "res"@,
        "--metadata"@,
        "crates/miscomp-issue-mobile/Cargo.toml"@,
        "pack/"@ + pkg,
        "target/pack/"@ + pkg,
        "--pack"@,
    ] + rest
}

/// The environment overlay of packaging: the built executable's path, and
/// for the "deb" package the dependency list when one is given.
pub open spec fn pack_env(pkg: Seq<char>, exe: Seq<char>, deb_depends: Option<Seq<char>>) -> Seq<
    (Seq<char>, Seq<char>),
> {
    seq![("DO_PACK_EXE"@, exe)] + (if pkg == "deb"@ && deb_depends is Some {
        seq![("DO_PACK_DEB_DEPENDS"@, deb_depends.unwrap())]
    } else {
        Seq::empty()
    })
}

/// The view of an optional string.
pub open spec fn opt_view(o: Option<String>) -> Option<Seq<char>> {
    match o {
        Some(s) => Some(s@),
        None => None,
    }
}

/// Plans `pack <PACKAGE> [--no-build]`. `exe` is the absolute path of the
/// built executable; `deb_depends` the dependency list of the "deb" package.
pub fn pack(args: Vec<String>, exe: &str, deb_depends: Option<String>) -> (r: Result<
    PackPlan,
    ArgumentError,
>)
    ensures
        match r {
            Ok(plan) => parse(views(args@), 1, pack_names(), pack_takes(), false, true) matches Ok(
                p,
            ) && plan.build == (if p.present[0] {
                PackBuild::Skip
            } else if p.pos[0] == "android"@ {
                PackBuild::Android
            } else {
                PackBuild::Desktop
            }) && plan.pack.program@ == CARGO@ && plan.pack.args_view() == pack_args(
                p.pos[0],
                p.rest,
            ) && plan.pack.env_view() == pack_env(p.pos[0], exe@, opt_view(deb_depends)),
            Err(e) => parse(views(args@), 1, pack_names(), pack_takes(), false, true) == Err::<
                Parsed,
                ArgFault,
            >(e.fault()),
        },
{
    let mut flags: Vec<FlagSpec> = Vec::new();
    declare(&mut flags, FlagSpec::boolean("--no-build"));
    assert(names_of(flags@) =~= pack_names());
    assert(takes_of(flags@) =~= pack_takes());
    let p = match split_args(&args, 1, &flags, false, true) {
        Ok(p) => p,
        Err(e) => {
            return Err(e);
        },
    };
    assert(p@.pos.len() == 1);
    let pkg = p.positional[0].as_str();
    let build = if p.present[0] {
        PackBuild::Skip
    } else if same_text(pkg, "android") {
        PackBuild::Android
    } else {
        PackBuild::Desktop
    };
    let mut c = Invocation::new(CARGO);
    c.arg("zng");
    c.arg("res");
    c.arg("--metadata");
    c.arg("crates/miscomp-issue-mobile/Cargo.toml");
    c.arg(joined("pack/", pkg).as_str());
    c.arg(joined("target/pack/", pkg).as_str());
    c.arg("--pack");
    c.args(&p.rest);
    assert(c.args_view() =~= pack_args(pkg@, p@.rest));
    c.env("DO_PACK_EXE", owned(exe));
    if same_text(pkg, "deb") {
        match deb_depends {
            Some(d) => {
                c.env("DO_PACK_DEB_DEPENDS", d);
            },
            None => {},
        }
    }
    assert(c.env_view() =~= pack_env(pkg@, exe@, opt_view(deb_depends)));
    Ok(PackPlan { build, pack: c })
}

// ---- build-ndk ----

pub open spec fn ndk_names() -> Seq<Seq<char>> {
    seq!["--release"@, "--dev"@, "--platform"@, "--target"@]
}

pub open spec fn ndk_takes() -> Seq<bool> {
    seq![false, false, true, true]
}

/// The installed targets, in order, that are mobile ones.
pub open spec fn android_of(lines: Seq<Seq<char>>) -> Seq<Seq<char>>
    decreases lines.len(),
{
    if lines.len() == 0 {
        Seq::empty()
    } else {
        android_of(lines.drop_last()) + (if contains(lines.last(), ANDROID_MARK@) {
            seq![lines.last()]
        } else {
            Seq::empty()
        })
    }
}

/// `--target t` for each of `ts`, in order.
pub open spec fn target_flags(ts: Seq<Seq<char>>) -> Seq<Seq<char>>
    decreases ts.len(),
{
    if ts.len() == 0 {
        Seq::empty()
    } else {
        target_flags(ts.drop_last()) + seq!["--target"@, ts.last()]
    }
}

/// The mobile targets among the lines of the installed-target listing.
pub fn android_targets(lines: &Vec<String>) -> (r: Vec<String>)
    ensures
        views(r@) == android_of(views(lines@)),
{
    let ghost ls = views(lines@);
    let mut out: Vec<String> = Vec::new();
    let mut k: usize = 0;
    while k < lines.len()
        invariant
            k <= lines@.len(),
            ls == views(lines@),
            views(out@) == android_of(ls.subrange(0, k as int)),
        decreases lines.len() - k,
    {
        assert(ls.subrange(0, k + 1).drop_last() =~= ls.subrange(0, k as int));
        assert(ls.subrange(0, k + 1).last() == lines@[k as int]@);
        if contains_str(lines[k].as_str(), ANDROID_MARK) {
            push_copy(&mut out, &lines[k]);
        } else {
            assert(views(out@) =~= android_of(ls.subrange(0, k + 1)));
        }
        k = k + 1;
    }
    assert(ls.subrange(0, k as int) =~= ls);
    out
}

/// Why a mobile build cannot be planned.
#[derive(Clone, Debug, PartialEq, Eq)]
pub enum NdkError {
    Args(ArgumentError),
    /// No target was given and no mobile target is installed.
    NoAndroidTarget,
}

/// The next step of planning a mobile build.
pub enum NdkStep {
    /// No target was given: list the installed targets and plan again with
    /// the listing's lines.
    QueryTargets,
    Run(Invocation),
}

/// The profile arguments of a mobile build.
pub open spec fn ndk_profile(release: bool, dev: bool) -> Seq<Seq<char>> {
    if release {
        seq!["--release"@, "--no-default-features"@, "--features=release"@]
    } else if dev {
        seq!["--no-default-features"@, "--features=release"@]
    } else {
        Seq::empty()
    }
}

/// The toolchain arguments of a mobile build into `out`, for `targets`.
pub open spec fn ndk_args(p: Parsed, out: Seq<char>, targets: Seq<Seq<char>>) -> Seq<Seq<char>> {
    seq!["ndk"@, "--manifest-path"@, "crates/miscomp-issue-mobile/Cargo.toml"@, "--output-dir"@, out]
        + (if p.values[2].len() > 0 {
        seq!["--platform"@, p.values[2][0]]
    } else {
        Seq::empty()
    }) + target_flags(targets) + seq!["build"@] + ndk_profile(p.present[0], p.present[1])
        + p.rest
}

/// The view of an optional list of strings.
pub open spec fn opt_views(o: Option<&Vec<String>>) -> Option<Seq<Seq<char>>> {
    match o {
        Some(v) => Some(views(v@)),
        None => None,
    }
}

/// Appends `--target t` to `c` for each of `ts`.
fn add_targets(c: &mut Invocation, ts: &Vec<String>)
    ensures
        final(c).program == old(c).program,
        final(c).env == old(c).env,
        final(c).args_view() == old(c).args_view() + target_flags(views(ts@)),
{
    let ghost start = c.args_view();
    let ghost tv = views(ts@);
    let mut k: usize = 0;
    assert(tv.subrange(0, 0) =~= Seq::<Seq<char>>::empty());
    assert(start + target_flags(tv.subrange(0, 0)) =~= start);
    while k < ts.len()
        invariant
            k <= ts@.len(),
            tv == views(ts@),
            c.program == old(c).program,
            c.env == old(c).env,
            start == old(c).args_view(),
            c.args_view() == start + target_flags(tv.subrange(0, k as int)),
        decreases ts.len() - k,
    {
        assert(tv.subrange(0, k + 1).drop_last() =~= tv.subrange(0, k as int));
        assert(tv.subrange(0, k + 1).last() == ts@[k as int]@);
        c.arg("--target");
        c.arg(ts[k].as_str());
        assert(c.args_view() =~= start + target_flags(tv.subrange(0, k + 1)));
        k = k + 1;
    }
    assert(tv.subrange(0, k as int) =~= tv);
}

/// Plans `build-ndk`. `out` is the absolute output directory, `rustflags` the
/// inherited `RUSTFLAGS`, `installed` the lines of the installed-target
/// listing once it has been asked for.
pub fn build_ndk(args: Vec<String>, out: &str, rustflags: &str, installed: Option<&Vec<String>>) -> (r:
    Result<NdkStep, NdkError>)
    ensures
        ({
            let parsed = parse(views(args@), 0, ndk_names(), ndk_takes(), false, true);
            match r {
                Err(NdkError::Args(e)) => parsed == Err::<Parsed, ArgFault>(e.fault()),
                Err(NdkError::NoAndroidTarget) => parsed matches Ok(p) && p.values[3].len() == 0
                    && installed is Some && android_of(opt_views(installed).unwrap()).len() == 0,
                Ok(NdkStep::QueryTargets) => parsed matches Ok(p) && p.values[3].len() == 0
                    && installed is None,
                Ok(NdkStep::Run(c)) => parsed matches Ok(p) && c.program@ == CARGO@
                    && c.env_view() == seq![("RUSTFLAGS"@, rustflags@ + NDK_RUSTFLAGS@)]
                    && c.args_view() == ndk_args(
                    p,
                    out@,
                    if p.values[3].len() > 0 {
                        p.values[3]
                    } else {
                        android_of(opt_views(installed).unwrap())
                    },
                ) && (p.values[3].len() == 0 ==> installed is Some && android_of(
                    opt_views(installed).unwrap(),
                ).len() > 0),
            }
        }),
{
    let mut flags: Vec<FlagSpec> = Vec::new();
    declare(&mut flags, FlagSpec::boolean("--release"));
    declare(&mut flags, FlagSpec::boolean("--dev"));
    declare(&mut flags, FlagSpec::valued("--platform"));
    declare(&mut flags, FlagSpec::valued("--target"));
    assert(names_of(flags@) =~= ndk_names());
    assert(takes_of(flags@) =~= ndk_takes());
    let p = match split_args(&args, 0, &flags, false, true) {
        Ok(p) => p,
        Err(e) => {
            return Err(NdkError::Args(e));
        },
    };
    assert(p@.values[2] == views(p.values@[2]@));
    assert(p@.values[3] == views(p.values@[3]@));
    let found: Vec<String>;
    let targets: &Vec<String> = if p.values[3].len() > 0 {
        &p.values[3]
    } else {
        match installed {
            None => {
                return Ok(NdkStep::QueryTargets);
            },
            Some(lines) => {
                found = android_targets(lines);
                if found.len() == 0 {
                    return Err(NdkError::NoAndroidTarget);
                }
                &found
            },
        }
    };
    let mut c = Invocation::new(CARGO);
    c.arg("ndk");
    c.arg("--manifest-path");
    c.arg("crates/miscomp-issue-mobile/Cargo.toml");
    c.arg("--output-dir");
    c.arg(out);
    if p.values[2].len() > 0 {
        c.arg("--platform");
        c.arg(p.values[2][0].as_str());
    }
    add_targets(&mut c, targets);
    c.arg("build");
    if p.present[0] {
        c.arg("--release");
        c.arg("--no-default-features");
        c.arg("--features=release");
    } else if p.present[1] {
        c.arg("--no-default-features");
        c.arg("--features=release");
    }
    c.args(&p.rest);
    assert(c.args_view() =~= ndk_args(p@, out@, views(targets@)));
    c.env("RUSTFLAGS", joined(rustflags, NDK_RUSTFLAGS));
    assert(c.env_view() =~= seq![("RUSTFLAGS"@, rustflags@ + NDK_RUSTFLAGS@)]);
    Ok(NdkStep::Run(c))
}

} // verus!
