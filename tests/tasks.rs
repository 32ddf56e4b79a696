use cargo_do::args::ArgumentError;
use cargo_do::plan::Invocation;
use cargo_do::tasks::{
    android_targets, build_ndk, build_r, pack, run_r, NdkError, NdkStep, PackBuild,
};

fn toks(v: &[&str]) -> Vec<String> {
    v.iter().map(|s| s.to_string()).collect()
}

fn env_of(c: &Invocation) -> Vec<(String, String)> {
    c.env.iter().map(|e| (e.name.clone(), e.value.clone())).collect()
}

#[test]
fn build_r_release() {
    let c = build_r(toks(&["-v"]), "").unwrap();
    assert_eq!(c.program, "cargo");
    assert_eq!(
        c.args,
        toks(&["build", "--profile=release", "--no-default-features", "--features=release", "--package", "miscomp-issue", "-v"])
    );
    assert!(c.env.is_empty());
}

#[test]
fn build_r_bleed_dev_appends_rustflags() {
    let c = build_r(toks(&["--dev", "--bleed"]), "-Copt").unwrap();
    assert_eq!(
        c.args,
        toks(&["+nightly", "build", "--profile=dev", "--no-default-features", "--features=release", "--package", "miscomp-issue"])
    );
    assert_eq!(
        env_of(&c),
        vec![("RUSTFLAGS".to_string(), "-Copt -Z share-generics -C link-args=-znostart-stop-gc".to_string())]
    );
}

#[test]
fn build_r_refuses_unknown_flag() {
    let r = build_r(toks(&["--fast"]), "");
    assert_eq!(r.err(), Some(ArgumentError::UnknownFlag("--fast".to_string())));
}

#[test]
fn run_r_splits_at_separator() {
    let p = run_r(toks(&["--dev", "--", "a", "--b"]), ".exe");
    assert_eq!(p.pack_args, toks(&["portable", "--dev"]));
    assert_eq!(p.run.program, "target/pack/portable/miscomp-issue.exe");
    assert_eq!(p.run.args, toks(&["a", "--b"]));
    let p = run_r(toks(&["--dev"]), "");
    assert_eq!(p.pack_args, toks(&["portable", "--dev"]));
    assert_eq!(p.run.program, "target/pack/portable/miscomp-issue");
    assert!(p.run.args.is_empty());
}

#[test]
fn pack_desktop_with_build() {
    let p = pack(toks(&["portable", "--x"]), "/w/target/release/miscomp-issue", None).unwrap();
    assert_eq!(p.build, PackBuild::Desktop);
    assert_eq!(
        p.pack.args,
        toks(&["zng", "res", "--metadata", "crates/miscomp-issue-mobile/Cargo.toml", "pack/portable", "target/pack/portable", "--pack", "--x"])
    );
    assert_eq!(env_of(&p.pack), vec![("DO_PACK_EXE".to_string(), "/w/target/release/miscomp-issue".to_string())]);
}

#[test]
fn pack_android_and_no_build() {
    let p = pack(toks(&["android"]), "/e", None).unwrap();
    assert_eq!(p.build, PackBuild::Android);
    let p = pack(toks(&["android", "--no-build"]), "/e", None).unwrap();
    assert_eq!(p.build, PackBuild::Skip);
}

#[test]
fn pack_deb_gets_depends() {
    let p = pack(toks(&["deb"]), "/e", Some("libc6".to_string())).unwrap();
    assert_eq!(
        env_of(&p.pack),
        vec![
            ("DO_PACK_EXE".to_string(), "/e".to_string()),
            ("DO_PACK_DEB_DEPENDS".to_string(), "libc6".to_string())
        ]
    );
    let p = pack(toks(&["portable"]), "/e", Some("libc6".to_string())).unwrap();
    assert_eq!(env_of(&p.pack).len(), 1);
}

#[test]
fn pack_needs_package() {
    assert_eq!(pack(Vec::new(), "/e", None).err(), Some(ArgumentError::MissingPositional));
    assert_eq!(pack(toks(&["--no-build"]), "/e", None).err(), Some(ArgumentError::MissingPositional));
}

#[test]
fn android_target_filter() {
    let lines = toks(&["aarch64-linux-android", "x86_64-unknown-linux-gnu", "armv7-linux-androideabi"]);
    assert_eq!(android_targets(&lines), toks(&["aarch64-linux-android", "armv7-linux-androideabi"]));
    assert!(android_targets(&toks(&["wasm32-unknown-unknown"])).is_empty());
}

#[test]
fn build_ndk_with_targets() {
    let r = build_ndk(
        toks(&["--release", "--platform", "30", "--target", "a-android", "--target", "b", "-v"]),
        "/w/target/build-ndk",
        "",
        None,
    );
    let c = match r {
        Ok(NdkStep::Run(c)) => c,
        _ => panic!("expected a run"),
    };
    assert_eq!(
        c.args,
        toks(&[
            "ndk", "--manifest-path", "crates/miscomp-issue-mobile/Cargo.toml", "--output-dir", "/w/target/build-ndk",
            "--platform", "30", "--target", "a-android", "--target", "b", "build", "--release",
            "--no-default-features", "--features=release", "-v"
        ])
    );
    assert_eq!(
        env_of(&c),
        vec![("RUSTFLAGS".to_string(), " -Clink-arg=-z -Clink-arg=nostart-stop-gc".to_string())]
    );
}

#[test]
fn build_ndk_queries_installed_targets() {
    assert!(matches!(build_ndk(toks(&["--dev"]), "/o", "", None), Ok(NdkStep::QueryTargets)));
    let installed = toks(&["aarch64-linux-android", "x86_64-unknown-linux-gnu"]);
    let c = match build_ndk(toks(&["--dev"]), "/o", "-g", Some(&installed)) {
        Ok(NdkStep::Run(c)) => c,
        _ => panic!("expected a run"),
    };
    assert_eq!(
        c.args,
        toks(&[
            "ndk", "--manifest-path", "crates/miscomp-issue-mobile/Cargo.toml", "--output-dir", "/o",
            "--target", "aarch64-linux-android", "build", "--no-default-features", "--features=release"
        ])
    );
    let none = toks(&["x86_64-unknown-linux-gnu"]);
    assert!(matches!(build_ndk(Vec::new(), "/o", "", Some(&none)), Err(NdkError::NoAndroidTarget)));
    assert!(matches!(
        build_ndk(toks(&["--platform"]), "/o", "", None),
        Err(NdkError::Args(ArgumentError::MissingValue(_)))
    ));
}
