use asyncband::tasks::asyncband_features;
use asyncband::tasks::classify_release_type;
use asyncband::tasks::command::ensure_installed;
use asyncband::tasks::command::make_bench_cmd;
use asyncband::tasks::command::make_build_cmd;
use asyncband::tasks::command::make_check_cmd;
use asyncband::tasks::command::make_clippy_cmd;
use asyncband::tasks::command::make_doc_cmd;
use asyncband::tasks::command::make_format_cmd;
use asyncband::tasks::command::make_hawkeye_cmd;
use asyncband::tasks::command::make_miri_cmd;
use asyncband::tasks::command::make_semver_check_cmd;
use asyncband::tasks::command::make_taplo_cmd;
use asyncband::tasks::command::make_test_cmd;
use asyncband::tasks::command::make_typos_cmd;
use asyncband::tasks::features::Package;
use asyncband::tasks::find_latest_release;
use asyncband::tasks::release::CheckStatus;
use asyncband::tasks::release::CratesIoCrate;
use asyncband::tasks::release::LookupError;
use asyncband::tasks::release::RegistryReply;
use asyncband::tasks::release::SemverPlan;
use asyncband::tasks::release::SemverVerdict;
use asyncband::tasks::version::Precedence;
use asyncband::tasks::CommandBench;
use asyncband::tasks::CommandBuild;
use asyncband::tasks::CommandCheck;
use asyncband::tasks::CommandLint;
use asyncband::tasks::CommandMiri;
use asyncband::tasks::CommandSemver;
use asyncband::tasks::CommandTest;
use asyncband::tasks::Invocation;
use asyncband::tasks::SemverReleaseType;
use asyncband::tasks::Version;

fn names(list: &[&str]) -> Vec<String> {
    list.iter().map(|name| name.to_string()).collect()
}

/// A command as one line: variable, program and arguments.
fn line(cmd: &Invocation) -> String {
    let mut words = Vec::new();
    if let Some((name, value)) = &cmd.env {
        words.push(format!("{name}='{value}'"));
    }
    words.push(cmd.program.clone());
    words.extend(cmd.args.iter().cloned());
    words.join(" ")
}

fn lines(steps: &[Invocation]) -> Vec<String> {
    steps.iter().map(line).collect()
}

fn tool(cmd: &Invocation) -> Option<(&str, &str)> {
    cmd.tool.as_ref().map(|(bin, name)| (bin.as_str(), name.as_str()))
}

fn version(text: &str) -> Version {
    Version::parse(text).unwrap()
}

fn order(a: &str, b: &str) -> Precedence {
    version(a).precedence(&version(b))
}

fn known(max: &str, stable: Option<&str>) -> RegistryReply {
    RegistryReply::Known(CratesIoCrate {
        max_version: max.to_string(),
        max_stable_version: stable.map(str::to_string),
    })
}

fn command_semver(release: &str, acknowledge_breaking_changes: bool) -> CommandSemver {
    CommandSemver { release_version: version(release), acknowledge_breaking_changes }
}

#[test]
fn classify_release_types_with_cargo_pre_one_semantics() {
    let cases = [
        ("0.0.1", "0.0.2", SemverReleaseType::Major),
        ("0.6.5", "0.6.6", SemverReleaseType::Minor),
        ("0.6.5", "0.7.0", SemverReleaseType::Major),
        ("1.2.3", "1.2.4", SemverReleaseType::Patch),
        ("1.2.3", "1.3.0", SemverReleaseType::Minor),
        ("1.2.3", "2.0.0", SemverReleaseType::Major),
    ];

    for (baseline, release, expected) in cases {
        assert_eq!(
            classify_release_type(
                &Version::parse(baseline).unwrap(),
                &Version::parse(release).unwrap()
            ),
            expected
        );
    }
}

#[test]
fn audit_major_releases_with_minor_compatibility_rules() {
    assert_eq!(
        SemverReleaseType::Major.audit_release_type(),
        SemverReleaseType::Minor
    );
    assert_eq!(
        SemverReleaseType::Minor.audit_release_type(),
        SemverReleaseType::Minor
    );
    assert_eq!(
        SemverReleaseType::Patch.audit_release_type(),
        SemverReleaseType::Patch
    );
}

#[test]
fn a_release_of_a_prerelease_counts_as_major() {
    assert_eq!(
        classify_release_type(&version("1.2.3-rc.1"), &version("1.2.3")),
        SemverReleaseType::Major
    );
    assert_eq!(
        classify_release_type(&version("1.2.3-rc.1"), &version("1.2.3-rc.2")),
        SemverReleaseType::Major
    );
}

#[test]
fn release_types_have_names() {
    assert_eq!(SemverReleaseType::Major.as_str(), "major");
    assert_eq!(SemverReleaseType::Minor.as_str(), "minor");
    assert_eq!(SemverReleaseType::Patch.as_str(), "patch");
}

#[test]
fn versions_are_read_and_written_alike() {
    for text in [
        "0.0.0",
        "1.20.300",
        "18446744073709551615.0.18446744073709551615",
        "1.0.0-alpha.1",
        "1.0.0-0a.0.x-y",
        "1.0.0+build.007",
        "1.2.3--+-",
        "1.0.0-rc.1+20210327",
    ] {
        assert_eq!(version(text).to_string(), text);
    }
    let parsed = version("4.5.6-beta.2+meta");
    assert_eq!((parsed.major, parsed.minor, parsed.patch), (4, 5, 6));
    assert_eq!(parsed.pre, "beta.2");
    assert_eq!(parsed.build, "meta");
    let plain = Version::new(7, 8, 9);
    assert_eq!(plain.to_string(), "7.8.9");
    assert_eq!(plain.pre, "");
    assert_eq!(plain.build, "");
}

#[test]
fn texts_that_are_no_version_are_refused() {
    for text in [
        "",
        "1",
        "1.0",
        "1.0.01",
        "01.0.0",
        "1.0.0-",
        "1.0.0+",
        "1.0.0-01",
        "1.0.0-a..b",
        "1.0.0-a_b",
        "1.0.0 ",
        " 1.0.0",
        "1.0.0.0",
        "v1.0.0",
        "18446744073709551616.0.0",
        "1.0.0-é",
    ] {
        assert!(Version::parse(text).is_err(), "{text}");
    }
    assert_eq!(
        Version::parse("1.q.r").unwrap_err(),
        "unexpected character 'q' while parsing minor version number"
    );
    assert_eq!(
        Version::parse("").unwrap_err(),
        "empty string, expected a semver version"
    );
}

#[test]
fn versions_are_ordered_by_precedence() {
    assert_eq!(order("1.5.0", "1.19.0"), Precedence::Lower);
    assert_eq!(order("1.19.0", "1.5.0"), Precedence::Higher);
    assert_eq!(order("2.0.0", "1.9.9"), Precedence::Higher);
    assert_eq!(order("1.0.0", "1.0.1"), Precedence::Lower);
    assert_eq!(order("1.0.0-alpha.1", "1.0.0"), Precedence::Lower);
    assert_eq!(order("1.0.0", "1.0.0-alpha.1"), Precedence::Higher);
    assert_eq!(order("1.0.0-pre.8", "1.0.0-pre.12"), Precedence::Lower);
    assert_eq!(order("1.0.0-pre8", "1.0.0-pre12"), Precedence::Higher);
    assert_eq!(order("1.0.0-pre.1", "1.0.0-pre.x"), Precedence::Lower);
    assert_eq!(order("1.0.0-alpha", "1.0.0-alpha.1"), Precedence::Lower);
    assert_eq!(order("1.0.0+a", "1.0.0+b"), Precedence::Same);
    assert_eq!(order("1.0.0-rc.1+a", "1.0.0-rc.1"), Precedence::Same);
}

#[test]
fn the_last_release_is_the_highest_stable_one() {
    let latest = find_latest_release(known("2.0.0-rc.1", Some("1.9.0"))).unwrap().unwrap();
    assert_eq!(latest.to_string(), "1.9.0");
    let latest = find_latest_release(known("2.0.0-rc.1", None)).unwrap().unwrap();
    assert_eq!(latest.to_string(), "2.0.0-rc.1");
}

#[test]
fn an_unknown_crate_has_no_last_release() {
    let reply = RegistryReply::Status { code: 404, reason: "http status: 404".to_string() };
    assert!(find_latest_release(reply).unwrap().is_none());
}

#[test]
fn a_failed_lookup_keeps_its_reason() {
    let reply = RegistryReply::Status { code: 500, reason: "http status: 500".to_string() };
    assert!(matches!(
        find_latest_release(reply),
        Err(LookupError::Query { reason }) if reason == "http status: 500"
    ));
    let reply = RegistryReply::Failed { reason: "timeout: global".to_string() };
    assert!(matches!(
        find_latest_release(reply),
        Err(LookupError::Query { reason }) if reason == "timeout: global"
    ));
    let reply = RegistryReply::Undecodable { reason: "missing field".to_string() };
    assert!(matches!(
        find_latest_release(reply),
        Err(LookupError::Decode { reason }) if reason == "missing field"
    ));
    assert!(matches!(
        find_latest_release(known("1.0.0", Some("1.0"))),
        Err(LookupError::InvalidVersion { version, reason })
            if version == "1.0"
                && reason == "unexpected end of input while parsing minor version number"
    ));
}

#[test]
fn the_first_release_is_not_checked() {
    match command_semver("0.1.0", false).plan(None) {
        SemverPlan::Skip { notice } => assert_eq!(
            notice,
            "asyncband has not been published; skipping semver checks for the first release."
        ),
        other => panic!("unexpected plan {other:?}"),
    }
}

#[test]
fn a_release_has_to_come_after_the_last_one() {
    for release in ["0.8.0", "0.7.9", "0.8.0-rc.1", "0.8.0+new"] {
        match command_semver(release, false).plan(Some(&version("0.8.0"))) {
            SemverPlan::Refuse { reason } => assert_eq!(
                reason,
                format!("release version {release} must be greater than baseline 0.8.0")
            ),
            other => panic!("unexpected plan {other:?}"),
        }
    }
}

#[test]
fn an_acknowledgement_needs_a_major_release() {
    match command_semver("1.2.4", true).plan(Some(&version("1.2.3"))) {
        SemverPlan::Refuse { reason } => assert_eq!(
            reason,
            "--acknowledge-breaking-changes is only valid for a semver-major release"
        ),
        other => panic!("unexpected plan {other:?}"),
    }
    assert!(matches!(
        command_semver("2.0.0", true).plan(Some(&version("1.2.3"))),
        SemverPlan::Audit { .. }
    ));
}

#[test]
fn a_major_release_is_announced_and_audited_as_a_minor_one() {
    match command_semver("0.9.0", false).plan(Some(&version("0.8.0"))) {
        SemverPlan::Audit { release_type, notices, command } => {
            assert_eq!(release_type, SemverReleaseType::Major);
            assert_eq!(
                notices,
                names(&[
                    "Checking release 0.9.0 against asyncband@0.8.0 as a major release.",
                    "Auditing with minor compatibility rules so breaking API changes remain visible.",
                ])
            );
            assert_eq!(
                line(&command),
                "cargo +stable semver-checks check-release --package asyncband --all-features \
                 --baseline-version 0.8.0 --release-type minor"
            );
        }
        other => panic!("unexpected plan {other:?}"),
    }
    match command_semver("0.8.1", false).plan(Some(&version("0.8.0"))) {
        SemverPlan::Audit { release_type, notices, .. } => {
            assert_eq!(release_type, SemverReleaseType::Minor);
            assert_eq!(
                notices,
                names(&["Checking release 0.8.1 against asyncband@0.8.0 as a minor release."])
            );
        }
        other => panic!("unexpected plan {other:?}"),
    }
}

#[test]
fn the_outcome_of_the_check_decides_the_release() {
    let silent = command_semver("2.0.0", false);
    let acknowledged = command_semver("2.0.0", true);
    let passed = CheckStatus { success: true, code: Some(0) };
    let violations = CheckStatus { success: false, code: Some(100) };
    let broken = CheckStatus { success: false, code: Some(101) };
    let killed = CheckStatus { success: false, code: None };

    assert!(matches!(
        silent.conclude(SemverReleaseType::Major, &passed),
        SemverVerdict::Compatible
    ));
    assert!(matches!(
        silent.conclude(SemverReleaseType::Major, &violations),
        SemverVerdict::Unacknowledged { reason }
            if reason == "breaking API changes were reported; document and review them, then \
                          rerun with --acknowledge-breaking-changes"
    ));
    assert!(matches!(
        acknowledged.conclude(SemverReleaseType::Major, &violations),
        SemverVerdict::Acknowledged { notice }
            if notice == "The breaking API changes reported above are acknowledged for release \
                          2.0.0."
    ));
    assert!(matches!(
        silent.conclude(SemverReleaseType::Minor, &violations),
        SemverVerdict::Failed
    ));
    assert!(matches!(
        acknowledged.conclude(SemverReleaseType::Major, &broken),
        SemverVerdict::Failed
    ));
    assert!(matches!(
        acknowledged.conclude(SemverReleaseType::Major, &killed),
        SemverVerdict::Failed
    ));
}

#[test]
fn features_are_those_of_the_published_package_in_order() {
    let packages = vec![
        Package { name: "benchmarks".to_string(), features: names(&["z"]) },
        Package {
            name: "asyncband".to_string(),
            features: names(&["watch", "default", "Zeta", "broadcast", "once", "éclat"]),
        },
        Package { name: "asyncband".to_string(), features: names(&["other"]) },
    ];
    assert_eq!(
        asyncband_features(&packages).unwrap(),
        names(&["Zeta", "broadcast", "once", "watch", "éclat"])
    );
    assert!(asyncband_features(&vec![]).is_none());
    let packages = vec![Package { name: "xtask".to_string(), features: names(&["a"]) }];
    assert!(asyncband_features(&packages).is_none());
}

#[test]
fn single_commands_have_their_arguments() {
    assert_eq!(
        line(&make_bench_cmd(true)),
        "cargo bench --workspace --all-features --bench * --no-run"
    );
    assert_eq!(
        line(&make_build_cmd(false)),
        "cargo build --workspace --all-features --tests --examples --benches --bins"
    );
    assert_eq!(
        line(&make_test_cmd(true, &names(&["a", "b"]))),
        "cargo test --workspace --no-default-features --features a --features b -- --nocapture"
    );
    assert_eq!(
        line(&make_check_cmd(&names(&["a"]))),
        "RUSTFLAGS='-Dwarnings' cargo +nightly check --package asyncband --all-targets \
         --no-default-features --features a"
    );
    assert_eq!(
        line(&make_miri_cmd("p", &["--lib"])),
        "cargo +nightly miri test --package p --lib"
    );
    assert_eq!(line(&make_format_cmd(true)), "cargo +nightly fmt --all");
    assert_eq!(line(&make_format_cmd(false)), "cargo +nightly fmt --all --check");
    assert_eq!(
        line(&make_clippy_cmd(true)),
        "cargo +nightly clippy --tests --all-features --all-targets --workspace --allow-staged \
         --allow-dirty --fix"
    );
    assert_eq!(
        line(&make_clippy_cmd(false)),
        "cargo +nightly clippy --tests --all-features --all-targets --workspace -- -D warnings"
    );
    assert_eq!(
        line(&make_doc_cmd()),
        "RUSTDOCFLAGS='-D warnings --cfg docsrs' cargo +nightly doc --workspace --all-features \
         --no-deps"
    );
    assert_eq!(line(&make_hawkeye_cmd(true)), "hawkeye format");
    assert_eq!(line(&make_hawkeye_cmd(false)), "hawkeye check");
    assert_eq!(line(&make_typos_cmd()), "typos");
    assert_eq!(line(&make_taplo_cmd(true)), "taplo format");
    assert_eq!(line(&make_taplo_cmd(false)), "taplo format --check");
    assert_eq!(
        line(&make_semver_check_cmd(&version("0.8.0-rc.1"), SemverReleaseType::Patch)),
        "cargo +stable semver-checks check-release --package asyncband --all-features \
         --baseline-version 0.8.0-rc.1 --release-type patch"
    );
}

#[test]
fn tools_are_installed_where_they_are_missing() {
    assert_eq!(tool(&make_typos_cmd()), Some(("typos", "typos-cli")));
    assert_eq!(tool(&make_taplo_cmd(true)), Some(("taplo", "taplo-cli")));
    assert_eq!(tool(&make_hawkeye_cmd(true)), Some(("hawkeye", "hawkeye")));
    assert_eq!(
        tool(&make_semver_check_cmd(&version("1.0.0"), SemverReleaseType::Minor)),
        Some(("cargo-semver-checks", "cargo-semver-checks"))
    );
    assert_eq!(tool(&make_doc_cmd()), None);

    let step = ensure_installed(&make_typos_cmd(), false).unwrap();
    assert_eq!(line(&step), "cargo install typos-cli");
    assert!(ensure_installed(&make_typos_cmd(), true).is_none());
    assert!(ensure_installed(&make_doc_cmd(), false).is_none());
}

#[test]
fn tasks_are_series_of_commands() {
    assert_eq!(
        lines(&CommandBench { no_run: false }.run()),
        names(&["cargo bench --workspace --all-features --bench *"])
    );
    assert_eq!(
        lines(&CommandBuild { locked: true }.run()),
        names(&[
            "cargo build --workspace --all-features --tests --examples --benches --bins --locked"
        ])
    );
    assert_eq!(
        lines(&CommandTest { no_capture: false }.run(&names(&["a"]))),
        names(&["cargo test --workspace --no-default-features --features a"])
    );
    let check = "RUSTFLAGS='-Dwarnings' cargo +nightly check --package asyncband --all-targets \
                 --no-default-features";
    assert_eq!(
        lines(&CommandCheck.run(&names(&["a", "b"]))),
        vec![
            check.to_string(),
            format!("{check} --features a"),
            format!("{check} --features b"),
            format!("{check} --features a --features b"),
        ]
    );
    assert_eq!(
        lines(&CommandCheck.run(&vec![])),
        vec![check.to_string(), check.to_string()]
    );
    assert_eq!(
        lines(&CommandLint { fix: false }.run()),
        names(&[
            "cargo +nightly clippy --tests --all-features --all-targets --workspace -- -D warnings",
            "cargo +nightly fmt --all --check",
            "taplo format --check",
            "typos",
            "hawkeye check",
            "RUSTDOCFLAGS='-D warnings --cfg docsrs' cargo +nightly doc --workspace \
             --all-features --no-deps",
        ])
    );
    assert_eq!(
        lines(&CommandMiri.run()),
        names(&[
            "cargo +nightly miri test --package asyncband --lib --all-features",
            "cargo +nightly miri test --package tests-integration --test oneshot_test",
            "cargo +nightly miri test --package tests-integration --test unsafe_paths_test",
            "cargo +nightly miri test --package tests-integration --test mpsc_test",
            "cargo +nightly miri test --package tests-integration --test phaser_test",
            "cargo +nightly miri test --package tests-integration --test \
             broadcast_spmc_bounded_test",
        ])
    );
}
