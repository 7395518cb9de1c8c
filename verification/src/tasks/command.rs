//! The commands that the tasks run.

use crate::internal::text::texts;
use crate::tasks::release::SemverReleaseType;
use crate::tasks::version::Version;
use vstd::prelude::*;
use vstd::string::*;

verus! {

/// The package that the workspace publishes.
pub const PACKAGE_NAME: &'static str = "asyncband";

/// A command to run in the workspace.
#[derive(Debug)]
pub struct Invocation {
    /// The program, to be looked up on the search path.
    pub program: String,
    /// The arguments, in order.
    pub args: Vec<String>,
    /// A variable that is set for the command, and its value.
    pub env: Option<(String, String)>,
    /// A program that has to be there first, and the crate that installs it.
    pub tool: Option<(String, String)>,
}

/// What an [`Invocation`] amounts to.
#[verifier::ext_equal]
pub struct InvocationState {
    pub program: Seq<char>,
    pub args: Seq<Seq<char>>,
    pub env: Option<(Seq<char>, Seq<char>)>,
    pub tool: Option<(Seq<char>, Seq<char>)>,
}

/// What a pair of strings holds.
pub open spec fn pair_text(pair: Option<(String, String)>) -> Option<(Seq<char>, Seq<char>)> {
    match pair {
        Some((name, value)) => Some((name@, value@)),
        None => None,
    }
}

impl View for Invocation {
    type V = InvocationState;

    open spec fn view(&self) -> InvocationState {
        InvocationState {
            program: self.program@,
            args: texts(self.args@),
            env: pair_text(self.env),
            tool: pair_text(self.tool),
        }
    }
}

impl InvocationState {
    /// A run of `program` with these arguments.
    pub open spec fn of(program: Seq<char>, args: Seq<Seq<char>>) -> Self {
        InvocationState { program, args, env: None, tool: None }
    }

    /// A run of cargo with these arguments.
    pub open spec fn cargo(args: Seq<Seq<char>>) -> Self {
        Self::of("cargo"@, args)
    }

    /// The same with a variable set.
    pub open spec fn with_env(self, name: Seq<char>, value: Seq<char>) -> Self {
        InvocationState { env: Some((name, value)), ..self }
    }

    /// The same with a program that has to be there first.
    pub open spec fn needing(self, bin: Seq<char>, crate_name: Seq<char>) -> Self {
        InvocationState { tool: Some((bin, crate_name)), ..self }
    }
}

/// The commands that a series of invocations amounts to.
pub open spec fn commands(steps: Seq<Invocation>) -> Seq<InvocationState> {
    steps.map_values(|step: Invocation| step@)
}

/// The arguments that select `features`.
pub open spec fn feature_args(features: Seq<Seq<char>>) -> Seq<Seq<char>>
    decreases features.len(),
{
    if features.len() == 0 {
        Seq::empty()
    } else {
        feature_args(features.drop_last()).push("--features"@).push(features.last())
    }
}

/// Each feature is selected by two arguments, in the order in which the features are given: the
/// arguments alternate between the option and a feature.
pub proof fn features_are_selected_one_by_one(features: Seq<Seq<char>>)
    ensures
        feature_args(features).len() == 2 * features.len(),
        forall|k: int|
            0 <= k < 2 * features.len() ==> #[trigger] feature_args(features)[k] == if k % 2 == 0 {
                "--features"@
            } else {
                features[k / 2]
            },
    decreases features.len(),
{
    if features.len() > 0 {
        let fewer = features.drop_last();
        features_are_selected_one_by_one(fewer);
        assert forall|k: int| 0 <= k < 2 * features.len() implies #[trigger] feature_args(
            features,
        )[k] == if k % 2 == 0 {
            "--features"@
        } else {
            features[k / 2]
        } by {
            if k < 2 * fewer.len() {
                assert(feature_args(features)[k] == feature_args(fewer)[k]);
            }
        }
    }
}

/// The words, or none.
pub open spec fn words_if(condition: bool, words: Seq<Seq<char>>) -> Seq<Seq<char>> {
    if condition {
        words
    } else {
        Seq::empty()
    }
}

impl Invocation {
    /// A run of `program` without arguments.
    fn of(program: &str) -> (cmd: Self)
        ensures
            cmd@ == InvocationState::of(program@, Seq::empty()),
    {
        let cmd = Invocation {
            program: program.to_owned(),
            args: Vec::new(),
            env: None,
            tool: None,
        };
        assert(cmd@.args =~= Seq::<Seq<char>>::empty());
        cmd
    }

    /// Adds an argument.
    fn arg(self, word: &str) -> (cmd: Self)
        ensures
            cmd@ == (InvocationState { args: self@.args.push(word@), ..self@ }),
    {
        let mut args = self.args;
        args.push(word.to_owned());
        assert(texts(args@) =~= texts(self.args@).push(word@));
        Invocation { program: self.program, args, env: self.env, tool: self.tool }
    }

    /// Adds the arguments that select `features`.
    fn features(self, features: &Vec<String>) -> (cmd: Self)
        ensures
            cmd@ == (InvocationState {
                args: self@.args + feature_args(texts(features@)),
                ..self@
            }),
    {
        let ghost before = self@;
        let mut cmd = self;
        let mut i: usize = 0;
        assert(before.args + feature_args(texts(features@).take(0)) =~= before.args);
        while i < features.len()
            invariant
                i <= features.len(),
                cmd@ == (InvocationState {
                    args: before.args + feature_args(texts(features@).take(i as int)),
                    ..before
                }),
            decreases features.len() - i,
        {
            cmd = cmd.arg("--features").arg(features[i].as_str());
            proof {
                let taken = texts(features@).take(i + 1);
                assert(taken.drop_last() =~= texts(features@).take(i as int));
                assert(taken.last() == features[i as int]@);
                assert(cmd@.args =~= before.args + feature_args(taken));
            }
            i += 1;
        }
        assert(texts(features@).take(i as int) =~= texts(features@));
        cmd
    }

    /// Sets a variable.
    fn env(self, name: &str, value: &str) -> (cmd: Self)
        ensures
            cmd@ == self@.with_env(name@, value@),
    {
        Invocation {
            program: self.program,
            args: self.args,
            env: Some((name.to_owned(), value.to_owned())),
            tool: self.tool,
        }
    }

    /// Asks for a program to be there first.
    fn needing(self, bin: &str, crate_name: &str) -> (cmd: Self)
        ensures
            cmd@ == self@.needing(bin@, crate_name@),
    {
        Invocation {
            program: self.program,
            args: self.args,
            env: self.env,
            tool: Some((bin.to_owned(), crate_name.to_owned())),
        }
    }
}

/// The crate that installs a program which has to be there first.
pub open spec fn installing_crate(cmd: InvocationState) -> Seq<char> {
    match cmd.tool {
        Some((_, crate_name)) => crate_name,
        None => Seq::empty(),
    }
}

/// What has to run before `cmd` so that the program it needs is there: an installation where the
/// program was not found, nothing otherwise.
pub fn ensure_installed(cmd: &Invocation, found: bool) -> (step: Option<Invocation>)
    ensures
        match step {
            Some(step) => {
                &&& cmd.tool is Some
                &&& !found
                &&& step@ == InvocationState::cargo(seq!["install"@, installing_crate(cmd@)])
            },
            None => cmd.tool is None || found,
        },
{
    match &cmd.tool {
        Some((_, crate_name)) => if found {
            None
        } else {
            let step = Invocation::of("cargo").arg("install").arg(crate_name.as_str());
            assert(step@.args =~= seq!["install"@, installing_crate(cmd@)]);
            Some(step)
        },
        None => None,
    }
}

/// Runs the benchmarks of the workspace, or compiles them only.
pub fn make_bench_cmd(no_run: bool) -> (cmd: Invocation)
    ensures
        cmd@ == InvocationState::cargo(
            seq!["bench"@, "--workspace"@, "--all-features"@, "--bench"@, "*"@] + words_if(
                no_run,
                seq!["--no-run"@],
            ),
        ),
{
    let mut cmd = Invocation::of("cargo").arg("bench").arg("--workspace").arg("--all-features").arg(
        "--bench",
    ).arg("*");
    if no_run {
        cmd = cmd.arg("--no-run");
    }
    assert(cmd@.args =~= seq!["bench"@, "--workspace"@, "--all-features"@, "--bench"@, "*"@]
        + words_if(no_run, seq!["--no-run"@]));
    cmd
}

/// Compiles every target of the workspace.
pub fn make_build_cmd(locked: bool) -> (cmd: Invocation)
    ensures
        cmd@ == InvocationState::cargo(
            seq![
                "build"@,
                "--workspace"@,
                "--all-features"@,
                "--tests"@,
                "--examples"@,
                "--benches"@,
                "--bins"@,
            ] + words_if(locked, seq!["--locked"@]),
        ),
{
    let mut cmd = Invocation::of("cargo").arg("build").arg("--workspace").arg("--all-features").arg(
        "--tests",
    ).arg("--examples").arg("--benches").arg("--bins");
    if locked {
        cmd = cmd.arg("--locked");
    }
    assert(cmd@.args =~= seq![
        "build"@,
        "--workspace"@,
        "--all-features"@,
        "--tests"@,
        "--examples"@,
        "--benches"@,
        "--bins"@,
    ] + words_if(locked, seq!["--locked"@]));
    cmd
}

/// Runs the tests of the workspace with exactly these features.
pub fn make_test_cmd(no_capture: bool, features: &Vec<String>) -> (cmd: Invocation)
    ensures
        cmd@ == InvocationState::cargo(
            seq!["test"@, "--workspace"@, "--no-default-features"@] + feature_args(
                texts(features@),
            ) + words_if(no_capture, seq!["--"@, "--nocapture"@]),
        ),
        cmd@.args.len() == 3 + 2 * features@.len() + if no_capture {
            2int
        } else {
            0
        },
        forall|k: int|
            3 <= k < 3 + 2 * features@.len() ==> #[trigger] cmd@.args[k] == if k % 2 == 1 {
                "--features"@
            } else {
                features@[(k - 3) / 2]@
            },
{
    let mut cmd = Invocation::of("cargo").arg("test").arg("--workspace").arg(
        "--no-default-features",
    ).features(features);
    assert(cmd@.args =~= seq!["test"@, "--workspace"@, "--no-default-features"@] + feature_args(
        texts(features@),
    ));
    if no_capture {
        cmd = cmd.arg("--").arg("--nocapture");
    }
    assert(cmd@.args =~= seq!["test"@, "--workspace"@, "--no-default-features"@] + feature_args(
        texts(features@),
    ) + words_if(no_capture, seq!["--"@, "--nocapture"@]));
    proof {
        features_are_selected_one_by_one(texts(features@));
        assert forall|k: int| 3 <= k < 3 + 2 * features@.len() implies #[trigger] cmd@.args[k]
            == if k % 2 == 1 {
            "--features"@
        } else {
            features@[(k - 3) / 2]@
        } by {
            assert(cmd@.args[k] == feature_args(texts(features@))[k - 3]);
        }
    }
    cmd
}

/// The command that checks the package with exactly these features.
pub open spec fn check_command(features: Seq<Seq<char>>) -> InvocationState {
    InvocationState::cargo(
        seq![
            "+nightly"@,
            "check"@,
            "--package"@,
            PACKAGE_NAME@,
            "--all-targets"@,
            "--no-default-features"@,
        ] + feature_args(features),
    ).with_env("RUSTFLAGS"@, "-Dwarnings"@)
}

/// Checks the package with exactly these features, and without warnings.
pub fn make_check_cmd(features: &Vec<String>) -> (cmd: Invocation)
    ensures
        cmd@ == check_command(texts(features@)),
{
    let cmd = Invocation::of("cargo").env("RUSTFLAGS", "-Dwarnings").arg("+nightly").arg(
        "check",
    ).arg("--package").arg(PACKAGE_NAME).arg("--all-targets").arg("--no-default-features").features(
        features,
    );
    assert(cmd@.args =~= seq![
        "+nightly"@,
        "check"@,
        "--package"@,
        PACKAGE_NAME@,
        "--all-targets"@,
        "--no-default-features"@,
    ] + feature_args(texts(features@)));
    cmd
}

/// What the words of a slice hold.
pub open spec fn word_texts(words: Seq<&str>) -> Seq<Seq<char>> {
    words.map_values(|word: &str| word@)
}

/// The command that runs targets of `package` under Miri.
pub open spec fn miri_command(package: Seq<char>, target: Seq<Seq<char>>) -> InvocationState {
    InvocationState::cargo(
        seq!["+nightly"@, "miri"@, "test"@, "--package"@, package] + target,
    )
}

/// Runs targets of `package` under Miri.
pub fn make_miri_cmd(package: &str, target: &[&str]) -> (cmd: Invocation)
    ensures
        cmd@ == miri_command(package@, word_texts(target@)),
{
    let mut cmd = Invocation::of("cargo").arg("+nightly").arg("miri").arg("test").arg(
        "--package",
    ).arg(package);
    let ghost words = word_texts(target@);
    let mut i: usize = 0;
    assert(cmd@ =~= miri_command(package@, words.take(0)));
    while i < target.len()
        invariant
            i <= target@.len(),
            words == word_texts(target@),
            cmd@ == miri_command(package@, words.take(i as int)),
        decreases target@.len() - i,
    {
        cmd = cmd.arg(target[i]);
        assert(words.take(i + 1) =~= words.take(i as int).push(words[i as int]));
        assert(cmd@ =~= miri_command(package@, words.take(i + 1)));
        i += 1;
    }
    assert(words.take(i as int) =~= words);
    cmd
}

/// The command that formats the sources, or tells whether they are.
pub open spec fn format_command(fix: bool) -> InvocationState {
    InvocationState::cargo(
        seq!["+nightly"@, "fmt"@, "--all"@] + words_if(!fix, seq!["--check"@]),
    )
}

/// Formats the sources, or tells whether they are.
pub fn make_format_cmd(fix: bool) -> (cmd: Invocation)
    ensures
        cmd@ == format_command(fix),
{
    let mut cmd = Invocation::of("cargo").arg("+nightly").arg("fmt").arg("--all");
    if !fix {
        cmd = cmd.arg("--check");
    }
    assert(cmd@.args =~= seq!["+nightly"@, "fmt"@, "--all"@] + words_if(!fix, seq!["--check"@]));
    cmd
}

/// The command that lints the workspace, and applies what is suggested or rejects any warning.
pub open spec fn clippy_command(fix: bool) -> InvocationState {
    InvocationState::cargo(
        seq![
            "+nightly"@,
            "clippy"@,
            "--tests"@,
            "--all-features"@,
            "--all-targets"@,
            "--workspace"@,
        ] + if fix {
            seq!["--allow-staged"@, "--allow-dirty"@, "--fix"@]
        } else {
            seq!["--"@, "-D"@, "warnings"@]
        },
    )
}

/// Lints the workspace, and applies what is suggested or rejects any warning.
pub fn make_clippy_cmd(fix: bool) -> (cmd: Invocation)
    ensures
        cmd@ == clippy_command(fix),
{
    let mut cmd = Invocation::of("cargo").arg("+nightly").arg("clippy").arg("--tests").arg(
        "--all-features",
    ).arg("--all-targets").arg("--workspace");
    if fix {
        cmd = cmd.arg("--allow-staged").arg("--allow-dirty").arg("--fix");
    } else {
        cmd = cmd.arg("--").arg("-D").arg("warnings");
    }
    assert(cmd@.args =~= clippy_command(fix).args);
    cmd
}

/// The command that builds the documentation and rejects any warning.
pub open spec fn doc_command() -> InvocationState {
    InvocationState::cargo(
        seq!["+nightly"@, "doc"@, "--workspace"@, "--all-features"@, "--no-deps"@],
    ).with_env("RUSTDOCFLAGS"@, "-D warnings --cfg docsrs"@)
}

/// Builds the documentation and rejects any warning.
pub fn make_doc_cmd() -> (cmd: Invocation)
    ensures
        cmd@ == doc_command(),
{
    let cmd = Invocation::of("cargo").env("RUSTDOCFLAGS", "-D warnings --cfg docsrs").arg(
        "+nightly",
    ).arg("doc").arg("--workspace").arg("--all-features").arg("--no-deps");
    assert(cmd@.args =~= doc_command().args);
    cmd
}

/// The command that compares the public interface with that of `baseline`.
pub open spec fn semver_check_command(
    baseline: Seq<char>,
    release_type: Seq<char>,
) -> InvocationState {
    InvocationState::cargo(
        seq![
            "+stable"@,
            "semver-checks"@,
            "check-release"@,
            "--package"@,
            PACKAGE_NAME@,
            "--all-features"@,
            "--baseline-version"@,
            baseline,
            "--release-type"@,
            release_type,
        ],
    ).needing("cargo-semver-checks"@, "cargo-semver-checks"@)
}

/// Compares the public interface with that of `baseline_version`, by the rules for a release of
/// the given type.
pub fn make_semver_check_cmd(baseline_version: &Version, release_type: SemverReleaseType) -> (cmd:
    Invocation)
    ensures
        cmd@ == semver_check_command(baseline_version@.text(), release_type.name()),
{
    let cmd = Invocation::of("cargo").needing("cargo-semver-checks", "cargo-semver-checks").arg(
        "+stable",
    ).arg("semver-checks").arg("check-release").arg("--package").arg(PACKAGE_NAME).arg(
        "--all-features",
    ).arg("--baseline-version").arg(baseline_version.to_string().as_str()).arg("--release-type").arg(
        release_type.as_str(),
    );
    assert(cmd@.args =~= semver_check_command(
        baseline_version@.text(),
        release_type.name(),
    ).args);
    cmd
}

/// The command that checks the licence headers, or writes them.
pub open spec fn hawkeye_command(fix: bool) -> InvocationState {
    InvocationState::of(
        "hawkeye"@,
        seq![
            if fix {
                "format"@
            } else {
                "check"@
            },
        ],
    ).needing("hawkeye"@, "hawkeye"@)
}

/// Checks the licence headers, or writes them.
pub fn make_hawkeye_cmd(fix: bool) -> (cmd: Invocation)
    ensures
        cmd@ == hawkeye_command(fix),
{
    let mut cmd = Invocation::of("hawkeye").needing("hawkeye", "hawkeye");
    if fix {
        cmd = cmd.arg("format");
    } else {
        cmd = cmd.arg("check");
    }
    assert(cmd@.args =~= hawkeye_command(fix).args);
    cmd
}

/// The command that looks for misspellings.
pub open spec fn typos_command() -> InvocationState {
    InvocationState::of("typos"@, Seq::empty()).needing("typos"@, "typos-cli"@)
}

/// Looks for misspellings.
pub fn make_typos_cmd() -> (cmd: Invocation)
    ensures
        cmd@ == typos_command(),
{
    Invocation::of("typos").needing("typos", "typos-cli")
}

/// The command that formats the manifests, or tells whether they are.
pub open spec fn taplo_command(fix: bool) -> InvocationState {
    InvocationState::of("taplo"@, seq!["format"@] + words_if(!fix, seq!["--check"@])).needing(
        "taplo"@,
        "taplo-cli"@,
    )
}

/// Formats the manifests, or tells whether they are.
pub fn make_taplo_cmd(fix: bool) -> (cmd: Invocation)
    ensures
        cmd@ == taplo_command(fix),
{
    let mut cmd = Invocation::of("taplo").needing("taplo", "taplo-cli").arg("format");
    if !fix {
        cmd = cmd.arg("--check");
    }
    assert(cmd@.args =~= taplo_command(fix).args);
    cmd
}

} // verus!
