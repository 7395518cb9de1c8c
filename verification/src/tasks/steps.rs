//! The tasks that are a fixed series of commands. Each command runs once the one before it has
//! succeeded.

use crate::internal::text::texts;
use crate::tasks::command::check_command;
use crate::tasks::command::clippy_command;
use crate::tasks::command::commands;
use crate::tasks::command::doc_command;
use crate::tasks::command::feature_args;
use crate::tasks::command::format_command;
use crate::tasks::command::hawkeye_command;
use crate::tasks::command::make_bench_cmd;
use crate::tasks::command::make_build_cmd;
use crate::tasks::command::make_check_cmd;
use crate::tasks::command::make_clippy_cmd;
use crate::tasks::command::make_doc_cmd;
use crate::tasks::command::make_format_cmd;
use crate::tasks::command::make_hawkeye_cmd;
use crate::tasks::command::make_miri_cmd;
use crate::tasks::command::make_taplo_cmd;
use crate::tasks::command::make_test_cmd;
use crate::tasks::command::make_typos_cmd;
use crate::tasks::command::miri_command;
use crate::tasks::command::taplo_command;
use crate::tasks::command::typos_command;
use crate::tasks::command::words_if;
use crate::tasks::command::Invocation;
use crate::tasks::command::InvocationState;
use crate::tasks::command::PACKAGE_NAME;
use vstd::prelude::*;

verus! {

/// Run the benchmarks of the workspace.
pub struct CommandBench {
    /// Compile the benchmarks without running them.
    pub no_run: bool,
}

/// Compile the packages of the workspace.
pub struct CommandBuild {
    /// Assert that the lock file will remain unchanged.
    pub locked: bool,
}

/// Check the package under the feature matrix.
pub struct CommandCheck;

/// Run the quality checks of the workspace.
pub struct CommandLint {
    /// Apply what is suggested.
    pub fix: bool,
}

/// Check memory safety with Miri.
pub struct CommandMiri;

/// Run the tests of the workspace.
pub struct CommandTest {
    /// Do not capture test output.
    pub no_capture: bool,
}

/// The commands that check the package without features, with each feature alone and with all of
/// them.
pub open spec fn feature_matrix(features: Seq<Seq<char>>) -> Seq<InvocationState> {
    seq![check_command(Seq::empty())] + Seq::new(
        features.len(),
        |i: int| check_command(seq![features[i]]),
    ) + seq![check_command(features)]
}

impl CommandBench {
    /// The commands of the task.
    pub fn run(&self) -> (steps: Vec<Invocation>)
        ensures
            commands(steps@) == seq![
                InvocationState::cargo(
                    seq!["bench"@, "--workspace"@, "--all-features"@, "--bench"@, "*"@] + words_if(
                        self.no_run,
                        seq!["--no-run"@],
                    ),
                ),
            ],
    {
        let mut steps: Vec<Invocation> = Vec::new();
        steps.push(make_bench_cmd(self.no_run));
        steps
    }
}

impl CommandBuild {
    /// The commands of the task.
    pub fn run(&self) -> (steps: Vec<Invocation>)
        ensures
            commands(steps@) == seq![
                InvocationState::cargo(
                    seq![
                        "build"@,
                        "--workspace"@,
                        "--all-features"@,
                        "--tests"@,
                        "--examples"@,
                        "--benches"@,
                        "--bins"@,
                    ] + words_if(self.locked, seq!["--locked"@]),
                ),
            ],
    {
        let mut steps: Vec<Invocation> = Vec::new();
        steps.push(make_build_cmd(self.locked));
        steps
    }
}

impl CommandCheck {
    /// The commands of the task.
    pub fn run(&self, features: &Vec<String>) -> (steps: Vec<Invocation>)
        ensures
            commands(steps@) == feature_matrix(texts(features@)),
    {
        let ghost all = texts(features@);
        let none: Vec<String> = Vec::new();
        let mut steps: Vec<Invocation> = Vec::new();
        steps.push(make_check_cmd(&none));
        assert(texts(none@) =~= Seq::<Seq<char>>::empty());
        let mut i: usize = 0;
        while i < features.len()
            invariant
                i <= features.len(),
                all == texts(features@),
                commands(steps@) == seq![check_command(Seq::empty())] + Seq::new(
                    i as nat,
                    |j: int| check_command(seq![all[j]]),
                ),
            decreases features.len() - i,
        {
            let mut alone: Vec<String> = Vec::new();
            alone.push(features[i].clone());
            assert(texts(alone@) =~= seq![all[i as int]]);
            let ghost before = commands(steps@);
            steps.push(make_check_cmd(&alone));
            assert(commands(steps@) =~= before.push(check_command(seq![all[i as int]])));
            i += 1;
            assert(commands(steps@) =~= seq![check_command(Seq::empty())] + Seq::new(
                i as nat,
                |j: int| check_command(seq![all[j]]),
            ));
        }
        let ghost before = commands(steps@);
        steps.push(make_check_cmd(features));
        assert(commands(steps@) =~= before.push(check_command(all)));
        assert(commands(steps@) =~= feature_matrix(all));
        steps
    }
}

impl CommandLint {
    /// The commands of the task.
    pub fn run(&self) -> (steps: Vec<Invocation>)
        ensures
            commands(steps@) == seq![
                clippy_command(self.fix),
                format_command(self.fix),
                taplo_command(self.fix),
                typos_command(),
                hawkeye_command(self.fix),
                doc_command(),
            ],
    {
        let mut steps: Vec<Invocation> = Vec::new();
        steps.push(make_clippy_cmd(self.fix));
        steps.push(make_format_cmd(self.fix));
        steps.push(make_taplo_cmd(self.fix));
        steps.push(make_typos_cmd());
        steps.push(make_hawkeye_cmd(self.fix));
        steps.push(make_doc_cmd());
        steps
    }
}

/// The command that runs one integration test under Miri.
pub open spec fn miri_test_command(test: Seq<char>) -> InvocationState {
    miri_command("tests-integration"@, seq!["--test"@, test])
}

impl CommandMiri {
    /// Runs one integration test under Miri.
    fn integration_test(test: &str) -> (cmd: Invocation)
        ensures
            cmd@ == miri_test_command(test@),
    {
        let cmd = make_miri_cmd("tests-integration", &["--test", test]);
        assert(cmd@ =~= miri_test_command(test@));
        cmd
    }

    /// The commands of the task.
    pub fn run(&self) -> (steps: Vec<Invocation>)
        ensures
            commands(steps@) == seq![
                miri_command(PACKAGE_NAME@, seq!["--lib"@, "--all-features"@]),
                miri_test_command("oneshot_test"@),
                miri_test_command("unsafe_paths_test"@),
                miri_test_command("mpsc_test"@),
                miri_test_command("phaser_test"@),
                miri_test_command("broadcast_spmc_bounded_test"@),
            ],
    {
        let mut steps: Vec<Invocation> = Vec::new();
        steps.push(make_miri_cmd(PACKAGE_NAME, &["--lib", "--all-features"]));
        assert(steps@[0]@ =~= miri_command(PACKAGE_NAME@, seq!["--lib"@, "--all-features"@]));
        steps.push(Self::integration_test("oneshot_test"));
        steps.push(Self::integration_test("unsafe_paths_test"));
        steps.push(Self::integration_test("mpsc_test"));
        steps.push(Self::integration_test("phaser_test"));
        steps.push(Self::integration_test("broadcast_spmc_bounded_test"));
        steps
    }
}

impl CommandTest {
    /// The commands of the task.
    pub fn run(&self, features: &Vec<String>) -> (steps: Vec<Invocation>)
        ensures
            commands(steps@) == seq![
                InvocationState::cargo(
                    seq!["test"@, "--workspace"@, "--no-default-features"@] + feature_args(
                        texts(features@),
                    ) + words_if(self.no_capture, seq!["--"@, "--nocapture"@]),
                ),
            ],
    {
        let mut steps: Vec<Invocation> = Vec::new();
        steps.push(make_test_cmd(self.no_capture, features));
        steps
    }
}

} // verus!
