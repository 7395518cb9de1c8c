//! What holds of the commands that the tasks run, argument by argument.

use crate::tasks::command::check_command;
use crate::tasks::command::clippy_command;
use crate::tasks::command::commands;
use crate::tasks::command::doc_command;
use crate::tasks::command::feature_args;
use crate::tasks::command::features_are_selected_one_by_one;
use crate::tasks::command::format_command;
use crate::tasks::command::hawkeye_command;
use crate::tasks::command::installing_crate;
use crate::tasks::command::miri_command;
use crate::tasks::command::semver_check_command;
use crate::tasks::command::taplo_command;
use crate::tasks::command::typos_command;
use crate::tasks::command::word_texts;
use crate::tasks::command::words_if;
use crate::tasks::command::Invocation;
use crate::tasks::command::InvocationState;
use crate::tasks::release::SemverReleaseType;
use crate::tasks::steps::feature_matrix;
use crate::tasks::steps::miri_test_command;
use crate::tasks::version::VersionState;
use vstd::prelude::*;
use vstd::string::*;

verus! {

/// An invocation runs its program with its arguments, in their order, and with its variable.
pub proof fn an_invocation_is_its_parts(cmd: Invocation)
    ensures
        cmd@.program == cmd.program@,
        cmd@.args.len() == cmd.args@.len(),
        forall|i: int| 0 <= i < cmd.args@.len() ==> #[trigger] cmd@.args[i] == cmd.args@[i]@,
        match cmd.env {
            Some((name, value)) => cmd@.env == Some((name@, value@)),
            None => cmd@.env is None,
        },
        match cmd.tool {
            Some((bin, crate_name)) => cmd@.tool == Some((bin@, crate_name@)),
            None => cmd@.tool is None,
        },
{
}

/// A series of invocations is a series of as many commands, each in its place.
pub proof fn a_series_keeps_its_order(steps: Seq<Invocation>)
    ensures
        commands(steps).len() == steps.len(),
        forall|i: int| 0 <= i < steps.len() ==> #[trigger] commands(steps)[i] == steps[i]@,
{
}

/// Words keep their number and their order.
pub proof fn words_keep_their_order(words: Seq<&str>)
    ensures
        word_texts(words).len() == words.len(),
        forall|i: int| 0 <= i < words.len() ==> #[trigger] word_texts(words)[i] == words[i]@,
{
}

/// A variable, or a program that has to be there first, changes nothing else of a command.
pub proof fn a_command_is_put_together_from_parts(
    program: Seq<char>,
    args: Seq<Seq<char>>,
    cmd: InvocationState,
    name: Seq<char>,
    value: Seq<char>,
)
    ensures
        InvocationState::of(program, args).program == program,
        InvocationState::of(program, args).args == args,
        InvocationState::of(program, args).env is None,
        InvocationState::of(program, args).tool is None,
        InvocationState::cargo(args).program == "cargo"@,
        InvocationState::cargo(args).args == args,
        InvocationState::cargo(args).env is None,
        InvocationState::cargo(args).tool is None,
        cmd.with_env(name, value).program == cmd.program,
        cmd.with_env(name, value).args == cmd.args,
        cmd.with_env(name, value).env == Some((name, value)),
        cmd.with_env(name, value).tool == cmd.tool,
        cmd.needing(name, value).program == cmd.program,
        cmd.needing(name, value).args == cmd.args,
        cmd.needing(name, value).env == cmd.env,
        cmd.needing(name, value).tool == Some((name, value)),
        installing_crate(cmd.needing(name, value)) == value,
{
}

/// Optional words are all there or not there at all.
pub proof fn optional_words_are_all_or_none(condition: bool, words: Seq<Seq<char>>)
    ensures
        condition ==> words_if(condition, words) == words,
        !condition ==> words_if(condition, words).len() == 0,
{
}

/// A check of the package selects exactly the features that it is given: behind the same six
/// arguments, which switch the default features off, come the given ones and nothing else.
pub proof fn a_check_selects_exactly_its_features(features: Seq<Seq<char>>)
    ensures
        check_command(features).program == "cargo"@,
        check_command(features).args.len() == 6 + 2 * features.len(),
        check_command(features).args[0] == "+nightly"@,
        check_command(features).args[1] == "check"@,
        check_command(features).args[2] == "--package"@,
        check_command(features).args[3] == "asyncband"@,
        check_command(features).args[4] == "--all-targets"@,
        check_command(features).args[5] == "--no-default-features"@,
        forall|k: int|
            6 <= k < check_command(features).args.len() ==> #[trigger] check_command(
                features,
            ).args[k] == if k % 2 == 0 {
                "--features"@
            } else {
                features[(k - 6) / 2]
            },
        check_command(features).env == Some(("RUSTFLAGS"@, "-Dwarnings"@)),
        check_command(features).tool is None,
{
    features_are_selected_one_by_one(features);
    assert forall|k: int| 6 <= k < check_command(features).args.len() implies #[trigger] check_command(
        features,
    ).args[k] == if k % 2 == 0 {
        "--features"@
    } else {
        features[(k - 6) / 2]
    } by {
        assert(check_command(features).args[k] == feature_args(features)[k - 6]);
    }
}

/// The feature matrix has as many checks as there are features, and two more: the first selects no
/// feature, the last selects all of them, and for every feature the check at the next place selects
/// exactly that feature. All of them check the package without warnings and without the default
/// features.
pub proof fn the_feature_matrix_checks_every_feature(features: Seq<Seq<char>>)
    ensures
        feature_matrix(features).len() == features.len() + 2,
        feature_matrix(features)[0].args.len() == 6,
        forall|i: int|
            0 <= i < features.len() ==> {
                &&& feature_matrix(features)[i + 1].args.len() == 8
                &&& feature_matrix(features)[i + 1].args[6] == "--features"@
                &&& feature_matrix(features)[i + 1].args[7] == #[trigger] features[i]
            },
        feature_matrix(features).last().args.len() == 6 + 2 * features.len(),
        forall|k: int|
            6 <= k < feature_matrix(features).last().args.len() ==> #[trigger] feature_matrix(
                features,
            ).last().args[k] == if k % 2 == 0 {
                "--features"@
            } else {
                features[(k - 6) / 2]
            },
        forall|i: int|
            0 <= i < feature_matrix(features).len() ==> {
                let cmd = #[trigger] feature_matrix(features)[i];
                &&& cmd.program == "cargo"@
                &&& cmd.args.take(6) == feature_matrix(features)[0].args
                &&& cmd.args[1] == "check"@
                &&& cmd.args[5] == "--no-default-features"@
                &&& cmd.env == Some(("RUSTFLAGS"@, "-Dwarnings"@))
                &&& cmd.tool is None
            },
{
    let matrix = feature_matrix(features);
    let none = Seq::<Seq<char>>::empty();
    a_check_selects_exactly_its_features(none);
    a_check_selects_exactly_its_features(features);
    assert(matrix[0] == check_command(none));
    assert(matrix.last() == check_command(features));
    assert forall|i: int| 0 <= i < features.len() implies {
        &&& matrix[i + 1].args.len() == 8
        &&& matrix[i + 1].args[6] == "--features"@
        &&& matrix[i + 1].args[7] == #[trigger] features[i]
    } by {
        let alone = seq![features[i]];
        assert(matrix[i + 1] == check_command(alone));
        a_check_selects_exactly_its_features(alone);
    }
    assert forall|i: int| 0 <= i < matrix.len() implies {
        let cmd = #[trigger] matrix[i];
        &&& cmd.program == "cargo"@
        &&& cmd.args.take(6) == matrix[0].args
        &&& cmd.args[1] == "check"@
        &&& cmd.args[5] == "--no-default-features"@
        &&& cmd.env == Some(("RUSTFLAGS"@, "-Dwarnings"@))
        &&& cmd.tool is None
    } by {
        let selected = if i == 0 {
            none
        } else if i == matrix.len() - 1 {
            features
        } else {
            seq![features[i - 1]]
        };
        assert(matrix[i] == check_command(selected));
        a_check_selects_exactly_its_features(selected);
        assert(matrix[i].args.take(6) =~= matrix[0].args);
    }
}

/// The compatibility check compares with the baseline that it is given, by the rules that it is
/// given: the argument behind `--baseline-version` is the one, the last argument the other.
pub proof fn the_compatibility_check_names_its_baseline_and_its_rules(
    baseline: Seq<char>,
    rules: Seq<char>,
)
    ensures
        semver_check_command(baseline, rules).program == "cargo"@,
        semver_check_command(baseline, rules).args.len() == 10,
        semver_check_command(baseline, rules).args[0] == "+stable"@,
        semver_check_command(baseline, rules).args[1] == "semver-checks"@,
        semver_check_command(baseline, rules).args[2] == "check-release"@,
        semver_check_command(baseline, rules).args[3] == "--package"@,
        semver_check_command(baseline, rules).args[4] == "asyncband"@,
        semver_check_command(baseline, rules).args[5] == "--all-features"@,
        semver_check_command(baseline, rules).args[6] == "--baseline-version"@,
        semver_check_command(baseline, rules).args[7] == baseline,
        semver_check_command(baseline, rules).args[8] == "--release-type"@,
        semver_check_command(baseline, rules).args.last() == rules,
        semver_check_command(baseline, rules).env is None,
        semver_check_command(baseline, rules).tool == Some(
            ("cargo-semver-checks"@, "cargo-semver-checks"@),
        ),
{
}

/// The names of the release types differ from each other.
pub proof fn release_types_are_told_by_their_names(a: SemverReleaseType, b: SemverReleaseType)
    ensures
        a.name() == b.name() ==> a == b,
        a is Major <==> a.name() == "major"@,
        a is Minor <==> a.name() == "minor"@,
        a is Patch <==> a.name() == "patch"@,
{
    reveal_strlit("major");
    reveal_strlit("minor");
    reveal_strlit("patch");
    assert("major"@[1] == 'a' && "minor"@[1] == 'i' && "patch"@[1] == 'a');
    assert("major"@[0] == 'm' && "minor"@[0] == 'm' && "patch"@[0] == 'p');
}

/// Whatever is released after whatever, the audit names the text of the last release, and never
/// the rules of a major release, which would report nothing: those of the release itself, or those
/// of a minor release where it is major.
pub proof fn no_audit_names_the_rules_of_a_major_release(
    baseline: VersionState,
    kind: SemverReleaseType,
)
    ensures
        semver_check_command(baseline.text(), kind.audited_as().name()).args[7] == baseline.text(),
        semver_check_command(baseline.text(), kind.audited_as().name()).args.last() != "major"@,
        semver_check_command(baseline.text(), kind.audited_as().name()).args.last() == if kind
            is Major {
            "minor"@
        } else {
            kind.name()
        },
{
    release_types_are_told_by_their_names(kind.audited_as(), kind);
}

/// A run under Miri tests the targets that it is given, in their order, of the package that it is
/// given.
pub proof fn a_miri_run_tests_its_targets(package: Seq<char>, target: Seq<Seq<char>>)
    ensures
        miri_command(package, target).program == "cargo"@,
        miri_command(package, target).args.len() == 5 + target.len(),
        miri_command(package, target).args[0] == "+nightly"@,
        miri_command(package, target).args[1] == "miri"@,
        miri_command(package, target).args[2] == "test"@,
        miri_command(package, target).args[3] == "--package"@,
        miri_command(package, target).args[4] == package,
        forall|i: int|
            0 <= i < target.len() ==> miri_command(package, target).args[5 + i]
                == #[trigger] target[i],
        miri_command(package, target).env is None,
        miri_command(package, target).tool is None,
{
}

/// A run of an integration test under Miri names that test last.
pub proof fn a_miri_run_names_its_integration_test(test: Seq<char>)
    ensures
        miri_test_command(test).program == "cargo"@,
        miri_test_command(test).args.len() == 7,
        miri_test_command(test).args[1] == "miri"@,
        miri_test_command(test).args[4] == "tests-integration"@,
        miri_test_command(test).args[5] == "--test"@,
        miri_test_command(test).args.last() == test,
        miri_test_command(test).env is None,
        miri_test_command(test).tool is None,
{
}

/// The sources and the manifests are only looked at where nothing is to be applied, and only then:
/// the two commands differ in that they are told to check, and in nothing else. The licence headers
/// are checked or written, and the lints are applied or denied, behind the same arguments.
pub proof fn a_lint_applies_what_it_is_told_to_apply()
    ensures
        format_command(false).args == format_command(true).args.push("--check"@),
        format_command(false).program == format_command(true).program,
        format_command(true).args == seq!["+nightly"@, "fmt"@, "--all"@],
        taplo_command(false).args == taplo_command(true).args.push("--check"@),
        taplo_command(false).program == taplo_command(true).program,
        taplo_command(true).args == seq!["format"@],
        taplo_command(false).tool == Some(("taplo"@, "taplo-cli"@)),
        taplo_command(true).tool == Some(("taplo"@, "taplo-cli"@)),
        hawkeye_command(false).args == seq!["check"@],
        hawkeye_command(true).args == seq!["format"@],
        hawkeye_command(false).tool == Some(("hawkeye"@, "hawkeye"@)),
        hawkeye_command(true).tool == Some(("hawkeye"@, "hawkeye"@)),
        clippy_command(false).args.take(6) == clippy_command(true).args.take(6),
        clippy_command(false).args.skip(6) == seq!["--"@, "-D"@, "warnings"@],
        clippy_command(true).args.skip(6) == seq!["--allow-staged"@, "--allow-dirty"@, "--fix"@],
        clippy_command(true).args.take(6) == seq![
            "+nightly"@,
            "clippy"@,
            "--tests"@,
            "--all-features"@,
            "--all-targets"@,
            "--workspace"@,
        ],
        typos_command().args.len() == 0,
        typos_command().tool == Some(("typos"@, "typos-cli"@)),
        doc_command().args == seq![
            "+nightly"@,
            "doc"@,
            "--workspace"@,
            "--all-features"@,
            "--no-deps"@,
        ],
        doc_command().env == Some(("RUSTDOCFLAGS"@, "-D warnings --cfg docsrs"@)),
{
    assert(format_command(false).args =~= format_command(true).args.push("--check"@));
    assert(taplo_command(false).args =~= taplo_command(true).args.push("--check"@));
    assert(clippy_command(false).args.take(6) =~= clippy_command(true).args.take(6));
}

} // verus!
