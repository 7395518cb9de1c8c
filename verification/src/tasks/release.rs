//! Whether the public interface of a planned release is compatible with the last release.

use crate::internal::text::texts;
use crate::tasks::command::make_semver_check_cmd;
use crate::tasks::command::semver_check_command;
use crate::tasks::command::Invocation;
use crate::tasks::command::PACKAGE_NAME;
use crate::tasks::version::parse_failure;
use crate::tasks::version::prerelease_order;
use crate::tasks::version::Precedence;
use crate::tasks::version::Version;
use crate::tasks::version::VersionState;
use vstd::prelude::*;
use vstd::string::*;

verus! {

/// The exit code that the compatibility check reserves for a completed check that found
/// violations.
pub const SEMVER_VIOLATIONS_EXIT_CODE: i32 = 100;

/// The status with which the registry answers a query for a crate that it does not have.
pub const NOT_FOUND: u16 = 404;

/// What a release may change.
#[derive(Clone, Copy, Debug, PartialEq, Eq, Structural)]
pub enum SemverReleaseType {
    /// The interface may change in any way.
    Major,
    /// The interface may grow.
    Minor,
    /// The interface stays as it is.
    Patch,
}

impl SemverReleaseType {
    /// The name of the release type.
    pub open spec fn name(self) -> Seq<char> {
        match self {
            SemverReleaseType::Major => "major"@,
            SemverReleaseType::Minor => "minor"@,
            SemverReleaseType::Patch => "patch"@,
        }
    }

    /// The release type by whose rules a release of this type is audited.
    pub open spec fn audited_as(self) -> SemverReleaseType {
        match self {
            SemverReleaseType::Major => SemverReleaseType::Minor,
            release_type => release_type,
        }
    }

    /// The name of the release type.
    pub fn as_str(self) -> (name: &'static str)
        ensures
            name@ == self.name(),
    {
        match self {
            SemverReleaseType::Major => "major",
            SemverReleaseType::Minor => "minor",
            SemverReleaseType::Patch => "patch",
        }
    }

    /// The release type by whose rules a release of this type is audited. A major release is
    /// audited as a minor one, so that what it breaks is reported.
    pub fn audit_release_type(self) -> (release_type: Self)
        ensures
            release_type == self.audited_as(),
    {
        match self {
            SemverReleaseType::Major => SemverReleaseType::Minor,
            release_type => release_type,
        }
    }
}

/// The position of the first number that differs, from the left, or three where none does.
pub open spec fn first_changed(a: VersionState, b: VersionState) -> nat {
    if a.major != b.major {
        0
    } else if a.minor != b.minor {
        1
    } else if a.patch != b.patch {
        2
    } else {
        3
    }
}

/// The position of the number that stands for the major version: the leftmost one that is not
/// zero.
pub open spec fn leading(version: VersionState) -> nat {
    if version.major != 0 {
        0
    } else if version.minor != 0 {
        1
    } else {
        2
    }
}

/// What `release` may change of `baseline`. A change in the leading number or left of it is a
/// major release, one right behind it a minor one, any other a patch. A release that keeps all
/// three numbers says nothing of what it changes, and counts as major.
pub open spec fn release_type(baseline: VersionState, release: VersionState) -> SemverReleaseType {
    let changed = first_changed(baseline, release);
    if changed == 3 || changed <= leading(release) {
        SemverReleaseType::Major
    } else if changed == leading(release) + 1 {
        SemverReleaseType::Minor
    } else {
        SemverReleaseType::Patch
    }
}

/// Whether `release` comes after `baseline`.
pub open spec fn follows(baseline: VersionState, release: VersionState) -> bool {
    baseline.precedence(release) is Lower
}

/// What `release` may change of `baseline`, which it has to come after.
pub fn classify_release_type(baseline: &Version, release: &Version) -> (kind: SemverReleaseType)
    requires
        baseline@.valid(),
        release@.valid(),
        follows(baseline@, release@),
    ensures
        kind == release_type(baseline@, release@),
{
    if baseline.major != release.major {
        SemverReleaseType::Major
    } else if baseline.minor != release.minor {
        if release.major == 0 {
            SemverReleaseType::Major
        } else {
            SemverReleaseType::Minor
        }
    } else if baseline.patch != release.patch {
        match (release.major, release.minor) {
            (0, 0) => SemverReleaseType::Major,
            (0, _) => SemverReleaseType::Minor,
            _ => SemverReleaseType::Patch,
        }
    } else {
        SemverReleaseType::Major
    }
}

/// What the registry knows of a crate.
#[derive(Debug)]
pub struct CratesIoCrate {
    pub max_version: String,
    pub max_stable_version: Option<String>,
}

/// What came of a query to the registry.
#[derive(Debug)]
pub enum RegistryReply {
    /// The registry knows the crate.
    Known(CratesIoCrate),
    /// The registry answered with another status than success.
    Status {
        code: u16,
        reason: String,
    },
    /// There is no answer.
    Failed {
        reason: String,
    },
    /// The answer cannot be read.
    Undecodable {
        reason: String,
    },
}

/// Why the last release could not be found out.
#[derive(Debug)]
pub enum LookupError {
    /// The query failed.
    Query {
        reason: String,
    },
    /// The answer cannot be read.
    Decode {
        reason: String,
    },
    /// The registry reported a version that is none.
    InvalidVersion {
        version: String,
        reason: String,
    },
}

/// The text of the version that counts as the last release: the highest stable one where there
/// is one, and the highest otherwise.
pub open spec fn latest_text(known: CratesIoCrate) -> Seq<char> {
    match known.max_stable_version {
        Some(version) => version@,
        None => known.max_version@,
    }
}

/// The last release according to the registry. There is none where the registry does not have
/// the crate.
pub fn find_latest_release(reply: RegistryReply) -> (latest: Result<Option<Version>, LookupError>)
    ensures
        match latest {
            Ok(Some(version)) => {
                &&& reply is Known
                &&& version@.valid()
                &&& version@.text() == latest_text(reply->Known_0)
            },
            Ok(None) => reply matches RegistryReply::Status { code, .. } && code == NOT_FOUND,
            Err(LookupError::Query { reason }) => {
                ||| reply == (RegistryReply::Failed { reason })
                ||| reply matches RegistryReply::Status { code, reason: given } && code
                    != NOT_FOUND && given == reason
            },
            Err(LookupError::Decode { reason }) => reply == (RegistryReply::Undecodable {
                reason,
            }),
            Err(LookupError::InvalidVersion { version, reason }) => {
                &&& reply is Known
                &&& version@ == latest_text(reply->Known_0)
                &&& forall|valid: VersionState|
                    #![trigger valid.text()]
                    valid.valid() ==> valid.text() != version@
                &&& reason@ == parse_failure(version@)
            },
        },
{
    match reply {
        RegistryReply::Known(known) => {
            let version = match known.max_stable_version {
                Some(version) => version,
                None => known.max_version,
            };
            match Version::parse(version.as_str()) {
                Ok(parsed) => Ok(Some(parsed)),
                Err(reason) => Err(LookupError::InvalidVersion { version, reason }),
            }
        },
        RegistryReply::Status { code, reason } => if code == NOT_FOUND {
            Ok(None)
        } else {
            Err(LookupError::Query { reason })
        },
        RegistryReply::Failed { reason } => Err(LookupError::Query { reason }),
        RegistryReply::Undecodable { reason } => Err(LookupError::Decode { reason }),
    }
}

/// Verify the compatibility of a planned release.
#[derive(Debug)]
pub struct CommandSemver {
    /// The version that will be released.
    pub release_version: Version,
    /// Accept reviewed breaking changes of a major release.
    pub acknowledge_breaking_changes: bool,
}

/// What the check of a planned release begins with.
#[derive(Debug)]
pub enum SemverPlan {
    /// There is nothing to compare with. The notice says so.
    Skip {
        notice: String,
    },
    /// The release cannot be checked, for the given reason.
    Refuse {
        reason: String,
    },
    /// The command is to be run, after the notices.
    Audit {
        release_type: SemverReleaseType,
        notices: Vec<String>,
        command: Invocation,
    },
}

/// What came of the compatibility check.
#[derive(Debug)]
pub struct CheckStatus {
    pub success: bool,
    /// The exit code, where there is one.
    pub code: Option<i32>,
}

/// How the check of a planned release ends.
#[derive(Debug)]
pub enum SemverVerdict {
    /// The release is compatible.
    Compatible,
    /// The release breaks the interface, and that is accepted. The notice says so.
    Acknowledged {
        notice: String,
    },
    /// The release breaks the interface, and that has to be acknowledged. The reason says so.
    Unacknowledged {
        reason: String,
    },
    /// The check itself failed, or the release breaks what it may not break.
    Failed,
}

/// Whether the compatibility check is run for `release`, given the last release.
pub open spec fn check_runs(
    baseline: Option<VersionState>,
    release: VersionState,
    acknowledged: bool,
) -> bool {
    &&& baseline matches Some(baseline)
    &&& follows(baseline, release)
    &&& release_type(baseline, release) is Major || !acknowledged
}

/// Whether a release of this type passes the check that was run for it.
pub open spec fn check_passes(
    kind: SemverReleaseType,
    acknowledged: bool,
    success: bool,
    code: Option<i32>,
) -> bool {
    ||| success
    ||| kind is Major && code == Some(SEMVER_VIOLATIONS_EXIT_CODE) && acknowledged
}

/// Whether `release` may go ahead: there is no last release, or the check is run and passed. The
/// outcome of the check counts only where it is run.
pub open spec fn release_goes_ahead(
    baseline: Option<VersionState>,
    release: VersionState,
    acknowledged: bool,
    success: bool,
    code: Option<i32>,
) -> bool {
    match baseline {
        None => true,
        Some(last) => check_runs(baseline, release, acknowledged) && check_passes(
            release_type(last, release),
            acknowledged,
            success,
            code,
        ),
    }
}

/// The last release as it is written down, if there is one.
pub open spec fn last_release(baseline: Option<&Version>) -> Option<VersionState> {
    match baseline {
        Some(baseline) => Some(baseline@),
        None => None,
    }
}

impl SemverVerdict {
    /// Whether the release goes ahead.
    pub open spec fn passes(self) -> bool {
        self is Compatible || self is Acknowledged
    }
}

/// Why a release that does not come after the last one is refused.
pub open spec fn not_greater(baseline: VersionState, release: VersionState) -> Seq<char> {
    "release version "@ + release.text() + " must be greater than baseline "@ + baseline.text()
}

/// What is announced before the check.
pub open spec fn announcement(
    baseline: VersionState,
    release: VersionState,
    kind: SemverReleaseType,
) -> Seq<char> {
    "Checking release "@ + release.text() + " against "@ + PACKAGE_NAME@ + "@"@ + baseline.text()
        + " as a "@ + kind.name() + " release."@
}

/// What is announced before the check of a release that is audited by stricter rules.
pub open spec fn audit_notice() -> Seq<char> {
    "Auditing with minor compatibility rules so breaking API changes remain visible."@
}

impl CommandSemver {
    /// Decides how the check begins, given the last release.
    pub fn plan(&self, baseline: Option<&Version>) -> (plan: SemverPlan)
        requires
            self.release_version@.valid(),
            baseline matches Some(baseline) ==> baseline@.valid(),
        ensures
            plan is Skip <==> baseline is None,
            plan is Audit <==> check_runs(
                last_release(baseline),
                self.release_version@,
                self.acknowledge_breaking_changes,
            ),
            match plan {
                SemverPlan::Skip { notice } => {
                    &&& baseline is None
                    &&& notice@ == PACKAGE_NAME@
                        + " has not been published; skipping semver checks for the first release."@
                },
                SemverPlan::Refuse { reason } => {
                    &&& baseline matches Some(baseline)
                    &&& if follows(baseline@, self.release_version@) {
                        &&& !(release_type(baseline@, self.release_version@) is Major)
                        &&& self.acknowledge_breaking_changes
                        &&& reason@
                            == "--acknowledge-breaking-changes is only valid for a semver-major release"@
                    } else {
                        reason@ == not_greater(baseline@, self.release_version@)
                    }
                },
                SemverPlan::Audit { release_type: kind, notices, command } => {
                    &&& baseline matches Some(baseline)
                    &&& follows(baseline@, self.release_version@)
                    &&& kind == release_type(baseline@, self.release_version@)
                    &&& kind is Major || !self.acknowledge_breaking_changes
                    &&& texts(notices@) == seq![
                        announcement(baseline@, self.release_version@, kind),
                    ] + if kind is Major {
                        seq![audit_notice()]
                    } else {
                        Seq::empty()
                    }
                    &&& command@ == semver_check_command(
                        baseline@.text(),
                        kind.audited_as().name(),
                    )
                },
            },
    {
        let baseline = match baseline {
            Some(baseline) => baseline,
            None => {
                let mut notice = PACKAGE_NAME.to_owned();
                notice.append(
                    " has not been published; skipping semver checks for the first release.",
                );
                return SemverPlan::Skip { notice };
            },
        };
        match baseline.precedence(&self.release_version) {
            Precedence::Lower => {},
            _ => {
                let mut reason = "release version ".to_owned();
                reason.append(self.release_version.to_string().as_str());
                reason.append(" must be greater than baseline ");
                reason.append(baseline.to_string().as_str());
                return SemverPlan::Refuse { reason };
            },
        }
        let release_type = classify_release_type(baseline, &self.release_version);
        if release_type != SemverReleaseType::Major && self.acknowledge_breaking_changes {
            return SemverPlan::Refuse {
                reason: "--acknowledge-breaking-changes is only valid for a semver-major release".to_owned(),
            };
        }
        let audit_release_type = release_type.audit_release_type();
        let mut announcement = "Checking release ".to_owned();
        announcement.append(self.release_version.to_string().as_str());
        announcement.append(" against ");
        announcement.append(PACKAGE_NAME);
        announcement.append("@");
        announcement.append(baseline.to_string().as_str());
        announcement.append(" as a ");
        announcement.append(release_type.as_str());
        announcement.append(" release.");
        let mut notices: Vec<String> = Vec::new();
        notices.push(announcement);
        if audit_release_type != release_type {
            notices.push(
                "Auditing with minor compatibility rules so breaking API changes remain visible.".to_owned(),
            );
        }
        let command = make_semver_check_cmd(baseline, audit_release_type);
        SemverPlan::Audit { release_type, notices, command }
    }

    /// Decides how the check ends, given the release type and what came of the command.
    pub fn conclude(&self, release_type: SemverReleaseType, status: &CheckStatus) -> (verdict:
        SemverVerdict)
        ensures
            verdict.passes() <==> check_passes(
                release_type,
                self.acknowledge_breaking_changes,
                status.success,
                status.code,
            ),
            match verdict {
                SemverVerdict::Compatible => status.success,
                SemverVerdict::Acknowledged { notice } => {
                    &&& !status.success
                    &&& release_type is Major
                    &&& status.code == Some(SEMVER_VIOLATIONS_EXIT_CODE)
                    &&& self.acknowledge_breaking_changes
                    &&& notice@
                        == "The breaking API changes reported above are acknowledged for release "@
                        + self.release_version@.text() + "."@
                },
                SemverVerdict::Unacknowledged { reason } => {
                    &&& !status.success
                    &&& release_type is Major
                    &&& status.code == Some(SEMVER_VIOLATIONS_EXIT_CODE)
                    &&& !self.acknowledge_breaking_changes
                    &&& reason@
                        == "breaking API changes were reported; document and review them, then rerun with --acknowledge-breaking-changes"@
                },
                SemverVerdict::Failed => {
                    &&& !status.success
                    &&& release_type is Major ==> status.code != Some(SEMVER_VIOLATIONS_EXIT_CODE)
                },
            },
    {
        if status.success {
            return SemverVerdict::Compatible;
        }
        let violations = match status.code {
            Some(code) => code == SEMVER_VIOLATIONS_EXIT_CODE,
            None => false,
        };
        if release_type == SemverReleaseType::Major && violations {
            if !self.acknowledge_breaking_changes {
                return SemverVerdict::Unacknowledged {
                    reason: "breaking API changes were reported; document and review them, then rerun with --acknowledge-breaking-changes".to_owned(),
                };
            }
            let mut notice =
                "The breaking API changes reported above are acknowledged for release ".to_owned();
            notice.append(self.release_version.to_string().as_str());
            notice.append(".");
            return SemverVerdict::Acknowledged { notice };
        }
        SemverVerdict::Failed
    }
}

/// The release check as a whole. A first release goes ahead without a check. Any other has to come
/// after the last one; then the check is run if and only if the release is major or nothing is
/// acknowledged, and the release goes ahead if and only if the check is run and succeeded, or
/// reported violations of a major release that are acknowledged.
pub proof fn the_release_check_as_a_whole(
    command: CommandSemver,
    baseline: Option<VersionState>,
    success: bool,
    code: Option<i32>,
)
    ensures
        ({
            let release = command.release_version@;
            let acknowledged = command.acknowledge_breaking_changes;
            let runs = check_runs(baseline, release, acknowledged);
            let ahead = release_goes_ahead(baseline, release, acknowledged, success, code);
            match baseline {
                None => !runs && ahead,
                Some(last) => if follows(last, release) {
                    let major = release_type(last, release) is Major;
                    &&& runs <==> major || !acknowledged
                    &&& ahead <==> (major || !acknowledged) && (success || (major && code == Some(
                        100i32,
                    ) && acknowledged))
                } else {
                    !runs && !ahead
                },
            }
        }),
{
}

/// A version is refused as a release if and only if it is not newer than the last one: its numbers
/// come first, or its numbers are the same and it is the same version but for build metadata, a
/// pre-release of the last release, or a pre-release that does not come after the last one.
pub proof fn only_newer_versions_are_released(baseline: VersionState, release: VersionState)
    ensures
        !follows(baseline, release) <==> {
            ||| release.numbers_before(baseline)
            ||| {
                &&& !baseline.numbers_before(release)
                &&& {
                    ||| baseline.pre == release.pre
                    ||| baseline.pre.len() == 0
                    ||| release.pre.len() > 0 && !(prerelease_order(
                        baseline.pre,
                        release.pre,
                    ) is Lower)
                }
            }
        },
        baseline == (VersionState { build: baseline.build, ..release }) ==> !follows(
            baseline,
            release,
        ),
{
}

/// No release is audited by the rules of a major one, which would report nothing, and an audit by
/// the rules of the audit changes nothing.
pub proof fn audits_report_breaking_changes(kind: SemverReleaseType)
    ensures
        !(kind.audited_as() is Major),
        kind.audited_as().audited_as() == kind.audited_as(),
        kind.audited_as() == kind <==> !(kind is Major),
{
}

/// From one on, a change of the major, the minor and the patch number is a major, a minor and a
/// patch release. Below one each of them counts as the next higher, and where the minor
/// number is zero too, every change is major.
pub proof fn release_types_below_one_count_higher(
    baseline: VersionState,
    release: VersionState,
)
    ensures
        baseline.major != release.major ==> release_type(baseline, release) is Major,
        release.major > 0 && baseline.major == release.major && baseline.minor != release.minor
            ==> release_type(baseline, release) is Minor,
        release.major > 0 && baseline.major == release.major && baseline.minor == release.minor
            && baseline.patch != release.patch ==> release_type(baseline, release) is Patch,
        release.major == 0 && baseline.minor != release.minor ==> release_type(
            baseline,
            release,
        ) is Major,
        release.major == 0 && release.minor > 0 && baseline.major == 0 && baseline.minor
            == release.minor && baseline.patch != release.patch ==> release_type(
            baseline,
            release,
        ) is Minor,
        release.major == 0 && release.minor == 0 && baseline.patch != release.patch
            ==> release_type(baseline, release) is Major,
{
}

/// Build metadata has no part in what a release may change, nor in whether it comes after
/// another.
pub proof fn build_metadata_is_ignored(
    baseline: VersionState,
    release: VersionState,
    build: Seq<char>,
)
    ensures
        release_type(baseline, VersionState { build, ..release }) == release_type(
            baseline,
            release,
        ),
        follows(baseline, VersionState { build, ..release }) == follows(baseline, release),
        follows(VersionState { build, ..baseline }, release) == follows(baseline, release),
{
}

/// Where the numbers of one version come before those of another, only the other can be released
/// after the one, whatever their pre-release identifiers are.
pub proof fn only_higher_numbers_follow(baseline: VersionState, release: VersionState)
    requires
        baseline.numbers_before(release),
    ensures
        follows(baseline, release),
        !follows(release, baseline),
{
}

/// A version is released after its pre-releases, and never after itself.
pub proof fn a_release_follows_its_prereleases(release: VersionState, pre: Seq<char>)
    requires
        release.pre.len() == 0,
        pre.len() > 0,
    ensures
        follows(VersionState { pre, ..release }, release),
        !follows(release, VersionState { pre, ..release }),
        !follows(release, release),
{
}

/// A release that keeps all three numbers is a major one, whatever else it changes. With the
/// changes of a number, every release has one type.
pub proof fn a_release_of_the_same_numbers_is_major(baseline: VersionState, release: VersionState)
    requires
        baseline.major == release.major,
        baseline.minor == release.minor,
        baseline.patch == release.patch,
    ensures
        release_type(baseline, release) is Major,
{
}

/// A release comes after the last one where the leftmost number in which they differ is higher, and
/// not where it is lower.
pub proof fn the_leftmost_number_decides_what_follows(
    baseline: VersionState,
    release: VersionState,
)
    ensures
        baseline.major != release.major ==> (follows(baseline, release) <==> baseline.major
            < release.major),
        baseline.major == release.major && baseline.minor != release.minor ==> (follows(
            baseline,
            release,
        ) <==> baseline.minor < release.minor),
        baseline.major == release.major && baseline.minor == release.minor && baseline.patch
            != release.patch ==> (follows(baseline, release) <==> baseline.patch < release.patch),
{
}

/// A check that succeeded passes every release. One that did not passes a release only where the
/// release is major, violations were reported and they are acknowledged; so nothing that is
/// acknowledged helps a minor release or a patch.
pub proof fn a_failed_check_passes_acknowledged_major_releases_only(
    kind: SemverReleaseType,
    acknowledged: bool,
    code: Option<i32>,
)
    ensures
        check_passes(kind, acknowledged, true, code),
        kind is Major ==> (check_passes(kind, acknowledged, false, code) <==> acknowledged && code
            == Some(100i32)),
        !(kind is Major) ==> !check_passes(kind, acknowledged, false, code),
{
}

/// A release goes ahead on two of the four verdicts: it is compatible, or what it breaks is
/// acknowledged.
pub proof fn two_verdicts_let_a_release_go_ahead(verdict: SemverVerdict)
    ensures
        match verdict {
            SemverVerdict::Compatible => verdict.passes(),
            SemverVerdict::Acknowledged { .. } => verdict.passes(),
            SemverVerdict::Unacknowledged { .. } => !verdict.passes(),
            SemverVerdict::Failed => !verdict.passes(),
        },
{
}

/// The last release is the one that is handed in, and there is one exactly where one is.
pub proof fn the_last_release_is_the_given_one(baseline: Version)
    ensures
        last_release(Some(&baseline)) == Some(baseline@),
        last_release(None) is None,
{
}

/// The highest stable version counts as the last release wherever there is one, however it compares
/// with the highest.
pub proof fn a_stable_version_counts_first(known: CratesIoCrate)
    ensures
        known.max_stable_version matches Some(stable) ==> latest_text(known) == stable@,
        known.max_stable_version is None ==> latest_text(known) == known.max_version@,
{
}

/// What is announced names the release first, the last release behind the package, and the type of
/// the release at the end; what is refused names the release first and the last release at the
/// end.
pub proof fn messages_name_the_versions(
    baseline: VersionState,
    release: VersionState,
    kind: SemverReleaseType,
)
    ensures
        ({
            let opening = "Checking release "@ + release.text();
            let middle = " against asyncband@"@ + baseline.text();
            let closing = " as a "@ + kind.name() + " release."@;
            let told = announcement(baseline, release, kind);
            &&& told.len() == opening.len() + middle.len() + closing.len()
            &&& told.take(opening.len() as int) == opening
            &&& told.subrange(opening.len() as int, (opening.len() + middle.len()) as int) == middle
            &&& told.skip((opening.len() + middle.len()) as int) == closing
        }),
        ({
            let opening = "release version "@ + release.text();
            let closing = " must be greater than baseline "@ + baseline.text();
            let told = not_greater(baseline, release);
            &&& told.len() == opening.len() + closing.len()
            &&& told.take(opening.len() as int) == opening
            &&& told.skip(opening.len() as int) == closing
        }),
{
    reveal_strlit("Checking release ");
    reveal_strlit(" against ");
    reveal_strlit("asyncband");
    reveal_strlit("@");
    reveal_strlit(" against asyncband@");
    reveal_strlit(" as a ");
    reveal_strlit(" release.");
    reveal_strlit("release version ");
    reveal_strlit(" must be greater than baseline ");
    assert(" against asyncband@"@ =~= " against "@ + "asyncband"@ + "@"@);
    let opening = "Checking release "@ + release.text();
    let middle = " against asyncband@"@ + baseline.text();
    let closing = " as a "@ + kind.name() + " release."@;
    assert(announcement(baseline, release, kind) =~= opening + middle + closing);
    assert((opening + middle + closing).take(opening.len() as int) =~= opening);
    assert((opening + middle + closing).subrange(
        opening.len() as int,
        (opening.len() + middle.len()) as int,
    ) =~= middle);
    assert((opening + middle + closing).skip((opening.len() + middle.len()) as int) =~= closing);
    let refused = "release version "@ + release.text();
    let because = " must be greater than baseline "@ + baseline.text();
    assert(not_greater(baseline, release) =~= refused + because);
    assert((refused + because).take(refused.len() as int) =~= refused);
    assert((refused + because).skip(refused.len() as int) =~= because);
}

} // verus!
