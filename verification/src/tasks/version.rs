//! Version numbers.

use crate::internal::text::decimal;
use crate::internal::text::decimal_determines_the_number;
use crate::internal::text::decimal_is_digits;
use crate::internal::text::decimal_text;
use crate::internal::text::decimal_stands_for_the_number;
use crate::internal::text::is_digit;
use crate::internal::text::leading_run_is_determined;
use crate::internal::text::number;
use vstd::prelude::*;
use vstd::string::*;

verus! {

/// A version: three numbers, an optional pre-release identifier and optional build metadata, each
/// of the last two empty where it is absent.
#[derive(Clone, Debug)]
pub struct Version {
    pub major: u64,
    pub minor: u64,
    pub patch: u64,
    pub pre: String,
    pub build: String,
}

/// What a [`Version`] amounts to.
#[verifier::ext_equal]
pub struct VersionState {
    pub major: u64,
    pub minor: u64,
    pub patch: u64,
    pub pre: Seq<char>,
    pub build: Seq<char>,
}

/// How two versions are ordered.
#[derive(Clone, Copy, Debug, PartialEq, Eq, Structural)]
pub enum Precedence {
    Lower,
    Same,
    Higher,
}

/// Whether `c` may stand in an identifier: an ASCII letter or digit, or a hyphen.
pub open spec fn is_identifier_char(c: char) -> bool {
    ||| is_digit(c)
    ||| 65 <= c as u32 <= 90
    ||| 97 <= c as u32 <= 122
    ||| c == '-'
}

/// Whether an identifier of `text` begins at `i`.
pub open spec fn identifier_begins(text: Seq<char>, i: int) -> bool {
    0 <= i < text.len() && (i == 0 || text[i - 1] == '.')
}

/// Whether an identifier of `text` ends before `j`.
pub open spec fn identifier_ends(text: Seq<char>, j: int) -> bool {
    0 <= j <= text.len() && (j == text.len() || text[j] == '.')
}

/// Whether `text` is empty or a series of non-empty identifiers separated by dots.
pub open spec fn is_build(text: Seq<char>) -> bool {
    &&& forall|i: int|
        0 <= i < text.len() ==> is_identifier_char(#[trigger] text[i]) || text[i] == '.'
    &&& forall|i: int| #[trigger] identifier_begins(text, i) ==> text[i] != '.'
    &&& text.len() > 0 ==> text.last() != '.'
}

/// Whether `text` is a series of identifiers in which no number has a leading zero.
pub open spec fn is_prerelease(text: Seq<char>) -> bool {
    &&& is_build(text)
    &&& !exists|i: int, j: int| #[trigger]
        identifier_begins(text, i) && #[trigger] identifier_ends(text, j) && i + 1 < j && text[i]
            == '0' && forall|k: int| i <= k < j ==> is_digit(#[trigger] text[k])
}

/// A part that follows `mark`, or nothing where the part is empty.
pub open spec fn marked(mark: char, part: Seq<char>) -> Seq<char> {
    if part.len() == 0 {
        Seq::empty()
    } else {
        seq![mark] + part
    }
}

impl VersionState {
    /// Whether the pre-release identifier and the build metadata are well formed.
    pub open spec fn valid(self) -> bool {
        is_prerelease(self.pre) && is_build(self.build)
    }

    /// How the version is written.
    pub open spec fn text(self) -> Seq<char> {
        decimal(self.major as nat) + (seq!['.'] + (decimal(self.minor as nat) + (seq!['.'] + (
        decimal(self.patch as nat) + (marked('-', self.pre) + marked('+', self.build))))))
    }

    /// Whether the numbers of the version come before those of `other`.
    pub open spec fn numbers_before(self, other: VersionState) -> bool {
        ||| self.major < other.major
        ||| self.major == other.major && self.minor < other.minor
        ||| self.major == other.major && self.minor == other.minor && self.patch < other.patch
    }

    /// How the version is ordered against `other`: by the numbers, and then a pre-release comes
    /// before the release and pre-releases are ordered among themselves. Build metadata plays no
    /// part.
    pub open spec fn precedence(self, other: VersionState) -> Precedence {
        if self.numbers_before(other) {
            Precedence::Lower
        } else if other.numbers_before(self) {
            Precedence::Higher
        } else if self.pre == other.pre {
            Precedence::Same
        } else if self.pre.len() == 0 {
            Precedence::Higher
        } else if other.pre.len() == 0 {
            Precedence::Lower
        } else {
            prerelease_order(self.pre, other.pre)
        }
    }
}

/// How `semver::Version::cmp_precedence` orders two different pre-releases of the same numbers.
pub uninterp spec fn prerelease_order(a: Seq<char>, b: Seq<char>) -> Precedence;

/// The message of the error that `semver::Version::parse` reports for a text that is not a
/// version.
pub uninterp spec fn parse_failure(text: Seq<char>) -> Seq<char>;

impl View for Version {
    type V = VersionState;

    open spec fn view(&self) -> VersionState {
        VersionState {
            major: self.major,
            minor: self.minor,
            patch: self.patch,
            pre: self.pre@,
            build: self.build@,
        }
    }
}

/// `semver::Version::parse` accepts exactly the texts of versions, and returns the version whose
/// text it was given: numbers in decimal within the range of `u64` and without leading zeros, and
/// identifiers that are well formed. For any other text it reports an error, whose message is a
/// function of the text.
#[verifier::external_body]
fn parse_text(text: &str) -> (outcome: Result<Version, String>)
    ensures
        match outcome {
            Ok(version) => version@.valid() && version@.text() == text@,
            Err(message) => {
                &&& forall|version: VersionState|
                    #![trigger version.text()]
                    version.valid() ==> version.text() != text@
                &&& message@ == parse_failure(text@)
            },
        },
{
    match semver::Version::parse(text) {
        Ok(version) => Ok(
            Version {
                major: version.major,
                minor: version.minor,
                patch: version.patch,
                pre: version.pre.as_str().to_owned(),
                build: version.build.as_str().to_owned(),
            },
        ),
        Err(error) => Err(error.to_string()),
    }
}

/// `semver::Version::cmp_precedence` orders versions by their three numbers, and versions of the
/// same numbers by their pre-release identifiers: equal where these are the same text, a
/// pre-release before the release, and otherwise as the identifiers say, which never comes out
/// as equal. `semver::Prerelease::new` and `semver::BuildMetadata::new` accept identifiers that
/// are well formed, so that neither fails here.
#[verifier::external_body]
fn order_by_precedence(a: &Version, b: &Version) -> (order: Precedence)
    requires
        a@.valid(),
        b@.valid(),
    ensures
        order == a@.precedence(b@),
        a@.pre.len() > 0 && b@.pre.len() > 0 && a@.pre != b@.pre && !a@.numbers_before(b@)
            && !b@.numbers_before(a@) ==> order == prerelease_order(a@.pre, b@.pre) && !(
        order is Same),
{
    let mut left = semver::Version::new(a.major, a.minor, a.patch);
    left.pre = semver::Prerelease::new(&a.pre).unwrap();
    left.build = semver::BuildMetadata::new(&a.build).unwrap();
    let mut right = semver::Version::new(b.major, b.minor, b.patch);
    right.pre = semver::Prerelease::new(&b.pre).unwrap();
    right.build = semver::BuildMetadata::new(&b.build).unwrap();
    match left.cmp_precedence(&right) {
        std::cmp::Ordering::Less => Precedence::Lower,
        std::cmp::Ordering::Equal => Precedence::Same,
        std::cmp::Ordering::Greater => Precedence::Higher,
    }
}

impl Version {
    /// A version without pre-release identifier and build metadata.
    pub fn new(major: u64, minor: u64, patch: u64) -> (version: Self)
        ensures
            version@ == (VersionState {
                major,
                minor,
                patch,
                pre: Seq::empty(),
                build: Seq::empty(),
            }),
            version@.valid(),
    {
        let version = Version { major, minor, patch, pre: String::new(), build: String::new() };
        assert(version.pre@ =~= Seq::<char>::empty());
        assert(version.build@ =~= Seq::<char>::empty());
        version
    }

    /// Reads a version. An error holds the reason why `text` is none.
    pub fn parse(text: &str) -> (outcome: Result<Self, String>)
        ensures
            match outcome {
                Ok(version) => version@.valid() && version@.text() == text@,
                Err(message) => {
                    &&& forall|version: VersionState|
                        #![trigger version.text()]
                        version.valid() ==> version.text() != text@
                    &&& message@ == parse_failure(text@)
                },
            },
    {
        parse_text(text)
    }

    /// How the version is ordered against `other`.
    pub fn precedence(&self, other: &Version) -> (order: Precedence)
        requires
            self@.valid(),
            other@.valid(),
        ensures
            order == self@.precedence(other@),
            order is Same ==> self@.pre == other@.pre,
    {
        order_by_precedence(self, other)
    }

    /// Writes the version.
    pub fn to_string(&self) -> (text: String)
        ensures
            text@ == self@.text(),
    {
        let mut text = decimal_text(self.major);
        text.append(".");
        text.append(decimal_text(self.minor).as_str());
        text.append(".");
        text.append(decimal_text(self.patch).as_str());
        if !self.pre.as_str().is_empty() {
            text.append("-");
            text.append(self.pre.as_str());
        }
        if !self.build.as_str().is_empty() {
            text.append("+");
            text.append(self.build.as_str());
        }
        proof {
            reveal_strlit(".");
            reveal_strlit("-");
            reveal_strlit("+");
            assert(text@ =~= self@.text());
        }
        text
    }
}

/// What is written after the patch number is determined by how it is written.
proof fn lemma_suffix_is_determined(a: VersionState, b: VersionState)
    requires
        a.valid(),
        b.valid(),
        marked('-', a.pre) + marked('+', a.build) == marked('-', b.pre) + marked('+', b.build),
    ensures
        a.pre == b.pre,
        a.build == b.build,
{
    let class = |c: char| c != '+';
    leading_run_is_determined(
        class,
        marked('-', a.pre),
        marked('+', a.build),
        marked('-', b.pre),
        marked('+', b.build),
    );
    assert(marked('-', a.pre).skip(1) =~= a.pre || a.pre.len() == 0);
    assert(marked('-', b.pre).skip(1) =~= b.pre || b.pre.len() == 0);
    assert(marked('+', a.build).skip(1) =~= a.build || a.build.len() == 0);
    assert(marked('+', b.build).skip(1) =~= b.build || b.build.len() == 0);
    assert(a.pre =~= b.pre);
    assert(a.build =~= b.build);
}

/// A text is the text of one version at most, so that reading what was written gives back the
/// version that was written.
pub proof fn text_determines_the_version(a: VersionState, b: VersionState)
    requires
        a.valid(),
        b.valid(),
        a.text() == b.text(),
    ensures
        a == b,
{
    let class = |c: char| is_digit(c);
    let suffix_a = marked('-', a.pre) + marked('+', a.build);
    let suffix_b = marked('-', b.pre) + marked('+', b.build);
    let patch_a = decimal(a.patch as nat) + suffix_a;
    let patch_b = decimal(b.patch as nat) + suffix_b;
    let minor_a = decimal(a.minor as nat) + (seq!['.'] + patch_a);
    let minor_b = decimal(b.minor as nat) + (seq!['.'] + patch_b);
    decimal_is_digits(a.major as nat);
    decimal_is_digits(b.major as nat);
    decimal_is_digits(a.minor as nat);
    decimal_is_digits(b.minor as nat);
    decimal_is_digits(a.patch as nat);
    decimal_is_digits(b.patch as nat);
    leading_run_is_determined(
        class,
        decimal(a.major as nat),
        seq!['.'] + minor_a,
        decimal(b.major as nat),
        seq!['.'] + minor_b,
    );
    assert((seq!['.'] + minor_a).skip(1) =~= minor_a);
    assert((seq!['.'] + minor_b).skip(1) =~= minor_b);
    leading_run_is_determined(
        class,
        decimal(a.minor as nat),
        seq!['.'] + patch_a,
        decimal(b.minor as nat),
        seq!['.'] + patch_b,
    );
    assert((seq!['.'] + patch_a).skip(1) =~= patch_a);
    assert((seq!['.'] + patch_b).skip(1) =~= patch_b);
    leading_run_is_determined(
        class,
        decimal(a.patch as nat),
        suffix_a,
        decimal(b.patch as nat),
        suffix_b,
    );
    lemma_suffix_is_determined(a, b);
    decimal_determines_the_number(a.major as nat, b.major as nat);
    decimal_determines_the_number(a.minor as nat, b.minor as nat);
    decimal_determines_the_number(a.patch as nat, b.patch as nat);
}

/// A version is written as its three numbers with dots between them, the pre-release identifier
/// behind a hyphen and the build metadata behind a plus sign, where there are any, and nothing
/// else.
pub proof fn a_version_is_written_part_by_part(version: VersionState)
    ensures
        ({
            let text = version.text();
            let major = decimal(version.major as nat).len() as int;
            let minor = major + 1 + decimal(version.minor as nat).len();
            let patch = minor + 1 + decimal(version.patch as nat).len();
            let pre = if version.pre.len() == 0 {
                patch
            } else {
                patch + 1 + version.pre.len()
            };
            &&& number(text.take(major)) == version.major
            &&& text[major] == '.'
            &&& number(text.subrange(major + 1, minor)) == version.minor
            &&& text[minor] == '.'
            &&& number(text.subrange(minor + 1, patch)) == version.patch
            &&& version.pre.len() > 0 ==> text[patch] == '-' && text.subrange(patch + 1, pre)
                == version.pre
            &&& if version.build.len() > 0 {
                text[pre] == '+' && text.skip(pre + 1) == version.build
            } else {
                text.len() == pre
            }
        }),
{
    let text = version.text();
    let major = decimal(version.major as nat);
    let minor = decimal(version.minor as nat);
    let patch = decimal(version.patch as nat);
    decimal_stands_for_the_number(version.major as nat);
    decimal_stands_for_the_number(version.minor as nat);
    decimal_stands_for_the_number(version.patch as nat);
    let at_minor = (major.len() + 1) as int;
    let at_patch = (at_minor + minor.len() + 1) as int;
    let at_pre = (at_patch + patch.len()) as int;
    assert(text.take(major.len() as int) =~= major);
    assert(text.subrange(at_minor, at_minor + minor.len()) =~= minor);
    assert(text.subrange(at_patch, at_patch + patch.len()) =~= patch);
    let at_build = at_pre + marked('-', version.pre).len();
    if version.pre.len() > 0 {
        assert(text.subrange(at_pre + 1, at_build) =~= version.pre);
    }
    if version.build.len() > 0 {
        assert(text.skip(at_build + 1) =~= version.build);
    }
}

/// Versions are ordered by the leftmost number in which they differ. Of versions with the same
/// numbers a pre-release comes before the release, and build metadata makes no difference.
pub proof fn versions_are_ordered_from_the_left(a: VersionState, b: VersionState)
    ensures
        a.major != b.major ==> a.precedence(b) == if a.major < b.major {
            Precedence::Lower
        } else {
            Precedence::Higher
        },
        a.major == b.major && a.minor != b.minor ==> a.precedence(b) == if a.minor < b.minor {
            Precedence::Lower
        } else {
            Precedence::Higher
        },
        a.major == b.major && a.minor == b.minor && a.patch != b.patch ==> a.precedence(b) == if a.patch
            < b.patch {
            Precedence::Lower
        } else {
            Precedence::Higher
        },
        a.major == b.major && a.minor == b.minor && a.patch == b.patch ==> {
            &&& a.pre == b.pre ==> a.precedence(b) is Same
            &&& a.pre.len() > 0 && b.pre.len() == 0 ==> a.precedence(b) is Lower
            &&& a.pre.len() == 0 && b.pre.len() > 0 ==> a.precedence(b) is Higher
            &&& a.pre.len() > 0 && b.pre.len() > 0 && a.pre != b.pre ==> a.precedence(b)
                == prerelease_order(a.pre, b.pre)
        },
        a.numbers_before(b) <==> !b.numbers_before(a) && (a.major != b.major || a.minor != b.minor
            || a.patch != b.patch),
{
}

} // verus!
