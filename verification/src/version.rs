//! Semantic versions and their total order.

use crate::error::ChangelogError;
use crate::decimal::{decimal_text, push_decimal};
use crate::identifier::{
    compare_identifier_lists, identifiers_order, lemma_identifiers_order_reverses,
    lemma_identifiers_order_same, lemma_identifiers_order_transitive, lemma_split_dots_injective,
    split_dots, split_identifiers,
};
use crate::precedence::{number_order, Precedence};
use vstd::prelude::*;
use vstd::string::StringExecFns;

verus! {

/// What a version is: three numbers, a pre-release text and a build text,
/// each text empty when the version has none.
pub struct VersionModel {
    pub major: nat,
    pub minor: nat,
    pub patch: nat,
    pub pre: Seq<char>,
    pub build: Seq<char>,
}

/// A semantic version.
#[derive(Debug)]
pub struct Version {
    pub major: u64,
    pub minor: u64,
    pub patch: u64,
    /// The dot-separated pre-release identifiers, empty for a release.
    pub pre: String,
    /// The dot-separated build identifiers, empty when there are none.
    pub build: String,
}

impl View for Version {
    type V = VersionModel;

    open spec fn view(&self) -> VersionModel {
        VersionModel {
            major: self.major as nat,
            minor: self.minor as nat,
            patch: self.patch as nat,
            pre: self.pre@,
            build: self.build@,
        }
    }
}

/// The order of two pre-release texts: a release, which has none, comes after
/// every pre-release; two pre-releases are ordered by their identifiers.
pub open spec fn prerelease_order(a: Seq<char>, b: Seq<char>) -> Precedence {
    if a.len() == 0 && b.len() == 0 {
        Precedence::Same
    } else if a.len() == 0 {
        Precedence::Higher
    } else if b.len() == 0 {
        Precedence::Lower
    } else {
        identifiers_order(split_dots(a), split_dots(b))
    }
}

/// The order of two build texts, by their identifiers.
pub open spec fn build_order(a: Seq<char>, b: Seq<char>) -> Precedence {
    identifiers_order(split_dots(a), split_dots(b))
}

/// The total order of versions: by major, minor and patch number, then by
/// pre-release, and among versions of one precedence by build text.
pub open spec fn version_order(a: VersionModel, b: VersionModel) -> Precedence {
    if a.major != b.major {
        number_order(a.major as int, b.major as int)
    } else if a.minor != b.minor {
        number_order(a.minor as int, b.minor as int)
    } else if a.patch != b.patch {
        number_order(a.patch as int, b.patch as int)
    } else if prerelease_order(a.pre, b.pre) != Precedence::Same {
        prerelease_order(a.pre, b.pre)
    } else {
        build_order(a.build, b.build)
    }
}

/// Whether `a` is numerically greater than `b`: greater in the first of
/// major, minor and patch number in which they differ.
pub open spec fn numerically_greater(a: VersionModel, b: VersionModel) -> bool {
    a.major > b.major || (a.major == b.major && (a.minor > b.minor || (a.minor == b.minor
        && a.patch > b.patch)))
}

/// A version as text: the three numbers with dots between, then a hyphen and
/// the pre-release if there is one, then a plus and the build if there is one.
pub open spec fn version_text(v: VersionModel) -> Seq<char> {
    decimal_text(v.major) + seq!['.'] + decimal_text(v.minor) + seq!['.'] + decimal_text(v.patch)
        + (if v.pre.len() > 0 {
        seq!['-'] + v.pre
    } else {
        Seq::<char>::empty()
    }) + (if v.build.len() > 0 {
        seq!['+'] + v.build
    } else {
        Seq::<char>::empty()
    })
}

/// The error with which `semver::Version::parse` refuses a text.
#[verifier::external_type_specification]
#[verifier::external_body]
pub struct ExSemverError(semver::Error);

/// What `semver::Version::parse` makes of a text: the version that the text
/// writes, or nothing where the text is no semantic version.
pub uninterp spec fn semver_parse(text: Seq<char>) -> Option<VersionModel>;

/// Calls `semver::Version::parse` and carries the parsed version over field
/// by field. The contract only names the outcome: `semver_parse` of the text.
#[verifier::external_body]
fn parse_semver(text: &str) -> (r: Result<Version, semver::Error>)
    ensures
        match r {
            Ok(v) => semver_parse(text@) == Some(v@),
            Err(_) => semver_parse(text@) is None,
        },
{
    match semver::Version::parse(text) {
        Ok(v) => Ok(
            Version {
                major: v.major,
                minor: v.minor,
                patch: v.patch,
                pre: v.pre.as_str().to_string(),
                build: v.build.as_str().to_string(),
            },
        ),
        Err(e) => Err(e),
    }
}

/// Orders two pre-release texts.
fn compare_prerelease(a: &str, b: &str) -> (r: Precedence)
    ensures
        r == prerelease_order(a@, b@),
{
    let a_release = a.is_empty();
    let b_release = b.is_empty();
    if a_release && b_release {
        Precedence::Same
    } else if a_release {
        Precedence::Higher
    } else if b_release {
        Precedence::Lower
    } else {
        let a_ids = split_identifiers(a);
        let b_ids = split_identifiers(b);
        compare_identifier_lists(&a_ids, &b_ids)
    }
}

/// Orders two build texts.
fn compare_build(a: &str, b: &str) -> (r: Precedence)
    ensures
        r == build_order(a@, b@),
{
    let a_ids = split_identifiers(a);
    let b_ids = split_identifiers(b);
    compare_identifier_lists(&a_ids, &b_ids)
}

impl Clone for Version {
    fn clone(&self) -> (r: Self)
        ensures
            r == *self,
    {
        Version {
            major: self.major,
            minor: self.minor,
            patch: self.patch,
            pre: self.pre.clone(),
            build: self.build.clone(),
        }
    }
}

impl Version {
    /// The release `major.minor.patch`, with no pre-release and no build.
    pub fn new(major: u64, minor: u64, patch: u64) -> (v: Version)
        ensures
            v@ == (VersionModel {
                major: major as nat,
                minor: minor as nat,
                patch: patch as nat,
                pre: Seq::<char>::empty(),
                build: Seq::<char>::empty(),
            }),
    {
        Version { major, minor, patch, pre: String::new(), build: String::new() }
    }

    /// Reads a version from its text. The text is a version exactly when
    /// `semver_parse` makes one of it.
    pub fn parse(text: &str) -> (r: Result<Version, ChangelogError>)
        ensures
            match r {
                Ok(v) => semver_parse(text@) == Some(v@),
                Err(e) => e == ChangelogError::InvalidVersion && semver_parse(text@) is None,
            },
    {
        match parse_semver(text) {
            Ok(v) => Ok(v),
            Err(_) => Err(ChangelogError::InvalidVersion),
        }
    }

    /// Where this version stands to `other` in the total order of versions.
    pub fn compare(&self, other: &Version) -> (r: Precedence)
        ensures
            r == version_order(self@, other@),
    {
        if self.major != other.major {
            if self.major < other.major {
                Precedence::Lower
            } else {
                Precedence::Higher
            }
        } else if self.minor != other.minor {
            if self.minor < other.minor {
                Precedence::Lower
            } else {
                Precedence::Higher
            }
        } else if self.patch != other.patch {
            if self.patch < other.patch {
                Precedence::Lower
            } else {
                Precedence::Higher
            }
        } else {
            let pre = compare_prerelease(self.pre.as_str(), other.pre.as_str());
            match pre {
                Precedence::Same => compare_build(self.build.as_str(), other.build.as_str()),
                _ => pre,
            }
        }
    }

    /// Whether this version and `other` are the same version.
    pub fn same_as(&self, other: &Version) -> (r: bool)
        ensures
            r == (self@ == other@),
    {
        self.major == other.major && self.minor == other.minor && self.patch == other.patch
            && self.pre == other.pre && self.build == other.build
    }

    /// The version as text.
    pub fn to_text(&self) -> (text: String)
        ensures
            text@ == version_text(self@),
    {
        let mut text = String::new();
        push_decimal(&mut text, self.major);
        text.push('.');
        push_decimal(&mut text, self.minor);
        text.push('.');
        push_decimal(&mut text, self.patch);
        if !self.pre.as_str().is_empty() {
            text.push('-');
            text.append(self.pre.as_str());
        }
        if !self.build.as_str().is_empty() {
            text.push('+');
            text.append(self.build.as_str());
        }
        text
    }
}

/// Swapping the two pre-releases reverses their order.
proof fn lemma_prerelease_order_reverses(a: Seq<char>, b: Seq<char>)
    ensures
        prerelease_order(b, a) == prerelease_order(a, b).reversed(),
{
    lemma_identifiers_order_reverses(split_dots(a), split_dots(b), 0);
}

/// Two texts have the same identifiers exactly when they are equal.
proof fn lemma_build_order_same(a: Seq<char>, b: Seq<char>)
    ensures
        build_order(a, b) == Precedence::Same <==> a == b,
{
    lemma_identifiers_order_same(split_dots(a), split_dots(b), 0);
    if build_order(a, b) == Precedence::Same {
        assert(split_dots(a) =~= split_dots(b));
        lemma_split_dots_injective(a, b);
    }
}

/// Two pre-releases are of the same rank exactly when they are equal.
proof fn lemma_prerelease_order_same(a: Seq<char>, b: Seq<char>)
    ensures
        prerelease_order(a, b) == Precedence::Same <==> a == b,
{
    lemma_build_order_same(a, b);
    if a.len() == 0 && b.len() == 0 {
        assert(a =~= b);
    }
}

/// The order of pre-releases is transitive.
proof fn lemma_prerelease_order_transitive(a: Seq<char>, b: Seq<char>, c: Seq<char>)
    requires
        prerelease_order(a, b) == Precedence::Lower,
        prerelease_order(b, c) == Precedence::Lower,
    ensures
        prerelease_order(a, c) == Precedence::Lower,
{
    if c.len() > 0 {
        lemma_identifiers_order_transitive(split_dots(a), split_dots(b), split_dots(c), 0);
    }
}

/// The order of versions is reflexive and antisymmetric: two versions are of
/// the same rank exactly when they are the same version.
pub proof fn lemma_version_order_same(a: VersionModel, b: VersionModel)
    ensures
        version_order(a, b) == Precedence::Same <==> a == b,
{
    lemma_prerelease_order_same(a.pre, b.pre);
    lemma_build_order_same(a.build, b.build);
}

/// Swapping the two versions reverses their order: of two different versions
/// exactly one is the higher.
pub proof fn lemma_version_order_reverses(a: VersionModel, b: VersionModel)
    ensures
        version_order(b, a) == version_order(a, b).reversed(),
{
    lemma_prerelease_order_reverses(a.pre, b.pre);
    lemma_identifiers_order_reverses(split_dots(a.build), split_dots(b.build), 0);
}

/// The order of versions is transitive.
pub proof fn lemma_version_order_transitive(a: VersionModel, b: VersionModel, c: VersionModel)
    requires
        version_order(a, b) != Precedence::Higher,
        version_order(b, c) != Precedence::Higher,
    ensures
        version_order(a, c) != Precedence::Higher,
        version_order(a, b) == Precedence::Lower || version_order(b, c) == Precedence::Lower
            ==> version_order(a, c) == Precedence::Lower,
{
    lemma_version_order_same(a, b);
    lemma_version_order_same(b, c);
    if version_order(a, b) == Precedence::Lower && version_order(b, c) == Precedence::Lower {
        lemma_prerelease_order_same(a.pre, b.pre);
        lemma_prerelease_order_same(b.pre, c.pre);
        if prerelease_order(a.pre, b.pre) == Precedence::Lower && prerelease_order(b.pre, c.pre)
            == Precedence::Lower {
            lemma_prerelease_order_transitive(a.pre, b.pre, c.pre);
        }
        if a.major == b.major && b.major == c.major && a.minor == b.minor && b.minor == c.minor
            && a.patch == b.patch && b.patch == c.patch && a.pre == b.pre && b.pre == c.pre {
            lemma_identifiers_order_transitive(
                split_dots(a.build),
                split_dots(b.build),
                split_dots(c.build),
                0,
            );
        }
    }
}

/// A version that is numerically greater than another is the higher of the
/// two, whatever their pre-release and build texts.
pub proof fn lemma_numerically_greater_is_higher(a: VersionModel, b: VersionModel)
    requires
        numerically_greater(a, b),
    ensures
        version_order(a, b) == Precedence::Higher,
{
}

} // verus!
