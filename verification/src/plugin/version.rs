//! CS2KZ plugin versions (SemVer versions, compared by SemVer precedence).

use crate::text::{decimal_digits, is_digit};
use vstd::prelude::*;

verus! {

/// Characters that may appear in a pre-release or build identifier.
pub open spec fn is_identifier_char(c: char) -> bool {
    ('A' <= c && c <= 'Z') || ('a' <= c && c <= 'z') || ('0' <= c && c <= '9') || c == '-'
}

/// Whether `text` is empty or consists of non-empty segments of identifier
/// characters separated by single dots.
pub open spec fn dotted_segments(text: Seq<char>) -> bool {
    text.len() == 0 || {
        &&& forall|i: int|
            0 <= i < text.len() ==> is_identifier_char(#[trigger] text[i]) || text[i] == '.'
        &&& text[0] != '.'
        &&& text.last() != '.'
        &&& forall|i: int, j: int|
            0 <= i && j == i + 1 && j < text.len() ==> !(#[trigger] text[i] == '.' && #[trigger] text[j]
                == '.')
    }
}

/// Whether the segment of `text` from `i` up to `e` is a number of more than
/// one digit that starts with `0`.
pub open spec fn leading_zero_number(text: Seq<char>, i: int, e: int) -> bool {
    &&& 0 <= i
    &&& i + 1 < e <= text.len()
    &&& i == 0 || text[i - 1] == '.'
    &&& e == text.len() || text[e] == '.'
    &&& text[i] == '0'
    &&& forall|k: int| i <= k < e ==> is_digit(#[trigger] text[k])
}

/// Whether `semver::Prerelease::new` accepts `text`: dot-separated segments
/// of identifier characters, none of them a number with a leading zero (the
/// empty text is accepted).
pub open spec fn semver_accepts_prerelease(text: Seq<char>) -> bool {
    dotted_segments(text) && !exists|i: int, e: int| leading_zero_number(text, i, e)
}

/// Whether `semver::BuildMetadata::new` accepts `text`: dot-separated
/// segments of identifier characters (the empty text is accepted).
pub open spec fn semver_accepts_build(text: Seq<char>) -> bool {
    dotted_segments(text)
}

/// Whether the version with parts `lhs` is greater than the version with parts
/// `rhs` in the order of `semver::Version` (major, minor, patch, pre-release,
/// build metadata).
pub uninterp spec fn semver_greater(
    lhs: (u64, u64, u64, Seq<char>, Seq<char>),
    rhs: (u64, u64, u64, Seq<char>, Seq<char>),
) -> bool;

/// Checks `text` with `semver::Prerelease::new`.
///
/// The contract states the grammar that the crate's identifier parser
/// accepts for a pre-release (see [`semver_accepts_prerelease`]).
#[verifier::external_body]
fn prerelease_is_valid(text: &str) -> (r: bool)
    ensures
        r == semver_accepts_prerelease(text@),
{
    semver::Prerelease::new(text).is_ok()
}

/// Checks `text` with `semver::BuildMetadata::new`.
///
/// The contract states the grammar that the crate's identifier parser
/// accepts for build metadata (see [`semver_accepts_build`]).
#[verifier::external_body]
fn build_is_valid(text: &str) -> (r: bool)
    ensures
        r == semver_accepts_build(text@),
{
    semver::BuildMetadata::new(text).is_ok()
}

/// A SemVer version of the CS2KZ plugin.
#[derive(Debug)]
pub struct PluginVersion {
    major: u64,
    minor: u64,
    patch: u64,
    pre: String,
    build: String,
}

/// The major, minor and patch numbers, pre-release and build metadata of a
/// version.
pub type VersionParts = (u64, u64, u64, Seq<char>, Seq<char>);

/// Compares two valid versions as `semver::Version`'s `>` does.
///
/// The contract names the result. It also states what the derived ordering of
/// `semver::Version` plainly gives: the numeric parts are compared first, in
/// order, and a version is never greater than one with the same parts (both
/// `Prerelease` and `BuildMetadata` compare equal texts as equal).
#[verifier::external_body]
fn greater_than(a: &PluginVersion, b: &PluginVersion) -> (r: bool)
    requires
        semver_accepts_prerelease(a.pre@) && semver_accepts_build(a.build@),
        semver_accepts_prerelease(b.pre@) && semver_accepts_build(b.build@),
    ensures
        r == semver_greater(a.parts(), b.parts()),
        a.major != b.major ==> r == (a.major > b.major),
        a.major == b.major && a.minor != b.minor ==> r == (a.minor > b.minor),
        a.major == b.major && a.minor == b.minor && a.patch != b.patch ==> r == (a.patch
            > b.patch),
        a.parts() == b.parts() ==> !r,
{
    let lhs = semver::Version {
        major: a.major,
        minor: a.minor,
        patch: a.patch,
        pre: semver::Prerelease::new(&a.pre).unwrap(),
        build: semver::BuildMetadata::new(&a.build).unwrap(),
    };
    let rhs = semver::Version {
        major: b.major,
        minor: b.minor,
        patch: b.patch,
        pre: semver::Prerelease::new(&b.pre).unwrap(),
        build: semver::BuildMetadata::new(&b.build).unwrap(),
    };
    lhs > rhs
}

/// The text of a version with parts `parts`, as `semver::Version` writes it:
/// `major.minor.patch`, then `-` and the pre-release if there is one, then
/// `+` and the build metadata if there is any.
pub open spec fn version_text(parts: VersionParts) -> Seq<char> {
    decimal_digits(parts.0 as nat) + seq!['.'] + decimal_digits(parts.1 as nat) + seq!['.']
        + decimal_digits(parts.2 as nat) + (if parts.3.len() > 0 {
        seq!['-'] + parts.3
    } else {
        seq![]
    }) + (if parts.4.len() > 0 {
        seq!['+'] + parts.4
    } else {
        seq![]
    })
}

/// Writes a valid version with `semver::Version`'s `Display`.
///
/// The contract states the text that the crate's `Display` writes: the three
/// numbers in decimal separated by dots, then the pre-release and the build
/// metadata (each kept as given) behind `-` and `+` when they are not empty.
#[verifier::external_body]
fn version_to_string(v: &PluginVersion) -> (r: String)
    requires
        semver_accepts_prerelease(v.pre@) && semver_accepts_build(v.build@),
    ensures
        r@ == version_text(v.parts()),
{
    semver::Version {
        major: v.major,
        minor: v.minor,
        patch: v.patch,
        pre: semver::Prerelease::new(&v.pre).unwrap(),
        build: semver::BuildMetadata::new(&v.build).unwrap(),
    }.to_string()
}

impl PluginVersion {
    #[verifier::type_invariant]
    spec fn valid(self) -> bool {
        semver_accepts_prerelease(self.pre@) && semver_accepts_build(self.build@)
    }

    /// The parts of the version.
    pub closed spec fn parts(self) -> VersionParts {
        (self.major, self.minor, self.patch, self.pre@, self.build@)
    }

    /// Version 0.0.0.
    pub fn zero() -> (r: PluginVersion)
        ensures
            r.parts() == (0u64, 0u64, 0u64, Seq::<char>::empty(), Seq::<char>::empty()),
    {
        let pre = String::new();
        let build = String::new();
        proof {
            assert(pre@.len() == 0 && build@.len() == 0);
        }
        PluginVersion { major: 0, minor: 0, patch: 0, pre, build }
    }

    /// Builds a version from its parts, which must be a valid pre-release and
    /// build metadata (the database only holds such versions).
    pub fn from_parts(major: u64, minor: u64, patch: u64, pre: &str, build: &str) -> (r:
        PluginVersion)
        requires
            semver_accepts_prerelease(pre@),
            semver_accepts_build(build@),
        ensures
            r.parts() == (major, minor, patch, pre@, build@),
    {
        PluginVersion { major, minor, patch, pre: pre.to_owned(), build: build.to_owned() }
    }

    /// Builds a version from its parts if `semver` accepts the pre-release
    /// and the build metadata, and `None` otherwise.
    pub fn try_from_parts(major: u64, minor: u64, patch: u64, pre: &str, build: &str) -> (r: Option<
        PluginVersion,
    >)
        ensures
            r is Some <==> semver_accepts_prerelease(pre@) && semver_accepts_build(build@),
            r matches Some(v) ==> v.parts() == (major, minor, patch, pre@, build@),
    {
        if prerelease_is_valid(pre) && build_is_valid(build) {
            Some(Self::from_parts(major, minor, patch, pre, build))
        } else {
            None
        }
    }

    /// The major version number.
    pub fn major(&self) -> (r: u64)
        ensures
            r == self.parts().0,
    {
        self.major
    }

    /// The minor version number.
    pub fn minor(&self) -> (r: u64)
        ensures
            r == self.parts().1,
    {
        self.minor
    }

    /// The patch version number.
    pub fn patch(&self) -> (r: u64)
        ensures
            r == self.parts().2,
    {
        self.patch
    }

    /// The pre-release text (empty if there is none).
    pub fn pre(&self) -> (r: &str)
        ensures
            r@ == self.parts().3,
            semver_accepts_prerelease(r@),
    {
        proof {
            use_type_invariant(self);
        }
        self.pre.as_str()
    }

    /// The build metadata text (empty if there is none).
    pub fn build(&self) -> (r: &str)
        ensures
            r@ == self.parts().4,
            semver_accepts_build(r@),
    {
        proof {
            use_type_invariant(self);
        }
        self.build.as_str()
    }

    /// Whether this version is greater than `other` in SemVer order (`>`).
    pub fn is_newer_than(&self, other: &PluginVersion) -> (r: bool)
        ensures
            r == semver_greater(self.parts(), other.parts()),
            self.parts() == other.parts() ==> !r,
            self.parts().0 != other.parts().0 ==> r == (self.parts().0 > other.parts().0),
    {
        proof {
            use_type_invariant(self);
            use_type_invariant(other);
        }
        greater_than(self, other)
    }

    /// The version as text (`Display`), e.g. `1.23.456-dev`.
    pub fn to_text(&self) -> (r: String)
        ensures
            r@ == version_text(self.parts()),
    {
        proof {
            use_type_invariant(self);
        }
        version_to_string(self)
    }
}

} // verus!
