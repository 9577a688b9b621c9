//! Version numbers of nodes and whether two of them go together.

use vstd::prelude::*;

verus! {

/// The major, minor and patch number that a version string stands for, if it is one.
pub uninterp spec fn semver_numbers(text: Seq<char>) -> Option<(u64, u64, u64)>;

/// Reads a semantic version.
///
/// Trusted: calls `semver::Version::parse` and hands out the three numbers
/// of the version; the result is named.
#[verifier::external_body]
pub(crate) fn parse_version(text: &str) -> (numbers: Option<(u64, u64, u64)>)
    ensures
        numbers == semver_numbers(text@),
{
    semver::Version::parse(text).ok().map(|version| (version.major, version.minor, version.patch))
}

/// Two versions go together when both are versions and agree in major and minor number.
pub open spec fn minor_version_compatible(a: Seq<char>, b: Seq<char>) -> bool {
    match (semver_numbers(a), semver_numbers(b)) {
        (Some(left), Some(right)) => left.0 == right.0 && left.1 == right.1,
        _ => false,
    }
}

/// Whether versions `a` and `b` agree in major and minor number.
pub fn is_minor_version_compatible(a: &str, b: &str) -> (compatible: bool)
    ensures
        compatible == minor_version_compatible(a@, b@),
{
    let left = match parse_version(a) {
        Some(left) => left,
        None => {
            return false;
        },
    };
    let right = match parse_version(b) {
        Some(right) => right,
        None => {
            return false;
        },
    };
    versions_agree(left, right)
}

/// Whether two parsed versions agree in major and minor number.
pub fn versions_agree(left: (u64, u64, u64), right: (u64, u64, u64)) -> (agree: bool)
    ensures
        agree == (left.0 == right.0 && left.1 == right.1),
{
    left.0 == right.0 && left.1 == right.1
}

} // verus!
