//! Versions: of the native library that the bindings are written for, and of
//! the package whose builds the cache keeps apart.

use crate::number::{decimal, decimal_u64, parse_i32, parse_i32_spec, parse_u64, parse_u64_spec};
use crate::text::{
    chars_of, extend_chars, find_char, last_position, matches_at, position, rfind_char,
    starts_with, string_of,
};
use vstd::prelude::*;

verus! {

/// Major version of the native library that the bindings are written for.
pub const ECM_VERSION_MAJOR: i32 = 7;

/// Minor version of the native library that the bindings are written for.
pub const ECM_VERSION_MINOR: i32 = 0;

/// Patch level of the native library that the bindings are written for.
pub const ECM_VERSION_PATCHLEVEL: i32 = 6;

/// A native library of version `major.minor.patchlevel` can stand in for the
/// `expected` one: the same major version, and no older. A library of the
/// system is allowed an older patch level.
pub open spec fn compatible(
    use_system_libs: bool,
    major: int,
    minor: int,
    patchlevel: int,
    expected: (int, int, int),
) -> bool {
    major == expected.0 && minor >= expected.1 && (minor > expected.1 || patchlevel >= expected.2
        || use_system_libs)
}

/// Whether a native library of version `major.minor.patchlevel` can stand in
/// for the `expected` one.
pub fn compatible_version(
    use_system_libs: bool,
    major: i32,
    minor: i32,
    patchlevel: i32,
    expected: (i32, i32, i32),
) -> (r: bool)
    ensures
        r == compatible(
            use_system_libs,
            major as int,
            minor as int,
            patchlevel as int,
            (expected.0 as int, expected.1 as int, expected.2 as int),
        ),
{
    (major == expected.0 && minor >= expected.1) && (minor > expected.1 || patchlevel
        >= expected.2 || use_system_libs)
}

/// Among compatible versions of one minor version, a newer patch level is
/// compatible too; and whatever is compatible without the system's allowance
/// is compatible with it.
pub proof fn lemma_compatible_monotone(
    major: int,
    minor: int,
    patchlevel: int,
    newer: int,
    expected: (int, int, int),
)
    requires
        compatible(false, major, minor, patchlevel, expected),
        patchlevel <= newer,
    ensures
        compatible(false, major, minor, newer, expected),
        compatible(true, major, minor, patchlevel, expected),
{
}

/// Why a package version cannot be taken apart.
#[derive(Clone, Copy, Debug, PartialEq, Eq, Structural)]
pub enum VersionError {
    /// The version holds no dot.
    NoDots,
    /// The only dot is the first character.
    StartsWithDot,
}

/// A package version as the cache sees it: what stands before the last dot,
/// and the number behind it. Where no number stands behind the last dot, the
/// whole version is the prefix and there is no patch number.
#[derive(Debug, Clone)]
pub struct PackageVersion {
    /// The version without its patch number.
    pub prefix: String,
    /// The patch number.
    pub patch: Option<u64>,
}

/// What a version is taken apart into.
pub open spec fn split_version_spec(version: Seq<char>) -> Result<
    (Seq<char>, Option<u64>),
    VersionError,
> {
    match last_position(version, '.') {
        None => Err(VersionError::NoDots),
        Some(dot) => if dot == 0 {
            Err(VersionError::StartsWithDot)
        } else {
            match parse_u64_spec(version.skip(dot + 1)) {
                Some(patch) => Ok((version.take(dot), Some(patch as u64))),
                None => Ok((version, None)),
            }
        },
    }
}

/// Takes a package version apart at its last dot.
pub fn split_version(version: &str) -> (r: Result<PackageVersion, VersionError>)
    ensures
        match r {
            Ok(v) => split_version_spec(version@) == Ok::<_, VersionError>((v.prefix@, v.patch)),
            Err(e) => split_version_spec(version@) == Err::<(Seq<char>, Option<u64>), _>(e),
        },
{
    let chars: Vec<char> = chars_of(version);
    match rfind_char(chars.as_slice(), '.') {
        None => Err(VersionError::NoDots),
        Some(dot) => {
            if dot == 0 {
                return Err(VersionError::StartsWithDot);
            }
            assert(dot < chars.len());
            let tail: &[char] = &chars.as_slice()[dot + 1..chars.len()];
            assert(tail@ =~= version@.skip(dot + 1));
            match parse_u64(tail) {
                Some(patch) => {
                    let head: &[char] = &chars.as_slice()[0..dot];
                    assert(head@ =~= version@.take(dot as int));
                    Ok(PackageVersion { prefix: string_of(head), patch: Some(patch) })
                },
                None => Ok(PackageVersion { prefix: string_of(chars.as_slice()), patch: None }),
            }
        },
    }
}

/// The name of the cache directory of one version: the prefix, and behind a
/// dot the patch number where there is one.
pub open spec fn version_dir_name_spec(prefix: Seq<char>, patch: Option<u64>) -> Seq<char> {
    match patch {
        None => prefix,
        Some(p) => prefix.push('.') + decimal(p as nat),
    }
}

/// The name of the cache directory of one version.
pub fn version_dir_name(prefix: &str, patch: Option<u64>) -> (r: String)
    ensures
        r@ == version_dir_name_spec(prefix@, patch),
{
    let mut name: Vec<char> = chars_of(prefix);
    match patch {
        None => {},
        Some(p) => {
            name.push('.');
            let digits: Vec<char> = decimal_u64(p);
            extend_chars(&mut name, digits.as_slice());
        },
    }
    string_of(name.as_slice())
}

/// The number that stands in `s` before its first dot, and what follows
/// that dot; `None` where `s` holds no dot or no number stands before it.
pub open spec fn leading_number(s: Seq<char>) -> Option<(int, Seq<char>)> {
    let dot = position(s, '.');
    if dot < s.len() {
        match parse_i32_spec(s.take(dot)) {
            Some(n) => Some((n, s.skip(dot + 1))),
            None => None,
        }
    } else {
        None
    }
}

/// Whether the compiler that answered `version` when asked for its version
/// is of version `major.minor` or a later one. The answer has to begin with
/// `rustc `, followed by the major version, a dot, and for a compiler of
/// just that major version the minor version and another dot; any other
/// answer gives `None`.
pub open spec fn rustc_later_eq_spec(version: Seq<char>, major: int, minor: int) -> Option<bool> {
    if !matches_at(version, "rustc "@, 0) {
        None
    } else {
        match leading_number(version.skip("rustc "@.len() as int)) {
            None => None,
            Some((found_major, rest)) => if found_major < major {
                Some(false)
            } else if found_major > major {
                Some(true)
            } else {
                match leading_number(rest) {
                    None => None,
                    Some((found_minor, _)) => Some(found_minor >= minor),
                }
            },
        }
    }
}

/// The number that stands in `s` before its first dot, and the index behind
/// that dot.
fn read_leading_number(s: &[char]) -> (r: Option<(i32, usize)>)
    ensures
        match r {
            Some((n, next)) => next <= s@.len() && leading_number(s@) == Some(
                (n as int, s@.skip(next as int)),
            ),
            None => leading_number(s@) is None,
        },
{
    match find_char(s, '.') {
        None => None,
        Some(dot) => {
            assert(dot < s.len());
            let head: &[char] = &s[0..dot];
            assert(head@ =~= s@.take(dot as int));
            match parse_i32(head) {
                Some(n) => Some((n, dot + 1)),
                None => None,
            }
        },
    }
}

/// Whether the compiler that answered `version` when asked for its version
/// is of version `major.minor` or a later one.
pub fn rustc_later_eq(version: &str, major: i32, minor: i32) -> (r: Option<bool>)
    ensures
        r == rustc_later_eq_spec(version@, major as int, minor as int),
{
    let chars: Vec<char> = chars_of(version);
    let name: Vec<char> = chars_of("rustc ");
    if !starts_with(chars.as_slice(), name.as_slice()) {
        return None;
    }
    let remain: &[char] = &chars.as_slice()[name.len()..chars.len()];
    assert(remain@ =~= version@.skip("rustc "@.len() as int));
    match read_leading_number(remain) {
        None => None,
        Some((found_major, next)) => {
            if found_major < major {
                Some(false)
            } else if found_major > major {
                Some(true)
            } else {
                let rest: &[char] = &remain[next..remain.len()];
                assert(rest@ =~= remain@.skip(next as int));
                match read_leading_number(rest) {
                    None => None,
                    Some((found_minor, _)) => Some(found_minor >= minor),
                }
            }
        },
    }
}

} // verus!
