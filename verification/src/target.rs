//! The build's target: what kind it is, whether the native library can be
//! built for it, and how the native build is configured for it.

use crate::text::{
    chars_of, contains, matches_at, occurs, push_str, same_chars, same_text, starts_with,
    string_of,
};
use vstd::prelude::*;

verus! {

/// The kinds of target that the build tells apart.
#[derive(Clone, Copy, Debug, PartialEq, Eq, Structural)]
pub enum Target {
    /// Windows with the GNU toolchain.
    Mingw,
    /// Windows with Microsoft's toolchain.
    Msvc,
    /// Any other target.
    Other,
}

/// The kind of the target triple `raw_target`.
pub open spec fn classify_target_spec(raw_target: Seq<char>) -> Target {
    if occurs(raw_target, "-windows-msvc"@) {
        Target::Msvc
    } else if occurs(raw_target, "-windows-gnu"@) {
        Target::Mingw
    } else {
        Target::Other
    }
}

/// The kind of the target triple `raw_target`.
pub fn classify_target(raw_target: &str) -> (r: Target)
    ensures
        r == classify_target_spec(raw_target@),
{
    let t: Vec<char> = chars_of(raw_target);
    let msvc: Vec<char> = chars_of("-windows-msvc");
    let gnu: Vec<char> = chars_of("-windows-gnu");
    if contains(t.as_slice(), msvc.as_slice()) {
        Target::Msvc
    } else if contains(t.as_slice(), gnu.as_slice()) {
        Target::Mingw
    } else {
        Target::Other
    }
}

impl Target {
    /// Whether the native library can be built and linked for this target:
    /// for all but Microsoft's toolchain.
    pub fn can_build(self) -> (r: bool)
        ensures
            r == (self != Target::Msvc),
    {
        match self {
            Target::Msvc => false,
            _ => true,
        }
    }

    /// Whether a library of the system can be used on this target: on all
    /// but Microsoft's toolchain.
    pub fn supports_system_libs(self) -> (r: bool)
        ensures
            r == (self != Target::Msvc),
    {
        match self {
            Target::Msvc => false,
            _ => true,
        }
    }

    /// Whether the place of the system's library has to be asked of
    /// `pkg-config`: on Windows with the GNU toolchain.
    pub fn needs_pkg_config(self) -> (r: bool)
        ensures
            r == (self == Target::Mingw),
    {
        match self {
            Target::Mingw => true,
            _ => false,
        }
    }
}

/// Building on `host` for `target` is supported: for the host itself, and
/// from `x86_64` for the `i686` machine of the same system, except on
/// Windows with the GNU toolchain.
pub open spec fn target_allowed(host: Seq<char>, target: Seq<char>) -> bool {
    host == target || (matches_at(host, "x86_64"@, 0) && matches_at(target, "i686"@, 0)
        && host.skip("x86_64"@.len() as int) == target.skip("i686"@.len() as int) && !occurs(
        target,
        "-windows-gnu"@,
    ))
}

/// Whether building on `host` for `target` is supported.
pub fn compilation_target_allowed(host: &str, target: &str) -> (r: bool)
    ensures
        r == target_allowed(host@, target@),
{
    let h: Vec<char> = chars_of(host);
    let t: Vec<char> = chars_of(target);
    if same_chars(h.as_slice(), t.as_slice()) {
        return true;
    }
    let wide: Vec<char> = chars_of("x86_64");
    let narrow: Vec<char> = chars_of("i686");
    if !starts_with(h.as_slice(), wide.as_slice()) || !starts_with(
        t.as_slice(),
        narrow.as_slice(),
    ) {
        return false;
    }
    let host_rest: &[char] = &h.as_slice()[wide.len()..h.len()];
    let target_rest: &[char] = &t.as_slice()[narrow.len()..t.len()];
    assert(host_rest@ =~= host@.skip("x86_64"@.len() as int));
    assert(target_rest@ =~= target@.skip("i686"@.len() as int));
    if !same_chars(host_rest, target_rest) {
        return false;
    }
    let gnu: Vec<char> = chars_of("-windows-gnu");
    !contains(t.as_slice(), gnu.as_slice())
}

/// The target to build for where it is not the host.
pub open spec fn cross_target_spec(host: Seq<char>, raw_target: Seq<char>) -> Option<Seq<char>> {
    if host == raw_target {
        None
    } else {
        Some(raw_target)
    }
}

/// The target to build for where it is not the host.
pub fn cross_target(host: &str, raw_target: &str) -> (r: Option<String>)
    ensures
        match r {
            Some(t) => cross_target_spec(host@, raw_target@) == Some(t@),
            None => cross_target_spec(host@, raw_target@) is None,
        },
{
    if same_text(host, raw_target) {
        None
    } else {
        let t: Vec<char> = chars_of(raw_target);
        Some(string_of(t.as_slice()))
    }
}

/// The name by which the native build knows a target: its own name for
/// 64-bit Windows with the GNU toolchain, else the target's name.
pub open spec fn actual_cross_target(cross_target: Seq<char>) -> Seq<char> {
    if cross_target == "x86_64-pc-windows-gnu"@ {
        "x86_64-w64-mingw32"@
    } else {
        cross_target
    }
}

/// The name by which the native build knows a target.
pub fn get_actual_cross_target<'a>(cross_target: &'a str) -> (r: &'a str)
    ensures
        r@ == actual_cross_target(cross_target@),
{
    if same_text(cross_target, "x86_64-pc-windows-gnu") {
        "x86_64-w64-mingw32"
    } else {
        cross_target
    }
}

/// The shell line that configures the native build.
pub open spec fn configure_line_spec(cross_target: Option<Seq<char>>) -> Seq<char> {
    match cross_target {
        None => "../ecm-src/configure --enable-fat --disable-shared --with-pic"@,
        Some(t) => "../ecm-src/configure --enable-fat --disable-shared --with-pic"@ + " --host "@
            + actual_cross_target(t),
    }
}

/// The shell line that configures the native build, for the host or for
/// another target.
pub fn configure_line(cross_target: Option<&str>) -> (r: String)
    ensures
        r@ == configure_line_spec(
            match cross_target {
                Some(t) => Some(t@),
                None => None,
            },
        ),
{
    let mut line: Vec<char> = chars_of(
        "../ecm-src/configure --enable-fat --disable-shared --with-pic",
    );
    match cross_target {
        None => {},
        Some(t) => {
            push_str(&mut line, " --host ");
            push_str(&mut line, get_actual_cross_target(t));
        },
    }
    string_of(line.as_slice())
}

/// Whether the native library's own tests are run after the build: unless
/// they were switched off, and only where the build is for the host.
pub fn runs_native_tests(c_no_tests: bool, cross: bool) -> (r: bool)
    ensures
        r == (!c_no_tests && !cross),
{
    !c_no_tests && !cross
}

} // verus!
