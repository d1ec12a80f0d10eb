//! What the build tells cargo: where the built files are, and how to link
//! the native library.

use crate::text::{chars_of, contains, occurs, push_str, same_text, string_of};
use vstd::prelude::*;

verus! {

/// The facts of a build that decide how the native library is linked.
#[derive(Debug, Clone)]
pub struct LinkSetup<'a> {
    /// The directory that the build writes to.
    pub out_dir: &'a str,
    /// The directory of the built library.
    pub lib_dir: &'a str,
    /// The directory of the library's header.
    pub include_dir: &'a str,
    /// The target's environment, such as `gnu` or `musl`.
    pub target_env: &'a str,
    /// The target's features, separated by commas.
    pub target_features: &'a str,
    /// Whether the library of the system is used.
    pub use_system_libs: bool,
}

/// Whether the system's own library directory is searched too: with the
/// system's library on musl.
pub open spec fn searches_usr_lib(target_env: Seq<char>, use_system_libs: bool) -> bool {
    target_env == "musl"@ && use_system_libs
}

/// Whether the native library is linked statically: always where it was
/// built here, and for a static musl target also where it is the system's.
pub open spec fn links_statically(
    target_env: Seq<char>,
    target_features: Seq<char>,
    use_system_libs: bool,
) -> bool {
    (target_env == "musl"@ && occurs(target_features, "crt-static"@)) || !use_system_libs
}

/// The lines for cargo, in order.
pub open spec fn link_directives_spec(
    out_dir: Seq<char>,
    lib_dir: Seq<char>,
    include_dir: Seq<char>,
    target_env: Seq<char>,
    target_features: Seq<char>,
    use_system_libs: bool,
) -> Seq<Seq<char>> {
    let places = seq![
        "cargo:out_dir="@ + out_dir,
        "cargo:lib_dir="@ + lib_dir,
        "cargo:include_dir="@ + include_dir,
        "cargo:rustc-link-search=native="@ + lib_dir,
    ];
    let search = if searches_usr_lib(target_env, use_system_libs) {
        places.push("cargo:rustc-link-search=/usr/lib"@)
    } else {
        places
    };
    if links_statically(target_env, target_features, use_system_libs) {
        search.push("cargo:rustc-link-lib=static=ecm"@)
    } else {
        search.push("cargo:rustc-link-lib=ecm"@)
    }
}

/// The texts that a vector of strings holds.
pub open spec fn lines(v: Seq<String>) -> Seq<Seq<char>> {
    v.map_values(|s: String| s@)
}

/// `key` followed by `value`.
fn directive(key: &str, value: &str) -> (r: String)
    ensures
        r@ == key@ + value@,
{
    let mut line: Vec<char> = chars_of(key);
    push_str(&mut line, value);
    string_of(line.as_slice())
}

/// The lines that tell cargo where the built files are and how to link the
/// native library.
pub fn link_directives(setup: &LinkSetup) -> (r: Vec<String>)
    ensures
        lines(r@) == link_directives_spec(
            setup.out_dir@,
            setup.lib_dir@,
            setup.include_dir@,
            setup.target_env@,
            setup.target_features@,
            setup.use_system_libs,
        ),
{
    let mut out: Vec<String> = Vec::new();
    out.push(directive("cargo:out_dir=", setup.out_dir));
    out.push(directive("cargo:lib_dir=", setup.lib_dir));
    out.push(directive("cargo:include_dir=", setup.include_dir));
    out.push(directive("cargo:rustc-link-search=native=", setup.lib_dir));
    let musl: bool = same_text(setup.target_env, "musl");
    if musl && setup.use_system_libs {
        out.push(directive("cargo:rustc-link-search=/usr/lib", ""));
    }
    let features: Vec<char> = chars_of(setup.target_features);
    let crt_static: Vec<char> = chars_of("crt-static");
    let use_static: bool = (musl && contains(features.as_slice(), crt_static.as_slice()))
        || !setup.use_system_libs;
    if use_static {
        out.push(directive("cargo:rustc-link-lib=static=ecm", ""));
    } else {
        out.push(directive("cargo:rustc-link-lib=ecm", ""));
    }
    proof {
        reveal_strlit("");
        assert(""@ =~= Seq::<char>::empty());
        assert(lines(out@) =~= link_directives_spec(
            setup.out_dir@,
            setup.lib_dir@,
            setup.include_dir@,
            setup.target_env@,
            setup.target_features@,
            setup.use_system_libs,
        ));
    }
    out
}

/// The directory that a `pkg-config` answer names after its `-L`.
pub open spec fn lib_dir_of_spec(answer: Seq<u8>) -> Option<Seq<u8>> {
    if answer.len() >= 2 && answer[0] == 0x2du8 && answer[1] == 0x4cu8 {
        Some(answer.skip(2))
    } else {
        None
    }
}

/// The directory that a `pkg-config` answer names: what follows the `-L`
/// that the answer has to begin with.
pub fn lib_dir_of(answer: &[u8]) -> (r: Option<&[u8]>)
    ensures
        match r {
            Some(dir) => lib_dir_of_spec(answer@) == Some(dir@),
            None => lib_dir_of_spec(answer@) is None,
        },
{
    if answer.len() < 2 || answer[0] != 0x2d || answer[1] != 0x4c {
        return None;
    }
    let dir: &[u8] = &answer[2..answer.len()];
    assert(dir@ =~= answer@.skip(2));
    Some(dir)
}

} // verus!
