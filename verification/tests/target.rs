use gmp_ecm::target::{
    classify_target, compilation_target_allowed, configure_line, cross_target,
    get_actual_cross_target, runs_native_tests, Target,
};

#[test]
fn kinds_of_target() {
    assert_eq!(classify_target("x86_64-pc-windows-msvc"), Target::Msvc);
    assert_eq!(classify_target("i686-pc-windows-gnu"), Target::Mingw);
    assert_eq!(classify_target("x86_64-pc-windows-gnullvm"), Target::Mingw);
    assert_eq!(classify_target("x86_64-unknown-linux-gnu"), Target::Other);
    assert_eq!(classify_target("aarch64-apple-darwin"), Target::Other);
    assert_eq!(classify_target(""), Target::Other);
    assert_eq!(classify_target("a-windows-gnu-b-windows-msvc"), Target::Msvc);
}

#[test]
fn what_a_target_supports() {
    assert!(!Target::Msvc.can_build());
    assert!(Target::Mingw.can_build());
    assert!(Target::Other.can_build());
    assert!(!Target::Msvc.supports_system_libs());
    assert!(Target::Mingw.supports_system_libs());
    assert!(Target::Other.supports_system_libs());
    assert!(Target::Mingw.needs_pkg_config());
    assert!(!Target::Msvc.needs_pkg_config());
    assert!(!Target::Other.needs_pkg_config());
}

#[test]
fn building_for_the_host_is_allowed() {
    assert!(compilation_target_allowed("x86_64-unknown-linux-gnu", "x86_64-unknown-linux-gnu"));
    assert!(compilation_target_allowed("i686-pc-windows-gnu", "i686-pc-windows-gnu"));
    assert!(compilation_target_allowed("", ""));
}

#[test]
fn building_32_bit_on_64_bit_is_allowed() {
    assert!(compilation_target_allowed("x86_64-unknown-linux-gnu", "i686-unknown-linux-gnu"));
    assert!(compilation_target_allowed("x86_64-pc-windows-msvc", "i686-pc-windows-msvc"));
    assert!(compilation_target_allowed("x86_64", "i686"));
}

#[test]
fn other_cross_builds_are_not_allowed() {
    assert!(!compilation_target_allowed("x86_64-pc-windows-gnu", "i686-pc-windows-gnu"));
    assert!(!compilation_target_allowed("x86_64-unknown-linux-gnu", "i686-unknown-linux-musl"));
    assert!(!compilation_target_allowed("i686-unknown-linux-gnu", "x86_64-unknown-linux-gnu"));
    assert!(!compilation_target_allowed("x86_64-unknown-linux-gnu", "aarch64-unknown-linux-gnu"));
    assert!(!compilation_target_allowed("x86_64-unknown-linux-gnu", "i586-unknown-linux-gnu"));
    assert!(!compilation_target_allowed("x86_64-a", "i686-b"));
    assert!(!compilation_target_allowed("x86_6", "i686"));
}

#[test]
fn cross_target_is_the_target_that_is_not_the_host() {
    assert_eq!(cross_target("a-b-c", "a-b-c"), None);
    assert_eq!(cross_target("a-b-c", "x-y-z"), Some("x-y-z".to_string()));
    assert_eq!(cross_target("", "x"), Some("x".to_string()));
}

#[test]
fn actual_cross_target() {
    assert_eq!(get_actual_cross_target("x86_64-pc-windows-gnu"), "x86_64-w64-mingw32");
    assert_eq!(get_actual_cross_target("i686-pc-windows-gnu"), "i686-pc-windows-gnu");
    assert_eq!(get_actual_cross_target("x86_64-pc-windows-gnu "), "x86_64-pc-windows-gnu ");
    assert_eq!(get_actual_cross_target(""), "");
}

#[test]
fn configure_lines() {
    assert_eq!(
        configure_line(None),
        "../ecm-src/configure --enable-fat --disable-shared --with-pic"
    );
    assert_eq!(
        configure_line(Some("i686-unknown-linux-gnu")),
        "../ecm-src/configure --enable-fat --disable-shared --with-pic --host i686-unknown-linux-gnu"
    );
    assert_eq!(
        configure_line(Some("x86_64-pc-windows-gnu")),
        "../ecm-src/configure --enable-fat --disable-shared --with-pic --host x86_64-w64-mingw32"
    );
}

#[test]
fn when_native_tests_run() {
    assert!(runs_native_tests(false, false));
    assert!(!runs_native_tests(true, false));
    assert!(!runs_native_tests(false, true));
    assert!(!runs_native_tests(true, true));
}
