use gmp_ecm::link::{lib_dir_of, link_directives, LinkSetup};

fn setup<'a>(env: &'a str, features: &'a str, system: bool) -> LinkSetup<'a> {
    LinkSetup {
        out_dir: "/o",
        lib_dir: "/o/lib",
        include_dir: "/o/include",
        target_env: env,
        target_features: features,
        use_system_libs: system,
    }
}

#[test]
fn built_library_is_linked_statically() {
    assert_eq!(
        link_directives(&setup("gnu", "fxsr,sse,sse2", false)),
        vec![
            "cargo:out_dir=/o",
            "cargo:lib_dir=/o/lib",
            "cargo:include_dir=/o/include",
            "cargo:rustc-link-search=native=/o/lib",
            "cargo:rustc-link-lib=static=ecm",
        ]
    );
}

#[test]
fn system_library_is_linked_dynamically() {
    assert_eq!(
        link_directives(&setup("gnu", "crt-static", true)),
        vec![
            "cargo:out_dir=/o",
            "cargo:lib_dir=/o/lib",
            "cargo:include_dir=/o/include",
            "cargo:rustc-link-search=native=/o/lib",
            "cargo:rustc-link-lib=ecm",
        ]
    );
}

#[test]
fn system_library_on_musl() {
    assert_eq!(
        link_directives(&setup("musl", "", true)),
        vec![
            "cargo:out_dir=/o",
            "cargo:lib_dir=/o/lib",
            "cargo:include_dir=/o/include",
            "cargo:rustc-link-search=native=/o/lib",
            "cargo:rustc-link-search=/usr/lib",
            "cargo:rustc-link-lib=ecm",
        ]
    );
    assert_eq!(
        link_directives(&setup("musl", "sse,crt-static", true)),
        vec![
            "cargo:out_dir=/o",
            "cargo:lib_dir=/o/lib",
            "cargo:include_dir=/o/include",
            "cargo:rustc-link-search=native=/o/lib",
            "cargo:rustc-link-search=/usr/lib",
            "cargo:rustc-link-lib=static=ecm",
        ]
    );
}

#[test]
fn built_library_on_musl() {
    assert_eq!(
        link_directives(&setup("musl", "crt-static", false)),
        vec![
            "cargo:out_dir=/o",
            "cargo:lib_dir=/o/lib",
            "cargo:include_dir=/o/include",
            "cargo:rustc-link-search=native=/o/lib",
            "cargo:rustc-link-lib=static=ecm",
        ]
    );
}

#[test]
fn library_directory_of_pkg_config() {
    assert_eq!(lib_dir_of(b"-L/mingw64/lib\n"), Some(&b"/mingw64/lib\n"[..]));
    assert_eq!(lib_dir_of(b"-L"), Some(&b""[..]));
    assert_eq!(lib_dir_of(b"-l/x"), None);
    assert_eq!(lib_dir_of(b" -L/x"), None);
    assert_eq!(lib_dir_of(b"-"), None);
    assert_eq!(lib_dir_of(b""), None);
}
