use gmp_ecm::version::{
    compatible_version, rustc_later_eq, split_version, version_dir_name, VersionError, ECM_VERSION_MAJOR,
    ECM_VERSION_MINOR, ECM_VERSION_PATCHLEVEL,
};

const EXPECTED: (i32, i32, i32) = (7, 0, 6);

#[test]
fn expected_version() {
    assert_eq!((ECM_VERSION_MAJOR, ECM_VERSION_MINOR, ECM_VERSION_PATCHLEVEL), EXPECTED);
}

#[test]
fn the_expected_version_is_compatible() {
    assert!(compatible_version(false, 7, 0, 6, EXPECTED));
    assert!(compatible_version(true, 7, 0, 6, EXPECTED));
}

#[test]
fn newer_patch_or_minor_is_compatible() {
    assert!(compatible_version(false, 7, 0, 7, EXPECTED));
    assert!(compatible_version(false, 7, 1, 0, EXPECTED));
    assert!(compatible_version(false, 7, 2, 5, EXPECTED));
}

#[test]
fn older_patch_only_for_system_libs() {
    assert!(!compatible_version(false, 7, 0, 5, EXPECTED));
    assert!(compatible_version(true, 7, 0, 5, EXPECTED));
    assert!(compatible_version(true, 7, 0, 0, EXPECTED));
}

#[test]
fn other_major_or_older_minor_is_incompatible() {
    assert!(!compatible_version(false, 6, 9, 9, EXPECTED));
    assert!(!compatible_version(true, 6, 9, 9, EXPECTED));
    assert!(!compatible_version(false, 8, 0, 6, EXPECTED));
    assert!(!compatible_version(true, 8, 0, 6, EXPECTED));
    assert!(!compatible_version(false, 7, 1, 9, (7, 2, 0)));
    assert!(!compatible_version(true, 7, 1, 9, (7, 2, 0)));
}

fn split(v: &str) -> Result<(String, Option<u64>), VersionError> {
    split_version(v).map(|p| (p.prefix, p.patch))
}

#[test]
fn split_version_at_the_last_dot() {
    assert_eq!(split("0.1.2"), Ok(("0.1".to_string(), Some(2))));
    assert_eq!(split("1.26.1"), Ok(("1.26".to_string(), Some(1))));
    assert_eq!(split("1.0"), Ok(("1".to_string(), Some(0))));
    assert_eq!(split("1.2.007"), Ok(("1.2".to_string(), Some(7))));
    assert_eq!(split("1.2.+7"), Ok(("1.2".to_string(), Some(7))));
}

#[test]
fn split_version_without_a_number_at_the_end() {
    assert_eq!(split("0.1.2-alpha"), Ok(("0.1.2-alpha".to_string(), None)));
    assert_eq!(split("1.2."), Ok(("1.2.".to_string(), None)));
    assert_eq!(split("1.2.-3"), Ok(("1.2.-3".to_string(), None)));
    assert_eq!(split("1.2.99999999999999999999"), Ok(("1.2.99999999999999999999".to_string(), None)));
}

#[test]
fn split_version_errors() {
    assert_eq!(split("012"), Err(VersionError::NoDots));
    assert_eq!(split(""), Err(VersionError::NoDots));
    assert_eq!(split(".5"), Err(VersionError::StartsWithDot));
    assert_eq!(split("."), Err(VersionError::StartsWithDot));
    assert_eq!(split("..5"), Ok((".".to_string(), Some(5))));
}

#[test]
fn version_directory_names() {
    assert_eq!(version_dir_name("0.1", None), "0.1");
    assert_eq!(version_dir_name("0.1", Some(2)), "0.1.2");
    assert_eq!(version_dir_name("0.1", Some(0)), "0.1.0");
    assert_eq!(version_dir_name("1", Some(u64::MAX)), "1.18446744073709551615");
}

#[test]
fn rustc_versions() {
    let v = "rustc 1.77.2 (25ef9e3d8 2024-04-09)\n";
    assert_eq!(rustc_later_eq(v, 1, 77), Some(true));
    assert_eq!(rustc_later_eq(v, 1, 76), Some(true));
    assert_eq!(rustc_later_eq(v, 1, 78), Some(false));
    assert_eq!(rustc_later_eq(v, 0, 99), Some(true));
    assert_eq!(rustc_later_eq(v, 2, 0), Some(false));
    assert_eq!(rustc_later_eq("rustc 2.x", 1, 0), Some(true));
    assert_eq!(rustc_later_eq("rustc 1.x.", 1, 0), None);
    assert_eq!(rustc_later_eq("rustc 1.5", 1, 0), None);
    assert_eq!(rustc_later_eq("rustc 1", 1, 0), None);
    assert_eq!(rustc_later_eq("rustc  1.77.2", 1, 0), None);
    assert_eq!(rustc_later_eq("cargo 1.77.2", 1, 0), None);
    assert_eq!(rustc_later_eq("", 1, 0), None);
    assert_eq!(rustc_later_eq("rustc 1.70.0-nightly", 1, 70), Some(true));
}
