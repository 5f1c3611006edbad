use cs2kz_api::checksum::Checksum;
use cs2kz_api::maps::map::DatabaseError;
use cs2kz_api::plugin::{
    check_new_version, classify_insert_failure, os_of_match, Checksums, CreatePluginVersionError,
    Os, PluginVersion,
};

fn v(major: u64, minor: u64, patch: u64, pre: &str) -> PluginVersion {
    PluginVersion::try_from_parts(major, minor, patch, pre, "").unwrap()
}

#[test]
fn version_parts() {
    let version = PluginVersion::try_from_parts(1, 2, 3, "alpha.1", "build.5").unwrap();
    assert_eq!(version.major(), 1);
    assert_eq!(version.minor(), 2);
    assert_eq!(version.patch(), 3);
    assert_eq!(version.pre(), "alpha.1");
    assert_eq!(version.build(), "build.5");
    let zero = PluginVersion::zero();
    assert_eq!((zero.major(), zero.minor(), zero.patch()), (0, 0, 0));
    assert_eq!(zero.pre(), "");
}

#[test]
fn invalid_version_parts() {
    assert!(PluginVersion::try_from_parts(1, 0, 0, "01", "").is_none());
    assert!(PluginVersion::try_from_parts(1, 0, 0, "alpha..1", "").is_none());
    assert!(PluginVersion::try_from_parts(1, 0, 0, "", "bad build").is_none());
    assert!(PluginVersion::try_from_parts(1, 0, 0, "", "001").is_some());
}

#[test]
fn version_order() {
    assert!(v(1, 2, 0, "").is_newer_than(&v(1, 1, 9, "")));
    assert!(v(2, 0, 0, "").is_newer_than(&v(1, 99, 99, "")));
    assert!(v(1, 0, 0, "").is_newer_than(&v(1, 0, 0, "alpha")));
    assert!(v(1, 0, 0, "beta").is_newer_than(&v(1, 0, 0, "alpha")));
    assert!(!v(1, 0, 0, "").is_newer_than(&v(1, 0, 0, "")));
    assert!(!v(1, 1, 9, "").is_newer_than(&v(1, 2, 0, "")));
}

#[test]
fn new_versions_must_not_be_older() {
    assert!(check_new_version(None, &v(0, 1, 0, "")).is_ok());
    assert!(check_new_version(Some(v(1, 0, 0, "")), &v(1, 0, 1, "")).is_ok());
    assert!(check_new_version(Some(v(1, 0, 0, "")), &v(1, 0, 0, "")).is_ok());
    match check_new_version(Some(v(1, 2, 0, "")), &v(1, 1, 0, "")) {
        Err(CreatePluginVersionError::VersionOlderThanLatest { latest }) => {
            assert_eq!((latest.major(), latest.minor(), latest.patch()), (1, 2, 0));
        },
        other => panic!("unexpected {other:?}"),
    }
}

#[test]
fn insert_failures() {
    let err = || DatabaseError { message: String::from("duplicate entry") };
    assert!(matches!(
        classify_insert_failure(err(), true, true),
        CreatePluginVersionError::VersionAlreadyExists
    ));
    assert!(matches!(
        classify_insert_failure(err(), true, false),
        CreatePluginVersionError::DatabaseError(_)
    ));
    assert!(matches!(
        classify_insert_failure(err(), false, true),
        CreatePluginVersionError::DatabaseError(_)
    ));
    match classify_insert_failure(err(), false, false) {
        CreatePluginVersionError::DatabaseError(e) => assert_eq!(e.message, "duplicate entry"),
        other => panic!("unexpected {other:?}"),
    }
}

#[test]
fn checksums_by_os() {
    let sums = Checksums { linux: Checksum(1), windows: Checksum(2) };
    assert_eq!(*sums.index(Os::Linux), Checksum(1));
    assert_eq!(*sums.index(Os::Windows), Checksum(2));
    assert_eq!(os_of_match(true, false), Os::Linux);
    assert_eq!(os_of_match(false, true), Os::Windows);
}

#[test]
fn version_text() {
    let version = PluginVersion::from_parts(1, 23, 456, "dev", "");
    assert_eq!(version.major(), 1);
    assert_eq!(version.minor(), 23);
    assert_eq!(version.patch(), 456);
    assert_eq!(version.pre(), "dev");
    assert_eq!(version.build(), "");
    assert_eq!(version.to_text(), "1.23.456-dev");
    assert_eq!(PluginVersion::zero().to_text(), "0.0.0");
    assert_eq!(PluginVersion::from_parts(2, 0, 1, "", "sha.5114f85").to_text(), "2.0.1+sha.5114f85");
    assert_eq!(PluginVersion::from_parts(0, 1, 0, "rc.1", "b7").to_text(), "0.1.0-rc.1+b7");
}

#[test]
fn version_part_grammar() {
    assert!(PluginVersion::try_from_parts(1, 0, 0, "0", "").is_some());
    assert!(PluginVersion::try_from_parts(1, 0, 0, "0a", "").is_some());
    assert!(PluginVersion::try_from_parts(1, 0, 0, "x.01", "").is_none());
    assert!(PluginVersion::try_from_parts(1, 0, 0, ".a", "").is_none());
    assert!(PluginVersion::try_from_parts(1, 0, 0, "a.", "").is_none());
    assert!(PluginVersion::try_from_parts(1, 0, 0, "-", "").is_some());
    assert!(PluginVersion::try_from_parts(1, 0, 0, "é", "").is_none());
    assert!(PluginVersion::try_from_parts(1, 0, 0, "", "a.b-c.0").is_some());
    assert!(PluginVersion::try_from_parts(1, 0, 0, "", "a..b").is_none());
}
