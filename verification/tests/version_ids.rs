use minecraft_launcher_core::version::{MCVersion, ReleaseType};

fn round_trip(id: &str) {
    let version = MCVersion::from(id.to_string());
    assert_eq!(id.to_string(), version.to_string());
}

#[test]
fn release_without_patch_is_read() {
    assert!(matches!(MCVersion::new("1.20"), MCVersion::Release(1, 20, None)));
}

#[test]
fn release_with_patch_is_read() {
    assert!(matches!(MCVersion::new("1.20.4"), MCVersion::Release(1, 20, Some(4))));
}

#[test]
fn snapshot_is_read() {
    match MCVersion::new("23w46a") {
        MCVersion::Snapshot(year, week, revision) => {
            assert_eq!(year, 23);
            assert_eq!(week, 46);
            assert_eq!(revision, "a");
        }
        other => panic!("not a snapshot: {:?}", other),
    }
}

#[test]
fn snapshot_keeps_leading_zeros() {
    match MCVersion::new("08w01b") {
        MCVersion::Snapshot(year, week, _) => {
            assert_eq!(year, 8);
            assert_eq!(week, 1);
        }
        other => panic!("not a snapshot: {:?}", other),
    }
    round_trip("08w01b");
}

#[test]
fn new_style_pre_release_is_read() {
    assert!(matches!(MCVersion::new("1.14 Pre-Release 4"), MCVersion::PreReleaseNew(1, 14, None, 4)));
    assert!(matches!(
        MCVersion::new("1.14.2 Pre-Release 3"),
        MCVersion::PreReleaseNew(1, 14, Some(2), 3)
    ));
}

#[test]
fn old_style_pre_release_is_read() {
    assert!(matches!(MCVersion::new("1.9.1-pre2"), MCVersion::PreReleaseOld(1, 9, Some(1), 2)));
}

#[test]
fn release_candidate_is_read() {
    assert!(matches!(MCVersion::new("1.19.3-rc3"), MCVersion::ReleaseCandidate(1, 19, Some(3), 3)));
}

#[test]
fn legacy_names_are_kept() {
    match MCVersion::new("b1.7.3") {
        MCVersion::Other(text) => assert_eq!(text, "b1.7.3"),
        other => panic!("not kept: {:?}", other),
    }
    assert!(matches!(MCVersion::new(""), MCVersion::Other(_)));
    assert!(matches!(MCVersion::new("1.2."), MCVersion::Other(_)));
    assert!(matches!(MCVersion::new("1.20.1-forge-47.2.0"), MCVersion::Other(_)));
}

#[test]
fn numerals_that_are_not_canonical_are_kept_as_text() {
    assert!(matches!(MCVersion::new("1.01"), MCVersion::Other(_)));
    assert!(matches!(MCVersion::new("1.99999999999"), MCVersion::Other(_)));
    round_trip("1.01");
    round_trip("1.99999999999");
}

#[test]
fn largest_number_is_read() {
    assert!(matches!(MCVersion::new("2147483647.0"), MCVersion::Release(2147483647, 0, None)));
    assert!(matches!(MCVersion::new("2147483648.0"), MCVersion::Other(_)));
}

#[test]
fn test_version_id_parsing() {
    for id in [
        "1.20.4", "1.20", "23w46a", "1.14 Pre-Release 4", "1.9.1-pre2", "1.19.3-rc3", "b1.7.3",
        "a1.0.4", "rd-132211", "c0.30_01c", "1.RV-Pre1", "3D Shareware v1.34", "20w14infinite",
        "1.14.2 Pre-Release 1", "13w16a", "1.0", "inf-20100618", "",
    ] {
        round_trip(id);
    }
}

#[test]
fn written_values_are_formatted() {
    assert_eq!(MCVersion::Release(1, 2, Some(3)).to_string(), "1.2.3");
    assert_eq!(MCVersion::Release(-1, 2, None).to_string(), "-1.2");
    assert_eq!(MCVersion::Snapshot(5, 7, "c".to_string()).to_string(), "05w07c");
    assert_eq!(MCVersion::Snapshot(123, -4, "c".to_string()).to_string(), "123w-4c");
    assert_eq!(MCVersion::PreReleaseNew(1, 16, None, 2).to_string(), "1.16 Pre-Release 2");
    assert_eq!(MCVersion::PreReleaseOld(1, 16, Some(2), 2).to_string(), "1.16.2-pre2");
    assert_eq!(MCVersion::ReleaseCandidate(1, 16, Some(2), 1).to_string(), "1.16.2-rc1");
    assert_eq!(MCVersion::Release(i32::MIN, i32::MAX, None).to_string(), "-2147483648.2147483647");
}

#[test]
fn equal_versions_compare_equal() {
    assert!(MCVersion::new("1.20.1") == MCVersion::new("1.20.1"));
    assert!(MCVersion::new("1.20.1") != MCVersion::new("1.20.2"));
    assert!(MCVersion::new("23w46a") != MCVersion::new("23w46b"));
    assert!(MCVersion::new("1.20") != MCVersion::Other("1.20".to_string()));
}

#[test]
fn release_types_have_names() {
    assert_eq!(ReleaseType::Release.get_name(), "release");
    assert_eq!(ReleaseType::Snapshot.get_name(), "snapshot");
    assert_eq!(ReleaseType::OldBeta.get_name(), "old_beta");
    assert_eq!(ReleaseType::OldAlpha.get_name(), "old_alpha");
}
