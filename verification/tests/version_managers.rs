use minecraft_launcher_core::checksum::Sha1Sum;
use minecraft_launcher_core::date::Date;
use minecraft_launcher_core::manifest::{Arguments, VersionInfo, VersionManifest};
use minecraft_launcher_core::rule::EnvironmentFeatures;
use minecraft_launcher_core::version::{MCVersion, ReleaseType};
use minecraft_launcher_core::version_manager::{
    InstallVersionError, Latest, LoadVersionError, LocalVersionInfo, RawVersionList,
    RemoteVersionInfo, VersionManager,
};

fn manifest(id: &str, updated: i64) -> VersionManifest {
    VersionManifest {
        arguments: Arguments::new(),
        minecraft_arguments: None,
        asset_index: None,
        assets: None,
        compatibility_rules: vec![],
        compliance_level: None,
        downloads: vec![],
        id: MCVersion::new(id),
        inherits_from: None,
        java_version: None,
        libraries: vec![],
        logging: vec![],
        main_class: None,
        jar: None,
        minimum_launcher_version: None,
        release_time: Date { seconds: 1, nanos: 0, offset: 0 },
        updated_time: Date { seconds: updated, nanos: 0, offset: 0 },
        release_type: ReleaseType::Release,
    }
}

fn remote(id: &str, updated: i64, body: &[u8]) -> RemoteVersionInfo {
    RemoteVersionInfo {
        id: MCVersion::new(id),
        release_type: ReleaseType::Release,
        url: format!("https://example.org/{}.json", id),
        updated_time: Date { seconds: updated, nanos: 0, offset: 0 },
        release_time: Date { seconds: 1, nanos: 0, offset: 0 },
        sha1: Sha1Sum::from_reader(body),
        compliance_level: 1,
    }
}

fn manager() -> VersionManager {
    let mut manager = VersionManager::new("/game", EnvironmentFeatures::new());
    manager.set_remote_versions(RawVersionList {
        latest: vec![Latest { release_type: ReleaseType::Release, version: MCVersion::new("1.20.1") }],
        versions: vec![remote("1.20.1", 100, b"{}"), remote("1.20", 50, b"[]")],
    });
    manager.set_installed_versions(vec![MCVersion::new("1.20")]);
    manager
}

#[test]
fn a_new_manager_knows_of_no_version() {
    let manager = VersionManager::new("/game", EnvironmentFeatures::new());
    assert_eq!(manager.game_dir(), "/game");
    assert!(manager.installed_versions().is_empty());
    assert!(manager.remote_versions().is_empty());
    assert!(manager.get_remote_version(&MCVersion::new("1.20.1")).is_none());
    assert_eq!(manager.versions_dir(), "/game/versions");
}

#[test]
fn manifests_are_stored_under_their_identifier() {
    let manager = manager();
    assert_eq!(
        manager.manifest_path(&MCVersion::new("1.20.1")),
        "/game/versions/1.20.1/1.20.1.json"
    );
}

#[test]
fn remote_versions_are_found_by_identifier() {
    let manager = manager();
    let ids: Vec<String> = manager.remote_versions().iter().map(|id| id.to_string()).collect();
    assert_eq!(ids, vec!["1.20.1", "1.20"]);
    let entry = manager.get_remote_version(&MCVersion::new("1.20")).expect("listed");
    assert_eq!(entry.get_url(), "https://example.org/1.20.json");
    assert_eq!(entry.get_compliance_level(), 1);
    assert!(*entry.get_sha1() == Sha1Sum::from_reader(b"[]"));
    assert_eq!(entry.get_id().to_string(), "1.20");
    assert_eq!(entry.get_updated_time().seconds, 50);
    assert!(manager.get_remote_version(&MCVersion::new("1.19")).is_none());
}

#[test]
fn installed_versions_are_remembered() {
    let mut manager = manager();
    assert!(manager.is_installed(&MCVersion::new("1.20")));
    assert!(!manager.is_installed(&MCVersion::new("1.20.1")));
    assert_eq!(
        manager.get_installed_version(&MCVersion::new("1.20")).expect("installed"),
        "/game/versions/1.20/1.20.json"
    );
    match manager.get_installed_version(&MCVersion::new("1.20.1")) {
        Err(LoadVersionError::VersionNotFound(id)) => assert_eq!(id, "1.20.1"),
        other => panic!("unexpected: {:?}", other),
    }
    manager.register_installed(MCVersion::new("1.20.1"));
    assert!(manager.is_installed(&MCVersion::new("1.20.1")));
    let ids: Vec<String> = manager.installed_versions().iter().map(|id| id.to_string()).collect();
    assert_eq!(ids, vec!["1.20", "1.20.1"]);
}

#[test]
fn only_listed_versions_can_be_installed() {
    let manager = manager();
    assert_eq!(
        manager.install_version_by_id(&MCVersion::new("1.20.1")).expect("listed").get_url(),
        "https://example.org/1.20.1.json"
    );
    match manager.install_version_by_id(&MCVersion::new("b1.7.3")) {
        Err(InstallVersionError::VersionNotFound(id)) => assert_eq!(id, "b1.7.3"),
        other => panic!("unexpected: {:?}", other.map(|entry| entry.get_url().to_string())),
    }
}

#[test]
fn a_fetched_manifest_must_have_the_announced_checksum() {
    let entry = remote("1.20.1", 100, b"{\"id\":\"1.20.1\"}");
    assert!(entry.verify(b"{\"id\":\"1.20.1\"}").is_ok());
    match entry.verify(b"{\"id\":\"1.20.2\"}") {
        Err(InstallVersionError::ChecksumMismatch { expected, actual }) => {
            assert!(expected == Sha1Sum::from_reader(b"{\"id\":\"1.20.1\"}"));
            assert!(actual == Sha1Sum::from_reader(b"{\"id\":\"1.20.2\"}"));
        }
        other => panic!("unexpected: {:?}", other),
    }
}

#[test]
fn a_manifest_older_than_the_index_is_stale() {
    let manager = manager();
    let old = manifest("1.20.1", 99);
    assert!(!manager.needs_file_check(&old));
    assert!(!manager.is_up_to_date(&old, true));
    assert!(!manager.is_up_to_date(&old, false));
}

#[test]
fn a_manifest_as_new_as_the_index_is_fresh_where_its_files_are_there() {
    let manager = manager();
    let same = manifest("1.20.1", 100);
    assert!(manager.needs_file_check(&same));
    assert!(manager.is_up_to_date(&same, true));
    assert!(!manager.is_up_to_date(&same, false));
    let newer = manifest("1.20.1", 101);
    assert!(manager.is_up_to_date(&newer, true));
}

#[test]
fn a_version_that_the_index_does_not_list_is_fresh_where_its_files_are_there() {
    let manager = manager();
    let custom = manifest("1.20.1-forge-47.2.0", 0);
    assert!(manager.needs_file_check(&custom));
    assert!(manager.is_up_to_date(&custom, true));
    assert!(!manager.is_up_to_date(&custom, false));
}

#[test]
fn a_manager_without_an_index_asks_for_the_files() {
    let manager = VersionManager::new("/game", EnvironmentFeatures::new());
    let any = manifest("1.20.1", 0);
    assert!(manager.needs_file_check(&any));
    assert!(manager.is_up_to_date(&any, true));
    assert!(!manager.is_up_to_date(&any, false));
}

#[test]
fn a_local_description_is_taken_from_the_manifest() {
    let info = LocalVersionInfo::new(&manifest("1.20.1", 7), "/game/versions/1.20.1/1.20.1.json");
    assert_eq!(info.get_id().to_string(), "1.20.1");
    assert_eq!(*info.get_type(), ReleaseType::Release);
    assert_eq!(info.get_updated_time().seconds, 7);
    assert_eq!(info.get_release_time().seconds, 1);
    assert_eq!(info.get_manifest_path(), "/game/versions/1.20.1/1.20.1.json");
    assert_eq!(info.clone().manifest_path, info.manifest_path);
}

#[test]
fn the_manifest_of_a_version_directory_is_named_like_it() {
    assert_eq!(
        LocalVersionInfo::manifest_path_in("/game/versions/1.20.1").expect("a name"),
        "/game/versions/1.20.1/1.20.1.json"
    );
    assert_eq!(LocalVersionInfo::manifest_path_in("1.8/").expect("a name"), "1.8//1.8.json");
    assert!(matches!(
        LocalVersionInfo::manifest_path_in(""),
        Err(LoadVersionError::InvalidVersionDir)
    ));
    assert!(matches!(
        LocalVersionInfo::manifest_path_in("/game/.."),
        Err(LoadVersionError::InvalidVersionDir)
    ));
}

#[test]
fn the_features_of_a_manager_are_kept() {
    let mut features = EnvironmentFeatures::new();
    features.set_feature(
        minecraft_launcher_core::rule::RuleFeatureType::IsDemoUser,
        minecraft_launcher_core::rule::FeatureValue::Bool(true),
    );
    let manager = VersionManager::new("/game", features);
    assert!(manager
        .env_features()
        .get_feature(minecraft_launcher_core::rule::RuleFeatureType::IsDemoUser)
        .is_some());
}
