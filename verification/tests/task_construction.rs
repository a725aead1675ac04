use minecraft_launcher_core::artifact::Artifact;
use minecraft_launcher_core::assets::{AssetEntry, AssetIndex, AssetIndexInfo, AssetObject};
use minecraft_launcher_core::checksum::Sha1Sum;
use minecraft_launcher_core::date::Date;
use minecraft_launcher_core::download::downloadable::Downloadable;
use minecraft_launcher_core::download::job::TaskState;
use minecraft_launcher_core::download::tasks::{
    create_lib_downloadable, get_asset_downloadables, get_jar_downloadable,
    get_library_downloadables, index_matches, ClientDownloader,
};
use minecraft_launcher_core::library::{
    ClassifierDownload, DownloadInfo, DownloadType, Library, LibraryDownloadInfo, NativeClassifier,
};
use minecraft_launcher_core::manifest::{Arguments, DownloadEntry, VersionManifest};
use minecraft_launcher_core::progress::ProgressReporter;
use minecraft_launcher_core::rule::{
    EnvironmentFeatures, OperatingSystem, OsRestriction, Platform, Rule, RuleAction,
};
use minecraft_launcher_core::url::locate;
use minecraft_launcher_core::version::{MCVersion, ReleaseType};

fn library(coordinate: &str) -> Library {
    Library {
        name: Artifact::parse(coordinate).expect("a coordinate"),
        rules: vec![],
        natives: vec![],
        extract: None,
        url: None,
        downloads: None,
    }
}

fn manifest(id: &str) -> VersionManifest {
    VersionManifest {
        arguments: Arguments::new(),
        minecraft_arguments: None,
        asset_index: None,
        assets: None,
        compatibility_rules: vec![],
        compliance_level: None,
        downloads: vec![],
        id: MCVersion::new(id),
        inherits_from: None,
        java_version: None,
        libraries: vec![],
        logging: vec![],
        main_class: None,
        jar: None,
        minimum_launcher_version: None,
        release_time: Date { seconds: 1, nanos: 0, offset: 0 },
        updated_time: Date { seconds: 2, nanos: 0, offset: 0 },
        release_type: ReleaseType::Release,
    }
}

fn linux() -> Platform {
    Platform::new(OperatingSystem::Linux, "x64", "6.1")
}

#[test]
fn urls_get_a_new_path() {
    assert_eq!(
        locate("https://maven.example.org/repo/", "com/x/y-1.jar").as_deref(),
        Some("https://maven.example.org/com/x/y-1.jar")
    );
    assert_eq!(
        locate("https://resources.download.minecraft.net/", "a9/a999").as_deref(),
        Some("https://resources.download.minecraft.net/a9/a999")
    );
    assert_eq!(locate("https://example.org?q=1", "p y").as_deref(), Some("https://example.org/p%20y?q=1"));
    assert!(locate("no url", "a").is_none());
    assert!(locate("", "a").is_none());
}

#[test]
fn the_archive_is_fetched_with_its_checksum_where_listed() {
    let mut version = manifest("1.20.1");
    version.jar = Some(MCVersion::new("1.20"));
    version.downloads = vec![DownloadEntry {
        kind: DownloadType::Client,
        info: DownloadInfo {
            sha1: Sha1Sum::from_reader(b"client"),
            size: 6,
            url: "https://example.org/client.jar".to_string(),
        },
    }];
    match get_jar_downloadable("/game", &version) {
        Downloadable::PreHashed(task) => {
            assert_eq!(task.url, "https://example.org/client.jar");
            assert_eq!(task.target_file, "/game/versions/1.20.1/1.20.1.jar");
            assert!(task.expected_hash == Sha1Sum::from_reader(b"client"));
            assert!(!task.force_download);
        }
        other => panic!("unexpected: {:?}", other),
    }
}

#[test]
fn the_archive_of_an_old_version_comes_from_the_legacy_server() {
    match get_jar_downloadable("/game", &manifest("b1.7.3")) {
        Downloadable::Etag(task) => {
            assert_eq!(task.url, "https://s3.amazonaws.com/Minecraft.Download/versions/b1.7.3/b1.7.3.jar");
            assert_eq!(task.target_file, "/game/versions/b1.7.3/b1.7.3.jar");
        }
        other => panic!("unexpected: {:?}", other),
    }
}

#[test]
fn a_library_without_downloads_comes_from_the_default_server() {
    match create_lib_downloadable(&library("com.mojang:patchy:1.1"), "/game", &OperatingSystem::Linux, true) {
        Some(Downloadable::Checksummed(task)) => {
            assert_eq!(task.url, "https://libraries.minecraft.net/com/mojang/patchy-1.1.jar");
            assert_eq!(task.target_file, "/game/libraries/com/mojang/patchy-1.1.jar");
            assert!(task.force_download);
        }
        other => panic!("unexpected: {:?}", other),
    }
}

#[test]
fn a_library_with_a_server_comes_from_there() {
    let mut forge = library("net.minecraftforge:forge:47.2.0");
    forge.url = Some("https://maven.minecraftforge.net/".to_string());
    match forge.create_download("/game", &OperatingSystem::Linux, false) {
        Some(Downloadable::Checksummed(task)) => {
            assert_eq!(task.url, "https://maven.minecraftforge.net/net/minecraftforge/forge-47.2.0.jar");
            assert!(!task.force_download);
        }
        other => panic!("unexpected: {:?}", other),
    }
    forge.url = Some("nowhere".to_string());
    assert!(forge.create_download("/game", &OperatingSystem::Linux, false).is_none());
}

#[test]
fn a_library_with_downloads_is_fetched_as_listed() {
    let mut listed = library("org.lwjgl:lwjgl:3.3.1");
    listed.natives =
        vec![NativeClassifier { os: OperatingSystem::Linux, classifier: "natives-linux".to_string() }];
    listed.downloads = Some(LibraryDownloadInfo {
        artifact: DownloadInfo {
            sha1: Sha1Sum::from_reader(b"main"),
            size: 1,
            url: "https://example.org/main.jar".to_string(),
        },
        classifiers: vec![ClassifierDownload {
            classifier: "natives-linux".to_string(),
            info: DownloadInfo {
                sha1: Sha1Sum::from_reader(b"linux"),
                size: 1,
                url: "https://example.org/linux.jar".to_string(),
            },
        }],
    });
    match listed.create_download("/game", &OperatingSystem::Linux, true) {
        Some(Downloadable::PreHashed(task)) => {
            assert_eq!(task.url, "https://example.org/linux.jar");
            assert_eq!(task.target_file, "/game/libraries/org/lwjgl/lwjgl-3.3.1-natives-linux.jar");
            assert!(task.expected_hash == Sha1Sum::from_reader(b"linux"));
            assert!(!task.force_download);
        }
        other => panic!("unexpected: {:?}", other),
    }
    assert!(listed.create_download("/game", &OperatingSystem::Windows, true).is_none());
    listed.natives[0].classifier = "natives-other".to_string();
    assert!(listed.create_download("/game", &OperatingSystem::Linux, true).is_none());
}

#[test]
fn libraries_that_do_not_apply_have_no_task() {
    let mut version = manifest("1.20.1");
    let mut windows_only = library("w:w:1");
    windows_only.rules = vec![Rule {
        action: RuleAction::Allow,
        features: vec![],
        os: Some(OsRestriction { name: Some(OperatingSystem::Windows), arch: None, version: None }),
    }];
    let mut mac_natives = library("m:m:1");
    mac_natives.natives =
        vec![NativeClassifier { os: OperatingSystem::Osx, classifier: "natives-osx".to_string() }];
    version.libraries = vec![library("a:a:1"), windows_only, mac_natives, library("b:b:2")];
    let features = EnvironmentFeatures::new();
    let tasks = get_library_downloadables("/game", &version, &features, &linux(), None);
    let files: Vec<&str> = tasks.iter().map(|task| task.get_target_file().as_str()).collect();
    assert_eq!(files, vec!["/game/libraries/a/a-1.jar", "/game/libraries/b/b-2.jar"]);
    let tasks =
        get_library_downloadables("/game", &version, &features, &linux(), Some(OperatingSystem::Osx));
    assert_eq!(tasks.len(), 3);
    assert_eq!(tasks[1].get_target_file(), "/game/libraries/m/m-1-natives-osx.jar");
    let forced =
        version.get_required_downloadables(&OperatingSystem::Linux, "/game", true, &features, &linux());
    assert_eq!(forced.len(), 2);
    assert!(forced[0].force_download());
}

fn entry(name: &str, seed: &[u8]) -> AssetEntry {
    AssetEntry {
        name: name.to_string(),
        object: AssetObject {
            hash: Sha1Sum::from_reader(seed),
            size: seed.len() as u64,
            reconstruct: None,
            compressed_hash: None,
            compressed_size: None,
        },
    }
}

#[test]
fn two_names_of_one_checksum_give_one_task() {
    let index = AssetIndex {
        objects: vec![entry("sounds/a.ogg", b"same"), entry("sounds/b.ogg", b"same")],
        map_to_resources: false,
        is_virtual: false,
    };
    let tasks = get_asset_downloadables("/game", &index);
    assert_eq!(tasks.len(), 1);
    assert_eq!(tasks[0].get_status(), "Downloading sounds/a.ogg");
}

#[test]
fn each_distinct_object_gets_a_task() {
    let index = AssetIndex {
        objects: vec![entry("a", b"abc"), entry("b", b""), entry("c", b"abc")],
        map_to_resources: false,
        is_virtual: false,
    };
    let tasks = get_asset_downloadables("/game", &index);
    let urls: Vec<&str> = tasks.iter().map(|task| task.url().as_str()).collect();
    assert_eq!(
        urls,
        vec![
            "https://resources.download.minecraft.net/a9/a9993e364706816aba3e25717850c26c9cd0d89d",
            "https://resources.download.minecraft.net/da/da39a3ee5e6b4b0d3255bfef95601890afd80709",
        ]
    );
    assert_eq!(
        tasks[0].get_target_file(),
        "/game/assets/objects/a9/a9993e364706816aba3e25717850c26c9cd0d89d"
    );
    let mut files: Vec<&str> = tasks.iter().map(|task| task.get_target_file().as_str()).collect();
    files.dedup();
    assert_eq!(files.len(), tasks.len());
}

#[test]
fn an_index_is_checked_against_the_manifest() {
    let info = AssetIndexInfo {
        id: "5".to_string(),
        sha1: Sha1Sum::from_reader(b"{}"),
        size: 2,
        total_size: 0,
        url: "https://example.org/5.json".to_string(),
    };
    assert!(index_matches(b"{}", &info));
    assert!(!index_matches(b"{ }", &info));
}

#[test]
fn a_downloader_sets_up_its_jobs() {
    let mut reporter = ProgressReporter::new();
    reporter.set_status("kept");
    let downloader = ClientDownloader::new(3, 2, reporter);
    assert_eq!(downloader.concurrent_downloads, 3);
    assert_eq!(downloader.max_download_attempts, 2);
    let mut job = downloader.create_download_job("Anything");
    assert_eq!(job.name(), "Anything");
    assert_eq!(job.len(), 0);
    assert_eq!(job.take_updates().len(), 1);
    let mut version = manifest("1.20.1");
    version.libraries = vec![library("a:a:1")];
    let job = downloader.version_job("/game", &version, &EnvironmentFeatures::new(), &linux());
    assert_eq!(job.name(), "Version & Libraries");
    assert_eq!(job.len(), 2);
    assert_eq!(job.task(0).expect("a task").get_target_file(), "/game/libraries/a/a-1.jar");
    assert_eq!(job.task(1).expect("a task").get_target_file(), "/game/versions/1.20.1/1.20.1.jar");
    assert_eq!(job.state(1), Some(TaskState::Pending));
    let index = AssetIndex { objects: vec![entry("a", b"1")], map_to_resources: false, is_virtual: false };
    let job = downloader.assets_job("/game", &index);
    assert_eq!(job.name(), "Resources");
    assert_eq!(job.len(), 1);
}

#[test]
fn counts_of_a_downloader_are_cut_to_size() {
    let downloader = ClientDownloader::new(65536 + 2, 256 + 1, ProgressReporter::new());
    let mut job = downloader
        .create_download_job("Cut")
        .add_downloadables(vec![get_jar_downloadable("/game", &manifest("1.0"))]);
    // One attempt is left of 257, so a failure is final.
    job.start(0);
    assert!(matches!(
        job.next(0),
        minecraft_launcher_core::download::job::JobAction::Start { index: 0, .. }
    ));
    job.handle(0, minecraft_launcher_core::download::Event::Done, 1);
    job.handle(0, minecraft_launcher_core::download::Event::Failed("x".to_string()), 2);
    assert_eq!(job.state(0), Some(TaskState::Failed));
    assert_eq!(job.task(0).expect("a task").get_attempts(), 1);
}

#[test]
fn of_two_libraries_for_one_file_the_first_has_the_task() {
    let mut version = manifest("1.20.1");
    let mut first = library("a:a:1");
    first.url = Some("https://first.example.org/".to_string());
    let mut again = library("a:a:1");
    again.url = Some("https://second.example.org/".to_string());
    version.libraries = vec![first, library("b:b:2"), again, library("b:b:2"), library("c:c:3")];
    let features = EnvironmentFeatures::new();
    let tasks = get_library_downloadables("/game", &version, &features, &linux(), None);
    let files: Vec<&str> = tasks.iter().map(|task| task.get_target_file().as_str()).collect();
    assert_eq!(
        files,
        vec!["/game/libraries/a/a-1.jar", "/game/libraries/b/b-2.jar", "/game/libraries/c/c-3.jar"]
    );
    assert_eq!(tasks[0].url(), "https://first.example.org/a/a-1.jar");
    let downloader = ClientDownloader::new(3, 2, ProgressReporter::new());
    let job = downloader.version_job("/game", &version, &features, &linux());
    assert_eq!(job.len(), 4);
    assert_eq!(job.task(3).expect("a task").get_target_file(), "/game/versions/1.20.1/1.20.1.jar");
}
