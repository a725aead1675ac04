use minecraft_launcher_core::argument::{Argument, ArgumentValue};
use minecraft_launcher_core::assets::{AssetEntry, AssetIndex, AssetIndexInfo, AssetObject};
use minecraft_launcher_core::bootstrap::{
    ArgumentSubstitutorBuilder, GameProcessBuilder, MinecraftAuthenticationError,
    MinecraftLauncherError,
};
use minecraft_launcher_core::checksum::Sha1Sum;
use minecraft_launcher_core::date::Date;
use minecraft_launcher_core::launch::{
    build_launch_arguments, construct_classpath, create_arguments_substitutor, LaunchPaths,
};
use minecraft_launcher_core::manifest::{Arguments, VersionManifest};
use minecraft_launcher_core::options::{
    GameOptions, GameOptionsBuilder, LauncherOptions, MinecraftResolution, Override, ProxyOptions,
    UserAuthentication,
};
use minecraft_launcher_core::progress::{ProgressReporter, ProgressUpdate};
use minecraft_launcher_core::rule::{
    EnvironmentFeatures, FeatureMatcher, FeatureRequirement, FeatureValue, OperatingSystem,
    Platform, Rule, RuleAction, RuleFeatureType,
};
use minecraft_launcher_core::version::{MCVersion, ReleaseType};

fn manifest(id: &str) -> VersionManifest {
    VersionManifest {
        arguments: Arguments::new(),
        minecraft_arguments: None,
        asset_index: Some(AssetIndexInfo {
            id: "5".to_string(),
            sha1: Sha1Sum::null(),
            size: 0,
            total_size: 0,
            url: "https://example.org/5.json".to_string(),
        }),
        assets: None,
        compatibility_rules: vec![],
        compliance_level: None,
        downloads: vec![],
        id: MCVersion::new(id),
        inherits_from: None,
        java_version: None,
        libraries: vec![],
        logging: vec![],
        main_class: Some("net.minecraft.client.main.Main".to_string()),
        jar: None,
        minimum_launcher_version: None,
        release_time: Date { seconds: 1, nanos: 0, offset: 0 },
        updated_time: Date { seconds: 2, nanos: 0, offset: 0 },
        release_type: ReleaseType::Snapshot,
    }
}

fn options() -> GameOptions {
    let mut builder = GameOptionsBuilder::new();
    builder.version = Some(MCVersion::new("1.20.1"));
    builder.game_dir = Some("/game".to_string());
    builder.java_path = Some("/usr/bin/java".to_string());
    builder.authentication = Some(UserAuthentication::offline("Steve"));
    builder.build().expect("complete")
}

fn paths() -> LaunchPaths {
    LaunchPaths {
        classpath: "/game/a.jar:/game/b.jar".to_string(),
        natives_dir: "/game/natives".to_string(),
        virtual_dir: "/game/assets/virtual/5".to_string(),
        xuid: None,
    }
}

fn linux() -> Platform {
    Platform::new(OperatingSystem::Linux, "x64", "6.1")
}

#[test]
fn tokens_are_replaced_by_their_values() {
    let mut builder = ArgumentSubstitutorBuilder::new();
    builder.add("auth_player_name", "Steve");
    builder.add("version_name", "1.20.1");
    let substitutor = builder.build();
    assert_eq!(substitutor.substitute("--username ${auth_player_name}"), "--username Steve");
    assert_eq!(
        substitutor.substitute("${version_name}/${version_name}.jar of ${auth_player_name}"),
        "1.20.1/1.20.1.jar of Steve"
    );
    assert_eq!(substitutor.substitute("${unknown} $ {version_name}"), "${unknown} $ {version_name}");
    assert_eq!(substitutor.substitute(""), "");
}

#[test]
fn a_later_value_replaces_an_earlier_one() {
    let mut builder = ArgumentSubstitutorBuilder::new();
    builder.add("a", "first");
    builder.add("b", "other");
    builder.add("a", "second");
    let substitutor = builder.build();
    assert_eq!(substitutor.substitute("${a} ${b}"), "second other");
}

#[test]
fn entries_are_applied_in_the_order_of_their_keys() {
    let mut builder = ArgumentSubstitutorBuilder::new();
    builder.add_all(&vec![
        Override { key: "outer".to_string(), value: "${inner}".to_string() },
        Override { key: "inner".to_string(), value: "x".to_string() },
    ]);
    let substitutor = builder.build();
    assert_eq!(substitutor.substitute("${outer}"), "x");
    let mut builder = ArgumentSubstitutorBuilder::new();
    builder.add("inner", "x");
    builder.add("outer", "${inner}");
    assert_eq!(builder.build().substitute("${outer}"), "${inner}");
}

#[test]
fn a_process_builder_collects_the_command_line() {
    let mut builder = GameProcessBuilder::new();
    assert!(builder.get_args().is_empty());
    assert!(builder.java_path().is_none());
    builder.with_java_path("/usr/bin/java");
    builder.directory("/game");
    builder.with_argument("-Xmx2G");
    builder.with_arguments(&vec!["-cp".to_string(), "a.jar".to_string()]);
    builder.with_argument("Main");
    assert_eq!(builder.get_args(), vec!["-Xmx2G", "-cp", "a.jar", "Main"]);
    assert_eq!(builder.java_path().map(String::as_str), Some("/usr/bin/java"));
    assert_eq!(builder.working_directory().map(String::as_str), Some("/game"));
}

#[test]
fn quotation_marks_are_escaped_on_windows_only() {
    let mut builder = GameProcessBuilder::new();
    builder.with_argument("say \"hi\"");
    builder.with_argument("plain");
    assert_eq!(builder.spawn_arguments(OperatingSystem::Windows), vec!["say \\\"hi\\\"", "plain"]);
    assert_eq!(builder.spawn_arguments(OperatingSystem::Linux), vec!["say \"hi\"", "plain"]);
}

#[test]
fn errors_carry_their_message() {
    assert_eq!(MinecraftLauncherError("no java".to_string()).to_string(), "no java");
    assert_eq!(MinecraftAuthenticationError("no token".to_string()).to_string(), "no token");
}

#[test]
fn resolutions_and_launcher_options_hand_out_their_parts() {
    let resolution = MinecraftResolution::new(854, 480);
    assert_eq!(resolution.width(), 854);
    assert_eq!(resolution.height(), 480);
    let launcher = LauncherOptions::new("Test Launcher", "v1.0.0");
    assert_eq!(launcher.launcher_name, "Test Launcher");
    assert_eq!(launcher.launcher_version, "v1.0.0");
    assert_eq!(launcher.clone().launcher_name, "Test Launcher");
}

#[test]
fn a_proxy_has_an_address() {
    let proxy = ProxyOptions::Proxy {
        host: "proxy.example.org".to_string(),
        port: 8080,
        username: None,
        password: None,
    };
    assert_eq!(proxy.address().as_deref(), Some("proxy.example.org:8080"));
    assert!(ProxyOptions::NoProxy.address().is_none());
    assert!(matches!(ProxyOptions::default(), ProxyOptions::NoProxy));
}

#[test]
fn an_offline_player_has_an_identifier_from_the_name() {
    let user = UserAuthentication::offline("MonkeyKiller_");
    assert_eq!(user.username, "MonkeyKiller_");
    assert_eq!(user.uuid, "6123173b-0316-3d64-b9e5-1cb2b0b84d3f");
    assert_eq!(user.access_token, None);
    assert_eq!(user.access_token(), "");
    assert_eq!(user.auth_session(), "-");
    assert_eq!(user.user_type(), "legacy");
    assert_eq!(UserAuthentication::offline("Steve").uuid, "0550532a-7bdf-3ae6-902f-d9f724b94386");
}

#[test]
fn an_online_player_has_the_token_as_session() {
    let user = UserAuthentication {
        username: "Alex".to_string(),
        uuid: "00000000-0000-0000-0000-000000000000".to_string(),
        access_token: Some("token".to_string()),
    };
    assert_eq!(user.access_token(), "token");
    assert_eq!(user.auth_session(), "token");
    assert_eq!(user.user_type(), "msa");
}

#[test]
fn options_need_their_four_required_fields() {
    let error = GameOptionsBuilder::new().build().expect_err("nothing set");
    assert_eq!(error, "`version` must be initialized");
    let mut builder = GameOptionsBuilder::new();
    builder.version = Some(MCVersion::new("1.20.1"));
    builder.game_dir = Some("/game".to_string());
    assert_eq!(builder.build().expect_err("incomplete"), "`java_path` must be initialized");
    let mut builder = GameOptionsBuilder::new();
    builder.version = Some(MCVersion::new("1.20.1"));
    builder.game_dir = Some("/game".to_string());
    builder.java_path = Some("java".to_string());
    assert_eq!(builder.build().expect_err("incomplete"), "`authentication` must be initialized");
}

#[test]
fn options_have_defaults() {
    let options = options();
    assert_eq!(options.max_concurrent_downloads, 16);
    assert_eq!(options.max_download_attempts, 5);
    assert!(matches!(options.proxy, ProxyOptions::NoProxy));
    assert!(options.resolution.is_none());
    assert!(options.jvm_args.is_none());
    assert_eq!(options.game_dir, "/game");
    assert_eq!(options.version.to_string(), "1.20.1");
}

#[test]
fn a_reporter_is_handed_to_the_options() {
    let mut reporter = ProgressReporter::new();
    reporter.set_progress(1);
    let mut builder = GameOptionsBuilder::new().progress_reporter_arc(&reporter);
    builder.version = Some(MCVersion::new("1.20.1"));
    builder.game_dir = Some("/game".to_string());
    builder.java_path = Some("java".to_string());
    builder.authentication = Some(UserAuthentication::offline("Steve"));
    builder.max_concurrent_downloads = Some(32);
    let mut options = builder.build().expect("complete");
    assert_eq!(options.max_concurrent_downloads, 32);
    let updates = options.progress_reporter.take_updates();
    assert!(matches!(updates[..], [ProgressUpdate::SetProgress(1)]));
    let other = GameOptionsBuilder::new().progress_reporter(ProgressReporter::new());
    assert!(other.progress_reporter.is_some());
}

#[test]
fn features_follow_the_options() {
    let mut options = options();
    let features = options.env_features();
    assert!(features.get_feature(RuleFeatureType::IsDemoUser).is_none());
    assert!(features.get_feature(RuleFeatureType::HasCustomResolution).is_none());
    options.demo = Some(false);
    options.resolution = Some(MinecraftResolution::new(800, 600));
    let features = options.env_features();
    assert!(features.has_feature(&RuleFeatureType::IsDemoUser, &FeatureValue::Bool(false)));
    assert!(features.has_feature(&RuleFeatureType::HasCustomResolution, &FeatureValue::Bool(true)));
}

#[test]
fn class_paths_are_joined_by_the_separator_of_the_system() {
    let paths = vec!["/a.jar".to_string(), "/b.jar".to_string(), "/c.jar".to_string()];
    assert_eq!(construct_classpath(&paths, OperatingSystem::Linux), "/a.jar:/b.jar:/c.jar");
    assert_eq!(construct_classpath(&paths, OperatingSystem::Windows), "/a.jar;/b.jar;/c.jar");
    assert_eq!(construct_classpath(&vec!["/a.jar".to_string()], OperatingSystem::Osx), "/a.jar");
    assert_eq!(construct_classpath(&vec![], OperatingSystem::Osx), "");
}

#[test]
fn the_launch_knows_its_replacements() {
    let mut options = options();
    options.launcher_options = Some(LauncherOptions::new("Test Launcher", "v1"));
    options.resolution = Some(MinecraftResolution::new(854, 480));
    options.substitutor_overrides =
        vec![Override { key: "language".to_string(), value: "de-de".to_string() }];
    let index = AssetIndex {
        objects: vec![AssetEntry {
            name: "icons/minecraft.icns".to_string(),
            object: AssetObject {
                hash: Sha1Sum::from_reader(b"abc"),
                size: 3,
                reconstruct: None,
                compressed_hash: None,
                compressed_size: None,
            },
        }],
        map_to_resources: false,
        is_virtual: false,
    };
    let substitutor =
        create_arguments_substitutor(&options, &manifest("1.20.1"), OperatingSystem::Linux, &paths(), Some(&index));
    let expect = |input: &str, output: &str| assert_eq!(substitutor.substitute(input), output);
    expect("${auth_player_name}", "Steve");
    expect("${auth_uuid}", "0550532a-7bdf-3ae6-902f-d9f724b94386");
    expect("[${auth_access_token}]", "[]");
    expect("${auth_session}", "-");
    expect("${user_type}", "legacy");
    expect("${version_name}", "1.20.1");
    expect("${game_directory}", "/game");
    expect("${game_assets}", "/game/assets/virtual/5");
    expect("${assets_root}", "/game/assets");
    expect("${assets_index_name}", "5");
    expect("${version_type}", "snapshot");
    expect("${resolution_width}x${resolution_height}", "854x480");
    expect("${language}", "de-de");
    expect("${launcher_name} ${launcher_version}", "Test Launcher v1");
    expect("${natives_directory}", "/game/natives");
    expect("${classpath}", "/game/a.jar:/game/b.jar");
    expect("${classpath_separator}", ":");
    expect("${primary_jar}", "/game/versions/1.20.1/1.20.1.jar");
    expect("[${clientid}${auth_xuid}]", "[]");
    expect("${library_directory}", "/game/libraries");
    expect(
        "${asset=icons/minecraft.icns}",
        "/game/assets/objects/a9/a9993e364706816aba3e25717850c26c9cd0d89d",
    );
}

#[test]
fn a_modern_manifest_gives_its_lists_of_arguments() {
    let mut version = manifest("1.20.1");
    version.arguments.jvm = Some(vec![
        Argument::Value(ArgumentValue::String("-Djava.library.path=${natives_directory}".to_string())),
        Argument::Object {
            rules: vec![Rule {
                action: RuleAction::Allow,
                features: vec![FeatureRequirement {
                    feature: RuleFeatureType::IsDemoUser,
                    value: FeatureValue::Bool(true),
                }],
                os: None,
            }],
            value: ArgumentValue::String("-Ddemo".to_string()),
        },
    ]);
    version.arguments.game = Some(vec![Argument::Value(ArgumentValue::List(vec![
        "--username".to_string(),
        "${auth_player_name}".to_string(),
    ]))]);
    let mut options = options();
    options.jvm_args = Some(vec!["-Xmx4G".to_string()]);
    let substitutor =
        create_arguments_substitutor(&options, &version, OperatingSystem::Linux, &paths(), None);
    let arguments = build_launch_arguments(
        &version,
        &options,
        &EnvironmentFeatures::new(),
        &linux(),
        false,
        &substitutor,
    );
    assert_eq!(
        arguments,
        vec![
            "-Xmx4G",
            "-Djava.library.path=/game/natives",
            "net.minecraft.client.main.Main",
            "--username",
            "Steve",
        ]
    );
}

#[test]
fn an_old_manifest_gives_its_string_of_arguments() {
    let mut version = manifest("1.8.9");
    version.minecraft_arguments = Some("--username ${auth_player_name} --version ${version_name}".to_string());
    let mut options = options();
    options.jvm_args = Some(vec![]);
    options.proxy = ProxyOptions::Proxy {
        host: "proxy".to_string(),
        port: 3128,
        username: Some("user".to_string()),
        password: None,
    };
    let mut features = EnvironmentFeatures::new();
    features.set_feature(RuleFeatureType::IsDemoUser, FeatureValue::Bool(true));
    let substitutor =
        create_arguments_substitutor(&options, &version, OperatingSystem::Linux, &paths(), None);
    let arguments = build_launch_arguments(&version, &options, &features, &linux(), false, &substitutor);
    assert_eq!(
        arguments,
        vec![
            "-Djava.library.path=/game/natives",
            "-Dminecraft.launcher.brand=",
            "-Dminecraft.launcher.version=",
            "-Dminecraft.client.jar=/game/versions/1.8.9/1.8.9.jar",
            "-cp",
            "/game/a.jar:/game/b.jar",
            "net.minecraft.client.main.Main",
            "--username",
            "Steve",
            "--version",
            "1.20.1",
            "--demo",
            "--proxyHost",
            "proxy",
            "--proxyPort",
            "3128",
            "--proxyUser",
            "user",
        ]
    );
}

#[test]
fn windows_gets_its_own_flags_for_old_versions() {
    let mut version = manifest("1.8.9");
    version.minecraft_arguments = Some("".to_string());
    let mut options = options();
    options.jvm_args = Some(vec![]);
    let substitutor =
        create_arguments_substitutor(&options, &version, OperatingSystem::Windows, &paths(), None);
    let windows = Platform::new(OperatingSystem::Windows, "x64", "10.0");
    let arguments = build_launch_arguments(
        &version,
        &options,
        &EnvironmentFeatures::new(),
        &windows,
        true,
        &substitutor,
    );
    assert_eq!(
        &arguments[..3],
        &[
            "-XX:HeapDumpPath=MojangTricksIntelDriversForPerformance_javaw.exe_minecraft.exe.heapdump",
            "-Dos.name=Windows 10",
            "-Dos.version=10.0",
        ]
    );
    assert_eq!(arguments.last().map(String::as_str), Some(""));
}

#[test]
fn the_default_arguments_of_the_runtime_are_used_where_none_are_given() {
    let version = manifest("1.20.1");
    let options = options();
    let substitutor =
        create_arguments_substitutor(&options, &version, OperatingSystem::Linux, &paths(), None);
    let arguments = build_launch_arguments(
        &version,
        &options,
        &EnvironmentFeatures::new(),
        &linux(),
        false,
        &substitutor,
    );
    assert_eq!(
        arguments,
        vec![
            "-Xmx2G",
            "-XX:+UnlockExperimentalVMOptions",
            "-XX:+UseG1GC",
            "-XX:G1NewSizePercent=20",
            "-XX:G1ReservePercent=20",
            "-XX:MaxGCPauseMillis=50",
            "-XX:G1HeapRegionSize=32M",
            "net.minecraft.client.main.Main",
        ]
    );
}
