use minecraft_launcher_core::argument::{Argument, ArgumentType, ArgumentValue};
use minecraft_launcher_core::artifact::Artifact;
use minecraft_launcher_core::checksum::Sha1Sum;
use minecraft_launcher_core::date::Date;
use minecraft_launcher_core::library::{DownloadInfo, DownloadType, Library, NativeClassifier};
use minecraft_launcher_core::manifest::{
    Arguments, DownloadEntry, JavaVersionInfo, VersionInfo, VersionManifest,
};
use minecraft_launcher_core::rule::{
    EnvironmentFeatures, FeatureRequirement, FeatureValue, OperatingSystem, OsRestriction,
    Platform, Rule, RuleAction, RuleFeatureType,
};
use minecraft_launcher_core::version::{MCVersion, ReleaseType};

fn library(coordinate: &str) -> Library {
    Library {
        name: Artifact::parse(coordinate).expect("a coordinate"),
        rules: vec![],
        natives: vec![],
        extract: None,
        url: None,
        downloads: None,
    }
}

fn only_on(mut library: Library, os: OperatingSystem) -> Library {
    library.rules = vec![Rule {
        action: RuleAction::Allow,
        features: vec![],
        os: Some(OsRestriction { name: Some(os), arch: None, version: None }),
    }];
    library
}

fn manifest(id: &str) -> VersionManifest {
    VersionManifest {
        arguments: Arguments::new(),
        minecraft_arguments: None,
        asset_index: None,
        assets: None,
        compatibility_rules: vec![],
        compliance_level: None,
        downloads: vec![],
        id: MCVersion::new(id),
        inherits_from: None,
        java_version: None,
        libraries: vec![],
        logging: vec![],
        main_class: None,
        jar: None,
        minimum_launcher_version: None,
        release_time: Date { seconds: 1, nanos: 0, offset: 0 },
        updated_time: Date { seconds: 2, nanos: 0, offset: 0 },
        release_type: ReleaseType::Release,
    }
}

fn linux() -> Platform {
    Platform::new(OperatingSystem::Linux, "x64", "6.1")
}

#[test]
fn relevant_libraries_are_those_that_apply() {
    let mut version = manifest("1.20.1");
    version.libraries = vec![
        library("a:a:1"),
        only_on(library("b:b:1"), OperatingSystem::Windows),
        only_on(library("c:c:1"), OperatingSystem::Linux),
    ];
    let features = EnvironmentFeatures::new();
    let relevant = version.get_relevant_libraries(&features, &linux());
    let names: Vec<&str> = relevant.iter().map(|library| library.name.name.as_str()).collect();
    assert_eq!(names, vec!["a", "c"]);
}

#[test]
fn required_files_lie_below_libraries() {
    let mut version = manifest("1.20.1");
    let mut natives = library("org.lwjgl:lwjgl:3");
    natives.natives =
        vec![NativeClassifier { os: OperatingSystem::Linux, classifier: "natives-linux".to_string() }];
    let mut foreign = library("org.lwjgl:glfw:3");
    foreign.natives =
        vec![NativeClassifier { os: OperatingSystem::Osx, classifier: "natives-osx".to_string() }];
    version.libraries = vec![library("com.mojang:patchy:1.1"), natives, foreign];
    let files =
        version.get_required_files(&OperatingSystem::Linux, &EnvironmentFeatures::new(), &linux());
    assert_eq!(
        files,
        vec![
            "libraries/com/mojang/patchy-1.1.jar".to_string(),
            "libraries/org/lwjgl/lwjgl-3-natives-linux.jar".to_string(),
        ]
    );
}

#[test]
fn jar_defaults_to_the_identifier() {
    let mut version = manifest("1.20.1-forge");
    assert_eq!(version.get_jar().to_string(), "1.20.1-forge");
    version.jar = Some(MCVersion::new("1.20.1"));
    assert_eq!(version.get_jar().to_string(), "1.20.1");
}

#[test]
fn main_class_is_handed_out() {
    let mut version = manifest("1.20.1");
    version.main_class = Some("net.minecraft.client.main.Main".to_string());
    assert_eq!(version.get_main_class(), "net.minecraft.client.main.Main");
}

#[test]
fn downloads_are_found_by_kind() {
    let mut version = manifest("1.20.1");
    version.downloads = vec![
        DownloadEntry {
            kind: DownloadType::Server,
            info: DownloadInfo { sha1: Sha1Sum::null(), size: 1, url: "server".to_string() },
        },
        DownloadEntry {
            kind: DownloadType::Client,
            info: DownloadInfo { sha1: Sha1Sum::null(), size: 2, url: "client".to_string() },
        },
    ];
    assert_eq!(version.get_download_url(DownloadType::Client).expect("listed").url, "client");
    assert_eq!(version.get_download_url(DownloadType::Server).expect("listed").size, 1);
    assert!(version.get_download_url(DownloadType::ClientMappings).is_none());
}

#[test]
fn compatibility_follows_the_rules() {
    let mut version = manifest("1.20.1");
    let features = EnvironmentFeatures::new();
    assert!(version.applies_to_current_environment(&features, &linux()));
    version.compatibility_rules = vec![Rule {
        action: RuleAction::Allow,
        features: vec![FeatureRequirement {
            feature: RuleFeatureType::IsDemoUser,
            value: FeatureValue::Bool(true),
        }],
        os: None,
    }];
    assert!(!version.applies_to_current_environment(&features, &linux()));
    let mut demo = EnvironmentFeatures::new();
    demo.set_feature(RuleFeatureType::IsDemoUser, FeatureValue::Bool(true));
    assert!(version.applies_to_current_environment(&demo, &linux()));
}

#[test]
fn class_path_ends_with_the_archive() {
    let mut version = manifest("1.20.1");
    let mut natives = library("org.lwjgl:lwjgl:3");
    natives.natives =
        vec![NativeClassifier { os: OperatingSystem::Linux, classifier: "natives-linux".to_string() }];
    version.libraries = vec![library("com.mojang:patchy:1.1"), natives];
    let paths = version.get_classpath("/game", &EnvironmentFeatures::new(), &linux());
    assert_eq!(
        paths,
        vec![
            "/game/libraries/com/mojang/patchy-1.1.jar".to_string(),
            "/game/versions/1.20.1/1.20.1.jar".to_string(),
        ]
    );
}

#[test]
fn arguments_are_kept_by_phase() {
    let mut arguments = Arguments::new();
    assert!(arguments.is_empty());
    assert!(arguments.get(&ArgumentType::Game).is_none());
    arguments.jvm = Some(vec![Argument::Value(ArgumentValue::String("-Xmx2G".to_string()))]);
    assert!(!arguments.is_empty());
    assert_eq!(arguments.get(&ArgumentType::Jvm).map(|list| list.len()), Some(1));
    assert!(arguments.get(&ArgumentType::Game).is_none());
}

#[test]
fn argument_values_are_one_or_many() {
    let one = ArgumentValue::String("--demo".to_string());
    assert_eq!(one.value(), vec!["--demo"]);
    let many = ArgumentValue::List(vec!["--width".to_string(), "854".to_string()]);
    assert_eq!(many.value(), vec!["--width", "854"]);
    assert!(ArgumentValue::List(vec![]).value().is_empty());
}

#[test]
fn guarded_arguments_apply_where_their_rules_allow() {
    let features = EnvironmentFeatures::new();
    let plain = Argument::Value(ArgumentValue::String("--x".to_string()));
    assert!(plain.applies_to_current_environment(&features, &linux()));
    assert_eq!(plain.apply(&features, &linux()).expect("applies"), vec!["--x"]);
    let guarded = Argument::Object {
        rules: vec![Rule {
            action: RuleAction::Allow,
            features: vec![FeatureRequirement {
                feature: RuleFeatureType::HasCustomResolution,
                value: FeatureValue::Bool(true),
            }],
            os: None,
        }],
        value: ArgumentValue::List(vec!["--width".to_string(), "${resolution_width}".to_string()]),
    };
    assert!(guarded.apply(&features, &linux()).is_none());
    assert_eq!(guarded.value(), vec!["--width", "${resolution_width}"]);
    let mut sized = EnvironmentFeatures::new();
    sized.set_feature(RuleFeatureType::HasCustomResolution, FeatureValue::Bool(true));
    assert_eq!(guarded.apply(&sized, &linux()).expect("applies"), vec!["--width", "${resolution_width}"]);
    let unguarded = Argument::Object { rules: vec![], value: ArgumentValue::String("x".to_string()) };
    assert!(unguarded.applies_to_current_environment(&features, &linux()));
}

#[test]
fn the_default_runtime_is_java_eight() {
    let java = JavaVersionInfo::default();
    assert_eq!(java.component, "jre-legacy");
    assert_eq!(java.major_version, 8);
}

#[test]
fn a_manifest_tells_what_every_version_tells() {
    let version = manifest("23w46a");
    assert_eq!(version.get_id().to_string(), "23w46a");
    assert_eq!(*version.get_type(), ReleaseType::Release);
    assert_eq!(version.get_release_time().seconds, 1);
    assert_eq!(version.get_updated_time().seconds, 2);
}
