use minecraft_launcher_core::options::{MinecraftFeatureMatcher, MinecraftResolution};
use minecraft_launcher_core::rule::{
    evaluate, get_arch, get_os_version, EnvironmentFeatures, FeatureMatcher, FeatureRequirement,
    FeatureValue, OperatingSystem, OsRestriction, OsVersion, Platform, Rule, RuleAction,
    RuleFeatureType,
};

fn linux() -> Platform {
    Platform::new(OperatingSystem::Linux, "x64", "6.1.0")
}

fn rule(action: RuleAction) -> Rule {
    Rule { action, features: vec![], os: None }
}

fn on(action: RuleAction, os: OperatingSystem) -> Rule {
    Rule { action, features: vec![], os: Some(OsRestriction { name: Some(os), arch: None, version: None }) }
}

fn needing(action: RuleAction, feature: RuleFeatureType, value: bool) -> Rule {
    Rule {
        action,
        features: vec![FeatureRequirement { feature, value: FeatureValue::Bool(value) }],
        os: None,
    }
}

#[test]
fn no_rules_allow() {
    assert_eq!(evaluate(&vec![], &EnvironmentFeatures::new(), &linux()), RuleAction::Allow);
}

#[test]
fn rules_without_restrictions_that_end_in_allow_allow() {
    let features = EnvironmentFeatures::new();
    assert_eq!(evaluate(&vec![rule(RuleAction::Allow)], &features, &linux()), RuleAction::Allow);
    assert_eq!(
        evaluate(&vec![rule(RuleAction::Disallow), rule(RuleAction::Allow)], &features, &linux()),
        RuleAction::Allow
    );
}

#[test]
fn rules_without_restrictions_follow_the_last_rule() {
    let features = EnvironmentFeatures::new();
    assert_eq!(evaluate(&vec![rule(RuleAction::Disallow)], &features, &linux()), RuleAction::Disallow);
    assert_eq!(
        evaluate(&vec![rule(RuleAction::Allow), rule(RuleAction::Disallow)], &features, &linux()),
        RuleAction::Disallow
    );
}

#[test]
fn unmatched_rules_disallow() {
    let features = EnvironmentFeatures::new();
    let rules = vec![on(RuleAction::Allow, OperatingSystem::Osx)];
    assert_eq!(evaluate(&rules, &features, &linux()), RuleAction::Disallow);
}

#[test]
fn a_disallow_rule_with_an_unmet_feature_disallows() {
    let features = EnvironmentFeatures::new();
    let rules = vec![needing(RuleAction::Disallow, RuleFeatureType::IsDemoUser, true)];
    assert_eq!(evaluate(&rules, &features, &linux()), RuleAction::Disallow);
    assert!(rules[0].get_applied_action(&features, &linux()).is_none());
}

#[test]
fn the_last_match_wins() {
    let features = EnvironmentFeatures::new();
    let rules = vec![rule(RuleAction::Allow), on(RuleAction::Disallow, OperatingSystem::Osx)];
    assert_eq!(evaluate(&rules, &features, &linux()), RuleAction::Allow);
    let mac = Platform::new(OperatingSystem::Osx, "x64", "12.0");
    assert_eq!(evaluate(&rules, &features, &mac), RuleAction::Disallow);
    let rules = vec![on(RuleAction::Disallow, OperatingSystem::Linux), rule(RuleAction::Allow)];
    assert_eq!(evaluate(&rules, &features, &linux()), RuleAction::Allow);
}

#[test]
fn features_must_have_the_required_value() {
    let mut features = EnvironmentFeatures::new();
    let rules = vec![needing(RuleAction::Allow, RuleFeatureType::HasCustomResolution, true)];
    assert_eq!(evaluate(&rules, &features, &linux()), RuleAction::Disallow);
    features.set_feature(RuleFeatureType::HasCustomResolution, FeatureValue::Bool(false));
    assert_eq!(evaluate(&rules, &features, &linux()), RuleAction::Disallow);
    features.set_feature(RuleFeatureType::HasCustomResolution, FeatureValue::Bool(true));
    assert_eq!(evaluate(&rules, &features, &linux()), RuleAction::Allow);
    features.set_feature(RuleFeatureType::HasCustomResolution, FeatureValue::Text("true".to_string()));
    assert_eq!(evaluate(&rules, &features, &linux()), RuleAction::Disallow);
}

#[test]
fn every_required_feature_must_be_there() {
    let mut features = EnvironmentFeatures::new();
    features.set_feature(RuleFeatureType::IsDemoUser, FeatureValue::Bool(true));
    let both = Rule {
        action: RuleAction::Allow,
        features: vec![
            FeatureRequirement { feature: RuleFeatureType::IsDemoUser, value: FeatureValue::Bool(true) },
            FeatureRequirement {
                feature: RuleFeatureType::IsQuickPlayRealms,
                value: FeatureValue::Bool(true),
            },
        ],
        os: None,
    };
    assert!(both.get_applied_action(&features, &linux()).is_none());
    features.set_feature(RuleFeatureType::IsQuickPlayRealms, FeatureValue::Bool(true));
    assert_eq!(both.get_applied_action(&features, &linux()), Some(RuleAction::Allow));
}

#[test]
fn features_are_set_and_read() {
    let mut features = EnvironmentFeatures::default();
    assert!(features.get_feature(RuleFeatureType::IsDemoUser).is_none());
    features.set_feature(RuleFeatureType::IsDemoUser, FeatureValue::Json("[1]".to_string()));
    features.set_feature(RuleFeatureType::IsDemoUser, FeatureValue::Bool(true));
    assert!(matches!(features.get_feature(RuleFeatureType::IsDemoUser), Some(FeatureValue::Bool(true))));
    assert!(features.has_feature(&RuleFeatureType::IsDemoUser, &FeatureValue::Bool(true)));
    assert!(!features.has_feature(&RuleFeatureType::IsDemoUser, &FeatureValue::Bool(false)));
    assert!(!features.has_feature(&RuleFeatureType::HasQuickPlaysSupport, &FeatureValue::Bool(true)));
    let copy = features.clone();
    assert!(copy.has_feature(&RuleFeatureType::IsDemoUser, &FeatureValue::Bool(true)));
}

#[test]
fn the_simple_matcher_knows_two_features() {
    let matcher = MinecraftFeatureMatcher::new(true, None);
    assert!(matcher.has_feature(&RuleFeatureType::IsDemoUser, &FeatureValue::Bool(true)));
    assert!(!matcher.has_feature(&RuleFeatureType::IsDemoUser, &FeatureValue::Bool(false)));
    assert!(matcher.has_feature(&RuleFeatureType::HasCustomResolution, &FeatureValue::Bool(false)));
    assert!(!matcher.has_feature(&RuleFeatureType::HasCustomResolution, &FeatureValue::Bool(true)));
    assert!(!matcher.has_feature(&RuleFeatureType::IsQuickPlayRealms, &FeatureValue::Bool(false)));
    assert!(!matcher.has_feature(&RuleFeatureType::IsDemoUser, &FeatureValue::Text("true".to_string())));
    let sized = MinecraftFeatureMatcher::new(false, Some(MinecraftResolution::new(800, 600)));
    assert!(sized.has_feature(&RuleFeatureType::HasCustomResolution, &FeatureValue::Bool(true)));
}

#[test]
fn restrictions_compare_name_and_architecture() {
    let platform = linux();
    let by_name = OsRestriction { name: Some(OperatingSystem::Linux), arch: None, version: None };
    assert!(by_name.is_current_operating_system(&platform));
    let other = OsRestriction { name: Some(OperatingSystem::Windows), arch: None, version: None };
    assert!(!other.is_current_operating_system(&platform));
    let by_arch = OsRestriction { name: None, arch: Some("x64".to_string()), version: None };
    assert!(by_arch.is_current_operating_system(&platform));
    let x86 = OsRestriction { name: None, arch: Some("x86".to_string()), version: None };
    assert!(!x86.is_current_operating_system(&platform));
    let nothing = OsRestriction { name: None, arch: None, version: None };
    assert!(nothing.is_current_operating_system(&platform));
}

#[test]
fn restrictions_match_the_version_against_a_pattern() {
    let ten = Platform::new(OperatingSystem::Windows, "x64", "10.0.19045");
    let pattern = OsRestriction { name: None, arch: None, version: Some("^10\\.".to_string()) };
    assert!(pattern.is_current_operating_system(&ten));
    let seven = Platform::new(OperatingSystem::Windows, "x64", "6.1");
    assert!(!pattern.is_current_operating_system(&seven));
    let literal = OsRestriction { name: None, arch: None, version: Some("10.0.19045".to_string()) };
    assert!(literal.is_current_operating_system(&ten));
    assert!(!literal.is_current_operating_system(&seven));
}

#[test]
fn a_pattern_that_does_not_compile_restricts_nothing() {
    let platform = linux();
    let broken = OsRestriction { name: None, arch: None, version: Some("(".to_string()) };
    assert!(broken.is_current_operating_system(&platform));
}

#[test]
fn operating_systems_have_names_and_aliases() {
    assert_eq!(
        OperatingSystem::values(),
        [OperatingSystem::Linux, OperatingSystem::Windows, OperatingSystem::Osx, OperatingSystem::Unknown]
    );
    assert_eq!(OperatingSystem::Linux.get_name(), "linux");
    assert_eq!(OperatingSystem::Windows.get_name(), "windows");
    assert_eq!(OperatingSystem::Osx.get_name(), "osx");
    assert_eq!(OperatingSystem::Unknown.get_name(), "unknown");
    assert_eq!(OperatingSystem::Linux.get_aliases(), vec!["linux", "unix"]);
    assert_eq!(OperatingSystem::Windows.get_aliases(), vec!["win"]);
    assert_eq!(OperatingSystem::Osx.get_aliases(), vec!["mac"]);
    assert!(OperatingSystem::Unknown.get_aliases().is_empty());
    assert!(OperatingSystem::Linux.is_supported());
    assert!(!OperatingSystem::Unknown.is_supported());
}

#[test]
fn platform_names_reveal_the_system() {
    assert_eq!(OperatingSystem::get_current_platform("linux"), OperatingSystem::Linux);
    assert_eq!(OperatingSystem::get_current_platform("LINUX"), OperatingSystem::Linux);
    assert_eq!(OperatingSystem::get_current_platform("windows"), OperatingSystem::Windows);
    assert_eq!(OperatingSystem::get_current_platform("Windows"), OperatingSystem::Windows);
    assert_eq!(OperatingSystem::get_current_platform("macos"), OperatingSystem::Osx);
    assert_eq!(OperatingSystem::get_current_platform("darwin"), OperatingSystem::Windows);
    assert_eq!(OperatingSystem::get_current_platform("freebsd"), OperatingSystem::Unknown);
    assert_eq!(OperatingSystem::get_current_platform(""), OperatingSystem::Unknown);
}

#[test]
fn architectures_are_renamed() {
    assert_eq!(get_arch("x86_64"), "x64");
    assert_eq!(get_arch("x86"), "x86");
    assert_eq!(get_arch("aarch64"), "aarch64");
}

#[test]
fn system_versions_are_written() {
    assert_eq!(get_os_version(&OsVersion::Semantic(10, 0, 19045)), "10.0.19045");
    assert_eq!(get_os_version(&OsVersion::Semantic(0, 0, 0)), "0.0.0");
    assert_eq!(get_os_version(&OsVersion::Custom("22.04 LTS".to_string())), "22.04 LTS");
    assert_eq!(get_os_version(&OsVersion::Unknown), "unknown");
    assert_eq!(get_os_version(&OsVersion::Rolling(Some("2024".to_string()))), "unknown");
}
