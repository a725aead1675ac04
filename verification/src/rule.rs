//! Rules: conditional allow and disallow gates keyed on the operating
//! system and on named feature flags, and their evaluation.

use vstd::prelude::*;
use crate::model::{lemma_view_seq_eq, view_opt, view_seq};
use crate::text::{contains, from_chars, push_decimal, str_contains, str_eq, decimal};

verus! {

/// Whether the regular expression `pattern` finds a match in `text`, as the
/// `regex` crate decides it; `None` where `pattern` does not compile.
pub uninterp spec fn regex_match(pattern: Seq<char>, text: Seq<char>) -> Option<bool>;

/// The lower-case form of a text, as `str::to_lowercase` gives it.
pub uninterp spec fn lowercase(text: Seq<char>) -> Seq<char>;

/// `regex::Regex::new` and `Regex::is_match`: compiles `pattern` and says
/// whether it matches anywhere in `text`. A pattern that does not compile
/// gives `None`. The outcome depends on the two texts alone.
#[verifier::external_body]
fn regex_is_match(pattern: &str, text: &str) -> (found: Option<bool>)
    ensures
        found == regex_match(pattern@, text@),
{
    match regex::Regex::new(pattern) {
        Ok(compiled) => Some(compiled.is_match(text)),
        Err(_) => None,
    }
}

/// `str::to_lowercase`.
#[verifier::external_body]
fn to_lowercase(text: &str) -> (lower: String)
    ensures
        lower@ == lowercase(text@),
{
    text.to_lowercase()
}

/// What a rule that applies does.
#[derive(Debug, Clone, Copy, PartialEq, Eq, Hash, Structural)]
pub enum RuleAction {
    Allow,
    Disallow,
}

/// The named feature flags that a rule can ask for.
#[derive(Debug, Clone, Copy, PartialEq, Eq, Hash, Structural)]
pub enum RuleFeatureType {
    IsDemoUser,
    HasCustomResolution,
    HasQuickPlaysSupport,
    IsQuickPlaySingleplayer,
    IsQuickPlayMultiplayer,
    IsQuickPlayRealms,
}

/// The value of a feature flag: a boolean, a text, or any other JSON value
/// in its compact written form.
#[derive(Debug)]
pub enum FeatureValue {
    Bool(bool),
    Text(String),
    Json(String),
}

/// The mathematical value of a [`FeatureValue`].
pub enum FeatureValueView {
    Bool(bool),
    Text(Seq<char>),
    Json(Seq<char>),
}

impl View for FeatureValue {
    type V = FeatureValueView;

    open spec fn view(&self) -> FeatureValueView {
        match *self {
            FeatureValue::Bool(b) => FeatureValueView::Bool(b),
            FeatureValue::Text(s) => FeatureValueView::Text(s@),
            FeatureValue::Json(s) => FeatureValueView::Json(s@),
        }
    }
}

impl Clone for FeatureValue {
    fn clone(&self) -> (out: Self)
        ensures
            out@ == self@,
    {
        match self {
            FeatureValue::Bool(b) => FeatureValue::Bool(*b),
            FeatureValue::Text(s) => FeatureValue::Text(s.clone()),
            FeatureValue::Json(s) => FeatureValue::Json(s.clone()),
        }
    }
}

impl FeatureValue {
    /// Whether two values are the same.
    pub fn same(&self, other: &FeatureValue) -> (same: bool)
        ensures
            same == (self@ == other@),
    {
        match (self, other) {
            (FeatureValue::Bool(a), FeatureValue::Bool(b)) => *a == *b,
            (FeatureValue::Text(a), FeatureValue::Text(b)) => *a == *b,
            (FeatureValue::Json(a), FeatureValue::Json(b)) => *a == *b,
            _ => false,
        }
    }

    /// The boolean that the value holds, if it holds one.
    pub fn as_bool(&self) -> (value: Option<bool>)
        ensures
            value == match self@ {
                FeatureValueView::Bool(b) => Some(b),
                _ => None,
            },
    {
        match self {
            FeatureValue::Bool(b) => Some(*b),
            _ => None,
        }
    }
}

/// One feature flag that a rule requires, with the value it must have.
#[derive(Debug)]
pub struct FeatureRequirement {
    pub feature: RuleFeatureType,
    pub value: FeatureValue,
}

/// The mathematical value of a [`FeatureRequirement`].
pub struct FeatureRequirementView {
    pub feature: RuleFeatureType,
    pub value: FeatureValueView,
}

impl View for FeatureRequirement {
    type V = FeatureRequirementView;

    open spec fn view(&self) -> FeatureRequirementView {
        FeatureRequirementView { feature: self.feature, value: self.value@ }
    }
}

impl Clone for FeatureRequirement {
    fn clone(&self) -> (out: Self)
        ensures
            out@ == self@,
    {
        FeatureRequirement { feature: self.feature, value: self.value.clone() }
    }
}

/// What decides whether the environment has a feature with a given value.
pub trait FeatureMatcher {
    /// Whether the environment has `feature` with exactly `value`.
    spec fn provides(&self, feature: RuleFeatureType, value: FeatureValueView) -> bool;

    /// Whether the environment has `feature_type` with exactly `value`.
    fn has_feature(&self, feature_type: &RuleFeatureType, value: &FeatureValue) -> (has: bool)
        ensures
            has == self.provides(*feature_type, value@),
    ;
}

/// The feature flags of the current run, each with its value.
#[derive(Debug)]
pub struct EnvironmentFeatures {
    is_demo_user: Option<FeatureValue>,
    has_custom_resolution: Option<FeatureValue>,
    has_quick_plays_support: Option<FeatureValue>,
    is_quick_play_singleplayer: Option<FeatureValue>,
    is_quick_play_multiplayer: Option<FeatureValue>,
    is_quick_play_realms: Option<FeatureValue>,
}

impl EnvironmentFeatures {
    spec fn slot(&self, feature: RuleFeatureType) -> Option<FeatureValue> {
        match feature {
            RuleFeatureType::IsDemoUser => self.is_demo_user,
            RuleFeatureType::HasCustomResolution => self.has_custom_resolution,
            RuleFeatureType::HasQuickPlaysSupport => self.has_quick_plays_support,
            RuleFeatureType::IsQuickPlaySingleplayer => self.is_quick_play_singleplayer,
            RuleFeatureType::IsQuickPlayMultiplayer => self.is_quick_play_multiplayer,
            RuleFeatureType::IsQuickPlayRealms => self.is_quick_play_realms,
        }
    }

    /// No feature is set.
    pub fn new() -> (features: Self)
        ensures
            features@ == Map::<RuleFeatureType, FeatureValueView>::empty(),
    {
        let features = EnvironmentFeatures {
            is_demo_user: None,
            has_custom_resolution: None,
            has_quick_plays_support: None,
            is_quick_play_singleplayer: None,
            is_quick_play_multiplayer: None,
            is_quick_play_realms: None,
        };
        assert(features@ =~= Map::<RuleFeatureType, FeatureValueView>::empty());
        features
    }

    /// Gives `feature` the value `value`, in place of the one it had.
    pub fn set_feature(&mut self, feature: RuleFeatureType, value: FeatureValue)
        ensures
            final(self)@ == old(self)@.insert(feature, value@),
    {
        match feature {
            RuleFeatureType::IsDemoUser => {
                self.is_demo_user = Some(value);
            },
            RuleFeatureType::HasCustomResolution => {
                self.has_custom_resolution = Some(value);
            },
            RuleFeatureType::HasQuickPlaysSupport => {
                self.has_quick_plays_support = Some(value);
            },
            RuleFeatureType::IsQuickPlaySingleplayer => {
                self.is_quick_play_singleplayer = Some(value);
            },
            RuleFeatureType::IsQuickPlayMultiplayer => {
                self.is_quick_play_multiplayer = Some(value);
            },
            RuleFeatureType::IsQuickPlayRealms => {
                self.is_quick_play_realms = Some(value);
            },
        }
        assert(forall|f: RuleFeatureType|
            f != feature ==> #[trigger] self.slot(f) == old(self).slot(f));
        assert(self.slot(feature) == Some(value));
        assert(self@ =~= old(self)@.insert(feature, value@));
    }

    /// The value of `feature`, if it is set.
    pub fn get_feature(&self, feature: RuleFeatureType) -> (value: Option<&FeatureValue>)
        ensures
            value is Some <==> self@.contains_key(feature),
            value is Some ==> value->0@ == self@[feature],
    {
        match feature {
            RuleFeatureType::IsDemoUser => self.is_demo_user.as_ref(),
            RuleFeatureType::HasCustomResolution => self.has_custom_resolution.as_ref(),
            RuleFeatureType::HasQuickPlaysSupport => self.has_quick_plays_support.as_ref(),
            RuleFeatureType::IsQuickPlaySingleplayer => self.is_quick_play_singleplayer.as_ref(),
            RuleFeatureType::IsQuickPlayMultiplayer => self.is_quick_play_multiplayer.as_ref(),
            RuleFeatureType::IsQuickPlayRealms => self.is_quick_play_realms.as_ref(),
        }
    }
}

impl View for EnvironmentFeatures {
    type V = Map<RuleFeatureType, FeatureValueView>;

    closed spec fn view(&self) -> Map<RuleFeatureType, FeatureValueView> {
        Map::new(
            |feature: RuleFeatureType| self.slot(feature) is Some,
            |feature: RuleFeatureType| self.slot(feature)->0@,
        )
    }
}

impl Clone for EnvironmentFeatures {
    fn clone(&self) -> (out: Self)
        ensures
            out@ == self@,
    {
        let out = EnvironmentFeatures {
            is_demo_user: clone_value(&self.is_demo_user),
            has_custom_resolution: clone_value(&self.has_custom_resolution),
            has_quick_plays_support: clone_value(&self.has_quick_plays_support),
            is_quick_play_singleplayer: clone_value(&self.is_quick_play_singleplayer),
            is_quick_play_multiplayer: clone_value(&self.is_quick_play_multiplayer),
            is_quick_play_realms: clone_value(&self.is_quick_play_realms),
        };
        assert(forall|f: RuleFeatureType|
            view_opt(#[trigger] out.slot(f)) == view_opt(self.slot(f)));
        assert(out@ =~= self@);
        out
    }
}

impl Default for EnvironmentFeatures {
    fn default() -> (features: Self)
        ensures
            features@ == Map::<RuleFeatureType, FeatureValueView>::empty(),
    {
        EnvironmentFeatures::new()
    }
}

fn clone_value(value: &Option<FeatureValue>) -> (out: Option<FeatureValue>)
    ensures
        view_opt(out) == view_opt(*value),
{
    match value {
        Some(inner) => Some(inner.clone()),
        None => None,
    }
}

impl FeatureMatcher for EnvironmentFeatures {
    open spec fn provides(&self, feature: RuleFeatureType, value: FeatureValueView) -> bool {
        self@.contains_key(feature) && self@[feature] == value
    }

    fn has_feature(&self, feature_type: &RuleFeatureType, value: &FeatureValue) -> (has: bool) {
        match self.get_feature(*feature_type) {
            Some(found) => found.same(value),
            None => false,
        }
    }
}

/// The operating systems that manifests tell apart.
#[derive(Debug, Clone, Copy, PartialEq, Eq, Hash, Structural)]
pub enum OperatingSystem {
    Linux,
    Windows,
    Osx,
    Unknown,
}

impl OperatingSystem {
    /// The name of the system as manifests write it.
    pub open spec fn name(self) -> Seq<char> {
        match self {
            OperatingSystem::Linux => "linux"@,
            OperatingSystem::Windows => "windows"@,
            OperatingSystem::Osx => "osx"@,
            OperatingSystem::Unknown => "unknown"@,
        }
    }

    /// The words by which a platform name reveals the system.
    pub open spec fn aliases(self) -> Seq<Seq<char>> {
        match self {
            OperatingSystem::Linux => seq!["linux"@, "unix"@],
            OperatingSystem::Windows => seq!["win"@],
            OperatingSystem::Osx => seq!["mac"@],
            OperatingSystem::Unknown => Seq::<Seq<char>>::empty(),
        }
    }

    /// The system that the platform name `name` reveals: the first, in the
    /// order of [`OperatingSystem::values`], one of whose aliases stands in
    /// the lower-case form of the name.
    pub open spec fn of_platform_name(name: Seq<char>) -> OperatingSystem {
        let lower = lowercase(name);
        if contains(lower, "linux"@) || contains(lower, "unix"@) {
            OperatingSystem::Linux
        } else if contains(lower, "win"@) {
            OperatingSystem::Windows
        } else if contains(lower, "mac"@) {
            OperatingSystem::Osx
        } else {
            OperatingSystem::Unknown
        }
    }

    /// The four systems.
    pub fn values() -> (all: [OperatingSystem; 4])
        ensures
            all@ == seq![
                OperatingSystem::Linux,
                OperatingSystem::Windows,
                OperatingSystem::Osx,
                OperatingSystem::Unknown,
            ],
    {
        let all = [
            OperatingSystem::Linux,
            OperatingSystem::Windows,
            OperatingSystem::Osx,
            OperatingSystem::Unknown,
        ];
        assert(all@ =~= seq![
            OperatingSystem::Linux,
            OperatingSystem::Windows,
            OperatingSystem::Osx,
            OperatingSystem::Unknown,
        ]);
        all
    }

    /// The name of the system as manifests write it.
    pub fn get_name(&self) -> (name: String)
        ensures
            name@ == self.name(),
    {
        match self {
            OperatingSystem::Linux => "linux".to_owned(),
            OperatingSystem::Windows => "windows".to_owned(),
            OperatingSystem::Osx => "osx".to_owned(),
            OperatingSystem::Unknown => "unknown".to_owned(),
        }
    }

    /// The words by which a platform name reveals the system.
    pub fn get_aliases(&self) -> (aliases: Vec<&'static str>)
        ensures
            aliases@.len() == self.aliases().len(),
            forall|i: int| 0 <= i < aliases@.len() ==> aliases@[i]@ == self.aliases()[i],
    {
        let mut aliases: Vec<&'static str> = Vec::new();
        match self {
            OperatingSystem::Linux => {
                aliases.push("linux");
                aliases.push("unix");
            },
            OperatingSystem::Windows => {
                aliases.push("win");
            },
            OperatingSystem::Osx => {
                aliases.push("mac");
            },
            OperatingSystem::Unknown => {},
        }
        aliases
    }

    /// Whether the system is one of the three that are known.
    pub fn is_supported(&self) -> (supported: bool)
        ensures
            supported == (*self != OperatingSystem::Unknown),
    {
        match self {
            OperatingSystem::Unknown => false,
            _ => true,
        }
    }

    /// The system that a platform name, such as the one the standard
    /// library reports for the machine, reveals.
    pub fn get_current_platform(os_name: &str) -> (os: OperatingSystem)
        ensures
            os == OperatingSystem::of_platform_name(os_name@),
    {
        let lower = to_lowercase(os_name);
        if str_contains(lower.as_str(), "linux") || str_contains(lower.as_str(), "unix") {
            OperatingSystem::Linux
        } else if str_contains(lower.as_str(), "win") {
            OperatingSystem::Windows
        } else if str_contains(lower.as_str(), "mac") {
            OperatingSystem::Osx
        } else {
            OperatingSystem::Unknown
        }
    }
}

/// The name of a processor architecture as manifests write it.
pub open spec fn arch_name(arch: Seq<char>) -> Seq<char> {
    if arch == "x86_64"@ {
        "x64"@
    } else {
        arch
    }
}

/// The name of a processor architecture as manifests write it: `x64` for
/// `x86_64`, and any other name unchanged.
pub fn get_arch(arch: &str) -> (name: String)
    ensures
        name@ == arch_name(arch@),
{
    if str_eq(arch, "x86_64") {
        "x64".to_owned()
    } else {
        arch.to_owned()
    }
}

/// The version of an operating system, as the machine reports it.
#[derive(Debug)]
pub enum OsVersion {
    Unknown,
    Semantic(u64, u64, u64),
    Rolling(Option<String>),
    Custom(String),
}

/// The text of an operating system version.
pub open spec fn os_version_text(version: OsVersion) -> Seq<char> {
    match version {
        OsVersion::Semantic(major, minor, patch) => decimal(major as nat) + seq!['.'] + decimal(
            minor as nat,
        ) + seq!['.'] + decimal(patch as nat),
        OsVersion::Custom(text) => text@,
        _ => "unknown"@,
    }
}

/// The text of an operating system version: `major.minor.patch`, a custom
/// text as it is, and `unknown` for anything else.
pub fn get_os_version(version: &OsVersion) -> (text: String)
    ensures
        text@ == os_version_text(*version),
{
    match version {
        OsVersion::Semantic(major, minor, patch) => {
            let mut out: Vec<char> = Vec::new();
            push_decimal(&mut out, *major);
            out.push('.');
            push_decimal(&mut out, *minor);
            out.push('.');
            push_decimal(&mut out, *patch);
            assert(out@ =~= os_version_text(*version));
            from_chars(out.as_slice())
        },
        OsVersion::Custom(text) => text.clone(),
        _ => "unknown".to_owned(),
    }
}

/// The machine that rules are evaluated for.
#[derive(Debug)]
pub struct Platform {
    pub os: OperatingSystem,
    pub arch: String,
    pub version: String,
}

/// The mathematical value of a [`Platform`].
pub struct PlatformView {
    pub os: OperatingSystem,
    pub arch: Seq<char>,
    pub version: Seq<char>,
}

impl View for Platform {
    type V = PlatformView;

    open spec fn view(&self) -> PlatformView {
        PlatformView { os: self.os, arch: self.arch@, version: self.version@ }
    }
}

impl Clone for Platform {
    fn clone(&self) -> (out: Self)
        ensures
            out@ == self@,
    {
        Platform { os: self.os, arch: self.arch.clone(), version: self.version.clone() }
    }
}

impl Platform {
    /// The platform with the given system, architecture and version.
    pub fn new(os: OperatingSystem, arch: &str, version: &str) -> (platform: Self)
        ensures
            platform@ == (PlatformView { os, arch: arch@, version: version@ }),
    {
        Platform { os, arch: arch.to_owned(), version: version.to_owned() }
    }
}

/// What a rule asks of the operating system.
#[derive(Debug)]
pub struct OsRestriction {
    pub name: Option<OperatingSystem>,
    pub arch: Option<String>,
    /// A regular expression that the version must match.
    pub version: Option<String>,
}

/// The mathematical value of an [`OsRestriction`].
pub struct OsRestrictionView {
    pub name: Option<OperatingSystem>,
    pub arch: Option<Seq<char>>,
    pub version: Option<Seq<char>>,
}

impl View for OsRestriction {
    type V = OsRestrictionView;

    open spec fn view(&self) -> OsRestrictionView {
        OsRestrictionView {
            name: self.name,
            arch: view_opt(self.arch),
            version: view_opt(self.version),
        }
    }
}

impl Clone for OsRestriction {
    fn clone(&self) -> (out: Self)
        ensures
            out@ == self@,
    {
        OsRestriction {
            name: self.name,
            arch: crate::model::clone_opt_string(&self.arch),
            version: crate::model::clone_opt_string(&self.version),
        }
    }
}

/// Whether a platform meets a restriction: the name and the architecture,
/// where given, are the platform's, and the version pattern, where given
/// and where it compiles, matches the platform's version.
pub open spec fn os_matches(restriction: OsRestrictionView, platform: PlatformView) -> bool {
    &&& restriction.name is Some ==> restriction.name->0 == platform.os
    &&& restriction.arch is Some ==> restriction.arch->0 == platform.arch
    &&& restriction.version is Some ==> regex_match(restriction.version->0, platform.version)
        != Some(false)
}

impl OsRestriction {
    /// Whether `platform` meets the restriction.
    pub fn is_current_operating_system(&self, platform: &Platform) -> (matches: bool)
        ensures
            matches == os_matches(self@, platform@),
    {
        if let Some(name) = &self.name {
            if *name != platform.os {
                return false;
            }
        }
        if let Some(arch) = &self.arch {
            if *arch != platform.arch {
                return false;
            }
        }
        if let Some(version) = &self.version {
            if let Some(found) = regex_is_match(version.as_str(), platform.version.as_str()) {
                if !found {
                    return false;
                }
            }
        }
        true
    }
}

/// A conditional gate.
#[derive(Debug)]
pub struct Rule {
    pub action: RuleAction,
    /// The feature flags that must have the given values.
    pub features: Vec<FeatureRequirement>,
    pub os: Option<OsRestriction>,
}

/// The mathematical value of a [`Rule`].
pub struct RuleView {
    pub action: RuleAction,
    pub features: Seq<FeatureRequirementView>,
    pub os: Option<OsRestrictionView>,
}

impl View for Rule {
    type V = RuleView;

    open spec fn view(&self) -> RuleView {
        RuleView {
            action: self.action,
            features: view_seq(self.features@),
            os: view_opt(self.os),
        }
    }
}

impl Clone for Rule {
    fn clone(&self) -> (out: Self)
        ensures
            out@ == self@,
    {
        let features = self.features.clone();
        proof {
            lemma_view_seq_eq(features@, self.features@);
        }
        Rule {
            action: self.action,
            features,
            os: match &self.os {
                Some(os) => Some(os.clone()),
                None => None,
            },
        }
    }
}

/// Whether a rule matches: it has no restriction on the operating system or
/// the platform meets it, and the environment has every feature that the
/// rule requires, with exactly the required value.
pub open spec fn rule_matches<M: FeatureMatcher>(
    rule: RuleView,
    matcher: &M,
    platform: PlatformView,
) -> bool {
    &&& rule.os is Some ==> os_matches(rule.os->0, platform)
    &&& forall|i: int|
        0 <= i < rule.features.len() ==> matcher.provides(
            (#[trigger] rule.features[i]).feature,
            rule.features[i].value,
        )
}

/// The action of the last rule that matches, if one does.
pub open spec fn last_match<M: FeatureMatcher>(
    rules: Seq<RuleView>,
    matcher: &M,
    platform: PlatformView,
) -> Option<RuleAction>
    decreases rules.len(),
{
    if rules.len() == 0 {
        None
    } else if rule_matches(rules.last(), matcher, platform) {
        Some(rules.last().action)
    } else {
        last_match(rules.drop_last(), matcher, platform)
    }
}

/// What a list of rules decides: `Allow` for the empty list; otherwise the
/// action of the last rule that matches, and `Disallow` where none does.
pub open spec fn evaluation<M: FeatureMatcher>(
    rules: Seq<RuleView>,
    matcher: &M,
    platform: PlatformView,
) -> RuleAction {
    if rules.len() == 0 {
        RuleAction::Allow
    } else {
        match last_match(rules, matcher, platform) {
            Some(action) => action,
            None => RuleAction::Disallow,
        }
    }
}

impl Rule {
    /// The action of the rule where it matches, and `None` where it does
    /// not.
    pub fn get_applied_action<M: FeatureMatcher>(&self, matcher: &M, platform: &Platform) -> (applied:
        Option<RuleAction>)
        ensures
            applied == if rule_matches(self@, matcher, platform@) {
                Some(self.action)
            } else {
                None
            },
    {
        if let Some(os) = &self.os {
            if !os.is_current_operating_system(platform) {
                return None;
            }
        }
        let mut i: usize = 0;
        while i < self.features.len()
            invariant
                i <= self.features.len(),
                forall|j: int|
                    0 <= j < i ==> matcher.provides(
                        (#[trigger] self@.features[j]).feature,
                        self@.features[j].value,
                    ),
            decreases self.features.len() - i,
        {
            let requirement = &self.features[i];
            if !matcher.has_feature(&requirement.feature, &requirement.value) {
                assert(self@.features[i as int] == requirement@);
                return None;
            }
            assert(self@.features[i as int] == requirement@);
            i += 1;
        }
        Some(self.action)
    }
}

/// Evaluates a list of rules in the order in which they are declared: each
/// rule that matches overwrites the result, so the last match wins. The
/// empty list allows; a list none of whose rules matches disallows.
pub fn evaluate<M: FeatureMatcher>(rules: &Vec<Rule>, matcher: &M, platform: &Platform) -> (action:
    RuleAction)
    ensures
        action == evaluation(view_seq(rules@), matcher, platform@),
{
    if rules.len() == 0 {
        return RuleAction::Allow;
    }
    let mut action = RuleAction::Disallow;
    let mut found = false;
    let mut i: usize = 0;
    while i < rules.len()
        invariant
            i <= rules.len(),
            found ==> last_match(view_seq(rules@).take(i as int), matcher, platform@) == Some(
                action,
            ),
            !found ==> action == RuleAction::Disallow && last_match(
                view_seq(rules@).take(i as int),
                matcher,
                platform@,
            ) is None,
        decreases rules.len() - i,
    {
        let ghost prefix = view_seq(rules@).take(i + 1);
        assert(prefix.drop_last() =~= view_seq(rules@).take(i as int));
        assert(prefix.last() == rules@[i as int]@);
        if let Some(applied) = rules[i].get_applied_action(matcher, platform) {
            action = applied;
            found = true;
        }
        i += 1;
    }
    assert(view_seq(rules@).take(rules@.len() as int) =~= view_seq(rules@));
    action
}

/// Whether a rule restricts neither the operating system nor the features.
pub open spec fn unrestricted(rule: RuleView) -> bool {
    rule.os is None && rule.features.len() == 0
}

/// A list of rules without restrictions decides what its last rule says:
/// it allows where it is empty or ends in a rule that allows.
pub proof fn lemma_unrestricted_rules_allow<M: FeatureMatcher>(
    rules: Seq<RuleView>,
    matcher: &M,
    platform: PlatformView,
)
    requires
        forall|i: int| 0 <= i < rules.len() ==> unrestricted(#[trigger] rules[i]),
        rules.len() > 0 ==> rules.last().action == RuleAction::Allow,
    ensures
        evaluation(rules, matcher, platform) == RuleAction::Allow,
{
    if rules.len() > 0 {
        assert(unrestricted(rules[rules.len() - 1]));
        assert(rule_matches(rules.last(), matcher, platform));
    }
}

/// A list of rules without restrictions that is not empty decides what its
/// last rule says.
pub proof fn lemma_unrestricted_rules_follow_last<M: FeatureMatcher>(
    rules: Seq<RuleView>,
    matcher: &M,
    platform: PlatformView,
)
    requires
        rules.len() > 0,
        forall|i: int| 0 <= i < rules.len() ==> unrestricted(#[trigger] rules[i]),
    ensures
        evaluation(rules, matcher, platform) == rules.last().action,
{
    assert(unrestricted(rules[rules.len() - 1]));
    assert(rule_matches(rules.last(), matcher, platform));
}

/// A single rule that disallows and requires a feature that the environment
/// does not have with the required value decides `Disallow`: nothing
/// matched, and the list is not empty.
pub proof fn lemma_unmatched_disallow_rule_disallows<M: FeatureMatcher>(
    rule: RuleView,
    matcher: &M,
    platform: PlatformView,
    unmet: int,
)
    requires
        rule.action == RuleAction::Disallow,
        0 <= unmet < rule.features.len(),
        !matcher.provides(rule.features[unmet].feature, rule.features[unmet].value),
    ensures
        evaluation(seq![rule], matcher, platform) == RuleAction::Disallow,
{
    let rules = seq![rule];
    assert(rules.last() == rule);
    assert(!rule_matches(rule, matcher, platform));
    assert(rules.drop_last() =~= Seq::<RuleView>::empty());
    assert(last_match(rules.drop_last(), matcher, platform) is None);
}

/// A list of rules that is not empty and none of whose rules matches
/// disallows.
pub proof fn lemma_no_match_disallows<M: FeatureMatcher>(
    rules: Seq<RuleView>,
    matcher: &M,
    platform: PlatformView,
)
    requires
        forall|i: int| 0 <= i < rules.len() ==> !rule_matches(#[trigger] rules[i], matcher, platform),
    ensures
        last_match(rules, matcher, platform) is None,
        rules.len() > 0 ==> evaluation(rules, matcher, platform) == RuleAction::Disallow,
    decreases rules.len(),
{
    if rules.len() > 0 {
        assert(!rule_matches(rules[rules.len() - 1], matcher, platform));
        let rest = rules.drop_last();
        assert forall|i: int| 0 <= i < rest.len() implies !rule_matches(
            #[trigger] rest[i],
            matcher,
            platform,
        ) by {
            assert(rest[i] == rules[i]);
        }
        lemma_no_match_disallows(rest, matcher, platform);
    }
}

} // verus!
