//! Options of a launch: who plays, where the game lives, and how it is
//! shown.

use vstd::prelude::*;
use crate::model::{clone_opt_string, view_opt};
use crate::progress::{ProgressReporter, ProgressUpdateView};
use crate::rule::{
    EnvironmentFeatures, FeatureMatcher, FeatureValue, FeatureValueView, RuleFeatureType,
};
use crate::text::{decimal, from_chars, push_decimal, push_str, to_chars};
use crate::version::MCVersion;

verus! {

/// The size of the game window.
#[derive(Debug, Clone, Copy, PartialEq, Eq, Structural)]
pub struct MinecraftResolution(pub u32, pub u32);

impl MinecraftResolution {
    /// The resolution of the given width and height.
    pub fn new(width: u32, height: u32) -> (resolution: Self)
        ensures
            resolution == MinecraftResolution(width, height),
    {
        MinecraftResolution(width, height)
    }

    /// The width.
    pub fn width(&self) -> (width: u32)
        ensures
            width == self.0,
    {
        self.0
    }

    /// The height.
    pub fn height(&self) -> (height: u32)
        ensures
            height == self.1,
    {
        self.1
    }
}

/// The name and version of the launcher, as the game is told them.
#[derive(Debug)]
pub struct LauncherOptions {
    pub launcher_name: String,
    pub launcher_version: String,
}

/// The mathematical value of [`LauncherOptions`].
pub struct LauncherOptionsView {
    pub launcher_name: Seq<char>,
    pub launcher_version: Seq<char>,
}

impl View for LauncherOptions {
    type V = LauncherOptionsView;

    open spec fn view(&self) -> LauncherOptionsView {
        LauncherOptionsView {
            launcher_name: self.launcher_name@,
            launcher_version: self.launcher_version@,
        }
    }
}

impl Clone for LauncherOptions {
    fn clone(&self) -> (out: Self)
        ensures
            out@ == self@,
    {
        LauncherOptions {
            launcher_name: self.launcher_name.clone(),
            launcher_version: self.launcher_version.clone(),
        }
    }
}

impl LauncherOptions {
    /// The options with the given name and version.
    pub fn new(launcher_name: &str, launcher_version: &str) -> (options: Self)
        ensures
            options@ == (LauncherOptionsView {
                launcher_name: launcher_name@,
                launcher_version: launcher_version@,
            }),
    {
        LauncherOptions {
            launcher_name: launcher_name.to_owned(),
            launcher_version: launcher_version.to_owned(),
        }
    }
}

/// The proxy through which the game and the downloads go, if any.
#[derive(Debug)]
pub enum ProxyOptions {
    Proxy { host: String, port: u16, username: Option<String>, password: Option<String> },
    NoProxy,
}

/// The mathematical value of [`ProxyOptions`].
pub enum ProxyOptionsView {
    Proxy { host: Seq<char>, port: u16, username: Option<Seq<char>>, password: Option<Seq<char>> },
    NoProxy,
}

impl View for ProxyOptions {
    type V = ProxyOptionsView;

    open spec fn view(&self) -> ProxyOptionsView {
        match *self {
            ProxyOptions::Proxy { host, port, username, password } => ProxyOptionsView::Proxy {
                host: host@,
                port,
                username: view_opt(username),
                password: view_opt(password),
            },
            ProxyOptions::NoProxy => ProxyOptionsView::NoProxy,
        }
    }
}

impl Clone for ProxyOptions {
    fn clone(&self) -> (out: Self)
        ensures
            out@ == self@,
    {
        match self {
            ProxyOptions::Proxy { host, port, username, password } => ProxyOptions::Proxy {
                host: host.clone(),
                port: *port,
                username: clone_opt_string(username),
                password: clone_opt_string(password),
            },
            ProxyOptions::NoProxy => ProxyOptions::NoProxy,
        }
    }
}

impl Default for ProxyOptions {
    fn default() -> (options: Self)
        ensures
            options@ == ProxyOptionsView::NoProxy,
    {
        ProxyOptions::NoProxy
    }
}

/// The address of a proxy: `host:port`.
pub open spec fn proxy_address(options: ProxyOptionsView) -> Option<Seq<char>> {
    match options {
        ProxyOptionsView::Proxy { host, port, .. } => Some(
            host + seq![':'] + decimal(port as nat),
        ),
        ProxyOptionsView::NoProxy => None,
    }
}

impl ProxyOptions {
    /// The address of the proxy, `host:port`, if there is one.
    pub fn address(&self) -> (address: Option<String>)
        ensures
            view_opt(address) == proxy_address(self@),
    {
        match self {
            ProxyOptions::Proxy { host, port, .. } => {
                let mut out: Vec<char> = to_chars(host.as_str());
                out.push(':');
                push_decimal(&mut out, *port as u64);
                assert(out@ =~= host@ + seq![':'] + decimal(*port as nat));
                Some(from_chars(out.as_slice()))
            },
            ProxyOptions::NoProxy => None,
        }
    }
}

/// Decides on features from whether the user plays the demo and whether a
/// resolution is set. Only these two features, asked for with a boolean,
/// can be had.
#[derive(Debug, Clone, Copy)]
pub struct MinecraftFeatureMatcher(pub bool, pub Option<MinecraftResolution>);

impl MinecraftFeatureMatcher {
    /// The matcher for a user who plays the demo or not, with or without a
    /// custom resolution.
    pub fn new(is_demo: bool, custom_resolution: Option<MinecraftResolution>) -> (matcher: Self)
        ensures
            matcher.0 == is_demo,
            matcher.1 == custom_resolution,
    {
        MinecraftFeatureMatcher(is_demo, custom_resolution)
    }
}

impl FeatureMatcher for MinecraftFeatureMatcher {
    open spec fn provides(&self, feature: RuleFeatureType, value: FeatureValueView) -> bool {
        match value {
            FeatureValueView::Bool(wanted) => match feature {
                RuleFeatureType::IsDemoUser => wanted == self.0,
                RuleFeatureType::HasCustomResolution => wanted == self.1 is Some,
                _ => false,
            },
            _ => false,
        }
    }

    fn has_feature(&self, feature_type: &RuleFeatureType, value: &FeatureValue) -> (has: bool) {
        match value.as_bool() {
            Some(wanted) => match feature_type {
                RuleFeatureType::IsDemoUser => wanted == self.0,
                RuleFeatureType::HasCustomResolution => wanted == self.1.is_some(),
                _ => false,
            },
            None => false,
        }
    }
}

/// The identifier of the offline player of a name, as the `uuid` crate
/// derives it from the name under the DNS namespace and writes it.
pub uninterp spec fn name_uuid(name: Seq<char>) -> Seq<char>;

/// `Uuid::new_v3` under `Uuid::NAMESPACE_DNS`, written with `to_string`:
/// the name-based identifier of the bytes of `name`. It depends on the
/// name alone.
#[verifier::external_body]
fn uuid_of_name(name: &str) -> (id: String)
    ensures
        id@ == name_uuid(name@),
{
    uuid::Uuid::new_v3(&uuid::Uuid::NAMESPACE_DNS, name.as_bytes()).to_string()
}

/// Who plays.
#[derive(Debug)]
pub struct UserAuthentication {
    pub username: String,
    pub uuid: String,
    pub access_token: Option<String>,
}

/// The mathematical value of a [`UserAuthentication`].
pub struct UserAuthenticationView {
    pub username: Seq<char>,
    pub uuid: Seq<char>,
    pub access_token: Option<Seq<char>>,
}

impl View for UserAuthentication {
    type V = UserAuthenticationView;

    open spec fn view(&self) -> UserAuthenticationView {
        UserAuthenticationView {
            username: self.username@,
            uuid: self.uuid@,
            access_token: view_opt(self.access_token),
        }
    }
}

impl Clone for UserAuthentication {
    fn clone(&self) -> (out: Self)
        ensures
            out@ == self@,
    {
        UserAuthentication {
            username: self.username.clone(),
            uuid: self.uuid.clone(),
            access_token: clone_opt_string(&self.access_token),
        }
    }
}

impl UserAuthentication {
    /// A player without an account: the identifier is derived from
    /// `OfflinePlayer:` and the name.
    pub fn offline(username: &str) -> (user: Self)
        ensures
            user@ == (UserAuthenticationView {
                username: username@,
                uuid: name_uuid("OfflinePlayer:"@ + username@),
                access_token: None,
            }),
    {
        let mut out: Vec<char> = to_chars("OfflinePlayer:");
        push_str(&mut out, username);
        let name = from_chars(out.as_slice());
        UserAuthentication {
            username: username.to_owned(),
            uuid: uuid_of_name(name.as_str()),
            access_token: None,
        }
    }

    /// The access token, or the empty text without one.
    pub fn access_token(&self) -> (token: &str)
        ensures
            token@ == match self@.access_token {
                Some(token) => token,
                None => Seq::<char>::empty(),
            },
    {
        match &self.access_token {
            Some(token) => token.as_str(),
            None => {
                let empty = "";
                proof {
                    reveal_strlit("");
                    assert(empty@ =~= Seq::<char>::empty());
                }
                empty
            },
        }
    }

    /// The session: the access token, or `-` without one.
    pub fn auth_session(&self) -> (session: &str)
        ensures
            session@ == match self@.access_token {
                Some(token) => token,
                None => "-"@,
            },
    {
        match &self.access_token {
            Some(token) => token.as_str(),
            None => "-",
        }
    }

    /// The kind of account: `msa` with an access token, `legacy` without.
    pub fn user_type(&self) -> (kind: &str)
        ensures
            kind@ == if self@.access_token is Some {
                "msa"@
            } else {
                "legacy"@
            },
    {
        if self.access_token.is_some() {
            "msa"
        } else {
            "legacy"
        }
    }
}

/// One replacement that the caller adds to those of the launcher.
#[derive(Debug)]
pub struct Override {
    pub key: String,
    pub value: String,
}

impl View for Override {
    type V = (Seq<char>, Seq<char>);

    open spec fn view(&self) -> (Seq<char>, Seq<char>) {
        (self.key@, self.value@)
    }
}

impl Clone for Override {
    fn clone(&self) -> (out: Self)
        ensures
            out@ == self@,
    {
        Override { key: self.key.clone(), value: self.value.clone() }
    }
}

/// The options of a launch.
#[derive(Debug)]
pub struct GameOptions {
    pub version: MCVersion,
    pub game_dir: String,
    pub proxy: ProxyOptions,
    pub resolution: Option<MinecraftResolution>,
    pub java_path: String,
    pub authentication: UserAuthentication,
    pub demo: Option<bool>,
    pub launcher_options: Option<LauncherOptions>,
    pub substitutor_overrides: Vec<Override>,
    pub jvm_args: Option<Vec<String>>,
    pub progress_reporter: ProgressReporter,
    pub max_concurrent_downloads: u16,
    pub max_download_attempts: u8,
}

/// The features that follow from options: the demo flag where it is set,
/// and a custom resolution where one is set.
pub open spec fn features_of(demo: Option<bool>, resolution: Option<MinecraftResolution>) -> Map<
    RuleFeatureType,
    FeatureValueView,
> {
    let base = match demo {
        Some(value) => Map::<RuleFeatureType, FeatureValueView>::empty().insert(
            RuleFeatureType::IsDemoUser,
            FeatureValueView::Bool(value),
        ),
        None => Map::<RuleFeatureType, FeatureValueView>::empty(),
    };
    if resolution is Some {
        base.insert(RuleFeatureType::HasCustomResolution, FeatureValueView::Bool(true))
    } else {
        base
    }
}

impl GameOptions {
    /// The features of the environment that the options describe.
    pub fn env_features(&self) -> (features: EnvironmentFeatures)
        ensures
            features@ == features_of(self.demo, self.resolution),
    {
        let mut features = EnvironmentFeatures::new();
        if let Some(demo) = self.demo {
            features.set_feature(RuleFeatureType::IsDemoUser, FeatureValue::Bool(demo));
        }
        if self.resolution.is_some() {
            features.set_feature(RuleFeatureType::HasCustomResolution, FeatureValue::Bool(true));
        }
        features
    }
}

/// Collects the options of a launch. The version, the game directory, the
/// path of Java and the player must be set; everything else has a default.
#[derive(Debug)]
pub struct GameOptionsBuilder {
    pub version: Option<MCVersion>,
    pub game_dir: Option<String>,
    pub proxy: Option<ProxyOptions>,
    pub resolution: Option<MinecraftResolution>,
    pub java_path: Option<String>,
    pub authentication: Option<UserAuthentication>,
    pub demo: Option<bool>,
    pub launcher_options: Option<LauncherOptions>,
    pub substitutor_overrides: Vec<Override>,
    pub jvm_args: Option<Vec<String>>,
    pub progress_reporter: Option<ProgressReporter>,
    pub max_concurrent_downloads: Option<u16>,
    pub max_download_attempts: Option<u8>,
}

/// The name of the first of the four required fields that is not set.
pub open spec fn missing_field(builder: GameOptionsBuilder) -> Option<Seq<char>> {
    if builder.version is None {
        Some("version"@)
    } else if builder.game_dir is None {
        Some("game_dir"@)
    } else if builder.java_path is None {
        Some("java_path"@)
    } else if builder.authentication is None {
        Some("authentication"@)
    } else {
        None
    }
}

impl GameOptionsBuilder {
    /// The builder without its reporter.
    pub open spec fn others(self) -> GameOptionsBuilder {
        GameOptionsBuilder { progress_reporter: None, ..self }
    }

    /// A builder in which nothing is set.
    pub fn new() -> (builder: Self)
        ensures
            builder.version is None,
            builder.game_dir is None,
            builder.proxy is None,
            builder.resolution is None,
            builder.java_path is None,
            builder.authentication is None,
            builder.demo is None,
            builder.launcher_options is None,
            builder.substitutor_overrides@.len() == 0,
            builder.jvm_args is None,
            builder.progress_reporter is None,
            builder.max_concurrent_downloads is None,
            builder.max_download_attempts is None,
    {
        GameOptionsBuilder {
            version: None,
            game_dir: None,
            proxy: None,
            resolution: None,
            java_path: None,
            authentication: None,
            demo: None,
            launcher_options: None,
            substitutor_overrides: Vec::new(),
            jvm_args: None,
            progress_reporter: None,
            max_concurrent_downloads: None,
            max_download_attempts: None,
        }
    }

    /// Sets the reporter that the launch reports to.
    pub fn progress_reporter(self, progress_reporter: ProgressReporter) -> (builder: Self)
        ensures
            builder.progress_reporter is Some,
            builder.progress_reporter->0@ == progress_reporter@,
            builder.others() == self.others(),
    {
        let mut builder = self;
        builder.progress_reporter = Some(progress_reporter);
        builder
    }

    /// Sets the reporter that the launch reports to, to a copy of
    /// `reporter`.
    pub fn progress_reporter_arc(self, reporter: &ProgressReporter) -> (builder: Self)
        ensures
            builder.progress_reporter is Some,
            builder.progress_reporter->0@ == reporter@,
            builder.others() == self.others(),
    {
        self.progress_reporter(reporter.clone())
    }

    /// The options, or the message that names the first required field
    /// that is not set. Sixteen downloads run at once and a download has
    /// five attempts unless set otherwise.
    pub fn build(self) -> (built: Result<GameOptions, String>)
        ensures
            built is Ok <==> missing_field(self) is None,
            built is Err ==> built->Err_0@ == seq!['`'] + missing_field(self)->0
                + "` must be initialized"@,
            built is Ok ==> {
                let options = built->Ok_0;
                &&& Some(options.version) == self.version
                &&& Some(options.game_dir) == self.game_dir
                &&& Some(options.java_path) == self.java_path
                &&& Some(options.authentication) == self.authentication
                &&& options.resolution == self.resolution
                &&& options.demo == self.demo
                &&& options.launcher_options == self.launcher_options
                &&& options.substitutor_overrides == self.substitutor_overrides
                &&& options.jvm_args == self.jvm_args
                &&& options.proxy@ == match self.proxy {
                    Some(proxy) => proxy@,
                    None => ProxyOptionsView::NoProxy,
                }
                &&& options.progress_reporter@ == match self.progress_reporter {
                    Some(reporter) => reporter@,
                    None => Seq::<ProgressUpdateView>::empty(),
                }
                &&& options.max_concurrent_downloads == match self.max_concurrent_downloads {
                    Some(n) => n,
                    None => 16u16,
                }
                &&& options.max_download_attempts == match self.max_download_attempts {
                    Some(n) => n,
                    None => 5u8,
                }
            },
    {
        let GameOptionsBuilder {
            version,
            game_dir,
            proxy,
            resolution,
            java_path,
            authentication,
            demo,
            launcher_options,
            substitutor_overrides,
            jvm_args,
            progress_reporter,
            max_concurrent_downloads,
            max_download_attempts,
        } = self;
        let version = match version {
            Some(version) => version,
            None => {
                return Err(uninitialized("version"));
            },
        };
        let game_dir = match game_dir {
            Some(game_dir) => game_dir,
            None => {
                return Err(uninitialized("game_dir"));
            },
        };
        let java_path = match java_path {
            Some(java_path) => java_path,
            None => {
                return Err(uninitialized("java_path"));
            },
        };
        let authentication = match authentication {
            Some(authentication) => authentication,
            None => {
                return Err(uninitialized("authentication"));
            },
        };
        Ok(
            GameOptions {
                version,
                game_dir,
                proxy: match proxy {
                    Some(proxy) => proxy,
                    None => ProxyOptions::NoProxy,
                },
                resolution,
                java_path,
                authentication,
                demo,
                launcher_options,
                substitutor_overrides,
                jvm_args,
                progress_reporter: match progress_reporter {
                    Some(reporter) => reporter,
                    None => ProgressReporter::new(),
                },
                max_concurrent_downloads: match max_concurrent_downloads {
                    Some(n) => n,
                    None => 16,
                },
                max_download_attempts: match max_download_attempts {
                    Some(n) => n,
                    None => 5,
                },
            },
        )
    }
}

fn uninitialized(field: &str) -> (message: String)
    ensures
        message@ == seq!['`'] + field@ + "` must be initialized"@,
{
    let mut out: Vec<char> = Vec::new();
    out.push('`');
    push_str(&mut out, field);
    push_str(&mut out, "` must be initialized");
    assert(out@ =~= seq!['`'] + field@ + "` must be initialized"@);
    from_chars(out.as_slice())
}

} // verus!
