//! The command line of a launch: the arguments of the Java runtime and of
//! the game, with their tokens replaced.

use vstd::prelude::*;
use crate::argument::{argument_applies, argument_value, value_strings, Argument, ArgumentType, ArgumentView};
use crate::assets::{object_path, AssetEntryView, AssetIndex, AssetObject};
use crate::bootstrap::{substituted, with_entries, ArgumentSubstitutor, ArgumentSubstitutorBuilder};
use crate::manifest::{jar_of, jar_path, ManifestView, VersionManifest};
use crate::model::{lemma_view_seq_push, view_seq};
use crate::options::{GameOptions, ProxyOptions, ProxyOptionsView};
use crate::rule::{
    FeatureMatcher, FeatureValue, FeatureValueView, OperatingSystem, Platform, PlatformView,
    RuleFeatureType,
};
use crate::text::{decimal, from_chars, join, push_decimal, push_str, split, split_chars, to_chars};
use crate::version::version_text;

verus! {

/// The arguments of the Java runtime where the options give none.
pub open spec fn default_jvm_arguments() -> Seq<char> {
    "-Xmx2G -XX:+UnlockExperimentalVMOptions -XX:+UseG1GC -XX:G1NewSizePercent=20 -XX:G1ReservePercent=20 -XX:MaxGCPauseMillis=50 -XX:G1HeapRegionSize=32M"@
}

/// The strings of the arguments that apply, in order, with their tokens
/// replaced.
pub open spec fn applied_arguments<M: FeatureMatcher>(
    arguments: Seq<ArgumentView>,
    matcher: &M,
    platform: PlatformView,
    entries: Seq<(Seq<char>, Seq<char>)>,
) -> Seq<Seq<char>>
    decreases arguments.len(),
{
    if arguments.len() == 0 {
        Seq::<Seq<char>>::empty()
    } else {
        let earlier = applied_arguments(arguments.drop_last(), matcher, platform, entries);
        if argument_applies(arguments.last(), matcher, platform) {
            earlier + substituted_all(value_strings(argument_value(arguments.last())), entries)
        } else {
            earlier
        }
    }
}

/// Each of the texts with its tokens replaced.
pub open spec fn substituted_all(texts: Seq<Seq<char>>, entries: Seq<(Seq<char>, Seq<char>)>) -> Seq<
    Seq<char>,
> {
    texts.map_values(|text: Seq<char>| substituted(text, entries))
}

/// The arguments for the Java runtime of a version of the old kind, whose
/// manifest has one string of arguments.
pub open spec fn legacy_jvm_arguments(
    os: OperatingSystem,
    is_win_ten: bool,
    entries: Seq<(Seq<char>, Seq<char>)>,
) -> Seq<Seq<char>> {
    let system = if os == OperatingSystem::Windows {
        let dump = seq![
            "-XX:HeapDumpPath=MojangTricksIntelDriversForPerformance_javaw.exe_minecraft.exe.heapdump"@,
        ];
        if is_win_ten {
            dump + seq!["-Dos.name=Windows 10"@, "-Dos.version=10.0"@]
        } else {
            dump
        }
    } else if os == OperatingSystem::Osx {
        seq![
            substituted("-Xdock:icon=${asset=icons/minecraft.icns}"@, entries),
            "-Xdock:name=Minecraft"@,
        ]
    } else {
        Seq::<Seq<char>>::empty()
    };
    system + seq![
        substituted("-Djava.library.path=${natives_directory}"@, entries),
        substituted("-Dminecraft.launcher.brand=${launcher_name}"@, entries),
        substituted("-Dminecraft.launcher.version=${launcher_version}"@, entries),
        substituted("-Dminecraft.client.jar=${primary_jar}"@, entries),
        "-cp"@,
        substituted("${classpath}"@, entries),
    ]
}

/// The arguments for the game of a version of the old kind: the pieces of
/// its string of arguments between blanks, then the demo flag and the size
/// of the window where the environment has these features.
pub open spec fn legacy_game_arguments<M: FeatureMatcher>(
    minecraft_arguments: Seq<char>,
    matcher: &M,
    entries: Seq<(Seq<char>, Seq<char>)>,
) -> Seq<Seq<char>> {
    let base = substituted_all(split(minecraft_arguments, ' '), entries);
    let demo = if matcher.provides(RuleFeatureType::IsDemoUser, FeatureValueView::Bool(true)) {
        seq!["--demo"@]
    } else {
        Seq::<Seq<char>>::empty()
    };
    let size = if matcher.provides(
        RuleFeatureType::HasCustomResolution,
        FeatureValueView::Bool(true),
    ) {
        seq![
            "--width"@,
            substituted("${resolution_width}"@, entries),
            "--height"@,
            substituted("${resolution_height}"@, entries),
        ]
    } else {
        Seq::<Seq<char>>::empty()
    };
    base + demo + size
}

/// The arguments that tell the game of the proxy.
pub open spec fn proxy_arguments(proxy: ProxyOptionsView) -> Seq<Seq<char>> {
    match proxy {
        ProxyOptionsView::NoProxy => Seq::<Seq<char>>::empty(),
        ProxyOptionsView::Proxy { host, port, username, password } => {
            seq!["--proxyHost"@, host, "--proxyPort"@, decimal(port as nat)] + (match username {
                Some(user) => seq!["--proxyUser"@, user],
                None => Seq::<Seq<char>>::empty(),
            }) + (match password {
                Some(pass) => seq!["--proxyPass"@, pass],
                None => Seq::<Seq<char>>::empty(),
            })
        },
    }
}

/// The arguments of one phase as the manifest gives them: its list for
/// the phase where it has lists, and otherwise what its one string of
/// arguments stands for.
pub open spec fn phase_arguments<M: FeatureMatcher>(
    manifest: ManifestView,
    phase: ArgumentType,
    matcher: &M,
    platform: PlatformView,
    is_win_ten: bool,
    entries: Seq<(Seq<char>, Seq<char>)>,
) -> Seq<Seq<char>> {
    if manifest.arguments.game is Some || manifest.arguments.jvm is Some {
        match crate::manifest::phase_list(manifest.arguments, phase) {
            Some(arguments) => applied_arguments(arguments, matcher, platform, entries),
            None => Seq::<Seq<char>>::empty(),
        }
    } else {
        match manifest.minecraft_arguments {
            Some(text) => match phase {
                ArgumentType::Jvm => legacy_jvm_arguments(platform.os, is_win_ten, entries),
                ArgumentType::Game => legacy_game_arguments(text, matcher, entries),
            },
            None => Seq::<Seq<char>>::empty(),
        }
    }
}

/// The command line of the game after the path of Java: the arguments of
/// the runtime that the options give, or the default ones; those of the
/// manifest for the runtime; the main class; those of the manifest for the
/// game; and those for the proxy.
pub open spec fn launch_arguments<M: FeatureMatcher>(
    manifest: ManifestView,
    jvm_args: Option<Seq<Seq<char>>>,
    proxy: ProxyOptionsView,
    matcher: &M,
    platform: PlatformView,
    is_win_ten: bool,
    entries: Seq<(Seq<char>, Seq<char>)>,
) -> Seq<Seq<char>> {
    runtime_arguments(jvm_args) + phase_arguments(
        manifest,
        ArgumentType::Jvm,
        matcher,
        platform,
        is_win_ten,
        entries,
    )
        + seq![manifest.main_class->0] + phase_arguments(
        manifest,
        ArgumentType::Game,
        matcher,
        platform,
        is_win_ten,
        entries,
    ) + proxy_arguments(proxy)
}

fn push_text(out: &mut Vec<String>, text: &str)
    ensures
        view_seq(final(out)@) == view_seq(old(out)@).push(text@),
{
    let owned = text.to_owned();
    proof {
        lemma_view_seq_push(out@, owned);
    }
    out.push(owned);
}

fn push_substituted(out: &mut Vec<String>, substitutor: &ArgumentSubstitutor, text: &str)
    ensures
        view_seq(final(out)@) == view_seq(old(out)@).push(substituted(text@, substitutor@)),
{
    let replaced = substitutor.substitute(text);
    proof {
        lemma_view_seq_push(out@, replaced);
    }
    out.push(replaced);
}

fn push_pieces(out: &mut Vec<String>, text: &str, substitutor: Option<&ArgumentSubstitutor>)
    ensures
        view_seq(final(out)@) == view_seq(old(out)@) + match substitutor {
            Some(s) => substituted_all(split(text@, ' '), s@),
            None => split(text@, ' '),
        },
{
    let chars = to_chars(text);
    let pieces = split_chars(&chars, ' ');
    let ghost all = split(text@, ' ');
    let ghost wanted = match substitutor {
        Some(s) => substituted_all(all, s@),
        None => all,
    };
    let ghost before = view_seq(out@);
    let mut i: usize = 0;
    assert(before + wanted.take(0) =~= before);
    while i < pieces.len()
        invariant
            i <= pieces.len(),
            all == split(text@, ' '),
            wanted == match substitutor {
                Some(s) => substituted_all(all, s@),
                None => all,
            },
            pieces@.len() == all.len(),
            forall|k: int| 0 <= k < pieces@.len() ==> (#[trigger] pieces@[k])@ == all[k],
            view_seq(out@) == before + wanted.take(i as int),
        decreases pieces.len() - i,
    {
        let piece = from_chars(pieces[i].as_slice());
        let ghost so_far = view_seq(out@);
        match substitutor {
            Some(s) => push_substituted(out, s, piece.as_str()),
            None => push_text(out, piece.as_str()),
        }
        assert(so_far.push(wanted[i as int]) =~= before + wanted.take(i + 1));
        i += 1;
    }
    assert(wanted.take(wanted.len() as int) =~= wanted);
}

fn push_applied<M: FeatureMatcher>(
    out: &mut Vec<String>,
    arguments: &Vec<Argument>,
    matcher: &M,
    platform: &Platform,
    substitutor: &ArgumentSubstitutor,
)
    ensures
        view_seq(final(out)@) == view_seq(old(out)@) + applied_arguments(
            view_seq(arguments@),
            matcher,
            platform@,
            substitutor@,
        ),
{
    let ghost all = view_seq(arguments@);
    let ghost before = view_seq(out@);
    let mut i: usize = 0;
    assert(before + applied_arguments(all.take(0), matcher, platform@, substitutor@) =~= before);
    while i < arguments.len()
        invariant
            i <= arguments.len(),
            all == view_seq(arguments@),
            view_seq(out@) == before + applied_arguments(
                all.take(i as int),
                matcher,
                platform@,
                substitutor@,
            ),
        decreases arguments.len() - i,
    {
        assert(all.take(i + 1).drop_last() =~= all.take(i as int));
        assert(all.take(i + 1).last() == arguments@[i as int]@);
        let ghost earlier = applied_arguments(all.take(i as int), matcher, platform@, substitutor@);
        if let Some(strings) = arguments[i].apply(matcher, platform) {
            let ghost texts = value_strings(argument_value(arguments@[i as int]@));
            let ghost start = view_seq(out@);
            let mut k: usize = 0;
            assert(start + substituted_all(texts, substitutor@).take(0) =~= start);
            while k < strings.len()
                invariant
                    k <= strings.len(),
                    strings@.map_values(|s: &String| s@) == texts,
                    view_seq(out@) == start + substituted_all(texts, substitutor@).take(k as int),
                decreases strings.len() - k,
            {
                let ghost so_far = view_seq(out@);
                assert(texts[k as int] == strings@[k as int]@);
                push_substituted(out, substitutor, strings[k].as_str());
                assert(so_far.push(substituted(texts[k as int], substitutor@)) =~= start
                    + substituted_all(texts, substitutor@).take(k + 1));
                k += 1;
            }
            assert(substituted_all(texts, substitutor@).take(texts.len() as int)
                =~= substituted_all(texts, substitutor@));
            assert(before + (earlier + substituted_all(texts, substitutor@)) =~= (before + earlier)
                + substituted_all(texts, substitutor@));
        }
        i += 1;
    }
    assert(all.take(all.len() as int) =~= all);
}

fn push_phase<M: FeatureMatcher>(
    out: &mut Vec<String>,
    manifest: &VersionManifest,
    phase: ArgumentType,
    matcher: &M,
    platform: &Platform,
    is_win_ten: bool,
    substitutor: &ArgumentSubstitutor,
)
    ensures
        view_seq(final(out)@) == view_seq(old(out)@) + phase_arguments(
            manifest@,
            phase,
            matcher,
            platform@,
            is_win_ten,
            substitutor@,
        ),
{
    let ghost before = view_seq(out@);
    if !manifest.arguments.is_empty() {
        match manifest.arguments.get(&phase) {
            Some(arguments) => {
                push_applied(out, arguments, matcher, platform, substitutor);
            },
            None => {
                assert(before + Seq::<Seq<char>>::empty() =~= before);
            },
        }
        return ;
    }
    let text = match &manifest.minecraft_arguments {
        Some(text) => text,
        None => {
            assert(before + Seq::<Seq<char>>::empty() =~= before);
            return ;
        },
    };
    match phase {
        ArgumentType::Jvm => {
            if platform.os == OperatingSystem::Windows {
                push_text(
                    out,
                    "-XX:HeapDumpPath=MojangTricksIntelDriversForPerformance_javaw.exe_minecraft.exe.heapdump",
                );
                if is_win_ten {
                    push_text(out, "-Dos.name=Windows 10");
                    push_text(out, "-Dos.version=10.0");
                }
            } else if platform.os == OperatingSystem::Osx {
                push_substituted(out, substitutor, "-Xdock:icon=${asset=icons/minecraft.icns}");
                push_text(out, "-Xdock:name=Minecraft");
            }
            push_substituted(out, substitutor, "-Djava.library.path=${natives_directory}");
            push_substituted(out, substitutor, "-Dminecraft.launcher.brand=${launcher_name}");
            push_substituted(out, substitutor, "-Dminecraft.launcher.version=${launcher_version}");
            push_substituted(out, substitutor, "-Dminecraft.client.jar=${primary_jar}");
            push_text(out, "-cp");
            push_substituted(out, substitutor, "${classpath}");
            assert(view_seq(out@) =~= before + legacy_jvm_arguments(
                platform@.os,
                is_win_ten,
                substitutor@,
            ));
        },
        ArgumentType::Game => {
            push_pieces(out, text.as_str(), Some(substitutor));
            if matcher.has_feature(&RuleFeatureType::IsDemoUser, &FeatureValue::Bool(true)) {
                push_text(out, "--demo");
            }
            if matcher.has_feature(&RuleFeatureType::HasCustomResolution, &FeatureValue::Bool(true)) {
                push_text(out, "--width");
                push_substituted(out, substitutor, "${resolution_width}");
                push_text(out, "--height");
                push_substituted(out, substitutor, "${resolution_height}");
            }
            assert(view_seq(out@) =~= before + legacy_game_arguments(
                text@,
                matcher,
                substitutor@,
            ));
        },
    }
}

/// The view of optional arguments of the runtime.
pub open spec fn view_args(args: Option<Vec<String>>) -> Option<Seq<Seq<char>>> {
    match args {
        Some(given) => Some(view_seq(given@)),
        None => None,
    }
}

/// The arguments of the runtime that the options give, or the default
/// ones.
pub open spec fn runtime_arguments(jvm_args: Option<Seq<Seq<char>>>) -> Seq<Seq<char>> {
    match jvm_args {
        Some(given) => given,
        None => split(default_jvm_arguments(), ' '),
    }
}

fn push_runtime(out: &mut Vec<String>, jvm_args: &Option<Vec<String>>)
    ensures
        view_seq(final(out)@) == view_seq(old(out)@) + runtime_arguments(view_args(*jvm_args)),
{
    let ghost before = view_seq(out@);
    match jvm_args {
        Some(given) => {
            let mut i: usize = 0;
            assert(before + view_seq(given@).take(0) =~= before);
            while i < given.len()
                invariant
                    i <= given.len(),
                    view_seq(out@) == before + view_seq(given@).take(i as int),
                decreases given.len() - i,
            {
                let ghost so_far = view_seq(out@);
                push_text(out, given[i].as_str());
                assert(so_far.push(given@[i as int]@) =~= before + view_seq(given@).take(i + 1));
                i += 1;
            }
            assert(view_seq(given@).take(given@.len() as int) =~= view_seq(given@));
        },
        None => {
            push_pieces(
                out,
                "-Xmx2G -XX:+UnlockExperimentalVMOptions -XX:+UseG1GC -XX:G1NewSizePercent=20 -XX:G1ReservePercent=20 -XX:MaxGCPauseMillis=50 -XX:G1HeapRegionSize=32M",
                None,
            );
        },
    }
}

fn push_proxy(out: &mut Vec<String>, proxy: &ProxyOptions)
    ensures
        view_seq(final(out)@) == view_seq(old(out)@) + proxy_arguments(proxy@),
{
    let ghost before = view_seq(out@);
    if let ProxyOptions::Proxy { host, port, username, password } = proxy {
        push_text(out, "--proxyHost");
        push_text(out, host.as_str());
        push_text(out, "--proxyPort");
        let mut digits: Vec<char> = Vec::new();
        push_decimal(&mut digits, *port as u64);
        let number = from_chars(digits.as_slice());
        push_text(out, number.as_str());
        if let Some(user) = username {
            push_text(out, "--proxyUser");
            push_text(out, user.as_str());
        }
        if let Some(pass) = password {
            push_text(out, "--proxyPass");
            push_text(out, pass.as_str());
        }
    }
    assert(view_seq(out@) =~= before + proxy_arguments(proxy@));
}

/// The command line of the game after the path of Java, for a manifest
/// that has a main class.
pub fn build_launch_arguments<M: FeatureMatcher>(
    manifest: &VersionManifest,
    options: &GameOptions,
    matcher: &M,
    platform: &Platform,
    is_win_ten: bool,
    substitutor: &ArgumentSubstitutor,
) -> (arguments: Vec<String>)
    requires
        manifest.main_class is Some,
    ensures
        view_seq(arguments@) == launch_arguments(
            manifest@,
            view_args(options.jvm_args),
            options.proxy@,
            matcher,
            platform@,
            is_win_ten,
            substitutor@,
        ),
{
    let mut out: Vec<String> = Vec::new();
    assert(view_seq(out@) =~= Seq::<Seq<char>>::empty());
    push_runtime(&mut out, &options.jvm_args);
    let ghost first = view_seq(out@);
    assert(first =~= runtime_arguments(view_args(options.jvm_args)));
    push_phase(&mut out, manifest, ArgumentType::Jvm, matcher, platform, is_win_ten, substitutor);
    push_text(&mut out, manifest.get_main_class().as_str());
    push_phase(&mut out, manifest, ArgumentType::Game, matcher, platform, is_win_ten, substitutor);
    push_proxy(&mut out, &options.proxy);
    out
}

/// What separates the entries of a class path on `os`.
pub open spec fn classpath_separator(os: OperatingSystem) -> Seq<char> {
    if os == OperatingSystem::Windows {
        seq![';']
    } else {
        seq![':']
    }
}

/// The class path of the given entries on `os`.
pub fn construct_classpath(paths: &Vec<String>, os: OperatingSystem) -> (classpath: String)
    ensures
        classpath@ == join(view_seq(paths@), classpath_separator(os)),
{
    let separator = if os == OperatingSystem::Windows {
        ';'
    } else {
        ':'
    };
    let ghost all = view_seq(paths@);
    let mut out: Vec<char> = Vec::new();
    let mut i: usize = 0;
    while i < paths.len()
        invariant
            i <= paths.len(),
            all == view_seq(paths@),
            separator == classpath_separator(os)[0],
            classpath_separator(os).len() == 1,
            out@ == join(all.take(i as int), classpath_separator(os)),
        decreases paths.len() - i,
    {
        assert(all.take(i + 1).drop_last() =~= all.take(i as int));
        assert(all.take(i + 1).last() == paths@[i as int]@);
        if i > 0 {
            out.push(separator);
        }
        push_str(&mut out, paths[i].as_str());
        assert(out@ =~= join(all.take(i + 1), classpath_separator(os)));
        i += 1;
    }
    assert(all.take(all.len() as int) =~= all);
    from_chars(out.as_slice())
}

/// The replacement for the token of each name of an asset index: the path
/// of its object below the assets directory.
pub open spec fn asset_entries(objects: Seq<AssetEntryView>, assets_dir: Seq<char>) -> Seq<
    (Seq<char>, Seq<char>),
> {
    objects.map_values(
        |entry: AssetEntryView|
            ("asset="@ + entry.name, assets_dir + "/objects/"@ + object_path(entry.object.hash)),
    )
}

/// What a launch knows beside its options and its manifest.
pub struct LaunchPaths {
    /// The class path, joined.
    pub classpath: String,
    /// Where the natives were unpacked.
    pub natives_dir: String,
    /// Where the assets of old versions were laid out.
    pub virtual_dir: String,
    /// The identifier of the account on the console network, if known.
    pub xuid: Option<String>,
}

/// The texts of a resolution, or two empty texts without one.
pub open spec fn resolution_texts(resolution: Option<crate::options::MinecraftResolution>) -> (
    Seq<char>,
    Seq<char>,
) {
    match resolution {
        Some(size) => (decimal(size.0 as nat), decimal(size.1 as nat)),
        None => (Seq::<char>::empty(), Seq::<char>::empty()),
    }
}

/// The replacements of a launch, in the order in which they are set: those
/// of the player, of the version and of its directories; one for each name
/// of the asset index; those of the launcher and of the class path; and
/// last those that the options add, which thereby win.
pub open spec fn launch_entries(
    options: GameOptions,
    manifest: ManifestView,
    os: OperatingSystem,
    paths: LaunchPaths,
    objects: Seq<AssetEntryView>,
) -> Seq<(Seq<char>, Seq<char>)> {
    let game_dir = options.game_dir@;
    let assets_dir = game_dir + "/assets"@;
    let user = options.authentication@;
    let launcher = match options.launcher_options {
        Some(launcher) => (launcher@.launcher_name, launcher@.launcher_version),
        None => (Seq::<char>::empty(), Seq::<char>::empty()),
    };
    seq![
        (
            "auth_access_token"@,
            match user.access_token {
                Some(token) => token,
                None => Seq::<char>::empty(),
            },
        ),
        (
            "auth_session"@,
            match user.access_token {
                Some(token) => token,
                None => "-"@,
            },
        ),
        ("auth_player_name"@, user.username),
        ("auth_uuid"@, user.uuid),
        (
            "user_type"@,
            if user.access_token is Some {
                "msa"@
            } else {
                "legacy"@
            },
        ),
        ("profile_name"@, Seq::<char>::empty()),
        ("version_name"@, version_text(options.version@)),
        ("game_directory"@, game_dir),
        ("game_assets"@, paths.virtual_dir@),
        ("assets_root"@, assets_dir),
        ("assets_index_name"@, manifest.asset_index->0.id),
        ("version_type"@, manifest.release_type.name()),
        ("resolution_width"@, resolution_texts(options.resolution).0),
        ("resolution_height"@, resolution_texts(options.resolution).1),
        ("language"@, "en-us"@),
    ] + asset_entries(objects, assets_dir) + seq![
        ("launcher_name"@, launcher.0),
        ("launcher_version"@, launcher.1),
        ("natives_directory"@, paths.natives_dir@),
        ("classpath"@, paths.classpath@),
        ("classpath_separator"@, classpath_separator(os)),
        ("primary_jar"@, jar_path(game_dir, jar_of(manifest))),
        ("clientid"@, Seq::<char>::empty()),
        (
            "auth_xuid"@,
            match paths.xuid {
                Some(xuid) => xuid@,
                None => Seq::<char>::empty(),
            },
        ),
        ("library_directory"@, game_dir + "/libraries"@),
    ] + view_seq(options.substitutor_overrides@)
}

fn push_entry(entries: &mut Vec<crate::options::Override>, key: &str, value: &str)
    ensures
        view_seq(final(entries)@) == view_seq(old(entries)@).push((key@, value@)),
{
    let entry = crate::options::Override { key: key.to_owned(), value: value.to_owned() };
    proof {
        lemma_view_seq_push(entries@, entry);
    }
    entries.push(entry);
}

fn empty_text() -> (text: String)
    ensures
        text@ == Seq::<char>::empty(),
{
    String::new()
}

fn number_text(n: u32) -> (text: String)
    ensures
        text@ == decimal(n as nat),
{
    let mut out: Vec<char> = Vec::new();
    push_decimal(&mut out, n as u64);
    from_chars(out.as_slice())
}

fn push_asset_entries(
    entries: &mut Vec<crate::options::Override>,
    asset_index: &AssetIndex,
    assets_dir: &str,
)
    ensures
        view_seq(final(entries)@) == view_seq(old(entries)@) + asset_entries(
            asset_index@.objects,
            assets_dir@,
        ),
{
    let ghost before = view_seq(entries@);
    let ghost wanted = asset_entries(asset_index@.objects, assets_dir@);
    let mut i: usize = 0;
    assert(before + wanted.take(0) =~= before);
    while i < asset_index.objects.len()
        invariant
            i <= asset_index.objects.len(),
            wanted == asset_entries(asset_index@.objects, assets_dir@),
            view_seq(entries@) == before + wanted.take(i as int),
        decreases asset_index.objects.len() - i,
    {
        let entry = &asset_index.objects[i];
        assert(asset_index@.objects[i as int] == entry@);
        let mut key: Vec<char> = to_chars("asset=");
        push_str(&mut key, entry.name.as_str());
        let key = from_chars(key.as_slice());
        let path = AssetObject::create_path_from_hash(&entry.object.hash);
        let mut value: Vec<char> = to_chars(assets_dir);
        push_str(&mut value, "/objects/");
        push_str(&mut value, path.as_str());
        assert(value@ =~= assets_dir@ + "/objects/"@ + object_path(entry@.object.hash));
        let value = from_chars(value.as_slice());
        let ghost so_far = view_seq(entries@);
        push_entry(entries, key.as_str(), value.as_str());
        assert(so_far.push(wanted[i as int]) =~= before + wanted.take(i + 1));
        i += 1;
    }
    assert(wanted.take(wanted.len() as int) =~= wanted);
}

fn player_entries(entries: &mut Vec<crate::options::Override>, options: &GameOptions)
    requires
        old(entries)@.len() == 0,
    ensures
        view_seq(final(entries)@) == seq![
            (
                "auth_access_token"@,
                match options.authentication@.access_token {
                    Some(token) => token,
                    None => Seq::<char>::empty(),
                },
            ),
            (
                "auth_session"@,
                match options.authentication@.access_token {
                    Some(token) => token,
                    None => "-"@,
                },
            ),
            ("auth_player_name"@, options.authentication@.username),
            ("auth_uuid"@, options.authentication@.uuid),
            (
                "user_type"@,
                if options.authentication@.access_token is Some {
                    "msa"@
                } else {
                    "legacy"@
                },
            ),
            ("profile_name"@, Seq::<char>::empty()),
            ("version_name"@, version_text(options.version@)),
            ("game_directory"@, options.game_dir@),
        ],
{
    let user = &options.authentication;
    push_entry(entries, "auth_access_token", user.access_token());
    push_entry(entries, "auth_session", user.auth_session());
    push_entry(entries, "auth_player_name", user.username.as_str());
    push_entry(entries, "auth_uuid", user.uuid.as_str());
    push_entry(entries, "user_type", user.user_type());
    push_entry(entries, "profile_name", empty_text().as_str());
    push_entry(entries, "version_name", options.version.to_string().as_str());
    push_entry(entries, "game_directory", options.game_dir.as_str());
    assert(view_seq(entries@) =~= seq![
        (
            "auth_access_token"@,
            match options.authentication@.access_token {
                Some(token) => token,
                None => Seq::<char>::empty(),
            },
        ),
        (
            "auth_session"@,
            match options.authentication@.access_token {
                Some(token) => token,
                None => "-"@,
            },
        ),
        ("auth_player_name"@, options.authentication@.username),
        ("auth_uuid"@, options.authentication@.uuid),
        (
            "user_type"@,
            if options.authentication@.access_token is Some {
                "msa"@
            } else {
                "legacy"@
            },
        ),
        ("profile_name"@, Seq::<char>::empty()),
        ("version_name"@, version_text(options.version@)),
        ("game_directory"@, options.game_dir@),
    ]);
}

fn version_entries(
    entries: &mut Vec<crate::options::Override>,
    options: &GameOptions,
    manifest: &VersionManifest,
    paths: &LaunchPaths,
    assets_dir: &str,
)
    requires
        manifest.asset_index is Some,
    ensures
        view_seq(final(entries)@) == view_seq(old(entries)@) + seq![
            ("game_assets"@, paths.virtual_dir@),
            ("assets_root"@, assets_dir@),
            ("assets_index_name"@, manifest@.asset_index->0.id),
            ("version_type"@, manifest@.release_type.name()),
            ("resolution_width"@, resolution_texts(options.resolution).0),
            ("resolution_height"@, resolution_texts(options.resolution).1),
            ("language"@, "en-us"@),
        ],
{
    let ghost before = view_seq(entries@);
    push_entry(entries, "game_assets", paths.virtual_dir.as_str());
    push_entry(entries, "assets_root", assets_dir);
    match &manifest.asset_index {
        Some(index) => push_entry(entries, "assets_index_name", index.id.as_str()),
        None => {},
    }
    push_entry(entries, "version_type", manifest.release_type.get_name());
    match &options.resolution {
        Some(size) => {
            push_entry(entries, "resolution_width", number_text(size.width()).as_str());
            push_entry(entries, "resolution_height", number_text(size.height()).as_str());
        },
        None => {
            push_entry(entries, "resolution_width", empty_text().as_str());
            push_entry(entries, "resolution_height", empty_text().as_str());
        },
    }
    push_entry(entries, "language", "en-us");
    assert(view_seq(entries@) =~= before + seq![
        ("game_assets"@, paths.virtual_dir@),
        ("assets_root"@, assets_dir@),
        ("assets_index_name"@, manifest@.asset_index->0.id),
        ("version_type"@, manifest@.release_type.name()),
        ("resolution_width"@, resolution_texts(options.resolution).0),
        ("resolution_height"@, resolution_texts(options.resolution).1),
        ("language"@, "en-us"@),
    ]);
}

fn launcher_entries(
    entries: &mut Vec<crate::options::Override>,
    options: &GameOptions,
    manifest: &VersionManifest,
    os: OperatingSystem,
    paths: &LaunchPaths,
)
    ensures
        view_seq(final(entries)@) == view_seq(old(entries)@) + seq![
            (
                "launcher_name"@,
                match options.launcher_options {
                    Some(launcher) => launcher@.launcher_name,
                    None => Seq::<char>::empty(),
                },
            ),
            (
                "launcher_version"@,
                match options.launcher_options {
                    Some(launcher) => launcher@.launcher_version,
                    None => Seq::<char>::empty(),
                },
            ),
            ("natives_directory"@, paths.natives_dir@),
            ("classpath"@, paths.classpath@),
            ("classpath_separator"@, classpath_separator(os)),
            ("primary_jar"@, jar_path(options.game_dir@, jar_of(manifest@))),
            ("clientid"@, Seq::<char>::empty()),
            (
                "auth_xuid"@,
                match paths.xuid {
                    Some(xuid) => xuid@,
                    None => Seq::<char>::empty(),
                },
            ),
            ("library_directory"@, options.game_dir@ + "/libraries"@),
        ],
{
    let ghost before = view_seq(entries@);
    match &options.launcher_options {
        Some(launcher) => {
            push_entry(entries, "launcher_name", launcher.launcher_name.as_str());
            push_entry(entries, "launcher_version", launcher.launcher_version.as_str());
        },
        None => {
            push_entry(entries, "launcher_name", empty_text().as_str());
            push_entry(entries, "launcher_version", empty_text().as_str());
        },
    }
    push_entry(entries, "natives_directory", paths.natives_dir.as_str());
    push_entry(entries, "classpath", paths.classpath.as_str());
    let mut separator: Vec<char> = Vec::new();
    separator.push(if os == OperatingSystem::Windows {
        ';'
    } else {
        ':'
    });
    assert(separator@ =~= classpath_separator(os));
    push_entry(entries, "classpath_separator", from_chars(separator.as_slice()).as_str());
    let jar = crate::manifest::version_jar_path(options.game_dir.as_str(), manifest.get_jar());
    push_entry(entries, "primary_jar", jar.as_str());
    push_entry(entries, "clientid", empty_text().as_str());
    match &paths.xuid {
        Some(xuid) => push_entry(entries, "auth_xuid", xuid.as_str()),
        None => push_entry(entries, "auth_xuid", empty_text().as_str()),
    }
    let mut libraries: Vec<char> = to_chars(options.game_dir.as_str());
    push_str(&mut libraries, "/libraries");
    push_entry(entries, "library_directory", from_chars(libraries.as_slice()).as_str());
    assert(view_seq(entries@) =~= before + seq![
        (
            "launcher_name"@,
            match options.launcher_options {
                Some(launcher) => launcher@.launcher_name,
                None => Seq::<char>::empty(),
            },
        ),
        (
            "launcher_version"@,
            match options.launcher_options {
                Some(launcher) => launcher@.launcher_version,
                None => Seq::<char>::empty(),
            },
        ),
        ("natives_directory"@, paths.natives_dir@),
        ("classpath"@, paths.classpath@),
        ("classpath_separator"@, classpath_separator(os)),
        ("primary_jar"@, jar_path(options.game_dir@, jar_of(manifest@))),
        ("clientid"@, Seq::<char>::empty()),
        (
            "auth_xuid"@,
            match paths.xuid {
                Some(xuid) => xuid@,
                None => Seq::<char>::empty(),
            },
        ),
        ("library_directory"@, options.game_dir@ + "/libraries"@),
    ]);
}

/// The objects of an optional asset index.
pub open spec fn index_objects(asset_index: Option<&AssetIndex>) -> Seq<AssetEntryView> {
    match asset_index {
        Some(index) => index@.objects,
        None => Seq::<AssetEntryView>::empty(),
    }
}

/// What replaces the tokens in the arguments of a launch, for a manifest
/// that names an asset index.
pub fn create_arguments_substitutor(
    options: &GameOptions,
    manifest: &VersionManifest,
    os: OperatingSystem,
    paths: &LaunchPaths,
    asset_index: Option<&AssetIndex>,
) -> (substitutor: ArgumentSubstitutor)
    requires
        manifest.asset_index is Some,
    ensures
        substitutor@ == with_entries(
            Seq::<(Seq<char>, Seq<char>)>::empty(),
            launch_entries(*options, manifest@, os, *paths, index_objects(asset_index)),
        ),
{
    let mut assets: Vec<char> = to_chars(options.game_dir.as_str());
    push_str(&mut assets, "/assets");
    let assets_dir = from_chars(assets.as_slice());
    let mut entries: Vec<crate::options::Override> = Vec::new();
    player_entries(&mut entries, options);
    version_entries(&mut entries, options, manifest, paths, assets_dir.as_str());
    let ghost head = view_seq(entries@);
    match asset_index {
        Some(index) => push_asset_entries(&mut entries, index, assets_dir.as_str()),
        None => {
            assert(asset_entries(index_objects(asset_index), assets_dir@) =~= Seq::<
                (Seq<char>, Seq<char>),
            >::empty());
            assert(head + Seq::<(Seq<char>, Seq<char>)>::empty() =~= head);
        },
    }
    launcher_entries(&mut entries, options, manifest, os, paths);
    let mut i: usize = 0;
    let ghost fixed = view_seq(entries@);
    let ghost added = view_seq(options.substitutor_overrides@);
    assert(fixed + added.take(0) =~= fixed);
    while i < options.substitutor_overrides.len()
        invariant
            i <= options.substitutor_overrides.len(),
            added == view_seq(options.substitutor_overrides@),
            view_seq(entries@) == fixed + added.take(i as int),
        decreases options.substitutor_overrides.len() - i,
    {
        let entry = &options.substitutor_overrides[i];
        let ghost so_far = view_seq(entries@);
        push_entry(&mut entries, entry.key.as_str(), entry.value.as_str());
        assert(so_far.push(added[i as int]) =~= fixed + added.take(i + 1));
        i += 1;
    }
    assert(added.take(added.len() as int) =~= added);
    assert(view_seq(entries@) =~= launch_entries(
        *options,
        manifest@,
        os,
        *paths,
        index_objects(asset_index),
    ));
    let mut builder = ArgumentSubstitutorBuilder::new();
    builder.add_all(&entries);
    builder.build()
}

} // verus!
