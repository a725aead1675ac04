//! Version manifests: what one game version needs and how it is started.

use vstd::prelude::*;
use crate::argument::{Argument, ArgumentType, ArgumentView};
use crate::artifact::{artifact_path, classified};
use crate::assets::{AssetIndexInfo, AssetIndexInfoView};
use crate::checksum::Sha1Sum;
use crate::date::Date;
use crate::library::{
    artifact_classifier, library_applies, DownloadInfo, DownloadInfoView, DownloadType, Library,
    LibraryView,
};
use crate::model::{clone_opt_string, lemma_view_seq_eq, view_opt, view_seq};
use crate::rule::{
    evaluate, evaluation, FeatureMatcher, OperatingSystem, Platform, PlatformView, Rule,
    RuleAction, RuleView,
};
use crate::text::{from_chars, push_str, to_chars};
use crate::version::{version_text, MCVersion, MCVersionView, ReleaseType};

verus! {

/// The Java runtime that a version asks for.
#[derive(Debug)]
pub struct JavaVersionInfo {
    pub component: String,
    pub major_version: i64,
}

/// The mathematical value of a [`JavaVersionInfo`].
pub struct JavaVersionInfoView {
    pub component: Seq<char>,
    pub major_version: int,
}

impl View for JavaVersionInfo {
    type V = JavaVersionInfoView;

    open spec fn view(&self) -> JavaVersionInfoView {
        JavaVersionInfoView { component: self.component@, major_version: self.major_version as int }
    }
}

impl Clone for JavaVersionInfo {
    fn clone(&self) -> (out: Self)
        ensures
            out@ == self@,
    {
        JavaVersionInfo { component: self.component.clone(), major_version: self.major_version }
    }
}

impl Default for JavaVersionInfo {
    /// The legacy runtime, Java 8.
    fn default() -> (info: Self)
        ensures
            info@ == (JavaVersionInfoView { component: "jre-legacy"@, major_version: 8 }),
    {
        JavaVersionInfo { component: "jre-legacy".to_owned(), major_version: 8 }
    }
}

/// The file of a logging configuration.
#[derive(Debug)]
pub struct LoggingEntryFile {
    pub id: String,
    pub sha1: Sha1Sum,
    pub size: i64,
    pub url: String,
}

/// The mathematical value of a [`LoggingEntryFile`].
pub struct LoggingEntryFileView {
    pub id: Seq<char>,
    pub sha1: Seq<u8>,
    pub size: int,
    pub url: Seq<char>,
}

impl View for LoggingEntryFile {
    type V = LoggingEntryFileView;

    open spec fn view(&self) -> LoggingEntryFileView {
        LoggingEntryFileView {
            id: self.id@,
            sha1: self.sha1@,
            size: self.size as int,
            url: self.url@,
        }
    }
}

impl Clone for LoggingEntryFile {
    fn clone(&self) -> (out: Self)
        ensures
            out@ == self@,
    {
        LoggingEntryFile {
            id: self.id.clone(),
            sha1: self.sha1,
            size: self.size,
            url: self.url.clone(),
        }
    }
}

/// A logging configuration: the argument that turns it on, and its file.
#[derive(Debug)]
pub struct LoggingEntry {
    pub argument: String,
    pub file: LoggingEntryFile,
    pub log_type: String,
}

/// The mathematical value of a [`LoggingEntry`].
pub struct LoggingEntryView {
    pub argument: Seq<char>,
    pub file: LoggingEntryFileView,
    pub log_type: Seq<char>,
}

impl View for LoggingEntry {
    type V = LoggingEntryView;

    open spec fn view(&self) -> LoggingEntryView {
        LoggingEntryView { argument: self.argument@, file: self.file@, log_type: self.log_type@ }
    }
}

impl Clone for LoggingEntry {
    fn clone(&self) -> (out: Self)
        ensures
            out@ == self@,
    {
        LoggingEntry {
            argument: self.argument.clone(),
            file: self.file.clone(),
            log_type: self.log_type.clone(),
        }
    }
}

/// The logging configuration of one kind of download.
#[derive(Debug)]
pub struct LoggingConfig {
    pub kind: DownloadType,
    pub entry: LoggingEntry,
}

/// The mathematical value of a [`LoggingConfig`].
pub struct LoggingConfigView {
    pub kind: DownloadType,
    pub entry: LoggingEntryView,
}

impl View for LoggingConfig {
    type V = LoggingConfigView;

    open spec fn view(&self) -> LoggingConfigView {
        LoggingConfigView { kind: self.kind, entry: self.entry@ }
    }
}

impl Clone for LoggingConfig {
    fn clone(&self) -> (out: Self)
        ensures
            out@ == self@,
    {
        LoggingConfig { kind: self.kind, entry: self.entry.clone() }
    }
}

/// The download of one kind that a manifest lists.
#[derive(Debug)]
pub struct DownloadEntry {
    pub kind: DownloadType,
    pub info: DownloadInfo,
}

/// The mathematical value of a [`DownloadEntry`].
pub struct DownloadEntryView {
    pub kind: DownloadType,
    pub info: DownloadInfoView,
}

impl View for DownloadEntry {
    type V = DownloadEntryView;

    open spec fn view(&self) -> DownloadEntryView {
        DownloadEntryView { kind: self.kind, info: self.info@ }
    }
}

impl Clone for DownloadEntry {
    fn clone(&self) -> (out: Self)
        ensures
            out@ == self@,
    {
        DownloadEntry { kind: self.kind, info: self.info.clone() }
    }
}

/// The argument lists of a manifest, one for each phase that has one.
#[derive(Debug)]
pub struct Arguments {
    pub game: Option<Vec<Argument>>,
    pub jvm: Option<Vec<Argument>>,
}

/// The mathematical value of [`Arguments`].
pub struct ArgumentsView {
    pub game: Option<Seq<ArgumentView>>,
    pub jvm: Option<Seq<ArgumentView>>,
}

/// The view of an optional list of arguments.
pub open spec fn view_list(list: Option<Vec<Argument>>) -> Option<Seq<ArgumentView>> {
    match list {
        Some(arguments) => Some(view_seq(arguments@)),
        None => None,
    }
}

impl View for Arguments {
    type V = ArgumentsView;

    open spec fn view(&self) -> ArgumentsView {
        ArgumentsView { game: view_list(self.game), jvm: view_list(self.jvm) }
    }
}

/// A copy of an optional list of arguments.
pub fn clone_list(list: &Option<Vec<Argument>>) -> (out: Option<Vec<Argument>>)
    ensures
        view_list(out) == view_list(*list),
{
    match list {
        Some(arguments) => {
            let copied = arguments.clone();
            proof {
                lemma_view_seq_eq(copied@, arguments@);
            }
            Some(copied)
        },
        None => None,
    }
}

impl Clone for Arguments {
    fn clone(&self) -> (out: Self)
        ensures
            out@ == self@,
    {
        Arguments { game: clone_list(&self.game), jvm: clone_list(&self.jvm) }
    }
}

impl Arguments {
    /// No phase has a list.
    pub fn new() -> (arguments: Self)
        ensures
            arguments@ == (ArgumentsView { game: None, jvm: None }),
    {
        Arguments { game: None, jvm: None }
    }

    /// Whether no phase has a list.
    pub fn is_empty(&self) -> (empty: bool)
        ensures
            empty == (self@.game is None && self@.jvm is None),
    {
        self.game.is_none() && self.jvm.is_none()
    }

    /// The list of a phase, if it has one.
    pub fn get(&self, phase: &ArgumentType) -> (list: Option<&Vec<Argument>>)
        ensures
            list is Some <==> phase_list(self@, *phase) is Some,
            list is Some ==> view_seq(list->0@) == phase_list(self@, *phase)->0,
    {
        match phase {
            ArgumentType::Game => self.game.as_ref(),
            ArgumentType::Jvm => self.jvm.as_ref(),
        }
    }
}

/// The list of a phase.
pub open spec fn phase_list(arguments: ArgumentsView, phase: ArgumentType) -> Option<
    Seq<ArgumentView>,
> {
    match phase {
        ArgumentType::Game => arguments.game,
        ArgumentType::Jvm => arguments.jvm,
    }
}

/// The description of one version.
#[derive(Debug)]
pub struct VersionManifest {
    pub arguments: Arguments,
    /// The arguments of old versions, as one string.
    pub minecraft_arguments: Option<String>,
    pub asset_index: Option<AssetIndexInfo>,
    pub assets: Option<String>,
    pub compatibility_rules: Vec<Rule>,
    pub compliance_level: Option<u8>,
    pub downloads: Vec<DownloadEntry>,
    pub id: MCVersion,
    /// The version whose manifest this one builds on.
    pub inherits_from: Option<MCVersion>,
    pub java_version: Option<JavaVersionInfo>,
    pub libraries: Vec<Library>,
    pub logging: Vec<LoggingConfig>,
    pub main_class: Option<String>,
    /// The version whose archive is used, where it is not this one.
    pub jar: Option<MCVersion>,
    pub minimum_launcher_version: Option<u32>,
    pub release_time: Date,
    pub updated_time: Date,
    pub release_type: ReleaseType,
}

/// The mathematical value of a [`VersionManifest`].
pub struct ManifestView {
    pub arguments: ArgumentsView,
    pub minecraft_arguments: Option<Seq<char>>,
    pub asset_index: Option<AssetIndexInfoView>,
    pub assets: Option<Seq<char>>,
    pub compatibility_rules: Seq<RuleView>,
    pub compliance_level: Option<u8>,
    pub downloads: Seq<DownloadEntryView>,
    pub id: MCVersionView,
    pub inherits_from: Option<MCVersionView>,
    pub java_version: Option<JavaVersionInfoView>,
    pub libraries: Seq<LibraryView>,
    pub logging: Seq<LoggingConfigView>,
    pub main_class: Option<Seq<char>>,
    pub jar: Option<MCVersionView>,
    pub minimum_launcher_version: Option<u32>,
    pub release_time: Date,
    pub updated_time: Date,
    pub release_type: ReleaseType,
}

impl View for VersionManifest {
    type V = ManifestView;

    open spec fn view(&self) -> ManifestView {
        ManifestView {
            arguments: self.arguments@,
            minecraft_arguments: view_opt(self.minecraft_arguments),
            asset_index: view_opt(self.asset_index),
            assets: view_opt(self.assets),
            compatibility_rules: view_seq(self.compatibility_rules@),
            compliance_level: self.compliance_level,
            downloads: view_seq(self.downloads@),
            id: self.id@,
            inherits_from: view_opt(self.inherits_from),
            java_version: view_opt(self.java_version),
            libraries: view_seq(self.libraries@),
            logging: view_seq(self.logging@),
            main_class: view_opt(self.main_class),
            jar: view_opt(self.jar),
            minimum_launcher_version: self.minimum_launcher_version,
            release_time: self.release_time,
            updated_time: self.updated_time,
            release_type: self.release_type,
        }
    }
}

/// A copy of an optional version.
pub fn clone_opt_version(version: &Option<MCVersion>) -> (out: Option<MCVersion>)
    ensures
        view_opt(out) == view_opt(*version),
{
    match version {
        Some(v) => Some(v.clone()),
        None => None,
    }
}

impl Clone for VersionManifest {
    fn clone(&self) -> (out: Self)
        ensures
            out@ == self@,
    {
        let compatibility_rules = self.compatibility_rules.clone();
        let downloads = self.downloads.clone();
        let libraries = self.libraries.clone();
        let logging = self.logging.clone();
        proof {
            lemma_view_seq_eq(compatibility_rules@, self.compatibility_rules@);
            lemma_view_seq_eq(downloads@, self.downloads@);
            lemma_view_seq_eq(libraries@, self.libraries@);
            lemma_view_seq_eq(logging@, self.logging@);
        }
        VersionManifest {
            arguments: self.arguments.clone(),
            minecraft_arguments: clone_opt_string(&self.minecraft_arguments),
            asset_index: match &self.asset_index {
                Some(index) => Some(index.clone()),
                None => None,
            },
            assets: clone_opt_string(&self.assets),
            compatibility_rules,
            compliance_level: self.compliance_level,
            downloads,
            id: self.id.clone(),
            inherits_from: clone_opt_version(&self.inherits_from),
            java_version: match &self.java_version {
                Some(java) => Some(java.clone()),
                None => None,
            },
            libraries,
            logging,
            main_class: clone_opt_string(&self.main_class),
            jar: clone_opt_version(&self.jar),
            minimum_launcher_version: self.minimum_launcher_version,
            release_time: self.release_time,
            updated_time: self.updated_time,
            release_type: self.release_type,
        }
    }
}

/// The libraries that apply, in order.
pub open spec fn relevant_libraries<M: FeatureMatcher>(
    libraries: Seq<LibraryView>,
    matcher: &M,
    platform: PlatformView,
) -> Seq<LibraryView>
    decreases libraries.len(),
{
    if libraries.len() == 0 {
        libraries
    } else if library_applies(libraries.last(), matcher, platform) {
        relevant_libraries(libraries.drop_last(), matcher, platform).push(libraries.last())
    } else {
        relevant_libraries(libraries.drop_last(), matcher, platform)
    }
}

/// The file of a library below the game directory on `os`, where the
/// library has one there.
pub open spec fn library_file(library: LibraryView, os: OperatingSystem) -> Option<Seq<char>> {
    match artifact_classifier(library, os) {
        Some(classifier) => Some(
            "libraries/"@ + artifact_path(classified(library.name, classifier)),
        ),
        None => None,
    }
}

/// The files of the given libraries on `os`, in order.
pub open spec fn library_files(libraries: Seq<LibraryView>, os: OperatingSystem) -> Seq<Seq<char>>
    decreases libraries.len(),
{
    if libraries.len() == 0 {
        Seq::<Seq<char>>::empty()
    } else {
        match library_file(libraries.last(), os) {
            Some(file) => library_files(libraries.drop_last(), os).push(file),
            None => library_files(libraries.drop_last(), os),
        }
    }
}

/// The version whose archive a manifest uses: its `jar`, or itself.
pub open spec fn jar_of(manifest: ManifestView) -> MCVersionView {
    match manifest.jar {
        Some(jar) => jar,
        None => manifest.id,
    }
}

/// The download of the first entry of kind `kind`.
pub open spec fn download_of(downloads: Seq<DownloadEntryView>, kind: DownloadType) -> Option<
    DownloadInfoView,
>
    decreases downloads.len(),
{
    if downloads.len() == 0 {
        None
    } else if downloads[0].kind == kind {
        Some(downloads[0].info)
    } else {
        download_of(downloads.skip(1), kind)
    }
}

/// The class path entries of the libraries without natives, in order.
pub open spec fn library_class_path(libraries: Seq<LibraryView>, mc_dir: Seq<char>) -> Seq<
    Seq<char>,
>
    decreases libraries.len(),
{
    if libraries.len() == 0 {
        Seq::<Seq<char>>::empty()
    } else if libraries.last().natives.len() == 0 {
        library_class_path(libraries.drop_last(), mc_dir).push(
            mc_dir + "/libraries/"@ + artifact_path(libraries.last().name),
        )
    } else {
        library_class_path(libraries.drop_last(), mc_dir)
    }
}

/// The path of the archive of the version `jar` below `mc_dir`.
pub open spec fn jar_path(mc_dir: Seq<char>, jar: MCVersionView) -> Seq<char> {
    mc_dir + "/versions/"@ + version_text(jar) + seq!['/'] + version_text(jar) + ".jar"@
}

/// Builds `mc_dir/versions/<jar>/<jar>.jar`.
pub fn version_jar_path(mc_dir: &str, jar: &MCVersion) -> (path: String)
    ensures
        path@ == jar_path(mc_dir@, jar@),
{
    let name = jar.to_string();
    let mut out: Vec<char> = to_chars(mc_dir);
    push_str(&mut out, "/versions/");
    push_str(&mut out, name.as_str());
    out.push('/');
    push_str(&mut out, name.as_str());
    push_str(&mut out, ".jar");
    assert(out@ =~= jar_path(mc_dir@, jar@));
    from_chars(out.as_slice())
}

impl VersionManifest {
    /// The libraries that apply under the given features and platform.
    pub fn get_relevant_libraries<M: FeatureMatcher>(&self, matcher: &M, platform: &Platform) -> (libraries:
        Vec<&Library>)
        ensures
            libraries@.map_values(|library: &Library| library@) == relevant_libraries(
                self@.libraries,
                matcher,
                platform@,
            ),
    {
        let mut libraries: Vec<&Library> = Vec::new();
        let ghost all = self@.libraries;
        let mut i: usize = 0;
        while i < self.libraries.len()
            invariant
                i <= self.libraries.len(),
                all == self@.libraries,
                libraries@.map_values(|library: &Library| library@) == relevant_libraries(
                    all.take(i as int),
                    matcher,
                    platform@,
                ),
            decreases self.libraries.len() - i,
        {
            let library = &self.libraries[i];
            assert(all.take(i + 1).drop_last() =~= all.take(i as int));
            assert(all.take(i + 1).last() == library@);
            if library.applies_to_current_environment(matcher, platform) {
                let ghost before = libraries@;
                libraries.push(library);
                assert(libraries@.map_values(|library: &Library| library@) =~= before.map_values(
                    |library: &Library| library@,
                ).push(library@));
            }
            i += 1;
        }
        assert(all.take(all.len() as int) =~= all);
        libraries
    }

    /// The files, below the game directory, of the libraries that apply on
    /// `os`. A library of natives that has nothing for `os` has no file.
    pub fn get_required_files<M: FeatureMatcher>(
        &self,
        os: &OperatingSystem,
        matcher: &M,
        platform: &Platform,
    ) -> (files: Vec<String>)
        ensures
            view_seq(files@) == library_files(
                relevant_libraries(self@.libraries, matcher, platform@),
                *os,
            ),
    {
        let libraries = self.get_relevant_libraries(matcher, platform);
        let ghost relevant = relevant_libraries(self@.libraries, matcher, platform@);
        let mut files: Vec<String> = Vec::new();
        let mut i: usize = 0;
        while i < libraries.len()
            invariant
                i <= libraries.len(),
                libraries@.map_values(|library: &Library| library@) == relevant,
                view_seq(files@) == library_files(relevant.take(i as int), *os),
            decreases libraries.len() - i,
        {
            let library = libraries[i];
            assert(relevant[i as int] == library@);
            assert(relevant.take(i + 1).drop_last() =~= relevant.take(i as int));
            assert(relevant.take(i + 1).last() == library@);
            if let Some(classifier) = library.get_artifact_classifier(os) {
                let path = library.get_artifact_path(classifier);
                let mut out: Vec<char> = to_chars("libraries/");
                push_str(&mut out, path.as_str());
                let file = from_chars(out.as_slice());
                let ghost before = files@;
                files.push(file);
                assert(view_seq(files@) =~= view_seq(before).push(file@));
            }
            i += 1;
        }
        assert(relevant.take(relevant.len() as int) =~= relevant);
        files
    }

    /// The version whose archive is used: `jar`, or the manifest's own
    /// identifier.
    pub fn get_jar(&self) -> (jar: &MCVersion)
        ensures
            jar@ == jar_of(self@),
    {
        match &self.jar {
            Some(jar) => jar,
            None => &self.id,
        }
    }

    /// The main class of a manifest that has one.
    pub fn get_main_class(&self) -> (main_class: &String)
        requires
            self.main_class is Some,
        ensures
            Some(main_class@) == self@.main_class,
    {
        match &self.main_class {
            Some(main_class) => main_class,
            None => vstd::pervasive::unreached(),
        }
    }

    /// The download of kind `download_type`, if the manifest lists one.
    pub fn get_download_url(&self, download_type: DownloadType) -> (info: Option<&DownloadInfo>)
        ensures
            info is Some <==> download_of(self@.downloads, download_type) is Some,
            info is Some ==> Some(info->0@) == download_of(self@.downloads, download_type),
    {
        let mut i: usize = 0;
        assert(self@.downloads.skip(0) =~= self@.downloads);
        while i < self.downloads.len()
            invariant
                i <= self.downloads.len(),
                download_of(self@.downloads, download_type) == download_of(
                    self@.downloads.skip(i as int),
                    download_type,
                ),
            decreases self.downloads.len() - i,
        {
            let ghost rest = self@.downloads.skip(i as int);
            assert(rest[0] == self.downloads@[i as int]@);
            assert(rest.skip(1) =~= self@.downloads.skip(i + 1));
            if self.downloads[i].kind == download_type {
                return Some(&self.downloads[i].info);
            }
            i += 1;
        }
        None
    }

    /// Whether the version can run: its compatibility rules are empty or
    /// decide `Allow`.
    pub fn applies_to_current_environment<M: FeatureMatcher>(
        &self,
        matcher: &M,
        platform: &Platform,
    ) -> (applies: bool)
        ensures
            applies == (evaluation(self@.compatibility_rules, matcher, platform@)
                == RuleAction::Allow),
    {
        evaluate(&self.compatibility_rules, matcher, platform) == RuleAction::Allow
    }

    /// The class path: the libraries that apply and have no natives, then
    /// the archive of the version.
    pub fn get_classpath<M: FeatureMatcher>(&self, mc_dir: &str, matcher: &M, platform: &Platform) -> (paths:
        Vec<String>)
        ensures
            view_seq(paths@) == library_class_path(
                relevant_libraries(self@.libraries, matcher, platform@),
                mc_dir@,
            ).push(jar_path(mc_dir@, jar_of(self@))),
    {
        let libraries = self.get_relevant_libraries(matcher, platform);
        let ghost relevant = relevant_libraries(self@.libraries, matcher, platform@);
        let mut paths: Vec<String> = Vec::new();
        let mut i: usize = 0;
        while i < libraries.len()
            invariant
                i <= libraries.len(),
                libraries@.map_values(|library: &Library| library@) == relevant,
                view_seq(paths@) == library_class_path(relevant.take(i as int), mc_dir@),
            decreases libraries.len() - i,
        {
            let library = libraries[i];
            assert(relevant[i as int] == library@);
            assert(relevant.take(i + 1).drop_last() =~= relevant.take(i as int));
            assert(relevant.take(i + 1).last() == library@);
            if library.natives.len() == 0 {
                let path = library.get_artifact_path(None);
                let mut out: Vec<char> = to_chars(mc_dir);
                push_str(&mut out, "/libraries/");
                push_str(&mut out, path.as_str());
                let entry = from_chars(out.as_slice());
                let ghost before = paths@;
                paths.push(entry);
                assert(view_seq(paths@) =~= view_seq(before).push(entry@));
            }
            i += 1;
        }
        assert(relevant.take(relevant.len() as int) =~= relevant);
        let jar = version_jar_path(mc_dir, self.get_jar());
        let ghost before = paths@;
        paths.push(jar);
        assert(view_seq(paths@) =~= view_seq(before).push(jar@));
        paths
    }
}

/// What every description of a version tells.
pub trait VersionInfo {
    /// The identifier of the version.
    fn get_id(&self) -> &MCVersion;

    /// The classification of the release.
    fn get_type(&self) -> &ReleaseType;

    /// When the description was last changed.
    fn get_updated_time(&self) -> &Date;

    /// When the version was released.
    fn get_release_time(&self) -> &Date;
}

impl VersionInfo for VersionManifest {
    fn get_id(&self) -> (id: &MCVersion)
        ensures
            id@ == self@.id,
    {
        &self.id
    }

    fn get_type(&self) -> (release_type: &ReleaseType)
        ensures
            *release_type == self@.release_type,
    {
        &self.release_type
    }

    fn get_updated_time(&self) -> (time: &Date)
        ensures
            *time == self@.updated_time,
    {
        &self.updated_time
    }

    fn get_release_time(&self) -> (time: &Date)
        ensures
            *time == self@.release_time,
    {
        &self.release_time
    }
}

} // verus!
