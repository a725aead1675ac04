//! What is known of versions: those that the remote index lists and those
//! that are installed, and the decisions on installing and refreshing
//! them. Reading the store and fetching the index are left to the caller.

use vstd::prelude::*;
use crate::checksum::{sha1_digest, Sha1Sum, Sha1SumError};
use crate::date::Date;
use crate::download::file_name;
use crate::manifest::{ManifestView, VersionInfo, VersionManifest};
use crate::model::{lemma_view_seq_eq, lemma_view_seq_push, view_opt, view_seq};
use crate::rule::{EnvironmentFeatures, FeatureValueView, RuleFeatureType};
use crate::text::{from_chars, push_chars, push_str, split, split_chars, to_chars};
use crate::version::{version_text, MCVersion, MCVersionView, ReleaseType};

verus! {

/// Why a version could not be loaded.
#[derive(Debug)]
pub enum LoadVersionError {
    /// The remote index could not be fetched.
    FetchError(String),
    NotADirectory,
    InvalidVersionDir,
    ManifestNotFound,
    /// The stored manifest is not what a manifest looks like.
    ManifestParseError(String),
    IoError(String),
    /// No such version is installed.
    VersionNotFound(String),
}

/// Why a version could not be installed.
#[derive(Debug)]
pub enum InstallVersionError {
    FetchError(String),
    /// What was fetched is not what the index announces.
    ChecksumMismatch { expected: Sha1Sum, actual: Sha1Sum },
    ParseError(String),
    ChecksumError(Sha1SumError),
    IoError(String),
    /// The remote index does not list the version.
    VersionNotFound(String),
}

/// An entry of the remote index.
#[derive(Debug)]
pub struct RemoteVersionInfo {
    pub id: MCVersion,
    pub release_type: ReleaseType,
    pub url: String,
    pub updated_time: Date,
    pub release_time: Date,
    pub sha1: Sha1Sum,
    pub compliance_level: u8,
}

/// The mathematical value of a [`RemoteVersionInfo`].
pub struct RemoteVersionView {
    pub id: MCVersionView,
    pub release_type: ReleaseType,
    pub url: Seq<char>,
    pub updated_time: Date,
    pub release_time: Date,
    pub sha1: Seq<u8>,
    pub compliance_level: u8,
}

impl View for RemoteVersionInfo {
    type V = RemoteVersionView;

    open spec fn view(&self) -> RemoteVersionView {
        RemoteVersionView {
            id: self.id@,
            release_type: self.release_type,
            url: self.url@,
            updated_time: self.updated_time,
            release_time: self.release_time,
            sha1: self.sha1@,
            compliance_level: self.compliance_level,
        }
    }
}

impl Clone for RemoteVersionInfo {
    fn clone(&self) -> (out: Self)
        ensures
            out@ == self@,
    {
        RemoteVersionInfo {
            id: self.id.clone(),
            release_type: self.release_type,
            url: self.url.clone(),
            updated_time: self.updated_time,
            release_time: self.release_time,
            sha1: self.sha1,
            compliance_level: self.compliance_level,
        }
    }
}

impl RemoteVersionInfo {
    /// Where the manifest is fetched from.
    pub fn get_url(&self) -> (url: &str)
        ensures
            url@ == self@.url,
    {
        self.url.as_str()
    }

    /// The checksum of the manifest.
    pub fn get_sha1(&self) -> (sha1: &Sha1Sum)
        ensures
            sha1@ == self@.sha1,
    {
        &self.sha1
    }

    /// The compliance level that the index gives for the version.
    pub fn get_compliance_level(&self) -> (level: u8)
        ensures
            level == self@.compliance_level,
    {
        self.compliance_level
    }

    /// Checks the bytes that were fetched for the manifest: they are to be
    /// trusted only where they have the checksum that the index announces.
    pub fn verify(&self, bytes: &[u8]) -> (checked: Result<(), InstallVersionError>)
        ensures
            checked is Ok <==> sha1_digest(bytes@) == self@.sha1,
            checked is Err ==> (checked->Err_0 matches InstallVersionError::ChecksumMismatch {
                expected,
                actual,
            } && expected@ == self@.sha1 && actual@ == sha1_digest(bytes@)),
    {
        let actual = Sha1Sum::from_reader(bytes);
        if actual == self.sha1 {
            Ok(())
        } else {
            Err(InstallVersionError::ChecksumMismatch { expected: self.sha1, actual })
        }
    }
}

impl VersionInfo for RemoteVersionInfo {
    fn get_id(&self) -> (id: &MCVersion)
        ensures
            id@ == self@.id,
    {
        &self.id
    }

    fn get_type(&self) -> (release_type: &ReleaseType)
        ensures
            *release_type == self@.release_type,
    {
        &self.release_type
    }

    fn get_updated_time(&self) -> (time: &Date)
        ensures
            *time == self@.updated_time,
    {
        &self.updated_time
    }

    fn get_release_time(&self) -> (time: &Date)
        ensures
            *time == self@.release_time,
    {
        &self.release_time
    }
}

/// The latest version of one classification.
#[derive(Debug)]
pub struct Latest {
    pub release_type: ReleaseType,
    pub version: MCVersion,
}

impl View for Latest {
    type V = (ReleaseType, MCVersionView);

    open spec fn view(&self) -> (ReleaseType, MCVersionView) {
        (self.release_type, self.version@)
    }
}

impl Clone for Latest {
    fn clone(&self) -> (out: Self)
        ensures
            out@ == self@,
    {
        Latest { release_type: self.release_type, version: self.version.clone() }
    }
}

/// The remote index: the latest version of each classification, and the
/// versions that can be had.
#[derive(Debug)]
pub struct RawVersionList {
    pub latest: Vec<Latest>,
    pub versions: Vec<RemoteVersionInfo>,
}

/// The mathematical value of a [`RawVersionList`].
pub struct RawVersionListView {
    pub latest: Seq<(ReleaseType, MCVersionView)>,
    pub versions: Seq<RemoteVersionView>,
}

impl View for RawVersionList {
    type V = RawVersionListView;

    open spec fn view(&self) -> RawVersionListView {
        RawVersionListView { latest: view_seq(self.latest@), versions: view_seq(self.versions@) }
    }
}

impl Clone for RawVersionList {
    fn clone(&self) -> (out: Self)
        ensures
            out@ == self@,
    {
        let latest = self.latest.clone();
        let versions = self.versions.clone();
        proof {
            lemma_view_seq_eq(latest@, self.latest@);
            lemma_view_seq_eq(versions@, self.versions@);
        }
        RawVersionList { latest, versions }
    }
}

/// The first entry with the identifier `id`.
pub open spec fn remote_version(versions: Seq<RemoteVersionView>, id: MCVersionView) -> Option<
    RemoteVersionView,
>
    decreases versions.len(),
{
    if versions.len() == 0 {
        None
    } else if versions[0].id == id {
        Some(versions[0])
    } else {
        remote_version(versions.skip(1), id)
    }
}

/// A short description of an installed version.
#[derive(Debug)]
pub struct LocalVersionInfo {
    pub id: MCVersion,
    pub release_type: ReleaseType,
    pub updated_time: Date,
    pub release_time: Date,
    pub manifest_path: String,
}

/// The mathematical value of a [`LocalVersionInfo`].
pub struct LocalVersionView {
    pub id: MCVersionView,
    pub release_type: ReleaseType,
    pub updated_time: Date,
    pub release_time: Date,
    pub manifest_path: Seq<char>,
}

impl View for LocalVersionInfo {
    type V = LocalVersionView;

    open spec fn view(&self) -> LocalVersionView {
        LocalVersionView {
            id: self.id@,
            release_type: self.release_type,
            updated_time: self.updated_time,
            release_time: self.release_time,
            manifest_path: self.manifest_path@,
        }
    }
}

impl Clone for LocalVersionInfo {
    fn clone(&self) -> (out: Self)
        ensures
            out@ == self@,
    {
        LocalVersionInfo {
            id: self.id.clone(),
            release_type: self.release_type,
            updated_time: self.updated_time,
            release_time: self.release_time,
            manifest_path: self.manifest_path.clone(),
        }
    }
}

/// Where the manifest of the version directory `version_dir` is: the file
/// in it that is named like the directory, with `.json`. A path without a
/// name has none.
pub open spec fn manifest_in(version_dir: Seq<char>) -> Option<Seq<char>> {
    match file_name(version_dir) {
        Some(name) => Some(version_dir + seq!['/'] + name + ".json"@),
        None => None,
    }
}

impl LocalVersionInfo {
    /// The description of the version of `version_manifest`, which is
    /// stored at `manifest_path`.
    pub fn new(version_manifest: &VersionManifest, manifest_path: &str) -> (info: Self)
        ensures
            info@ == (LocalVersionView {
                id: version_manifest@.id,
                release_type: version_manifest@.release_type,
                updated_time: version_manifest@.updated_time,
                release_time: version_manifest@.release_time,
                manifest_path: manifest_path@,
            }),
    {
        LocalVersionInfo {
            id: version_manifest.id.clone(),
            release_type: version_manifest.release_type,
            updated_time: version_manifest.updated_time,
            release_time: version_manifest.release_time,
            manifest_path: manifest_path.to_owned(),
        }
    }

    /// Where the manifest is stored.
    pub fn get_manifest_path(&self) -> (path: &String)
        ensures
            path@ == self@.manifest_path,
    {
        &self.manifest_path
    }

    /// Where the manifest of a version directory is.
    pub fn manifest_path_in(version_dir: &str) -> (path: Result<String, LoadVersionError>)
        ensures
            path is Ok <==> manifest_in(version_dir@) is Some,
            path is Ok ==> Some(path->Ok_0@) == manifest_in(version_dir@),
            path is Err ==> path->Err_0 is InvalidVersionDir,
    {
        let chars = to_chars(version_dir);
        let pieces = split_chars(&chars, '/');
        let ghost all = split(version_dir@, '/');
        let mut i: usize = pieces.len();
        assert(all.take(all.len() as int) =~= all);
        while i > 0
            invariant
                i <= pieces.len(),
                all == split(version_dir@, '/'),
                chars@ == version_dir@,
                pieces@.len() == all.len(),
                forall|k: int| 0 <= k < pieces@.len() ==> (#[trigger] pieces@[k])@ == all[k],
                crate::download::last_name(all) == crate::download::last_name(all.take(i as int)),
            decreases i,
        {
            let piece = &pieces[i - 1];
            assert(all.take(i as int).last() == all[i - 1]);
            assert(all.take(i as int).drop_last() =~= all.take(i - 1));
            if piece.len() == 0 {
                i -= 1;
            } else if piece.len() == 2 && piece[0] == '.' && piece[1] == '.' {
                assert(piece@ =~= seq!['.', '.']);
                return Err(LoadVersionError::InvalidVersionDir);
            } else {
                let mut out: Vec<char> = Vec::new();
                push_chars(&mut out, &chars);
                out.push('/');
                push_chars(&mut out, piece);
                push_str(&mut out, ".json");
                assert(out@ =~= version_dir@ + seq!['/'] + piece@ + ".json"@);
                return Ok(from_chars(out.as_slice()));
            }
        }
        assert(all.take(0) =~= Seq::<Seq<char>>::empty());
        Err(LoadVersionError::InvalidVersionDir)
    }
}

impl VersionInfo for LocalVersionInfo {
    fn get_id(&self) -> (id: &MCVersion)
        ensures
            id@ == self@.id,
    {
        &self.id
    }

    fn get_type(&self) -> (release_type: &ReleaseType)
        ensures
            *release_type == self@.release_type,
    {
        &self.release_type
    }

    fn get_updated_time(&self) -> (time: &Date)
        ensures
            *time == self@.updated_time,
    {
        &self.updated_time
    }

    fn get_release_time(&self) -> (time: &Date)
        ensures
            *time == self@.release_time,
    {
        &self.release_time
    }
}

/// What is known of the versions of a game directory.
#[derive(Debug)]
pub struct VersionManager {
    game_dir: String,
    env_features: EnvironmentFeatures,
    local_cache: Vec<MCVersion>,
    remote_cache: Option<RawVersionList>,
}

/// The mathematical value of a [`VersionManager`].
pub struct VersionManagerView {
    pub game_dir: Seq<char>,
    /// The features of the environment that versions are judged by.
    pub features: Map<RuleFeatureType, FeatureValueView>,
    /// The versions that are installed, in the order in which they were
    /// found.
    pub installed: Seq<MCVersionView>,
    /// The entries of the remote index; none before it has been fetched.
    pub remote: Seq<RemoteVersionView>,
    /// The latest version of each classification, as the remote index
    /// names it; none before the index has been fetched.
    pub latest: Seq<(ReleaseType, MCVersionView)>,
}

impl View for VersionManager {
    type V = VersionManagerView;

    closed spec fn view(&self) -> VersionManagerView {
        VersionManagerView {
            game_dir: self.game_dir@,
            features: self.env_features@,
            installed: view_seq(self.local_cache@),
            remote: match self.remote_cache {
                Some(list) => view_seq(list.versions@),
                None => Seq::<RemoteVersionView>::empty(),
            },
            latest: match self.remote_cache {
                Some(list) => view_seq(list.latest@),
                None => Seq::<(ReleaseType, MCVersionView)>::empty(),
            },
        }
    }
}

/// Where the manifest of the version `id` is stored below `game_dir`:
/// `versions/<id>/<id>.json`.
pub open spec fn manifest_path(game_dir: Seq<char>, id: MCVersionView) -> Seq<char> {
    game_dir + "/versions/"@ + version_text(id) + seq!['/'] + version_text(id) + ".json"@
}

/// Whether the remote index holds a newer manifest of the version of
/// `manifest`: it lists the version, with a later time of update.
pub open spec fn newer_remotely(remote: Seq<RemoteVersionView>, manifest: ManifestView) -> bool {
    match remote_version(remote, manifest.id) {
        Some(entry) => entry.updated_time.later_than(manifest.updated_time),
        None => false,
    }
}

/// Whether an installed manifest is up to date: the remote index holds no
/// newer one, and every file that the resolved manifest requires is there.
pub open spec fn up_to_date(
    remote: Seq<RemoteVersionView>,
    manifest: ManifestView,
    has_all_files: bool,
) -> bool {
    !newer_remotely(remote, manifest) && has_all_files
}

/// Whether the files of an installed manifest have to be looked for before
/// it is known whether it is up to date: they have to unless the remote
/// index holds a newer manifest.
pub open spec fn files_decide(remote: Seq<RemoteVersionView>, manifest: ManifestView) -> bool {
    !newer_remotely(remote, manifest)
}

/// A manifest is never up to date while a required file is missing or the
/// remote index holds a newer one; where the files do not have to be looked
/// for, it is not up to date whatever is there.
pub proof fn lemma_up_to_date_needs_both(
    remote: Seq<RemoteVersionView>,
    manifest: ManifestView,
    has_all_files: bool,
)
    ensures
        up_to_date(remote, manifest, has_all_files) ==> has_all_files && files_decide(
            remote,
            manifest,
        ),
        !files_decide(remote, manifest) ==> !up_to_date(remote, manifest, has_all_files),
        files_decide(remote, manifest) ==> up_to_date(remote, manifest, has_all_files)
            == has_all_files,
{
}

impl VersionManager {
    /// A manager for `game_dir` that knows of no version.
    pub fn new(game_dir: &str, env_features: EnvironmentFeatures) -> (manager: Self)
        ensures
            manager@ == (VersionManagerView {
                game_dir: game_dir@,
                features: env_features@,
                installed: Seq::<MCVersionView>::empty(),
                remote: Seq::<RemoteVersionView>::empty(),
                latest: Seq::<(ReleaseType, MCVersionView)>::empty(),
            }),
    {
        let manager = VersionManager {
            game_dir: game_dir.to_owned(),
            env_features,
            local_cache: Vec::new(),
            remote_cache: None,
        };
        assert(manager@.installed =~= Seq::<MCVersionView>::empty());
        manager
    }

    /// The game directory.
    pub fn game_dir(&self) -> (dir: &str)
        ensures
            dir@ == self@.game_dir,
    {
        self.game_dir.as_str()
    }

    /// The features of the environment that versions are judged by.
    pub fn env_features(&self) -> (features: &EnvironmentFeatures)
        ensures
            features@ == self@.features,
    {
        &self.env_features
    }

    /// The directory of the versions.
    pub fn versions_dir(&self) -> (dir: String)
        ensures
            dir@ == self@.game_dir + "/versions"@,
    {
        let mut out: Vec<char> = to_chars(self.game_dir.as_str());
        push_str(&mut out, "/versions");
        from_chars(out.as_slice())
    }

    /// Where the manifest of the version `version_id` is stored.
    pub fn manifest_path(&self, version_id: &MCVersion) -> (path: String)
        ensures
            path@ == manifest_path(self@.game_dir, version_id@),
    {
        let id = version_id.to_string();
        let mut out: Vec<char> = to_chars(self.game_dir.as_str());
        push_str(&mut out, "/versions/");
        push_str(&mut out, id.as_str());
        out.push('/');
        push_str(&mut out, id.as_str());
        push_str(&mut out, ".json");
        assert(out@ =~= manifest_path(self@.game_dir, version_id@));
        from_chars(out.as_slice())
    }

    /// The versions that are installed.
    pub fn installed_versions(&self) -> (versions: Vec<MCVersion>)
        ensures
            view_seq(versions@) == self@.installed,
    {
        let versions = self.local_cache.clone();
        proof {
            lemma_view_seq_eq(versions@, self.local_cache@);
        }
        versions
    }

    /// The versions that the remote index lists.
    pub fn remote_versions(&self) -> (versions: Vec<&MCVersion>)
        ensures
            versions@.len() == self@.remote.len(),
            forall|i: int| 0 <= i < versions@.len() ==> (#[trigger] versions@[i])@ == self@.remote[i].id,
    {
        let mut versions: Vec<&MCVersion> = Vec::new();
        if let Some(list) = &self.remote_cache {
            let mut i: usize = 0;
            while i < list.versions.len()
                invariant
                    i <= list.versions.len(),
                    self.remote_cache == Some(*list),
                    versions@.len() == i,
                    forall|k: int|
                        0 <= k < versions@.len() ==> (#[trigger] versions@[k])@
                            == self@.remote[k].id,
                decreases list.versions.len() - i,
            {
                assert(self@.remote[i as int] == list.versions@[i as int]@);
                versions.push(&list.versions[i].id);
                i += 1;
            }
        }
        versions
    }

    /// The entry of the remote index for the version `version_id`.
    pub fn get_remote_version(&self, version_id: &MCVersion) -> (entry: Option<&RemoteVersionInfo>)
        ensures
            view_opt(entry) == remote_version(self@.remote, version_id@),
    {
        match &self.remote_cache {
            None => None,
            Some(list) => {
                let mut i: usize = 0;
                let ghost all = view_seq(list.versions@);
                assert(all.skip(0) =~= all);
                while i < list.versions.len()
                    invariant
                        i <= list.versions.len(),
                        all == view_seq(list.versions@),
                        self@.remote == all,
                        remote_version(all, version_id@) == remote_version(
                            all.skip(i as int),
                            version_id@,
                        ),
                    decreases list.versions.len() - i,
                {
                    let ghost rest = all.skip(i as int);
                    assert(rest[0] == list.versions@[i as int]@);
                    assert(rest.skip(1) =~= all.skip(i + 1));
                    if list.versions[i].id == *version_id {
                        return Some(&list.versions[i]);
                    }
                    i += 1;
                }
                None
            },
        }
    }

    /// Whether the version `version_id` is installed.
    pub fn is_installed(&self, version_id: &MCVersion) -> (installed: bool)
        ensures
            installed == self@.installed.contains(version_id@),
    {
        let mut i: usize = 0;
        while i < self.local_cache.len()
            invariant
                i <= self.local_cache.len(),
                forall|k: int| 0 <= k < i ==> self@.installed[k] != version_id@,
            decreases self.local_cache.len() - i,
        {
            assert(self@.installed[i as int] == self.local_cache@[i as int]@);
            if self.local_cache[i] == *version_id {
                return true;
            }
            i += 1;
        }
        false
    }

    /// Where the manifest of the installed version `version_id` is, or
    /// that there is no such version.
    pub fn get_installed_version(&self, version_id: &MCVersion) -> (path: Result<
        String,
        LoadVersionError,
    >)
        ensures
            path is Ok <==> self@.installed.contains(version_id@),
            path is Ok ==> path->Ok_0@ == manifest_path(self@.game_dir, version_id@),
            path is Err ==> (path->Err_0 matches LoadVersionError::VersionNotFound(id) && id@
                == version_text(version_id@)),
    {
        if self.is_installed(version_id) {
            Ok(self.manifest_path(version_id))
        } else {
            Err(LoadVersionError::VersionNotFound(version_id.to_string()))
        }
    }

    /// Takes `list` as the remote index.
    pub fn set_remote_versions(&mut self, list: RawVersionList)
        ensures
            final(self)@ == (VersionManagerView {
                remote: list@.versions,
                latest: list@.latest,
                ..old(self)@
            }),
    {
        self.remote_cache = Some(list);
    }

    /// Takes `versions` as the versions that are installed.
    pub fn set_installed_versions(&mut self, versions: Vec<MCVersion>)
        ensures
            final(self)@ == (VersionManagerView { installed: view_seq(versions@), ..old(self)@ }),
    {
        self.local_cache = versions;
    }

    /// Notes that the version `version_id` has been installed.
    pub fn register_installed(&mut self, version_id: MCVersion)
        ensures
            final(self)@ == (VersionManagerView {
                installed: old(self)@.installed.push(version_id@),
                ..old(self)@
            }),
    {
        proof {
            lemma_view_seq_push(self.local_cache@, version_id);
        }
        self.local_cache.push(version_id);
    }

    /// The entry of the remote index from which the version `version_id`
    /// is installed, or that the index does not list it.
    pub fn install_version_by_id(&self, version_id: &MCVersion) -> (entry: Result<
        &RemoteVersionInfo,
        InstallVersionError,
    >)
        ensures
            entry is Ok <==> remote_version(self@.remote, version_id@) is Some,
            entry is Ok ==> Some(entry->Ok_0@) == remote_version(self@.remote, version_id@),
            entry is Err ==> (entry->Err_0 matches InstallVersionError::VersionNotFound(id) && id@
                == version_text(version_id@)),
    {
        match self.get_remote_version(version_id) {
            Some(entry) => Ok(entry),
            None => Err(InstallVersionError::VersionNotFound(version_id.to_string())),
        }
    }

    /// Whether the files that `version_manifest` requires have to be looked
    /// for to know whether it is up to date.
    pub fn needs_file_check(&self, version_manifest: &VersionManifest) -> (needed: bool)
        ensures
            needed == files_decide(self@.remote, version_manifest@),
    {
        match self.get_remote_version(&version_manifest.id) {
            Some(entry) => !entry.updated_time.is_after(&version_manifest.updated_time),
            None => true,
        }
    }

    /// Whether the installed `version_manifest` is up to date, where
    /// `has_all_files` says whether every file that the resolved manifest
    /// requires is there.
    pub fn is_up_to_date(&self, version_manifest: &VersionManifest, has_all_files: bool) -> (fresh:
        bool)
        ensures
            fresh == up_to_date(self@.remote, version_manifest@, has_all_files),
    {
        match self.get_remote_version(&version_manifest.id) {
            Some(entry) => !entry.updated_time.is_after(&version_manifest.updated_time)
                && has_all_files,
            None => has_all_files,
        }
    }
}

} // verus!
