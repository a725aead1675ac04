//! The fetch tasks that a resolved manifest needs: one for the archive of
//! the version, one for each library that applies, and one for each
//! distinct object of the asset index. No two tasks of a job fill the same
//! file: of several tasks for one file, the first stays.

use vstd::prelude::*;
use crate::artifact::{artifact_path, classified};
use crate::assets::{object_path, unique_objects, AssetEntryView, AssetIndex, AssetIndexInfo};
use crate::checksum::{hex_encoded, lemma_hex_is_injective, sha1_digest, Sha1Sum};
use crate::download::asset::{asset_task_for, AssetDownloadable};
use crate::download::checksummed::{unknown_hash, ChecksummedDownloadable, ChecksummedPhase, ChecksummedView};
use crate::download::downloadable::{Downloadable, DownloadableView};
use crate::download::etag::{EtagDownloadable, EtagPhase, EtagView};
use crate::download::job::{DownloadJob, JobView, SlotView, pending_slots};
use crate::download::prehashed::{Phase, PreHashedDownloadable, PreHashedView, DEFAULT_TOTAL};
use crate::download::MonitorView;
use crate::library::{artifact_classifier, library_download, DownloadType, Library, LibraryView};
use crate::manifest::{download_of, relevant_libraries, jar_path, ManifestView, VersionManifest};
use crate::model::{lemma_view_seq_push, view_opt, view_seq};
use crate::progress::{ProgressReporter, ProgressUpdateView};
use crate::rule::{FeatureMatcher, OperatingSystem, Platform, PlatformView};
use crate::text::{from_chars, push_str, str_eq, to_chars};
use crate::url::{locate, located};
use crate::version::version_text;

verus! {

/// The byte counts of a task that has not begun.
pub open spec fn fresh_monitor() -> MonitorView {
    MonitorView { current: 0, total: DEFAULT_TOTAL, reported: Seq::<ProgressUpdateView>::empty() }
}

/// A new task whose checksum is known beforehand.
pub open spec fn prehashed_task(url: Seq<char>, target_file: Seq<char>, hash: Seq<u8>) -> DownloadableView {
    DownloadableView::PreHashed(
        PreHashedView {
            url,
            target_file,
            force_download: false,
            attempts: 0,
            start_time: None,
            end_time: None,
            expected_hash: hash,
            monitor: fresh_monitor(),
            phase: Phase::Idle,
        },
    )
}

/// A new task whose checksum the server publishes.
pub open spec fn checksummed_task(url: Seq<char>, target_file: Seq<char>, force_download: bool) -> DownloadableView {
    DownloadableView::Checksummed(
        ChecksummedView {
            url,
            target_file,
            force_download,
            attempts: 0,
            start_time: None,
            end_time: None,
            monitor: fresh_monitor(),
            phase: ChecksummedPhase::Idle,
            local_hash: None,
            remote_hash: unknown_hash(),
        },
    )
}

/// A new task that is checked against the tag of the answer.
pub open spec fn etag_task(url: Seq<char>, target_file: Seq<char>) -> DownloadableView {
    DownloadableView::Etag(
        EtagView {
            url,
            target_file,
            force_download: false,
            attempts: 0,
            start_time: None,
            end_time: None,
            monitor: fresh_monitor(),
            phase: EtagPhase::Idle,
        },
    )
}

/// Where the archive of a version is fetched from when its manifest does
/// not say.
pub open spec fn legacy_jar_url(id: Seq<char>) -> Seq<char> {
    "https://s3.amazonaws.com/Minecraft.Download/versions/"@ + id + seq!['/'] + id + ".jar"@
}

/// The task for the archive of a version: with the checksum of the client
/// download where the manifest lists one, and otherwise fetched from the
/// legacy server and checked against the tag of the answer.
pub open spec fn jar_task(game_dir: Seq<char>, manifest: ManifestView) -> DownloadableView {
    let target = jar_path(game_dir, manifest.id);
    match download_of(manifest.downloads, DownloadType::Client) {
        Some(info) => prehashed_task(info.url, target, info.sha1),
        None => etag_task(legacy_jar_url(version_text(manifest.id)), target),
    }
}

/// The task for the archive of the version of `local_version`.
pub fn get_jar_downloadable(game_dir: &str, local_version: &VersionManifest) -> (task: Downloadable)
    ensures
        task@ == jar_task(game_dir@, local_version@),
{
    let jar = crate::manifest::version_jar_path(game_dir, &local_version.id);
    match local_version.get_download_url(DownloadType::Client) {
        Some(info) => Downloadable::PreHashed(
            PreHashedDownloadable::new(info.url.as_str(), jar.as_str(), false, info.sha1),
        ),
        None => {
            let id = local_version.id.to_string();
            let mut out: Vec<char> = to_chars(
                "https://s3.amazonaws.com/Minecraft.Download/versions/",
            );
            push_str(&mut out, id.as_str());
            out.push('/');
            push_str(&mut out, id.as_str());
            push_str(&mut out, ".jar");
            assert(out@ =~= legacy_jar_url(version_text(local_version@.id)));
            let url = from_chars(out.as_slice());
            Downloadable::Etag(EtagDownloadable::new(url.as_str(), jar.as_str(), false))
        },
    }
}

/// The task for a library on `os`, if it has one there.
///
/// A library of natives that has nothing for `os` has none. A library with
/// a server of its own is fetched from there, with the published checksum;
/// it has no task where the address of the server is no URL. A library
/// without a list of downloads is fetched from the default server, with the
/// published checksum. Any other library is fetched as its list of
/// downloads says, with the checksum given there, and has no task where
/// the list has nothing for it.
pub open spec fn library_task(
    library: LibraryView,
    game_dir: Seq<char>,
    os: OperatingSystem,
    force_download: bool,
) -> Option<DownloadableView> {
    match artifact_classifier(library, os) {
        None => None,
        Some(classifier) => {
            let path = artifact_path(classified(library.name, classifier));
            let target = game_dir + "/libraries"@ + seq!['/'] + path;
            match library.url {
                Some(server) => match located(server, path) {
                    Some(url) => Some(checksummed_task(url, target, force_download)),
                    None => None,
                },
                None => if library.downloads is None {
                    Some(
                        checksummed_task(
                            "https://libraries.minecraft.net/"@ + path,
                            target,
                            force_download,
                        ),
                    )
                } else {
                    match library_download(library, os) {
                        Some(info) => Some(prehashed_task(info.url, target, info.sha1)),
                        None => None,
                    }
                },
            }
        },
    }
}

impl Library {
    /// The task for the library on `os`, if it has one there.
    pub fn create_download(&self, game_dir: &str, os: &OperatingSystem, force_download: bool) -> (task:
        Option<Downloadable>)
        ensures
            view_opt(task) == library_task(self@, game_dir@, *os, force_download),
    {
        let classifier = match self.get_artifact_classifier(os) {
            Some(classifier) => classifier,
            None => {
                return None;
            },
        };
        let path = self.get_artifact_path(classifier);
        let mut out: Vec<char> = to_chars(game_dir);
        push_str(&mut out, "/libraries");
        out.push('/');
        push_str(&mut out, path.as_str());
        let target = from_chars(out.as_slice());
        assert(target@ =~= game_dir@ + "/libraries"@ + seq!['/'] + path@);
        if let Some(server) = &self.url {
            return match locate(server.as_str(), path.as_str()) {
                Some(url) => Some(
                    Downloadable::Checksummed(
                        ChecksummedDownloadable::new(url.as_str(), target.as_str(), force_download),
                    ),
                ),
                None => None,
            };
        }
        if self.downloads.is_none() {
            let mut out: Vec<char> = to_chars("https://libraries.minecraft.net/");
            push_str(&mut out, path.as_str());
            let url = from_chars(out.as_slice());
            return Some(
                Downloadable::Checksummed(
                    ChecksummedDownloadable::new(url.as_str(), target.as_str(), force_download),
                ),
            );
        }
        match self.get_download_info(os) {
            Some(info) => Some(
                Downloadable::PreHashed(
                    PreHashedDownloadable::new(info.url.as_str(), target.as_str(), false, info.sha1),
                ),
            ),
            None => None,
        }
    }
}

/// The task for `lib` on `os`, if it has one there.
pub fn create_lib_downloadable(
    lib: &Library,
    game_dir: &str,
    os: &OperatingSystem,
    force_download: bool,
) -> (task: Option<Downloadable>)
    ensures
        view_opt(task) == library_task(lib@, game_dir@, *os, force_download),
{
    lib.create_download(game_dir, os, force_download)
}

/// Whether one of the tasks fills `file`.
pub open spec fn fills(tasks: Seq<DownloadableView>, file: Seq<char>) -> bool {
    exists|i: int| 0 <= i < tasks.len() && (#[trigger] tasks[i]).target_file() == file
}

/// Whether no two of the tasks fill the same file.
pub open spec fn distinct_files(tasks: Seq<DownloadableView>) -> bool {
    forall|k: int, l: int|
        0 <= k < l < tasks.len() ==> (#[trigger] tasks[k]).target_file()
            != (#[trigger] tasks[l]).target_file()
}

/// The tasks with `task` after them, unless one of them fills its file
/// already.
pub open spec fn with_task(tasks: Seq<DownloadableView>, task: DownloadableView) -> Seq<
    DownloadableView,
> {
    if fills(tasks, task.target_file()) {
        tasks
    } else {
        tasks.push(task)
    }
}

/// Adding a task fills its file and no file twice: tasks that filled
/// distinct files still do, every file that was filled is filled still,
/// and so is the file of the task.
pub proof fn lemma_with_task(tasks: Seq<DownloadableView>, task: DownloadableView)
    ensures
        distinct_files(tasks) ==> distinct_files(with_task(tasks, task)),
        fills(with_task(tasks, task), task.target_file()),
        forall|file: Seq<char>| fills(tasks, file) ==> fills(with_task(tasks, task), file),
        forall|file: Seq<char>|
            fills(with_task(tasks, task), file) ==> fills(tasks, file) || file
                == task.target_file(),
{
    let all = with_task(tasks, task);
    if fills(tasks, task.target_file()) {
    } else {
        assert(all[tasks.len() as int] == task);
        assert forall|file: Seq<char>| fills(tasks, file) implies fills(all, file) by {
            let i = choose|i: int| 0 <= i < tasks.len() && (#[trigger] tasks[i]).target_file() == file;
            assert(all[i] == tasks[i]);
        }
        assert forall|file: Seq<char>| fills(all, file) implies fills(tasks, file) || file
            == task.target_file() by {
            let i = choose|i: int| 0 <= i < all.len() && (#[trigger] all[i]).target_file() == file;
            if i < tasks.len() {
                assert(tasks[i] == all[i]);
            }
        }
        if distinct_files(tasks) {
            assert forall|k: int, l: int| 0 <= k < l < all.len() implies (#[trigger] all[k]).target_file()
                != (#[trigger] all[l]).target_file() by {
                assert(all[k] == tasks[k]);
                if l < tasks.len() {
                    assert(all[l] == tasks[l]);
                }
            }
        }
    }
}

/// Puts `task` after the tasks, unless one of them fills its file already.
pub fn add_task(tasks: &mut Vec<Downloadable>, task: Downloadable)
    ensures
        view_seq(final(tasks)@) == with_task(view_seq(old(tasks)@), task@),
{
    let ghost before = view_seq(tasks@);
    let mut i: usize = 0;
    while i < tasks.len()
        invariant
            i <= tasks.len(),
            tasks@ == old(tasks)@,
            before == view_seq(tasks@),
            forall|j: int| 0 <= j < i ==> (#[trigger] before[j]).target_file() != task@.target_file(),
        decreases tasks.len() - i,
    {
        assert(before[i as int] == tasks@[i as int]@);
        if str_eq(tasks[i].get_target_file().as_str(), task.get_target_file().as_str()) {
            assert(fills(before, task@.target_file()));
            return ;
        }
        i += 1;
    }
    proof {
        lemma_view_seq_push(tasks@, task);
    }
    tasks.push(task);
}

/// The tasks of the given libraries on `os`, in order; a library whose
/// file an earlier one fills has none.
pub open spec fn library_tasks(
    libraries: Seq<LibraryView>,
    game_dir: Seq<char>,
    os: OperatingSystem,
    force_download: bool,
) -> Seq<DownloadableView>
    decreases libraries.len(),
{
    if libraries.len() == 0 {
        Seq::<DownloadableView>::empty()
    } else {
        match library_task(libraries.last(), game_dir, os, force_download) {
            Some(task) => with_task(
                library_tasks(libraries.drop_last(), game_dir, os, force_download),
                task,
            ),
            None => library_tasks(libraries.drop_last(), game_dir, os, force_download),
        }
    }
}

/// No two tasks for libraries fill the same file, whatever the libraries
/// are.
pub proof fn lemma_library_tasks_fill_distinct_files(
    libraries: Seq<LibraryView>,
    game_dir: Seq<char>,
    os: OperatingSystem,
    force_download: bool,
)
    ensures
        distinct_files(library_tasks(libraries, game_dir, os, force_download)),
    decreases libraries.len(),
{
    if libraries.len() > 0 {
        lemma_library_tasks_fill_distinct_files(libraries.drop_last(), game_dir, os, force_download);
        match library_task(libraries.last(), game_dir, os, force_download) {
            Some(task) => {
                lemma_with_task(
                    library_tasks(libraries.drop_last(), game_dir, os, force_download),
                    task,
                );
            },
            None => {},
        }
    }
}

/// Every library that has a task has its file filled by one of the tasks
/// for the libraries.
pub proof fn lemma_library_tasks_fill_every_file(
    libraries: Seq<LibraryView>,
    game_dir: Seq<char>,
    os: OperatingSystem,
    force_download: bool,
    index: int,
)
    requires
        0 <= index < libraries.len(),
        library_task(libraries[index], game_dir, os, force_download) is Some,
    ensures
        fills(
            library_tasks(libraries, game_dir, os, force_download),
            library_task(libraries[index], game_dir, os, force_download)->0.target_file(),
        ),
    decreases libraries.len(),
{
    let rest = libraries.drop_last();
    let earlier = library_tasks(rest, game_dir, os, force_download);
    if index < libraries.len() - 1 {
        assert(rest[index] == libraries[index]);
        lemma_library_tasks_fill_every_file(rest, game_dir, os, force_download, index);
        match library_task(libraries.last(), game_dir, os, force_download) {
            Some(task) => {
                lemma_with_task(earlier, task);
            },
            None => {},
        }
    } else {
        lemma_with_task(earlier, library_task(libraries.last(), game_dir, os, force_download)->0);
    }
}

/// The tasks of a version: those for the libraries that apply, then the
/// one for its archive, unless a library fills that file.
pub open spec fn version_tasks<M: FeatureMatcher>(
    manifest: ManifestView,
    game_dir: Seq<char>,
    matcher: &M,
    platform: PlatformView,
) -> Seq<DownloadableView> {
    with_task(
        library_tasks(
            relevant_libraries(manifest.libraries, matcher, platform),
            game_dir,
            platform.os,
            false,
        ),
        jar_task(game_dir, manifest),
    )
}

/// No two tasks of a version fill the same file.
pub proof fn lemma_version_tasks_fill_distinct_files<M: FeatureMatcher>(
    manifest: ManifestView,
    game_dir: Seq<char>,
    matcher: &M,
    platform: PlatformView,
)
    ensures
        distinct_files(version_tasks(manifest, game_dir, matcher, platform)),
{
    let libraries = relevant_libraries(manifest.libraries, matcher, platform);
    lemma_library_tasks_fill_distinct_files(libraries, game_dir, platform.os, false);
    lemma_with_task(
        library_tasks(libraries, game_dir, platform.os, false),
        jar_task(game_dir, manifest),
    );
}

impl VersionManifest {
    /// The tasks for the libraries that apply, on `os`.
    pub fn get_required_downloadables<M: FeatureMatcher>(
        &self,
        os: &OperatingSystem,
        mc_dir: &str,
        force_download: bool,
        matcher: &M,
        platform: &Platform,
    ) -> (tasks: Vec<Downloadable>)
        ensures
            view_seq(tasks@) == library_tasks(
                relevant_libraries(self@.libraries, matcher, platform@),
                mc_dir@,
                *os,
                force_download,
            ),
    {
        let libraries = self.get_relevant_libraries(matcher, platform);
        let ghost relevant = relevant_libraries(self@.libraries, matcher, platform@);
        let mut tasks: Vec<Downloadable> = Vec::new();
        let mut i: usize = 0;
        while i < libraries.len()
            invariant
                i <= libraries.len(),
                libraries@.map_values(|library: &Library| library@) == relevant,
                view_seq(tasks@) == library_tasks(
                    relevant.take(i as int),
                    mc_dir@,
                    *os,
                    force_download,
                ),
            decreases libraries.len() - i,
        {
            let library = libraries[i];
            assert(relevant[i as int] == library@);
            assert(relevant.take(i + 1).drop_last() =~= relevant.take(i as int));
            assert(relevant.take(i + 1).last() == library@);
            if let Some(task) = library.create_download(mc_dir, os, force_download) {
                add_task(&mut tasks, task);
            }
            i += 1;
        }
        assert(relevant.take(relevant.len() as int) =~= relevant);
        tasks
    }
}

/// The tasks for the libraries of `local_version` that apply, on `os` or,
/// where none is given, on the system of `platform`.
pub fn get_library_downloadables<M: FeatureMatcher>(
    game_dir: &str,
    local_version: &VersionManifest,
    matcher: &M,
    platform: &Platform,
    os: Option<OperatingSystem>,
) -> (tasks: Vec<Downloadable>)
    ensures
        view_seq(tasks@) == library_tasks(
            relevant_libraries(local_version@.libraries, matcher, platform@),
            game_dir@,
            match os {
                Some(os) => os,
                None => platform@.os,
            },
            false,
        ),
{
    let os = match os {
        Some(os) => os,
        None => platform.os,
    };
    local_version.get_required_downloadables(&os, game_dir, false, matcher, platform)
}

/// The server that holds the resource objects.
pub open spec fn resources_url() -> Seq<char> {
    "https://resources.download.minecraft.net/"@
}

/// The tasks for the given entries of an asset index, in order; an entry
/// for which no URL can be made has none.
pub open spec fn asset_tasks(entries: Seq<AssetEntryView>, objects_dir: Seq<char>) -> Seq<
    DownloadableView,
>
    decreases entries.len(),
{
    if entries.len() == 0 {
        Seq::<DownloadableView>::empty()
    } else {
        match asset_task_for(
            entries.last().name,
            entries.last().object,
            resources_url(),
            objects_dir,
        ) {
            Some(task) => asset_tasks(entries.drop_last(), objects_dir).push(
                DownloadableView::Asset(task),
            ),
            None => asset_tasks(entries.drop_last(), objects_dir),
        }
    }
}

/// There are no more tasks than entries.
pub proof fn lemma_asset_tasks_len(entries: Seq<AssetEntryView>, objects_dir: Seq<char>)
    ensures
        asset_tasks(entries, objects_dir).len() <= entries.len(),
    decreases entries.len(),
{
    if entries.len() > 0 {
        lemma_asset_tasks_len(entries.drop_last(), objects_dir);
    }
}

/// Where the object with the checksum `hash` is kept below `objects_dir`.
pub open spec fn object_file(objects_dir: Seq<char>, hash: Seq<u8>) -> Seq<char> {
    objects_dir + seq!['/'] + object_path(hash)
}

/// Objects with different checksums are kept in different files.
pub proof fn lemma_object_files_differ(objects_dir: Seq<char>, a: Seq<u8>, b: Seq<u8>)
    requires
        a.len() == 20,
        b.len() == 20,
        object_file(objects_dir, a) == object_file(objects_dir, b),
    ensures
        a == b,
{
    let skip = objects_dir.len() + 1;
    assert(object_file(objects_dir, a).skip(skip as int) =~= object_path(a));
    assert(object_file(objects_dir, b).skip(skip as int) =~= object_path(b));
    assert(object_path(a).skip(3) =~= hex_encoded(a));
    assert(object_path(b).skip(3) =~= hex_encoded(b));
    lemma_hex_is_injective(a, b);
}

/// Whether no two of the entries have the same checksum, and every
/// checksum is twenty bytes long.
pub open spec fn distinct_objects(entries: Seq<AssetEntryView>) -> bool {
    &&& forall|i: int| 0 <= i < entries.len() ==> (#[trigger] entries[i]).object.hash.len() == 20
    &&& forall|i: int, j: int|
        0 <= i < j < entries.len() ==> (#[trigger] entries[i]).object.hash
            != (#[trigger] entries[j]).object.hash
}

/// No two tasks for distinct objects fill the same file: each task fills
/// the file of one of the objects, and no file is filled twice.
pub proof fn lemma_asset_tasks_fill_distinct_files(
    entries: Seq<AssetEntryView>,
    objects_dir: Seq<char>,
)
    requires
        distinct_objects(entries),
    ensures
        forall|k: int|
            0 <= k < asset_tasks(entries, objects_dir).len() ==> exists|i: int|
                0 <= i < entries.len() && (#[trigger] asset_tasks(
                    entries,
                    objects_dir,
                )[k]).target_file() == object_file(objects_dir, entries[i].object.hash),
        forall|k: int, l: int|
            0 <= k < l < asset_tasks(entries, objects_dir).len() ==> (#[trigger] asset_tasks(
                entries,
                objects_dir,
            )[k]).target_file() != (#[trigger] asset_tasks(entries, objects_dir)[l]).target_file(),
    decreases entries.len(),
{
    if entries.len() > 0 {
        let rest = entries.drop_last();
        let last = entries.last();
        assert forall|i: int, j: int| 0 <= i < j < rest.len() implies (#[trigger] rest[i]).object.hash
            != (#[trigger] rest[j]).object.hash by {
            assert(rest[i] == entries[i]);
            assert(rest[j] == entries[j]);
        }
        assert forall|i: int| 0 <= i < rest.len() implies (#[trigger] rest[i]).object.hash.len()
            == 20 by {
            assert(rest[i] == entries[i]);
        }
        lemma_asset_tasks_fill_distinct_files(rest, objects_dir);
        let earlier = asset_tasks(rest, objects_dir);
        let all = asset_tasks(entries, objects_dir);
        assert forall|k: int| 0 <= k < all.len() implies exists|i: int|
            0 <= i < entries.len() && (#[trigger] all[k]).target_file() == object_file(
                objects_dir,
                entries[i].object.hash,
            ) by {
            if k < earlier.len() {
                assert(all[k] == earlier[k]);
                let i = choose|i: int|
                    0 <= i < rest.len() && earlier[k].target_file() == object_file(
                        objects_dir,
                        rest[i].object.hash,
                    );
                assert(entries[i] == rest[i]);
            } else {
                assert(entries[entries.len() - 1] == last);
            }
        }
        assert forall|k: int, l: int| 0 <= k < l < all.len() implies (#[trigger] all[k]).target_file()
            != (#[trigger] all[l]).target_file() by {
            if l < earlier.len() {
                assert(all[k] == earlier[k]);
                assert(all[l] == earlier[l]);
            } else {
                assert(all[k] == earlier[k]);
                let i = choose|i: int|
                    0 <= i < rest.len() && earlier[k].target_file() == object_file(
                        objects_dir,
                        rest[i].object.hash,
                    );
                assert(rest[i] == entries[i]);
                assert(entries[entries.len() - 1] == last);
                if all[l].target_file() == all[k].target_file() {
                    lemma_object_files_differ(objects_dir, rest[i].object.hash, last.object.hash);
                }
            }
        }
    }
}

/// Whether the bytes of an asset index are those that the manifest
/// announces.
pub fn index_matches(bytes: &[u8], index_info: &AssetIndexInfo) -> (matches: bool)
    ensures
        matches == (sha1_digest(bytes@) == index_info@.sha1),
{
    Sha1Sum::from_reader(bytes) == index_info.sha1
}

/// The tasks for the objects of an asset index, kept below
/// `game_dir/assets/objects`: one for each checksum, under the first name
/// that has it.
pub fn get_asset_downloadables(game_dir: &str, asset_index: &AssetIndex) -> (tasks: Vec<Downloadable>)
    ensures
        view_seq(tasks@) == asset_tasks(
            unique_objects(asset_index@.objects),
            game_dir@ + "/assets/objects"@,
        ),
{
    let mut out: Vec<char> = to_chars(game_dir);
    push_str(&mut out, "/assets/objects");
    let objects_dir = from_chars(out.as_slice());
    let unique = asset_index.get_unique_objects();
    let ghost entries = unique_objects(asset_index@.objects);
    let mut tasks: Vec<Downloadable> = Vec::new();
    let mut i: usize = 0;
    while i < unique.len()
        invariant
            i <= unique.len(),
            objects_dir@ == game_dir@ + "/assets/objects"@,
            unique@.len() == entries.len(),
            forall|k: int|
                0 <= k < unique@.len() ==> (#[trigger] unique@[k]).0@ == entries[k].object
                    && unique@[k].1@ == entries[k].name,
            view_seq(tasks@) == asset_tasks(entries.take(i as int), objects_dir@),
        decreases unique.len() - i,
    {
        let (object, name) = unique[i];
        assert(entries.take(i + 1).drop_last() =~= entries.take(i as int));
        assert(entries.take(i + 1).last() == entries[i as int]);
        if let Some(task) = AssetDownloadable::try_new(
            name.as_str(),
            object,
            "https://resources.download.minecraft.net/",
            objects_dir.as_str(),
        ) {
            let task = Downloadable::Asset(task);
            proof {
                lemma_view_seq_push(tasks@, task);
            }
            tasks.push(task);
        }
        i += 1;
    }
    assert(entries.take(entries.len() as int) =~= entries);
    tasks
}

/// What sets up the jobs that fetch a version.
#[derive(Debug)]
pub struct ClientDownloader {
    pub concurrent_downloads: usize,
    pub max_download_attempts: usize,
    pub reporter: ProgressReporter,
}

/// The low sixteen bits of a count.
pub open spec fn low16(count: usize) -> u16 {
    (count as int % 0x1_0000) as u16
}

/// The low eight bits of a count.
pub open spec fn low8(count: usize) -> u8 {
    (count as int % 0x100) as u8
}

impl ClientDownloader {
    /// A downloader that runs `parallel_downloads` tasks at once and gives
    /// each `max_download_attempts` attempts.
    pub fn new(parallel_downloads: usize, max_download_attempts: usize, reporter: ProgressReporter) -> (downloader:
        Self)
        ensures
            downloader.concurrent_downloads == parallel_downloads,
            downloader.max_download_attempts == max_download_attempts,
            downloader.reporter@ == reporter@,
    {
        ClientDownloader { concurrent_downloads: parallel_downloads, max_download_attempts, reporter }
    }

    /// A job named `name` without tasks, set up as the downloader is; the
    /// two counts are cut to the sixteen and eight bits that a job has for
    /// them.
    pub fn create_download_job(&self, name: &str) -> (job: DownloadJob)
        ensures
            job@ == (JobView {
                name: name@,
                slots: Seq::<SlotView>::empty(),
                ignore_failures: false,
                concurrent_downloads: low16(self.concurrent_downloads),
                max_download_attempts: low8(self.max_download_attempts),
                reported: self.reporter@,
                started_at: None,
            }),
    {
        let workers: u16 = ((self.concurrent_downloads as u64) % 0x1_0000) as u16;
        let attempts: u8 = ((self.max_download_attempts as u64) % 0x100) as u8;
        DownloadJob::new(name).ignore_failures(false).concurrent_downloads(
            workers,
        ).max_download_attempts(attempts).with_progress_reporter(self.reporter.clone())
    }

    /// The job that fetches the libraries that apply and the archive of a
    /// version.
    pub fn version_job<M: FeatureMatcher>(
        &self,
        game_dir: &str,
        local_version: &VersionManifest,
        matcher: &M,
        platform: &Platform,
    ) -> (job: DownloadJob)
        ensures
            job@ == (JobView {
                name: "Version & Libraries"@,
                slots: pending_slots(
                    version_tasks(local_version@, game_dir@, matcher, platform@),
                ),
                ignore_failures: false,
                concurrent_downloads: low16(self.concurrent_downloads),
                max_download_attempts: low8(self.max_download_attempts),
                reported: self.reporter@,
                started_at: None,
            }),
    {
        let mut tasks = get_library_downloadables(game_dir, local_version, matcher, platform, None);
        add_task(&mut tasks, get_jar_downloadable(game_dir, local_version));
        let job = self.create_download_job("Version & Libraries").add_downloadables(tasks);
        assert(job@.slots =~= pending_slots(
            version_tasks(local_version@, game_dir@, matcher, platform@),
        ));
        job
    }

    /// The job that fetches the objects of an asset index.
    pub fn assets_job(&self, game_dir: &str, asset_index: &AssetIndex) -> (job: DownloadJob)
        ensures
            job@ == (JobView {
                name: "Resources"@,
                slots: pending_slots(
                    asset_tasks(
                        unique_objects(asset_index@.objects),
                        game_dir@ + "/assets/objects"@,
                    ),
                ),
                ignore_failures: false,
                concurrent_downloads: low16(self.concurrent_downloads),
                max_download_attempts: low8(self.max_download_attempts),
                reported: self.reporter@,
                started_at: None,
            }),
    {
        let tasks = get_asset_downloadables(game_dir, asset_index);
        let job = self.create_download_job("Resources").add_downloadables(tasks);
        assert(job@.slots =~= pending_slots(
            asset_tasks(unique_objects(asset_index@.objects), game_dir@ + "/assets/objects"@),
        ));
        job
    }
}

} // verus!
