//! Library descriptors of a manifest.

use vstd::prelude::*;
use crate::artifact::{artifact_path, classified, Artifact, ArtifactView};
use crate::checksum::Sha1Sum;
use crate::model::{clone_opt_string, clone_strings, lemma_view_seq_eq, view_opt, view_seq};
use crate::rule::{
    evaluate, evaluation, FeatureMatcher, OperatingSystem, Platform, PlatformView, Rule,
    RuleAction, RuleView,
};
use crate::text::{same_chars, split, split_chars, to_chars};

verus! {

/// The kinds of download that a manifest can list.
#[derive(Debug, Clone, Copy, PartialEq, Eq, Hash, Structural)]
pub enum DownloadType {
    Client,
    Server,
    WindowsServer,
    ClientMappings,
    ServerMappings,
}

/// Where a file is, how large it is, and its checksum.
#[derive(Debug)]
pub struct DownloadInfo {
    pub sha1: Sha1Sum,
    pub size: i64,
    pub url: String,
}

/// The mathematical value of a [`DownloadInfo`].
pub struct DownloadInfoView {
    pub sha1: Seq<u8>,
    pub size: int,
    pub url: Seq<char>,
}

impl View for DownloadInfo {
    type V = DownloadInfoView;

    open spec fn view(&self) -> DownloadInfoView {
        DownloadInfoView { sha1: self.sha1@, size: self.size as int, url: self.url@ }
    }
}

impl Clone for DownloadInfo {
    fn clone(&self) -> (out: Self)
        ensures
            out@ == self@,
    {
        DownloadInfo { sha1: self.sha1, size: self.size, url: self.url.clone() }
    }
}

/// The download of one classifier of a library.
#[derive(Debug)]
pub struct ClassifierDownload {
    pub classifier: String,
    pub info: DownloadInfo,
}

/// The mathematical value of a [`ClassifierDownload`].
pub struct ClassifierDownloadView {
    pub classifier: Seq<char>,
    pub info: DownloadInfoView,
}

impl View for ClassifierDownload {
    type V = ClassifierDownloadView;

    open spec fn view(&self) -> ClassifierDownloadView {
        ClassifierDownloadView { classifier: self.classifier@, info: self.info@ }
    }
}

impl Clone for ClassifierDownload {
    fn clone(&self) -> (out: Self)
        ensures
            out@ == self@,
    {
        ClassifierDownload { classifier: self.classifier.clone(), info: self.info.clone() }
    }
}

/// The downloads of a library: the common artifact, and one for each
/// classifier.
#[derive(Debug)]
pub struct LibraryDownloadInfo {
    pub artifact: DownloadInfo,
    pub classifiers: Vec<ClassifierDownload>,
}

/// The mathematical value of a [`LibraryDownloadInfo`].
pub struct LibraryDownloadInfoView {
    pub artifact: DownloadInfoView,
    pub classifiers: Seq<ClassifierDownloadView>,
}

impl View for LibraryDownloadInfo {
    type V = LibraryDownloadInfoView;

    open spec fn view(&self) -> LibraryDownloadInfoView {
        LibraryDownloadInfoView {
            artifact: self.artifact@,
            classifiers: view_seq(self.classifiers@),
        }
    }
}

impl Clone for LibraryDownloadInfo {
    fn clone(&self) -> (out: Self)
        ensures
            out@ == self@,
    {
        let classifiers = self.classifiers.clone();
        proof {
            lemma_view_seq_eq(classifiers@, self.classifiers@);
        }
        LibraryDownloadInfo { artifact: self.artifact.clone(), classifiers }
    }
}

/// The download of the first entry for `classifier`.
pub open spec fn classifier_download(
    classifiers: Seq<ClassifierDownloadView>,
    classifier: Seq<char>,
) -> Option<DownloadInfoView>
    decreases classifiers.len(),
{
    if classifiers.len() == 0 {
        None
    } else if classifiers[0].classifier == classifier {
        Some(classifiers[0].info)
    } else {
        classifier_download(classifiers.skip(1), classifier)
    }
}

/// The download for a classifier, or of the common artifact where none is
/// asked for.
pub open spec fn download_for(
    downloads: LibraryDownloadInfoView,
    classifier: Option<Seq<char>>,
) -> Option<DownloadInfoView> {
    match classifier {
        Some(c) => classifier_download(downloads.classifiers, c),
        None => Some(downloads.artifact),
    }
}

impl LibraryDownloadInfo {
    /// The download for `classifier`, or of the common artifact where none
    /// is asked for.
    pub fn get_download_info(&self, classifier: Option<&str>) -> (info: Option<DownloadInfo>)
        ensures
            view_opt(info) == download_for(self@, view_opt(classifier)),
    {
        match classifier {
            Some(wanted) => {
                let key = to_chars(wanted);
                let mut i: usize = 0;
                assert(view_seq(self.classifiers@).skip(0) =~= view_seq(self.classifiers@));
                while i < self.classifiers.len()
                    invariant
                        i <= self.classifiers.len(),
                        key@ == wanted@,
                        classifier == Some(wanted),
                        classifier_download(view_seq(self.classifiers@), wanted@)
                            == classifier_download(
                            view_seq(self.classifiers@).skip(i as int),
                            wanted@,
                        ),
                    decreases self.classifiers.len() - i,
                {
                    let ghost rest = view_seq(self.classifiers@).skip(i as int);
                    assert(rest[0] == self.classifiers@[i as int]@);
                    assert(rest.skip(1) =~= view_seq(self.classifiers@).skip(i + 1));
                    let entry = &self.classifiers[i];
                    let name = to_chars(entry.classifier.as_str());
                    if same_chars(&name, &key) {
                        let found = entry.info.clone();
                        assert(classifier_download(rest, wanted@) == Some(found@));
                        return Some(found);
                    }
                    i += 1;
                }
                None
            },
            None => Some(self.artifact.clone()),
        }
    }
}

/// What is left out when a native archive is unpacked.
#[derive(Debug)]
pub struct ExtractRules {
    pub exclude: Vec<String>,
}

impl View for ExtractRules {
    type V = Seq<Seq<char>>;

    open spec fn view(&self) -> Seq<Seq<char>> {
        view_seq(self.exclude@)
    }
}

impl Clone for ExtractRules {
    fn clone(&self) -> (out: Self)
        ensures
            out@ == self@,
    {
        ExtractRules { exclude: clone_strings(&self.exclude) }
    }
}

/// The pieces that are not empty, in order.
pub open spec fn non_empty(pieces: Seq<Seq<char>>) -> Seq<Seq<char>>
    decreases pieces.len(),
{
    if pieces.len() == 0 {
        pieces
    } else if pieces.last().len() > 0 {
        non_empty(pieces.drop_last()).push(pieces.last())
    } else {
        non_empty(pieces.drop_last())
    }
}

/// The components of a path written with slashes.
pub open spec fn components(path: Seq<char>) -> Seq<Seq<char>> {
    non_empty(split(path, '/'))
}

/// Whether the components of `prefix` are the first components of `path`.
pub open spec fn path_starts_with(path: Seq<char>, prefix: Seq<char>) -> bool {
    components(prefix).is_prefix_of(components(path))
}

/// Whether an entry is unpacked: none of the excluded paths is a prefix of
/// its path, component by component.
pub open spec fn extracted(exclude: Seq<Seq<char>>, path: Seq<char>) -> bool {
    forall|i: int| 0 <= i < exclude.len() ==> !path_starts_with(path, #[trigger] exclude[i])
}

/// The components of a path written with slashes.
pub fn path_components(path: &str) -> (parts: Vec<Vec<char>>)
    ensures
        parts@.len() == components(path@).len(),
        forall|i: int| 0 <= i < parts@.len() ==> (#[trigger] parts@[i])@ == components(path@)[i],
{
    let chars = to_chars(path);
    let pieces = split_chars(&chars, '/');
    let ghost all = split(path@, '/');
    let mut parts: Vec<Vec<char>> = Vec::new();
    let mut i: usize = 0;
    while i < pieces.len()
        invariant
            i <= pieces.len(),
            all == split(path@, '/'),
            pieces@.len() == all.len(),
            forall|k: int| 0 <= k < pieces@.len() ==> (#[trigger] pieces@[k])@ == all[k],
            parts@.len() == non_empty(all.take(i as int)).len(),
            forall|k: int|
                0 <= k < parts@.len() ==> (#[trigger] parts@[k])@ == non_empty(
                    all.take(i as int),
                )[k],
        decreases pieces.len() - i,
    {
        assert(all.take(i + 1).drop_last() =~= all.take(i as int));
        assert(all.take(i + 1).last() == all[i as int]);
        if pieces[i].len() > 0 {
            parts.push(pieces[i].clone());
        }
        i += 1;
    }
    assert(all.take(all.len() as int) =~= all);
    parts
}

impl ExtractRules {
    /// Whether the archive entry at `zip_path` is unpacked.
    pub fn should_extract(&self, zip_path: &str) -> (extract: bool)
        ensures
            extract == extracted(self@, zip_path@),
    {
        let path = path_components(zip_path);
        let mut i: usize = 0;
        while i < self.exclude.len()
            invariant
                i <= self.exclude.len(),
                path@.len() == components(zip_path@).len(),
                forall|k: int|
                    0 <= k < path@.len() ==> (#[trigger] path@[k])@ == components(zip_path@)[k],
                forall|k: int| 0 <= k < i ==> !path_starts_with(zip_path@, #[trigger] self@[k]),
            decreases self.exclude.len() - i,
        {
            let prefix = path_components(self.exclude[i].as_str());
            assert(self@[i as int] == self.exclude@[i as int]@);
            let ghost want = components(self@[i as int]);
            let ghost have = components(zip_path@);
            if prefix.len() <= path.len() {
                let mut k: usize = 0;
                let mut same = true;
                while k < prefix.len()
                    invariant_except_break
                        same,
                        forall|j: int| 0 <= j < k ==> want[j] == have[j],
                    invariant
                        k <= prefix.len() <= path.len(),
                        prefix@.len() == want.len(),
                        path@.len() == have.len(),
                        forall|j: int| 0 <= j < prefix@.len() ==> (#[trigger] prefix@[j])@ == want[j],
                        forall|j: int| 0 <= j < path@.len() ==> (#[trigger] path@[j])@ == have[j],
                    ensures
                        same ==> forall|j: int| 0 <= j < want.len() ==> want[j] == have[j],
                        !same ==> exists|j: int| 0 <= j < want.len() && want[j] != have[j],
                    decreases prefix.len() - k,
                {
                    if !same_chars(&prefix[k], &path[k]) {
                        assert(want[k as int] != have[k as int]);
                        same = false;
                        break;
                    }
                    k += 1;
                }
                if same {
                    assert(want =~= have.subrange(0, want.len() as int));
                    return false;
                }
            }
            i += 1;
        }
        true
    }
}

/// The classifier of the natives of a library for one operating system.
#[derive(Debug)]
pub struct NativeClassifier {
    pub os: OperatingSystem,
    pub classifier: String,
}

/// The mathematical value of a [`NativeClassifier`].
pub struct NativeClassifierView {
    pub os: OperatingSystem,
    pub classifier: Seq<char>,
}

impl View for NativeClassifier {
    type V = NativeClassifierView;

    open spec fn view(&self) -> NativeClassifierView {
        NativeClassifierView { os: self.os, classifier: self.classifier@ }
    }
}

impl Clone for NativeClassifier {
    fn clone(&self) -> (out: Self)
        ensures
            out@ == self@,
    {
        NativeClassifier { os: self.os, classifier: self.classifier.clone() }
    }
}

/// A library that a version needs.
#[derive(Debug)]
pub struct Library {
    pub name: Artifact,
    /// The rules that decide whether the library applies.
    pub rules: Vec<Rule>,
    /// For a library of natives, the classifier for each operating system.
    pub natives: Vec<NativeClassifier>,
    pub extract: Option<ExtractRules>,
    /// The server that holds the library, where it is not the default one.
    pub url: Option<String>,
    pub downloads: Option<LibraryDownloadInfo>,
}

/// The mathematical value of a [`Library`].
pub struct LibraryView {
    pub name: ArtifactView,
    pub rules: Seq<RuleView>,
    pub natives: Seq<NativeClassifierView>,
    pub extract: Option<Seq<Seq<char>>>,
    pub url: Option<Seq<char>>,
    pub downloads: Option<LibraryDownloadInfoView>,
}

impl View for Library {
    type V = LibraryView;

    open spec fn view(&self) -> LibraryView {
        LibraryView {
            name: self.name@,
            rules: view_seq(self.rules@),
            natives: view_seq(self.natives@),
            extract: view_opt(self.extract),
            url: view_opt(self.url),
            downloads: view_opt(self.downloads),
        }
    }
}

impl Clone for Library {
    fn clone(&self) -> (out: Self)
        ensures
            out@ == self@,
    {
        let rules = self.rules.clone();
        let natives = self.natives.clone();
        proof {
            lemma_view_seq_eq(rules@, self.rules@);
            lemma_view_seq_eq(natives@, self.natives@);
        }
        Library {
            name: self.name.clone(),
            rules,
            natives,
            extract: match &self.extract {
                Some(extract) => Some(extract.clone()),
                None => None,
            },
            url: clone_opt_string(&self.url),
            downloads: match &self.downloads {
                Some(downloads) => Some(downloads.clone()),
                None => None,
            },
        }
    }
}

/// The classifier of the first entry for `os`.
pub open spec fn native_classifier(natives: Seq<NativeClassifierView>, os: OperatingSystem) -> Option<
    Seq<char>,
>
    decreases natives.len(),
{
    if natives.len() == 0 {
        None
    } else if natives[0].os == os {
        Some(natives[0].classifier)
    } else {
        native_classifier(natives.skip(1), os)
    }
}

/// The classifier under which a library is fetched on `os`: none for a
/// library without natives, the one for `os` for a library of natives, and
/// no answer at all where a library of natives has nothing for `os`.
pub open spec fn artifact_classifier(library: LibraryView, os: OperatingSystem) -> Option<
    Option<Seq<char>>,
> {
    if library.natives.len() == 0 {
        Some(None)
    } else {
        match native_classifier(library.natives, os) {
            Some(classifier) => Some(Some(classifier)),
            None => None,
        }
    }
}

/// Whether a library applies: its rules are empty or decide `Allow`.
pub open spec fn library_applies<M: FeatureMatcher>(
    library: LibraryView,
    matcher: &M,
    platform: PlatformView,
) -> bool {
    evaluation(library.rules, matcher, platform) == RuleAction::Allow
}

/// The download of a library on `os`, from its list of downloads.
pub open spec fn library_download(library: LibraryView, os: OperatingSystem) -> Option<
    DownloadInfoView,
> {
    match artifact_classifier(library, os) {
        Some(classifier) => match library.downloads {
            Some(downloads) => download_for(downloads, classifier),
            None => None,
        },
        None => None,
    }
}

impl Library {
    /// Whether the library applies under the given features and platform.
    pub fn applies_to_current_environment<M: FeatureMatcher>(
        &self,
        matcher: &M,
        platform: &Platform,
    ) -> (applies: bool)
        ensures
            applies == library_applies(self@, matcher, platform@),
    {
        evaluate(&self.rules, matcher, platform) == RuleAction::Allow
    }

    /// The path of the library below the libraries directory, under
    /// `classifier` where one is given.
    pub fn get_artifact_path(&self, classifier: Option<&str>) -> (path: String)
        ensures
            path@ == artifact_path(classified(self@.name, view_opt(classifier))),
    {
        self.name.with_classifier(classifier).get_path_string()
    }

    /// The classifier under which the library is fetched on `os`.
    pub fn get_artifact_classifier(&self, os: &OperatingSystem) -> (classifier: Option<Option<&str>>)
        ensures
            match classifier {
                Some(Some(c)) => artifact_classifier(self@, *os) == Some(Some(c@)),
                Some(None) => artifact_classifier(self@, *os) == Some(None::<Seq<char>>),
                None => artifact_classifier(self@, *os) is None,
            },
    {
        if self.natives.len() == 0 {
            return Some(None);
        }
        let mut i: usize = 0;
        assert(self@.natives.skip(0) =~= self@.natives);
        while i < self.natives.len()
            invariant
                i <= self.natives.len(),
                native_classifier(self@.natives, *os) == native_classifier(
                    self@.natives.skip(i as int),
                    *os,
                ),
            decreases self.natives.len() - i,
        {
            let ghost rest = self@.natives.skip(i as int);
            assert(rest[0] == self.natives@[i as int]@);
            assert(rest.skip(1) =~= self@.natives.skip(i + 1));
            if self.natives[i].os == *os {
                return Some(Some(self.natives[i].classifier.as_str()));
            }
            i += 1;
        }
        None
    }

    /// The download of the library on `os`, from its list of downloads.
    pub fn get_download_info(&self, os: &OperatingSystem) -> (info: Option<DownloadInfo>)
        ensures
            view_opt(info) == library_download(self@, *os),
    {
        match self.get_artifact_classifier(os) {
            Some(classifier) => match &self.downloads {
                Some(downloads) => downloads.get_download_info(classifier),
                None => None,
            },
            None => None,
        }
    }
}

} // verus!
