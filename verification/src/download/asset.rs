//! A task for a resource object of an asset index.
//!
//! A local file of the expected size is used as it is. Otherwise the
//! compressed form of the object is preferred where it has one: a local
//! compressed copy with the right checksum is unpacked, or the compressed
//! form is fetched and unpacked. An object without a compressed form is
//! fetched as it is. Nothing is written that does not have the expected
//! checksum.

use vstd::prelude::*;
use crate::artifact::join_path;
use crate::assets::{object_path, AssetObject, AssetObjectView};
use crate::checksum::{sha1_digest, Sha1Sum};
use crate::download::prehashed::{bump, bumped, DEFAULT_TOTAL};
use crate::download::{
    announce, announced, unexpected, unexpected_event, Action, ActionView, DownloadableMonitor,
    Error, ErrorView, Event, EventView, MonitorView, Response,
};
use crate::model::view_opt;
use crate::progress::ProgressUpdateView;
use crate::text::{from_chars, push_str, to_chars};
use crate::url::{locate, located};
use std::io::Read;

verus! {

/// What a gzip stream unpacks to, as `libflate` decodes it; `None` where
/// the bytes are no such stream.
pub uninterp spec fn gzip_decoded(data: Seq<u8>) -> Option<Seq<u8>>;

/// `libflate::non_blocking::gzip::Decoder`, read to its end: the bytes
/// that the stream unpacks to, or `None` where decoding fails. The outcome
/// depends on the bytes alone.
#[verifier::external_body]
fn gunzip(data: &[u8]) -> (unpacked: Option<Vec<u8>>)
    ensures
        unpacked is Some <==> gzip_decoded(data@) is Some,
        unpacked is Some ==> Some(unpacked->0@) == gzip_decoded(data@),
{
    let mut decoder = libflate::non_blocking::gzip::Decoder::new(data);
    let mut out = Vec::new();
    match decoder.read_to_end(&mut out) {
        Ok(_) => Some(out),
        Err(_) => None,
    }
}

/// What a task for an asset is doing.
#[derive(Debug, Clone, Copy, PartialEq, Eq, Structural)]
pub enum AssetDownloadableStatus {
    Downloading,
    Extracting,
}

impl AssetDownloadableStatus {
    /// The word for the status.
    pub open spec fn word(self) -> Seq<char> {
        match self {
            AssetDownloadableStatus::Downloading => "Downloading"@,
            AssetDownloadableStatus::Extracting => "Extracting"@,
        }
    }

    /// The word for the status.
    pub fn as_str(&self) -> (word: &'static str)
        ensures
            word@ == self.word(),
    {
        match self {
            AssetDownloadableStatus::Downloading => "Downloading",
            AssetDownloadableStatus::Extracting => "Extracting",
        }
    }
}

/// Where an attempt of a task stands.
#[derive(Debug, Clone, Copy, PartialEq, Eq, Structural)]
pub enum AssetPhase {
    /// No attempt is under way.
    Idle,
    PreparingFolder,
    PreparingCompressedFolder,
    CheckingLocal,
    RemovingLocal,
    ReadingCompressed,
    RemovingCompressed,
    FetchingCompressed,
    WritingCompressed,
    FetchingRaw,
    WritingTarget,
}

/// Where the compressed form of an object is fetched from and kept.
#[derive(Debug)]
pub struct CompressedSource {
    pub url: String,
    pub target: String,
    pub hash: Sha1Sum,
}

/// The mathematical value of a [`CompressedSource`].
pub struct CompressedSourceView {
    pub url: Seq<char>,
    pub target: Seq<char>,
    pub hash: Seq<u8>,
}

impl View for CompressedSource {
    type V = CompressedSourceView;

    open spec fn view(&self) -> CompressedSourceView {
        CompressedSourceView { url: self.url@, target: self.target@, hash: self.hash@ }
    }
}

/// A task for a resource object.
#[derive(Debug)]
pub struct AssetDownloadable {
    pub url: String,
    pub target_file: String,
    pub force_download: bool,
    pub attempts: usize,
    pub start_time: Option<u64>,
    pub end_time: Option<u64>,
    pub name: String,
    pub status: AssetDownloadableStatus,
    pub asset: AssetObject,
    pub url_base: String,
    pub destination: String,
    pub monitor: DownloadableMonitor,
    /// The compressed form, where the object has one and its URL could be
    /// made.
    pub compressed: Option<CompressedSource>,
    /// Whether the object has a compressed form whose URL could not be
    /// made.
    pub url_error: bool,
    pub phase: AssetPhase,
    /// The unpacked object, while its compressed form is being written.
    pub pending: Option<Vec<u8>>,
}

/// The mathematical value of an [`AssetDownloadable`].
pub struct AssetView {
    pub url: Seq<char>,
    pub target_file: Seq<char>,
    pub force_download: bool,
    pub attempts: usize,
    pub start_time: Option<u64>,
    pub end_time: Option<u64>,
    pub name: Seq<char>,
    pub status: AssetDownloadableStatus,
    pub asset: AssetObjectView,
    pub url_base: Seq<char>,
    pub destination: Seq<char>,
    pub monitor: MonitorView,
    pub compressed: Option<CompressedSourceView>,
    pub url_error: bool,
    pub phase: AssetPhase,
    pub pending: Option<Seq<u8>>,
}

impl View for AssetDownloadable {
    type V = AssetView;

    open spec fn view(&self) -> AssetView {
        AssetView {
            url: self.url@,
            target_file: self.target_file@,
            force_download: self.force_download,
            attempts: self.attempts,
            start_time: self.start_time,
            end_time: self.end_time,
            name: self.name@,
            status: self.status,
            asset: self.asset@,
            url_base: self.url_base@,
            destination: self.destination@,
            monitor: self.monitor@,
            compressed: view_opt(self.compressed),
            url_error: self.url_error,
            phase: self.phase,
            pending: match self.pending {
                Some(data) => Some(data@),
                None => None,
            },
        }
    }
}

/// The failure of an attempt on a checksum that is not the expected one.
pub open spec fn mismatch(expected: Seq<u8>, actual: Seq<u8>) -> ActionView {
    ActionView::Finish(Err(ErrorView::ChecksumMismatch { expected, actual }))
}

/// What follows from the compressed form `bytes` of the object, once it
/// is known to have the right checksum: it is unpacked, and what it unpacks
/// to must have the checksum of the object. Where `fetched` says that the
/// compressed form has just come from the server, it is written first and
/// the unpacked object after it.
pub open spec fn unpacked(task: AssetView, bytes: Seq<u8>, fetched: bool) -> (AssetView, ActionView) {
    let extracting = AssetView {
        status: AssetDownloadableStatus::Extracting,
        phase: AssetPhase::Idle,
        ..task
    };
    match gzip_decoded(bytes) {
        None => (
            extracting,
            ActionView::Finish(Err(ErrorView::IoError("could not unpack the compressed asset"@))),
        ),
        Some(data) => if sha1_digest(data) != task.asset.hash {
            (extracting, mismatch(task.asset.hash, sha1_digest(data)))
        } else if fetched && task.compressed is Some {
            (
                AssetView { phase: AssetPhase::WritingCompressed, pending: Some(data), ..extracting },
                ActionView::WriteFile { path: task.compressed->0.target, data: bytes },
            )
        } else {
            (
                AssetView { phase: AssetPhase::WritingTarget, ..extracting },
                ActionView::WriteFile { path: task.target_file, data },
            )
        },
    }
}

/// What follows once no local file stands in the way: the compressed copy
/// is read where the object has a compressed form, and the object is
/// requested where it has none.
pub open spec fn after_local(task: AssetView) -> (AssetView, ActionView) {
    match task.compressed {
        Some(source) => (
            AssetView { phase: AssetPhase::ReadingCompressed, ..task },
            ActionView::ReadFile { path: source.target },
        ),
        None => (
            AssetView { phase: AssetPhase::FetchingRaw, ..task },
            ActionView::Get { url: task.url },
        ),
    }
}

/// What a task does on an event, and the task after it.
pub open spec fn asset_step(task: AssetView, event: EventView) -> (AssetView, ActionView) {
    let idle = AssetView { phase: AssetPhase::Idle, ..task };
    match (task.phase, event) {
        (AssetPhase::Idle, EventView::Begin) => {
            let begun = AssetView {
                attempts: bumped(task.attempts),
                status: AssetDownloadableStatus::Downloading,
                pending: None,
                ..task
            };
            if task.url_error {
                (begun, ActionView::Finish(Err(ErrorView::UrlParseError(task.url_base))))
            } else {
                (
                    AssetView { phase: AssetPhase::PreparingFolder, ..begun },
                    ActionView::PrepareFolder { file: task.target_file },
                )
            }
        },
        (AssetPhase::PreparingFolder, EventView::Done) => match task.compressed {
            Some(source) => (
                AssetView { phase: AssetPhase::PreparingCompressedFolder, ..task },
                ActionView::PrepareFolder { file: source.target },
            ),
            None => (
                AssetView { phase: AssetPhase::CheckingLocal, ..task },
                ActionView::StatFile { path: task.target_file },
            ),
        },
        (AssetPhase::PreparingCompressedFolder, EventView::Done) => (
            AssetView { phase: AssetPhase::CheckingLocal, ..task },
            ActionView::StatFile { path: task.target_file },
        ),
        (AssetPhase::PreparingFolder, EventView::Failed(message)) => (
            idle,
            ActionView::Finish(Err(ErrorView::PrepareFolderError(message))),
        ),
        (AssetPhase::PreparingCompressedFolder, EventView::Failed(message)) => (
            idle,
            ActionView::Finish(Err(ErrorView::PrepareFolderError(message))),
        ),
        (AssetPhase::CheckingLocal, EventView::FileSize(Some(size))) => if size as int
            == task.asset.size {
            (idle, ActionView::Finish(Ok(())))
        } else {
            (
                AssetView { phase: AssetPhase::RemovingLocal, ..task },
                ActionView::RemoveFile { path: task.target_file },
            )
        },
        (AssetPhase::CheckingLocal, EventView::FileSize(None)) => after_local(task),
        (AssetPhase::RemovingLocal, EventView::Done) => after_local(task),
        (AssetPhase::ReadingCompressed, EventView::File(contents)) => match task.compressed {
            Some(source) => match contents {
                Some(bytes) => if sha1_digest(bytes) == source.hash {
                    unpacked(task, bytes, false)
                } else {
                    (
                        AssetView { phase: AssetPhase::RemovingCompressed, ..task },
                        ActionView::RemoveFile { path: source.target },
                    )
                },
                None => (
                    AssetView { phase: AssetPhase::FetchingCompressed, ..task },
                    ActionView::Get { url: source.url },
                ),
            },
            None => (idle, unexpected()),
        },
        (AssetPhase::RemovingCompressed, EventView::Done) => match task.compressed {
            Some(source) => (
                AssetView { phase: AssetPhase::FetchingCompressed, ..task },
                ActionView::Get { url: source.url },
            ),
            None => (idle, unexpected()),
        },
        (AssetPhase::FetchingCompressed, EventView::Response(response)) => {
            let told = AssetView {
                monitor: announced(task.monitor, response.content_length),
                ..task
            };
            match task.compressed {
                Some(source) => if sha1_digest(response.body) == source.hash {
                    unpacked(told, response.body, true)
                } else {
                    (
                        AssetView { phase: AssetPhase::Idle, ..told },
                        mismatch(source.hash, sha1_digest(response.body)),
                    )
                },
                None => (AssetView { phase: AssetPhase::Idle, ..told }, unexpected()),
            }
        },
        (AssetPhase::WritingCompressed, EventView::Done) => match task.pending {
            Some(data) => (
                AssetView { phase: AssetPhase::WritingTarget, pending: None, ..task },
                ActionView::WriteFile { path: task.target_file, data },
            ),
            None => (idle, unexpected()),
        },
        (AssetPhase::FetchingRaw, EventView::Response(response)) => {
            let told = AssetView {
                monitor: announced(task.monitor, response.content_length),
                ..task
            };
            if sha1_digest(response.body) == task.asset.hash {
                (
                    AssetView { phase: AssetPhase::WritingTarget, ..told },
                    ActionView::WriteFile { path: task.target_file, data: response.body },
                )
            } else {
                (
                    AssetView { phase: AssetPhase::Idle, ..told },
                    mismatch(task.asset.hash, sha1_digest(response.body)),
                )
            }
        },
        (AssetPhase::WritingTarget, EventView::Done) => (idle, ActionView::Finish(Ok(()))),
        (AssetPhase::FetchingCompressed, EventView::Failed(message)) => (
            idle,
            ActionView::Finish(Err(ErrorView::DownloadError(message))),
        ),
        (AssetPhase::FetchingRaw, EventView::Failed(message)) => (
            idle,
            ActionView::Finish(Err(ErrorView::DownloadError(message))),
        ),
        (AssetPhase::Idle, EventView::Failed(_)) => (idle, unexpected()),
        (_, EventView::Failed(message)) => (
            idle,
            ActionView::Finish(Err(ErrorView::IoError(message))),
        ),
        _ => (idle, unexpected()),
    }
}

/// The task for an object, given the URL of the object and, where it has a
/// compressed form, the URL of that form or `None` where none could be
/// made.
pub open spec fn asset_task(
    name: Seq<char>,
    asset: AssetObjectView,
    url_base: Seq<char>,
    objects_dir: Seq<char>,
    url: Seq<char>,
    compressed_url: Option<Seq<char>>,
) -> AssetView {
    let has_compressed = asset.compressed_hash is Some && asset.compressed_size is Some;
    AssetView {
        url,
        target_file: objects_dir + seq!['/'] + object_path(asset.hash),
        force_download: false,
        attempts: 0,
        start_time: None,
        end_time: None,
        name,
        status: AssetDownloadableStatus::Downloading,
        asset,
        url_base,
        destination: objects_dir,
        monitor: MonitorView {
            current: 0,
            total: DEFAULT_TOTAL,
            reported: Seq::<ProgressUpdateView>::empty(),
        },
        compressed: if has_compressed && compressed_url is Some {
            Some(
                CompressedSourceView {
                    url: compressed_url->0,
                    target: objects_dir + seq!['/'] + object_path(asset.compressed_hash->0),
                    hash: asset.compressed_hash->0,
                },
            )
        } else {
            None
        },
        url_error: has_compressed && compressed_url is None,
        phase: AssetPhase::Idle,
        pending: None,
    }
}

/// The task for the object `asset`, named `name`, that is fetched from
/// below `url_base` and kept below `objects_dir`; there is none where no
/// URL can be made for the object.
pub open spec fn asset_task_for(
    name: Seq<char>,
    asset: AssetObjectView,
    url_base: Seq<char>,
    objects_dir: Seq<char>,
) -> Option<AssetView> {
    match located(url_base, object_path(asset.hash)) {
        Some(url) => Some(
            asset_task(
                name,
                asset,
                url_base,
                objects_dir,
                url,
                match asset.compressed_hash {
                    Some(hash) => located(url_base, object_path(hash)),
                    None => None,
                },
            ),
        ),
        None => None,
    }
}

impl AssetDownloadable {
    /// The task for the object `asset`, named `name`, that is fetched from
    /// below `url_base` and kept below `objects_dir`, or `None` where
    /// `url_base` is no URL.
    pub fn try_new(name: &str, asset: &AssetObject, url_base: &str, objects_dir: &str) -> (task:
        Option<Self>)
        ensures
            view_opt(task) == asset_task_for(name@, asset@, url_base@, objects_dir@),
    {
        let path = AssetObject::create_path_from_hash(&asset.hash);
        match locate(url_base, path.as_str()) {
            Some(_) => Some(AssetDownloadable::new(name, asset, url_base, objects_dir)),
            None => None,
        }
    }

    /// The task for the object `asset`, named `name`, that is fetched from
    /// below `url_base`, which is a URL, and kept below `objects_dir`.
    pub fn new(name: &str, asset: &AssetObject, url_base: &str, objects_dir: &str) -> (task: Self)
        requires
            located(url_base@, object_path(asset@.hash)) is Some,
        ensures
            Some(task@) == asset_task_for(name@, asset@, url_base@, objects_dir@),
    {
        let path = AssetObject::create_path_from_hash(&asset.hash);
        let url = match locate(url_base, path.as_str()) {
            Some(url) => url,
            None => vstd::pervasive::unreached(),
        };
        let target_file = join_path(objects_dir, path.as_str());
        let mut compressed: Option<CompressedSource> = None;
        let mut url_error = false;
        if asset.has_compressed_alternative() {
            if let Some(hash) = asset.compressed_hash {
                let compressed_path = AssetObject::create_path_from_hash(&hash);
                match locate(url_base, compressed_path.as_str()) {
                    Some(source) => {
                        compressed = Some(
                            CompressedSource {
                                url: source,
                                target: join_path(objects_dir, compressed_path.as_str()),
                                hash,
                            },
                        );
                    },
                    None => {
                        url_error = true;
                    },
                }
            }
        }
        AssetDownloadable {
            url,
            target_file,
            force_download: false,
            attempts: 0,
            start_time: None,
            end_time: None,
            name: name.to_owned(),
            status: AssetDownloadableStatus::Downloading,
            asset: *asset,
            url_base: url_base.to_owned(),
            destination: objects_dir.to_owned(),
            monitor: DownloadableMonitor::new(0, DEFAULT_TOTAL),
            compressed,
            url_error,
            phase: AssetPhase::Idle,
            pending: None,
        }
    }

    /// The status of the task: what it is doing, and the name of the
    /// object.
    pub fn get_status(&self) -> (status: String)
        ensures
            status@ == self@.status.word() + seq![' '] + self@.name,
    {
        let mut out: Vec<char> = to_chars(self.status.as_str());
        out.push(' ');
        push_str(&mut out, self.name.as_str());
        assert(out@ =~= self@.status.word() + seq![' '] + self@.name);
        from_chars(out.as_slice())
    }

    fn unpack(&mut self, bytes: Vec<u8>, fetched: bool) -> (action: Action)
        requires
            old(self).phase == AssetPhase::Idle,
        ensures
            (final(self)@, action@) == unpacked(old(self)@, bytes@, fetched),
    {
        self.status = AssetDownloadableStatus::Extracting;
        match gunzip(bytes.as_slice()) {
            None => Action::Finish(
                Err(Error::IoError("could not unpack the compressed asset".to_owned())),
            ),
            Some(data) => {
                let actual = Sha1Sum::from_reader(data.as_slice());
                if actual != self.asset.hash {
                    Action::Finish(
                        Err(Error::ChecksumMismatch { expected: self.asset.hash, actual }),
                    )
                } else {
                    match &self.compressed {
                        Some(source) if fetched => {
                            let path = source.target.clone();
                            self.phase = AssetPhase::WritingCompressed;
                            self.pending = Some(data);
                            Action::WriteFile { path, data: bytes }
                        },
                        _ => {
                            self.phase = AssetPhase::WritingTarget;
                            Action::WriteFile { path: self.target_file.clone(), data }
                        },
                    }
                }
            },
        }
    }

    fn proceed(&mut self) -> (action: Action)
        requires
            old(self).phase == AssetPhase::Idle,
        ensures
            (final(self)@, action@) == after_local(old(self)@),
    {
        match &self.compressed {
            Some(source) => {
                let path = source.target.clone();
                self.phase = AssetPhase::ReadingCompressed;
                Action::ReadFile { path }
            },
            None => {
                self.phase = AssetPhase::FetchingRaw;
                Action::Get { url: self.url.clone() }
            },
        }
    }

    /// Takes an event and says what is to be done next.
    pub fn step(&mut self, event: Event) -> (action: Action)
        ensures
            (final(self)@, action@) == asset_step(old(self)@, event@),
    {
        let phase = self.phase;
        self.phase = AssetPhase::Idle;
        proof {
            assert(after_local(AssetView { phase: AssetPhase::Idle, ..old(self)@ }) == after_local(
                old(self)@,
            ));
        }
        match (phase, event) {
            (AssetPhase::Idle, Event::Begin) => {
                self.attempts = bump(self.attempts);
                self.status = AssetDownloadableStatus::Downloading;
                self.pending = None;
                if self.url_error {
                    Action::Finish(Err(Error::UrlParseError(self.url_base.clone())))
                } else {
                    self.phase = AssetPhase::PreparingFolder;
                    Action::PrepareFolder { file: self.target_file.clone() }
                }
            },
            (AssetPhase::PreparingFolder, Event::Done) => match &self.compressed {
                Some(source) => {
                    let file = source.target.clone();
                    self.phase = AssetPhase::PreparingCompressedFolder;
                    Action::PrepareFolder { file }
                },
                None => {
                    self.phase = AssetPhase::CheckingLocal;
                    Action::StatFile { path: self.target_file.clone() }
                },
            },
            (AssetPhase::PreparingCompressedFolder, Event::Done) => {
                self.phase = AssetPhase::CheckingLocal;
                Action::StatFile { path: self.target_file.clone() }
            },
            (AssetPhase::PreparingFolder, Event::Failed(message)) => Action::Finish(
                Err(Error::PrepareFolderError(message)),
            ),
            (AssetPhase::PreparingCompressedFolder, Event::Failed(message)) => Action::Finish(
                Err(Error::PrepareFolderError(message)),
            ),
            (AssetPhase::CheckingLocal, Event::FileSize(Some(size))) => {
                if size == self.asset.size {
                    Action::Finish(Ok(()))
                } else {
                    self.phase = AssetPhase::RemovingLocal;
                    Action::RemoveFile { path: self.target_file.clone() }
                }
            },
            (AssetPhase::CheckingLocal, Event::FileSize(None)) => self.proceed(),
            (AssetPhase::RemovingLocal, Event::Done) => self.proceed(),
            (AssetPhase::ReadingCompressed, Event::File(contents)) => {
                let source = match &self.compressed {
                    Some(source) => (source.url.clone(), source.target.clone(), source.hash),
                    None => {
                        return unexpected_event();
                    },
                };
                match contents {
                    Some(bytes) => {
                        if Sha1Sum::from_reader(bytes.as_slice()) == source.2 {
                            proof {
                                assert(unpacked(
                                    AssetView { phase: AssetPhase::Idle, ..old(self)@ },
                                    bytes@,
                                    false,
                                ) == unpacked(old(self)@, bytes@, false));
                            }
                            self.unpack(bytes, false)
                        } else {
                            self.phase = AssetPhase::RemovingCompressed;
                            Action::RemoveFile { path: source.1 }
                        }
                    },
                    None => {
                        self.phase = AssetPhase::FetchingCompressed;
                        Action::Get { url: source.0 }
                    },
                }
            },
            (AssetPhase::RemovingCompressed, Event::Done) => match &self.compressed {
                Some(source) => {
                    let url = source.url.clone();
                    self.phase = AssetPhase::FetchingCompressed;
                    Action::Get { url }
                },
                None => unexpected_event(),
            },
            (AssetPhase::FetchingCompressed, Event::Response(response)) => {
                let Response { content_length, etag: _, body } = response;
                announce(&mut self.monitor, content_length);
                let expected = match &self.compressed {
                    Some(source) => source.hash,
                    None => {
                        return unexpected_event();
                    },
                };
                let actual = Sha1Sum::from_reader(body.as_slice());
                if actual == expected {
                    proof {
                        let told = AssetView {
                            monitor: announced(old(self)@.monitor, content_length),
                            ..old(self)@
                        };
                        assert(unpacked(AssetView { phase: AssetPhase::Idle, ..told }, body@, true)
                            == unpacked(told, body@, true));
                    }
                    self.unpack(body, true)
                } else {
                    Action::Finish(Err(Error::ChecksumMismatch { expected, actual }))
                }
            },
            (AssetPhase::WritingCompressed, Event::Done) => {
                match self.pending.take() {
                    Some(data) => {
                        self.phase = AssetPhase::WritingTarget;
                        Action::WriteFile { path: self.target_file.clone(), data }
                    },
                    None => unexpected_event(),
                }
            },
            (AssetPhase::FetchingRaw, Event::Response(response)) => {
                let Response { content_length, etag: _, body } = response;
                announce(&mut self.monitor, content_length);
                let actual = Sha1Sum::from_reader(body.as_slice());
                if actual == self.asset.hash {
                    self.phase = AssetPhase::WritingTarget;
                    Action::WriteFile { path: self.target_file.clone(), data: body }
                } else {
                    Action::Finish(
                        Err(Error::ChecksumMismatch { expected: self.asset.hash, actual }),
                    )
                }
            },
            (AssetPhase::WritingTarget, Event::Done) => Action::Finish(Ok(())),
            (AssetPhase::FetchingCompressed, Event::Failed(message)) => Action::Finish(
                Err(Error::DownloadError(message)),
            ),
            (AssetPhase::FetchingRaw, Event::Failed(message)) => Action::Finish(
                Err(Error::DownloadError(message)),
            ),
            (AssetPhase::Idle, Event::Failed(_)) => unexpected_event(),
            (_, Event::Failed(message)) => Action::Finish(Err(Error::IoError(message))),
            _ => unexpected_event(),
        }
    }
}

/// A local file of the expected size ends the attempt well without any
/// request, whatever the file holds.
pub proof fn lemma_local_file_of_right_size_is_kept(task: AssetView)
    requires
        task.phase == AssetPhase::CheckingLocal,
        0 <= task.asset.size <= u64::MAX,
    ensures
        asset_step(task, EventView::FileSize(Some(task.asset.size as u64))).1 == ActionView::Finish(
            Ok(()),
        ),
{
}

/// What is fetched is written only where it has the expected checksum: the
/// object itself as it came, and the compressed form where both it and what
/// it unpacks to have theirs.
pub proof fn lemma_written_data_has_expected_checksum(task: AssetView, response: crate::download::ResponseView)
    ensures
        task.phase == AssetPhase::FetchingRaw && asset_step(task, EventView::Response(response)).1
            is WriteFile ==> sha1_digest(response.body) == task.asset.hash,
        task.phase == AssetPhase::FetchingCompressed && asset_step(
            task,
            EventView::Response(response),
        ).1 is WriteFile ==> {
            &&& task.compressed is Some
            &&& sha1_digest(response.body) == task.compressed->0.hash
            &&& gzip_decoded(response.body) is Some
            &&& sha1_digest(gzip_decoded(response.body)->0) == task.asset.hash
        },
{
}

} // verus!
