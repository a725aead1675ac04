//! A task whose checksum the server publishes beside the file, at the URL
//! of the file followed by `.sha1`.
//!
//! The published checksum is asked for first. Where it cannot be had it
//! counts as unknown: a local file is then trusted, and without one the
//! file itself is still requested and what comes is accepted.

use vstd::prelude::*;
use crate::checksum::{hex_decoded, is_hex_text, sha1_digest, Sha1Sum};
use crate::download::prehashed::{bump, bumped, DEFAULT_TOTAL};
use crate::download::{
    announce, announced, unexpected, unexpected_event, Action, ActionView, DownloadableMonitor,
    Error, ErrorView, Event, EventView, MonitorView, Response,
};
use crate::progress::ProgressUpdateView;
use crate::text::{from_chars, push_str, to_chars};

verus! {

/// Where an attempt of a task stands.
#[derive(Debug, Clone, Copy, PartialEq, Eq, Structural)]
pub enum ChecksummedPhase {
    /// No attempt is under way.
    Idle,
    PreparingFolder,
    ReadingLocal,
    FetchingChecksum,
    Fetching,
    Writing,
}

/// A task whose checksum the server publishes beside the file.
#[derive(Debug)]
pub struct ChecksummedDownloadable {
    pub url: String,
    pub target_file: String,
    pub force_download: bool,
    pub attempts: usize,
    pub start_time: Option<u64>,
    pub end_time: Option<u64>,
    pub monitor: DownloadableMonitor,
    pub phase: ChecksummedPhase,
    /// The checksum of the local file, during an attempt that found one.
    pub local_hash: Option<Sha1Sum>,
    /// The published checksum, during an attempt; all zero where it is
    /// not known.
    pub remote_hash: Sha1Sum,
}

/// The mathematical value of a [`ChecksummedDownloadable`].
pub struct ChecksummedView {
    pub url: Seq<char>,
    pub target_file: Seq<char>,
    pub force_download: bool,
    pub attempts: usize,
    pub start_time: Option<u64>,
    pub end_time: Option<u64>,
    pub monitor: MonitorView,
    pub phase: ChecksummedPhase,
    pub local_hash: Option<Seq<u8>>,
    pub remote_hash: Seq<u8>,
}

impl View for ChecksummedDownloadable {
    type V = ChecksummedView;

    open spec fn view(&self) -> ChecksummedView {
        ChecksummedView {
            url: self.url@,
            target_file: self.target_file@,
            force_download: self.force_download,
            attempts: self.attempts,
            start_time: self.start_time,
            end_time: self.end_time,
            monitor: self.monitor@,
            phase: self.phase,
            local_hash: match self.local_hash {
                Some(hash) => Some(hash@),
                None => None,
            },
            remote_hash: self.remote_hash@,
        }
    }
}

/// Twenty zero bytes: the checksum that stands for "unknown".
pub open spec fn unknown_hash() -> Seq<u8> {
    Seq::new(20, |i: int| 0u8)
}

/// The checksum that the answer of the server carries: the one that its
/// body spells in forty hexadecimal digits, and the unknown one where the
/// body is anything else.
pub open spec fn published_hash(body: Seq<u8>) -> Seq<u8> {
    if is_hex_text(body, 20) {
        hex_decoded(body)
    } else {
        unknown_hash()
    }
}

/// Where the checksum of `url` is published.
pub open spec fn checksum_url(url: Seq<char>) -> Seq<char> {
    url + ".sha1"@
}

/// What follows once the published checksum is known, or known to be
/// unknown: nothing is fetched where it is unknown and there is a local
/// file, or where the local file has the published checksum; otherwise the
/// file is requested.
pub open spec fn after_checksum(task: ChecksummedView, remote: Seq<u8>) -> (
    ChecksummedView,
    ActionView,
) {
    if (remote == unknown_hash() && task.local_hash is Some) || task.local_hash == Some(remote) {
        (
            ChecksummedView { remote_hash: remote, phase: ChecksummedPhase::Idle, ..task },
            ActionView::Finish(Ok(())),
        )
    } else {
        (
            ChecksummedView { remote_hash: remote, phase: ChecksummedPhase::Fetching, ..task },
            ActionView::Get { url: task.url },
        )
    }
}

/// What a task does on an event, and the task after it.
pub open spec fn checksummed_step(task: ChecksummedView, event: EventView) -> (
    ChecksummedView,
    ActionView,
) {
    let idle = ChecksummedView { phase: ChecksummedPhase::Idle, ..task };
    match (task.phase, event) {
        (ChecksummedPhase::Idle, EventView::Begin) => (
            ChecksummedView {
                attempts: bumped(task.attempts),
                phase: ChecksummedPhase::PreparingFolder,
                local_hash: None,
                remote_hash: unknown_hash(),
                ..task
            },
            ActionView::PrepareFolder { file: task.target_file },
        ),
        (ChecksummedPhase::PreparingFolder, EventView::Done) => (
            ChecksummedView { phase: ChecksummedPhase::ReadingLocal, ..task },
            ActionView::ReadFile { path: task.target_file },
        ),
        (ChecksummedPhase::PreparingFolder, EventView::Failed(message)) => (
            idle,
            ActionView::Finish(Err(ErrorView::PrepareFolderError(message))),
        ),
        (ChecksummedPhase::ReadingLocal, EventView::File(contents)) => (
            ChecksummedView {
                phase: ChecksummedPhase::FetchingChecksum,
                local_hash: match contents {
                    Some(bytes) => Some(sha1_digest(bytes)),
                    None => None,
                },
                ..task
            },
            ActionView::Get { url: checksum_url(task.url) },
        ),
        (ChecksummedPhase::ReadingLocal, EventView::Failed(message)) => (
            idle,
            ActionView::Finish(Err(ErrorView::IoError(message))),
        ),
        (ChecksummedPhase::FetchingChecksum, EventView::Response(response)) => after_checksum(
            task,
            published_hash(response.body),
        ),
        (ChecksummedPhase::FetchingChecksum, EventView::Failed(_)) => after_checksum(
            task,
            unknown_hash(),
        ),
        (ChecksummedPhase::Fetching, EventView::Response(response)) => {
            let monitor = announced(task.monitor, response.content_length);
            let actual = sha1_digest(response.body);
            if task.remote_hash == unknown_hash() || task.remote_hash == actual {
                (
                    ChecksummedView {
                        monitor,
                        phase: ChecksummedPhase::Writing,
                        local_hash: Some(actual),
                        ..task
                    },
                    ActionView::WriteFile { path: task.target_file, data: response.body },
                )
            } else {
                (
                    ChecksummedView {
                        monitor,
                        phase: ChecksummedPhase::Idle,
                        local_hash: Some(actual),
                        ..task
                    },
                    ActionView::Finish(
                        Err(ErrorView::ChecksumMismatch { expected: task.remote_hash, actual }),
                    ),
                )
            }
        },
        (ChecksummedPhase::Fetching, EventView::Failed(message)) => (
            idle,
            ActionView::Finish(Err(ErrorView::DownloadError(message))),
        ),
        (ChecksummedPhase::Writing, EventView::Done) => (idle, ActionView::Finish(Ok(()))),
        (ChecksummedPhase::Writing, EventView::Failed(message)) => (
            idle,
            ActionView::Finish(Err(ErrorView::IoError(message))),
        ),
        _ => (idle, unexpected()),
    }
}

impl ChecksummedDownloadable {
    /// A task that fetches `url` into `target_file`.
    pub fn new(url: &str, target_file: &str, force_download: bool) -> (task: Self)
        ensures
            task@ == (ChecksummedView {
                url: url@,
                target_file: target_file@,
                force_download,
                attempts: 0,
                start_time: None,
                end_time: None,
                monitor: MonitorView {
                    current: 0,
                    total: DEFAULT_TOTAL,
                    reported: Seq::<ProgressUpdateView>::empty(),
                },
                phase: ChecksummedPhase::Idle,
                local_hash: None,
                remote_hash: unknown_hash(),
            }),
    {
        ChecksummedDownloadable {
            url: url.to_owned(),
            target_file: target_file.to_owned(),
            force_download,
            attempts: 0,
            start_time: None,
            end_time: None,
            monitor: DownloadableMonitor::new(0, DEFAULT_TOTAL),
            phase: ChecksummedPhase::Idle,
            local_hash: None,
            remote_hash: Sha1Sum::null(),
        }
    }

    /// The URL at which the checksum is published.
    pub fn get_checksum_url(&self) -> (url: String)
        ensures
            url@ == checksum_url(self@.url),
    {
        let mut out: Vec<char> = to_chars(self.url.as_str());
        push_str(&mut out, ".sha1");
        from_chars(out.as_slice())
    }

    fn decide(&mut self, remote: Sha1Sum) -> (action: Action)
        requires
            old(self).phase == ChecksummedPhase::Idle,
        ensures
            (final(self)@, action@) == after_checksum(
                ChecksummedView { phase: ChecksummedPhase::FetchingChecksum, ..old(self)@ },
                remote@,
            ),
    {
        self.remote_hash = remote;
        let unknown = remote.is_unknown();
        proof {
            if unknown {
                assert(remote@ =~= unknown_hash());
            } else {
                let i = choose|i: int| 0 <= i < 20 && remote@[i] != 0;
                assert(unknown_hash()[i] == 0);
            }
        }
        let same = match &self.local_hash {
            Some(local) => *local == remote,
            None => false,
        };
        if (unknown && self.local_hash.is_some()) || same {
            Action::Finish(Ok(()))
        } else {
            self.phase = ChecksummedPhase::Fetching;
            Action::Get { url: self.url.clone() }
        }
    }

    /// Takes an event and says what is to be done next.
    pub fn step(&mut self, event: Event) -> (action: Action)
        ensures
            (final(self)@, action@) == checksummed_step(old(self)@, event@),
    {
        let phase = self.phase;
        self.phase = ChecksummedPhase::Idle;
        match (phase, event) {
            (ChecksummedPhase::Idle, Event::Begin) => {
                self.attempts = bump(self.attempts);
                self.phase = ChecksummedPhase::PreparingFolder;
                self.local_hash = None;
                self.remote_hash = Sha1Sum::null();
                Action::PrepareFolder { file: self.target_file.clone() }
            },
            (ChecksummedPhase::PreparingFolder, Event::Done) => {
                self.phase = ChecksummedPhase::ReadingLocal;
                Action::ReadFile { path: self.target_file.clone() }
            },
            (ChecksummedPhase::PreparingFolder, Event::Failed(message)) => Action::Finish(
                Err(Error::PrepareFolderError(message)),
            ),
            (ChecksummedPhase::ReadingLocal, Event::File(contents)) => {
                self.phase = ChecksummedPhase::FetchingChecksum;
                self.local_hash = match contents {
                    Some(bytes) => Some(Sha1Sum::from_reader(bytes.as_slice())),
                    None => None,
                };
                Action::Get { url: self.get_checksum_url() }
            },
            (ChecksummedPhase::ReadingLocal, Event::Failed(message)) => Action::Finish(
                Err(Error::IoError(message)),
            ),
            (ChecksummedPhase::FetchingChecksum, Event::Response(response)) => {
                let remote = match Sha1Sum::from_hex(response.body.as_slice()) {
                    Ok(sum) => sum,
                    Err(_) => Sha1Sum::null(),
                };
                self.decide(remote)
            },
            (ChecksummedPhase::FetchingChecksum, Event::Failed(_)) => {
                self.decide(Sha1Sum::null())
            },
            (ChecksummedPhase::Fetching, Event::Response(response)) => {
                let Response { content_length, etag: _, body } = response;
                announce(&mut self.monitor, content_length);
                let actual = Sha1Sum::from_reader(body.as_slice());
                self.local_hash = Some(actual);
                let unknown = self.remote_hash.is_unknown();
                proof {
                    if unknown {
                        assert(self.remote_hash@ =~= unknown_hash());
                    } else {
                        let i = choose|i: int| 0 <= i < 20 && self.remote_hash@[i] != 0;
                        assert(unknown_hash()[i] == 0);
                    }
                }
                if unknown || self.remote_hash == actual {
                    self.phase = ChecksummedPhase::Writing;
                    Action::WriteFile { path: self.target_file.clone(), data: body }
                } else {
                    Action::Finish(
                        Err(Error::ChecksumMismatch { expected: self.remote_hash, actual }),
                    )
                }
            },
            (ChecksummedPhase::Fetching, Event::Failed(message)) => Action::Finish(
                Err(Error::DownloadError(message)),
            ),
            (ChecksummedPhase::Writing, Event::Done) => Action::Finish(Ok(())),
            (ChecksummedPhase::Writing, Event::Failed(message)) => Action::Finish(
                Err(Error::IoError(message)),
            ),
            _ => unexpected_event(),
        }
    }
}

/// Where the published checksum cannot be had and there is no local file,
/// the file itself is still requested: the attempt does not fail for want
/// of the checksum.
pub proof fn lemma_missing_checksum_still_fetches(task: ChecksummedView, failure: Seq<char>)
    requires
        task.phase == ChecksummedPhase::Idle,
    ensures
        ({
            let (t1, a1) = checksummed_step(task, EventView::Begin);
            let (t2, a2) = checksummed_step(t1, EventView::Done);
            let (t3, a3) = checksummed_step(t2, EventView::File(None));
            let (t4, a4) = checksummed_step(t3, EventView::Failed(failure));
            &&& a1 == ActionView::PrepareFolder { file: task.target_file }
            &&& a2 == ActionView::ReadFile { path: task.target_file }
            &&& a3 == ActionView::Get { url: checksum_url(task.url) }
            &&& a4 == ActionView::Get { url: task.url }
            &&& t4.phase == ChecksummedPhase::Fetching
        }),
{
}

/// Where the published checksum is unknown, what the server sends for the
/// file is accepted and written, whatever it is.
pub proof fn lemma_unknown_checksum_accepts_download(task: ChecksummedView, response: crate::download::ResponseView)
    requires
        task.phase == ChecksummedPhase::Fetching,
        task.remote_hash == unknown_hash(),
    ensures
        checksummed_step(task, EventView::Response(response)).1 == (ActionView::WriteFile {
            path: task.target_file,
            data: response.body,
        }),
{
}

} // verus!
