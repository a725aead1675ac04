//! A task whose checksum is known beforehand.
//!
//! A local file with the expected checksum is used as it is, without any
//! request. Otherwise the file is fetched, and what was received is written
//! only where it has the expected checksum.

use vstd::prelude::*;
use crate::checksum::{sha1_digest, Sha1Sum};
use crate::download::{
    announce, announced, unexpected, unexpected_event, Action, ActionView, DownloadableMonitor,
    Error, ErrorView, Event, EventView, MonitorView, Response,
};
use crate::progress::ProgressUpdateView;

verus! {

/// Where an attempt of a task stands.
#[derive(Debug, Clone, Copy, PartialEq, Eq, Structural)]
pub enum Phase {
    /// No attempt is under way.
    Idle,
    PreparingFolder,
    ReadingLocal,
    RemovingLocal,
    Fetching,
    Writing,
}

/// A count with one more, as far as the machine can count.
pub open spec fn bumped(attempts: usize) -> usize {
    if attempts < usize::MAX {
        (attempts + 1) as usize
    } else {
        attempts
    }
}

/// One more than `attempts`, as far as the machine can count.
pub fn bump(attempts: usize) -> (more: usize)
    ensures
        more == bumped(attempts),
{
    if attempts < usize::MAX {
        attempts + 1
    } else {
        attempts
    }
}

/// The total that a task announces before it knows better.
pub const DEFAULT_TOTAL: usize = 5242880;

/// A task whose checksum is known beforehand.
#[derive(Debug)]
pub struct PreHashedDownloadable {
    pub url: String,
    pub target_file: String,
    pub force_download: bool,
    pub attempts: usize,
    pub start_time: Option<u64>,
    pub end_time: Option<u64>,
    pub expected_hash: Sha1Sum,
    pub monitor: DownloadableMonitor,
    pub phase: Phase,
}

/// The mathematical value of a [`PreHashedDownloadable`].
pub struct PreHashedView {
    pub url: Seq<char>,
    pub target_file: Seq<char>,
    pub force_download: bool,
    pub attempts: usize,
    pub start_time: Option<u64>,
    pub end_time: Option<u64>,
    pub expected_hash: Seq<u8>,
    pub monitor: MonitorView,
    pub phase: Phase,
}

impl View for PreHashedDownloadable {
    type V = PreHashedView;

    open spec fn view(&self) -> PreHashedView {
        PreHashedView {
            url: self.url@,
            target_file: self.target_file@,
            force_download: self.force_download,
            attempts: self.attempts,
            start_time: self.start_time,
            end_time: self.end_time,
            expected_hash: self.expected_hash@,
            monitor: self.monitor@,
            phase: self.phase,
        }
    }
}

/// What a task does on an event, and the task after it.
///
/// An attempt makes the folder, reads the local file and ends well where
/// the file has the expected checksum. Otherwise it removes the file if
/// there is one, requests the URL, and writes what came only where that has
/// the expected checksum; what has another checksum is not written and
/// fails the attempt.
pub open spec fn prehashed_step(task: PreHashedView, event: EventView) -> (PreHashedView, ActionView) {
    let idle = PreHashedView { phase: Phase::Idle, ..task };
    match (task.phase, event) {
        (Phase::Idle, EventView::Begin) => (
            PreHashedView {
                attempts: bumped(task.attempts),
                phase: Phase::PreparingFolder,
                ..task
            },
            ActionView::PrepareFolder { file: task.target_file },
        ),
        (Phase::PreparingFolder, EventView::Done) => (
            PreHashedView { phase: Phase::ReadingLocal, ..task },
            ActionView::ReadFile { path: task.target_file },
        ),
        (Phase::PreparingFolder, EventView::Failed(message)) => (
            idle,
            ActionView::Finish(Err(ErrorView::PrepareFolderError(message))),
        ),
        (Phase::ReadingLocal, EventView::File(Some(bytes))) => if sha1_digest(bytes)
            == task.expected_hash {
            (idle, ActionView::Finish(Ok(())))
        } else {
            (
                PreHashedView { phase: Phase::RemovingLocal, ..task },
                ActionView::RemoveFile { path: task.target_file },
            )
        },
        (Phase::ReadingLocal, EventView::File(None)) => (
            PreHashedView { phase: Phase::Fetching, ..task },
            ActionView::Get { url: task.url },
        ),
        (Phase::RemovingLocal, EventView::Done) => (
            PreHashedView { phase: Phase::Fetching, ..task },
            ActionView::Get { url: task.url },
        ),
        (Phase::Fetching, EventView::Response(response)) => {
            let monitor = announced(task.monitor, response.content_length);
            if sha1_digest(response.body) == task.expected_hash {
                (
                    PreHashedView { monitor, phase: Phase::Writing, ..task },
                    ActionView::WriteFile { path: task.target_file, data: response.body },
                )
            } else {
                (
                    PreHashedView { monitor, phase: Phase::Idle, ..task },
                    ActionView::Finish(
                        Err(
                            ErrorView::ChecksumMismatch {
                                expected: task.expected_hash,
                                actual: sha1_digest(response.body),
                            },
                        ),
                    ),
                )
            }
        },
        (Phase::Fetching, EventView::Failed(message)) => (
            idle,
            ActionView::Finish(Err(ErrorView::DownloadError(message))),
        ),
        (Phase::Writing, EventView::Done) => (idle, ActionView::Finish(Ok(()))),
        (Phase::ReadingLocal, EventView::Failed(message)) => (
            idle,
            ActionView::Finish(Err(ErrorView::IoError(message))),
        ),
        (Phase::RemovingLocal, EventView::Failed(message)) => (
            idle,
            ActionView::Finish(Err(ErrorView::IoError(message))),
        ),
        (Phase::Writing, EventView::Failed(message)) => (
            idle,
            ActionView::Finish(Err(ErrorView::IoError(message))),
        ),
        _ => (idle, unexpected()),
    }
}

impl PreHashedDownloadable {
    /// A task that fetches `url` into `target_file` and expects the
    /// checksum `expected_hash`.
    pub fn new(url: &str, target_file: &str, force_download: bool, expected_hash: Sha1Sum) -> (task:
        Self)
        ensures
            task@ == (PreHashedView {
                url: url@,
                target_file: target_file@,
                force_download,
                attempts: 0,
                start_time: None,
                end_time: None,
                expected_hash: expected_hash@,
                monitor: MonitorView {
                    current: 0,
                    total: DEFAULT_TOTAL,
                    reported: Seq::<ProgressUpdateView>::empty(),
                },
                phase: Phase::Idle,
            }),
    {
        PreHashedDownloadable {
            url: url.to_owned(),
            target_file: target_file.to_owned(),
            force_download,
            attempts: 0,
            start_time: None,
            end_time: None,
            expected_hash,
            monitor: DownloadableMonitor::new(0, DEFAULT_TOTAL),
            phase: Phase::Idle,
        }
    }

    /// Takes an event and says what is to be done next.
    pub fn step(&mut self, event: Event) -> (action: Action)
        ensures
            (final(self)@, action@) == prehashed_step(old(self)@, event@),
    {
        let phase = self.phase;
        self.phase = Phase::Idle;
        match (phase, event) {
            (Phase::Idle, Event::Begin) => {
                self.attempts = bump(self.attempts);
                self.phase = Phase::PreparingFolder;
                Action::PrepareFolder { file: self.target_file.clone() }
            },
            (Phase::PreparingFolder, Event::Done) => {
                self.phase = Phase::ReadingLocal;
                Action::ReadFile { path: self.target_file.clone() }
            },
            (Phase::PreparingFolder, Event::Failed(message)) => Action::Finish(
                Err(Error::PrepareFolderError(message)),
            ),
            (Phase::ReadingLocal, Event::File(Some(bytes))) => {
                let local = Sha1Sum::from_reader(bytes.as_slice());
                if local == self.expected_hash {
                    Action::Finish(Ok(()))
                } else {
                    self.phase = Phase::RemovingLocal;
                    Action::RemoveFile { path: self.target_file.clone() }
                }
            },
            (Phase::ReadingLocal, Event::File(None)) => {
                self.phase = Phase::Fetching;
                Action::Get { url: self.url.clone() }
            },
            (Phase::RemovingLocal, Event::Done) => {
                self.phase = Phase::Fetching;
                Action::Get { url: self.url.clone() }
            },
            (Phase::Fetching, Event::Response(response)) => {
                let Response { content_length, etag: _, body } = response;
                announce(&mut self.monitor, content_length);
                let actual = Sha1Sum::from_reader(body.as_slice());
                if actual == self.expected_hash {
                    self.phase = Phase::Writing;
                    Action::WriteFile { path: self.target_file.clone(), data: body }
                } else {
                    Action::Finish(
                        Err(Error::ChecksumMismatch { expected: self.expected_hash, actual }),
                    )
                }
            },
            (Phase::Fetching, Event::Failed(message)) => Action::Finish(
                Err(Error::DownloadError(message)),
            ),
            (Phase::Writing, Event::Done) => Action::Finish(Ok(())),
            (Phase::ReadingLocal, Event::Failed(message)) => Action::Finish(
                Err(Error::IoError(message)),
            ),
            (Phase::RemovingLocal, Event::Failed(message)) => Action::Finish(
                Err(Error::IoError(message)),
            ),
            (Phase::Writing, Event::Failed(message)) => Action::Finish(
                Err(Error::IoError(message)),
            ),
            _ => unexpected_event(),
        }
    }
}

/// A local file that has the expected checksum ends the attempt well
/// without any request: the task asks for the folder, reads the file, and
/// is done.
pub proof fn lemma_matching_local_file_needs_no_request(task: PreHashedView, local: Seq<u8>)
    requires
        task.phase == Phase::Idle,
        sha1_digest(local) == task.expected_hash,
    ensures
        ({
            let (t1, a1) = prehashed_step(task, EventView::Begin);
            let (t2, a2) = prehashed_step(t1, EventView::Done);
            let (t3, a3) = prehashed_step(t2, EventView::File(Some(local)));
            &&& a1 == ActionView::PrepareFolder { file: task.target_file }
            &&& a2 == ActionView::ReadFile { path: task.target_file }
            &&& a3 == ActionView::Finish(Ok(()))
            &&& t3.phase == Phase::Idle
        }),
{
}

} // verus!
