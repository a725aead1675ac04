//! The four kinds of fetch task behind one interface.

use vstd::prelude::*;
use crate::download::asset::{asset_step, AssetDownloadable, AssetPhase, AssetView};
use crate::download::checksummed::{
    checksummed_step, ChecksummedDownloadable, ChecksummedPhase, ChecksummedView,
};
use crate::download::etag::{etag_step, EtagDownloadable, EtagPhase, EtagView};
use crate::download::prehashed::{prehashed_step, Phase, PreHashedDownloadable, PreHashedView};
use crate::download::{
    download_status, status_of, Action, ActionView, DownloadableMonitor, Event, EventView,
    MonitorView,
};

verus! {

/// A fetch task of one of the four kinds.
#[derive(Debug)]
pub enum Downloadable {
    PreHashed(PreHashedDownloadable),
    Checksummed(ChecksummedDownloadable),
    Etag(EtagDownloadable),
    Asset(AssetDownloadable),
}

/// The mathematical value of a [`Downloadable`].
pub enum DownloadableView {
    PreHashed(PreHashedView),
    Checksummed(ChecksummedView),
    Etag(EtagView),
    Asset(AssetView),
}

impl View for Downloadable {
    type V = DownloadableView;

    open spec fn view(&self) -> DownloadableView {
        match *self {
            Downloadable::PreHashed(task) => DownloadableView::PreHashed(task@),
            Downloadable::Checksummed(task) => DownloadableView::Checksummed(task@),
            Downloadable::Etag(task) => DownloadableView::Etag(task@),
            Downloadable::Asset(task) => DownloadableView::Asset(task@),
        }
    }
}

impl DownloadableView {
    /// The URL that the task fetches.
    pub open spec fn url(self) -> Seq<char> {
        match self {
            DownloadableView::PreHashed(task) => task.url,
            DownloadableView::Checksummed(task) => task.url,
            DownloadableView::Etag(task) => task.url,
            DownloadableView::Asset(task) => task.url,
        }
    }

    /// The file that the task fills.
    pub open spec fn target_file(self) -> Seq<char> {
        match self {
            DownloadableView::PreHashed(task) => task.target_file,
            DownloadableView::Checksummed(task) => task.target_file,
            DownloadableView::Etag(task) => task.target_file,
            DownloadableView::Asset(task) => task.target_file,
        }
    }

    /// Whether the task was asked to fetch even what is there.
    pub open spec fn force_download(self) -> bool {
        match self {
            DownloadableView::PreHashed(task) => task.force_download,
            DownloadableView::Checksummed(task) => task.force_download,
            DownloadableView::Etag(task) => task.force_download,
            DownloadableView::Asset(task) => task.force_download,
        }
    }

    /// How many attempts have been begun.
    pub open spec fn attempts(self) -> usize {
        match self {
            DownloadableView::PreHashed(task) => task.attempts,
            DownloadableView::Checksummed(task) => task.attempts,
            DownloadableView::Etag(task) => task.attempts,
            DownloadableView::Asset(task) => task.attempts,
        }
    }

    /// When the task was first begun.
    pub open spec fn start_time(self) -> Option<u64> {
        match self {
            DownloadableView::PreHashed(task) => task.start_time,
            DownloadableView::Checksummed(task) => task.start_time,
            DownloadableView::Etag(task) => task.start_time,
            DownloadableView::Asset(task) => task.start_time,
        }
    }

    /// When the task ended well.
    pub open spec fn end_time(self) -> Option<u64> {
        match self {
            DownloadableView::PreHashed(task) => task.end_time,
            DownloadableView::Checksummed(task) => task.end_time,
            DownloadableView::Etag(task) => task.end_time,
            DownloadableView::Asset(task) => task.end_time,
        }
    }

    /// The byte counts of the task.
    pub open spec fn monitor(self) -> MonitorView {
        match self {
            DownloadableView::PreHashed(task) => task.monitor,
            DownloadableView::Checksummed(task) => task.monitor,
            DownloadableView::Etag(task) => task.monitor,
            DownloadableView::Asset(task) => task.monitor,
        }
    }

    /// Whether no attempt is under way.
    pub open spec fn idle(self) -> bool {
        match self {
            DownloadableView::PreHashed(task) => task.phase == Phase::Idle,
            DownloadableView::Checksummed(task) => task.phase == ChecksummedPhase::Idle,
            DownloadableView::Etag(task) => task.phase == EtagPhase::Idle,
            DownloadableView::Asset(task) => task.phase == AssetPhase::Idle,
        }
    }

    /// What is shown while the task runs.
    pub open spec fn status(self) -> Seq<char> {
        match self {
            DownloadableView::Asset(task) => task.status.word() + seq![' '] + task.name,
            _ => download_status(self.target_file(), self.url()),
        }
    }

    /// The task with another start time.
    pub open spec fn with_start_time(self, time: Option<u64>) -> DownloadableView {
        match self {
            DownloadableView::PreHashed(task) => DownloadableView::PreHashed(
                PreHashedView { start_time: time, ..task },
            ),
            DownloadableView::Checksummed(task) => DownloadableView::Checksummed(
                ChecksummedView { start_time: time, ..task },
            ),
            DownloadableView::Etag(task) => DownloadableView::Etag(
                EtagView { start_time: time, ..task },
            ),
            DownloadableView::Asset(task) => DownloadableView::Asset(
                AssetView { start_time: time, ..task },
            ),
        }
    }

    /// The task with another end time.
    pub open spec fn with_end_time(self, time: Option<u64>) -> DownloadableView {
        match self {
            DownloadableView::PreHashed(task) => DownloadableView::PreHashed(
                PreHashedView { end_time: time, ..task },
            ),
            DownloadableView::Checksummed(task) => DownloadableView::Checksummed(
                ChecksummedView { end_time: time, ..task },
            ),
            DownloadableView::Etag(task) => DownloadableView::Etag(
                EtagView { end_time: time, ..task },
            ),
            DownloadableView::Asset(task) => DownloadableView::Asset(
                AssetView { end_time: time, ..task },
            ),
        }
    }

    /// The task with other byte counts.
    pub open spec fn with_monitor(self, monitor: MonitorView) -> DownloadableView {
        match self {
            DownloadableView::PreHashed(task) => DownloadableView::PreHashed(
                PreHashedView { monitor, ..task },
            ),
            DownloadableView::Checksummed(task) => DownloadableView::Checksummed(
                ChecksummedView { monitor, ..task },
            ),
            DownloadableView::Etag(task) => DownloadableView::Etag(EtagView { monitor, ..task }),
            DownloadableView::Asset(task) => DownloadableView::Asset(
                AssetView { monitor, ..task },
            ),
        }
    }

    /// The task with no attempt under way.
    pub open spec fn at_rest(self) -> DownloadableView {
        match self {
            DownloadableView::PreHashed(task) => DownloadableView::PreHashed(
                PreHashedView { phase: Phase::Idle, ..task },
            ),
            DownloadableView::Checksummed(task) => DownloadableView::Checksummed(
                ChecksummedView { phase: ChecksummedPhase::Idle, ..task },
            ),
            DownloadableView::Etag(task) => DownloadableView::Etag(
                EtagView { phase: EtagPhase::Idle, ..task },
            ),
            DownloadableView::Asset(task) => DownloadableView::Asset(
                AssetView { phase: AssetPhase::Idle, ..task },
            ),
        }
    }

    /// What the task does on an event, and the task after it.
    pub open spec fn step(self, event: EventView) -> (DownloadableView, ActionView) {
        match self {
            DownloadableView::PreHashed(task) => {
                let (next, action) = prehashed_step(task, event);
                (DownloadableView::PreHashed(next), action)
            },
            DownloadableView::Checksummed(task) => {
                let (next, action) = checksummed_step(task, event);
                (DownloadableView::Checksummed(next), action)
            },
            DownloadableView::Etag(task) => {
                let (next, action) = etag_step(task, event);
                (DownloadableView::Etag(next), action)
            },
            DownloadableView::Asset(task) => {
                let (next, action) = asset_step(task, event);
                (DownloadableView::Asset(next), action)
            },
        }
    }
}

/// A task has an attempt under way exactly until it answers with
/// `Finish`; a task at rest that is told to begin has begun one attempt
/// more, which does not end well at once; and nothing else begins an
/// attempt or changes the times of the task.
pub proof fn lemma_step_shape(task: DownloadableView, event: EventView)
    ensures
        task.step(event).1 is Finish <==> task.step(event).0.idle(),
        task.idle() && event is Begin ==> task.step(event).0.attempts()
            == crate::download::prehashed::bumped(task.attempts()),
        task.idle() && event is Begin ==> !(task.step(event).1 matches ActionView::Finish(Ok(_))),
        !(task.idle() && event is Begin) ==> task.step(event).0.attempts() == task.attempts(),
        task.step(event).0.start_time() == task.start_time(),
        task.step(event).0.end_time() == task.end_time(),
        task.step(event).0.attempts() >= task.attempts(),
{
}

impl Downloadable {
    /// The URL that the task fetches.
    pub fn url(&self) -> (url: &String)
        ensures
            url@ == self@.url(),
    {
        match self {
            Downloadable::PreHashed(task) => &task.url,
            Downloadable::Checksummed(task) => &task.url,
            Downloadable::Etag(task) => &task.url,
            Downloadable::Asset(task) => &task.url,
        }
    }

    /// The file that the task fills.
    pub fn get_target_file(&self) -> (file: &String)
        ensures
            file@ == self@.target_file(),
    {
        match self {
            Downloadable::PreHashed(task) => &task.target_file,
            Downloadable::Checksummed(task) => &task.target_file,
            Downloadable::Etag(task) => &task.target_file,
            Downloadable::Asset(task) => &task.target_file,
        }
    }

    /// Whether the task was asked to fetch even what is there.
    pub fn force_download(&self) -> (force: bool)
        ensures
            force == self@.force_download(),
    {
        match self {
            Downloadable::PreHashed(task) => task.force_download,
            Downloadable::Checksummed(task) => task.force_download,
            Downloadable::Etag(task) => task.force_download,
            Downloadable::Asset(task) => task.force_download,
        }
    }

    /// How many attempts have been begun.
    pub fn get_attempts(&self) -> (attempts: usize)
        ensures
            attempts == self@.attempts(),
    {
        match self {
            Downloadable::PreHashed(task) => task.attempts,
            Downloadable::Checksummed(task) => task.attempts,
            Downloadable::Etag(task) => task.attempts,
            Downloadable::Asset(task) => task.attempts,
        }
    }

    /// What is shown while the task runs.
    pub fn get_status(&self) -> (status: String)
        ensures
            status@ == self@.status(),
    {
        match self {
            Downloadable::PreHashed(task) => status_of(task.target_file.as_str(), task.url.as_str()),
            Downloadable::Checksummed(task) => status_of(
                task.target_file.as_str(),
                task.url.as_str(),
            ),
            Downloadable::Etag(task) => status_of(task.target_file.as_str(), task.url.as_str()),
            Downloadable::Asset(task) => task.get_status(),
        }
    }

    /// The byte counts of the task.
    pub fn get_monitor(&self) -> (monitor: &DownloadableMonitor)
        ensures
            monitor@ == self@.monitor(),
    {
        match self {
            Downloadable::PreHashed(task) => &task.monitor,
            Downloadable::Checksummed(task) => &task.monitor,
            Downloadable::Etag(task) => &task.monitor,
            Downloadable::Asset(task) => &task.monitor,
        }
    }

    /// When the task was first begun.
    pub fn get_start_time(&self) -> (time: Option<u64>)
        ensures
            time == self@.start_time(),
    {
        match self {
            Downloadable::PreHashed(task) => task.start_time,
            Downloadable::Checksummed(task) => task.start_time,
            Downloadable::Etag(task) => task.start_time,
            Downloadable::Asset(task) => task.start_time,
        }
    }

    /// Sets when the task was first begun.
    pub fn set_start_time(&mut self, start_time: u64)
        ensures
            final(self)@ == old(self)@.with_start_time(Some(start_time)),
    {
        match self {
            Downloadable::PreHashed(task) => {
                task.start_time = Some(start_time);
            },
            Downloadable::Checksummed(task) => {
                task.start_time = Some(start_time);
            },
            Downloadable::Etag(task) => {
                task.start_time = Some(start_time);
            },
            Downloadable::Asset(task) => {
                task.start_time = Some(start_time);
            },
        }
    }

    /// When the task ended well.
    pub fn get_end_time(&self) -> (time: Option<u64>)
        ensures
            time == self@.end_time(),
    {
        match self {
            Downloadable::PreHashed(task) => task.end_time,
            Downloadable::Checksummed(task) => task.end_time,
            Downloadable::Etag(task) => task.end_time,
            Downloadable::Asset(task) => task.end_time,
        }
    }

    /// Sets when the task ended well.
    pub fn set_end_time(&mut self, end_time: u64)
        ensures
            final(self)@ == old(self)@.with_end_time(Some(end_time)),
    {
        match self {
            Downloadable::PreHashed(task) => {
                task.end_time = Some(end_time);
            },
            Downloadable::Checksummed(task) => {
                task.end_time = Some(end_time);
            },
            Downloadable::Etag(task) => {
                task.end_time = Some(end_time);
            },
            Downloadable::Asset(task) => {
                task.end_time = Some(end_time);
            },
        }
    }

    /// Counts all expected bytes as come, and reports it.
    pub fn complete_progress(&mut self)
        ensures
            final(self)@ == old(self)@.with_monitor(completed(old(self)@.monitor())),
    {
        match self {
            Downloadable::PreHashed(task) => {
                let total = task.monitor.get_total();
                task.monitor.set_current(total);
            },
            Downloadable::Checksummed(task) => {
                let total = task.monitor.get_total();
                task.monitor.set_current(total);
            },
            Downloadable::Etag(task) => {
                let total = task.monitor.get_total();
                task.monitor.set_current(total);
            },
            Downloadable::Asset(task) => {
                let total = task.monitor.get_total();
                task.monitor.set_current(total);
            },
        }
    }

    /// Gives up the attempt that is under way, if one is.
    pub fn rest(&mut self)
        ensures
            final(self)@ == old(self)@.at_rest(),
    {
        match self {
            Downloadable::PreHashed(task) => {
                task.phase = Phase::Idle;
            },
            Downloadable::Checksummed(task) => {
                task.phase = ChecksummedPhase::Idle;
            },
            Downloadable::Etag(task) => {
                task.phase = EtagPhase::Idle;
            },
            Downloadable::Asset(task) => {
                task.phase = AssetPhase::Idle;
            },
        }
    }

    /// Takes an event and says what is to be done next.
    pub fn step(&mut self, event: Event) -> (action: Action)
        ensures
            (final(self)@, action@) == old(self)@.step(event@),
    {
        match self {
            Downloadable::PreHashed(task) => task.step(event),
            Downloadable::Checksummed(task) => task.step(event),
            Downloadable::Etag(task) => task.step(event),
            Downloadable::Asset(task) => task.step(event),
        }
    }
}

/// The counts with all expected bytes come, and that reported.
pub open spec fn completed(monitor: MonitorView) -> MonitorView {
    MonitorView {
        current: monitor.total,
        reported: monitor.reported.push(
            crate::progress::ProgressUpdateView::SetProgress(
                crate::download::reported_count(monitor.total),
            ),
        ),
        ..monitor
    }
}

} // verus!
