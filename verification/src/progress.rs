//! Progress of a job: the updates that a job emits, and what a display
//! shows after them.

use vstd::prelude::*;
use crate::model::{lemma_view_seq_push, view_opt, view_seq};

verus! {

/// One change of what is shown.
#[derive(Debug)]
pub enum ProgressUpdate {
    SetStatus(String),
    SetProgress(u32),
    SetTotal(u32),
    SetAll(String, u32, u32),
    Clear,
}

/// The mathematical value of a [`ProgressUpdate`].
pub enum ProgressUpdateView {
    SetStatus(Seq<char>),
    SetProgress(u32),
    SetTotal(u32),
    SetAll(Seq<char>, u32, u32),
    Clear,
}

impl View for ProgressUpdate {
    type V = ProgressUpdateView;

    open spec fn view(&self) -> ProgressUpdateView {
        match *self {
            ProgressUpdate::SetStatus(status) => ProgressUpdateView::SetStatus(status@),
            ProgressUpdate::SetProgress(progress) => ProgressUpdateView::SetProgress(progress),
            ProgressUpdate::SetTotal(total) => ProgressUpdateView::SetTotal(total),
            ProgressUpdate::SetAll(status, progress, total) => ProgressUpdateView::SetAll(
                status@,
                progress,
                total,
            ),
            ProgressUpdate::Clear => ProgressUpdateView::Clear,
        }
    }
}

impl Clone for ProgressUpdate {
    fn clone(&self) -> (out: Self)
        ensures
            out@ == self@,
    {
        match self {
            ProgressUpdate::SetStatus(status) => ProgressUpdate::SetStatus(status.clone()),
            ProgressUpdate::SetProgress(progress) => ProgressUpdate::SetProgress(*progress),
            ProgressUpdate::SetTotal(total) => ProgressUpdate::SetTotal(*total),
            ProgressUpdate::SetAll(status, progress, total) => ProgressUpdate::SetAll(
                status.clone(),
                *progress,
                *total,
            ),
            ProgressUpdate::Clear => ProgressUpdate::Clear,
        }
    }
}

/// Collects the updates that are to be shown, in the order in which they
/// were made, until they are taken.
#[derive(Debug)]
pub struct ProgressReporter {
    updates: Vec<ProgressUpdate>,
}

impl View for ProgressReporter {
    type V = Seq<ProgressUpdateView>;

    closed spec fn view(&self) -> Seq<ProgressUpdateView> {
        view_seq(self.updates@)
    }
}

impl ProgressReporter {
    /// A reporter that holds no update.
    pub fn new() -> (reporter: Self)
        ensures
            reporter@ == Seq::<ProgressUpdateView>::empty(),
    {
        let reporter = ProgressReporter { updates: Vec::new() };
        assert(reporter@ =~= Seq::<ProgressUpdateView>::empty());
        reporter
    }

    /// Adds an update.
    pub fn update(&mut self, update: ProgressUpdate)
        ensures
            final(self)@ == old(self)@.push(update@),
    {
        proof {
            lemma_view_seq_push(self.updates@, update);
        }
        self.updates.push(update);
    }

    /// Sets the status that is shown.
    pub fn set_status(&mut self, status: &str)
        ensures
            final(self)@ == old(self)@.push(ProgressUpdateView::SetStatus(status@)),
    {
        self.update(ProgressUpdate::SetStatus(status.to_owned()));
    }

    /// Sets how far the work has come.
    pub fn set_progress(&mut self, progress: u32)
        ensures
            final(self)@ == old(self)@.push(ProgressUpdateView::SetProgress(progress)),
    {
        self.update(ProgressUpdate::SetProgress(progress));
    }

    /// Sets how much work there is.
    pub fn set_total(&mut self, total: u32)
        ensures
            final(self)@ == old(self)@.push(ProgressUpdateView::SetTotal(total)),
    {
        self.update(ProgressUpdate::SetTotal(total));
    }

    /// Sets status, progress and total at once.
    pub fn set(&mut self, status: &str, progress: u32, total: u32)
        ensures
            final(self)@ == old(self)@.push(ProgressUpdateView::SetAll(status@, progress, total)),
    {
        self.update(ProgressUpdate::SetAll(status.to_owned(), progress, total));
    }

    /// Asks for nothing to be shown any more.
    pub fn clear(&mut self)
        ensures
            final(self)@ == old(self)@.push(ProgressUpdateView::Clear),
    {
        self.update(ProgressUpdate::Clear);
    }

    /// Hands out the updates collected so far, oldest first, and keeps
    /// none.
    pub fn take_updates(&mut self) -> (updates: Vec<ProgressUpdate>)
        ensures
            view_seq(updates@) == old(self)@,
            final(self)@ == Seq::<ProgressUpdateView>::empty(),
    {
        let mut updates: Vec<ProgressUpdate> = Vec::new();
        updates.append(&mut self.updates);
        assert(view_seq(updates@) =~= old(self)@);
        assert(self@ =~= Seq::<ProgressUpdateView>::empty());
        updates
    }
}

impl Default for ProgressReporter {
    fn default() -> (reporter: Self)
        ensures
            reporter@ == Seq::<ProgressUpdateView>::empty(),
    {
        ProgressReporter::new()
    }
}

impl Clone for ProgressReporter {
    fn clone(&self) -> (out: Self)
        ensures
            out@ == self@,
    {
        let updates = self.updates.clone();
        proof {
            crate::model::lemma_view_seq_eq(updates@, self.updates@);
        }
        ProgressReporter { updates }
    }
}

/// What a display shows of a download: a status and how far it has come.
#[derive(Debug)]
pub struct DownloadProgress {
    status: String,
    current: u64,
    total: u64,
}

/// The mathematical value of a [`DownloadProgress`].
pub struct DownloadProgressView {
    pub status: Seq<char>,
    pub current: u64,
    pub total: u64,
}

impl View for DownloadProgress {
    type V = DownloadProgressView;

    closed spec fn view(&self) -> DownloadProgressView {
        DownloadProgressView { status: self.status@, current: self.current, total: self.total }
    }
}

impl Clone for DownloadProgress {
    fn clone(&self) -> (out: Self)
        ensures
            out@ == self@,
    {
        DownloadProgress { status: self.status.clone(), current: self.current, total: self.total }
    }
}

impl DownloadProgress {
    /// The progress with the given status and counts.
    pub fn new(status: &str, current: u64, total: u64) -> (progress: Self)
        ensures
            progress@ == (DownloadProgressView { status: status@, current, total }),
    {
        DownloadProgress { status: status.to_owned(), current, total }
    }

    /// The status.
    pub fn get_status(&self) -> (status: &str)
        ensures
            status@ == self@.status,
    {
        self.status.as_str()
    }

    /// How far the download has come.
    pub fn get_current(&self) -> (current: u64)
        ensures
            current == self@.current,
    {
        self.current
    }

    /// How much there is to download.
    pub fn get_total(&self) -> (total: u64)
        ensures
            total == self@.total,
    {
        self.total
    }
}

/// What a display shows after an update: nothing after `Clear`; otherwise
/// what it showed, or an empty status and zero counts where it showed
/// nothing, with the parts that the update sets replaced.
pub open spec fn shown_after(shown: Option<DownloadProgressView>, update: ProgressUpdateView) -> Option<
    DownloadProgressView,
> {
    let base = match shown {
        Some(progress) => progress,
        None => DownloadProgressView { status: Seq::<char>::empty(), current: 0, total: 0 },
    };
    match update {
        ProgressUpdateView::Clear => None,
        ProgressUpdateView::SetStatus(status) => Some(DownloadProgressView { status, ..base }),
        ProgressUpdateView::SetProgress(progress) => Some(
            DownloadProgressView { current: progress as u64, ..base },
        ),
        ProgressUpdateView::SetTotal(total) => Some(
            DownloadProgressView { total: total as u64, ..base },
        ),
        ProgressUpdateView::SetAll(status, progress, total) => Some(
            DownloadProgressView { status, current: progress as u64, total: total as u64 },
        ),
    }
}

/// What a display shows after a sequence of updates.
pub open spec fn shown_after_all(
    shown: Option<DownloadProgressView>,
    updates: Seq<ProgressUpdateView>,
) -> Option<DownloadProgressView>
    decreases updates.len(),
{
    if updates.len() == 0 {
        shown
    } else {
        shown_after(shown_after_all(shown, updates.drop_last()), updates.last())
    }
}

/// Whatever was shown, nothing is shown after updates that end in `Clear`.
pub proof fn lemma_clear_hides(shown: Option<DownloadProgressView>, updates: Seq<ProgressUpdateView>)
    requires
        updates.len() > 0,
        updates.last() == ProgressUpdateView::Clear,
    ensures
        shown_after_all(shown, updates) is None,
{
}

/// What shows the progress of downloads.
pub trait Monitor {
    /// What is shown.
    spec fn shown(&self) -> Option<DownloadProgressView>;

    /// Shows `download_progress`.
    fn set_download_progress(&mut self, download_progress: DownloadProgress)
        ensures
            final(self).shown() == Some(download_progress@),
    ;

    /// Shows nothing.
    fn hide_download_progress(&mut self)
        ensures
            final(self).shown() is None,
    ;

    /// What is shown.
    fn get_download_progress(&self) -> (progress: Option<&DownloadProgress>)
        ensures
            view_opt(progress) == self.shown(),
    ;

    /// Shows what follows from an update.
    fn apply(&mut self, update: &ProgressUpdate)
        ensures
            final(self).shown() == shown_after(old(self).shown(), update@),
    ;
}

/// A monitor that only remembers what it was told to show.
#[derive(Debug)]
pub struct MockMonitor(pub Option<DownloadProgress>);

impl MockMonitor {
    /// A monitor that shows nothing.
    pub fn new() -> (monitor: Self)
        ensures
            monitor.shown() is None,
    {
        MockMonitor(None)
    }
}

impl Monitor for MockMonitor {
    open spec fn shown(&self) -> Option<DownloadProgressView> {
        view_opt(self.0)
    }

    fn set_download_progress(&mut self, download_progress: DownloadProgress) {
        self.0 = Some(download_progress);
    }

    fn hide_download_progress(&mut self) {
        self.0 = None;
    }

    fn get_download_progress(&self) -> (progress: Option<&DownloadProgress>) {
        self.0.as_ref()
    }

    fn apply(&mut self, update: &ProgressUpdate) {
        let (mut status, mut current, mut total) = match &self.0 {
            Some(progress) => (progress.status.clone(), progress.current, progress.total),
            None => (String::new(), 0u64, 0u64),
        };
        match update {
            ProgressUpdate::Clear => {
                self.0 = None;
                return ;
            },
            ProgressUpdate::SetStatus(text) => {
                status = text.clone();
            },
            ProgressUpdate::SetProgress(progress) => {
                current = *progress as u64;
            },
            ProgressUpdate::SetTotal(amount) => {
                total = *amount as u64;
            },
            ProgressUpdate::SetAll(text, progress, amount) => {
                status = text.clone();
                current = *progress as u64;
                total = *amount as u64;
            },
        }
        self.0 = Some(DownloadProgress { status, current, total });
    }
}

} // verus!
