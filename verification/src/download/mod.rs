//! Fetch tasks and the job that runs them.
//!
//! Reading, writing and fetching are not done here. A task is a state
//! machine: it is handed what happened as an [`Event`] and answers with the
//! [`Action`] to perform next, until it answers with [`Action::Finish`].

use vstd::prelude::*;
use crate::checksum::{hex_encoded, Sha1Sum};
use crate::model::{view_opt, view_seq};
use crate::progress::{ProgressReporter, ProgressUpdateView};
use crate::text::{decimal, from_chars, push_str, signed_decimal, split, split_chars, to_chars};

pub mod asset;
pub mod checksummed;
pub mod downloadable;
pub mod etag;
pub mod job;
pub mod prehashed;
pub mod tasks;

verus! {

/// Why a download, or a job of downloads, failed.
#[derive(Debug)]
pub enum Error {
    /// The request failed.
    DownloadError(String),
    /// A file could not be read, written or removed.
    IoError(String),
    /// What was received does not have the checksum that was expected.
    ChecksumMismatch { expected: Sha1Sum, actual: Sha1Sum },
    /// The folder of the destination could not be made.
    PrepareFolderError(String),
    /// The text is no URL.
    UrlParseError(String),
    Other(String),
    /// A job ended with tasks that failed for good.
    JobFailed { name: String, failures: usize, total_time: i64 },
}

/// The mathematical value of an [`Error`].
pub enum ErrorView {
    DownloadError(Seq<char>),
    IoError(Seq<char>),
    ChecksumMismatch { expected: Seq<u8>, actual: Seq<u8> },
    PrepareFolderError(Seq<char>),
    UrlParseError(Seq<char>),
    Other(Seq<char>),
    JobFailed { name: Seq<char>, failures: usize, total_time: i64 },
}

impl View for Error {
    type V = ErrorView;

    open spec fn view(&self) -> ErrorView {
        match *self {
            Error::DownloadError(message) => ErrorView::DownloadError(message@),
            Error::IoError(message) => ErrorView::IoError(message@),
            Error::ChecksumMismatch { expected, actual } => ErrorView::ChecksumMismatch {
                expected: expected@,
                actual: actual@,
            },
            Error::PrepareFolderError(message) => ErrorView::PrepareFolderError(message@),
            Error::UrlParseError(text) => ErrorView::UrlParseError(text@),
            Error::Other(message) => ErrorView::Other(message@),
            Error::JobFailed { name, failures, total_time } => ErrorView::JobFailed {
                name: name@,
                failures,
                total_time,
            },
        }
    }
}

impl Clone for Error {
    fn clone(&self) -> (out: Self)
        ensures
            out@ == self@,
    {
        match self {
            Error::DownloadError(message) => Error::DownloadError(message.clone()),
            Error::IoError(message) => Error::IoError(message.clone()),
            Error::ChecksumMismatch { expected, actual } => Error::ChecksumMismatch {
                expected: *expected,
                actual: *actual,
            },
            Error::PrepareFolderError(message) => Error::PrepareFolderError(message.clone()),
            Error::UrlParseError(text) => Error::UrlParseError(text.clone()),
            Error::Other(message) => Error::Other(message.clone()),
            Error::JobFailed { name, failures, total_time } => Error::JobFailed {
                name: name.clone(),
                failures: *failures,
                total_time: *total_time,
            },
        }
    }
}

/// The message of an error.
pub open spec fn error_message(error: ErrorView) -> Seq<char> {
    match error {
        ErrorView::DownloadError(message) => "failed to download: "@ + message,
        ErrorView::IoError(message) => message,
        ErrorView::ChecksumMismatch { expected, actual } =>
            "Checksum did not match downloaded file (Checksum was "@ + hex_encoded(actual)
                + ", downloaded "@ + hex_encoded(expected) + seq![')'],
        ErrorView::PrepareFolderError(message) => "failed to prepare destination folder: "@
            + message,
        ErrorView::UrlParseError(text) => "Couldn't parse URL: "@ + text,
        ErrorView::Other(message) => message,
        ErrorView::JobFailed { name, failures, total_time } => "Job '"@ + name
            + "' finished with "@ + decimal(failures as nat) + " failure(s)! (took "@
            + signed_decimal(total_time as int) + "s)"@,
    }
}

impl Error {
    /// The message of the error.
    pub fn to_string(&self) -> (message: String)
        ensures
            message@ == error_message(self@),
    {
        let mut out: Vec<char> = Vec::new();
        match self {
            Error::DownloadError(message) => {
                push_str(&mut out, "failed to download: ");
                push_str(&mut out, message.as_str());
            },
            Error::IoError(message) => {
                push_str(&mut out, message.as_str());
            },
            Error::ChecksumMismatch { expected, actual } => {
                push_str(&mut out, "Checksum did not match downloaded file (Checksum was ");
                push_str(&mut out, actual.to_string().as_str());
                push_str(&mut out, ", downloaded ");
                push_str(&mut out, expected.to_string().as_str());
                out.push(')');
            },
            Error::PrepareFolderError(message) => {
                push_str(&mut out, "failed to prepare destination folder: ");
                push_str(&mut out, message.as_str());
            },
            Error::UrlParseError(text) => {
                push_str(&mut out, "Couldn't parse URL: ");
                push_str(&mut out, text.as_str());
            },
            Error::Other(message) => {
                push_str(&mut out, message.as_str());
            },
            Error::JobFailed { name, failures, total_time } => {
                push_str(&mut out, "Job '");
                push_str(&mut out, name.as_str());
                push_str(&mut out, "' finished with ");
                crate::text::push_decimal(&mut out, *failures as u64);
                push_str(&mut out, " failure(s)! (took ");
                crate::text::push_signed_decimal(&mut out, *total_time);
                push_str(&mut out, "s)");
            },
        }
        assert(out@ =~= error_message(self@));
        from_chars(out.as_slice())
    }
}

/// What a server answered.
#[derive(Debug)]
pub struct Response {
    /// The length that the server announced, if it announced one.
    pub content_length: Option<u64>,
    /// The `ETag` header, if there is one that is text.
    pub etag: Option<String>,
    pub body: Vec<u8>,
}

/// The mathematical value of a [`Response`].
pub struct ResponseView {
    pub content_length: Option<u64>,
    pub etag: Option<Seq<char>>,
    pub body: Seq<u8>,
}

impl View for Response {
    type V = ResponseView;

    open spec fn view(&self) -> ResponseView {
        ResponseView {
            content_length: self.content_length,
            etag: view_opt(self.etag),
            body: self.body@,
        }
    }
}

/// What happened: the outcome of the action that a task asked for last.
#[derive(Debug)]
pub enum Event {
    /// A new attempt begins.
    Begin,
    /// The folder is there, or the file was written or removed.
    Done,
    /// The action failed.
    Failed(String),
    /// What the file holds, or `None` where there is no such file.
    File(Option<Vec<u8>>),
    /// The size of the file, or `None` where there is no such file.
    FileSize(Option<u64>),
    /// The answer to a request that succeeded.
    Response(Response),
}

/// The mathematical value of an [`Event`].
pub enum EventView {
    Begin,
    Done,
    Failed(Seq<char>),
    File(Option<Seq<u8>>),
    FileSize(Option<u64>),
    Response(ResponseView),
}

impl View for Event {
    type V = EventView;

    open spec fn view(&self) -> EventView {
        match *self {
            Event::Begin => EventView::Begin,
            Event::Done => EventView::Done,
            Event::Failed(message) => EventView::Failed(message@),
            Event::File(contents) => EventView::File(
                match contents {
                    Some(bytes) => Some(bytes@),
                    None => None,
                },
            ),
            Event::FileSize(size) => EventView::FileSize(size),
            Event::Response(response) => EventView::Response(response@),
        }
    }
}

/// What is to be done next for a task.
#[derive(Debug)]
pub enum Action {
    /// Make sure that the folder that is to hold `file` exists; answer with
    /// `Done` or `Failed`.
    PrepareFolder { file: String },
    /// Read the file; answer with `File` or `Failed`.
    ReadFile { path: String },
    /// Find the size of the file; answer with `FileSize` or `Failed`.
    StatFile { path: String },
    /// Remove the file; answer with `Done` or `Failed`.
    RemoveFile { path: String },
    /// Write the file; answer with `Done` or `Failed`.
    WriteFile { path: String, data: Vec<u8> },
    /// Request the URL; answer with `Response`, or with `Failed` where the
    /// request fails or the server reports an error.
    Get { url: String },
    /// The attempt is over.
    Finish(Result<(), Error>),
}

/// The mathematical value of an [`Action`].
pub enum ActionView {
    PrepareFolder { file: Seq<char> },
    ReadFile { path: Seq<char> },
    StatFile { path: Seq<char> },
    RemoveFile { path: Seq<char> },
    WriteFile { path: Seq<char>, data: Seq<u8> },
    Get { url: Seq<char> },
    Finish(Result<(), ErrorView>),
}

impl View for Action {
    type V = ActionView;

    open spec fn view(&self) -> ActionView {
        match *self {
            Action::PrepareFolder { file } => ActionView::PrepareFolder { file: file@ },
            Action::ReadFile { path } => ActionView::ReadFile { path: path@ },
            Action::StatFile { path } => ActionView::StatFile { path: path@ },
            Action::RemoveFile { path } => ActionView::RemoveFile { path: path@ },
            Action::WriteFile { path, data } => ActionView::WriteFile { path: path@, data: data@ },
            Action::Get { url } => ActionView::Get { url: url@ },
            Action::Finish(result) => ActionView::Finish(
                match result {
                    Ok(()) => Ok(()),
                    Err(error) => Err(error@),
                },
            ),
        }
    }
}

/// The failure that ends an attempt when an event comes that the task did
/// not ask for.
pub open spec fn unexpected() -> ActionView {
    ActionView::Finish(Err(ErrorView::Other("unexpected event"@)))
}

/// Ends an attempt on an event that the task did not ask for.
pub fn unexpected_event() -> (action: Action)
    ensures
        action@ == unexpected(),
{
    Action::Finish(Err(Error::Other("unexpected event".to_owned())))
}

/// The byte counts of a task, and where their changes are reported.
#[derive(Debug)]
pub struct DownloadableMonitor {
    current: usize,
    total: usize,
    reporter: ProgressReporter,
}

/// The mathematical value of a [`DownloadableMonitor`].
pub struct MonitorView {
    pub current: usize,
    pub total: usize,
    /// The updates reported and not yet taken.
    pub reported: Seq<ProgressUpdateView>,
}

impl View for DownloadableMonitor {
    type V = MonitorView;

    closed spec fn view(&self) -> MonitorView {
        MonitorView { current: self.current, total: self.total, reported: self.reporter@ }
    }
}

/// A count as it is reported: its low 32 bits.
pub open spec fn reported_count(count: usize) -> u32 {
    (count as int % 0x1_0000_0000) as u32
}

fn low_bits(count: usize) -> (low: u32)
    ensures
        low == reported_count(count),
{
    let wide: u64 = count as u64;
    (wide % 0x1_0000_0000) as u32
}

impl DownloadableMonitor {
    /// A monitor with the given counts, which has reported nothing.
    pub fn new(current: usize, total: usize) -> (monitor: Self)
        ensures
            monitor@ == (MonitorView {
                current,
                total,
                reported: Seq::<ProgressUpdateView>::empty(),
            }),
    {
        DownloadableMonitor { current, total, reporter: ProgressReporter::new() }
    }

    /// How many bytes have come.
    pub fn get_current(&self) -> (current: usize)
        ensures
            current == self@.current,
    {
        self.current
    }

    /// How many bytes are expected.
    pub fn get_total(&self) -> (total: usize)
        ensures
            total == self@.total,
    {
        self.total
    }

    /// Sets how many bytes have come, and reports it.
    pub fn set_current(&mut self, current: usize)
        ensures
            final(self)@ == (MonitorView {
                current,
                reported: old(self)@.reported.push(
                    ProgressUpdateView::SetProgress(reported_count(current)),
                ),
                ..old(self)@
            }),
    {
        self.current = current;
        self.reporter.set_progress(low_bits(current));
    }

    /// Sets how many bytes are expected, and reports it.
    pub fn set_total(&mut self, total: usize)
        ensures
            final(self)@ == (MonitorView {
                total,
                reported: old(self)@.reported.push(
                    ProgressUpdateView::SetTotal(reported_count(total)),
                ),
                ..old(self)@
            }),
    {
        self.total = total;
        self.reporter.set_total(low_bits(total));
    }

    /// Puts `reporter` in the place of the reporter of the monitor; what
    /// the old one held is dropped with it.
    pub fn set_reporter(&mut self, reporter: ProgressReporter)
        ensures
            final(self)@ == (MonitorView { reported: reporter@, ..old(self)@ }),
    {
        self.reporter = reporter;
    }

    /// Hands out what has been reported since the last time.
    pub fn take_reported(&mut self) -> (updates: Vec<crate::progress::ProgressUpdate>)
        ensures
            view_seq(updates@) == old(self)@.reported,
            final(self)@ == (MonitorView {
                reported: Seq::<ProgressUpdateView>::empty(),
                ..old(self)@
            }),
    {
        self.reporter.take_updates()
    }
}

/// The counts after an answer came: the total is the announced length where
/// one was announced.
pub open spec fn announced(monitor: MonitorView, content_length: Option<u64>) -> MonitorView {
    match content_length {
        Some(length) => MonitorView {
            total: length as usize,
            reported: monitor.reported.push(
                ProgressUpdateView::SetTotal(reported_count(length as usize)),
            ),
            ..monitor
        },
        None => monitor,
    }
}

/// Takes the announced length of an answer as the total of the monitor.
pub fn announce(monitor: &mut DownloadableMonitor, content_length: Option<u64>)
    ensures
        final(monitor)@ == announced(old(monitor)@, content_length),
{
    if let Some(length) = content_length {
        monitor.set_total(length as usize);
    }
}

/// The last piece of a path that is not empty and is not `..`.
pub open spec fn file_name(path: Seq<char>) -> Option<Seq<char>> {
    last_name(split(path, '/'))
}

/// The last of the pieces that is not empty, unless it is `..`.
pub open spec fn last_name(pieces: Seq<Seq<char>>) -> Option<Seq<char>>
    decreases pieces.len(),
{
    if pieces.len() == 0 {
        None
    } else if pieces.last().len() == 0 {
        last_name(pieces.drop_last())
    } else if pieces.last() == seq!['.', '.'] {
        None
    } else {
        Some(pieces.last())
    }
}

/// The status of a task that downloads `target_file` from `url`:
/// `Downloading` and the name of the file, or the URL where the path has no
/// file name.
pub open spec fn download_status(target_file: Seq<char>, url: Seq<char>) -> Seq<char> {
    "Downloading "@ + match file_name(target_file) {
        Some(name) => name,
        None => url,
    }
}

/// The status of a task that downloads `target_file` from `url`.
pub fn status_of(target_file: &str, url: &str) -> (status: String)
    ensures
        status@ == download_status(target_file@, url@),
{
    let chars = to_chars(target_file);
    let pieces = split_chars(&chars, '/');
    let ghost all = split(target_file@, '/');
    let mut out: Vec<char> = Vec::new();
    push_str(&mut out, "Downloading ");
    let mut i: usize = pieces.len();
    assert(all.take(all.len() as int) =~= all);
    while i > 0
        invariant
            i <= pieces.len(),
            all == split(target_file@, '/'),
            pieces@.len() == all.len(),
            forall|k: int| 0 <= k < pieces@.len() ==> (#[trigger] pieces@[k])@ == all[k],
            last_name(all) == last_name(all.take(i as int)),
            out@ == "Downloading "@,
        decreases i,
    {
        let piece = &pieces[i - 1];
        assert(all.take(i as int).last() == all[i - 1]);
        assert(all.take(i as int).drop_last() =~= all.take(i - 1));
        if piece.len() == 0 {
            i -= 1;
        } else if piece.len() == 2 && piece[0] == '.' && piece[1] == '.' {
            assert(piece@ =~= seq!['.', '.']);
            push_str(&mut out, url);
            return from_chars(out.as_slice());
        } else {
            crate::text::push_chars(&mut out, piece);
            return from_chars(out.as_slice());
        }
    }
    assert(all.take(0) =~= Seq::<Seq<char>>::empty());
    push_str(&mut out, url);
    from_chars(out.as_slice())
}

} // verus!
