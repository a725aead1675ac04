//! A task that is checked against the `ETag` that the server sends.
//!
//! The file is always requested. A tag that holds a hyphen cannot be
//! compared with what came and is accepted. Any other tag must be the MD5
//! digest of what came, written as lower-case hexadecimal digits.

use vstd::prelude::*;
use crate::checksum::{hex_digit, hex_encode, hex_encoded, lemma_hex_is_injective};
use crate::download::prehashed::{bump, bumped, DEFAULT_TOTAL};
use crate::download::{
    announce, announced, unexpected, unexpected_event, Action, ActionView, DownloadableMonitor,
    Error, ErrorView, Event, EventView, MonitorView, Response,
};
use crate::progress::ProgressUpdateView;
use crate::text::{from_chars, has_char, push_str, slice_chars, str_eq, to_chars};

verus! {

/// The MD5 digest of a sequence of bytes, as the `md5` crate computes it.
pub uninterp spec fn md5_digest(data: Seq<u8>) -> Seq<u8>;

/// `md5::compute`: the digest of `data`. The result is named, not computed
/// here: it is a function of the bytes alone.
#[verifier::external_body]
fn md5_of(data: &[u8]) -> (digest: [u8; 16])
    ensures
        digest@ == md5_digest(data@),
{
    md5::compute(data).0
}

/// Where an attempt of a task stands.
#[derive(Debug, Clone, Copy, PartialEq, Eq, Structural)]
pub enum EtagPhase {
    /// No attempt is under way.
    Idle,
    PreparingFolder,
    Fetching,
    Writing,
}

/// A task that is checked against the `ETag` of the answer.
#[derive(Debug)]
pub struct EtagDownloadable {
    pub url: String,
    pub target_file: String,
    pub force_download: bool,
    pub attempts: usize,
    pub start_time: Option<u64>,
    pub end_time: Option<u64>,
    pub monitor: DownloadableMonitor,
    pub phase: EtagPhase,
}

/// The mathematical value of an [`EtagDownloadable`].
pub struct EtagView {
    pub url: Seq<char>,
    pub target_file: Seq<char>,
    pub force_download: bool,
    pub attempts: usize,
    pub start_time: Option<u64>,
    pub end_time: Option<u64>,
    pub monitor: MonitorView,
    pub phase: EtagPhase,
}

impl View for EtagDownloadable {
    type V = EtagView;

    open spec fn view(&self) -> EtagView {
        EtagView {
            url: self.url@,
            target_file: self.target_file@,
            force_download: self.force_download,
            attempts: self.attempts,
            start_time: self.start_time,
            end_time: self.end_time,
            monitor: self.monitor@,
            phase: self.phase,
        }
    }
}

/// The tag of an answer: a hyphen where the header is missing; otherwise
/// the header, without the quotation marks around it where it has them.
pub open spec fn etag_value(header: Option<Seq<char>>) -> Seq<char> {
    match header {
        None => seq!['-'],
        Some(raw) => if raw.len() >= 2 && raw[0] == '"' && raw.last() == '"' {
            raw.subrange(1, raw.len() - 1)
        } else {
            raw
        },
    }
}

/// Whether what came is accepted under a tag: the tag holds a hyphen, or
/// it is the MD5 digest of the body in lower-case hexadecimal digits.
pub open spec fn etag_accepts(tag: Seq<char>, body: Seq<u8>) -> bool {
    tag.contains('-') || tag == hex_encoded(md5_digest(body))
}

/// The message of the failure on a tag that does not match.
pub open spec fn etag_mismatch(tag: Seq<char>) -> Seq<char> {
    "ETag did not match downloaded file (ETag was "@ + tag + seq![')']
}

/// What a task does on an event, and the task after it.
pub open spec fn etag_step(task: EtagView, event: EventView) -> (EtagView, ActionView) {
    let idle = EtagView { phase: EtagPhase::Idle, ..task };
    match (task.phase, event) {
        (EtagPhase::Idle, EventView::Begin) => (
            EtagView { attempts: bumped(task.attempts), phase: EtagPhase::PreparingFolder, ..task },
            ActionView::PrepareFolder { file: task.target_file },
        ),
        (EtagPhase::PreparingFolder, EventView::Done) => (
            EtagView { phase: EtagPhase::Fetching, ..task },
            ActionView::Get { url: task.url },
        ),
        (EtagPhase::PreparingFolder, EventView::Failed(message)) => (
            idle,
            ActionView::Finish(Err(ErrorView::PrepareFolderError(message))),
        ),
        (EtagPhase::Fetching, EventView::Response(response)) => {
            let monitor = announced(task.monitor, response.content_length);
            let tag = etag_value(response.etag);
            if etag_accepts(tag, response.body) {
                (
                    EtagView { monitor, phase: EtagPhase::Writing, ..task },
                    ActionView::WriteFile { path: task.target_file, data: response.body },
                )
            } else {
                (
                    EtagView { monitor, phase: EtagPhase::Idle, ..task },
                    ActionView::Finish(Err(ErrorView::Other(etag_mismatch(tag)))),
                )
            }
        },
        (EtagPhase::Fetching, EventView::Failed(message)) => (
            idle,
            ActionView::Finish(Err(ErrorView::DownloadError(message))),
        ),
        (EtagPhase::Writing, EventView::Done) => (idle, ActionView::Finish(Ok(()))),
        (EtagPhase::Writing, EventView::Failed(message)) => (
            idle,
            ActionView::Finish(Err(ErrorView::IoError(message))),
        ),
        _ => (idle, unexpected()),
    }
}

impl EtagDownloadable {
    /// A task that fetches `url` into `target_file`.
    pub fn new(url: &str, target_file: &str, force_download: bool) -> (task: Self)
        ensures
            task@ == (EtagView {
                url: url@,
                target_file: target_file@,
                force_download,
                attempts: 0,
                start_time: None,
                end_time: None,
                monitor: MonitorView {
                    current: 0,
                    total: DEFAULT_TOTAL,
                    reported: Seq::<ProgressUpdateView>::empty(),
                },
                phase: EtagPhase::Idle,
            }),
    {
        EtagDownloadable {
            url: url.to_owned(),
            target_file: target_file.to_owned(),
            force_download,
            attempts: 0,
            start_time: None,
            end_time: None,
            monitor: DownloadableMonitor::new(0, DEFAULT_TOTAL),
            phase: EtagPhase::Idle,
        }
    }

    /// The tag of an answer with the given `ETag` header.
    pub fn get_etag(etag: Option<&str>) -> (tag: String)
        ensures
            tag@ == etag_value(
                match etag {
                    Some(raw) => Some(raw@),
                    None => None,
                },
            ),
    {
        match etag {
            None => {
                let mut out: Vec<char> = Vec::new();
                out.push('-');
                from_chars(out.as_slice())
            },
            Some(raw) => {
                let chars = to_chars(raw);
                let n = chars.len();
                if n >= 2 && chars[0] == '"' && chars[n - 1] == '"' {
                    let inner = slice_chars(&chars, 1, n - 1);
                    from_chars(inner.as_slice())
                } else {
                    raw.to_owned()
                }
            },
        }
    }

    /// Whether what came is accepted under `tag`.
    pub fn accepts(tag: &str, body: &[u8]) -> (accepted: bool)
        ensures
            accepted == etag_accepts(tag@, body@),
    {
        let chars = to_chars(tag);
        if has_char(&chars, '-') {
            return true;
        }
        let digest = md5_of(body);
        let written = hex_encode(digest.as_slice());
        str_eq(tag, written.as_str())
    }

    /// Takes an event and says what is to be done next.
    pub fn step(&mut self, event: Event) -> (action: Action)
        ensures
            (final(self)@, action@) == etag_step(old(self)@, event@),
    {
        let phase = self.phase;
        self.phase = EtagPhase::Idle;
        match (phase, event) {
            (EtagPhase::Idle, Event::Begin) => {
                self.attempts = bump(self.attempts);
                self.phase = EtagPhase::PreparingFolder;
                Action::PrepareFolder { file: self.target_file.clone() }
            },
            (EtagPhase::PreparingFolder, Event::Done) => {
                self.phase = EtagPhase::Fetching;
                Action::Get { url: self.url.clone() }
            },
            (EtagPhase::PreparingFolder, Event::Failed(message)) => Action::Finish(
                Err(Error::PrepareFolderError(message)),
            ),
            (EtagPhase::Fetching, Event::Response(response)) => {
                let Response { content_length, etag, body } = response;
                announce(&mut self.monitor, content_length);
                let tag = EtagDownloadable::get_etag(
                    match &etag {
                        Some(raw) => Some(raw.as_str()),
                        None => None,
                    },
                );
                if EtagDownloadable::accepts(tag.as_str(), body.as_slice()) {
                    self.phase = EtagPhase::Writing;
                    Action::WriteFile { path: self.target_file.clone(), data: body }
                } else {
                    let mut out: Vec<char> = Vec::new();
                    push_str(&mut out, "ETag did not match downloaded file (ETag was ");
                    push_str(&mut out, tag.as_str());
                    out.push(')');
                    assert(out@ =~= etag_mismatch(tag@));
                    Action::Finish(Err(Error::Other(from_chars(out.as_slice()))))
                }
            },
            (EtagPhase::Fetching, Event::Failed(message)) => Action::Finish(
                Err(Error::DownloadError(message)),
            ),
            (EtagPhase::Writing, Event::Done) => Action::Finish(Ok(())),
            (EtagPhase::Writing, Event::Failed(message)) => Action::Finish(
                Err(Error::IoError(message)),
            ),
            _ => unexpected_event(),
        }
    }
}

/// An answer without a tag, or with a tag that holds a hyphen, is accepted
/// whatever its body is.
pub proof fn lemma_weak_tag_is_accepted(header: Option<Seq<char>>, body: Seq<u8>)
    requires
        header is None || etag_value(header).contains('-'),
    ensures
        etag_accepts(etag_value(header), body),
{
    if header is None {
        assert(etag_value(header)[0] == '-');
    }
}

/// An answer whose tag is the MD5 digest of its body in hexadecimal
/// digits, between quotation marks or without them, is accepted.
pub proof fn lemma_digest_tag_is_accepted(body: Seq<u8>)
    ensures
        etag_accepts(etag_value(Some(hex_encoded(md5_digest(body)))), body),
        etag_accepts(
            etag_value(Some(seq!['"'] + hex_encoded(md5_digest(body)) + seq!['"'])),
            body,
        ),
{
    let written = hex_encoded(md5_digest(body));
    if written.len() > 0 {
        let high = md5_digest(body)[0] as int / 16;
        assert(0 <= high < 16);
        assert(written[0] == hex_digit(high));
        assert(written[0] != '"');
    }
    let quoted = seq!['"'] + written + seq!['"'];
    assert(quoted.subrange(1, quoted.len() - 1) =~= written);
}

/// A tag without a hyphen is accepted for one digest only: two bodies that
/// it accepts have the same MD5 digest.
pub proof fn lemma_strong_tag_names_one_digest(tag: Seq<char>, first: Seq<u8>, second: Seq<u8>)
    requires
        !tag.contains('-'),
        etag_accepts(tag, first),
        etag_accepts(tag, second),
    ensures
        md5_digest(first) == md5_digest(second),
{
    lemma_hex_is_injective(md5_digest(first), md5_digest(second));
}

} // verus!
