//! A job: a batch of fetch tasks run by a bounded number of workers, each
//! task retried until it ends well or has used up its attempts. A task
//! whose folder cannot be made is given up at once.
//!
//! The job decides; it does not run anything. Whoever drives it asks
//! [`DownloadJob::next`] what to start, performs the actions of the tasks,
//! and hands each outcome to [`DownloadJob::handle`].

use vstd::prelude::*;
use crate::download::downloadable::{completed, lemma_step_shape, Downloadable, DownloadableView};
use crate::download::{unexpected, unexpected_event, Action, ActionView, Error, ErrorView, Event, EventView};
use crate::model::{lemma_view_seq_push, view_seq};
use crate::progress::{ProgressReporter, ProgressUpdate, ProgressUpdateView};
use crate::text::{from_chars, push_str};

verus! {

/// Where a task of a job stands.
#[derive(Debug, Clone, Copy, PartialEq, Eq, Structural)]
pub enum TaskState {
    /// Not begun.
    Pending,
    /// A worker is on it.
    Running,
    /// It ended well.
    Succeeded,
    /// It failed for good: it has no attempt left, or its folder could not
    /// be made.
    Failed,
}

/// A task of a job, with its state.
#[derive(Debug)]
pub struct Slot {
    pub task: Downloadable,
    pub state: TaskState,
}

/// The mathematical value of a [`Slot`].
pub struct SlotView {
    pub task: DownloadableView,
    pub state: TaskState,
}

impl View for Slot {
    type V = SlotView;

    open spec fn view(&self) -> SlotView {
        SlotView { task: self.task@, state: self.state }
    }
}

/// What a job asks its driver to do.
#[derive(Debug)]
pub enum JobAction {
    /// A worker takes the task at `index`; `action` is the first thing to
    /// do for it.
    Start { index: usize, action: Action },
    /// Nothing can be started before a running task has gone on.
    Wait,
    /// No task is pending or running.
    Done,
}

/// The mathematical value of a [`JobAction`].
pub enum JobActionView {
    Start { index: usize, action: ActionView },
    Wait,
    Done,
}

impl View for JobAction {
    type V = JobActionView;

    open spec fn view(&self) -> JobActionView {
        match *self {
            JobAction::Start { index, action } => JobActionView::Start { index, action: action@ },
            JobAction::Wait => JobActionView::Wait,
            JobAction::Done => JobActionView::Done,
        }
    }
}

/// The failure of a task that has no attempt left.
pub open spec fn gave_up(task: DownloadableView) -> ErrorView {
    ErrorView::Other("Gave up trying to download "@ + task.url())
}

/// Whether a failed attempt may be followed by another one: any failure
/// but that of making the folder may.
pub open spec fn retried(error: ErrorView) -> bool {
    !(error is PrepareFolderError)
}

/// Whether an action ends an attempt because the folder could not be made.
pub open spec fn folder_failed(action: ActionView) -> bool {
    match action {
        ActionView::Finish(Err(error)) => !retried(error),
        _ => false,
    }
}

/// What becomes of a task that is told to begin, under a limit of `max`
/// attempts: a task that has used up its attempts is not attempted and has
/// failed for good; otherwise a new attempt begins.
pub open spec fn begun(task: DownloadableView, max: u8, now: u64) -> (
    DownloadableView,
    TaskState,
    ActionView,
)
    decreases max - task.attempts(), 0nat,
    via begun_decreases
{
    if task.attempts() >= max {
        (task, TaskState::Failed, ActionView::Finish(Err(gave_up(task))))
    } else {
        let (next, action) = task.at_rest().step(EventView::Begin);
        settled(next, action, max, now)
    }
}

/// What becomes of a task that has answered with `action`: it goes on
/// running unless the attempt is over. After an attempt, all expected
/// bytes count as come. An attempt that ended well sets the end time and
/// finishes the task. One that failed because the folder could not be
/// made fails the task for good. One that failed otherwise is followed at
/// once by the next attempt while fewer than `max` have been begun, and
/// fails the task for good where none is left.
pub open spec fn settled(task: DownloadableView, action: ActionView, max: u8, now: u64) -> (
    DownloadableView,
    TaskState,
    ActionView,
)
    decreases max - task.attempts(), 1nat,
{
    match action {
        ActionView::Finish(Ok(())) => (
            task.with_monitor(completed(task.monitor())).with_end_time(Some(now)),
            TaskState::Succeeded,
            action,
        ),
        ActionView::Finish(Err(error)) => {
            let done = task.with_monitor(completed(task.monitor()));
            if retried(error) && done.attempts() < max {
                begun(done, max, now)
            } else {
                (done, TaskState::Failed, action)
            }
        },
        _ => (task, TaskState::Running, action),
    }
}

#[via_fn]
proof fn begun_decreases(task: DownloadableView, max: u8, now: u64) {
    if task.attempts() < max {
        lemma_step_shape(task.at_rest(), EventView::Begin);
    }
}

/// A task is attempted no more often than the limit allows: where it had
/// not gone beyond the limit, it has not afterwards; and a task that
/// failed for good has used up its attempts, unless its folder could not
/// be made.
pub proof fn lemma_attempts_are_bounded(
    task: DownloadableView,
    action: ActionView,
    max: u8,
    now: u64,
    from_start: bool,
)
    requires
        task.attempts() <= max || from_start,
    ensures
        from_start ==> {
            &&& task.attempts() <= max ==> begun(task, max, now).0.attempts() <= max
            &&& begun(task, max, now).1 == TaskState::Failed ==> begun(task, max, now).0.attempts()
                >= max || folder_failed(begun(task, max, now).2)
            &&& begun(task, max, now).1 == TaskState::Running <==> !(begun(task, max, now).2
                is Finish)
        },
        !from_start ==> {
            &&& settled(task, action, max, now).0.attempts() <= max
            &&& settled(task, action, max, now).1 == TaskState::Failed ==> settled(
                task,
                action,
                max,
                now,
            ).0.attempts() >= max || folder_failed(settled(task, action, max, now).2)
            &&& settled(task, action, max, now).1 == TaskState::Running <==> !(settled(
                task,
                action,
                max,
                now,
            ).2 is Finish)
        },
    decreases
            max - task.attempts(),
            (if from_start {
                0nat
            } else {
                1nat
            }),
{
    if from_start {
        if task.attempts() < max {
            lemma_step_shape(task.at_rest(), EventView::Begin);
            let (next, first) = task.at_rest().step(EventView::Begin);
            lemma_attempts_are_bounded(next, first, max, now, false);
        }
    } else {
        match action {
            ActionView::Finish(Err(error)) => {
                let done = task.with_monitor(completed(task.monitor()));
                if retried(error) && done.attempts() < max {
                    lemma_attempts_are_bounded(done, action, max, now, true);
                }
            },
            _ => {},
        }
    }
}

/// Whether an attempt has ended with a failure.
pub open spec fn failed(action: ActionView) -> bool {
    action matches ActionView::Finish(Err(_))
}

/// Whether an attempt has ended well.
pub open spec fn ended_well(action: ActionView) -> bool {
    action matches ActionView::Finish(Ok(_))
}

/// What has become of a task that began, or whose attempt answered with
/// `action`: it has succeeded exactly where an attempt ended well, and then
/// carries the time of its end and has begun no attempt more; a failure
/// that does not fail it for good has begun at least one attempt more; and
/// while it runs it has an attempt under way. The time of its start stays.
pub proof fn lemma_attempt_outcome(
    task: DownloadableView,
    action: ActionView,
    max: u8,
    now: u64,
    from_start: bool,
)
    requires
        !from_start && !(action is Finish) ==> !task.idle(),
    ensures
        from_start ==> ({
            let (after, state, answer) = begun(task, max, now);
            &&& state != TaskState::Succeeded
            &&& state != TaskState::Pending
            &&& state == TaskState::Running ==> !after.idle()
            &&& state == TaskState::Running ==> after.attempts() >= task.attempts() + 1
            &&& after.start_time() == task.start_time()
            &&& after.end_time() == task.end_time()
        }),
        !from_start ==> ({
            let (after, state, answer) = settled(task, action, max, now);
            &&& state == TaskState::Succeeded <==> ended_well(action)
            &&& state != TaskState::Pending
            &&& state == TaskState::Succeeded ==> after.end_time() == Some(now) && after.attempts()
                == task.attempts()
            &&& state != TaskState::Succeeded ==> after.end_time() == task.end_time()
            &&& state == TaskState::Running ==> !after.idle()
            &&& state == TaskState::Running && failed(action) ==> after.attempts()
                >= task.attempts() + 1
            &&& !failed(action) ==> after.attempts() == task.attempts()
            &&& after.start_time() == task.start_time()
        }),
    decreases
            max - task.attempts(),
            (if from_start {
                0nat
            } else {
                1nat
            }),
{
    if from_start {
        if task.attempts() < max {
            lemma_step_shape(task.at_rest(), EventView::Begin);
            let (next, first) = task.at_rest().step(EventView::Begin);
            lemma_attempt_outcome(next, first, max, now, false);
        }
    } else {
        match action {
            ActionView::Finish(Err(error)) => {
                let done = task.with_monitor(completed(task.monitor()));
                if retried(error) && done.attempts() < max {
                    lemma_attempt_outcome(done, action, max, now, true);
                }
            },
            _ => {},
        }
    }
}

/// A task whose folder cannot be made has failed for good, however many
/// attempts are left, and begins no attempt more; and a task that is told
/// to begin without an attempt left has failed for good as it is.
pub proof fn lemma_final_failures(task: DownloadableView, message: Seq<char>, max: u8, now: u64)
    ensures
        ({
            let failure = ActionView::Finish(Err(ErrorView::PrepareFolderError(message)));
            let (after, state, answer) = settled(task, failure, max, now);
            &&& state == TaskState::Failed
            &&& answer == failure
            &&& after.attempts() == task.attempts()
        }),
        task.attempts() >= max ==> begun(task, max, now) == (
            task,
            TaskState::Failed,
            ActionView::Finish(Err(gave_up(task))),
        ),
{
}

/// The task and its state after the events have been handled one after the
/// other, each at its time, as [`handled`] does for the task of one slot:
/// while the task runs it takes the event, and what it answers is settled.
pub open spec fn driven(
    task: DownloadableView,
    state: TaskState,
    events: Seq<(EventView, u64)>,
    max: u8,
) -> (DownloadableView, TaskState)
    decreases events.len(),
{
    if events.len() == 0 {
        (task, state)
    } else {
        let (before, earlier) = driven(task, state, events.drop_last(), max);
        if earlier == TaskState::Running {
            let (stepped, answer) = before.step(events.last().0);
            let (after, then, _) = settled(stepped, answer, max, events.last().1);
            (after, then)
        } else {
            (before, earlier)
        }
    }
}

/// How many attempts have failed while the events were handled.
pub open spec fn failed_attempts(
    task: DownloadableView,
    state: TaskState,
    events: Seq<(EventView, u64)>,
    max: u8,
) -> nat
    decreases events.len(),
{
    if events.len() == 0 {
        0
    } else {
        let (before, earlier) = driven(task, state, events.drop_last(), max);
        failed_attempts(task, state, events.drop_last(), max) + if earlier == TaskState::Running
            && failed(before.step(events.last().0).1) {
            1nat
        } else {
            0nat
        }
    }
}

/// Attempts that fail within the budget are retried and do not fail the
/// task. Whatever events a running task is handed, it begins no more
/// attempts than the limit allows; unless it has failed for good, it has
/// begun at least one attempt more for every attempt that failed; it keeps
/// the time of its start; and where it has succeeded it carries the time
/// of its end.
pub proof fn lemma_failures_within_the_budget_are_retried(
    task: DownloadableView,
    events: Seq<(EventView, u64)>,
    max: u8,
)
    requires
        !task.idle(),
        task.attempts() <= max,
    ensures
        ({
            let (after, state) = driven(task, TaskState::Running, events, max);
            &&& after.attempts() <= max
            &&& state != TaskState::Pending
            &&& state == TaskState::Running ==> !after.idle()
            &&& state != TaskState::Failed ==> after.attempts() >= task.attempts()
                + failed_attempts(task, TaskState::Running, events, max)
            &&& after.start_time() == task.start_time()
            &&& state == TaskState::Succeeded ==> after.end_time() is Some
        }),
    decreases events.len(),
{
    if events.len() > 0 {
        lemma_failures_within_the_budget_are_retried(task, events.drop_last(), max);
        let (before, earlier) = driven(task, TaskState::Running, events.drop_last(), max);
        if earlier == TaskState::Running {
            let (event, now) = events.last();
            lemma_step_shape(before, event);
            let (stepped, answer) = before.step(event);
            lemma_attempt_outcome(stepped, answer, max, now, false);
            lemma_attempts_are_bounded(stepped, answer, max, now, false);
        }
    }
}

/// A task with three attempts whose first two attempts fail and whose
/// third ends well has succeeded: it has begun exactly three attempts, it
/// carries the times of its start and of its end, and a job of which it is
/// the only task ends well. This holds of every kind of task, wherever in
/// an attempt the failures come.
pub proof fn lemma_two_failures_then_success(
    task: DownloadableView,
    start: u64,
    events: Seq<(EventView, u64)>,
    job: JobView,
)
    requires
        task.attempts() == 0,
        events.len() > 0,
        ({
            let (first, state, _) = begun(started(task, start), 3, start);
            let (before, earlier) = driven(first, state, events.drop_last(), 3);
            &&& state == TaskState::Running
            &&& earlier == TaskState::Running
            &&& failed_attempts(first, state, events.drop_last(), 3) == 2
            &&& ended_well(before.step(events.last().0).1)
        }),
        job.slots.len() == 1,
        job.slots[0].state == driven(
            begun(started(task, start), 3, start).0,
            TaskState::Running,
            events,
            3,
        ).1,
    ensures
        ({
            let (first, _, _) = begun(started(task, start), 3, start);
            let (after, state) = driven(first, TaskState::Running, events, 3);
            &&& state == TaskState::Succeeded
            &&& after.attempts() == 3
            &&& after.start_time() is Some
            &&& after.end_time() == Some(events.last().1)
            &&& outcome(job, events.last().1) == Ok::<(), ErrorView>(())
        }),
{
    let begin = started(task, start);
    let (first, state, _) = begun(begin, 3, start);
    lemma_attempt_outcome(begin, unexpected(), 3, start, true);
    lemma_attempts_are_bounded(begin, unexpected(), 3, start, true);
    lemma_failures_within_the_budget_are_retried(first, events.drop_last(), 3);
    let (before, earlier) = driven(first, TaskState::Running, events.drop_last(), 3);
    let (event, now) = events.last();
    lemma_step_shape(before, event);
    let (stepped, answer) = before.step(event);
    lemma_attempt_outcome(stepped, answer, 3, now, false);
    assert(count(job.slots.drop_last(), TaskState::Failed) == 0);
}

/// How many of the slots are in `state`.
pub open spec fn count(slots: Seq<SlotView>, state: TaskState) -> nat
    decreases slots.len(),
{
    if slots.len() == 0 {
        0
    } else {
        count(slots.drop_last(), state) + if slots.last().state == state {
            1nat
        } else {
            0nat
        }
    }
}

/// The index of the first slot in `state`, or the number of slots where
/// none is.
pub open spec fn first_in(slots: Seq<SlotView>, state: TaskState) -> int
    decreases slots.len(),
{
    if slots.len() == 0 || slots[0].state == state {
        0
    } else {
        1 + first_in(slots.skip(1), state)
    }
}

/// The mathematical value of a [`DownloadJob`].
pub struct JobView {
    pub name: Seq<char>,
    pub slots: Seq<SlotView>,
    pub ignore_failures: bool,
    pub concurrent_downloads: u16,
    pub max_download_attempts: u8,
    /// The updates reported and not yet taken.
    pub reported: Seq<ProgressUpdateView>,
    pub started_at: Option<u64>,
}

/// How many tasks can run at once: as many as the job is set to, and one
/// where it is set to none.
pub open spec fn workers(job: JobView) -> nat {
    if job.concurrent_downloads == 0 {
        1
    } else {
        job.concurrent_downloads as nat
    }
}

/// The task with `now` as its start time, unless it has one.
pub open spec fn started(task: DownloadableView, now: u64) -> DownloadableView {
    if task.start_time() is None {
        task.with_start_time(Some(now))
    } else {
        task
    }
}

/// What the job starts next: the first pending task, where a worker is
/// free; otherwise nothing, and the job is done where nothing is running.
pub open spec fn next_step(job: JobView, now: u64) -> (JobView, JobActionView) {
    let index = first_in(job.slots, TaskState::Pending);
    if index < job.slots.len() && count(job.slots, TaskState::Running) < workers(job) {
        let (task, state, action) = begun(
            started(job.slots[index].task, now),
            job.max_download_attempts,
            now,
        );
        (
            JobView { slots: job.slots.update(index, SlotView { task, state }), ..job },
            JobActionView::Start { index: index as usize, action },
        )
    } else if count(job.slots, TaskState::Running) > 0 {
        (job, JobActionView::Wait)
    } else {
        (job, JobActionView::Done)
    }
}

/// What the job answers to an event for the task at `index`: the task
/// takes the event, and the job settles what it answers. An event for a
/// task that is not running changes nothing.
pub open spec fn handled(job: JobView, index: usize, event: EventView, now: u64) -> (
    JobView,
    ActionView,
) {
    if index < job.slots.len() && job.slots[index as int].state == TaskState::Running {
        let (stepped, action) = job.slots[index as int].task.step(event);
        let (task, state, answer) = settled(stepped, action, job.max_download_attempts, now);
        (
            JobView { slots: job.slots.update(index as int, SlotView { task, state }), ..job },
            answer,
        )
    } else {
        (job, unexpected())
    }
}

/// The whole seconds from the start of the job to `now`, both in
/// milliseconds.
pub open spec fn elapsed_seconds(started_at: Option<u64>, now: u64) -> i64 {
    match started_at {
        Some(start) => if now >= start {
            ((now - start) / 1000) as i64
        } else {
            0
        },
        None => 0,
    }
}

/// How the job ends: well where failures are ignored or no task has failed
/// for good, and otherwise with the number of such tasks and the time the
/// job took.
pub open spec fn outcome(job: JobView, now: u64) -> Result<(), ErrorView> {
    if job.ignore_failures || count(job.slots, TaskState::Failed) == 0 {
        Ok(())
    } else {
        Err(
            ErrorView::JobFailed {
                name: job.name,
                failures: count(job.slots, TaskState::Failed) as usize,
                total_time: elapsed_seconds(job.started_at, now),
            },
        )
    }
}

/// The sum of the bytes that have come, over all tasks.
pub open spec fn sum_current(slots: Seq<SlotView>) -> nat
    decreases slots.len(),
{
    if slots.len() == 0 {
        0
    } else {
        sum_current(slots.drop_last()) + slots.last().task.monitor().current as nat
    }
}

/// The sum of the bytes that are expected, over all tasks.
pub open spec fn sum_total(slots: Seq<SlotView>) -> nat
    decreases slots.len(),
{
    if slots.len() == 0 {
        0
    } else {
        sum_total(slots.drop_last()) + slots.last().task.monitor().total as nat
    }
}

/// A sum as far as the machine counts it.
pub open spec fn capped(sum: nat) -> u64 {
    if sum > u64::MAX {
        u64::MAX
    } else {
        sum as u64
    }
}

/// The share of `current` in `total`, in whole percent, rounded up: never
/// more than 100, and 0 where nothing is expected.
pub open spec fn percentage(current: u64, total: u64) -> u32 {
    if total == 0 {
        0
    } else if current >= total {
        100
    } else {
        ((100 * current + total - 1) / total as int) as u32
    }
}

/// The index of the task whose status is shown: of the running tasks, the
/// one that started last, and of several that started together the first.
pub open spec fn displayed(slots: Seq<SlotView>) -> Option<int>
    decreases slots.len(),
{
    if slots.len() == 0 {
        None
    } else {
        let earlier = displayed(slots.drop_last());
        let last = slots.last();
        if last.state == TaskState::Running && (earlier is None || later(
            last.task.start_time(),
            slots[earlier->0].task.start_time(),
        )) {
            Some(slots.len() - 1)
        } else {
            earlier
        }
    }
}

/// Whether `a` is a later start than `b`; no start at all is earlier than
/// any.
pub open spec fn later(a: Option<u64>, b: Option<u64>) -> bool {
    match (a, b) {
        (Some(x), Some(y)) => x > y,
        (Some(_), None) => true,
        _ => false,
    }
}

/// What the job shows: the status of the displayed task with the share of
/// all bytes that have come, or nothing where no task is running.
pub open spec fn progress_of(job: JobView) -> ProgressUpdateView {
    match displayed(job.slots) {
        Some(index) => ProgressUpdateView::SetAll(
            job.slots[index].task.status(),
            percentage(capped(sum_current(job.slots)), capped(sum_total(job.slots))),
            100,
        ),
        None => ProgressUpdateView::Clear,
    }
}

/// Begins a task, as [`begun`] says.
fn begin(task: &mut Downloadable, max: u8, now: u64) -> (out: (TaskState, Action))
    ensures
        (final(task)@, out.0, out.1@) == begun(old(task)@, max, now),
    decreases max - old(task)@.attempts(), 0nat,
{
    if task.get_attempts() >= max as usize {
        let mut message: Vec<char> = Vec::new();
        push_str(&mut message, "Gave up trying to download ");
        push_str(&mut message, task.url().as_str());
        (TaskState::Failed, Action::Finish(Err(Error::Other(from_chars(message.as_slice())))))
    } else {
        task.rest();
        proof {
            lemma_step_shape(task@, EventView::Begin);
        }
        let action = task.step(Event::Begin);
        settle(task, action, max, now)
    }
}

/// Settles what a task answered, as [`settled`] says.
fn settle(task: &mut Downloadable, action: Action, max: u8, now: u64) -> (out: (TaskState, Action))
    ensures
        (final(task)@, out.0, out.1@) == settled(old(task)@, action@, max, now),
    decreases max - old(task)@.attempts(), 1nat,
{
    match action {
        Action::Finish(Ok(())) => {
            task.complete_progress();
            task.set_end_time(now);
            (TaskState::Succeeded, Action::Finish(Ok(())))
        },
        Action::Finish(Err(error)) => {
            task.complete_progress();
            let again = match &error {
                Error::PrepareFolderError(_) => false,
                _ => true,
            };
            if again && task.get_attempts() < max as usize {
                begin(task, max, now)
            } else {
                (TaskState::Failed, Action::Finish(Err(error)))
            }
        },
        other => (TaskState::Running, other),
    }
}

/// A batch of fetch tasks.
#[derive(Debug)]
pub struct DownloadJob {
    name: String,
    all_files: Vec<Slot>,
    ignore_failures: bool,
    concurrent_downloads: u16,
    max_download_attempts: u8,
    progress_reporter: ProgressReporter,
    started_at: Option<u64>,
}

impl View for DownloadJob {
    type V = JobView;

    closed spec fn view(&self) -> JobView {
        JobView {
            name: self.name@,
            slots: view_seq(self.all_files@),
            ignore_failures: self.ignore_failures,
            concurrent_downloads: self.concurrent_downloads,
            max_download_attempts: self.max_download_attempts,
            reported: self.progress_reporter@,
            started_at: self.started_at,
        }
    }
}

/// The slots of tasks that have just been added to a job.
pub open spec fn pending_slots(tasks: Seq<DownloadableView>) -> Seq<SlotView> {
    tasks.map_values(|task: DownloadableView| SlotView { task, state: TaskState::Pending })
}

impl DownloadJob {
    /// A job without tasks, which runs sixteen tasks at once, gives each
    /// five attempts and does not ignore failures.
    pub fn new(name: &str) -> (job: Self)
        ensures
            job@ == (JobView {
                name: name@,
                slots: Seq::<SlotView>::empty(),
                ignore_failures: false,
                concurrent_downloads: 16,
                max_download_attempts: 5,
                reported: Seq::<ProgressUpdateView>::empty(),
                started_at: None,
            }),
    {
        let job = DownloadJob {
            name: name.to_owned(),
            all_files: Vec::new(),
            ignore_failures: false,
            concurrent_downloads: 16,
            max_download_attempts: 5,
            progress_reporter: ProgressReporter::new(),
            started_at: None,
        };
        assert(job@.slots =~= Seq::<SlotView>::empty());
        job
    }

    /// Sets whether the job ends well even where tasks have failed.
    pub fn ignore_failures(self, ignore_failures: bool) -> (job: Self)
        ensures
            job@ == (JobView { ignore_failures, ..self@ }),
    {
        let mut job = self;
        job.ignore_failures = ignore_failures;
        job
    }

    /// Sets how many tasks run at once.
    pub fn concurrent_downloads(self, concurrent_downloads: u16) -> (job: Self)
        ensures
            job@ == (JobView { concurrent_downloads, ..self@ }),
    {
        let mut job = self;
        job.concurrent_downloads = concurrent_downloads;
        job
    }

    /// Sets how many attempts a task has.
    pub fn max_download_attempts(self, max_download_attempts: u8) -> (job: Self)
        ensures
            job@ == (JobView { max_download_attempts, ..self@ }),
    {
        let mut job = self;
        job.max_download_attempts = max_download_attempts;
        job
    }

    /// Puts `progress_reporter` in the place of the reporter of the job.
    pub fn with_progress_reporter(self, progress_reporter: ProgressReporter) -> (job: Self)
        ensures
            job@ == (JobView { reported: progress_reporter@, ..self@ }),
    {
        let mut job = self;
        job.progress_reporter = progress_reporter;
        job
    }

    /// Adds tasks, which are pending, after those that the job has.
    pub fn add_downloadables(self, downloadables: Vec<Downloadable>) -> (job: Self)
        ensures
            job@ == (JobView {
                slots: self@.slots + pending_slots(view_seq(downloadables@)),
                ..self@
            }),
    {
        let mut job = self;
        let mut downloadables = downloadables;
        let ghost added = view_seq(downloadables@);
        let ghost before = job@.slots;
        let mut rest: Vec<Downloadable> = Vec::new();
        // The tasks are taken from the end, so they are first turned round.
        assert(added.reverse() =~= view_seq(rest@) + view_seq(downloadables@).reverse());
        while downloadables.len() > 0
            invariant
                added.reverse() == view_seq(rest@) + view_seq(downloadables@).reverse(),
            decreases downloadables.len(),
        {
            let ghost old_rest = rest@;
            let ghost old_down = downloadables@;
            let task = downloadables.pop().unwrap();
            proof {
                lemma_view_seq_push(old_rest, task);
                assert(view_seq(old_down).reverse() =~= seq![task@] + view_seq(
                    downloadables@,
                ).reverse());
                assert(view_seq(old_rest).push(task@) + view_seq(downloadables@).reverse()
                    =~= view_seq(old_rest) + view_seq(old_down).reverse());
            }
            rest.push(task);
        }
        assert(view_seq(rest@) =~= added.reverse());
        while rest.len() > 0
            invariant
                job@ == (JobView {
                    slots: before + pending_slots(added.take(added.len() - rest@.len())),
                    ..self@
                }),
                rest@.len() <= added.len(),
                view_seq(rest@) == added.reverse().take(rest@.len() as int),
            decreases rest.len(),
        {
            let ghost old_rest = rest@;
            let ghost old_slots = job.all_files@;
            let task = rest.pop().unwrap();
            let slot = Slot { task, state: TaskState::Pending };
            proof {
                let k = added.len() - old_rest.len();
                assert(view_seq(old_rest).last() == task@);
                assert(added.reverse()[old_rest.len() - 1] == added[k]);
                lemma_view_seq_push(old_slots, slot);
                assert(pending_slots(added.take(k + 1)) =~= pending_slots(added.take(k)).push(
                    slot@,
                ));
                assert(view_seq(rest@) =~= added.reverse().take(rest@.len() as int));
            }
            job.all_files.push(slot);
            assert(job@.slots =~= before + pending_slots(
                added.take(added.len() - rest@.len()),
            ));
        }
        assert(added.take(added.len() as int) =~= added);
        job
    }

    /// The name of the job.
    pub fn name(&self) -> (name: &str)
        ensures
            name@ == self@.name,
    {
        self.name.as_str()
    }

    /// How many tasks the job has.
    pub fn len(&self) -> (n: usize)
        ensures
            n == self@.slots.len(),
    {
        self.all_files.len()
    }

    /// The task at `index`.
    pub fn task(&self, index: usize) -> (task: Option<&Downloadable>)
        ensures
            task is Some <==> index < self@.slots.len(),
            task is Some ==> task->0@ == self@.slots[index as int].task,
    {
        if index < self.all_files.len() {
            Some(&self.all_files[index].task)
        } else {
            None
        }
    }

    /// The state of the task at `index`.
    pub fn state(&self, index: usize) -> (state: Option<TaskState>)
        ensures
            state is Some <==> index < self@.slots.len(),
            state is Some ==> state->0 == self@.slots[index as int].state,
    {
        if index < self.all_files.len() {
            Some(self.all_files[index].state)
        } else {
            None
        }
    }

    /// How many tasks are in `state`.
    pub fn count_in(&self, state: TaskState) -> (n: usize)
        ensures
            n == count(self@.slots, state),
    {
        let ghost slots = self@.slots;
        let mut n: usize = 0;
        let mut i: usize = 0;
        while i < self.all_files.len()
            invariant
                i <= self.all_files.len(),
                slots == self@.slots,
                n == count(slots.take(i as int), state),
                n <= i,
            decreases self.all_files.len() - i,
        {
            assert(slots.take(i + 1).drop_last() =~= slots.take(i as int));
            assert(slots.take(i + 1).last() == self.all_files@[i as int]@);
            if self.all_files[i].state == state {
                n += 1;
            }
            i += 1;
        }
        assert(slots.take(slots.len() as int) =~= slots);
        n
    }

    /// Whether no task is pending or running.
    pub fn is_finished(&self) -> (finished: bool)
        ensures
            finished == (count(self@.slots, TaskState::Pending) == 0 && count(
                self@.slots,
                TaskState::Running,
            ) == 0),
    {
        self.count_in(TaskState::Pending) == 0 && self.count_in(TaskState::Running) == 0
    }

    /// Begins the job at the time `now`, in milliseconds: what was shown is
    /// cleared.
    pub fn start(&mut self, now: u64)
        ensures
            final(self)@ == (JobView {
                reported: old(self)@.reported.push(ProgressUpdateView::Clear),
                started_at: Some(now),
                ..old(self)@
            }),
    {
        self.progress_reporter.clear();
        self.started_at = Some(now);
    }

    /// Says what to start next, if anything.
    pub fn next(&mut self, now: u64) -> (action: JobAction)
        ensures
            (final(self)@, action@) == next_step(old(self)@, now),
    {
        let ghost slots = self@.slots;
        let running = self.count_in(TaskState::Running);
        let limit: usize = if self.concurrent_downloads == 0 {
            1
        } else {
            self.concurrent_downloads as usize
        };
        let mut index: usize = 0;
        assert(slots.skip(0) =~= slots);
        while index < self.all_files.len() && self.all_files[index].state != TaskState::Pending
            invariant
                index <= self.all_files.len(),
                slots == self@.slots,
                first_in(slots, TaskState::Pending) == index + first_in(
                    slots.skip(index as int),
                    TaskState::Pending,
                ),
            decreases self.all_files.len() - index,
        {
            assert(slots.skip(index as int)[0] == self.all_files@[index as int]@);
            assert(slots.skip(index as int).skip(1) =~= slots.skip(index + 1));
            index += 1;
        }
        if index < self.all_files.len() {
            assert(slots.skip(index as int)[0] == self.all_files@[index as int]@);
        }
        if index < self.all_files.len() && running < limit {
            if self.all_files[index].task.get_start_time().is_none() {
                self.all_files[index].task.set_start_time(now);
            }
            let (state, action) = begin(
                &mut self.all_files[index].task,
                self.max_download_attempts,
                now,
            );
            self.all_files[index].state = state;
            assert(self@.slots =~= slots.update(index as int, self.all_files@[index as int]@));
            JobAction::Start { index, action }
        } else if running > 0 {
            JobAction::Wait
        } else {
            JobAction::Done
        }
    }

    /// Takes what happened for the task at `index` and says what is to be
    /// done for it next.
    pub fn handle(&mut self, index: usize, event: Event, now: u64) -> (action: Action)
        ensures
            (final(self)@, action@) == handled(old(self)@, index, event@, now),
    {
        let ghost slots = self@.slots;
        if index < self.all_files.len() && self.all_files[index].state == TaskState::Running {
            let action = self.all_files[index].task.step(event);
            let (state, answer) = settle(
                &mut self.all_files[index].task,
                action,
                self.max_download_attempts,
                now,
            );
            self.all_files[index].state = state;
            assert(self@.slots =~= slots.update(index as int, self.all_files@[index as int]@));
            answer
        } else {
            unexpected_event()
        }
    }

    /// Ends the job at the time `now`, in milliseconds, once no task is
    /// pending or running: what was shown is cleared, and the job has
    /// failed where tasks have failed for good and failures are not
    /// ignored.
    pub fn finish(&mut self, now: u64) -> (result: Result<(), Error>)
        requires
            count(old(self)@.slots, TaskState::Pending) == 0,
            count(old(self)@.slots, TaskState::Running) == 0,
        ensures
            final(self)@ == (JobView {
                reported: old(self)@.reported.push(ProgressUpdateView::Clear),
                ..old(self)@
            }),
            match result {
                Ok(()) => outcome(old(self)@, now) == Ok::<(), ErrorView>(()),
                Err(error) => outcome(old(self)@, now) == Err::<(), ErrorView>(error@),
            },
    {
        self.progress_reporter.clear();
        let failures = self.count_in(TaskState::Failed);
        if self.ignore_failures || failures == 0 {
            Ok(())
        } else {
            let total_time: i64 = match self.started_at {
                Some(start) => if now >= start {
                    ((now - start) / 1000) as i64
                } else {
                    0
                },
                None => 0,
            };
            Err(Error::JobFailed { name: self.name.clone(), failures, total_time })
        }
    }

    /// What the job shows now.
    pub fn progress(&self) -> (update: ProgressUpdate)
        ensures
            update@ == progress_of(self@),
    {
        let ghost slots = self@.slots;
        let mut current: u64 = 0;
        let mut total: u64 = 0;
        let mut shown: Option<usize> = None;
        let mut i: usize = 0;
        while i < self.all_files.len()
            invariant
                i <= self.all_files.len(),
                slots == self@.slots,
                current == capped(sum_current(slots.take(i as int))),
                total == capped(sum_total(slots.take(i as int))),
                match shown {
                    Some(k) => displayed(slots.take(i as int)) == Some(k as int) && k < i,
                    None => displayed(slots.take(i as int)) is None,
                },
            decreases self.all_files.len() - i,
        {
            assert(slots.take(i + 1).drop_last() =~= slots.take(i as int));
            assert(slots.take(i + 1).last() == self.all_files@[i as int]@);
            let slot = &self.all_files[i];
            current = add_capped(current, slot.task.get_monitor().get_current());
            total = add_capped(total, slot.task.get_monitor().get_total());
            if slot.state == TaskState::Running {
                let replace = match shown {
                    None => true,
                    Some(k) => {
                        assert(slots.take(i + 1)[k as int] == self.all_files@[k as int]@);
                        is_later(
                            slot.task.get_start_time(),
                            self.all_files[k].task.get_start_time(),
                        )
                    },
                };
                if replace {
                    shown = Some(i);
                }
            }
            i += 1;
        }
        assert(slots.take(slots.len() as int) =~= slots);
        match shown {
            Some(k) => ProgressUpdate::SetAll(
                self.all_files[k].task.get_status(),
                percent(current, total),
                100,
            ),
            None => ProgressUpdate::Clear,
        }
    }

    /// Reports what the job shows now.
    pub fn report_progress(&mut self)
        ensures
            final(self)@ == (JobView {
                reported: old(self)@.reported.push(progress_of(old(self)@)),
                ..old(self)@
            }),
    {
        let update = self.progress();
        self.progress_reporter.update(update);
    }

    /// Hands out what has been reported since the last time.
    pub fn take_updates(&mut self) -> (updates: Vec<ProgressUpdate>)
        ensures
            view_seq(updates@) == old(self)@.reported,
            final(self)@ == (JobView {
                reported: Seq::<ProgressUpdateView>::empty(),
                ..old(self)@
            }),
    {
        self.progress_reporter.take_updates()
    }
}

fn is_later(a: Option<u64>, b: Option<u64>) -> (result: bool)
    ensures
        result == later(a, b),
{
    match (a, b) {
        (Some(x), Some(y)) => x > y,
        (Some(_), None) => true,
        _ => false,
    }
}

fn add_capped(sum: u64, more: usize) -> (out: u64)
    ensures
        forall|exact: nat| sum == capped(exact) ==> out == #[trigger] capped(exact + more as nat),
{
    let more: u64 = more as u64;
    if sum > u64::MAX - more {
        u64::MAX
    } else {
        sum + more
    }
}

/// The share of `current` in `total`, in whole percent, rounded up.
pub fn percent(current: u64, total: u64) -> (share: u32)
    ensures
        share == percentage(current, total),
        share <= 100,
{
    if total == 0 {
        0
    } else if current >= total {
        100
    } else {
        let scaled: u128 = 100 * (current as u128) + (total as u128) - 1;
        let share: u128 = scaled / (total as u128);
        assert(share <= 100) by (nonlinear_arith)
            requires
                share == scaled / (total as u128),
                scaled < 101 * total,
                total > 0,
        ;
        share as u32
    }
}

/// Whatever a job has reported, it ends on `Clear` once it has finished.
pub proof fn lemma_finish_clears(before: JobView, after: JobView)
    requires
        after == (JobView { reported: before.reported.push(ProgressUpdateView::Clear), ..before }),
    ensures
        after.reported.last() == ProgressUpdateView::Clear,
        crate::progress::shown_after_all(None, after.reported) is None,
{
}

/// How many slots are in a state after one slot has changed.
pub proof fn lemma_count_update(slots: Seq<SlotView>, index: int, slot: SlotView, state: TaskState)
    requires
        0 <= index < slots.len(),
    ensures
        count(slots.update(index, slot), state) + (if slots[index].state == state {
            1nat
        } else {
            0nat
        }) == count(slots, state) + (if slot.state == state {
            1nat
        } else {
            0nat
        }),
    decreases slots.len(),
{
    let changed = slots.update(index, slot);
    if index == slots.len() - 1 {
        assert(changed.drop_last() =~= slots.drop_last());
    } else {
        assert(changed.drop_last() =~= slots.drop_last().update(index, slot));
        lemma_count_update(slots.drop_last(), index, slot, state);
    }
}

/// No more tasks run at once than the job has workers: where that held, it
/// holds after the job has started a task and after it has handled an
/// event.
pub proof fn lemma_workers_bound_running(job: JobView, index: usize, event: EventView, now: u64)
    requires
        count(job.slots, TaskState::Running) <= workers(job),
    ensures
        count(next_step(job, now).0.slots, TaskState::Running) <= workers(job),
        count(handled(job, index, event, now).0.slots, TaskState::Running) <= workers(job),
{
    let first = first_in(job.slots, TaskState::Pending);
    lemma_first_in(job.slots, TaskState::Pending);
    if first < job.slots.len() && count(job.slots, TaskState::Running) < workers(job) {
        let (task, state, action) = begun(
            started(job.slots[first].task, now),
            job.max_download_attempts,
            now,
        );
        lemma_count_update(job.slots, first, SlotView { task, state }, TaskState::Running);
    }
    if index < job.slots.len() && job.slots[index as int].state == TaskState::Running {
        let (stepped, action) = job.slots[index as int].task.step(event);
        let (task, state, answer) = settled(stepped, action, job.max_download_attempts, now);
        lemma_count_update(job.slots, index as int, SlotView { task, state }, TaskState::Running);
    }
}

/// The first slot in a state is in that state, and none before it is.
pub proof fn lemma_first_in(slots: Seq<SlotView>, state: TaskState)
    ensures
        0 <= first_in(slots, state) <= slots.len(),
        first_in(slots, state) < slots.len() ==> slots[first_in(slots, state)].state == state,
        forall|k: int| 0 <= k < first_in(slots, state) ==> slots[k].state != state,
    decreases slots.len(),
{
    if slots.len() == 0 || slots[0].state == state {
    } else {
        let rest = slots.skip(1);
        lemma_first_in(rest, state);
        assert forall|k: int| 0 <= k < first_in(slots, state) implies slots[k].state != state by {
            if k > 0 {
                assert(slots[k] == rest[k - 1]);
            }
        }
    }
}

} // verus!
