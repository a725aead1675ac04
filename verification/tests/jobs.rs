use minecraft_launcher_core::checksum::Sha1Sum;
use minecraft_launcher_core::download::downloadable::Downloadable;
use minecraft_launcher_core::download::job::{percent, DownloadJob, JobAction, TaskState};
use minecraft_launcher_core::download::prehashed::PreHashedDownloadable;
use minecraft_launcher_core::download::{Action, Error, Event, Response};
use minecraft_launcher_core::progress::{ProgressReporter, ProgressUpdate};

fn task(name: &str) -> Downloadable {
    Downloadable::PreHashed(PreHashedDownloadable::new(
        &format!("https://example.org/{}", name),
        &format!("/game/{}", name),
        false,
        Sha1Sum::from_reader(b"good"),
    ))
}

fn job(names: &[&str]) -> DownloadJob {
    DownloadJob::new("Test").add_downloadables(names.iter().map(|name| task(name)).collect())
}

fn answer(body: &[u8]) -> Event {
    Event::Response(Response { content_length: Some(body.len() as u64), etag: None, body: body.to_vec() })
}

fn start(job: &mut DownloadJob, now: u64) -> usize {
    match job.next(now) {
        JobAction::Start { index, action } => {
            assert!(matches!(action, Action::PrepareFolder { .. }));
            index
        }
        other => panic!("nothing started: {:?}", other),
    }
}

/// Drives the running task at `index` through one attempt that fails on the request.
fn fail_attempt(job: &mut DownloadJob, index: usize, now: u64) -> Action {
    assert!(matches!(job.handle(index, Event::Done, now), Action::ReadFile { .. }));
    assert!(matches!(job.handle(index, Event::File(None), now), Action::Get { .. }));
    job.handle(index, Event::Failed("timeout".to_string()), now)
}

/// Drives the running task at `index` through one attempt that ends well.
fn succeed_attempt(job: &mut DownloadJob, index: usize, now: u64) -> Action {
    assert!(matches!(job.handle(index, Event::Done, now), Action::ReadFile { .. }));
    assert!(matches!(job.handle(index, Event::File(None), now), Action::Get { .. }));
    assert!(matches!(job.handle(index, answer(b"good"), now), Action::WriteFile { .. }));
    job.handle(index, Event::Done, now)
}

#[test]
fn a_new_job_has_the_usual_settings() {
    let mut job = DownloadJob::new("Version & Libraries");
    assert_eq!(job.name(), "Version & Libraries");
    assert_eq!(job.len(), 0);
    assert!(job.is_finished());
    assert!(matches!(job.next(0), JobAction::Done));
    assert!(job.finish(0).is_ok());
}

#[test]
fn tasks_are_added_in_order_and_pending() {
    let job = job(&["a", "b", "c"]).add_downloadables(vec![task("d")]);
    assert_eq!(job.len(), 4);
    let urls: Vec<String> = (0..4).map(|i| job.task(i).expect("a task").url().clone()).collect();
    assert_eq!(
        urls,
        vec![
            "https://example.org/a",
            "https://example.org/b",
            "https://example.org/c",
            "https://example.org/d"
        ]
    );
    assert_eq!(job.state(2), Some(TaskState::Pending));
    assert_eq!(job.state(4), None);
    assert!(job.task(4).is_none());
    assert_eq!(job.count_in(TaskState::Pending), 4);
    assert!(!job.is_finished());
}

#[test]
fn a_task_that_fails_twice_and_then_succeeds_makes_the_job_succeed() {
    let mut job = job(&["a"]).max_download_attempts(3);
    job.start(1_000);
    let index = start(&mut job, 1_000);
    assert!(matches!(fail_attempt(&mut job, index, 1_100), Action::PrepareFolder { .. }));
    assert_eq!(job.state(index), Some(TaskState::Running));
    assert!(matches!(fail_attempt(&mut job, index, 1_200), Action::PrepareFolder { .. }));
    assert!(matches!(succeed_attempt(&mut job, index, 1_300), Action::Finish(Ok(()))));
    assert_eq!(job.state(index), Some(TaskState::Succeeded));
    let done = job.task(index).expect("a task");
    assert_eq!(done.get_attempts(), 3);
    assert_eq!(done.get_start_time(), Some(1_000));
    assert_eq!(done.get_end_time(), Some(1_300));
    assert!(matches!(job.next(1_400), JobAction::Done));
    assert!(job.is_finished());
    assert!(job.finish(1_500).is_ok());
}

#[test]
fn a_task_that_uses_up_its_attempts_fails_the_job() {
    let mut job = job(&["a", "b"]).max_download_attempts(2).concurrent_downloads(1);
    job.start(0);
    let first = start(&mut job, 0);
    assert!(matches!(fail_attempt(&mut job, first, 10), Action::PrepareFolder { .. }));
    assert!(matches!(
        fail_attempt(&mut job, first, 20),
        Action::Finish(Err(Error::DownloadError(message))) if message == "timeout"
    ));
    assert_eq!(job.state(first), Some(TaskState::Failed));
    let failed = job.task(first).expect("a task");
    assert_eq!(failed.get_attempts(), 2);
    assert_eq!(failed.get_end_time(), None);
    let second = start(&mut job, 30);
    assert_eq!(second, 1);
    assert!(matches!(succeed_attempt(&mut job, second, 40), Action::Finish(Ok(()))));
    assert!(matches!(job.next(50), JobAction::Done));
    match job.finish(4_999) {
        Err(Error::JobFailed { name, failures, total_time }) => {
            assert_eq!(name, "Test");
            assert_eq!(failures, 1);
            assert_eq!(total_time, 4);
        }
        other => panic!("unexpected: {:?}", other),
    }
}

#[test]
fn failures_can_be_ignored() {
    let mut job = job(&["a"]).max_download_attempts(1).ignore_failures(true);
    job.start(0);
    let index = start(&mut job, 0);
    assert!(matches!(fail_attempt(&mut job, index, 1), Action::Finish(Err(_))));
    assert_eq!(job.count_in(TaskState::Failed), 1);
    assert!(job.finish(2).is_ok());
}

#[test]
fn no_more_tasks_run_than_there_are_workers() {
    let mut job = job(&["a", "b", "c"]).concurrent_downloads(2);
    job.start(0);
    assert_eq!(start(&mut job, 1), 0);
    assert_eq!(start(&mut job, 2), 1);
    assert!(matches!(job.next(3), JobAction::Wait));
    assert_eq!(job.count_in(TaskState::Running), 2);
    assert!(matches!(succeed_attempt(&mut job, 1, 4), Action::Finish(Ok(()))));
    assert_eq!(start(&mut job, 5), 2);
    assert!(matches!(job.next(6), JobAction::Wait));
    assert!(matches!(succeed_attempt(&mut job, 0, 7), Action::Finish(Ok(()))));
    assert!(matches!(job.next(8), JobAction::Wait));
    assert!(matches!(succeed_attempt(&mut job, 2, 9), Action::Finish(Ok(()))));
    assert!(matches!(job.next(10), JobAction::Done));
}

#[test]
fn a_job_without_workers_still_has_one() {
    let mut job = job(&["a", "b"]).concurrent_downloads(0);
    assert_eq!(start(&mut job, 0), 0);
    assert!(matches!(job.next(1), JobAction::Wait));
}

#[test]
fn a_task_without_attempts_has_failed_for_good() {
    let mut job = job(&["a"]).max_download_attempts(0);
    job.start(0);
    match job.next(1) {
        JobAction::Start { index: 0, action: Action::Finish(Err(Error::Other(message))) } => {
            assert_eq!(message, "Gave up trying to download https://example.org/a");
        }
        other => panic!("unexpected: {:?}", other),
    }
    assert_eq!(job.state(0), Some(TaskState::Failed));
    assert_eq!(job.task(0).expect("a task").get_attempts(), 0);
    assert_eq!(job.task(0).expect("a task").get_end_time(), None);
    assert!(matches!(job.next(2), JobAction::Done));
    assert!(job.is_finished());
    assert!(matches!(job.finish(3), Err(Error::JobFailed { failures: 1, .. })));
}

#[test]
fn a_folder_that_cannot_be_made_ends_the_task_at_once() {
    let mut job = job(&["a", "b"]).max_download_attempts(3).concurrent_downloads(1);
    job.start(0);
    let first = start(&mut job, 0);
    match job.handle(first, Event::Failed("read-only file system".to_string()), 5) {
        Action::Finish(Err(Error::PrepareFolderError(message))) => {
            assert_eq!(message, "read-only file system");
        }
        other => panic!("unexpected: {:?}", other),
    }
    assert_eq!(job.state(first), Some(TaskState::Failed));
    assert_eq!(job.task(first).expect("a task").get_attempts(), 1);
    let second = start(&mut job, 10);
    assert_eq!(second, 1);
    assert!(matches!(succeed_attempt(&mut job, second, 20), Action::Finish(Ok(()))));
    assert!(job.is_finished());
    assert!(matches!(job.finish(1_000), Err(Error::JobFailed { failures: 1, total_time: 1, .. })));
}

#[test]
fn a_job_is_not_finished_while_a_task_is_pending_or_running() {
    let mut job = job(&["a", "b"]).concurrent_downloads(1);
    assert!(!job.is_finished());
    let first = start(&mut job, 0);
    assert!(!job.is_finished());
    succeed_attempt(&mut job, first, 1);
    assert!(!job.is_finished());
    let second = start(&mut job, 2);
    succeed_attempt(&mut job, second, 3);
    assert!(job.is_finished());
    assert!(job.finish(4).is_ok());
}

#[test]
fn events_for_tasks_that_do_not_run_change_nothing() {
    let mut job = job(&["a"]);
    assert!(matches!(job.handle(0, Event::Done, 0), Action::Finish(Err(Error::Other(_)))));
    assert!(matches!(job.handle(7, Event::Done, 0), Action::Finish(Err(Error::Other(_)))));
    assert_eq!(job.state(0), Some(TaskState::Pending));
    assert_eq!(job.task(0).expect("a task").get_attempts(), 0);
}

#[test]
fn the_start_time_is_set_once() {
    let mut job = job(&["a"]).max_download_attempts(2);
    let index = start(&mut job, 77);
    fail_attempt(&mut job, index, 500);
    assert_eq!(job.task(index).expect("a task").get_start_time(), Some(77));
}

#[test]
fn a_job_clears_what_is_shown_at_both_ends() {
    let mut reporter = ProgressReporter::new();
    reporter.set_status("stale");
    let mut job = job(&["a"]).with_progress_reporter(reporter);
    job.start(0);
    let index = start(&mut job, 0);
    job.report_progress();
    succeed_attempt(&mut job, index, 1);
    assert!(job.finish(2).is_ok());
    let updates = job.take_updates();
    assert_eq!(updates.len(), 4);
    assert!(matches!(updates[1], ProgressUpdate::Clear));
    assert!(matches!(&updates[2], ProgressUpdate::SetAll(status, 0, 100) if status == "Downloading a"));
    assert!(matches!(updates[3], ProgressUpdate::Clear));
    assert!(job.take_updates().is_empty());
}

#[test]
fn progress_shows_the_running_task_that_started_last() {
    let mut job = job(&["a", "b", "c"]);
    assert!(matches!(job.progress(), ProgressUpdate::Clear));
    start(&mut job, 10);
    start(&mut job, 20);
    assert!(matches!(job.progress(), ProgressUpdate::SetAll(status, _, 100) if status == "Downloading b"));
    succeed_attempt(&mut job, 1, 30);
    assert!(matches!(job.progress(), ProgressUpdate::SetAll(status, _, 100) if status == "Downloading a"));
    start(&mut job, 10);
    assert!(matches!(job.progress(), ProgressUpdate::SetAll(status, _, 100) if status == "Downloading a"));
    succeed_attempt(&mut job, 0, 40);
    succeed_attempt(&mut job, 2, 50);
    assert!(matches!(job.progress(), ProgressUpdate::Clear));
}

#[test]
fn progress_is_the_share_of_all_bytes() {
    let mut job = job(&["a", "b"]);
    start(&mut job, 0);
    succeed_attempt(&mut job, 0, 1);
    start(&mut job, 2);
    // The first task has 4 of 4 bytes, the second 0 of 5242880.
    match job.progress() {
        ProgressUpdate::SetAll(_, share, 100) => assert_eq!(share, 1),
        other => panic!("unexpected: {:?}", other),
    }
}

#[test]
fn shares_are_rounded_up() {
    assert_eq!(percent(0, 0), 0);
    assert_eq!(percent(5, 0), 0);
    assert_eq!(percent(0, 10), 0);
    assert_eq!(percent(1, 10), 10);
    assert_eq!(percent(1, 3), 34);
    assert_eq!(percent(2, 3), 67);
    assert_eq!(percent(7, 100), 7);
    assert_eq!(percent(1, 1000), 1);
    assert_eq!(percent(999, 1000), 100);
    assert_eq!(percent(10, 10), 100);
    assert_eq!(percent(11, 10), 100);
    assert_eq!(percent(u64::MAX - 1, u64::MAX), 100);
    assert_eq!(percent(1, u64::MAX), 1);
}
