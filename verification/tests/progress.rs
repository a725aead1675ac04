use minecraft_launcher_core::download::DownloadableMonitor;
use minecraft_launcher_core::progress::{
    DownloadProgress, MockMonitor, Monitor, ProgressReporter, ProgressUpdate,
};

#[test]
fn a_reporter_keeps_updates_in_order() {
    let mut reporter = ProgressReporter::new();
    reporter.set_status("Resolving");
    reporter.set_progress(1);
    reporter.set_total(2);
    reporter.set("Fetching", 3, 4);
    reporter.clear();
    reporter.update(ProgressUpdate::SetProgress(9));
    let updates = reporter.take_updates();
    assert_eq!(updates.len(), 6);
    assert!(matches!(&updates[0], ProgressUpdate::SetStatus(status) if status == "Resolving"));
    assert!(matches!(updates[1], ProgressUpdate::SetProgress(1)));
    assert!(matches!(updates[2], ProgressUpdate::SetTotal(2)));
    assert!(matches!(&updates[3], ProgressUpdate::SetAll(status, 3, 4) if status == "Fetching"));
    assert!(matches!(updates[4], ProgressUpdate::Clear));
    assert!(matches!(updates[5], ProgressUpdate::SetProgress(9)));
    assert!(reporter.take_updates().is_empty());
}

#[test]
fn a_new_reporter_holds_nothing() {
    assert!(ProgressReporter::new().take_updates().is_empty());
    assert!(ProgressReporter::default().take_updates().is_empty());
}

#[test]
fn a_copy_of_a_reporter_holds_the_same_updates() {
    let mut reporter = ProgressReporter::new();
    reporter.set_progress(5);
    let mut copy = reporter.clone();
    reporter.clear();
    let copied = copy.take_updates();
    assert_eq!(copied.len(), 1);
    assert!(matches!(copied[0], ProgressUpdate::SetProgress(5)));
    assert_eq!(reporter.take_updates().len(), 2);
}

#[test]
fn download_progress_hands_out_its_parts() {
    let progress = DownloadProgress::new("Downloading client.jar", 10, 40);
    assert_eq!(progress.get_status(), "Downloading client.jar");
    assert_eq!(progress.get_current(), 10);
    assert_eq!(progress.get_total(), 40);
    let copy = progress.clone();
    assert_eq!(copy.get_status(), "Downloading client.jar");
}

#[test]
fn a_mock_monitor_remembers_what_it_shows() {
    let mut monitor = MockMonitor::new();
    assert!(monitor.get_download_progress().is_none());
    monitor.set_download_progress(DownloadProgress::new("a", 1, 2));
    assert_eq!(monitor.get_download_progress().map(|p| p.get_current()), Some(1));
    monitor.hide_download_progress();
    assert!(monitor.get_download_progress().is_none());
}

#[test]
fn updates_change_what_is_shown() {
    let mut monitor = MockMonitor::new();
    monitor.apply(&ProgressUpdate::SetStatus("Fetching".to_string()));
    let shown = monitor.get_download_progress().expect("shown");
    assert_eq!(shown.get_status(), "Fetching");
    assert_eq!(shown.get_current(), 0);
    assert_eq!(shown.get_total(), 0);
    monitor.apply(&ProgressUpdate::SetTotal(8));
    monitor.apply(&ProgressUpdate::SetProgress(3));
    let shown = monitor.get_download_progress().expect("shown");
    assert_eq!(shown.get_status(), "Fetching");
    assert_eq!(shown.get_current(), 3);
    assert_eq!(shown.get_total(), 8);
    monitor.apply(&ProgressUpdate::SetAll("Unpacking".to_string(), 50, 100));
    let shown = monitor.get_download_progress().expect("shown");
    assert_eq!(shown.get_status(), "Unpacking");
    assert_eq!(shown.get_current(), 50);
    assert_eq!(shown.get_total(), 100);
    monitor.apply(&ProgressUpdate::Clear);
    assert!(monitor.get_download_progress().is_none());
}

#[test]
fn a_task_monitor_reports_its_counts() {
    let mut monitor = DownloadableMonitor::new(0, 5242880);
    assert_eq!(monitor.get_current(), 0);
    assert_eq!(monitor.get_total(), 5242880);
    monitor.set_total(100);
    monitor.set_current(40);
    assert_eq!(monitor.get_current(), 40);
    assert_eq!(monitor.get_total(), 100);
    let reported = monitor.take_reported();
    assert_eq!(reported.len(), 2);
    assert!(matches!(reported[0], ProgressUpdate::SetTotal(100)));
    assert!(matches!(reported[1], ProgressUpdate::SetProgress(40)));
    assert!(monitor.take_reported().is_empty());
}

#[test]
fn large_counts_are_reported_by_their_low_bits() {
    let mut monitor = DownloadableMonitor::new(0, 0);
    monitor.set_current(0x1_0000_0005);
    assert_eq!(monitor.get_current(), 0x1_0000_0005);
    let reported = monitor.take_reported();
    assert!(matches!(reported[0], ProgressUpdate::SetProgress(5)));
}

#[test]
fn a_new_reporter_replaces_the_old_one() {
    let mut monitor = DownloadableMonitor::new(0, 10);
    monitor.set_current(1);
    let mut reporter = ProgressReporter::new();
    reporter.set_status("fresh");
    monitor.set_reporter(reporter);
    monitor.set_current(2);
    let reported = monitor.take_reported();
    assert_eq!(reported.len(), 2);
    assert!(matches!(&reported[0], ProgressUpdate::SetStatus(status) if status == "fresh"));
    assert!(matches!(reported[1], ProgressUpdate::SetProgress(2)));
}
