use gogdl_cli::progress::{
    download_outcome, format_minutes_seconds, marks_complete, remaining_bytes,
    repaired_file_lines, DownloadOutcome, DownloadTracker, RepairTracker, SpeedTracker, TaskEnd,
};

const MS: u64 = 1_000_000;

#[test]
fn speed_needs_a_fifth_of_a_second() {
    let mut t = SpeedTracker::new(1000 * MS);
    assert_eq!(t.sample(0, 0), None);
    assert_eq!(t.sample(100 * MS, 500), None);
    assert_eq!(t.sample(200 * MS, 1000), Some((1000, 200 * MS)));
    assert_eq!(t.sample(600 * MS, 3000), Some((3000, 600 * MS)));
}

#[test]
fn speed_window_trails() {
    let mut t = SpeedTracker::new(1000 * MS);
    t.sample(0, 0);
    t.sample(500 * MS, 100);
    // the first sample falls out of the window; the oldest left is at 500 ms
    assert_eq!(t.sample(1200 * MS, 700), Some((600, 700 * MS)));
    // a sample far later leaves only itself: no time has passed
    assert_eq!(t.sample(10_000 * MS, 900), None);
}

#[test]
fn speed_tolerates_a_clock_going_back() {
    let mut t = SpeedTracker::new(1000 * MS);
    t.sample(5000 * MS, 10);
    assert_eq!(t.sample(4000 * MS, 20), None);
}

#[test]
fn download_tracker_reports_first_and_completion() {
    let mut d = DownloadTracker::new();
    assert!(d.record(0, 100));
    assert!(!d.record(50, 100));
    assert!(!d.is_complete());
    assert_eq!(download_outcome(TaskEnd::Finished, &d), DownloadOutcome::Incomplete);
    d.record(100, 100);
    assert!(d.is_complete());
    assert_eq!(download_outcome(TaskEnd::Finished, &d), DownloadOutcome::Complete);
    assert_eq!(download_outcome(TaskEnd::Cancelled, &d), DownloadOutcome::Cancelled);
    assert_eq!(download_outcome(TaskEnd::Failed, &d), DownloadOutcome::Failed);
    assert_eq!(download_outcome(TaskEnd::Aborted, &d), DownloadOutcome::Aborted);
    assert_eq!(download_outcome(TaskEnd::Finished, &DownloadTracker::new()), DownloadOutcome::Complete);
}

#[test]
fn outcomes_that_are_recorded() {
    assert_eq!(marks_complete(DownloadOutcome::Complete), Some(true));
    assert_eq!(marks_complete(DownloadOutcome::Incomplete), Some(false));
    assert_eq!(marks_complete(DownloadOutcome::Cancelled), Some(false));
    assert_eq!(marks_complete(DownloadOutcome::Aborted), Some(false));
    assert_eq!(marks_complete(DownloadOutcome::Failed), None);
}

#[test]
fn remaining_never_negative() {
    assert_eq!(remaining_bytes(100, 30), 70);
    assert_eq!(remaining_bytes(100, 130), 0);
    assert_eq!(remaining_bytes(i64::MAX, i64::MIN), (i64::MAX as i128) - (i64::MIN as i128));
}

#[test]
fn repair_tracker_combines_verified_and_downloaded() {
    let mut r = RepairTracker::new();
    assert!(r.on_verifying(300, 1000));
    assert!(!r.on_verifying(400, 1000));
    assert_eq!(r.on_downloading(250), 650);
    assert_eq!(r.total_size, 1000);
}

#[test]
fn durations() {
    assert_eq!(format_minutes_seconds(0), "0s");
    assert_eq!(format_minutes_seconds(42), "42s");
    assert_eq!(format_minutes_seconds(60), "1m 0s");
    assert_eq!(format_minutes_seconds(187), "3m 7s");
}

#[test]
fn repair_summary_lines() {
    assert_eq!(repaired_file_lines(&vec![]), vec!["No files needed repair.".to_string()]);
    let two = vec!["a.pak".to_string(), "b.pak".to_string()];
    assert_eq!(
        repaired_file_lines(&two),
        vec!["Repaired files (2):".to_string(), "  - a.pak".to_string(), "  - b.pak".to_string()]
    );
    let many: Vec<String> = (0..12).map(|i| format!("f{}", i)).collect();
    let lines = repaired_file_lines(&many);
    assert_eq!(lines.len(), 12);
    assert_eq!(lines[0], "Repaired files (12):");
    assert_eq!(lines[10], "  - f9");
    assert_eq!(lines[11], "  + 2 more");
}
