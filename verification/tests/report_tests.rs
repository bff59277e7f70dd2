use dkk_download::report::ProgressReporter;

#[test]
fn progress_value_is_shown_exactly() {
    let mut r = ProgressReporter::new();
    assert_eq!(r.displayed_percent(), None);
    r.on_progress_update(10);
    assert_eq!(r.displayed_percent(), Some(10));
    r.on_progress_update(55);
    assert_eq!(r.displayed_percent(), Some(55));
}

#[test]
fn missing_progress_still_advances_liveness() {
    let mut r = ProgressReporter::new();
    assert_eq!(r.tick_count(), 0);
    r.on_tick();
    r.on_tick();
    r.on_tick();
    assert_eq!(r.tick_count(), 3);
    assert_eq!(r.displayed_percent(), None);
}

#[test]
fn non_monotonic_progress_is_tolerated() {
    let mut r = ProgressReporter::new();
    r.on_progress_update(90);
    r.on_progress_update(5);
    assert_eq!(r.displayed_percent(), Some(5));
    r.on_progress_update(250);
    assert_eq!(r.displayed_percent(), Some(250));
}

#[test]
fn byte_count_matches_chunks() {
    let mut r = ProgressReporter::new();
    r.on_download_start(Some(1024));
    r.on_bytes(512);
    r.on_bytes(256);
    r.on_bytes(256);
    r.on_complete();
    assert!(r.is_finished());
    assert_eq!(r.bytes_transferred(), 1024);
    assert_eq!(r.total_bytes(), Some(1024));
}

#[test]
fn empty_download_counts_zero_bytes() {
    let mut r = ProgressReporter::new();
    r.on_download_start(None);
    r.on_complete();
    assert!(r.is_finished());
    assert_eq!(r.bytes_transferred(), 0);
    assert_eq!(r.total_bytes(), None);
}

#[test]
fn byte_count_saturates_instead_of_wrapping() {
    let mut r = ProgressReporter::new();
    r.on_download_start(None);
    r.on_bytes(u64::MAX);
    r.on_bytes(100);
    assert_eq!(r.bytes_transferred(), u64::MAX);
}
