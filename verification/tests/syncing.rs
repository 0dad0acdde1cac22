use snap_coin_node::syncing::SyncTracker;

#[test]
fn a_new_tracker_is_not_syncing() {
    assert!(!SyncTracker::new().is_syncing());
}

#[test]
fn syncing_while_a_download_is_under_way() {
    let mut tracker = SyncTracker::new();
    assert!(tracker.begin());
    assert!(tracker.is_syncing());
    tracker.finish();
    assert!(!tracker.is_syncing());
}

#[test]
fn flag_clears_only_with_the_last_download() {
    let mut tracker = SyncTracker::new();
    assert!(tracker.begin());
    assert!(tracker.begin());
    assert!(tracker.begin());
    tracker.finish();
    assert!(tracker.is_syncing());
    tracker.finish();
    assert!(tracker.is_syncing());
    tracker.finish();
    assert!(!tracker.is_syncing());
}

#[test]
fn finish_without_a_download_changes_nothing() {
    let mut tracker = SyncTracker::new();
    tracker.finish();
    assert!(!tracker.is_syncing());
    assert!(tracker.begin());
    assert!(tracker.is_syncing());
    tracker.finish();
    assert!(!tracker.is_syncing());
}
