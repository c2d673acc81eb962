//! The progress aggregator: monotone counters, snapshot contents and
//! the throttle rule.

use xet::progress::OperationProgress;
use xet::progress::resolve_throttle;
use xet::progress::TrackingItemUpdate;
use xet::progress::TrackingUpdate;
use xet::progress::XetProgressPhase;

#[test]
fn test_progress_emits() {
    let mut progress = OperationProgress::new();
    let throttle = resolve_throttle(0);
    assert_eq!(throttle, 200);

    let mut emissions = 0;
    progress.set_phase(XetProgressPhase::Scanning);
    if progress.emit(0, throttle, true, None, 0, 0).is_some() {
        emissions += 1;
    }
    progress.set_total_hint(1, 100);
    progress.ensure_file_entry("file", 100);
    progress.update_file_absolute("file", 50, 100);
    if progress
        .emit(1, throttle, true, Some("file".to_string()), 50, 100)
        .is_some()
    {
        emissions += 1;
    }
    progress.update_file_absolute("file", 100, 100);
    if progress
        .emit(2, throttle, true, Some("file".to_string()), 100, 100)
        .is_some()
    {
        emissions += 1;
    }
    progress.finalize();
    if progress.emit(3, throttle, true, None, 0, 0).is_some() {
        emissions += 1;
    }

    assert!(emissions >= 3);
    let update = progress.build_update(None, 0, 0);
    assert_eq!(update.completed_bytes, 100);
    assert_eq!(update.total_files, 1);
    assert_eq!(update.completed_files, 1);
    assert!(matches!(update.phase, XetProgressPhase::Finalizing));
}

#[test]
fn counters_never_decrease() {
    let mut progress = OperationProgress::new();
    progress.set_total_hint(2, 1000);
    progress.update_file_absolute("a.bin", 400, 500);
    assert_eq!(progress.completed_bytes, 400);

    // A stale, smaller reading changes nothing.
    progress.update_file_absolute("a.bin", 100, 500);
    assert_eq!(progress.completed_bytes, 400);

    // A smaller total hint does not lower the total.
    progress.set_total_bytes(10);
    assert_eq!(progress.total_bytes, 1000);

    progress.set_completed_bytes(5);
    assert_eq!(progress.completed_bytes, 400);

    // Only the delta beyond the recorded counter is added.
    progress.update_file_absolute("a.bin", 500, 500);
    assert_eq!(progress.completed_bytes, 500);
}

#[test]
fn per_file_totals_rise_monotonically() {
    let mut progress = OperationProgress::new();
    progress.ensure_file_entry("w.bin", 10);
    // A zero total only creates the entry; a smaller one is ignored.
    progress.ensure_file_entry("w.bin", 0);
    progress.ensure_file_entry("w.bin", 5);
    progress.update_file_absolute("w.bin", 10, 0);
    let update = progress.build_update(None, 0, 0);
    assert_eq!(update.completed_files, 1);
    assert_eq!(update.total_files, 1);
}

#[test]
fn snapshot_counts_completed_files() {
    let mut progress = OperationProgress::new();
    progress.set_total_hint(8, 8192);
    for k in 0..8u32 {
        let name = format!("part-{k}");
        progress.ensure_file_entry(&name, 1024);
    }
    for k in 0..8u32 {
        let name = format!("part-{k}");
        progress.update_file_absolute(&name, 1024, 1024);
    }
    progress.finalize();
    let update = progress.build_update(None, 0, 0);
    assert_eq!(update.total_files, 8);
    assert_eq!(update.completed_files, 8);
    assert_eq!(update.completed_bytes, 8192);
    assert!(matches!(update.phase, XetProgressPhase::Finalizing));
}

#[test]
fn throttle_skips_and_force_overrides() {
    let mut progress = OperationProgress::new();
    // First emission always goes out.
    assert!(progress.emit(1000, 200, false, None, 0, 0).is_some());
    // Within the window, unforced emissions are skipped.
    assert!(progress.emit(1100, 200, false, None, 0, 0).is_none());
    // A forced emission goes out regardless.
    assert!(progress.emit(1100, 200, true, None, 0, 0).is_some());
    // After the window has passed, emissions resume.
    assert!(progress.emit(1300, 200, false, None, 0, 0).is_some());
}

#[test]
fn tracking_update_reaches_item_counters() {
    let mut progress = OperationProgress::new();
    let update = TrackingUpdate {
        total_transfer_bytes: 300,
        total_transfer_bytes_completed: 120,
        item_updates: vec![
            TrackingItemUpdate {
                item_name: "a".to_string(),
                bytes_completed: 70,
                total_bytes: 100,
            },
            TrackingItemUpdate {
                item_name: "b".to_string(),
                bytes_completed: 50,
                total_bytes: 200,
            },
        ],
    };
    progress.apply_tracking_update(&update);
    assert!(progress.total_bytes >= 300);
    assert!(progress.completed_bytes >= 120);
    let snapshot = progress.build_update(None, 0, 0);
    assert_eq!(snapshot.total_files, 2);
    assert_eq!(snapshot.completed_files, 0);
}

#[test]
fn total_files_hint_never_decreases() {
    let mut progress = OperationProgress::new();
    progress.set_total_hint(5, 100);
    // A later, smaller reading lowers neither the file count nor the
    // byte total.
    progress.set_total_hint(3, 40);
    let update = progress.build_update(None, 0, 0);
    assert_eq!(update.total_files, 5);
    assert_eq!(update.total_bytes, 100);
    // A larger reading raises both.
    progress.set_total_hint(8, 200);
    let update = progress.build_update(None, 0, 0);
    assert_eq!(update.total_files, 8);
    assert_eq!(update.total_bytes, 200);
}

#[test]
fn resolve_throttle_zero_means_default() {
    assert_eq!(resolve_throttle(0), 200);
    assert_eq!(resolve_throttle(50), 50);
}
