use photographic_memory::storage::{
    ensure_disk_headroom, settle_disk_guard, CandidateFile, ReclaimOutcome, Reclaimer,
    StorageCapacityError, MAX_AUTOPURGE_FILES,
};

fn file(path: &str, len: u64, modified: u128) -> CandidateFile {
    CandidateFile {
        path: path.to_string(),
        len,
        modified,
    }
}

#[test]
fn passes_when_threshold_zero() {
    ensure_disk_headroom("/tmp/x", 0, 0).expect("zero threshold succeeds");
}

#[test]
fn fails_when_threshold_exceeds_available() {
    let err = ensure_disk_headroom("/tmp/x", u64::MAX, 1_000_000).expect_err("guard should fail");
    assert_eq!(
        err,
        StorageCapacityError {
            path: "/tmp/x".to_string(),
            available_bytes: 1_000_000,
            required_bytes: u64::MAX
        }
    );
}

#[test]
fn headroom_passes_at_exact_threshold() {
    assert!(ensure_disk_headroom("d", 100, 100).is_ok());
    assert!(ensure_disk_headroom("d", 100, 99).is_err());
}

/// Simulates a disk whose free space grows by each deleted file's length.
fn run_reclaim(files: Vec<CandidateFile>, min: u64, available: u64) -> (ReclaimOutcome, Vec<String>) {
    let lens: Vec<(String, u64)> = files.iter().map(|f| (f.path.clone(), f.len)).collect();
    let mut reclaimer = Reclaimer::new(files, min, available);
    let mut free = available;
    let mut deleted = Vec::new();
    while let Some(path) = reclaimer.next_deletion() {
        let len = lens.iter().find(|(p, _)| *p == path).unwrap().1;
        free += len;
        deleted.push(path);
        reclaimer.record_deletion(free);
    }
    (reclaimer.outcome(), deleted)
}

#[test]
fn reclaims_oldest_captures_until_threshold_met() {
    let mib = 2 * 1024 * 1024;
    let files = vec![
        file("capture-001.png", mib, 2_000),
        file("capture-000.png", mib, 1_000),
    ];
    let baseline = 10_000_000;
    let target = baseline + 1_000_000;
    let (outcome, deleted) = run_reclaim(files, target, baseline);
    assert!(outcome.deleted_files >= 1);
    assert!(outcome.freed_bytes >= 1_000_000);
    assert!(outcome.remaining_bytes >= target);
    assert!(deleted.contains(&"capture-000.png".to_string()), "oldest capture should be deleted");
    assert!(!deleted.contains(&"capture-001.png".to_string()), "newest capture should be retained");
}

#[test]
fn reclaim_deletes_nothing_when_space_suffices() {
    let (outcome, deleted) = run_reclaim(vec![file("a", 5, 1)], 100, 100);
    assert!(deleted.is_empty());
    assert_eq!(
        outcome,
        ReclaimOutcome {
            deleted_files: 0,
            freed_bytes: 0,
            remaining_bytes: 100
        }
    );
    let (_, deleted) = run_reclaim(vec![file("a", 5, 1)], 0, 0);
    assert!(deleted.is_empty());
}

#[test]
fn reclaim_goes_oldest_first_and_stops_at_threshold() {
    let files = vec![
        file("c", 10, 30),
        file("a", 10, 10),
        file("d", 10, 40),
        file("b", 10, 20),
    ];
    let (outcome, deleted) = run_reclaim(files, 125, 100);
    assert_eq!(deleted, vec!["a".to_string(), "b".to_string(), "c".to_string()]);
    assert_eq!(
        outcome,
        ReclaimOutcome {
            deleted_files: 3,
            freed_bytes: 30,
            remaining_bytes: 130
        }
    );
}

#[test]
fn reclaim_stops_when_files_run_out() {
    let (outcome, deleted) = run_reclaim(vec![file("a", 1, 1), file("b", 1, 2)], 1000, 0);
    assert_eq!(deleted.len(), 2);
    assert_eq!(outcome.remaining_bytes, 2);
}

#[test]
fn reclaim_pass_is_capped() {
    let files: Vec<CandidateFile> = (0..MAX_AUTOPURGE_FILES as u128 + 20)
        .map(|i| file(&format!("f{i}"), 0, i))
        .collect();
    let (outcome, deleted) = run_reclaim(files, 10, 0);
    assert_eq!(outcome.deleted_files, MAX_AUTOPURGE_FILES);
    assert_eq!(deleted.len(), MAX_AUTOPURGE_FILES);
    assert_eq!(deleted[0], "f0");
}

#[test]
fn disk_guard_reports_cleanup_only_when_files_were_deleted() {
    let outcome = ReclaimOutcome {
        deleted_files: 2,
        freed_bytes: 50,
        remaining_bytes: 150,
    };
    assert_eq!(settle_disk_guard("d", 100, outcome, 150), Ok(Some(outcome)));
    let none = ReclaimOutcome {
        deleted_files: 0,
        freed_bytes: 0,
        remaining_bytes: 150,
    };
    assert_eq!(settle_disk_guard("d", 100, none, 150), Ok(None));
    let err = settle_disk_guard("d", 100, outcome, 60).unwrap_err();
    assert_eq!(err.available_bytes, 60);
    assert_eq!(err.required_bytes, 100);
}
