use photographic_memory::context_log::{
    capture_entry, capture_file_name, session_entry, skipped_entry,
};

const STAMP: &str = "2026-02-09T00:00:00+00:00";

#[test]
fn appends_markdown_entry() {
    let entry = capture_entry(1, STAMP, "capture.png", "hello world");
    assert!(entry.contains("## Capture 1"));
    assert!(entry.contains("Summary: hello world"));
}

#[test]
fn capture_entry_format_is_stable_and_flattens_newlines() {
    let entry = capture_entry(7, STAMP, "captures/capture-000007.png", "line one\nline two");
    assert_eq!(
        entry,
        "## Capture 7 at 2026-02-09T00:00:00+00:00\n- Image: captures/capture-000007.png\n- Summary: line one line two\n\n"
    );
}

#[test]
fn skipped_entry_format_is_stable_and_flattens_newlines() {
    let entry = skipped_entry(3, STAMP, "privacy: denied\napp");
    assert_eq!(
        entry,
        "## Skipped tick 3 at 2026-02-09T00:00:00+00:00\n- Reason: privacy: denied app\n\n"
    );
}

#[test]
fn session_transition_entry_format_is_stable_and_flattens_newlines() {
    let entry = session_entry(STAMP, "Paused", "auto: ScreenLocked\nretry");
    assert_eq!(
        entry,
        "## Session Paused at 2026-02-09T00:00:00+00:00\n- Trigger: auto: ScreenLocked retry\n\n"
    );
}

#[test]
fn capture_indices_are_written_in_full() {
    assert!(capture_entry(0, STAMP, "a", "").starts_with("## Capture 0 at"));
    assert!(capture_entry(u64::MAX, STAMP, "a", "")
        .starts_with("## Capture 18446744073709551615 at"));
}

#[test]
fn capture_file_names_pad_the_index() {
    assert_eq!(
        capture_file_name("capture", "20260209T000000.000Z", 7),
        "capture-20260209T000000.000Z-000007.png"
    );
    assert_eq!(capture_file_name("p", "s", 1234567), "p-s-1234567.png");
    assert_eq!(capture_file_name("p", "s", 0), "p-s-000000.png");
}
