use photographic_memory::analysis::{
    image_data_url, on_response, on_transport_error, responses_endpoint, retry_delay,
    should_retry_status, truncate_error_body, ResponseAction,
};
use photographic_memory::context_log::ContextLog;
use photographic_memory::permissions::{
    accessibility_help_message, accessibility_status, screen_recording_help_message,
    screen_recording_status, AccessibilityStatus, ScreenRecordingStatus,
};
use photographic_memory::scroll_capture::{ensure_pixel_budget, luma, ScrollCaptureConfig};
use photographic_memory::system_activity::{
    display_sleep_status, screen_lock_status, DisplaySleepStatus, ScreenLockStatus,
};

#[test]
fn reports_not_supported_on_non_macos() {
    assert_eq!(screen_recording_status(), ScreenRecordingStatus::NotSupported);
}

#[test]
fn reports_accessibility_not_supported_on_non_macos() {
    assert_eq!(accessibility_status(), AccessibilityStatus::NotSupported);
}

#[test]
fn permission_statuses_classify_grants() {
    assert!(ScreenRecordingStatus::Granted.is_granted());
    assert!(ScreenRecordingStatus::NotSupported.is_granted());
    assert!(!ScreenRecordingStatus::Denied.is_granted());
    assert!(ScreenRecordingStatus::Denied.needs_user_action());
    assert!(!ScreenRecordingStatus::Granted.needs_user_action());
    assert!(AccessibilityStatus::Granted.is_granted());
    assert!(!AccessibilityStatus::Denied.is_granted());
    assert!(AccessibilityStatus::Denied.needs_user_action());
    assert!(!AccessibilityStatus::NotSupported.needs_user_action());
}

#[test]
fn help_messages_point_to_settings() {
    assert!(screen_recording_help_message().contains("Screen Recording"));
    assert!(accessibility_help_message().contains("Accessibility"));
}

#[test]
fn activity_probes_are_not_supported_here() {
    assert_eq!(screen_lock_status(), ScreenLockStatus::NotSupported);
    assert_eq!(display_sleep_status(), DisplaySleepStatus::NotSupported);
}

#[test]
fn context_log_keeps_its_path() {
    let log = ContextLog::new("notes/context.md".to_string());
    assert_eq!(log.path(), "notes/context.md");
}

#[test]
fn luma_weights_channels() {
    assert_eq!(luma([255, 255, 255, 255]), 255);
    assert_eq!(luma([0, 0, 0, 0]), 0);
    assert_eq!(luma([100, 0, 0, 255]), 29);
    assert_eq!(luma([0, 100, 0, 255]), 58);
    assert_eq!(luma([0, 0, 100, 255]), 11);
}

#[test]
fn pixel_budget_rejects_huge_images() {
    assert!(ensure_pixel_budget(10_000, 12_000).is_ok());
    let err = ensure_pixel_budget(10_000, 12_001).unwrap_err();
    assert_eq!(err.pixels, 120_010_000);
    assert!(ensure_pixel_budget(u32::MAX, u32::MAX).is_err());
}

#[test]
fn scroll_config_uses_defaults() {
    let cfg = ScrollCaptureConfig::new("out".to_string(), "scroll".to_string());
    assert_eq!(cfg.frame_interval_ms, 180);
    assert_eq!(cfg.max_duration_ms, 180_000);
    assert_eq!(cfg.max_frames, 900);
}

#[test]
fn analysis_retry_rules() {
    assert!(should_retry_status(429));
    assert!(should_retry_status(408));
    assert!(should_retry_status(409));
    assert!(should_retry_status(503));
    assert!(!should_retry_status(400));
    assert!(!should_retry_status(600));
    assert_eq!(retry_delay(500, 0), 500);
    assert_eq!(retry_delay(500, 1), 1000);
    assert_eq!(retry_delay(500, 6), 32_000);
    assert_eq!(retry_delay(500, 40), 32_000);
    assert_eq!(retry_delay(u64::MAX, 1), 30_000);
    assert_eq!(on_response(200, 0, 2, 500), ResponseAction::Accept);
    assert_eq!(
        on_response(429, 1, 2, 500),
        ResponseAction::RetryAfter { delay_ms: 1000 }
    );
    assert_eq!(on_response(429, 2, 2, 500), ResponseAction::Fail);
    assert_eq!(on_response(400, 0, 2, 500), ResponseAction::Fail);
    assert_eq!(on_transport_error(true, 0, 2, 500), Some(500));
    assert_eq!(on_transport_error(false, 0, 2, 500), None);
    assert_eq!(on_transport_error(true, 2, 2, 500), None);
}

#[test]
fn analysis_request_parts() {
    assert_eq!(
        image_data_url(b"abc").as_deref(),
        Some("data:image/png;base64,YWJj")
    );
    assert_eq!(image_data_url(b"ab").as_deref(), Some("data:image/png;base64,YWI="));
    assert_eq!(
        responses_endpoint("https://api.openai.com//"),
        "https://api.openai.com/v1/responses"
    );
    assert_eq!(responses_endpoint("http://h"), "http://h/v1/responses");
    assert_eq!(truncate_error_body("  \n ", 10), "<empty response body>");
    assert_eq!(truncate_error_body(" abcdef ", 3), "abc...");
    assert_eq!(truncate_error_body("abc", 3), "abc");
    // the limit counts UTF-8 bytes
    assert_eq!(truncate_error_body(" éa ", 2), "é...");
    assert_eq!(truncate_error_body("éa", 3), "éa");
    // a limit inside a character cuts before that character
    assert_eq!(truncate_error_body("aé", 2), "a...");
    assert_eq!(truncate_error_body("€x", 2), "...");
}

#[test]
fn base64_data_urls_follow_the_standard_alphabet() {
    assert_eq!(image_data_url(b"").as_deref(), Some("data:image/png;base64,"));
    assert_eq!(image_data_url(b"a").as_deref(), Some("data:image/png;base64,YQ=="));
    assert_eq!(
        image_data_url(&[0xfb, 0xff, 0xbf]).as_deref(),
        Some("data:image/png;base64,+/+/")
    );
}
