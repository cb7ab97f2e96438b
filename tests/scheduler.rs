use photographic_memory::scheduler::{CaptureSchedule, Scheduler};

#[test]
fn rejects_invalid_schedule() {
    let zero_interval = CaptureSchedule {
        every: 0,
        run_for: 1000,
    };
    assert!(Scheduler::new(zero_interval).is_err());

    let zero_run = CaptureSchedule {
        every: 1000,
        run_for: 0,
    };
    assert!(Scheduler::new(zero_run).is_err());
}

#[test]
fn captures_immediately_then_on_interval() {
    let mut scheduler = Scheduler::new(CaptureSchedule {
        every: 2000,
        run_for: 10000,
    })
    .expect("valid scheduler");

    assert!(scheduler.should_capture(0));
    scheduler.mark_captured();

    assert!(!scheduler.should_capture(1500));
    assert!(scheduler.should_capture(2000));
}

#[test]
fn stops_after_duration() {
    let scheduler = Scheduler::new(CaptureSchedule {
        every: 1000,
        run_for: 5000,
    })
    .expect("valid scheduler");

    assert!(!scheduler.is_finished(4000));
    assert!(scheduler.is_finished(5000));
    assert!(scheduler.time_until_next_capture(5000).is_none());
}

#[test]
fn validation_messages_name_the_bad_field() {
    let err = CaptureSchedule { every: 0, run_for: 0 }.validate().unwrap_err();
    assert_eq!(err, "interval must be greater than 0");
    let err = CaptureSchedule { every: 5, run_for: 0 }.validate().unwrap_err();
    assert_eq!(err, "duration must be greater than 0");
    assert!(CaptureSchedule { every: 5, run_for: 1 }.validate().is_ok());
}

#[test]
fn time_until_next_capture_saturates_at_zero() {
    let mut scheduler = Scheduler::new(CaptureSchedule {
        every: 100,
        run_for: 1000,
    })
    .expect("valid scheduler");
    assert_eq!(scheduler.time_until_next_capture(0), Some(0));
    scheduler.mark_captured();
    assert_eq!(scheduler.time_until_next_capture(30), Some(70));
    assert_eq!(scheduler.time_until_next_capture(250), Some(0));
}

#[test]
fn align_moves_next_tick_to_now_but_not_after_the_end() {
    let mut scheduler = Scheduler::new(CaptureSchedule {
        every: 100,
        run_for: 1000,
    })
    .expect("valid scheduler");
    scheduler.mark_captured();
    scheduler.mark_captured();
    // next tick at 200; realign at 50 brings it forward
    scheduler.align_next_due(50);
    assert!(scheduler.should_capture(50));
    assert!(!scheduler.should_capture(49));
    // realigning after the end changes nothing
    scheduler.align_next_due(5000);
    assert!(scheduler.should_capture(50));
}

#[test]
fn mark_captured_saturates() {
    let mut scheduler = Scheduler::new(CaptureSchedule {
        every: u64::MAX,
        run_for: u64::MAX,
    })
    .expect("valid scheduler");
    scheduler.mark_captured();
    scheduler.mark_captured();
    assert_eq!(scheduler.time_until_next_capture(0), Some(u64::MAX));
}
