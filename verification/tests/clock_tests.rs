use vocal::LoadError;
use vocal::clock::{PlaybackState, RuntimeState};

#[test]
fn new_rejects_zero_duration() {
    let r = PlaybackState::new(0, 5);
    assert_eq!(r.unwrap_err(), LoadError::ZeroDuration);
}

#[test]
fn new_starts_at_zero_progress() {
    let s = PlaybackState::new(10_000_000, 42).unwrap();
    assert_eq!(s.passed_time_us, 0);
    assert_eq!(s.duration_us, 10_000_000);
    assert_eq!(s.time_of_last_tick_us, 42);
    assert!(!s.is_paused);
    assert_eq!(s.progress_micro(), 0);
}

#[test]
fn three_ticks_advance_progress() {
    // A ten second track at 1x speed, three ticks of 16 ms each:
    // progress is 48 ms / 10 s = 0.0048, i.e. 4800 millionths.
    let mut s = PlaybackState::new(10_000_000, 0).unwrap();
    s.tick(16_000, 100);
    s.tick(32_000, 100);
    let progress = s.tick(48_000, 100);
    assert_eq!(s.passed_time_us, 48_000);
    assert_eq!(progress, 4800);
}

#[test]
fn tick_scales_by_speed() {
    let mut s = PlaybackState::new(1_000_000, 0).unwrap();
    s.tick(1_000, 200);
    assert_eq!(s.passed_time_us, 2_000);
    s.tick(2_000, 50);
    assert_eq!(s.passed_time_us, 2_500);
    // A speed change never rescales time already passed.
    s.tick(3_000, 100);
    assert_eq!(s.passed_time_us, 3_500);
}

#[test]
fn tick_saturates_at_the_end_of_time() {
    let mut s = PlaybackState::new(1_000, 0).unwrap();
    s.tick(u64::MAX, 200);
    assert_eq!(s.passed_time_us, u64::MAX);
    assert!(s.is_finished());
}

#[test]
fn reset_tick_never_changes_passed_time() {
    let mut s = PlaybackState::new(10_000_000, 0).unwrap();
    s.tick(16_000, 100);
    let passed = s.passed_time_us;
    for k in 1..100u64 {
        s.reset_tick(16_000 + k * 1_000);
        assert_eq!(s.passed_time_us, passed);
    }
    assert_eq!(s.time_of_last_tick_us, 115_000);
}

#[test]
fn paused_track_gains_nothing() {
    // Paused for 500 ms of wall time, polled every 100 ms, then resumed:
    // passed_time grows only by the 16 ms after the last reset.
    let mut s = PlaybackState::new(10_000_000, 0).unwrap();
    s.is_paused = true;
    for k in 1..=5u64 {
        assert!(s.pause_cycle(k * 100_000));
        assert_eq!(s.passed_time_us, 0);
    }
    s.is_paused = false;
    assert!(!s.pause_cycle(500_000));
    s.tick(516_000, 100);
    assert_eq!(s.passed_time_us, 16_000);
}

#[test]
fn finish_is_progress_strictly_past_the_end() {
    let mut s = PlaybackState::new(100, 0).unwrap();
    s.tick(100, 100);
    assert_eq!(s.passed_time_us, 100);
    assert!(!s.is_finished());
    s.tick(101, 100);
    assert!(s.is_finished());
}

#[test]
fn runtime_state_clamps_settings() {
    let r = RuntimeState::new(150, 300);
    assert_eq!(r.volume, 100);
    assert_eq!(r.speed_percent, 200);
    assert!(!r.is_muted);
    let r = RuntimeState::new(50, 5);
    assert_eq!(r.volume, 50);
    assert_eq!(r.speed_percent, 10);
    let r = RuntimeState::new(0, 100);
    assert_eq!(r.volume, 0);
    assert_eq!(r.speed_percent, 100);
}
