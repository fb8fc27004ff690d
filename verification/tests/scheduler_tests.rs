use vocal::LoadError;
use vocal::clock::PlaybackState;
use vocal::player::{CycleOutcome, Player};
use vocal::scheduler::{FrameOutcome, frame_window_len, plan_frame, start_index};

#[test]
fn frame_window_is_one_interval_of_audio() {
    // 44.1 kHz for 16 ms: 705.6 samples, rounded down.
    assert_eq!(frame_window_len(44_100), 705);
    assert_eq!(frame_window_len(1_000), 16);
    assert_eq!(frame_window_len(0), 0);
}

#[test]
fn start_index_tracks_progress() {
    assert_eq!(start_index(0, 10_000_000, 1_000), 0);
    assert_eq!(start_index(5_000_000, 10_000_000, 1_000), 500);
    assert_eq!(start_index(10_000_000, 10_000_000, 1_000), 1_000);
    assert_eq!(start_index(1, 10_000_000, 1_000), 0);
}

#[test]
fn interrupt_wins_over_everything() {
    let mut s = PlaybackState::new(10_000_000, 0).unwrap();
    s.passed_time_us = 10_001_000;
    let r = plan_frame(&s, 1_000, 44_100, 80, true, false);
    assert!(matches!(r, FrameOutcome::Interrupted));
    let r = plan_frame(&s, 1_000, 44_100, 80, false, true);
    assert!(matches!(r, FrameOutcome::Interrupted));
}

#[test]
fn progress_past_the_end_finishes_the_track() {
    // Progress 1.0001: one Finished outcome, which carries the single
    // "track complete" signal, and the loop exits.
    let mut s = PlaybackState::new(10_000_000, 0).unwrap();
    s.passed_time_us = 10_001_000;
    let r = plan_frame(&s, 1_000, 44_100, 80, false, false);
    assert!(matches!(r, FrameOutcome::Finished));
}

#[test]
fn running_cycle_renders_the_window_under_the_position() {
    let mut s = PlaybackState::new(10_000_000, 0).unwrap();
    s.passed_time_us = 5_000_000;
    let r = plan_frame(&s, 1_000, 44_100, 80, false, false);
    match r {
        FrameOutcome::Render(w) => {
            assert_eq!(w.start_index, 500);
            assert_eq!(w.window_len, 705);
            assert_eq!(w.bucket_count, 40);
        }
        _ => panic!("expected a render outcome"),
    }
}

#[test]
fn player_cycle_finishes_once_past_the_end() {
    let mut p = Player::new(1_000, vec![0; 100], 10_000_000, 0).unwrap();
    let r = p.run_cycle(10_001_000, 100, 4, false, false);
    assert!(matches!(r, CycleOutcome::Finished));
    assert_eq!(p.state.passed_time_us, 10_001_000);
}

#[test]
fn player_cycle_interrupts_without_waiting() {
    let mut p = Player::new(1_000, vec![0; 100], 10_000_000, 0).unwrap();
    let r = p.run_cycle(16_000, 100, 4, true, false);
    assert!(matches!(r, CycleOutcome::Interrupted));
}

#[test]
fn player_cycle_yields_bars_while_running() {
    // Sample rate 1 kHz gives a 16 sample window; width 4 gives two
    // buckets; a constant half-amplitude clip fills both bars alike.
    let mut p = Player::new(1_000, vec![5_000; 100], 10_000_000, 0).unwrap();
    let r = p.run_cycle(16_000, 100, 4, false, false);
    match r {
        CycleOutcome::Frame(Some(bars)) => {
            assert_eq!(bars, vec![("", 750_000), ("", 750_000)]);
        }
        _ => panic!("expected a frame with bars"),
    }
    assert_eq!(p.state.passed_time_us, 16_000);
}

#[test]
fn player_cycle_skips_the_chart_near_the_end() {
    // At almost full progress fewer samples than buckets remain under
    // the window: the frame renders, but without a chart.
    let mut p = Player::new(1_000, vec![0; 100], 10_000_000, 0).unwrap();
    let r = p.run_cycle(9_999_999, 100, 80, false, false);
    assert!(matches!(r, CycleOutcome::Frame(None)));
}

#[test]
fn player_rejects_unplayable_sources() {
    let r = Player::new(1_000, vec![], 10_000_000, 0);
    assert_eq!(r.err(), Some(LoadError::ZeroLength));
    let r = Player::new(1_000, vec![1], 0, 0);
    assert_eq!(r.err(), Some(LoadError::ZeroDuration));
}
