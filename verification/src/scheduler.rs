//! Per-frame decisions of the render scheduler.
//!
//! The player's main loop runs at a fixed target interval, decoupled from
//! the audio device's own buffering.  Each running cycle it ticks the
//! progress clock and then asks [`plan_frame`] what to do: stop because
//! the user interrupted or switched tracks, stop and report the track
//! complete because progress passed the end, or render one more frame of
//! the window that now lies under the playback position.  The caller
//! performs the outcome — it emits the signals, draws the frame, and
//! sleeps out the rest of the interval.

use vstd::prelude::*;
use vstd::arithmetic::div_mod::{lemma_div_is_ordered, lemma_div_multiples_vanish};
use vstd::arithmetic::mul::{lemma_mul_inequality, lemma_mul_is_commutative, lemma_mul_upper_bound};

use crate::clock::PlaybackState;

verus! {

/// Fixed target period between render cycles, in milliseconds (roughly
/// sixty frames per second).
pub const FRAME_INTERVAL_MS: u32 = 16;

/// Number of samples that play during one frame interval at 1x speed:
/// `sample_rate * FRAME_INTERVAL_MS / 1000`.
pub open spec fn frame_window_spec(sample_rate: u32) -> int {
    sample_rate * FRAME_INTERVAL_MS / 1000
}

/// The sample index the playback position points at: the elapsed
/// fraction of the track, scaled to the buffer length, rounded down.
pub open spec fn start_index_spec(passed_us: u64, duration_us: u64, len: int) -> int {
    passed_us * len / (duration_us as int)
}

/// The slice of the buffer to visualize this frame.
#[derive(Clone, Copy, Debug)]
pub struct VisualizationWindow {
    /// First sample of the slice.
    pub start_index: usize,
    /// Requested slice length; the downsampler clips it at the buffer end.
    pub window_len: u32,
    /// Number of bars, one per two terminal columns.
    pub bucket_count: usize,
}

/// What one running cycle must do next.
#[derive(Clone, Copy, Debug)]
pub enum FrameOutcome {
    /// Keep running: recompute the bars for this window and render once.
    Render(VisualizationWindow),
    /// Progress passed the end of the track: emit one "track complete"
    /// signal, stop playback, and leave the loop.
    Finished,
    /// The user asked to stop or changed tracks: emit one "stop" signal
    /// and leave the loop without waiting for completion.
    Interrupted,
}

/// The number of samples that elapse during one rendered frame at 1x
/// speed, for a clip of the given sample rate.
pub fn frame_window_len(sample_rate: u32) -> (r: u32)
    ensures
        r == frame_window_spec(sample_rate),
{
    proof {
        lemma_div_is_ordered(
            sample_rate * (FRAME_INTERVAL_MS as int),
            (u32::MAX as int) * (FRAME_INTERVAL_MS as int),
            1000,
        );
    }
    (((sample_rate as u64) * (FRAME_INTERVAL_MS as u64)) / 1000) as u32
}

/// The sample index under the current playback position.  While the
/// track has not finished this never leaves the buffer: the result is at
/// most `len` (and equals `len` only at exactly full progress, where the
/// visualization slice is empty and the chart is skipped).
pub fn start_index(passed_us: u64, duration_us: u64, len: usize) -> (r: usize)
    requires
        duration_us > 0,
        passed_us <= duration_us,
    ensures
        r == start_index_spec(passed_us, duration_us, len as int),
        r <= len,
{
    proof {
        lemma_mul_upper_bound(passed_us as int, u64::MAX as int, len as int, u64::MAX as int);
        lemma_mul_inequality(passed_us as int, duration_us as int, len as int);
        lemma_div_is_ordered(
            (passed_us as int) * (len as int),
            (duration_us as int) * (len as int),
            duration_us as int,
        );
        lemma_mul_is_commutative(duration_us as int, len as int);
        lemma_div_multiples_vanish(len as int, duration_us as int);
    }
    (((passed_us as u128) * (len as u128)) / (duration_us as u128)) as usize
}

/// Decides one running cycle, in the order the loop checks its signals:
/// an interrupt or track change wins over everything; otherwise progress
/// beyond the whole track ends playback with a single "track complete";
/// otherwise the frame renders the window under the current position,
/// with one bar per two terminal columns.
pub fn plan_frame(
    state: &PlaybackState,
    sample_count: usize,
    sample_rate: u32,
    terminal_width: u16,
    interrupted: bool,
    audio_changed: bool,
) -> (r: FrameOutcome)
    requires
        state.wf(),
    ensures
        (interrupted || audio_changed) <==> r is Interrupted,
        r is Finished <==> (!interrupted && !audio_changed && state.passed_time_us
            > state.duration_us),
        r matches FrameOutcome::Render(w) ==> {
            &&& !interrupted && !audio_changed
            &&& state.passed_time_us <= state.duration_us
            &&& w.start_index == start_index_spec(
                state.passed_time_us,
                state.duration_us,
                sample_count as int,
            )
            &&& w.start_index <= sample_count
            &&& w.window_len == frame_window_spec(sample_rate)
            &&& w.bucket_count == terminal_width as int / 2
        },
        (!interrupted && !audio_changed && state.passed_time_us <= state.duration_us) ==> r is Render,
{
    if interrupted || audio_changed {
        return FrameOutcome::Interrupted;
    }
    if state.passed_time_us > state.duration_us {
        return FrameOutcome::Finished;
    }
    let start = start_index(state.passed_time_us, state.duration_us, sample_count);
    let window_len = frame_window_len(sample_rate);
    let bucket_count: usize = (terminal_width / 2) as usize;
    FrameOutcome::Render(VisualizationWindow { start_index: start, window_len, bucket_count })
}

} // verus!
