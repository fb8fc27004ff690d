//! Playback progress and waveform visualization engine for a terminal
//! audio player.
//!
//! Time is measured in integer microseconds and amplitudes in fixed-point
//! units of [`source::AMP_SCALE`], so every computation here is exact and
//! free of floating point.  The crate covers:
//!
//! * the progress clock, which turns wall-clock deltas into playback time
//!   under a speed multiplier and survives pause/resume without drift
//!   ([`clock`]);
//! * the sample store holding one decoded clip ([`source`]);
//! * the waveform windowing and downsampler that buckets a slice of the
//!   sample buffer into bar magnitudes for rendering ([`bars`]);
//! * the per-frame decision logic of the render scheduler ([`scheduler`]);
//! * the unicode block rendering of the transport progress bar ([`blocks`]).
//!
//! Audio output, terminal drawing, key input and configuration are outside
//! collaborators: the surrounding binary performs them and hands this crate
//! plain values.

use vstd::prelude::*;

pub mod bars;
pub mod blocks;
pub mod clock;
pub mod player;
pub mod scheduler;
pub mod source;

verus! {

/// Why a track could not be accepted for playback.
///
/// Both conditions are checked when a decoded source is loaded; a track
/// that fails either is skipped rather than played.
#[derive(Clone, Copy, Debug, PartialEq, Eq, Structural)]
pub enum LoadError {
    /// The decoded source holds no samples at all.
    ZeroLength,
    /// The reported duration is zero; progress would be undefined.
    ZeroDuration,
}

} // verus!
