//! The progress clock: wall-clock deltas become playback time.
//!
//! [`PlaybackState`] tracks how much musical time has passed for the track
//! being played.  On every render cycle the scheduler calls
//! [`PlaybackState::tick`] with the current wall-clock timestamp; the clock
//! adds the elapsed wall time scaled by the speed multiplier to
//! `passed_time_us` and remembers the timestamp.  While playback is paused
//! the scheduler instead calls [`PlaybackState::reset_tick`] on every inner
//! cycle, which only refreshes the timestamp, so that the first tick after
//! resuming measures just the wall time since the last reset and none of
//! the pause is ever counted.
//!
//! Progress is never stored: it is recomputed as the pure ratio
//! `passed_time_us / duration_us`, exposed in millionths by
//! [`PlaybackState::progress_micro`].  Progress above one is the ordinary
//! end-of-track signal, not an error.

use vstd::prelude::*;
use vstd::arithmetic::div_mod::{lemma_div_is_ordered, lemma_div_nonincreasing};

use crate::LoadError;

verus! {

/// Number of speed units that make up real-time playback: a speed
/// multiplier is given in hundredths (percent), so `100` is 1x.
pub const SPEED_UNIT: u32 = 100;

/// Number of progress units that make up a whole track: progress is
/// reported in millionths, so `1_000_000` means the track just ended.
pub const PROGRESS_UNIT: u64 = 1_000_000;

/// Runtime playback settings the user can change while the player runs,
/// passed explicitly to whoever needs them.
#[derive(Clone, Copy, Debug)]
pub struct RuntimeState {
    /// Volume in percent, `0..=100`.
    pub volume: u32,
    /// Speed multiplier in hundredths, `10..=200` (0.1x to 2x).
    pub speed_percent: u32,
    /// Whether output is muted; the stored volume is kept for unmuting.
    pub is_muted: bool,
}

/// Lowest accepted speed multiplier, in hundredths.
pub const MIN_SPEED_PERCENT: u32 = 10;

/// Highest accepted speed multiplier, in hundredths.
pub const MAX_SPEED_PERCENT: u32 = 200;

/// Highest accepted volume, in percent.
pub const MAX_VOLUME: u32 = 100;

impl RuntimeState {
    /// Starting settings, with the configured values forced into their
    /// accepted ranges.
    pub fn new(volume: u32, speed_percent: u32) -> (r: RuntimeState)
        ensures
            r.volume == if volume > MAX_VOLUME { MAX_VOLUME as int } else { volume as int },
            r.speed_percent == if speed_percent < MIN_SPEED_PERCENT {
                MIN_SPEED_PERCENT as int
            } else if speed_percent > MAX_SPEED_PERCENT {
                MAX_SPEED_PERCENT as int
            } else {
                speed_percent as int
            },
            !r.is_muted,
    {
        let v: u32 = if volume > MAX_VOLUME { MAX_VOLUME } else { volume };
        let s: u32 = if speed_percent < MIN_SPEED_PERCENT {
            MIN_SPEED_PERCENT
        } else if speed_percent > MAX_SPEED_PERCENT {
            MAX_SPEED_PERCENT
        } else {
            speed_percent
        };
        RuntimeState { volume: v, speed_percent: s, is_muted: false }
    }
}

/// Clock state for one playing track.
#[derive(Clone, Copy, Debug)]
pub struct PlaybackState {
    /// Elapsed musical time in microseconds, scaled by the speed in force
    /// during each tick.
    pub passed_time_us: u64,
    /// Total track duration in microseconds; always positive.
    pub duration_us: u64,
    /// Wall-clock timestamp (microseconds) of the last tick or reset.
    pub time_of_last_tick_us: u64,
    /// Whether playback is currently paused.
    pub is_paused: bool,
}

/// Playback time gained by one tick: the elapsed wall time scaled by the
/// speed multiplier, in whole microseconds.
pub open spec fn gained_us(last_us: u64, now_us: u64, speed_percent: u32) -> int {
    (now_us - last_us) * speed_percent / (SPEED_UNIT as int)
}

/// What one tick does to the clock state.  The addition saturates at the
/// largest representable time, far beyond any real track.
pub open spec fn tick_model(s: PlaybackState, now_us: u64, speed_percent: u32) -> PlaybackState {
    let sum = s.passed_time_us + gained_us(s.time_of_last_tick_us, now_us, speed_percent);
    PlaybackState {
        passed_time_us: if sum > u64::MAX { u64::MAX } else { sum as u64 },
        time_of_last_tick_us: now_us,
        ..s
    }
}

/// What one reset does: only the timestamp moves.
pub open spec fn reset_tick_model(s: PlaybackState, now_us: u64) -> PlaybackState {
    PlaybackState { time_of_last_tick_us: now_us, ..s }
}

/// Progress in millionths of the track: `passed * PROGRESS_UNIT / duration`.
pub open spec fn progress_micro_of(passed_time_us: u64, duration_us: u64) -> int {
    passed_time_us * PROGRESS_UNIT / (duration_us as int)
}

impl PlaybackState {
    /// A clock is well formed when its duration is positive, so that
    /// progress is defined.
    pub open spec fn wf(self) -> bool {
        self.duration_us > 0
    }

    /// Starts the clock for a track of the given duration at wall-clock
    /// time `now_us`.  A zero duration is rejected: progress would be a
    /// division by zero, so such a source must not start playing.
    pub fn new(duration_us: u64, now_us: u64) -> (r: Result<PlaybackState, LoadError>)
        ensures
            duration_us == 0 <==> r is Err,
            r matches Err(e) ==> e == LoadError::ZeroDuration,
            r matches Ok(s) ==> s == (PlaybackState {
                passed_time_us: 0u64,
                duration_us: duration_us,
                time_of_last_tick_us: now_us,
                is_paused: false,
            }),
            r matches Ok(s) ==> s.wf(),
    {
        if duration_us == 0 {
            Err(LoadError::ZeroDuration)
        } else {
            Ok(PlaybackState {
                passed_time_us: 0,
                duration_us,
                time_of_last_tick_us: now_us,
                is_paused: false,
            })
        }
    }

    /// Current progress in millionths; may exceed [`PROGRESS_UNIT`]
    /// transiently at the end of the track.
    pub fn progress_micro(&self) -> (r: u128)
        requires
            self.wf(),
        ensures
            r == progress_micro_of(self.passed_time_us, self.duration_us),
    {
        (self.passed_time_us as u128) * (PROGRESS_UNIT as u128) / (self.duration_us as u128)
    }

    /// Whether the track has finished: progress strictly above one whole
    /// track, which is exactly `passed_time_us > duration_us`.
    pub fn is_finished(&self) -> (r: bool)
        ensures
            r == (self.passed_time_us > self.duration_us),
    {
        self.passed_time_us > self.duration_us
    }

    /// One tick: add the wall time elapsed since the last tick, scaled by
    /// `speed_percent`, to the passed time, and remember `now_us`.
    /// Returns the fresh progress in millionths.
    ///
    /// A speed change is simply a different `speed_percent` on the next
    /// call; it never rescales time already passed.
    pub fn tick(&mut self, now_us: u64, speed_percent: u32) -> (progress_micro: u128)
        requires
            old(self).wf(),
            now_us >= old(self).time_of_last_tick_us,
        ensures
            *final(self) == tick_model(*old(self), now_us, speed_percent),
            old(self).passed_time_us
                + gained_us(old(self).time_of_last_tick_us, now_us, speed_percent)
                <= u64::MAX
                ==> final(self).passed_time_us == old(self).passed_time_us
                    + gained_us(old(self).time_of_last_tick_us, now_us, speed_percent),
            progress_micro == progress_micro_of(final(self).passed_time_us, final(self).duration_us),
            final(self).wf(),
    {
        let delta: u64 = now_us - self.time_of_last_tick_us;
        proof {
            assert((delta as int) * (speed_percent as int) <= (u64::MAX as int) * (u32::MAX as int))
                by (nonlinear_arith)
                requires delta <= u64::MAX && speed_percent <= u32::MAX;
        }
        let gained: u128 = (delta as u128) * (speed_percent as u128) / (SPEED_UNIT as u128);
        proof {
            lemma_div_nonincreasing((delta as int) * (speed_percent as int), SPEED_UNIT as int);
        }
        let sum: u128 = (self.passed_time_us as u128) + gained;
        self.passed_time_us = if sum > u64::MAX as u128 {
            u64::MAX
        } else {
            sum as u64
        };
        self.time_of_last_tick_us = now_us;
        self.progress_micro()
    }

    /// Forget the wall time since the last tick without touching the
    /// passed time.  Called once per inner cycle while paused, so that the
    /// pause interval is never added to `passed_time_us`.
    pub fn reset_tick(&mut self, now_us: u64)
        ensures
            *final(self) == reset_tick_model(*old(self), now_us),
            final(self).passed_time_us == old(self).passed_time_us,
    {
        self.time_of_last_tick_us = now_us;
    }

    /// One inner cycle of the paused loop: while paused, reset the tick
    /// clock and report `true` (stay in the inner loop); once unpaused,
    /// leave the state alone and report `false` (resume rendering).
    pub fn pause_cycle(&mut self, now_us: u64) -> (stay_paused: bool)
        ensures
            stay_paused == old(self).is_paused,
            old(self).is_paused ==> *final(self) == reset_tick_model(*old(self), now_us),
            !old(self).is_paused ==> *final(self) == *old(self),
            final(self).passed_time_us == old(self).passed_time_us,
    {
        if self.is_paused {
            self.reset_tick(now_us);
            true
        } else {
            false
        }
    }
}

/// Any chain of tick resets, one per paused cycle.
pub open spec fn reset_ticks_model(s: PlaybackState, nows: Seq<u64>) -> PlaybackState
    decreases nows.len(),
{
    if nows.len() == 0 {
        s
    } else {
        reset_ticks_model(reset_tick_model(s, nows[0]), nows.drop_first())
    }
}

/// Law: resetting the tick clock any number of times never changes the
/// passed time — a paused track gains exactly nothing, however long the
/// pause and however many cycles poll it.
pub proof fn lemma_reset_tick_preserves_passed_time(s: PlaybackState, nows: Seq<u64>)
    ensures
        reset_ticks_model(s, nows).passed_time_us == s.passed_time_us,
        reset_ticks_model(s, nows).duration_us == s.duration_us,
    decreases nows.len(),
{
    if nows.len() > 0 {
        lemma_reset_tick_preserves_passed_time(reset_tick_model(s, nows[0]), nows.drop_first());
    }
}

/// Law: one tick never decreases the passed time, so progress never
/// decreases either.
pub proof fn lemma_tick_monotonic(s: PlaybackState, now_us: u64, speed_percent: u32)
    requires
        s.wf(),
        now_us >= s.time_of_last_tick_us,
    ensures
        tick_model(s, now_us, speed_percent).passed_time_us >= s.passed_time_us,
        progress_micro_of(tick_model(s, now_us, speed_percent).passed_time_us, s.duration_us)
            >= progress_micro_of(s.passed_time_us, s.duration_us),
{
    let gained = gained_us(s.time_of_last_tick_us, now_us, speed_percent);
    assert(gained >= 0) by {
        lemma_div_nonincreasing((now_us - s.time_of_last_tick_us) * speed_percent, SPEED_UNIT as int);
        assert((now_us - s.time_of_last_tick_us) * speed_percent >= 0) by (nonlinear_arith)
            requires now_us >= s.time_of_last_tick_us;
    };
    let t = tick_model(s, now_us, speed_percent);
    assert(t.passed_time_us >= s.passed_time_us);
    assert(t.passed_time_us * PROGRESS_UNIT >= s.passed_time_us * PROGRESS_UNIT) by (nonlinear_arith)
        requires t.passed_time_us >= s.passed_time_us;
    lemma_div_is_ordered(
        s.passed_time_us * PROGRESS_UNIT,
        t.passed_time_us * PROGRESS_UNIT,
        s.duration_us as int,
    );
}

/// A run of ticks: each entry is a wall-clock timestamp and the speed in
/// force for that tick.
pub open spec fn run_ticks_model(s: PlaybackState, events: Seq<(u64, u32)>) -> PlaybackState
    decreases events.len(),
{
    if events.len() == 0 {
        s
    } else {
        run_ticks_model(tick_model(s, events[0].0, events[0].1), events.drop_first())
    }
}

/// Timestamps never run backwards relative to the clock's last tick.
pub open spec fn ticks_in_order(s: PlaybackState, events: Seq<(u64, u32)>) -> bool
    decreases events.len(),
{
    events.len() == 0 || (events[0].0 >= s.time_of_last_tick_us && ticks_in_order(
        tick_model(s, events[0].0, events[0].1),
        events.drop_first(),
    ))
}

/// Law: while running — any sequence of ticks, no pause in between —
/// progress is non-decreasing from the first state to the last, whatever
/// the (positive or zero) speeds along the way.
pub proof fn lemma_progress_nondecreasing(s: PlaybackState, events: Seq<(u64, u32)>)
    requires
        s.wf(),
        ticks_in_order(s, events),
    ensures
        run_ticks_model(s, events).passed_time_us >= s.passed_time_us,
        run_ticks_model(s, events).duration_us == s.duration_us,
        progress_micro_of(run_ticks_model(s, events).passed_time_us, s.duration_us)
            >= progress_micro_of(s.passed_time_us, s.duration_us),
    decreases events.len(),
{
    if events.len() > 0 {
        let t = tick_model(s, events[0].0, events[0].1);
        lemma_tick_monotonic(s, events[0].0, events[0].1);
        lemma_progress_nondecreasing(t, events.drop_first());
        let last = run_ticks_model(s, events);
        assert(last.passed_time_us * PROGRESS_UNIT >= s.passed_time_us * PROGRESS_UNIT)
            by (nonlinear_arith)
            requires last.passed_time_us >= s.passed_time_us;
        lemma_div_is_ordered(
            s.passed_time_us * PROGRESS_UNIT,
            last.passed_time_us * PROGRESS_UNIT,
            s.duration_us as int,
        );
    }
}

} // verus!
