//! One playing track: the sample store and its progress clock, and the
//! decisions of one running cycle of the player loop.
//!
//! The surrounding binary owns the audio device and the terminal; this
//! type owns everything the loop decides.  Once per frame interval the
//! binary reads the wall clock and the polled signals and calls
//! [`Player::run_cycle`]; it gets back either the bars to render, or the
//! order to stop — because the track completed, or because the user
//! interrupted it.  While paused, the binary instead calls
//! [`crate::clock::PlaybackState::pause_cycle`] on the clock, which keeps
//! progress frozen without drift.

use vstd::prelude::*;

use crate::LoadError;
use crate::bars::{bar_at, create_data_from_samples, no_visual_data};
use crate::clock::{PlaybackState, tick_model};
use crate::scheduler::{FrameOutcome, VisualizationWindow, frame_window_spec, plan_frame, start_index_spec};
use crate::source::AudioSource;

verus! {

/// Fixed-point scale of the renderer's bar heights, as the chart widget
/// is configured.
pub const SCALE_MAX: u32 = 10_000;

/// Extra headroom multiplier applied to every bar height.
pub const SCALE_MULTIPLIER: u32 = 100;

/// What one running cycle of the player loop produced.
#[derive(Clone, Debug)]
pub enum CycleOutcome {
    /// Render one frame: the bars under the playback position, or
    /// nothing chart-worthy this frame (`None`), in which case the chart
    /// is skipped and playback simply continues.
    Frame(Option<Vec<(&'static str, u64)>>),
    /// Progress passed the end of the track: emit one "track complete"
    /// signal, stop, and leave the loop.
    Finished,
    /// The user asked to stop or changed tracks: emit one "stop" signal
    /// and leave the loop.
    Interrupted,
}

/// One playing track: its decoded samples and its progress clock.
#[derive(Clone, Debug)]
pub struct Player {
    /// The decoded clip being played.
    pub source: AudioSource,
    /// The progress clock for this clip.
    pub state: PlaybackState,
}

impl Player {
    /// A player is well formed when its source and clock are, and the
    /// clock runs over exactly the source's duration.
    pub open spec fn wf(self) -> bool {
        &&& self.source.wf()
        &&& self.state.wf()
        &&& self.state.duration_us == self.source.duration_us
    }

    /// Accepts a decoded clip and starts its clock at wall-clock time
    /// `now_us`.  A clip with no samples or no duration is rejected with
    /// the corresponding load error and nothing starts playing.
    pub fn new(sample_rate: u32, samples: Vec<i32>, duration_us: u64, now_us: u64) -> (r: Result<
        Player,
        LoadError,
    >)
        ensures
            r is Err <==> (samples@.len() == 0 || duration_us == 0),
            r matches Err(e) ==> (e == LoadError::ZeroLength <==> samples@.len() == 0),
            r matches Err(e) ==> (e == LoadError::ZeroDuration <==> (samples@.len() > 0
                && duration_us == 0)),
            r matches Ok(p) ==> {
                &&& p.wf()
                &&& p.source.sample_rate == sample_rate
                &&& p.source.duration_us == duration_us
                &&& p.source.samples@.len() == samples@.len()
                &&& p.state.passed_time_us == 0
                &&& p.state.time_of_last_tick_us == now_us
                &&& !p.state.is_paused
            },
    {
        let source = match AudioSource::new(sample_rate, samples, duration_us) {
            Ok(source) => source,
            Err(e) => { return Err(e); },
        };
        let state = match PlaybackState::new(duration_us, now_us) {
            Ok(state) => state,
            Err(e) => { return Err(e); },
        };
        Ok(Player { source, state })
    }

    /// One running cycle: tick the clock with the current wall time and
    /// speed, then decide.  An interrupt or track change wins; then
    /// progress past the end finishes the track with a single "track
    /// complete"; otherwise the frame's bars are computed from the
    /// window under the new playback position — one bar per two terminal
    /// columns, heights in `[0, SCALE_MAX * SCALE_MULTIPLIER]`.
    pub fn run_cycle(
        &mut self,
        now_us: u64,
        speed_percent: u32,
        terminal_width: u16,
        interrupted: bool,
        audio_changed: bool,
    ) -> (r: CycleOutcome)
        requires
            old(self).wf(),
            now_us >= old(self).state.time_of_last_tick_us,
        ensures
            final(self).wf(),
            final(self).source == old(self).source,
            final(self).state == tick_model(old(self).state, now_us, speed_percent),
            (interrupted || audio_changed) <==> r is Interrupted,
            r is Finished <==> (!interrupted && !audio_changed && final(self).state.passed_time_us
                > final(self).state.duration_us),
            r matches CycleOutcome::Frame(bars) ==> {
                let len = final(self).source.samples@.len() as int;
                let start = start_index_spec(
                    final(self).state.passed_time_us,
                    final(self).state.duration_us,
                    len,
                );
                let window = frame_window_spec(final(self).source.sample_rate);
                let buckets = terminal_width as int / 2;
                &&& !interrupted && !audio_changed
                &&& final(self).state.passed_time_us <= final(self).state.duration_us
                &&& (bars is None <==> no_visual_data(len, start, window, buckets))
                &&& (bars matches Some(b) ==> {
                    &&& b@.len() == buckets
                    &&& forall|k: int|
                        0 <= k < buckets ==> (#[trigger] b@[k]).1 == bar_at(
                            final(self).source.samples@,
                            start,
                            window,
                            buckets,
                            k,
                            SCALE_MAX as int,
                            SCALE_MULTIPLIER as int,
                        )
                    &&& forall|k: int| 0 <= k < buckets ==> (#[trigger] b@[k]).0@.len() == 0
                })
            },
    {
        self.state.tick(now_us, speed_percent);
        let plan = plan_frame(
            &self.state,
            self.source.samples.len(),
            self.source.sample_rate,
            terminal_width,
            interrupted,
            audio_changed,
        );
        match plan {
            FrameOutcome::Interrupted => CycleOutcome::Interrupted,
            FrameOutcome::Finished => CycleOutcome::Finished,
            FrameOutcome::Render(w) => CycleOutcome::Frame(
                create_data_from_samples(
                    &self.source.samples,
                    w.start_index,
                    w.window_len,
                    w.bucket_count,
                    SCALE_MAX,
                    SCALE_MULTIPLIER,
                ),
            ),
        }
    }
}

} // verus!
