//! The sample store: one decoded audio clip.
//!
//! An [`AudioSource`] holds the full amplitude buffer of a track together
//! with its sample rate and duration.  Amplitudes are fixed-point values
//! in units of [`AMP_SCALE`], with `AMP_SCALE` standing for full positive
//! amplitude and `-AMP_SCALE` for full negative amplitude; the decoder
//! boundary converts its normalized output into this representation.  The
//! buffer is immutable after load and read only by the downsampler.

use vstd::prelude::*;

use crate::LoadError;

verus! {

/// Fixed-point unit of amplitude: this value stands for an amplitude of
/// one (full positive scale).
pub const AMP_SCALE: i32 = 10_000;

/// Whether a fixed-point amplitude is within full scale.
pub open spec fn amp_in_range(s: i32) -> bool {
    -AMP_SCALE <= s <= AMP_SCALE
}

/// An amplitude forced into full scale.
pub open spec fn clamp_amp_spec(s: i32) -> i32 {
    if s < -AMP_SCALE {
        (-AMP_SCALE) as i32
    } else if s > AMP_SCALE {
        AMP_SCALE
    } else {
        s
    }
}

/// One decoded clip: its sample rate, its full fixed-point amplitude
/// buffer, and its duration in microseconds.
#[derive(Clone, Debug)]
pub struct AudioSource {
    /// Samples per second of the decoded stream.
    pub sample_rate: u32,
    /// The decoded amplitude buffer, every value within full scale.
    pub samples: Vec<i32>,
    /// Total duration in microseconds; always positive.
    pub duration_us: u64,
}

impl AudioSource {
    /// A source is well formed when it has at least one sample, a positive
    /// duration, and every amplitude within full scale.
    pub open spec fn wf(self) -> bool {
        &&& self.samples@.len() > 0
        &&& self.duration_us > 0
        &&& forall|i: int| 0 <= i < self.samples@.len() ==> amp_in_range(#[trigger] self.samples@[i])
    }

    /// Accepts a decoded clip for playback.  A clip with no samples or a
    /// zero duration is rejected — it could not be played or visualized.
    /// Amplitudes are forced into full scale, value by value.
    pub fn new(sample_rate: u32, samples: Vec<i32>, duration_us: u64) -> (r: Result<
        AudioSource,
        LoadError,
    >)
        ensures
            r is Err <==> (samples@.len() == 0 || duration_us == 0),
            r matches Err(e) ==> (e == LoadError::ZeroLength <==> samples@.len() == 0),
            r matches Err(e) ==> (e == LoadError::ZeroDuration <==> (samples@.len() > 0
                && duration_us == 0)),
            r matches Ok(src) ==> {
                &&& src.wf()
                &&& src.sample_rate == sample_rate
                &&& src.duration_us == duration_us
                &&& src.samples@.len() == samples@.len()
                &&& forall|i: int|
                    0 <= i < samples@.len() ==> #[trigger] src.samples@[i] == clamp_amp_spec(
                        samples@[i],
                    )
            },
    {
        if samples.len() == 0 {
            return Err(LoadError::ZeroLength);
        }
        if duration_us == 0 {
            return Err(LoadError::ZeroDuration);
        }
        let ghost original = samples@;
        let mut clamped = samples;
        let n = clamped.len();
        let mut i: usize = 0;
        while i < n
            invariant
                n == clamped.len(),
                n == original.len(),
                0 <= i <= n,
                forall|j: int| i <= j < n ==> clamped@[j] == original[j],
                forall|j: int| 0 <= j < i ==> #[trigger] clamped@[j] == clamp_amp_spec(original[j]),
            decreases n - i,
        {
            let s = clamped[i];
            let c: i32 = if s < -AMP_SCALE {
                -AMP_SCALE
            } else if s > AMP_SCALE {
                AMP_SCALE
            } else {
                s
            };
            clamped.set(i, c);
            i = i + 1;
        }
        Ok(AudioSource { sample_rate, samples: clamped, duration_us })
    }

    /// Number of samples in the buffer.
    pub fn len(&self) -> (r: usize)
        ensures
            r == self.samples@.len(),
    {
        self.samples.len()
    }
}

} // verus!
