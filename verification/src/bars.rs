//! Waveform windowing and downsampling.
//!
//! Every rendered frame, the slice of the sample buffer "under" the
//! current playback position — up to one frame interval's worth of audio,
//! starting at the index the progress points at — is folded into a small
//! fixed number of bars, one per column of the chart.  Each amplitude is
//! first remapped from full scale `[-AMP_SCALE, AMP_SCALE]` to
//! `[0, AMP_SCALE]`; the slice is then cut into `bucket_count` contiguous
//! chunks of equal size, and each chunk's arithmetic mean, as a fraction
//! of full scale, is scaled to the renderer's integer range by
//! `scale_max * scale_multiplier` and rounded.
//!
//! Too few samples for the requested bucket count — at the very end of
//! the track, or past it — is not an error: the chart is simply skipped
//! for that frame, and the functions here report it as `None`.

use vstd::prelude::*;
use vstd::arithmetic::div_mod::{
    lemma_fundamental_div_mod,
    lemma_fundamental_div_mod_converse_div,
    lemma_div_by_self,
    lemma_div_is_ordered,
    lemma_div_pos_is_pos,
    lemma_div_multiples_vanish_quotient,
    lemma_mod_division_less_than_divisor,
};
use vstd::arithmetic::mul::{
    lemma_mul_inequality,
    lemma_mul_is_distributive_add_other_way,
    lemma_mul_upper_bound,
};

use crate::source::{AMP_SCALE, amp_in_range};

verus! {

/// An amplitude remapped from full scale `[-AMP_SCALE, AMP_SCALE]` to
/// the non-negative range `[0, AMP_SCALE]`.
pub open spec fn remap_amp(s: int) -> int {
    (s + AMP_SCALE) / 2
}

/// Sum of the remapped amplitudes of a slice.
pub open spec fn remapped_sum(s: Seq<i32>) -> int
    decreases s.len(),
{
    if s.len() == 0 {
        0
    } else {
        remapped_sum(s.drop_last()) + remap_amp(s.last() as int)
    }
}

/// Integer division rounded half up; `den` must be positive.
pub open spec fn rounded_div(num: int, den: int) -> int {
    (2 * num + den) / (2 * den)
}

/// The renderer magnitude of one bucket: the chunk's mean remapped
/// amplitude as a fraction of full scale, times `scale_max *
/// scale_multiplier`, rounded.  `sum` is the chunk's remapped sum, so the
/// exact value is `sum * scale_max * scale_multiplier / (chunk_size *
/// AMP_SCALE)`, rounded half up.
pub open spec fn bar_magnitude(sum: int, chunk_size: int, scale_max: int, scale_multiplier: int) -> int {
    rounded_div(sum * scale_max * scale_multiplier, chunk_size * AMP_SCALE)
}

/// Length of the visualization slice: up to `window` samples starting at
/// `start`, clipped at the end of the buffer; empty when `start` is past
/// the buffer.
pub open spec fn slice_len_spec(len: int, start: int, window: int) -> int {
    if start >= len {
        0
    } else if window <= len - start {
        window
    } else {
        len - start
    }
}

/// When a frame has nothing to chart: no buckets were asked for, or the
/// slice is too short to put at least one sample into every bucket.
pub open spec fn no_visual_data(len: int, start: int, window: int, buckets: int) -> bool {
    buckets <= 0 || slice_len_spec(len, start, window) < buckets
}

/// Size of every bucket's chunk: the slice length divided evenly by the
/// bucket count, any remainder left undisplayed.
pub open spec fn chunk_size_spec(len: int, start: int, window: int, buckets: int) -> int {
    slice_len_spec(len, start, window) / buckets
}

/// The samples of bucket `k`, a chunk of `chunk_size` consecutive
/// elements.
pub open spec fn chunk_of(samples: Seq<i32>, start: int, chunk_size: int, k: int) -> Seq<i32> {
    samples.subrange(start + k * chunk_size, start + (k + 1) * chunk_size)
}

/// The magnitude of bar `k` for the given window of the given buffer.
pub open spec fn bar_at(
    samples: Seq<i32>,
    start: int,
    window: int,
    buckets: int,
    k: int,
    scale_max: int,
    scale_multiplier: int,
) -> int {
    let cs = chunk_size_spec(samples.len() as int, start, window, buckets);
    bar_magnitude(remapped_sum(chunk_of(samples, start, cs, k)), cs, scale_max, scale_multiplier)
}

/// Remapping keeps an in-range amplitude within `[0, AMP_SCALE]`.
proof fn lemma_remap_amp_bounds(s: i32)
    requires
        amp_in_range(s),
    ensures
        0 <= remap_amp(s as int) <= AMP_SCALE,
{
    assert(0 <= (s + AMP_SCALE) / 2 <= AMP_SCALE) by (nonlinear_arith)
        requires -AMP_SCALE <= s <= AMP_SCALE;
}

/// The remapped sum of a slice of in-range amplitudes lies between zero
/// and `len * AMP_SCALE`.
proof fn lemma_remapped_sum_bounds(s: Seq<i32>)
    requires
        forall|i: int| 0 <= i < s.len() ==> amp_in_range(#[trigger] s[i]),
    ensures
        0 <= remapped_sum(s) <= s.len() * AMP_SCALE,
    decreases s.len(),
{
    if s.len() == 0 {
    } else {
        lemma_remapped_sum_bounds(s.drop_last());
        lemma_remap_amp_bounds(s.last());
        assert((s.len() - 1) * AMP_SCALE + AMP_SCALE == s.len() * AMP_SCALE) by (nonlinear_arith);
    }
}

/// Appending one sample extends the remapped sum by its remapped value.
proof fn lemma_remapped_sum_push(s: Seq<i32>, x: i32)
    ensures
        remapped_sum(s.push(x)) == remapped_sum(s) + remap_amp(x as int),
{
    assert(s.push(x).drop_last() =~= s);
    assert(s.push(x).last() == x);
}

/// Collects the visualization slice into per-bucket chunk sums.
///
/// Returns `None` when the frame has nothing to chart (empty or too-short
/// slice, or no buckets).  Otherwise returns one remapped sum per bucket
/// together with the common chunk size, the exact fixed-point form of the
/// buckets' means: bucket `k`'s mean is `sums[k] / chunk_size` in units
/// of `AMP_SCALE`.
pub fn reduce_sample_to_slice(
    samples: &Vec<i32>,
    start: usize,
    window_len: u32,
    bucket_count: usize,
) -> (r: Option<(Vec<u64>, u32)>)
    requires
        forall|i: int| 0 <= i < samples@.len() ==> amp_in_range(#[trigger] samples@[i]),
    ensures
        r is None <==> no_visual_data(samples@.len() as int, start as int, window_len as int, bucket_count as int),
        r matches Some((sums, cs)) ==> {
            &&& cs == chunk_size_spec(samples@.len() as int, start as int, window_len as int, bucket_count as int)
            &&& cs >= 1
            &&& cs <= window_len
            &&& start + bucket_count * cs <= samples@.len()
            &&& sums@.len() == bucket_count
            &&& forall|k: int|
                0 <= k < bucket_count ==> #[trigger] sums@[k] == remapped_sum(
                    chunk_of(samples@, start as int, cs as int, k),
                )
        },
{
    let len = samples.len();
    let slice_len: usize = if start >= len {
        0
    } else if (window_len as usize) <= len - start {
        window_len as usize
    } else {
        len - start
    };
    if bucket_count == 0 || slice_len < bucket_count {
        return None;
    }
    let cs: usize = slice_len / bucket_count;
    proof {
        lemma_div_pos_is_pos(slice_len as int, bucket_count as int);
        lemma_div_is_ordered(bucket_count as int, slice_len as int, bucket_count as int);
        lemma_div_by_self(bucket_count as int);
        lemma_fundamental_div_mod(slice_len as int, bucket_count as int);
        lemma_mod_division_less_than_divisor(slice_len as int, bucket_count as int);
        // bucket_count * cs <= slice_len, so every chunk index stays in the buffer
        assert(bucket_count * cs <= slice_len);
        assert(cs <= slice_len) by (nonlinear_arith)
            requires bucket_count * cs <= slice_len, bucket_count >= 1, cs >= 0;
    }
    let mut sums: Vec<u64> = Vec::new();
    let mut k: usize = 0;
    while k < bucket_count
        invariant
            forall|i: int| 0 <= i < samples@.len() ==> amp_in_range(#[trigger] samples@[i]),
            len == samples@.len(),
            slice_len == slice_len_spec(len as int, start as int, window_len as int),
            bucket_count >= 1,
            cs == chunk_size_spec(len as int, start as int, window_len as int, bucket_count as int),
            cs >= 1,
            cs <= slice_len <= window_len,
            start + slice_len <= len,
            bucket_count * cs <= slice_len,
            0 <= k <= bucket_count,
            sums@.len() == k,
            forall|i: int|
                0 <= i < k ==> #[trigger] sums@[i] == remapped_sum(
                    chunk_of(samples@, start as int, cs as int, i),
                ),
        decreases bucket_count - k,
    {
        proof {
            assert((k + 1) * cs <= bucket_count * cs) by {
                lemma_mul_inequality(k + 1, bucket_count as int, cs as int);
            };
            assert(k * cs + cs == (k + 1) * cs) by {
                lemma_mul_is_distributive_add_other_way(cs as int, k as int, 1);
            };
            assert(start + k * cs + cs <= start + slice_len <= len);
        }
        let chunk_start: usize = start + k * cs;
        let mut sum: u64 = 0;
        let mut j: usize = 0;
        proof {
            assert(samples@.subrange(chunk_start as int, chunk_start as int) =~= Seq::<i32>::empty());
        }
        while j < cs
            invariant
                forall|i: int| 0 <= i < samples@.len() ==> amp_in_range(#[trigger] samples@[i]),
                len == samples@.len(),
                0 <= j <= cs,
                cs <= u32::MAX,
                chunk_start + cs <= len,
                sum == remapped_sum(samples@.subrange(chunk_start as int, chunk_start + j)),
                sum <= j * AMP_SCALE,
            decreases cs - j,
        {
            let s = samples[chunk_start + j];
            let remapped: i32 = (s + AMP_SCALE) / 2;
            proof {
                lemma_remap_amp_bounds(s);
                lemma_remapped_sum_push(
                    samples@.subrange(chunk_start as int, chunk_start + j),
                    s,
                );
                assert(samples@.subrange(chunk_start as int, chunk_start + j).push(s)
                    =~= samples@.subrange(chunk_start as int, chunk_start + j + 1));
                assert(j * AMP_SCALE + AMP_SCALE == (j + 1) * AMP_SCALE) by (nonlinear_arith);
                assert((j + 1) * AMP_SCALE <= cs * AMP_SCALE) by {
                    lemma_mul_inequality(j + 1, cs as int, AMP_SCALE as int);
                };
                assert(cs * AMP_SCALE <= u32::MAX * (AMP_SCALE as int)) by {
                    lemma_mul_inequality(cs as int, u32::MAX as int, AMP_SCALE as int);
                };
            }
            sum = sum + (remapped as u64);
            j = j + 1;
        }
        proof {
            assert(samples@.subrange(chunk_start as int, chunk_start + cs)
                =~= chunk_of(samples@, start as int, cs as int, k as int)) by {
                assert(start + k * cs + cs == start + (k + 1) * cs) by {
                    lemma_mul_is_distributive_add_other_way(cs as int, k as int, 1);
                };
            };
        }
        sums.push(sum);
        k = k + 1;
    }
    Some((sums, cs as u32))
}

/// Rounding division is unchanged by scaling numerator and denominator
/// by the same positive factor.
proof fn lemma_rounded_div_scale(c: int, num: int, den: int)
    requires
        c >= 1,
        num >= 0,
        den >= 1,
    ensures
        rounded_div(c * num, c * den) == rounded_div(num, den),
{
    assert(2 * (c * num) + c * den == c * (2 * num + den)) by (nonlinear_arith);
    assert(2 * (c * den) == c * (2 * den)) by (nonlinear_arith);
    lemma_div_multiples_vanish_quotient(c, 2 * num + den, 2 * den);
}

/// A rounded ratio of at most `m` (as a real ratio) rounds to at most `m`.
proof fn lemma_rounded_div_bound(num: int, den: int, m: int)
    requires
        den >= 1,
        m >= 0,
        0 <= num <= den * m,
    ensures
        0 <= rounded_div(num, den) <= m,
{
    assert(2 * num + den <= 2 * den * m + den) by (nonlinear_arith)
        requires num <= den * m;
    assert(2 * den * m + den == (2 * den) * m + den) by (nonlinear_arith);
    lemma_div_is_ordered(2 * num + den, (2 * den) * m + den, 2 * den);
    lemma_fundamental_div_mod_converse_div((2 * den) * m + den, 2 * den, m, den);
    lemma_div_pos_is_pos(2 * num + den, 2 * den);
}

/// The downsampler: the bars of one rendered frame.
///
/// Takes the slice of `samples` beginning at `start`, of length up to
/// `window_len` (clipped at the buffer end), and folds it into
/// `bucket_count` bars.  Each bar is an empty label — the chart carries
/// no text — and the bucket's magnitude: the chunk's mean remapped
/// amplitude scaled to `[0, scale_max * scale_multiplier]` and rounded.
/// Returns `None` exactly when the frame has nothing to chart: no
/// buckets requested, `start` at or past the buffer end, or fewer slice
/// samples than buckets.
pub fn create_data_from_samples(
    samples: &Vec<i32>,
    start: usize,
    window_len: u32,
    bucket_count: usize,
    scale_max: u32,
    scale_multiplier: u32,
) -> (r: Option<Vec<(&'static str, u64)>>)
    requires
        forall|i: int| 0 <= i < samples@.len() ==> amp_in_range(#[trigger] samples@[i]),
    ensures
        r is None <==> no_visual_data(samples@.len() as int, start as int, window_len as int, bucket_count as int),
        r matches Some(bars) ==> {
            &&& bars@.len() == bucket_count
            &&& forall|k: int|
                0 <= k < bucket_count ==> (#[trigger] bars@[k]).1 == bar_at(
                    samples@,
                    start as int,
                    window_len as int,
                    bucket_count as int,
                    k,
                    scale_max as int,
                    scale_multiplier as int,
                )
            &&& forall|k: int| 0 <= k < bucket_count ==> (#[trigger] bars@[k]).0@.len() == 0
        },
{
    let reduced = reduce_sample_to_slice(samples, start, window_len, bucket_count);
    match reduced {
        None => None,
        Some((sums, cs)) => {
            let n = sums.len();
            let mut bars: Vec<(&'static str, u64)> = Vec::new();
            let mut k: usize = 0;
            proof {
                reveal_strlit("");
            }
            while k < n
                invariant
                    forall|i: int| 0 <= i < samples@.len() ==> amp_in_range(#[trigger] samples@[i]),
                    n == bucket_count,
                    sums@.len() == bucket_count,
                    bucket_count >= 1,
                    cs == chunk_size_spec(samples@.len() as int, start as int, window_len as int, bucket_count as int),
                    cs >= 1,
                    start + bucket_count * cs <= samples@.len(),
                    forall|i: int|
                        0 <= i < bucket_count ==> #[trigger] sums@[i] == remapped_sum(
                            chunk_of(samples@, start as int, cs as int, i),
                        ),
                    0 <= k <= n,
                    bars@.len() == k,
                    forall|i: int|
                        0 <= i < k ==> (#[trigger] bars@[i]).1 == bar_at(
                            samples@,
                            start as int,
                            window_len as int,
                            bucket_count as int,
                            i,
                            scale_max as int,
                            scale_multiplier as int,
                        ),
                    forall|i: int| 0 <= i < k ==> (#[trigger] bars@[i]).0@.len() == 0,
                decreases n - k,
            {
                let sum: u64 = sums[k];
                let ghost chunk = chunk_of(samples@, start as int, cs as int, k as int);
                proof {
                    assert((k + 1) * cs <= bucket_count * cs) by {
                        lemma_mul_inequality(k + 1, bucket_count as int, cs as int);
                    };
                    assert(k * cs + cs == (k + 1) * cs) by {
                        lemma_mul_is_distributive_add_other_way(cs as int, k as int, 1);
                    };
                    assert(k * cs >= 0) by (nonlinear_arith)
                        requires k >= 0, cs >= 0;
                    assert(chunk.len() == cs);
                    assert(forall|i: int| 0 <= i < chunk.len() ==> amp_in_range(#[trigger] chunk[i]));
                    lemma_remapped_sum_bounds(chunk);
                    assert(sum <= (cs as int) * (AMP_SCALE as int));
                }
                proof {
                    assert((cs as int) * (AMP_SCALE as int) <= (u32::MAX as int) * (AMP_SCALE as int)) by {
                        lemma_mul_inequality(cs as int, u32::MAX as int, AMP_SCALE as int);
                    };
                    assert((scale_max as int) * (scale_multiplier as int)
                        <= (u32::MAX as int) * (u32::MAX as int)) by {
                        lemma_mul_upper_bound(
                            scale_max as int,
                            u32::MAX as int,
                            scale_multiplier as int,
                            u32::MAX as int,
                        );
                    };
                }
                let den: u128 = (cs as u128) * (AMP_SCALE as u128);
                let scale: u128 = (scale_max as u128) * (scale_multiplier as u128);
                proof {
                    assert((sum as int) * ((scale_max as int) * (scale_multiplier as int))
                        <= ((cs as int) * (AMP_SCALE as int)) * ((u32::MAX as int) * (u32::MAX as int))) by {
                        lemma_mul_upper_bound(
                            sum as int,
                            (cs as int) * (AMP_SCALE as int),
                            (scale_max as int) * (scale_multiplier as int),
                            (u32::MAX as int) * (u32::MAX as int),
                        );
                    };
                    assert(((cs as int) * (AMP_SCALE as int)) * ((u32::MAX as int) * (u32::MAX as int))
                        <= ((u32::MAX as int) * (AMP_SCALE as int)) * ((u32::MAX as int) * (u32::MAX as int))) by {
                        lemma_mul_inequality(
                            (cs as int) * (AMP_SCALE as int),
                            (u32::MAX as int) * (AMP_SCALE as int),
                            (u32::MAX as int) * (u32::MAX as int),
                        );
                    };
                }
                let num: u128 = (sum as u128) * scale;
                let mag128: u128 = (2 * num + den) / (2 * den);
                proof {
                    assert(num <= den * ((scale_max as int) * (scale_multiplier as int))) by {
                        lemma_mul_inequality(
                            sum as int,
                            (cs as int) * (AMP_SCALE as int),
                            (scale_max as int) * (scale_multiplier as int),
                        );
                    };
                    lemma_rounded_div_bound(
                        num as int,
                        den as int,
                        (scale_max as int) * (scale_multiplier as int),
                    );
                    assert(mag128 == rounded_div(num as int, den as int));
                    assert(mag128 <= (u32::MAX as int) * (u32::MAX as int));
                    assert((sum as int) * ((scale_max as int) * (scale_multiplier as int))
                        == (sum as int) * (scale_max as int) * (scale_multiplier as int)) by (nonlinear_arith);
                }
                let mag: u64 = mag128 as u64;
                proof {
                    reveal_strlit("");
                }
                bars.push(("", mag));
                k = k + 1;
            }
            Some(bars)
        },
    }
}

/// The remapped sum of a constant slice is its length times the one
/// remapped value.
proof fn lemma_remapped_sum_constant(s: Seq<i32>, v: i32)
    requires
        forall|i: int| 0 <= i < s.len() ==> s[i] == v,
    ensures
        remapped_sum(s) == s.len() * remap_amp(v as int),
    decreases s.len(),
{
    if s.len() == 0 {
    } else {
        lemma_remapped_sum_constant(s.drop_last(), v);
        assert((s.len() - 1) * remap_amp(v as int) + remap_amp(v as int) == s.len() * remap_amp(
            v as int,
        )) by (nonlinear_arith);
    }
}

/// Law: round-trip bucketing.  For a buffer of constant amplitude `v`,
/// every bucket of every frame with data has the same magnitude: the one
/// remapped value as a fraction of full scale, times
/// `scale_max * scale_multiplier`, rounded — the chunk size and the
/// bucket index drop out entirely.
pub proof fn lemma_constant_bars(
    samples: Seq<i32>,
    start: int,
    window: int,
    buckets: int,
    k: int,
    v: i32,
    scale_max: u32,
    scale_multiplier: u32,
)
    requires
        amp_in_range(v),
        0 <= start,
        0 <= window,
        !no_visual_data(samples.len() as int, start, window, buckets),
        0 <= k < buckets,
        forall|i: int| 0 <= i < samples.len() ==> samples[i] == v,
    ensures
        bar_at(samples, start, window, buckets, k, scale_max as int, scale_multiplier as int)
            == rounded_div(
            remap_amp(v as int) * scale_max * scale_multiplier,
            AMP_SCALE as int,
        ),
{
    let len = samples.len() as int;
    let slice_len = slice_len_spec(len, start, window);
    let cs = chunk_size_spec(len, start, window, buckets);
    lemma_div_pos_is_pos(slice_len, buckets);
    lemma_div_is_ordered(buckets, slice_len, buckets);
    lemma_div_by_self(buckets);
    lemma_fundamental_div_mod(slice_len, buckets);
    lemma_mod_division_less_than_divisor(slice_len, buckets);
    assert(buckets * cs <= slice_len);
    assert((k + 1) * cs <= buckets * cs) by {
        lemma_mul_inequality(k + 1, buckets, cs);
    };
    assert(k * cs + cs == (k + 1) * cs) by {
        lemma_mul_is_distributive_add_other_way(cs, k, 1);
    };
    assert(k * cs >= 0) by (nonlinear_arith)
        requires k >= 0, cs >= 0;
    let chunk = chunk_of(samples, start, cs, k);
    assert(chunk.len() == cs);
    assert(forall|i: int| 0 <= i < chunk.len() ==> chunk[i] == v);
    lemma_remapped_sum_constant(chunk, v);
    let r = remap_amp(v as int);
    assert(0 <= r) by {
        lemma_remap_amp_bounds(v);
    };
    assert(cs * r * scale_max * scale_multiplier == cs * (r * scale_max * scale_multiplier))
        by (nonlinear_arith);
    lemma_rounded_div_scale(cs, r * scale_max * scale_multiplier, AMP_SCALE as int);
    assert(r * scale_max * scale_multiplier >= 0) by (nonlinear_arith)
        requires r >= 0, scale_max >= 0, scale_multiplier >= 0;
}

} // verus!
