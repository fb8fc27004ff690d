use vocal::bars::{create_data_from_samples, reduce_sample_to_slice};
use vocal::source::{AMP_SCALE, AudioSource};
use vocal::LoadError;

#[test]
fn too_few_samples_for_buckets_is_no_data() {
    let samples = vec![0, 0, 0];
    let r = create_data_from_samples(&samples, 0, 3, 4, 10_000, 100);
    assert!(r.is_none());
}

#[test]
fn start_past_the_buffer_is_no_data() {
    let samples = vec![0, 0, 0];
    let r = create_data_from_samples(&samples, 3, 5, 1, 10_000, 100);
    assert!(r.is_none());
    let r = create_data_from_samples(&samples, 100, 5, 1, 10_000, 100);
    assert!(r.is_none());
}

#[test]
fn zero_buckets_is_no_data() {
    let samples = vec![0, 0, 0];
    let r = create_data_from_samples(&samples, 0, 3, 0, 10_000, 100);
    assert!(r.is_none());
}

#[test]
fn silent_then_full_scale_halves() {
    // Eight samples, the first half at full negative and the second at
    // full positive amplitude, two buckets: a silent bar and a
    // full-scale bar.
    let s = AMP_SCALE;
    let samples = vec![-s, -s, -s, -s, s, s, s, s];
    let bars = create_data_from_samples(&samples, 0, 8, 2, 10_000, 100).unwrap();
    assert_eq!(bars, vec![("", 0), ("", 1_000_000)]);
}

#[test]
fn constant_amplitude_fills_every_bucket_alike() {
    // Half amplitude everywhere: every bucket shows
    // round(((0.5 + 1) / 2) * 10_000 * 100) = 750_000.
    let samples = vec![5_000; 12];
    let bars = create_data_from_samples(&samples, 0, 12, 3, 10_000, 100).unwrap();
    assert_eq!(bars, vec![("", 750_000), ("", 750_000), ("", 750_000)]);
}

#[test]
fn magnitudes_round_half_up() {
    // The two remapped values sum to 10_000 over a chunk of two, and a
    // scale of one turns that into exactly one half, which rounds up.
    let samples = vec![0, 1];
    let bars = create_data_from_samples(&samples, 0, 2, 1, 1, 1).unwrap();
    assert_eq!(bars, vec![("", 1)]);
}

#[test]
fn window_is_clipped_at_the_buffer_end() {
    // Window of five but only two samples remain: they form the slice,
    // one per bucket.
    let s = AMP_SCALE;
    let mut samples = vec![0; 8];
    samples.push(s);
    samples.push(-s);
    let bars = create_data_from_samples(&samples, 8, 5, 2, 10_000, 100).unwrap();
    assert_eq!(bars, vec![("", 1_000_000), ("", 0)]);
}

#[test]
fn remainder_samples_are_not_displayed() {
    // Five samples over two buckets: chunks of two, the fifth sample
    // falls outside every bucket.
    let s = AMP_SCALE;
    let samples = vec![s, s, -s, -s, s];
    let bars = create_data_from_samples(&samples, 0, 5, 2, 10_000, 100).unwrap();
    assert_eq!(bars, vec![("", 1_000_000), ("", 0)]);
}

#[test]
fn reduce_yields_chunk_sums_and_size() {
    // remap(0) = 5_000, chunks of two: each bucket sums to 10_000.
    let samples = vec![0, 0, 0, 0];
    let (sums, chunk_size) = reduce_sample_to_slice(&samples, 0, 4, 2).unwrap();
    assert_eq!(chunk_size, 2);
    assert_eq!(sums, vec![10_000, 10_000]);
}

#[test]
fn source_rejects_empty_and_zero_duration() {
    let r = AudioSource::new(44_100, vec![], 1_000_000);
    assert_eq!(r.err(), Some(LoadError::ZeroLength));
    let r = AudioSource::new(44_100, vec![1, 2, 3], 0);
    assert_eq!(r.err(), Some(LoadError::ZeroDuration));
}

#[test]
fn source_clamps_amplitudes_to_full_scale() {
    let src = AudioSource::new(44_100, vec![2 * AMP_SCALE, -2 * AMP_SCALE, 500], 1_000_000)
        .unwrap();
    assert_eq!(src.samples, vec![AMP_SCALE, -AMP_SCALE, 500]);
    assert_eq!(src.len(), 3);
    assert_eq!(src.sample_rate, 44_100);
    assert_eq!(src.duration_us, 1_000_000);
}
