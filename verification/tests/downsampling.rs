//! Tests for the streaming downsampler: exact bucketing, column counts,
//! peak accumulation, and the canvas glue.

use waver::audio::{
    finish_frames, output_action, process_frame, ChannelMode, Downsampler, OutputAction,
};
use waver::cli::{Height, Width};
use waver::image::{Channel, WaveImage};

/// Runs a downsampler over `frames` silent frames and returns, per emitted
/// column, the column index and the number of frames its bucket consumed.
fn bucket_sizes(total_hint: u64, width: u32, frames: u64) -> Vec<(u32, u64)> {
    let mut ds = Downsampler::new(total_hint, width);
    let mut sizes = Vec::new();
    let mut in_bucket: u64 = 0;
    for _ in 0..frames {
        in_bucket += 1;
        if let Some(peak) = ds.push(0, 0) {
            sizes.push((peak.x, in_bucket));
            in_bucket = 0;
        }
    }
    sizes
}

#[test]
fn test_even_bucketing() {
    // 1000 frames over 100 columns: ten frames per column, no remainder
    let sizes = bucket_sizes(1000, 100, 1000);
    assert_eq!(sizes.len(), 100, "exactly 100 columns should be emitted");
    for (k, (x, n)) in sizes.iter().enumerate() {
        assert_eq!(*x, k as u32, "columns should be emitted left to right");
        assert_eq!(*n, 10, "each column should consume exactly 10 frames");
    }
}

#[test]
fn test_remainder_bucketing() {
    // 105 frames over 100 columns: five columns take one extra frame,
    // evenly spread, and the sizes sum back to 105
    let sizes = bucket_sizes(105, 100, 105);
    assert_eq!(sizes.len(), 100, "exactly 100 columns should be emitted");
    let mut doubles = Vec::new();
    let mut sum = 0;
    for (k, (x, n)) in sizes.iter().enumerate() {
        assert_eq!(*x, k as u32, "columns should be emitted left to right");
        assert!(*n == 1 || *n == 2, "bucket sizes differ by at most one");
        sum += *n;
        if *n == 2 {
            doubles.push(*x);
        }
    }
    assert_eq!(sum, 105, "bucket sizes must sum to the total frame count");
    assert_eq!(
        doubles,
        vec![19, 39, 59, 79, 99],
        "the 5 double-sized columns are evenly spread"
    );
}

#[test]
fn test_bucketing_sums_to_total() {
    // An awkward remainder: every bucket within one frame of the floor,
    // sizes summing exactly to the total
    let total = 1234;
    let sizes = bucket_sizes(total, 100, total);
    assert_eq!(sizes.len(), 100);
    let mut sum = 0;
    for (_, n) in &sizes {
        assert!(*n == 12 || *n == 13);
        sum += n;
    }
    assert_eq!(sum, total);
}

#[test]
fn test_full_run_leaves_nothing_pending() {
    // After a run of exactly the hinted length, no partial column remains
    let mut ds = Downsampler::new(640, 16);
    let mut emitted = 0;
    for _ in 0..640 {
        if ds.push(0, 0).is_some() {
            emitted += 1;
        }
    }
    assert_eq!(emitted, 16);
    assert!(ds.finish().is_none(), "a full run leaves no pending column");
}

#[test]
fn test_short_stream_emits_partial_column() {
    // A stream shorter than the hint ends with one pending partial column
    let mut ds = Downsampler::new(100, 20);
    for _ in 0..4 {
        assert!(ds.push(250_000, 0).is_none(), "four frames leave the 5-frame bucket open");
    }
    let emitted = ds.push(250_000, 0).expect("the fifth frame completes the first bucket");
    assert_eq!(emitted.x, 0);
    for _ in 0..2 {
        assert!(ds.push(250_000, 0).is_none());
    }
    // Two frames of the second bucket have arrived; it is still pending
    let pending = ds.finish().expect("a partial bucket must still be pending");
    assert_eq!(pending.x, 1);
    assert_eq!(pending.left, 250_000);
}

#[test]
fn test_unknown_length_degenerates_to_one_column() {
    // A zero (unknown) frame-count hint is treated as one frame: no bucket
    // ever completes, and only the final partial column is emitted
    let mut ds = Downsampler::new(0, 100);
    for _ in 0..50 {
        assert!(ds.push(1_000_000, 0).is_none());
    }
    let pending = ds.finish().expect("the degenerate run holds one pending column");
    assert_eq!(pending.x, 0);
    assert_eq!(pending.left, 1_000_000);
}

#[test]
fn test_peaks_track_clamped_maxima() {
    // One column per frame: each emission carries that frame's clamped peaks
    let mut ds = Downsampler::new(16, 16);
    let peak = ds.push(-5_000_000, 2_000_000).unwrap();
    assert_eq!(peak.x, 0);
    assert_eq!(peak.left, 0, "negative amplitudes clamp to silence");
    assert_eq!(peak.right, 1_000_000, "oversized amplitudes clamp to full scale");

    // Two frames per bucket: the bucket keeps the larger amplitude
    let mut ds = Downsampler::new(32, 16);
    assert!(ds.push(300_000, 100_000).is_none());
    let peak = ds.push(200_000, 400_000).unwrap();
    assert_eq!(peak.left, 300_000);
    assert_eq!(peak.right, 400_000);
}

#[test]
fn test_process_frames_draws_columns() {
    // Mono: one frame per column at full scale paints every column fully
    let width = Width::new(16).unwrap();
    let height = Height::new(6).unwrap();
    let mut img = WaveImage::new(width, height);
    let mut ds = Downsampler::new(16, 16);
    for _ in 0..16 {
        process_frame(&mut ds, &mut img, ChannelMode::Mono, 1_000_000, 0);
    }
    finish_frames(&ds, &mut img, ChannelMode::Mono);
    for x in 0..16 {
        for y in 0..6 {
            assert_eq!(Channel::from(img.pixel_at(x, y)), Channel::Left);
        }
    }

    // Stereo: left bar above the center, right bar below it
    let mut img = WaveImage::new(width, height);
    let mut ds = Downsampler::new(16, 16);
    for _ in 0..16 {
        process_frame(&mut ds, &mut img, ChannelMode::Stereo, 1_000_000, 1_000_000);
    }
    finish_frames(&ds, &mut img, ChannelMode::Stereo);
    for x in 0..16 {
        for y in 0..3 {
            assert_eq!(Channel::from(img.pixel_at(x, y)), Channel::Left);
        }
        for y in 3..6 {
            assert_eq!(Channel::from(img.pixel_at(x, y)), Channel::Right);
        }
    }
}

#[test]
fn test_output_action_policy() {
    // An existing output is skipped unless overwriting is allowed
    assert_eq!(output_action(false, true, false), OutputAction::SkipQuietly);
    assert_eq!(output_action(false, true, true), OutputAction::ReportExisting);
    assert_eq!(output_action(true, true, false), OutputAction::Render);
    assert_eq!(output_action(true, true, true), OutputAction::Render);
    assert_eq!(output_action(false, false, false), OutputAction::Render);
    assert_eq!(output_action(false, false, true), OutputAction::Render);
}
