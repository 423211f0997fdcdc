//! The streaming downsampler: assigns an arbitrary number of audio frames to
//! exactly `width` output columns with integer-exact proportional bucketing,
//! tracking the per-channel peak amplitude of each bucket, and draws each
//! finished column onto the canvas.
//!
//! Bucketing walks a down-counter and a fractional carry instead of
//! floating-point division: column `j` of a run over `total` frames holds
//! `spec_bucket(total, width, j)` frames, so bucket sizes differ by at most
//! one frame and sum exactly to `total`. A zero (unknown) frame-count hint is
//! substituted with one, which degenerates the bucketing for such streams but
//! never divides by zero.

use vstd::prelude::*;

use crate::image::{spec_clamp, spec_mono_drawn, spec_stereo_drawn, WaveImage, AMP_ONE};

verus! {

/// The number of frames the bucketing assigns to the first `j` columns of a
/// run over `total` frames and `width` columns.
pub open spec fn spec_cum(total: int, width: int, j: int) -> int
    recommends
        width >= 1,
{
    j * (total / width) + (j * (total % width)) / width
}

/// The number of frames the bucketing assigns to column `j`.
pub open spec fn spec_bucket(total: int, width: int, j: int) -> int
    recommends
        width >= 1,
{
    spec_cum(total, width, j + 1) - spec_cum(total, width, j)
}

/// The larger of a running peak and a newly clamped amplitude.
pub open spec fn spec_max_amp(cur: int, amp: i64) -> int {
    if cur >= spec_clamp(amp) {
        cur
    } else {
        spec_clamp(amp)
    }
}

/// The ghost state of a [`Downsampler`].
pub ghost struct DownsamplerModel {
    /// The number of output columns.
    pub width: nat,
    /// The frame-count hint with zero replaced by one.
    pub total: nat,
    /// Whole frames per column, `total / width`.
    pub spp: nat,
    /// Leftover frames, `total % width`.
    pub rem: nat,
    /// Frames still missing from the current bucket.
    pub budget: nat,
    /// The fractional accumulator distributing the leftover frames.
    pub carry: nat,
    /// The column a finished bucket is emitted at, capped at `width`.
    pub col: nat,
    /// The running left-channel peak of the current bucket.
    pub left: int,
    /// The running right-channel peak of the current bucket.
    pub right: int,
    /// The number of frames pushed so far.
    pub frames: nat,
    /// The number of buckets emitted so far.
    pub emitted: nat,
}

/// One finished output column: its index and the per-channel peak
/// amplitudes, in millionths of full scale.
#[derive(Debug, Clone, Copy, PartialEq, Eq, Structural)]
pub struct ColumnPeak {
    /// The column index, counted from the left edge.
    pub x: u32,
    /// The left-channel peak of the column's bucket.
    pub left: i64,
    /// The right-channel peak of the column's bucket.
    pub right: i64,
}

/// How a push changes the downsampler state: the clamped sample joins the
/// running maxima; then, if the bucket's down-counter reaches zero, the
/// column is emitted, the maxima reset, and the carry distributes one
/// leftover frame to the next bucket whenever it crosses `width`.
pub open spec fn spec_push_transition(
    pre: DownsamplerModel,
    post: DownsamplerModel,
    left: i64,
    right: i64,
) -> bool {
    &&& post.width == pre.width
    &&& post.total == pre.total
    &&& post.spp == pre.spp
    &&& post.rem == pre.rem
    &&& post.frames == pre.frames + 1
    &&& if pre.budget == 1 {
        &&& post.left == 0
        &&& post.right == 0
        &&& post.emitted == pre.emitted + 1
        &&& post.col == (if pre.col < pre.width {
            pre.col + 1
        } else {
            pre.col
        })
        &&& post.carry == (if pre.carry + pre.rem >= pre.width {
            pre.carry + pre.rem - pre.width
        } else {
            (pre.carry + pre.rem) as int
        })
        &&& post.budget == (if pre.carry + pre.rem >= pre.width {
            pre.spp + 1
        } else {
            pre.spp
        })
    } else {
        &&& post.left == spec_max_amp(pre.left, left)
        &&& post.right == spec_max_amp(pre.right, right)
        &&& post.emitted == pre.emitted
        &&& post.col == pre.col
        &&& post.carry == pre.carry
        &&& post.budget == (if pre.budget == 0 {
            u64::MAX as nat
        } else {
            (pre.budget - 1) as nat
        })
    }
}

/// Maps a stream of audio frames onto exactly `width` per-column peaks in a
/// single pass, one bucket at a time.
pub struct Downsampler {
    width: u32,
    total: u64,
    samples_per_pixel: u64,
    fractional_samples: u64,
    sample_progress: u64,
    partial_progress: u64,
    pixel_pos: u32,
    left_max: i64,
    right_max: i64,
    frames: Ghost<nat>,
    emitted: Ghost<nat>,
}

impl View for Downsampler {
    type V = DownsamplerModel;

    closed spec fn view(&self) -> DownsamplerModel {
        DownsamplerModel {
            width: self.width as nat,
            total: self.total as nat,
            spp: self.samples_per_pixel as nat,
            rem: self.fractional_samples as nat,
            budget: self.sample_progress as nat,
            carry: self.partial_progress as nat,
            col: self.pixel_pos as nat,
            left: self.left_max as int,
            right: self.right_max as int,
            frames: self.frames@,
            emitted: self.emitted@,
        }
    }
}

impl Downsampler {
    /// Well-formedness: the derived rates match the hint, the carry tracks
    /// the emitted-column count, the running maxima are clamped, and — for
    /// runs of at least `width` frames — the down-counter always holds
    /// exactly the rest of the current bucket.
    pub open spec fn wf(&self) -> bool {
        &&& 1 <= self@.width
        &&& 1 <= self@.total
        &&& self@.spp == self@.total / self@.width
        &&& self@.rem == self@.total % self@.width
        &&& self@.carry < self@.width
        &&& self@.carry == ((self@.emitted + 1) * self@.rem) % self@.width
        &&& 0 <= self@.left <= AMP_ONE
        &&& 0 <= self@.right <= AMP_ONE
        &&& self@.col == (if self@.emitted < self@.width {
            self@.emitted
        } else {
            self@.width
        })
        &&& self@.total >= self@.width ==> {
            &&& spec_cum(self@.total as int, self@.width as int, self@.emitted as int)
                <= self@.frames < spec_cum(
                self@.total as int,
                self@.width as int,
                self@.emitted as int + 1,
            )
            &&& self@.budget == spec_cum(
                self@.total as int,
                self@.width as int,
                self@.emitted as int + 1,
            ) - self@.frames
        }
    }

    /// Creates a downsampler for a stream reported to hold `total_frames`
    /// frames (`0` meaning unknown, treated as one frame) mapped onto
    /// `width` columns.
    pub fn new(total_frames: u64, width: u32) -> (ds: Self)
        requires
            width >= 1,
        ensures
            ds.wf(),
            ds@.width == width,
            ds@.total == (if total_frames == 0 {
                1
            } else {
                total_frames as nat
            }),
            ds@.frames == 0,
            ds@.emitted == 0,
            ds@.col == 0,
            ds@.left == 0,
            ds@.right == 0,
            ds@.budget == ds@.spp,
            ds@.carry == ds@.rem,
    {
        let total: u64 = if total_frames == 0 {
            1
        } else {
            total_frames
        };
        let width64 = width as u64;
        let samples_per_pixel = total / width64;
        let fractional_samples = total % width64;
        let ds = Downsampler {
            width,
            total,
            samples_per_pixel,
            fractional_samples,
            sample_progress: samples_per_pixel,
            partial_progress: fractional_samples,
            pixel_pos: 0,
            left_max: 0,
            right_max: 0,
            frames: Ghost(0),
            emitted: Ghost(0),
        };
        proof {
            let t = total as int;
            let w = width as int;
            vstd::arithmetic::div_mod::lemma_mod_division_less_than_divisor(t, w);
            vstd::arithmetic::div_mod::lemma_small_mod((t % w) as nat, w as nat);
            vstd::arithmetic::div_mod::lemma_basic_div(t % w, w);
            assert(spec_cum(t, w, 0) == 0);
            assert(spec_cum(t, w, 1) == t / w);
            if total >= width {
                vstd::arithmetic::div_mod::lemma_div_is_ordered(w, t, w);
                vstd::arithmetic::div_mod::lemma_div_by_self(w);
            }
        }
        ds
    }

    /// Feeds one frame's clamped per-channel amplitudes into the current
    /// bucket, and returns the finished column when the bucket completes. In
    /// a run of at least `width` frames a column is emitted exactly when the
    /// frame count reaches a bucket boundary.
    pub fn push(&mut self, left: i64, right: i64) -> (r: Option<ColumnPeak>)
        requires
            old(self).wf(),
        ensures
            final(self).wf(),
            spec_push_transition(old(self)@, final(self)@, left, right),
            r is Some <==> old(self)@.budget == 1,
            r matches Some(c) ==> c.x as nat == old(self)@.col && c.left as int == spec_max_amp(
                old(self)@.left,
                left,
            ) && c.right as int == spec_max_amp(old(self)@.right, right),
            old(self)@.total >= old(self)@.width ==> (r is Some <==> old(self)@.frames + 1
                == spec_cum(
                old(self)@.total as int,
                old(self)@.width as int,
                old(self)@.emitted as int + 1,
            )),
    {
        let l = clamp_amp(left);
        if l > self.left_max {
            self.left_max = l;
        }
        let r = clamp_amp(right);
        if r > self.right_max {
            self.right_max = r;
        }
        self.frames = Ghost(self.frames@ + 1);
        if self.sample_progress == 1 {
            let peak = ColumnPeak { x: self.pixel_pos, left: self.left_max, right: self.right_max };
            self.left_max = 0;
            self.right_max = 0;
            if self.pixel_pos < self.width {
                self.pixel_pos = self.pixel_pos + 1;
            }
            self.sample_progress = self.samples_per_pixel;
            proof {
                vstd::arithmetic::div_mod::lemma_fundamental_div_mod(
                    self.total as int,
                    self.width as int,
                );
                if self.total >= self.width as u64 {
                    vstd::arithmetic::div_mod::lemma_div_is_ordered(
                        self.width as int,
                        self.total as int,
                        self.width as int,
                    );
                    vstd::arithmetic::div_mod::lemma_div_by_self(self.width as int);
                }
                lemma_carry_step(
                    self.total as int,
                    self.width as int,
                    self.emitted@ as int,
                    self.partial_progress as int,
                );
                if self.partial_progress + self.fractional_samples >= self.width as u64 {
                    assert(self.width >= 2) by {
                        if self.width == 1 {
                            vstd::arithmetic::div_mod::lemma_mod_division_less_than_divisor(
                                self.total as int,
                                1,
                            );
                        }
                    }
                    assert(self.samples_per_pixel < u64::MAX) by (nonlinear_arith)
                        requires
                            self.total as int == self.width as int * (self.samples_per_pixel as int)
                                + self.fractional_samples as int,
                            self.fractional_samples >= 0,
                            self.samples_per_pixel >= 0,
                            self.width >= 2,
                            self.total <= u64::MAX,
                    ;
                }
            }
            self.partial_progress = self.partial_progress + self.fractional_samples;
            if self.partial_progress >= self.width as u64 {
                self.partial_progress = self.partial_progress - self.width as u64;
                self.sample_progress = self.sample_progress + 1;
            }
            self.emitted = Ghost(self.emitted@ + 1);
            Some(peak)
        } else {
            if self.sample_progress == 0 {
                self.sample_progress = u64::MAX;
            } else {
                self.sample_progress = self.sample_progress - 1;
            }
            None
        }
    }

    /// Returns the partially filled column still pending, if any: the stream
    /// ended before the current bucket completed, and its accumulated peaks
    /// still deserve a column.
    pub fn finish(&self) -> (r: Option<ColumnPeak>)
        requires
            self.wf(),
        ensures
            r is Some <==> self@.col < self@.width,
            r matches Some(c) ==> c.x as nat == self@.col && c.left as int == self@.left
                && c.right as int == self@.right,
    {
        if self.pixel_pos < self.width {
            Some(ColumnPeak { x: self.pixel_pos, left: self.left_max, right: self.right_max })
        } else {
            None
        }
    }
}

/// The channel layout of a decoded track, chosen once per file: tracks with
/// one channel render mono bars, tracks with two or more render the first
/// two channels as stereo bars.
#[derive(Debug, Clone, Copy, PartialEq, Eq, Structural)]
pub enum ChannelMode {
    /// One channel: its peaks are drawn symmetrically around the center.
    Mono,
    /// Two channels: left above the center line, right below it.
    Stereo,
}

/// Feeds one frame into the downsampler and, when its bucket completes,
/// draws the finished column onto the canvas with the mode's primitive.
pub fn process_frame(
    ds: &mut Downsampler,
    img: &mut WaveImage,
    mode: ChannelMode,
    left: i64,
    right: i64,
)
    requires
        old(ds).wf(),
        old(img).wf(),
    ensures
        final(ds).wf(),
        final(img).wf(),
        spec_push_transition(old(ds)@, final(ds)@, left, right),
        old(ds)@.budget != 1 ==> *final(img) == *old(img),
        old(ds)@.budget == 1 && mode == ChannelMode::Mono ==> spec_mono_drawn(
            *old(img),
            *final(img),
            old(ds)@.col as u32,
            spec_max_amp(old(ds)@.left, left) as i64,
        ),
        old(ds)@.budget == 1 && mode == ChannelMode::Stereo ==> spec_stereo_drawn(
            *old(img),
            *final(img),
            old(ds)@.col as u32,
            spec_max_amp(old(ds)@.left, left) as i64,
            spec_max_amp(old(ds)@.right, right) as i64,
        ),
{
    match ds.push(left, right) {
        Some(peak) => {
            match mode {
                ChannelMode::Mono => img.draw_point_mono(peak.x, peak.left),
                ChannelMode::Stereo => img.draw_point(peak.x, peak.left, peak.right),
            }
        },
        None => {},
    }
}

/// Draws the final, partially filled column if the stream ended before its
/// bucket completed, so the peaks gathered since the last emission still
/// reach the canvas.
pub fn finish_frames(ds: &Downsampler, img: &mut WaveImage, mode: ChannelMode)
    requires
        ds.wf(),
        old(img).wf(),
    ensures
        final(img).wf(),
        ds@.col >= ds@.width ==> *final(img) == *old(img),
        ds@.col < ds@.width && mode == ChannelMode::Mono ==> spec_mono_drawn(
            *old(img),
            *final(img),
            ds@.col as u32,
            ds@.left as i64,
        ),
        ds@.col < ds@.width && mode == ChannelMode::Stereo ==> spec_stereo_drawn(
            *old(img),
            *final(img),
            ds@.col as u32,
            ds@.left as i64,
            ds@.right as i64,
        ),
{
    match ds.finish() {
        Some(peak) => {
            match mode {
                ChannelMode::Mono => img.draw_point_mono(peak.x, peak.left),
                ChannelMode::Stereo => img.draw_point(peak.x, peak.left, peak.right),
            }
        },
        None => {},
    }
}

/// What to do with an output path before rendering begins.
#[derive(Debug, Clone, Copy, PartialEq, Eq, Structural)]
pub enum OutputAction {
    /// Render the waveform and write the output.
    Render,
    /// The output exists and may not be overwritten: skip the file silently.
    SkipQuietly,
    /// The output exists and may not be overwritten: report the collision.
    ReportExisting,
}

/// Decides how to treat an output file: an existing output is left alone
/// unless overwriting is allowed, and the skip is reported only in verbose
/// runs.
pub fn output_action(overwrite: bool, output_exists: bool, verbose: bool) -> (r: OutputAction)
    ensures
        r == (if !overwrite && output_exists {
            if verbose {
                OutputAction::ReportExisting
            } else {
                OutputAction::SkipQuietly
            }
        } else {
            OutputAction::Render
        }),
{
    if !overwrite && output_exists {
        if verbose {
            OutputAction::ReportExisting
        } else {
            OutputAction::SkipQuietly
        }
    } else {
        OutputAction::Render
    }
}

/// Clamps an amplitude to `[0, AMP_ONE]`.
fn clamp_amp(amp: i64) -> (r: i64)
    ensures
        r as int == spec_clamp(amp),
{
    if amp < 0 {
        0
    } else if amp > AMP_ONE {
        AMP_ONE
    } else {
        amp
    }
}

/// Each bucket of a run holds either `total / width` frames or one more.
proof fn lemma_bucket_bounds(total: int, width: int, j: int)
    requires
        width >= 1,
        total >= 0,
        j >= 0,
    ensures
        total / width <= spec_bucket(total, width, j) <= total / width + 1,
{
    let rem = total % width;
    let spp = total / width;
    vstd::arithmetic::div_mod::lemma_mod_division_less_than_divisor(total, width);
    assert((j + 1) * rem == j * rem + rem && j * rem >= 0) by (nonlinear_arith)
        requires
            j >= 0,
            rem >= 0,
    ;
    vstd::arithmetic::div_mod::lemma_div_is_ordered(j * rem, (j + 1) * rem, width);
    vstd::arithmetic::div_mod::lemma_div_is_ordered((j + 1) * rem, j * rem + width, width);
    vstd::arithmetic::div_mod::lemma_div_plus_one(j * rem, width);
    assert(spec_bucket(total, width, j) == spp + (((j + 1) * rem) / width - (j * rem) / width))
        by (nonlinear_arith)
        requires
            spec_cum(total, width, j + 1) == (j + 1) * spp + ((j + 1) * rem) / width,
            spec_cum(total, width, j) == j * spp + (j * rem) / width,
            spec_bucket(total, width, j) == spec_cum(total, width, j + 1) - spec_cum(
                total,
                width,
                j,
            ),
    ;
}

/// Prefix sums of bucket sizes never decrease.
proof fn lemma_cum_monotonic(total: int, width: int, j1: int, j2: int)
    requires
        width >= 1,
        total >= 0,
        0 <= j1 <= j2,
    ensures
        spec_cum(total, width, j1) <= spec_cum(total, width, j2),
    decreases j2 - j1,
{
    if j1 < j2 {
        lemma_cum_monotonic(total, width, j1, j2 - 1);
        lemma_bucket_bounds(total, width, j2 - 1);
        vstd::arithmetic::div_mod::lemma_div_pos_is_pos(total, width);
    }
}

/// The bucketing assigns every frame to exactly one column: over a run of
/// `total` frames and `width` columns, the per-column bucket sizes sum to
/// `total` exactly, and no bucket size differs from `total / width` by more
/// than one frame.
pub proof fn lemma_bucket_sizes(total: int, width: int)
    requires
        1 <= width <= total,
    ensures
        spec_cum(total, width, 0) == 0,
        spec_cum(total, width, width) == total,
        forall|j: int|
            0 <= j < width ==> total / width <= #[trigger] spec_bucket(total, width, j) <= total
                / width + 1,
{
    vstd::arithmetic::div_mod::lemma_fundamental_div_mod(total, width);
    vstd::arithmetic::div_mod::lemma_div_multiples_vanish(total % width, width);
    assert forall|j: int| 0 <= j < width implies total / width <= #[trigger] spec_bucket(
        total,
        width,
        j,
    ) <= total / width + 1 by {
        lemma_bucket_bounds(total, width, j);
    }
}

/// The downsampler emits exactly `width` columns over a full run: once a
/// downsampler for a hint of `total >= width` frames has consumed exactly
/// `total` frames, every one of the `width` output columns has been emitted
/// exactly once, left to right, and none remains pending.
pub proof fn lemma_full_run_emits_every_column(ds: Downsampler)
    requires
        ds.wf(),
        ds@.width <= ds@.total,
        ds@.frames == ds@.total,
    ensures
        ds@.emitted == ds@.width,
        ds@.col == ds@.width,
{
    let t = ds@.total as int;
    let w = ds@.width as int;
    let e = ds@.emitted as int;
    lemma_bucket_sizes(t, w);
    if e < w {
        lemma_cum_monotonic(t, w, e + 1, w);
    }
    if e > w {
        lemma_cum_monotonic(t, w, w + 1, e);
        lemma_bucket_bounds(t, w, w);
        vstd::arithmetic::div_mod::lemma_div_is_ordered(w, t, w);
        vstd::arithmetic::div_mod::lemma_div_by_self(w);
    }
}

/// Stepping the fractional carry from column `e` to column `e + 1`: adding
/// `rem` and wrapping at `width` keeps the carry congruent to
/// `(e + 2) * rem` modulo `width`, and the wrap happens exactly when column
/// `e + 1` absorbs one extra frame.
proof fn lemma_carry_step(total: int, width: int, e: int, carry: int)
    requires
        width >= 1,
        0 <= total,
        e >= 0,
        carry == ((e + 1) * (total % width)) % width,
    ensures
        ({
            let rem = total % width;
            &&& carry + rem >= width ==> (carry + rem - width) == ((e + 2) * rem) % width
            &&& carry + rem < width ==> (carry + rem) == ((e + 2) * rem) % width
            &&& carry + rem >= width ==> spec_cum(total, width, e + 2) == spec_cum(
                total,
                width,
                e + 1,
            ) + total / width + 1
            &&& carry + rem < width ==> spec_cum(total, width, e + 2) == spec_cum(total, width, e + 1)
                + total / width
        }),
{
    let rem = total % width;
    let spp = total / width;
    vstd::arithmetic::div_mod::lemma_mod_division_less_than_divisor(total, width);
    vstd::arithmetic::div_mod::lemma_mod_division_less_than_divisor((e + 1) * rem, width);
    let q = ((e + 1) * rem) / width;
    vstd::arithmetic::div_mod::lemma_fundamental_div_mod((e + 1) * rem, width);
    assert((e + 2) * rem == (e + 1) * rem + rem) by (nonlinear_arith);
    assert((e + 1) * rem >= 0) by (nonlinear_arith)
        requires
            e + 1 >= 0 && rem >= 0,
    ;
    assert(q >= 0) by {
        vstd::arithmetic::div_mod::lemma_div_pos_is_pos((e + 1) * rem, width);
    }
    if carry + rem >= width {
        assert((e + 2) * rem == (q + 1) * width + (carry + rem - width)) by (nonlinear_arith)
            requires
                (e + 1) * rem == width * q + carry,
                (e + 2) * rem == (e + 1) * rem + rem,
        ;
        vstd::arithmetic::div_mod::lemma_fundamental_div_mod_converse(
            (e + 2) * rem,
            width,
            q + 1,
            carry + rem - width,
        );
    } else {
        assert((e + 2) * rem == q * width + (carry + rem)) by (nonlinear_arith)
            requires
                (e + 1) * rem == width * q + carry,
                (e + 2) * rem == (e + 1) * rem + rem,
        ;
        vstd::arithmetic::div_mod::lemma_fundamental_div_mod_converse(
            (e + 2) * rem,
            width,
            q,
            carry + rem,
        );
    }
    assert(spec_cum(total, width, e + 2) - spec_cum(total, width, e + 1) == spp + (((e + 2) * rem)
        / width - ((e + 1) * rem) / width)) by (nonlinear_arith)
        requires
            spec_cum(total, width, e + 2) == (e + 2) * spp + ((e + 2) * rem) / width,
            spec_cum(total, width, e + 1) == (e + 1) * spp + ((e + 1) * rem) / width,
    ;
}

} // verus!
