//! The 2-bit-per-pixel packed canvas that accumulates waveform bars, and its
//! serialization as an indexed-palette PNG.
//!
//! Every byte of the canvas holds four independent 2-bit pixel fields; field
//! `k` of the byte at row `y`, group `g` is the pixel `(x = 4 * g + k, y)`.
//! Pixel codes: `0` background, `1` left-channel mark, `2` right-channel
//! mark; `3` arises only as the bitwise OR of `1` and `2` at one position.
//!
//! Amplitudes are fixed-point integers in millionths: `AMP_ONE` stands for
//! full scale. Values below `0` clamp to silence, values above `AMP_ONE`
//! clamp to full scale.

use vstd::prelude::*;

use crate::cli::{Height, Width};
use crate::color::Rgba;
use crate::error::WaverError;

verus! {

/// The PNG stream that encodes an indexed-color image of the given
/// dimensions with a 2-bit sample depth, the given palette and transparency
/// table, up-filtering, and the encoder's strongest compression: a function
/// of these inputs alone.
pub uninterp spec fn png_bytes_of(
    width: nat,
    height: nat,
    palette: Seq<u8>,
    trns: Seq<u8>,
    data: Seq<u8>,
) -> Seq<u8>;

/// Full-scale amplitude: amplitudes are measured in millionths of full scale.
pub const AMP_ONE: i64 = 1_000_000;

/// The channel that claimed a pixel.
#[derive(Debug, Clone, Copy, PartialEq, Eq, Structural)]
pub enum Channel {
    /// Background (no channel drew here, or both channels collided).
    Background,
    /// Left audio channel (drawn above the center line).
    Left,
    /// Right audio channel (drawn below the center line).
    Right,
}

/// The 2-bit code a channel writes into the canvas.
pub open spec fn spec_channel_code(c: Channel) -> u8 {
    match c {
        Channel::Background => 0,
        Channel::Left => 1,
        Channel::Right => 2,
    }
}

/// The channel a 2-bit pixel code denotes; codes `0` and `3` both render as
/// background.
pub open spec fn spec_channel_of(v: u8) -> Channel {
    if v == 1 {
        Channel::Left
    } else if v == 2 {
        Channel::Right
    } else {
        Channel::Background
    }
}

impl From<Channel> for u8 {
    fn from(channel: Channel) -> (r: u8) {
        match channel {
            Channel::Background => 0,
            Channel::Left => 1,
            Channel::Right => 2,
        }
    }
}

impl vstd::std_specs::convert::FromSpecImpl<Channel> for u8 {
    open spec fn obeys_from_spec() -> bool {
        true
    }

    open spec fn from_spec(channel: Channel) -> u8 {
        spec_channel_code(channel)
    }
}

impl From<u8> for Channel {
    fn from(value: u8) -> (r: Channel) {
        if value == 1 {
            Channel::Left
        } else if value == 2 {
            Channel::Right
        } else {
            Channel::Background
        }
    }
}

impl vstd::std_specs::convert::FromSpecImpl<u8> for Channel {
    open spec fn obeys_from_spec() -> bool {
        true
    }

    open spec fn from_spec(value: u8) -> Channel {
        spec_channel_of(value)
    }
}

/// Clamps an amplitude to the range `[0, AMP_ONE]`.
pub open spec fn spec_clamp(amp: i64) -> int {
    if amp < 0 {
        0
    } else if amp > AMP_ONE {
        AMP_ONE as int
    } else {
        amp as int
    }
}

/// The height in rows of a bar for `amp` on a canvas whose center line is
/// `center`: the clamped amplitude scaled by `center` and rounded to the
/// nearest row.
pub open spec fn spec_bar_half(center: u32, amp: i64) -> int {
    (center * spec_clamp(amp) + 500_000) / 1_000_000
}

/// The bit position of the pixel field for column `x` inside its byte.
pub open spec fn spec_shift(x: int) -> u8 {
    (2 * (x % 4)) as u8
}

/// The byte that ORs `code` into the pixel field for column `x`.
pub open spec fn spec_mask(code: u8, x: int) -> u8 {
    (code & 3) << spec_shift(x)
}

/// The 2-bit pixel field for column `x` inside byte `b`.
pub open spec fn spec_pixel_in_byte(b: u8, x: int) -> u8 {
    (b >> spec_shift(x)) & 3
}

/// `data` with `mask` ORed into the bytes of byte-column `bytecol`, rows
/// `y0` (inclusive) to `y1` (exclusive), and every other byte unchanged.
pub open spec fn spec_or_column(
    data: Seq<u8>,
    stride: int,
    bytecol: int,
    y0: int,
    y1: int,
    mask: u8,
) -> Seq<u8> {
    Seq::new(
        data.len(),
        |i: int|
            if i % stride == bytecol && y0 <= i / stride < y1 {
                data[i] | mask
            } else {
                data[i]
            },
    )
}

/// A waveform canvas: a fixed-size 2-bit-per-pixel raster with additive (OR)
/// compositing, so no draw call ever erases previously set bits.
pub struct WaveImage {
    /// Width of the image in pixels.
    width: u32,
    /// Height of the image in pixels (even).
    height: u32,
    /// Vertical center line position, `height / 2`.
    center: u32,
    /// Bytes per row: four pixels per byte, rounded up.
    line_width: u32,
    /// The packed pixel store, one 2-bit field per pixel.
    pixels: Vec<u8>,
}

impl WaveImage {
    /// The width of the canvas in pixels.
    pub closed spec fn spec_width(&self) -> u32 {
        self.width
    }

    /// The height of the canvas in pixels.
    pub closed spec fn spec_height(&self) -> u32 {
        self.height
    }

    /// The row index of the center line.
    pub closed spec fn spec_center(&self) -> u32 {
        self.center
    }

    /// The number of bytes per raster row.
    pub closed spec fn spec_line_width(&self) -> u32 {
        self.line_width
    }

    /// The packed byte store.
    pub closed spec fn spec_data(&self) -> Seq<u8> {
        self.pixels@
    }

    /// Well-formedness: the dimensions are valid, the derived fields follow
    /// from them, and the store holds exactly one 2-bit field per pixel.
    pub open spec fn wf(&self) -> bool {
        &&& self.spec_width() >= 16
        &&& self.spec_height() >= 6
        &&& self.spec_height() % 2 == 0
        &&& self.spec_center() == self.spec_height() / 2
        &&& self.spec_line_width() == (self.spec_width() + 3) / 4
        &&& self.spec_line_width() * self.spec_height() <= u32::MAX
        &&& self.spec_data().len() == self.spec_line_width() * self.spec_height()
    }

    /// The byte index that stores pixel `(x, y)`.
    pub open spec fn spec_byte_index(&self, x: int, y: int) -> int {
        x / 4 + y * (self.spec_line_width() as int)
    }

    /// The 2-bit code stored for pixel `(x, y)`.
    pub open spec fn spec_pixel(&self, x: int, y: int) -> u8
        recommends
            self.wf(),
            0 <= x < self.spec_width(),
            0 <= y < self.spec_height(),
    {
        spec_pixel_in_byte(self.spec_data()[self.spec_byte_index(x, y)], x)
    }

    /// Creates a canvas of the given dimensions with every pixel set to
    /// background. The storage holds `ceil(width / 4)` bytes per row, so
    /// any width in a group of four uses the same storage as the next
    /// multiple of four.
    pub fn new(width: Width, height: Height) -> (img: Self)
        requires
            ((width@ + 3) / 4) * height@ <= u32::MAX,
        ensures
            img.wf(),
            img.spec_width() == width@,
            img.spec_height() == height@,
            img.spec_center() == height@ / 2,
            img.spec_line_width() == (width@ + 3) / 4,
            img.spec_data().len() == ((width@ + 3) / 4) * height@,
            forall|i: int| 0 <= i < img.spec_data().len() ==> img.spec_data()[i] == 0u8,
    {
        let width_val = width.value();
        let line_val = (width_val - 1) / 4 + 1;
        assert(line_val == (width_val + 3) / 4);
        let height_val = height.value();
        let size = line_val * height_val;
        let mut pixels: Vec<u8> = Vec::new();
        let mut i: u32 = 0;
        while i < size
            invariant
                i <= size,
                pixels@.len() == i,
                forall|k: int| 0 <= k < i ==> pixels@[k] == 0u8,
            decreases size - i,
        {
            pixels.push(0u8);
            i = i + 1;
        }
        Self { width: width_val, height: height_val, line_width: line_val, center: height.center(), pixels }
    }

    /// Returns the width of the image.
    pub fn width(&self) -> (r: u32)
        ensures
            r == self.spec_width(),
    {
        self.width
    }

    /// Returns the height of the image.
    pub fn height(&self) -> (r: u32)
        ensures
            r == self.spec_height(),
    {
        self.height
    }

    /// Returns the row index of the center line.
    pub fn center(&self) -> (r: u32)
        ensures
            r == self.spec_center(),
    {
        self.center
    }

    /// Returns the number of bytes per raster row.
    pub fn line_width(&self) -> (r: u32)
        ensures
            r == self.spec_line_width(),
    {
        self.line_width
    }

    /// Returns the packed byte store.
    pub fn bytes(&self) -> (r: &Vec<u8>)
        ensures
            r@ == self.spec_data(),
    {
        &self.pixels
    }

    /// Returns the 2-bit code stored at `(x, y)`, or `0` outside the canvas.
    pub fn pixel_at(&self, x: u32, y: u32) -> (r: u8)
        requires
            self.wf(),
        ensures
            x < self.spec_width() && y < self.spec_height() ==> r == self.spec_pixel(
                x as int,
                y as int,
            ),
            x >= self.spec_width() || y >= self.spec_height() ==> r == 0u8,
            r <= 3,
    {
        if x >= self.width || y >= self.height {
            return 0;
        }
        proof {
            lemma_byte_index_in_range(self, x as int, y as int);
        }
        let idx = (x / 4 + y * self.line_width) as usize;
        let b = self.pixels[idx];
        let sh: u32 = 2 * (x % 4);
        let r = (b >> (sh as u8)) & 3;
        assert(r == spec_pixel_in_byte(b, x as int) && r <= 3) by (bit_vector)
            requires
                sh == 2 * (x % 4),
                r == (b >> (sh as u8)) & 3u8,
        ;
        r
    }
}

/// Compositing has the background as its identity: ORing the mask of the
/// background code into any rows changes no byte.
pub proof fn lemma_or_column_identity(data: Seq<u8>, stride: int, bytecol: int, y0: int, y1: int)
    ensures
        spec_or_column(data, stride, bytecol, y0, y1, spec_mask(0, 0)) == data,
{
    assert(spec_shift(0) == 0u8);
    assert(((0u8 & 3) << 0u8) == 0u8) by (bit_vector);
    assert(spec_mask(0, 0) == 0u8);
    assert(forall|b: u8| #[trigger] (b | 0u8) == b) by (bit_vector);
    assert(spec_or_column(data, stride, bytecol, y0, y1, spec_mask(0, 0)) =~= data);
}

/// Compositing is a commutative merge: ORing two bars into the canvas in
/// either order yields the same bytes, so draw order across a column never
/// matters.
pub proof fn lemma_or_column_commutes(
    data: Seq<u8>,
    stride: int,
    bc1: int,
    y01: int,
    y11: int,
    m1: u8,
    bc2: int,
    y02: int,
    y12: int,
    m2: u8,
)
    ensures
        spec_or_column(spec_or_column(data, stride, bc1, y01, y11, m1), stride, bc2, y02, y12, m2)
            == spec_or_column(
            spec_or_column(data, stride, bc2, y02, y12, m2),
            stride,
            bc1,
            y01,
            y11,
            m1,
        ),
{
    assert(forall|b: u8, p: u8, q: u8| #[trigger] ((b | p) | q) == ((b | q) | p)) by (bit_vector);
    let first = spec_or_column(spec_or_column(data, stride, bc1, y01, y11, m1), stride, bc2, y02, y12, m2);
    let second = spec_or_column(spec_or_column(data, stride, bc2, y02, y12, m2), stride, bc1, y01, y11, m1);
    assert forall|i: int| 0 <= i < data.len() implies first[i] == second[i] by {
        let t1 = i % stride == bc1 && y01 <= i / stride < y11;
        let t2 = i % stride == bc2 && y02 <= i / stride < y12;
        if t1 && t2 {
            assert(first[i] == (data[i] | m1) | m2);
            assert(second[i] == (data[i] | m2) | m1);
        }
    }
    assert(first =~= second);
}

/// `a` and `b` agree on every dimension field.
pub open spec fn spec_same_dims(a: WaveImage, b: WaveImage) -> bool {
    &&& a.spec_width() == b.spec_width()
    &&& a.spec_height() == b.spec_height()
    &&& a.spec_center() == b.spec_center()
    &&& a.spec_line_width() == b.spec_line_width()
}

/// `post` is `pre` with one mono column drawn: a left-channel bar around the
/// center line at column `x`, or no change when `x` lies beyond the canvas.
pub open spec fn spec_mono_drawn(pre: WaveImage, post: WaveImage, x: u32, mono: i64) -> bool {
    &&& spec_same_dims(pre, post)
    &&& x >= pre.spec_width() ==> post.spec_data() == pre.spec_data()
    &&& x < pre.spec_width() ==> post.spec_data() == spec_or_column(
        pre.spec_data(),
        pre.spec_line_width() as int,
        (x / 4) as int,
        pre.spec_center() - spec_bar_half(pre.spec_center(), mono),
        pre.spec_center() + spec_bar_half(pre.spec_center(), mono),
        spec_mask(1, x as int),
    )
}

/// `post` is `pre` with one stereo column drawn: a left bar above the center
/// line and a right bar below it at column `x`, or no change when `x` lies
/// beyond the canvas.
pub open spec fn spec_stereo_drawn(
    pre: WaveImage,
    post: WaveImage,
    x: u32,
    left: i64,
    right: i64,
) -> bool {
    &&& spec_same_dims(pre, post)
    &&& x >= pre.spec_width() ==> post.spec_data() == pre.spec_data()
    &&& x < pre.spec_width() ==> post.spec_data() == spec_or_column(
        spec_or_column(
            pre.spec_data(),
            pre.spec_line_width() as int,
            (x / 4) as int,
            pre.spec_center() - spec_bar_half(pre.spec_center(), left),
            pre.spec_center() as int,
            spec_mask(1, x as int),
        ),
        pre.spec_line_width() as int,
        (x / 4) as int,
        pre.spec_center() as int,
        pre.spec_center() + spec_bar_half(pre.spec_center(), right),
        spec_mask(2, x as int),
    )
}

/// The byte of pixel `(x, y)` lies inside the store of a well-formed canvas,
/// and in the byte column `x / 4`.
proof fn lemma_byte_index_in_range(img: &WaveImage, x: int, y: int)
    requires
        img.wf(),
        0 <= x < img.spec_width(),
        0 <= y < img.spec_height(),
    ensures
        0 <= img.spec_byte_index(x, y) < img.spec_data().len(),
        img.spec_byte_index(x, y) % (img.spec_line_width() as int) == x / 4,
        img.spec_byte_index(x, y) / (img.spec_line_width() as int) == y,
{
    let lw = img.spec_line_width() as int;
    let w = img.spec_width() as int;
    assert(0 <= x / 4 < lw) by {
        vstd::arithmetic::div_mod::lemma_div_is_ordered(x, w - 1, 4);
        assert((w - 1) / 4 < (w + 3) / 4 || (w - 1) / 4 == (w + 3) / 4);
        assert((w + 3) / 4 == (w - 1) / 4 + 1) by {
            vstd::arithmetic::div_mod::lemma_div_plus_one(w - 1, 4);
        }
    }
    assert(x / 4 + y * lw < lw * img.spec_height()) by (nonlinear_arith)
        requires
            0 <= x / 4 < lw,
            0 <= y < img.spec_height(),
    ;
    assert((x / 4 + y * lw) % lw == x / 4 && (x / 4 + y * lw) / lw == y) by {
        vstd::arithmetic::div_mod::lemma_fundamental_div_mod_converse(x / 4 + y * lw, lw, y, x / 4);
    }
}

/// Clamps an amplitude to `[0, AMP_ONE]`.
fn clamp_amp(amp: i64) -> (r: i64)
    ensures
        r as int == spec_clamp(amp),
        0 <= r <= AMP_ONE,
{
    if amp < 0 {
        0
    } else if amp > AMP_ONE {
        AMP_ONE
    } else {
        amp
    }
}

/// The bar height in rows for `amp` on a canvas with center line `center`.
fn bar_half(center: u32, amp: i64) -> (h: u32)
    ensures
        h as int == spec_bar_half(center, amp),
        h <= center,
{
    let c = clamp_amp(amp);
    proof {
        assert(center as int * (c as int) <= center as int * 1_000_000) by (nonlinear_arith)
            requires
                0 <= c as int <= 1_000_000,
        ;
    }
    let p: u64 = (center as u64) * (c as u64);
    let h64 = (p + 500_000) / 1_000_000;
    proof {
        vstd::arithmetic::div_mod::lemma_div_is_ordered(
            p as int + 500_000,
            center as int * 1_000_000 + 500_000,
            1_000_000,
        );
        vstd::arithmetic::div_mod::lemma_fundamental_div_mod_converse(
            center as int * 1_000_000 + 500_000,
            1_000_000,
            center as int,
            500_000,
        );
        assert(h64 <= center);
    }
    h64 as u32
}

/// Convert a color code to its bit location for the given column: the code's
/// two bits shifted to the pixel field `x` occupies inside its byte.
fn draw_bits(color: u8, x: u32) -> (r: u8)
    ensures
        r == spec_mask(color, x as int),
{
    let sh = (2 * (x % 4)) as u8;
    (color & 3) << sh
}

/// ORing a code into one pixel field of a byte changes that field to the OR
/// of its old value and the code, and leaves the other three fields alone.
proof fn lemma_or_mask_pixel(b: u8, code: u8, j: u32, k: u32)
    requires
        j < 4,
        k < 4,
        code <= 3,
    ensures
        j == k ==> ((b | ((code & 3) << ((2 * j) as u8))) >> ((2 * k) as u8)) & 3 == (((b >> ((2
            * k) as u8)) & 3) | code),
        j != k ==> ((b | ((code & 3) << ((2 * j) as u8))) >> ((2 * k) as u8)) & 3 == ((b >> ((2
            * k) as u8)) & 3),
{
    assert((j == k ==> ((b | ((code & 3) << ((2 * j) as u8))) >> ((2 * k) as u8)) & 3 == (((b >> ((
    2 * k) as u8)) & 3) | code)) && (j != k ==> ((b | ((code & 3) << ((2 * j) as u8))) >> ((2
        * k) as u8)) & 3 == ((b >> ((2 * k) as u8)) & 3))) by (bit_vector)
        requires
            j < 4,
            k < 4,
            code <= 3,
    ;
}

/// After a column OR, the pixel at `(x, y)` for `y` in the drawn row range
/// carries the old code ORed with the drawn code, and every other pixel is
/// unchanged.
proof fn lemma_or_column_pixels(pre: WaveImage, post: WaveImage, x: int, y0: int, y1: int, code: u8)
    requires
        pre.wf(),
        post.wf(),
        spec_same_dims(pre, post),
        0 <= x < pre.spec_width(),
        0 <= y0 <= y1 <= pre.spec_height(),
        code <= 3,
        post.spec_data() == spec_or_column(
            pre.spec_data(),
            pre.spec_line_width() as int,
            x / 4,
            y0,
            y1,
            spec_mask(code, x),
        ),
    ensures
        forall|xi: int, yi: int|
            0 <= xi < pre.spec_width() && 0 <= yi < pre.spec_height() ==> post.spec_pixel(xi, yi)
                == (if xi == x && y0 <= yi < y1 {
                pre.spec_pixel(xi, yi) | code
            } else {
                pre.spec_pixel(xi, yi)
            }),
{
    let lw = pre.spec_line_width() as int;
    assert forall|xi: int, yi: int|
        0 <= xi < pre.spec_width() && 0 <= yi < pre.spec_height() implies post.spec_pixel(xi, yi)
        == (if xi == x && y0 <= yi < y1 {
        pre.spec_pixel(xi, yi) | code
    } else {
        pre.spec_pixel(xi, yi)
    }) by {
        lemma_byte_index_in_range(&pre, xi, yi);
        let bi = pre.spec_byte_index(xi, yi);
        let b = pre.spec_data()[bi];
        let j = (x % 4) as u32;
        let k = (xi % 4) as u32;
        assert(spec_mask(code, x) == (code & 3) << ((2 * j) as u8));
        assert(spec_pixel_in_byte(b, xi) == (b >> ((2 * k) as u8)) & 3);
        lemma_or_mask_pixel(b, code, j, k);
        if xi / 4 == x / 4 && y0 <= yi < y1 {
            assert(post.spec_data()[bi] == b | spec_mask(code, x));
            if xi != x {
                assert(j != k) by {
                    vstd::arithmetic::div_mod::lemma_fundamental_div_mod(xi, 4);
                    vstd::arithmetic::div_mod::lemma_fundamental_div_mod(x, 4);
                }
            }
        } else {
            assert(post.spec_data()[bi] == b);
        }
    }
}

impl WaveImage {
    /// ORs `mask` into the byte of column `x` on every row in `[y0, y1)`.
    fn or_column_range(&mut self, x: u32, y0: u32, y1: u32, mask: u8)
        requires
            old(self).wf(),
            x < old(self).spec_width(),
            y0 <= y1 <= old(self).spec_height(),
        ensures
            final(self).wf(),
            spec_same_dims(*old(self), *final(self)),
            final(self).spec_data() == spec_or_column(
                old(self).spec_data(),
                old(self).spec_line_width() as int,
                (x / 4) as int,
                y0 as int,
                y1 as int,
                mask,
            ),
    {
        let ghost orig = old(self).spec_data();
        let offset = x / 4;
        let lw = self.line_width;
        let mut y = y0;
        while y < y1
            invariant
                self.wf(),
                spec_same_dims(*old(self), *self),
                x < self.spec_width(),
                y0 <= y <= y1 <= self.spec_height(),
                lw == self.spec_line_width(),
                offset == x / 4,
                orig.len() == self.spec_data().len(),
                self.spec_data() =~= spec_or_column(
                    orig,
                    lw as int,
                    offset as int,
                    y0 as int,
                    y as int,
                    mask,
                ),
            decreases y1 - y,
        {
            proof {
                lemma_byte_index_in_range(self, x as int, y as int);
            }
            let idx = (offset + y * lw) as usize;
            let b = self.pixels[idx];
            self.pixels[idx] = b | mask;
            proof {
                let di = idx as int;
                assert forall|i: int| 0 <= i < orig.len() implies self.spec_data()[i]
                    == spec_or_column(
                    orig,
                    lw as int,
                    offset as int,
                    y0 as int,
                    y as int + 1,
                    mask,
                )[i] by {
                    if i != di && i % (lw as int) == offset && i / (lw as int) == y {
                        vstd::arithmetic::div_mod::lemma_fundamental_div_mod(i, lw as int);
                    }
                }
                assert(self.spec_data() =~= spec_or_column(
                    orig,
                    lw as int,
                    offset as int,
                    y0 as int,
                    y as int + 1,
                    mask,
                ));
            }
            y = y + 1;
        }
        proof {
            assert(self.spec_data() =~= spec_or_column(
                orig,
                lw as int,
                offset as int,
                y0 as int,
                y1 as int,
                mask,
            ));
        }
    }

    /// Draws one column of a stereo waveform: the left bar rises from the
    /// center line, the right bar descends from it. Compositing is additive,
    /// so overlapping draws never erase bits; a column at or beyond the
    /// canvas width, or a pair of non-positive amplitudes, changes nothing.
    pub fn draw_point(&mut self, x: u32, left: i64, right: i64)
        requires
            old(self).wf(),
        ensures
            final(self).wf(),
            spec_stereo_drawn(*old(self), *final(self), x, left, right),
            left <= 0 && right <= 0 ==> final(self).spec_data() == old(self).spec_data(),
            forall|xi: int, yi: int|
                0 <= xi < old(self).spec_width() && 0 <= yi < old(self).spec_height()
                    ==> final(self).spec_pixel(xi, yi) == (if xi == x && old(self).spec_center() - spec_bar_half(
                    old(self).spec_center(),
                    left,
                ) <= yi < old(self).spec_center() {
                    old(self).spec_pixel(xi, yi) | 1
                } else if xi == x && old(self).spec_center() <= yi < old(self).spec_center()
                    + spec_bar_half(old(self).spec_center(), right) {
                    old(self).spec_pixel(xi, yi) | 2
                } else {
                    old(self).spec_pixel(xi, yi)
                }),
    {
        if x >= self.width {
            return ;
        }
        let ghost pre = *self;
        proof {
            vstd::arithmetic::div_mod::lemma_fundamental_div_mod(self.height as int, 2);
        }
        let left_height = bar_half(self.center, left);
        let draw_left = draw_bits(1, x);
        self.or_column_range(x, self.center - left_height, self.center, draw_left);
        let ghost mid = *self;
        let right_height = bar_half(self.center, right);
        let draw_right = draw_bits(2, x);
        self.or_column_range(x, self.center, self.center + right_height, draw_right);
        proof {
            lemma_or_column_pixels(
                pre,
                mid,
                x as int,
                pre.spec_center() - left_height,
                pre.spec_center() as int,
                1,
            );
            lemma_or_column_pixels(
                mid,
                *self,
                x as int,
                pre.spec_center() as int,
                pre.spec_center() + right_height,
                2,
            );
            if left <= 0 && right <= 0 {
                assert(self.spec_data() =~= pre.spec_data());
            }
        }
    }

    /// Draws one column of a mono waveform: a single left-channel bar placed
    /// symmetrically around the center line. Compositing is additive; a
    /// column at or beyond the canvas width, or a non-positive amplitude,
    /// changes nothing.
    pub fn draw_point_mono(&mut self, x: u32, mono: i64)
        requires
            old(self).wf(),
        ensures
            final(self).wf(),
            spec_mono_drawn(*old(self), *final(self), x, mono),
            mono <= 0 ==> final(self).spec_data() == old(self).spec_data(),
            forall|xi: int, yi: int|
                0 <= xi < old(self).spec_width() && 0 <= yi < old(self).spec_height()
                    ==> final(self).spec_pixel(xi, yi) == (if xi == x && old(self).spec_center() - spec_bar_half(
                    old(self).spec_center(),
                    mono,
                ) <= yi < old(self).spec_center() + spec_bar_half(old(self).spec_center(), mono) {
                    old(self).spec_pixel(xi, yi) | 1
                } else {
                    old(self).spec_pixel(xi, yi)
                }),
    {
        if x >= self.width {
            return ;
        }
        let ghost pre = *self;
        proof {
            vstd::arithmetic::div_mod::lemma_fundamental_div_mod(self.height as int, 2);
        }
        let wave_height = bar_half(self.center, mono);
        let draw = draw_bits(1, x);
        self.or_column_range(x, self.center - wave_height, self.center + wave_height, draw);
        proof {
            lemma_or_column_pixels(
                pre,
                *self,
                x as int,
                pre.spec_center() - wave_height,
                pre.spec_center() + wave_height,
                1,
            );
            if mono <= 0 {
                assert(self.spec_data() =~= pre.spec_data());
            }
        }
    }

    /// Encodes the canvas as an indexed-color PNG stream: a four-entry
    /// palette of background, left, right, and background again — so a
    /// pixel claimed by both channels renders as background — with a
    /// parallel four-entry transparency table. Encoding a well-formed
    /// canvas into memory always succeeds.
    pub fn encode_png(&self, background: &Rgba, left: &Rgba, right: &Rgba) -> (r: Result<
        Vec<u8>,
        WaverError,
    >)
        requires
            self.wf(),
        ensures
            r matches Ok(bytes) && bytes@ == png_bytes_of(
                self.spec_width() as nat,
                self.spec_height() as nat,
                spec_palette(*background, *left, *right),
                spec_trns(*background, *left, *right),
                self.spec_data(),
            ),
    {
        let mut palette: Vec<u8> = Vec::new();
        palette.push(background.red);
        palette.push(background.green);
        palette.push(background.blue);
        palette.push(left.red);
        palette.push(left.green);
        palette.push(left.blue);
        palette.push(right.red);
        palette.push(right.green);
        palette.push(right.blue);
        palette.push(background.red);
        palette.push(background.green);
        palette.push(background.blue);
        let mut trns: Vec<u8> = Vec::new();
        trns.push(background.alpha);
        trns.push(left.alpha);
        trns.push(right.alpha);
        trns.push(background.alpha);
        proof {
            assert(palette@ =~= spec_palette(*background, *left, *right));
            assert(trns@ =~= spec_trns(*background, *left, *right));
        }
        match encode_indexed_png(self.width, self.height, &palette, &trns, &self.pixels) {
            Ok(bytes) => Ok(bytes),
            Err(msg) => Err(WaverError::PngError(msg)),
        }
    }
}

/// The palette of the output image: background, left, right, and background
/// again at the collision code.
pub open spec fn spec_palette(bg: Rgba, left: Rgba, right: Rgba) -> Seq<u8> {
    seq![
        bg.red,
        bg.green,
        bg.blue,
        left.red,
        left.green,
        left.blue,
        right.red,
        right.green,
        right.blue,
        bg.red,
        bg.green,
        bg.blue,
    ]
}

/// The transparency table parallel to the palette.
pub open spec fn spec_trns(bg: Rgba, left: Rgba, right: Rgba) -> Seq<u8> {
    seq![bg.alpha, left.alpha, right.alpha, bg.alpha]
}

/// Relies on `png::Encoder`: encodes an indexed-color image with 2-bit
/// sample depth, the given palette and transparency table, up-filtering,
/// and the encoder's strongest compression. The stream it writes is a
/// function of the arguments alone. With nonzero dimensions, a four-entry
/// palette and transparency table, and one packed 2-bit row per image row
/// (`ceil(width / 4)` bytes each), every check in the encoder passes and
/// every write lands in the in-memory buffer, so the call succeeds; any
/// failure is returned as its message.
#[verifier::external_body]
fn encode_indexed_png(
    width: u32,
    height: u32,
    palette: &Vec<u8>,
    trns: &Vec<u8>,
    data: &Vec<u8>,
) -> (r: Result<Vec<u8>, String>)
    ensures
        r matches Ok(bytes) ==> bytes@ == png_bytes_of(
            width as nat,
            height as nat,
            palette@,
            trns@,
            data@,
        ),
        width >= 1 && height >= 1 && palette@.len() == 12 && trns@.len() == 4 && data@.len() == ((
        width + 3) / 4) * height ==> r is Ok,
{
    let mut out: Vec<u8> = Vec::new();
    let mut encoder = png::Encoder::new(&mut out, width, height);
    encoder.set_color(png::ColorType::Indexed);
    encoder.set_depth(png::BitDepth::Two);
    encoder.set_palette(palette.clone());
    encoder.set_trns(trns.clone());
    encoder.set_compression(png::Compression::High);
    // selecting a compression level also resets the row filter, so the
    // up filter must be chosen afterwards
    encoder.set_filter(png::Filter::Up);
    let mut writer = encoder.write_header().map_err(|e| e.to_string())?;
    writer.write_image_data(data).map_err(|e| e.to_string())?;
    writer.finish().map_err(|e| e.to_string())?;
    Ok(out)
}

} // verus!
