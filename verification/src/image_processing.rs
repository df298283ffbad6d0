//! The bitmap encoder: packs an RGB frame into the one-bit-per-pixel byte
//! layout of a small monochrome display. Each pixel becomes one bit, set
//! when the pixel's average luminance exceeds a threshold; bits are packed
//! row-major, most significant bit first, eight pixels per byte, and the
//! trailing byte of a row is zero-padded when the width is not a multiple
//! of eight.

use vstd::prelude::*;

verus! {

/// Error for a frame whose buffer does not match its stated dimensions.
#[derive(Debug, Clone, Copy, PartialEq, Eq, Structural)]
pub enum EncodingError {
    /// The pixel buffer holds other than three bytes per pixel.
    BadDimensions,
}

/// An RGB frame: `data` holds three bytes per pixel, row-major.
#[derive(Debug, Clone, PartialEq, Eq)]
pub struct Frame {
    /// Width in pixels.
    pub width: u32,
    /// Height in pixels.
    pub height: u32,
    /// The samples: red, green, blue for each pixel in turn.
    pub data: Vec<u8>,
}

impl Frame {
    /// The buffer holds exactly three samples per pixel.
    pub open spec fn wf(self) -> bool {
        self.data@.len() == 3 * self.width * self.height
    }

    /// Builds a frame after checking that the buffer matches the stated
    /// dimensions; fails exactly when it does not.
    pub fn new(width: u32, height: u32, data: Vec<u8>) -> (r: Result<Frame, EncodingError>)
        ensures
            r is Ok <==> data@.len() == 3 * width * height,
            r matches Ok(f) ==> f == (Frame { width, height, data }) && f.wf(),
            r is Err ==> r == Result::<Frame, EncodingError>::Err(EncodingError::BadDimensions),
    {
        let w64: u64 = width as u64;
        let h64: u64 = height as u64;
        proof {
            assert(w64 * h64 <= 0xffff_ffff_ffff_ffff) by (nonlinear_arith)
                requires
                    w64 <= 0xffff_ffffu64,
                    h64 <= 0xffff_ffffu64,
            ;
        }
        let pixel_count: u64 = w64 * h64;
        proof {
            assert(3 * ((width as int) * (height as int)) == 3 * (width as int) * (height as int))
                by (nonlinear_arith);
        }
        if data.len() as u128 == 3u128 * (pixel_count as u128) {
            Ok(Frame { width, height, data })
        } else {
            Err(EncodingError::BadDimensions)
        }
    }
}

/// Two to the power `k` (one for a non-positive `k`).
pub open spec fn two_pow(k: int) -> int
    decreases k,
{
    if k <= 0 {
        1
    } else {
        2 * two_pow(k - 1)
    }
}

/// How many bytes one row of `w` pixels packs into: eight pixels per byte,
/// a trailing partial byte included.
pub open spec fn row_bytes(w: int) -> int {
    (w + 7) / 8
}

/// The average luminance of one pixel.
pub open spec fn luma(r: u8, g: u8, b: u8) -> int {
    (r + g + b) / 3
}

/// Whether the pixel at column `x` of row `y` is brighter than the
/// threshold, in a `w` pixels wide image.
pub open spec fn pixel_lit(pixels: Seq<u8>, w: int, threshold: u8, x: int, y: int) -> bool {
    luma(
        pixels[3 * (y * w + x)],
        pixels[3 * (y * w + x) + 1],
        pixels[3 * (y * w + x) + 2],
    ) > threshold
}

/// The bit for column `x` of row `y`: one for a bright pixel, zero for a
/// dark one or for a padding position beyond the row's width.
pub open spec fn bit_of(pixels: Seq<u8>, w: int, threshold: u8, x: int, y: int) -> int {
    if x < w && pixel_lit(pixels, w, threshold, x, y) {
        1
    } else {
        0
    }
}

/// The value of the first `k` bits, most significant first, of byte `j` of
/// row `y`.
pub open spec fn byte_prefix(
    pixels: Seq<u8>,
    w: int,
    threshold: u8,
    y: int,
    j: int,
    k: int,
) -> int
    decreases k,
{
    if k <= 0 {
        0
    } else {
        2 * byte_prefix(pixels, w, threshold, y, j, k - 1) + bit_of(
            pixels,
            w,
            threshold,
            8 * j + (k - 1),
            y,
        )
    }
}

/// Byte `j` of row `y` of the packed bitmap.
pub open spec fn oled_byte(pixels: Seq<u8>, w: int, threshold: u8, y: int, j: int) -> int {
    byte_prefix(pixels, w, threshold, y, j, 8)
}

/// The values of `two_pow` up to eight.
proof fn lemma_two_pow_values()
    ensures
        two_pow(0) == 1,
        two_pow(1) == 2,
        two_pow(2) == 4,
        two_pow(3) == 8,
        two_pow(4) == 16,
        two_pow(5) == 32,
        two_pow(6) == 64,
        two_pow(7) == 128,
        two_pow(8) == 256,
{
    assert(two_pow(0) == 1);
    assert(two_pow(1) == 2);
    assert(two_pow(2) == 4);
    assert(two_pow(3) == 8);
    assert(two_pow(4) == 16);
    assert(two_pow(5) == 32);
    assert(two_pow(6) == 64);
    assert(two_pow(7) == 128);
    assert(two_pow(8) == 256);
}

/// `two_pow` is positive and grows with its argument.
proof fn lemma_two_pow_mono(a: int, b: int)
    requires
        a <= b,
    ensures
        1 <= two_pow(a) <= two_pow(b),
    decreases b - a,
{
    if a < b {
        lemma_two_pow_mono(a, b - 1);
    } else {
        lemma_two_pow_pos(a);
    }
}

/// `two_pow` is at least one.
proof fn lemma_two_pow_pos(k: int)
    ensures
        two_pow(k) >= 1,
    decreases k,
{
    if k > 0 {
        lemma_two_pow_pos(k - 1);
    }
}

/// Packs a `width` by `height` RGB frame into the display's byte layout:
/// one bit per pixel, set when the pixel's average luminance exceeds
/// `threshold`, packed row-major and most significant bit first, with each
/// row's trailing byte zero-padded. The output holds `height` times
/// `row_bytes(width)` bytes.
pub fn encode_bitmap(width: u32, height: u32, pixels: &Vec<u8>, threshold: u8) -> (r: Vec<u8>)
    requires
        pixels@.len() == 3 * width * height,
    ensures
        r@.len() == height * row_bytes(width as int),
        forall|y: int, j: int|
            0 <= y < height && 0 <= j < row_bytes(width as int) ==> r@[y * row_bytes(width as int)
                + j] == #[trigger] oled_byte(pixels@, width as int, threshold, y, j),
{
    proof {
        assert(3 * ((width as int) * (height as int)) == 3 * (width as int) * (height as int))
            by (nonlinear_arith);
    }
    let rb64: u64 = (width as u64 + 7) / 8;
    let rb: usize = rb64 as usize;
    let total: usize = pixels.len();
    let mut out: Vec<u8> = Vec::new();
    let mut y: usize = 0;
    while y < height as usize
        invariant
            pixels@.len() == 3 * ((width as int) * (height as int)),
            pixels@.len() == total,
            rb == row_bytes(width as int),
            rb <= 0x2000_0000,
            y <= height,
            out@.len() == y * rb,
            forall|y2: int, j2: int|
                0 <= y2 < y && 0 <= j2 < rb ==> out@[y2 * (rb as int) + j2] == #[trigger] oled_byte(
                    pixels@,
                    width as int,
                    threshold,
                    y2,
                    j2,
                ),
        decreases height - y,
    {
        proof {
            assert((width as int) * (height as int) >= (width as int) * 1) by (nonlinear_arith)
                requires
                    (height as int) >= 1,
                    (width as int) >= 0,
            ;
        }
        let mut j: usize = 0;
        while j < rb
            invariant
                pixels@.len() == 3 * ((width as int) * (height as int)),
                pixels@.len() == total,
                rb == row_bytes(width as int),
                rb <= 0x2000_0000,
                y < height,
                (width as int) <= (width as int) * (height as int),
                j <= rb,
                out@.len() == y * rb + j,
                forall|y2: int, j2: int|
                    0 <= y2 < y && 0 <= j2 < rb ==> out@[y2 * (rb as int) + j2]
                        == #[trigger] oled_byte(pixels@, width as int, threshold, y2, j2),
                forall|j2: int|
                    0 <= j2 < j ==> out@[(y as int) * (rb as int) + j2] == #[trigger] oled_byte(
                        pixels@,
                        width as int,
                        threshold,
                        y as int,
                        j2,
                    ),
            decreases rb - j,
        {
            let mut byte_val: u8 = 0;
            let mut k: usize = 0;
            while k < 8
                invariant
                    pixels@.len() == 3 * ((width as int) * (height as int)),
                    pixels@.len() == total,
                    rb == row_bytes(width as int),
                    y < height,
                    (width as int) <= (width as int) * (height as int),
                    j < rb,
                    k <= 8,
                    byte_val as int == byte_prefix(
                        pixels@,
                        width as int,
                        threshold,
                        y as int,
                        j as int,
                        k as int,
                    ),
                    byte_val < two_pow(k as int),
                decreases 8 - k,
            {
                // j < rb == (width + 7) / 8 puts every real pixel of this
                // byte at a column below the width.
                assert(8 * (j as int) <= (width as int) - 1);
                let x: usize = 8 * j + k;
                let lit: bool = if x < width as usize {
                    proof {
                        assert((y as int) * (width as int) + (x as int) < (width as int) * (
                        height as int)) by (nonlinear_arith)
                            requires
                                0 <= (y as int) < (height as int),
                                0 <= (x as int) < (width as int),
                        ;
                        assert(0 <= (y as int) * (width as int)) by (nonlinear_arith)
                            requires
                                0 <= (y as int),
                                0 <= (width as int),
                        ;
                    }
                    let idx: usize = 3 * (y * (width as usize) + x);
                    let sum: u32 = pixels[idx] as u32 + pixels[idx + 1] as u32 + pixels[idx
                        + 2] as u32;
                    sum / 3 > threshold as u32
                } else {
                    false
                };
                proof {
                    lemma_two_pow_values();
                    lemma_two_pow_mono(k as int, 7);
                    assert(bit_of(pixels@, width as int, threshold, (8 * (j as int) + (k as int)),
                    y as int) == if lit { 1int } else { 0int });
                }
                byte_val = 2 * byte_val + (if lit { 1 } else { 0 });
                k = k + 1;
            }
            out.push(byte_val);
            j = j + 1;
            proof {
                assert forall|y2: int, j2: int| 0 <= y2 < y && 0 <= j2 < rb implies out@[y2 * (
                rb as int) + j2] == #[trigger] oled_byte(
                    pixels@,
                    width as int,
                    threshold,
                    y2,
                    j2,
                ) by {
                    vstd::arithmetic::mul::lemma_mul_inequality(y2 + 1, y as int, rb as int);
                    assert((y2 + 1) * (rb as int) == y2 * (rb as int) + (rb as int))
                        by (nonlinear_arith);
                }
            }
        }
        y = y + 1;
        proof {
            assert((y - 1) * (rb as int) + rb == (y as int) * (rb as int)) by (nonlinear_arith);
            assert forall|y2: int, j2: int| 0 <= y2 < y && 0 <= j2 < rb implies out@[y2 * (
            rb as int) + j2] == #[trigger] oled_byte(pixels@, width as int, threshold, y2, j2) by {
                vstd::arithmetic::mul::lemma_mul_inequality(y2 + 1, y as int, rb as int);
                assert((y2 + 1) * (rb as int) == y2 * (rb as int) + (rb as int))
                    by (nonlinear_arith);
            }
        }
    }
    out
}

/// The pixels of `pixels` (a `width` by `height` RGB frame) resampled to
/// the display's 128 by 64 resolution, three bytes per pixel. The result
/// depends on the frame alone.
pub uninterp spec fn resized_rgb(pixels: Seq<u8>, width: int, height: int) -> Seq<u8>;

/// Relies on `image::imageops::resize` with `FilterType::Nearest`: a
/// deterministic resample that returns an image of exactly the requested
/// dimensions, and on `image::ImageBuffer::from_raw`, which accepts any
/// buffer of at least three bytes per pixel.
#[verifier::external_body]
fn resize_to_oled(frame: &Frame) -> (r: Vec<u8>)
    requires
        frame.wf(),
    ensures
        r@ == resized_rgb(frame.data@, frame.width as int, frame.height as int),
        r@.len() == 3 * 128 * 64,
{
    let buf: image::ImageBuffer<image::Rgb<u8>, Vec<u8>> = image::ImageBuffer::from_raw(
        frame.width,
        frame.height,
        frame.data.clone(),
    ).unwrap();
    image::imageops::resize(&buf, 128, 64, image::imageops::FilterType::Nearest).into_raw()
}

/// Converts an RGB frame to the byte array of a small monochrome display:
/// the frame is resampled to 128 by 64 pixels, and each resampled pixel
/// becomes one bit, set when its average luminance exceeds `threshold`,
/// packed row-major with the most significant bit first.
pub fn image_buffer_to_oled_byte_array(frame: &Frame, threshold: u8) -> (r: Vec<u8>)
    requires
        frame.wf(),
    ensures
        r@.len() == 64 * 16,
        forall|y: int, j: int|
            0 <= y < 64 && 0 <= j < 16 ==> r@[y * 16 + j] == #[trigger] oled_byte(
                resized_rgb(frame.data@, frame.width as int, frame.height as int),
                128,
                threshold,
                y,
                j,
            ),
{
    let resized = resize_to_oled(frame);
    encode_bitmap(128, 64, &resized, threshold)
}

/// Every sample at or below the threshold leaves every bit clear: the
/// packed bitmap of an all-dark frame is all zero bytes.
pub proof fn lemma_all_dark(pixels: Seq<u8>, w: int, h: int, threshold: u8, y: int, j: int)
    requires
        pixels.len() == 3 * w * h,
        forall|i: int| 0 <= i < pixels.len() ==> pixels[i] <= threshold,
        0 <= y < h,
        0 <= j < row_bytes(w),
    ensures
        oled_byte(pixels, w, threshold, y, j) == 0,
{
    lemma_dark_prefix(pixels, w, h, threshold, y, j, 8);
}

/// The prefix value of any byte of an all-dark frame is zero.
proof fn lemma_dark_prefix(pixels: Seq<u8>, w: int, h: int, threshold: u8, y: int, j: int, k: int)
    requires
        pixels.len() == 3 * w * h,
        forall|i: int| 0 <= i < pixels.len() ==> pixels[i] <= threshold,
        0 <= y < h,
        0 <= j,
    ensures
        byte_prefix(pixels, w, threshold, y, j, k) == 0,
    decreases k,
{
    if k > 0 {
        lemma_dark_prefix(pixels, w, h, threshold, y, j, k - 1);
        let x: int = 8 * j + (k - 1);
        if x < w {
            lemma_sample_index(w, h, x, y);
            assert(luma(
                pixels[3 * (y * w + x)],
                pixels[3 * (y * w + x) + 1],
                pixels[3 * (y * w + x) + 2],
            ) <= threshold);
        }
    }
}

/// The samples of the pixel at column `x` of row `y` lie inside the buffer.
proof fn lemma_sample_index(w: int, h: int, x: int, y: int)
    requires
        0 <= x < w,
        0 <= y < h,
    ensures
        0 <= 3 * (y * w + x),
        3 * (y * w + x) + 2 < 3 * w * h,
    decreases 0int,
{
    assert(0 <= y * w + x && y * w + x < w * h) by (nonlinear_arith)
        requires
            0 <= x < w,
            0 <= y < h,
    ;
    assert(3 * (w * h) == 3 * w * h) by (nonlinear_arith);
}

/// The byte a row of bright pixels packs into: all eight bits set for a
/// byte wholly inside the row, and for the row's trailing partial byte the
/// leading `w - 8 * j` bits set and the padding bits clear.
pub open spec fn row_mask_byte(w: int, j: int) -> int {
    if w - 8 * j >= 8 {
        255
    } else {
        256 - two_pow(8 - (w - 8 * j))
    }
}

/// Every sample above the threshold sets every bit of the row: the packed
/// bitmap of an all-bright frame has all valid bits set and only the
/// padding bits at a row's end clear.
pub proof fn lemma_all_bright(pixels: Seq<u8>, w: int, h: int, threshold: u8, y: int, j: int)
    requires
        pixels.len() == 3 * w * h,
        forall|i: int| 0 <= i < pixels.len() ==> pixels[i] > threshold,
        0 <= y < h,
        0 <= j < row_bytes(w),
    ensures
        oled_byte(pixels, w, threshold, y, j) == row_mask_byte(w, j),
{
    assert(8 * j <= w - 1);
    lemma_bright_prefix(pixels, w, h, threshold, y, j, 8);
    if w - 8 * j >= 8 {
        lemma_two_pow_values();
    } else {
        let m: int = w - 8 * j;
        assert(byte_prefix(pixels, w, threshold, y, j, 8) == (two_pow(m) - 1) * two_pow(8 - m));
        lemma_two_pow_split(m, 8 - m);
        assert((two_pow(m) - 1) * two_pow(8 - m) == two_pow(m) * two_pow(8 - m) - two_pow(8 - m))
            by (nonlinear_arith);
        lemma_two_pow_values();
    }
}

/// `two_pow` of a sum is the product of the parts' `two_pow`.
proof fn lemma_two_pow_split(a: int, b: int)
    requires
        0 <= a,
        0 <= b,
    ensures
        two_pow(a + b) == two_pow(a) * two_pow(b),
    decreases a,
{
    if a > 0 {
        lemma_two_pow_split(a - 1, b);
        assert(2 * (two_pow(a - 1) * two_pow(b)) == (2 * two_pow(a - 1)) * two_pow(b))
            by (nonlinear_arith);
    }
}

/// The prefix value of a byte of an all-bright frame: all `k` bits set
/// while the byte stays inside the row; once past the row's end, the set
/// bits shifted left by the number of padding positions seen.
proof fn lemma_bright_prefix(
    pixels: Seq<u8>,
    w: int,
    h: int,
    threshold: u8,
    y: int,
    j: int,
    k: int,
)
    requires
        pixels.len() == 3 * w * h,
        forall|i: int| 0 <= i < pixels.len() ==> pixels[i] > threshold,
        0 <= y < h,
        0 <= j,
        8 * j < w,
        0 <= k <= 8,
    ensures
        byte_prefix(pixels, w, threshold, y, j, k) == if 8 * j + k <= w {
            two_pow(k) - 1
        } else {
            (two_pow(w - 8 * j) - 1) * two_pow(k - (w - 8 * j))
        },
    decreases k,
{
    if k > 0 {
        lemma_bright_prefix(pixels, w, h, threshold, y, j, k - 1);
        let x: int = 8 * j + (k - 1);
        if x < w {
            lemma_sample_index(w, h, x, y);
            assert(pixel_lit(pixels, w, threshold, x, y));
        }
        let m: int = w - 8 * j;
        if 8 * j + k <= w {
            // still inside the row: the new bit is set
            assert(byte_prefix(pixels, w, threshold, y, j, k) == 2 * (two_pow(k - 1) - 1) + 1);
        } else if 8 * j + (k - 1) <= w {
            // the first padding position: m == k - 1
            assert(byte_prefix(pixels, w, threshold, y, j, k) == 2 * (two_pow(m) - 1));
            assert(two_pow(0) == 1);
            assert(two_pow(1) == 2);
            assert(2 * (two_pow(m) - 1) == (two_pow(m) - 1) * 2) by (nonlinear_arith);
        } else {
            // further padding: shift the set bits once more
            assert(byte_prefix(pixels, w, threshold, y, j, k) == 2 * ((two_pow(m) - 1) * two_pow(
                k - 1 - m,
            )));
            assert(2 * ((two_pow(m) - 1) * two_pow(k - 1 - m)) == (two_pow(m) - 1) * (2 * two_pow(
                k - 1 - m,
            ))) by (nonlinear_arith);
        }
    }
}

} // verus!
