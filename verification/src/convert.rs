//! Conversion of packed BGRA frames to planar YUV.
//!
//! A frame of `width * height` pixels arrives as `width * height * 4` bytes,
//! pixels left-to-right, top-to-bottom, each pixel stored as blue, green,
//! red, alpha; alpha is never read. The fixed-point coefficients implement a
//! BT.601-style full-range-to-studio-range matrix. Signed intermediate
//! quotients truncate toward zero, the native rounding of the formulas'
//! integer division.

use vstd::prelude::*;
use vstd::arithmetic::div_mod::lemma_fundamental_div_mod_converse;
use vstd::arithmetic::mul::lemma_mul_inequality;

verus! {

/// Division by 256 that truncates toward zero, the rounding policy of the
/// color matrix for its signed intermediates.
pub open spec fn div256_trunc(t: int) -> int {
    if t >= 0 {
        t / 256
    } else {
        -((-t) / 256)
    }
}

/// Clamp an integer to the unsigned byte range [0, 255].
pub open spec fn spec_clamp(x: int) -> int {
    if x < 0 {
        0
    } else if x > 255 {
        255
    } else {
        x
    }
}

/// Studio-range luma of one pixel.
pub open spec fn luma_of(r: int, g: int, b: int) -> int {
    spec_clamp((66 * r + 129 * g + 25 * b + 128) / 256 + 16)
}

/// Blue-difference chroma of one pixel, before clamping.
pub open spec fn chroma_u_raw_of(r: int, g: int, b: int) -> int {
    div256_trunc(-38 * r - 74 * g + 112 * b + 128) + 128
}

/// Red-difference chroma of one pixel, before clamping.
pub open spec fn chroma_v_raw_of(r: int, g: int, b: int) -> int {
    div256_trunc(112 * r - 94 * g - 18 * b + 128) + 128
}

/// Blue-difference chroma of one pixel.
pub open spec fn chroma_u_of(r: int, g: int, b: int) -> int {
    spec_clamp(chroma_u_raw_of(r, g, b))
}

/// Red-difference chroma of one pixel.
pub open spec fn chroma_v_of(r: int, g: int, b: int) -> int {
    spec_clamp(chroma_v_raw_of(r, g, b))
}

/// Red channel of the pixel at column `x`, row `y`.
pub open spec fn red_at(src: Seq<u8>, width: int, x: int, y: int) -> int {
    src[(y * width + x) * 4 + 2] as int
}

/// Green channel of the pixel at column `x`, row `y`.
pub open spec fn green_at(src: Seq<u8>, width: int, x: int, y: int) -> int {
    src[(y * width + x) * 4 + 1] as int
}

/// Blue channel of the pixel at column `x`, row `y`.
pub open spec fn blue_at(src: Seq<u8>, width: int, x: int, y: int) -> int {
    src[(y * width + x) * 4] as int
}

/// Luma sample produced for the pixel at `(x, y)`.
pub open spec fn luma_at(src: Seq<u8>, width: int, x: int, y: int) -> int {
    luma_of(red_at(src, width, x, y), green_at(src, width, x, y), blue_at(src, width, x, y))
}

/// Blue-difference sample of the single pixel at `(x, y)`.
pub open spec fn chroma_u_at(src: Seq<u8>, width: int, x: int, y: int) -> int {
    chroma_u_of(red_at(src, width, x, y), green_at(src, width, x, y), blue_at(src, width, x, y))
}

/// Red-difference sample of the single pixel at `(x, y)`.
pub open spec fn chroma_v_at(src: Seq<u8>, width: int, x: int, y: int) -> int {
    chroma_v_of(red_at(src, width, x, y), green_at(src, width, x, y), blue_at(src, width, x, y))
}

/// Unclamped blue-difference value of the pixel at `(x, y)`.
pub open spec fn chroma_u_raw_at(src: Seq<u8>, width: int, x: int, y: int) -> int {
    chroma_u_raw_of(red_at(src, width, x, y), green_at(src, width, x, y), blue_at(src, width, x, y))
}

/// Unclamped red-difference value of the pixel at `(x, y)`.
pub open spec fn chroma_v_raw_at(src: Seq<u8>, width: int, x: int, y: int) -> int {
    chroma_v_raw_of(red_at(src, width, x, y), green_at(src, width, x, y), blue_at(src, width, x, y))
}

/// Blue-difference sample for the 2x2 block anchored at the even `(x, y)`:
/// the per-pixel values of the four block members, averaged with truncating
/// division by four, then clamped.
pub open spec fn chroma_u_avg_at(src: Seq<u8>, width: int, x: int, y: int) -> int {
    spec_clamp(
        (chroma_u_raw_at(src, width, x, y) + chroma_u_raw_at(src, width, x + 1, y)
            + chroma_u_raw_at(src, width, x, y + 1) + chroma_u_raw_at(src, width, x + 1, y + 1))
            / 4,
    )
}

/// Red-difference sample for the 2x2 block anchored at the even `(x, y)`.
pub open spec fn chroma_v_avg_at(src: Seq<u8>, width: int, x: int, y: int) -> int {
    spec_clamp(
        (chroma_v_raw_at(src, width, x, y) + chroma_v_raw_at(src, width, x + 1, y)
            + chroma_v_raw_at(src, width, x, y + 1) + chroma_v_raw_at(src, width, x + 1, y + 1))
            / 4,
    )
}

/// The luma plane: one sample per pixel, in row-major pixel order.
pub open spec fn luma_plane(src: Seq<u8>, width: int, height: int) -> Seq<u8> {
    Seq::new((width * height) as nat, |k: int| luma_at(src, width, k % width, k / width) as u8)
}

/// A full-resolution blue-difference plane, as 4:4:4 output carries it.
pub open spec fn chroma_u_plane_full(src: Seq<u8>, width: int, height: int) -> Seq<u8> {
    Seq::new(
        (width * height) as nat,
        |k: int| chroma_u_at(src, width, k % width, k / width) as u8,
    )
}

/// A full-resolution red-difference plane, as 4:4:4 output carries it.
pub open spec fn chroma_v_plane_full(src: Seq<u8>, width: int, height: int) -> Seq<u8> {
    Seq::new(
        (width * height) as nat,
        |k: int| chroma_v_at(src, width, k % width, k / width) as u8,
    )
}

/// The quarter-resolution blue-difference plane of the nearest-sample
/// 4:2:0 layout: one sample per 2x2 block, taken from the block's
/// top-left (anchor) pixel, blocks in row-major order.
pub open spec fn chroma_u_plane_nearest(src: Seq<u8>, width: int, height: int) -> Seq<u8> {
    Seq::new(
        ((width / 2) * (height / 2)) as nat,
        |k: int| chroma_u_at(src, width, 2 * (k % (width / 2)), 2 * (k / (width / 2))) as u8,
    )
}

/// The quarter-resolution red-difference plane of the nearest-sample
/// 4:2:0 layout.
pub open spec fn chroma_v_plane_nearest(src: Seq<u8>, width: int, height: int) -> Seq<u8> {
    Seq::new(
        ((width / 2) * (height / 2)) as nat,
        |k: int| chroma_v_at(src, width, 2 * (k % (width / 2)), 2 * (k / (width / 2))) as u8,
    )
}

/// The quarter-resolution blue-difference plane of the averaged 4:2:0
/// layout: one sample per 2x2 block, averaged over the block's four
/// pixels.
pub open spec fn chroma_u_plane_averaged(src: Seq<u8>, width: int, height: int) -> Seq<u8> {
    Seq::new(
        ((width / 2) * (height / 2)) as nat,
        |k: int| chroma_u_avg_at(src, width, 2 * (k % (width / 2)), 2 * (k / (width / 2))) as u8,
    )
}

/// The quarter-resolution red-difference plane of the averaged 4:2:0
/// layout.
pub open spec fn chroma_v_plane_averaged(src: Seq<u8>, width: int, height: int) -> Seq<u8> {
    Seq::new(
        ((width / 2) * (height / 2)) as nat,
        |k: int| chroma_v_avg_at(src, width, 2 * (k % (width / 2)), 2 * (k / (width / 2))) as u8,
    )
}

/// The whole nearest-sample 4:2:0 output: Y plane, then U, then V.
pub open spec fn yuv420_nearest_of(src: Seq<u8>, width: int, height: int) -> Seq<u8> {
    luma_plane(src, width, height) + chroma_u_plane_nearest(src, width, height)
        + chroma_v_plane_nearest(src, width, height)
}

/// The whole averaged 4:2:0 output: Y plane, then U, then V.
pub open spec fn yuv420_averaged_of(src: Seq<u8>, width: int, height: int) -> Seq<u8> {
    luma_plane(src, width, height) + chroma_u_plane_averaged(src, width, height)
        + chroma_v_plane_averaged(src, width, height)
}

/// The whole 4:4:4 output: three full-resolution planes.
pub open spec fn yuv444_of(src: Seq<u8>, width: int, height: int) -> Seq<u8> {
    luma_plane(src, width, height) + chroma_u_plane_full(src, width, height)
        + chroma_v_plane_full(src, width, height)
}

/// Clamp a signed value to the unsigned byte range.
pub fn clamp(x: i32) -> (r: u8)
    ensures
        r as int == spec_clamp(x as int),
{
    if x < 0 {
        0
    } else if x > 255 {
        255
    } else {
        x as u8
    }
}

/// Luma byte of one pixel.
pub fn luma_byte(r: u8, g: u8, b: u8) -> (res: u8)
    ensures
        res as int == luma_of(r as int, g as int, b as int),
{
    let t: u32 = (66 * (r as u32) + 129 * (g as u32) + 25 * (b as u32) + 128) / 256 + 16;
    t as u8
}

/// Blue-difference chroma byte of one pixel. The value always lies within
/// the byte range, so it equals the unclamped fixed-point value as well.
pub fn chroma_u_byte(r: u8, g: u8, b: u8) -> (res: u8)
    ensures
        res as int == chroma_u_of(r as int, g as int, b as int),
        res as int == chroma_u_raw_of(r as int, g as int, b as int),
{
    let pos: u32 = 112 * (b as u32) + 128;
    let neg: u32 = 38 * (r as u32) + 74 * (g as u32);
    if pos >= neg {
        ((pos - neg) / 256 + 128) as u8
    } else {
        (128 - (neg - pos) / 256) as u8
    }
}

/// Red-difference chroma byte of one pixel. The value always lies within
/// the byte range, so it equals the unclamped fixed-point value as well.
pub fn chroma_v_byte(r: u8, g: u8, b: u8) -> (res: u8)
    ensures
        res as int == chroma_v_of(r as int, g as int, b as int),
        res as int == chroma_v_raw_of(r as int, g as int, b as int),
{
    let pos: u32 = 112 * (r as u32) + 128;
    let neg: u32 = 94 * (g as u32) + 18 * (b as u32);
    if pos >= neg {
        ((pos - neg) / 256 + 128) as u8
    } else {
        (128 - (neg - pos) / 256) as u8
    }
}

proof fn lemma_pixel_offset(width: int, height: int, x: int, y: int)
    requires
        0 <= x < width,
        0 <= y < height,
    ensures
        0 <= y * width + x,
        (y * width + x) * 4 + 4 <= width * height * 4,
{
    assert(y * width + x + 1 <= width * height) by (nonlinear_arith)
        requires
            0 <= x < width,
            0 <= y < height,
    ;
}

/// The three channel bytes of the pixel at column `x`, row `y`, in red,
/// green, blue order.
fn pixel_at(src: &[u8], width: usize, height: usize, x: usize, y: usize) -> (pixel: (u8, u8, u8))
    requires
        src@.len() == width * height * 4,
        x < width,
        y < height,
    ensures
        pixel.0 as int == red_at(src@, width as int, x as int, y as int),
        pixel.1 as int == green_at(src@, width as int, x as int, y as int),
        pixel.2 as int == blue_at(src@, width as int, x as int, y as int),
{
    let n = src.len();
    proof {
        lemma_pixel_offset(width as int, height as int, x as int, y as int);
    }
    let idx = (y * width + x) * 4;
    (src[idx + 2], src[idx + 1], src[idx])
}

/// Which plane a full-resolution pass is filling.
#[derive(Clone, Copy, PartialEq, Eq, Structural)]
enum SampleChannel {
    Luma,
    ChromaU,
    ChromaV,
}

/// Byte `k` of the full-resolution plane for `channel`, in row-major
/// pixel order.
spec fn full_plane_byte(channel: SampleChannel, src: Seq<u8>, width: int, k: int) -> u8 {
    match channel {
        SampleChannel::Luma => luma_at(src, width, k % width, k / width) as u8,
        SampleChannel::ChromaU => chroma_u_at(src, width, k % width, k / width) as u8,
        SampleChannel::ChromaV => chroma_v_at(src, width, k % width, k / width) as u8,
    }
}

/// One pass over all pixels, emitting the chosen channel at full
/// resolution.
fn build_full_plane(src: &[u8], width: usize, height: usize, channel: SampleChannel) -> (plane:
    Vec<u8>)
    requires
        src@.len() == width * height * 4,
    ensures
        channel == SampleChannel::Luma ==> plane@ == luma_plane(
            src@,
            width as int,
            height as int,
        ),
        channel == SampleChannel::ChromaU ==> plane@ == chroma_u_plane_full(
            src@,
            width as int,
            height as int,
        ),
        channel == SampleChannel::ChromaV ==> plane@ == chroma_v_plane_full(
            src@,
            width as int,
            height as int,
        ),
{
    let mut plane: Vec<u8> = Vec::new();
    let mut y: usize = 0;
    while y < height
        invariant
            src@.len() == width * height * 4,
            y <= height,
            plane@.len() == y * width,
            forall|k: int|
                0 <= k < plane@.len() ==> plane@[k] == full_plane_byte(
                    channel,
                    src@,
                    width as int,
                    k,
                ),
        decreases height - y,
    {
        let mut x: usize = 0;
        while x < width
            invariant
                src@.len() == width * height * 4,
                y < height,
                x <= width,
                plane@.len() == y * width + x,
                forall|k: int|
                    0 <= k < plane@.len() ==> plane@[k] == full_plane_byte(
                        channel,
                        src@,
                        width as int,
                        k,
                    ),
            decreases width - x,
        {
            let (r, g, b) = pixel_at(src, width, height, x, y);
            proof {
                lemma_fundamental_div_mod_converse(
                    y as int * width as int + x as int,
                    width as int,
                    y as int,
                    x as int,
                );
            }
            let sample = match channel {
                SampleChannel::Luma => luma_byte(r, g, b),
                SampleChannel::ChromaU => chroma_u_byte(r, g, b),
                SampleChannel::ChromaV => chroma_v_byte(r, g, b),
            };
            plane.push(sample);
            x += 1;
        }
        proof {
            assert((y + 1) * width == y * width + width) by (nonlinear_arith);
        }
        y += 1;
    }
    proof {
        assert(height as int * width as int == width as int * height as int) by (nonlinear_arith);
        match channel {
            SampleChannel::Luma => {
                assert(plane@ =~= luma_plane(src@, width as int, height as int));
            },
            SampleChannel::ChromaU => {
                assert(plane@ =~= chroma_u_plane_full(src@, width as int, height as int));
            },
            SampleChannel::ChromaV => {
                assert(plane@ =~= chroma_v_plane_full(src@, width as int, height as int));
            },
        }
    }
    plane
}

/// One pass over the 2x2 block anchors, emitting both quarter-resolution
/// chroma planes from each anchor pixel alone.
fn build_chroma_planes_nearest(src: &[u8], width: usize, height: usize) -> (planes: (
    Vec<u8>,
    Vec<u8>,
))
    requires
        src@.len() == width * height * 4,
        width % 2 == 0,
        height % 2 == 0,
    ensures
        planes.0@ == chroma_u_plane_nearest(src@, width as int, height as int),
        planes.1@ == chroma_v_plane_nearest(src@, width as int, height as int),
{
    let half_width = width / 2;
    let half_height = height / 2;
    let mut u_plane: Vec<u8> = Vec::new();
    let mut v_plane: Vec<u8> = Vec::new();
    let mut by: usize = 0;
    while by < half_height
        invariant
            src@.len() == width * height * 4,
            width % 2 == 0,
            height % 2 == 0,
            half_width == width / 2,
            half_height == height / 2,
            by <= half_height,
            u_plane@.len() == by * half_width,
            v_plane@.len() == by * half_width,
            forall|k: int|
                0 <= k < u_plane@.len() ==> u_plane@[k] == chroma_u_at(
                    src@,
                    width as int,
                    2 * (k % half_width as int),
                    2 * (k / half_width as int),
                ) as u8,
            forall|k: int|
                0 <= k < v_plane@.len() ==> v_plane@[k] == chroma_v_at(
                    src@,
                    width as int,
                    2 * (k % half_width as int),
                    2 * (k / half_width as int),
                ) as u8,
        decreases half_height - by,
    {
        let mut bx: usize = 0;
        while bx < half_width
            invariant
                src@.len() == width * height * 4,
                width % 2 == 0,
                height % 2 == 0,
                half_width == width / 2,
                half_height == height / 2,
                by < half_height,
                bx <= half_width,
                u_plane@.len() == by * half_width + bx,
                v_plane@.len() == by * half_width + bx,
                forall|k: int|
                    0 <= k < u_plane@.len() ==> u_plane@[k] == chroma_u_at(
                        src@,
                        width as int,
                        2 * (k % half_width as int),
                        2 * (k / half_width as int),
                    ) as u8,
                forall|k: int|
                    0 <= k < v_plane@.len() ==> v_plane@[k] == chroma_v_at(
                        src@,
                        width as int,
                        2 * (k % half_width as int),
                        2 * (k / half_width as int),
                    ) as u8,
            decreases half_width - bx,
        {
            let x = 2 * bx;
            let y = 2 * by;
            let (r, g, b) = pixel_at(src, width, height, x, y);
            proof {
                lemma_fundamental_div_mod_converse(
                    by as int * half_width as int + bx as int,
                    half_width as int,
                    by as int,
                    bx as int,
                );
            }
            u_plane.push(chroma_u_byte(r, g, b));
            v_plane.push(chroma_v_byte(r, g, b));
            bx += 1;
        }
        proof {
            assert((by + 1) * half_width == by * half_width + half_width) by (nonlinear_arith);
        }
        by += 1;
    }
    proof {
        assert(half_height as int * half_width as int == half_width as int * half_height as int)
            by (nonlinear_arith);
        assert(u_plane@ =~= chroma_u_plane_nearest(src@, width as int, height as int));
        assert(v_plane@ =~= chroma_v_plane_nearest(src@, width as int, height as int));
    }
    (u_plane, v_plane)
}

/// One pass over the 2x2 block anchors, emitting both quarter-resolution
/// chroma planes as the truncated average over each block's four pixels.
fn build_chroma_planes_averaged(src: &[u8], width: usize, height: usize) -> (planes: (
    Vec<u8>,
    Vec<u8>,
))
    requires
        src@.len() == width * height * 4,
        width % 2 == 0,
        height % 2 == 0,
    ensures
        planes.0@ == chroma_u_plane_averaged(src@, width as int, height as int),
        planes.1@ == chroma_v_plane_averaged(src@, width as int, height as int),
{
    let half_width = width / 2;
    let half_height = height / 2;
    let mut u_plane: Vec<u8> = Vec::new();
    let mut v_plane: Vec<u8> = Vec::new();
    let mut by: usize = 0;
    while by < half_height
        invariant
            src@.len() == width * height * 4,
            width % 2 == 0,
            height % 2 == 0,
            half_width == width / 2,
            half_height == height / 2,
            by <= half_height,
            u_plane@.len() == by * half_width,
            v_plane@.len() == by * half_width,
            forall|k: int|
                0 <= k < u_plane@.len() ==> u_plane@[k] == chroma_u_avg_at(
                    src@,
                    width as int,
                    2 * (k % half_width as int),
                    2 * (k / half_width as int),
                ) as u8,
            forall|k: int|
                0 <= k < v_plane@.len() ==> v_plane@[k] == chroma_v_avg_at(
                    src@,
                    width as int,
                    2 * (k % half_width as int),
                    2 * (k / half_width as int),
                ) as u8,
        decreases half_height - by,
    {
        let mut bx: usize = 0;
        while bx < half_width
            invariant
                src@.len() == width * height * 4,
                width % 2 == 0,
                height % 2 == 0,
                half_width == width / 2,
                half_height == height / 2,
                by < half_height,
                bx <= half_width,
                u_plane@.len() == by * half_width + bx,
                v_plane@.len() == by * half_width + bx,
                forall|k: int|
                    0 <= k < u_plane@.len() ==> u_plane@[k] == chroma_u_avg_at(
                        src@,
                        width as int,
                        2 * (k % half_width as int),
                        2 * (k / half_width as int),
                    ) as u8,
                forall|k: int|
                    0 <= k < v_plane@.len() ==> v_plane@[k] == chroma_v_avg_at(
                        src@,
                        width as int,
                        2 * (k % half_width as int),
                        2 * (k / half_width as int),
                    ) as u8,
            decreases half_width - bx,
        {
            let x = 2 * bx;
            let y = 2 * by;
            let (r00, g00, b00) = pixel_at(src, width, height, x, y);
            let (r01, g01, b01) = pixel_at(src, width, height, x + 1, y);
            let (r10, g10, b10) = pixel_at(src, width, height, x, y + 1);
            let (r11, g11, b11) = pixel_at(src, width, height, x + 1, y + 1);
            let u_sum: u32 = chroma_u_byte(r00, g00, b00) as u32 + chroma_u_byte(
                r01,
                g01,
                b01,
            ) as u32 + chroma_u_byte(r10, g10, b10) as u32 + chroma_u_byte(r11, g11, b11) as u32;
            let v_sum: u32 = chroma_v_byte(r00, g00, b00) as u32 + chroma_v_byte(
                r01,
                g01,
                b01,
            ) as u32 + chroma_v_byte(r10, g10, b10) as u32 + chroma_v_byte(r11, g11, b11) as u32;
            proof {
                lemma_fundamental_div_mod_converse(
                    by as int * half_width as int + bx as int,
                    half_width as int,
                    by as int,
                    bx as int,
                );
            }
            u_plane.push((u_sum / 4) as u8);
            v_plane.push((v_sum / 4) as u8);
            bx += 1;
        }
        proof {
            assert((by + 1) * half_width == by * half_width + half_width) by (nonlinear_arith);
        }
        by += 1;
    }
    proof {
        assert(half_height as int * half_width as int == half_width as int * half_height as int)
            by (nonlinear_arith);
        assert(u_plane@ =~= chroma_u_plane_averaged(src@, width as int, height as int));
        assert(v_plane@ =~= chroma_v_plane_averaged(src@, width as int, height as int));
    }
    (u_plane, v_plane)
}

proof fn lemma_yuv420_len(width: int, height: int)
    requires
        0 <= width,
        0 <= height,
        width % 2 == 0,
        height % 2 == 0,
    ensures
        width * height + (width / 2) * (height / 2) + (width / 2) * (height / 2) == width * height
            * 3 / 2,
{
    let half_w = width / 2;
    let half_h = height / 2;
    assert(width * height == 4 * (half_w * half_h)) by (nonlinear_arith)
        requires
            width == 2 * half_w,
            height == 2 * half_h,
    ;
}

proof fn lemma_luma_index(width: int, height: int, x: int, y: int)
    requires
        0 <= x < width,
        0 <= y < height,
    ensures
        0 <= y * width + x < width * height,
        (y * width + x) % width == x,
        (y * width + x) / width == y,
{
    lemma_mul_inequality(y, height - 1, width);
    assert((height - 1) * width + width == height * width) by (nonlinear_arith);
    assert(height * width == width * height) by (nonlinear_arith);
    lemma_fundamental_div_mod_converse(y * width + x, width, y, x);
}

proof fn lemma_chroma_index(width: int, height: int, x: int, y: int)
    requires
        width % 2 == 0,
        height % 2 == 0,
        0 <= x < width,
        0 <= y < height,
        x % 2 == 0,
        y % 2 == 0,
    ensures
        0 <= (y / 2) * (width / 2) + x / 2 < (width / 2) * (height / 2),
        ((y / 2) * (width / 2) + x / 2) % (width / 2) == x / 2,
        ((y / 2) * (width / 2) + x / 2) / (width / 2) == y / 2,
        2 * (x / 2) == x,
        2 * (y / 2) == y,
{
    let half_w = width / 2;
    let half_h = height / 2;
    lemma_mul_inequality(y / 2, half_h - 1, half_w);
    assert((half_h - 1) * half_w + half_w == half_h * half_w) by (nonlinear_arith);
    assert(half_h * half_w == half_w * half_h) by (nonlinear_arith);
    lemma_fundamental_div_mod_converse((y / 2) * half_w + x / 2, half_w, y / 2, x / 2);
}

/// Where each sample of the nearest-sample 4:2:0 output lies: the luma of
/// pixel `(x, y)` is at index `y*width + x`; for an even `(x, y)`, the
/// block's chroma sits at `(y/2)*(width/2) + x/2` within the U plane that
/// follows the luma plane, and at the same offset within the V plane a
/// quarter frame later.
pub proof fn lemma_yuv420_nearest_layout(src: Seq<u8>, width: int, height: int, x: int, y: int)
    requires
        width % 2 == 0,
        height % 2 == 0,
        0 <= x < width,
        0 <= y < height,
    ensures
        yuv420_nearest_of(src, width, height)[y * width + x] == luma_at(src, width, x, y) as u8,
        x % 2 == 0 && y % 2 == 0 ==> yuv420_nearest_of(src, width, height)[width * height + (y / 2)
            * (width / 2) + x / 2] == chroma_u_at(src, width, x, y) as u8,
        x % 2 == 0 && y % 2 == 0 ==> yuv420_nearest_of(src, width, height)[width * height + (width
            / 2) * (height / 2) + (y / 2) * (width / 2) + x / 2] == chroma_v_at(
            src,
            width,
            x,
            y,
        ) as u8,
{
    lemma_luma_index(width, height, x, y);
    if x % 2 == 0 && y % 2 == 0 {
        lemma_chroma_index(width, height, x, y);
    }
}

/// The same addressing for the averaged 4:2:0 output, whose chroma
/// samples are the truncated block means.
pub proof fn lemma_yuv420_averaged_layout(src: Seq<u8>, width: int, height: int, x: int, y: int)
    requires
        width % 2 == 0,
        height % 2 == 0,
        0 <= x < width,
        0 <= y < height,
    ensures
        yuv420_averaged_of(src, width, height)[y * width + x] == luma_at(src, width, x, y) as u8,
        x % 2 == 0 && y % 2 == 0 ==> yuv420_averaged_of(src, width, height)[width * height + (y / 2)
            * (width / 2) + x / 2] == chroma_u_avg_at(src, width, x, y) as u8,
        x % 2 == 0 && y % 2 == 0 ==> yuv420_averaged_of(src, width, height)[width * height + (width
            / 2) * (height / 2) + (y / 2) * (width / 2) + x / 2] == chroma_v_avg_at(
            src,
            width,
            x,
            y,
        ) as u8,
{
    lemma_luma_index(width, height, x, y);
    if x % 2 == 0 && y % 2 == 0 {
        lemma_chroma_index(width, height, x, y);
    }
}

/// Where each sample of the 4:4:4 output lies: every pixel `(x, y)` has
/// its luma at `y*width + x` and its chroma at the same offset within the
/// full-resolution U and V planes that follow.
pub proof fn lemma_yuv444_layout(src: Seq<u8>, width: int, height: int, x: int, y: int)
    requires
        0 <= x < width,
        0 <= y < height,
    ensures
        yuv444_of(src, width, height)[y * width + x] == luma_at(src, width, x, y) as u8,
        yuv444_of(src, width, height)[width * height + y * width + x] == chroma_u_at(
            src,
            width,
            x,
            y,
        ) as u8,
        yuv444_of(src, width, height)[2 * (width * height) + y * width + x] == chroma_v_at(
            src,
            width,
            x,
            y,
        ) as u8,
{
    lemma_luma_index(width, height, x, y);
}

/// The fixed-point chroma never needs clamping: for any channel values it
/// lies in [17, 240], so the clamped and the unclamped value agree. In
/// particular, averaging per-pixel chroma values averages the same numbers
/// whether they are taken before or after clamping.
pub proof fn lemma_chroma_in_byte_range(r: int, g: int, b: int)
    requires
        0 <= r <= 255,
        0 <= g <= 255,
        0 <= b <= 255,
    ensures
        17 <= chroma_u_raw_of(r, g, b) <= 240,
        17 <= chroma_v_raw_of(r, g, b) <= 240,
        chroma_u_of(r, g, b) == chroma_u_raw_of(r, g, b),
        chroma_v_of(r, g, b) == chroma_v_raw_of(r, g, b),
{
    let tu = -38 * r - 74 * g + 112 * b + 128;
    let tv = 112 * r - 94 * g - 18 * b + 128;
    assert(-28432 <= tu <= 28688);
    assert(-28432 <= tv <= 28688);
}

/// The averaged 4:2:0 chroma of a block is the arithmetic mean, with
/// truncating division by four, of the four per-pixel chroma samples of
/// that block — the same samples the nearest-sample and 4:4:4 outputs
/// carry.
pub proof fn lemma_averaged_block_mean(src: Seq<u8>, width: int, height: int, x: int, y: int)
    requires
        width % 2 == 0,
        height % 2 == 0,
        0 <= x < width,
        0 <= y < height,
        x % 2 == 0,
        y % 2 == 0,
    ensures
        chroma_u_avg_at(src, width, x, y) == (chroma_u_at(src, width, x, y) + chroma_u_at(
            src,
            width,
            x + 1,
            y,
        ) + chroma_u_at(src, width, x, y + 1) + chroma_u_at(src, width, x + 1, y + 1)) / 4,
        chroma_v_avg_at(src, width, x, y) == (chroma_v_at(src, width, x, y) + chroma_v_at(
            src,
            width,
            x + 1,
            y,
        ) + chroma_v_at(src, width, x, y + 1) + chroma_v_at(src, width, x + 1, y + 1)) / 4,
{
    lemma_chroma_in_byte_range(red_at(src, width, x, y), green_at(src, width, x, y), blue_at(src, width, x, y));
    lemma_chroma_in_byte_range(
        red_at(src, width, x + 1, y),
        green_at(src, width, x + 1, y),
        blue_at(src, width, x + 1, y),
    );
    lemma_chroma_in_byte_range(
        red_at(src, width, x, y + 1),
        green_at(src, width, x, y + 1),
        blue_at(src, width, x, y + 1),
    );
    lemma_chroma_in_byte_range(
        red_at(src, width, x + 1, y + 1),
        green_at(src, width, x + 1, y + 1),
        blue_at(src, width, x + 1, y + 1),
    );
}

/// Gray input carries no color cast: for any gray level `k`, both chroma
/// channels are exactly 128, and the luma is the fixed-point formula's
/// value for three equal channels.
pub proof fn lemma_gray_pixel_neutral(k: int)
    requires
        0 <= k <= 255,
    ensures
        chroma_u_of(k, k, k) == 128,
        chroma_v_of(k, k, k) == 128,
        luma_of(k, k, k) == spec_clamp((220 * k + 128) / 256 + 16),
{
    assert(-38 * k - 74 * k + 112 * k + 128 == 128);
    assert(112 * k - 94 * k - 18 * k + 128 == 128);
    assert(66 * k + 129 * k + 25 * k + 128 == 220 * k + 128);
}

/// Converting the same frame twice yields byte-identical output: the
/// nearest-sample 4:2:0 result is a function of the input alone, with no
/// hidden state.
pub proof fn lemma_yuv420_nearest_deterministic(
    src: Seq<u8>,
    width: int,
    height: int,
    first: Seq<u8>,
    second: Seq<u8>,
)
    requires
        first == yuv420_nearest_of(src, width, height),
        second == yuv420_nearest_of(src, width, height),
    ensures
        first == second,
{
}

/// Converting the same frame twice yields byte-identical output for the
/// averaged 4:2:0 variant as well.
pub proof fn lemma_yuv420_averaged_deterministic(
    src: Seq<u8>,
    width: int,
    height: int,
    first: Seq<u8>,
    second: Seq<u8>,
)
    requires
        first == yuv420_averaged_of(src, width, height),
        second == yuv420_averaged_of(src, width, height),
    ensures
        first == second,
{
}

/// Converting the same frame twice yields byte-identical output for the
/// 4:4:4 variant as well.
pub proof fn lemma_yuv444_deterministic(
    src: Seq<u8>,
    width: int,
    height: int,
    first: Seq<u8>,
    second: Seq<u8>,
)
    requires
        first == yuv444_of(src, width, height),
        second == yuv444_of(src, width, height),
    ensures
        first == second,
{
}

/// Convert a packed BGRA frame to planar 4:2:0 YUV, taking each 2x2
/// block's chroma from its top-left pixel. The output is the `Y` plane of
/// `width * height` bytes, then the `U` and `V` planes of a quarter of
/// that size each.
pub fn argb_to_yuv420(width: usize, height: usize, src: &[u8]) -> (yuv: Vec<u8>)
    requires
        width % 2 == 0,
        height % 2 == 0,
        src@.len() == width * height * 4,
    ensures
        yuv@ == yuv420_nearest_of(src@, width as int, height as int),
        yuv@.len() == width * height * 3 / 2,
{
    let mut yuv = build_full_plane(src, width, height, SampleChannel::Luma);
    let (mut u_plane, mut v_plane) = build_chroma_planes_nearest(src, width, height);
    yuv.append(&mut u_plane);
    yuv.append(&mut v_plane);
    proof {
        lemma_yuv420_len(width as int, height as int);
    }
    yuv
}

/// Convert a packed BGRA frame to planar 4:2:0 YUV, averaging each 2x2
/// block's four per-pixel chroma values (truncating division by four).
/// The layout is the same as `argb_to_yuv420`'s.
pub fn argb_to_yuv420_with_subsampling(width: usize, height: usize, src: &[u8]) -> (yuv: Vec<u8>)
    requires
        width % 2 == 0,
        height % 2 == 0,
        src@.len() == width * height * 4,
    ensures
        yuv@ == yuv420_averaged_of(src@, width as int, height as int),
        yuv@.len() == width * height * 3 / 2,
{
    let mut yuv = build_full_plane(src, width, height, SampleChannel::Luma);
    let (mut u_plane, mut v_plane) = build_chroma_planes_averaged(src, width, height);
    yuv.append(&mut u_plane);
    yuv.append(&mut v_plane);
    proof {
        lemma_yuv420_len(width as int, height as int);
    }
    yuv
}

/// Convert a packed BGRA frame to planar 4:4:4 YUV: every pixel yields
/// one Y, one U and one V sample, so all three planes have `width *
/// height` bytes.
pub fn argb_to_yuv444(width: usize, height: usize, src: &[u8]) -> (yuv: Vec<u8>)
    requires
        src@.len() == width * height * 4,
    ensures
        yuv@ == yuv444_of(src@, width as int, height as int),
        yuv@.len() == width * height * 3,
{
    let mut yuv = build_full_plane(src, width, height, SampleChannel::Luma);
    let (mut u_plane, mut v_plane) = (
        build_full_plane(src, width, height, SampleChannel::ChromaU),
        build_full_plane(src, width, height, SampleChannel::ChromaV),
    );
    yuv.append(&mut u_plane);
    yuv.append(&mut v_plane);
    yuv
}

} // verus!
