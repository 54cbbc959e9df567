use record_screen::convert::argb_to_yuv420;
use record_screen::convert::argb_to_yuv420_with_subsampling;
use record_screen::convert::argb_to_yuv444;
use record_screen::convert::chroma_u_byte;
use record_screen::convert::chroma_v_byte;
use record_screen::convert::clamp;
use record_screen::convert::luma_byte;

/// A frame of `width * height` copies of one BGRA pixel, given as (r, g, b).
fn solid_frame(width: usize, height: usize, r: u8, g: u8, b: u8) -> Vec<u8> {
    let mut src = Vec::new();
    for _ in 0..width * height {
        src.push(b);
        src.push(g);
        src.push(r);
        src.push(0);
    }
    src
}

#[test]
fn black_frame_is_neutral() {
    // Pure black: Y = 16, U = V = 128.
    let src = solid_frame(2, 2, 0, 0, 0);
    let yuv = argb_to_yuv420(2, 2, &src);
    assert_eq!(yuv, vec![16, 16, 16, 16, 128, 128]);
}

#[test]
fn white_frame_is_neutral() {
    // Pure white: Y = 235 (studio range), U = V = 128.
    let src = solid_frame(2, 2, 255, 255, 255);
    let yuv = argb_to_yuv420(2, 2, &src);
    assert_eq!(yuv, vec![235, 235, 235, 235, 128, 128]);
}

#[test]
fn gray_frame_has_no_color_cast() {
    // Gray level k maps to Y = (220 * k + 128) / 256 + 16 and exactly
    // neutral chroma, in every variant.
    let src = solid_frame(2, 2, 235, 235, 235);
    assert_eq!(argb_to_yuv420(2, 2, &src), vec![218, 218, 218, 218, 128, 128]);
    assert_eq!(
        argb_to_yuv420_with_subsampling(2, 2, &src),
        vec![218, 218, 218, 218, 128, 128]
    );
    assert_eq!(
        argb_to_yuv444(2, 2, &src),
        vec![218, 218, 218, 218, 128, 128, 128, 128, 128, 128, 128, 128]
    );
    let mid = solid_frame(2, 2, 128, 128, 128);
    assert_eq!(argb_to_yuv420(2, 2, &mid), vec![126, 126, 126, 126, 128, 128]);
}

#[test]
fn all_red_4x4_exact_output() {
    // A 4x4 all-red frame: sixteen Y samples of 82, then four U of 91,
    // then four V of 240 -- 24 bytes in all.
    let src = solid_frame(4, 4, 255, 0, 0);
    let yuv = argb_to_yuv420(4, 4, &src);
    let mut expected = vec![82u8; 16];
    expected.extend_from_slice(&[91, 91, 91, 91]);
    expected.extend_from_slice(&[240, 240, 240, 240]);
    assert_eq!(yuv.len(), 24);
    assert_eq!(yuv, expected);
}

/// One 2x2 block with four distinct colors: red, green / blue, yellow,
/// as a BGRA byte sequence.
fn four_color_block() -> Vec<u8> {
    vec![
        0, 0, 255, 0, // red
        0, 255, 0, 0, // green
        255, 0, 0, 0, // blue
        0, 255, 255, 0, // yellow
    ]
}

#[test]
fn averaged_block_takes_truncated_mean() {
    // Per-pixel chroma: U = [91, 55, 240, 17], V = [240, 35, 111, 146].
    // Truncated means: U = 403 / 4 = 100, V = 532 / 4 = 133.
    let src = four_color_block();
    let yuv = argb_to_yuv420_with_subsampling(2, 2, &src);
    assert_eq!(yuv, vec![82, 144, 41, 210, 100, 133]);
}

#[test]
fn nearest_block_takes_anchor_pixel() {
    // Same block, nearest-sample variant: chroma comes from the top-left
    // (red) pixel alone.
    let src = four_color_block();
    let yuv = argb_to_yuv420(2, 2, &src);
    assert_eq!(yuv, vec![82, 144, 41, 210, 91, 240]);
}

#[test]
fn output_lengths() {
    // 4:2:0 output has width * height * 3 / 2 bytes, 4:4:4 three times
    // width * height.
    let mut src = Vec::new();
    for i in 0..6 * 4 * 4 {
        src.push((i % 251) as u8);
    }
    assert_eq!(argb_to_yuv420(6, 4, &src).len(), 36);
    assert_eq!(argb_to_yuv420_with_subsampling(6, 4, &src).len(), 36);
    assert_eq!(argb_to_yuv444(6, 4, &src).len(), 72);
}

#[test]
fn empty_frame_yields_empty_output() {
    let src: Vec<u8> = Vec::new();
    assert_eq!(argb_to_yuv420(0, 0, &src).len(), 0);
    assert_eq!(argb_to_yuv420_with_subsampling(0, 0, &src).len(), 0);
    assert_eq!(argb_to_yuv444(0, 0, &src).len(), 0);
}

#[test]
fn conversion_is_idempotent() {
    // Converting the same buffer twice yields byte-identical output.
    let mut src = Vec::new();
    for i in 0..4 * 2 * 4 {
        src.push((i * 7 % 256) as u8);
    }
    assert_eq!(argb_to_yuv420(4, 2, &src), argb_to_yuv420(4, 2, &src));
    assert_eq!(
        argb_to_yuv420_with_subsampling(4, 2, &src),
        argb_to_yuv420_with_subsampling(4, 2, &src)
    );
    assert_eq!(argb_to_yuv444(4, 2, &src), argb_to_yuv444(4, 2, &src));
}

#[test]
fn yuv444_single_pixel() {
    // 4:4:4 needs no even dimensions; one red pixel gives one sample per
    // plane.
    let src = vec![0, 0, 255, 0];
    assert_eq!(argb_to_yuv444(1, 1, &src), vec![82, 91, 240]);
}

#[test]
fn per_pixel_formulas() {
    assert_eq!(luma_byte(0, 0, 0), 16);
    assert_eq!(luma_byte(255, 255, 255), 235);
    assert_eq!(luma_byte(255, 0, 0), 82);
    assert_eq!(luma_byte(0, 255, 0), 144);
    assert_eq!(luma_byte(0, 0, 255), 41);
    assert_eq!(chroma_u_byte(255, 0, 0), 91);
    assert_eq!(chroma_v_byte(255, 0, 0), 240);
    assert_eq!(chroma_u_byte(0, 255, 0), 55);
    assert_eq!(chroma_v_byte(0, 255, 0), 35);
    assert_eq!(chroma_u_byte(0, 0, 255), 240);
    assert_eq!(chroma_v_byte(0, 0, 255), 111);
    assert_eq!(chroma_u_byte(255, 255, 0), 17);
    assert_eq!(chroma_v_byte(255, 255, 0), 146);
}

#[test]
fn clamp_saturates_to_byte_range() {
    assert_eq!(clamp(-5), 0);
    assert_eq!(clamp(0), 0);
    assert_eq!(clamp(42), 42);
    assert_eq!(clamp(255), 255);
    assert_eq!(clamp(300), 255);
}
