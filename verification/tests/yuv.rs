use image_viewer::image::avif::yuv::{
    check_rgb_preconditions, check_yuv_plane_preconditions, gbr_to_rgba8, get_matrix,
    process_avif_frame, qrshr, ycgco420_to_rgba8, ycgco444_to_rgba8, yuv400_to_rgba8,
    yuv420_to_rgba8, yuv422_to_rgba8, yuv444_to_rgba8, CbCrInverseTransform, ColorRange,
    MatrixCoefficients, PixelLayout, PlaneDefinition, YuvIntensityRange, YuvMatrixStrategy,
    YuvPlanarImage, YuvStandardMatrix, transform_params,
};

/// y_coef 1.0, chroma added straight to red and blue, no green correction (13-bit precision).
fn simple_transform() -> CbCrInverseTransform {
    CbCrInverseTransform { y_coef: 8192, cr_coef: 8192, cb_coef: 8192, g_coeff_1: 0, g_coeff_2: 0 }
}

/// The inverse transform as the viewer computes it, in f32.
fn float_transform(range_y: u32, range_uv: u32, kr: f32, kb: f32, precision: u32) -> CbCrInverseTransform {
    let range_bgra = 255u32;
    let range_uv = range_bgra as f32 / range_uv as f32;
    let y_coef = range_bgra as f32 / range_y as f32;
    let cr_coeff = (2f32 * (1f32 - kr)) * range_uv;
    let cb_coeff = (2f32 * (1f32 - kb)) * range_uv;
    let kg = 1.0f32 - kr - kb;
    let g_coeff_1 = (2f32 * ((1f32 - kr) * kr / kg)) * range_uv;
    let g_coeff_2 = (2f32 * ((1f32 - kb) * kb / kg)) * range_uv;
    let scale = (1i32 << precision) as f32;
    CbCrInverseTransform {
        y_coef: (y_coef * scale) as i32,
        cr_coef: (cr_coeff * scale) as i32,
        cb_coef: (cb_coeff * scale) as i32,
        g_coeff_1: (g_coeff_1 * scale) as i32,
        g_coeff_2: (g_coeff_2 * scale) as i32,
    }
}

fn image<'a>(
    y: &'a [u8],
    ys: usize,
    u: &'a [u8],
    us: usize,
    v: &'a [u8],
    vs: usize,
    width: usize,
    height: usize,
) -> YuvPlanarImage<'a> {
    YuvPlanarImage {
        y_plane: y,
        y_stride: ys,
        u_plane: u,
        u_stride: us,
        v_plane: v,
        v_stride: vs,
        width,
        height,
    }
}

#[test]
fn qrshr_rounds_and_saturates() {
    assert_eq!(qrshr(128 * 8192, 13, 8), 128);
    assert_eq!(qrshr(4095, 13, 8), 0);
    assert_eq!(qrshr(4096, 13, 8), 1);
    assert_eq!(qrshr(-100_000, 13, 8), 0);
    assert_eq!(qrshr(300 * 8192, 13, 8), 255);
    assert_eq!(qrshr(1023, 11, 8), 0);
    assert_eq!(qrshr(1024, 11, 8), 1);
    assert_eq!(qrshr(1000 * 2048, 11, 10), 1000);
}

#[test]
fn yuv_range_values() {
    let tv = YuvIntensityRange::Tv.get_yuv_range(8);
    assert_eq!((tv.bias_y, tv.bias_uv, tv.range_y, tv.range_uv), (16, 128, 224, 224));
    assert_eq!(tv.range, YuvIntensityRange::Tv);
    let pc = YuvIntensityRange::Pc.get_yuv_range(8);
    assert_eq!((pc.bias_y, pc.bias_uv, pc.range_y, pc.range_uv), (0, 128, 255, 255));
    let tv10 = YuvIntensityRange::Tv.get_yuv_range(10);
    assert_eq!((tv10.bias_y, tv10.bias_uv, tv10.range_y, tv10.range_uv), (64, 512, 896, 896));
    let pc12 = YuvIntensityRange::Pc.get_yuv_range(12);
    assert_eq!((pc12.bias_y, pc12.bias_uv, pc12.range_y, pc12.range_uv), (0, 2048, 4095, 4095));
}

#[test]
fn plane_checks() {
    let plane = [0u8; 12];
    assert_eq!(check_yuv_plane_preconditions(&plane, PlaneDefinition::Y, 4, 3), Ok(()));
    assert_eq!(check_yuv_plane_preconditions(&plane, PlaneDefinition::U, 4, 2), Err(()));
    assert_eq!(check_rgb_preconditions(&plane, 6, 2), Ok(()));
    assert_eq!(check_rgb_preconditions(&plane, 6, 3), Err(()));
}

#[test]
fn yuv444_full_range_exact_pixel() {
    let y = [100u8, 50];
    let u = [148u8, 128];
    let v = [98u8, 128];
    let mut rgba = [7u8; 8];
    let res = yuv444_to_rgba8(
        image(&y, 2, &u, 2, &v, 2, 2, 1),
        &mut rgba,
        YuvIntensityRange::Pc,
        &simple_transform(),
    );
    assert_eq!(res, Ok(()));
    assert_eq!(rgba, [70, 100, 120, 255, 50, 50, 50, 255]);
}

#[test]
fn yuv444_limited_range_black_and_white() {
    let t = float_transform(219, 224, 0.2126, 0.0722, 13);
    assert_eq!(t.y_coef, 9538);
    let y = [16u8, 235];
    let u = [128u8, 128];
    let v = [128u8, 128];
    let mut rgba = [0u8; 8];
    let res = yuv444_to_rgba8(image(&y, 2, &u, 2, &v, 2, 2, 1), &mut rgba, YuvIntensityRange::Tv, &t);
    assert_eq!(res, Ok(()));
    assert_eq!(rgba, [0, 0, 0, 255, 255, 255, 255, 255]);
}

#[test]
fn yuv444_short_chroma_stride_limits_columns() {
    // The chroma rows hold one sample, so only the first column is converted.
    let y = [10u8, 20];
    let u = [128u8];
    let v = [128u8];
    let mut rgba = [9u8; 8];
    let res = yuv444_to_rgba8(
        image(&y, 2, &u, 1, &v, 1, 2, 1),
        &mut rgba,
        YuvIntensityRange::Pc,
        &simple_transform(),
    );
    assert_eq!(res, Ok(()));
    assert_eq!(rgba, [10, 10, 10, 255, 9, 9, 9, 9]);
}

#[test]
fn yuv444_size_mismatch_is_rejected() {
    let y = [10u8, 20];
    let u = [128u8, 128];
    let v = [128u8];
    let mut rgba = [9u8; 8];
    let res = yuv444_to_rgba8(
        image(&y, 2, &u, 2, &v, 2, 2, 1),
        &mut rgba,
        YuvIntensityRange::Pc,
        &simple_transform(),
    );
    assert_eq!(res, Err(()));
    assert_eq!(rgba, [9u8; 8]);
    let mut short = [0u8; 4];
    let res = yuv444_to_rgba8(
        image(&y, 2, &u, 2, &[128u8, 128], 2, 2, 1),
        &mut short,
        YuvIntensityRange::Pc,
        &simple_transform(),
    );
    assert_eq!(res, Err(()));
}

#[test]
fn yuv420_odd_size_reuses_last_chroma() {
    // 3x3 luma, 2x2 chroma: pixel (r, c) reads chroma (r / 2, c / 2).
    let y = [100u8; 9];
    let u = [128u8, 128, 128, 128];
    let v = [128u8, 138, 148, 158];
    let mut rgba = [0u8; 36];
    let res = yuv420_to_rgba8(
        image(&y, 3, &u, 2, &v, 2, 3, 3),
        &mut rgba,
        YuvIntensityRange::Pc,
        &simple_transform(),
    );
    assert_eq!(res, Ok(()));
    let red = |r: usize, c: usize| rgba[(r * 3 + c) * 4];
    assert_eq!(red(0, 0), 100);
    assert_eq!(red(0, 1), 100);
    assert_eq!(red(0, 2), 110);
    assert_eq!(red(1, 2), 110);
    assert_eq!(red(2, 0), 120);
    assert_eq!(red(2, 2), 130);
    assert_eq!(rgba[3], 255);
}

#[test]
fn yuv420_wrong_chroma_height_is_rejected() {
    let y = [100u8; 9];
    let u = [128u8; 6];
    let v = [128u8; 6];
    let mut rgba = [1u8; 36];
    let res = yuv420_to_rgba8(
        image(&y, 3, &u, 2, &v, 2, 3, 3),
        &mut rgba,
        YuvIntensityRange::Pc,
        &simple_transform(),
    );
    assert_eq!(res, Err(()));
    assert_eq!(rgba, [1u8; 36]);
}

#[test]
fn yuv422_shares_chroma_per_pixel_pair() {
    let y = [50u8, 50, 50, 60, 60, 60];
    let u = [128u8, 128, 128, 128];
    let v = [130u8, 140, 150, 160];
    let mut rgba = [0u8; 24];
    let res = yuv422_to_rgba8(
        image(&y, 3, &u, 2, &v, 2, 3, 2),
        &mut rgba,
        YuvIntensityRange::Pc,
        &simple_transform(),
    );
    assert_eq!(res, Ok(()));
    let red: Vec<u8> = rgba.chunks(4).map(|p| p[0]).collect();
    assert_eq!(red, vec![52, 52, 62, 82, 82, 92]);
}

#[test]
fn yuv400_full_and_limited() {
    let y = [0u8, 128, 255, 3];
    let mut rgba = [0u8; 12];
    let t = float_transform(219, 224, 0.2126, 0.0722, 11);
    assert_eq!(t.y_coef, 2384);
    let res = yuv400_to_rgba8(image(&y, 4, &[], 0, &[], 0, 3, 1), &mut rgba, YuvIntensityRange::Pc, &t);
    assert_eq!(res, Ok(()));
    assert_eq!(rgba, [0, 0, 0, 255, 128, 128, 128, 255, 255, 255, 255, 255]);
    let mut rgba = [0u8; 12];
    let y = [16u8, 235, 10, 0];
    let res = yuv400_to_rgba8(image(&y, 4, &[], 0, &[], 0, 3, 1), &mut rgba, YuvIntensityRange::Tv, &t);
    assert_eq!(res, Ok(()));
    assert_eq!(rgba, [0, 0, 0, 255, 255, 255, 255, 255, 0, 0, 0, 255]);
}

#[test]
fn gbr_planes_are_reordered() {
    let g = [10u8];
    let b = [20u8];
    let r = [30u8];
    let mut rgba = [0u8; 4];
    let t = float_transform(219, 224, 0.2126, 0.0722, 11);
    let res = gbr_to_rgba8(image(&g, 1, &b, 1, &r, 1, 1, 1), &mut rgba, YuvIntensityRange::Pc, &t);
    assert_eq!(res, Ok(()));
    assert_eq!(rgba, [30, 10, 20, 255]);
    let g = [235u8];
    let b = [16u8];
    let r = [126u8];
    let res = gbr_to_rgba8(image(&g, 1, &b, 1, &r, 1, 1, 1), &mut rgba, YuvIntensityRange::Tv, &t);
    assert_eq!(res, Ok(()));
    // (126 - 16) * 2384 = 262240, rounded shift by 11: 128
    assert_eq!(rgba, [128, 255, 0, 255]);
}

#[test]
fn ycgco_full_and_limited() {
    // Y 100, Cg +20, Co -10: R = Y - Cg + Co = 70, G = Y + Cg = 120, B = Y - Cg - Co = 90.
    let y = [100u8];
    let u = [148u8];
    let v = [118u8];
    let mut rgba = [0u8; 4];
    let res = ycgco444_to_rgba8(
        image(&y, 1, &u, 1, &v, 1, 1, 1),
        &mut rgba,
        YuvIntensityRange::Pc,
        &simple_transform(),
    );
    assert_eq!(res, Ok(()));
    assert_eq!(rgba, [70, 120, 90, 255]);
    // Limited range rescales by y_coef after removing the luma offset 16.
    let res = ycgco444_to_rgba8(
        image(&y, 1, &u, 1, &v, 1, 1, 1),
        &mut rgba,
        YuvIntensityRange::Tv,
        &simple_transform(),
    );
    assert_eq!(res, Ok(()));
    assert_eq!(rgba, [54, 104, 74, 255]);
    let y = [100u8, 100];
    let u = [148u8];
    let v = [118u8];
    let mut rgba = [0u8; 8];
    let res = ycgco420_to_rgba8(
        image(&y, 2, &u, 1, &v, 1, 2, 1),
        &mut rgba,
        YuvIntensityRange::Pc,
        &simple_transform(),
    );
    assert_eq!(res, Ok(()));
    assert_eq!(rgba, [70, 120, 90, 255, 70, 120, 90, 255]);
}

#[test]
fn matrices_map_to_strategies() {
    assert_eq!(get_matrix(MatrixCoefficients::Identity), Ok(YuvMatrixStrategy::Identity));
    assert_eq!(get_matrix(MatrixCoefficients::BT709), Ok(YuvMatrixStrategy::KrKb(YuvStandardMatrix::Bt709)));
    assert_eq!(
        get_matrix(MatrixCoefficients::Unspecified),
        Ok(YuvMatrixStrategy::KrKb(YuvStandardMatrix::Bt709))
    );
    assert_eq!(get_matrix(MatrixCoefficients::BT470M), Ok(YuvMatrixStrategy::KrKb(YuvStandardMatrix::Bt470_6)));
    assert_eq!(get_matrix(MatrixCoefficients::BT470BG), Ok(YuvMatrixStrategy::KrKb(YuvStandardMatrix::Bt601)));
    assert_eq!(get_matrix(MatrixCoefficients::ST170M), Ok(YuvMatrixStrategy::KrKb(YuvStandardMatrix::Smpte240)));
    assert_eq!(get_matrix(MatrixCoefficients::ST240M), Ok(YuvMatrixStrategy::KrKb(YuvStandardMatrix::Smpte240)));
    assert_eq!(get_matrix(MatrixCoefficients::YCgCo), Ok(YuvMatrixStrategy::CgCo));
    assert_eq!(
        get_matrix(MatrixCoefficients::BT2020NonConstantLuminance),
        Ok(YuvMatrixStrategy::KrKb(YuvStandardMatrix::Bt2020))
    );
    assert_eq!(get_matrix(MatrixCoefficients::Reserved), Err(()));
    assert_eq!(get_matrix(MatrixCoefficients::BT2020ConstantLuminance), Err(()));
    assert_eq!(get_matrix(MatrixCoefficients::ST2085), Err(()));
    assert_eq!(get_matrix(MatrixCoefficients::ChromaticityDerivedConstantLuminance), Err(()));
    assert_eq!(get_matrix(MatrixCoefficients::ChromaticityDerivedNonConstantLuminance), Err(()));
    assert_eq!(get_matrix(MatrixCoefficients::ICtCp), Err(()));
}

#[test]
fn frame_dispatch_follows_matrix_and_layout() {
    let y = [100u8];
    let u = [148u8];
    let v = [118u8];
    let mut rgba = [0u8; 4];
    let res = process_avif_frame(
        8,
        ColorRange::Full,
        MatrixCoefficients::YCgCo,
        PixelLayout::I444,
        image(&y, 1, &u, 1, &v, 1, 1, 1),
        &mut rgba,
        &simple_transform(),
    );
    assert_eq!(res, Ok(()));
    assert_eq!(rgba, [70, 120, 90, 255]);
    let res = process_avif_frame(
        8,
        ColorRange::Full,
        MatrixCoefficients::Identity,
        PixelLayout::I444,
        image(&y, 1, &u, 1, &v, 1, 1, 1),
        &mut rgba,
        &simple_transform(),
    );
    assert_eq!(res, Ok(()));
    assert_eq!(rgba, [118, 100, 148, 255]);
    let res = process_avif_frame(
        8,
        ColorRange::Full,
        MatrixCoefficients::BT709,
        PixelLayout::I400,
        image(&y, 1, &[], 0, &[], 0, 1, 1),
        &mut rgba,
        &simple_transform(),
    );
    assert_eq!(res, Ok(()));
    assert_eq!(rgba, [100, 100, 100, 255]);
    let mut wrong = [0u8; 8];
    let res = process_avif_frame(
        8,
        ColorRange::Full,
        MatrixCoefficients::BT709,
        PixelLayout::I444,
        image(&y, 1, &u, 1, &v, 1, 1, 1),
        &mut wrong,
        &simple_transform(),
    );
    assert_eq!(res, Err(()));
}

#[test]
fn bt709_grey_stays_grey() {
    let t = float_transform(255, 255, 0.2126, 0.0722, 13);
    let y = [77u8];
    let u = [128u8];
    let v = [128u8];
    let mut rgba = [0u8; 4];
    let res = yuv444_to_rgba8(image(&y, 1, &u, 1, &v, 1, 1, 1), &mut rgba, YuvIntensityRange::Pc, &t);
    assert_eq!(res, Ok(()));
    assert_eq!(rgba, [77, 77, 77, 255]);
}

use image_viewer::image::avif::yuv::frame_conversion_sound;

#[test]
fn soundness_check_matches_panicking_inputs() {
    let y = [1u8; 4];
    let u = [1u8; 4];
    let v = [1u8; 4];
    assert!(frame_conversion_sound(PixelLayout::I444, &image(&y, 2, &u, 2, &v, 2, 2, 2), 16));
    // Sizes that the checks reject never reach the panicking code.
    assert!(frame_conversion_sound(PixelLayout::I444, &image(&y, 2, &u, 2, &v, 2, 2, 2), 15));
    // Zero width with consistent sizes would split rows into empty chunks.
    assert!(!frame_conversion_sound(PixelLayout::I444, &image(&[], 2, &[], 2, &[], 2, 0, 0), 0));
    // 4:2:0 rows shorter than the image width would be sliced out of bounds.
    assert!(!frame_conversion_sound(PixelLayout::I420, &image(&y, 2, &u[..2], 2, &v[..2], 2, 3, 2), 24));
    assert!(frame_conversion_sound(PixelLayout::I420, &image(&y, 2, &u[..2], 2, &v[..2], 2, 2, 2), 16));
    assert!(frame_conversion_sound(PixelLayout::I400, &image(&y, 2, &[], 0, &[], 0, 2, 2), 16));
    assert!(!frame_conversion_sound(PixelLayout::I400, &image(&[], 0, &[], 0, &[], 0, 2, 2), 16));
}

#[test]
fn block_shares_chroma_law_on_values() {
    // 4x2 image: two 2x2 blocks with distinct chroma, uniform luma.
    let y = [90u8; 8];
    let u = [128u8, 128];
    let v = [160u8, 100];
    let mut rgba = [0u8; 32];
    let res = yuv420_to_rgba8(
        image(&y, 4, &u, 2, &v, 2, 4, 2),
        &mut rgba,
        YuvIntensityRange::Pc,
        &simple_transform(),
    );
    assert_eq!(res, Ok(()));
    let px = |r: usize, c: usize| &rgba[(r * 4 + c) * 4..(r * 4 + c) * 4 + 4];
    assert_eq!(px(0, 0), px(1, 1));
    assert_eq!(px(0, 1), px(1, 0));
    assert_eq!(px(0, 2), px(1, 3));
    assert_eq!(px(0, 0), &[122, 90, 90, 255]);
    assert_eq!(px(0, 2), &[62, 90, 90, 255]);
}

#[test]
fn row_padding_is_never_read() {
    // Width 2 with strides 3: the third sample of each row is padding.
    let u = [128u8, 200, 128, 7];
    let v = [140u8, 9, 120, 250];
    let mut a = [0u8; 16];
    let mut b = [0u8; 16];
    let ra = yuv422_to_rgba8(
        image(&[10u8, 20, 0, 30, 40, 0], 3, &u, 2, &v, 2, 2, 2),
        &mut a,
        YuvIntensityRange::Pc,
        &simple_transform(),
    );
    let rb = yuv422_to_rgba8(
        image(&[10u8, 20, 255, 30, 40, 99], 3, &u, 2, &v, 2, 2, 2),
        &mut b,
        YuvIntensityRange::Pc,
        &simple_transform(),
    );
    assert_eq!((ra, rb), (Ok(()), Ok(())));
    assert_eq!(a, b);
    assert_eq!(a[0..4], [22, 10, 10, 255]);
}

use image_viewer::image::avif::yuv::squash_alpha;

#[test]
fn alpha_plane_fills_alpha_channel_where_rows_pair_up() {
    let mut buf = [9u8; 16];
    // One alpha row of stride 3 for an image two pixels wide and two rows high.
    squash_alpha(&mut buf, 2, &[10, 20, 30], 3);
    assert_eq!(buf, [9, 9, 9, 10, 9, 9, 9, 20, 9, 9, 9, 9, 9, 9, 9, 9]);
    let mut buf = [0u8; 16];
    // A narrower alpha stride limits the columns.
    squash_alpha(&mut buf, 2, &[1, 2], 1);
    assert_eq!(buf, [0, 0, 0, 1, 0, 0, 0, 0, 0, 0, 0, 2, 0, 0, 0, 0]);
}

#[test]
fn transform_params_per_strategy() {
    let bt601 = YuvMatrixStrategy::KrKb(YuvStandardMatrix::Bt601);
    assert_eq!(transform_params(bt601, PixelLayout::I420), (YuvStandardMatrix::Bt601, 13));
    assert_eq!(transform_params(bt601, PixelLayout::I400), (YuvStandardMatrix::Bt601, 11));
    assert_eq!(transform_params(YuvMatrixStrategy::CgCo, PixelLayout::I444), (YuvStandardMatrix::Bt709, 13));
    assert_eq!(transform_params(YuvMatrixStrategy::Identity, PixelLayout::I444), (YuvStandardMatrix::Bt709, 11));
}

#[test]
fn transform_bounds_checked() {
    assert!(simple_transform().is_bounded());
    let edge = CbCrInverseTransform { y_coef: 65536, cr_coef: -65536, cb_coef: 0, g_coeff_1: 1, g_coeff_2: -1 };
    assert!(edge.is_bounded());
    let over = CbCrInverseTransform { y_coef: 8192, cr_coef: 8192, cb_coef: 8192, g_coeff_1: 0, g_coeff_2: 65537 };
    assert!(!over.is_bounded());
}

#[test]
fn limited_range_luma_spans_224_steps() {
    let tv = YuvIntensityRange::Tv.get_yuv_range(8);
    assert_eq!(tv.bias_y + tv.range_y, 16 + 224);
    let tv10 = YuvIntensityRange::Tv.get_yuv_range(10);
    assert_eq!(tv10.bias_y + tv10.range_y, (16 << 2) + (224 << 2));
}
