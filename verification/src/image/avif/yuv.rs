use vstd::prelude::*;
use vstd::arithmetic::power2::{pow2, lemma_pow2_pos, lemma_pow2_strictly_increases, lemma2_to64};
use vstd::bits::{lemma_u32_shl_is_mul, lemma_u32_shr_is_div, lemma_u32_pow2_no_overflow};

verus! {

/// `v` limited to the closed interval `[lo, hi]`.
pub open spec fn clamp_spec(v: int, lo: int, hi: int) -> int {
    if v < lo {
        lo
    } else if v > hi {
        hi
    } else {
        v
    }
}

/// Rounding right shift by `precision` bits, saturated to `[0, 2^bit_depth - 1]`.
pub open spec fn qrshr_spec(val: int, precision: nat, bit_depth: nat) -> int {
    clamp_spec(
        (val + pow2((precision - 1) as nat)) / (pow2(precision) as int),
        0,
        pow2(bit_depth) - 1,
    )
}

proof fn lemma_i32_shl_one(p: u32)
    requires
        p <= 30,
    ensures
        (1i32 << p) as int == pow2(p as nat),
        pow2(p as nat) <= 0x4000_0000,
{
    lemma_u32_pow2_no_overflow(p as nat);
    lemma_u32_shl_is_mul(1u32, p);
    assert((1i32 << p) == ((1u32 << p) as i32)) by (bit_vector)
        requires
            p <= 30,
    ;
    lemma2_to64();
    assert((1u32 << p) <= 0x4000_0000u32) by (bit_vector)
        requires
            p <= 30,
    ;
    if p < 30 {
        lemma_pow2_strictly_increases(p as nat, 30);
    }
}

proof fn lemma_i32_shr(s: i32, p: u32)
    requires
        1 <= p <= 31,
    ensures
        s >= 0 ==> (s >> p) as int == (s as int) / (pow2(p as nat) as int),
        s < 0 ==> (s >> p) < 0 && (s as int) / (pow2(p as nat) as int) < 0,
{
    lemma_pow2_pos(p as nat);
    if s >= 0 {
        assert((s >> p) == ((s as u32) >> p) as i32) by (bit_vector)
            requires
                s >= 0,
                p <= 31,
        ;
        lemma_u32_shr_is_div(s as u32, p);
    } else {
        assert((s >> p) < 0) by (bit_vector)
            requires
                s < 0,
                p <= 31,
        ;
        let d = pow2(p as nat) as int;
        vstd::arithmetic::div_mod::lemma_fundamental_div_mod(s as int, d);
        if (s as int) / d >= 0 {
            vstd::arithmetic::mul::lemma_mul_nonnegative(d, (s as int) / d);
        }
    }
}

/// Saturating rounding shift right against bit depth.
pub fn qrshr(val: i32, precision: u32, bit_depth: u32) -> (r: i32)
    requires
        1 <= precision <= 31,
        bit_depth <= 30,
        val + pow2((precision - 1) as nat) <= i32::MAX,
    ensures
        r as int == qrshr_spec(val as int, precision as nat, bit_depth as nat),
{
    proof {
        lemma_i32_shl_one((precision - 1) as u32);
        lemma_i32_shl_one(bit_depth);
    }
    let rounding: i32 = 1i32 << (precision - 1);
    let max_value: i32 = (1i32 << bit_depth) - 1;
    let sum: i32 = val + rounding;
    let shifted: i32 = sum >> precision;
    proof {
        lemma_i32_shr(sum, precision);
    }
    if shifted < 0 {
        0
    } else if shifted > max_value {
        max_value
    } else {
        shifted
    }
}

} // verus!

verus! {

/// Declares YUV range TV (limited) or PC (full).
#[derive(Debug, Copy, Clone, PartialEq, Eq, PartialOrd, Structural)]
pub enum YuvIntensityRange {
    /// Limited range: luma in `[16 << (depth - 8), 16 << (depth - 8) + 224 << (depth - 8)]`,
    /// chroma centred on `1 << (depth - 1)` and spanning `224 << (depth - 8)`. The luma span
    /// is the documented interval. For chroma the documented interval,
    /// `[-1 << (depth - 1), -1 << (depth - 1) + 1 << (depth - 1)]`, gives only the bias that
    /// centres it (its width would be half the chroma swing and would put the upper bound at
    /// zero), so the span is the limited-range chroma span of ITU-R H.273 that the
    /// documentation refers to, `224 << (depth - 8)`.
    Tv,
    /// Full range: luma spans `[0, 2^depth - 1]`.
    Pc,
}

/// Offsets and spans of the luma and chroma channels for one bit depth.
#[derive(Debug, Copy, Clone, PartialEq, Eq, PartialOrd, Structural)]
pub struct YuvChromaRange {
    pub bias_y: u32,
    pub bias_uv: u32,
    pub range_y: u32,
    pub range_uv: u32,
    pub range: YuvIntensityRange,
}

impl YuvIntensityRange {
    /// Channel offsets and spans of this range at `depth` bits per sample.
    pub fn get_yuv_range(self, depth: u32) -> (r: YuvChromaRange)
        requires
            8 <= depth <= 32,
            self is Pc ==> depth <= 31,
        ensures
            r.range == self,
            r.bias_uv == pow2((depth - 1) as nat),
            self is Tv ==> {
                &&& r.bias_y == 16 * pow2((depth - 8) as nat)
                &&& r.range_y == 224 * pow2((depth - 8) as nat)
                &&& r.range_uv == 224 * pow2((depth - 8) as nat)
            },
            self is Pc ==> {
                &&& r.bias_y == 0
                &&& r.range_y == pow2(depth as nat) - 1
                &&& r.range_uv == pow2(depth as nat) - 1
            },
    {
        proof {
            lemma_u32_pow2_no_overflow((depth - 1) as nat);
            lemma_u32_shl_is_mul(1u32, (depth - 1) as u32);
            lemma_u32_pow2_no_overflow((depth - 8) as nat);
            lemma_pow2_strictly_increases((depth - 8) as nat, (depth - 1) as nat);
            lemma_pow2_pos((depth - 8) as nat);
        }
        match self {
            YuvIntensityRange::Tv => {
                proof {
                    lemma_tv_no_overflow((depth - 8) as nat);
                    lemma_u32_shl_is_mul(16u32, (depth - 8) as u32);
                    lemma_u32_shl_is_mul(224u32, (depth - 8) as u32);
                }
                YuvChromaRange {
                    bias_y: 16 << (depth - 8),
                    bias_uv: 1 << (depth - 1),
                    range_y: 224 << (depth - 8),
                    range_uv: 224 << (depth - 8),
                    range: self,
                }
            },
            YuvIntensityRange::Pc => {
                proof {
                    lemma_u32_pow2_no_overflow(depth as nat);
                    lemma_u32_shl_is_mul(1u32, depth);
                    lemma_pow2_pos(depth as nat);
                }
                YuvChromaRange {
                    bias_y: 0,
                    bias_uv: 1 << (depth - 1),
                    range_uv: (1 << depth) - 1,
                    range_y: (1 << depth) - 1,
                    range: self,
                }
            },
        }
    }
}

proof fn lemma_tv_no_overflow(e: nat)
    requires
        e <= 24,
    ensures
        224 * pow2(e) <= u32::MAX,
{
    lemma2_to64();
    if e < 24 {
        lemma_pow2_strictly_increases(e, 24);
    }
}

} // verus!

verus! {

/// Borrowed planes of a planar YUV image with 8-bit samples.
pub struct YuvPlanarImage<'a> {
    pub y_plane: &'a [u8],
    pub y_stride: usize,
    pub u_plane: &'a [u8],
    pub u_stride: usize,
    pub v_plane: &'a [u8],
    pub v_stride: usize,
    pub width: usize,
    pub height: usize,
}

/// The mathematical content of a [`YuvPlanarImage`].
pub struct PlanesView {
    pub y: Seq<u8>,
    pub y_stride: int,
    pub u: Seq<u8>,
    pub u_stride: int,
    pub v: Seq<u8>,
    pub v_stride: int,
    pub width: int,
    pub height: int,
}

impl<'a> YuvPlanarImage<'a> {
    pub open spec fn planes(&self) -> PlanesView {
        PlanesView {
            y: self.y_plane@,
            y_stride: self.y_stride as int,
            u: self.u_plane@,
            u_stride: self.u_stride as int,
            v: self.v_plane@,
            v_stride: self.v_stride as int,
            width: self.width as int,
            height: self.height as int,
        }
    }
}

/// Fixed-point coefficients of the inverse YCbCr transform.
#[derive(Debug, Copy, Clone)]
pub struct CbCrInverseTransform {
    pub y_coef: i32,
    pub cr_coef: i32,
    pub cb_coef: i32,
    pub g_coeff_1: i32,
    pub g_coeff_2: i32,
}

/// Largest coefficient magnitude for which the fixed-point arithmetic fits in `i32`.
pub open spec fn coef_ok(c: i32) -> bool {
    -65536 <= c <= 65536
}

impl CbCrInverseTransform {
    pub open spec fn bounded(&self) -> bool {
        &&& coef_ok(self.y_coef)
        &&& coef_ok(self.cr_coef)
        &&& coef_ok(self.cb_coef)
        &&& coef_ok(self.g_coeff_1)
        &&& coef_ok(self.g_coeff_2)
    }

    /// Whether every coefficient lies within the range the fixed-point conversion accepts.
    pub fn is_bounded(&self) -> (r: bool)
        ensures
            r == self.bounded(),
    {
        coef_in_range(self.y_coef) && coef_in_range(self.cr_coef) && coef_in_range(self.cb_coef)
            && coef_in_range(self.g_coeff_1) && coef_in_range(self.g_coeff_2)
    }
}

fn coef_in_range(c: i32) -> (r: bool)
    ensures
        r == coef_ok(c),
{
    -65536 <= c && c <= 65536
}

/// How the chroma planes are sampled relative to the luma plane.
#[derive(Debug, Copy, Clone, PartialEq, Eq, Structural)]
pub enum ChromaSiting {
    /// 4:4:4, one chroma sample per pixel.
    Full,
    /// 4:2:2, one chroma sample per two horizontal pixels.
    HalfWidth,
    /// 4:2:0, one chroma sample per 2x2 pixel block.
    HalfWidthHeight,
}

/// The colour model that turns one sample triple into an RGBA pixel.
#[derive(Debug, Copy, Clone, PartialEq, Eq, Structural)]
pub enum PixelRule {
    /// Monochrome: luma only, full range copies it, limited range rescales it.
    Grey { limited: bool },
    /// YCbCr with a `KrKb` matrix, always through the fixed-point transform.
    YCbCr,
    /// YCgCo, rescaled through the luma coefficient or clamped directly.
    YCgCo { limited: bool },
    /// Identity matrix: planes hold G, B, R.
    Gbr { limited: bool },
}

/// Chroma row and column read for the pixel in row `r`, column `c`.
pub open spec fn chroma_row(siting: ChromaSiting, r: int) -> int {
    match siting {
        ChromaSiting::HalfWidthHeight => r / 2,
        _ => r,
    }
}

pub open spec fn chroma_col(siting: ChromaSiting, c: int) -> int {
    match siting {
        ChromaSiting::Full => c,
        _ => c / 2,
    }
}

pub open spec fn q13(v: int) -> int {
    qrshr_spec(v, 13, 8)
}

pub open spec fn q11(v: int) -> int {
    qrshr_spec(v, 11, 8)
}

/// Law: in a YCbCr pixel, red depends on the luma and Cr (`v`) samples only, blue on the
/// luma and Cb (`u`) samples only, and green takes Cr through `g_coeff_1` and Cb through
/// `g_coeff_2`: when one of those is zero, green does not depend on that chroma sample.
pub proof fn lemma_ycbcr_channel_dependencies(
    yv: int,
    u1: int,
    u2: int,
    v1: int,
    v2: int,
    bias_y: int,
    bias_uv: int,
    t: CbCrInverseTransform,
)
    ensures
        sample_rgba(PixelRule::YCbCr, yv, u1, v1, bias_y, bias_uv, t).0 == sample_rgba(
            PixelRule::YCbCr,
            yv,
            u2,
            v1,
            bias_y,
            bias_uv,
            t,
        ).0,
        sample_rgba(PixelRule::YCbCr, yv, u1, v1, bias_y, bias_uv, t).2 == sample_rgba(
            PixelRule::YCbCr,
            yv,
            u1,
            v2,
            bias_y,
            bias_uv,
            t,
        ).2,
        t.g_coeff_1 == 0 ==> sample_rgba(PixelRule::YCbCr, yv, u1, v1, bias_y, bias_uv, t).1 == sample_rgba(
            PixelRule::YCbCr,
            yv,
            u1,
            v2,
            bias_y,
            bias_uv,
            t,
        ).1,
        t.g_coeff_2 == 0 ==> sample_rgba(PixelRule::YCbCr, yv, u1, v1, bias_y, bias_uv, t).1 == sample_rgba(
            PixelRule::YCbCr,
            yv,
            u2,
            v1,
            bias_y,
            bias_uv,
            t,
        ).1,
{
    if t.g_coeff_1 == 0 {
        assert(t.g_coeff_1 * (v1 - bias_uv) == 0);
        assert(t.g_coeff_1 * (v2 - bias_uv) == 0);
    }
    if t.g_coeff_2 == 0 {
        assert(t.g_coeff_2 * (u1 - bias_uv) == 0);
        assert(t.g_coeff_2 * (u2 - bias_uv) == 0);
    }
}

/// Full-range YCgCo to RGBA, biases already removed: each channel clamped to `0..=255`.
pub open spec fn ycgco_full_rgba(y: int, cg: int, co: int) -> (int, int, int, int) {
    (clamp_spec(y - cg + co, 0, 255), clamp_spec(y + cg, 0, 255), clamp_spec(y - cg - co, 0, 255), 255)
}

/// Law: full-range YCgCo undoes the forward transform. For RGB samples whose luma
/// `(r + 2g + b) / 4`, green chroma `(2g - r - b) / 4` and orange chroma `(r - b) / 2` are
/// exact, the conversion gives back `r`, `g`, `b`, opaque.
pub proof fn lemma_ycgco_full_round_trip(r: int, g: int, b: int, y: int, cg: int, co: int)
    requires
        0 <= r <= 255,
        0 <= g <= 255,
        0 <= b <= 255,
        4 * y == r + 2 * g + b,
        4 * cg == 2 * g - r - b,
        2 * co == r - b,
    ensures
        ycgco_full_rgba(y, cg, co) == (r, g, b, 255int),
{
}

/// RGBA value (each channel in `0..=255`) that `rule` gives to the samples `yv`, `uv`, `vv`.
pub open spec fn sample_rgba(
    rule: PixelRule,
    yv: int,
    uv: int,
    vv: int,
    bias_y: int,
    bias_uv: int,
    t: CbCrInverseTransform,
) -> (int, int, int, int) {
    let y = yv - bias_y;
    let cb = uv - bias_uv;
    let cr = vv - bias_uv;
    match rule {
        PixelRule::Grey { limited } => {
            let g = if limited { q11(y * t.y_coef) } else { yv };
            (g, g, g, 255)
        },
        PixelRule::YCbCr => {
            let ys = y * t.y_coef;
            (q13(ys + t.cr_coef * cr), q13(ys - t.g_coeff_1 * cr - t.g_coeff_2 * cb), q13(ys + t.cb_coef * cb), 255)
        },
        PixelRule::YCgCo { limited } => {
            let t0 = y - cb;
            if limited {
                (q13((t0 + cr) * t.y_coef), q13((y + cb) * t.y_coef), q13((t0 - cr) * t.y_coef), 255)
            } else {
                ycgco_full_rgba(y, cb, cr)
            }
        },
        PixelRule::Gbr { limited } => {
            if limited {
                (q11((vv - bias_y) * t.y_coef), q11(y * t.y_coef), q11((uv - bias_y) * t.y_coef), 255)
            } else {
                (vv, yv, uv, 255)
            }
        },
    }
}

pub open spec fn rgba_channel(px: (int, int, int, int), k: int) -> int {
    if k == 0 {
        px.0
    } else if k == 1 {
        px.1
    } else if k == 2 {
        px.2
    } else {
        px.3
    }
}

/// Luma sample of the pixel in row `r`, column `c`.
pub open spec fn luma_sample(img: PlanesView, r: int, c: int) -> u8 {
    img.y[r * img.y_stride + c]
}

/// First chroma sample (Cb, Cg or B) read for the pixel in row `r`, column `c`.
pub open spec fn u_sample(img: PlanesView, siting: ChromaSiting, r: int, c: int) -> u8 {
    img.u[chroma_row(siting, r) * img.u_stride + chroma_col(siting, c)]
}

/// Second chroma sample (Cr, Co or R) read for the pixel in row `r`, column `c`.
pub open spec fn v_sample(img: PlanesView, siting: ChromaSiting, r: int, c: int) -> u8 {
    img.v[chroma_row(siting, r) * img.v_stride + chroma_col(siting, c)]
}

/// Byte `i` of the RGBA buffer after converting `ncols` columns of every row of `img`;
/// bytes outside those columns keep their value in `old`.
pub open spec fn converted_byte(
    old: Seq<u8>,
    img: PlanesView,
    siting: ChromaSiting,
    rule: PixelRule,
    ncols: int,
    bias_y: int,
    bias_uv: int,
    t: CbCrInverseTransform,
    i: int,
) -> u8 {
    let row_len = 4 * img.width;
    let r = i / row_len;
    let off = i % row_len;
    let c = off / 4;
    let k = off % 4;
    if 0 <= i && img.width > 0 && r < img.height && c < ncols {
        let yv = luma_sample(img, r, c);
        let uv = u_sample(img, siting, r, c);
        let vv = v_sample(img, siting, r, c);
        rgba_channel(sample_rgba(rule, yv as int, uv as int, vv as int, bias_y, bias_uv, t), k) as u8
    } else {
        old[i]
    }
}

/// The whole RGBA buffer after the conversion described by [`converted_byte`].
pub open spec fn converted(
    old: Seq<u8>,
    img: PlanesView,
    siting: ChromaSiting,
    rule: PixelRule,
    ncols: int,
    bias_y: int,
    bias_uv: int,
    t: CbCrInverseTransform,
) -> Seq<u8> {
    Seq::new(old.len(), |i: int| converted_byte(old, img, siting, rule, ncols, bias_y, bias_uv, t, i))
}

/// Byte `k` (0 to 3) of pixel `p` of the converted buffer sits at `4 * p + k`: row
/// `p / width`, column `p % width`, channel `k`.
proof fn lemma_pixel_byte(w: int, p: int, k: int)
    requires
        w > 0,
        p >= 0,
        0 <= k < 4,
    ensures
        (4 * p + k) / (4 * w) == p / w,
        (4 * p + k) % (4 * w) == 4 * (p % w) + k,
        (4 * (p % w) + k) / 4 == p % w,
        (4 * (p % w) + k) % 4 == k,
{
    let q = p / w;
    let m = p % w;
    vstd::arithmetic::div_mod::lemma_fundamental_div_mod(p, w);
    assert(4 * p + k == q * (4 * w) + (4 * m + k)) by (nonlinear_arith)
        requires
            p == w * q + m,
    ;
    vstd::arithmetic::div_mod::lemma_fundamental_div_mod_converse(4 * p + k, 4 * w, q, 4 * m + k);
    vstd::arithmetic::div_mod::lemma_fundamental_div_mod_converse(4 * m + k, 4, m, k);
}

/// Law: neutral chroma gives grey. When both chroma samples of a converted pixel sit at
/// the chroma bias, the YCbCr conversion gives it equal red, green and blue, and the same
/// pixel for any chroma coefficients (only the luma scale counts).
pub proof fn lemma_neutral_chroma_grey(
    old: Seq<u8>,
    img: PlanesView,
    siting: ChromaSiting,
    ncols: int,
    bias_y: int,
    bias_uv: int,
    t: CbCrInverseTransform,
    t2: CbCrInverseTransform,
    p: int,
)
    requires
        img.width > 0,
        0 <= p,
        p / img.width < img.height,
        p % img.width < ncols,
        u_sample(img, siting, p / img.width, p % img.width) == bias_uv,
        v_sample(img, siting, p / img.width, p % img.width) == bias_uv,
        t2.y_coef == t.y_coef,
    ensures
        converted_byte(old, img, siting, PixelRule::YCbCr, ncols, bias_y, bias_uv, t, 4 * p)
            == converted_byte(old, img, siting, PixelRule::YCbCr, ncols, bias_y, bias_uv, t, 4 * p + 1),
        converted_byte(old, img, siting, PixelRule::YCbCr, ncols, bias_y, bias_uv, t, 4 * p)
            == converted_byte(old, img, siting, PixelRule::YCbCr, ncols, bias_y, bias_uv, t, 4 * p + 2),
        forall|k: int|
            0 <= k < 4 ==> #[trigger] converted_byte(
                old,
                img,
                siting,
                PixelRule::YCbCr,
                ncols,
                bias_y,
                bias_uv,
                t,
                4 * p + k,
            ) == converted_byte(old, img, siting, PixelRule::YCbCr, ncols, bias_y, bias_uv, t2, 4 * p + k),
{
    let w = img.width;
    assert(t.cr_coef * (bias_uv - bias_uv) == 0);
    assert(t.cb_coef * (bias_uv - bias_uv) == 0);
    assert(t.g_coeff_1 * (bias_uv - bias_uv) == 0);
    assert(t.g_coeff_2 * (bias_uv - bias_uv) == 0);
    assert(t2.cr_coef * (bias_uv - bias_uv) == 0);
    assert(t2.cb_coef * (bias_uv - bias_uv) == 0);
    assert(t2.g_coeff_1 * (bias_uv - bias_uv) == 0);
    assert(t2.g_coeff_2 * (bias_uv - bias_uv) == 0);
    assert forall|k: int| 0 <= k < 4 implies #[trigger] converted_byte(
        old,
        img,
        siting,
        PixelRule::YCbCr,
        ncols,
        bias_y,
        bias_uv,
        t,
        4 * p + k,
    ) == converted_byte(old, img, siting, PixelRule::YCbCr, ncols, bias_y, bias_uv, t2, 4 * p + k) by {
        lemma_pixel_byte(w, p, k);
    }
    lemma_pixel_byte(w, p, 0);
    lemma_pixel_byte(w, p, 1);
    lemma_pixel_byte(w, p, 2);
}

/// Converts one YCbCr sample (biases already removed) to RGBA.
fn ycbcr_execute(y_value: i32, cb: i32, cr: i32, t: &CbCrInverseTransform) -> (px: (u8, u8, u8, u8))
    requires
        -255 <= y_value <= 255,
        -255 <= cb <= 255,
        -255 <= cr <= 255,
        t.bounded(),
    ensures
        px.0 as int == q13(y_value * t.y_coef + t.cr_coef * cr),
        px.1 as int == q13(y_value * t.y_coef - t.g_coeff_1 * cr - t.g_coeff_2 * cb),
        px.2 as int == q13(y_value * t.y_coef + t.cb_coef * cb),
        px.3 == 255,
{
    proof {
        lemma_small_product(y_value as int, t.y_coef as int);
        lemma_small_product(cr as int, t.cr_coef as int);
        lemma_small_product(cb as int, t.cb_coef as int);
        lemma_small_product(cr as int, t.g_coeff_1 as int);
        lemma_small_product(cb as int, t.g_coeff_2 as int);
        lemma_pow2_4096();
    }
    let y_scaled = y_value * t.y_coef;
    let r = qrshr(y_scaled + t.cr_coef * cr, 13, 8);
    let b = qrshr(y_scaled + t.cb_coef * cb, 13, 8);
    let g = qrshr(y_scaled - t.g_coeff_1 * cr - t.g_coeff_2 * cb, 13, 8);
    proof {
        lemma_pow2_8();
    }
    (r as u8, g as u8, b as u8, 255)
}

/// Computes the YCgCo inverse in limited range (biases already removed).
fn ycgco_execute_limited(y_value: i32, cg: i32, co: i32, scale: i32) -> (px: (u8, u8, u8, u8))
    requires
        -255 <= y_value <= 255,
        -255 <= cg <= 255,
        -255 <= co <= 255,
        coef_ok(scale),
    ensures
        px.0 as int == q13((y_value - cg + co) * scale),
        px.1 as int == q13((y_value + cg) * scale),
        px.2 as int == q13((y_value - cg - co) * scale),
        px.3 == 255,
{
    let t0 = y_value - cg;
    proof {
        lemma_small_product3((t0 + co) as int, scale as int);
        lemma_small_product3((t0 - co) as int, scale as int);
        lemma_small_product3((y_value + cg) as int, scale as int);
        lemma_pow2_4096();
    }
    let r = qrshr((t0 + co) * scale, 13, 8);
    let b = qrshr((t0 - co) * scale, 13, 8);
    let g = qrshr((y_value + cg) * scale, 13, 8);
    proof {
        lemma_pow2_8();
    }
    (r as u8, g as u8, b as u8, 255)
}

/// Computes the YCgCo inverse in full range (biases already removed).
fn ycgco_execute_full(y_value: i32, cg: i32, co: i32) -> (px: (u8, u8, u8, u8))
    requires
        -255 <= y_value <= 255,
        -255 <= cg <= 255,
        -255 <= co <= 255,
    ensures
        (px.0 as int, px.1 as int, px.2 as int, px.3 as int) == ycgco_full_rgba(
            y_value as int,
            cg as int,
            co as int,
        ),
{
    let t0 = y_value - cg;
    let max_value: i32 = 255;
    let r = clamp_i32(t0 + co, max_value);
    let b = clamp_i32(t0 - co, max_value);
    let g = clamp_i32(y_value + cg, max_value);
    (r as u8, g as u8, b as u8, 255)
}

fn clamp_i32(v: i32, max_value: i32) -> (r: i32)
    requires
        0 <= max_value,
    ensures
        r as int == clamp_spec(v as int, 0, max_value as int),
{
    if v < 0 {
        0
    } else if v > max_value {
        max_value
    } else {
        v
    }
}

proof fn lemma_small_product(a: int, b: int)
    requires
        -255 <= a <= 255,
        -65536 <= b <= 65536,
    ensures
        -16711680 <= a * b <= 16711680,
{
    assert(-16711680 <= a * b <= 16711680) by (nonlinear_arith)
        requires
            -255 <= a <= 255,
            -65536 <= b <= 65536,
    ;
}

proof fn lemma_small_product3(a: int, b: int)
    requires
        -765 <= a <= 765,
        -65536 <= b <= 65536,
    ensures
        -50135040 <= a * b <= 50135040,
{
    assert(-50135040 <= a * b <= 50135040) by (nonlinear_arith)
        requires
            -765 <= a <= 765,
            -65536 <= b <= 65536,
    ;
}

proof fn lemma_pow2_4096()
    ensures
        pow2(12) == 4096,
        pow2(13) == 8192,
        pow2(10) == 1024,
        pow2(11) == 2048,
{
    lemma2_to64();
}

proof fn lemma_pow2_8()
    ensures
        pow2(8) == 256,
{
    lemma2_to64();
}

} // verus!

verus! {

/// Number of chroma rows that a plane of `height` luma rows carries.
pub open spec fn chroma_rows(siting: ChromaSiting, height: int) -> int {
    match siting {
        ChromaSiting::HalfWidthHeight => (height + 1) / 2,
        _ => height,
    }
}

/// Whether `rule` goes through the fixed-point coefficients.
pub open spec fn uses_coefs(rule: PixelRule) -> bool {
    match rule {
        PixelRule::Grey { limited } => limited,
        PixelRule::YCbCr => true,
        PixelRule::YCgCo { limited } => limited,
        PixelRule::Gbr { limited } => limited,
    }
}

/// Whether `rule` reads the chroma planes.
pub open spec fn reads_chroma(rule: PixelRule) -> bool {
    !(rule is Grey)
}

/// The planes hold every sample that converting `ncols` columns reads.
pub open spec fn planes_cover(img: PlanesView, siting: ChromaSiting, rule: PixelRule, ncols: int) -> bool {
    &&& img.y.len() == img.y_stride * img.height
    &&& ncols <= img.y_stride
    &&& reads_chroma(rule) ==> {
        &&& img.u.len() == img.u_stride * chroma_rows(siting, img.height)
        &&& img.v.len() == img.v_stride * chroma_rows(siting, img.height)
        &&& ncols > 0 ==> chroma_col(siting, ncols - 1) < img.u_stride
        &&& ncols > 0 ==> chroma_col(siting, ncols - 1) < img.v_stride
    }
}

proof fn lemma_row_index(r: int, c: int, s: int, n: int)
    requires
        0 <= r < n,
        0 <= c < s,
    ensures
        0 <= r * s,
        0 <= r * s + c < s * n,
{
    assert(0 <= r * s && r * s + c < s * n) by (nonlinear_arith)
        requires
            0 <= r < n,
            0 <= c < s,
    ;
}

proof fn lemma_out_index(w: int, r: int, c: int, k: int)
    requires
        w > 0,
        0 <= r,
        0 <= c < w,
        0 <= k < 4,
    ensures
        (r * (4 * w) + 4 * c + k) / (4 * w) == r,
        (r * (4 * w) + 4 * c + k) % (4 * w) == 4 * c + k,
        (4 * c + k) / 4 == c,
        (4 * c + k) % 4 == k,
{
    vstd::arithmetic::div_mod::lemma_fundamental_div_mod_converse(
        r * (4 * w) + 4 * c + k,
        4 * w,
        r,
        4 * c + k,
    );
    vstd::arithmetic::div_mod::lemma_fundamental_div_mod_converse(4 * c + k, 4, c, k);
}

proof fn lemma_row_tail(w: int, r: int, ncols: int, i: int)
    requires
        w > 0,
        0 <= r,
        0 <= ncols <= w,
        r * (4 * w) + 4 * ncols <= i < r * (4 * w) + 4 * w,
    ensures
        i / (4 * w) == r,
        (i % (4 * w)) / 4 >= ncols,
{
    let off = i - r * (4 * w);
    vstd::arithmetic::div_mod::lemma_fundamental_div_mod_converse(i, 4 * w, r, off);
    vstd::arithmetic::div_mod::lemma_fundamental_div_mod(off, 4);
    if off / 4 < ncols {
        assert(4 * (off / 4) <= 4 * ncols - 4) by (nonlinear_arith)
            requires
                off / 4 < ncols,
        ;
    }
}

proof fn lemma_next_row(r: int, rl: int, h: int)
    requires
        0 <= r < h,
        0 < rl,
    ensures
        (r + 1) * rl == r * rl + rl,
        r * rl + rl <= h * rl,
        0 <= r * rl,
{
    assert((r + 1) * rl == r * rl + rl && r * rl + rl <= h * rl && 0 <= r * rl) by (nonlinear_arith)
        requires
            0 <= r < h,
            0 < rl,
    ;
}

/// RGBA value of one sample triple under `rule`.
fn compute_sample(
    rule: PixelRule,
    yv: u8,
    uv: u8,
    vv: u8,
    bias_y: i32,
    bias_uv: i32,
    t: &CbCrInverseTransform,
) -> (px: (u8, u8, u8, u8))
    requires
        0 <= bias_y <= 255,
        0 <= bias_uv <= 255,
        uses_coefs(rule) ==> t.bounded(),
    ensures
        ({
            let e = sample_rgba(rule, yv as int, uv as int, vv as int, bias_y as int, bias_uv as int, *t);
            px.0 as int == e.0 && px.1 as int == e.1 && px.2 as int == e.2 && px.3 as int == e.3
        }),
{
    let y_value = yv as i32 - bias_y;
    let cb_value = uv as i32 - bias_uv;
    let cr_value = vv as i32 - bias_uv;
    proof {
        lemma_pow2_4096();
        lemma_pow2_8();
    }
    match rule {
        PixelRule::Grey { limited } => {
            if limited {
                proof {
                    lemma_small_product(y_value as int, t.y_coef as int);
                }
                let g = qrshr(y_value * t.y_coef, 11, 8) as u8;
                (g, g, g, 255)
            } else {
                (yv, yv, yv, 255)
            }
        },
        PixelRule::YCbCr => ycbcr_execute(y_value, cb_value, cr_value, t),
        PixelRule::YCgCo { limited } => {
            if limited {
                ycgco_execute_limited(y_value, cb_value, cr_value, t.y_coef)
            } else {
                ycgco_execute_full(y_value, cb_value, cr_value)
            }
        },
        PixelRule::Gbr { limited } => {
            if limited {
                let v_value = vv as i32 - bias_y;
                let u_value = uv as i32 - bias_y;
                proof {
                    lemma_small_product(y_value as int, t.y_coef as int);
                    lemma_small_product(v_value as int, t.y_coef as int);
                    lemma_small_product(u_value as int, t.y_coef as int);
                }
                let r = qrshr(v_value * t.y_coef, 11, 8) as u8;
                let g = qrshr(y_value * t.y_coef, 11, 8) as u8;
                let b = qrshr(u_value * t.y_coef, 11, 8) as u8;
                (r, g, b, 255)
            } else {
                (vv, yv, uv, 255)
            }
        },
    }
}

/// Writes the first `ncols` pixels of every row of `image` into `rgba` under `rule`;
/// the remaining bytes of each row are left as they were.
#[verifier::loop_isolation(false)]
#[verifier::rlimit(40)]
fn convert_planes(
    image: &YuvPlanarImage,
    rgba: &mut [u8],
    siting: ChromaSiting,
    rule: PixelRule,
    ncols: usize,
    bias_y: i32,
    bias_uv: i32,
    t: &CbCrInverseTransform,
)
    requires
        image.width > 0,
        4 * image.width <= usize::MAX,
        ncols <= image.width,
        old(rgba)@.len() == 4 * image.width * image.height,
        planes_cover(image.planes(), siting, rule, ncols as int),
        0 <= bias_y <= 255,
        0 <= bias_uv <= 255,
        uses_coefs(rule) ==> t.bounded(),
    ensures
        final(rgba)@ == converted(
            old(rgba)@,
            image.planes(),
            siting,
            rule,
            ncols as int,
            bias_y as int,
            bias_uv as int,
            *t,
        ),
{
    let ghost old_rgba = rgba@;
    let ghost img = image.planes();
    let ghost w = image.width as int;
    let ghost h = image.height as int;
    let row_len: usize = 4 * image.width;
    let height = image.height;
    let total_len = rgba.len();
    let y_len = image.y_plane.len();
    let u_len = image.u_plane.len();
    let v_len = image.v_plane.len();
    assert(old_rgba.len() == h * (4 * w)) by (nonlinear_arith)
        requires
            old_rgba.len() == 4 * w * h,
    ;
    let mut r: usize = 0;
    while r < height
        invariant
            r <= height,
            rgba@.len() == old_rgba.len(),
            forall|i: int|
                0 <= i < r * (4 * w) ==> #[trigger] rgba@[i] == converted_byte(
                    old_rgba,
                    img,
                    siting,
                    rule,
                    ncols as int,
                    bias_y as int,
                    bias_uv as int,
                    *t,
                    i,
                ),
            forall|i: int| r * (4 * w) <= i < old_rgba.len() ==> #[trigger] rgba@[i] == old_rgba[i],
        decreases height - r,
    {
        proof {
            lemma_next_row(r as int, 4 * w, h);
        }
        let row_base: usize = r * row_len;
        let cr_row: usize = match siting {
            ChromaSiting::HalfWidthHeight => r / 2,
            _ => r,
        };
        let mut c: usize = 0;
        while c < ncols
            invariant
                c <= ncols,
                row_base == r * (4 * w),
                cr_row == chroma_row(siting, r as int),
                rgba@.len() == old_rgba.len(),
                forall|i: int|
                    0 <= i < row_base + 4 * c ==> #[trigger] rgba@[i] == converted_byte(
                        old_rgba,
                        img,
                        siting,
                        rule,
                        ncols as int,
                        bias_y as int,
                        bias_uv as int,
                        *t,
                        i,
                    ),
                forall|i: int| row_base + 4 * c <= i < old_rgba.len() ==> #[trigger] rgba@[i] == old_rgba[i],
            decreases ncols - c,
        {
            proof {
                lemma_row_index(r as int, c as int, image.y_stride as int, h);
            }
            let y_idx: usize = r * image.y_stride + c;
            let yv = image.y_plane[y_idx];
            let (uv, vv) = if matches!(rule, PixelRule::Grey { .. }) {
                (0u8, 0u8)
            } else {
                let cr_col: usize = match siting {
                    ChromaSiting::Full => c,
                    _ => c / 2,
                };
                proof {
                    lemma_row_index(cr_row as int, cr_col as int, image.u_stride as int, chroma_rows(siting, h));
                    lemma_row_index(cr_row as int, cr_col as int, image.v_stride as int, chroma_rows(siting, h));
                }
                let u_idx: usize = cr_row * image.u_stride + cr_col;
                let v_idx: usize = cr_row * image.v_stride + cr_col;
                (image.u_plane[u_idx], image.v_plane[v_idx])
            };
            let px = compute_sample(rule, yv, uv, vv, bias_y, bias_uv, t);
            proof {
                lemma_out_index(w, r as int, c as int, 3);
            }
            let base: usize = row_base + 4 * c;
            rgba[base] = px.0;
            rgba[base + 1] = px.1;
            rgba[base + 2] = px.2;
            rgba[base + 3] = px.3;
            proof {
                assert forall|k: int| 0 <= k < 4 implies #[trigger] rgba@[base + k] == converted_byte(
                    old_rgba,
                    img,
                    siting,
                    rule,
                    ncols as int,
                    bias_y as int,
                    bias_uv as int,
                    *t,
                    base + k,
                ) by {
                    lemma_out_index(w, r as int, c as int, k);
                }
                assert forall|i: int| 0 <= i < row_base + 4 * (c + 1) implies #[trigger] rgba@[i] == converted_byte(
                    old_rgba,
                    img,
                    siting,
                    rule,
                    ncols as int,
                    bias_y as int,
                    bias_uv as int,
                    *t,
                    i,
                ) by {
                    if i >= base {
                        assert(rgba@[base + (i - base)] == rgba@[i]);
                    }
                }
            }
            c = c + 1;
        }
        proof {
            assert forall|i: int| 0 <= i < (r + 1) * (4 * w) implies #[trigger] rgba@[i] == converted_byte(
                old_rgba,
                img,
                siting,
                rule,
                ncols as int,
                bias_y as int,
                bias_uv as int,
                *t,
                i,
            ) by {
                if i >= row_base + 4 * ncols {
                    lemma_row_tail(w, r as int, ncols as int, i);
                }
            }
        }
        r = r + 1;
    }
    proof {
        assert forall|i: int| 0 <= i < old_rgba.len() implies #[trigger] rgba@[i] == converted_byte(
            old_rgba,
            img,
            siting,
            rule,
            ncols as int,
            bias_y as int,
            bias_uv as int,
            *t,
            i,
        ) by {}
        assert(rgba@ =~= converted(
            old_rgba,
            img,
            siting,
            rule,
            ncols as int,
            bias_y as int,
            bias_uv as int,
            *t,
        ));
    }
}

} // verus!

verus! {

/// Which plane a size check is about.
#[derive(Copy, Clone, Debug)]
pub enum PlaneDefinition {
    Y,
    U,
    V,
}

/// Fails unless `plane` holds exactly `height` rows of `stride` samples.
pub fn check_yuv_plane_preconditions(
    plane: &[u8],
    plane_definition: PlaneDefinition,
    stride: usize,
    height: usize,
) -> (r: Result<(), ()>)
    requires
        stride * height <= usize::MAX,
    ensures
        r is Ok <==> plane@.len() == stride * height,
{
    if plane.len() != stride * height {
        return Err(());
    }
    Ok(())
}

/// Fails unless `rgb_data` holds exactly `height` rows of `stride` bytes.
pub fn check_rgb_preconditions(rgb_data: &[u8], stride: usize, height: usize) -> (r: Result<(), ()>)
    requires
        stride * height <= usize::MAX,
    ensures
        r is Ok <==> rgb_data@.len() == stride * height,
{
    if rgb_data.len() != stride * height {
        return Err(());
    }
    Ok(())
}

/// Luma offset of 8-bit samples in `range`.
pub open spec fn luma_bias(range: YuvIntensityRange) -> int {
    match range {
        YuvIntensityRange::Tv => 16,
        YuvIntensityRange::Pc => 0,
    }
}

/// Chroma offset of 8-bit samples.
pub open spec fn chroma_bias() -> int {
    128
}

pub open spec fn min_int(a: int, b: int) -> int {
    if a <= b {
        a
    } else {
        b
    }
}

/// Columns that a full-resolution conversion fills in each row: rows are zipped sample by
/// sample, so the shortest of the RGBA row and the three plane strides decides.
pub open spec fn full_chroma_cols(img: PlanesView) -> int {
    min_int(min_int(img.width, img.y_stride), min_int(img.u_stride, img.v_stride))
}

/// The size checks of a three-plane conversion pass, with `chroma_height` chroma rows.
pub open spec fn planes_match(img: PlanesView, rgba_len: int, chroma_height: int) -> bool {
    &&& img.y.len() == img.y_stride * img.height
    &&& img.u.len() == img.u_stride * chroma_height
    &&& img.v.len() == img.v_stride * chroma_height
    &&& rgba_len == 4 * img.width * img.height
}

/// The products that the size checks compute fit in `usize`.
pub open spec fn sizes_fit(img: PlanesView, chroma_height: int) -> bool {
    &&& img.y_stride * img.height <= usize::MAX
    &&& img.u_stride * chroma_height <= usize::MAX
    &&& img.v_stride * chroma_height <= usize::MAX
    &&& 4 * img.width <= usize::MAX
    &&& 4 * img.width * img.height <= usize::MAX
}

/// Strides and width are positive, as splitting rows into chunks demands.
pub open spec fn strides_positive(img: PlanesView) -> bool {
    img.y_stride > 0 && img.u_stride > 0 && img.v_stride > 0 && img.width > 0
}

/// Every row is long enough for a half-width chroma conversion.
pub open spec fn rows_long_enough(img: PlanesView) -> bool {
    img.height > 0 ==> {
        &&& img.y_stride >= img.width
        &&& img.u_stride >= (img.width + 1) / 2
        &&& img.v_stride >= (img.width + 1) / 2
    }
}

proof fn lemma_range_8(range: YuvIntensityRange, r: YuvChromaRange)
    requires
        r.range == range,
        r.bias_uv == pow2(7),
        range is Tv ==> r.bias_y == 16 * pow2(0),
        range is Pc ==> r.bias_y == 0,
    ensures
        r.bias_y == luma_bias(range),
        r.bias_uv == chroma_bias(),
{
    lemma2_to64();
}

proof fn lemma_len_product(w: int, h: int)
    requires
        0 <= w,
        0 <= h,
    ensures
        4 * w * h == 4 * (w * h),
        h == 0 ==> 4 * w * h == 0,
{
    assert(4 * w * h == 4 * (w * h)) by (nonlinear_arith);
    assert(h == 0 ==> 4 * w * h == 0) by (nonlinear_arith);
}

/// Converts YUV 4:0:0 (luma only) to RGBA; the chroma planes are not read.
pub fn yuv400_to_rgba8(
    image: YuvPlanarImage,
    rgba: &mut [u8],
    range: YuvIntensityRange,
    transform: &CbCrInverseTransform,
) -> (res: Result<(), ()>)
    requires
        image.y_stride * image.height <= usize::MAX,
        4 * image.width <= usize::MAX,
        4 * image.width * image.height <= usize::MAX,
        image.y_plane@.len() == image.y_stride * image.height && old(rgba)@.len() == 4
            * image.width * image.height ==> image.y_stride > 0 && image.width > 0,
        range is Tv ==> transform.bounded(),
    ensures
        res is Ok <==> (image.y_plane@.len() == image.y_stride * image.height && old(rgba)@.len()
            == 4 * image.width * image.height),
        res is Err ==> final(rgba)@ == old(rgba)@,
        res is Ok ==> final(rgba)@ == converted(
            old(rgba)@,
            image.planes(),
            ChromaSiting::Full,
            PixelRule::Grey { limited: range is Tv },
            min_int(image.width as int, image.y_stride as int),
            luma_bias(range),
            chroma_bias(),
            *transform,
        ),
{
    let y_plane = image.y_plane;
    let y_stride = image.y_stride;
    let height = image.height;
    let width = image.width;
    check_yuv_plane_preconditions(y_plane, PlaneDefinition::Y, y_stride, height)?;
    check_rgb_preconditions(rgba, width * 4, height)?;
    let ncols = if width < y_stride {
        width
    } else {
        y_stride
    };
    let yuv_range = range.get_yuv_range(8);
    proof {
        lemma_range_8(range, yuv_range);
    }
    let rule = PixelRule::Grey { limited: range == YuvIntensityRange::Tv };
    convert_planes(
        &image,
        rgba,
        ChromaSiting::Full,
        rule,
        ncols,
        yuv_range.bias_y as i32,
        yuv_range.bias_uv as i32,
        transform,
    );
    Ok(())
}

} // verus!

verus! {

/// Shared body of the full-resolution (4:4:4) conversions.
fn full_chroma_to_rgba8(
    image: &YuvPlanarImage,
    rgba: &mut [u8],
    range: YuvIntensityRange,
    rule: PixelRule,
    transform: &CbCrInverseTransform,
) -> (res: Result<(), ()>)
    requires
        sizes_fit(image.planes(), image.height as int),
        planes_match(image.planes(), old(rgba)@.len() as int, image.height as int) ==> strides_positive(
            image.planes(),
        ),
        uses_coefs(rule) ==> transform.bounded(),
    ensures
        res is Ok <==> planes_match(image.planes(), old(rgba)@.len() as int, image.height as int),
        res is Err ==> final(rgba)@ == old(rgba)@,
        res is Ok ==> final(rgba)@ == converted(
            old(rgba)@,
            image.planes(),
            ChromaSiting::Full,
            rule,
            full_chroma_cols(image.planes()),
            luma_bias(range),
            chroma_bias(),
            *transform,
        ),
{
    let y_plane = image.y_plane;
    let u_plane = image.u_plane;
    let v_plane = image.v_plane;
    let y_stride = image.y_stride;
    let u_stride = image.u_stride;
    let v_stride = image.v_stride;
    let height = image.height;
    let width = image.width;

    check_yuv_plane_preconditions(y_plane, PlaneDefinition::Y, y_stride, height)?;
    check_yuv_plane_preconditions(u_plane, PlaneDefinition::U, u_stride, height)?;
    check_yuv_plane_preconditions(v_plane, PlaneDefinition::V, v_stride, height)?;
    check_rgb_preconditions(rgba, width * 4, height)?;

    let range_values = range.get_yuv_range(8);
    proof {
        lemma_range_8(range, range_values);
    }
    let mut ncols = if width < y_stride {
        width
    } else {
        y_stride
    };
    let chroma_cols = if u_stride < v_stride {
        u_stride
    } else {
        v_stride
    };
    if chroma_cols < ncols {
        ncols = chroma_cols;
    }
    convert_planes(
        image,
        rgba,
        ChromaSiting::Full,
        rule,
        ncols,
        range_values.bias_y as i32,
        range_values.bias_uv as i32,
        transform,
    );
    Ok(())
}

/// Converts YUV 4:4:4 to RGBA through the fixed-point inverse transform.
pub fn yuv444_to_rgba8(
    image: YuvPlanarImage,
    rgba: &mut [u8],
    range: YuvIntensityRange,
    transform: &CbCrInverseTransform,
) -> (res: Result<(), ()>)
    requires
        sizes_fit(image.planes(), image.height as int),
        planes_match(image.planes(), old(rgba)@.len() as int, image.height as int) ==> strides_positive(
            image.planes(),
        ),
        transform.bounded(),
    ensures
        res is Ok <==> planes_match(image.planes(), old(rgba)@.len() as int, image.height as int),
        res is Err ==> final(rgba)@ == old(rgba)@,
        res is Ok ==> final(rgba)@ == converted(
            old(rgba)@,
            image.planes(),
            ChromaSiting::Full,
            PixelRule::YCbCr,
            full_chroma_cols(image.planes()),
            luma_bias(range),
            chroma_bias(),
            *transform,
        ),
{
    full_chroma_to_rgba8(&image, rgba, range, PixelRule::YCbCr, transform)
}

/// Converts YCgCo 4:4:4 to RGBA: limited range rescales by `transform.y_coef`,
/// full range clamps directly.
pub fn ycgco444_to_rgba8(
    image: YuvPlanarImage,
    rgba: &mut [u8],
    range: YuvIntensityRange,
    transform: &CbCrInverseTransform,
) -> (res: Result<(), ()>)
    requires
        sizes_fit(image.planes(), image.height as int),
        planes_match(image.planes(), old(rgba)@.len() as int, image.height as int) ==> strides_positive(
            image.planes(),
        ),
        range is Tv ==> transform.bounded(),
    ensures
        res is Ok <==> planes_match(image.planes(), old(rgba)@.len() as int, image.height as int),
        res is Err ==> final(rgba)@ == old(rgba)@,
        res is Ok ==> final(rgba)@ == converted(
            old(rgba)@,
            image.planes(),
            ChromaSiting::Full,
            PixelRule::YCgCo { limited: range is Tv },
            full_chroma_cols(image.planes()),
            luma_bias(range),
            chroma_bias(),
            *transform,
        ),
{
    let rule = PixelRule::YCgCo { limited: range == YuvIntensityRange::Tv };
    full_chroma_to_rgba8(&image, rgba, range, rule, transform)
}

/// Converts planes holding G, B and R (identity matrix) to RGBA: limited range rescales
/// by `transform.y_coef`, full range copies.
pub fn gbr_to_rgba8(
    image: YuvPlanarImage,
    rgb: &mut [u8],
    range: YuvIntensityRange,
    transform: &CbCrInverseTransform,
) -> (res: Result<(), ()>)
    requires
        sizes_fit(image.planes(), image.height as int),
        planes_match(image.planes(), old(rgb)@.len() as int, image.height as int) ==> strides_positive(
            image.planes(),
        ),
        range is Tv ==> transform.bounded(),
    ensures
        res is Ok <==> planes_match(image.planes(), old(rgb)@.len() as int, image.height as int),
        res is Err ==> final(rgb)@ == old(rgb)@,
        res is Ok ==> final(rgb)@ == converted(
            old(rgb)@,
            image.planes(),
            ChromaSiting::Full,
            PixelRule::Gbr { limited: range is Tv },
            full_chroma_cols(image.planes()),
            luma_bias(range),
            chroma_bias(),
            *transform,
        ),
{
    let rule = PixelRule::Gbr { limited: range == YuvIntensityRange::Tv };
    full_chroma_to_rgba8(&image, rgb, range, rule, transform)
}

/// The rules that a half-width chroma row worker applies.
pub open spec fn halved_rule(rule: PixelRule) -> bool {
    rule is YCbCr || rule == (PixelRule::YCgCo { limited: true })
}

/// Converts 4:2:0 planes: each chroma sample covers a 2x2 block of luma samples.
pub fn yuv420_to_rgbx_invoker(
    image: YuvPlanarImage,
    rgb: &mut [u8],
    range: YuvIntensityRange,
    transform: &CbCrInverseTransform,
    rule: PixelRule,
) -> (res: Result<(), ()>)
    requires
        halved_rule(rule),
        sizes_fit(image.planes(), (image.height + 1) / 2),
        planes_match(image.planes(), old(rgb)@.len() as int, (image.height + 1) / 2) ==> {
            &&& strides_positive(image.planes())
            &&& 2 * image.y_stride <= usize::MAX
            &&& 8 * image.width <= usize::MAX
            &&& rows_long_enough(image.planes())
        },
        transform.bounded(),
    ensures
        res is Ok <==> planes_match(image.planes(), old(rgb)@.len() as int, (image.height + 1) / 2),
        res is Err ==> final(rgb)@ == old(rgb)@,
        res is Ok ==> final(rgb)@ == converted(
            old(rgb)@,
            image.planes(),
            ChromaSiting::HalfWidthHeight,
            rule,
            image.width as int,
            luma_bias(range),
            chroma_bias(),
            *transform,
        ),
{
    let y_plane = image.y_plane;
    let u_plane = image.u_plane;
    let v_plane = image.v_plane;
    let y_stride = image.y_stride;
    let u_stride = image.u_stride;
    let v_stride = image.v_stride;
    let chroma_height = image.height / 2 + image.height % 2;
    assert(chroma_height == (image.height + 1) / 2);

    check_yuv_plane_preconditions(y_plane, PlaneDefinition::Y, y_stride, image.height)?;
    check_yuv_plane_preconditions(u_plane, PlaneDefinition::U, u_stride, chroma_height)?;
    check_yuv_plane_preconditions(v_plane, PlaneDefinition::V, v_stride, chroma_height)?;
    check_rgb_preconditions(rgb, image.width * 4, image.height)?;

    let range_values = range.get_yuv_range(8);
    proof {
        lemma_range_8(range, range_values);
        lemma_len_product(image.width as int, image.height as int);
    }
    if image.height == 0 {
        assert(rgb@ =~= converted(
            rgb@,
            image.planes(),
            ChromaSiting::HalfWidthHeight,
            rule,
            image.width as int,
            luma_bias(range),
            chroma_bias(),
            *transform,
        ));
        return Ok(());
    }
    convert_planes(
        &image,
        rgb,
        ChromaSiting::HalfWidthHeight,
        rule,
        image.width,
        range_values.bias_y as i32,
        range_values.bias_uv as i32,
        transform,
    );
    Ok(())
}

/// Converts 4:2:2 planes: each chroma sample covers two horizontally adjacent luma samples.
pub fn yuv422_to_rgbx_invoker(
    image: YuvPlanarImage,
    rgb: &mut [u8],
    range: YuvIntensityRange,
    transform: &CbCrInverseTransform,
    rule: PixelRule,
) -> (res: Result<(), ()>)
    requires
        halved_rule(rule),
        sizes_fit(image.planes(), image.height as int),
        planes_match(image.planes(), old(rgb)@.len() as int, image.height as int) ==> {
            &&& strides_positive(image.planes())
            &&& rows_long_enough(image.planes())
        },
        transform.bounded(),
    ensures
        res is Ok <==> planes_match(image.planes(), old(rgb)@.len() as int, image.height as int),
        res is Err ==> final(rgb)@ == old(rgb)@,
        res is Ok ==> final(rgb)@ == converted(
            old(rgb)@,
            image.planes(),
            ChromaSiting::HalfWidth,
            rule,
            image.width as int,
            luma_bias(range),
            chroma_bias(),
            *transform,
        ),
{
    let y_plane = image.y_plane;
    let u_plane = image.u_plane;
    let v_plane = image.v_plane;
    let y_stride = image.y_stride;
    let u_stride = image.u_stride;
    let v_stride = image.v_stride;

    check_yuv_plane_preconditions(y_plane, PlaneDefinition::Y, y_stride, image.height)?;
    check_yuv_plane_preconditions(u_plane, PlaneDefinition::U, u_stride, image.height)?;
    check_yuv_plane_preconditions(v_plane, PlaneDefinition::V, v_stride, image.height)?;
    check_rgb_preconditions(rgb, image.width * 4, image.height)?;

    let range_values = range.get_yuv_range(8);
    proof {
        lemma_range_8(range, range_values);
        lemma_len_product(image.width as int, image.height as int);
    }
    if image.height == 0 {
        assert(rgb@ =~= converted(
            rgb@,
            image.planes(),
            ChromaSiting::HalfWidth,
            rule,
            image.width as int,
            luma_bias(range),
            chroma_bias(),
            *transform,
        ));
        return Ok(());
    }
    convert_planes(
        &image,
        rgb,
        ChromaSiting::HalfWidth,
        rule,
        image.width,
        range_values.bias_y as i32,
        range_values.bias_uv as i32,
        transform,
    );
    Ok(())
}

} // verus!

verus! {

/// Converts YUV 4:2:0 to RGBA through the fixed-point inverse transform.
pub fn yuv420_to_rgba8(
    image: YuvPlanarImage,
    rgb: &mut [u8],
    range: YuvIntensityRange,
    transform: &CbCrInverseTransform,
) -> (res: Result<(), ()>)
    requires
        sizes_fit(image.planes(), (image.height + 1) / 2),
        planes_match(image.planes(), old(rgb)@.len() as int, (image.height + 1) / 2)
            ==> half_height_no_panic(image.planes()),
        transform.bounded(),
    ensures
        res is Ok <==> planes_match(image.planes(), old(rgb)@.len() as int, (image.height + 1) / 2),
        res is Err ==> final(rgb)@ == old(rgb)@,
        res is Ok ==> final(rgb)@ == converted(
            old(rgb)@,
            image.planes(),
            ChromaSiting::HalfWidthHeight,
            PixelRule::YCbCr,
            image.width as int,
            luma_bias(range),
            chroma_bias(),
            *transform,
        ),
{
    yuv420_to_rgbx_invoker(image, rgb, range, transform, PixelRule::YCbCr)
}

/// Converts YUV 4:2:2 to RGBA through the fixed-point inverse transform.
pub fn yuv422_to_rgba8(
    image: YuvPlanarImage,
    rgb: &mut [u8],
    range: YuvIntensityRange,
    transform: &CbCrInverseTransform,
) -> (res: Result<(), ()>)
    requires
        sizes_fit(image.planes(), image.height as int),
        planes_match(image.planes(), old(rgb)@.len() as int, image.height as int) ==> half_width_no_panic(
            image.planes(),
        ),
        transform.bounded(),
    ensures
        res is Ok <==> planes_match(image.planes(), old(rgb)@.len() as int, image.height as int),
        res is Err ==> final(rgb)@ == old(rgb)@,
        res is Ok ==> final(rgb)@ == converted(
            old(rgb)@,
            image.planes(),
            ChromaSiting::HalfWidth,
            PixelRule::YCbCr,
            image.width as int,
            luma_bias(range),
            chroma_bias(),
            *transform,
        ),
{
    yuv422_to_rgbx_invoker(image, rgb, range, transform, PixelRule::YCbCr)
}

/// Converts YCgCo 4:2:0 to RGBA, rescaling by `transform.y_coef` in either range.
pub fn ycgco420_to_rgba8(
    image: YuvPlanarImage,
    rgb: &mut [u8],
    range: YuvIntensityRange,
    transform: &CbCrInverseTransform,
) -> (res: Result<(), ()>)
    requires
        sizes_fit(image.planes(), (image.height + 1) / 2),
        planes_match(image.planes(), old(rgb)@.len() as int, (image.height + 1) / 2)
            ==> half_height_no_panic(image.planes()),
        transform.bounded(),
    ensures
        res is Ok <==> planes_match(image.planes(), old(rgb)@.len() as int, (image.height + 1) / 2),
        res is Err ==> final(rgb)@ == old(rgb)@,
        res is Ok ==> final(rgb)@ == converted(
            old(rgb)@,
            image.planes(),
            ChromaSiting::HalfWidthHeight,
            PixelRule::YCgCo { limited: true },
            image.width as int,
            luma_bias(range),
            chroma_bias(),
            *transform,
        ),
{
    yuv420_to_rgbx_invoker(image, rgb, range, transform, PixelRule::YCgCo { limited: true })
}

/// Converts YCgCo 4:2:2 to RGBA, rescaling by `transform.y_coef` in either range.
pub fn ycgco422_to_rgba8(
    image: YuvPlanarImage,
    rgb: &mut [u8],
    range: YuvIntensityRange,
    transform: &CbCrInverseTransform,
) -> (res: Result<(), ()>)
    requires
        sizes_fit(image.planes(), image.height as int),
        planes_match(image.planes(), old(rgb)@.len() as int, image.height as int) ==> half_width_no_panic(
            image.planes(),
        ),
        transform.bounded(),
    ensures
        res is Ok <==> planes_match(image.planes(), old(rgb)@.len() as int, image.height as int),
        res is Err ==> final(rgb)@ == old(rgb)@,
        res is Ok ==> final(rgb)@ == converted(
            old(rgb)@,
            image.planes(),
            ChromaSiting::HalfWidth,
            PixelRule::YCgCo { limited: true },
            image.width as int,
            luma_bias(range),
            chroma_bias(),
            *transform,
        ),
{
    yuv422_to_rgbx_invoker(image, rgb, range, transform, PixelRule::YCgCo { limited: true })
}

/// 4:2:0 conversion does not panic once its size checks pass.
pub open spec fn half_height_no_panic(img: PlanesView) -> bool {
    &&& strides_positive(img)
    &&& 2 * img.y_stride <= usize::MAX
    &&& 8 * img.width <= usize::MAX
    &&& rows_long_enough(img)
}

/// 4:2:2 conversion does not panic once its size checks pass.
pub open spec fn half_width_no_panic(img: PlanesView) -> bool {
    &&& strides_positive(img)
    &&& rows_long_enough(img)
}

/// Standard prebuilt YUV conversion matrices.
#[derive(Debug, Copy, Clone, PartialEq, Eq, PartialOrd, Structural)]
pub enum YuvStandardMatrix {
    Bt601,
    Bt709,
    Bt2020,
    Smpte240,
    Bt470_6,
}

/// How the samples of a frame are turned into RGB.
#[derive(Debug, Copy, Clone, PartialEq, Eq, PartialOrd, Structural)]
pub enum YuvMatrixStrategy {
    KrKb(YuvStandardMatrix),
    CgCo,
    Identity,
}

/// Matrix coefficients that an AV1 sequence header signals.
#[derive(Debug, Copy, Clone, PartialEq, Eq, Structural)]
pub enum MatrixCoefficients {
    Identity,
    BT709,
    Unspecified,
    Reserved,
    BT470M,
    BT470BG,
    ST170M,
    ST240M,
    YCgCo,
    BT2020NonConstantLuminance,
    BT2020ConstantLuminance,
    ST2085,
    ChromaticityDerivedNonConstantLuminance,
    ChromaticityDerivedConstantLuminance,
    ICtCp,
}

/// Chroma subsampling of a decoded picture.
#[derive(Debug, Copy, Clone, PartialEq, Eq, Structural)]
pub enum PixelLayout {
    I400,
    I420,
    I422,
    I444,
}

/// Sample range that a decoded picture signals.
#[derive(Debug, Copy, Clone, PartialEq, Eq, Structural)]
pub enum ColorRange {
    Limited,
    Full,
}

/// The conversion chosen for each signalled matrix; unsupported ones have none.
pub open spec fn spec_get_matrix(m: MatrixCoefficients) -> Result<YuvMatrixStrategy, ()> {
    match m {
        MatrixCoefficients::Identity => Ok(YuvMatrixStrategy::Identity),
        MatrixCoefficients::BT709 => Ok(YuvMatrixStrategy::KrKb(YuvStandardMatrix::Bt709)),
        MatrixCoefficients::Unspecified => Ok(YuvMatrixStrategy::KrKb(YuvStandardMatrix::Bt709)),
        MatrixCoefficients::BT470M => Ok(YuvMatrixStrategy::KrKb(YuvStandardMatrix::Bt470_6)),
        MatrixCoefficients::BT470BG => Ok(YuvMatrixStrategy::KrKb(YuvStandardMatrix::Bt601)),
        MatrixCoefficients::ST170M => Ok(YuvMatrixStrategy::KrKb(YuvStandardMatrix::Smpte240)),
        MatrixCoefficients::ST240M => Ok(YuvMatrixStrategy::KrKb(YuvStandardMatrix::Smpte240)),
        MatrixCoefficients::YCgCo => Ok(YuvMatrixStrategy::CgCo),
        MatrixCoefficients::BT2020NonConstantLuminance => Ok(
            YuvMatrixStrategy::KrKb(YuvStandardMatrix::Bt2020),
        ),
        _ => Err(()),
    }
}

/// Picks one of the prebuilt conversions for `david_matrix`, or fails for matrices
/// without one (reserved, constant-luminance, chromaticity-derived, ST 2085, ICtCp).
pub fn get_matrix(david_matrix: MatrixCoefficients) -> (r: Result<YuvMatrixStrategy, ()>)
    ensures
        r == spec_get_matrix(david_matrix),
{
    match david_matrix {
        MatrixCoefficients::Identity => Ok(YuvMatrixStrategy::Identity),
        MatrixCoefficients::BT709 => Ok(YuvMatrixStrategy::KrKb(YuvStandardMatrix::Bt709)),
        // Some applications prefer Bt.601 here; Bt.709 is the common choice for HD content.
        MatrixCoefficients::Unspecified => Ok(YuvMatrixStrategy::KrKb(YuvStandardMatrix::Bt709)),
        MatrixCoefficients::Reserved => Err(()),
        MatrixCoefficients::BT470M => Ok(YuvMatrixStrategy::KrKb(YuvStandardMatrix::Bt470_6)),
        MatrixCoefficients::BT470BG => Ok(YuvMatrixStrategy::KrKb(YuvStandardMatrix::Bt601)),
        MatrixCoefficients::ST170M => Ok(YuvMatrixStrategy::KrKb(YuvStandardMatrix::Smpte240)),
        MatrixCoefficients::ST240M => Ok(YuvMatrixStrategy::KrKb(YuvStandardMatrix::Smpte240)),
        MatrixCoefficients::YCgCo => Ok(YuvMatrixStrategy::CgCo),
        MatrixCoefficients::BT2020NonConstantLuminance => Ok(
            YuvMatrixStrategy::KrKb(YuvStandardMatrix::Bt2020),
        ),
        // Needs linearised values to compute Y; almost nowhere implemented.
        MatrixCoefficients::BT2020ConstantLuminance => Err(()),
        MatrixCoefficients::ST2085 => Err(()),
        MatrixCoefficients::ChromaticityDerivedConstantLuminance
        | MatrixCoefficients::ChromaticityDerivedNonConstantLuminance => Err(()),
        MatrixCoefficients::ICtCp => Err(()),
    }
}

pub open spec fn intensity_of(range: ColorRange) -> YuvIntensityRange {
    match range {
        ColorRange::Limited => YuvIntensityRange::Tv,
        ColorRange::Full => YuvIntensityRange::Pc,
    }
}

/// Siting of the chroma planes for `layout`.
pub open spec fn layout_siting(layout: PixelLayout) -> ChromaSiting {
    match layout {
        PixelLayout::I420 => ChromaSiting::HalfWidthHeight,
        PixelLayout::I422 => ChromaSiting::HalfWidth,
        _ => ChromaSiting::Full,
    }
}

/// Rule that the frame conversion applies for `strategy` on `layout`.
pub open spec fn frame_rule(strategy: YuvMatrixStrategy, range: YuvIntensityRange, layout: PixelLayout) -> PixelRule {
    match strategy {
        YuvMatrixStrategy::KrKb(_) => if layout is I400 {
            PixelRule::Grey { limited: range is Tv }
        } else {
            PixelRule::YCbCr
        },
        YuvMatrixStrategy::CgCo => if layout is I444 {
            PixelRule::YCgCo { limited: range is Tv }
        } else {
            PixelRule::YCgCo { limited: true }
        },
        YuvMatrixStrategy::Identity => PixelRule::Gbr { limited: range is Tv },
    }
}

/// Fixed-point precision, in bits, of the coefficients that `rule` scales by.
pub open spec fn rule_precision(rule: PixelRule) -> u32 {
    match rule {
        PixelRule::Grey { .. } => 11,
        PixelRule::YCbCr => 13,
        PixelRule::YCgCo { .. } => 13,
        PixelRule::Gbr { .. } => 11,
    }
}

/// The standard matrix whose Kr and Kb give the coefficients for `strategy`; YCgCo and
/// identity take Bt.709's luma scale.
pub open spec fn transform_matrix(strategy: YuvMatrixStrategy) -> YuvStandardMatrix {
    match strategy {
        YuvMatrixStrategy::KrKb(m) => m,
        _ => YuvStandardMatrix::Bt709,
    }
}

/// Law: the conversion for a `KrKb` strategy uses the Kr and Kb of the very matrix the
/// frame signals, whatever the layout; YCgCo and identity take Bt.709's luma scale.
pub proof fn lemma_transform_matrix_is_signalled(m: YuvStandardMatrix)
    ensures
        transform_matrix(YuvMatrixStrategy::KrKb(m)) == m,
        transform_matrix(YuvMatrixStrategy::CgCo) == YuvStandardMatrix::Bt709,
        transform_matrix(YuvMatrixStrategy::Identity) == YuvStandardMatrix::Bt709,
{
}

/// A rounding shift by `p` (11 or 13) bits undoes a scaling by `2^p` of a sample.
proof fn lemma_unit_scale_round_trip(y: int, p: nat)
    requires
        0 <= y <= 255,
        p == 11 || p == 13,
    ensures
        qrshr_spec(y * pow2(p), p, 8) == y,
{
    lemma2_to64();
    let d = pow2(p) as int;
    let h = pow2((p - 1) as nat) as int;
    assert(d == 2 * h);
    vstd::arithmetic::div_mod::lemma_fundamental_div_mod_converse(y * d + h, d, y, h);
}

/// Law: the precision chosen for a frame's conversion is the one its pixel rule shifts
/// by. With a luma coefficient of one unit at that precision (`2^precision`), no luma
/// bias and neutral chroma, every rule gives back the luma sample as the green channel,
/// for any strategy, range and layout.
pub proof fn lemma_precision_is_unit_scale(
    strategy: YuvMatrixStrategy,
    range: YuvIntensityRange,
    layout: PixelLayout,
    yv: int,
    bias_uv: int,
    t: CbCrInverseTransform,
)
    requires
        0 <= yv <= 255,
        t.y_coef == pow2(rule_precision(frame_rule(strategy, range, layout)) as nat),
    ensures
        sample_rgba(frame_rule(strategy, range, layout), yv, bias_uv, bias_uv, 0, bias_uv, t).1 == yv,
{
    let rule = frame_rule(strategy, range, layout);
    let p = rule_precision(rule) as nat;
    assert(t.g_coeff_1 * (bias_uv - bias_uv) == 0);
    assert(t.g_coeff_2 * (bias_uv - bias_uv) == 0);
    lemma_unit_scale_round_trip(yv, p);
    assert((yv - 0) * t.y_coef == yv * pow2(p));
    assert((yv - 0 + (bias_uv - bias_uv)) * t.y_coef == yv * pow2(p));
}

/// The standard matrix and the fixed-point precision of the coefficients that the frame
/// conversion for `strategy` on `layout` expects, whatever the range.
pub fn transform_params(strategy: YuvMatrixStrategy, layout: PixelLayout) -> (r: (YuvStandardMatrix, u32))
    ensures
        r.0 == transform_matrix(strategy),
        strategy matches YuvMatrixStrategy::KrKb(m) ==> r.0 == m,
        !(strategy is KrKb) ==> r.0 == YuvStandardMatrix::Bt709,
        forall|range: YuvIntensityRange| r.1 == rule_precision(#[trigger] frame_rule(strategy, range, layout)),
{
    match strategy {
        YuvMatrixStrategy::KrKb(standard) => {
            let precision: u32 = match layout {
                PixelLayout::I400 => 11,
                _ => 13,
            };
            (standard, precision)
        },
        YuvMatrixStrategy::CgCo => (YuvStandardMatrix::Bt709, 13),
        YuvMatrixStrategy::Identity => (YuvStandardMatrix::Bt709, 11),
    }
}

/// Columns of each row that the frame conversion fills for `layout`.
pub open spec fn frame_cols(layout: PixelLayout, img: PlanesView) -> int {
    match layout {
        PixelLayout::I400 => min_int(img.width, img.y_stride),
        PixelLayout::I444 => full_chroma_cols(img),
        _ => img.width,
    }
}

/// The size checks of the conversion for `layout` pass.
pub open spec fn frame_accepts(layout: PixelLayout, img: PlanesView, len: int) -> bool {
    match layout {
        PixelLayout::I400 => img.y.len() == img.y_stride * img.height && len == 4 * img.width * img.height,
        PixelLayout::I420 => planes_match(img, len, (img.height + 1) / 2),
        _ => planes_match(img, len, img.height),
    }
}

/// Inputs on which the conversion for `layout` neither overflows nor panics.
pub open spec fn frame_sound(layout: PixelLayout, img: PlanesView, len: int) -> bool {
    match layout {
        PixelLayout::I400 => {
            &&& img.y_stride * img.height <= usize::MAX
            &&& 4 * img.width <= usize::MAX
            &&& 4 * img.width * img.height <= usize::MAX
            &&& frame_accepts(layout, img, len) ==> img.y_stride > 0 && img.width > 0
        },
        PixelLayout::I420 => {
            &&& sizes_fit(img, (img.height + 1) / 2)
            &&& frame_accepts(layout, img, len) ==> half_height_no_panic(img)
        },
        PixelLayout::I422 => {
            &&& sizes_fit(img, img.height)
            &&& frame_accepts(layout, img, len) ==> half_width_no_panic(img)
        },
        PixelLayout::I444 => {
            &&& sizes_fit(img, img.height)
            &&& frame_accepts(layout, img, len) ==> strides_positive(img)
        },
    }
}

/// Converts one decoded 8-bit picture to RGBA with the conversion that its matrix
/// coefficients and chroma layout call for. `transform` holds the fixed-point
/// coefficients of that conversion.
pub fn process_avif_frame(
    bit_depth: usize,
    color_range: ColorRange,
    matrix: MatrixCoefficients,
    layout: PixelLayout,
    image: YuvPlanarImage,
    buf: &mut [u8],
    transform: &CbCrInverseTransform,
) -> (res: Result<(), ()>)
    requires
        spec_get_matrix(matrix) is Ok,
        spec_get_matrix(matrix)->Ok_0 is Identity ==> layout is I444,
        spec_get_matrix(matrix)->Ok_0 is CgCo ==> !(layout is I400),
        bit_depth == 8,
        frame_sound(layout, image.planes(), old(buf)@.len() as int),
        transform.bounded(),
    ensures
        res is Ok <==> frame_accepts(layout, image.planes(), old(buf)@.len() as int),
        res is Err ==> final(buf)@ == old(buf)@,
        res is Ok ==> final(buf)@ == converted(
            old(buf)@,
            image.planes(),
            layout_siting(layout),
            frame_rule(spec_get_matrix(matrix)->Ok_0, intensity_of(color_range), layout),
            frame_cols(layout, image.planes()),
            luma_bias(intensity_of(color_range)),
            chroma_bias(),
            *transform,
        ),
{
    let yuv_range = match color_range {
        ColorRange::Limited => YuvIntensityRange::Tv,
        ColorRange::Full => YuvIntensityRange::Pc,
    };
    let matrix_strategy = match get_matrix(matrix) {
        Ok(strategy) => strategy,
        Err(()) => {
            proof {
                assert(false);
            }
            return Err(());
        },
    };
    match matrix_strategy {
        YuvMatrixStrategy::KrKb(_) => match layout {
            PixelLayout::I400 => yuv400_to_rgba8(image, buf, yuv_range, transform),
            PixelLayout::I420 => yuv420_to_rgba8(image, buf, yuv_range, transform),
            PixelLayout::I422 => yuv422_to_rgba8(image, buf, yuv_range, transform),
            PixelLayout::I444 => yuv444_to_rgba8(image, buf, yuv_range, transform),
        },
        YuvMatrixStrategy::CgCo => match layout {
            PixelLayout::I400 => {
                proof {
                    assert(false);
                }
                Err(())
            },
            PixelLayout::I420 => ycgco420_to_rgba8(image, buf, yuv_range, transform),
            PixelLayout::I422 => ycgco422_to_rgba8(image, buf, yuv_range, transform),
            PixelLayout::I444 => ycgco444_to_rgba8(image, buf, yuv_range, transform),
        },
        YuvMatrixStrategy::Identity => match layout {
            PixelLayout::I444 => gbr_to_rgba8(image, buf, yuv_range, transform),
            _ => {
                proof {
                    assert(false);
                }
                Err(())
            },
        },
    }
}

} // verus!

verus! {

proof fn lemma_u128_product(a: int, b: int)
    requires
        0 <= a <= usize::MAX,
        0 <= b <= usize::MAX,
    ensures
        0 <= a * b <= u128::MAX,
{
    assert(0 <= a * b <= 0xffff_ffff_ffff_ffff * 0xffff_ffff_ffff_ffff) by (nonlinear_arith)
        requires
            0 <= a <= 0xffff_ffff_ffff_ffff,
            0 <= b <= 0xffff_ffff_ffff_ffff,
    ;
}

/// Checks [`frame_sound`]: whether converting `image` into a buffer of `len` bytes with
/// the conversion for `layout` stays clear of overflow and panics.
pub fn frame_conversion_sound(layout: PixelLayout, image: &YuvPlanarImage, len: usize) -> (r: bool)
    ensures
        r == frame_sound(layout, image.planes(), len as int),
{
    let max = usize::MAX as u128;
    let w = image.width as u128;
    let h = image.height as u128;
    let ys = image.y_stride as u128;
    let us = image.u_stride as u128;
    let vs = image.v_stride as u128;
    let ch: u128 = if matches!(layout, PixelLayout::I420) {
        (h + 1) / 2
    } else {
        h
    };
    proof {
        lemma_u128_product(ys as int, h as int);
        lemma_u128_product(us as int, ch as int);
        lemma_u128_product(vs as int, ch as int);
        lemma_u128_product(w as int, h as int);
        lemma_len_product(w as int, h as int);
    }
    let y_len = image.y_plane.len() as u128;
    let u_len = image.u_plane.len() as u128;
    let v_len = image.v_plane.len() as u128;
    let rgba_len = len as u128;
    if ys * h > max || 4 * w > max || w * h > max || 4 * (w * h) > max {
        return false;
    }
    let luma_ok = y_len == ys * h && rgba_len == 4 * (w * h);
    let long_rows = h == 0 || (ys >= w && us >= (w + 1) / 2 && vs >= (w + 1) / 2);
    let positive = ys > 0 && us > 0 && vs > 0 && w > 0;
    match layout {
        PixelLayout::I400 => !luma_ok || (ys > 0 && w > 0),
        _ => {
            if us * ch > max || vs * ch > max {
                return false;
            }
            let accepts = luma_ok && u_len == us * ch && v_len == vs * ch;
            match layout {
                PixelLayout::I420 => !accepts || (positive && 2 * ys <= max && 8 * w <= max && long_rows),
                PixelLayout::I422 => !accepts || (positive && long_rows),
                _ => !accepts || positive,
            }
        },
    }
}

} // verus!

verus! {

/// Law: in a 4:2:0 conversion the four pixels of one 2x2 block read the same chroma
/// sample, so two of them with the same luma get the same colour.
pub proof fn lemma_block_shares_chroma(
    old: Seq<u8>,
    img: PlanesView,
    rule: PixelRule,
    bias_y: int,
    bias_uv: int,
    t: CbCrInverseTransform,
    r1: int,
    c1: int,
    r2: int,
    c2: int,
    k: int,
)
    requires
        old.len() == 4 * img.width * img.height,
        0 <= r1 < img.height,
        0 <= r2 < img.height,
        0 <= c1 < img.width,
        0 <= c2 < img.width,
        r1 / 2 == r2 / 2,
        c1 / 2 == c2 / 2,
        0 <= k < 4,
        img.y[r1 * img.y_stride + c1] == img.y[r2 * img.y_stride + c2],
    ensures
        converted(old, img, ChromaSiting::HalfWidthHeight, rule, img.width, bias_y, bias_uv, t)[r1 * (4
            * img.width) + 4 * c1 + k] == converted(
            old,
            img,
            ChromaSiting::HalfWidthHeight,
            rule,
            img.width,
            bias_y,
            bias_uv,
            t,
        )[r2 * (4 * img.width) + 4 * c2 + k],
{
    let w = img.width;
    lemma_out_index(w, r1, c1, k);
    lemma_out_index(w, r2, c2, k);
    assert(old.len() == img.height * (4 * w)) by (nonlinear_arith)
        requires
            old.len() == 4 * w * img.height,
    ;
    lemma_row_index(r1, 4 * c1 + k, 4 * w, img.height);
    lemma_row_index(r2, 4 * c2 + k, 4 * w, img.height);
}

} // verus!

verus! {

/// Law: a conversion reads only the samples of the pixels it converts. Two images of the
/// same size whose planes agree on those samples convert to the same bytes, whatever the
/// padding at the end of their rows holds.
pub proof fn lemma_padding_ignored(
    old: Seq<u8>,
    a: PlanesView,
    b: PlanesView,
    siting: ChromaSiting,
    rule: PixelRule,
    ncols: int,
    bias_y: int,
    bias_uv: int,
    t: CbCrInverseTransform,
)
    requires
        a.width == b.width,
        a.height == b.height,
        forall|r: int, c: int|
            0 <= r < a.height && 0 <= c < ncols ==> {
                &&& #[trigger] luma_sample(a, r, c) == luma_sample(b, r, c)
                &&& u_sample(a, siting, r, c) == u_sample(b, siting, r, c)
                &&& v_sample(a, siting, r, c) == v_sample(b, siting, r, c)
            },
    ensures
        converted(old, a, siting, rule, ncols, bias_y, bias_uv, t) == converted(
            old,
            b,
            siting,
            rule,
            ncols,
            bias_y,
            bias_uv,
            t,
        ),
{
    assert forall|i: int| 0 <= i < old.len() implies #[trigger] converted_byte(
        old,
        a,
        siting,
        rule,
        ncols,
        bias_y,
        bias_uv,
        t,
        i,
    ) == converted_byte(old, b, siting, rule, ncols, bias_y, bias_uv, t, i) by {
        let row_len = 4 * a.width;
        let r = i / row_len;
        let c = (i % row_len) / 4;
        if 0 <= i && a.width > 0 && r < a.height && c < ncols {
            vstd::arithmetic::div_mod::lemma_div_pos_is_pos(i, row_len);
            vstd::arithmetic::div_mod::lemma_mod_pos_bound(i, row_len);
            assert(luma_sample(a, r, c) == luma_sample(b, r, c));
        }
    }
    assert(converted(old, a, siting, rule, ncols, bias_y, bias_uv, t) =~= converted(
        old,
        b,
        siting,
        rule,
        ncols,
        bias_y,
        bias_uv,
        t,
    ));
}

} // verus!

verus! {

/// Byte `i` of an RGBA buffer of rows of `width` pixels after copying the alpha plane
/// (rows of `stride` samples) into the alpha channel: rows and columns are paired until
/// either side runs out.
pub open spec fn alpha_squashed_byte(old: Seq<u8>, width: int, plane: Seq<u8>, stride: int, i: int) -> u8 {
    let row_len = 4 * width;
    let r = i / row_len;
    let off = i % row_len;
    let c = off / 4;
    let rows = min_int(old.len() as int / row_len, plane.len() as int / stride);
    if 0 <= i && width > 0 && r < rows && c < min_int(width, stride) && off % 4 == 3 {
        plane[r * stride + c]
    } else {
        old[i]
    }
}

pub open spec fn alpha_squashed(old: Seq<u8>, width: int, plane: Seq<u8>, stride: int) -> Seq<u8> {
    Seq::new(old.len(), |i: int| alpha_squashed_byte(old, width, plane, stride, i))
}

proof fn lemma_rows_fit(n: int, len: int, d: int)
    requires
        d > 0,
        0 <= len,
        0 <= n <= len / d,
    ensures
        n * d <= len,
        0 <= n * d,
{
    vstd::arithmetic::div_mod::lemma_fundamental_div_mod(len, d);
    assert(n * d <= (len / d) * d && 0 <= n * d) by (nonlinear_arith)
        requires
            0 <= n <= len / d,
            d > 0,
    ;
}

/// Squashes an alpha plane into the alpha channel of an RGBA buffer.
#[verifier::loop_isolation(false)]
#[verifier::rlimit(40)]
pub fn squash_alpha(buf: &mut [u8], width: usize, plane: &[u8], stride: usize)
    requires
        width > 0,
        4 * width <= usize::MAX,
        stride > 0,
    ensures
        final(buf)@ == alpha_squashed(old(buf)@, width as int, plane@, stride as int),
{
    let ghost old_buf = buf@;
    let ghost w = width as int;
    let row_len: usize = width * 4;
    let total = buf.len();
    let plane_len = plane.len();
    let buf_rows = total / row_len;
    let plane_rows = plane_len / stride;
    let rows = if buf_rows < plane_rows {
        buf_rows
    } else {
        plane_rows
    };
    let ncols = if width < stride {
        width
    } else {
        stride
    };
    proof {
        lemma_rows_fit(rows as int, total as int, row_len as int);
        lemma_rows_fit(rows as int, plane_len as int, stride as int);
    }
    let mut r: usize = 0;
    while r < rows
        invariant
            r <= rows,
            buf@.len() == old_buf.len(),
            forall|i: int|
                0 <= i < r * (4 * w) ==> #[trigger] buf@[i] == alpha_squashed_byte(
                    old_buf,
                    w,
                    plane@,
                    stride as int,
                    i,
                ),
            forall|i: int| r * (4 * w) <= i < old_buf.len() ==> #[trigger] buf@[i] == old_buf[i],
        decreases rows - r,
    {
        proof {
            lemma_next_row(r as int, 4 * w, rows as int);
            lemma_next_row(r as int, stride as int, rows as int);
        }
        let row_base: usize = r * row_len;
        let plane_base: usize = r * stride;
        let mut c: usize = 0;
        while c < ncols
            invariant
                c <= ncols,
                row_base == r * (4 * w),
                plane_base == r * stride,
                buf@.len() == old_buf.len(),
                forall|i: int|
                    0 <= i < row_base + 4 * c ==> #[trigger] buf@[i] == alpha_squashed_byte(
                        old_buf,
                        w,
                        plane@,
                        stride as int,
                        i,
                    ),
                forall|i: int| row_base + 4 * c <= i < old_buf.len() ==> #[trigger] buf@[i] == old_buf[i],
            decreases ncols - c,
        {
            proof {
                lemma_out_index(w, r as int, c as int, 3);
            }
            let base: usize = row_base + 4 * c;
            buf[base + 3] = plane[plane_base + c];
            proof {
                assert forall|k: int| 0 <= k < 4 implies #[trigger] buf@[base + k] == alpha_squashed_byte(
                    old_buf,
                    w,
                    plane@,
                    stride as int,
                    base + k,
                ) by {
                    lemma_out_index(w, r as int, c as int, k);
                }
                assert forall|i: int| 0 <= i < row_base + 4 * (c + 1) implies #[trigger] buf@[i]
                    == alpha_squashed_byte(old_buf, w, plane@, stride as int, i) by {
                    if i >= base {
                        assert(buf@[base + (i - base)] == buf@[i]);
                    }
                }
            }
            c = c + 1;
        }
        proof {
            assert forall|i: int| 0 <= i < (r + 1) * (4 * w) implies #[trigger] buf@[i] == alpha_squashed_byte(
                old_buf,
                w,
                plane@,
                stride as int,
                i,
            ) by {
                if i >= row_base + 4 * ncols {
                    lemma_row_tail(w, r as int, ncols as int, i);
                }
            }
        }
        r = r + 1;
    }
    proof {
        assert forall|i: int| 0 <= i < old_buf.len() implies #[trigger] buf@[i] == alpha_squashed_byte(
            old_buf,
            w,
            plane@,
            stride as int,
            i,
        ) by {
            if i >= rows * (4 * w) {
                vstd::arithmetic::div_mod::lemma_div_pos_is_pos(i, 4 * w);
                if i / (4 * w) < rows {
                    vstd::arithmetic::div_mod::lemma_fundamental_div_mod(i, 4 * w);
                    vstd::arithmetic::div_mod::lemma_mod_pos_bound(i, 4 * w);
                    assert((i / (4 * w)) * (4 * w) <= (rows - 1) * (4 * w)) by (nonlinear_arith)
                        requires
                            i / (4 * w) < rows,
                            w > 0,
                    ;
                    assert((rows - 1) * (4 * w) + 4 * w == rows * (4 * w)) by (nonlinear_arith);
                }
            }
        }
        assert(buf@ =~= alpha_squashed(old_buf, w, plane@, stride as int));
    }
}

} // verus!
