use vstd::prelude::*;
use crate::image::animation::PlaybackAction;

pub mod decoder;

pub use decoder::GifTextureData;
use decoder::{gif_decode_options, gif_height, gif_read_info, gif_read_next_frame, gif_set_rgba_output, gif_width};

verus! {

/// What happens to a GIF frame's area before the next frame is drawn.
#[derive(Debug, Copy, Clone, PartialEq, Eq, Structural)]
pub enum Disposal {
    /// No action required.
    Any,
    /// Leave the frame in place.
    Keep,
    /// Restore to the background colour.
    Background,
    /// Restore to the previous content.
    Previous,
}

/// Placement and timing of one GIF frame on the canvas.
#[derive(Debug, Copy, Clone, PartialEq, Eq, Structural)]
pub struct GifFrameInfo {
    pub width: u32,
    pub height: u32,
    pub top: u32,
    pub left: u32,
    pub duration: u16,
    pub disposal: Disposal,
}

pub open spec fn max_int(a: int, b: int) -> int {
    if a >= b {
        a
    } else {
        b
    }
}

pub open spec fn min_int(a: int, b: int) -> int {
    if a <= b {
        a
    } else {
        b
    }
}

/// First canvas column covered by both frames.
pub open spec fn overlap_left(a: GifFrameInfo, b: GifFrameInfo) -> int {
    max_int(a.left as int, b.left as int)
}

/// Canvas column just past the columns covered by both frames.
pub open spec fn overlap_right(a: GifFrameInfo, b: GifFrameInfo) -> int {
    min_int(a.left + a.width, b.left + b.width)
}

pub open spec fn overlap_top(a: GifFrameInfo, b: GifFrameInfo) -> int {
    max_int(a.top as int, b.top as int)
}

pub open spec fn overlap_bottom(a: GifFrameInfo, b: GifFrameInfo) -> int {
    min_int(a.top + a.height, b.top + b.height)
}

/// The frames' column spans meet or overlap, and their right edges fit in `u32`.
pub open spec fn columns_meet(a: GifFrameInfo, b: GifFrameInfo) -> bool {
    &&& a.left + a.width <= u32::MAX
    &&& b.left + b.width <= u32::MAX
    &&& overlap_left(a, b) <= overlap_right(a, b)
}

/// The frames' row spans meet or overlap, and their bottom edges fit in `u32`.
pub open spec fn rows_meet(a: GifFrameInfo, b: GifFrameInfo) -> bool {
    &&& a.top + a.height <= u32::MAX
    &&& b.top + b.height <= u32::MAX
    &&& overlap_top(a, b) <= overlap_bottom(a, b)
}

/// Column offset of the shared columns inside each frame, and their number.
pub open spec fn horizontal_offset(a: GifFrameInfo, b: GifFrameInfo) -> (int, int, int) {
    (
        overlap_left(a, b) - a.left,
        overlap_left(a, b) - b.left,
        overlap_right(a, b) - overlap_left(a, b),
    )
}

/// Offset of the first shared row inside each frame, counted in samples (rows times
/// the frame's width), and the number of shared rows.
pub open spec fn vertical_offset(a: GifFrameInfo, b: GifFrameInfo) -> (int, int, int) {
    (
        (overlap_top(a, b) - a.top) * a.width,
        (overlap_top(a, b) - b.top) * b.width,
        overlap_bottom(a, b) - overlap_top(a, b),
    )
}

/// The columns that `byte_area` shares with `prev_byte_area`: where they start in each
/// frame and how many there are.
pub fn get_horizontal_offset(byte_area: &GifFrameInfo, prev_byte_area: &GifFrameInfo) -> (r: (
    u32,
    u32,
    u32,
))
    requires
        byte_area.left != prev_byte_area.left ==> columns_meet(*byte_area, *prev_byte_area),
    ensures
        r.0 as int == horizontal_offset(*byte_area, *prev_byte_area).0,
        r.1 as int == horizontal_offset(*byte_area, *prev_byte_area).1,
        r.2 as int == horizontal_offset(*byte_area, *prev_byte_area).2,
{
    if byte_area.left == prev_byte_area.left {
        (0, 0, min_u32(byte_area.width, prev_byte_area.width))
    } else if byte_area.left < prev_byte_area.left {
        (
            prev_byte_area.left - byte_area.left,
            0,
            min_u32(prev_byte_area.left + prev_byte_area.width, byte_area.left + byte_area.width)
                - prev_byte_area.left,
        )
    } else {
        (
            0,
            byte_area.left - prev_byte_area.left,
            min_u32(prev_byte_area.left + prev_byte_area.width, byte_area.left + byte_area.width)
                - byte_area.left,
        )
    }
}

/// The rows that `byte_area` shares with `prev_byte_area`: where they start in each
/// frame (in samples, rows times the frame's width) and how many there are.
pub fn get_vertical_offset(byte_area: &GifFrameInfo, prev_byte_area: &GifFrameInfo) -> (r: (
    u32,
    u32,
    u32,
))
    requires
        byte_area.top != prev_byte_area.top ==> rows_meet(*byte_area, *prev_byte_area),
        vertical_offset(*byte_area, *prev_byte_area).0 <= u32::MAX,
        vertical_offset(*byte_area, *prev_byte_area).1 <= u32::MAX,
    ensures
        r.0 as int == vertical_offset(*byte_area, *prev_byte_area).0,
        r.1 as int == vertical_offset(*byte_area, *prev_byte_area).1,
        r.2 as int == vertical_offset(*byte_area, *prev_byte_area).2,
{
    let (offset_v, prev_offset_v, height) = if byte_area.top == prev_byte_area.top {
        (0, 0, min_u32(byte_area.height, prev_byte_area.height))
    } else if byte_area.top < prev_byte_area.top {
        (
            prev_byte_area.top - byte_area.top,
            0,
            min_u32(prev_byte_area.top + prev_byte_area.height, byte_area.top + byte_area.height)
                - prev_byte_area.top,
        )
    } else {
        (
            0,
            byte_area.top - prev_byte_area.top,
            min_u32(prev_byte_area.top + prev_byte_area.height, byte_area.top + byte_area.height)
                - byte_area.top,
        )
    };
    (offset_v * byte_area.width, prev_offset_v * prev_byte_area.width, height)
}

fn min_u32(a: u32, b: u32) -> (r: u32)
    ensures
        r as int == min_int(a as int, b as int),
{
    if a <= b {
        a
    } else {
        b
    }
}

/// Law: the shared columns seen from the other frame are the same columns with the
/// two offsets swapped.
pub proof fn lemma_horizontal_offset_swap(a: GifFrameInfo, b: GifFrameInfo)
    ensures
        horizontal_offset(b, a) == (
            horizontal_offset(a, b).1,
            horizontal_offset(a, b).0,
            horizontal_offset(a, b).2,
        ),
{
}

/// Law: the shared rows seen from the other frame are the same rows with the two
/// offsets swapped.
pub proof fn lemma_vertical_offset_swap(a: GifFrameInfo, b: GifFrameInfo)
    ensures
        vertical_offset(b, a) == (vertical_offset(a, b).1, vertical_offset(a, b).0, vertical_offset(a, b).2),
{
}

/// Law: when two frames' spans meet, the shared columns and rows lie inside both
/// frames.
pub proof fn lemma_offsets_inside(a: GifFrameInfo, b: GifFrameInfo)
    requires
        columns_meet(a, b),
        rows_meet(a, b),
    ensures
        0 <= horizontal_offset(a, b).2,
        horizontal_offset(a, b).0 + horizontal_offset(a, b).2 <= a.width,
        horizontal_offset(a, b).1 + horizontal_offset(a, b).2 <= b.width,
        0 <= vertical_offset(a, b).2,
        overlap_top(a, b) - a.top + vertical_offset(a, b).2 <= a.height,
        overlap_top(a, b) - b.top + vertical_offset(a, b).2 <= b.height,
{
}

} // verus!

verus! {

/// Pixel `(row, col)` of frame `a` lies on a canvas position that frame `b` covers too.
pub open spec fn pixel_shared(a: GifFrameInfo, b: GifFrameInfo, row: int, col: int) -> bool {
    &&& 0 <= row < a.height
    &&& 0 <= col < a.width
    &&& b.left <= a.left + col < b.left + b.width
    &&& b.top <= a.top + row < b.top + b.height
}

/// Pixel number `q` (row-major) of frame `a` is shared with frame `b`.
pub open spec fn sample_shared(a: GifFrameInfo, b: GifFrameInfo, q: int) -> bool {
    a.width > 0 && pixel_shared(a, b, q / (a.width as int), q % (a.width as int))
}

/// Pixel number, in frame `b`, of the canvas position of pixel `q` of frame `a`.
pub open spec fn matching_sample(a: GifFrameInfo, b: GifFrameInfo, q: int) -> int {
    (a.top + q / (a.width as int) - b.top) * b.width + (a.left + q % (a.width as int) - b.left)
}

/// Byte `i` of frame `a`'s RGBA buffer after blending: a shared pixel whose alpha is zero
/// takes the previous frame's pixel at the same canvas position; all else is kept.
pub open spec fn blended_byte(old: Seq<u8>, prev: Seq<u8>, a: GifFrameInfo, b: GifFrameInfo, i: int) -> u8 {
    let q = i / 4;
    if sample_shared(a, b, q) && old[4 * q + 3] == 0 {
        prev[4 * matching_sample(a, b, q) + i % 4]
    } else {
        old[i]
    }
}

/// The frames' rectangles touch or overlap; otherwise blending stops at once.
pub open spec fn frames_meet(a: GifFrameInfo, b: GifFrameInfo) -> bool {
    &&& a.left + a.width >= b.left
    &&& b.left + b.width >= a.left
    &&& a.top + a.height >= b.top
    &&& b.top + b.height >= a.top
}

/// Inputs on which blending neither overflows `u32` nor indexes outside a buffer.
pub open spec fn blend_sound(bytes_len: int, a: GifFrameInfo, prev_len: int, b: GifFrameInfo) -> bool {
    &&& a.left + a.width <= u32::MAX
    &&& b.left + b.width <= u32::MAX
    &&& a.top + a.height <= u32::MAX
    &&& b.top + b.height <= u32::MAX
    &&& frames_meet(a, b) ==> {
        &&& vertical_offset(a, b).0 <= u32::MAX
        &&& vertical_offset(a, b).1 <= u32::MAX
        &&& (overlap_right(a, b) > overlap_left(a, b) && overlap_bottom(a, b) > overlap_top(a, b)) ==> {
            let last_a = (overlap_bottom(a, b) - 1 - a.top) * a.width + (overlap_right(a, b) - 1 - a.left);
            let last_b = (overlap_bottom(a, b) - 1 - b.top) * b.width + (overlap_right(a, b) - 1 - b.left);
            &&& last_a <= u32::MAX
            &&& last_b <= u32::MAX
            &&& 4 * last_a + 4 <= bytes_len
            &&& 4 * last_b + 4 <= prev_len
        }
    }
}

proof fn lemma_pixel_index(w: int, row: int, col: int)
    requires
        w > 0,
        0 <= row,
        0 <= col < w,
    ensures
        (row * w + col) / w == row,
        (row * w + col) % w == col,
{
    vstd::arithmetic::div_mod::lemma_fundamental_div_mod_converse(row * w + col, w, row, col);
}

proof fn lemma_byte_index(q: int, k: int)
    requires
        0 <= k < 4,
    ensures
        (4 * q + k) / 4 == q,
        (4 * q + k) % 4 == k,
{
    vstd::arithmetic::div_mod::lemma_fundamental_div_mod_converse(4 * q + k, 4, q, k);
}

proof fn lemma_sample_bound(w: int, r0: int, c0: int, y: int, x: int, hgt: int, wd: int)
    requires
        w >= 0,
        0 <= y < hgt,
        0 <= x < wd,
        0 <= r0,
        0 <= c0,
    ensures
        0 <= (r0 + y) * w + (c0 + x) <= (r0 + hgt - 1) * w + (c0 + wd - 1),
        (r0 + y) * w + (c0 + x) == r0 * w + c0 + y * w + x,
        0 <= r0 * w,
        0 <= y * w,
{
    assert(0 <= (r0 + y) * w + (c0 + x) <= (r0 + hgt - 1) * w + (c0 + wd - 1)) by (nonlinear_arith)
        requires
            w >= 0,
            0 <= y < hgt,
            0 <= x < wd,
            0 <= r0,
            0 <= c0,
    ;
    assert((r0 + y) * w + (c0 + x) == r0 * w + c0 + y * w + x) by (nonlinear_arith);
    assert(0 <= r0 * w && 0 <= y * w) by (nonlinear_arith)
        requires
            w >= 0,
            0 <= y,
            0 <= r0,
    ;
}

/// Pixel `q` of frame `a` was visited when the blending loops stand at column `x0`, row `y0`.
pub open spec fn visited(a: GifFrameInfo, b: GifFrameInfo, q: int, x0: int, y0: int) -> bool {
    let col = q % (a.width as int) - (overlap_left(a, b) - a.left);
    let row = q / (a.width as int) - (overlap_top(a, b) - a.top);
    sample_shared(a, b, q) && (col < x0 || (col == x0 && row < y0))
}

/// Copies the previous frame's pixels into the fully transparent pixels of the current
/// frame wherever the two frames overlap on the canvas.
#[verifier::loop_isolation(false)]
pub fn blend_alpha(
    bytes: &mut [u8],
    byte_area: &GifFrameInfo,
    prev_bytes: &[u8],
    prev_byte_area: &GifFrameInfo,
)
    requires
        blend_sound(old(bytes)@.len() as int, *byte_area, prev_bytes@.len() as int, *prev_byte_area),
    ensures
        final(bytes)@.len() == old(bytes)@.len(),
        forall|i: int|
            0 <= i < old(bytes)@.len() ==> #[trigger] final(bytes)@[i] == blended_byte(
                old(bytes)@,
                prev_bytes@,
                *byte_area,
                *prev_byte_area,
                i,
            ),
{
    let ghost old_bytes = bytes@;
    let ghost a = *byte_area;
    let ghost b = *prev_byte_area;
    if byte_area.left + byte_area.width < prev_byte_area.left || prev_byte_area.left + prev_byte_area.width
        < byte_area.left || byte_area.top + byte_area.height < prev_byte_area.top || prev_byte_area.top
        + prev_byte_area.height < byte_area.top {
        // no overlap, skip
        proof {
            assert forall|i: int| 0 <= i < old_bytes.len() implies #[trigger] bytes@[i] == blended_byte(
                old_bytes,
                prev_bytes@,
                a,
                b,
                i,
            ) by {}
        }
        return;
    }
    let (h_offset, prev_h_offset, width) = get_horizontal_offset(byte_area, prev_byte_area);
    let (v_offset, prev_v_offset, height) = get_vertical_offset(byte_area, prev_byte_area);
    let ghost aw = a.width as int;
    let ghost bw = b.width as int;
    let ghost ho = overlap_left(a, b) - a.left;
    let ghost pho = overlap_left(a, b) - b.left;
    let ghost vrow = overlap_top(a, b) - a.top;
    let ghost pvrow = overlap_top(a, b) - b.top;
    let total = bytes.len();
    let prev_total = prev_bytes.len();

    let mut x: u32 = 0;
    while x < width
        invariant
            x <= width,
            bytes@.len() == old_bytes.len(),
            forall|i: int|
                0 <= i < old_bytes.len() ==> #[trigger] bytes@[i] == if visited(a, b, i / 4, x as int, 0) {
                    blended_byte(old_bytes, prev_bytes@, a, b, i)
                } else {
                    old_bytes[i]
                },
        decreases width - x,
    {
        let mut y: u32 = 0;
        while y < height
            invariant
                x < width,
                y <= height,
                bytes@.len() == old_bytes.len(),
                forall|i: int|
                    0 <= i < old_bytes.len() ==> #[trigger] bytes@[i] == if visited(a, b, i / 4, x as int, y as int) {
                        blended_byte(old_bytes, prev_bytes@, a, b, i)
                    } else {
                        old_bytes[i]
                    },
            decreases height - y,
        {
            proof {
                lemma_sample_bound(aw, vrow, ho, y as int, x as int, height as int, width as int);
                lemma_sample_bound(bw, pvrow, pho, y as int, x as int, height as int, width as int);
            }
            let sample = v_offset + h_offset + y * byte_area.width + x;
            let prev_sample = prev_v_offset + prev_h_offset + y * prev_byte_area.width + x;
            let byte_offset = sample as usize * 4;
            let prev_byte_offset = prev_sample as usize * 4;
            let ghost q = sample as int;
            let ghost pre = bytes@;
            proof {
                lemma_pixel_index(aw, vrow + y, ho + x);
                assert(matching_sample(a, b, q) == prev_sample as int) by (nonlinear_arith)
                    requires
                        q / aw == vrow + y,
                        q % aw == ho + x,
                        matching_sample(a, b, q) == (a.top + q / aw - b.top) * bw + (a.left + q % aw - b.left),
                        prev_sample as int == (pvrow + y) * bw + (pho + x),
                        vrow == overlap_top(a, b) - a.top,
                        pvrow == overlap_top(a, b) - b.top,
                        ho == overlap_left(a, b) - a.left,
                        pho == overlap_left(a, b) - b.left,
                ;
                lemma_byte_index(q, 3);
            }
            if bytes[byte_offset + 3] == 0 {
                bytes[byte_offset] = prev_bytes[prev_byte_offset];
                bytes[byte_offset + 1] = prev_bytes[prev_byte_offset + 1];
                bytes[byte_offset + 2] = prev_bytes[prev_byte_offset + 2];
                bytes[byte_offset + 3] = prev_bytes[prev_byte_offset + 3];
            }
            proof {
                assert(sample_shared(a, b, q));
                assert forall|i: int| 0 <= i < old_bytes.len() implies #[trigger] bytes@[i] == if visited(
                    a,
                    b,
                    i / 4,
                    x as int,
                    y + 1,
                ) {
                    blended_byte(old_bytes, prev_bytes@, a, b, i)
                } else {
                    old_bytes[i]
                } by {
                    let qi = i / 4;
                    vstd::arithmetic::div_mod::lemma_fundamental_div_mod(i, 4);
                    if qi == q {
                        lemma_byte_index(q, i % 4);
                        assert(i == 4 * q + i % 4);
                        assert(pre[4 * q + 3] == old_bytes[4 * q + 3]);
                    } else {
                        assert(pre[i] == bytes@[i]);
                        if sample_shared(a, b, qi) {
                            vstd::arithmetic::div_mod::lemma_fundamental_div_mod(qi, aw);
                            vstd::arithmetic::div_mod::lemma_fundamental_div_mod(q, aw);
                        }
                    }
                }
            }
            y = y + 1;
        }
        proof {
            assert forall|i: int| 0 <= i < old_bytes.len() implies #[trigger] bytes@[i] == if visited(
                a,
                b,
                i / 4,
                x + 1,
                0,
            ) {
                blended_byte(old_bytes, prev_bytes@, a, b, i)
            } else {
                old_bytes[i]
            } by {
                assert(visited(a, b, i / 4, x as int, height as int) == visited(a, b, i / 4, x + 1, 0));
            }
        }
        x = x + 1;
    }
}

} // verus!

verus! {

/// Checks [`blend_sound`]: whether blending `byte_area` (a buffer of `bytes_len` bytes)
/// over `prev_byte_area` (a buffer of `prev_len` bytes) stays in bounds.
pub fn blend_alpha_sound(
    bytes_len: usize,
    byte_area: &GifFrameInfo,
    prev_len: usize,
    prev_byte_area: &GifFrameInfo,
) -> (r: bool)
    ensures
        r == blend_sound(bytes_len as int, *byte_area, prev_len as int, *prev_byte_area),
{
    let a = byte_area;
    let b = prev_byte_area;
    let max: u128 = 0xffff_ffff;
    let a_right = a.left as u128 + a.width as u128;
    let b_right = b.left as u128 + b.width as u128;
    let a_bottom = a.top as u128 + a.height as u128;
    let b_bottom = b.top as u128 + b.height as u128;
    if a_right > max || b_right > max || a_bottom > max || b_bottom > max {
        return false;
    }
    if a_right < b.left as u128 || b_right < a.left as u128 || a_bottom < b.top as u128 || b_bottom
        < a.top as u128 {
        return true;
    }
    let left: u128 = if a.left >= b.left {
        a.left as u128
    } else {
        b.left as u128
    };
    let right: u128 = if a_right <= b_right {
        a_right
    } else {
        b_right
    };
    let top: u128 = if a.top >= b.top {
        a.top as u128
    } else {
        b.top as u128
    };
    let bottom: u128 = if a_bottom <= b_bottom {
        a_bottom
    } else {
        b_bottom
    };
    proof {
        lemma_product_u64((top - a.top) as int, a.width as int);
        lemma_product_u64((top - b.top) as int, b.width as int);
    }
    if (top - a.top as u128) * (a.width as u128) > max || (top - b.top as u128) * (b.width as u128)
        > max {
        return false;
    }
    if right <= left || bottom <= top {
        return true;
    }
    proof {
        lemma_product_u64((bottom - 1 - a.top) as int, a.width as int);
        lemma_product_u64((bottom - 1 - b.top) as int, b.width as int);
    }
    let last_a = (bottom - 1 - a.top as u128) * (a.width as u128) + (right - 1 - a.left as u128);
    let last_b = (bottom - 1 - b.top as u128) * (b.width as u128) + (right - 1 - b.left as u128);
    last_a <= max && last_b <= max && 4 * last_a + 4 <= bytes_len as u128 && 4 * last_b + 4
        <= prev_len as u128
}

proof fn lemma_product_u64(x: int, y: int)
    requires
        0 <= x <= u32::MAX,
        0 <= y <= u32::MAX,
    ensures
        0 <= x * y <= u32::MAX * u32::MAX,
{
    assert(0 <= x * y <= u32::MAX * u32::MAX) by (nonlinear_arith)
        requires
            0 <= x <= u32::MAX,
            0 <= y <= u32::MAX,
    ;
}

/// Whether writing `info` into a `max_width` x `max_height` canvas first clears the canvas:
/// the frame does not keep what was drawn before and does not cover the whole canvas.
pub open spec fn needs_clear(info: GifFrameInfo, max_width: u32, max_height: u32) -> bool {
    info.disposal != Disposal::Keep && (info.width < max_width || info.height < max_height)
}

/// Canvas pixel `(x, y)` lies outside a frame of `info`'s size placed at the canvas origin.
pub open spec fn outside_frame(info: GifFrameInfo, x: int, y: int) -> bool {
    !(x < info.width && y < info.height)
}

/// Law: the canvas is cleared before a frame exactly when the frame does not keep what was
/// drawn before and, placed at the canvas origin, leaves some canvas pixel uncovered: a
/// frame narrower or shorter than the canvas, in either direction, clears it.
pub proof fn lemma_clear_when_canvas_uncovered(info: GifFrameInfo, max_width: u32, max_height: u32)
    requires
        max_width > 0,
        max_height > 0,
    ensures
        needs_clear(info, max_width, max_height) <==> (info.disposal != Disposal::Keep && exists|x: int, y: int|
            0 <= x < max_width && 0 <= y < max_height && #[trigger] outside_frame(info, x, y)),
        info.disposal != Disposal::Keep && info.height < max_height ==> needs_clear(info, max_width, max_height),
        info.disposal != Disposal::Keep && info.width < max_width ==> needs_clear(info, max_width, max_height),
{
    let x = max_width - 1;
    let y = max_height - 1;
    if info.width < max_width || info.height < max_height {
        assert(0 <= x < max_width && 0 <= y < max_height && outside_frame(info, x, y));
    }
}

/// Length of the zeroed buffer that clears the canvas before `info` is written, when
/// [`needs_clear`] holds.
pub fn clear_len(info: &GifFrameInfo, max_width: u32, max_height: u32) -> (r: Option<usize>)
    requires
        needs_clear(*info, max_width, max_height) ==> max_width * max_height * 4 <= u32::MAX,
    ensures
        r == if needs_clear(*info, max_width, max_height) {
            Some((max_width * max_height * 4) as usize)
        } else {
            None::<usize>
        },
{
    if !matches!(info.disposal, Disposal::Keep) && (info.width < max_width || info.height
        < max_height) {
        proof {
            lemma_product_u64(max_width as int, max_height as int);
        }
        Some((max_width * max_height * 4) as usize)
    } else {
        None
    }
}

} // verus!

verus! {

/// One decoded GIF frame; `buffer` holds its RGBA samples as the decoder gives them.
pub struct GifFrame {
    pub delay: u16,
    pub dispose: Disposal,
    pub top: u16,
    pub left: u16,
    pub width: u16,
    pub height: u16,
    pub buffer: Vec<u8>,
}

/// What the GIF playback loop is told after acting on the previous action.
pub enum GifEvent {
    /// The decoder produced the next frame.
    Decoded(GifFrame),
    /// The decoder has no more frames.
    Exhausted,
    /// The sleep of the last `Show` ended; `shutdown` is true when the image was closed.
    Woke { shutdown: bool },
}

/// Display duration of a frame whose delay is `delay` hundredths of a second.
pub open spec fn frame_duration(delay: u16) -> int {
    delay * 10
}

/// Placement and timing of a decoded frame; the first frame spans the whole canvas.
pub open spec fn decoded_info(f: GifFrame, first: bool, width: u32, height: u32) -> GifFrameInfo {
    GifFrameInfo {
        width: if first { width } else { f.width as u32 },
        height: if first { height } else { f.height as u32 },
        top: f.top as u32,
        left: f.left as u32,
        duration: frame_duration(f.delay) as u16,
        disposal: f.dispose,
    }
}

/// A frame's samples after blending it over the frame cached before it, which happens
/// when that frame keeps its content.
pub open spec fn blended_over(buf: Seq<u8>, info: GifFrameInfo, last: (GifFrameInfo, Seq<u8>)) -> Seq<u8> {
    if last.0.disposal == Disposal::Keep {
        Seq::new(buf.len(), |i: int| blended_byte(buf, last.1, info, last.0, i))
    } else {
        buf
    }
}

/// Plays a GIF animation: frames are decoded, blended and cached one by one while they
/// are shown; once the decoder is exhausted the cached frames are shown in a loop.
pub struct GifPlayer {
    width: u32,
    height: u32,
    cached: Vec<(GifFrameInfo, Vec<u8>)>,
    replaying: bool,
    next: usize,
}

impl GifPlayer {
    /// Width of the canvas.
    pub closed spec fn canvas_width(&self) -> u32 {
        self.width
    }

    /// Height of the canvas.
    pub closed spec fn canvas_height(&self) -> u32 {
        self.height
    }

    /// The cached frames: placement and RGBA samples.
    pub closed spec fn frames(&self) -> Seq<(GifFrameInfo, Seq<u8>)> {
        self.cached@.map_values(|e: (GifFrameInfo, Vec<u8>)| (e.0, e.1@))
    }

    /// Whether all frames were decoded and the cache is being replayed.
    pub closed spec fn is_replaying(&self) -> bool {
        self.replaying
    }

    /// Index of the cached frame shown last while replaying.
    pub closed spec fn shown(&self) -> int {
        self.next as int
    }

    pub open spec fn wf(&self) -> bool {
        self.is_replaying() ==> 0 <= self.shown() < self.frames().len()
    }

    /// The cached frame that the next wake-up shows while replaying: the one after the
    /// frame shown last, wrapping round to the first.
    pub open spec fn replay_next(&self) -> int {
        (self.shown() + 1) % (self.frames().len() as int)
    }

    /// Whether `event` is one the loop can send now, and the work it triggers stays in bounds.
    pub open spec fn accepts(&self, event: GifEvent) -> bool {
        match event {
            GifEvent::Decoded(f) => {
                &&& !self.is_replaying()
                &&& f.delay <= 6553
                &&& self.frames().len() > 0 && self.frames().last().0.disposal == Disposal::Keep
                    ==> blend_sound(
                    f.buffer@.len() as int,
                    decoded_info(f, false, self.canvas_width(), self.canvas_height()),
                    self.frames().last().1.len() as int,
                    self.frames().last().0,
                )
            },
            GifEvent::Exhausted => !self.is_replaying() && self.frames().len() > 0,
            GifEvent::Woke { .. } => self.frames().len() > 0,
        }
    }

    /// A player for a `width` x `height` canvas that has not decoded any frame yet.
    pub fn new(width: u32, height: u32) -> (p: GifPlayer)
        ensures
            p.canvas_width() == width,
            p.canvas_height() == height,
            p.frames() == Seq::<(GifFrameInfo, Seq<u8>)>::empty(),
            !p.is_replaying(),
            p.wf(),
    {
        let p = GifPlayer { width, height, cached: Vec::new(), replaying: false, next: 0 };
        assert(p.frames() =~= Seq::<(GifFrameInfo, Seq<u8>)>::empty());
        p
    }

    /// Number of cached frames.
    pub fn frame_count(&self) -> (n: usize)
        ensures
            n == self.frames().len(),
    {
        self.cached.len()
    }

    /// Placement of cached frame `i`.
    pub fn frame_info(&self, i: usize) -> (info: GifFrameInfo)
        requires
            i < self.frames().len(),
        ensures
            info == self.frames()[i as int].0,
    {
        self.cached[i].0
    }

    /// RGBA samples of cached frame `i`.
    pub fn frame_bytes(&self, i: usize) -> (bytes: &[u8])
        requires
            i < self.frames().len(),
        ensures
            bytes@ == self.frames()[i as int].1,
    {
        self.cached[i].1.as_slice()
    }

    /// Advances playback by one event and says what to do next.
    pub fn step(&mut self, event: GifEvent) -> (action: PlaybackAction)
        requires
            old(self).wf(),
            old(self).accepts(event),
        ensures
            final(self).wf(),
            final(self).canvas_width() == old(self).canvas_width(),
            final(self).canvas_height() == old(self).canvas_height(),
            match event {
                GifEvent::Decoded(f) => {
                    let first = old(self).frames().len() == 0;
                    let info = decoded_info(f, first, old(self).canvas_width(), old(self).canvas_height());
                    let bytes = if first {
                        f.buffer@
                    } else {
                        blended_over(f.buffer@, info, old(self).frames().last())
                    };
                    &&& final(self).frames() == old(self).frames().push((info, bytes))
                    &&& !final(self).is_replaying()
                    &&& action == PlaybackAction::Show {
                        frame: old(self).frames().len() as usize,
                        mark_loaded: first,
                        repaint_delay_ms: 0,
                        sleep_ms: info.duration as u64,
                        minus_elapsed: !first,
                    }
                },
                GifEvent::Exhausted => {
                    &&& final(self).frames() == old(self).frames()
                    &&& final(self).is_replaying()
                    &&& final(self).shown() == 0
                    &&& action == PlaybackAction::Show {
                        frame: 0,
                        mark_loaded: false,
                        repaint_delay_ms: old(self).frames()[0].0.duration as u64,
                        sleep_ms: old(self).frames()[0].0.duration as u64,
                        minus_elapsed: false,
                    }
                },
                GifEvent::Woke { shutdown } => {
                    &&& final(self).frames() == old(self).frames()
                    &&& final(self).is_replaying() == old(self).is_replaying()
                    &&& if shutdown {
                        action == PlaybackAction::Stop && final(self).shown() == old(self).shown()
                    } else if !old(self).is_replaying() {
                        action == PlaybackAction::Decode { frame: old(self).frames().len() as usize }
                            && final(self).shown() == old(self).shown()
                    } else {
                        let n = old(self).replay_next();
                        &&& final(self).shown() == n
                        &&& action == PlaybackAction::Show {
                            frame: n as usize,
                            mark_loaded: false,
                            repaint_delay_ms: old(self).frames()[n].0.duration as u64,
                            sleep_ms: old(self).frames()[n].0.duration as u64,
                            minus_elapsed: false,
                        }
                    }
                },
            },
    {
        let ghost old_frames = self.frames();
        match event {
            GifEvent::Decoded(frame) => {
                let first = self.cached.len() == 0;
                let dur: u16 = frame.delay * 10;
                let info = GifFrameInfo {
                    width: if first { self.width } else { frame.width as u32 },
                    height: if first { self.height } else { frame.height as u32 },
                    top: frame.top as u32,
                    left: frame.left as u32,
                    duration: dur,
                    disposal: frame.dispose,
                };
                let mut buf = frame.buffer;
                if !first {
                    let last = self.cached.len() - 1;
                    let ghost before = buf@;
                    if matches!(self.cached[last].0.disposal, Disposal::Keep) {
                        let prev_info = self.cached[last].0;
                        blend_alpha(&mut buf, &info, self.cached[last].1.as_slice(), &prev_info);
                        assert(buf@ =~= blended_over(before, info, old_frames.last()));
                    }
                }
                self.cached.push((info, buf));
                proof {
                    assert(self.frames() =~= old_frames.push((info, buf@)));
                }
                PlaybackAction::Show {
                    frame: self.cached.len() - 1,
                    mark_loaded: first,
                    repaint_delay_ms: 0,
                    sleep_ms: dur as u64,
                    minus_elapsed: !first,
                }
            },
            GifEvent::Exhausted => {
                self.replaying = true;
                self.next = 0;
                let duration = self.cached[0].0.duration as u64;
                PlaybackAction::Show {
                    frame: 0,
                    mark_loaded: false,
                    repaint_delay_ms: duration,
                    sleep_ms: duration,
                    minus_elapsed: false,
                }
            },
            GifEvent::Woke { shutdown } => {
                if shutdown {
                    PlaybackAction::Stop
                } else if !self.replaying {
                    PlaybackAction::Decode { frame: self.cached.len() }
                } else {
                    let len = self.cached.len();
                    assert(self.frames().len() == len);
                    let n = (self.next + 1) % len;
                    self.next = n;
                    let duration = self.cached[n].0.duration as u64;
                    PlaybackAction::Show {
                        frame: n,
                        mark_loaded: false,
                        repaint_delay_ms: duration,
                        sleep_ms: duration,
                        minus_elapsed: false,
                    }
                }
            },
        }
    }
}

/// Law: while the cache replays, each wake-up shows the frame after the last one, so from
/// frame `s` the `i`-th player of a run of wake-ups shows frame `(s + i) mod n`: the cached
/// frames come in order, then again from the first, and the cache never changes.
pub proof fn lemma_replay_order(ps: Seq<GifPlayer>)
    requires
        ps.len() > 0,
        ps[0].wf(),
        ps[0].is_replaying(),
        forall|i: int|
            0 < i < ps.len() ==> {
                &&& #[trigger] ps[i].frames() == ps[i - 1].frames()
                &&& ps[i].is_replaying()
                &&& ps[i].shown() == ps[i - 1].replay_next()
            },
    ensures
        forall|i: int| 0 <= i < ps.len() ==> #[trigger] ps[i].frames() == ps[0].frames(),
        forall|i: int|
            0 <= i < ps.len() ==> #[trigger] ps[i].shown() == (ps[0].shown() + i) % (ps[0].frames().len() as int),
    decreases ps.len(),
{
    let n = ps[0].frames().len() as int;
    if ps.len() == 1 {
        vstd::arithmetic::div_mod::lemma_small_mod(ps[0].shown() as nat, n as nat);
    } else {
        let q = ps.drop_last();
        let k = ps.len() - 1;
        assert(q[0] == ps[0]);
        assert forall|i: int| 0 < i < q.len() implies {
            &&& #[trigger] q[i].frames() == q[i - 1].frames()
            &&& q[i].is_replaying()
            &&& q[i].shown() == q[i - 1].replay_next()
        } by {
            assert(q[i] == ps[i]);
            assert(q[i - 1] == ps[i - 1]);
            assert(ps[i].frames() == ps[i - 1].frames());
        }
        lemma_replay_order(q);
        assert(q[k - 1] == ps[k - 1]);
        assert(q[k - 1].frames() == q[0].frames());
        assert(q[k - 1].shown() == (q[0].shown() + (k - 1)) % n);
        assert(ps[k].frames() == ps[k - 1].frames());
        vstd::arithmetic::div_mod::lemma_add_mod_noop_right(1, ps[0].shown() + (k - 1), n);
        assert(ps[k].shown() == (ps[0].shown() + k) % n);
        assert forall|i: int| 0 <= i < ps.len() implies #[trigger] ps[i].frames() == ps[0].frames() by {
            if i < k {
                assert(q[i] == ps[i]);
                assert(q[i].frames() == q[0].frames());
            }
        }
        assert forall|i: int| 0 <= i < ps.len() implies #[trigger] ps[i].shown() == (ps[0].shown() + i) % n by {
            if i < k {
                assert(q[i] == ps[i]);
                assert(q[i].shown() == (q[0].shown() + i) % n);
            }
        }
    }
}

} // verus!

verus! {

/// Why a GIF could not be decoded.
#[derive(Debug, Copy, Clone, PartialEq, Eq, Structural)]
pub enum GifLoadError {
    /// The decoder rejected the data.
    Decoding,
    /// The decoder could not allocate memory.
    OutOfMemory,
}

/// The library's error for a failed decoder call.
pub open spec fn spec_load_error(f: decoder::GifFailure) -> GifLoadError {
    match f {
        decoder::GifFailure::Data => GifLoadError::Decoding,
        decoder::GifFailure::Memory => GifLoadError::OutOfMemory,
    }
}

fn load_error(f: decoder::GifFailure) -> (e: GifLoadError)
    ensures
        e == spec_load_error(f),
{
    match f {
        decoder::GifFailure::Data => GifLoadError::Decoding,
        decoder::GifFailure::Memory => GifLoadError::OutOfMemory,
    }
}

/// The outcome of a frame read with its buffer taken by view and the error forgotten.
pub open spec fn frame_outcome(r: Result<Option<GifFrame>, GifLoadError>) -> Result<
    Option<(u16, Disposal, u16, u16, u16, u16, Seq<u8>)>,
    (),
> {
    match r {
        Ok(Some(f)) => Ok(Some(frame_fields(f))),
        Ok(None) => Ok(None),
        Err(_) => Err(()),
    }
}

/// The fields of a decoded frame, with its buffer taken by view.
pub open spec fn frame_fields(f: GifFrame) -> (u16, Disposal, u16, u16, u16, u16, Seq<u8>) {
    (f.delay, f.dispose, f.top, f.left, f.width, f.height, f.buffer@)
}

impl GifTextureData {
    /// Reads the header of the GIF in `bytes`, with frames decoded to RGBA. Unless memory
    /// runs out, it succeeds exactly when the decoder accepts the header; a decoder that was
    /// made starts at the first frame of `bytes`.
    pub fn from_bytes(bytes: Vec<u8>) -> (r: Result<GifTextureData, GifLoadError>)
        ensures
            r != Err::<GifTextureData, GifLoadError>(GifLoadError::OutOfMemory) ==> (r is Ok
                <==> decoder::gif_header_reads(bytes@)),
            r matches Ok(d) ==> d.source() == bytes@ && d.reads() == 0 && d.clean(),
    {
        let mut options = gif_decode_options();
        gif_set_rgba_output(&mut options);
        match gif_read_info(options, bytes) {
            Ok(data) => Ok(data),
            Err(f) => Err(load_error(f)),
        }
    }

    /// Canvas size, widened to `u32`.
    pub fn dimensions(&self) -> (r: (u32, u32))
        ensures
            r.0 == decoder::gif_canvas_width(self.source()),
            r.1 == decoder::gif_canvas_height(self.source()),
    {
        (gif_width(self) as u32, gif_height(self) as u32)
    }

    /// Decodes the next frame, `None` after the last one. While no earlier read failed and
    /// unless memory runs out, the outcome (frame, end or error) is what the decoder gives
    /// at this point of `self.source()`.
    pub fn next_frame(&mut self) -> (r: Result<Option<GifFrame>, GifLoadError>)
        ensures
            r matches Ok(Some(f)) ==> f.buffer@.len() == 4 * f.width * f.height,
            old(self).clean() && r != Err::<Option<GifFrame>, GifLoadError>(GifLoadError::OutOfMemory)
                ==> frame_outcome(r) == decoder::gif_frame(old(self).source(), old(self).reads()),
            final(self).source() == old(self).source(),
            final(self).reads() == old(self).reads() + 1,
            final(self).clean() == (old(self).clean() && r is Ok),
    {
        match gif_read_next_frame(self) {
            Ok(Some(f)) => Ok(
                Some(
                    GifFrame {
                        delay: f.0,
                        dispose: f.1,
                        top: f.2,
                        left: f.3,
                        width: f.4,
                        height: f.5,
                        buffer: f.6,
                    },
                ),
            ),
            Ok(None) => Ok(None),
            Err(f) => Err(load_error(f)),
        }
    }
}

} // verus!
