use vstd::prelude::*;

pub mod decoder;

pub use decoder::WebpTextureData;
use decoder::{webp_buffer_size, webp_dims, webp_frames, webp_is_animated, webp_new, webp_read_frame, webp_read_image};

verus! {

/// Why a WebP could not be read.
#[derive(Debug, Copy, Clone, PartialEq, Eq, Structural)]
pub enum WebpLoadError {
    /// The decoder rejected the data.
    Decoding,
    /// The decoder cannot fill an RGBA buffer of `w * h * 4` bytes for this file: it has no
    /// alpha channel, its sizes are out of range, or an alpha frame holds a larger picture.
    NotRgba,
}

/// Little-endian unsigned integer of 2 bytes at `i`.
pub open spec fn le_u16(b: Seq<u8>, i: int) -> int {
    b[i] + 256 * b[i + 1]
}

/// Little-endian unsigned integer of 3 bytes at `i`.
pub open spec fn le_u24(b: Seq<u8>, i: int) -> int {
    b[i] + 256 * b[i + 1] + 65536 * b[i + 2]
}

/// Little-endian unsigned integer of 4 bytes at `i`.
pub open spec fn le_u32(b: Seq<u8>, i: int) -> int {
    le_u24(b, i) + 16777216 * b[i + 3]
}

/// The four bytes at `i` are the chunk tag `c`.
pub open spec fn fourcc_at(b: Seq<u8>, i: int, c: (u8, u8, u8, u8)) -> bool {
    &&& 0 <= i
    &&& i + 4 <= b.len()
    &&& b[i] == c.0
    &&& b[i + 1] == c.1
    &&& b[i + 2] == c.2
    &&& b[i + 3] == c.3
}

/// The tag of an animation frame chunk.
pub open spec fn anmf() -> (u8, u8, u8, u8) {
    (0x41, 0x4e, 0x4d, 0x46)
}

/// The tag of an alpha chunk.
pub open spec fn alph() -> (u8, u8, u8, u8) {
    (0x41, 0x4c, 0x50, 0x48)
}

/// For an animation frame chunk whose header is at `p` and whose first sub-chunk is an
/// alpha chunk: where the VP8 data after it starts, past the alpha chunk (padded to an
/// even size) and the next chunk's 8-byte header.
pub open spec fn alpha_vp8_start(b: Seq<u8>, p: int) -> int {
    let size = le_u32(b, p + 28);
    p + 32 + size + size % 2 + 8
}

/// The animation frame chunk whose header is at `p`, if its first sub-chunk is an alpha
/// chunk, is followed by a VP8 picture whose 14-bit width and height (bytes 6 to 9 of its
/// data) are no larger than the frame's (the 24-bit sizes minus one at bytes 14 and 17).
pub open spec fn alpha_frame_fits(b: Seq<u8>, p: int) -> bool {
    (fourcc_at(b, p + 24, alph()) && p + 32 <= b.len() && alpha_vp8_start(b, p) + 10 <= b.len()) ==> {
        let q = alpha_vp8_start(b, p);
        &&& le_u16(b, q + 6) % 16384 <= le_u24(b, p + 14) + 1
        &&& le_u16(b, q + 8) % 16384 <= le_u24(b, p + 17) + 1
    }
}

/// Every place where the bytes hold an animation frame tag passes `alpha_frame_fits`, so
/// whichever frames the decoder reads, none holds a VP8 picture larger than itself.
pub open spec fn webp_frames_consistent(b: Seq<u8>) -> bool {
    forall|p: int| #[trigger] fourcc_at(b, p, anmf()) ==> alpha_frame_fits(b, p)
}

/// Law: an animation frame whose alpha chunk is followed by a VP8 picture of exactly the
/// frame's width (24-bit field minus one at byte 14 of the chunk) and height (at byte 17)
/// is accepted; when every such frame is so, the whole file is.
pub proof fn lemma_exact_alpha_frames_accepted(b: Seq<u8>)
    requires
        forall|p: int|
            #[trigger] fourcc_at(b, p, anmf()) && fourcc_at(b, p + 24, alph()) && p + 32 <= b.len()
                && alpha_vp8_start(b, p) + 10 <= b.len() ==> {
                &&& le_u16(b, alpha_vp8_start(b, p) + 6) % 16384 == le_u24(b, p + 14) + 1
                &&& le_u16(b, alpha_vp8_start(b, p) + 8) % 16384 == le_u24(b, p + 17) + 1
            },
    ensures
        webp_frames_consistent(b),
{
}

/// Law: an animation frame whose alpha chunk is followed by a VP8 picture wider than the
/// frame's width field (byte 14) or taller than its height field (byte 17) makes the file
/// inconsistent, whatever the other frames hold.
pub proof fn lemma_oversized_alpha_frame_rejected(b: Seq<u8>, p: int)
    requires
        fourcc_at(b, p, anmf()),
        fourcc_at(b, p + 24, alph()),
        p + 32 <= b.len(),
        alpha_vp8_start(b, p) + 10 <= b.len(),
        le_u16(b, alpha_vp8_start(b, p) + 6) % 16384 > le_u24(b, p + 14) + 1 || le_u16(
            b,
            alpha_vp8_start(b, p) + 8,
        ) % 16384 > le_u24(b, p + 17) + 1,
    ensures
        !webp_frames_consistent(b),
{
    assert(!alpha_frame_fits(b, p));
}

/// Reads the little-endian integer of `n` (2, 3 or 4) bytes at `i`.
fn read_le(b: &[u8], i: usize, n: usize) -> (r: u64)
    requires
        2 <= n <= 4,
        i + n <= b@.len(),
    ensures
        n == 2 ==> r == le_u16(b@, i as int),
        n == 3 ==> r == le_u24(b@, i as int),
        n == 4 ==> r == le_u32(b@, i as int),
{
    let mut r: u64 = b[i] as u64 + 256 * (b[i + 1] as u64);
    if n >= 3 {
        r = r + 65536 * (b[i + 2] as u64);
    }
    if n == 4 {
        r = r + 16777216 * (b[i + 3] as u64);
    }
    r
}

/// Whether the frame chunk whose header is at `p` passes `alpha_frame_fits`.
fn frame_fits_at(b: &[u8], p: usize) -> (r: bool)
    requires
        p + 4 <= b@.len(),
    ensures
        r == alpha_frame_fits(b@, p as int),
{
    let n = b.len();
    if n < 32 || p > n - 32 {
        return true;
    }
    if !(b[p + 24] == 0x41 && b[p + 25] == 0x4c && b[p + 26] == 0x50 && b[p + 27] == 0x48) {
        return true;
    }
    let size = read_le(b, p + 28, 4);
    let q: u128 = p as u128 + 32 + size as u128 + (size % 2) as u128 + 8;
    if q + 10 > n as u128 {
        return true;
    }
    let q = q as usize;
    let w = read_le(b, q + 6, 2) % 16384;
    let h = read_le(b, q + 8, 2) % 16384;
    let fw = read_le(b, p + 14, 3) + 1;
    let fh = read_le(b, p + 17, 3) + 1;
    w <= fw && h <= fh
}

/// Whether `bytes` passes `webp_frames_consistent`: every animation frame tag is checked.
pub fn check_frames_consistent(bytes: &[u8]) -> (r: bool)
    ensures
        r == webp_frames_consistent(bytes@),
{
    let n = bytes.len();
    let mut p: usize = 0;
    while p < n
        invariant
            p <= n,
            n == bytes@.len(),
            forall|j: int| 0 <= j < p ==> (#[trigger] fourcc_at(bytes@, j, anmf()) ==> alpha_frame_fits(bytes@, j)),
        decreases n - p,
    {
        if n >= 4 && p < n - 3 && bytes[p] == 0x41 && bytes[p + 1] == 0x4e && bytes[p + 2] == 0x4d && bytes[p + 3] == 0x46 {
            if !frame_fits_at(bytes, p) {
                assert(fourcc_at(bytes@, p as int, anmf()));
                return false;
            }
        }
        p = p + 1;
    }
    assert forall|j: int| #[trigger] fourcc_at(bytes@, j, anmf()) implies alpha_frame_fits(bytes@, j) by {
        assert(0 <= j < n);
    }
    true
}

/// The decoder takes a buffer of `w * h * 4` bytes, the length of an RGBA image, for one
/// frame or image: that is its output size, an animation's canvas byte count fits the
/// `u32` it is sized in, and an animation's alpha frames have consistent sizes.
pub open spec fn rgba_buffer_fits(bytes: Seq<u8>) -> bool {
    let (w, h) = decoder::webp_dimensions(bytes);
    &&& decoder::webp_output_size(bytes) == Some((w * h * 4) as usize)
    &&& w * h * 4 <= usize::MAX
    &&& decoder::webp_animated(bytes) ==> w * h * 4 <= u32::MAX && webp_frames_consistent(bytes)
}

impl WebpTextureData {
    /// Reads the header of the WebP in `bytes`, with default decoder options.
    pub fn from_bytes(bytes: Vec<u8>) -> (r: Result<WebpTextureData, WebpLoadError>)
        ensures
            r is Ok <==> decoder::webp_header_reads(bytes@),
            r is Err ==> r == Err::<WebpTextureData, WebpLoadError>(WebpLoadError::Decoding),
            r matches Ok(d) ==> d.source() == bytes@ && d.reads() == 0,
    {
        let frames_fit = check_frames_consistent(bytes.as_slice());
        match webp_new(bytes, frames_fit) {
            Ok(data) => Ok(data),
            Err(_) => Err(WebpLoadError::Decoding),
        }
    }

    /// Width and height in pixels.
    pub fn dimensions(&self) -> (r: (u32, u32))
        ensures
            r == decoder::webp_dimensions(self.source()),
    {
        webp_dims(self)
    }

    /// Whether the image is an animation.
    pub fn is_animated(&self) -> (r: bool)
        ensures
            r == decoder::webp_animated(self.source()),
    {
        webp_is_animated(self)
    }

    /// Number of frames of one loop of the animation, 0 for a still image.
    pub fn num_frames(&self) -> (r: u32)
        ensures
            r == decoder::webp_num_frames(self.source()),
    {
        webp_frames(self)
    }

    /// Bytes of one image or frame, `None` when that overflows `usize`.
    pub fn output_buffer_size(&self) -> (r: Option<usize>)
        ensures
            r == decoder::webp_output_size(self.source()),
    {
        webp_buffer_size(self)
    }

    /// Reads the next frame of the animation into `buf`, which has the output size, and
    /// returns its duration in milliseconds.
    pub fn read_frame(&mut self, buf: &mut [u8]) -> (r: Result<u32, WebpLoadError>)
        requires
            decoder::webp_animated(old(self).source()),
            decoder::webp_output_size(old(self).source()) == Some(old(buf)@.len() as usize),
            decoder::webp_dimensions(old(self).source()).0 * decoder::webp_dimensions(old(self).source()).1
                * 4 <= u32::MAX,
            webp_frames_consistent(old(self).source()),
        ensures
            r is Ok <==> decoder::webp_frame(old(self).source(), old(self).reads()) is Some,
            r matches Ok(d) ==> decoder::webp_frame(old(self).source(), old(self).reads()) == Some(
                (d, final(buf)@),
            ),
            r is Err ==> r == Err::<u32, WebpLoadError>(WebpLoadError::Decoding),
            final(buf)@.len() == old(buf)@.len(),
            final(self).source() == old(self).source(),
            final(self).reads() == old(self).reads() + 1,
    {
        match webp_read_frame(self, buf) {
            Ok(duration) => Ok(duration),
            Err(_) => Err(WebpLoadError::Decoding),
        }
    }

    /// Reads the image (an animation's first frame) into `buf`, which has the output size.
    pub fn read_image(&mut self, buf: &mut [u8]) -> (r: Result<(), WebpLoadError>)
        requires
            decoder::webp_output_size(old(self).source()) == Some(old(buf)@.len() as usize),
            decoder::webp_animated(old(self).source()) ==> decoder::webp_dimensions(old(self).source()).0
                * decoder::webp_dimensions(old(self).source()).1 * 4 <= u32::MAX,
            decoder::webp_animated(old(self).source()) ==> webp_frames_consistent(old(self).source()),
        ensures
            r is Ok <==> decoder::webp_image(old(self).source()) is Some,
            r is Ok ==> decoder::webp_image(old(self).source()) == Some(final(buf)@),
            r is Err ==> r == Err::<(), WebpLoadError>(WebpLoadError::Decoding),
            final(buf)@.len() == old(buf)@.len(),
            final(self).source() == old(self).source(),
            final(self).reads() == old(self).reads(),
    {
        match webp_read_image(self, buf) {
            Ok(()) => Ok(()),
            Err(_) => Err(WebpLoadError::Decoding),
        }
    }

    /// The byte count of an RGBA image of this size, when the decoder takes a buffer of
    /// that length (`rgba_buffer_fits`).
    fn rgba_buffer_size(&self) -> (r: Option<usize>)
        ensures
            r is Some <==> rgba_buffer_fits(self.source()),
            r matches Some(n) ==> n == decoder::webp_dimensions(self.source()).0
                * decoder::webp_dimensions(self.source()).1 * 4,
    {
        let (w, h) = self.dimensions();
        proof {
            vstd::arithmetic::mul::lemma_mul_upper_bound(w as int, u32::MAX as int, h as int, u32::MAX as int);
        }
        let wh: u64 = (w as u64) * (h as u64);
        if wh > (usize::MAX as u64) / 4 {
            return None;
        }
        let len: usize = (wh as usize) * 4;
        match self.output_buffer_size() {
            None => None,
            Some(n) => {
                if n != len {
                    None
                } else if self.is_animated() && (wh > (u32::MAX as u64) / 4 || !self.frames_consistent()) {
                    None
                } else {
                    Some(len)
                }
            },
        }
    }

    /// Decodes the next animation frame into a new RGBA buffer of `w * h * 4` bytes,
    /// returning its duration and samples; `None` when the image is not animated, and
    /// `NotRgba` when the decoder does not take such a buffer.
    pub fn decode_frame(&mut self) -> (r: Option<Result<(u32, Vec<u8>), WebpLoadError>>)
        ensures
            r is None <==> !decoder::webp_animated(old(self).source()),
            r == Some(Err::<(u32, Vec<u8>), WebpLoadError>(WebpLoadError::NotRgba)) <==> decoder::webp_animated(
                old(self).source(),
            ) && !rgba_buffer_fits(old(self).source()),
            r matches Some(Ok((d, b))) ==> decoder::webp_frame(old(self).source(), old(self).reads())
                == Some((d, b@)),
            r is Some && rgba_buffer_fits(old(self).source()) ==> (r matches Some(Ok(_))
                <==> decoder::webp_frame(old(self).source(), old(self).reads()) is Some),
            final(self).source() == old(self).source(),
            final(self).reads() == old(self).reads() + (if r is Some && rgba_buffer_fits(old(self).source()) {
                1int
            } else {
                0int
            }),
    {
        if !self.is_animated() {
            return None;
        }
        match self.rgba_buffer_size() {
            None => Some(Err(WebpLoadError::NotRgba)),
            Some(n) => {
                let mut buf: Vec<u8> = vec![0u8; n];
                match self.read_frame(buf.as_mut_slice()) {
                    Ok(duration) => Some(Ok((duration, buf))),
                    Err(e) => Some(Err(e)),
                }
            },
        }
    }

    /// Decodes the image (an animation's first frame) into a new RGBA buffer of
    /// `w * h * 4` bytes; `NotRgba` when the decoder does not take such a buffer.
    pub fn decode_image(&mut self) -> (r: Result<Vec<u8>, WebpLoadError>)
        ensures
            r == Err::<Vec<u8>, WebpLoadError>(WebpLoadError::NotRgba) <==> !rgba_buffer_fits(old(self).source()),
            r matches Ok(b) ==> decoder::webp_image(old(self).source()) == Some(b@),
            rgba_buffer_fits(old(self).source()) ==> (r is Ok <==> decoder::webp_image(old(self).source()) is Some),
            final(self).source() == old(self).source(),
            final(self).reads() == old(self).reads(),
    {
        match self.rgba_buffer_size() {
            None => Err(WebpLoadError::NotRgba),
            Some(n) => {
                let mut buf: Vec<u8> = vec![0u8; n];
                match self.read_image(buf.as_mut_slice()) {
                    Ok(()) => Ok(buf),
                    Err(e) => Err(e),
                }
            },
        }
    }
}

} // verus!
