use vstd::prelude::*;

verus! {

#[verifier::external_type_specification]
#[verifier::external_body]
pub struct ExWebpDecodingError(image_webp::DecodingError);

/// Whether `image_webp::WebPDecoder::new_with_options` with default options accepts the
/// header of `bytes`.
pub uninterp spec fn webp_header_reads(bytes: Seq<u8>) -> bool;

/// The `(width, height)` that `WebPDecoder::dimensions` gives on the decoder made from
/// `bytes` with default options.
pub uninterp spec fn webp_dimensions(bytes: Seq<u8>) -> (u32, u32);

/// Whether `WebPDecoder::is_animated` holds of the decoder made from `bytes`.
pub uninterp spec fn webp_animated(bytes: Seq<u8>) -> bool;

/// What `WebPDecoder::num_frames` gives on the decoder made from `bytes`.
pub uninterp spec fn webp_num_frames(bytes: Seq<u8>) -> u32;

/// What `WebPDecoder::output_buffer_size` gives on the decoder made from `bytes`: the
/// bytes of one image or frame, 4 per pixel with alpha and 3 without.
pub uninterp spec fn webp_output_size(bytes: Seq<u8>) -> Option<usize>;

/// What `WebPDecoder::read_image` gives on the decoder made from `bytes`, with a buffer of
/// the output size: `Some` of the whole buffer it fills, or `None` when it fails.
pub uninterp spec fn webp_image(bytes: Seq<u8>) -> Option<Seq<u8>>;

/// What the call number `reads` (counting from 0) of `WebPDecoder::read_frame` gives on
/// the decoder made from `bytes`, with a buffer of the output size: `Some` of the frame's
/// duration in milliseconds and the whole buffer it fills, or `None` when it fails.
pub uninterp spec fn webp_frame(bytes: Seq<u8>, reads: nat) -> Option<(u32, Seq<u8>)>;

/// An `image_webp::WebPDecoder` over the bytes it reads. Its type is generic over
/// `BufRead + Seek`, bounds Verus cannot express, so the struct is opaque to Verus.
#[verifier::external_body]
struct WebpDecoder {
    inner: image_webp::WebPDecoder<std::io::Cursor<Vec<u8>>>,
}

/// A WebP whose header has been read. Only the trusted items below build one or change its
/// fields: `source` is the bytes its decoder reads, `reads` how many times a frame was
/// asked for, and `frames_fit` whether the sizes of its alpha frames are consistent.
pub struct WebpTextureData {
    decoder: WebpDecoder,
    source: Ghost<Seq<u8>>,
    reads: Ghost<nat>,
    frames_fit: bool,
}

impl WebpTextureData {
    #[verifier::type_invariant]
    spec fn frames_fit_inv(self) -> bool {
        self.frames_fit == crate::image::webp::webp_frames_consistent(self.source@)
    }

    /// Whether the alpha frames of the source have consistent sizes (see
    /// `webp_frames_consistent`).
    pub fn frames_consistent(&self) -> (r: bool)
        ensures
            r == crate::image::webp::webp_frames_consistent(self.source()),
    {
        proof {
            use_type_invariant(self);
        }
        self.frames_fit
    }

    /// The bytes the decoder reads.
    pub closed spec fn source(&self) -> Seq<u8> {
        self.source@
    }

    /// How many times a frame was asked of the decoder.
    pub closed spec fn reads(&self) -> nat {
        self.reads@
    }
}

/// Calls `image_webp::WebPDecoder::new_with_options` with default options on an
/// in-memory reader over `bytes`, and keeps the decoder with the bytes it reads and
/// `frames_fit`, which the caller computed from them. The decoder allocates infallibly and
/// has no memory limit by default, so the outcome is a function of the bytes.
#[verifier::external_body]
pub(crate) fn webp_new(bytes: Vec<u8>, frames_fit: bool) -> (r: Result<WebpTextureData, image_webp::DecodingError>)
    requires
        frames_fit == crate::image::webp::webp_frames_consistent(bytes@),
    ensures
        r is Ok <==> webp_header_reads(bytes@),
        r matches Ok(d) ==> d.source() == bytes@ && d.reads() == 0,
{
    let ghost source = bytes@;
    match image_webp::WebPDecoder::new_with_options(std::io::Cursor::new(bytes), Default::default()) {
        Ok(inner) => Ok(WebpTextureData { decoder: WebpDecoder { inner }, source: Ghost(source), reads: Ghost(0), frames_fit }),
        Err(e) => Err(e),
    }
}

/// Calls `WebPDecoder::dimensions` on the decoder of `data`, made from `data.source()`.
#[verifier::external_body]
pub(crate) fn webp_dims(data: &WebpTextureData) -> (r: (u32, u32))
    ensures
        r == webp_dimensions(data.source()),
{
    data.decoder.inner.dimensions()
}

/// Calls `WebPDecoder::is_animated` on the decoder of `data`, made from `data.source()`.
#[verifier::external_body]
pub(crate) fn webp_is_animated(data: &WebpTextureData) -> (r: bool)
    ensures
        r == webp_animated(data.source()),
{
    data.decoder.inner.is_animated()
}

/// Calls `WebPDecoder::num_frames` on the decoder of `data`, made from `data.source()`.
#[verifier::external_body]
pub(crate) fn webp_frames(data: &WebpTextureData) -> (r: u32)
    ensures
        r == webp_num_frames(data.source()),
{
    data.decoder.inner.num_frames()
}

/// Calls `WebPDecoder::output_buffer_size` on the decoder of `data`, made from
/// `data.source()`.
#[verifier::external_body]
pub(crate) fn webp_buffer_size(data: &WebpTextureData) -> (r: Option<usize>)
    ensures
        r == webp_output_size(data.source()),
{
    data.decoder.inner.output_buffer_size()
}

/// Calls `WebPDecoder::read_image` on the decoder of `data`, made from `data.source()`.
/// With a buffer of the output size it fills the whole buffer when it succeeds; an
/// animation's first frame is read on saved animation state, so later frame reads are not
/// affected. For an animation it reads that frame as `read_frame` does, so the same
/// conditions keep it from panicking: the canvas byte count fits `u32`, and no alpha frame
/// holds a VP8 picture larger than the frame.
#[verifier::external_body]
pub(crate) fn webp_read_image(data: &mut WebpTextureData, buf: &mut [u8]) -> (r: Result<(), image_webp::DecodingError>)
    requires
        webp_output_size(old(data).source()) == Some(old(buf)@.len() as usize),
        webp_animated(old(data).source()) ==> webp_dimensions(old(data).source()).0
            * webp_dimensions(old(data).source()).1 * 4 <= u32::MAX,
        webp_animated(old(data).source()) ==> crate::image::webp::webp_frames_consistent(old(data).source()),
    ensures
        r is Ok <==> webp_image(old(data).source()) is Some,
        r is Ok ==> webp_image(old(data).source()) == Some(final(buf)@),
        final(buf)@.len() == old(buf)@.len(),
        final(data).source() == old(data).source(),
        final(data).reads() == old(data).reads(),
{
    data.decoder.inner.read_image(buf)
}

/// Calls `WebPDecoder::read_frame` on the decoder of `data`, made from `data.source()`,
/// and counts the read. It panics unless the image is animated and the buffer has the
/// output size; the canvas is sized in `u32`, so its byte count must fit; and a frame
/// whose first sub-chunk is an alpha chunk decodes the VP8 picture after it without
/// comparing its size with the frame's, then fills a frame-sized buffer with it, so that
/// picture must not be larger (`webp_frames_consistent`). When it succeeds it fills the
/// whole buffer with the composed frame.
#[verifier::external_body]
pub(crate) fn webp_read_frame(data: &mut WebpTextureData, buf: &mut [u8]) -> (r: Result<u32, image_webp::DecodingError>)
    requires
        webp_animated(old(data).source()),
        webp_output_size(old(data).source()) == Some(old(buf)@.len() as usize),
        webp_dimensions(old(data).source()).0 * webp_dimensions(old(data).source()).1 * 4 <= u32::MAX,
        crate::image::webp::webp_frames_consistent(old(data).source()),
    ensures
        r is Ok <==> webp_frame(old(data).source(), old(data).reads()) is Some,
        r matches Ok(d) ==> webp_frame(old(data).source(), old(data).reads()) == Some((d, final(buf)@)),
        final(buf)@.len() == old(buf)@.len(),
        final(data).source() == old(data).source(),
        final(data).reads() == old(data).reads() + 1,
{
    let r = data.decoder.inner.read_frame(buf);
    data.reads = Ghost(data.reads@ + 1);
    r
}

} // verus!
