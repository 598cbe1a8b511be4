use vstd::prelude::*;
use crate::image::gif::Disposal;

verus! {

#[verifier::external_type_specification]
#[verifier::external_body]
pub struct ExGifDecodeOptions(gif::DecodeOptions);

#[verifier::external_type_specification]
#[verifier::external_body]
pub struct ExGifDecodingError(gif::DecodingError);

/// Decoder options: `gif::DecodeOptions::new()`, with RGBA output once `rgba` is set. Only
/// the trusted items below build or change one.
pub struct GifOptions {
    options: gif::DecodeOptions,
    rgba: Ghost<bool>,
}

impl GifOptions {
    /// Whether the options ask for RGBA output.
    pub closed spec fn rgba(&self) -> bool {
        self.rgba@
    }
}

/// Calls `gif::DecodeOptions::new`: the decoder's default options, whose colour output is
/// indexed, not RGBA.
#[verifier::external_body]
pub(crate) fn gif_decode_options() -> (r: GifOptions)
    ensures
        !r.rgba(),
{
    GifOptions { options: gif::DecodeOptions::new(), rgba: Ghost(false) }
}

/// Calls `gif::DecodeOptions::set_color_output` with RGBA output, so that frames come
/// out as 4 bytes per pixel; nothing else of the options changes.
#[verifier::external_body]
pub(crate) fn gif_set_rgba_output(options: &mut GifOptions)
    ensures
        final(options).rgba(),
{
    options.options.set_color_output(gif::ColorOutput::RGBA);
    options.rgba = Ghost(true);
}

/// The canvas width in the header, as `gif::Decoder::width` gives it on the decoder that
/// `read_info` made from `bytes` with default options and RGBA output.
pub uninterp spec fn gif_canvas_width(bytes: Seq<u8>) -> u16;

/// The canvas height in the header, as `gif::Decoder::height` gives it on the decoder
/// that `read_info` made from `bytes` with default options and RGBA output.
pub uninterp spec fn gif_canvas_height(bytes: Seq<u8>) -> u16;

/// How a call into the decoder failed: the data or the memory limit (deterministic), or an
/// allocation (`DecodingError::OutOfMemory`).
#[derive(Debug, Copy, Clone, PartialEq, Eq, Structural)]
pub enum GifFailure {
    Data,
    Memory,
}

/// Whether `gif::DecodeOptions::read_info`, with default options and RGBA output, accepts
/// `bytes` when none of its allocations fails.
pub uninterp spec fn gif_header_reads(bytes: Seq<u8>) -> bool;

/// What the call number `reads` (counting from 0) of `gif::Decoder::read_next_frame`
/// gives on the decoder that `read_info` made from `bytes` with default options and RGBA
/// output, when no call failed before and none of its allocations fails: delay, disposal
/// (variant for variant), top, left, width, height and RGBA buffer of the next frame,
/// `None` at the end of the stream, or `Err` when the data is rejected.
pub uninterp spec fn gif_frame(bytes: Seq<u8>, reads: nat) -> Result<
    Option<(u16, Disposal, u16, u16, u16, u16, Seq<u8>)>,
    (),
>;

/// A `gif::Decoder` over the bytes it reads. Its type is generic over `std::io::Read`, a
/// bound Verus cannot express, so the struct is opaque to Verus.
#[verifier::external_body]
struct GifDecoder {
    inner: gif::Decoder<std::io::Cursor<Vec<u8>>>,
}

/// A GIF whose header has been read, ready to decode frames. Only the trusted items below
/// build one or change its fields: `source` is the bytes its decoder reads, `reads` how
/// many times a frame was asked for, `clean` whether none of those calls failed.
pub struct GifTextureData {
    decoder: GifDecoder,
    source: Ghost<Seq<u8>>,
    reads: Ghost<nat>,
    clean: Ghost<bool>,
}

impl GifTextureData {
    /// The bytes the decoder reads.
    pub closed spec fn source(&self) -> Seq<u8> {
        self.source@
    }

    /// How many times a frame was asked of the decoder.
    pub closed spec fn reads(&self) -> nat {
        self.reads@
    }

    /// Whether none of the earlier frame reads failed.
    pub closed spec fn clean(&self) -> bool {
        self.clean@
    }
}

/// Calls `gif::DecodeOptions::read_info` on an in-memory reader over `bytes`: it parses
/// the header and global palette, and the decoder is kept with the bytes it reads. Unless
/// an allocation fails, it succeeds exactly on the named inputs.
#[verifier::external_body]
pub(crate) fn gif_read_info(options: GifOptions, bytes: Vec<u8>) -> (r: Result<GifTextureData, GifFailure>)
    requires
        options.rgba(),
    ensures
        r matches Ok(d) ==> d.source() == bytes@ && d.reads() == 0 && d.clean(),
        r != Err::<GifTextureData, GifFailure>(GifFailure::Memory) ==> (r is Ok <==> gif_header_reads(bytes@)),
{
    let ghost source = bytes@;
    match options.options.read_info(std::io::Cursor::new(bytes)) {
        Ok(inner) => Ok(GifTextureData { decoder: GifDecoder { inner }, source: Ghost(source), reads: Ghost(0), clean: Ghost(true) }),
        Err(gif::DecodingError::OutOfMemory) => Err(GifFailure::Memory),
        Err(_) => Err(GifFailure::Data),
    }
}

/// Calls `gif::Decoder::width` on the decoder of `data`, made from `data.source()`.
#[verifier::external_body]
pub(crate) fn gif_width(data: &GifTextureData) -> (r: u16)
    ensures
        r == gif_canvas_width(data.source()),
{
    data.decoder.inner.width()
}

/// Calls `gif::Decoder::height` on the decoder of `data`, made from `data.source()`.
#[verifier::external_body]
pub(crate) fn gif_height(data: &GifTextureData) -> (r: u16)
    ensures
        r == gif_canvas_height(data.source()),
{
    data.decoder.inner.height()
}

/// Calls `gif::Decoder::read_next_frame` on the decoder of `data` and copies out the
/// frame's delay, disposal (variant for variant), top, left, width, height and buffer,
/// then counts the read and whether it failed. With RGBA output the buffer holds 4 bytes
/// for each of the `width * height` pixels, as the crate's pixel converter sizes it. While
/// no earlier read failed, the outcome is the named one unless an allocation fails.
#[verifier::external_body]
pub(crate) fn gif_read_next_frame(data: &mut GifTextureData) -> (r: Result<
    Option<(u16, Disposal, u16, u16, u16, u16, Vec<u8>)>,
    GifFailure,
>)
    ensures
        r matches Ok(Some(f)) ==> f.6@.len() == 4 * f.4 * f.5,
        old(data).clean() && r != Err::<Option<(u16, Disposal, u16, u16, u16, u16, Vec<u8>)>, GifFailure>(GifFailure::Memory)
            ==> raw_outcome(r) == gif_frame(old(data).source(), old(data).reads()),
        final(data).source() == old(data).source(),
        final(data).reads() == old(data).reads() + 1,
        final(data).clean() == (old(data).clean() && r is Ok),
{
    let r = match data.decoder.inner.read_next_frame() {
        Ok(Some(f)) => Ok(Some((f.delay, match f.dispose {
            gif::DisposalMethod::Any => Disposal::Any,
            gif::DisposalMethod::Keep => Disposal::Keep,
            gif::DisposalMethod::Background => Disposal::Background,
            gif::DisposalMethod::Previous => Disposal::Previous,
        }, f.top, f.left, f.width, f.height, f.buffer.to_vec()))),
        Ok(None) => Ok(None),
        Err(gif::DecodingError::OutOfMemory) => Err(GifFailure::Memory),
        Err(_) => Err(GifFailure::Data),
    };
    data.reads = Ghost(data.reads@ + 1);
    data.clean = Ghost(data.clean@ && r is Ok);
    r
}

/// The outcome of a read with its buffer taken by view and the failure forgotten.
pub open spec fn raw_outcome(r: Result<Option<(u16, Disposal, u16, u16, u16, u16, Vec<u8>)>, GifFailure>) -> Result<
    Option<(u16, Disposal, u16, u16, u16, u16, Seq<u8>)>,
    (),
> {
    match r {
        Ok(o) => Ok(raw_fields(o)),
        Err(_) => Err(()),
    }
}

/// A raw frame read with its buffer taken by view.
pub open spec fn raw_fields(o: Option<(u16, Disposal, u16, u16, u16, u16, Vec<u8>)>) -> Option<
    (u16, Disposal, u16, u16, u16, u16, Seq<u8>),
> {
    match o {
        Some(f) => Some((f.0, f.1, f.2, f.3, f.4, f.5, f.6@)),
        None => None,
    }
}

} // verus!
