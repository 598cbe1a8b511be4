use vstd::prelude::*;

verus! {

#[verifier::external_type_specification]
#[verifier::external_body]
pub struct ExAvifParser<'a>(zenavif_parse::AvifParser<'a>);

#[verifier::external_type_specification]
#[verifier::external_body]
pub struct ExAvifError(zenavif_parse::Error);

/// How a call into the container parser failed: the data (deterministic), or an
/// allocation (`Error::OutOfMemory`, or an I/O error, which reading from memory raises
/// only when an allocation fails).
#[derive(Debug, Copy, Clone, PartialEq, Eq, Structural)]
pub enum AvifFailure {
    Data,
    Memory,
}

/// Whether `zenavif_parse::AvifParser::from_owned` accepts `bytes` when none of its
/// allocations fails.
pub uninterp spec fn avif_parses(bytes: Seq<u8>) -> bool;

/// Calls `zenavif_parse::AvifParser::from_owned`: parses the container in `bytes` and
/// keeps the parser together with the bytes it was built from, which the names below are
/// applied to. Unless an allocation fails, it succeeds exactly on the named inputs.
#[verifier::external_body]
pub(crate) fn avif_from_owned(bytes: Vec<u8>) -> (r: Result<AvifTextureData, AvifFailure>)
    ensures
        r matches Ok(d) ==> d.source() == bytes@,
        r != Err::<AvifTextureData, AvifFailure>(AvifFailure::Memory) ==> (r is Ok <==> avif_parses(bytes@)),
{
    let ghost source = bytes@;
    match zenavif_parse::AvifParser::from_owned(bytes) {
        Ok(parser) => Ok(AvifTextureData { parser, source: Ghost(source) }),
        Err(zenavif_parse::Error::OutOfMemory) | Err(zenavif_parse::Error::Io(_)) => Err(AvifFailure::Memory),
        Err(_) => Err(AvifFailure::Data),
    }
}

/// The maximum frame width and height that `primary_metadata` reports on the parser that
/// `from_owned` built from `bytes`, `None` when it fails on the data (not on an
/// allocation).
pub uninterp spec fn avif_max_frame_size(bytes: Seq<u8>) -> Option<(u32, u32)>;

/// Whether `grid_config` is `Some` on the parser that `from_owned` built from `bytes`.
pub uninterp spec fn avif_grid(bytes: Seq<u8>) -> bool;

/// The primary item's AV1 data that `primary_data` gives on the parser that `from_owned`
/// built from `bytes`, `None` when it fails on the data (not on an allocation).
pub uninterp spec fn avif_primary_item(bytes: Seq<u8>) -> Option<Seq<u8>>;

/// `None` when the parser that `from_owned` built from `bytes` has no alpha item;
/// otherwise the alpha item's AV1 data that `alpha_data` gives when it succeeds.
pub uninterp spec fn avif_alpha_item(bytes: Seq<u8>) -> Option<Seq<u8>>;

/// The frame count in `animation_info`, `None` for a still image, on the parser that
/// `from_owned` built from `bytes`.
pub uninterp spec fn avif_animation_frames(bytes: Seq<u8>) -> Option<usize>;

/// Duration in milliseconds, AV1 data and alpha data of animation frame `index` that
/// `frame` gives on the parser that `from_owned` built from `bytes`, `None` when it fails
/// on the data (not on an allocation).
pub uninterp spec fn avif_frame_of(bytes: Seq<u8>, index: usize) -> Option<(u32, Seq<u8>, Option<Seq<u8>>)>;

/// Calls `zenavif_parse::AvifParser::primary_metadata` on the parser of `data`, which
/// `from_owned` built from `data.source()`, and picks the maximum frame width and height
/// of the AV1 sequence header. Both are `NonZeroU32` there, so they are positive. Unless an
/// allocation fails, the outcome is the named one.
#[verifier::external_body]
pub(crate) fn avif_frame_size(data: &AvifTextureData) -> (r: Result<(u32, u32), AvifFailure>)
    ensures
        r matches Ok((w, h)) ==> w > 0 && h > 0,
        r matches Ok(s) ==> avif_max_frame_size(data.source()) == Some(s),
        r matches Err(AvifFailure::Data) ==> avif_max_frame_size(data.source()) is None,
{
    match data.parser.primary_metadata() {
        Ok(m) => Ok((m.max_frame_width.get(), m.max_frame_height.get())),
        Err(zenavif_parse::Error::OutOfMemory) | Err(zenavif_parse::Error::Io(_)) => Err(AvifFailure::Memory),
        Err(_) => Err(AvifFailure::Data),
    }
}

/// Calls `zenavif_parse::AvifParser::grid_config` on the parser of `data`, which
/// `from_owned` built from `data.source()`: true when the image is a grid of tiles.
#[verifier::external_body]
pub(crate) fn avif_has_grid(data: &AvifTextureData) -> (r: bool)
    ensures
        r == avif_grid(data.source()),
{
    data.parser.grid_config().is_some()
}

/// Calls `zenavif_parse::AvifParser::primary_data` on the parser of `data`, which
/// `from_owned` built from `data.source()`. Unless an allocation fails, the outcome is the
/// named one.
#[verifier::external_body]
pub(crate) fn avif_primary_data(data: &AvifTextureData) -> (r: Result<Vec<u8>, AvifFailure>)
    ensures
        r matches Ok(d) ==> avif_primary_item(data.source()) == Some(d@),
        r matches Err(AvifFailure::Data) ==> avif_primary_item(data.source()) is None,
{
    match data.parser.primary_data() {
        Ok(d) => Ok(d.into_owned()),
        Err(zenavif_parse::Error::OutOfMemory) | Err(zenavif_parse::Error::Io(_)) => Err(AvifFailure::Memory),
        Err(_) => Err(AvifFailure::Data),
    }
}

/// Calls `zenavif_parse::AvifParser::alpha_data` on the parser of `data`, which
/// `from_owned` built from `data.source()`: `None` exactly when there is no alpha item.
/// Reading the item may fail (bad extents, allocation); on success it is the named item.
#[verifier::external_body]
pub(crate) fn avif_alpha_data(data: &AvifTextureData) -> (r: Option<Result<Vec<u8>, zenavif_parse::Error>>)
    ensures
        r is Some <==> avif_alpha_item(data.source()) is Some,
        r matches Some(Ok(d)) ==> avif_alpha_item(data.source()) == Some(d@),
{
    data.parser.alpha_data().map(|res| res.map(|d| d.into_owned()))
}

/// Calls `zenavif_parse::AvifParser::animation_info` on the parser of `data`, which
/// `from_owned` built from `data.source()`, and picks the frame count; `None` for a still
/// image.
#[verifier::external_body]
pub(crate) fn avif_frame_count(data: &AvifTextureData) -> (r: Option<usize>)
    ensures
        r == avif_animation_frames(data.source()),
{
    data.parser.animation_info().map(|info| info.frame_count)
}

/// Calls `zenavif_parse::AvifParser::frame` on the parser of `data`, which `from_owned`
/// built from `data.source()`: duration in milliseconds, AV1 data and alpha data of
/// animation frame `index`. Unless an allocation fails, the outcome is the named one.
#[verifier::external_body]
pub(crate) fn avif_frame(data: &AvifTextureData, index: usize) -> (r: Result<
    (u32, Vec<u8>, Option<Vec<u8>>),
    AvifFailure,
>)
    ensures
        r matches Ok(f) ==> avif_frame_of(data.source(), index) == Some(frame_parts(f)),
        r matches Err(AvifFailure::Data) ==> avif_frame_of(data.source(), index) is None,
{
    match data.parser.frame(index) {
        Ok(f) => Ok((f.duration_ms, f.data.into_owned(), f.alpha_data.map(|a| a.into_owned()))),
        Err(zenavif_parse::Error::OutOfMemory) | Err(zenavif_parse::Error::Io(_)) => Err(AvifFailure::Memory),
        Err(_) => Err(AvifFailure::Data),
    }
}

/// A frame's parts with its data taken by view.
pub open spec fn frame_parts(f: (u32, Vec<u8>, Option<Vec<u8>>)) -> (u32, Seq<u8>, Option<Seq<u8>>) {
    (
        f.0,
        f.1@,
        match f.2 {
            Some(a) => Some(a@),
            None => None,
        },
    )
}

/// A parsed AVIF container, ready to hand its AV1 data to a decoder. Only
/// `avif_from_owned` builds one, and no code writes its fields afterwards.
pub struct AvifTextureData {
    parser: zenavif_parse::AvifParser<'static>,
    /// The bytes the parser was built from.
    source: Ghost<Seq<u8>>,
}

impl AvifTextureData {
    /// The container bytes this data was parsed from.
    pub closed spec fn source(&self) -> Seq<u8> {
        self.source@
    }
}

} // verus!
