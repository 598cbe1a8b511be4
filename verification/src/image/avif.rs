use vstd::prelude::*;
use crate::image::metadata::Metadata;

pub mod container;
pub mod yuv;

pub use container::AvifTextureData;
use container::{
    avif_alpha_data, avif_frame, avif_frame_count, avif_frame_size, avif_from_owned, avif_has_grid,
    avif_primary_data,
};

verus! {

/// Why an AVIF file could not be read.
#[derive(Debug, Copy, Clone, PartialEq, Eq, Structural)]
pub enum AvifLoadError {
    /// The container parser rejected the data.
    Parsing,
    /// The container parser could not allocate memory.
    OutOfMemory,
}

/// The library's error for a failed parser call.
pub open spec fn spec_load_error(f: container::AvifFailure) -> AvifLoadError {
    match f {
        container::AvifFailure::Data => AvifLoadError::Parsing,
        container::AvifFailure::Memory => AvifLoadError::OutOfMemory,
    }
}

fn load_error(f: container::AvifFailure) -> (e: AvifLoadError)
    ensures
        e == spec_load_error(f),
{
    match f {
        container::AvifFailure::Data => AvifLoadError::Parsing,
        container::AvifFailure::Memory => AvifLoadError::OutOfMemory,
    }
}

/// One animation frame: how long it lasts and its AV1 data (colour, optional alpha).
pub struct AvifFrame {
    pub duration_ms: u32,
    pub data: Vec<u8>,
    pub alpha: Option<Vec<u8>>,
}

impl AvifFrame {
    /// The frame's parts with its data taken by view.
    pub open spec fn parts(&self) -> (u32, Seq<u8>, Option<Seq<u8>>) {
        container::frame_parts((self.duration_ms, self.data, self.alpha))
    }
}

impl AvifTextureData {
    /// Parses the AVIF container in `bytes`. Unless memory runs out, it succeeds exactly
    /// when the parser accepts the bytes; a parsed container remembers its bytes.
    pub fn from_bytes(bytes: Vec<u8>) -> (r: Result<AvifTextureData, AvifLoadError>)
        ensures
            r != Err::<AvifTextureData, AvifLoadError>(AvifLoadError::OutOfMemory) ==> (r is Ok
                <==> container::avif_parses(bytes@)),
            r matches Ok(d) ==> d.source() == bytes@,
    {
        match avif_from_owned(bytes) {
            Ok(data) => Ok(data),
            Err(f) => Err(load_error(f)),
        }
    }

    /// Size of the texture: the maximum frame size of the primary item. Unless memory runs
    /// out, it is given exactly when the parser reads it from the data.
    pub fn metadata(&self) -> (r: Result<Metadata, AvifLoadError>)
        ensures
            r matches Ok(m) ==> m.width > 0 && m.height > 0,
            r matches Ok(m) ==> container::avif_max_frame_size(self.source()) == Some((m.width, m.height)),
            r == Err::<Metadata, AvifLoadError>(AvifLoadError::Parsing) ==> container::avif_max_frame_size(
                self.source(),
            ) is None,
    {
        match avif_frame_size(self) {
            Ok((width, height)) => Ok(Metadata { width, height }),
            Err(f) => Err(load_error(f)),
        }
    }

    /// Whether the image is made of grid tiles.
    pub fn is_grid(&self) -> (r: bool)
        ensures
            r == container::avif_grid(self.source()),
    {
        avif_has_grid(self)
    }

    /// AV1 data of the primary (colour) item. Unless memory runs out, it is given exactly
    /// when the parser reads it from the data.
    pub fn primary_data(&self) -> (r: Result<Vec<u8>, AvifLoadError>)
        ensures
            r matches Ok(d) ==> container::avif_primary_item(self.source()) == Some(d@),
            r == Err::<Vec<u8>, AvifLoadError>(AvifLoadError::Parsing) ==> container::avif_primary_item(
                self.source(),
            ) is None,
    {
        match avif_primary_data(self) {
            Ok(data) => Ok(data),
            Err(f) => Err(load_error(f)),
        }
    }

    /// AV1 data of the alpha item, `None` when the image has none.
    pub fn alpha_data(&self) -> (r: Option<Result<Vec<u8>, AvifLoadError>>)
        ensures
            r is Some <==> container::avif_alpha_item(self.source()) is Some,
            r matches Some(Ok(d)) ==> container::avif_alpha_item(self.source()) == Some(d@),
            r matches Some(Err(e)) ==> e == AvifLoadError::Parsing,
    {
        match avif_alpha_data(self) {
            Some(Ok(data)) => Some(Ok(data)),
            Some(Err(_)) => Some(Err(AvifLoadError::Parsing)),
            None => None,
        }
    }

    /// Number of frames of an animated image, `None` for a still image.
    pub fn animation_frame_count(&self) -> (r: Option<usize>)
        ensures
            r == container::avif_animation_frames(self.source()),
    {
        avif_frame_count(self)
    }

    /// Animation frame `index`. Unless memory runs out, it is given exactly when the parser
    /// reads it from the data.
    pub fn frame(&self, index: usize) -> (r: Result<AvifFrame, AvifLoadError>)
        ensures
            r matches Ok(f) ==> container::avif_frame_of(self.source(), index) == Some(f.parts()),
            r == Err::<AvifFrame, AvifLoadError>(AvifLoadError::Parsing) ==> container::avif_frame_of(
                self.source(),
                index,
            ) is None,
    {
        match avif_frame(self, index) {
            Ok((duration_ms, data, alpha)) => Ok(AvifFrame { duration_ms, data, alpha }),
            Err(f) => Err(load_error(f)),
        }
    }
}

} // verus!

verus! {

/// A call on the AV1 decoder while waiting for a picture.
#[derive(Debug, Copy, Clone, PartialEq, Eq, Structural)]
pub enum DecoderCall {
    /// Ask for a decoded picture.
    GetPicture,
    /// Feed the data the decoder still holds.
    SendPendingData,
    /// Stop and hand back the last answer.
    Return,
}

/// What the decoder answered to the last call.
#[derive(Debug, Copy, Clone, PartialEq, Eq, Structural)]
pub enum DecoderReply {
    /// Success: a picture, or data accepted.
    Done,
    /// The decoder needs another round.
    Again,
    /// Any other error.
    Failed,
}

/// The call that follows `call` answered by `reply`: a picture request that must wait
/// feeds pending data, fed data is followed by a new picture request, and anything else
/// ends the wait.
pub open spec fn spec_next_decoder_call(call: DecoderCall, reply: DecoderReply) -> DecoderCall {
    match (call, reply) {
        (DecoderCall::GetPicture, DecoderReply::Again) => DecoderCall::SendPendingData,
        (DecoderCall::SendPendingData, DecoderReply::Failed) => DecoderCall::Return,
        (DecoderCall::SendPendingData, _) => DecoderCall::GetPicture,
        _ => DecoderCall::Return,
    }
}

/// Decides the next call while reading a picture until it is ready.
pub fn next_decoder_call(call: DecoderCall, reply: DecoderReply) -> (next: DecoderCall)
    ensures
        next == spec_next_decoder_call(call, reply),
{
    match call {
        DecoderCall::GetPicture => match reply {
            DecoderReply::Again => DecoderCall::SendPendingData,
            _ => DecoderCall::Return,
        },
        DecoderCall::SendPendingData => match reply {
            DecoderReply::Done | DecoderReply::Again => DecoderCall::GetPicture,
            DecoderReply::Failed => DecoderCall::Return,
        },
        DecoderCall::Return => DecoderCall::Return,
    }
}

} // verus!
