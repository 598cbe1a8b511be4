use image_viewer::image::avif::{AvifLoadError, AvifTextureData};
use image_viewer::image::metadata::Metadata;

#[test]
fn avif_parser_rejects_garbage() {
    assert!(matches!(AvifTextureData::from_bytes(vec![0, 1, 2, 3, 4, 5, 6, 7]), Err(AvifLoadError::Parsing)));
    assert!(matches!(AvifTextureData::from_bytes(Vec::new()), Err(AvifLoadError::Parsing)));
}

#[test]
fn metadata_holds_dimensions() {
    let m = Metadata { width: 640, height: 400 };
    assert_eq!((m.width, m.height), (640, 400));
}

use image_viewer::image::avif::{next_decoder_call, DecoderCall, DecoderReply};

#[test]
fn decoder_wait_loop_decisions() {
    assert_eq!(next_decoder_call(DecoderCall::GetPicture, DecoderReply::Again), DecoderCall::SendPendingData);
    assert_eq!(next_decoder_call(DecoderCall::GetPicture, DecoderReply::Done), DecoderCall::Return);
    assert_eq!(next_decoder_call(DecoderCall::GetPicture, DecoderReply::Failed), DecoderCall::Return);
    assert_eq!(next_decoder_call(DecoderCall::SendPendingData, DecoderReply::Done), DecoderCall::GetPicture);
    assert_eq!(next_decoder_call(DecoderCall::SendPendingData, DecoderReply::Again), DecoderCall::GetPicture);
    assert_eq!(next_decoder_call(DecoderCall::SendPendingData, DecoderReply::Failed), DecoderCall::Return);
}
