use image_viewer::image::webp::{check_frames_consistent, WebpLoadError, WebpTextureData};

/// A lossless 1x1 WebP.
const ONE_PIXEL_WEBP: [u8; 34] = [
    82, 73, 70, 70, 26, 0, 0, 0, 87, 69, 66, 80, 86, 80, 56, 76, 13, 0, 0, 0, 47, 0, 0, 0, 16, 7, 16,
    17, 17, 136, 136, 254, 7, 0,
];

#[test]
fn webp_decoder_rejects_garbage() {
    assert!(matches!(WebpTextureData::from_bytes(vec![1, 2, 3, 4]), Err(WebpLoadError::Decoding)));
    assert!(matches!(WebpTextureData::from_bytes(Vec::new()), Err(WebpLoadError::Decoding)));
}

#[test]
fn webp_still_image_header_and_pixels() {
    let mut data = WebpTextureData::from_bytes(ONE_PIXEL_WEBP.to_vec()).ok().unwrap();
    assert_eq!(data.dimensions(), (1, 1));
    assert!(!data.is_animated());
    assert_eq!(data.num_frames(), 0);
    let size = data.output_buffer_size().unwrap();
    assert!(size == 3 || size == 4);
    assert!(data.frames_consistent());
    assert!(data.decode_frame().is_none());
    let mut buf = vec![7u8; size];
    data.read_image(&mut buf).ok().unwrap();
    if size == 4 {
        let pixels = data.decode_image().ok().unwrap();
        assert_eq!(buf, pixels);
    } else {
        // Without alpha the decoder does not take an RGBA buffer.
        assert!(matches!(data.decode_image(), Err(WebpLoadError::NotRgba)));
    }
}

/// An animation frame chunk (1x1 frame) whose alpha chunk is followed by a VP8 picture of
/// `w` x `h` pixels.
fn alpha_frame(w: u8, h: u8) -> Vec<u8> {
    let mut b = vec![0u8; 52];
    b[0..4].copy_from_slice(b"ANMF");
    b[4] = 44;
    b[24..28].copy_from_slice(b"ALPH");
    b[28] = 2;
    b[34..38].copy_from_slice(b"VP8 ");
    b[45..48].copy_from_slice(&[0x9d, 0x01, 0x2a]);
    b[48] = w;
    b[50] = h;
    b
}

#[test]
fn webp_alpha_frame_sizes_checked() {
    assert!(check_frames_consistent(&alpha_frame(1, 1)));
    assert!(!check_frames_consistent(&alpha_frame(5, 1)));
    assert!(!check_frames_consistent(&alpha_frame(1, 2)));
    assert!(check_frames_consistent(&ONE_PIXEL_WEBP));
    assert!(check_frames_consistent(&[]));
}
