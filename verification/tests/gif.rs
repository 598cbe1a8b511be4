use image_viewer::image::gif::{get_horizontal_offset, get_vertical_offset, Disposal, GifFrameInfo};

fn test_frame(left: u32, top: u32, width: u32, height: u32) -> GifFrameInfo {
    GifFrameInfo {
        left,
        top,
        width,
        height,
        duration: 0,
        disposal: Disposal::Keep,
    }
}

#[test]
fn gif_offsets() {
    // completely overlapping

    let f1 = test_frame(0, 0, 100, 100);
    let f2 = test_frame(0, 0, 50, 50);
    let hoffset = get_horizontal_offset(&f1, &f2);
    let voffset = get_vertical_offset(&f1, &f2);
    assert_eq!(get_horizontal_offset(&f1, &f2), get_horizontal_offset(&f2, &f1));
    assert_eq!(get_vertical_offset(&f1, &f2), get_vertical_offset(&f2, &f1));
    assert_eq!(hoffset, (0, 0, 50));
    assert_eq!(voffset, (0, 0, 50));

    let f3 = test_frame(50, 50, 50, 50);
    let hoffset = get_horizontal_offset(&f1, &f3);
    let voffset = get_vertical_offset(&f1, &f3);
    assert_eq!(hoffset, (50, 0, 50));
    assert_eq!(voffset, (50 * f1.width, 0, 50));
    let hoffset = get_horizontal_offset(&f3, &f1);
    let voffset = get_vertical_offset(&f3, &f1);
    assert_eq!(hoffset, (0, 50, 50));
    assert_eq!(voffset, (0, 50 * f1.width, 50));

    let f4 = test_frame(25, 25, 50, 50);
    let hoffset = get_horizontal_offset(&f1, &f4);
    let voffset = get_vertical_offset(&f1, &f4);
    assert_eq!(hoffset, (25, 0, 50));
    assert_eq!(voffset, (25 * f1.width, 0, 50));
    let hoffset = get_horizontal_offset(&f4, &f1);
    let voffset = get_vertical_offset(&f4, &f1);
    assert_eq!(hoffset, (0, 25, 50));
    assert_eq!(voffset, (0, 25 * f1.width, 50));

    // partially overlapping

    let f5 = test_frame(50, 50, 100, 100);
    let hoffset = get_horizontal_offset(&f1, &f5);
    let voffset = get_vertical_offset(&f1, &f5);
    assert_eq!(hoffset, (50, 0, 50));
    assert_eq!(voffset, (50 * f1.width, 0, 50));
    let hoffset = get_horizontal_offset(&f5, &f1);
    let voffset = get_vertical_offset(&f5, &f1);
    assert_eq!(hoffset, (0, 50, 50));
    assert_eq!(voffset, (0, 50 * f1.width, 50));

    let f6 = test_frame(100, 25, 100, 100);
    let hoffset = get_horizontal_offset(&f5, &f6);
    let voffset = get_vertical_offset(&f5, &f6);
    assert_eq!(hoffset, (50, 0, 50));
    assert_eq!(voffset, (0, 25 * f6.width, 75));
    let hoffset = get_horizontal_offset(&f6, &f5);
    let voffset = get_vertical_offset(&f6, &f5);
    assert_eq!(hoffset, (0, 50, 50));
    assert_eq!(voffset, (25 * f6.width, 0, 75));
}

use image_viewer::image::animation::PlaybackAction;
use image_viewer::image::gif::{
    blend_alpha, blend_alpha_sound, clear_len, GifEvent, GifFrame, GifLoadError, GifPlayer,
    GifTextureData,
};

/// A 1x1 GIF: white pixel, delay 10, disposal "keep".
const ONE_PIXEL_GIF: [u8; 43] = [
    0x47, 0x49, 0x46, 0x38, 0x39, 0x61, 0x01, 0x00, 0x01, 0x00, 0x80, 0x00, 0x00, 0xFF, 0xFF,
    0xFF, 0x00, 0x00, 0x00, 0x21, 0xF9, 0x04, 0x04, 0x0A, 0x00, 0x00, 0x00, 0x2C, 0x00, 0x00,
    0x00, 0x00, 0x01, 0x00, 0x01, 0x00, 0x00, 0x02, 0x02, 0x44, 0x01, 0x00, 0x3B,
];

#[test]
fn gif_decoder_reads_header_and_frames() {
    let mut data = GifTextureData::from_bytes(ONE_PIXEL_GIF.to_vec()).ok().unwrap();
    assert_eq!(data.dimensions(), (1, 1));
    let frame = data.next_frame().ok().unwrap().unwrap();
    assert_eq!(frame.delay, 10);
    assert_eq!(frame.dispose, Disposal::Keep);
    assert_eq!((frame.left, frame.top, frame.width, frame.height), (0, 0, 1, 1));
    assert_eq!(frame.buffer, vec![255, 255, 255, 255]);
    assert!(data.next_frame().ok().unwrap().is_none());
}

#[test]
fn gif_decoder_rejects_garbage() {
    assert!(matches!(GifTextureData::from_bytes(vec![1, 2, 3, 4]), Err(GifLoadError::Decoding)));
}

#[test]
fn blend_copies_previous_pixel_into_transparent_overlap() {
    // Current frame: 2x2 at (1, 1); previous frame: 2x2 at (0, 0). They share canvas (1, 1).
    let current = GifFrameInfo { left: 1, top: 1, width: 2, height: 2, duration: 0, disposal: Disposal::Keep };
    let previous = GifFrameInfo { left: 0, top: 0, width: 2, height: 2, duration: 0, disposal: Disposal::Keep };
    let mut bytes = vec![1, 1, 1, 0, 2, 2, 2, 0, 3, 3, 3, 0, 4, 4, 4, 0];
    let prev = vec![10, 10, 10, 10, 20, 20, 20, 20, 30, 30, 30, 30, 40, 40, 40, 40];
    assert!(blend_alpha_sound(bytes.len(), &current, prev.len(), &previous));
    blend_alpha(&mut bytes, &current, &prev, &previous);
    assert_eq!(bytes, vec![40, 40, 40, 40, 2, 2, 2, 0, 3, 3, 3, 0, 4, 4, 4, 0]);
}

#[test]
fn blend_keeps_opaque_pixels_and_skips_disjoint_frames() {
    let current = GifFrameInfo { left: 0, top: 0, width: 1, height: 1, duration: 0, disposal: Disposal::Any };
    let previous = GifFrameInfo { left: 0, top: 0, width: 1, height: 1, duration: 0, disposal: Disposal::Keep };
    let mut bytes = vec![5, 6, 7, 8];
    blend_alpha(&mut bytes, &current, &[1, 2, 3, 4], &previous);
    assert_eq!(bytes, vec![5, 6, 7, 8]);
    let far = GifFrameInfo { left: 5, top: 0, width: 1, height: 1, duration: 0, disposal: Disposal::Keep };
    let mut bytes = vec![5, 6, 7, 0];
    blend_alpha(&mut bytes, &current, &[1, 2, 3, 4], &far);
    assert_eq!(bytes, vec![5, 6, 7, 0]);
}

#[test]
fn blend_soundness_check() {
    let current = GifFrameInfo { left: 0, top: 0, width: 2, height: 1, duration: 0, disposal: Disposal::Keep };
    let previous = GifFrameInfo { left: 0, top: 0, width: 2, height: 1, duration: 0, disposal: Disposal::Keep };
    assert!(blend_alpha_sound(8, &current, 8, &previous));
    assert!(!blend_alpha_sound(8, &current, 4, &previous));
    assert!(!blend_alpha_sound(4, &current, 8, &previous));
    let huge = GifFrameInfo { left: u32::MAX, top: 0, width: 2, height: 1, duration: 0, disposal: Disposal::Keep };
    assert!(!blend_alpha_sound(8, &huge, 8, &previous));
    let far = GifFrameInfo { left: 10, top: 0, width: 2, height: 1, duration: 0, disposal: Disposal::Keep };
    assert!(blend_alpha_sound(0, &far, 0, &previous));
}

#[test]
fn clear_only_for_partial_frames_that_do_not_keep() {
    let partial = GifFrameInfo { left: 0, top: 0, width: 2, height: 3, duration: 0, disposal: Disposal::Background };
    assert_eq!(clear_len(&partial, 4, 3), Some(48));
    let full = GifFrameInfo { width: 4, ..partial };
    assert_eq!(clear_len(&full, 4, 3), None);
    let keep = GifFrameInfo { disposal: Disposal::Keep, ..partial };
    assert_eq!(clear_len(&keep, 4, 3), None);
}

fn frame(left: u16, delay: u16, dispose: Disposal, buffer: Vec<u8>) -> GifFrame {
    GifFrame { delay, dispose, top: 0, left, width: 1, height: 1, buffer }
}

#[test]
fn gif_player_decodes_then_replays() {
    let mut player = GifPlayer::new(2, 1);
    let first = player.step(GifEvent::Decoded(frame(0, 5, Disposal::Keep, vec![10, 20, 30, 40])));
    assert_eq!(
        first,
        PlaybackAction::Show { frame: 0, mark_loaded: true, repaint_delay_ms: 0, sleep_ms: 50, minus_elapsed: false }
    );
    // The first frame spans the whole canvas.
    assert_eq!((player.frame_info(0).width, player.frame_info(0).height), (2, 1));
    assert_eq!(player.step(GifEvent::Woke { shutdown: false }), PlaybackAction::Decode { frame: 1 });
    let second = player.step(GifEvent::Decoded(frame(0, 3, Disposal::Any, vec![1, 2, 3, 0])));
    assert_eq!(
        second,
        PlaybackAction::Show { frame: 1, mark_loaded: false, repaint_delay_ms: 0, sleep_ms: 30, minus_elapsed: true }
    );
    // The transparent pixel took the previous frame's pixel.
    assert_eq!(player.frame_bytes(1), &[10, 20, 30, 40]);
    assert_eq!(player.step(GifEvent::Woke { shutdown: false }), PlaybackAction::Decode { frame: 2 });
    assert_eq!(
        player.step(GifEvent::Exhausted),
        PlaybackAction::Show { frame: 0, mark_loaded: false, repaint_delay_ms: 50, sleep_ms: 50, minus_elapsed: false }
    );
    assert_eq!(
        player.step(GifEvent::Woke { shutdown: false }),
        PlaybackAction::Show { frame: 1, mark_loaded: false, repaint_delay_ms: 30, sleep_ms: 30, minus_elapsed: false }
    );
    assert_eq!(
        player.step(GifEvent::Woke { shutdown: false }),
        PlaybackAction::Show { frame: 0, mark_loaded: false, repaint_delay_ms: 50, sleep_ms: 50, minus_elapsed: false }
    );
    assert_eq!(player.frame_count(), 2);
    assert_eq!(player.step(GifEvent::Woke { shutdown: true }), PlaybackAction::Stop);
}

#[test]
fn gif_player_stops_on_shutdown_while_decoding() {
    let mut player = GifPlayer::new(1, 1);
    player.step(GifEvent::Decoded(frame(0, 1, Disposal::Any, vec![0, 0, 0, 255])));
    assert_eq!(player.step(GifEvent::Woke { shutdown: true }), PlaybackAction::Stop);
}

#[test]
fn offsets_swap_law_on_values() {
    let a = test_frame(3, 7, 10, 4);
    let b = test_frame(8, 2, 20, 30);
    let (x, y, w) = get_horizontal_offset(&a, &b);
    assert_eq!(get_horizontal_offset(&b, &a), (y, x, w));
    assert_eq!((x, y, w), (5, 0, 5));
    let (p, q, h) = get_vertical_offset(&a, &b);
    assert_eq!(get_vertical_offset(&b, &a), (q, p, h));
    assert_eq!((p, q, h), (0, 5 * 20, 4));
    // The shared area lies inside both frames.
    assert!(x + w <= a.width && y + w <= b.width);
}
