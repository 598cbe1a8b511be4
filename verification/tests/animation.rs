use image_viewer::image::animation::{AnimationEvent, AnimationPlayer, PlaybackAction};

fn show(frame: usize, ms: u64, minus_elapsed: bool) -> PlaybackAction {
    PlaybackAction::Show { frame, mark_loaded: false, repaint_delay_ms: ms, sleep_ms: ms, minus_elapsed }
}

#[test]
fn animation_decodes_each_frame_once_then_cycles() {
    let mut player = AnimationPlayer::new(3, 100, vec![1]);
    assert_eq!(player.cached_count(), 1);
    assert_eq!(player.frame_duration(0), 100);
    assert_eq!(player.step(AnimationEvent::Woke { shutdown: false }), PlaybackAction::Decode { frame: 1 });
    assert_eq!(player.step(AnimationEvent::Decoded { duration: 200, buffer: vec![2] }), show(1, 200, true));
    assert_eq!(player.step(AnimationEvent::Woke { shutdown: false }), PlaybackAction::Decode { frame: 2 });
    assert_eq!(player.step(AnimationEvent::Decoded { duration: 300, buffer: vec![3] }), show(2, 300, true));
    assert_eq!(player.step(AnimationEvent::Woke { shutdown: false }), show(0, 100, false));
    assert_eq!(player.step(AnimationEvent::Woke { shutdown: false }), show(1, 200, false));
    assert_eq!(player.step(AnimationEvent::Woke { shutdown: false }), show(2, 300, false));
    assert_eq!(player.step(AnimationEvent::Woke { shutdown: false }), show(0, 100, false));
    assert_eq!(player.frame_bytes(2), &[3]);
    assert_eq!(player.cached_count(), 3);
    assert_eq!(player.step(AnimationEvent::Woke { shutdown: true }), PlaybackAction::Stop);
}

#[test]
fn single_frame_animation_asks_for_a_second_frame() {
    let mut player = AnimationPlayer::new(1, 40, vec![9]);
    assert_eq!(player.step(AnimationEvent::Woke { shutdown: false }), PlaybackAction::Decode { frame: 1 });
}
