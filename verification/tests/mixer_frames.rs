use agb::mixer::{MixerController, SoundChannel};
use agb::ResourceError;

#[test]
fn mixing_determinism_no_clipping() {
    let mut controller = MixerController::new();
    let mut mixer = controller.mixer();

    mixer.play_sound(SoundChannel::new(vec![10u8; 352])).unwrap();
    // -5 as a two's-complement byte.
    mixer.play_sound(SoundChannel::new(vec![251u8; 352])).unwrap();

    mixer.vblank();

    // The frame was mixed into the buffer that the next call makes active.
    assert!(!mixer.buffer.buffer_1_active);
    for i in 0..176 {
        assert_eq!(mixer.buffer.buffer1[i], 5i8);
    }

    mixer.vblank();
    // Now that buffer is the active, streamed one, contents intact.
    assert!(mixer.buffer.buffer_1_active);
    assert_eq!(mixer.hw.dma1_source, 0);
    for i in 0..176 {
        assert_eq!(mixer.buffer.buffer1[i], 5i8);
    }
}

#[test]
fn mixing_saturates_at_the_positive_clamp() {
    let mut controller = MixerController::new();
    let mut mixer = controller.mixer();

    mixer.play_sound(SoundChannel::new(vec![120u8; 176])).unwrap();
    mixer.play_sound(SoundChannel::new(vec![50u8; 176])).unwrap();

    mixer.vblank();

    for i in 0..176 {
        assert_eq!(mixer.buffer.buffer1[i], 127i8);
    }
}

#[test]
fn mixing_saturates_at_the_negative_clamp() {
    let mut controller = MixerController::new();
    let mut mixer = controller.mixer();

    // -100 and -100 clip to -128.
    mixer.play_sound(SoundChannel::new(vec![156u8; 176])).unwrap();
    mixer.play_sound(SoundChannel::new(vec![156u8; 176])).unwrap();

    mixer.vblank();

    for i in 0..176 {
        assert_eq!(mixer.buffer.buffer1[i], -128i8);
    }
}

#[test]
fn channel_eviction_after_exactly_one_frame() {
    let mut controller = MixerController::new();
    let mut mixer = controller.mixer();

    mixer.play_sound(SoundChannel::new(vec![1u8; 176])).unwrap();
    assert!(mixer.channels[0].is_some());

    mixer.vblank();
    assert!(mixer.channels[0].is_none());
}

#[test]
fn longer_channel_survives_and_advances() {
    let mut controller = MixerController::new();
    let mut mixer = controller.mixer();

    let mut data = vec![9u8; 352];
    for i in 176..352 {
        data[i] = 2;
    }
    mixer.play_sound(SoundChannel::new(data)).unwrap();

    mixer.vblank();
    assert!(mixer.channels[0].is_some());
    for i in 0..176 {
        assert_eq!(mixer.buffer.buffer1[i], 9i8);
    }

    mixer.vblank();
    assert!(mixer.channels[0].is_none());
    for i in 0..176 {
        assert_eq!(mixer.buffer.buffer2[i], 2i8);
    }
}

#[test]
fn play_sound_fills_first_empty_slot_and_reports_exhaustion() {
    let mut controller = MixerController::new();
    let mut mixer = controller.mixer();

    for _ in 0..16 {
        mixer.play_sound(SoundChannel::new(vec![0u8; 176])).unwrap();
    }
    assert_eq!(
        mixer.play_sound(SoundChannel::new(vec![0u8; 176])),
        Err(ResourceError::ResourceExhausted)
    );

    // After a frame every 176-byte channel is gone and slots free up again.
    mixer.vblank();
    assert!(mixer.play_sound(SoundChannel::new(vec![0u8; 176])).is_ok());
    assert!(mixer.channels[0].is_some());
    assert!(mixer.channels[1].is_none());
}

#[test]
fn double_buffer_alternation_across_frames() {
    let mut controller = MixerController::new();
    let mut mixer = controller.mixer();

    let mut expected_active = true;
    for _ in 0..8 {
        mixer.vblank();
        expected_active = !expected_active;
        assert_eq!(mixer.buffer.buffer_1_active, expected_active);
        let expected_source = if expected_active { 0u32 } else { 1u32 };
        assert_eq!(mixer.hw.dma1_source, expected_source);
    }
}

#[test]
fn vblank_programs_the_dma_engine() {
    let mut controller = MixerController::new();
    let mut mixer = controller.mixer();

    mixer.vblank();

    let expected_control: u16 = (2 << 5) | (1 << 9) | (1 << 10) | (3 << 12) | (1 << 15);
    assert_eq!(mixer.hw.dma1_control, expected_control);
    assert_eq!(mixer.hw.dma1_dest, 0x0400_00a0);
    assert_eq!(mixer.hw.dma1_source, 1);
}

#[test]
fn enable_programs_timer_and_sound_control() {
    let mut controller = MixerController::new();
    let mut mixer = controller.mixer();

    mixer.enable();

    // 65536 - 16777216 / 10512, with integer division.
    assert_eq!(mixer.hw.timer0_counter, 63940);
    assert_eq!(mixer.hw.timer0_control, 1 << 7);
    assert_eq!(
        mixer.hw.sound_control,
        (1 << 2) | (1 << 8) | (1 << 9) | (1 << 11)
    );
    assert_eq!(mixer.hw.sound_control_x, 1 << 7);
}

#[test]
fn new_channel_starts_at_the_beginning() {
    let channel = SoundChannel::new(vec![1, 2, 3]);
    assert_eq!(channel.pos, 0);
    assert_eq!(channel.data, vec![1, 2, 3]);
}

#[test]
fn silence_is_mixed_when_no_channel_plays() {
    let mut controller = MixerController::new();
    let mut mixer = controller.mixer();

    mixer.vblank();
    for i in 0..176 {
        assert_eq!(mixer.buffer.buffer1[i], 0i8);
        assert_eq!(mixer.buffer.buffer2[i], 0i8);
    }
}
