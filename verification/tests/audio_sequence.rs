use std::sync::Arc;
use yakyak::domain::audio::player::{AudioPlayerState, PlaybackOptions};
use yakyak::domain::audio::sequence::{SequenceBuilder, SequentialPlayer};
use yakyak::domain::audio::wav::{WavFile, WavFormat};

fn create_test_audio(duration_ms: u32) -> Arc<WavFile> {
    let sample_rate = 8000;
    let samples_count = (sample_rate * duration_ms / 1000) as usize;
    let mut data = Vec::with_capacity(samples_count * 2);
    for _ in 0..samples_count {
        let sample = 100i16;
        data.extend_from_slice(&sample.to_le_bytes());
    }
    Arc::new(WavFile {
        format: WavFormat { channels: 1, sample_rate, bits_per_sample: 16, audio_format: 1 },
        data: Arc::new(data),
    })
}

#[test]
fn test_sequential_player_creation() {
    let player = SequentialPlayer::new();
    assert_eq!(player.queue_length(), 0);
    assert!(player.is_queue_empty());
}

#[test]
fn test_enqueue() {
    let mut player = SequentialPlayer::new();
    player.enqueue(create_test_audio(100));
    player.enqueue(create_test_audio(200));
    assert_eq!(player.queue_length(), 2);
    assert!(!player.is_queue_empty());
}

#[test]
fn test_enqueue_front() {
    let mut player = SequentialPlayer::new();
    player.enqueue(create_test_audio(100));
    player.enqueue_front(create_test_audio(200));
    assert_eq!(player.queue_length(), 2);
}

#[test]
fn test_play_sequence() {
    let mut player = SequentialPlayer::with_options(PlaybackOptions { frame_duration_ms: 20, loop_playback: false, allow_interrupt: true });
    player.enqueue(create_test_audio(50));
    player.enqueue(create_test_audio(50));
    player.play();
    assert!(player.is_playing());
    let frame = player.next_frame();
    assert!(frame.is_some());
}

#[test]
fn test_clear_queue() {
    let mut player = SequentialPlayer::new();
    player.enqueue(create_test_audio(100));
    player.enqueue(create_test_audio(200));
    assert_eq!(player.queue_length(), 2);
    player.clear_queue();
    assert_eq!(player.queue_length(), 0);
    assert!(player.is_queue_empty());
}

#[test]
fn test_skip() {
    let mut player = SequentialPlayer::with_options(PlaybackOptions { frame_duration_ms: 20, loop_playback: false, allow_interrupt: true });
    player.enqueue(create_test_audio(100));
    player.enqueue(create_test_audio(100));
    player.play();
    assert_eq!(player.queue_length(), 1);
    player.skip();
    assert!(player.is_playing() || player.queue_length() == 0);
}

#[test]
fn test_stop() {
    let mut player = SequentialPlayer::new();
    player.enqueue(create_test_audio(100));
    player.enqueue(create_test_audio(200));
    player.play();
    player.stop();
    assert_eq!(player.queue_length(), 0);
    assert!(player.is_finished());
}

#[test]
fn test_sequence_builder() {
    let player = SequenceBuilder::new()
        .add(create_test_audio(100))
        .add(create_test_audio(200))
        .frame_duration_ms(20)
        .allow_interrupt(true)
        .build();
    assert_eq!(player.queue_length(), 2);
}

#[test]
fn test_interrupt() {
    let mut player = SequentialPlayer::with_options(PlaybackOptions { frame_duration_ms: 20, loop_playback: false, allow_interrupt: true });
    player.enqueue(create_test_audio(100));
    player.enqueue(create_test_audio(100));
    player.play();
    assert!(player.is_playing());
    player.interrupt();
    assert!(player.is_finished());
    assert_eq!(player.queue_length(), 0);
}

#[test]
fn test_sequence_advances_to_next_file() {
    let mut player = SequentialPlayer::with_options(PlaybackOptions { frame_duration_ms: 50, loop_playback: false, allow_interrupt: true });
    player.enqueue(create_test_audio(50)); // 400 samples, one frame
    player.enqueue(create_test_audio(100)); // 800 samples
    player.play();
    assert_eq!(player.next_frame().unwrap().1, 400);
    // the first file is exhausted: the next call finishes it and starts the second
    assert_eq!(player.next_frame().unwrap().1, 400);
    assert_eq!(player.queue_length(), 0);
    assert_eq!(player.next_frame().unwrap().1, 400);
    assert!(player.next_frame().is_none());
    assert_eq!(player.state(), AudioPlayerState::Finished);
    assert!(player.is_finished());
}
