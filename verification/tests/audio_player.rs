use std::sync::Arc;
use yakyak::domain::audio::player::{AudioPlayer, AudioPlayerState, PlaybackOptions, StreamingAudioPlayer};
use yakyak::domain::audio::wav::{WavFile, WavFormat};

fn create_test_audio(duration_ms: u32) -> Arc<WavFile> {
    let sample_rate = 8000;
    let samples_count = (sample_rate * duration_ms / 1000) as usize;
    let mut data = Vec::with_capacity(samples_count * 2);
    for i in 0..samples_count {
        let t = i as f64 / sample_rate as f64;
        let freq = 440.0;
        let amplitude = 0.5;
        let sample = (amplitude * (2.0 * std::f64::consts::PI * freq * t).sin() * 32767.0) as i16;
        data.extend_from_slice(&sample.to_le_bytes());
    }
    Arc::new(WavFile {
        format: WavFormat { channels: 1, sample_rate, bits_per_sample: 16, audio_format: 1 },
        data: Arc::new(data),
    })
}

#[test]
fn test_player_initial_state() {
    let player = AudioPlayer::new();
    assert_eq!(player.state(), AudioPlayerState::Idle);
    assert!(!player.is_playing());
    assert!(!player.is_finished());
}

#[test]
fn test_player_load_and_play() {
    let mut player = AudioPlayer::new();
    let audio = create_test_audio(100);
    player.load(audio);
    assert_eq!(player.state(), AudioPlayerState::Idle);
    player.play();
    assert_eq!(player.state(), AudioPlayerState::Playing);
    assert!(player.is_playing());
}

#[test]
fn test_player_pause_resume() {
    let mut player = AudioPlayer::new();
    let audio = create_test_audio(100);
    player.load(audio);
    player.play();
    assert_eq!(player.state(), AudioPlayerState::Playing);
    player.pause();
    assert_eq!(player.state(), AudioPlayerState::Paused);
    player.play();
    assert_eq!(player.state(), AudioPlayerState::Playing);
}

#[test]
fn test_player_next_frame() {
    let mut player = AudioPlayer::with_options(PlaybackOptions { frame_duration_ms: 20, loop_playback: false, allow_interrupt: true });
    let audio = create_test_audio(100);
    player.load(audio);
    assert!(player.next_frame().is_none());
    player.play();
    let frame = player.next_frame();
    assert!(frame.is_some());
    let (samples, count) = frame.unwrap();
    assert_eq!(count, 160);
    assert_eq!(samples.len(), 160);
}

#[test]
fn test_player_loop() {
    let mut player = AudioPlayer::with_options(PlaybackOptions { frame_duration_ms: 50, loop_playback: true, allow_interrupt: true });
    let audio = create_test_audio(100);
    player.load(audio);
    player.play();
    for _ in 0..5 {
        let frame = player.next_frame();
        assert!(frame.is_some());
    }
    assert_eq!(player.state(), AudioPlayerState::Playing);
}

#[test]
fn test_player_interrupt() {
    let mut player = AudioPlayer::with_options(PlaybackOptions { frame_duration_ms: 20, loop_playback: false, allow_interrupt: true });
    let audio = create_test_audio(100);
    player.load(audio);
    player.play();
    assert!(player.is_playing());
    player.interrupt();
    assert!(player.is_finished());
    assert_eq!(player.state(), AudioPlayerState::Stopped);
}

#[test]
fn test_streaming_player() {
    let mut player = StreamingAudioPlayer::new();
    let audio = create_test_audio(100);
    player.load(audio);
    assert_eq!(player.state(), AudioPlayerState::Idle);
    player.play();
    assert!(player.is_playing());
    player.pause();
    assert_eq!(player.state(), AudioPlayerState::Paused);
    player.stop();
    assert!(player.is_finished());
}

#[test]
fn test_player_stop() {
    let mut player = AudioPlayer::new();
    player.load(create_test_audio(100));
    player.play();
    player.next_frame();
    player.stop();
    assert_eq!(player.state(), AudioPlayerState::Stopped);
    assert!(player.is_finished());
    assert_eq!(player.position(), 0);
}

#[test]
fn test_player_finishes_at_end() {
    let mut player = AudioPlayer::with_options(PlaybackOptions { frame_duration_ms: 60, loop_playback: false, allow_interrupt: false });
    player.load(create_test_audio(100)); // 800 samples, 480 per frame
    player.play();
    assert_eq!(player.next_frame().unwrap().1, 480);
    assert_eq!(player.next_frame().unwrap().1, 320);
    assert!(player.next_frame().is_none());
    assert_eq!(player.state(), AudioPlayerState::Finished);
    // not interruptible
    player.play();
    player.interrupt();
    assert_eq!(player.state(), AudioPlayerState::Playing);
}

#[test]
fn test_player_seek_clamps() {
    let mut player = AudioPlayer::new();
    player.seek_sample(10);
    assert_eq!(player.position(), 0);
    player.load(create_test_audio(100));
    player.seek_sample(5000);
    assert_eq!(player.position(), 800);
    player.seek_sample(100);
    assert_eq!(player.position(), 100);
}

#[test]
fn streaming_player_seek_clamps() {
    let mut player = StreamingAudioPlayer::new();
    player.seek_sample(10);
    assert_eq!(player.player().position(), 0);
    player.load(create_test_audio(100));
    player.seek_sample(300);
    assert_eq!(player.player().position(), 300);
    player.seek_sample(1_000_000);
    assert_eq!(player.player().position(), 800);
}
