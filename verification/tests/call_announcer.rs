use std::sync::Arc;
use yakyak::domain::audio::manager::{AudioFileManager, Language};
use yakyak::domain::audio::wav::{WavFile, WavFormat};
use yakyak::domain::call_announcer::{AnnouncementRequest, AnnouncementType, CallAnnouncer};

fn create_test_audio_manager() -> Arc<AudioFileManager> {
    Arc::new(AudioFileManager::new("/tmp/audio".to_string()))
}

fn tone() -> Arc<WavFile> {
    Arc::new(WavFile {
        format: WavFormat { audio_format: 1, channels: 1, sample_rate: 8000, bits_per_sample: 16 },
        data: Arc::new(vec![0, 0, 1, 0]),
    })
}

#[test]
fn test_announcer_creation() {
    let audio_mgr = create_test_audio_manager();
    let announcer = CallAnnouncer::new(audio_mgr);

    assert_eq!(announcer.scheduled_count(), 0);
}

#[test]
fn test_announcement_request_builder() {
    let request = AnnouncementRequest::new("call-123".to_string(), AnnouncementType::Welcome)
        .add_audio("welcome")
        .with_language(Language::Es)
        .immediate();

    assert_eq!(request.call_id, "call-123");
    assert_eq!(request.announcement_type, AnnouncementType::Welcome);
    assert_eq!(request.audio_files.len(), 1);
    assert_eq!(request.language, Language::Es);
    assert!(request.play_at.is_none());
}

#[test]
fn test_scheduled_announcement() {
    let audio_mgr = create_test_audio_manager();
    let mut announcer = CallAnnouncer::new(audio_mgr);

    // Ten seconds from a point on the steady clock.
    let now = 1_000_000;
    let future_time = now + 10_000;
    let request = AnnouncementRequest::new("call-123".to_string(), AnnouncementType::Periodic)
        .add_audio("periodic_announce")
        .at(future_time);

    let result = announcer.play_announcement_at(request, now);
    assert!(result.is_ok());

    assert_eq!(announcer.scheduled_count(), 1);
    assert_eq!(announcer.active_count("call-123"), 0);
}

#[test]
fn test_stop_announcements() {
    let audio_mgr = create_test_audio_manager();
    let mut announcer = CallAnnouncer::new(audio_mgr);

    announcer.stop_announcements("call-123");
    assert_eq!(announcer.active_count("call-123"), 0);
}

#[test]
fn test_number_to_audio_id() {
    assert_eq!(CallAnnouncer::number_to_audio_id(1), "number_1");
    assert_eq!(CallAnnouncer::number_to_audio_id(42), "number_42");
}

#[test]
fn test_has_active_announcements() {
    let audio_mgr = create_test_audio_manager();
    let announcer = CallAnnouncer::new(audio_mgr);

    assert!(!announcer.has_active_announcements("call-123"));
}

#[test]
fn test_repeat_announcement() {
    let request = AnnouncementRequest::new("call-123".to_string(), AnnouncementType::Periodic)
        .add_audio("periodic")
        .repeat_every(30_000);

    assert!(request.repeat_interval.is_some());
    assert_eq!(request.repeat_interval.unwrap(), 30_000);
}

#[test]
fn missing_prompts_are_reported_and_found_ones_play() {
    let mut manager = AudioFileManager::new("/tmp/audio".to_string());
    manager.insert("welcome", Language::En, tone());
    manager.insert("queue_you_are_caller", Language::En, tone());
    manager.insert("number_3", Language::En, tone());
    let mut announcer = CallAnnouncer::new(Arc::new(manager));
    assert_eq!(announcer.announce_welcome_at("c".to_string(), Language::Fr, 7, 0), Ok(7));
    assert_eq!(announcer.active_count("c"), 1);
    assert_eq!(
        announcer.announce_position_at("c".to_string(), 3, Language::En, 8, 0),
        Err("Audio file not found: queue_in_queue".to_string())
    );
    assert_eq!(announcer.active_count("c"), 1);
    assert!(announcer.get_next_frame_at("c", 10).is_none());
    let later = AnnouncementRequest::new_at(9, "d".to_string(), AnnouncementType::Custom).add_audio("welcome").at(500);
    announcer.play_announcement_at(later, 0).unwrap();
    announcer.process_scheduled_at(499);
    assert_eq!(announcer.scheduled_count(), 1);
    announcer.process_scheduled_at(500);
    assert_eq!(announcer.scheduled_count(), 0);
    assert_eq!(announcer.active_count("d"), 1);
    announcer.stop_announcements("c");
    assert!(!announcer.has_active_announcements("c"));
    assert!(announcer.has_active_announcements("d"));
}
