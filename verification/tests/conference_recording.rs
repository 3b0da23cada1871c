use yakyak::domain::conference_recording::{
    ConferenceRecording, ConferenceRecordingManager, RecordingConfig, RecordingFormat,
    RecordingMetadata, RecordingMode, RecordingParticipant, RecordingState,
};

fn new_id() -> u128 {
    yakyak::domain::shared::system::new_uuid()
}

#[test]
fn test_recording_format() {
    assert_eq!(RecordingFormat::Wav.extension(), "wav");
    assert_eq!(RecordingFormat::Mp3.mime_type(), "audio/mpeg");
    assert_eq!(RecordingFormat::Opus.extension(), "opus");
}

#[test]
fn test_conference_recording_creation() {
    let conference_id = new_id();
    let recording = ConferenceRecording::new(
        conference_id,
        "Test Conference".to_string(),
        RecordingFormat::Wav,
        RecordingMode::Mixed,
        "/tmp/recording.wav".to_string(),
    );
    assert_eq!(recording.conference_id, conference_id);
    assert_eq!(recording.state, RecordingState::Recording);
    assert!(recording.is_active());
    assert!(!recording.is_stopped());
}

#[test]
fn test_recording_state_transitions() {
    let mut recording = ConferenceRecording::new(
        new_id(),
        "Test".to_string(),
        RecordingFormat::Wav,
        RecordingMode::Mixed,
        "/tmp/test.wav".to_string(),
    );
    assert!(recording.is_active());
    recording.pause();
    assert!(recording.is_paused());
    assert_eq!(recording.state, RecordingState::Paused);
    recording.resume();
    assert!(recording.is_active());
    recording.stop();
    assert!(recording.is_stopped());
    assert!(recording.stopped_at.is_some());
}

#[test]
fn test_recording_participant() {
    let mut participant = RecordingParticipant::new("user123".to_string(), "John Doe".to_string());
    assert_eq!(participant.user_id, "user123");
    assert!(participant.left_at.is_none());
    participant.mark_left();
    assert!(participant.left_at.is_some());
}

#[test]
fn conference_recording_test_recording_metadata() {
    let mut metadata = RecordingMetadata::new().with_description("Important meeting".to_string());
    metadata.add_tag("sales".to_string());
    metadata.add_tag("q4".to_string());
    assert_eq!(metadata.tags.len(), 2);
    assert_eq!(metadata.description, "Important meeting");
}

#[test]
fn test_recording_manager_start_stop() {
    let mut manager = ConferenceRecordingManager::default();
    let conference_id = new_id();
    let result = manager.start_recording(conference_id, "Test Conference".to_string(), None, None);
    assert!(result.is_ok());
    assert!(manager.is_recording(&conference_id));
    let result = manager.stop_recording(&conference_id);
    assert!(result.is_ok());
    assert!(!manager.is_recording(&conference_id));
}

#[test]
fn test_recording_manager_pause_resume() {
    let mut manager = ConferenceRecordingManager::default();
    let conference_id = new_id();
    manager.start_recording(conference_id, "Test".to_string(), None, None).unwrap();
    assert!(manager.pause_recording(&conference_id).is_ok());
    let recording = manager.get_recording(&conference_id).unwrap();
    assert!(recording.is_paused());
    assert!(manager.resume_recording(&conference_id).is_ok());
    let recording = manager.get_recording(&conference_id).unwrap();
    assert!(recording.is_active());
}

#[test]
fn conference_recording_test_add_participant() {
    let mut manager = ConferenceRecordingManager::default();
    let conference_id = new_id();
    manager.start_recording(conference_id, "Test".to_string(), None, None).unwrap();
    let participant = RecordingParticipant::new("user1".to_string(), "User One".to_string());
    assert!(manager.add_participant(&conference_id, participant).is_ok());
    let recording = manager.get_recording(&conference_id).unwrap();
    assert_eq!(recording.participants.len(), 1);
}

#[test]
fn test_recording_statistics() {
    let mut manager = ConferenceRecordingManager::default();
    let conf1 = new_id();
    let conf2 = new_id();
    manager.start_recording(conf1, "Conf 1".to_string(), None, None).unwrap();
    manager.start_recording(conf2, "Conf 2".to_string(), None, None).unwrap();
    let stats = manager.get_statistics();
    assert_eq!(stats.active_recordings, 2);
    assert_eq!(stats.total_recordings, 2);
    manager.stop_recording(&conf1).unwrap();
    let stats = manager.get_statistics();
    assert_eq!(stats.active_recordings, 1);
    assert_eq!(stats.completed_recordings, 1);
}

#[test]
fn test_list_recordings() {
    let mut manager = ConferenceRecordingManager::default();
    let conf1 = new_id();
    let conf2 = new_id();
    manager.start_recording(conf1, "Conf 1".to_string(), None, None).unwrap();
    manager.start_recording(conf2, "Conf 2".to_string(), None, None).unwrap();
    let active = manager.list_active_recordings();
    assert_eq!(active.len(), 2);
    manager.stop_recording(&conf1).unwrap();
    let completed = manager.list_completed_recordings();
    assert_eq!(completed.len(), 1);
}

#[test]
fn test_get_recording_by_id() {
    let mut manager = ConferenceRecordingManager::default();
    let conference_id = new_id();
    let recording_id = manager.start_recording(conference_id, "Test".to_string(), None, None).unwrap();
    let recording = manager.get_recording_by_id(&recording_id);
    assert!(recording.is_some());
    assert_eq!(recording.unwrap().id, recording_id);
}

#[test]
fn conference_recording_test_delete_recording() {
    let mut manager = ConferenceRecordingManager::default();
    let conference_id = new_id();
    let recording_id = manager.start_recording(conference_id, "Test".to_string(), None, None).unwrap();
    manager.stop_recording(&conference_id).unwrap();
    assert!(manager.delete_recording(&recording_id).is_ok());
    assert!(manager.get_recording_by_id(&recording_id).is_none());
}

#[test]
fn test_conference_recording_file_path_and_durations() {
    let mut manager = ConferenceRecordingManager::new(RecordingConfig::default());
    let conf = 0x00112233_4455_6677_8899_aabbccddeeffu128;
    manager.start_recording_at(conf, "C".to_string(), Some(RecordingFormat::Opus), None, 9, 1_700_000_000_500).unwrap();
    let rec = manager.get_recording(&conf).unwrap();
    assert_eq!(
        rec.file_path,
        "/var/recordings/conferences/conference_00112233-4455-6677-8899-aabbccddeeff_1700000000.opus"
    );
    assert_eq!(rec.mode, RecordingMode::Mixed);
    assert_eq!(rec.metadata.sample_rate, 0);
    let stopped = manager.stop_recording_at(&conf, 1_700_000_010_500).unwrap();
    assert_eq!(stopped.total_duration_at(0), 10_000);
    assert_eq!(stopped.actual_recording_duration_ms_at(0), 10_000);
    assert_eq!(
        manager.stop_recording_at(&conf, 0).unwrap_err(),
        "No active recording for this conference"
    );
    assert_eq!(
        manager.delete_recording(&1).unwrap_err(),
        "Recording not found in completed recordings"
    );
    let mut m = RecordingMetadata::new();
    m.add_tag("a".to_string());
    m.add_tag("a".to_string());
    assert_eq!(m.tags.len(), 1);
    assert_eq!(m.sample_rate, 48000);
    assert_eq!(m.channels, 2);
}
