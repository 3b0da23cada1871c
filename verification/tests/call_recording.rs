use yakyak::domain::call_recording::{
    samples_to_le_bytes, wav_header, CallRecordingManager, RecordingDirection, RecordingFormat,
    RecordingMetadata, RecordingQuality, RecordingSession,
};

#[test]
fn test_recording_format_extension() {
    assert_eq!(RecordingFormat::Wav.extension(), "wav");
    assert_eq!(RecordingFormat::Mp3.extension(), "mp3");
    assert_eq!(RecordingFormat::Opus.extension(), "opus");
}

#[test]
fn test_recording_quality() {
    assert_eq!(RecordingQuality::Telephony.sample_rate(), 8000);
    assert_eq!(RecordingQuality::Standard.sample_rate(), 16000);
    assert_eq!(RecordingQuality::High.sample_rate(), 48000);
    assert_eq!(RecordingQuality::Telephony.channels(), 1);
    assert_eq!(RecordingQuality::High.channels(), 2);
}

#[test]
fn call_recording_test_recording_metadata() {
    let mut metadata = RecordingMetadata::new(
        "call-123".to_string(),
        "recording.wav".to_string(),
        RecordingFormat::Wav,
        RecordingQuality::Standard,
        "alice@example.com".to_string(),
        "bob@example.com".to_string(),
        RecordingDirection::Both,
    );
    assert!(metadata.is_active());
    assert_eq!(metadata.tags.len(), 0);
    metadata.add_tag("important".to_string());
    assert_eq!(metadata.tags.len(), 1);
    metadata.finish(1024);
    assert!(!metadata.is_active());
    assert_eq!(metadata.file_size_bytes, 1024);
}

#[test]
fn test_recording_metadata_tags_and_duration() {
    let mut m = RecordingMetadata::new_at(
        5,
        "c".to_string(),
        "c.wav".to_string(),
        RecordingFormat::Wav,
        RecordingQuality::Telephony,
        "a".to_string(),
        "b".to_string(),
        RecordingDirection::Inbound,
        1_000,
    );
    m.add_tag("x".to_string());
    m.add_tag("x".to_string());
    m.add_tag("y".to_string());
    assert_eq!(m.tags, vec!["x".to_string(), "y".to_string()]);
    m.finish_at(10, 3_500);
    assert_eq!(m.duration_ms, 2_500);
    assert_eq!(m.ended_at, Some(3_500));
}

#[test]
fn test_call_recording_manager() {
    let mut manager = CallRecordingManager::new("/tmp/yakyak_test_recordings".to_string());
    let result = manager.start_recording(
        "call-456".to_string(),
        "alice@example.com".to_string(),
        "bob@example.com".to_string(),
        RecordingDirection::Both,
    );
    assert!(result.is_ok());
    let active = manager.get_active_recordings();
    assert_eq!(active.len(), 1);
    let samples: Vec<i16> = vec![0, 100, 200, 300];
    assert!(manager.add_samples("call-456", &samples).is_none());
    let result = manager.stop_recording_at("call-456", 52, 0);
    assert!(result.is_ok());
    let (_, rest, header) = result.unwrap();
    assert_eq!(rest, vec![0, 0, 100, 0, 200, 0, 44, 1]);
    assert_eq!(header.unwrap().len(), 44);
    let completed = manager.get_completed_recordings();
    assert_eq!(completed.len(), 1);
}

#[test]
fn test_pause_resume_recording() {
    let mut manager = CallRecordingManager::new("/tmp/rec".to_string());
    manager
        .start_recording(
            "call-789".to_string(),
            "alice@example.com".to_string(),
            "bob@example.com".to_string(),
            RecordingDirection::Both,
        )
        .unwrap();
    assert!(manager.pause_recording("call-789").is_ok());
    assert!(manager.add_samples("call-789", &[1, 2, 3]).is_none());
    assert!(manager.resume_recording("call-789").is_ok());
    assert!(manager.stop_recording_at("call-789", 0, 0).is_ok());
    assert_eq!(
        manager.pause_recording("call-789").unwrap_err(),
        "No active recording found for call call-789"
    );
}

#[test]
fn test_manager_auto_record() {
    let mut manager = CallRecordingManager::new("/tmp/auto".to_string());
    assert!(!manager.auto_record());
    manager.enable_auto_record();
    assert!(manager.auto_record());
}

#[test]
fn test_manager_set_defaults() {
    let mut manager = CallRecordingManager::new("/tmp/defaults".to_string());
    manager.set_default_format(RecordingFormat::Mp3);
    assert_eq!(manager.default_format(), RecordingFormat::Mp3);
    manager.set_default_quality(RecordingQuality::High);
    assert_eq!(manager.default_quality(), RecordingQuality::High);
}

#[test]
fn call_recording_test_delete_recording() {
    let mut manager = CallRecordingManager::new("/tmp/delete".to_string());
    let id = manager
        .start_recording(
            "call-delete".to_string(),
            "alice@example.com".to_string(),
            "bob@example.com".to_string(),
            RecordingDirection::Both,
        )
        .unwrap();
    manager.stop_recording_at("call-delete", 0, 0).unwrap();
    assert!(manager.delete_recording(id).is_ok());
    assert_eq!(
        manager.delete_recording(0x0123456789abcdef0011223344556677).unwrap_err(),
        "Recording 01234567-89ab-cdef-0011-223344556677 not found"
    );
}

#[test]
fn test_recording_start_at_names_file_and_refuses_duplicates() {
    let mut manager = CallRecordingManager::new("/rec".to_string());
    let id = manager
        .start_recording_at(
            "c1".to_string(),
            "a".to_string(),
            "b".to_string(),
            RecordingDirection::Outbound,
            42,
            1_000,
            "20240102_030405",
        )
        .unwrap();
    assert_eq!(id, 42);
    let m = manager.get_active_recording("c1").unwrap();
    assert_eq!(m.filename, "c1_20240102_030405.wav");
    let err = manager
        .start_recording_at("c1".to_string(), "a".to_string(), "b".to_string(), RecordingDirection::Outbound, 43, 1, "x")
        .unwrap_err();
    assert_eq!(err, "Call c1 is already being recorded");
    let (meta, _, _) = manager.stop_recording_at("c1", 7, 4_000).unwrap();
    assert_eq!(meta.duration_ms, 3_000);
    assert_eq!(manager.get_recording_by_id(42).unwrap().file_size_bytes, 7);
    assert_eq!(manager.get_total_storage_bytes(), 7);
}

#[test]
fn test_recording_session_flushes_each_second() {
    let m = RecordingMetadata::new_at(
        1,
        "c".to_string(),
        "c.wav".to_string(),
        RecordingFormat::Wav,
        RecordingQuality::Telephony,
        "a".to_string(),
        "b".to_string(),
        RecordingDirection::Both,
        0,
    );
    let mut s = RecordingSession::new(m, "/rec/c.wav".to_string());
    let half = vec![-1i16; 4000];
    assert!(s.add_samples(&half).is_none());
    let out = s.add_samples(&half).unwrap();
    assert_eq!(out.len(), 16000);
    assert_eq!(&out[0..2], &[0xff, 0xff]);
    assert_eq!(s.get_duration_ms(), 1000);
    assert!(s.take_pending_bytes().is_empty());
}

#[test]
fn test_wav_header_layout() {
    let h = wav_header(8000, 1, 10);
    assert_eq!(&h[0..4], b"RIFF");
    assert_eq!(&h[4..8], &56u32.to_le_bytes());
    assert_eq!(&h[8..16], b"WAVEfmt ");
    assert_eq!(&h[24..28], &8000u32.to_le_bytes());
    assert_eq!(&h[28..32], &16000u32.to_le_bytes());
    assert_eq!(&h[36..40], b"data");
    assert_eq!(&h[40..44], &20u32.to_le_bytes());
    assert_eq!(samples_to_le_bytes(&vec![258, -2]), vec![2, 1, 0xfe, 0xff]);
}

#[test]
fn test_cleanup_old_recordings() {
    let mut manager = CallRecordingManager::new("/rec".to_string());
    for (i, start) in [0i64, 100_000_000, 200_000_000].iter().enumerate() {
        let call = format!("c{}", i);
        manager
            .start_recording_at(call.clone(), "a".to_string(), "b".to_string(), RecordingDirection::Both, i as u128, *start, "s")
            .unwrap();
        manager.stop_recording_at(&call, 1, *start).unwrap();
    }
    // cutoff: 200_000_000 - 1 day = 113_600_000
    let removed = manager.cleanup_old_recordings_at(1, 200_000_000);
    assert_eq!(removed.len(), 2);
    assert_eq!(manager.get_completed_recordings().len(), 1);
    assert_eq!(manager.get_completed_recordings()[0].id, 2);
}

#[test]
fn recording_sample_counts_follow_the_buffer() {
    let mut manager = CallRecordingManager::new("/rec".to_string());
    assert!(manager.sample_counts("c").is_none());
    manager
        .start_recording_at("c".to_string(), "a".to_string(), "b".to_string(), RecordingDirection::Inbound, 1, 0, "s")
        .unwrap();
    assert_eq!(manager.sample_counts("c"), Some((0, 0)));
    assert!(manager.add_samples("c", &[1i16; 100]).is_none());
    assert_eq!(manager.sample_counts("c"), Some((100, 100)));
    let flushed = manager.add_samples("c", &[2i16; 16_000]).unwrap();
    assert_eq!(flushed.0, "/rec/c_s.wav");
    assert_eq!(flushed.1.len(), 2 * 16_100);
    assert_eq!(manager.sample_counts("c"), Some((0, 16_100)));
}
