use yakyak::domain::music_on_hold::{
    MohAudioFile, MohAudioFormat, MohFileManager, MohManager, MohPlaybackMode, MohPlaylist, MohSession,
};

fn base_dir() -> String {
    "/tmp".to_string()
}

#[test]
fn test_moh_playback_mode_default() {
    assert_eq!(MohPlaybackMode::default(), MohPlaybackMode::Sequential);
}

#[test]
fn test_moh_audio_format_from_extension() {
    assert_eq!(MohAudioFormat::from_extension("wav"), Some(MohAudioFormat::Wav));
    assert_eq!(MohAudioFormat::from_extension("MP3"), Some(MohAudioFormat::Mp3));
    assert_eq!(MohAudioFormat::from_extension("xyz"), None);
}

#[test]
fn test_moh_audio_file_creation() {
    let file = MohAudioFile::new("test.wav".to_string(), "/tmp/test.wav".to_string(), MohAudioFormat::Wav)
        .with_metadata(10000, 8000, 1, 1024);

    assert_eq!(file.name, "test.wav");
    assert_eq!(file.duration_ms, 10000);
    // Ten thousand milliseconds are ten seconds.
    assert_eq!(file.duration_ms as f64 / 1000.0, 10.0);
    assert!(file.enabled);
}

#[test]
fn test_moh_playlist_creation() {
    let mut playlist = MohPlaylist::new("Test Playlist".to_string())
        .with_description("Test description".to_string())
        .with_playback_mode(MohPlaybackMode::Random);

    assert_eq!(playlist.name, "Test Playlist");
    assert_eq!(playlist.playback_mode, MohPlaybackMode::Random);
    assert!(playlist.is_empty());

    let file_id = 0x0123_4567_89ab_4cde_8f01_2345_6789_abcd;
    playlist.add_file(file_id);
    assert_eq!(playlist.file_count(), 1);
    assert!(!playlist.is_empty());

    playlist.remove_file(&file_id);
    assert!(playlist.is_empty());
}

#[test]
fn test_moh_session() {
    let mut session = MohSession::new("call-123".to_string(), 42);

    assert_eq!(session.call_id, "call-123");
    assert_eq!(session.current_file_index, 0);
    assert!(!session.paused);

    session.pause();
    assert!(session.paused);

    session.resume();
    assert!(!session.paused);

    assert!(session.advance_to_next(3));
    assert_eq!(session.current_file_index, 1);

    session.reset();
    assert_eq!(session.current_file_index, 0);
}

#[test]
fn test_moh_file_manager() {
    let mut manager = MohFileManager::new(base_dir());

    let file = MohAudioFile::new("test.wav".to_string(), "/tmp/test.wav".to_string(), MohAudioFormat::Wav);
    let file_id = manager.add_file(file);

    assert_eq!(manager.file_count(), 1);
    assert!(manager.get_file(&file_id).is_some());

    manager.disable_file(&file_id);
    let disabled_file = manager.get_file(&file_id).unwrap();
    assert!(!disabled_file.enabled);

    manager.enable_file(&file_id);
    let enabled_file = manager.get_file(&file_id).unwrap();
    assert!(enabled_file.enabled);

    manager.remove_file(&file_id);
    assert_eq!(manager.file_count(), 0);
}

#[test]
fn test_moh_manager_playlist_operations() {
    let mut manager = MohManager::new(base_dir());

    let playlist = MohPlaylist::new("Test".to_string());
    let playlist_id = manager.create_playlist(playlist);

    assert!(manager.get_playlist(&playlist_id).is_some());
    assert_eq!(manager.list_playlists().len(), 1);

    assert!(manager.is_default_playlist(&playlist_id));

    let playlist2 = MohPlaylist::new("Test 2".to_string());
    let playlist2_id = manager.create_playlist(playlist2);

    manager.set_default_playlist(playlist2_id);
    assert!(manager.is_default_playlist(&playlist2_id));

    assert!(!manager.delete_playlist(&playlist2_id));

    assert!(manager.delete_playlist(&playlist_id));
}

#[test]
fn test_moh_manager_session_operations() {
    let mut manager = MohManager::new(base_dir());

    let mut playlist = MohPlaylist::new("Test".to_string());
    let file = MohAudioFile::new("test.wav".to_string(), "/tmp/test.wav".to_string(), MohAudioFormat::Wav);
    let file_id = manager.file_manager.add_file(file);
    playlist.add_file(file_id);

    let playlist_id = manager.create_playlist(playlist);

    let result = manager.start_moh("call-123".to_string(), Some(playlist_id));
    assert!(result.is_ok());

    assert_eq!(manager.get_active_session_count(), 1);
    assert!(manager.get_session("call-123").is_some());

    assert!(manager.pause_moh("call-123"));
    let session = manager.get_session("call-123").unwrap();
    assert!(session.paused);

    assert!(manager.resume_moh("call-123"));
    let session = manager.get_session("call-123").unwrap();
    assert!(!session.paused);

    assert!(manager.stop_moh("call-123"));
    assert_eq!(manager.get_active_session_count(), 0);
}

#[test]
fn test_moh_statistics() {
    let mut manager = MohManager::new(base_dir());

    let file = MohAudioFile::new("test.wav".to_string(), "/tmp/test.wav".to_string(), MohAudioFormat::Wav)
        .with_metadata(10000, 8000, 1, 2048);
    manager.file_manager.add_file(file);

    let playlist = MohPlaylist::new("Test".to_string());
    manager.create_playlist(playlist);

    let stats = manager.get_statistics(&|_f: &MohAudioFile| false);
    assert_eq!(stats.total_playlists, 1);
    assert_eq!(stats.total_audio_files, 1);
    assert_eq!(stats.total_storage_bytes, 2048);
    assert_eq!(stats.enabled_audio_files, 0);
}

#[test]
fn start_moh_reports_each_refusal() {
    let mut manager = MohManager::new(base_dir());
    assert_eq!(
        manager.start_moh("c".to_string(), None),
        Err("No playlist specified and no default playlist set".to_string())
    );
    assert_eq!(manager.start_moh("c".to_string(), Some(9)), Err("Playlist not found".to_string()));
    let empty = MohPlaylist::new_at(1, "e".to_string(), 0);
    manager.create_playlist(empty);
    assert_eq!(manager.start_moh("c".to_string(), None), Err("Playlist is empty".to_string()));
    let mut off = MohPlaylist::new_at(2, "off".to_string(), 0);
    off.add_file(5);
    off.enabled = false;
    manager.create_playlist(off);
    assert_eq!(manager.start_moh("c".to_string(), Some(2)), Err("Playlist is disabled".to_string()));
}

#[test]
fn advancing_wraps_and_counts_loops() {
    let mut manager = MohManager::new(base_dir());
    let a = manager.file_manager.add_file(MohAudioFile::new_at(10, "a".to_string(), "/a.wav".to_string(), MohAudioFormat::Wav, 0));
    let b = manager.file_manager.add_file(MohAudioFile::new_at(11, "b".to_string(), "/b.wav".to_string(), MohAudioFormat::Wav, 0));
    let mut playlist = MohPlaylist::new_at(1, "p".to_string(), 0);
    playlist.add_file_at(a, 0);
    playlist.add_file_at(b, 0);
    playlist.add_file_at(a, 0);
    assert_eq!(playlist.file_count(), 2);
    manager.create_playlist(playlist);
    assert_eq!(manager.start_moh_at("call".to_string(), None, 77, 1_000), Ok(77));
    assert_eq!(manager.get_current_file("call").unwrap().id, 10);
    assert!(manager.advance_to_next_file("call"));
    assert_eq!(manager.get_current_file("call").unwrap().id, 11);
    assert!(manager.advance_to_next_file("call"));
    let s = manager.get_session("call").unwrap();
    assert_eq!(s.current_file_index, 0);
    assert_eq!(s.loop_count, 1);
    assert_eq!(s.duration_seconds_at(4_500), 3);
    assert!(!manager.advance_to_next_file("other"));
}

#[test]
fn scanned_entries_need_a_known_extension() {
    let mut fm = MohFileManager::new(base_dir());
    assert_eq!(fm.scan_entry_at("song".to_string(), "/m/song.OPUS".to_string(), "OPUS", 512, 3, 0), Some(3));
    assert_eq!(fm.scan_entry_at("notes".to_string(), "/m/notes.txt".to_string(), "txt", 10, 4, 0), None);
    let f = fm.get_file(&3).unwrap();
    assert_eq!(f.format, MohAudioFormat::Opus);
    assert_eq!(f.file_size_bytes, 512);
    assert_eq!(f.sample_rate, 8000);
    assert_eq!(fm.total_storage_bytes(), 512);
    assert_eq!(fm.list_enabled_files(&|f: &MohAudioFile| f.id == 3).len(), 1);
    assert_eq!(MohAudioFormat::Raw.extension(), "pcm");
    assert_eq!(MohAudioFormat::from_extension("raw"), Some(MohAudioFormat::Raw));
}
