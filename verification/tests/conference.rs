use yakyak::domain::conference::{ConferenceRoom, ConferenceState, Participant};

#[test]
fn test_create_conference() {
    let room = ConferenceRoom::new("Test Room".to_string(), Some("1234".to_string()), 10);

    assert_eq!(room.name, "Test Room");
    assert_eq!(room.max_participants, 10);
    assert_eq!(room.state, ConferenceState::Waiting);
    assert_eq!(room.participant_count(), 0);
}

#[test]
fn test_pin_verification() {
    let room = ConferenceRoom::new("Test Room".to_string(), Some("1234".to_string()), 10);

    assert!(room.verify_pin("1234"));
    assert!(!room.verify_pin("5678"));

    let room_no_pin = ConferenceRoom::new("Test".to_string(), None, 10);
    assert!(room_no_pin.verify_pin("anything"));
}

#[test]
fn conference_test_add_participant() {
    let mut room = ConferenceRoom::new("Test".to_string(), None, 10);

    let participant = Participant::new("sip:alice@example.com".to_string(), Some("Alice".to_string()), false);

    room.add_participant(participant).unwrap();
    assert_eq!(room.participant_count(), 1);
}

#[test]
fn test_add_moderator_starts_conference() {
    let mut room = ConferenceRoom::new("Test".to_string(), None, 10);
    assert_eq!(room.state, ConferenceState::Waiting);

    let moderator = Participant::new("sip:mod@example.com".to_string(), Some("Moderator".to_string()), true);

    room.add_participant(moderator).unwrap();
    assert_eq!(room.state, ConferenceState::Active);
    assert!(room.moderator_id.is_some());
    assert!(room.started_at.is_some());
}

#[test]
fn test_conference_full() {
    let mut room = ConferenceRoom::new("Test".to_string(), None, 2);

    let p1 = Participant::new("sip:user1@example.com".to_string(), None, false);
    let p2 = Participant::new("sip:user2@example.com".to_string(), None, false);
    let p3 = Participant::new("sip:user3@example.com".to_string(), None, false);

    room.add_participant(p1).unwrap();
    room.add_participant(p2).unwrap();

    let result = room.add_participant(p3);
    assert!(result.is_err());
    assert!(result.unwrap_err().contains("full"));
}

#[test]
fn test_mute_operations() {
    let mut room = ConferenceRoom::new("Test".to_string(), None, 10);

    let p1 = Participant::new("sip:user1@example.com".to_string(), None, true);
    let p1_id = p1.id;

    room.add_participant(p1).unwrap();

    room.mute_participant(p1_id).unwrap();
    assert!(room.get_participant(p1_id).unwrap().is_muted);

    room.unmute_participant(p1_id).unwrap();
    assert!(!room.get_participant(p1_id).unwrap().is_muted);
}

#[test]
fn test_mute_all() {
    let mut room = ConferenceRoom::new("Test".to_string(), None, 10);

    let moderator = Participant::new("sip:mod@example.com".to_string(), None, true);
    let p1 = Participant::new("sip:user1@example.com".to_string(), None, false);
    let p2 = Participant::new("sip:user2@example.com".to_string(), None, false);

    let p1_id = p1.id;
    let p2_id = p2.id;

    room.add_participant(moderator).unwrap();
    room.add_participant(p1).unwrap();
    room.add_participant(p2).unwrap();

    room.mute_all();

    assert!(!room.get_participant(room.moderator_id.unwrap()).unwrap().is_muted);
    assert!(room.get_participant(p1_id).unwrap().is_muted);
    assert!(room.get_participant(p2_id).unwrap().is_muted);
}

#[test]
fn test_lock_unlock() {
    let mut room = ConferenceRoom::new("Test".to_string(), None, 10);

    let moderator = Participant::new("sip:mod@example.com".to_string(), None, true);
    room.add_participant(moderator).unwrap();

    assert_eq!(room.state, ConferenceState::Active);

    room.lock();
    assert_eq!(room.state, ConferenceState::Locked);

    let p1 = Participant::new("sip:user1@example.com".to_string(), None, false);
    assert!(room.add_participant(p1).is_err());

    room.unlock();
    assert_eq!(room.state, ConferenceState::Active);
}

#[test]
fn test_recording() {
    let mut room = ConferenceRoom::new("Test".to_string(), None, 10);

    assert!(!room.recording_enabled);

    room.start_recording("/path/to/recording.wav".to_string());
    assert!(room.recording_enabled);
    assert_eq!(room.recording_path, Some("/path/to/recording.wav".to_string()));

    room.stop_recording();
    assert!(!room.recording_enabled);
}

#[test]
fn test_end_conference() {
    let mut room = ConferenceRoom::new("Test".to_string(), None, 10);

    let moderator = Participant::new("sip:mod@example.com".to_string(), None, true);
    room.add_participant(moderator).unwrap();

    room.start_recording("/path/recording.wav".to_string());
    room.end();

    assert_eq!(room.state, ConferenceState::Ended);
    assert!(room.ended_at.is_some());
    assert!(!room.recording_enabled);
}

#[test]
fn test_participant_toggle_mute() {
    let mut participant = Participant::new("sip:user@example.com".to_string(), None, false);

    assert!(!participant.is_muted);

    participant.toggle_mute();
    assert!(participant.is_muted);

    participant.toggle_mute();
    assert!(!participant.is_muted);
}

#[test]
fn moderator_handover_and_last_leaver_ends_room() {
    let mut room = ConferenceRoom::new_at(1, "r".to_string(), None, 10, 0);
    room.add_participant_at(Participant::new_at(10, "a".to_string(), None, true, 0), 100).unwrap();
    room.add_participant_at(Participant::new_at(11, "b".to_string(), None, false, 0), 200).unwrap();
    room.add_participant_at(Participant::new_at(12, "c".to_string(), None, true, 0), 300).unwrap();
    assert_eq!(room.moderator_id, Some(10));
    assert_eq!(room.started_at, Some(100));
    room.remove_participant_at(10, 400).unwrap();
    assert_eq!(room.moderator_id, Some(12));
    assert_eq!(room.state, ConferenceState::Active);
    room.remove_participant_at(12, 500).unwrap();
    assert_eq!(room.moderator_id, None);
    assert_eq!(room.state, ConferenceState::Waiting);
    assert_eq!(room.remove_participant_at(99, 550), Err("Participant not found".to_string()));
    room.remove_participant_at(11, 600).unwrap();
    assert_eq!(room.state, ConferenceState::Ended);
    assert_eq!(room.ended_at, Some(600));
    assert_eq!(room.duration_at(10_000), Some(500));
    assert_eq!(
        room.add_participant_at(Participant::new_at(13, "d".to_string(), None, false, 0), 700),
        Err("Conference has ended".to_string())
    );
}
