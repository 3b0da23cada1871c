use yakyak::domain::conference::ConferenceState;
use yakyak::domain::conference_manager::{ConferenceManager, ParticipantRole};

#[test]
fn test_create_room() {
    let mut manager = ConferenceManager::new();
    let room_id = manager.create_room("Test Room".to_string(), None, 10).unwrap();

    let room = manager.get_room(room_id).unwrap();
    assert_eq!(room.name, "Test Room");
    assert_eq!(room.max_participants, 10);
}

#[test]
fn test_join_conference() {
    let mut manager = ConferenceManager::new();
    let room_id = manager.create_room("Test Room".to_string(), None, 10).unwrap();

    let participant_id = manager
        .join_conference(room_id, "call-123".to_string(), "Alice".to_string(), ParticipantRole::Moderator, None)
        .unwrap();

    assert!(manager.is_in_conference("call-123"));
    assert_eq!(manager.participant_count(room_id).unwrap(), 1);

    let room = manager.get_room(room_id).unwrap();
    assert!(room.participants.get(&participant_id).is_some());
}

#[test]
fn test_leave_conference() {
    let mut manager = ConferenceManager::new();
    let room_id = manager.create_room("Test Room".to_string(), None, 10).unwrap();

    manager
        .join_conference(room_id, "call-123".to_string(), "Alice".to_string(), ParticipantRole::Attendee, None)
        .unwrap();

    manager.leave_conference("call-123").unwrap();

    assert!(!manager.is_in_conference("call-123"));
}

#[test]
fn test_mute_unmute() {
    let mut manager = ConferenceManager::new();
    let room_id = manager.create_room("Test Room".to_string(), None, 10).unwrap();

    manager
        .join_conference(room_id, "call-123".to_string(), "Alice".to_string(), ParticipantRole::Attendee, None)
        .unwrap();

    manager.mute_participant("call-123").unwrap();
    manager.unmute_participant("call-123").unwrap();
}

#[test]
fn test_pin_protection() {
    let mut manager = ConferenceManager::new();
    let room_id = manager.create_room("Test Room".to_string(), Some("1234".to_string()), 10).unwrap();

    let result =
        manager.join_conference(room_id, "call-123".to_string(), "Alice".to_string(), ParticipantRole::Attendee, None);
    assert!(result.is_err());

    let result = manager.join_conference(
        room_id,
        "call-123".to_string(),
        "Alice".to_string(),
        ParticipantRole::Attendee,
        Some("9999".to_string()),
    );
    assert!(result.is_err());

    let result = manager.join_conference(
        room_id,
        "call-123".to_string(),
        "Alice".to_string(),
        ParticipantRole::Attendee,
        Some("1234".to_string()),
    );
    assert!(result.is_ok());
}

#[test]
fn test_active_conference_count() {
    let mut manager = ConferenceManager::new();

    assert_eq!(manager.active_conference_count(), 0);

    let room_id1 = manager.create_room("Room 1".to_string(), None, 10).unwrap();

    manager
        .join_conference(room_id1, "call-1".to_string(), "Alice".to_string(), ParticipantRole::Moderator, None)
        .unwrap();

    assert_eq!(manager.active_conference_count(), 1);

    let room_id2 = manager.create_room("Room 2".to_string(), None, 10).unwrap();

    manager
        .join_conference(room_id2, "call-2".to_string(), "Bob".to_string(), ParticipantRole::Moderator, None)
        .unwrap();

    assert_eq!(manager.active_conference_count(), 2);
}

#[test]
fn last_leaver_closes_the_room() {
    let mut manager = ConferenceManager::new();
    manager.create_room_at("r".to_string(), None, 5, 7, 0).unwrap();
    manager.join_conference_at(7, "c1".to_string(), "A".to_string(), ParticipantRole::Moderator, None, 70, 10).unwrap();
    assert_eq!(manager.get_conference_for_call("c1"), Some(7));
    assert_eq!(manager.list_active_conferences().len(), 1);
    manager.lock_conference(7).unwrap();
    assert_eq!(manager.get_room(7).unwrap().state, ConferenceState::Locked);
    assert!(manager
        .join_conference_at(7, "c2".to_string(), "B".to_string(), ParticipantRole::Attendee, None, 71, 20)
        .is_err());
    assert!(!manager.is_in_conference("c2"));
    manager.unlock_conference(7).unwrap();
    manager.leave_conference_at("c1", 30).unwrap();
    assert!(manager.get_room(7).is_err());
    assert_eq!(manager.leave_conference("c1"), Err("Call not in conference".to_string()));
    assert_eq!(manager.end_conference(7), Err("Conference room not found".to_string()));
}
