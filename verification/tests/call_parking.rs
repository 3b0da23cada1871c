use yakyak::domain::call_parking::{
    CallParkingManager, ParkedCall, ParkingLotConfig, ParkingSlot, ParkingSlotState,
    SlotAssignmentStrategy, TimeoutAction,
};

fn parked(id: &str, slot: u32, parker: &str, a: &str, b: &str, timeout: i64) -> ParkedCall {
    ParkedCall::new(
        id.to_string(),
        slot,
        parker.to_string(),
        a.to_string(),
        b.to_string(),
        timeout,
        TimeoutAction::CallbackParker,
    )
}

fn park(m: &mut CallParkingManager, id: &str, parker: &str, a: &str, b: &str, pref: Option<u32>) -> Result<u32, String> {
    m.park_call(id.to_string(), parker.to_string(), a.to_string(), b.to_string(), pref)
}

#[test]
fn test_timeout_action_description() {
    assert_eq!(TimeoutAction::CallbackParker.description(), "Call back parker");
    assert_eq!(TimeoutAction::Disconnect.description(), "Disconnect call");
}

#[test]
fn test_parked_call_creation() {
    let call = parked("call-123", 701, "alice", "1001", "1002", 300);
    assert_eq!(call.call_id, "call-123");
    assert_eq!(call.slot_number, 701);
    assert_eq!(call.parker_extension, "alice");
    assert_eq!(call.timeout_action, TimeoutAction::CallbackParker);
    assert!(!call.is_timed_out());
    assert!(call.remaining_seconds() > 290);
}

#[test]
fn test_parking_slot_park_and_retrieve() {
    let mut slot = ParkingSlot::new(700);
    let call = parked("call-123", 700, "alice", "1001", "1002", 300);
    slot.park(call.clone()).unwrap();
    assert_eq!(slot.state, ParkingSlotState::Occupied);
    assert!(slot.parked_call.is_some());
    let retrieved = slot.retrieve().unwrap();
    assert_eq!(retrieved.call_id, "call-123");
    assert_eq!(slot.state, ParkingSlotState::Available);
    assert!(slot.parked_call.is_none());
}

#[test]
fn test_parking_slot_double_park_fails() {
    let mut slot = ParkingSlot::new(700);
    slot.park(parked("call-1", 700, "alice", "1001", "1002", 300)).unwrap();
    let result = slot.park(parked("call-2", 700, "bob", "1003", "1004", 300));
    assert!(result.is_err());
}

#[test]
fn test_parking_lot_config() {
    let lot = ParkingLotConfig::new("Main Lot".to_string(), 700, 799);
    assert_eq!(lot.name, "Main Lot");
    assert_eq!(lot.slot_count(), 100);
    assert!(lot.contains_slot(750));
    assert!(!lot.contains_slot(800));
    assert!(!lot.contains_slot(699));
}

#[test]
fn test_create_parking_lot() {
    let mut manager = CallParkingManager::new();
    let config = ParkingLotConfig::new("Test Lot".to_string(), 700, 710);
    let lot_id = manager.create_lot(config).unwrap();
    assert!(lot_id != 0);
    let slots = manager.list_slots();
    assert_eq!(slots.len(), 11);
}

#[test]
fn test_park_and_retrieve_call() {
    let mut manager = CallParkingManager::new();
    manager.create_lot(ParkingLotConfig::new("Test Lot".to_string(), 700, 710)).unwrap();
    let slot_num = park(&mut manager, "call-123", "alice", "1001", "1002", None).unwrap();
    assert_eq!(slot_num, 700);
    let slot = manager.get_slot(slot_num).unwrap();
    assert_eq!(slot.state, ParkingSlotState::Occupied);
    let retrieved = manager.retrieve_call(slot_num).unwrap();
    assert_eq!(retrieved.call_id, "call-123");
    assert_eq!(retrieved.parker_extension, "alice");
    let slot_after = manager.get_slot(slot_num).unwrap();
    assert_eq!(slot_after.state, ParkingSlotState::Available);
}

#[test]
fn test_park_preferred_slot() {
    let mut manager = CallParkingManager::new();
    manager.create_lot(ParkingLotConfig::new("Test Lot".to_string(), 700, 710)).unwrap();
    let slot_num = park(&mut manager, "call-123", "alice", "1001", "1002", Some(705)).unwrap();
    assert_eq!(slot_num, 705);
}

#[test]
fn test_multiple_parked_calls() {
    let mut manager = CallParkingManager::new();
    manager.create_lot(ParkingLotConfig::new("Test Lot".to_string(), 700, 705)).unwrap();
    let slot1 = park(&mut manager, "call-1", "alice", "1001", "1002", None).unwrap();
    let slot2 = park(&mut manager, "call-2", "bob", "1003", "1004", None).unwrap();
    assert_eq!(slot1, 700);
    assert_eq!(slot2, 701);
    let occupied = manager.list_occupied_slots();
    assert_eq!(occupied.len(), 2);
}

#[test]
fn test_find_slot_by_call_id() {
    let mut manager = CallParkingManager::new();
    manager.create_lot(ParkingLotConfig::new("Test Lot".to_string(), 700, 710)).unwrap();
    let slot_num = park(&mut manager, "call-123", "alice", "1001", "1002", None).unwrap();
    assert_eq!(manager.find_slot_by_call_id("call-123"), Some(slot_num));
    assert_eq!(manager.find_slot_by_call_id("call-999"), None);
}

#[test]
fn test_parking_statistics() {
    let mut manager = CallParkingManager::new();
    manager.create_lot(ParkingLotConfig::new("Test Lot".to_string(), 700, 710)).unwrap();
    let slot1 = park(&mut manager, "call-1", "alice", "1001", "1002", None).unwrap();
    park(&mut manager, "call-2", "bob", "1003", "1004", None).unwrap();
    manager.retrieve_call(slot1).unwrap();
    let stats = manager.get_statistics();
    assert_eq!(stats.total_slots, 11);
    assert_eq!(stats.occupied_slots, 1);
    assert_eq!(stats.available_slots, 10);
    assert_eq!(stats.total_parked_calls, 2);
    assert_eq!(stats.total_retrieved_calls, 1);
}

#[test]
fn test_timeout_detection() {
    let call = parked("call-123", 700, "alice", "1001", "1002", -10);
    assert!(call.is_timed_out());
    assert_eq!(call.remaining_seconds(), 0);
}

#[test]
fn test_clear_all_slots() {
    let mut manager = CallParkingManager::new();
    manager.create_lot(ParkingLotConfig::new("Test Lot".to_string(), 700, 710)).unwrap();
    park(&mut manager, "call-1", "alice", "1001", "1002", None).unwrap();
    park(&mut manager, "call-2", "bob", "1003", "1004", None).unwrap();
    assert_eq!(manager.list_occupied_slots().len(), 2);
    manager.clear_all_slots();
    assert_eq!(manager.list_occupied_slots().len(), 0);
}

#[test]
fn test_delete_parking_lot() {
    let mut manager = CallParkingManager::new();
    let lot_id = manager.create_lot(ParkingLotConfig::new("Test Lot".to_string(), 700, 710)).unwrap();
    assert_eq!(manager.list_slots().len(), 11);
    manager.delete_lot(lot_id).unwrap();
    assert_eq!(manager.list_slots().len(), 0);
}

#[test]
fn test_overlapping_lots_rejected() {
    let mut manager = CallParkingManager::new();
    manager.create_lot(ParkingLotConfig::new("Lot 1".to_string(), 700, 750)).unwrap();
    let result = manager.create_lot(ParkingLotConfig::new("Lot 2".to_string(), 740, 790));
    assert!(result.is_err());
    assert!(result.unwrap_err().contains("already exists"));
}

#[test]
fn test_disabled_slot_cannot_park() {
    let mut slot = ParkingSlot::new(700).disabled();
    let result = slot.park(parked("call-123", 700, "alice", "1001", "1002", 300));
    assert!(result.is_err());
    assert!(result.unwrap_err().contains("disabled"));
}

#[test]
fn parking_errors_and_ordering() {
    let mut m = CallParkingManager::new();
    assert_eq!(park(&mut m, "c", "a", "1", "2", None), Err("No enabled parking lots available".to_string()));
    assert_eq!(
        m.create_lot(ParkingLotConfig::new("x".to_string(), 5, 5)),
        Err("Invalid slot range: start must be less than end".to_string())
    );
    assert_eq!(
        m.create_lot(ParkingLotConfig::new("x".to_string(), 1, 1001)),
        Err("Slot range too large (max 1000 slots per lot)".to_string())
    );
    m.create_lot(ParkingLotConfig::new("high".to_string(), 800, 801)).unwrap();
    m.create_lot(ParkingLotConfig::new("low".to_string(), 100, 102)).unwrap();
    assert_eq!(
        m.create_lot(ParkingLotConfig::new("clash".to_string(), 790, 800)),
        Err("Slot 800 already exists in another lot".to_string())
    );
    let numbers: Vec<u32> = m.list_slots().iter().map(|s| s.number).collect();
    assert_eq!(numbers, vec![100, 101, 102, 800, 801]);
    assert_eq!(park(&mut m, "c1", "a", "1", "2", Some(900)), Err("Preferred slot 900 is not available".to_string()));
    assert_eq!(park(&mut m, "c1", "a", "1", "2", None), Ok(800));
    assert_eq!(park(&mut m, "c2", "a", "1", "2", None), Ok(801));
    assert_eq!(park(&mut m, "c3", "a", "1", "2", None), Err("No available parking slots".to_string()));
    assert_eq!(park(&mut m, "c3", "a", "1", "2", Some(801)), Err("Preferred slot 801 is not available".to_string()));
    assert_eq!(m.retrieve_call(999).unwrap_err(), "Parking slot 999 not found");
    assert_eq!(m.retrieve_call(100).unwrap_err(), "Parking slot 100 has no parked call");
    assert_eq!(m.delete_lot(1).unwrap_err(), "Parking lot not found");
    assert_eq!(m.list_lots().len(), 2);
}

#[test]
fn parking_timeouts_and_lru() {
    let mut m = CallParkingManager::new();
    let lot = ParkingLotConfig::new("lot".to_string(), 10, 12)
        .with_timeout(5, TimeoutAction::Voicemail)
        .with_strategy(SlotAssignmentStrategy::LeastRecentlyUsed);
    m.create_lot(lot).unwrap();
    assert_eq!(m.park_call_at("a".to_string(), "p".to_string(), "1".to_string(), "2".to_string(), Some(10), 1_000), Ok(10));
    let r = m.retrieve_call_at(10, 4_000).unwrap();
    assert_eq!(r.retrieval_attempts, 1);
    // slot 10 was used last, so one of the never-used slots comes first
    let n = m.park_call_at("b".to_string(), "p".to_string(), "1".to_string(), "2".to_string(), None, 5_000).unwrap();
    assert!(n == 11 || n == 12);
    let timed = m.process_timeouts_at(9_999);
    assert!(timed.is_empty());
    let timed = m.process_timeouts_at(10_000);
    assert_eq!(timed.len(), 1);
    assert_eq!(timed[0].0, n);
    assert!(timed[0].1.timeout_attempted);
    assert_eq!(m.find_slot_by_call_id("b"), None);
    let stats = m.get_statistics();
    assert_eq!(stats.total_timeouts, 1);
    assert_eq!(stats.timeouts_by_action.get(TimeoutAction::Voicemail), 1);
    assert_eq!(stats.average_parking_duration, 3);
    assert_eq!(stats.occupied_slots, 0);
}

#[test]
fn parking_random_strategy_stays_in_lot() {
    let mut m = CallParkingManager::new();
    m.create_lot(ParkingLotConfig::new("r".to_string(), 20, 29).with_strategy(SlotAssignmentStrategy::Random)).unwrap();
    for i in 0..10 {
        let n = park(&mut m, &format!("c{}", i), "p", "1", "2", None).unwrap();
        assert!((20..=29).contains(&n));
    }
    assert_eq!(park(&mut m, "x", "p", "1", "2", None), Err("No available parking slots".to_string()));
}
