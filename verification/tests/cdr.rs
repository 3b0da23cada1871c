use yakyak::domain::cdr::{CallDetailRecord, CallDirection, CallStatus, CdrFilters};

fn record(call_id: &str, direction: CallDirection) -> CallDetailRecord {
    CallDetailRecord::new(
        call_id.to_string(),
        "alice".to_string(),
        "sip:alice@example.com".to_string(),
        "192.168.1.100".to_string(),
        "bob".to_string(),
        "sip:bob@example.com".to_string(),
        direction,
    )
}

fn record_at(call_id: &str, now: i64) -> CallDetailRecord {
    CallDetailRecord::new_at(
        1,
        call_id.to_string(),
        "alice".to_string(),
        "sip:alice@example.com".to_string(),
        "192.168.1.100".to_string(),
        "bob".to_string(),
        "sip:bob@example.com".to_string(),
        CallDirection::Internal,
        now,
    )
}

#[test]
fn test_cdr_creation() {
    let cdr = record("test-call-123", CallDirection::Internal);
    assert_eq!(cdr.call_id, "test-call-123");
    assert_eq!(cdr.caller_username, "alice");
    assert_eq!(cdr.callee_username, "bob");
    assert_eq!(cdr.direction, CallDirection::Internal);
    assert_eq!(cdr.status, CallStatus::Active);
    assert!(cdr.answer_time.is_none());
    assert!(cdr.end_time.is_none());
}

#[test]
fn test_cdr_answered() {
    let mut cdr = record_at("test-call-123", 1_000);
    cdr.mark_answered_at(1_010);
    assert!(cdr.answer_time.is_some());
    assert!(cdr.setup_duration.is_some());
    assert!(cdr.setup_duration.unwrap() >= 0);
}

#[test]
fn test_cdr_ended() {
    let mut cdr = record_at("test-call-123", 1_000);
    cdr.mark_answered_at(1_010);
    cdr.mark_ended_at(CallStatus::Completed, Some("Normal clearing".to_string()), Some(200), 1_020);
    assert_eq!(cdr.status, CallStatus::Completed);
    assert_eq!(cdr.end_reason, Some("Normal clearing".to_string()));
    assert_eq!(cdr.sip_response_code, Some(200));
    assert!(cdr.end_time.is_some());
    assert!(cdr.total_duration.is_some());
    assert!(cdr.call_duration.is_some());
}

#[test]
fn test_call_status_conversion() {
    assert_eq!(CallStatus::Completed.as_str(), "completed");
    assert_eq!(CallStatus::from_str("completed"), Some(CallStatus::Completed));
    assert_eq!(CallStatus::from_str("invalid"), None);
}

#[test]
fn test_call_direction() {
    assert_eq!(CallDirection::Internal.as_str(), "internal");
    assert_eq!(CallDirection::Inbound.as_str(), "inbound");
    assert_eq!(CallDirection::Outbound.as_str(), "outbound");
}

#[test]
fn test_cdr_set_media_info() {
    let mut cdr = record("test-media", CallDirection::Internal);
    cdr.set_media_info(Some("PCMU".to_string()), Some(1000), Some(950), Some(160000), Some(152000));
    assert_eq!(cdr.codec, Some("PCMU".to_string()));
    assert_eq!(cdr.rtp_packets_sent, Some(1000));
    assert_eq!(cdr.rtp_packets_received, Some(950));
    assert_eq!(cdr.rtp_bytes_sent, Some(160000));
    assert_eq!(cdr.rtp_bytes_received, Some(152000));
}

#[test]
fn test_cdr_set_callee_ip() {
    let mut cdr = record("test-callee-ip", CallDirection::Internal);
    assert!(cdr.callee_ip.is_none());
    cdr.set_callee_ip("192.168.1.101".to_string());
    assert_eq!(cdr.callee_ip, Some("192.168.1.101".to_string()));
}

#[test]
fn test_cdr_rejected_status() {
    let mut cdr = record("test-reject", CallDirection::Outbound);
    cdr.mark_ended(CallStatus::Rejected, Some("User declined".to_string()), Some(603));
    assert_eq!(cdr.status, CallStatus::Rejected);
    assert_eq!(cdr.end_reason, Some("User declined".to_string()));
    assert_eq!(cdr.sip_response_code, Some(603));
    assert!(cdr.end_time.is_some());
    assert!(cdr.total_duration.is_some());
    assert!(cdr.call_duration.is_none());
}

#[test]
fn test_cdr_busy_status() {
    let mut cdr = record("test-busy", CallDirection::Outbound);
    cdr.mark_ended(CallStatus::Busy, Some("User busy".to_string()), Some(486));
    assert_eq!(cdr.status, CallStatus::Busy);
    assert_eq!(cdr.end_reason, Some("User busy".to_string()));
    assert_eq!(cdr.sip_response_code, Some(486));
}

#[test]
fn test_cdr_cancelled_status() {
    let mut cdr = record("test-cancel", CallDirection::Outbound);
    cdr.mark_ended(CallStatus::Cancelled, Some("Call cancelled".to_string()), Some(487));
    assert_eq!(cdr.status, CallStatus::Cancelled);
    assert_eq!(cdr.end_reason, Some("Call cancelled".to_string()));
    assert_eq!(cdr.sip_response_code, Some(487));
}

#[test]
fn test_cdr_no_answer_status() {
    let mut cdr = record("test-no-answer", CallDirection::Outbound);
    cdr.mark_ended(CallStatus::NoAnswer, Some("No answer".to_string()), Some(408));
    assert_eq!(cdr.status, CallStatus::NoAnswer);
    assert_eq!(cdr.end_reason, Some("No answer".to_string()));
    assert_eq!(cdr.sip_response_code, Some(408));
}

#[test]
fn test_cdr_duration_calculation() {
    let mut cdr = record_at("test-duration", 10_000);
    cdr.mark_answered_at(12_500);
    cdr.mark_ended_at(CallStatus::Completed, Some("Normal".to_string()), Some(200), 75_999);
    let total = cdr.total_duration.unwrap();
    let setup = cdr.setup_duration.unwrap();
    let call = cdr.call_duration.unwrap();
    assert!(total >= setup);
    assert!(total >= call);
    assert_eq!(setup, 2);
    assert_eq!(call, 63);
    assert_eq!(total, 65);
    assert_eq!(cdr.updated_at, 75_999);
}

#[test]
fn test_cdr_filters_default() {
    let filters = CdrFilters::default();
    assert!(filters.caller_username.is_none());
    assert!(filters.callee_username.is_none());
    assert!(filters.direction.is_none());
    assert!(filters.status.is_none());
    assert!(filters.start_time_from.is_none());
    assert!(filters.start_time_to.is_none());
    assert!(filters.min_duration.is_none());
}

#[test]
fn test_call_status_all_variants() {
    assert_eq!(CallStatus::Active.as_str(), "active");
    assert_eq!(CallStatus::Completed.as_str(), "completed");
    assert_eq!(CallStatus::Failed.as_str(), "failed");
    assert_eq!(CallStatus::Busy.as_str(), "busy");
    assert_eq!(CallStatus::NoAnswer.as_str(), "no_answer");
    assert_eq!(CallStatus::Cancelled.as_str(), "cancelled");
    assert_eq!(CallStatus::Rejected.as_str(), "rejected");
    assert_eq!(CallStatus::from_str("active"), Some(CallStatus::Active));
    assert_eq!(CallStatus::from_str("completed"), Some(CallStatus::Completed));
    assert_eq!(CallStatus::from_str("failed"), Some(CallStatus::Failed));
    assert_eq!(CallStatus::from_str("busy"), Some(CallStatus::Busy));
    assert_eq!(CallStatus::from_str("no_answer"), Some(CallStatus::NoAnswer));
    assert_eq!(CallStatus::from_str("cancelled"), Some(CallStatus::Cancelled));
    assert_eq!(CallStatus::from_str("rejected"), Some(CallStatus::Rejected));
    assert_eq!(CallStatus::from_str("unknown"), None);
}

#[test]
fn test_cdr_negative_clock_rounds_toward_zero() {
    let mut cdr = record_at("skew", 10_000);
    cdr.mark_ended_at(CallStatus::Failed, None, None, 8_500);
    assert_eq!(cdr.total_duration, Some(-1));
    assert_eq!(cdr.call_duration, None);
}
