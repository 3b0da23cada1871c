use yakyak::domain::call::aggregate::Call;
use yakyak::domain::call::entity::Participant;
use yakyak::domain::call::service::CallDomainService;
use yakyak::domain::call::event::CallEvent;
use yakyak::domain::call::value_object::{CallDirection, CallState, EndReason};
use yakyak::domain::shared::value_objects::{CallId, EndpointId, SessionId, SipUri};
use yakyak::domain::shared::DomainError;

fn create_test_call() -> Call {
    let caller = Participant::new(
        EndpointId::new(),
        SipUri::parse("sip:alice@example.com").unwrap(),
        Some("Alice".to_string()),
    );
    let callee = Participant::new(
        EndpointId::new(),
        SipUri::parse("sip:bob@example.com").unwrap(),
        Some("Bob".to_string()),
    );
    Call::new(CallId::new(), caller, callee, CallDirection::Internal)
}

#[test]
fn test_call_lifecycle() {
    let mut call = create_test_call();

    assert!(matches!(call.state(), CallState::Initiating));
    assert_eq!(call.pending_events().len(), 1);

    let session_id = SessionId::new();
    call.ring(session_id).unwrap();
    assert!(matches!(call.state(), CallState::Ringing));
    assert_eq!(call.session_id(), Some(&session_id));

    call.answer().unwrap();
    assert!(matches!(call.state(), CallState::Answered));
    assert!(call.answered_at().is_some());

    call.hold().unwrap();
    assert!(matches!(call.state(), CallState::OnHold));

    call.resume().unwrap();
    assert!(matches!(call.state(), CallState::Answered));

    call.end(EndReason::NormalClearing).unwrap();
    assert!(matches!(call.state(), CallState::Ended(_)));
    assert!(call.ended_at().is_some());
    assert!(call.duration().is_some());

    let events = call.take_events();
    assert_eq!(events.len(), 6);
}

#[test]
fn test_invalid_state_transition() {
    let mut call = create_test_call();
    let result = call.answer();
    assert!(result.is_err());
}

#[test]
fn test_cannot_transition_from_ended() {
    let mut call = create_test_call();
    call.ring(SessionId::new()).unwrap();
    call.answer().unwrap();
    call.end(EndReason::NormalClearing).unwrap();
    let result = call.hold();
    assert!(result.is_err());
}

#[test]
fn test_call_timed_lifecycle_records_durations() {
    let caller = Participant::new(
        EndpointId::from_uuid(1),
        SipUri::parse("sip:alice@example.com").unwrap(),
        None,
    );
    let callee = Participant::new(
        EndpointId::from_uuid(2),
        SipUri::parse("sip:bob@example.com").unwrap(),
        None,
    );
    let mut call = Call::new_at(CallId::from_uuid(7), caller, callee, CallDirection::Outbound, 1_000);
    assert_eq!(call.started_at(), 1_000);
    call.ring(SessionId::from_uuid(9)).unwrap();
    call.answer_at(2_000).unwrap();
    call.end_at(EndReason::CallerHangup, 63_999).unwrap();
    assert_eq!(call.answered_at(), Some(2_000));
    assert_eq!(call.ended_at(), Some(63_999));
    assert_eq!(call.duration(), Some(61_999));
    let events = call.take_events();
    assert_eq!(events.len(), 4);
    assert!(call.pending_events().is_empty());
    for e in &events {
        assert_eq!(e.call_id().as_uuid(), 7);
    }
    match &events[3] {
        CallEvent::Ended(e) => {
            assert_eq!(e.duration_seconds, Some(61));
            assert_eq!(e.ended_at, 63_999);
            assert_eq!(e.base.metadata.event_type, "call.ended");
        }
        _ => panic!("expected an ended event"),
    }
    match &events[1] {
        CallEvent::Ringing(e) => assert_eq!(e.session_id.as_uuid(), 9),
        _ => panic!("expected a ringing event"),
    }
}

#[test]
fn test_call_refused_transition_messages() {
    let mut call = create_test_call();
    match call.hold() {
        Err(DomainError::InvalidStateTransition(m)) => {
            assert_eq!(m, "Cannot transition from Initiating to OnHold")
        }
        _ => panic!("expected a refused transition"),
    }
    match call.resume() {
        Err(DomainError::InvalidStateTransition(m)) => {
            assert_eq!(m, "Can only resume from OnHold state")
        }
        _ => panic!("expected a refused resume"),
    }
    call.end(EndReason::Failed("x".to_string())).unwrap();
    assert!(!call.is_active());
    match call.end(EndReason::Busy) {
        Err(DomainError::InvalidStateTransition(m)) => {
            assert_eq!(m, "Cannot transition from Ended(Failed(\"x\")) to Ended(Busy)")
        }
        _ => panic!("expected a refused end"),
    }
    // an unanswered call has no duration
    assert_eq!(call.duration(), None);
    assert_eq!(call.pending_events().len(), 2);
}

#[test]
fn test_validate_call_setup() {
    let uri = SipUri::parse("sip:alice@example.com").unwrap();
    let participant = Participant::new(EndpointId::new(), uri.clone(), Some("Alice".to_string()));
    let result = CallDomainService::validate_call_setup(&participant, &participant);
    assert!(result.is_err());
}

#[test]
fn test_call_setup_and_bridging() {
    let a = Participant::new(EndpointId::new(), SipUri::parse("sip:alice@example.com").unwrap(), None);
    let b = Participant::new(EndpointId::new(), SipUri::parse("sip:alice@example.com:5060").unwrap(), None);
    assert!(CallDomainService::validate_call_setup(&a, &b).is_ok());
    let mut c1 = create_test_call();
    let c2 = create_test_call();
    assert!(CallDomainService::can_bridge_calls(&c1, &c2));
    c1.end(EndReason::Canceled).unwrap();
    assert!(!CallDomainService::can_bridge_calls(&c1, &c2));
}
