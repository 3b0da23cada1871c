use yakyak::domain::shared::system::{format_uuid, new_uuid};
use yakyak::domain::call::service::CallDomainService;
use yakyak::domain::call::value_object::{CallDirection, CallState, EndReason};
use yakyak::domain::shared::error::DomainError;
use yakyak::domain::shared::value_objects::{CallId, SipUri};

#[test]
fn test_sip_uri_parse() {
    let uri = SipUri::parse("sip:alice@example.com").unwrap();
    assert_eq!(uri.user(), "alice");
    assert_eq!(uri.host(), "example.com");
    assert_eq!(uri.port(), None);

    let uri_with_port = SipUri::parse("sip:bob@example.com:5060").unwrap();
    assert_eq!(uri_with_port.user(), "bob");
    assert_eq!(uri_with_port.host(), "example.com");
    assert_eq!(uri_with_port.port(), Some(5060));
}

#[test]
fn test_sip_uri_display() {
    let uri = SipUri::new("alice".to_string(), "example.com".to_string(), None);
    assert_eq!(uri.to_string(), "sip:alice@example.com");
    let uri_with_port = SipUri::new("bob".to_string(), "example.com".to_string(), Some(5060));
    assert_eq!(uri_with_port.to_string(), "sip:bob@example.com:5060");
}

#[test]
fn test_sip_uri_parse_errors_and_ports() {
    assert_eq!(SipUri::parse("tel:123").unwrap_err(), "URI must start with 'sip:'");
    assert_eq!(SipUri::parse("sip:alice").unwrap_err(), "Invalid SIP URI format");
    assert_eq!(SipUri::parse("sip:a@b@c").unwrap_err(), "Invalid SIP URI format");
    assert_eq!(SipUri::parse("sip:a@h:99999").unwrap().port(), None);
    assert_eq!(SipUri::parse("sip:a@h:+80").unwrap().port(), Some(80));
    assert_eq!(SipUri::parse("sip:a@h:80:90").unwrap().port(), Some(80));
    assert_eq!(SipUri::parse("sip:a@h:").unwrap().port(), None);
    assert_eq!(SipUri::parse("sip:@h").unwrap().user(), "");
    let u = SipUri::parse("sip:carol@host:65535").unwrap();
    assert_eq!(u.to_string(), "sip:carol@host:65535");
}

#[test]
fn test_determine_direction() {
    let internal_domain = "example.com";
    let internal_to_internal = CallDomainService::determine_direction(
        &SipUri::parse("sip:alice@example.com").unwrap(),
        &SipUri::parse("sip:bob@example.com").unwrap(),
        internal_domain,
    );
    assert_eq!(internal_to_internal, CallDirection::Internal);
    let internal_to_external = CallDomainService::determine_direction(
        &SipUri::parse("sip:alice@example.com").unwrap(),
        &SipUri::parse("sip:charlie@external.com").unwrap(),
        internal_domain,
    );
    assert_eq!(internal_to_external, CallDirection::Outbound);
    let external_to_internal = CallDomainService::determine_direction(
        &SipUri::parse("sip:charlie@external.com").unwrap(),
        &SipUri::parse("sip:alice@example.com").unwrap(),
        internal_domain,
    );
    assert_eq!(external_to_internal, CallDirection::Inbound);
    let external_both = CallDomainService::determine_direction(
        &SipUri::parse("sip:x@a.com").unwrap(),
        &SipUri::parse("sip:y@b.com").unwrap(),
        internal_domain,
    );
    assert_eq!(external_both, CallDirection::Outbound);
}

#[test]
fn test_valid_state_transitions() {
    let initiating = CallState::Initiating;
    assert!(initiating.can_transition_to(&CallState::Ringing));
    assert!(initiating.can_transition_to(&CallState::Ended(EndReason::Canceled)));
    assert!(!initiating.can_transition_to(&CallState::Answered));

    let ringing = CallState::Ringing;
    assert!(ringing.can_transition_to(&CallState::Answered));
    assert!(ringing.can_transition_to(&CallState::Ended(EndReason::NoAnswer)));

    let answered = CallState::Answered;
    assert!(answered.can_transition_to(&CallState::OnHold));
    assert!(answered.can_transition_to(&CallState::Ended(EndReason::NormalClearing)));
}

#[test]
fn test_invalid_state_transitions() {
    let ended = CallState::Ended(EndReason::NormalClearing);
    assert!(!ended.can_transition_to(&CallState::Answered));
    assert!(!ended.can_transition_to(&CallState::Ringing));
}

#[test]
fn test_is_active() {
    assert!(CallState::Initiating.is_active());
    assert!(CallState::Answered.is_active());
    assert!(!CallState::Ended(EndReason::NormalClearing).is_active());
}

#[test]
fn test_call_id_bits() {
    let id = CallId::new();
    assert_ne!(id.as_uuid(), 0);
    assert_eq!((id.as_uuid() >> 76) & 0xF, 4);
    assert_eq!(CallId::from_uuid(7).as_uuid(), 7);
}

#[test]
fn test_domain_error_text() {
    assert_eq!(DomainError::NotFound("call".to_string()).to_string(), "Entity not found: call");
    assert_eq!(DomainError::ValidationError("x".to_string()).to_string(), "Validation error: x");
}

#[test]
fn sip_uri_reads_back_from_its_text() {
    for (u, h, p) in [("alice", "example.com", None), ("bob", "example.com", Some(5060u16)), ("c", "10.0.0.1", Some(0u16))] {
        let uri = SipUri::new(u.to_string(), h.to_string(), p);
        let back = SipUri::parse(&uri.to_string()).unwrap();
        assert!(back.same_as(&uri));
        assert_eq!(back.port(), p);
    }
    assert_eq!(SipUri::new("alice".to_string(), "example.com".to_string(), None).to_string(), "sip:alice@example.com");
}

#[test]
fn fresh_identifiers_carry_version_four() {
    for _ in 0..100 {
        let id = new_uuid();
        assert_eq!((id >> 76) & 0xf, 4);
        assert_eq!((id >> 62) & 0x3, 2);
        let text = format_uuid(id);
        assert_eq!(text.as_bytes()[14], b'4');
    }
}
