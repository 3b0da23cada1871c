use yakyak::domain::sip_trunk::{SipTrunk, TrunkDirection, TrunkType};

#[test]
fn test_sip_trunk_creation() {
    let trunk = SipTrunk::new("Provider1".to_string(), "SIP Provider Inc.".to_string(), TrunkType::Register);

    assert_eq!(trunk.name, "Provider1");
    assert_eq!(trunk.trunk_type, TrunkType::Register);
    assert!(trunk.register_enabled);
    assert!(!trunk.registered);
}

#[test]
fn test_trunk_with_server() {
    let trunk = SipTrunk::new("Provider1".to_string(), "SIP Provider Inc.".to_string(), TrunkType::Register)
        .with_server("sip.provider.com".to_string(), 5060);

    assert_eq!(trunk.sip_server, "sip.provider.com");
    assert_eq!(trunk.sip_port, 5060);
}

#[test]
fn test_trunk_direction() {
    let mut trunk = SipTrunk::new("Provider1".to_string(), "Provider".to_string(), TrunkType::Register)
        .with_direction(TrunkDirection::Outbound);

    assert!(trunk.can_handle_outbound());
    assert!(!trunk.can_handle_inbound());

    trunk.direction = TrunkDirection::Bidirectional;
    assert!(trunk.can_handle_outbound());
    assert!(trunk.can_handle_inbound());
}

#[test]
fn test_ip_based_trunk() {
    let mut trunk = SipTrunk::new("Provider1".to_string(), "Provider".to_string(), TrunkType::IpBased);

    trunk.add_allowed_ip("192.168.1.100".to_string());
    trunk.add_allowed_ip("192.168.1.101".to_string());

    assert!(trunk.is_ip_allowed("192.168.1.100"));
    assert!(trunk.is_ip_allowed("192.168.1.101"));
    assert!(!trunk.is_ip_allowed("192.168.1.102"));
}

#[test]
fn test_number_formatting() {
    let mut trunk = SipTrunk::new("Provider1".to_string(), "Provider".to_string(), TrunkType::Register);

    trunk.prefix = Some("9".to_string());
    trunk.strip_prefix = true;
    trunk.add_prefix = Some("1".to_string());

    let formatted = trunk.format_outbound_number("95551234");
    assert_eq!(formatted, "15551234");
}

#[test]
fn test_registration_needed() {
    let mut trunk = SipTrunk::new("Provider1".to_string(), "Provider".to_string(), TrunkType::Register);

    assert!(trunk.needs_registration());

    trunk.mark_registered();
    assert!(!trunk.needs_registration());
    assert!(trunk.registered);
    assert!(trunk.last_registration.is_some());
}

#[test]
fn test_caller_id() {
    let trunk = SipTrunk::new("Provider1".to_string(), "Provider".to_string(), TrunkType::Register)
        .with_caller_id("5551234".to_string(), "Company Name".to_string());

    assert_eq!(trunk.caller_id_number, Some("5551234".to_string()));
    assert_eq!(trunk.caller_id_name, Some("Company Name".to_string()));
}

#[test]
fn registration_is_renewed_a_minute_before_expiry() {
    let mut trunk = SipTrunk::new_at(1, "t".to_string(), "p".to_string(), TrunkType::Register, 0);
    trunk.mark_registered_at(1_000_000);
    // 3600 s expiry: renew from 3540 s on.
    assert!(!trunk.needs_registration_at(1_000_000 + 3_539_000));
    assert!(trunk.needs_registration_at(1_000_000 + 3_540_000));
    trunk.mark_unregistered_at(1_000_001);
    assert!(trunk.needs_registration_at(1_000_002));
    let peer = SipTrunk::new_at(2, "p".to_string(), "p".to_string(), TrunkType::Peer, 0);
    assert!(!peer.needs_registration_at(0));
}

#[test]
fn numbers_without_the_prefix_are_kept_and_ip_checks_skip_other_trunks() {
    let mut trunk = SipTrunk::new_at(1, "t".to_string(), "p".to_string(), TrunkType::Register, 0);
    trunk.prefix = Some("9".to_string());
    trunk.strip_prefix = true;
    assert_eq!(trunk.format_outbound_number("5551234"), "5551234");
    assert_eq!(trunk.format_outbound_number("95551234"), "5551234");
    trunk.strip_prefix = false;
    assert_eq!(trunk.format_outbound_number("95551234"), "95551234");
    assert!(trunk.is_ip_allowed("10.0.0.1"));
    assert_eq!(trunk.codecs.len(), 3);
    assert_eq!(trunk.codecs[0].codec, "PCMU");
    let creds = trunk.with_credentials("u".to_string(), "pw".to_string());
    assert_eq!(creds.auth_username, Some("u".to_string()));
}
