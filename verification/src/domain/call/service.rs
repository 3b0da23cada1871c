//! Call domain service.
use vstd::prelude::*;
use crate::domain::call::aggregate::Call;
use crate::domain::call::entity::Participant;
use crate::domain::call::value_object::CallDirection;
use crate::domain::shared::error::DomainError;
use crate::domain::shared::value_objects::SipUri;
use crate::text::str_eq;

verus! {

/// The direction of a call from whether each party's host is the internal
/// domain: both internal is internal, caller internal only is outbound,
/// callee internal only is inbound, and neither is treated as outbound.
pub open spec fn spec_direction(caller_internal: bool, callee_internal: bool) -> CallDirection {
    if caller_internal && callee_internal {
        CallDirection::Internal
    } else if caller_internal {
        CallDirection::Outbound
    } else if callee_internal {
        CallDirection::Inbound
    } else {
        CallDirection::Outbound
    }
}

/// Domain service for call-related operations.
pub struct CallDomainService;

impl CallDomainService {
    pub fn new() -> (r: Self) {
        CallDomainService
    }

    /// Determine call direction based on participants' hosts.
    pub fn determine_direction(caller_uri: &SipUri, callee_uri: &SipUri, internal_domain: &str) -> (r: CallDirection)
        ensures
            r == spec_direction(caller_uri@.host == internal_domain@, callee_uri@.host == internal_domain@),
    {
        let caller_is_internal = str_eq(caller_uri.host(), internal_domain);
        let callee_is_internal = str_eq(callee_uri.host(), internal_domain);
        if caller_is_internal && callee_is_internal {
            CallDirection::Internal
        } else if caller_is_internal {
            CallDirection::Outbound
        } else if callee_is_internal {
            CallDirection::Inbound
        } else {
            CallDirection::Outbound
        }
    }

    /// Two calls can be bridged when both are active.
    pub fn can_bridge_calls(call1: &Call, call2: &Call) -> (r: bool)
        ensures
            r == (!(call1.spec_state() is Ended) && !(call2.spec_state() is Ended)),
    {
        call1.is_active() && call2.is_active()
    }

    /// A call setup is refused when caller and callee have the same URI.
    pub fn validate_call_setup(caller: &Participant, callee: &Participant) -> (r: Result<(), DomainError>)
        ensures
            r is Ok <==> caller.spec_uri()@ != callee.spec_uri()@,
            r matches Err(e) ==> (e matches DomainError::ValidationError(m) && m@ == "Cannot call yourself"@),
    {
        if caller.uri().same_as(callee.uri()) {
            return Err(DomainError::ValidationError(String::from_str("Cannot call yourself")));
        }
        Ok(())
    }
}

impl Default for CallDomainService {
    fn default() -> (r: Self) {
        Self::new()
    }
}

} // verus!
