//! Call value objects: direction, lifecycle state and end reasons.
use vstd::prelude::*;

verus! {

/// Call direction.
#[derive(Debug, Clone, Copy, PartialEq, Eq, Structural)]
pub enum CallDirection {
    /// Inbound call from external
    Inbound,
    /// Outbound call to external
    Outbound,
    /// Internal call between endpoints
    Internal,
}

/// Reason for call ending.
#[derive(Debug, Clone)]
pub enum EndReason {
    NormalClearing,
    CallerHangup,
    CalleeHangup,
    Rejected,
    NoAnswer,
    Busy,
    Failed(String),
    Canceled,
}

/// Call state.
#[derive(Debug, Clone)]
pub enum CallState {
    /// Call is being initiated
    Initiating,
    /// Callee is being alerted (ringing)
    Ringing,
    /// Call has been answered and media is flowing
    Answered,
    /// Call is on hold
    OnHold,
    /// Call is being transferred
    Transferring,
    /// Call has ended
    Ended(EndReason),
}

/// The text of an end reason as `{:?}` writes it; a failure's detail is
/// quoted as it stands.
pub open spec fn spec_reason_debug(r: EndReason) -> Seq<char> {
    match r {
        EndReason::NormalClearing => "NormalClearing"@,
        EndReason::CallerHangup => "CallerHangup"@,
        EndReason::CalleeHangup => "CalleeHangup"@,
        EndReason::Rejected => "Rejected"@,
        EndReason::NoAnswer => "NoAnswer"@,
        EndReason::Busy => "Busy"@,
        EndReason::Failed(m) => "Failed(\""@ + m@ + "\")"@,
        EndReason::Canceled => "Canceled"@,
    }
}

/// The text of a call state as `{:?}` writes it.
pub open spec fn spec_state_debug(s: CallState) -> Seq<char> {
    match s {
        CallState::Initiating => "Initiating"@,
        CallState::Ringing => "Ringing"@,
        CallState::Answered => "Answered"@,
        CallState::OnHold => "OnHold"@,
        CallState::Transferring => "Transferring"@,
        CallState::Ended(r) => "Ended("@ + spec_reason_debug(r) + ")"@,
    }
}

impl EndReason {
    /// The reason's text, as `spec_reason_debug` gives it.
    pub fn debug_text(&self) -> (r: String)
        ensures
            r@ == spec_reason_debug(*self),
    {
        match self {
            EndReason::NormalClearing => String::from_str("NormalClearing"),
            EndReason::CallerHangup => String::from_str("CallerHangup"),
            EndReason::CalleeHangup => String::from_str("CalleeHangup"),
            EndReason::Rejected => String::from_str("Rejected"),
            EndReason::NoAnswer => String::from_str("NoAnswer"),
            EndReason::Busy => String::from_str("Busy"),
            EndReason::Failed(m) => {
                let mut r = String::from_str("Failed(\"");
                r.append(m.as_str());
                r.append("\")");
                r
            },
            EndReason::Canceled => String::from_str("Canceled"),
        }
    }

    /// A copy of the reason.
    pub fn duplicate(&self) -> (r: Self)
        ensures
            r == *self,
    {
        match self {
            EndReason::NormalClearing => EndReason::NormalClearing,
            EndReason::CallerHangup => EndReason::CallerHangup,
            EndReason::CalleeHangup => EndReason::CalleeHangup,
            EndReason::Rejected => EndReason::Rejected,
            EndReason::NoAnswer => EndReason::NoAnswer,
            EndReason::Busy => EndReason::Busy,
            EndReason::Failed(m) => EndReason::Failed(m.clone()),
            EndReason::Canceled => EndReason::Canceled,
        }
    }
}

/// The call lifecycle: initiating may ring or end; ringing may be answered
/// or end; an answered call may be held, transferred or ended; held and
/// transferring calls may return to answered or end; an ended call stays ended.
pub open spec fn spec_can_transition(from: CallState, to: CallState) -> bool {
    match (from, to) {
        (CallState::Initiating, CallState::Ringing) => true,
        (CallState::Initiating, CallState::Ended(_)) => true,
        (CallState::Ringing, CallState::Answered) => true,
        (CallState::Ringing, CallState::Ended(_)) => true,
        (CallState::Answered, CallState::OnHold) => true,
        (CallState::Answered, CallState::Transferring) => true,
        (CallState::Answered, CallState::Ended(_)) => true,
        (CallState::OnHold, CallState::Answered) => true,
        (CallState::OnHold, CallState::Ended(_)) => true,
        (CallState::Transferring, CallState::Answered) => true,
        (CallState::Transferring, CallState::Ended(_)) => true,
        _ => false,
    }
}

impl CallState {
    /// Check if the state transition is valid.
    pub fn can_transition_to(&self, new_state: &CallState) -> (r: bool)
        ensures
            r == spec_can_transition(*self, *new_state),
    {
        match (self, new_state) {
            (CallState::Initiating, CallState::Ringing) => true,
            (CallState::Initiating, CallState::Ended(_)) => true,
            (CallState::Ringing, CallState::Answered) => true,
            (CallState::Ringing, CallState::Ended(_)) => true,
            (CallState::Answered, CallState::OnHold) => true,
            (CallState::Answered, CallState::Transferring) => true,
            (CallState::Answered, CallState::Ended(_)) => true,
            (CallState::OnHold, CallState::Answered) => true,
            (CallState::OnHold, CallState::Ended(_)) => true,
            (CallState::Transferring, CallState::Answered) => true,
            (CallState::Transferring, CallState::Ended(_)) => true,
            _ => false,
        }
    }

    /// The state's text, as `spec_state_debug` gives it.
    pub fn debug_text(&self) -> (r: String)
        ensures
            r@ == spec_state_debug(*self),
    {
        match self {
            CallState::Initiating => String::from_str("Initiating"),
            CallState::Ringing => String::from_str("Ringing"),
            CallState::Answered => String::from_str("Answered"),
            CallState::OnHold => String::from_str("OnHold"),
            CallState::Transferring => String::from_str("Transferring"),
            CallState::Ended(reason) => {
                let mut r = String::from_str("Ended(");
                let t = reason.debug_text();
                r.append(t.as_str());
                r.append(")");
                r
            },
        }
    }

    /// A call is active until it has ended.
    pub fn is_active(&self) -> (r: bool)
        ensures
            r == !(*self is Ended),
    {
        !matches!(self, CallState::Ended(_))
    }
}

/// An ended call can make no further transition.
pub proof fn lemma_ended_is_final(reason: EndReason, to: CallState)
    ensures
        !spec_can_transition(CallState::Ended(reason), to),
{
}

/// Every active call can end, whatever the reason.
pub proof fn lemma_active_can_end(from: CallState, reason: EndReason)
    requires
        !(from is Ended),
    ensures
        spec_can_transition(from, CallState::Ended(reason)),
{
}

/// No state can transition to itself.
pub proof fn lemma_no_self_transition(s: CallState)
    ensures
        !spec_can_transition(s, s),
{
}

/// No call returns to initiating or ringing.
pub proof fn lemma_setup_states_not_reentered(from: CallState)
    ensures
        !spec_can_transition(from, CallState::Initiating),
        from !is Initiating ==> !spec_can_transition(from, CallState::Ringing),
{
}

} // verus!
