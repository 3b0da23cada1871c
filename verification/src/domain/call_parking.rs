//! Call parking: calls placed on hold in a shared numbered slot and retrieved
//! from any extension, with a timeout action when nobody retrieves them.
use vstd::prelude::*;
use crate::domain::shared::stats::{average_of, average_time};
use crate::domain::shared::system::{clock_reading, elapsed_seconds, is_v4_uuid, new_uuid, now_millis, random_index, seconds_between};
use crate::store::{has_key, lemma_lookup_absent, lemma_lookup_at, KeyOf, Keyed, Store};
use crate::text::{decimal, join3, u64_to_string};

verus! {

/// Call parking slot state.
#[derive(Debug, Clone, Copy, PartialEq, Eq, Structural)]
pub enum ParkingSlotState {
    /// Slot is available for parking
    Available,
    /// Slot has a parked call
    Occupied,
    /// Slot is reserved but call not yet parked
    Reserved,
}

/// Call parking timeout action.
#[derive(Debug, Clone, Copy, PartialEq, Eq, Structural)]
pub enum TimeoutAction {
    /// Call back the parker
    CallbackParker,
    /// Call back the original caller
    CallbackCaller,
    /// Transfer to operator/attendant
    TransferOperator,
    /// Disconnect the call
    Disconnect,
    /// Send to voicemail
    Voicemail,
}

impl TimeoutAction {
    /// Description text.
    pub open spec fn spec_description(self) -> Seq<char> {
        match self {
            TimeoutAction::CallbackParker => "Call back parker"@,
            TimeoutAction::CallbackCaller => "Call back caller"@,
            TimeoutAction::TransferOperator => "Transfer to operator"@,
            TimeoutAction::Disconnect => "Disconnect call"@,
            TimeoutAction::Voicemail => "Send to voicemail"@,
        }
    }

    /// Description of the action.
    pub fn description(&self) -> (r: &'static str)
        ensures
            r@ == self.spec_description(),
    {
        match self {
            TimeoutAction::CallbackParker => "Call back parker",
            TimeoutAction::CallbackCaller => "Call back caller",
            TimeoutAction::TransferOperator => "Transfer to operator",
            TimeoutAction::Disconnect => "Disconnect call",
            TimeoutAction::Voicemail => "Send to voicemail",
        }
    }
}

/// `x` limited to the range of `i64`.
pub open spec fn clamp_i64(x: int) -> i64 {
    if x > i64::MAX {
        i64::MAX
    } else if x < i64::MIN {
        i64::MIN
    } else {
        x as i64
    }
}

/// Parked call information.
#[derive(Debug, Clone)]
pub struct ParkedCall {
    /// Unique identifier for this parked call
    pub id: u128,
    /// Call ID from the original call
    pub call_id: String,
    /// Parking slot number
    pub slot_number: u32,
    /// Extension that parked the call
    pub parker_extension: String,
    /// Original caller information
    pub caller_id: String,
    /// Original callee information
    pub callee_id: String,
    /// When the call was parked (milliseconds since the epoch)
    pub parked_at: i64,
    /// When the parking times out (milliseconds since the epoch)
    pub timeout_at: i64,
    /// Action to take on timeout
    pub timeout_action: TimeoutAction,
    /// Whether timeout callback has been attempted
    pub timeout_attempted: bool,
    /// Number of retrieval attempts
    pub retrieval_attempts: u32,
    /// Optional custom announcement for the slot
    pub announcement: Option<String>,
}

impl ParkedCall {
    /// A call parked at `now` in `slot_number` with the given timeout.
    pub open spec fn parked(
        self,
        call_id: Seq<char>,
        slot_number: u32,
        parker: Seq<char>,
        caller: Seq<char>,
        callee: Seq<char>,
        timeout_seconds: i64,
        action: TimeoutAction,
        now: i64,
    ) -> bool {
        &&& is_v4_uuid(self.id)
        &&& self.call_id@ == call_id
        &&& self.slot_number == slot_number
        &&& self.parker_extension@ == parker
        &&& self.caller_id@ == caller
        &&& self.callee_id@ == callee
        &&& self.parked_at == now
        &&& self.timeout_at == clamp_i64(now + timeout_seconds * 1000)
        &&& self.timeout_action == action
        &&& !self.timeout_attempted
        &&& self.retrieval_attempts == 0
        &&& self.announcement is None
    }

    /// A call parked at `now` (milliseconds) timing out `timeout_seconds` later.
    pub fn new_at(
        call_id: String,
        slot_number: u32,
        parker_extension: String,
        caller_id: String,
        callee_id: String,
        timeout_seconds: i64,
        timeout_action: TimeoutAction,
        now: i64,
    ) -> (r: Self)
        ensures
            r.parked(call_id@, slot_number, parker_extension@, caller_id@, callee_id@, timeout_seconds, timeout_action, now),
    {
        let t: i128 = now as i128 + timeout_seconds as i128 * 1000;
        let timeout_at: i64 = if t > i64::MAX as i128 {
            i64::MAX
        } else if t < i64::MIN as i128 {
            i64::MIN
        } else {
            t as i64
        };
        ParkedCall {
            id: new_uuid(),
            call_id,
            slot_number,
            parker_extension,
            caller_id,
            callee_id,
            parked_at: now,
            timeout_at,
            timeout_action,
            timeout_attempted: false,
            retrieval_attempts: 0,
            announcement: None,
        }
    }

    /// A call parked now.
    pub fn new(
        call_id: String,
        slot_number: u32,
        parker_extension: String,
        caller_id: String,
        callee_id: String,
        timeout_seconds: i64,
        timeout_action: TimeoutAction,
    ) -> (r: Self)
        ensures
            r.parked(call_id@, slot_number, parker_extension@, caller_id@, callee_id@, timeout_seconds, timeout_action, r.parked_at),
    {
        Self::new_at(call_id, slot_number, parker_extension, caller_id, callee_id, timeout_seconds, timeout_action, now_millis())
    }

    /// Whether the parking has timed out by `now`.
    pub fn is_timed_out_at(&self, now: i64) -> (r: bool)
        ensures
            r == (now >= self.timeout_at),
    {
        now >= self.timeout_at
    }

    /// Whether the parking has timed out, by the clock.
    pub fn is_timed_out(&self) -> bool {
        self.is_timed_out_at(now_millis())
    }

    /// Whole seconds left before the timeout at `now` (zero once timed out).
    pub fn remaining_seconds_at(&self, now: i64) -> (r: i64)
        ensures
            r == if now >= self.timeout_at {
                0
            } else {
                seconds_between(self.timeout_at, now)
            },
    {
        if now >= self.timeout_at {
            0
        } else {
            elapsed_seconds(self.timeout_at, now)
        }
    }

    /// Whole seconds left before the timeout, by the clock.
    pub fn remaining_seconds(&self) -> i64 {
        self.remaining_seconds_at(now_millis())
    }

    /// Whole seconds the call has been parked by `now`.
    pub fn parked_duration_at(&self, now: i64) -> (r: i64)
        ensures
            r == seconds_between(now, self.parked_at),
    {
        elapsed_seconds(now, self.parked_at)
    }

    /// Whole seconds the call has been parked, by the clock.
    pub fn parked_duration_seconds(&self) -> i64 {
        self.parked_duration_at(now_millis())
    }

    /// A copy of the parked call.
    pub fn duplicate(&self) -> (r: Self)
        ensures
            r == *self,
    {
        ParkedCall {
            id: self.id,
            call_id: self.call_id.clone(),
            slot_number: self.slot_number,
            parker_extension: self.parker_extension.clone(),
            caller_id: self.caller_id.clone(),
            callee_id: self.callee_id.clone(),
            parked_at: self.parked_at,
            timeout_at: self.timeout_at,
            timeout_action: self.timeout_action,
            timeout_attempted: self.timeout_attempted,
            retrieval_attempts: self.retrieval_attempts,
            announcement: match &self.announcement {
                Some(a) => Some(a.clone()),
                None => None,
            },
        }
    }
}

/// "Parking slot <n> is not available".
pub open spec fn msg_not_available(n: u32) -> Seq<char> {
    "Parking slot "@ + decimal(n as nat) + " is not available"@
}

/// "Parking slot <n> has no parked call".
pub open spec fn msg_no_parked_call(n: u32) -> Seq<char> {
    "Parking slot "@ + decimal(n as nat) + " has no parked call"@
}

/// "Parking slot <n> not found".
pub open spec fn msg_slot_not_found(n: u32) -> Seq<char> {
    "Parking slot "@ + decimal(n as nat) + " not found"@
}

/// "Preferred slot <n> is not available".
pub open spec fn msg_preferred_unavailable(n: u32) -> Seq<char> {
    "Preferred slot "@ + decimal(n as nat) + " is not available"@
}

/// "Slot <n> already exists in another lot".
pub open spec fn msg_slot_exists(n: u32) -> Seq<char> {
    "Slot "@ + decimal(n as nat) + " already exists in another lot"@
}

fn slot_message(before: &str, n: u32, after: &str) -> (r: String)
    ensures
        r@ == before@ + decimal(n as nat) + after@,
{
    join3(before, u64_to_string(n as u64).as_str(), after)
}

/// The retrieval count after one more retrieval (wrapping at the top).
pub open spec fn next_attempt(a: u32) -> u32 {
    if a < u32::MAX {
        (a + 1) as u32
    } else {
        0
    }
}

/// Call parking slot.
#[derive(Debug, Clone)]
pub struct ParkingSlot {
    /// Slot number (e.g., 700-799)
    pub number: u32,
    /// Slot state
    pub state: ParkingSlotState,
    /// Currently parked call (if occupied)
    pub parked_call: Option<ParkedCall>,
    /// Display name for the slot
    pub name: Option<String>,
    /// Whether the slot is enabled
    pub enabled: bool,
    /// Last used timestamp (milliseconds since the epoch)
    pub last_used: Option<i64>,
}

impl Keyed for ParkingSlot {
    type Key = u32;

    open spec fn key(&self) -> u32 {
        self.number
    }

    open spec fn inv(&self) -> bool {
        true
    }

    fn key_ref(&self) -> (r: &u32) {
        let r = &self.number;
        assert(r.kv() == *r);
        r
    }
}

/// The slot once `call` is parked in it at `now`.
pub open spec fn slot_after_park(s: ParkingSlot, call: ParkedCall, now: i64) -> ParkingSlot {
    ParkingSlot { state: ParkingSlotState::Occupied, parked_call: Some(call), last_used: Some(now), ..s }
}

/// The slot once its call is taken out.
pub open spec fn slot_after_retrieve(s: ParkingSlot) -> ParkingSlot {
    ParkingSlot { state: ParkingSlotState::Available, parked_call: None, ..s }
}

/// A parked call as handed back: one more retrieval counted.
pub open spec fn retrieved_call(c: ParkedCall) -> ParkedCall {
    ParkedCall { retrieval_attempts: next_attempt(c.retrieval_attempts), ..c }
}

/// Parking a call in a free slot and retrieving it gives the same call back,
/// with one more retrieval counted, and leaves the slot free and empty again,
/// marked as used at the parking time.
pub proof fn law_park_then_retrieve(s: ParkingSlot, call: ParkedCall, now: i64)
    requires
        s.can_park(),
    ensures
        slot_after_park(s, call, now).state == ParkingSlotState::Occupied,
        slot_after_park(s, call, now).parked_call == Some(call),
        slot_after_retrieve(slot_after_park(s, call, now)) == (ParkingSlot {
            parked_call: None,
            last_used: Some(now),
            ..s
        }),
        slot_after_retrieve(slot_after_park(s, call, now)).can_park(),
{
}

impl ParkingSlot {
    /// Whether a call can be parked here.
    pub open spec fn can_park(self) -> bool {
        self.enabled && self.state == ParkingSlotState::Available
    }

    /// An empty, enabled, never used slot.
    pub fn new(number: u32) -> (r: Self)
        ensures
            r == (ParkingSlot {
                number,
                state: ParkingSlotState::Available,
                parked_call: None,
                name: None,
                enabled: true,
                last_used: None,
            }),
    {
        ParkingSlot {
            number,
            state: ParkingSlotState::Available,
            parked_call: None,
            name: None,
            enabled: true,
            last_used: None,
        }
    }

    /// The slot with a display name.
    pub fn with_name(self, name: String) -> (r: Self)
        ensures
            r == (ParkingSlot { name: Some(name), ..self }),
    {
        ParkingSlot { name: Some(name), ..self }
    }

    /// The slot, disabled.
    pub fn disabled(self) -> (r: Self)
        ensures
            r == (ParkingSlot { enabled: false, ..self }),
    {
        ParkingSlot { enabled: false, ..self }
    }

    /// Parks a call here at `now`: refused when the slot is disabled or not available.
    pub fn park_at(&mut self, call: ParkedCall, now: i64) -> (r: Result<(), String>)
        ensures
            !old(self).enabled ==> r is Err && r->Err_0@ == "Parking slot is disabled"@ && *final(self) == *old(self),
            old(self).enabled && old(self).state != ParkingSlotState::Available ==> r is Err && r->Err_0@
                == msg_not_available(old(self).number) && *final(self) == *old(self),
            old(self).can_park() ==> r is Ok && *final(self) == slot_after_park(*old(self), call, now),
    {
        if !self.enabled {
            return Err(String::from_str("Parking slot is disabled"));
        }
        if self.state != ParkingSlotState::Available {
            return Err(slot_message("Parking slot ", self.number, " is not available"));
        }
        self.state = ParkingSlotState::Occupied;
        self.parked_call = Some(call);
        self.last_used = Some(now);
        Ok(())
    }

    /// Parks a call here now.
    pub fn park(&mut self, call: ParkedCall) -> (r: Result<(), String>)
        ensures
            r is Ok <==> old(self).can_park(),
            !old(self).enabled ==> r is Err && r->Err_0@ == "Parking slot is disabled"@,
            r is Ok ==> final(self).state == ParkingSlotState::Occupied && final(self).parked_call == Some(call),
            exists|now: i64| #[trigger] clock_reading(now) && {
                &&& (!old(self).enabled ==> r is Err && r->Err_0@ == "Parking slot is disabled"@ && *final(self) == *old(self))
                &&& (old(self).enabled && old(self).state != ParkingSlotState::Available ==> r is Err && r->Err_0@
                    == msg_not_available(old(self).number) && *final(self) == *old(self))
                &&& (old(self).can_park() ==> r is Ok && *final(self) == slot_after_park(*old(self), call, now))
            },
    {
        let now = now_millis();
        proof {
            assert(clock_reading(now));
        }
        self.park_at(call, now)
    }

    /// Takes the parked call out (counting the retrieval); the slot becomes available.
    pub fn retrieve(&mut self) -> (r: Result<ParkedCall, String>)
        ensures
            old(self).state != ParkingSlotState::Occupied ==> r is Err && r->Err_0@ == msg_no_parked_call(
                old(self).number,
            ) && *final(self) == *old(self),
            old(self).state == ParkingSlotState::Occupied && old(self).parked_call is None ==> r is Err
                && r->Err_0@ == "No call in slot"@ && *final(self) == *old(self),
            old(self).state == ParkingSlotState::Occupied && old(self).parked_call is Some ==> {
                &&& r == Ok::<ParkedCall, String>(retrieved_call(old(self).parked_call->0))
                &&& *final(self) == slot_after_retrieve(*old(self))
            },
    {
        if self.state != ParkingSlotState::Occupied {
            return Err(slot_message("Parking slot ", self.number, " has no parked call"));
        }
        match self.parked_call.take() {
            Some(mut call) => {
                call.retrieval_attempts = if call.retrieval_attempts < u32::MAX {
                    call.retrieval_attempts + 1
                } else {
                    0
                };
                self.state = ParkingSlotState::Available;
                Ok(call)
            },
            None => Err(String::from_str("No call in slot")),
        }
    }

    /// Empties the slot.
    pub fn clear(&mut self)
        ensures
            *final(self) == (ParkingSlot { state: ParkingSlotState::Available, parked_call: None, ..*old(self) }),
    {
        self.state = ParkingSlotState::Available;
        self.parked_call = None;
    }

    /// Whether the parked call has timed out by `now`.
    pub open spec fn timed_out_at(self, now: i64) -> bool {
        match self.parked_call {
            Some(c) => now >= c.timeout_at,
            None => false,
        }
    }

    /// Whether the parked call has timed out by `now`.
    pub fn check_timeout_at(&self, now: i64) -> (r: bool)
        ensures
            r == self.timed_out_at(now),
    {
        match &self.parked_call {
            Some(c) => c.is_timed_out_at(now),
            None => false,
        }
    }

    /// Whether the parked call has timed out, by the clock.
    pub fn check_timeout(&self) -> bool {
        self.check_timeout_at(now_millis())
    }

    /// A copy of the slot.
    pub fn duplicate(&self) -> (r: Self)
        ensures
            r == *self,
    {
        ParkingSlot {
            number: self.number,
            state: self.state,
            parked_call: match &self.parked_call {
                Some(c) => Some(c.duplicate()),
                None => None,
            },
            name: match &self.name {
                Some(n) => Some(n.clone()),
                None => None,
            },
            enabled: self.enabled,
            last_used: self.last_used,
        }
    }
}

/// Parking slot assignment strategy.
#[derive(Debug, Clone, Copy, PartialEq, Eq, Structural)]
pub enum SlotAssignmentStrategy {
    /// Assign slots sequentially (701, 702, 703...)
    Sequential,
    /// Assign slots in random order
    Random,
    /// Assign least recently used slot
    LeastRecentlyUsed,
    /// Assign first available slot
    FirstAvailable,
}

/// Parking lot configuration.
#[derive(Debug, Clone)]
pub struct ParkingLotConfig {
    /// Parking lot identifier
    pub id: u128,
    /// Parking lot name
    pub name: String,
    /// Start of parking slot range
    pub slot_start: u32,
    /// End of parking slot range
    pub slot_end: u32,
    /// Default timeout in seconds
    pub default_timeout_seconds: i64,
    /// Default timeout action
    pub default_timeout_action: TimeoutAction,
    /// Parking slot assignment strategy
    pub assignment_strategy: SlotAssignmentStrategy,
    /// Whether to play announcement with slot number
    pub play_announcement: bool,
    /// Custom announcement audio file
    pub announcement_file: Option<String>,
    /// Whether the lot is enabled
    pub enabled: bool,
}

impl Keyed for ParkingLotConfig {
    type Key = u128;

    open spec fn key(&self) -> u128 {
        self.id
    }

    open spec fn inv(&self) -> bool {
        true
    }

    fn key_ref(&self) -> (r: &u128) {
        let r = &self.id;
        assert(r.kv() == *r);
        r
    }
}

impl ParkingLotConfig {
    /// Whether slot `n` lies in the lot's range.
    pub open spec fn spec_contains(self, n: u32) -> bool {
        self.slot_start <= n <= self.slot_end
    }

    /// A lot over `slot_start..=slot_end`: five-minute timeout calling back the
    /// parker, sequential assignment, announcement on, enabled.
    pub fn new(name: String, slot_start: u32, slot_end: u32) -> (r: Self)
        ensures
            is_v4_uuid(r.id),
            r.name == name,
            r.slot_start == slot_start,
            r.slot_end == slot_end,
            r.default_timeout_seconds == 300,
            r.default_timeout_action == TimeoutAction::CallbackParker,
            r.assignment_strategy == SlotAssignmentStrategy::Sequential,
            r.play_announcement,
            r.announcement_file is None,
            r.enabled,
    {
        ParkingLotConfig {
            id: new_uuid(),
            name,
            slot_start,
            slot_end,
            default_timeout_seconds: 300,
            default_timeout_action: TimeoutAction::CallbackParker,
            assignment_strategy: SlotAssignmentStrategy::Sequential,
            play_announcement: true,
            announcement_file: None,
            enabled: true,
        }
    }

    /// The lot with another timeout and timeout action.
    pub fn with_timeout(self, seconds: i64, action: TimeoutAction) -> (r: Self)
        ensures
            r == (ParkingLotConfig { default_timeout_seconds: seconds, default_timeout_action: action, ..self }),
    {
        ParkingLotConfig { default_timeout_seconds: seconds, default_timeout_action: action, ..self }
    }

    /// The lot with another assignment strategy.
    pub fn with_strategy(self, strategy: SlotAssignmentStrategy) -> (r: Self)
        ensures
            r == (ParkingLotConfig { assignment_strategy: strategy, ..self }),
    {
        ParkingLotConfig { assignment_strategy: strategy, ..self }
    }

    /// Number of slots in the lot.
    pub fn slot_count(&self) -> (r: u32)
        requires
            self.slot_start <= self.slot_end,
            self.slot_end - self.slot_start < u32::MAX,
        ensures
            r == self.slot_end - self.slot_start + 1,
    {
        self.slot_end - self.slot_start + 1
    }

    /// Whether slot `slot_number` belongs to the lot.
    pub fn contains_slot(&self, slot_number: u32) -> (r: bool)
        ensures
            r == self.spec_contains(slot_number),
    {
        slot_number >= self.slot_start && slot_number <= self.slot_end
    }

    /// A copy of the configuration.
    pub fn duplicate(&self) -> (r: Self)
        ensures
            r == *self,
    {
        ParkingLotConfig {
            id: self.id,
            name: self.name.clone(),
            slot_start: self.slot_start,
            slot_end: self.slot_end,
            default_timeout_seconds: self.default_timeout_seconds,
            default_timeout_action: self.default_timeout_action,
            assignment_strategy: self.assignment_strategy,
            play_announcement: self.play_announcement,
            announcement_file: match &self.announcement_file {
                Some(f) => Some(f.clone()),
                None => None,
            },
            enabled: self.enabled,
        }
    }
}

/// Timeouts counted by action.
#[derive(Debug, Clone, Copy, PartialEq, Eq, Structural)]
pub struct TimeoutCounts {
    pub callback_parker: u64,
    pub callback_caller: u64,
    pub transfer_operator: u64,
    pub disconnect: u64,
    pub voicemail: u64,
}

impl TimeoutCounts {
    /// The count for an action.
    pub open spec fn spec_get(self, a: TimeoutAction) -> u64 {
        match a {
            TimeoutAction::CallbackParker => self.callback_parker,
            TimeoutAction::CallbackCaller => self.callback_caller,
            TimeoutAction::TransferOperator => self.transfer_operator,
            TimeoutAction::Disconnect => self.disconnect,
            TimeoutAction::Voicemail => self.voicemail,
        }
    }

    /// All counts zero.
    pub open spec fn zero() -> Self {
        TimeoutCounts { callback_parker: 0, callback_caller: 0, transfer_operator: 0, disconnect: 0, voicemail: 0 }
    }

    /// Sum of the counts.
    pub open spec fn total(self) -> int {
        self.callback_parker + self.callback_caller + self.transfer_operator + self.disconnect + self.voicemail
    }

    /// The count for an action.
    pub fn get(&self, a: TimeoutAction) -> (r: u64)
        ensures
            r == self.spec_get(a),
    {
        match a {
            TimeoutAction::CallbackParker => self.callback_parker,
            TimeoutAction::CallbackCaller => self.callback_caller,
            TimeoutAction::TransferOperator => self.transfer_operator,
            TimeoutAction::Disconnect => self.disconnect,
            TimeoutAction::Voicemail => self.voicemail,
        }
    }
}

/// Call parking statistics.
#[derive(Debug, Clone, Copy, PartialEq, Eq, Structural)]
pub struct ParkingStatistics {
    /// Total slots in system
    pub total_slots: usize,
    /// Currently occupied slots
    pub occupied_slots: usize,
    /// Available slots
    pub available_slots: usize,
    /// Total calls parked (lifetime)
    pub total_parked_calls: u64,
    /// Total calls retrieved successfully
    pub total_retrieved_calls: u64,
    /// Total timeout callbacks
    pub total_timeouts: u64,
    /// Average parking duration in seconds
    pub average_parking_duration: i64,
    /// Timeouts by timeout action
    pub timeouts_by_action: TimeoutCounts,
}

impl ParkingStatistics {
    /// All counts zero.
    pub fn new() -> (r: Self)
        ensures
            r == (ParkingStatistics {
                total_slots: 0,
                occupied_slots: 0,
                available_slots: 0,
                total_parked_calls: 0,
                total_retrieved_calls: 0,
                total_timeouts: 0,
                average_parking_duration: 0,
                timeouts_by_action: TimeoutCounts::zero(),
            }),
    {
        ParkingStatistics {
            total_slots: 0,
            occupied_slots: 0,
            available_slots: 0,
            total_parked_calls: 0,
            total_retrieved_calls: 0,
            total_timeouts: 0,
            average_parking_duration: 0,
            timeouts_by_action: TimeoutCounts {
                callback_parker: 0,
                callback_caller: 0,
                transfer_operator: 0,
                disconnect: 0,
                voicemail: 0,
            },
        }
    }
}

impl Default for ParkingStatistics {
    fn default() -> (r: Self)
        ensures
            r.total_slots == 0 && r.total_parked_calls == 0 && r.total_timeouts == 0,
    {
        Self::new()
    }
}

/// The slot a call is parked in.
struct CallSlot {
    call_id: String,
    slot: u32,
}

impl Keyed for CallSlot {
    type Key = str;

    closed spec fn key(&self) -> Seq<char> {
        self.call_id@
    }

    closed spec fn inv(&self) -> bool {
        true
    }

    fn key_ref(&self) -> (r: &str) {
        let r = self.call_id.as_str();
        assert(r.kv() == r@);
        r
    }
}

/// An empty, enabled, never used slot numbered `n`.
pub open spec fn empty_slot(n: u32) -> ParkingSlot {
    ParkingSlot {
        number: n,
        state: ParkingSlotState::Available,
        parked_call: None,
        name: None,
        enabled: true,
        last_used: None,
    }
}

/// How many parking durations are kept for the average.
pub const MAX_DURATIONS: usize = 1000;

/// The kept durations after recording `d`: the newest `MAX_DURATIONS`.
pub open spec fn record_duration(ds: Seq<i64>, d: i64) -> Seq<i64> {
    let s = ds.push(d);
    if s.len() > MAX_DURATIONS {
        s.drop_first()
    } else {
        s
    }
}

/// The key by which the least recently used slot is chosen: its last use,
/// or the earliest time for a slot never used.
pub open spec fn lru_key(s: ParkingSlot) -> i64 {
    match s.last_used {
        Some(t) => t,
        None => i64::MIN,
    }
}

/// The first enabled lot of a sequence.
pub open spec fn first_enabled(s: Seq<ParkingLotConfig>) -> Option<ParkingLotConfig>
    decreases s.len(),
{
    if s.len() == 0 {
        None
    } else if s[0].enabled {
        Some(s[0])
    } else {
        first_enabled(s.drop_first())
    }
}

/// The first lot of a sequence whose range holds slot `n`.
pub open spec fn first_containing(s: Seq<ParkingLotConfig>, n: u32) -> Option<ParkingLotConfig>
    decreases s.len(),
{
    if s.len() == 0 {
        None
    } else if s[0].spec_contains(n) {
        Some(s[0])
    } else {
        first_containing(s.drop_first(), n)
    }
}

/// The first enabled lot is one of the lots.
pub proof fn lemma_first_enabled_in(s: Seq<ParkingLotConfig>)
    requires
        first_enabled(s) is Some,
    ensures
        exists|k: int| 0 <= k < s.len() && s[k] == first_enabled(s)->0,
    decreases s.len(),
{
    if !s[0].enabled {
        lemma_first_enabled_in(s.drop_first());
        let k = choose|k: int| 0 <= k < s.drop_first().len() && s.drop_first()[k] == first_enabled(s.drop_first())->0;
        assert(s[k + 1] == first_enabled(s)->0);
    } else {
        assert(s[0] == first_enabled(s)->0);
    }
}

/// A slot in the range of some lot has a first lot holding it.
pub proof fn lemma_first_containing_found(s: Seq<ParkingLotConfig>, n: u32, k: int)
    requires
        0 <= k < s.len(),
        s[k].spec_contains(n),
    ensures
        first_containing(s, n) is Some,
    decreases s.len(),
{
    if !s[0].spec_contains(n) {
        lemma_first_containing_found(s.drop_first(), n, k - 1);
    }
}

/// The occupied slots of a sequence, in order.
pub open spec fn occupied(s: Seq<ParkingSlot>) -> Seq<ParkingSlot>
    decreases s.len(),
{
    if s.len() == 0 {
        Seq::empty()
    } else if s.last().state == ParkingSlotState::Occupied {
        occupied(s.drop_last()).push(s.last())
    } else {
        occupied(s.drop_last())
    }
}

/// Slots ordered by number.
#[verifier::opaque]
pub open spec fn slots_sorted(s: Seq<ParkingSlot>) -> bool {
    forall|i: int, j: int| 0 <= i < j < s.len() ==> (#[trigger] s[i]).number <= (#[trigger] s[j]).number
}

/// Two sequences holding the same entries, as many times each.
pub open spec fn same_entries(a: Seq<ParkingSlot>, b: Seq<ParkingSlot>) -> bool {
    a.to_multiset() == b.to_multiset()
}

/// Inserting a slot where every earlier number is no larger and the next one
/// is larger keeps the slots sorted.
proof fn lemma_insert_sorted(before: Seq<ParkingSlot>, x: ParkingSlot, pos: int)
    requires
        slots_sorted(before),
        0 <= pos <= before.len(),
        forall|k: int| 0 <= k < pos ==> (#[trigger] before[k]).number <= x.number,
        pos < before.len() ==> before[pos].number > x.number,
    ensures
        slots_sorted(before.insert(pos, x)),
{
    reveal(slots_sorted);
    let out = before.insert(pos, x);
    assert forall|i: int, j: int| 0 <= i < j < out.len() implies (#[trigger] out[i]).number <= (#[trigger] out[j]).number by {
        if i < pos && j < pos {
            assert(out[i] == before[i] && out[j] == before[j]);
        } else if i < pos && j == pos {
            assert(out[i] == before[i]);
        } else if i < pos && j > pos {
            assert(out[i] == before[i] && out[j] == before[j - 1]);
        } else if i == pos {
            assert(out[j] == before[j - 1]);
            assert(before[pos].number <= before[j - 1].number);
        } else {
            assert(out[i] == before[i - 1] && out[j] == before[j - 1]);
        }
    }
}

/// Inserting the same slot into both sides keeps the same entries.
proof fn lemma_insert_entries(before: Seq<ParkingSlot>, t: Seq<ParkingSlot>, x: ParkingSlot, pos: int)
    requires
        same_entries(before, t),
        0 <= pos <= before.len(),
    ensures
        same_entries(before.insert(pos, x), t.push(x)),
{
    vstd::seq_lib::to_multiset_insert(before, pos, x);
    vstd::seq_lib::to_multiset_build(t, x);
}

/// Sorts slots by number (insertion sort, stable).
pub fn sort_slots(v: Vec<ParkingSlot>) -> (r: Vec<ParkingSlot>)
    ensures
        slots_sorted(r@),
        same_entries(r@, v@),
{
    let ghost src = v@;
    assert(src.len() == v.len());
    let mut rest = v;
    let mut out: Vec<ParkingSlot> = Vec::new();
    let mut taken: usize = 0;
    proof {
        reveal(slots_sorted);
        assert(src.take(0) =~= Seq::<ParkingSlot>::empty());
        assert(out@ =~= Seq::<ParkingSlot>::empty());
    }
    while rest.len() > 0
        invariant
            taken + rest@.len() == src.len(),
            src.len() <= usize::MAX,
            rest@ == src.subrange(taken as int, src.len() as int),
            slots_sorted(out@),
            same_entries(out@, src.take(taken as int)),
        decreases rest.len(),
    {
        let x = rest.remove(0);
        assert(x == src[taken as int]);
        let mut pos: usize = 0;
        while pos < out.len() && out[pos].number <= x.number
            invariant
                pos <= out@.len(),
                forall|k: int| 0 <= k < pos ==> (#[trigger] out@[k]).number <= x.number,
            decreases out@.len() - pos,
        {
            pos = pos + 1;
        }
        let ghost before = out@;
        out.insert(pos, x);
        proof {
            lemma_insert_sorted(before, x, pos as int);
            assert(src.take(taken + 1) =~= src.take(taken as int).push(x));
            lemma_insert_entries(before, src.take(taken as int), x, pos as int);
        }
        taken = taken + 1;
        assert(rest@ =~= src.subrange(taken as int, src.len() as int));
    }
    assert(src.take(taken as int) =~= src);
    out
}

/// A slot after the timeout pass at `now`: a timed-out call is taken out; if
/// it had not been handled yet the slot becomes available.
pub open spec fn timeout_step(s: ParkingSlot, now: i64) -> ParkingSlot {
    if s.timed_out_at(now) {
        if !s.parked_call->0.timeout_attempted {
            ParkingSlot { state: ParkingSlotState::Available, parked_call: None, ..s }
        } else {
            ParkingSlot { parked_call: None, ..s }
        }
    } else {
        s
    }
}

/// The calls that the timeout pass at `now` hands out, with their slot numbers.
pub open spec fn fired_calls(s: Seq<ParkingSlot>, now: i64) -> Seq<(u32, ParkedCall)>
    decreases s.len(),
{
    if s.len() == 0 {
        Seq::empty()
    } else {
        let r = fired_calls(s.drop_last(), now);
        let l = s.last();
        if l.timed_out_at(now) && !l.parked_call->0.timeout_attempted {
            r.push((l.number, ParkedCall { timeout_attempted: true, ..l.parked_call->0 }))
        } else {
            r
        }
    }
}

/// Whether one of the handed-out calls has identifier `k`.
pub open spec fn calls_include(s: Seq<(u32, ParkedCall)>, k: Seq<char>) -> bool {
    exists|t: int| 0 <= t < s.len() && (#[trigger] s[t]).1.call_id@ == k
}

/// How many handed-out calls have timeout action `a`.
pub open spec fn count_action(s: Seq<(u32, ParkedCall)>, a: TimeoutAction) -> int
    decreases s.len(),
{
    if s.len() == 0 {
        0
    } else {
        count_action(s.drop_last(), a) + if s.last().1.timeout_action == a { 1int } else { 0 }
    }
}

proof fn lemma_calls_include_push(s: Seq<(u32, ParkedCall)>, x: (u32, ParkedCall), k: Seq<char>)
    ensures
        calls_include(s.push(x), k) == (calls_include(s, k) || x.1.call_id@ == k),
{
    if calls_include(s, k) {
        let t = choose|t: int| 0 <= t < s.len() && (#[trigger] s[t]).1.call_id@ == k;
        assert(s.push(x)[t] == s[t]);
    }
    if x.1.call_id@ == k {
        assert(s.push(x)[s.len() as int] == x);
    }
    if calls_include(s.push(x), k) {
        let t = choose|t: int| 0 <= t < s.push(x).len() && (#[trigger] s.push(x)[t]).1.call_id@ == k;
        if t < s.len() {
            assert(s[t] == s.push(x)[t]);
        }
    }
}

/// Call parking manager: parking lots, their numbered slots, and which slot
/// each parked call is in.
pub struct CallParkingManager {
    lots: Store<ParkingLotConfig>,
    slots: Store<ParkingSlot>,
    call_to_slot: Store<CallSlot>,
    total_parked: u64,
    total_retrieved: u64,
    total_timeouts: u64,
    timeouts_by_action: TimeoutCounts,
    parking_durations: Vec<i64>,
}

impl CallParkingManager {
    /// The lot with identifier `id`.
    pub closed spec fn spec_lot(&self, id: u128) -> Option<ParkingLotConfig> {
        self.lots.get_spec(id)
    }

    /// The lots, in creation order.
    pub closed spec fn spec_lots(&self) -> Seq<ParkingLotConfig> {
        self.lots.items()
    }

    /// The slot numbered `n`.
    pub closed spec fn spec_slot(&self, n: u32) -> Option<ParkingSlot> {
        self.slots.get_spec(n)
    }

    /// The slots, in creation order.
    pub closed spec fn spec_slots(&self) -> Seq<ParkingSlot> {
        self.slots.items()
    }

    /// The slot recorded for a parked call.
    pub closed spec fn spec_call_slot(&self, call_id: Seq<char>) -> Option<u32> {
        match self.call_to_slot.get_spec(call_id) {
            Some(e) => Some(e.slot),
            None => None,
        }
    }

    /// Calls parked so far.
    pub closed spec fn spec_total_parked(&self) -> u64 {
        self.total_parked
    }

    /// Calls retrieved so far.
    pub closed spec fn spec_total_retrieved(&self) -> u64 {
        self.total_retrieved
    }

    /// Timeouts handled so far.
    pub closed spec fn spec_total_timeouts(&self) -> u64 {
        self.total_timeouts
    }

    /// Timeouts handled so far, by action.
    pub closed spec fn spec_timeouts_by_action(&self) -> TimeoutCounts {
        self.timeouts_by_action
    }

    /// The kept parking durations, oldest first.
    pub closed spec fn spec_durations(&self) -> Seq<i64> {
        self.parking_durations@
    }

    /// One entry per key everywhere, at most `MAX_DURATIONS` kept durations,
    /// and timeouts by action adding up to the timeouts.
    pub closed spec fn wf(&self) -> bool {
        &&& self.lots.wf()
        &&& self.slots.wf()
        &&& self.call_to_slot.wf()
        &&& self.parking_durations@.len() <= MAX_DURATIONS
        &&& self.timeouts_by_action.total() == self.total_timeouts
    }

    /// The counters are as in `old`.
    pub open spec fn same_counts(&self, old: &Self) -> bool {
        &&& self.spec_total_parked() == old.spec_total_parked()
        &&& self.spec_total_retrieved() == old.spec_total_retrieved()
        &&& self.spec_total_timeouts() == old.spec_total_timeouts()
        &&& self.spec_timeouts_by_action() == old.spec_timeouts_by_action()
        &&& self.spec_durations() == old.spec_durations()
    }

    /// Nothing changed.
    pub open spec fn unchanged(&self, old: &Self) -> bool {
        &&& forall|id: u128| self.spec_lot(id) == old.spec_lot(id)
        &&& self.spec_lots() == old.spec_lots()
        &&& forall|n: u32| self.spec_slot(n) == old.spec_slot(n)
        &&& self.spec_slots() == old.spec_slots()
        &&& forall|c: Seq<char>| self.spec_call_slot(c) == old.spec_call_slot(c)
        &&& self.same_counts(old)
    }

    /// A manager without lots, slots or counts.
    pub fn new() -> (r: Self)
        ensures
            r.wf(),
            forall|id: u128| r.spec_lot(id) is None,
            r.spec_lots().len() == 0,
            forall|n: u32| r.spec_slot(n) is None,
            r.spec_slots().len() == 0,
            forall|c: Seq<char>| r.spec_call_slot(c) is None,
            r.spec_total_parked() == 0,
            r.spec_total_retrieved() == 0,
            r.spec_total_timeouts() == 0,
            r.spec_timeouts_by_action() == TimeoutCounts::zero(),
            r.spec_durations().len() == 0,
    {
        let r = CallParkingManager {
            lots: Store::new(),
            slots: Store::new(),
            call_to_slot: Store::new(),
            total_parked: 0,
            total_retrieved: 0,
            total_timeouts: 0,
            timeouts_by_action: TimeoutCounts {
                callback_parker: 0,
                callback_caller: 0,
                transfer_operator: 0,
                disconnect: 0,
                voicemail: 0,
            },
            parking_durations: Vec::new(),
        };
        proof {
            assert forall|id: u128| r.spec_lot(id) is None by {
                lemma_lookup_absent(r.lots.items(), id);
            }
            assert forall|n: u32| r.spec_slot(n) is None by {
                lemma_lookup_absent(r.slots.items(), n);
            }
            assert forall|c: Seq<char>| r.spec_call_slot(c) is None by {
                lemma_lookup_absent(r.call_to_slot.items(), c);
            }
        }
        r
    }

    /// Creates a lot and its slots, one per number of its range: refused when
    /// the range is empty or reversed, larger than 1000 slots, or overlaps an
    /// existing slot (the lowest such number is named).
    pub fn create_lot(&mut self, config: ParkingLotConfig) -> (r: Result<u128, String>)
        requires
            old(self).wf(),
            config.slot_start < config.slot_end ==> config.slot_end - config.slot_start < u32::MAX,
        ensures
            final(self).wf(),
            config.slot_start >= config.slot_end ==> r is Err && r->Err_0@
                == "Invalid slot range: start must be less than end"@,
            config.slot_start < config.slot_end && config.slot_end - config.slot_start + 1 > 1000 ==> r is Err
                && r->Err_0@ == "Slot range too large (max 1000 slots per lot)"@,
            config.slot_start < config.slot_end && config.slot_end - config.slot_start + 1 <= 1000 ==> match r {
                Err(e) => exists|n: u32| {
                    &&& config.spec_contains(n)
                    &&& old(self).spec_slot(n) is Some
                    &&& e@ == msg_slot_exists(n)
                    &&& forall|m: u32| config.slot_start <= m < n ==> old(self).spec_slot(m) is None
                },
                Ok(id) => {
                    &&& id == config.id
                    &&& forall|n: u32| config.spec_contains(n) ==> old(self).spec_slot(n) is None
                    &&& final(self).spec_lot(id) == Some(config)
                    &&& forall|i: u128| i != id ==> final(self).spec_lot(i) == old(self).spec_lot(i)
                    &&& forall|n: u32| #[trigger] final(self).spec_slot(n) == if config.spec_contains(n) {
                        Some(empty_slot(n))
                    } else {
                        old(self).spec_slot(n)
                    }
                    &&& forall|c: Seq<char>| final(self).spec_call_slot(c) == old(self).spec_call_slot(c)
                    &&& final(self).same_counts(old(self))
                },
            },
            r is Err ==> final(self).unchanged(old(self)),
    {
        if config.slot_start >= config.slot_end {
            return Err(String::from_str("Invalid slot range: start must be less than end"));
        }
        if config.slot_count() > 1000 {
            return Err(String::from_str("Slot range too large (max 1000 slots per lot)"));
        }
        let start = config.slot_start;
        let end = config.slot_end;
        let mut n: u64 = start as u64;
        while n <= end as u64
            invariant
                start == config.slot_start,
                end == config.slot_end,
                *self == *old(self),
                start <= n,
                start < end,
                end - start < 1000,
                n <= end + 1,
                self.wf(),
                forall|m: u32| start <= m < n ==> self.slots.get_spec(m) is None,
            decreases end + 1 - n,
        {
            let m = n as u32;
            if self.slots.get(&m).is_some() {
                let e = slot_message("Slot ", m, " already exists in another lot");
                proof {
                    assert(config.spec_contains(m));
                    assert(old(self).spec_slot(m) is Some);
                    assert(forall|m2: u32| config.slot_start <= m2 < m ==> old(self).spec_slot(m2) is None);
                    assert(e@ == msg_slot_exists(m));
                }
                return Err(e);
            }
            n = n + 1;
        }
        let ghost before = *self;
        let mut k: u64 = start as u64;
        while k <= end as u64
            invariant
                start == config.slot_start,
                end == config.slot_end,
                start <= k,
                start < end,
                end - start < 1000,
                k <= end + 1,
                self.slots.wf(),
                forall|m: u32| k <= m <= end ==> #[trigger] self.slots.get_spec(m) is None,
                forall|m: u32| #[trigger] self.slots.get_spec(m) == if start <= m < k {
                    Some(empty_slot(m))
                } else {
                    before.slots.get_spec(m)
                },
                self.lots == before.lots,
                self.call_to_slot == before.call_to_slot,
                self.total_parked == before.total_parked,
                self.total_retrieved == before.total_retrieved,
                self.total_timeouts == before.total_timeouts,
                self.timeouts_by_action == before.timeouts_by_action,
                self.parking_durations == before.parking_durations,
            decreases end + 1 - k,
        {
            let kk = k as u32;
            let s = ParkingSlot::new(kk);
            proof {
                assert(s.key() == kk);
                assert(self.slots.get_spec(kk) is None);
                if has_key(self.slots.items(), kk) {
                    let j = choose|j: int| 0 <= j < self.slots.items().len() && (#[trigger] self.slots.items()[j]).key() == kk;
                    lemma_lookup_at(self.slots.items(), j);
                }
            }
            self.slots.push_new(s);
            k = k + 1;
        }
        let id = config.id;
        self.lots.insert(config);
        Ok(id)
    }

    /// Deletes a lot and the slots of its range.
    pub fn delete_lot(&mut self, lot_id: u128) -> (r: Result<(), String>)
        requires
            old(self).wf(),
        ensures
            final(self).wf(),
            match old(self).spec_lot(lot_id) {
                None => r is Err && r->Err_0@ == "Parking lot not found"@ && final(self).unchanged(old(self)),
                Some(lot) => {
                    &&& r is Ok
                    &&& final(self).spec_lot(lot_id) is None
                    &&& forall|i: u128| i != lot_id ==> final(self).spec_lot(i) == old(self).spec_lot(i)
                    &&& forall|n: u32| #[trigger] final(self).spec_slot(n) == if lot.spec_contains(n) {
                        None
                    } else {
                        old(self).spec_slot(n)
                    }
                    &&& forall|c: Seq<char>| final(self).spec_call_slot(c) == old(self).spec_call_slot(c)
                    &&& final(self).same_counts(old(self))
                },
            },
    {
        let config = match self.lots.remove(&lot_id) {
            Some(c) => c,
            None => {
                return Err(String::from_str("Parking lot not found"));
            },
        };
        let ghost before = *self;
        let start = config.slot_start;
        let end = config.slot_end;
        if start > end {
            proof {
                assert forall|n: u32| #[trigger] self.spec_slot(n) == if config.spec_contains(n) {
                    None
                } else {
                    old(self).spec_slot(n)
                } by {}
            }
            return Ok(());
        }
        let mut k = start;
        loop
            invariant_except_break
                start <= k <= end,
                forall|m: u32| #[trigger] self.slots.get_spec(m) == if start <= m < k {
                    None
                } else {
                    before.slots.get_spec(m)
                },
            invariant
                self.slots.wf(),
                self.lots == before.lots,
                self.call_to_slot == before.call_to_slot,
                self.total_parked == before.total_parked,
                self.total_retrieved == before.total_retrieved,
                self.total_timeouts == before.total_timeouts,
                self.timeouts_by_action == before.timeouts_by_action,
                self.parking_durations == before.parking_durations,
            ensures
                self.slots.wf(),
                forall|m: u32| #[trigger] self.slots.get_spec(m) == if start <= m <= end {
                    None
                } else {
                    before.slots.get_spec(m)
                },
                self.lots == before.lots,
                self.call_to_slot == before.call_to_slot,
                self.total_parked == before.total_parked,
                self.total_retrieved == before.total_retrieved,
                self.total_timeouts == before.total_timeouts,
                self.timeouts_by_action == before.timeouts_by_action,
                self.parking_durations == before.parking_durations,
            decreases end - k,
        {
            self.slots.remove(&k);
            if k == end {
                break;
            }
            k = k + 1;
        }
        Ok(())
    }

    /// A copy of the lot with identifier `lot_id`.
    pub fn get_lot(&self, lot_id: u128) -> (r: Option<ParkingLotConfig>)
        requires
            self.wf(),
        ensures
            r == self.spec_lot(lot_id),
    {
        match self.lots.get(&lot_id) {
            Some(l) => Some(l.duplicate()),
            None => None,
        }
    }

    /// Copies of the lots, in creation order.
    pub fn list_lots(&self) -> (r: Vec<ParkingLotConfig>)
        ensures
            r@ == self.spec_lots(),
    {
        let mut out: Vec<ParkingLotConfig> = Vec::new();
        let mut i: usize = 0;
        while i < self.lots.len()
            invariant
                i <= self.lots.items().len(),
                out@ == self.lots.items().take(i as int),
            decreases self.lots.items().len() - i,
        {
            out.push(self.lots.at(i).duplicate());
            assert(self.lots.items().take(i as int).push(self.lots.items()[i as int]) =~= self.lots.items().take(i + 1));
            i = i + 1;
        }
        assert(self.lots.items().take(i as int) =~= self.lots.items());
        out
    }

    /// The slot a parked call is in.
    pub fn find_slot_by_call_id(&self, call_id: &str) -> (r: Option<u32>)
        requires
            self.wf(),
        ensures
            r == self.spec_call_slot(call_id@),
    {
        match self.call_to_slot.get(call_id) {
            Some(e) => Some(e.slot),
            None => None,
        }
    }

    /// A copy of slot `slot_number`.
    pub fn get_slot(&self, slot_number: u32) -> (r: Option<ParkingSlot>)
        requires
            self.wf(),
        ensures
            r == self.spec_slot(slot_number),
    {
        match self.slots.get(&slot_number) {
            Some(s) => Some(s.duplicate()),
            None => None,
        }
    }
    /// Whether slot `n` can take a call and belongs to `lot`.
    pub open spec fn eligible(&self, lot: ParkingLotConfig, n: u32) -> bool {
        match self.spec_slot(n) {
            Some(s) => s.can_park() && lot.spec_contains(n),
            None => false,
        }
    }

    /// Whether slot `n` exists and can take a call.
    pub open spec fn slot_free(&self, n: u32) -> bool {
        match self.spec_slot(n) {
            Some(s) => s.can_park(),
            None => false,
        }
    }

    /// Whether some slot of `lot` can take a call.
    pub open spec fn has_eligible(&self, lot: ParkingLotConfig) -> bool {
        exists|m: u32| #[trigger] self.eligible(lot, m)
    }

    /// The first enabled lot, in creation order.
    pub open spec fn first_enabled_lot(&self) -> Option<ParkingLotConfig> {
        first_enabled(self.spec_lots())
    }

    /// The slot choices that the assignment strategy of `lot` allows.
    pub open spec fn strategy_allows(&self, lot: ParkingLotConfig, n: u32) -> bool {
        &&& self.eligible(lot, n)
        &&& match lot.assignment_strategy {
            SlotAssignmentStrategy::Sequential | SlotAssignmentStrategy::FirstAvailable => forall|m: u32|
                #[trigger] self.eligible(lot, m) ==> n <= m,
            SlotAssignmentStrategy::LeastRecentlyUsed => forall|m: u32| #[trigger]
                self.eligible(lot, m) ==> lru_key(self.spec_slot(n)->0) <= lru_key(self.spec_slot(m)->0),
            SlotAssignmentStrategy::Random => true,
        }
    }

    /// Position of the first enabled lot.
    fn first_enabled_index(&self) -> (r: Option<usize>)
        ensures
            match r {
                Some(i) => i < self.spec_lots().len() && first_enabled(self.spec_lots()) == Some(self.spec_lots()[i as int]),
                None => first_enabled(self.spec_lots()) is None,
            },
    {
        let ghost s = self.lots.items();
        let mut i: usize = 0;
        assert(s.subrange(0, s.len() as int) =~= s);
        while i < self.lots.len()
            invariant
                s == self.lots.items(),
                i <= s.len(),
                first_enabled(s) == first_enabled(s.subrange(i as int, s.len() as int)),
            decreases s.len() - i,
        {
            assert(s.subrange(i as int, s.len() as int).drop_first() =~= s.subrange(i + 1, s.len() as int));
            if self.lots.at(i).enabled {
                return Some(i);
            }
            i = i + 1;
        }
        assert(s.subrange(i as int, s.len() as int) =~= Seq::<ParkingLotConfig>::empty());
        None
    }

    /// Slot `n` is eligible exactly when some slot entry numbered `n` can take
    /// a call and lies in the lot.
    proof fn lemma_eligible_entry(&self, lot: ParkingLotConfig, j: int)
        requires
            self.wf(),
            0 <= j < self.spec_slots().len(),
        ensures
            self.spec_slot(self.spec_slots()[j].number) == Some(self.spec_slots()[j]),
            self.eligible(lot, self.spec_slots()[j].number) == (self.spec_slots()[j].can_park()
                && lot.spec_contains(self.spec_slots()[j].number)),
    {
        lemma_lookup_at(self.slots.items(), j);
    }

    /// An eligible number has a slot entry.
    proof fn lemma_eligible_has_entry(&self, lot: ParkingLotConfig, n: u32) -> (j: int)
        requires
            self.wf(),
            self.eligible(lot, n),
        ensures
            0 <= j < self.spec_slots().len(),
            self.spec_slots()[j].number == n,
            self.spec_slot(n) == Some(self.spec_slots()[j]),
            self.spec_slots()[j].can_park(),
            lot.spec_contains(n),
    {
        let s = self.slots.items();
        assert(has_key(s, n));
        let j = choose|j: int| 0 <= j < s.len() && (#[trigger] s[j]).key() == n;
        lemma_lookup_at(s, j);
        j
    }

    /// Chooses a slot to park in, by the strategy of the first enabled lot.
    fn find_available_slot(&self) -> (r: Result<u32, String>)
        requires
            self.wf(),
        ensures
            match self.first_enabled_lot() {
                None => r is Err && r->Err_0@ == "No enabled parking lots available"@,
                Some(lot) => if self.has_eligible(lot) {
                    r matches Ok(n) && self.strategy_allows(lot, n)
                } else {
                    r is Err && r->Err_0@ == "No available parking slots"@
                },
            },
    {
        let li = match self.first_enabled_index() {
            Some(i) => i,
            None => {
                return Err(String::from_str("No enabled parking lots available"));
            },
        };
        let lot = self.lots.at(li);
        let ghost s = self.slots.items();
        let mut cand: Vec<usize> = Vec::new();
        let mut i: usize = 0;
        while i < self.slots.len()
            invariant
                s == self.slots.items(),
                i <= s.len(),
                forall|t: int| 0 <= t < cand@.len() ==> (#[trigger] cand@[t]) < i && s[cand@[t] as int].can_park()
                    && lot.spec_contains(s[cand@[t] as int].number),
                forall|j: int| 0 <= j < i && s[j].can_park() && lot.spec_contains(#[trigger] s[j].number) ==> exists|t: int|
                    0 <= t < cand@.len() && cand@[t] == j,
            decreases s.len() - i,
        {
            let sl = self.slots.at(i);
            let ghost c0 = cand@;
            if sl.enabled && sl.state == ParkingSlotState::Available && lot.contains_slot(sl.number) {
                cand.push(i);
                assert(cand@[cand@.len() - 1] == i);
            }
            proof {
                assert forall|j: int| 0 <= j < i + 1 && s[j].can_park() && lot.spec_contains(#[trigger] s[j].number)
                    implies exists|t: int| 0 <= t < cand@.len() && cand@[t] == j by {
                    if j < i {
                        let t = choose|t: int| 0 <= t < c0.len() && c0[t] == j;
                        assert(cand@[t] == j);
                    } else {
                        assert(cand@[cand@.len() - 1] == j);
                    }
                }
            }
            i = i + 1;
        }
        proof {
            assert forall|n: u32| #[trigger] self.eligible(*lot, n) implies exists|t: int| 0 <= t < cand@.len() && s[cand@[t] as int].number == n by {
                let j = self.lemma_eligible_has_entry(*lot, n);
                assert(s[j].can_park() && lot.spec_contains(s[j].number));
                let t = choose|t: int| 0 <= t < cand@.len() && cand@[t] == j;
                assert(s[cand@[t] as int].number == n);
            }
            assert forall|t: int| 0 <= t < cand@.len() implies self.eligible(*lot, #[trigger] s[cand@[t] as int].number) by {
                self.lemma_eligible_entry(*lot, cand@[t] as int);
            }
        }
        if cand.len() == 0 {
            return Err(String::from_str("No available parking slots"));
        }
        let pick: usize = match lot.assignment_strategy {
            SlotAssignmentStrategy::Sequential | SlotAssignmentStrategy::FirstAvailable => {
                let mut best: usize = 0;
                let mut t: usize = 1;
                while t < cand.len()
                    invariant
                        s == self.slots.items(),
                        0 < cand@.len(),
                        best < cand@.len(),
                        t <= cand@.len(),
                        forall|u: int| 0 <= u < cand@.len() ==> (#[trigger] cand@[u]) < s.len(),
                        forall|u: int| 0 <= u < t ==> s[cand@[best as int] as int].number <= s[#[trigger] cand@[u] as int].number,
                    decreases cand@.len() - t,
                {
                    if self.slots.at(cand[t]).number < self.slots.at(cand[best]).number {
                        best = t;
                    }
                    t = t + 1;
                }
                best
            },
            SlotAssignmentStrategy::LeastRecentlyUsed => {
                let mut best: usize = 0;
                let mut t: usize = 1;
                while t < cand.len()
                    invariant
                        s == self.slots.items(),
                        0 < cand@.len(),
                        best < cand@.len(),
                        t <= cand@.len(),
                        forall|u: int| 0 <= u < cand@.len() ==> (#[trigger] cand@[u]) < s.len(),
                        forall|u: int| 0 <= u < t ==> lru_key(s[cand@[best as int] as int]) <= lru_key(s[#[trigger] cand@[u] as int]),
                    decreases cand@.len() - t,
                {
                    let kt = match self.slots.at(cand[t]).last_used {
                        Some(x) => x,
                        None => i64::MIN,
                    };
                    let kb = match self.slots.at(cand[best]).last_used {
                        Some(x) => x,
                        None => i64::MIN,
                    };
                    if kt < kb {
                        best = t;
                    }
                    t = t + 1;
                }
                best
            },
            SlotAssignmentStrategy::Random => random_index(cand.len()),
        };
        let n = self.slots.at(cand[pick]).number;
        proof {
            let j = cand@[pick as int] as int;
            self.lemma_eligible_entry(*lot, j);
            assert forall|m: u32| #[trigger] self.eligible(*lot, m) implies (match lot.assignment_strategy {
                SlotAssignmentStrategy::Sequential | SlotAssignmentStrategy::FirstAvailable => n <= m,
                SlotAssignmentStrategy::LeastRecentlyUsed => lru_key(self.spec_slot(n)->0) <= lru_key(self.spec_slot(m)->0),
                SlotAssignmentStrategy::Random => true,
            }) by {
                let jm = self.lemma_eligible_has_entry(*lot, m);
                let t = choose|t: int| 0 <= t < cand@.len() && s[cand@[t] as int].number == m;
                self.lemma_eligible_entry(*lot, cand@[t] as int);
                assert(s[cand@[t] as int].number == m);
            }
        }
        Ok(n)
    }
    /// The lot whose range holds slot `n` (the first one, in creation order).
    pub open spec fn lot_for(&self, n: u32) -> Option<ParkingLotConfig> {
        first_containing(self.spec_lots(), n)
    }

    /// Position of the first lot holding slot `n`.
    fn lot_index_for(&self, n: u32) -> (r: Option<usize>)
        ensures
            match r {
                Some(i) => i < self.spec_lots().len() && first_containing(self.spec_lots(), n) == Some(
                    self.spec_lots()[i as int],
                ),
                None => first_containing(self.spec_lots(), n) is None,
            },
    {
        let ghost s = self.lots.items();
        let mut i: usize = 0;
        assert(s.subrange(0, s.len() as int) =~= s);
        while i < self.lots.len()
            invariant
                s == self.lots.items(),
                i <= s.len(),
                first_containing(s, n) == first_containing(s.subrange(i as int, s.len() as int), n),
            decreases s.len() - i,
        {
            assert(s.subrange(i as int, s.len() as int).drop_first() =~= s.subrange(i + 1, s.len() as int));
            if self.lots.at(i).contains_slot(n) {
                return Some(i);
            }
            i = i + 1;
        }
        assert(s.subrange(i as int, s.len() as int) =~= Seq::<ParkingLotConfig>::empty());
        None
    }

    /// The call parked by `park_call_at` in slot `n` of `lot`.
    pub open spec fn parked_in(
        &self,
        old: &Self,
        n: u32,
        lot: ParkingLotConfig,
        call_id: Seq<char>,
        parker: Seq<char>,
        caller: Seq<char>,
        callee: Seq<char>,
        now: i64,
    ) -> bool {
        &&& old.spec_slot(n) matches Some(s0) && s0.can_park() && exists|c: ParkedCall| {
            &&& c.parked(call_id, n, parker, caller, callee, lot.default_timeout_seconds, lot.default_timeout_action, now)
            &&& self.spec_slot(n) == Some(
                ParkingSlot { state: ParkingSlotState::Occupied, parked_call: Some(c), last_used: Some(now), ..s0 },
            )
        }
        &&& forall|m: u32| m != n ==> self.spec_slot(m) == old.spec_slot(m)
        &&& self.spec_call_slot(call_id) == Some(n)
        &&& forall|c: Seq<char>| c != call_id ==> self.spec_call_slot(c) == old.spec_call_slot(c)
        &&& forall|id: u128| self.spec_lot(id) == old.spec_lot(id)
        &&& self.spec_lots() == old.spec_lots()
        &&& self.spec_total_parked() == old.spec_total_parked() + 1
        &&& self.spec_total_retrieved() == old.spec_total_retrieved()
        &&& self.spec_total_timeouts() == old.spec_total_timeouts()
        &&& self.spec_timeouts_by_action() == old.spec_timeouts_by_action()
        &&& self.spec_durations() == old.spec_durations()
    }

    /// Parks a call at `now` (milliseconds) in the preferred slot, or in the
    /// slot that the first enabled lot's strategy chooses; the timeout comes
    /// from the lot that holds the slot. Gives back the slot number.
    pub fn park_call_at(
        &mut self,
        call_id: String,
        parker_extension: String,
        caller_id: String,
        callee_id: String,
        preferred_slot: Option<u32>,
        now: i64,
    ) -> (r: Result<u32, String>)
        requires
            old(self).wf(),
            old(self).spec_total_parked() < u64::MAX,
        ensures
            final(self).wf(),
            match r {
                Ok(n) => {
                    &&& match preferred_slot {
                        Some(p) => n == p,
                        None => match old(self).first_enabled_lot() {
                            Some(l) => old(self).strategy_allows(l, n),
                            None => false,
                        },
                    }
                    &&& match old(self).lot_for(n) {
                        Some(lot) => final(self).parked_in(
                            old(self),
                            n,
                            lot,
                            call_id@,
                            parker_extension@,
                            caller_id@,
                            callee_id@,
                            now,
                        ),
                        None => false,
                    }
                },
                Err(_) => final(self).unchanged(old(self)),
            },
            match preferred_slot {
                Some(p) => if !old(self).slot_free(p) {
                    r is Err && r->Err_0@ == msg_preferred_unavailable(p)
                } else if old(self).lot_for(p) is None {
                    r is Err && r->Err_0@ == "Slot does not belong to any parking lot"@
                } else {
                    r == Ok::<u32, String>(p)
                },
                None => match old(self).first_enabled_lot() {
                    None => r is Err && r->Err_0@ == "No enabled parking lots available"@,
                    Some(l) => if !old(self).has_eligible(l) {
                        r is Err && r->Err_0@ == "No available parking slots"@
                    } else {
                        r is Ok
                    },
                },
            },
    {
        let n = match preferred_slot {
            Some(p) => {
                let ok = match self.slots.get(&p) {
                    Some(s) => s.enabled && s.state == ParkingSlotState::Available,
                    None => false,
                };
                if !ok {
                    return Err(slot_message("Preferred slot ", p, " is not available"));
                }
                p
            },
            None => match self.find_available_slot() {
                Ok(n) => n,
                Err(e) => {
                    return Err(e);
                },
            },
        };
        proof {
            if preferred_slot is None {
                let l = self.first_enabled_lot()->0;
                lemma_first_enabled_in(self.spec_lots());
                let k = choose|k: int| 0 <= k < self.spec_lots().len() && self.spec_lots()[k] == l;
                lemma_first_containing_found(self.spec_lots(), n, k);
            }
        }
        let li = match self.lot_index_for(n) {
            Some(i) => i,
            None => {
                return Err(String::from_str("Slot does not belong to any parking lot"));
            },
        };
        let timeout_seconds = self.lots.at(li).default_timeout_seconds;
        let timeout_action = self.lots.at(li).default_timeout_action;
        let ghost cid = call_id@;
        let key = call_id.clone();
        let call = ParkedCall::new_at(
            call_id,
            n,
            parker_extension,
            caller_id,
            callee_id,
            timeout_seconds,
            timeout_action,
            now,
        );
        let ghost c = call;
        let pos = match self.slots.find(&n) {
            Some(i) => i,
            None => {
                return Err(String::from_str("Parking slot not found"));
            },
        };
        let mut slot = self.slots.take_at(pos);
        let ghost s0 = slot;
        let parked = slot.park_at(call, now);
        self.slots.put_at(pos, slot);
        assert(parked is Ok);
        let e = CallSlot { call_id: key, slot: n };
        assert(e.key() == cid);
        self.call_to_slot.insert(e);
        self.total_parked = self.total_parked + 1;
        proof {
            assert(self.spec_slot(n) == Some(
                ParkingSlot { state: ParkingSlotState::Occupied, parked_call: Some(c), last_used: Some(now), ..s0 },
            ));
        }
        Ok(n)
    }

    /// Parks a call now.
    pub fn park_call(
        &mut self,
        call_id: String,
        parker_extension: String,
        caller_id: String,
        callee_id: String,
        preferred_slot: Option<u32>,
    ) -> (r: Result<u32, String>)
        requires
            old(self).wf(),
            old(self).spec_total_parked() < u64::MAX,
        ensures
            final(self).wf(),
            r matches Ok(n) ==> final(self).spec_call_slot(call_id@) == Some(n),
            r is Err ==> final(self).unchanged(old(self)),
            r matches Ok(n) ==> {
                &&& match preferred_slot {
                    Some(p) => n == p,
                    None => match old(self).first_enabled_lot() {
                        Some(l) => old(self).strategy_allows(l, n),
                        None => false,
                    },
                }
                &&& match old(self).lot_for(n) {
                    Some(lot) => exists|now: i64| #[trigger] final(self).parked_in(
                        old(self),
                        n,
                        lot,
                        call_id@,
                        parker_extension@,
                        caller_id@,
                        callee_id@,
                        now,
                    ),
                    None => false,
                }
            },
            match preferred_slot {
                Some(p) => if !old(self).slot_free(p) {
                    r is Err && r->Err_0@ == msg_preferred_unavailable(p)
                } else if old(self).lot_for(p) is None {
                    r is Err && r->Err_0@ == "Slot does not belong to any parking lot"@
                } else {
                    r == Ok::<u32, String>(p)
                },
                None => match old(self).first_enabled_lot() {
                    None => r is Err && r->Err_0@ == "No enabled parking lots available"@,
                    Some(l) => if !old(self).has_eligible(l) {
                        r is Err && r->Err_0@ == "No available parking slots"@
                    } else {
                        r is Ok
                    },
                },
            },
    {
        let ghost (cid, pext, cer, cee) = (call_id@, parker_extension@, caller_id@, callee_id@);
        let now = now_millis();
        let r = self.park_call_at(call_id, parker_extension, caller_id, callee_id, preferred_slot, now);
        proof {
            if let Ok(n) = r {
                if let Some(lot) = old(self).lot_for(n) {
                    assert(self.parked_in(old(self), n, lot, cid, pext, cer, cee, now));
                }
            }
        }
        r
    }
    /// Takes a parked call out of slot `slot_number` at `now` (milliseconds):
    /// the slot becomes available, the call's slot record goes, and how long
    /// it was parked is recorded.
    pub fn retrieve_call_at(&mut self, slot_number: u32, now: i64) -> (r: Result<ParkedCall, String>)
        requires
            old(self).wf(),
            old(self).spec_total_retrieved() < u64::MAX,
        ensures
            final(self).wf(),
            match old(self).spec_slot(slot_number) {
                None => r is Err && r->Err_0@ == msg_slot_not_found(slot_number) && final(self).unchanged(old(self)),
                Some(s) => if s.state != ParkingSlotState::Occupied {
                    r is Err && r->Err_0@ == msg_no_parked_call(slot_number) && final(self).unchanged(old(self))
                } else {
                    match s.parked_call {
                        None => r is Err && r->Err_0@ == "No call in slot"@ && final(self).unchanged(old(self)),
                        Some(c) => {
                            &&& r is Ok
                            &&& r == Ok::<ParkedCall, String>(
                                ParkedCall { retrieval_attempts: next_attempt(c.retrieval_attempts), ..c },
                            )
                            &&& final(self).spec_slot(slot_number) == Some(
                                ParkingSlot { state: ParkingSlotState::Available, parked_call: None, ..s },
                            )
                            &&& forall|m: u32| m != slot_number ==> final(self).spec_slot(m) == old(self).spec_slot(m)
                            &&& final(self).spec_call_slot(c.call_id@) is None
                            &&& forall|k: Seq<char>| k != c.call_id@ ==> final(self).spec_call_slot(k)
                                == old(self).spec_call_slot(k)
                            &&& forall|id: u128| final(self).spec_lot(id) == old(self).spec_lot(id)
                            &&& final(self).spec_lots() == old(self).spec_lots()
                            &&& final(self).spec_total_parked() == old(self).spec_total_parked()
                            &&& final(self).spec_total_retrieved() == old(self).spec_total_retrieved() + 1
                            &&& final(self).spec_total_timeouts() == old(self).spec_total_timeouts()
                            &&& final(self).spec_timeouts_by_action() == old(self).spec_timeouts_by_action()
                            &&& final(self).spec_durations() == record_duration(
                                old(self).spec_durations(),
                                seconds_between(now, c.parked_at) as i64,
                            )
                        },
                    }
                },
            },
    {
        let pos = match self.slots.find(&slot_number) {
            Some(i) => i,
            None => {
                return Err(slot_message("Parking slot ", slot_number, " not found"));
            },
        };
        let ghost items0 = self.slots.items();
        let mut slot = self.slots.take_at(pos);
        let result = slot.retrieve();
        self.slots.put_at(pos, slot);
        match result {
            Err(e) => {
                assert(self.slots.items() =~= items0);
                Err(e)
            },
            Ok(call) => {
                self.call_to_slot.remove(call.call_id.as_str());
                self.total_retrieved = self.total_retrieved + 1;
                let d = call.parked_duration_at(now);
                self.parking_durations.push(d);
                if self.parking_durations.len() > MAX_DURATIONS {
                    let ghost before = self.parking_durations@;
                    self.parking_durations.remove(0);
                    assert(self.parking_durations@ =~= before.drop_first());
                }
                Ok(call)
            },
        }
    }

    /// Takes a parked call out of a slot now.
    pub fn retrieve_call(&mut self, slot_number: u32) -> (r: Result<ParkedCall, String>)
        requires
            old(self).wf(),
            old(self).spec_total_retrieved() < u64::MAX,
        ensures
            final(self).wf(),
            r is Ok <==> (old(self).spec_slot(slot_number) matches Some(s) && s.state == ParkingSlotState::Occupied
                && s.parked_call is Some),
            r is Err ==> final(self).unchanged(old(self)),
            r is Ok ==> (final(self).spec_slot(slot_number) matches Some(s) && s.state == ParkingSlotState::Available),
            exists|now: i64| #[trigger] clock_reading(now) && {
                &&& (match old(self).spec_slot(slot_number) {
                    None => r is Err && r->Err_0@ == msg_slot_not_found(slot_number) && final(self).unchanged(old(self)),
                    Some(s) => if s.state != ParkingSlotState::Occupied {
                        r is Err && r->Err_0@ == msg_no_parked_call(slot_number) && final(self).unchanged(old(self))
                    } else {
                        match s.parked_call {
                            None => r is Err && r->Err_0@ == "No call in slot"@ && final(self).unchanged(old(self)),
                            Some(c) => {
                                &&& r is Ok
                                &&& r == Ok::<ParkedCall, String>(
                                    ParkedCall { retrieval_attempts: next_attempt(c.retrieval_attempts), ..c },
                                )
                                &&& final(self).spec_slot(slot_number) == Some(
                                    ParkingSlot { state: ParkingSlotState::Available, parked_call: None, ..s },
                                )
                                &&& forall|m: u32| m != slot_number ==> final(self).spec_slot(m) == old(self).spec_slot(m)
                                &&& final(self).spec_call_slot(c.call_id@) is None
                                &&& forall|k: Seq<char>| k != c.call_id@ ==> final(self).spec_call_slot(k)
                                    == old(self).spec_call_slot(k)
                                &&& forall|id: u128| final(self).spec_lot(id) == old(self).spec_lot(id)
                                &&& final(self).spec_lots() == old(self).spec_lots()
                                &&& final(self).spec_total_parked() == old(self).spec_total_parked()
                                &&& final(self).spec_total_retrieved() == old(self).spec_total_retrieved() + 1
                                &&& final(self).spec_total_timeouts() == old(self).spec_total_timeouts()
                                &&& final(self).spec_timeouts_by_action() == old(self).spec_timeouts_by_action()
                                &&& final(self).spec_durations() == record_duration(
                                    old(self).spec_durations(),
                                    seconds_between(now, c.parked_at) as i64,
                                )
                            },
                        }
                    },
                })
            },
    {
        let now = now_millis();
        proof {
            assert(clock_reading(now));
        }
        self.retrieve_call_at(slot_number, now)
    }
    /// Copies of all slots, by slot number.
    pub fn list_slots(&self) -> (r: Vec<ParkingSlot>)
        requires
            self.wf(),
        ensures
            slots_sorted(r@),
            same_entries(r@, self.spec_slots()),
    {
        let mut v: Vec<ParkingSlot> = Vec::new();
        let mut i: usize = 0;
        while i < self.slots.len()
            invariant
                i <= self.slots.items().len(),
                v@ == self.slots.items().take(i as int),
            decreases self.slots.items().len() - i,
        {
            v.push(self.slots.at(i).duplicate());
            assert(self.slots.items().take(i as int).push(self.slots.items()[i as int]) =~= self.slots.items().take(i + 1));
            i = i + 1;
        }
        assert(self.slots.items().take(i as int) =~= self.slots.items());
        sort_slots(v)
    }

    /// Copies of the occupied slots, by slot number.
    pub fn list_occupied_slots(&self) -> (r: Vec<ParkingSlot>)
        requires
            self.wf(),
        ensures
            slots_sorted(r@),
            same_entries(r@, occupied(self.spec_slots())),
    {
        let ghost s = self.slots.items();
        let mut v: Vec<ParkingSlot> = Vec::new();
        let mut i: usize = 0;
        while i < self.slots.len()
            invariant
                s == self.slots.items(),
                i <= s.len(),
                v@ == occupied(s.take(i as int)),
            decreases s.len() - i,
        {
            assert(s.take(i + 1).drop_last() =~= s.take(i as int));
            if self.slots.at(i).state == ParkingSlotState::Occupied {
                v.push(self.slots.at(i).duplicate());
            }
            i = i + 1;
        }
        assert(s.take(i as int) =~= s);
        sort_slots(v)
    }

    /// Handles the parked calls whose timeout has passed by `now`
    /// (milliseconds): each one not yet handled is marked handled, taken out
    /// of its slot (which becomes available) and of the call records, and
    /// counted by its timeout action. Gives back the slot numbers and calls,
    /// in slot order.
    pub fn process_timeouts_at(&mut self, now: i64) -> (r: Vec<(u32, ParkedCall)>)
        requires
            old(self).wf(),
            old(self).spec_total_timeouts() + old(self).spec_slots().len() <= u64::MAX,
        ensures
            final(self).wf(),
            r@ == fired_calls(old(self).spec_slots(), now),
            final(self).spec_slots() == old(self).spec_slots().map_values(|s: ParkingSlot| timeout_step(s, now)),
            forall|k: Seq<char>| #[trigger] final(self).spec_call_slot(k) == if calls_include(r@, k) {
                None
            } else {
                old(self).spec_call_slot(k)
            },
            final(self).spec_total_timeouts() == old(self).spec_total_timeouts() + r@.len(),
            forall|a: TimeoutAction| #[trigger] final(self).spec_timeouts_by_action().spec_get(a)
                == old(self).spec_timeouts_by_action().spec_get(a) + count_action(r@, a),
            forall|id: u128| final(self).spec_lot(id) == old(self).spec_lot(id),
            final(self).spec_lots() == old(self).spec_lots(),
            final(self).spec_total_parked() == old(self).spec_total_parked(),
            final(self).spec_total_retrieved() == old(self).spec_total_retrieved(),
            final(self).spec_durations() == old(self).spec_durations(),
    {
        let ghost s0 = self.slots.items();
        let ghost c0 = *self;
        let mut out: Vec<(u32, ParkedCall)> = Vec::new();
        let mut i: usize = 0;
        while i < self.slots.len()
            invariant
                self.slots.wf(),
                self.call_to_slot.wf(),
                self.slots.items().len() == s0.len(),
                i <= s0.len(),
                forall|j: int| 0 <= j < i ==> #[trigger] self.slots.items()[j] == timeout_step(s0[j], now),
                forall|j: int| i <= j < s0.len() ==> #[trigger] self.slots.items()[j] == s0[j],
                out@ == fired_calls(s0.take(i as int), now),
                out@.len() <= i,
                self.total_timeouts == c0.total_timeouts + out@.len(),
                self.timeouts_by_action.total() == self.total_timeouts,
                c0.total_timeouts + s0.len() <= u64::MAX,
                forall|a: TimeoutAction| #[trigger] self.timeouts_by_action.spec_get(a) == c0.timeouts_by_action.spec_get(a)
                    + count_action(out@, a),
                forall|k: Seq<char>| #[trigger] self.call_to_slot.get_spec(k) == if calls_include(out@, k) {
                    None
                } else {
                    c0.call_to_slot.get_spec(k)
                },
                self.lots == c0.lots,
                self.total_parked == c0.total_parked,
                self.total_retrieved == c0.total_retrieved,
                self.parking_durations == c0.parking_durations,
            decreases s0.len() - i,
        {
            assert(s0.take(i + 1).drop_last() =~= s0.take(i as int));
            assert(s0.take(i + 1).last() == s0[i as int]);
            let ghost items_before = self.slots.items();
            let ghost out_before = out@;
            let mut slot = self.slots.take_at(i);
            if slot.check_timeout_at(now) {
                let taken = slot.parked_call.take();
                match taken {
                    Some(mut call) => {
                        if !call.timeout_attempted {
                            call.timeout_attempted = true;
                            slot.clear();
                            let ghost counts_before = self.timeouts_by_action;
                            let ghost act = call.timeout_action;
                            self.total_timeouts = self.total_timeouts + 1;
                            match call.timeout_action {
                                TimeoutAction::CallbackParker => {
                                    self.timeouts_by_action.callback_parker = self.timeouts_by_action.callback_parker + 1;
                                },
                                TimeoutAction::CallbackCaller => {
                                    self.timeouts_by_action.callback_caller = self.timeouts_by_action.callback_caller + 1;
                                },
                                TimeoutAction::TransferOperator => {
                                    self.timeouts_by_action.transfer_operator = self.timeouts_by_action.transfer_operator + 1;
                                },
                                TimeoutAction::Disconnect => {
                                    self.timeouts_by_action.disconnect = self.timeouts_by_action.disconnect + 1;
                                },
                                TimeoutAction::Voicemail => {
                                    self.timeouts_by_action.voicemail = self.timeouts_by_action.voicemail + 1;
                                },
                            }
                            let ghost cid = call.call_id@;
                            let ghost before_map = self.call_to_slot;
                            self.call_to_slot.remove(call.call_id.as_str());
                            out.push((slot.number, call));
                            proof {
                                assert forall|k: Seq<char>| #[trigger] self.call_to_slot.get_spec(k) == if calls_include(out@, k) {
                                    None
                                } else {
                                    c0.call_to_slot.get_spec(k)
                                } by {
                                    lemma_calls_include_push(out_before, (slot.number, call), k);
                                }
                                assert(out@.drop_last() =~= out_before);
                                assert(out@.last().1.timeout_action == act);
                                assert forall|a: TimeoutAction| #[trigger] self.timeouts_by_action.spec_get(a) == c0.timeouts_by_action.spec_get(a)
                                    + count_action(out@, a) by {
                                    assert(counts_before.spec_get(a) == c0.timeouts_by_action.spec_get(a) + count_action(out_before, a));
                                    assert(count_action(out@, a) == count_action(out_before, a) + if act == a { 1int } else { 0 });
                                }
                            }
                        }
                    },
                    None => {},
                }
            }
            self.slots.put_at(i, slot);
            proof {
                assert forall|j: int| 0 <= j < i + 1 implies #[trigger] self.slots.items()[j] == timeout_step(s0[j], now) by {
                    if j < i {
                        assert(self.slots.items()[j] == items_before[j]);
                    }
                }
                assert forall|j: int| i + 1 <= j < s0.len() implies #[trigger] self.slots.items()[j] == s0[j] by {
                    assert(self.slots.items()[j] == items_before[j]);
                }
            }
            i = i + 1;
        }
        assert(s0.take(i as int) =~= s0);
        assert(self.slots.items() =~= s0.map_values(|s: ParkingSlot| timeout_step(s, now)));
        out
    }

    /// Handles the timed-out parked calls, by the clock.
    pub fn process_timeouts(&mut self) -> (r: Vec<(u32, ParkedCall)>)
        requires
            old(self).wf(),
            old(self).spec_total_timeouts() + old(self).spec_slots().len() <= u64::MAX,
        ensures
            final(self).wf(),
            final(self).spec_total_timeouts() == old(self).spec_total_timeouts() + r@.len(),
            exists|now: i64| #[trigger] clock_reading(now) && {
                &&& (r@ == fired_calls(old(self).spec_slots(), now))
                &&& (final(self).spec_slots() == old(self).spec_slots().map_values(|s: ParkingSlot| timeout_step(s, now)))
                &&& (forall|k: Seq<char>| #[trigger] final(self).spec_call_slot(k) == if calls_include(r@, k) {
                    None
                } else {
                    old(self).spec_call_slot(k)
                })
                &&& (final(self).spec_total_timeouts() == old(self).spec_total_timeouts() + r@.len())
                &&& (forall|a: TimeoutAction| #[trigger] final(self).spec_timeouts_by_action().spec_get(a)
                    == old(self).spec_timeouts_by_action().spec_get(a) + count_action(r@, a))
                &&& (forall|id: u128| final(self).spec_lot(id) == old(self).spec_lot(id))
                &&& (final(self).spec_lots() == old(self).spec_lots())
                &&& (final(self).spec_total_parked() == old(self).spec_total_parked())
                &&& (final(self).spec_total_retrieved() == old(self).spec_total_retrieved())
                &&& (final(self).spec_durations() == old(self).spec_durations())
            },
    {
        let now = now_millis();
        proof {
            assert(clock_reading(now));
        }
        self.process_timeouts_at(now)
    }

    /// Parking statistics: slots in total, occupied and not, the counters, and
    /// the average of the kept parking durations (rounded toward zero).
    pub fn get_statistics(&self) -> (r: ParkingStatistics)
        requires
            self.wf(),
        ensures
            r.total_slots == self.spec_slots().len(),
            r.occupied_slots == occupied(self.spec_slots()).len(),
            r.available_slots == r.total_slots - r.occupied_slots,
            r.total_parked_calls == self.spec_total_parked(),
            r.total_retrieved_calls == self.spec_total_retrieved(),
            r.total_timeouts == self.spec_total_timeouts(),
            r.timeouts_by_action == self.spec_timeouts_by_action(),
            r.average_parking_duration == average_time(self.spec_durations()),
    {
        let ghost s = self.slots.items();
        let mut occ: usize = 0;
        let mut i: usize = 0;
        while i < self.slots.len()
            invariant
                s == self.slots.items(),
                i <= s.len(),
                occ == occupied(s.take(i as int)).len(),
                occ <= i,
            decreases s.len() - i,
        {
            assert(s.take(i + 1).drop_last() =~= s.take(i as int));
            if self.slots.at(i).state == ParkingSlotState::Occupied {
                occ = occ + 1;
            }
            i = i + 1;
        }
        assert(s.take(i as int) =~= s);
        let mut stats = ParkingStatistics::new();
        stats.total_slots = self.slots.len();
        stats.occupied_slots = occ;
        stats.available_slots = stats.total_slots - occ;
        stats.total_parked_calls = self.total_parked;
        stats.total_retrieved_calls = self.total_retrieved;
        stats.total_timeouts = self.total_timeouts;
        stats.timeouts_by_action = self.timeouts_by_action;
        stats.average_parking_duration = average_of(&self.parking_durations);
        stats
    }

    /// Empties every slot and forgets every call's slot record.
    pub fn clear_all_slots(&mut self)
        requires
            old(self).wf(),
        ensures
            final(self).wf(),
            final(self).spec_slots() == old(self).spec_slots().map_values(
                |s: ParkingSlot| ParkingSlot { state: ParkingSlotState::Available, parked_call: None, ..s },
            ),
            forall|k: Seq<char>| final(self).spec_call_slot(k) is None,
            forall|id: u128| final(self).spec_lot(id) == old(self).spec_lot(id),
            final(self).same_counts(old(self)),
    {
        let ghost s0 = self.slots.items();
        let mut i: usize = 0;
        while i < self.slots.len()
            invariant
                self.slots.wf(),
                self.slots.items().len() == s0.len(),
                i <= s0.len(),
                forall|j: int| 0 <= j < i ==> #[trigger] self.slots.items()[j] == (ParkingSlot {
                    state: ParkingSlotState::Available,
                    parked_call: None,
                    ..s0[j]
                }),
                forall|j: int| i <= j < s0.len() ==> #[trigger] self.slots.items()[j] == s0[j],
                self.lots == old(self).lots,
                self.call_to_slot == old(self).call_to_slot,
                self.total_parked == old(self).total_parked,
                self.total_retrieved == old(self).total_retrieved,
                self.total_timeouts == old(self).total_timeouts,
                self.timeouts_by_action == old(self).timeouts_by_action,
                self.parking_durations == old(self).parking_durations,
                old(self).wf(),
            decreases s0.len() - i,
        {
            let ghost before = self.slots.items();
            let mut slot = self.slots.take_at(i);
            slot.clear();
            self.slots.put_at(i, slot);
            proof {
                assert forall|j: int| 0 <= j < i implies #[trigger] self.slots.items()[j] == before[j] by {}
                assert forall|j: int| i + 1 <= j < s0.len() implies #[trigger] self.slots.items()[j] == before[j] by {}
            }
            i = i + 1;
        }
        assert(self.slots.items() =~= s0.map_values(
            |s: ParkingSlot| ParkingSlot { state: ParkingSlotState::Available, parked_call: None, ..s },
        ));
        self.call_to_slot.clear();
    }
}

impl Default for CallParkingManager {
    fn default() -> (r: Self)
        ensures
            r.wf(),
            r.spec_lots().len() == 0,
            r.spec_slots().len() == 0,
            r.spec_total_parked() == 0,
    {
        Self::new()
    }
}

} // verus!
