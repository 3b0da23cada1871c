//! Conference rooms: who is in them, who moderates, and the room's life
//! from waiting for a moderator to its end. Times are milliseconds since the
//! Unix epoch.
use vstd::prelude::*;
use crate::domain::shared::system::{clock_reading, is_v4_uuid, new_uuid, now_millis};
use crate::store::{KeyOf, Keyed, Store};
use crate::text::str_eq;

verus! {

/// Conference participant
#[derive(Debug, Clone)]
pub struct Participant {
    pub id: u128,
    pub user_uri: String,
    pub display_name: Option<String>,
    pub joined_at: i64,
    pub is_muted: bool,
    pub is_moderator: bool,
    pub audio_codec: Option<String>,
}

impl Keyed for Participant {
    type Key = u128;

    open spec fn key(&self) -> u128 {
        self.id
    }

    open spec fn inv(&self) -> bool {
        true
    }

    fn key_ref(&self) -> (r: &u128) {
        let r = &self.id;
        assert(r.kv() == *r);
        r
    }
}

impl Participant {
    /// An unmuted participant who joined at `now`.
    pub fn new_at(id: u128, user_uri: String, display_name: Option<String>, is_moderator: bool, now: i64) -> (r: Self)
        ensures
            r == (Participant {
                id,
                user_uri,
                display_name,
                joined_at: now,
                is_muted: false,
                is_moderator,
                audio_codec: None,
            }),
    {
        Participant { id, user_uri, display_name, joined_at: now, is_muted: false, is_moderator, audio_codec: None }
    }

    /// An unmuted participant joining now, with a fresh identifier.
    pub fn new(user_uri: String, display_name: Option<String>, is_moderator: bool) -> (r: Self)
        ensures
            is_v4_uuid(r.id),
            r.user_uri == user_uri,
            r.display_name == display_name,
            r.is_moderator == is_moderator,
            !r.is_muted,
            r.audio_codec is None,
    {
        let id = new_uuid();
        Self::new_at(id, user_uri, display_name, is_moderator, now_millis())
    }

    pub fn mute(&mut self)
        ensures
            *final(self) == (Participant { is_muted: true, ..*old(self) }),
    {
        self.is_muted = true;
    }

    pub fn unmute(&mut self)
        ensures
            *final(self) == (Participant { is_muted: false, ..*old(self) }),
    {
        self.is_muted = false;
    }

    pub fn duplicate(&self) -> (r: Self)
        ensures
            r == *self,
    {
        Participant {
            id: self.id,
            user_uri: self.user_uri.clone(),
            display_name: match &self.display_name {
                Some(n) => Some(n.clone()),
                None => None,
            },
            joined_at: self.joined_at,
            is_muted: self.is_muted,
            is_moderator: self.is_moderator,
            audio_codec: match &self.audio_codec {
                Some(c) => Some(c.clone()),
                None => None,
            },
        }
    }

    pub fn toggle_mute(&mut self)
        ensures
            *final(self) == (Participant { is_muted: !old(self).is_muted, ..*old(self) }),
    {
        self.is_muted = !self.is_muted;
    }
}

/// Conference room state
#[derive(Debug, Clone, Copy, PartialEq, Eq, Structural)]
pub enum ConferenceState {
    /// Waiting for moderator
    Waiting,
    /// Conference in progress
    Active,
    /// No new participants allowed
    Locked,
    /// Conference ended
    Ended,
}

/// A room's state once locked: an active room closes, others stay.
pub open spec fn state_after_lock(s: ConferenceState) -> ConferenceState {
    if s == ConferenceState::Active { ConferenceState::Locked } else { s }
}

/// A room's state once unlocked: a locked room opens, others stay.
pub open spec fn state_after_unlock(s: ConferenceState) -> ConferenceState {
    if s == ConferenceState::Locked { ConferenceState::Active } else { s }
}

/// Unlocking undoes locking and locking undoes unlocking: an active room
/// locked and unlocked is active again, a locked room unlocked and locked is
/// locked again, and neither touches a waiting or ended room.
pub proof fn law_lock_unlock(s: ConferenceState)
    ensures
        s == ConferenceState::Active ==> state_after_unlock(state_after_lock(s)) == s,
        s == ConferenceState::Locked ==> state_after_lock(state_after_unlock(s)) == s,
        s == ConferenceState::Waiting || s == ConferenceState::Ended ==> state_after_lock(s) == s && state_after_unlock(s)
            == s,
{
}

/// An ended room lets nobody in, whatever else holds of it.
pub proof fn law_ended_room_admits_nobody(room: ConferenceRoom)
    requires
        room.state == ConferenceState::Ended,
    ensures
        !(room.state == ConferenceState::Waiting || room.state == ConferenceState::Active),
        state_after_lock(room.state) == ConferenceState::Ended,
        state_after_unlock(room.state) == ConferenceState::Ended,
{
}

/// Conference room
#[derive(Debug)]
pub struct ConferenceRoom {
    pub id: u128,
    pub name: String,
    pub pin: Option<String>,
    pub max_participants: usize,
    pub state: ConferenceState,
    pub participants: Store<Participant>,
    pub moderator_id: Option<u128>,
    pub created_at: i64,
    pub started_at: Option<i64>,
    pub ended_at: Option<i64>,
    pub recording_enabled: bool,
    pub recording_path: Option<String>,
}

/// The first moderator among participants, in the order they joined.
pub open spec fn first_moderator(ps: Seq<Participant>) -> Option<u128>
    decreases ps.len(),
{
    if ps.len() == 0 {
        None
    } else if ps[0].is_moderator {
        Some(ps[0].id)
    } else {
        first_moderator(ps.drop_first())
    }
}

proof fn lemma_first_moderator(ps: Seq<Participant>)
    ensures
        first_moderator(ps) matches Some(id) ==> exists|i: int|
            0 <= i < ps.len() && (#[trigger] ps[i]).id == id && ps[i].is_moderator,
        first_moderator(ps) is None ==> forall|i: int| 0 <= i < ps.len() ==> !(#[trigger] ps[i]).is_moderator,
    decreases ps.len(),
{
    if ps.len() > 0 && !ps[0].is_moderator {
        lemma_first_moderator(ps.drop_first());
        if let Some(id) = first_moderator(ps) {
            let i = choose|i: int| 0 <= i < ps.drop_first().len() && (#[trigger] ps.drop_first()[i]).id == id
                && ps.drop_first()[i].is_moderator;
            assert(ps[i + 1] == ps.drop_first()[i]);
        } else {
            assert forall|i: int| 0 <= i < ps.len() implies !(#[trigger] ps[i]).is_moderator by {
                if i > 0 {
                    assert(ps[i] == ps.drop_first()[i - 1]);
                }
            }
        }
    }
}

fn find_moderator(ps: &Store<Participant>) -> (r: Option<u128>)
    ensures
        r == first_moderator(ps.items()),
{
    let ghost items = ps.items();
    assert(items.skip(0) =~= items);
    let mut i: usize = 0;
    while i < ps.len()
        invariant
            items == ps.items(),
            i <= items.len(),
            first_moderator(items) == first_moderator(items.skip(i as int)),
        decreases items.len() - i,
    {
        assert(items.skip(i as int)[0] == items[i as int]);
        if ps.at(i).is_moderator {
            return Some(ps.at(i).id);
        }
        assert(items.skip(i as int).drop_first() =~= items.skip(i + 1));
        i = i + 1;
    }
    assert(items.skip(i as int).len() == 0);
    None
}

/// The room after it ends at `now`: ended, the end time set, the recording
/// stopped.
pub open spec fn ended_room_fields(r: ConferenceRoom, o: ConferenceRoom, now: i64) -> bool {
    &&& r.state == ConferenceState::Ended
    &&& r.ended_at == Some(now)
    &&& !r.recording_enabled
    &&& r.id == o.id && r.name == o.name && r.pin == o.pin && r.max_participants == o.max_participants
    &&& r.created_at == o.created_at && r.started_at == o.started_at && r.recording_path == o.recording_path
}

/// Every participant muted but the moderator (by `mute`) or everyone
/// unmuted (by `!mute`), in place.
pub open spec fn muted_all(before: Seq<Participant>, after: Seq<Participant>, moderator: Option<u128>, mute: bool) -> bool {
    &&& after.len() == before.len()
    &&& forall|i: int| 0 <= i < before.len() ==> #[trigger] after[i] == if mute {
        if moderator != Some(before[i].id) { Participant { is_muted: true, ..before[i] } } else { before[i] }
    } else {
        Participant { is_muted: false, ..before[i] }
    }
}

impl ConferenceRoom {
    pub open spec fn wf(&self) -> bool {
        self.participants.wf()
    }

    /// The participant with the given identifier.
    pub open spec fn participant(&self, id: u128) -> Option<Participant> {
        self.participants.get_spec(id)
    }

    /// An empty room waiting for a moderator, created at `now`.
    pub fn new_at(id: u128, name: String, pin: Option<String>, max_participants: usize, now: i64) -> (r: Self)
        ensures
            r.wf(),
            r.id == id && r.name == name && r.pin == pin && r.max_participants == max_participants,
            r.state == ConferenceState::Waiting,
            r.participants.items().len() == 0,
            r.moderator_id is None,
            r.created_at == now && r.started_at is None && r.ended_at is None,
            !r.recording_enabled && r.recording_path is None,
    {
        ConferenceRoom {
            id,
            name,
            pin,
            max_participants,
            state: ConferenceState::Waiting,
            participants: Store::new(),
            moderator_id: None,
            created_at: now,
            started_at: None,
            ended_at: None,
            recording_enabled: false,
            recording_path: None,
        }
    }

    /// An empty room created now, with a fresh identifier.
    pub fn new(name: String, pin: Option<String>, max_participants: usize) -> (r: Self)
        ensures
            r.wf(),
            is_v4_uuid(r.id),
            r.name == name && r.pin == pin && r.max_participants == max_participants,
            r.state == ConferenceState::Waiting,
            r.participants.items().len() == 0,
            r.moderator_id is None,
            r.started_at is None && r.ended_at is None,
            !r.recording_enabled && r.recording_path is None,
    {
        let id = new_uuid();
        Self::new_at(id, name, pin, max_participants, now_millis())
    }

    /// Whether a PIN opens the room: any does when it has none.
    pub fn verify_pin(&self, pin: &str) -> (r: bool)
        ensures
            r == match self.pin {
                Some(p) => p@ == pin@,
                None => true,
            },
    {
        match &self.pin {
            Some(room_pin) => str_eq(room_pin.as_str(), pin),
            None => true,
        }
    }

    /// Lets a participant in at `now`, unless the room is locked, has ended
    /// or is full. A moderator joining a waiting room becomes its moderator
    /// and starts it.
    pub fn add_participant_at(&mut self, participant: Participant, now: i64) -> (r: Result<(), String>)
        requires
            old(self).wf(),
        ensures
            final(self).wf(),
            old(self).state == ConferenceState::Locked ==> (r matches Err(e) && e@ == "Conference is locked"@
                && *final(self) == *old(self)),
            old(self).state == ConferenceState::Ended ==> (r matches Err(e) && e@ == "Conference has ended"@
                && *final(self) == *old(self)),
            (old(self).state == ConferenceState::Waiting || old(self).state == ConferenceState::Active)
                && old(self).participants.items().len() >= old(self).max_participants ==> (r matches Err(e) && e@
                == "Conference is full"@ && *final(self) == *old(self)),
            (old(self).state == ConferenceState::Waiting || old(self).state == ConferenceState::Active)
                && old(self).participants.items().len() < old(self).max_participants ==> {
                &&& r is Ok
                &&& final(self).participant(participant.id) == Some(participant)
                &&& forall|k: u128| k != participant.id ==> final(self).participant(k) == old(self).participant(k)
                &&& if participant.is_moderator && old(self).state == ConferenceState::Waiting {
                    &&& final(self).moderator_id == Some(participant.id)
                    &&& final(self).state == ConferenceState::Active
                    &&& final(self).started_at == Some(now)
                } else {
                    &&& final(self).moderator_id == old(self).moderator_id
                    &&& final(self).state == old(self).state
                    &&& final(self).started_at == old(self).started_at
                }
                &&& final(self).ended_at == old(self).ended_at
                &&& final(self).recording_enabled == old(self).recording_enabled
                &&& final(self).recording_path == old(self).recording_path
                &&& final(self).id == old(self).id && final(self).pin == old(self).pin
                &&& final(self).max_participants == old(self).max_participants
            },
    {
        if self.state == ConferenceState::Locked {
            return Err(String::from_str("Conference is locked"));
        }
        if self.state == ConferenceState::Ended {
            return Err(String::from_str("Conference has ended"));
        }
        if self.participants.len() >= self.max_participants {
            return Err(String::from_str("Conference is full"));
        }
        let participant_id = participant.id;
        let is_moderator = participant.is_moderator;
        self.participants.insert(participant);
        if is_moderator && self.state == ConferenceState::Waiting {
            self.moderator_id = Some(participant_id);
            self.state = ConferenceState::Active;
            self.started_at = Some(now);
        }
        Ok(())
    }

    /// Lets a participant in now.
    pub fn add_participant(&mut self, participant: Participant) -> (r: Result<(), String>)
        requires
            old(self).wf(),
        ensures
            final(self).wf(),
            r is Ok <==> ((old(self).state == ConferenceState::Waiting || old(self).state == ConferenceState::Active)
                && old(self).participants.items().len() < old(self).max_participants),
            r is Ok ==> final(self).participant(participant.id) == Some(participant),
            r is Err ==> *final(self) == *old(self),
            exists|now: i64| #[trigger] clock_reading(now) && {
                &&& (old(self).state == ConferenceState::Locked ==> (r matches Err(e) && e@ == "Conference is locked"@
                    && *final(self) == *old(self)))
                &&& (old(self).state == ConferenceState::Ended ==> (r matches Err(e) && e@ == "Conference has ended"@
                    && *final(self) == *old(self)))
                &&& ((old(self).state == ConferenceState::Waiting || old(self).state == ConferenceState::Active)
                    && old(self).participants.items().len() >= old(self).max_participants ==> (r matches Err(e) && e@
                    == "Conference is full"@ && *final(self) == *old(self)))
                &&& ((old(self).state == ConferenceState::Waiting || old(self).state == ConferenceState::Active)
                    && old(self).participants.items().len() < old(self).max_participants ==> {
                    &&& r is Ok
                    &&& final(self).participant(participant.id) == Some(participant)
                    &&& forall|k: u128| k != participant.id ==> final(self).participant(k) == old(self).participant(k)
                    &&& if participant.is_moderator && old(self).state == ConferenceState::Waiting {
                        &&& final(self).moderator_id == Some(participant.id)
                        &&& final(self).state == ConferenceState::Active
                        &&& final(self).started_at == Some(now)
                    } else {
                        &&& final(self).moderator_id == old(self).moderator_id
                        &&& final(self).state == old(self).state
                        &&& final(self).started_at == old(self).started_at
                    }
                    &&& final(self).ended_at == old(self).ended_at
                    &&& final(self).recording_enabled == old(self).recording_enabled
                    &&& final(self).recording_path == old(self).recording_path
                    &&& final(self).id == old(self).id && final(self).pin == old(self).pin
                    &&& final(self).max_participants == old(self).max_participants
                })
            },
    {
        let now = now_millis();
        proof {
            assert(clock_reading(now));
        }
        self.add_participant_at(participant, now)
    }

    /// Ends the room at `now`: ended, the end time set, recording stopped.
    pub fn end_at(&mut self, now: i64)
        ensures
            ended_room_fields(*final(self), *old(self), now),
            final(self).participants == old(self).participants,
            final(self).moderator_id == old(self).moderator_id,
    {
        self.state = ConferenceState::Ended;
        self.ended_at = Some(now);
        self.stop_recording();
    }

    /// Ends the room now.
    pub fn end(&mut self)
        ensures
            final(self).state == ConferenceState::Ended,
            final(self).ended_at is Some,
            !final(self).recording_enabled,
            final(self).participants == old(self).participants,
            exists|now: i64| #[trigger] clock_reading(now) && {
                &&& (ended_room_fields(*final(self), *old(self), now))
                &&& (final(self).participants == old(self).participants)
                &&& (final(self).moderator_id == old(self).moderator_id)
            },
    {
        let now = now_millis();
        proof {
            assert(clock_reading(now));
        }
        self.end_at(now);
    }

    /// Lets a participant go at `now`. When the moderator leaves, the first
    /// remaining moderator (in the order they joined) takes over, or with none
    /// the room goes back to waiting; when the last one leaves, the room ends.
    pub fn remove_participant_at(&mut self, participant_id: u128, now: i64) -> (r: Result<(), String>)
        requires
            old(self).wf(),
        ensures
            final(self).wf(),
            old(self).participant(participant_id) is None ==> (r matches Err(e) && e@ == "Participant not found"@
                && *final(self) == *old(self)),
            final(self).id == old(self).id && final(self).name == old(self).name && final(self).pin == old(self).pin,
            final(self).max_participants == old(self).max_participants && final(self).created_at == old(self).created_at,
            old(self).participant(participant_id) is Some ==> {
                let rest = final(self).participants.items();
                &&& r is Ok
                &&& final(self).participant(participant_id) is None
                &&& forall|k: u128| k != participant_id ==> final(self).participant(k) == old(self).participant(k)
                &&& rest.len() == old(self).participants.items().len() - 1
                &&& final(self).moderator_id == if old(self).moderator_id == Some(participant_id) {
                    first_moderator(rest)
                } else {
                    old(self).moderator_id
                }
                &&& if rest.len() == 0 {
                    ended_room_fields(*final(self), *old(self), now)
                } else {
                    &&& final(self).state == if old(self).moderator_id == Some(participant_id) && first_moderator(rest) is None {
                        ConferenceState::Waiting
                    } else {
                        old(self).state
                    }
                    &&& final(self).ended_at == old(self).ended_at
                    &&& final(self).recording_enabled == old(self).recording_enabled
                    &&& final(self).started_at == old(self).started_at
                }
            },
    {
        if self.participants.find(&participant_id).is_none() {
            return Err(String::from_str("Participant not found"));
        }
        let _ = self.participants.remove(&participant_id);
        let was_moderator = match self.moderator_id {
            Some(m) => m == participant_id,
            None => false,
        };
        if was_moderator {
            self.moderator_id = find_moderator(&self.participants);
            if self.moderator_id.is_none() && self.participants.len() > 0 {
                self.state = ConferenceState::Waiting;
            }
        }
        if self.participants.len() == 0 {
            self.end_at(now);
        }
        Ok(())
    }

    /// Lets a participant go now.
    pub fn remove_participant(&mut self, participant_id: u128) -> (r: Result<(), String>)
        requires
            old(self).wf(),
        ensures
            final(self).wf(),
            r is Ok <==> old(self).participant(participant_id) is Some,
            final(self).participant(participant_id) is None,
            r is Ok && final(self).participants.items().len() == 0 ==> final(self).state == ConferenceState::Ended,
            exists|now: i64| #[trigger] clock_reading(now) && {
                &&& (old(self).participant(participant_id) is None ==> (r matches Err(e) && e@ == "Participant not found"@
                    && *final(self) == *old(self)))
                &&& (final(self).id == old(self).id && final(self).name == old(self).name && final(self).pin == old(self).pin)
                &&& (final(self).max_participants == old(self).max_participants && final(self).created_at == old(self).created_at)
                &&& (old(self).participant(participant_id) is Some ==> {
                    let rest = final(self).participants.items();
                    &&& r is Ok
                    &&& final(self).participant(participant_id) is None
                    &&& forall|k: u128| k != participant_id ==> final(self).participant(k) == old(self).participant(k)
                    &&& rest.len() == old(self).participants.items().len() - 1
                    &&& final(self).moderator_id == if old(self).moderator_id == Some(participant_id) {
                        first_moderator(rest)
                    } else {
                        old(self).moderator_id
                    }
                    &&& if rest.len() == 0 {
                        ended_room_fields(*final(self), *old(self), now)
                    } else {
                        &&& final(self).state == if old(self).moderator_id == Some(participant_id) && first_moderator(rest) is None {
                            ConferenceState::Waiting
                        } else {
                            old(self).state
                        }
                        &&& final(self).ended_at == old(self).ended_at
                        &&& final(self).recording_enabled == old(self).recording_enabled
                        &&& final(self).started_at == old(self).started_at
                    }
                })
            },
    {
        let now = now_millis();
        proof {
            assert(clock_reading(now));
        }
        self.remove_participant_at(participant_id, now)
    }

    pub fn get_participant(&self, participant_id: u128) -> (r: Option<&Participant>)
        requires
            self.wf(),
        ensures
            match self.participant(participant_id) {
                Some(p) => r == Some(&p),
                None => r is None,
            },
    {
        self.participants.get(&participant_id)
    }

    fn set_muted(&mut self, participant_id: u128, muted: bool) -> (r: Result<(), String>)
        requires
            old(self).wf(),
        ensures
            final(self).wf(),
            final(self).id == old(self).id && final(self).state == old(self).state,
            match old(self).participant(participant_id) {
                None => r matches Err(e) && e@ == "Participant not found"@ && *final(self) == *old(self),
                Some(p) => {
                    &&& r is Ok
                    &&& final(self).participant(participant_id) == Some(Participant { is_muted: muted, ..p })
                    &&& forall|k: u128| k != participant_id ==> final(self).participant(k) == old(self).participant(k)
                    &&& final(self).state == old(self).state
                    &&& final(self).moderator_id == old(self).moderator_id
                },
            },
    {
        match self.participants.find(&participant_id) {
            Some(i) => {
                let mut p = self.participants.take_at(i);
                p.is_muted = muted;
                self.participants.put_at(i, p);
                Ok(())
            },
            None => Err(String::from_str("Participant not found")),
        }
    }

    pub fn mute_participant(&mut self, participant_id: u128) -> (r: Result<(), String>)
        requires
            old(self).wf(),
        ensures
            final(self).wf(),
            final(self).id == old(self).id && final(self).state == old(self).state,
            match old(self).participant(participant_id) {
                None => r matches Err(e) && e@ == "Participant not found"@ && *final(self) == *old(self),
                Some(p) => {
                    &&& r is Ok
                    &&& final(self).participant(participant_id) == Some(Participant { is_muted: true, ..p })
                    &&& forall|k: u128| k != participant_id ==> final(self).participant(k) == old(self).participant(k)
                },
            },
    {
        self.set_muted(participant_id, true)
    }

    pub fn unmute_participant(&mut self, participant_id: u128) -> (r: Result<(), String>)
        requires
            old(self).wf(),
        ensures
            final(self).wf(),
            final(self).id == old(self).id && final(self).state == old(self).state,
            match old(self).participant(participant_id) {
                None => r matches Err(e) && e@ == "Participant not found"@ && *final(self) == *old(self),
                Some(p) => {
                    &&& r is Ok
                    &&& final(self).participant(participant_id) == Some(Participant { is_muted: false, ..p })
                    &&& forall|k: u128| k != participant_id ==> final(self).participant(k) == old(self).participant(k)
                },
            },
    {
        self.set_muted(participant_id, false)
    }

    fn mute_each(&mut self, mute: bool)
        requires
            old(self).wf(),
        ensures
            final(self).wf(),
            muted_all(old(self).participants.items(), final(self).participants.items(), old(self).moderator_id, mute),
            final(self).state == old(self).state,
            final(self).moderator_id == old(self).moderator_id,
    {
        let ghost before = self.participants.items();
        let mut i: usize = 0;
        while i < self.participants.len()
            invariant
                self.participants.wf(),
                self.participants.items().len() == before.len(),
                i <= before.len(),
                self.moderator_id == old(self).moderator_id,
                self.state == old(self).state,
                forall|j: int| 0 <= j < i ==> #[trigger] self.participants.items()[j] == if mute {
                    if self.moderator_id != Some(before[j].id) {
                        Participant { is_muted: true, ..before[j] }
                    } else {
                        before[j]
                    }
                } else {
                    Participant { is_muted: false, ..before[j] }
                },
                forall|j: int| i <= j < before.len() ==> #[trigger] self.participants.items()[j] == before[j],
            decreases before.len() - i,
        {
            let is_mod = match self.moderator_id {
                Some(m) => m == self.participants.at(i).id,
                None => false,
            };
            if !mute || !is_mod {
                let mut p = self.participants.at(i).duplicate();
                p.is_muted = mute;
                self.participants.set_at(i, p);
            }
            i = i + 1;
        }
    }

    /// Mutes everyone but the moderator.
    pub fn mute_all(&mut self)
        requires
            old(self).wf(),
        ensures
            final(self).wf(),
            muted_all(old(self).participants.items(), final(self).participants.items(), old(self).moderator_id, true),
            final(self).state == old(self).state,
            final(self).moderator_id == old(self).moderator_id,
    {
        self.mute_each(true);
    }

    /// Unmutes everyone.
    pub fn unmute_all(&mut self)
        requires
            old(self).wf(),
        ensures
            final(self).wf(),
            muted_all(old(self).participants.items(), final(self).participants.items(), old(self).moderator_id, false),
            final(self).state == old(self).state,
            final(self).moderator_id == old(self).moderator_id,
    {
        self.mute_each(false);
    }

    /// Closes an active room to newcomers.
    pub fn lock(&mut self)
        ensures
            *final(self) == (ConferenceRoom { state: state_after_lock(old(self).state), ..*old(self) }),
    {
        if self.state == ConferenceState::Active {
            self.state = ConferenceState::Locked;
        }
    }

    /// Opens a locked room again.
    pub fn unlock(&mut self)
        ensures
            *final(self) == (ConferenceRoom { state: state_after_unlock(old(self).state), ..*old(self) }),
    {
        if self.state == ConferenceState::Locked {
            self.state = ConferenceState::Active;
        }
    }

    pub fn start_recording(&mut self, path: String)
        ensures
            *final(self) == (ConferenceRoom { recording_enabled: true, recording_path: Some(path), ..*old(self) }),
    {
        self.recording_enabled = true;
        self.recording_path = Some(path);
    }

    pub fn stop_recording(&mut self)
        ensures
            *final(self) == (ConferenceRoom { recording_enabled: false, ..*old(self) }),
    {
        self.recording_enabled = false;
    }

    pub fn participant_count(&self) -> (r: usize)
        ensures
            r == self.participants.items().len(),
    {
        self.participants.len()
    }

    pub fn is_moderator(&self, participant_id: u128) -> (r: bool)
        ensures
            r == (self.moderator_id == Some(participant_id)),
    {
        match self.moderator_id {
            Some(m) => m == participant_id,
            None => false,
        }
    }

    /// How long the room has run, in milliseconds, at `now`: to its end if
    /// it ended, else to `now`; none if it never started.
    pub fn duration_at(&self, now: i64) -> (r: Option<i128>)
        ensures
            r == match (self.started_at, self.ended_at) {
                (Some(s), Some(e)) => Some((e - s) as i128),
                (Some(s), None) => Some((now - s) as i128),
                _ => None,
            },
    {
        match (self.started_at, self.ended_at) {
            (Some(s), Some(e)) => Some(e as i128 - s as i128),
            (Some(s), None) => Some(now as i128 - s as i128),
            _ => None,
        }
    }

    /// How long the room has run, in milliseconds.
    pub fn duration(&self) -> (r: Option<i128>)
        ensures
            r is Some <==> self.started_at is Some,
            exists|now: i64| #[trigger] clock_reading(now) && {
                &&& (r == match (self.started_at, self.ended_at) {
                    (Some(s), Some(e)) => Some((e - s) as i128),
                    (Some(s), None) => Some((now - s) as i128),
                    _ => None,
                })
            },
    {
        let now = now_millis();
        proof {
            assert(clock_reading(now));
        }
        self.duration_at(now)
    }
}

impl Keyed for ConferenceRoom {
    type Key = u128;

    open spec fn key(&self) -> u128 {
        self.id
    }

    open spec fn inv(&self) -> bool {
        self.wf()
    }

    fn key_ref(&self) -> (r: &u128) {
        let r = &self.id;
        assert(r.kv() == *r);
        r
    }
}

/// The two rooms hold the same values (the participants by their entries).
pub open spec fn same_room(a: ConferenceRoom, b: ConferenceRoom) -> bool {
    &&& a.id == b.id && a.name == b.name && a.pin == b.pin && a.max_participants == b.max_participants
    &&& a.state == b.state && a.moderator_id == b.moderator_id
    &&& a.created_at == b.created_at && a.started_at == b.started_at && a.ended_at == b.ended_at
    &&& a.recording_enabled == b.recording_enabled && a.recording_path == b.recording_path
    &&& a.participants.items() == b.participants.items()
}

fn copy_participants(s: &Store<Participant>) -> (r: Store<Participant>)
    requires
        s.wf(),
    ensures
        r.wf(),
        r.items() == s.items(),
{
    let ghost items = s.items();
    let mut out: Store<Participant> = Store::new();
    let mut i: usize = 0;
    while i < s.len()
        invariant
            items == s.items(),
            s.wf(),
            i <= items.len(),
            out.wf(),
            out.items() == items.take(i as int),
        decreases items.len() - i,
    {
        let p = s.at(i).duplicate();
        proof {
            assert forall|j: int| 0 <= j < out.items().len() implies (#[trigger] out.items()[j]).key() != p.key() by {
                assert(out.items()[j] == items[j]);
            }
        }
        out.push_new(p);
        i = i + 1;
        assert(out.items() =~= items.take(i as int));
    }
    assert(items.take(i as int) =~= items);
    out
}

impl ConferenceRoom {
    pub fn duplicate(&self) -> (r: Self)
        requires
            self.wf(),
        ensures
            r.wf(),
            same_room(r, *self),
    {
        ConferenceRoom {
            id: self.id,
            name: self.name.clone(),
            pin: match &self.pin {
                Some(p) => Some(p.clone()),
                None => None,
            },
            max_participants: self.max_participants,
            state: self.state,
            participants: copy_participants(&self.participants),
            moderator_id: self.moderator_id,
            created_at: self.created_at,
            started_at: self.started_at,
            ended_at: self.ended_at,
            recording_enabled: self.recording_enabled,
            recording_path: match &self.recording_path {
                Some(p) => Some(p.clone()),
                None => None,
            },
        }
    }
}

} // verus!
