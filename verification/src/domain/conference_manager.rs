//! The running conferences: rooms by identifier and, for each call taking
//! part, the room and participant it stands for. Times are milliseconds
//! since the Unix epoch.
use vstd::prelude::*;
use crate::domain::conference::{
    ended_room_fields, same_room, state_after_lock, state_after_unlock, ConferenceRoom, ConferenceState, Participant,
};
use crate::domain::shared::system::{clock_reading, is_v4_uuid, new_uuid, now_millis};
use crate::store::{KeyOf, Keyed, Store};

verus! {

/// The part a caller plays in a conference.
#[derive(Debug, Clone, Copy, PartialEq, Eq, Structural)]
pub enum ParticipantRole {
    /// Starts the conference and keeps it going
    Moderator,
    /// Takes part
    Attendee,
}

/// The room and participant a call stands for.
#[derive(Debug)]
pub struct CallMembership {
    pub call_id: String,
    pub room_id: u128,
    pub participant_id: u128,
}

impl Keyed for CallMembership {
    type Key = str;

    open spec fn key(&self) -> Seq<char> {
        self.call_id@
    }

    open spec fn inv(&self) -> bool {
        true
    }

    fn key_ref(&self) -> (r: &str) {
        let r = self.call_id.as_str();
        assert(r.kv() == r@);
        r
    }
}

/// Conference manager.
pub struct ConferenceManager {
    pub rooms: Store<ConferenceRoom>,
    pub call_participants: Store<CallMembership>,
}

/// A room takes part in the count of running conferences.
pub open spec fn is_running(r: ConferenceRoom) -> bool {
    r.state == ConferenceState::Active || r.state == ConferenceState::Locked
}

/// The number of running rooms.
pub open spec fn count_running(rs: Seq<ConferenceRoom>) -> int
    decreases rs.len(),
{
    if rs.len() == 0 {
        0
    } else {
        count_running(rs.drop_last()) + if is_running(rs.last()) { 1int } else { 0int }
    }
}

proof fn lemma_count_running_bound(rs: Seq<ConferenceRoom>)
    ensures
        0 <= count_running(rs) <= rs.len(),
    decreases rs.len(),
{
    if rs.len() > 0 {
        lemma_count_running_bound(rs.drop_last());
    }
}

/// The error for a room that is not running.
pub open spec fn room_missing(e: String) -> bool {
    e@ == "Conference room not found"@
}

/// The error for a call that takes part in no conference.
pub open spec fn call_missing(e: String) -> bool {
    e@ == "Call not in conference"@
}

impl ConferenceManager {
    pub open spec fn wf(&self) -> bool {
        self.rooms.wf() && self.call_participants.wf()
    }

    pub open spec fn room(&self, id: u128) -> Option<ConferenceRoom> {
        self.rooms.get_spec(id)
    }

    pub open spec fn membership(&self, call_id: Seq<char>) -> Option<CallMembership> {
        self.call_participants.get_spec(call_id)
    }

    pub fn new() -> (r: Self)
        ensures
            r.wf(),
            r.rooms.items().len() == 0,
            r.call_participants.items().len() == 0,
    {
        ConferenceManager { rooms: Store::new(), call_participants: Store::new() }
    }

    /// Opens a room, created at `now` under `room_id`.
    pub fn create_room_at(
        &mut self,
        name: String,
        pin: Option<String>,
        max_participants: usize,
        room_id: u128,
        now: i64,
    ) -> (r: Result<u128, String>)
        requires
            old(self).wf(),
        ensures
            final(self).wf(),
            r == Ok::<u128, String>(room_id),
            final(self).room(room_id) matches Some(room) && room.name == name && room.pin == pin
                && room.max_participants == max_participants && room.state == ConferenceState::Waiting
                && room.participants.items().len() == 0 && room.created_at == now,
            forall|k: u128| k != room_id ==> final(self).room(k) == old(self).room(k),
            final(self).call_participants == old(self).call_participants,
    {
        let room = ConferenceRoom::new_at(room_id, name, pin, max_participants, now);
        self.rooms.insert(room);
        Ok(room_id)
    }

    /// Opens a room now, with a fresh identifier.
    pub fn create_room(&mut self, name: String, pin: Option<String>, max_participants: usize) -> (r: Result<
        u128,
        String,
    >)
        requires
            old(self).wf(),
        ensures
            final(self).wf(),
            r matches Ok(id) && final(self).room(id) matches Some(room) && room.name == name
                && room.max_participants == max_participants,
            exists|now: i64, room_id: u128| #![trigger clock_reading(now), is_v4_uuid(room_id)] clock_reading(now) && is_v4_uuid(room_id) && {
                &&& (r == Ok::<u128, String>(room_id))
                &&& (final(self).room(room_id) matches Some(room) && room.name == name && room.pin == pin
                    && room.max_participants == max_participants && room.state == ConferenceState::Waiting
                    && room.participants.items().len() == 0 && room.created_at == now)
                &&& (forall|k: u128| k != room_id ==> final(self).room(k) == old(self).room(k))
                &&& (final(self).call_participants == old(self).call_participants)
            },
    {
        let now = now_millis();
        let id = new_uuid();
        proof {
            assert(clock_reading(now));
        }
        self.create_room_at(name, pin, max_participants, id, now)
    }

    pub fn get_room(&self, room_id: u128) -> (r: Result<&ConferenceRoom, String>)
        requires
            self.wf(),
        ensures
            match self.room(room_id) {
                Some(room) => r == Ok::<&ConferenceRoom, String>(&room),
                None => r matches Err(e) && room_missing(e),
            },
    {
        match self.rooms.get(&room_id) {
            Some(room) => Ok(room),
            None => Err(String::from_str("Conference room not found")),
        }
    }

    /// A call joins a room at `now` as participant `participant_id` (its
    /// call id as address, `name` as display name): the room must exist, the
    /// PIN must open it (one is needed when the room has one), and the room
    /// must let the participant in.
    pub fn join_conference_at(
        &mut self,
        room_id: u128,
        call_id: String,
        name: String,
        role: ParticipantRole,
        pin: Option<String>,
        participant_id: u128,
        now: i64,
    ) -> (r: Result<u128, String>)
        requires
            old(self).wf(),
        ensures
            final(self).wf(),
            forall|k: u128| k != room_id ==> final(self).room(k) == old(self).room(k),
            match old(self).room(room_id) {
                None => r matches Err(e) && room_missing(e) && final(self).rooms == old(self).rooms
                    && final(self).call_participants == old(self).call_participants,
                Some(room) => match pin {
                    Some(p) if !(room.pin matches Some(q) ==> q@ == p@) => r matches Err(e) && e@ == "Invalid PIN"@
                        && final(self).rooms == old(self).rooms && final(self).call_participants
                        == old(self).call_participants,
                    None if room.pin is Some => r matches Err(e) && e@ == "PIN required"@ && final(self).rooms
                        == old(self).rooms && final(self).call_participants == old(self).call_participants,
                    _ => {
                        let admitted = (room.state == ConferenceState::Waiting || room.state
                            == ConferenceState::Active) && room.participants.items().len() < room.max_participants;
                        &&& r is Ok <==> admitted
                        &&& !admitted ==> final(self).call_participants == old(self).call_participants
                            && (final(self).room(room_id) matches Some(t) && same_room(t, room))
                        &&& admitted ==> {
                            &&& r == Ok::<u128, String>(participant_id)
                            &&& final(self).room(room_id) matches Some(t) && t.participant(participant_id) == Some(
                                Participant {
                                    id: participant_id,
                                    user_uri: call_id,
                                    display_name: Some(name),
                                    joined_at: now,
                                    is_muted: false,
                                    is_moderator: role == ParticipantRole::Moderator,
                                    audio_codec: None,
                                },
                            )
                            &&& final(self).membership(call_id@) matches Some(m) && m.room_id == room_id
                                && m.participant_id == participant_id
                            &&& forall|k: Seq<char>| k != call_id@ ==> final(self).membership(k) == old(self).membership(k)
                        }
                    },
                },
            },
    {
        let i = match self.rooms.find(&room_id) {
            Some(i) => i,
            None => return Err(String::from_str("Conference room not found")),
        };
        match &pin {
            Some(p) => {
                if !self.rooms.at(i).verify_pin(p.as_str()) {
                    return Err(String::from_str("Invalid PIN"));
                }
            },
            None => {
                if self.rooms.at(i).pin.is_some() {
                    return Err(String::from_str("PIN required"));
                }
            },
        }
        let participant = Participant::new_at(
            participant_id,
            call_id.clone(),
            Some(name),
            role == ParticipantRole::Moderator,
            now,
        );
        let mut room = self.rooms.take_at(i);
        let ghost before = room;
        let added = room.add_participant_at(participant, now);
        self.rooms.put_at(i, room);
        match added {
            Ok(()) => {
                self.call_participants.insert(CallMembership { call_id, room_id, participant_id });
                Ok(participant_id)
            },
            Err(e) => {
                proof {
                    assert(same_room(room, before));
                }
                Err(e)
            },
        }
    }

    /// A call joins a room now, as a new participant.
    pub fn join_conference(
        &mut self,
        room_id: u128,
        call_id: String,
        name: String,
        role: ParticipantRole,
        pin: Option<String>,
    ) -> (r: Result<u128, String>)
        requires
            old(self).wf(),
        ensures
            final(self).wf(),
            old(self).room(room_id) is None ==> (r matches Err(e) && room_missing(e)),
            r is Ok ==> (final(self).membership(call_id@) matches Some(m) && m.room_id == room_id),
            exists|now: i64, participant_id: u128| #![trigger clock_reading(now), is_v4_uuid(participant_id)] clock_reading(now) && is_v4_uuid(participant_id) && {
                &&& (forall|k: u128| k != room_id ==> final(self).room(k) == old(self).room(k))
                &&& (match old(self).room(room_id) {
                    None => r matches Err(e) && room_missing(e) && final(self).rooms == old(self).rooms
                        && final(self).call_participants == old(self).call_participants,
                    Some(room) => match pin {
                        Some(p) if !(room.pin matches Some(q) ==> q@ == p@) => r matches Err(e) && e@ == "Invalid PIN"@
                            && final(self).rooms == old(self).rooms && final(self).call_participants
                            == old(self).call_participants,
                        None if room.pin is Some => r matches Err(e) && e@ == "PIN required"@ && final(self).rooms
                            == old(self).rooms && final(self).call_participants == old(self).call_participants,
                        _ => {
                            let admitted = (room.state == ConferenceState::Waiting || room.state
                                == ConferenceState::Active) && room.participants.items().len() < room.max_participants;
                            &&& r is Ok <==> admitted
                            &&& !admitted ==> final(self).call_participants == old(self).call_participants
                                && (final(self).room(room_id) matches Some(t) && same_room(t, room))
                            &&& admitted ==> {
                                &&& r == Ok::<u128, String>(participant_id)
                                &&& final(self).room(room_id) matches Some(t) && t.participant(participant_id) == Some(
                                    Participant {
                                        id: participant_id,
                                        user_uri: call_id,
                                        display_name: Some(name),
                                        joined_at: now,
                                        is_muted: false,
                                        is_moderator: role == ParticipantRole::Moderator,
                                        audio_codec: None,
                                    },
                                )
                                &&& final(self).membership(call_id@) matches Some(m) && m.room_id == room_id
                                    && m.participant_id == participant_id
                                &&& forall|k: Seq<char>| k != call_id@ ==> final(self).membership(k) == old(self).membership(k)
                            }
                        },
                    },
                })
            },
    {
        let now = now_millis();
        let id = new_uuid();
        proof {
            assert(clock_reading(now));
        }
        self.join_conference_at(room_id, call_id, name, role, pin, id, now)
    }

    /// A call leaves its conference at `now`; a room that thereby ends is
    /// closed.
    pub fn leave_conference_at(&mut self, call_id: &str, now: i64) -> (r: Result<(), String>)
        requires
            old(self).wf(),
        ensures
            final(self).wf(),
            final(self).membership(call_id@) is None,
            forall|k: Seq<char>| k != call_id@ ==> final(self).membership(k) == old(self).membership(k),
            match old(self).membership(call_id@) {
                None => r matches Err(e) && call_missing(e) && final(self).rooms == old(self).rooms,
                Some(m) => match old(self).room(m.room_id) {
                    None => r is Ok && final(self).rooms == old(self).rooms,
                    Some(room) => match room.participant(m.participant_id) {
                        None => r matches Err(e) && e@ == "Participant not found"@ && (final(self).room(m.room_id)
                            matches Some(t) && same_room(t, room)),
                        Some(_) => {
                            &&& r is Ok
                            &&& room.participants.items().len() == 1 ==> final(self).room(m.room_id) is None
                            &&& final(self).room(m.room_id) matches Some(t) ==> t.participant(m.participant_id) is None
                                && t.state != ConferenceState::Ended
                        },
                    },
                },
            },
            forall|k: u128| (old(self).membership(call_id@) matches Some(m) ==> k != m.room_id) ==> final(self).room(k)
                == old(self).room(k),
    {
        let m = match self.call_participants.remove(call_id) {
            Some(m) => m,
            None => return Err(String::from_str("Call not in conference")),
        };
        let i = match self.rooms.find(&m.room_id) {
            Some(i) => i,
            None => return Ok(()),
        };
        let mut room = self.rooms.take_at(i);
        let ghost before = room;
        let left = room.remove_participant_at(m.participant_id, now);
        let ended = room.state == ConferenceState::Ended;
        match left {
            Ok(()) => {
                if !ended {
                    self.rooms.put_at(i, room);
                }
                Ok(())
            },
            Err(e) => {
                proof {
                    assert(same_room(room, before));
                }
                self.rooms.put_at(i, room);
                Err(e)
            },
        }
    }

    /// A call leaves its conference now.
    pub fn leave_conference(&mut self, call_id: &str) -> (r: Result<(), String>)
        requires
            old(self).wf(),
        ensures
            final(self).wf(),
            final(self).membership(call_id@) is None,
            old(self).membership(call_id@) is None ==> (r matches Err(e) && call_missing(e)),
            exists|now: i64| #[trigger] clock_reading(now) && {
                &&& (final(self).membership(call_id@) is None)
                &&& (forall|k: Seq<char>| k != call_id@ ==> final(self).membership(k) == old(self).membership(k))
                &&& (match old(self).membership(call_id@) {
                    None => r matches Err(e) && call_missing(e) && final(self).rooms == old(self).rooms,
                    Some(m) => match old(self).room(m.room_id) {
                        None => r is Ok && final(self).rooms == old(self).rooms,
                        Some(room) => match room.participant(m.participant_id) {
                            None => r matches Err(e) && e@ == "Participant not found"@ && (final(self).room(m.room_id)
                                matches Some(t) && same_room(t, room)),
                            Some(_) => {
                                &&& r is Ok
                                &&& room.participants.items().len() == 1 ==> final(self).room(m.room_id) is None
                                &&& final(self).room(m.room_id) matches Some(t) ==> t.participant(m.participant_id) is None
                                    && t.state != ConferenceState::Ended
                            },
                        },
                    },
                })
                &&& (forall|k: u128| (old(self).membership(call_id@) matches Some(m) ==> k != m.room_id) ==> final(self).room(k)
                    == old(self).room(k))
            },
    {
        let now = now_millis();
        proof {
            assert(clock_reading(now));
        }
        self.leave_conference_at(call_id, now)
    }

    fn set_muted(&mut self, call_id: &str, muted: bool) -> (r: Result<(), String>)
        requires
            old(self).wf(),
        ensures
            final(self).wf(),
            final(self).call_participants == old(self).call_participants,
            match old(self).membership(call_id@) {
                None => r matches Err(e) && call_missing(e) && final(self).rooms == old(self).rooms,
                Some(m) => {
                    &&& forall|k: u128| k != m.room_id ==> final(self).room(k) == old(self).room(k)
                    &&& match old(self).room(m.room_id) {
                        None => r is Ok && final(self).rooms == old(self).rooms,
                        Some(room) => match room.participant(m.participant_id) {
                            None => r matches Err(e) && e@ == "Participant not found"@,
                            Some(p) => r is Ok && (final(self).room(m.room_id) matches Some(t) && t.participant(
                                m.participant_id,
                            ) == Some(Participant { is_muted: muted, ..p })),
                        },
                    }
                },
            },
    {
        let (room_id, participant_id) = match self.call_participants.get(call_id) {
            Some(m) => (m.room_id, m.participant_id),
            None => return Err(String::from_str("Call not in conference")),
        };
        match self.rooms.find(&room_id) {
            Some(i) => {
                let mut room = self.rooms.take_at(i);
                let res = if muted {
                    room.mute_participant(participant_id)
                } else {
                    room.unmute_participant(participant_id)
                };
                self.rooms.put_at(i, room);
                res
            },
            None => Ok(()),
        }
    }

    /// Mutes the participant a call stands for.
    pub fn mute_participant(&mut self, call_id: &str) -> (r: Result<(), String>)
        requires
            old(self).wf(),
        ensures
            final(self).wf(),
            old(self).membership(call_id@) is None ==> (r matches Err(e) && call_missing(e)),
            old(self).membership(call_id@) matches Some(m) ==> (old(self).room(m.room_id) matches Some(room)
                ==> (room.participant(m.participant_id) matches Some(p) ==> final(self).room(m.room_id) matches Some(
                t) && t.participant(m.participant_id) == Some(Participant { is_muted: true, ..p }))),
    {
        self.set_muted(call_id, true)
    }

    /// Unmutes the participant a call stands for.
    pub fn unmute_participant(&mut self, call_id: &str) -> (r: Result<(), String>)
        requires
            old(self).wf(),
        ensures
            final(self).wf(),
            old(self).membership(call_id@) is None ==> (r matches Err(e) && call_missing(e)),
            old(self).membership(call_id@) matches Some(m) ==> (old(self).room(m.room_id) matches Some(room)
                ==> (room.participant(m.participant_id) matches Some(p) ==> final(self).room(m.room_id) matches Some(
                t) && t.participant(m.participant_id) == Some(Participant { is_muted: false, ..p }))),
    {
        self.set_muted(call_id, false)
    }

    /// Ends a room at `now` (it is closed once its last participant leaves).
    pub fn end_conference_at(&mut self, room_id: u128, now: i64) -> (r: Result<(), String>)
        requires
            old(self).wf(),
        ensures
            final(self).wf(),
            final(self).call_participants == old(self).call_participants,
            forall|k: u128| k != room_id ==> final(self).room(k) == old(self).room(k),
            match old(self).room(room_id) {
                None => r matches Err(e) && room_missing(e) && final(self).rooms == old(self).rooms,
                Some(room) => r is Ok && (final(self).room(room_id) matches Some(t) && ended_room_fields(t, room, now)
                    && t.participants.items() == room.participants.items()),
            },
    {
        match self.rooms.find(&room_id) {
            Some(i) => {
                let mut room = self.rooms.take_at(i);
                room.end_at(now);
                self.rooms.put_at(i, room);
                Ok(())
            },
            None => Err(String::from_str("Conference room not found")),
        }
    }

    /// Ends a room now.
    pub fn end_conference(&mut self, room_id: u128) -> (r: Result<(), String>)
        requires
            old(self).wf(),
        ensures
            final(self).wf(),
            r is Ok <==> old(self).room(room_id) is Some,
            r is Ok ==> (final(self).room(room_id) matches Some(t) && t.state == ConferenceState::Ended),
            exists|now: i64| #[trigger] clock_reading(now) && {
                &&& (final(self).call_participants == old(self).call_participants)
                &&& (forall|k: u128| k != room_id ==> final(self).room(k) == old(self).room(k))
                &&& (match old(self).room(room_id) {
                    None => r matches Err(e) && room_missing(e) && final(self).rooms == old(self).rooms,
                    Some(room) => r is Ok && (final(self).room(room_id) matches Some(t) && ended_room_fields(t, room, now)
                        && t.participants.items() == room.participants.items()),
                })
            },
    {
        let now = now_millis();
        proof {
            assert(clock_reading(now));
        }
        self.end_conference_at(room_id, now)
    }

    fn set_locked(&mut self, room_id: u128, locked: bool) -> (r: Result<(), String>)
        requires
            old(self).wf(),
        ensures
            final(self).wf(),
            final(self).call_participants == old(self).call_participants,
            forall|k: u128| k != room_id ==> final(self).room(k) == old(self).room(k),
            match old(self).room(room_id) {
                None => r matches Err(e) && room_missing(e) && final(self).rooms == old(self).rooms,
                Some(room) => r is Ok && final(self).room(room_id) == Some(
                    ConferenceRoom {
                        state: if locked { state_after_lock(room.state) } else { state_after_unlock(room.state) },
                        ..room
                    },
                ),
            },
    {
        match self.rooms.find(&room_id) {
            Some(i) => {
                let mut room = self.rooms.take_at(i);
                if locked {
                    room.lock();
                } else {
                    room.unlock();
                }
                self.rooms.put_at(i, room);
                Ok(())
            },
            None => Err(String::from_str("Conference room not found")),
        }
    }

    /// Closes a running room to newcomers.
    pub fn lock_conference(&mut self, room_id: u128) -> (r: Result<(), String>)
        requires
            old(self).wf(),
        ensures
            final(self).wf(),
            r is Ok <==> old(self).room(room_id) is Some,
            old(self).room(room_id) matches Some(room) ==> final(self).room(room_id) == Some(
                ConferenceRoom { state: state_after_lock(room.state), ..room },
            ),
    {
        self.set_locked(room_id, true)
    }

    /// Opens a locked room again.
    pub fn unlock_conference(&mut self, room_id: u128) -> (r: Result<(), String>)
        requires
            old(self).wf(),
        ensures
            final(self).wf(),
            r is Ok <==> old(self).room(room_id) is Some,
            old(self).room(room_id) matches Some(room) ==> final(self).room(room_id) == Some(
                ConferenceRoom { state: state_after_unlock(room.state), ..room },
            ),
    {
        self.set_locked(room_id, false)
    }

    /// The number of active or locked rooms.
    pub fn active_conference_count(&self) -> (r: usize)
        ensures
            r == count_running(self.rooms.items()),
    {
        let ghost rs = self.rooms.items();
        let mut n: usize = 0;
        let mut i: usize = 0;
        while i < self.rooms.len()
            invariant
                rs == self.rooms.items(),
                i <= rs.len(),
                n == count_running(rs.take(i as int)),
            decreases rs.len() - i,
        {
            proof {
                assert(rs.take(i + 1).drop_last() =~= rs.take(i as int));
                lemma_count_running_bound(rs.take(i as int));
            }
            let st = self.rooms.at(i).state;
            if st == ConferenceState::Active || st == ConferenceState::Locked {
                n = n + 1;
            }
            i = i + 1;
        }
        assert(rs.take(i as int) =~= rs);
        n
    }

    pub fn participant_count(&self, room_id: u128) -> (r: Result<usize, String>)
        requires
            self.wf(),
        ensures
            match self.room(room_id) {
                Some(room) => r == Ok::<usize, String>(room.participants.items().len() as usize),
                None => r matches Err(e) && room_missing(e),
            },
    {
        match self.rooms.get(&room_id) {
            Some(room) => Ok(room.participant_count()),
            None => Err(String::from_str("Conference room not found")),
        }
    }

    pub fn is_in_conference(&self, call_id: &str) -> (r: bool)
        requires
            self.wf(),
        ensures
            r == (self.membership(call_id@) is Some),
    {
        self.call_participants.find(call_id).is_some()
    }

    pub fn get_conference_for_call(&self, call_id: &str) -> (r: Option<u128>)
        requires
            self.wf(),
        ensures
            r == match self.membership(call_id@) {
                Some(m) => Some(m.room_id),
                None => None,
            },
    {
        match self.call_participants.get(call_id) {
            Some(m) => Some(m.room_id),
            None => None,
        }
    }

    /// Copies of the active or locked rooms, in the order they were opened.
    pub fn list_active_conferences(&self) -> (r: Vec<ConferenceRoom>)
        requires
            self.wf(),
        ensures
            r@.len() == count_running(self.rooms.items()),
            forall|i: int| 0 <= i < r@.len() ==> is_running(#[trigger] r@[i]) && exists|j: int|
                0 <= j < self.rooms.items().len() && same_room(r@[i], self.rooms.items()[j]),
    {
        let ghost rs = self.rooms.items();
        let mut out: Vec<ConferenceRoom> = Vec::new();
        let mut i: usize = 0;
        while i < self.rooms.len()
            invariant
                rs == self.rooms.items(),
                self.rooms.wf(),
                i <= rs.len(),
                out@.len() == count_running(rs.take(i as int)),
                forall|k: int| 0 <= k < out@.len() ==> is_running(#[trigger] out@[k]) && exists|j: int|
                    0 <= j < rs.len() && same_room(out@[k], rs[j]),
            decreases rs.len() - i,
        {
            proof {
                assert(rs.take(i + 1).drop_last() =~= rs.take(i as int));
            }
            let room = self.rooms.at(i);
            if room.state == ConferenceState::Active || room.state == ConferenceState::Locked {
                let copy = room.duplicate();
                proof {
                    assert(same_room(copy, rs[i as int]));
                }
                out.push(copy);
            }
            i = i + 1;
        }
        assert(rs.take(i as int) =~= rs);
        out
    }
}

impl Default for ConferenceManager {
    fn default() -> (r: Self)
        ensures
            r.wf(),
            r.rooms.items().len() == 0,
            r.call_participants.items().len() == 0,
    {
        ConferenceManager::new()
    }
}

} // verus!
