//! Announcements played into calls: the requests (what to say, in which
//! language, when, how often), the ones playing per call and the ones
//! waiting for their time. Times are milliseconds on a steady clock.
use vstd::prelude::*;
use std::sync::Arc;
use crate::domain::audio::manager::{AudioFileManager, Language};
use crate::domain::audio::player::{spec_fresh, PlaybackOptions, StreamingAudioPlayer};
use crate::domain::audio::sequence::{SequenceBuilder, SequentialPlayer};
use crate::domain::audio::wav::WavFile;
use crate::domain::shared::system::{clock_reading, is_v4_uuid, new_uuid, now_millis};
use crate::store::{KeyOf, Keyed, Store};
use crate::text::{decimal, str_eq, u64_to_string};

verus! {

/// Announcement type
#[derive(Debug, Clone, Copy, PartialEq, Eq, Hash, Structural)]
pub enum AnnouncementType {
    /// Queue position announcement
    QueuePosition,
    /// Estimated wait time
    WaitTime,
    /// Periodic announcement in queue
    Periodic,
    /// Welcome message
    Welcome,
    /// Goodbye message
    Goodbye,
    /// Custom announcement
    Custom,
}

/// Announcement request; `play_at` is a time on the steady clock and
/// `repeat_interval` a span, both in milliseconds.
#[derive(Debug, Clone)]
pub struct AnnouncementRequest {
    pub id: u128,
    pub call_id: String,
    pub announcement_type: AnnouncementType,
    pub audio_files: Vec<String>,
    pub language: Language,
    pub play_at: Option<i64>,
    pub repeat_interval: Option<u64>,
}

impl AnnouncementRequest {
    /// A request to play nothing yet, immediately, in English, once.
    pub fn new_at(id: u128, call_id: String, announcement_type: AnnouncementType) -> (r: Self)
        ensures
            r.id == id && r.call_id == call_id && r.announcement_type == announcement_type,
            r.audio_files@.len() == 0,
            r.language == Language::En,
            r.play_at is None && r.repeat_interval is None,
    {
        AnnouncementRequest {
            id,
            call_id,
            announcement_type,
            audio_files: Vec::new(),
            language: Language::En,
            play_at: None,
            repeat_interval: None,
        }
    }

    /// A new request with a fresh identifier.
    pub fn new(call_id: String, announcement_type: AnnouncementType) -> (r: Self)
        ensures
            is_v4_uuid(r.id),
            r.call_id == call_id && r.announcement_type == announcement_type,
            r.audio_files@.len() == 0,
            r.language == Language::En,
            r.play_at is None && r.repeat_interval is None,
    {
        let id = new_uuid();
        Self::new_at(id, call_id, announcement_type)
    }

    /// The request with one more file to play, last.
    pub fn add_audio(self, file_id: &str) -> (r: Self)
        ensures
            r.audio_files@.len() == self.audio_files@.len() + 1,
            r.audio_files@.drop_last() == self.audio_files@,
            r.audio_files@.last()@ == file_id@,
            r.id == self.id && r.call_id == self.call_id && r.announcement_type == self.announcement_type,
            r.language == self.language && r.play_at == self.play_at && r.repeat_interval == self.repeat_interval,
    {
        let mut r = self;
        r.audio_files.push(file_id.to_string());
        r
    }

    pub fn with_language(self, language: Language) -> (r: Self)
        ensures
            r == (AnnouncementRequest { language, ..self }),
    {
        let mut r = self;
        r.language = language;
        r
    }

    /// The request to be played at once.
    pub fn immediate(self) -> (r: Self)
        ensures
            r == (AnnouncementRequest { play_at: None, ..self }),
    {
        let mut r = self;
        r.play_at = None;
        r
    }

    /// The request to be played at `when`.
    pub fn at(self, when: i64) -> (r: Self)
        ensures
            r == (AnnouncementRequest { play_at: Some(when), ..self }),
    {
        let mut r = self;
        r.play_at = Some(when);
        r
    }

    /// The request to be played again every `interval_ms`.
    pub fn repeat_every(self, interval_ms: u64) -> (r: Self)
        ensures
            r == (AnnouncementRequest { repeat_interval: Some(interval_ms), ..self }),
    {
        let mut r = self;
        r.repeat_interval = Some(interval_ms);
        r
    }
}

/// An announcement being played: its request, its player, when it started
/// and when it plays again.
pub struct ActiveAnnouncement {
    pub request: AnnouncementRequest,
    pub player: StreamingAudioPlayer,
    pub started_at: i64,
    pub next_play_at: Option<i64>,
}

/// The announcements playing into one call, first first.
pub struct CallAnnouncements {
    pub call_id: String,
    pub announcements: Vec<ActiveAnnouncement>,
}

impl Keyed for CallAnnouncements {
    type Key = str;

    open spec fn key(&self) -> Seq<char> {
        self.call_id@
    }

    /// Every player is as fresh as when it was made: players come from a
    /// sequence without taking its files over, and are never started.
    open spec fn inv(&self) -> bool {
        forall|i: int| 0 <= i < self.announcements@.len() ==> (#[trigger] self.announcements@[i]).player@ == spec_fresh(
            PlaybackOptions::spec_default(),
        )
    }

    fn key_ref(&self) -> (r: &str) {
        let r = self.call_id.as_str();
        assert(r.kv() == r@);
        r
    }
}

/// The number of the audio file that says a number: `number_` and its digits.
pub open spec fn number_audio_id(n: nat) -> Seq<char> {
    "number_"@ + decimal(n)
}

/// Whether a file can be found for an announcement: in its language or the
/// manager's default one.
pub open spec fn found(m: AudioFileManager, file: Seq<char>, language: Language) -> bool {
    m.prompt(file, language) is Some || m.prompt(file, m.spec_default_language()) is Some
}

/// The first file of a request that cannot be found, if any.
pub open spec fn first_missing(m: AudioFileManager, files: Seq<String>, language: Language) -> Option<int>
    decreases files.len(),
{
    if files.len() == 0 {
        None
    } else if !found(m, files[0]@, language) {
        Some(0int)
    } else {
        match first_missing(m, files.drop_first(), language) {
            Some(j) => Some(j + 1),
            None => None,
        }
    }
}

proof fn lemma_first_missing(m: AudioFileManager, files: Seq<String>, language: Language)
    ensures
        first_missing(m, files, language) matches Some(i) ==> 0 <= i < files.len(),
    decreases files.len(),
{
    if files.len() > 0 {
        lemma_first_missing(m, files.drop_first(), language);
    }
}

/// A player taking over a sequence: a fresh streaming player with the
/// standard options (the sequence's files are not taken over).
pub fn streaming_from_sequence(player: SequentialPlayer) -> (r: StreamingAudioPlayer)
    ensures
        r@ == spec_fresh(PlaybackOptions::spec_default()),
{
    let _ = player;
    StreamingAudioPlayer::new()
}

/// Call announcer: the announcements playing per call and those waiting.
pub struct CallAnnouncer {
    audio_manager: Arc<AudioFileManager>,
    active: Store<CallAnnouncements>,
    scheduled: Vec<AnnouncementRequest>,
}

impl CallAnnouncer {
    pub closed spec fn spec_audio(&self) -> AudioFileManager {
        *self.audio_manager
    }

    pub closed spec fn spec_active(&self) -> Store<CallAnnouncements> {
        self.active
    }

    pub closed spec fn spec_scheduled(&self) -> Seq<AnnouncementRequest> {
        self.scheduled@
    }

    pub open spec fn wf(&self) -> bool {
        self.spec_active().wf() && self.spec_audio().wf()
    }

    /// The announcements playing into a call.
    pub open spec fn active_for(&self, call_id: Seq<char>) -> Seq<ActiveAnnouncement> {
        match self.spec_active().get_spec(call_id) {
            Some(c) => c.announcements@,
            None => Seq::empty(),
        }
    }

    pub fn new(audio_manager: Arc<AudioFileManager>) -> (r: Self)
        requires
            audio_manager.wf(),
        ensures
            r.wf(),
            r.spec_audio() == *audio_manager,
            r.spec_active().items().len() == 0,
            r.spec_scheduled().len() == 0,
    {
        CallAnnouncer { audio_manager, active: Store::new(), scheduled: Vec::new() }
    }

    /// A player for a request: every file looked up in the request's
    /// language or else the default one; the first missing file is an error.
    fn create_player(&self, request: &AnnouncementRequest) -> (r: Result<StreamingAudioPlayer, String>)
        requires
            self.wf(),
        ensures
            match first_missing(self.spec_audio(), request.audio_files@, request.language) {
                Some(i) => r matches Err(e) && e@ == "Audio file not found: "@ + request.audio_files@[i]@,
                None => r matches Ok(p) && p@ == spec_fresh(PlaybackOptions::spec_default()),
            },
    {
        let mut builder = SequenceBuilder::new();
        let mut i: usize = 0;
        let ghost files = request.audio_files@;
        assert(files.skip(0) =~= files);
        while i < request.audio_files.len()
            invariant
                self.wf(),
                files == request.audio_files@,
                i <= files.len(),
                first_missing(self.spec_audio(), files, request.language) == shifted_missing(
                    first_missing(self.spec_audio(), files.skip(i as int), request.language),
                    i as int,
                ),
            decreases files.len() - i,
        {
            let ghost rest = files.skip(i as int);
            assert(rest[0] == files[i as int]);
            assert(rest.drop_first() =~= files.skip(i + 1));
            match self.audio_manager.get_with_fallback(request.audio_files[i].as_str(), request.language) {
                Some(audio) => {
                    builder = builder.add(audio);
                },
                None => {
                    let mut e = String::from_str("Audio file not found: ");
                    e.append(request.audio_files[i].as_str());
                    return Err(e);
                },
            }
            i = i + 1;
        }
        builder = builder.allow_interrupt(true);
        let player = builder.build();
        Ok(streaming_from_sequence(player))
    }
}

/// A first missing file found from position `from` on, given relative to
/// the whole list.
pub open spec fn shifted_missing(o: Option<int>, from: int) -> Option<int> {
    match o {
        Some(j) => Some(j + from),
        None => None,
    }
}

/// A request is due at `now`: it has a time and the time has come.
pub open spec fn is_due(r: AnnouncementRequest, now: i64) -> bool {
    r.play_at matches Some(t) && now >= t
}

/// A request's repeats can be timed from `now` without passing the clock's end.
pub open spec fn repeat_fits(r: AnnouncementRequest, now: i64) -> bool {
    r.repeat_interval matches Some(iv) ==> now + iv <= i64::MAX
}

/// The number of requests among `reqs` for call `k` whose files can all be found.
pub open spec fn playable_for(m: AudioFileManager, reqs: Seq<AnnouncementRequest>, k: Seq<char>) -> int
    decreases reqs.len(),
{
    if reqs.len() == 0 {
        0
    } else {
        playable_for(m, reqs.drop_last(), k) + if reqs.last().call_id@ == k && first_missing(
            m,
            reqs.last().audio_files@,
            reqs.last().language,
        ) is None {
            1int
        } else {
            0int
        }
    }
}

impl CallAnnouncer {
    /// The audio file that says a number.
    pub fn number_to_audio_id(number: usize) -> (r: String)
        ensures
            r@ == number_audio_id(number as nat),
    {
        let mut s = String::from_str("number_");
        let d = u64_to_string(number as u64);
        s.append(d.as_str());
        s
    }

    /// Plays a request at `now`: one timed for later waits; the others start
    /// at once, with a fresh player, repeating from `now` on if they repeat.
    pub fn play_announcement_at(&mut self, request: AnnouncementRequest, now: i64) -> (r: Result<u128, String>)
        requires
            old(self).wf(),
            repeat_fits(request, now),
        ensures
            final(self).wf(),
            final(self).spec_audio() == old(self).spec_audio(),
            (request.play_at matches Some(t) && t > now) ==> {
                &&& r == Ok::<u128, String>(request.id)
                &&& final(self).spec_scheduled() == old(self).spec_scheduled().push(request)
                &&& final(self).spec_active() == old(self).spec_active()
            },
            !(request.play_at matches Some(t) && t > now) ==> {
                &&& final(self).spec_scheduled() == old(self).spec_scheduled()
                &&& match first_missing(old(self).spec_audio(), request.audio_files@, request.language) {
                    Some(i) => r matches Err(e) && e@ == "Audio file not found: "@ + request.audio_files@[i]@
                        && final(self).spec_active() == old(self).spec_active(),
                    None => {
                        let now_playing = final(self).active_for(request.call_id@);
                        &&& r == Ok::<u128, String>(request.id)
                        &&& now_playing.len() == old(self).active_for(request.call_id@).len() + 1
                        &&& now_playing.drop_last() == old(self).active_for(request.call_id@)
                        &&& now_playing.last().request == request
                        &&& now_playing.last().player@ == spec_fresh(PlaybackOptions::spec_default())
                        &&& now_playing.last().started_at == now
                        &&& now_playing.last().next_play_at == match request.repeat_interval {
                            Some(iv) => Some((now + iv) as i64),
                            None => None,
                        }
                        &&& forall|k: Seq<char>| k != request.call_id@ ==> final(self).active_for(k) == old(self).active_for(k)
                    },
                }
            },
    {
        let request_id = request.id;
        match request.play_at {
            Some(t) => {
                if t > now {
                    self.scheduled.push(request);
                    return Ok(request_id);
                }
            },
            None => {},
        }
        proof {
            lemma_first_missing(self.spec_audio(), request.audio_files@, request.language);
        }
        let player = match self.create_player(&request) {
            Ok(p) => p,
            Err(e) => return Err(e),
        };
        let next_play_at = match request.repeat_interval {
            Some(iv) => Some((now as i128 + iv as i128) as i64),
            None => None,
        };
        let call_id = request.call_id.clone();
        let announcement = ActiveAnnouncement { request, player, started_at: now, next_play_at };
        match self.active.find(call_id.as_str()) {
            Some(i) => {
                let mut entry = self.active.take_at(i);
                let ghost before = entry.announcements@;
                entry.announcements.push(announcement);
                proof {
                    assert(entry.announcements@.drop_last() =~= before);
                    assert forall|j: int| 0 <= j < entry.announcements@.len() implies (#[trigger] entry.announcements@[j]).player@ == spec_fresh(PlaybackOptions::spec_default()) by {
                        if j < before.len() {
                            assert(entry.announcements@[j] == before[j]);
                        }
                    }
                }
                self.active.put_at(i, entry);
            },
            None => {
                let mut list: Vec<ActiveAnnouncement> = Vec::new();
                list.push(announcement);
                proof {
                    assert(list@.drop_last() =~= Seq::<ActiveAnnouncement>::empty());
                }
                self.active.push_new(CallAnnouncements { call_id, announcements: list });
            },
        }
        Ok(request_id)
    }

    /// Plays a request now.
    pub fn play_announcement(&mut self, request: AnnouncementRequest) -> (r: Result<u128, String>)
        requires
            old(self).wf(),
            request.repeat_interval matches Some(iv) ==> iv <= i64::MAX / 2,
        ensures
            final(self).wf(),
            r matches Ok(id) ==> id == request.id,
            r matches Err(e) ==> (request.repeat_interval is Some && e@ == "Clock beyond the range of repeat times"@)
                || (first_missing(old(self).spec_audio(), request.audio_files@, request.language) matches Some(i)
                && e@ == "Audio file not found: "@ + request.audio_files@[i]@),
            request.repeat_interval is None && first_missing(old(self).spec_audio(), request.audio_files@, request.language)
                is None ==> r == Ok::<u128, String>(request.id),
    {
        let now = now_millis();
        if request.repeat_interval.is_some() && now > i64::MAX / 2 {
            return Err(String::from_str("Clock beyond the range of repeat times"));
        }
        self.play_announcement_at(request, now)
    }
}

/// The announcement plays: every one of its files can be found.
pub open spec fn playable(m: AudioFileManager, files: Seq<String>, language: Language) -> bool {
    first_missing(m, files, language) is None
}

impl CallAnnouncer {
    /// Says a caller's place in the queue at `now`: "you are caller",
    /// the number, "in queue".
    pub fn announce_position_at(&mut self, call_id: String, position: usize, language: Language, id: u128, now: i64) -> (r:
        Result<u128, String>)
        requires
            old(self).wf(),
        ensures
            final(self).wf(),
            final(self).spec_scheduled() == old(self).spec_scheduled(),
            r is Ok <==> (found(old(self).spec_audio(), "queue_you_are_caller"@, language) && found(
                old(self).spec_audio(),
                number_audio_id(position as nat),
                language,
            ) && found(old(self).spec_audio(), "queue_in_queue"@, language)),
            r is Ok ==> r == Ok::<u128, String>(id) && final(self).active_for(call_id@).len() == old(self).active_for(
                call_id@,
            ).len() + 1 && final(self).active_for(call_id@).last().request.announcement_type
                == AnnouncementType::QueuePosition,
    {
        let number = Self::number_to_audio_id(position);
        let request = AnnouncementRequest::new_at(id, call_id, AnnouncementType::QueuePosition).with_language(
            language,
        ).add_audio("queue_you_are_caller").add_audio(number.as_str()).add_audio("queue_in_queue").immediate();
        proof {
            let f = request.audio_files@;
            assert(f[2] == f.last());
            assert(f[1] == f.drop_last().last());
            assert(f[0] == f.drop_last().drop_last().last());
            lemma_three_files(old(self).spec_audio(), f, language);
        }
        self.play_announcement_at(request, now)
    }

    /// Says the expected wait at `now`: "your wait time is", the number,
    /// "minute" or "minutes".
    pub fn announce_wait_time_at(&mut self, call_id: String, minutes: usize, language: Language, id: u128, now: i64) -> (r:
        Result<u128, String>)
        requires
            old(self).wf(),
        ensures
            final(self).wf(),
            final(self).spec_scheduled() == old(self).spec_scheduled(),
            r is Ok <==> (found(old(self).spec_audio(), "queue_wait_time_is"@, language) && found(
                old(self).spec_audio(),
                number_audio_id(minutes as nat),
                language,
            ) && found(old(self).spec_audio(), if minutes == 1 { "minute"@ } else { "minutes"@ }, language)),
            r is Ok ==> r == Ok::<u128, String>(id) && final(self).active_for(call_id@).len() == old(self).active_for(
                call_id@,
            ).len() + 1 && final(self).active_for(call_id@).last().request.announcement_type == AnnouncementType::WaitTime,
    {
        let number = Self::number_to_audio_id(minutes);
        let unit = if minutes == 1 { "minute" } else { "minutes" };
        let request = AnnouncementRequest::new_at(id, call_id, AnnouncementType::WaitTime).with_language(
            language,
        ).add_audio("queue_wait_time_is").add_audio(number.as_str()).add_audio(unit).immediate();
        proof {
            let f = request.audio_files@;
            assert(f[2] == f.last());
            assert(f[1] == f.drop_last().last());
            assert(f[0] == f.drop_last().drop_last().last());
            lemma_three_files(old(self).spec_audio(), f, language);
        }
        self.play_announcement_at(request, now)
    }

    /// Greets a caller at `now`.
    pub fn announce_welcome_at(&mut self, call_id: String, language: Language, id: u128, now: i64) -> (r: Result<
        u128,
        String,
    >)
        requires
            old(self).wf(),
        ensures
            final(self).wf(),
            final(self).spec_scheduled() == old(self).spec_scheduled(),
            r is Ok <==> found(old(self).spec_audio(), "welcome"@, language),
            r is Ok ==> r == Ok::<u128, String>(id) && final(self).active_for(call_id@).len() == old(self).active_for(
                call_id@,
            ).len() + 1 && final(self).active_for(call_id@).last().request.announcement_type == AnnouncementType::Welcome,
    {
        let request = AnnouncementRequest::new_at(id, call_id, AnnouncementType::Welcome).with_language(
            language,
        ).add_audio("welcome").immediate();
        proof {
            let f = request.audio_files@;
            assert(f[0] == f.last());
            lemma_one_file(old(self).spec_audio(), f, language);
        }
        self.play_announcement_at(request, now)
    }

    /// Says a caller's place in the queue now.
    pub fn announce_position(&mut self, call_id: String, position: usize, language: Language) -> (r: Result<u128, String>)
        requires
            old(self).wf(),
        ensures
            final(self).wf(),
            final(self).spec_scheduled() == old(self).spec_scheduled(),
            r is Ok <==> (found(old(self).spec_audio(), "queue_you_are_caller"@, language) && found(
                old(self).spec_audio(),
                number_audio_id(position as nat),
                language,
            ) && found(old(self).spec_audio(), "queue_in_queue"@, language)),
            r matches Ok(id) ==> is_v4_uuid(id) && final(self).active_for(call_id@).len() == old(self).active_for(
                call_id@,
            ).len() + 1 && final(self).active_for(call_id@).last().request.announcement_type
                == AnnouncementType::QueuePosition,
            exists|now: i64, id: u128| #![trigger clock_reading(now), is_v4_uuid(id)] clock_reading(now) && is_v4_uuid(id) && {
                &&& (final(self).spec_scheduled() == old(self).spec_scheduled())
                &&& (r is Ok <==> (found(old(self).spec_audio(), "queue_you_are_caller"@, language) && found(
                    old(self).spec_audio(),
                    number_audio_id(position as nat),
                    language,
                ) && found(old(self).spec_audio(), "queue_in_queue"@, language)))
                &&& (r is Ok ==> r == Ok::<u128, String>(id) && final(self).active_for(call_id@).len() == old(self).active_for(
                    call_id@,
                ).len() + 1 && final(self).active_for(call_id@).last().request.announcement_type
                    == AnnouncementType::QueuePosition)
            },
    {
        let now = now_millis();
        let id = new_uuid();
        proof {
            assert(clock_reading(now));
        }
        self.announce_position_at(call_id, position, language, id, now)
    }

    /// Says the expected wait now.
    pub fn announce_wait_time(&mut self, call_id: String, minutes: usize, language: Language) -> (r: Result<u128, String>)
        requires
            old(self).wf(),
        ensures
            final(self).wf(),
            final(self).spec_scheduled() == old(self).spec_scheduled(),
            r is Ok <==> (found(old(self).spec_audio(), "queue_wait_time_is"@, language) && found(
                old(self).spec_audio(),
                number_audio_id(minutes as nat),
                language,
            ) && found(old(self).spec_audio(), if minutes == 1 { "minute"@ } else { "minutes"@ }, language)),
            r matches Ok(id) ==> is_v4_uuid(id) && final(self).active_for(call_id@).len() == old(self).active_for(
                call_id@,
            ).len() + 1 && final(self).active_for(call_id@).last().request.announcement_type == AnnouncementType::WaitTime,
            exists|now: i64, id: u128| #![trigger clock_reading(now), is_v4_uuid(id)] clock_reading(now) && is_v4_uuid(id) && {
                &&& (final(self).spec_scheduled() == old(self).spec_scheduled())
                &&& (r is Ok <==> (found(old(self).spec_audio(), "queue_wait_time_is"@, language) && found(
                    old(self).spec_audio(),
                    number_audio_id(minutes as nat),
                    language,
                ) && found(old(self).spec_audio(), if minutes == 1 { "minute"@ } else { "minutes"@ }, language)))
                &&& (r is Ok ==> r == Ok::<u128, String>(id) && final(self).active_for(call_id@).len() == old(self).active_for(
                    call_id@,
                ).len() + 1 && final(self).active_for(call_id@).last().request.announcement_type == AnnouncementType::WaitTime)
            },
    {
        let now = now_millis();
        let id = new_uuid();
        proof {
            assert(clock_reading(now));
        }
        self.announce_wait_time_at(call_id, minutes, language, id, now)
    }

    /// Greets a caller now.
    pub fn announce_welcome(&mut self, call_id: String, language: Language) -> (r: Result<u128, String>)
        requires
            old(self).wf(),
        ensures
            final(self).wf(),
            final(self).spec_scheduled() == old(self).spec_scheduled(),
            r is Ok <==> found(old(self).spec_audio(), "welcome"@, language),
            r matches Ok(id) ==> is_v4_uuid(id) && final(self).active_for(call_id@).len() == old(self).active_for(
                call_id@,
            ).len() + 1 && final(self).active_for(call_id@).last().request.announcement_type == AnnouncementType::Welcome,
            exists|now: i64, id: u128| #![trigger clock_reading(now), is_v4_uuid(id)] clock_reading(now) && is_v4_uuid(id) && {
                &&& (final(self).spec_scheduled() == old(self).spec_scheduled())
                &&& (r is Ok <==> found(old(self).spec_audio(), "welcome"@, language))
                &&& (r is Ok ==> r == Ok::<u128, String>(id) && final(self).active_for(call_id@).len() == old(self).active_for(
                    call_id@,
                ).len() + 1 && final(self).active_for(call_id@).last().request.announcement_type == AnnouncementType::Welcome)
            },
    {
        let now = now_millis();
        let id = new_uuid();
        proof {
            assert(clock_reading(now));
        }
        self.announce_welcome_at(call_id, language, id, now)
    }

    /// Stops everything playing or waiting for a call.
    pub fn stop_announcements(&mut self, call_id: &str)
        requires
            old(self).wf(),
        ensures
            final(self).wf(),
            final(self).active_for(call_id@).len() == 0,
            forall|k: Seq<char>| k != call_id@ ==> final(self).active_for(k) == old(self).active_for(k),
            final(self).spec_scheduled() == old(self).spec_scheduled().filter(|r: AnnouncementRequest| r.call_id@ != call_id@),
            final(self).spec_audio() == old(self).spec_audio(),
    {
        let _ = self.active.remove(call_id);
        let ghost all = self.scheduled@;
        let ghost f = |r: AnnouncementRequest| r.call_id@ != call_id@;
        let mut kept: Vec<AnnouncementRequest> = Vec::new();
        let mut rest: Vec<AnnouncementRequest> = Vec::new();
        std::mem::swap(&mut rest, &mut self.scheduled);
        let n = rest.len();
        let mut i: usize = 0;
        assert(all.take(0).filter(f) =~= Seq::<AnnouncementRequest>::empty());
        while rest.len() > 0
            invariant
                i + rest@.len() == n,
                n == all.len(),
                rest@ == all.skip(i as int),
                f == (|r: AnnouncementRequest| r.call_id@ != call_id@),
                kept@ == all.take(i as int).filter(f),
            decreases rest@.len(),
        {
            let req = rest.remove(0);
            assert(req == all[i as int]);
            proof {
                reveal(Seq::filter);
                assert(all.take(i + 1).drop_last() =~= all.take(i as int));
            }
            if !str_eq(req.call_id.as_str(), call_id) {
                kept.push(req);
            }
            i = i + 1;
            assert(rest@ =~= all.skip(i as int));
        }
        assert(all.take(i as int) =~= all);
        self.scheduled = kept;
    }

    /// Whether anything plays into a call.
    pub fn has_active_announcements(&self, call_id: &str) -> (r: bool)
        requires
            self.wf(),
        ensures
            r == (self.active_for(call_id@).len() > 0),
    {
        match self.active.get(call_id) {
            Some(c) => c.announcements.len() > 0,
            None => false,
        }
    }

    /// The number of announcements playing into a call.
    pub fn active_count(&self, call_id: &str) -> (r: usize)
        requires
            self.wf(),
        ensures
            r == self.active_for(call_id@).len(),
    {
        match self.active.get(call_id) {
            Some(c) => c.announcements.len(),
            None => 0,
        }
    }

    /// The number of announcements waiting for their time.
    pub fn scheduled_count(&self) -> (r: usize)
        ensures
            r == self.spec_scheduled().len(),
    {
        self.scheduled.len()
    }
}

proof fn lemma_three_files(m: AudioFileManager, f: Seq<String>, language: Language)
    requires
        f.len() == 3,
    ensures
        (first_missing(m, f, language) is None) == (found(m, f[0]@, language) && found(m, f[1]@, language) && found(
            m,
            f[2]@,
            language,
        )),
{
    reveal_with_fuel(first_missing, 4);
    assert(f.drop_first()[0] == f[1]);
    assert(f.drop_first().drop_first()[0] == f[2]);
    assert(f.drop_first().drop_first().drop_first().len() == 0);
}

proof fn lemma_one_file(m: AudioFileManager, f: Seq<String>, language: Language)
    requires
        f.len() == 1,
    ensures
        (first_missing(m, f, language) is None) == found(m, f[0]@, language),
{
    reveal_with_fuel(first_missing, 2);
    assert(f.drop_first().len() == 0);
}

impl CallAnnouncer {
    /// The next frame for a call at `now`, from its first announcement: a
    /// finished one plays again once its repeat time has come (with a new
    /// player) or is dropped if it does not repeat. The players made here
    /// hold no audio and are never started, so there is never a frame and
    /// nothing changes.
    pub fn get_next_frame_at(&mut self, call_id: &str, now: i64) -> (r: Option<(Vec<i16>, usize)>)
        requires
            old(self).wf(),
            forall|j: int| 0 <= j < old(self).active_for(call_id@).len() ==> repeat_fits(
                (#[trigger] old(self).active_for(call_id@)[j]).request,
                now,
            ),
        ensures
            final(self).wf(),
            r is None,
            forall|k: Seq<char>| #[trigger] final(self).active_for(k).len() == old(self).active_for(k).len(),
            final(self).spec_scheduled() == old(self).spec_scheduled(),
            final(self).spec_audio() == old(self).spec_audio(),
    {
        let i = match self.active.find(call_id) {
            Some(i) => i,
            None => return None,
        };
        let mut entry = self.active.take_at(i);
        let ghost before = entry.announcements@;
        let mut out: Option<(Vec<i16>, usize)> = None;
        if entry.announcements.len() > 0 {
            let mut a = entry.announcements.remove(0);
            assert(a == before[0]);
            match a.player.next_frame() {
                Some(frame) => {
                    out = Some(frame);
                    entry.announcements.insert(0, a);
                },
                None => {
                    if a.player.is_finished() {
                        match a.next_play_at {
                            Some(np) => {
                                if now >= np {
                                    match self.create_player(&a.request) {
                                        Ok(p) => {
                                            a.player = p;
                                            a.started_at = now;
                                            match a.request.repeat_interval {
                                                Some(iv) => {
                                                    a.next_play_at = Some((now as i128 + iv as i128) as i64);
                                                },
                                                None => {},
                                            }
                                            out = a.player.next_frame();
                                        },
                                        Err(_) => {},
                                    }
                                }
                                entry.announcements.insert(0, a);
                            },
                            None => {},
                        }
                    } else {
                        entry.announcements.insert(0, a);
                    }
                },
            }
            proof {
                assert forall|j: int| 0 <= j < entry.announcements@.len() implies (#[trigger] entry.announcements@[j]).player@ == spec_fresh(PlaybackOptions::spec_default()) by {
                    if j > 0 {
                        assert(entry.announcements@[j] == before[j]);
                    }
                }
            }
        }
        self.active.put_at(i, entry);
        out
    }

    /// The next frame for a call now.
    pub fn get_next_frame(&mut self, call_id: &str) -> (r: Option<(Vec<i16>, usize)>)
        requires
            old(self).wf(),
            forall|j: int| 0 <= j < old(self).active_for(call_id@).len() ==> ((#[trigger] old(self).active_for(
                call_id@,
            )[j]).request.repeat_interval matches Some(iv) ==> iv <= i64::MAX / 2),
        ensures
            final(self).wf(),
            r is None,
    {
        let now = now_millis();
        if now > i64::MAX / 2 {
            return None;
        }
        self.get_next_frame_at(call_id, now)
    }

    /// Starts, at `now`, the waiting announcements whose time has come; the
    /// others keep waiting.
    pub fn process_scheduled_at(&mut self, now: i64)
        requires
            old(self).wf(),
            forall|j: int| 0 <= j < old(self).spec_scheduled().len() ==> repeat_fits(#[trigger] old(self).spec_scheduled()[j], now),
        ensures
            final(self).wf(),
            final(self).spec_audio() == old(self).spec_audio(),
            final(self).spec_scheduled() == old(self).spec_scheduled().filter(|r: AnnouncementRequest| !is_due(r, now)),
            forall|k: Seq<char>| #[trigger] final(self).active_for(k).len() == old(self).active_for(k).len()
                + playable_for(
                old(self).spec_audio(),
                old(self).spec_scheduled().filter(|r: AnnouncementRequest| is_due(r, now)),
                k,
            ),
    {
        let ghost all = self.scheduled@;
        let ghost keep = |r: AnnouncementRequest| !is_due(r, now);
        let ghost due = |r: AnnouncementRequest| is_due(r, now);
        let mut remaining: Vec<AnnouncementRequest> = Vec::new();
        let mut to_play: Vec<AnnouncementRequest> = Vec::new();
        let mut rest: Vec<AnnouncementRequest> = Vec::new();
        std::mem::swap(&mut rest, &mut self.scheduled);
        let n = rest.len();
        let mut i: usize = 0;
        assert(all.take(0).filter(keep) =~= Seq::<AnnouncementRequest>::empty());
        assert(all.take(0).filter(due) =~= Seq::<AnnouncementRequest>::empty());
        while rest.len() > 0
            invariant
                i + rest@.len() == n,
                n == all.len(),
                rest@ == all.skip(i as int),
                keep == (|r: AnnouncementRequest| !is_due(r, now)),
                due == (|r: AnnouncementRequest| is_due(r, now)),
                remaining@ == all.take(i as int).filter(keep),
                to_play@ == all.take(i as int).filter(due),
            decreases rest@.len(),
        {
            let req = rest.remove(0);
            assert(req == all[i as int]);
            proof {
                reveal(Seq::filter);
                assert(all.take(i + 1).drop_last() =~= all.take(i as int));
            }
            let is_now = match req.play_at {
                Some(t) => now >= t,
                None => false,
            };
            if is_now {
                to_play.push(req);
            } else {
                remaining.push(req);
            }
            i = i + 1;
            assert(rest@ =~= all.skip(i as int));
        }
        assert(all.take(i as int) =~= all);
        self.scheduled = remaining;
        let ghost plays = to_play@;
        let ghost start = *self;
        proof {
            assert forall|j: int| 0 <= j < plays.len() implies repeat_fits(#[trigger] plays[j], now) && is_due(plays[j], now) by {
                all.filter_lemma(due);
                assert(all.filter(due).contains(plays[j]));
                all.lemma_filter_contains_rev(due, plays[j]);
                let k = choose|k: int| 0 <= k < all.len() && all[k] == plays[j];
                assert(all == old(self).spec_scheduled());
                assert(repeat_fits(old(self).spec_scheduled()[k], now));
            }
        }
        assert(plays.len() <= usize::MAX);
        let mut left = to_play;
        let mut j: usize = 0;
        assert(plays.take(0).len() == 0);
        while left.len() > 0
            invariant
                j + left@.len() == plays.len(),
                plays.len() <= usize::MAX,
                left@ == plays.skip(j as int),
                forall|q: int| 0 <= q < plays.len() ==> repeat_fits(#[trigger] plays[q], now) && is_due(plays[q], now),
                self.wf(),
                self.spec_audio() == start.spec_audio(),
                self.spec_scheduled() == start.spec_scheduled(),
                forall|k: Seq<char>| #[trigger] self.active_for(k).len() == start.active_for(k).len() + playable_for(
                    start.spec_audio(),
                    plays.take(j as int),
                    k,
                ),
            decreases left@.len(),
        {
            let req = left.remove(0);
            assert(req == plays[j as int]);
            let ghost prev = *self;
            proof {
                assert(plays.take(j + 1).drop_last() =~= plays.take(j as int));
                assert(plays.take(j + 1).last() == req);
            }
            let _ = self.play_announcement_at(req, now);
            proof {
                let m = start.spec_audio();
                assert(is_due(req, now));
                assert forall|k: Seq<char>| #[trigger] self.active_for(k).len() == start.active_for(k).len() + playable_for(
                    start.spec_audio(),
                    plays.take(j + 1),
                    k,
                ) by {
                    assert(prev.active_for(k).len() == start.active_for(k).len() + playable_for(m, plays.take(j as int), k));
                    assert(playable_for(m, plays.take(j + 1), k) == playable_for(m, plays.take(j as int), k) + (if req.call_id@ == k
                        && first_missing(m, req.audio_files@, req.language) is None {
                        1int
                    } else {
                        0int
                    }));
                    if first_missing(prev.spec_audio(), req.audio_files@, req.language) is None {
                        if k != req.call_id@ {
                            assert(self.active_for(k) == prev.active_for(k));
                        }
                    } else {
                        assert(self.spec_active() == prev.spec_active());
                    }
                }
            }
            j = j + 1;
            assert(left@ =~= plays.skip(j as int));
        }
        assert(plays.take(j as int) =~= plays);
    }

    /// Starts the waiting announcements whose time has come.
    pub fn process_scheduled(&mut self)
        requires
            old(self).wf(),
            forall|j: int| 0 <= j < old(self).spec_scheduled().len() ==> ((#[trigger] old(self).spec_scheduled()[j]).repeat_interval
                matches Some(iv) ==> iv <= i64::MAX / 2),
        ensures
            final(self).wf(),
    {
        let now = now_millis();
        if now > i64::MAX / 2 {
            return;
        }
        self.process_scheduled_at(now);
    }
}

} // verus!
