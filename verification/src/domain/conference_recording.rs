//! Conference recordings: their lifecycle, participants and metadata, and the
//! bookkeeping of active and completed recordings. Times are milliseconds
//! since the Unix epoch.
use vstd::prelude::*;
use crate::domain::shared::system::{clock_reading, format_uuid, is_v4_uuid, new_uuid, now_millis, uuid_text};
use crate::store::{KeyOf, Keyed, Store};
use crate::text::{i64_to_string, join_path, path_join, signed_decimal, str_eq};

verus! {

/// Conference recording format.
#[derive(Debug, Clone, Copy, PartialEq, Eq, Structural)]
pub enum RecordingFormat {
    /// WAV PCM format
    Wav,
    /// MP3 compressed format
    Mp3,
    /// Opus compressed format
    Opus,
}

impl RecordingFormat {
    pub open spec fn spec_extension(&self) -> Seq<char> {
        match self {
            RecordingFormat::Wav => "wav"@,
            RecordingFormat::Mp3 => "mp3"@,
            RecordingFormat::Opus => "opus"@,
        }
    }

    pub open spec fn spec_mime_type(&self) -> Seq<char> {
        match self {
            RecordingFormat::Wav => "audio/wav"@,
            RecordingFormat::Mp3 => "audio/mpeg"@,
            RecordingFormat::Opus => "audio/opus"@,
        }
    }

    pub fn extension(&self) -> (r: &'static str)
        ensures
            r@ == self.spec_extension(),
    {
        match self {
            RecordingFormat::Wav => "wav",
            RecordingFormat::Mp3 => "mp3",
            RecordingFormat::Opus => "opus",
        }
    }

    pub fn mime_type(&self) -> (r: &'static str)
        ensures
            r@ == self.spec_mime_type(),
    {
        match self {
            RecordingFormat::Wav => "audio/wav",
            RecordingFormat::Mp3 => "audio/mpeg",
            RecordingFormat::Opus => "audio/opus",
        }
    }
}

/// Recording mode.
#[derive(Debug, Clone, Copy, PartialEq, Eq, Structural)]
pub enum RecordingMode {
    /// Record mixed audio of all participants
    Mixed,
    /// Record each participant separately (multi-track)
    Separate,
    /// Record both mixed and separate tracks
    Both,
}

/// Conference recording state.
#[derive(Debug, Clone, Copy, PartialEq, Eq, Structural)]
pub enum RecordingState {
    /// Recording is active
    Recording,
    /// Recording is paused
    Paused,
    /// Recording has stopped
    Stopped,
    /// Recording failed
    Failed,
}

/// Recording participant information.
#[derive(Debug, Clone)]
pub struct RecordingParticipant {
    pub user_id: String,
    pub display_name: String,
    pub joined_at: i64,
    pub left_at: Option<i64>,
    pub separate_track_path: Option<String>,
}

impl RecordingParticipant {
    /// A participant who joined at `now`.
    pub fn new_at(user_id: String, display_name: String, now: i64) -> (r: Self)
        ensures
            r == (RecordingParticipant {
                user_id,
                display_name,
                joined_at: now,
                left_at: None,
                separate_track_path: None,
            }),
    {
        RecordingParticipant { user_id, display_name, joined_at: now, left_at: None, separate_track_path: None }
    }

    /// A participant who joined now.
    pub fn new(user_id: String, display_name: String) -> (r: Self)
        ensures
            r.user_id == user_id,
            r.display_name == display_name,
            r.left_at is None,
            r.separate_track_path is None,
    {
        Self::new_at(user_id, display_name, now_millis())
    }

    /// The participant with a track of their own at `track_path`.
    pub fn with_separate_track(self, track_path: String) -> (r: Self)
        ensures
            r == (RecordingParticipant { separate_track_path: Some(track_path), ..self }),
    {
        let mut p = self;
        p.separate_track_path = Some(track_path);
        p
    }

    /// Marks the participant as having left at `now`.
    pub fn mark_left_at(&mut self, now: i64)
        ensures
            *final(self) == (RecordingParticipant { left_at: Some(now), ..*old(self) }),
    {
        self.left_at = Some(now);
    }

    /// Marks the participant as having left now.
    pub fn mark_left(&mut self)
        ensures
            final(self).left_at matches Some(t) && *final(self) == (RecordingParticipant {
                left_at: Some(t),
                ..*old(self)
            }),
            exists|now: i64| #[trigger] clock_reading(now) && {
                &&& (*final(self) == (RecordingParticipant { left_at: Some(now), ..*old(self) }))
            },
    {
        let now = now_millis();
        proof {
            assert(clock_reading(now));
        }
        self.mark_left_at(now);
    }

    /// Milliseconds from joining to leaving, or to `now` while still present.
    pub fn duration_at(&self, now: i64) -> (r: i128)
        ensures
            r == match self.left_at {
                Some(l) => l - self.joined_at,
                None => now - self.joined_at,
            },
    {
        match self.left_at {
            Some(l) => l as i128 - self.joined_at as i128,
            None => now as i128 - self.joined_at as i128,
        }
    }

    /// Milliseconds from joining to leaving, or to now while still present.
    pub fn duration(&self) -> (r: i128)
        ensures
            self.left_at matches Some(l) ==> r == l - self.joined_at,
            exists|now: i64| #[trigger] clock_reading(now) && {
                &&& (r == match self.left_at {
                    Some(l) => l - self.joined_at,
                    None => now - self.joined_at,
                })
            },
    {
        let now = now_millis();
        proof {
            assert(clock_reading(now));
        }
        self.duration_at(now)
    }

    /// A copy of the participant.
    pub fn duplicate(&self) -> (r: Self)
        ensures
            r == *self,
    {
        RecordingParticipant {
            user_id: self.user_id.clone(),
            display_name: self.display_name.clone(),
            joined_at: self.joined_at,
            left_at: self.left_at,
            separate_track_path: match &self.separate_track_path {
                Some(p) => Some(p.clone()),
                None => None,
            },
        }
    }
}

/// The texts of a list of strings.
pub open spec fn texts(v: Seq<String>) -> Seq<Seq<char>> {
    v.map_values(|s: String| s@)
}

/// Recording metadata.
#[derive(Debug, Clone)]
pub struct RecordingMetadata {
    pub description: String,
    pub tags: Vec<String>,
    pub recorded_by: Option<String>,
    pub max_participants: usize,
    pub sample_rate: u32,
    pub channels: u8,
    pub bitrate: Option<u32>,
}

/// `b` holds what `a` holds, the tags compared by their contents.
pub open spec fn same_metadata(a: RecordingMetadata, b: RecordingMetadata) -> bool {
    &&& b.description == a.description
    &&& b.tags@ == a.tags@
    &&& b.recorded_by == a.recorded_by
    &&& b.max_participants == a.max_participants
    &&& b.sample_rate == a.sample_rate
    &&& b.channels == a.channels
    &&& b.bitrate == a.bitrate
}

impl Default for RecordingMetadata {
    /// Empty metadata, every number zero.
    fn default() -> (r: Self)
        ensures
            r.description@.len() == 0,
            r.tags@.len() == 0,
            r.recorded_by is None,
            r.max_participants == 0,
            r.sample_rate == 0,
            r.channels == 0,
            r.bitrate is None,
    {
        RecordingMetadata {
            description: String::new(),
            tags: Vec::new(),
            recorded_by: None,
            max_participants: 0,
            sample_rate: 0,
            channels: 0,
            bitrate: None,
        }
    }
}

impl RecordingMetadata {
    /// Empty metadata for 48 kHz stereo.
    pub fn new() -> (r: Self)
        ensures
            r.description@.len() == 0,
            r.tags@.len() == 0,
            r.recorded_by is None,
            r.max_participants == 0,
            r.sample_rate == 48000,
            r.channels == 2,
            r.bitrate is None,
    {
        RecordingMetadata {
            description: String::new(),
            tags: Vec::new(),
            recorded_by: None,
            max_participants: 0,
            sample_rate: 48000,
            channels: 2,
            bitrate: None,
        }
    }

    /// The metadata with the given description.
    pub fn with_description(self, description: String) -> (r: Self)
        ensures
            r.description == description,
            r.tags@ == self.tags@,
            r.recorded_by == self.recorded_by,
            r.max_participants == self.max_participants,
            r.sample_rate == self.sample_rate,
            r.channels == self.channels,
            r.bitrate == self.bitrate,
    {
        let mut m = self;
        m.description = description;
        m
    }

    /// Adds a tag unless it is already there.
    pub fn add_tag(&mut self, tag: String)
        ensures
            texts(old(self).tags@).contains(tag@) ==> final(self).tags@ == old(self).tags@,
            !texts(old(self).tags@).contains(tag@) ==> final(self).tags@ == old(self).tags@.push(tag),
            final(self).description == old(self).description,
            final(self).recorded_by == old(self).recorded_by,
            final(self).max_participants == old(self).max_participants,
            final(self).sample_rate == old(self).sample_rate,
            final(self).channels == old(self).channels,
            final(self).bitrate == old(self).bitrate,
    {
        let mut i: usize = 0;
        while i < self.tags.len()
            invariant
                i <= self.tags@.len(),
                forall|j: int| 0 <= j < i ==> self.tags@[j]@ != tag@,
            decreases self.tags.len() - i,
        {
            if str_eq(self.tags[i].as_str(), tag.as_str()) {
                proof {
                    assert(texts(self.tags@)[i as int] == tag@);
                }
                return;
            }
            i = i + 1;
        }
        proof {
            assert forall|j: int| 0 <= j < texts(self.tags@).len() implies texts(self.tags@)[j] != tag@ by {
                assert(self.tags@[j]@ != tag@);
            }
        }
        self.tags.push(tag);
    }

    /// A copy of the metadata.
    pub fn duplicate(&self) -> (r: Self)
        ensures
            same_metadata(*self, r),
    {
        let mut tags: Vec<String> = Vec::new();
        let mut i: usize = 0;
        while i < self.tags.len()
            invariant
                i <= self.tags@.len(),
                tags@ == self.tags@.take(i as int),
            decreases self.tags.len() - i,
        {
            tags.push(self.tags[i].clone());
            assert(self.tags@.take(i as int).push(self.tags@[i as int]) =~= self.tags@.take(i + 1));
            i = i + 1;
        }
        assert(self.tags@.take(self.tags@.len() as int) =~= self.tags@);
        RecordingMetadata {
            description: self.description.clone(),
            tags,
            recorded_by: match &self.recorded_by {
                Some(p) => Some(p.clone()),
                None => None,
            },
            max_participants: self.max_participants,
            sample_rate: self.sample_rate,
            channels: self.channels,
            bitrate: self.bitrate,
        }
    }
}

/// Conference recording.
#[derive(Debug, Clone)]
pub struct ConferenceRecording {
    pub id: u128,
    pub conference_id: u128,
    pub conference_name: String,
    pub state: RecordingState,
    pub format: RecordingFormat,
    pub mode: RecordingMode,
    pub file_path: String,
    pub file_size_bytes: u64,
    pub duration_ms: u64,
    pub started_at: i64,
    pub stopped_at: Option<i64>,
    pub paused_duration_ms: u64,
    pub participants: Vec<RecordingParticipant>,
    pub metadata: RecordingMetadata,
}

/// `b` holds what `a` holds, the lists compared by their contents.
pub open spec fn same_recording(a: ConferenceRecording, b: ConferenceRecording) -> bool {
    &&& same_scalars(a, b)
    &&& b.participants@ == a.participants@
    &&& same_metadata(a.metadata, b.metadata)
}

/// `a` and `b` agree on everything but the participants and the metadata.
pub open spec fn same_scalars(a: ConferenceRecording, b: ConferenceRecording) -> bool {
    &&& b.id == a.id
    &&& b.conference_id == a.conference_id
    &&& b.conference_name == a.conference_name
    &&& b.state == a.state
    &&& b.format == a.format
    &&& b.mode == a.mode
    &&& b.file_path == a.file_path
    &&& b.file_size_bytes == a.file_size_bytes
    &&& b.duration_ms == a.duration_ms
    &&& b.started_at == a.started_at
    &&& b.stopped_at == a.stopped_at
    &&& b.paused_duration_ms == a.paused_duration_ms
}

/// `b` is `a` with its state and stop time changed as given, the rest kept.
pub open spec fn moved_to(a: ConferenceRecording, b: ConferenceRecording, state: RecordingState, stopped_at: Option<i64>) -> bool {
    &&& same_scalars(ConferenceRecording { state, stopped_at, ..a }, b)
    &&& b.participants@ == a.participants@
    &&& same_metadata(a.metadata, b.metadata)
}

impl ConferenceRecording {
    /// A recording of a conference started at `now`, with the given identifier.
    pub fn new_at(
        id: u128,
        conference_id: u128,
        conference_name: String,
        format: RecordingFormat,
        mode: RecordingMode,
        file_path: String,
        now: i64,
    ) -> (r: Self)
        ensures
            r.id == id,
            r.conference_id == conference_id,
            r.conference_name == conference_name,
            r.state == RecordingState::Recording,
            r.format == format,
            r.mode == mode,
            r.file_path == file_path,
            r.file_size_bytes == 0,
            r.duration_ms == 0,
            r.started_at == now,
            r.stopped_at is None,
            r.paused_duration_ms == 0,
            r.participants@.len() == 0,
            r.metadata.description@.len() == 0,
            r.metadata.tags@.len() == 0,
            r.metadata.recorded_by is None,
            r.metadata.max_participants == 0,
            r.metadata.sample_rate == 0,
            r.metadata.channels == 0,
            r.metadata.bitrate is None,
    {
        ConferenceRecording {
            id,
            conference_id,
            conference_name,
            state: RecordingState::Recording,
            format,
            mode,
            file_path,
            file_size_bytes: 0,
            duration_ms: 0,
            started_at: now,
            stopped_at: None,
            paused_duration_ms: 0,
            participants: Vec::new(),
            metadata: RecordingMetadata::default(),
        }
    }

    /// A recording of a conference started now, with a fresh identifier.
    pub fn new(
        conference_id: u128,
        conference_name: String,
        format: RecordingFormat,
        mode: RecordingMode,
        file_path: String,
    ) -> (r: Self)
        ensures
            is_v4_uuid(r.id),
            r.conference_id == conference_id,
            r.conference_name == conference_name,
            r.state == RecordingState::Recording,
            r.format == format,
            r.mode == mode,
            r.file_path == file_path,
            r.stopped_at is None,
            r.participants@.len() == 0,
    {
        let id = new_uuid();
        Self::new_at(id, conference_id, conference_name, format, mode, file_path, now_millis())
    }

    pub fn add_participant(&mut self, participant: RecordingParticipant)
        ensures
            final(self).participants@ == old(self).participants@.push(participant),
            same_scalars(*old(self), *final(self)),
            same_metadata(old(self).metadata, final(self).metadata),
            final(self).metadata == old(self).metadata,
    {
        self.participants.push(participant);
    }

    /// Pauses a running recording; otherwise nothing changes.
    pub fn pause(&mut self)
        ensures
            final(self).state == (if old(self).state == RecordingState::Recording {
                RecordingState::Paused
            } else {
                old(self).state
            }),
            final(self).stopped_at == old(self).stopped_at,
            same_scalars(ConferenceRecording { state: final(self).state, ..*old(self) }, *final(self)),
            final(self).participants == old(self).participants,
            final(self).metadata == old(self).metadata,
    {
        if self.state == RecordingState::Recording {
            self.state = RecordingState::Paused;
        }
    }

    /// Resumes a paused recording; otherwise nothing changes.
    pub fn resume(&mut self)
        ensures
            final(self).state == (if old(self).state == RecordingState::Paused {
                RecordingState::Recording
            } else {
                old(self).state
            }),
            same_scalars(ConferenceRecording { state: final(self).state, ..*old(self) }, *final(self)),
            final(self).participants == old(self).participants,
            final(self).metadata == old(self).metadata,
    {
        if self.state == RecordingState::Paused {
            self.state = RecordingState::Recording;
        }
    }

    /// Stops the recording at `now`.
    pub fn stop_at(&mut self, now: i64)
        ensures
            same_scalars(
                ConferenceRecording { state: RecordingState::Stopped, stopped_at: Some(now), ..*old(self) },
                *final(self),
            ),
            final(self).participants == old(self).participants,
            final(self).metadata == old(self).metadata,
    {
        self.state = RecordingState::Stopped;
        self.stopped_at = Some(now);
    }

    /// Stops the recording now.
    pub fn stop(&mut self)
        ensures
            final(self).stopped_at matches Some(t) && same_scalars(
                ConferenceRecording { state: RecordingState::Stopped, stopped_at: Some(t), ..*old(self) },
                *final(self),
            ),
            final(self).participants == old(self).participants,
            final(self).metadata == old(self).metadata,
            exists|now: i64| #[trigger] clock_reading(now) && {
                &&& (same_scalars(
                    ConferenceRecording { state: RecordingState::Stopped, stopped_at: Some(now), ..*old(self) },
                    *final(self),
                ))
                &&& (final(self).participants == old(self).participants)
                &&& (final(self).metadata == old(self).metadata)
            },
    {
        let now = now_millis();
        proof {
            assert(clock_reading(now));
        }
        self.stop_at(now);
    }

    /// Marks the recording failed at `now`.
    pub fn mark_failed_at(&mut self, now: i64)
        ensures
            same_scalars(
                ConferenceRecording { state: RecordingState::Failed, stopped_at: Some(now), ..*old(self) },
                *final(self),
            ),
            final(self).participants == old(self).participants,
            final(self).metadata == old(self).metadata,
    {
        self.state = RecordingState::Failed;
        self.stopped_at = Some(now);
    }

    /// Marks the recording failed now.
    pub fn mark_failed(&mut self)
        ensures
            final(self).stopped_at matches Some(t) && same_scalars(
                ConferenceRecording { state: RecordingState::Failed, stopped_at: Some(t), ..*old(self) },
                *final(self),
            ),
            final(self).participants == old(self).participants,
            final(self).metadata == old(self).metadata,
            exists|now: i64| #[trigger] clock_reading(now) && {
                &&& (same_scalars(
                    ConferenceRecording { state: RecordingState::Failed, stopped_at: Some(now), ..*old(self) },
                    *final(self),
                ))
                &&& (final(self).participants == old(self).participants)
                &&& (final(self).metadata == old(self).metadata)
            },
    {
        let now = now_millis();
        proof {
            assert(clock_reading(now));
        }
        self.mark_failed_at(now);
    }

    pub fn is_active(&self) -> (r: bool)
        ensures
            r == (self.state == RecordingState::Recording),
    {
        self.state == RecordingState::Recording
    }

    pub fn is_paused(&self) -> (r: bool)
        ensures
            r == (self.state == RecordingState::Paused),
    {
        self.state == RecordingState::Paused
    }

    /// A stopped or failed recording is stopped.
    pub fn is_stopped(&self) -> (r: bool)
        ensures
            r == (self.state == RecordingState::Stopped || self.state == RecordingState::Failed),
    {
        self.state == RecordingState::Stopped || self.state == RecordingState::Failed
    }

    pub open spec fn spec_total_duration(&self, now: i64) -> int {
        match self.stopped_at {
            Some(s) => s - self.started_at,
            None => now - self.started_at,
        }
    }

    /// Milliseconds from the start to the stop, or to `now` while running.
    pub fn total_duration_at(&self, now: i64) -> (r: i128)
        ensures
            r == self.spec_total_duration(now),
    {
        match self.stopped_at {
            Some(s) => s as i128 - self.started_at as i128,
            None => now as i128 - self.started_at as i128,
        }
    }

    /// Milliseconds from the start to the stop, or to now while running.
    pub fn total_duration(&self) -> (r: i128)
        ensures
            self.stopped_at matches Some(s) ==> r == s - self.started_at,
            exists|now: i64| #[trigger] clock_reading(now) && {
                &&& (r == self.spec_total_duration(now))
            },
    {
        let now = now_millis();
        proof {
            assert(clock_reading(now));
        }
        self.total_duration_at(now)
    }

    /// The total duration taken as a `u64`, less the time paused, not below zero.
    pub open spec fn spec_actual_ms(&self, now: i64) -> u64 {
        let total = self.spec_total_duration(now) as u64;
        if total >= self.paused_duration_ms { (total - self.paused_duration_ms) as u64 } else { 0 }
    }

    /// Milliseconds actually recorded by `now`.
    pub fn actual_recording_duration_ms_at(&self, now: i64) -> (r: u64)
        ensures
            r == self.spec_actual_ms(now),
    {
        let total = self.total_duration_at(now) as u64;
        total.saturating_sub(self.paused_duration_ms)
    }

    /// Milliseconds actually recorded by now.
    pub fn actual_recording_duration_ms(&self) -> (r: u64)
        ensures
            self.stopped_at is Some ==> r == self.spec_actual_ms(0),
            exists|now: i64| #[trigger] clock_reading(now) && {
                &&& (r == self.spec_actual_ms(now))
            },
    {
        let now = now_millis();
        proof {
            assert(clock_reading(now));
        }
        self.actual_recording_duration_ms_at(now)
    }

    /// A copy of the recording.
    pub fn duplicate(&self) -> (r: Self)
        ensures
            same_recording(*self, r),
    {
        let mut ps: Vec<RecordingParticipant> = Vec::new();
        let mut i: usize = 0;
        while i < self.participants.len()
            invariant
                i <= self.participants@.len(),
                ps@ == self.participants@.take(i as int),
            decreases self.participants.len() - i,
        {
            ps.push(self.participants[i].duplicate());
            assert(self.participants@.take(i as int).push(self.participants@[i as int]) =~= self.participants@.take(i + 1));
            i = i + 1;
        }
        assert(self.participants@.take(self.participants@.len() as int) =~= self.participants@);
        ConferenceRecording {
            id: self.id,
            conference_id: self.conference_id,
            conference_name: self.conference_name.clone(),
            state: self.state,
            format: self.format,
            mode: self.mode,
            file_path: self.file_path.clone(),
            file_size_bytes: self.file_size_bytes,
            duration_ms: self.duration_ms,
            started_at: self.started_at,
            stopped_at: self.stopped_at,
            paused_duration_ms: self.paused_duration_ms,
            participants: ps,
            metadata: self.metadata.duplicate(),
        }
    }
}

impl Keyed for ConferenceRecording {
    type Key = u128;

    open spec fn key(&self) -> u128 {
        self.conference_id
    }

    open spec fn inv(&self) -> bool {
        true
    }

    fn key_ref(&self) -> (r: &u128) {
        let r = &self.conference_id;
        assert(r.kv() == *r);
        r
    }
}

/// Conference recording configuration.
#[derive(Debug, Clone)]
pub struct RecordingConfig {
    pub auto_record: bool,
    pub default_format: RecordingFormat,
    pub default_mode: RecordingMode,
    pub storage_path: String,
    pub max_file_size_mb: u64,
    pub max_duration_hours: u64,
    pub sample_rate: u32,
    pub channels: u8,
}

impl Default for RecordingConfig {
    fn default() -> (r: Self)
        ensures
            !r.auto_record,
            r.default_format == RecordingFormat::Wav,
            r.default_mode == RecordingMode::Mixed,
            r.storage_path@ == "/var/recordings/conferences"@,
            r.max_file_size_mb == 1024,
            r.max_duration_hours == 4,
            r.sample_rate == 48000,
            r.channels == 2,
    {
        RecordingConfig {
            auto_record: false,
            default_format: RecordingFormat::Wav,
            default_mode: RecordingMode::Mixed,
            storage_path: String::from_str("/var/recordings/conferences"),
            max_file_size_mb: 1024,
            max_duration_hours: 4,
            sample_rate: 48000,
            channels: 2,
        }
    }
}

/// Recording statistics.
#[derive(Debug, Clone)]
pub struct RecordingStatistics {
    pub active_recordings: usize,
    pub completed_recordings: usize,
    pub total_recordings: usize,
    pub total_size_bytes: u64,
    pub total_duration_ms: u64,
}

/// The message for a conference with no active recording.
pub open spec fn no_recording_message() -> Seq<char> {
    "No active recording for this conference"@
}

/// The sum of the file sizes of recordings.
pub open spec fn total_size(s: Seq<ConferenceRecording>) -> int
    decreases s.len(),
{
    if s.len() == 0 {
        0
    } else {
        total_size(s.drop_last()) + s.last().file_size_bytes
    }
}

/// The sum of the durations of recordings.
pub open spec fn total_duration(s: Seq<ConferenceRecording>) -> int
    decreases s.len(),
{
    if s.len() == 0 {
        0
    } else {
        total_duration(s.drop_last()) + s.last().duration_ms
    }
}

/// The file name of a conference recording started at `now`: the conference
/// identifier and the start in whole seconds.
pub open spec fn spec_conference_filename(conference_id: u128, now: i64, format: RecordingFormat) -> Seq<char> {
    "conference_"@ + uuid_text(conference_id) + "_"@ + signed_decimal(now / 1000) + "."@
        + format.spec_extension()
}

/// Conference recording manager: active recordings keyed by conference, and
/// completed recordings in the order they stopped.
pub struct ConferenceRecordingManager {
    active_recordings: Store<ConferenceRecording>,
    completed_recordings: Vec<ConferenceRecording>,
    config: RecordingConfig,
}

impl ConferenceRecordingManager {
    pub closed spec fn spec_active(&self) -> Store<ConferenceRecording> {
        self.active_recordings
    }

    pub closed spec fn spec_completed(&self) -> Seq<ConferenceRecording> {
        self.completed_recordings@
    }

    pub closed spec fn spec_config(&self) -> RecordingConfig {
        self.config
    }

    pub open spec fn wf(&self) -> bool {
        self.spec_active().wf()
    }

    pub fn new(config: RecordingConfig) -> (r: Self)
        ensures
            r.wf(),
            r.spec_active().items().len() == 0,
            r.spec_completed().len() == 0,
            r.spec_config() == config,
    {
        ConferenceRecordingManager { active_recordings: Store::new(), completed_recordings: Vec::new(), config }
    }

    /// Starts recording a conference at `now` with the given identifier, in
    /// the given format and mode or the configured ones; a recording already
    /// running for the conference is replaced.
    pub fn start_recording_at(
        &mut self,
        conference_id: u128,
        conference_name: String,
        format: Option<RecordingFormat>,
        mode: Option<RecordingMode>,
        id: u128,
        now: i64,
    ) -> (r: Result<u128, String>)
        requires
            old(self).wf(),
        ensures
            final(self).wf(),
            r == Ok::<u128, String>(id),
            final(self).spec_completed() == old(self).spec_completed(),
            final(self).spec_config() == old(self).spec_config(),
            final(self).spec_active().get_spec(conference_id) matches Some(rec) && {
                let f = match format {
                    Some(f) => f,
                    None => old(self).spec_config().default_format,
                };
                &&& rec.id == id
                &&& rec.conference_name == conference_name
                &&& rec.state == RecordingState::Recording
                &&& rec.format == f
                &&& rec.mode == match mode {
                    Some(m) => m,
                    None => old(self).spec_config().default_mode,
                }
                &&& rec.file_path@ == path_join(
                    old(self).spec_config().storage_path@,
                    spec_conference_filename(conference_id, now, f),
                )
                &&& rec.started_at == now
                &&& rec.stopped_at is None
                &&& rec.participants@.len() == 0
            },
            forall|k: u128| k != conference_id ==> final(self).spec_active().get_spec(k) == old(self).spec_active().get_spec(k),
    {
        let format = match format {
            Some(f) => f,
            None => self.config.default_format,
        };
        let mode = match mode {
            Some(m) => m,
            None => self.config.default_mode,
        };
        let secs: i64 = if now >= 0 || now % 1000 == 0 { now / 1000 } else { now / 1000 - 1 };
        let mut filename = String::from_str("conference_");
        let idt = format_uuid(conference_id);
        filename.append(idt.as_str());
        filename.append("_");
        let st = i64_to_string(secs);
        filename.append(st.as_str());
        filename.append(".");
        filename.append(format.extension());
        let file_path = join_path(self.config.storage_path.as_str(), filename.as_str());
        let recording = ConferenceRecording::new_at(id, conference_id, conference_name, format, mode, file_path, now);
        self.active_recordings.insert(recording);
        Ok(id)
    }

    /// Starts recording a conference now, with a fresh identifier.
    pub fn start_recording(
        &mut self,
        conference_id: u128,
        conference_name: String,
        format: Option<RecordingFormat>,
        mode: Option<RecordingMode>,
    ) -> (r: Result<u128, String>)
        requires
            old(self).wf(),
        ensures
            final(self).wf(),
            r matches Ok(id) && is_v4_uuid(id) && (final(self).spec_active().get_spec(conference_id) matches Some(
                rec,
            ) && rec.id == id),
            final(self).spec_completed() == old(self).spec_completed(),
            forall|k: u128| k != conference_id ==> final(self).spec_active().get_spec(k) == old(self).spec_active().get_spec(k),
            exists|now: i64, id: u128| #![trigger clock_reading(now), is_v4_uuid(id)] clock_reading(now) && is_v4_uuid(id) && {
                &&& (r == Ok::<u128, String>(id))
                &&& (final(self).spec_completed() == old(self).spec_completed())
                &&& (final(self).spec_config() == old(self).spec_config())
                &&& (final(self).spec_active().get_spec(conference_id) matches Some(rec) && {
                    let f = match format {
                        Some(f) => f,
                        None => old(self).spec_config().default_format,
                    };
                    &&& rec.id == id
                    &&& rec.conference_name == conference_name
                    &&& rec.state == RecordingState::Recording
                    &&& rec.format == f
                    &&& rec.mode == match mode {
                        Some(m) => m,
                        None => old(self).spec_config().default_mode,
                    }
                    &&& rec.file_path@ == path_join(
                        old(self).spec_config().storage_path@,
                        spec_conference_filename(conference_id, now, f),
                    )
                    &&& rec.started_at == now
                    &&& rec.stopped_at is None
                    &&& rec.participants@.len() == 0
                })
                &&& (forall|k: u128| k != conference_id ==> final(self).spec_active().get_spec(k) == old(self).spec_active().get_spec(k))
            },
    {
        let now = now_millis();
        let id = new_uuid();
        proof {
            assert(clock_reading(now));
        }
        self.start_recording_at(conference_id, conference_name, format, mode, id, now)
    }

    /// Stops the recording of a conference at `now` and keeps it among the
    /// completed ones.
    pub fn stop_recording_at(&mut self, conference_id: &u128, now: i64) -> (r: Result<ConferenceRecording, String>)
        requires
            old(self).wf(),
        ensures
            final(self).wf(),
            r is Err <==> !old(self).spec_active().contains(*conference_id),
            r matches Err(m) ==> m@ == no_recording_message() && final(self).spec_active().items()
                == old(self).spec_active().items() && final(self).spec_completed() == old(self).spec_completed(),
            r matches Ok(rec) ==> {
                let before = old(self).spec_active().get_spec(*conference_id).unwrap();
                &&& moved_to(before, rec, RecordingState::Stopped, Some(now))
                &&& final(self).spec_completed().len() == old(self).spec_completed().len() + 1
                &&& final(self).spec_completed().drop_last() == old(self).spec_completed()
                &&& same_recording(rec, final(self).spec_completed().last())
                &&& !final(self).spec_active().contains(*conference_id)
                &&& forall|k: u128| k != *conference_id ==> final(self).spec_active().get_spec(k) == old(self).spec_active().get_spec(k)
            },
    {
        match self.active_recordings.remove(conference_id) {
            Some(mut rec) => {
                rec.stop_at(now);
                let copy = rec.duplicate();
                let ghost before = self.completed_recordings@;
                self.completed_recordings.push(copy);
                assert(self.completed_recordings@.drop_last() == before);
                Ok(rec)
            },
            None => Err(String::from_str("No active recording for this conference")),
        }
    }

    /// Stops the recording of a conference now.
    pub fn stop_recording(&mut self, conference_id: &u128) -> (r: Result<ConferenceRecording, String>)
        requires
            old(self).wf(),
        ensures
            final(self).wf(),
            r is Err <==> !old(self).spec_active().contains(*conference_id),
            r is Ok ==> !final(self).spec_active().contains(*conference_id)
                && final(self).spec_completed().len() == old(self).spec_completed().len() + 1,
            exists|now: i64| #[trigger] clock_reading(now) && {
                &&& (r is Err <==> !old(self).spec_active().contains(*conference_id))
                &&& (r matches Err(m) ==> m@ == no_recording_message() && final(self).spec_active().items()
                    == old(self).spec_active().items() && final(self).spec_completed() == old(self).spec_completed())
                &&& (r matches Ok(rec) ==> {
                    let before = old(self).spec_active().get_spec(*conference_id).unwrap();
                    &&& moved_to(before, rec, RecordingState::Stopped, Some(now))
                    &&& final(self).spec_completed().len() == old(self).spec_completed().len() + 1
                    &&& final(self).spec_completed().drop_last() == old(self).spec_completed()
                    &&& same_recording(rec, final(self).spec_completed().last())
                    &&& !final(self).spec_active().contains(*conference_id)
                    &&& forall|k: u128| k != *conference_id ==> final(self).spec_active().get_spec(k) == old(self).spec_active().get_spec(k)
                })
            },
    {
        let now = now_millis();
        proof {
            assert(clock_reading(now));
        }
        self.stop_recording_at(conference_id, now)
    }

    /// Applies a change to the active recording of a conference.
    fn update_active(&mut self, conference_id: &u128, op: u8, participant: Option<RecordingParticipant>, metadata: Option<RecordingMetadata>) -> (r: Result<(), String>)
        requires
            old(self).wf(),
            op == 2 ==> participant is Some,
            op == 3 ==> metadata is Some,
        ensures
            final(self).wf(),
            final(self).spec_completed() == old(self).spec_completed(),
            final(self).spec_config() == old(self).spec_config(),
            r is Err <==> !old(self).spec_active().contains(*conference_id),
            r matches Err(m) ==> m@ == no_recording_message() && final(self).spec_active().items()
                == old(self).spec_active().items(),
            r is Ok ==> {
                let a = old(self).spec_active().get_spec(*conference_id).unwrap();
                &&& final(self).spec_active().get_spec(*conference_id) matches Some(b)
                &&& (op == 0 ==> b.state == (if a.state == RecordingState::Recording { RecordingState::Paused } else { a.state })
                    && same_scalars(ConferenceRecording { state: b.state, ..a }, b) && b.participants == a.participants && b.metadata == a.metadata)
                &&& (op == 1 ==> b.state == (if a.state == RecordingState::Paused { RecordingState::Recording } else { a.state })
                    && same_scalars(ConferenceRecording { state: b.state, ..a }, b) && b.participants == a.participants && b.metadata == a.metadata)
                &&& (op == 2 ==> b.participants@ == a.participants@.push(participant.unwrap()) && same_scalars(a, b) && b.metadata == a.metadata)
                &&& (op == 3 ==> b.metadata == metadata.unwrap() && same_scalars(a, b) && b.participants == a.participants)
                &&& forall|k: u128| k != *conference_id ==> final(self).spec_active().get_spec(k) == old(self).spec_active().get_spec(k)
            },
    {
        match self.active_recordings.find(conference_id) {
            Some(i) => {
                let mut rec = self.active_recordings.take_at(i);
                if op == 0 {
                    rec.pause();
                } else if op == 1 {
                    rec.resume();
                } else if op == 2 {
                    match participant {
                        Some(p) => rec.add_participant(p),
                        None => {},
                    }
                } else if op == 3 {
                    match metadata {
                        Some(m) => { rec.metadata = m; },
                        None => {},
                    }
                }
                self.active_recordings.put_at(i, rec);
                Ok(())
            },
            None => Err(String::from_str("No active recording for this conference")),
        }
    }

    /// Pauses the recording of a conference.
    pub fn pause_recording(&mut self, conference_id: &u128) -> (r: Result<(), String>)
        requires
            old(self).wf(),
        ensures
            final(self).wf(),
            final(self).spec_completed() == old(self).spec_completed(),
            r is Err <==> !old(self).spec_active().contains(*conference_id),
            r matches Err(m) ==> m@ == no_recording_message() && final(self).spec_active().items()
                == old(self).spec_active().items(),
            r is Ok ==> {
                let a = old(self).spec_active().get_spec(*conference_id).unwrap();
                &&& final(self).spec_active().get_spec(*conference_id) matches Some(b)
                &&& b.state == (if a.state == RecordingState::Recording { RecordingState::Paused } else { a.state })
                &&& same_scalars(ConferenceRecording { state: b.state, ..a }, b)
                &&& b.participants == a.participants
                &&& b.metadata == a.metadata
                &&& forall|k: u128| k != *conference_id ==> final(self).spec_active().get_spec(k) == old(self).spec_active().get_spec(k)
            },
    {
        self.update_active(conference_id, 0, None, None)
    }

    /// Resumes the recording of a conference.
    pub fn resume_recording(&mut self, conference_id: &u128) -> (r: Result<(), String>)
        requires
            old(self).wf(),
        ensures
            final(self).wf(),
            final(self).spec_completed() == old(self).spec_completed(),
            r is Err <==> !old(self).spec_active().contains(*conference_id),
            r matches Err(m) ==> m@ == no_recording_message() && final(self).spec_active().items()
                == old(self).spec_active().items(),
            r is Ok ==> {
                let a = old(self).spec_active().get_spec(*conference_id).unwrap();
                &&& final(self).spec_active().get_spec(*conference_id) matches Some(b)
                &&& b.state == (if a.state == RecordingState::Paused { RecordingState::Recording } else { a.state })
                &&& same_scalars(ConferenceRecording { state: b.state, ..a }, b)
                &&& b.participants == a.participants
                &&& b.metadata == a.metadata
                &&& forall|k: u128| k != *conference_id ==> final(self).spec_active().get_spec(k) == old(self).spec_active().get_spec(k)
            },
    {
        self.update_active(conference_id, 1, None, None)
    }

    /// Adds a participant to the recording of a conference.
    pub fn add_participant(&mut self, conference_id: &u128, participant: RecordingParticipant) -> (r: Result<(), String>)
        requires
            old(self).wf(),
        ensures
            final(self).wf(),
            final(self).spec_completed() == old(self).spec_completed(),
            r is Err <==> !old(self).spec_active().contains(*conference_id),
            r matches Err(m) ==> m@ == no_recording_message() && final(self).spec_active().items()
                == old(self).spec_active().items(),
            r is Ok ==> {
                let a = old(self).spec_active().get_spec(*conference_id).unwrap();
                &&& final(self).spec_active().get_spec(*conference_id) matches Some(b)
                &&& b.participants@ == a.participants@.push(participant)
                &&& same_scalars(a, b)
                &&& b.metadata == a.metadata
                &&& forall|k: u128| k != *conference_id ==> final(self).spec_active().get_spec(k) == old(self).spec_active().get_spec(k)
            },
    {
        self.update_active(conference_id, 2, Some(participant), None)
    }

    /// Replaces the metadata of the recording of a conference.
    pub fn update_metadata(&mut self, conference_id: &u128, metadata: RecordingMetadata) -> (r: Result<(), String>)
        requires
            old(self).wf(),
        ensures
            final(self).wf(),
            final(self).spec_completed() == old(self).spec_completed(),
            r is Err <==> !old(self).spec_active().contains(*conference_id),
            r matches Err(m) ==> m@ == no_recording_message() && final(self).spec_active().items()
                == old(self).spec_active().items(),
            r is Ok ==> {
                let a = old(self).spec_active().get_spec(*conference_id).unwrap();
                &&& final(self).spec_active().get_spec(*conference_id) matches Some(b)
                &&& b.metadata == metadata
                &&& same_scalars(a, b)
                &&& b.participants == a.participants
                &&& forall|k: u128| k != *conference_id ==> final(self).spec_active().get_spec(k) == old(self).spec_active().get_spec(k)
            },
    {
        self.update_active(conference_id, 3, None, Some(metadata))
    }

    /// The active recording of a conference.
    pub fn get_recording(&self, conference_id: &u128) -> (r: Option<ConferenceRecording>)
        requires
            self.wf(),
        ensures
            match self.spec_active().get_spec(*conference_id) {
                Some(rec) => r matches Some(c) && same_recording(rec, c),
                None => r is None,
            },
    {
        match self.active_recordings.get(conference_id) {
            Some(rec) => Some(rec.duplicate()),
            None => None,
        }
    }

    /// Whether a conference is being recorded.
    pub fn is_recording(&self, conference_id: &u128) -> (r: bool)
        requires
            self.wf(),
        ensures
            r == self.spec_active().contains(*conference_id),
    {
        self.active_recordings.find(conference_id).is_some()
    }

    /// All active recordings, in the order they started.
    pub fn list_active_recordings(&self) -> (r: Vec<ConferenceRecording>)
        ensures
            r@.len() == self.spec_active().items().len(),
            forall|i: int| 0 <= i < r@.len() ==> same_recording(self.spec_active().items()[i], #[trigger] r@[i]),
    {
        let mut out: Vec<ConferenceRecording> = Vec::new();
        let mut i: usize = 0;
        while i < self.active_recordings.len()
            invariant
                i <= self.spec_active().items().len(),
                out@.len() == i,
                forall|j: int| 0 <= j < i ==> same_recording(self.spec_active().items()[j], #[trigger] out@[j]),
            decreases self.spec_active().items().len() - i,
        {
            out.push(self.active_recordings.at(i).duplicate());
            i = i + 1;
        }
        out
    }

    /// All completed recordings, in the order they stopped.
    pub fn list_completed_recordings(&self) -> (r: Vec<ConferenceRecording>)
        ensures
            r@.len() == self.spec_completed().len(),
            forall|i: int| 0 <= i < r@.len() ==> same_recording(self.spec_completed()[i], #[trigger] r@[i]),
    {
        let mut out: Vec<ConferenceRecording> = Vec::new();
        let mut i: usize = 0;
        while i < self.completed_recordings.len()
            invariant
                i <= self.completed_recordings@.len(),
                out@.len() == i,
                forall|j: int| 0 <= j < i ==> same_recording(self.completed_recordings@[j], #[trigger] out@[j]),
            decreases self.completed_recordings.len() - i,
        {
            out.push(self.completed_recordings[i].duplicate());
            i = i + 1;
        }
        out
    }

    fn completed_position(&self, id: u128) -> (r: Option<usize>)
        ensures
            match r {
                Some(i) => i < self.spec_completed().len() && self.spec_completed()[i as int].id == id
                    && forall|j: int| 0 <= j < i ==> (#[trigger] self.spec_completed()[j]).id != id,
                None => forall|i: int| 0 <= i < self.spec_completed().len() ==> (#[trigger] self.spec_completed()[i]).id != id,
            },
    {
        let mut i: usize = 0;
        while i < self.completed_recordings.len()
            invariant
                i <= self.completed_recordings@.len(),
                forall|j: int| 0 <= j < i ==> (#[trigger] self.completed_recordings@[j]).id != id,
            decreases self.completed_recordings.len() - i,
        {
            if self.completed_recordings[i].id == id {
                return Some(i);
            }
            i = i + 1;
        }
        None
    }

    /// The recording with the given identifier: the first active one, else
    /// the first completed one.
    pub fn get_recording_by_id(&self, recording_id: &u128) -> (r: Option<ConferenceRecording>)
        ensures
            match r {
                Some(c) => c.id == *recording_id && ((exists|i: int| 0 <= i < self.spec_active().items().len()
                    && same_recording(self.spec_active().items()[i], c)
                    && forall|j: int| 0 <= j < i ==> (#[trigger] self.spec_active().items()[j]).id != *recording_id)
                    || ((forall|i: int| 0 <= i < self.spec_active().items().len() ==> (#[trigger] self.spec_active().items()[i]).id != *recording_id)
                    && exists|i: int| 0 <= i < self.spec_completed().len() && same_recording(self.spec_completed()[i], c)
                    && forall|j: int| 0 <= j < i ==> (#[trigger] self.spec_completed()[j]).id != *recording_id)),
                None => (forall|i: int| 0 <= i < self.spec_active().items().len() ==> (#[trigger] self.spec_active().items()[i]).id != *recording_id)
                    && forall|i: int| 0 <= i < self.spec_completed().len() ==> (#[trigger] self.spec_completed()[i]).id != *recording_id,
            },
    {
        let mut i: usize = 0;
        while i < self.active_recordings.len()
            invariant
                i <= self.spec_active().items().len(),
                forall|j: int| 0 <= j < i ==> (#[trigger] self.spec_active().items()[j]).id != *recording_id,
            decreases self.spec_active().items().len() - i,
        {
            if self.active_recordings.at(i).id == *recording_id {
                return Some(self.active_recordings.at(i).duplicate());
            }
            i = i + 1;
        }
        match self.completed_position(*recording_id) {
            Some(k) => Some(self.completed_recordings[k].duplicate()),
            None => None,
        }
    }

    /// Deletes the first completed recording with the given identifier.
    pub fn delete_recording(&mut self, recording_id: &u128) -> (r: Result<(), String>)
        requires
            old(self).wf(),
        ensures
            final(self).wf(),
            final(self).spec_active() == old(self).spec_active(),
            r is Err <==> forall|i: int| 0 <= i < old(self).spec_completed().len() ==> (#[trigger] old(self).spec_completed()[i]).id != *recording_id,
            r matches Err(m) ==> m@ == "Recording not found in completed recordings"@ && final(self).spec_completed() == old(self).spec_completed(),
            r is Ok ==> exists|i: int| 0 <= i < old(self).spec_completed().len() && old(self).spec_completed()[i].id == *recording_id
                && forall|j: int| 0 <= j < i ==> (#[trigger] old(self).spec_completed()[j]).id != *recording_id
                && final(self).spec_completed() == old(self).spec_completed().remove(i),
    {
        match self.completed_position(*recording_id) {
            Some(i) => {
                let _ = self.completed_recordings.remove(i);
                Ok(())
            },
            None => Err(String::from_str("Recording not found in completed recordings")),
        }
    }

    /// Counts of active and completed recordings, and the total size and
    /// duration of the completed ones.
    pub fn get_statistics(&self) -> (r: RecordingStatistics)
        requires
            self.spec_active().items().len() + self.spec_completed().len() <= usize::MAX,
            total_size(self.spec_completed()) <= u64::MAX,
            total_duration(self.spec_completed()) <= u64::MAX,
        ensures
            r.active_recordings == self.spec_active().items().len(),
            r.completed_recordings == self.spec_completed().len(),
            r.total_recordings == self.spec_active().items().len() + self.spec_completed().len(),
            r.total_size_bytes == total_size(self.spec_completed()),
            r.total_duration_ms == total_duration(self.spec_completed()),
    {
        let mut size: u64 = 0;
        let mut dur: u64 = 0;
        let mut i: usize = 0;
        while i < self.completed_recordings.len()
            invariant
                i <= self.completed_recordings@.len(),
                size == total_size(self.completed_recordings@.take(i as int)),
                dur == total_duration(self.completed_recordings@.take(i as int)),
                total_size(self.completed_recordings@) <= u64::MAX,
                total_duration(self.completed_recordings@) <= u64::MAX,
            decreases self.completed_recordings.len() - i,
        {
            proof {
                lemma_totals_prefix(self.completed_recordings@, i + 1);
            }
            size = size + self.completed_recordings[i].file_size_bytes;
            dur = dur + self.completed_recordings[i].duration_ms;
            i = i + 1;
        }
        assert(self.completed_recordings@.take(self.completed_recordings@.len() as int) =~= self.completed_recordings@);
        let a = self.active_recordings.len();
        let c = self.completed_recordings.len();
        RecordingStatistics {
            active_recordings: a,
            completed_recordings: c,
            total_recordings: a + c,
            total_size_bytes: size,
            total_duration_ms: dur,
        }
    }
}

impl Default for ConferenceRecordingManager {
    fn default() -> (r: Self)
        ensures
            r.wf(),
            r.spec_active().items().len() == 0,
            r.spec_completed().len() == 0,
            r.spec_config().default_format == RecordingFormat::Wav,
            r.spec_config().default_mode == RecordingMode::Mixed,
            r.spec_config().storage_path@ == "/var/recordings/conferences"@,
    {
        Self::new(RecordingConfig::default())
    }
}

/// The totals of a prefix extend by the next recording.
proof fn lemma_totals_prefix(s: Seq<ConferenceRecording>, k: int)
    requires
        0 < k <= s.len(),
    ensures
        total_size(s.take(k)) == total_size(s.take(k - 1)) + s[k - 1].file_size_bytes,
        total_duration(s.take(k)) == total_duration(s.take(k - 1)) + s[k - 1].duration_ms,
        total_size(s.take(k)) <= total_size(s),
        total_duration(s.take(k)) <= total_duration(s),
    decreases s.len() - k,
{
    assert(s.take(k).drop_last() =~= s.take(k - 1));
    if k < s.len() {
        lemma_totals_prefix(s, k + 1);
    } else {
        assert(s.take(k) =~= s);
    }
}

} // verus!
