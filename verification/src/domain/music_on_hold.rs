//! Music on hold: audio files, playlists of them, and the sessions that play
//! a playlist to a held call. Times are milliseconds since the Unix epoch;
//! file paths are kept as text.
use vstd::prelude::*;
use crate::domain::shared::system::{clock_reading, elapsed_seconds, is_v4_uuid, new_uuid, now_millis, seconds_between};
use crate::store::{KeyOf, Keyed, Store};
use crate::text::{ascii_lower, is_ascii_text, lemma_ascii_lower_idempotent, str_eq, to_lowercase, unicode_lowercase};

verus! {

/// Music on Hold playback mode
#[derive(Debug, Clone, Copy, PartialEq, Eq)]
pub enum MohPlaybackMode {
    /// Play files in order, then repeat
    Sequential,
    /// Play files in random order
    Random,
    /// Play files in order once, then silence
    Once,
    /// Loop single file continuously
    Loop,
}

impl Default for MohPlaybackMode {
    fn default() -> (r: Self)
        ensures
            r == MohPlaybackMode::Sequential,
    {
        MohPlaybackMode::Sequential
    }
}

/// Music on Hold audio format
#[derive(Debug, Clone, Copy, PartialEq, Eq)]
pub enum MohAudioFormat {
    /// WAV PCM format
    Wav,
    /// MP3 format
    Mp3,
    /// Opus format
    Opus,
    /// Raw PCM
    Raw,
}

/// The format named by an already lower-cased file extension.
pub open spec fn format_of_lowercase(ext: Seq<char>) -> Option<MohAudioFormat> {
    if ext == "wav"@ {
        Some(MohAudioFormat::Wav)
    } else if ext == "mp3"@ {
        Some(MohAudioFormat::Mp3)
    } else if ext == "opus"@ {
        Some(MohAudioFormat::Opus)
    } else if ext == "pcm"@ || ext == "raw"@ {
        Some(MohAudioFormat::Raw)
    } else {
        None
    }
}

/// Each format's extension reads back as that format, and reading an
/// extension ignores ASCII case: an ASCII extension reads the same as its
/// lower-cased form.
pub proof fn law_extension_round_trip(f: MohAudioFormat, ext: Seq<char>)
    ensures
        is_ascii_text(f.spec_extension()),
        format_of_lowercase(ascii_lower(f.spec_extension())) == Some(f),
        is_ascii_text(ext) ==> is_ascii_text(ascii_lower(ext))
            && format_of_lowercase(ascii_lower(ascii_lower(ext))) == format_of_lowercase(ascii_lower(ext)),
{
    reveal_strlit("wav");
    reveal_strlit("mp3");
    reveal_strlit("opus");
    reveal_strlit("pcm");
    lemma_ascii_lower_idempotent(ext);
    match f {
        MohAudioFormat::Wav => {
            assert(ascii_lower("wav"@) =~= "wav"@);
        },
        MohAudioFormat::Mp3 => {
            assert(ascii_lower("mp3"@) =~= "mp3"@);
            assert("wav"@[0] != "mp3"@[0]);
        },
        MohAudioFormat::Opus => {
            assert(ascii_lower("opus"@) =~= "opus"@);
            assert("wav"@.len() != "opus"@.len());
            assert("mp3"@.len() != "opus"@.len());
        },
        MohAudioFormat::Raw => {
            assert(ascii_lower("pcm"@) =~= "pcm"@);
            assert("wav"@[0] != "pcm"@[0]);
            assert("mp3"@[0] != "pcm"@[0]);
            assert("opus"@.len() != "pcm"@.len());
        },
    }
}

impl MohAudioFormat {
    /// The extension written for the format.
    pub open spec fn spec_extension(self) -> Seq<char> {
        match self {
            MohAudioFormat::Wav => "wav"@,
            MohAudioFormat::Mp3 => "mp3"@,
            MohAudioFormat::Opus => "opus"@,
            MohAudioFormat::Raw => "pcm"@,
        }
    }

    /// The format of a file extension, ignoring case.
    pub fn from_extension(ext: &str) -> (r: Option<Self>)
        ensures
            r == format_of_lowercase(unicode_lowercase(ext@)),
            is_ascii_text(ext@) ==> r == format_of_lowercase(ascii_lower(ext@)),
    {
        let lower = to_lowercase(ext);
        Self::from_lowercase_extension(lower.as_str())
    }

    /// The format of an already lower-cased file extension.
    pub fn from_lowercase_extension(ext: &str) -> (r: Option<Self>)
        ensures
            r == format_of_lowercase(ext@),
    {
        if str_eq(ext, "wav") {
            Some(MohAudioFormat::Wav)
        } else if str_eq(ext, "mp3") {
            Some(MohAudioFormat::Mp3)
        } else if str_eq(ext, "opus") {
            Some(MohAudioFormat::Opus)
        } else if str_eq(ext, "pcm") || str_eq(ext, "raw") {
            Some(MohAudioFormat::Raw)
        } else {
            None
        }
    }

    pub fn extension(&self) -> (r: &'static str)
        ensures
            r@ == self.spec_extension(),
    {
        match self {
            MohAudioFormat::Wav => "wav",
            MohAudioFormat::Mp3 => "mp3",
            MohAudioFormat::Opus => "opus",
            MohAudioFormat::Raw => "pcm",
        }
    }
}

/// Music on Hold audio file.
#[derive(Debug, Clone)]
pub struct MohAudioFile {
    pub id: u128,
    pub name: String,
    pub file_path: String,
    pub format: MohAudioFormat,
    pub duration_ms: u64,
    pub sample_rate: u32,
    pub channels: u8,
    pub file_size_bytes: u64,
    pub enabled: bool,
    pub added_at: i64,
}

impl Keyed for MohAudioFile {
    type Key = u128;

    open spec fn key(&self) -> u128 {
        self.id
    }

    open spec fn inv(&self) -> bool {
        true
    }

    fn key_ref(&self) -> (r: &u128) {
        let r = &self.id;
        assert(r.kv() == *r);
        r
    }
}

impl MohAudioFile {
    /// An enabled file added at `now`, 8 kHz mono with no length or size yet.
    pub fn new_at(id: u128, name: String, file_path: String, format: MohAudioFormat, now: i64) -> (r: Self)
        ensures
            r == (MohAudioFile {
                id,
                name,
                file_path,
                format,
                duration_ms: 0,
                sample_rate: 8000,
                channels: 1,
                file_size_bytes: 0,
                enabled: true,
                added_at: now,
            }),
    {
        MohAudioFile {
            id,
            name,
            file_path,
            format,
            duration_ms: 0,
            sample_rate: 8000,
            channels: 1,
            file_size_bytes: 0,
            enabled: true,
            added_at: now,
        }
    }

    /// An enabled file added now, with a fresh identifier.
    pub fn new(name: String, file_path: String, format: MohAudioFormat) -> (r: Self)
        ensures
            is_v4_uuid(r.id),
            r.name == name,
            r.file_path == file_path,
            r.format == format,
            r.duration_ms == 0 && r.sample_rate == 8000 && r.channels == 1 && r.file_size_bytes == 0,
            r.enabled,
    {
        let id = new_uuid();
        Self::new_at(id, name, file_path, format, now_millis())
    }

    /// The file with its length, rate, channels and size set.
    pub fn with_metadata(self, duration_ms: u64, sample_rate: u32, channels: u8, file_size_bytes: u64) -> (r: Self)
        ensures
            r == (MohAudioFile { duration_ms, sample_rate, channels, file_size_bytes, ..self }),
    {
        let mut f = self;
        f.duration_ms = duration_ms;
        f.sample_rate = sample_rate;
        f.channels = channels;
        f.file_size_bytes = file_size_bytes;
        f
    }

    /// Playable: enabled, and (as the caller found) present on disk.
    pub fn is_valid(&self, file_exists: bool) -> (r: bool)
        ensures
            r == (self.enabled && file_exists),
    {
        self.enabled && file_exists
    }

    pub fn duplicate(&self) -> (r: Self)
        ensures
            r == *self,
    {
        MohAudioFile {
            id: self.id,
            name: self.name.clone(),
            file_path: self.file_path.clone(),
            format: self.format,
            duration_ms: self.duration_ms,
            sample_rate: self.sample_rate,
            channels: self.channels,
            file_size_bytes: self.file_size_bytes,
            enabled: self.enabled,
            added_at: self.added_at,
        }
    }
}

/// The position of the first occurrence of `x`, or the length.
pub open spec fn id_position(s: Seq<u128>, x: u128) -> int
    decreases s.len(),
{
    if s.len() == 0 {
        0
    } else if s[0] == x {
        0
    } else {
        1 + id_position(s.drop_first(), x)
    }
}

proof fn lemma_id_position(s: Seq<u128>, x: u128)
    ensures
        0 <= id_position(s, x) <= s.len(),
        id_position(s, x) < s.len() ==> s[id_position(s, x)] == x,
        forall|j: int| 0 <= j < id_position(s, x) ==> s[j] != x,
        (id_position(s, x) < s.len()) == s.contains(x),
    decreases s.len(),
{
    if s.len() > 0 {
        if s[0] != x {
            lemma_id_position(s.drop_first(), x);
            assert forall|j: int| 0 <= j < id_position(s, x) implies s[j] != x by {
                if j > 0 {
                    assert(s[j] == s.drop_first()[j - 1]);
                }
            }
            if s.contains(x) {
                let k = choose|k: int| 0 <= k < s.len() && s[k] == x;
                assert(s.drop_first()[k - 1] == x);
            }
            if s.drop_first().contains(x) {
                let k = choose|k: int| 0 <= k < s.drop_first().len() && s.drop_first()[k] == x;
                assert(s[k + 1] == x);
            }
        } else {
            assert(s[0] == x);
        }
    }
}

fn find_id(v: &Vec<u128>, x: u128) -> (r: usize)
    ensures
        r == id_position(v@, x),
{
    proof {
        lemma_id_position(v@, x);
    }
    let mut i: usize = 0;
    while i < v.len()
        invariant
            i <= v@.len(),
            i <= id_position(v@, x),
            0 <= id_position(v@, x) <= v@.len(),
            id_position(v@, x) < v@.len() ==> v@[id_position(v@, x)] == x,
            forall|j: int| 0 <= j < id_position(v@, x) ==> v@[j] != x,
        decreases v.len() - i,
    {
        if v[i] == x {
            return i;
        }
        i = i + 1;
    }
    i
}

/// Music on Hold playlist: files by identifier, in play order.
#[derive(Debug, Clone)]
pub struct MohPlaylist {
    pub id: u128,
    pub name: String,
    pub description: String,
    pub audio_files: Vec<u128>,
    pub playback_mode: MohPlaybackMode,
    pub enabled: bool,
    pub created_at: i64,
    pub updated_at: i64,
}

impl Keyed for MohPlaylist {
    type Key = u128;

    open spec fn key(&self) -> u128 {
        self.id
    }

    open spec fn inv(&self) -> bool {
        true
    }

    fn key_ref(&self) -> (r: &u128) {
        let r = &self.id;
        assert(r.kv() == *r);
        r
    }
}

/// The two playlists hold the same values (the file lists by their contents).
pub open spec fn same_playlist(a: MohPlaylist, b: MohPlaylist) -> bool {
    &&& a == (MohPlaylist { audio_files: a.audio_files, ..b })
    &&& a.audio_files@ == b.audio_files@
}

impl MohPlaylist {
    /// An empty, enabled, sequential playlist created at `now`.
    pub fn new_at(id: u128, name: String, now: i64) -> (r: Self)
        ensures
            r.id == id,
            r.name == name,
            r.description@.len() == 0,
            r.audio_files@.len() == 0,
            r.playback_mode == MohPlaybackMode::Sequential,
            r.enabled,
            r.created_at == now && r.updated_at == now,
    {
        MohPlaylist {
            id,
            name,
            description: String::new(),
            audio_files: Vec::new(),
            playback_mode: MohPlaybackMode::Sequential,
            enabled: true,
            created_at: now,
            updated_at: now,
        }
    }

    /// An empty, enabled, sequential playlist created now, with a fresh identifier.
    pub fn new(name: String) -> (r: Self)
        ensures
            is_v4_uuid(r.id),
            r.name == name,
            r.description@.len() == 0,
            r.audio_files@.len() == 0,
            r.playback_mode == MohPlaybackMode::Sequential,
            r.enabled,
    {
        let id = new_uuid();
        Self::new_at(id, name, now_millis())
    }

    pub fn with_description(self, description: String) -> (r: Self)
        ensures
            r == (MohPlaylist { description, ..self }),
    {
        let mut p = self;
        p.description = description;
        p
    }

    pub fn with_playback_mode(self, mode: MohPlaybackMode) -> (r: Self)
        ensures
            r == (MohPlaylist { playback_mode: mode, ..self }),
    {
        let mut p = self;
        p.playback_mode = mode;
        p
    }

    /// Appends a file at `now` unless it is already listed.
    pub fn add_file_at(&mut self, file_id: u128, now: i64)
        ensures
            old(self).audio_files@.contains(file_id) ==> *final(self) == *old(self),
            !old(self).audio_files@.contains(file_id) ==> {
                &&& final(self).audio_files@ == old(self).audio_files@.push(file_id)
                &&& final(self).updated_at == now
                &&& final(self).id == old(self).id && final(self).name == old(self).name
                &&& final(self).description == old(self).description
                &&& final(self).playback_mode == old(self).playback_mode
                &&& final(self).enabled == old(self).enabled
                &&& final(self).created_at == old(self).created_at
            },
    {
        proof {
            lemma_id_position(self.audio_files@, file_id);
        }
        if find_id(&self.audio_files, file_id) == self.audio_files.len() {
            self.audio_files.push(file_id);
            self.updated_at = now;
        }
    }

    /// Appends a file now unless it is already listed.
    pub fn add_file(&mut self, file_id: u128)
        ensures
            final(self).audio_files@.contains(file_id),
            old(self).audio_files@.contains(file_id) ==> final(self).audio_files@ == old(self).audio_files@,
            !old(self).audio_files@.contains(file_id) ==> final(self).audio_files@ == old(self).audio_files@.push(file_id),
            exists|now: i64| #[trigger] clock_reading(now) && {
                &&& (old(self).audio_files@.contains(file_id) ==> *final(self) == *old(self))
                &&& (!old(self).audio_files@.contains(file_id) ==> {
                    &&& final(self).audio_files@ == old(self).audio_files@.push(file_id)
                    &&& final(self).updated_at == now
                    &&& final(self).id == old(self).id && final(self).name == old(self).name
                    &&& final(self).description == old(self).description
                    &&& final(self).playback_mode == old(self).playback_mode
                    &&& final(self).enabled == old(self).enabled
                    &&& final(self).created_at == old(self).created_at
                })
            },
    {
        let now = now_millis();
        proof {
            assert(clock_reading(now));
        }
        self.add_file_at(file_id, now);
        proof {
            if !old(self).audio_files@.contains(file_id) {
                assert(self.audio_files@[self.audio_files@.len() - 1] == file_id);
            }
        }
    }

    /// Removes the first occurrence of a file at `now`; whether it was listed.
    pub fn remove_file_at(&mut self, file_id: &u128, now: i64) -> (r: bool)
        ensures
            r == old(self).audio_files@.contains(*file_id),
            !r ==> *final(self) == *old(self),
            r ==> {
                &&& final(self).audio_files@ == old(self).audio_files@.remove(id_position(old(self).audio_files@, *file_id))
                &&& final(self).updated_at == now
                &&& final(self).id == old(self).id && final(self).name == old(self).name
                &&& final(self).description == old(self).description
                &&& final(self).playback_mode == old(self).playback_mode
                &&& final(self).enabled == old(self).enabled
                &&& final(self).created_at == old(self).created_at
            },
    {
        proof {
            lemma_id_position(self.audio_files@, *file_id);
        }
        let p = find_id(&self.audio_files, *file_id);
        if p < self.audio_files.len() {
            self.audio_files.remove(p);
            self.updated_at = now;
            true
        } else {
            false
        }
    }

    /// Removes the first occurrence of a file now; whether it was listed.
    pub fn remove_file(&mut self, file_id: &u128) -> (r: bool)
        ensures
            r == old(self).audio_files@.contains(*file_id),
            !r ==> final(self).audio_files@ == old(self).audio_files@,
            r ==> final(self).audio_files@ == old(self).audio_files@.remove(id_position(old(self).audio_files@, *file_id)),
            exists|now: i64| #[trigger] clock_reading(now) && {
                &&& (r == old(self).audio_files@.contains(*file_id))
                &&& (!r ==> *final(self) == *old(self))
                &&& (r ==> {
                    &&& final(self).audio_files@ == old(self).audio_files@.remove(id_position(old(self).audio_files@, *file_id))
                    &&& final(self).updated_at == now
                    &&& final(self).id == old(self).id && final(self).name == old(self).name
                    &&& final(self).description == old(self).description
                    &&& final(self).playback_mode == old(self).playback_mode
                    &&& final(self).enabled == old(self).enabled
                    &&& final(self).created_at == old(self).created_at
                })
            },
    {
        let now = now_millis();
        proof {
            assert(clock_reading(now));
        }
        self.remove_file_at(file_id, now)
    }

    /// Empties the playlist at `now`.
    pub fn clear_files_at(&mut self, now: i64)
        ensures
            final(self).audio_files@.len() == 0,
            final(self).updated_at == now,
            final(self).id == old(self).id && final(self).name == old(self).name,
            final(self).playback_mode == old(self).playback_mode && final(self).enabled == old(self).enabled,
    {
        self.audio_files.clear();
        self.updated_at = now;
    }

    /// Empties the playlist now.
    pub fn clear_files(&mut self)
        ensures
            final(self).audio_files@.len() == 0,
            exists|now: i64| #[trigger] clock_reading(now) && {
                &&& (final(self).audio_files@.len() == 0)
                &&& (final(self).updated_at == now)
                &&& (final(self).id == old(self).id && final(self).name == old(self).name)
                &&& (final(self).playback_mode == old(self).playback_mode && final(self).enabled == old(self).enabled)
            },
    {
        let now = now_millis();
        proof {
            assert(clock_reading(now));
        }
        self.clear_files_at(now);
    }

    pub fn file_count(&self) -> (r: usize)
        ensures
            r == self.audio_files@.len(),
    {
        self.audio_files.len()
    }

    pub fn is_empty(&self) -> (r: bool)
        ensures
            r == (self.audio_files@.len() == 0),
    {
        self.audio_files.len() == 0
    }

    pub fn duplicate(&self) -> (r: Self)
        ensures
            same_playlist(r, *self),
    {
        MohPlaylist {
            id: self.id,
            name: self.name.clone(),
            description: self.description.clone(),
            audio_files: self.audio_files.clone(),
            playback_mode: self.playback_mode,
            enabled: self.enabled,
            created_at: self.created_at,
            updated_at: self.updated_at,
        }
    }
}

/// Music on Hold session for an active call.
#[derive(Debug)]
pub struct MohSession {
    pub id: u128,
    pub call_id: String,
    pub playlist_id: u128,
    pub current_file_index: usize,
    pub playback_position_ms: u64,
    pub started_at: i64,
    pub paused: bool,
    pub loop_count: u32,
}

impl Keyed for MohSession {
    type Key = str;

    open spec fn key(&self) -> Seq<char> {
        self.call_id@
    }

    open spec fn inv(&self) -> bool {
        true
    }

    fn key_ref(&self) -> (r: &str) {
        let r = self.call_id.as_str();
        assert(r.kv() == r@);
        r
    }
}

/// The session can move to the next of `file_count` files without a
/// counter passing its limit.
pub open spec fn advance_fits(s: MohSession, file_count: usize) -> bool {
    file_count > 0 ==> s.current_file_index < usize::MAX && ((s.current_file_index + 1) % (file_count as int) == 0
        ==> s.loop_count < u32::MAX)
}

impl MohSession {
    /// A session for a call, started at `now` on the first file.
    pub fn new_at(id: u128, call_id: String, playlist_id: u128, now: i64) -> (r: Self)
        ensures
            r == (MohSession {
                id,
                call_id,
                playlist_id,
                current_file_index: 0,
                playback_position_ms: 0,
                started_at: now,
                paused: false,
                loop_count: 0,
            }),
    {
        MohSession {
            id,
            call_id,
            playlist_id,
            current_file_index: 0,
            playback_position_ms: 0,
            started_at: now,
            paused: false,
            loop_count: 0,
        }
    }

    /// A session for a call, started now with a fresh identifier.
    pub fn new(call_id: String, playlist_id: u128) -> (r: Self)
        ensures
            is_v4_uuid(r.id),
            r.call_id == call_id,
            r.playlist_id == playlist_id,
            r.current_file_index == 0 && r.playback_position_ms == 0 && !r.paused && r.loop_count == 0,
    {
        let id = new_uuid();
        Self::new_at(id, call_id, playlist_id, now_millis())
    }

    /// Milliseconds since the session started, at `now`.
    pub fn duration_ms_at(&self, now: i64) -> (r: i128)
        ensures
            r == now - self.started_at,
    {
        now as i128 - self.started_at as i128
    }

    /// Whole seconds since the session started, at `now` (toward zero).
    pub fn duration_seconds_at(&self, now: i64) -> (r: i64)
        ensures
            r == seconds_between(now, self.started_at),
    {
        elapsed_seconds(now, self.started_at)
    }

    /// Whole seconds since the session started.
    pub fn duration_seconds(&self) -> (r: i64)
        ensures
            exists|now: i64| r == #[trigger] seconds_between(now, self.started_at),
    {
        self.duration_seconds_at(now_millis())
    }

    pub fn pause(&mut self)
        ensures
            *final(self) == (MohSession { paused: true, ..*old(self) }),
    {
        self.paused = true;
    }

    pub fn resume(&mut self)
        ensures
            *final(self) == (MohSession { paused: false, ..*old(self) }),
    {
        self.paused = false;
    }

    /// Moves to the next of `file_count` files (wrapping to the first, which
    /// counts one more loop) at its start; false with no files.
    pub fn advance_to_next(&mut self, file_count: usize) -> (r: bool)
        requires
            advance_fits(*old(self), file_count),
        ensures
            r == (file_count > 0),
            !r ==> *final(self) == *old(self),
            r ==> {
                let next = ((old(self).current_file_index + 1) % (file_count as int)) as usize;
                *final(self) == (MohSession {
                    current_file_index: next,
                    playback_position_ms: 0,
                    loop_count: if next == 0 { (old(self).loop_count + 1) as u32 } else { old(self).loop_count },
                    ..*old(self)
                })
            },
    {
        if file_count == 0 {
            return false;
        }
        self.current_file_index = (self.current_file_index + 1) % file_count;
        self.playback_position_ms = 0;
        if self.current_file_index == 0 {
            self.loop_count = self.loop_count + 1;
        }
        true
    }

    /// Back to the start of the first file, playing.
    pub fn reset(&mut self)
        ensures
            *final(self) == (MohSession {
                current_file_index: 0,
                playback_position_ms: 0,
                paused: false,
                ..*old(self)
            }),
    {
        self.current_file_index = 0;
        self.playback_position_ms = 0;
        self.paused = false;
    }

    pub fn duplicate(&self) -> (r: Self)
        ensures
            r == *self,
    {
        MohSession {
            id: self.id,
            call_id: self.call_id.clone(),
            playlist_id: self.playlist_id,
            current_file_index: self.current_file_index,
            playback_position_ms: self.playback_position_ms,
            started_at: self.started_at,
            paused: self.paused,
            loop_count: self.loop_count,
        }
    }
}

/// The enabled files among `items` that were found on disk (`present`, one
/// answer per file, in order).
pub open spec fn enabled_present(items: Seq<MohAudioFile>, present: Seq<bool>) -> Seq<MohAudioFile>
    decreases items.len(),
{
    if items.len() == 0 {
        Seq::empty()
    } else {
        let rest = enabled_present(items.drop_last(), present.drop_last());
        if items.last().enabled && present.last() {
            rest.push(items.last())
        } else {
            rest
        }
    }
}

/// The sizes of files added up.
pub open spec fn sum_sizes(items: Seq<MohAudioFile>) -> int
    decreases items.len(),
{
    if items.len() == 0 {
        0
    } else {
        sum_sizes(items.drop_last()) + items.last().file_size_bytes
    }
}

proof fn lemma_sum_sizes_mono(items: Seq<MohAudioFile>, i: int)
    requires
        0 <= i <= items.len(),
    ensures
        0 <= sum_sizes(items.take(i)) <= sum_sizes(items),
    decreases items.len() - i,
{
    if i < items.len() {
        lemma_sum_sizes_mono(items, i + 1);
        assert(items.take(i + 1).drop_last() =~= items.take(i));
    } else {
        assert(items.take(i) =~= items);
    }
    lemma_sum_sizes_nonneg(items.take(i));
}

proof fn lemma_sum_sizes_nonneg(items: Seq<MohAudioFile>)
    ensures
        0 <= sum_sizes(items),
    decreases items.len(),
{
    if items.len() > 0 {
        lemma_sum_sizes_nonneg(items.drop_last());
    }
}

/// The whether-on-disk answers cover the enabled files of `items`.
pub open spec fn answers_for<F: Fn(&MohAudioFile) -> bool>(
    file_exists: &F,
    items: Seq<MohAudioFile>,
    present: Seq<bool>,
) -> bool {
    &&& present.len() == items.len()
    &&& forall|i: int| 0 <= i < items.len() && (#[trigger] items[i]).enabled ==> file_exists.ensures((&items[i],), present[i])
}

/// Music on Hold file manager: the known audio files by identifier.
pub struct MohFileManager {
    audio_files: Store<MohAudioFile>,
    base_directory: String,
}

impl MohFileManager {
    pub closed spec fn spec_files(&self) -> Store<MohAudioFile> {
        self.audio_files
    }

    pub closed spec fn spec_base_directory(&self) -> Seq<char> {
        self.base_directory@
    }

    /// The file with the given identifier.
    pub open spec fn file(&self, id: u128) -> Option<MohAudioFile> {
        self.spec_files().get_spec(id)
    }

    pub open spec fn wf(&self) -> bool {
        self.spec_files().wf()
    }

    pub fn new(base_directory: String) -> (r: Self)
        ensures
            r.wf(),
            r.spec_files().items().len() == 0,
            r.spec_base_directory() == base_directory@,
    {
        MohFileManager { audio_files: Store::new(), base_directory }
    }

    /// Adds (or replaces) a file under its identifier, which is returned.
    pub fn add_file(&mut self, file: MohAudioFile) -> (r: u128)
        requires
            old(self).wf(),
        ensures
            final(self).wf(),
            r == file.id,
            final(self).file(r) == Some(file),
            forall|k: u128| k != r ==> final(self).file(k) == old(self).file(k),
            final(self).spec_base_directory() == old(self).spec_base_directory(),
    {
        let id = file.id;
        self.audio_files.insert(file);
        id
    }

    /// Forgets a file; whether it was known.
    pub fn remove_file(&mut self, file_id: &u128) -> (r: bool)
        requires
            old(self).wf(),
        ensures
            final(self).wf(),
            r == (old(self).file(*file_id) is Some),
            final(self).file(*file_id) is None,
            forall|k: u128| k != *file_id ==> final(self).file(k) == old(self).file(k),
            final(self).spec_base_directory() == old(self).spec_base_directory(),
    {
        self.audio_files.remove(file_id).is_some()
    }

    pub fn get_file(&self, file_id: &u128) -> (r: Option<MohAudioFile>)
        requires
            self.wf(),
        ensures
            r == self.file(*file_id),
    {
        match self.audio_files.get(file_id) {
            Some(f) => Some(f.duplicate()),
            None => None,
        }
    }

    /// Copies of all files.
    pub fn list_files(&self) -> (r: Vec<MohAudioFile>)
        ensures
            r@ == self.spec_files().items(),
    {
        let ghost items = self.audio_files.items();
        let mut out: Vec<MohAudioFile> = Vec::new();
        let mut i: usize = 0;
        while i < self.audio_files.len()
            invariant
                items == self.audio_files.items(),
                i <= items.len(),
                out@ == items.take(i as int),
            decreases items.len() - i,
        {
            out.push(self.audio_files.at(i).duplicate());
            i = i + 1;
            assert(out@ =~= items.take(i as int));
        }
        assert(items.take(i as int) =~= items);
        out
    }

    /// Copies of the playable files: the enabled ones that `file_exists`
    /// finds on disk (asked of the enabled files only, once each).
    pub fn list_enabled_files<F: Fn(&MohAudioFile) -> bool>(&self, file_exists: &F) -> (r: Vec<MohAudioFile>)
        requires
            forall|f: &MohAudioFile| #[trigger] file_exists.requires((f,)),
        ensures
            exists|present: Seq<bool>| #[trigger] answers_for(file_exists, self.spec_files().items(), present)
                && r@ == enabled_present(self.spec_files().items(), present),
    {
        let ghost items = self.audio_files.items();
        let ghost mut present: Seq<bool> = Seq::empty();
        let mut out: Vec<MohAudioFile> = Vec::new();
        let mut i: usize = 0;
        while i < self.audio_files.len()
            invariant
                items == self.audio_files.items(),
                i <= items.len(),
                forall|f: &MohAudioFile| #[trigger] file_exists.requires((f,)),
                answers_for(file_exists, items.take(i as int), present),
                out@ == enabled_present(items.take(i as int), present),
            decreases items.len() - i,
        {
            let f = self.audio_files.at(i);
            let on_disk = if f.enabled {
                file_exists(f)
            } else {
                false
            };
            if f.enabled && on_disk {
                out.push(f.duplicate());
            }
            proof {
                let t = items.take(i + 1);
                assert(t.drop_last() =~= items.take(i as int));
                let p2 = present.push(on_disk);
                assert(p2.drop_last() =~= present);
                assert forall|j: int| 0 <= j < t.len() && (#[trigger] t[j]).enabled implies file_exists.ensures(
                    (&t[j],),
                    p2[j],
                ) by {
                    if j < i {
                        assert(t[j] == items.take(i as int)[j]);
                    }
                }
                present = p2;
            }
            i = i + 1;
        }
        assert(items.take(i as int) =~= items);
        assert(answers_for(file_exists, self.spec_files().items(), present));
        assert(out@ == enabled_present(self.spec_files().items(), present));
        out
    }

    /// Sets whether a file is enabled; whether it was known.
    fn set_enabled(&mut self, file_id: &u128, enabled: bool) -> (r: bool)
        requires
            old(self).wf(),
        ensures
            final(self).wf(),
            r == (old(self).file(*file_id) is Some),
            match old(self).file(*file_id) {
                Some(f) => final(self).file(*file_id) == Some(MohAudioFile { enabled, ..f }),
                None => final(self).file(*file_id) is None,
            },
            forall|k: u128| k != *file_id ==> final(self).file(k) == old(self).file(k),
            final(self).spec_base_directory() == old(self).spec_base_directory(),
    {
        match self.audio_files.find(file_id) {
            Some(i) => {
                let mut f = self.audio_files.take_at(i);
                f.enabled = enabled;
                self.audio_files.put_at(i, f);
                true
            },
            None => false,
        }
    }

    /// Enables a file; whether it was known.
    pub fn enable_file(&mut self, file_id: &u128) -> (r: bool)
        requires
            old(self).wf(),
        ensures
            final(self).wf(),
            r == (old(self).file(*file_id) is Some),
            match old(self).file(*file_id) {
                Some(f) => final(self).file(*file_id) == Some(MohAudioFile { enabled: true, ..f }),
                None => final(self).file(*file_id) is None,
            },
            forall|k: u128| k != *file_id ==> final(self).file(k) == old(self).file(k),
    {
        self.set_enabled(file_id, true)
    }

    /// Disables a file; whether it was known.
    pub fn disable_file(&mut self, file_id: &u128) -> (r: bool)
        requires
            old(self).wf(),
        ensures
            final(self).wf(),
            r == (old(self).file(*file_id) is Some),
            match old(self).file(*file_id) {
                Some(f) => final(self).file(*file_id) == Some(MohAudioFile { enabled: false, ..f }),
                None => final(self).file(*file_id) is None,
            },
            forall|k: u128| k != *file_id ==> final(self).file(k) == old(self).file(k),
    {
        self.set_enabled(file_id, false)
    }

    /// Registers one file found while scanning a directory, at `now` under
    /// `id`: files whose extension names no known format are skipped; the
    /// others are added, 8 kHz mono with no length and the size on disk.
    pub fn scan_entry_at(
        &mut self,
        name: String,
        path: String,
        extension: &str,
        file_size: u64,
        id: u128,
        now: i64,
    ) -> (r: Option<u128>)
        requires
            old(self).wf(),
        ensures
            final(self).wf(),
            match format_of_lowercase(unicode_lowercase(extension@)) {
                None => r is None && final(self).spec_files() == old(self).spec_files(),
                Some(format) => {
                    &&& r == Some(id)
                    &&& final(self).file(id) == Some(
                        MohAudioFile {
                            id,
                            name,
                            file_path: path,
                            format,
                            duration_ms: 0,
                            sample_rate: 8000,
                            channels: 1,
                            file_size_bytes: file_size,
                            enabled: true,
                            added_at: now,
                        },
                    )
                    &&& forall|k: u128| k != id ==> final(self).file(k) == old(self).file(k)
                },
            },
    {
        match MohAudioFormat::from_extension(extension) {
            Some(format) => {
                let file = MohAudioFile::new_at(id, name, path, format, now).with_metadata(0, 8000, 1, file_size);
                Some(self.add_file(file))
            },
            None => None,
        }
    }

    /// Registers one file found while scanning a directory, now.
    pub fn scan_entry(&mut self, name: String, path: String, extension: &str, file_size: u64) -> (r: Option<u128>)
        requires
            old(self).wf(),
        ensures
            final(self).wf(),
            r is Some <==> format_of_lowercase(unicode_lowercase(extension@)) is Some,
            r matches Some(id) ==> final(self).file(id) matches Some(f) && f.file_size_bytes == file_size && f.enabled,
            exists|now: i64, id: u128| #![trigger clock_reading(now), is_v4_uuid(id)] clock_reading(now) && is_v4_uuid(id) && {
                &&& (match format_of_lowercase(unicode_lowercase(extension@)) {
                    None => r is None && final(self).spec_files() == old(self).spec_files(),
                    Some(format) => {
                        &&& r == Some(id)
                        &&& final(self).file(id) == Some(
                            MohAudioFile {
                                id,
                                name,
                                file_path: path,
                                format,
                                duration_ms: 0,
                                sample_rate: 8000,
                                channels: 1,
                                file_size_bytes: file_size,
                                enabled: true,
                                added_at: now,
                            },
                        )
                        &&& forall|k: u128| k != id ==> final(self).file(k) == old(self).file(k)
                    },
                })
            },
    {
        let now = now_millis();
        let id = new_uuid();
        proof {
            assert(clock_reading(now));
        }
        self.scan_entry_at(name, path, extension, file_size, id, now)
    }

    /// The sizes of all files added up.
    pub fn total_storage_bytes(&self) -> (r: u64)
        requires
            sum_sizes(self.spec_files().items()) <= u64::MAX,
        ensures
            r == sum_sizes(self.spec_files().items()),
    {
        let ghost items = self.audio_files.items();
        let mut total: u64 = 0;
        let mut i: usize = 0;
        while i < self.audio_files.len()
            invariant
                items == self.audio_files.items(),
                i <= items.len(),
                sum_sizes(items) <= u64::MAX,
                total == sum_sizes(items.take(i as int)),
            decreases items.len() - i,
        {
            proof {
                assert(items.take(i + 1).drop_last() =~= items.take(i as int));
                lemma_sum_sizes_mono(items, i + 1);
            }
            total = total + self.audio_files.at(i).file_size_bytes;
            i = i + 1;
        }
        assert(items.take(i as int) =~= items);
        total
    }

    pub fn file_count(&self) -> (r: usize)
        ensures
            r == self.spec_files().items().len(),
    {
        self.audio_files.len()
    }
}

/// The number of enabled playlists.
pub open spec fn count_enabled(ps: Seq<MohPlaylist>) -> int
    decreases ps.len(),
{
    if ps.len() == 0 {
        0
    } else {
        count_enabled(ps.drop_last()) + if ps.last().enabled { 1int } else { 0int }
    }
}

proof fn lemma_count_enabled_bound(ps: Seq<MohPlaylist>)
    ensures
        0 <= count_enabled(ps) <= ps.len(),
    decreases ps.len(),
{
    if ps.len() > 0 {
        lemma_count_enabled_bound(ps.drop_last());
    }
}

proof fn lemma_enabled_present_len(items: Seq<MohAudioFile>, present: Seq<bool>)
    ensures
        enabled_present(items, present).len() <= items.len(),
    decreases items.len(),
{
    if items.len() > 0 {
        lemma_enabled_present_len(items.drop_last(), present.drop_last());
    }
}

/// Music on Hold statistics
#[derive(Debug, Clone)]
pub struct MohStatistics {
    pub total_playlists: usize,
    pub enabled_playlists: usize,
    pub total_audio_files: usize,
    pub enabled_audio_files: usize,
    pub active_sessions: usize,
    pub total_storage_bytes: u64,
}

/// Music on Hold manager: the audio files, the playlists, the default
/// playlist and the session playing to each held call.
pub struct MohManager {
    pub file_manager: MohFileManager,
    pub playlists: Store<MohPlaylist>,
    pub active_sessions: Store<MohSession>,
    pub default_playlist_id: Option<u128>,
}

/// The error of a playback start that found no playlist to use.
pub open spec fn no_playlist_message() -> Seq<char> {
    "No playlist specified and no default playlist set"@
}

impl MohManager {
    /// The stores are well formed and the default playlist, if any, exists.
    pub open spec fn wf(&self) -> bool {
        &&& self.file_manager.wf()
        &&& self.playlists.wf()
        &&& self.active_sessions.wf()
        &&& self.default_playlist_id matches Some(d) ==> self.playlists.contains(d)
    }

    /// The session playing to a call.
    pub open spec fn session(&self, call_id: Seq<char>) -> Option<MohSession> {
        self.active_sessions.get_spec(call_id)
    }

    pub fn new(base_directory: String) -> (r: Self)
        ensures
            r.wf(),
            r.file_manager.spec_files().items().len() == 0,
            r.file_manager.spec_base_directory() == base_directory@,
            r.playlists.items().len() == 0,
            r.active_sessions.items().len() == 0,
            r.default_playlist_id is None,
    {
        MohManager {
            file_manager: MohFileManager::new(base_directory),
            playlists: Store::new(),
            active_sessions: Store::new(),
            default_playlist_id: None,
        }
    }

    pub fn file_manager(&self) -> (r: &MohFileManager)
        ensures
            *r == self.file_manager,
    {
        &self.file_manager
    }

    /// Adds (or replaces) a playlist under its identifier, which becomes the
    /// default when there is none yet.
    pub fn create_playlist(&mut self, playlist: MohPlaylist) -> (r: u128)
        requires
            old(self).wf(),
        ensures
            final(self).wf(),
            r == playlist.id,
            final(self).playlists.get_spec(r) == Some(playlist),
            forall|k: u128| k != r ==> final(self).playlists.get_spec(k) == old(self).playlists.get_spec(k),
            final(self).default_playlist_id == if old(self).default_playlist_id is None {
                Some(r)
            } else {
                old(self).default_playlist_id
            },
            final(self).file_manager == old(self).file_manager,
            final(self).active_sessions == old(self).active_sessions,
    {
        let id = playlist.id;
        self.playlists.insert(playlist);
        if self.default_playlist_id.is_none() {
            self.default_playlist_id = Some(id);
        }
        id
    }

    pub fn get_playlist(&self, playlist_id: &u128) -> (r: Option<MohPlaylist>)
        requires
            self.wf(),
        ensures
            match self.playlists.get_spec(*playlist_id) {
                Some(p) => r matches Some(q) && same_playlist(q, p),
                None => r is None,
            },
    {
        match self.playlists.get(playlist_id) {
            Some(p) => Some(p.duplicate()),
            None => None,
        }
    }

    /// Replaces a known playlist; whether it was known.
    pub fn update_playlist(&mut self, playlist: MohPlaylist) -> (r: bool)
        requires
            old(self).wf(),
        ensures
            final(self).wf(),
            r == old(self).playlists.contains(playlist.id),
            r ==> final(self).playlists.get_spec(playlist.id) == Some(playlist),
            !r ==> final(self).playlists == old(self).playlists,
            forall|k: u128| k != playlist.id ==> final(self).playlists.get_spec(k) == old(self).playlists.get_spec(k),
            final(self).default_playlist_id == old(self).default_playlist_id,
            final(self).file_manager == old(self).file_manager,
            final(self).active_sessions == old(self).active_sessions,
    {
        if self.playlists.find(&playlist.id).is_some() {
            self.playlists.insert(playlist);
            true
        } else {
            false
        }
    }

    /// Deletes a playlist other than the default; whether one was deleted.
    pub fn delete_playlist(&mut self, playlist_id: &u128) -> (r: bool)
        requires
            old(self).wf(),
        ensures
            final(self).wf(),
            r == (old(self).playlists.contains(*playlist_id) && old(self).default_playlist_id != Some(*playlist_id)),
            old(self).default_playlist_id == Some(*playlist_id) ==> final(self).playlists == old(self).playlists,
            old(self).default_playlist_id != Some(*playlist_id) ==> !final(self).playlists.contains(*playlist_id),
            forall|k: u128| k != *playlist_id ==> final(self).playlists.get_spec(k) == old(self).playlists.get_spec(k),
            final(self).default_playlist_id == old(self).default_playlist_id,
            final(self).file_manager == old(self).file_manager,
            final(self).active_sessions == old(self).active_sessions,
    {
        if self.is_default_playlist(playlist_id) {
            return false;
        }
        self.playlists.remove(playlist_id).is_some()
    }

    /// Copies of all playlists.
    pub fn list_playlists(&self) -> (r: Vec<MohPlaylist>)
        ensures
            r@.len() == self.playlists.items().len(),
            forall|i: int| 0 <= i < r@.len() ==> same_playlist(#[trigger] r@[i], self.playlists.items()[i]),
    {
        let ghost items = self.playlists.items();
        let mut out: Vec<MohPlaylist> = Vec::new();
        let mut i: usize = 0;
        while i < self.playlists.len()
            invariant
                items == self.playlists.items(),
                i <= items.len(),
                out@.len() == i,
                forall|j: int| 0 <= j < i ==> same_playlist(#[trigger] out@[j], items[j]),
            decreases items.len() - i,
        {
            out.push(self.playlists.at(i).duplicate());
            i = i + 1;
        }
        out
    }

    /// Makes a known playlist the default; whether it was known.
    pub fn set_default_playlist(&mut self, playlist_id: u128) -> (r: bool)
        requires
            old(self).wf(),
        ensures
            final(self).wf(),
            r == old(self).playlists.contains(playlist_id),
            final(self).default_playlist_id == if r { Some(playlist_id) } else { old(self).default_playlist_id },
            final(self).playlists == old(self).playlists,
            final(self).file_manager == old(self).file_manager,
            final(self).active_sessions == old(self).active_sessions,
    {
        if self.playlists.find(&playlist_id).is_some() {
            self.default_playlist_id = Some(playlist_id);
            true
        } else {
            false
        }
    }

    pub fn get_default_playlist(&self) -> (r: Option<MohPlaylist>)
        requires
            self.wf(),
        ensures
            match self.default_playlist_id {
                Some(d) => r matches Some(q) && self.playlists.get_spec(d) matches Some(p) && same_playlist(q, p),
                None => r is None,
            },
    {
        match self.default_playlist_id {
            Some(id) => self.get_playlist(&id),
            None => None,
        }
    }

    pub fn is_default_playlist(&self, playlist_id: &u128) -> (r: bool)
        ensures
            r == (self.default_playlist_id == Some(*playlist_id)),
    {
        match self.default_playlist_id {
            Some(d) => d == *playlist_id,
            None => false,
        }
    }

    /// Starts music on hold for a call at `now`, under session identifier
    /// `session_id`, from the given playlist or else the default one. The
    /// playlist must exist, be enabled and hold files; a session the call
    /// already had is replaced.
    pub fn start_moh_at(
        &mut self,
        call_id: String,
        playlist_id: Option<u128>,
        session_id: u128,
        now: i64,
    ) -> (r: Result<u128, String>)
        requires
            old(self).wf(),
        ensures
            final(self).wf(),
            final(self).playlists == old(self).playlists,
            final(self).file_manager == old(self).file_manager,
            final(self).default_playlist_id == old(self).default_playlist_id,
            match (if playlist_id is Some { playlist_id } else { old(self).default_playlist_id }) {
                None => r matches Err(e) && e@ == no_playlist_message() && final(self).active_sessions
                    == old(self).active_sessions,
                Some(pid) => match old(self).playlists.get_spec(pid) {
                    None => r matches Err(e) && e@ == "Playlist not found"@ && final(self).active_sessions
                        == old(self).active_sessions,
                    Some(p) => if !p.enabled {
                        r matches Err(e) && e@ == "Playlist is disabled"@ && final(self).active_sessions
                            == old(self).active_sessions
                    } else if p.audio_files@.len() == 0 {
                        r matches Err(e) && e@ == "Playlist is empty"@ && final(self).active_sessions
                            == old(self).active_sessions
                    } else {
                        &&& r == Ok::<u128, String>(session_id)
                        &&& final(self).session(call_id@) == Some(
                            MohSession {
                                id: session_id,
                                call_id,
                                playlist_id: pid,
                                current_file_index: 0,
                                playback_position_ms: 0,
                                started_at: now,
                                paused: false,
                                loop_count: 0,
                            },
                        )
                        &&& forall|k: Seq<char>| k != call_id@ ==> final(self).session(k) == old(self).session(k)
                    },
                },
            },
    {
        let pid = match playlist_id {
            Some(p) => p,
            None => match self.default_playlist_id {
                Some(d) => d,
                None => return Err(String::from_str("No playlist specified and no default playlist set")),
            },
        };
        let (enabled, empty) = match self.playlists.get(&pid) {
            Some(p) => (p.enabled, p.is_empty()),
            None => return Err(String::from_str("Playlist not found")),
        };
        if !enabled {
            return Err(String::from_str("Playlist is disabled"));
        }
        if empty {
            return Err(String::from_str("Playlist is empty"));
        }
        let session = MohSession::new_at(session_id, call_id, pid, now);
        self.active_sessions.insert(session);
        Ok(session_id)
    }

    /// Starts music on hold for a call now, with a fresh session identifier.
    pub fn start_moh(&mut self, call_id: String, playlist_id: Option<u128>) -> (r: Result<u128, String>)
        requires
            old(self).wf(),
        ensures
            final(self).wf(),
            final(self).playlists == old(self).playlists,
            r is Ok <==> (match (if playlist_id is Some { playlist_id } else { old(self).default_playlist_id }) {
                None => false,
                Some(pid) => old(self).playlists.get_spec(pid) matches Some(p) && p.enabled && p.audio_files@.len() > 0,
            }),
            r matches Ok(id) ==> (final(self).session(call_id@) matches Some(s) && s.id == id && is_v4_uuid(id)),
            exists|now: i64, session_id: u128| #![trigger clock_reading(now), is_v4_uuid(session_id)] clock_reading(now) && is_v4_uuid(session_id) && {
                &&& (final(self).playlists == old(self).playlists)
                &&& (final(self).file_manager == old(self).file_manager)
                &&& (final(self).default_playlist_id == old(self).default_playlist_id)
                &&& (match (if playlist_id is Some { playlist_id } else { old(self).default_playlist_id }) {
                    None => r matches Err(e) && e@ == no_playlist_message() && final(self).active_sessions
                        == old(self).active_sessions,
                    Some(pid) => match old(self).playlists.get_spec(pid) {
                        None => r matches Err(e) && e@ == "Playlist not found"@ && final(self).active_sessions
                            == old(self).active_sessions,
                        Some(p) => if !p.enabled {
                            r matches Err(e) && e@ == "Playlist is disabled"@ && final(self).active_sessions
                                == old(self).active_sessions
                        } else if p.audio_files@.len() == 0 {
                            r matches Err(e) && e@ == "Playlist is empty"@ && final(self).active_sessions
                                == old(self).active_sessions
                        } else {
                            &&& r == Ok::<u128, String>(session_id)
                            &&& final(self).session(call_id@) == Some(
                                MohSession {
                                    id: session_id,
                                    call_id,
                                    playlist_id: pid,
                                    current_file_index: 0,
                                    playback_position_ms: 0,
                                    started_at: now,
                                    paused: false,
                                    loop_count: 0,
                                },
                            )
                            &&& forall|k: Seq<char>| k != call_id@ ==> final(self).session(k) == old(self).session(k)
                        },
                    },
                })
            },
    {
        let now = now_millis();
        let id = new_uuid();
        proof {
            assert(clock_reading(now));
        }
        self.start_moh_at(call_id, playlist_id, id, now)
    }

    /// Stops the music for a call; whether it was playing.
    pub fn stop_moh(&mut self, call_id: &str) -> (r: bool)
        requires
            old(self).wf(),
        ensures
            final(self).wf(),
            r == (old(self).session(call_id@) is Some),
            final(self).session(call_id@) is None,
            forall|k: Seq<char>| k != call_id@ ==> final(self).session(k) == old(self).session(k),
            final(self).playlists == old(self).playlists,
            final(self).file_manager == old(self).file_manager,
            final(self).default_playlist_id == old(self).default_playlist_id,
    {
        self.active_sessions.remove(call_id).is_some()
    }

    fn set_paused(&mut self, call_id: &str, paused: bool) -> (r: bool)
        requires
            old(self).wf(),
        ensures
            final(self).wf(),
            r == (old(self).session(call_id@) is Some),
            match old(self).session(call_id@) {
                Some(s) => final(self).session(call_id@) == Some(MohSession { paused, ..s }),
                None => final(self).session(call_id@) is None,
            },
            forall|k: Seq<char>| k != call_id@ ==> final(self).session(k) == old(self).session(k),
            final(self).playlists == old(self).playlists,
            final(self).file_manager == old(self).file_manager,
            final(self).default_playlist_id == old(self).default_playlist_id,
    {
        match self.active_sessions.find(call_id) {
            Some(i) => {
                let mut s = self.active_sessions.take_at(i);
                s.paused = paused;
                self.active_sessions.put_at(i, s);
                true
            },
            None => false,
        }
    }

    /// Pauses the music for a call; whether it was playing.
    pub fn pause_moh(&mut self, call_id: &str) -> (r: bool)
        requires
            old(self).wf(),
        ensures
            final(self).wf(),
            r == (old(self).session(call_id@) is Some),
            match old(self).session(call_id@) {
                Some(s) => final(self).session(call_id@) == Some(MohSession { paused: true, ..s }),
                None => final(self).session(call_id@) is None,
            },
            forall|k: Seq<char>| k != call_id@ ==> final(self).session(k) == old(self).session(k),
    {
        self.set_paused(call_id, true)
    }

    /// Resumes the music for a call; whether it was playing.
    pub fn resume_moh(&mut self, call_id: &str) -> (r: bool)
        requires
            old(self).wf(),
        ensures
            final(self).wf(),
            r == (old(self).session(call_id@) is Some),
            match old(self).session(call_id@) {
                Some(s) => final(self).session(call_id@) == Some(MohSession { paused: false, ..s }),
                None => final(self).session(call_id@) is None,
            },
            forall|k: Seq<char>| k != call_id@ ==> final(self).session(k) == old(self).session(k),
    {
        self.set_paused(call_id, false)
    }

    /// A copy of the session playing to a call.
    pub fn get_session(&self, call_id: &str) -> (r: Option<MohSession>)
        requires
            self.wf(),
        ensures
            r == self.session(call_id@),
    {
        match self.active_sessions.get(call_id) {
            Some(s) => Some(s.duplicate()),
            None => None,
        }
    }

    /// The file a call is hearing: the one at its session's place in its
    /// playlist, if both still exist.
    pub fn get_current_file(&self, call_id: &str) -> (r: Option<MohAudioFile>)
        requires
            self.wf(),
        ensures
            r == match self.session(call_id@) {
                None => None,
                Some(s) => match self.playlists.get_spec(s.playlist_id) {
                    None => None,
                    Some(p) => if s.current_file_index < p.audio_files@.len() {
                        self.file_manager.file(p.audio_files@[s.current_file_index as int])
                    } else {
                        None
                    },
                },
            },
    {
        let s = match self.active_sessions.get(call_id) {
            Some(s) => s,
            None => return None,
        };
        let p = match self.playlists.get(&s.playlist_id) {
            Some(p) => p,
            None => return None,
        };
        if s.current_file_index >= p.audio_files.len() {
            return None;
        }
        self.file_manager.get_file(&p.audio_files[s.current_file_index])
    }

    /// The session of a call can move to its playlist's next file.
    pub open spec fn can_advance(&self, call_id: Seq<char>) -> bool {
        self.session(call_id) matches Some(s) ==> (self.playlists.get_spec(s.playlist_id) matches Some(p)
            ==> advance_fits(s, p.audio_files@.len() as usize))
    }

    /// Moves a call to the next file of its playlist; false when the call has
    /// no session, its playlist is gone or it is empty.
    pub fn advance_to_next_file(&mut self, call_id: &str) -> (r: bool)
        requires
            old(self).wf(),
            old(self).can_advance(call_id@),
        ensures
            final(self).wf(),
            forall|k: Seq<char>| k != call_id@ ==> final(self).session(k) == old(self).session(k),
            final(self).playlists == old(self).playlists,
            final(self).file_manager == old(self).file_manager,
            final(self).default_playlist_id == old(self).default_playlist_id,
            match old(self).session(call_id@) {
                None => !r && final(self).active_sessions == old(self).active_sessions,
                Some(s) => match old(self).playlists.get_spec(s.playlist_id) {
                    None => !r && final(self).active_sessions == old(self).active_sessions,
                    Some(p) => {
                        let n = p.audio_files@.len();
                        &&& r == (n > 0)
                        &&& !r ==> final(self).session(call_id@) == Some(s)
                        &&& r ==> {
                            let next = ((s.current_file_index + 1) % (n as int)) as usize;
                            final(self).session(call_id@) == Some(
                                MohSession {
                                    current_file_index: next,
                                    playback_position_ms: 0,
                                    loop_count: if next == 0 { (s.loop_count + 1) as u32 } else { s.loop_count },
                                    ..s
                                },
                            )
                        }
                    },
                },
            },
    {
        let i = match self.active_sessions.find(call_id) {
            Some(i) => i,
            None => return false,
        };
        let n = match self.playlists.get(&self.active_sessions.at(i).playlist_id) {
            Some(p) => p.audio_files.len(),
            None => return false,
        };
        let mut s = self.active_sessions.take_at(i);
        let moved = s.advance_to_next(n);
        self.active_sessions.put_at(i, s);
        moved
    }

    pub fn get_active_session_count(&self) -> (r: usize)
        ensures
            r == self.active_sessions.items().len(),
    {
        self.active_sessions.len()
    }

    /// The calls that have music on hold.
    pub fn list_active_sessions(&self) -> (r: Vec<String>)
        ensures
            r@.len() == self.active_sessions.items().len(),
            forall|i: int| 0 <= i < r@.len() ==> #[trigger] r@[i] == self.active_sessions.items()[i].call_id,
    {
        let ghost items = self.active_sessions.items();
        let mut out: Vec<String> = Vec::new();
        let mut i: usize = 0;
        while i < self.active_sessions.len()
            invariant
                items == self.active_sessions.items(),
                i <= items.len(),
                out@.len() == i,
                forall|j: int| 0 <= j < i ==> #[trigger] out@[j] == items[j].call_id,
            decreases items.len() - i,
        {
            out.push(self.active_sessions.at(i).call_id.clone());
            i = i + 1;
        }
        out
    }

    /// Counts of playlists, files and sessions, and the storage the files
    /// take; a file counts as enabled when it is enabled and `file_exists`
    /// finds it on disk.
    pub fn get_statistics<F: Fn(&MohAudioFile) -> bool>(&self, file_exists: &F) -> (r: MohStatistics)
        requires
            self.wf(),
            forall|f: &MohAudioFile| #[trigger] file_exists.requires((f,)),
            sum_sizes(self.file_manager.spec_files().items()) <= u64::MAX,
        ensures
            r.total_playlists == self.playlists.items().len(),
            r.enabled_playlists == count_enabled(self.playlists.items()),
            r.total_audio_files == self.file_manager.spec_files().items().len(),
            exists|present: Seq<bool>| #[trigger] answers_for(file_exists, self.file_manager.spec_files().items(), present)
                && r.enabled_audio_files == enabled_present(self.file_manager.spec_files().items(), present).len(),
            r.active_sessions == self.active_sessions.items().len(),
            r.total_storage_bytes == sum_sizes(self.file_manager.spec_files().items()),
    {
        let ghost ps = self.playlists.items();
        let mut enabled: usize = 0;
        let mut i: usize = 0;
        while i < self.playlists.len()
            invariant
                ps == self.playlists.items(),
                i <= ps.len(),
                enabled == count_enabled(ps.take(i as int)),
            decreases ps.len() - i,
        {
            proof {
                assert(ps.take(i + 1).drop_last() =~= ps.take(i as int));
                lemma_count_enabled_bound(ps.take(i as int));
            }
            if self.playlists.at(i).enabled {
                enabled = enabled + 1;
            }
            i = i + 1;
        }
        assert(ps.take(i as int) =~= ps);
        let on_disk = self.file_manager.list_enabled_files(file_exists);
        MohStatistics {
            total_playlists: self.playlists.len(),
            enabled_playlists: enabled,
            total_audio_files: self.file_manager.file_count(),
            enabled_audio_files: on_disk.len(),
            active_sessions: self.active_sessions.len(),
            total_storage_bytes: self.file_manager.total_storage_bytes(),
        }
    }
}

} // verus!
