//! Call recording: formats and quality presets, recording metadata, the
//! buffering of a recording session, the WAV header it ends with, and the
//! bookkeeping of active and completed recordings. Writing files is left to
//! the caller: the session hands out the bytes to append.
use vstd::prelude::*;
use crate::domain::audio::wav::{encode_sample, spec_encode16};
use crate::domain::shared::system::{clock_reading, format_uuid, is_v4_uuid, new_uuid, now_millis, uuid_text};
use crate::store::{has_key, KeyOf, Keyed, Store};
use crate::text::{join_path, path_join, str_eq};

verus! {

/// Recording format.
#[derive(Debug, Clone, Copy, PartialEq, Eq, Structural)]
pub enum RecordingFormat {
    /// WAV format with PCM encoding
    Wav,
    /// MP3 format (compressed)
    Mp3,
    /// Opus format (compressed, recommended)
    Opus,
}

impl RecordingFormat {
    pub open spec fn spec_extension(&self) -> Seq<char> {
        match self {
            RecordingFormat::Wav => "wav"@,
            RecordingFormat::Mp3 => "mp3"@,
            RecordingFormat::Opus => "opus"@,
        }
    }

    /// The file extension of the format.
    pub fn extension(&self) -> (r: &'static str)
        ensures
            r@ == self.spec_extension(),
    {
        match self {
            RecordingFormat::Wav => "wav",
            RecordingFormat::Mp3 => "mp3",
            RecordingFormat::Opus => "opus",
        }
    }
}

/// Recording direction.
#[derive(Debug, Clone, Copy, PartialEq, Eq, Structural)]
pub enum RecordingDirection {
    /// Record inbound calls only
    Inbound,
    /// Record outbound calls only
    Outbound,
    /// Record both directions
    Both,
    /// Record local calls only
    Local,
}

/// Recording quality preset.
#[derive(Debug, Clone, Copy, PartialEq, Eq, Structural)]
pub enum RecordingQuality {
    /// Telephony quality (8kHz, mono)
    Telephony,
    /// Standard quality (16kHz, mono)
    Standard,
    /// High quality (48kHz, stereo)
    High,
}

impl RecordingQuality {
    pub open spec fn spec_sample_rate(&self) -> u32 {
        match self {
            RecordingQuality::Telephony => 8000,
            RecordingQuality::Standard => 16000,
            RecordingQuality::High => 48000,
        }
    }

    pub open spec fn spec_channels(&self) -> u16 {
        match self {
            RecordingQuality::High => 2,
            _ => 1,
        }
    }

    /// Samples per second.
    pub fn sample_rate(&self) -> (r: u32)
        ensures
            r == self.spec_sample_rate(),
    {
        match self {
            RecordingQuality::Telephony => 8000,
            RecordingQuality::Standard => 16000,
            RecordingQuality::High => 48000,
        }
    }

    /// Number of channels.
    pub fn channels(&self) -> (r: u16)
        ensures
            r == self.spec_channels(),
    {
        match self {
            RecordingQuality::Telephony | RecordingQuality::Standard => 1,
            RecordingQuality::High => 2,
        }
    }
}

/// Recording metadata; times are milliseconds since the Unix epoch.
#[derive(Debug, Clone)]
pub struct RecordingMetadata {
    pub id: u128,
    pub call_id: String,
    pub filename: String,
    pub format: RecordingFormat,
    pub quality: RecordingQuality,
    pub started_at: i64,
    pub ended_at: Option<i64>,
    pub duration_ms: u64,
    pub file_size_bytes: u64,
    pub caller: String,
    pub callee: String,
    pub direction: RecordingDirection,
    pub tags: Vec<String>,
}

/// `b` holds what `a` holds, the tags compared by their contents.
pub open spec fn same_metadata(a: RecordingMetadata, b: RecordingMetadata) -> bool {
    &&& b.id == a.id
    &&& b.call_id == a.call_id
    &&& b.filename == a.filename
    &&& b.format == a.format
    &&& b.quality == a.quality
    &&& b.started_at == a.started_at
    &&& b.ended_at == a.ended_at
    &&& b.duration_ms == a.duration_ms
    &&& b.file_size_bytes == a.file_size_bytes
    &&& b.caller == a.caller
    &&& b.callee == a.callee
    &&& b.direction == a.direction
    &&& b.tags@ == a.tags@
}

/// `b` is `a` but for the tags, compared by their contents elsewhere.
pub open spec fn same_but_tags(a: RecordingMetadata, b: RecordingMetadata) -> bool {
    &&& b.id == a.id
    &&& b.call_id == a.call_id
    &&& b.filename == a.filename
    &&& b.format == a.format
    &&& b.quality == a.quality
    &&& b.started_at == a.started_at
    &&& b.ended_at == a.ended_at
    &&& b.duration_ms == a.duration_ms
    &&& b.file_size_bytes == a.file_size_bytes
    &&& b.caller == a.caller
    &&& b.callee == a.callee
    &&& b.direction == a.direction
}

/// The texts of a list of strings.
pub open spec fn texts(v: Seq<String>) -> Seq<Seq<char>> {
    v.map_values(|s: String| s@)
}

impl RecordingMetadata {
    /// Metadata of a recording started at `now`, with the given identifier.
    pub fn new_at(
        id: u128,
        call_id: String,
        filename: String,
        format: RecordingFormat,
        quality: RecordingQuality,
        caller: String,
        callee: String,
        direction: RecordingDirection,
        now: i64,
    ) -> (r: Self)
        ensures
            r.id == id,
            r.call_id == call_id,
            r.filename == filename,
            r.format == format,
            r.quality == quality,
            r.started_at == now,
            r.ended_at is None,
            r.duration_ms == 0,
            r.file_size_bytes == 0,
            r.caller == caller,
            r.callee == callee,
            r.direction == direction,
            r.tags@.len() == 0,
    {
        RecordingMetadata {
            id,
            call_id,
            filename,
            format,
            quality,
            started_at: now,
            ended_at: None,
            duration_ms: 0,
            file_size_bytes: 0,
            caller,
            callee,
            direction,
            tags: Vec::new(),
        }
    }

    /// Metadata of a recording started now, with a fresh identifier.
    pub fn new(
        call_id: String,
        filename: String,
        format: RecordingFormat,
        quality: RecordingQuality,
        caller: String,
        callee: String,
        direction: RecordingDirection,
    ) -> (r: Self)
        ensures
            is_v4_uuid(r.id),
            r.call_id == call_id,
            r.filename == filename,
            r.format == format,
            r.quality == quality,
            r.ended_at is None,
            r.duration_ms == 0,
            r.file_size_bytes == 0,
            r.caller == caller,
            r.callee == callee,
            r.direction == direction,
            r.tags@.len() == 0,
    {
        let id = new_uuid();
        let now = now_millis();
        Self::new_at(id, call_id, filename, format, quality, caller, callee, direction, now)
    }

    /// Ends the recording at `now`: the duration is the milliseconds since the
    /// start, taken as a `u64` as `as u64` takes it.
    pub fn finish_at(&mut self, file_size: u64, now: i64)
        ensures
            final(self).ended_at == Some(now),
            final(self).duration_ms == (now - old(self).started_at) as u64,
            final(self).file_size_bytes == file_size,
            final(self).tags@ == old(self).tags@,
            same_but_tags(
                RecordingMetadata {
                    ended_at: Some(now),
                    duration_ms: (now - old(self).started_at) as u64,
                    file_size_bytes: file_size,
                    ..*old(self)
                },
                *final(self),
            ),
    {
        self.ended_at = Some(now);
        let d: i128 = now as i128 - self.started_at as i128;
        self.duration_ms = d as u64;
        self.file_size_bytes = file_size;
    }

    /// Ends the recording now.
    pub fn finish(&mut self, file_size: u64)
        ensures
            final(self).ended_at matches Some(t) && final(self).duration_ms == (t
                - old(self).started_at) as u64,
            final(self).file_size_bytes == file_size,
            final(self).tags@ == old(self).tags@,
            exists|now: i64| #[trigger] clock_reading(now) && {
                &&& (final(self).ended_at == Some(now))
                &&& (final(self).duration_ms == (now - old(self).started_at) as u64)
                &&& (final(self).file_size_bytes == file_size)
                &&& (final(self).tags@ == old(self).tags@)
                &&& (same_but_tags(
                    RecordingMetadata {
                        ended_at: Some(now),
                        duration_ms: (now - old(self).started_at) as u64,
                        file_size_bytes: file_size,
                        ..*old(self)
                    },
                    *final(self),
                ))
            },
    {
        let now = now_millis();
        proof {
            assert(clock_reading(now));
        }
        self.finish_at(file_size, now);
    }

    /// Adds a tag unless it is already there.
    pub fn add_tag(&mut self, tag: String)
        ensures
            texts(old(self).tags@).contains(tag@) ==> final(self).tags@ == old(self).tags@,
            !texts(old(self).tags@).contains(tag@) ==> final(self).tags@ == old(self).tags@.push(tag),
            same_but_tags(*old(self), *final(self)),
    {
        let mut i: usize = 0;
        while i < self.tags.len()
            invariant
                i <= self.tags@.len(),
                forall|j: int| 0 <= j < i ==> self.tags@[j]@ != tag@,
            decreases self.tags.len() - i,
        {
            if str_eq(self.tags[i].as_str(), tag.as_str()) {
                proof {
                    assert(texts(self.tags@)[i as int] == tag@);
                }
                return;
            }
            i = i + 1;
        }
        proof {
            assert forall|j: int| 0 <= j < texts(self.tags@).len() implies texts(self.tags@)[j] != tag@ by {
                assert(self.tags@[j]@ != tag@);
            }
        }
        self.tags.push(tag);
    }

    /// A recording is active until it is finished.
    pub fn is_active(&self) -> (r: bool)
        ensures
            r == self.ended_at is None,
    {
        self.ended_at.is_none()
    }

    /// A copy of the metadata.
    pub fn duplicate(&self) -> (r: Self)
        ensures
            same_metadata(*self, r),
    {
        let mut tags: Vec<String> = Vec::new();
        let mut i: usize = 0;
        while i < self.tags.len()
            invariant
                i <= self.tags@.len(),
                tags@ == self.tags@.take(i as int),
            decreases self.tags.len() - i,
        {
            tags.push(self.tags[i].clone());
            assert(self.tags@.take(i as int).push(self.tags@[i as int]) =~= self.tags@.take(i + 1));
            i = i + 1;
        }
        assert(self.tags@.take(self.tags@.len() as int) =~= self.tags@);
        RecordingMetadata {
            id: self.id,
            call_id: self.call_id.clone(),
            filename: self.filename.clone(),
            format: self.format,
            quality: self.quality,
            started_at: self.started_at,
            ended_at: self.ended_at,
            duration_ms: self.duration_ms,
            file_size_bytes: self.file_size_bytes,
            caller: self.caller.clone(),
            callee: self.callee.clone(),
            direction: self.direction,
            tags,
        }
    }
}

/// Little-endian bytes of a 16-bit value.
pub open spec fn le16(v: int) -> Seq<u8> {
    seq![(v % 256) as u8, ((v / 256) % 256) as u8]
}

/// Little-endian bytes of a 32-bit value.
pub open spec fn le32(v: int) -> Seq<u8> {
    seq![
        (v % 256) as u8,
        ((v / 256) % 256) as u8,
        ((v / 65536) % 256) as u8,
        ((v / 16777216) % 256) as u8,
    ]
}

/// The ASCII bytes of a four-letter tag.
pub open spec fn tag4(a: u8, b: u8, c: u8, d: u8) -> Seq<u8> {
    seq![a, b, c, d]
}

/// The 44-byte header of a 16-bit PCM WAV file with the given rate and
/// channel count holding `sample_count` samples; the two sizes are taken as
/// `u32` as `as u32` takes them.
pub open spec fn spec_wav_header(sample_rate: u32, channels: u16, sample_count: int) -> Seq<u8> {
    let data_size = sample_count * 2;
    tag4(82, 73, 70, 70) + le32(((data_size + 36) as u32) as int) + tag4(87, 65, 86, 69) + tag4(
        102,
        109,
        116,
        32,
    ) + le32(16) + le16(1) + le16(channels as int) + le32(sample_rate as int) + le32(
        sample_rate * channels * 2,
    ) + le16(channels * 2) + le16(16) + tag4(100, 97, 116, 97) + le32(
        (data_size as u32) as int,
    )
}

fn push_le16(out: &mut Vec<u8>, v: u16)
    ensures
        final(out)@ == old(out)@ + le16(v as int),
{
    out.push((v % 256) as u8);
    out.push((v / 256) as u8);
    assert(final(out)@ =~= old(out)@ + le16(v as int));
}

fn push_le32(out: &mut Vec<u8>, v: u32)
    ensures
        final(out)@ == old(out)@ + le32(v as int),
{
    out.push((v % 256) as u8);
    out.push(((v / 256) % 256) as u8);
    out.push(((v / 65536) % 256) as u8);
    out.push(((v / 16777216) % 256) as u8);
    assert(final(out)@ =~= old(out)@ + le32(v as int));
}

fn push_tag(out: &mut Vec<u8>, a: u8, b: u8, c: u8, d: u8)
    ensures
        final(out)@ == old(out)@ + tag4(a, b, c, d),
{
    out.push(a);
    out.push(b);
    out.push(c);
    out.push(d);
    assert(final(out)@ =~= old(out)@ + tag4(a, b, c, d));
}

/// The WAV header for 16-bit samples.
pub fn wav_header(sample_rate: u32, channels: u16, sample_count: usize) -> (r: Vec<u8>)
    requires
        sample_count * 2 + 36 <= usize::MAX,
        sample_rate * channels * 2 <= u32::MAX,
        channels * 2 <= u16::MAX,
    ensures
        r@ == spec_wav_header(sample_rate, channels, sample_count as int),
        r@.len() == 44,
{
    let data_size: usize = sample_count * 2;
    let byte_rate: u32 = sample_rate * (channels as u32) * 2;
    let block_align: u16 = channels * 2;
    let mut h: Vec<u8> = Vec::new();
    push_tag(&mut h, 82, 73, 70, 70);
    push_le32(&mut h, (data_size + 36) as u32);
    push_tag(&mut h, 87, 65, 86, 69);
    push_tag(&mut h, 102, 109, 116, 32);
    push_le32(&mut h, 16);
    push_le16(&mut h, 1);
    push_le16(&mut h, channels);
    push_le32(&mut h, sample_rate);
    push_le32(&mut h, byte_rate);
    push_le16(&mut h, block_align);
    push_le16(&mut h, 16);
    push_tag(&mut h, 100, 97, 116, 97);
    push_le32(&mut h, data_size as u32);
    assert(h@ =~= spec_wav_header(sample_rate, channels, sample_count as int));
    h
}

/// Samples encoded as 16-bit little-endian bytes.
pub fn samples_to_le_bytes(samples: &Vec<i16>) -> (r: Vec<u8>)
    ensures
        r@ == spec_encode16(samples@),
{
    let mut out: Vec<u8> = Vec::new();
    let mut i: usize = 0;
    while i < samples.len()
        invariant
            i <= samples@.len(),
            out@ == spec_encode16(samples@.take(i as int)),
        decreases samples.len() - i,
    {
        let ghost before = out@;
        encode_sample(samples[i], &mut out);
        proof {
            let t = samples@.take(i + 1);
            assert(t.take(i as int) =~= samples@.take(i as int));
            assert(out@ =~= spec_encode16(t));
        }
        i = i + 1;
    }
    assert(samples@.take(samples@.len() as int) =~= samples@);
    out
}

/// An active recording session: samples are buffered and handed out as
/// bytes to append to the recording's file once a second of audio has
/// gathered, and again when the recording stops.
#[derive(Debug)]
pub struct RecordingSession {
    metadata: RecordingMetadata,
    file_path: String,
    buffer: Vec<i16>,
    sample_count: usize,
    is_paused: bool,
}

impl RecordingSession {
    pub closed spec fn spec_metadata(&self) -> RecordingMetadata {
        self.metadata
    }

    pub closed spec fn spec_file_path(&self) -> String {
        self.file_path
    }

    /// The recording's metadata.
    pub fn metadata(&self) -> (r: &RecordingMetadata)
        ensures
            *r == self.spec_metadata(),
    {
        &self.metadata
    }

    /// The path of the recording's file.
    pub fn file_path(&self) -> (r: &str)
        ensures
            r@ == self.spec_file_path()@,
    {
        self.file_path.as_str()
    }

    /// Ends the recording's metadata at `now` with the given file size.
    pub fn finish_at(&mut self, file_size: u64, now: i64)
        ensures
            final(self).spec_metadata().ended_at == Some(now),
            final(self).spec_metadata().duration_ms == (now - old(self).spec_metadata().started_at) as u64,
            final(self).spec_metadata().file_size_bytes == file_size,
            final(self).spec_metadata().tags@ == old(self).spec_metadata().tags@,
            same_but_tags(
                RecordingMetadata {
                    ended_at: Some(now),
                    duration_ms: (now - old(self).spec_metadata().started_at) as u64,
                    file_size_bytes: file_size,
                    ..old(self).spec_metadata()
                },
                final(self).spec_metadata(),
            ),
            final(self).spec_buffer() == old(self).spec_buffer(),
            final(self).spec_sample_count() == old(self).spec_sample_count(),
            final(self).spec_paused() == old(self).spec_paused(),
            final(self).spec_file_path() == old(self).spec_file_path(),
    {
        self.metadata.finish_at(file_size, now);
    }

    pub closed spec fn spec_buffer(&self) -> Seq<i16> {
        self.buffer@
    }

    pub closed spec fn spec_sample_count(&self) -> usize {
        self.sample_count
    }

    pub closed spec fn spec_paused(&self) -> bool {
        self.is_paused
    }

    /// A session for the recording described by `metadata`, written to `file_path`.
    pub fn new(metadata: RecordingMetadata, file_path: String) -> (r: Self)
        ensures
            r.spec_metadata() == metadata,
            r.spec_file_path() == file_path,
            r.spec_buffer().len() == 0,
            r.spec_sample_count() == 0,
            !r.spec_paused(),
    {
        RecordingSession { metadata, file_path, buffer: Vec::new(), sample_count: 0, is_paused: false }
    }

    /// Buffers the samples unless paused; gives back the bytes to append to
    /// the file once the buffer holds at least a second of audio, leaving it empty.
    pub fn add_samples(&mut self, samples: &[i16]) -> (r: Option<Vec<u8>>)
        requires
            old(self).spec_sample_count() + samples@.len() <= usize::MAX,
        ensures
            old(self).spec_paused() ==> r is None && *final(self) == *old(self),
            !old(self).spec_paused() ==> {
                let buf = old(self).spec_buffer() + samples@;
                &&& final(self).spec_sample_count() == old(self).spec_sample_count() + samples@.len()
                &&& final(self).spec_metadata() == old(self).spec_metadata()
                &&& final(self).spec_file_path() == old(self).spec_file_path()
                &&& !final(self).spec_paused()
                &&& if buf.len() >= old(self).spec_metadata().quality.spec_sample_rate() {
                    &&& r matches Some(b) && b@ == spec_encode16(buf)
                    &&& final(self).spec_buffer().len() == 0
                } else {
                    &&& r is None
                    &&& final(self).spec_buffer() == buf
                }
            },
    {
        if self.is_paused {
            return None;
        }
        let ghost before = self.buffer@;
        let mut i: usize = 0;
        while i < samples.len()
            invariant
                i <= samples@.len(),
                self.buffer@ == before + samples@.take(i as int),
                self.sample_count == old(self).sample_count,
                self.metadata == old(self).metadata,
                self.file_path == old(self).file_path,
                !self.is_paused,
                old(self).sample_count + samples@.len() <= usize::MAX,
            decreases samples.len() - i,
        {
            self.buffer.push(samples[i]);
            assert(before + samples@.take(i + 1) =~= (before + samples@.take(i as int)).push(samples@[i as int]));
            i = i + 1;
        }
        assert(samples@.take(samples@.len() as int) =~= samples@);
        self.sample_count = self.sample_count + samples.len();
        let rate = self.metadata.quality.sample_rate() as usize;
        if self.buffer.len() >= rate {
            let bytes = samples_to_le_bytes(&self.buffer);
            self.buffer.clear();
            Some(bytes)
        } else {
            None
        }
    }

    /// The bytes still buffered, leaving the buffer empty.
    pub fn take_pending_bytes(&mut self) -> (r: Vec<u8>)
        ensures
            r@ == spec_encode16(old(self).spec_buffer()),
            final(self).spec_buffer().len() == 0,
            final(self).spec_sample_count() == old(self).spec_sample_count(),
            final(self).spec_paused() == old(self).spec_paused(),
            final(self).spec_metadata() == old(self).spec_metadata(),
            final(self).spec_file_path() == old(self).spec_file_path(),
    {
        let bytes = samples_to_le_bytes(&self.buffer);
        self.buffer.clear();
        bytes
    }

    /// The WAV header the stopped recording is given, when it is a WAV recording.
    pub fn wav_header(&self) -> (r: Option<Vec<u8>>)
        requires
            self.spec_sample_count() * 2 + 36 <= usize::MAX,
        ensures
            self.spec_metadata().format == RecordingFormat::Wav ==> (r matches Some(h) && h@ == spec_wav_header(
                self.spec_metadata().quality.spec_sample_rate(),
                self.spec_metadata().quality.spec_channels(),
                self.spec_sample_count() as int,
            )),
            self.spec_metadata().format != RecordingFormat::Wav ==> r is None,
    {
        if self.metadata.format == RecordingFormat::Wav {
            Some(wav_header(self.metadata.quality.sample_rate(), self.metadata.quality.channels(), self.sample_count))
        } else {
            None
        }
    }

    /// Pauses the recording: samples are dropped until it resumes.
    pub fn pause(&mut self)
        ensures
            final(self).spec_paused(),
            final(self).spec_buffer() == old(self).spec_buffer(),
            final(self).spec_sample_count() == old(self).spec_sample_count(),
            final(self).spec_metadata() == old(self).spec_metadata(),
            final(self).spec_file_path() == old(self).spec_file_path(),
    {
        self.is_paused = true;
    }

    /// Resumes the recording.
    pub fn resume(&mut self)
        ensures
            !final(self).spec_paused(),
            final(self).spec_buffer() == old(self).spec_buffer(),
            final(self).spec_sample_count() == old(self).spec_sample_count(),
            final(self).spec_metadata() == old(self).spec_metadata(),
            final(self).spec_file_path() == old(self).spec_file_path(),
    {
        self.is_paused = false;
    }

    /// Number of samples buffered and not yet handed out for the file.
    pub fn pending_samples(&self) -> (r: usize)
        ensures
            r == self.spec_buffer().len(),
    {
        self.buffer.len()
    }

    /// Number of samples recorded so far.
    pub fn sample_count(&self) -> (r: usize)
        ensures
            r == self.spec_sample_count(),
    {
        self.sample_count
    }

    /// Whether the recording is paused.
    pub fn is_paused(&self) -> (r: bool)
        ensures
            r == self.spec_paused(),
    {
        self.is_paused
    }

    /// Milliseconds of audio recorded so far.
    pub fn get_duration_ms(&self) -> (r: u64)
        requires
            self.spec_sample_count() * 1000 <= u64::MAX,
        ensures
            r == (self.spec_sample_count() * 1000) / (self.spec_metadata().quality.spec_sample_rate() as int),
    {
        let rate = self.metadata.quality.sample_rate() as u64;
        (self.sample_count as u64 * 1000) / rate
    }
}

impl Keyed for RecordingSession {
    type Key = str;

    open spec fn key(&self) -> Seq<char> {
        self.spec_metadata().call_id@
    }

    open spec fn inv(&self) -> bool {
        true
    }

    fn key_ref(&self) -> (r: &str) {
        let r = self.metadata.call_id.as_str();
        assert(r.kv() == r@);
        r
    }
}

/// The message for a call with no active recording.
pub open spec fn no_recording_message(call_id: Seq<char>) -> Seq<char> {
    "No active recording found for call "@ + call_id
}

/// The name of a recording's file: the call, the start stamp and the extension.
pub open spec fn spec_recording_filename(
    call_id: Seq<char>,
    stamp: Seq<char>,
    format: RecordingFormat,
) -> Seq<char> {
    call_id + "_"@ + stamp + "."@ + format.spec_extension()
}

/// The sum of the file sizes of recordings.
pub open spec fn total_size(s: Seq<RecordingMetadata>) -> int
    decreases s.len(),
{
    if s.len() == 0 {
        0
    } else {
        total_size(s.drop_last()) + s.last().file_size_bytes
    }
}

/// Whether a recording is kept by a cleanup with the given cutoff.
pub open spec fn kept_after_cleanup(m: RecordingMetadata, cutoff: int) -> bool {
    m.started_at >= cutoff
}

/// `kept` and `removed` split `before` by the cleanup cutoff `days` days
/// ahead of `now`, each in the original order.
pub open spec fn cleanup_split(
    before: Seq<RecordingMetadata>,
    kept: Seq<RecordingMetadata>,
    removed: Seq<RecordingMetadata>,
    now: int,
    days: int,
) -> bool {
    &&& kept == before.filter(|m: RecordingMetadata| kept_after_cleanup(m, now - days * 86400000))
    &&& removed == before.filter(|m: RecordingMetadata| !kept_after_cleanup(m, now - days * 86400000))
}

/// Call recording manager: active sessions keyed by call, and the metadata
/// of completed recordings in the order they completed.
pub struct CallRecordingManager {
    base_dir: String,
    active_recordings: Store<RecordingSession>,
    completed_recordings: Vec<RecordingMetadata>,
    default_format: RecordingFormat,
    default_quality: RecordingQuality,
    auto_record: bool,
}

impl CallRecordingManager {
    pub closed spec fn spec_base_dir(&self) -> Seq<char> {
        self.base_dir@
    }

    pub closed spec fn spec_active(&self) -> Store<RecordingSession> {
        self.active_recordings
    }

    pub closed spec fn spec_completed(&self) -> Seq<RecordingMetadata> {
        self.completed_recordings@
    }

    pub closed spec fn spec_default_format(&self) -> RecordingFormat {
        self.default_format
    }

    pub closed spec fn spec_default_quality(&self) -> RecordingQuality {
        self.default_quality
    }

    pub closed spec fn spec_auto_record(&self) -> bool {
        self.auto_record
    }

    pub open spec fn wf(&self) -> bool {
        self.spec_active().wf()
    }

    /// A manager keeping recordings under `base_dir`: WAV, standard quality,
    /// no automatic recording.
    pub fn new(base_dir: String) -> (r: Self)
        ensures
            r.wf(),
            r.spec_base_dir() == base_dir@,
            r.spec_active().items().len() == 0,
            r.spec_completed().len() == 0,
            r.spec_default_format() == RecordingFormat::Wav,
            r.spec_default_quality() == RecordingQuality::Standard,
            !r.spec_auto_record(),
    {
        CallRecordingManager {
            base_dir,
            active_recordings: Store::new(),
            completed_recordings: Vec::new(),
            default_format: RecordingFormat::Wav,
            default_quality: RecordingQuality::Standard,
            auto_record: false,
        }
    }

    /// Records every call automatically from now on.
    pub fn enable_auto_record(&mut self)
        ensures
            final(self).spec_auto_record(),
            final(self).spec_active() == old(self).spec_active(),
            final(self).spec_completed() == old(self).spec_completed(),
            final(self).spec_default_format() == old(self).spec_default_format(),
            final(self).spec_default_quality() == old(self).spec_default_quality(),
            final(self).spec_base_dir() == old(self).spec_base_dir(),
    {
        self.auto_record = true;
    }

    pub fn auto_record(&self) -> (r: bool)
        ensures
            r == self.spec_auto_record(),
    {
        self.auto_record
    }

    pub fn set_default_format(&mut self, format: RecordingFormat)
        ensures
            final(self).spec_default_format() == format,
            final(self).spec_auto_record() == old(self).spec_auto_record(),
            final(self).spec_active() == old(self).spec_active(),
            final(self).spec_completed() == old(self).spec_completed(),
            final(self).spec_default_quality() == old(self).spec_default_quality(),
            final(self).spec_base_dir() == old(self).spec_base_dir(),
    {
        self.default_format = format;
    }

    pub fn default_format(&self) -> (r: RecordingFormat)
        ensures
            r == self.spec_default_format(),
    {
        self.default_format
    }

    pub fn set_default_quality(&mut self, quality: RecordingQuality)
        ensures
            final(self).spec_default_quality() == quality,
            final(self).spec_auto_record() == old(self).spec_auto_record(),
            final(self).spec_active() == old(self).spec_active(),
            final(self).spec_completed() == old(self).spec_completed(),
            final(self).spec_default_format() == old(self).spec_default_format(),
            final(self).spec_base_dir() == old(self).spec_base_dir(),
    {
        self.default_quality = quality;
    }

    pub fn default_quality(&self) -> (r: RecordingQuality)
        ensures
            r == self.spec_default_quality(),
    {
        self.default_quality
    }

    /// The path of a recording's file under the base directory.
    pub fn recording_path(&self, filename: &str) -> (r: String)
        ensures
            r@ == path_join(self.spec_base_dir(), filename@),
    {
        join_path(self.base_dir.as_str(), filename)
    }

    /// Starts recording a call at `now`, with the given identifier and start
    /// stamp (`YYYYmmdd_HHMMSS`), in the default format and quality. Refused
    /// when the call is already being recorded.
    pub fn start_recording_at(
        &mut self,
        call_id: String,
        caller: String,
        callee: String,
        direction: RecordingDirection,
        id: u128,
        now: i64,
        stamp: &str,
    ) -> (r: Result<u128, String>)
        requires
            old(self).wf(),
        ensures
            final(self).wf(),
            final(self).spec_completed() == old(self).spec_completed(),
            final(self).spec_default_format() == old(self).spec_default_format(),
            final(self).spec_default_quality() == old(self).spec_default_quality(),
            final(self).spec_base_dir() == old(self).spec_base_dir(),
            final(self).spec_auto_record() == old(self).spec_auto_record(),
            r is Err <==> old(self).spec_active().contains(call_id@),
            r matches Err(m) ==> m@ == "Call "@ + call_id@ + " is already being recorded"@
                && final(self).spec_active() == old(self).spec_active(),
            r matches Ok(rid) ==> {
                &&& rid == id
                &&& final(self).spec_active().items().len() == old(self).spec_active().items().len() + 1
                &&& final(self).spec_active().get_spec(call_id@) matches Some(s) && {
                    &&& s.spec_metadata().id == id
                    &&& s.spec_metadata().call_id@ == call_id@
                    &&& s.spec_metadata().filename@ == spec_recording_filename(
                        call_id@,
                        stamp@,
                        old(self).spec_default_format(),
                    )
                    &&& s.spec_metadata().format == old(self).spec_default_format()
                    &&& s.spec_metadata().quality == old(self).spec_default_quality()
                    &&& s.spec_metadata().started_at == now
                    &&& s.spec_metadata().ended_at is None
                    &&& s.spec_metadata().caller == caller
                    &&& s.spec_metadata().callee == callee
                    &&& s.spec_metadata().direction == direction
                    &&& s.spec_file_path()@ == path_join(old(self).spec_base_dir(), s.spec_metadata().filename@)
                    &&& s.spec_sample_count() == 0
                    &&& !s.spec_paused()
                }
                &&& forall|k: Seq<char>| k != call_id@ ==> final(self).spec_active().get_spec(k) == old(self).spec_active().get_spec(k)
            },
    {
        if self.active_recordings.find(call_id.as_str()).is_some() {
            let mut m = String::from_str("Call ");
            m.append(call_id.as_str());
            m.append(" is already being recorded");
            return Err(m);
        }
        let mut filename = call_id.clone();
        filename.append("_");
        filename.append(stamp);
        filename.append(".");
        filename.append(self.default_format.extension());
        let path = self.recording_path(filename.as_str());
        let metadata = RecordingMetadata::new_at(
            id,
            call_id,
            filename,
            self.default_format,
            self.default_quality,
            caller,
            callee,
            direction,
            now,
        );
        let session = RecordingSession::new(metadata, path);
        self.active_recordings.push_new(session);
        Ok(id)
    }

    /// Starts recording a call now, with a fresh identifier.
    pub fn start_recording(
        &mut self,
        call_id: String,
        caller: String,
        callee: String,
        direction: RecordingDirection,
    ) -> (r: Result<u128, String>)
        requires
            old(self).wf(),
        ensures
            final(self).wf(),
            final(self).spec_completed() == old(self).spec_completed(),
            r is Err <==> old(self).spec_active().contains(call_id@),
            r matches Ok(rid) ==> is_v4_uuid(rid) && (final(self).spec_active().get_spec(call_id@) matches Some(s)
                && s.spec_metadata().id == rid),
            final(self).spec_default_format() == old(self).spec_default_format(),
            final(self).spec_default_quality() == old(self).spec_default_quality(),
            final(self).spec_base_dir() == old(self).spec_base_dir(),
            final(self).spec_auto_record() == old(self).spec_auto_record(),
            r matches Err(m) ==> m@ == "Call "@ + call_id@ + " is already being recorded"@
                && final(self).spec_active() == old(self).spec_active(),
            exists|id: u128, now: i64, stamp: Seq<char>|
                #![trigger is_v4_uuid(id), clock_reading(now), spec_recording_filename(call_id@, stamp, old(self).spec_default_format())]
                is_v4_uuid(id) && clock_reading(now) && (r matches Ok(rid) ==> {
                &&& rid == id
                &&& final(self).spec_active().items().len() == old(self).spec_active().items().len() + 1
                &&& final(self).spec_active().get_spec(call_id@) matches Some(s) && {
                    &&& s.spec_metadata().id == id
                    &&& s.spec_metadata().call_id@ == call_id@
                    &&& s.spec_metadata().filename@ == spec_recording_filename(
                        call_id@,
                        stamp,
                        old(self).spec_default_format(),
                    )
                    &&& s.spec_metadata().format == old(self).spec_default_format()
                    &&& s.spec_metadata().quality == old(self).spec_default_quality()
                    &&& s.spec_metadata().started_at == now
                    &&& s.spec_metadata().ended_at is None
                    &&& s.spec_metadata().caller == caller
                    &&& s.spec_metadata().callee == callee
                    &&& s.spec_metadata().direction == direction
                    &&& s.spec_file_path()@ == path_join(old(self).spec_base_dir(), s.spec_metadata().filename@)
                    &&& s.spec_sample_count() == 0
                    &&& !s.spec_paused()
                }
                &&& forall|k: Seq<char>| k != call_id@ ==> final(self).spec_active().get_spec(k) == old(self).spec_active().get_spec(k)
            }),
    {
        let id = new_uuid();
        let now = now_millis();
        let stamp = utc_compact_stamp();
        proof {
            assert(clock_reading(now));
            // The file name the session gets from this stamp.
            let name = spec_recording_filename(call_id@, stamp@, old(self).spec_default_format());
        }
        self.start_recording_at(call_id, caller, callee, direction, id, now, stamp.as_str())
    }

    /// Takes the active session of a call out, for the caller to stop it;
    /// refused when the call is not being recorded.
    pub fn take_active(&mut self, call_id: &str) -> (r: Result<RecordingSession, String>)
        requires
            old(self).wf(),
        ensures
            final(self).wf(),
            final(self).spec_completed() == old(self).spec_completed(),
            r is Err <==> !old(self).spec_active().contains(call_id@),
            r matches Err(m) ==> m@ == no_recording_message(call_id@) && final(self).spec_active().items() == old(self).spec_active().items(),
            r matches Ok(s) ==> old(self).spec_active().get_spec(call_id@) == Some(s)
                && !final(self).spec_active().contains(call_id@)
                && forall|k: Seq<char>| k != call_id@ ==> final(self).spec_active().get_spec(k) == old(self).spec_active().get_spec(k),
    {
        match self.active_recordings.remove(call_id) {
            Some(s) => Ok(s),
            None => {
                let mut m = String::from_str("No active recording found for call ");
                m.append(call_id);
                Err(m)
            },
        }
    }

    /// Stops a recording at `now`: hands back the session's remaining bytes
    /// and its WAV header, ends its metadata with the given file size and
    /// keeps it among the completed recordings.
    pub fn stop_recording_at(&mut self, call_id: &str, file_size: u64, now: i64) -> (r: Result<
        (RecordingMetadata, Vec<u8>, Option<Vec<u8>>),
        String,
    >)
        requires
            old(self).wf(),
            forall|i: int| 0 <= i < old(self).spec_active().items().len() ==> (#[trigger] old(self).spec_active().items()[i]).spec_sample_count() * 2 + 36 <= usize::MAX,
        ensures
            final(self).wf(),
            r is Err <==> !old(self).spec_active().contains(call_id@),
            r matches Err(m) ==> m@ == no_recording_message(call_id@) && final(self).spec_active().items() == old(self).spec_active().items()
                && final(self).spec_completed() == old(self).spec_completed(),
            r matches Ok((meta, rest, header)) ==> {
                let s = old(self).spec_active().get_spec(call_id@).unwrap();
                &&& rest@ == spec_encode16(s.spec_buffer())
                &&& (s.spec_metadata().format == RecordingFormat::Wav ==> (header matches Some(h) && h@ == spec_wav_header(
                    s.spec_metadata().quality.spec_sample_rate(),
                    s.spec_metadata().quality.spec_channels(),
                    s.spec_sample_count() as int,
                )))
                &&& (s.spec_metadata().format != RecordingFormat::Wav ==> header is None)
                &&& meta.ended_at == Some(now)
                &&& meta.file_size_bytes == file_size
                &&& meta.duration_ms == (now - s.spec_metadata().started_at) as u64
                &&& same_but_tags(
                    RecordingMetadata {
                        ended_at: Some(now),
                        duration_ms: (now - s.spec_metadata().started_at) as u64,
                        file_size_bytes: file_size,
                        ..s.spec_metadata()
                    },
                    meta,
                )
                &&& meta.tags@ == s.spec_metadata().tags@
                &&& final(self).spec_completed().len() == old(self).spec_completed().len() + 1
                &&& final(self).spec_completed().drop_last() == old(self).spec_completed()
                &&& same_metadata(meta, final(self).spec_completed().last())
                &&& !final(self).spec_active().contains(call_id@)
            },
    {
        let ghost items = self.active_recordings.items();
        let mut session = self.take_active(call_id)?;
        proof {
            let i = choose|i: int| 0 <= i < items.len() && (#[trigger] items[i]).key() == call_id@;
            assert(items[i] == session);
        }
        let rest = session.take_pending_bytes();
        let header = session.wav_header();
        session.metadata.finish_at(file_size, now);
        let meta = session.metadata;
        let copy = meta.duplicate();
        let ghost before = self.completed_recordings@;
        self.completed_recordings.push(copy);
        assert(self.completed_recordings@.drop_last() == before);
        Ok((meta, rest, header))
    }

    /// Pauses the recording of a call.
    pub fn pause_recording(&mut self, call_id: &str) -> (r: Result<(), String>)
        requires
            old(self).wf(),
        ensures
            final(self).wf(),
            final(self).spec_completed() == old(self).spec_completed(),
            r is Err <==> !old(self).spec_active().contains(call_id@),
            r matches Err(m) ==> m@ == no_recording_message(call_id@) && final(self).spec_active().items() == old(self).spec_active().items(),
            r is Ok ==> (final(self).spec_active().get_spec(call_id@) matches Some(s) && s.spec_paused()
                && s.spec_metadata() == old(self).spec_active().get_spec(call_id@).unwrap().spec_metadata()
                && s.spec_buffer() == old(self).spec_active().get_spec(call_id@).unwrap().spec_buffer()
                && s.spec_sample_count() == old(self).spec_active().get_spec(call_id@).unwrap().spec_sample_count()),
            r is Ok ==> forall|k: Seq<char>| k != call_id@ ==> final(self).spec_active().get_spec(k) == old(self).spec_active().get_spec(k),
    {
        self.set_paused(call_id, true)
    }

    /// Resumes the recording of a call.
    pub fn resume_recording(&mut self, call_id: &str) -> (r: Result<(), String>)
        requires
            old(self).wf(),
        ensures
            final(self).wf(),
            final(self).spec_completed() == old(self).spec_completed(),
            r is Err <==> !old(self).spec_active().contains(call_id@),
            r matches Err(m) ==> m@ == no_recording_message(call_id@) && final(self).spec_active().items() == old(self).spec_active().items(),
            r is Ok ==> (final(self).spec_active().get_spec(call_id@) matches Some(s) && !s.spec_paused()
                && s.spec_metadata() == old(self).spec_active().get_spec(call_id@).unwrap().spec_metadata()
                && s.spec_buffer() == old(self).spec_active().get_spec(call_id@).unwrap().spec_buffer()
                && s.spec_sample_count() == old(self).spec_active().get_spec(call_id@).unwrap().spec_sample_count()),
            r is Ok ==> forall|k: Seq<char>| k != call_id@ ==> final(self).spec_active().get_spec(k) == old(self).spec_active().get_spec(k),
    {
        self.set_paused(call_id, false)
    }

    fn set_paused(&mut self, call_id: &str, paused: bool) -> (r: Result<(), String>)
        requires
            old(self).wf(),
        ensures
            final(self).wf(),
            final(self).spec_completed() == old(self).spec_completed(),
            r is Err <==> !old(self).spec_active().contains(call_id@),
            r matches Err(m) ==> m@ == no_recording_message(call_id@) && final(self).spec_active().items() == old(self).spec_active().items(),
            r is Ok ==> (final(self).spec_active().get_spec(call_id@) matches Some(s) && s.spec_paused() == paused
                && s.spec_metadata() == old(self).spec_active().get_spec(call_id@).unwrap().spec_metadata()
                && s.spec_buffer() == old(self).spec_active().get_spec(call_id@).unwrap().spec_buffer()
                && s.spec_sample_count() == old(self).spec_active().get_spec(call_id@).unwrap().spec_sample_count()),
            r is Ok ==> forall|k: Seq<char>| k != call_id@ ==> final(self).spec_active().get_spec(k) == old(self).spec_active().get_spec(k),
    {
        match self.active_recordings.find(call_id) {
            Some(i) => {
                let mut s = self.active_recordings.take_at(i);
                if paused {
                    s.pause();
                } else {
                    s.resume();
                }
                self.active_recordings.put_at(i, s);
                Ok(())
            },
            None => {
                let mut m = String::from_str("No active recording found for call ");
                m.append(call_id);
                Err(m)
            },
        }
    }

    /// Adds samples to the recording of a call, if it is being recorded;
    /// gives back the file path and the bytes to append to it when the
    /// session flushes.
    pub fn add_samples(&mut self, call_id: &str, samples: &[i16]) -> (r: Option<(String, Vec<u8>)>)
        requires
            old(self).wf(),
            forall|i: int| 0 <= i < old(self).spec_active().items().len() ==> (#[trigger] old(self).spec_active().items()[i]).spec_sample_count() + samples@.len() <= usize::MAX,
        ensures
            final(self).wf(),
            final(self).spec_completed() == old(self).spec_completed(),
            !old(self).spec_active().contains(call_id@) ==> r is None && final(self).spec_active() == old(self).spec_active(),
            forall|k: Seq<char>| k != call_id@ ==> final(self).spec_active().get_spec(k) == old(self).spec_active().get_spec(k),
            old(self).spec_active().get_spec(call_id@) matches Some(s) ==> {
                let buf = s.spec_buffer() + samples@;
                &&& final(self).spec_active().get_spec(call_id@) matches Some(t)
                &&& (s.spec_paused() ==> t == s && r is None)
                &&& (!s.spec_paused() ==> {
                    &&& t.spec_sample_count() == s.spec_sample_count() + samples@.len()
                    &&& t.spec_metadata() == s.spec_metadata()
                    &&& t.spec_file_path() == s.spec_file_path()
                    &&& if buf.len() >= s.spec_metadata().quality.spec_sample_rate() {
                        r matches Some((p, b)) && p == s.spec_file_path() && b@ == spec_encode16(buf) && t.spec_buffer().len() == 0
                    } else {
                        r is None && t.spec_buffer() == buf
                    }
                })
            },
    {
        match self.active_recordings.find(call_id) {
            Some(i) => {
                let mut s = self.active_recordings.take_at(i);
                let out = s.add_samples(samples);
                let path = s.file_path.clone();
                self.active_recordings.put_at(i, s);
                match out {
                    Some(b) => Some((path, b)),
                    None => None,
                }
            },
            None => None,
        }
    }

    /// The metadata of the active recording of a call.
    pub fn get_active_recording(&self, call_id: &str) -> (r: Option<RecordingMetadata>)
        requires
            self.wf(),
        ensures
            match self.spec_active().get_spec(call_id@) {
                Some(s) => r matches Some(m) && same_metadata(s.spec_metadata(), m),
                None => r is None,
            },
    {
        match self.active_recordings.get(call_id) {
            Some(s) => Some(s.metadata.duplicate()),
            None => None,
        }
    }

    /// The number of samples buffered and the number recorded so far by the
    /// active recording of a call.
    pub fn sample_counts(&self, call_id: &str) -> (r: Option<(usize, usize)>)
        requires
            self.wf(),
        ensures
            match self.spec_active().get_spec(call_id@) {
                Some(s) => r == Some((s.spec_buffer().len() as usize, s.spec_sample_count())),
                None => r is None,
            },
    {
        match self.active_recordings.get(call_id) {
            Some(s) => Some((s.pending_samples(), s.sample_count())),
            None => None,
        }
    }

    /// The metadata of all active recordings, in the order they started.
    pub fn get_active_recordings(&self) -> (r: Vec<RecordingMetadata>)
        ensures
            r@.len() == self.spec_active().items().len(),
            forall|i: int| 0 <= i < r@.len() ==> same_metadata(self.spec_active().items()[i].spec_metadata(), #[trigger] r@[i]),
    {
        let mut out: Vec<RecordingMetadata> = Vec::new();
        let mut i: usize = 0;
        while i < self.active_recordings.len()
            invariant
                i <= self.spec_active().items().len(),
                out@.len() == i,
                forall|j: int| 0 <= j < i ==> same_metadata(self.spec_active().items()[j].spec_metadata(), #[trigger] out@[j]),
            decreases self.spec_active().items().len() - i,
        {
            out.push(self.active_recordings.at(i).metadata.duplicate());
            i = i + 1;
        }
        out
    }

    /// The metadata of completed recordings, in the order they completed.
    pub fn get_completed_recordings(&self) -> (r: Vec<RecordingMetadata>)
        ensures
            r@.len() == self.spec_completed().len(),
            forall|i: int| 0 <= i < r@.len() ==> same_metadata(self.spec_completed()[i], #[trigger] r@[i]),
    {
        let mut out: Vec<RecordingMetadata> = Vec::new();
        let mut i: usize = 0;
        while i < self.completed_recordings.len()
            invariant
                i <= self.completed_recordings@.len(),
                out@.len() == i,
                forall|j: int| 0 <= j < i ==> same_metadata(self.completed_recordings@[j], #[trigger] out@[j]),
            decreases self.completed_recordings.len() - i,
        {
            out.push(self.completed_recordings[i].duplicate());
            i = i + 1;
        }
        out
    }

    /// The first completed recording with the given identifier.
    pub fn get_recording_by_id(&self, id: u128) -> (r: Option<RecordingMetadata>)
        ensures
            match r {
                Some(m) => exists|i: int| 0 <= i < self.spec_completed().len() && self.spec_completed()[i].id == id
                    && same_metadata(self.spec_completed()[i], m)
                    && forall|j: int| 0 <= j < i ==> (#[trigger] self.spec_completed()[j]).id != id,
                None => forall|i: int| 0 <= i < self.spec_completed().len() ==> (#[trigger] self.spec_completed()[i]).id != id,
            },
    {
        match self.position_of(id) {
            Some(i) => Some(self.completed_recordings[i].duplicate()),
            None => None,
        }
    }

    fn position_of(&self, id: u128) -> (r: Option<usize>)
        ensures
            match r {
                Some(i) => i < self.spec_completed().len() && self.spec_completed()[i as int].id == id
                    && forall|j: int| 0 <= j < i ==> (#[trigger] self.spec_completed()[j]).id != id,
                None => forall|i: int| 0 <= i < self.spec_completed().len() ==> (#[trigger] self.spec_completed()[i]).id != id,
            },
    {
        let mut i: usize = 0;
        while i < self.completed_recordings.len()
            invariant
                i <= self.completed_recordings@.len(),
                forall|j: int| 0 <= j < i ==> (#[trigger] self.completed_recordings@[j]).id != id,
            decreases self.completed_recordings.len() - i,
        {
            if self.completed_recordings[i].id == id {
                return Some(i);
            }
            i = i + 1;
        }
        None
    }

    /// Takes the first completed recording with the given identifier out of
    /// the list, for the caller to delete its file.
    pub fn delete_recording(&mut self, id: u128) -> (r: Result<RecordingMetadata, String>)
        requires
            old(self).wf(),
        ensures
            final(self).wf(),
            final(self).spec_active() == old(self).spec_active(),
            r is Err <==> forall|i: int| 0 <= i < old(self).spec_completed().len() ==> (#[trigger] old(self).spec_completed()[i]).id != id,
            r matches Err(m) ==> m@ == "Recording "@ + uuid_text(id) + " not found"@ && final(self).spec_completed() == old(self).spec_completed(),
            r matches Ok(m) ==> exists|i: int| 0 <= i < old(self).spec_completed().len() && m == old(self).spec_completed()[i]
                && m.id == id
                && forall|j: int| 0 <= j < i ==> (#[trigger] old(self).spec_completed()[j]).id != id
                && final(self).spec_completed() == old(self).spec_completed().remove(i),
    {
        match self.position_of(id) {
            Some(i) => {
                let m = self.completed_recordings.remove(i);
                Ok(m)
            },
            None => {
                let mut m = String::from_str("Recording ");
                let t = format_uuid(id);
                m.append(t.as_str());
                m.append(" not found");
                Err(m)
            },
        }
    }

    /// Total bytes of the completed recordings.
    pub fn get_total_storage_bytes(&self) -> (r: u64)
        requires
            total_size(self.spec_completed()) <= u64::MAX,
        ensures
            r == total_size(self.spec_completed()),
    {
        let mut total: u64 = 0;
        let mut i: usize = 0;
        while i < self.completed_recordings.len()
            invariant
                i <= self.completed_recordings@.len(),
                total == total_size(self.completed_recordings@.take(i as int)),
                total_size(self.completed_recordings@) <= u64::MAX,
            decreases self.completed_recordings.len() - i,
        {
            let ghost s = self.completed_recordings@;
            assert(s.take(i + 1).drop_last() =~= s.take(i as int));
            proof {
                lemma_total_size_prefix(s, i + 1);
            }
            total = total + self.completed_recordings[i].file_size_bytes;
            i = i + 1;
        }
        assert(self.completed_recordings@.take(self.completed_recordings@.len() as int) =~= self.completed_recordings@);
        total
    }

    /// Drops the completed recordings started before the cutoff `days` days
    /// ahead of `now`, keeping the others in order; gives back those dropped,
    /// for the caller to delete their files.
    pub fn cleanup_old_recordings_at(&mut self, days: i64, now: i64) -> (r: Vec<RecordingMetadata>)
        requires
            old(self).wf(),
            -106751991167 <= days <= 106751991167,
        ensures
            final(self).wf(),
            final(self).spec_active() == old(self).spec_active(),
            cleanup_split(old(self).spec_completed(), final(self).spec_completed(), r@, now as int, days as int),
    {
        let cutoff: i128 = now as i128 - days as i128 * 86400000;
        let ghost keep = |m: RecordingMetadata| kept_after_cleanup(m, cutoff as int);
        let ghost drop = |m: RecordingMetadata| !kept_after_cleanup(m, cutoff as int);
        let ghost all = self.completed_recordings@;
        let mut kept: Vec<RecordingMetadata> = Vec::new();
        let mut removed: Vec<RecordingMetadata> = Vec::new();
        let mut rest: Vec<RecordingMetadata> = Vec::new();
        std::mem::swap(&mut rest, &mut self.completed_recordings);
        let ghost mut i: int = 0;
        while rest.len() > 0
            invariant
                0 <= i <= all.len(),
                rest@ == all.skip(i),
                kept@ == all.take(i).filter(keep),
                removed@ == all.take(i).filter(drop),
                self.active_recordings == old(self).active_recordings,
                cutoff == now - days * 86400000,
                keep == (|m: RecordingMetadata| kept_after_cleanup(m, cutoff as int)),
                drop == (|m: RecordingMetadata| !kept_after_cleanup(m, cutoff as int)),
            decreases rest@.len(),
        {
            let m = rest.remove(0);
            assert(m == all[i]);
            proof {
                reveal(Seq::filter);
                assert(all.take(i + 1).drop_last() =~= all.take(i));
                assert(all.take(i + 1).last() == all[i]);
            }
            if (m.started_at as i128) >= cutoff {
                kept.push(m);
            } else {
                removed.push(m);
            }
            proof {
                i = i + 1;
                assert(rest@ =~= all.skip(i));
            }
        }
        assert(all.take(i) =~= all);
        self.completed_recordings = kept;
        removed
    }

    /// Drops the completed recordings started more than `days` days ago.
    pub fn cleanup_old_recordings(&mut self, days: i64) -> (r: Vec<RecordingMetadata>)
        requires
            old(self).wf(),
            -106751991167 <= days <= 106751991167,
        ensures
            final(self).wf(),
            final(self).spec_active() == old(self).spec_active(),
            exists|now: i64| #[trigger] cleanup_split(old(self).spec_completed(), final(self).spec_completed(), r@, now as int, days as int),
    {
        let now = now_millis();
        self.cleanup_old_recordings_at(days, now)
    }
}

/// The total of a prefix extends by the next size.
proof fn lemma_total_size_prefix(s: Seq<RecordingMetadata>, k: int)
    requires
        0 < k <= s.len(),
    ensures
        total_size(s.take(k)) == total_size(s.take(k - 1)) + s[k - 1].file_size_bytes,
        total_size(s.take(k)) <= total_size(s),
    decreases s.len() - k,
{
    assert(s.take(k).drop_last() =~= s.take(k - 1));
    if k < s.len() {
        lemma_total_size_prefix(s, k + 1);
    } else {
        assert(s.take(k) =~= s);
    }
}

/// The current UTC time as `YYYYmmdd_HHMMSS`
/// (`chrono::Utc::now().format("%Y%m%d_%H%M%S")`).
/// Trusted: the value depends on the clock; nothing is stated of it.
#[verifier::external_body]
fn utc_compact_stamp() -> (r: String) {
    chrono::Utc::now().format("%Y%m%d_%H%M%S").to_string()
}

} // verus!
