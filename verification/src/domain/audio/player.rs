//! Frame-by-frame audio player state machine.
//!
//! Real-time pacing (sleeping between frames) is left to the caller; the
//! player only decides which samples come next.
use std::sync::Arc;
use vstd::prelude::*;
use crate::domain::audio::wav::{arc_clone, WavFile};

verus! {

/// Audio player state.
#[derive(Debug, Clone, Copy, PartialEq, Eq, Structural)]
pub enum AudioPlayerState {
    /// Player is idle (no audio loaded)
    Idle,
    /// Player is playing audio
    Playing,
    /// Player is paused
    Paused,
    /// Player has finished playing
    Finished,
    /// Player stopped by user or interrupt
    Stopped,
}

/// Playback options.
#[derive(Debug, Clone, Copy)]
pub struct PlaybackOptions {
    /// Frame duration in milliseconds (default: 20ms)
    pub frame_duration_ms: u32,
    /// Loop playback (default: false)
    pub loop_playback: bool,
    /// Allow DTMF interrupt (default: true)
    pub allow_interrupt: bool,
}

impl PlaybackOptions {
    /// The default options: 20 ms frames, no looping, interruptible.
    pub open spec fn spec_default() -> PlaybackOptions {
        PlaybackOptions { frame_duration_ms: 20, loop_playback: false, allow_interrupt: true }
    }
}

impl Default for PlaybackOptions {
    fn default() -> (r: Self)
        ensures
            r == PlaybackOptions::spec_default(),
    {
        PlaybackOptions { frame_duration_ms: 20, loop_playback: false, allow_interrupt: true }
    }
}

/// What a player holds: the loaded audio, the state, the sample position and the options.
pub struct AudioPlayerView {
    pub audio: Option<WavFile>,
    pub state: AudioPlayerState,
    pub position: nat,
    pub options: PlaybackOptions,
}

/// The number of samples in one frame: the sample rate times the frame
/// duration in milliseconds, divided by 1000.
pub open spec fn samples_per_frame(audio: WavFile, options: PlaybackOptions) -> nat {
    ((audio.format.sample_rate * options.frame_duration_ms) / 1000) as nat
}

/// The frame computation fits in 32-bit arithmetic.
pub open spec fn frame_size_fits(audio: Option<WavFile>, options: PlaybackOptions) -> bool {
    audio matches Some(a) ==> a.format.sample_rate * options.frame_duration_ms <= u32::MAX
}

/// The outcome of asking a player in state `v` for a frame: the frame (samples
/// and their count) and the player afterwards. Only a playing player with audio
/// yields frames; at the end it starts over when looping, else it finishes.
pub open spec fn spec_next_frame(v: AudioPlayerView) -> (Option<(Seq<i16>, nat)>, AudioPlayerView) {
    if v.state != AudioPlayerState::Playing {
        (None, v)
    } else {
        match v.audio {
            None => (None, v),
            Some(a) => {
                let samples = a.spec_samples_i16();
                if v.position >= samples.len() && !v.options.loop_playback {
                    (None, AudioPlayerView { state: AudioPlayerState::Finished, ..v })
                } else {
                    let start: nat = if v.position >= samples.len() { 0 } else { v.position };
                    let spf = samples_per_frame(a, v.options);
                    let end: nat = if start + spf < samples.len() { start + spf } else { samples.len() };
                    (
                        Some((samples.subrange(start as int, end as int), (end - start) as nat)),
                        AudioPlayerView { position: end, ..v },
                    )
                }
            },
        }
    }
}

/// The player after `play`: idle and paused players play on, finished and
/// stopped ones restart from the beginning, a playing one is unchanged.
pub open spec fn spec_play(v: AudioPlayerView) -> AudioPlayerView {
    match v.state {
        AudioPlayerState::Idle | AudioPlayerState::Paused => AudioPlayerView { state: AudioPlayerState::Playing, ..v },
        AudioPlayerState::Finished | AudioPlayerState::Stopped => AudioPlayerView {
            state: AudioPlayerState::Playing,
            position: 0,
            ..v
        },
        AudioPlayerState::Playing => v,
    }
}

/// The player after `pause`: only a playing player pauses.
pub open spec fn spec_pause(v: AudioPlayerView) -> AudioPlayerView {
    if v.state == AudioPlayerState::Playing {
        AudioPlayerView { state: AudioPlayerState::Paused, ..v }
    } else {
        v
    }
}

/// The player after `stop`: stopped at the beginning.
pub open spec fn spec_stop(v: AudioPlayerView) -> AudioPlayerView {
    AudioPlayerView { state: AudioPlayerState::Stopped, position: 0, ..v }
}

/// The player after `interrupt`: stopped if interrupts are allowed, else unchanged.
pub open spec fn spec_interrupt(v: AudioPlayerView) -> AudioPlayerView {
    if v.options.allow_interrupt { spec_stop(v) } else { v }
}

/// The player after loading `audio`: idle at the beginning of it.
pub open spec fn spec_load(v: AudioPlayerView, audio: WavFile) -> AudioPlayerView {
    AudioPlayerView { audio: Some(audio), state: AudioPlayerState::Idle, position: 0, ..v }
}

/// A fresh player with the given options.
pub open spec fn spec_fresh(options: PlaybackOptions) -> AudioPlayerView {
    AudioPlayerView { audio: None, state: AudioPlayerState::Idle, position: 0, options }
}

/// The smaller of two counts.
pub open spec fn min_nat(a: nat, b: nat) -> nat {
    if a < b { a } else { b }
}

/// Loading audio into a player in any state leaves it idle at the start of
/// that audio with its options unchanged; playing it then gives, as the
/// first frame, the first samples of the new audio (a frame's worth, or all
/// of them if fewer).
pub proof fn law_load_then_play(v: AudioPlayerView, a: WavFile)
    ensures
        spec_load(v, a).state == AudioPlayerState::Idle,
        spec_load(v, a).position == 0,
        spec_load(v, a).options == v.options,
        ({
            let w = spec_play(spec_load(v, a));
            let n = a.spec_samples_i16().len();
            let m = min_nat(samples_per_frame(a, v.options), n);
            &&& w.state == AudioPlayerState::Playing
            &&& w.position == 0
            &&& n > 0 ==> spec_next_frame(w) == (
                Some((a.spec_samples_i16().subrange(0, m as int), m)),
                AudioPlayerView { position: m, ..w },
            )
        }),
{
}

/// Pausing a playing player keeps its place and yields no frames; playing
/// again resumes at the same sample. Pausing a player that is not playing
/// changes nothing.
pub proof fn law_pause_resume(v: AudioPlayerView)
    ensures
        v.state == AudioPlayerState::Playing ==> {
            let p = spec_pause(v);
            &&& p.state == AudioPlayerState::Paused
            &&& p.position == v.position
            &&& spec_next_frame(p) == (None::<(Seq<i16>, nat)>, p)
            &&& spec_play(p) == v
        },
        v.state != AudioPlayerState::Playing ==> spec_pause(v) == v,
{
}

/// Audio player for streaming audio data.
pub struct AudioPlayer {
    audio: Option<Arc<WavFile>>,
    state: AudioPlayerState,
    position: usize,
    options: PlaybackOptions,
}

impl View for AudioPlayer {
    type V = AudioPlayerView;

    closed spec fn view(&self) -> AudioPlayerView {
        AudioPlayerView {
            audio: match self.audio {
                Some(a) => Some(*a),
                None => None,
            },
            state: self.state,
            position: self.position as nat,
            options: self.options,
        }
    }
}

fn copy_samples(s: &Vec<i16>, start: usize, end: usize) -> (r: Vec<i16>)
    requires
        start <= end <= s@.len(),
    ensures
        r@ == s@.subrange(start as int, end as int),
{
    let mut r: Vec<i16> = Vec::new();
    let mut i = start;
    while i < end
        invariant
            start <= i <= end <= s@.len(),
            r@ == s@.subrange(start as int, i as int),
        decreases end - i,
    {
        r.push(s[i]);
        assert(s@.subrange(start as int, i + 1) =~= s@.subrange(start as int, i as int).push(s@[i as int]));
        i = i + 1;
    }
    r
}

impl AudioPlayer {
    /// Create new audio player with default options.
    pub fn new() -> (r: Self)
        ensures
            r@ == spec_fresh(PlaybackOptions::spec_default()),
    {
        Self { audio: None, state: AudioPlayerState::Idle, position: 0, options: PlaybackOptions::default() }
    }

    /// Create audio player with options.
    pub fn with_options(options: PlaybackOptions) -> (r: Self)
        ensures
            r@ == spec_fresh(options),
    {
        Self { audio: None, state: AudioPlayerState::Idle, position: 0, options }
    }

    /// Load audio file for playback.
    pub fn load(&mut self, audio: Arc<WavFile>)
        ensures
            final(self)@ == spec_load(old(self)@, *audio),
    {
        self.audio = Some(audio);
        self.state = AudioPlayerState::Idle;
        self.position = 0;
    }

    /// Start or resume playback.
    pub fn play(&mut self)
        ensures
            final(self)@ == spec_play(old(self)@),
    {
        match self.state {
            AudioPlayerState::Idle | AudioPlayerState::Paused => {
                self.state = AudioPlayerState::Playing;
            },
            AudioPlayerState::Finished | AudioPlayerState::Stopped => {
                self.position = 0;
                self.state = AudioPlayerState::Playing;
            },
            AudioPlayerState::Playing => {},
        }
    }

    /// Pause playback.
    pub fn pause(&mut self)
        ensures
            final(self)@ == spec_pause(old(self)@),
    {
        if self.state == AudioPlayerState::Playing {
            self.state = AudioPlayerState::Paused;
        }
    }

    /// Stop playback and reset position.
    pub fn stop(&mut self)
        ensures
            final(self)@ == spec_stop(old(self)@),
    {
        self.state = AudioPlayerState::Stopped;
        self.position = 0;
    }

    /// Get current state.
    pub fn state(&self) -> (r: AudioPlayerState)
        ensures
            r == self@.state,
    {
        self.state
    }

    /// Check if player is playing.
    pub fn is_playing(&self) -> (r: bool)
        ensures
            r == (self@.state == AudioPlayerState::Playing),
    {
        self.state == AudioPlayerState::Playing
    }

    /// Check if player has finished (finished or stopped).
    pub fn is_finished(&self) -> (r: bool)
        ensures
            r == (self@.state == AudioPlayerState::Finished || self@.state == AudioPlayerState::Stopped),
    {
        self.state == AudioPlayerState::Finished || self.state == AudioPlayerState::Stopped
    }

    /// Current playback position, in samples.
    pub fn position(&self) -> (r: usize)
        ensures
            r == self@.position,
    {
        self.position
    }

    /// The loaded audio, if any.
    pub fn audio(&self) -> (r: Option<Arc<WavFile>>)
        ensures
            match r {
                Some(a) => self@.audio == Some(*a),
                None => self@.audio is None,
            },
    {
        match &self.audio {
            Some(a) => Some(arc_clone(a)),
            None => None,
        }
    }

    /// The playback options.
    pub fn options(&self) -> (r: PlaybackOptions)
        ensures
            r == self@.options,
    {
        self.options
    }

    /// Moves to sample `target`, clamped to the number of samples; without
    /// audio nothing changes.
    pub fn seek_sample(&mut self, target: usize)
        ensures
            match old(self)@.audio {
                Some(a) => final(self)@ == (AudioPlayerView {
                    position: if target < a.spec_samples_i16().len() { target as nat } else { a.spec_samples_i16().len() },
                    ..old(self)@
                }),
                None => final(self)@ == old(self)@,
            },
    {
        match &self.audio {
            Some(a) => {
                let samples = a.samples_i16();
                let clamped = if target < samples.len() { target } else { samples.len() };
                self.position = clamped;
            },
            None => {},
        }
    }

    /// Get the next audio frame: the samples and how many were read. None when
    /// not playing, without audio, or at the end of non-looping playback
    /// (which finishes the player).
    pub fn next_frame(&mut self) -> (r: Option<(Vec<i16>, usize)>)
        requires
            frame_size_fits(old(self)@.audio, old(self)@.options),
        ensures
            final(self)@ == spec_next_frame(old(self)@).1,
            match r {
                Some((v, n)) => spec_next_frame(old(self)@).0 == Some((v@, n as nat)),
                None => spec_next_frame(old(self)@).0 is None,
            },
    {
        if self.state != AudioPlayerState::Playing {
            return None;
        }
        let audio = match &self.audio {
            Some(a) => arc_clone(a),
            None => { return None; },
        };
        let rate: u32 = audio.format.sample_rate;
        let ms: u32 = self.options.frame_duration_ms;
        let spf: usize = (rate * ms / 1000) as usize;
        let samples = audio.samples_i16();
        let len = samples.len();
        let mut start = self.position;
        if start >= len {
            if self.options.loop_playback {
                start = 0;
            } else {
                self.state = AudioPlayerState::Finished;
                return None;
            }
        }
        let end = if spf < len - start { start + spf } else { len };
        let frame = copy_samples(&samples, start, end);
        let count = frame.len();
        self.position = end;
        Some((frame, count))
    }

    /// Interrupt playback (e.g. on DTMF); only when interrupts are allowed.
    pub fn interrupt(&mut self)
        ensures
            final(self)@ == spec_interrupt(old(self)@),
    {
        if self.options.allow_interrupt {
            self.stop();
        }
    }
}

impl Default for AudioPlayer {
    fn default() -> (r: Self)
        ensures
            r@ == spec_fresh(PlaybackOptions::spec_default()),
    {
        Self::new()
    }
}

/// Player handle with the same operations as [`AudioPlayer`], for use by
/// streaming code.
pub struct StreamingAudioPlayer {
    inner: AudioPlayer,
}

impl View for StreamingAudioPlayer {
    type V = AudioPlayerView;

    closed spec fn view(&self) -> AudioPlayerView {
        self.inner@
    }
}

impl StreamingAudioPlayer {
    /// Create new streaming audio player.
    pub fn new() -> (r: Self)
        ensures
            r@ == spec_fresh(PlaybackOptions::spec_default()),
    {
        Self { inner: AudioPlayer::new() }
    }

    /// Create with options.
    pub fn with_options(options: PlaybackOptions) -> (r: Self)
        ensures
            r@ == spec_fresh(options),
    {
        Self { inner: AudioPlayer::with_options(options) }
    }

    /// Load audio file.
    pub fn load(&mut self, audio: Arc<WavFile>)
        ensures
            final(self)@ == spec_load(old(self)@, *audio),
    {
        self.inner.load(audio);
    }

    /// Start playback.
    pub fn play(&mut self)
        ensures
            final(self)@ == spec_play(old(self)@),
    {
        self.inner.play();
    }

    /// Pause playback.
    pub fn pause(&mut self)
        ensures
            final(self)@ == spec_pause(old(self)@),
    {
        self.inner.pause();
    }

    /// Stop playback.
    pub fn stop(&mut self)
        ensures
            final(self)@ == spec_stop(old(self)@),
    {
        self.inner.stop();
    }

    /// Get current state.
    pub fn state(&self) -> (r: AudioPlayerState)
        ensures
            r == self@.state,
    {
        self.inner.state()
    }

    /// Check if playing.
    pub fn is_playing(&self) -> (r: bool)
        ensures
            r == (self@.state == AudioPlayerState::Playing),
    {
        self.inner.is_playing()
    }

    /// Check if finished.
    pub fn is_finished(&self) -> (r: bool)
        ensures
            r == (self@.state == AudioPlayerState::Finished || self@.state == AudioPlayerState::Stopped),
    {
        self.inner.is_finished()
    }

    /// Get next frame.
    pub fn next_frame(&mut self) -> (r: Option<(Vec<i16>, usize)>)
        requires
            frame_size_fits(old(self)@.audio, old(self)@.options),
        ensures
            final(self)@ == spec_next_frame(old(self)@).1,
            match r {
                Some((v, n)) => spec_next_frame(old(self)@).0 == Some((v@, n as nat)),
                None => spec_next_frame(old(self)@).0 is None,
            },
    {
        self.inner.next_frame()
    }

    /// Interrupt playback.
    pub fn interrupt(&mut self)
        ensures
            final(self)@ == spec_interrupt(old(self)@),
    {
        self.inner.interrupt();
    }

    /// Moves to sample `target`, clamped to the number of samples; without
    /// audio nothing changes.
    pub fn seek_sample(&mut self, target: usize)
        ensures
            match old(self)@.audio {
                Some(a) => final(self)@ == (AudioPlayerView {
                    position: if target < a.spec_samples_i16().len() { target as nat } else { a.spec_samples_i16().len() },
                    ..old(self)@
                }),
                None => final(self)@ == old(self)@,
            },
    {
        self.inner.seek_sample(target);
    }

    /// The underlying player.
    pub fn player(&self) -> (r: &AudioPlayer)
        ensures
            r@ == self@,
    {
        &self.inner
    }
}

impl Default for StreamingAudioPlayer {
    fn default() -> (r: Self)
        ensures
            r@ == spec_fresh(PlaybackOptions::spec_default()),
    {
        Self::new()
    }
}

} // verus!
