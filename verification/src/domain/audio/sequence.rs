//! Sequential playback of several audio files, one after another.
use std::collections::VecDeque;
use std::sync::Arc;
use vstd::prelude::*;
use crate::domain::audio::player::{
    frame_size_fits, min_nat, samples_per_frame, spec_fresh, spec_interrupt, spec_load, spec_next_frame,
    spec_pause, spec_play, spec_stop, AudioPlayer, AudioPlayerState, AudioPlayerView, PlaybackOptions,
};
use crate::domain::audio::wav::{arc_clone, WavFile};

verus! {

/// What a sequential player holds: the files still queued, the current
/// player, and the options.
pub struct SequentialPlayerView {
    pub queue: Seq<WavFile>,
    pub player: AudioPlayerView,
    pub options: PlaybackOptions,
}

/// The files behind a queue of shared handles.
pub open spec fn files_of(q: Seq<Arc<WavFile>>) -> Seq<WavFile> {
    q.map_values(|a: Arc<WavFile>| *a)
}

/// The player state is one from which `play` loads the next queued file.
pub open spec fn ready_for_next(s: AudioPlayerState) -> bool {
    s == AudioPlayerState::Idle || s == AudioPlayerState::Finished || s == AudioPlayerState::Stopped
}

/// The sequence after `play`: a player that is idle, finished or stopped takes
/// the next queued file (if any) and plays it; otherwise the current file
/// resumes.
pub open spec fn spec_seq_play(v: SequentialPlayerView) -> SequentialPlayerView {
    if ready_for_next(v.player.state) {
        if v.queue.len() > 0 {
            SequentialPlayerView {
                queue: v.queue.drop_first(),
                player: spec_play(spec_load(v.player, v.queue[0])),
                ..v
            }
        } else {
            v
        }
    } else {
        SequentialPlayerView { player: spec_play(v.player), ..v }
    }
}

/// Every queued file and the current one can be framed in 32-bit arithmetic.
pub open spec fn seq_frames_fit(v: SequentialPlayerView) -> bool {
    &&& frame_size_fits(v.player.audio, v.player.options)
    &&& forall|i: int| 0 <= i < v.queue.len() ==> frame_size_fits(Some(#[trigger] v.queue[i]), v.player.options)
}

/// A sequence whose current file is used up moves on within the same
/// request: the current player finishes, and the next queued file is loaded,
/// played and gives its first frame (a frame's worth of its samples, or all
/// of them if fewer); with nothing queued the player just finishes. While the
/// current file still has samples, its next frame comes first.
pub proof fn law_sequence_moves_on(v: SequentialPlayerView)
    requires
        v.player.state == AudioPlayerState::Playing,
        v.player.audio is Some,
        !v.player.options.loop_playback,
    ensures
        ({
            let a = v.player.audio->0;
            let (f1, p1) = spec_next_frame(v.player);
            &&& v.player.position < a.spec_samples_i16().len() ==> f1 is Some
            &&& v.player.position >= a.spec_samples_i16().len() ==> {
                &&& f1 is None
                &&& p1.state == AudioPlayerState::Finished
                &&& v.queue.len() > 0 && v.queue[0].spec_samples_i16().len() > 0 ==> {
                    let b = v.queue[0];
                    let m = min_nat(samples_per_frame(b, v.player.options), b.spec_samples_i16().len());
                    spec_next_frame(spec_play(spec_load(p1, b))) == (
                        Some((b.spec_samples_i16().subrange(0, m as int), m)),
                        AudioPlayerView { audio: Some(b), state: AudioPlayerState::Playing, position: m, options: v.player.options },
                    )
                }
            }
        }),
{
}

/// Sequential audio player: plays a queue of audio files one after another.
pub struct SequentialPlayer {
    queue: VecDeque<Arc<WavFile>>,
    player: AudioPlayer,
    options: PlaybackOptions,
}

impl View for SequentialPlayer {
    type V = SequentialPlayerView;

    closed spec fn view(&self) -> SequentialPlayerView {
        SequentialPlayerView { queue: files_of(self.queue@), player: self.player@, options: self.options }
    }
}

impl SequentialPlayer {
    /// Create new sequential player with default options.
    pub fn new() -> (r: Self)
        ensures
            r@.queue.len() == 0,
            r@.player == spec_fresh(PlaybackOptions::spec_default()),
            r@.options == PlaybackOptions::spec_default(),
    {
        let r = Self { queue: VecDeque::new(), player: AudioPlayer::new(), options: PlaybackOptions::default() };
        assert(r@.queue =~= Seq::<WavFile>::empty());
        r
    }

    /// Create with options.
    pub fn with_options(options: PlaybackOptions) -> (r: Self)
        ensures
            r@.queue.len() == 0,
            r@.player == spec_fresh(options),
            r@.options == options,
    {
        let r = Self { queue: VecDeque::new(), player: AudioPlayer::with_options(options), options };
        assert(r@.queue =~= Seq::<WavFile>::empty());
        r
    }

    /// Add audio file to the end of the queue.
    pub fn enqueue(&mut self, audio: Arc<WavFile>)
        ensures
            final(self)@ == (SequentialPlayerView { queue: old(self)@.queue.push(*audio), ..old(self)@ }),
    {
        self.queue.push_back(audio);
        assert(self@.queue =~= old(self)@.queue.push(*audio));
    }

    /// Add audio file to the front of the queue.
    pub fn enqueue_front(&mut self, audio: Arc<WavFile>)
        ensures
            final(self)@ == (SequentialPlayerView { queue: seq![*audio] + old(self)@.queue, ..old(self)@ }),
    {
        self.queue.push_front(audio);
        assert(self@.queue =~= seq![*audio] + old(self)@.queue);
    }

    /// Add multiple audio files to the end of the queue, in order.
    pub fn enqueue_all(&mut self, audio_files: Vec<Arc<WavFile>>)
        ensures
            final(self)@ == (SequentialPlayerView {
                queue: old(self)@.queue + files_of(audio_files@),
                ..old(self)@
            }),
    {
        let mut i: usize = 0;
        while i < audio_files.len()
            invariant
                i <= audio_files@.len(),
                self@ == (SequentialPlayerView {
                    queue: old(self)@.queue + files_of(audio_files@.take(i as int)),
                    ..old(self)@
                }),
            decreases audio_files.len() - i,
        {
            let a = arc_clone(&audio_files[i]);
            let ghost prev = self.queue@;
            self.queue.push_back(a);
            assert(self.queue@ == prev.push(a));
            assert(files_of(prev.push(a)) =~= files_of(prev).push(*a));
            assert(audio_files@.take(i + 1) =~= audio_files@.take(i as int).push(audio_files@[i as int]));
            assert(*a == *audio_files@[i as int]);
            assert forall|j: int| 0 <= j < i + 1 implies #[trigger] files_of(audio_files@.take(i + 1))[j]
                == files_of(audio_files@.take(i as int)).push(*a)[j] by {
                if j < i {
                    assert(audio_files@.take(i + 1)[j] == audio_files@.take(i as int)[j]);
                }
            }
            assert(files_of(audio_files@.take(i + 1)) =~= files_of(audio_files@.take(i as int)).push(*a));
            assert(self@.queue =~= old(self)@.queue + files_of(audio_files@.take(i + 1)));
            i = i + 1;
        }
        assert(audio_files@.take(audio_files@.len() as int) =~= audio_files@);
    }

    /// Clear the queue.
    pub fn clear_queue(&mut self)
        ensures
            final(self)@ == (SequentialPlayerView { queue: Seq::empty(), ..old(self)@ }),
    {
        self.queue.clear();
        assert(self@.queue =~= Seq::<WavFile>::empty());
    }

    /// Number of files in the queue.
    pub fn queue_length(&self) -> (r: usize)
        ensures
            r == self@.queue.len(),
    {
        self.queue.len()
    }

    /// Whether the queue is empty.
    pub fn is_queue_empty(&self) -> (r: bool)
        ensures
            r == (self@.queue.len() == 0),
    {
        self.queue.len() == 0
    }

    /// Start or resume playback, loading the next queued file when the
    /// current one is idle, finished or stopped.
    pub fn play(&mut self)
        ensures
            final(self)@ == spec_seq_play(old(self)@),
    {
        let st = self.player.state();
        if st == AudioPlayerState::Idle || st == AudioPlayerState::Finished || st == AudioPlayerState::Stopped {
            if let Some(audio) = self.queue.pop_front() {
                self.player.load(audio);
                self.player.play();
                assert(self@.queue =~= old(self)@.queue.drop_first());
            }
        } else {
            self.player.play();
        }
    }

    /// Pause playback.
    pub fn pause(&mut self)
        ensures
            final(self)@ == (SequentialPlayerView { player: spec_pause(old(self)@.player), ..old(self)@ }),
    {
        self.player.pause();
    }

    /// Stop playback and clear the queue.
    pub fn stop(&mut self)
        ensures
            final(self)@ == (SequentialPlayerView {
                queue: Seq::empty(),
                player: spec_stop(old(self)@.player),
                ..old(self)@
            }),
    {
        self.player.stop();
        self.queue.clear();
        assert(self@.queue =~= Seq::<WavFile>::empty());
    }

    /// Skip to the next audio file: stop the current one and play on.
    pub fn skip(&mut self)
        ensures
            final(self)@ == spec_seq_play(SequentialPlayerView { player: spec_stop(old(self)@.player), ..old(self)@ }),
    {
        self.player.stop();
        self.play();
    }

    /// Current player state.
    pub fn state(&self) -> (r: AudioPlayerState)
        ensures
            r == self@.player.state,
    {
        self.player.state()
    }

    /// Playing, or with files still queued.
    pub fn is_playing(&self) -> (r: bool)
        ensures
            r == (self@.player.state == AudioPlayerState::Playing || self@.queue.len() > 0),
    {
        self.player.is_playing() || self.queue.len() != 0
    }

    /// The current file is finished or stopped and nothing is queued.
    pub fn is_finished(&self) -> (r: bool)
        ensures
            r == ((self@.player.state == AudioPlayerState::Finished || self@.player.state
                == AudioPlayerState::Stopped) && self@.queue.len() == 0),
    {
        self.player.is_finished() && self.queue.len() == 0
    }

    /// The player of the current file.
    pub fn current_player(&self) -> (r: &AudioPlayer)
        ensures
            r@ == self@.player,
    {
        &self.player
    }

    /// Get the next audio frame, moving on to the next queued file when the
    /// current one has just finished.
    pub fn next_frame(&mut self) -> (r: Option<(Vec<i16>, usize)>)
        requires
            seq_frames_fit(old(self)@),
        ensures
            ({
                let v = old(self)@;
                let (f1, p1) = spec_next_frame(v.player);
                if f1 is Some {
                    &&& final(self)@ == (SequentialPlayerView { player: p1, ..v })
                    &&& r matches Some((s, n)) && f1 == Some((s@, n as nat))
                } else if p1.state == AudioPlayerState::Finished && v.queue.len() > 0 {
                    let (f2, p2) = spec_next_frame(spec_play(spec_load(p1, v.queue[0])));
                    &&& final(self)@ == (SequentialPlayerView { queue: v.queue.drop_first(), player: p2, ..v })
                    &&& match r {
                        Some((s, n)) => f2 == Some((s@, n as nat)),
                        None => f2 is None,
                    }
                } else {
                    &&& final(self)@ == (SequentialPlayerView { player: p1, ..v })
                    &&& r is None
                }
            }),
    {
        if let Some(frame) = self.player.next_frame() {
            return Some(frame);
        }
        if self.player.state() == AudioPlayerState::Finished {
            if let Some(next_audio) = self.queue.pop_front() {
                proof {
                    assert(old(self)@.queue[0] == *next_audio);
                    assert(frame_size_fits(Some(old(self)@.queue[0]), old(self)@.player.options));
                }
                self.player.load(next_audio);
                self.player.play();
                assert(self@.queue =~= old(self)@.queue.drop_first());
                return self.player.next_frame();
            }
        }
        None
    }

    /// Interrupt playback and clear the queue.
    pub fn interrupt(&mut self)
        ensures
            final(self)@ == (SequentialPlayerView {
                queue: Seq::empty(),
                player: spec_interrupt(old(self)@.player),
                ..old(self)@
            }),
    {
        self.player.interrupt();
        self.queue.clear();
        assert(self@.queue =~= Seq::<WavFile>::empty());
    }
}

impl Default for SequentialPlayer {
    fn default() -> (r: Self)
        ensures
            r@.queue.len() == 0,
            r@.player == spec_fresh(PlaybackOptions::spec_default()),
            r@.options == PlaybackOptions::spec_default(),
    {
        Self::new()
    }
}

/// What a builder holds: the files to queue and the options.
pub struct SequenceBuilderView {
    pub files: Seq<WavFile>,
    pub options: PlaybackOptions,
}

/// Builder for a sequential player.
pub struct SequenceBuilder {
    files: Vec<Arc<WavFile>>,
    options: PlaybackOptions,
}

impl View for SequenceBuilder {
    type V = SequenceBuilderView;

    closed spec fn view(&self) -> SequenceBuilderView {
        SequenceBuilderView { files: files_of(self.files@), options: self.options }
    }
}

impl SequenceBuilder {
    /// Create new sequence builder with no files and default options.
    pub fn new() -> (r: Self)
        ensures
            r@.files.len() == 0,
            r@.options == PlaybackOptions::spec_default(),
    {
        let r = Self { files: Vec::new(), options: PlaybackOptions::default() };
        assert(r@.files =~= Seq::<WavFile>::empty());
        r
    }

    /// Add audio file to the sequence.
    pub fn add(self, audio: Arc<WavFile>) -> (r: Self)
        ensures
            r@ == (SequenceBuilderView { files: self@.files.push(*audio), ..self@ }),
    {
        let mut s = self;
        s.files.push(audio);
        assert(s@.files =~= self@.files.push(*audio));
        s
    }

    /// Set playback options.
    pub fn options(self, options: PlaybackOptions) -> (r: Self)
        ensures
            r@ == (SequenceBuilderView { options, ..self@ }),
    {
        let mut s = self;
        s.options = options;
        s
    }

    /// Set frame duration.
    pub fn frame_duration_ms(self, ms: u32) -> (r: Self)
        ensures
            r@ == (SequenceBuilderView { options: PlaybackOptions { frame_duration_ms: ms, ..self@.options }, ..self@ }),
    {
        let mut s = self;
        s.options.frame_duration_ms = ms;
        s
    }

    /// Enable loop playback for the sequence.
    pub fn loop_playback(self, loop_enabled: bool) -> (r: Self)
        ensures
            r@ == (SequenceBuilderView { options: PlaybackOptions { loop_playback: loop_enabled, ..self@.options }, ..self@ }),
    {
        let mut s = self;
        s.options.loop_playback = loop_enabled;
        s
    }

    /// Set interrupt on DTMF.
    pub fn allow_interrupt(self, allow: bool) -> (r: Self)
        ensures
            r@ == (SequenceBuilderView { options: PlaybackOptions { allow_interrupt: allow, ..self@.options }, ..self@ }),
    {
        let mut s = self;
        s.options.allow_interrupt = allow;
        s
    }

    /// Build the sequential player: the files queued in order, nothing playing.
    pub fn build(self) -> (r: SequentialPlayer)
        ensures
            r@.queue == self@.files,
            r@.player == spec_fresh(self@.options),
            r@.options == self@.options,
    {
        let mut player = SequentialPlayer::with_options(self.options);
        player.enqueue_all(self.files);
        player
    }
}

impl Default for SequenceBuilder {
    fn default() -> (r: Self)
        ensures
            r@.files.len() == 0,
            r@.options == PlaybackOptions::spec_default(),
    {
        Self::new()
    }
}

} // verus!
