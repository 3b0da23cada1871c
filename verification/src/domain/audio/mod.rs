//! Audio domain - audio file handling and playback.
pub mod player;
pub mod wav;

pub use player::{AudioPlayer, AudioPlayerState, PlaybackOptions, StreamingAudioPlayer};
pub use wav::{WavError, WavFile, WavFormat};
pub mod sequence;
pub use sequence::{SequenceBuilder, SequentialPlayer};
pub mod manager;
pub use manager::Language;
