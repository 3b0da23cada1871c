use std::sync::Arc;
use yakyak::domain::audio::wav::{WavError, WavFile, WavFormat};

#[test]
fn test_wav_format_g711_compatibility() {
    let format = WavFormat { channels: 1, sample_rate: 8000, bits_per_sample: 8, audio_format: 1 };
    assert!(format.is_g711_compatible());

    let format_stereo = WavFormat { channels: 2, sample_rate: 8000, bits_per_sample: 8, audio_format: 1 };
    assert!(!format_stereo.is_g711_compatible());
}

#[test]
fn test_wav_format_needs_resampling() {
    let format_8k = WavFormat { channels: 1, sample_rate: 8000, bits_per_sample: 16, audio_format: 1 };
    assert!(!format_8k.needs_resampling());

    let format_44k = WavFormat { channels: 2, sample_rate: 44100, bits_per_sample: 16, audio_format: 1 };
    assert!(format_44k.needs_resampling());
}

#[test]
fn test_wav_format_bytes_per_sample() {
    let format = WavFormat { channels: 1, sample_rate: 8000, bits_per_sample: 16, audio_format: 1 };
    assert_eq!(format.bytes_per_sample(), 2);
    assert_eq!(format.bytes_per_frame(), 2);
}

#[test]
fn test_samples_i16_conversion() {
    let data = vec![
        0x00, 0x01, // 256
        0xFF, 0xFF, // -1
        0x00, 0x80, // -32768
        0xFF, 0x7F, // 32767
    ];
    let wav = WavFile {
        format: WavFormat { channels: 1, sample_rate: 8000, bits_per_sample: 16, audio_format: 1 },
        data: Arc::new(data),
    };
    let samples = wav.samples_i16();
    assert_eq!(samples.len(), 4);
    assert_eq!(samples[0], 256);
    assert_eq!(samples[1], -1);
    assert_eq!(samples[2], -32768);
    assert_eq!(samples[3], 32767);
}

#[test]
fn test_to_mono_conversion() {
    let samples = vec![100i16, 200i16, 300i16, 400i16];
    let mut data = Vec::new();
    for sample in samples {
        data.extend_from_slice(&sample.to_le_bytes());
    }
    let stereo_wav = WavFile {
        format: WavFormat { channels: 2, sample_rate: 8000, bits_per_sample: 16, audio_format: 1 },
        data: Arc::new(data),
    };
    let mono_wav = stereo_wav.to_mono();
    assert_eq!(mono_wav.format.channels, 1);
    let mono_samples = mono_wav.samples_i16();
    assert_eq!(mono_samples.len(), 2);
    assert_eq!(mono_samples[0], 150);
    assert_eq!(mono_samples[1], 350);
}

fn wav_file(k: &[u8], fmt: &[u8], data: &[u8]) -> Vec<u8> {
    let mut b = Vec::new();
    b.extend_from_slice(b"RIFF");
    b.extend_from_slice(&36u32.to_le_bytes());
    b.extend_from_slice(b"WAVE");
    b.extend_from_slice(k);
    b.extend_from_slice(b"fmt ");
    b.extend_from_slice(&(fmt.len() as u32).to_le_bytes());
    b.extend_from_slice(fmt);
    b.extend_from_slice(b"data");
    b.extend_from_slice(&(data.len() as u32).to_le_bytes());
    b.extend_from_slice(data);
    b
}

fn fmt_chunk(audio_format: u16, channels: u16, rate: u32, bits: u16) -> Vec<u8> {
    let mut f = Vec::new();
    f.extend_from_slice(&audio_format.to_le_bytes());
    f.extend_from_slice(&channels.to_le_bytes());
    f.extend_from_slice(&rate.to_le_bytes());
    f.extend_from_slice(&(rate * 2).to_le_bytes());
    f.extend_from_slice(&2u16.to_le_bytes());
    f.extend_from_slice(&bits.to_le_bytes());
    f
}

#[test]
fn test_parse_wav_bytes() {
    let bytes = wav_file(b"", &fmt_chunk(1, 1, 8000, 16), &[1, 0, 2, 0]);
    let wav = WavFile::from_bytes(&bytes).unwrap();
    assert_eq!(wav.format, WavFormat { channels: 1, sample_rate: 8000, bits_per_sample: 16, audio_format: 1 });
    assert_eq!(*wav.data, vec![1, 0, 2, 0]);
    assert_eq!(wav.samples_i16(), vec![1, 2]);
}

#[test]
fn test_parse_wav_skips_unknown_chunk() {
    // an odd-sized LIST chunk with its pad byte before the fmt chunk
    let extra = [b'L', b'I', b'S', b'T', 3, 0, 0, 0, 9, 9, 9, 0];
    let bytes = wav_file(&extra, &fmt_chunk(1, 2, 16000, 8), &[128, 129]);
    let wav = WavFile::from_bytes(&bytes).unwrap();
    assert_eq!(wav.format.channels, 2);
    assert_eq!(wav.format.sample_rate, 16000);
    assert_eq!(wav.samples_i16(), vec![0, 256]);
}

#[test]
fn test_parse_wav_errors() {
    assert_eq!(WavFile::from_bytes(b"RIFF").unwrap_err(), WavError::IoError("failed to fill whole buffer".to_string()));
    let mut bad = wav_file(b"", &fmt_chunk(1, 1, 8000, 16), &[0, 0]);
    bad[0] = b'X';
    assert_eq!(WavFile::from_bytes(&bad).unwrap_err(), WavError::InvalidFormat("Missing RIFF signature".to_string()));
    let mut not_wave = wav_file(b"", &fmt_chunk(1, 1, 8000, 16), &[0, 0]);
    not_wave[8] = b'X';
    assert_eq!(WavFile::from_bytes(&not_wave).unwrap_err(), WavError::InvalidFormat("Not a WAVE file".to_string()));
    let adpcm = wav_file(b"", &fmt_chunk(2, 1, 8000, 16), &[0, 0]);
    assert_eq!(
        WavFile::from_bytes(&adpcm).unwrap_err(),
        WavError::UnsupportedFormat("Only PCM format (1) is supported, got 2".to_string())
    );
    let three = wav_file(b"", &fmt_chunk(1, 3, 8000, 16), &[0, 0]);
    assert_eq!(WavFile::from_bytes(&three).unwrap_err(), WavError::InvalidFormat("Invalid number of channels: 3".to_string()));
    let zero_rate = wav_file(b"", &fmt_chunk(1, 1, 0, 16), &[0, 0]);
    assert_eq!(WavFile::from_bytes(&zero_rate).unwrap_err(), WavError::InvalidFormat("Invalid sample rate: 0".to_string()));
    let twelve = wav_file(b"", &fmt_chunk(1, 1, 8000, 12), &[0, 0]);
    assert_eq!(WavFile::from_bytes(&twelve).unwrap_err(), WavError::UnsupportedFormat("Unsupported bits per sample: 12".to_string()));
    let mut no_data = wav_file(b"", &fmt_chunk(1, 1, 8000, 16), &[]);
    no_data.truncate(no_data.len() - 8);
    assert_eq!(WavFile::from_bytes(&no_data).unwrap_err(), WavError::InvalidFormat("Missing data chunk".to_string()));
    let mut short_fmt = wav_file(b"", &fmt_chunk(1, 1, 8000, 16)[..8], &[]);
    short_fmt.truncate(short_fmt.len() - 8);
    assert_eq!(WavFile::from_bytes(&short_fmt).unwrap_err(), WavError::InvalidFormat("fmt chunk too small".to_string()));
}

#[test]
fn test_samples_8_24_32_bit() {
    let w8 = WavFile { format: WavFormat { channels: 1, sample_rate: 8000, bits_per_sample: 8, audio_format: 1 }, data: Arc::new(vec![0, 128, 255]) };
    assert_eq!(w8.samples_i16(), vec![-32768, 0, 32512]);
    let w24 = WavFile { format: WavFormat { channels: 1, sample_rate: 8000, bits_per_sample: 24, audio_format: 1 }, data: Arc::new(vec![9, 0x34, 0x12, 7]) };
    assert_eq!(w24.samples_i16(), vec![0x1234]);
    let w32 = WavFile { format: WavFormat { channels: 1, sample_rate: 8000, bits_per_sample: 32, audio_format: 1 }, data: Arc::new(vec![1, 2, 0xFF, 0xFF]) };
    assert_eq!(w32.samples_i16(), vec![-1]);
}

#[test]
fn test_to_mono_rounds_toward_zero() {
    let mut data = Vec::new();
    for s in [-3i16, 0, 3, 0, -32768, -32768] {
        data.extend_from_slice(&s.to_le_bytes());
    }
    let w = WavFile { format: WavFormat { channels: 2, sample_rate: 8000, bits_per_sample: 16, audio_format: 1 }, data: Arc::new(data) };
    assert_eq!(w.to_mono().samples_i16(), vec![-1, 1, -32768]);
}
