//! WAV data: format description, sample extraction, channel down-mixing,
//! and the RIFF/WAVE container parser over bytes.
use std::sync::Arc;
use vstd::prelude::*;
use crate::text::{decimal, u64_to_string};

verus! {

/// WAV file format errors.
#[derive(Debug, Clone, PartialEq)]
pub enum WavError {
    IoError(String),
    InvalidFormat(String),
    UnsupportedFormat(String),
}

/// What a [`WavError`] says: its kind and its message.
pub enum WavErrorView {
    IoError(Seq<char>),
    InvalidFormat(Seq<char>),
    UnsupportedFormat(Seq<char>),
}

impl View for WavError {
    type V = WavErrorView;

    open spec fn view(&self) -> WavErrorView {
        match self {
            WavError::IoError(m) => WavErrorView::IoError(m@),
            WavError::InvalidFormat(m) => WavErrorView::InvalidFormat(m@),
            WavError::UnsupportedFormat(m) => WavErrorView::UnsupportedFormat(m@),
        }
    }
}

/// The message of a read that ran past the end of the data
/// (what an `UnexpectedEof` I/O error displays).
pub open spec fn eof_message() -> Seq<char> {
    "failed to fill whole buffer"@
}

fn eof_error() -> (e: WavError)
    ensures
        e@ == WavErrorView::IoError(eof_message()),
{
    WavError::IoError(String::from_str("failed to fill whole buffer"))
}

/// WAV audio format.
#[derive(Debug, Clone, Copy, PartialEq, Eq, Structural)]
pub struct WavFormat {
    /// Number of channels (1 = mono, 2 = stereo)
    pub channels: u16,
    /// Sample rate in Hz
    pub sample_rate: u32,
    /// Bits per sample (8, 16, 24, 32)
    pub bits_per_sample: u16,
    /// Audio format code (1 = PCM)
    pub audio_format: u16,
}

impl WavFormat {
    /// Compatible with G.711: 8 kHz, mono, 8-bit.
    pub fn is_g711_compatible(&self) -> (r: bool)
        ensures
            r == (self.sample_rate == 8000 && self.channels == 1 && self.bits_per_sample == 8),
    {
        self.sample_rate == 8000 && self.channels == 1 && self.bits_per_sample == 8
    }

    /// Telephony needs 8 kHz; any other rate needs resampling.
    pub fn needs_resampling(&self) -> (r: bool)
        ensures
            r == (self.sample_rate != 8000),
    {
        self.sample_rate != 8000
    }

    /// Bytes per sample: the bit width divided by eight, rounded down.
    pub fn bytes_per_sample(&self) -> (r: usize)
        ensures
            r == self.bits_per_sample / 8,
    {
        (self.bits_per_sample / 8) as usize
    }

    /// Bytes per frame: bytes per sample times the channel count.
    pub fn bytes_per_frame(&self) -> (r: usize)
        ensures
            r == (self.bits_per_sample / 8) * self.channels,
    {
        let b = self.bytes_per_sample();
        assert(b * self.channels <= 8192 * 65535) by (nonlinear_arith)
            requires
                b <= 8192,
                self.channels <= 65535,
        ;
        b * (self.channels as usize)
    }
}

/// WAV file: format and raw PCM bytes.
#[derive(Debug, Clone)]
pub struct WavFile {
    /// Audio format information
    pub format: WavFormat,
    /// Raw audio data (PCM samples)
    pub data: Arc<Vec<u8>>,
}

/// The signed 16-bit value of the little-endian byte pair (`lo`, `hi`).
pub open spec fn le_i16(lo: u8, hi: u8) -> int {
    let u = lo + 256 * hi;
    if u >= 32768 { u - 65536 } else { u }
}

/// An 8-bit unsigned sample widened to a signed 16-bit sample.
pub open spec fn widen_u8(b: u8) -> int {
    (b - 128) * 256
}

/// The samples of raw PCM bytes as signed 16-bit values: 8-bit samples are
/// re-centred and scaled, wider samples keep their two most significant bytes,
/// and trailing bytes that do not fill a sample are ignored.
pub open spec fn spec_samples(bits: u16, data: Seq<u8>) -> Seq<i16> {
    if bits == 8 {
        Seq::new(data.len(), |i: int| widen_u8(data[i]) as i16)
    } else if bits == 16 {
        Seq::new(data.len() / 2, |i: int| le_i16(data[2 * i], data[2 * i + 1]) as i16)
    } else if bits == 24 {
        Seq::new(data.len() / 3, |i: int| le_i16(data[3 * i + 1], data[3 * i + 2]) as i16)
    } else if bits == 32 {
        Seq::new(data.len() / 4, |i: int| le_i16(data[4 * i + 2], data[4 * i + 3]) as i16)
    } else {
        Seq::empty()
    }
}

/// Integer division by two rounding toward zero (Rust's `/` on `i32`).
pub open spec fn half_toward_zero(x: int) -> int {
    if x >= 0 { x / 2 } else { -((-x) / 2) }
}

/// Stereo samples down-mixed: each pair (left, right) becomes its average,
/// rounded toward zero; an unpaired last sample is dropped.
pub open spec fn spec_mix_pairs(s: Seq<i16>) -> Seq<i16> {
    Seq::new(s.len() / 2, |i: int| half_toward_zero(s[2 * i] + s[2 * i + 1]) as i16)
}

/// The low byte of a sample's two's-complement little-endian encoding.
pub open spec fn lo_byte(x: i16) -> u8 {
    ((if x < 0 { x + 65536 } else { x as int }) % 256) as u8
}

/// The high byte of a sample's two's-complement little-endian encoding.
pub open spec fn hi_byte(x: i16) -> u8 {
    ((if x < 0 { x + 65536 } else { x as int }) / 256) as u8
}

/// Samples encoded as 16-bit little-endian bytes.
pub open spec fn spec_encode16(s: Seq<i16>) -> Seq<u8> {
    Seq::new(2 * s.len(), |j: int| if j % 2 == 0 { lo_byte(s[j / 2]) } else { hi_byte(s[j / 2]) })
}

/// Decoding what was encoded gives back the samples.
pub proof fn lemma_decode_encode16(s: Seq<i16>)
    ensures
        spec_samples(16, spec_encode16(s)) =~= s,
{
    let e = spec_encode16(s);
    assert(e.len() / 2 == s.len());
    assert forall|i: int| 0 <= i < s.len() implies #[trigger] spec_samples(16, e)[i] == s[i] by {
        assert(e[2 * i] == lo_byte(s[i]));
        assert(e[2 * i + 1] == hi_byte(s[i]));
    }
}

fn sample_from_le(lo: u8, hi: u8) -> (r: i16)
    ensures
        r == le_i16(lo, hi),
{
    let u: u32 = lo as u32 + 256 * (hi as u32);
    if u >= 32768 {
        (u as i32 - 65536) as i16
    } else {
        u as i16
    }
}

pub(crate) fn encode_sample(x: i16, out: &mut Vec<u8>)
    ensures
        final(out)@ == old(out)@.push(lo_byte(x)).push(hi_byte(x)),
{
    let u: u32 = if x < 0 { (x as i32 + 65536) as u32 } else { x as u32 };
    out.push((u % 256) as u8);
    out.push((u / 256) as u8);
}

/// Little-endian 16-bit samples read from bytes `width*i + width-2` and
/// `width*i + width-1` of each `width`-byte group.
fn wide_samples(data: &Vec<u8>, width: usize) -> (r: Vec<i16>)
    requires
        2 <= width <= 4,
    ensures
        r@.len() == data@.len() / (width as nat),
        forall|i: int|
            0 <= i < r@.len() ==> r@[i] == le_i16(
                #[trigger] data@[width * i + width - 2],
                data@[width * i + width - 1],
            ),
{
    let n = data.len() / width;
    let mut r: Vec<i16> = Vec::new();
    let mut i: usize = 0;
    let mut pos: usize = 0;
    while i < n
        invariant
            2 <= width <= 4,
            n == data@.len() / (width as nat),
            i <= n,
            pos == width * i,
            r@.len() == i,
            forall|k: int|
                0 <= k < i ==> r@[k] == le_i16(
                    #[trigger] data@[width * k + width - 2],
                    data@[width * k + width - 1],
                ),
        decreases n - i,
    {
        assert(width * i + width <= width * n) by (nonlinear_arith)
            requires
                i < n,
                width >= 2,
        ;
        assert(width * n <= data@.len()) by (nonlinear_arith)
            requires
                n == data@.len() / (width as nat),
                width >= 2,
        ;
        assert(pos + width <= data.len());
        let s = sample_from_le(data[pos + width - 2], data[pos + width - 1]);
        r.push(s);
        assert(width * (i + 1) == width * i + width) by (nonlinear_arith);
        pos = pos + width;
        i = i + 1;
    }
    r
}

impl WavFile {
    /// The signed 16-bit samples of the data.
    pub open spec fn spec_samples_i16(&self) -> Seq<i16> {
        spec_samples(self.format.bits_per_sample, (*self.data)@)
    }

    /// Reads a `fmt ` chunk of `chunk_size` bytes that starts at `offset`.
    pub fn parse_fmt_chunk(bytes: &[u8], offset: usize, chunk_size: usize) -> (r: Result<WavFormat, WavError>)
        requires
            offset <= bytes@.len(),
        ensures
            match r {
                Ok(f) => spec_parse_fmt(bytes@, offset as int, chunk_size as int) == Ok::<WavFormat, WavErrorView>(f),
                Err(e) => spec_parse_fmt(bytes@, offset as int, chunk_size as int) == Err::<WavFormat, WavErrorView>(e@),
            },
    {
        if chunk_size < 16 {
            return Err(WavError::InvalidFormat(String::from_str("fmt chunk too small")));
        }
        if chunk_size > bytes.len() - offset {
            return Err(eof_error());
        }
        let audio_format = read_u16(bytes, offset);
        let channels = read_u16(bytes, offset + 2);
        let sample_rate = read_u32(bytes, offset + 4);
        let bits_per_sample = read_u16(bytes, offset + 14);
        if audio_format != 1 {
            return Err(WavError::UnsupportedFormat(
                message_with_number("Only PCM format (1) is supported, got ", audio_format as u64),
            ));
        }
        if channels == 0 || channels > 2 {
            return Err(WavError::InvalidFormat(
                message_with_number("Invalid number of channels: ", channels as u64),
            ));
        }
        if sample_rate == 0 {
            return Err(WavError::InvalidFormat(String::from_str("Invalid sample rate: 0")));
        }
        if bits_per_sample != 8 && bits_per_sample != 16 && bits_per_sample != 24 && bits_per_sample != 32 {
            return Err(WavError::UnsupportedFormat(
                message_with_number("Unsupported bits per sample: ", bits_per_sample as u64),
            ));
        }
        Ok(WavFormat { channels, sample_rate, bits_per_sample, audio_format })
    }

    /// Parses a RIFF/WAVE byte stream: the 12-byte RIFF header, then chunks
    /// until both the format and the data have been read.
    pub fn from_bytes(bytes: &[u8]) -> (r: Result<WavFile, WavError>)
        ensures
            match r {
                Ok(w) => spec_parse_wav(bytes@) == Ok::<(WavFormat, Seq<u8>), WavErrorView>((w.format, (*w.data)@)),
                Err(e) => spec_parse_wav(bytes@) == Err::<(WavFormat, Seq<u8>), WavErrorView>(e@),
            },
    {
        let len = bytes.len();
        if len < 12 {
            return Err(eof_error());
        }
        if !tag_is(bytes, 0, 0x52, 0x49, 0x46, 0x46) {
            return Err(WavError::InvalidFormat(String::from_str("Missing RIFF signature")));
        }
        if !tag_is(bytes, 8, 0x57, 0x41, 0x56, 0x45) {
            return Err(WavError::InvalidFormat(String::from_str("Not a WAVE file")));
        }
        let ghost b = bytes@;
        let ghost total = spec_parse_chunks(b, 12, None, None);
        assert(b.subrange(0, 4) == seq![0x52u8, 0x49u8, 0x46u8, 0x46u8]);
        assert(total == spec_parse_wav(b));
        let mut pos: usize = 12;
        let mut format: Option<WavFormat> = None;
        let mut data: Option<Vec<u8>> = None;
        loop
            invariant_except_break
                spec_parse_chunks(b, pos as int, format, opt_bytes(data)) == total,
                !(format is Some && data is Some),
            invariant
                b == bytes@,
                len == b.len(),
                12 <= pos,
                total == spec_parse_chunks(b, 12, None, None),
                total == spec_parse_wav(b),
            ensures
                spec_finish(format, opt_bytes(data)) == total,
            decreases len - pos,
        {
            if pos > len || len - pos < 8 {
                break;
            }
            let size32 = read_u32(bytes, pos + 4);
            let size = size32 as usize;
            let body = pos + 8;
            if tag_is(bytes, pos, 0x66, 0x6d, 0x74, 0x20) {
                match Self::parse_fmt_chunk(bytes, body, size) {
                    Ok(f) => { format = Some(f); },
                    Err(e) => { return Err(e); },
                }
            } else if tag_is(bytes, pos, 0x64, 0x61, 0x74, 0x61) {
                if size > len - body {
                    return Err(eof_error());
                }
                data = Some(copy_range(bytes, body, size));
            } else {
                assert(b.subrange(pos as int, pos + 4) != fmt_tag());
                assert(b.subrange(pos as int, pos + 4) != data_tag());
            }
            let next: u128 = body as u128 + size as u128 + if size % 2 == 1 { 1 } else { 0 };
            let found = format.is_some() && data.is_some();
            if found || next + 8 > len as u128 {
                break;
            }
            pos = next as usize;
        }
        match format {
            None => Err(WavError::InvalidFormat(String::from_str("Missing fmt chunk"))),
            Some(f) => match data {
                None => Err(WavError::InvalidFormat(String::from_str("Missing data chunk"))),
                Some(d) => Ok(WavFile { format: f, data: Arc::new(d) }),
            },
        }
    }

    /// Audio data as signed 16-bit samples.
    pub fn samples_i16(&self) -> (r: Vec<i16>)
        ensures
            r@ == self.spec_samples_i16(),
    {
        let data: &Vec<u8> = &self.data;
        let bits = self.format.bits_per_sample;
        if bits == 8 {
            let mut r: Vec<i16> = Vec::new();
            let mut i: usize = 0;
            while i < data.len()
                invariant
                    i <= data@.len(),
                    r@.len() == i,
                    forall|k: int| 0 <= k < i ==> r@[k] == widen_u8(#[trigger] data@[k]),
                decreases data.len() - i,
            {
                let b = data[i];
                r.push(((b as i16) - 128) * 256);
                i = i + 1;
            }
            assert(r@ =~= self.spec_samples_i16());
            r
        } else if bits == 16 || bits == 24 || bits == 32 {
            let width: usize = (bits / 8) as usize;
            let r = wide_samples(data, width);
            assert forall|i: int| 0 <= i < r@.len() implies #[trigger] r@[i] == self.spec_samples_i16()[i] by {
                assert(r@[i] == le_i16(data@[width * i + width - 2], data@[width * i + width - 1]));
            }
            assert(r@ =~= self.spec_samples_i16());
            r
        } else {
            Vec::new()
        }
    }

    /// Down-mixes to mono: a mono file is returned unchanged; otherwise the
    /// samples are taken pairwise as (left, right), averaged, and stored as
    /// 16-bit PCM with one channel at the same sample rate.
    pub fn to_mono(&self) -> (r: WavFile)
        ensures
            self.format.channels == 1 ==> r.format == self.format && (*r.data)@ == (*self.data)@,
            self.format.channels != 1 ==> {
                &&& r.format == (WavFormat {
                    channels: 1,
                    bits_per_sample: 16,
                    sample_rate: self.format.sample_rate,
                    audio_format: 1,
                })
                &&& (*r.data)@ == spec_encode16(spec_mix_pairs(self.spec_samples_i16()))
            },
    {
        if self.format.channels == 1 {
            return WavFile { format: self.format, data: arc_clone(&self.data) };
        }
        let samples = self.samples_i16();
        let n = samples.len() / 2;
        let ghost mixed = spec_mix_pairs(samples@);
        let mut out: Vec<u8> = Vec::new();
        let mut i: usize = 0;
        while i < n
            invariant
                n == samples@.len() / 2,
                mixed == spec_mix_pairs(samples@),
                i <= n,
                out@ == spec_encode16(mixed.take(i as int)),
            decreases n - i,
        {
            assert(2 * i + 1 < samples.len());
            let sum: i32 = samples[2 * i] as i32 + samples[2 * i + 1] as i32;
            let avg: i32 = if sum >= 0 { sum / 2 } else { -((-sum) / 2) };
            let m = avg as i16;
            assert(m == mixed[i as int]);
            let ghost before = out@;
            encode_sample(m, &mut out);
            assert(out@ =~= spec_encode16(mixed.take(i + 1))) by {
                let t = mixed.take(i + 1);
                assert(t =~= mixed.take(i as int).push(m));
                assert forall|j: int| 0 <= j < out@.len() implies out@[j] == spec_encode16(t)[j] by {
                    if j < 2 * i {
                        assert(before[j] == spec_encode16(mixed.take(i as int))[j]);
                    }
                }
            }
            i = i + 1;
        }
        assert(mixed.take(n as int) =~= mixed);
        WavFile {
            format: WavFormat {
                channels: 1,
                bits_per_sample: 16,
                sample_rate: self.format.sample_rate,
                audio_format: 1,
            },
            data: Arc::new(out),
        }
    }
}

/// Little-endian unsigned 16-bit value at `i`.
pub open spec fn u16_at(b: Seq<u8>, i: int) -> int {
    b[i] + 256 * b[i + 1]
}

/// Little-endian unsigned 32-bit value at `i`.
pub open spec fn u32_at(b: Seq<u8>, i: int) -> int {
    b[i] + 256 * b[i + 1] + 65536 * b[i + 2] + 16777216 * b[i + 3]
}

/// The outcome of reading a `fmt ` chunk of `size` bytes starting at `off`:
/// the chunk must hold at least 16 bytes, all of them must be present, and the
/// format must be PCM with one or two channels, a nonzero rate and a bit width
/// of 8, 16, 24 or 32.
pub open spec fn spec_parse_fmt(b: Seq<u8>, off: int, size: int) -> Result<WavFormat, WavErrorView> {
    if size < 16 {
        Err(WavErrorView::InvalidFormat("fmt chunk too small"@))
    } else if off + size > b.len() {
        Err(WavErrorView::IoError(eof_message()))
    } else {
        let audio_format = u16_at(b, off);
        let channels = u16_at(b, off + 2);
        let sample_rate = u32_at(b, off + 4);
        let bits = u16_at(b, off + 14);
        if audio_format != 1 {
            Err(WavErrorView::UnsupportedFormat(
                "Only PCM format (1) is supported, got "@ + decimal(audio_format as nat),
            ))
        } else if channels == 0 || channels > 2 {
            Err(WavErrorView::InvalidFormat("Invalid number of channels: "@ + decimal(channels as nat)))
        } else if sample_rate == 0 {
            Err(WavErrorView::InvalidFormat("Invalid sample rate: 0"@))
        } else if bits != 8 && bits != 16 && bits != 24 && bits != 32 {
            Err(WavErrorView::UnsupportedFormat("Unsupported bits per sample: "@ + decimal(bits as nat)))
        } else {
            Ok(WavFormat {
                channels: channels as u16,
                sample_rate: sample_rate as u32,
                bits_per_sample: bits as u16,
                audio_format: audio_format as u16,
            })
        }
    }
}

/// The end of the chunk walk: both a format and data must have been found.
pub open spec fn spec_finish(fmt: Option<WavFormat>, data: Option<Seq<u8>>) -> Result<(WavFormat, Seq<u8>), WavErrorView> {
    match fmt {
        None => Err(WavErrorView::InvalidFormat("Missing fmt chunk"@)),
        Some(f) => match data {
            None => Err(WavErrorView::InvalidFormat("Missing data chunk"@)),
            Some(d) => Ok((f, d)),
        },
    }
}

/// The four-byte identifier of the format chunk.
pub open spec fn fmt_tag() -> Seq<u8> {
    seq![0x66u8, 0x6du8, 0x74u8, 0x20u8]
}

/// The four-byte identifier of the data chunk.
pub open spec fn data_tag() -> Seq<u8> {
    seq![0x64u8, 0x61u8, 0x74u8, 0x61u8]
}

/// The chunk walk from position `pos`, with the format and data found so far.
/// Each chunk is an 8-byte header (identifier, little-endian size) and a body
/// padded to even length; `fmt ` and `data` chunks are read (a later one
/// replacing an earlier one), others are skipped. The walk stops when both are
/// known or when no further complete header remains.
pub open spec fn spec_parse_chunks(
    b: Seq<u8>,
    pos: int,
    fmt: Option<WavFormat>,
    data: Option<Seq<u8>>,
) -> Result<(WavFormat, Seq<u8>), WavErrorView>
    decreases b.len() - pos,
{
    if pos < 0 || pos + 8 > b.len() {
        spec_finish(fmt, data)
    } else {
        let id = b.subrange(pos, pos + 4);
        let size = u32_at(b, pos + 4);
        let body = pos + 8;
        let step: Result<(Option<WavFormat>, Option<Seq<u8>>), WavErrorView> = if id == fmt_tag() {
            match spec_parse_fmt(b, body, size) {
                Ok(f) => Ok((Some(f), data)),
                Err(e) => Err(e),
            }
        } else if id == data_tag() {
            if body + size > b.len() {
                Err(WavErrorView::IoError(eof_message()))
            } else {
                Ok((fmt, Some(b.subrange(body, body + size))))
            }
        } else {
            Ok((fmt, data))
        };
        match step {
            Err(e) => Err(e),
            Ok((f2, d2)) => {
                let next = body + size + (if size % 2 == 1 { 1int } else { 0int });
                if f2 is Some && d2 is Some {
                    spec_finish(f2, d2)
                } else if next + 8 > b.len() {
                    spec_finish(f2, d2)
                } else {
                    spec_parse_chunks(b, next, f2, d2)
                }
            },
        }
    }
}

/// The outcome of reading a whole RIFF/WAVE byte stream.
pub open spec fn spec_parse_wav(b: Seq<u8>) -> Result<(WavFormat, Seq<u8>), WavErrorView> {
    if b.len() < 12 {
        Err(WavErrorView::IoError(eof_message()))
    } else if b.subrange(0, 4) != seq![0x52u8, 0x49u8, 0x46u8, 0x46u8] {
        Err(WavErrorView::InvalidFormat("Missing RIFF signature"@))
    } else if b.subrange(8, 12) != seq![0x57u8, 0x41u8, 0x56u8, 0x45u8] {
        Err(WavErrorView::InvalidFormat("Not a WAVE file"@))
    } else {
        spec_parse_chunks(b, 12, None, None)
    }
}

/// The bytes held, if any.
pub open spec fn opt_bytes(d: Option<Vec<u8>>) -> Option<Seq<u8>> {
    match d {
        Some(v) => Some(v@),
        None => None,
    }
}

fn read_u16(b: &[u8], i: usize) -> (r: u16)
    requires
        i + 2 <= b@.len(),
    ensures
        r == u16_at(b@, i as int),
{
    b[i] as u16 + 256 * (b[i + 1] as u16)
}

fn read_u32(b: &[u8], i: usize) -> (r: u32)
    requires
        i + 4 <= b@.len(),
    ensures
        r == u32_at(b@, i as int),
{
    b[i] as u32 + 256 * (b[i + 1] as u32) + 65536 * (b[i + 2] as u32) + 16777216 * (b[i + 3] as u32)
}

fn message_with_number(prefix: &str, n: u64) -> (s: String)
    ensures
        s@ == prefix@ + decimal(n as nat),
{
    let mut s = String::from_str(prefix);
    let num = u64_to_string(n);
    s.append(num.as_str());
    s
}

fn copy_range(b: &[u8], start: usize, len: usize) -> (v: Vec<u8>)
    requires
        start + len <= b.len(),
    ensures
        v@ == b@.subrange(start as int, start + len),
{
    let mut v: Vec<u8> = Vec::new();
    let mut i: usize = 0;
    while i < len
        invariant
            start + len <= b.len(),
            i <= len,
            v@ == b@.subrange(start as int, start + i),
        decreases len - i,
    {
        v.push(b[start + i]);
        assert(b@.subrange(start as int, start + i + 1) =~= b@.subrange(start as int, start + i).push(b@[start + i]));
        i = i + 1;
    }
    v
}

fn tag_is(b: &[u8], pos: usize, t0: u8, t1: u8, t2: u8, t3: u8) -> (r: bool)
    requires
        pos + 4 <= b@.len(),
    ensures
        r == (b@.subrange(pos as int, pos + 4) == seq![t0, t1, t2, t3]),
{
    let r = b[pos] == t0 && b[pos + 1] == t1 && b[pos + 2] == t2 && b[pos + 3] == t3;
    if r {
        assert(b@.subrange(pos as int, pos + 4) =~= seq![t0, t1, t2, t3]);
    } else {
        assert(b@.subrange(pos as int, pos + 4)[0] != t0 || b@.subrange(pos as int, pos + 4)[1] != t1
            || b@.subrange(pos as int, pos + 4)[2] != t2 || b@.subrange(pos as int, pos + 4)[3] != t3);
    }
    r
}

/// Shares a reference-counted value (`Arc::clone`).
/// Trusted: the clone points at the same value.
#[verifier::external_body]
pub(crate) fn arc_clone<T>(a: &Arc<T>) -> (res: Arc<T>)
    ensures
        res == *a,
{
    Arc::clone(a)
}

} // verus!
