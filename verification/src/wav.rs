//! The RIFF/WAVE container, as the `--transcribe` debug mode reads it.
//!
//! The reader walks the chunks after the 12-byte header. A `fmt ` chunk of
//! at least 16 bytes sets the sample format, channel count, rate and bit
//! depth; a `data` chunk is decoded with the format in force when it is
//! reached, whole frames only (a trailing partial frame is dropped). Chunks
//! are padded to an even size. A chunk whose size runs past the end of the
//! file is cut at the end of the file. The last `data` chunk wins; the rate
//! is the last one a `fmt ` chunk gave.

use vstd::prelude::*;

verus! {

/// How the samples of a `data` chunk are stored.
#[derive(Debug, Clone, Copy, PartialEq, Eq, Structural)]
pub enum SampleKind {
    /// PCM, 16-bit signed integers.
    Int16,
    /// PCM, 32-bit signed integers.
    Int32,
    /// IEEE float, 32 bits.
    Float32,
}

/// Why a file is not read.
#[derive(Debug, Clone, Copy, PartialEq, Eq, Structural)]
pub enum WavError {
    /// Shorter than a header, or not `RIFF`...`WAVE`.
    NotRiffWave,
    /// A `data` chunk in a format the reader does not decode.
    Unsupported { format: u16, bits: u16 },
    /// No `data` chunk.
    NoData,
}

/// The decoded audio: raw little-endian sample words, interleaved by
/// channel, whole frames only.
pub struct WavAudio {
    pub kind: SampleKind,
    pub channels: u16,
    pub rate: u32,
    /// Each sample's bits, zero-extended to 32 (an `Int16` sample is the low
    /// 16 bits).
    pub samples: Vec<u32>,
}

/// `WavAudio` as plain values.
pub struct WavModel {
    pub kind: SampleKind,
    pub channels: u16,
    pub rate: u32,
    pub samples: Seq<u32>,
}

impl View for WavAudio {
    type V = WavModel;

    open spec fn view(&self) -> WavModel {
        WavModel { kind: self.kind, channels: self.channels, rate: self.rate, samples: self.samples@ }
    }
}

/// What the chunk walk has seen so far.
pub struct ScanState {
    pub format: u16,
    pub channels: u16,
    pub rate: u32,
    pub bits: u16,
    pub audio: Option<(SampleKind, u16, Seq<u32>)>,
}

pub open spec fn le16(d: Seq<u8>, i: int) -> u16 {
    (d[i] + 256 * d[i + 1]) as u16
}

pub open spec fn le32(d: Seq<u8>, i: int) -> u32 {
    (d[i] + 256 * d[i + 1] + 65536 * d[i + 2] + 16777216 * d[i + 3]) as u32
}

pub open spec fn sample_kind(format: u16, bits: u16) -> Option<SampleKind> {
    if format == 1 && bits == 16 {
        Some(SampleKind::Int16)
    } else if format == 1 && bits == 32 {
        Some(SampleKind::Int32)
    } else if format == 3 && bits == 32 {
        Some(SampleKind::Float32)
    } else {
        None
    }
}

pub open spec fn sample_width(kind: SampleKind) -> nat {
    match kind {
        SampleKind::Int16 => 2,
        _ => 4,
    }
}

/// The samples of a `data` chunk's body: as many whole frames as fit.
pub open spec fn decode_samples(body: Seq<u8>, kind: SampleKind, channels: u16) -> Seq<u32> {
    let w = sample_width(kind) as int;
    let frame = w * channels;
    let n = ((body.len() as int) / frame) * (channels as int);
    Seq::new(n as nat, |i: int| if kind == SampleKind::Int16 { le16(body, i * w) as u32 } else { le32(body, i * w) })
}

/// The chunk body starting at `pos + 8`, cut at the end of the file.
pub open spec fn chunk_body(data: Seq<u8>, pos: int, size: int) -> Seq<u8> {
    let end = if pos + 8 + size <= data.len() { pos + 8 + size } else { data.len() as int };
    data.subrange(pos + 8, end)
}

pub open spec fn is_tag(data: Seq<u8>, pos: int, tag: Seq<u8>) -> bool {
    data.subrange(pos, pos + 4) == tag
}

pub open spec fn fmt_tag() -> Seq<u8> {
    seq![0x66u8, 0x6du8, 0x74u8, 0x20u8]
}

pub open spec fn data_tag() -> Seq<u8> {
    seq![0x64u8, 0x61u8, 0x74u8, 0x61u8]
}

pub open spec fn riff_tag() -> Seq<u8> {
    seq![0x52u8, 0x49u8, 0x46u8, 0x46u8]
}

pub open spec fn wave_tag() -> Seq<u8> {
    seq![0x57u8, 0x41u8, 0x56u8, 0x45u8]
}

/// One chunk's effect on the state.
pub open spec fn chunk_step(data: Seq<u8>, pos: int, st: ScanState) -> Result<ScanState, WavError> {
    let size = le32(data, pos + 4) as int;
    let body = chunk_body(data, pos, size);
    if is_tag(data, pos, fmt_tag()) && body.len() >= 16 {
        let ch = le16(body, 2);
        Ok(ScanState {
            format: le16(body, 0),
            channels: if ch == 0 { 1 } else { ch },
            rate: le32(body, 4),
            bits: le16(body, 14),
            audio: st.audio,
        })
    } else if is_tag(data, pos, data_tag()) {
        match sample_kind(st.format, st.bits) {
            Some(kind) => Ok(ScanState {
                format: st.format,
                channels: st.channels,
                rate: st.rate,
                bits: st.bits,
                audio: Some((kind, st.channels, decode_samples(body, kind, st.channels))),
            }),
            None => Err(WavError::Unsupported { format: st.format, bits: st.bits }),
        }
    } else {
        Ok(st)
    }
}

/// Where the chunk after the one at `pos` starts (the end of the file at
/// the latest).
pub open spec fn next_chunk(data: Seq<u8>, pos: int) -> int {
    let size = le32(data, pos + 4) as int;
    let next = pos + 8 + size + size % 2;
    if next <= data.len() {
        next
    } else {
        data.len() as int
    }
}

/// The chunk walk from `pos` on.
pub open spec fn scan(data: Seq<u8>, pos: int, st: ScanState) -> Result<ScanState, WavError>
    decreases data.len() - pos,
{
    if pos < 0 || pos + 8 > data.len() {
        Ok(st)
    } else {
        match chunk_step(data, pos, st) {
            Err(e) => Err(e),
            Ok(st2) => scan(data, next_chunk(data, pos), st2),
        }
    }
}

pub open spec fn initial_state() -> ScanState {
    ScanState { format: 0, channels: 1, rate: 16000, bits: 16, audio: None }
}

/// What a file's bytes decode to.
pub open spec fn spec_read_wav(data: Seq<u8>) -> Result<WavModel, WavError> {
    if data.len() < 44 || !is_tag(data, 0, riff_tag()) || !is_tag(data, 8, wave_tag()) {
        Err(WavError::NotRiffWave)
    } else {
        match scan(data, 12, initial_state()) {
            Err(e) => Err(e),
            Ok(st) => match st.audio {
                None => Err(WavError::NoData),
                Some((kind, channels, samples)) => Ok(WavModel { kind, channels, rate: st.rate, samples }),
            },
        }
    }
}

/// A `fmt ` chunk with 16 bytes of body or more sets the format, the channel
/// count (a count of 0 reads as 1), the rate and the bits per sample from
/// the first 16 bytes of its body, at offsets 0, 2, 4 and 14, and keeps the
/// samples decoded so far.
pub proof fn lemma_fmt_chunk_read(data: Seq<u8>, pos: int, st: ScanState)
    requires
        0 <= pos,
        pos + 8 <= data.len(),
        is_tag(data, pos, fmt_tag()),
        chunk_body(data, pos, le32(data, pos + 4) as int).len() >= 16,
    ensures
        chunk_step(data, pos, st) == Ok::<ScanState, WavError>(
            ScanState {
                format: le16(data, pos + 8),
                channels: if le16(data, pos + 10) == 0 { 1 } else { le16(data, pos + 10) },
                rate: le32(data, pos + 12),
                bits: le16(data, pos + 22),
                audio: st.audio,
            },
        ),
{
    let body = chunk_body(data, pos, le32(data, pos + 4) as int);
    assert(body[0] == data[pos + 8] && body[1] == data[pos + 9]);
    assert(body[2] == data[pos + 10] && body[3] == data[pos + 11]);
    assert(body[4] == data[pos + 12] && body[5] == data[pos + 13]);
    assert(body[6] == data[pos + 14] && body[7] == data[pos + 15]);
    assert(body[14] == data[pos + 22] && body[15] == data[pos + 23]);
}

/// Bytes of a `fmt ` chunk past its 16th change nothing: two such chunks of
/// 16 bytes or more whose first 16 bytes agree have the same effect, so an
/// 18-byte chunk with a trailing extension size reads like the plain 16-byte
/// one.
pub proof fn lemma_fmt_extra_bytes_ignored(d1: Seq<u8>, p1: int, d2: Seq<u8>, p2: int, st: ScanState)
    requires
        0 <= p1,
        p1 + 8 <= d1.len(),
        0 <= p2,
        p2 + 8 <= d2.len(),
        is_tag(d1, p1, fmt_tag()),
        is_tag(d2, p2, fmt_tag()),
        chunk_body(d1, p1, le32(d1, p1 + 4) as int).len() >= 16,
        chunk_body(d2, p2, le32(d2, p2 + 4) as int).len() >= 16,
        chunk_body(d1, p1, le32(d1, p1 + 4) as int).take(16) == chunk_body(d2, p2, le32(d2, p2 + 4) as int).take(16),
    ensures
        chunk_step(d1, p1, st) == chunk_step(d2, p2, st),
{
    let b1 = chunk_body(d1, p1, le32(d1, p1 + 4) as int);
    let b2 = chunk_body(d2, p2, le32(d2, p2 + 4) as int);
    assert forall|i: int| 0 <= i < 16 implies b1[i] == b2[i] by {
        assert(b1.take(16)[i] == b2.take(16)[i]);
    }
    lemma_fmt_chunk_read(d1, p1, st);
    lemma_fmt_chunk_read(d2, p2, st);
    assert(b1[0] == d1[p1 + 8] && b2[0] == d2[p2 + 8]);
    assert(b1[1] == d1[p1 + 9] && b2[1] == d2[p2 + 9]);
    assert(b1[2] == d1[p1 + 10] && b2[2] == d2[p2 + 10]);
    assert(b1[3] == d1[p1 + 11] && b2[3] == d2[p2 + 11]);
    assert(b1[4] == d1[p1 + 12] && b2[4] == d2[p2 + 12]);
    assert(b1[5] == d1[p1 + 13] && b2[5] == d2[p2 + 13]);
    assert(b1[6] == d1[p1 + 14] && b2[6] == d2[p2 + 14]);
    assert(b1[7] == d1[p1 + 15] && b2[7] == d2[p2 + 15]);
    assert(b1[14] == d1[p1 + 22] && b2[14] == d2[p2 + 22]);
    assert(b1[15] == d1[p1 + 23] && b2[15] == d2[p2 + 23]);
}

/// What holds of the walk's state between chunks: at least one channel, and
/// decoded samples that make whole frames.
pub open spec fn scan_sound(st: ScanState) -> bool {
    &&& st.channels >= 1
    &&& match st.audio {
        Some((_kind, c, samples)) => c >= 1 && (samples.len() as int) % (c as int) == 0,
        None => true,
    }
}

proof fn lemma_chunk_sound(data: Seq<u8>, pos: int, st: ScanState)
    requires
        scan_sound(st),
    ensures
        chunk_step(data, pos, st) matches Ok(st2) ==> scan_sound(st2),
{
    let size = le32(data, pos + 4) as int;
    let body = chunk_body(data, pos, size);
    if !(is_tag(data, pos, fmt_tag()) && body.len() >= 16) && is_tag(data, pos, data_tag()) {
        if let Some(kind) = sample_kind(st.format, st.bits) {
            let w = sample_width(kind) as int;
            let c = st.channels as int;
            let q = (body.len() as int) / (w * c);
            assert((q * c) % c == 0) by (nonlinear_arith)
                requires
                    c >= 1,
            ;
        }
    }
}

proof fn lemma_scan_sound(data: Seq<u8>, pos: int, st: ScanState)
    requires
        scan_sound(st),
    ensures
        scan(data, pos, st) matches Ok(st2) ==> scan_sound(st2),
    decreases data.len() - pos,
{
    if !(pos < 0 || pos + 8 > data.len()) {
        lemma_chunk_sound(data, pos, st);
        if let Ok(st2) = chunk_step(data, pos, st) {
            lemma_scan_sound(data, next_chunk(data, pos), st2);
        }
    }
}

/// A file that reads has at least one channel, and its samples make whole
/// frames.
pub proof fn lemma_whole_frames(data: Seq<u8>)
    ensures
        spec_read_wav(data) matches Ok(m) ==> m.channels >= 1 && (m.samples.len() as int) % (m.channels as int) == 0,
{
    lemma_scan_sound(data, 12, initial_state());
}

pub open spec fn audio_view(a: Option<(SampleKind, u16, Vec<u32>)>) -> Option<(SampleKind, u16, Seq<u32>)> {
    match a {
        Some((k, c, s)) => Some((k, c, s@)),
        None => None,
    }
}

fn read_le16(d: &[u8], i: usize) -> (v: u16)
    requires
        i + 2 <= d@.len(),
    ensures
        v == le16(d@, i as int),
{
    (d[i] as u16) + 256 * (d[i + 1] as u16)
}

fn read_le32(d: &[u8], i: usize) -> (v: u32)
    requires
        i + 4 <= d@.len(),
    ensures
        v == le32(d@, i as int),
{
    (d[i] as u32) + 256 * (d[i + 1] as u32) + 65536 * (d[i + 2] as u32) + 16777216 * (d[i + 3] as u32)
}

fn tag_is(d: &[u8], pos: usize, t0: u8, t1: u8, t2: u8, t3: u8) -> (r: bool)
    requires
        pos + 4 <= d@.len(),
    ensures
        r == is_tag(d@, pos as int, seq![t0, t1, t2, t3]),
{
    let r = d[pos] == t0 && d[pos + 1] == t1 && d[pos + 2] == t2 && d[pos + 3] == t3;
    proof {
        if r {
            assert(d@.subrange(pos as int, pos + 4) =~= seq![t0, t1, t2, t3]);
        } else {
            if d@.subrange(pos as int, pos + 4) == seq![t0, t1, t2, t3] {
                assert(d@.subrange(pos as int, pos + 4)[0] == t0);
                assert(d@.subrange(pos as int, pos + 4)[1] == t1);
                assert(d@.subrange(pos as int, pos + 4)[2] == t2);
                assert(d@.subrange(pos as int, pos + 4)[3] == t3);
            }
        }
    }
    r
}

/// Decode the samples of the body `d[start..end]`.
fn decode(d: &[u8], start: usize, end: usize, kind: SampleKind, channels: u16) -> (s: Vec<u32>)
    requires
        start <= end <= d@.len(),
        channels >= 1,
    ensures
        s@ == decode_samples(d@.subrange(start as int, end as int), kind, channels),
{
    let ghost body = d@.subrange(start as int, end as int);
    let w: usize = match kind {
        SampleKind::Int16 => 2,
        _ => 4,
    };
    let frame: usize = w * (channels as usize);
    let q: usize = (end - start) / frame;
    proof {
        let l = (end - start) as int;
        let f = frame as int;
        let c = channels as int;
        let ww = w as int;
        assert(q * f <= l) by (nonlinear_arith)
            requires
                f > 0,
                q == l / f,
        ;
        assert(q * c * ww == q * f) by (nonlinear_arith)
            requires
                f == ww * c,
        ;
        assert(q * c <= q * c * ww) by (nonlinear_arith)
            requires
                ww >= 1,
                q >= 0,
                c >= 0,
        ;
    }
    let n: usize = q * (channels as usize);
    let mut out: Vec<u32> = Vec::new();
    let mut i: usize = 0;
    while i < n
        invariant
            i <= n,
            n * w <= end - start,
            start <= end <= d@.len(),
            body == d@.subrange(start as int, end as int),
            w == sample_width(kind),
            n == decode_samples(body, kind, channels).len(),
            out@ == decode_samples(body, kind, channels).subrange(0, i as int),
        decreases n - i,
    {
        proof {
            assert((i + 1) * w <= n * w) by (nonlinear_arith)
                requires
                    i + 1 <= n,
                    w > 0,
            ;
            assert(i * w + w == (i + 1) * w) by (nonlinear_arith);
        }
        let at = start + i * w;
        let v: u32 = match kind {
            SampleKind::Int16 => read_le16(d, at) as u32,
            _ => read_le32(d, at),
        };
        proof {
            assert(body[i * w] == d@[at as int]);
            assert(body[i * w + 1] == d@[at + 1]);
            if w == 4 {
                assert(body[i * w + 2] == d@[at + 2]);
                assert(body[i * w + 3] == d@[at + 3]);
            }
            assert(v == decode_samples(body, kind, channels)[i as int]);
        }
        out.push(v);
        proof {
            assert(out@ =~= decode_samples(body, kind, channels).subrange(0, i + 1));
        }
        i += 1;
    }
    proof {
        assert(out@ =~= decode_samples(body, kind, channels));
    }
    out
}

/// The chunk walk's state, as the reader holds it.
struct Scan {
    format: u16,
    channels: u16,
    rate: u32,
    bits: u16,
    audio: Option<(SampleKind, u16, Vec<u32>)>,
}

impl View for Scan {
    type V = ScanState;

    closed spec fn view(&self) -> ScanState {
        ScanState {
            format: self.format,
            channels: self.channels,
            rate: self.rate,
            bits: self.bits,
            audio: audio_view(self.audio),
        }
    }
}

/// Apply the chunk at `pos`.
fn step_chunk(d: &[u8], pos: usize, st: Scan) -> (r: Result<Scan, WavError>)
    requires
        pos + 8 <= d@.len(),
        st.channels >= 1,
    ensures
        match r {
            Ok(s2) => chunk_step(d@, pos as int, st@) == Ok::<ScanState, WavError>(s2@) && s2.channels >= 1,
            Err(e) => chunk_step(d@, pos as int, st@) == Err::<ScanState, WavError>(e),
        },
{
    let len = d.len();
    let size = read_le32(d, pos + 4);
    let body_start = pos + 8;
    let body_end: usize = if (size as u64) <= ((len - body_start) as u64) { body_start + size as usize } else { len };
    let ghost body = d@.subrange(body_start as int, body_end as int);
    proof {
        assert(body == chunk_body(d@, pos as int, size as int));
    }
    if tag_is(d, pos, 0x66, 0x6d, 0x74, 0x20) && body_end - body_start >= 16 {
        let format = read_le16(d, body_start);
        let ch = read_le16(d, body_start + 2);
        let channels = if ch == 0 { 1 } else { ch };
        let rate = read_le32(d, body_start + 4);
        let bits = read_le16(d, body_start + 14);
        proof {
            assert(le16(body, 0) == le16(d@, body_start as int));
            assert(le16(body, 2) == le16(d@, body_start + 2));
            assert(le32(body, 4) == le32(d@, body_start + 4));
            assert(le16(body, 14) == le16(d@, body_start + 14));
        }
        Ok(Scan { format, channels, rate, bits, audio: st.audio })
    } else if tag_is(d, pos, 0x64, 0x61, 0x74, 0x61) {
        let kind = if st.format == 1 && st.bits == 16 {
            SampleKind::Int16
        } else if st.format == 1 && st.bits == 32 {
            SampleKind::Int32
        } else if st.format == 3 && st.bits == 32 {
            SampleKind::Float32
        } else {
            return Err(WavError::Unsupported { format: st.format, bits: st.bits });
        };
        let samples = decode(d, body_start, body_end, kind, st.channels);
        Ok(Scan { format: st.format, channels: st.channels, rate: st.rate, bits: st.bits, audio: Some((kind, st.channels, samples)) })
    } else {
        Ok(st)
    }
}

/// Where the chunk after the one at `pos` starts.
fn next_pos(d: &[u8], pos: usize) -> (n: usize)
    requires
        pos + 8 <= d@.len(),
    ensures
        n == next_chunk(d@, pos as int),
        pos < n <= d@.len(),
{
    let len = d.len();
    let size = read_le32(d, pos + 4);
    let step: u64 = (size as u64) + ((size as u64) % 2);
    if step <= ((len - (pos + 8)) as u64) {
        pos + 8 + (step as usize)
    } else {
        len
    }
}

/// Read a RIFF/WAVE file's bytes.
pub fn read_wav(d: &[u8]) -> (r: Result<WavAudio, WavError>)
    ensures
        match r {
            Ok(a) => spec_read_wav(d@) == Ok::<WavModel, WavError>(a@),
            Err(e) => spec_read_wav(d@) == Err::<WavModel, WavError>(e),
        },
{
    let len = d.len();
    if len < 44 || !tag_is(d, 0, 0x52, 0x49, 0x46, 0x46) || !tag_is(d, 8, 0x57, 0x41, 0x56, 0x45) {
        return Err(WavError::NotRiffWave);
    }
    let mut st = Scan { format: 0, channels: 1, rate: 16000, bits: 16, audio: None };
    let mut pos: usize = 12;
    proof {
        assert(st@ == initial_state());
    }
    while pos <= len - 8
        invariant
            len == d@.len(),
            44 <= len,
            12 <= pos <= len,
            st.channels >= 1,
            spec_read_wav(d@) == match scan(d@, pos as int, st@) {
                Err(e) => Err(e),
                Ok(s) => match s.audio {
                    None => Err(WavError::NoData),
                    Some((kind, channels, samples)) => Ok(WavModel { kind, channels, rate: s.rate, samples }),
                },
            },
        decreases len - pos,
    {
        let next = next_pos(d, pos);
        match step_chunk(d, pos, st) {
            Err(e) => {
                return Err(e);
            },
            Ok(s2) => {
                st = s2;
            },
        }
        pos = next;
    }
    match st.audio {
        None => Err(WavError::NoData),
        Some((kind, ch, samples)) => Ok(WavAudio { kind, channels: ch, rate: st.rate, samples }),
    }
}

} // verus!
