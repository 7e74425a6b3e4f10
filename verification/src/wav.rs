//! RIFF/WAVE framing of 16 kHz mono 16-bit PCM: the encoder used for the
//! recording history and the cloud upload, and the reader used for the
//! model's bundled self-test clip.

use vstd::prelude::*;

verus! {

/// Sample rate of every recording, in Hz.
pub const SAMPLE_RATE: u32 = 16000;

/// Size of the canonical header that the encoder writes, in bytes.
pub const HEADER_LEN: usize = 44;

/// Byte `k` (0 = least significant) of the little-endian form of `x`.
pub open spec fn le_byte(x: int, k: int) -> u8 {
    if k == 0 {
        (x % 256) as u8
    } else if k == 1 {
        ((x / 256) % 256) as u8
    } else if k == 2 {
        ((x / 65536) % 256) as u8
    } else {
        ((x / 16777216) % 256) as u8
    }
}

/// The 16-bit two's complement pattern of a sample, as an unsigned value.
pub open spec fn sample_bits(s: i16) -> int {
    if s < 0 {
        s + 65536
    } else {
        s as int
    }
}

/// The sample whose 16-bit two's complement pattern is `v`.
pub open spec fn sample_of_bits(v: int) -> i16 {
    if v >= 32768 {
        (v - 65536) as i16
    } else {
        v as i16
    }
}

/// The canonical 44-byte header for `n` samples: RIFF size `36 + 2n`, a
/// 16-byte `fmt ` chunk (PCM, 1 channel, 16000 Hz, 32000 bytes/s, block
/// align 2, 16 bits) and a `data` chunk of `2n` bytes.
pub open spec fn wav_header(n: nat) -> Seq<u8> {
    let riff = (36 + 2 * n) as int;
    let data = (2 * n) as int;
    seq![
        0x52u8, 0x49u8, 0x46u8, 0x46u8,
        le_byte(riff, 0), le_byte(riff, 1), le_byte(riff, 2), le_byte(riff, 3),
        0x57u8, 0x41u8, 0x56u8, 0x45u8,
        0x66u8, 0x6du8, 0x74u8, 0x20u8,
        16u8, 0u8, 0u8, 0u8,
        1u8, 0u8,
        1u8, 0u8,
        le_byte(16000, 0), le_byte(16000, 1), le_byte(16000, 2), le_byte(16000, 3),
        le_byte(32000, 0), le_byte(32000, 1), le_byte(32000, 2), le_byte(32000, 3),
        2u8, 0u8,
        16u8, 0u8,
        0x64u8, 0x61u8, 0x74u8, 0x61u8,
        le_byte(data, 0), le_byte(data, 1), le_byte(data, 2), le_byte(data, 3)
    ]
}

/// Little-endian 16-bit PCM bytes of the samples.
pub open spec fn pcm_bytes(s: Seq<i16>) -> Seq<u8> {
    Seq::new(
        2 * s.len(),
        |j: int|
            if j % 2 == 0 {
                le_byte(sample_bits(s[j / 2]), 0)
            } else {
                le_byte(sample_bits(s[j / 2]), 1)
            },
    )
}

/// A complete WAV file holding the samples.
pub open spec fn wav_bytes(s: Seq<i16>) -> Seq<u8> {
    wav_header(s.len()) + pcm_bytes(s)
}

/// Unsigned 16-bit little-endian value at byte `i`.
pub open spec fn u16_at(b: Seq<u8>, i: int) -> int {
    b[i] + 256 * b[i + 1]
}

/// Unsigned 32-bit little-endian value at byte `i`.
pub open spec fn u32_at(b: Seq<u8>, i: int) -> int {
    b[i] + 256 * b[i + 1] + 65536 * b[i + 2] + 16777216 * b[i + 3]
}

/// The samples held by 16-bit little-endian PCM bytes; a trailing odd byte is ignored.
pub open spec fn pcm_samples(d: Seq<u8>) -> Seq<i16> {
    Seq::new(d.len() / 2, |k: int| sample_of_bits(u16_at(d, 2 * k)))
}

/// The four-byte chunk id `fmt `.
pub open spec fn fmt_id() -> Seq<u8> {
    seq![0x66u8, 0x6du8, 0x74u8, 0x20u8]
}

/// The four-byte chunk id `data`.
pub open spec fn data_id() -> Seq<u8> {
    seq![0x64u8, 0x61u8, 0x74u8, 0x61u8]
}

/// What the reader has gathered from the chunks seen so far.
#[derive(Clone, Copy, Debug, PartialEq, Eq)]
pub struct ChunkScan {
    /// Channel count from the last `fmt ` chunk (0 before one is seen).
    pub channels: u16,
    /// Sample rate from the last `fmt ` chunk (0 before one is seen).
    pub sample_rate: u32,
    /// Bits per sample from the last `fmt ` chunk (0 before one is seen).
    pub bits_per_sample: u16,
    /// Offset and length of the last `data` chunk's body.
    pub data: Option<(usize, usize)>,
}

/// Why a WAV file was not accepted.
#[derive(Clone, Copy, Debug, PartialEq, Eq)]
pub enum WavError {
    /// Shorter than a header, or without the `RIFF`/`WAVE` tags.
    NotRiffWave,
    /// A `fmt ` chunk names an audio format other than PCM (1).
    UnsupportedFormat(u16),
    /// The format is not mono, 16 kHz, 16-bit.
    UnexpectedFormat { channels: u16, sample_rate: u32, bits_per_sample: u16 },
    /// No `data` chunk was found.
    MissingData,
}

/// The scan before any chunk.
pub open spec fn empty_scan() -> ChunkScan {
    ChunkScan { channels: 0, sample_rate: 0, bits_per_sample: 0, data: None }
}

/// Walks the chunks from byte `off`: each chunk is a 4-byte id, a 32-bit
/// length and a body padded to even length. The walk stops at the first
/// chunk whose header or body does not fit; a `fmt ` chunk of at least 16
/// bytes records the format (and fails unless it is PCM); a `data` chunk
/// records where its body lies.
pub open spec fn scan_chunks(b: Seq<u8>, off: int, st: ChunkScan) -> Result<ChunkScan, WavError>
    decreases b.len() + 1 - off,
{
    if off < 0 || off + 8 > b.len() {
        Ok(st)
    } else {
        let len = u32_at(b, off + 4);
        let body = off + 8;
        if body + len > b.len() {
            Ok(st)
        } else {
            let id = b.subrange(off, off + 4);
            let next = body + len + len % 2;
            if id == fmt_id() && len >= 16 {
                let format = u16_at(b, body);
                if format != 1 {
                    Err(WavError::UnsupportedFormat(format as u16))
                } else {
                    scan_chunks(
                        b,
                        next,
                        ChunkScan {
                            channels: u16_at(b, body + 2) as u16,
                            sample_rate: u32_at(b, body + 4) as u32,
                            bits_per_sample: u16_at(b, body + 14) as u16,
                            data: st.data,
                        },
                    )
                }
            } else if id == data_id() {
                scan_chunks(b, next, ChunkScan { data: Some((body as usize, len as usize)), ..st })
            } else {
                scan_chunks(b, next, st)
            }
        }
    }
}

/// The samples of a 16 kHz mono 16-bit PCM WAV file, or why it is refused.
pub open spec fn parse_wav(b: Seq<u8>) -> Result<Seq<i16>, WavError> {
    if b.len() < 44 || b.subrange(0, 4) != seq![0x52u8, 0x49u8, 0x46u8, 0x46u8] || b.subrange(8, 12)
        != seq![0x57u8, 0x41u8, 0x56u8, 0x45u8] {
        Err(WavError::NotRiffWave)
    } else {
        match scan_chunks(b, 12, empty_scan()) {
            Err(e) => Err(e),
            Ok(st) => if st.channels != 1 || st.sample_rate != 16000 || st.bits_per_sample != 16 {
                Err(
                    WavError::UnexpectedFormat {
                        channels: st.channels,
                        sample_rate: st.sample_rate,
                        bits_per_sample: st.bits_per_sample,
                    },
                )
            } else {
                match st.data {
                    None => Err(WavError::MissingData),
                    Some((o, l)) => Ok(pcm_samples(b.subrange(o as int, o + l))),
                }
            },
        }
    }
}

/// Appends the four little-endian bytes of `x`.
fn push_u32_le(out: &mut Vec<u8>, x: u32)
    ensures
        final(out)@ == old(out)@ + seq![le_byte(x as int, 0), le_byte(x as int, 1), le_byte(x as int, 2), le_byte(x as int, 3)],
{
    let ghost before = out@;
    out.push((x % 256) as u8);
    out.push(((x / 256) % 256) as u8);
    out.push(((x / 65536) % 256) as u8);
    out.push(((x / 16777216) % 256) as u8);
    assert(out@ =~= before + seq![le_byte(x as int, 0), le_byte(x as int, 1), le_byte(x as int, 2), le_byte(x as int, 3)]);
}

/// The canonical header for `n` samples.
pub fn wav_header_bytes(n: usize) -> (out: Vec<u8>)
    requires
        2 * n + 36 <= u32::MAX,
    ensures
        out@ == wav_header(n as nat),
{
    let data_len = (2 * n) as u32;
    let mut out: Vec<u8> = Vec::new();
    out.push(0x52);
    out.push(0x49);
    out.push(0x46);
    out.push(0x46);
    push_u32_le(&mut out, 36 + data_len);
    out.push(0x57);
    out.push(0x41);
    out.push(0x56);
    out.push(0x45);
    out.push(0x66);
    out.push(0x6d);
    out.push(0x74);
    out.push(0x20);
    push_u32_le(&mut out, 16);
    out.push(1);
    out.push(0);
    out.push(1);
    out.push(0);
    push_u32_le(&mut out, SAMPLE_RATE);
    push_u32_le(&mut out, SAMPLE_RATE * 2);
    out.push(2);
    out.push(0);
    out.push(16);
    out.push(0);
    out.push(0x64);
    out.push(0x61);
    out.push(0x74);
    out.push(0x61);
    push_u32_le(&mut out, data_len);
    assert(out@ =~= wav_header(n as nat));
    out
}

/// Encodes 16 kHz mono PCM samples as a complete WAV file: the canonical
/// 44-byte header followed by the samples, little-endian.
pub fn encode_wav_pcm16(samples: &[i16]) -> (out: Vec<u8>)
    requires
        2 * samples@.len() + 36 <= u32::MAX,
    ensures
        out@ == wav_bytes(samples@),
        out@.len() == 44 + 2 * samples@.len(),
{
    let n = samples.len();
    let mut out = wav_header_bytes(n);
    let ghost header = out@;
    let mut i: usize = 0;
    while i < n
        invariant
            n == samples@.len(),
            2 * n + 36 <= u32::MAX,
            i <= n,
            header == wav_header(n as nat),
            out@ == header + pcm_bytes(samples@.take(i as int)),
        decreases n - i,
    {
        let s = samples[i];
        let bits: u32 = if s < 0 {
            (s as i32 + 65536) as u32
        } else {
            s as u32
        };
        let ghost prev = out@;
        out.push((bits % 256) as u8);
        out.push(((bits / 256) % 256) as u8);
        assert(pcm_bytes(samples@.take(i + 1)) =~= pcm_bytes(samples@.take(i as int)) + seq![
            le_byte(sample_bits(s), 0),
            le_byte(sample_bits(s), 1),
        ]);
        i += 1;
    }
    assert(samples@.take(n as int) =~= samples@);
    out
}

/// Unsigned 16-bit little-endian value at byte `i`.
fn read_u16(b: &[u8], i: usize) -> (r: u16)
    requires
        i + 2 <= b@.len(),
    ensures
        r == u16_at(b@, i as int),
{
    b[i] as u16 + 256 * (b[i + 1] as u16)
}

/// Unsigned 32-bit little-endian value at byte `i`.
fn read_u32(b: &[u8], i: usize) -> (r: u32)
    requires
        i + 4 <= b@.len(),
    ensures
        r == u32_at(b@, i as int),
{
    b[i] as u32 + 256 * (b[i + 1] as u32) + 65536 * (b[i + 2] as u32) + 16777216 * (b[i
        + 3] as u32)
}

/// Whether the four bytes at `i` are `c0 c1 c2 c3`.
fn id_at(b: &[u8], i: usize, c0: u8, c1: u8, c2: u8, c3: u8) -> (r: bool)
    requires
        i + 4 <= b@.len(),
    ensures
        r == (b@.subrange(i as int, i + 4) == seq![c0, c1, c2, c3]),
{
    let r = b[i] == c0 && b[i + 1] == c1 && b[i + 2] == c2 && b[i + 3] == c3;
    if r {
        assert(b@.subrange(i as int, i + 4) =~= seq![c0, c1, c2, c3]);
    } else {
        assert(b@.subrange(i as int, i + 4) != seq![c0, c1, c2, c3]) by {
            if b@.subrange(i as int, i + 4) == seq![c0, c1, c2, c3] {
                assert(b@.subrange(i as int, i + 4)[0] == c0);
                assert(b@.subrange(i as int, i + 4)[1] == c1);
                assert(b@.subrange(i as int, i + 4)[2] == c2);
                assert(b@.subrange(i as int, i + 4)[3] == c3);
            }
        }
    }
    r
}

/// Reads the samples of a 16 kHz mono 16-bit PCM WAV file.
pub fn read_pcm16_wav_mono_16k(bytes: &[u8]) -> (r: Result<Vec<i16>, WavError>)
    ensures
        match r {
            Ok(v) => parse_wav(bytes@) == Ok::<Seq<i16>, WavError>(v@),
            Err(e) => parse_wav(bytes@) == Err::<Seq<i16>, WavError>(e),
        },
{
    let len = bytes.len();
    if len < 44 || !id_at(bytes, 0, 0x52, 0x49, 0x46, 0x46) || !id_at(bytes, 8, 0x57, 0x41, 0x56, 0x45) {
        return Err(WavError::NotRiffWave);
    }
    let mut offset: usize = 12;
    let mut st = ChunkScan { channels: 0, sample_rate: 0, bits_per_sample: 0, data: None };
    while 8 <= len - offset
        invariant
            len == bytes@.len(),
            12 <= offset <= len,
            44 <= len,
            bytes@.subrange(0, 4) == seq![0x52u8, 0x49u8, 0x46u8, 0x46u8],
            bytes@.subrange(8, 12) == seq![0x57u8, 0x41u8, 0x56u8, 0x45u8],
            scan_chunks(bytes@, 12, empty_scan()) == scan_chunks(bytes@, offset as int, st),
            st.data matches Some((o, l)) ==> o + l <= len,
        ensures
            scan_chunks(bytes@, offset as int, st) == Ok::<ChunkScan, WavError>(st),
            st.data matches Some((o, l)) ==> o + l <= len,
        decreases len - offset,
    {
        let chunk_len = read_u32(bytes, offset + 4) as usize;
        let body = offset + 8;
        if chunk_len > len - body {
            break;
        }
        let next = if chunk_len == len - body {
            len
        } else {
            body + chunk_len + chunk_len % 2
        };
        if id_at(bytes, offset, 0x66, 0x6d, 0x74, 0x20) && chunk_len >= 16 {
            let format = read_u16(bytes, body);
            let channels = read_u16(bytes, body + 2);
            let sample_rate = read_u32(bytes, body + 4);
            let bits = read_u16(bytes, body + 14);
            if format != 1 {
                assert(scan_chunks(bytes@, offset as int, st) == Err::<ChunkScan, WavError>(
                    WavError::UnsupportedFormat(format),
                ));
                return Err(WavError::UnsupportedFormat(format));
            }
            st = ChunkScan {
                channels: channels,
                sample_rate: sample_rate,
                bits_per_sample: bits,
                data: st.data,
            };
        } else if id_at(bytes, offset, 0x64, 0x61, 0x74, 0x61) {
            st = ChunkScan { data: Some((body, chunk_len)), ..st };
        }
        proof {
            assert(scan_chunks(bytes@, (body + chunk_len + chunk_len % 2) as int, st) == scan_chunks(
                bytes@,
                next as int,
                st,
            ));
        }
        offset = next;
    }
    if st.channels != 1 || st.sample_rate != 16000 || st.bits_per_sample != 16 {
        return Err(
            WavError::UnexpectedFormat {
                channels: st.channels,
                sample_rate: st.sample_rate,
                bits_per_sample: st.bits_per_sample,
            },
        );
    }
    match st.data {
        None => Err(WavError::MissingData),
        Some((o, l)) => {
            let count = l / 2;
            let mut out: Vec<i16> = Vec::new();
            let ghost d = bytes@.subrange(o as int, o + l);
            let mut k: usize = 0;
            while k < count
                invariant
                    count == l / 2,
                    o + l <= bytes@.len(),
                    bytes@.len() == bytes.len(),
                    d == bytes@.subrange(o as int, o + l),
                    k <= count,
                    out@ == pcm_samples(d).take(k as int),
                decreases count - k,
            {
                assert(2 * k + 2 <= l);
                let v = read_u16(bytes, o + 2 * k);
                assert(u16_at(d, 2 * k) == v);
                let s: i16 = if v >= 32768 {
                    (v as i32 - 65536) as i16
                } else {
                    v as i16
                };
                out.push(s);
                k += 1;
                assert(out@ =~= pcm_samples(d).take(k as int));
            }
            assert(pcm_samples(d).take(count as int) =~= pcm_samples(d));
            Ok(out)
        },
    }
}

/// The four little-endian bytes of a 32-bit value give the value back.
proof fn lemma_le32_value(x: int)
    requires
        0 <= x < 4294967296,
    ensures
        le_byte(x, 0) + 256 * le_byte(x, 1) + 65536 * le_byte(x, 2) + 16777216 * le_byte(x, 3)
            == x,
{
    let q1 = x / 256;
    let q2 = x / 65536;
    let q3 = x / 16777216;
    assert(x == 256 * q1 + x % 256);
    assert(q1 == 256 * (q1 / 256) + q1 % 256);
    assert(q1 / 256 == q2) by {
        vstd::arithmetic::div_mod::lemma_div_denominator(x, 256, 256);
    }
    assert(q2 == 256 * (q2 / 256) + q2 % 256);
    assert(q2 / 256 == q3) by {
        vstd::arithmetic::div_mod::lemma_div_denominator(x, 65536, 256);
    }
    assert(q3 < 256);
}

/// A sample's two little-endian bytes give the sample back.
proof fn lemma_sample_bytes(s: i16)
    ensures
        le_byte(sample_bits(s), 0) + 256 * le_byte(sample_bits(s), 1) == sample_bits(s),
        sample_of_bits(sample_bits(s)) == s,
{
    let v = sample_bits(s);
    assert(0 <= v < 65536);
    assert(v == 256 * (v / 256) + v % 256);
}

/// The fields that the reader looks at in the canonical header.
proof fn lemma_header_fields(n: nat)
    requires
        2 * n + 36 <= u32::MAX,
    ensures
        wav_header(n).len() == 44,
        wav_header(n).subrange(0, 4) == seq![0x52u8, 0x49u8, 0x46u8, 0x46u8],
        wav_header(n).subrange(8, 12) == seq![0x57u8, 0x41u8, 0x56u8, 0x45u8],
        wav_header(n).subrange(12, 16) == fmt_id(),
        wav_header(n).subrange(36, 40) == data_id(),
        u32_at(wav_header(n), 16) == 16,
        u16_at(wav_header(n), 20) == 1,
        u16_at(wav_header(n), 22) == 1,
        u32_at(wav_header(n), 24) == 16000,
        u16_at(wav_header(n), 34) == 16,
        u32_at(wav_header(n), 40) == 2 * n,
{
    let h = wav_header(n);
    lemma_le32_value(16000);
    lemma_le32_value((2 * n) as int);
    assert(h.subrange(0, 4) =~= seq![0x52u8, 0x49u8, 0x46u8, 0x46u8]);
    assert(h.subrange(8, 12) =~= seq![0x57u8, 0x41u8, 0x56u8, 0x45u8]);
    assert(h.subrange(12, 16) =~= fmt_id());
    assert(h.subrange(36, 40) =~= data_id());
}

/// The PCM bytes of samples read back as those samples.
proof fn lemma_pcm_roundtrip(s: Seq<i16>)
    ensures
        pcm_samples(pcm_bytes(s)) == s,
{
    let p = pcm_bytes(s);
    assert forall|k: int| 0 <= k < s.len() implies #[trigger] pcm_samples(p)[k] == s[k] by {
        lemma_sample_bytes(s[k]);
        assert(p[2 * k] == le_byte(sample_bits(s[k]), 0));
        assert(p[2 * k + 1] == le_byte(sample_bits(s[k]), 1));
    }
    assert(pcm_samples(p) =~= s);
}

/// The chunk walk over a canonical file finds the PCM format and the data
/// chunk right after the header.
#[verifier::rlimit(30)]
proof fn lemma_scan_canonical(b: Seq<u8>, n: int)
    requires
        0 <= 2 * n,
        2 * n + 36 <= u32::MAX,
        b.len() == 44 + 2 * n,
        b.subrange(12, 16) == fmt_id(),
        b.subrange(36, 40) == data_id(),
        u32_at(b, 16) == 16,
        u16_at(b, 20) == 1,
        u16_at(b, 22) == 1,
        u32_at(b, 24) == 16000,
        u16_at(b, 34) == 16,
        u32_at(b, 40) == 2 * n,
    ensures
        scan_chunks(b, 12, empty_scan()) == Ok::<ChunkScan, WavError>(
            ChunkScan {
                channels: 1,
                sample_rate: 16000,
                bits_per_sample: 16,
                data: Some((44usize, (2 * n) as usize)),
            },
        ),
{
    let st1 = ChunkScan { channels: 1, sample_rate: 16000, bits_per_sample: 16, data: None };
    let st2 = ChunkScan { data: Some((44usize, (2 * n) as usize)), ..st1 };
    assert(scan_chunks(b, 44 + 2 * n, st2) == Ok::<ChunkScan, WavError>(st2));
    assert(scan_chunks(b, 36, st1) == scan_chunks(b, 44 + 2 * n, st2));
    assert(scan_chunks(b, 12, empty_scan()) == scan_chunks(b, 36, st1));
}

/// A canonical file is its header followed by the PCM bytes.
proof fn lemma_file_fields(s: Seq<i16>)
    requires
        2 * s.len() + 36 <= u32::MAX,
    ensures
        wav_bytes(s).len() == 44 + 2 * s.len(),
        wav_bytes(s).subrange(0, 4) == seq![0x52u8, 0x49u8, 0x46u8, 0x46u8],
        wav_bytes(s).subrange(8, 12) == seq![0x57u8, 0x41u8, 0x56u8, 0x45u8],
        wav_bytes(s).subrange(12, 16) == fmt_id(),
        wav_bytes(s).subrange(36, 40) == data_id(),
        u32_at(wav_bytes(s), 16) == 16,
        u16_at(wav_bytes(s), 20) == 1,
        u16_at(wav_bytes(s), 22) == 1,
        u32_at(wav_bytes(s), 24) == 16000,
        u16_at(wav_bytes(s), 34) == 16,
        u32_at(wav_bytes(s), 40) == 2 * s.len(),
        wav_bytes(s).subrange(44, 44 + 2 * s.len() as int) == pcm_bytes(s),
{
    let h = wav_header(s.len());
    let p = pcm_bytes(s);
    let b = h + p;
    lemma_header_fields(s.len());
    assert(b.subrange(0, 4) =~= h.subrange(0, 4));
    assert(b.subrange(8, 12) =~= h.subrange(8, 12));
    assert(b.subrange(12, 16) =~= h.subrange(12, 16));
    assert(b.subrange(36, 40) =~= h.subrange(36, 40));
    assert(u32_at(b, 16) == u32_at(h, 16));
    assert(u16_at(b, 20) == u16_at(h, 20));
    assert(u16_at(b, 22) == u16_at(h, 22));
    assert(u32_at(b, 24) == u32_at(h, 24));
    assert(u16_at(b, 34) == u16_at(h, 34));
    assert(u32_at(b, 40) == u32_at(h, 40));
    assert(b.subrange(44, 44 + 2 * s.len() as int) =~= p);
}

/// Reading back a file written by `encode_wav_pcm16` gives the samples that
/// were written.
pub proof fn lemma_wav_roundtrip(s: Seq<i16>)
    requires
        2 * s.len() + 36 <= u32::MAX,
    ensures
        parse_wav(wav_bytes(s)) == Ok::<Seq<i16>, WavError>(s),
{
    let n = s.len() as int;
    let b = wav_bytes(s);
    lemma_file_fields(s);
    lemma_scan_canonical(b, n);
    lemma_pcm_roundtrip(s);
}

/// The first 36 bytes of a PCM file whose RIFF size is `riff` and whose
/// `fmt ` chunk is `fmt_len` bytes long: the `RIFF`/`WAVE` tags, the `fmt `
/// chunk header and the 16 standard format bytes (PCM, 1 channel, 16000 Hz,
/// 32000 bytes/s, block align 2, 16 bits).
pub open spec fn pcm_format_head(riff: int, fmt_len: int) -> Seq<u8> {
    seq![
        0x52u8, 0x49u8, 0x46u8, 0x46u8,
        le_byte(riff, 0), le_byte(riff, 1), le_byte(riff, 2), le_byte(riff, 3),
        0x57u8, 0x41u8, 0x56u8, 0x45u8,
        0x66u8, 0x6du8, 0x74u8, 0x20u8,
        le_byte(fmt_len, 0), le_byte(fmt_len, 1), le_byte(fmt_len, 2), le_byte(fmt_len, 3),
        1u8, 0u8,
        1u8, 0u8,
        le_byte(16000, 0), le_byte(16000, 1), le_byte(16000, 2), le_byte(16000, 3),
        le_byte(32000, 0), le_byte(32000, 1), le_byte(32000, 2), le_byte(32000, 3),
        2u8, 0u8,
        16u8, 0u8
    ]
}

/// The `data` chunk header for `len` bytes of samples.
pub open spec fn data_head(len: int) -> Seq<u8> {
    seq![0x64u8, 0x61u8, 0x74u8, 0x61u8, le_byte(len, 0), le_byte(len, 1), le_byte(len, 2), le_byte(len, 3)]
}

/// The zero byte that pads a chunk body of odd length.
pub open spec fn pad_of(len: int) -> Seq<u8> {
    if len % 2 == 1 {
        seq![0u8]
    } else {
        seq![]
    }
}

/// A 16 kHz mono 16-bit PCM file for the samples `s` whose `fmt ` chunk
/// carries `ext` after its 16 standard bytes (as the 18-byte WAVEFORMATEX form
/// does with its `cbSize`), padded to even length, then the `data` chunk.
#[verifier::opaque]
pub open spec fn wav_bytes_with_fmt_extension(s: Seq<i16>, ext: Seq<u8>) -> Seq<u8> {
    let fmt_len: int = 16 + ext.len() as int;
    let riff: int = 4 + 8 + fmt_len + pad_of(fmt_len).len() + 8 + 2 * s.len();
    pcm_format_head(riff, fmt_len) + ext + pad_of(fmt_len) + data_head((2 * s.len()) as int) + pcm_bytes(s)
}

/// Where the reader finds the fields of a file with an extended `fmt ` chunk;
/// `d` is where its `data` chunk starts.
proof fn lemma_extended_fields(s: Seq<i16>, ext: Seq<u8>, d: int)
    requires
        2 * s.len() + ext.len() + 45 <= u32::MAX,
        d == 36 + ext.len() + pad_of(16 + ext.len() as int).len(),
    ensures
        wav_bytes_with_fmt_extension(s, ext).len() == d + 8 + 2 * s.len(),
        wav_bytes_with_fmt_extension(s, ext).subrange(0, 4) == seq![0x52u8, 0x49u8, 0x46u8, 0x46u8],
        wav_bytes_with_fmt_extension(s, ext).subrange(8, 12) == seq![0x57u8, 0x41u8, 0x56u8, 0x45u8],
        wav_bytes_with_fmt_extension(s, ext).subrange(12, 16) == fmt_id(),
        u32_at(wav_bytes_with_fmt_extension(s, ext), 16) == 16 + ext.len(),
        u16_at(wav_bytes_with_fmt_extension(s, ext), 20) == 1,
        u16_at(wav_bytes_with_fmt_extension(s, ext), 22) == 1,
        u32_at(wav_bytes_with_fmt_extension(s, ext), 24) == 16000,
        u16_at(wav_bytes_with_fmt_extension(s, ext), 34) == 16,
        wav_bytes_with_fmt_extension(s, ext).subrange(d, d + 4) == data_id(),
        u32_at(wav_bytes_with_fmt_extension(s, ext), d + 4) == 2 * s.len(),
        wav_bytes_with_fmt_extension(s, ext).subrange(d + 8, d + 8 + 2 * s.len()) == pcm_bytes(s),
{
    let n = s.len() as int;
    let fmt_len: int = 16 + ext.len() as int;
    let riff: int = 4 + 8 + fmt_len + pad_of(fmt_len).len() + 8 + 2 * n;
    let h = pcm_format_head(riff, fmt_len);
    let mid = ext + pad_of(fmt_len);
    let t = data_head(2 * n);
    let p = pcm_bytes(s);
    let b = wav_bytes_with_fmt_extension(s, ext);
    reveal(wav_bytes_with_fmt_extension);
    assert(b =~= h + mid + t + p);
    lemma_le32_value(fmt_len);
    lemma_le32_value(16000);
    lemma_le32_value(2 * n);
    assert(b.subrange(0, 36) =~= h);
    assert(b.subrange(0, 4) =~= h.subrange(0, 4));
    assert(b.subrange(8, 12) =~= h.subrange(8, 12));
    assert(b.subrange(12, 16) =~= h.subrange(12, 16));
    assert(h.subrange(0, 4) =~= seq![0x52u8, 0x49u8, 0x46u8, 0x46u8]);
    assert(h.subrange(8, 12) =~= seq![0x57u8, 0x41u8, 0x56u8, 0x45u8]);
    assert(h.subrange(12, 16) =~= fmt_id());
    assert(u32_at(b, 16) == u32_at(h, 16));
    assert(u16_at(b, 20) == u16_at(h, 20));
    assert(u16_at(b, 22) == u16_at(h, 22));
    assert(u32_at(b, 24) == u32_at(h, 24));
    assert(u16_at(b, 34) == u16_at(h, 34));
    assert(b.subrange(d, d + 8) =~= t);
    assert(b.subrange(d, d + 4) =~= t.subrange(0, 4));
    assert(t.subrange(0, 4) =~= data_id());
    assert(u32_at(b, d + 4) == u32_at(t, 4));
    assert(b.subrange(d + 8, d + 8 + 2 * n) =~= p);
}

/// The chunk walk over a file with an extended `fmt ` chunk finds the PCM
/// format and the data chunk at `d`.
#[verifier::rlimit(40)]
#[verifier::spinoff_prover]
proof fn lemma_scan_extended(b: Seq<u8>, k: int, d: int, n: int)
    requires
        0 <= k,
        0 <= n,
        d == 36 + k + k % 2,
        b.len() == d + 8 + 2 * n,
        b.len() <= u32::MAX,
        b.subrange(12, 16) == fmt_id(),
        u32_at(b, 16) == 16 + k,
        u16_at(b, 20) == 1,
        u16_at(b, 22) == 1,
        u32_at(b, 24) == 16000,
        u16_at(b, 34) == 16,
        b.subrange(d, d + 4) == data_id(),
        u32_at(b, d + 4) == 2 * n,
    ensures
        scan_chunks(b, 12, empty_scan()) == Ok::<ChunkScan, WavError>(
            ChunkScan {
                channels: 1,
                sample_rate: 16000,
                bits_per_sample: 16,
                data: Some(((d + 8) as usize, (2 * n) as usize)),
            },
        ),
{
    let st1 = ChunkScan { channels: 1, sample_rate: 16000, bits_per_sample: 16, data: None };
    let st2 = ChunkScan { data: Some(((d + 8) as usize, (2 * n) as usize)), ..st1 };
    assert((16 + k) % 2 == k % 2);
    assert(scan_chunks(b, d + 8 + 2 * n, st2) == Ok::<ChunkScan, WavError>(st2));
    assert(scan_chunks(b, d, st1) == scan_chunks(b, d + 8 + 2 * n, st2));
    assert(scan_chunks(b, 12, empty_scan()) == scan_chunks(b, d, st1));
}

/// A file whose chunk walk finds the expected format and a data chunk reads
/// as the samples of that chunk.
proof fn lemma_parse_found(b: Seq<u8>, o: usize, l: usize)
    requires
        b.len() >= 44,
        b.subrange(0, 4) == seq![0x52u8, 0x49u8, 0x46u8, 0x46u8],
        b.subrange(8, 12) == seq![0x57u8, 0x41u8, 0x56u8, 0x45u8],
        scan_chunks(b, 12, empty_scan()) == Ok::<ChunkScan, WavError>(
            ChunkScan { channels: 1, sample_rate: 16000, bits_per_sample: 16, data: Some((o, l)) },
        ),
    ensures
        parse_wav(b) == Ok::<Seq<i16>, WavError>(pcm_samples(b.subrange(o as int, o + l))),
{
}

/// A `fmt ` chunk longer than its 16 standard bytes is read all the same:
/// reading a file whose `fmt ` chunk carries any extension gives back the
/// samples, as for the canonical 16-byte chunk.
#[verifier::spinoff_prover]
pub proof fn lemma_wav_roundtrip_fmt_extension(s: Seq<i16>, ext: Seq<u8>)
    requires
        2 * s.len() + ext.len() + 45 <= u32::MAX,
    ensures
        parse_wav(wav_bytes_with_fmt_extension(s, ext)) == Ok::<Seq<i16>, WavError>(s),
{
    let n = s.len() as int;
    let k = ext.len() as int;
    let d = 36 + k + pad_of(16 + k).len();
    let b = wav_bytes_with_fmt_extension(s, ext);
    assert(pad_of(16 + k).len() == k % 2);
    lemma_extended_fields(s, ext, d);
    lemma_scan_extended(b, k, d, n);
    lemma_parse_found(b, (d + 8) as usize, (2 * n) as usize);
    lemma_pcm_roundtrip(s);
}

} // verus!
