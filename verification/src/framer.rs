//! Container framing: a deterministic streaming-audio preamble per declared
//! format, and the per-sample wire encoding rule.
//!
//! The header is a pure function of the format.  Its exact 44-byte layout is
//! fixed by `spec_header`, so two subscribers that join with the same format
//! always receive byte-identical preambles.

use vstd::bytes::*;
use vstd::prelude::*;

verus! {

/// Placeholder for the data-size fields: the true size of a live, open-ended
/// stream is unknowable when the header is written, so a large fixed sentinel
/// stands in for it.
pub const DATA_SIZE_SENTINEL: u32 = 10_240_000;

/// The declared audio format a subscriber's stream is framed with.
#[derive(Clone, Copy, PartialEq, Eq, Structural, Debug)]
pub struct WavFormat {
    /// Width of one encoded sample in bits.
    pub sample_width_bits: u16,
    /// Number of interleaved channels.
    pub channel_count: u16,
    /// Sample rate in Hz.
    pub sample_rate_hz: u32,
}

/// Bytes consumed per second of audio: `rate * channels * width / 8`.
pub open spec fn spec_byte_rate(f: WavFormat) -> int {
    f.sample_rate_hz * f.channel_count * f.sample_width_bits / 8
}

/// Bytes per sample frame across all channels: `channels * width / 8`.
pub open spec fn spec_block_align(f: WavFormat) -> int {
    f.channel_count * f.sample_width_bits / 8
}

/// The derived header fields must fit their wire slots (4 bytes for the byte
/// rate, 2 for the block alignment).
pub open spec fn format_fits(f: WavFormat) -> bool {
    &&& spec_byte_rate(f) <= u32::MAX
    &&& spec_block_align(f) <= u16::MAX
}

/// The canonical 44-byte container preamble for a format: "RIFF", placeholder
/// total size, "WAVE", "fmt ", sub-chunk length 16, PCM tag 1, channel count,
/// sample rate, byte rate, block alignment, bits per sample, "data",
/// placeholder data size; all multi-byte fields little-endian.
pub open spec fn spec_header(f: WavFormat) -> Seq<u8> {
    seq![0x52u8, 0x49u8, 0x46u8, 0x46u8]  // "RIFF"
    + spec_u32_to_le_bytes((DATA_SIZE_SENTINEL + 36) as u32)
    + seq![0x57u8, 0x41u8, 0x56u8, 0x45u8]  // "WAVE"
    + seq![0x66u8, 0x6du8, 0x74u8, 0x20u8]  // "fmt "
    + spec_u32_to_le_bytes(16u32)
    + spec_u16_to_le_bytes(1u16)
    + spec_u16_to_le_bytes(f.channel_count)
    + spec_u32_to_le_bytes(f.sample_rate_hz)
    + spec_u32_to_le_bytes(spec_byte_rate(f) as u32)
    + spec_u16_to_le_bytes(spec_block_align(f) as u16)
    + spec_u16_to_le_bytes(f.sample_width_bits)
    + seq![0x64u8, 0x61u8, 0x74u8, 0x61u8]  // "data"
    + spec_u32_to_le_bytes(DATA_SIZE_SENTINEL)
}

/// The header of any representable format is exactly 44 bytes.
pub proof fn lemma_header_len(f: WavFormat)
    ensures
        spec_header(f).len() == 44,
{
    lemma_auto_spec_u32_to_from_le_bytes();
    lemma_auto_spec_u16_to_from_le_bytes();
}

/// Builds the container preamble for a format.  The result is pinned to
/// `spec_header`, a pure function of the format alone, so identical formats
/// always yield byte-identical headers.
pub fn build_header(format: &WavFormat) -> (r: Vec<u8>)
    requires
        format_fits(*format),
    ensures
        r@ == spec_header(*format),
        r@.len() == 44,
{
    proof {
        lemma_header_len(*format);
    }
    let width = format.sample_width_bits as u64;
    let channels = format.channel_count as u64;
    let rate = format.sample_rate_hz as u64;
    assert(rate * channels <= 0xffff_ffff * 0xffff) by (nonlinear_arith)
        requires
            rate <= 0xffff_ffff && channels <= 0xffff,
    ;
    assert(rate * channels * width <= 0xffff_ffff * 0xffff * 0xffff) by (nonlinear_arith)
        requires
            rate * channels <= 0xffff_ffff * 0xffff && width <= 0xffff,
    ;
    assert(rate * channels * width == format.sample_rate_hz * format.channel_count
        * format.sample_width_bits);
    let byte_rate = ((rate * channels * width) / 8) as u32;
    assert(byte_rate == spec_byte_rate(*format));
    let block_align = ((format.channel_count as u32 * format.sample_width_bits as u32) / 8) as u16;
    let mut h: Vec<u8> = Vec::new();
    h.push(0x52u8);
    h.push(0x49u8);
    h.push(0x46u8);
    h.push(0x46u8);
    let mut part = u32_to_le_bytes(DATA_SIZE_SENTINEL + 36);
    h.append(&mut part);
    h.push(0x57u8);
    h.push(0x41u8);
    h.push(0x56u8);
    h.push(0x45u8);
    h.push(0x66u8);
    h.push(0x6du8);
    h.push(0x74u8);
    h.push(0x20u8);
    let mut part = u32_to_le_bytes(16u32);
    h.append(&mut part);
    let mut part = u16_to_le_bytes(1u16);
    h.append(&mut part);
    let mut part = u16_to_le_bytes(format.channel_count);
    h.append(&mut part);
    let mut part = u32_to_le_bytes(format.sample_rate_hz);
    h.append(&mut part);
    let mut part = u32_to_le_bytes(byte_rate);
    h.append(&mut part);
    let mut part = u16_to_le_bytes(block_align);
    h.append(&mut part);
    let mut part = u16_to_le_bytes(format.sample_width_bits);
    h.append(&mut part);
    h.push(0x64u8);
    h.push(0x61u8);
    h.push(0x74u8);
    h.push(0x61u8);
    let mut part = u32_to_le_bytes(DATA_SIZE_SENTINEL);
    h.append(&mut part);
    assert(h@ =~= spec_header(*format));
    h
}

/// The original preamble entry point: one channel at 48000 Hz, parameterised
/// by sample width only.
pub fn build_riff_wav_header(bits_per_sample: u32) -> (r: Vec<u8>)
    requires
        bits_per_sample <= u16::MAX,
    ensures
        r@ == spec_header(
            WavFormat {
                sample_width_bits: bits_per_sample as u16,
                channel_count: 1,
                sample_rate_hz: 48_000,
            },
        ),
        r@.len() == 44,
{
    let format = WavFormat {
        sample_width_bits: bits_per_sample as u16,
        channel_count: 1,
        sample_rate_hz: 48_000,
    };
    build_header(&format)
}

/// One sample on the wire, keyed by the declared sample format.  Integer
/// samples pass through unchanged, little-endian; a float sample must be
/// scaled and truncated to `Pcm16` by the caller before it reaches the wire.
#[derive(Clone, Copy, PartialEq, Eq, Structural, Debug)]
pub enum WireSample {
    /// An 8-bit sample, one byte on the wire.
    Pcm8(u8),
    /// A 16-bit sample, two bytes on the wire, little-endian.
    Pcm16(i16),
}

/// The wire bytes of one sample.
pub open spec fn spec_encode(s: WireSample) -> Seq<u8> {
    match s {
        WireSample::Pcm8(v) => seq![v],
        WireSample::Pcm16(v) => spec_u16_to_le_bytes(v as u16),
    }
}

/// Encodes one sample for the wire.
pub fn encode(sample: &WireSample) -> (r: Vec<u8>)
    ensures
        r@ == spec_encode(*sample),
{
    match sample {
        WireSample::Pcm8(v) => {
            let mut out: Vec<u8> = Vec::new();
            out.push(*v);
            assert(out@ =~= spec_encode(WireSample::Pcm8(*v)));
            out
        },
        WireSample::Pcm16(v) => u16_to_le_bytes(*v as u16),
    }
}

/// The wire bytes of a sequence of samples, in order.
pub open spec fn spec_encode_all(samples: Seq<WireSample>) -> Seq<u8>
    decreases samples.len(),
{
    if samples.len() == 0 {
        Seq::empty()
    } else {
        spec_encode_all(samples.drop_last()) + spec_encode(samples.last())
    }
}

/// A newly joined subscriber's outbound byte stream: the header once, then
/// the encoding of every delivered sample, in delivery order.
pub open spec fn spec_riff_stream(f: WavFormat, samples: Seq<WireSample>) -> Seq<u8> {
    spec_header(f) + spec_encode_all(samples)
}

/// Encoding distributes over concatenation: delivering further samples only
/// appends bytes, so the bytes a subscriber has seen so far are always a
/// prefix of the bytes it will ever see.
pub proof fn lemma_encode_all_append(a: Seq<WireSample>, b: Seq<WireSample>)
    ensures
        spec_encode_all(a + b) == spec_encode_all(a) + spec_encode_all(b),
    decreases b.len(),
{
    if b.len() == 0 {
        assert(a + b =~= a);
        assert(spec_encode_all(a) + spec_encode_all(b) =~= spec_encode_all(a));
    } else {
        lemma_encode_all_append(a, b.drop_last());
        assert((a + b).drop_last() =~= a + b.drop_last());
        assert((a + b).last() == b.last());
        assert(spec_encode_all(a) + spec_encode_all(b.drop_last()) + spec_encode(b.last())
            =~= spec_encode_all(a) + spec_encode_all(b));
    }
}

/// A subscriber that has been delivered `samples` after joining with format
/// `f` has been handed exactly `spec_riff_stream(f, samples)`; delivering more
/// samples extends that byte sequence without rewriting it.
pub proof fn lemma_riff_stream_extends(f: WavFormat, sent: Seq<WireSample>, more: Seq<WireSample>)
    ensures
        spec_riff_stream(f, sent + more) == spec_riff_stream(f, sent) + spec_encode_all(more),
{
    lemma_encode_all_append(sent, more);
    assert(spec_riff_stream(f, sent + more) =~= spec_riff_stream(f, sent) + spec_encode_all(more));
}

/// Assembles the full outbound byte image for a subscriber: header first,
/// then every sample encoded in delivery order.  This is the synchronous core
/// of the per-subscriber stream; transport code drains the same bytes
/// incrementally.
pub fn as_riff_wav_stream(format: &WavFormat, samples: &Vec<WireSample>) -> (r: Vec<u8>)
    requires
        format_fits(*format),
    ensures
        r@ == spec_riff_stream(*format, samples@),
{
    let mut out = build_header(format);
    let mut i: usize = 0;
    while i < samples.len()
        invariant
            0 <= i <= samples@.len(),
            out@ == spec_riff_stream(*format, samples@.take(i as int)),
        decreases samples@.len() - i,
    {
        let mut enc = encode(&samples[i]);
        out.append(&mut enc);
        proof {
            assert(samples@.take(i + 1 as int).drop_last() =~= samples@.take(i as int));
            assert(samples@.take(i + 1 as int).last() == samples@[i as int]);
            assert(spec_header(*format) + spec_encode_all(samples@.take(i as int))
                + spec_encode(samples@[i as int]) =~= spec_riff_stream(
                *format,
                samples@.take(i + 1 as int),
            ));
        }
        i = i + 1;
    }
    proof {
        assert(samples@.take(samples@.len() as int) =~= samples@);
    }
    out
}

} // verus!
