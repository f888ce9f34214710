use multistream::framer::{
    as_riff_wav_stream, build_header, build_riff_wav_header, encode, WavFormat, WireSample,
};

fn pcm16_mono_48k() -> WavFormat {
    WavFormat { sample_width_bits: 16, channel_count: 1, sample_rate_hz: 48_000 }
}

#[test]
fn header_is_bit_exact_for_pcm16_mono_48k() {
    let h = build_header(&pcm16_mono_48k());
    assert_eq!(h.len(), 44);
    assert_eq!(&h[0..4], b"RIFF");
    assert_eq!(&h[8..12], b"WAVE");
    assert_eq!(&h[12..16], b"fmt ");
    assert_eq!(&h[36..40], b"data");
    assert_eq!(u16::from_le_bytes([h[20], h[21]]), 1); // PCM tag
    assert_eq!(u16::from_le_bytes([h[22], h[23]]), 1); // channels
    assert_eq!(u32::from_le_bytes([h[24], h[25], h[26], h[27]]), 48_000);
    assert_eq!(u32::from_le_bytes([h[28], h[29], h[30], h[31]]), 96_000); // byte rate
    assert_eq!(u16::from_le_bytes([h[32], h[33]]), 2); // block align
    assert_eq!(u16::from_le_bytes([h[34], h[35]]), 16); // bits per sample
    let expected: Vec<u8> = vec![
        0x52, 0x49, 0x46, 0x46, 0x24, 0x40, 0x9C, 0x00, 0x57, 0x41, 0x56, 0x45, 0x66, 0x6D, 0x74,
        0x20, 0x10, 0x00, 0x00, 0x00, 0x01, 0x00, 0x01, 0x00, 0x80, 0xBB, 0x00, 0x00, 0x00, 0x77,
        0x01, 0x00, 0x02, 0x00, 0x10, 0x00, 0x64, 0x61, 0x74, 0x61, 0x00, 0x40, 0x9C, 0x00,
    ];
    assert_eq!(h, expected);
}

#[test]
fn header_is_a_pure_function_of_the_format() {
    let a = build_header(&pcm16_mono_48k());
    let b = build_header(&pcm16_mono_48k());
    assert_eq!(a, b);
    let c = build_header(&WavFormat {
        sample_width_bits: 16,
        channel_count: 1,
        sample_rate_hz: 48_000,
    });
    assert_eq!(a, c);
    let other = build_header(&WavFormat {
        sample_width_bits: 8,
        channel_count: 2,
        sample_rate_hz: 44_100,
    });
    assert_ne!(a, other);
}

#[test]
fn stereo_format_derives_rate_and_alignment() {
    let f = WavFormat { sample_width_bits: 16, channel_count: 2, sample_rate_hz: 44_100 };
    let h = build_header(&f);
    assert_eq!(h.len(), 44);
    assert_eq!(u16::from_le_bytes([h[22], h[23]]), 2);
    assert_eq!(u32::from_le_bytes([h[24], h[25], h[26], h[27]]), 44_100);
    assert_eq!(u32::from_le_bytes([h[28], h[29], h[30], h[31]]), 176_400);
    assert_eq!(u16::from_le_bytes([h[32], h[33]]), 4);
}

#[test]
fn riff_header_entry_point_matches_general_builder() {
    assert_eq!(build_riff_wav_header(16), build_header(&pcm16_mono_48k()));
    let h8 = build_riff_wav_header(8);
    assert_eq!(h8.len(), 44);
    assert_eq!(u16::from_le_bytes([h8[34], h8[35]]), 8);
    assert_eq!(u32::from_le_bytes([h8[28], h8[29], h8[30], h8[31]]), 48_000);
    assert_eq!(u16::from_le_bytes([h8[32], h8[33]]), 1);
}

#[test]
fn integer_samples_pass_through_little_endian() {
    assert_eq!(encode(&WireSample::Pcm8(0xAB)), vec![0xAB]);
    assert_eq!(encode(&WireSample::Pcm8(0)), vec![0x00]);
    assert_eq!(encode(&WireSample::Pcm16(0x1234)), vec![0x34, 0x12]);
    assert_eq!(encode(&WireSample::Pcm16(-2)), vec![0xFE, 0xFF]);
    assert_eq!(encode(&WireSample::Pcm16(i16::MIN)), vec![0x00, 0x80]);
    assert_eq!(encode(&WireSample::Pcm16(i16::MAX)), vec![0xFF, 0x7F]);
}

#[test]
fn subscriber_stream_is_header_then_samples_in_order() {
    let f = pcm16_mono_48k();
    let samples = vec![WireSample::Pcm16(1), WireSample::Pcm16(-1), WireSample::Pcm16(256)];
    let stream = as_riff_wav_stream(&f, &samples);
    let mut expected = build_header(&f);
    expected.extend_from_slice(&[0x01, 0x00, 0xFF, 0xFF, 0x00, 0x01]);
    assert_eq!(stream, expected);
}

#[test]
fn empty_stream_is_exactly_the_header() {
    let f = pcm16_mono_48k();
    let stream = as_riff_wav_stream(&f, &Vec::new());
    assert_eq!(stream, build_header(&f));
}
