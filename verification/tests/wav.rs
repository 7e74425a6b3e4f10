use yap::wav::{encode_wav_pcm16, read_pcm16_wav_mono_16k, wav_header_bytes, WavError};

#[test]
fn empty_recording_is_header_only() {
    let bytes = encode_wav_pcm16(&[]);
    assert_eq!(bytes.len(), 44);
    assert_eq!(&bytes[0..4], b"RIFF");
    assert_eq!(&bytes[8..12], b"WAVE");
    assert_eq!(&bytes[36..40], b"data");
}

#[test]
fn full_scale_samples_encode_exactly() {
    let bytes = encode_wav_pcm16(&[i16::MAX, -i16::MAX]);
    assert_eq!(bytes.len(), 44 + 4);
    let s0 = i16::from_le_bytes([bytes[44], bytes[45]]);
    let s1 = i16::from_le_bytes([bytes[46], bytes[47]]);
    assert_eq!(s0, i16::MAX);
    assert_eq!(s1, -i16::MAX);
}

#[test]
fn header_fields_are_little_endian() {
    let h = wav_header_bytes(3);
    assert_eq!(h.len(), 44);
    assert_eq!(u32::from_le_bytes([h[4], h[5], h[6], h[7]]), 36 + 6);
    assert_eq!(&h[12..16], b"fmt ");
    assert_eq!(u32::from_le_bytes([h[16], h[17], h[18], h[19]]), 16);
    assert_eq!(u16::from_le_bytes([h[20], h[21]]), 1);
    assert_eq!(u16::from_le_bytes([h[22], h[23]]), 1);
    assert_eq!(u32::from_le_bytes([h[24], h[25], h[26], h[27]]), 16000);
    assert_eq!(u32::from_le_bytes([h[28], h[29], h[30], h[31]]), 32000);
    assert_eq!(u16::from_le_bytes([h[32], h[33]]), 2);
    assert_eq!(u16::from_le_bytes([h[34], h[35]]), 16);
    assert_eq!(u32::from_le_bytes([h[40], h[41], h[42], h[43]]), 6);
}

#[test]
fn written_samples_read_back() {
    let samples: Vec<i16> = vec![0, 1, -1, 12345, -32768, 32767, 256, -256];
    let bytes = encode_wav_pcm16(&samples);
    assert_eq!(read_pcm16_wav_mono_16k(&bytes), Ok(samples));
}

#[test]
fn refuses_non_riff() {
    assert_eq!(read_pcm16_wav_mono_16k(&[0u8; 10]), Err(WavError::NotRiffWave));
    let mut bytes = encode_wav_pcm16(&[1, 2]);
    bytes[0] = b'X';
    assert_eq!(read_pcm16_wav_mono_16k(&bytes), Err(WavError::NotRiffWave));
}

#[test]
fn refuses_non_pcm_format() {
    let mut bytes = encode_wav_pcm16(&[1, 2]);
    bytes[20] = 3;
    assert_eq!(read_pcm16_wav_mono_16k(&bytes), Err(WavError::UnsupportedFormat(3)));
}

#[test]
fn refuses_stereo() {
    let mut bytes = encode_wav_pcm16(&[1, 2]);
    bytes[22] = 2;
    assert_eq!(
        read_pcm16_wav_mono_16k(&bytes),
        Err(WavError::UnexpectedFormat { channels: 2, sample_rate: 16000, bits_per_sample: 16 })
    );
}

#[test]
fn refuses_missing_data_chunk() {
    let mut bytes = encode_wav_pcm16(&[1, 2]);
    bytes[36..40].copy_from_slice(b"junk");
    assert_eq!(read_pcm16_wav_mono_16k(&bytes), Err(WavError::MissingData));
}

#[test]
fn skips_unknown_chunks_with_padding() {
    let mut bytes = encode_wav_pcm16(&[]);
    // Replace the empty data chunk by an odd-sized unknown chunk, padded, then data.
    bytes.truncate(36);
    bytes.extend_from_slice(b"LIST");
    bytes.extend_from_slice(&3u32.to_le_bytes());
    bytes.extend_from_slice(&[1, 2, 3, 0]);
    bytes.extend_from_slice(b"data");
    bytes.extend_from_slice(&4u32.to_le_bytes());
    bytes.extend_from_slice(&[0x10, 0x00, 0xff, 0xff]);
    assert_eq!(read_pcm16_wav_mono_16k(&bytes), Ok(vec![16, -1]));
}

#[test]
fn odd_trailing_byte_is_ignored() {
    let mut bytes = encode_wav_pcm16(&[7]);
    bytes[40] = 3;
    bytes.push(0x55);
    assert_eq!(read_pcm16_wav_mono_16k(&bytes), Ok(vec![7]));
}
