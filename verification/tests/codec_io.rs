use music_core::codec::decode;
use music_core::codec::encode;
use music_core::codec::DecodeError;
use music_core::codec::EncodeError;

fn sample_data() -> Vec<i16> {
    vec![0, 1, -1, 32767, -32768, 1234, -4321, 100]
}

#[test]
fn encode_decode_round_trip() {
    let samples = sample_data();
    let bytes = encode(&samples, 48000, 2).unwrap();
    let (back, rate) = decode(&bytes).unwrap();
    assert_eq!(back, samples);
    assert_eq!(rate, 48000);
}

#[test]
fn encode_decode_round_trip_mono() {
    let samples = vec![5, -5, 9];
    let bytes = encode(&samples, 22050, 1).unwrap();
    let (back, rate) = decode(&bytes).unwrap();
    assert_eq!(back, samples);
    assert_eq!(rate, 22050);
}

#[test]
fn encode_layout_is_canonical() {
    let bytes = encode(&sample_data(), 44100, 2).unwrap();
    assert_eq!(bytes.len(), 44 + 2 * sample_data().len());
    assert_eq!(&bytes[0..4], b"RIFF");
    assert_eq!(&bytes[8..12], b"WAVE");
    assert_eq!(&bytes[12..16], b"fmt ");
    assert_eq!(&bytes[36..40], b"data");
    // Declared sizes agree with the buffer.
    let riff = u32::from_le_bytes([bytes[4], bytes[5], bytes[6], bytes[7]]);
    assert_eq!(riff as usize, bytes.len() - 8);
    let data = u32::from_le_bytes([bytes[40], bytes[41], bytes[42], bytes[43]]);
    assert_eq!(data as usize, bytes.len() - 44);
}

#[test]
fn decode_rejects_short_buffer() {
    assert_eq!(decode(&vec![0u8; 43]), Err(DecodeError::Truncated));
    assert_eq!(decode(&Vec::new()), Err(DecodeError::Truncated));
}

#[test]
fn decode_rejects_bad_magic() {
    let mut bytes = encode(&sample_data(), 48000, 2).unwrap();
    bytes[0] = b'X';
    assert_eq!(decode(&bytes), Err(DecodeError::BadHeader));
}

#[test]
fn decode_rejects_unsupported_format() {
    // Compressed format tag.
    let mut bytes = encode(&sample_data(), 48000, 2).unwrap();
    bytes[20] = 3;
    assert_eq!(decode(&bytes), Err(DecodeError::Unsupported));
    // 8 bits per sample.
    let mut bytes = encode(&sample_data(), 48000, 2).unwrap();
    bytes[34] = 8;
    assert_eq!(decode(&bytes), Err(DecodeError::Unsupported));
}

#[test]
fn decode_rejects_size_mismatch() {
    let mut bytes = encode(&sample_data(), 48000, 2).unwrap();
    bytes.push(0);
    assert_eq!(decode(&bytes), Err(DecodeError::SizeMismatch));
    let mut bytes = encode(&sample_data(), 48000, 2).unwrap();
    bytes.pop();
    bytes.pop();
    bytes.pop();
    assert_eq!(decode(&bytes), Err(DecodeError::SizeMismatch));
}

#[test]
fn encode_rejects_zero_channels() {
    assert_eq!(encode(&sample_data(), 48000, 0), Err(EncodeError::NoChannels));
}

#[test]
fn encode_rejects_oversized_byte_rate() {
    // The byte-rate field would not fit 32 bits.
    assert_eq!(encode(&sample_data(), u32::MAX, 2), Err(EncodeError::TooLarge));
}

#[test]
fn hound_reads_our_container() {
    let samples = sample_data();
    let bytes = encode(&samples, 44100, 2).unwrap();
    let reader = hound::WavReader::new(std::io::Cursor::new(bytes)).unwrap();
    let spec = reader.spec();
    assert_eq!(spec.channels, 2);
    assert_eq!(spec.sample_rate, 44100);
    assert_eq!(spec.bits_per_sample, 16);
    assert_eq!(spec.sample_format, hound::SampleFormat::Int);
    let read: Vec<i16> = reader.into_samples::<i16>().map(|s| s.unwrap()).collect();
    assert_eq!(read, samples);
}

#[test]
fn we_read_hound_container() {
    let samples = sample_data();
    let spec = hound::WavSpec {
        channels: 2,
        sample_rate: 22050,
        bits_per_sample: 16,
        sample_format: hound::SampleFormat::Int,
    };
    let mut buf: Vec<u8> = Vec::new();
    {
        let cursor = std::io::Cursor::new(&mut buf);
        let mut writer = hound::WavWriter::new(cursor, spec).unwrap();
        for s in &samples {
            writer.write_sample(*s).unwrap();
        }
        writer.finalize().unwrap();
    }
    let (back, rate) = decode(&buf).unwrap();
    assert_eq!(back, samples);
    assert_eq!(rate, 22050);
}
