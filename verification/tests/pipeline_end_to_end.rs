use music_core::cache::cache_path;
use music_core::cache::load_or_build;
use music_core::cache::try_cached;
use music_core::codec::decode;
use music_core::codec::encode;
use music_core::device::resolve_target_rate;
use music_core::device::DeviceProfile;
use music_core::device::RateRange;
use music_core::resample::deinterleave;
use music_core::resample::expected_output_len;
use music_core::resample::interleave;
use music_core::resample::padded_block;
use music_core::resample::resampler_block_sizes;
use music_core::song::Song;

use rubato::Resampler;

/// A short mono sine tone at 22050 Hz, an even sample count.
fn test_tone() -> Vec<i16> {
    let mut samples = Vec::new();
    for n in 0..4410u32 {
        let t = n as f32 / 22050.0;
        let v = (2.0 * std::f32::consts::PI * 440.0 * t).sin();
        samples.push((v * 10000.0) as i16);
    }
    samples
}

fn to_f32(samples: &[i16]) -> Vec<f32> {
    samples.iter().map(|s| *s as f32 / i16::MAX as f32).collect()
}

fn to_i16(samples: &[f32]) -> Vec<i16> {
    samples.iter().map(|s| (*s * i16::MAX as f32) as i16).collect()
}

/// The whole load of `test-tone.wav` on a device whose default is
/// 48000 Hz: decode, rate resolution, block resampling, cache write,
/// and the cache hit on a second load.
#[test]
fn load_test_tone_end_to_end() {
    // The library file, as the codec would read it from disk.
    let tone = test_tone();
    let file_bytes = encode(&tone, 22050, 1).unwrap();
    let (source, file_rate) = decode(&file_bytes).unwrap();
    assert_eq!(source, tone);
    assert_eq!(file_rate, 22050);

    // The device does not support 22050 Hz; its default is 48000 Hz.
    let profile = DeviceProfile {
        ranges: vec![RateRange { min: 44100, max: 48000 }],
        default_rate: Some(48000),
    };
    let target_rate = resolve_target_rate(file_rate, &profile);
    assert_eq!(target_rate, 48000);

    // The cache entry the load will create.
    let title = Song::get_title_from_file("test-tone.wav");
    let path = cache_path("test-cache", &title, target_rate);
    assert_eq!(path, "test-cache/Test Tone-48000Hz.wav");

    // Block-based resampling, two channels assumed, blocks of 1024 frames.
    let channels = 2usize;
    let (in_frames, out_frames) = resampler_block_sizes(file_rate, target_rate, 1024).unwrap();
    let mut engine =
        rubato::FftFixedInOut::<f32>::new(file_rate as usize, target_rate as usize, 1024, channels)
            .unwrap();
    assert_eq!(in_frames, engine.input_frames_next());
    assert_eq!(out_frames, engine.output_frames_max());

    let floats = to_f32(&source);
    let chans = deinterleave(&floats, channels);
    let frames = chans[0].len();
    let mut converted: Vec<Vec<f32>> = vec![Vec::new(); channels];
    let mut start = 0usize;
    while start < frames {
        let block: Vec<Vec<f32>> =
            chans.iter().map(|c| padded_block(c, start, in_frames, 0.0f32)).collect();
        let out = engine.process(&block, None).unwrap();
        for (c, chan) in out.into_iter().enumerate() {
            assert_eq!(chan.len(), out_frames);
            converted[c].extend(chan);
        }
        start += in_frames;
    }
    let resampled = interleave(&converted);

    // The engine's output length matches the block-count formula.
    let expected = expected_output_len(frames, in_frames, out_frames, channels).unwrap();
    assert_eq!(resampled.len(), expected);
    assert_eq!(expected, 10240);

    // First load: a miss that persists the resampled buffer.
    let resampled_i16 = to_i16(&resampled);
    let first = load_or_build(None, source.clone(), file_rate, target_rate, Some(resampled_i16.clone()));
    assert_eq!(first.rate, target_rate);
    assert_eq!(first.samples, resampled_i16);
    let entry = first.cache_write.clone().expect("the first load writes the entry");

    // The persisted entry decodes back to the engine's output at the
    // target rate: the round trip through the codec is lossless.
    let (reread, reread_rate) = decode(&entry).unwrap();
    assert_eq!(reread, resampled_i16);
    assert_eq!(reread_rate, target_rate);

    // A second load sees the entry before any resampling is considered,
    // serves it verbatim, and writes nothing more.
    assert_eq!(try_cached(&Some(entry.clone())), Some(resampled_i16.clone()));
    let second = load_or_build(
        Some(entry),
        source,
        file_rate,
        target_rate,
        Some(vec![0, 0]),  // never consulted on a hit
    );
    assert_eq!(second.samples, first.samples);
    assert_eq!(second.cache_write, None);

    // The loaded track plays at the resolved rate.
    let song = Song::new("test-tone.wav", second.samples, second.rate);
    assert_eq!(song.title, "Test Tone");
    assert_eq!(song.final_sample_rate, 48000);
    assert!(!song.is_empty());
}

/// The sizing our planner computes agrees with the engine over a spread
/// of rate pairs.
#[test]
fn block_sizes_match_the_engine() {
    for (from, to) in [(22050u32, 48000u32), (44100, 48000), (48000, 44100), (8000, 192000)] {
        let (in_frames, out_frames) = resampler_block_sizes(from, to, 1024).unwrap();
        let engine =
            rubato::FftFixedInOut::<f32>::new(from as usize, to as usize, 1024, 2).unwrap();
        assert_eq!(in_frames, engine.input_frames_next());
        assert_eq!(out_frames, engine.output_frames_max());
    }
}

/// A zero rate is the pair the engine structurally cannot handle; the
/// planner reports it rather than panicking.
#[test]
fn zero_rate_is_rejected() {
    assert_eq!(resampler_block_sizes(0, 48000, 1024), None);
    assert_eq!(resampler_block_sizes(48000, 0, 1024), None);
    assert!(rubato::FftFixedInOut::<f32>::new(0, 48000, 1024, 2).is_err());
}

/// De-interleaving and re-interleaving lose nothing.
#[test]
fn interleave_round_trip() {
    let input: Vec<i16> = vec![1, -1, 2, -2, 3, -3, 4, -4];
    let chans = deinterleave(&input, 2);
    assert_eq!(chans.len(), 2);
    assert_eq!(chans[0], vec![1, 2, 3, 4]);
    assert_eq!(chans[1], vec![-1, -2, -3, -4]);
    assert_eq!(interleave(&chans), input);
}

/// The final partial block is padded with the fill value.
#[test]
fn padded_block_pads_the_tail() {
    let chan: Vec<i16> = vec![1, 2, 3];
    assert_eq!(padded_block(&chan, 2, 4, 0i16), vec![3, 0, 0, 0]);
    assert_eq!(padded_block(&chan, 0, 3, 0i16), vec![1, 2, 3]);
    assert_eq!(padded_block(&chan, 5, 2, 9i16), vec![9, 9]);
}
