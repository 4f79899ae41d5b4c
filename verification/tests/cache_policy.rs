use music_core::cache::cache_path;
use music_core::cache::load_or_build;
use music_core::cache::try_cached;
use music_core::codec::decode;
use music_core::codec::encode;

fn source() -> Vec<i16> {
    vec![10, -10, 20, -20, 30, -30]
}

#[test]
fn cache_path_is_canonical() {
    assert_eq!(cache_path("music_cache", "My Song", 48000), "music_cache/My Song-48000Hz.wav");
    assert_eq!(cache_path("test-cache", "Test Tone", 48000), "test-cache/Test Tone-48000Hz.wav");
    assert_eq!(cache_path("d", "T", 0), "d/T-0Hz.wav");
    assert_eq!(cache_path("d", "T", 44100), "d/T-44100Hz.wav");
}

#[test]
fn miss_with_equal_rates_copies_source() {
    let out = load_or_build(None, source(), 44100, 44100, None);
    assert_eq!(out.samples, source());
    assert_eq!(out.rate, 44100);
    let written = out.cache_write.expect("a first load must create the entry");
    assert_eq!(written, encode(&source(), 44100, 2).unwrap());
    let (cached, _) = decode(&written).unwrap();
    assert_eq!(cached, source());
}

#[test]
fn miss_with_differing_rates_stores_engine_output() {
    let resampled = vec![1, 2, 3, 4];
    let out = load_or_build(None, source(), 22050, 48000, Some(resampled.clone()));
    assert_eq!(out.samples, resampled);
    assert_eq!(out.rate, 48000);
    assert_eq!(out.cache_write, Some(encode(&resampled, 48000, 2).unwrap()));
}

#[test]
fn second_load_is_idempotent() {
    let first = load_or_build(None, source(), 44100, 44100, None);
    let entry = first.cache_write.clone().unwrap();
    // The engine's output for a second call is irrelevant: the entry wins.
    let second = load_or_build(Some(entry), source(), 44100, 44100, None);
    assert_eq!(second.samples, first.samples);
    assert_eq!(second.rate, first.rate);
    assert_eq!(second.cache_write, None);
}

#[test]
fn second_load_after_resample_is_idempotent() {
    let resampled = vec![7, -7, 9, -9];
    let first = load_or_build(None, source(), 22050, 48000, Some(resampled.clone()));
    let entry = first.cache_write.clone().unwrap();
    let second = load_or_build(Some(entry), source(), 22050, 48000, Some(vec![0, 0]));
    assert_eq!(second.samples, first.samples);
    assert_eq!(second.cache_write, None);
}

#[test]
fn unreadable_entry_is_rebuilt_but_never_overwritten() {
    let garbage = vec![1u8, 2, 3];
    let out = load_or_build(Some(garbage), source(), 44100, 44100, None);
    assert_eq!(out.samples, source());
    assert_eq!(out.cache_write, None);
}

#[test]
fn try_cached_answers_hit_and_miss() {
    let entry = encode(&source(), 48000, 2).unwrap();
    assert_eq!(try_cached(&Some(entry)), Some(source()));
    assert_eq!(try_cached(&Some(vec![0u8; 10])), None);
    assert_eq!(try_cached(&None), None);
}
