use music_core::device::resolve_target_rate;
use music_core::device::DeviceProfile;
use music_core::device::RateRange;

fn profile(ranges: Vec<(u32, u32)>, default_rate: Option<u32>) -> DeviceProfile {
    DeviceProfile {
        ranges: ranges.into_iter().map(|(min, max)| RateRange { min, max }).collect(),
        default_rate,
    }
}

#[test]
fn native_rate_in_range_is_kept() {
    let p = profile(vec![(8000, 44100), (48000, 192000)], Some(48000));
    assert_eq!(resolve_target_rate(44100, &p), 44100);
    assert_eq!(resolve_target_rate(8000, &p), 8000);
    assert_eq!(resolve_target_rate(96000, &p), 96000);
}

#[test]
fn unsupported_rate_falls_back_to_default() {
    let p = profile(vec![(44100, 48000)], Some(48000));
    assert_eq!(resolve_target_rate(22050, &p), 48000);
    assert_eq!(resolve_target_rate(192000, &p), 48000);
}

#[test]
fn overlapping_ranges_pick_the_same_rate() {
    let p = profile(vec![(8000, 96000), (22050, 44100)], Some(48000));
    assert_eq!(resolve_target_rate(44100, &p), 44100);
}

#[test]
fn no_device_returns_file_rate() {
    let p = DeviceProfile::no_device();
    assert!(p.ranges.is_empty());
    assert!(p.default_rate.is_none());
    assert_eq!(resolve_target_rate(22050, &p), 22050);
    assert_eq!(resolve_target_rate(44100, &p), 44100);
}

#[test]
fn failed_config_query_with_default_still_falls_back() {
    // Supported ranges unknown, but a default configuration was readable.
    let p = profile(vec![], Some(44100));
    assert_eq!(resolve_target_rate(22050, &p), 44100);
}
