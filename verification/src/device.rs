//! Device capability model: what the output device reported, and how the
//! playback rate is chosen from it.
//!
//! A profile is queried fresh on every load by the surrounding program and
//! handed in as plain values; choosing the target rate is pure logic.

use vstd::prelude::*;

verus! {

/// One supported sample-rate range reported by the output device.
/// Ranges are not assumed disjoint or sorted.
pub struct RateRange {
    pub min: u32,
    pub max: u32,
}

/// What a device probe learned about the default output device.
///
/// `default_rate` is `None` when no device was available or the default
/// configuration could not be queried; `ranges` is empty in the same case,
/// or when the configuration query failed.
pub struct DeviceProfile {
    pub ranges: Vec<RateRange>,
    pub default_rate: Option<u32>,
}

/// True when `rate` lies inside the range (inclusive on both ends).
pub open spec fn range_supports(r: RateRange, rate: u32) -> bool {
    r.min <= rate <= r.max
}

/// True when some reported range contains `rate`.
pub open spec fn profile_supports(profile: DeviceProfile, rate: u32) -> bool {
    exists|i: int| 0 <= i < profile.ranges@.len() && range_supports(#[trigger] profile.ranges@[i], rate)
}

/// The rate playback will use: the file's native rate when the device
/// supports it, otherwise the device's default rate, otherwise (no device
/// at all) the file's rate again.
pub open spec fn spec_resolve_target_rate(file_rate: u32, profile: DeviceProfile) -> u32 {
    if profile_supports(profile, file_rate) {
        file_rate
    } else {
        match profile.default_rate {
            Some(r) => r,
            None => file_rate,
        }
    }
}

impl DeviceProfile {
    /// The profile reported when no output device is available: nothing is
    /// supported and no default is known.
    pub fn no_device() -> (p: DeviceProfile)
        ensures
            p.ranges@.len() == 0,
            p.default_rate is None,
            forall|r: u32| !profile_supports(p, r),
    {
        DeviceProfile { ranges: Vec::new(), default_rate: None }
    }
}

/// With no output device available — no reported ranges and no default
/// rate — resolution falls back to the file's own rate, deterministically,
/// rather than failing.
pub proof fn lemma_no_device_keeps_file_rate(file_rate: u32, profile: DeviceProfile)
    requires
        profile.ranges@.len() == 0,
        profile.default_rate is None,
    ensures
        spec_resolve_target_rate(file_rate, profile) == file_rate,
{
}

/// Returns `file_rate` when it lies within any supported range (the first
/// match wins, though every match gives the same answer), and the device's
/// default rate otherwise. With no device present this falls back to
/// `file_rate` itself rather than failing.
pub fn resolve_target_rate(file_rate: u32, profile: &DeviceProfile) -> (rate: u32)
    ensures
        rate == spec_resolve_target_rate(file_rate, *profile),
{
    let mut i: usize = 0;
    while i < profile.ranges.len()
        invariant
            0 <= i <= profile.ranges@.len(),
            forall|j: int| 0 <= j < i ==> !range_supports(#[trigger] profile.ranges@[j], file_rate),
        decreases profile.ranges@.len() - i,
    {
        let r = &profile.ranges[i];
        if r.min <= file_rate && file_rate <= r.max {
            return file_rate;
        }
        i += 1;
    }
    assert(!profile_supports(*profile, file_rate));
    match profile.default_rate {
        Some(r) => r,
        None => file_rate,
    }
}

} // verus!
