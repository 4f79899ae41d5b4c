//! Core of a small music player: decoding and encoding of 16-bit PCM
//! containers, device-rate reconciliation, block-based resampling
//! bookkeeping, a cache policy keyed by (title, rate), and playback
//! cursor semantics under play/pause control.

use vstd::prelude::*;

pub mod cache;
pub mod codec;
pub mod device;
pub mod playback;
pub mod resample;
pub mod song;
pub mod text;
pub mod wire;

verus! {

} // verus!
