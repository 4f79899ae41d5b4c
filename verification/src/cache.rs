//! Cache policy for resampled tracks.
//!
//! A cache entry is one PCM file per (title, target rate) pair, at a path
//! derived by [`cache_path`]. Existence alone is the hit signal: a present
//! entry is returned verbatim and never revalidated or overwritten.
//! [`load_or_build`] is handed the entry's bytes when one exists, and the
//! engine's output when the rates differ; reading the file and writing the
//! returned bytes back is the caller's part.

use vstd::prelude::*;
use vstd::string::StringExecFns;

use crate::codec::decode;
use crate::codec::encodable;
use crate::codec::encode;
use crate::codec::is_wav;
use crate::codec::spec_decode;
use crate::codec::wav_bytes;
use crate::codec::wav_samples;
use crate::codec::DecodeError;
use crate::codec::lemma_wav_round_trip;

verus! {

/// Every buffer the player handles is interleaved for two channels.
pub const CHANNELS: u16 = 2;

/// The decimal digits of `n`, most significant first.
pub open spec fn dec_chars(n: int) -> Seq<char>
    recommends
        n >= 0,
    decreases n,
{
    if n < 10 {
        seq![((48 + n) as u8) as char]
    } else {
        dec_chars(n / 10).push(((48 + n % 10) as u8) as char)
    }
}

/// Appends the decimal digits of `v` to `out`.
pub fn push_decimal(out: &mut String, v: u32)
    ensures
        final(out)@ == old(out)@ + dec_chars(v as int),
    decreases v,
{
    if v < 10 {
        out.push((48 + (v as u8)) as char);
        assert(final(out)@ =~= old(out)@ + dec_chars(v as int));
    } else {
        push_decimal(out, v / 10);
        out.push((48 + ((v % 10) as u8)) as char);
        assert(final(out)@ =~= old(out)@ + dec_chars(v as int));
    }
}

/// The canonical path of the cache entry for `title` at `rate`:
/// `{dir}/{title}-{rate}Hz.wav`.
pub open spec fn spec_cache_path(dir: Seq<char>, title: Seq<char>, rate: u32) -> Seq<char> {
    dir + seq!['/'] + title + seq!['-'] + dec_chars(rate as int) + seq!['H', 'z', '.', 'w', 'a', 'v']
}

/// Builds the cache entry path for `title` at `rate` under `dir`.
pub fn cache_path(dir: &str, title: &str, rate: u32) -> (path: String)
    ensures
        path@ == spec_cache_path(dir@, title@, rate),
{
    let mut path = String::from_str(dir);
    path.push('/');
    path.append(title);
    path.push('-');
    push_decimal(&mut path, rate);
    path.push('H');
    path.push('z');
    path.push('.');
    path.push('w');
    path.push('a');
    path.push('v');
    assert(path@ =~= spec_cache_path(dir@, title@, rate));
    path
}

/// Whether an existing entry's bytes count as a hit: the file parses as a
/// PCM container. Its content is then served verbatim.
pub open spec fn spec_cache_hit(cached: Option<Seq<u8>>) -> bool {
    match cached {
        Some(b) => is_wav(b),
        None => false,
    }
}

/// The samples a load returns: a hit is served from the entry; otherwise
/// the source itself when no rate change is needed, else the engine's
/// output.
pub open spec fn spec_load_samples(
    cached: Option<Seq<u8>>,
    source: Seq<i16>,
    source_rate: u32,
    target_rate: u32,
    resampled: Option<Seq<i16>>,
) -> Seq<i16> {
    if spec_cache_hit(cached) {
        wav_samples(cached.unwrap())
    } else if source_rate == target_rate {
        source
    } else {
        match resampled {
            Some(r) => r,
            None => source,
        }
    }
}

/// The entry a load writes: one file on a miss when no file existed at all
/// and the buffer fits the container, none otherwise. An existing file is
/// never overwritten, even when it failed to parse.
pub open spec fn spec_cache_write(
    cached: Option<Seq<u8>>,
    source: Seq<i16>,
    source_rate: u32,
    target_rate: u32,
    resampled: Option<Seq<i16>>,
) -> Option<Seq<u8>> {
    if cached is Some {
        None
    } else {
        let s = spec_load_samples(cached, source, source_rate, target_rate, resampled);
        if encodable(s.len() as int, target_rate, CHANNELS) {
            Some(wav_bytes(s, target_rate, CHANNELS))
        } else {
            None
        }
    }
}

/// What one load request produced: the buffer to play, the rate it is at,
/// and the bytes of the cache entry to persist, if one is owed.
pub struct LoadOutcome {
    pub samples: Vec<i16>,
    pub rate: u32,
    pub cache_write: Option<Vec<u8>>,
}

/// Serves one load request from the cache entry's bytes (`cached`, when
/// the file exists), the freshly decoded source, and — only needed when
/// the rates differ — the Resampling Engine's output for that source.
///
/// On a hit the entry is returned verbatim at the trusted `target_rate`;
/// on a miss the returned buffer is the one to persist, and `cache_write`
/// carries its encoding unless a file already existed (never overwritten)
/// or the buffer cannot fit a container (the load then proceeds without a
/// cache file).
/// Decodes an existing cache entry. `Some` is a hit and holds the entry's
/// samples verbatim; `None` says the load has to build the buffer itself
/// (no file, or a file that does not parse). A missing rate change is
/// known before the Resampling Engine ever runs.
pub fn try_cached(cached: &Option<Vec<u8>>) -> (r: Option<Vec<i16>>)
    ensures
        r is Some <==> spec_cache_hit(cached.deep_view()),
        r matches Some(s) ==> s@ == wav_samples(cached.deep_view().unwrap()),
{
    match cached {
        Some(bytes) => match decode(bytes) {
            Ok((samples, _)) => Some(samples),
            Err(_) => None,
        },
        None => None,
    }
}

#[verifier::rlimit(50)]
pub fn load_or_build(
    cached: Option<Vec<u8>>,
    source: Vec<i16>,
    source_rate: u32,
    target_rate: u32,
    resampled: Option<Vec<i16>>,
) -> (out: LoadOutcome)
    requires
        source_rate != target_rate ==> resampled is Some,
    ensures
        out.rate == target_rate,
        out.samples@ == spec_load_samples(
            cached.deep_view(),
            source@,
            source_rate,
            target_rate,
            resampled.deep_view(),
        ),
        out.cache_write.deep_view() == spec_cache_write(
            cached.deep_view(),
            source@,
            source_rate,
            target_rate,
            resampled.deep_view(),
        ),
{
    let file_exists = cached.is_some();
    if let Some(samples) = try_cached(&cached) {
        return LoadOutcome { samples, rate: target_rate, cache_write: None };
    }
    let samples: Vec<i16> = if source_rate != target_rate {
        resampled.unwrap()
    } else {
        source
    };
    let cache_write: Option<Vec<u8>> = if file_exists {
        None
    } else {
        match encode(&samples, target_rate, CHANNELS) {
            Ok(bytes) => Some(bytes),
            Err(_) => None,
        }
    };
    LoadOutcome { samples, rate: target_rate, cache_write }
}

/// The entry a miss persists re-decodes to exactly the samples the load
/// returned — the engine's output when the rates differed, the source
/// itself when they were equal — at the target rate: persisting and
/// re-reading the cache file is lossless.
pub proof fn lemma_cache_entry_round_trip(
    source: Seq<i16>,
    source_rate: u32,
    target_rate: u32,
    resampled: Option<Seq<i16>>,
)
    requires
        spec_cache_write(None, source, source_rate, target_rate, resampled) is Some,
    ensures
        ({
            let entry = spec_cache_write(None, source, source_rate, target_rate, resampled).unwrap();
            spec_decode(entry) == Ok::<(Seq<i16>, u32), DecodeError>(
                (spec_load_samples(None, source, source_rate, target_rate, resampled), target_rate),
            )
        }),
{
    lemma_wav_round_trip(
        spec_load_samples(None, source, source_rate, target_rate, resampled),
        target_rate,
        CHANNELS,
    );
}

/// Loading twice in a row is idempotent: when a first load (no file
/// present) wrote a cache entry, a second load that finds this entry
/// returns exactly the samples the first one returned, and writes
/// nothing more — whatever the engine would hand the second call.
pub proof fn lemma_load_or_build_idempotent(
    source: Seq<i16>,
    source_rate: u32,
    target_rate: u32,
    resampled: Option<Seq<i16>>,
    resampled2: Option<Seq<i16>>,
)
    requires
        spec_cache_write(None, source, source_rate, target_rate, resampled) is Some,
    ensures
        ({
            let first = spec_load_samples(None, source, source_rate, target_rate, resampled);
            let entry = spec_cache_write(None, source, source_rate, target_rate, resampled).unwrap();
            &&& spec_load_samples(Some(entry), source, source_rate, target_rate, resampled2)
                == first
            &&& spec_cache_write(Some(entry), source, source_rate, target_rate, resampled2)
                is None
        }),
{
    let first = spec_load_samples(None, source, source_rate, target_rate, resampled);
    lemma_wav_round_trip(first, target_rate, CHANNELS);
}

/// With equal source and target rates the engine's output is never
/// consulted: the load returns the source itself, and the entry written on
/// a first load holds exactly the source's samples.
pub proof fn lemma_same_rate_copies_source(
    cached: Option<Seq<u8>>,
    source: Seq<i16>,
    rate: u32,
    resampled: Option<Seq<i16>>,
    other: Option<Seq<i16>>,
)
    ensures
        spec_load_samples(cached, source, rate, rate, resampled) == spec_load_samples(
            cached,
            source,
            rate,
            rate,
            other,
        ),
        spec_cache_write(cached, source, rate, rate, resampled) == spec_cache_write(
            cached,
            source,
            rate,
            rate,
            other,
        ),
        !spec_cache_hit(cached) ==> spec_load_samples(cached, source, rate, rate, resampled)
            == source,
        cached is None && encodable(source.len() as int, rate, CHANNELS) ==> {
            let entry = spec_cache_write(cached, source, rate, rate, resampled).unwrap();
            wav_samples(entry) == source
        },
{
    if cached is None && encodable(source.len() as int, rate, CHANNELS) {
        lemma_wav_round_trip(source, rate, CHANNELS);
    }
}

} // verus!
