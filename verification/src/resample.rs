//! Bookkeeping around the block-based Resampling Engine.
//!
//! The engine converts one fixed-size block of frames per channel at a
//! time. This module holds the verified parts of that pipeline: splitting
//! an interleaved buffer into channels, cutting a channel into fixed-size
//! blocks padded with a fill value, computing the block sizes a
//! fixed-ratio converter derives from a rate pair, and interleaving the
//! converted channels back into one flat buffer.

use vstd::prelude::*;
use vstd::arithmetic::div_mod::lemma_fundamental_div_mod;
use vstd::arithmetic::div_mod::lemma_fundamental_div_mod_converse;
use vstd::arithmetic::div_mod::lemma_mod_bound;

verus! {

/// Channel `c` of an interleaved buffer with `channels` channels.
pub open spec fn spec_channel<T>(input: Seq<T>, channels: int, c: int) -> Seq<T>
    recommends
        channels >= 1,
        0 <= c < channels,
        input.len() as int % channels == 0,
{
    Seq::new((input.len() as int / channels) as nat, |j: int| input[j * channels + c])
}

/// The interleaved buffer built from `channels` channel sequences of
/// `frames` frames each: frame by frame, one sample per channel.
pub open spec fn spec_interleave<T>(chans: Seq<Seq<T>>, frames: int, channels: int) -> Seq<T>
    recommends
        channels == chans.len() >= 1,
        forall|c: int| 0 <= c < chans.len() ==> (#[trigger] chans[c]).len() == frames,
{
    Seq::new((frames * channels) as nat, |i: int| chans[i % channels][i / channels])
}

/// Splits an interleaved buffer into its per-channel sequences.
pub fn deinterleave<T: Copy>(input: &Vec<T>, channels: usize) -> (out: Vec<Vec<T>>)
    requires
        channels >= 1,
        input@.len() as int % (channels as int) == 0,
    ensures
        out@.len() == channels,
        forall|c: int|
            0 <= c < channels ==> (#[trigger] out@[c])@ == spec_channel(
                input@,
                channels as int,
                c,
            ),
{
    let len = input.len();
    let frames = len / channels;
    proof {
        lemma_fundamental_div_mod(len as int, channels as int);
        assert((channels as int) * (frames as int) == len as int);
        assert((frames as int) * (channels as int) == (channels as int) * (frames as int))
            by (nonlinear_arith);
    }
    assert(frames * channels == len);
    let mut out: Vec<Vec<T>> = Vec::new();
    let mut c: usize = 0;
    while c < channels
        invariant
            0 <= c <= channels,
            channels >= 1,
            len == input@.len(),
            frames == len as int / channels as int,
            frames * channels == len,
            out@.len() == c,
            forall|cc: int|
                0 <= cc < c ==> (#[trigger] out@[cc])@ == spec_channel(
                    input@,
                    channels as int,
                    cc,
                ),
        decreases channels - c,
    {
        let mut chan: Vec<T> = Vec::new();
        let mut j: usize = 0;
        while j < frames
            invariant
                0 <= j <= frames,
                0 <= c < channels,
                len == input@.len(),
                frames * channels == len,
                chan@.len() == j,
                forall|jj: int|
                    0 <= jj < j ==> #[trigger] chan@[jj] == input@[jj * (channels as int)
                        + c as int],
            decreases frames - j,
        {
            proof {
                assert((j as int) * (channels as int) + (c as int) < len as int)
                    by (nonlinear_arith)
                    requires
                        0 <= (j as int) < (frames as int),
                        0 <= (c as int) < (channels as int),
                        (frames as int) * (channels as int) == len as int,
                ;
            }
            chan.push(input[j * channels + c]);
            j += 1;
        }
        assert(chan@ =~= spec_channel(input@, channels as int, c as int));
        out.push(chan);
        c += 1;
    }
    out
}

/// `frames` samples of a channel starting at `start`, padded at the end
/// with `fill` where the channel runs out.
pub open spec fn spec_padded_block<T>(chan: Seq<T>, start: int, frames: int, fill: T) -> Seq<T> {
    Seq::new(
        frames as nat,
        |i: int|
            if start + i < chan.len() {
                chan[start + i]
            } else {
                fill
            },
    )
}

/// Cuts one block of `frames` samples out of a channel, padding past the
/// end with `fill` so every block handed to the engine is full-size.
pub fn padded_block<T: Copy>(chan: &Vec<T>, start: usize, frames: usize, fill: T) -> (out: Vec<T>)
    requires
        start + frames <= usize::MAX,
    ensures
        out@ == spec_padded_block(chan@, start as int, frames as int, fill),
{
    let mut out: Vec<T> = Vec::new();
    let mut i: usize = 0;
    while i < frames
        invariant
            0 <= i <= frames,
            start + frames <= usize::MAX,
            out@.len() == i,
            forall|k: int|
                0 <= k < i ==> #[trigger] out@[k] == spec_padded_block(
                    chan@,
                    start as int,
                    frames as int,
                    fill,
                )[k],
        decreases frames - i,
    {
        if start + i < chan.len() {
            out.push(chan[start + i]);
        } else {
            out.push(fill);
        }
        i += 1;
    }
    assert(out@ =~= spec_padded_block(chan@, start as int, frames as int, fill));
    out
}

/// Interleaves equal-length channel sequences back into one flat buffer.
pub fn interleave<T: Copy>(chans: &Vec<Vec<T>>) -> (out: Vec<T>)
    requires
        chans@.len() >= 1,
        forall|c: int| 0 <= c < chans@.len() ==> (#[trigger] chans@[c])@.len() == chans@[0]@.len(),
        chans@[0]@.len() * chans@.len() <= usize::MAX,
    ensures
        out@ == spec_interleave(
            chans@.map_values(|v: Vec<T>| v@),
            chans@[0]@.len() as int,
            chans@.len() as int,
        ),
{
    let channels = chans.len();
    let frames = chans[0].len();
    let mut out: Vec<T> = Vec::new();
    let mut f: usize = 0;
    while f < frames
        invariant
            0 <= f <= frames,
            channels == chans@.len() >= 1,
            frames == chans@[0]@.len(),
            forall|c: int| 0 <= c < channels ==> (#[trigger] chans@[c])@.len() == frames,
            frames * channels <= usize::MAX,
            out@.len() == f * channels,
            forall|i: int|
                0 <= i < out@.len() ==> #[trigger] out@[i] == chans@[i % (channels as int)]@[i / (
                channels as int)],
        decreases frames - f,
    {
        let mut c: usize = 0;
        while c < channels
            invariant
                0 <= c <= channels,
                0 <= f < frames,
                channels == chans@.len() >= 1,
                frames == chans@[0]@.len(),
                forall|cc: int| 0 <= cc < channels ==> (#[trigger] chans@[cc])@.len() == frames,
                frames * channels <= usize::MAX,
                out@.len() == f * channels + c,
                forall|i: int|
                    0 <= i < out@.len() ==> #[trigger] out@[i] == chans@[i % (channels as int)]@[i
                        / (channels as int)],
            decreases channels - c,
        {
            proof {
                assert((f as int) * (channels as int) + (c as int) < (frames as int) * (
                channels as int)) by (nonlinear_arith)
                    requires
                        0 <= (f as int) < (frames as int),
                        0 <= (c as int) < (channels as int),
                ;
                lemma_fundamental_div_mod_converse(
                    (f as int) * (channels as int) + (c as int),
                    channels as int,
                    f as int,
                    c as int,
                );
            }
            out.push(chans[c][f]);
            c += 1;
        }
        proof {
            assert((f as int) * (channels as int) + (channels as int) == ((f + 1) as int) * (
            channels as int)) by (nonlinear_arith);
        }
        f += 1;
    }
    proof {
        let m = chans@.map_values(|v: Vec<T>| v@);
        assert(out@ =~= spec_interleave(m, frames as int, channels as int));
    }
    out
}

/// Interleaving the channels split off one buffer gives the buffer back:
/// the de-interleave and re-interleave bookkeeping loses nothing.
pub proof fn lemma_interleave_of_channels<T>(input: Seq<T>, channels: int)
    requires
        channels >= 1,
        input.len() as int % channels == 0,
    ensures
        spec_interleave(
            Seq::new(channels as nat, |c: int| spec_channel(input, channels, c)),
            input.len() as int / channels,
            channels,
        ) == input,
{
    let frames = input.len() as int / channels;
    lemma_fundamental_div_mod(input.len() as int, channels);
    let chans = Seq::new(channels as nat, |c: int| spec_channel(input, channels, c));
    let re = spec_interleave(chans, frames, channels);
    assert forall|i: int| 0 <= i < input.len() implies re[i] == input[i] by {
        lemma_fundamental_div_mod(i, channels);
        lemma_mod_bound(i, channels);
        let q = i / channels;
        let r = i % channels;
        assert(0 <= q < frames) by (nonlinear_arith)
            requires
                i == channels * q + r,
                0 <= r < channels,
                0 <= i < frames * channels,
        ;
        assert(re[i] == spec_channel(input, channels, r)[q]);
        assert(spec_channel(input, channels, r)[q] == input[q * channels + r]);
    }
    assert(re =~= input);
}

/// Greatest common divisor by Euclid's rule.
pub open spec fn spec_gcd(a: int, b: int) -> int
    recommends
        a >= 0,
        b >= 0,
    decreases b,
{
    if b <= 0 {
        a
    } else {
        spec_gcd(b, a % b)
    }
}

pub proof fn lemma_gcd_bounds(a: int, b: int)
    requires
        a >= 1,
        b >= 0,
    ensures
        spec_gcd(a, b) >= 1,
        b >= 1 ==> spec_gcd(a, b) <= b,
    decreases b,
{
    if b >= 1 {
        lemma_mod_bound(a, b);
        if a % b == 0 {
            assert(spec_gcd(a, b) == spec_gcd(b, 0) == b);
        } else {
            lemma_gcd_bounds(b, a % b);
        }
    }
}

/// Exec form of [`spec_gcd`].
pub fn gcd(a: u64, b: u64) -> (g: u64)
    ensures
        g as int == spec_gcd(a as int, b as int),
{
    let mut x = a;
    let mut y = b;
    while y != 0
        invariant
            spec_gcd(x as int, y as int) == spec_gcd(a as int, b as int),
        decreases y,
    {
        let r = x % y;
        x = y;
        y = r;
    }
    x
}

/// How many full blocks of `chunk` frames cover `len` frames (the last
/// block padded).
pub open spec fn spec_blocks(len: int, chunk: int) -> int
    recommends
        len >= 0,
        chunk >= 1,
{
    if len % chunk == 0 {
        len / chunk
    } else {
        len / chunk + 1
    }
}

/// Exec form of [`spec_blocks`].
pub fn block_count(len: usize, chunk: usize) -> (n: usize)
    requires
        chunk >= 1,
    ensures
        n as int == spec_blocks(len as int, chunk as int),
{
    let q = len / chunk;
    if len % chunk == 0 {
        q
    } else {
        proof {
            lemma_fundamental_div_mod(len as int, chunk as int);
            assert(2 * (q as int) <= (q as int) * (chunk as int)) by (nonlinear_arith)
                requires
                    (q as int) >= 0,
                    (chunk as int) >= 2,
            ;
        }
        q + 1
    }
}

/// The input block size a fixed-ratio converter derives from a rate pair
/// and a wanted chunk size: whole ratio units of `from / gcd` frames,
/// enough of them to reach the wanted chunk.
pub open spec fn spec_block_in(from: int, to: int, chunk: int) -> int
    recommends
        from >= 1,
        to >= 1,
        chunk >= 1,
{
    let g = spec_gcd(from, to);
    spec_blocks(chunk, to / g) * (from / g)
}

/// The matching output block size: the same number of ratio units, each
/// of `to / gcd` frames.
pub open spec fn spec_block_out(from: int, to: int, chunk: int) -> int
    recommends
        from >= 1,
        to >= 1,
        chunk >= 1,
{
    let g = spec_gcd(from, to);
    spec_blocks(chunk, to / g) * (to / g)
}

/// The block sizes the engine will use for one rate pair: `Some((input
/// frames, output frames))` per block and per channel, or `None` when a
/// rate is zero (the pair the engine structurally cannot handle) or a
/// block size would not fit the machine.
pub fn resampler_block_sizes(from_rate: u32, to_rate: u32, chunk_frames: usize) -> (r: Option<
    (usize, usize),
>)
    requires
        chunk_frames >= 1,
    ensures
        r is Some <==> from_rate >= 1 && to_rate >= 1 && spec_block_in(
            from_rate as int,
            to_rate as int,
            chunk_frames as int,
        ) <= usize::MAX && spec_block_out(
            from_rate as int,
            to_rate as int,
            chunk_frames as int,
        ) <= usize::MAX,
        r matches Some(p) ==> p.0 as int == spec_block_in(
            from_rate as int,
            to_rate as int,
            chunk_frames as int,
        ) && p.1 as int == spec_block_out(from_rate as int, to_rate as int, chunk_frames as int),
{
    if from_rate == 0 || to_rate == 0 {
        return None;
    }
    let g = gcd(from_rate as u64, to_rate as u64);
    proof {
        lemma_gcd_bounds(from_rate as int, to_rate as int);
    }
    let ratio_out: u64 = (to_rate as u64) / g;
    let ratio_in: u64 = (from_rate as u64) / g;
    proof {
        assert(ratio_out >= 1) by (nonlinear_arith)
            requires
                ratio_out as int == (to_rate as int) / (g as int),
                1 <= g as int <= to_rate as int,
        ;
    }
    let chunk: u64 = chunk_frames as u64;
    let q: u64 = chunk / ratio_out;
    let fc: u128 = if chunk % ratio_out == 0 {
        q as u128
    } else {
        (q as u128) + 1
    };
    proof {
        assert(fc * (ratio_in as u128) <= 0x1_0000_0000_0000_0000u128 * 0xffff_ffff_ffff_ffffu128)
            by (nonlinear_arith)
            requires
                fc <= 0x1_0000_0000_0000_0000u128,
                ratio_in as u128 <= 0xffff_ffff_ffff_ffffu128,
        ;
        assert(fc * (ratio_out as u128) <= 0x1_0000_0000_0000_0000u128 * 0xffff_ffff_ffff_ffffu128)
            by (nonlinear_arith)
            requires
                fc <= 0x1_0000_0000_0000_0000u128,
                ratio_out as u128 <= 0xffff_ffff_ffff_ffffu128,
        ;
    }
    let in128: u128 = fc * (ratio_in as u128);
    let out128: u128 = fc * (ratio_out as u128);
    if in128 > usize::MAX as u128 || out128 > usize::MAX as u128 {
        return None;
    }
    Some((in128 as usize, out128 as usize))
}

/// The flat buffer length the engine's output will have: one output block
/// per input block per channel, interleaved. `None` when it would not fit
/// the machine.
pub fn expected_output_len(len0: usize, in_frames: usize, out_frames: usize, channels: usize) -> (r:
    Option<usize>)
    requires
        in_frames >= 1,
        channels >= 1,
    ensures
        r matches Some(v) ==> v as int == spec_blocks(len0 as int, in_frames as int) * (
        out_frames as int) * (channels as int),
        r is Some <==> spec_blocks(len0 as int, in_frames as int) * (out_frames as int) * (
        channels as int) <= usize::MAX,
{
    let blocks = block_count(len0, in_frames);
    let b128: u128 = blocks as u128;
    let o128: u128 = out_frames as u128;
    let c128: u128 = channels as u128;
    proof {
        assert(b128 * o128 <= 0xffff_ffff_ffff_ffffu128 * 0xffff_ffff_ffff_ffffu128)
            by (nonlinear_arith)
            requires
                b128 <= 0xffff_ffff_ffff_ffffu128,
                o128 <= 0xffff_ffff_ffff_ffffu128,
        ;
    }
    let per_channel: u128 = b128 * o128;
    if per_channel > usize::MAX as u128 {
        proof {
            assert(per_channel * c128 >= per_channel) by (nonlinear_arith)
                requires
                    c128 >= 1,
                    per_channel >= 0,
            ;
        }
        return None;
    }
    proof {
        assert(per_channel * c128 <= 0xffff_ffff_ffff_ffffu128 * 0xffff_ffff_ffff_ffffu128)
            by (nonlinear_arith)
            requires
                per_channel <= 0xffff_ffff_ffff_ffffu128,
                c128 <= 0xffff_ffff_ffff_ffffu128,
        ;
    }
    let total: u128 = per_channel * c128;
    if total > usize::MAX as u128 {
        return None;
    }
    Some(total as usize)
}

} // verus!
