//! Codec for the PCM container the player reads and writes: a fixed
//! 44-byte header (RIFF/WAVE, one `fmt ` chunk, one `data` chunk) followed
//! by signed 16-bit little-endian samples.
//!
//! [`wav_bytes`] is the byte-level meaning of an encoded buffer;
//! [`spec_decode`] is the byte-level meaning of parsing one. Encoding
//! followed by decoding gives the samples back exactly
//! ([`lemma_wav_round_trip`]).

use vstd::prelude::*;

use crate::wire::from_le16;
use crate::wire::from_le32;
use crate::wire::le16;
use crate::wire::le32;
use crate::wire::lemma_le16_inverse;
use crate::wire::lemma_le32_inverse;
use crate::wire::push_le16;
use crate::wire::push_le32;
use crate::wire::read_le16;
use crate::wire::read_le32;
use crate::wire::sample_to_word;
use crate::wire::sample_word;
use crate::wire::word_sample;
use crate::wire::word_to_sample;

verus! {

/// Why a byte buffer was rejected as a PCM container.
#[derive(Clone, Copy, Debug, PartialEq, Eq, Structural)]
pub enum DecodeError {
    /// Shorter than one header.
    Truncated,
    /// One of the RIFF/WAVE/fmt /data tags is wrong.
    BadHeader,
    /// Not uncompressed 16-bit PCM, no channels, or inconsistent
    /// format fields.
    Unsupported,
    /// The declared chunk sizes disagree with the buffer length, or the
    /// sample data has an odd byte count.
    SizeMismatch,
}

/// Why a sample buffer could not be encoded.
#[derive(Clone, Copy, Debug, PartialEq, Eq, Structural)]
pub enum EncodeError {
    /// A container needs at least one channel.
    NoChannels,
    /// A size field of the container would not fit in 32 bits.
    TooLarge,
}

/// The sample data of `samples`, two little-endian bytes each.
pub open spec fn sample_bytes(samples: Seq<i16>) -> Seq<u8>
    decreases samples.len(),
{
    if samples.len() == 0 {
        Seq::empty()
    } else {
        sample_bytes(samples.drop_last()) + le16(sample_word(samples.last()))
    }
}

pub proof fn lemma_sample_bytes_len(samples: Seq<i16>)
    ensures
        sample_bytes(samples).len() == 2 * samples.len(),
    decreases samples.len(),
{
    if samples.len() > 0 {
        lemma_sample_bytes_len(samples.drop_last());
    }
}

pub proof fn lemma_sample_bytes_index(samples: Seq<i16>, k: int)
    requires
        0 <= k < samples.len(),
    ensures
        sample_bytes(samples).len() == 2 * samples.len(),
        sample_bytes(samples)[2 * k] == le16(sample_word(samples[k]))[0],
        sample_bytes(samples)[2 * k + 1] == le16(sample_word(samples[k]))[1],
    decreases samples.len(),
{
    lemma_sample_bytes_len(samples);
    lemma_sample_bytes_len(samples.drop_last());
    if k < samples.len() - 1 {
        lemma_sample_bytes_index(samples.drop_last(), k);
    }
}

/// The samples read back from raw sample data (`data.len()` even).
pub open spec fn data_samples(data: Seq<u8>) -> Seq<i16> {
    Seq::new((data.len() / 2) as nat, |k: int| word_sample(from_le16(data[2 * k], data[2 * k + 1])))
}

/// Reading back the sample data written for `samples` gives `samples`.
pub proof fn lemma_data_samples_inverse(samples: Seq<i16>)
    ensures
        data_samples(sample_bytes(samples)) == samples,
{
    lemma_sample_bytes_len(samples);
    assert forall|k: int| 0 <= k < samples.len() implies data_samples(sample_bytes(samples))[k]
        == samples[k] by {
        lemma_sample_bytes_index(samples, k);
        lemma_le16_inverse(sample_word(samples[k]));
    }
    assert(data_samples(sample_bytes(samples)) =~= samples);
}

/// Whether a buffer of `n` samples at this rate and channel count fits the
/// container's 16- and 32-bit size fields.
pub open spec fn encodable(n: int, rate: u32, channels: u16) -> bool {
    &&& 1 <= channels
    &&& 2 * (channels as int) <= 0xffff
    &&& 36 + 2 * n <= 0xffff_ffff
    &&& 2 * (rate as int) * (channels as int) <= 0xffff_ffff
}

/// The 44-byte header written before `n` samples at `rate` with `channels`
/// channels.
pub open spec fn wav_header(n: int, rate: u32, channels: u16) -> Seq<u8>
    recommends
        encodable(n, rate, channels),
{
    seq![82u8, 73u8, 70u8, 70u8]  // "RIFF"
     + le32((36 + 2 * n) as u32) + seq![87u8, 65u8, 86u8, 69u8]  // "WAVE"
     + seq![102u8, 109u8, 116u8, 32u8]  // "fmt "
     + le32(16u32)  // fmt chunk size
     + le16(1u16)  // uncompressed PCM
     + le16(channels) + le32(rate) + le32(
        (2 * (rate as int) * (channels as int)) as u32,
    )  // byte rate
     + le16((2 * (channels as int)) as u16)  // frame size in bytes
     + le16(16u16)  // bits per sample
     + seq![100u8, 97u8, 116u8, 97u8]  // "data"
     + le32((2 * n) as u32)
}

/// The whole container: header, then sample data.
pub open spec fn wav_bytes(samples: Seq<i16>, rate: u32, channels: u16) -> Seq<u8>
    recommends
        encodable(samples.len() as int, rate, channels),
{
    wav_header(samples.len() as int, rate, channels) + sample_bytes(samples)
}

/// The channel count a container declares.
pub open spec fn wav_channels(b: Seq<u8>) -> u16
    recommends
        b.len() >= 44,
{
    from_le16(b[22], b[23])
}

/// The sample rate a container declares.
pub open spec fn wav_rate(b: Seq<u8>) -> u32
    recommends
        b.len() >= 44,
{
    from_le32(b[24], b[25], b[26], b[27])
}

/// The samples a container holds.
pub open spec fn wav_samples(b: Seq<u8>) -> Seq<i16>
    recommends
        b.len() >= 44,
{
    data_samples(b.subrange(44, b.len() as int))
}

/// The four chunk tags stand where they must.
pub open spec fn wav_magic_ok(b: Seq<u8>) -> bool
    recommends
        b.len() >= 44,
{
    &&& b[0] == 82 && b[1] == 73 && b[2] == 70 && b[3] == 70
    &&& b[8] == 87 && b[9] == 65 && b[10] == 86 && b[11] == 69
    &&& b[12] == 102 && b[13] == 109 && b[14] == 116 && b[15] == 32
    &&& b[36] == 100 && b[37] == 97 && b[38] == 116 && b[39] == 97
}

/// The format fields say: uncompressed 16-bit PCM, at least one channel,
/// and the derived fields (byte rate, frame size) agree.
pub open spec fn wav_format_ok(b: Seq<u8>) -> bool
    recommends
        b.len() >= 44,
{
    &&& from_le32(b[16], b[17], b[18], b[19]) == 16
    &&& from_le16(b[20], b[21]) == 1
    &&& wav_channels(b) >= 1
    &&& from_le32(b[28], b[29], b[30], b[31]) == 2 * (wav_rate(b) as int) * (wav_channels(b) as int)
    &&& from_le16(b[32], b[33]) == 2 * (wav_channels(b) as int)
    &&& from_le16(b[34], b[35]) == 16
}

/// The declared sizes agree with the buffer length, and the sample data is
/// a whole number of 16-bit words.
pub open spec fn wav_sizes_ok(b: Seq<u8>) -> bool
    recommends
        b.len() >= 44,
{
    &&& from_le32(b[4], b[5], b[6], b[7]) == b.len() - 8
    &&& from_le32(b[40], b[41], b[42], b[43]) == b.len() - 44
    &&& (b.len() - 44) % 2 == 0
}

/// A byte buffer this codec accepts.
pub open spec fn is_wav(b: Seq<u8>) -> bool {
    &&& b.len() >= 44
    &&& wav_magic_ok(b)
    &&& wav_format_ok(b)
    &&& wav_sizes_ok(b)
}

/// What parsing a buffer returns, checks in the order the parser makes
/// them.
pub open spec fn spec_decode(b: Seq<u8>) -> Result<(Seq<i16>, u32), DecodeError> {
    if b.len() < 44 {
        Err(DecodeError::Truncated)
    } else if !wav_magic_ok(b) {
        Err(DecodeError::BadHeader)
    } else if !wav_format_ok(b) {
        Err(DecodeError::Unsupported)
    } else if !wav_sizes_ok(b) {
        Err(DecodeError::SizeMismatch)
    } else {
        Ok((wav_samples(b), wav_rate(b)))
    }
}

/// Encodes `samples` as a PCM container at `rate` with `channels`
/// channels, when its size fields fit; says why not otherwise.
pub fn encode(samples: &Vec<i16>, rate: u32, channels: u16) -> (r: Result<Vec<u8>, EncodeError>)
    ensures
        r is Ok <==> encodable(samples@.len() as int, rate, channels),
        r matches Ok(b) ==> b@ == wav_bytes(samples@, rate, channels),
        channels == 0 ==> r == Err::<Vec<u8>, EncodeError>(EncodeError::NoChannels),
        channels >= 1 && !encodable(samples@.len() as int, rate, channels) ==> r == Err::<
            Vec<u8>,
            EncodeError,
        >(EncodeError::TooLarge),
{
    if channels == 0 {
        return Err(EncodeError::NoChannels);
    }
    if channels > 0x7fff {
        return Err(EncodeError::TooLarge);
    }
    if samples.len() > ((0xffff_ffffu32 as usize) - 36) / 2 {
        return Err(EncodeError::TooLarge);
    }
    proof {
        assert((rate as u64) * (channels as u64) <= 0xffff_ffffu64 * 0xffffu64) by (nonlinear_arith)
            requires
                rate as u64 <= 0xffff_ffffu64,
                channels as u64 <= 0xffffu64,
        ;
        assert(2 * ((rate as int) * (channels as int)) == 2 * (rate as int) * (channels as int))
            by (nonlinear_arith);
    }
    let byte_rate_wide: u64 = 2 * ((rate as u64) * (channels as u64));
    if byte_rate_wide > 0xffff_ffffu64 {
        assert(!encodable(samples@.len() as int, rate, channels));
        return Err(EncodeError::TooLarge);
    }
    let n: u32 = samples.len() as u32;
    let data_len: u32 = 2 * n;
    let byte_rate: u32 = byte_rate_wide as u32;
    let ghost n_int = samples@.len() as int;
    assert(encodable(n_int, rate, channels));

    let mut out: Vec<u8> = Vec::new();
    out.push(82);
    out.push(73);
    out.push(70);
    out.push(70);
    push_le32(&mut out, 36 + data_len);
    out.push(87);
    out.push(65);
    out.push(86);
    out.push(69);
    out.push(102);
    out.push(109);
    out.push(116);
    out.push(32);
    push_le32(&mut out, 16);
    push_le16(&mut out, 1);
    push_le16(&mut out, channels);
    push_le32(&mut out, rate);
    push_le32(&mut out, byte_rate);
    push_le16(&mut out, 2 * channels);
    push_le16(&mut out, 16);
    out.push(100);
    out.push(97);
    out.push(116);
    out.push(97);
    push_le32(&mut out, data_len);
    assert(out@ =~= wav_header(n_int, rate, channels));

    let mut i: usize = 0;
    while i < samples.len()
        invariant
            0 <= i <= samples@.len(),
            out@ == wav_header(n_int, rate, channels) + sample_bytes(samples@.subrange(0, i as int)),
        decreases samples@.len() - i,
    {
        let w = sample_to_word(samples[i]);
        push_le16(&mut out, w);
        proof {
            let pre = samples@.subrange(0, i as int);
            let post = samples@.subrange(0, i + 1);
            assert(post.drop_last() =~= pre);
            assert(post.last() == samples@[i as int]);
            assert(out@ =~= wav_header(n_int, rate, channels) + sample_bytes(post));
        }
        i += 1;
    }
    assert(samples@.subrange(0, samples@.len() as int) =~= samples@);
    Ok(out)
}

/// Parses a PCM container; returns its samples and declared rate, or why
/// the buffer was rejected.
#[verifier::rlimit(50)]
pub fn decode(bytes: &Vec<u8>) -> (r: Result<(Vec<i16>, u32), DecodeError>)
    ensures
        r is Ok <==> is_wav(bytes@),
        r matches Ok(p) ==> p.0@ == wav_samples(bytes@) && p.1 == wav_rate(bytes@),
        r matches Err(e) ==> spec_decode(bytes@) == Err::<(Seq<i16>, u32), DecodeError>(e),
{
    let b = bytes;
    if b.len() < 44 {
        return Err(DecodeError::Truncated);
    }
    let magic_ok = b[0] == 82 && b[1] == 73 && b[2] == 70 && b[3] == 70 && b[8] == 87 && b[9] == 65
        && b[10] == 86 && b[11] == 69 && b[12] == 102 && b[13] == 109 && b[14] == 116 && b[15] == 32
        && b[36] == 100 && b[37] == 97 && b[38] == 116 && b[39] == 97;
    if !magic_ok {
        return Err(DecodeError::BadHeader);
    }
    let channels = read_le16(b[22], b[23]);
    let rate = read_le32(b[24], b[25], b[26], b[27]);
    proof {
        assert((rate as u64) * (channels as u64) <= 0xffff_ffffu64 * 0xffffu64) by (nonlinear_arith)
            requires
                rate as u64 <= 0xffff_ffffu64,
                channels as u64 <= 0xffffu64,
        ;
        assert(2 * ((rate as int) * (channels as int)) == 2 * (rate as int) * (channels as int))
            by (nonlinear_arith);
    }
    let byte_rate_wide: u64 = 2 * ((rate as u64) * (channels as u64));
    let format_ok = read_le32(b[16], b[17], b[18], b[19]) == 16 && read_le16(b[20], b[21]) == 1
        && channels >= 1 && (read_le32(b[28], b[29], b[30], b[31]) as u64) == byte_rate_wide
        && (read_le16(b[32], b[33]) as u32) == 2 * (channels as u32) && read_le16(b[34], b[35])
        == 16;
    if !format_ok {
        return Err(DecodeError::Unsupported);
    }
    let sizes_ok = (read_le32(b[4], b[5], b[6], b[7]) as usize) == b.len() - 8 && (read_le32(
        b[40],
        b[41],
        b[42],
        b[43],
    ) as usize) == b.len() - 44 && (b.len() - 44) % 2 == 0;
    if !sizes_ok {
        return Err(DecodeError::SizeMismatch);
    }
    let n: usize = (b.len() - 44) / 2;
    let mut samples: Vec<i16> = Vec::new();
    let mut k: usize = 0;
    while k < n
        invariant
            0 <= k <= n,
            n == (b@.len() - 44) / 2,
            44 <= b@.len() <= usize::MAX,
            samples@.len() == k,
            forall|j: int| 0 <= j < k ==> samples@[j] == wav_samples(b@)[j],
        decreases n - k,
    {
        proof {
            assert(2 * (k as int) + 1 < 2 * (n as int));
            assert(2 * (n as int) <= b@.len() - 44);
        }
        let w = read_le16(b[44 + 2 * k], b[44 + 2 * k + 1]);
        let s = word_to_sample(w);
        proof {
            let data = b@.subrange(44, b@.len() as int);
            assert(data[2 * k as int] == b@[44 + 2 * k as int]);
            assert(data[2 * k as int + 1] == b@[44 + 2 * k as int + 1]);
        }
        samples.push(s);
        k += 1;
    }
    assert(samples@ =~= wav_samples(b@));
    Ok((samples, rate))
}

#[verifier::spinoff_prover]
proof fn lemma_wav_bytes_shape(samples: Seq<i16>, rate: u32, channels: u16)
    ensures
        wav_header(samples.len() as int, rate, channels).len() == 44,
        wav_bytes(samples, rate, channels).len() == 44 + 2 * samples.len(),
        forall|i: int|
            0 <= i < 44 ==> #[trigger] wav_bytes(samples, rate, channels)[i] == wav_header(
                samples.len() as int,
                rate,
                channels,
            )[i],
        wav_bytes(samples, rate, channels).subrange(
            44,
            wav_bytes(samples, rate, channels).len() as int,
        ) =~= sample_bytes(samples),
{
    lemma_sample_bytes_len(samples);
}

#[verifier::spinoff_prover]
#[verifier::rlimit(100)]
proof fn lemma_wav_bytes_magic(samples: Seq<i16>, rate: u32, channels: u16)
    ensures
        wav_magic_ok(wav_bytes(samples, rate, channels)),
{
    let n = samples.len() as int;
    let b = wav_bytes(samples, rate, channels);
    let h = wav_header(n, rate, channels);
    lemma_wav_bytes_shape(samples, rate, channels);
    assert(h.subrange(0, 4) =~= seq![82u8, 73u8, 70u8, 70u8]);
    assert(h.subrange(8, 12) =~= seq![87u8, 65u8, 86u8, 69u8]);
    assert(h.subrange(12, 16) =~= seq![102u8, 109u8, 116u8, 32u8]);
    assert(h.subrange(36, 40) =~= seq![100u8, 97u8, 116u8, 97u8]);
}

#[verifier::spinoff_prover]
#[verifier::rlimit(100)]
proof fn lemma_wav_bytes_format(samples: Seq<i16>, rate: u32, channels: u16)
    requires
        encodable(samples.len() as int, rate, channels),
    ensures
        wav_format_ok(wav_bytes(samples, rate, channels)),
        wav_rate(wav_bytes(samples, rate, channels)) == rate,
        wav_channels(wav_bytes(samples, rate, channels)) == channels,
{
    let n = samples.len() as int;
    let b = wav_bytes(samples, rate, channels);
    let h = wav_header(n, rate, channels);
    lemma_wav_bytes_shape(samples, rate, channels);
    assert(h.subrange(16, 20) =~= le32(16u32));
    assert(h.subrange(20, 22) =~= le16(1u16));
    assert(h.subrange(22, 24) =~= le16(channels));
    assert(h.subrange(24, 28) =~= le32(rate));
    assert(h.subrange(28, 32) =~= le32((2 * (rate as int) * (channels as int)) as u32));
    assert(h.subrange(32, 34) =~= le16((2 * (channels as int)) as u16));
    assert(h.subrange(34, 36) =~= le16(16u16));
    lemma_le32_inverse(16u32);
    lemma_le16_inverse(1u16);
    lemma_le16_inverse(channels);
    lemma_le32_inverse(rate);
    lemma_le32_inverse((2 * (rate as int) * (channels as int)) as u32);
    lemma_le16_inverse((2 * (channels as int)) as u16);
    lemma_le16_inverse(16u16);
    assert(wav_channels(b) == channels);
    assert(wav_rate(b) == rate);
}

#[verifier::spinoff_prover]
#[verifier::rlimit(100)]
proof fn lemma_wav_bytes_sizes(samples: Seq<i16>, rate: u32, channels: u16)
    requires
        encodable(samples.len() as int, rate, channels),
    ensures
        wav_sizes_ok(wav_bytes(samples, rate, channels)),
{
    let n = samples.len() as int;
    let b = wav_bytes(samples, rate, channels);
    let h = wav_header(n, rate, channels);
    lemma_wav_bytes_shape(samples, rate, channels);
    assert(h.subrange(4, 8) =~= le32((36 + 2 * n) as u32));
    assert(h.subrange(40, 44) =~= le32((2 * n) as u32));
    lemma_le32_inverse((36 + 2 * n) as u32);
    lemma_le32_inverse((2 * n) as u32);
}

/// Decoding what [`encode`] wrote gives back exactly the samples, rate and
/// channel count that were encoded: the container round-trips losslessly.
#[verifier::spinoff_prover]
pub proof fn lemma_wav_round_trip(samples: Seq<i16>, rate: u32, channels: u16)
    requires
        encodable(samples.len() as int, rate, channels),
    ensures
        is_wav(wav_bytes(samples, rate, channels)),
        wav_samples(wav_bytes(samples, rate, channels)) == samples,
        wav_rate(wav_bytes(samples, rate, channels)) == rate,
        wav_channels(wav_bytes(samples, rate, channels)) == channels,
        spec_decode(wav_bytes(samples, rate, channels)) == Ok::<(Seq<i16>, u32), DecodeError>(
            (samples, rate),
        ),
{
    lemma_wav_bytes_shape(samples, rate, channels);
    lemma_wav_bytes_magic(samples, rate, channels);
    lemma_wav_bytes_format(samples, rate, channels);
    lemma_wav_bytes_sizes(samples, rate, channels);
    lemma_data_samples_inverse(samples);
}

} // verus!
