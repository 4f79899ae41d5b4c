//! Little-endian byte conversions and the two's-complement word form of a
//! signed 16-bit sample, as they appear inside a PCM container.

use vstd::prelude::*;

verus! {

/// The unsigned word that stands for sample `s` on the wire
/// (two's complement).
pub open spec fn sample_word(s: i16) -> u16 {
    if s >= 0 {
        s as u16
    } else {
        (s + 0x10000) as u16
    }
}

/// The sample that word `w` stands for (inverse of [`sample_word`]).
pub open spec fn word_sample(w: u16) -> i16 {
    if w < 0x8000 {
        w as i16
    } else {
        (w - 0x10000) as i16
    }
}

/// The two little-endian bytes of `w`.
pub open spec fn le16(w: u16) -> Seq<u8> {
    seq![(w % 256) as u8, (w / 256) as u8]
}

/// The word read back from two little-endian bytes.
pub open spec fn from_le16(b0: u8, b1: u8) -> u16 {
    (b0 + 256 * b1) as u16
}

pub proof fn lemma_le16_inverse(w: u16)
    ensures
        from_le16(le16(w)[0], le16(w)[1]) == w,
{
}

/// The four little-endian bytes of `v`.
pub open spec fn le32(v: u32) -> Seq<u8> {
    seq![
        (v % 256) as u8,
        ((v / 256) % 256) as u8,
        ((v / 0x10000) % 256) as u8,
        (v / 0x1000000) as u8,
    ]
}

/// The value read back from four little-endian bytes.
pub open spec fn from_le32(b0: u8, b1: u8, b2: u8, b3: u8) -> u32 {
    (b0 + 256 * b1 + 0x10000 * b2 + 0x1000000 * b3) as u32
}

pub proof fn lemma_le32_inverse(v: u32)
    ensures
        from_le32(le32(v)[0], le32(v)[1], le32(v)[2], le32(v)[3]) == v,
{
}

/// Exec form of [`sample_word`].
pub fn sample_to_word(s: i16) -> (w: u16)
    ensures
        w == sample_word(s),
{
    if s >= 0 {
        s as u16
    } else {
        ((s as i32) + 0x10000) as u16
    }
}

/// Exec form of [`word_sample`].
pub fn word_to_sample(w: u16) -> (s: i16)
    ensures
        s == word_sample(w),
{
    if w < 0x8000 {
        w as i16
    } else {
        ((w as i32) - 0x10000) as i16
    }
}

/// Appends the two little-endian bytes of `w` to `out`.
pub fn push_le16(out: &mut Vec<u8>, w: u16)
    ensures
        final(out)@ == old(out)@ + le16(w),
{
    out.push((w % 256) as u8);
    out.push((w / 256) as u8);
    assert(final(out)@ =~= old(out)@ + le16(w));
}

/// Appends the four little-endian bytes of `v` to `out`.
pub fn push_le32(out: &mut Vec<u8>, v: u32)
    ensures
        final(out)@ == old(out)@ + le32(v),
{
    out.push((v % 256) as u8);
    out.push(((v / 256) % 256) as u8);
    out.push(((v / 0x10000) % 256) as u8);
    out.push((v / 0x1000000) as u8);
    assert(final(out)@ =~= old(out)@ + le32(v));
}

/// Reads a word from two little-endian bytes.
pub fn read_le16(b0: u8, b1: u8) -> (w: u16)
    ensures
        w == from_le16(b0, b1),
{
    (b0 as u16) + 256 * (b1 as u16)
}

/// Reads a value from four little-endian bytes.
pub fn read_le32(b0: u8, b1: u8, b2: u8, b3: u8) -> (v: u32)
    ensures
        v == from_le32(b0, b1, b2, b3),
{
    (b0 as u32) + 256 * (b1 as u32) + 0x10000 * (b2 as u32) + 0x1000000 * (b3 as u32)
}

} // verus!
