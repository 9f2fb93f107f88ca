//! Little-endian integer encoding over byte sequences.

use vstd::prelude::*;

verus! {

/// Little-endian encoding of the low 16 bits of `v`.
pub open spec fn le16(v: nat) -> Seq<u8> {
    seq![(v % 256) as u8, ((v / 256) % 256) as u8]
}

/// Little-endian encoding of the low 32 bits of `v`.
pub open spec fn le32(v: nat) -> Seq<u8> {
    seq![
        (v % 256) as u8,
        ((v / 256) % 256) as u8,
        ((v / 65536) % 256) as u8,
        ((v / 16777216) % 256) as u8,
    ]
}

/// Value of the two little-endian bytes of `s` at `off`.
pub open spec fn read_le16(s: Seq<u8>, off: int) -> nat {
    (s[off] as nat) + 256 * (s[off + 1] as nat)
}

/// Value of the four little-endian bytes of `s` at `off`.
pub open spec fn read_le32(s: Seq<u8>, off: int) -> nat {
    (s[off] as nat) + 256 * (s[off + 1] as nat) + 65536 * (s[off + 2] as nat) + 16777216 * (
    s[off + 3] as nat)
}

/// Value of the four big-endian bytes of `s` at `off`.
pub open spec fn read_be32(s: Seq<u8>, off: int) -> nat {
    16777216 * (s[off] as nat) + 65536 * (s[off + 1] as nat) + 256 * (s[off + 2] as nat) + (s[off
        + 3] as nat)
}

pub proof fn lemma_le32_roundtrip(v: nat)
    requires
        v < 0x1_0000_0000,
    ensures
        read_le32(le32(v), 0) == v,
        read_le32(le32(v), 0) < 0x1_0000_0000,
{
    let b0 = v % 256;
    let q0 = v / 256;
    let b1 = q0 % 256;
    let q1 = q0 / 256;
    let b2 = q1 % 256;
    let q2 = q1 / 256;
    assert(v == b0 + 256 * q0);
    assert(q0 == b1 + 256 * q1);
    assert(q1 == b2 + 256 * q2);
    assert(q2 < 256);
    assert(v / 65536 == q1) by {
        vstd::arithmetic::div_mod::lemma_div_denominator(v as int, 256, 256);
    }
    assert(v / 16777216 == q2) by {
        vstd::arithmetic::div_mod::lemma_div_denominator(v as int, 65536, 256);
    }
}

pub proof fn lemma_le16_roundtrip(v: nat)
    requires
        v < 0x1_0000,
    ensures
        read_le16(le16(v), 0) == v,
{
}

/// Appends the little-endian bytes of `v` to `out`.
pub fn push_le32(out: &mut Vec<u8>, v: u32)
    ensures
        final(out)@ == old(out)@ + le32(v as nat),
{
    out.push((v % 256) as u8);
    out.push(((v / 256) % 256) as u8);
    out.push(((v / 65536) % 256) as u8);
    out.push(((v / 16777216) % 256) as u8);
}

/// Appends the little-endian bytes of `v` to `out`.
pub fn push_le16(out: &mut Vec<u8>, v: u16)
    ensures
        final(out)@ == old(out)@ + le16(v as nat),
{
    out.push((v % 256) as u8);
    out.push(((v / 256) % 256) as u8);
}

/// Appends `src[from..to]` to `out`.
pub fn extend_from_range(out: &mut Vec<u8>, src: &[u8], from: usize, to: usize)
    requires
        from <= to <= src@.len(),
    ensures
        final(out)@ == old(out)@ + src@.subrange(from as int, to as int),
{
    let mut i = from;
    while i < to
        invariant
            from <= i <= to <= src@.len(),
            out@ == old(out)@ + src@.subrange(from as int, i as int),
        decreases to - i,
    {
        out.push(src[i]);
        i = i + 1;
        assert(src@.subrange(from as int, i as int) == src@.subrange(from as int, i - 1).push(
            src@[i - 1],
        ));
    }
}

/// Reads a little-endian `u16` at `off`.
pub fn get_le16(s: &[u8], off: usize) -> (v: u16)
    requires
        off + 2 <= s@.len(),
    ensures
        v == read_le16(s@, off as int),
{
    (s[off] as u16) + 256 * (s[off + 1] as u16)
}

/// Reads a little-endian `u32` at `off`.
pub fn get_le32(s: &[u8], off: usize) -> (v: u32)
    requires
        off + 4 <= s@.len(),
    ensures
        v == read_le32(s@, off as int),
{
    (s[off] as u32) + 256 * (s[off + 1] as u32) + 65536 * (s[off + 2] as u32) + 16777216 * (s[off
        + 3] as u32)
}

/// Reads a big-endian `u32` at `off`.
pub fn get_be32(s: &[u8], off: usize) -> (v: u32)
    requires
        off + 4 <= s@.len(),
    ensures
        v == read_be32(s@, off as int),
{
    16777216 * (s[off] as u32) + 65536 * (s[off + 1] as u32) + 256 * (s[off + 2] as u32) + (s[off
        + 3] as u32)
}

} // verus!
