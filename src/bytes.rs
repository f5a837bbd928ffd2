//! Little-endian integers as byte sequences: how they are read and written.
use vstd::prelude::*;

verus! {

/// The 16-bit integer stored little-endian at `s[i..i + 2]`.
pub open spec fn u16_le(s: Seq<u8>, i: int) -> u16 {
    (s[i] as u16) | ((s[i + 1] as u16) << 8u16)
}

/// The 32-bit integer stored little-endian at `s[i..i + 4]`.
pub open spec fn u32_le(s: Seq<u8>, i: int) -> u32 {
    (u16_le(s, i) as u32) | ((u16_le(s, i + 2) as u32) << 16u32)
}

/// The 64-bit integer stored little-endian at `s[i..i + 8]`.
pub open spec fn u64_le(s: Seq<u8>, i: int) -> u64 {
    (u32_le(s, i) as u64) | ((u32_le(s, i + 4) as u64) << 32u64)
}

/// The two bytes of `v`, least significant first.
pub open spec fn u16_bytes(v: u16) -> Seq<u8> {
    seq![v as u8, (v >> 8u16) as u8]
}

/// The four bytes of `v`, least significant first.
pub open spec fn u32_bytes(v: u32) -> Seq<u8> {
    u16_bytes(v as u16) + u16_bytes((v >> 16u32) as u16)
}

/// The eight bytes of `v`, least significant first.
pub open spec fn u64_bytes(v: u64) -> Seq<u8> {
    u32_bytes(v as u32) + u32_bytes((v >> 32u64) as u32)
}

pub proof fn lemma_u16_split(v: u16)
    ensures
        ((v as u8) as u16) | ((((v >> 8u16) as u8) as u16) << 8u16) == v,
{
    assert(((v as u8) as u16) | ((((v >> 8u16) as u8) as u16) << 8u16) == v) by (bit_vector);
}

pub proof fn lemma_u32_split(v: u32)
    ensures
        ((v as u16) as u32) | ((((v >> 16u32) as u16) as u32) << 16u32) == v,
{
    assert(((v as u16) as u32) | ((((v >> 16u32) as u16) as u32) << 16u32) == v) by (bit_vector);
}

pub proof fn lemma_u64_split(v: u64)
    ensures
        ((v as u32) as u64) | ((((v >> 32u64) as u32) as u64) << 32u64) == v,
{
    assert(((v as u32) as u64) | ((((v >> 32u64) as u32) as u64) << 32u64) == v) by (bit_vector);
}

pub proof fn lemma_u16_zero()
    ensures
        u16_bytes(0) == seq![0u8, 0u8],
{
    assert((0u16 as u8) == 0u8 && ((0u16 >> 8u16) as u8) == 0u8) by (bit_vector);
    assert(u16_bytes(0) =~= seq![0u8, 0u8]);
}

/// Reading back the bytes that `u16_bytes` writes gives the value written.
pub proof fn lemma_u16_round_trip(s: Seq<u8>, i: int, v: u16)
    requires
        0 <= i,
        i + 2 <= s.len(),
        s.subrange(i, i + 2) == u16_bytes(v),
    ensures
        u16_le(s, i) == v,
{
    assert(s[i] == s.subrange(i, i + 2)[0]);
    assert(s[i + 1] == s.subrange(i, i + 2)[1]);
    lemma_u16_split(v);
}

/// Reading back the bytes that `u32_bytes` writes gives the value written.
pub proof fn lemma_u32_round_trip(s: Seq<u8>, i: int, v: u32)
    requires
        0 <= i,
        i + 4 <= s.len(),
        s.subrange(i, i + 4) == u32_bytes(v),
    ensures
        u32_le(s, i) == v,
{
    assert(s.subrange(i, i + 2) =~= s.subrange(i, i + 4).subrange(0, 2));
    assert(s.subrange(i + 2, i + 4) =~= s.subrange(i, i + 4).subrange(2, 4));
    assert(u32_bytes(v).subrange(0, 2) =~= u16_bytes(v as u16));
    assert(u32_bytes(v).subrange(2, 4) =~= u16_bytes((v >> 16u32) as u16));
    lemma_u16_round_trip(s, i, v as u16);
    lemma_u16_round_trip(s, i + 2, (v >> 16u32) as u16);
    lemma_u32_split(v);
}

/// Reading back the bytes that `u64_bytes` writes gives the value written.
pub proof fn lemma_u64_round_trip(s: Seq<u8>, i: int, v: u64)
    requires
        0 <= i,
        i + 8 <= s.len(),
        s.subrange(i, i + 8) == u64_bytes(v),
    ensures
        u64_le(s, i) == v,
{
    assert(s.subrange(i, i + 4) =~= s.subrange(i, i + 8).subrange(0, 4));
    assert(s.subrange(i + 4, i + 8) =~= s.subrange(i, i + 8).subrange(4, 8));
    assert(u64_bytes(v).subrange(0, 4) =~= u32_bytes(v as u32));
    assert(u64_bytes(v).subrange(4, 8) =~= u32_bytes((v >> 32u64) as u32));
    lemma_u32_round_trip(s, i, v as u32);
    lemma_u32_round_trip(s, i + 4, (v >> 32u64) as u32);
    lemma_u64_split(v);
}

/// Appends the little-endian bytes of `v` to `out`.
pub fn push_u16(out: &mut Vec<u8>, v: u16)
    ensures
        final(out)@ == old(out)@ + u16_bytes(v),
{
    out.push(v as u8);
    out.push((v >> 8u16) as u8);
    assert(final(out)@ =~= old(out)@ + u16_bytes(v));
}

/// Appends the little-endian bytes of `v` to `out`.
pub fn push_u32(out: &mut Vec<u8>, v: u32)
    ensures
        final(out)@ == old(out)@ + u32_bytes(v),
{
    push_u16(out, v as u16);
    push_u16(out, (v >> 16u32) as u16);
    assert(final(out)@ =~= old(out)@ + u32_bytes(v));
}

/// Appends the little-endian bytes of `v` to `out`.
pub fn push_u64(out: &mut Vec<u8>, v: u64)
    ensures
        final(out)@ == old(out)@ + u64_bytes(v),
{
    push_u32(out, v as u32);
    push_u32(out, (v >> 32u64) as u32);
    assert(final(out)@ =~= old(out)@ + u64_bytes(v));
}

} // verus!
