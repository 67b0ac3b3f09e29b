//! Little-endian byte-order helpers shared by the wire protocol, the replay
//! file format and the save-data accessors: fixed-width integers read from
//! and written to byte sequences, with round-trip lemmas.

use vstd::prelude::*;

verus! {

/// The integer encoded by two little-endian bytes.
pub open spec fn le16(s: Seq<u8>) -> u16
    recommends
        s.len() == 2,
{
    (s[0] as u16) | ((s[1] as u16) << 8)
}

/// The two little-endian bytes of an integer.
pub open spec fn le16_bytes(v: u16) -> Seq<u8> {
    seq![(v & 0xff) as u8, ((v >> 8) & 0xff) as u8]
}

/// The integer encoded by four little-endian bytes.
pub open spec fn le32(s: Seq<u8>) -> u32
    recommends
        s.len() == 4,
{
    (s[0] as u32) | ((s[1] as u32) << 8) | ((s[2] as u32) << 16) | ((s[3] as u32) << 24)
}

/// The four little-endian bytes of an integer.
pub open spec fn le32_bytes(v: u32) -> Seq<u8> {
    seq![
        (v & 0xff) as u8,
        ((v >> 8) & 0xff) as u8,
        ((v >> 16) & 0xff) as u8,
        ((v >> 24) & 0xff) as u8,
    ]
}

/// The integer encoded by eight little-endian bytes.
pub open spec fn le64(s: Seq<u8>) -> u64
    recommends
        s.len() == 8,
{
    (s[0] as u64) | ((s[1] as u64) << 8) | ((s[2] as u64) << 16) | ((s[3] as u64) << 24) | ((
    s[4] as u64) << 32) | ((s[5] as u64) << 40) | ((s[6] as u64) << 48) | ((s[7] as u64) << 56)
}

/// The eight little-endian bytes of an integer.
pub open spec fn le64_bytes(v: u64) -> Seq<u8> {
    seq![
        (v & 0xff) as u8,
        ((v >> 8) & 0xff) as u8,
        ((v >> 16) & 0xff) as u8,
        ((v >> 24) & 0xff) as u8,
        ((v >> 32) & 0xff) as u8,
        ((v >> 40) & 0xff) as u8,
        ((v >> 48) & 0xff) as u8,
        ((v >> 56) & 0xff) as u8,
    ]
}

/// Writing an integer and reading it back yields the integer.
pub proof fn lemma_le16_round_trip(v: u16)
    ensures
        le16(le16_bytes(v)) == v,
{
    assert((((v & 0xff) as u8) as u16) | ((((v >> 8) & 0xff) as u8) as u16) << 8 == v)
        by (bit_vector);
}

/// Writing an integer and reading it back yields the integer.
pub proof fn lemma_le32_round_trip(v: u32)
    ensures
        le32(le32_bytes(v)) == v,
{
    assert((((v & 0xff) as u8) as u32) | ((((v >> 8) & 0xff) as u8) as u32) << 8 | ((((v >> 16)
        & 0xff) as u8) as u32) << 16 | ((((v >> 24) & 0xff) as u8) as u32) << 24 == v)
        by (bit_vector);
}

/// Writing an integer and reading it back yields the integer.
pub proof fn lemma_le64_round_trip(v: u64)
    ensures
        le64(le64_bytes(v)) == v,
{
    assert((((v & 0xff) as u8) as u64) | ((((v >> 8) & 0xff) as u8) as u64) << 8 | ((((v >> 16)
        & 0xff) as u8) as u64) << 16 | ((((v >> 24) & 0xff) as u8) as u64) << 24 | ((((v >> 32)
        & 0xff) as u8) as u64) << 32 | ((((v >> 40) & 0xff) as u8) as u64) << 40 | ((((v >> 48)
        & 0xff) as u8) as u64) << 48 | ((((v >> 56) & 0xff) as u8) as u64) << 56 == v)
        by (bit_vector);
}

/// The low eight bytes of a sixteen-byte integer.
pub open spec fn u128_lo(v: u128) -> u64 {
    (v & 0xffff_ffff_ffff_ffff) as u64
}

/// The high eight bytes of a sixteen-byte integer.
pub open spec fn u128_hi(v: u128) -> u64 {
    (v >> 64) as u64
}

/// A sixteen-byte integer reassembled from its halves.
pub open spec fn u128_join(lo: u64, hi: u64) -> u128 {
    (lo as u128) | ((hi as u128) << 64)
}

/// Splitting a sixteen-byte integer and joining the halves yields it back.
pub proof fn lemma_u128_split_join(v: u128)
    ensures
        u128_join(u128_lo(v), u128_hi(v)) == v,
{
    assert(((((v & 0xffff_ffff_ffff_ffff) as u64) as u128) | ((((v >> 64) as u64) as u128) << 64))
        == v) by (bit_vector);
}

/// Computes the low eight bytes of a sixteen-byte integer.
pub fn split_lo(v: u128) -> (r: u64)
    ensures
        r == u128_lo(v),
{
    (v & 0xffff_ffff_ffff_ffff) as u64
}

/// Computes the high eight bytes of a sixteen-byte integer.
pub fn split_hi(v: u128) -> (r: u64)
    ensures
        r == u128_hi(v),
{
    (v >> 64) as u64
}

/// Reassembles a sixteen-byte integer from its halves.
pub fn join_u128(lo: u64, hi: u64) -> (r: u128)
    ensures
        r == u128_join(lo, hi),
{
    (lo as u128) | ((hi as u128) << 64)
}

/// Reads the two-byte little-endian integer at `off`.
pub fn read_u16_le(b: &[u8], off: usize) -> (r: u16)
    requires
        off + 2 <= b@.len(),
    ensures
        r == le16(b@.subrange(off as int, off + 2)),
{
    let r = (b[off] as u16) | ((b[off + 1] as u16) << 8);
    proof {
        let s = b@.subrange(off as int, off + 2);
        assert(s[0] == b@[off as int] && s[1] == b@[off + 1]);
    }
    r
}

/// Reads the four-byte little-endian integer at `off`.
pub fn read_u32_le(b: &[u8], off: usize) -> (r: u32)
    requires
        off + 4 <= b@.len(),
    ensures
        r == le32(b@.subrange(off as int, off + 4)),
{
    let r = (b[off] as u32) | ((b[off + 1] as u32) << 8) | ((b[off + 2] as u32) << 16) | ((b[off
        + 3] as u32) << 24);
    proof {
        let s = b@.subrange(off as int, off + 4);
        assert(s[0] == b@[off as int]);
        assert(s[1] == b@[off + 1] && s[2] == b@[off + 2] && s[3] == b@[off + 3]);
    }
    r
}

/// Reads the eight-byte little-endian integer at `off`.
pub fn read_u64_le(b: &[u8], off: usize) -> (r: u64)
    requires
        off + 8 <= b@.len(),
    ensures
        r == le64(b@.subrange(off as int, off + 8)),
{
    let r = (b[off] as u64) | ((b[off + 1] as u64) << 8) | ((b[off + 2] as u64) << 16) | ((b[off
        + 3] as u64) << 24) | ((b[off + 4] as u64) << 32) | ((b[off + 5] as u64) << 40) | ((b[off
        + 6] as u64) << 48) | ((b[off + 7] as u64) << 56);
    proof {
        let s = b@.subrange(off as int, off + 8);
        assert(s[0] == b@[off as int]);
        assert(s[1] == b@[off + 1] && s[2] == b@[off + 2] && s[3] == b@[off + 3]);
        assert(s[4] == b@[off + 4] && s[5] == b@[off + 5] && s[6] == b@[off + 6]);
        assert(s[7] == b@[off + 7]);
    }
    r
}

/// Appends the two little-endian bytes of `v`.
pub fn push_u16_le(out: &mut Vec<u8>, v: u16)
    ensures
        final(out)@ == old(out)@ + le16_bytes(v),
{
    out.push((v & 0xff) as u8);
    out.push(((v >> 8) & 0xff) as u8);
    proof {
        assert(final(out)@ =~= old(out)@ + le16_bytes(v));
    }
}

/// Appends the four little-endian bytes of `v`.
pub fn push_u32_le(out: &mut Vec<u8>, v: u32)
    ensures
        final(out)@ == old(out)@ + le32_bytes(v),
{
    out.push((v & 0xff) as u8);
    out.push(((v >> 8) & 0xff) as u8);
    out.push(((v >> 16) & 0xff) as u8);
    out.push(((v >> 24) & 0xff) as u8);
    proof {
        assert(final(out)@ =~= old(out)@ + le32_bytes(v));
    }
}

/// Appends the eight little-endian bytes of `v`.
pub fn push_u64_le(out: &mut Vec<u8>, v: u64)
    ensures
        final(out)@ == old(out)@ + le64_bytes(v),
{
    out.push((v & 0xff) as u8);
    out.push(((v >> 8) & 0xff) as u8);
    out.push(((v >> 16) & 0xff) as u8);
    out.push(((v >> 24) & 0xff) as u8);
    out.push(((v >> 32) & 0xff) as u8);
    out.push(((v >> 40) & 0xff) as u8);
    out.push(((v >> 48) & 0xff) as u8);
    out.push(((v >> 56) & 0xff) as u8);
    proof {
        assert(final(out)@ =~= old(out)@ + le64_bytes(v));
    }
}

} // verus!
