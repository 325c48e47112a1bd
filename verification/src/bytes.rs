//! Big-endian byte order: how two, four and eight bytes stand for a number.

use vstd::prelude::*;

verus! {

/// The number whose big-endian form is the two bytes `hi`, `lo`.
pub open spec fn be_u16(hi: u8, lo: u8) -> u16 {
    (hi as int * 0x100 + lo as int) as u16
}

/// The number whose big-endian form is the four bytes of `s`.
pub open spec fn be_u32(s: Seq<u8>) -> u32
    recommends
        s.len() == 4,
{
    (s[0] as int * 0x100_0000 + s[1] as int * 0x1_0000 + s[2] as int * 0x100 + s[3] as int) as u32
}

/// The number whose big-endian form is the eight bytes of `s`.
pub open spec fn be_u64(s: Seq<u8>) -> u64
    recommends
        s.len() == 8,
{
    (s[0] as int * 0x100_0000_0000_0000 + s[1] as int * 0x1_0000_0000_0000 + s[2] as int
        * 0x100_0000_0000 + s[3] as int * 0x1_0000_0000 + s[4] as int * 0x100_0000 + s[5] as int
        * 0x1_0000 + s[6] as int * 0x100 + s[7] as int) as u64
}

/// The two bytes of `v`, the high one first.
pub open spec fn u16_be_bytes(v: u16) -> Seq<u8> {
    seq![(v / 0x100) as u8, (v % 0x100) as u8]
}

/// The four bytes of `v`, the highest first.
pub open spec fn u32_be_bytes(v: u32) -> Seq<u8> {
    seq![
        (v / 0x100_0000) as u8,
        (v / 0x1_0000 % 0x100) as u8,
        (v / 0x100 % 0x100) as u8,
        (v % 0x100) as u8,
    ]
}

/// The eight bytes of `v`, the highest first.
pub open spec fn u64_be_bytes(v: u64) -> Seq<u8> {
    seq![
        (v / 0x100_0000_0000_0000) as u8,
        (v / 0x1_0000_0000_0000 % 0x100) as u8,
        (v / 0x100_0000_0000 % 0x100) as u8,
        (v / 0x1_0000_0000 % 0x100) as u8,
        (v / 0x100_0000 % 0x100) as u8,
        (v / 0x1_0000 % 0x100) as u8,
        (v / 0x100 % 0x100) as u8,
        (v % 0x100) as u8,
    ]
}

/// Reading back the two bytes of a number gives the number.
pub proof fn lemma_u16_round_trip(v: u16)
    ensures
        u16_be_bytes(v).len() == 2,
        be_u16(u16_be_bytes(v)[0], u16_be_bytes(v)[1]) == v,
{
}

/// Reading back the four bytes of a number gives the number.
pub proof fn lemma_u32_round_trip(v: u32)
    ensures
        u32_be_bytes(v).len() == 4,
        be_u32(u32_be_bytes(v)) == v,
{
    assert((v / 0x100_0000) * 0x100_0000 + (v / 0x1_0000 % 0x100) * 0x1_0000 + (v / 0x100 % 0x100)
        * 0x100 + v % 0x100 == v) by (bit_vector);
}

/// Reading back the eight bytes of a number gives the number.
pub proof fn lemma_u64_round_trip(v: u64)
    ensures
        u64_be_bytes(v).len() == 8,
        be_u64(u64_be_bytes(v)) == v,
{
    assert((v / 0x100_0000_0000_0000) * 0x100_0000_0000_0000 + (v / 0x1_0000_0000_0000 % 0x100)
        * 0x1_0000_0000_0000 + (v / 0x100_0000_0000 % 0x100) * 0x100_0000_0000 + (v
        / 0x1_0000_0000 % 0x100) * 0x1_0000_0000 + (v / 0x100_0000 % 0x100) * 0x100_0000 + (v
        / 0x1_0000 % 0x100) * 0x1_0000 + (v / 0x100 % 0x100) * 0x100 + v % 0x100 == v)
        by (bit_vector);
}

/// Writing out the number that two bytes stand for gives those bytes.
pub proof fn lemma_u16_bytes_of_value(hi: u8, lo: u8)
    ensures
        u16_be_bytes(be_u16(hi, lo)) == seq![hi, lo],
{
}

/// Writing out the number that four bytes stand for gives those bytes.
pub proof fn lemma_u32_bytes_of_value(s: Seq<u8>)
    requires
        s.len() == 4,
    ensures
        u32_be_bytes(be_u32(s)) == s,
{
    let (a, b, c, d) = (s[0], s[1], s[2], s[3]);
    let v: u32 = be_u32(s);
    assert(v / 0x100_0000 == a && v / 0x1_0000 % 0x100 == b && v / 0x100 % 0x100 == c && v % 0x100
        == d) by (bit_vector)
        requires
            v == a as u32 * 0x100_0000 + b as u32 * 0x1_0000 + c as u32 * 0x100 + d as u32,
    ;
}

/// Writing out the number that eight bytes stand for gives those bytes.
pub proof fn lemma_u64_bytes_of_value(s: Seq<u8>)
    requires
        s.len() == 8,
    ensures
        u64_be_bytes(be_u64(s)) == s,
{
    let (a, b, c, d) = (s[0], s[1], s[2], s[3]);
    let (e, f, g, h) = (s[4], s[5], s[6], s[7]);
    let v: u64 = be_u64(s);
    assert(v == a as u64 * 0x100_0000_0000_0000 + b as u64 * 0x1_0000_0000_0000 + c as u64
        * 0x100_0000_0000 + d as u64 * 0x1_0000_0000 + e as u64 * 0x100_0000 + f as u64 * 0x1_0000
        + g as u64 * 0x100 + h as u64);
    assert(v / 0x100_0000_0000_0000 == a && v / 0x1_0000_0000_0000 % 0x100 == b && v
        / 0x100_0000_0000 % 0x100 == c && v / 0x1_0000_0000 % 0x100 == d && v / 0x100_0000 % 0x100
        == e && v / 0x1_0000 % 0x100 == f && v / 0x100 % 0x100 == g && v % 0x100 == h)
        by (bit_vector)
        requires
            v == a as u64 * 0x100_0000_0000_0000 + b as u64 * 0x1_0000_0000_0000 + c as u64
                * 0x100_0000_0000 + d as u64 * 0x1_0000_0000 + e as u64 * 0x100_0000 + f as u64
                * 0x1_0000 + g as u64 * 0x100 + h as u64,
    ;
}

/// Assembles a 16-bit number from its bytes, the high one first.
pub fn u16_from_be(hi: u8, lo: u8) -> (v: u16)
    ensures
        v == be_u16(hi, lo),
{
    (hi as u16) * 0x100 + (lo as u16)
}

/// Assembles a 32-bit number from its four bytes, the highest first.
pub fn u32_from_be(bytes: &[u8; 4]) -> (v: u32)
    ensures
        v == be_u32(bytes@),
{
    (bytes[0] as u32) * 0x100_0000 + (bytes[1] as u32) * 0x1_0000 + (bytes[2] as u32) * 0x100 + (
    bytes[3] as u32)
}

/// Assembles a 64-bit number from its eight bytes, the highest first.
pub fn u64_from_be(bytes: &[u8; 8]) -> (v: u64)
    ensures
        v == be_u64(bytes@),
{
    (bytes[0] as u64) * 0x100_0000_0000_0000 + (bytes[1] as u64) * 0x1_0000_0000_0000 + (
    bytes[2] as u64) * 0x100_0000_0000 + (bytes[3] as u64) * 0x1_0000_0000 + (bytes[4] as u64)
        * 0x100_0000 + (bytes[5] as u64) * 0x1_0000 + (bytes[6] as u64) * 0x100 + (bytes[7] as u64)
}

/// Splits a 16-bit number into its bytes, the high one first.
pub fn u16_to_be(v: u16) -> (bytes: [u8; 2])
    ensures
        bytes@ == u16_be_bytes(v),
{
    let bytes = [(v / 0x100) as u8, (v % 0x100) as u8];
    bytes
}

/// Splits a 32-bit number into its four bytes, the highest first.
pub fn u32_to_be(v: u32) -> (bytes: [u8; 4])
    ensures
        bytes@ == u32_be_bytes(v),
{
    let bytes = [
        (v / 0x100_0000) as u8,
        (v / 0x1_0000 % 0x100) as u8,
        (v / 0x100 % 0x100) as u8,
        (v % 0x100) as u8,
    ];
    bytes
}

/// Splits a 64-bit number into its eight bytes, the highest first.
pub fn u64_to_be(v: u64) -> (bytes: [u8; 8])
    ensures
        bytes@ == u64_be_bytes(v),
{
    let bytes = [
        (v / 0x100_0000_0000_0000) as u8,
        (v / 0x1_0000_0000_0000 % 0x100) as u8,
        (v / 0x100_0000_0000 % 0x100) as u8,
        (v / 0x1_0000_0000 % 0x100) as u8,
        (v / 0x100_0000 % 0x100) as u8,
        (v / 0x1_0000 % 0x100) as u8,
        (v / 0x100 % 0x100) as u8,
        (v % 0x100) as u8,
    ];
    bytes
}

} // verus!
