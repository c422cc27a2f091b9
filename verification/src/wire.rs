//! Big-endian integer layouts, as the radio's API frames carry them.

use vstd::prelude::*;

verus! {

/// The two bytes of `n`, most significant first.
pub open spec fn spec_u16_be(n: u16) -> Seq<u8> {
    seq![(n >> 8) as u8, (n & 0xff) as u8]
}

/// The eight bytes of `n`, most significant first.
pub open spec fn spec_u64_be(n: u64) -> Seq<u8> {
    seq![
        (n >> 56) as u8,
        ((n >> 48) & 0xff) as u8,
        ((n >> 40) & 0xff) as u8,
        ((n >> 32) & 0xff) as u8,
        ((n >> 24) & 0xff) as u8,
        ((n >> 16) & 0xff) as u8,
        ((n >> 8) & 0xff) as u8,
        (n & 0xff) as u8,
    ]
}

/// The number whose big-endian layout is the first two bytes of `s`.
pub open spec fn spec_u16_from_be(s: Seq<u8>) -> u16
    recommends
        s.len() >= 2,
{
    (s[0] as u16) << 8 | (s[1] as u16)
}

/// The number whose big-endian layout is the first eight bytes of `s`.
pub open spec fn spec_u64_from_be(s: Seq<u8>) -> u64
    recommends
        s.len() >= 8,
{
    (s[0] as u64) << 56 | (s[1] as u64) << 48 | (s[2] as u64) << 40 | (s[3] as u64) << 32 | (
    s[4] as u64) << 24 | (s[5] as u64) << 16 | (s[6] as u64) << 8 | (s[7] as u64)
}

/// The number whose big-endian layout is the first four bytes of `s`.
pub open spec fn spec_u32_from_be(s: Seq<u8>) -> u32
    recommends
        s.len() >= 4,
{
    (s[0] as u32) << 24 | (s[1] as u32) << 16 | (s[2] as u32) << 8 | (s[3] as u32)
}

/// The number whose big-endian layout is the first sixteen bytes of `s`.
pub open spec fn spec_u128_from_be(s: Seq<u8>) -> u128
    recommends
        s.len() >= 16,
{
    (spec_u64_from_be(s) as u128) << 64 | (spec_u64_from_be(s.skip(8)) as u128)
}

/// Decoding undoes encoding, for 16-bit numbers.
pub proof fn lemma_u16_be_roundtrip(n: u16)
    ensures
        spec_u16_be(n).len() == 2,
        spec_u16_from_be(spec_u16_be(n)) == n,
{
    assert(((((n >> 8) as u8) as u16) << 8 | (((n & 0xff) as u8) as u16)) == n) by (bit_vector);
}

/// Decoding undoes encoding, for 64-bit numbers.
pub proof fn lemma_u64_be_roundtrip(n: u64)
    ensures
        spec_u64_be(n).len() == 8,
        spec_u64_from_be(spec_u64_be(n)) == n,
{
    assert((((n >> 56) as u8) as u64) << 56 | ((((n >> 48) & 0xff) as u8) as u64) << 48 | ((((n
        >> 40) & 0xff) as u8) as u64) << 40 | ((((n >> 32) & 0xff) as u8) as u64) << 32 | ((((n
        >> 24) & 0xff) as u8) as u64) << 24 | ((((n >> 16) & 0xff) as u8) as u64) << 16 | ((((n
        >> 8) & 0xff) as u8) as u64) << 8 | (((n & 0xff) as u8) as u64) == n) by (bit_vector);
}

/// The two bytes of `n`, most significant first.
pub fn u16_to_be(n: u16) -> (r: [u8; 2])
    ensures
        r@ == spec_u16_be(n),
{
    assert(n >> 8 < 256 && n & 0xff < 256) by (bit_vector);
    let r = [(n >> 8) as u8, (n & 0xff) as u8];
    assert(r@ =~= spec_u16_be(n));
    r
}

/// The eight bytes of `n`, most significant first.
pub fn u64_to_be(n: u64) -> (r: [u8; 8])
    ensures
        r@ == spec_u64_be(n),
{
    assert(n >> 56 < 256 && (n >> 48) & 0xff < 256 && (n >> 40) & 0xff < 256 && (n >> 32) & 0xff
        < 256 && (n >> 24) & 0xff < 256 && (n >> 16) & 0xff < 256 && (n >> 8) & 0xff < 256 && n
        & 0xff < 256) by (bit_vector);
    let r = [
        (n >> 56) as u8,
        ((n >> 48) & 0xff) as u8,
        ((n >> 40) & 0xff) as u8,
        ((n >> 32) & 0xff) as u8,
        ((n >> 24) & 0xff) as u8,
        ((n >> 16) & 0xff) as u8,
        ((n >> 8) & 0xff) as u8,
        (n & 0xff) as u8,
    ];
    assert(r@ =~= spec_u64_be(n));
    r
}

} // verus!
