//! Integers as the machine lays them out in memory: their bytes in the byte
//! order of the executing hardware (`vstd::endian::endianness`).

use vstd::prelude::*;
use vstd::endian::{endianness, Endian};

verus! {

/// The two bytes of `x` in the machine's byte order.
pub open spec fn u16_image(x: u16) -> Seq<u8> {
    match endianness() {
        Endian::Little => seq![x as u8, (x >> 8u16) as u8],
        Endian::Big => seq![(x >> 8u16) as u8, x as u8],
    }
}

/// The four bytes of `x` in the machine's byte order.
pub open spec fn u32_image(x: u32) -> Seq<u8> {
    match endianness() {
        Endian::Little => seq![
            x as u8,
            (x >> 8u32) as u8,
            (x >> 16u32) as u8,
            (x >> 24u32) as u8,
        ],
        Endian::Big => seq![
            (x >> 24u32) as u8,
            (x >> 16u32) as u8,
            (x >> 8u32) as u8,
            x as u8,
        ],
    }
}

/// The value whose image in the machine's byte order is the two bytes `b`.
pub open spec fn u16_of_image(b: Seq<u8>) -> u16
    recommends
        b.len() == 2,
{
    match endianness() {
        Endian::Little => (b[0] as u16) | ((b[1] as u16) << 8u16),
        Endian::Big => (b[1] as u16) | ((b[0] as u16) << 8u16),
    }
}

/// The value whose image in the machine's byte order is the four bytes `b`.
pub open spec fn u32_of_image(b: Seq<u8>) -> u32
    recommends
        b.len() == 4,
{
    match endianness() {
        Endian::Little => (b[0] as u32) | ((b[1] as u32) << 8u32) | ((b[2] as u32) << 16u32) | ((
        b[3] as u32) << 24u32),
        Endian::Big => (b[3] as u32) | ((b[2] as u32) << 8u32) | ((b[1] as u32) << 16u32) | ((
        b[0] as u32) << 24u32),
    }
}

/// `u16::to_ne_bytes`: the memory representation of `x` in the native byte
/// order. Trusted: the contract claims that the native order is the one that
/// `vstd::endian::endianness()` stands for.
#[verifier::external_body]
pub(crate) fn u16_to_ne_bytes(x: u16) -> (b: [u8; 2])
    ensures
        b@ == u16_image(x),
{
    x.to_ne_bytes()
}

/// `u32::to_ne_bytes`: the memory representation of `x` in the native byte
/// order. Trusted: the contract claims that the native order is the one that
/// `vstd::endian::endianness()` stands for.
#[verifier::external_body]
pub(crate) fn u32_to_ne_bytes(x: u32) -> (b: [u8; 4])
    ensures
        b@ == u32_image(x),
{
    x.to_ne_bytes()
}

/// `u16::from_ne_bytes`: the value whose memory representation in the native
/// byte order is `b`. Trusted: the contract claims that the native order is
/// the one that `vstd::endian::endianness()` stands for.
#[verifier::external_body]
pub(crate) fn u16_from_ne_bytes(b: [u8; 2]) -> (x: u16)
    ensures
        x == u16_of_image(b@),
{
    u16::from_ne_bytes(b)
}

/// `u32::from_ne_bytes`: the value whose memory representation in the native
/// byte order is `b`. Trusted: the contract claims that the native order is
/// the one that `vstd::endian::endianness()` stands for.
#[verifier::external_body]
pub(crate) fn u32_from_ne_bytes(b: [u8; 4]) -> (x: u32)
    ensures
        x == u32_of_image(b@),
{
    u32::from_ne_bytes(b)
}

/// Reading back the image of a value gives the value.
pub proof fn lemma_u16_image_roundtrip(x: u16)
    ensures
        u16_image(x).len() == 2,
        u16_of_image(u16_image(x)) == x,
{
    assert(((x as u8) as u16) | ((((x >> 8u16) as u8) as u16) << 8u16) == x) by (bit_vector);
}

/// Reading back the image of a value gives the value.
pub proof fn lemma_u32_image_roundtrip(x: u32)
    ensures
        u32_image(x).len() == 4,
        u32_of_image(u32_image(x)) == x,
{
    assert(((x as u8) as u32) | ((((x >> 8u32) as u8) as u32) << 8u32) | ((((x >> 16u32) as u8)
        as u32) << 16u32) | ((((x >> 24u32) as u8) as u32) << 24u32) == x) by (bit_vector);
}

/// Every two bytes are the image of the value they read back as.
pub proof fn lemma_u16_bytes_roundtrip(b: Seq<u8>)
    requires
        b.len() == 2,
    ensures
        u16_image(u16_of_image(b)) == b,
{
    let (b0, b1) = (b[0], b[1]);
    assert(forall|lo: u8, hi: u8|
        #![trigger (lo as u16) | ((hi as u16) << 8u16)]
        ((((lo as u16) | ((hi as u16) << 8u16)) as u8) == lo && ((((lo as u16) | ((hi as u16)
            << 8u16)) >> 8u16) as u8) == hi)) by (bit_vector);
    assert(u16_image(u16_of_image(b)) =~= b);
}

/// Every four bytes are the image of the value they read back as.
pub proof fn lemma_u32_bytes_roundtrip(b: Seq<u8>)
    requires
        b.len() == 4,
    ensures
        u32_image(u32_of_image(b)) == b,
{
    assert(forall|b0: u8, b1: u8, b2: u8, b3: u8|
        #![trigger (b0 as u32) | ((b1 as u32) << 8u32) | ((b2 as u32) << 16u32) | ((b3 as u32)
            << 24u32)]
        {
            let v = (b0 as u32) | ((b1 as u32) << 8u32) | ((b2 as u32) << 16u32) | ((b3 as u32)
                << 24u32);
            &&& v as u8 == b0
            &&& (v >> 8u32) as u8 == b1
            &&& (v >> 16u32) as u8 == b2
            &&& (v >> 24u32) as u8 == b3
        }) by (bit_vector);
    assert(u32_image(u32_of_image(b)) =~= b);
}

} // verus!
