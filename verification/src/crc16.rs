//! CRC-16/T10-DIF: the guard-tag checksum of a data block.
//!
//! The algorithm is the Rocksoft-model CRC with width 16, polynomial 0x8BB7,
//! initial value 0, no reflection of input or output and no final XOR.
//! Its value is stated here as a function on byte sequences; the computation
//! itself is done by the `crc` crate.

use vstd::prelude::*;

verus! {

/// The generator polynomial (without its x^16 term).
pub const T10_DIF_POLY: u16 = 0x8bb7;

/// One bit of the shift register: shift left by one and, when the bit
/// shifted out was set, subtract (XOR) the polynomial.
pub open spec fn crc_shift(reg: u16) -> u16 {
    if reg & 0x8000u16 != 0u16 {
        (reg << 1u16) ^ T10_DIF_POLY
    } else {
        reg << 1u16
    }
}

/// Eight shifts of the register: the effect of one byte's worth of bits.
pub open spec fn crc_shift8(r0: u16) -> u16 {
    let r1 = crc_shift(r0);
    let r2 = crc_shift(r1);
    let r3 = crc_shift(r2);
    let r4 = crc_shift(r3);
    let r5 = crc_shift(r4);
    let r6 = crc_shift(r5);
    let r7 = crc_shift(r6);
    crc_shift(r7)
}

/// The register after one more input byte, most significant bit first.
pub open spec fn crc_step(reg: u16, byte: u8) -> u16 {
    crc_shift8(reg ^ ((byte as u16) << 8u16))
}

/// The register after the bytes of `data`, in order, starting from `reg`.
pub open spec fn crc_update(reg: u16, data: Seq<u8>) -> u16
    decreases data.len(),
{
    if data.len() == 0 {
        reg
    } else {
        crc_update(crc_step(reg, data[0]), data.drop_first())
    }
}

/// CRC-16/T10-DIF of `data`: initial register 0, no final XOR.
pub open spec fn crc16_t10_dif(data: Seq<u8>) -> u16 {
    crc_update(0u16, data)
}

/// Computes the CRC-16/T10-DIF of `data` with `crc::Crc::<u16>::checksum`,
/// built from the crate's catalog entry `crc::CRC_16_T10_DIF` (width 16,
/// poly 0x8bb7, init 0, refin false, refout false, xorout 0).
/// Trusted: the contract claims that the crate's table-driven checksum
/// equals the bitwise definition `crc16_t10_dif` of that algorithm.
#[verifier::external_body]
pub(crate) fn crc16_checksum(data: &[u8]) -> (crc: u16)
    ensures
        crc == crc16_t10_dif(data@),
{
    crc::Crc::<u16>::new(&crc::CRC_16_T10_DIF).checksum(data)
}

/// Feeding `s + t` is feeding `s`, then `t`.
pub proof fn lemma_crc_update_concat(reg: u16, s: Seq<u8>, t: Seq<u8>)
    ensures
        crc_update(reg, s + t) == crc_update(crc_update(reg, s), t),
    decreases s.len(),
{
    if s.len() == 0 {
        assert(s + t =~= t);
    } else {
        assert((s + t).drop_first() =~= s.drop_first() + t);
        lemma_crc_update_concat(crc_step(reg, s[0]), s.drop_first(), t);
    }
}

/// One byte step maps distinct registers to distinct registers.
pub proof fn lemma_crc_step_injective(r1: u16, r2: u16, byte: u8)
    ensures
        r1 != r2 ==> crc_step(r1, byte) != crc_step(r2, byte),
{
    assert(r1 != r2 ==> crc_step(r1, byte) != crc_step(r2, byte)) by (bit_vector);
}

/// Distinct registers stay distinct whatever bytes follow.
pub proof fn lemma_crc_update_injective(r1: u16, r2: u16, data: Seq<u8>)
    ensures
        r1 != r2 ==> crc_update(r1, data) != crc_update(r2, data),
    decreases data.len(),
{
    if data.len() > 0 {
        lemma_crc_step_injective(r1, r2, data[0]);
        lemma_crc_update_injective(crc_step(r1, data[0]), crc_step(r2, data[0]), data.drop_first());
    }
}

/// Two different input bytes take a register to two different registers.
pub proof fn lemma_crc_step_distinguishes_bytes(reg: u16, x: u8, y: u8)
    ensures
        x != y ==> crc_step(reg, x) != crc_step(reg, y),
{
    assert(x != y ==> crc_step(reg, x) != crc_step(reg, y)) by (bit_vector);
}

/// One shift is linear over XOR.
proof fn lemma_crc_shift_xor(a: u16, b: u16)
    ensures
        crc_shift(a ^ b) == crc_shift(a) ^ crc_shift(b),
{
    assert(crc_shift(a ^ b) == crc_shift(a) ^ crc_shift(b)) by (bit_vector);
}

/// A byte step is linear over XOR: stepping the XOR of two registers with
/// the XOR of two bytes gives the XOR of the two steps.
pub proof fn lemma_crc_step_xor(r1: u16, r2: u16, x1: u8, x2: u8)
    ensures
        crc_step(r1 ^ r2, x1 ^ x2) == crc_step(r1, x1) ^ crc_step(r2, x2),
{
    let a0 = r1 ^ ((x1 as u16) << 8u16);
    let b0 = r2 ^ ((x2 as u16) << 8u16);
    assert((r1 ^ r2) ^ (((x1 ^ x2) as u16) << 8u16) == a0 ^ b0) by (bit_vector)
        requires
            a0 == r1 ^ ((x1 as u16) << 8u16),
            b0 == r2 ^ ((x2 as u16) << 8u16),
    ;
    let mut a = a0;
    let mut b = b0;
    lemma_crc_shift_xor(a, b);
    a = crc_shift(a);
    b = crc_shift(b);
    lemma_crc_shift_xor(a, b);
    a = crc_shift(a);
    b = crc_shift(b);
    lemma_crc_shift_xor(a, b);
    a = crc_shift(a);
    b = crc_shift(b);
    lemma_crc_shift_xor(a, b);
    a = crc_shift(a);
    b = crc_shift(b);
    lemma_crc_shift_xor(a, b);
    a = crc_shift(a);
    b = crc_shift(b);
    lemma_crc_shift_xor(a, b);
    a = crc_shift(a);
    b = crc_shift(b);
    lemma_crc_shift_xor(a, b);
    a = crc_shift(a);
    b = crc_shift(b);
    lemma_crc_shift_xor(a, b);
}

/// A step lands on 0 exactly from the register that cancels the byte.
pub proof fn lemma_crc_step_zero(reg: u16, x: u8)
    ensures
        crc_step(reg, x) == 0 ==> reg == (x as u16) << 8u16,
{
    assert(crc_step(reg, x) == 0 ==> reg == (x as u16) << 8u16) by (bit_vector);
}

/// A nonzero byte fed to the zero register leaves a nonzero low byte.
pub proof fn lemma_crc_step_low_byte(x: u8)
    ensures
        x != 0 ==> crc_step(0u16, x) & 0xffu16 != 0,
{
    assert(x != 0 ==> crc_step(0u16, x) & 0xffu16 != 0) by (bit_vector);
}

/// Two different pairs of consecutive input bytes take a register to two
/// different registers.
pub proof fn lemma_crc_two_steps_distinguish_pairs(reg: u16, x1: u8, x2: u8, y1: u8, y2: u8)
    ensures
        (x1 != y1 || x2 != y2) ==> crc_step(crc_step(reg, x1), x2) != crc_step(
            crc_step(reg, y1),
            y2,
        ),
{
    let a = crc_step(reg, x1);
    let b = crc_step(reg, y1);
    let d1 = x1 ^ y1;
    let d2 = x2 ^ y2;
    if crc_step(a, x2) == crc_step(b, y2) {
        lemma_crc_step_xor(reg, reg, x1, y1);
        lemma_crc_step_xor(a, b, x2, y2);
        assert(reg ^ reg == 0u16) by (bit_vector);
        assert(crc_step(a, x2) ^ crc_step(b, y2) == 0u16) by (bit_vector)
            requires
                crc_step(a, x2) == crc_step(b, y2),
        ;
        // a ^ b is the step of the zero register with d1, and stepping it
        // with d2 gives 0
        lemma_crc_step_zero(a ^ b, d2);
        lemma_crc_step_low_byte(d1);
        let z = crc_step(0u16, d1);
        assert(z == (d2 as u16) << 8u16);
        assert(z == (d2 as u16) << 8u16 ==> z & 0xffu16 == 0) by (bit_vector);
        assert(d1 == 0);
        assert(crc_step(0u16, 0u8) == 0u16) by (bit_vector);
        assert(((d2 as u16) << 8u16) == 0u16 ==> d2 == 0) by (bit_vector);
        assert(d1 == 0u8 ==> x1 == y1) by (bit_vector)
            requires
                d1 == x1 ^ y1,
        ;
        assert(d2 == 0u8 ==> x2 == y2) by (bit_vector)
            requires
                d2 == x2 ^ y2,
        ;
    }
}

/// Two byte sequences of equal length that differ only within the two bytes
/// at `i` and `i + 1` have different checksums.
pub proof fn lemma_crc_detects_two_byte_window(d1: Seq<u8>, d2: Seq<u8>, i: int)
    requires
        d1.len() == d2.len(),
        0 <= i < d1.len(),
        forall|j: int| 0 <= j < d1.len() && (j < i || j > i + 1) ==> d1[j] == d2[j],
        d1 != d2,
    ensures
        crc16_t10_dif(d1) != crc16_t10_dif(d2),
{
    let n = d1.len() as int;
    let p = d1.take(i);
    assert(p =~= d2.take(i));
    lemma_crc_update_concat(0u16, p, d1.skip(i));
    lemma_crc_update_concat(0u16, p, d2.skip(i));
    assert(d1 =~= p + d1.skip(i));
    assert(d2 =~= p + d2.skip(i));
    let r = crc_update(0u16, p);
    reveal_with_fuel(crc_update, 3);
    if i + 1 < n {
        let q = d1.skip(i + 2);
        assert(q =~= d2.skip(i + 2));
        let w1 = seq![d1[i], d1[i + 1]];
        let w2 = seq![d2[i], d2[i + 1]];
        assert(d1.skip(i) =~= w1 + q);
        assert(d2.skip(i) =~= w2 + q);
        lemma_crc_update_concat(r, w1, q);
        lemma_crc_update_concat(r, w2, q);
        assert(w1.drop_first().drop_first() =~= Seq::<u8>::empty());
        assert(w2.drop_first().drop_first() =~= Seq::<u8>::empty());
        assert(d1[i] != d2[i] || d1[i + 1] != d2[i + 1]) by {
            if d1[i] == d2[i] && d1[i + 1] == d2[i + 1] {
                assert(d1 =~= d2);
            }
        }
        lemma_crc_two_steps_distinguish_pairs(r, d1[i], d1[i + 1], d2[i], d2[i + 1]);
        lemma_crc_update_injective(crc_update(r, w1), crc_update(r, w2), q);
    } else {
        assert(d1.skip(i) =~= seq![d1[i]]);
        assert(d2.skip(i) =~= seq![d2[i]]);
        assert(seq![d1[i]].drop_first() =~= Seq::<u8>::empty());
        assert(seq![d2[i]].drop_first() =~= Seq::<u8>::empty());
        assert(d1[i] != d2[i]) by {
            if d1[i] == d2[i] {
                assert(d1 =~= d2);
            }
        }
        lemma_crc_step_distinguishes_bytes(r, d1[i], d2[i]);
    }
}

/// The check value of CRC-16/T10-DIF: the checksum of the ASCII bytes
/// "123456789" is 0xD0DB.
pub proof fn lemma_crc_check_value()
    ensures
        crc16_t10_dif(seq![0x31u8, 0x32u8, 0x33u8, 0x34u8, 0x35u8, 0x36u8, 0x37u8, 0x38u8, 0x39u8])
            == 0xd0dbu16,
{
    let s = seq![0x31u8, 0x32u8, 0x33u8, 0x34u8, 0x35u8, 0x36u8, 0x37u8, 0x38u8, 0x39u8];
    assert(crc_step(0x0u16, 0x31u8) == 0x76e0u16) by (bit_vector);
    assert(s.subrange(0, 9).drop_first() =~= s.subrange(1, 9));
    assert(crc_step(0x76e0u16, 0x32u8) == 0x8a86u16) by (bit_vector);
    assert(s.subrange(1, 9).drop_first() =~= s.subrange(2, 9));
    assert(crc_step(0x8a86u16, 0x33u8) == 0x25ecu16) by (bit_vector);
    assert(s.subrange(2, 9).drop_first() =~= s.subrange(3, 9));
    assert(crc_step(0x25ecu16, 0x34u8) == 0x337au16) by (bit_vector);
    assert(s.subrange(3, 9).drop_first() =~= s.subrange(4, 9));
    assert(crc_step(0x337au16, 0x35u8) == 0x54dcu16) by (bit_vector);
    assert(s.subrange(4, 9).drop_first() =~= s.subrange(5, 9));
    assert(crc_step(0x54dcu16, 0x36u8) == 0x31c0u16) by (bit_vector);
    assert(s.subrange(5, 9).drop_first() =~= s.subrange(6, 9));
    assert(crc_step(0x31c0u16, 0x37u8) == 0xeedcu16) by (bit_vector);
    assert(s.subrange(6, 9).drop_first() =~= s.subrange(7, 9));
    assert(crc_step(0xeedcu16, 0x38u8) == 0x4423u16) by (bit_vector);
    assert(s.subrange(7, 9).drop_first() =~= s.subrange(8, 9));
    assert(crc_step(0x4423u16, 0x39u8) == 0xd0dbu16) by (bit_vector);
    assert(s.subrange(8, 9).drop_first() =~= s.subrange(9, 9));
    assert(s.subrange(9, 9) =~= Seq::<u8>::empty());
    assert(s.subrange(0, 9) =~= s);
    assert(crc_update(0xd0dbu16, s.subrange(9, 9)) == 0xd0dbu16);
    assert(s.subrange(8, 9)[0] == 0x39u8);
    assert(crc_update(0x4423u16, s.subrange(8, 9)) == 0xd0dbu16);
    assert(crc_update(0xeedcu16, s.subrange(7, 9)) == 0xd0dbu16);
    assert(crc_update(0x31c0u16, s.subrange(6, 9)) == 0xd0dbu16);
    assert(crc_update(0x54dcu16, s.subrange(5, 9)) == 0xd0dbu16);
    assert(crc_update(0x337au16, s.subrange(4, 9)) == 0xd0dbu16);
    assert(crc_update(0x25ecu16, s.subrange(3, 9)) == 0xd0dbu16);
    assert(crc_update(0x8a86u16, s.subrange(2, 9)) == 0xd0dbu16);
    assert(crc_update(0x76e0u16, s.subrange(1, 9)) == 0xd0dbu16);
    assert(crc_update(0x0u16, s.subrange(0, 9)) == 0xd0dbu16);
}

/// The checksum of any run of zero bytes is 0.
pub proof fn lemma_crc_of_zeros(n: nat)
    ensures
        crc16_t10_dif(Seq::new(n, |i: int| 0u8)) == 0,
{
    lemma_crc_update_zeros(n);
}

/// The zero register stays zero over zero bytes.
proof fn lemma_crc_update_zeros(n: nat)
    ensures
        crc_update(0u16, Seq::new(n, |i: int| 0u8)) == 0,
    decreases n,
{
    if n > 0 {
        assert(crc_step(0u16, 0u8) == 0u16) by (bit_vector);
        assert(Seq::new(n, |i: int| 0u8).drop_first() =~= Seq::new((n - 1) as nat, |i: int| 0u8));
        lemma_crc_update_zeros((n - 1) as nat);
    }
}

/// CRC-16/T10-DIF has residue 0: a block followed by its own checksum,
/// most significant byte first, has checksum 0.
pub proof fn lemma_crc_residue(data: Seq<u8>)
    ensures
        crc16_t10_dif(
            data + seq![(crc16_t10_dif(data) >> 8u16) as u8, crc16_t10_dif(data) as u8],
        ) == 0,
{
    let c = crc16_t10_dif(data);
    let tail = seq![(c >> 8u16) as u8, c as u8];
    lemma_crc_update_concat(0u16, data, tail);
    assert(tail.drop_first().drop_first() =~= Seq::<u8>::empty());
    reveal_with_fuel(crc_update, 3);
    assert(crc_update(c, tail) == crc_step(crc_step(c, (c >> 8u16) as u8), c as u8));
    let r = crc_step(c, (c >> 8u16) as u8);
    assert(crc_step(r, c as u8) == 0u16) by (bit_vector)
        requires
            r == crc_step(c, (c >> 8u16) as u8),
    ;
}

} // verus!
