//! The T10-DIF record kept for each data block: guard tag, application tag
//! and reference tag, and its 8-byte layout.

use vstd::prelude::*;
use crate::crc16::{
    crc16_checksum, crc16_t10_dif, lemma_crc_check_value, lemma_crc_detects_two_byte_window,
    lemma_crc_of_zeros,
};
use crate::native::{
    lemma_u16_bytes_roundtrip, lemma_u16_image_roundtrip, lemma_u32_bytes_roundtrip,
    lemma_u32_image_roundtrip, u16_from_ne_bytes, u16_image, u16_of_image, u16_to_ne_bytes,
    u32_from_ne_bytes, u32_image, u32_of_image, u32_to_ne_bytes,
};

verus! {

/// Number of bytes of one record.
pub const DIF_RECORD_LEN: usize = 8;

/// T10-DIF protection information of one data block (8 bytes).
#[derive(Copy, Clone, Debug, PartialEq, Eq, Structural)]
pub struct T10Dif {
    /// CRC-16/T10-DIF of the data block.
    pub guard_tag: u16,
    /// Tag chosen by the application, e.g. to mark the kind of data.
    pub app_tag: u16,
    /// Part of the block's logical address, so that a block written to the
    /// wrong place is noticed.
    pub ref_tag: u32,
}

impl T10Dif {
    /// The record that protects `data_block` with the given tags.
    pub open spec fn protecting(data_block: Seq<u8>, app_tag: u16, ref_tag: u32) -> T10Dif {
        T10Dif { guard_tag: crc16_t10_dif(data_block), app_tag, ref_tag }
    }

    /// Whether the guard tag is the checksum of `data_block`.
    pub open spec fn guards(self, data_block: Seq<u8>) -> bool {
        self.guard_tag == crc16_t10_dif(data_block)
    }

    /// Builds the record of `data_block`, computing its guard tag (CRC).
    pub fn compute(data_block: &[u8], app_tag: u16, ref_tag: u32) -> (dif: T10Dif)
        ensures
            dif == T10Dif::protecting(data_block@, app_tag, ref_tag),
            dif.guard_tag == crc16_t10_dif(data_block@),
            dif.app_tag == app_tag,
            dif.ref_tag == ref_tag,
    {
        let guard_tag = crc16_checksum(data_block);
        T10Dif { guard_tag, app_tag, ref_tag }
    }

    /// Whether the guard tag matches the data of `data_block`.
    pub fn verify(&self, data_block: &[u8]) -> (ok: bool)
        ensures
            ok == self.guards(data_block@),
            ok == (self.guard_tag == crc16_t10_dif(data_block@)),
    {
        let expected_crc = crc16_checksum(data_block);
        self.guard_tag == expected_crc
    }

    /// The 8-byte image of the record as it lies in memory: guard tag,
    /// application tag, reference tag, each in the machine's byte order.
    pub open spec fn encoding(self) -> Seq<u8> {
        u16_image(self.guard_tag) + u16_image(self.app_tag) + u32_image(self.ref_tag)
    }

    /// The record whose image is the first 8 bytes of `bytes`.
    pub open spec fn decoding(bytes: Seq<u8>) -> T10Dif
        recommends
            bytes.len() >= 8,
    {
        T10Dif {
            guard_tag: u16_of_image(bytes.subrange(0, 2)),
            app_tag: u16_of_image(bytes.subrange(2, 4)),
            ref_tag: u32_of_image(bytes.subrange(4, 8)),
        }
    }

    /// The 8-byte image of the record (see `encoding`).
    pub fn to_ne_bytes(&self) -> (bytes: [u8; 8])
        ensures
            bytes@ == self.encoding(),
    {
        let g = u16_to_ne_bytes(self.guard_tag);
        let a = u16_to_ne_bytes(self.app_tag);
        let r = u32_to_ne_bytes(self.ref_tag);
        let bytes: [u8; 8] = [g[0], g[1], a[0], a[1], r[0], r[1], r[2], r[3]];
        assert(bytes@ =~= self.encoding());
        bytes
    }

    /// The record whose 8-byte image is `bytes` (see `encoding`).
    pub fn from_ne_bytes(bytes: [u8; 8]) -> (dif: T10Dif)
        ensures
            dif == T10Dif::decoding(bytes@),
    {
        let g: [u8; 2] = [bytes[0], bytes[1]];
        let a: [u8; 2] = [bytes[2], bytes[3]];
        let r: [u8; 4] = [bytes[4], bytes[5], bytes[6], bytes[7]];
        assert(g@ =~= bytes@.subrange(0, 2));
        assert(a@ =~= bytes@.subrange(2, 4));
        assert(r@ =~= bytes@.subrange(4, 8));
        T10Dif {
            guard_tag: u16_from_ne_bytes(g),
            app_tag: u16_from_ne_bytes(a),
            ref_tag: u32_from_ne_bytes(r),
        }
    }
}

/// The record computed for a block holds the CRC-16/T10-DIF of the block as
/// its guard tag and the two given tags unchanged, whatever the block's
/// length and contents.
pub proof fn lemma_computed_record_fields(data_block: Seq<u8>, app_tag: u16, ref_tag: u32)
    ensures
        T10Dif::protecting(data_block, app_tag, ref_tag).guard_tag == crc16_t10_dif(data_block),
        T10Dif::protecting(data_block, app_tag, ref_tag).app_tag == app_tag,
        T10Dif::protecting(data_block, app_tag, ref_tag).ref_tag == ref_tag,
{
}

/// The application and reference tags of a computed record do not depend on
/// the block: two blocks of any lengths get the same tags.
pub proof fn lemma_tags_independent_of_block(
    block1: Seq<u8>,
    block2: Seq<u8>,
    app_tag: u16,
    ref_tag: u32,
)
    ensures
        T10Dif::protecting(block1, app_tag, ref_tag).app_tag == T10Dif::protecting(
            block2,
            app_tag,
            ref_tag,
        ).app_tag,
        T10Dif::protecting(block1, app_tag, ref_tag).ref_tag == T10Dif::protecting(
            block2,
            app_tag,
            ref_tag,
        ).ref_tag,
{
}

/// A block of zero bytes, of any length, has guard tag 0; a record with guard
/// tag 0 is accepted on it, and a record with another guard tag is refused.
pub proof fn lemma_zero_block_guard(n: nat, dif: T10Dif, app_tag: u16, ref_tag: u32)
    ensures
        T10Dif::protecting(Seq::new(n, |i: int| 0u8), app_tag, ref_tag).guard_tag == 0,
        dif.guards(Seq::new(n, |i: int| 0u8)) <==> dif.guard_tag == 0,
{
    lemma_crc_of_zeros(n);
}

/// The guard tag of the ASCII block "123456789" is the check value 0xD0DB of
/// CRC-16/T10-DIF.
pub proof fn lemma_check_value_guard(app_tag: u16, ref_tag: u32)
    ensures
        T10Dif::protecting(
            seq![0x31u8, 0x32u8, 0x33u8, 0x34u8, 0x35u8, 0x36u8, 0x37u8, 0x38u8, 0x39u8],
            app_tag,
            ref_tag,
        ).guard_tag == 0xd0dbu16,
{
    lemma_crc_check_value();
}

/// `verify` accepts exactly the records whose guard tag is the block's
/// CRC-16/T10-DIF; the other two tags play no part.
pub proof fn lemma_guards_iff_crc(dif: T10Dif, data_block: Seq<u8>, app_tag: u16, ref_tag: u32)
    ensures
        dif.guards(data_block) <==> dif.guard_tag == crc16_t10_dif(data_block),
        dif.guards(data_block) == (T10Dif { app_tag, ref_tag, ..dif }).guards(data_block),
{
}

/// In the image of a record, the guard tag takes bytes 0..2, the
/// application tag bytes 2..4 and the reference tag bytes 4..8, each as the
/// machine lays out an integer of its width.
pub proof fn lemma_encoding_field_offsets(dif: T10Dif)
    ensures
        dif.encoding().len() == 8,
        dif.encoding().subrange(0, 2) == u16_image(dif.guard_tag),
        dif.encoding().subrange(2, 4) == u16_image(dif.app_tag),
        dif.encoding().subrange(4, 8) == u32_image(dif.ref_tag),
{
    lemma_u16_image_roundtrip(dif.guard_tag);
    lemma_u16_image_roundtrip(dif.app_tag);
    lemma_u32_image_roundtrip(dif.ref_tag);
    assert(dif.encoding().subrange(0, 2) =~= u16_image(dif.guard_tag));
    assert(dif.encoding().subrange(2, 4) =~= u16_image(dif.app_tag));
    assert(dif.encoding().subrange(4, 8) =~= u32_image(dif.ref_tag));
}

/// A record computed for a block is accepted by `verify` on that block.
pub proof fn lemma_verify_accepts_computed(data_block: Seq<u8>, app_tag: u16, ref_tag: u32)
    ensures
        T10Dif::protecting(data_block, app_tag, ref_tag).guards(data_block),
{
}

/// A record computed for a block is refused by `verify` on any corruption of
/// that block (same length) confined to two adjacent bytes, in particular on
/// any single flipped bit or changed byte.
pub proof fn lemma_verify_detects_two_byte_corruption(
    data_block: Seq<u8>,
    corrupted: Seq<u8>,
    i: int,
    app_tag: u16,
    ref_tag: u32,
)
    requires
        corrupted.len() == data_block.len(),
        0 <= i < data_block.len(),
        forall|j: int|
            0 <= j < data_block.len() && (j < i || j > i + 1) ==> corrupted[j] == data_block[j],
        corrupted != data_block,
    ensures
        !T10Dif::protecting(data_block, app_tag, ref_tag).guards(corrupted),
{
    lemma_crc_detects_two_byte_window(data_block, corrupted, i);
}

/// Decoding the image of a record gives the record back.
pub proof fn lemma_decode_encode(dif: T10Dif)
    ensures
        T10Dif::decoding(dif.encoding()) == dif,
        dif.encoding().len() == DIF_RECORD_LEN,
{
    lemma_u16_image_roundtrip(dif.guard_tag);
    lemma_u16_image_roundtrip(dif.app_tag);
    lemma_u32_image_roundtrip(dif.ref_tag);
    let e = dif.encoding();
    assert(e.subrange(0, 2) =~= u16_image(dif.guard_tag));
    assert(e.subrange(2, 4) =~= u16_image(dif.app_tag));
    assert(e.subrange(4, 8) =~= u32_image(dif.ref_tag));
}

/// Every 8 bytes are the image of the record they decode to.
pub proof fn lemma_encode_decode(bytes: Seq<u8>)
    requires
        bytes.len() == DIF_RECORD_LEN,
    ensures
        T10Dif::decoding(bytes).encoding() == bytes,
{
    lemma_u16_bytes_roundtrip(bytes.subrange(0, 2));
    lemma_u16_bytes_roundtrip(bytes.subrange(2, 4));
    lemma_u32_bytes_roundtrip(bytes.subrange(4, 8));
    assert(T10Dif::decoding(bytes).encoding() =~= bytes);
}

} // verus!
