//! The arithmetic of the integrity bench: how much to test, where each
//! request of a batch goes, the reference tag of its block, and what counts
//! as a corrupted record.

use vstd::prelude::*;
use crate::dif::T10Dif;

verus! {

/// Bytes of one logical block.
pub const LBA_LEN: u64 = 4096;

/// Bytes between two requests of a batch: a data block and a metadata block.
pub const PAIR_STRIDE: u64 = 8192;

/// Bytes in one gigabyte.
pub const GIGABYTE: u64 = 1073741824;

/// The number of blocks in `size_gb` gigabytes.
pub fn total_blocks(size_gb: u64) -> (blocks: u64)
    requires
        size_gb * GIGABYTE <= u64::MAX,
    ensures
        blocks == size_gb * GIGABYTE / (LBA_LEN as int),
{
    (size_gb * GIGABYTE) / LBA_LEN
}

/// The number of whole batches of `batch_size` requests in `blocks` blocks.
pub fn batch_count(blocks: u64, batch_size: u64) -> (batches: u64)
    requires
        batch_size > 0,
    ensures
        batches == blocks / batch_size,
{
    blocks / batch_size
}

/// The device offset of request `slot` of the batch that starts at
/// `batch_offset`.
pub fn slot_offset(batch_offset: u64, slot: u64) -> (offset: u64)
    requires
        batch_offset + slot * PAIR_STRIDE <= u64::MAX,
    ensures
        offset == batch_offset + slot * PAIR_STRIDE,
{
    batch_offset + slot * PAIR_STRIDE
}

/// The offset of the batch after the one that starts at `batch_offset`.
pub fn next_batch_offset(batch_offset: u64, batch_size: u64) -> (offset: u64)
    requires
        batch_offset + batch_size * PAIR_STRIDE <= u64::MAX,
    ensures
        offset == batch_offset + batch_size * PAIR_STRIDE,
{
    batch_offset + batch_size * PAIR_STRIDE
}

/// The reference tag of request `slot` of the batch that starts at
/// `batch_offset`: the logical block address of the batch plus two per slot,
/// truncated to 32 bits.
pub fn slot_ref_tag(batch_offset: u64, slot: u64) -> (tag: u32)
    requires
        batch_offset / LBA_LEN + 2 * slot <= u64::MAX,
    ensures
        tag == (batch_offset / LBA_LEN + 2 * slot) as u32,
{
    let lba_base = batch_offset / LBA_LEN;
    (lba_base + slot * 2) as u32
}

/// When batches start on block boundaries, the reference tag of a request is
/// the logical block address of its own offset, truncated to 32 bits.
pub proof fn lemma_ref_tag_is_lba_of_offset(batch_offset: u64, slot: u64)
    requires
        batch_offset % LBA_LEN == 0,
        batch_offset + slot * PAIR_STRIDE <= u64::MAX,
    ensures
        (batch_offset / LBA_LEN + 2 * slot) == (batch_offset + slot * PAIR_STRIDE) / (
        LBA_LEN as int),
{
    let b = batch_offset as int;
    let s = slot as int;
    assert((b + s * 8192) / 4096 == b / 4096 + 2 * s) by (nonlinear_arith)
        requires
            b % 4096 == 0,
            b >= 0,
            s >= 0,
    ;
}

/// Whether a record read back differs from the one written in its guard tag
/// or its reference tag (the application tag is not compared).
pub open spec fn corrupted(written: T10Dif, read: T10Dif) -> bool {
    written.guard_tag != read.guard_tag || written.ref_tag != read.ref_tag
}

/// The number of corrupted records among the first `n` pairs.
pub open spec fn corrupted_count(written: Seq<T10Dif>, read: Seq<T10Dif>, n: int) -> nat
    decreases n,
{
    if n <= 0 {
        0
    } else {
        corrupted_count(written, read, n - 1) + if corrupted(written[n - 1], read[n - 1]) {
            1nat
        } else {
            0nat
        }
    }
}

/// Whether the record read back differs from the one written (see
/// `corrupted`).
pub fn is_corrupted(written: &T10Dif, read: &T10Dif) -> (bad: bool)
    ensures
        bad == corrupted(*written, *read),
        bad == (written.guard_tag != read.guard_tag || written.ref_tag != read.ref_tag),
{
    written.guard_tag != read.guard_tag || written.ref_tag != read.ref_tag
}

/// The number of positions at which the record read back differs from the
/// one written.
pub fn count_corrupted(written: &[T10Dif], read: &[T10Dif]) -> (count: u64)
    requires
        written@.len() == read@.len(),
    ensures
        count == corrupted_count(written@, read@, written@.len() as int),
{
    let n = written.len();
    let mut count: u64 = 0;
    for i in 0..n
        invariant
            n == written@.len(),
            n == read@.len(),
            count == corrupted_count(written@, read@, i as int),
            count <= i,
    {
        if is_corrupted(&written[i], &read[i]) {
            count = count + 1;
        }
    }
    count
}


/// Corruption is symmetric in the two records, ignores the application tag,
/// and is absent exactly when guard and reference tags are equal.
pub proof fn lemma_corrupted_symmetric(written: T10Dif, read: T10Dif, app_tag: u16)
    ensures
        corrupted(written, read) == corrupted(read, written),
        !corrupted(written, read) <==> (written.guard_tag == read.guard_tag && written.ref_tag
            == read.ref_tag),
        corrupted(written, read) == corrupted(written, T10Dif { app_tag, ..read }),
        !corrupted(written, written),
{
}

/// Records read back equal to those written count no corruption, and the
/// count never exceeds the number of records compared.
pub proof fn lemma_count_bounds(written: Seq<T10Dif>, read: Seq<T10Dif>, n: int)
    requires
        0 <= n <= written.len(),
        written.len() == read.len(),
    ensures
        corrupted_count(written, read, n) <= n,
        written == read ==> corrupted_count(written, read, n) == 0,
        corrupted_count(written, read, n) == corrupted_count(read, written, n),
    decreases n,
{
    if n > 0 {
        lemma_count_bounds(written, read, n - 1);
        lemma_corrupted_symmetric(written[n - 1], read[n - 1], 0);
    }
}

/// Every pair that differs in guard or reference tag adds one to the count.
pub proof fn lemma_count_step(written: Seq<T10Dif>, read: Seq<T10Dif>, n: int)
    requires
        0 < n <= written.len(),
        written.len() == read.len(),
    ensures
        corrupted_count(written, read, n) == corrupted_count(written, read, n - 1) + if (
        written[n - 1].guard_tag != read[n - 1].guard_tag || written[n - 1].ref_tag != read[n
            - 1].ref_tag) {
            1int
        } else {
            0int
        },
{
}

} // verus!
