//! Buffers of bytes that carry data blocks and T10-DIF records to and from a
//! device, and the record layout within them.

use vstd::prelude::*;
use crate::dif::{T10Dif, DIF_RECORD_LEN, lemma_decode_encode, lemma_encode_decode};
use vstd::arithmetic::power2::{lemma2_to64, lemma_pow2_adds, lemma_pow2_pos, lemma_pow2_unfold, pow2};

verus! {

/// Bytes of one data block.
pub const DATA_BLOCK_LEN: usize = 4096;

/// Bytes set aside for metadata after the data block in a combined buffer.
pub const METADATA_AREA_LEN: usize = 512;

/// Bytes of a combined buffer: one data block followed by its metadata area.
pub const COMBINED_LEN: usize = DATA_BLOCK_LEN + METADATA_AREA_LEN;

/// Alignment of a combined buffer.
pub const COMBINED_ALIGN: usize = 4096;

/// Why a buffer could not be made.
#[derive(Copy, Clone, Debug, PartialEq, Eq, Structural)]
pub enum BufferError {
    /// The alignment is not a power of two multiple of the pointer size.
    InvalidAlignment,
    /// The size is beyond what one allocation can hold.
    TooLarge,
}

/// Whether `n` is a power of two.
pub open spec fn is_power_of_two(n: nat) -> bool
    decreases n,
{
    if n <= 1 {
        n == 1
    } else {
        n % 2 == 0 && is_power_of_two(n / 2)
    }
}

/// Bytes of a pointer on this machine.
pub open spec fn pointer_size() -> nat {
    (usize::BITS / 8) as nat
}

/// An alignment that an aligned allocation accepts: a power of two that is
/// a multiple of the pointer size.
pub open spec fn valid_alignment(align: nat) -> bool {
    is_power_of_two(align) && align % pointer_size() == 0
}

/// `bytes` with the bytes from `off` on replaced by `part`.
pub open spec fn splice(bytes: Seq<u8>, off: int, part: Seq<u8>) -> Seq<u8> {
    bytes.subrange(0, off) + part + bytes.subrange(off + part.len(), bytes.len() as int)
}

/// The record whose image starts at `off` in `bytes`.
pub open spec fn record_at(bytes: Seq<u8>, off: int) -> T10Dif {
    T10Dif::decoding(bytes.subrange(off, off + DIF_RECORD_LEN))
}

/// `bytes` with the image of `dif` written at `off`.
pub open spec fn with_record(bytes: Seq<u8>, off: int, dif: T10Dif) -> Seq<u8> {
    splice(bytes, off, dif.encoding())
}

/// `after` is `before` with the image of `dif` at bytes `off..off + 8`: same
/// length, those bytes the record's image, every other byte unchanged.
pub open spec fn written_at(before: Seq<u8>, after: Seq<u8>, off: int, dif: T10Dif) -> bool {
    &&& after.len() == before.len()
    &&& after.subrange(off, off + DIF_RECORD_LEN) == dif.encoding()
    &&& forall|k: int|
        0 <= k < before.len() && (k < off || k >= off + DIF_RECORD_LEN) ==> #[trigger] after[k]
            == before[k]
}

/// Whether `align` is a valid alignment (see `valid_alignment`).
pub fn is_valid_alignment(align: usize) -> (ok: bool)
    ensures
        ok == valid_alignment(align as nat),
{
    let word: usize = (usize::BITS / 8) as usize;
    if align == 0 || align % word != 0 {
        return false;
    }
    let mut n: usize = align;
    while n > 1 && n % 2 == 0
        invariant
            n >= 1,
            is_power_of_two(n as nat) == is_power_of_two(align as nat),
        decreases n,
    {
        n = n / 2;
    }
    n == 1
}

/// A buffer of bytes for direct I/O with a device, with the alignment that
/// the device transfer needs. The bytes themselves are not placed at that
/// alignment: the alignment is checked and recorded, and the code that does
/// the transfer copies the bytes to memory aligned as recorded. Its contents
/// start zeroed.
pub struct DmaBuffer {
    bytes: Vec<u8>,
    align: usize,
}

impl View for DmaBuffer {
    type V = Seq<u8>;

    closed spec fn view(&self) -> Seq<u8> {
        self.bytes@
    }
}

impl DmaBuffer {
    /// The buffer's invariant: it was made with a valid alignment. The
    /// constructors establish it and no method changes the alignment.
    pub open spec fn well_formed(self) -> bool {
        valid_alignment(self.alignment())
    }

    /// The alignment the buffer was made with.
    pub closed spec fn alignment(self) -> nat {
        self.align as nat
    }

    /// The number of whole records the buffer holds.
    pub open spec fn record_count(self) -> nat {
        self@.len() / (DIF_RECORD_LEN as nat)
    }

    /// Makes a zeroed buffer of `size` bytes aligned to `align`.
    /// Fails with `InvalidAlignment` when `align` is not a power of two
    /// multiple of the pointer size, else with `TooLarge` when `size` is over
    /// `isize::MAX`.
    pub fn new(size: usize, align: usize) -> (r: Result<DmaBuffer, BufferError>)
        ensures
            r is Ok <==> (is_power_of_two(align as nat) && (align as nat) % pointer_size() == 0
                && size <= isize::MAX),
            match r {
                Ok(buffer) => {
                    &&& valid_alignment(align as nat)
                    &&& size <= isize::MAX
                    &&& buffer@ == Seq::new(size as nat, |i: int| 0u8)
                    &&& buffer.alignment() == align
                    &&& buffer.well_formed()
                },
                Err(e) => {
                    ||| e == BufferError::InvalidAlignment && !valid_alignment(align as nat)
                    ||| e == BufferError::TooLarge && valid_alignment(align as nat) && size
                        > isize::MAX
                },
            },
    {
        if !is_valid_alignment(align) {
            return Err(BufferError::InvalidAlignment);
        }
        if size > isize::MAX as usize {
            return Err(BufferError::TooLarge);
        }
        let bytes: Vec<u8> = vec![0u8; size];
        assert(bytes@ =~= Seq::new(size as nat, |i: int| 0u8));
        Ok(DmaBuffer { bytes, align })
    }

    /// Makes a buffer for one data block followed by its metadata area:
    /// `COMBINED_LEN` zeroed bytes aligned to `COMBINED_ALIGN`.
    pub fn new_combined() -> (r: Result<DmaBuffer, BufferError>)
        ensures
            r is Ok,
            match r {
                Ok(buffer) => buffer@ == Seq::new(COMBINED_LEN as nat, |i: int| 0u8)
                    && buffer.alignment() == COMBINED_ALIGN && buffer.well_formed(),
                Err(_) => false,
            },
    {
        assert(valid_alignment(4096)) by {
            assert(is_power_of_two(1));
            assert(is_power_of_two(2));
            assert(is_power_of_two(4));
            assert(is_power_of_two(8));
            assert(is_power_of_two(16));
            assert(is_power_of_two(32));
            assert(is_power_of_two(64));
            assert(is_power_of_two(128));
            assert(is_power_of_two(256));
            assert(is_power_of_two(512));
            assert(is_power_of_two(1024));
            assert(is_power_of_two(2048));
            assert(is_power_of_two(4096));
            assert(usize::BITS == 32 || usize::BITS == 64);
            assert(pointer_size() == 4 || pointer_size() == 8);
            if pointer_size() == 4 {
                assert(4096nat % 4 == 0);
            } else {
                assert(4096nat % 8 == 0);
            }
        }
        Self::new(COMBINED_LEN, COMBINED_ALIGN)
    }

    /// The size of the buffer in bytes.
    pub fn len(&self) -> (n: usize)
        ensures
            n == self@.len(),
    {
        self.bytes.len()
    }

    /// The alignment the buffer was made with.
    pub fn align(&self) -> (a: usize)
        ensures
            a == self.alignment(),
    {
        self.align
    }

    /// The contents of the buffer.
    pub fn as_slice(&self) -> (s: &[u8])
        ensures
            s@ == self@,
    {
        self.bytes.as_slice()
    }

    /// The contents of the buffer, to be read or written in place.
    pub fn as_mut_slice(&mut self) -> (s: &mut [u8])
        ensures
            s@ == old(self)@,
            final(self)@ == final(s)@,
            final(self).alignment() == old(self).alignment(),
    {
        self.bytes.as_mut_slice()
    }

    /// The data block at the start of the buffer (its first `DATA_BLOCK_LEN`
    /// bytes), to be read or written in place; the rest stays as it was.
    pub fn data_part_mut(&mut self) -> (s: &mut [u8])
        requires
            old(self)@.len() >= DATA_BLOCK_LEN,
        ensures
            s@ == old(self)@.subrange(0, DATA_BLOCK_LEN as int),
            final(self)@ == final(s)@ + old(self)@.subrange(
                DATA_BLOCK_LEN as int,
                old(self)@.len() as int,
            ),
            final(self).alignment() == old(self).alignment(),
    {
        let all = self.bytes.as_mut_slice();
        let (data, _rest) = all.split_at_mut(DATA_BLOCK_LEN);
        data
    }

    /// The record stored from byte `off` on.
    fn read_record(&self, off: usize) -> (dif: T10Dif)
        requires
            off + DIF_RECORD_LEN <= self@.len(),
        ensures
            dif == record_at(self@, off as int),
            dif.encoding() == self@.subrange(off as int, off + DIF_RECORD_LEN),
    {
        let b = &self.bytes;
        // the length is a usize, so the offsets below do not overflow
        let _len = b.len();
        let image: [u8; 8] = [
            b[off],
            b[off + 1],
            b[off + 2],
            b[off + 3],
            b[off + 4],
            b[off + 5],
            b[off + 6],
            b[off + 7],
        ];
        assert(image@ =~= self@.subrange(off as int, off + DIF_RECORD_LEN));
        proof {
            lemma_encode_decode(image@);
        }
        T10Dif::from_ne_bytes(image)
    }

    /// Stores the image of `dif` from byte `off` on.
    fn write_record(&mut self, off: usize, dif: T10Dif)
        requires
            off + DIF_RECORD_LEN <= old(self)@.len(),
        ensures
            final(self)@ == with_record(old(self)@, off as int, dif),
            final(self).alignment() == old(self).alignment(),
            written_at(old(self)@, final(self)@, off as int, dif),
    {
        let image = dif.to_ne_bytes();
        // the length is a usize, so the offsets below do not overflow
        let _len = self.bytes.len();
        self.bytes.set(off, image[0]);
        self.bytes.set(off + 1, image[1]);
        self.bytes.set(off + 2, image[2]);
        self.bytes.set(off + 3, image[3]);
        self.bytes.set(off + 4, image[4]);
        self.bytes.set(off + 5, image[5]);
        self.bytes.set(off + 6, image[6]);
        self.bytes.set(off + 7, image[7]);
        assert(self@ =~= with_record(old(self)@, off as int, dif));
        proof {
            lemma_with_record_bytes(old(self)@, off as int, dif);
        }
    }

    /// The number of whole records the buffer holds.
    pub fn dif_count(&self) -> (n: usize)
        ensures
            n == self.record_count(),
    {
        self.bytes.len() / DIF_RECORD_LEN
    }

    /// The record at index `index` when the buffer is read as an array of
    /// records.
    pub fn dif_entry(&self, index: usize) -> (dif: T10Dif)
        requires
            index < self.record_count(),
        ensures
            dif == record_at(self@, index * DIF_RECORD_LEN),
            dif.encoding() == self@.subrange(
                index * DIF_RECORD_LEN,
                index * DIF_RECORD_LEN + DIF_RECORD_LEN,
            ),
    {
        let len = self.bytes.len();
        assert(index * 8 + 8 <= len) by (nonlinear_arith)
            requires
                index < len / 8,
        ;
        self.read_record(index * DIF_RECORD_LEN)
    }

    /// Stores `dif` at index `index` of the buffer read as an array of
    /// records; the other bytes stay as they were.
    pub fn set_dif_entry(&mut self, index: usize, dif: T10Dif)
        requires
            index < old(self).record_count(),
        ensures
            final(self)@ == with_record(old(self)@, index * DIF_RECORD_LEN, dif),
            final(self).alignment() == old(self).alignment(),
            written_at(old(self)@, final(self)@, index * DIF_RECORD_LEN, dif),
    {
        let len = self.bytes.len();
        assert(index * 8 + 8 <= len) by (nonlinear_arith)
            requires
                index < len / 8,
        ;
        self.write_record(index * DIF_RECORD_LEN, dif)
    }

    /// The record stored right after the data block (from byte
    /// `DATA_BLOCK_LEN` on).
    pub fn dif_part(&self) -> (dif: T10Dif)
        requires
            self@.len() >= DATA_BLOCK_LEN + DIF_RECORD_LEN,
        ensures
            dif == record_at(self@, DATA_BLOCK_LEN as int),
            dif.encoding() == self@.subrange(
                DATA_BLOCK_LEN as int,
                DATA_BLOCK_LEN + DIF_RECORD_LEN,
            ),
    {
        self.read_record(DATA_BLOCK_LEN)
    }

    /// Stores `dif` right after the data block (from byte `DATA_BLOCK_LEN`
    /// on); the other bytes stay as they were.
    pub fn set_dif_part(&mut self, dif: T10Dif)
        requires
            old(self)@.len() >= DATA_BLOCK_LEN + DIF_RECORD_LEN,
        ensures
            final(self)@ == with_record(old(self)@, DATA_BLOCK_LEN as int, dif),
            final(self).alignment() == old(self).alignment(),
            written_at(old(self)@, final(self)@, DATA_BLOCK_LEN as int, dif),
    {
        self.write_record(DATA_BLOCK_LEN, dif)
    }
}

/// Reading the record just written at `off` gives it back.
pub proof fn lemma_read_after_write(bytes: Seq<u8>, off: int, dif: T10Dif)
    requires
        0 <= off,
        off + DIF_RECORD_LEN <= bytes.len(),
    ensures
        record_at(with_record(bytes, off, dif), off) == dif,
        with_record(bytes, off, dif).len() == bytes.len(),
{
    lemma_decode_encode(dif);
    assert(with_record(bytes, off, dif).subrange(off, off + DIF_RECORD_LEN) =~= dif.encoding());
}

/// Writing a record changes no byte outside its own 8 bytes.
pub proof fn lemma_write_keeps_other_bytes(bytes: Seq<u8>, off: int, dif: T10Dif, k: int)
    requires
        0 <= off,
        off + DIF_RECORD_LEN <= bytes.len(),
        0 <= k < bytes.len(),
        k < off || k >= off + DIF_RECORD_LEN,
    ensures
        with_record(bytes, off, dif)[k] == bytes[k],
{
    lemma_decode_encode(dif);
}

/// Writing a record leaves every record that does not overlap it as it was,
/// and the data block in front of the record area too.
pub proof fn lemma_write_keeps_other_records(bytes: Seq<u8>, off: int, dif: T10Dif, other: int)
    requires
        0 <= off,
        off + DIF_RECORD_LEN <= bytes.len(),
        0 <= other,
        other + DIF_RECORD_LEN <= bytes.len(),
        other + DIF_RECORD_LEN <= off || off + DIF_RECORD_LEN <= other,
    ensures
        record_at(with_record(bytes, off, dif), other) == record_at(bytes, other),
        off >= DATA_BLOCK_LEN ==> with_record(bytes, off, dif).subrange(0, DATA_BLOCK_LEN as int)
            == bytes.subrange(0, DATA_BLOCK_LEN as int),
{
    lemma_decode_encode(dif);
    let w = with_record(bytes, off, dif);
    assert(w.subrange(other, other + DIF_RECORD_LEN) =~= bytes.subrange(
        other,
        other + DIF_RECORD_LEN,
    ));
    if off >= DATA_BLOCK_LEN {
        assert(w.subrange(0, DATA_BLOCK_LEN as int) =~= bytes.subrange(0, DATA_BLOCK_LEN as int));
    }
}


/// Writing a record at any offset puts exactly the record's image at that
/// offset and leaves every other byte as it was.
pub proof fn lemma_with_record_bytes(bytes: Seq<u8>, off: int, dif: T10Dif)
    requires
        0 <= off,
        off + DIF_RECORD_LEN <= bytes.len(),
    ensures
        written_at(bytes, with_record(bytes, off, dif), off, dif),
{
    lemma_decode_encode(dif);
    let w = with_record(bytes, off, dif);
    assert(w.subrange(off, off + DIF_RECORD_LEN) =~= dif.encoding());
}

/// At any offset, the bytes that are the image of a record read as that
/// record: the layout does not depend on where the record lies.
pub proof fn lemma_record_at_reads_image(bytes: Seq<u8>, off: int, dif: T10Dif)
    requires
        0 <= off,
        off + DIF_RECORD_LEN <= bytes.len(),
        bytes.subrange(off, off + DIF_RECORD_LEN) == dif.encoding(),
    ensures
        record_at(bytes, off) == dif,
{
    lemma_decode_encode(dif);
}

/// The record at an offset depends only on the 8 bytes there: it is the
/// record those 8 bytes read as on their own, and its image is those bytes.
pub proof fn lemma_record_at_is_local(bytes: Seq<u8>, off: int)
    requires
        0 <= off,
        off + DIF_RECORD_LEN <= bytes.len(),
    ensures
        record_at(bytes, off) == record_at(bytes.subrange(off, off + DIF_RECORD_LEN), 0),
        record_at(bytes, off).encoding() == bytes.subrange(off, off + DIF_RECORD_LEN),
{
    let part = bytes.subrange(off, off + DIF_RECORD_LEN);
    assert(part.subrange(0, DIF_RECORD_LEN as int) =~= part);
    lemma_encode_decode(part);
}

/// Every power of two from 8 on is a valid alignment, on 32- and on 64-bit
/// machines alike.
pub proof fn lemma_powers_of_two_are_valid_alignments(k: nat)
    requires
        k >= 3,
    ensures
        valid_alignment(pow2(k)),
{
    lemma_pow2_is_power_of_two(k);
    lemma_pow2_adds(3, (k - 3) as nat);
    lemma2_to64();
    lemma_pow2_pos((k - 3) as nat);
    let m = pow2((k - 3) as nat);
    assert(pow2(k) == 8 * m);
    assert(usize::BITS == 32 || usize::BITS == 64);
    assert(pointer_size() == 4 || pointer_size() == 8);
    assert((8 * m) % 8 == 0 && (8 * m) % 4 == 0) by (nonlinear_arith);
    if pointer_size() == 4 {
        assert(pow2(k) % 4 == 0);
    } else {
        assert(pow2(k) % 8 == 0);
    }
}

/// Every valid alignment is a power of two (`pow2` of some exponent) and a
/// multiple of the pointer size.
pub proof fn lemma_valid_alignments_are_powers_of_two(align: nat)
    requires
        valid_alignment(align),
    ensures
        exists|k: nat| pow2(k) == align,
        align % pointer_size() == 0,
{
    let k = lemma_power_of_two_exponent(align);
}

/// `pow2(k)` is a power of two.
proof fn lemma_pow2_is_power_of_two(k: nat)
    ensures
        is_power_of_two(pow2(k)),
    decreases k,
{
    if k == 0 {
        lemma2_to64();
    } else {
        lemma_pow2_is_power_of_two((k - 1) as nat);
        lemma_pow2_unfold(k);
        lemma_pow2_pos((k - 1) as nat);
        let m = pow2((k - 1) as nat);
        assert((2 * m) / 2 == m && (2 * m) % 2 == 0);
    }
}

/// A power of two is `pow2` of an exponent.
proof fn lemma_power_of_two_exponent(n: nat) -> (k: nat)
    requires
        is_power_of_two(n),
    ensures
        pow2(k) == n,
    decreases n,
{
    if n <= 1 {
        lemma2_to64();
        0
    } else {
        let j = lemma_power_of_two_exponent(n / 2);
        lemma_pow2_unfold(j + 1);
        j + 1
    }
}

} // verus!
