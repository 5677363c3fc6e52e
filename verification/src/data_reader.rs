//! Readers of binary data: byte-aligned, or at a bit offset.
use vstd::prelude::*;
use crate::bitsize::BitSize;
use crate::defs::BYTE_BITS;
use crate::sizes::SizeBytes;

verus! {

/// Byte data with a possibly non-zero bit offset.
pub struct BitDataPointer {
    pub data: Vec<u8>,
    pub offset: BitSize,
}

impl BitDataPointer {
    /// Point at `data` from the bit `offset` on.
    pub fn new(data: Vec<u8>, offset: BitSize) -> (r: BitDataPointer)
        ensures
            r.data@ == data@,
            r.offset == offset,
    {
        BitDataPointer { data, offset }
    }
}

/// A reader of binary data: its size in bits, and its bytes.
pub trait TDataReader {
    /// The bytes of the data.
    spec fn bytes_spec(&self) -> Seq<u8>;

    /// The size of the data in bits.
    fn get_bit_size(&self) -> (r: BitSize)
        requires
            self.bytes_spec().len() * BYTE_BITS <= usize::MAX,
        ensures
            r.bits == self.bytes_spec().len() * BYTE_BITS,
    ;

    /// The byte at `n`.
    fn read(&self, n: usize) -> (r: u8)
        requires
            n < self.bytes_spec().len(),
        ensures
            r == self.bytes_spec()[n as int],
    ;
}

/// Bit data starting at a bit offset into its bytes.
pub struct BitReader {
    pub data: Vec<u8>,
    pub offset: BitSize,
}

impl BitReader {
    /// The bits from the offset to the end of the data, as a number.
    pub open spec fn bits_left(&self) -> int {
        self.data@.len() * BYTE_BITS - self.offset.bits
    }

    /// Read `data` from the bit `offset` on.
    pub fn new(data: Vec<u8>, offset: BitSize) -> (r: BitReader)
        ensures
            r.data@ == data@,
            r.offset == offset,
    {
        BitReader { data, offset }
    }

    /// The same data, `offs` bits further on.
    pub fn add_bit_offset(&self, offs: BitSize) -> (r: BitReader)
        requires
            self.offset.bits + offs.bits <= usize::MAX,
        ensures
            r.data@ == self.data@,
            r.offset.bits == self.offset.bits + offs.bits,
            r.bits_left() == self.bits_left() - offs.bits,
    {
        let mut data: Vec<u8> = Vec::new();
        let mut i: usize = 0;
        while i < self.data.len()
            invariant
                i <= self.data@.len(),
                data@ == self.data@.subrange(0, i as int),
            decreases self.data@.len() - i,
        {
            data.push(self.data[i]);
            i = i + 1;
            assert(data@ =~= self.data@.subrange(0, i as int));
        }
        assert(data@ =~= self.data@);
        BitReader { data, offset: self.offset + offs }
    }

    /// The bits from the offset to the end of the data (the last byte may
    /// be incomplete).
    pub fn get_bit_size(&self) -> (r: BitSize)
        requires
            self.data@.len() * BYTE_BITS <= usize::MAX,
            self.offset.bits <= self.data@.len() * BYTE_BITS,
        ensures
            r.bits == self.data@.len() * BYTE_BITS - self.offset.bits,
            r.bits == self.bits_left(),
    {
        BitSize::with_bits(self.data.len() * BYTE_BITS - self.offset.bits)
    }
}

/// Moving the offset on keeps the data: the bits left shrink by the bits
/// moved over, whatever the length of the data, and where both bit sizes
/// can be asked for they differ by that many bits.
pub proof fn law_add_bit_offset(a: BitReader, offs: BitSize, b: BitReader)
    requires
        b.data@ == a.data@,
        b.offset.bits == a.offset.bits + offs.bits,
    ensures
        b.bits_left() == a.bits_left() - offs.bits,
        b.offset.bits <= b.data@.len() * BYTE_BITS ==> a.offset.bits <= a.data@.len() * BYTE_BITS,
{
}

/// Byte-aligned read-only data.
pub struct ByteReader {
    pub data: Vec<u8>,
}

impl ByteReader {
    /// Read the first `size` bytes of `data` (all of them when there are
    /// fewer).
    pub fn new(data: &[u8], size: usize) -> (r: ByteReader)
        ensures
            r.data@ == data@.subrange(0, if size <= data@.len() { size as int } else { data@.len() as int }),
    {
        let n = if size <= data.len() { size } else { data.len() };
        let mut v: Vec<u8> = Vec::new();
        let mut i: usize = 0;
        while i < n
            invariant
                i <= n,
                n <= data@.len(),
                v@ == data@.subrange(0, i as int),
            decreases n - i,
        {
            v.push(data[i]);
            i = i + 1;
            assert(v@ =~= data@.subrange(0, i as int));
        }
        ByteReader { data: v }
    }

    /// A reader of the `size` bytes from `offs` on (fewer when the data ends
    /// sooner).
    pub fn set_offset_and_size(self, offs: SizeBytes, size: SizeBytes) -> (r: ByteReader)
        requires
            offs.bytes <= self.data@.len(),
        ensures
            r.data@ == self.data@.subrange(
                offs.bytes as int,
                offs.bytes + (if self.data@.len() - offs.bytes <= size.bytes { self.data@.len() - offs.bytes } else { size.bytes as int }),
            ),
    {
        let start = offs.bytes();
        let dl = self.data.len();
        let rest = dl - start;
        let new_len = if rest <= size.bytes() { rest } else { size.bytes() };
        let mut v: Vec<u8> = Vec::new();
        let mut i: usize = 0;
        while i < new_len
            invariant
                i <= new_len,
                start + new_len <= self.data@.len(),
                dl == self.data@.len(),
                v@ == self.data@.subrange(start as int, start + i),
            decreases new_len - i,
        {
            v.push(self.data[start + i]);
            i = i + 1;
            assert(v@ =~= self.data@.subrange(start as int, start + i));
        }
        ByteReader { data: v }
    }
}

impl TDataReader for ByteReader {
    open spec fn bytes_spec(&self) -> Seq<u8> {
        self.data@
    }

    fn get_bit_size(&self) -> (r: BitSize) {
        BitSize::with_bytes(self.data.len())
    }

    fn read(&self, n: usize) -> (r: u8) {
        self.data[n]
    }
}

} // verus!
