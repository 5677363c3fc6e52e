//! Sizes counted in bits, as used by binaries and bit strings.
use vstd::prelude::*;
use crate::defs::{BYTE_BITS, BYTE_POF2_BITS, BYTE_SHIFT_RANGE_MASK, WORD_BYTES};
use crate::sizes::{ByteSize, WordSize};

verus! {

/// A size in bits.
#[derive(Clone, Copy, PartialEq, Eq, Structural, PartialOrd, Ord, Debug)]
pub struct BitSize {
    pub bits: usize,
}

impl BitSize {
    /// Zero bits.
    pub fn zero() -> (r: Self)
        ensures
            r.bits == 0,
    {
        Self { bits: 0 }
    }

    /// Whether the size is zero.
    pub fn is_empty(self) -> (r: bool)
        ensures
            r == (self.bits == 0),
    {
        self.bits == 0
    }

    /// Size of `bit_count` bits.
    pub fn with_bits(bit_count: usize) -> (r: Self)
        ensures
            r.bits == bit_count,
    {
        Self { bits: bit_count }
    }

    /// Bits in a byte size.
    pub fn with_bytesize(size: ByteSize) -> (r: Self)
        requires
            size.0 * BYTE_BITS <= usize::MAX,
        ensures
            r.bits == size.0 * BYTE_BITS,
    {
        Self { bits: size.bytes() * BYTE_BITS }
    }

    /// Bits in `size` bytes.
    pub fn with_bytes(size: usize) -> (r: Self)
        requires
            size * BYTE_BITS <= usize::MAX,
        ensures
            r.bits == size * BYTE_BITS,
    {
        Self { bits: size * BYTE_BITS }
    }

    /// Bits in `size` units of `unit` bits each. The product must be smaller
    /// than `usize::MAX` (the runtime checks this in debug builds).
    pub fn with_unit(size: usize, unit: usize) -> (r: Self)
        requires
            unit > 0,
            size < usize::MAX / unit,
        ensures
            r.bits == size * unit,
    {
        proof {
            assert(size * unit <= usize::MAX) by (nonlinear_arith)
                requires
                    unit > 0,
                    size < usize::MAX / unit,
            ;
        }
        Self { bits: size * unit }
    }

    /// Bits in `size` units of `unit` bits each, without the debug check.
    pub fn with_unit_const(size: usize, unit: usize) -> (r: Self)
        requires
            size * unit <= usize::MAX,
        ensures
            r.bits == size * unit,
    {
        Self { bits: size * unit }
    }

    /// How many hanging bits are there. Value range is 0..7, 0 means all bytes
    /// are whole and no hanging bits.
    pub fn get_last_byte_bits(&self) -> (r: usize)
        ensures
            r == self.bits % 8,
    {
        let b = self.bits;
        assert(b & 7 == b % 8) by (bit_vector);
        self.bits & BYTE_SHIFT_RANGE_MASK
    }

    /// Whole bytes in this size.
    pub fn get_byte_size_rounded_down(&self) -> (r: ByteSize)
        ensures
            r.0 == self.bits / 8,
    {
        ByteSize::new(self.get_bytes_rounded_down())
    }

    /// Whole bytes in this size.
    pub fn get_bytes_rounded_down(&self) -> (r: usize)
        ensures
            r == self.bits / 8,
    {
        let b = self.bits;
        assert(b >> 3 == b / 8) by (bit_vector);
        self.bits >> BYTE_POF2_BITS
    }

    /// Bytes needed to store this size.
    pub fn get_byte_size_rounded_up(self) -> (r: ByteSize)
        requires
            self.bits + 7 <= usize::MAX,
        ensures
            r.0 == (self.bits + 7) / 8,
    {
        ByteSize::new((self.bits + BYTE_SHIFT_RANGE_MASK) / BYTE_BITS)
    }

    /// Words needed to store the whole bytes of this size.
    pub fn get_words_rounded_up(self) -> (r: WordSize)
        ensures
            r.0 == (self.bits / 8 + 7) / 8,
    {
        let b = self.get_byte_size_rounded_down().bytes();
        WordSize::new((b + WORD_BYTES - 1) / WORD_BYTES)
    }
}

/// Rounding a bit count to bytes: the whole bytes and the hanging bits add
/// up to the count; rounding up adds one byte exactly when bits hang; a
/// count made of whole bytes rounds back to those bytes both ways.
pub proof fn law_byte_rounding(bits: nat, bytes: nat)
    ensures
        bits / 8 * 8 + bits % 8 == bits,
        (bits + 7) / 8 == (if bits % 8 == 0 { bits / 8 } else { bits / 8 + 1 }),
        (bits + 7) / 8 * 8 >= bits,
        (bytes * 8) / 8 == bytes,
        (bytes * 8 + 7) / 8 == bytes,
        (bytes * 8) % 8 == 0,
{
}

impl core::ops::Add for BitSize {
    type Output = BitSize;

    fn add(self, other: BitSize) -> (r: BitSize) {
        BitSize { bits: self.bits + other.bits }
    }
}

impl vstd::std_specs::ops::AddSpecImpl for BitSize {
    open spec fn obeys_add_spec() -> bool {
        true
    }

    open spec fn add_req(self, rhs: Self) -> bool {
        self.bits + rhs.bits <= usize::MAX
    }

    open spec fn add_spec(self, rhs: Self) -> Self {
        BitSize { bits: (self.bits + rhs.bits) as usize }
    }
}

impl core::ops::Sub for BitSize {
    type Output = BitSize;

    fn sub(self, other: BitSize) -> (r: BitSize) {
        BitSize { bits: self.bits - other.bits }
    }
}

impl vstd::std_specs::ops::SubSpecImpl for BitSize {
    open spec fn obeys_sub_spec() -> bool {
        true
    }

    open spec fn sub_req(self, rhs: Self) -> bool {
        self.bits >= rhs.bits
    }

    open spec fn sub_spec(self, rhs: Self) -> Self {
        BitSize { bits: (self.bits - rhs.bits) as usize }
    }
}

} // verus!
