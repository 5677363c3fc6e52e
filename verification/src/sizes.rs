//! Sizes counted in machine words or in bytes.
use vstd::prelude::*;
use crate::defs::WORD_BYTES;
use crate::bitsize::BitSize;

verus! {

/// Size of something in machine words.
#[derive(Clone, Copy, PartialEq, Eq, Structural, Debug)]
pub struct SizeWords {
    pub words: usize,
}

impl SizeWords {
    /// One word.
    pub fn one() -> (r: Self)
        ensures
            r.words == 1,
    {
        Self { words: 1 }
    }

    /// Zero words.
    pub fn zero() -> (r: Self)
        ensures
            r.words == 0,
    {
        Self { words: 0 }
    }

    /// Size of `words` words.
    pub fn new(words: usize) -> (r: Self)
        ensures
            r.words == words,
    {
        Self { words }
    }

    /// This size grown by `n` words.
    pub fn add(self, n: usize) -> (r: Self)
        requires
            self.words + n <= usize::MAX,
        ensures
            r.words == self.words + n,
    {
        Self { words: self.words + n }
    }

    /// The same size counted in bytes.
    pub fn bytes(self) -> (r: usize)
        requires
            self.words * WORD_BYTES <= usize::MAX,
        ensures
            r == self.words * WORD_BYTES,
    {
        self.words * WORD_BYTES
    }
}


impl core::ops::Add for SizeWords {
    type Output = Self;

    fn add(self, other: Self) -> (r: Self) {
        Self { words: self.words + other.words }
    }
}

impl vstd::std_specs::ops::AddSpecImpl for SizeWords {
    open spec fn obeys_add_spec() -> bool {
        true
    }

    open spec fn add_req(self, rhs: Self) -> bool {
        self.words + rhs.words <= usize::MAX
    }

    open spec fn add_spec(self, rhs: Self) -> Self {
        SizeWords { words: (self.words + rhs.words) as usize }
    }
}

impl core::ops::Sub for SizeWords {
    type Output = Self;

    fn sub(self, other: Self) -> (r: Self) {
        Self { words: self.words - other.words }
    }
}

impl vstd::std_specs::ops::SubSpecImpl for SizeWords {
    open spec fn obeys_sub_spec() -> bool {
        true
    }

    open spec fn sub_req(self, rhs: Self) -> bool {
        self.words >= rhs.words
    }

    open spec fn sub_spec(self, rhs: Self) -> Self {
        SizeWords { words: (self.words - rhs.words) as usize }
    }
}

/// Size of something in bytes.
#[derive(Clone, Copy, PartialEq, Eq, Structural, Debug)]
pub struct SizeBytes {
    pub bytes: usize,
}

impl SizeBytes {
    /// Size of `bytes` bytes.
    pub fn new(bytes: usize) -> (r: SizeBytes)
        ensures
            r.bytes == bytes,
    {
        Self { bytes }
    }

    /// One byte.
    pub fn one() -> (r: Self)
        ensures
            r.bytes == 1,
    {
        Self { bytes: 1 }
    }

    /// Zero bytes.
    pub fn zero() -> (r: Self)
        ensures
            r.bytes == 0,
    {
        Self { bytes: 0 }
    }

    /// Grow this size by `n` bytes.
    pub fn add(&mut self, n: usize)
        requires
            old(self).bytes + n <= usize::MAX,
        ensures
            final(self).bytes == old(self).bytes + n,
    {
        self.bytes = self.bytes + n;
    }

    /// Grow this size by another byte size.
    pub fn add_bytesize(&mut self, other: SizeBytes)
        requires
            old(self).bytes + other.bytes <= usize::MAX,
        ensures
            final(self).bytes == old(self).bytes + other.bytes,
    {
        self.bytes = self.bytes + other.bytes;
    }

    /// Number of bytes.
    pub fn bytes(self) -> (r: usize)
        ensures
            r == self.bytes,
    {
        self.bytes
    }

    /// Whole words that fit in this size.
    pub fn get_words_rounded_down(self) -> (r: SizeWords)
        ensures
            r.words == self.bytes / WORD_BYTES,
    {
        SizeWords::new(self.bytes / WORD_BYTES)
    }

    /// Words needed to store this many bytes. The rounding adds a whole
    /// word before taking one byte off, so the count plus a word must fit.
    pub fn get_words_rounded_up(self) -> (r: SizeWords)
        requires
            self.bytes + WORD_BYTES <= usize::MAX,
        ensures
            r.words == (self.bytes + WORD_BYTES - 1) / (WORD_BYTES as int),
    {
        SizeWords::new((self.bytes + WORD_BYTES - 1) / WORD_BYTES)
    }

    /// This size counted in bits: the byte count multiplied by `WORD_BYTES`
    /// as the unit (the multiplier that the runtime uses here).
    pub fn get_bits(self) -> (r: BitSize)
        requires
            self.bytes * WORD_BYTES <= usize::MAX,
        ensures
            r.bits == self.bytes * WORD_BYTES,
    {
        BitSize::with_unit_const(self.bytes, WORD_BYTES)
    }
}

/// Rounding a byte count to words: the rounded-down words never hold more
/// bytes than the count, the rounded-up words hold at least the count, and
/// the two differ by one word exactly when the count is not a whole number
/// of words.
pub proof fn law_word_rounding(bytes: nat)
    ensures
        bytes / (WORD_BYTES as nat) * (WORD_BYTES as nat) <= bytes,
        (bytes + WORD_BYTES - 1) / (WORD_BYTES as int) * (WORD_BYTES as int) >= bytes,
        (bytes + WORD_BYTES - 1) / (WORD_BYTES as int) == (if bytes % (WORD_BYTES as nat) == 0 {
            (bytes / (WORD_BYTES as nat)) as int
        } else {
            (bytes / (WORD_BYTES as nat)) as int + 1
        }),
{
}

/// Size in machine words (emulator flavour).
#[derive(Clone, Copy, PartialEq, Eq, Structural, Debug)]
pub struct WordSize(pub usize);

impl WordSize {
    /// Size of `words` words.
    pub fn new(words: usize) -> (r: WordSize)
        ensures
            r.0 == words,
    {
        WordSize(words)
    }

    /// This size grown by `n` words.
    pub fn add(self, n: usize) -> (r: WordSize)
        requires
            self.0 + n <= usize::MAX,
        ensures
            r.0 == self.0 + n,
    {
        WordSize(self.0 + n)
    }

    /// Number of words.
    pub fn words(self) -> (r: usize)
        ensures
            r == self.0,
    {
        self.0
    }

    /// The same size counted in bytes.
    pub fn bytes(self) -> (r: usize)
        requires
            self.0 * WORD_BYTES <= usize::MAX,
        ensures
            r == self.0 * WORD_BYTES,
    {
        self.0 * WORD_BYTES
    }
}

/// Size in bytes (emulator flavour).
#[derive(Clone, Copy, PartialEq, Eq, Structural, Debug)]
pub struct ByteSize(pub usize);

impl ByteSize {
    /// Size of `bytes` bytes.
    pub fn new(bytes: usize) -> (r: ByteSize)
        ensures
            r.0 == bytes,
    {
        ByteSize(bytes)
    }

    /// This size grown by `n` bytes.
    pub fn add(self, n: usize) -> (r: ByteSize)
        requires
            self.0 + n <= usize::MAX,
        ensures
            r.0 == self.0 + n,
    {
        ByteSize(self.0 + n)
    }

    /// Number of bytes.
    pub fn bytes(self) -> (r: usize)
        ensures
            r == self.0,
    {
        self.0
    }

    /// Whole words that fit in this size.
    pub fn words_rounded_down(self) -> (r: WordSize)
        ensures
            r.0 == self.0 / WORD_BYTES,
    {
        WordSize::new(self.0 / WORD_BYTES)
    }

    /// Words needed to store this many bytes. The rounding adds a whole
    /// word before taking one byte off, so the count plus a word must fit.
    pub fn words_rounded_up(self) -> (r: WordSize)
        requires
            self.0 + WORD_BYTES <= usize::MAX,
        ensures
            r.0 == (self.0 + WORD_BYTES - 1) / (WORD_BYTES as int),
    {
        WordSize::new((self.0 + WORD_BYTES - 1) / WORD_BYTES)
    }
}

} // verus!
