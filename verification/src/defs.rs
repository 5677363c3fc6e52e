//! Helper module defines types and constants used everywhere in the runtime.
use vstd::prelude::*;

verus! {

/// Word is an unsigned machine-register sized word.
pub type Word = usize;

/// Signed machine word.
pub type SWord = isize;

/// Function arity.
pub type Arity = usize;

/// How many bits have to shift right or left, to lose the 8 multiplier of a byte.
pub const BYTE_POF2_BITS: usize = 3;

/// Bits in a byte.
pub const BYTE_BITS: usize = 8;

/// Mask that selects the bit position inside of a byte.
pub const BYTE_SHIFT_RANGE_MASK: usize = 7;

/// Bits in a machine word (the runtime targets 64-bit machines).
pub const WORD_BITS: usize = 64;

/// How many bits you can reuse in a pointer if the pointer is guaranteed to be aligned.
pub const WORD_ALIGN_SHIFT: usize = 3;

/// This bit is set on boxed values which are CP pointers.
pub const HIGHEST_BIT_CP: u64 = 0x8000_0000_0000_0000u64;

/// Bytes in a machine word.
pub const WORD_BYTES: usize = 8;

/// Number of X registers.
pub const MAX_XREGS: usize = 256;

/// Number of floating point registers.
pub const MAX_FPREGS: usize = 8;

/// Reduction budget and costs.
pub struct Reductions {}

impl Reductions {
    /// How many function-calls/heavier opcodes we process before the process
    /// will be scheduled out and give the way to other processes in the queue.
    pub const DEFAULT: isize = 200;

    /// Fetch is base "tax" for fetching an opcode and dispatching to its handler.
    pub const FETCH_OPCODE_COST: isize = 1;
}

/// Distance between two addresses `a >= b`, counted in elements of type `T`.
pub fn pointer_diff<T>(a: usize, b: usize) -> (r: usize)
    requires
        a >= b,
        vstd::layout::size_of::<T>() > 0,
    ensures
        r == (a - b) / (vstd::layout::size_of::<T>() as int),
{
    let sz = core::mem::size_of::<T>();
    (a - b) / sz
}

} // verus!
