//! Big integers on the process heap.
use vstd::prelude::*;
use crate::compact_term::le_value;
use crate::fail::{RtErr, RtResult};
use crate::heap::{BigNum, Heap, HeapObject, HeapObjectView};
use crate::term::Term;

verus! {

/// The absolute value of `v`.
pub open spec fn abs(v: int) -> nat {
    if v < 0 { (-v) as nat } else { v as nat }
}

/// Whether `digits` is the shortest little-endian byte string of `n`: one
/// zero byte for zero, else no zero byte at the most significant end.
pub open spec fn minimal_le(digits: Seq<u8>, n: nat) -> bool {
    &&& le_value(digits) == n
    &&& digits.len() >= 1
    &&& n == 0 ==> digits == seq![0u8]
    &&& n != 0 ==> digits.last() != 0
}

/// Sign and magnitude of `val` as `num::BigInt` gives them:
/// `BigInt::from(val).to_bytes_le()` returns the sign (negative exactly when
/// `val` is) and the magnitude's bytes, least significant first, with no
/// zero byte at the top (zero is the single byte `0`).
#[verifier::external_body]
fn isize_sign_magnitude(val: isize) -> (r: (bool, Vec<u8>))
    ensures
        r.0 == (val < 0),
        minimal_le(r.1@, abs(val as int)),
{
    let (sign, bytes) = num::BigInt::from(val).to_bytes_le();
    let negative = match sign {
        num::bigint::Sign::Minus => true,
        num::bigint::Sign::NoSign => false,
        num::bigint::Sign::Plus => false,
    };
    (negative, bytes)
}

/// Create a big integer with the value `val` on the heap.
pub fn from_isize(hp: &mut Heap, val: isize) -> (r: RtResult<Term>)
    ensures
        final(hp).stack@ == old(hp).stack@,
        old(hp).objs().len() < usize::MAX ==> {
            &&& r == Ok::<Term, RtErr>(Term::Boxed(old(hp).objs().len() as usize))
            &&& final(hp).objs().len() == old(hp).objs().len() + 1
            &&& final(hp).objs().take(old(hp).objs().len() as int) == old(hp).objs()
            &&& final(hp).objs().last() matches HeapObjectView::Bignum(neg, digits)
                && neg == (val < 0) && minimal_le(digits, abs(val as int))
        },
        old(hp).objs().len() >= usize::MAX ==> r == Err::<Term, RtErr>(RtErr::HeapIsFull)
            && final(hp).objs() == old(hp).objs(),
{
    let (negative, digits) = isize_sign_magnitude(val);
    let ghost d = digits@;
    let idx = hp.allocate(HeapObject::Bignum(BigNum { negative, digits }));
    match idx {
        Ok(i) => {
            assert(hp.objs().take(old(hp).objs().len() as int) =~= old(hp).objs());
            Ok(Term::Boxed(i))
        },
        Err(e) => Err(e),
    }
}

/// The value of a small integer.
pub fn isize_from(val: Term) -> (r: Option<isize>)
    requires
        val is Small,
    ensures
        r == Some(val->Small_0),
{
    Some(val.get_small_signed())
}

} // verus!
