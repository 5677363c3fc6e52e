//! Errors produced by the runtime.
use vstd::prelude::*;
use crate::exc_type::ExceptionType;
use crate::term::Term;
use crate::heap::{Heap, HeapObject};
use crate::atoms;

verus! {

/// Errors of the binary reader.
#[derive(Clone, Copy, PartialEq, Eq, Structural, Debug)]
pub enum ReadError {
    /// The data ended before the requested amount could be read.
    PrematureEOF,
    /// The data did not hold the expected bytes.
    UnexpectedBytes,
    /// The bytes are not valid UTF-8.
    BadUtf8,
}

/// Errors created when parsing compact term format.
#[derive(Debug)]
pub enum CompactTermError {
    BadLiteralTag,
    BadAtomTag,
    BadXRegTag,
    BadYRegTag,
    BadLabelTag,
    BadCharacterTag,
    BadIntegerTag,
    BadExtendedTag(String),
}

/// Runtime errors.
#[derive(Debug)]
pub enum RtErr {
    /// A compact term could not be decoded.
    CodeLoadingCompactTerm(CompactTermError),
    /// A code module could not be loaded.
    CodeLoadingFailed(String),
    /// A BEAM file could not be read.
    ReadError(ReadError),
    /// An Erlang exception of a given type with a given reason.
    Exception(ExceptionType, Term),
    /// No built-in function is known for the requested module, function and arity.
    BifNotFound(String),
    /// A value was expected to be of a certain box type, but was not.
    BoxedIsNotOfType,
    /// The heap cannot hold another object.
    HeapIsFull,
    /// A binary destination is too small for the data written into it.
    BinaryDestinationTooSmall,
}

/// Result of a runtime operation.
pub type RtResult<T> = Result<T, RtErr>;

/// The error `error:badarg`.
pub open spec fn badarg_err() -> RtErr {
    RtErr::Exception(ExceptionType::Error, Term::Atom(atoms::BADARG))
}

/// Fail with `error:badarg`.
pub fn badarg<T>() -> (r: RtResult<T>)
    ensures
        r == Err::<T, RtErr>(badarg_err()),
{
    Err(RtErr::Exception(ExceptionType::Error, Term::Atom(atoms::BADARG)))
}

/// Fail with `error:badfun`.
pub fn badfun<T>() -> (r: RtResult<T>)
    ensures
        r == Err::<T, RtErr>(RtErr::Exception(ExceptionType::Error, Term::Atom(atoms::BADFUN))),
{
    Err(RtErr::Exception(ExceptionType::Error, Term::Atom(atoms::BADFUN)))
}

/// Fail with `error:{Tag, Val}`, the tuple made on `hp`.
fn tagged_error<T>(tag: usize, val: Term, hp: &mut Heap) -> (r: RtResult<T>)
    ensures
        final(hp).stack@ == old(hp).stack@,
        old(hp).objs().len() < usize::MAX ==> r == Err::<T, RtErr>(RtErr::Exception(
            ExceptionType::Error,
            Term::Boxed(old(hp).objs().len() as usize),
        )) && final(hp).objs() == old(hp).objs().push(crate::heap::HeapObjectView::Tuple(seq![Term::Atom(tag), val])),
        old(hp).objs().len() >= usize::MAX ==> r is Err && r->Err_0 is HeapIsFull,
{
    let mut v: Vec<Term> = Vec::new();
    v.push(Term::Atom(tag));
    v.push(val);
    assert(v@ =~= seq![Term::Atom(tag), val]);
    let idx = hp.allocate(HeapObject::Tuple(v))?;
    Err(RtErr::Exception(ExceptionType::Error, Term::Boxed(idx)))
}

/// Fail with `error:{badfun, Val}`, the tuple made on `hp`.
pub fn badfun_val<T>(val: Term, hp: &mut Heap) -> (r: RtResult<T>)
    ensures
        final(hp).stack@ == old(hp).stack@,
        old(hp).objs().len() < usize::MAX ==> r == Err::<T, RtErr>(RtErr::Exception(
            ExceptionType::Error,
            Term::Boxed(old(hp).objs().len() as usize),
        )) && final(hp).objs() == old(hp).objs().push(crate::heap::HeapObjectView::Tuple(seq![Term::Atom(atoms::BADFUN), val])),
        old(hp).objs().len() >= usize::MAX ==> r is Err && r->Err_0 is HeapIsFull,
{
    tagged_error(atoms::BADFUN, val, hp)
}

/// Fail with `error:{badmatch, Val}`, the tuple made on `hp`.
pub fn badmatch_val<T>(val: Term, hp: &mut Heap) -> (r: RtResult<T>)
    ensures
        final(hp).stack@ == old(hp).stack@,
        old(hp).objs().len() < usize::MAX ==> r == Err::<T, RtErr>(RtErr::Exception(
            ExceptionType::Error,
            Term::Boxed(old(hp).objs().len() as usize),
        )) && final(hp).objs() == old(hp).objs().push(crate::heap::HeapObjectView::Tuple(seq![Term::Atom(atoms::BADMATCH), val])),
        old(hp).objs().len() >= usize::MAX ==> r is Err && r->Err_0 is HeapIsFull,
{
    tagged_error(atoms::BADMATCH, val, hp)
}

/// Fail with `error:{badarg, Val}`, the tuple made on `hp`.
pub fn badarg_val<T>(val: Term, hp: &mut Heap) -> (r: RtResult<T>)
    ensures
        final(hp).stack@ == old(hp).stack@,
        old(hp).objs().len() < usize::MAX ==> r == Err::<T, RtErr>(RtErr::Exception(
            ExceptionType::Error,
            Term::Boxed(old(hp).objs().len() as usize),
        )) && final(hp).objs() == old(hp).objs().push(crate::heap::HeapObjectView::Tuple(seq![Term::Atom(atoms::BADARG), val])),
        old(hp).objs().len() >= usize::MAX ==> r is Err && r->Err_0 is HeapIsFull,
{
    tagged_error(atoms::BADARG, val, hp)
}

} // verus!
