//! Erlang values as the runtime handles them. A `Term` is a small copyable
//! value: an immediate (small integer, atom, pid, register reference, ...) or
//! a reference to an object stored on a `Heap` (tuples, jump tables, big
//! integers, cons cells, ...).
use vstd::prelude::*;

verus! {

/// Tag of a load-time special value.
#[derive(Clone, Copy, PartialEq, Eq, Structural, Debug)]
pub enum LoadtimeTag {
    Atom,
    Label,
    Literal,
}

/// A runtime value.
#[derive(Clone, Copy, PartialEq, Eq, Structural, Debug)]
pub enum Term {
    /// Special marker for "no value" (an empty register, a raised exception).
    NonValue,
    /// The empty list `[]`.
    Nil,
    /// A small signed integer.
    Small(isize),
    /// An atom, by its index in the atom table.
    Atom(usize),
    /// A local process identifier.
    Pid(usize),
    /// A local port.
    Port(usize),
    /// A local reference.
    Reference(usize),
    /// An X register reference (used in code).
    RegX(usize),
    /// A Y register (stack cell) reference (used in code).
    RegY(usize),
    /// A floating point register reference (used in code).
    RegFp(usize),
    /// A load-time value: atom index, label index or literal index.
    Loadtime(LoadtimeTag, usize),
    /// A code pointer (an offset into the code of a module).
    Cp(usize),
    /// A catch marker pointing at the code location of the catch handler.
    Catch(usize),
    /// A list cell, by the index of the cons object on the heap.
    Cons(usize),
    /// A boxed value, by the index of the object on the heap.
    Boxed(usize),
    /// An index into the literal table of a loaded module.
    Literal(usize),
    /// A pointer to a lambda entry of a loaded module.
    Lambda(usize),
    /// A return address: a module (by its index in the code server) and a
    /// code offset in it.
    ReturnAddr(usize, usize),
    /// The tuple of arity zero.
    EmptyTuple,
    /// The binary of size zero.
    EmptyBinary,
}

impl Term {
    /// The empty list.
    pub fn nil() -> (r: Term)
        ensures
            r == Term::Nil,
    {
        Term::Nil
    }

    /// The special "no value" marker.
    pub fn non_value() -> (r: Term)
        ensures
            r == Term::NonValue,
    {
        Term::NonValue
    }

    /// Whether the term is a proper value (not the no-value marker).
    pub fn is_value(&self) -> (r: bool)
        ensures
            r == (*self != Term::NonValue),
    {
        !matches!(*self, Term::NonValue)
    }

    /// Whether the term is the no-value marker.
    pub fn is_non_value(&self) -> (r: bool)
        ensures
            r == (*self == Term::NonValue),
    {
        matches!(*self, Term::NonValue)
    }

    /// A small integer.
    pub fn make_small_signed(v: isize) -> (r: Term)
        ensures
            r == Term::Small(v),
    {
        Term::Small(v)
    }

    /// A small integer from an unsigned value.
    pub fn make_small_unsigned(v: usize) -> (r: Term)
        requires
            v <= isize::MAX,
        ensures
            r == Term::Small(v as isize),
    {
        Term::Small(v as isize)
    }

    /// Whether the term is a small integer.
    pub fn is_small(&self) -> (r: bool)
        ensures
            r == (*self is Small),
    {
        matches!(*self, Term::Small(_))
    }

    /// The value of a small integer.
    pub fn get_small_signed(&self) -> (r: isize)
        requires
            *self is Small,
        ensures
            r == self->Small_0,
    {
        match *self {
            Term::Small(v) => v,
            _ => 0,
        }
    }

    /// The value of a non-negative small integer.
    pub fn get_small_unsigned(&self) -> (r: usize)
        requires
            *self is Small,
            self->Small_0 >= 0,
        ensures
            r == self->Small_0,
    {
        match *self {
            Term::Small(v) => v as usize,
            _ => 0,
        }
    }

    /// An atom by its index.
    pub fn make_atom(index: usize) -> (r: Term)
        ensures
            r == Term::Atom(index),
    {
        Term::Atom(index)
    }

    /// Whether the term is an atom.
    pub fn is_atom(&self) -> (r: bool)
        ensures
            r == (*self is Atom),
    {
        matches!(*self, Term::Atom(_))
    }

    /// Whether the term is a local pid.
    pub fn is_local_pid(&self) -> (r: bool)
        ensures
            r == (*self is Pid),
    {
        matches!(*self, Term::Pid(_))
    }

    /// Whether the term is a pid.
    pub fn is_pid(&self) -> (r: bool)
        ensures
            r == (*self is Pid),
    {
        matches!(*self, Term::Pid(_))
    }

    /// Whether the term is a port.
    pub fn is_port(&self) -> (r: bool)
        ensures
            r == (*self is Port),
    {
        matches!(*self, Term::Port(_))
    }

    /// Whether the term is a reference.
    pub fn is_ref(&self) -> (r: bool)
        ensures
            r == (*self is Reference),
    {
        matches!(*self, Term::Reference(_))
    }

    /// An X register reference.
    pub fn make_register_x(n: usize) -> (r: Term)
        ensures
            r == Term::RegX(n),
    {
        Term::RegX(n)
    }

    /// A Y register reference.
    pub fn make_register_y(n: usize) -> (r: Term)
        ensures
            r == Term::RegY(n),
    {
        Term::RegY(n)
    }

    /// A floating point register reference.
    pub fn make_register_float(n: usize) -> (r: Term)
        ensures
            r == Term::RegFp(n),
    {
        Term::RegFp(n)
    }

    /// Whether the term is a Y register reference.
    pub fn is_register_y(&self) -> (r: bool)
        ensures
            r == (*self is RegY),
    {
        matches!(*self, Term::RegY(_))
    }

    /// A load-time atom index.
    pub fn make_loadtime_atom(n: usize) -> (r: Term)
        ensures
            r == Term::Loadtime(LoadtimeTag::Atom, n),
    {
        Term::Loadtime(LoadtimeTag::Atom, n)
    }

    /// A load-time label index.
    pub fn make_loadtime_label(n: usize) -> (r: Term)
        ensures
            r == Term::Loadtime(LoadtimeTag::Label, n),
    {
        Term::Loadtime(LoadtimeTag::Label, n)
    }

    /// A load-time literal index.
    pub fn make_loadtime_literal(n: usize) -> (r: Term)
        ensures
            r == Term::Loadtime(LoadtimeTag::Literal, n),
    {
        Term::Loadtime(LoadtimeTag::Literal, n)
    }

    /// Whether the term is a load-time special value.
    pub fn is_loadtime(&self) -> (r: bool)
        ensures
            r == (*self is Loadtime),
    {
        matches!(*self, Term::Loadtime(_, _))
    }

    /// The tag of a load-time special value.
    pub fn get_loadtime_tag(&self) -> (r: LoadtimeTag)
        requires
            *self is Loadtime,
        ensures
            r == self->Loadtime_0,
    {
        match *self {
            Term::Loadtime(t, _) => t,
            _ => LoadtimeTag::Atom,
        }
    }

    /// The index held by a load-time special value.
    pub fn get_loadtime_val(&self) -> (r: usize)
        requires
            *self is Loadtime,
        ensures
            r == self->Loadtime_1,
    {
        match *self {
            Term::Loadtime(_, v) => v,
            _ => 0,
        }
    }

    /// A code pointer.
    pub fn make_cp(offset: usize) -> (r: Term)
        ensures
            r == Term::Cp(offset),
    {
        Term::Cp(offset)
    }

    /// Whether the term is a code pointer.
    pub fn is_cp(&self) -> (r: bool)
        ensures
            r == (*self is Cp),
    {
        matches!(*self, Term::Cp(_))
    }

    /// The lambda index of a lambda reference.
    pub fn get_lambda_index(&self) -> (r: usize)
        requires
            *self is Lambda,
        ensures
            r == self->Lambda_0,
    {
        match *self {
            Term::Lambda(v) => v,
            _ => 0,
        }
    }

    /// The code offset of a code pointer.
    pub fn get_cp_ptr(&self) -> (r: usize)
        requires
            *self is Cp,
        ensures
            r == self->Cp_0,
    {
        match *self {
            Term::Cp(v) => v,
            _ => 0,
        }
    }

    /// A catch marker pointing at a code location.
    pub fn make_catch(offset: usize) -> (r: Term)
        ensures
            r == Term::Catch(offset),
    {
        Term::Catch(offset)
    }

    /// A boxed value stored at heap index `index`.
    pub fn make_boxed(index: usize) -> (r: Term)
        ensures
            r == Term::Boxed(index),
    {
        Term::Boxed(index)
    }

    /// Whether the term is a boxed value.
    pub fn is_boxed(&self) -> (r: bool)
        ensures
            r == (*self is Boxed),
    {
        matches!(*self, Term::Boxed(_))
    }

    /// A list cell stored at heap index `index`.
    pub fn make_cons(index: usize) -> (r: Term)
        ensures
            r == Term::Cons(index),
    {
        Term::Cons(index)
    }

    /// Whether the term is a list cell.
    pub fn is_cons(&self) -> (r: bool)
        ensures
            r == (*self is Cons),
    {
        matches!(*self, Term::Cons(_))
    }

    /// Whether the term is a list: the empty list or a list cell.
    pub fn is_list(&self) -> (r: bool)
        ensures
            r == (*self is Nil || *self is Cons),
    {
        matches!(*self, Term::Nil) || matches!(*self, Term::Cons(_))
    }

    /// The tuple of arity zero.
    pub fn empty_tuple() -> (r: Term)
        ensures
            r == Term::EmptyTuple,
    {
        Term::EmptyTuple
    }

    /// The binary of size zero.
    pub fn empty_binary() -> (r: Term)
        ensures
            r == Term::EmptyBinary,
    {
        Term::EmptyBinary
    }

    /// The boolean atom for `b`.
    pub fn make_bool(b: bool) -> (r: Term)
        ensures
            r == Term::Atom(if b { crate::atoms::TRUE } else { crate::atoms::FALSE }),
    {
        if b {
            Term::Atom(crate::atoms::TRUE)
        } else {
            Term::Atom(crate::atoms::FALSE)
        }
    }
}

} // verus!
