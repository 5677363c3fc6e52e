//! Types of Erlang exceptions.
use vstd::prelude::*;
use crate::atoms;
use crate::term::Term;

verus! {

broadcast use vstd::string::group_string_axioms;

/// Exception type.
#[derive(Clone, Copy, PartialEq, Eq, Structural, Debug)]
pub enum ExceptionType {
    /// Ignores catches.
    Panic,
    Throw,
    Error,
    Exit,
}

impl ExceptionType {
    /// The atom that names the exception type.
    pub open spec fn to_atom_spec(self) -> Term {
        Term::Atom(
            match self {
                ExceptionType::Panic => atoms::NIF_ERROR,
                ExceptionType::Throw => atoms::THROW,
                ExceptionType::Error => atoms::ERROR,
                ExceptionType::Exit => atoms::EXIT,
            },
        )
    }

    /// How the exception type is shown.
    pub open spec fn display_spec(self) -> Seq<char> {
        match self {
            ExceptionType::Exit => "<exit>"@,
            ExceptionType::Throw => "<throw>"@,
            ExceptionType::Error => "<error>"@,
            ExceptionType::Panic => "<panic>"@,
        }
    }

    /// The exception type as shown to a reader: `<exit>`, `<throw>`,
    /// `<error>` or `<panic>`.
    pub fn to_display_string(self) -> (r: String)
        ensures
            r@ == self.display_spec(),
    {
        match self {
            ExceptionType::Exit => "<exit>".to_string(),
            ExceptionType::Throw => "<throw>".to_string(),
            ExceptionType::Error => "<error>".to_string(),
            ExceptionType::Panic => "<panic>".to_string(),
        }
    }

    /// The atom that names the exception type.
    pub fn to_atom(self) -> (r: Term)
        ensures
            r == self.to_atom_spec(),
    {
        match self {
            ExceptionType::Panic => Term::Atom(atoms::NIF_ERROR),
            ExceptionType::Throw => Term::Atom(atoms::THROW),
            ExceptionType::Error => Term::Atom(atoms::ERROR),
            ExceptionType::Exit => Term::Atom(atoms::EXIT),
        }
    }
}

} // verus!
