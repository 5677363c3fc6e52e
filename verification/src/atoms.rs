//! Atoms known to the runtime at startup, by their index in the atom table.
use vstd::prelude::*;

verus! {

pub const FALSE: usize = 0;
pub const TRUE: usize = 1;
pub const NORMAL: usize = 2;
pub const THROW: usize = 3;
pub const ERROR: usize = 4;
pub const EXIT: usize = 5;
pub const NIF_ERROR: usize = 6;
pub const BADARG: usize = 7;
pub const FUNCTION_CLAUSE: usize = 8;
pub const ALL: usize = 9;
pub const ERLANG: usize = 10;
pub const APPLY: usize = 11;
pub const UNDEF: usize = 12;
pub const BADFUN: usize = 13;
pub const BADMATCH: usize = 14;
pub const SYSTEM_LIMIT: usize = 15;

/// Number of atoms known at startup.
pub const PREDEFINED_COUNT: usize = 16;

} // verus!
