//! Raw tables of a BEAM file, as read and before they are tied to the VM.
use vstd::prelude::*;

verus! {

/// Imports table item (a function of another module called by this one).
#[derive(Clone, Copy, PartialEq, Eq, Structural, Debug)]
pub struct LtImport {
    pub mod_atom_i: usize,
    pub fun_atom_i: usize,
    pub arity: usize,
}

/// Exports table item, as specified in the `-export()` attribute (the same
/// format serves the local functions table).
#[derive(Clone, Copy, PartialEq, Eq, Structural, Debug)]
pub struct LtExport {
    pub fun_atom_i: usize,
    pub arity: usize,
    pub label: usize,
}

/// A function closure used in this file, with its number of captured values.
#[derive(Clone, Copy, PartialEq, Eq, Structural, Debug)]
pub struct LtFun {
    pub arity: usize,
    pub fun_atom_i: usize,
    pub code_pos: usize,
    pub index: usize,
    pub nfrozen: usize,
    pub ouniq: usize,
}

/// Stage 1 raw structures, as decoded from the BEAM file but not yet ready
/// to be used at runtime.
pub struct LoaderRaw {
    /// Atom names as bytes.
    pub atoms: Vec<Vec<u8>>,
    pub imports: Vec<LtImport>,
    pub exports: Vec<LtExport>,
    pub locals: Vec<LtExport>,
    pub lambdas: Vec<LtFun>,
    /// The code section, parsed later.
    pub code: Vec<u8>,
}

impl LoaderRaw {
    /// Empty tables.
    pub fn new() -> (r: LoaderRaw)
        ensures
            r.atoms@.len() == 0,
            r.imports@.len() == 0,
            r.exports@.len() == 0,
            r.locals@.len() == 0,
            r.lambdas@.len() == 0,
            r.code@.len() == 0,
    {
        LoaderRaw {
            atoms: Vec::new(),
            imports: Vec::new(),
            exports: Vec::new(),
            locals: Vec::new(),
            lambdas: Vec::new(),
            code: Vec::new(),
        }
    }
}

} // verus!
