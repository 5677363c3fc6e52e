//! Loaded code: code words, function tables and the module object that the
//! loader produces.
use vstd::prelude::*;
use crate::heap::{Heap, ModFunArity};
use crate::term::Term;

verus! {

/// A word of loaded code: an opcode or an argument value.
#[derive(Clone, Copy, PartialEq, Eq, Structural, Debug)]
pub enum CodeWord {
    Opcode(u8),
    Value(Term),
}

/// A function of a module by name and arity.
#[derive(Clone, Copy, PartialEq, Eq, Structural, Debug)]
pub struct FunArity {
    pub f: Term,
    pub arity: usize,
}

/// A function table entry: the function and the code offset where its code
/// begins.
#[derive(Clone, Copy, PartialEq, Eq, Structural, Debug)]
pub struct FunLoc {
    pub fa: FunArity,
    pub offset: usize,
}

/// The table after setting the code offset of `fa` to `offset`: entries of
/// `fa` get the new offset; with none, a new entry is added at the end.
pub open spec fn fun_table_set(v: Seq<FunLoc>, fa: FunArity, offset: usize) -> Seq<FunLoc> {
    if exists|i: int| 0 <= i < v.len() && (#[trigger] v[i]).fa == fa {
        Seq::new(v.len(), |i: int| if v[i].fa == fa { FunLoc { fa, offset } } else { v[i] })
    } else {
        v.push(FunLoc { fa, offset })
    }
}

/// Set the code offset of `fa` to `offset` in the function table `v`.
pub fn fun_table_insert(v: &mut Vec<FunLoc>, fa: FunArity, offset: usize)
    ensures
        final(v)@ == fun_table_set(old(v)@, fa, offset),
{
    let mut found = false;
    let mut i: usize = 0;
    let ghost v0 = v@;
    while i < v.len()
        invariant
            i <= v@.len(),
            v@.len() == v0.len(),
            v0 == old(v)@,
            found == exists|j: int| 0 <= j < i && (#[trigger] v0[j]).fa == fa,
            forall|j: int| 0 <= j < i ==> #[trigger] v@[j] == (if v0[j].fa == fa { FunLoc { fa, offset } } else { v0[j] }),
            forall|j: int| i <= j < v@.len() ==> #[trigger] v@[j] == v0[j],
        decreases v@.len() - i,
    {
        if v[i].fa == fa {
            v.set(i, FunLoc { fa, offset });
            found = true;
        }
        i = i + 1;
    }
    if found {
        assert(v@ =~= Seq::new(v0.len(), |j: int| if v0[j].fa == fa { FunLoc { fa, offset } } else { v0[j] }));
    } else {
        assert(v@ =~= v0);
        v.push(FunLoc { fa, offset });
    }
}

/// A module name with the version of its code.
#[derive(Clone, Copy, PartialEq, Eq, Structural, Debug)]
pub struct VersionedModuleName {
    pub module: Term,
    pub version: usize,
}

/// A lambda of a loaded module: its module, name and arity, and how many
/// values a closure of it captures.
#[derive(Clone, Copy, PartialEq, Eq, Structural, Debug)]
pub struct FunEntry {
    pub mfa: ModFunArity,
    pub nfrozen: usize,
}

impl FunEntry {
    /// A new lambda entry.
    pub fn new(mfa: ModFunArity, nfrozen: usize) -> (r: FunEntry)
        ensures
            r == (FunEntry { mfa, nfrozen }),
    {
        FunEntry { mfa, nfrozen }
    }
}

/// A loaded module: its code, functions, literals and lambdas.
pub struct Module {
    pub name: VersionedModuleName,
    pub code: Vec<CodeWord>,
    pub funs: Vec<FunLoc>,
    pub lit_heap: Heap,
    pub lambdas: Vec<FunEntry>,
}

/// The loaded modules, and the code versions handed out.
pub struct CodeServer {
    pub last_version: usize,
    pub modules: Vec<Module>,
}

/// The code version handed out after `v`: one more, staying at the largest
/// value once there.
pub open spec fn next_version(v: usize) -> usize {
    if v < usize::MAX { (v + 1) as usize } else { v }
}

/// The position of the first entry for `fa` in `funs` from `from` on.
pub open spec fn first_fun(funs: Seq<FunLoc>, fa: FunArity, from: int) -> Option<int>
    decreases funs.len() - from,
{
    if from < 0 || from >= funs.len() {
        None
    } else if funs[from].fa == fa {
        Some(from)
    } else {
        first_fun(funs, fa, from + 1)
    }
}

/// The position of the first module named `m` in `mods` from `from` on.
pub open spec fn first_module(mods: Seq<Module>, m: Term, from: int) -> Option<int>
    decreases mods.len() - from,
{
    if from < 0 || from >= mods.len() {
        None
    } else if mods[from].name.module == m {
        Some(from)
    } else {
        first_module(mods, m, from + 1)
    }
}

/// Where the function `f`/`arity` of the module named `m` begins: the first
/// module with that name, and the first entry of the function in it.
pub open spec fn mfa_location(mods: Seq<Module>, m: Term, f: Term, arity: usize) -> Option<(usize, usize)> {
    match first_module(mods, m, 0) {
        None => None,
        Some(mi) => match first_fun(mods[mi].funs@, FunArity { f, arity }, 0) {
            None => None,
            Some(i) => Some((mi as usize, mods[mi].funs@[i].offset)),
        },
    }
}

/// The position of the first entry for `fa` in `funs`.
fn find_fun(funs: &Vec<FunLoc>, fa: FunArity) -> (r: Option<usize>)
    ensures
        match r {
            Some(i) => i < funs@.len() && first_fun(funs@, fa, 0) == Some(i as int),
            None => first_fun(funs@, fa, 0) is None,
        },
{
    let mut i: usize = 0;
    while i < funs.len()
        invariant
            i <= funs@.len(),
            first_fun(funs@, fa, 0) == first_fun(funs@, fa, i as int),
        decreases funs@.len() - i,
    {
        if funs[i].fa == fa {
            return Some(i);
        }
        i = i + 1;
    }
    None
}

/// Adding a module whose name no loaded module has makes its functions
/// reachable: a lookup finds each function of it at its offset, in the
/// added module, and finds nothing for a function it lacks.
pub proof fn law_add_then_lookup(mods: Seq<Module>, m: Module, f: Term, arity: usize)
    requires
        first_module(mods, m.name.module, 0) is None,
    ensures
        mfa_location(mods.push(m), m.name.module, f, arity) == (match first_fun(m.funs@, FunArity { f, arity }, 0) {
            Some(i) => Some((mods.len() as usize, m.funs@[i].offset)),
            None => None,
        }),
{
    lemma_first_module_push(mods, m, 0);
}

/// Looking a name up in a list with one more module at the end finds the
/// same module as before, or the new one when there was none.
proof fn lemma_first_module_push(mods: Seq<Module>, m: Module, from: int)
    requires
        0 <= from <= mods.len(),
        first_module(mods, m.name.module, from) is None,
    ensures
        first_module(mods.push(m), m.name.module, from) == Some(mods.len() as int),
    decreases mods.len() - from,
{
    if from < mods.len() {
        assert(mods.push(m)[from] == mods[from]);
        lemma_first_module_push(mods, m, from + 1);
    } else {
        assert(mods.push(m)[from] == m);
    }
}

impl CodeServer {
    /// No module loaded yet.
    pub fn new() -> (r: CodeServer)
        ensures
            r.last_version == 0,
            r.modules@.len() == 0,
    {
        CodeServer { last_version: 0, modules: Vec::new() }
    }

    /// The version for the next code loaded for the module `_name`: one
    /// more than the last version handed out (it stays at the largest
    /// value once there).
    pub fn next_module_version(&mut self, _name: Term) -> (r: usize)
        ensures
            r == next_version(old(self).last_version),
            final(self).last_version == r,
            final(self).modules == old(self).modules,
    {
        if self.last_version < usize::MAX {
            self.last_version = self.last_version + 1;
        }
        self.last_version
    }

    /// Add a loaded module; return its index.
    pub fn add_module(&mut self, m: Module) -> (r: usize)
        ensures
            r == old(self).modules@.len(),
            final(self).modules@ == old(self).modules@.push(m),
            final(self).last_version == old(self).last_version,
    {
        let r = self.modules.len();
        self.modules.push(m);
        r
    }

    /// Where the function `f`/`arity` of the module named `m` begins: the
    /// index of the first module with that name and the function's code
    /// offset in it.
    pub fn lookup_mfa(&self, m: Term, f: Term, arity: usize) -> (r: Option<(usize, usize)>)
        ensures
            r == mfa_location(self.modules@, m, f, arity),
    {
        let mut mi: usize = 0;
        while mi < self.modules.len()
            invariant
                mi <= self.modules@.len(),
                first_module(self.modules@, m, 0) == first_module(self.modules@, m, mi as int),
            decreases self.modules@.len() - mi,
        {
            if self.modules[mi].name.module == m {
                return match find_fun(&self.modules[mi].funs, FunArity { f, arity }) {
                    Some(i) => Some((mi, self.modules[mi].funs[i].offset)),
                    None => None,
                };
            }
            mi = mi + 1;
        }
        None
    }
}

} // verus!
