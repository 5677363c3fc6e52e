//! Built-in functions (BIFs): the table that maps module, function and
//! arity to a BIF, and the BIFs of processes.
use vstd::prelude::*;
use crate::atom_table::{intern_all, intern_spec, AtomTable};
use crate::atoms;
use crate::exc_type::ExceptionType;
use crate::fail::{badarg, badarg_err, RtErr, RtResult};
use crate::heap::{list_spec, HeapObject, HeapObjectView, ModFunArity};
use crate::process::{Prio, Process};
use crate::scheduler::has_pid;
use crate::term::Term;
use crate::vm::{process_created, VM};

verus! {

/// The built-in functions this runtime has.
#[derive(Clone, Copy, PartialEq, Eq, Structural, Debug)]
pub enum BifId {
    ErlangSelf0,
    ErlangMakeFun3,
    ErlangSpawn3,
    ErlangIsProcessAlive1,
    ErtsInternalSpawnSystemProcess3,
}

/// Number of arguments of a BIF.
pub open spec fn bif_arity(id: BifId) -> usize {
    match id {
        BifId::ErlangSelf0 => 0,
        BifId::ErlangIsProcessAlive1 => 1,
        _ => 3,
    }
}

/// A BIF table entry: module, function, arity and the BIF.
#[derive(Clone, Copy, PartialEq, Eq, Structural, Debug)]
pub struct BifEntry {
    pub m: Term,
    pub f: Term,
    pub arity: usize,
    pub id: BifId,
}

/// The table of BIFs.
pub struct BifTable {
    pub entries: Vec<BifEntry>,
}

/// Whether the entry `e` is for `mfa`.
pub open spec fn entry_matches(e: BifEntry, mfa: ModFunArity) -> bool {
    e.m == mfa.m && e.f == mfa.f && e.arity == mfa.arity
}

impl BifTable {
    /// Every entry's arity is its BIF's arity.
    pub open spec fn wf(&self) -> bool {
        forall|i: int| 0 <= i < self.entries@.len() ==> (#[trigger] self.entries@[i]).arity == bif_arity(self.entries@[i].id)
    }

    /// The table of this runtime's BIFs, their module and function names
    /// added to `atoms`: `erlang:self/0`, `erlang:make_fun/3`,
    /// `erlang:spawn/3`, `erlang:is_process_alive/1` and
    /// `erts_internal:spawn_system_process/3`.
    #[verifier::rlimit(50)]
    pub fn new(atoms: &mut AtomTable) -> (r: BifTable)
        requires
            old(atoms).wf(),
        ensures
            final(atoms).wf(),
            r.wf(),
            old(atoms)@.is_prefix_of(final(atoms)@),
            final(atoms)@ == intern_all(old(atoms)@, bif_atom_names()),
            r.entries@.len() == bif_names().len(),
            forall|k: int| 0 <= k < bif_names().len() ==> {
                let e = #[trigger] r.entries@[k];
                &&& e.m is Atom && e.m->Atom_0 < final(atoms)@.len() && final(atoms)@[e.m->Atom_0 as int] == bif_names()[k].0
                &&& e.f is Atom && e.f->Atom_0 < final(atoms)@.len() && final(atoms)@[e.f->Atom_0 as int] == bif_names()[k].1
                &&& e.arity == bif_names()[k].2
                &&& e.id == bif_names()[k].3
            },
    {
        let erlang = atoms.intern(vec![0x65u8, 0x72, 0x6c, 0x61, 0x6e, 0x67].as_slice());
        let ghost t1 = atoms@;
        let erts_internal = atoms.intern(vec![0x65u8, 0x72, 0x74, 0x73, 0x5f, 0x69, 0x6e, 0x74, 0x65, 0x72, 0x6e, 0x61, 0x6c].as_slice());
        let ghost t2 = atoms@;
        let self_ = atoms.intern(vec![0x73u8, 0x65, 0x6c, 0x66].as_slice());
        let ghost t3 = atoms@;
        let make_fun = atoms.intern(vec![0x6du8, 0x61, 0x6b, 0x65, 0x5f, 0x66, 0x75, 0x6e].as_slice());
        let ghost t4 = atoms@;
        let spawn = atoms.intern(vec![0x73u8, 0x70, 0x61, 0x77, 0x6e].as_slice());
        let ghost t5 = atoms@;
        let is_process_alive = atoms.intern(vec![0x69u8, 0x73, 0x5f, 0x70, 0x72, 0x6f, 0x63, 0x65, 0x73, 0x73, 0x5f, 0x61, 0x6c, 0x69, 0x76, 0x65].as_slice());
        let ghost t6 = atoms@;
        let spawn_system_process = atoms.intern(vec![0x73u8, 0x70, 0x61, 0x77, 0x6e, 0x5f, 0x73, 0x79, 0x73, 0x74, 0x65, 0x6d, 0x5f, 0x70, 0x72, 0x6f, 0x63, 0x65, 0x73, 0x73].as_slice());
        let ghost t7 = atoms@;
        proof {
            lemma_intern_bif_atoms(old(atoms)@, t1, t2, t3, t4, t5, t6, t7);
            assert(t1.is_prefix_of(t7) && t2.is_prefix_of(t7) && t3.is_prefix_of(t7) && t4.is_prefix_of(t7));
            assert(t5.is_prefix_of(t7) && t6.is_prefix_of(t7) && old(atoms)@.is_prefix_of(t7));
        }
        let mut entries: Vec<BifEntry> = Vec::new();
        entries.push(BifEntry { m: erlang, f: self_, arity: 0, id: BifId::ErlangSelf0 });
        entries.push(BifEntry { m: erlang, f: make_fun, arity: 3, id: BifId::ErlangMakeFun3 });
        entries.push(BifEntry { m: erlang, f: spawn, arity: 3, id: BifId::ErlangSpawn3 });
        entries.push(BifEntry { m: erlang, f: is_process_alive, arity: 1, id: BifId::ErlangIsProcessAlive1 });
        entries.push(BifEntry { m: erts_internal, f: spawn_system_process, arity: 3, id: BifId::ErtsInternalSpawnSystemProcess3 });
        BifTable { entries }
    }
}

/// The module and function names of the BIFs, in the order the BIF table
/// adds them to the atom table.
pub open spec fn bif_atom_names() -> Seq<Seq<u8>> {
    seq![
        seq![0x65u8, 0x72, 0x6c, 0x61, 0x6e, 0x67],  // erlang
        seq![0x65u8, 0x72, 0x74, 0x73, 0x5f, 0x69, 0x6e, 0x74, 0x65, 0x72, 0x6e, 0x61, 0x6c],  // erts_internal
        seq![0x73u8, 0x65, 0x6c, 0x66],  // self
        seq![0x6du8, 0x61, 0x6b, 0x65, 0x5f, 0x66, 0x75, 0x6e],  // make_fun
        seq![0x73u8, 0x70, 0x61, 0x77, 0x6e],  // spawn
        seq![0x69u8, 0x73, 0x5f, 0x70, 0x72, 0x6f, 0x63, 0x65, 0x73, 0x73, 0x5f, 0x61, 0x6c, 0x69, 0x76, 0x65],  // is_process_alive
        seq![0x73u8, 0x70, 0x61, 0x77, 0x6e, 0x5f, 0x73, 0x79, 0x73, 0x74, 0x65, 0x6d, 0x5f, 0x70, 0x72, 0x6f, 0x63, 0x65, 0x73, 0x73],  // spawn_system_process
    ]
}

/// Interning the BIF atom names one after the other is interning them all.
proof fn lemma_intern_bif_atoms(
    o: Seq<Seq<u8>>,
    t1: Seq<Seq<u8>>,
    t2: Seq<Seq<u8>>,
    t3: Seq<Seq<u8>>,
    t4: Seq<Seq<u8>>,
    t5: Seq<Seq<u8>>,
    t6: Seq<Seq<u8>>,
    t7: Seq<Seq<u8>>,
)
    requires
        t1 == intern_spec(o, bif_atom_names()[0]).0,
        t2 == intern_spec(t1, bif_atom_names()[1]).0,
        t3 == intern_spec(t2, bif_atom_names()[2]).0,
        t4 == intern_spec(t3, bif_atom_names()[3]).0,
        t5 == intern_spec(t4, bif_atom_names()[4]).0,
        t6 == intern_spec(t5, bif_atom_names()[5]).0,
        t7 == intern_spec(t6, bif_atom_names()[6]).0,
    ensures
        t7 == intern_all(o, bif_atom_names()),
{
    let ns = bif_atom_names();
    assert(ns.take(0) =~= Seq::<Seq<u8>>::empty());
    assert(intern_all(o, ns.take(0)) == o);
    assert(intern_all(o, ns.take(1)) == t1) by {
        assert(ns.take(1).drop_last() =~= ns.take(0));
        assert(ns.take(1).last() == ns[0]);
    }
    assert(intern_all(o, ns.take(2)) == t2) by {
        assert(ns.take(2).drop_last() =~= ns.take(1));
        assert(ns.take(2).last() == ns[1]);
    }
    assert(intern_all(o, ns.take(3)) == t3) by {
        assert(ns.take(3).drop_last() =~= ns.take(2));
        assert(ns.take(3).last() == ns[2]);
    }
    assert(intern_all(o, ns.take(4)) == t4) by {
        assert(ns.take(4).drop_last() =~= ns.take(3));
        assert(ns.take(4).last() == ns[3]);
    }
    assert(intern_all(o, ns.take(5)) == t5) by {
        assert(ns.take(5).drop_last() =~= ns.take(4));
        assert(ns.take(5).last() == ns[4]);
    }
    assert(intern_all(o, ns.take(6)) == t6) by {
        assert(ns.take(6).drop_last() =~= ns.take(5));
        assert(ns.take(6).last() == ns[5]);
    }
    assert(intern_all(o, ns.take(7)) == t7) by {
        assert(ns.take(7).drop_last() =~= ns.take(6));
        assert(ns.take(7).last() == ns[6]);
    }
    assert(ns.take(7) =~= ns);
}

/// The BIFs of this runtime: module name, function name, arity and BIF.
pub open spec fn bif_names() -> Seq<(Seq<u8>, Seq<u8>, usize, BifId)> {
    seq![
        (seq![0x65u8, 0x72, 0x6c, 0x61, 0x6e, 0x67], seq![0x73u8, 0x65, 0x6c, 0x66], 0usize, BifId::ErlangSelf0),
        (seq![0x65u8, 0x72, 0x6c, 0x61, 0x6e, 0x67], seq![0x6du8, 0x61, 0x6b, 0x65, 0x5f, 0x66, 0x75, 0x6e], 3usize, BifId::ErlangMakeFun3),
        (seq![0x65u8, 0x72, 0x6c, 0x61, 0x6e, 0x67], seq![0x73u8, 0x70, 0x61, 0x77, 0x6e], 3usize, BifId::ErlangSpawn3),
        (seq![0x65u8, 0x72, 0x6c, 0x61, 0x6e, 0x67], seq![0x69u8, 0x73, 0x5f, 0x70, 0x72, 0x6f, 0x63, 0x65, 0x73, 0x73, 0x5f, 0x61, 0x6c, 0x69, 0x76, 0x65], 1usize, BifId::ErlangIsProcessAlive1),
        (seq![0x65u8, 0x72, 0x74, 0x73, 0x5f, 0x69, 0x6e, 0x74, 0x65, 0x72, 0x6e, 0x61, 0x6c], seq![0x73u8, 0x70, 0x61, 0x77, 0x6e, 0x5f, 0x73, 0x79, 0x73, 0x74, 0x65, 0x6d, 0x5f, 0x70, 0x72, 0x6f, 0x63, 0x65, 0x73, 0x73], 3usize, BifId::ErtsInternalSpawnSystemProcess3),
    ]
}

/// The BIF of the first entry for `mfa` in `entries` from `from` on.
pub open spec fn first_bif(entries: Seq<BifEntry>, mfa: ModFunArity, from: int) -> Option<BifId>
    decreases entries.len() - from,
{
    if from < 0 || from >= entries.len() {
        None
    } else if entry_matches(entries[from], mfa) {
        Some(entries[from].id)
    } else {
        first_bif(entries, mfa, from + 1)
    }
}

/// The text naming module `m`, function `f` and `arity`.
pub uninterp spec fn mfa_text_of(m: Term, f: Term, arity: usize) -> Seq<char>;

/// The text naming `mfa`, module, function and arity, for an error: made
/// by `format!` from the terms' derived `Debug` and the number, so a
/// function of the three values alone.
#[verifier::external_body]
fn mfa_text(mfa: &ModFunArity) -> (r: String)
    ensures
        r@ == mfa_text_of(mfa.m, mfa.f, mfa.arity),
{
    format!("{:?}:{:?}/{}", mfa.m, mfa.f, mfa.arity)
}

/// Whether `mfa` names a BIF of the table `bifs`.
pub fn is_bif(mfa: &ModFunArity, bifs: &BifTable) -> (r: bool)
    ensures
        r == first_bif(bifs.entries@, *mfa, 0) is Some,
{
    let mut i: usize = 0;
    while i < bifs.entries.len()
        invariant
            i <= bifs.entries@.len(),
            first_bif(bifs.entries@, *mfa, 0) == first_bif(bifs.entries@, *mfa, i as int),
        decreases bifs.entries@.len() - i,
    {
        let bt = bifs.entries[i];
        if bt.m == mfa.m && bt.f == mfa.f && bt.arity == mfa.arity {
            return true;
        }
        i = i + 1;
    }
    false
}

/// The BIF that `mfa` names in the table `bifs`: the first matching entry.
pub fn find_bif(mfa: &ModFunArity, bifs: &BifTable) -> (r: RtResult<BifId>)
    ensures
        match first_bif(bifs.entries@, *mfa, 0) {
            Some(id) => r == Ok::<BifId, RtErr>(id),
            None => r matches Err(RtErr::BifNotFound(t)) && t@ == mfa_text_of(mfa.m, mfa.f, mfa.arity),
        },
{
    let mut i: usize = 0;
    while i < bifs.entries.len()
        invariant
            i <= bifs.entries@.len(),
            first_bif(bifs.entries@, *mfa, 0) == first_bif(bifs.entries@, *mfa, i as int),
        decreases bifs.entries@.len() - i,
    {
        let bt = bifs.entries[i];
        if bt.m == mfa.m && bt.f == mfa.f && bt.arity == mfa.arity {
            return Ok(bt.id);
        }
        i = i + 1;
    }
    Err(RtErr::BifNotFound(mfa_text(mfa)))
}

/// The BIF `_fn_name` takes `have_arity` arguments: callers must pass that
/// many.
pub fn assert_arity(_fn_name: &str, have_arity: usize, args: &[Term])
    requires
        args@.len() == have_arity,
{
}

/// `erlang:self/0`: the pid of the calling process.
pub fn ubif_erlang_self_0(_vm: &mut VM, cur_proc: &mut Process, args: &[Term]) -> (r: RtResult<Term>)
    requires
        args@.len() == 0,
    ensures
        r == Ok::<Term, RtErr>(old(cur_proc).pid),
        *final(_vm) == *old(_vm),
        *final(cur_proc) == *old(cur_proc),
{
    assert_arity("erlang:self", 0, args);
    Ok(cur_proc.pid)
}

/// `erlang:make_fun/3`: an export (a function object) for the module and
/// function atoms and the arity, made on the caller's heap.
pub fn bif_erlang_make_fun_3(_vm: &mut VM, cur_proc: &mut Process, args: &[Term]) -> (r: RtResult<Term>)
    requires
        args@.len() == 3,
    ensures
        *final(_vm) == *old(_vm),
        final(cur_proc).heap.stack@ == old(cur_proc).heap.stack@,
        !(args@[0] is Atom && args@[1] is Atom && args@[2] is Small && args@[2]->Small_0 >= 0) ==> r == Err::<Term, RtErr>(badarg_err()),
        args@[0] is Atom && args@[1] is Atom && args@[2] is Small && args@[2]->Small_0 >= 0 ==> {
            let mfa = ModFunArity { m: args@[0], f: args@[1], arity: args@[2]->Small_0 as usize };
            let objs = old(cur_proc).heap.objs();
            &&& objs.len() < usize::MAX ==> r == Ok::<Term, RtErr>(Term::Boxed(objs.len() as usize))
                && final(cur_proc).heap.objs() == objs.push(HeapObjectView::Export(mfa))
            &&& objs.len() >= usize::MAX ==> r is Err && r->Err_0 is HeapIsFull
        },
{
    assert_arity("erlang:make_fun", 3, args);
    if !args[0].is_atom() || !args[1].is_atom() || !args[2].is_small() || args[2].get_small_signed() < 0 {
        return badarg();
    }
    let mfa = ModFunArity::new(args[0], args[1], args[2].get_small_unsigned());
    let idx = cur_proc.heap.allocate(HeapObject::Export(mfa))?;
    Ok(Term::make_boxed(idx))
}

/// `erlang:spawn/3`: a new process running `M:F` with the list `Args`.
pub fn bif_erlang_spawn_3(vm: &mut VM, cur_proc: &mut Process, args: &[Term]) -> (r: RtResult<Term>)
    requires
        args@.len() == 3,
        old(vm).wf(),
    ensures
        final(vm).wf(),
        *final(cur_proc) == *old(cur_proc),
        match list_spec(old(cur_proc).heap.objs(), args@[2], old(cur_proc).heap.objs().len()) {
            None => r == Err::<Term, RtErr>(badarg_err()) && *final(vm) == *old(vm),
            Some(l) => process_created(*old(vm), *final(vm), args@[0], args@[1], l, Prio::Normal, r),
        },
{
    assert_arity("erlang:spawn", 3, args);
    let list = match cur_proc.heap.list_to_vec(args[2]) {
        Some(l) => l,
        None => return badarg(),
    };
    vm.create_process(Term::nil(), args[0], args[1], list.as_slice(), Prio::Normal)
}

/// `erts_internal:spawn_system_process/3`: a new process running `M:F`
/// with the list `Args`, spawned by the caller.
pub fn bif_erts_internal_spawn_system_process_3(vm: &mut VM, cur_proc: &mut Process, args: &[Term]) -> (r: RtResult<Term>)
    requires
        args@.len() == 3,
        old(vm).wf(),
    ensures
        final(vm).wf(),
        *final(cur_proc) == *old(cur_proc),
        match list_spec(old(cur_proc).heap.objs(), args@[2], old(cur_proc).heap.objs().len()) {
            None => r == Err::<Term, RtErr>(badarg_err()) && *final(vm) == *old(vm),
            Some(l) => process_created(*old(vm), *final(vm), args@[0], args@[1], l, Prio::Normal, r),
        },
{
    assert_arity("erts_internal:spawn_system_process", 3, args);
    let list = match cur_proc.heap.list_to_vec(args[2]) {
        Some(l) => l,
        None => return badarg(),
    };
    vm.create_process(cur_proc.pid, args[0], args[1], list.as_slice(), Prio::Normal)
}

/// `erlang:is_process_alive/1`: whether the process with the pid exists.
pub fn bif_erlang_is_process_alive_1(vm: &mut VM, cur_proc: &mut Process, args: &[Term]) -> (r: RtResult<Term>)
    requires
        args@.len() == 1,
        old(vm).wf(),
    ensures
        *final(vm) == *old(vm),
        *final(cur_proc) == *old(cur_proc),
        !(args@[0] is Pid) ==> r == Err::<Term, RtErr>(badarg_err()),
        args@[0] is Pid ==> r == Ok::<Term, RtErr>(Term::Atom(
            if has_pid(old(vm).scheduler.processes@, args@[0]) { atoms::TRUE } else { atoms::FALSE },
        )),
{
    assert_arity("erlang:is_process_alive", 1, args);
    if !args[0].is_pid() {
        return badarg();
    }
    let result = vm.scheduler.lookup_pid(args[0]).is_some();
    Ok(Term::make_bool(result))
}

/// What a spawning BIF does: a badarg for an argument list that is not a
/// proper list, else a new process for `M:F` with the list's elements.
pub open spec fn spawned(vm0: VM, vm1: VM, p0: Process, args: Seq<Term>, r: RtResult<Term>) -> bool {
    match list_spec(p0.heap.objs(), args[2], p0.heap.objs().len()) {
        None => r == Err::<Term, RtErr>(badarg_err()) && vm1 == vm0,
        Some(l) => process_created(vm0, vm1, args[0], args[1], l, Prio::Normal, r),
    }
}

/// What the BIF `id` does with `args` for the process `p0`: its result `r`,
/// and the machine `vm1` and the process `p1` after it.
pub open spec fn bif_done(id: BifId, vm0: VM, vm1: VM, p0: Process, p1: Process, args: Seq<Term>, r: RtResult<Term>) -> bool {
    match id {
        BifId::ErlangSelf0 => r == Ok::<Term, RtErr>(p0.pid) && vm1 == vm0 && p1 == p0,
        BifId::ErlangMakeFun3 => {
            &&& vm1 == vm0
            &&& p1.heap.stack@ == p0.heap.stack@
            &&& !(args[0] is Atom && args[1] is Atom && args[2] is Small && args[2]->Small_0 >= 0)
                ==> r == Err::<Term, RtErr>(badarg_err())
            &&& args[0] is Atom && args[1] is Atom && args[2] is Small && args[2]->Small_0 >= 0 ==> {
                let mfa = ModFunArity { m: args[0], f: args[1], arity: args[2]->Small_0 as usize };
                let objs = p0.heap.objs();
                &&& objs.len() < usize::MAX ==> r == Ok::<Term, RtErr>(Term::Boxed(objs.len() as usize))
                    && p1.heap.objs() == objs.push(HeapObjectView::Export(mfa))
                &&& objs.len() >= usize::MAX ==> r is Err && r->Err_0 is HeapIsFull
            }
        },
        BifId::ErlangSpawn3 | BifId::ErtsInternalSpawnSystemProcess3 => p1 == p0 && spawned(vm0, vm1, p0, args, r),
        BifId::ErlangIsProcessAlive1 => {
            &&& vm1 == vm0
            &&& p1 == p0
            &&& !(args[0] is Pid) ==> r == Err::<Term, RtErr>(badarg_err())
            &&& args[0] is Pid ==> r == Ok::<Term, RtErr>(Term::Atom(
                if has_pid(vm0.scheduler.processes@, args[0]) { atoms::TRUE } else { atoms::FALSE },
            ))
        },
    }
}

/// Call the BIF `id` with `args` for the process `cur_proc`.
pub fn call_bif(id: BifId, vm: &mut VM, cur_proc: &mut Process, args: &[Term]) -> (r: RtResult<Term>)
    requires
        args@.len() == bif_arity(id),
        old(vm).wf(),
    ensures
        final(vm).wf(),
        final(vm).code_server == old(vm).code_server,
        final(vm).bifs == old(vm).bifs,
        bif_done(id, *old(vm), *final(vm), *old(cur_proc), *final(cur_proc), args@, r),
{
    match id {
        BifId::ErlangSelf0 => ubif_erlang_self_0(vm, cur_proc, args),
        BifId::ErlangMakeFun3 => bif_erlang_make_fun_3(vm, cur_proc, args),
        BifId::ErlangSpawn3 => bif_erlang_spawn_3(vm, cur_proc, args),
        BifId::ErlangIsProcessAlive1 => bif_erlang_is_process_alive_1(vm, cur_proc, args),
        BifId::ErtsInternalSpawnSystemProcess3 => bif_erts_internal_spawn_system_process_3(vm, cur_proc, args),
    }
}

} // verus!
