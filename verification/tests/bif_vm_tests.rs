use erlangrt::atoms;
use erlangrt::bif::{
    bif_erlang_is_process_alive_1, bif_erlang_make_fun_3, bif_erlang_spawn_3, bif_erts_internal_spawn_system_process_3,
    call_bif, find_bif, is_bif, ubif_erlang_self_0, BifId,
};
use erlangrt::exc_type::ExceptionType;
use erlangrt::fail::RtErr;
use erlangrt::heap::{Heap, HeapObject, ModFunArity};
use erlangrt::module::{CodeWord, FunArity, FunLoc, Module, VersionedModuleName};
use erlangrt::opcodes::{DispatchResult, OpcodeApply, OpcodeBif0, OpcodeCallExt, OpcodeCallExtOnly};
use erlangrt::process::{Context, Prio, Process};
use erlangrt::term::Term;
use erlangrt::vm::VM;

fn load(vm: &mut VM, name: &[u8], fname: &[u8], arity: usize, offset: usize) -> (Term, Term, usize) {
    let m = vm.atoms.intern(name);
    let f = vm.atoms.intern(fname);
    let mut lit_heap = Heap::new();
    lit_heap.allocate(HeapObject::Import(ModFunArity::new(m, f, arity))).unwrap();
    let e = vm.atoms.intern(b"erlang");
    let s = vm.atoms.intern(b"self");
    lit_heap.allocate(HeapObject::Import(ModFunArity::new(e, s, 0))).unwrap();
    let idx = vm.code_server.add_module(Module {
        name: VersionedModuleName { module: m, version: 1 },
        code: vec![CodeWord::Opcode(1)],
        funs: vec![FunLoc { fa: FunArity { f, arity }, offset }],
        lit_heap,
        lambdas: vec![],
    });
    (m, f, idx)
}

#[test]
fn bif_table_lookup() {
    let mut vm = VM::new();
    let e = vm.atoms.intern(b"erlang");
    let s = vm.atoms.intern(b"self");
    let spawn = vm.atoms.intern(b"spawn");
    assert!(is_bif(&ModFunArity::new(e, s, 0), &vm.bifs));
    assert!(!is_bif(&ModFunArity::new(e, s, 1), &vm.bifs));
    assert_eq!(find_bif(&ModFunArity::new(e, spawn, 3), &vm.bifs).unwrap(), BifId::ErlangSpawn3);
    assert!(matches!(find_bif(&ModFunArity::new(s, e, 3), &vm.bifs), Err(RtErr::BifNotFound(_))));
}

#[test]
fn self_and_alive() {
    let mut vm = VM::new();
    let mut p = Process::new(Term::Pid(42), Prio::Normal, 0, 0);
    assert_eq!(ubif_erlang_self_0(&mut vm, &mut p, &[]).unwrap(), Term::Pid(42));
    assert_eq!(call_bif(BifId::ErlangSelf0, &mut vm, &mut p, &[]).unwrap(), Term::Pid(42));
    assert_eq!(bif_erlang_is_process_alive_1(&mut vm, &mut p, &[Term::Pid(42)]).unwrap(), Term::Atom(atoms::FALSE));
    assert!(bif_erlang_is_process_alive_1(&mut vm, &mut p, &[Term::Nil]).is_err());
}

#[test]
fn make_fun_makes_an_export() {
    let mut vm = VM::new();
    let mut p = Process::new(Term::Pid(1), Prio::Normal, 0, 0);
    let r = bif_erlang_make_fun_3(&mut vm, &mut p, &[Term::Atom(20), Term::Atom(21), Term::Small(2)]).unwrap();
    assert_eq!(r, Term::Boxed(0));
    assert!(matches!(p.heap.objects[0], HeapObject::Export(ModFunArity { m: Term::Atom(20), f: Term::Atom(21), arity: 2 })));
    let r = bif_erlang_make_fun_3(&mut vm, &mut p, &[Term::Atom(20), Term::Atom(21), Term::Small(-1)]);
    assert!(matches!(r, Err(RtErr::Exception(ExceptionType::Error, Term::Atom(atoms::BADARG)))));
}

#[test]
fn spawn_creates_and_queues_a_process() {
    let mut vm = VM::new();
    let (m, f, idx) = load(&mut vm, b"mod", b"start", 1, 7);
    let mut p = Process::new(Term::Pid(100), Prio::Normal, 0, 0);
    // the argument list [5]
    p.heap.allocate(HeapObject::Cons(Term::Small(5), Term::Nil)).unwrap();
    let pid = bif_erlang_spawn_3(&mut vm, &mut p, &[m, f, Term::Cons(0)]).unwrap();
    assert_eq!(pid, Term::Pid(0));
    assert_eq!(vm.next_pid, 1);
    let np = vm.scheduler.lookup_pid(pid).unwrap();
    assert_eq!((np.context.module, np.context.ip, np.context.live), (idx, 7, 1));
    assert_eq!(np.context.get_x(0), Term::Small(5));
    assert_eq!(bif_erlang_is_process_alive_1(&mut vm, &mut p, &[pid]).unwrap(), Term::Atom(atoms::TRUE));
    // not a list
    assert!(bif_erlang_spawn_3(&mut vm, &mut p, &[m, f, Term::Small(1)]).is_err());
    // unknown function
    let r = bif_erts_internal_spawn_system_process_3(&mut vm, &mut p, &[m, m, Term::Nil]);
    assert!(matches!(r, Err(RtErr::Exception(ExceptionType::Error, Term::Atom(atoms::UNDEF)))));
    assert_eq!(vm.create_process(Term::Nil, m, f, &[Term::Nil], Prio::High).unwrap(), Term::Pid(1));
    assert_eq!(vm.scheduler.queue_high.len(), 1);
}

#[test]
fn call_ext_jumps_to_loaded_code() {
    let mut vm = VM::new();
    let (_m, _f, idx) = load(&mut vm, b"mod", b"go", 0, 11);
    let mut p = Process::new(Term::Pid(0), Prio::Normal, idx, 0);
    let mut ctx = Context::new(idx, 3);
    OpcodeCallExt::call_ext(&mut vm, &mut ctx, &mut p, 0, Term::Boxed(0)).unwrap();
    assert_eq!((ctx.module, ctx.ip, ctx.cp), (idx, 11, Some((idx, 3))));
    // a tail call keeps the return location
    let mut ctx = Context::new(idx, 3);
    OpcodeCallExtOnly::call_ext_only(&mut vm, &mut ctx, &mut p, 0, Term::Boxed(0)).unwrap();
    assert_eq!((ctx.ip, ctx.cp), (11, None));
    // not an import
    let r = OpcodeCallExt::call_ext(&mut vm, &mut ctx, &mut p, 0, Term::Small(1));
    assert!(r.is_err());
}

#[test]
fn call_ext_of_a_bif_runs_it_in_place() {
    let mut vm = VM::new();
    let (_m, _f, idx) = load(&mut vm, b"mod", b"go", 0, 11);
    let mut p = Process::new(Term::Pid(9), Prio::Normal, idx, 0);
    let mut ctx = Context::new(idx, 3);
    OpcodeCallExt::call_ext(&mut vm, &mut ctx, &mut p, 0, Term::Boxed(1)).unwrap();
    assert_eq!(ctx.get_x(0), Term::Pid(9));
    assert_eq!(ctx.ip, 3);
    // as a tail call with nowhere to return to, the process is finished
    let r = OpcodeCallExtOnly::call_ext_only(&mut vm, &mut ctx, &mut p, 0, Term::Boxed(1)).unwrap();
    assert_eq!(r, DispatchResult::Finished);
    // the bif0 instruction stores the result
    OpcodeBif0::bif0(&mut vm, &mut ctx, &mut p, Term::Boxed(1), &[], Term::RegX(5)).unwrap();
    assert_eq!(ctx.get_x(5), Term::Pid(9));
}

#[test]
fn apply_calls_by_name() {
    let mut vm = VM::new();
    let (m, f, idx) = load(&mut vm, b"mod", b"go", 1, 21);
    let mut p = Process::new(Term::Pid(0), Prio::Normal, idx, 0);
    let mut ctx = Context::new(idx, 2);
    ctx.set_x(0, Term::Small(1));
    ctx.set_x(1, m);
    ctx.set_x(2, f);
    OpcodeApply::apply(&mut vm, &mut ctx, &mut p, 1).unwrap();
    assert_eq!((ctx.ip, ctx.cp, ctx.live), (21, Some((idx, 2)), 3));
    ctx.set_x(2, m);
    let r = OpcodeApply::apply(&mut vm, &mut ctx, &mut p, 1);
    assert!(matches!(r, Err(RtErr::Exception(ExceptionType::Error, Term::Atom(atoms::UNDEF)))));
}

#[test]
fn new_vm_knows_its_bifs_and_nothing_else() {
    let vm = VM::new();
    assert_eq!(vm.bifs.entries.len(), 5);
    let erts = vm.atoms.find(b"erts_internal").unwrap();
    let ssp = vm.atoms.find(b"spawn_system_process").unwrap();
    assert_eq!(vm.bifs.entries[4].m, Term::Atom(erts));
    assert_eq!(vm.bifs.entries[4].f, Term::Atom(ssp));
    assert_eq!(vm.next_pid, 0);
    assert_eq!(vm.code_server.last_version, 0);
    assert!(vm.code_server.modules.is_empty());
}
