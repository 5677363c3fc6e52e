use erlangrt::heap::{Heap, HeapObject, ModFunArity};
use erlangrt::module::{CodeWord, Module, VersionedModuleName};
use erlangrt::op_checks::{
    OpcodeIsAtom, OpcodeIsBinary, OpcodeIsEq, OpcodeIsEqExact, OpcodeIsFunction, OpcodeIsFunction2, OpcodeIsGe,
    OpcodeIsInteger, OpcodeIsList, OpcodeIsLt, OpcodeIsNumber, OpcodeIsPid, OpcodeIsTuple,
};
use erlangrt::process::{Context, Prio, Process};
use erlangrt::term::Term;
use erlangrt::vm::VM;

/// A machine with one module whose code is `args`, a process, and a context
/// at the start of that code.
fn setup(args: Vec<Term>) -> (VM, Context, Process) {
    let mut vm = VM::new();
    let m = vm.atoms.intern(b"t");
    vm.code_server.add_module(Module {
        name: VersionedModuleName { module: m, version: 1 },
        code: args.into_iter().map(CodeWord::Value).collect(),
        funs: vec![],
        lit_heap: Heap::new(),
        lambdas: vec![],
    });
    (vm, Context::new(0, 0), Process::new(Term::Pid(0), Prio::Normal, 0, 0))
}

#[test]
fn is_atom_passes_or_jumps() {
    let (mut vm, mut ctx, mut p) = setup(vec![Term::Cp(50), Term::Atom(3)]);
    OpcodeIsAtom::run(&mut vm, &mut ctx, &mut p).unwrap();
    assert_eq!(ctx.ip, 2);
    let (mut vm, mut ctx, mut p) = setup(vec![Term::Cp(50), Term::Small(3)]);
    OpcodeIsAtom::run(&mut vm, &mut ctx, &mut p).unwrap();
    assert_eq!(ctx.ip, 50);
}

#[test]
fn checks_read_registers() {
    let (mut vm, mut ctx, mut p) = setup(vec![Term::Cp(50), Term::RegX(4)]);
    ctx.set_x(4, Term::Small(-2));
    OpcodeIsInteger::run(&mut vm, &mut ctx, &mut p).unwrap();
    assert_eq!(ctx.ip, 2);
    ctx.ip = 0;
    OpcodeIsNumber::run(&mut vm, &mut ctx, &mut p).unwrap();
    assert_eq!(ctx.ip, 2);
    ctx.ip = 0;
    OpcodeIsList::run(&mut vm, &mut ctx, &mut p).unwrap();
    assert_eq!(ctx.ip, 50);
}

#[test]
fn boxed_kinds() {
    let (mut vm, mut ctx, mut p) = setup(vec![Term::Cp(50), Term::Boxed(0)]);
    p.heap.allocate(HeapObject::Tuple(vec![Term::Nil])).unwrap();
    OpcodeIsTuple::run(&mut vm, &mut ctx, &mut p).unwrap();
    assert_eq!(ctx.ip, 2);
    ctx.ip = 0;
    OpcodeIsBinary::run(&mut vm, &mut ctx, &mut p).unwrap();
    assert_eq!(ctx.ip, 50);
    ctx.ip = 0;
    OpcodeIsFunction::run(&mut vm, &mut ctx, &mut p).unwrap();
    assert_eq!(ctx.ip, 50);
    let (mut vm, mut ctx, mut p) = setup(vec![Term::Cp(50), Term::Pid(7)]);
    OpcodeIsPid::run(&mut vm, &mut ctx, &mut p).unwrap();
    assert_eq!(ctx.ip, 2);
}

#[test]
fn is_function2_checks_arity() {
    let (mut vm, mut ctx, mut p) = setup(vec![Term::Cp(50), Term::Boxed(0), Term::Small(2)]);
    p.heap.allocate(HeapObject::Export(ModFunArity::new(Term::Atom(1), Term::Atom(2), 2))).unwrap();
    OpcodeIsFunction2::run(&mut vm, &mut ctx, &mut p).unwrap();
    assert_eq!(ctx.ip, 3);
    let (mut vm, mut ctx, mut p) = setup(vec![Term::Cp(50), Term::Boxed(0), Term::Small(1)]);
    p.heap.allocate(HeapObject::Export(ModFunArity::new(Term::Atom(1), Term::Atom(2), 2))).unwrap();
    OpcodeIsFunction2::run(&mut vm, &mut ctx, &mut p).unwrap();
    assert_eq!(ctx.ip, 50);
}

#[test]
fn is_function2_with_bignum_arity() {
    // a negative big integer as the arity is badarg
    let mut h = Heap::new();
    erlangrt::big::from_isize(&mut h, -5).unwrap();
    assert!(OpcodeIsFunction2::fetch_arity(&h, Term::Boxed(0)).is_err());
    // a positive one matches no function
    erlangrt::big::from_isize(&mut h, 5).unwrap();
    assert_eq!(OpcodeIsFunction2::fetch_arity(&h, Term::Boxed(1)).unwrap(), usize::MAX);
    assert_eq!(OpcodeIsFunction2::fetch_arity(&h, Term::Small(3)).unwrap(), 3);
}

#[test]
fn comparisons_read_their_operands() {
    let (mut vm, mut ctx, mut p) = setup(vec![Term::Cp(50), Term::Small(1), Term::Small(2)]);
    OpcodeIsLt::run(&mut vm, &mut ctx, &mut p).unwrap();
    assert_eq!(ctx.ip, 3);
    ctx.ip = 0;
    OpcodeIsGe::run(&mut vm, &mut ctx, &mut p).unwrap();
    assert_eq!(ctx.ip, 50);
    ctx.ip = 0;
    OpcodeIsEq::run(&mut vm, &mut ctx, &mut p).unwrap();
    assert_eq!(ctx.ip, 50);
    let (mut vm, mut ctx, mut p) = setup(vec![Term::Cp(50), Term::Atom(4), Term::Atom(4)]);
    OpcodeIsEqExact::run(&mut vm, &mut ctx, &mut p).unwrap();
    assert_eq!(ctx.ip, 3);
    let (mut vm, mut ctx, mut p) = setup(vec![Term::Cp(50), Term::Boxed(9), Term::Atom(4)]);
    assert!(OpcodeIsEqExact::run(&mut vm, &mut ctx, &mut p).is_err());
}

#[test]
fn is_function2_on_loaded_values() {
    let mut h = Heap::new();
    h.allocate(HeapObject::Export(ModFunArity::new(Term::Atom(1), Term::Atom(2), 1))).unwrap();
    let mut ctx = Context::new(0, 4);
    OpcodeIsFunction2::is_function2(&mut ctx, &h, Term::Cp(60), Term::Boxed(0), Term::Small(1)).unwrap();
    assert_eq!(ctx.ip, 4);
    OpcodeIsFunction2::is_function2(&mut ctx, &h, Term::Cp(60), Term::Boxed(0), Term::Small(0)).unwrap();
    assert_eq!(ctx.ip, 60);
    assert!(OpcodeIsFunction2::is_function2(&mut ctx, &h, Term::Cp(60), Term::Boxed(0), Term::Small(-1)).is_err());
}
