use erlangrt::atoms;
use erlangrt::exc_type::ExceptionType;
use erlangrt::fail::RtErr;
use erlangrt::heap::{Heap, HeapObject, ModFunArity};
use erlangrt::module::{CodeWord, FunArity, FunEntry, FunLoc, Module, VersionedModuleName};
use erlangrt::op_checks::{compare_terms, generic_comparison, TermOrder};
use erlangrt::opcodes::{
    DispatchResult, OpcodeAllocate, OpcodeCallFun, OpcodeDeallocate, OpcodeGetHd, OpcodeGetList, OpcodeGetTl, OpcodeInit,
    OpcodeIsNil, OpcodeIsNonemptyList, OpcodeJump, OpcodeMakeFun2, OpcodePutList, OpcodeRaise, OpcodeSelectVal,
    OpcodeTrim, OpcodeTry,
};
use erlangrt::process::{Context, Prio, Process};
use erlangrt::term::Term;
use erlangrt::vm::VM;

fn module_named(vm: &mut VM, name: &[u8], funs: Vec<FunLoc>, lambdas: Vec<FunEntry>) -> (Term, usize) {
    let m = vm.atoms.intern(name);
    let idx = vm.code_server.add_module(Module {
        name: VersionedModuleName { module: m, version: 1 },
        code: vec![CodeWord::Opcode(1)],
        funs,
        lit_heap: Heap::new(),
        lambdas,
    });
    (m, idx)
}

#[test]
fn compare_orders_by_type_then_value() {
    assert_eq!(compare_terms(Term::Small(1), Term::Small(2), true).unwrap(), TermOrder::Less);
    assert_eq!(compare_terms(Term::Small(5), Term::Atom(0), false).unwrap(), TermOrder::Less);
    assert_eq!(compare_terms(Term::Nil, Term::Atom(3), true).unwrap(), TermOrder::Greater);
    assert_eq!(compare_terms(Term::Atom(3), Term::Atom(3), true).unwrap(), TermOrder::Equal);
    assert!(matches!(compare_terms(Term::Boxed(0), Term::Nil, true), Err(RtErr::Exception(ExceptionType::Error, Term::Atom(atoms::BADARG)))));
}

#[test]
fn comparison_check_jumps_on_failure() {
    let mut ctx = Context::new(0, 5);
    generic_comparison(&mut ctx, Term::Cp(20), Term::Small(1), Term::Small(1), true, TermOrder::Equal, false).unwrap();
    assert_eq!(ctx.ip, 5);
    generic_comparison(&mut ctx, Term::Cp(20), Term::Small(1), Term::Small(2), true, TermOrder::Equal, false).unwrap();
    assert_eq!(ctx.ip, 20);
    ctx.ip = 5;
    generic_comparison(&mut ctx, Term::Cp(20), Term::Small(1), Term::Small(2), true, TermOrder::Equal, true).unwrap();
    assert_eq!(ctx.ip, 5);
}

#[test]
fn select_val_picks_first_equal_value() {
    let mut ctx = Context::new(0, 0);
    let pairs = [Term::Atom(1), Term::Cp(10), Term::Small(3), Term::Cp(20), Term::Small(3), Term::Cp(30)];
    OpcodeSelectVal::select_val(&mut ctx, Term::Small(3), Term::Cp(99), &pairs).unwrap();
    assert_eq!(ctx.ip, 20);
    OpcodeSelectVal::select_val(&mut ctx, Term::Small(4), Term::Cp(99), &pairs).unwrap();
    assert_eq!(ctx.ip, 99);
    let r = OpcodeSelectVal::select_val(&mut ctx, Term::Boxed(0), Term::Cp(99), &pairs);
    assert!(r.is_err());
    assert_eq!(ctx.ip, 99);
}

#[test]
fn jump_moves_ip() {
    let mut ctx = Context::new(0, 0);
    assert_eq!(OpcodeJump::jump(&mut ctx, Term::Cp(17)).unwrap(), DispatchResult::Normal);
    assert_eq!(ctx.ip, 17);
}

#[test]
fn list_cells() {
    let mut p = Process::new(Term::Pid(0), Prio::Normal, 0, 0);
    let mut ctx = Context::new(0, 0);
    OpcodePutList::cons(&mut ctx, &mut p, Term::Small(1), Term::Nil, Term::RegX(0)).unwrap();
    let cell = ctx.get_x(0);
    assert_eq!(cell, Term::Cons(0));
    OpcodeGetList::decons(&mut ctx, &mut p, cell, Term::RegX(1), Term::RegX(2)).unwrap();
    assert_eq!(ctx.get_x(1), Term::Small(1));
    assert_eq!(ctx.get_x(2), Term::Nil);
    OpcodeGetHd::hd(&mut ctx, &mut p, cell, Term::RegX(3)).unwrap();
    OpcodeGetTl::tl(&mut ctx, &mut p, cell, Term::RegX(4)).unwrap();
    assert_eq!(ctx.get_x(3), Term::Small(1));
    assert_eq!(ctx.get_x(4), Term::Nil);
    OpcodeIsNil::is_nil(&mut ctx, Term::Cp(8), Term::Nil).unwrap();
    assert_eq!(ctx.ip, 0);
    OpcodeIsNil::is_nil(&mut ctx, Term::Cp(8), cell).unwrap();
    assert_eq!(ctx.ip, 8);
    OpcodeIsNonemptyList::is_nonempty_list(&mut ctx, Term::Cp(9), Term::Nil).unwrap();
    assert_eq!(ctx.ip, 9);
    OpcodeIsNonemptyList::is_nonempty_list(&mut ctx, Term::Cp(12), cell).unwrap();
    assert_eq!(ctx.ip, 9);
    OpcodeIsNonemptyList::is_nonempty_list(&mut ctx, Term::Cp(13), Term::Small(5)).unwrap();
    assert_eq!(ctx.ip, 13);
    OpcodeIsNonemptyList::is_nonempty_list(&mut ctx, Term::Cp(14), Term::Atom(0)).unwrap();
    assert_eq!(ctx.ip, 14);
}

#[test]
fn stack_frames() {
    let mut p = Process::new(Term::Pid(0), Prio::Normal, 0, 0);
    let mut ctx = Context::new(2, 0);
    ctx.cp = Some((1, 44));
    OpcodeAllocate::allocate(&mut ctx, &mut p, 2, 0, 3, true).unwrap();
    assert_eq!(ctx.live, 3);
    assert_eq!(p.heap.stack, vec![Term::Nil, Term::Nil, Term::ReturnAddr(1, 44)]);
    OpcodeInit::init(&mut p, Term::RegY(1)).unwrap();
    OpcodeTry::try_opcode(&mut p, Term::RegY(0), Term::Cp(70)).unwrap();
    assert_eq!(p.num_catches, 1);
    assert_eq!(p.heap.stack, vec![Term::Nil, Term::Catch(70), Term::ReturnAddr(1, 44)]);
    assert_eq!(p.heap.unroll_stack_until_catch().unwrap().loc, 70);
    assert!(OpcodeInit::init(&mut p, Term::RegY(5)).is_err());
    OpcodeTrim::trim(&mut p, 1).unwrap();
    assert_eq!(p.heap.stack, vec![Term::Nil, Term::ReturnAddr(1, 44)]);
    ctx.cp = None;
    OpcodeDeallocate::deallocate(&mut ctx, &mut p, 1).unwrap();
    assert_eq!(ctx.cp, Some((1, 44)));
    assert!(p.heap.stack.is_empty());
    OpcodeAllocate::allocate(&mut ctx, &mut p, 1, 0, 0, false).unwrap();
    assert_eq!(p.heap.stack, vec![Term::NonValue, Term::ReturnAddr(1, 44)]);
}

#[test]
fn raise_gives_the_exception() {
    let r = OpcodeRaise::raise(Term::Atom(atoms::THROW), Term::Small(4));
    assert!(r.is_err());
}

#[test]
fn make_and_call_a_closure() {
    let mut vm = VM::new();
    let f = vm.atoms.intern(b"lam");
    let m = vm.atoms.intern(b"mymod");
    let mfa = ModFunArity::new(m, f, 3);
    let (mname, midx) = module_named(
        &mut vm,
        b"mymod",
        vec![FunLoc { fa: FunArity { f, arity: 3 }, offset: 30 }],
        vec![FunEntry::new(mfa, 2)],
    );
    assert_eq!(mname, m);
    let mut p = Process::new(Term::Pid(0), Prio::Normal, midx, 0);
    let mut ctx = Context::new(midx, 5);
    ctx.set_x(0, Term::Small(10));
    ctx.set_x(1, Term::Small(11));
    OpcodeMakeFun2::make_fun2(&vm, &mut ctx, &mut p, Term::Lambda(0)).unwrap();
    let fun = ctx.get_x(0);
    assert_eq!(fun, Term::Boxed(0));
    match &p.heap.objects[0] {
        HeapObject::Closure(cm, arity, frozen) => {
            assert_eq!(*cm, mfa);
            assert_eq!(*arity, 1);
            assert_eq!(frozen, &vec![Term::Small(10), Term::Small(11)]);
        }
        _ => panic!("expected a closure"),
    }
    // call it with one argument: the frozen values follow the argument
    ctx.set_x(0, Term::Small(1));
    ctx.set_x(1, fun);
    OpcodeCallFun::call_fun(&mut vm, &mut ctx, &mut p, 1).unwrap();
    assert_eq!((ctx.module, ctx.ip), (midx, 30));
    assert_eq!(ctx.cp, Some((midx, 5)));
    assert_eq!(ctx.get_x(1), Term::Small(10));
    assert_eq!(ctx.get_x(2), Term::Small(11));
    assert_eq!(ctx.live, 3);
}

#[test]
fn call_fun_of_a_non_function_is_badfun() {
    let mut vm = VM::new();
    let mut p = Process::new(Term::Pid(0), Prio::Normal, 0, 0);
    let mut ctx = Context::new(0, 0);
    ctx.set_x(0, Term::Small(3));
    let r = OpcodeCallFun::call_fun(&mut vm, &mut ctx, &mut p, 0);
    assert!(matches!(r, Err(RtErr::Exception(ExceptionType::Error, Term::Atom(atoms::BADFUN)))));
}

#[test]
fn call_fun_of_an_export() {
    let mut vm = VM::new();
    let f = vm.atoms.intern(b"go");
    let (m, midx) = module_named(&mut vm, b"other", vec![FunLoc { fa: FunArity { f, arity: 0 }, offset: 12 }], vec![]);
    let mut p = Process::new(Term::Pid(0), Prio::Normal, 0, 0);
    p.heap.allocate(HeapObject::Export(ModFunArity::new(m, f, 0))).unwrap();
    let mut ctx = Context::new(midx, 3);
    ctx.set_x(0, Term::Boxed(0));
    OpcodeCallFun::call_fun(&mut vm, &mut ctx, &mut p, 0).unwrap();
    assert_eq!((ctx.module, ctx.ip, ctx.cp), (midx, 12, Some((midx, 3))));
    // an export of a function that is not loaded
    let g = vm.atoms.intern(b"missing");
    p.heap.allocate(HeapObject::Export(ModFunArity::new(m, g, 0))).unwrap();
    ctx.set_x(0, Term::Boxed(1));
    let r = OpcodeCallFun::call_fun(&mut vm, &mut ctx, &mut p, 0);
    assert!(matches!(r, Err(RtErr::Exception(ExceptionType::Error, Term::Atom(atoms::UNDEF)))));
}

#[test]
fn list_values_go_into_y_registers() {
    let mut p = Process::new(Term::Pid(0), Prio::Normal, 0, 0);
    let mut ctx = Context::new(2, 0);
    ctx.cp = Some((1, 44));
    OpcodeAllocate::allocate(&mut ctx, &mut p, 2, 0, 3, true).unwrap();
    OpcodePutList::cons(&mut ctx, &mut p, Term::Small(1), Term::Nil, Term::RegY(0)).unwrap();
    assert_eq!(p.heap.stack, vec![Term::Nil, Term::Cons(0), Term::ReturnAddr(1, 44)]);
    OpcodeGetList::decons(&mut ctx, &mut p, Term::Cons(0), Term::RegY(1), Term::RegX(1)).unwrap();
    assert_eq!(p.heap.stack, vec![Term::Small(1), Term::Cons(0), Term::ReturnAddr(1, 44)]);
    assert_eq!(ctx.get_x(1), Term::Nil);
    OpcodeGetTl::tl(&mut ctx, &mut p, Term::Cons(0), Term::RegY(1)).unwrap();
    assert_eq!(p.heap.stack[0], Term::Nil);
    OpcodeGetHd::hd(&mut ctx, &mut p, Term::Cons(0), Term::RegY(1)).unwrap();
    assert_eq!(p.heap.stack[0], Term::Small(1));
    // a Y register outside the frame is badarg and changes nothing
    let before = p.heap.stack.clone();
    assert!(OpcodeGetHd::hd(&mut ctx, &mut p, Term::Cons(0), Term::RegY(2)).is_err());
    assert_eq!(p.heap.stack, before);
}

#[test]
fn tuple_element_goes_into_a_y_register() {
    let mut p = Process::new(Term::Pid(0), Prio::Normal, 0, 0);
    let mut ctx = Context::new(2, 0);
    OpcodeAllocate::allocate(&mut ctx, &mut p, 1, 0, 0, true).unwrap();
    let t = p.heap.allocate(HeapObject::Tuple(vec![Term::Small(7), Term::Small(8)])).unwrap();
    erlangrt::opcodes::OpcodeGetTupleElement::get_tuple_element(&mut ctx, &mut p, Term::Boxed(t), 1, Term::RegY(0))
        .unwrap();
    assert_eq!(p.heap.stack[0], Term::Small(8));
}
