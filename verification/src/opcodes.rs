//! Opcode handlers: calls, jumps and returns, exceptions, stack frames,
//! lists, tuples and calls of built-in functions. Each handler takes its
//! arguments already read from the code.
use vstd::prelude::*;
use crate::atoms;
use crate::bif::{bif_arity, call_bif, find_bif, is_bif};
use crate::exc_type::ExceptionType;
use crate::fail::{badarg, badarg_err, badarg_val, badfun_val, badmatch_val, RtErr, RtResult};
use crate::genop::{arity_of, OPCODE_MAX, OPCODE_PUT};
use crate::heap::{has_y_in, y_slot, HeapObject, HeapObjectView, ModFunArity};
use crate::module::mfa_location;
use crate::process::{arg_at, has_args, load_value, loadable, storable, Context, Process, ReturnResult};
use crate::module::CodeWord;
use crate::heap::Heap;
use crate::term::Term;
use crate::vm::VM;

verus! {

/// How a process yields.
#[derive(Clone, Copy, PartialEq, Eq, Structural, Debug)]
pub enum YieldType {
    /// The process gives up running for the moment, and is placed at the
    /// end of the run queue.
    EndOfTheQueue,
    /// The process gives up running for an infinite receive or a similar
    /// reason.
    InfiniteWait,
}

/// What an opcode handler tells the dispatcher: continue, yield, or the
/// process is done. Errors are returned as `RtErr::Exception`.
#[derive(Clone, Copy, PartialEq, Eq, Structural, Debug)]
pub enum DispatchResult {
    Normal,
    Yield(YieldType),
    Finished,
}

/// The handlers of opcode `op` take `code_expected_arity` arguments: a
/// static check at each caller.
pub fn assert_arity(op: u8, code_expected_arity: usize)
    requires
        op <= OPCODE_MAX,
        arity_of(op) == code_expected_arity,
{
}

/// Only the code position changed: `b` continues at `ip` of the same
/// module.
pub open spec fn moved_to(a: Context, b: Context, ip: usize) -> bool {
    &&& b.module == a.module
    &&& b.ip == ip
    &&& b.cp == a.cp
    &&& b.live == a.live
    &&& b.regs == a.regs
    &&& b.current_bin == a.current_bin
}

/// `call(arity, loc)`: call the code location `dst`, to return after this
/// instruction.
pub struct OpcodeCall {}

impl OpcodeCall {
    pub const ARITY: usize = 2;

    pub fn call(ctx: &mut Context, arity: usize, dst: Term) -> (r: RtResult<DispatchResult>)
        requires
            dst is Cp,
        ensures
            r == Ok::<DispatchResult, RtErr>(DispatchResult::Normal),
            final(ctx).live == arity,
            final(ctx).cp == Some((old(ctx).module, old(ctx).ip)),
            final(ctx).module == old(ctx).module,
            final(ctx).ip == dst->Cp_0,
            final(ctx).regs == old(ctx).regs,
    {
        ctx.live = arity;
        ctx.cp = Some((ctx.module, ctx.ip));
        ctx.jump(dst);
        Ok(DispatchResult::Normal)
    }
}

/// `call_only(arity, loc)`: continue at the code location `dst`; the
/// return location stays.
pub struct OpcodeCallOnly {}

impl OpcodeCallOnly {
    pub const ARITY: usize = 2;

    pub fn call_only(ctx: &mut Context, arity: usize, dst: Term) -> (r: RtResult<DispatchResult>)
        requires
            dst is Cp,
        ensures
            r == Ok::<DispatchResult, RtErr>(DispatchResult::Normal),
            final(ctx).live == arity,
            final(ctx).cp == old(ctx).cp,
            final(ctx).module == old(ctx).module,
            final(ctx).ip == dst->Cp_0,
            final(ctx).regs == old(ctx).regs,
    {
        ctx.live = arity;
        ctx.jump(dst);
        Ok(DispatchResult::Normal)
    }
}

/// `call_last(arity, loc, dealloc)`: drop the stack frame of `dealloc`
/// words, whose return location becomes current, and continue at `dst`.
pub struct OpcodeCallLast {}

impl OpcodeCallLast {
    pub const ARITY: usize = 3;

    pub fn call_last(ctx: &mut Context, curr_p: &mut Process, arity: usize, dst: Term, dealloc: usize) -> (r: RtResult<
        DispatchResult,
    >)
        requires
            dst is Cp,
            dealloc < old(curr_p).heap.stack@.len(),
        ensures
            r == Ok::<DispatchResult, RtErr>(DispatchResult::Normal),
            final(ctx).live == arity,
            final(ctx).cp == (match old(curr_p).heap.stack@.last() {
                Term::ReturnAddr(m, o) => Some((m, o)),
                _ => None::<(usize, usize)>,
            }),
            final(ctx).module == old(ctx).module,
            final(ctx).ip == dst->Cp_0,
            final(ctx).regs == old(ctx).regs,
            final(curr_p).heap.stack@ == old(curr_p).heap.stack@.subrange(0, old(curr_p).heap.stack@.len() - 1 - dealloc),
            final(curr_p).heap.objs() == old(curr_p).heap.objs(),
    {
        ctx.live = arity;
        let cp = curr_p.heap.stack_deallocate(dealloc);
        ctx.set_cp(cp);
        ctx.jump(dst);
        Ok(DispatchResult::Normal)
    }
}

/// `return()`: continue at the return location and forget it; with none,
/// the process is finished.
pub struct OpcodeReturn {}

impl OpcodeReturn {
    pub const ARITY: usize = 0;

    pub fn return_opcode(ctx: &mut Context, _proc: &mut Process) -> (r: RtResult<DispatchResult>)
        ensures
            old(ctx).cp is None ==> r == Ok::<DispatchResult, RtErr>(DispatchResult::Finished) && *final(ctx) == *old(ctx),
            old(ctx).cp is Some ==> r == Ok::<DispatchResult, RtErr>(DispatchResult::Normal)
                && final(ctx).module == old(ctx).cp->Some_0.0 && final(ctx).ip == old(ctx).cp->Some_0.1
                && final(ctx).cp is None && final(ctx).regs == old(ctx).regs && final(ctx).live == old(ctx).live,
            *final(_proc) == *old(_proc),
    {
        match ctx.return_and_clear_cp() {
            ReturnResult::EmptyStack => Ok(DispatchResult::Finished),
            ReturnResult::Success => Ok(DispatchResult::Normal),
        }
    }
}

/// `func_info(m, f, arity)`: reached when no clause of the function
/// matched: `error:function_clause`.
pub struct OpcodeFuncInfo {}

impl OpcodeFuncInfo {
    pub const ARITY: usize = 3;

    pub fn func_info(_proc: &Process, _m: Term, _f: Term, _arity: usize) -> (r: RtResult<DispatchResult>)
        ensures
            r == Err::<DispatchResult, RtErr>(RtErr::Exception(ExceptionType::Error, Term::Atom(atoms::FUNCTION_CLAUSE))),
    {
        Err(RtErr::Exception(ExceptionType::Error, Term::Atom(atoms::FUNCTION_CLAUSE)))
    }
}

/// `badmatch(val)`: `error:{badmatch, Val}`.
pub struct OpcodeBadmatch {}

impl OpcodeBadmatch {
    pub const ARITY: usize = 1;

    pub fn badmatch(curr_p: &mut Process, val: Term) -> (r: RtResult<DispatchResult>)
        ensures
            final(curr_p).heap.stack@ == old(curr_p).heap.stack@,
            old(curr_p).heap.objs().len() < usize::MAX ==> r == Err::<DispatchResult, RtErr>(RtErr::Exception(
                ExceptionType::Error,
                Term::Boxed(old(curr_p).heap.objs().len() as usize),
            )) && final(curr_p).heap.objs() == old(curr_p).heap.objs().push(
                HeapObjectView::Tuple(seq![Term::Atom(atoms::BADMATCH), val]),
            ),
            old(curr_p).heap.objs().len() >= usize::MAX ==> r is Err && r->Err_0 is HeapIsFull,
    {
        badmatch_val(val, &mut curr_p.heap)
    }
}

/// `jump(dst)`: continue at the code location `dst`.
pub struct OpcodeJump {}

impl OpcodeJump {
    pub const ARITY: usize = 1;

    pub fn jump(ctx: &mut Context, dst: Term) -> (r: RtResult<DispatchResult>)
        requires
            dst is Cp,
        ensures
            r == Ok::<DispatchResult, RtErr>(DispatchResult::Normal),
            moved_to(*old(ctx), *final(ctx), dst->Cp_0),
    {
        ctx.jump(dst);
        Ok(DispatchResult::Normal)
    }
}

/// The import that `t` refers to on the literal heap of module `module`.
pub open spec fn import_spec(vm: VM, module: usize, t: Term) -> Option<ModFunArity> {
    let lit = vm.code_server.modules@[module as int].lit_heap.objs();
    if t is Boxed && t->Boxed_0 < lit.len() && lit[t->Boxed_0 as int] is Import {
        Some(lit[t->Boxed_0 as int]->Import_0)
    } else {
        None
    }
}

/// Whether `mfa` names a BIF of the machine `vm`.
pub open spec fn bif_known(vm: VM, mfa: ModFunArity) -> bool {
    crate::bif::first_bif(vm.bifs.entries@, mfa, 0) is Some
}

/// The import that `t` refers to on the literal heap of the module being
/// run.
fn import_of(vm: &VM, module: usize, t: Term) -> (r: Option<ModFunArity>)
    requires
        module < vm.code_server.modules@.len(),
    ensures
        r == import_spec(*vm, module, t),
{
    match t {
        Term::Boxed(idx) => vm.code_server.modules[module].lit_heap.get_import(idx),
        _ => None,
    }
}

/// The return location that the term `t` gives: a return address, or none.
pub open spec fn cp_of_term(t: Term) -> Option<(usize, usize)> {
    match t {
        Term::ReturnAddr(m, o) => Some((m, o)),
        _ => None,
    }
}

/// The context `c` with `n` live registers.
pub open spec fn with_live(c: Context, n: usize) -> Context {
    Context { live: n, ..c }
}

/// What calling the BIF `mfa` with `args` does, storing its result in
/// `dst`: `ctx0`, `vm0`, `p0` before and `ctx1`, `vm1`, `p1` after, with
/// the outcome `r`. An unknown BIF is `BifNotFound`; a wrong number of
/// arguments is `badarg`; a BIF that fails continues at `fail_label` when
/// it is a code location, else its error is the outcome.
pub open spec fn native_called(
    vm0: VM,
    vm1: VM,
    ctx0: Context,
    ctx1: Context,
    p0: Process,
    p1: Process,
    fail_label: Term,
    mfa: ModFunArity,
    args: Seq<Term>,
    dst: Term,
    r: RtResult<DispatchResult>,
) -> bool {
    match crate::bif::first_bif(vm0.bifs.entries@, mfa, 0) {
        None => r is Err && r->Err_0 is BifNotFound && vm1 == vm0 && ctx1 == ctx0 && p1 == p0,
        Some(id) => if args.len() != bif_arity(id) {
            r == Err::<DispatchResult, RtErr>(badarg_err()) && vm1 == vm0 && ctx1 == ctx0 && p1 == p0
        } else {
            exists|pb: Process, rb: RtResult<Term>| #[trigger] crate::bif::bif_done(id, vm0, vm1, p0, pb, args, rb) && match rb {
                Ok(v) => {
                    &&& p1 == (Process { heap: p1.heap, ..pb })
                    &&& p1.heap.objs() == pb.heap.objs()
                    &&& (storable(dst, ctx0.regs@, pb.heap) <==> r is Ok)
                    &&& r is Ok ==> r == Ok::<DispatchResult, RtErr>(DispatchResult::Normal)
                        && crate::op_binary::store_result(ctx0, ctx1, pb.heap, p1.heap, v, dst)
                        && ctx1.module == ctx0.module && ctx1.ip == ctx0.ip && ctx1.cp == ctx0.cp && ctx1.live == ctx0.live
                    &&& r is Err ==> r == Err::<DispatchResult, RtErr>(badarg_err()) && ctx1 == ctx0
                },
                Err(e) => {
                    &&& p1 == pb
                    &&& fail_label is Cp ==> r == Ok::<DispatchResult, RtErr>(DispatchResult::Normal)
                        && moved_to(ctx0, ctx1, fail_label->Cp_0)
                    &&& !(fail_label is Cp) ==> r == Err::<DispatchResult, RtErr>(e) && ctx1 == ctx0
                },
            }
        },
    }
}

/// Find the BIF `mfa` and call it with `args`; store its result in `dst`.
/// When it fails and `fail_label` is a code location, continue there.
pub fn call_native_fun(
    vm: &mut VM,
    ctx: &mut Context,
    curr_p: &mut Process,
    fail_label: Term,
    mfa: &ModFunArity,
    args: &[Term],
    dst: Term,
) -> (r: RtResult<DispatchResult>)
    requires
        old(vm).wf(),
    ensures
        final(vm).wf(),
        final(vm).code_server == old(vm).code_server,
        final(ctx).module == old(ctx).module,
        final(ctx).cp == old(ctx).cp,
        final(ctx).live == old(ctx).live,
        !bif_known(*old(vm), *mfa) ==> r is Err && r->Err_0 is BifNotFound,
        native_called(*old(vm), *final(vm), *old(ctx), *final(ctx), *old(curr_p), *final(curr_p), fail_label, *mfa, args@, dst, r),
{
    let id = find_bif(mfa, &vm.bifs)?;
    if args.len() != bif_arity_of(id) {
        return badarg();
    }
    let ghost vm0 = *vm;
    let ghost p0 = *curr_p;
    let res = call_bif(id, vm, curr_p, args);
    let ghost pb = *curr_p;
    proof {
        assert(crate::bif::bif_done(id, vm0, *vm, p0, pb, args@, res));
    }
    match res {
        Ok(v) => {
            ctx.store_value(v, dst, &mut curr_p.heap)?;
            assert(*curr_p == (Process { heap: curr_p.heap, ..pb }));
            Ok(DispatchResult::Normal)
        },
        Err(e) => {
            if fail_label.is_cp() {
                ctx.jump(fail_label);
                Ok(DispatchResult::Normal)
            } else {
                Err(e)
            }
        },
    }
}

/// Number of arguments of a BIF.
fn bif_arity_of(id: crate::bif::BifId) -> (r: usize)
    ensures
        r == bif_arity(id),
{
    match id {
        crate::bif::BifId::ErlangSelf0 => 0,
        crate::bif::BifId::ErlangIsProcessAlive1 => 1,
        _ => 3,
    }
}

/// What calling the import `dst_import` with `args` does: `ctx0`, `vm0`,
/// `p0` before and `ctx1`, `vm1`, `p1` after, with the outcome `r`.
/// Something else than an import is `error:{badfun, Dst}`; a function of
/// loaded code is jumped to (saving the return location with `save_cp`),
/// `undef` when it is not loaded; a BIF is called in place, and a tail call
/// of it then returns at once.
pub open spec fn ext_called(
    vm0: VM,
    vm1: VM,
    ctx0: Context,
    ctx1: Context,
    p0: Process,
    p1: Process,
    dst_import: Term,
    fail_label: Term,
    args: Seq<Term>,
    save_cp: bool,
    r: RtResult<DispatchResult>,
) -> bool {
    &&& import_spec(vm0, ctx0.module, dst_import) is None ==> {
        &&& vm1 == vm0
        &&& ctx1 == with_live(ctx0, args.len() as usize)
        &&& p1.heap.stack@ == p0.heap.stack@
        &&& p0.heap.objs().len() < usize::MAX ==> r == Err::<DispatchResult, RtErr>(RtErr::Exception(
            ExceptionType::Error,
            Term::Boxed(p0.heap.objs().len() as usize),
        )) && p1.heap.objs() == p0.heap.objs().push(
            HeapObjectView::Tuple(seq![Term::Atom(atoms::BADFUN), dst_import]),
        )
        &&& p0.heap.objs().len() >= usize::MAX ==> r is Err && r->Err_0 is HeapIsFull
    }
    &&& import_spec(vm0, ctx0.module, dst_import) is Some && !bif_known(
        vm0,
        import_spec(vm0, ctx0.module, dst_import)->Some_0,
    ) ==> {
        let mfa = import_spec(vm0, ctx0.module, dst_import)->Some_0;
        &&& vm1 == vm0
        &&& p1 == p0
        &&& match mfa_location(vm0.code_server.modules@, mfa.m, mfa.f, mfa.arity) {
            None => r == Err::<DispatchResult, RtErr>(RtErr::Exception(ExceptionType::Error, Term::Atom(atoms::UNDEF))),
            Some((m, o)) => {
                &&& r == Ok::<DispatchResult, RtErr>(DispatchResult::Normal)
                &&& ctx1.module == m && ctx1.ip == o
                &&& ctx1.cp == (if save_cp { Some((ctx0.module, ctx0.ip)) } else { ctx0.cp })
                &&& ctx1.regs == ctx0.regs
            },
        }
    }
    &&& import_spec(vm0, ctx0.module, dst_import) is Some && bif_known(
        vm0,
        import_spec(vm0, ctx0.module, dst_import)->Some_0,
    ) ==> exists|cn: Context, nr: RtResult<DispatchResult>| #[trigger] native_called(
        vm0,
        vm1,
        with_live(ctx0, args.len() as usize),
        cn,
        p0,
        p1,
        fail_label,
        import_spec(vm0, ctx0.module, dst_import)->Some_0,
        args,
        Term::RegX(0),
        nr,
    ) && if save_cp {
        r == nr && ctx1 == cn
    } else {
        match cn.cp {
            None => r == Ok::<DispatchResult, RtErr>(DispatchResult::Finished) && ctx1 == cn,
            Some((m, o)) => r == nr && ctx1 == (Context { module: m, ip: o, cp: None, ..cn }),
        }
    }
}

/// Call the function of the import `dst_import` with `args`: a BIF is
/// called in place (a tail call then returns at once); a function of
/// loaded code is jumped to, saving the return location when `save_cp`.
/// Something else than an import is `error:{badfun, Dst}`.
pub fn generic_call_ext(
    vm: &mut VM,
    ctx: &mut Context,
    proc_: &mut Process,
    dst_import: Term,
    fail_label: Term,
    args: &[Term],
    save_cp: bool,
) -> (r: RtResult<DispatchResult>)
    requires
        old(vm).wf(),
        old(ctx).module < old(vm).code_server.modules@.len(),
    ensures
        final(vm).wf(),
        final(vm).code_server == old(vm).code_server,
        final(ctx).live == args@.len(),
        ext_called(*old(vm), *final(vm), *old(ctx), *final(ctx), *old(proc_), *final(proc_), dst_import, fail_label, args@, save_cp, r),
{
    ctx.live = args.len();
    let mfa = match import_of(vm, ctx.module, dst_import) {
        Some(m) => m,
        None => return badfun_val(dst_import, &mut proc_.heap),
    };
    if is_bif(&mfa, &vm.bifs) {
        let native_dispatch_result = call_native_fun(vm, ctx, proc_, fail_label, &mfa, args, Term::RegX(0));
        let ghost ctx1 = *ctx;
        if save_cp {
            return native_dispatch_result;
        }
        match ctx.return_and_clear_cp() {
            ReturnResult::EmptyStack => Ok(DispatchResult::Finished),
            ReturnResult::Success => native_dispatch_result,
        }
    } else {
        if save_cp {
            ctx.cp = Some((ctx.module, ctx.ip));
        }
        match vm.code_server.lookup_mfa(mfa.m, mfa.f, mfa.arity) {
            Some((m, o)) => {
                ctx.module = m;
                ctx.ip = o;
                Ok(DispatchResult::Normal)
            },
            None => Err(RtErr::Exception(ExceptionType::Error, Term::Atom(atoms::UNDEF))),
        }
    }
}

/// `call_ext(arity, import)`: call the import with the first `arity` X
/// registers, to return after this instruction.
pub struct OpcodeCallExt {}

impl OpcodeCallExt {
    pub const ARITY: usize = 2;

    pub fn call_ext(vm: &mut VM, ctx: &mut Context, curr_p: &mut Process, arity: usize, dst: Term) -> (r: RtResult<
        DispatchResult,
    >)
        requires
            old(vm).wf(),
            old(ctx).module < old(vm).code_server.modules@.len(),
            old(ctx).wf(),
            arity <= old(ctx).regs@.len(),
        ensures
            final(vm).wf(),
            final(vm).code_server == old(vm).code_server,
            final(ctx).live == arity,
            ext_called(
                *old(vm),
                *final(vm),
                *old(ctx),
                *final(ctx),
                *old(curr_p),
                *final(curr_p),
                dst,
                Term::Nil,
                old(ctx).regs@.subrange(0, arity as int),
                true,
                r,
            ),
    {
        let args = ctx.registers_slice(0, arity);
        generic_call_ext(vm, ctx, curr_p, dst, Term::nil(), args.as_slice(), true)
    }
}

/// `call_ext_only(arity, import)`: a tail call of the import with the first
/// `arity` X registers.
pub struct OpcodeCallExtOnly {}

impl OpcodeCallExtOnly {
    pub const ARITY: usize = 2;

    pub fn call_ext_only(vm: &mut VM, ctx: &mut Context, curr_p: &mut Process, arity: usize, dst: Term) -> (r: RtResult<
        DispatchResult,
    >)
        requires
            old(vm).wf(),
            old(ctx).module < old(vm).code_server.modules@.len(),
            old(ctx).wf(),
            arity <= old(ctx).regs@.len(),
        ensures
            final(vm).wf(),
            final(vm).code_server == old(vm).code_server,
            final(ctx).live == arity,
            ext_called(
                *old(vm),
                *final(vm),
                *old(ctx),
                *final(ctx),
                *old(curr_p),
                *final(curr_p),
                dst,
                Term::Nil,
                old(ctx).regs@.subrange(0, arity as int),
                false,
                r,
            ),
    {
        let args = ctx.registers_slice(0, arity);
        generic_call_ext(vm, ctx, curr_p, dst, Term::nil(), args.as_slice(), false)
    }
}

/// `call_ext_last(arity, import, dealloc)`: drop the stack frame of
/// `dealloc` words and make a tail call of the import.
pub struct OpcodeCallExtLast {}

impl OpcodeCallExtLast {
    pub const ARITY: usize = 3;

    pub fn call_ext_last(
        vm: &mut VM,
        ctx: &mut Context,
        curr_p: &mut Process,
        arity: usize,
        dst: Term,
        dealloc: usize,
    ) -> (r: RtResult<DispatchResult>)
        requires
            old(vm).wf(),
            old(ctx).module < old(vm).code_server.modules@.len(),
            old(ctx).wf(),
            arity <= old(ctx).regs@.len(),
            dealloc < old(curr_p).heap.stack@.len(),
        ensures
            final(vm).wf(),
            final(vm).code_server == old(vm).code_server,
            final(ctx).live == arity,
            exists|cm: Context, pm: Process| #[trigger] ext_called(
                *old(vm),
                *final(vm),
                cm,
                *final(ctx),
                pm,
                *final(curr_p),
                dst,
                Term::Nil,
                old(ctx).regs@.subrange(0, arity as int),
                false,
                r,
            ) && ({
                &&& cm.module == old(ctx).module && cm.ip == old(ctx).ip && cm.live == old(ctx).live
                &&& cm.regs == old(ctx).regs && cm.current_bin == old(ctx).current_bin
                &&& cm.cp == cp_of_term(old(curr_p).heap.stack@.last())
                &&& pm == (Process { heap: pm.heap, ..*old(curr_p) })
                &&& pm.heap.objs() == old(curr_p).heap.objs()
                &&& pm.heap.stack@ == old(curr_p).heap.stack@.subrange(0, old(curr_p).heap.stack@.len() - 1 - dealloc)
            }),
    {
        let new_cp = curr_p.heap.stack_deallocate(dealloc);
        ctx.set_cp(new_cp);
        let args = ctx.registers_slice(0, arity);
        generic_call_ext(vm, ctx, curr_p, dst, Term::nil(), args.as_slice(), false)
    }
}

/// The outcome `rn` of a BIF call without its dispatch result.
pub open spec fn unit_result(rn: RtResult<DispatchResult>) -> RtResult<()> {
    match rn {
        Ok(_) => Ok(()),
        Err(e) => Err(e),
    }
}

/// Call `mfa` with the first `mfa.arity` X registers: a BIF in place,
/// else its loaded code, saving the return location when no stack words
/// are to be dropped (`dealloc == 0`).
fn fixed_apply(vm: &mut VM, ctx: &mut Context, curr_p: &mut Process, mfa: &ModFunArity, dealloc: usize) -> (r: RtResult<()>)
    requires
        old(vm).wf(),
        old(ctx).wf(),
        mfa.arity <= old(ctx).regs@.len(),
        !(mfa.m == Term::Atom(atoms::ERLANG) && mfa.f == Term::Atom(atoms::APPLY) && mfa.arity == 3),
    ensures
        final(vm).wf(),
        final(vm).code_server == old(vm).code_server,
        final(ctx).live == old(ctx).live,
        bif_known(*old(vm), *mfa) ==> exists|rn: RtResult<DispatchResult>| #[trigger] native_called(
            *old(vm),
            *final(vm),
            *old(ctx),
            *final(ctx),
            *old(curr_p),
            *final(curr_p),
            Term::Nil,
            *mfa,
            old(ctx).regs@.subrange(0, mfa.arity as int),
            Term::RegX(0),
            rn,
        ) && r == unit_result(rn),
        !bif_known(*old(vm), *mfa) ==> *final(vm) == *old(vm) && *final(curr_p) == *old(curr_p) && match mfa_location(
            old(vm).code_server.modules@,
            mfa.m,
            mfa.f,
            mfa.arity,
        ) {
            None => r == Err::<(), RtErr>(RtErr::Exception(ExceptionType::Error, Term::Atom(atoms::UNDEF))),
            Some((m, o)) => {
                &&& r == Ok::<(), RtErr>(())
                &&& final(ctx).module == m && final(ctx).ip == o
                &&& final(ctx).cp == (if dealloc == 0 { Some((old(ctx).module, old(ctx).ip)) } else { old(ctx).cp })
                &&& final(ctx).regs == old(ctx).regs
            },
        },
{
    let args = ctx.registers_slice(0, mfa.arity);
    if is_bif(mfa, &vm.bifs) {
        let rn = call_native_fun(vm, ctx, curr_p, Term::nil(), mfa, args.as_slice(), Term::RegX(0));
        return match rn {
            Ok(_) => Ok(()),
            Err(e) => Err(e),
        };
    }
    match vm.code_server.lookup_mfa(mfa.m, mfa.f, mfa.arity) {
        None => Err(RtErr::Exception(ExceptionType::Error, Term::Atom(atoms::UNDEF))),
        Some((m, o)) => {
            if dealloc == 0 {
                ctx.cp = Some((ctx.module, ctx.ip));
            }
            ctx.module = m;
            ctx.ip = o;
            Ok(())
        },
    }
}

/// `apply(arity)`: call the function named by the atoms in X registers
/// `arity` (module) and `arity + 1` (function) with the first `arity` X
/// registers.
pub struct OpcodeApply {}

impl OpcodeApply {
    pub const ARITY: usize = 1;

    pub fn apply(vm: &mut VM, ctx: &mut Context, curr_p: &mut Process, arity: usize) -> (r: RtResult<DispatchResult>)
        requires
            old(vm).wf(),
            old(ctx).wf(),
            arity + 2 <= old(ctx).regs@.len(),
            !(old(ctx).regs@[arity as int] == Term::Atom(atoms::ERLANG) && old(ctx).regs@[arity + 1] == Term::Atom(atoms::APPLY)
                && arity == 3),
        ensures
            final(vm).wf(),
            final(vm).code_server == old(vm).code_server,
            final(ctx).live == arity + 2,
            bif_known(*old(vm), ModFunArity { m: old(ctx).regs@[arity as int], f: old(ctx).regs@[arity + 1], arity })
                ==> exists|rn: RtResult<DispatchResult>| #[trigger] native_called(
                *old(vm),
                *final(vm),
                with_live(*old(ctx), (arity + 2) as usize),
                *final(ctx),
                *old(curr_p),
                *final(curr_p),
                Term::Nil,
                ModFunArity { m: old(ctx).regs@[arity as int], f: old(ctx).regs@[arity + 1], arity },
                old(ctx).regs@.subrange(0, arity as int),
                Term::RegX(0),
                rn,
            ) && r == rn,
            !bif_known(*old(vm), ModFunArity { m: old(ctx).regs@[arity as int], f: old(ctx).regs@[arity + 1], arity })
                ==> *final(vm) == *old(vm) && match mfa_location(
                old(vm).code_server.modules@,
                old(ctx).regs@[arity as int],
                old(ctx).regs@[arity + 1],
                arity,
            ) {
                None => r == Err::<DispatchResult, RtErr>(RtErr::Exception(ExceptionType::Error, Term::Atom(atoms::UNDEF))),
                Some((m, o)) => r == Ok::<DispatchResult, RtErr>(DispatchResult::Normal) && final(ctx).module == m
                    && final(ctx).ip == o && final(ctx).cp == Some((old(ctx).module, old(ctx).ip)),
            },
    {
        let mfa = ModFunArity::new(ctx.get_x(arity), ctx.get_x(arity + 1), arity);
        ctx.live = arity + 2;
        match fixed_apply(vm, ctx, curr_p, &mfa, 0) {
            Ok(()) => Ok(DispatchResult::Normal),
            Err(e) => Err(e),
        }
    }
}

/// `apply_last(arity, dealloc)`: like `apply`, as a tail call; the function
/// must be an atom.
pub struct OpcodeApplyLast {}

impl OpcodeApplyLast {
    pub const ARITY: usize = 2;

    pub fn apply_last(vm: &mut VM, ctx: &mut Context, curr_p: &mut Process, arity: usize, dealloc: usize) -> (r: RtResult<
        DispatchResult,
    >)
        requires
            old(vm).wf(),
            old(ctx).wf(),
            arity + 2 <= old(ctx).regs@.len(),
            !(old(ctx).regs@[arity as int] == Term::Atom(atoms::ERLANG) && old(ctx).regs@[arity + 1] == Term::Atom(atoms::APPLY)
                && arity == 3),
        ensures
            final(vm).wf(),
            final(vm).code_server == old(vm).code_server,
            !(old(ctx).regs@[arity + 1] is Atom) ==> r == Err::<DispatchResult, RtErr>(badarg_err()) && *final(ctx) == *old(ctx)
                && *final(vm) == *old(vm) && *final(curr_p) == *old(curr_p),
            old(ctx).regs@[arity + 1] is Atom && bif_known(
                *old(vm),
                ModFunArity { m: old(ctx).regs@[arity as int], f: old(ctx).regs@[arity + 1], arity },
            ) ==> exists|rn: RtResult<DispatchResult>| #[trigger] native_called(
                *old(vm),
                *final(vm),
                with_live(*old(ctx), (arity + 2) as usize),
                *final(ctx),
                *old(curr_p),
                *final(curr_p),
                Term::Nil,
                ModFunArity { m: old(ctx).regs@[arity as int], f: old(ctx).regs@[arity + 1], arity },
                old(ctx).regs@.subrange(0, arity as int),
                Term::RegX(0),
                rn,
            ) && r == rn,
            old(ctx).regs@[arity + 1] is Atom && !bif_known(
                *old(vm),
                ModFunArity { m: old(ctx).regs@[arity as int], f: old(ctx).regs@[arity + 1], arity },
            ) ==> *final(vm) == *old(vm) && final(ctx).live == arity + 2 && match mfa_location(
                old(vm).code_server.modules@,
                old(ctx).regs@[arity as int],
                old(ctx).regs@[arity + 1],
                arity,
            ) {
                None => r == Err::<DispatchResult, RtErr>(RtErr::Exception(ExceptionType::Error, Term::Atom(atoms::UNDEF))),
                Some((m, o)) => r == Ok::<DispatchResult, RtErr>(DispatchResult::Normal) && final(ctx).module == m
                    && final(ctx).ip == o && final(ctx).cp == (if dealloc == 0 {
                    Some((old(ctx).module, old(ctx).ip))
                } else {
                    old(ctx).cp
                }),
            },
    {
        let module = ctx.get_x(arity);
        let function = ctx.get_x(arity + 1);
        if !function.is_atom() {
            return badarg();
        }
        ctx.live = arity + 2;
        let mfa = ModFunArity::new(module, function, arity);
        match fixed_apply(vm, ctx, curr_p, &mfa, dealloc) {
            Ok(()) => Ok(DispatchResult::Normal),
            Err(e) => Err(e),
        }
    }
}

/// `try(yreg, label)`: one more active catch; the Y register holds a catch
/// marker for the handler at `catch_label`. The label must be a code
/// location: the marker is made from the label's code pointer, and a `[]`
/// label (which the argument decoding lets through) has none, so it is
/// not admitted.
pub struct OpcodeTry {}

impl OpcodeTry {
    pub const ARITY: usize = 2;

    pub fn try_opcode(curr_p: &mut Process, yreg: Term, catch_label: Term) -> (r: RtResult<DispatchResult>)
        requires
            yreg is RegY,
            catch_label is Cp,
            old(curr_p).num_catches < isize::MAX,
        ensures
            final(curr_p).num_catches == old(curr_p).num_catches + 1,
            final(curr_p).heap.objs() == old(curr_p).heap.objs(),
            final(curr_p).context == old(curr_p).context,
            final(curr_p).error == old(curr_p).error,
            old(curr_p).heap.has_y(yreg->RegY_0 as int) ==> r == Ok::<DispatchResult, RtErr>(DispatchResult::Normal)
                && final(curr_p).heap.stack@ == old(curr_p).heap.stack@.update(
                old(curr_p).heap.y_index(yreg->RegY_0 as int),
                Term::Catch(catch_label->Cp_0),
            ),
            !old(curr_p).heap.has_y(yreg->RegY_0 as int) ==> r is Err,
    {
        curr_p.num_catches = curr_p.num_catches + 1;
        let catch_val = Term::make_catch(catch_label.get_cp_ptr());
        let y = match yreg {
            Term::RegY(i) => i,
            _ => 0,
        };
        curr_p.heap.set_y(y, catch_val)?;
        Ok(DispatchResult::Normal)
    }
}

/// Whether `b` holds `a`'s registers after a caught exception is taken:
/// X registers 1 to 3 (type, reason, stack trace) move down to 0 to 2.
pub open spec fn shifted_down(a: Seq<Term>, b: Seq<Term>) -> bool {
    b == a.update(0, a[1]).update(1, a[2]).update(2, a[3])
}

/// `try_end(yreg)`: one less active catch; the Y register is cleared. If an
/// exception was caught (X register 0 holds no value), it is taken.
pub struct OpcodeTryEnd {}

impl OpcodeTryEnd {
    pub const ARITY: usize = 1;

    pub fn try_end(ctx: &mut Context, curr_p: &mut Process, yreg: Term) -> (r: RtResult<DispatchResult>)
        requires
            yreg is RegY,
            old(ctx).wf(),
            old(curr_p).num_catches > isize::MIN,
        ensures
            final(curr_p).num_catches == old(curr_p).num_catches - 1,
            final(curr_p).heap.objs() == old(curr_p).heap.objs(),
            !old(curr_p).heap.has_y(yreg->RegY_0 as int) ==> r is Err,
            old(curr_p).heap.has_y(yreg->RegY_0 as int) ==> {
                &&& r == Ok::<DispatchResult, RtErr>(DispatchResult::Normal)
                &&& final(curr_p).heap.stack@ == old(curr_p).heap.stack@.update(
                    old(curr_p).heap.y_index(yreg->RegY_0 as int),
                    Term::Nil,
                )
                &&& final(ctx).module == old(ctx).module && final(ctx).ip == old(ctx).ip
                &&& final(ctx).cp == old(ctx).cp
                &&& old(ctx).regs@[0] is NonValue ==> final(curr_p).error is None && shifted_down(
                    old(ctx).regs@,
                    final(ctx).regs@,
                )
                &&& !(old(ctx).regs@[0] is NonValue) ==> final(curr_p).error == old(curr_p).error && final(ctx).regs
                    == old(ctx).regs
            },
    {
        curr_p.num_catches = curr_p.num_catches - 1;
        let y = match yreg {
            Term::RegY(i) => i,
            _ => 0,
        };
        curr_p.heap.set_y(y, Term::nil())?;
        if ctx.get_x(0).is_non_value() {
            curr_p.clear_exception();
            let x1 = ctx.get_x(1);
            ctx.set_x(0, x1);
            let x2 = ctx.get_x(2);
            ctx.set_x(1, x2);
            let x3 = ctx.get_x(3);
            ctx.set_x(2, x3);
        }
        Ok(DispatchResult::Normal)
    }
}

/// `try_case(yreg)`: one less active catch; the Y register is cleared and
/// the caught exception is taken.
pub struct OpcodeTryCase {}

impl OpcodeTryCase {
    pub const ARITY: usize = 1;

    pub fn try_case(ctx: &mut Context, curr_p: &mut Process, yreg: Term) -> (r: RtResult<DispatchResult>)
        requires
            yreg is RegY,
            old(ctx).wf(),
            old(curr_p).num_catches > isize::MIN,
        ensures
            final(curr_p).num_catches == old(curr_p).num_catches - 1,
            final(curr_p).heap.objs() == old(curr_p).heap.objs(),
            !old(curr_p).heap.has_y(yreg->RegY_0 as int) ==> r is Err,
            old(curr_p).heap.has_y(yreg->RegY_0 as int) ==> {
                &&& r == Ok::<DispatchResult, RtErr>(DispatchResult::Normal)
                &&& final(curr_p).heap.stack@ == old(curr_p).heap.stack@.update(
                    old(curr_p).heap.y_index(yreg->RegY_0 as int),
                    Term::Nil,
                )
                &&& final(curr_p).error is None
                &&& shifted_down(old(ctx).regs@, final(ctx).regs@)
                &&& final(ctx).module == old(ctx).module && final(ctx).ip == old(ctx).ip
                &&& final(ctx).cp == old(ctx).cp
            },
    {
        curr_p.num_catches = curr_p.num_catches - 1;
        let y = match yreg {
            Term::RegY(i) => i,
            _ => 0,
        };
        curr_p.heap.set_y(y, Term::nil())?;
        curr_p.clear_exception();
        let x1 = ctx.get_x(1);
        ctx.set_x(0, x1);
        let x2 = ctx.get_x(2);
        ctx.set_x(1, x2);
        let x3 = ctx.get_x(3);
        ctx.set_x(2, x3);
        Ok(DispatchResult::Normal)
    }
}

/// The exception type that a stack trace stands for: none for `[]`, else
/// an error.
pub fn get_trace_from_exc(trace: Term) -> (r: Option<ExceptionType>)
    ensures
        r == (if trace == Term::Nil { None } else { Some(ExceptionType::Error) }),
{
    if trace == Term::nil() {
        return None;
    }
    Some(ExceptionType::Error)
}

/// `raise(trace, value)`: raise an error with the reason `raise_val`.
pub struct OpcodeRaise {}

impl OpcodeRaise {
    pub const ARITY: usize = 2;

    pub fn raise(raise_trace: Term, raise_val: Term) -> (r: RtResult<DispatchResult>)
        ensures
            r == Err::<DispatchResult, RtErr>(RtErr::Exception(ExceptionType::Error, raise_val)),
    {
        let exc_type = match get_trace_from_exc(raise_trace) {
            None => ExceptionType::Error,
            Some(et) => et,
        };
        Err(RtErr::Exception(exc_type, raise_val))
    }
}

/// How new stack words are filled.
#[derive(Clone, Copy, PartialEq, Eq, Structural, Debug)]
pub enum AllocInit {
    /// Each word holds `[]`.
    Nil,
    /// Each word holds the no-value marker.
    Uninitialized,
}

/// The term that new stack words hold.
pub open spec fn fill_of(fill: AllocInit) -> Term {
    match fill {
        AllocInit::Nil => Term::Nil,
        AllocInit::Uninitialized => Term::NonValue,
    }
}

/// The return location of `ctx` as a term.
pub open spec fn cp_term_of(ctx: Context) -> Term {
    match ctx.cp {
        Some((m, o)) => Term::ReturnAddr(m, o),
        None => Term::Nil,
    }
}

/// The shared work of the allocation instructions: note `live` registers,
/// reserve `stack_need` stack words filled as `fill` and push the return
/// location on top. The heap grows as needed, so `_heap_need` asks nothing.
fn gen_alloc(ctx: &mut Context, curr_p: &mut Process, stack_need: usize, _heap_need: usize, live: usize, fill: AllocInit)
    ensures
        final(ctx).live == live,
        final(ctx).module == old(ctx).module,
        final(ctx).ip == old(ctx).ip,
        final(ctx).cp == old(ctx).cp,
        final(ctx).regs == old(ctx).regs,
        final(ctx).current_bin == old(ctx).current_bin,
        final(curr_p).heap.stack@ == crate::heap::with_frame(old(curr_p).heap.stack@, stack_need as nat, fill_of(fill), cp_term_of(*old(ctx))),
        final(curr_p).heap.objs() == old(curr_p).heap.objs(),
        final(curr_p).context == old(curr_p).context,
{
    ctx.live = live;
    let t = match fill {
        AllocInit::Nil => Term::Nil,
        AllocInit::Uninitialized => Term::NonValue,
    };
    curr_p.heap.stack_alloc(stack_need, t);
    let cp = ctx.cp_term();
    curr_p.heap.stack_push(cp);
}

/// `allocate(stack_need, live)`, `allocate_zero(stack_need, live)`,
/// `allocate_heap(stack_need, heap_need, live)` and
/// `allocate_heap_zero(stack_need, heap_need, live)`: make a stack frame
/// of `stack_need` words under the return location; the `zero` forms fill
/// it with `[]`.
pub struct OpcodeAllocate {}

impl OpcodeAllocate {
    pub fn allocate(ctx: &mut Context, curr_p: &mut Process, stack_need: usize, heap_need: usize, live: usize, zero: bool) -> (r:
        RtResult<DispatchResult>)
        ensures
            r == Ok::<DispatchResult, RtErr>(DispatchResult::Normal),
            final(ctx).live == live,
            final(ctx).module == old(ctx).module,
            final(ctx).ip == old(ctx).ip,
            final(ctx).cp == old(ctx).cp,
            final(ctx).regs == old(ctx).regs,
            final(curr_p).heap.stack@ == crate::heap::with_frame(
                old(curr_p).heap.stack@,
                stack_need as nat,
                if zero { Term::Nil } else { Term::NonValue },
                cp_term_of(*old(ctx)),
            ),
            final(curr_p).heap.objs() == old(curr_p).heap.objs(),
    {
        let fill = if zero { AllocInit::Nil } else { AllocInit::Uninitialized };
        gen_alloc(ctx, curr_p, stack_need, heap_need, live, fill);
        Ok(DispatchResult::Normal)
    }
}

/// `deallocate(n)`: pop the return location from the top of the stack,
/// drop the `free` words under it, and keep the return location.
pub struct OpcodeDeallocate {}

impl OpcodeDeallocate {
    pub const ARITY: usize = 1;

    pub fn deallocate(ctx: &mut Context, curr_p: &mut Process, free: usize) -> (r: RtResult<DispatchResult>)
        requires
            free < old(curr_p).heap.stack@.len(),
        ensures
            r == Ok::<DispatchResult, RtErr>(DispatchResult::Normal),
            final(curr_p).heap.stack@ == old(curr_p).heap.stack@.subrange(0, old(curr_p).heap.stack@.len() - 1 - free),
            final(curr_p).heap.objs() == old(curr_p).heap.objs(),
            final(ctx).cp == (match old(curr_p).heap.stack@.last() {
                Term::ReturnAddr(m, o) => Some((m, o)),
                _ => None::<(usize, usize)>,
            }),
            final(ctx).module == old(ctx).module,
            final(ctx).ip == old(ctx).ip,
            final(ctx).live == old(ctx).live,
            final(ctx).regs == old(ctx).regs,
    {
        let cp = curr_p.heap.stack_deallocate(free);
        ctx.set_cp(cp);
        Ok(DispatchResult::Normal)
    }
}

/// `init(y)`: set the Y register `y` to `[]`.
pub struct OpcodeInit {}

impl OpcodeInit {
    pub const ARITY: usize = 1;

    pub fn init(curr_p: &mut Process, y: Term) -> (r: RtResult<DispatchResult>)
        requires
            y is RegY,
        ensures
            final(curr_p).heap.objs() == old(curr_p).heap.objs(),
            final(curr_p).context == old(curr_p).context,
            old(curr_p).heap.has_y(y->RegY_0 as int) ==> r == Ok::<DispatchResult, RtErr>(DispatchResult::Normal)
                && final(curr_p).heap.stack@ == old(curr_p).heap.stack@.update(old(curr_p).heap.y_index(y->RegY_0 as int), Term::Nil),
            !old(curr_p).heap.has_y(y->RegY_0 as int) ==> r is Err && final(curr_p).heap.stack@ == old(curr_p).heap.stack@,
    {
        let i = match y {
            Term::RegY(i) => i,
            _ => 0,
        };
        curr_p.heap.set_y(i, Term::nil())?;
        Ok(DispatchResult::Normal)
    }
}

/// `trim(n, remaining)`: drop `n_trim` words under the return address on
/// top of the stack, which stays on top.
pub struct OpcodeTrim {}

impl OpcodeTrim {
    pub const ARITY: usize = 2;

    pub fn trim(curr_p: &mut Process, n_trim: usize) -> (r: RtResult<DispatchResult>)
        requires
            n_trim < old(curr_p).heap.stack@.len(),
        ensures
            r == Ok::<DispatchResult, RtErr>(DispatchResult::Normal),
            final(curr_p).heap.stack@ == old(curr_p).heap.stack@.subrange(0, old(curr_p).heap.stack@.len() - 1 - n_trim).push(
                old(curr_p).heap.stack@.last(),
            ),
            final(curr_p).heap.objs() == old(curr_p).heap.objs(),
            final(curr_p).context == old(curr_p).context,
    {
        let tmp_cp = curr_p.heap.stack_deallocate(n_trim);
        curr_p.heap.stack_push(tmp_cp);
        Ok(DispatchResult::Normal)
    }
}

/// `is_nonempty_list(fail, value)`: continue at `fail` unless the value is
/// a list cell, a non-empty list (and `fail` is not `[]`).
pub struct OpcodeIsNonemptyList {}

impl OpcodeIsNonemptyList {
    pub const ARITY: usize = 2;

    pub fn is_nonempty_list(ctx: &mut Context, fail: Term, value: Term) -> (r: RtResult<DispatchResult>)
        requires
            fail is Cp || fail is Nil,
        ensures
            r == Ok::<DispatchResult, RtErr>(DispatchResult::Normal),
            !(value is Cons) && fail != Term::Nil ==> moved_to(*old(ctx), *final(ctx), fail->Cp_0),
            value is Cons || fail == Term::Nil ==> *final(ctx) == *old(ctx),
    {
        if !value.is_cons() && fail != Term::nil() {
            ctx.jump(fail)
        }
        Ok(DispatchResult::Normal)
    }
}

/// `is_nil(fail, value)`: continue at `fail` when the value is not `[]`
/// (and `fail` is not `[]`).
pub struct OpcodeIsNil {}

impl OpcodeIsNil {
    pub const ARITY: usize = 2;

    pub fn is_nil(ctx: &mut Context, fail: Term, value: Term) -> (r: RtResult<DispatchResult>)
        requires
            fail is Cp || fail is Nil,
        ensures
            r == Ok::<DispatchResult, RtErr>(DispatchResult::Normal),
            value != Term::Nil && fail != Term::Nil ==> moved_to(*old(ctx), *final(ctx), fail->Cp_0),
            !(value != Term::Nil && fail != Term::Nil) ==> *final(ctx) == *old(ctx),
    {
        if value != Term::nil() && fail != Term::nil() {
            ctx.jump(fail)
        }
        Ok(DispatchResult::Normal)
    }
}

/// Whether `t` is a tuple on the heap with objects `objs`.
pub open spec fn is_tuple_on(objs: Seq<HeapObjectView>, t: Term) -> bool {
    t is Boxed && t->Boxed_0 < objs.len() && objs[t->Boxed_0 as int] is Tuple
}

/// The elements of the tuple `t` on the heap with objects `objs`.
pub open spec fn tuple_elems(objs: Seq<HeapObjectView>, t: Term) -> Seq<Term> {
    objs[t->Boxed_0 as int]->Tuple_0
}

/// Whether a value can be stored in `dst` with the X registers `regs` and
/// the stack `stack`: an X register that exists, or a Y register of the
/// current frame.
pub open spec fn storable_in(dst: Term, regs: Seq<Term>, stack: Seq<Term>) -> bool {
    match dst {
        Term::RegX(i) => i < regs.len(),
        Term::RegY(i) => has_y_in(stack, i as int),
        _ => false,
    }
}

/// The X registers and the stack after storing `val` in `dst`: an X
/// register is written in `regs`, a Y register in its slot on `stack`.
pub open spec fn store_regs_stack(regs: Seq<Term>, stack: Seq<Term>, val: Term, dst: Term) -> (Seq<Term>, Seq<Term>) {
    match dst {
        Term::RegX(i) => (regs.update(i as int, val), stack),
        Term::RegY(i) => (regs, stack.update(y_slot(stack, i as int), val)),
        _ => (regs, stack),
    }
}

/// What storing `val` in `dst` does, from the context `a` and the process
/// `p0` to `b` and `p1` with the outcome `r`, once the process's heap
/// objects are `objs`: only the registers or the stack change, and a
/// destination that cannot be stored to is `badarg`, changing neither.
pub open spec fn store_outcome(
    a: Context,
    b: Context,
    p0: Process,
    p1: Process,
    objs: Seq<HeapObjectView>,
    val: Term,
    dst: Term,
    r: RtResult<DispatchResult>,
) -> bool {
    &&& p1 == (Process { heap: p1.heap, ..p0 })
    &&& p1.heap.objs() == objs
    &&& if storable_in(dst, a.regs@, p0.heap.stack@) {
        &&& r == Ok::<DispatchResult, RtErr>(DispatchResult::Normal)
        &&& a.with_regs(store_regs_stack(a.regs@, p0.heap.stack@, val, dst).0, b)
        &&& p1.heap.stack@ == store_regs_stack(a.regs@, p0.heap.stack@, val, dst).1
    } else {
        &&& r == Err::<DispatchResult, RtErr>(badarg_err())
        &&& b == a
        &&& p1.heap.stack@ == p0.heap.stack@
    }
}

/// Whether `t` is a list cell on the heap with objects `objs`.
pub open spec fn is_cons_on(objs: Seq<HeapObjectView>, t: Term) -> bool {
    t is Cons && t->Cons_0 < objs.len() && objs[t->Cons_0 as int] is Cons
}

/// `get_list(src, hd, tl)`: store the head and the tail of the list cell
/// `src`; something else than a list cell is `error:{badarg, Src}`.
pub struct OpcodeGetList {}

impl OpcodeGetList {
    pub const ARITY: usize = 3;

    pub fn decons(ctx: &mut Context, curr_p: &mut Process, src: Term, dst_hd: Term, dst_tl: Term) -> (r: RtResult<
        DispatchResult,
    >)
        requires
            src != Term::Nil,
        ensures
            !is_cons_on(old(curr_p).heap.objs(), src) ==> *final(ctx) == *old(ctx) && final(curr_p).heap.stack@
                == old(curr_p).heap.stack@ && (old(curr_p).heap.objs().len() < usize::MAX ==> r == Err::<
                DispatchResult,
                RtErr,
            >(RtErr::Exception(ExceptionType::Error, Term::Boxed(old(curr_p).heap.objs().len() as usize)))),
            !is_cons_on(old(curr_p).heap.objs(), src) ==> *final(curr_p) == (Process { heap: final(curr_p).heap, ..*old(curr_p) }),
            is_cons_on(old(curr_p).heap.objs(), src) ==> {
                let c = old(curr_p).heap.objs()[src->Cons_0 as int];
                let regs0 = old(ctx).regs@;
                let st0 = old(curr_p).heap.stack@;
                let (regs1, st1) = store_regs_stack(regs0, st0, c->Cons_0, dst_hd);
                let (regs2, st2) = store_regs_stack(regs1, st1, c->Cons_1, dst_tl);
                &&& *final(curr_p) == (Process { heap: final(curr_p).heap, ..*old(curr_p) })
                &&& final(curr_p).heap.objs() == old(curr_p).heap.objs()
                &&& !storable_in(dst_hd, regs0, st0) ==> r == Err::<DispatchResult, RtErr>(badarg_err())
                    && *final(ctx) == *old(ctx) && final(curr_p).heap.stack@ == st0
                &&& storable_in(dst_hd, regs0, st0) && !storable_in(dst_tl, regs1, st1) ==> r == Err::<
                    DispatchResult,
                    RtErr,
                >(badarg_err()) && old(ctx).with_regs(regs1, *final(ctx)) && final(curr_p).heap.stack@ == st1
                &&& storable_in(dst_hd, regs0, st0) && storable_in(dst_tl, regs1, st1) ==> r == Ok::<
                    DispatchResult,
                    RtErr,
                >(DispatchResult::Normal) && old(ctx).with_regs(regs2, *final(ctx)) && final(curr_p).heap.stack@ == st2
            },
    {
        let idx = match src {
            Term::Cons(i) => i,
            _ => return badarg_val(src, &mut curr_p.heap),
        };
        let (hd, tl) = match curr_p.heap.get_cons(idx) {
            Some(c) => c,
            None => return badarg_val(src, &mut curr_p.heap),
        };
        ctx.store_value(hd, dst_hd, &mut curr_p.heap)?;
        ctx.store_value(tl, dst_tl, &mut curr_p.heap)?;
        Ok(DispatchResult::Normal)
    }
}

/// `put_list(hd, tl, dst)`: make a list cell of `hd` and `tl` and store it.
pub struct OpcodePutList {}

impl OpcodePutList {
    pub const ARITY: usize = 3;

    pub fn cons(ctx: &mut Context, curr_p: &mut Process, src_hd: Term, src_tl: Term, dst: Term) -> (r: RtResult<
        DispatchResult,
    >)
        requires
            old(curr_p).heap.objs().len() < usize::MAX,
        ensures
            final(curr_p).heap.objs() == old(curr_p).heap.objs().push(HeapObjectView::Cons(src_hd, src_tl)),
            storable(dst, old(ctx).regs@, old(curr_p).heap) ==> r == Ok::<DispatchResult, RtErr>(DispatchResult::Normal),
            !storable(dst, old(ctx).regs@, old(curr_p).heap) ==> r == Err::<DispatchResult, RtErr>(badarg_err()),
            dst is RegX && r is Ok ==> final(ctx).regs@ == old(ctx).regs@.update(
                dst->RegX_0 as int,
                Term::Cons(old(curr_p).heap.objs().len() as usize),
            ),
            store_outcome(
                *old(ctx),
                *final(ctx),
                *old(curr_p),
                *final(curr_p),
                old(curr_p).heap.objs().push(HeapObjectView::Cons(src_hd, src_tl)),
                Term::Cons(old(curr_p).heap.objs().len() as usize),
                dst,
                r,
            ),
    {
        let idx = match curr_p.heap.allocate(HeapObject::Cons(src_hd, src_tl)) {
            Ok(i) => i,
            Err(e) => return Err(e),
        };
        ctx.store_value(Term::make_cons(idx), dst, &mut curr_p.heap)?;
        Ok(DispatchResult::Normal)
    }
}

/// `get_hd(cons, dst)`: store the head of the list cell `cons`.
pub struct OpcodeGetHd {}

impl OpcodeGetHd {
    pub const ARITY: usize = 2;

    pub fn hd(ctx: &mut Context, curr_p: &mut Process, cons: Term, dst: Term) -> (r: RtResult<DispatchResult>)
        requires
            is_cons_on(old(curr_p).heap.objs(), cons),
        ensures
            final(curr_p).heap.objs() == old(curr_p).heap.objs(),
            storable(dst, old(ctx).regs@, old(curr_p).heap) <==> r == Ok::<DispatchResult, RtErr>(DispatchResult::Normal),
            dst is RegX && r is Ok ==> final(ctx).regs@ == old(ctx).regs@.update(
                dst->RegX_0 as int,
                old(curr_p).heap.objs()[cons->Cons_0 as int]->Cons_0,
            ),
            store_outcome(
                *old(ctx),
                *final(ctx),
                *old(curr_p),
                *final(curr_p),
                old(curr_p).heap.objs(),
                old(curr_p).heap.objs()[cons->Cons_0 as int]->Cons_0,
                dst,
                r,
            ),
    {
        let (val, _) = match cons {
            Term::Cons(i) => match curr_p.heap.get_cons(i) {
                Some(c) => c,
                None => return badarg(),
            },
            _ => return badarg(),
        };
        ctx.store_value(val, dst, &mut curr_p.heap)?;
        Ok(DispatchResult::Normal)
    }
}

/// `get_tl(cons, dst)`: store the tail of the list cell `cons`.
pub struct OpcodeGetTl {}

impl OpcodeGetTl {
    pub const ARITY: usize = 2;

    pub fn tl(ctx: &mut Context, curr_p: &mut Process, cons: Term, dst: Term) -> (r: RtResult<DispatchResult>)
        requires
            is_cons_on(old(curr_p).heap.objs(), cons),
        ensures
            final(curr_p).heap.objs() == old(curr_p).heap.objs(),
            storable(dst, old(ctx).regs@, old(curr_p).heap) <==> r == Ok::<DispatchResult, RtErr>(DispatchResult::Normal),
            dst is RegX && r is Ok ==> final(ctx).regs@ == old(ctx).regs@.update(
                dst->RegX_0 as int,
                old(curr_p).heap.objs()[cons->Cons_0 as int]->Cons_1,
            ),
            store_outcome(
                *old(ctx),
                *final(ctx),
                *old(curr_p),
                *final(curr_p),
                old(curr_p).heap.objs(),
                old(curr_p).heap.objs()[cons->Cons_0 as int]->Cons_1,
                dst,
                r,
            ),
    {
        let (_, val) = match cons {
            Term::Cons(i) => match curr_p.heap.get_cons(i) {
                Some(c) => c,
                None => return badarg(),
            },
            _ => return badarg(),
        };
        ctx.store_value(val, dst, &mut curr_p.heap)?;
        Ok(DispatchResult::Normal)
    }
}

/// Whether the `n` instructions at `ip` are `put(value)` instructions
/// whose values can be loaded.
pub open spec fn puts_follow(code: Seq<CodeWord>, ip: int, n: nat, regs: Seq<Term>, hp: Heap) -> bool {
    forall|i: int| 0 <= i < n ==> {
        &&& 0 <= ip + 2 * i && ip + 2 * i + 1 < code.len()
        &&& #[trigger] code[ip + 2 * i] == CodeWord::Opcode(OPCODE_PUT)
        &&& code[ip + 2 * i + 1] is Value
        &&& loadable(code[ip + 2 * i + 1]->Value_0, regs, hp)
    }
}

/// `put_tuple(arity, dst)`: make a tuple of the values of the `arity`
/// `put` instructions that follow, and store it.
pub struct OpcodePutTuple {}

impl OpcodePutTuple {
    pub const ARITY: usize = 2;

    pub fn put_tuple(code: &[CodeWord], ctx: &mut Context, curr_p: &mut Process, arity: usize, dst: Term) -> (r: RtResult<
        DispatchResult,
    >)
        requires
            puts_follow(code@, old(ctx).ip as int, arity as nat, old(ctx).regs@, old(curr_p).heap),
            old(curr_p).heap.objs().len() < usize::MAX,
        ensures
            final(ctx).ip == old(ctx).ip + 2 * arity,
            final(curr_p).heap.objs() == old(curr_p).heap.objs().push(HeapObjectView::Tuple(Seq::new(
                arity as nat,
                |i: int| load_value(code@[old(ctx).ip + 2 * i + 1]->Value_0, old(ctx).regs@, old(curr_p).heap),
            ))),
            storable(dst, old(ctx).regs@, old(curr_p).heap) <==> r == Ok::<DispatchResult, RtErr>(DispatchResult::Normal),
            dst is RegX && r is Ok ==> final(ctx).regs@ == old(ctx).regs@.update(
                dst->RegX_0 as int,
                Term::Boxed(old(curr_p).heap.objs().len() as usize),
            ),
            store_outcome(
                (Context { ip: (old(ctx).ip + 2 * arity) as usize, ..*old(ctx) }),
                *final(ctx),
                *old(curr_p),
                *final(curr_p),
                old(curr_p).heap.objs().push(HeapObjectView::Tuple(Seq::new(
                    arity as nat,
                    |i: int| load_value(code@[old(ctx).ip + 2 * i + 1]->Value_0, old(ctx).regs@, old(curr_p).heap),
                ))),
                Term::Boxed(old(curr_p).heap.objs().len() as usize),
                dst,
                r,
            ),
    {
        let mut elems: Vec<Term> = Vec::new();
        let mut i: usize = 0;
        let ghost ip0 = ctx.ip as int;
        let clen = code.len();
        while i < arity
            invariant
                i <= arity,
                clen == code@.len(),
                ctx.ip == ip0 + 2 * i,
                ip0 == old(ctx).ip,
                ctx.regs == old(ctx).regs,
                ctx.module == old(ctx).module,
                ctx.cp == old(ctx).cp,
                ctx.live == old(ctx).live,
                ctx.current_bin == old(ctx).current_bin,
                *curr_p == *old(curr_p),
                puts_follow(code@, ip0, arity as nat, old(ctx).regs@, old(curr_p).heap),
                elems@ == Seq::new(i as nat, |k: int| load_value(code@[ip0 + 2 * k + 1]->Value_0, old(ctx).regs@, old(curr_p).heap)),
            decreases arity - i,
        {
            assert(code@[ip0 + 2 * i] == CodeWord::Opcode(OPCODE_PUT));
            let t = match code[ctx.ip + 1] {
                CodeWord::Value(t) => t,
                CodeWord::Opcode(_) => Term::NonValue,
            };
            let val = ctx.load(t, &curr_p.heap);
            ctx.ip = ctx.ip + 2;
            elems.push(val);
            i = i + 1;
            assert(elems@ =~= Seq::new(i as nat, |k: int| load_value(code@[ip0 + 2 * k + 1]->Value_0, old(ctx).regs@, old(curr_p).heap)));
        }
        let idx = curr_p.heap.allocate(HeapObject::Tuple(elems))?;
        ctx.store_value(Term::make_boxed(idx), dst, &mut curr_p.heap)?;
        Ok(DispatchResult::Normal)
    }
}

/// `test_arity(fail, value, arity)`: continue at `fail` unless the value is
/// a tuple of `arity` elements.
pub struct OpcodeTestArity {}

impl OpcodeTestArity {
    pub const ARITY: usize = 3;

    pub fn test_arity(ctx: &mut Context, hp: &Heap, fail: Term, value: Term, arity: usize) -> (r: RtResult<DispatchResult>)
        requires
            fail is Cp,
        ensures
            r == Ok::<DispatchResult, RtErr>(DispatchResult::Normal),
            is_tuple_on(hp.objs(), value) && tuple_elems(hp.objs(), value).len() == arity ==> *final(ctx) == *old(ctx),
            !(is_tuple_on(hp.objs(), value) && tuple_elems(hp.objs(), value).len() == arity) ==> moved_to(
                *old(ctx),
                *final(ctx),
                fail->Cp_0,
            ),
    {
        let elems = match value {
            Term::Boxed(i) => hp.get_tuple(i),
            _ => None,
        };
        match elems {
            None => ctx.jump(fail),
            Some(e) => {
                if e.len() != arity {
                    ctx.jump(fail)
                }
            },
        }
        Ok(DispatchResult::Normal)
    }
}

/// `get_tuple_element(src, index, dst)`: store the element `index` of the
/// tuple `src`.
pub struct OpcodeGetTupleElement {}

impl OpcodeGetTupleElement {
    pub const ARITY: usize = 3;

    pub fn get_tuple_element(ctx: &mut Context, curr_p: &mut Process, src: Term, index: usize, dst: Term) -> (r: RtResult<
        DispatchResult,
    >)
        requires
            is_tuple_on(old(curr_p).heap.objs(), src),
            index < tuple_elems(old(curr_p).heap.objs(), src).len(),
        ensures
            final(curr_p).heap.objs() == old(curr_p).heap.objs(),
            storable(dst, old(ctx).regs@, old(curr_p).heap) <==> r == Ok::<DispatchResult, RtErr>(DispatchResult::Normal),
            dst is RegX && r is Ok ==> final(ctx).regs@ == old(ctx).regs@.update(
                dst->RegX_0 as int,
                tuple_elems(old(curr_p).heap.objs(), src)[index as int],
            ),
            store_outcome(
                *old(ctx),
                *final(ctx),
                *old(curr_p),
                *final(curr_p),
                old(curr_p).heap.objs(),
                tuple_elems(old(curr_p).heap.objs(), src)[index as int],
                dst,
                r,
            ),
    {
        let elems = match src {
            Term::Boxed(i) => match curr_p.heap.get_tuple(i) {
                Some(e) => e,
                None => return badarg(),
            },
            _ => return badarg(),
        };
        let element = elems[index];
        ctx.store_value(element, dst, &mut curr_p.heap)?;
        Ok(DispatchResult::Normal)
    }
}

/// `set_tuple_element(value, tuple, index)`: replace the element `index`
/// of the tuple `dst` (in place); something else than a tuple is
/// `badarg`.
pub struct OpcodeSetTupleElement {}

impl OpcodeSetTupleElement {
    pub const ARITY: usize = 3;

    pub fn set_tuple_element(hp: &mut Heap, value: Term, dst: Term, index: usize) -> (r: RtResult<DispatchResult>)
        requires
            is_tuple_on(old(hp).objs(), dst) ==> index < tuple_elems(old(hp).objs(), dst).len(),
        ensures
            final(hp).stack@ == old(hp).stack@,
            !is_tuple_on(old(hp).objs(), dst) ==> r == Err::<DispatchResult, RtErr>(badarg_err()) && final(hp).objs()
                == old(hp).objs(),
            is_tuple_on(old(hp).objs(), dst) ==> r == Ok::<DispatchResult, RtErr>(DispatchResult::Normal) && final(hp).objs()
                == old(hp).objs().update(
                dst->Boxed_0 as int,
                HeapObjectView::Tuple(tuple_elems(old(hp).objs(), dst).update(index as int, value)),
            ),
    {
        let idx = match dst {
            Term::Boxed(i) => i,
            _ => return badarg(),
        };
        let mut elems = match hp.get_tuple(idx) {
            Some(e) => e,
            None => return badarg(),
        };
        elems.set(index, value);
        hp.replace(idx, HeapObject::Tuple(elems));
        Ok(DispatchResult::Normal)
    }
}

/// `is_tagged_tuple(fail, value, arity, atom)`: continue at `label` unless
/// the value is a tuple of `arity` elements whose first is `atom`.
pub struct OpcodeIsTaggedTuple {}

impl OpcodeIsTaggedTuple {
    pub const ARITY: usize = 4;

    pub fn is_tagged_tuple(ctx: &mut Context, hp: &Heap, label: Term, value: Term, arity: usize, atom: Term) -> (r: RtResult<
        DispatchResult,
    >)
        requires
            label is Cp,
            arity > 0,
        ensures
            r == Ok::<DispatchResult, RtErr>(DispatchResult::Normal),
            is_tuple_on(hp.objs(), value) && tuple_elems(hp.objs(), value).len() == arity && tuple_elems(hp.objs(), value)[0]
                == atom ==> *final(ctx) == *old(ctx),
            !(is_tuple_on(hp.objs(), value) && tuple_elems(hp.objs(), value).len() == arity && tuple_elems(hp.objs(), value)[0]
                == atom) ==> moved_to(*old(ctx), *final(ctx), label->Cp_0),
    {
        let elems = match value {
            Term::Boxed(i) => hp.get_tuple(i),
            _ => None,
        };
        match elems {
            None => ctx.jump(label),
            Some(e) => {
                if e.len() != arity {
                    ctx.jump(label);
                } else if e[0] != atom {
                    ctx.jump(label);
                }
            },
        }
        Ok(DispatchResult::Normal)
    }
}

/// `bif0`: call the BIF of the import `target`, storing its
/// result in `dst`; a failure continues at `fail` when it is a code
/// location.
pub struct OpcodeBif0 {}

impl OpcodeBif0 {
    pub const ARITY: usize = 2;

    pub fn bif0(
        vm: &mut VM,
        ctx: &mut Context,
        curr_p: &mut Process,
        target: Term,
        args: &[Term],
        dst: Term,
    ) -> (r: RtResult<DispatchResult>)
        requires
            old(vm).wf(),
            old(ctx).module < old(vm).code_server.modules@.len(),
        ensures
            final(vm).wf(),
            final(vm).code_server == old(vm).code_server,
            import_spec(*old(vm), old(ctx).module, target) is None ==> r == Err::<DispatchResult, RtErr>(badarg_err()),
            import_spec(*old(vm), old(ctx).module, target) is Some && !bif_known(
                *old(vm),
                import_spec(*old(vm), old(ctx).module, target)->Some_0,
            ) ==> r is Err && r->Err_0 is BifNotFound,
            import_spec(*old(vm), old(ctx).module, target) is None ==> *final(vm) == *old(vm) && *final(curr_p) == *old(curr_p),
            import_spec(*old(vm), old(ctx).module, target) is Some ==> native_called(
                *old(vm),
                *final(vm),
                *old(ctx),
                *final(ctx),
                *old(curr_p),
                *final(curr_p),
                Term::Nil,
                import_spec(*old(vm), old(ctx).module, target)->Some_0,
                args@,
                dst,
                r,
            ),
    {
        let mfa = match import_of(vm, ctx.module, target) {
            Some(m) => m,
            None => return badarg(),
        };
        call_native_fun(vm, ctx, curr_p, Term::nil(), &mfa, args, dst)
    }
}

/// `bif1`: call the BIF of the import `target` with one argument, storing its
/// result in `dst`; a failure continues at `fail` when it is a code
/// location.
pub struct OpcodeBif1 {}

impl OpcodeBif1 {
    pub const ARITY: usize = 4;

    pub fn bif1(
        vm: &mut VM,
        ctx: &mut Context,
        curr_p: &mut Process,
        fail: Term,
        target: Term,
        args: &[Term],
        dst: Term,
    ) -> (r: RtResult<DispatchResult>)
        requires
            old(vm).wf(),
            old(ctx).module < old(vm).code_server.modules@.len(),
        ensures
            final(vm).wf(),
            final(vm).code_server == old(vm).code_server,
            import_spec(*old(vm), old(ctx).module, target) is None ==> r == Err::<DispatchResult, RtErr>(badarg_err()),
            import_spec(*old(vm), old(ctx).module, target) is Some && !bif_known(
                *old(vm),
                import_spec(*old(vm), old(ctx).module, target)->Some_0,
            ) ==> r is Err && r->Err_0 is BifNotFound,
            import_spec(*old(vm), old(ctx).module, target) is None ==> *final(vm) == *old(vm) && *final(curr_p) == *old(curr_p),
            import_spec(*old(vm), old(ctx).module, target) is Some ==> native_called(
                *old(vm),
                *final(vm),
                *old(ctx),
                *final(ctx),
                *old(curr_p),
                *final(curr_p),
                fail,
                import_spec(*old(vm), old(ctx).module, target)->Some_0,
                args@,
                dst,
                r,
            ),
    {
        let mfa = match import_of(vm, ctx.module, target) {
            Some(m) => m,
            None => return badarg(),
        };
        call_native_fun(vm, ctx, curr_p, fail, &mfa, args, dst)
    }
}

/// `bif2`: call the BIF of the import `target` with two arguments, storing its
/// result in `dst`; a failure continues at `fail` when it is a code
/// location.
pub struct OpcodeBif2 {}

impl OpcodeBif2 {
    pub const ARITY: usize = 5;

    pub fn bif2(
        vm: &mut VM,
        ctx: &mut Context,
        curr_p: &mut Process,
        fail: Term,
        target: Term,
        args: &[Term],
        dst: Term,
    ) -> (r: RtResult<DispatchResult>)
        requires
            old(vm).wf(),
            old(ctx).module < old(vm).code_server.modules@.len(),
        ensures
            final(vm).wf(),
            final(vm).code_server == old(vm).code_server,
            import_spec(*old(vm), old(ctx).module, target) is None ==> r == Err::<DispatchResult, RtErr>(badarg_err()),
            import_spec(*old(vm), old(ctx).module, target) is Some && !bif_known(
                *old(vm),
                import_spec(*old(vm), old(ctx).module, target)->Some_0,
            ) ==> r is Err && r->Err_0 is BifNotFound,
            import_spec(*old(vm), old(ctx).module, target) is None ==> *final(vm) == *old(vm) && *final(curr_p) == *old(curr_p),
            import_spec(*old(vm), old(ctx).module, target) is Some ==> native_called(
                *old(vm),
                *final(vm),
                *old(ctx),
                *final(ctx),
                *old(curr_p),
                *final(curr_p),
                fail,
                import_spec(*old(vm), old(ctx).module, target)->Some_0,
                args@,
                dst,
                r,
            ),
    {
        let mfa = match import_of(vm, ctx.module, target) {
            Some(m) => m,
            None => return badarg(),
        };
        call_native_fun(vm, ctx, curr_p, fail, &mfa, args, dst)
    }
}

/// `gc_bif1`: call the BIF of the import `target` with one argument (`live` X registers are live), storing its
/// result in `dst`; a failure continues at `fail` when it is a code
/// location.
pub struct OpcodeGcBif1 {}

impl OpcodeGcBif1 {
    pub const ARITY: usize = 5;

    pub fn gc_bif1(
        vm: &mut VM,
        ctx: &mut Context,
        curr_p: &mut Process,
        fail: Term,
        live: usize,
        target: Term,
        args: &[Term],
        dst: Term,
    ) -> (r: RtResult<DispatchResult>)
        requires
            old(vm).wf(),
            old(ctx).module < old(vm).code_server.modules@.len(),
        ensures
            final(vm).wf(),
            final(vm).code_server == old(vm).code_server,
            final(ctx).live == live,
            import_spec(*old(vm), old(ctx).module, target) is None ==> r == Err::<DispatchResult, RtErr>(badarg_err()),
            import_spec(*old(vm), old(ctx).module, target) is Some && !bif_known(
                *old(vm),
                import_spec(*old(vm), old(ctx).module, target)->Some_0,
            ) ==> r is Err && r->Err_0 is BifNotFound,
            import_spec(*old(vm), old(ctx).module, target) is None ==> *final(vm) == *old(vm) && *final(curr_p) == *old(curr_p),
            import_spec(*old(vm), old(ctx).module, target) is Some ==> native_called(
                *old(vm),
                *final(vm),
                with_live(*old(ctx), live),
                *final(ctx),
                *old(curr_p),
                *final(curr_p),
                fail,
                import_spec(*old(vm), old(ctx).module, target)->Some_0,
                args@,
                dst,
                r,
            ),
    {
        ctx.live = live;
        let mfa = match import_of(vm, ctx.module, target) {
            Some(m) => m,
            None => return badarg(),
        };
        call_native_fun(vm, ctx, curr_p, fail, &mfa, args, dst)
    }
}

/// `gc_bif2`: call the BIF of the import `target` with two arguments (`live` X registers are live), storing its
/// result in `dst`; a failure continues at `fail` when it is a code
/// location.
pub struct OpcodeGcBif2 {}

impl OpcodeGcBif2 {
    pub const ARITY: usize = 6;

    pub fn gc_bif2(
        vm: &mut VM,
        ctx: &mut Context,
        curr_p: &mut Process,
        fail: Term,
        live: usize,
        target: Term,
        args: &[Term],
        dst: Term,
    ) -> (r: RtResult<DispatchResult>)
        requires
            old(vm).wf(),
            old(ctx).module < old(vm).code_server.modules@.len(),
        ensures
            final(vm).wf(),
            final(vm).code_server == old(vm).code_server,
            final(ctx).live == live,
            import_spec(*old(vm), old(ctx).module, target) is None ==> r == Err::<DispatchResult, RtErr>(badarg_err()),
            import_spec(*old(vm), old(ctx).module, target) is Some && !bif_known(
                *old(vm),
                import_spec(*old(vm), old(ctx).module, target)->Some_0,
            ) ==> r is Err && r->Err_0 is BifNotFound,
            import_spec(*old(vm), old(ctx).module, target) is None ==> *final(vm) == *old(vm) && *final(curr_p) == *old(curr_p),
            import_spec(*old(vm), old(ctx).module, target) is Some ==> native_called(
                *old(vm),
                *final(vm),
                with_live(*old(ctx), live),
                *final(ctx),
                *old(curr_p),
                *final(curr_p),
                fail,
                import_spec(*old(vm), old(ctx).module, target)->Some_0,
                args@,
                dst,
                r,
            ),
    {
        ctx.live = live;
        let mfa = match import_of(vm, ctx.module, target) {
            Some(m) => m,
            None => return badarg(),
        };
        call_native_fun(vm, ctx, curr_p, fail, &mfa, args, dst)
    }
}

/// `gc_bif3`: call the BIF of the import `target` with three arguments (`live` X registers are live), storing its
/// result in `dst`; a failure continues at `fail` when it is a code
/// location.
pub struct OpcodeGcBif3 {}

impl OpcodeGcBif3 {
    pub const ARITY: usize = 7;

    pub fn gc_bif3(
        vm: &mut VM,
        ctx: &mut Context,
        curr_p: &mut Process,
        fail: Term,
        live: usize,
        target: Term,
        args: &[Term],
        dst: Term,
    ) -> (r: RtResult<DispatchResult>)
        requires
            old(vm).wf(),
            old(ctx).module < old(vm).code_server.modules@.len(),
        ensures
            final(vm).wf(),
            final(vm).code_server == old(vm).code_server,
            final(ctx).live == live,
            import_spec(*old(vm), old(ctx).module, target) is None ==> r == Err::<DispatchResult, RtErr>(badarg_err()),
            import_spec(*old(vm), old(ctx).module, target) is Some && !bif_known(
                *old(vm),
                import_spec(*old(vm), old(ctx).module, target)->Some_0,
            ) ==> r is Err && r->Err_0 is BifNotFound,
            import_spec(*old(vm), old(ctx).module, target) is None ==> *final(vm) == *old(vm) && *final(curr_p) == *old(curr_p),
            import_spec(*old(vm), old(ctx).module, target) is Some ==> native_called(
                *old(vm),
                *final(vm),
                with_live(*old(ctx), live),
                *final(ctx),
                *old(curr_p),
                *final(curr_p),
                fail,
                import_spec(*old(vm), old(ctx).module, target)->Some_0,
                args@,
                dst,
                r,
            ),
    {
        ctx.live = live;
        let mfa = match import_of(vm, ctx.module, target) {
            Some(m) => m,
            None => return badarg(),
        };
        call_native_fun(vm, ctx, curr_p, fail, &mfa, args, dst)
    }
}

/// Where `select_val` continues for `val`, looking at the pairs from pair
/// `i` on: the label of the first pair whose value compares equal to
/// `val`, else `fail`; `None` when a comparison refuses its operands.
pub open spec fn select_target(val: Term, pairs: Seq<Term>, fail: Term, i: int) -> Option<Term>
    decreases pairs.len() / 2 - i,
{
    if i < 0 || i >= pairs.len() / 2 {
        Some(fail)
    } else {
        match crate::op_checks::compare_spec(val, pairs[2 * i]) {
            None => None,
            Some(crate::op_checks::TermOrder::Equal) => Some(pairs[2 * i + 1]),
            Some(_) => select_target(val, pairs, fail, i + 1),
        }
    }
}

/// Whether every label of the pairs (value, label) is a code location.
pub open spec fn labels_are_cp(pairs: Seq<Term>) -> bool {
    forall|i: int| 0 <= i < pairs.len() / 2 ==> (#[trigger] pairs[2 * i + 1]) is Cp
}

/// `select_val(val, fail, pairs)`: continue at the label paired with the
/// first value equal to `val`, else at `fail`.
pub struct OpcodeSelectVal {}

impl OpcodeSelectVal {
    pub const ARITY: usize = 3;

    pub fn select_val(ctx: &mut Context, val: Term, fail: Term, pairs: &[Term]) -> (r: RtResult<DispatchResult>)
        requires
            fail is Cp,
            labels_are_cp(pairs@),
        ensures
            match select_target(val, pairs@, fail, 0) {
                None => r == Err::<DispatchResult, RtErr>(badarg_err()) && *final(ctx) == *old(ctx),
                Some(l) => r == Ok::<DispatchResult, RtErr>(DispatchResult::Normal) && moved_to(*old(ctx), *final(ctx), l->Cp_0),
            },
    {
        let n = pairs.len();
        let pairs_count = n / 2;
        let mut i: usize = 0;
        while i < pairs_count
            invariant
                n == pairs@.len(),
                pairs_count == pairs@.len() / 2,
                i <= pairs_count,
                fail is Cp,
                labels_are_cp(pairs@),
                *ctx == *old(ctx),
                select_target(val, pairs@, fail, 0) == select_target(val, pairs@, fail, i as int),
            decreases pairs_count - i,
        {
            let sel_val = pairs[i * 2];
            match crate::op_checks::compare_terms(val, sel_val, true) {
                Err(e) => return Err(e),
                Ok(crate::op_checks::TermOrder::Equal) => {
                    let sel_label = pairs[i * 2 + 1];
                    assert(pairs@[2 * (i as int) + 1] is Cp);
                    ctx.jump(sel_label);
                    return Ok(DispatchResult::Normal);
                },
                Ok(_) => {},
            }
            i = i + 1;
        }
        ctx.jump(fail);
        Ok(DispatchResult::Normal)
    }
}

/// The number of arguments a caller passes to a closure of the lambda
/// `e`: its function's arity without the frozen values.
pub open spec fn closure_arity(e: crate::module::FunEntry) -> usize {
    if e.mfa.arity >= e.nfrozen { (e.mfa.arity - e.nfrozen) as usize } else { 0 }
}

/// `make_fun2(lambda)`: a closure of the lambda `export` of the module
/// being run, which freezes the first X registers; it goes to X register 0.
pub struct OpcodeMakeFun2 {}

impl OpcodeMakeFun2 {
    pub const ARITY: usize = 1;

    pub fn make_fun2(vm: &VM, ctx: &mut Context, curr_p: &mut Process, export: Term) -> (r: RtResult<DispatchResult>)
        requires
            old(ctx).wf(),
            old(ctx).module < vm.code_server.modules@.len(),
            export is Lambda,
            export->Lambda_0 < vm.code_server.modules@[old(ctx).module as int].lambdas@.len(),
            vm.code_server.modules@[old(ctx).module as int].lambdas@[export->Lambda_0 as int].nfrozen <= crate::defs::MAX_XREGS,
        ensures
            ({
                let e = vm.code_server.modules@[old(ctx).module as int].lambdas@[export->Lambda_0 as int];
                let n = old(curr_p).heap.objs().len();
                &&& final(curr_p).heap.stack@ == old(curr_p).heap.stack@
                &&& n < usize::MAX ==> {
                    &&& r == Ok::<DispatchResult, RtErr>(DispatchResult::Normal)
                    &&& final(curr_p).heap.objs() == old(curr_p).heap.objs().push(HeapObjectView::Closure(
                        e.mfa,
                        closure_arity(e),
                        old(ctx).regs@.subrange(0, e.nfrozen as int),
                    ))
                    &&& old(ctx).with_regs(old(ctx).regs@.update(0, Term::Boxed(n as usize)), *final(ctx))
                }
                &&& n >= usize::MAX ==> r is Err && r->Err_0 is HeapIsFull && *final(ctx) == *old(ctx)
            }),
    {
        let e = &vm.code_server.modules[ctx.module].lambdas[export.get_lambda_index()];
        let frozen = ctx.registers_slice(0, e.nfrozen);
        let arity = if e.mfa.arity >= e.nfrozen { e.mfa.arity - e.nfrozen } else { 0 };
        let idx = curr_p.heap.allocate(HeapObject::Closure(e.mfa, arity, frozen))?;
        ctx.set_x(0, Term::Boxed(idx));
        Ok(DispatchResult::Normal)
    }
}

/// The function object `t` among `objs`, when it is a closure or an export.
pub open spec fn fun_object(objs: Seq<HeapObjectView>, t: Term) -> Option<HeapObjectView> {
    if t is Boxed && t->Boxed_0 < objs.len() && (objs[t->Boxed_0 as int] is Closure || objs[t->Boxed_0 as int] is Export) {
        Some(objs[t->Boxed_0 as int])
    } else {
        None
    }
}

/// The registers `regs` with `vals` written from position `at` on.
pub open spec fn regs_with(regs: Seq<Term>, at: int, vals: Seq<Term>) -> Seq<Term> {
    Seq::new(regs.len(), |i: int| if at <= i < at + vals.len() { vals[i - at] } else { regs[i] })
}

/// `call_fun(arity)`: call the function object in X register `arity` with
/// the first `arity` X registers, to return after this instruction. A
/// closure gets its frozen values in the X registers after the arguments,
/// and the function of its lambda is called; an export calls its function
/// as `apply` does; anything else is `error:badfun`.
pub struct OpcodeCallFun {}

impl OpcodeCallFun {
    pub const ARITY: usize = 1;

    pub fn call_fun(vm: &mut VM, ctx: &mut Context, curr_p: &mut Process, arity: usize) -> (r: RtResult<DispatchResult>)
        requires
            old(vm).wf(),
            old(ctx).wf(),
            arity < old(ctx).regs@.len(),
            !(fun_object(old(curr_p).heap.objs(), old(ctx).regs@[arity as int]) matches Some(HeapObjectView::Export(mfa))
                && mfa.m == Term::Atom(atoms::ERLANG) && mfa.f == Term::Atom(atoms::APPLY) && mfa.arity == 3),
        ensures
            final(vm).wf(),
            final(vm).code_server == old(vm).code_server,
            ({
                let f = fun_object(old(curr_p).heap.objs(), old(ctx).regs@[arity as int]);
                &&& f is None ==> r == Err::<DispatchResult, RtErr>(RtErr::Exception(ExceptionType::Error, Term::Atom(atoms::BADFUN)))
                    && *final(ctx) == *old(ctx) && *final(vm) == *old(vm) && *final(curr_p) == *old(curr_p)
                &&& f matches Some(HeapObjectView::Closure(mfa, _, frozen)) ==> {
                    &&& *final(vm) == *old(vm)
                    &&& *final(curr_p) == *old(curr_p)
                    &&& arity + frozen.len() > old(ctx).regs@.len() ==> r == Err::<DispatchResult, RtErr>(badarg_err())
                    &&& arity + frozen.len() <= old(ctx).regs@.len() ==> {
                        &&& final(ctx).regs@ == regs_with(old(ctx).regs@, arity as int, frozen)
                        &&& final(ctx).live == arity + frozen.len()
                        &&& match mfa_location(old(vm).code_server.modules@, mfa.m, mfa.f, mfa.arity) {
                            None => r == Err::<DispatchResult, RtErr>(RtErr::Exception(ExceptionType::Error, Term::Atom(atoms::UNDEF))),
                            Some((m, o)) => r == Ok::<DispatchResult, RtErr>(DispatchResult::Normal) && final(ctx).module == m
                                && final(ctx).ip == o && final(ctx).cp == Some((old(ctx).module, old(ctx).ip)),
                        }
                    }
                }
                &&& f matches Some(HeapObjectView::Export(mfa)) ==> {
                    &&& mfa.arity > old(ctx).regs@.len() ==> r == Err::<DispatchResult, RtErr>(badarg_err())
                    &&& mfa.arity <= old(ctx).regs@.len() && bif_known(*old(vm), mfa) ==> exists|rn: RtResult<DispatchResult>|
                        #[trigger] native_called(
                        *old(vm),
                        *final(vm),
                        *old(ctx),
                        *final(ctx),
                        *old(curr_p),
                        *final(curr_p),
                        Term::Nil,
                        mfa,
                        old(ctx).regs@.subrange(0, mfa.arity as int),
                        Term::RegX(0),
                        rn,
                    ) && r == rn
                    &&& mfa.arity <= old(ctx).regs@.len() && !bif_known(*old(vm), mfa) ==> *final(vm) == *old(vm) && match mfa_location(
                        old(vm).code_server.modules@, mfa.m, mfa.f, mfa.arity,
                    ) {
                        None => r == Err::<DispatchResult, RtErr>(RtErr::Exception(ExceptionType::Error, Term::Atom(atoms::UNDEF))),
                        Some((m, o)) => r == Ok::<DispatchResult, RtErr>(DispatchResult::Normal) && final(ctx).module == m
                            && final(ctx).ip == o && final(ctx).cp == Some((old(ctx).module, old(ctx).ip)),
                    }
                }
            }),
    {
        let fun_t = ctx.get_x(arity);
        let idx = match fun_t {
            Term::Boxed(i) => i,
            _ => return crate::fail::badfun(),
        };
        if idx >= curr_p.heap.objects.len() {
            return crate::fail::badfun();
        }
        let ghost objs = curr_p.heap.objs();
        let (is_closure, mfa, frozen) = match &curr_p.heap.objects[idx] {
            HeapObject::Closure(m, _, fz) => {
                let fz2 = clone_terms(fz);
                (true, *m, fz2)
            },
            HeapObject::Export(m) => (false, *m, Vec::new()),
            _ => return crate::fail::badfun(),
        };
        assert(objs[idx as int] == curr_p.heap.objects@[idx as int]@);
        if is_closure {
            let n = frozen.len();
            if n > ctx.regs.len() - arity {
                return badarg();
            }
            let mut k: usize = 0;
            while k < n
                invariant
                    k <= n,
                    n == frozen@.len(),
                    arity + n <= ctx.regs@.len(),
                    ctx.wf(),
                    ctx.regs@.len() == old(ctx).regs@.len(),
                    ctx.regs@ == regs_with(old(ctx).regs@, arity as int, frozen@.subrange(0, k as int)),
                    ctx.module == old(ctx).module,
                    ctx.ip == old(ctx).ip,
                    ctx.cp == old(ctx).cp,
                decreases n - k,
            {
                ctx.set_x(arity + k, frozen[k]);
                k = k + 1;
                assert(ctx.regs@ =~= regs_with(old(ctx).regs@, arity as int, frozen@.subrange(0, k as int)));
            }
            assert(frozen@.subrange(0, n as int) =~= frozen@);
            ctx.live = arity + n;
            match vm.code_server.lookup_mfa(mfa.m, mfa.f, mfa.arity) {
                None => Err(RtErr::Exception(ExceptionType::Error, Term::Atom(atoms::UNDEF))),
                Some((m, o)) => {
                    ctx.cp = Some((ctx.module, ctx.ip));
                    ctx.module = m;
                    ctx.ip = o;
                    Ok(DispatchResult::Normal)
                },
            }
        } else {
            if mfa.arity > ctx.regs.len() {
                return badarg();
            }
            match fixed_apply(vm, ctx, curr_p, &mfa, 0) {
                Ok(()) => Ok(DispatchResult::Normal),
                Err(e) => Err(e),
            }
        }
    }
}

/// A copy of the terms of `v`.
fn clone_terms(v: &Vec<Term>) -> (r: Vec<Term>)
    ensures
        r@ == v@,
{
    let mut r: Vec<Term> = Vec::new();
    let mut i: usize = 0;
    while i < v.len()
        invariant
            i <= v@.len(),
            r@ == v@.subrange(0, i as int),
        decreases v@.len() - i,
    {
        r.push(v[i]);
        i = i + 1;
        assert(r@ =~= v@.subrange(0, i as int));
    }
    r
}

/// The loader reads each instruction with as many arguments as its
/// handler takes: for every opcode that this runtime runs, the generic
/// opcode table gives the arity that the opcode's handler expects (for
/// example `is_eq_exact`, number 43, takes a fail label and two values).
pub proof fn law_handler_arities()
    ensures
        arity_of(crate::genop::OPCODE_FUNC_INFO) == OpcodeFuncInfo::ARITY,
        arity_of(crate::genop::OPCODE_CALL) == OpcodeCall::ARITY,
        arity_of(crate::genop::OPCODE_CALL_LAST) == OpcodeCallLast::ARITY,
        arity_of(crate::genop::OPCODE_CALL_ONLY) == OpcodeCallOnly::ARITY,
        arity_of(crate::genop::OPCODE_CALL_EXT) == OpcodeCallExt::ARITY,
        arity_of(crate::genop::OPCODE_CALL_EXT_LAST) == OpcodeCallExtLast::ARITY,
        arity_of(crate::genop::OPCODE_BIF0) == OpcodeBif0::ARITY,
        arity_of(crate::genop::OPCODE_BIF1) == OpcodeBif1::ARITY,
        arity_of(crate::genop::OPCODE_BIF2) == OpcodeBif2::ARITY,
        arity_of(17u8) == OpcodeInit::ARITY,
        arity_of(18u8) == OpcodeDeallocate::ARITY,
        arity_of(crate::genop::OPCODE_RETURN) == OpcodeReturn::ARITY,
        arity_of(crate::genop::OPCODE_IS_LT) == crate::op_checks::OpcodeIsLt::ARITY,
        arity_of(crate::genop::OPCODE_IS_GE) == crate::op_checks::OpcodeIsGe::ARITY,
        arity_of(crate::genop::OPCODE_IS_EQ) == crate::op_checks::OpcodeIsEq::ARITY,
        arity_of(crate::genop::OPCODE_IS_EQ_EXACT) == crate::op_checks::OpcodeIsEqExact::ARITY,
        arity_of(45u8) == crate::op_checks::OpcodeIsInteger::ARITY,
        arity_of(46u8) == crate::op_checks::OpcodeIsFloat::ARITY,
        arity_of(47u8) == crate::op_checks::OpcodeIsNumber::ARITY,
        arity_of(48u8) == crate::op_checks::OpcodeIsAtom::ARITY,
        arity_of(49u8) == crate::op_checks::OpcodeIsPid::ARITY,
        arity_of(50u8) == crate::op_checks::OpcodeIsReference::ARITY,
        arity_of(51u8) == crate::op_checks::OpcodeIsPort::ARITY,
        arity_of(52u8) == OpcodeIsNil::ARITY,
        arity_of(53u8) == crate::op_checks::OpcodeIsBinary::ARITY,
        arity_of(55u8) == crate::op_checks::OpcodeIsList::ARITY,
        arity_of(56u8) == OpcodeIsNonemptyList::ARITY,
        arity_of(57u8) == crate::op_checks::OpcodeIsTuple::ARITY,
        arity_of(58u8) == OpcodeTestArity::ARITY,
        arity_of(59u8) == OpcodeSelectVal::ARITY,
        arity_of(crate::genop::OPCODE_JUMP) == OpcodeJump::ARITY,
        arity_of(65u8) == OpcodeGetList::ARITY,
        arity_of(66u8) == OpcodeGetTupleElement::ARITY,
        arity_of(67u8) == OpcodeSetTupleElement::ARITY,
        arity_of(69u8) == OpcodePutList::ARITY,
        arity_of(70u8) == OpcodePutTuple::ARITY,
        arity_of(crate::genop::OPCODE_BADMATCH) == OpcodeBadmatch::ARITY,
        arity_of(75u8) == OpcodeCallFun::ARITY,
        arity_of(77u8) == crate::op_checks::OpcodeIsFunction::ARITY,
        arity_of(crate::genop::OPCODE_CALL_EXT_ONLY) == OpcodeCallExtOnly::ARITY,
        arity_of(89u8) == crate::op_binary::OpcodeBsPutInteger::ARITY,
        arity_of(90u8) == crate::op_binary::OpcodeBsPutBinary::ARITY,
        arity_of(crate::genop::OPCODE_MAKE_FUN2) == OpcodeMakeFun2::ARITY,
        arity_of(crate::genop::OPCODE_TRY) == OpcodeTry::ARITY,
        arity_of(crate::genop::OPCODE_TRY_END) == OpcodeTryEnd::ARITY,
        arity_of(crate::genop::OPCODE_TRY_CASE) == OpcodeTryCase::ARITY,
        arity_of(crate::genop::OPCODE_RAISE) == OpcodeRaise::ARITY,
        arity_of(109u8) == crate::op_binary::OpcodeBsInit2::ARITY,
        arity_of(111u8) == crate::op_binary::OpcodeBsAdd::ARITY,
        arity_of(crate::genop::OPCODE_APPLY) == OpcodeApply::ARITY,
        arity_of(crate::genop::OPCODE_APPLY_LAST) == OpcodeApplyLast::ARITY,
        arity_of(115u8) == crate::op_checks::OpcodeIsFunction2::ARITY,
        arity_of(119u8) == crate::op_binary::OpcodeBsGetBinary2::ARITY,
        arity_of(121u8) == crate::op_binary::OpcodeBsTestTail2::ARITY,
        arity_of(crate::genop::OPCODE_GC_BIF1) == OpcodeGcBif1::ARITY,
        arity_of(crate::genop::OPCODE_GC_BIF2) == OpcodeGcBif2::ARITY,
        arity_of(crate::genop::OPCODE_TRIM) == OpcodeTrim::ARITY,
        arity_of(crate::genop::OPCODE_GC_BIF3) == OpcodeGcBif3::ARITY,
        arity_of(159u8) == OpcodeIsTaggedTuple::ARITY,
        arity_of(162u8) == OpcodeGetHd::ARITY,
        arity_of(163u8) == OpcodeGetTl::ARITY,
        arity_of(166u8) == crate::op_binary::OpcodeBsStartMatch3::ARITY,
{
}

} // verus!
