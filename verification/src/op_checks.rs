//! Opcode handlers that read their arguments from the code: type checks
//! and comparisons. Each continues after its arguments when the check
//! holds, else at its fail label.
use vstd::prelude::*;
use num::Signed;
use crate::exc_type::ExceptionType;
use crate::fail::{badarg_err, RtErr, RtResult};
use crate::heap::{Heap, HeapObject, HeapObjectView};
use crate::module::CodeWord;
use crate::opcodes::DispatchResult;
use crate::process::{arg_at, has_args, load_value, loadable, Context, Process};
use crate::term::Term;
use crate::vm::VM;

verus! {

/// Kinds of heap objects that checks look for.
#[derive(Clone, Copy, PartialEq, Eq, Structural, Debug)]
pub enum BoxKind {
    Tuple,
    Binary,
    Float,
    Bignum,
    /// A closure or an export.
    Fun,
}

/// Whether `t` refers to an object of kind `kind` among `objs`.
pub open spec fn boxed_is(objs: Seq<HeapObjectView>, t: Term, kind: BoxKind) -> bool {
    t is Boxed && t->Boxed_0 < objs.len() && match (kind, objs[t->Boxed_0 as int]) {
        (BoxKind::Tuple, HeapObjectView::Tuple(_)) => true,
        (BoxKind::Binary, HeapObjectView::Binary(_)) => true,
        (BoxKind::Binary, HeapObjectView::BinarySlice(_, _, _)) => true,
        (BoxKind::Float, HeapObjectView::Float(_)) => true,
        (BoxKind::Bignum, HeapObjectView::Bignum(_, _)) => true,
        (BoxKind::Fun, HeapObjectView::Closure(_, _, _)) => true,
        (BoxKind::Fun, HeapObjectView::Export(_)) => true,
        _ => false,
    }
}

/// Whether `t` refers to an object of kind `kind` on `hp`.
pub fn boxed_kind_is(hp: &Heap, t: Term, kind: BoxKind) -> (r: bool)
    ensures
        r == boxed_is(hp.objs(), t, kind),
{
    let idx = match t {
        Term::Boxed(i) => i,
        _ => return false,
    };
    if idx >= hp.objects.len() {
        return false;
    }
    match (kind, &hp.objects[idx]) {
        (BoxKind::Tuple, HeapObject::Tuple(_)) => true,
        (BoxKind::Binary, HeapObject::Binary(_)) => true,
        (BoxKind::Binary, HeapObject::BinarySlice(_, _, _)) => true,
        (BoxKind::Float, HeapObject::Float(_)) => true,
        (BoxKind::Bignum, HeapObject::Bignum(_)) => true,
        (BoxKind::Fun, HeapObject::Closure(_, _, _)) => true,
        (BoxKind::Fun, HeapObject::Export(_)) => true,
        _ => false,
    }
}

/// The code of the module being run.
pub open spec fn code_of(vm: VM, ctx: Context) -> Seq<CodeWord> {
    vm.code_server.modules@[ctx.module as int].code@
}

/// Whether a check with `n` arguments can run: its module is loaded, its
/// arguments are in the code, the first is the fail label and the others
/// can be loaded.
pub open spec fn check_ready(vm: VM, ctx: Context, hp: Heap, n: int) -> bool {
    &&& ctx.module < vm.code_server.modules@.len()
    &&& has_args(code_of(vm, ctx), ctx.ip as int, n)
    &&& arg_at(code_of(vm, ctx), ctx.ip as int, 0) is Cp
    &&& forall|i: int| 1 <= i < n ==> loadable(#[trigger] arg_at(code_of(vm, ctx), ctx.ip as int, i), ctx.regs@, hp)
}

/// The value of the argument `i` of the instruction at `ctx.ip`.
pub open spec fn fetched(vm: VM, ctx: Context, hp: Heap, i: int) -> Term {
    load_value(arg_at(code_of(vm, ctx), ctx.ip as int, i), ctx.regs@, hp)
}

/// `b` is `a` after a check of `n` arguments: past the arguments when it
/// passes, else at the fail label.
pub open spec fn after_check(vm: VM, a: Context, b: Context, n: int, pass: bool) -> bool {
    &&& b.module == a.module
    &&& b.cp == a.cp
    &&& b.live == a.live
    &&& b.regs == a.regs
    &&& b.current_bin == a.current_bin
    &&& b.ip == (if pass { a.ip + n } else { arg_at(code_of(vm, a), a.ip as int, 0)->Cp_0 as int })
}

/// Read the fail label and the value of a type check.
fn fetch_args(vm: &VM, ctx: &mut Context, curr_p: &Process) -> (r: (Term, Term))
    requires
        check_ready(*vm, *old(ctx), curr_p.heap, 2),
    ensures
        r.0 == arg_at(code_of(*vm, *old(ctx)), old(ctx).ip as int, 0),
        r.1 == fetched(*vm, *old(ctx), curr_p.heap, 1),
        final(ctx).ip == old(ctx).ip + 2,
        final(ctx).module == old(ctx).module,
        final(ctx).cp == old(ctx).cp,
        final(ctx).live == old(ctx).live,
        final(ctx).regs == old(ctx).regs,
        final(ctx).current_bin == old(ctx).current_bin,
{
    let code = vm.code_server.modules[ctx.module].code.as_slice();
    let ghost ip0 = ctx.ip as int;
    assert(loadable(arg_at(code@, ip0, 1), ctx.regs@, curr_p.heap));
    let fail = ctx.fetch_term(code);
    assert(code@[ip0 + 1] is Value);
    assert(has_args(code@, ctx.ip as int, 1));
    let value = ctx.fetch_and_load(code, &curr_p.heap);
    (fail, value)
}

/// `is_atom(fail, value)`: continue at `fail` unless the value is an atom.
pub struct OpcodeIsAtom {}

impl OpcodeIsAtom {
    pub const ARITY: usize = 2;

    /// The value is an atom.
    pub open spec fn passes(v: Term, objs: Seq<HeapObjectView>) -> bool {
        v is Atom
    }

    pub fn run(vm: &mut VM, ctx: &mut Context, curr_p: &mut Process) -> (r: RtResult<DispatchResult>)
        requires
            check_ready(*old(vm), *old(ctx), old(curr_p).heap, 2),
        ensures
            r == Ok::<DispatchResult, RtErr>(DispatchResult::Normal),
            *final(vm) == *old(vm),
            *final(curr_p) == *old(curr_p),
            after_check(*old(vm), *old(ctx), *final(ctx), 2,
                Self::passes(fetched(*old(vm), *old(ctx), old(curr_p).heap, 1), old(curr_p).heap.objs())),
    {
        let (fail_label, val) = fetch_args(vm, ctx, curr_p);
        if !(val.is_atom()) {
            ctx.jump(fail_label)
        }
        Ok(DispatchResult::Normal)
    }
}

/// `is_function(fail, value)`: continue at `fail` unless the value is a function (a closure or an export).
pub struct OpcodeIsFunction {}

impl OpcodeIsFunction {
    pub const ARITY: usize = 2;

    /// The value is a function (a closure or an export).
    pub open spec fn passes(v: Term, objs: Seq<HeapObjectView>) -> bool {
        boxed_is(objs, v, BoxKind::Fun)
    }

    pub fn run(vm: &mut VM, ctx: &mut Context, curr_p: &mut Process) -> (r: RtResult<DispatchResult>)
        requires
            check_ready(*old(vm), *old(ctx), old(curr_p).heap, 2),
        ensures
            r == Ok::<DispatchResult, RtErr>(DispatchResult::Normal),
            *final(vm) == *old(vm),
            *final(curr_p) == *old(curr_p),
            after_check(*old(vm), *old(ctx), *final(ctx), 2,
                Self::passes(fetched(*old(vm), *old(ctx), old(curr_p).heap, 1), old(curr_p).heap.objs())),
    {
        let (fail_label, val) = fetch_args(vm, ctx, curr_p);
        if !(boxed_kind_is(&curr_p.heap, val, BoxKind::Fun)) {
            ctx.jump(fail_label)
        }
        Ok(DispatchResult::Normal)
    }
}

/// `is_integer(fail, value)`: continue at `fail` unless the value is a small or a big integer.
pub struct OpcodeIsInteger {}

impl OpcodeIsInteger {
    pub const ARITY: usize = 2;

    /// The value is a small or a big integer.
    pub open spec fn passes(v: Term, objs: Seq<HeapObjectView>) -> bool {
        v is Small || boxed_is(objs, v, BoxKind::Bignum)
    }

    pub fn run(vm: &mut VM, ctx: &mut Context, curr_p: &mut Process) -> (r: RtResult<DispatchResult>)
        requires
            check_ready(*old(vm), *old(ctx), old(curr_p).heap, 2),
        ensures
            r == Ok::<DispatchResult, RtErr>(DispatchResult::Normal),
            *final(vm) == *old(vm),
            *final(curr_p) == *old(curr_p),
            after_check(*old(vm), *old(ctx), *final(ctx), 2,
                Self::passes(fetched(*old(vm), *old(ctx), old(curr_p).heap, 1), old(curr_p).heap.objs())),
    {
        let (fail_label, val) = fetch_args(vm, ctx, curr_p);
        if !(val.is_small() || boxed_kind_is(&curr_p.heap, val, BoxKind::Bignum)) {
            ctx.jump(fail_label)
        }
        Ok(DispatchResult::Normal)
    }
}

/// `is_tuple(fail, value)`: continue at `fail` unless the value is a tuple.
pub struct OpcodeIsTuple {}

impl OpcodeIsTuple {
    pub const ARITY: usize = 2;

    /// The value is a tuple.
    pub open spec fn passes(v: Term, objs: Seq<HeapObjectView>) -> bool {
        v is EmptyTuple || boxed_is(objs, v, BoxKind::Tuple)
    }

    pub fn run(vm: &mut VM, ctx: &mut Context, curr_p: &mut Process) -> (r: RtResult<DispatchResult>)
        requires
            check_ready(*old(vm), *old(ctx), old(curr_p).heap, 2),
        ensures
            r == Ok::<DispatchResult, RtErr>(DispatchResult::Normal),
            *final(vm) == *old(vm),
            *final(curr_p) == *old(curr_p),
            after_check(*old(vm), *old(ctx), *final(ctx), 2,
                Self::passes(fetched(*old(vm), *old(ctx), old(curr_p).heap, 1), old(curr_p).heap.objs())),
    {
        let (fail_label, val) = fetch_args(vm, ctx, curr_p);
        if !(val == Term::empty_tuple() || boxed_kind_is(&curr_p.heap, val, BoxKind::Tuple)) {
            ctx.jump(fail_label)
        }
        Ok(DispatchResult::Normal)
    }
}

/// `is_binary(fail, value)`: continue at `fail` unless the value is a binary.
pub struct OpcodeIsBinary {}

impl OpcodeIsBinary {
    pub const ARITY: usize = 2;

    /// The value is a binary.
    pub open spec fn passes(v: Term, objs: Seq<HeapObjectView>) -> bool {
        v is EmptyBinary || boxed_is(objs, v, BoxKind::Binary)
    }

    pub fn run(vm: &mut VM, ctx: &mut Context, curr_p: &mut Process) -> (r: RtResult<DispatchResult>)
        requires
            check_ready(*old(vm), *old(ctx), old(curr_p).heap, 2),
        ensures
            r == Ok::<DispatchResult, RtErr>(DispatchResult::Normal),
            *final(vm) == *old(vm),
            *final(curr_p) == *old(curr_p),
            after_check(*old(vm), *old(ctx), *final(ctx), 2,
                Self::passes(fetched(*old(vm), *old(ctx), old(curr_p).heap, 1), old(curr_p).heap.objs())),
    {
        let (fail_label, val) = fetch_args(vm, ctx, curr_p);
        if !(val == Term::empty_binary() || boxed_kind_is(&curr_p.heap, val, BoxKind::Binary)) {
            ctx.jump(fail_label)
        }
        Ok(DispatchResult::Normal)
    }
}

/// `is_float(fail, value)`: continue at `fail` unless the value is a float.
pub struct OpcodeIsFloat {}

impl OpcodeIsFloat {
    pub const ARITY: usize = 2;

    /// The value is a float.
    pub open spec fn passes(v: Term, objs: Seq<HeapObjectView>) -> bool {
        boxed_is(objs, v, BoxKind::Float)
    }

    pub fn run(vm: &mut VM, ctx: &mut Context, curr_p: &mut Process) -> (r: RtResult<DispatchResult>)
        requires
            check_ready(*old(vm), *old(ctx), old(curr_p).heap, 2),
        ensures
            r == Ok::<DispatchResult, RtErr>(DispatchResult::Normal),
            *final(vm) == *old(vm),
            *final(curr_p) == *old(curr_p),
            after_check(*old(vm), *old(ctx), *final(ctx), 2,
                Self::passes(fetched(*old(vm), *old(ctx), old(curr_p).heap, 1), old(curr_p).heap.objs())),
    {
        let (fail_label, val) = fetch_args(vm, ctx, curr_p);
        if !(boxed_kind_is(&curr_p.heap, val, BoxKind::Float)) {
            ctx.jump(fail_label)
        }
        Ok(DispatchResult::Normal)
    }
}

/// `is_number(fail, value)`: continue at `fail` unless the value is a number.
pub struct OpcodeIsNumber {}

impl OpcodeIsNumber {
    pub const ARITY: usize = 2;

    /// The value is a number.
    pub open spec fn passes(v: Term, objs: Seq<HeapObjectView>) -> bool {
        v is Small || boxed_is(objs, v, BoxKind::Bignum) || boxed_is(objs, v, BoxKind::Float)
    }

    pub fn run(vm: &mut VM, ctx: &mut Context, curr_p: &mut Process) -> (r: RtResult<DispatchResult>)
        requires
            check_ready(*old(vm), *old(ctx), old(curr_p).heap, 2),
        ensures
            r == Ok::<DispatchResult, RtErr>(DispatchResult::Normal),
            *final(vm) == *old(vm),
            *final(curr_p) == *old(curr_p),
            after_check(*old(vm), *old(ctx), *final(ctx), 2,
                Self::passes(fetched(*old(vm), *old(ctx), old(curr_p).heap, 1), old(curr_p).heap.objs())),
    {
        let (fail_label, val) = fetch_args(vm, ctx, curr_p);
        if !(val.is_small() || boxed_kind_is(&curr_p.heap, val, BoxKind::Bignum) || boxed_kind_is(&curr_p.heap, val, BoxKind::Float)) {
            ctx.jump(fail_label)
        }
        Ok(DispatchResult::Normal)
    }
}

/// `is_pid(fail, value)`: continue at `fail` unless the value is a pid.
pub struct OpcodeIsPid {}

impl OpcodeIsPid {
    pub const ARITY: usize = 2;

    /// The value is a pid.
    pub open spec fn passes(v: Term, objs: Seq<HeapObjectView>) -> bool {
        v is Pid
    }

    pub fn run(vm: &mut VM, ctx: &mut Context, curr_p: &mut Process) -> (r: RtResult<DispatchResult>)
        requires
            check_ready(*old(vm), *old(ctx), old(curr_p).heap, 2),
        ensures
            r == Ok::<DispatchResult, RtErr>(DispatchResult::Normal),
            *final(vm) == *old(vm),
            *final(curr_p) == *old(curr_p),
            after_check(*old(vm), *old(ctx), *final(ctx), 2,
                Self::passes(fetched(*old(vm), *old(ctx), old(curr_p).heap, 1), old(curr_p).heap.objs())),
    {
        let (fail_label, val) = fetch_args(vm, ctx, curr_p);
        if !(val.is_pid()) {
            ctx.jump(fail_label)
        }
        Ok(DispatchResult::Normal)
    }
}

/// `is_reference(fail, value)`: continue at `fail` unless the value is a reference.
pub struct OpcodeIsReference {}

impl OpcodeIsReference {
    pub const ARITY: usize = 2;

    /// The value is a reference.
    pub open spec fn passes(v: Term, objs: Seq<HeapObjectView>) -> bool {
        v is Reference
    }

    pub fn run(vm: &mut VM, ctx: &mut Context, curr_p: &mut Process) -> (r: RtResult<DispatchResult>)
        requires
            check_ready(*old(vm), *old(ctx), old(curr_p).heap, 2),
        ensures
            r == Ok::<DispatchResult, RtErr>(DispatchResult::Normal),
            *final(vm) == *old(vm),
            *final(curr_p) == *old(curr_p),
            after_check(*old(vm), *old(ctx), *final(ctx), 2,
                Self::passes(fetched(*old(vm), *old(ctx), old(curr_p).heap, 1), old(curr_p).heap.objs())),
    {
        let (fail_label, val) = fetch_args(vm, ctx, curr_p);
        if !(val.is_ref()) {
            ctx.jump(fail_label)
        }
        Ok(DispatchResult::Normal)
    }
}

/// `is_port(fail, value)`: continue at `fail` unless the value is a port.
pub struct OpcodeIsPort {}

impl OpcodeIsPort {
    pub const ARITY: usize = 2;

    /// The value is a port.
    pub open spec fn passes(v: Term, objs: Seq<HeapObjectView>) -> bool {
        v is Port
    }

    pub fn run(vm: &mut VM, ctx: &mut Context, curr_p: &mut Process) -> (r: RtResult<DispatchResult>)
        requires
            check_ready(*old(vm), *old(ctx), old(curr_p).heap, 2),
        ensures
            r == Ok::<DispatchResult, RtErr>(DispatchResult::Normal),
            *final(vm) == *old(vm),
            *final(curr_p) == *old(curr_p),
            after_check(*old(vm), *old(ctx), *final(ctx), 2,
                Self::passes(fetched(*old(vm), *old(ctx), old(curr_p).heap, 1), old(curr_p).heap.objs())),
    {
        let (fail_label, val) = fetch_args(vm, ctx, curr_p);
        if !(val.is_port()) {
            ctx.jump(fail_label)
        }
        Ok(DispatchResult::Normal)
    }
}

/// `is_list(fail, value)`: continue at `fail` unless the value is a list (`[]` or a list cell).
pub struct OpcodeIsList {}

impl OpcodeIsList {
    pub const ARITY: usize = 2;

    /// The value is a list (`[]` or a list cell).
    pub open spec fn passes(v: Term, objs: Seq<HeapObjectView>) -> bool {
        v is Nil || v is Cons
    }

    pub fn run(vm: &mut VM, ctx: &mut Context, curr_p: &mut Process) -> (r: RtResult<DispatchResult>)
        requires
            check_ready(*old(vm), *old(ctx), old(curr_p).heap, 2),
        ensures
            r == Ok::<DispatchResult, RtErr>(DispatchResult::Normal),
            *final(vm) == *old(vm),
            *final(curr_p) == *old(curr_p),
            after_check(*old(vm), *old(ctx), *final(ctx), 2,
                Self::passes(fetched(*old(vm), *old(ctx), old(curr_p).heap, 1), old(curr_p).heap.objs())),
    {
        let (fail_label, val) = fetch_args(vm, ctx, curr_p);
        if !(val.is_list()) {
            ctx.jump(fail_label)
        }
        Ok(DispatchResult::Normal)
    }
}

/// Whether the big integer of sign `negative` and magnitude `digits` (least
/// significant byte first) is negative, as `num::BigInt` decides it.
/// `BigInt::from_bytes_le` makes the value, and `is_negative` tells: the
/// value is negative when its sign is negative and its magnitude is not
/// zero (a zero magnitude has no sign).
#[verifier::external_body]
fn bignum_is_negative(negative: bool, digits: &[u8]) -> (r: bool)
    ensures
        r == (negative && exists|i: int| 0 <= i < digits@.len() && digits@[i] != 0),
{
    let sign = if negative { num::bigint::Sign::Minus } else { num::bigint::Sign::Plus };
    num::BigInt::from_bytes_le(sign, digits).is_negative()
}

/// Whether `t` is a function of `arity` arguments among `objs`.
pub open spec fn is_fun_of_arity(objs: Seq<HeapObjectView>, t: Term, arity: usize) -> bool {
    t is Boxed && t->Boxed_0 < objs.len() && match objs[t->Boxed_0 as int] {
        HeapObjectView::Closure(_, a, _) => a == arity,
        HeapObjectView::Export(mfa) => mfa.arity == arity,
        _ => false,
    }
}

/// The arity a third `is_function2` argument asks for: a small integer; a
/// positive big integer, which no function has (the largest arity);
/// a negative number is `badarg`; something else is not a number.
pub open spec fn arity_arg(objs: Seq<HeapObjectView>, t: Term) -> RtResult<usize> {
    if t is Small {
        if t->Small_0 >= 0 { Ok(t->Small_0 as usize) } else { Err(badarg_err()) }
    } else if t is Boxed && t->Boxed_0 < objs.len() && objs[t->Boxed_0 as int] is Bignum {
        let digits = objs[t->Boxed_0 as int]->Bignum_1;
        if objs[t->Boxed_0 as int]->Bignum_0 && exists|i: int| 0 <= i < digits.len() && digits[i] != 0 {
            Err(badarg_err())
        } else {
            Ok(usize::MAX)
        }
    } else {
        Err(RtErr::BoxedIsNotOfType)
    }
}

/// `is_function2(fail, value, arity)`: continue at `fail` unless the value
/// is a function of the given arity.
pub struct OpcodeIsFunction2 {}

impl OpcodeIsFunction2 {
    pub const ARITY: usize = 3;

    /// The check on values already read: continue at `fail_label` unless
    /// `val` is a function of the arity that `arity_as_term` gives.
    pub fn is_function2(ctx: &mut Context, hp: &Heap, fail_label: Term, val: Term, arity_as_term: Term) -> (r: RtResult<
        DispatchResult,
    >)
        requires
            fail_label is Cp,
        ensures
            match arity_arg(hp.objs(), arity_as_term) {
                Ok(a) => r == Ok::<DispatchResult, RtErr>(DispatchResult::Normal) && if is_fun_of_arity(hp.objs(), val, a) {
                    *final(ctx) == *old(ctx)
                } else {
                    crate::opcodes::moved_to(*old(ctx), *final(ctx), fail_label->Cp_0)
                },
                Err(e) => r == Err::<DispatchResult, RtErr>(e) && *final(ctx) == *old(ctx),
            },
    {
        let arity = Self::fetch_arity(hp, arity_as_term)?;
        if !Self::is_fun_of_arity(hp, val, arity) {
            ctx.jump(fail_label)
        }
        Ok(DispatchResult::Normal)
    }

    /// The arity argument, as a number of arguments.
    pub fn fetch_arity(hp: &Heap, arity_t: Term) -> (r: RtResult<usize>)
        ensures
            r == arity_arg(hp.objs(), arity_t),
    {
        if arity_t.is_small() {
            if arity_t.get_small_signed() >= 0 {
                return Ok(arity_t.get_small_unsigned());
            }
            return crate::fail::badarg();
        }
        let idx = match arity_t {
            Term::Boxed(i) => i,
            _ => return Err(RtErr::BoxedIsNotOfType),
        };
        if idx >= hp.objects.len() {
            return Err(RtErr::BoxedIsNotOfType);
        }
        match &hp.objects[idx] {
            HeapObject::Bignum(b) => {
                assert(hp.objs()[idx as int] == HeapObjectView::Bignum(b.negative, b.digits@));
                let ds = b.digits.as_slice();
                assert(ds@ == b.digits@);
                let neg = bignum_is_negative(b.negative, ds);
                proof {
                    let d = hp.objs()[idx as int]->Bignum_1;
                    assert(d == ds@);
                    if neg {
                        let i = choose|i: int| 0 <= i < ds@.len() && ds@[i] != 0;
                        assert(0 <= i < d.len() && d[i] != 0);
                    } else if b.negative {
                        assert forall|i: int| 0 <= i < d.len() implies d[i] == 0 by {
                            assert(!(0 <= i < ds@.len() && ds@[i] != 0));
                        }
                    }
                }
                if neg {
                    return crate::fail::badarg();
                }
                Ok(usize::MAX)
            },
            _ => Err(RtErr::BoxedIsNotOfType),
        }
    }

    /// Read the fail label, the value and the arity.
    fn fetch_args(vm: &VM, ctx: &mut Context, curr_p: &Process) -> (r: RtResult<(Term, Term, usize)>)
        requires
            check_ready(*vm, *old(ctx), curr_p.heap, 3),
        ensures
            final(ctx).module == old(ctx).module,
            final(ctx).cp == old(ctx).cp,
            final(ctx).live == old(ctx).live,
            final(ctx).regs == old(ctx).regs,
            final(ctx).current_bin == old(ctx).current_bin,
            match arity_arg(curr_p.heap.objs(), fetched(*vm, *old(ctx), curr_p.heap, 2)) {
                Ok(a) => r == Ok::<(Term, Term, usize), RtErr>((
                    arg_at(code_of(*vm, *old(ctx)), old(ctx).ip as int, 0),
                    fetched(*vm, *old(ctx), curr_p.heap, 1),
                    a,
                )) && final(ctx).ip == old(ctx).ip + 3,
                Err(e) => r == Err::<(Term, Term, usize), RtErr>(e),
            },
    {
        let code = vm.code_server.modules[ctx.module].code.as_slice();
        let ghost ip0 = ctx.ip as int;
        assert(loadable(arg_at(code@, ip0, 1), ctx.regs@, curr_p.heap));
        assert(loadable(arg_at(code@, ip0, 2), ctx.regs@, curr_p.heap));
        let fail = ctx.fetch_term(code);
        assert(code@[ip0 + 1] is Value);
        assert(code@[ip0 + 2] is Value);
        assert(has_args(code@, ctx.ip as int, 1));
        let value = ctx.fetch_and_load(code, &curr_p.heap);
        assert(has_args(code@, ctx.ip as int, 1));
        let arity_t = ctx.fetch_and_load(code, &curr_p.heap);
        let arity = Self::fetch_arity(&curr_p.heap, arity_t)?;
        Ok((fail, value, arity))
    }

    /// Whether `t` is a function of `arity` arguments on `hp`.
    pub fn is_fun_of_arity(hp: &Heap, t: Term, arity: usize) -> (r: bool)
        ensures
            r == is_fun_of_arity(hp.objs(), t, arity),
    {
        let idx = match t {
            Term::Boxed(i) => i,
            _ => return false,
        };
        if idx >= hp.objects.len() {
            return false;
        }
        match &hp.objects[idx] {
            HeapObject::Closure(_, a, _) => *a == arity,
            HeapObject::Export(mfa) => mfa.arity == arity,
            _ => false,
        }
    }

    pub fn run(vm: &mut VM, ctx: &mut Context, curr_p: &mut Process) -> (r: RtResult<DispatchResult>)
        requires
            check_ready(*old(vm), *old(ctx), old(curr_p).heap, 3),
        ensures
            *final(vm) == *old(vm),
            *final(curr_p) == *old(curr_p),
            match arity_arg(old(curr_p).heap.objs(), fetched(*old(vm), *old(ctx), old(curr_p).heap, 2)) {
                Ok(a) => r == Ok::<DispatchResult, RtErr>(DispatchResult::Normal) && after_check(
                    *old(vm),
                    *old(ctx),
                    *final(ctx),
                    3,
                    is_fun_of_arity(old(curr_p).heap.objs(), fetched(*old(vm), *old(ctx), old(curr_p).heap, 1), a),
                ),
                Err(e) => r == Err::<DispatchResult, RtErr>(e),
            },
    {
        let (fail_label, val, arity) = Self::fetch_args(vm, ctx, curr_p)?;
        if !Self::is_fun_of_arity(&curr_p.heap, val, arity) {
            ctx.jump(fail_label)
        }
        Ok(DispatchResult::Normal)
    }
}

/// The outcome of a comparison.
#[derive(Clone, Copy, PartialEq, Eq, Structural, Debug)]
pub enum TermOrder {
    Less,
    Equal,
    Greater,
}

/// The place of a term's type in the order of terms (numbers, atoms,
/// references, funs, ports, pids, tuples, maps, `[]`, lists, binaries),
/// for the values this comparison handles.
pub open spec fn order_rank(t: Term) -> Option<int> {
    match t {
        Term::Small(_) => Some(0),
        Term::Atom(_) => Some(1),
        Term::Reference(_) => Some(2),
        Term::Port(_) => Some(4),
        Term::Pid(_) => Some(5),
        Term::EmptyTuple => Some(6),
        Term::Nil => Some(8),
        Term::EmptyBinary => Some(10),
        _ => None,
    }
}

/// The number that orders values of the same type.
pub open spec fn order_key(t: Term) -> int {
    match t {
        Term::Small(v) => v as int,
        Term::Atom(v) => v as int,
        Term::Reference(v) => v as int,
        Term::Port(v) => v as int,
        Term::Pid(v) => v as int,
        _ => 0,
    }
}

/// How `a` compares to `b`, for the values that this comparison handles:
/// by type, then by value (atoms by their index); `None` otherwise.
pub open spec fn compare_spec(a: Term, b: Term) -> Option<TermOrder> {
    match (order_rank(a), order_rank(b)) {
        (Some(ra), Some(rb)) => Some(
            if ra < rb || (ra == rb && order_key(a) < order_key(b)) {
                TermOrder::Less
            } else if ra == rb && order_key(a) == order_key(b) {
                TermOrder::Equal
            } else {
                TermOrder::Greater
            },
        ),
        _ => None,
    }
}

/// The order of terms is a total order on the values it handles: a value
/// compares equal only to itself, swapping the operands swaps less and
/// greater, and less is transitive.
pub proof fn law_term_order(a: Term, b: Term, c: Term)
    requires
        order_rank(a) is Some,
        order_rank(b) is Some,
        order_rank(c) is Some,
    ensures
        compare_spec(a, b) == Some(TermOrder::Equal) <==> a == b,
        compare_spec(a, b) == Some(TermOrder::Less) <==> compare_spec(b, a) == Some(TermOrder::Greater),
        compare_spec(a, b) == Some(TermOrder::Less) && compare_spec(b, c) == Some(TermOrder::Less)
            ==> compare_spec(a, c) == Some(TermOrder::Less),
{
    if order_rank(a) == order_rank(b) && order_key(a) == order_key(b) {
        match a {
            Term::Small(x) => { assert(b is Small); },
            Term::Atom(x) => { assert(b is Atom); },
            Term::Reference(x) => { assert(b is Reference); },
            Term::Port(x) => { assert(b is Port); },
            Term::Pid(x) => { assert(b is Pid); },
            _ => {},
        }
    }
}

/// The rank and the key of a term, if it is one this comparison handles.
fn rank_and_key(t: Term) -> (r: Option<(u8, i128)>)
    ensures
        match r {
            Some((rk, k)) => order_rank(t) == Some(rk as int) && order_key(t) == k,
            None => order_rank(t) is None,
        },
{
    match t {
        Term::Small(v) => Some((0, v as i128)),
        Term::Atom(v) => Some((1, v as i128)),
        Term::Reference(v) => Some((2, v as i128)),
        Term::Port(v) => Some((4, v as i128)),
        Term::Pid(v) => Some((5, v as i128)),
        Term::EmptyTuple => Some((6, 0)),
        Term::Nil => Some((8, 0)),
        Term::EmptyBinary => Some((10, 0)),
        _ => None,
    }
}

/// Compare `a` and `b`; exact or not makes no difference for the values
/// handled here. Other values are `badarg`.
pub fn compare_terms(a: Term, b: Term, _exact: bool) -> (r: RtResult<TermOrder>)
    ensures
        match compare_spec(a, b) {
            Some(c) => r == Ok::<TermOrder, RtErr>(c),
            None => r == Err::<TermOrder, RtErr>(badarg_err()),
        },
{
    match (rank_and_key(a), rank_and_key(b)) {
        (Some((ra, ka)), Some((rb, kb))) => {
            if ra < rb || (ra == rb && ka < kb) {
                Ok(TermOrder::Less)
            } else if ra == rb && ka == kb {
                Ok(TermOrder::Equal)
            } else {
                Ok(TermOrder::Greater)
            }
        },
        _ => crate::fail::badarg(),
    }
}

/// Whether a comparison check passes: the outcome is `desired`, or with
/// `invert`, is not.
pub open spec fn comparison_passes(c: TermOrder, desired: TermOrder, invert: bool) -> bool {
    if invert { c != desired } else { c == desired }
}

/// A comparison check on the values `a` and `b`: continue at `fail_label`
/// when the outcome is not `desired_result` (with `invert`: when it is).
pub fn generic_comparison(
    ctx: &mut Context,
    fail_label: Term,
    a: Term,
    b: Term,
    exact: bool,
    desired_result: TermOrder,
    invert: bool,
) -> (r: RtResult<DispatchResult>)
    requires
        fail_label is Cp,
    ensures
        match compare_spec(a, b) {
            Some(c) => r == Ok::<DispatchResult, RtErr>(DispatchResult::Normal) && if comparison_passes(c, desired_result, invert) {
                *final(ctx) == *old(ctx)
            } else {
                crate::opcodes::moved_to(*old(ctx), *final(ctx), fail_label->Cp_0)
            },
            None => r == Err::<DispatchResult, RtErr>(badarg_err()) && *final(ctx) == *old(ctx),
        },
{
    let result = compare_terms(a, b, exact)?;
    if (result != desired_result) != invert {
        ctx.jump(fail_label);
    }
    Ok(DispatchResult::Normal)
}

/// The shared work of the comparison checks: read the fail label and two
/// values, compare them, and continue at the fail label unless the outcome
/// is `desired_result` (with `invert`: unless it is not).
fn shared_equality_opcode(
    vm: &mut VM,
    ctx: &mut Context,
    curr_p: &mut Process,
    exact: bool,
    desired_result: TermOrder,
    invert: bool,
) -> (r: RtResult<DispatchResult>)
    requires
        check_ready(*old(vm), *old(ctx), old(curr_p).heap, 3),
    ensures
        *final(vm) == *old(vm),
        *final(curr_p) == *old(curr_p),
        match compare_spec(fetched(*old(vm), *old(ctx), old(curr_p).heap, 1), fetched(*old(vm), *old(ctx), old(curr_p).heap, 2)) {
            Some(c) => r == Ok::<DispatchResult, RtErr>(DispatchResult::Normal) && after_check(
                *old(vm),
                *old(ctx),
                *final(ctx),
                3,
                comparison_passes(c, desired_result, invert),
            ),
            None => r == Err::<DispatchResult, RtErr>(badarg_err()),
        },
{
    let code = vm.code_server.modules[ctx.module].code.as_slice();
    let ghost ip0 = ctx.ip as int;
    assert(loadable(arg_at(code@, ip0, 1), ctx.regs@, curr_p.heap));
    assert(loadable(arg_at(code@, ip0, 2), ctx.regs@, curr_p.heap));
    let fail_label = ctx.fetch_term(code);
    assert(code@[ip0 + 1] is Value);
    assert(code@[ip0 + 2] is Value);
    assert(has_args(code@, ctx.ip as int, 1));
    let a = ctx.fetch_and_load(code, &curr_p.heap);
    assert(has_args(code@, ctx.ip as int, 1));
    let b = ctx.fetch_and_load(code, &curr_p.heap);
    let c = compare_terms(a, b, exact)?;
    if invert {
        if c == desired_result {
            ctx.jump(fail_label)
        }
    } else if c != desired_result {
        ctx.jump(fail_label)
    }
    Ok(DispatchResult::Normal)
}

/// `is_eq_exact(fail, a, b)`: continue at `fail` unless `a` is exactly equal to `b`.
pub struct OpcodeIsEqExact {}

impl OpcodeIsEqExact {
    pub const ARITY: usize = 3;

    pub fn run(vm: &mut VM, ctx: &mut Context, curr_p: &mut Process) -> (r: RtResult<DispatchResult>)
        requires
            check_ready(*old(vm), *old(ctx), old(curr_p).heap, 3),
        ensures
            *final(vm) == *old(vm),
            *final(curr_p) == *old(curr_p),
            match compare_spec(fetched(*old(vm), *old(ctx), old(curr_p).heap, 1), fetched(*old(vm), *old(ctx), old(curr_p).heap, 2)) {
                Some(c) => r == Ok::<DispatchResult, RtErr>(DispatchResult::Normal) && after_check(
                    *old(vm),
                    *old(ctx),
                    *final(ctx),
                    3,
                    comparison_passes(c, TermOrder::Equal, false),
                ),
                None => r == Err::<DispatchResult, RtErr>(badarg_err()),
            },
    {
        shared_equality_opcode(vm, ctx, curr_p, true, TermOrder::Equal, false)
    }
}

/// `is_lt(fail, a, b)`: continue at `fail` unless `a` is less than `b`.
pub struct OpcodeIsLt {}

impl OpcodeIsLt {
    pub const ARITY: usize = 3;

    pub fn run(vm: &mut VM, ctx: &mut Context, curr_p: &mut Process) -> (r: RtResult<DispatchResult>)
        requires
            check_ready(*old(vm), *old(ctx), old(curr_p).heap, 3),
        ensures
            *final(vm) == *old(vm),
            *final(curr_p) == *old(curr_p),
            match compare_spec(fetched(*old(vm), *old(ctx), old(curr_p).heap, 1), fetched(*old(vm), *old(ctx), old(curr_p).heap, 2)) {
                Some(c) => r == Ok::<DispatchResult, RtErr>(DispatchResult::Normal) && after_check(
                    *old(vm),
                    *old(ctx),
                    *final(ctx),
                    3,
                    comparison_passes(c, TermOrder::Less, false),
                ),
                None => r == Err::<DispatchResult, RtErr>(badarg_err()),
            },
    {
        shared_equality_opcode(vm, ctx, curr_p, true, TermOrder::Less, false)
    }
}

/// `is_eq(fail, a, b)`: continue at `fail` unless `a` is equal to `b`.
pub struct OpcodeIsEq {}

impl OpcodeIsEq {
    pub const ARITY: usize = 3;

    pub fn run(vm: &mut VM, ctx: &mut Context, curr_p: &mut Process) -> (r: RtResult<DispatchResult>)
        requires
            check_ready(*old(vm), *old(ctx), old(curr_p).heap, 3),
        ensures
            *final(vm) == *old(vm),
            *final(curr_p) == *old(curr_p),
            match compare_spec(fetched(*old(vm), *old(ctx), old(curr_p).heap, 1), fetched(*old(vm), *old(ctx), old(curr_p).heap, 2)) {
                Some(c) => r == Ok::<DispatchResult, RtErr>(DispatchResult::Normal) && after_check(
                    *old(vm),
                    *old(ctx),
                    *final(ctx),
                    3,
                    comparison_passes(c, TermOrder::Equal, false),
                ),
                None => r == Err::<DispatchResult, RtErr>(badarg_err()),
            },
    {
        shared_equality_opcode(vm, ctx, curr_p, false, TermOrder::Equal, false)
    }
}

/// `is_ge(fail, a, b)`: continue at `fail` unless `a` is no less than `b`.
pub struct OpcodeIsGe {}

impl OpcodeIsGe {
    pub const ARITY: usize = 3;

    pub fn run(vm: &mut VM, ctx: &mut Context, curr_p: &mut Process) -> (r: RtResult<DispatchResult>)
        requires
            check_ready(*old(vm), *old(ctx), old(curr_p).heap, 3),
        ensures
            *final(vm) == *old(vm),
            *final(curr_p) == *old(curr_p),
            match compare_spec(fetched(*old(vm), *old(ctx), old(curr_p).heap, 1), fetched(*old(vm), *old(ctx), old(curr_p).heap, 2)) {
                Some(c) => r == Ok::<DispatchResult, RtErr>(DispatchResult::Normal) && after_check(
                    *old(vm),
                    *old(ctx),
                    *final(ctx),
                    3,
                    comparison_passes(c, TermOrder::Less, true),
                ),
                None => r == Err::<DispatchResult, RtErr>(badarg_err()),
            },
    {
        shared_equality_opcode(vm, ctx, curr_p, false, TermOrder::Less, true)
    }
}

/// Small integers compare by their numeric value, and a number orders
/// before an atom: `is_lt` passes on two small integers exactly when the
/// first is less, `is_ge` exactly when it is not, `is_eq` and
/// `is_eq_exact` exactly when they are the same number.
pub proof fn law_small_order(a: isize, b: isize, x: usize)
    ensures
        (a < b) <==> compare_spec(Term::Small(a), Term::Small(b)) == Some(TermOrder::Less),
        (a == b) <==> compare_spec(Term::Small(a), Term::Small(b)) == Some(TermOrder::Equal),
        (a > b) <==> compare_spec(Term::Small(a), Term::Small(b)) == Some(TermOrder::Greater),
        comparison_passes(compare_spec(Term::Small(a), Term::Small(b))->Some_0, TermOrder::Less, false) <==> a < b,
        comparison_passes(compare_spec(Term::Small(a), Term::Small(b))->Some_0, TermOrder::Less, true) <==> a >= b,
        comparison_passes(compare_spec(Term::Small(a), Term::Small(b))->Some_0, TermOrder::Equal, false) <==> a == b,
        compare_spec(Term::Small(a), Term::Atom(x)) == Some(TermOrder::Less),
        compare_spec(Term::Atom(x), Term::Small(a)) == Some(TermOrder::Greater),
{
}

/// The type checks sort the terms: a list is `[]` or a list cell; a number
/// is an integer or a float; no value is of two of the types atom, list,
/// tuple, number, pid, port, reference, binary and function; each kind of
/// immediate value, and each kind of heap object, passes the check for its
/// own type.
pub proof fn law_type_checks(v: Term, objs: Seq<HeapObjectView>, i: isize, n: usize, idx: usize)
    ensures
        idx < objs.len() && objs[idx as int] is Tuple ==> OpcodeIsTuple::passes(Term::Boxed(idx), objs),
        idx < objs.len() && objs[idx as int] is Float ==> OpcodeIsFloat::passes(Term::Boxed(idx), objs)
            && OpcodeIsNumber::passes(Term::Boxed(idx), objs) && !OpcodeIsInteger::passes(Term::Boxed(idx), objs),
        idx < objs.len() && objs[idx as int] is Bignum ==> OpcodeIsInteger::passes(Term::Boxed(idx), objs)
            && OpcodeIsNumber::passes(Term::Boxed(idx), objs),
        idx < objs.len() && (objs[idx as int] is Closure || objs[idx as int] is Export) ==> OpcodeIsFunction::passes(
            Term::Boxed(idx),
            objs,
        ),
        idx < objs.len() && objs[idx as int] is Binary ==> OpcodeIsBinary::passes(Term::Boxed(idx), objs),
        OpcodeIsList::passes(v, objs) <==> (v == Term::Nil || v is Cons),
        OpcodeIsList::passes(Term::Nil, objs),
        OpcodeIsList::passes(Term::Cons(n), objs),
        OpcodeIsNumber::passes(v, objs) <==> (OpcodeIsInteger::passes(v, objs) || OpcodeIsFloat::passes(v, objs)),
        OpcodeIsInteger::passes(Term::Small(i), objs),
        OpcodeIsAtom::passes(Term::Atom(n), objs),
        OpcodeIsPid::passes(Term::Pid(n), objs),
        OpcodeIsPort::passes(Term::Port(n), objs),
        OpcodeIsReference::passes(Term::Reference(n), objs),
        OpcodeIsTuple::passes(Term::EmptyTuple, objs),
        OpcodeIsBinary::passes(Term::EmptyBinary, objs),
        !(OpcodeIsList::passes(v, objs) && OpcodeIsAtom::passes(v, objs)),
        !(OpcodeIsList::passes(v, objs) && OpcodeIsTuple::passes(v, objs)),
        !(OpcodeIsList::passes(v, objs) && OpcodeIsNumber::passes(v, objs)),
        !(OpcodeIsList::passes(v, objs) && OpcodeIsBinary::passes(v, objs)),
        !(OpcodeIsList::passes(v, objs) && OpcodeIsFunction::passes(v, objs)),
        !(OpcodeIsTuple::passes(v, objs) && OpcodeIsNumber::passes(v, objs)),
        !(OpcodeIsTuple::passes(v, objs) && OpcodeIsAtom::passes(v, objs)),
        !(OpcodeIsTuple::passes(v, objs) && OpcodeIsFunction::passes(v, objs)),
        !(OpcodeIsTuple::passes(v, objs) && OpcodeIsBinary::passes(v, objs)),
        !(OpcodeIsNumber::passes(v, objs) && OpcodeIsAtom::passes(v, objs)),
        !(OpcodeIsNumber::passes(v, objs) && OpcodeIsFunction::passes(v, objs)),
        !(OpcodeIsNumber::passes(v, objs) && OpcodeIsBinary::passes(v, objs)),
        !(OpcodeIsAtom::passes(v, objs) && OpcodeIsPid::passes(v, objs)),
        !(OpcodeIsPid::passes(v, objs) && OpcodeIsPort::passes(v, objs)),
        !(OpcodeIsPid::passes(v, objs) && OpcodeIsReference::passes(v, objs)),
{
}

} // verus!
