//! Opcode handlers of the bit syntax: building binaries (`bs_init2`,
//! `bs_put_integer`, `bs_put_binary`) and matching them (`bs_start_match3`,
//! `bs_get_binary2`, `bs_test_tail2`). A binary is a sequence of bits on the
//! process heap; the binary being built and its write position are in the
//! runtime context.
use vstd::prelude::*;
use crate::atoms;
use crate::bitsize::BitSize;
use crate::exc_type::ExceptionType;
use crate::fail::{badarg, badarg_err, RtErr, RtResult};
use crate::heap::{Heap, HeapObject, HeapObjectView};
use crate::opcodes::DispatchResult;
use crate::process::{storable, Context, Process};
use crate::term::Term;

verus! {

/// Flag of the bit syntax: little-endian integers.
pub const BSF_LITTLE: usize = 2;

/// The bits of the binary at heap index `idx`, if there is one.
pub open spec fn bits_at(objs: Seq<HeapObjectView>, idx: int) -> Option<Seq<bool>> {
    if 0 <= idx < objs.len() && objs[idx] is Binary {
        Some(objs[idx]->Binary_0)
    } else {
        None
    }
}

/// The bits of the binary value `t`: the empty binary, a binary, or a part
/// of one that lies within it.
pub open spec fn binary_value(objs: Seq<HeapObjectView>, t: Term) -> Option<Seq<bool>> {
    match t {
        Term::EmptyBinary => Some(Seq::empty()),
        Term::Boxed(i) => if i < objs.len() {
            match objs[i as int] {
                HeapObjectView::Binary(b) => Some(b),
                HeapObjectView::BinarySlice(src, off, n) => match bits_at(objs, src as int) {
                    Some(b) => if off + n <= b.len() { Some(b.subrange(off as int, off + n)) } else { None },
                    None => None,
                },
                _ => None,
            }
        } else {
            None
        },
        _ => None,
    }
}

/// Bit `k` (counted from the least significant) of `v` in two's
/// complement.
pub open spec fn int_bit(v: i64, k: nat) -> bool {
    if k >= 63 { v < 0 } else { ((v >> k) & 1) == 1 }
}

/// The `n` lowest bits of `v`, most significant first; with `little` and a
/// whole number of bytes, the bytes come least significant first.
pub open spec fn int_bits(v: i64, n: nat, little: bool) -> Seq<bool> {
    Seq::new(n, |i: int| if little && n % 8 == 0 {
        int_bit(v, (8 * (i / 8) + 7 - i % 8) as nat)
    } else {
        int_bit(v, (n - 1 - i) as nat)
    })
}

/// `bits` with `part` written from position `at` on.
pub open spec fn written(bits: Seq<bool>, at: int, part: Seq<bool>) -> Seq<bool> {
    Seq::new(bits.len(), |i: int| if at <= i < at + part.len() { part[i - at] } else { bits[i] })
}

/// Whether the binary being built is on the heap.
pub open spec fn building(ctx: Context, objs: Seq<HeapObjectView>) -> bool {
    ctx.current_bin matches Some((i, off)) && bits_at(objs, i as int) is Some
}

/// The context `b` is `a` with only the write position changed to `off`.
pub open spec fn advanced(a: Context, b: Context, off: usize) -> bool {
    &&& b.module == a.module
    &&& b.ip == a.ip
    &&& b.cp == a.cp
    &&& b.live == a.live
    &&& b.regs == a.regs
    &&& b.current_bin == Some((a.current_bin->Some_0.0, off))
}

/// Whether a binary of `sz` bytes is too big: its size in bits does not
/// fit a machine word.
pub open spec fn size_too_big(sz: usize) -> bool {
    sz > usize::MAX / 8
}

/// A copy of the bits of the binary at heap index `idx`, if there is one.
fn binary_bits(hp: &Heap, idx: usize) -> (r: Option<Vec<bool>>)
    ensures
        match r {
            Some(v) => bits_at(hp.objs(), idx as int) == Some(v@),
            None => bits_at(hp.objs(), idx as int) is None,
        },
{
    if idx >= hp.objects.len() {
        return None;
    }
    match &hp.objects[idx] {
        HeapObject::Binary(v) => {
            let mut out: Vec<bool> = Vec::new();
            let mut i: usize = 0;
            while i < v.len()
                invariant
                    i <= v@.len(),
                    out@ == v@.subrange(0, i as int),
                decreases v@.len() - i,
            {
                out.push(v[i]);
                i = i + 1;
                assert(out@ =~= v@.subrange(0, i as int));
            }
            assert(out@ =~= v@);
            assert(hp.objs()[idx as int] == HeapObjectView::Binary(v@));
            Some(out)
        },
        _ => {
            assert(!(hp.objs()[idx as int] is Binary));
            None
        },
    }
}

/// The bits of the binary value `t`, if it is one.
fn binary_value_of(hp: &Heap, t: Term) -> (r: Option<Vec<bool>>)
    ensures
        match r {
            Some(v) => binary_value(hp.objs(), t) == Some(v@),
            None => binary_value(hp.objs(), t) is None,
        },
{
    match t {
        Term::EmptyBinary => Some(Vec::new()),
        Term::Boxed(i) => {
            if i >= hp.objects.len() {
                return None;
            }
            let ghost o = hp.objs()[i as int];
            let slice = match &hp.objects[i] {
                HeapObject::Binary(_) => None,
                HeapObject::BinarySlice(src, off, n) => Some((*src, *off, *n)),
                _ => {
                    assert(!(o is Binary) && !(o is BinarySlice));
                    return None;
                },
            };
            match slice {
                None => binary_bits(hp, i),
                Some((src, off, n)) => {
                    assert(o == HeapObjectView::BinarySlice(src, off, n));
                    let b = match binary_bits(hp, src) {
                        Some(b) => b,
                        None => return None,
                    };
                    if off > b.len() || n > b.len() - off {
                        return None;
                    }
                    let mut out: Vec<bool> = Vec::new();
                    let mut k: usize = 0;
                    let blen = b.len();
                    while k < n
                        invariant
                            k <= n,
                            blen == b@.len(),
                            off + n <= b@.len(),
                            out@ == b@.subrange(off as int, off + k),
                        decreases n - k,
                    {
                        out.push(b[off + k]);
                        k = k + 1;
                        assert(out@ =~= b@.subrange(off as int, off + k));
                    }
                    Some(out)
                },
            }
        },
        _ => None,
    }
}

/// `bits` with `part` written from position `at` on, where it fits.
fn write_bits(bits: &mut Vec<bool>, at: usize, part: &Vec<bool>)
    requires
        at + part@.len() <= old(bits)@.len(),
    ensures
        final(bits)@ == written(old(bits)@, at as int, part@),
{
    let mut k: usize = 0;
    let blen = bits.len();
    while k < part.len()
        invariant
            k <= part@.len(),
            blen == old(bits)@.len(),
            at + part@.len() <= bits@.len(),
            bits@.len() == old(bits)@.len(),
            bits@ == written(old(bits)@, at as int, part@.subrange(0, k as int)),
        decreases part@.len() - k,
    {
        bits.set(at + k, part[k]);
        k = k + 1;
        assert(bits@ =~= written(old(bits)@, at as int, part@.subrange(0, k as int)));
    }
    assert(part@.subrange(0, part@.len() as int) =~= part@);
}

/// Bit `k` of `v` in two's complement.
fn int_bit_of(v: i64, k: usize) -> (r: bool)
    ensures
        r == int_bit(v, k as nat),
{
    if k >= 63 {
        v < 0
    } else {
        let kk: i64 = k as i64;
        assert(kk == k);
        ((v >> kk) & 1) == 1
    }
}

/// The `n` lowest bits of `v`, as `int_bits` orders them.
fn int_bits_of(v: i64, n: usize, little: bool) -> (r: Vec<bool>)
    ensures
        r@ == int_bits(v, n as nat, little),
{
    let mut out: Vec<bool> = Vec::new();
    let mut i: usize = 0;
    let whole = little && n % 8 == 0;
    while i < n
        invariant
            i <= n,
            whole == (little && n % 8 == 0),
            out@ == int_bits(v, n as nat, little).subrange(0, i as int),
        decreases n - i,
    {
        let k = if whole { 8 * (i / 8) + 7 - i % 8 } else { n - 1 - i };
        let b = int_bit_of(v, k);
        out.push(b);
        i = i + 1;
        assert(out@ =~= int_bits(v, n as nat, little).subrange(0, i as int));
    }
    assert(out@ =~= int_bits(v, n as nat, little));
    out
}

/// `bs_init2(fail, size, words, regs, flags, dst)`: start building a
/// binary of `sz` bytes and store it in `dst`. A size whose bit count does
/// not fit a word is a `system_limit` error when a fail label is given;
/// zero bytes give the empty binary.
pub struct OpcodeBsInit2 {}

impl OpcodeBsInit2 {
    pub const ARITY: usize = 6;

    pub fn bs_init2(
        ctx: &mut Context,
        curr_p: &mut Process,
        fail: Term,
        sz: usize,
        _words: usize,
        _regs: usize,
        _flags: usize,
        dst: Term,
    ) -> (r: RtResult<DispatchResult>)
        requires
            fail == Term::Nil ==> !size_too_big(sz),
        ensures
            final(ctx).module == old(ctx).module,
            final(ctx).ip == old(ctx).ip,
            final(ctx).cp == old(ctx).cp,
            final(ctx).live == old(ctx).live,
            fail != Term::Nil && size_too_big(sz) ==> r == Err::<DispatchResult, RtErr>(
                RtErr::Exception(ExceptionType::Error, Term::Atom(atoms::SYSTEM_LIMIT)),
            ) && *final(ctx) == *old(ctx) && *final(curr_p) == *old(curr_p),
            !size_too_big(sz) && sz == 0 ==> final(curr_p).heap.objs() == old(curr_p).heap.objs()
                && final(ctx).current_bin == old(ctx).current_bin
                && (storable(dst, old(ctx).regs@, old(curr_p).heap) <==> r is Ok)
                && (r is Ok ==> store_result(*old(ctx), *final(ctx), old(curr_p).heap, final(curr_p).heap, Term::EmptyBinary, dst)),
            !size_too_big(sz) && sz > 0 && old(curr_p).heap.objs().len() < usize::MAX ==> {
                let n = old(curr_p).heap.objs().len();
                &&& final(curr_p).heap.objs() == old(curr_p).heap.objs().push(HeapObjectView::Binary(Seq::new((sz * 8) as nat, |i: int| false)))
                &&& final(ctx).current_bin == Some((n as usize, 0usize))
                &&& (storable(dst, old(ctx).regs@, old(curr_p).heap) <==> r is Ok)
                &&& r is Ok ==> r == Ok::<DispatchResult, RtErr>(DispatchResult::Normal)
                    && stored(*old(ctx), *final(ctx), old(curr_p).heap, final(curr_p).heap, Term::Boxed(n as usize), dst)
            },
    {
        if fail != Term::nil() && sz > usize::MAX / 8 {
            return Err(RtErr::Exception(ExceptionType::Error, Term::Atom(atoms::SYSTEM_LIMIT)));
        }
        if sz == 0 {
            ctx.store_value(Term::empty_binary(), dst, &mut curr_p.heap)?;
            return Ok(DispatchResult::Normal);
        }
        let bit_sz = BitSize::with_bytes(sz);
        let mut bits: Vec<bool> = Vec::new();
        let mut i: usize = 0;
        while i < bit_sz.bits
            invariant
                i <= bit_sz.bits,
                bits@ == Seq::new(i as nat, |k: int| false),
            decreases bit_sz.bits - i,
        {
            bits.push(false);
            i = i + 1;
            assert(bits@ =~= Seq::new(i as nat, |k: int| false));
        }
        let idx = curr_p.heap.allocate(HeapObject::Binary(bits))?;
        ctx.current_bin = Some((idx, 0));
        ctx.store_value(Term::Boxed(idx), dst, &mut curr_p.heap)?;
        Ok(DispatchResult::Normal)
    }
}

/// `b` and `hb` are `a` and `ha` after storing `val` in the register `dst`
/// (apart from the binary being built).
pub open spec fn stored(a: Context, b: Context, ha: Heap, hb: Heap, val: Term, dst: Term) -> bool {
    &&& dst is RegX ==> b.regs@ == a.regs@.update(dst->RegX_0 as int, val) && hb.stack@ == ha.stack@
    &&& dst is RegY ==> b.regs == a.regs && hb.stack@ == ha.stack@.update(ha.y_index(dst->RegY_0 as int), val)
}

/// `stored`, with the binary being built unchanged too.
pub open spec fn store_result(a: Context, b: Context, ha: Heap, hb: Heap, val: Term, dst: Term) -> bool {
    stored(a, b, ha, hb, val, dst) && b.current_bin == a.current_bin
}

/// `bs_put_integer(fail, size, unit, flags, src)`: write the `sz` lowest
/// bits of the small integer `src` into the binary being built, at its
/// write position, most significant first (with the little-endian flag and
/// a whole number of bytes, least significant byte first), and move the
/// position past them.
pub struct OpcodeBsPutInteger {}

impl OpcodeBsPutInteger {
    pub const ARITY: usize = 5;

    pub fn bs_put_integer(
        ctx: &mut Context,
        curr_p: &mut Process,
        _fail: Term,
        arg_sz: usize,
        _unit: usize,
        flags: usize,
        src: Term,
    ) -> (r: RtResult<DispatchResult>)
        requires
            building(*old(ctx), old(curr_p).heap.objs()),
        ensures
            final(curr_p).heap.stack@ == old(curr_p).heap.stack@,
            ({
                let (idx, off) = old(ctx).current_bin->Some_0;
                let bits = bits_at(old(curr_p).heap.objs(), idx as int)->Some_0;
                if !(src is Small) {
                    r == Err::<DispatchResult, RtErr>(badarg_err()) && *final(ctx) == *old(ctx) && *final(curr_p) == *old(curr_p)
                } else if off + arg_sz > bits.len() {
                    r == Err::<DispatchResult, RtErr>(RtErr::BinaryDestinationTooSmall) && *final(ctx) == *old(ctx)
                        && *final(curr_p) == *old(curr_p)
                } else {
                    &&& r == Ok::<DispatchResult, RtErr>(DispatchResult::Normal)
                    &&& final(curr_p).heap.objs() == old(curr_p).heap.objs().update(idx as int, HeapObjectView::Binary(
                        written(bits, off as int, int_bits(src->Small_0 as i64, arg_sz as nat, (flags & BSF_LITTLE) != 0)),
                    ))
                    &&& advanced(*old(ctx), *final(ctx), (off + arg_sz) as usize)
                }
            }),
    {
        let (idx, off) = match ctx.current_bin {
            Some(cb) => cb,
            None => return badarg(),
        };
        let v = match src {
            Term::Small(v) => v,
            _ => return badarg(),
        };
        let mut bits = match binary_bits(&curr_p.heap, idx) {
            Some(b) => b,
            None => return badarg(),
        };
        if off > bits.len() || arg_sz > bits.len() - off {
            return Err(RtErr::BinaryDestinationTooSmall);
        }
        let part = int_bits_of(v as i64, arg_sz, (flags & BSF_LITTLE) != 0);
        write_bits(&mut bits, off, &part);
        curr_p.heap.replace(idx, HeapObject::Binary(bits));
        ctx.current_bin = Some((idx, off + arg_sz));
        Ok(DispatchResult::Normal)
    }
}

/// How many bits `bs_put_binary` copies: all of the source, or a count.
#[derive(Clone, Copy, PartialEq, Eq, Structural, Debug)]
pub enum SizeOrAll {
    All,
    Bits(usize),
}

/// `bs_put_binary(fail, size, unit, flags, src)`: copy the bits of the
/// binary `src` (all of them, or the first `size`) into the binary being
/// built, at its write position, and move the position past them. When
/// they do not fit, continue at `fail`.
pub struct OpcodeBsPutBinary {}

impl OpcodeBsPutBinary {
    pub const ARITY: usize = 5;

    /// The size argument: the atom `all`, or a bit count.
    pub fn get_size_or_all(size: Term) -> (r: SizeOrAll)
        requires
            size == Term::Atom(atoms::ALL) || (size is Small && size->Small_0 >= 0),
        ensures
            size == Term::Atom(atoms::ALL) ==> r == SizeOrAll::All,
            size != Term::Atom(atoms::ALL) ==> r == SizeOrAll::Bits(size->Small_0 as usize),
    {
        if size == Term::Atom(atoms::ALL) {
            return SizeOrAll::All;
        }
        SizeOrAll::Bits(BitSize::with_bits(size.get_small_unsigned()).bits)
    }

    pub fn bs_put_binary(
        ctx: &mut Context,
        curr_p: &mut Process,
        fail: Term,
        in_size_term: Term,
        _unit: usize,
        _flags: usize,
        src: Term,
    ) -> (r: RtResult<DispatchResult>)
        requires
            building(*old(ctx), old(curr_p).heap.objs()),
            in_size_term == Term::Atom(atoms::ALL) || (in_size_term is Small && in_size_term->Small_0 >= 0),
        ensures
            final(curr_p).heap.stack@ == old(curr_p).heap.stack@,
            ({
                let (idx, off) = old(ctx).current_bin->Some_0;
                let bits = bits_at(old(curr_p).heap.objs(), idx as int)->Some_0;
                let sb = binary_value(old(curr_p).heap.objs(), src);
                let count: int = if in_size_term == Term::Atom(atoms::ALL) { sb->Some_0.len() as int } else { in_size_term->Small_0 as int };
                if sb is None || count > sb->Some_0.len() {
                    r == Err::<DispatchResult, RtErr>(badarg_err()) && *final(ctx) == *old(ctx) && *final(curr_p) == *old(curr_p)
                } else if off + count > bits.len() {
                    &&& *final(curr_p) == *old(curr_p)
                    &&& fail is Cp ==> r == Ok::<DispatchResult, RtErr>(DispatchResult::Normal)
                        && crate::opcodes::moved_to(*old(ctx), *final(ctx), fail->Cp_0)
                    &&& !(fail is Cp) ==> r == Err::<DispatchResult, RtErr>(RtErr::BinaryDestinationTooSmall)
                        && *final(ctx) == *old(ctx)
                } else {
                    &&& r == Ok::<DispatchResult, RtErr>(DispatchResult::Normal)
                    &&& final(curr_p).heap.objs() == old(curr_p).heap.objs().update(idx as int, HeapObjectView::Binary(
                        written(bits, off as int, sb->Some_0.subrange(0, count)),
                    ))
                    &&& advanced(*old(ctx), *final(ctx), (off + count) as usize)
                }
            }),
    {
        let (idx, off) = match ctx.current_bin {
            Some(cb) => cb,
            None => return badarg(),
        };
        let size_or_all = Self::get_size_or_all(in_size_term);
        let src_bits = match binary_value_of(&curr_p.heap, src) {
            Some(b) => b,
            None => return badarg(),
        };
        let count = match size_or_all {
            SizeOrAll::All => src_bits.len(),
            SizeOrAll::Bits(n) => n,
        };
        if count > src_bits.len() {
            return badarg();
        }
        let mut bits = match binary_bits(&curr_p.heap, idx) {
            Some(b) => b,
            None => return badarg(),
        };
        if off > bits.len() || count > bits.len() - off {
            if fail.is_cp() {
                ctx.jump(fail);
                return Ok(DispatchResult::Normal);
            }
            return Err(RtErr::BinaryDestinationTooSmall);
        }
        let mut part: Vec<bool> = Vec::new();
        let mut k: usize = 0;
        while k < count
            invariant
                k <= count,
                count <= src_bits@.len(),
                part@ == src_bits@.subrange(0, k as int),
            decreases count - k,
        {
            part.push(src_bits[k]);
            k = k + 1;
            assert(part@ =~= src_bits@.subrange(0, k as int));
        }
        write_bits(&mut bits, off, &part);
        curr_p.heap.replace(idx, HeapObject::Binary(bits));
        ctx.current_bin = Some((idx, off + count));
        Ok(DispatchResult::Normal)
    }
}

/// `bs_start_match3(fail, context, live, dst)`: begin matching a binary.
/// A binary gets a new match state, a match state starts over from the
/// first bit; the match state goes to `dst`. Anything else continues at
/// `fail`.
pub struct OpcodeBsStartMatch3 {}

impl OpcodeBsStartMatch3 {
    pub const ARITY: usize = 4;

    pub fn bs_start_match_3(
        ctx: &mut Context,
        curr_p: &mut Process,
        fail: Term,
        match_context: Term,
        _live: usize,
        dst: Term,
    ) -> (r: RtResult<DispatchResult>)
        requires
            fail is Cp,
        ensures
            final(ctx).module == old(ctx).module,
            final(ctx).cp == old(ctx).cp,
            final(ctx).live == old(ctx).live,
            final(ctx).current_bin == old(ctx).current_bin,
            ({
                let objs = old(curr_p).heap.objs();
                let i = match_context->Boxed_0;
                if !(match_context is Boxed) || i >= objs.len() || !(objs[i as int] is MatchState || objs[i as int] is Binary) {
                    r == Ok::<DispatchResult, RtErr>(DispatchResult::Normal) && crate::opcodes::moved_to(*old(ctx), *final(ctx), fail->Cp_0)
                        && *final(curr_p) == *old(curr_p)
                } else if objs[i as int] is MatchState {
                    &&& final(curr_p).heap.objs() == objs.update(i as int, HeapObjectView::MatchState(objs[i as int]->MatchState_0, 0))
                    &&& final(ctx).ip == old(ctx).ip
                    &&& (storable(dst, old(ctx).regs@, old(curr_p).heap) <==> r is Ok)
                    &&& r is Ok ==> r == Ok::<DispatchResult, RtErr>(DispatchResult::Normal)
                        && stored(*old(ctx), *final(ctx), old(curr_p).heap, final(curr_p).heap, match_context, dst)
                } else {
                    &&& final(ctx).ip == old(ctx).ip
                    &&& objs.len() < usize::MAX ==> {
                        &&& final(curr_p).heap.objs() == objs.push(HeapObjectView::MatchState(i, 0))
                        &&& (storable(dst, old(ctx).regs@, old(curr_p).heap) <==> r is Ok)
                        &&& r is Ok ==> r == Ok::<DispatchResult, RtErr>(DispatchResult::Normal)
                            && stored(*old(ctx), *final(ctx), old(curr_p).heap, final(curr_p).heap, Term::Boxed(objs.len() as usize), dst)
                    }
                    &&& objs.len() >= usize::MAX ==> r is Err && r->Err_0 is HeapIsFull
                }
            }),
    {
        let i = match match_context {
            Term::Boxed(i) => i,
            _ => {
                ctx.jump(fail);
                return Ok(DispatchResult::Normal);
            },
        };
        if i >= curr_p.heap.objects.len() {
            ctx.jump(fail);
            return Ok(DispatchResult::Normal);
        }
        let ghost o = curr_p.heap.objs()[i as int];
        let state = match &curr_p.heap.objects[i] {
            HeapObject::MatchState(b, _) => Some(*b),
            HeapObject::Binary(_) => None,
            _ => {
                assert(!(o is MatchState) && !(o is Binary));
                ctx.jump(fail);
                return Ok(DispatchResult::Normal);
            },
        };
        match state {
            Some(b) => Self::continue_with_matchstate(ctx, curr_p, i, b, dst),
            None => Self::start_with_new_binary(ctx, curr_p, fail, i, dst),
        }
    }

    /// A new match state for the binary at heap index `bin`, stored in
    /// `dst`.
    fn start_with_new_binary(ctx: &mut Context, curr_p: &mut Process, _fail: Term, bin: usize, dst: Term) -> (r: RtResult<
        DispatchResult,
    >)
        ensures
            final(ctx).module == old(ctx).module,
            final(ctx).ip == old(ctx).ip,
            final(ctx).cp == old(ctx).cp,
            final(ctx).live == old(ctx).live,
            final(ctx).current_bin == old(ctx).current_bin,
            old(curr_p).heap.objs().len() < usize::MAX ==> {
                &&& final(curr_p).heap.objs() == old(curr_p).heap.objs().push(HeapObjectView::MatchState(bin, 0))
                &&& (storable(dst, old(ctx).regs@, old(curr_p).heap) <==> r is Ok)
                &&& r is Ok ==> r == Ok::<DispatchResult, RtErr>(DispatchResult::Normal) && stored(
                    *old(ctx),
                    *final(ctx),
                    old(curr_p).heap,
                    final(curr_p).heap,
                    Term::Boxed(old(curr_p).heap.objs().len() as usize),
                    dst,
                )
            },
            old(curr_p).heap.objs().len() >= usize::MAX ==> r is Err && r->Err_0 is HeapIsFull,
    {
        let new_match_state = curr_p.heap.allocate(HeapObject::MatchState(bin, 0))?;
        ctx.store_value(Term::Boxed(new_match_state), dst, &mut curr_p.heap)?;
        Ok(DispatchResult::Normal)
    }

    /// Start the match state at heap index `ms`, of the binary `bin`, over
    /// from the first bit, and store it in `dst`.
    fn continue_with_matchstate(ctx: &mut Context, curr_p: &mut Process, ms: usize, bin: usize, dst: Term) -> (r: RtResult<
        DispatchResult,
    >)
        requires
            ms < old(curr_p).heap.objs().len(),
        ensures
            final(ctx).module == old(ctx).module,
            final(ctx).ip == old(ctx).ip,
            final(ctx).cp == old(ctx).cp,
            final(ctx).live == old(ctx).live,
            final(ctx).current_bin == old(ctx).current_bin,
            final(curr_p).heap.objs() == old(curr_p).heap.objs().update(ms as int, HeapObjectView::MatchState(bin, 0)),
            (storable(dst, old(ctx).regs@, old(curr_p).heap) <==> r is Ok),
            r is Ok ==> r == Ok::<DispatchResult, RtErr>(DispatchResult::Normal)
                && stored(*old(ctx), *final(ctx), old(curr_p).heap, final(curr_p).heap, Term::Boxed(ms), dst),
    {
        curr_p.heap.replace(ms, HeapObject::MatchState(bin, 0));
        ctx.store_value(Term::Boxed(ms), dst, &mut curr_p.heap)?;
        Ok(DispatchResult::Normal)
    }
}

/// The binary and bit offset of the match state `t`, if it is one.
pub open spec fn match_state_of(objs: Seq<HeapObjectView>, t: Term) -> Option<(usize, usize)> {
    if t is Boxed && t->Boxed_0 < objs.len() && objs[t->Boxed_0 as int] is MatchState {
        Some((objs[t->Boxed_0 as int]->MatchState_0, objs[t->Boxed_0 as int]->MatchState_1))
    } else {
        None
    }
}

/// `bs_get_binary2(fail, state, live, size, unit, flags, dst)`: take the
/// next `size * unit` bits of the binary being matched as a part of it,
/// store the part in `dst` and move the match past it; zero bits give the
/// empty binary.
pub struct OpcodeBsGetBinary2 {}

impl OpcodeBsGetBinary2 {
    pub const ARITY: usize = 7;

    pub fn bs_get_binary2_7(
        ctx: &mut Context,
        curr_p: &mut Process,
        _fail: Term,
        match_state: Term,
        live: usize,
        size: usize,
        unit: usize,
        _flags: Term,
        dst: Term,
    ) -> (r: RtResult<DispatchResult>)
        requires
            match_state_of(old(curr_p).heap.objs(), match_state) is Some,
            unit > 0,
            size < usize::MAX / unit,
            match_state_of(old(curr_p).heap.objs(), match_state)->Some_0.1 + size * unit <= usize::MAX,
            size * unit == 0 ==> storable(dst, old(ctx).regs@, old(curr_p).heap),
        ensures
            final(ctx).module == old(ctx).module,
            final(ctx).ip == old(ctx).ip,
            final(ctx).cp == old(ctx).cp,
            final(ctx).current_bin == old(ctx).current_bin,
            ({
                let objs = old(curr_p).heap.objs();
                let (bin, off) = match_state_of(objs, match_state)->Some_0;
                let n = size * unit;
                if n == 0 {
                    &&& r == Ok::<DispatchResult, RtErr>(DispatchResult::Normal)
                    &&& final(curr_p).heap.objs() == objs
                    &&& final(ctx).live == old(ctx).live
                    &&& stored(*old(ctx), *final(ctx), old(curr_p).heap, final(curr_p).heap, Term::EmptyBinary, dst)
                } else {
                    &&& final(ctx).live == live
                    &&& objs.len() < usize::MAX ==> {
                        &&& final(curr_p).heap.objs() == objs.push(HeapObjectView::BinarySlice(bin, off, n as usize)).update(
                            match_state->Boxed_0 as int,
                            HeapObjectView::MatchState(bin, (off + n) as usize),
                        )
                        &&& (storable(dst, old(ctx).regs@, old(curr_p).heap) <==> r is Ok)
                        &&& r is Ok ==> r == Ok::<DispatchResult, RtErr>(DispatchResult::Normal)
                            && stored(*old(ctx), *final(ctx), old(curr_p).heap, final(curr_p).heap, Term::Boxed(objs.len() as usize), dst)
                    }
                    &&& objs.len() >= usize::MAX ==> r is Err && r->Err_0 is HeapIsFull
                }
            }),
    {
        let bit_size = BitSize::with_unit(size, unit);
        let ms = match match_state {
            Term::Boxed(i) => i,
            _ => return badarg(),
        };
        let ghost o = curr_p.heap.objs()[ms as int];
        let (bin, off) = match &curr_p.heap.objects[ms] {
            HeapObject::MatchState(b, o) => (*b, *o),
            _ => return badarg(),
        };
        if !bit_size.is_empty() {
            ctx.live = live;
            let slice = curr_p.heap.allocate(HeapObject::BinarySlice(bin, off, bit_size.bits))?;
            curr_p.heap.replace(ms, HeapObject::MatchState(bin, off + bit_size.bits));
            ctx.store_value(Term::Boxed(slice), dst, &mut curr_p.heap)?;
        } else {
            let stored = ctx.store_value(Term::empty_binary(), dst, &mut curr_p.heap);
            assert(stored is Ok);
        }
        Ok(DispatchResult::Normal)
    }
}

/// `bs_test_tail2(fail, state, bits)`: continue at `fail` unless exactly
/// `bits` bits are left to match.
pub struct OpcodeBsTestTail2 {}

impl OpcodeBsTestTail2 {
    pub const ARITY: usize = 3;

    pub fn bs_test_tail2(ctx: &mut Context, curr_p: &Process, fail: Term, match_state: Term, bits: usize) -> (r: RtResult<
        DispatchResult,
    >)
        requires
            fail is Cp,
            match_state_of(curr_p.heap.objs(), match_state) matches Some((bin, off)) && bits_at(curr_p.heap.objs(), bin as int)
                matches Some(b) && off <= b.len(),
        ensures
            r == Ok::<DispatchResult, RtErr>(DispatchResult::Normal),
            ({
                let (bin, off) = match_state_of(curr_p.heap.objs(), match_state)->Some_0;
                let remaining = bits_at(curr_p.heap.objs(), bin as int)->Some_0.len() - off;
                if remaining != bits {
                    crate::opcodes::moved_to(*old(ctx), *final(ctx), fail->Cp_0)
                } else {
                    *final(ctx) == *old(ctx)
                }
            }),
    {
        let ms = match match_state {
            Term::Boxed(i) => i,
            _ => return Ok(DispatchResult::Normal),
        };
        let (bin, off) = match &curr_p.heap.objects[ms] {
            HeapObject::MatchState(b, o) => (*b, *o),
            _ => return Ok(DispatchResult::Normal),
        };
        let total = match binary_bits(&curr_p.heap, bin) {
            Some(b) => b.len(),
            None => return Ok(DispatchResult::Normal),
        };
        let remaining = total - off;
        if remaining != bits {
            ctx.jump(fail);
        }
        Ok(DispatchResult::Normal)
    }
}

/// `bs_add(fail, s1, s2, unit, dst)`: store `s2` in `dst`.
pub struct OpcodeBsAdd {}

impl OpcodeBsAdd {
    pub const ARITY: usize = 5;

    pub fn bs_add(ctx: &mut Context, curr_p: &mut Process, _fail: Term, s2: Term, _unit: usize, dst: Term) -> (r: RtResult<
        DispatchResult,
    >)
        ensures
            final(curr_p).heap.objs() == old(curr_p).heap.objs(),
            final(ctx).module == old(ctx).module,
            final(ctx).ip == old(ctx).ip,
            final(ctx).cp == old(ctx).cp,
            final(ctx).live == old(ctx).live,
            (storable(dst, old(ctx).regs@, old(curr_p).heap) <==> r is Ok),
            r is Ok ==> r == Ok::<DispatchResult, RtErr>(DispatchResult::Normal)
                && store_result(*old(ctx), *final(ctx), old(curr_p).heap, final(curr_p).heap, s2, dst),
            r is Err ==> r == Err::<DispatchResult, RtErr>(badarg_err()),
    {
        ctx.store_value(s2, dst, &mut curr_p.heap)?;
        Ok(DispatchResult::Normal)
    }
}

} // verus!
