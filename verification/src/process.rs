//! A process: its registers and code position (the runtime context), its
//! heap and stack, its scheduling state and its pending exception.
use vstd::prelude::*;
use crate::defs::MAX_XREGS;
use crate::exc_type::ExceptionType;
use crate::heap::Heap;
use crate::module::CodeWord;
use crate::term::Term;

verus! {

/// Scheduling priority.
#[derive(Clone, Copy, PartialEq, Eq, Structural, Debug)]
pub enum Prio {
    /// Runs when no more jobs to take or at 8x disadvantage to normal.
    Low,
    /// Most of user processes run at this priority.
    Normal,
    /// Takes priority always over everything else.
    High,
}

/// Which queue or wait set a process is registered in.
#[derive(Clone, Copy, PartialEq, Eq, Structural, Debug)]
pub enum Queue {
    /// In no queue and no wait set.
    NotQueued,
    High,
    Normal,
    Low,
    TimedWait,
    InfiniteWait,
}

/// How the last timeslice of a process ended.
#[derive(Clone, Copy, PartialEq, Eq, Structural, Debug)]
pub enum SliceResult {
    /// No timeslice has ended yet.
    NotSet,
    /// The process gave up its run queue place (ended the timeslice without events).
    Yield,
    /// The process entered an infinite or timed wait.
    Wait,
    /// The process finished normally.
    Finished,
    /// An error, exit or throw happened; the exception is in the process.
    Exception,
}

/// Outcome of a return: to the saved code location, or none saved (the
/// process has no more code to run).
#[derive(Clone, Copy, PartialEq, Eq, Structural, Debug)]
pub enum ReturnResult {
    Success,
    EmptyStack,
}

/// Registers and code position of a running process.
pub struct Context {
    /// The module being run, by its index in the code server.
    pub module: usize,
    /// Offset of the next code word to read, in the module's code.
    pub ip: usize,
    /// Module and offset to continue at on return, if any.
    pub cp: Option<(usize, usize)>,
    /// Number of live X registers.
    pub live: usize,
    /// X registers.
    pub regs: Vec<Term>,
    /// The binary being built, by its index on the process heap, and the
    /// bit offset where the next write goes.
    pub current_bin: Option<(usize, usize)>,
}

/// Whether `t` can be loaded: a register that exists, or a plain value.
pub open spec fn loadable(t: Term, regs: Seq<Term>, hp: Heap) -> bool {
    match t {
        Term::RegX(i) => i < regs.len(),
        Term::RegY(i) => hp.has_y(i as int),
        _ => true,
    }
}

/// The value of `t`: the content of the register it names, or itself.
pub open spec fn load_value(t: Term, regs: Seq<Term>, hp: Heap) -> Term {
    match t {
        Term::RegX(i) => regs[i as int],
        Term::RegY(i) => hp.stack@[hp.y_index(i as int)],
        _ => t,
    }
}

/// Whether the `n` code words at `ip` exist and hold values.
pub open spec fn has_args(code: Seq<CodeWord>, ip: int, n: int) -> bool {
    &&& 0 <= ip && ip + n <= code.len()
    &&& forall|i: int| 0 <= i < n ==> (#[trigger] code[ip + i]) is Value
}

/// The value of the code word at `ip + i`.
pub open spec fn arg_at(code: Seq<CodeWord>, ip: int, i: int) -> Term {
    code[ip + i]->Value_0
}

impl Context {
    /// There are `MAX_XREGS` X registers.
    pub open spec fn wf(&self) -> bool {
        self.regs@.len() == MAX_XREGS
    }

    /// The context with only the X registers changed to `regs`.
    pub open spec fn with_regs(&self, regs: Seq<Term>, other: Context) -> bool {
        &&& other.module == self.module
        &&& other.ip == self.ip
        &&& other.cp == self.cp
        &&& other.live == self.live
        &&& other.regs@ == regs
        &&& other.current_bin == self.current_bin
    }

    /// A context at offset `ip` of module `module`, with no return location
    /// and all X registers holding `[]`.
    pub fn new(module: usize, ip: usize) -> (r: Context)
        ensures
            r.wf(),
            r.module == module,
            r.ip == ip,
            r.cp is None,
            r.live == 0,
            r.current_bin is None,
            forall|i: int| 0 <= i < MAX_XREGS ==> r.regs@[i] == Term::Nil,
    {
        let mut regs: Vec<Term> = Vec::new();
        let mut i: usize = 0;
        while i < MAX_XREGS
            invariant
                i <= MAX_XREGS,
                regs@.len() == i,
                forall|k: int| 0 <= k < i ==> regs@[k] == Term::Nil,
            decreases MAX_XREGS - i,
        {
            regs.push(Term::Nil);
            i = i + 1;
        }
        Context { module, ip, cp: None, live: 0, regs, current_bin: None }
    }

    /// The X register `i`.
    pub fn get_x(&self, i: usize) -> (r: Term)
        requires
            i < self.regs@.len(),
        ensures
            r == self.regs@[i as int],
    {
        self.regs[i]
    }

    /// Set the X register `i` to `val`.
    pub fn set_x(&mut self, i: usize, val: Term)
        requires
            i < old(self).regs@.len(),
        ensures
            old(self).with_regs(old(self).regs@.update(i as int, val), *final(self)),
    {
        self.regs.set(i, val);
    }

    /// A write to an X register is read back; the other registers and the
    /// rest of the context keep their values.
    pub proof fn law_x_register(a: Context, b: Context, i: int, j: int, v: Term)
        requires
            a.wf(),
            0 <= i < MAX_XREGS,
            0 <= j < MAX_XREGS,
            a.with_regs(a.regs@.update(i, v), b),
        ensures
            b.wf(),
            b.regs@[i] == v,
            j != i ==> b.regs@[j] == a.regs@[j],
            b.module == a.module && b.ip == a.ip && b.cp == a.cp && b.live == a.live,
    {
    }

    /// Whether `dst` is a code location in the module being run.
    pub open spec fn jump_ok(&self, dst: Term) -> bool {
        dst is Cp
    }

    /// Continue at the code location `dst` of the module being run.
    pub fn jump(&mut self, dst: Term)
        requires
            old(self).jump_ok(dst),
        ensures
            final(self).ip == dst->Cp_0,
            final(self).module == old(self).module,
            final(self).cp == old(self).cp,
            final(self).live == old(self).live,
            final(self).regs == old(self).regs,
            final(self).current_bin == old(self).current_bin,
    {
        self.ip = dst.get_cp_ptr();
    }

    /// Continue at the code offset `loc` of the module being run.
    pub fn jump_ptr(&mut self, loc: usize)
        ensures
            final(self).ip == loc,
            final(self).module == old(self).module,
            final(self).cp == old(self).cp,
            final(self).live == old(self).live,
            final(self).regs == old(self).regs,
            final(self).current_bin == old(self).current_bin,
    {
        self.ip = loc;
    }

    /// Set the return location from a term: a return address, or none.
    pub fn set_cp(&mut self, cp: Term)
        ensures
            final(self).cp == (match cp {
                Term::ReturnAddr(m, o) => Some((m, o)),
                _ => None::<(usize, usize)>,
            }),
            final(self).ip == old(self).ip,
            final(self).module == old(self).module,
            final(self).live == old(self).live,
            final(self).regs == old(self).regs,
            final(self).current_bin == old(self).current_bin,
    {
        self.cp = match cp {
            Term::ReturnAddr(m, o) => Some((m, o)),
            _ => None,
        };
    }

    /// Forget the return location.
    pub fn clear_cp(&mut self)
        ensures
            final(self).cp is None,
            final(self).ip == old(self).ip,
            final(self).module == old(self).module,
            final(self).live == old(self).live,
            final(self).regs == old(self).regs,
            final(self).current_bin == old(self).current_bin,
    {
        self.cp = None;
    }

    /// The return location as a term: a return address, or `[]` for none.
    pub fn cp_term(&self) -> (r: Term)
        ensures
            r == (match self.cp {
                Some((m, o)) => Term::ReturnAddr(m, o),
                None => Term::Nil,
            }),
    {
        match self.cp {
            Some((m, o)) => Term::ReturnAddr(m, o),
            None => Term::Nil,
        }
    }

    /// Copies of the X registers `start .. start + n`.
    pub fn registers_slice(&self, start: usize, n: usize) -> (r: Vec<Term>)
        requires
            start + n <= self.regs@.len(),
        ensures
            r@ == self.regs@.subrange(start as int, start + n),
    {
        let mut out: Vec<Term> = Vec::new();
        let mut i: usize = 0;
        let len = self.regs.len();
        while i < n
            invariant
                i <= n,
                len == self.regs@.len(),
                start + n <= self.regs@.len(),
                out@ == self.regs@.subrange(start as int, start + i),
            decreases n - i,
        {
            out.push(self.regs[start + i]);
            i = i + 1;
            assert(out@ =~= self.regs@.subrange(start as int, start + i));
        }
        out
    }

    /// Return: continue at the saved location and forget it; with none
    /// saved there is nowhere to return to.
    pub fn return_and_clear_cp(&mut self) -> (r: ReturnResult)
        ensures
            old(self).cp is None ==> r == ReturnResult::EmptyStack && *final(self) == *old(self),
            old(self).cp is Some ==> r == ReturnResult::Success && final(self).module == old(self).cp->Some_0.0
                && final(self).ip == old(self).cp->Some_0.1 && final(self).cp is None,
            final(self).live == old(self).live,
            final(self).regs == old(self).regs,
            final(self).current_bin == old(self).current_bin,
    {
        match self.cp {
            None => ReturnResult::EmptyStack,
            Some((m, o)) => {
                self.module = m;
                self.ip = o;
                self.cp = None;
                ReturnResult::Success
            },
        }
    }

    /// Read the next code word of `code`, a value.
    pub fn fetch_term(&mut self, code: &[CodeWord]) -> (r: Term)
        requires
            has_args(code@, old(self).ip as int, 1),
        ensures
            r == arg_at(code@, old(self).ip as int, 0),
            final(self).ip == old(self).ip + 1,
            final(self).module == old(self).module,
            final(self).cp == old(self).cp,
            final(self).live == old(self).live,
            final(self).regs == old(self).regs,
            final(self).current_bin == old(self).current_bin,
    {
        assert(code@[self.ip + 0] is Value);
        let r = match code[self.ip] {
            CodeWord::Value(t) => t,
            CodeWord::Opcode(_) => Term::NonValue,
        };
        let _len = code.len();
        self.ip = self.ip + 1;
        r
    }

    /// The value of `t`: the register it names, or itself.
    pub fn load(&self, t: Term, hp: &Heap) -> (r: Term)
        requires
            loadable(t, self.regs@, *hp),
        ensures
            r == load_value(t, self.regs@, *hp),
    {
        match t {
            Term::RegX(i) => self.regs[i],
            Term::RegY(i) => hp.get_y(i),
            _ => t,
        }
    }

    /// Read the next code word of `code` and load its value.
    pub fn fetch_and_load(&mut self, code: &[CodeWord], hp: &Heap) -> (r: Term)
        requires
            has_args(code@, old(self).ip as int, 1),
            loadable(arg_at(code@, old(self).ip as int, 0), old(self).regs@, *hp),
        ensures
            r == load_value(arg_at(code@, old(self).ip as int, 0), old(self).regs@, *hp),
            final(self).ip == old(self).ip + 1,
            final(self).module == old(self).module,
            final(self).cp == old(self).cp,
            final(self).live == old(self).live,
            final(self).regs == old(self).regs,
            final(self).current_bin == old(self).current_bin,
    {
        let t = self.fetch_term(code);
        self.load(t, hp)
    }
}

/// A process.
pub struct Process {
    pub pid: Term,
    pub prio: Prio,
    /// The queue or wait set the process is in.
    pub current_queue: Queue,
    /// How the last timeslice ended.
    pub timeslice_result: SliceResult,
    /// How many catch handlers are active.
    pub num_catches: isize,
    /// The pending exception, if any.
    pub error: Option<(ExceptionType, Term)>,
    pub heap: Heap,
    pub context: Context,
}

impl Process {
    /// A new process `pid` with priority `prio`, about to run the module
    /// `module` from offset `ip`.
    pub fn new(pid: Term, prio: Prio, module: usize, ip: usize) -> (r: Process)
        ensures
            r.pid == pid,
            r.prio == prio,
            r.current_queue == Queue::NotQueued,
            r.timeslice_result == SliceResult::NotSet,
            r.num_catches == 0,
            r.error is None,
            r.context.wf(),
            r.context.ip == ip,
            r.context.module == module,
            r.heap.stack@.len() == 0,
    {
        Process {
            pid,
            prio,
            current_queue: Queue::NotQueued,
            timeslice_result: SliceResult::NotSet,
            num_catches: 0,
            error: None,
            heap: Heap::new(),
            context: Context::new(module, ip),
        }
    }

    /// Whether an exception is pending.
    pub fn is_failed(&self) -> (r: bool)
        ensures
            r == self.error is Some,
    {
        self.error.is_some()
    }

    /// Forget the pending exception.
    pub fn clear_exception(&mut self)
        ensures
            final(self).error is None,
            final(self).pid == old(self).pid,
            final(self).prio == old(self).prio,
            final(self).current_queue == old(self).current_queue,
            final(self).timeslice_result == old(self).timeslice_result,
            final(self).num_catches == old(self).num_catches,
            final(self).heap == old(self).heap,
            final(self).context == old(self).context,
    {
        self.error = None;
    }

    /// Record the exception `e` as pending; the timeslice ends with it.
    pub fn set_exception(&mut self, e: (ExceptionType, Term))
        ensures
            final(self).error == Some(e),
            final(self).timeslice_result == SliceResult::Exception,
            final(self).pid == old(self).pid,
            final(self).prio == old(self).prio,
            final(self).current_queue == old(self).current_queue,
            final(self).num_catches == old(self).num_catches,
            final(self).heap == old(self).heap,
            final(self).context == old(self).context,
    {
        self.error = Some(e);
        self.timeslice_result = SliceResult::Exception;
    }
}

/// Whether `dst` is a register that a value can be stored in.
pub open spec fn storable(dst: Term, regs: Seq<Term>, hp: Heap) -> bool {
    match dst {
        Term::RegX(i) => i < regs.len(),
        Term::RegY(i) => hp.has_y(i as int),
        _ => false,
    }
}

impl Context {
    /// Store `val` in the register `dst` (an X register here, a Y register
    /// on `hp`'s stack); any other destination is `badarg`.
    pub fn store_value(&mut self, val: Term, dst: Term, hp: &mut Heap) -> (r: Result<(), crate::fail::RtErr>)
        ensures
            final(hp).objs() == old(hp).objs(),
            final(self).module == old(self).module,
            final(self).ip == old(self).ip,
            final(self).cp == old(self).cp,
            final(self).live == old(self).live,
            final(self).current_bin == old(self).current_bin,
            storable(dst, old(self).regs@, *old(hp)) <==> r is Ok,
            r is Err ==> r->Err_0 == crate::fail::badarg_err() && *final(self) == *old(self) && final(hp).stack@ == old(hp).stack@,
            dst is RegX && r is Ok ==> final(self).regs@ == old(self).regs@.update(dst->RegX_0 as int, val)
                && final(hp).stack@ == old(hp).stack@,
            dst is RegY && r is Ok ==> final(self).regs == old(self).regs
                && final(hp).stack@ == old(hp).stack@.update(old(hp).y_index(dst->RegY_0 as int), val),
    {
        match dst {
            Term::RegX(i) => {
                if i < self.regs.len() {
                    self.regs.set(i, val);
                    Ok(())
                } else {
                    crate::fail::badarg()
                }
            },
            Term::RegY(i) => {
                match hp.set_y(i, val) {
                    Ok(()) => Ok(()),
                    Err(_) => crate::fail::badarg(),
                }
            },
            _ => crate::fail::badarg(),
        }
    }
}

} // verus!
