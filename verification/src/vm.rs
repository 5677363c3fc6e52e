//! The virtual machine: the atom table, the loaded code, the scheduler with
//! its processes, and the table of built-in functions.
use vstd::prelude::*;
use crate::atom_table::{intern_all, predefined_names, AtomTable};
use crate::atoms;
use crate::bif::{bif_atom_names, bif_names, BifTable};
use crate::defs::MAX_XREGS;
use crate::exc_type::ExceptionType;
use crate::fail::{RtErr, RtResult};
use crate::module::{mfa_location, CodeServer};
use crate::process::{Prio, Process, Queue};
use crate::scheduler::{has_pid, Scheduler};
use crate::term::Term;

verus! {

/// The virtual machine.
pub struct VM {
    pub atoms: AtomTable,
    pub code_server: CodeServer,
    pub scheduler: Scheduler,
    pub bifs: BifTable,
    /// The number of the next process to create.
    pub next_pid: usize,
}

/// What creating a process that runs `m:f` with `args` at priority `prio`
/// does to the machine `a`, giving `b` and the result `r`: too many
/// arguments is `badarg`; an unknown function is `undef`; pids running out
/// is `system_limit`; else a new process with the next pid runs the
/// function with the arguments in its X registers and is queued.
pub open spec fn process_created(a: VM, b: VM, m: Term, f: Term, args: Seq<Term>, prio: Prio, r: RtResult<Term>) -> bool {
    let loc = mfa_location(a.code_server.modules@, m, f, args.len() as usize);
    &&& b.scheduler.wf()
    &&& b.code_server == a.code_server
    &&& b.atoms == a.atoms
    &&& b.bifs == a.bifs
    &&& args.len() > MAX_XREGS ==> r == Err::<Term, RtErr>(RtErr::Exception(ExceptionType::Error, Term::Atom(atoms::BADARG)))
    &&& args.len() <= MAX_XREGS && loc is None ==> r == Err::<Term, RtErr>(RtErr::Exception(ExceptionType::Error, Term::Atom(atoms::UNDEF)))
    &&& args.len() <= MAX_XREGS && loc is Some && a.next_pid == usize::MAX ==> r == Err::<Term, RtErr>(RtErr::Exception(
        ExceptionType::Error,
        Term::Atom(atoms::SYSTEM_LIMIT),
    ))
    &&& r is Err ==> b.scheduler == a.scheduler && b.next_pid == a.next_pid
    &&& r is Ok ==> {
        let pid = Term::Pid(a.next_pid);
        let p = b.scheduler.proc_of(pid);
        &&& args.len() <= MAX_XREGS
        &&& loc is Some
        &&& a.next_pid < usize::MAX
        &&& r == Ok::<Term, RtErr>(pid)
        &&& b.next_pid == a.next_pid + 1
        &&& has_pid(b.scheduler.processes@, pid)
        &&& p.pid == pid && p.prio == prio && p.current_queue == Queue::NotQueued
        &&& p.context.module == loc->Some_0.0 && p.context.ip == loc->Some_0.1
        &&& p.context.live == args.len()
        &&& p.context.regs@.subrange(0, args.len() as int) == args
        &&& b.scheduler.queue_of(prio) == a.scheduler.queue_of(prio).push(pid)
    }
}

impl VM {
    /// The scheduler is well formed, and each pid in its run queues was
    /// handed out before `next_pid`.
    pub open spec fn wf(&self) -> bool {
        &&& self.scheduler.wf()
        &&& forall|t: Term| #[trigger] self.scheduler.in_run_queues(t) ==> t is Pid && t->Pid_0 < self.next_pid
    }

    /// A machine with the atoms known at startup, the built-in functions,
    /// no code and no processes.
    pub fn new() -> (r: VM)
        ensures
            r.wf(),
            r.atoms.wf(),
            r.atoms@ == intern_all(predefined_names(), bif_atom_names()),
            r.bifs.wf(),
            r.bifs.entries@.len() == bif_names().len(),
            forall|k: int| 0 <= k < bif_names().len() ==> {
                let e = #[trigger] r.bifs.entries@[k];
                &&& e.m is Atom && e.m->Atom_0 < r.atoms@.len() && r.atoms@[e.m->Atom_0 as int] == bif_names()[k].0
                &&& e.f is Atom && e.f->Atom_0 < r.atoms@.len() && r.atoms@[e.f->Atom_0 as int] == bif_names()[k].1
                &&& e.arity == bif_names()[k].2
                &&& e.id == bif_names()[k].3
            },
            r.scheduler.wf(),
            r.scheduler.queue_low@.len() == 0,
            r.scheduler.queue_normal@.len() == 0,
            r.scheduler.queue_high@.len() == 0,
            r.scheduler.timed_wait@.len() == 0,
            r.scheduler.infinite_wait@.len() == 0,
            r.scheduler.advantage_count == 0,
            r.scheduler.current is None,
            r.scheduler.processes@.len() == 0,
            r.code_server.last_version == 0,
            r.code_server.modules@.len() == 0,
            r.next_pid == 0,
    {
        let mut atoms = AtomTable::with_predefined();
        let bifs = BifTable::new(&mut atoms);
        VM { atoms, code_server: CodeServer::new(), scheduler: Scheduler::new(), bifs, next_pid: 0 }
    }

    /// Create a process that runs `m:f` with the arguments `args` in its X
    /// registers, register it with the scheduler and queue it; return its
    /// pid. The `_parent` spawned it.
    pub fn create_process(&mut self, _parent: Term, m: Term, f: Term, args: &[Term], prio: Prio) -> (r: RtResult<Term>)
        requires
            old(self).wf(),
        ensures
            final(self).wf(),
            process_created(*old(self), *final(self), m, f, args@, prio, r),
    {
        if args.len() > MAX_XREGS {
            return Err(RtErr::Exception(ExceptionType::Error, Term::Atom(atoms::BADARG)));
        }
        let (mi, offset) = match self.code_server.lookup_mfa(m, f, args.len()) {
            Some(loc) => loc,
            None => return Err(RtErr::Exception(ExceptionType::Error, Term::Atom(atoms::UNDEF))),
        };
        if self.next_pid == usize::MAX {
            return Err(RtErr::Exception(ExceptionType::Error, Term::Atom(atoms::SYSTEM_LIMIT)));
        }
        let pid = Term::Pid(self.next_pid);
        self.next_pid = self.next_pid + 1;
        let mut p = Process::new(pid, prio, mi, offset);
        let mut i: usize = 0;
        while i < args.len()
            invariant
                i <= args@.len(),
                args@.len() <= MAX_XREGS,
                p.context.wf(),
                p.pid == pid,
                p.prio == prio,
                p.current_queue == Queue::NotQueued,
                p.context.module == mi,
                p.context.ip == offset,
                forall|k: int| 0 <= k < i ==> p.context.regs@[k] == args@[k],
            decreases args@.len() - i,
        {
            p.context.set_x(i, args[i]);
            i = i + 1;
        }
        p.context.live = args.len();
        assert(p.context.regs@.subrange(0, args@.len() as int) =~= args@);
        let ghost s0 = self.scheduler;
        self.scheduler.register_new_process(pid, p);
        proof {
            assert forall|t: Term| #[trigger] self.scheduler.in_run_queues(t) implies t is Pid && t->Pid_0 < self.next_pid by {
                if t != pid {
                    let pr = p.prio;
                    assert(self.scheduler.queue_of(pr) == s0.queue_of(pr).push(pid));
                    assert(self.scheduler.queue_of(pr).contains(t) ==> s0.queue_of(pr).contains(t)) by {
                        if self.scheduler.queue_of(pr).contains(t) {
                            let k = choose|k: int| 0 <= k < self.scheduler.queue_of(pr).len() && self.scheduler.queue_of(pr)[k] == t;
                            assert(k < s0.queue_of(pr).len());
                            assert(s0.queue_of(pr)[k] == t);
                        }
                    }
                    assert(self.scheduler.queue_of(Prio::Low) == s0.queue_of(Prio::Low) || pr == Prio::Low);
                    assert(self.scheduler.queue_of(Prio::Normal) == s0.queue_of(Prio::Normal) || pr == Prio::Normal);
                    assert(self.scheduler.queue_of(Prio::High) == s0.queue_of(Prio::High) || pr == Prio::High);
                    assert(s0.in_run_queues(t));
                }
            }
        }
        Ok(pid)
    }
}

} // verus!
