//! Task scheduling: run queues by priority, wait sets, and the table of
//! processes owned by the scheduler.
use vstd::prelude::*;
use std::collections::VecDeque;
use crate::atoms;
use crate::exc_type::ExceptionType;
use crate::heap::{catch_frame, NextCatch};
use crate::process::{Prio, Process, Queue, SliceResult};
use crate::term::Term;

verus! {

/// How many Normal processes can be scheduled before Low gets to run.
pub const NORMAL_ADVANTAGE: usize = 8;

/// A process in the process table, under its pid.
pub struct ProcEntry {
    pub pid: Term,
    pub process: Process,
}

/// Hint from finalizing the timeslice of the last running process: it may
/// continue after an exception was caught.
#[derive(Clone, Copy, PartialEq, Eq, Structural, Debug)]
pub enum ScheduleHint {
    ContinueSameProcess,
    TakeAnotherProcess,
}

/// Whether the table `es` has an entry for `pid`.
pub open spec fn has_pid(es: Seq<ProcEntry>, pid: Term) -> bool {
    exists|i: int| 0 <= i < es.len() && (#[trigger] es[i]).pid == pid
}

/// The position of the entry for `pid`.
pub open spec fn pid_index(es: Seq<ProcEntry>, pid: Term) -> int {
    choose|i: int| 0 <= i < es.len() && (#[trigger] es[i]).pid == pid
}

/// Whether no pid occurs twice in `es`.
pub open spec fn distinct_pids(es: Seq<ProcEntry>) -> bool {
    forall|i: int, j: int| 0 <= i < es.len() && 0 <= j < es.len() && i != j ==> (#[trigger] es[i]).pid != (#[trigger] es[j]).pid
}

/// Whether no element occurs twice in `s`.
pub open spec fn no_dups(s: Seq<Term>) -> bool {
    forall|i: int, j: int| 0 <= i < s.len() && 0 <= j < s.len() && i != j ==> #[trigger] s[i] != #[trigger] s[j]
}

/// `s` as a set is `s0` as a set without `x`.
pub open spec fn same_without(s0: Seq<Term>, s: Seq<Term>, x: Term) -> bool {
    &&& !s.contains(x)
    &&& forall|y: Term| y != x ==> (s.contains(y) <==> s0.contains(y))
}

/// `s` as a set is `s0` as a set with `x`.
pub open spec fn same_with(s0: Seq<Term>, s: Seq<Term>, x: Term) -> bool {
    &&& s.contains(x)
    &&& forall|y: Term| y != x ==> (s.contains(y) <==> s0.contains(y))
}

/// Remove `x` from the duplicate-free vector `v`.
fn remove_from_set(v: &mut Vec<Term>, x: Term)
    requires
        no_dups(old(v)@),
    ensures
        no_dups(final(v)@),
        same_without(old(v)@, final(v)@, x),
{
    let mut i: usize = 0;
    while i < v.len()
        invariant
            i <= v@.len(),
            v@ == old(v)@,
            no_dups(old(v)@),
            forall|k: int| 0 <= k < i ==> v@[k] != x,
        decreases v@.len() - i,
    {
        if v[i] == x {
            let ghost s0 = v@;
            v.remove(i);
            assert forall|y: Term| y != x implies (v@.contains(y) <==> s0.contains(y)) by {
                if s0.contains(y) {
                    let k = choose|k: int| 0 <= k < s0.len() && s0[k] == y;
                    if k < i {
                        assert(v@[k] == y);
                    } else {
                        assert(k != i);
                        assert(v@[k - 1] == y);
                    }
                }
                if v@.contains(y) {
                    let k = choose|k: int| 0 <= k < v@.len() && v@[k] == y;
                    if k < i {
                        assert(s0[k] == y);
                    } else {
                        assert(s0[k + 1] == y);
                    }
                }
            }
            assert(!v@.contains(x)) by {
                if v@.contains(x) {
                    let k = choose|k: int| 0 <= k < v@.len() && v@[k] == x;
                    if k < i {
                        assert(s0[k] == x);
                    } else {
                        assert(s0[k + 1] == x);
                        assert(s0[i as int] == x);
                    }
                }
            }
            assert forall|a: int, b: int| 0 <= a < v@.len() && 0 <= b < v@.len() && a != b implies #[trigger] v@[a]
                != #[trigger] v@[b] by {
                let a0 = if a < i { a } else { a + 1 };
                let b0 = if b < i { b } else { b + 1 };
                assert(v@[a] == s0[a0]);
                assert(v@[b] == s0[b0]);
            }
            return;
        }
        i = i + 1;
    }
}

/// Whether `x` is in `v`.
fn set_contains(v: &Vec<Term>, x: Term) -> (r: bool)
    ensures
        r == v@.contains(x),
{
    let mut i: usize = 0;
    while i < v.len()
        invariant
            i <= v@.len(),
            forall|k: int| 0 <= k < i ==> v@[k] != x,
        decreases v@.len() - i,
    {
        if v[i] == x {
            assert(v@[i as int] == x);
            return true;
        }
        i = i + 1;
    }
    false
}

/// Add `x` to the duplicate-free vector `v`, unless it is there.
fn insert_into_set(v: &mut Vec<Term>, x: Term)
    requires
        no_dups(old(v)@),
    ensures
        no_dups(final(v)@),
        same_with(old(v)@, final(v)@, x),
{
    let mut i: usize = 0;
    while i < v.len()
        invariant
            i <= v@.len(),
            v@ == old(v)@,
            no_dups(old(v)@),
            forall|k: int| 0 <= k < i ==> v@[k] != x,
        decreases v@.len() - i,
    {
        if v[i] == x {
            assert(v@[i as int] == x);
            return;
        }
        i = i + 1;
    }
    v.push(x);
    assert forall|a: int, b: int| 0 <= a < v@.len() && 0 <= b < v@.len() && a != b implies #[trigger] v@[a]
        != #[trigger] v@[b] by {
        if a < old(v)@.len() && b < old(v)@.len() {
            assert(v@[a] == old(v)@[a]);
            assert(v@[b] == old(v)@[b]);
        } else if a < old(v)@.len() {
            assert(v@[a] == old(v)@[a]);
        } else if b < old(v)@.len() {
            assert(v@[b] == old(v)@[b]);
        }
    }
    assert forall|y: Term| y != x implies (v@.contains(y) <==> old(v)@.contains(y)) by {
        if v@.contains(y) {
            let k = choose|k: int| 0 <= k < v@.len() && v@[k] == y;
            assert(k < old(v)@.len());
            assert(old(v)@[k] == y);
        }
        if old(v)@.contains(y) {
            let k = choose|k: int| 0 <= k < old(v)@.len() && old(v)@[k] == y;
            assert(v@[k] == y);
        }
    }
    assert(v@[old(v)@.len() as int] == x);
}

/// Run queues, wait sets and the processes, owned by the scheduler.
pub struct Scheduler {
    pub queue_low: VecDeque<Term>,
    pub queue_normal: VecDeque<Term>,
    pub queue_high: VecDeque<Term>,
    pub timed_wait: Vec<Term>,
    pub infinite_wait: Vec<Term>,
    /// A counter used to skip some schedulings for low priority processes.
    pub advantage_count: usize,
    /// The process selected to run.
    pub current: Option<Term>,
    /// The processes, by pid.
    pub processes: Vec<ProcEntry>,
}

impl Scheduler {
    /// No pid occurs twice in the process table or in a wait set.
    pub open spec fn wf(&self) -> bool {
        &&& distinct_pids(self.processes@)
        &&& no_dups(self.timed_wait@)
        &&& no_dups(self.infinite_wait@)
    }

    /// The queue for the priority `prio`.
    pub open spec fn queue_of(&self, prio: Prio) -> Seq<Term> {
        match prio {
            Prio::Low => self.queue_low@,
            Prio::Normal => self.queue_normal@,
            Prio::High => self.queue_high@,
        }
    }

    /// Whether `pid` is waiting in a run queue.
    pub open spec fn in_run_queues(&self, pid: Term) -> bool {
        self.queue_low@.contains(pid) || self.queue_normal@.contains(pid) || self.queue_high@.contains(pid)
    }

    /// The process of `pid`, which must be in the table.
    pub open spec fn proc_of(&self, pid: Term) -> Process {
        self.processes@[pid_index(self.processes@, pid)].process
    }

    /// An empty scheduler.
    pub fn new() -> (r: Scheduler)
        ensures
            r.wf(),
            r.queue_low@.len() == 0,
            r.queue_normal@.len() == 0,
            r.queue_high@.len() == 0,
            r.timed_wait@.len() == 0,
            r.infinite_wait@.len() == 0,
            r.advantage_count == 0,
            r.current is None,
            r.processes@.len() == 0,
    {
        Scheduler {
            queue_low: VecDeque::new(),
            queue_normal: VecDeque::new(),
            queue_high: VecDeque::new(),
            timed_wait: Vec::new(),
            infinite_wait: Vec::new(),
            advantage_count: 0,
            current: None,
            processes: Vec::new(),
        }
    }

    /// Number of processes.
    pub fn get_process_count(&self) -> (r: usize)
        ensures
            r == self.processes@.len(),
    {
        self.processes.len()
    }

    /// The position of the process `pid` in the table.
    fn find_index(&self, pid: Term) -> (r: Option<usize>)
        requires
            self.wf(),
        ensures
            match r {
                Some(i) => i < self.processes@.len() && self.processes@[i as int].pid == pid && pid_index(
                    self.processes@,
                    pid,
                ) == i && has_pid(self.processes@, pid),
                None => !has_pid(self.processes@, pid),
            },
    {
        let mut i: usize = 0;
        while i < self.processes.len()
            invariant
                i <= self.processes@.len(),
                self.wf(),
                forall|k: int| 0 <= k < i ==> (#[trigger] self.processes@[k]).pid != pid,
            decreases self.processes@.len() - i,
        {
            if self.processes[i].pid == pid {
                proof {
                    assert(has_pid(self.processes@, pid));
                    let j = pid_index(self.processes@, pid);
                    assert(self.processes@[j].pid == pid);
                }
                return Some(i);
            }
            i = i + 1;
        }
        None
    }

    /// The process `pid`, if it exists.
    pub fn lookup_pid(&self, pid: Term) -> (r: Option<&Process>)
        requires
            self.wf(),
            pid is Pid,
        ensures
            has_pid(self.processes@, pid) ==> r == Some(&self.proc_of(pid)),
            !has_pid(self.processes@, pid) ==> r is None,
    {
        match self.find_index(pid) {
            Some(i) => Some(&self.processes[i].process),
            None => None,
        }
    }

    /// The position of the process `pid` in the process table, if it
    /// exists (the table holds the process; callers reach it by position).
    pub fn unsafe_lookup_pid(&self, pid: Term) -> (r: Option<usize>)
        requires
            self.wf(),
            pid is Pid,
        ensures
            has_pid(self.processes@, pid) ==> r == Some(pid_index(self.processes@, pid) as usize),
            !has_pid(self.processes@, pid) ==> r is None,
    {
        self.find_index(pid)
    }

    /// The position of the process `pid` in the process table, for a
    /// caller that changes the process, if it exists.
    pub fn unsafe_lookup_pid_mut(&mut self, pid: Term) -> (r: Option<usize>)
        requires
            old(self).wf(),
            pid is Pid,
        ensures
            *final(self) == *old(self),
            has_pid(old(self).processes@, pid) ==> r == Some(pid_index(old(self).processes@, pid) as usize),
            !has_pid(old(self).processes@, pid) ==> r is None,
    {
        self.find_index(pid)
    }

    /// The process `pid` for changing, if it exists.
    pub fn lookup_pid_mut(&mut self, pid: Term) -> (r: Option<&mut Process>)
        requires
            old(self).wf(),
            pid is Pid,
        ensures
            has_pid(old(self).processes@, pid) ==> r is Some && *r->Some_0 == old(self).proc_of(pid),
            has_pid(old(self).processes@, pid) ==> final(self).processes@ == old(self).processes@.update(
                pid_index(old(self).processes@, pid),
                ProcEntry { pid, process: *final(r->Some_0) },
            ),
            !has_pid(old(self).processes@, pid) ==> r is None,
    {
        match self.find_index(pid) {
            Some(i) => Some(&mut self.processes[i].process),
            None => None,
        }
    }

    /// Queue the process `pid` at the end of the run queue of its priority.
    /// Unless `skip_queue_check`, the process must be in no queue.
    pub fn enqueue_opt(&mut self, pid: Term, skip_queue_check: bool)
        requires
            old(self).wf(),
            pid is Pid,
            has_pid(old(self).processes@, pid),
            skip_queue_check || (old(self).proc_of(pid).current_queue == Queue::NotQueued && !old(self).in_run_queues(pid)),
        ensures
            final(self).wf(),
            queued(*old(self), *final(self), pid, old(self).proc_of(pid).prio),
    {
        let prio = match self.find_index(pid) {
            Some(i) => self.processes[i].process.prio,
            None => Prio::Normal,
        };
        match prio {
            Prio::Normal => self.queue_normal.push_back(pid),
            Prio::Low => self.queue_low.push_back(pid),
            Prio::High => self.queue_high.push_back(pid),
        }
    }

    /// Queue the process `pid`, which must be in no queue.
    pub fn enqueue(&mut self, pid: Term)
        requires
            old(self).wf(),
            pid is Pid,
            has_pid(old(self).processes@, pid),
            old(self).proc_of(pid).current_queue == Queue::NotQueued,
            !old(self).in_run_queues(pid),
        ensures
            final(self).wf(),
            queued(*old(self), *final(self), pid, old(self).proc_of(pid).prio),
    {
        self.enqueue_opt(pid, false);
    }

    /// Register the process `proc_` under `pid` (replacing a process
    /// registered under it) and queue it.
    pub fn register_new_process(&mut self, pid: Term, proc_: Process)
        requires
            old(self).wf(),
            pid is Pid,
            proc_.current_queue == Queue::NotQueued,
            !old(self).in_run_queues(pid),
        ensures
            final(self).wf(),
            has_pid(final(self).processes@, pid),
            final(self).proc_of(pid) == proc_,
            !has_pid(old(self).processes@, pid) ==> final(self).processes@.len() == old(self).processes@.len() + 1,
            has_pid(old(self).processes@, pid) ==> final(self).processes@.len() == old(self).processes@.len(),
            forall|q: Term| q != pid ==> (has_pid(final(self).processes@, q) <==> has_pid(old(self).processes@, q)),
            forall|q: Term| q != pid && has_pid(old(self).processes@, q) ==> final(self).proc_of(q) == old(self).proc_of(q),
            final(self).queue_of(proc_.prio) == old(self).queue_of(proc_.prio).push(pid),
            forall|pr: Prio| pr != proc_.prio ==> final(self).queue_of(pr) == old(self).queue_of(pr),
            final(self).timed_wait == old(self).timed_wait,
            final(self).infinite_wait == old(self).infinite_wait,
            final(self).advantage_count == old(self).advantage_count,
            final(self).current == old(self).current,
    {
        let ghost p0 = proc_;
        match self.find_index(pid) {
            Some(i) => {
                let ghost es = self.processes@;
                self.processes.set(i, ProcEntry { pid, process: proc_ });
                proof {
                    assert forall|a: int, b: int| 0 <= a < self.processes@.len() && 0 <= b < self.processes@.len() && a != b
                        implies (#[trigger] self.processes@[a]).pid != (#[trigger] self.processes@[b]).pid by {
                        assert(es[a].pid != es[b].pid);
                    }
                    assert(self.processes@[i as int].pid == pid);
                    assert forall|q: Term| q != pid implies (has_pid(self.processes@, q) <==> has_pid(es, q)) by {
                        if has_pid(es, q) {
                            let k = choose|k: int| 0 <= k < es.len() && (#[trigger] es[k]).pid == q;
                            assert(self.processes@[k].pid == q);
                        }
                        if has_pid(self.processes@, q) {
                            let k = choose|k: int| 0 <= k < self.processes@.len() && (#[trigger] self.processes@[k]).pid == q;
                            assert(es[k].pid == q);
                        }
                    }
                    assert forall|q: Term| q != pid && has_pid(es, q) implies self.proc_of(q) == old(self).proc_of(q) by {
                        let k = pid_index(es, q);
                        let k2 = pid_index(self.processes@, q);
                        assert(self.processes@[k].pid == q);
                        assert(k2 == k);
                    }
                    let k2 = pid_index(self.processes@, pid);
                    assert(k2 == i);
                }
            },
            None => {
                let ghost es = self.processes@;
                self.processes.push(ProcEntry { pid, process: proc_ });
                proof {
                    assert forall|a: int, b: int| 0 <= a < self.processes@.len() && 0 <= b < self.processes@.len() && a != b
                        implies (#[trigger] self.processes@[a]).pid != (#[trigger] self.processes@[b]).pid by {
                        if a < es.len() && b < es.len() {
                            assert(es[a].pid != es[b].pid);
                        } else if a < es.len() {
                            assert(es[a].pid != pid);
                        } else {
                            assert(es[b].pid != pid);
                        }
                    }
                    let n = es.len() as int;
                    assert(self.processes@[n].pid == pid);
                    assert forall|q: Term| q != pid implies (has_pid(self.processes@, q) <==> has_pid(es, q)) by {
                        if has_pid(es, q) {
                            let k = choose|k: int| 0 <= k < es.len() && (#[trigger] es[k]).pid == q;
                            assert(self.processes@[k].pid == q);
                        }
                        if has_pid(self.processes@, q) {
                            let k = choose|k: int| 0 <= k < self.processes@.len() && (#[trigger] self.processes@[k]).pid == q;
                            assert(k < n);
                            assert(es[k].pid == q);
                        }
                    }
                    assert forall|q: Term| q != pid && has_pid(es, q) implies self.proc_of(q) == old(self).proc_of(q) by {
                        let k = pid_index(es, q);
                        let k2 = pid_index(self.processes@, q);
                        assert(self.processes@[k].pid == q);
                        assert(k2 == k);
                    }
                    let k2 = pid_index(self.processes@, pid);
                    assert(k2 == n);
                }
            },
        }
        self.enqueue(pid);
    }

    /// Put the process `pid` in the infinite or the timed wait set.
    pub fn enqueue_wait(&mut self, infinite: bool, pid: Term)
        requires
            old(self).wf(),
            pid is Pid,
        ensures
            final(self).wf(),
            infinite ==> same_with(old(self).infinite_wait@, final(self).infinite_wait@, pid)
                && final(self).timed_wait == old(self).timed_wait,
            !infinite ==> same_with(old(self).timed_wait@, final(self).timed_wait@, pid)
                && final(self).infinite_wait == old(self).infinite_wait,
            final(self).processes == old(self).processes,
            final(self).queue_low == old(self).queue_low,
            final(self).queue_normal == old(self).queue_normal,
            final(self).queue_high == old(self).queue_high,
            final(self).advantage_count == old(self).advantage_count,
            final(self).current == old(self).current,
    {
        if infinite {
            insert_into_set(&mut self.infinite_wait, pid);
        } else {
            insert_into_set(&mut self.timed_wait, pid);
        }
    }

    /// Take the next process from the queues: the high queue first; then,
    /// while the normal priority has its advantage, normal before low, else
    /// low before normal. With all queues empty, the advantage counter
    /// moves on.
    fn next_process_pick_from_the_queues(&mut self) -> (r: Option<Term>)
        ensures
            picked(*old(self), *final(self), r),
    {
        if self.queue_high.len() > 0 {
            return self.queue_high.pop_front();
        } else if self.advantage_count < NORMAL_ADVANTAGE {
            if self.queue_normal.len() > 0 {
                return self.queue_normal.pop_front();
            } else if self.queue_low.len() > 0 {
                return self.queue_low.pop_front();
            }
            self.advantage_count = self.advantage_count + 1;
        } else {
            if self.queue_low.len() > 0 {
                return self.queue_low.pop_front();
            } else if self.queue_normal.len() > 0 {
                return self.queue_normal.pop_front();
            }
            self.advantage_count = 0;
        }
        None
    }

    /// Remove the process `pid`, which is in no run queue, from the wait
    /// sets and the process table. The exception `_e` ended it.
    pub fn terminate_process(&mut self, pid: Term, _e: (ExceptionType, Term))
        requires
            old(self).wf(),
            pid is Pid,
            has_pid(old(self).processes@, pid),
            old(self).proc_of(pid).current_queue == Queue::NotQueued,
            !old(self).in_run_queues(pid),
        ensures
            final(self).wf(),
            terminated(*old(self), *final(self), pid),
            final(self).current == old(self).current,
    {
        remove_from_set(&mut self.timed_wait, pid);
        remove_from_set(&mut self.infinite_wait, pid);
        if let Some(i) = self.find_index(pid) {
            let ghost es = self.processes@;
            self.processes.remove(i);
            proof {
                assert forall|a: int, b: int| 0 <= a < self.processes@.len() && 0 <= b < self.processes@.len() && a != b
                    implies (#[trigger] self.processes@[a]).pid != (#[trigger] self.processes@[b]).pid by {
                    let a0 = if a < i { a } else { a + 1 };
                    let b0 = if b < i { b } else { b + 1 };
                    assert(self.processes@[a] == es[a0]);
                    assert(self.processes@[b] == es[b0]);
                }
                assert(self.processes@ =~= es.remove(i as int));
            }
        }
    }
}

/// `b` is `a` with `pid` queued at the end of the run queue for `prio`.
pub open spec fn queued(a: Scheduler, b: Scheduler, pid: Term, prio: Prio) -> bool {
    &&& b.queue_of(prio) == a.queue_of(prio).push(pid)
    &&& forall|pr: Prio| pr != prio ==> b.queue_of(pr) == a.queue_of(pr)
    &&& b.processes == a.processes
    &&& b.timed_wait == a.timed_wait
    &&& b.infinite_wait == a.infinite_wait
    &&& b.advantage_count == a.advantage_count
    &&& b.current == a.current
}

/// Whether `pid` is in a wait set of `a`.
pub open spec fn waits(a: Scheduler, pid: Term) -> bool {
    a.infinite_wait@.contains(pid) || a.timed_wait@.contains(pid)
}

/// `b` is `a` without the process `pid`: it leaves the process table and
/// the wait sets; nothing else changes.
pub open spec fn terminated(a: Scheduler, b: Scheduler, pid: Term) -> bool {
    &&& b.processes@ == a.processes@.remove(pid_index(a.processes@, pid))
    &&& !has_pid(b.processes@, pid)
    &&& same_without(a.timed_wait@, b.timed_wait@, pid)
    &&& same_without(a.infinite_wait@, b.infinite_wait@, pid)
    &&& b.queue_low == a.queue_low
    &&& b.queue_normal == a.queue_normal
    &&& b.queue_high == a.queue_high
    &&& b.advantage_count == a.advantage_count
}

/// Run queues are first in, first out: a process queued on a scheduler
/// whose run queues are all empty is the next one picked, and the queues are
/// empty again after; queueing behind a waiting process leaves that process
/// at the head of its queue.
pub proof fn law_queue_order(a: Scheduler, b: Scheduler, c: Scheduler, pid: Term, prio: Prio, r: Option<Term>)
    requires
        queued(a, b, pid, prio),
        picked(b, c, r),
    ensures
        a.queue_of(prio).len() > 0 ==> b.queue_of(prio)[0] == a.queue_of(prio)[0],
        a.queue_low@.len() == 0 && a.queue_normal@.len() == 0 && a.queue_high@.len() == 0 ==> {
            &&& r == Some(pid)
            &&& c.queue_low@.len() == 0
            &&& c.queue_normal@.len() == 0
            &&& c.queue_high@.len() == 0
        },
{
    assert(b.queue_of(prio) == a.queue_of(prio).push(pid));
    let lo = Prio::Low;
    let no = Prio::Normal;
    let hi = Prio::High;
    if prio != lo { assert(b.queue_of(lo) == a.queue_of(lo)); }
    if prio != no { assert(b.queue_of(no) == a.queue_of(no)); }
    if prio != hi { assert(b.queue_of(hi) == a.queue_of(hi)); }
}

/// Priorities: a waiting high priority process is always picked first;
/// while normal priority keeps its advantage, a waiting normal process goes
/// before a low one; nothing is picked only when every run queue is empty.
pub proof fn law_priority_order(a: Scheduler, b: Scheduler, r: Option<Term>)
    requires
        picked(a, b, r),
    ensures
        a.queue_high@.len() > 0 ==> r == Some(a.queue_high@[0]),
        a.queue_high@.len() == 0 && a.advantage_count < NORMAL_ADVANTAGE && a.queue_normal@.len() > 0
            ==> r == Some(a.queue_normal@[0]),
        r is None <==> (a.queue_high@.len() == 0 && a.queue_normal@.len() == 0 && a.queue_low@.len() == 0),
{
}

/// `b` is `a` after taking `r` from the run queues.
pub open spec fn picked(a: Scheduler, b: Scheduler, r: Option<Term>) -> bool {
    &&& b.processes == a.processes
    &&& b.timed_wait == a.timed_wait
    &&& b.infinite_wait == a.infinite_wait
    &&& b.current == a.current
    &&& if a.queue_high@.len() > 0 {
        &&& r == Some(a.queue_high@[0])
        &&& b.queue_high@ == a.queue_high@.drop_first()
        &&& b.queue_normal == a.queue_normal && b.queue_low == a.queue_low
        &&& b.advantage_count == a.advantage_count
    } else if a.advantage_count < NORMAL_ADVANTAGE {
        &&& b.queue_high == a.queue_high
        &&& if a.queue_normal@.len() > 0 {
            &&& r == Some(a.queue_normal@[0])
            &&& b.queue_normal@ == a.queue_normal@.drop_first()
            &&& b.queue_low == a.queue_low
            &&& b.advantage_count == a.advantage_count
        } else if a.queue_low@.len() > 0 {
            &&& r == Some(a.queue_low@[0])
            &&& b.queue_low@ == a.queue_low@.drop_first()
            &&& b.queue_normal == a.queue_normal
            &&& b.advantage_count == a.advantage_count
        } else {
            &&& r is None
            &&& b.queue_normal == a.queue_normal && b.queue_low == a.queue_low
            &&& b.advantage_count == a.advantage_count + 1
        }
    } else {
        &&& b.queue_high == a.queue_high
        &&& if a.queue_low@.len() > 0 {
            &&& r == Some(a.queue_low@[0])
            &&& b.queue_low@ == a.queue_low@.drop_first()
            &&& b.queue_normal == a.queue_normal
            &&& b.advantage_count == a.advantage_count
        } else if a.queue_normal@.len() > 0 {
            &&& r == Some(a.queue_normal@[0])
            &&& b.queue_normal@ == a.queue_normal@.drop_first()
            &&& b.queue_low == a.queue_low
            &&& b.advantage_count == a.advantage_count
        } else {
            &&& r is None
            &&& b.queue_normal == a.queue_normal && b.queue_low == a.queue_low
            &&& b.advantage_count == 0
        }
    }
}

/// The topmost catch marker of the stack `st` and the return address of
/// its frame, if there is one.
pub open spec fn catch_of(st: Seq<Term>) -> Option<(int, int)> {
    if exists|k: int, j: int| catch_frame(st, k, j) {
        Some(choose|k: int, j: int| catch_frame(st, k, j))
    } else {
        None
    }
}

/// There is at most one topmost catch frame.
pub proof fn lemma_catch_frame_unique(st: Seq<Term>, k1: int, j1: int, k2: int, j2: int)
    requires
        catch_frame(st, k1, j1),
        catch_frame(st, k2, j2),
    ensures
        k1 == k2 && j1 == j2,
{
    if k1 < k2 {
        assert(!(st[k2] is Catch));
    } else if k2 < k1 {
        assert(!(st[k1] is Catch));
    }
    if j1 < j2 {
        assert(!(st[j1] is ReturnAddr));
    } else if j2 < j1 {
        assert(!(st[j2] is ReturnAddr));
    }
}

/// `q` is the process `p` after its exception was caught by the handler of
/// the catch frame `(k, j)` of its stack: X registers 0 to 3 hold the
/// no-value marker, the exception type, the reason and `[]`; execution
/// continues at the handler with no return location; the stack is cut back
/// to the handler's frame.
pub open spec fn caught(p: Process, q: Process, k: int, j: int) -> bool {
    let e = p.error->Some_0;
    &&& q.pid == p.pid
    &&& q.prio == p.prio
    &&& q.current_queue == p.current_queue
    &&& q.timeslice_result == p.timeslice_result
    &&& q.num_catches == p.num_catches
    &&& q.error == p.error
    &&& q.context.ip == p.heap.stack@[k]->Catch_0
    &&& q.context.cp is None
    &&& q.context.live == p.context.live
    &&& q.context.module == p.context.module
    &&& q.context.regs@ == p.context.regs@.update(0, Term::NonValue).update(1, e.0.to_atom_spec()).update(2, e.1).update(3, Term::Nil)
    &&& q.heap.stack@ == p.heap.stack@.subrange(0, j + 1)
    &&& q.heap.objs() == p.heap.objs()
}

/// What happens to the scheduler `a` when the process `pid` ended its
/// timeslice with an exception: with an active catch and a catch frame on
/// its stack it continues at the handler; else it is terminated and no
/// process is current.
pub open spec fn exception_handled(a: Scheduler, b: Scheduler, pid: Term, h: ScheduleHint) -> bool {
    let p = a.proc_of(pid);
    let i = pid_index(a.processes@, pid);
    if p.num_catches > 0 && catch_of(p.heap.stack@) is Some {
        let (k, j) = catch_of(p.heap.stack@)->Some_0;
        &&& h == ScheduleHint::ContinueSameProcess
        &&& b.processes@.len() == a.processes@.len()
        &&& b.processes@[i].pid == pid
        &&& caught(p, b.processes@[i].process, k, j)
        &&& forall|m: int| 0 <= m < a.processes@.len() && m != i ==> b.processes@[m] == a.processes@[m]
        &&& b.queue_low == a.queue_low && b.queue_normal == a.queue_normal && b.queue_high == a.queue_high
        &&& b.timed_wait == a.timed_wait && b.infinite_wait == a.infinite_wait
        &&& b.advantage_count == a.advantage_count && b.current == a.current
    } else {
        &&& h == ScheduleHint::TakeAnotherProcess
        &&& terminated(a, b, pid)
        &&& b.current is None
    }
}

/// Whether the process `pid` can have its timeslice finalized: it is in
/// the table and in no queue; a process that ended is in no run queue; a
/// process with an exception has it recorded, and a full register set.
pub open spec fn finalize_ready(a: Scheduler, pid: Term) -> bool {
    let p = a.proc_of(pid);
    &&& pid is Pid
    &&& has_pid(a.processes@, pid)
    &&& p.current_queue == Queue::NotQueued
    &&& !a.in_run_queues(pid)
    &&& p.timeslice_result == SliceResult::Exception ==> p.error is Some && p.context.wf()
}

/// What happens to the scheduler `a` when the timeslice of `pid` is
/// finalized: a yielding process is queued again and stops being current;
/// a finished one is terminated; an exception is handled; a waiting one
/// enters the infinite wait set.
pub open spec fn finalized(a: Scheduler, b: Scheduler, pid: Term, h: ScheduleHint) -> bool {
    let p = a.proc_of(pid);
    match p.timeslice_result {
        SliceResult::Yield | SliceResult::NotSet => {
            &&& h == ScheduleHint::TakeAnotherProcess
            &&& b.current is None
            &&& queued(a, Scheduler { current: a.current, ..b }, pid, p.prio)
        },
        SliceResult::Finished => {
            &&& h == ScheduleHint::TakeAnotherProcess
            &&& terminated(a, b, pid)
            &&& b.current == a.current
        },
        SliceResult::Exception => exception_handled(a, b, pid, h),
        SliceResult::Wait => {
            &&& h == ScheduleHint::TakeAnotherProcess
            &&& same_with(a.infinite_wait@, b.infinite_wait@, pid)
            &&& b.timed_wait == a.timed_wait
            &&& b.processes == a.processes
            &&& b.queue_low == a.queue_low && b.queue_normal == a.queue_normal && b.queue_high == a.queue_high
            &&& b.advantage_count == a.advantage_count && b.current == a.current
        },
    }
}

impl Scheduler {
    /// Handle the exception of the process `pid`: continue at its catch
    /// handler if it has one, else terminate it.
    fn handle_process_exception(&mut self, proc_pid: Term) -> (r: ScheduleHint)
        requires
            old(self).wf(),
            finalize_ready(*old(self), proc_pid),
            old(self).proc_of(proc_pid).error is Some,
            old(self).proc_of(proc_pid).context.wf(),
            !old(self).in_run_queues(proc_pid),
        ensures
            final(self).wf(),
            exception_handled(*old(self), *final(self), proc_pid, r),
    {
        let i = match self.find_index(proc_pid) {
            Some(i) => i,
            None => return ScheduleHint::TakeAnotherProcess,
        };
        let p_error = match self.processes[i].process.error {
            Some(e) => e,
            None => return ScheduleHint::TakeAnotherProcess,
        };
        if self.processes[i].process.num_catches <= 0 {
            self.terminate_process(proc_pid, p_error);
            self.current = None;
            return ScheduleHint::TakeAnotherProcess;
        }
        match self.processes[i].process.heap.unroll_stack_until_catch() {
            Some(next_catch) => {
                let ghost es = self.processes@;
                let ghost p = es[i as int].process;
                proof {
                    let (k, j) = choose|k: int, j: int| catch_frame(p.heap.stack@, k, j)
                        && next_catch.loc == p.heap.stack@[k]->Catch_0 && next_catch.stack_drop == p.heap.stack@.len() - 1 - j;
                    let (k2, j2) = catch_of(p.heap.stack@)->Some_0;
                    lemma_catch_frame_unique(p.heap.stack@, k, j, k2, j2);
                }
                let mut entry = self.processes.remove(i);
                entry.process.context.set_x(0, Term::non_value());
                entry.process.context.set_x(1, p_error.0.to_atom());
                entry.process.context.set_x(2, p_error.1);
                entry.process.context.set_x(3, Term::nil());
                entry.process.context.jump_ptr(next_catch.loc);
                entry.process.context.clear_cp();
                entry.process.heap.drop_stack_words(next_catch.stack_drop);
                self.processes.insert(i, entry);
                proof {
                    assert forall|a: int, b: int| 0 <= a < self.processes@.len() && 0 <= b < self.processes@.len() && a != b
                        implies (#[trigger] self.processes@[a]).pid != (#[trigger] self.processes@[b]).pid by {
                        assert(es[a].pid != es[b].pid);
                    }
                    assert forall|m: int| 0 <= m < es.len() && m != i implies self.processes@[m] == es[m] by {
                    }
                }
                ScheduleHint::ContinueSameProcess
            },
            None => {
                self.terminate_process(proc_pid, p_error);
                self.current = None;
                ScheduleHint::TakeAnotherProcess
            },
        }
    }

    /// Finalize the timeslice of the process that ran last, by how it
    /// ended.
    fn next_process_finalize_previous(&mut self, curr_pid: Term) -> (r: ScheduleHint)
        requires
            old(self).wf(),
            finalize_ready(*old(self), curr_pid),
        ensures
            final(self).wf(),
            finalized(*old(self), *final(self), curr_pid, r),
    {
        let i = match self.find_index(curr_pid) {
            Some(i) => i,
            None => return ScheduleHint::TakeAnotherProcess,
        };
        match self.processes[i].process.timeslice_result {
            SliceResult::Yield | SliceResult::NotSet => {
                self.enqueue(curr_pid);
                self.current = None;
            },
            SliceResult::Finished => {
                self.terminate_process(curr_pid, (ExceptionType::Exit, Term::make_atom(atoms::NORMAL)));
            },
            SliceResult::Exception => {
                return self.handle_process_exception(curr_pid);
            },
            SliceResult::Wait => {
                self.enqueue_wait(true, curr_pid);
            },
        }
        ScheduleHint::TakeAnotherProcess
    }

    /// Select the process to run next: the last one again if it caught an
    /// exception, else one taken from the run queues after finalizing the
    /// last one's timeslice. With nothing to run, no process is current.
    pub fn next_process(&mut self) -> (r: Option<Term>)
        requires
            old(self).wf(),
            old(self).current is Some ==> finalize_ready(*old(self), old(self).current->Some_0),
        ensures
            final(self).wf(),
            r == final(self).current,
            old(self).current is None ==> exists|m: Scheduler| #[trigger] picked(*old(self), m, r)
                && *final(self) == (Scheduler { current: r, ..m }),
            old(self).current is Some ==> exists|mid: Scheduler, h: ScheduleHint|
                #[trigger] finalized(*old(self), mid, old(self).current->Some_0, h) && (h == ScheduleHint::ContinueSameProcess
                    ==> *final(self) == mid) && (h == ScheduleHint::TakeAnotherProcess ==> exists|m: Scheduler|
                    #[trigger] picked(mid, m, r) && *final(self) == (Scheduler { current: r, ..m })),
    {
        if let Some(prev_pid) = self.current {
            let hint = self.next_process_finalize_previous(prev_pid);
            let ghost mid = *self;
            if hint == ScheduleHint::ContinueSameProcess {
                assert(finalized(*old(self), mid, prev_pid, hint));
                return self.current;
            }
            let next = self.next_process_pick_from_the_queues();
            let ghost m = *self;
            self.current = next;
            assert(finalized(*old(self), mid, prev_pid, hint));
            assert(picked(mid, m, next));
            return self.current;
        }
        let next = self.next_process_pick_from_the_queues();
        let ghost m = *self;
        self.current = next;
        assert(picked(*old(self), m, next));
        self.current
    }

    /// A message arrived for the process `proc_`: if it waits in a wait
    /// set, it leaves the wait sets and is queued to run.
    pub fn notify_new_incoming_message(&mut self, proc_: &mut Process)
        requires
            old(self).wf(),
            old(proc_).pid is Pid,
            waits(*old(self), old(proc_).pid) ==> has_pid(old(self).processes@, old(proc_).pid),
        ensures
            final(self).wf(),
            *final(proc_) == *old(proc_),
            waits(*old(self), old(proc_).pid) ==> exists|m: Scheduler| #[trigger] queued(m, *final(self), old(proc_).pid, old(self).proc_of(old(proc_).pid).prio)
                && m.processes == old(self).processes
                && same_without(old(self).infinite_wait@, m.infinite_wait@, old(proc_).pid)
                && same_without(old(self).timed_wait@, m.timed_wait@, old(proc_).pid)
                && m.queue_low == old(self).queue_low && m.queue_normal == old(self).queue_normal
                && m.queue_high == old(self).queue_high && m.advantage_count == old(self).advantage_count
                && m.current == old(self).current,
            !waits(*old(self), old(proc_).pid) ==> *final(self) == *old(self),
    {
        let pid = proc_.pid;
        let in_infinite = set_contains(&self.infinite_wait, pid);
        let in_timed = set_contains(&self.timed_wait, pid);
        if in_infinite || in_timed {
            remove_from_set(&mut self.infinite_wait, pid);
            remove_from_set(&mut self.timed_wait, pid);
            let ghost m = *self;
            self.enqueue_opt(pid, true);
            assert(queued(m, *self, pid, old(self).proc_of(pid).prio));
        }
    }
}

} // verus!
