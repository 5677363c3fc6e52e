use erlangrt::atom_table::AtomTable;
use erlangrt::exc_type::ExceptionType;
use erlangrt::process::{Prio, Process, SliceResult};
use erlangrt::scheduler::Scheduler;
use erlangrt::term::Term;

fn proc_(pid: usize, prio: Prio) -> Process {
    Process::new(Term::Pid(pid), prio, 0, 0)
}

#[test]
fn register_then_lookup() {
    let mut s = Scheduler::new();
    assert_eq!(s.get_process_count(), 0);
    s.register_new_process(Term::Pid(1), proc_(1, Prio::Normal));
    assert_eq!(s.get_process_count(), 1);
    assert_eq!(s.lookup_pid(Term::Pid(1)).unwrap().pid, Term::Pid(1));
    assert!(s.lookup_pid(Term::Pid(2)).is_none());
    assert_eq!(s.unsafe_lookup_pid(Term::Pid(1)), Some(0));
    assert_eq!(s.unsafe_lookup_pid_mut(Term::Pid(7)), None);
    assert_eq!(s.queue_normal.len(), 1);
}

#[test]
fn queues_are_first_in_first_out() {
    let mut s = Scheduler::new();
    s.register_new_process(Term::Pid(1), proc_(1, Prio::Normal));
    s.register_new_process(Term::Pid(2), proc_(2, Prio::Normal));
    assert_eq!(s.next_process(), Some(Term::Pid(1)));
    // pid 1 yields: back to the end of the queue, pid 2 runs
    assert_eq!(s.next_process(), Some(Term::Pid(2)));
    assert_eq!(s.next_process(), Some(Term::Pid(1)));
}

#[test]
fn high_priority_runs_first() {
    let mut s = Scheduler::new();
    s.register_new_process(Term::Pid(1), proc_(1, Prio::Low));
    s.register_new_process(Term::Pid(2), proc_(2, Prio::Normal));
    s.register_new_process(Term::Pid(3), proc_(3, Prio::High));
    assert_eq!(s.next_process(), Some(Term::Pid(3)));
    assert_eq!(s.next_process(), Some(Term::Pid(3)));
}

#[test]
fn nothing_to_run() {
    let mut s = Scheduler::new();
    assert_eq!(s.next_process(), None);
    assert_eq!(s.current, None);
}

#[test]
fn finished_process_is_terminated() {
    let mut s = Scheduler::new();
    s.register_new_process(Term::Pid(1), proc_(1, Prio::Normal));
    s.register_new_process(Term::Pid(2), proc_(2, Prio::Normal));
    assert_eq!(s.next_process(), Some(Term::Pid(1)));
    s.lookup_pid_mut(Term::Pid(1)).unwrap().timeslice_result = SliceResult::Finished;
    assert_eq!(s.next_process(), Some(Term::Pid(2)));
    assert_eq!(s.get_process_count(), 1);
    assert!(s.lookup_pid(Term::Pid(1)).is_none());
}

#[test]
fn uncaught_exception_terminates() {
    let mut s = Scheduler::new();
    s.register_new_process(Term::Pid(1), proc_(1, Prio::Normal));
    assert_eq!(s.next_process(), Some(Term::Pid(1)));
    s.lookup_pid_mut(Term::Pid(1)).unwrap().set_exception((ExceptionType::Error, Term::Atom(7)));
    assert_eq!(s.next_process(), None);
    assert_eq!(s.get_process_count(), 0);
}

#[test]
fn caught_exception_continues_at_handler() {
    let mut s = Scheduler::new();
    let mut p = proc_(1, Prio::Normal);
    // a frame: a Y register holding a catch marker for offset 40, and the
    // return address on top
    p.heap.stack_push(Term::Nil);
    p.heap.stack_push(Term::Catch(40));
    p.heap.stack_push(Term::Small(5));
    p.heap.stack_push(Term::ReturnAddr(0, 12));
    p.heap.stack_push(Term::Small(6));
    p.num_catches = 1;
    s.register_new_process(Term::Pid(1), p);
    assert_eq!(s.next_process(), Some(Term::Pid(1)));
    s.lookup_pid_mut(Term::Pid(1)).unwrap().set_exception((ExceptionType::Throw, Term::Atom(3)));
    assert_eq!(s.next_process(), Some(Term::Pid(1)));
    let p = s.lookup_pid(Term::Pid(1)).unwrap();
    assert_eq!(p.context.ip, 40);
    assert_eq!(p.context.get_x(0), Term::NonValue);
    assert_eq!(p.context.get_x(1), ExceptionType::Throw.to_atom());
    assert_eq!(p.context.get_x(2), Term::Atom(3));
    assert_eq!(p.context.get_x(3), Term::Nil);
    // the words above the frame's return address are dropped
    assert_eq!(p.heap.stack, vec![Term::Nil, Term::Catch(40), Term::Small(5), Term::ReturnAddr(0, 12)]);
}

#[test]
fn waiting_process_wakes_on_message() {
    let mut s = Scheduler::new();
    s.register_new_process(Term::Pid(1), proc_(1, Prio::Normal));
    assert_eq!(s.next_process(), Some(Term::Pid(1)));
    s.lookup_pid_mut(Term::Pid(1)).unwrap().timeslice_result = SliceResult::Wait;
    assert_eq!(s.next_process(), None);
    assert_eq!(s.infinite_wait, vec![Term::Pid(1)]);
    let mut p = proc_(1, Prio::Normal);
    p.current_queue = erlangrt::process::Queue::InfiniteWait;
    s.notify_new_incoming_message(&mut p);
    assert!(s.infinite_wait.is_empty());
    assert_eq!(s.queue_normal.len(), 1);
}

#[test]
fn enqueue_wait_sets_have_no_duplicates() {
    let mut s = Scheduler::new();
    s.enqueue_wait(false, Term::Pid(4));
    s.enqueue_wait(false, Term::Pid(4));
    s.enqueue_wait(true, Term::Pid(5));
    assert_eq!(s.timed_wait, vec![Term::Pid(4)]);
    assert_eq!(s.infinite_wait, vec![Term::Pid(5)]);
}

#[test]
fn atom_interning_is_stable() {
    let mut t = AtomTable::new();
    let a = t.intern(b"ok");
    let b = t.intern(b"error");
    let a2 = t.intern(b"ok");
    assert_eq!(a, Term::Atom(0));
    assert_eq!(b, Term::Atom(1));
    assert_eq!(a2, a);
    assert_eq!(t.len(), 2);
    assert_eq!(t.find(b"error"), Some(1));
    assert_eq!(t.find(b"nope"), None);
}

#[test]
fn predefined_atoms() {
    let t = AtomTable::with_predefined();
    assert_eq!(t.len(), 16);
    assert_eq!(t.find(b"badarg"), Some(erlangrt::atoms::BADARG));
    assert_eq!(t.find(b"true"), Some(erlangrt::atoms::TRUE));
    assert_eq!(t.find(b"system_limit"), Some(erlangrt::atoms::SYSTEM_LIMIT));
}

#[test]
fn a_message_wakes_a_parked_process() {
    let mut s = Scheduler::new();
    s.register_new_process(Term::Pid(1), proc_(1, Prio::Normal));
    s.register_new_process(Term::Pid(2), proc_(2, Prio::High));
    assert_eq!(s.next_process(), Some(Term::Pid(2)));
    s.lookup_pid_mut(Term::Pid(2)).unwrap().timeslice_result = SliceResult::Wait;
    assert_eq!(s.next_process(), Some(Term::Pid(1)));
    assert_eq!(s.infinite_wait, vec![Term::Pid(2)]);
    let mut p = proc_(2, Prio::High);
    s.notify_new_incoming_message(&mut p);
    assert!(s.infinite_wait.is_empty());
    assert_eq!(s.queue_high.len(), 1);
    assert_eq!(s.queue_high[0], Term::Pid(2));
}

#[test]
fn a_message_to_a_running_process_queues_nothing() {
    let mut s = Scheduler::new();
    s.register_new_process(Term::Pid(1), proc_(1, Prio::Normal));
    let mut p = proc_(1, Prio::Normal);
    s.notify_new_incoming_message(&mut p);
    assert_eq!(s.queue_normal.len(), 1);
}
