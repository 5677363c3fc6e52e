use erlangrt::atoms;
use erlangrt::big::{from_isize, isize_from};
use erlangrt::exc_type::ExceptionType;
use erlangrt::fail::RtErr;
use erlangrt::heap::{Heap, HeapObject};
use erlangrt::op_binary::{
    OpcodeBsAdd, OpcodeBsGetBinary2, OpcodeBsInit2, OpcodeBsPutBinary, OpcodeBsPutInteger, OpcodeBsStartMatch3,
    OpcodeBsTestTail2, SizeOrAll,
};
use erlangrt::opcodes::DispatchResult;
use erlangrt::process::{Prio, Process};
use erlangrt::term::Term;

fn bignum(h: &Heap, i: usize) -> (bool, Vec<u8>) {
    match &h.objects[i] {
        HeapObject::Bignum(b) => (b.negative, b.digits.clone()),
        _ => panic!("expected a bignum"),
    }
}

fn bits_of(h: &Heap, i: usize) -> Vec<bool> {
    match &h.objects[i] {
        HeapObject::Binary(b) => b.clone(),
        _ => panic!("expected a binary"),
    }
}

fn byte_bits(bytes: &[u8]) -> Vec<bool> {
    let mut v = Vec::new();
    for b in bytes {
        for k in (0..8).rev() {
            v.push((b >> k) & 1 == 1);
        }
    }
    v
}

fn new_proc() -> Process {
    Process::new(Term::Pid(1), Prio::Normal, 0, 0)
}

#[test]
fn bignum_from_isize() {
    let mut h = Heap::new();
    assert_eq!(from_isize(&mut h, -1125).unwrap(), Term::Boxed(0));
    assert_eq!(bignum(&h, 0), (true, vec![101, 4]));
    assert_eq!(from_isize(&mut h, 0).unwrap(), Term::Boxed(1));
    assert_eq!(bignum(&h, 1), (false, vec![0]));
    from_isize(&mut h, 256).unwrap();
    assert_eq!(bignum(&h, 2), (false, vec![0, 1]));
    from_isize(&mut h, isize::MIN).unwrap();
    let (neg, d) = bignum(&h, 3);
    assert!(neg);
    assert_eq!(d.len(), std::mem::size_of::<isize>());
    assert_eq!(*d.last().unwrap(), 0x80);
}

#[test]
fn small_to_isize() {
    assert_eq!(isize_from(Term::Small(-7)), Some(-7));
    assert_eq!(isize_from(Term::Small(0)), Some(0));
}

#[test]
fn build_a_binary() {
    let mut p = new_proc();
    let mut ctx = std::mem::replace(&mut p.context, erlangrt::process::Context::new(0, 0));
    let r = OpcodeBsInit2::bs_init2(&mut ctx, &mut p, Term::Nil, 3, 0, 0, 0, Term::RegX(0));
    assert_eq!(r.unwrap(), DispatchResult::Normal);
    assert_eq!(ctx.get_x(0), Term::Boxed(0));
    assert_eq!(ctx.current_bin, Some((0, 0)));
    assert_eq!(bits_of(&p.heap, 0), vec![false; 24]);

    // 0x0102 in 16 bits, most significant first
    OpcodeBsPutInteger::bs_put_integer(&mut ctx, &mut p, Term::Nil, 16, 1, 0, Term::Small(0x0102)).unwrap();
    assert_eq!(ctx.current_bin, Some((0, 16)));
    // -1 in 4 bits
    OpcodeBsPutInteger::bs_put_integer(&mut ctx, &mut p, Term::Nil, 4, 1, 0, Term::Small(-1)).unwrap();
    assert_eq!(bits_of(&p.heap, 0), byte_bits(&[0x01, 0x02, 0xf0]));
    // no room for 8 more bits
    let r = OpcodeBsPutInteger::bs_put_integer(&mut ctx, &mut p, Term::Nil, 8, 1, 0, Term::Small(1));
    assert!(matches!(r, Err(RtErr::BinaryDestinationTooSmall)));
    // not an integer
    let r = OpcodeBsPutInteger::bs_put_integer(&mut ctx, &mut p, Term::Nil, 4, 1, 0, Term::Nil);
    assert!(matches!(r, Err(RtErr::Exception(ExceptionType::Error, Term::Atom(atoms::BADARG)))));
}

#[test]
fn little_endian_integer() {
    let mut p = new_proc();
    let mut ctx = erlangrt::process::Context::new(0, 0);
    OpcodeBsInit2::bs_init2(&mut ctx, &mut p, Term::Nil, 2, 0, 0, 0, Term::RegX(0)).unwrap();
    OpcodeBsPutInteger::bs_put_integer(&mut ctx, &mut p, Term::Nil, 16, 1, 2, Term::Small(0x0102)).unwrap();
    assert_eq!(bits_of(&p.heap, 0), byte_bits(&[0x02, 0x01]));
}

#[test]
fn empty_and_too_big_binaries() {
    let mut p = new_proc();
    let mut ctx = erlangrt::process::Context::new(0, 0);
    OpcodeBsInit2::bs_init2(&mut ctx, &mut p, Term::Nil, 0, 0, 0, 0, Term::RegX(1)).unwrap();
    assert_eq!(ctx.get_x(1), Term::EmptyBinary);
    assert!(p.heap.objects.is_empty());
    let r = OpcodeBsInit2::bs_init2(&mut ctx, &mut p, Term::Cp(3), usize::MAX, 0, 0, 0, Term::RegX(1));
    assert!(matches!(r, Err(RtErr::Exception(ExceptionType::Error, Term::Atom(atoms::SYSTEM_LIMIT)))));
}

#[test]
fn put_binary_copies_bits() {
    let mut p = new_proc();
    let mut ctx = erlangrt::process::Context::new(0, 0);
    p.heap.allocate(HeapObject::Binary(byte_bits(&[0xab]))).unwrap();
    OpcodeBsInit2::bs_init2(&mut ctx, &mut p, Term::Nil, 2, 0, 0, 0, Term::RegX(0)).unwrap();
    assert_eq!(ctx.current_bin, Some((1, 0)));
    OpcodeBsPutBinary::bs_put_binary(&mut ctx, &mut p, Term::Cp(9), Term::Atom(atoms::ALL), 1, 0, Term::Boxed(0)).unwrap();
    OpcodeBsPutBinary::bs_put_binary(&mut ctx, &mut p, Term::Cp(9), Term::Small(4), 1, 0, Term::Boxed(0)).unwrap();
    assert_eq!(ctx.current_bin, Some((1, 12)));
    assert_eq!(bits_of(&p.heap, 1), byte_bits(&[0xab, 0xa0]));
    // 8 more bits do not fit: continue at the fail label
    ctx.ip = 100;
    OpcodeBsPutBinary::bs_put_binary(&mut ctx, &mut p, Term::Cp(9), Term::Atom(atoms::ALL), 1, 0, Term::Boxed(0)).unwrap();
    assert_eq!(ctx.ip, 9);
    assert_eq!(ctx.current_bin, Some((1, 12)));
    // without a fail label it is an error
    let r = OpcodeBsPutBinary::bs_put_binary(&mut ctx, &mut p, Term::Nil, Term::Atom(atoms::ALL), 1, 0, Term::Boxed(0));
    assert!(matches!(r, Err(RtErr::BinaryDestinationTooSmall)));
    // more bits than the source has
    let r = OpcodeBsPutBinary::bs_put_binary(&mut ctx, &mut p, Term::Nil, Term::Small(9), 1, 0, Term::Boxed(0));
    assert!(r.is_err());
    assert_eq!(OpcodeBsPutBinary::get_size_or_all(Term::Atom(atoms::ALL)), SizeOrAll::All);
    assert_eq!(OpcodeBsPutBinary::get_size_or_all(Term::Small(5)), SizeOrAll::Bits(5));
}

#[test]
fn match_a_binary() {
    let mut p = new_proc();
    let mut ctx = erlangrt::process::Context::new(0, 0);
    p.heap.allocate(HeapObject::Binary(byte_bits(&[0x12, 0x34]))).unwrap();
    // not a binary: continue at the fail label
    OpcodeBsStartMatch3::bs_start_match_3(&mut ctx, &mut p, Term::Cp(7), Term::Small(1), 0, Term::RegX(0)).unwrap();
    assert_eq!(ctx.ip, 7);
    ctx.ip = 0;
    OpcodeBsStartMatch3::bs_start_match_3(&mut ctx, &mut p, Term::Cp(7), Term::Boxed(0), 0, Term::RegX(0)).unwrap();
    assert_eq!(ctx.ip, 0);
    assert_eq!(ctx.get_x(0), Term::Boxed(1));
    assert!(matches!(p.heap.objects[1], HeapObject::MatchState(0, 0)));
    // take 12 bits as a part of the binary
    OpcodeBsGetBinary2::bs_get_binary2_7(&mut ctx, &mut p, Term::Cp(7), Term::Boxed(1), 2, 3, 4, Term::Nil, Term::RegX(1))
        .unwrap();
    assert_eq!(ctx.get_x(1), Term::Boxed(2));
    assert_eq!(ctx.live, 2);
    assert!(matches!(p.heap.objects[2], HeapObject::BinarySlice(0, 0, 12)));
    assert!(matches!(p.heap.objects[1], HeapObject::MatchState(0, 12)));
    // 4 bits are left
    OpcodeBsTestTail2::bs_test_tail2(&mut ctx, &p, Term::Cp(7), Term::Boxed(1), 4).unwrap();
    assert_eq!(ctx.ip, 0);
    OpcodeBsTestTail2::bs_test_tail2(&mut ctx, &p, Term::Cp(7), Term::Boxed(1), 0).unwrap();
    assert_eq!(ctx.ip, 7);
    // zero bits give the empty binary
    OpcodeBsGetBinary2::bs_get_binary2_7(&mut ctx, &mut p, Term::Cp(7), Term::Boxed(1), 2, 0, 8, Term::Nil, Term::RegX(3))
        .unwrap();
    assert_eq!(ctx.get_x(3), Term::EmptyBinary);
    // starting again resets the match state
    OpcodeBsStartMatch3::bs_start_match_3(&mut ctx, &mut p, Term::Cp(7), Term::Boxed(1), 0, Term::RegX(4)).unwrap();
    assert!(matches!(p.heap.objects[1], HeapObject::MatchState(0, 0)));
    assert_eq!(ctx.get_x(4), Term::Boxed(1));
}

#[test]
fn bs_add_stores_its_second_value() {
    let mut p = new_proc();
    let mut ctx = erlangrt::process::Context::new(0, 0);
    OpcodeBsAdd::bs_add(&mut ctx, &mut p, Term::Nil, Term::Small(9), 1, Term::RegX(2)).unwrap();
    assert_eq!(ctx.get_x(2), Term::Small(9));
    let r = OpcodeBsAdd::bs_add(&mut ctx, &mut p, Term::Nil, Term::Small(9), 1, Term::RegY(0));
    assert!(r.is_err());
}
