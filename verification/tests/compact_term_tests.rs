use erlangrt::bin_reader::BinaryReader;
use erlangrt::compact_term::CompactTermReader;
use erlangrt::fail::{CompactTermError, ReadError, RtErr};
use erlangrt::heap::{Heap, HeapObject};
use erlangrt::term::{LoadtimeTag, Term};

fn decode(bytes: &[u8]) -> (Result<Term, RtErr>, Heap, usize) {
    let mut heap = Heap::new();
    let mut reader = BinaryReader::from_bytes(bytes.to_vec());
    let mut ct = CompactTermReader::new();
    let r = ct.read(&mut heap, &mut reader);
    let pos = reader.pos();
    (r, heap, pos)
}

#[test]
fn small_values_in_one_byte() {
    assert_eq!(decode(&[0x13]).0.unwrap(), Term::RegX(1));
    assert_eq!(decode(&[0x34]).0.unwrap(), Term::RegY(3));
    assert_eq!(decode(&[0x51]).0.unwrap(), Term::Small(5));
    assert_eq!(decode(&[0x15]).0.unwrap(), Term::Loadtime(LoadtimeTag::Label, 1));
    assert_eq!(decode(&[0x22]).0.unwrap(), Term::Loadtime(LoadtimeTag::Atom, 2));
    assert_eq!(decode(&[0x70]).0.unwrap(), Term::Small(7));
    assert_eq!(decode(&[0x46]).0.unwrap(), Term::Small(4));
}

#[test]
fn atom_zero_is_nil() {
    let (r, _, pos) = decode(&[0x02, 0xff]);
    assert_eq!(r.unwrap(), Term::Nil);
    assert_eq!(pos, 1);
}

#[test]
fn two_byte_value() {
    // 300 = 0b001_0010_1100: top bits 0x20 in the first byte, low byte 0x2c
    let (r, _, pos) = decode(&[0x29, 0x2c]);
    assert_eq!(r.unwrap(), Term::Small(300));
    assert_eq!(pos, 2);
}

#[test]
fn multi_byte_value_least_significant_first() {
    let (r, _, pos) = decode(&[0x19, 0x34, 0x12]);
    assert_eq!(r.unwrap(), Term::Small(0x1234));
    assert_eq!(pos, 3);
}

#[test]
fn long_value_becomes_bignum() {
    // (b >> 5) + 2 == 8 bytes: a big integer on the heap
    let (r, heap, pos) = decode(&[0xd9, 1, 2, 3, 4, 5, 6, 7, 8]);
    assert_eq!(r.unwrap(), Term::Boxed(0));
    assert_eq!(pos, 9);
    match &heap.objects[0] {
        HeapObject::Bignum(b) => {
            assert!(!b.negative);
            assert_eq!(b.digits, vec![1, 2, 3, 4, 5, 6, 7, 8]);
        }
        _ => panic!("expected a bignum"),
    }
}

#[test]
fn negative_atom_index_is_refused() {
    let (r, _, _) = decode(&[0x1a, 0x80, 0x00]);
    assert!(matches!(r, Err(RtErr::CodeLoadingCompactTerm(CompactTermError::BadAtomTag))));
}

#[test]
fn negative_register_and_label_are_refused() {
    assert!(matches!(decode(&[0x1b, 0x80, 0x00]).0, Err(RtErr::CodeLoadingCompactTerm(CompactTermError::BadXRegTag))));
    assert!(matches!(decode(&[0x1c, 0x80, 0x00]).0, Err(RtErr::CodeLoadingCompactTerm(CompactTermError::BadYRegTag))));
    assert!(matches!(decode(&[0x1d, 0x80, 0x00]).0, Err(RtErr::CodeLoadingCompactTerm(CompactTermError::BadLabelTag))));
}

#[test]
fn empty_input_is_a_read_error() {
    assert!(matches!(decode(&[]).0, Err(RtErr::ReadError(ReadError::PrematureEOF))));
    assert!(matches!(decode(&[0x29]).0, Err(RtErr::ReadError(ReadError::PrematureEOF))));
}

#[test]
fn extended_literal_and_float_register() {
    assert_eq!(decode(&[0x47, 0x30]).0.unwrap(), Term::Loadtime(LoadtimeTag::Literal, 3));
    assert_eq!(decode(&[0x27, 0x20]).0.unwrap(), Term::RegFp(2));
}

#[test]
fn unknown_extended_tag_is_refused() {
    let (r, _, _) = decode(&[0x57]);
    match r {
        Err(RtErr::CodeLoadingCompactTerm(CompactTermError::BadExtendedTag(msg))) => assert_eq!(msg, "Ext tag 87 unknown"),
        _ => panic!("expected a bad extended tag"),
    }
}

#[test]
fn extended_list_as_jump_table() {
    // list of 4 elements: (value 1, label 2), (value 3, label 4)
    let (r, heap, pos) = decode(&[0x17, 0x40, 0x11, 0x25, 0x31, 0x45]);
    assert_eq!(r.unwrap(), Term::Boxed(0));
    assert_eq!(pos, 6);
    match &heap.objects[0] {
        HeapObject::JumpTable(v) => assert_eq!(
            v,
            &vec![
                Term::Small(1),
                Term::Loadtime(LoadtimeTag::Label, 2),
                Term::Small(3),
                Term::Loadtime(LoadtimeTag::Label, 4)
            ]
        ),
        _ => panic!("expected a jump table"),
    }
}

#[test]
fn extended_list_as_tuple_initializer() {
    let mut heap = Heap::new();
    let mut reader = BinaryReader::from_bytes(vec![0x17, 0x30, 0x13, 0x22, 0x51]);
    let mut ct = CompactTermReader::new();
    ct.on_ext_list_create_jumptable(false);
    let r = ct.read(&mut heap, &mut reader);
    assert_eq!(r.unwrap(), Term::Boxed(0));
    match &heap.objects[0] {
        HeapObject::Tuple(v) => assert_eq!(v, &vec![Term::RegX(1), Term::Loadtime(LoadtimeTag::Atom, 2), Term::Small(5)]),
        _ => panic!("expected a tuple"),
    }
}
