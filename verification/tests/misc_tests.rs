use erlangrt::bin_reader::BinaryReader;
use erlangrt::bitsize::BitSize;
use erlangrt::data_reader::{BitDataPointer, BitReader, ByteReader, TDataReader};
use erlangrt::defs::pointer_diff;
use erlangrt::exc_type::ExceptionType;
use erlangrt::fail::ReadError;
use erlangrt::opcodes::{DispatchResult, OpcodeReturn};
use erlangrt::process::{Context, Prio, Process};
use erlangrt::sizes::{ByteSize, SizeBytes, WordSize};
use erlangrt::term::Term;

#[test]
fn exception_type_names() {
    assert_eq!(ExceptionType::Exit.to_display_string(), "<exit>");
    assert_eq!(ExceptionType::Throw.to_display_string(), "<throw>");
    assert_eq!(ExceptionType::Error.to_display_string(), "<error>");
    assert_eq!(ExceptionType::Panic.to_display_string(), "<panic>");
    assert_eq!(ExceptionType::Error.to_atom(), Term::Atom(erlangrt::atoms::ERROR));
}

#[test]
fn return_continues_at_saved_location() {
    let mut p = Process::new(Term::Pid(0), Prio::Normal, 0, 0);
    let mut ctx = Context::new(1, 5);
    ctx.cp = Some((3, 9));
    assert_eq!(OpcodeReturn::return_opcode(&mut ctx, &mut p).unwrap(), DispatchResult::Normal);
    assert_eq!((ctx.module, ctx.ip, ctx.cp), (3, 9, None));
    assert_eq!(OpcodeReturn::return_opcode(&mut ctx, &mut p).unwrap(), DispatchResult::Finished);
}

#[test]
fn process_exception_state() {
    let mut p = Process::new(Term::Pid(0), Prio::Normal, 0, 0);
    assert!(!p.is_failed());
    p.set_exception((ExceptionType::Exit, Term::Nil));
    assert!(p.is_failed());
    p.clear_exception();
    assert!(!p.is_failed());
}

#[test]
fn byte_and_word_sizes() {
    let mut b = SizeBytes::zero();
    b.add(5);
    b.add_bytesize(SizeBytes::one());
    assert_eq!(b.bytes(), 6);
    assert_eq!(ByteSize::new(17).words_rounded_down().words(), 2);
    assert_eq!(ByteSize::new(17).words_rounded_up().words(), 3);
    assert_eq!(ByteSize::new(16).words_rounded_up().words(), 2);
    assert_eq!(WordSize::new(2).add(1).bytes(), 24);
    assert_eq!(BitSize::with_bytesize(ByteSize::new(3)).bits, 24);
    assert_eq!(BitSize::with_bits(16).get_words_rounded_up().words(), 1);
    assert_eq!(BitSize::with_bits(72).get_words_rounded_up().words(), 2);
}

#[test]
fn rounding_laws_on_values() {
    for bits in [0usize, 1, 7, 8, 9, 63, 64, 65] {
        let b = BitSize::with_bits(bits);
        let down = b.get_bytes_rounded_down();
        let up = b.get_byte_size_rounded_up().bytes();
        assert_eq!(down * 8 + b.get_last_byte_bits(), bits);
        assert_eq!(up, if bits % 8 == 0 { down } else { down + 1 });
        assert!(up * 8 >= bits);
    }
    for n in [0usize, 1, 2, 100] {
        assert_eq!(BitSize::with_bytes(n).get_byte_size_rounded_up().bytes(), n);
    }
    for bytes in [0usize, 1, 8, 9, 15, 16] {
        let s = SizeBytes::new(bytes);
        let down = s.get_words_rounded_down().words;
        let up = s.get_words_rounded_up().words;
        assert!(down * 8 <= bytes && up * 8 >= bytes);
        assert_eq!(up, if bytes % 8 == 0 { down } else { down + 1 });
    }
}

#[test]
fn pointer_distance_in_elements() {
    assert_eq!(pointer_diff::<u64>(0x1010, 0x1000), 2);
    assert_eq!(pointer_diff::<u8>(7, 2), 5);
}

#[test]
fn binary_reader_positions() {
    let mut r = BinaryReader::from_bytes(vec![1, 2, 3, 4, 5, 6]);
    assert_eq!(r.read_u16be().unwrap(), 0x0102);
    r.skip(1);
    assert_eq!(r.read_u8().unwrap(), 4);
    r.seek(1);
    assert_eq!(r.read_u32be().unwrap(), 0x02030405);
    assert!(matches!(r.read_u32be(), Err(ReadError::PrematureEOF)));
    r.reset();
    assert_eq!(r.pos(), 0);
    assert_eq!(r.read_bytes(3).unwrap(), vec![1, 2, 3]);
    // a mismatch still moves past the bytes compared
    assert!(matches!(r.ensure_bytes(&[9]), Err(ReadError::UnexpectedBytes)));
    assert_eq!(r.pos(), 4);
    assert!(r.ensure_bytes(&[5]).is_ok());
    assert!(!r.eof());
    assert!(matches!(r.ensure_bytes(&[6, 7]), Err(ReadError::PrematureEOF)));
    r.skip(1);
    assert!(r.eof());
    let mut u = BinaryReader::from_bytes(vec![0xc5, 0x82, 0xff]);
    assert_eq!(u.read_str_utf8(2).unwrap(), vec![0xc5, 0x82]);
    assert!(matches!(u.read_str_utf8(1), Err(ReadError::BadUtf8)));
    let mut l = BinaryReader::from_bytes(vec![0xff]);
    assert_eq!(l.read_str_latin1(1).unwrap(), vec![0xff]);
}

#[test]
fn data_readers() {
    let p = BitDataPointer::new(vec![1, 2], BitSize::with_bits(3));
    assert_eq!(p.offset.bits, 3);
    let br = BitReader::new(vec![1, 2, 3], BitSize::with_bits(4));
    assert_eq!(br.get_bit_size().bits, 20);
    let br2 = br.add_bit_offset(BitSize::with_bits(4));
    assert_eq!(br2.get_bit_size().bits, 16);
    let r = ByteReader::new(&[1, 2, 3, 4, 5], 4);
    assert_eq!(r.data, vec![1, 2, 3, 4]);
    assert_eq!(r.get_bit_size().bits, 32);
    assert_eq!(r.read(2), 3);
    let r2 = r.set_offset_and_size(SizeBytes::new(1), SizeBytes::new(10));
    assert_eq!(r2.data, vec![2, 3, 4]);
}
