use erlangrt::bitsize::BitSize;
use erlangrt::sizes::{SizeBytes, SizeWords};

#[test]
fn size_words_to_bytes() {
    assert_eq!(SizeWords::new(3).bytes(), 24);
    assert_eq!(SizeWords::one().add(2).words, 3);
    assert_eq!(SizeWords::zero().words, 0);
}

#[test]
fn size_bytes_rounding() {
    let b = SizeBytes::new(9);
    assert_eq!(b.get_words_rounded_down().words, 1);
    assert_eq!(b.get_words_rounded_up().words, 2);
    assert_eq!(SizeBytes::new(16).get_words_rounded_up().words, 2);
    assert_eq!(SizeBytes::new(3).get_bits().bits, 24);
}

#[test]
fn bitsize_byte_rounding() {
    let b = BitSize::with_bits(19);
    assert_eq!(b.get_byte_size_rounded_down().bytes(), 2);
    assert_eq!(b.get_byte_size_rounded_up().bytes(), 3);
    assert_eq!(b.get_last_byte_bits(), 3);
    assert!(BitSize::zero().is_empty());
    assert_eq!(BitSize::with_unit(3, 8).bits, 24);
}
