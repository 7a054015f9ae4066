use ibx::protocol::tick_decoder::{
    decode_ticks_35p, read_hibit_str, read_vlq, vlq_signed, BitReader,
};

#[test]
fn bit_reader_basic() {
    let data = [0b1010_0011, 0b1100_0000];
    let mut r = BitReader::new(&data, 16);
    assert_eq!(r.read_unsigned(4), Some(0b1010));
    assert_eq!(r.read_unsigned(4), Some(0b0011));
    assert_eq!(r.read_unsigned(2), Some(0b11));
    assert_eq!(r.remaining(), 6);
}

#[test]
fn bit_reader_single_bits() {
    let data = [0b10110000];
    let mut r = BitReader::new(&data, 5);
    assert_eq!(r.read_unsigned(1), Some(1));
    assert_eq!(r.read_unsigned(1), Some(0));
    assert_eq!(r.read_unsigned(1), Some(1));
    assert_eq!(r.read_unsigned(1), Some(1));
    assert_eq!(r.read_unsigned(1), Some(0));
    assert_eq!(r.read_unsigned(1), None);
}

#[test]
fn bit_reader_overflow() {
    let data = [0xFF];
    let mut r = BitReader::new(&data, 8);
    assert_eq!(r.read_unsigned(9), None);
}

#[test]
fn vlq_single_byte() {
    let (val, n) = read_vlq(&[0x85], 0);
    assert_eq!(val, 5);
    assert_eq!(n, 1);
}

#[test]
fn vlq_two_bytes() {
    let (val, n) = read_vlq(&[0x01, 0x80], 0);
    assert_eq!(val, 128);
    assert_eq!(n, 2);
}

#[test]
fn vlq_signed_positive() {
    assert_eq!(vlq_signed(5, 1), 5);
    assert_eq!(vlq_signed(63, 1), 63);
}

#[test]
fn vlq_signed_negative() {
    assert_eq!(vlq_signed(64, 1), -64);
    assert_eq!(vlq_signed(127, 1), -1);
}

#[test]
fn vlq_signed_at_full_width() {
    assert_eq!(vlq_signed(1 << 62, 9), -(1 << 62));
    assert_eq!(vlq_signed(u64::MAX, 9), i64::MAX);
    assert_eq!(vlq_signed(1 << 63, 9), 0);
    assert_eq!(vlq_signed((1 << 62) - 1, 9), (1 << 62) - 1);
}

#[test]
fn hibit_str_simple() {
    let (s, n) = read_hibit_str(&[0x41, 0xC2], 0);
    assert_eq!(s, "AB");
    assert_eq!(n, 2);
}

#[test]
fn hibit_str_empty() {
    let (s, n) = read_hibit_str(&[0x80], 0);
    assert_eq!(s, "");
    assert_eq!(n, 1);
}

#[test]
fn hibit_str_single_char() {
    let (s, n) = read_hibit_str(&[0xD8], 0);
    assert_eq!(s, "X");
    assert_eq!(n, 1);
}

#[test]
fn decode_ticks_empty() {
    assert!(decode_ticks_35p(&[]).is_empty());
    assert!(decode_ticks_35p(&[0, 0]).is_empty());
}
