use tiny_mp3_player::bitstream::{Binary, BitReader, BitStream, BitStreamErrorType};

#[test]
fn reads_nibbles_and_bytes_across_byte_boundaries() {
    let data: Vec<u8> = vec![0xAB, 0xCD];
    let mut bs = BitStream::new(&data);
    assert_eq!(bs.read(4), Ok(0xA));
    assert_eq!(bs.read(8), Ok(0xBC));
    assert_eq!(bs.read(4), Ok(0xD));
    assert_eq!(bs.get_bit_offset(), 16);
    assert_eq!(bs.read(1), Err(BitStreamErrorType::Empty));
}

#[test]
fn reading_no_bits_gives_zero_and_stays() {
    let data: Vec<u8> = vec![0xFF];
    let mut bs = BitStream::new(&data);
    assert_eq!(bs.read(0), Ok(0));
    assert_eq!(bs.get_bit_offset(), 0);
    let empty: Vec<u8> = Vec::new();
    let mut none = BitStream::new(&empty);
    assert_eq!(none.read(0), Ok(0));
    assert_eq!(none.try_read(0), Ok(0));
    assert_eq!(none.read(1), Err(BitStreamErrorType::Empty));
}

#[test]
fn peek_equals_read_for_every_width_up_to_24() {
    let data: Vec<u8> = vec![0x12, 0x34, 0x56, 0x78, 0x9A, 0xBC, 0xDE, 0xF0];
    for start in 0..16usize {
        for n in 0..=24usize {
            let mut bs = BitStream::new(&data);
            assert_eq!(bs.set_bit_offset(start), Ok(()));
            let peeked = bs.try_read(n);
            assert_eq!(bs.get_bit_offset(), start);
            let read = bs.read(n);
            assert_eq!(peeked, read);
            assert_eq!(bs.get_bit_offset(), start + n);
        }
    }
}

#[test]
fn consecutive_reads_are_the_halves_of_one_read() {
    let data: Vec<u8> = vec![0xDE, 0xAD, 0xBE, 0xEF, 0x01, 0x23];
    for start in 0..9usize {
        for n1 in 0..=16usize {
            for n2 in 0..=16usize {
                let mut whole = BitStream::new(&data);
                whole.set_bit_offset(start).unwrap();
                let value = whole.read(n1 + n2).unwrap();
                let mut parts = BitStream::new(&data);
                parts.set_bit_offset(start).unwrap();
                let high = parts.read(n1).unwrap();
                let low = parts.read(n2).unwrap();
                assert_eq!(value, (high << n2) | low);
                assert_eq!(whole.get_bit_offset(), parts.get_bit_offset());
            }
        }
    }
}

#[test]
fn reads_thirty_two_bits_at_once() {
    let data: Vec<u8> = vec![0x80, 0x00, 0x00, 0x01, 0xFF];
    let mut bs = BitStream::new(&data);
    assert_eq!(bs.try_read(32), Ok(0x8000_0001));
    assert_eq!(bs.read(1), Ok(1));
    assert_eq!(bs.read(32), Ok(0x0000_0003));
    assert_eq!(bs.get_bit_offset(), 33);
}

#[test]
fn a_failed_read_leaves_the_cursor() {
    let data: Vec<u8> = vec![0xF0, 0x0F];
    let mut bs = BitStream::new(&data);
    assert_eq!(bs.read(12), Ok(0xF00));
    assert_eq!(bs.read(5), Err(BitStreamErrorType::Empty));
    assert_eq!(bs.try_read(5), Err(BitStreamErrorType::Empty));
    assert_eq!(bs.get_bit_offset(), 12);
    assert_eq!(bs.read(4), Ok(0xF));
}

#[test]
fn align_byte_moves_to_the_next_boundary_only_when_off_it() {
    let data: Vec<u8> = vec![0x00, 0xFF, 0x00];
    let mut bs = BitStream::new(&data);
    bs.align_byte();
    assert_eq!(bs.get_bit_offset(), 0);
    bs.read(3).unwrap();
    bs.align_byte();
    assert_eq!(bs.get_bit_offset(), 8);
    bs.align_byte();
    assert_eq!(bs.get_bit_offset(), 8);
    assert_eq!(bs.read(8), Ok(0xFF));
    bs.read(7).unwrap();
    bs.align_byte();
    assert_eq!(bs.get_bit_offset(), 24);
}

#[test]
fn has_bits_tells_what_is_left() {
    let data: Vec<u8> = vec![1, 2, 3];
    let mut bs = BitStream::new(&data);
    assert!(bs.has_bits(0));
    assert!(bs.has_bits(24));
    assert!(!bs.has_bits(25));
    assert!(!bs.has_bits(usize::MAX));
    bs.read(20).unwrap();
    assert!(bs.has_bits(4));
    assert!(!bs.has_bits(5));
}

#[test]
fn set_bit_offset_accepts_the_end_and_refuses_beyond() {
    let data: Vec<u8> = vec![0xAA, 0x55];
    let mut bs = BitStream::new(&data);
    assert_eq!(bs.set_bit_offset(16), Ok(()));
    assert_eq!(bs.get_bit_offset(), 16);
    assert_eq!(bs.set_bit_offset(17), Err(BitStreamErrorType::Empty));
    assert_eq!(bs.get_bit_offset(), 16);
    assert_eq!(bs.set_bit_offset(9), Ok(()));
    assert_eq!(bs.read(7), Ok(0x55));
    assert_eq!(bs.set_bit_offset(0), Ok(()));
    assert_eq!(bs.read(8), Ok(0xAA));
}

#[test]
fn a_vector_serves_its_bytes_and_fails_behind_them() {
    let data: Vec<u8> = vec![7, 8, 9];
    assert_eq!(data.read_byte(0), Ok(7));
    assert_eq!(data.read_byte(2), Ok(9));
    assert_eq!(data.read_byte(3), Err(BitStreamErrorType::Empty));
    assert_eq!(data.remove_byte(1), Ok(8));
    assert_eq!(data.remove_byte(usize::MAX), Err(BitStreamErrorType::Empty));
    let empty: Vec<u8> = Vec::new();
    assert_eq!(empty.read_byte(0), Err(BitStreamErrorType::Empty));
}

#[test]
fn binary_pushes_bits_at_the_low_end() {
    let mut code = Binary::new(0, 0);
    code.push_bit(1);
    code.push_bit(0);
    code.push_bit(3);
    assert_eq!(code.get_value(), 0b101);
    assert_eq!(code.bit_length, 3);
    assert_eq!(code, Binary::new(5, 3));
    assert_ne!(code, Binary::new(5, 4));
    assert_ne!(code, Binary::new(4, 3));
}

#[test]
fn binary_loses_the_bit_shifted_out_at_the_top() {
    let mut code = Binary::new(usize::MAX, 7);
    code.push_bit(0);
    assert_eq!(code.get_value(), usize::MAX - 1);
    assert_eq!(code.bit_length, 8);
}
