use tiny_mp3_player::bitstream::{Binary, BitStream, BitStreamErrorType};
use tiny_mp3_player::huffman::decode_huffman;
use tiny_mp3_player::huffman::tables::{HuffmanTables, PairTable};
use tiny_mp3_player::mpeg_frame::types::Channel;
use tiny_mp3_player::mpeg_frame::{parse_header, MpegHeader};

fn bits_to_bytes(bits: &str) -> Vec<u8> {
    let mut bytes = Vec::new();
    let mut byte = 0u8;
    let mut count = 0;
    for c in bits.chars() {
        if c != '0' && c != '1' {
            continue;
        }
        byte = (byte << 1) | (c == '1') as u8;
        count += 1;
        if count == 8 {
            bytes.push(byte);
            byte = 0;
            count = 0;
        }
    }
    if count > 0 {
        bytes.push(byte << (8 - count));
    }
    bytes
}

fn code(bits: &str) -> Binary {
    let mut value = 0usize;
    for c in bits.chars() {
        value = (value << 1) | (c == '1') as usize;
    }
    Binary::new(value, bits.len())
}

fn codes(words: &[&str]) -> Vec<Binary> {
    words.iter().map(|w| code(w)).collect()
}

fn empty_table() -> PairTable {
    PairTable { size: 0, linbits: 0, codes: Vec::new() }
}

/// Book 1 codes the pairs (0,0), (0,1), (1,0), (1,1).  Book 2 has three values
/// per line.  Book 16 is book 1 with four bits of extension.
fn test_tables() -> HuffmanTables {
    let mut pairs: Vec<PairTable> = Vec::new();
    for number in 0..32 {
        pairs.push(match number {
            1 => PairTable { size: 2, linbits: 0, codes: codes(&["1", "001", "01", "000"]) },
            2 => PairTable {
                size: 3,
                linbits: 0,
                codes: codes(&[
                    "1", "010", "000001", "011", "001", "00001", "00011", "00010", "000000",
                ]),
            },
            16 => PairTable { size: 2, linbits: 4, codes: codes(&["1", "001", "01", "000"]) },
            _ => empty_table(),
        });
    }
    let quad_a = codes(&[
        "1", "0101", "0100", "00101", "0110", "000101", "00100", "000100", "0111", "00011",
        "00110", "000000", "00111", "000010", "000011", "000001",
    ]);
    let quad_b: Vec<Binary> = (0..16).map(|bits| Binary::new(15 - bits, 4)).collect();
    HuffmanTables::new(pairs, quad_a, quad_b).unwrap()
}

fn header_44100() -> MpegHeader {
    parse_header(&[0xFF, 0xFB, 0x90, 0x00]).unwrap()
}

fn long_channel(big_values: usize, tables: [usize; 3], select: usize) -> Channel {
    let mut channel = Channel::new();
    channel.big_values = big_values;
    channel.table_select = tables;
    channel.region_address1 = 0;
    channel.region_address2 = 0;
    channel.count1table_select = select;
    channel
}

#[test]
fn big_values_are_pairs_with_signs() {
    let tables = test_tables();
    // (1,0) negative; (0,1) positive; (1,1) negative, positive; (0,0)
    let data = bits_to_bytes("01 1  001 0  000 1 0  1");
    let mut bs = BitStream::new(&data);
    let channel = long_channel(4, [1, 1, 1], 0);
    let mut samples = [7i32; 576];
    let r = decode_huffman(&mut bs, &tables, &header_44100(), &channel, &mut samples, 0);
    assert_eq!(r, Ok(()));
    assert_eq!(&samples[0..8], &[-1, 0, 0, 1, -1, 1, 0, 0]);
    assert!(samples[8..].iter().all(|&s| s == 0));
    assert_eq!(bs.get_bit_offset(), 3 + 4 + 5 + 1);
}

#[test]
fn the_code_book_changes_with_the_region() {
    let tables = test_tables();
    // regions begin at lines 4 and 8: pairs 0 and 1 use the first book, pairs 2 and 3 the
    // second, pair 4 the third
    let data = bits_to_bytes("01 0  1   00010 1 0  011 1  001 1");
    let mut bs = BitStream::new(&data);
    let channel = long_channel(5, [1, 2, 1], 0);
    let mut samples = [0i32; 576];
    let r = decode_huffman(&mut bs, &tables, &header_44100(), &channel, &mut samples, 0);
    assert_eq!(r, Ok(()));
    assert_eq!(&samples[0..10], &[1, 0, 0, 0, -2, 1, -1, 0, 0, -1]);
    assert_eq!(bs.get_bit_offset(), 3 + 1 + 7 + 4 + 4);
}

#[test]
fn book_zero_codes_nothing() {
    let tables = test_tables();
    let data = bits_to_bytes("01 1");
    let mut bs = BitStream::new(&data);
    // pairs 0 and 1 have book 0, pairs 2 and 3 an empty book, pair 4 book 1
    let channel = long_channel(5, [0, 3, 1], 0);
    let mut samples = [5i32; 576];
    let r = decode_huffman(&mut bs, &tables, &header_44100(), &channel, &mut samples, 0);
    assert_eq!(r, Ok(()));
    assert_eq!(&samples[0..10], &[0, 0, 0, 0, 0, 0, 0, 0, -1, 0]);
    assert_eq!(bs.get_bit_offset(), 3);
}

#[test]
fn the_top_value_is_extended_by_linbits() {
    let tables = test_tables();
    // (1,1): x = 1 + 0b1010 = 11, negative; y = 1 + 0 = 1, positive
    // (0,1): x = 0, no extension and no sign; y = 1 + 15 = 16, negative
    let data = bits_to_bytes("000 1010 1 0000 0   001 1111 1");
    let mut bs = BitStream::new(&data);
    let channel = long_channel(2, [16, 16, 16], 0);
    let mut samples = [0i32; 576];
    let r = decode_huffman(&mut bs, &tables, &header_44100(), &channel, &mut samples, 0);
    assert_eq!(r, Ok(()));
    assert_eq!(&samples[0..4], &[-11, 1, 0, -16]);
    assert_eq!(bs.get_bit_offset(), 13 + 8);
}

#[test]
fn short_blocks_have_fixed_regions() {
    let tables = test_tables();
    // 18 pairs of the first book, then the second
    let mut bits = String::new();
    for _ in 0..18 {
        bits.push_str("1");
    }
    bits.push_str("011 0");
    let data = bits_to_bytes(&bits);
    let mut bs = BitStream::new(&data);
    let mut channel = long_channel(19, [1, 2, 0], 0);
    channel.blocksplit_flag = 1;
    channel.block_type = 2;
    channel.region_address1 = 15;
    channel.region_address2 = 15;
    let mut samples = [0i32; 576];
    let r = decode_huffman(&mut bs, &tables, &header_44100(), &channel, &mut samples, 0);
    assert_eq!(r, Ok(()));
    assert!(samples[0..36].iter().all(|&s| s == 0));
    assert_eq!(&samples[36..38], &[1, 0]);
    assert_eq!(bs.get_bit_offset(), 22);
}

#[test]
fn quadruples_of_the_first_book_follow_the_big_values() {
    let tables = test_tables();
    // one pair, then the quadruples 0b1010 (signs - +), 0b0000, 0b0111 (signs + - -)
    let data = bits_to_bytes("1  00110 1 0  1  000100 0 1 1  1111");
    let mut bs = BitStream::new(&data);
    let channel = long_channel(1, [1, 1, 1], 0);
    let mut samples = [9i32; 576];
    let r = decode_huffman(&mut bs, &tables, &header_44100(), &channel, &mut samples, 18);
    assert_eq!(r, Ok(()));
    assert_eq!(&samples[0..14], &[0, 0, -1, 0, 1, 0, 0, 0, 0, 0, 0, 1, -1, -1]);
    assert!(samples[14..].iter().all(|&s| s == 0));
    assert_eq!(bs.get_bit_offset(), 18);
}

#[test]
fn quadruples_of_the_second_book_are_four_bits_inverted() {
    let tables = test_tables();
    // 0b0110 codes the quadruple 0b1001 (signs + -), 0b1111 codes 0b0000
    let data = bits_to_bytes("0110 0 1  1111  0000");
    let mut bs = BitStream::new(&data);
    let channel = long_channel(0, [0, 0, 0], 1);
    let mut samples = [0i32; 576];
    let r = decode_huffman(&mut bs, &tables, &header_44100(), &channel, &mut samples, 10);
    assert_eq!(r, Ok(()));
    assert_eq!(&samples[0..8], &[1, 0, 0, -1, 0, 0, 0, 0]);
    assert!(samples[8..].iter().all(|&s| s == 0));
    assert_eq!(bs.get_bit_offset(), 10);
}

#[test]
fn a_quadruple_may_run_over_the_end_of_the_granule_bits() {
    let tables = test_tables();
    let data = bits_to_bytes("0000 1 1 1 1");
    let mut bs = BitStream::new(&data);
    let channel = long_channel(0, [0, 0, 0], 1);
    let mut samples = [0i32; 576];
    let r = decode_huffman(&mut bs, &tables, &header_44100(), &channel, &mut samples, 1);
    assert_eq!(r, Ok(()));
    assert_eq!(&samples[0..5], &[-1, -1, -1, -1, 0]);
    assert_eq!(bs.get_bit_offset(), 8);
}

#[test]
fn no_quadruple_is_read_at_or_behind_the_end_of_the_granule_bits() {
    let tables = test_tables();
    let data = bits_to_bytes("01 1 0000 1111");
    let mut bs = BitStream::new(&data);
    let channel = long_channel(1, [1, 1, 1], 1);
    let mut samples = [3i32; 576];
    let r = decode_huffman(&mut bs, &tables, &header_44100(), &channel, &mut samples, 3);
    assert_eq!(r, Ok(()));
    assert_eq!(&samples[0..6], &[-1, 0, 0, 0, 0, 0]);
    assert_eq!(bs.get_bit_offset(), 3);
}

#[test]
fn the_last_four_lines_can_be_a_quadruple() {
    let tables = test_tables();
    // 286 pairs of zeros, then one quadruple for the lines 572 to 575
    let mut bits = String::new();
    for _ in 0..286 {
        bits.push('1');
    }
    bits.push_str("0000 0 0 1 0");
    bits.push_str("0000 1111");
    let data = bits_to_bytes(&bits);
    let mut bs = BitStream::new(&data);
    let channel = long_channel(286, [1, 1, 1], 1);
    let mut samples = [0i32; 576];
    let r = decode_huffman(&mut bs, &tables, &header_44100(), &channel, &mut samples, 4000);
    assert_eq!(r, Ok(()));
    assert_eq!(&samples[570..576], &[0, 0, 1, 1, -1, 1]);
    assert_eq!(bs.get_bit_offset(), 286 + 8);
}

#[test]
fn fewer_than_four_lines_left_are_zero() {
    let tables = test_tables();
    let mut bits = String::new();
    for _ in 0..287 {
        bits.push('1');
    }
    bits.push_str("0000 1111");
    let data = bits_to_bytes(&bits);
    let mut bs = BitStream::new(&data);
    let channel = long_channel(287, [1, 1, 1], 1);
    let mut samples = [1i32; 576];
    let r = decode_huffman(&mut bs, &tables, &header_44100(), &channel, &mut samples, 4000);
    assert_eq!(r, Ok(()));
    assert!(samples.iter().all(|&s| s == 0));
    assert_eq!(bs.get_bit_offset(), 287);
}

#[test]
fn a_granule_of_big_values_only() {
    let tables = test_tables();
    let mut bits = String::new();
    for _ in 0..288 {
        bits.push_str("000 1 0");
    }
    let data = bits_to_bytes(&bits);
    let mut bs = BitStream::new(&data);
    let channel = long_channel(288, [1, 1, 1], 0);
    let mut samples = [0i32; 576];
    let r = decode_huffman(&mut bs, &tables, &header_44100(), &channel, &mut samples, 4000);
    assert_eq!(r, Ok(()));
    for pair in 0..288 {
        assert_eq!(samples[2 * pair], -1);
        assert_eq!(samples[2 * pair + 1], 1);
    }
    assert_eq!(bs.get_bit_offset(), 288 * 5);
}

#[test]
fn more_big_values_than_lines_fail() {
    let tables = test_tables();
    let data: Vec<u8> = vec![0xFF; 100];
    let mut bs = BitStream::new(&data);
    bs.read(5).unwrap();
    let channel = long_channel(289, [1, 1, 1], 0);
    let mut samples = [4i32; 576];
    let r = decode_huffman(&mut bs, &tables, &header_44100(), &channel, &mut samples, 4000);
    assert_eq!(r, Err(BitStreamErrorType::Empty));
    assert!(samples.iter().all(|&s| s == 4));
    assert_eq!(bs.get_bit_offset(), 5);
}

#[test]
fn regions_beyond_the_band_table_fail() {
    let tables = test_tables();
    let data: Vec<u8> = vec![0xFF; 100];
    let mut bs = BitStream::new(&data);
    let mut channel = long_channel(1, [1, 1, 1], 0);
    channel.region_address1 = 15;
    channel.region_address2 = 6;
    let mut samples = [4i32; 576];
    let r = decode_huffman(&mut bs, &tables, &header_44100(), &channel, &mut samples, 4000);
    assert_eq!(r, Err(BitStreamErrorType::Empty));
    assert!(samples.iter().all(|&s| s == 4));
    channel.region_address2 = 5;
    let r = decode_huffman(&mut bs, &tables, &header_44100(), &channel, &mut samples, 0);
    assert_eq!(r, Ok(()));
}

#[test]
fn data_that_ends_early_fails_and_leaves_lines_and_cursor() {
    let tables = test_tables();
    // the second pair needs a sign that is not there
    let data = bits_to_bytes("1 1 1 1 1 1 01");
    assert_eq!(data.len(), 1);
    let mut bs = BitStream::new(&data);
    bs.read(4).unwrap();
    let channel = long_channel(3, [1, 1, 1], 0);
    let mut samples = [6i32; 576];
    let r = decode_huffman(&mut bs, &tables, &header_44100(), &channel, &mut samples, 4000);
    assert_eq!(r, Err(BitStreamErrorType::Empty));
    assert!(samples.iter().all(|&s| s == 6));
    assert_eq!(bs.get_bit_offset(), 4);
}

#[test]
fn a_code_word_longer_than_what_is_left_fails() {
    let tables = test_tables();
    // book 1 is searched in order: after "1" has failed to match, "001" needs three bits
    let data = bits_to_bytes("1111 1101");
    let mut bs = BitStream::new(&data);
    bs.read(6).unwrap();
    let channel = long_channel(1, [1, 1, 1], 0);
    let mut samples = [0i32; 576];
    let r = decode_huffman(&mut bs, &tables, &header_44100(), &channel, &mut samples, 0);
    assert_eq!(r, Err(BitStreamErrorType::Empty));
    assert_eq!(bs.get_bit_offset(), 6);
}

#[test]
fn the_first_word_that_matches_wins() {
    let mut pairs: Vec<PairTable> = (0..32).map(|_| empty_table()).collect();
    // the word of (0,1) begins with the word of (0,0), and the book has no word for "1"
    pairs[5] = PairTable { size: 2, linbits: 0, codes: codes(&["00", "001", "01", "000"]) };
    let quad_a = codes(&["1"; 16]);
    let quad_b: Vec<Binary> = (0..16).map(|bits| Binary::new(bits, 4)).collect();
    let tables = HuffmanTables::new(pairs, quad_a, quad_b).unwrap();
    let data = bits_to_bytes("001 01 1 111");
    let mut bs = BitStream::new(&data);
    let channel = long_channel(4, [5, 5, 5], 0);
    let mut samples = [8i32; 576];
    let r = decode_huffman(&mut bs, &tables, &header_44100(), &channel, &mut samples, 0);
    assert_eq!(r, Ok(()));
    // "00" is (0,0); then "1" matches nothing: no bit is used and the lines are 0, pair after
    // pair
    assert_eq!(&samples[0..8], &[0, 0, 0, 0, 0, 0, 0, 0]);
    assert_eq!(bs.get_bit_offset(), 2);
}

#[test]
fn code_books_are_checked() {
    let quad_a = || codes(&["1"; 16]);
    let quad_b = || -> Vec<Binary> { (0..16).map(|bits| Binary::new(bits, 4)).collect() };
    let pairs = |count: usize| -> Vec<PairTable> { (0..count).map(|_| empty_table()).collect() };
    assert!(HuffmanTables::new(pairs(32), quad_a(), quad_b()).is_some());
    assert!(HuffmanTables::new(pairs(31), quad_a(), quad_b()).is_none());
    assert!(HuffmanTables::new(pairs(33), quad_a(), quad_b()).is_none());
    assert!(HuffmanTables::new(pairs(32), codes(&["1"; 15]), quad_b()).is_none());
    assert!(HuffmanTables::new(pairs(32), quad_a(), quad_b()[1..].to_vec()).is_none());
    let mut wide = quad_b();
    wide[3] = Binary::new(16, 4);
    assert!(HuffmanTables::new(pairs(32), quad_a(), wide).is_none());
    let mut long = quad_a();
    long[15] = Binary::new(0, 33);
    assert!(HuffmanTables::new(pairs(32), long, quad_b()).is_none());
    let mut bad = pairs(32);
    bad[7] = PairTable { size: 2, linbits: 0, codes: codes(&["1", "01", "001"]) };
    assert!(HuffmanTables::new(bad, quad_a(), quad_b()).is_none());
}

#[test]
fn a_code_book_is_well_formed_within_its_limits() {
    let four = codes(&["1", "001", "01", "000"]);
    assert!(PairTable { size: 2, linbits: 13, codes: four.clone() }.is_wf());
    assert!(!PairTable { size: 2, linbits: 14, codes: four.clone() }.is_wf());
    assert!(!PairTable { size: 3, linbits: 0, codes: four.clone() }.is_wf());
    assert!(PairTable { size: 16, linbits: 0, codes: codes(&["1"; 256]) }.is_wf());
    assert!(!PairTable { size: 17, linbits: 0, codes: codes(&["1"; 289]) }.is_wf());
    let mut long = four;
    long[2] = Binary::new(1, 33);
    assert!(!PairTable { size: 2, linbits: 0, codes: long }.is_wf());
    assert!(empty_table().is_wf());
}

fn book_bytes(size: u8, linbits: u8, words: &[&str]) -> Vec<u8> {
    let mut bytes = vec![size, linbits];
    bytes.extend(code_bytes(words));
    bytes
}

fn code_bytes(words: &[&str]) -> Vec<u8> {
    let mut bytes = Vec::new();
    for w in words {
        let c = code(w);
        bytes.push(c.bit_length as u8);
        bytes.extend_from_slice(&(c.value as u32).to_be_bytes());
    }
    bytes
}

fn table_bytes() -> Vec<u8> {
    let mut bytes = Vec::new();
    for number in 0..32 {
        match number {
            1 => bytes.extend(book_bytes(2, 0, &["1", "001", "01", "000"])),
            16 => bytes.extend(book_bytes(2, 4, &["1", "001", "01", "000"])),
            _ => bytes.extend(book_bytes(0, 0, &[])),
        }
    }
    bytes.extend(code_bytes(&[
        "1", "0101", "0100", "00101", "0110", "000101", "00100", "000100", "0111", "00011",
        "00110", "000000", "00111", "000010", "000011", "000001",
    ]));
    for bits in 0..16u8 {
        bytes.extend_from_slice(&[4, 0, 0, 0, 15 - bits]);
    }
    bytes
}

#[test]
fn code_books_read_from_bytes_decode_like_those_put_together() {
    let bytes = table_bytes();
    assert_eq!(bytes.len(), 30 * 2 + 2 * 22 + 32 * 5);
    let read = HuffmanTables::from_bytes(&bytes).unwrap();
    let built = test_tables();
    let data = bits_to_bytes("000 1010 1 0000 0   001 1111 1  00110 1 0  0101 1 111");
    for (books, select) in [(&read, 0), (&built, 0), (&read, 1), (&built, 1)] {
        let mut bs = BitStream::new(&data);
        let channel = long_channel(2, [16, 1, 1], select);
        let mut samples = [0i32; 576];
        let r = decode_huffman(&mut bs, books, &header_44100(), &channel, &mut samples, 29);
        assert_eq!(r, Ok(()));
        assert_eq!(&samples[0..4], &[-11, 1, 0, -16]);
        if select == 0 {
            // the words of 1010 with signs - +, and of 0001 with sign -
            assert_eq!(&samples[4..13], &[-1, 0, 1, 0, 0, 0, 0, -1, 0]);
        } else {
            // 0011 codes 1100 with signs + -, 0010 codes 1101 with signs - - -
            assert_eq!(&samples[4..13], &[1, -1, 0, 0, -1, -1, 0, -1, 0]);
        }
    }
}

#[test]
fn a_code_word_keeps_all_four_bytes_of_its_value() {
    let mut bytes = Vec::new();
    bytes.extend_from_slice(&[1, 0, 32, 0x80, 0x01, 0x02, 0x03]);
    for _ in 1..32 {
        bytes.extend_from_slice(&[0, 0]);
    }
    bytes.extend(code_bytes(&["1"; 16]));
    for bits in 0..16u8 {
        bytes.extend_from_slice(&[4, 0, 0, 0, bits]);
    }
    let tables = HuffmanTables::from_bytes(&bytes).unwrap();
    // the one word of book 0 is 32 bits long
    let data: Vec<u8> = vec![0x80, 0x01, 0x02, 0x03, 0xFF];
    let mut bs = BitStream::new(&data);
    let mut channel = long_channel(1, [1, 1, 1], 0);
    channel.table_select = [0, 0, 0];
    let mut samples = [1i32; 576];
    assert_eq!(decode_huffman(&mut bs, &tables, &header_44100(), &channel, &mut samples, 0), Ok(()));
    assert_eq!(bs.get_bit_offset(), 0);
    let book = tables.pair_table(0);
    assert_eq!(book.size, 1);
    assert_eq!(book.codes, vec![Binary::new(0x8001_0203, 32)]);
}

#[test]
fn bytes_that_are_no_code_books_are_refused() {
    let bytes = table_bytes();
    assert!(HuffmanTables::from_bytes(&bytes).is_some());
    assert!(HuffmanTables::from_bytes(&bytes[..bytes.len() - 1]).is_none());
    let mut longer = bytes.clone();
    longer.push(0);
    assert!(HuffmanTables::from_bytes(&longer).is_none());
    assert!(HuffmanTables::from_bytes(&[]).is_none());
    assert!(HuffmanTables::from_bytes(&bytes[..1]).is_none());
    assert!(HuffmanTables::from_bytes(&bytes[..70]).is_none());
    // a book of size 17
    let mut large = bytes.clone();
    large[0] = 17;
    assert!(HuffmanTables::from_bytes(&large).is_none());
    // 14 bits of extension
    let mut extended = bytes.clone();
    extended[1] = 14;
    assert!(HuffmanTables::from_bytes(&extended).is_none());
    // a code word of 33 bits in book 1
    let mut long = bytes.clone();
    long[4] = 33;
    assert!(HuffmanTables::from_bytes(&long).is_none());
    // a word of five bits in the second book of quadruples
    let mut wide = bytes.clone();
    let last = wide.len() - 1;
    wide[last] = 16;
    assert!(HuffmanTables::from_bytes(&wide).is_none());
    // a code word of 33 bits in the first book of quadruples
    let mut quad = bytes.clone();
    let first_quad = quad.len() - 160;
    quad[first_quad] = 33;
    assert!(HuffmanTables::from_bytes(&quad).is_none());
}

fn next_random(state: &mut u64) -> u64 {
    *state = state.wrapping_mul(6364136223846793005).wrapping_add(1442695040888963407);
    *state >> 33
}

fn push_word(bits: &mut String, c: Binary) {
    for k in (0..c.bit_length).rev() {
        bits.push(if (c.value >> k) & 1 == 1 { '1' } else { '0' });
    }
}

#[test]
fn lines_that_are_coded_decode_to_themselves() {
    let tables = test_tables();
    let book = tables.pair_table(16);
    let quads = tables.quad_a_codes();
    let mut state = 2024u64;
    for round in 0..50 {
        let pairs = (next_random(&mut state) % 200) as usize;
        let quadruples = (next_random(&mut state) % 40) as usize;
        let mut lines = [0i32; 576];
        let mut bits = String::new();
        for pair in 0..pairs {
            let x = (next_random(&mut state) % 2) as usize;
            let y = (next_random(&mut state) % 2) as usize;
            push_word(&mut bits, book.codes[x * 2 + y]);
            for (k, raw) in [x, y].into_iter().enumerate() {
                let mut magnitude = raw as i32;
                if raw == 1 {
                    let extension = (next_random(&mut state) % 16) as usize;
                    push_word(&mut bits, Binary::new(extension, 4));
                    magnitude += extension as i32;
                }
                if magnitude != 0 {
                    let negative = next_random(&mut state) % 2 == 1;
                    bits.push(if negative { '1' } else { '0' });
                    if negative {
                        magnitude = -magnitude;
                    }
                }
                lines[2 * pair + k] = magnitude;
            }
        }
        for q in 0..quadruples {
            // a quadruple that is not 0, so that the end of the lines shows
            let word = 1 + (next_random(&mut state) % 15) as usize;
            push_word(&mut bits, quads[word]);
            for k in 0..4 {
                if (word >> (3 - k)) & 1 == 1 {
                    let negative = next_random(&mut state) % 2 == 1;
                    bits.push(if negative { '1' } else { '0' });
                    lines[2 * pairs + 4 * q + k] = if negative { -1 } else { 1 };
                }
            }
        }
        let end = bits.len();
        bits.push_str("1010101010101010");
        let data = bits_to_bytes(&bits);
        let mut bs = BitStream::new(&data);
        let skip = round % 3;
        let mut shifted = vec![0xFFu8; skip];
        shifted.extend_from_slice(&data);
        let mut moved = BitStream::new(&shifted);
        moved.set_bit_offset(8 * skip).unwrap();
        let channel = long_channel(pairs, [16, 16, 16], 0);
        let mut samples = [77i32; 576];
        let r = decode_huffman(&mut bs, &tables, &header_44100(), &channel, &mut samples, end);
        assert_eq!(r, Ok(()));
        assert_eq!(samples, lines);
        assert_eq!(bs.get_bit_offset(), end);
        let mut again = [0i32; 576];
        let r = decode_huffman(
            &mut moved,
            &tables,
            &header_44100(),
            &channel,
            &mut again,
            8 * skip + end,
        );
        assert_eq!(r, Ok(()));
        assert_eq!(again, lines);
        assert_eq!(moved.get_bit_offset(), 8 * skip + end);
    }
}
