use tiny_mp3_player::bitstream::{BitStream, BitStreamErrorType};
use tiny_mp3_player::mpeg_frame::types::{Channel, Granule, MpegSideInfo, ScaleFactor};
use tiny_mp3_player::mpeg_frame::{parse_header, parse_scale_factor, parse_side_info};

fn pack_bits(fields: &[(usize, usize)]) -> Vec<u8> {
    let mut bits: Vec<bool> = Vec::new();
    for &(value, width) in fields {
        for k in (0..width).rev() {
            bits.push((value >> k) & 1 == 1);
        }
    }
    while bits.len() % 8 != 0 {
        bits.push(false);
    }
    let mut bytes = Vec::new();
    for chunk in bits.chunks(8) {
        let mut byte = 0u8;
        for &bit in chunk {
            byte = (byte << 1) | bit as u8;
        }
        bytes.push(byte);
    }
    bytes
}

fn long_channel_fields(c: &Channel) -> Vec<(usize, usize)> {
    vec![
        (c.part2_3_length, 12),
        (c.big_values, 9),
        (c.global_gain, 8),
        (c.scalefac_compress, 4),
        (0, 1),
        (c.table_select[0], 5),
        (c.table_select[1], 5),
        (c.table_select[2], 5),
        (c.region_address1, 4),
        (c.region_address2, 3),
        (c.preflag, 1),
        (c.scalefac_scale, 1),
        (c.count1table_select, 1),
    ]
}

fn split_channel_fields(c: &Channel) -> Vec<(usize, usize)> {
    vec![
        (c.part2_3_length, 12),
        (c.big_values, 9),
        (c.global_gain, 8),
        (c.scalefac_compress, 4),
        (1, 1),
        (c.block_type, 2),
        (c.switch_point, 1),
        (c.table_select[0], 5),
        (c.table_select[1], 5),
        (c.subblock_gain[0], 3),
        (c.subblock_gain[1], 3),
        (c.subblock_gain[2], 3),
        (c.preflag, 1),
        (c.scalefac_scale, 1),
        (c.count1table_select, 1),
    ]
}

fn sample_long_channel(seed: usize) -> Channel {
    Channel {
        part2_3_length: 1000 + seed,
        big_values: 100 + seed,
        global_gain: 150 + seed,
        scalefac_compress: 5 + seed,
        blocksplit_flag: 0,
        block_type: 0,
        switch_point: 0,
        table_select: [1 + seed, 2 + seed, 3 + seed],
        subblock_gain: [0, 0, 0],
        region_address1: 7 + seed,
        region_address2: 4 + seed,
        preflag: seed % 2,
        scalefac_scale: 1 - seed % 2,
        count1table_select: seed % 2,
    }
}

fn sample_split_channel(block_type: usize, switch_point: usize) -> Channel {
    let region_address1 = if block_type == 2 && switch_point == 0 { 8 } else { 7 };
    Channel {
        part2_3_length: 4095,
        big_values: 511,
        global_gain: 255,
        scalefac_compress: 15,
        blocksplit_flag: 1,
        block_type,
        switch_point,
        table_select: [31, 17, 0],
        subblock_gain: [7, 0, 5],
        region_address1,
        region_address2: 20 - region_address1,
        preflag: 1,
        scalefac_scale: 1,
        count1table_select: 1,
    }
}

#[test]
fn mono_side_info_takes_seventeen_bytes() {
    let header = parse_header(&[0xFF, 0xFB, 0x90, 0xC0]).unwrap();
    let first = sample_long_channel(0);
    let second = sample_split_channel(2, 0);
    let mut fields = vec![(300, 9), (21, 5), (1, 1), (0, 1), (1, 1), (1, 1)];
    fields.extend(long_channel_fields(&first));
    fields.extend(split_channel_fields(&second));
    let mut data = pack_bits(&fields);
    assert_eq!(data.len(), 17);
    data.push(0xEE);
    let mut bs = BitStream::new(&data);
    let info = parse_side_info(&header, &mut bs).unwrap();
    assert_eq!(bs.get_bit_offset(), 17 * 8);
    let expected = MpegSideInfo {
        main_data_end: 300,
        private_bits: 21,
        scfsi: [[1, 0, 1, 1], [0, 0, 0, 0]],
        granule: [
            Granule { channel: [first, Channel::new()] },
            Granule { channel: [second, Channel::new()] },
        ],
    };
    assert_eq!(info, expected);
}

#[test]
fn stereo_side_info_takes_thirty_two_bytes() {
    let header = parse_header(&[0xFF, 0xFB, 0x90, 0x00]).unwrap();
    let channels = [
        sample_long_channel(1),
        sample_split_channel(1, 1),
        sample_split_channel(2, 1),
        sample_long_channel(2),
    ];
    let mut fields = vec![(511, 9), (5, 3)];
    for bit in [0, 1, 1, 0, 1, 0, 0, 1] {
        fields.push((bit, 1));
    }
    fields.extend(long_channel_fields(&channels[0]));
    fields.extend(split_channel_fields(&channels[1]));
    fields.extend(split_channel_fields(&channels[2]));
    fields.extend(long_channel_fields(&channels[3]));
    let data = pack_bits(&fields);
    assert_eq!(data.len(), 32);
    let mut bs = BitStream::new(&data);
    let info = parse_side_info(&header, &mut bs).unwrap();
    assert_eq!(bs.get_bit_offset(), 32 * 8);
    assert_eq!(info.main_data_end, 511);
    assert_eq!(info.private_bits, 5);
    assert_eq!(info.scfsi, [[0, 1, 1, 0], [1, 0, 0, 1]]);
    assert_eq!(info.granule[0].channel[0], channels[0]);
    assert_eq!(info.granule[0].channel[1], channels[1]);
    assert_eq!(info.granule[1].channel[0], channels[2]);
    assert_eq!(info.granule[1].channel[1], channels[3]);
}

#[test]
fn split_granules_have_fixed_regions() {
    for (block_type, switch_point, first, second) in
        [(2, 0, 8, 12), (2, 1, 7, 13), (1, 0, 7, 13), (3, 1, 7, 13), (0, 0, 7, 13)]
    {
        let header = parse_header(&[0xFF, 0xFB, 0x90, 0xC0]).unwrap();
        let channel = sample_split_channel(block_type, switch_point);
        let mut fields = vec![(0, 9), (0, 5), (0, 4)];
        fields.extend(split_channel_fields(&channel));
        fields.extend(split_channel_fields(&channel));
        let data = pack_bits(&fields);
        let mut bs = BitStream::new(&data);
        let info = parse_side_info(&header, &mut bs).unwrap();
        let read = info.granule[1].channel[0];
        assert_eq!(read.block_type, block_type);
        assert_eq!(read.switch_point, switch_point);
        assert_eq!(read.region_address1, first);
        assert_eq!(read.region_address2, second);
        assert_eq!(read.table_select[2], 0);
    }
}

#[test]
fn side_info_can_begin_off_a_byte_boundary() {
    let header = parse_header(&[0xFF, 0xFB, 0x90, 0xC0]).unwrap();
    let first = sample_long_channel(0);
    let second = sample_long_channel(1);
    let mut fields = vec![(5, 3), (77, 9), (3, 5), (9, 4)];
    fields.extend(long_channel_fields(&first));
    fields.extend(long_channel_fields(&second));
    let data = pack_bits(&fields);
    let mut bs = BitStream::new(&data);
    assert_eq!(bs.read(3), Ok(5));
    let info = parse_side_info(&header, &mut bs).unwrap();
    assert_eq!(bs.get_bit_offset(), 3 + 136);
    assert_eq!(info.main_data_end, 77);
    assert_eq!(info.scfsi[0], [1, 0, 0, 1]);
    assert_eq!(info.granule[0].channel[0], first);
    assert_eq!(info.granule[1].channel[0], second);
}

#[test]
fn short_side_info_fails_and_leaves_the_cursor() {
    let mono = parse_header(&[0xFF, 0xFB, 0x90, 0xC0]).unwrap();
    let stereo = parse_header(&[0xFF, 0xFB, 0x90, 0x40]).unwrap();
    let data: Vec<u8> = vec![0x55; 31];
    let mut bs = BitStream::new(&data);
    assert_eq!(parse_side_info(&stereo, &mut bs).err(), Some(BitStreamErrorType::Empty));
    assert_eq!(bs.get_bit_offset(), 0);
    assert!(parse_side_info(&mono, &mut bs).is_ok());
    assert_eq!(bs.get_bit_offset(), 136);
    assert_eq!(parse_side_info(&mono, &mut bs).err(), Some(BitStreamErrorType::Empty));
    assert_eq!(bs.get_bit_offset(), 136);
}

#[test]
fn fresh_side_info_is_zero() {
    let info = MpegSideInfo::new();
    assert_eq!(info.main_data_end, 0);
    assert_eq!(info.private_bits, 0);
    assert_eq!(info.scfsi, [[0; 4]; 2]);
    assert_eq!(info.granule[0], Granule::new());
    assert_eq!(info.granule[1].channel[1], Channel::new());
    let channel = Channel::new();
    assert_eq!(channel.part2_3_length, 0);
    assert_eq!(channel.table_select, [0, 0, 0]);
    assert_eq!(channel.subblock_gain, [0, 0, 0]);
    assert_eq!(channel.count1table_select, 0);
    let sf = ScaleFactor::new();
    assert_eq!(sf.sf_l, [0; 23]);
    assert_eq!(sf.sf_s, [[0; 3]; 13]);
}

fn long_block(scalefac_compress: usize) -> Channel {
    let mut channel = Channel::new();
    channel.scalefac_compress = scalefac_compress;
    channel
}

fn short_block(scalefac_compress: usize, switch_point: usize) -> Channel {
    let mut channel = Channel::new();
    channel.scalefac_compress = scalefac_compress;
    channel.blocksplit_flag = 1;
    channel.block_type = 2;
    channel.switch_point = switch_point;
    channel
}

#[test]
fn long_scale_factors_of_the_first_granule() {
    // widths 2 and 3
    let channel = long_block(10);
    let mut fields = Vec::new();
    for sfb in 0..11 {
        fields.push((sfb % 4, 2));
    }
    for sfb in 11..21 {
        fields.push((sfb % 8, 3));
    }
    fields.push((0xFF, 8));
    let data = pack_bits(&fields);
    let mut bs = BitStream::new(&data);
    let sf = parse_scale_factor(0, &mut bs, &[1, 1, 1, 1], &channel, ScaleFactor::new()).unwrap();
    assert_eq!(bs.get_bit_offset(), 11 * 2 + 10 * 3);
    for sfb in 0..11 {
        assert_eq!(sf.sf_l[sfb], sfb % 4);
    }
    for sfb in 11..21 {
        assert_eq!(sf.sf_l[sfb], sfb % 8);
    }
    assert_eq!(sf.sf_l[21], 0);
    assert_eq!(sf.sf_l[22], 0);
    assert_eq!(sf.sf_s, [[0; 3]; 13]);
}

#[test]
fn scfsi_copies_bands_from_the_first_granule() {
    // widths 1 and 2
    let channel = long_block(6);
    let mut first = ScaleFactor::new();
    for sfb in 0..21 {
        first.sf_l[sfb] = 10 + sfb % 5;
    }
    // bands 0 and 2 are copied, bands 1 and 3 are read
    let mut fields = Vec::new();
    for k in 0..5 {
        fields.push((k % 2, 1));
    }
    for k in 0..5 {
        fields.push((3 - k % 4, 2));
    }
    let data = pack_bits(&fields);
    let mut bs = BitStream::new(&data);
    let sf = parse_scale_factor(1, &mut bs, &[1, 0, 1, 0], &channel, first).unwrap();
    assert_eq!(bs.get_bit_offset(), 5 * 1 + 5 * 2);
    for sfb in 0..6 {
        assert_eq!(sf.sf_l[sfb], first.sf_l[sfb]);
    }
    for sfb in 6..11 {
        assert_eq!(sf.sf_l[sfb], (sfb - 6) % 2);
    }
    for sfb in 11..16 {
        assert_eq!(sf.sf_l[sfb], first.sf_l[sfb]);
    }
    for sfb in 16..21 {
        assert_eq!(sf.sf_l[sfb], 3 - (sfb - 16) % 4);
    }
    assert_eq!(sf.sf_l[21], 0);
    assert_eq!(sf.sf_l[22], 0);
}

#[test]
fn scfsi_of_all_bands_reads_nothing() {
    let channel = long_block(15);
    let mut first = ScaleFactor::new();
    for sfb in 0..23 {
        first.sf_l[sfb] = sfb % 16;
    }
    let data: Vec<u8> = Vec::new();
    let mut bs = BitStream::new(&data);
    let sf = parse_scale_factor(1, &mut bs, &[1, 1, 1, 1], &channel, first).unwrap();
    assert_eq!(bs.get_bit_offset(), 0);
    for sfb in 0..21 {
        assert_eq!(sf.sf_l[sfb], first.sf_l[sfb]);
    }
    assert_eq!(sf.sf_l[21], 0);
    assert_eq!(sf.sf_l[22], 0);
}

#[test]
fn scfsi_is_not_used_in_the_first_granule() {
    let channel = long_block(5);
    let mut other = ScaleFactor::new();
    other.sf_l = [9; 23];
    let data: Vec<u8> = vec![0xFF, 0xFF, 0xFF];
    let mut bs = BitStream::new(&data);
    let sf = parse_scale_factor(0, &mut bs, &[1, 1, 1, 1], &channel, other).unwrap();
    assert_eq!(bs.get_bit_offset(), 21);
    for sfb in 0..21 {
        assert_eq!(sf.sf_l[sfb], 1);
    }
}

#[test]
fn scfsi_is_not_used_for_short_blocks() {
    let channel = short_block(0, 0);
    let mut other = ScaleFactor::new();
    other.sf_l = [9; 23];
    let data: Vec<u8> = Vec::new();
    let mut bs = BitStream::new(&data);
    let sf = parse_scale_factor(1, &mut bs, &[1, 1, 1, 1], &channel, other).unwrap();
    assert_eq!(sf.sf_l, [0; 23]);
    assert_eq!(sf.sf_s, [[0; 3]; 13]);
}

#[test]
fn short_scale_factors_come_band_by_band_and_window_by_window() {
    // widths 3 and 2
    let channel = short_block(12, 0);
    let mut fields = Vec::new();
    for sfb in 0..6 {
        for window in 0..3 {
            fields.push(((sfb + window) % 8, 3));
        }
    }
    for sfb in 6..12 {
        for window in 0..3 {
            fields.push(((sfb + 2 * window) % 4, 2));
        }
    }
    let data = pack_bits(&fields);
    let mut bs = BitStream::new(&data);
    let sf = parse_scale_factor(0, &mut bs, &[0, 0, 0, 0], &channel, ScaleFactor::new()).unwrap();
    assert_eq!(bs.get_bit_offset(), 18 * 3 + 18 * 2);
    for sfb in 0..6 {
        for window in 0..3 {
            assert_eq!(sf.sf_s[sfb][window], (sfb + window) % 8);
        }
    }
    for sfb in 6..12 {
        for window in 0..3 {
            assert_eq!(sf.sf_s[sfb][window], (sfb + 2 * window) % 4);
        }
    }
    assert_eq!(sf.sf_s[12], [0, 0, 0]);
    assert_eq!(sf.sf_l, [0; 23]);
}

#[test]
fn mixed_blocks_have_eight_long_bands_and_short_bands_from_three() {
    // widths 4 and 3
    let channel = short_block(15, 1);
    let mut fields = Vec::new();
    for sfb in 0..8 {
        fields.push((15 - sfb, 4));
    }
    for sfb in 3..6 {
        for window in 0..3 {
            fields.push((sfb * 3 + window - 9, 4));
        }
    }
    for sfb in 6..12 {
        for window in 0..3 {
            fields.push(((sfb + window) % 8, 3));
        }
    }
    let data = pack_bits(&fields);
    let mut bs = BitStream::new(&data);
    let sf = parse_scale_factor(1, &mut bs, &[0, 0, 0, 0], &channel, ScaleFactor::new()).unwrap();
    assert_eq!(bs.get_bit_offset(), 17 * 4 + 18 * 3);
    for sfb in 0..8 {
        assert_eq!(sf.sf_l[sfb], 15 - sfb);
    }
    for sfb in 8..23 {
        assert_eq!(sf.sf_l[sfb], 0);
    }
    for sfb in 0..3 {
        assert_eq!(sf.sf_s[sfb], [0, 0, 0]);
    }
    for sfb in 3..6 {
        for window in 0..3 {
            assert_eq!(sf.sf_s[sfb][window], sfb * 3 + window - 9);
        }
    }
    for sfb in 6..12 {
        for window in 0..3 {
            assert_eq!(sf.sf_s[sfb][window], (sfb + window) % 8);
        }
    }
    assert_eq!(sf.sf_s[12], [0, 0, 0]);
}

#[test]
fn scale_factors_of_width_zero_read_nothing() {
    let channel = long_block(0);
    let data: Vec<u8> = Vec::new();
    let mut bs = BitStream::new(&data);
    let sf = parse_scale_factor(0, &mut bs, &[0, 0, 0, 0], &channel, ScaleFactor::new()).unwrap();
    assert_eq!(sf.sf_l, [0; 23]);
    assert_eq!(bs.get_bit_offset(), 0);
}

#[test]
fn scale_factors_that_do_not_fit_fail_and_leave_the_cursor() {
    // widths 4 and 3: 11 * 4 + 10 * 3 = 74 bits
    let channel = long_block(15);
    let data: Vec<u8> = vec![0xFF; 10];
    let mut bs = BitStream::new(&data);
    bs.read(7).unwrap();
    let r = parse_scale_factor(0, &mut bs, &[0, 0, 0, 0], &channel, ScaleFactor::new());
    assert_eq!(r.err(), Some(BitStreamErrorType::Empty));
    assert_eq!(bs.get_bit_offset(), 7);
    bs.set_bit_offset(6).unwrap();
    let r = parse_scale_factor(0, &mut bs, &[0, 0, 0, 0], &channel, ScaleFactor::new());
    assert!(r.is_ok());
    assert_eq!(bs.get_bit_offset(), 80);
}

#[test]
fn side_information_that_was_read_is_well_formed() {
    let header = parse_header(&[0xFF, 0xFB, 0x90, 0x00]).unwrap();
    for fill in [0x00u8, 0xFF, 0xA5, 0x3C] {
        let data: Vec<u8> = vec![fill; 32];
        let mut bs = BitStream::new(&data);
        let info = parse_side_info(&header, &mut bs).unwrap();
        assert!(info.is_wf());
        assert!(info.granule[0].is_wf());
        assert!(info.granule[1].channel[1].is_wf());
    }
    assert!(MpegSideInfo::new().is_wf());
    assert!(ScaleFactor::new().is_wf());
}

#[test]
fn fields_wider_than_their_bits_are_not_well_formed() {
    let good = sample_split_channel(2, 1);
    assert!(good.is_wf());
    let spoil: [fn(&mut Channel); 15] = [
        |c| c.part2_3_length = 4096,
        |c| c.big_values = 512,
        |c| c.global_gain = 256,
        |c| c.scalefac_compress = 16,
        |c| c.blocksplit_flag = 2,
        |c| c.block_type = 4,
        |c| c.switch_point = 2,
        |c| c.table_select[2] = 32,
        |c| c.subblock_gain[1] = 8,
        |c| c.region_address1 = 16,
        |c| c.region_address2 = 16,
        |c| c.preflag = 2,
        |c| c.scalefac_scale = 2,
        |c| c.count1table_select = 2,
        |c| c.blocksplit_flag = 0,
    ];
    for change in spoil {
        let mut channel = good;
        change(&mut channel);
        assert!(!channel.is_wf());
        let mut info = MpegSideInfo::new();
        info.granule[1].channel[0] = channel;
        assert!(!info.is_wf());
        assert!(!info.granule[1].is_wf());
        assert!(info.granule[0].is_wf());
    }
    let mut info = MpegSideInfo::new();
    info.main_data_end = 512;
    assert!(!info.is_wf());
    info.main_data_end = 511;
    info.private_bits = 32;
    assert!(!info.is_wf());
    info.private_bits = 31;
    assert!(info.is_wf());
    info.scfsi[1][3] = 2;
    assert!(!info.is_wf());
    let mut sf = ScaleFactor::new();
    sf.sf_l[22] = 15;
    sf.sf_s[12][2] = 15;
    assert!(sf.is_wf());
    sf.sf_l[22] = 16;
    assert!(!sf.is_wf());
    sf.sf_l[22] = 0;
    sf.sf_s[12][2] = 16;
    assert!(!sf.is_wf());
}
