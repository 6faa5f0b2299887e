//! The side information that follows a frame header.

use crate::bitstream::{
    bits_available, bits_value, lemma_bits_value_bound, lemma_bits_value_fits, BitReader, BitStream,
    BitStreamErrorType,
};
use crate::mpeg_frame::header::{side_info_bytes, MpegHeader};
use crate::mpeg_frame::types::{Channel, Granule, MpegChannelMode, MpegSideInfo};
use vstd::arithmetic::power2::lemma2_to64;
use vstd::prelude::*;

verus! {

/// The `width`-bit field of `data` at bit `pos`.
pub open spec fn field(data: Seq<u8>, pos: int, width: int) -> usize {
    bits_value(data, pos, width) as usize
}

/// The number of bits that the side information of one granule of one
/// channel takes.
pub const CHANNEL_INFO_BITS: usize = 59;

/// The first region's size while a granule is split into blocks: 8 bands
/// for short blocks without a long part, 7 otherwise.
pub open spec fn split_region_address1(block_type: usize, switch_point: usize) -> usize {
    if block_type == 2 && switch_point == 0 {
        8
    } else {
        7
    }
}

/// The side information of one granule of one channel, as the 59 bits of
/// `data` at bit `base` hold it.
///
/// With block splitting the third table and both region sizes are not coded:
/// the table is 0 and the regions are fixed.  Without it the block type, the
/// switch point and the subblock gains are 0.
pub open spec fn channel_at(data: Seq<u8>, base: int) -> Channel {
    let split = field(data, base + 33, 1) != 0;
    let block_type = if split {
        field(data, base + 34, 2)
    } else {
        0
    };
    let switch_point = if split {
        field(data, base + 36, 1)
    } else {
        0
    };
    let region_address1 = if split {
        split_region_address1(block_type, switch_point)
    } else {
        field(data, base + 49, 4)
    };
    Channel {
        part2_3_length: field(data, base, 12),
        big_values: field(data, base + 12, 9),
        global_gain: field(data, base + 21, 8),
        scalefac_compress: field(data, base + 29, 4),
        blocksplit_flag: field(data, base + 33, 1),
        block_type,
        switch_point,
        table_select: if split {
            [field(data, base + 37, 5), field(data, base + 42, 5), 0usize]
        } else {
            [field(data, base + 34, 5), field(data, base + 39, 5), field(data, base + 44, 5)]
        },
        subblock_gain: if split {
            [field(data, base + 47, 3), field(data, base + 50, 3), field(data, base + 53, 3)]
        } else {
            [0usize, 0usize, 0usize]
        },
        region_address1,
        region_address2: if split {
            (20 - region_address1) as usize
        } else {
            field(data, base + 53, 3)
        },
        preflag: field(data, base + 56, 1),
        scalefac_scale: field(data, base + 57, 1),
        count1table_select: field(data, base + 58, 1),
    }
}

/// The width of the private bits in the side information.
pub open spec fn private_bits_width(channel: MpegChannelMode) -> int {
    if channel == MpegChannelMode::SingleChannel {
        5
    } else {
        3
    }
}

/// Where, from the start of the side information, the scale-factor selection
/// bit of a channel and a band stands.
pub open spec fn scfsi_offset(channel: MpegChannelMode, ch: int, band: int) -> int {
    9 + private_bits_width(channel) + 4 * ch + band
}

/// Where, from the start of the side information, the fields of a granule
/// of a channel begin.
pub open spec fn channel_info_offset(channel: MpegChannelMode, gr: int, ch: int) -> int {
    let channels = channel.spec_to_channel_num() as int;
    9 + private_bits_width(channel) + 4 * channels + CHANNEL_INFO_BITS * (channels * gr + ch)
}

impl MpegSideInfo {
    /// Whether this is the side information that `data` holds at bit `pos`
    /// for a frame of the given channel mode.  What belongs to a channel that
    /// the frame does not have is zero.
    pub open spec fn is_read_from(&self, data: Seq<u8>, pos: int, channel: MpegChannelMode) -> bool {
        let channels = channel.spec_to_channel_num() as int;
        &&& self.main_data_end == field(data, pos, 9)
        &&& self.private_bits == field(data, pos + 9, private_bits_width(channel))
        &&& forall|ch: int, band: int|
            0 <= ch < 2 && 0 <= band < 4 ==> #[trigger] self.scfsi[ch][band] == (if ch < channels {
                field(data, pos + scfsi_offset(channel, ch, band), 1)
            } else {
                0
            })
        &&& forall|gr: int, ch: int|
            0 <= gr < 2 && 0 <= ch < 2 ==> #[trigger] self.granule[gr].channel[ch] == (if ch
                < channels {
                channel_at(data, pos + channel_info_offset(channel, gr, ch))
            } else {
                Channel::zero()
            })
    }
}

/// A field of up to 12 bits is below two to its width.
proof fn lemma_field_bound(data: Seq<u8>, pos: int, width: int)
    requires
        0 <= width <= 12,
    ensures
        field(data, pos, width) == bits_value(data, pos, width),
        width == 1 ==> field(data, pos, width) < 2,
        width == 2 ==> field(data, pos, width) < 4,
        width == 3 ==> field(data, pos, width) < 8,
        width == 4 ==> field(data, pos, width) < 16,
        width == 5 ==> field(data, pos, width) < 32,
        width == 8 ==> field(data, pos, width) < 256,
        width == 9 ==> field(data, pos, width) < 512,
        width == 12 ==> field(data, pos, width) < 4096,
{
    lemma_bits_value_bound(data, pos, width);
    lemma_bits_value_fits(data, pos, width);
    lemma2_to64();
}

/// Reads the side information of one granule of one channel.
fn parse_channel<R: BitReader>(bs: &mut BitStream<R>) -> (c: Channel)
    requires
        old(bs).wf(),
        bits_available(old(bs).data(), old(bs).position(), CHANNEL_INFO_BITS as int),
    ensures
        final(bs).wf(),
        final(bs).data() == old(bs).data(),
        final(bs).position() == old(bs).position() + CHANNEL_INFO_BITS,
        c == channel_at(old(bs).data(), old(bs).position()),
        c.wf(),
{
    let ghost data = bs.data();
    let ghost base = bs.position();
    let part2_3_length: usize = bs.take(12);
    let big_values: usize = bs.take(9);
    let global_gain: usize = bs.take(8);
    let scalefac_compress: usize = bs.take(4);
    let blocksplit_flag: usize = bs.take(1);
    let mut block_type: usize = 0;
    let mut switch_point: usize = 0;
    let mut table_select: [usize; 3] = [0usize;3];
    let mut subblock_gain: [usize; 3] = [0usize;3];
    let region_address1: usize;
    let region_address2: usize;
    if blocksplit_flag != 0 {
        block_type = bs.take(2);
        switch_point = bs.take(1);
        table_select[0] = bs.take(5);
        table_select[1] = bs.take(5);
        subblock_gain[0] = bs.take(3);
        subblock_gain[1] = bs.take(3);
        subblock_gain[2] = bs.take(3);
        region_address1 = if block_type == 2 && switch_point == 0 {
            8
        } else {
            7
        };
        region_address2 = 20 - region_address1;
    } else {
        table_select[0] = bs.take(5);
        table_select[1] = bs.take(5);
        table_select[2] = bs.take(5);
        region_address1 = bs.take(4);
        region_address2 = bs.take(3);
    }
    let preflag: usize = bs.take(1);
    let scalefac_scale: usize = bs.take(1);
    let count1table_select: usize = bs.take(1);
    let c = Channel {
        part2_3_length,
        big_values,
        global_gain,
        scalefac_compress,
        blocksplit_flag,
        block_type,
        switch_point,
        table_select,
        subblock_gain,
        region_address1,
        region_address2,
        preflag,
        scalefac_scale,
        count1table_select,
    };
    proof {
        lemma_field_bound(data, base, 12);
        lemma_field_bound(data, base + 12, 9);
        lemma_field_bound(data, base + 21, 8);
        lemma_field_bound(data, base + 29, 4);
        lemma_field_bound(data, base + 33, 1);
        lemma_field_bound(data, base + 34, 2);
        lemma_field_bound(data, base + 36, 1);
        lemma_field_bound(data, base + 37, 5);
        lemma_field_bound(data, base + 42, 5);
        lemma_field_bound(data, base + 47, 3);
        lemma_field_bound(data, base + 50, 3);
        lemma_field_bound(data, base + 53, 3);
        lemma_field_bound(data, base + 34, 5);
        lemma_field_bound(data, base + 39, 5);
        lemma_field_bound(data, base + 44, 5);
        lemma_field_bound(data, base + 49, 4);
        lemma_field_bound(data, base + 56, 1);
        lemma_field_bound(data, base + 57, 1);
        lemma_field_bound(data, base + 58, 1);
        c.lemma_same_fields(channel_at(data, base));
    }
    c
}

/// Reads the side information that follows a frame header: 17 bytes for one
/// channel, 32 for two.  Fails, and leaves the cursor alone, where fewer bytes
/// are left.
pub fn parse_side_info<R: BitReader>(header: &MpegHeader, bs: &mut BitStream<R>) -> (r: Result<
    MpegSideInfo,
    BitStreamErrorType,
>)
    requires
        old(bs).wf(),
    ensures
        final(bs).wf(),
        final(bs).data() == old(bs).data(),
        match r {
            Ok(info) => {
                &&& bits_available(
                    old(bs).data(),
                    old(bs).position(),
                    8 * side_info_bytes(header.channel),
                )
                &&& info.is_read_from(old(bs).data(), old(bs).position(), header.channel)
                &&& info.wf()
                &&& final(bs).position() == old(bs).position() + 8 * side_info_bytes(
                    header.channel,
                )
            },
            Err(e) => {
                &&& !bits_available(
                    old(bs).data(),
                    old(bs).position(),
                    8 * side_info_bytes(header.channel),
                )
                &&& e == BitStreamErrorType::Empty
                &&& final(bs).position() == old(bs).position()
            },
        },
{
    let ghost data = bs.data();
    let ghost pos = bs.position();
    if !bs.has_bits(8 * header.side_info_len()) {
        return Err(BitStreamErrorType::Empty);
    }
    let mono = header.channel.to_channel_num() == 1;
    let main_data_end: usize = bs.take(9);
    let private_bits: usize = bs.take(
        if mono {
            5
        } else {
            3
        },
    );
    let mut scfsi: [[usize; 4]; 2] = [[0usize;4];2];
    scfsi[0][0] = bs.take(1);
    scfsi[0][1] = bs.take(1);
    scfsi[0][2] = bs.take(1);
    scfsi[0][3] = bs.take(1);
    if !mono {
        scfsi[1][0] = bs.take(1);
        scfsi[1][1] = bs.take(1);
        scfsi[1][2] = bs.take(1);
        scfsi[1][3] = bs.take(1);
    }
    let first = parse_channel(bs);
    let second = if mono {
        Channel::new()
    } else {
        parse_channel(bs)
    };
    let third = parse_channel(bs);
    let fourth = if mono {
        Channel::new()
    } else {
        parse_channel(bs)
    };
    let info = MpegSideInfo {
        main_data_end,
        private_bits,
        scfsi,
        granule: [Granule { channel: [first, second] }, Granule { channel: [third, fourth] }],
    };
    proof {
        lemma_field_bound(data, pos, 9);
        lemma_field_bound(data, pos + 9, private_bits_width(header.channel));
        assert forall|ch: int, band: int| 0 <= ch < 2 && 0 <= band < 4 implies #[trigger] info.scfsi[ch][band]
            < 2 by {
            lemma_field_bound(data, pos + scfsi_offset(header.channel, ch, band), 1);
        }
    }
    Ok(info)
}

} // verus!
