//! Frame-level decoding of MPEG-1 Audio Layer III bit streams.
//!
//! A frame is a header, side information and main data.  The main data of a
//! frame may begin in the bytes that earlier frames brought: the decoder keeps
//! them in a reservoir.  This crate takes a frame from its bytes to the
//! quantized frequency lines and scale factors of its granules.
//!
//! Of the stages that follow, which work on samples, it settles what does not
//! depend on the kind of number: the exponents of requantization, the order
//! of the lines of short blocks, which lines the alias reduction and the
//! frequency inversion touch, and how samples move through the synthesis
//! filter bank.  It also reads the ID3v2 tag that may stand before the frames.
//!
//! The Huffman code books are data that the caller brings; see
//! [`huffman::tables::HuffmanTables`].

use crate::bitstream::{bits_available, BitStream, BitStreamErrorType};
use crate::huffman::tables::HuffmanTables;
use crate::huffman::{decode_huffman, huffman_lines, lines_of};
use crate::mpeg_frame::types::{Channel, MpegLayer, MpegSideInfo, MpegVersion, ScaleFactor};
use crate::mpeg_frame::{
    parse_scale_factor, scale_factor_bits, scale_factor_long, scale_factor_short, MpegHeader,
};
use vstd::prelude::*;

pub mod bitstream;
pub mod debug;
pub mod decode;
pub mod huffman;
pub mod id3;
pub mod mpeg_frame;
pub mod text;
pub mod wav;

verus! {

/// Why a frame could not be decoded.
#[derive(Debug, PartialEq, Eq)]
pub enum DecodeError {
    /// The input ended at a frame boundary.
    EndOfFile,
    /// The bytes at hand do not begin a frame that can be decoded: the sync
    /// is missing, or the frame's main data contradicts its side information
    /// or is not all there.
    CanNotFindFrameSync,
    /// The header names a version or layer that is reserved or not decoded;
    /// the value is the header's version field.
    UnsupportedMpegVersion(u8),
    /// Reading the input failed; the value is the detail of the failure.
    ReadFileError(String),
}

/// The scale factors and the quantized frequency lines of a frame, by granule
/// and channel.  What belongs to a channel that the frame does not have is 0.
#[derive(Debug, Clone, Copy, PartialEq, Eq)]
pub struct FrameData {
    pub scale_factors: [[ScaleFactor; 2]; 2],
    pub samples: [[[i32; 576]; 2]; 2],
}

impl FrameData {
    /// Every scale factor fits its four bits.
    pub open spec fn wf(&self) -> bool {
        forall|gr: int, ch: int|
            0 <= gr < 2 && 0 <= ch < 2 ==> (#[trigger] self.scale_factors[gr][ch]).wf()
    }
}

/// The state that decoding carries from frame to frame.
#[derive(Debug)]
pub struct Decoder {
    /// The reservoir: the main data that the next frame may begin in.
    pub main_buf: Vec<u8>,
    /// How many bytes of the reservoir the last frame's main data began
    /// before its own.
    pub main_data_begin: usize,
    /// The number of channels of the last frame.
    pub channel_num: usize,
    /// The sampling frequency of the last frame, in Hz.
    pub sample_rate: usize,
    /// Where the audio data ends in the input, if that is known; else 0.
    pub data_end: u64,
}

/// What to do with four bytes met while frames are counted.
#[derive(Debug, Clone, Copy, PartialEq, Eq, Structural)]
pub enum ScanStep {
    /// The bytes begin the tag behind the audio data: there are no more
    /// frames.
    End,
    /// The bytes are the header of a frame; `skip` bytes of the frame follow
    /// them.
    Frame { skip: usize },
}

/// Whether bytes begin with the mark of an ID3v1 tag.
pub open spec fn has_id3v1_mark(bytes: Seq<u8>) -> bool {
    bytes[0] == 0x54 && bytes[1] == 0x41 && bytes[2] == 0x47
}

/// What four bytes, met where a frame is due, are taken for while frames are
/// counted.  A frame without a length, or with one below its header's, is not
/// supported.
pub open spec fn scan_step(bytes: Seq<u8>) -> Result<ScanStep, DecodeError> {
    if has_id3v1_mark(bytes) {
        Ok(ScanStep::End)
    } else {
        match crate::mpeg_frame::parse_header_spec(bytes) {
            Err(e) => Err(e),
            Ok(header) => match header.spec_frame_size() {
                Some(size) => if size >= 4 {
                    Ok(ScanStep::Frame { skip: (size - 4) as usize })
                } else {
                    Err(DecodeError::UnsupportedMpegVersion(header.version.spec_to_value()))
                },
                None => Err(DecodeError::UnsupportedMpegVersion(header.version.spec_to_value())),
            },
        }
    }
}

/// Whether the main data of a frame with this header is decoded: MPEG-1
/// Layer III at one of its three sampling frequencies.
pub open spec fn is_decodable(header: MpegHeader) -> bool {
    &&& header.version == MpegVersion::V1
    &&& header.layer == MpegLayer::Layer3
    &&& header.sample_rate.spec_get_value() < 3
}

/// The reservoir after a frame: the last `main_data_end` bytes of what was
/// there, then the frame's main data.  A frame that asks for more than there
/// is trims nothing.
pub open spec fn reservoir_after(reservoir: Seq<u8>, main_data_end: int, main_data: Seq<u8>) -> Seq<
    u8,
> {
    if 0 <= main_data_end <= reservoir.len() {
        reservoir.subrange(reservoir.len() - main_data_end, reservoir.len() as int) + main_data
    } else {
        reservoir + main_data
    }
}

/// How far before its own bytes the main data of the last frame began that
/// found its beginning in the reservoir.
pub open spec fn reservoir_begin(reservoir: Seq<u8>, begin: usize, main_data_end: usize) -> usize {
    if main_data_end <= reservoir.len() {
        main_data_end
    } else {
        begin
    }
}

/// Once a frame has entered the reservoir, the reservoir ends with the main
/// data that the frame brought, and the main data of the next frame begins
/// `next_end` bytes before that end, whatever the next frame brings.
pub proof fn lemma_next_frame_begins_before_end(
    reservoir: Seq<u8>,
    main_data_end: int,
    brought: Seq<u8>,
    next_end: int,
    next: Seq<u8>,
)
    requires
        0 <= next_end <= reservoir_after(reservoir, main_data_end, brought).len(),
    ensures
        ({
            let held = reservoir_after(reservoir, main_data_end, brought);
            let stream = reservoir_after(held, next_end, next);
            &&& held.len() >= brought.len()
            &&& held.subrange(held.len() - brought.len(), held.len() as int) == brought
            &&& stream == held.subrange(held.len() - next_end, held.len() as int) + next
            &&& forall|i: int| 0 <= i < next_end ==> stream[i] == held[held.len() - next_end + i]
            &&& next_end <= brought.len() ==> stream == brought.subrange(
                brought.len() - next_end,
                brought.len() as int,
            ) + next
        }),
{
    let held = reservoir_after(reservoir, main_data_end, brought);
    let stream = reservoir_after(held, next_end, next);
    assert(held.subrange(held.len() - brought.len(), held.len() as int) =~= brought);
    if next_end <= brought.len() {
        assert(held.subrange(held.len() - next_end, held.len() as int) =~= brought.subrange(
            brought.len() - next_end,
            brought.len() as int,
        ));
    }
}

/// The bit of the reservoir at which the main data of granule `gr` of channel
/// `ch` begins: behind the main data of the granules and channels before it.
pub open spec fn granule_start(info: MpegSideInfo, channels: int, gr: int, ch: int) -> int {
    let first = info.granule[0].channel[0].part2_3_length as int;
    let second = info.granule[0].channel[1].part2_3_length as int;
    let third = info.granule[1].channel[0].part2_3_length as int;
    if channels == 1 {
        if gr == 0 {
            0
        } else {
            first
        }
    } else if gr == 0 {
        if ch == 0 {
            0
        } else {
            first
        }
    } else if ch == 0 {
        first + second
    } else {
        first + second + third
    }
}

/// Whether the main data of a granule of a channel, which begins at bit
/// `start` of `data`, can be decoded: its scale factors are all there and its
/// frequency lines decode.
pub open spec fn granule_decodes(
    tables: HuffmanTables,
    data: Seq<u8>,
    start: int,
    sr: int,
    gr: usize,
    scfsi: Seq<usize>,
    channel: Channel,
) -> bool {
    &&& bits_available(data, start, scale_factor_bits(gr, scfsi, channel))
    &&& huffman_lines(
        tables,
        data,
        start + scale_factor_bits(gr, scfsi, channel),
        sr,
        channel,
        start + channel.part2_3_length,
    ) is Ok
}

/// Whether `sf` and `samples` are the scale factors and the frequency lines
/// of a granule of a channel whose main data begins at bit `start` of `data`.
pub open spec fn is_granule_of(
    sf: ScaleFactor,
    samples: Seq<i32>,
    tables: HuffmanTables,
    data: Seq<u8>,
    start: int,
    sr: int,
    gr: usize,
    scfsi: Seq<usize>,
    channel: Channel,
    sf_gr0: ScaleFactor,
) -> bool {
    &&& forall|sfb: int|
        0 <= sfb < 23 ==> #[trigger] sf.sf_l[sfb] == scale_factor_long(
            data,
            start,
            gr,
            scfsi,
            channel,
            sf_gr0,
            sfb,
        )
    &&& forall|sfb: int, window: int|
        0 <= sfb < 13 && 0 <= window < 3 ==> #[trigger] sf.sf_s[sfb][window] == scale_factor_short(
            data,
            start,
            channel,
            sfb,
            window,
        )
    &&& huffman_lines(
        tables,
        data,
        start + scale_factor_bits(gr, scfsi, channel),
        sr,
        channel,
        start + channel.part2_3_length,
    ) matches Ok((lines, _)) && lines_of(samples) == lines
}

/// Whether every granule of every channel of a frame can be decoded from the
/// reservoir `data`.
pub open spec fn frame_decodes(
    tables: HuffmanTables,
    data: Seq<u8>,
    header: MpegHeader,
    info: MpegSideInfo,
) -> bool {
    let channels = header.channel.spec_to_channel_num() as int;
    forall|gr: int, ch: int|
        0 <= gr < 2 && 0 <= ch < channels ==> #[trigger] granule_decodes(
            tables,
            data,
            granule_start(info, channels, gr, ch),
            header.sample_rate.spec_get_value() as int,
            gr as usize,
            info.scfsi[ch]@,
            info.granule[gr].channel[ch],
        )
}

/// Whether `frame` holds what the granules of a frame decode to from the
/// reservoir `data`.
pub open spec fn is_frame_of(
    frame: FrameData,
    tables: HuffmanTables,
    data: Seq<u8>,
    header: MpegHeader,
    info: MpegSideInfo,
) -> bool {
    let channels = header.channel.spec_to_channel_num() as int;
    &&& forall|gr: int, ch: int|
        0 <= gr < 2 && 0 <= ch < channels ==> #[trigger] is_granule_of(
            frame.scale_factors[gr][ch],
            frame.samples[gr][ch]@,
            tables,
            data,
            granule_start(info, channels, gr, ch),
            header.sample_rate.spec_get_value() as int,
            gr as usize,
            info.scfsi[ch]@,
            info.granule[gr].channel[ch],
            frame.scale_factors[0][ch],
        )
    &&& forall|gr: int, ch: int|
        0 <= gr < 2 && channels <= ch < 2 ==> (#[trigger] frame.scale_factors[gr][ch]).is_zero()
            && forall|i: int| 0 <= i < 576 ==> frame.samples[gr][ch][i] == 0
}

/// Decodes the main data of a granule of a channel, which begins at bit
/// `start` of the stream's data.
fn decode_granule(
    bs: &mut BitStream<Vec<u8>>,
    tables: &HuffmanTables,
    header: &MpegHeader,
    gr: usize,
    scfsi: &[usize; 4],
    channel: &Channel,
    sf_gr0: ScaleFactor,
    start: usize,
) -> (r: Result<(ScaleFactor, [i32; 576]), BitStreamErrorType>)
    requires
        old(bs).wf(),
        tables.wf(),
        channel.wf(),
        header.sample_rate.spec_get_value() < 3,
        start <= 3 * 4096,
    ensures
        final(bs).wf(),
        final(bs).data() == old(bs).data(),
        r is Ok <==> granule_decodes(
            *tables,
            old(bs).data(),
            start as int,
            header.sample_rate.spec_get_value() as int,
            gr,
            scfsi@,
            *channel,
        ),
        r matches Ok((sf, samples)) ==> is_granule_of(
            sf,
            samples@,
            *tables,
            old(bs).data(),
            start as int,
            header.sample_rate.spec_get_value() as int,
            gr,
            scfsi@,
            *channel,
            sf_gr0,
        ) && (sf_gr0.wf() ==> sf.wf()),
{
    bs.set_bit_offset(start)?;
    let sf = parse_scale_factor(gr, bs, scfsi, channel, sf_gr0)?;
    let mut samples: [i32; 576] = [0i32;576];
    decode_huffman(bs, tables, header, channel, &mut samples, start + channel.part2_3_length)?;
    Ok((sf, samples))
}

impl Decoder {
    /// A decoder before its first frame: the reservoir is empty.
    pub fn new() -> (d: Self)
        ensures
            d.main_buf@.len() == 0,
            d.main_data_begin == 0,
            d.channel_num == 0,
            d.sample_rate == 0,
            d.data_end == 0,
    {
        Self { main_buf: Vec::new(), main_data_begin: 0, channel_num: 0, sample_rate: 0, data_end: 0 }
    }

    /// Takes note of a frame while frames are counted: says how far to skip
    /// to the next frame, and remembers the frame's channels and sampling
    /// frequency.  At the tag behind the audio data, and at bytes that begin
    /// no frame that has a length, the decoder stays as it was.
    pub fn scan_frame(&mut self, bytes: &[u8; 4]) -> (r: Result<ScanStep, DecodeError>)
        ensures
            r == scan_step(bytes@),
            final(self).main_buf == old(self).main_buf,
            final(self).main_data_begin == old(self).main_data_begin,
            final(self).data_end == old(self).data_end,
            r matches Ok(ScanStep::Frame { .. }) ==> {
                &&& crate::mpeg_frame::parse_header_spec(bytes@) matches Ok(header)
                &&& final(self).channel_num == header.channel.spec_to_channel_num()
                &&& final(self).sample_rate == header.sample_rate.spec_get_rate()
            },
            !(r matches Ok(ScanStep::Frame { .. })) ==> {
                &&& final(self).channel_num == old(self).channel_num
                &&& final(self).sample_rate == old(self).sample_rate
            },
    {
        if bytes[0] == 0x54 && bytes[1] == 0x41 && bytes[2] == 0x47 {
            return Ok(ScanStep::End);
        }
        let header = crate::mpeg_frame::parse_header(bytes)?;
        match header.frame_size() {
            Some(size) => {
                if size < 4 {
                    return Err(DecodeError::UnsupportedMpegVersion(header.version.to_value()));
                }
                self.channel_num = header.channel.to_channel_num();
                self.sample_rate = header.sample_rate.get_rate();
                Ok(ScanStep::Frame { skip: size - 4 })
            },
            None => Err(DecodeError::UnsupportedMpegVersion(header.version.to_value())),
        }
    }

    /// Takes the main data of a frame into the reservoir and decodes the
    /// frame's granules from it.
    ///
    /// A frame that is not MPEG-1 Layer III is refused, and the decoder stays
    /// as it was.  Every other frame enters the reservoir, also where its
    /// granules then fail to decode, so that the frames after it find their
    /// main data.
    pub fn decode_main_data(
        &mut self,
        tables: &HuffmanTables,
        header: &MpegHeader,
        side_info: &MpegSideInfo,
        main_data: &Vec<u8>,
    ) -> (r: Result<FrameData, DecodeError>)
        requires
            tables.wf(),
            side_info.wf(),
            8 * (old(self).main_buf@.len() + main_data@.len()) <= usize::MAX,
        ensures
            !is_decodable(*header) ==> {
                &&& r == Err::<FrameData, DecodeError>(
                    DecodeError::UnsupportedMpegVersion(header.version.spec_to_value()),
                )
                &&& *final(self) == *old(self)
            },
            is_decodable(*header) ==> {
                &&& final(self).main_buf@ == reservoir_after(
                    old(self).main_buf@,
                    side_info.main_data_end as int,
                    main_data@,
                )
                &&& final(self).channel_num == header.channel.spec_to_channel_num()
                &&& final(self).sample_rate == header.sample_rate.spec_get_rate()
                &&& final(self).data_end == old(self).data_end
                &&& final(self).main_data_begin == reservoir_begin(
                    old(self).main_buf@,
                    old(self).main_data_begin,
                    side_info.main_data_end,
                )
                &&& r is Ok <==> side_info.main_data_end <= old(self).main_buf@.len()
                    && frame_decodes(*tables, final(self).main_buf@, *header, *side_info)
                &&& r matches Ok(frame) ==> is_frame_of(
                    frame,
                    *tables,
                    final(self).main_buf@,
                    *header,
                    *side_info,
                ) && frame.wf()
                &&& r matches Err(e) ==> e == DecodeError::CanNotFindFrameSync
            },
    {
        if header.version != MpegVersion::V1 || header.layer != MpegLayer::Layer3
            || header.sample_rate.get_value() >= 3 {
            return Err(DecodeError::UnsupportedMpegVersion(header.version.to_value()));
        }
        self.channel_num = header.channel.to_channel_num();
        self.sample_rate = header.sample_rate.get_rate();
        let ghost before = self.main_buf@;
        let held: usize = self.main_buf.len();
        let wanted: usize = side_info.main_data_end;
        if wanted > held {
            self.main_buf.extend_from_slice(main_data.as_slice());
            return Err(DecodeError::CanNotFindFrameSync);
        }
        let mut reservoir: Vec<u8> = self.main_buf.split_off(held - wanted);
        reservoir.extend_from_slice(main_data.as_slice());
        self.main_buf = reservoir;
        self.main_data_begin = wanted;
        assert(self.main_buf@ =~= reservoir_after(before, wanted as int, main_data@));
        match decode_granules(tables, header, side_info, &self.main_buf) {
            Ok(frame) => Ok(frame),
            Err(_) => Err(DecodeError::CanNotFindFrameSync),
        }
    }
}

/// Decodes the granules of a frame from the reservoir.
fn decode_granules(
    tables: &HuffmanTables,
    header: &MpegHeader,
    side_info: &MpegSideInfo,
    reservoir: &Vec<u8>,
) -> (r: Result<FrameData, BitStreamErrorType>)
    requires
        tables.wf(),
        side_info.wf(),
        header.sample_rate.spec_get_value() < 3,
        8 * reservoir@.len() <= usize::MAX,
    ensures
        r is Ok <==> frame_decodes(*tables, reservoir@, *header, *side_info),
        r matches Ok(frame) ==> is_frame_of(frame, *tables, reservoir@, *header, *side_info)
            && frame.wf(),
{
    let stereo = header.channel.to_channel_num() == 2;
    let ghost channels = header.channel.spec_to_channel_num() as int;
    let ghost sr = header.sample_rate.spec_get_value() as int;
    let mut bs = BitStream::new(reservoir);
    let empty = ScaleFactor::new();
    let silent: [i32; 576] = [0i32;576];
    let first = side_info.granule[0].channel[0];
    let second = side_info.granule[0].channel[1];
    let third = side_info.granule[1].channel[0];
    let fourth = side_info.granule[1].channel[1];
    let mut start: usize = 0;
    assert(granule_start(*side_info, channels, 0, 0) == 0);
    let (sf00, lines00) = match decode_granule(
        &mut bs,
        tables,
        header,
        0,
        &side_info.scfsi[0],
        &first,
        empty,
        start,
    ) {
        Ok(decoded) => decoded,
        Err(e) => {
            assert(!granule_decodes(
                *tables,
                reservoir@,
                granule_start(*side_info, channels, 0, 0),
                sr,
                0int as usize,
                side_info.scfsi[0]@,
                side_info.granule[0].channel[0],
            ));
            return Err(e);
        },
    };
    start = start + first.part2_3_length;
    let (sf01, lines01) = if stereo {
        assert(granule_start(*side_info, channels, 0, 1) == start);
        let decoded = match decode_granule(
            &mut bs,
            tables,
            header,
            0,
            &side_info.scfsi[1],
            &second,
            empty,
            start,
        ) {
            Ok(decoded) => decoded,
            Err(e) => {
                assert(!granule_decodes(
                    *tables,
                    reservoir@,
                    granule_start(*side_info, channels, 0, 1),
                    sr,
                    0int as usize,
                    side_info.scfsi[1]@,
                    side_info.granule[0].channel[1],
                ));
                return Err(e);
            },
        };
        start = start + second.part2_3_length;
        decoded
    } else {
        (empty, silent)
    };
    assert(granule_start(*side_info, channels, 1, 0) == start);
    let (sf10, lines10) = match decode_granule(
        &mut bs,
        tables,
        header,
        1,
        &side_info.scfsi[0],
        &third,
        sf00,
        start,
    ) {
        Ok(decoded) => decoded,
        Err(e) => {
            assert(!granule_decodes(
                *tables,
                reservoir@,
                granule_start(*side_info, channels, 1, 0),
                sr,
                1int as usize,
                side_info.scfsi[0]@,
                side_info.granule[1].channel[0],
            ));
            return Err(e);
        },
    };
    start = start + third.part2_3_length;
    let (sf11, lines11) = if stereo {
        assert(granule_start(*side_info, channels, 1, 1) == start);
        match decode_granule(
            &mut bs,
            tables,
            header,
            1,
            &side_info.scfsi[1],
            &fourth,
            sf01,
            start,
        ) {
            Ok(decoded) => decoded,
            Err(e) => {
                assert(!granule_decodes(
                    *tables,
                    reservoir@,
                    granule_start(*side_info, channels, 1, 1),
                    sr,
                    1int as usize,
                    side_info.scfsi[1]@,
                    side_info.granule[1].channel[1],
                ));
                return Err(e);
            },
        }
    } else {
        (empty, silent)
    };
    let frame = FrameData {
        scale_factors: [[sf00, sf01], [sf10, sf11]],
        samples: [[lines00, lines01], [lines10, lines11]],
    };
    Ok(frame)
}

} // verus!
