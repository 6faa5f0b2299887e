//! The scale factors at the start of the main data of a granule.

use crate::bitstream::{
    bits_available, lemma_bits_value_bound, lemma_bits_value_fits, BitReader, BitStream,
    BitStreamErrorType,
};
use crate::mpeg_frame::side_info::field;
use crate::mpeg_frame::types::{Channel, ScaleFactor};
use vstd::arithmetic::power2::lemma2_to64;
use vstd::prelude::*;

verus! {

/// The widths in bits of the two groups of scale factors, by
/// `scalefac_compress`.
pub const SLEN: [[usize; 2]; 16] = [
    [0, 0],
    [0, 1],
    [0, 2],
    [0, 3],
    [3, 0],
    [1, 1],
    [1, 2],
    [1, 3],
    [2, 1],
    [2, 2],
    [2, 3],
    [3, 1],
    [3, 2],
    [3, 3],
    [4, 2],
    [4, 3],
];

/// Whether a granule is coded in short blocks, with or without a long part.
pub open spec fn has_short_blocks(channel: Channel) -> bool {
    channel.blocksplit_flag == 1 && channel.block_type == 2
}

/// The first long band of each of the four bands that granule 1 may share
/// with granule 0, and the end of the last.
pub open spec fn scfsi_band_start(band: int) -> int {
    if band <= 0 {
        0
    } else if band == 1 {
        6
    } else if band == 2 {
        11
    } else if band == 3 {
        16
    } else {
        21
    }
}

/// The width of the scale factors of a shared band.
pub open spec fn scfsi_band_width(band: int, slen1: int, slen2: int) -> int {
    if band < 2 {
        slen1
    } else {
        slen2
    }
}

/// The bits that the shared bands before `band` take in granule 1: a band
/// that granule 0 lends takes none.
pub open spec fn scfsi_band_offset(scfsi: Seq<usize>, band: int, slen1: int, slen2: int) -> int
    decreases band,
{
    if band <= 0 {
        0
    } else {
        scfsi_band_offset(scfsi, band - 1, slen1, slen2) + if scfsi[band - 1] == 1 {
            0
        } else {
            (scfsi_band_start(band) - scfsi_band_start(band - 1)) * scfsi_band_width(
                band - 1,
                slen1,
                slen2,
            )
        }
    }
}

/// The shared band that a long band below 21 lies in.
pub open spec fn scfsi_band_of(sfb: int) -> int {
    if sfb < 6 {
        0
    } else if sfb < 11 {
        1
    } else if sfb < 16 {
        2
    } else {
        3
    }
}

/// The number of bits that the scale factors of short blocks take.
pub open spec fn short_block_bits(switch_point: usize, slen1: int, slen2: int) -> int {
    if switch_point == 0 {
        18 * slen1 + 18 * slen2
    } else {
        17 * slen1 + 18 * slen2
    }
}

/// The number of bits that the scale factors of a granule of a channel take.
pub open spec fn scale_factor_bits(gr: usize, scfsi: Seq<usize>, channel: Channel) -> int {
    let slen1 = SLEN[channel.scalefac_compress as int][0] as int;
    let slen2 = SLEN[channel.scalefac_compress as int][1] as int;
    if has_short_blocks(channel) {
        short_block_bits(channel.switch_point, slen1, slen2)
    } else if gr == 0 {
        11 * slen1 + 10 * slen2
    } else {
        scfsi_band_offset(scfsi, 4, slen1, slen2)
    }
}

/// The long scale factor of band `sfb` of short blocks: the first 8 bands
/// below a switch point are coded, with the first width.
pub open spec fn short_block_long_factor(
    data: Seq<u8>,
    pos: int,
    switch_point: usize,
    slen1: int,
    sfb: int,
) -> usize {
    if switch_point != 0 && sfb < 8 {
        field(data, pos + sfb * slen1, slen1)
    } else {
        0
    }
}

/// The short scale factor of band `sfb` and window `window` of short blocks:
/// coded from band 0, or from band 3 behind the 8 long bands below a switch
/// point; bands below 6 have the first width, bands 6 to 11 the second, and
/// band 12 has none.
pub open spec fn short_block_short_factor(
    data: Seq<u8>,
    pos: int,
    switch_point: usize,
    slen1: int,
    slen2: int,
    sfb: int,
    window: int,
) -> usize {
    let first: int = if switch_point == 0 {
        0
    } else {
        3
    };
    let long_bits = if switch_point == 0 {
        0
    } else {
        8 * slen1
    };
    if sfb < first || sfb >= 12 {
        0
    } else if sfb < 6 {
        field(data, pos + long_bits + (3 * (sfb - first) + window) * slen1, slen1)
    } else {
        field(
            data,
            pos + long_bits + 3 * (6 - first) * slen1 + (3 * (sfb - 6) + window) * slen2,
            slen2,
        )
    }
}

/// The long scale factor of band `sfb` of long blocks in granule 0: 11 bands
/// of the first width, then 10 of the second.
pub open spec fn first_granule_factor(
    data: Seq<u8>,
    pos: int,
    slen1: int,
    slen2: int,
    sfb: int,
) -> usize {
    if sfb >= 21 {
        0
    } else if sfb < 11 {
        field(data, pos + sfb * slen1, slen1)
    } else {
        field(data, pos + 11 * slen1 + (sfb - 11) * slen2, slen2)
    }
}

/// The long scale factor of band `sfb` of long blocks in a granule after the
/// first: a band that granule 0 lends has its values, the others are coded.
pub open spec fn later_granule_factor(
    data: Seq<u8>,
    pos: int,
    scfsi: Seq<usize>,
    slen1: int,
    slen2: int,
    sf_gr0: ScaleFactor,
    sfb: int,
) -> usize {
    let band = scfsi_band_of(sfb);
    let width = scfsi_band_width(band, slen1, slen2);
    if sfb >= 21 {
        0
    } else if scfsi[band] == 1 {
        sf_gr0.sf_l[sfb]
    } else {
        field(
            data,
            pos + scfsi_band_offset(scfsi, band, slen1, slen2) + (sfb - scfsi_band_start(band))
                * width,
            width,
        )
    }
}

/// The scale factor of long band `sfb`, for scale factors that begin at bit
/// `pos` of `data`.
pub open spec fn scale_factor_long(
    data: Seq<u8>,
    pos: int,
    gr: usize,
    scfsi: Seq<usize>,
    channel: Channel,
    sf_gr0: ScaleFactor,
    sfb: int,
) -> usize {
    let slen1 = SLEN[channel.scalefac_compress as int][0] as int;
    let slen2 = SLEN[channel.scalefac_compress as int][1] as int;
    if has_short_blocks(channel) {
        short_block_long_factor(data, pos, channel.switch_point, slen1, sfb)
    } else if gr == 0 {
        first_granule_factor(data, pos, slen1, slen2, sfb)
    } else {
        later_granule_factor(data, pos, scfsi, slen1, slen2, sf_gr0, sfb)
    }
}

/// The scale factor of short band `sfb` and window `window`, for scale
/// factors that begin at bit `pos` of `data`.  Long blocks have none.
pub open spec fn scale_factor_short(
    data: Seq<u8>,
    pos: int,
    channel: Channel,
    sfb: int,
    window: int,
) -> usize {
    let slen1 = SLEN[channel.scalefac_compress as int][0] as int;
    let slen2 = SLEN[channel.scalefac_compress as int][1] as int;
    if has_short_blocks(channel) {
        short_block_short_factor(data, pos, channel.switch_point, slen1, slen2, sfb, window)
    } else {
        0
    }
}

/// A field of at most 4 bits is below 16.
proof fn lemma_small_field(data: Seq<u8>, pos: int, width: int)
    requires
        0 <= width <= 4,
    ensures
        field(data, pos, width) < 16,
{
    lemma_bits_value_bound(data, pos, width);
    lemma_bits_value_fits(data, pos, width);
    lemma2_to64();
    if width < 4 {
        vstd::arithmetic::power2::lemma_pow2_strictly_increases(width as nat, 4);
    }
}

/// Reads the long scale factors `from..to`, each `width` bits wide.
fn read_long_bands<R: BitReader>(
    bs: &mut BitStream<R>,
    sf_l: &mut [usize; 23],
    from: usize,
    to: usize,
    width: usize,
)
    requires
        old(bs).wf(),
        from <= to <= 23,
        width <= 4,
        bits_available(old(bs).data(), old(bs).position(), (to - from) * width),
    ensures
        final(bs).wf(),
        final(bs).data() == old(bs).data(),
        final(bs).position() == old(bs).position() + (to - from) * width,
        forall|sfb: int|
            0 <= sfb < 23 ==> #[trigger] final(sf_l)[sfb] == (if from <= sfb < to {
                field(old(bs).data(), old(bs).position() + (sfb - from) * width, width as int)
            } else {
                old(sf_l)[sfb]
            }),
        forall|sfb: int| from <= sfb < to ==> #[trigger] final(sf_l)[sfb] < 16,
{
    let ghost data = bs.data();
    let ghost start = bs.position();
    let mut sfb: usize = from;
    while sfb < to
        invariant
            bs.wf(),
            bs.data() == data,
            from <= sfb <= to <= 23,
            width <= 4,
            bits_available(data, start, (to - from) * width),
            bs.position() == start + (sfb - from) * width,
            forall|k: int|
                0 <= k < 23 ==> #[trigger] sf_l[k] == (if from <= k < sfb {
                    field(data, start + (k - from) * width, width as int)
                } else {
                    old(sf_l)[k]
                }),
            forall|k: int| from <= k < sfb ==> #[trigger] sf_l[k] < 16,
        decreases to - sfb,
    {
        proof {
            lemma_small_field(data, bs.position(), width as int);
            assert((sfb + 1 - from) * width == (sfb - from) * width + width) by (nonlinear_arith);
            assert((sfb + 1 - from) * width <= (to - from) * width) by (nonlinear_arith)
                requires
                    sfb + 1 <= to,
                    from <= sfb,
            ;
        }
        sf_l[sfb] = bs.take(width);
        sfb = sfb + 1;
    }
}

/// Reads the short scale factors of bands `from..to`, three windows each,
/// each `width` bits wide.
fn read_short_bands<R: BitReader>(
    bs: &mut BitStream<R>,
    sf_s: &mut [[usize; 3]; 13],
    from: usize,
    to: usize,
    width: usize,
)
    requires
        old(bs).wf(),
        from <= to <= 13,
        width <= 4,
        bits_available(old(bs).data(), old(bs).position(), 3 * (to - from) * width),
    ensures
        final(bs).wf(),
        final(bs).data() == old(bs).data(),
        final(bs).position() == old(bs).position() + 3 * (to - from) * width,
        forall|sfb: int, window: int|
            0 <= sfb < 13 && 0 <= window < 3 ==> #[trigger] final(sf_s)[sfb][window] == (if from
                <= sfb < to {
                field(
                    old(bs).data(),
                    old(bs).position() + (3 * (sfb - from) + window) * width,
                    width as int,
                )
            } else {
                old(sf_s)[sfb][window]
            }),
        forall|sfb: int, window: int|
            from <= sfb < to && 0 <= window < 3 ==> #[trigger] final(sf_s)[sfb][window] < 16,
{
    let ghost data = bs.data();
    let ghost start = bs.position();
    let mut sfb: usize = from;
    while sfb < to
        invariant
            bs.wf(),
            bs.data() == data,
            from <= sfb <= to <= 13,
            width <= 4,
            bits_available(data, start, 3 * (to - from) * width),
            bs.position() == start + 3 * (sfb - from) * width,
            forall|k: int, w: int|
                0 <= k < 13 && 0 <= w < 3 ==> #[trigger] sf_s[k][w] == (if from <= k < sfb {
                    field(data, start + (3 * (k - from) + w) * width, width as int)
                } else {
                    old(sf_s)[k][w]
                }),
            forall|k: int, w: int| from <= k < sfb && 0 <= w < 3 ==> #[trigger] sf_s[k][w] < 16,
        decreases to - sfb,
    {
        proof {
            lemma_small_field(data, bs.position(), width as int);
            lemma_small_field(data, bs.position() + width, width as int);
            lemma_small_field(data, bs.position() + 2 * width, width as int);
            let base = 3 * (sfb - from);
            assert((base + 0) * width == 3 * (sfb - from) * width) by (nonlinear_arith)
                requires
                    base == 3 * (sfb - from),
            ;
            assert((base + 1) * width == (base + 0) * width + width) by (nonlinear_arith);
            assert((base + 2) * width == (base + 1) * width + width) by (nonlinear_arith);
            assert(3 * (sfb + 1 - from) * width == (base + 2) * width + width) by (nonlinear_arith)
                requires
                    base == 3 * (sfb - from),
            ;
            assert(3 * (sfb + 1 - from) * width <= 3 * (to - from) * width) by (nonlinear_arith)
                requires
                    sfb + 1 <= to,
                    from <= sfb,
            ;
        }
        let first: usize = bs.take(width);
        let second: usize = bs.take(width);
        let third: usize = bs.take(width);
        sf_s[sfb] = [first, second, third];
        sfb = sfb + 1;
    }
}

/// Reads the scale factors of granule `gr` of a channel from the main data.
///
/// `scfsi` says, band by band, whether a granule after the first takes its
/// long scale factors from granule 0, whose scale factors are `sf_gr0`.
/// Fails, and leaves the cursor alone, where the main data ends before the
/// scale factors do.
pub fn parse_scale_factor<R: BitReader>(
    gr: usize,
    bs: &mut BitStream<R>,
    scfsi: &[usize; 4],
    channel: &Channel,
    sf_gr0: ScaleFactor,
) -> (r: Result<ScaleFactor, BitStreamErrorType>)
    requires
        old(bs).wf(),
        channel.wf(),
    ensures
        final(bs).wf(),
        final(bs).data() == old(bs).data(),
        match r {
            Ok(sf) => {
                &&& bits_available(
                    old(bs).data(),
                    old(bs).position(),
                    scale_factor_bits(gr, scfsi@, *channel),
                )
                &&& final(bs).position() == old(bs).position() + scale_factor_bits(
                    gr,
                    scfsi@,
                    *channel,
                )
                &&& forall|sfb: int|
                    0 <= sfb < 23 ==> #[trigger] sf.sf_l[sfb] == scale_factor_long(
                        old(bs).data(),
                        old(bs).position(),
                        gr,
                        scfsi@,
                        *channel,
                        sf_gr0,
                        sfb,
                    )
                &&& forall|sfb: int, window: int|
                    0 <= sfb < 13 && 0 <= window < 3 ==> #[trigger] sf.sf_s[sfb][window]
                        == scale_factor_short(
                        old(bs).data(),
                        old(bs).position(),
                        *channel,
                        sfb,
                        window,
                    )
                &&& gr != 0 && !has_short_blocks(*channel) ==> forall|sfb: int|
                    0 <= sfb < 21 && scfsi[scfsi_band_of(sfb)] == 1 ==> #[trigger] sf.sf_l[sfb]
                        == sf_gr0.sf_l[sfb]
                &&& sf_gr0.wf() ==> sf.wf()
            },
            Err(e) => {
                &&& !bits_available(
                    old(bs).data(),
                    old(bs).position(),
                    scale_factor_bits(gr, scfsi@, *channel),
                )
                &&& e == BitStreamErrorType::Empty
                &&& final(bs).position() == old(bs).position()
            },
        },
{
    let slen1: usize = SLEN[channel.scalefac_compress][0];
    let slen2: usize = SLEN[channel.scalefac_compress][1];
    if channel.blocksplit_flag == 1 && channel.block_type == 2 {
        read_short_block_factors(bs, channel.switch_point, slen1, slen2)
    } else if gr == 0 {
        read_first_granule_factors(bs, slen1, slen2)
    } else {
        read_later_granule_factors(bs, scfsi, slen1, slen2, &sf_gr0)
    }
}

/// Reads the scale factors of short blocks.
fn read_short_block_factors<R: BitReader>(
    bs: &mut BitStream<R>,
    switch_point: usize,
    slen1: usize,
    slen2: usize,
) -> (r: Result<ScaleFactor, BitStreamErrorType>)
    requires
        old(bs).wf(),
        slen1 <= 4,
        slen2 <= 4,
    ensures
        final(bs).wf(),
        final(bs).data() == old(bs).data(),
        r is Ok <==> bits_available(
            old(bs).data(),
            old(bs).position(),
            short_block_bits(switch_point, slen1 as int, slen2 as int),
        ),
        r matches Err(e) ==> {
            &&& e == BitStreamErrorType::Empty
            &&& final(bs).position() == old(bs).position()
        },
        r matches Ok(sf) ==> {
            &&& final(bs).position() == old(bs).position() + short_block_bits(
                switch_point,
                slen1 as int,
                slen2 as int,
            )
            &&& forall|sfb: int|
                0 <= sfb < 23 ==> #[trigger] sf.sf_l[sfb] == short_block_long_factor(
                    old(bs).data(),
                    old(bs).position(),
                    switch_point,
                    slen1 as int,
                    sfb,
                )
            &&& forall|sfb: int, window: int|
                0 <= sfb < 13 && 0 <= window < 3 ==> #[trigger] sf.sf_s[sfb][window]
                    == short_block_short_factor(
                    old(bs).data(),
                    old(bs).position(),
                    switch_point,
                    slen1 as int,
                    slen2 as int,
                    sfb,
                    window,
                )
            &&& sf.wf()
        },
{
    let mut sf_l: [usize; 23] = [0usize;23];
    let mut sf_s: [[usize; 3]; 13] = [[0usize;3];13];
    if switch_point == 0 {
        if !bs.has_bits(18 * slen1 + 18 * slen2) {
            return Err(BitStreamErrorType::Empty);
        }
        read_short_bands(bs, &mut sf_s, 0, 6, slen1);
        read_short_bands(bs, &mut sf_s, 6, 12, slen2);
    } else {
        if !bs.has_bits(17 * slen1 + 18 * slen2) {
            return Err(BitStreamErrorType::Empty);
        }
        read_long_bands(bs, &mut sf_l, 0, 8, slen1);
        read_short_bands(bs, &mut sf_s, 3, 6, slen1);
        read_short_bands(bs, &mut sf_s, 6, 12, slen2);
    }
    Ok(ScaleFactor { sf_l, sf_s })
}

/// Reads the scale factors of long blocks in granule 0.
fn read_first_granule_factors<R: BitReader>(bs: &mut BitStream<R>, slen1: usize, slen2: usize) -> (r:
    Result<ScaleFactor, BitStreamErrorType>)
    requires
        old(bs).wf(),
        slen1 <= 4,
        slen2 <= 4,
    ensures
        final(bs).wf(),
        final(bs).data() == old(bs).data(),
        r is Ok <==> bits_available(old(bs).data(), old(bs).position(), 11 * slen1 + 10 * slen2),
        r matches Err(e) ==> {
            &&& e == BitStreamErrorType::Empty
            &&& final(bs).position() == old(bs).position()
        },
        r matches Ok(sf) ==> {
            &&& final(bs).position() == old(bs).position() + 11 * slen1 + 10 * slen2
            &&& forall|sfb: int|
                0 <= sfb < 23 ==> #[trigger] sf.sf_l[sfb] == first_granule_factor(
                    old(bs).data(),
                    old(bs).position(),
                    slen1 as int,
                    slen2 as int,
                    sfb,
                )
            &&& forall|sfb: int, window: int|
                0 <= sfb < 13 && 0 <= window < 3 ==> #[trigger] sf.sf_s[sfb][window] == 0
            &&& sf.wf()
        },
{
    let mut sf_l: [usize; 23] = [0usize;23];
    let sf_s: [[usize; 3]; 13] = [[0usize;3];13];
    if !bs.has_bits(11 * slen1 + 10 * slen2) {
        return Err(BitStreamErrorType::Empty);
    }
    read_long_bands(bs, &mut sf_l, 0, 11, slen1);
    read_long_bands(bs, &mut sf_l, 11, 21, slen2);
    Ok(ScaleFactor { sf_l, sf_s })
}

/// Reads the scale factors of long blocks in a granule after the first.
fn read_later_granule_factors<R: BitReader>(
    bs: &mut BitStream<R>,
    scfsi: &[usize; 4],
    slen1: usize,
    slen2: usize,
    sf_gr0: &ScaleFactor,
) -> (r: Result<ScaleFactor, BitStreamErrorType>)
    requires
        old(bs).wf(),
        slen1 <= 4,
        slen2 <= 4,
    ensures
        final(bs).wf(),
        final(bs).data() == old(bs).data(),
        r is Ok <==> bits_available(
            old(bs).data(),
            old(bs).position(),
            scfsi_band_offset(scfsi@, 4, slen1 as int, slen2 as int),
        ),
        r matches Err(e) ==> {
            &&& e == BitStreamErrorType::Empty
            &&& final(bs).position() == old(bs).position()
        },
        r matches Ok(sf) ==> {
            &&& final(bs).position() == old(bs).position() + scfsi_band_offset(
                scfsi@,
                4,
                slen1 as int,
                slen2 as int,
            )
            &&& forall|sfb: int|
                0 <= sfb < 23 ==> #[trigger] sf.sf_l[sfb] == later_granule_factor(
                    old(bs).data(),
                    old(bs).position(),
                    scfsi@,
                    slen1 as int,
                    slen2 as int,
                    *sf_gr0,
                    sfb,
                )
            &&& forall|sfb: int, window: int|
                0 <= sfb < 13 && 0 <= window < 3 ==> #[trigger] sf.sf_s[sfb][window] == 0
            &&& sf_gr0.wf() ==> sf.wf()
        },
{
    let ghost data = bs.data();
    let ghost pos = bs.position();
    let mut sf_l: [usize; 23] = [0usize;23];
    let sf_s: [[usize; 3]; 13] = [[0usize;3];13];
    proof {
        reveal_with_fuel(scfsi_band_offset, 5);
    }
    let mut needed: usize = 0;
    let mut band: usize = 0;
    while band < 4
        invariant
            band <= 4,
            slen1 <= 4,
            slen2 <= 4,
            needed == scfsi_band_offset(scfsi@, band as int, slen1 as int, slen2 as int),
            needed <= 24 * band,
        decreases 4 - band,
    {
        if scfsi[band] != 1 {
            let len: usize = band_len(band);
            let width: usize = band_width(band, slen1, slen2);
            assert(len * width <= 24) by (nonlinear_arith)
                requires
                    len <= 6,
                    width <= 4,
            ;
            needed = needed + len * width;
        }
        band = band + 1;
    }
    if !bs.has_bits(needed) {
        return Err(BitStreamErrorType::Empty);
    }
    let mut band: usize = 0;
    while band < 4
        invariant
            band <= 4,
            slen1 <= 4,
            slen2 <= 4,
            bs.wf(),
            bs.data() == data,
            bits_available(data, pos, scfsi_band_offset(scfsi@, 4, slen1 as int, slen2 as int)),
            bs.position() == pos + scfsi_band_offset(
                scfsi@,
                band as int,
                slen1 as int,
                slen2 as int,
            ),
            forall|sfb: int|
                0 <= sfb < 23 ==> #[trigger] sf_l[sfb] == (if sfb < scfsi_band_start(band as int) {
                    later_granule_factor(data, pos, scfsi@, slen1 as int, slen2 as int, *sf_gr0, sfb)
                } else {
                    0
                }),
            sf_gr0.wf() ==> forall|sfb: int| 0 <= sfb < 23 ==> #[trigger] sf_l[sfb] < 16,
        decreases 4 - band,
    {
        let from: usize = band_first(band);
        let to: usize = band_first(band + 1);
        let width: usize = band_width(band, slen1, slen2);
        proof {
            lemma_band_offset_grows(scfsi@, band as int + 1, 4, slen1 as int, slen2 as int);
            lemma_band_offset_grows(scfsi@, band as int, band as int + 1, slen1 as int, slen2 as int);
            assert(scfsi_band_offset(scfsi@, band as int + 1, slen1 as int, slen2 as int)
                == scfsi_band_offset(scfsi@, band as int, slen1 as int, slen2 as int) + (if scfsi[band as int]
                == 1 {
                0
            } else {
                (to - from) * width
            }));
        }
        if scfsi[band] == 1 {
            copy_long_bands(&mut sf_l, &sf_gr0.sf_l, from, to);
        } else {
            read_long_bands(bs, &mut sf_l, from, to, width);
        }
        band = band + 1;
    }
    Ok(ScaleFactor { sf_l, sf_s })
}

/// The first long band of shared band `band`; 21 for the end of the last.
fn band_first(band: usize) -> (first: usize)
    requires
        band <= 4,
    ensures
        first == scfsi_band_start(band as int),
        first <= 21,
{
    if band == 0 {
        0
    } else if band == 1 {
        6
    } else if band == 2 {
        11
    } else if band == 3 {
        16
    } else {
        21
    }
}

/// The number of long bands in shared band `band`.
fn band_len(band: usize) -> (len: usize)
    requires
        band < 4,
    ensures
        len == scfsi_band_start(band as int + 1) - scfsi_band_start(band as int),
        len <= 6,
{
    if band == 0 {
        6
    } else {
        5
    }
}

/// The width of the scale factors of shared band `band`.
fn band_width(band: usize, slen1: usize, slen2: usize) -> (width: usize)
    ensures
        width == scfsi_band_width(band as int, slen1 as int, slen2 as int),
        width == slen1 || width == slen2,
{
    if band < 2 {
        slen1
    } else {
        slen2
    }
}

/// The bits before a shared band are no more than the bits before a later one.
proof fn lemma_band_offset_grows(scfsi: Seq<usize>, from: int, to: int, slen1: int, slen2: int)
    requires
        0 <= from <= to,
        0 <= slen1,
        0 <= slen2,
    ensures
        0 <= scfsi_band_offset(scfsi, from, slen1, slen2) <= scfsi_band_offset(
            scfsi,
            to,
            slen1,
            slen2,
        ),
    decreases to,
{
    if to > 0 {
        if from < to {
            lemma_band_offset_grows(scfsi, from, to - 1, slen1, slen2);
        } else {
            lemma_band_offset_grows(scfsi, from - 1, to - 1, slen1, slen2);
        }
        assert((scfsi_band_start(to) - scfsi_band_start(to - 1)) * scfsi_band_width(
            to - 1,
            slen1,
            slen2,
        ) >= 0) by (nonlinear_arith)
            requires
                scfsi_band_start(to) - scfsi_band_start(to - 1) >= 0,
                scfsi_band_width(to - 1, slen1, slen2) >= 0,
        ;
    }
}

/// Copies the long scale factors `from..to` of `source`.
fn copy_long_bands(sf_l: &mut [usize; 23], source: &[usize; 23], from: usize, to: usize)
    requires
        from <= to <= 23,
    ensures
        forall|sfb: int|
            0 <= sfb < 23 ==> #[trigger] final(sf_l)[sfb] == (if from <= sfb < to {
                source[sfb]
            } else {
                old(sf_l)[sfb]
            }),
{
    let mut sfb: usize = from;
    while sfb < to
        invariant
            from <= sfb <= to <= 23,
            forall|k: int|
                0 <= k < 23 ==> #[trigger] sf_l[k] == (if from <= k < sfb {
                    source[k]
                } else {
                    old(sf_l)[k]
                }),
        decreases to - sfb,
    {
        sf_l[sfb] = source[sfb];
        sfb = sfb + 1;
    }
}

} // verus!
