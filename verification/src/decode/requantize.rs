//! The exponents of requantization.
//!
//! A quantized line `x` stands for `sign(x) * |x|^(4/3) * 2^(a/4) * 2^(-b/2)`,
//! where `a` and `b` depend on the scale-factor band of the line, and for
//! short blocks on its window.  This module finds `a` and `b` for each line;
//! the powers are taken elsewhere.

use crate::decode::{lemma_short_band_of, short_band_of, windows_width};
use crate::huffman::tables::{BAND_INDEX_L, BAND_INDEX_S, BAND_WIDTH_S};
use crate::mpeg_frame::types::{Channel, ScaleFactor};
use crate::mpeg_frame::MpegHeader;
use vstd::prelude::*;

verus! {

/// What the scale factors of the upper long bands gain where `preflag` is
/// set.
pub const PRETAB: [usize; 23] = [
    0, 0, 0, 0, 0, 0, 0, 0, 0, 0, 0, 1, 1, 1, 1, 2, 2, 3, 3, 3, 2, 0, 0,
];

/// The exponents of a line: it is scaled by `2^(quarter_steps / 4)` and by
/// `2^(-half_steps / 2)`.
#[derive(Debug, Clone, Copy, PartialEq, Eq, Structural)]
pub struct SampleGain {
    pub quarter_steps: i32,
    pub half_steps: u32,
}

/// The long band that line `n` lies in, searched from `band` on.
pub open spec fn long_band_from(sr: int, n: int, band: int) -> int
    decreases 21 - band,
{
    if band >= 21 || n < BAND_INDEX_L[sr][band + 1] {
        band
    } else {
        long_band_from(sr, n, band + 1)
    }
}

/// The long band that line `n` lies in.
pub open spec fn long_band_of(sr: int, n: int) -> int {
    long_band_from(sr, n, 0)
}

/// The window of its short band that line `n` lies in: the lines of a band
/// are those of its first window, then of its second, then of its third.
pub open spec fn short_window_of(sr: int, n: int) -> int {
    let band = short_band_of(sr, n / 3);
    let rel = n - 3 * BAND_INDEX_S[sr][band];
    let width = BAND_WIDTH_S[sr][band] as int;
    if rel < width {
        0
    } else if rel < 2 * width {
        1
    } else {
        2
    }
}

/// The exponents of a line of short band `sfb` and window `window`.
pub open spec fn short_gain(channel: Channel, sf: ScaleFactor, sfb: int, window: int) -> SampleGain {
    SampleGain {
        quarter_steps: (channel.global_gain - 210 - 8 * channel.subblock_gain[window]) as i32,
        half_steps: ((channel.scalefac_scale + 1) * sf.sf_s[sfb][window]) as u32,
    }
}

/// The exponents of a line of long band `sfb`.
pub open spec fn long_gain(channel: Channel, sf: ScaleFactor, sfb: int) -> SampleGain {
    SampleGain {
        quarter_steps: (channel.global_gain - 210) as i32,
        half_steps: ((channel.scalefac_scale + 1) * (sf.sf_l[sfb] + channel.preflag * PRETAB[sfb]))
            as u32,
    }
}

/// The exponents of line `n` of a granule.
///
/// A granule of short blocks takes every line by its short band and window.
/// Any other granule takes its lines by their long bands; but where its
/// switch point is set, the lines behind the first of long band 8 are all
/// taken as window 0 of short band 8.  A switch point without short blocks
/// is no valid granule: the format has a switch point in short blocks only,
/// and no encoder writes one elsewhere.  What is given for it is what a band
/// cursor gives that has gone over to short bands and finds no window there
/// to end.
pub open spec fn sample_gain(sr: int, channel: Channel, sf: ScaleFactor, n: int) -> SampleGain {
    if channel.block_type == 2 {
        short_gain(channel, sf, short_band_of(sr, n / 3), short_window_of(sr, n))
    } else if channel.switch_point == 1 && n > BAND_INDEX_L[sr][8] {
        short_gain(channel, sf, 8, 0)
    } else {
        long_gain(channel, sf, long_band_of(sr, n))
    }
}

/// Whether the band cursor `(sfb, window, i)` is where it belongs before
/// line `n` is taken: on the band and window of the line before, with `i`
/// lines of the window done.
spec fn cursor_fits(sr: int, channel: Channel, n: int, sfb: int, window: int, i: int) -> bool {
    if channel.block_type == 2 {
        &&& 0 <= sfb < 13
        &&& 0 <= window < 3
        &&& 0 <= i <= BAND_WIDTH_S[sr][sfb]
        &&& 3 * BAND_INDEX_S[sr][sfb] + windows_width(window, BAND_WIDTH_S[sr][sfb] as int) + i == n
    } else if channel.switch_point == 1 && n > BAND_INDEX_L[sr][8] {
        sfb == 8 && window == 0 && i == n
    } else {
        &&& 0 <= sfb < 22
        &&& window == 0
        &&& i == n
        &&& BAND_INDEX_L[sr][sfb] <= n <= BAND_INDEX_L[sr][sfb + 1]
        &&& channel.switch_point == 1 ==> sfb < 8
    }
}

/// A line lies in the long band between whose bounds it is.
proof fn lemma_long_band_of(sr: int, n: int, band: int)
    requires
        0 <= sr < 3,
        0 <= band < 22,
        BAND_INDEX_L[sr][band] <= n < BAND_INDEX_L[sr][band + 1],
    ensures
        long_band_of(sr, n) == band,
{
    reveal_with_fuel(long_band_from, 23);
}

/// Finds the exponents of the 576 lines of a granule of a channel.
pub fn requantize_exponents(header: &MpegHeader, sf: &ScaleFactor, channel: &Channel) -> (gains: [SampleGain;
    576])
    requires
        header.sample_rate.spec_get_value() < 3,
        channel.wf(),
        sf.wf(),
    ensures
        forall|n: int|
            0 <= n < 576 ==> #[trigger] gains[n] == sample_gain(
                header.sample_rate.spec_get_value() as int,
                *channel,
                *sf,
                n,
            ),
{
    let sr: usize = header.sample_rate.get_value();
    let base: i32 = channel.global_gain as i32 - 210;
    let scale: u32 = channel.scalefac_scale as u32 + 1;
    let mut gains: [SampleGain; 576] = [SampleGain { quarter_steps: 0, half_steps: 0 };576];
    let mut sfb: usize = 0;
    let mut window: usize = 0;
    let mut i: usize = 0;
    let mut sample: usize = 0;
    while sample < 576
        invariant
            sr < 3,
            sr == header.sample_rate.spec_get_value(),
            channel.wf(),
            sf.wf(),
            base == channel.global_gain - 210,
            scale == channel.scalefac_scale + 1,
            sample <= 576,
            sample < 576 ==> cursor_fits(
                sr as int,
                *channel,
                sample as int,
                sfb as int,
                window as int,
                i as int,
            ),
            forall|n: int|
                0 <= n < sample ==> #[trigger] gains[n] == sample_gain(sr as int, *channel, *sf, n),
        decreases 576 - sample,
    {
        let gain: SampleGain;
        if channel.block_type == 2 || (channel.switch_point == 1 && sfb >= 8) {
            proof {
                if channel.block_type == 2 {
                    crate::huffman::tables::lemma_short_bands_add_up(sr as int, sfb as int);
                }
            }
            if i == BAND_WIDTH_S[sr][sfb] {
                i = 0;
                if window == 2 {
                    window = 0;
                    sfb = sfb + 1;
                } else {
                    window = window + 1;
                }
            }
            proof {
                if channel.block_type == 2 {
                    assert(sfb < 13) by {
                        if sfb == 13 {
                            assert(3 * BAND_INDEX_S[sr as int][13] == 576);
                        }
                    }
                    crate::huffman::tables::lemma_short_bands_add_up(sr as int, sfb as int);
                    lemma_short_band_of(sr as int, sample as int / 3, sfb as int);
                    assert(short_window_of(sr as int, sample as int) == window);
                }
            }
            let factor: u32 = sf.sf_s[sfb][window] as u32;
            assert(scale * factor <= 32) by (nonlinear_arith)
                requires
                    scale <= 2,
                    factor < 16,
            ;
            gain =
            SampleGain {
                quarter_steps: base - 8 * channel.subblock_gain[window] as i32,
                half_steps: scale * factor,
            };
        } else {
            if sample == BAND_INDEX_L[sr][sfb + 1] {
                sfb = sfb + 1;
            }
            proof {
                assert(sfb < 22) by {
                    if sfb == 22 {
                        assert(BAND_INDEX_L[sr as int][22] == 576);
                    }
                }
                crate::huffman::tables::lemma_long_bands_ascend(sr as int, sfb as int);
                lemma_long_band_of(sr as int, sample as int, sfb as int);
            }
            let boost: u32 = if channel.preflag == 1 {
                PRETAB[sfb] as u32
            } else {
                0
            };
            assert(boost == channel.preflag * PRETAB[sfb as int]) by (nonlinear_arith)
                requires
                    channel.preflag == 0 || channel.preflag == 1,
                    boost == (if channel.preflag == 1 {
                        PRETAB[sfb as int] as int
                    } else {
                        0int
                    }),
            ;
            let factor: u32 = sf.sf_l[sfb] as u32 + boost;
            assert(scale * factor <= 64) by (nonlinear_arith)
                requires
                    scale <= 2,
                    factor < 32,
            ;
            gain = SampleGain { quarter_steps: base, half_steps: scale * factor };
        }
        assert(gain == sample_gain(sr as int, *channel, *sf, sample as int));
        gains[sample] = gain;
        i = i + 1;
        sample = sample + 1;
    }
    gains
}

} // verus!
