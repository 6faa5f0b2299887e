//! The stages between the quantized lines and the transforms, as far as they
//! are integer work: the order of the lines of short blocks and the exponents
//! of requantization.

use crate::huffman::tables::{BAND_INDEX_S, BAND_WIDTH_S};
use crate::mpeg_frame::types::{Channel, MpegChannelMode};
use crate::mpeg_frame::MpegHeader;
use vstd::prelude::*;

pub mod requantize;
pub mod synthesis;

verus! {

/// The number of lines of a subband.
pub const SUBBAND_SIZE_L: usize = 18;

/// The number of lines of a window of a subband of short blocks.
pub const SUBBAND_SIZE_S: usize = 6;

/// Whether the two channels of a frame are coded as their sum and their
/// difference: in joint stereo with the mid/side tool switched on.
pub open spec fn spec_uses_ms_stereo(header: &MpegHeader) -> bool {
    header.channel == MpegChannelMode::JointStereo && header.mode_extension.ms_stereo
}

#[verifier::when_used_as_spec(spec_uses_ms_stereo)]
pub fn uses_ms_stereo(header: &MpegHeader) -> (b: bool)
    ensures
        b == spec_uses_ms_stereo(header),
{
    header.channel == MpegChannelMode::JointStereo && header.mode_extension.ms_stereo
}

/// Whether the lines of a granule are reordered: those of short blocks, and
/// those of a granule with a switch point.
pub open spec fn spec_needs_reorder(channel: &Channel) -> bool {
    channel.block_type == 2 || channel.switch_point == 1
}

#[verifier::when_used_as_spec(spec_needs_reorder)]
pub fn needs_reorder(channel: &Channel) -> (b: bool)
    ensures
        b == spec_needs_reorder(channel),
{
    channel.block_type == 2 || channel.switch_point == 1
}

/// The subband before which the alias reduction of a granule ends: it works
/// on the boundaries before the subbands from 1 up to this one.  A granule
/// with a switch point has it for its long part only, which is the boundary
/// before subband 1; short blocks without a long part have none; long blocks
/// have it on every boundary.
pub open spec fn spec_anti_alias_end(channel: &Channel) -> usize {
    if channel.switch_point == 1 {
        2
    } else if channel.block_type == 2 {
        1
    } else {
        32
    }
}

#[verifier::when_used_as_spec(spec_anti_alias_end)]
pub fn anti_alias_end(channel: &Channel) -> (end: usize)
    ensures
        end == spec_anti_alias_end(channel),
{
    if channel.switch_point == 1 {
        2
    } else if channel.block_type == 2 {
        1
    } else {
        32
    }
}

/// Whether frequency inversion changes the sign of line `k` of a granule:
/// every other line of every other subband.
pub open spec fn spec_is_inverted(k: usize) -> bool {
    (k % 18) % 2 == 1 && (k / 18) % 2 == 1
}

#[verifier::when_used_as_spec(spec_is_inverted)]
pub fn is_inverted(k: usize) -> (b: bool)
    ensures
        b == spec_is_inverted(k),
{
    (k % SUBBAND_SIZE_L) % 2 == 1 && (k / SUBBAND_SIZE_L) % 2 == 1
}

/// The first short band that is reordered: 3 behind the long part of a mixed
/// granule, else 0.
pub open spec fn reorder_first_band(switch_point: usize) -> int {
    if switch_point == 1 {
        3
    } else {
        0
    }
}

/// The first line of a window that is reordered.
pub open spec fn reorder_first_line(sr: int, switch_point: usize) -> int {
    BAND_INDEX_S[sr][reorder_first_band(switch_point)] as int
}

/// The short band that line `line` of a window lies in, searched from `band`
/// on.
pub open spec fn short_band_from(sr: int, line: int, band: int) -> int
    decreases 12 - band,
{
    if band >= 12 || line < BAND_INDEX_S[sr][band + 1] {
        band
    } else {
        short_band_from(sr, line, band + 1)
    }
}

/// The short band that line `line` of a window lies in.
pub open spec fn short_band_of(sr: int, line: int) -> int {
    short_band_from(sr, line, 0)
}

/// `window` times `width`, for one of the three windows.
pub open spec fn windows_width(window: int, width: int) -> int {
    if window <= 0 {
        0
    } else if window == 1 {
        width
    } else {
        2 * width
    }
}

/// The line of its window that place `k` holds, where the places from
/// `3 * first` on are subbands of 18, each three windows of 6, and the first
/// of them holds line `first`.
pub open spec fn place_line(first: int, k: int) -> int {
    first + ((k - 3 * first) / 18) * 6 + (k - 3 * first) % 6
}

/// The window that place `k` belongs to.
pub open spec fn place_window(first: int, k: int) -> int {
    ((k - 3 * first) % 18) / 6
}

/// The place of the decoded granule whose line goes to place `k` of the
/// reordered one.
///
/// The decoded lines of short blocks come band by band, within a band window
/// by window.  Reordered, they come subband by subband, within a subband
/// window by window, so that the lines of one window keep their order across
/// the bands.  The long part of a mixed granule, which lies before the first
/// short band that is reordered, stays where it is.
///
/// All thirteen short bands take part, the last one too, which has no scale
/// factors of its own: only so does every line keep its value.  With twelve
/// bands the lines of the last would have no place; and where the twelve do
/// not end with a subband, as at 44.1 kHz, places among them would have no
/// line.
pub open spec fn reorder_source(sr: int, switch_point: usize, k: int) -> int {
    let first = reorder_first_line(sr, switch_point);
    let line = place_line(first, k);
    let band = short_band_of(sr, line);
    if k < 3 * first {
        k
    } else {
        3 * BAND_INDEX_S[sr][band] + windows_width(
            place_window(first, k),
            BAND_WIDTH_S[sr][band] as int,
        ) + (line - BAND_INDEX_S[sr][band])
    }
}

/// The place of the reordered granule that the line at place `source` of the
/// decoded one goes to.
pub open spec fn reorder_place(sr: int, switch_point: usize, source: int) -> int {
    let first = reorder_first_line(sr, switch_point);
    let band = short_band_of(sr, source / 3);
    let rel = source - 3 * BAND_INDEX_S[sr][band];
    let width = BAND_WIDTH_S[sr][band] as int;
    let window: int = if rel < width {
        0
    } else if rel < 2 * width {
        1
    } else {
        2
    };
    let line = BAND_INDEX_S[sr][band] + rel - windows_width(window, width);
    if source < 3 * first {
        source
    } else {
        3 * first + 18 * ((line - first) / 6) + 6 * window + (line - first) % 6
    }
}

/// A line lies in the short band between whose bounds it is.
pub proof fn lemma_short_band_of(sr: int, line: int, band: int)
    requires
        0 <= sr < 3,
        0 <= band < 13,
        BAND_INDEX_S[sr][band] <= line < BAND_INDEX_S[sr][band + 1],
    ensures
        short_band_of(sr, line) == band,
{
    reveal_with_fuel(short_band_from, 14);
}

/// Every line of a window lies in one of the thirteen short bands.
pub proof fn lemma_short_band_bounds(sr: int, line: int)
    requires
        0 <= sr < 3,
        0 <= line < 192,
    ensures
        0 <= short_band_of(sr, line) < 13,
        BAND_INDEX_S[sr][short_band_of(sr, line)] <= line < BAND_INDEX_S[sr][short_band_of(sr, line)
            + 1],
{
    reveal_with_fuel(short_band_from, 14);
}

/// The place that holds line `line` of window `window`, and what it holds.
proof fn lemma_place_of_line(first: int, line: int, window: int)
    requires
        0 <= first <= line,
        0 <= window < 3,
    ensures
        ({
            let place = 3 * first + 18 * ((line - first) / 6) + 6 * window + (line - first) % 6;
            &&& place >= 3 * first
            &&& place_line(first, place) == line
            &&& place_window(first, place) == window
        }),
{
    let q = (line - first) / 6;
    let r = (line - first) % 6;
    let rel = 18 * q + 6 * window + r;
    assert(rel / 18 == q && rel % 18 == 6 * window + r);
    assert(rel % 6 == r);
    assert((6 * window + r) / 6 == window);
}

/// A place holds the line of its window that its line and window name.
proof fn lemma_line_of_place(first: int, k: int)
    requires
        0 <= first,
        3 * first <= k,
    ensures
        ({
            let line = place_line(first, k);
            let window = place_window(first, k);
            &&& first <= line
            &&& 0 <= window < 3
            &&& k == 3 * first + 18 * ((line - first) / 6) + 6 * window + (line - first) % 6
        }),
{
    let rel = k - 3 * first;
    assert(rel == 18 * (rel / 18) + rel % 18);
    assert(rel % 18 == 6 * ((rel % 18) / 6) + (rel % 18) % 6);
    assert((rel % 18) % 6 == rel % 6);
    let d = 6 * (rel / 18) + rel % 6;
    assert(d / 6 == rel / 18 && d % 6 == rel % 6);
}

/// The places from the first that is reordered to the end of the granule
/// hold the lines from the first that is reordered to the end of a window.
proof fn lemma_place_line_bound(sr: int, switch_point: usize, k: int)
    requires
        0 <= sr < 3,
        3 * reorder_first_line(sr, switch_point) <= k < 576,
    ensures
        reorder_first_line(sr, switch_point) <= place_line(
            reorder_first_line(sr, switch_point),
            k,
        ) < 192,
{
    let first = reorder_first_line(sr, switch_point);
    assert(first == 0 || first == 12);
    let rel = k - 3 * first;
    assert(rel == 18 * (rel / 18) + rel % 18);
}

/// Reordering loses no line and makes none twice: every place has its source
/// in the granule, every line its place, and the two undo each other.
pub proof fn lemma_reorder_is_permutation(sr: int, switch_point: usize, k: int)
    requires
        0 <= sr < 3,
        0 <= k < 576,
    ensures
        0 <= reorder_source(sr, switch_point, k) < 576,
        reorder_place(sr, switch_point, reorder_source(sr, switch_point, k)) == k,
        0 <= reorder_place(sr, switch_point, k) < 576,
        reorder_source(sr, switch_point, reorder_place(sr, switch_point, k)) == k,
        k < 3 * reorder_first_line(sr, switch_point) ==> reorder_source(sr, switch_point, k) == k,
{
    lemma_source_of_place(sr, switch_point, k);
    lemma_place_of_source(sr, switch_point, k);
}

/// The source of a place lies in the granule, and its place is that place.
proof fn lemma_source_of_place(sr: int, switch_point: usize, k: int)
    requires
        0 <= sr < 3,
        0 <= k < 576,
    ensures
        0 <= reorder_source(sr, switch_point, k) < 576,
        reorder_place(sr, switch_point, reorder_source(sr, switch_point, k)) == k,
        k >= 3 * reorder_first_line(sr, switch_point) ==> reorder_source(sr, switch_point, k) >= 3
            * reorder_first_line(sr, switch_point),
{
    let first = reorder_first_line(sr, switch_point);
    if k >= 3 * first {
        lemma_place_line_bound(sr, switch_point, k);
        lemma_line_of_place(first, k);
        let line = place_line(first, k);
        let window = place_window(first, k);
        lemma_short_band_bounds(sr, line);
        let band = short_band_of(sr, line);
        crate::huffman::tables::lemma_short_bands_add_up(sr, band);
        let width = BAND_WIDTH_S[sr][band] as int;
        let start = BAND_INDEX_S[sr][band] as int;
        let source = 3 * start + windows_width(window, width) + (line - start);
        assert(source == reorder_source(sr, switch_point, k));
        assert(3 * start <= source < 3 * start + 3 * width);
        assert(3 * BAND_INDEX_S[sr][band + 1] <= 576);
        assert(start <= source / 3 < start + width);
        lemma_short_band_of(sr, source / 3, band);
        assert(start >= first) by {
            lemma_band_not_before(sr, switch_point, line);
        }
    }
}

/// The place of a line lies in the granule, and its source is that line.
proof fn lemma_place_of_source(sr: int, switch_point: usize, source: int)
    requires
        0 <= sr < 3,
        0 <= source < 576,
    ensures
        0 <= reorder_place(sr, switch_point, source) < 576,
        reorder_source(sr, switch_point, reorder_place(sr, switch_point, source)) == source,
{
    let first = reorder_first_line(sr, switch_point);
    if source >= 3 * first {
        lemma_short_band_bounds(sr, source / 3);
        let band = short_band_of(sr, source / 3);
        crate::huffman::tables::lemma_short_bands_add_up(sr, band);
        let width = BAND_WIDTH_S[sr][band] as int;
        let start = BAND_INDEX_S[sr][band] as int;
        let rel = source - 3 * start;
        assert(0 <= rel < 3 * width);
        let window: int = if rel < width {
            0
        } else if rel < 2 * width {
            1
        } else {
            2
        };
        let line = start + rel - windows_width(window, width);
        assert(start <= line < start + width);
        lemma_band_not_before(sr, switch_point, source / 3);
        assert(first <= line < 192);
        lemma_place_of_line(first, line, window);
        let place = 3 * first + 18 * ((line - first) / 6) + 6 * window + (line - first) % 6;
        assert(place == reorder_place(sr, switch_point, source));
        assert(first == 0 || first == 12);
        assert(place < 576);
        lemma_short_band_of(sr, line, band);
    }
}

/// A line at or behind the first that is reordered lies in a band at or
/// behind the first that is reordered.
proof fn lemma_band_not_before(sr: int, switch_point: usize, line: int)
    requires
        0 <= sr < 3,
        reorder_first_line(sr, switch_point) <= line < 192,
    ensures
        reorder_first_band(switch_point) <= short_band_of(sr, line) < 13,
        BAND_INDEX_S[sr][short_band_of(sr, line)] >= reorder_first_line(sr, switch_point),
{
    reveal_with_fuel(short_band_from, 14);
}

/// The next line's places follow from the cursor over the places.
proof fn lemma_next_place(first: int, line: int)
    requires
        0 <= first <= line,
    ensures
        (line + 1 - first) % 6 == (if (line - first) % 6 >= 5 {
            0
        } else {
            (line - first) % 6 + 1
        }),
        (line + 1 - first) / 6 == (if (line - first) % 6 >= 5 {
            (line - first) / 6 + 1
        } else {
            (line - first) / 6
        }),
{
}

/// Whether place `k` of `result` is as reordering leaves it once the lines
/// below `line` are placed: it holds its source if its line is below `line`,
/// and otherwise what it held before.
pub open spec fn is_place_reordered<T>(
    result: [T; 576],
    samples: [T; 576],
    sr: int,
    switch_point: usize,
    line: int,
    k: int,
) -> bool {
    let first = reorder_first_line(sr, switch_point);
    if k >= 3 * first && place_line(first, k) < line {
        result[k] == samples[reorder_source(sr, switch_point, k)]
    } else {
        result[k] == samples[k]
    }
}

/// Whether every place of `result` is as reordering leaves it once the lines
/// below `line` are placed.
pub open spec fn is_reordered_up_to<T>(
    result: [T; 576],
    samples: [T; 576],
    sr: int,
    switch_point: usize,
    line: int,
) -> bool {
    forall|k: int|
        0 <= k < 576 ==> #[trigger] is_place_reordered(result, samples, sr, switch_point, line, k)
}

/// Placing the three windows of line `line` keeps the order.
proof fn lemma_reorder_step<T>(
    before: [T; 576],
    after: [T; 576],
    samples: [T; 576],
    sr: int,
    switch_point: usize,
    line: int,
    place: int,
    from0: int,
    from1: int,
    from2: int,
)
    requires
        0 <= sr < 3,
        is_reordered_up_to(before, samples, sr, switch_point, line),
        reorder_first_line(sr, switch_point) <= line,
        0 <= place,
        place + 12 < 576,
        place == 3 * reorder_first_line(sr, switch_point) + 18 * ((line - reorder_first_line(
            sr,
            switch_point,
        )) / 6) + (line - reorder_first_line(sr, switch_point)) % 6,
        reorder_source(sr, switch_point, place) == from0,
        reorder_source(sr, switch_point, place + 6) == from1,
        reorder_source(sr, switch_point, place + 12) == from2,
        0 <= from0 < 576,
        0 <= from1 < 576,
        0 <= from2 < 576,
        after@ == before@.update(place, samples[from0]).update(place + 6, samples[from1]).update(
            place + 12,
            samples[from2],
        ),
    ensures
        is_reordered_up_to(after, samples, sr, switch_point, line + 1),
{
    let first = reorder_first_line(sr, switch_point);
    lemma_place_of_line(first, line, 0);
    lemma_place_of_line(first, line, 1);
    lemma_place_of_line(first, line, 2);
    assert forall|k: int| 0 <= k < 576 implies #[trigger] is_place_reordered(
        after,
        samples,
        sr,
        switch_point,
        line + 1,
        k,
    ) by {
        assert(is_place_reordered(before, samples, sr, switch_point, line, k));
        if k == place || k == place + 6 || k == place + 12 {
        } else {
            assert(after[k] == before[k]);
            if k >= 3 * first {
                lemma_line_of_place(first, k);
                assert(place_line(first, k) != line);
            }
        }
    }
}

/// The source of the place of line `line` of band `band` and window
/// `window`.
proof fn lemma_source_in_band(sr: int, switch_point: usize, line: int, band: int, window: int)
    requires
        0 <= sr < 3,
        0 <= band < 13,
        0 <= window < 3,
        reorder_first_line(sr, switch_point) <= BAND_INDEX_S[sr][band] <= line < BAND_INDEX_S[sr][band
            + 1],
    ensures
        ({
            let first = reorder_first_line(sr, switch_point);
            let place = 3 * first + 18 * ((line - first) / 6) + 6 * window + (line - first) % 6;
            let source = 3 * BAND_INDEX_S[sr][band] + windows_width(
                window,
                BAND_WIDTH_S[sr][band] as int,
            ) + (line - BAND_INDEX_S[sr][band]);
            &&& 3 * first <= place < 576
            &&& reorder_source(sr, switch_point, place) == source
            &&& 0 <= source < 576
        }),
{
    let first = reorder_first_line(sr, switch_point);
    lemma_place_of_line(first, line, window);
    lemma_short_band_of(sr, line, band);
    crate::huffman::tables::lemma_short_bands_add_up(sr, band);
    assert(3 * BAND_INDEX_S[sr][band + 1] <= 576);
    assert(first == 0 || first == 12);
    assert(line < 192);
}

/// Puts the lines of short blocks into the order of the subbands.
///
/// Place `k` of the result holds the line of `samples` that
/// `reorder_source` names for it.  No line is lost and none is made twice:
/// see `lemma_reorder_is_permutation`.  The long part of a mixed granule
/// stays where it is.
pub fn reorder<T: Copy>(samples: [T; 576], header: &MpegHeader, channel: &Channel) -> (result: [T;
    576])
    requires
        header.sample_rate.spec_get_value() < 3,
    ensures
        forall|k: int|
            0 <= k < 576 ==> #[trigger] result[k] == samples[reorder_source(
                header.sample_rate.spec_get_value() as int,
                channel.switch_point,
                k,
            )],
        forall|k: int|
            0 <= k < 576 ==> 0 <= #[trigger] reorder_source(
                header.sample_rate.spec_get_value() as int,
                channel.switch_point,
                k,
            ) < 576,
        forall|k: int|
            0 <= k < 3 * reorder_first_line(
                header.sample_rate.spec_get_value() as int,
                channel.switch_point,
            ) ==> #[trigger] result[k] == samples[k],
{
    let sr: usize = header.sample_rate.get_value();
    let ghost sp = channel.switch_point;
    let mut result: [T; 576] = samples;
    let start: usize = if channel.switch_point == 1 {
        3
    } else {
        0
    };
    let first: usize = BAND_INDEX_S[sr][start];
    let mut base1: usize = 3 * first;
    let mut base2: usize = 3 * first;
    let mut block: usize = 0;
    let mut band: usize = start;
    while band < 13
        invariant
            sr < 3,
            start == reorder_first_band(sp),
            first == reorder_first_line(sr as int, sp),
            start <= band <= 13,
            first <= BAND_INDEX_S[sr as int][band as int],
            block == (BAND_INDEX_S[sr as int][band as int] - first) % 6,
            base1 == 3 * first + 18 * ((BAND_INDEX_S[sr as int][band as int] - first) / 6),
            base2 == 3 * BAND_INDEX_S[sr as int][band as int],
            is_reordered_up_to(
                result,
                samples,
                sr as int,
                sp,
                BAND_INDEX_S[sr as int][band as int] as int,
            ),
        decreases 13 - band,
    {
        let band_width: usize = BAND_WIDTH_S[sr][band];
        let ghost band_start = BAND_INDEX_S[sr as int][band as int] as int;
        proof {
            crate::huffman::tables::lemma_short_bands_add_up(sr as int, band as int);
        }
        let mut j: usize = 0;
        while j < band_width
            invariant
                sr < 3,
                start == reorder_first_band(sp),
                first == reorder_first_line(sr as int, sp),
                start <= band < 13,
                band_width == BAND_WIDTH_S[sr as int][band as int],
                band_start == BAND_INDEX_S[sr as int][band as int],
                band_start + band_width == BAND_INDEX_S[sr as int][band + 1],
                first <= band_start,
                j <= band_width,
                block == (band_start + j - first) % 6,
                base1 == 3 * first + 18 * ((band_start + j - first) / 6),
                base2 == 3 * band_start,
                is_reordered_up_to(result, samples, sr as int, sp, band_start + j),
            decreases band_width - j,
        {
            let ghost before = result;
            proof {
                lemma_next_place(first as int, band_start + j);
                lemma_source_in_band(sr as int, sp, band_start + j, band as int, 0);
                lemma_source_in_band(sr as int, sp, band_start + j, band as int, 1);
                lemma_source_in_band(sr as int, sp, band_start + j, band as int, 2);
            }
            let from0: usize = base2 + j;
            let from1: usize = base2 + band_width + j;
            let from2: usize = base2 + 2 * band_width + j;
            let place0: usize = base1 + block;
            let place1: usize = base1 + SUBBAND_SIZE_S + block;
            let place2: usize = base1 + 2 * SUBBAND_SIZE_S + block;
            result[place0] = samples[from0];
            result[place1] = samples[from1];
            result[place2] = samples[from2];
            proof {
                lemma_reorder_step(
                    before,
                    result,
                    samples,
                    sr as int,
                    sp,
                    band_start + j,
                    place0 as int,
                    from0 as int,
                    from1 as int,
                    from2 as int,
                );
            }
            if block >= SUBBAND_SIZE_S - 1 {
                block = 0;
                base1 = base1 + SUBBAND_SIZE_S * 3;
            } else {
                block = block + 1;
            }
            j = j + 1;
        }
        base2 = base2 + band_width * 3;
        band = band + 1;
    }
    proof {
        assert forall|k: int| 0 <= k < 576 implies #[trigger] result[k] == samples[reorder_source(
            sr as int,
            sp,
            k,
        )] by {
            assert(is_place_reordered(result, samples, sr as int, sp, 192, k));
            if k >= 3 * first {
                lemma_place_line_bound(sr as int, sp, k);
            }
        }
        assert forall|k: int| 0 <= k < 576 implies 0 <= #[trigger] reorder_source(sr as int, sp, k)
            < 576 by {
            lemma_source_of_place(sr as int, sp, k);
        }
        assert forall|k: int| 0 <= k < 3 * first implies #[trigger] result[k] == samples[k] by {
            assert(is_place_reordered(result, samples, sr as int, sp, 192, k));
        }
    }
    result
}

} // verus!
