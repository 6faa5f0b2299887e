//! The moves of samples around the polyphase synthesis filter bank.
//!
//! The filter bank keeps a history of 1024 values per channel.  For each of
//! the 18 time slots of a granule it takes one sample from each of the 32
//! subbands, shifts the history by 64 places, puts 64 new values in front,
//! gathers 512 values of the history for windowing, and writes 32 samples to
//! the output.  What is arithmetic in this belongs to whoever has the
//! numbers; which value goes where is settled here, for any kind of value.

use vstd::prelude::*;

verus! {

/// The number of values in the history of a channel.
pub const FIFO_SIZE: usize = 1024;

/// The sample of subband `subband` for time slot `slot`, in a granule that
/// holds its subbands one behind the other, 18 lines each.
pub open spec fn slot_source(slot: int, subband: int) -> int {
    subband * 18 + slot
}

/// Takes the samples of time slot `slot` out of a granule, one from each
/// subband.
pub fn subband_samples<T: Copy>(samples: &[T; 576], slot: usize) -> (s: [T; 32])
    requires
        slot < 18,
    ensures
        forall|subband: int|
            0 <= subband < 32 ==> #[trigger] s[subband] == samples[slot_source(
                slot as int,
                subband,
            )],
{
    let mut s: [T; 32] = [samples[slot];32];
    let mut subband: usize = 1;
    while subband < 32
        invariant
            slot < 18,
            1 <= subband <= 32,
            forall|k: int|
                0 <= k < subband ==> #[trigger] s[k] == samples[slot_source(slot as int, k)],
        decreases 32 - subband,
    {
        s[subband] = samples[subband * 18 + slot];
        subband = subband + 1;
    }
    s
}

/// Shifts the history by 64 places: each value moves 64 places back, and the
/// last 64 are lost.  The first 64 places keep what they held, for new values
/// to take their place.
pub fn shift_fifo<T: Copy>(fifo: &mut [T; 1024])
    ensures
        forall|i: int| 64 <= i < 1024 ==> #[trigger] final(fifo)[i] == old(fifo)[i - 64],
        forall|i: int| 0 <= i < 64 ==> #[trigger] final(fifo)[i] == old(fifo)[i],
{
    let mut i: usize = FIFO_SIZE;
    while i > 64
        invariant
            64 <= i <= 1024,
            forall|k: int| i <= k < 1024 ==> #[trigger] fifo[k] == old(fifo)[k - 64],
            forall|k: int| 0 <= k < i ==> #[trigger] fifo[k] == old(fifo)[k],
        decreases i,
    {
        i = i - 1;
        fifo[i] = fifo[i - 64];
    }
}

/// The place of the history whose value goes to place `k` of the 512 values
/// that are windowed: of each 128 values of the history, the first 32 and
/// the last 32.
pub open spec fn window_source(k: int) -> int {
    if k % 64 < 32 {
        (k / 64) * 128 + k % 64
    } else {
        (k / 64) * 128 + k % 64 + 64
    }
}

/// Gathers from the history the 512 values that are windowed.
pub fn window_input<T: Copy>(fifo: &[T; 1024]) -> (u: [T; 512])
    ensures
        forall|k: int| 0 <= k < 512 ==> #[trigger] u[k] == fifo[window_source(k)],
        forall|k: int| 0 <= k < 512 ==> 0 <= #[trigger] window_source(k) < 1024,
{
    let mut u: [T; 512] = [fifo[0];512];
    let mut i: usize = 0;
    while i < 8
        invariant
            i <= 8,
            forall|k: int| 0 <= k < 64 * i ==> #[trigger] u[k] == fifo[window_source(k)],
        decreases 8 - i,
    {
        let mut j: usize = 0;
        while j < 32
            invariant
                i < 8,
                j <= 32,
                forall|k: int| 0 <= k < 64 * i ==> #[trigger] u[k] == fifo[window_source(k)],
                forall|k: int|
                    64 * i <= k < 64 * i + j ==> #[trigger] u[k] == fifo[window_source(k)],
                forall|k: int|
                    64 * i + 32 <= k < 64 * i + 32 + j ==> #[trigger] u[k] == fifo[window_source(
                        k,
                    )],
            decreases 32 - j,
        {
            u[i * 64 + j] = fifo[i * 128 + j];
            u[i * 64 + j + 32] = fifo[i * 128 + j + 96];
            j = j + 1;
        }
        i = i + 1;
    }
    u
}

/// The place in the output of a granule of sample `k` of time slot `slot`
/// of channel `ch`: the samples of the channels take turns.
pub open spec fn spec_pcm_index(slot: usize, k: usize, ch: usize, ch_num: usize) -> usize {
    ((32 * slot + k) * ch_num + ch) as usize
}

#[verifier::when_used_as_spec(spec_pcm_index)]
pub fn pcm_index(slot: usize, k: usize, ch: usize, ch_num: usize) -> (place: usize)
    requires
        slot < 18,
        k < 32,
        ch < ch_num <= 2,
    ensures
        place == (32 * slot + k) * ch_num + ch,
        place == spec_pcm_index(slot, k, ch, ch_num),
        place < 576 * ch_num,
{
    let sample: usize = 32 * slot + k;
    assert(sample * ch_num + ch < 576 * ch_num) by (nonlinear_arith)
        requires
            sample < 576,
            ch < ch_num <= 2,
    ;
    sample * ch_num + ch
}

/// The two lines that butterfly `j` at the boundary before subband `subband`
/// works on: the line `j` places below the boundary, counted from the last
/// line of the subband before, and the line `j` places above it.
pub open spec fn butterfly_lines(subband: int, j: int) -> (int, int) {
    (subband * 18 - j - 1, subband * 18 + j)
}

/// The two lines that a butterfly of the alias reduction works on.
pub fn butterfly(subband: usize, j: usize) -> (lines: (usize, usize))
    requires
        1 <= subband < 32,
        j < 8,
    ensures
        lines.0 == butterfly_lines(subband as int, j as int).0,
        lines.1 == butterfly_lines(subband as int, j as int).1,
        lines.0 < lines.1 < 576,
{
    (subband * 18 - j - 1, subband * 18 + j)
}

} // verus!
