//! Huffman decoding of the frequency lines of a granule.
//!
//! The main data of a granule codes its 576 frequency lines in two parts:
//! the big values, in pairs, with a code book chosen by region, and then
//! quadruples of lines of magnitude 0 or 1 until the granule's bits or its
//! lines are used up.  The lines after that are 0.

use crate::bitstream::{
    bits_available, bits_value, lemma_bits_value_bound, lemma_bits_value_fits, peek_result, Binary,
    BitReader, BitStream, BitStreamErrorType,
};
use crate::huffman::tables::{
    HuffmanTables, PairTable, BAND_INDEX_L, GRANULE_SAMPLES, MAX_LINBITS,
};
use crate::mpeg_frame::types::Channel;
use crate::mpeg_frame::{has_short_blocks, MpegHeader};
use vstd::arithmetic::power2::lemma2_to64;
use vstd::prelude::*;

pub mod tables;

verus! {

/// The index of the first code word, from entry `from` on, that the bits at
/// `pos` begin with; none if no word matches.  The words are tried in order,
/// and the search fails at the first word that is longer than what is left of
/// the data.
pub open spec fn first_match(codes: Seq<Binary>, data: Seq<u8>, pos: int, from: int) -> Result<
    Option<int>,
    BitStreamErrorType,
>
    decreases codes.len() - from,
{
    if from < 0 || from >= codes.len() {
        Ok(None)
    } else {
        match peek_result(data, pos, codes[from].bit_length as int) {
            Err(e) => Err(e),
            Ok(bits) => if bits == codes[from].value {
                Ok(Some(from))
            } else {
                first_match(codes, data, pos, from + 1)
            },
        }
    }
}

/// The line that a decoded value `raw` stands for, and the cursor after it.
///
/// A value at the top of its book's range is extended by `linbits` bits,
/// where the book has any.  A line that is not 0 is followed by its sign: a
/// set bit makes it negative.
#[verifier::opaque]
pub open spec fn signed_value(data: Seq<u8>, pos: int, raw: int, size: int, linbits: int) -> Result<
    (int, int),
    BitStreamErrorType,
> {
    let extended = linbits != 0 && raw == size - 1;
    if extended && !bits_available(data, pos, linbits) {
        Err(BitStreamErrorType::Empty)
    } else {
        let magnitude = if extended {
            raw + bits_value(data, pos, linbits)
        } else {
            raw
        };
        let after = if extended {
            pos + linbits
        } else {
            pos
        };
        if magnitude == 0 {
            Ok((0, after))
        } else if !bits_available(data, after, 1) {
            Err(BitStreamErrorType::Empty)
        } else if bits_value(data, after, 1) == 1 {
            Ok((-magnitude, after + 1))
        } else {
            Ok((magnitude, after + 1))
        }
    }
}

/// The pair of lines that a code book decodes at `pos`, and the cursor after
/// them.  Where no code word matches, the lines are 0 and no bit is used.
#[verifier::opaque]
pub open spec fn pair_at(table: PairTable, data: Seq<u8>, pos: int) -> Result<
    (int, int, int),
    BitStreamErrorType,
> {
    match first_match(table.codes@, data, pos, 0) {
        Err(e) => Err(e),
        Ok(None) => Ok((0, 0, pos)),
        Ok(Some(k)) => {
            let size = table.size as int;
            let linbits = table.linbits as int;
            match signed_value(data, pos + table.codes@[k].bit_length, k / size, size, linbits) {
                Err(e) => Err(e),
                Ok((x, after_x)) => match signed_value(data, after_x, k % size, size, linbits) {
                    Err(e) => Err(e),
                    Ok((y, after_y)) => Ok((x, y, after_y)),
                },
            }
        },
    }
}

/// The lines at which the second and the third region of the big values
/// begin.  Short blocks have fixed regions; long blocks take them from the
/// band table, and have none where their region sizes lead beyond it.
pub open spec fn region_starts(sr: int, channel: Channel) -> Option<(int, int)> {
    if has_short_blocks(channel) {
        Some((36, 576))
    } else if channel.region_address1 + channel.region_address2 + 2 > 22 {
        None
    } else {
        Some(
            (
                BAND_INDEX_L[sr][channel.region_address1 + 1] as int,
                BAND_INDEX_L[sr][channel.region_address1 + channel.region_address2 + 2] as int,
            ),
        )
    }
}

/// The number of the code book for pair `i` of the big values.
pub open spec fn table_for_pair(channel: Channel, region0: int, region1: int, i: int) -> usize {
    if 2 * i < region0 {
        channel.table_select[0]
    } else if 2 * i < region1 {
        channel.table_select[1]
    } else {
        channel.table_select[2]
    }
}

/// The first `count` pairs of big values, decoded from `pos` on, and the
/// cursor after them.  Code book 0 codes nothing: its pairs are 0.
pub open spec fn big_values_at(
    tables: HuffmanTables,
    data: Seq<u8>,
    pos: int,
    channel: Channel,
    region0: int,
    region1: int,
    count: int,
) -> Result<(Seq<int>, int), BitStreamErrorType>
    decreases count,
{
    if count <= 0 {
        Ok((Seq::empty(), pos))
    } else {
        match big_values_at(tables, data, pos, channel, region0, region1, count - 1) {
            Err(e) => Err(e),
            Ok((lines, after)) => {
                let table_num = table_for_pair(channel, region0, region1, count - 1);
                if table_num == 0 {
                    Ok((lines.push(0).push(0), after))
                } else {
                    match pair_at(tables.pairs()[table_num as int], data, after) {
                        Err(e) => Err(e),
                        Ok((x, y, end)) => Ok((lines.push(x).push(y), end)),
                    }
                }
            },
        }
    }
}

/// The four magnitudes of a quadruple at `pos`, as the bits of a number, and
/// the cursor after its code word.
///
/// The second book has four-bit words and is looked up by them.  The first is
/// searched for the word the bits begin with, and its index is the quadruple;
/// where no word matches, the quadruple is 0 and no bit is used.
pub open spec fn quad_word_at(tables: HuffmanTables, data: Seq<u8>, pos: int, select: usize) -> Result<
    (int, int),
    BitStreamErrorType,
> {
    if select == 1 {
        if bits_available(data, pos, 4) {
            Ok((tables.quad_b()[bits_value(data, pos, 4) as int].value as int, pos + 4))
        } else {
            Err(BitStreamErrorType::Empty)
        }
    } else {
        match first_match(tables.quad_a(), data, pos, 0) {
            Err(e) => Err(e),
            Ok(None) => Ok((0, pos)),
            Ok(Some(k)) => Ok((k, pos + tables.quad_a()[k].bit_length)),
        }
    }
}

/// The four lines of a quadruple at `pos` and the cursor after them: the
/// magnitudes from the highest bit of the quadruple to the lowest, each that
/// is not 0 followed by its sign.
#[verifier::opaque]
pub open spec fn quad_at(tables: HuffmanTables, data: Seq<u8>, pos: int, select: usize) -> Result<
    (Seq<int>, int),
    BitStreamErrorType,
> {
    match quad_word_at(tables, data, pos, select) {
        Err(e) => Err(e),
        Ok((word, after_word)) => match signed_value(data, after_word, (word / 8) % 2, 0, 0) {
            Err(e) => Err(e),
            Ok((v, after_v)) => match signed_value(data, after_v, (word / 4) % 2, 0, 0) {
                Err(e) => Err(e),
                Ok((w, after_w)) => match signed_value(data, after_w, (word / 2) % 2, 0, 0) {
                    Err(e) => Err(e),
                    Ok((x, after_x)) => match signed_value(data, after_x, word % 2, 0, 0) {
                        Err(e) => Err(e),
                        Ok((y, after_y)) => Ok((seq![v, w, x, y], after_y)),
                    },
                },
            },
        }
    }
}

/// `n` lines that are 0.
pub open spec fn zero_lines(n: int) -> Seq<int> {
    Seq::new(n as nat, |i: int| 0int)
}

/// The lines from `sample` to the end of the granule, decoded from `pos` on,
/// and the cursor after them: quadruples as long as four lines are left and
/// the cursor is before `max_bit`, then lines that are 0.
pub open spec fn count1_at(
    tables: HuffmanTables,
    data: Seq<u8>,
    pos: int,
    sample: int,
    max_bit: int,
    select: usize,
) -> Result<(Seq<int>, int), BitStreamErrorType>
    decreases GRANULE_SAMPLES - sample,
{
    if sample + 4 > GRANULE_SAMPLES || pos >= max_bit {
        Ok((zero_lines(GRANULE_SAMPLES - sample), pos))
    } else {
        match quad_at(tables, data, pos, select) {
            Err(e) => Err(e),
            Ok((quad, after)) => match count1_at(tables, data, after, sample + 4, max_bit, select) {
                Err(e) => Err(e),
                Ok((rest, end)) => Ok((quad + rest, end)),
            },
        }
    }
}

/// The 576 lines of a granule of a channel, decoded from `pos` on, and the
/// cursor after them.
///
/// Decoding fails where the region sizes lead beyond the band table, where
/// the big values are more than the granule has lines, and where the data
/// ends before a code word, an extension or a sign that is due.
pub open spec fn huffman_lines(
    tables: HuffmanTables,
    data: Seq<u8>,
    pos: int,
    sr: int,
    channel: Channel,
    max_bit: int,
) -> Result<(Seq<int>, int), BitStreamErrorType> {
    match region_starts(sr, channel) {
        None => Err(BitStreamErrorType::Empty),
        Some((region0, region1)) => if 2 * channel.big_values > GRANULE_SAMPLES {
            Err(BitStreamErrorType::Empty)
        } else {
            match big_values_at(
                tables,
                data,
                pos,
                channel,
                region0,
                region1,
                channel.big_values as int,
            ) {
                Err(e) => Err(e),
                Ok((big, after)) => match count1_at(
                    tables,
                    data,
                    after,
                    2 * channel.big_values,
                    max_bit,
                    channel.count1table_select,
                ) {
                    Err(e) => Err(e),
                    Ok((rest, end)) => Ok((big + rest, end)),
                },
            }
        },
    }
}

/// Decoded lines as mathematical integers.
pub open spec fn lines_of(samples: Seq<i32>) -> Seq<int> {
    samples.map_values(|v: i32| v as int)
}

/// Searches a code book for the word that the next bits begin with.
fn find_code<R: BitReader>(codes: &Vec<Binary>, bs: &BitStream<R>) -> (r: Result<
    Option<usize>,
    BitStreamErrorType,
>)
    requires
        bs.wf(),
        crate::huffman::tables::codes_fit(codes@),
    ensures
        match r {
            Ok(Some(k)) => {
                &&& k < codes@.len()
                &&& bits_available(bs.data(), bs.position(), codes@[k as int].bit_length as int)
                &&& first_match(codes@, bs.data(), bs.position(), 0) == Ok::<
                    Option<int>,
                    BitStreamErrorType,
                >(Some(k as int))
            },
            Ok(None) => first_match(codes@, bs.data(), bs.position(), 0) == Ok::<
                Option<int>,
                BitStreamErrorType,
            >(None),
            Err(e) => first_match(codes@, bs.data(), bs.position(), 0) == Err::<
                Option<int>,
                BitStreamErrorType,
            >(e),
        },
{
    let mut k: usize = 0;
    while k < codes.len()
        invariant
            bs.wf(),
            k <= codes@.len(),
            crate::huffman::tables::codes_fit(codes@),
            first_match(codes@, bs.data(), bs.position(), 0) == first_match(
                codes@,
                bs.data(),
                bs.position(),
                k as int,
            ),
        decreases codes.len() - k,
    {
        let code = codes[k];
        let bits: usize = bs.try_read(code.bit_length)?;
        if bits == code.value {
            return Ok(Some(k));
        }
        k = k + 1;
    }
    Ok(None)
}

/// Reads what follows a code word for the value `raw`: its extension, if it
/// has one, and its sign, if it is not 0.
fn read_signed<R: BitReader>(bs: &mut BitStream<R>, raw: usize, size: usize, linbits: usize) -> (r:
    Result<i32, BitStreamErrorType>)
    requires
        old(bs).wf(),
        raw < 16,
        linbits <= MAX_LINBITS,
    ensures
        final(bs).wf(),
        final(bs).data() == old(bs).data(),
        match signed_value(
            old(bs).data(),
            old(bs).position(),
            raw as int,
            size as int,
            linbits as int,
        ) {
            Ok((line, after)) => r == Ok::<i32, BitStreamErrorType>(line as i32) && line as i32
                == line && final(bs).position() == after,
            Err(e) => r == Err::<i32, BitStreamErrorType>(e),
        },
{
    let ghost data = bs.data();
    let ghost pos = bs.position();
    proof {
        reveal(signed_value);
    }
    let mut magnitude: i32 = raw as i32;
    if linbits != 0 && size >= 1 && raw == size - 1 {
        proof {
            lemma_bits_value_bound(data, pos, linbits as int);
            lemma_bits_value_fits(data, pos, linbits as int);
            lemma2_to64();
            if linbits < 13 {
                vstd::arithmetic::power2::lemma_pow2_strictly_increases(linbits as nat, 13);
            }
        }
        let extension: usize = bs.read(linbits)?;
        magnitude = magnitude + extension as i32;
    }
    if magnitude == 0 {
        return Ok(0);
    }
    proof {
        lemma_bits_value_bound(data, bs.position(), 1);
        lemma_bits_value_fits(data, bs.position(), 1);
        lemma2_to64();
    }
    let sign: usize = bs.read(1)?;
    if sign == 1 {
        Ok(-magnitude)
    } else {
        Ok(magnitude)
    }
}

/// Decodes one pair of big values with a code book.
fn decode_pair<R: BitReader>(table: &PairTable, bs: &mut BitStream<R>) -> (r: Result<
    (i32, i32),
    BitStreamErrorType,
>)
    requires
        old(bs).wf(),
        table.wf(),
    ensures
        final(bs).wf(),
        final(bs).data() == old(bs).data(),
        match pair_at(*table, old(bs).data(), old(bs).position()) {
            Ok((x, y, after)) => r == Ok::<(i32, i32), BitStreamErrorType>((x as i32, y as i32))
                && x as i32 == x && y as i32 == y && final(bs).position() == after,
            Err(e) => r == Err::<(i32, i32), BitStreamErrorType>(e),
        },
{
    proof {
        reveal(pair_at);
    }
    let found: Option<usize> = find_code(&table.codes, bs)?;
    match found {
        None => Ok((0, 0)),
        Some(k) => {
            assert(table.size * table.size <= 256) by (nonlinear_arith)
                requires
                    table.size <= 16,
            ;
            assert(table.size > 0) by (nonlinear_arith)
                requires
                    k < table.size * table.size,
            ;
            assert(k / table.size < table.size) by (nonlinear_arith)
                requires
                    k < table.size * table.size,
                    table.size > 0,
            ;
            let length: usize = table.codes[k].bit_length;
            let taken = bs.read(length);
            assert(taken is Ok);
            let x: i32 = read_signed(bs, k / table.size, table.size, table.linbits)?;
            let y: i32 = read_signed(bs, k % table.size, table.size, table.linbits)?;
            Ok((x, y))
        },
    }
}

/// Decodes one quadruple of lines.
fn decode_quad<R: BitReader>(tables: &HuffmanTables, bs: &mut BitStream<R>, select: usize) -> (r:
    Result<[i32; 4], BitStreamErrorType>)
    requires
        old(bs).wf(),
        tables.wf(),
    ensures
        final(bs).wf(),
        final(bs).data() == old(bs).data(),
        match quad_at(*tables, old(bs).data(), old(bs).position(), select) {
            Ok((quad, after)) => {
                &&& r matches Ok(lines) && lines_of(lines@) == quad
                &&& final(bs).position() == after
            },
            Err(e) => r == Err::<[i32; 4], BitStreamErrorType>(e),
        },
{
    let ghost data = bs.data();
    let ghost pos = bs.position();
    proof {
        reveal(quad_at);
    }
    let word: usize = if select == 1 {
        proof {
            lemma_bits_value_bound(data, pos, 4);
            lemma_bits_value_fits(data, pos, 4);
            lemma2_to64();
        }
        let bits: usize = bs.read(4)?;
        tables.quad_b_value(bits)
    } else {
        let found: Option<usize> = find_code(tables.quad_a_codes(), bs)?;
        match found {
            None => 0,
            Some(k) => {
                let length: usize = tables.quad_a_codes()[k].bit_length;
                let taken = bs.read(length);
                assert(taken is Ok);
                k
            },
        }
    };
    let v: i32 = read_signed(bs, (word / 8) % 2, 0, 0)?;
    let w: i32 = read_signed(bs, (word / 4) % 2, 0, 0)?;
    let x: i32 = read_signed(bs, (word / 2) % 2, 0, 0)?;
    let y: i32 = read_signed(bs, word % 2, 0, 0)?;
    let lines: [i32; 4] = [v, w, x, y];
    assert(lines_of(lines@) =~= seq![v as int, w as int, x as int, y as int]);
    Ok(lines)
}

/// Big values that fail after some pairs fail after any more.
proof fn lemma_big_values_fail(
    tables: HuffmanTables,
    data: Seq<u8>,
    pos: int,
    channel: Channel,
    region0: int,
    region1: int,
    count: int,
    more: int,
)
    requires
        count <= more,
        big_values_at(tables, data, pos, channel, region0, region1, count) is Err,
    ensures
        big_values_at(tables, data, pos, channel, region0, region1, more) == big_values_at(
            tables,
            data,
            pos,
            channel,
            region0,
            region1,
            count,
        ),
    decreases more,
{
    if count < more {
        lemma_big_values_fail(tables, data, pos, channel, region0, region1, count, more - 1);
    }
}

/// Decodes the big values of a granule into the first lines of `out`.
fn decode_big_values<R: BitReader>(
    bs: &mut BitStream<R>,
    tables: &HuffmanTables,
    channel: &Channel,
    region0: usize,
    region1: usize,
    out: &mut [i32; 576],
) -> (r: Result<(), BitStreamErrorType>)
    requires
        old(bs).wf(),
        tables.wf(),
        channel.wf(),
        2 * channel.big_values <= GRANULE_SAMPLES,
        forall|j: int| 0 <= j < 576 ==> old(out)[j] == 0,
    ensures
        final(bs).wf(),
        final(bs).data() == old(bs).data(),
        match big_values_at(
            *tables,
            old(bs).data(),
            old(bs).position(),
            *channel,
            region0 as int,
            region1 as int,
            channel.big_values as int,
        ) {
            Ok((lines, end)) => {
                &&& r is Ok
                &&& lines_of(final(out)@.subrange(0, 2 * channel.big_values)) == lines
                &&& forall|j: int| 2 * channel.big_values <= j < 576 ==> final(out)[j] == 0
                &&& final(bs).position() == end
            },
            Err(e) => r == Err::<(), BitStreamErrorType>(e),
        },
{
    let ghost data = bs.data();
    let ghost start = bs.position();
    let pairs: usize = channel.big_values;
    let mut i: usize = 0;
    assert(lines_of(out@.subrange(0, 0)) =~= Seq::<int>::empty());
    while i < pairs
        invariant
            i <= pairs <= 288,
            pairs == channel.big_values,
            bs.wf(),
            bs.data() == data,
            data == old(bs).data(),
            start == old(bs).position(),
            tables.wf(),
            channel.wf(),
            big_values_at(*tables, data, start, *channel, region0 as int, region1 as int, i as int)
                == Ok::<(Seq<int>, int), BitStreamErrorType>(
                (lines_of(out@.subrange(0, 2 * i)), bs.position()),
            ),
            forall|j: int| 2 * i <= j < 576 ==> out[j] == 0,
        decreases pairs - i,
    {
        let table_num: usize = if 2 * i < region0 {
            channel.table_select[0]
        } else if 2 * i < region1 {
            channel.table_select[1]
        } else {
            channel.table_select[2]
        };
        let ghost before = out@;
        let ghost lines = lines_of(before.subrange(0, 2 * i));
        if table_num != 0 {
            let decoded = decode_pair(tables.pair_table(table_num), bs);
            match decoded {
                Ok((x, y)) => {
                    out[2 * i] = x;
                    out[2 * i + 1] = y;
                    assert(lines_of(out@.subrange(0, 2 * i + 2)) =~= lines.push(x as int).push(
                        y as int,
                    ));
                },
                Err(e) => {
                    proof {
                        lemma_big_values_fail(
                            *tables,
                            data,
                            start,
                            *channel,
                            region0 as int,
                            region1 as int,
                            i + 1,
                            pairs as int,
                        );
                    }
                    return Err(e);
                },
            }
        } else {
            assert(lines_of(out@.subrange(0, 2 * i + 2)) =~= lines.push(0).push(0));
        }
        i = i + 1;
    }
    Ok(())
}

/// Decodes the quadruples of a granule into the lines of `out` from `first`
/// on.
fn decode_count1<R: BitReader>(
    bs: &mut BitStream<R>,
    tables: &HuffmanTables,
    select: usize,
    first: usize,
    max_bit: usize,
    out: &mut [i32; 576],
) -> (r: Result<(), BitStreamErrorType>)
    requires
        old(bs).wf(),
        tables.wf(),
        first <= GRANULE_SAMPLES,
        forall|j: int| first <= j < 576 ==> old(out)[j] == 0,
    ensures
        final(bs).wf(),
        final(bs).data() == old(bs).data(),
        match count1_at(
            *tables,
            old(bs).data(),
            old(bs).position(),
            first as int,
            max_bit as int,
            select,
        ) {
            Ok((lines, end)) => {
                &&& r is Ok
                &&& lines_of(final(out)@.subrange(first as int, 576)) == lines
                &&& final(out)@.subrange(0, first as int) == old(out)@.subrange(0, first as int)
                &&& final(bs).position() == end
            },
            Err(e) => r == Err::<(), BitStreamErrorType>(e),
        },
{
    let ghost data = bs.data();
    let ghost start = bs.position();
    let mut sample: usize = first;
    assert(lines_of(out@.subrange(first as int, sample as int)) =~= Seq::<int>::empty());
    while sample + 4 <= GRANULE_SAMPLES && bs.get_bit_offset() < max_bit
        invariant
            first <= sample <= 576,
            bs.wf(),
            bs.data() == data,
            data == old(bs).data(),
            start == old(bs).position(),
            tables.wf(),
            out@.subrange(0, first as int) == old(out)@.subrange(0, first as int),
            forall|j: int| sample <= j < 576 ==> out[j] == 0,
            match count1_at(*tables, data, bs.position(), sample as int, max_bit as int, select) {
                Ok((rest, end)) => count1_at(
                    *tables,
                    data,
                    start,
                    first as int,
                    max_bit as int,
                    select,
                ) == Ok::<(Seq<int>, int), BitStreamErrorType>(
                    (lines_of(out@.subrange(first as int, sample as int)) + rest, end),
                ),
                Err(e) => count1_at(*tables, data, start, first as int, max_bit as int, select)
                    == Err::<(Seq<int>, int), BitStreamErrorType>(e),
            },
        decreases GRANULE_SAMPLES - sample,
    {
        let ghost before = out@;
        let ghost done = lines_of(before.subrange(first as int, sample as int));
        let quad: [i32; 4] = decode_quad(tables, bs, select)?;
        out[sample] = quad[0];
        out[sample + 1] = quad[1];
        out[sample + 2] = quad[2];
        out[sample + 3] = quad[3];
        proof {
            assert(lines_of(out@.subrange(first as int, sample + 4)) =~= done + lines_of(quad@));
            assert(out@.subrange(0, first as int) =~= before.subrange(0, first as int));
            match count1_at(*tables, data, bs.position(), sample + 4, max_bit as int, select) {
                Ok((rest, end)) => {
                    assert((done + lines_of(quad@)) + rest =~= done + (lines_of(quad@) + rest));
                },
                Err(e) => {},
            }
        }
        sample = sample + 4;
    }
    proof {
        assert(lines_of(out@.subrange(first as int, sample as int)) + zero_lines(
            GRANULE_SAMPLES - sample,
        ) =~= lines_of(out@.subrange(first as int, 576)));
    }
    Ok(())
}

/// Decodes the lines of a granule of a channel into a fresh array.
fn decode_lines<R: BitReader>(
    bs: &mut BitStream<R>,
    tables: &HuffmanTables,
    sr: usize,
    channel: &Channel,
    max_bit: usize,
) -> (r: Result<[i32; 576], BitStreamErrorType>)
    requires
        old(bs).wf(),
        tables.wf(),
        channel.wf(),
        sr < 3,
    ensures
        final(bs).wf(),
        final(bs).data() == old(bs).data(),
        match huffman_lines(
            *tables,
            old(bs).data(),
            old(bs).position(),
            sr as int,
            *channel,
            max_bit as int,
        ) {
            Ok((lines, end)) => {
                &&& r matches Ok(samples) && lines_of(samples@) == lines
                &&& final(bs).position() == end
            },
            Err(e) => r == Err::<[i32; 576], BitStreamErrorType>(e),
        },
{
    let region0: usize;
    let region1: usize;
    if channel.blocksplit_flag == 1 && channel.block_type == 2 {
        region0 = 36;
        region1 = 576;
    } else {
        let last: usize = channel.region_address1 + channel.region_address2 + 2;
        if last > 22 {
            return Err(BitStreamErrorType::Empty);
        }
        region0 = BAND_INDEX_L[sr][channel.region_address1 + 1];
        region1 = BAND_INDEX_L[sr][last];
    }
    if channel.big_values > GRANULE_SAMPLES / 2 {
        return Err(BitStreamErrorType::Empty);
    }
    let mut out: [i32; 576] = [0i32;576];
    decode_big_values(bs, tables, channel, region0, region1, &mut out)?;
    let ghost big = out@;
    decode_count1(bs, tables, channel.count1table_select, 2 * channel.big_values, max_bit, &mut out)?;
    proof {
        let first = 2 * channel.big_values;
        assert(lines_of(big.subrange(0, first)) + lines_of(out@.subrange(first, 576)) =~= lines_of(
            out@,
        ));
    }
    Ok(out)
}

/// Decodes the 576 frequency lines of a granule of a channel from the main
/// data: the big values with the code books that the side information
/// selects, then quadruples while the cursor is before `max_bit`, then zeros.
///
/// On failure the lines and the cursor are left as they were.
pub fn decode_huffman<R: BitReader>(
    bs: &mut BitStream<R>,
    tables: &HuffmanTables,
    header: &MpegHeader,
    channel: &Channel,
    samples: &mut [i32; 576],
    max_bit: usize,
) -> (r: Result<(), BitStreamErrorType>)
    requires
        old(bs).wf(),
        tables.wf(),
        channel.wf(),
        header.sample_rate.spec_get_value() < 3,
    ensures
        final(bs).wf(),
        final(bs).data() == old(bs).data(),
        match huffman_lines(
            *tables,
            old(bs).data(),
            old(bs).position(),
            header.sample_rate.spec_get_value() as int,
            *channel,
            max_bit as int,
        ) {
            Ok((lines, end)) => {
                &&& r is Ok
                &&& lines_of(final(samples)@) == lines
                &&& final(bs).position() == end
            },
            Err(e) => {
                &&& r == Err::<(), BitStreamErrorType>(e)
                &&& *final(samples) == *old(samples)
                &&& final(bs).position() == old(bs).position()
            },
        },
{
    let start: usize = bs.get_bit_offset();
    proof {
        bs.lemma_position_in_data();
    }
    match decode_lines(bs, tables, header.sample_rate.get_value(), channel, max_bit) {
        Ok(lines) => {
            *samples = lines;
            Ok(())
        },
        Err(e) => {
            let back = bs.set_bit_offset(start);
            Err(e)
        },
    }
}

} // verus!
