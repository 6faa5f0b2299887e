//! Big-endian bit reader over a byte source.
//!
//! A stream is modelled by the byte sequence of its source and a bit cursor.
//! Bits are numbered from the most significant bit of byte 0; a group of `n`
//! bits is the unsigned integer whose most significant bit comes first.

use vstd::arithmetic::power2::{lemma2_to64, lemma_pow2_adds, lemma_pow2_pos, lemma_pow2_unfold, pow2};
use vstd::prelude::*;

verus! {

/// Why a bit or byte could not be delivered.
#[derive(Debug, Clone, Copy, PartialEq, Eq, Structural)]
pub enum BitStreamErrorType {
    /// The request reaches past the end of the byte source.
    Empty,
}

/// A code word: `bit_length` bits whose unsigned value is `value`.
#[derive(Debug, Hash, Clone, Copy, PartialEq, Eq, Structural)]
pub struct Binary {
    pub value: usize,
    pub bit_length: usize,
}

impl Binary {
    pub fn new(value: usize, bit_length: usize) -> (b: Self)
        ensures
            b.value == value,
            b.bit_length == bit_length,
    {
        Self { value, bit_length }
    }

    /// Appends the lowest bit of `value` at the least significant end.  A
    /// bit shifted out at the top is lost.
    pub fn push_bit(&mut self, value: usize)
        requires
            old(self).bit_length < usize::MAX,
        ensures
            final(self).value == (old(self).value << 1) | (value & 1),
            2 * old(self).value + 1 <= usize::MAX ==> final(self).value == 2 * old(self).value
                + value % 2,
            final(self).bit_length == old(self).bit_length + 1,
    {
        proof {
            let shifted: usize = self.value << 1;
            let low: usize = value & 1;
            if 2 * self.value + 1 <= usize::MAX {
                lemma2_to64();
                vstd::bits::lemma_usize_shl_is_mul(self.value, 1);
                assert(low == value % 2) by (bit_vector)
                    requires
                        low == value & 1,
                ;
                assert(shifted | low == shifted + low) by (bit_vector)
                    requires
                        shifted % 2 == 0,
                        low <= 1,
                ;
            }
        }
        self.value = (self.value << 1) | (value & 1);
        self.bit_length = self.bit_length + 1;
    }

    pub fn get_value(&self) -> (v: usize)
        ensures
            v == self.value,
    {
        self.value
    }
}

/// What fetching the byte at `offset` of `data` yields.
pub open spec fn byte_at(data: Seq<u8>, offset: int) -> Result<u8, BitStreamErrorType> {
    if 0 <= offset < data.len() {
        Ok(data[offset])
    } else {
        Err(BitStreamErrorType::Empty)
    }
}

/// A random-access source of bytes.
pub trait BitReader {
    /// The bytes of the source, in order.
    spec fn bytes(&self) -> Seq<u8>;

    /// Looks at the byte at `offset` without consuming anything.
    fn read_byte(&self, offset: usize) -> (r: Result<u8, BitStreamErrorType>)
        ensures
            r == byte_at(self.bytes(), offset as int),
    ;

    /// Fetches the byte at `offset` on behalf of a consuming read.
    fn remove_byte(&self, offset: usize) -> (r: Result<u8, BitStreamErrorType>)
        ensures
            r == byte_at(self.bytes(), offset as int),
    ;
}

impl BitReader for Vec<u8> {
    open spec fn bytes(&self) -> Seq<u8> {
        self@
    }

    fn read_byte(&self, offset: usize) -> (r: Result<u8, BitStreamErrorType>) {
        if offset < self.len() {
            Ok(self[offset])
        } else {
            Err(BitStreamErrorType::Empty)
        }
    }

    fn remove_byte(&self, offset: usize) -> (r: Result<u8, BitStreamErrorType>) {
        if offset < self.len() {
            Ok(self[offset])
        } else {
            Err(BitStreamErrorType::Empty)
        }
    }
}

/// The weight of bit `k` of a byte, counted from its least significant bit.
pub open spec fn bit_weight(k: int) -> int {
    if k <= 0 {
        1
    } else if k == 1 {
        2
    } else if k == 2 {
        4
    } else if k == 3 {
        8
    } else if k == 4 {
        16
    } else if k == 5 {
        32
    } else if k == 6 {
        64
    } else {
        128
    }
}

/// The bit at position `pos` of `data` (0 or 1): bit 0 is the most
/// significant bit of byte 0.
pub open spec fn bit_at(data: Seq<u8>, pos: int) -> nat {
    ((data[pos / 8] as int / bit_weight(7 - pos % 8)) % 2) as nat
}

/// The unsigned value of the `n` bits of `data` that start at bit `pos`.
#[verifier::opaque]
pub open spec fn bits_value(data: Seq<u8>, pos: int, n: int) -> nat
    decreases n,
{
    if n <= 0 {
        0
    } else {
        2 * bits_value(data, pos, n - 1) + bit_at(data, pos + n - 1)
    }
}

/// Whether `n` bits can be taken from `data` at bit `pos`.
pub open spec fn bits_available(data: Seq<u8>, pos: int, n: int) -> bool {
    0 <= pos && 0 <= n && pos + n <= 8 * data.len()
}

/// The outcome of looking at `n` bits at bit `pos`.
pub open spec fn peek_result(data: Seq<u8>, pos: int, n: int) -> Result<usize, BitStreamErrorType> {
    if bits_available(data, pos, n) {
        Ok(bits_value(data, pos, n) as usize)
    } else {
        Err(BitStreamErrorType::Empty)
    }
}

/// The outcome of consuming `n` bits at bit `pos`: the value and the cursor
/// after it.
pub open spec fn read_result(data: Seq<u8>, pos: int, n: int) -> Result<
    (usize, int),
    BitStreamErrorType,
> {
    if bits_available(data, pos, n) {
        Ok((bits_value(data, pos, n) as usize, pos + n))
    } else {
        Err(BitStreamErrorType::Empty)
    }
}

/// The first byte boundary at or after `pos`.
pub open spec fn align_up(pos: int) -> int {
    if pos % 8 == 0 {
        pos
    } else {
        pos + 8 - pos % 8
    }
}

/// A group of `n` bits is below `2^n`.
pub proof fn lemma_bits_value_bound(data: Seq<u8>, pos: int, n: int)
    requires
        0 <= n,
    ensures
        bits_value(data, pos, n) < pow2(n as nat),
    decreases n,
{
    reveal(bits_value);
    if n == 0 {
        lemma2_to64();
    } else {
        lemma_bits_value_bound(data, pos, n - 1);
        lemma_pow2_unfold(n as nat);
    }
}

/// A group of at most 32 bits fits the result type of `read`.
pub proof fn lemma_bits_value_fits(data: Seq<u8>, pos: int, n: int)
    requires
        0 <= n <= 32,
    ensures
        bits_value(data, pos, n) <= 0xffff_ffff,
        bits_value(data, pos, n) as usize == bits_value(data, pos, n),
{
    lemma_bits_value_bound(data, pos, n);
    lemma2_to64();
    if n < 32 {
        vstd::arithmetic::power2::lemma_pow2_strictly_increases(n as nat, 32);
    }
}

/// Reading `n1` bits and then `n2` bits gives the two halves of one read of
/// `n1 + n2` bits: the first group is the high part, the second the low part.
pub proof fn lemma_bits_value_split(data: Seq<u8>, pos: int, n1: int, n2: int)
    requires
        0 <= n1,
        0 <= n2,
    ensures
        bits_value(data, pos, n1 + n2) == bits_value(data, pos, n1) * pow2(n2 as nat) + bits_value(
            data,
            pos + n1,
            n2,
        ),
    decreases n2,
{
    reveal(bits_value);
    if n2 == 0 {
        lemma2_to64();
    } else {
        lemma_bits_value_split(data, pos, n1, n2 - 1);
        lemma_pow2_unfold(n2 as nat);
        let hi = bits_value(data, pos, n1) as int;
        let p = pow2((n2 - 1) as nat) as int;
        assert(2 * (hi * p) == hi * (2 * p)) by (nonlinear_arith);
    }
}

/// The bits of a group that lies within one byte, read off that byte by a
/// shift and a mask.
proof fn lemma_bits_in_byte(data: Seq<u8>, pos: int, n: int)
    requires
        0 <= pos,
        0 <= n,
        pos % 8 + n <= 8,
    ensures
        bits_value(data, pos, n) == ((data[pos / 8] as u64) >> ((8 - pos % 8 - n) as u64)) & (((1u64
            << (n as u64)) - 1) as u64),
    decreases n,
{
    reveal(bits_value);
    let b: u64 = data[pos / 8] as u64;
    let k: u64 = (8 - pos % 8 - n) as u64;
    let l: u64 = n as u64;
    if n == 0 {
        assert((b >> k) & (((1u64 << 0u64) - 1) as u64) == 0) by (bit_vector);
    } else {
        lemma_bits_in_byte(data, pos, n - 1);
        assert((pos + n - 1) / 8 == pos / 8);
        assert((pos + n - 1) % 8 == pos % 8 + n - 1);
        let k1: u64 = (k + 1) as u64;
        let l1: u64 = (l - 1) as u64;
        let weight: u64 = bit_weight(k as int) as u64;
        assert(weight == 1u64 << k) by {
            assert(1u64 << 0u64 == 1) by (bit_vector);
            assert(1u64 << 1u64 == 2) by (bit_vector);
            assert(1u64 << 2u64 == 4) by (bit_vector);
            assert(1u64 << 3u64 == 8) by (bit_vector);
            assert(1u64 << 4u64 == 16) by (bit_vector);
            assert(1u64 << 5u64 == 32) by (bit_vector);
            assert(1u64 << 6u64 == 64) by (bit_vector);
            assert(1u64 << 7u64 == 128) by (bit_vector);
        }
        assert(2 * ((b >> k1) & (((1u64 << l1) - 1) as u64)) + (b / weight) % 2 == (b >> k) & (((1u64
            << l) - 1) as u64)) by (bit_vector)
            requires
                1 <= l <= 8,
                k + l <= 8,
                k1 == k + 1,
                l1 == l - 1,
                b < 256,
                weight == 1u64 << k,
        ;
    }
}

/// Appending a chunk of `l` bits below an accumulated value.
proof fn lemma_append_chunk(acc: u64, chunk: u64, l: u64)
    requires
        l <= 8,
        acc <= 0xffff_ffff,
        chunk < pow2(l as nat),
    ensures
        (acc << l) | chunk == acc * pow2(l as nat) + chunk,
{
    lemma2_to64();
    assert(pow2(l as nat) == (1u64 << l)) by {
        assert(1u64 << 0u64 == 1) by (bit_vector);
        assert(1u64 << 1u64 == 2) by (bit_vector);
        assert(1u64 << 2u64 == 4) by (bit_vector);
        assert(1u64 << 3u64 == 8) by (bit_vector);
        assert(1u64 << 4u64 == 16) by (bit_vector);
        assert(1u64 << 5u64 == 32) by (bit_vector);
        assert(1u64 << 6u64 == 64) by (bit_vector);
        assert(1u64 << 7u64 == 128) by (bit_vector);
        assert(1u64 << 8u64 == 256) by (bit_vector);
    }
    assert((acc << l) | chunk == acc * (1u64 << l) + chunk) by (bit_vector)
        requires
            l <= 8,
            acc <= 0xffff_ffff,
            chunk < (1u64 << l),
    ;
}

/// A cursor over the bits of a byte source.
pub struct BitStream<'a, R: BitReader> {
    reader: &'a R,
    pos: usize,
}

impl<'a, R: BitReader> BitStream<'a, R> {
    /// The bytes under the stream.
    pub closed spec fn data(&self) -> Seq<u8> {
        self.reader.bytes()
    }

    /// The bit cursor: how many bits have been consumed.
    pub closed spec fn position(&self) -> int {
        self.pos as int
    }

    /// The cursor lies within the data, and every bit position fits `usize`.
    pub closed spec fn wf(&self) -> bool {
        &&& self.pos <= 8 * self.reader.bytes().len()
        &&& 8 * self.reader.bytes().len() <= usize::MAX
    }

    pub fn new(reader: &'a R) -> (s: Self)
        requires
            8 * reader.bytes().len() <= usize::MAX,
        ensures
            s.wf(),
            s.data() == reader.bytes(),
            s.position() == 0,
    {
        Self { reader, pos: 0 }
    }

    /// A well-formed stream has its cursor within its data.
    pub proof fn lemma_position_in_data(&self)
        requires
            self.wf(),
        ensures
            0 <= self.position() <= 8 * self.data().len(),
    {
    }

    pub fn get_bit_offset(&self) -> (offset: usize)
        ensures
            offset == self.position(),
    {
        self.pos
    }

    /// The value of the next `n` bits.  The bytes are fetched with
    /// `remove_byte` when `consume` is set and with `read_byte` otherwise.
    fn scan(&self, n: usize, consume: bool) -> (r: Result<usize, BitStreamErrorType>)
        requires
            self.wf(),
            n <= 32,
        ensures
            r == peek_result(self.data(), self.position(), n as int),
    {
        let ghost data = self.reader.bytes();
        let ghost start = self.pos as int;
        assert(bits_value(data, start, 0) == 0) by {
            reveal(bits_value);
        }
        let mut result: u64 = 0;
        let mut left: usize = n;
        let mut cur: usize = self.pos;
        while left > 0
            invariant
                data == self.reader.bytes(),
                start == self.pos,
                8 * data.len() <= usize::MAX,
                n <= 32,
                left <= n,
                cur == start + (n - left),
                cur <= 8 * data.len(),
                result == bits_value(data, start, n - left),
                result <= 0xffff_ffff,
            decreases left,
        {
            let fetched = if consume {
                self.reader.remove_byte(cur / 8)
            } else {
                self.reader.read_byte(cur / 8)
            };
            let byte: u8 = match fetched {
                Ok(b) => b,
                Err(e) => {
                    return Err(e);
                },
            };
            let offset: usize = cur % 8;
            let len: usize = if 8 - offset < left {
                8 - offset
            } else {
                left
            };
            let shift: u64 = (8 - offset - len) as u64;
            let width: u64 = len as u64;
            assert((1u64 << width) >= 1) by (bit_vector)
                requires
                    width <= 8,
            ;
            let mask: u64 = (1u64 << width) - 1;
            let chunk: u64 = ((byte as u64) >> shift) & mask;
            proof {
                lemma_bits_in_byte(data, cur as int, len as int);
                lemma_bits_value_bound(data, cur as int, len as int);
                lemma_bits_value_split(data, start, n - left, len as int);
                lemma_append_chunk(result, chunk, width);
                lemma_bits_value_fits(data, start, n - left + len);
            }
            result = (result << width) | chunk;
            cur = cur + len;
            left = left - len;
        }
        proof {
            lemma_bits_value_fits(data, start, n as int);
        }
        Ok(result as usize)
    }

    /// Looks at the next `n` bits without moving the cursor.
    pub fn try_read(&self, n: usize) -> (r: Result<usize, BitStreamErrorType>)
        requires
            self.wf(),
            n <= 32,
        ensures
            r == peek_result(self.data(), self.position(), n as int),
    {
        self.scan(n, false)
    }

    /// Consumes the next `n` bits.  On failure the cursor stays where it was.
    pub fn read(&mut self, n: usize) -> (r: Result<usize, BitStreamErrorType>)
        requires
            old(self).wf(),
            n <= 32,
        ensures
            final(self).wf(),
            final(self).data() == old(self).data(),
            match read_result(old(self).data(), old(self).position(), n as int) {
                Ok((value, next)) => {
                    &&& r == Ok::<usize, BitStreamErrorType>(value)
                    &&& final(self).position() == next
                },
                Err(e) => {
                    &&& r == Err::<usize, BitStreamErrorType>(e)
                    &&& final(self).position() == old(self).position()
                },
            },
            r == peek_result(old(self).data(), old(self).position(), n as int),
            final(self).position() == (if r is Ok {
                old(self).position() + n
            } else {
                old(self).position()
            }),
    {
        let value: usize = self.scan(n, true)?;
        self.pos = self.pos + n;
        Ok(value)
    }

    /// Consumes the next `n` bits, which are known to be there.
    pub(crate) fn take(&mut self, n: usize) -> (value: usize)
        requires
            old(self).wf(),
            n <= 32,
            bits_available(old(self).data(), old(self).position(), n as int),
        ensures
            final(self).wf(),
            final(self).data() == old(self).data(),
            final(self).position() == old(self).position() + n,
            value == bits_value(old(self).data(), old(self).position(), n as int) as usize,
    {
        match self.read(n) {
            Ok(value) => value,
            Err(_) => 0,
        }
    }

    /// Whether `n` more bits can be consumed.
    pub fn has_bits(&self, n: usize) -> (b: bool)
        requires
            self.wf(),
        ensures
            b == bits_available(self.data(), self.position(), n as int),
    {
        if n == 0 {
            return true;
        }
        match self.pos.checked_add(n - 1) {
            Some(last) => self.reader.read_byte(last / 8).is_ok(),
            None => false,
        }
    }

    /// Moves the cursor to bit `offset`.  On failure the cursor stays where it
    /// was.
    pub fn set_bit_offset(&mut self, offset: usize) -> (r: Result<(), BitStreamErrorType>)
        requires
            old(self).wf(),
        ensures
            final(self).wf(),
            final(self).data() == old(self).data(),
            r is Ok <==> offset <= 8 * old(self).data().len(),
            final(self).position() == (if r is Ok {
                offset as int
            } else {
                old(self).position()
            }),
    {
        if offset > 0 {
            if self.reader.read_byte((offset - 1) / 8).is_err() {
                return Err(BitStreamErrorType::Empty);
            }
        }
        self.pos = offset;
        Ok(())
    }

    /// Moves the cursor forward to the next byte boundary, if it is not on one.
    pub fn align_byte(&mut self)
        requires
            old(self).wf(),
        ensures
            final(self).wf(),
            final(self).data() == old(self).data(),
            final(self).position() == align_up(old(self).position()),
    {
        let rem: usize = self.pos % 8;
        if rem != 0 {
            self.pos = self.pos + (8 - rem);
        }
    }
}

/// Peeking `n` bits yields the value that reading them yields, and fails
/// exactly when reading fails.
pub proof fn lemma_read_equals_peek(data: Seq<u8>, pos: int, n: int)
    ensures
        match read_result(data, pos, n) {
            Ok((value, next)) => peek_result(data, pos, n) == Ok::<usize, BitStreamErrorType>(value)
                && next == pos + n,
            Err(e) => peek_result(data, pos, n) == Err::<usize, BitStreamErrorType>(e),
        },
{
}

/// Two consecutive reads of `n1` and `n2` bits succeed exactly when one read
/// of `n1 + n2` bits does, end at the same cursor, and their values are the
/// high and the low part of the single read's value.
pub proof fn lemma_consecutive_reads(data: Seq<u8>, pos: int, n1: int, n2: int)
    requires
        0 <= pos,
        0 <= n1,
        0 <= n2,
        n1 + n2 <= 32,
    ensures
        match read_result(data, pos, n1 + n2) {
            Ok((value, next)) => {
                &&& read_result(data, pos, n1) matches Ok((high, middle))
                &&& read_result(data, middle, n2) matches Ok((low, end))
                &&& end == next
                &&& value == high * pow2(n2 as nat) + low
            },
            Err(_) => read_result(data, pos, n1) matches Ok((_, middle)) ==> read_result(
                data,
                middle,
                n2,
            ) is Err,
        },
{
    lemma_bits_value_split(data, pos, n1, n2);
    lemma_bits_value_fits(data, pos, n1 + n2);
    lemma_bits_value_fits(data, pos, n1);
    lemma_bits_value_fits(data, pos + n1, n2);
    lemma_pow2_pos(n2 as nat);
    lemma_pow2_adds(n1 as nat, n2 as nat);
}

} // verus!
