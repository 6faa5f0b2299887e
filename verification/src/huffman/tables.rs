//! Scale-factor band partitions and the shape of the Huffman code books.

use crate::bitstream::Binary;
use vstd::prelude::*;

verus! {

/// Where each long scale-factor band begins, in frequency lines, by
/// sampling-frequency index; the last entry is the end of the last band.
pub const BAND_INDEX_L: [[usize; 23]; 3] = [
    [
        0, 4, 8, 12, 16, 20, 24, 30, 36, 44, 52, 62, 74, 90, 110, 134, 162, 196, 238, 288, 342, 418,
        576,
    ],
    [
        0, 4, 8, 12, 16, 20, 24, 30, 36, 42, 50, 60, 72, 88, 106, 128, 156, 190, 230, 276, 330, 384,
        576,
    ],
    [
        0, 4, 8, 12, 16, 20, 24, 30, 36, 44, 54, 66, 82, 102, 126, 156, 194, 240, 296, 364, 448, 550,
        576,
    ],
];

/// How many frequency lines each short scale-factor band has per window, by
/// sampling-frequency index.
pub const BAND_WIDTH_S: [[usize; 13]; 3] = [
    [4, 4, 4, 4, 6, 8, 10, 12, 14, 18, 22, 30, 56],
    [4, 4, 4, 4, 6, 6, 10, 12, 14, 16, 20, 26, 66],
    [4, 4, 4, 4, 6, 8, 12, 16, 20, 26, 34, 42, 12],
];

/// Where each short scale-factor band begins within a window, in frequency
/// lines, by sampling-frequency index; the last entry is the end of the last
/// band.
pub const BAND_INDEX_S: [[usize; 14]; 3] = [
    [0, 4, 8, 12, 16, 22, 30, 40, 52, 66, 84, 106, 136, 192],
    [0, 4, 8, 12, 16, 22, 28, 38, 50, 64, 80, 100, 126, 192],
    [0, 4, 8, 12, 16, 22, 30, 42, 58, 78, 104, 138, 180, 192],
];

/// The number of frequency lines of a granule.
pub const GRANULE_SAMPLES: usize = 576;

/// The number of code books that a granule can select for its big values.
pub const PAIR_TABLES: usize = 32;

/// The largest range of a value that a code book codes directly.
pub const MAX_TABLE_SIZE: usize = 16;

/// The largest number of bits that extend a value beyond a code book's range.
pub const MAX_LINBITS: usize = 13;

/// The largest length of a code word, which is what one look at the bit
/// stream can deliver.
pub const MAX_CODE_BITS: usize = 32;

/// The long bands are in ascending order and end with the granule.
pub proof fn lemma_long_bands_ascend(sr: int, sfb: int)
    requires
        0 <= sr < 3,
        0 <= sfb < 22,
    ensures
        BAND_INDEX_L[sr][sfb] < BAND_INDEX_L[sr][sfb + 1] <= GRANULE_SAMPLES,
        BAND_INDEX_L[sr][0] == 0,
        BAND_INDEX_L[sr][22] == GRANULE_SAMPLES,
{
}

/// Each short band begins where the one before it ends, and three windows of
/// them fill the granule.
pub proof fn lemma_short_bands_add_up(sr: int, sfb: int)
    requires
        0 <= sr < 3,
        0 <= sfb < 13,
    ensures
        BAND_INDEX_S[sr][sfb + 1] == BAND_INDEX_S[sr][sfb] + BAND_WIDTH_S[sr][sfb],
        BAND_WIDTH_S[sr][sfb] >= 4,
        BAND_INDEX_S[sr][0] == 0,
        3 * BAND_INDEX_S[sr][13] == GRANULE_SAMPLES,
{
}

/// A code book for pairs of values: the code word of the pair `(x, y)`, with
/// `x` and `y` below `size`, is entry `x * size + y` of `codes`.  A value of
/// `size - 1` is extended by `linbits` further bits where `linbits` is not 0.
#[derive(Debug)]
pub struct PairTable {
    pub size: usize,
    pub linbits: usize,
    pub codes: Vec<Binary>,
}

impl PairTable {
    /// The book has one code word of at most 32 bits for each pair, and its
    /// range and extension are within the format's limits.
    pub open spec fn wf(&self) -> bool {
        &&& self.size <= MAX_TABLE_SIZE
        &&& self.linbits <= MAX_LINBITS
        &&& self.codes@.len() == self.size * self.size
        &&& codes_fit(self.codes@)
    }

    /// Whether the book is well formed.
    pub fn is_wf(&self) -> (b: bool)
        ensures
            b == self.wf(),
    {
        if self.size > MAX_TABLE_SIZE || self.linbits > MAX_LINBITS {
            return false;
        }
        assert(self.size * self.size <= 256) by (nonlinear_arith)
            requires
                self.size <= 16,
        ;
        self.codes.len() == self.size * self.size && all_codes_fit(&self.codes)
    }
}

/// Every code word has at most 32 bits.
pub open spec fn codes_fit(codes: Seq<Binary>) -> bool {
    forall|k: int| 0 <= k < codes.len() ==> (#[trigger] codes[k]).bit_length <= MAX_CODE_BITS
}

/// Every entry holds a word of four bits.
pub open spec fn values_are_quads(entries: Seq<Binary>) -> bool {
    forall|k: int| 0 <= k < entries.len() ==> (#[trigger] entries[k]).value < 16
}

fn all_codes_fit(codes: &Vec<Binary>) -> (b: bool)
    ensures
        b == codes_fit(codes@),
{
    let mut k: usize = 0;
    while k < codes.len()
        invariant
            k <= codes.len(),
            forall|j: int| 0 <= j < k ==> (#[trigger] codes@[j]).bit_length <= MAX_CODE_BITS,
        decreases codes.len() - k,
    {
        if codes[k].bit_length > MAX_CODE_BITS {
            return false;
        }
        k = k + 1;
    }
    true
}

fn all_values_are_quads(entries: &Vec<Binary>) -> (b: bool)
    ensures
        b == values_are_quads(entries@),
{
    let mut k: usize = 0;
    while k < entries.len()
        invariant
            k <= entries.len(),
            forall|j: int| 0 <= j < k ==> (#[trigger] entries@[j]).value < 16,
        decreases entries.len() - k,
    {
        if entries[k].value >= 16 {
            return false;
        }
        k = k + 1;
    }
    true
}

fn all_pairs_wf(pairs: &Vec<PairTable>) -> (b: bool)
    ensures
        b == (forall|k: int| 0 <= k < pairs@.len() ==> (#[trigger] pairs@[k]).wf()),
{
    let mut k: usize = 0;
    while k < pairs.len()
        invariant
            k <= pairs.len(),
            forall|j: int| 0 <= j < k ==> (#[trigger] pairs@[j]).wf(),
        decreases pairs.len() - k,
    {
        if !pairs[k].is_wf() {
            return false;
        }
        k = k + 1;
    }
    true
}

/// Whether code books can serve a decoder: 32 well-formed books for pairs,
/// 16 code words of at most 32 bits for the first book of quadruples, and 16
/// four-bit words for the second.
pub open spec fn tables_fit(pairs: Seq<PairTable>, quad_a: Seq<Binary>, quad_b: Seq<Binary>) -> bool {
    &&& pairs.len() == PAIR_TABLES
    &&& forall|k: int| 0 <= k < pairs.len() ==> (#[trigger] pairs[k]).wf()
    &&& quad_a.len() == 16
    &&& codes_fit(quad_a)
    &&& quad_b.len() == 16
    &&& values_are_quads(quad_b)
}

/// The code books of a decoder.
///
/// `pairs` are the books for the big values, by table number.  `quad_a` holds
/// the code word of each quadruple, by the quadruple's four bits read as a
/// number.  `quad_b` is a fixed-length book: its entry for the four bits read
/// holds the quadruple as its value.
#[derive(Debug)]
pub struct HuffmanTables {
    pairs: Vec<PairTable>,
    quad_a: Vec<Binary>,
    quad_b: Vec<Binary>,
}

impl HuffmanTables {
    pub closed spec fn pairs(&self) -> Seq<PairTable> {
        self.pairs@
    }

    pub closed spec fn quad_a(&self) -> Seq<Binary> {
        self.quad_a@
    }

    pub closed spec fn quad_b(&self) -> Seq<Binary> {
        self.quad_b@
    }

    /// The books fit a decoder.
    pub open spec fn wf(&self) -> bool {
        tables_fit(self.pairs(), self.quad_a(), self.quad_b())
    }

    /// Takes the books if they fit a decoder.
    pub fn new(pairs: Vec<PairTable>, quad_a: Vec<Binary>, quad_b: Vec<Binary>) -> (t: Option<Self>)
        ensures
            t is Some <==> tables_fit(pairs@, quad_a@, quad_b@),
            t matches Some(tables) ==> {
                &&& tables.wf()
                &&& tables.pairs() == pairs@
                &&& tables.quad_a() == quad_a@
                &&& tables.quad_b() == quad_b@
            },
    {
        if pairs.len() != PAIR_TABLES || quad_a.len() != 16 || quad_b.len() != 16 {
            return None;
        }
        if !all_pairs_wf(&pairs) || !all_codes_fit(&quad_a) || !all_values_are_quads(&quad_b) {
            return None;
        }
        Some(Self { pairs, quad_a, quad_b })
    }

    /// The book for pairs with the given table number.
    pub fn pair_table(&self, table_num: usize) -> (table: &PairTable)
        requires
            self.wf(),
            table_num < PAIR_TABLES,
        ensures
            *table == self.pairs()[table_num as int],
            table.wf(),
    {
        &self.pairs[table_num]
    }

    /// The first book of quadruples.
    pub fn quad_a_codes(&self) -> (codes: &Vec<Binary>)
        requires
            self.wf(),
        ensures
            codes@ == self.quad_a(),
    {
        &self.quad_a
    }

    /// The quadruple that the second book holds for four bits.
    pub fn quad_b_value(&self, bits: usize) -> (value: usize)
        requires
            self.wf(),
            bits < 16,
        ensures
            value == self.quad_b()[bits as int].value,
            value < 16,
    {
        self.quad_b[bits].value
    }
}

/// The number of bytes that hold a code word: its length, then its value
/// in four bytes, the highest first.
pub const CODE_BYTES: usize = 5;

/// The code word that the five bytes of `data` at `at` hold.
pub open spec fn code_in(data: Seq<u8>, at: int) -> Binary {
    Binary {
        value: (data[at + 1] * 0x100_0000 + data[at + 2] * 0x1_0000 + data[at + 3] * 0x100 + data[at
            + 4]) as usize,
        bit_length: data[at] as usize,
    }
}

/// The `count` code words that `data` holds from `at` on.
pub open spec fn codes_in(data: Seq<u8>, at: int, count: int) -> Seq<Binary> {
    Seq::new(count as nat, |k: int| code_in(data, at + CODE_BYTES * k))
}

/// The number of bytes that hold a book for pairs of the given size: its
/// size, its number of extension bits, and its code words.
pub open spec fn book_bytes(size: int) -> int {
    2 + CODE_BYTES * (size * size)
}

/// Where book `k` for pairs begins in `data`: behind the books before it.
pub open spec fn book_start(data: Seq<u8>, k: int) -> int
    decreases k,
{
    if k <= 0 {
        0
    } else {
        book_start(data, k - 1) + book_bytes(data[book_start(data, k - 1)] as int)
    }
}

/// Whether `data` is 32 books for pairs and then the 16 entries of each of
/// the two books of quadruples, with nothing missing and nothing left over.
pub open spec fn books_fill(data: Seq<u8>) -> bool {
    &&& forall|k: int| 0 <= k < PAIR_TABLES ==> #[trigger] book_start(data, k) + 2 <= data.len()
    &&& book_start(data, PAIR_TABLES as int) + 32 * CODE_BYTES == data.len()
}

/// Whether book `k` for pairs in `data` is well formed.
pub open spec fn book_fits(data: Seq<u8>, k: int) -> bool {
    let at = book_start(data, k);
    &&& data[at] <= MAX_TABLE_SIZE
    &&& data[at + 1] <= MAX_LINBITS
    &&& codes_fit(codes_in(data, at + 2, data[at] * data[at]))
}

/// Whether `pairs` are the first `count` books for pairs that `data` holds.
pub open spec fn are_books_of(pairs: Seq<PairTable>, data: Seq<u8>, count: int) -> bool {
    &&& pairs.len() == count
    &&& forall|k: int|
        0 <= k < count ==> {
            let at = book_start(data, k);
            &&& (#[trigger] pairs[k]).size == data[at]
            &&& pairs[k].linbits == data[at + 1]
            &&& pairs[k].codes@ == codes_in(data, at + 2, data[at] * data[at])
        }
}

/// The books begin one behind the other.
proof fn lemma_book_start_grows(data: Seq<u8>, from: int, to: int)
    requires
        0 <= from <= to,
    ensures
        0 <= book_start(data, from) <= book_start(data, to),
        from < to ==> book_start(data, from) + 2 <= book_start(data, to),
    decreases to,
{
    if to > 0 {
        let size = data[book_start(data, to - 1)] as int;
        assert(size * size >= 0) by (nonlinear_arith);
        if from < to {
            lemma_book_start_grows(data, from, to - 1);
        } else {
            lemma_book_start_grows(data, from - 1, to - 1);
        }
    }
}

/// Reads `count` code words from `at` on.
fn read_codes(data: &[u8], at: usize, count: usize) -> (codes: Vec<Binary>)
    requires
        at + CODE_BYTES * count <= data@.len(),
    ensures
        codes@ == codes_in(data@, at as int, count as int),
{
    let len: usize = data.len();
    let mut codes: Vec<Binary> = Vec::new();
    let mut k: usize = 0;
    while k < count
        invariant
            len == data@.len(),
            at + CODE_BYTES * count <= len,
            k <= count,
            codes@ == codes_in(data@, at as int, k as int),
        decreases count - k,
    {
        let from: usize = at + CODE_BYTES * k;
        let value: usize = data[from + 1] as usize * 0x100_0000 + data[from + 2] as usize * 0x1_0000
            + data[from + 3] as usize * 0x100 + data[from + 4] as usize;
        codes.push(Binary { value, bit_length: data[from] as usize });
        assert(codes@ =~= codes_in(data@, at as int, k + 1));
        k = k + 1;
    }
    codes
}

impl HuffmanTables {
    /// Reads the books from bytes: 32 books for pairs, then the 16 code words
    /// of the first book of quadruples, then the 16 entries of the second.
    ///
    /// A book for pairs is a byte for its size, a byte for its number of
    /// extension bits, and its code words row by row.  There are books only
    /// where the bytes are as many as that takes, neither fewer nor more, and
    /// every book is well formed.
    pub fn from_bytes(data: &[u8]) -> (t: Option<Self>)
        ensures
            t is Some <==> {
                &&& books_fill(data@)
                &&& forall|k: int| 0 <= k < PAIR_TABLES ==> #[trigger] book_fits(data@, k)
                &&& codes_fit(codes_in(data@, book_start(data@, PAIR_TABLES as int), 16))
                &&& values_are_quads(
                    codes_in(data@, book_start(data@, PAIR_TABLES as int) + 16 * CODE_BYTES, 16),
                )
            },
            t matches Some(tables) ==> {
                &&& tables.wf()
                &&& are_books_of(tables.pairs(), data@, PAIR_TABLES as int)
                &&& tables.quad_a() == codes_in(data@, book_start(data@, PAIR_TABLES as int), 16)
                &&& tables.quad_b() == codes_in(
                    data@,
                    book_start(data@, PAIR_TABLES as int) + 16 * CODE_BYTES,
                    16,
                )
            },
    {
        let len: usize = data.len();
        let mut pairs: Vec<PairTable> = Vec::new();
        let mut at: usize = 0;
        let mut k: usize = 0;
        while k < PAIR_TABLES
            invariant
                len == data@.len(),
                k <= PAIR_TABLES,
                at == book_start(data@, k as int),
                at <= len,
                are_books_of(pairs@, data@, k as int),
                forall|j: int| 0 <= j < k ==> #[trigger] book_fits(data@, j),
                forall|j: int| 0 <= j < k ==> (#[trigger] pairs@[j]).wf(),
                forall|j: int| 0 <= j < k ==> #[trigger] book_start(data@, j) + 2 <= len,
            decreases PAIR_TABLES - k,
        {
            proof {
                lemma_book_start_grows(data@, k as int, PAIR_TABLES as int);
                lemma_book_start_grows(data@, k as int + 1, PAIR_TABLES as int);
            }
            if len - at < 2 {
                return None;
            }
            let size: usize = data[at] as usize;
            let linbits: usize = data[at + 1] as usize;
            if size > MAX_TABLE_SIZE || linbits > MAX_LINBITS {
                assert(!book_fits(data@, k as int));
                return None;
            }
            assert(size * size <= 256) by (nonlinear_arith)
                requires
                    size <= 16,
            ;
            let count: usize = size * size;
            if len - at - 2 < CODE_BYTES * count {
                return None;
            }
            let codes = read_codes(data, at + 2, count);
            let book = PairTable { size, linbits, codes };
            if !book.is_wf() {
                assert(!book_fits(data@, k as int));
                return None;
            }
            let ghost before = pairs@;
            pairs.push(book);
            assert forall|j: int| 0 <= j < k + 1 implies {
                let start = book_start(data@, j);
                &&& (#[trigger] pairs@[j]).size == data@[start]
                &&& pairs@[j].linbits == data@[start + 1]
                &&& pairs@[j].codes@ == codes_in(data@, start + 2, data@[start] * data@[start])
            } by {
                if j < k {
                    assert(pairs@[j] == before[j]);
                }
            }
            assert forall|j: int| 0 <= j < k + 1 implies (#[trigger] pairs@[j]).wf() by {
                if j < k {
                    assert(pairs@[j] == before[j]);
                }
            }
            at = at + 2 + CODE_BYTES * count;
            k = k + 1;
        }
        if len - at != 32 * CODE_BYTES {
            return None;
        }
        let quad_a = read_codes(data, at, 16);
        let quad_b = read_codes(data, at + 16 * CODE_BYTES, 16);
        if !all_codes_fit(&quad_a) || !all_values_are_quads(&quad_b) {
            return None;
        }
        Some(Self { pairs, quad_a, quad_b })
    }
}

} // verus!
