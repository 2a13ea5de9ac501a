use vstd::arithmetic::div_mod::{
    lemma_div_by_multiple, lemma_div_denominator, lemma_fundamental_div_mod,
    lemma_fundamental_div_mod_converse, lemma_mod_multiples_basic, lemma_multiply_divide_lt,
};
use vstd::arithmetic::mul::{
    lemma_mul_inequality, lemma_mul_is_commutative, lemma_mul_is_distributive_add_other_way,
    lemma_mul_nonnegative,
};
use vstd::prelude::*;
use vstd::slice::slice_subrange;

use crate::controller::CellType;
use crate::errors::MemoryError;

verus! {

/// Value of a bit sequence read most-significant-bit first.
pub open spec fn bits_to_int(s: Seq<bool>) -> nat
    decreases s.len(),
{
    if s.len() == 0 {
        0
    } else {
        2 * bits_to_int(s.drop_last()) + (if s.last() {
            1nat
        } else {
            0nat
        })
    }
}

/// The `d` binary digits of `v`, most-significant-bit first, zero-padded
/// on the left.
pub open spec fn int_to_bits(v: nat, d: nat) -> Seq<bool>
    decreases d,
{
    if d == 0 {
        Seq::empty()
    } else {
        int_to_bits(v / 2, (d - 1) as nat).push(v % 2 == 1)
    }
}

/// Powers of two.
pub open spec fn p2(n: nat) -> nat
    decreases n,
{
    if n == 0 {
        1
    } else {
        2 * p2((n - 1) as nat)
    }
}

/// The width of one section of the level range [0, 255]: the range is
/// split into one section per bit pattern, so `2^multiplier` sections.
/// Each multiplier gives `255 / 2^multiplier + 1` levels per section, and
/// the sections tile [0, 255] exactly.
pub open spec fn section_width(cell_type: CellType) -> int {
    match cell_type {
        CellType::Single => 128,
        CellType::Double => 64,
        CellType::Triple => 32,
        CellType::Quadro => 16,
        CellType::Penta => 8,
    }
}

/// How many sections the level range is split into: `2^multiplier`.
pub open spec fn section_count(cell_type: CellType) -> int {
    match cell_type {
        CellType::Single => 2,
        CellType::Double => 4,
        CellType::Triple => 8,
        CellType::Quadro => 16,
        CellType::Penta => 32,
    }
}

/// The level a cell is driven to for section `s`: the integer midpoint of
/// the section.
pub open spec fn level_for_section(s: int, cell_type: CellType) -> int {
    s * section_width(cell_type) + (section_width(cell_type) - 1) / 2
}

/// The section a stored level falls in.
pub open spec fn section_of_level(level: int, cell_type: CellType) -> int {
    level / section_width(cell_type)
}

/// Chunk `i` of the bit sequence: the `multiplier` consecutive bits that
/// one cell carries.
pub open spec fn chunk_of(bits: Seq<bool>, cell_type: CellType, i: int) -> Seq<bool> {
    bits.subrange(i * cell_type.multiplier_spec(), (i + 1) * cell_type.multiplier_spec())
}

/// The whole encoding: one level per chunk of `multiplier` bits.
pub open spec fn encode_spec(bits: Seq<bool>, cell_type: CellType) -> Seq<u8> {
    Seq::new(
        (bits.len() / cell_type.multiplier_spec() as nat) as nat,
        |i: int| level_for_section(bits_to_int(chunk_of(bits, cell_type, i)) as int, cell_type) as u8,
    )
}

/// The whole decoding: each level is mapped back to the bit pattern of
/// the section it falls in, in page order.
pub open spec fn decode_spec(cells: Seq<u8>, cell_type: CellType) -> Seq<bool>
    decreases cells.len(),
{
    if cells.len() == 0 {
        Seq::empty()
    } else {
        decode_spec(cells.drop_last(), cell_type) + int_to_bits(
            section_of_level(cells.last() as int, cell_type) as nat,
            cell_type.multiplier_spec() as nat,
        )
    }
}

/// Powers of two are positive.
pub proof fn lemma_p2_pos(n: nat)
    ensures
        p2(n) >= 1,
    decreases n,
{
    if n > 0 {
        lemma_p2_pos((n - 1) as nat);
    }
}

/// The small powers of two, unfolded once and for all.
pub proof fn lemma_p2_values()
    ensures
        p2(0) == 1,
        p2(1) == 2,
        p2(2) == 4,
        p2(3) == 8,
        p2(4) == 16,
        p2(5) == 32,
        p2(6) == 64,
        p2(7) == 128,
        p2(8) == 256,
{
    reveal_with_fuel(p2, 9);
}

/// The number of sections is two to the number of bits per cell, and the
/// sections tile the whole level range: count times width is 256.
pub proof fn lemma_section_geometry(cell_type: CellType)
    ensures
        section_count(cell_type) == p2(cell_type.multiplier_spec() as nat),
        section_count(cell_type) * section_width(cell_type) == 256,
        2 <= section_count(cell_type) <= 32,
        8 <= section_width(cell_type) <= 128,
{
    lemma_p2_values();
}

/// A bit sequence of length `n` denotes a value below `2^n`.
pub proof fn lemma_bits_to_int_bound(s: Seq<bool>)
    ensures
        bits_to_int(s) < p2(s.len()),
    decreases s.len(),
{
    if s.len() > 0 {
        lemma_bits_to_int_bound(s.drop_last());
    }
}

/// `int_to_bits` always yields exactly `d` bits.
pub proof fn lemma_int_to_bits_len(v: nat, d: nat)
    ensures
        int_to_bits(v, d).len() == d,
    decreases d,
{
    if d > 0 {
        lemma_int_to_bits_len(v / 2, (d - 1) as nat);
    }
}

/// Expanding a value to bits and reading the bits back returns the value,
/// for any value that fits the width.
pub proof fn lemma_bits_of_int_roundtrip(v: nat, d: nat)
    requires
        v < p2(d),
    ensures
        bits_to_int(int_to_bits(v, d)) == v,
    decreases d,
{
    if d == 0 {
    } else {
        let s = int_to_bits(v, d);
        lemma_int_to_bits_len(v / 2, (d - 1) as nat);
        assert(s.drop_last() =~= int_to_bits(v / 2, (d - 1) as nat));
        lemma_bits_of_int_roundtrip(v / 2, (d - 1) as nat);
    }
}

/// Reading a bit sequence as a value and expanding it again returns the
/// same sequence.
pub proof fn lemma_int_of_bits_roundtrip(s: Seq<bool>)
    ensures
        int_to_bits(bits_to_int(s), s.len()) == s,
    decreases s.len(),
{
    if s.len() == 0 {
        assert(int_to_bits(bits_to_int(s), s.len()) =~= s);
    } else {
        let v = bits_to_int(s);
        let h = bits_to_int(s.drop_last());
        assert(v == 2 * h + (if s.last() {
            1nat
        } else {
            0nat
        }));
        assert(v / 2 == h) by {
            if s.last() {
                assert(v == 2 * h + 1);
            } else {
                assert(v == 2 * h);
            }
        }
        assert(v % 2 == 1 <==> s.last());
        lemma_int_of_bits_roundtrip(s.drop_last());
        assert(int_to_bits(v, s.len()) =~= s);
    }
}

/// Bit `i` of the expansion, counted from the most significant end, is
/// digit `d - 1 - i` of the value.
pub proof fn lemma_int_to_bits_index(v: nat, d: nat, i: int)
    requires
        0 <= i < d,
    ensures
        int_to_bits(v, d)[i] == ((v / p2((d - 1 - i) as nat)) % 2 == 1),
    decreases d,
{
    lemma_int_to_bits_len(v / 2, (d - 1) as nat);
    if i == d - 1 {
        assert(p2(0) == 1);
        assert(v / 1 == v) by {
            lemma_div_by_multiple(v as int, 1);
        }
    } else {
        lemma_int_to_bits_index(v / 2, (d - 1) as nat, i);
        let k = (d - 2 - i) as nat;
        assert((v / 2) / p2(k) == v / (2 * p2(k))) by {
            lemma_p2_pos(k);
            lemma_div_denominator(v as int, 2, p2(k) as int);
        }
        assert(2 * p2(k) == p2((k + 1) as nat));
    }
}

/// The midpoint level of a section lies inside that section, and within
/// the level range: decoding recovers exactly the section that was
/// encoded.
pub proof fn lemma_level_in_own_section(s: int, cell_type: CellType)
    requires
        0 <= s < section_count(cell_type),
    ensures
        0 <= level_for_section(s, cell_type) <= 255,
        section_of_level(level_for_section(s, cell_type), cell_type) == s,
{
    let w = section_width(cell_type);
    let mid = (w - 1) / 2;
    let level = level_for_section(s, cell_type);
    lemma_section_geometry(cell_type);
    assert(s * w <= (section_count(cell_type) - 1) * w) by {
        lemma_mul_inequality(s, section_count(cell_type) - 1, w);
    }
    assert((section_count(cell_type) - 1) * w == 256 - w) by {
        broadcast use vstd::arithmetic::mul::group_mul_is_commutative_and_distributive;

    }
    assert(s * w >= 0) by {
        vstd::arithmetic::mul::lemma_mul_nonnegative(s, w);
    }
    lemma_fundamental_div_mod_converse(level, w, s, mid);
}

/// Decoding is robust to in-section drift: whenever each stored level
/// still falls in the section its chunk of bits was encoded to, decoding
/// returns exactly the original bit sequence. The levels need not be the
/// exact midpoints the encoder produced.
pub proof fn lemma_decode_matches(bits: Seq<bool>, levels: Seq<u8>, cell_type: CellType)
    requires
        bits.len() == levels.len() * cell_type.multiplier_spec(),
        forall|i: int|
            0 <= i < levels.len() ==> section_of_level(#[trigger] levels[i] as int, cell_type)
                == bits_to_int(chunk_of(bits, cell_type, i)),
    ensures
        decode_spec(levels, cell_type) == bits,
    decreases levels.len(),
{
    let m = cell_type.multiplier_spec() as int;
    let n = levels.len() as int;
    if n == 0 {
        assert(decode_spec(levels, cell_type) =~= bits);
    } else {
        assert((n - 1) * m == n * m - m) by {
            vstd::arithmetic::mul::lemma_mul_is_distributive_sub_other_way(m, n, 1);
        }
        let prefix = bits.subrange(0, (n - 1) * m);
        assert((n - 1) * m >= 0) by {
            vstd::arithmetic::mul::lemma_mul_nonnegative(n - 1, m);
        }
        assert forall|i: int| 0 <= i < n - 1 implies section_of_level(
            #[trigger] levels.drop_last()[i] as int,
            cell_type,
        ) == bits_to_int(chunk_of(prefix, cell_type, i)) by {
            assert(chunk_of(prefix, cell_type, i) =~= chunk_of(bits, cell_type, i)) by {
                lemma_mul_inequality(i + 1, n - 1, m);
                vstd::arithmetic::mul::lemma_mul_nonnegative(i, m);
                assert((i + 1) * m == i * m + m) by {
                    vstd::arithmetic::mul::lemma_mul_is_distributive_add_other_way(m, i, 1);
                }
            }
            assert(levels.drop_last()[i] == levels[i]);
        }
        lemma_decode_matches(prefix, levels.drop_last(), cell_type);
        let last_chunk = chunk_of(bits, cell_type, n - 1);
        assert(last_chunk.len() == m);
        assert(int_to_bits(bits_to_int(last_chunk), m as nat) == last_chunk) by {
            lemma_int_of_bits_roundtrip(last_chunk);
        }
        assert(section_of_level(levels.last() as int, cell_type) == bits_to_int(last_chunk));
        assert(decode_spec(levels, cell_type) =~= bits);
    }
}

/// Round trip: decoding what was encoded returns the original bit
/// sequence, for every density and every bit sequence whose length fills
/// a page exactly.
pub proof fn lemma_round_trip(bits: Seq<bool>, cell_type: CellType, page_size: nat)
    requires
        bits.len() == page_size * cell_type.multiplier_spec(),
    ensures
        encode_spec(bits, cell_type).len() == page_size,
        decode_spec(encode_spec(bits, cell_type), cell_type) == bits,
{
    let m = cell_type.multiplier_spec() as int;
    let levels = encode_spec(bits, cell_type);
    assert(bits.len() / cell_type.multiplier_spec() as nat == page_size) by {
        lemma_div_by_multiple(page_size as int, m);
    }
    lemma_section_geometry(cell_type);
    assert forall|i: int| 0 <= i < levels.len() implies section_of_level(
        #[trigger] levels[i] as int,
        cell_type,
    ) == bits_to_int(chunk_of(bits, cell_type, i)) by {
        let chunk = chunk_of(bits, cell_type, i);
        assert(chunk.len() == m) by {
            lemma_mul_inequality(i + 1, page_size as int, m);
            vstd::arithmetic::mul::lemma_mul_nonnegative(i, m);
            vstd::arithmetic::mul::lemma_mul_is_distributive_add_other_way(m, i, 1);
        }
        let s = bits_to_int(chunk);
        assert(s < section_count(cell_type)) by {
            lemma_bits_to_int_bound(chunk);
        }
        lemma_level_in_own_section(s as int, cell_type);
        assert(levels[i] == level_for_section(s as int, cell_type) as u8);
    }
    lemma_decode_matches(bits, levels, cell_type);
}

/// Decoding yields `multiplier` bits per cell.
pub proof fn lemma_decode_spec_len(cells: Seq<u8>, cell_type: CellType)
    ensures
        decode_spec(cells, cell_type).len() == cells.len() * cell_type.multiplier_spec(),
    decreases cells.len(),
{
    let m = cell_type.multiplier_spec() as int;
    let n = cells.len() as int;
    if n > 0 {
        lemma_decode_spec_len(cells.drop_last(), cell_type);
        lemma_int_to_bits_len(section_of_level(cells.last() as int, cell_type) as nat, m as nat);
        assert((n - 1) * m == n * m - m) by {
            vstd::arithmetic::mul::lemma_mul_is_distributive_sub_other_way(m, n, 1);
        }
    }
}

/// Powers of two grow with the exponent.
pub proof fn lemma_p2_mono(a: nat, b: nat)
    requires
        a <= b,
    ensures
        p2(a) <= p2(b),
    decreases b,
{
    if a < b {
        lemma_p2_mono(a, (b - 1) as nat);
        lemma_p2_pos((b - 1) as nat);
    }
}

/// Stateless codec between logical bit sequences and per-cell analog
/// levels. Any implementation realises exactly the encoding that
/// `encode_spec` and `decode_spec` describe.
pub trait ByteEncoder {
    /// Partition `bits` into `page_size` chunks of `multiplier` bits,
    /// most-significant-bit first, and drive each chunk to the midpoint
    /// level of its section. A bit sequence of any other length is
    /// rejected with `SizeMismatch` and yields no partial result.
    fn encode_bytes_to_page(&self, bits: Vec<bool>, cell_type: CellType, page_size: usize) -> (r:
        Result<Vec<u8>, MemoryError>)
        ensures
            bits@.len() == page_size * cell_type.multiplier_spec() ==> (r matches Ok(levels)
                && levels@ == encode_spec(bits@, cell_type) && levels@.len() == page_size),
            bits@.len() != page_size * cell_type.multiplier_spec() ==> (r matches Err(e) && e
                == MemoryError::SizeMismatch),
    ;

    /// Map each stored level back to the bit pattern of the section it
    /// falls in, in page order. Any level of the section decodes to the
    /// same bits, which is what makes the scheme robust to in-section
    /// drift. A level sequence that does not fill one page exactly is
    /// rejected with `SizeMismatch`.
    fn decode_page_to_bytes(&self, cells: Vec<u8>, cell_type: CellType, page_size: usize) -> (r:
        Result<Vec<bool>, MemoryError>)
        ensures
            cells@.len() == page_size ==> (r matches Ok(bits) && bits@ == decode_spec(
                cells@,
                cell_type,
            ) && bits@.len() == page_size * cell_type.multiplier_spec()),
            cells@.len() != page_size ==> (r matches Err(e) && e == MemoryError::SizeMismatch),
    ;
}

/// The codec of this crate.
pub struct ByteEncoderImpl {}

impl ByteEncoderImpl {
    pub fn new() -> ByteEncoderImpl {
        ByteEncoderImpl {  }
    }

    /// Value of a bit slice read most-significant-bit first.
    pub fn bit_slice_to_int(slice: &[bool]) -> (r: u8)
        requires
            slice@.len() <= 8,
        ensures
            r == bits_to_int(slice@),
    {
        let n = slice.len();
        let mut res: u8 = 0;
        let mut i: usize = 0;
        while i < n
            invariant
                i <= n,
                n == slice@.len() <= 8,
                res == bits_to_int(slice@.take(i as int)),
                res < p2(i as nat),
            decreases n - i,
        {
            proof {
                lemma_p2_mono(i as nat, 7);
                lemma_p2_values();
                assert(slice@.take(i + 1).drop_last() =~= slice@.take(i as int));
                assert(slice@.take(i + 1).last() == slice@[i as int]);
            }
            res = 2 * res + (if slice[i] {
                1
            } else {
                0
            });
            i += 1;
        }
        proof {
            assert(slice@.take(n as int) =~= slice@);
        }
        res
    }

    /// The `dimension` binary digits of `val`, most-significant-bit
    /// first, zero-padded on the left. `val` must fit the width.
    pub fn int_to_bit_slice(val: u8, dimension: usize) -> (r: Vec<bool>)
        requires
            (val as nat) < p2(dimension as nat),
        ensures
            r@ == int_to_bits(val as nat, dimension as nat),
            r@.len() == dimension,
    {
        proof {
            assert(p2(0) == 1);
            assert((val as int) * 1 == val as int);
            lemma_div_by_multiple(val as int, 1);
        }
        let mut tmp: Vec<bool> = Vec::new();
        let mut left: u8 = val;
        let mut k: usize = 0;
        while k < dimension
            invariant
                k <= dimension,
                tmp@.len() == k,
                left as nat == (val as nat) / p2(k as nat),
                forall|j: int|
                    0 <= j < k ==> tmp@[j] == (((val as nat) / p2(j as nat)) % 2 == 1),
            decreases dimension - k,
        {
            proof {
                lemma_p2_pos(k as nat);
                lemma_div_denominator(val as int, p2(k as nat) as int, 2);
            }
            tmp.push(left % 2 == 1);
            left = left / 2;
            k += 1;
        }
        let mut res: Vec<bool> = Vec::new();
        let mut j: usize = dimension;
        while j > 0
            invariant
                j <= dimension,
                tmp@.len() == dimension,
                forall|t: int|
                    0 <= t < dimension ==> tmp@[t] == (((val as nat) / p2(t as nat)) % 2 == 1),
                res@.len() == dimension - j,
                forall|i: int|
                    0 <= i < res@.len() ==> res@[i] == (((val as nat) / p2(
                        (dimension - 1 - i) as nat,
                    )) % 2 == 1),
            decreases j,
        {
            j -= 1;
            res.push(tmp[j]);
        }
        proof {
            lemma_int_to_bits_len(val as nat, dimension as nat);
            assert forall|i: int| 0 <= i < dimension implies int_to_bits(
                val as nat,
                dimension as nat,
            )[i] == res@[i] by {
                lemma_int_to_bits_index(val as nat, dimension as nat, i);
            }
            assert(res@ =~= int_to_bits(val as nat, dimension as nat));
        }
        res
    }

    /// The section width for a density, as executable code: one section
    /// per bit pattern, `255 / 2^multiplier + 1` levels each.
    fn width_of(cell_type: CellType) -> (w: u8)
        ensures
            w == section_width(cell_type),
    {
        match cell_type {
            CellType::Single => 128,
            CellType::Double => 64,
            CellType::Triple => 32,
            CellType::Quadro => 16,
            CellType::Penta => 8,
        }
    }
}

impl ByteEncoder for ByteEncoderImpl {
    fn encode_bytes_to_page(&self, bits: Vec<bool>, cell_type: CellType, page_size: usize) -> (r:
        Result<Vec<u8>, MemoryError>) {
        let ghost mult = cell_type.multiplier_spec() as int;
        let m = cell_type.multiplier();
        let m_us = m as usize;
        if !(bits.len() % m_us == 0 && bits.len() / m_us == page_size) {
            proof {
                if bits@.len() == page_size * mult {
                    lemma_div_by_multiple(page_size as int, mult);
                    lemma_mod_multiples_basic(page_size as int, mult);
                }
            }
            return Err(MemoryError::SizeMismatch);
        }
        proof {
            lemma_fundamental_div_mod(bits@.len() as int, mult);
            lemma_mul_is_commutative(page_size as int, mult);
        }
        let width = ByteEncoderImpl::width_of(cell_type);
        let len = bits.len();
        let mut levels: Vec<u8> = Vec::new();
        let mut i: usize = 0;
        let mut start: usize = 0;
        while i < page_size
            invariant
                bits@.len() == page_size * cell_type.multiplier_spec(),
                len == bits@.len(),
                m == cell_type.multiplier_spec(),
                1 <= m <= 5,
                m_us == m,
                width == section_width(cell_type),
                i <= page_size,
                start == i * m_us,
                levels@.len() == i,
                encode_spec(bits@, cell_type).len() == page_size,
                forall|j: int|
                    0 <= j < i ==> levels@[j] == encode_spec(bits@, cell_type)[j],
            decreases page_size - i,
        {
            proof {
                lemma_mul_inequality(i + 1, page_size as int, m as int);
                lemma_mul_nonnegative(i as int, m as int);
                lemma_mul_is_distributive_add_other_way(m as int, i as int, 1);
            }
            let end = start + m_us;
            let chunk = slice_subrange(bits.as_slice(), start, end);
            let s = ByteEncoderImpl::bit_slice_to_int(chunk);
            proof {
                let c = chunk_of(bits@, cell_type, i as int);
                assert(chunk@ =~= c);
                lemma_bits_to_int_bound(c);
                lemma_section_geometry(cell_type);
                lemma_level_in_own_section(s as int, cell_type);
            }
            let level = s * width + (width - 1) / 2;
            levels.push(level);
            start = end;
            i += 1;
        }
        proof {
            assert(levels@ =~= encode_spec(bits@, cell_type));
        }
        Ok(levels)
    }

    fn decode_page_to_bytes(&self, cells: Vec<u8>, cell_type: CellType, page_size: usize) -> (r:
        Result<Vec<bool>, MemoryError>) {
        if cells.len() != page_size {
            return Err(MemoryError::SizeMismatch);
        }
        let m = cell_type.multiplier();
        let width = ByteEncoderImpl::width_of(cell_type);
        let mut res: Vec<bool> = Vec::new();
        let mut i: usize = 0;
        while i < cells.len()
            invariant
                m == cell_type.multiplier_spec(),
                1 <= m <= 5,
                width == section_width(cell_type),
                i <= cells@.len(),
                res@ == decode_spec(cells@.take(i as int), cell_type),
            decreases cells@.len() - i,
        {
            let cell = cells[i];
            proof {
                lemma_section_geometry(cell_type);
                lemma_multiply_divide_lt(
                    cell as int,
                    section_width(cell_type),
                    section_count(cell_type),
                );
                lemma_mul_is_commutative(section_width(cell_type), section_count(cell_type));
            }
            let s = cell / width;
            let mut chunk = ByteEncoderImpl::int_to_bit_slice(s, m as usize);
            res.append(&mut chunk);
            proof {
                assert(cells@.take(i + 1).drop_last() =~= cells@.take(i as int));
                assert(cells@.take(i + 1).last() == cells@[i as int]);
            }
            i += 1;
        }
        proof {
            assert(cells@.take(cells@.len() as int) =~= cells@);
            lemma_decode_spec_len(cells@, cell_type);
        }
        Ok(res)
    }
}

} // verus!
