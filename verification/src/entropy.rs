use vstd::prelude::*;
use vstd::arithmetic::power2::{pow2, lemma2_to64, lemma_pow2_strictly_increases, lemma_pow2_pos};
use crate::huffcode::{HuffCode, category_spec, dc_code_spec, ac_code_spec, lemma_category_bounds};


verus! {

/// The bits that follow the code word of a coefficient of category `cat`: the
/// value itself when positive, else the value plus `2^cat - 1`.
pub open spec fn value_bits(v: int, cat: nat) -> int {
    if v > 0 {
        v
    } else {
        v + pow2(cat) - 1
    }
}

/// The `len` low bits of `code`, most significant first.
pub open spec fn code_bits(code: int, len: nat) -> Seq<bool> {
    Seq::new(len, |j: int| (code / (pow2((len - 1 - j) as nat) as int)) % 2 == 1)
}

/// The Huffman code word of an entry: the DC table for a DC entry (run 17),
/// else the AC table for its run and category.
pub open spec fn entry_code(e: (usize, i16)) -> Option<HuffCode> {
    let cat = category_spec(e.1 as int);
    if e.0 == 17 {
        dc_code_spec(cat as u8)
    } else {
        ac_code_spec(e.0 as u8, cat as u8)
    }
}

/// An entry that the tables can code: its value is not `i16::MIN` and its
/// category (and run) have a code.
pub open spec fn encodable(e: (usize, i16)) -> bool {
    &&& e.1 != i16::MIN
    &&& category_spec(e.1 as int) <= 11
    &&& entry_code(e) is Some
}

/// A value coded with the code word `h`, as a number and its length in bits:
/// the code word followed by the value bits.
pub open spec fn coded(h: HuffCode, v: int) -> (int, nat) {
    let cat = category_spec(v);
    (h.code * pow2(cat) + value_bits(v, cat), (h.len + cat) as nat)
}

/// The coded symbol of an entry as a number and its length in bits.
pub open spec fn symbol(e: (usize, i16)) -> (int, nat) {
    coded(entry_code(e)->0, e.1 as int)
}

/// The bits of the coded symbol of an entry.
pub open spec fn entry_bits(e: (usize, i16)) -> Seq<bool> {
    code_bits(symbol(e).0, symbol(e).1)
}

/// The bits of the entries `a..b` of `rle`, one after the other.
pub open spec fn entries_bits(rle: Seq<(usize, i16)>, a: int, b: int) -> Seq<bool>
    decreases b - a,
{
    if b <= a {
        seq![]
    } else {
        entries_bits(rle, a, b - 1) + entry_bits(rle[b - 1])
    }
}

/// Value bits fit in `cat` bits, and tell the value back.
pub proof fn lemma_value_bits(v: int, cat: nat)
    requires
        cat == category_spec(v),
    ensures
        0 <= value_bits(v, cat) < pow2(cat),
        v > 0 ==> value_bits(v, cat) >= pow2((cat - 1) as nat),
        v < 0 ==> value_bits(v, cat) < pow2((cat - 1) as nat),
        v == 0 ==> cat == 0 && value_bits(v, cat) == 0,
{
    let a = if v < 0 { -v } else { v };
    lemma_category_bounds(a);
    assert(category_spec(a) == cat);
    if v == 0 {
        lemma2_to64();
    } else {
        vstd::arithmetic::power2::lemma_pow2_unfold(cat);
    }
}

/// A code word shifted past `s` value bits, or-ed with the value bits, is
/// their sum, and fits below 2^31.
pub proof fn lemma_symbol_arith(c: u32, v: u32, s: usize)
    by (bit_vector)
    requires
        s <= 15,
        c < 0x10000u32,
        v < (1u32 << (s as u32)),
    ensures
        (c << s) | v == c * (1u32 << (s as u32)) + v,
        c * (1u32 << (s as u32)) + v < 0x8000_0000u32,
{
}

/// `1i16 << c` for `c < 15` is the same as the `u16` shift, and positive.
pub proof fn lemma_shift_i16(c: usize)
    by (bit_vector)
    requires
        c < 15,
    ensures
        (1i16 << c) == ((1u16 << c) as i16),
        (1u16 << c) < 0x8000u16,
        (1u16 << c) == (1u16 << (c as u16)),
{
}

} // verus!
verus! {

/// Where a group of `bc` blocks that starts at `j` ends: at the DC entry
/// after the `bc`-th one (`dc` DC entries having been read already), or at the
/// end of `rle`.
pub open spec fn group_end(rle: Seq<(usize, i16)>, j: int, dc: int, bc: int) -> int
    decreases rle.len() - j,
{
    if j >= rle.len() || j < 0 {
        rle.len() as int
    } else if dc == bc && rle[j].0 == 17 {
        j
    } else {
        group_end(rle, j + 1, if rle[j].0 == 17 { dc + 1 } else { dc }, bc)
    }
}

/// A group ends at or after where it starts, and within the entries.
pub proof fn lemma_group_end_bounds(rle: Seq<(usize, i16)>, j: int, dc: int, bc: int)
    requires
        0 <= j <= rle.len(),
    ensures
        j <= group_end(rle, j, dc, bc) <= rle.len(),
    decreases rle.len() - j,
{
    if j < rle.len() && !(dc == bc && rle[j].0 == 17) {
        lemma_group_end_bounds(rle, j + 1, if rle[j].0 == 17 { dc + 1 } else { dc }, bc);
    }
}

/// The number of bytes that hold `bits`.
pub open spec fn nbytes(bits: Seq<bool>) -> nat {
    ((bits.len() + 7) / 8) as nat
}

/// `bits` padded with zeros to a whole number of bytes.
pub open spec fn padded(bits: Seq<bool>) -> Seq<bool> {
    bits + Seq::new((8 * nbytes(bits) - bits.len()) as nat, |i: int| false)
}

/// Bytes whose bits are `bits` followed by zeros fill exactly `padded(bits)`.
pub proof fn lemma_padded_bytes(bytes: Seq<u8>, bits: Seq<bool>)
    requires
        bits.len() <= 8 * bytes.len() < bits.len() + 8,
        bits == crate::bit_writer::bytes_bits(bytes, bits.len()),
        forall|i: int|
            bits.len() <= i < 8 * bytes.len() ==> !#[trigger] crate::bit_writer::bit8(bytes[i / 8], i % 8),
    ensures
        bytes.len() == nbytes(bits),
        crate::bit_writer::bytes_bits(bytes, 8 * bytes.len()) == padded(bits),
{
    assert(crate::bit_writer::bytes_bits(bytes, 8 * bytes.len()) =~= padded(bits));
}

/// Bit `s` of `w` is its `s`-th binary digit.
proof fn lemma_bit_digit(w: u64, s: u64)
    requires
        s < 64,
    ensures
        (((w >> s) & 1u64) == 1u64) == ((w as int / (pow2(s as nat) as int)) % 2 == 1),
{
    vstd::bits::lemma_u64_shr_is_div(w, s);
    assert(((w >> s) & 1u64) == (w >> s) % 2) by (bit_vector);
}

/// The bits that the writer appends for a symbol are the symbol's bits.
pub proof fn lemma_appended_is_code_bits(code: u64, len: nat, c: nat)
    requires
        1 <= len <= 56,
        c < 8,
    ensures
        crate::bit_writer::appended_bits(code, len, c) == code_bits(code as int, len),
{
    assert forall|j: int| 0 <= j < len implies #[trigger] crate::bit_writer::appended_bits(code, len, c)[j]
        == code_bits(code as int, len)[j] by {
        lemma_bit_digit(code, (len - 1 - j) as u64);
    }
    assert(crate::bit_writer::appended_bits(code, len, c) =~= code_bits(code as int, len));
}

} // verus!
