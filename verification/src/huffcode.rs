use vstd::prelude::*;
use std::collections::HashMap;
use vstd::arithmetic::power2::{pow2, lemma_pow2_unfold, lemma2_to64, lemma_pow2_strictly_increases};

verus! {

broadcast use vstd::std_specs::hash::group_hash_axioms;

/// A Huffman code word: the `len` low bits of `code`, most significant first.
#[derive(Debug, Clone, Copy, PartialEq, Eq, Structural)]
pub struct HuffCode {
    pub code: u32,
    pub len: u8,
}

impl HuffCode {
    /// A code word of `len` bits with the value `code`.
    pub fn new(code: u32, len: u8) -> (r: Self)
        ensures
            r == (HuffCode { code, len }),
    {
        Self { code, len }
    }
}

/// The JPEG category of a coefficient: the number of bits of `|x|` (0 for 0).
pub open spec fn category_spec(x: int) -> nat
    decreases (if x < 0 { -x } else { x }),
{
    if x == 0 {
        0
    } else {
        let a = if x < 0 { -x } else { x };
        1 + category_spec(a / 2)
    }
}

/// The code of the JPEG standard's DC luminance table for a category.
pub open spec fn dc_code_spec(cat: u8) -> Option<HuffCode> {
    if cat == 0 {
        Some(HuffCode { code: 0b00, len: 2 })
    } else if cat == 1 {
        Some(HuffCode { code: 0b010, len: 3 })
    } else if cat == 2 {
        Some(HuffCode { code: 0b011, len: 3 })
    } else if cat == 3 {
        Some(HuffCode { code: 0b100, len: 3 })
    } else if cat == 4 {
        Some(HuffCode { code: 0b101, len: 3 })
    } else if cat == 5 {
        Some(HuffCode { code: 0b110, len: 3 })
    } else if cat == 6 {
        Some(HuffCode { code: 0b1110, len: 4 })
    } else if cat == 7 {
        Some(HuffCode { code: 0b11110, len: 5 })
    } else if cat == 8 {
        Some(HuffCode { code: 0b111110, len: 6 })
    } else if cat == 9 {
        Some(HuffCode { code: 0b1111110, len: 7 })
    } else if cat == 10 {
        Some(HuffCode { code: 0b11111110, len: 8 })
    } else if cat == 11 {
        Some(HuffCode { code: 0b111111110, len: 9 })
    } else {
        None
    }
}

/// The code of the JPEG standard's AC luminance table for a run of zeros and a
/// category; `(0, 0)` is the end of block, `(15, 0)` sixteen zeros.
pub open spec fn ac_code_spec(run: u8, cat: u8) -> Option<HuffCode> {
    if run == 0 {
        if cat == 0 {
            Some(HuffCode { code: 0b1010, len: 4 })
        } else if cat == 1 {
            Some(HuffCode { code: 0b00, len: 2 })
        } else if cat == 2 {
            Some(HuffCode { code: 0b01, len: 2 })
        } else if cat == 3 {
            Some(HuffCode { code: 0b100, len: 3 })
        } else if cat == 4 {
            Some(HuffCode { code: 0b1011, len: 4 })
        } else if cat == 5 {
            Some(HuffCode { code: 0b11010, len: 5 })
        } else if cat == 6 {
            Some(HuffCode { code: 0b1111000, len: 7 })
        } else if cat == 7 {
            Some(HuffCode { code: 0b11111000, len: 8 })
        } else if cat == 8 {
            Some(HuffCode { code: 0b1111110110, len: 10 })
        } else if cat == 9 {
            Some(HuffCode { code: 0b1111111110000010, len: 16 })
        } else if cat == 10 {
            Some(HuffCode { code: 0b1111111110000011, len: 16 })
        } else {
            None
        }
    } else if run == 1 {
        if cat == 1 {
            Some(HuffCode { code: 0b1100, len: 4 })
        } else if cat == 2 {
            Some(HuffCode { code: 0b11011, len: 5 })
        } else if cat == 3 {
            Some(HuffCode { code: 0b1111001, len: 7 })
        } else if cat == 4 {
            Some(HuffCode { code: 0b111110110, len: 9 })
        } else if cat == 5 {
            Some(HuffCode { code: 0b11111110110, len: 11 })
        } else if cat == 6 {
            Some(HuffCode { code: 0b1111111110000100, len: 16 })
        } else if cat == 7 {
            Some(HuffCode { code: 0b1111111110000101, len: 16 })
        } else if cat == 8 {
            Some(HuffCode { code: 0b1111111110000110, len: 16 })
        } else if cat == 9 {
            Some(HuffCode { code: 0b1111111110000111, len: 16 })
        } else if cat == 10 {
            Some(HuffCode { code: 0b1111111110001000, len: 16 })
        } else {
            None
        }
    } else if run == 2 {
        if cat == 1 {
            Some(HuffCode { code: 0b11100, len: 5 })
        } else if cat == 2 {
            Some(HuffCode { code: 0b11111001, len: 8 })
        } else if cat == 3 {
            Some(HuffCode { code: 0b1111110111, len: 10 })
        } else if cat == 4 {
            Some(HuffCode { code: 0b111111110100, len: 12 })
        } else if cat == 5 {
            Some(HuffCode { code: 0b1111111110001001, len: 16 })
        } else if cat == 6 {
            Some(HuffCode { code: 0b1111111110001010, len: 16 })
        } else if cat == 7 {
            Some(HuffCode { code: 0b1111111110001011, len: 16 })
        } else if cat == 8 {
            Some(HuffCode { code: 0b1111111110001100, len: 16 })
        } else if cat == 9 {
            Some(HuffCode { code: 0b1111111110001101, len: 16 })
        } else if cat == 10 {
            Some(HuffCode { code: 0b1111111110001110, len: 16 })
        } else {
            None
        }
    } else if run == 3 {
        if cat == 1 {
            Some(HuffCode { code: 0b111010, len: 6 })
        } else if cat == 2 {
            Some(HuffCode { code: 0b111110111, len: 9 })
        } else if cat == 3 {
            Some(HuffCode { code: 0b111111110101, len: 12 })
        } else if cat == 4 {
            Some(HuffCode { code: 0b1111111110001111, len: 16 })
        } else if cat == 5 {
            Some(HuffCode { code: 0b1111111110010000, len: 16 })
        } else if cat == 6 {
            Some(HuffCode { code: 0b1111111110010001, len: 16 })
        } else if cat == 7 {
            Some(HuffCode { code: 0b1111111110010010, len: 16 })
        } else if cat == 8 {
            Some(HuffCode { code: 0b1111111110010011, len: 16 })
        } else if cat == 9 {
            Some(HuffCode { code: 0b1111111110010100, len: 16 })
        } else if cat == 10 {
            Some(HuffCode { code: 0b1111111110010101, len: 16 })
        } else {
            None
        }
    } else if run == 4 {
        if cat == 1 {
            Some(HuffCode { code: 0b111011, len: 6 })
        } else if cat == 2 {
            Some(HuffCode { code: 0b1111111000, len: 10 })
        } else if cat == 3 {
            Some(HuffCode { code: 0b1111111110010110, len: 16 })
        } else if cat == 4 {
            Some(HuffCode { code: 0b1111111110010111, len: 16 })
        } else if cat == 5 {
            Some(HuffCode { code: 0b1111111110011000, len: 16 })
        } else if cat == 6 {
            Some(HuffCode { code: 0b1111111110011001, len: 16 })
        } else if cat == 7 {
            Some(HuffCode { code: 0b1111111110011010, len: 16 })
        } else if cat == 8 {
            Some(HuffCode { code: 0b1111111110011011, len: 16 })
        } else if cat == 9 {
            Some(HuffCode { code: 0b1111111110011100, len: 16 })
        } else if cat == 10 {
            Some(HuffCode { code: 0b1111111110011101, len: 16 })
        } else {
            None
        }
    } else if run == 5 {
        if cat == 1 {
            Some(HuffCode { code: 0b1111010, len: 7 })
        } else if cat == 2 {
            Some(HuffCode { code: 0b11111110111, len: 11 })
        } else if cat == 3 {
            Some(HuffCode { code: 0b1111111110011110, len: 16 })
        } else if cat == 4 {
            Some(HuffCode { code: 0b1111111110011111, len: 16 })
        } else if cat == 5 {
            Some(HuffCode { code: 0b1111111110100000, len: 16 })
        } else if cat == 6 {
            Some(HuffCode { code: 0b1111111110100001, len: 16 })
        } else if cat == 7 {
            Some(HuffCode { code: 0b1111111110100010, len: 16 })
        } else if cat == 8 {
            Some(HuffCode { code: 0b1111111110100011, len: 16 })
        } else if cat == 9 {
            Some(HuffCode { code: 0b1111111110100100, len: 16 })
        } else if cat == 10 {
            Some(HuffCode { code: 0b1111111110100101, len: 16 })
        } else {
            None
        }
    } else if run == 6 {
        if cat == 1 {
            Some(HuffCode { code: 0b1111011, len: 7 })
        } else if cat == 2 {
            Some(HuffCode { code: 0b111111110110, len: 12 })
        } else if cat == 3 {
            Some(HuffCode { code: 0b1111111110100110, len: 16 })
        } else if cat == 4 {
            Some(HuffCode { code: 0b1111111110100111, len: 16 })
        } else if cat == 5 {
            Some(HuffCode { code: 0b1111111110101000, len: 16 })
        } else if cat == 6 {
            Some(HuffCode { code: 0b1111111110101001, len: 16 })
        } else if cat == 7 {
            Some(HuffCode { code: 0b1111111110101010, len: 16 })
        } else if cat == 8 {
            Some(HuffCode { code: 0b1111111110101011, len: 16 })
        } else if cat == 9 {
            Some(HuffCode { code: 0b1111111110101100, len: 16 })
        } else if cat == 10 {
            Some(HuffCode { code: 0b1111111110101101, len: 16 })
        } else {
            None
        }
    } else if run == 7 {
        if cat == 1 {
            Some(HuffCode { code: 0b11111010, len: 8 })
        } else if cat == 2 {
            Some(HuffCode { code: 0b111111110111, len: 12 })
        } else if cat == 3 {
            Some(HuffCode { code: 0b1111111110101110, len: 16 })
        } else if cat == 4 {
            Some(HuffCode { code: 0b1111111110101111, len: 16 })
        } else if cat == 5 {
            Some(HuffCode { code: 0b1111111110110000, len: 16 })
        } else if cat == 6 {
            Some(HuffCode { code: 0b1111111110110001, len: 16 })
        } else if cat == 7 {
            Some(HuffCode { code: 0b1111111110110010, len: 16 })
        } else if cat == 8 {
            Some(HuffCode { code: 0b1111111110110011, len: 16 })
        } else if cat == 9 {
            Some(HuffCode { code: 0b1111111110110100, len: 16 })
        } else if cat == 10 {
            Some(HuffCode { code: 0b1111111110110101, len: 16 })
        } else {
            None
        }
    } else if run == 8 {
        if cat == 1 {
            Some(HuffCode { code: 0b111111000, len: 9 })
        } else if cat == 2 {
            Some(HuffCode { code: 0b111111111000000, len: 15 })
        } else if cat == 3 {
            Some(HuffCode { code: 0b1111111110110110, len: 16 })
        } else if cat == 4 {
            Some(HuffCode { code: 0b1111111110110111, len: 16 })
        } else if cat == 5 {
            Some(HuffCode { code: 0b1111111110111000, len: 16 })
        } else if cat == 6 {
            Some(HuffCode { code: 0b1111111110111001, len: 16 })
        } else if cat == 7 {
            Some(HuffCode { code: 0b1111111110111010, len: 16 })
        } else if cat == 8 {
            Some(HuffCode { code: 0b1111111110111011, len: 16 })
        } else if cat == 9 {
            Some(HuffCode { code: 0b1111111110111100, len: 16 })
        } else if cat == 10 {
            Some(HuffCode { code: 0b1111111110111101, len: 16 })
        } else {
            None
        }
    } else if run == 9 {
        if cat == 1 {
            Some(HuffCode { code: 0b111111001, len: 9 })
        } else if cat == 2 {
            Some(HuffCode { code: 0b1111111110111110, len: 16 })
        } else if cat == 3 {
            Some(HuffCode { code: 0b1111111110111111, len: 16 })
        } else if cat == 4 {
            Some(HuffCode { code: 0b1111111111000000, len: 16 })
        } else if cat == 5 {
            Some(HuffCode { code: 0b1111111111000001, len: 16 })
        } else if cat == 6 {
            Some(HuffCode { code: 0b1111111111000010, len: 16 })
        } else if cat == 7 {
            Some(HuffCode { code: 0b1111111111000011, len: 16 })
        } else if cat == 8 {
            Some(HuffCode { code: 0b1111111111000100, len: 16 })
        } else if cat == 9 {
            Some(HuffCode { code: 0b1111111111000101, len: 16 })
        } else if cat == 10 {
            Some(HuffCode { code: 0b1111111111000110, len: 16 })
        } else {
            None
        }
    } else if run == 10 {
        if cat == 1 {
            Some(HuffCode { code: 0b111111010, len: 9 })
        } else if cat == 2 {
            Some(HuffCode { code: 0b1111111111000111, len: 16 })
        } else if cat == 3 {
            Some(HuffCode { code: 0b1111111111001000, len: 16 })
        } else if cat == 4 {
            Some(HuffCode { code: 0b1111111111001001, len: 16 })
        } else if cat == 5 {
            Some(HuffCode { code: 0b1111111111001010, len: 16 })
        } else if cat == 6 {
            Some(HuffCode { code: 0b1111111111001011, len: 16 })
        } else if cat == 7 {
            Some(HuffCode { code: 0b1111111111001100, len: 16 })
        } else if cat == 8 {
            Some(HuffCode { code: 0b1111111111001101, len: 16 })
        } else if cat == 9 {
            Some(HuffCode { code: 0b1111111111001110, len: 16 })
        } else if cat == 10 {
            Some(HuffCode { code: 0b1111111111001111, len: 16 })
        } else {
            None
        }
    } else if run == 11 {
        if cat == 1 {
            Some(HuffCode { code: 0b1111111001, len: 10 })
        } else if cat == 2 {
            Some(HuffCode { code: 0b1111111111010000, len: 16 })
        } else if cat == 3 {
            Some(HuffCode { code: 0b1111111111010001, len: 16 })
        } else if cat == 4 {
            Some(HuffCode { code: 0b1111111111010010, len: 16 })
        } else if cat == 5 {
            Some(HuffCode { code: 0b1111111111010011, len: 16 })
        } else if cat == 6 {
            Some(HuffCode { code: 0b1111111111010100, len: 16 })
        } else if cat == 7 {
            Some(HuffCode { code: 0b1111111111010101, len: 16 })
        } else if cat == 8 {
            Some(HuffCode { code: 0b1111111111010110, len: 16 })
        } else if cat == 9 {
            Some(HuffCode { code: 0b1111111111010111, len: 16 })
        } else if cat == 10 {
            Some(HuffCode { code: 0b1111111111011000, len: 16 })
        } else {
            None
        }
    } else if run == 12 {
        if cat == 1 {
            Some(HuffCode { code: 0b1111111010, len: 10 })
        } else if cat == 2 {
            Some(HuffCode { code: 0b1111111111011001, len: 16 })
        } else if cat == 3 {
            Some(HuffCode { code: 0b1111111111011010, len: 16 })
        } else if cat == 4 {
            Some(HuffCode { code: 0b1111111111011011, len: 16 })
        } else if cat == 5 {
            Some(HuffCode { code: 0b1111111111011100, len: 16 })
        } else if cat == 6 {
            Some(HuffCode { code: 0b1111111111011101, len: 16 })
        } else if cat == 7 {
            Some(HuffCode { code: 0b1111111111011110, len: 16 })
        } else if cat == 8 {
            Some(HuffCode { code: 0b1111111111011111, len: 16 })
        } else if cat == 9 {
            Some(HuffCode { code: 0b1111111111100000, len: 16 })
        } else if cat == 10 {
            Some(HuffCode { code: 0b1111111111100001, len: 16 })
        } else {
            None
        }
    } else if run == 13 {
        if cat == 1 {
            Some(HuffCode { code: 0b11111111000, len: 11 })
        } else if cat == 2 {
            Some(HuffCode { code: 0b1111111111100010, len: 16 })
        } else if cat == 3 {
            Some(HuffCode { code: 0b1111111111100011, len: 16 })
        } else if cat == 4 {
            Some(HuffCode { code: 0b1111111111100100, len: 16 })
        } else if cat == 5 {
            Some(HuffCode { code: 0b1111111111100101, len: 16 })
        } else if cat == 6 {
            Some(HuffCode { code: 0b1111111111100110, len: 16 })
        } else if cat == 7 {
            Some(HuffCode { code: 0b1111111111100111, len: 16 })
        } else if cat == 8 {
            Some(HuffCode { code: 0b1111111111101000, len: 16 })
        } else if cat == 9 {
            Some(HuffCode { code: 0b1111111111101001, len: 16 })
        } else if cat == 10 {
            Some(HuffCode { code: 0b1111111111101010, len: 16 })
        } else {
            None
        }
    } else if run == 14 {
        if cat == 1 {
            Some(HuffCode { code: 0b1111111111101011, len: 16 })
        } else if cat == 2 {
            Some(HuffCode { code: 0b1111111111101100, len: 16 })
        } else if cat == 3 {
            Some(HuffCode { code: 0b1111111111101101, len: 16 })
        } else if cat == 4 {
            Some(HuffCode { code: 0b1111111111101110, len: 16 })
        } else if cat == 5 {
            Some(HuffCode { code: 0b1111111111101111, len: 16 })
        } else if cat == 6 {
            Some(HuffCode { code: 0b1111111111110000, len: 16 })
        } else if cat == 7 {
            Some(HuffCode { code: 0b1111111111110001, len: 16 })
        } else if cat == 8 {
            Some(HuffCode { code: 0b1111111111110010, len: 16 })
        } else if cat == 9 {
            Some(HuffCode { code: 0b1111111111110011, len: 16 })
        } else if cat == 10 {
            Some(HuffCode { code: 0b1111111111110100, len: 16 })
        } else {
            None
        }
    } else if run == 15 {
        if cat == 0 {
            Some(HuffCode { code: 0b11111111001, len: 11 })
        } else if cat == 1 {
            Some(HuffCode { code: 0b1111111111110101, len: 16 })
        } else if cat == 2 {
            Some(HuffCode { code: 0b1111111111110110, len: 16 })
        } else if cat == 3 {
            Some(HuffCode { code: 0b1111111111110111, len: 16 })
        } else if cat == 4 {
            Some(HuffCode { code: 0b1111111111111000, len: 16 })
        } else if cat == 5 {
            Some(HuffCode { code: 0b1111111111111001, len: 16 })
        } else if cat == 6 {
            Some(HuffCode { code: 0b1111111111111010, len: 16 })
        } else if cat == 7 {
            Some(HuffCode { code: 0b1111111111111011, len: 16 })
        } else if cat == 8 {
            Some(HuffCode { code: 0b1111111111111100, len: 16 })
        } else if cat == 9 {
            Some(HuffCode { code: 0b1111111111111101, len: 16 })
        } else if cat == 10 {
            Some(HuffCode { code: 0b1111111111111110, len: 16 })
        } else {
            None
        }
    } else {
        None
    }
}

/// The DC table as a map from category to code.
pub open spec fn dc_table_map() -> Map<u8, HuffCode> {
    Map::new(|k: u8| dc_code_spec(k) is Some, |k: u8| dc_code_spec(k)->0)
}

/// The key of an AC table entry: the run of zeros in the high byte, the
/// category in the low byte.
pub open spec fn ac_key(run: u8, cat: u8) -> u16 {
    (run as u16 * 256 + cat as u16) as u16
}

/// The key of the AC table for a run and a category.
pub fn ac_key_of(run: u8, cat: u8) -> (key: u16)
    ensures
        key == ac_key(run, cat),
{
    run as u16 * 256 + cat as u16
}

/// The AC table as a map from `ac_key(run, category)` to code.
pub open spec fn ac_table_map() -> Map<u16, HuffCode> {
    Map::new(
        |k: u16| ac_code_spec((k / 256) as u8, (k % 256) as u8) is Some,
        |k: u16| ac_code_spec((k / 256) as u8, (k % 256) as u8)->0,
    )
}

/// A well-formed table entry: a code word of 1 to 16 bits.
pub open spec fn code_ok(h: HuffCode) -> bool {
    1 <= h.len <= 16 && h.code < pow2(h.len as nat)
}

/// Every code of the DC table has 1 to 16 bits, and the table covers the
/// categories 0 to 11.
pub proof fn lemma_dc_table_entries(cat: u8)
    ensures
        dc_code_spec(cat) is Some <==> cat <= 11,
        dc_code_spec(cat) is Some ==> code_ok(dc_code_spec(cat)->0),
{
    lemma2_to64();
}

/// Every code of the AC table has 1 to 16 bits; runs go up to 15 and
/// categories up to 10.
pub proof fn lemma_ac_table_entries(run: u8, cat: u8)
    ensures
        ac_code_spec(run, cat) is Some ==> run <= 15 && cat <= 10 && code_ok(ac_code_spec(run, cat)->0),
{
    lemma2_to64();
}

/// The code of the DC table for a category.
pub fn dc_code(cat: u8) -> (h: Option<HuffCode>)
    ensures
        h == dc_code_spec(cat),
{
    if cat == 0 {
        Some(HuffCode { code: 0b00, len: 2 })
    } else if cat == 1 {
        Some(HuffCode { code: 0b010, len: 3 })
    } else if cat == 2 {
        Some(HuffCode { code: 0b011, len: 3 })
    } else if cat == 3 {
        Some(HuffCode { code: 0b100, len: 3 })
    } else if cat == 4 {
        Some(HuffCode { code: 0b101, len: 3 })
    } else if cat == 5 {
        Some(HuffCode { code: 0b110, len: 3 })
    } else if cat == 6 {
        Some(HuffCode { code: 0b1110, len: 4 })
    } else if cat == 7 {
        Some(HuffCode { code: 0b11110, len: 5 })
    } else if cat == 8 {
        Some(HuffCode { code: 0b111110, len: 6 })
    } else if cat == 9 {
        Some(HuffCode { code: 0b1111110, len: 7 })
    } else if cat == 10 {
        Some(HuffCode { code: 0b11111110, len: 8 })
    } else if cat == 11 {
        Some(HuffCode { code: 0b111111110, len: 9 })
    } else {
        None
    }
}

/// The code of the AC table for a run of zeros and a category.
pub fn ac_code(run: u8, cat: u8) -> (h: Option<HuffCode>)
    ensures
        h == ac_code_spec(run, cat),
{
    if run == 0 {
        if cat == 0 {
            Some(HuffCode { code: 0b1010, len: 4 })
        } else if cat == 1 {
            Some(HuffCode { code: 0b00, len: 2 })
        } else if cat == 2 {
            Some(HuffCode { code: 0b01, len: 2 })
        } else if cat == 3 {
            Some(HuffCode { code: 0b100, len: 3 })
        } else if cat == 4 {
            Some(HuffCode { code: 0b1011, len: 4 })
        } else if cat == 5 {
            Some(HuffCode { code: 0b11010, len: 5 })
        } else if cat == 6 {
            Some(HuffCode { code: 0b1111000, len: 7 })
        } else if cat == 7 {
            Some(HuffCode { code: 0b11111000, len: 8 })
        } else if cat == 8 {
            Some(HuffCode { code: 0b1111110110, len: 10 })
        } else if cat == 9 {
            Some(HuffCode { code: 0b1111111110000010, len: 16 })
        } else if cat == 10 {
            Some(HuffCode { code: 0b1111111110000011, len: 16 })
        } else {
            None
        }
    } else if run == 1 {
        if cat == 1 {
            Some(HuffCode { code: 0b1100, len: 4 })
        } else if cat == 2 {
            Some(HuffCode { code: 0b11011, len: 5 })
        } else if cat == 3 {
            Some(HuffCode { code: 0b1111001, len: 7 })
        } else if cat == 4 {
            Some(HuffCode { code: 0b111110110, len: 9 })
        } else if cat == 5 {
            Some(HuffCode { code: 0b11111110110, len: 11 })
        } else if cat == 6 {
            Some(HuffCode { code: 0b1111111110000100, len: 16 })
        } else if cat == 7 {
            Some(HuffCode { code: 0b1111111110000101, len: 16 })
        } else if cat == 8 {
            Some(HuffCode { code: 0b1111111110000110, len: 16 })
        } else if cat == 9 {
            Some(HuffCode { code: 0b1111111110000111, len: 16 })
        } else if cat == 10 {
            Some(HuffCode { code: 0b1111111110001000, len: 16 })
        } else {
            None
        }
    } else if run == 2 {
        if cat == 1 {
            Some(HuffCode { code: 0b11100, len: 5 })
        } else if cat == 2 {
            Some(HuffCode { code: 0b11111001, len: 8 })
        } else if cat == 3 {
            Some(HuffCode { code: 0b1111110111, len: 10 })
        } else if cat == 4 {
            Some(HuffCode { code: 0b111111110100, len: 12 })
        } else if cat == 5 {
            Some(HuffCode { code: 0b1111111110001001, len: 16 })
        } else if cat == 6 {
            Some(HuffCode { code: 0b1111111110001010, len: 16 })
        } else if cat == 7 {
            Some(HuffCode { code: 0b1111111110001011, len: 16 })
        } else if cat == 8 {
            Some(HuffCode { code: 0b1111111110001100, len: 16 })
        } else if cat == 9 {
            Some(HuffCode { code: 0b1111111110001101, len: 16 })
        } else if cat == 10 {
            Some(HuffCode { code: 0b1111111110001110, len: 16 })
        } else {
            None
        }
    } else if run == 3 {
        if cat == 1 {
            Some(HuffCode { code: 0b111010, len: 6 })
        } else if cat == 2 {
            Some(HuffCode { code: 0b111110111, len: 9 })
        } else if cat == 3 {
            Some(HuffCode { code: 0b111111110101, len: 12 })
        } else if cat == 4 {
            Some(HuffCode { code: 0b1111111110001111, len: 16 })
        } else if cat == 5 {
            Some(HuffCode { code: 0b1111111110010000, len: 16 })
        } else if cat == 6 {
            Some(HuffCode { code: 0b1111111110010001, len: 16 })
        } else if cat == 7 {
            Some(HuffCode { code: 0b1111111110010010, len: 16 })
        } else if cat == 8 {
            Some(HuffCode { code: 0b1111111110010011, len: 16 })
        } else if cat == 9 {
            Some(HuffCode { code: 0b1111111110010100, len: 16 })
        } else if cat == 10 {
            Some(HuffCode { code: 0b1111111110010101, len: 16 })
        } else {
            None
        }
    } else if run == 4 {
        if cat == 1 {
            Some(HuffCode { code: 0b111011, len: 6 })
        } else if cat == 2 {
            Some(HuffCode { code: 0b1111111000, len: 10 })
        } else if cat == 3 {
            Some(HuffCode { code: 0b1111111110010110, len: 16 })
        } else if cat == 4 {
            Some(HuffCode { code: 0b1111111110010111, len: 16 })
        } else if cat == 5 {
            Some(HuffCode { code: 0b1111111110011000, len: 16 })
        } else if cat == 6 {
            Some(HuffCode { code: 0b1111111110011001, len: 16 })
        } else if cat == 7 {
            Some(HuffCode { code: 0b1111111110011010, len: 16 })
        } else if cat == 8 {
            Some(HuffCode { code: 0b1111111110011011, len: 16 })
        } else if cat == 9 {
            Some(HuffCode { code: 0b1111111110011100, len: 16 })
        } else if cat == 10 {
            Some(HuffCode { code: 0b1111111110011101, len: 16 })
        } else {
            None
        }
    } else if run == 5 {
        if cat == 1 {
            Some(HuffCode { code: 0b1111010, len: 7 })
        } else if cat == 2 {
            Some(HuffCode { code: 0b11111110111, len: 11 })
        } else if cat == 3 {
            Some(HuffCode { code: 0b1111111110011110, len: 16 })
        } else if cat == 4 {
            Some(HuffCode { code: 0b1111111110011111, len: 16 })
        } else if cat == 5 {
            Some(HuffCode { code: 0b1111111110100000, len: 16 })
        } else if cat == 6 {
            Some(HuffCode { code: 0b1111111110100001, len: 16 })
        } else if cat == 7 {
            Some(HuffCode { code: 0b1111111110100010, len: 16 })
        } else if cat == 8 {
            Some(HuffCode { code: 0b1111111110100011, len: 16 })
        } else if cat == 9 {
            Some(HuffCode { code: 0b1111111110100100, len: 16 })
        } else if cat == 10 {
            Some(HuffCode { code: 0b1111111110100101, len: 16 })
        } else {
            None
        }
    } else if run == 6 {
        if cat == 1 {
            Some(HuffCode { code: 0b1111011, len: 7 })
        } else if cat == 2 {
            Some(HuffCode { code: 0b111111110110, len: 12 })
        } else if cat == 3 {
            Some(HuffCode { code: 0b1111111110100110, len: 16 })
        } else if cat == 4 {
            Some(HuffCode { code: 0b1111111110100111, len: 16 })
        } else if cat == 5 {
            Some(HuffCode { code: 0b1111111110101000, len: 16 })
        } else if cat == 6 {
            Some(HuffCode { code: 0b1111111110101001, len: 16 })
        } else if cat == 7 {
            Some(HuffCode { code: 0b1111111110101010, len: 16 })
        } else if cat == 8 {
            Some(HuffCode { code: 0b1111111110101011, len: 16 })
        } else if cat == 9 {
            Some(HuffCode { code: 0b1111111110101100, len: 16 })
        } else if cat == 10 {
            Some(HuffCode { code: 0b1111111110101101, len: 16 })
        } else {
            None
        }
    } else if run == 7 {
        if cat == 1 {
            Some(HuffCode { code: 0b11111010, len: 8 })
        } else if cat == 2 {
            Some(HuffCode { code: 0b111111110111, len: 12 })
        } else if cat == 3 {
            Some(HuffCode { code: 0b1111111110101110, len: 16 })
        } else if cat == 4 {
            Some(HuffCode { code: 0b1111111110101111, len: 16 })
        } else if cat == 5 {
            Some(HuffCode { code: 0b1111111110110000, len: 16 })
        } else if cat == 6 {
            Some(HuffCode { code: 0b1111111110110001, len: 16 })
        } else if cat == 7 {
            Some(HuffCode { code: 0b1111111110110010, len: 16 })
        } else if cat == 8 {
            Some(HuffCode { code: 0b1111111110110011, len: 16 })
        } else if cat == 9 {
            Some(HuffCode { code: 0b1111111110110100, len: 16 })
        } else if cat == 10 {
            Some(HuffCode { code: 0b1111111110110101, len: 16 })
        } else {
            None
        }
    } else if run == 8 {
        if cat == 1 {
            Some(HuffCode { code: 0b111111000, len: 9 })
        } else if cat == 2 {
            Some(HuffCode { code: 0b111111111000000, len: 15 })
        } else if cat == 3 {
            Some(HuffCode { code: 0b1111111110110110, len: 16 })
        } else if cat == 4 {
            Some(HuffCode { code: 0b1111111110110111, len: 16 })
        } else if cat == 5 {
            Some(HuffCode { code: 0b1111111110111000, len: 16 })
        } else if cat == 6 {
            Some(HuffCode { code: 0b1111111110111001, len: 16 })
        } else if cat == 7 {
            Some(HuffCode { code: 0b1111111110111010, len: 16 })
        } else if cat == 8 {
            Some(HuffCode { code: 0b1111111110111011, len: 16 })
        } else if cat == 9 {
            Some(HuffCode { code: 0b1111111110111100, len: 16 })
        } else if cat == 10 {
            Some(HuffCode { code: 0b1111111110111101, len: 16 })
        } else {
            None
        }
    } else if run == 9 {
        if cat == 1 {
            Some(HuffCode { code: 0b111111001, len: 9 })
        } else if cat == 2 {
            Some(HuffCode { code: 0b1111111110111110, len: 16 })
        } else if cat == 3 {
            Some(HuffCode { code: 0b1111111110111111, len: 16 })
        } else if cat == 4 {
            Some(HuffCode { code: 0b1111111111000000, len: 16 })
        } else if cat == 5 {
            Some(HuffCode { code: 0b1111111111000001, len: 16 })
        } else if cat == 6 {
            Some(HuffCode { code: 0b1111111111000010, len: 16 })
        } else if cat == 7 {
            Some(HuffCode { code: 0b1111111111000011, len: 16 })
        } else if cat == 8 {
            Some(HuffCode { code: 0b1111111111000100, len: 16 })
        } else if cat == 9 {
            Some(HuffCode { code: 0b1111111111000101, len: 16 })
        } else if cat == 10 {
            Some(HuffCode { code: 0b1111111111000110, len: 16 })
        } else {
            None
        }
    } else if run == 10 {
        if cat == 1 {
            Some(HuffCode { code: 0b111111010, len: 9 })
        } else if cat == 2 {
            Some(HuffCode { code: 0b1111111111000111, len: 16 })
        } else if cat == 3 {
            Some(HuffCode { code: 0b1111111111001000, len: 16 })
        } else if cat == 4 {
            Some(HuffCode { code: 0b1111111111001001, len: 16 })
        } else if cat == 5 {
            Some(HuffCode { code: 0b1111111111001010, len: 16 })
        } else if cat == 6 {
            Some(HuffCode { code: 0b1111111111001011, len: 16 })
        } else if cat == 7 {
            Some(HuffCode { code: 0b1111111111001100, len: 16 })
        } else if cat == 8 {
            Some(HuffCode { code: 0b1111111111001101, len: 16 })
        } else if cat == 9 {
            Some(HuffCode { code: 0b1111111111001110, len: 16 })
        } else if cat == 10 {
            Some(HuffCode { code: 0b1111111111001111, len: 16 })
        } else {
            None
        }
    } else if run == 11 {
        if cat == 1 {
            Some(HuffCode { code: 0b1111111001, len: 10 })
        } else if cat == 2 {
            Some(HuffCode { code: 0b1111111111010000, len: 16 })
        } else if cat == 3 {
            Some(HuffCode { code: 0b1111111111010001, len: 16 })
        } else if cat == 4 {
            Some(HuffCode { code: 0b1111111111010010, len: 16 })
        } else if cat == 5 {
            Some(HuffCode { code: 0b1111111111010011, len: 16 })
        } else if cat == 6 {
            Some(HuffCode { code: 0b1111111111010100, len: 16 })
        } else if cat == 7 {
            Some(HuffCode { code: 0b1111111111010101, len: 16 })
        } else if cat == 8 {
            Some(HuffCode { code: 0b1111111111010110, len: 16 })
        } else if cat == 9 {
            Some(HuffCode { code: 0b1111111111010111, len: 16 })
        } else if cat == 10 {
            Some(HuffCode { code: 0b1111111111011000, len: 16 })
        } else {
            None
        }
    } else if run == 12 {
        if cat == 1 {
            Some(HuffCode { code: 0b1111111010, len: 10 })
        } else if cat == 2 {
            Some(HuffCode { code: 0b1111111111011001, len: 16 })
        } else if cat == 3 {
            Some(HuffCode { code: 0b1111111111011010, len: 16 })
        } else if cat == 4 {
            Some(HuffCode { code: 0b1111111111011011, len: 16 })
        } else if cat == 5 {
            Some(HuffCode { code: 0b1111111111011100, len: 16 })
        } else if cat == 6 {
            Some(HuffCode { code: 0b1111111111011101, len: 16 })
        } else if cat == 7 {
            Some(HuffCode { code: 0b1111111111011110, len: 16 })
        } else if cat == 8 {
            Some(HuffCode { code: 0b1111111111011111, len: 16 })
        } else if cat == 9 {
            Some(HuffCode { code: 0b1111111111100000, len: 16 })
        } else if cat == 10 {
            Some(HuffCode { code: 0b1111111111100001, len: 16 })
        } else {
            None
        }
    } else if run == 13 {
        if cat == 1 {
            Some(HuffCode { code: 0b11111111000, len: 11 })
        } else if cat == 2 {
            Some(HuffCode { code: 0b1111111111100010, len: 16 })
        } else if cat == 3 {
            Some(HuffCode { code: 0b1111111111100011, len: 16 })
        } else if cat == 4 {
            Some(HuffCode { code: 0b1111111111100100, len: 16 })
        } else if cat == 5 {
            Some(HuffCode { code: 0b1111111111100101, len: 16 })
        } else if cat == 6 {
            Some(HuffCode { code: 0b1111111111100110, len: 16 })
        } else if cat == 7 {
            Some(HuffCode { code: 0b1111111111100111, len: 16 })
        } else if cat == 8 {
            Some(HuffCode { code: 0b1111111111101000, len: 16 })
        } else if cat == 9 {
            Some(HuffCode { code: 0b1111111111101001, len: 16 })
        } else if cat == 10 {
            Some(HuffCode { code: 0b1111111111101010, len: 16 })
        } else {
            None
        }
    } else if run == 14 {
        if cat == 1 {
            Some(HuffCode { code: 0b1111111111101011, len: 16 })
        } else if cat == 2 {
            Some(HuffCode { code: 0b1111111111101100, len: 16 })
        } else if cat == 3 {
            Some(HuffCode { code: 0b1111111111101101, len: 16 })
        } else if cat == 4 {
            Some(HuffCode { code: 0b1111111111101110, len: 16 })
        } else if cat == 5 {
            Some(HuffCode { code: 0b1111111111101111, len: 16 })
        } else if cat == 6 {
            Some(HuffCode { code: 0b1111111111110000, len: 16 })
        } else if cat == 7 {
            Some(HuffCode { code: 0b1111111111110001, len: 16 })
        } else if cat == 8 {
            Some(HuffCode { code: 0b1111111111110010, len: 16 })
        } else if cat == 9 {
            Some(HuffCode { code: 0b1111111111110011, len: 16 })
        } else if cat == 10 {
            Some(HuffCode { code: 0b1111111111110100, len: 16 })
        } else {
            None
        }
    } else if run == 15 {
        if cat == 0 {
            Some(HuffCode { code: 0b11111111001, len: 11 })
        } else if cat == 1 {
            Some(HuffCode { code: 0b1111111111110101, len: 16 })
        } else if cat == 2 {
            Some(HuffCode { code: 0b1111111111110110, len: 16 })
        } else if cat == 3 {
            Some(HuffCode { code: 0b1111111111110111, len: 16 })
        } else if cat == 4 {
            Some(HuffCode { code: 0b1111111111111000, len: 16 })
        } else if cat == 5 {
            Some(HuffCode { code: 0b1111111111111001, len: 16 })
        } else if cat == 6 {
            Some(HuffCode { code: 0b1111111111111010, len: 16 })
        } else if cat == 7 {
            Some(HuffCode { code: 0b1111111111111011, len: 16 })
        } else if cat == 8 {
            Some(HuffCode { code: 0b1111111111111100, len: 16 })
        } else if cat == 9 {
            Some(HuffCode { code: 0b1111111111111101, len: 16 })
        } else if cat == 10 {
            Some(HuffCode { code: 0b1111111111111110, len: 16 })
        } else {
            None
        }
    } else {
        None
    }
}

/// The DC luminance table of the JPEG standard, keyed by category.
pub fn jpeg_dc_luminance_table() -> (map: HashMap<u8, HuffCode>)
    ensures
        map@ == dc_table_map(),
{
    let mut map = HashMap::new();
    let mut cat: u8 = 0;
    while cat < 255
        invariant
            forall|k: u8|
                #![trigger map@.contains_key(k)]
                map@.contains_key(k) <==> (k < cat && dc_code_spec(k) is Some),
            forall|k: u8| map@.contains_key(k) ==> map@[k] == dc_code_spec(k)->0,
        decreases 255 - cat,
    {
        if let Some(h) = dc_code(cat) {
            map.insert(cat, h);
        }
        cat = cat + 1;
    }
    if let Some(h) = dc_code(cat) {
        map.insert(cat, h);
    }
    assert(map@ =~= dc_table_map());
    map
}

/// The AC luminance table of the JPEG standard, keyed by `ac_key(run, category)`.
pub fn jpeg_ac_luminance_table() -> (map: HashMap<u16, HuffCode>)
    ensures
        map@ == ac_table_map(),
{
    let mut map = HashMap::new();
    let mut run: u8 = 0;
    while run < 16
        invariant
            run <= 16,
            forall|k: u16|
                #![trigger map@.contains_key(k)]
                map@.contains_key(k) <==> (k / 256 < run && ac_code_spec(
                    (k / 256) as u8,
                    (k % 256) as u8,
                ) is Some),
            forall|k: u16|
                map@.contains_key(k) ==> map@[k] == ac_code_spec((k / 256) as u8, (k % 256) as u8)->0,
        decreases 16 - run,
    {
        let mut cat: u8 = 0;
        while cat < 11
            invariant
                run < 16,
                cat <= 11,
                forall|k: u16|
                    #![trigger map@.contains_key(k)]
                    map@.contains_key(k) <==> ((k / 256 < run || (k / 256 == run && k % 256
                        < cat)) && ac_code_spec((k / 256) as u8, (k % 256) as u8) is Some),
                forall|k: u16|
                    map@.contains_key(k) ==> map@[k] == ac_code_spec(
                        (k / 256) as u8,
                        (k % 256) as u8,
                    )->0,
            decreases 11 - cat,
        {
            if let Some(h) = ac_code(run, cat) {
                let key = ac_key_of(run, cat);
                assert(key / 256 == run && key % 256 == cat);
                map.insert(key, h);
            }
            cat = cat + 1;
        }
        assert forall|k: u16| #![trigger map@.contains_key(k)] k / 256 == run && k % 256 >= 11 implies ac_code_spec((k / 256) as u8, (k % 256) as u8) is None by {
            lemma_ac_table_entries((k / 256) as u8, (k % 256) as u8);
        }
        run = run + 1;
    }
    assert forall|k: u16| #![trigger map@.contains_key(k)] k / 256 >= 16 implies ac_code_spec((k / 256) as u8, (k % 256) as u8) is None by {
        lemma_ac_table_entries((k / 256) as u8, (k % 256) as u8);
    }
    assert(map@ =~= ac_table_map());
    map
}

/// A nonzero value of category `c` lies in `[2^(c-1), 2^c)`.
pub proof fn lemma_category_bounds(a: int)
    requires
        a >= 0,
    ensures
        a == 0 <==> category_spec(a) == 0,
        a > 0 ==> pow2((category_spec(a) - 1) as nat) <= a < pow2(category_spec(a)),
    decreases a,
{
    if a > 1 {
        let h = a / 2;
        lemma_category_bounds(h);
        let c = category_spec(h);
        assert(category_spec(a) == 1 + c);
        lemma_pow2_unfold(c);
        lemma_pow2_unfold(c + 1);
        assert(a == 2 * h || a == 2 * h + 1);
    } else if a == 1 {
        assert(category_spec(0) == 0);
        lemma2_to64();
    }
}

/// The category of a value and of its negation are the same.
pub proof fn lemma_category_abs(x: int)
    ensures
        category_spec(x) == category_spec(-x),
{
}

/// The number of bits of `|x|`.
pub fn categorie(x: i16) -> (cat: usize)
    requires
        x != i16::MIN,
    ensures
        cat == category_spec(x as int),
        cat <= 15,
{
    let a0: u16 = if x < 0 { (-(x as i32)) as u16 } else { x as u16 };
    let mut a: u16 = a0;
    let mut cat: usize = 0;
    proof {
        lemma_category_bounds(a0 as int);
        if a0 > 0 {
            lemma2_to64();
            if category_spec(a0 as int) > 15 {
                lemma_pow2_strictly_increases(15, (category_spec(a0 as int) - 1) as nat);
            }
        }
    }
    while a > 0
        invariant
            cat + category_spec(a as int) == category_spec(x as int),
            category_spec(x as int) <= 15,
        decreases a,
    {
        a = a / 2;
        cat = cat + 1;
    }
    cat
}


/// The DC table holds the JPEG standard luminance code words: for each
/// category from 0 to 11 the code word and its length below, and no code
/// for a larger category.
pub proof fn lemma_dc_table_standard()
    ensures
        forall|c: u8| #[trigger] dc_table_map().contains_key(c) <==> c <= 11,
        dc_table_map()[0u8] == (HuffCode { code: 0b00, len: 2 }),
        dc_code_spec(0u8) == Some(HuffCode { code: 0b00, len: 2 }),
        dc_table_map()[1u8] == (HuffCode { code: 0b010, len: 3 }),
        dc_code_spec(1u8) == Some(HuffCode { code: 0b010, len: 3 }),
        dc_table_map()[2u8] == (HuffCode { code: 0b011, len: 3 }),
        dc_code_spec(2u8) == Some(HuffCode { code: 0b011, len: 3 }),
        dc_table_map()[3u8] == (HuffCode { code: 0b100, len: 3 }),
        dc_code_spec(3u8) == Some(HuffCode { code: 0b100, len: 3 }),
        dc_table_map()[4u8] == (HuffCode { code: 0b101, len: 3 }),
        dc_code_spec(4u8) == Some(HuffCode { code: 0b101, len: 3 }),
        dc_table_map()[5u8] == (HuffCode { code: 0b110, len: 3 }),
        dc_code_spec(5u8) == Some(HuffCode { code: 0b110, len: 3 }),
        dc_table_map()[6u8] == (HuffCode { code: 0b1110, len: 4 }),
        dc_code_spec(6u8) == Some(HuffCode { code: 0b1110, len: 4 }),
        dc_table_map()[7u8] == (HuffCode { code: 0b11110, len: 5 }),
        dc_code_spec(7u8) == Some(HuffCode { code: 0b11110, len: 5 }),
        dc_table_map()[8u8] == (HuffCode { code: 0b111110, len: 6 }),
        dc_code_spec(8u8) == Some(HuffCode { code: 0b111110, len: 6 }),
        dc_table_map()[9u8] == (HuffCode { code: 0b1111110, len: 7 }),
        dc_code_spec(9u8) == Some(HuffCode { code: 0b1111110, len: 7 }),
        dc_table_map()[10u8] == (HuffCode { code: 0b11111110, len: 8 }),
        dc_code_spec(10u8) == Some(HuffCode { code: 0b11111110, len: 8 }),
        dc_table_map()[11u8] == (HuffCode { code: 0b111111110, len: 9 }),
        dc_code_spec(11u8) == Some(HuffCode { code: 0b111111110, len: 9 }),
{
    assert forall|c: u8| #[trigger] dc_table_map().contains_key(c) <==> c <= 11 by {
        lemma_dc_table_entries(c);
    }
}

/// The AC code words of run 0.
proof fn lemma_ac_run_0()
    ensures
        ac_code_spec(0u8, 0u8) == Some(HuffCode { code: 0b1010, len: 4 }),
        ac_code_spec(0u8, 1u8) == Some(HuffCode { code: 0b00, len: 2 }),
        ac_code_spec(0u8, 2u8) == Some(HuffCode { code: 0b01, len: 2 }),
        ac_code_spec(0u8, 3u8) == Some(HuffCode { code: 0b100, len: 3 }),
        ac_code_spec(0u8, 4u8) == Some(HuffCode { code: 0b1011, len: 4 }),
        ac_code_spec(0u8, 5u8) == Some(HuffCode { code: 0b11010, len: 5 }),
        ac_code_spec(0u8, 6u8) == Some(HuffCode { code: 0b1111000, len: 7 }),
        ac_code_spec(0u8, 7u8) == Some(HuffCode { code: 0b11111000, len: 8 }),
        ac_code_spec(0u8, 8u8) == Some(HuffCode { code: 0b1111110110, len: 10 }),
        ac_code_spec(0u8, 9u8) == Some(HuffCode { code: 0b1111111110000010, len: 16 }),
        ac_code_spec(0u8, 10u8) == Some(HuffCode { code: 0b1111111110000011, len: 16 }),
{
}

/// The AC code words of run 1.
proof fn lemma_ac_run_1()
    ensures
        ac_code_spec(1u8, 1u8) == Some(HuffCode { code: 0b1100, len: 4 }),
        ac_code_spec(1u8, 2u8) == Some(HuffCode { code: 0b11011, len: 5 }),
        ac_code_spec(1u8, 3u8) == Some(HuffCode { code: 0b1111001, len: 7 }),
        ac_code_spec(1u8, 4u8) == Some(HuffCode { code: 0b111110110, len: 9 }),
        ac_code_spec(1u8, 5u8) == Some(HuffCode { code: 0b11111110110, len: 11 }),
        ac_code_spec(1u8, 6u8) == Some(HuffCode { code: 0b1111111110000100, len: 16 }),
        ac_code_spec(1u8, 7u8) == Some(HuffCode { code: 0b1111111110000101, len: 16 }),
        ac_code_spec(1u8, 8u8) == Some(HuffCode { code: 0b1111111110000110, len: 16 }),
        ac_code_spec(1u8, 9u8) == Some(HuffCode { code: 0b1111111110000111, len: 16 }),
        ac_code_spec(1u8, 10u8) == Some(HuffCode { code: 0b1111111110001000, len: 16 }),
{
}

/// The AC code words of run 2.
proof fn lemma_ac_run_2()
    ensures
        ac_code_spec(2u8, 1u8) == Some(HuffCode { code: 0b11100, len: 5 }),
        ac_code_spec(2u8, 2u8) == Some(HuffCode { code: 0b11111001, len: 8 }),
        ac_code_spec(2u8, 3u8) == Some(HuffCode { code: 0b1111110111, len: 10 }),
        ac_code_spec(2u8, 4u8) == Some(HuffCode { code: 0b111111110100, len: 12 }),
        ac_code_spec(2u8, 5u8) == Some(HuffCode { code: 0b1111111110001001, len: 16 }),
        ac_code_spec(2u8, 6u8) == Some(HuffCode { code: 0b1111111110001010, len: 16 }),
        ac_code_spec(2u8, 7u8) == Some(HuffCode { code: 0b1111111110001011, len: 16 }),
        ac_code_spec(2u8, 8u8) == Some(HuffCode { code: 0b1111111110001100, len: 16 }),
        ac_code_spec(2u8, 9u8) == Some(HuffCode { code: 0b1111111110001101, len: 16 }),
        ac_code_spec(2u8, 10u8) == Some(HuffCode { code: 0b1111111110001110, len: 16 }),
{
}

/// The AC code words of run 3.
proof fn lemma_ac_run_3()
    ensures
        ac_code_spec(3u8, 1u8) == Some(HuffCode { code: 0b111010, len: 6 }),
        ac_code_spec(3u8, 2u8) == Some(HuffCode { code: 0b111110111, len: 9 }),
        ac_code_spec(3u8, 3u8) == Some(HuffCode { code: 0b111111110101, len: 12 }),
        ac_code_spec(3u8, 4u8) == Some(HuffCode { code: 0b1111111110001111, len: 16 }),
        ac_code_spec(3u8, 5u8) == Some(HuffCode { code: 0b1111111110010000, len: 16 }),
        ac_code_spec(3u8, 6u8) == Some(HuffCode { code: 0b1111111110010001, len: 16 }),
        ac_code_spec(3u8, 7u8) == Some(HuffCode { code: 0b1111111110010010, len: 16 }),
        ac_code_spec(3u8, 8u8) == Some(HuffCode { code: 0b1111111110010011, len: 16 }),
        ac_code_spec(3u8, 9u8) == Some(HuffCode { code: 0b1111111110010100, len: 16 }),
        ac_code_spec(3u8, 10u8) == Some(HuffCode { code: 0b1111111110010101, len: 16 }),
{
}

/// The AC code words of run 4.
proof fn lemma_ac_run_4()
    ensures
        ac_code_spec(4u8, 1u8) == Some(HuffCode { code: 0b111011, len: 6 }),
        ac_code_spec(4u8, 2u8) == Some(HuffCode { code: 0b1111111000, len: 10 }),
        ac_code_spec(4u8, 3u8) == Some(HuffCode { code: 0b1111111110010110, len: 16 }),
        ac_code_spec(4u8, 4u8) == Some(HuffCode { code: 0b1111111110010111, len: 16 }),
        ac_code_spec(4u8, 5u8) == Some(HuffCode { code: 0b1111111110011000, len: 16 }),
        ac_code_spec(4u8, 6u8) == Some(HuffCode { code: 0b1111111110011001, len: 16 }),
        ac_code_spec(4u8, 7u8) == Some(HuffCode { code: 0b1111111110011010, len: 16 }),
        ac_code_spec(4u8, 8u8) == Some(HuffCode { code: 0b1111111110011011, len: 16 }),
        ac_code_spec(4u8, 9u8) == Some(HuffCode { code: 0b1111111110011100, len: 16 }),
        ac_code_spec(4u8, 10u8) == Some(HuffCode { code: 0b1111111110011101, len: 16 }),
{
}

/// The AC code words of run 5.
proof fn lemma_ac_run_5()
    ensures
        ac_code_spec(5u8, 1u8) == Some(HuffCode { code: 0b1111010, len: 7 }),
        ac_code_spec(5u8, 2u8) == Some(HuffCode { code: 0b11111110111, len: 11 }),
        ac_code_spec(5u8, 3u8) == Some(HuffCode { code: 0b1111111110011110, len: 16 }),
        ac_code_spec(5u8, 4u8) == Some(HuffCode { code: 0b1111111110011111, len: 16 }),
        ac_code_spec(5u8, 5u8) == Some(HuffCode { code: 0b1111111110100000, len: 16 }),
        ac_code_spec(5u8, 6u8) == Some(HuffCode { code: 0b1111111110100001, len: 16 }),
        ac_code_spec(5u8, 7u8) == Some(HuffCode { code: 0b1111111110100010, len: 16 }),
        ac_code_spec(5u8, 8u8) == Some(HuffCode { code: 0b1111111110100011, len: 16 }),
        ac_code_spec(5u8, 9u8) == Some(HuffCode { code: 0b1111111110100100, len: 16 }),
        ac_code_spec(5u8, 10u8) == Some(HuffCode { code: 0b1111111110100101, len: 16 }),
{
}

/// The AC code words of run 6.
proof fn lemma_ac_run_6()
    ensures
        ac_code_spec(6u8, 1u8) == Some(HuffCode { code: 0b1111011, len: 7 }),
        ac_code_spec(6u8, 2u8) == Some(HuffCode { code: 0b111111110110, len: 12 }),
        ac_code_spec(6u8, 3u8) == Some(HuffCode { code: 0b1111111110100110, len: 16 }),
        ac_code_spec(6u8, 4u8) == Some(HuffCode { code: 0b1111111110100111, len: 16 }),
        ac_code_spec(6u8, 5u8) == Some(HuffCode { code: 0b1111111110101000, len: 16 }),
        ac_code_spec(6u8, 6u8) == Some(HuffCode { code: 0b1111111110101001, len: 16 }),
        ac_code_spec(6u8, 7u8) == Some(HuffCode { code: 0b1111111110101010, len: 16 }),
        ac_code_spec(6u8, 8u8) == Some(HuffCode { code: 0b1111111110101011, len: 16 }),
        ac_code_spec(6u8, 9u8) == Some(HuffCode { code: 0b1111111110101100, len: 16 }),
        ac_code_spec(6u8, 10u8) == Some(HuffCode { code: 0b1111111110101101, len: 16 }),
{
}

/// The AC code words of run 7.
proof fn lemma_ac_run_7()
    ensures
        ac_code_spec(7u8, 1u8) == Some(HuffCode { code: 0b11111010, len: 8 }),
        ac_code_spec(7u8, 2u8) == Some(HuffCode { code: 0b111111110111, len: 12 }),
        ac_code_spec(7u8, 3u8) == Some(HuffCode { code: 0b1111111110101110, len: 16 }),
        ac_code_spec(7u8, 4u8) == Some(HuffCode { code: 0b1111111110101111, len: 16 }),
        ac_code_spec(7u8, 5u8) == Some(HuffCode { code: 0b1111111110110000, len: 16 }),
        ac_code_spec(7u8, 6u8) == Some(HuffCode { code: 0b1111111110110001, len: 16 }),
        ac_code_spec(7u8, 7u8) == Some(HuffCode { code: 0b1111111110110010, len: 16 }),
        ac_code_spec(7u8, 8u8) == Some(HuffCode { code: 0b1111111110110011, len: 16 }),
        ac_code_spec(7u8, 9u8) == Some(HuffCode { code: 0b1111111110110100, len: 16 }),
        ac_code_spec(7u8, 10u8) == Some(HuffCode { code: 0b1111111110110101, len: 16 }),
{
}

/// The AC code words of run 8.
proof fn lemma_ac_run_8()
    ensures
        ac_code_spec(8u8, 1u8) == Some(HuffCode { code: 0b111111000, len: 9 }),
        ac_code_spec(8u8, 2u8) == Some(HuffCode { code: 0b111111111000000, len: 15 }),
        ac_code_spec(8u8, 3u8) == Some(HuffCode { code: 0b1111111110110110, len: 16 }),
        ac_code_spec(8u8, 4u8) == Some(HuffCode { code: 0b1111111110110111, len: 16 }),
        ac_code_spec(8u8, 5u8) == Some(HuffCode { code: 0b1111111110111000, len: 16 }),
        ac_code_spec(8u8, 6u8) == Some(HuffCode { code: 0b1111111110111001, len: 16 }),
        ac_code_spec(8u8, 7u8) == Some(HuffCode { code: 0b1111111110111010, len: 16 }),
        ac_code_spec(8u8, 8u8) == Some(HuffCode { code: 0b1111111110111011, len: 16 }),
        ac_code_spec(8u8, 9u8) == Some(HuffCode { code: 0b1111111110111100, len: 16 }),
        ac_code_spec(8u8, 10u8) == Some(HuffCode { code: 0b1111111110111101, len: 16 }),
{
}

/// The AC code words of run 9.
proof fn lemma_ac_run_9()
    ensures
        ac_code_spec(9u8, 1u8) == Some(HuffCode { code: 0b111111001, len: 9 }),
        ac_code_spec(9u8, 2u8) == Some(HuffCode { code: 0b1111111110111110, len: 16 }),
        ac_code_spec(9u8, 3u8) == Some(HuffCode { code: 0b1111111110111111, len: 16 }),
        ac_code_spec(9u8, 4u8) == Some(HuffCode { code: 0b1111111111000000, len: 16 }),
        ac_code_spec(9u8, 5u8) == Some(HuffCode { code: 0b1111111111000001, len: 16 }),
        ac_code_spec(9u8, 6u8) == Some(HuffCode { code: 0b1111111111000010, len: 16 }),
        ac_code_spec(9u8, 7u8) == Some(HuffCode { code: 0b1111111111000011, len: 16 }),
        ac_code_spec(9u8, 8u8) == Some(HuffCode { code: 0b1111111111000100, len: 16 }),
        ac_code_spec(9u8, 9u8) == Some(HuffCode { code: 0b1111111111000101, len: 16 }),
        ac_code_spec(9u8, 10u8) == Some(HuffCode { code: 0b1111111111000110, len: 16 }),
{
}

/// The AC code words of run 10.
proof fn lemma_ac_run_10()
    ensures
        ac_code_spec(10u8, 1u8) == Some(HuffCode { code: 0b111111010, len: 9 }),
        ac_code_spec(10u8, 2u8) == Some(HuffCode { code: 0b1111111111000111, len: 16 }),
        ac_code_spec(10u8, 3u8) == Some(HuffCode { code: 0b1111111111001000, len: 16 }),
        ac_code_spec(10u8, 4u8) == Some(HuffCode { code: 0b1111111111001001, len: 16 }),
        ac_code_spec(10u8, 5u8) == Some(HuffCode { code: 0b1111111111001010, len: 16 }),
        ac_code_spec(10u8, 6u8) == Some(HuffCode { code: 0b1111111111001011, len: 16 }),
        ac_code_spec(10u8, 7u8) == Some(HuffCode { code: 0b1111111111001100, len: 16 }),
        ac_code_spec(10u8, 8u8) == Some(HuffCode { code: 0b1111111111001101, len: 16 }),
        ac_code_spec(10u8, 9u8) == Some(HuffCode { code: 0b1111111111001110, len: 16 }),
        ac_code_spec(10u8, 10u8) == Some(HuffCode { code: 0b1111111111001111, len: 16 }),
{
}

/// The AC code words of run 11.
proof fn lemma_ac_run_11()
    ensures
        ac_code_spec(11u8, 1u8) == Some(HuffCode { code: 0b1111111001, len: 10 }),
        ac_code_spec(11u8, 2u8) == Some(HuffCode { code: 0b1111111111010000, len: 16 }),
        ac_code_spec(11u8, 3u8) == Some(HuffCode { code: 0b1111111111010001, len: 16 }),
        ac_code_spec(11u8, 4u8) == Some(HuffCode { code: 0b1111111111010010, len: 16 }),
        ac_code_spec(11u8, 5u8) == Some(HuffCode { code: 0b1111111111010011, len: 16 }),
        ac_code_spec(11u8, 6u8) == Some(HuffCode { code: 0b1111111111010100, len: 16 }),
        ac_code_spec(11u8, 7u8) == Some(HuffCode { code: 0b1111111111010101, len: 16 }),
        ac_code_spec(11u8, 8u8) == Some(HuffCode { code: 0b1111111111010110, len: 16 }),
        ac_code_spec(11u8, 9u8) == Some(HuffCode { code: 0b1111111111010111, len: 16 }),
        ac_code_spec(11u8, 10u8) == Some(HuffCode { code: 0b1111111111011000, len: 16 }),
{
}

/// The AC code words of run 12.
proof fn lemma_ac_run_12()
    ensures
        ac_code_spec(12u8, 1u8) == Some(HuffCode { code: 0b1111111010, len: 10 }),
        ac_code_spec(12u8, 2u8) == Some(HuffCode { code: 0b1111111111011001, len: 16 }),
        ac_code_spec(12u8, 3u8) == Some(HuffCode { code: 0b1111111111011010, len: 16 }),
        ac_code_spec(12u8, 4u8) == Some(HuffCode { code: 0b1111111111011011, len: 16 }),
        ac_code_spec(12u8, 5u8) == Some(HuffCode { code: 0b1111111111011100, len: 16 }),
        ac_code_spec(12u8, 6u8) == Some(HuffCode { code: 0b1111111111011101, len: 16 }),
        ac_code_spec(12u8, 7u8) == Some(HuffCode { code: 0b1111111111011110, len: 16 }),
        ac_code_spec(12u8, 8u8) == Some(HuffCode { code: 0b1111111111011111, len: 16 }),
        ac_code_spec(12u8, 9u8) == Some(HuffCode { code: 0b1111111111100000, len: 16 }),
        ac_code_spec(12u8, 10u8) == Some(HuffCode { code: 0b1111111111100001, len: 16 }),
{
}

/// The AC code words of run 13.
proof fn lemma_ac_run_13()
    ensures
        ac_code_spec(13u8, 1u8) == Some(HuffCode { code: 0b11111111000, len: 11 }),
        ac_code_spec(13u8, 2u8) == Some(HuffCode { code: 0b1111111111100010, len: 16 }),
        ac_code_spec(13u8, 3u8) == Some(HuffCode { code: 0b1111111111100011, len: 16 }),
        ac_code_spec(13u8, 4u8) == Some(HuffCode { code: 0b1111111111100100, len: 16 }),
        ac_code_spec(13u8, 5u8) == Some(HuffCode { code: 0b1111111111100101, len: 16 }),
        ac_code_spec(13u8, 6u8) == Some(HuffCode { code: 0b1111111111100110, len: 16 }),
        ac_code_spec(13u8, 7u8) == Some(HuffCode { code: 0b1111111111100111, len: 16 }),
        ac_code_spec(13u8, 8u8) == Some(HuffCode { code: 0b1111111111101000, len: 16 }),
        ac_code_spec(13u8, 9u8) == Some(HuffCode { code: 0b1111111111101001, len: 16 }),
        ac_code_spec(13u8, 10u8) == Some(HuffCode { code: 0b1111111111101010, len: 16 }),
{
}

/// The AC code words of run 14.
proof fn lemma_ac_run_14()
    ensures
        ac_code_spec(14u8, 1u8) == Some(HuffCode { code: 0b1111111111101011, len: 16 }),
        ac_code_spec(14u8, 2u8) == Some(HuffCode { code: 0b1111111111101100, len: 16 }),
        ac_code_spec(14u8, 3u8) == Some(HuffCode { code: 0b1111111111101101, len: 16 }),
        ac_code_spec(14u8, 4u8) == Some(HuffCode { code: 0b1111111111101110, len: 16 }),
        ac_code_spec(14u8, 5u8) == Some(HuffCode { code: 0b1111111111101111, len: 16 }),
        ac_code_spec(14u8, 6u8) == Some(HuffCode { code: 0b1111111111110000, len: 16 }),
        ac_code_spec(14u8, 7u8) == Some(HuffCode { code: 0b1111111111110001, len: 16 }),
        ac_code_spec(14u8, 8u8) == Some(HuffCode { code: 0b1111111111110010, len: 16 }),
        ac_code_spec(14u8, 9u8) == Some(HuffCode { code: 0b1111111111110011, len: 16 }),
        ac_code_spec(14u8, 10u8) == Some(HuffCode { code: 0b1111111111110100, len: 16 }),
{
}

/// The AC code words of run 15.
proof fn lemma_ac_run_15()
    ensures
        ac_code_spec(15u8, 0u8) == Some(HuffCode { code: 0b11111111001, len: 11 }),
        ac_code_spec(15u8, 1u8) == Some(HuffCode { code: 0b1111111111110101, len: 16 }),
        ac_code_spec(15u8, 2u8) == Some(HuffCode { code: 0b1111111111110110, len: 16 }),
        ac_code_spec(15u8, 3u8) == Some(HuffCode { code: 0b1111111111110111, len: 16 }),
        ac_code_spec(15u8, 4u8) == Some(HuffCode { code: 0b1111111111111000, len: 16 }),
        ac_code_spec(15u8, 5u8) == Some(HuffCode { code: 0b1111111111111001, len: 16 }),
        ac_code_spec(15u8, 6u8) == Some(HuffCode { code: 0b1111111111111010, len: 16 }),
        ac_code_spec(15u8, 7u8) == Some(HuffCode { code: 0b1111111111111011, len: 16 }),
        ac_code_spec(15u8, 8u8) == Some(HuffCode { code: 0b1111111111111100, len: 16 }),
        ac_code_spec(15u8, 9u8) == Some(HuffCode { code: 0b1111111111111101, len: 16 }),
        ac_code_spec(15u8, 10u8) == Some(HuffCode { code: 0b1111111111111110, len: 16 }),
{
}

/// The AC table holds the JPEG standard luminance code words: for each run
/// and category below (key `run * 256 + category`) the code word and its
/// length; the table has a code exactly for runs up to 15 with categories 1
/// to 10, for the end of block `(0, 0)` and for sixteen zeros `(15, 0)`.
pub proof fn lemma_ac_table_standard()
    ensures
        forall|k: u16|
            #[trigger] ac_table_map().contains_key(k) <==> (k / 256 <= 15 && ((1 <= k % 256 <= 10) || (k % 256 == 0 && (k / 256 == 0 || k / 256 == 15)))),
        ac_table_map()[0u16] == (HuffCode { code: 0b1010, len: 4 }),
        ac_table_map()[1u16] == (HuffCode { code: 0b00, len: 2 }),
        ac_table_map()[2u16] == (HuffCode { code: 0b01, len: 2 }),
        ac_table_map()[3u16] == (HuffCode { code: 0b100, len: 3 }),
        ac_table_map()[4u16] == (HuffCode { code: 0b1011, len: 4 }),
        ac_table_map()[5u16] == (HuffCode { code: 0b11010, len: 5 }),
        ac_table_map()[6u16] == (HuffCode { code: 0b1111000, len: 7 }),
        ac_table_map()[7u16] == (HuffCode { code: 0b11111000, len: 8 }),
        ac_table_map()[8u16] == (HuffCode { code: 0b1111110110, len: 10 }),
        ac_table_map()[9u16] == (HuffCode { code: 0b1111111110000010, len: 16 }),
        ac_table_map()[10u16] == (HuffCode { code: 0b1111111110000011, len: 16 }),
        ac_table_map()[257u16] == (HuffCode { code: 0b1100, len: 4 }),
        ac_table_map()[258u16] == (HuffCode { code: 0b11011, len: 5 }),
        ac_table_map()[259u16] == (HuffCode { code: 0b1111001, len: 7 }),
        ac_table_map()[260u16] == (HuffCode { code: 0b111110110, len: 9 }),
        ac_table_map()[261u16] == (HuffCode { code: 0b11111110110, len: 11 }),
        ac_table_map()[262u16] == (HuffCode { code: 0b1111111110000100, len: 16 }),
        ac_table_map()[263u16] == (HuffCode { code: 0b1111111110000101, len: 16 }),
        ac_table_map()[264u16] == (HuffCode { code: 0b1111111110000110, len: 16 }),
        ac_table_map()[265u16] == (HuffCode { code: 0b1111111110000111, len: 16 }),
        ac_table_map()[266u16] == (HuffCode { code: 0b1111111110001000, len: 16 }),
        ac_table_map()[513u16] == (HuffCode { code: 0b11100, len: 5 }),
        ac_table_map()[514u16] == (HuffCode { code: 0b11111001, len: 8 }),
        ac_table_map()[515u16] == (HuffCode { code: 0b1111110111, len: 10 }),
        ac_table_map()[516u16] == (HuffCode { code: 0b111111110100, len: 12 }),
        ac_table_map()[517u16] == (HuffCode { code: 0b1111111110001001, len: 16 }),
        ac_table_map()[518u16] == (HuffCode { code: 0b1111111110001010, len: 16 }),
        ac_table_map()[519u16] == (HuffCode { code: 0b1111111110001011, len: 16 }),
        ac_table_map()[520u16] == (HuffCode { code: 0b1111111110001100, len: 16 }),
        ac_table_map()[521u16] == (HuffCode { code: 0b1111111110001101, len: 16 }),
        ac_table_map()[522u16] == (HuffCode { code: 0b1111111110001110, len: 16 }),
        ac_table_map()[769u16] == (HuffCode { code: 0b111010, len: 6 }),
        ac_table_map()[770u16] == (HuffCode { code: 0b111110111, len: 9 }),
        ac_table_map()[771u16] == (HuffCode { code: 0b111111110101, len: 12 }),
        ac_table_map()[772u16] == (HuffCode { code: 0b1111111110001111, len: 16 }),
        ac_table_map()[773u16] == (HuffCode { code: 0b1111111110010000, len: 16 }),
        ac_table_map()[774u16] == (HuffCode { code: 0b1111111110010001, len: 16 }),
        ac_table_map()[775u16] == (HuffCode { code: 0b1111111110010010, len: 16 }),
        ac_table_map()[776u16] == (HuffCode { code: 0b1111111110010011, len: 16 }),
        ac_table_map()[777u16] == (HuffCode { code: 0b1111111110010100, len: 16 }),
        ac_table_map()[778u16] == (HuffCode { code: 0b1111111110010101, len: 16 }),
        ac_table_map()[1025u16] == (HuffCode { code: 0b111011, len: 6 }),
        ac_table_map()[1026u16] == (HuffCode { code: 0b1111111000, len: 10 }),
        ac_table_map()[1027u16] == (HuffCode { code: 0b1111111110010110, len: 16 }),
        ac_table_map()[1028u16] == (HuffCode { code: 0b1111111110010111, len: 16 }),
        ac_table_map()[1029u16] == (HuffCode { code: 0b1111111110011000, len: 16 }),
        ac_table_map()[1030u16] == (HuffCode { code: 0b1111111110011001, len: 16 }),
        ac_table_map()[1031u16] == (HuffCode { code: 0b1111111110011010, len: 16 }),
        ac_table_map()[1032u16] == (HuffCode { code: 0b1111111110011011, len: 16 }),
        ac_table_map()[1033u16] == (HuffCode { code: 0b1111111110011100, len: 16 }),
        ac_table_map()[1034u16] == (HuffCode { code: 0b1111111110011101, len: 16 }),
        ac_table_map()[1281u16] == (HuffCode { code: 0b1111010, len: 7 }),
        ac_table_map()[1282u16] == (HuffCode { code: 0b11111110111, len: 11 }),
        ac_table_map()[1283u16] == (HuffCode { code: 0b1111111110011110, len: 16 }),
        ac_table_map()[1284u16] == (HuffCode { code: 0b1111111110011111, len: 16 }),
        ac_table_map()[1285u16] == (HuffCode { code: 0b1111111110100000, len: 16 }),
        ac_table_map()[1286u16] == (HuffCode { code: 0b1111111110100001, len: 16 }),
        ac_table_map()[1287u16] == (HuffCode { code: 0b1111111110100010, len: 16 }),
        ac_table_map()[1288u16] == (HuffCode { code: 0b1111111110100011, len: 16 }),
        ac_table_map()[1289u16] == (HuffCode { code: 0b1111111110100100, len: 16 }),
        ac_table_map()[1290u16] == (HuffCode { code: 0b1111111110100101, len: 16 }),
        ac_table_map()[1537u16] == (HuffCode { code: 0b1111011, len: 7 }),
        ac_table_map()[1538u16] == (HuffCode { code: 0b111111110110, len: 12 }),
        ac_table_map()[1539u16] == (HuffCode { code: 0b1111111110100110, len: 16 }),
        ac_table_map()[1540u16] == (HuffCode { code: 0b1111111110100111, len: 16 }),
        ac_table_map()[1541u16] == (HuffCode { code: 0b1111111110101000, len: 16 }),
        ac_table_map()[1542u16] == (HuffCode { code: 0b1111111110101001, len: 16 }),
        ac_table_map()[1543u16] == (HuffCode { code: 0b1111111110101010, len: 16 }),
        ac_table_map()[1544u16] == (HuffCode { code: 0b1111111110101011, len: 16 }),
        ac_table_map()[1545u16] == (HuffCode { code: 0b1111111110101100, len: 16 }),
        ac_table_map()[1546u16] == (HuffCode { code: 0b1111111110101101, len: 16 }),
        ac_table_map()[1793u16] == (HuffCode { code: 0b11111010, len: 8 }),
        ac_table_map()[1794u16] == (HuffCode { code: 0b111111110111, len: 12 }),
        ac_table_map()[1795u16] == (HuffCode { code: 0b1111111110101110, len: 16 }),
        ac_table_map()[1796u16] == (HuffCode { code: 0b1111111110101111, len: 16 }),
        ac_table_map()[1797u16] == (HuffCode { code: 0b1111111110110000, len: 16 }),
        ac_table_map()[1798u16] == (HuffCode { code: 0b1111111110110001, len: 16 }),
        ac_table_map()[1799u16] == (HuffCode { code: 0b1111111110110010, len: 16 }),
        ac_table_map()[1800u16] == (HuffCode { code: 0b1111111110110011, len: 16 }),
        ac_table_map()[1801u16] == (HuffCode { code: 0b1111111110110100, len: 16 }),
        ac_table_map()[1802u16] == (HuffCode { code: 0b1111111110110101, len: 16 }),
        ac_table_map()[2049u16] == (HuffCode { code: 0b111111000, len: 9 }),
        ac_table_map()[2050u16] == (HuffCode { code: 0b111111111000000, len: 15 }),
        ac_table_map()[2051u16] == (HuffCode { code: 0b1111111110110110, len: 16 }),
        ac_table_map()[2052u16] == (HuffCode { code: 0b1111111110110111, len: 16 }),
        ac_table_map()[2053u16] == (HuffCode { code: 0b1111111110111000, len: 16 }),
        ac_table_map()[2054u16] == (HuffCode { code: 0b1111111110111001, len: 16 }),
        ac_table_map()[2055u16] == (HuffCode { code: 0b1111111110111010, len: 16 }),
        ac_table_map()[2056u16] == (HuffCode { code: 0b1111111110111011, len: 16 }),
        ac_table_map()[2057u16] == (HuffCode { code: 0b1111111110111100, len: 16 }),
        ac_table_map()[2058u16] == (HuffCode { code: 0b1111111110111101, len: 16 }),
        ac_table_map()[2305u16] == (HuffCode { code: 0b111111001, len: 9 }),
        ac_table_map()[2306u16] == (HuffCode { code: 0b1111111110111110, len: 16 }),
        ac_table_map()[2307u16] == (HuffCode { code: 0b1111111110111111, len: 16 }),
        ac_table_map()[2308u16] == (HuffCode { code: 0b1111111111000000, len: 16 }),
        ac_table_map()[2309u16] == (HuffCode { code: 0b1111111111000001, len: 16 }),
        ac_table_map()[2310u16] == (HuffCode { code: 0b1111111111000010, len: 16 }),
        ac_table_map()[2311u16] == (HuffCode { code: 0b1111111111000011, len: 16 }),
        ac_table_map()[2312u16] == (HuffCode { code: 0b1111111111000100, len: 16 }),
        ac_table_map()[2313u16] == (HuffCode { code: 0b1111111111000101, len: 16 }),
        ac_table_map()[2314u16] == (HuffCode { code: 0b1111111111000110, len: 16 }),
        ac_table_map()[2561u16] == (HuffCode { code: 0b111111010, len: 9 }),
        ac_table_map()[2562u16] == (HuffCode { code: 0b1111111111000111, len: 16 }),
        ac_table_map()[2563u16] == (HuffCode { code: 0b1111111111001000, len: 16 }),
        ac_table_map()[2564u16] == (HuffCode { code: 0b1111111111001001, len: 16 }),
        ac_table_map()[2565u16] == (HuffCode { code: 0b1111111111001010, len: 16 }),
        ac_table_map()[2566u16] == (HuffCode { code: 0b1111111111001011, len: 16 }),
        ac_table_map()[2567u16] == (HuffCode { code: 0b1111111111001100, len: 16 }),
        ac_table_map()[2568u16] == (HuffCode { code: 0b1111111111001101, len: 16 }),
        ac_table_map()[2569u16] == (HuffCode { code: 0b1111111111001110, len: 16 }),
        ac_table_map()[2570u16] == (HuffCode { code: 0b1111111111001111, len: 16 }),
        ac_table_map()[2817u16] == (HuffCode { code: 0b1111111001, len: 10 }),
        ac_table_map()[2818u16] == (HuffCode { code: 0b1111111111010000, len: 16 }),
        ac_table_map()[2819u16] == (HuffCode { code: 0b1111111111010001, len: 16 }),
        ac_table_map()[2820u16] == (HuffCode { code: 0b1111111111010010, len: 16 }),
        ac_table_map()[2821u16] == (HuffCode { code: 0b1111111111010011, len: 16 }),
        ac_table_map()[2822u16] == (HuffCode { code: 0b1111111111010100, len: 16 }),
        ac_table_map()[2823u16] == (HuffCode { code: 0b1111111111010101, len: 16 }),
        ac_table_map()[2824u16] == (HuffCode { code: 0b1111111111010110, len: 16 }),
        ac_table_map()[2825u16] == (HuffCode { code: 0b1111111111010111, len: 16 }),
        ac_table_map()[2826u16] == (HuffCode { code: 0b1111111111011000, len: 16 }),
        ac_table_map()[3073u16] == (HuffCode { code: 0b1111111010, len: 10 }),
        ac_table_map()[3074u16] == (HuffCode { code: 0b1111111111011001, len: 16 }),
        ac_table_map()[3075u16] == (HuffCode { code: 0b1111111111011010, len: 16 }),
        ac_table_map()[3076u16] == (HuffCode { code: 0b1111111111011011, len: 16 }),
        ac_table_map()[3077u16] == (HuffCode { code: 0b1111111111011100, len: 16 }),
        ac_table_map()[3078u16] == (HuffCode { code: 0b1111111111011101, len: 16 }),
        ac_table_map()[3079u16] == (HuffCode { code: 0b1111111111011110, len: 16 }),
        ac_table_map()[3080u16] == (HuffCode { code: 0b1111111111011111, len: 16 }),
        ac_table_map()[3081u16] == (HuffCode { code: 0b1111111111100000, len: 16 }),
        ac_table_map()[3082u16] == (HuffCode { code: 0b1111111111100001, len: 16 }),
        ac_table_map()[3329u16] == (HuffCode { code: 0b11111111000, len: 11 }),
        ac_table_map()[3330u16] == (HuffCode { code: 0b1111111111100010, len: 16 }),
        ac_table_map()[3331u16] == (HuffCode { code: 0b1111111111100011, len: 16 }),
        ac_table_map()[3332u16] == (HuffCode { code: 0b1111111111100100, len: 16 }),
        ac_table_map()[3333u16] == (HuffCode { code: 0b1111111111100101, len: 16 }),
        ac_table_map()[3334u16] == (HuffCode { code: 0b1111111111100110, len: 16 }),
        ac_table_map()[3335u16] == (HuffCode { code: 0b1111111111100111, len: 16 }),
        ac_table_map()[3336u16] == (HuffCode { code: 0b1111111111101000, len: 16 }),
        ac_table_map()[3337u16] == (HuffCode { code: 0b1111111111101001, len: 16 }),
        ac_table_map()[3338u16] == (HuffCode { code: 0b1111111111101010, len: 16 }),
        ac_table_map()[3585u16] == (HuffCode { code: 0b1111111111101011, len: 16 }),
        ac_table_map()[3586u16] == (HuffCode { code: 0b1111111111101100, len: 16 }),
        ac_table_map()[3587u16] == (HuffCode { code: 0b1111111111101101, len: 16 }),
        ac_table_map()[3588u16] == (HuffCode { code: 0b1111111111101110, len: 16 }),
        ac_table_map()[3589u16] == (HuffCode { code: 0b1111111111101111, len: 16 }),
        ac_table_map()[3590u16] == (HuffCode { code: 0b1111111111110000, len: 16 }),
        ac_table_map()[3591u16] == (HuffCode { code: 0b1111111111110001, len: 16 }),
        ac_table_map()[3592u16] == (HuffCode { code: 0b1111111111110010, len: 16 }),
        ac_table_map()[3593u16] == (HuffCode { code: 0b1111111111110011, len: 16 }),
        ac_table_map()[3594u16] == (HuffCode { code: 0b1111111111110100, len: 16 }),
        ac_table_map()[3840u16] == (HuffCode { code: 0b11111111001, len: 11 }),
        ac_table_map()[3841u16] == (HuffCode { code: 0b1111111111110101, len: 16 }),
        ac_table_map()[3842u16] == (HuffCode { code: 0b1111111111110110, len: 16 }),
        ac_table_map()[3843u16] == (HuffCode { code: 0b1111111111110111, len: 16 }),
        ac_table_map()[3844u16] == (HuffCode { code: 0b1111111111111000, len: 16 }),
        ac_table_map()[3845u16] == (HuffCode { code: 0b1111111111111001, len: 16 }),
        ac_table_map()[3846u16] == (HuffCode { code: 0b1111111111111010, len: 16 }),
        ac_table_map()[3847u16] == (HuffCode { code: 0b1111111111111011, len: 16 }),
        ac_table_map()[3848u16] == (HuffCode { code: 0b1111111111111100, len: 16 }),
        ac_table_map()[3849u16] == (HuffCode { code: 0b1111111111111101, len: 16 }),
        ac_table_map()[3850u16] == (HuffCode { code: 0b1111111111111110, len: 16 }),
{
    lemma_ac_run_0();
    lemma_ac_run_1();
    lemma_ac_run_2();
    lemma_ac_run_3();
    lemma_ac_run_4();
    lemma_ac_run_5();
    lemma_ac_run_6();
    lemma_ac_run_7();
    lemma_ac_run_8();
    lemma_ac_run_9();
    lemma_ac_run_10();
    lemma_ac_run_11();
    lemma_ac_run_12();
    lemma_ac_run_13();
    lemma_ac_run_14();
    lemma_ac_run_15();
    assert forall|k: u16|
        #[trigger] ac_table_map().contains_key(k) <==> (k / 256 <= 15 && ((1 <= k % 256 <= 10) || (k % 256 == 0 && (k / 256 == 0 || k / 256 == 15)))) by {
        let run = (k / 256) as u8;
        let cat = (k % 256) as u8;
        lemma_ac_table_entries(run, cat);
        if k / 256 <= 15 && ((1 <= k % 256 <= 10) || (k % 256 == 0 && (k / 256 == 0 || k / 256 == 15))) {
            lemma_ac_code_exists_all(run, cat);
        } else {
            lemma_ac_code_missing(run, cat);
        }
    }
}

/// The AC table has a code for every run up to 15 with a category from 1 to
/// 10, and for `(0, 0)` and `(15, 0)`.
proof fn lemma_ac_code_exists_all(run: u8, cat: u8)
    requires
        (run <= 15 && 1 <= cat <= 10) || (cat == 0 && (run == 0 || run == 15)),
    ensures
        ac_code_spec(run, cat) is Some,
{
}

/// The AC table has no code for a category 0 with a run other than 0 or 15,
/// nor for a category above 10 or a run above 15.
proof fn lemma_ac_code_missing(run: u8, cat: u8)
    requires
        !((run <= 15 && 1 <= cat <= 10) || (cat == 0 && (run == 0 || run == 15))),
    ensures
        ac_code_spec(run, cat) is None,
{
}

} // verus!
