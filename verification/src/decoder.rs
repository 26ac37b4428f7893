use vstd::prelude::*;
use vstd::arithmetic::power2::{pow2, lemma2_to64};
use crate::bit_writer::{bit8, bit64};
use crate::lut::{InvertedHuf, dc_lut_spec, ac_lut_spec};

verus! {

/// Bit `i` of the stream that `data` starts: the bits of `data`, most
/// significant first, then zeros.
pub open spec fn stream_bit(data: Seq<u8>, i: int) -> bool {
    0 <= i < 8 * data.len() && bit8(data[i / 8], i % 8)
}

/// The number formed by the `n` stream bits from `pos` on.
pub open spec fn stream_val(data: Seq<u8>, pos: int, n: nat) -> int
    decreases n,
{
    if n == 0 {
        0
    } else {
        2 * stream_val(data, pos, (n - 1) as nat) + if stream_bit(data, pos + n - 1) {
            1int
        } else {
            0int
        }
    }
}

/// `1i32 << k` for `k < 32`.
pub open spec fn shl_i32(k: int) -> int {
    if k == 31 {
        -2147483648
    } else {
        pow2(k as nat) as int
    }
}

/// The value that `bits` of category `cat` stand for: `bits` itself when at
/// least `2^(cat-1)`, else `bits - 2^cat + 1` (0 for category 0).
pub open spec fn decode_value_spec(bits: u32, cat: u8) -> i16 {
    if cat == 0 {
        0
    } else if (bits as i32) >= shl_i32(cat - 1) {
        bits as i16
    } else {
        ((bits as i32) - shl_i32(cat as int) + 1) as i16
    }
}

/// `decode_value_spec` is defined without overflow.
pub open spec fn decode_value_ok(bits: u32, cat: u8) -> bool {
    &&& cat <= 32
    &&& (cat >= 1 && (bits as i32) < shl_i32(cat - 1)) ==> (cat <= 31 && i32::MIN <= (bits as i32)
        - shl_i32(cat as int) && (bits as i32) - shl_i32(cat as int) + 1 <= i32::MAX)
}

/// The state of the decoder: the stream position, how many coefficients of
/// the current block it has read (0 before the DC value), how many blocks it
/// has finished, and the entries read so far.
pub struct DecState {
    pub pos: int,
    pub run_counter: int,
    pub dc_counter: int,
    pub rle: Seq<(usize, i16)>,
}

/// The table entry for the symbol at the decoder's position.
pub open spec fn dec_entry(data: Seq<u8>, s: DecState) -> InvertedHuf {
    let w = stream_val(data, s.pos, 16);
    if s.run_counter == 0 {
        dc_lut_spec(w)
    } else {
        ac_lut_spec(w)
    }
}

/// One symbol: look the next 16 bits up (in the DC table at the start of a
/// block, else in the AC table), read the value bits after the code word,
/// and count the coefficients; a block ends after 64 of them or at `(0, 0)`.
pub open spec fn decode_step(data: Seq<u8>, s: DecState) -> DecState {
    let e = dec_entry(data, s);
    let rc1 = if s.run_counter == 0 {
        1
    } else if e.run == 0 && e.cat == 0 {
        64
    } else {
        s.run_counter + e.run + 1
    };
    let vb = stream_val(data, s.pos + e.huf_len, e.cat as nat);
    let value = decode_value_spec(vb as u32, e.cat);
    DecState {
        pos: s.pos + e.huf_len + e.cat,
        run_counter: if rc1 >= 64 { 0 } else { rc1 },
        dc_counter: if rc1 >= 64 { s.dc_counter + 1 } else { s.dc_counter },
        rle: s.rle.push((e.run as usize, value)),
    }
}

/// The entries that the decoder reads from `s` on until `bc` blocks are finished
/// (reading at least one symbol).
pub open spec fn decode_run(data: Seq<u8>, s: DecState, bc: int) -> Seq<(usize, i16)>
    decreases bc - s.dc_counter, 64 - s.run_counter,
{
    let t = decode_step(data, s);
    if s.run_counter < 0 || s.run_counter >= 64 || t.dc_counter >= bc {
        t.rle
    } else {
        decode_run(data, t, bc)
    }
}

/// The state in which the decoder starts a packet.
pub open spec fn dec_start() -> DecState {
    DecState { pos: 0, run_counter: 0, dc_counter: 0, rle: seq![] }
}

/// The entries that the payload `data` decodes to, `bc` blocks of them.
pub open spec fn huff_decoding_spec(data: Seq<u8>, bc: int) -> Seq<(usize, i16)> {
    decode_run(data, dec_start(), bc)
}

/// The top `n + 1` bits of a word are its top `n` bits followed by bit `n`.
pub proof fn lemma_shr_step(w: u64, n: u64)
    by (bit_vector)
    requires
        1 <= n < 64,
    ensures
        (w >> ((63 - n) as u64)) == 2 * (w >> ((64 - n) as u64)) + ((w >> ((63 - n) as u64)) & 1u64),
        (w >> 63u64) == ((w >> 63u64) & 1u64),
{
}

/// Bit `j` of a word shifted left by `s` is its bit `j + s` (0 past the end).
pub proof fn lemma_shl_bit(w: u64, s: u64, j: u64)
    by (bit_vector)
    requires
        s < 64,
        j < 64,
    ensures
        j + s < 64 ==> (((w << s) >> ((63 - j) as u64)) & 1u64) == ((w >> ((63 - (j + s)) as u64))
            & 1u64),
        j + s >= 64 ==> (((w << s) >> ((63 - j) as u64)) & 1u64) == 0u64,
{
}

/// Shifting a word left by 8 and putting a byte in its low end moves each
/// bit up by 8 and fills the last 8 bits with the byte's bits.
pub proof fn lemma_refill_bit(w: u64, b: u8, j: u64)
    by (bit_vector)
    requires
        j < 64,
    ensures
        j < 56 ==> ((((w << 8u64) | (b as u64)) >> ((63 - j) as u64)) & 1u64) == ((w >> ((63 - (j
            + 8)) as u64)) & 1u64),
        j >= 56 ==> ((((w << 8u64) | (b as u64)) >> ((63 - j) as u64)) & 1u64) == ((b >> ((7 - (j
            - 56)) as u8)) & 1u8) as u64,
        j < 56 ==> (((w << 8u64) >> ((63 - j) as u64)) & 1u64) == ((w >> ((63 - (j + 8)) as u64))
            & 1u64),
        j >= 56 ==> (((w << 8u64) >> ((63 - j) as u64)) & 1u64) == 0u64,
{
}

/// A masked bit is 0 or 1.
pub proof fn lemma_bit_01(w: u64, s: u64)
    by (bit_vector)
    ensures
        ((w >> s) & 1u64) == 0u64 || ((w >> s) & 1u64) == 1u64,
{
}

/// The top `n` bits of a word that holds stream bits from `pos` on are the
/// number that those stream bits form.
pub proof fn lemma_window_value(w: u64, data: Seq<u8>, pos: int, n: nat)
    requires
        1 <= n <= 64,
        forall|j: int| 0 <= j < n ==> #[trigger] bit64(w, j) == stream_bit(data, pos + j),
    ensures
        (w >> ((64 - n) as u64)) as int == stream_val(data, pos, n),
    decreases n,
{
    if n == 1 {
        lemma_shr_step(w, 1);
        assert(bit64(w, 0) == stream_bit(data, pos));
        lemma_bit_01(w, 63);
        assert(stream_val(data, pos, 0) == 0);
    } else {
        lemma_window_value(w, data, pos, (n - 1) as nat);
        lemma_shr_step(w, (n - 1) as u64);
        assert(bit64(w, n - 1) == stream_bit(data, pos + n - 1));
        lemma_bit_01(w, (63 - (n - 1)) as u64);
    }
}

/// Stream values of `n` bits are below `2^n`.
pub proof fn lemma_stream_val_bound(data: Seq<u8>, pos: int, n: nat)
    ensures
        0 <= stream_val(data, pos, n) < pow2(n),
    decreases n,
{
    if n == 0 {
        lemma2_to64();
    } else {
        lemma_stream_val_bound(data, pos, (n - 1) as nat);
        vstd::arithmetic::power2::lemma_pow2_unfold(n);
    }
}

} // verus!
