use vstd::prelude::*;
use vstd::arithmetic::power2::{pow2, lemma2_to64, lemma_pow2_unfold, lemma_pow2_adds, lemma_pow2_pos};
use crate::huffcode::{HuffCode, category_spec, dc_code_spec, ac_code_spec, code_ok, lemma_dc_table_entries, lemma_ac_table_entries, lemma_category_bounds};
use crate::rle::{zrls, enc_ac, enc_block, rle_encoding_spec, rle_decoding_spec, last_block_start, lemma_rle_roundtrip};
use crate::entropy::{value_bits, code_bits, entry_code, encodable, symbol, entry_bits, entries_bits, lemma_value_bits};
use crate::lut::{InvertedHuf, covers, lemma_window_unit, dc_covers, ac_covers, dc_lut_spec, ac_lut_spec, dc_entry, ac_entry, lemma_dc_prefix_free, lemma_ac_prefix_free};
use crate::decoder::{stream_bit, stream_val, shl_i32, decode_value_spec, DecState, dec_entry, decode_step, decode_run, dec_start, huff_decoding_spec, lemma_stream_val_bound};

verus! {

/// The stream holds `bits` from position `pos` on.
pub open spec fn holds_bits(data: Seq<u8>, pos: int, bits: Seq<bool>) -> bool {
    forall|i: int| 0 <= i < bits.len() ==> #[trigger] stream_bit(data, pos + i) == bits[i]
}

/// The coefficient counter of a block after entry `e`, before it is
/// wrapped: 1 after the DC entry, 64 after an end-of-block entry `(0, 0)`,
/// else the zeros and the value counted on.
pub open spec fn counted(rc: int, e: (usize, i16)) -> int {
    if rc == 0 {
        1
    } else if e.0 == 0 && e.1 == 0 {
        64
    } else {
        rc + e.0 + 1
    }
}

/// The entries from `k` on are whole blocks, `bc - dc` of them, the current
/// block having `rc` coefficients already: a DC entry (run 17) exactly where
/// a block starts, and each block ends when its count reaches 64.
pub open spec fn blocks_from(es: Seq<(usize, i16)>, k: int, rc: int, dc: int, bc: int) -> bool
    decreases es.len() - k,
{
    if k >= es.len() {
        rc == 0 && dc == bc
    } else {
        let c = counted(rc, es[k]);
        &&& 0 <= k
        &&& 0 <= rc < 64
        &&& dc < bc
        &&& (rc == 0 <==> es[k].0 == 17)
        &&& blocks_from(es, k + 1, if c >= 64 { 0 } else { c }, if c >= 64 { dc + 1 } else { dc }, bc)
    }
}

/// `es` is `bc` whole blocks of entries.
pub open spec fn whole_blocks(es: Seq<(usize, i16)>, bc: int) -> bool {
    blocks_from(es, 0, 0, 0, bc)
}

/// The stream value of `n + m` bits is that of the first `n` bits shifted by
/// `m` plus that of the next `m` bits.
pub proof fn lemma_stream_val_split(data: Seq<u8>, pos: int, n: nat, m: nat)
    ensures
        stream_val(data, pos, n + m) == stream_val(data, pos, n) * pow2(m) + stream_val(data, pos + n, m),
    decreases m,
{
    if m == 0 {
        lemma2_to64();
        assert(n + m == n);
    } else {
        lemma_stream_val_split(data, pos, n, (m - 1) as nat);
        lemma_pow2_unfold(m);
        let a = stream_val(data, pos, n);
        let p = pow2((m - 1) as nat) as int;
        assert(2 * (a * p) == a * (2 * p)) by (nonlinear_arith);
        assert(((n + m) - 1) as nat == n + (m - 1) as nat);
        assert(pos + (n + m) - 1 == (pos + n) + m - 1);
    }
}

/// A stream that holds the `n`-bit form of `x` has the value `x` there.
pub proof fn lemma_stream_val_code_bits(data: Seq<u8>, pos: int, x: int, n: nat)
    requires
        0 <= x < pow2(n),
        holds_bits(data, pos, code_bits(x, n)),
    ensures
        stream_val(data, pos, n) == x,
    decreases n,
{
    if n == 0 {
        lemma2_to64();
    } else {
        let h = x / 2;
        lemma_pow2_unfold(n);
        assert forall|j: int| 0 <= j < n - 1 implies #[trigger] stream_bit(data, pos + j) == code_bits(h, (n - 1) as nat)[j] by {
            assert(stream_bit(data, pos + j) == code_bits(x, n)[j]);
            let k = (n - 2 - j) as nat;
            lemma_pow2_unfold(k + 1);
            lemma_pow2_pos(k);
            vstd::arithmetic::div_mod::lemma_div_denominator(x, 2, pow2(k) as int);
            assert((n - 1 - j) as nat == k + 1);
        }
        lemma_stream_val_code_bits(data, pos, h, (n - 1) as nat);
        assert(stream_bit(data, pos + (n - 1)) == code_bits(x, n)[n - 1]);
        assert((n - 1 - (n - 1)) as nat == 0);
        lemma2_to64();
    }
}

/// Where the stream holds the bits of an entry's symbol, it holds the code
/// word first and the value bits after it.
pub proof fn lemma_symbol_parts(data: Seq<u8>, pos: int, e: (usize, i16))
    requires
        encodable(e),
        holds_bits(data, pos, entry_bits(e)),
    ensures
        stream_val(data, pos, entry_code(e)->0.len as nat) == entry_code(e)->0.code,
        stream_val(data, pos + entry_code(e)->0.len, category_spec(e.1 as int)) == value_bits(
            e.1 as int,
            category_spec(e.1 as int),
        ),
{
    let h = entry_code(e)->0;
    let cat = category_spec(e.1 as int);
    let vb = value_bits(e.1 as int, cat);
    if e.0 == 17 {
        lemma_dc_table_entries(cat as u8);
    } else {
        lemma_ac_table_entries(e.0 as u8, cat as u8);
    }
    lemma_value_bits(e.1 as int, cat);
    lemma_pow2_pos(cat);
    lemma_pow2_adds(h.len as nat, cat);
    let x = h.code * pow2(cat) + vb;
    assert(x < pow2(h.len as nat) * pow2(cat)) by (nonlinear_arith)
        requires
            x == h.code * pow2(cat) + vb,
            vb < pow2(cat),
            h.code + 1 <= pow2(h.len as nat),
    ;
    assert(0 <= x) by (nonlinear_arith)
        requires
            x == h.code * pow2(cat) + vb,
            0 <= vb,
            0 <= h.code,
            0 < pow2(cat),
    ;
    assert(symbol(e) == (x, (h.len + cat) as nat));
    lemma_stream_val_code_bits(data, pos, x, (h.len + cat) as nat);
    lemma_stream_val_split(data, pos, h.len as nat, cat);
    lemma_stream_val_bound(data, pos + h.len, cat);
    let q = stream_val(data, pos, h.len as nat);
    let r = stream_val(data, pos + h.len, cat);
    vstd::arithmetic::div_mod::lemma_fundamental_div_mod_converse(x, pow2(cat) as int, q, r);
    vstd::arithmetic::div_mod::lemma_fundamental_div_mod_converse(x, pow2(cat) as int, h.code as int, vb);
}

/// A 16-bit window that starts with a code word lies in its range.
pub proof fn lemma_window_covers(data: Seq<u8>, pos: int, h: HuffCode)
    requires
        code_ok(h),
        stream_val(data, pos, h.len as nat) == h.code,
    ensures
        covers(h, stream_val(data, pos, 16)),
{
    lemma_window_unit(h);
    lemma_stream_val_split(data, pos, h.len as nat, (16 - h.len) as nat);
    lemma_stream_val_bound(data, pos + h.len, (16 - h.len) as nat);
    assert(h.len + (16 - h.len) as nat == 16);
}

/// The value bits of a value of category up to 11 decode to the value.
pub proof fn lemma_value_decodes(v: i16)
    requires
        v != i16::MIN,
        category_spec(v as int) <= 11,
    ensures
        decode_value_spec(value_bits(v as int, category_spec(v as int)) as u32, category_spec(v as int) as u8) == v,
{
    let cat = category_spec(v as int);
    lemma_value_bits(v as int, cat);
    lemma2_to64();
    if cat > 0 {
        vstd::arithmetic::power2::lemma_pow2_strictly_increases(cat, 12);
        vstd::arithmetic::power2::lemma_pow2_strictly_increases((cat - 1) as nat, cat);
        assert(shl_i32(cat - 1) == pow2((cat - 1) as nat));
        assert(shl_i32(cat as int) == pow2(cat));
    }
}

/// The DC table holds the entry of a category for every window that starts
/// with its code word.
pub proof fn lemma_dc_lookup(w: int, cat: u8)
    requires
        dc_covers(cat, w),
    ensures
        dc_lut_spec(w) == dc_entry(cat),
{
    let c = choose|c: u8| dc_covers(c, w);
    if c != cat {
        lemma_dc_prefix_free(c, cat);
    }
}

/// The AC table holds the entry of a run and category for every window that
/// starts with its code word.
pub proof fn lemma_ac_lookup(w: int, run: u8, cat: u8)
    requires
        ac_covers(run, cat, w),
    ensures
        ac_lut_spec(w) == ac_entry(run, cat),
{
    let pair = (run, cat);
    assert(ac_covers(pair.0, pair.1, w));
    let rc = choose|rc: (u8, u8)| ac_covers(rc.0, rc.1, w);
    if rc != pair {
        lemma_ac_prefix_free(rc.0, rc.1, run, cat);
    }
}

/// Where the stream holds the bits of an entry's symbol, the decoder looks
/// up the entry's run, category and code length, and the value bits follow
/// the code word.
pub proof fn lemma_entry_lookup(data: Seq<u8>, s: DecState, e: (usize, i16))
    requires
        encodable(e),
        e.0 < 256,
        s.run_counter == 0 <==> e.0 == 17,
        holds_bits(data, s.pos, entry_bits(e)),
    ensures
        e.0 <= 17,
        dec_entry(data, s) == (InvertedHuf {
            run: e.0 as u8,
            cat: category_spec(e.1 as int) as u8,
            huf_len: entry_code(e)->0.len,
        }),
        entry_code(e)->0.len + category_spec(e.1 as int) == entry_bits(e).len(),
        stream_val(data, s.pos + entry_code(e)->0.len, category_spec(e.1 as int)) == value_bits(
            e.1 as int,
            category_spec(e.1 as int),
        ),
{
    let h = entry_code(e)->0;
    let cat = category_spec(e.1 as int);
    lemma_symbol_parts(data, s.pos, e);
    let w = stream_val(data, s.pos, 16);
    if e.0 == 17 {
        lemma_dc_table_entries(cat as u8);
        lemma_window_covers(data, s.pos, h);
        lemma_dc_lookup(w, cat as u8);
    } else {
        lemma_ac_table_entries(e.0 as u8, cat as u8);
        lemma_window_covers(data, s.pos, h);
        lemma_ac_lookup(w, e.0 as u8, cat as u8);
    }
}

/// The decoder reads an entry back from the bits of its symbol: the table
/// entry it looks up is that of the entry's code word, and the value bits
/// decode to the entry's value.
pub proof fn lemma_entry_decodes(data: Seq<u8>, s: DecState, e: (usize, i16))
    requires
        encodable(e),
        e.0 < 256,
        0 <= s.run_counter < 64,
        s.run_counter == 0 <==> e.0 == 17,
        holds_bits(data, s.pos, entry_bits(e)),
    ensures
        ({
            let c = counted(s.run_counter, e);
            decode_step(data, s) == DecState {
                pos: s.pos + entry_bits(e).len(),
                run_counter: if c >= 64 { 0 } else { c },
                dc_counter: if c >= 64 { s.dc_counter + 1 } else { s.dc_counter },
                rle: s.rle.push(e),
            }
        }),
{
    let cat = category_spec(e.1 as int);
    lemma_entry_lookup(data, s, e);
    lemma_value_decodes(e.1);
    lemma_value_bits(e.1 as int, cat);
    assert(cat == 0 <==> e.1 == 0);
}

/// The bits of entries `a..b` are those of entry `a` followed by those of
/// entries `a + 1..b`.
pub proof fn lemma_entries_bits_front(es: Seq<(usize, i16)>, a: int, b: int)
    requires
        a < b,
    ensures
        entries_bits(es, a, b) == entry_bits(es[a]) + entries_bits(es, a + 1, b),
    decreases b - a,
{
    if a + 1 == b {
        assert(entries_bits(es, a, a) =~= Seq::<bool>::empty());
        assert(entries_bits(es, a, b) =~= entry_bits(es[a]) + entries_bits(es, a + 1, b));
    } else {
        lemma_entries_bits_front(es, a, b - 1);
        assert(entries_bits(es, a, b) =~= entry_bits(es[a]) + entries_bits(es, a + 1, b));
    }
}

/// Decoding from a state at which the stream holds the bits of whole blocks
/// of entries reads exactly those entries.
pub proof fn lemma_decode_blocks_from(data: Seq<u8>, es: Seq<(usize, i16)>, k: int, s: DecState, bc: int)
    requires
        0 <= k < es.len(),
        forall|i: int| 0 <= i < es.len() ==> #[trigger] encodable(es[i]),
        forall|i: int| 0 <= i < es.len() ==> #[trigger] es[i].0 < 256,
        blocks_from(es, k, s.run_counter, s.dc_counter, bc),
        holds_bits(data, s.pos, entries_bits(es, k, es.len() as int)),
    ensures
        decode_run(data, s, bc) == s.rle + es.skip(k),
    decreases es.len() - k,
{
    let e = es[k];
    assert(encodable(es[k]) && es[k].0 < 256);
    lemma_entries_bits_front(es, k, es.len() as int);
    let eb = entry_bits(e);
    let rest = entries_bits(es, k + 1, es.len() as int);
    assert(holds_bits(data, s.pos, eb)) by {
        assert forall|i: int| 0 <= i < eb.len() implies #[trigger] stream_bit(data, s.pos + i) == eb[i] by {
            assert((eb + rest)[i] == eb[i]);
        }
    }
    lemma_entry_decodes(data, s, e);
    let t = decode_step(data, s);
    assert(blocks_from(es, k + 1, t.run_counter, t.dc_counter, bc));
    if k + 1 == es.len() {
        assert(t.dc_counter == bc);
        assert(es.skip(k) =~= seq![e]);
    } else {
        assert(holds_bits(data, t.pos, rest)) by {
            assert forall|i: int| 0 <= i < rest.len() implies #[trigger] stream_bit(data, t.pos + i) == rest[i] by {
                assert(stream_bit(data, s.pos + (eb.len() + i)) == (eb + rest)[eb.len() + i]);
                assert(t.pos + i == s.pos + (eb.len() + i));
            }
        }
        assert(t.dc_counter < bc);
        lemma_decode_blocks_from(data, es, k + 1, t, bc);
        assert(es.skip(k) =~= seq![e] + es.skip(k + 1));
        assert(t.rle + es.skip(k + 1) =~= s.rle + es.skip(k));
    }
}

/// Decoding a stream that starts with the bits of `bc` whole blocks of
/// codable entries gives those entries back, whatever follows them.
pub proof fn lemma_decoding_inverts_encoding(data: Seq<u8>, es: Seq<(usize, i16)>, bc: int)
    requires
        bc >= 1,
        forall|i: int| 0 <= i < es.len() ==> #[trigger] encodable(es[i]),
        forall|i: int| 0 <= i < es.len() ==> #[trigger] es[i].0 < 256,
        whole_blocks(es, bc),
        holds_bits(data, 0, entries_bits(es, 0, es.len() as int)),
    ensures
        huff_decoding_spec(data, bc) == es,
{
    lemma_decode_blocks_from(data, es, 0, dec_start(), bc);
    assert(es.skip(0) =~= es);
    assert(Seq::<(usize, i16)>::empty() + es =~= es);
}


/// `es` holds the entries `s` from position `k` on.
pub open spec fn holds_entries(es: Seq<(usize, i16)>, k: int, s: Seq<(usize, i16)>) -> bool {
    &&& 0 <= k
    &&& k + s.len() <= es.len()
    &&& forall|i: int| 0 <= i < s.len() ==> #[trigger] es[k + i] == s[i]
}

/// Coefficients that the tables can code: the first of each block (its DC
/// value) in `(-2048, 2048)`, the others in `(-1024, 1024)`.
pub open spec fn codable_coeffs(v: Seq<i16>) -> bool {
    forall|q: int|
        0 <= q < v.len() ==> if q % 64 == 0 {
            -2048 < #[trigger] v[q] < 2048
        } else {
            -1024 < v[q] < 1024
        }
}

/// The AC table has a code for every run up to 15 with a category from 1 to
/// 10, and for the end of a block `(0, 0)` and sixteen zeros `(15, 0)`.
pub proof fn lemma_ac_code_exists(run: u8, cat: u8)
    requires
        (run <= 15 && 1 <= cat <= 10) || (cat == 0 && (run == 0 || run == 15)),
    ensures
        ac_code_spec(run, cat) is Some,
{
}

/// Values in `(-2^c, 2^c)` have a category of at most `c`.
pub proof fn lemma_category_at_most(x: int, c: nat)
    requires
        1 <= c <= 11,
        -pow2(c) < x < pow2(c),
    ensures
        category_spec(x) <= c,
{
    let a = if x < 0 { -x } else { x };
    lemma_category_bounds(a);
    assert(category_spec(x) == category_spec(a));
    if category_spec(a) > c + 1 {
        vstd::arithmetic::power2::lemma_pow2_strictly_increases(c, (category_spec(a) - 1) as nat);
    }
}

/// Entries of sixteen zeros move the count on by 16 each.
proof fn lemma_zrls_blocks(es: Seq<(usize, i16)>, k: int, n: nat, rc: int, dc: int, bc: int)
    requires
        holds_entries(es, k, zrls(n)),
        1 <= rc,
        rc + 16 * n < 64,
        dc < bc,
        blocks_from(es, k + n, rc + 16 * n, dc, bc),
    ensures
        blocks_from(es, k, rc, dc, bc),
    decreases n,
{
    if n > 0 {
        assert(es[k + 0] == zrls(n)[0]);
        assert(holds_entries(es, k + 1, zrls((n - 1) as nat))) by {
            assert forall|i: int| 0 <= i < n - 1 implies #[trigger] es[k + 1 + i] == zrls((n - 1) as nat)[i] by {
                assert(es[k + (1 + i)] == zrls(n)[1 + i]);
            }
        }
        lemma_zrls_blocks(es, k + 1, (n - 1) as nat, rc + 16, dc, bc);
        assert(k + 1 + (n - 1) == k + n);
    }
}

/// The AC entries of a block from position `p` on, `z` zeros pending, end
/// the block exactly: the count goes from `p - z` to 64.
proof fn lemma_enc_ac_blocks(b: Seq<i16>, p: int, z: nat, es: Seq<(usize, i16)>, k: int, dc: int, bc: int)
    requires
        b.len() == 64,
        1 <= p <= 63,
        z <= p - 1,
        holds_entries(es, k, enc_ac(b, p, z)),
        dc < bc,
        blocks_from(es, k + enc_ac(b, p, z).len(), 0, dc + 1, bc),
    ensures
        blocks_from(es, k, p - z, dc, bc),
    decreases 63 - p,
{
    let ea = enc_ac(b, p, z);
    if p == 63 {
        if b[63] == 0 {
            assert(es[k + 0] == ea[0]);
        } else {
            let zs = zrls(z / 16);
            let e = ((z % 16) as usize, b[63]);
            assert(ea == zs.push(e));
            let j = k + zs.len();
            assert(es[k + zs.len()] == ea[zs.len() as int]);
            assert(holds_entries(es, k, zs)) by {
                assert forall|i: int| 0 <= i < zs.len() implies #[trigger] es[k + i] == zs[i] by {
                    assert(es[k + i] == ea[i]);
                }
            }
            assert(counted(p - z + 16 * (z / 16), e) == 64);
            assert(blocks_from(es, j, p - z + 16 * (z / 16), dc, bc));
            lemma_zrls_blocks(es, k, z / 16, p - z, dc, bc);
        }
    } else if b[p] == 0 {
        lemma_enc_ac_blocks(b, p + 1, z + 1, es, k, dc, bc);
    } else {
        let zs = zrls(z / 16);
        let e = ((z % 16) as usize, b[p]);
        let first = zs.push(e);
        let rest = enc_ac(b, p + 1, 0);
        assert(ea == first + rest);
        let j = k + zs.len();
        assert(holds_entries(es, k + first.len(), rest)) by {
            assert forall|i: int| 0 <= i < rest.len() implies #[trigger] es[k + first.len() + i] == rest[i] by {
                assert(es[k + (first.len() + i)] == ea[first.len() + i]);
            }
        }
        assert(k + first.len() + rest.len() == k + ea.len());
        lemma_enc_ac_blocks(b, p + 1, 0, es, k + first.len(), dc, bc);
        assert(es[k + zs.len()] == ea[zs.len() as int]);
        assert(counted(p - z + 16 * (z / 16), e) == p + 1);
        assert(blocks_from(es, j, p - z + 16 * (z / 16), dc, bc));
        assert(holds_entries(es, k, zs)) by {
            assert forall|i: int| 0 <= i < zs.len() implies #[trigger] es[k + i] == zs[i] by {
                assert(es[k + i] == ea[i]);
            }
        }
        lemma_zrls_blocks(es, k, z / 16, p - z, dc, bc);
    }
}

/// The entries of one block of 64 coefficients are one whole block.
proof fn lemma_enc_block_blocks(b: Seq<i16>, es: Seq<(usize, i16)>, k: int, dc: int, bc: int)
    requires
        b.len() == 64,
        holds_entries(es, k, enc_block(b)),
        dc < bc,
        blocks_from(es, k + enc_block(b).len(), 0, dc + 1, bc),
    ensures
        blocks_from(es, k, 0, dc, bc),
{
    let eb = enc_block(b);
    let ea = enc_ac(b, 1, 0);
    assert(es[k + 0] == eb[0]);
    assert(holds_entries(es, k + 1, ea)) by {
        assert forall|i: int| 0 <= i < ea.len() implies #[trigger] es[k + 1 + i] == ea[i] by {
            assert(es[k + (1 + i)] == eb[1 + i]);
        }
    }
    assert(k + 1 + ea.len() == k + eb.len());
    lemma_enc_ac_blocks(b, 1, 0, es, k + 1, dc, bc);
}

/// The run-length entries of whole blocks of coefficients are whole blocks,
/// one per block of coefficients.
pub proof fn lemma_encoding_blocks(v: Seq<i16>, es: Seq<(usize, i16)>, k: int, dc: int, bc: int)
    requires
        v.len() % 64 == 0,
        holds_entries(es, k, rle_encoding_spec(v)),
        dc + v.len() / 64 <= bc,
        blocks_from(es, k + rle_encoding_spec(v).len(), 0, dc + v.len() / 64, bc),
    ensures
        blocks_from(es, k, 0, dc, bc),
    decreases v.len(),
{
    if v.len() > 0 {
        let m = v.len() - 64;
        assert(last_block_start(v.len() as int) == m);
        let w = v.take(m);
        let b = v.skip(m);
        let ew = rle_encoding_spec(w);
        let eb = enc_block(b);
        assert(rle_encoding_spec(v) == ew + eb);
        assert(holds_entries(es, k + ew.len(), eb)) by {
            assert forall|i: int| 0 <= i < eb.len() implies #[trigger] es[k + ew.len() + i] == eb[i] by {
                assert(es[k + (ew.len() + i)] == (ew + eb)[ew.len() + i]);
            }
        }
        assert(w.len() / 64 + 1 == v.len() / 64);
        assert(k + ew.len() + eb.len() == k + rle_encoding_spec(v).len());
        lemma_enc_block_blocks(b, es, k + ew.len(), dc + w.len() / 64, bc);
        assert(holds_entries(es, k, ew)) by {
            assert forall|i: int| 0 <= i < ew.len() implies #[trigger] es[k + i] == ew[i] by {
                assert(es[k + i] == (ew + eb)[i]);
            }
        }
        lemma_encoding_blocks(w, es, k, dc, bc);
    }
}

/// The AC entries of a block with AC values in `(-1024, 1024)` can be coded,
/// and their runs are at most 15.
proof fn lemma_enc_ac_codable(b: Seq<i16>, p: int, z: nat)
    requires
        b.len() == 64,
        1 <= p <= 63,
        forall|q: int| 1 <= q < 64 ==> -1024 < #[trigger] b[q] < 1024,
    ensures
        forall|i: int| 0 <= i < enc_ac(b, p, z).len() ==> #[trigger] encodable(enc_ac(b, p, z)[i]) && enc_ac(b, p, z)[i].0 <= 15,
    decreases 63 - p,
{
    lemma2_to64();
    lemma_ac_code_exists(15, 0);
    lemma_ac_code_exists(0, 0);
    let zs = zrls(z / 16);
    assert forall|i: int| 0 <= i < zs.len() implies #[trigger] encodable(zs[i]) && zs[i].0 <= 15 by {
        assert(zs[i] == (15usize, 0i16));
    }
    let q = if p == 63 { 63 } else { p };
    if b[q] != 0 {
        lemma_category_at_most(b[q] as int, 10);
        lemma_category_bounds(if b[q] < 0 { -b[q] } else { b[q] as int });
        assert(category_spec(b[q] as int) >= 1);
        lemma_ac_code_exists((z % 16) as u8, category_spec(b[q] as int) as u8);
        let e = ((z % 16) as usize, b[q]);
        assert(encodable(e));
    }
    if p == 63 {
        if b[63] == 0 {
            assert(enc_ac(b, p, z) == seq![(0usize, 0i16)]);
            assert(category_spec(0) == 0);
            assert(encodable((0usize, 0i16)));
            assert forall|i: int| 0 <= i < enc_ac(b, p, z).len() implies #[trigger] encodable(enc_ac(b, p, z)[i]) && enc_ac(b, p, z)[i].0 <= 15 by {
                assert(enc_ac(b, p, z)[i] == (0usize, 0i16));
            }
        } else {
            let e = ((z % 16) as usize, b[63]);
            assert(enc_ac(b, p, z) == zs.push(e));
            assert forall|i: int| 0 <= i < enc_ac(b, p, z).len() implies #[trigger] encodable(enc_ac(b, p, z)[i]) && enc_ac(b, p, z)[i].0 <= 15 by {
                if i < zs.len() {
                    assert(enc_ac(b, p, z)[i] == zs[i]);
                } else {
                    assert(enc_ac(b, p, z)[i] == e);
                }
            }
        }
    } else if b[p] == 0 {
        lemma_enc_ac_codable(b, p + 1, z + 1);
        assert(enc_ac(b, p, z) == enc_ac(b, p + 1, z + 1));
    } else {
        lemma_enc_ac_codable(b, p + 1, 0);
        let first = zs.push(((z % 16) as usize, b[p]));
        let rest = enc_ac(b, p + 1, 0);
        assert(enc_ac(b, p, z) == first + rest);
        assert forall|i: int| 0 <= i < enc_ac(b, p, z).len() implies #[trigger] encodable(enc_ac(b, p, z)[i]) && enc_ac(b, p, z)[i].0 <= 15 by {
            if i < first.len() {
                assert(enc_ac(b, p, z)[i] == first[i]);
            } else {
                assert(enc_ac(b, p, z)[i] == rest[i - first.len()]);
            }
        }
    }
}

/// The entries of whole blocks of codable coefficients can be coded, and
/// their runs fit in a byte.
pub proof fn lemma_encoding_codable(v: Seq<i16>)
    requires
        v.len() % 64 == 0,
        codable_coeffs(v),
    ensures
        forall|i: int| 0 <= i < rle_encoding_spec(v).len() ==> #[trigger] encodable(rle_encoding_spec(v)[i]),
        forall|i: int| 0 <= i < rle_encoding_spec(v).len() ==> #[trigger] rle_encoding_spec(v)[i].0 < 256,
    decreases v.len(),
{
    if v.len() > 0 {
        let m = v.len() - 64;
        assert(last_block_start(v.len() as int) == m);
        let w = v.take(m);
        let b = v.skip(m);
        assert(codable_coeffs(w)) by {
            assert forall|q: int| 0 <= q < w.len() implies (if q % 64 == 0 {
                -2048 < #[trigger] w[q] < 2048
            } else {
                -1024 < w[q] < 1024
            }) by {
                assert(w[q] == v[q]);
            }
        }
        lemma_encoding_codable(w);
        assert forall|q: int| 1 <= q < 64 implies -1024 < #[trigger] b[q] < 1024 by {
            assert(b[q] == v[m + q]);
            assert((m + q) % 64 == q % 64);
        }
        lemma_enc_ac_codable(b, 1, 0);
        assert(b[0] == v[m + 0]);
        assert((m + 0) % 64 == 0);
        lemma2_to64();
        lemma_category_at_most(b[0] as int, 11);
        lemma_dc_table_entries(category_spec(b[0] as int) as u8);
        let ew = rle_encoding_spec(w);
        let eb = enc_block(b);
        assert(rle_encoding_spec(v) == ew + eb);
        assert forall|i: int| #![trigger rle_encoding_spec(v)[i]] 0 <= i < rle_encoding_spec(v).len() implies encodable(rle_encoding_spec(v)[i]) && rle_encoding_spec(v)[i].0 < 256 by {
            if i < ew.len() {
                assert(rle_encoding_spec(v)[i] == ew[i]);
            } else if i == ew.len() {
                assert(rle_encoding_spec(v)[i] == eb[0]);
            } else {
                assert(rle_encoding_spec(v)[i] == eb[i - ew.len()]);
                assert(eb[i - ew.len()] == enc_ac(b, 1, 0)[i - ew.len() - 1]);
            }
        }
    }
}

/// Coding whole blocks of codable coefficients into run-length entries and
/// their symbols, and decoding a stream that starts with those bits, gives
/// back the entries and, run-length decoded, the coefficients.
pub proof fn lemma_codec_roundtrip(v: Seq<i16>, data: Seq<u8>)
    requires
        v.len() >= 64,
        v.len() % 64 == 0,
        codable_coeffs(v),
        holds_bits(data, 0, entries_bits(rle_encoding_spec(v), 0, rle_encoding_spec(v).len() as int)),
    ensures
        huff_decoding_spec(data, v.len() as int / 64) == rle_encoding_spec(v),
        rle_decoding_spec(huff_decoding_spec(data, v.len() as int / 64)) == v,
{
    let es = rle_encoding_spec(v);
    let bc = v.len() as int / 64;
    lemma_encoding_codable(v);
    assert(holds_entries(es, 0, es)) by {
        assert forall|i: int| 0 <= i < es.len() implies #[trigger] es[0 + i] == es[i] by {}
    }
    assert(blocks_from(es, es.len() as int, 0, bc, bc));
    lemma_encoding_blocks(v, es, 0, 0, bc);
    lemma_decoding_inverts_encoding(data, es, bc);
    lemma_rle_roundtrip(v);
}

} // verus!
