use vstd::prelude::*;
use crate::codec_laws::{counted, blocks_from, whole_blocks, holds_bits, lemma_decoding_inverts_encoding, codable_coeffs, holds_entries, lemma_encoding_blocks, lemma_encoding_codable};
use crate::rle::{rle_encoding_spec, rle_decoding_spec, last_block_start, lemma_rle_roundtrip};
use crate::zigzag::{zigzag_spec, inverse_zigzag_spec, zigzag_index, lemma_zigzag_index, lemma_inverse_zigzag_undoes_zigzag};
use crate::layout::resized;
use crate::decoder::huff_decoding_spec;
use crate::reciever::{block_counter, split_planes, entries_below, frame_entries, frame_planes, coeff_plane};
use crate::entropy::{group_end, encodable, entries_bits, entry_bits, entry_code, symbol};
use crate::huffcode::{category_spec, lemma_dc_table_entries, lemma_ac_table_entries, dc_code_spec, ac_code_spec};
use crate::entropy::{nbytes, padded};
use crate::packets::{Packet, SendState, send_run, send_step, round_over, bits_after, state_after_cut, state_after_round, final_packets, send_start, packets_spec, lemma_run_step, lemma_run_done};

verus! {

/// The block counters (coefficients of the current block, blocks finished)
/// after the entries `es[j..q]`, from `(rc, dc)`.
pub open spec fn state_at(es: Seq<(usize, i16)>, j: int, q: int, rc: int, dc: int) -> (int, int)
    decreases q - j,
{
    if j >= q {
        (rc, dc)
    } else {
        let c = counted(rc, es[j]);
        state_at(es, j + 1, q, if c >= 64 { 0 } else { c }, if c >= 64 { dc + 1 } else { dc })
    }
}

/// Whole blocks from `j` on stay whole blocks from any later position, with
/// the counters that the entries in between lead to.
pub proof fn lemma_blocks_advance(es: Seq<(usize, i16)>, j: int, q: int, rc: int, dc: int, nb: int)
    requires
        blocks_from(es, j, rc, dc, nb),
        j <= q <= es.len(),
    ensures
        blocks_from(es, q, state_at(es, j, q, rc, dc).0, state_at(es, j, q, rc, dc).1, nb),
    decreases q - j,
{
    if j < q {
        let c = counted(rc, es[j]);
        lemma_blocks_advance(es, j + 1, q, if c >= 64 { 0 } else { c }, if c >= 64 { dc + 1 } else { dc }, nb);
    }
}

/// Running the counters over `es[a..c]` is running them over `es[a..b]`,
/// then over `es[b..c]`.
proof fn lemma_state_compose(es: Seq<(usize, i16)>, a: int, b: int, c: int, rc: int, dc: int)
    requires
        a <= b <= c,
    ensures
        state_at(es, a, c, rc, dc) == state_at(es, b, c, state_at(es, a, b, rc, dc).0, state_at(es, a, b, rc, dc).1),
    decreases b - a,
{
    if a < b {
        let k = counted(rc, es[a]);
        lemma_state_compose(es, a + 1, b, c, if k >= 64 { 0 } else { k }, if k >= 64 { dc + 1 } else { dc });
    }
}

/// The entries between two block boundaries of whole blocks are whole
/// blocks themselves.
pub proof fn lemma_blocks_restrict(es: Seq<(usize, i16)>, p: int, j: int, q: int, rc: int, dc: int, d: int, e: int, nb: int)
    requires
        0 <= p <= j <= q <= es.len(),
        blocks_from(es, j, rc, dc, nb),
        state_at(es, j, q, rc, dc) == (0int, e),
    ensures
        blocks_from(es.subrange(p, q), j - p, rc, dc - d, e - d),
        dc <= e,
        j < q ==> dc < e,
    decreases q - j,
{
    let seg = es.subrange(p, q);
    if j < q {
        let c = counted(rc, es[j]);
        let rc1 = if c >= 64 { 0 } else { c };
        let dc1 = if c >= 64 { dc + 1 } else { dc };
        lemma_blocks_restrict(es, p, j + 1, q, rc1, dc1, d, e, nb);
        assert(seg[j - p] == es[j]);
        if j + 1 == q {
            assert(state_at(es, j + 1, q, rc1, dc1) == (rc1, dc1));
        }
        assert(rc > 0 || es[j].0 == 17);
        assert(dc < e) by {
            if j + 1 < q {
            } else {
                assert(rc1 == 0);
            }
        }
        assert(j - p + 1 == (j + 1) - p);
    } else {
        assert(seg.len() == q - p);
    }
}

/// Whole blocks from `j` on stay whole blocks after other entries are put
/// in front, the block count raised by the blocks in front.
pub proof fn lemma_blocks_shift(a: Seq<(usize, i16)>, b: Seq<(usize, i16)>, j: int, rc: int, dc: int, ka: int, kb: int)
    requires
        0 <= j,
        blocks_from(b, j, rc, dc, kb),
    ensures
        blocks_from(a + b, a.len() + j, rc, dc + ka, kb + ka),
    decreases b.len() - j,
{
    if j < b.len() {
        let c = counted(rc, b[j]);
        assert((a + b)[a.len() + j] == b[j]);
        lemma_blocks_shift(a, b, j + 1, if c >= 64 { 0 } else { c }, if c >= 64 { dc + 1 } else { dc }, ka, kb);
        assert(a.len() + j + 1 == a.len() + (j + 1));
    }
}

/// Whole blocks followed by whole blocks are whole blocks.
pub proof fn lemma_blocks_join(a: Seq<(usize, i16)>, b: Seq<(usize, i16)>, i: int, rc: int, dc: int, ka: int, kb: int)
    requires
        0 <= i <= a.len(),
        blocks_from(a, i, rc, dc, ka),
        whole_blocks(b, kb),
    ensures
        blocks_from(a + b, i, rc, dc, ka + kb),
    decreases a.len() - i,
{
    if i < a.len() {
        let c = counted(rc, a[i]);
        assert((a + b)[i] == a[i]);
        lemma_blocks_join(a, b, i + 1, if c >= 64 { 0 } else { c }, if c >= 64 { dc + 1 } else { dc }, ka, kb);
    } else {
        lemma_blocks_shift(a, b, 0, 0, 0, ka, kb);
        assert(a.len() + 0 == i);
    }
}


/// Scanning whole blocks for a group of `g` blocks from a block boundary
/// `p` (block `d`) stops at the boundary `g` blocks on, `c` being the DC
/// entries met since `p`.
proof fn lemma_group_scan(es: Seq<(usize, i16)>, p: int, j: int, rc: int, dc: int, c: int, d: int, g: int, nb: int)
    requires
        0 <= p <= j <= es.len(),
        blocks_from(es, j, rc, dc, nb),
        0 <= c <= g,
        c == dc - d + (if rc > 0 { 1int } else { 0int }),
        d + g <= nb,
    ensures
        j <= group_end(es, j, c, g) <= es.len(),
        state_at(es, j, group_end(es, j, c, g), rc, dc) == (0int, d + g),
    decreases es.len() - j,
{
    if j >= es.len() {
    } else if c == g && es[j].0 == 17 {
    } else {
        let e = es[j];
        let k = counted(rc, e);
        let rc1 = if k >= 64 { 0 } else { k };
        let dc1 = if k >= 64 { dc + 1 } else { dc };
        let c1 = if e.0 == 17 { c + 1 } else { c };
        lemma_group_scan(es, p, j + 1, rc1, dc1, c1, d, g, nb);
        assert(group_end(es, j, c, g) == group_end(es, j + 1, c1, g));
    }
}

/// The group of `g` whole blocks from block boundary `p` (block `d`) ends at
/// the boundary of block `d + g`, and its entries are `g` whole blocks.
pub proof fn lemma_group_blocks(es: Seq<(usize, i16)>, p: int, d: int, g: int, nb: int)
    requires
        0 <= p,
        blocks_from(es, p, 0, d, nb),
        1 <= g,
        d + g <= nb,
    ensures
        p < group_end(es, p, 0, g) <= es.len(),
        blocks_from(es, group_end(es, p, 0, g), 0, d + g, nb),
        whole_blocks(es.subrange(p, group_end(es, p, 0, g)), g),
        state_at(es, p, group_end(es, p, 0, g), 0, d) == (0int, d + g),
{
    let q = group_end(es, p, 0, g);
    assert(p < es.len());
    lemma_group_scan(es, p, p, 0, d, 0, d, g, nb);
    assert(q == group_end(es, p + 1, 1, g));
    crate::entropy::lemma_group_end_bounds(es, p + 1, 1, g);
    lemma_blocks_advance(es, p, q, 0, d, nb);
    lemma_blocks_restrict(es, p, p, q, 0, d, d, d + g, nb);
}


/// Entries that the tables can code, with runs that fit in a byte.
pub open spec fn codable_entries(es: Seq<(usize, i16)>) -> bool {
    forall|i: int| #![trigger es[i]] 0 <= i < es.len() ==> encodable(es[i]) && es[i].0 < 256
}

/// A frame's entries as the sender takes them in: `4k` whole luma blocks, at
/// least `k` whole blocks of each chroma plane, all codable.
pub open spec fn frame_ok(y: Seq<(usize, i16)>, cb: Seq<(usize, i16)>, cr: Seq<(usize, i16)>, k: int, ncb: int, ncr: int) -> bool {
    &&& 0 <= k <= ncb
    &&& k <= ncr
    &&& whole_blocks(y, 4 * k)
    &&& whole_blocks(cb, ncb)
    &&& whole_blocks(cr, ncr)
    &&& codable_entries(y)
    &&& codable_entries(cb)
    &&& codable_entries(cr)
}

/// Where round `n` of the sender starts in each plane: a round takes four
/// luma blocks and one block of each chroma plane.
pub open spec fn round_start(y: Seq<(usize, i16)>, cb: Seq<(usize, i16)>, cr: Seq<(usize, i16)>, n: nat) -> (int, int, int)
    decreases n,
{
    if n == 0 {
        (0, 0, 0)
    } else {
        let p = round_start(y, cb, cr, (n - 1) as nat);
        (group_end(y, p.0, 0, 4), group_end(cb, p.1, 0, 1), group_end(cr, p.2, 0, 1))
    }
}

/// The entries of round `n`: its luma blocks, then its Cb block, then its Cr
/// block.
pub open spec fn round_entries(y: Seq<(usize, i16)>, cb: Seq<(usize, i16)>, cr: Seq<(usize, i16)>, n: nat) -> Seq<(usize, i16)> {
    let p = round_start(y, cb, cr, n);
    let q = round_start(y, cb, cr, n + 1);
    y.subrange(p.0, q.0) + cb.subrange(p.1, q.1) + cr.subrange(p.2, q.2)
}

/// The entries of rounds `a..b`, one round after the other.
pub open spec fn rounds_entries(y: Seq<(usize, i16)>, cb: Seq<(usize, i16)>, cr: Seq<(usize, i16)>, a: int, b: int) -> Seq<(usize, i16)>
    decreases b - a,
{
    if b <= a {
        Seq::empty()
    } else {
        rounds_entries(y, cb, cr, a, b - 1) + round_entries(y, cb, cr, (b - 1) as nat)
    }
}

/// Each round starts at a block boundary of each plane: block `4n` of the
/// luma plane and block `n` of each chroma plane.
proof fn lemma_round_start(y: Seq<(usize, i16)>, cb: Seq<(usize, i16)>, cr: Seq<(usize, i16)>, k: int, ncb: int, ncr: int, n: nat)
    requires
        frame_ok(y, cb, cr, k, ncb, ncr),
        n <= k,
    ensures
        0 <= round_start(y, cb, cr, n).0 <= y.len(),
        0 <= round_start(y, cb, cr, n).1 <= cb.len(),
        0 <= round_start(y, cb, cr, n).2 <= cr.len(),
        blocks_from(y, round_start(y, cb, cr, n).0, 0, 4 * (n as int), 4 * k),
        blocks_from(cb, round_start(y, cb, cr, n).1, 0, n as int, ncb),
        blocks_from(cr, round_start(y, cb, cr, n).2, 0, n as int, ncr),
        round_start(y, cb, cr, n).0 < y.len() <==> n < k,
        state_at(y, 0, round_start(y, cb, cr, n).0, 0, 0) == (0int, 4 * (n as int)),
        state_at(cb, 0, round_start(y, cb, cr, n).1, 0, 0) == (0int, n as int),
        state_at(cr, 0, round_start(y, cb, cr, n).2, 0, 0) == (0int, n as int),
    decreases n,
{
    if n > 0 {
        let m = (n - 1) as nat;
        lemma_round_start(y, cb, cr, k, ncb, ncr, m);
        let p = round_start(y, cb, cr, m);
        let q = round_start(y, cb, cr, n);
        lemma_group_blocks(y, p.0, 4 * (m as int), 4, 4 * k);
        lemma_group_blocks(cb, p.1, m as int, 1, ncb);
        lemma_group_blocks(cr, p.2, m as int, 1, ncr);
        assert(4 * m + 4 == 4 * n);
        lemma_state_compose(y, 0, p.0, q.0, 0, 0);
        lemma_state_compose(cb, 0, p.1, q.1, 0, 0);
        lemma_state_compose(cr, 0, p.2, q.2, 0, 0);
    }
    let q = round_start(y, cb, cr, n);
    if q.0 >= y.len() {
        assert(4 * n == 4 * k);
    } else {
        assert(4 * n < 4 * k);
    }
}

/// A round's entries are six whole blocks of codable entries, and the round
/// moves the luma position on.
proof fn lemma_round_entries(y: Seq<(usize, i16)>, cb: Seq<(usize, i16)>, cr: Seq<(usize, i16)>, k: int, ncb: int, ncr: int, n: nat)
    requires
        frame_ok(y, cb, cr, k, ncb, ncr),
        n < k,
    ensures
        whole_blocks(round_entries(y, cb, cr, n), 6),
        codable_entries(round_entries(y, cb, cr, n)),
        round_entries(y, cb, cr, n).len() > 0,
        round_start(y, cb, cr, n).0 < round_start(y, cb, cr, n + 1).0,
{
    lemma_round_start(y, cb, cr, k, ncb, ncr, n);
    let p = round_start(y, cb, cr, n);
    let q = round_start(y, cb, cr, n + 1);
    assert(((n + 1) - 1) as nat == n);
    lemma_group_blocks(y, p.0, 4 * (n as int), 4, 4 * k);
    lemma_group_blocks(cb, p.1, n as int, 1, ncb);
    lemma_group_blocks(cr, p.2, n as int, 1, ncr);
    let sy = y.subrange(p.0, q.0);
    let scb = cb.subrange(p.1, q.1);
    let scr = cr.subrange(p.2, q.2);
    lemma_blocks_join(sy, scb, 0, 0, 0, 4, 1);
    lemma_blocks_join(sy + scb, scr, 0, 0, 0, 5, 1);
    assert forall|i: int| 0 <= i < round_entries(y, cb, cr, n).len() implies #[trigger] encodable(round_entries(y, cb, cr, n)[i]) && round_entries(y, cb, cr, n)[i].0 < 256 by {
        let r = round_entries(y, cb, cr, n);
        if i < sy.len() {
            assert(r[i] == y[p.0 + i]);
        } else if i < sy.len() + scb.len() {
            assert(r[i] == cb[p.1 + (i - sy.len())]);
        } else {
            assert(r[i] == cr[p.2 + (i - sy.len() - scb.len())]);
        }
    }
}

/// Rounds `a..b` are `6(b - a)` whole blocks of codable entries.
proof fn lemma_rounds_entries(y: Seq<(usize, i16)>, cb: Seq<(usize, i16)>, cr: Seq<(usize, i16)>, k: int, ncb: int, ncr: int, a: int, b: int)
    requires
        frame_ok(y, cb, cr, k, ncb, ncr),
        0 <= a <= b <= k,
    ensures
        whole_blocks(rounds_entries(y, cb, cr, a, b), 6 * (b - a)),
        codable_entries(rounds_entries(y, cb, cr, a, b)),
        a < b ==> rounds_entries(y, cb, cr, a, b).len() > 0,
    decreases b - a,
{
    if a < b {
        lemma_rounds_entries(y, cb, cr, k, ncb, ncr, a, b - 1);
        lemma_round_entries(y, cb, cr, k, ncb, ncr, (b - 1) as nat);
        let f = rounds_entries(y, cb, cr, a, b - 1);
        let r = round_entries(y, cb, cr, (b - 1) as nat);
        lemma_blocks_join(f, r, 0, 0, 0, 6 * (b - 1 - a), 6);
        assert(6 * (b - 1 - a) + 6 == 6 * (b - a));
        assert forall|i: int| 0 <= i < (f + r).len() implies #[trigger] encodable((f + r)[i]) && (f + r)[i].0 < 256 by {
            if i < f.len() {
                assert((f + r)[i] == f[i]);
            } else {
                assert((f + r)[i] == r[i - f.len()]);
            }
        }
    } else {
        assert(rounds_entries(y, cb, cr, a, b) =~= Seq::<(usize, i16)>::empty());
    }
}

/// Rounds `a..b` followed by rounds `b..c` are rounds `a..c`.
proof fn lemma_rounds_join(y: Seq<(usize, i16)>, cb: Seq<(usize, i16)>, cr: Seq<(usize, i16)>, a: int, b: int, c: int)
    requires
        a <= b <= c,
    ensures
        rounds_entries(y, cb, cr, a, b) + rounds_entries(y, cb, cr, b, c) == rounds_entries(y, cb, cr, a, c),
    decreases c - b,
{
    if b < c {
        lemma_rounds_join(y, cb, cr, a, b, c - 1);
        assert(rounds_entries(y, cb, cr, a, b) + rounds_entries(y, cb, cr, b, c) =~= rounds_entries(y, cb, cr, a, c));
    } else {
        assert(rounds_entries(y, cb, cr, a, b) + rounds_entries(y, cb, cr, b, c) =~= rounds_entries(y, cb, cr, a, c));
    }
}


/// The bits of all entries of `es`, one after the other.
pub open spec fn all_bits(es: Seq<(usize, i16)>) -> Seq<bool> {
    entries_bits(es, 0, es.len() as int)
}

/// The bits of entries `a..b` depend on those entries only.
proof fn lemma_entries_bits_same(s: Seq<(usize, i16)>, t: Seq<(usize, i16)>, a: int, b: int)
    requires
        forall|i: int| a <= i < b ==> s[i] == t[i],
    ensures
        entries_bits(s, a, b) == entries_bits(t, a, b),
    decreases b - a,
{
    if a < b {
        lemma_entries_bits_same(s, t, a, b - 1);
        assert(s[b - 1] == t[b - 1]);
    }
}

/// The bits of entries `j..q` are the bits of that part of the entries.
proof fn lemma_entries_bits_sub(es: Seq<(usize, i16)>, j: int, q: int)
    requires
        0 <= j <= q <= es.len(),
    ensures
        entries_bits(es, j, q) == all_bits(es.subrange(j, q)),
    decreases q - j,
{
    let sub = es.subrange(j, q);
    if j < q {
        lemma_entries_bits_sub(es, j, q - 1);
        let sub1 = es.subrange(j, q - 1);
        lemma_entries_bits_same(sub1, sub, 0, q - 1 - j);
        assert(sub[q - 1 - j] == es[q - 1]);
        assert(entries_bits(sub, 0, q - j) == entries_bits(sub, 0, q - j - 1) + entry_bits(sub[q - j - 1]));
    } else {
        assert(entries_bits(sub, 0, 0) =~= Seq::<bool>::empty());
    }
}

/// The bits of joined entries are the bits of each part, joined.
proof fn lemma_all_bits_join(a: Seq<(usize, i16)>, b: Seq<(usize, i16)>, m: int)
    requires
        0 <= m <= b.len(),
    ensures
        entries_bits(a + b, 0, a.len() + m) == all_bits(a) + entries_bits(b, 0, m),
    decreases m,
{
    if m > 0 {
        lemma_all_bits_join(a, b, m - 1);
        assert((a + b)[a.len() + m - 1] == b[m - 1]);
        assert(entries_bits(a + b, 0, a.len() + m) == entries_bits(a + b, 0, a.len() + m - 1) + entry_bits((a + b)[a.len() + m - 1]));
        assert(entries_bits(a + b, 0, a.len() + m) =~= all_bits(a) + entries_bits(b, 0, m));
    } else {
        lemma_entries_bits_same(a + b, a, 0, a.len() as int);
        assert(entries_bits(b, 0, 0) =~= Seq::<bool>::empty());
        assert(all_bits(a) + entries_bits(b, 0, 0) =~= all_bits(a));
    }
}

/// No code word of the tables is shorter than two bits.
proof fn lemma_code_len_min(run: u8, cat: u8)
    ensures
        dc_code_spec(cat) is Some ==> dc_code_spec(cat)->0.len >= 2,
        ac_code_spec(run, cat) is Some ==> ac_code_spec(run, cat)->0.len >= 2,
{
}

/// Every codable entry has at least two bits, so codable entries have at
/// least twice as many bits as entries.
proof fn lemma_all_bits_len(es: Seq<(usize, i16)>, m: int)
    requires
        codable_entries(es),
        0 <= m <= es.len(),
    ensures
        entries_bits(es, 0, m).len() >= 2 * m,
    decreases m,
{
    if m > 0 {
        lemma_all_bits_len(es, m - 1);
        let e = es[m - 1];
        assert(encodable(e));
        let cat = category_spec(e.1 as int);
        lemma_code_len_min(e.0 as u8, cat as u8);
        assert(entry_bits(e).len() == symbol(e).1);
    }
}

/// Every block has at least two entries: its DC entry and at least one more.
proof fn lemma_blocks_len(es: Seq<(usize, i16)>, j: int, rc: int, dc: int, g: int)
    requires
        0 <= j <= es.len(),
        blocks_from(es, j, rc, dc, g),
    ensures
        es.len() - j >= 2 * (g - dc) - if rc > 0 { 1int } else { 0int },
    decreases es.len() - j,
{
    if j < es.len() {
        let c = counted(rc, es[j]);
        lemma_blocks_len(es, j + 1, if c >= 64 { 0 } else { c }, if c >= 64 { dc + 1 } else { dc }, g);
    }
}

/// Whole blocks of codable entries whose bits fill fewer than 1400 bytes
/// are fewer than 2800 blocks, so their count fits the 16 bits of a header.
proof fn lemma_block_count_bound(es: Seq<(usize, i16)>, g: int, bits: Seq<bool>)
    requires
        whole_blocks(es, g),
        codable_entries(es),
        bits == all_bits(es),
        nbytes(bits) < 1400,
    ensures
        g <= 65535,
{
    lemma_blocks_len(es, 0, 0, 0, g);
    lemma_all_bits_len(es, es.len() as int);
}

/// A packet that carries the entries `es`: its payload starts with their
/// bits, and they are as many whole blocks of codable entries as its block
/// count says (at least one).
pub open spec fn carries(p: Packet, es: Seq<(usize, i16)>) -> bool {
    &&& p.block_count >= 1
    &&& whole_blocks(es, p.block_count as int)
    &&& codable_entries(es)
    &&& all_bits(es).len() <= p.payload.len()
    &&& forall|i: int| 0 <= i < all_bits(es).len() ==> #[trigger] p.payload[i] == all_bits(es)[i]
}

/// Sequences of entries joined one after the other.
pub open spec fn joined(cs: Seq<Seq<(usize, i16)>>) -> Seq<(usize, i16)>
    decreases cs.len(),
{
    if cs.len() == 0 {
        Seq::empty()
    } else {
        joined(cs.drop_last()) + cs.last()
    }
}

/// A round writes the bits of its entries after the bits already written.
proof fn lemma_round_bits(y: Seq<(usize, i16)>, cb: Seq<(usize, i16)>, cr: Seq<(usize, i16)>, k: int, ncb: int, ncr: int, n: nat, bits: Seq<bool>)
    requires
        frame_ok(y, cb, cr, k, ncb, ncr),
        n < k,
    ensures
        ({
            let p = round_start(y, cb, cr, n);
            let b1 = bits_after(y, p.0, 4, bits);
            let b2 = bits_after(cb, p.1, 1, b1);
            bits_after(cr, p.2, 1, b2) == bits + all_bits(round_entries(y, cb, cr, n))
        }),
{
    lemma_round_start(y, cb, cr, k, ncb, ncr, n);
    let p = round_start(y, cb, cr, n);
    let q = round_start(y, cb, cr, n + 1);
    assert(((n + 1) - 1) as nat == n);
    lemma_group_blocks(y, p.0, 4 * (n as int), 4, 4 * k);
    lemma_group_blocks(cb, p.1, n as int, 1, ncb);
    lemma_group_blocks(cr, p.2, n as int, 1, ncr);
    let sy = y.subrange(p.0, q.0);
    let scb = cb.subrange(p.1, q.1);
    let scr = cr.subrange(p.2, q.2);
    lemma_entries_bits_sub(y, p.0, q.0);
    lemma_entries_bits_sub(cb, p.1, q.1);
    lemma_entries_bits_sub(cr, p.2, q.2);
    lemma_all_bits_join(sy, scb, scb.len() as int);
    lemma_all_bits_join(sy + scb, scr, scr.len() as int);
    let b1 = bits_after(y, p.0, 4, bits);
    let b2 = bits_after(cb, p.1, 1, b1);
    assert(bits_after(cr, p.2, 1, b2) =~= bits + all_bits(round_entries(y, cb, cr, n)));
}

/// The bits of rounds `a..b + 1` are those of rounds `a..b`, then those of
/// round `b`.
proof fn lemma_rounds_bits(y: Seq<(usize, i16)>, cb: Seq<(usize, i16)>, cr: Seq<(usize, i16)>, a: int, b: int)
    requires
        a <= b,
    ensures
        all_bits(rounds_entries(y, cb, cr, a, b + 1)) == all_bits(rounds_entries(y, cb, cr, a, b)) + all_bits(
            round_entries(y, cb, cr, b as nat),
        ),
{
    let f = rounds_entries(y, cb, cr, a, b);
    let r = round_entries(y, cb, cr, b as nat);
    assert(rounds_entries(y, cb, cr, a, b + 1) == f + r);
    lemma_all_bits_join(f, r, r.len() as int);
}

/// The sender never cuts an empty packet: a round that would fill an empty
/// packet makes it give up.
proof fn lemma_no_empty_cut(y: Seq<(usize, i16)>, cb: Seq<(usize, i16)>, cr: Seq<(usize, i16)>, s: SendState, fin: SendState)
    requires
        send_run(y, cb, cr, s) == Some(fin),
        s.y < y.len(),
        s.bits == Seq::<bool>::empty(),
    ensures
        !round_over(y, cb, cr, s),
    decreases 256 - s.fragment_id,
{
    lemma_run_step(y, cb, cr, s, fin);
    if round_over(y, cb, cr, s) {
        let t = state_after_cut(y, cb, cr, s);
        assert(send_step(y, cb, cr, s) == t);
        assert(t.bits =~= Seq::<bool>::empty());
        assert(round_over(y, cb, cr, t) == round_over(y, cb, cr, s));
        lemma_no_empty_cut(y, cb, cr, t, fin);
    }
}

/// The packet cut before round `a0 + m` carries rounds `a0..a0 + m`, and the
/// state after the cut sits at the same round boundary with no bits.
#[verifier::rlimit(30)]
proof fn lemma_cut_step(
    y: Seq<(usize, i16)>,
    cb: Seq<(usize, i16)>,
    cr: Seq<(usize, i16)>,
    k: int,
    ncb: int,
    ncr: int,
    s: SendState,
    a0: int,
    m: int,
    cs: Seq<Seq<(usize, i16)>>,
)
    requires
        frame_ok(y, cb, cr, k, ncb, ncr),
        0 <= a0,
        1 <= m,
        nbytes(s.bits) < 1400,
        a0 + m < k,
        (s.y, s.cb, s.cr) == round_start(y, cb, cr, (a0 + m) as nat),
        s.bits == all_bits(rounds_entries(y, cb, cr, a0, a0 + m)),
        s.block_counter == 6 * m,
        0 <= s.fragment_id <= 255,
        s.fragment_id == s.packets.len(),
        forall|i: int| 0 <= i < s.packets.len() ==> #[trigger] s.packets[i].fragment_id == i,
        cs.len() == s.packets.len(),
        forall|i: int| 0 <= i < s.packets.len() ==> #[trigger] carries(s.packets[i], cs[i]),
        joined(cs) == rounds_entries(y, cb, cr, 0, a0),
    ensures
        ({
            let t = state_after_cut(y, cb, cr, s);
            let cs1 = cs.push(rounds_entries(y, cb, cr, a0, a0 + m));
            &&& (t.y, t.cb, t.cr) == round_start(y, cb, cr, (a0 + m) as nat)
            &&& t.bits == all_bits(rounds_entries(y, cb, cr, a0 + m, a0 + m))
            &&& t.block_counter == 0
            &&& t.fragment_id == t.packets.len()
            &&& forall|i: int| 0 <= i < t.packets.len() ==> #[trigger] t.packets[i].fragment_id == i
            &&& cs1.len() == t.packets.len()
            &&& forall|i: int| 0 <= i < t.packets.len() ==> #[trigger] carries(t.packets[i], cs1[i])
            &&& joined(cs1) == rounds_entries(y, cb, cr, 0, a0 + m)
        }),
{
    let n = (a0 + m) as nat;
    lemma_rounds_entries(y, cb, cr, k, ncb, ncr, a0, a0 + m);
    lemma_rounds_join(y, cb, cr, 0, a0, a0 + m);
    lemma_round_bits(y, cb, cr, k, ncb, ncr, n, s.bits);
    let es = rounds_entries(y, cb, cr, a0, a0 + m);
    lemma_block_count_bound(es, 6 * m, s.bits);
    let t = state_after_cut(y, cb, cr, s);
    let b3 = s.bits + all_bits(round_entries(y, cb, cr, n));
    let p = Packet {
        fragment_id: s.fragment_id as u8,
        block_count: s.block_counter as u16,
        payload: padded(b3).take(8 * nbytes(s.bits) as int),
    };
    assert(t.packets == s.packets.push(p));
    assert(p.block_count == 6 * m);
    assert(carries(p, es)) by {
        assert forall|i: int| 0 <= i < all_bits(es).len() implies #[trigger] p.payload[i] == all_bits(es)[i] by {
            assert(padded(b3)[i] == b3[i]);
        }
    }
    let cs1 = cs.push(es);
    assert(cs1.drop_last() == cs);
    assert forall|i: int| 0 <= i < t.packets.len() implies #[trigger] carries(t.packets[i], cs1[i]) by {
        if i < cs.len() {
            assert(t.packets[i] == s.packets[i]);
        }
    }
    assert forall|i: int| 0 <= i < t.packets.len() implies #[trigger] t.packets[i].fragment_id == i by {
        if i < s.packets.len() {
            assert(t.packets[i] == s.packets[i]);
        }
    }
    assert(rounds_entries(y, cb, cr, a0 + m, a0 + m) =~= Seq::<(usize, i16)>::empty());
    assert(t.bits =~= all_bits(rounds_entries(y, cb, cr, a0 + m, a0 + m)));
}

/// At the end of the run, the last packet (if any bits are left) carries the
/// rounds since the last cut.
proof fn lemma_last_packet(
    y: Seq<(usize, i16)>,
    cb: Seq<(usize, i16)>,
    cr: Seq<(usize, i16)>,
    k: int,
    ncb: int,
    ncr: int,
    s: SendState,
    a0: int,
    cs: Seq<Seq<(usize, i16)>>,
) -> (out: Seq<Seq<(usize, i16)>>)
    requires
        frame_ok(y, cb, cr, k, ncb, ncr),
        0 <= a0 <= k,
        a0 < k ==> nbytes(s.bits) < 1400,
        s.bits == all_bits(rounds_entries(y, cb, cr, a0, k)),
        s.block_counter == 6 * (k - a0),
        0 <= s.fragment_id <= 255,
        s.fragment_id == s.packets.len(),
        forall|i: int| 0 <= i < s.packets.len() ==> #[trigger] s.packets[i].fragment_id == i,
        cs.len() == s.packets.len(),
        forall|i: int| 0 <= i < s.packets.len() ==> #[trigger] carries(s.packets[i], cs[i]),
        joined(cs) == rounds_entries(y, cb, cr, 0, a0),
    ensures
        out.len() == final_packets(s).len(),
        forall|i: int| 0 <= i < out.len() ==> #[trigger] carries(final_packets(s)[i], out[i]),
        forall|i: int| 0 <= i < out.len() ==> #[trigger] final_packets(s)[i].fragment_id == i,
        joined(out) == rounds_entries(y, cb, cr, 0, k),
{
    lemma_rounds_entries(y, cb, cr, k, ncb, ncr, a0, k);
    lemma_rounds_join(y, cb, cr, 0, a0, k);
    let es = rounds_entries(y, cb, cr, a0, k);
    lemma_all_bits_len(es, es.len() as int);
    if a0 < k {
        lemma_block_count_bound(es, 6 * (k - a0), s.bits);
        let p = Packet { fragment_id: s.fragment_id as u8, block_count: s.block_counter as u16, payload: padded(s.bits) };
        assert(final_packets(s) == s.packets.push(p));
        let out = cs.push(es);
        assert(out.drop_last() == cs);
        assert(carries(p, es));
        assert forall|i: int| 0 <= i < out.len() implies #[trigger] carries(final_packets(s)[i], out[i]) by {
            if i < cs.len() {
                assert(final_packets(s)[i] == s.packets[i]);
            }
        }
        assert forall|i: int| 0 <= i < out.len() implies #[trigger] final_packets(s)[i].fragment_id == i by {
            if i < cs.len() {
                assert(final_packets(s)[i] == s.packets[i]);
            }
        }
        out
    } else {
        assert(es =~= Seq::<(usize, i16)>::empty());
        assert(s.bits =~= Seq::<bool>::empty());
        assert(final_packets(s) == s.packets);
        assert(rounds_entries(y, cb, cr, 0, a0) + Seq::<(usize, i16)>::empty() =~= rounds_entries(y, cb, cr, 0, a0));
        cs
    }
}

/// From any state of the sender's run that sits at a round boundary with the
/// bits of the rounds since the last cut, every packet it cuts carries whole
/// rounds, the fragment numbers count up from 0, and the packets' rounds,
/// joined, are all the rounds of the frame.
#[verifier::rlimit(40)]
proof fn lemma_run_carries(
    y: Seq<(usize, i16)>,
    cb: Seq<(usize, i16)>,
    cr: Seq<(usize, i16)>,
    k: int,
    ncb: int,
    ncr: int,
    s: SendState,
    fin: SendState,
    a0: int,
    m: int,
    cs: Seq<Seq<(usize, i16)>>,
) -> (out: Seq<Seq<(usize, i16)>>)
    requires
        frame_ok(y, cb, cr, k, ncb, ncr),
        send_run(y, cb, cr, s) == Some(fin),
        0 <= a0,
        0 <= m,
        a0 + m <= k,
        (s.y, s.cb, s.cr) == round_start(y, cb, cr, (a0 + m) as nat),
        s.bits == all_bits(rounds_entries(y, cb, cr, a0, a0 + m)),
        s.block_counter == 6 * m,
        m > 0 ==> nbytes(s.bits) < 1400,
        s.fragment_id == s.packets.len(),
        forall|i: int| 0 <= i < s.packets.len() ==> #[trigger] s.packets[i].fragment_id == i,
        cs.len() == s.packets.len(),
        forall|i: int| 0 <= i < s.packets.len() ==> #[trigger] carries(s.packets[i], cs[i]),
        joined(cs) == rounds_entries(y, cb, cr, 0, a0),
    ensures
        out.len() == final_packets(fin).len(),
        forall|i: int| 0 <= i < out.len() ==> #[trigger] carries(final_packets(fin)[i], out[i]),
        forall|i: int| 0 <= i < out.len() ==> #[trigger] final_packets(fin)[i].fragment_id == i,
        joined(out) == rounds_entries(y, cb, cr, 0, k),
    decreases y.len() - s.y, 256 - s.fragment_id,
{
    let n = (a0 + m) as nat;
    lemma_round_start(y, cb, cr, k, ncb, ncr, n);
    if s.y >= y.len() {
        lemma_run_done(y, cb, cr, s, fin);
        assert(a0 + m == k);
        if s.fragment_id > 255 {
            reveal(send_run);
        }
        lemma_last_packet(y, cb, cr, k, ncb, ncr, s, a0, cs)
    } else {
        lemma_run_step(y, cb, cr, s, fin);
        lemma_round_bits(y, cb, cr, k, ncb, ncr, n, s.bits);
        lemma_rounds_bits(y, cb, cr, a0, a0 + m);
        let t = send_step(y, cb, cr, s);
        if round_over(y, cb, cr, s) {
            if m == 0 {
                assert(rounds_entries(y, cb, cr, a0, a0 + m) =~= Seq::<(usize, i16)>::empty());
                assert(s.bits =~= Seq::<bool>::empty());
                lemma_no_empty_cut(y, cb, cr, s, fin);
            }
            lemma_cut_step(y, cb, cr, k, ncb, ncr, s, a0, m, cs);
            lemma_run_carries(y, cb, cr, k, ncb, ncr, t, fin, a0 + m, 0, cs.push(rounds_entries(y, cb, cr, a0, a0 + m)))
        } else {
            assert(t == state_after_round(y, cb, cr, s));
            assert(((n + 1) - 1) as nat == n);
            assert(t.y > s.y);
            crate::entropy::lemma_group_end_bounds(y, s.y, 0, 4);
            assert((t.y, t.cb, t.cr) == round_start(y, cb, cr, (a0 + m + 1) as nat));
            lemma_round_start(y, cb, cr, k, ncb, ncr, n);
            lemma_group_blocks(cr, s.cr, n as int, 1, ncr);
            assert(nbytes(t.bits) < 1400);
            lemma_run_carries(y, cb, cr, k, ncb, ncr, t, fin, a0, m + 1, cs)
        }
    }
}


/// The entries that the payloads `datas` of the packets `ps` decode to, each
/// with its packet's block count, joined in order.
pub open spec fn decoded_packets(datas: Seq<Seq<u8>>, ps: Seq<Packet>) -> Seq<(usize, i16)>
    decreases ps.len(),
{
    if ps.len() == 0 {
        Seq::empty()
    } else {
        decoded_packets(datas, ps.drop_last()) + huff_decoding_spec(
            datas[ps.len() - 1],
            ps.last().block_count as int,
        )
    }
}

/// A stream that holds a packet's payload decodes, with the packet's block
/// count, to the entries that the packet carries.
proof fn lemma_packet_decodes(data: Seq<u8>, p: Packet, es: Seq<(usize, i16)>)
    requires
        carries(p, es),
        holds_bits(data, 0, p.payload),
    ensures
        huff_decoding_spec(data, p.block_count as int) == es,
{
    assert forall|i: int| 0 <= i < all_bits(es).len() implies #[trigger] crate::decoder::stream_bit(data, 0 + i) == all_bits(es)[i] by {
        assert(crate::decoder::stream_bit(data, 0 + i) == p.payload[i]);
    }
    assert forall|i: int| 0 <= i < es.len() implies #[trigger] encodable(es[i]) by {
        assert(encodable(es[i]) && es[i].0 < 256);
    }
    assert forall|i: int| 0 <= i < es.len() implies #[trigger] es[i].0 < 256 by {
        assert(encodable(es[i]) && es[i].0 < 256);
    }
    lemma_decoding_inverts_encoding(data, es, p.block_count as int);
}

/// Cutting a frame of `4k` whole luma blocks and at least `k` whole blocks
/// of each chroma plane into packets, and decoding each packet's payload
/// with the block count in its header, gives back the frame's rounds (four
/// luma blocks, one Cb block, one Cr block each) in fragment order; the
/// fragment numbers count up from 0.
pub proof fn lemma_packets_decode(
    y: Seq<(usize, i16)>,
    cb: Seq<(usize, i16)>,
    cr: Seq<(usize, i16)>,
    k: int,
    ncb: int,
    ncr: int,
    datas: Seq<Seq<u8>>,
)
    requires
        frame_ok(y, cb, cr, k, ncb, ncr),
        packets_spec(y, cb, cr) is Some,
        datas.len() == packets_spec(y, cb, cr)->0.len(),
        forall|i: int| 0 <= i < datas.len() ==> holds_bits(#[trigger] datas[i], 0, packets_spec(y, cb, cr)->0[i].payload),
    ensures
        forall|i: int| 0 <= i < datas.len() ==> #[trigger] packets_spec(y, cb, cr)->0[i].fragment_id == i,
        decoded_packets(datas, packets_spec(y, cb, cr)->0) == rounds_entries(y, cb, cr, 0, k),
{
    let fin = send_run(y, cb, cr, send_start())->0;
    let ps = packets_spec(y, cb, cr)->0;
    assert(ps == final_packets(fin));
    assert(rounds_entries(y, cb, cr, 0, 0) =~= Seq::<(usize, i16)>::empty());
    assert(all_bits(Seq::<(usize, i16)>::empty()) =~= Seq::<bool>::empty());
    assert(joined(Seq::<Seq<(usize, i16)>>::empty()) =~= Seq::<(usize, i16)>::empty());
    let out = lemma_run_carries(y, cb, cr, k, ncb, ncr, send_start(), fin, 0, 0, Seq::empty());
    lemma_decoded_prefix(datas, ps, out, ps.len() as int);
    assert(ps.take(ps.len() as int) == ps);
    assert(out.take(out.len() as int) == out);
}

/// The first `j` packets decode to the first `j` carried entry sequences,
/// joined.
proof fn lemma_decoded_prefix(datas: Seq<Seq<u8>>, ps: Seq<Packet>, out: Seq<Seq<(usize, i16)>>, j: int)
    requires
        0 <= j <= ps.len(),
        out.len() == ps.len(),
        datas.len() == ps.len(),
        forall|i: int| 0 <= i < out.len() ==> #[trigger] carries(ps[i], out[i]),
        forall|i: int| 0 <= i < datas.len() ==> holds_bits(#[trigger] datas[i], 0, ps[i].payload),
    ensures
        decoded_packets(datas, ps.take(j)) == joined(out.take(j)),
    decreases j,
{
    if j > 0 {
        lemma_decoded_prefix(datas, ps, out, j - 1);
        assert(ps.take(j).drop_last() == ps.take(j - 1));
        assert(out.take(j).drop_last() == out.take(j - 1));
        assert(carries(ps[j - 1], out[j - 1]));
        assert(holds_bits(datas[j - 1], 0, ps[j - 1].payload));
        lemma_packet_decodes(datas[j - 1], ps[j - 1], out[j - 1]);
    } else {
        assert(ps.take(0).len() == 0);
        assert(out.take(0).len() == 0);
    }
}


/// The number of DC entries (run 17) of `es`.
pub open spec fn dcs(es: Seq<(usize, i16)>) -> int
    decreases es.len(),
{
    if es.len() == 0 {
        0
    } else {
        dcs(es.drop_last()) + if es.last().0 == 17 { 1int } else { 0int }
    }
}

/// The receiver's block counter after `es` goes round 1 to 6 with the DC
/// entries.
proof fn lemma_block_counter_dcs(es: Seq<(usize, i16)>)
    ensures
        dcs(es) >= 0,
        block_counter(es) == if dcs(es) == 0 { 0 } else { (dcs(es) - 1) % 6 + 1 },
    decreases es.len(),
{
    if es.len() > 0 {
        lemma_block_counter_dcs(es.drop_last());
    }
}

/// The DC entries of joined entries are those of both parts.
proof fn lemma_dcs_join(a: Seq<(usize, i16)>, b: Seq<(usize, i16)>)
    ensures
        dcs(a + b) == dcs(a) + dcs(b),
    decreases b.len(),
{
    if b.len() == 0 {
        assert(a + b =~= a);
    } else {
        lemma_dcs_join(a, b.drop_last());
        assert((a + b).drop_last() =~= a + b.drop_last());
    }
}

/// The counters after `es[a..q + 1]` are those after `es[a..q]` moved on by
/// entry `q`.
proof fn lemma_state_at_step(es: Seq<(usize, i16)>, a: int, q: int, rc: int, dc: int)
    requires
        a <= q,
    ensures
        ({
            let st = state_at(es, a, q, rc, dc);
            let c = counted(st.0, es[q]);
            state_at(es, a, q + 1, rc, dc) == (if c >= 64 { 0int } else { c }, if c >= 64 { st.1 + 1 } else { st.1 })
        }),
    decreases q - a,
{
    if a < q {
        let c = counted(rc, es[a]);
        lemma_state_at_step(es, a + 1, q, if c >= 64 { 0 } else { c }, if c >= 64 { dc + 1 } else { dc });
    } else {
        let c = counted(rc, es[q]);
        let r1 = if c >= 64 { 0int } else { c };
        let d1 = if c >= 64 { dc + 1 } else { dc };
        assert(state_at(es, q + 1, q + 1, r1, d1) == (r1, d1));
    }
}

/// In `g` whole blocks, the first `j` entries hold as many DC entries as
/// blocks started: at least one once `j > 0`, at most `g`, and all `g` at
/// the end.
proof fn lemma_whole_dcs(es: Seq<(usize, i16)>, g: int, j: int)
    requires
        whole_blocks(es, g),
        0 <= j <= es.len(),
    ensures
        ({
            let st = state_at(es, 0, j, 0, 0);
            &&& dcs(es.take(j)) == st.1 + if st.0 > 0 { 1int } else { 0int }
            &&& 0 <= st.1
            &&& st.0 > 0 ==> st.1 < g
            &&& blocks_from(es, j, st.0, st.1, g)
        }),
        j > 0 ==> 1 <= dcs(es.take(j)),
        dcs(es.take(j)) <= g,
        j == es.len() ==> dcs(es.take(j)) == g,
    decreases j,
{
    lemma_blocks_advance(es, 0, j, 0, 0, g);
    if j > 0 {
        lemma_whole_dcs(es, g, j - 1);
        lemma_state_at_step(es, 0, j - 1, 0, 0);
        assert(es.take(j).drop_last() =~= es.take(j - 1));
        assert(es.take(j).last() == es[j - 1]);
        let st0 = state_at(es, 0, j - 1, 0, 0);
        lemma_blocks_advance(es, 0, j - 1, 0, 0, g);
    } else {
        assert(es.take(0) =~= Seq::<(usize, i16)>::empty());
    }
    let st = state_at(es, 0, j, 0, 0);
    if j == es.len() {
        assert(st.0 == 0 && st.1 == g);
    }
}

/// Splitting a frame's entries takes a round, after whole rounds, apart
/// again: its luma blocks go to the luma plane, its Cb block to Cb and its
/// Cr block to Cr.
proof fn lemma_split_round(a: Seq<(usize, i16)>, ys: Seq<(usize, i16)>, cbs: Seq<(usize, i16)>, crs: Seq<(usize, i16)>, j: int)
    requires
        dcs(a) % 6 == 0,
        whole_blocks(ys, 4),
        whole_blocks(cbs, 1),
        whole_blocks(crs, 1),
        0 <= j <= ys.len() + cbs.len() + crs.len(),
    ensures
        ({
            let b = ys + cbs + crs;
            let p = split_planes(a);
            let ny = if j < ys.len() { j } else { ys.len() as int };
            let ncb = if j < ys.len() { 0 } else if j < ys.len() + cbs.len() { j - ys.len() } else { cbs.len() as int };
            let ncr = if j < ys.len() + cbs.len() { 0 } else { j - ys.len() - cbs.len() };
            split_planes(a + b.take(j)) == (p.0 + ys.take(ny), p.1 + cbs.take(ncb), p.2 + crs.take(ncr))
        }),
    decreases j,
{
    let b = ys + cbs + crs;
    if j == 0 {
        assert(a + b.take(0) =~= a);
        assert(ys.take(0) =~= Seq::<(usize, i16)>::empty());
        assert(cbs.take(0) =~= Seq::<(usize, i16)>::empty());
        assert(crs.take(0) =~= Seq::<(usize, i16)>::empty());
        let p = split_planes(a);
        assert(p.0 + ys.take(0) =~= p.0);
        assert(p.1 + cbs.take(0) =~= p.1);
        assert(p.2 + crs.take(0) =~= p.2);
    } else {
        lemma_split_round(a, ys, cbs, crs, j - 1);
        let s = a + b.take(j);
        assert(s.drop_last() =~= a + b.take(j - 1));
        assert(s.last() == b[j - 1]);
        lemma_block_counter_dcs(s);
        lemma_block_counter_dcs(a);
        lemma_dcs_join(a, b.take(j));
        let d = dcs(b.take(j));
        if j <= ys.len() {
            lemma_whole_dcs(ys, 4, j);
            assert(b.take(j) =~= ys.take(j));
            assert(b[j - 1] == ys[j - 1]);
            assert(1 <= d <= 4);
            assert(ys.take(j) =~= ys.take(j - 1).push(ys[j - 1]));
        } else if j <= ys.len() + cbs.len() {
            let jj = j - ys.len();
            lemma_whole_dcs(ys, 4, ys.len() as int);
            lemma_whole_dcs(cbs, 1, jj);
            assert(ys.take(ys.len() as int) =~= ys);
            assert(b.take(j) =~= ys + cbs.take(jj));
            lemma_dcs_join(ys, cbs.take(jj));
            assert(d == 5);
            assert(b[j - 1] == cbs[jj - 1]);
            assert(cbs.take(jj) =~= cbs.take(jj - 1).push(cbs[jj - 1]));
        } else {
            let jj = j - ys.len() - cbs.len();
            lemma_whole_dcs(ys, 4, ys.len() as int);
            lemma_whole_dcs(cbs, 1, cbs.len() as int);
            lemma_whole_dcs(crs, 1, jj);
            assert(ys.take(ys.len() as int) =~= ys);
            assert(cbs.take(cbs.len() as int) =~= cbs);
            assert(b.take(j) =~= (ys + cbs) + crs.take(jj));
            lemma_dcs_join(ys, cbs);
            lemma_dcs_join(ys + cbs, crs.take(jj));
            assert(d == 6);
            assert(b[j - 1] == crs[jj - 1]);
            assert(crs.take(jj) =~= crs.take(jj - 1).push(crs[jj - 1]));
        }
        assert((dcs(a) + d - 1) % 6 == (d - 1) % 6);
        let p = split_planes(a);
        let q = split_planes(a + b.take(j - 1));
        assert(split_planes(s) == (if block_counter(s) <= 4 {
            (q.0.push(b[j - 1]), q.1, q.2)
        } else if block_counter(s) == 5 {
            (q.0, q.1.push(b[j - 1]), q.2)
        } else {
            (q.0, q.1, q.2.push(b[j - 1]))
        }));
        if j <= ys.len() {
            assert(block_counter(s) == d);
            assert(p.0 + ys.take(j) =~= (p.0 + ys.take(j - 1)).push(ys[j - 1]));
        } else if j <= ys.len() + cbs.len() {
            let jj = j - ys.len();
            assert(block_counter(s) == 5);
            assert(p.1 + cbs.take(jj) =~= (p.1 + cbs.take(jj - 1)).push(cbs[jj - 1]));
            if j - 1 < ys.len() {
                assert(cbs.take(0) =~= Seq::<(usize, i16)>::empty());
                assert(p.1 + cbs.take(0) =~= p.1);
            }
        } else {
            let jj = j - ys.len() - cbs.len();
            assert(block_counter(s) == 6);
            assert(p.2 + crs.take(jj) =~= (p.2 + crs.take(jj - 1)).push(crs[jj - 1]));
            if j - 1 < ys.len() + cbs.len() {
                assert(crs.take(0) =~= Seq::<(usize, i16)>::empty());
                assert(p.2 + crs.take(0) =~= p.2);
            }
        }
    }
}


/// Splitting the entries of the first `n` rounds gives back the luma and
/// chroma entries as far as those rounds reached.
proof fn lemma_split_rounds(y: Seq<(usize, i16)>, cb: Seq<(usize, i16)>, cr: Seq<(usize, i16)>, k: int, ncb: int, ncr: int, n: nat)
    requires
        frame_ok(y, cb, cr, k, ncb, ncr),
        n <= k,
    ensures
        split_planes(rounds_entries(y, cb, cr, 0, n as int)) == (
            y.take(round_start(y, cb, cr, n).0),
            cb.take(round_start(y, cb, cr, n).1),
            cr.take(round_start(y, cb, cr, n).2),
        ),
        dcs(rounds_entries(y, cb, cr, 0, n as int)) == 6 * n,
    decreases n,
{
    if n == 0 {
        assert(rounds_entries(y, cb, cr, 0, 0) =~= Seq::<(usize, i16)>::empty());
        assert(y.take(0) =~= Seq::<(usize, i16)>::empty());
        assert(cb.take(0) =~= Seq::<(usize, i16)>::empty());
        assert(cr.take(0) =~= Seq::<(usize, i16)>::empty());
    } else {
        let m = (n - 1) as nat;
        lemma_split_rounds(y, cb, cr, k, ncb, ncr, m);
        lemma_round_start(y, cb, cr, k, ncb, ncr, m);
        let p = round_start(y, cb, cr, m);
        let q = round_start(y, cb, cr, n);
        lemma_group_blocks(y, p.0, 4 * (m as int), 4, 4 * k);
        lemma_group_blocks(cb, p.1, m as int, 1, ncb);
        lemma_group_blocks(cr, p.2, m as int, 1, ncr);
        let ys = y.subrange(p.0, q.0);
        let cbs = cb.subrange(p.1, q.1);
        let crs = cr.subrange(p.2, q.2);
        let a = rounds_entries(y, cb, cr, 0, m as int);
        let b = ys + cbs + crs;
        assert(round_entries(y, cb, cr, m) == b);
        assert(rounds_entries(y, cb, cr, 0, n as int) == a + b);
        assert(dcs(a) % 6 == 0);
        lemma_split_round(a, ys, cbs, crs, b.len() as int);
        assert(b.take(b.len() as int) =~= b);
        assert(ys.take(ys.len() as int) =~= ys);
        assert(cbs.take(cbs.len() as int) =~= cbs);
        assert(crs.take(crs.len() as int) =~= crs);
        assert(y.take(p.0) + ys =~= y.take(q.0));
        assert(cb.take(p.1) + cbs =~= cb.take(q.1));
        assert(cr.take(p.2) + crs =~= cr.take(q.2));
        lemma_whole_dcs(ys, 4, ys.len() as int);
        lemma_whole_dcs(cbs, 1, cbs.len() as int);
        lemma_whole_dcs(crs, 1, crs.len() as int);
        lemma_dcs_join(ys, cbs);
        lemma_dcs_join(ys + cbs, crs);
        lemma_dcs_join(a, b);
    }
}

/// The receiver's split of a frame's rounds gives back the sender's luma
/// entries, and the chroma entries of the first `k` blocks of each chroma
/// plane.
pub proof fn lemma_rounds_split(y: Seq<(usize, i16)>, cb: Seq<(usize, i16)>, cr: Seq<(usize, i16)>, k: int, ncb: int, ncr: int)
    requires
        frame_ok(y, cb, cr, k, ncb, ncr),
    ensures
        split_planes(rounds_entries(y, cb, cr, 0, k)) == (
            y,
            cb.take(round_start(y, cb, cr, k as nat).1),
            cr.take(round_start(y, cb, cr, k as nat).2),
        ),
        whole_blocks(cb.take(round_start(y, cb, cr, k as nat).1), k),
        whole_blocks(cr.take(round_start(y, cb, cr, k as nat).2), k),
{
    lemma_split_rounds(y, cb, cr, k, ncb, ncr, k as nat);
    lemma_round_start(y, cb, cr, k, ncb, ncr, k as nat);
    let q = round_start(y, cb, cr, k as nat);
    assert(y.take(q.0) =~= y);
    lemma_blocks_advance(cb, 0, q.1, 0, 0, ncb);
    lemma_blocks_advance(cr, 0, q.2, 0, 0, ncr);
    lemma_blocks_restrict(cb, 0, 0, q.1, 0, 0, 0, k, ncb);
    lemma_blocks_restrict(cr, 0, 0, q.2, 0, 0, 0, k, ncr);
    assert(cb.subrange(0, q.1) =~= cb.take(q.1));
    assert(cr.subrange(0, q.2) =~= cr.take(q.2));
}


/// The fragments that the receiver files for a frame once every packet's
/// payload has arrived: fragment `f` holds what packet `f`'s payload decodes
/// to with its block count.
pub open spec fn received_fragments(datas: Seq<Seq<u8>>, ps: Seq<Packet>) -> Map<u8, Seq<(usize, i16)>> {
    Map::new(
        |f: u8| (f as int) < ps.len(),
        |f: u8| huff_decoding_spec(datas[f as int], ps[f as int].block_count as int),
    )
}

/// The receiver joins the fragments in fragment order.
proof fn lemma_fragments_joined(datas: Seq<Seq<u8>>, ps: Seq<Packet>, j: int)
    requires
        ps.len() <= 256,
        0 <= j <= 256,
    ensures
        entries_below(received_fragments(datas, ps), j) == decoded_packets(
            datas,
            ps.take(if j < ps.len() { j } else { ps.len() as int }),
        ),
    decreases j,
{
    let frags = received_fragments(datas, ps);
    if j > 0 {
        lemma_fragments_joined(datas, ps, j - 1);
        let f = (j - 1) as u8;
        assert(f as int == j - 1);
        if j <= ps.len() {
            assert(frags.contains_key(f));
            assert(ps.take(j).drop_last() =~= ps.take(j - 1));
            assert(ps.take(j).last() == ps[j - 1]);
        } else {
            assert(!frags.contains_key(f));
            assert(entries_below(frags, j) =~= entries_below(frags, j - 1));
        }
    } else {
        assert(ps.take(0).len() == 0);
    }
}

/// All the packets of a frame, filed by fragment number in whatever order
/// they arrive, make up the sender's planes again: the receiver's split of
/// their joined entries is the luma entries and the entries of the first `k`
/// blocks of each chroma plane, and the frame's coefficient planes are
/// decoded from those.
pub proof fn lemma_frame_roundtrip(
    y: Seq<(usize, i16)>,
    cb: Seq<(usize, i16)>,
    cr: Seq<(usize, i16)>,
    k: int,
    ncb: int,
    ncr: int,
    datas: Seq<Seq<u8>>,
)
    requires
        frame_ok(y, cb, cr, k, ncb, ncr),
        packets_spec(y, cb, cr) is Some,
        datas.len() == packets_spec(y, cb, cr)->0.len(),
        forall|i: int| 0 <= i < datas.len() ==> holds_bits(#[trigger] datas[i], 0, packets_spec(y, cb, cr)->0[i].payload),
    ensures
        packets_spec(y, cb, cr)->0.len() <= 256,
        ({
            let ps = packets_spec(y, cb, cr)->0;
            let q = round_start(y, cb, cr, k as nat);
            &&& split_planes(frame_entries(received_fragments(datas, ps))) == (y, cb.take(q.1), cr.take(q.2))
            &&& frame_planes(received_fragments(datas, ps)) == (
                coeff_plane(y, 2073600),
                coeff_plane(cr.take(q.2), 518400),
                coeff_plane(cb.take(q.1), 518400),
            )
        }),
{
    let ps = packets_spec(y, cb, cr)->0;
    lemma_packets_decode(y, cb, cr, k, ncb, ncr, datas);
    if ps.len() > 256 {
        assert(ps[256].fragment_id == 256);
    }
    lemma_fragments_joined(datas, ps, 256);
    assert(ps.take(ps.len() as int) =~= ps);
    lemma_rounds_split(y, cb, cr, k, ncb, ncr);
}


/// The counters after `es[a..q]` depend on those entries only.
proof fn lemma_state_same(s: Seq<(usize, i16)>, t: Seq<(usize, i16)>, a: int, q: int, rc: int, dc: int)
    requires
        forall|i: int| a <= i < q ==> s[i] == t[i],
    ensures
        state_at(s, a, q, rc, dc) == state_at(t, a, q, rc, dc),
    decreases q - a,
{
    if a < q {
        assert(s[a] == t[a]);
        let c = counted(rc, s[a]);
        lemma_state_same(s, t, a + 1, q, if c >= 64 { 0 } else { c }, if c >= 64 { dc + 1 } else { dc });
    }
}

/// In whole blocks, the boundary of each block is at one position only.
proof fn lemma_boundary_unique(es: Seq<(usize, i16)>, p1: int, p2: int, j: int, nb: int)
    requires
        whole_blocks(es, nb),
        0 <= p1 <= es.len(),
        0 <= p2 <= es.len(),
        state_at(es, 0, p1, 0, 0) == (0int, j),
        state_at(es, 0, p2, 0, 0) == (0int, j),
    ensures
        p1 == p2,
{
    if p1 < p2 {
        lemma_blocks_advance(es, 0, p1, 0, 0, nb);
        lemma_state_compose(es, 0, p1, p2, 0, 0);
        lemma_blocks_restrict(es, p1, p1, p2, 0, j, j, j, nb);
    } else if p2 < p1 {
        lemma_blocks_advance(es, 0, p2, 0, 0, nb);
        lemma_state_compose(es, 0, p2, p1, 0, 0);
        lemma_blocks_restrict(es, p2, p2, p1, 0, j, j, j, nb);
    }
}

/// The entries of the first `j` blocks of a vector of whole blocks start the
/// entries of the whole vector.
proof fn lemma_encoding_prefix(v: Seq<i16>, j: int)
    requires
        v.len() % 64 == 0,
        0 <= 64 * j <= v.len(),
    ensures
        rle_encoding_spec(v.take(64 * j)).len() <= rle_encoding_spec(v).len(),
        rle_encoding_spec(v).take(rle_encoding_spec(v.take(64 * j)).len() as int) == rle_encoding_spec(v.take(64 * j)),
    decreases v.len(),
{
    if 64 * j == v.len() {
        assert(v.take(64 * j) =~= v);
        assert(rle_encoding_spec(v).take(rle_encoding_spec(v).len() as int) =~= rle_encoding_spec(v));
    } else {
        let m = v.len() - 64;
        assert(last_block_start(v.len() as int) == m);
        let w = v.take(m);
        lemma_encoding_prefix(w, j);
        assert(w.take(64 * j) =~= v.take(64 * j));
        let ew = rle_encoding_spec(w);
        let ej = rle_encoding_spec(v.take(64 * j));
        assert(rle_encoding_spec(v) == ew + crate::rle::enc_block(v.skip(m)));
        assert(rle_encoding_spec(v).take(ej.len() as int) =~= ew.take(ej.len() as int));
    }
}

/// The entries of whole blocks of codable coefficients are whole blocks of
/// codable entries, one block each.
proof fn lemma_encoding_frame(v: Seq<i16>)
    requires
        v.len() % 64 == 0,
        codable_coeffs(v),
    ensures
        whole_blocks(rle_encoding_spec(v), v.len() as int / 64),
        codable_entries(rle_encoding_spec(v)),
{
    let es = rle_encoding_spec(v);
    lemma_encoding_codable(v);
    assert(holds_entries(es, 0, es)) by {
        assert forall|i: int| 0 <= i < es.len() implies #[trigger] es[0 + i] == es[i] by {}
    }
    assert(blocks_from(es, es.len() as int, 0, v.len() as int / 64, v.len() as int / 64));
    lemma_encoding_blocks(v, es, 0, 0, v.len() as int / 64);
    assert forall|i: int| #![trigger es[i]] 0 <= i < es.len() implies encodable(es[i]) && es[i].0 < 256 by {
        assert(encodable(es[i]));
        assert(es[i].0 < 256);
    }
}

/// The entries of the first `j` blocks of codable coefficients are where the
/// block boundary `j` of the whole vector's entries lies.
proof fn lemma_encoding_boundary(v: Seq<i16>, j: int, p: int)
    requires
        v.len() % 64 == 0,
        codable_coeffs(v),
        0 <= 64 * j <= v.len(),
        0 <= p <= rle_encoding_spec(v).len(),
        state_at(rle_encoding_spec(v), 0, p, 0, 0) == (0int, j),
    ensures
        rle_encoding_spec(v).take(p) == rle_encoding_spec(v.take(64 * j)),
{
    let es = rle_encoding_spec(v);
    let w = v.take(64 * j);
    let ew = rle_encoding_spec(w);
    lemma_encoding_prefix(v, j);
    lemma_encoding_frame(v);
    assert(codable_coeffs(w)) by {
        assert forall|q: int| 0 <= q < w.len() implies (if q % 64 == 0 {
            -2048 < #[trigger] w[q] < 2048
        } else {
            -1024 < w[q] < 1024
        }) by {
            assert(w[q] == v[q]);
        }
    }
    lemma_encoding_frame(w);
    assert(w.len() as int / 64 == j);
    lemma_blocks_advance(ew, 0, ew.len() as int, 0, 0, j);
    lemma_state_same(es, ew, 0, ew.len() as int, 0, 0);
    lemma_boundary_unique(es, p, ew.len() as int, j, v.len() as int / 64);
}

/// Reading whole blocks out in zigzag order commutes with keeping the first
/// `j` blocks.
proof fn lemma_zigzag_take(v: Seq<i16>, j: int)
    requires
        v.len() % 64 == 0,
        0 <= 64 * j <= v.len(),
    ensures
        zigzag_spec(v).take(64 * j) == zigzag_spec(v.take(64 * j)),
{
    let w = v.take(64 * j);
    assert forall|i: int| 0 <= i < 64 * j implies #[trigger] zigzag_spec(v).take(64 * j)[i] == zigzag_spec(w)[i] by {
        lemma_zigzag_index(i);
        assert(zigzag_index(i) == (i / 64) * 64 + zigzag_index(i) % 64);
        assert(i / 64 < j);
        assert(zigzag_index(i) < 64 * j);
    }
    assert(zigzag_spec(v).take(64 * j) =~= zigzag_spec(w));
}

/// Coefficient planes of whole blocks (in block order) that the sender reads
/// out in zigzag order, run-length codes and cuts into packets come back out
/// of the receiver once every packet of the frame is filed: the luma plane
/// whole, and the first `k` blocks of each chroma plane, each padded with
/// zeros to the size of its plane.
pub proof fn lemma_sender_receiver_roundtrip(dy: Seq<i16>, dcb: Seq<i16>, dcr: Seq<i16>, k: int, datas: Seq<Seq<u8>>)
    requires
        k >= 0,
        dy.len() == 256 * k,
        dcb.len() % 64 == 0,
        dcr.len() % 64 == 0,
        64 * k <= dcb.len(),
        64 * k <= dcr.len(),
        codable_coeffs(zigzag_spec(dy)),
        codable_coeffs(zigzag_spec(dcb)),
        codable_coeffs(zigzag_spec(dcr)),
        ({
            let y = rle_encoding_spec(zigzag_spec(dy));
            let cb = rle_encoding_spec(zigzag_spec(dcb));
            let cr = rle_encoding_spec(zigzag_spec(dcr));
            &&& packets_spec(y, cb, cr) is Some
            &&& datas.len() == packets_spec(y, cb, cr)->0.len()
            &&& forall|i: int| 0 <= i < datas.len() ==> holds_bits(#[trigger] datas[i], 0, packets_spec(y, cb, cr)->0[i].payload)
        }),
    ensures
        ({
            let y = rle_encoding_spec(zigzag_spec(dy));
            let cb = rle_encoding_spec(zigzag_spec(dcb));
            let cr = rle_encoding_spec(zigzag_spec(dcr));
            frame_planes(received_fragments(datas, packets_spec(y, cb, cr)->0)) == (
                resized(dy, 2073600, 0i16),
                resized(dcr.take(64 * k), 518400, 0i16),
                resized(dcb.take(64 * k), 518400, 0i16),
            )
        }),
{
    let zy = zigzag_spec(dy);
    let zcb = zigzag_spec(dcb);
    let zcr = zigzag_spec(dcr);
    let y = rle_encoding_spec(zy);
    let cb = rle_encoding_spec(zcb);
    let cr = rle_encoding_spec(zcr);
    let ncb = dcb.len() as int / 64;
    let ncr = dcr.len() as int / 64;
    lemma_encoding_frame(zy);
    lemma_encoding_frame(zcb);
    lemma_encoding_frame(zcr);
    assert(zy.len() as int / 64 == 4 * k);
    lemma_frame_roundtrip(y, cb, cr, k, ncb, ncr, datas);
    lemma_round_start(y, cb, cr, k, ncb, ncr, k as nat);
    let q = round_start(y, cb, cr, k as nat);
    lemma_encoding_boundary(zcb, k, q.1);
    lemma_encoding_boundary(zcr, k, q.2);
    lemma_zigzag_take(dcb, k);
    lemma_zigzag_take(dcr, k);
    lemma_rle_roundtrip(zy);
    lemma_rle_roundtrip(zcb.take(64 * k));
    lemma_rle_roundtrip(zcr.take(64 * k));
    lemma_inverse_zigzag_undoes_zigzag(dy);
    lemma_inverse_zigzag_undoes_zigzag(dcb.take(64 * k));
    lemma_inverse_zigzag_undoes_zigzag(dcr.take(64 * k));
}

} // verus!
