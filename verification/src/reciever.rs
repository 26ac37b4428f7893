use vstd::prelude::*;
use vstd::arithmetic::power2::{pow2, lemma2_to64};
use std::collections::{BTreeMap, HashMap};
use crate::bit_writer::{bit8, bit64};
use crate::decoder::{
    stream_bit, stream_val, shl_i32, decode_value_spec, decode_value_ok, DecState, dec_entry,
    decode_step, decode_run, dec_start, huff_decoding_spec, lemma_refill_bit, lemma_shl_bit,
    lemma_window_value, lemma_stream_val_bound,
};
use crate::huffcode::{
    jpeg_dc_luminance_table, jpeg_ac_luminance_table, lemma_dc_table_entries,
    lemma_ac_table_entries,
};
use crate::lut::{
    InvertedHuf, lut_dc, lut_ac, dc_lut_spec, ac_lut_spec, no_code, dc_covers, ac_covers,
};
use crate::capture::{Capture, RESULTING_RESOLUTION};
use crate::rle::{dec_step, dec_from, rle_decoding_spec, lemma_dec_append, lemma_dec_grows};
use crate::zigzag::{ZIGZAG_ORDER, zigzag_index, zigzag_fits, inverse_zigzag_spec, lemma_zigzag_index};
use crate::layout::resized;

verus! {

/// The entries of the fragments numbered below `n`, in increasing fragment
/// order.
pub open spec fn entries_below(frags: Map<u8, Seq<(usize, i16)>>, n: int) -> Seq<(usize, i16)>
    decreases n,
{
    if n <= 0 {
        Seq::empty()
    } else {
        entries_below(frags, n - 1) + if frags.contains_key((n - 1) as u8) {
            frags[(n - 1) as u8]
        } else {
            Seq::<(usize, i16)>::empty()
        }
    }
}

/// The entries of a frame: those of all its fragments, in increasing
/// fragment order.
pub open spec fn frame_entries(frags: Map<u8, Seq<(usize, i16)>>) -> Seq<(usize, i16)> {
    entries_below(frags, 256)
}

/// The block counter after the entries `rle`: each DC entry (run 17) starts
/// the next block, counted 1 to 6 round and round (0 before the first).
pub open spec fn block_counter(rle: Seq<(usize, i16)>) -> int
    decreases rle.len(),
{
    if rle.len() == 0 {
        0
    } else {
        let c = block_counter(rle.drop_last());
        if rle.last().0 == 17 {
            if c + 1 > 6 {
                1
            } else {
                c + 1
            }
        } else {
            c
        }
    }
}

/// The entries of a frame split into its luma, Cb and Cr planes: of each six
/// blocks the first four are luma, the fifth Cb and the sixth Cr.
pub open spec fn split_planes(rle: Seq<(usize, i16)>) -> (Seq<(usize, i16)>, Seq<(usize, i16)>, Seq<(usize, i16)>)
    decreases rle.len(),
{
    if rle.len() == 0 {
        (Seq::empty(), Seq::empty(), Seq::empty())
    } else {
        let p = split_planes(rle.drop_last());
        let c = block_counter(rle);
        let e = rle.last();
        if c <= 4 {
            (p.0.push(e), p.1, p.2)
        } else if c == 5 {
            (p.0, p.1.push(e), p.2)
        } else {
            (p.0, p.1, p.2.push(e))
        }
    }
}

/// The entries of one plane can be decoded: their coefficients fit in
/// memory and can be put back from zigzag order.
pub open spec fn plane_ok(rle: Seq<(usize, i16)>) -> bool {
    &&& rle_decoding_spec(rle).len() <= usize::MAX
    &&& zigzag_fits(rle_decoding_spec(rle).len() as int)
}

/// The coefficients of one plane, back from zigzag order and cut or padded
/// with zeros to `n` values.
pub open spec fn coeff_plane(rle: Seq<(usize, i16)>, n: nat) -> Seq<i16> {
    resized(inverse_zigzag_spec(rle_decoding_spec(rle)), n, 0i16)
}

/// All three planes of a frame can be decoded.
pub open spec fn frame_decodable(frags: Map<u8, Seq<(usize, i16)>>) -> bool {
    let p = split_planes(frame_entries(frags));
    plane_ok(p.0) && plane_ok(p.1) && plane_ok(p.2)
}

/// The coefficient planes of a frame, luma, Cr and Cb.
pub open spec fn frame_planes(frags: Map<u8, Seq<(usize, i16)>>) -> (Seq<i16>, Seq<i16>, Seq<i16>) {
    let p = split_planes(frame_entries(frags));
    (coeff_plane(p.0, 2073600), coeff_plane(p.2, 518400), coeff_plane(p.1, 518400))
}

/// A packet of a new frame with a fragment number above 80 completes the
/// frame four numbers before it.
pub open spec fn completes(frames: Map<u16, Map<u8, Seq<(usize, i16)>>>, frame_id: u16, fragment_id: u8) -> bool {
    !frames.contains_key(frame_id) && frame_id > 4 && fragment_id > 80
}

/// The fragments after a packet's entries `rle` arrived: they join the
/// fragments of their frame, or start a new frame, in which case a completed
/// frame leaves.
pub open spec fn frames_after(
    frames: Map<u16, Map<u8, Seq<(usize, i16)>>>,
    frame_id: u16,
    fragment_id: u8,
    rle: Seq<(usize, i16)>,
) -> Map<u16, Map<u8, Seq<(usize, i16)>>> {
    if frames.contains_key(frame_id) {
        frames.insert(frame_id, frames[frame_id].insert(fragment_id, rle))
    } else if completes(frames, frame_id, fragment_id) {
        frames.remove((frame_id - 4) as u16).insert(frame_id, map![fragment_id => rle])
    } else {
        frames.insert(frame_id, map![fragment_id => rle])
    }
}

/// A packet can be taken in: if it completes a frame, that frame is there
/// and can be decoded.
pub open spec fn packet_ok(frames: Map<u16, Map<u8, Seq<(usize, i16)>>>, frame_id: u16, fragment_id: u8) -> bool {
    completes(frames, frame_id, fragment_id) ==> {
        &&& frames.contains_key((frame_id - 4) as u16)
        &&& frame_decodable(frames[(frame_id - 4) as u16])
    }
}

/// The entries of a frame's fragments, joined in increasing fragment order.
fn collect_fragments(fragment_map: &BTreeMap<u8, Vec<(usize, i16)>>) -> (rle: Vec<(usize, i16)>)
    ensures
        rle@ == frame_entries(fragment_map@.map_values(|v: Vec<(usize, i16)>| v@)),
{
    let ghost frags = fragment_map@.map_values(|v: Vec<(usize, i16)>| v@);
    let mut rle: Vec<(usize, i16)> = Vec::new();
    let mut k: u16 = 0;
    while k < 256
        invariant
            k <= 256,
            frags == fragment_map@.map_values(|v: Vec<(usize, i16)>| v@),
            rle@ == entries_below(frags, k as int),
        decreases 256 - k,
    {
        let key = k as u8;
        let ghost prefix = rle@;
        match fragment_map.get(&key) {
            Some(value) => {
                assert(frags.contains_key(key) && frags[key] == value@);
                let mut i: usize = 0;
                while i < value.len()
                    invariant
                        i <= value@.len(),
                        rle@ == prefix + value@.take(i as int),
                    decreases value@.len() - i,
                {
                    rle.push(value[i]);
                    i = i + 1;
                    assert(rle@ =~= prefix + value@.take(i as int));
                }
                assert(value@.take(value@.len() as int) =~= value@);
            },
            None => {
                assert(!frags.contains_key(key));
                assert(rle@ =~= prefix + Seq::<(usize, i16)>::empty());
            },
        }
        k = k + 1;
    }
    rle
}

/// Splits the entries of a frame into its luma, Cb and Cr planes.
fn split_rle(rle: &Vec<(usize, i16)>) -> (planes: (Vec<(usize, i16)>, Vec<(usize, i16)>, Vec<(usize, i16)>))
    ensures
        (planes.0@, planes.1@, planes.2@) == split_planes(rle@),
{
    let mut dc_counter: u8 = 0;
    let mut y_rle: Vec<(usize, i16)> = Vec::new();
    let mut cb_rle: Vec<(usize, i16)> = Vec::new();
    let mut cr_rle: Vec<(usize, i16)> = Vec::new();
    let mut i: usize = 0;
    while i < rle.len()
        invariant
            i <= rle@.len(),
            dc_counter as int == block_counter(rle@.take(i as int)),
            dc_counter <= 6,
            (y_rle@, cb_rle@, cr_rle@) == split_planes(rle@.take(i as int)),
        decreases rle@.len() - i,
    {
        let (run, value) = rle[i];
        proof {
            let t = rle@.take(i as int + 1);
            assert(t.drop_last() =~= rle@.take(i as int));
            assert(t.last() == (run, value));
        }
        if run == 17 {
            dc_counter = dc_counter + 1;
            if dc_counter > 6 {
                dc_counter = 1;
            }
        }
        if dc_counter <= 4 {
            y_rle.push((run, value));
        } else if dc_counter == 5 {
            cb_rle.push((run, value));
        } else if dc_counter == 6 {
            cr_rle.push((run, value));
        }
        i = i + 1;
    }
    assert(rle@.take(rle@.len() as int) =~= rle@);
    (y_rle, cb_rle, cr_rle)
}

/// The number of coefficients that `rle` decodes to, if it fits in a `usize`.
fn decoded_len(rle: &Vec<(usize, i16)>) -> (r: Option<usize>)
    ensures
        r matches Some(n) ==> n == rle_decoding_spec(rle@).len(),
        r is None ==> rle_decoding_spec(rle@).len() > usize::MAX,
{
    let mut len: usize = 0;
    let mut i: usize = 0;
    while i < rle.len()
        invariant
            i <= rle@.len(),
            len == dec_from(Seq::empty(), rle@.take(i as int)).len(),
        decreases rle@.len() - i,
    {
        let (run, value) = rle[i];
        let ghost before = dec_from(Seq::<i16>::empty(), rle@.take(i as int));
        let ghost t = rle@.take(i as int + 1);
        proof {
            assert(t.drop_last() =~= rle@.take(i as int));
            assert(t.last() == (run, value));
            assert(rle@ =~= t + rle@.skip(i as int + 1));
            lemma_dec_append(Seq::empty(), t, rle@.skip(i as int + 1));
            lemma_dec_grows(dec_from(Seq::empty(), t), rle@.skip(i as int + 1));
        }
        let step: Option<usize> = if run == 17 {
            len.checked_add(1)
        } else if run == 0 && value == 0 {
            len.checked_add(64 - len % 64)
        } else {
            match len.checked_add(run) {
                Some(l) => l.checked_add(1),
                None => None,
            }
        };
        match step {
            Some(l) => {
                len = l;
            },
            None => {
                return None;
            },
        }
        i = i + 1;
    }
    assert(rle@.take(rle@.len() as int) =~= rle@);
    Some(len)
}

/// Whether a vector of `n` coefficients can be put back from zigzag order.
fn fits_zigzag(n: usize) -> (ok: bool)
    ensures
        ok == zigzag_fits(n as int),
{
    let mut i: usize = 0;
    while i < n
        invariant
            i <= n,
            forall|j: int| 0 <= j < i ==> #[trigger] zigzag_index(j) < n,
        decreases n - i,
    {
        proof {
            lemma_zigzag_index(i as int);
            assert(zigzag_index(i as int) == (i as int / 64) * 64 + zigzag_index(i as int) % 64);
        }
        let block_start = i - i % 64;
        if ZIGZAG_ORDER[i % 64] >= n - block_start {
            assert(!(zigzag_index(i as int) < n));
            return false;
        }
        i = i + 1;
    }
    true
}

/// Whether the entries of one plane can be decoded.
fn plane_decodable(rle: &Vec<(usize, i16)>) -> (ok: bool)
    ensures
        ok == plane_ok(rle@),
{
    match decoded_len(rle) {
        Some(n) => fits_zigzag(n),
        None => false,
    }
}

/// The header of a received datagram and its payload: the frame number in
/// the first two bytes (big-endian), the fragment number in the third, the
/// block count in the fourth and fifth (big-endian), and the payload after.
pub fn parse_datagram(datagram: &Vec<u8>) -> (parts: (u16, u8, u16, Vec<u8>))
    requires
        datagram@.len() >= 5,
    ensures
        parts.0 == datagram@[0] * 256 + datagram@[1],
        parts.1 == datagram@[2],
        parts.2 == datagram@[3] * 256 + datagram@[4],
        parts.3@ == datagram@.skip(5),
{
    let b0 = datagram[0];
    let b1 = datagram[1];
    let b3 = datagram[3];
    let b4 = datagram[4];
    let frame_id = ((b0 as u16) << 8u16) | (b1 as u16);
    let fragment_id = datagram[2];
    let block_count = ((b3 as u16) << 8u16) | (b4 as u16);
    assert(((b0 as u16) << 8u16) | (b1 as u16) == b0 * 256 + b1) by (bit_vector);
    assert(((b3 as u16) << 8u16) | (b4 as u16) == b3 * 256 + b4) by (bit_vector);
    let mut data: Vec<u8> = Vec::new();
    let mut i: usize = 5;
    while i < datagram.len()
        invariant
            5 <= i <= datagram@.len(),
            data@ == datagram@.subrange(5, i as int),
        decreases datagram@.len() - i,
    {
        data.push(datagram[i]);
        i = i + 1;
        assert(data@ =~= datagram@.subrange(5, i as int));
    }
    assert(data@ =~= datagram@.skip(5));
    (frame_id, fragment_id, block_count, data)
}

/// The error type of `Reciever::new`.
#[verifier::external_type_specification]
#[verifier::external_body]
pub struct ExFmtError(std::fmt::Error);

/// The decoding side: fragments received so far, by frame and fragment
/// number, and the two decoding tables.
pub struct Reciever {
    frame_map: HashMap<u16, BTreeMap<u8, Vec<(usize, i16)>>>,
    lut_ac: Vec<InvertedHuf>,
    lut_dc: Vec<InvertedHuf>,
}

/// Every entry of the DC decoding table is a DC entry (run 17) of category at
/// most 11, or the empty entry; its code is at most 16 bits long.
pub proof fn lemma_dc_lut_entry(w: int)
    ensures
        dc_lut_spec(w).cat <= 11,
        dc_lut_spec(w).huf_len <= 16,
        dc_lut_spec(w).run == 17 || dc_lut_spec(w) == no_code(),
{
    if exists|c: u8| dc_covers(c, w) {
        let c = choose|c: u8| dc_covers(c, w);
        lemma_dc_table_entries(c);
    }
}

/// Every entry of the AC decoding table has a run of at most 15, a category
/// of at most 10 and a code of at most 16 bits.
pub proof fn lemma_ac_lut_entry(w: int)
    ensures
        ac_lut_spec(w).run <= 15,
        ac_lut_spec(w).cat <= 10,
        ac_lut_spec(w).huf_len <= 16,
{
    if exists|rc: (u8, u8)| ac_covers(rc.0, rc.1, w) {
        let rc = choose|rc: (u8, u8)| ac_covers(rc.0, rc.1, w);
        lemma_ac_table_entries(rc.0, rc.1);
    }
}

/// `1i32 << k` is `shl_i32(k)`.
proof fn lemma_one_shl_i32(k: u8)
    requires
        k < 32,
    ensures
        (1i32 << k) as int == shl_i32(k as int),
{
    assert((1i32 << k) == ((1u32 << (k as u32)) as i32)) by (bit_vector)
        requires
            k < 32,
    ;
    lemma2_to64();
    vstd::arithmetic::power2::lemma_pow2_strictly_increases(k as nat, 32);
    vstd::bits::lemma_u32_shl_is_mul(1, k as u32);
    if k == 31 {
        assert(((1u32 << 31u32) as i32) == -2147483648i32) by (bit_vector);
    } else {
        vstd::arithmetic::power2::lemma_pow2_strictly_increases(k as nat, 31);
    }
}

/// Shifting a word left by `s` moves the stream bits it holds up by `s`.
proof fn lemma_shifted_bits(w: u64, s: u64, data: Seq<u8>, base: int, k: int)
    requires
        s < 64,
        k <= 64,
        forall|j: int| 0 <= j < k ==> #[trigger] bit64(w, j) == stream_bit(data, base + j),
    ensures
        forall|j: int| 0 <= j < k - s ==> #[trigger] bit64(w << s, j) == stream_bit(data, base + s + j),
{
    assert forall|j: int| 0 <= j < k - s implies #[trigger] bit64(w << s, j) == stream_bit(data, base + s + j) by {
        lemma_shl_bit(w, s, j as u64);
        assert(bit64(w, j + s) == stream_bit(data, base + (j + s)));
    }
}

proof fn lemma_zero_bit(s: u64)
    by (bit_vector)
    ensures
        ((0u64 >> s) & 1u64) == 0u64,
{
}

/// `w >> n`, and 0 once `n` reaches the width of the word.
fn unbounded_shr(w: u64, n: u32) -> (r: u64)
    ensures
        r == if n >= 64 { 0 } else { w >> n },
{
    if n >= 64 {
        0
    } else {
        w >> n
    }
}

/// The first eight bytes of `data` as a big-endian word.
fn load_be_u64(data: &Vec<u8>) -> (w: u64)
    requires
        data@.len() >= 8,
    ensures
        forall|j: int| 0 <= j < 64 ==> #[trigger] bit64(w, j) == stream_bit(data@, j),
{
    let mut w: u64 = 0;
    let mut i: usize = 0;
    assert forall|j: int| 0 <= j < 64 implies !#[trigger] bit64(0u64, j) by {
        lemma_zero_bit((63 - j) as u64);
    }
    while i < 8
        invariant
            i <= 8,
            data@.len() >= 8,
            forall|j: int| 0 <= j < 64 - 8 * i ==> !#[trigger] bit64(w, j),
            forall|j: int|
                64 - 8 * i <= j < 64 ==> #[trigger] bit64(w, j) == stream_bit(data@, j - (64 - 8 * i)),
        decreases 8 - i,
    {
        let b = data[i];
        let ghost before = w;
        w = (w << 8) | (b as u64);
        proof {
            assert forall|j: int| 0 <= j < 64 implies #[trigger] bit64(w, j) == if j < 56 {
                bit64(before, j + 8)
            } else {
                bit8(b, j - 56)
            } by {
                lemma_refill_bit(before, b, j as u64);
            }
            assert forall|j: int|
                64 - 8 * (i + 1) <= j < 64 implies #[trigger] bit64(w, j) == stream_bit(
                data@,
                j - (64 - 8 * (i + 1)),
            ) by {
                if j >= 56 {
                    let q = j - (64 - 8 * (i + 1));
                    assert(q == 8 * i + (j - 56));
                    assert(q / 8 == i && q % 8 == j - 56);
                }
            }
        }
        i = i + 1;
    }
    w
}

impl Reciever {
    /// The decoding tables are those of the JPEG luminance tables.
    pub closed spec fn wf(&self) -> bool {
        &&& self.lut_dc@.len() == 65536
        &&& self.lut_ac@.len() == 65536
        &&& forall|w: int| 0 <= w < 65536 ==> #[trigger] self.lut_dc@[w] == dc_lut_spec(w)
        &&& forall|w: int| 0 <= w < 65536 ==> #[trigger] self.lut_ac@[w] == ac_lut_spec(w)
    }

    /// A receiver with no fragments and the decoding tables of the JPEG
    /// luminance tables.
    pub fn new() -> (r: Result<Self, std::fmt::Error>)
        ensures
            r matches Ok(rec) && rec.wf() && rec.frames() == Map::<u16, Map<u8, Seq<(usize, i16)>>>::empty(),
    {
        let dc_table = jpeg_dc_luminance_table();
        let ac_table = jpeg_ac_luminance_table();
        let rec = Reciever { frame_map: HashMap::new(), lut_dc: lut_dc(&dc_table), lut_ac: lut_ac(&ac_table) };
        proof {
            assert(rec.frames() =~= Map::<u16, Map<u8, Seq<(usize, i16)>>>::empty());
        }
        Ok(rec)
    }

    /// The fragments received so far: for each frame number, the entries
    /// decoded from each fragment number.
    pub closed spec fn frames(&self) -> Map<u16, Map<u8, Seq<(usize, i16)>>> {
        Map::new(
            |k: u16| self.frame_map@.contains_key(k),
            |k: u16| self.frame_map@[k]@.map_values(|v: Vec<(usize, i16)>| v@),
        )
    }

    /// Decodes the payload of one packet: `block_count` blocks of run-length
    /// entries, read symbol after symbol from the bit stream `data` through
    /// the decoding tables.
    #[verifier::rlimit(60)]
    pub fn huff_decoding_new(&self, data: &Vec<u8>, block_count: u16) -> (rle: Vec<(usize, i16)>)
        requires
            self.wf(),
            data@.len() >= 8,
            block_count >= 1,
        ensures
            rle@ == huff_decoding_spec(data@, block_count as int),
    {
        let mut rle: Vec<(usize, i16)> = Vec::new();
        let mut buffer: u64 = load_be_u64(data);
        let mut buffer_counter: usize = 8;
        let mut run_counter: u8 = 0;
        let mut shift: u32 = 0;
        let mut dc_counter: u16 = 0;
        let ghost mut base: int = 0;
        let ghost mut s: DecState = dec_start();
        loop
            invariant_except_break
                self.wf(),
                data@.len() >= 8,
                block_count >= 1,
                0 <= base,
                base % 8 == 0,
                shift < 8,
                buffer_counter as int == if base / 8 + 8 < data@.len() {
                    base / 8 + 8
                } else {
                    data@.len() as int
                },
                forall|j: int| 0 <= j < 64 ==> #[trigger] bit64(buffer, j) == stream_bit(data@, base + j),
                s.pos == base + shift,
                s.run_counter == run_counter as int,
                run_counter < 64,
                s.dc_counter == dc_counter as int,
                dc_counter < block_count,
                s.rle == rle@,
                decode_run(data@, s, block_count as int) == huff_decoding_spec(data@, block_count as int),
            ensures
                rle@ == huff_decoding_spec(data@, block_count as int),
            decreases block_count - dc_counter, 64 - run_counter,
        {
            let buffer_shifted = buffer << (shift as u64);
            proof {
                lemma_shifted_bits(buffer, shift as u64, data@, base, 64);
                lemma_window_value(buffer_shifted, data@, s.pos, 16);
                lemma_stream_val_bound(data@, s.pos, 16);
                lemma2_to64();
            }
            let idx = (buffer_shifted >> 48u64) as usize;
            let ghost e = dec_entry(data@, s);
            let huff_inverted: InvertedHuf;
            if run_counter == 0 {
                huff_inverted = self.lut_dc[idx];
                proof {
                    lemma_dc_lut_entry(idx as int);
                }
                run_counter = run_counter + 1;
            } else {
                huff_inverted = self.lut_ac[idx];
                proof {
                    lemma_ac_lut_entry(idx as int);
                }
                run_counter = run_counter + huff_inverted.run + 1;
                if huff_inverted.run == 0 && huff_inverted.cat == 0 {
                    run_counter = 64;
                }
            }
            assert(huff_inverted == e);
            let shifted2 = buffer_shifted << (huff_inverted.huf_len as u64);
            let raw = unbounded_shr(shifted2, 64 - huff_inverted.cat as u32);
            proof {
                lemma_shifted_bits(buffer_shifted, huff_inverted.huf_len as u64, data@, s.pos, 64 - shift);
                lemma_stream_val_bound(data@, s.pos + huff_inverted.huf_len, huff_inverted.cat as nat);
                if huff_inverted.cat > 0 {
                    lemma_window_value(shifted2, data@, s.pos + huff_inverted.huf_len, huff_inverted.cat as nat);
                }
                vstd::arithmetic::power2::lemma_pow2_strictly_increases(huff_inverted.cat as nat, 12);
            }
            assert(raw as int == stream_val(data@, s.pos + huff_inverted.huf_len, huff_inverted.cat as nat));
            let value = self.decode_coefficient(raw as u32, huff_inverted.cat);
            rle.push((huff_inverted.run as usize, value));
            shift = huff_inverted.cat as u32 + huff_inverted.huf_len as u32 + shift;
            while shift >= 8
                invariant
                    data@.len() >= 8,
                    0 <= base,
                    base % 8 == 0,
                    shift < 64,
                    buffer_counter as int == if base / 8 + 8 < data@.len() {
                        base / 8 + 8
                    } else {
                        data@.len() as int
                    },
                    forall|j: int| 0 <= j < 64 ==> #[trigger] bit64(buffer, j) == stream_bit(data@, base + j),
                    base + shift == s.pos + huff_inverted.huf_len + huff_inverted.cat,
                decreases shift,
            {
                let ghost before = buffer;
                if buffer_counter < data.len() {
                    let b = data[buffer_counter];
                    buffer = (buffer << 8u64) | (b as u64);
                    buffer_counter = buffer_counter + 1;
                    proof {
                        assert forall|j: int| 0 <= j < 64 implies #[trigger] bit64(buffer, j) == stream_bit(data@, base + 8 + j) by {
                            lemma_refill_bit(before, b, j as u64);
                            if j < 56 {
                                assert(bit64(before, j + 8) == stream_bit(data@, base + (j + 8)));
                            } else {
                                let q = base + 8 + j;
                                assert(q / 8 == base / 8 + 8 && q % 8 == j - 56);
                            }
                        }
                    }
                } else {
                    buffer = buffer << 8u64;
                    proof {
                        assert forall|j: int| 0 <= j < 64 implies #[trigger] bit64(buffer, j) == stream_bit(data@, base + 8 + j) by {
                            lemma_refill_bit(before, 0u8, j as u64);
                            if j < 56 {
                                assert(bit64(before, j + 8) == stream_bit(data@, base + (j + 8)));
                            } else {
                                assert(base + 8 + j >= 8 * data@.len());
                            }
                        }
                    }
                }
                shift = shift - 8;
                proof {
                    base = base + 8;
                }
            }
            if run_counter >= 64 {
                run_counter = 0;
                dc_counter = dc_counter + 1;
            }
            proof {
                s = decode_step(data@, s);
            }
            if dc_counter == block_count {
                break;
            }
        }
        rle
    }

    /// Decodes the coefficient planes of one frame from its luma, Cb and Cr
    /// entries: run-length decoding, back from zigzag order, and cut or
    /// padded with zeros to the full luma and half-size chroma planes.
    /// Returns the planes in the order luma, Cr, Cb.
    pub fn to_y_cb_cr(&self, y_rle: Vec<(usize, i16)>, cb_rle: Vec<(usize, i16)>, cr_rle: Vec<(usize, i16)>) -> (planes: (Vec<i16>, Vec<i16>, Vec<i16>))
        requires
            plane_ok(y_rle@),
            plane_ok(cb_rle@),
            plane_ok(cr_rle@),
        ensures
            planes.0@ == coeff_plane(y_rle@, 2073600),
            planes.1@ == coeff_plane(cr_rle@, 518400),
            planes.2@ == coeff_plane(cb_rle@, 518400),
    {
        let capture = Capture::new(1920, 1080);
        let werte = capture.rle_decoding(&y_rle);
        let wertecr = capture.rle_decoding(&cr_rle);
        let wertecb = capture.rle_decoding(&cb_rle);
        let mut unzigzag = capture.inverse_zigzag(&werte);
        let mut unzigzagcr = capture.inverse_zigzag(&wertecr);
        let mut unzigzagcb = capture.inverse_zigzag(&wertecb);
        let target_y: usize = 1920 * 1080;
        unzigzag.resize(target_y, 0);
        let target_cb: usize = (1920 / 2) * (1080 / 2);
        unzigzagcr.resize(target_cb, 0);
        unzigzagcb.resize(target_cb, 0);
        proof {
            assert(unzigzag@ =~= coeff_plane(y_rle@, 2073600));
            assert(unzigzagcr@ =~= coeff_plane(cr_rle@, 518400));
            assert(unzigzagcb@ =~= coeff_plane(cb_rle@, 518400));
        }
        (unzigzag, unzigzagcr, unzigzagcb)
    }

    /// Decodes the coefficient planes (luma, Cr, Cb) of a received frame from
    /// the entries of all its fragments.
    pub fn frame_from_fragments(&self, frame_id: u16) -> (planes: (Vec<i16>, Vec<i16>, Vec<i16>))
        requires
            self.frames().contains_key(frame_id),
            frame_decodable(self.frames()[frame_id]),
        ensures
            (planes.0@, planes.1@, planes.2@) == frame_planes(self.frames()[frame_id]),
    {
        let rle = match self.frame_map.get(&frame_id) {
            Some(fragment_map) => collect_fragments(fragment_map),
            None => Vec::new(),
        };
        let (y_rle, cb_rle, cr_rle) = split_rle(&rle);
        self.to_y_cb_cr(y_rle, cb_rle, cr_rle)
    }

    /// Whether the packet of `frame_id` and `fragment_id` can be taken in:
    /// a packet that completes a frame needs that frame to be there and to
    /// be decodable.
    pub fn accepts_packet(&self, frame_id: u16, fragment_id: u8) -> (ok: bool)
        ensures
            ok == packet_ok(self.frames(), frame_id, fragment_id),
    {
        if self.frame_map.contains_key(&frame_id) || !(frame_id > 4 && fragment_id > 80) {
            return true;
        }
        match self.frame_map.get(&(frame_id - 4)) {
            Some(fragment_map) => {
                let rle = collect_fragments(fragment_map);
                let (y_rle, cb_rle, cr_rle) = split_rle(&rle);
                plane_decodable(&y_rle) && plane_decodable(&cb_rle) && plane_decodable(&cr_rle)
            },
            None => false,
        }
    }

    /// Takes in the payload of one packet: decodes its entries and files
    /// them under their frame and fragment number. The first packet of a new
    /// frame with a fragment number above 80 completes the frame four
    /// numbers before it, which is decoded, returned and dropped.
    pub fn packets_to_frame(&mut self, frame_id: u16, fragment_id: u8, data: &Vec<u8>, block_count: u16) -> (planes: Option<(Vec<i16>, Vec<i16>, Vec<i16>)>)
        requires
            old(self).wf(),
            data@.len() >= 8,
            block_count >= 1,
            packet_ok(old(self).frames(), frame_id, fragment_id),
        ensures
            final(self).wf(),
            final(self).frames() == frames_after(
                old(self).frames(),
                frame_id,
                fragment_id,
                huff_decoding_spec(data@, block_count as int),
            ),
            match planes {
                Some(p) => completes(old(self).frames(), frame_id, fragment_id) && (p.0@, p.1@, p.2@)
                    == frame_planes(old(self).frames()[(frame_id - 4) as u16]),
                None => !completes(old(self).frames(), frame_id, fragment_id),
            },
    {
        let ghost frames0 = self.frames();
        let rle = self.huff_decoding_new(data, block_count);
        let ghost entries = rle@;
        if self.frame_map.contains_key(&frame_id) {
            match self.frame_map.remove(&frame_id) {
                Some(mut fragment_map) => {
                    let ghost inner0 = fragment_map@;
                    fragment_map.insert(fragment_id, rle);
                    self.frame_map.insert(frame_id, fragment_map);
                    proof {
                        assert(fragment_map@.map_values(|v: Vec<(usize, i16)>| v@) =~= frames0[frame_id].insert(fragment_id, entries));
                        assert(self.frames() =~= frames_after(frames0, frame_id, fragment_id, entries));
                    }
                },
                None => {},
            }
            None
        } else {
            let mut done: Option<(Vec<i16>, Vec<i16>, Vec<i16>)> = None;
            if frame_id > 4 && fragment_id > 80 {
                done = Some(self.frame_from_fragments(frame_id - 4));
                self.frame_map.remove(&(frame_id - 4));
            }
            let mut map: BTreeMap<u8, Vec<(usize, i16)>> = BTreeMap::new();
            map.insert(fragment_id, rle);
            self.frame_map.insert(frame_id, map);
            proof {
                assert(map@.map_values(|v: Vec<(usize, i16)>| v@) =~= map![fragment_id => entries]);
                assert(self.frames() =~= frames_after(frames0, frame_id, fragment_id, entries));
            }
            done
        }
    }

    /// The value that `bits` of category `cat` stand for.
    pub fn decode_coefficient(&self, bits: u32, cat: u8) -> (v: i16)
        requires
            decode_value_ok(bits, cat),
        ensures
            v == decode_value_spec(bits, cat),
    {
        if cat == 0 {
            return 0;
        }
        proof {
            lemma_one_shl_i32((cat - 1) as u8);
        }
        let threshold = 1i32 << (cat - 1);
        if bits as i32 >= threshold {
            bits as i16
        } else {
            proof {
                lemma_one_shl_i32(cat);
            }
            (bits as i32 - (1i32 << cat) + 1) as i16
        }
    }
}

} // verus!
