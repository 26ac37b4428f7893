use vstd::prelude::*;
use crate::bit_writer::{MAX_SIZE, bytes_bits};
use crate::entropy::{group_end, lemma_group_end_bounds, entries_bits, encodable, nbytes, padded};

verus! {

/// A packet of the sender: its fragment number, the number of blocks that it
/// counts, and the bits of its payload (a whole number of bytes).
pub struct Packet {
    pub fragment_id: u8,
    pub block_count: u16,
    pub payload: Seq<bool>,
}

/// The state of the sender while it cuts a frame into packets: how far it
/// got in each plane's entries, the bits of the packet being filled, the
/// number of blocks that this packet counts, the next fragment number, and
/// the packets cut so far.
pub struct SendState {
    pub y: int,
    pub cb: int,
    pub cr: int,
    pub bits: Seq<bool>,
    pub block_counter: int,
    pub fragment_id: int,
    pub packets: Seq<Packet>,
}

/// All entries of the group that starts at `j` can be coded.
pub open spec fn group_ok(rle: Seq<(usize, i16)>, j: int, bc: int) -> bool {
    forall|i: int| j <= i < group_end(rle, j, 0, bc) ==> encodable(#[trigger] rle[i])
}

/// The bits after writing the group of `rle` that starts at `j`.
pub open spec fn bits_after(rle: Seq<(usize, i16)>, j: int, bc: int, bits: Seq<bool>) -> Seq<bool> {
    bits + entries_bits(rle, j, group_end(rle, j, 0, bc))
}

/// Whether writing the group that starts at `j` filled the packet.
pub open spec fn group_over(rle: Seq<(usize, i16)>, j: int, bc: int, bits: Seq<bool>) -> bool {
    group_end(rle, j, 0, bc) > j && nbytes(bits_after(rle, j, bc, bits)) >= MAX_SIZE
}

/// Whether the next round (four luma blocks, one block of each chroma plane)
/// fills the packet.
pub open spec fn round_over(y: Seq<(usize, i16)>, cb: Seq<(usize, i16)>, cr: Seq<(usize, i16)>, s: SendState) -> bool {
    let b1 = bits_after(y, s.y, 4, s.bits);
    let b2 = bits_after(cb, s.cb, 1, b1);
    group_over(y, s.y, 4, s.bits) || group_over(cb, s.cb, 1, b1) || group_over(cr, s.cr, 1, b2)
}

/// The state after a round that fills the packet.
pub open spec fn state_after_cut(y: Seq<(usize, i16)>, cb: Seq<(usize, i16)>, cr: Seq<(usize, i16)>, s: SendState) -> SendState {
    let b1 = bits_after(y, s.y, 4, s.bits);
    let b2 = bits_after(cb, s.cb, 1, b1);
    let b3 = bits_after(cr, s.cr, 1, b2);
    SendState {
        bits: seq![],
        block_counter: 0,
        fragment_id: s.fragment_id + 1,
        packets: s.packets.push(
            Packet {
                fragment_id: s.fragment_id as u8,
                block_count: s.block_counter as u16,
                payload: padded(b3).take(8 * nbytes(s.bits) as int),
            },
        ),
        ..s
    }
}

/// The state after a round that leaves room in the packet.
pub open spec fn state_after_round(y: Seq<(usize, i16)>, cb: Seq<(usize, i16)>, cr: Seq<(usize, i16)>, s: SendState) -> SendState {
    let b1 = bits_after(y, s.y, 4, s.bits);
    let b2 = bits_after(cb, s.cb, 1, b1);
    let b3 = bits_after(cr, s.cr, 1, b2);
    SendState {
        y: group_end(y, s.y, 0, 4),
        cb: group_end(cb, s.cb, 0, 1),
        cr: group_end(cr, s.cr, 0, 1),
        bits: b3,
        block_counter: s.block_counter + 6,
        ..s
    }
}

/// One round of the sender: it writes four luma blocks and one block of each
/// chroma plane; if that fills the packet, the packet is cut where it stood
/// before the round and the round is taken back, else the round stays.
pub open spec fn send_step(y: Seq<(usize, i16)>, cb: Seq<(usize, i16)>, cr: Seq<(usize, i16)>, s: SendState) -> SendState {
    if round_over(y, cb, cr, s) {
        state_after_cut(y, cb, cr, s)
    } else {
        state_after_round(y, cb, cr, s)
    }
}

/// The round from `s` can run without a fault: its entries can be coded, the
/// fragment number does not pass 255, and the block count stays a `u32`.
pub open spec fn step_ok(y: Seq<(usize, i16)>, cb: Seq<(usize, i16)>, cr: Seq<(usize, i16)>, s: SendState) -> bool {
    let b1 = bits_after(y, s.y, 4, s.bits);
    &&& group_ok(y, s.y, 4)
    &&& group_ok(cb, s.cb, 1)
    &&& group_ok(cr, s.cr, 1)
    &&& round_over(y, cb, cr, s) ==> s.fragment_id < 255
    &&& !round_over(y, cb, cr, s) ==> s.block_counter + 6 <= u32::MAX
}

/// The rounds from `s` until all luma entries are written; `None` when a round
/// would fault.
#[verifier::opaque]
pub open spec fn send_run(y: Seq<(usize, i16)>, cb: Seq<(usize, i16)>, cr: Seq<(usize, i16)>, s: SendState) -> Option<SendState>
    decreases y.len() - s.y, 256 - s.fragment_id,
{
    if s.y < 0 || s.fragment_id < 0 || s.fragment_id > 255 || s.cb < 0 || s.cr < 0 {
        None
    } else if s.y >= y.len() {
        Some(s)
    } else if !step_ok(y, cb, cr, s) {
        None
    } else {
        proof {
            let dc = if y[s.y].0 == 17 { 1int } else { 0int };
            lemma_group_end_bounds(y, s.y + 1, dc, 4);
            assert(group_end(y, s.y, 0, 4) == group_end(y, s.y + 1, dc, 4));
        }
        send_run(y, cb, cr, send_step(y, cb, cr, s))
    }
}

/// The packets of the last state: the partly filled packet comes last.
pub open spec fn final_packets(s: SendState) -> Seq<Packet> {
    if nbytes(s.bits) > 0 {
        s.packets.push(
            Packet {
                fragment_id: s.fragment_id as u8,
                block_count: s.block_counter as u16,
                payload: padded(s.bits),
            },
        )
    } else {
        s.packets
    }
}

/// The state in which the sender starts a frame.
pub open spec fn send_start() -> SendState {
    SendState { y: 0, cb: 0, cr: 0, bits: seq![], block_counter: 0, fragment_id: 0, packets: seq![] }
}

/// The packets that a frame's entries are cut into; `None` when the sender
/// would fault.
pub open spec fn packets_spec(y: Seq<(usize, i16)>, cb: Seq<(usize, i16)>, cr: Seq<(usize, i16)>) -> Option<Seq<Packet>> {
    match send_run(y, cb, cr, send_start()) {
        Some(s) => Some(final_packets(s)),
        None => None,
    }
}

/// A run that goes on from a state with luma entries left goes through one more round.
pub proof fn lemma_run_step(y: Seq<(usize, i16)>, cb: Seq<(usize, i16)>, cr: Seq<(usize, i16)>, s: SendState, fin: SendState)
    requires
        send_run(y, cb, cr, s) == Some(fin),
        s.y < y.len(),
    ensures
        0 <= s.y,
        0 <= s.cb,
        0 <= s.cr,
        0 <= s.fragment_id <= 255,
        step_ok(y, cb, cr, s),
        send_run(y, cb, cr, send_step(y, cb, cr, s)) == Some(fin),
        round_over(y, cb, cr, s) ==> s.fragment_id < 255,
        !round_over(y, cb, cr, s) ==> group_end(y, s.y, 0, 4) > s.y,
{
    reveal(send_run);
    let dc = if y[s.y].0 == 17 { 1int } else { 0int };
    lemma_group_end_bounds(y, s.y + 1, dc, 4);
    assert(group_end(y, s.y, 0, 4) == group_end(y, s.y + 1, dc, 4));
}

/// A run from a state with no luma entries left ends in that state.
pub proof fn lemma_run_done(y: Seq<(usize, i16)>, cb: Seq<(usize, i16)>, cr: Seq<(usize, i16)>, s: SendState, fin: SendState)
    requires
        send_run(y, cb, cr, s) == Some(fin),
        s.y >= y.len(),
    ensures
        s == fin,
{
    reveal(send_run);
}

/// A datagram of frame `frame_id` that carries packet `p`: four header bytes
/// (frame, fragment, block count high and low byte), then the payload.
pub open spec fn datagram_of(d: Seq<u8>, frame_id: u8, p: Packet) -> bool {
    &&& d.len() * 8 == 32 + p.payload.len()
    &&& d[0] == frame_id
    &&& d[1] == p.fragment_id
    &&& d[2] == (p.block_count / 256) as u8
    &&& d[3] == (p.block_count % 256) as u8
    &&& bytes_bits(d.skip(4), p.payload.len()) == p.payload
}

} // verus!
