use vstd::prelude::*;
use std::collections::HashMap;
use crate::bit_writer::{BitWriter, MAX_SIZE, bytes_bits};
use crate::packets::{Packet, SendState, send_run, send_step, step_ok, round_over, group_over, bits_after, final_packets, send_start, packets_spec, datagram_of, group_ok, lemma_run_step, lemma_run_done, state_after_cut, state_after_round};
use crate::entropy::{nbytes, padded, lemma_padded_bytes, group_end, lemma_group_end_bounds, entries_bits, entry_bits, encodable, entry_code, symbol, code_bits, lemma_appended_is_code_bits};
use crate::huffcode::{HuffCode, dc_table_map, ac_table_map, jpeg_dc_luminance_table, jpeg_ac_luminance_table, categorie, category_spec, dc_code_spec, ac_code_spec, ac_key_of, lemma_ac_table_entries, lemma_dc_table_entries};
use crate::entropy::{coded, value_bits, lemma_value_bits, lemma_symbol_arith, lemma_shift_i16};
use vstd::arithmetic::power2::{pow2, lemma2_to64, lemma_pow2_strictly_increases};
use crate::convert::{block_length, block_sum, channel_average, chroma_source, chroma_average, subsampled, lemma_chroma_source_bounds};

verus! {

/// Width of the frames that the encoder works on.
pub const RESULTING_WIDTH: usize = 1920;
/// Height of the frames that the encoder works on.
pub const RESULTING_HEIGHT: usize = 1080;
/// Number of pixels of a frame.
pub const RESULTING_RESOLUTION: usize = 2073600;

/// The encoder's state: the last colour planes, the Huffman tables, the bit
/// writer that fills packets, and the id of the frame being sent.
pub struct Capture {
    pub(crate) counter: i128,
    pub(crate) ycbcr: (Vec<u8>, Vec<u8>, Vec<u8>),
    pub(crate) width: u32,
    pub(crate) height: u32,
    pub(crate) second_last: u64,
    pub(crate) buffer_y: Vec<u8>,
    pub(crate) huff_table_dc: HashMap<u8, HuffCode>,
    pub(crate) huff_table_ac: HashMap<u16, HuffCode>,
    pub(crate) bit_writer: BitWriter,
    pub(crate) frame_id: u8,
}

impl Capture {
    /// The encoder's invariant: its tables are the standard ones and its bit
    /// writer is well formed.
    pub closed spec fn wf(&self) -> bool {
        &&& self.huff_table_dc@ == dc_table_map()
        &&& self.huff_table_ac@ == ac_table_map()
        &&& self.bit_writer.wf()
    }

    /// The bits written into the packet being filled.
    pub closed spec fn pending_bits(&self) -> Seq<bool> {
        self.bit_writer.bits()
    }

    /// The bytes of the packet being filled.
    pub closed spec fn pending_bytes(&self) -> Seq<u8> {
        self.bit_writer.bytes()
    }

    /// The pending bytes are the pending bits, padded with zeros to a whole byte.
    pub proof fn lemma_pending(&self)
        requires
            self.wf(),
        ensures
            self.pending_bytes().len() == nbytes(self.pending_bits()),
            bytes_bits(self.pending_bytes(), 8 * self.pending_bytes().len()) == padded(self.pending_bits()),
    {
        self.bit_writer.lemma_bytes();
        lemma_padded_bytes(self.pending_bytes(), self.pending_bits());
    }

    /// The id of the frame being sent.
    pub closed spec fn frame_id_spec(&self) -> u8 {
        self.frame_id
    }

    /// The luma plane and the two chroma planes.
    pub closed spec fn planes(&self) -> (Seq<u8>, Seq<u8>, Seq<u8>) {
        (self.ycbcr.0@, self.ycbcr.1@, self.ycbcr.2@)
    }

    /// The size of the captured frames.
    pub closed spec fn size(&self) -> (u32, u32) {
        (self.width, self.height)
    }

    /// The scratch buffer of the luma plane.
    pub closed spec fn scratch(&self) -> Seq<u8> {
        self.buffer_y@
    }

    /// The frame counter and the second at which it was last reset.
    pub closed spec fn counters(&self) -> (i128, u64) {
        (self.counter, self.second_last)
    }

    /// An encoder for captured frames of the given size, with the standard
    /// tables, no planes yet and an empty packet.
    pub fn new(width: u32, height: u32) -> (c: Self)
        ensures
            c.wf(),
            c.size() == (width, height),
            c.counters() == (-1i128, 0u64),
            c.planes() == (Seq::<u8>::empty(), Seq::<u8>::empty(), Seq::<u8>::empty()),
            c.pending_bits() == Seq::<bool>::empty(),
            c.frame_id_spec() == 0,
            c.scratch() == Seq::new(RESULTING_RESOLUTION as nat, |i: int| 0u8),
    {
        let dc_table = jpeg_dc_luminance_table();
        let ac_table = jpeg_ac_luminance_table();
        Capture {
            counter: -1,
            width,
            height,
            second_last: 0,
            ycbcr: (Vec::new(), Vec::new(), Vec::new()),
            buffer_y: vec![0u8; RESULTING_RESOLUTION],
            huff_table_dc: dc_table,
            huff_table_ac: ac_table,
            bit_writer: BitWriter::new(),
            frame_id: 0,
        }
    }

    /// The symbol of an AC entry: the code word of its run and category
    /// followed by its value bits, and the length of both.
    pub fn rle_to_bits_ac(&self, rle: (usize, i16)) -> (bits: (u32, u8))
        requires
            self.wf(),
            rle.1 != i16::MIN,
            ac_code_spec(rle.0 as u8, category_spec(rle.1 as int) as u8) is Some,
        ensures
            (bits.0 as int, bits.1 as nat) == coded(
                ac_code_spec(rle.0 as u8, category_spec(rle.1 as int) as u8)->0,
                rle.1 as int,
            ),
    {
        let cat = categorie(rle.1 as i16);
        let run = #[verifier::truncate] (rle.0 as u8);
        proof {
            lemma_ac_table_entries(run, cat as u8);
        }
        let key = ac_key_of(run, cat as u8);
        assert(key / 256 == run && key % 256 == cat);
        let huff = self.huff_table_ac.get(&key).unwrap();
        let bits = Self::symbol_bits(*huff, cat, rle.1);
        bits
    }

    /// The symbol of a DC entry: the code word of its category followed by
    /// its value bits, and the length of both.
    pub fn rle_to_bits_dc(&self, rle: (usize, i16)) -> (bits: (u32, u8))
        requires
            self.wf(),
            rle.1 != i16::MIN,
            dc_code_spec(category_spec(rle.1 as int) as u8) is Some,
        ensures
            (bits.0 as int, bits.1 as nat) == coded(
                dc_code_spec(category_spec(rle.1 as int) as u8)->0,
                rle.1 as int,
            ),
    {
        let cat = categorie(rle.1 as i16);
        proof {
            lemma_dc_table_entries(cat as u8);
        }
        let huff = self.huff_table_dc.get(&(cat as u8)).unwrap();
        let bits = Self::symbol_bits(*huff, cat, rle.1);
        bits
    }

    /// The code word followed by the value bits of `v`, of category `cat`.
    fn symbol_bits(huff: HuffCode, cat: usize, v: i16) -> (bits: (u32, u8))
        requires
            1 <= huff.len <= 16,
            huff.code < pow2(huff.len as nat),
            cat <= 11,
            v != i16::MIN,
            cat == category_spec(v as int),
        ensures
            (bits.0 as int, bits.1 as nat) == coded(huff, v as int),
    {
        proof {
            lemma2_to64();
            if huff.len < 16 {
                lemma_pow2_strictly_increases(huff.len as nat, 16);
            }
            lemma_value_bits(v as int, cat as nat);
            vstd::bits::lemma_u32_shl_is_mul(1, cat as u32);
            lemma_shift_i16(cat);
            vstd::bits::lemma_u16_shl_is_mul(1, cat as u16);
        }
        let mut y = (huff.code as u32) << cat;
        let ghost vb: int = value_bits(v as int, cat as nat);
        let low: u32 = if v > 0 {
            v as u32
        } else {
            (v + (1i16 << cat) - 1) as u32
        };
        assert(low == vb);
        proof {
            lemma_symbol_arith(huff.code, low, cat);
        }
        y = y | low;
        (y, huff.len + cat as u8)
    }

    /// Writes the symbols of the entries of `rle` from `counter` on, up to the
    /// start of the block after the next `block_count` blocks (or the end of
    /// `rle`); tells where it stopped and whether a write filled the packet.
    pub fn blocks_to_bits(&mut self, rle: &Vec<(usize, i16)>, counter: usize, block_count: usize) -> (r: (usize, bool))
        requires
            old(self).wf(),
            counter <= rle@.len(),
            forall|i: int|
                counter <= i < group_end(rle@, counter as int, 0, block_count as int) ==> encodable(
                    #[trigger] rle@[i],
                ),
        ensures
            final(self).wf(),
            r.0 == group_end(rle@, counter as int, 0, block_count as int),
            final(self).pending_bits() == old(self).pending_bits() + entries_bits(rle@, counter as int, r.0 as int),
            r.1 == (r.0 > counter && final(self).pending_bytes().len() >= MAX_SIZE),
            final(self).frame_id_spec() == old(self).frame_id_spec(),
            final(self).planes() == old(self).planes(),
            final(self).size() == old(self).size(),
            final(self).counters() == old(self).counters(),
            final(self).scratch() == old(self).scratch(),
    {
        let ghost start = counter;
        let ghost end = group_end(rle@, counter as int, 0, block_count as int);
        let ghost bits0 = self.pending_bits();
        let mut dc_counter: usize = 0;
        let mut over_max_packet_size = false;
        let mut counter = counter;
        proof {
            lemma_group_end_bounds(rle@, counter as int, 0, block_count as int);
        }
        while counter < rle.len()
            invariant
                self.wf(),
                start <= counter <= end <= rle@.len(),
                dc_counter <= block_count,
                end == group_end(rle@, start as int, 0, block_count as int),
                group_end(rle@, counter as int, dc_counter as int, block_count as int) == end,
                forall|i: int| start <= i < end ==> encodable(#[trigger] rle@[i]),
                self.pending_bits() == bits0 + entries_bits(rle@, start as int, counter as int),
                over_max_packet_size == (counter > start && self.pending_bytes().len() >= MAX_SIZE),
                self.frame_id_spec() == old(self).frame_id_spec(),
                self.planes() == old(self).planes(),
                self.size() == old(self).size(),
                self.counters() == old(self).counters(),
                self.scratch() == old(self).scratch(),
            ensures
                counter == end,
                self.wf(),
                self.pending_bits() == bits0 + entries_bits(rle@, start as int, counter as int),
                over_max_packet_size == (counter > start && self.pending_bytes().len() >= MAX_SIZE),
                self.frame_id_spec() == old(self).frame_id_spec(),
                self.planes() == old(self).planes(),
                self.size() == old(self).size(),
                self.counters() == old(self).counters(),
                self.scratch() == old(self).scratch(),
            decreases rle@.len() - counter,
        {
            let huff_run = rle[counter].0;
            if dc_counter == block_count && huff_run == 17 {
                break;
            }
            let entry = rle[counter];
            proof {
                let next_dc = if huff_run == 17 { dc_counter + 1 } else { dc_counter as int };
                lemma_group_end_bounds(rle@, counter + 1, next_dc, block_count as int);
                assert(group_end(rle@, counter as int, dc_counter as int, block_count as int) == group_end(rle@, counter + 1, next_dc, block_count as int));
            }
            assert(counter < end);
            assert(encodable(entry));
            let huff = if huff_run == 17 {
                dc_counter += 1;
                self.rle_to_bits_dc(entry)
            } else {
                self.rle_to_bits_ac(entry)
            };
            assert((huff.0 as int, huff.1 as nat) == symbol(entry));
            proof {
                crate::huffcode::lemma_category_bounds(if entry.1 < 0 { -(entry.1 as int) } else { entry.1 as int });
                let h = entry_code(entry)->0;
                if huff_run == 17 {
                    crate::huffcode::lemma_dc_table_entries(crate::huffcode::category_spec(entry.1 as int) as u8);
                } else {
                    crate::huffcode::lemma_ac_table_entries(entry.0 as u8, crate::huffcode::category_spec(entry.1 as int) as u8);
                }
                self.bit_writer.lemma_bytes();
                lemma_appended_is_code_bits(huff.0 as u64, huff.1 as nat, self.bit_writer.fill());
            }
            let ghost before_len = self.pending_bytes().len();
            let ghost before_bitlen = self.pending_bits().len();
            let ghost before_bits = self.pending_bits();
            let full = self.bit_writer.write_bits(huff.0 as u64, huff.1);
            over_max_packet_size = over_max_packet_size || full;
            proof {
                self.bit_writer.lemma_bytes();
                assert(self.pending_bytes().len() >= before_len);
                assert(entries_bits(rle@, start as int, counter + 1) == entries_bits(rle@, start as int, counter as int) + entry_bits(rle@[counter as int]));
                assert(self.pending_bits() =~= bits0 + entries_bits(rle@, start as int, counter + 1));
            }
            counter += 1;
        }
        (counter, over_max_packet_size)
    }

    /// No bits wait in the packet buffer.
    pub open spec fn idle(&self) -> bool {
        self.pending_bits() == Seq::<bool>::empty()
    }

    /// The datagram of a packet of this frame: frame id, fragment id, block
    /// count (high byte, low byte), then the payload.
    pub fn udp_send(&self, fragment_id: u8, block_count: u16, data: Vec<u8>) -> (buffer: Vec<u8>)
        ensures
            buffer@ == seq![
                self.frame_id_spec(),
                fragment_id,
                (block_count / 256) as u8,
                (block_count % 256) as u8,
            ] + data@,
    {
        let mut buffer: Vec<u8> = Vec::new();
        buffer.push(self.frame_id);
        buffer.push(fragment_id);
        assert((block_count >> 8) as u8 == (block_count / 256) as u8) by (bit_vector);
        buffer.push((block_count >> 8) as u8);
        assert((block_count as u8) == (block_count % 256) as u8) by (bit_vector);
        buffer.push(#[verifier::truncate] (block_count as u8));
        let ghost head = buffer@;
        buffer.extend_from_slice(&data);
        assert(buffer@ =~= head + data@);
        buffer
    }

    /// Cuts a frame's run-length entries into packets: rounds of four luma
    /// blocks and one block of each chroma plane fill a packet until a round
    /// would reach `MAX_SIZE` bytes; the packet is then cut before that round.
    /// Returns the datagrams of the packets; the frame id goes up by one.
    #[verifier::rlimit(60)]
    #[verifier::spinoff_prover]
    pub fn send_packets(&mut self, y_rle: &Vec<(usize, i16)>, cb_rle: &Vec<(usize, i16)>, cr_rle: &Vec<(usize, i16)>) -> (datagrams: Vec<Vec<u8>>)
        requires
            old(self).wf(),
            old(self).idle(),
            y_rle@.len() >= 8,
            cb_rle@.len() >= 8,
            cr_rle@.len() >= 8,
            packets_spec(y_rle@, cb_rle@, cr_rle@) is Some,
        ensures
            final(self).wf(),
            final(self).idle(),
            final(self).frame_id_spec() == (if old(self).frame_id_spec() == 255 { 0 } else { old(self).frame_id_spec() + 1 }),
            final(self).planes() == old(self).planes(),
            final(self).size() == old(self).size(),
            final(self).counters() == old(self).counters(),
            final(self).scratch() == old(self).scratch(),
            datagrams@.len() == packets_spec(y_rle@, cb_rle@, cr_rle@)->0.len(),
            forall|i: int|
                0 <= i < datagrams@.len() ==> datagram_of(
                    #[trigger] datagrams@[i]@,
                    final(self).frame_id_spec(),
                    packets_spec(y_rle@, cb_rle@, cr_rle@)->0[i],
                ),
    {
        self.frame_id = self.frame_id.wrapping_add(1);
        let ghost fin = send_run(y_rle@, cb_rle@, cr_rle@, send_start())->0;
        let mut y_counter: usize = 0;
        let mut cb_counter: usize = 0;
        let mut old_cb_counter: usize = 0;
        let mut cr_counter: usize = 0;
        let mut old_cr_counter: usize = 0;
        let mut old_y_counter: usize = 0;
        let mut over_max_size = false;
        let mut block_counter: u32 = 0;
        let mut fragment_id: u8 = 0;
        let mut datagrams: Vec<Vec<u8>> = Vec::new();
        let ghost mut packets: Seq<Packet> = seq![];
        proof {
            assert(SendState { y: 0, cb: 0, cr: 0, bits: self.pending_bits(), block_counter: 0, fragment_id: 0, packets } == send_start());
        }
        while y_counter < y_rle.len()
            invariant
                self.wf(),
                self.frame_id_spec() == (if old(self).frame_id_spec() == 255 { 0 } else { old(self).frame_id_spec() + 1 }),
                self.planes() == old(self).planes(),
                self.size() == old(self).size(),
                self.counters() == old(self).counters(),
                self.scratch() == old(self).scratch(),
                over_max_size == false,
                send_run(y_rle@, cb_rle@, cr_rle@, send_start()) == Some(fin),
                send_run(
                    y_rle@,
                    cb_rle@,
                    cr_rle@,
                    SendState {
                        y: y_counter as int,
                        cb: cb_counter as int,
                        cr: cr_counter as int,
                        bits: self.pending_bits(),
                        block_counter: block_counter as int,
                        fragment_id: fragment_id as int,
                        packets,
                    },
                ) == Some(fin),
                cb_counter <= cb_rle@.len(),
                cr_counter <= cr_rle@.len(),
                datagrams@.len() == packets.len(),
                forall|i: int|
                    0 <= i < datagrams@.len() ==> datagram_of(
                        #[trigger] datagrams@[i]@,
                        self.frame_id_spec(),
                        packets[i],
                    ),
            decreases y_rle@.len() - y_counter, 256 - fragment_id,
        {
            let ghost s = SendState {
                y: y_counter as int,
                cb: cb_counter as int,
                cr: cr_counter as int,
                bits: self.pending_bits(),
                block_counter: block_counter as int,
                fragment_id: fragment_id as int,
                packets,
            };
            proof {
                lemma_run_step(y_rle@, cb_rle@, cr_rle@, s, fin);
                self.lemma_pending();
            }
            let slice_end = self.bit_writer.getlen();
            old_y_counter = y_counter;
            old_cb_counter = cb_counter;
            old_cr_counter = cr_counter;
            proof {
                crate::entropy::lemma_group_end_bounds(y_rle@, y_counter as int, 0, 4);
            }
            let (counter, over) = self.blocks_to_bits(y_rle, y_counter, 4);
            y_counter = counter;
            over_max_size = over_max_size || over;
            proof {
                self.lemma_pending();
            }
            let (counter, over) = self.blocks_to_bits(cb_rle, cb_counter, 1);
            cb_counter = counter;
            over_max_size = over_max_size || over;
            proof {
                self.lemma_pending();
                crate::entropy::lemma_group_end_bounds(cb_rle@, s.cb, 0, 1);
            }
            let (counter, over) = self.blocks_to_bits(cr_rle, cr_counter, 1);
            cr_counter = counter;
            over_max_size = over_max_size || over;
            proof {
                self.lemma_pending();
                crate::entropy::lemma_group_end_bounds(cr_rle@, s.cr, 0, 1);
                assert(self.pending_bits() == bits_after(cr_rle@, s.cr, 1, bits_after(cb_rle@, s.cb, 1, bits_after(y_rle@, s.y, 4, s.bits))));
                assert(over_max_size == round_over(y_rle@, cb_rle@, cr_rle@, s));
            }
            if over_max_size {
                over_max_size = false;
                y_counter = old_y_counter;
                cb_counter = old_cb_counter;
                cr_counter = old_cr_counter;
                let ghost b3 = self.pending_bits();
                let ghost bytes = self.pending_bytes();
                let mut packet = self.bit_writer.get_buffer();
                packet.truncate(slice_end);
                let ghost pk = Packet {
                    fragment_id: fragment_id,
                    block_count: block_counter as u16,
                    payload: padded(b3).take(8 * nbytes(s.bits) as int),
                };
                proof {
                    assert(packet@ =~= bytes.take(slice_end as int));
                    assert(bytes_bits(packet@, 8 * slice_end as nat) =~= pk.payload);
                }
                let datagram = self.udp_send(fragment_id, #[verifier::truncate] (block_counter as u16), packet);
                proof {
                    assert(datagram@.skip(4) =~= packet@);
                    assert(datagram_of(datagram@, self.frame_id_spec(), pk));
                    packets = packets.push(pk);
                }
                datagrams.push(datagram);
                fragment_id += 1;
                block_counter = 0;
                proof {
                    assert(self.pending_bits() =~= Seq::<bool>::empty());
                }
            } else {
                block_counter += 6;
            }
            proof {
                assert(SendState {
                    y: y_counter as int,
                    cb: cb_counter as int,
                    cr: cr_counter as int,
                    bits: self.pending_bits(),
                    block_counter: block_counter as int,
                    fragment_id: fragment_id as int,
                    packets,
                } == send_step(y_rle@, cb_rle@, cr_rle@, s));
            }
        }
        proof {
            self.lemma_pending();
            lemma_run_done(y_rle@, cb_rle@, cr_rle@, SendState {
                y: y_counter as int,
                cb: cb_counter as int,
                cr: cr_counter as int,
                bits: self.pending_bits(),
                block_counter: block_counter as int,
                fragment_id: fragment_id as int,
                packets,
            }, fin);
        }
        let ghost last = SendState {
            y: y_counter as int,
            cb: cb_counter as int,
            cr: cr_counter as int,
            bits: self.pending_bits(),
            block_counter: block_counter as int,
            fragment_id: fragment_id as int,
            packets,
        };
        assert(last == fin);
        if self.bit_writer.getlen() > 0 {
            let ghost b = self.pending_bits();
            let ghost bytes = self.pending_bytes();
            let packet = self.bit_writer.get_buffer();
            let ghost pk = Packet { fragment_id: fragment_id, block_count: block_counter as u16, payload: padded(b) };
            let datagram = self.udp_send(fragment_id, #[verifier::truncate] (block_counter as u16), packet);
            proof {
                assert(datagram@.skip(4) =~= packet@);
                assert(bytes_bits(packet@, 8 * bytes.len()) == padded(b));
                assert(datagram_of(datagram@, self.frame_id_spec(), pk));
                packets = packets.push(pk);
            }
            datagrams.push(datagram);
        }
        proof {
            self.lemma_pending();
            assert(self.pending_bits().len() == 0);
            assert(self.pending_bits() =~= Seq::<bool>::empty());
            assert(packets == final_packets(fin));
        }
        datagrams
    }

    /// The red, green and blue averages over the source block at `dest_pos`
    /// of a frame of four bytes per pixel.
    pub fn average_rgb(&self, pixels: &[u8], dest_pos: u32) -> (rgb: (u8, u8, u8))
        requires
            ({
                let bl = block_length(self.size().0);
                let last = (dest_pos + (bl - 1) + (bl - 1) * self.size().0) * 4;
                &&& last <= u32::MAX
                &&& last + 2 < pixels@.len()
            }),
        ensures
            rgb.0 == channel_average(pixels@, dest_pos as int, self.size().0, 0),
            rgb.1 == channel_average(pixels@, dest_pos as int, self.size().0, 1),
            rgb.2 == channel_average(pixels@, dest_pos as int, self.size().0, 2),
    {
        let block_length: u32 = if self.width == 1920 { 1 } else { 2 };
        let ghost bl = block_length as int;
        let ghost w = self.width as int;
        let ghost last = (dest_pos + (bl - 1) + (bl - 1) * w) * 4;
        let mut r_average: u32 = 0;
        let mut g_average: u32 = 0;
        let mut b_average: u32 = 0;
        let mut k: u32 = 0;
        while k < block_length * block_length
            invariant
                block_length == crate::convert::block_length(self.size().0),
                bl == block_length,
                w == self.size().0,
                last == (dest_pos + (bl - 1) + (bl - 1) * w) * 4,
                last <= u32::MAX,
                last + 2 < pixels@.len(),
                k <= bl * bl,
                r_average == block_sum(pixels@, dest_pos as int, w, bl, 0, k as nat),
                g_average == block_sum(pixels@, dest_pos as int, w, bl, 1, k as nat),
                b_average == block_sum(pixels@, dest_pos as int, w, bl, 2, k as nat),
                r_average <= 255 * k,
                g_average <= 255 * k,
                b_average <= 255 * k,
            decreases bl * bl - k,
        {
            let i = k / block_length;
            let j = k % block_length;
            assert(0 <= i < bl && 0 <= j < bl);
            assert(i * w <= (bl - 1) * w) by (nonlinear_arith)
                requires
                    0 <= i <= bl - 1,
                    0 <= w,
            ;
            let pos = ((dest_pos + j + (i * self.width)) * 4) as usize;
            r_average = r_average + pixels[pos] as u32;
            g_average = g_average + pixels[pos + 1] as u32;
            b_average = b_average + pixels[pos + 2] as u32;
            k = k + 1;
        }
        let r = (r_average / (block_length * block_length)) as u8;
        let b = (b_average / (block_length * block_length)) as u8;
        let g = (g_average / (block_length * block_length)) as u8;
        (r, g, b)
    }

    /// A full-size plane halved in both directions, each value the average
    /// of a 2x2 square.
    pub fn subsample_chroma(&self, plane: &Vec<u8>) -> (reduced: Vec<u8>)
        requires
            plane@.len() >= RESULTING_RESOLUTION,
        ensures
            reduced@ == subsampled(plane@),
    {
        let mut reduced: Vec<u8> = vec![0u8; RESULTING_RESOLUTION / 4];
        let mut index: usize = 0;
        while index < reduced.len()
            invariant
                plane@.len() >= RESULTING_RESOLUTION,
                reduced@.len() == 518400,
                index <= 518400,
                forall|k: int| 0 <= k < index ==> #[trigger] reduced@[k] == chroma_average(plane@, k),
            decreases 518400 - index,
        {
            proof {
                lemma_chroma_source_bounds(index as int);
            }
            let x_pos = index % (1920 / 2);
            let y_pos = index / (1920 / 2);
            let src_index = x_pos * 2 + y_pos * 2 * 1920;
            let mut average: u32 = 0;
            let mut i: usize = 0;
            while i < 2
                invariant
                    plane@.len() >= RESULTING_RESOLUTION,
                    src_index == chroma_source(index as int),
                    src_index + 1921 < 2073600,
                    i <= 2,
                    average == if i == 0 {
                        0
                    } else if i == 1 {
                        plane@[src_index as int] + plane@[src_index + 1]
                    } else {
                        plane@[src_index as int] + plane@[src_index + 1] + plane@[src_index + 1920]
                            + plane@[src_index + 1921]
                    },
                decreases 2 - i,
            {
                let row = src_index + i * 1920;
                average = average + plane[row] as u32;
                average = average + plane[row + 1] as u32;
                i = i + 1;
            }
            reduced.set(index, (average / 4) as u8);
            index = index + 1;
        }
        assert(reduced@ =~= subsampled(plane@));
        reduced
    }

    /// Stores the colour planes of a frame: the luma plane as it is and the
    /// two chroma planes halved in both directions.
    pub fn convert_rgbto_yuv_threaded(&mut self, y: Vec<u8>, cb: Vec<u8>, cr: Vec<u8>)
        requires
            cb@.len() >= RESULTING_RESOLUTION,
            cr@.len() >= RESULTING_RESOLUTION,
        ensures
            final(self).planes() == (y@, subsampled(cb@), subsampled(cr@)),
            final(self).wf() == old(self).wf(),
            final(self).pending_bits() == old(self).pending_bits(),
            final(self).pending_bytes() == old(self).pending_bytes(),
            final(self).frame_id_spec() == old(self).frame_id_spec(),
            final(self).size() == old(self).size(),
            final(self).counters() == old(self).counters(),
            final(self).scratch() == old(self).scratch(),
    {
        let cb_reduced = self.subsample_chroma(&cb);
        let cr_reduced = self.subsample_chroma(&cr);
        self.ycbcr = (y, cb_reduced, cr_reduced);
    }

    /// Sets the size of the captured frames.
    pub fn set_size(&mut self, width: u32, height: u32)
        ensures
            final(self).size() == (width, height),
            final(self).wf() == old(self).wf(),
            final(self).pending_bits() == old(self).pending_bits(),
            final(self).pending_bytes() == old(self).pending_bytes(),
            final(self).frame_id_spec() == old(self).frame_id_spec(),
            final(self).planes() == old(self).planes(),
            final(self).counters() == old(self).counters(),
            final(self).scratch() == old(self).scratch(),
    {
        self.width = width;
        self.height = height;
    }

    /// The number of frames counted since the frame rate was last reported.
    pub fn frame_counter(&self) -> (c: i128)
        ensures
            c == self.counters().0,
    {
        self.counter
    }

    /// Counts a frame for the frame rate: when the whole seconds since the
    /// start (`elapsed_secs`) have moved on, returns the frames counted,
    /// this one included, and starts counting again from 0.
    pub fn count_frame(&mut self, elapsed_secs: u64) -> (fps: Option<i128>)
        requires
            old(self).counters().0 < i128::MAX,
        ensures
            elapsed_secs != old(self).counters().1 ==> fps == Some((old(self).counters().0 + 1) as i128)
                && final(self).counters() == (0i128, elapsed_secs),
            elapsed_secs == old(self).counters().1 ==> fps is None
                && final(self).counters() == ((old(self).counters().0 + 1) as i128, elapsed_secs),
            final(self).wf() == old(self).wf(),
            final(self).pending_bits() == old(self).pending_bits(),
            final(self).pending_bytes() == old(self).pending_bytes(),
            final(self).frame_id_spec() == old(self).frame_id_spec(),
            final(self).planes() == old(self).planes(),
            final(self).size() == old(self).size(),
            final(self).scratch() == old(self).scratch(),
    {
        self.counter = self.counter + 1;
        if elapsed_secs != self.second_last {
            self.second_last = elapsed_secs;
            let fps = self.counter;
            self.counter = 0;
            Some(fps)
        } else {
            None
        }
    }

    /// A copy of the current colour planes, which the caller hands to the display.
    pub fn send_ycrcb(&self) -> (planes: (Vec<u8>, Vec<u8>, Vec<u8>))
        ensures
            (planes.0@, planes.1@, planes.2@) == self.planes(),
    {
        (self.ycbcr.0.clone(), self.ycbcr.1.clone(), self.ycbcr.2.clone())
    }
}

} // verus!
