use screen_codec::bit_writer::BitWriter;
use screen_codec::capture::Capture;
use screen_codec::huffcode::{jpeg_ac_luminance_table, jpeg_dc_luminance_table};
use screen_codec::lut::{lut_ac, lut_dc, InvertedHuf};
use screen_codec::reciever::{parse_datagram, Reciever};

/// The bytes of the symbols of `rle`, as the encoder writes them.
fn encode(rle: &[(usize, i16)]) -> Vec<u8> {
    let c = Capture::new(1920, 1080);
    let mut w = BitWriter::new();
    for &e in rle {
        let (bits, len) = if e.0 == 17 { c.rle_to_bits_dc(e) } else { c.rle_to_bits_ac(e) };
        w.write_bits(bits as u64, len);
    }
    w.get_buffer()
}

#[test]
fn new_receiver_succeeds() {
    assert!(Reciever::new().is_ok());
}

#[test]
fn decode_coefficient_undoes_value_bits() {
    let r = Reciever::new().unwrap();
    assert_eq!(r.decode_coefficient(0, 0), 0);
    assert_eq!(r.decode_coefficient(5, 3), 5);
    assert_eq!(r.decode_coefficient(2, 3), -5);
    assert_eq!(r.decode_coefficient(1, 1), 1);
    assert_eq!(r.decode_coefficient(0, 1), -1);
    assert_eq!(r.decode_coefficient(0, 11), -2047);
    assert_eq!(r.decode_coefficient(2047, 11), 2047);
}

#[test]
fn decoding_tables_look_up_code_words() {
    let dc = lut_dc(&jpeg_dc_luminance_table());
    let ac = lut_ac(&jpeg_ac_luminance_table());
    assert_eq!(dc.len(), 65536);
    assert_eq!(ac.len(), 65536);
    assert_eq!(dc[0x0000], InvertedHuf { run: 17, cat: 0, huf_len: 2 });
    assert_eq!(dc[0x3FFF], InvertedHuf { run: 17, cat: 0, huf_len: 2 });
    assert_eq!(dc[0x4000], InvertedHuf { run: 17, cat: 1, huf_len: 3 });
    assert_eq!(dc[0xFF00], InvertedHuf { run: 17, cat: 11, huf_len: 9 });
    assert_eq!(dc[0xFF7F], InvertedHuf { run: 17, cat: 11, huf_len: 9 });
    assert_eq!(dc[0xFF80], InvertedHuf { run: 0, cat: 0, huf_len: 0 });
    assert_eq!(dc[0xFFFF], InvertedHuf { run: 0, cat: 0, huf_len: 0 });
    assert_eq!(ac[0xA000], InvertedHuf { run: 0, cat: 0, huf_len: 4 });
    assert_eq!(ac[0x0000], InvertedHuf { run: 0, cat: 1, huf_len: 2 });
    assert_eq!(ac[0xFF20], InvertedHuf { run: 15, cat: 0, huf_len: 11 });
    assert_eq!(ac[0xFFFE], InvertedHuf { run: 15, cat: 10, huf_len: 16 });
    assert_eq!(ac[0xFFFF], InvertedHuf { run: 0, cat: 0, huf_len: 0 });
}

#[test]
fn huff_decoding_reads_back_encoded_blocks() {
    let r = Reciever::new().unwrap();
    let rle = vec![
        (17, -3), (0, 2), (15, 0), (15, 0), (15, 0), (13, 7),
        (17, 5), (0, 0),
        (17, 0), (3, -1000), (0, 0),
    ];
    let mut data = encode(&rle);
    while data.len() < 8 {
        data.push(0);
    }
    assert_eq!(r.huff_decoding_new(&data, 3), rle);
    // only the first blocks are read when fewer are asked for
    assert_eq!(r.huff_decoding_new(&data, 1), rle[0..6].to_vec());
}

#[test]
fn parse_datagram_reads_the_header() {
    let d = vec![0x01, 0x02, 7, 0x00, 0x0C, 1, 2, 3];
    assert_eq!(parse_datagram(&d), (258, 7, 12, vec![1, 2, 3]));
    assert_eq!(parse_datagram(&vec![0, 0, 0, 1, 0]), (0, 0, 256, vec![]));
}

/// The payload that the sender makes of four luma blocks and one block of
/// each chroma plane, each with only a DC value.
fn one_round_payload() -> Vec<u8> {
    let mut c = Capture::new(1920, 1080);
    let y = vec![(17, 10), (0, 0), (17, 20), (0, 0), (17, 30), (0, 0), (17, 40), (0, 0)];
    let cb = vec![(17, 9), (0, 0), (17, 9), (0, 0), (17, 9), (0, 0), (17, 9), (0, 0)];
    let cr = vec![(17, -3), (0, 0), (17, -3), (0, 0), (17, -3), (0, 0), (17, -3), (0, 0)];
    let datagrams = c.send_packets(&y, &cb, &cr);
    assert_eq!(datagrams.len(), 1);
    assert_eq!(&datagrams[0][0..4], &[1, 0, 0, 6]);
    datagrams[0][4..].to_vec()
}

#[test]
fn a_new_frame_completes_the_frame_four_before() {
    let mut r = Reciever::new().unwrap();
    let payload = one_round_payload();
    assert!(payload.len() >= 8);
    assert!(r.accepts_packet(1, 0));
    assert!(r.packets_to_frame(1, 0, &payload, 6).is_none());
    // another fragment of frame 1 joins it
    assert!(r.packets_to_frame(1, 1, &payload, 6).is_none());
    // frame 2 is missing, so frame 6 cannot complete it
    assert!(!r.accepts_packet(6, 81));
    // the first packet of frame 5 with a fragment number above 80 completes frame 1
    assert!(r.accepts_packet(5, 81));
    let (y, cr, cb) = r.packets_to_frame(5, 81, &payload, 6).unwrap();
    assert_eq!(y.len(), 1920 * 1080);
    assert_eq!(cr.len(), 960 * 540);
    assert_eq!(cb.len(), 960 * 540);
    // two fragments of four luma blocks each, in fragment order
    assert_eq!(&[y[0], y[64], y[128], y[192], y[256], y[320], y[448]], &[10, 20, 30, 40, 10, 20, 40]);
    assert_eq!(y[1], 0);
    assert_eq!(y[512], 0);
    assert_eq!(&[cb[0], cb[64], cb[128]], &[9, 9, 0]);
    assert_eq!(&[cr[0], cr[64], cr[128]], &[-3, -3, 0]);
    // frame 1 is gone: a later packet of frame 9 cannot complete it again
    assert!(r.packets_to_frame(5, 3, &payload, 6).is_none());
    assert!(r.accepts_packet(9, 90));
}

#[test]
fn a_first_fragment_below_81_starts_a_frame_only() {
    let mut r = Reciever::new().unwrap();
    let payload = one_round_payload();
    assert!(r.packets_to_frame(1, 0, &payload, 6).is_none());
    assert!(r.packets_to_frame(5, 80, &payload, 6).is_none());
    assert!(r.packets_to_frame(4, 200, &payload, 6).is_none());
    let (y, _, _) = r.frame_from_fragments(1);
    assert_eq!(y[192], 40);
}

#[test]
fn to_y_cb_cr_decodes_each_plane() {
    let r = Reciever::new().unwrap();
    let y = vec![(17, 1), (1, 2), (0, 0)];
    let cb = vec![(17, 3), (0, 0)];
    let cr = vec![(17, 4), (0, 5), (0, 0)];
    let (py, pcr, pcb) = r.to_y_cb_cr(y, cb, cr);
    assert_eq!(py.len(), 2073600);
    // (1, 2) is the third coefficient in zigzag order, at position 8
    assert_eq!(&[py[0], py[1], py[8]], &[1, 0, 2]);
    assert_eq!(&[pcr[0], pcr[1]], &[4, 5]);
    assert_eq!(pcb[0], 3);
    assert_eq!(pcb.len(), 518400);
}

/// Coefficients of `blocks` blocks with a few nonzero values in each.
fn coefficients(blocks: usize, seed: i16) -> Vec<i16> {
    let mut v = vec![0i16; 64 * blocks];
    for b in 0..blocks {
        v[64 * b] = seed * 10 + b as i16;
        v[64 * b + 1] = -3;
        v[64 * b + 9] = 7 + seed;
        v[64 * b + 20] = -100;
        v[64 * b + 63] = if b % 2 == 0 { 1 } else { 0 };
    }
    v
}

#[test]
fn a_frame_sent_in_packets_comes_back_at_the_receiver() {
    let mut sender = Capture::new(1920, 1080);
    let dy = coefficients(4, 1);
    let dcb = coefficients(2, 2);
    let dcr = coefficients(2, 3);
    let y = sender.rle_encoding(&sender.zigzag(&dy));
    let cb = sender.rle_encoding(&sender.zigzag(&dcb));
    let cr = sender.rle_encoding(&sender.zigzag(&dcr));
    let datagrams = sender.send_packets(&y, &cb, &cr);
    assert_eq!(datagrams.len(), 1);

    let mut r = Reciever::new().unwrap();
    for d in &datagrams {
        // the sender's header: frame, fragment, block count (two bytes)
        let payload = d[4..].to_vec();
        let block_count = ((d[2] as u16) << 8) | d[3] as u16;
        assert_eq!(block_count, 6);
        assert!(r.packets_to_frame(d[0] as u16, d[1], &payload, block_count).is_none());
    }
    let filler = datagrams[0][4..].to_vec();
    assert!(r.accepts_packet(5, 81));
    let (py, pcr, pcb) = r.packets_to_frame(5, 81, &filler, 6).unwrap();
    assert_eq!(&py[..256], &dy[..]);
    assert!(py[256..].iter().all(|&x| x == 0));
    assert_eq!(&pcb[..64], &dcb[..64]);
    assert_eq!(&pcr[..64], &dcr[..64]);
    assert!(pcb[64..].iter().all(|&x| x == 0));
    assert!(pcr[64..].iter().all(|&x| x == 0));
}

#[test]
fn coded_blocks_decode_back_to_their_coefficients() {
    let c = Capture::new(1920, 1080);
    let r = Reciever::new().unwrap();
    let v = coefficients(3, 4);
    let rle = c.rle_encoding(&v);
    let mut data = encode(&rle);
    while data.len() < 8 {
        data.push(0);
    }
    let decoded = r.huff_decoding_new(&data, 3);
    assert_eq!(decoded, rle);
    assert_eq!(c.rle_decoding(&decoded), v);
}
