use screen_codec::bit_writer::BitWriter;
use screen_codec::capture::Capture;
use screen_codec::huffcode::{categorie, jpeg_ac_luminance_table, jpeg_dc_luminance_table, HuffCode};
use screen_codec::zigzag::ZIGZAG_ORDER;

fn block(values: &[(usize, i16)]) -> Vec<i16> {
    let mut b = vec![0i16; 64];
    for &(i, v) in values {
        b[i] = v;
    }
    b
}

#[test]
fn huffcode_new_keeps_fields() {
    let h = HuffCode::new(0b1010, 4);
    assert_eq!(h.code, 0b1010);
    assert_eq!(h.len, 4);
}

#[test]
fn dc_table_has_the_twelve_categories() {
    let t = jpeg_dc_luminance_table();
    assert_eq!(t.len(), 12);
    assert_eq!(t[&0], HuffCode { code: 0b00, len: 2 });
    assert_eq!(t[&1], HuffCode { code: 0b010, len: 3 });
    assert_eq!(t[&5], HuffCode { code: 0b110, len: 3 });
    assert_eq!(t[&11], HuffCode { code: 0b111111110, len: 9 });
    assert!(t.get(&12).is_none());
}

#[test]
fn ac_table_has_the_standard_codes() {
    let t = jpeg_ac_luminance_table();
    assert_eq!(t.len(), 162);
    // end of block, sixteen zeros, and a few ordinary symbols (key = run * 256 + category)
    assert_eq!(t[&0x000], HuffCode { code: 0b1010, len: 4 });
    assert_eq!(t[&0xF00], HuffCode { code: 0b11111111001, len: 11 });
    assert_eq!(t[&0x001], HuffCode { code: 0b00, len: 2 });
    assert_eq!(t[&0x002], HuffCode { code: 0b01, len: 2 });
    assert_eq!(t[&0x101], HuffCode { code: 0b1100, len: 4 });
    assert_eq!(t[&0xF0A], HuffCode { code: 0b1111111111111110, len: 16 });
    assert!(t.get(&0x100).is_none());
}

#[test]
fn categorie_counts_the_bits_of_the_magnitude() {
    assert_eq!(categorie(0), 0);
    assert_eq!(categorie(1), 1);
    assert_eq!(categorie(-1), 1);
    assert_eq!(categorie(2), 2);
    assert_eq!(categorie(3), 2);
    assert_eq!(categorie(-4), 3);
    assert_eq!(categorie(1023), 10);
    assert_eq!(categorie(-1024), 11);
    assert_eq!(categorie(2047), 11);
    assert_eq!(categorie(i16::MAX), 15);
}

#[test]
fn bit_writer_packs_bits_most_significant_first() {
    let mut w = BitWriter::new();
    assert_eq!(w.getlen(), 0);
    assert!(!w.write_bits(0b101, 3));
    assert_eq!(w.getlen(), 1);
    assert_eq!(w.current(), 3);
    assert!(!w.write_bits(0b11110000_1, 9));
    assert_eq!(w.buffer(), &vec![0b1011_1110, 0b0001_0000]);
    assert_eq!(w.current(), 4);
    let bytes = w.get_buffer();
    assert_eq!(bytes, vec![0b1011_1110, 0b0001_0000]);
    assert_eq!(w.getlen(), 0);
    assert_eq!(w.current(), 0);
    assert_eq!(w.buffer_counter(), 0);
}

#[test]
fn bit_writer_reports_a_full_packet() {
    let mut w = BitWriter::new();
    let mut full = false;
    for _ in 0..1399 {
        full = w.write_bits(0xAB, 8);
    }
    assert!(!full);
    assert!(w.write_bits(0xCD, 8));
    assert_eq!(w.getlen(), 1400);
}

#[test]
fn zigzag_reads_blocks_in_zigzag_order() {
    let c = Capture::new(1920, 1080);
    let v: Vec<i16> = (0..128).map(|x| x as i16).collect();
    let z = c.zigzag(&v);
    for i in 0..64 {
        assert_eq!(z[i], ZIGZAG_ORDER[i] as i16);
        assert_eq!(z[64 + i], 64 + ZIGZAG_ORDER[i] as i16);
    }
    assert_eq!(c.inverse_zigzag(&z), v);
    assert_eq!(c.zigzag(&c.inverse_zigzag(&v)), v);
}

#[test]
fn rle_encoding_of_blocks() {
    let c = Capture::new(1920, 1080);
    // a block of zeros after the DC value ends with (0, 0)
    let b1 = block(&[(0, 5)]);
    assert_eq!(c.rle_encoding(&b1), vec![(17, 5), (0, 0)]);
    // a nonzero last value needs no end of block
    let b2 = block(&[(0, -3), (1, 2), (63, 7)]);
    assert_eq!(c.rle_encoding(&b2), vec![(17, -3), (0, 2), (15, 0), (15, 0), (15, 0), (13, 7)]);
    // sixteen zeros before a value come as (15, 0)
    let b3 = block(&[(0, 1), (17, 4)]);
    assert_eq!(c.rle_encoding(&b3), vec![(17, 1), (15, 0), (0, 4), (0, 0)]);
    let mut two = b1.clone();
    two.extend_from_slice(&b3);
    assert_eq!(c.rle_encoding(&two), vec![(17, 5), (0, 0), (17, 1), (15, 0), (0, 4), (0, 0)]);
}

#[test]
fn rle_decoding_undoes_rle_encoding() {
    let c = Capture::new(1920, 1080);
    let mut v = block(&[(0, 100), (1, -7), (2, 3), (40, 1)]);
    v.extend_from_slice(&block(&[(0, -50), (63, 9)]));
    v.extend_from_slice(&block(&[]));
    let rle = c.rle_encoding(&v);
    assert_eq!(c.rle_decoding(&rle), v);
    assert_eq!(c.rle_decoding(&vec![(17, 4), (2, 3), (0, 0)]), block(&[(0, 4), (3, 3)]));
}

#[test]
fn rle_to_bits_codes_symbols() {
    let c = Capture::new(1920, 1080);
    // DC 5: category 3, code 100, value bits 101
    assert_eq!(c.rle_to_bits_dc((17, 5)), (0b100_101, 6));
    // DC -5: value bits -5 + 7 = 010
    assert_eq!(c.rle_to_bits_dc((17, -5)), (0b100_010, 6));
    // DC 0: category 0, code 00
    assert_eq!(c.rle_to_bits_dc((17, 0)), (0b00, 2));
    // AC (0, -1): code 00, value bit 0
    assert_eq!(c.rle_to_bits_ac((0, -1)), (0b00_0, 3));
    // AC (1, 1): code 1100, value bit 1
    assert_eq!(c.rle_to_bits_ac((1, 1)), (0b1100_1, 5));
    // end of block and sixteen zeros
    assert_eq!(c.rle_to_bits_ac((0, 0)), (0b1010, 4));
    assert_eq!(c.rle_to_bits_ac((15, 0)), (0b11111111001, 11));
}

#[test]
fn udp_send_builds_the_header() {
    let c = Capture::new(1920, 1080);
    let d = c.udp_send(3, 0x0102, vec![9, 8, 7]);
    assert_eq!(d, vec![0, 3, 1, 2, 9, 8, 7]);
}

#[test]
fn blocks_to_bits_writes_whole_groups() {
    let mut c = Capture::new(1920, 1080);
    let rle = vec![(17, 5), (0, 0), (17, 0), (0, 0), (17, 1), (0, 0)];
    let (end, over) = c.blocks_to_bits(&rle, 0, 2);
    assert_eq!(end, 4);
    assert!(!over);
    let (end, over) = c.blocks_to_bits(&rle, 4, 2);
    assert_eq!(end, 6);
    assert!(!over);
}

#[test]
fn send_packets_cuts_one_small_frame_into_one_packet() {
    let mut c = Capture::new(1920, 1080);
    let mut y = Vec::new();
    for _ in 0..8 {
        y.push((17, 0));
        y.push((0, 0));
    }
    let mut cb = Vec::new();
    for _ in 0..4 {
        cb.push((17, 0));
        cb.push((0, 0));
    }
    let cr = cb.clone();
    let datagrams = c.send_packets(&y, &cb, &cr);
    assert_eq!(datagrams.len(), 1);
    let d = &datagrams[0];
    // frame 1, fragment 0, 12 blocks
    assert_eq!(&d[0..4], &[1, 0, 0, 12]);
    // 12 blocks of "DC 0, end of block": 00 1010, six bits each
    assert_eq!(d.len(), 4 + 9);
    assert_eq!(d[4], 0b0010_1000);
    let again = c.send_packets(&y, &cb, &cr);
    assert_eq!(again[0][0], 2);
}

#[test]
fn capture_stores_the_converted_planes() {
    let mut c = Capture::new(1920, 1080);
    let (y0, cb0, cr0) = c.send_ycrcb();
    assert!(y0.is_empty() && cb0.is_empty() && cr0.is_empty());
    let y = vec![7u8; 1920 * 1080];
    let mut cb = vec![0u8; 1920 * 1080];
    cb[0] = 4;
    cb[1] = 8;
    cb[1920] = 12;
    cb[1921] = 16;
    let cr = vec![200u8; 1920 * 1080];
    c.convert_rgbto_yuv_threaded(y.clone(), cb, cr);
    let (y1, cb1, cr1) = c.send_ycrcb();
    assert_eq!(y1, y);
    assert_eq!(cb1.len(), 960 * 540);
    assert_eq!(cb1[0], 10);
    assert_eq!(cb1[1], 0);
    assert_eq!(cr1[5000], 200);
}

#[test]
fn average_rgb_averages_the_source_block() {
    // at full width a single pixel is read
    let c = Capture::new(1920, 1080);
    let mut px = vec![0u8; 1920 * 4 * 2];
    px[4 * 3] = 10;
    px[4 * 3 + 1] = 20;
    px[4 * 3 + 2] = 30;
    assert_eq!(c.average_rgb(&px, 3), (10, 20, 30));
    // at another width, a 2x2 block is averaged
    let c = Capture::new(4, 2);
    let mut px = vec![0u8; 4 * 4 * 2];
    for (pixel, r) in [(0usize, 10u8), (1, 20), (4, 30), (5, 41)] {
        px[pixel * 4] = r;
        px[pixel * 4 + 2] = 255;
    }
    assert_eq!(c.average_rgb(&px, 0), (25, 0, 255));
}

#[test]
fn subsample_chroma_averages_squares() {
    let c = Capture::new(1920, 1080);
    let mut plane = vec![0u8; 1920 * 1080];
    plane[2 * 3] = 1;
    plane[2 * 3 + 1] = 2;
    plane[1920 + 2 * 3] = 3;
    plane[1920 + 2 * 3 + 1] = 6;
    let r = c.subsample_chroma(&plane);
    assert_eq!(r.len(), 960 * 540);
    assert_eq!(r[3], 3);
    assert_eq!(r[2], 0);
}

#[test]
fn count_frame_reports_the_frames_of_each_second() {
    let mut c = Capture::new(1920, 1080);
    assert_eq!(c.frame_counter(), -1);
    assert_eq!(c.count_frame(0), None);
    assert_eq!(c.count_frame(0), None);
    assert_eq!(c.frame_counter(), 1);
    assert_eq!(c.count_frame(1), Some(2));
    assert_eq!(c.frame_counter(), 0);
    assert_eq!(c.count_frame(1), None);
    assert_eq!(c.count_frame(3), Some(2));
}

#[test]
fn average_rgb_ignores_alpha() {
    let c = Capture::new(4, 2);
    let mut px = vec![0u8; 4 * 4 * 2];
    for (i, b) in px.iter_mut().enumerate() {
        *b = (i * 7 % 256) as u8;
    }
    let mut other = px.clone();
    for i in (3..other.len()).step_by(4) {
        other[i] = 255 - other[i];
    }
    assert_eq!(c.average_rgb(&px, 1), c.average_rgb(&other, 1));
}
