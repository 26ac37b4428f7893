use screen_codec::capture::Capture;
use screen_codec::huffcode::{categorie, jpeg_ac_luminance_table, jpeg_dc_luminance_table};
use screen_codec::lut::{lut_ac, lut_dc, InvertedHuf};
use screen_codec::reciever::Reciever;

#[test]
fn luma_layout_round_trips() {
    let c = Capture::new(1920, 1080);
    let plane: Vec<u8> = (0..1920 * 1080).map(|i| ((i * 31 + i / 1920) % 251) as u8).collect();
    let blocks = c.linear_block_fast(&plane);
    assert_eq!(c.block_linear_fast(&blocks), plane);
    // the first row of the first block is the first eight values of the first row
    assert_eq!(&blocks[0..8], &plane[0..8]);
    // its second row is eight values of the second row
    assert_eq!(&blocks[8..16], &plane[1920..1928]);
    // reading each value from its source position gives the same blocks
    assert_eq!(c.linear_to_block_y(&plane), blocks);
}

#[test]
fn chroma_layout_round_trips_on_whole_block_rows() {
    let c = Capture::new(1920, 1080);
    let cr: Vec<u8> = (0..960 * 540).map(|i| (i % 253) as u8).collect();
    let cb: Vec<u8> = (0..960 * 540).map(|i| (i % 241) as u8).collect();
    let (crb, cbb) = c.linear_block_fast_crcb(&cr, &cb);
    assert_eq!(crb.len(), 960 * 540 + 3840);
    // past the whole rows of blocks come zeros up to the plane's length, then 128
    assert_eq!(crb[514560], 0);
    assert_eq!(crb[518400], 128);
    let (crl, cbl) = c.block_linear_fast_crcb(&crb, &cbb);
    assert_eq!(&crl[..514560], &cr[..514560]);
    assert_eq!(&cbl[..514560], &cb[..514560]);
    assert!(crl[514560..].iter().all(|&x| x == 0));
    // the edge-repeating layout agrees on the whole rows of blocks
    let (cbe, cre) = c.linear_to_block_cb_cr(&cb, &cr);
    assert_eq!(&cbe[..514560], &cbb[..514560]);
    assert_eq!(&cre[..514560], &crb[..514560]);
    // the last row of blocks reads the last rows, the last one repeated past the edge
    assert_eq!(cbe[514560], cb[536 * 960]);
    assert_eq!(cbe[514560 + 32], cb[539 * 960]);
    assert_eq!(cbe[514560 + 56 + 7], cb[539 * 960 + 7]);
}

#[test]
fn every_code_word_is_found_in_its_decoding_table() {
    let dc = jpeg_dc_luminance_table();
    let lut = lut_dc(&dc);
    for (&cat, h) in &dc {
        let start = (h.code << (16 - h.len)) as usize;
        let end = ((h.code + 1) << (16 - h.len)) as usize;
        for w in start..end {
            assert_eq!(lut[w], InvertedHuf { run: 17, cat, huf_len: h.len });
        }
    }
    let ac = jpeg_ac_luminance_table();
    let lut = lut_ac(&ac);
    for (&key, h) in &ac {
        let start = (h.code << (16 - h.len)) as usize;
        let end = ((h.code + 1) << (16 - h.len)) as usize;
        for w in start..end {
            assert_eq!(lut[w], InvertedHuf { run: (key / 256) as u8, cat: (key % 256) as u8, huf_len: h.len });
        }
    }
}

#[test]
fn value_bits_decode_to_the_value() {
    let r = Reciever::new().unwrap();
    for v in -2047i16..=2047 {
        let cat = categorie(v);
        let bits = if v > 0 { v as i32 } else { v as i32 + (1 << cat) - 1 };
        assert_eq!(r.decode_coefficient(bits as u32, cat as u8), v);
    }
}

#[test]
fn category_ignores_the_sign() {
    for v in -32767i16..=32767 {
        assert_eq!(categorie(v), categorie(-v));
    }
}
