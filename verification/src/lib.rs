//! Screen-frame compression: colour planes, 8x8 block layout, zigzag and
//! run-length coding, JPEG Huffman coding into bit packets, and decoding.
//!
//! The encoder (`capture`, with `convert`, `layout`, `zigzag`, `rle`) turns
//! colour planes into run-length entries and cuts their Huffman symbols
//! (`huffcode`, `entropy`, `bit_writer`) into packets (`packets`). The
//! receiver (`reciever`, with `lut` and `decoder`) decodes packets and
//! assembles frames. `codec_laws` and `packet_laws` state and prove that the
//! receiver gets back what the sender coded.
pub mod bit_writer;
pub mod huffcode;

pub mod capture;
pub mod convert;
pub mod zigzag;
pub mod rle;
pub mod layout;
pub mod entropy;
pub mod packets;
pub mod lut;
pub mod decoder;
pub mod reciever;
pub mod codec_laws;
pub mod packet_laws;
