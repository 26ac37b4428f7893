# screen_codec

A screen-sharing codec: captured frames are converted to colour planes,
rearranged into 8x8 blocks, transformed, read out in zigzag order, run-length
coded and Huffman coded with the JPEG luminance tables into packets of at most
1400 bytes; the receiver decodes the packets with 16-bit lookup tables,
assembles each frame from its fragments and hands the coefficient planes on.

- `src/` is the library, verified with Verus: every function has a contract,
  and `codec_laws.rs` and `packet_laws.rs` prove that decoding gives back what
  was coded, up to the frame the receiver assembles from all its packets.
- `app/` is the program around it: screen capture (Windows), the UDP receive
  loop, the window, and the floating-point DCT and colour conversion.
- `tests/` runs the library on concrete frames and packets.
