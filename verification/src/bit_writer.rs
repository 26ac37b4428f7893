use vstd::prelude::*;

verus! {

/// A packet is closed once its buffer holds this many bytes.
pub const MAX_SIZE: usize = 1400;

/// Bit `j` of a byte, counted from the most significant bit (`j` in `0..8`).
pub open spec fn bit8(b: u8, j: int) -> bool {
    ((b >> ((7 - j) as u8)) & 1u8) == 1u8
}

/// Bit `i` of a 64-bit word, counted from the most significant bit (`i` in `0..64`).
pub open spec fn bit64(w: u64, i: int) -> bool {
    ((w >> ((63 - i) as u64)) & 1u64) == 1u64
}

/// The first `n` bits of a byte sequence, most significant bit of each byte first.
pub open spec fn bytes_bits(s: Seq<u8>, n: nat) -> Seq<bool> {
    Seq::new(n, |i: int| bit8(s[i / 8], i % 8))
}

/// Bit `j` (from the most significant end) of the `len` low bits of `code`.
pub open spec fn code_bit(code: u64, len: nat, j: int) -> bool {
    bit64(code, 64 - len + j)
}

/// The bits that `write_bits(code, len)` appends when the last byte already holds
/// `current` bits: the `len` low bits of `code`, most significant first, except
/// that a bit that lies more than 64 positions past the start of the last byte
/// comes out as 0.
pub open spec fn appended_bits(code: u64, len: nat, current: nat) -> Seq<bool> {
    Seq::new(len, |j: int| j < 64 - current && code_bit(code, len, j))
}

/// Shifting a word left by 8 moves each bit up by 8 places.
proof fn lemma_shl8(w: u64, i: u64)
    by (bit_vector)
    requires
        i < 64,
    ensures
        i < 56 ==> (((w << 8u64) >> ((63 - i) as u64)) & 1u64) == ((w >> ((63 - (i + 8)) as u64))
            & 1u64),
        i >= 56 ==> (((w << 8u64) >> ((63 - i) as u64)) & 1u64) == 0u64,
{
}

/// Shifting a word right by `c` moves each bit down by `c` places.
proof fn lemma_shr(w: u64, c: u64, i: u64)
    by (bit_vector)
    requires
        i < 64,
        c < 64,
    ensures
        i >= c ==> (((w >> c) >> ((63 - i) as u64)) & 1u64) == ((w >> ((63 - (i - c)) as u64))
            & 1u64),
        i < c ==> (((w >> c) >> ((63 - i) as u64)) & 1u64) == 0u64,
{
}

/// The top byte of a word holds its first 8 bits.
proof fn lemma_top_byte(w: u64, j: u64)
    by (bit_vector)
    requires
        j < 8,
    ensures
        ((((w >> 56u64) as u8) >> ((7 - j) as u8)) & 1u8) == ((w >> ((63 - j) as u64)) & 1u64) as u8,
{
}

/// A bit of the or of two bytes is set when it is set in either.
proof fn lemma_or_byte(a: u8, b: u8, j: u8)
    by (bit_vector)
    requires
        j < 8,
    ensures
        (((a | b) >> ((7 - j) as u8)) & 1u8) == 1u8 <==> ((a >> ((7 - j) as u8)) & 1u8) == 1u8 || ((b
            >> ((7 - j) as u8)) & 1u8) == 1u8,
{
}

/// Shifting `len` low bits of a code to the top puts them first.
proof fn lemma_align(code: u64, len: u64, i: u64)
    by (bit_vector)
    requires
        1 <= len <= 64,
        i < 64,
    ensures
        i < len ==> (((code << ((64 - len) as u64)) >> ((63 - i) as u64)) & 1u64) == ((code >> ((63
            - (64 - len + i)) as u64)) & 1u64),
        i >= len ==> (((code << ((64 - len) as u64)) >> ((63 - i) as u64)) & 1u64) == 0u64,
{
}

/// A masked bit is 0 or 1.
proof fn lemma_bit_is_0_or_1(w: u64, s: u64)
    by (bit_vector)
    ensures
        ((w >> s) & 1u64) == 0u64 || ((w >> s) & 1u64) == 1u64,
{
}

/// Packs codes of up to 64 bits into bytes, most significant bit first.
pub struct BitWriter {
    buffer: Vec<u8>,
    buffer_counter: u32,
    current: u32,
}

impl BitWriter {
    /// The number of bits written so far.
    pub closed spec fn bit_len(&self) -> nat {
        if self.current == 0 {
            8 * self.buffer@.len()
        } else {
            (8 * (self.buffer@.len() - 1) + self.current) as nat
        }
    }

    /// The bytes of the buffer.
    pub closed spec fn bytes(&self) -> Seq<u8> {
        self.buffer@
    }

    /// The bits written so far.
    pub closed spec fn bits(&self) -> Seq<bool> {
        bytes_bits(self.buffer@, self.bit_len())
    }

    /// The writer's byte counter.
    pub closed spec fn byte_counter(&self) -> u32 {
        self.buffer_counter
    }

    /// The number of bits that the last byte holds (0 when it is full).
    pub closed spec fn fill(&self) -> nat {
        self.current as nat
    }

    /// The writer's invariant: the last byte holds `current` bits and its
    /// remaining bits are 0; the byte counter stays 0.
    pub closed spec fn wf(&self) -> bool {
        &&& self.byte_counter() == 0
        &&& self.current < 8
        &&& self.buffer@.len() == 0 ==> self.current == 0
        &&& self.current > 0 ==> forall|j: int|
            self.current <= j < 8 ==> !#[trigger] bit8(self.buffer@.last(), j)
    }

    /// The buffer's bytes are its bits, padded with zeros to a whole byte.
    pub proof fn lemma_bytes(&self)
        requires
            self.wf(),
        ensures
            self.bit_len() <= 8 * self.bytes().len() < self.bit_len() + 8,
            self.bits().len() == self.bit_len(),
            self.bits() == bytes_bits(self.bytes(), self.bit_len()),
            self.fill() == self.bit_len() % 8,
            forall|i: int|
                self.bit_len() <= i < 8 * self.bytes().len() ==> !#[trigger] bit8(
                    self.bytes()[i / 8],
                    i % 8,
                ),
    {
        assert forall|i: int| self.bit_len() <= i < 8 * self.bytes().len() implies !#[trigger] bit8(
            self.bytes()[i / 8],
            i % 8,
        ) by {
            assert(i / 8 == self.buffer@.len() - 1);
            assert(self.buffer@.last() == self.bytes()[i / 8]);
            assert(i % 8 >= self.current);
        }
    }

    /// An empty writer.
    pub fn new() -> (w: Self)
        ensures
            w.wf(),
            w.bits() == Seq::<bool>::empty(),
            w.bytes() == Seq::<u8>::empty(),
            w.fill() == 0,
    {
        BitWriter { buffer: Vec::new(), buffer_counter: 0, current: 0 }
    }

    /// Appends the `len` low bits of `code`, most significant first; tells
    /// whether the buffer now holds at least `MAX_SIZE` bytes.
    #[verifier::rlimit(40)]
    pub fn write_bits(&mut self, code: u64, len: u8) -> (full: bool)
        requires
            old(self).wf(),
            1 <= len <= 64,
        ensures
            final(self).wf(),
            final(self).bits() == old(self).bits() + appended_bits(
                code,
                len as nat,
                old(self).fill(),
            ),
            full == (final(self).bytes().len() >= MAX_SIZE),
    {
        let ghost c0 = self.current as nat;
        let ghost len0 = len as nat;
        let ghost t = appended_bits(code, len0, c0);
        let ghost old_bits = self.bits();
        let mut newcode = code << (64 - len as usize);
        let mut len = len;
        proof {
            assert forall|i: int| 0 <= i < 64 implies #[trigger] bit64(newcode, i) == (i < len0
                && code_bit(code, len0, i)) by {
                lemma_align(code, len as u64, i as u64);
                lemma_bit_is_0_or_1(code, (63 - (64 - len0 + i)) as u64);
            }
        }
        while len > 0
            invariant
                self.wf(),
                len <= len0,
                len0 <= 64,
                c0 < 8,
                t == appended_bits(code, len0, c0),
                self.bits() == old_bits + t.take(len0 - len),
                len0 - len > 0 ==> self.current == 0 || len == 0,
                len0 - len == 0 ==> self.current == c0,
                forall|i: int|
                    0 <= i < len ==> #[trigger] bit64(newcode, i) == (if self.current == 0 {
                        t[len0 - len + i]
                    } else {
                        code_bit(code, len0, len0 - len + i)
                    }),
                len > 0 ==> forall|i: int| len <= i < 64 ==> !#[trigger] bit64(newcode, i),
            decreases len,
        {
            let ghost k = len0 - len;
            let ghost w = newcode;
            let ghost before = self.bits();
            let ghost blen = self.bit_len();
            assert(before.len() == blen);
            assert(before == old_bits + t.take(k as int));
            assert(old_bits.len() + k == blen);
            if self.current == 0 {
                let byte = #[verifier::truncate] ((newcode >> 64 - 8) as u8);
                self.buffer.push(byte);
                proof {
                    assert forall|j: int| 0 <= j < 8 implies #[trigger] bit8(byte, j) == bit64(w, j) by {
                        lemma_top_byte(w, j as u64);
                        lemma_bit_is_0_or_1(w, (63 - j) as u64);
                    }
                }
                newcode = newcode << 8;
                proof {
                    assert forall|i: int| 0 <= i < 64 implies #[trigger] bit64(newcode, i) == (i < 56
                        && bit64(w, i + 8)) by {
                        lemma_shl8(w, i as u64);
                        lemma_bit_is_0_or_1(w, (63 - (i + 8)) as u64);
                    }
                }
                if len < 8 {
                    self.current = len as u32;
                }
                len = if len >= 8 { len - 8 } else { 0 };
                proof {
                    if len > 0 {
                        assert forall|i: int| len <= i < 64 implies !#[trigger] bit64(newcode, i) by {
                            if i < 56 {
                                assert(!bit64(w, i + 8));
                            }
                        }
                    }
                    let n = self.bit_len();
                    let k2 = len0 - len;
                    assert(n == blen + (k2 - k));
                    assert forall|i: int| 0 <= i < n implies #[trigger] self.bits()[i] == (old_bits
                        + t.take(k2))[i] by {
                        if i >= blen {
                            assert(i / 8 == self.buffer@.len() - 1);
                            assert(i % 8 == i - blen);
                            assert(bit8(byte, i - blen) == bit64(w, i - blen));
                            assert(bit64(w, i - blen) == t[k + (i - blen)]);
                            assert(old_bits.len() + k == blen);
                        } else {
                            assert(i / 8 < self.buffer@.len() - 1);
                            assert(before[i] == self.bits()[i]);
                        }
                    }
                    assert(self.bits() =~= old_bits + t.take(k2));
                    if self.current > 0 {
                        assert forall|j: int| self.current <= j < 8 implies !#[trigger] bit8(
                            self.buffer@.last(),
                            j,
                        ) by {
                            assert(bit8(byte, j) == bit64(w, j));
                        }
                    }
                }
            } else {
                let c = self.current;
                newcode = newcode >> self.current;
                proof {
                    assert forall|i: int| 0 <= i < 64 implies #[trigger] bit64(newcode, i) == (i
                        >= c && bit64(w, i - c)) by {
                        lemma_shr(w, c as u64, i as u64);
                        lemma_bit_is_0_or_1(w, (63 - (i - c)) as u64);
                    }
                }
                let last = self.buffer.len() - 1;
                let old_byte = self.buffer[last];
                assert(self.buffer@.last() == old_byte);
                assert forall|j: int| c <= j < 8 implies !#[trigger] bit8(old_byte, j) by {
                    assert(!bit8(self.buffer@.last(), j));
                }
                let top = #[verifier::truncate] ((newcode >> 64 - 8) as u8);
                let ghost w2 = newcode;
                proof {
                    assert forall|j: int| 0 <= j < 8 implies #[trigger] bit8(top, j) == bit64(w2, j) by {
                        lemma_top_byte(w2, j as u64);
                        lemma_bit_is_0_or_1(w2, (63 - j) as u64);
                    }
                }
                let byte = old_byte | top;
                self.buffer.set(last, byte);
                proof {
                    assert forall|j: int| 0 <= j < 8 implies #[trigger] bit8(byte, j) == (bit8(
                        old_byte,
                        j,
                    ) || bit64(w2, j)) by {
                        lemma_or_byte(old_byte, top, j as u8);
                        assert(bit8(top, j) == bit64(w2, j));
                    }
                }
                if (self.current + (len as u32)) < 8 {
                    self.current = self.current + len as u32;
                    len = 0;
                } else {
                    newcode = newcode << 8;
                    proof {
                        assert forall|i: int| 0 <= i < 64 implies #[trigger] bit64(newcode, i) == (i
                            < 56 && bit64(w2, i + 8)) by {
                            lemma_shl8(w2, i as u64);
                            lemma_bit_is_0_or_1(w2, (63 - (i + 8)) as u64);
                        }
                    }
                    len = len - (8 - self.current as u8);
                    self.current = 0;
                    proof {
                        assert forall|i: int| len <= i < 64 implies !#[trigger] bit64(newcode, i) by {
                            if i < 56 && i + 8 >= c {
                                assert(!bit64(w, i + 8 - c));
                            }
                        }
                    }
                }
                proof {
                    let n = self.bit_len();
                    let k2 = len0 - len;
                    assert(k == 0);
                    assert(n == blen + k2);
                    assert forall|i: int| 0 <= i < n implies #[trigger] self.bits()[i] == (old_bits
                        + t.take(k2))[i] by {
                        if i >= blen - c {
                            assert(i / 8 == self.buffer@.len() - 1);
                            assert(i % 8 == i - (blen - c));
                            if i < blen {
                                assert(before[i] == bit8(old_byte, i % 8));
                            } else {
                                assert(!bit8(old_byte, i % 8));
                            }
                        } else {
                            assert(i / 8 < self.buffer@.len() - 1);
                            assert(before[i] == self.bits()[i]);
                        }
                    }
                    assert(self.bits() =~= old_bits + t.take(k2));
                    if self.current > 0 {
                        assert forall|j: int| self.current <= j < 8 implies !#[trigger] bit8(
                            self.buffer@.last(),
                            j,
                        ) by {
                            assert(!bit8(old_byte, j));
                        }
                    }
                }
            }
        }
        proof {
            assert(t.take(len0 as int) =~= t);
        }
        self.buffer.len() >= MAX_SIZE
    }

    /// The number of bytes in the buffer, the partly filled last byte included.
    pub fn getlen(&self) -> (n: usize)
        ensures
            n == self.bytes().len(),
    {
        self.buffer.len()
    }

    /// Hands out the buffer and leaves the writer empty.
    pub fn get_buffer(&mut self) -> (buffer: Vec<u8>)
        ensures
            buffer@ == old(self).bytes(),
            final(self).wf(),
            final(self).bits() == Seq::<bool>::empty(),
            final(self).bytes() == Seq::<u8>::empty(),
            final(self).fill() == 0,
    {
        self.buffer_counter = 0;
        self.current = 0;
        let mut buffer = Vec::new();
        std::mem::swap(&mut buffer, &mut self.buffer);
        buffer
    }

    /// The number of bits that the last byte holds (0 when it is full), as
    /// the diagnostic print of the writer shows it.
    pub fn current(&self) -> (c: u32)
        ensures
            c == self.fill(),
    {
        self.current
    }

    /// The buffer's bytes, as the diagnostic print of the writer shows them.
    pub fn buffer(&self) -> (b: &Vec<u8>)
        ensures
            b@ == self.bytes(),
    {
        &self.buffer
    }

    /// The byte counter that the diagnostic print of the writer shows; no
    /// write moves it, so it is 0 for a well-formed writer.
    pub fn buffer_counter(&self) -> (c: u32)
        ensures
            c == self.byte_counter(),
            self.wf() ==> c == 0,
    {
        self.buffer_counter
    }
}

} // verus!
