use vstd::prelude::*;
use crate::capture::Capture;

verus! {

/// The run marker of a DC entry: the first coefficient of a block.
pub const DC_RUN: usize = 17;

/// `m` entries of sixteen zeros each.
pub open spec fn zrls(m: nat) -> Seq<(usize, i16)> {
    Seq::new(m, |i: int| (15usize, 0i16))
}

/// The AC entries of block `b` from position `p` on, after `z` zeros that no
/// entry has yet accounted for: each nonzero value comes as `(zeros % 16, value)`
/// after one `(15, 0)` per sixteen zeros before it; a block whose last
/// coefficient is zero ends with `(0, 0)`; a block cut short ends with the
/// `(15, 0)` entries of its trailing zeros.
pub open spec fn enc_ac(b: Seq<i16>, p: int, z: nat) -> Seq<(usize, i16)>
    decreases 64 - p,
{
    if p >= b.len() || p >= 63 {
        if p == 63 && b.len() == 64 {
            if b[63] == 0 {
                seq![(0usize, 0i16)]
            } else {
                zrls(z / 16).push(((z % 16) as usize, b[63]))
            }
        } else {
            zrls(z / 16)
        }
    } else if b[p] == 0 {
        enc_ac(b, p + 1, z + 1)
    } else {
        zrls(z / 16).push(((z % 16) as usize, b[p])) + enc_ac(b, p + 1, 0)
    }
}

/// The entries of one block (of at most 64 coefficients): its DC entry, then its AC entries.
pub open spec fn enc_block(b: Seq<i16>) -> Seq<(usize, i16)> {
    seq![(17usize, b[0])] + enc_ac(b, 1, 0)
}

/// The start of the last (possibly partial) block of a vector of length `n > 0`.
pub open spec fn last_block_start(n: int) -> int {
    ((n - 1) / 64) * 64
}

/// The run-length entries of `v`, block after block.
pub open spec fn rle_encoding_spec(v: Seq<i16>) -> Seq<(usize, i16)>
    decreases v.len(),
{
    if v.len() == 0 {
        seq![]
    } else {
        let k = last_block_start(v.len() as int);
        rle_encoding_spec(v.take(k)) + enc_block(v.skip(k))
    }
}

/// What one run-length entry adds to the coefficients decoded so far.
pub open spec fn dec_step(pixels: Seq<i16>, e: (usize, i16)) -> Seq<i16> {
    if e.0 == 17 {
        pixels.push(e.1)
    } else if e.0 == 0 && e.1 == 0 {
        pixels + Seq::new((64 - pixels.len() % 64) as nat, |i: int| 0i16)
    } else {
        pixels + Seq::new(e.0 as nat, |i: int| 0i16).push(e.1)
    }
}

/// The coefficients that `rle` adds to `start`, entry after entry.
pub open spec fn dec_from(start: Seq<i16>, rle: Seq<(usize, i16)>) -> Seq<i16>
    decreases rle.len(),
{
    if rle.len() == 0 {
        start
    } else {
        dec_step(dec_from(start, rle.drop_last()), rle.last())
    }
}

/// The coefficients that `rle` decodes to.
pub open spec fn rle_decoding_spec(rle: Seq<(usize, i16)>) -> Seq<i16> {
    dec_from(Seq::empty(), rle)
}

/// The entries committed after reading positions `1..p` of block `b`, and the
/// number of zeros read since the last nonzero value.
pub open spec fn committed(b: Seq<i16>, p: int) -> (Seq<(usize, i16)>, nat)
    decreases p,
{
    if p <= 1 {
        (seq![], 0)
    } else {
        let (c, z) = committed(b, p - 1);
        if b[p - 1] == 0 {
            (c, z + 1)
        } else {
            (c + zrls(z / 16).push(((z % 16) as usize, b[p - 1])), 0)
        }
    }
}

proof fn lemma_committed(b: Seq<i16>, p: int)
    requires
        1 <= p <= 63,
        p <= b.len(),
    ensures
        enc_ac(b, 1, 0) == committed(b, p).0 + enc_ac(b, p, committed(b, p).1),
        committed(b, p).1 <= p - 1,
        committed(b, p).0.len() > 0 ==> committed(b, p).0.last().1 != 0,
    decreases p,
{
    if p > 1 {
        lemma_committed(b, p - 1);
        let (c, z) = committed(b, p - 1);
        if b[p - 1] == 0 {
        } else {
            let e = zrls(z / 16).push(((z % 16) as usize, b[p - 1]));
            assert(c + enc_ac(b, p - 1, z) == (c + e) + enc_ac(b, p, 0));
        }
    } else {
        assert(committed(b, 1).0 + enc_ac(b, 1, 0) =~= enc_ac(b, 1, 0));
    }
}

/// The block of `v` that starts at `bs` (cut short at the end of `v`).
pub open spec fn block_at(v: Seq<i16>, bs: int) -> Seq<i16> {
    v.subrange(bs, if bs + 64 <= v.len() { bs + 64 } else { v.len() as int })
}

proof fn lemma_enc_extend(v: Seq<i16>, bs: int, e: int)
    requires
        0 <= bs < e <= v.len(),
        bs % 64 == 0,
        e == bs + 64 || e == v.len(),
        e - bs <= 64,
    ensures
        rle_encoding_spec(v.take(e)) == rle_encoding_spec(v.take(bs)) + enc_block(v.subrange(bs, e)),
{
    let w = v.take(e);
    assert(last_block_start(e) == bs);
    assert(w.take(bs) =~= v.take(bs));
    assert(w.skip(bs) =~= v.subrange(bs, e));
}

/// Decoding two runs of entries in turn is decoding them joined.
pub proof fn lemma_dec_append(s: Seq<i16>, a: Seq<(usize, i16)>, b: Seq<(usize, i16)>)
    ensures
        dec_from(s, a + b) == dec_from(dec_from(s, a), b),
    decreases b.len(),
{
    if b.len() == 0 {
        assert(a + b =~= a);
    } else {
        assert((a + b).drop_last() =~= a + b.drop_last());
        assert((a + b).last() == b.last());
        lemma_dec_append(s, a, b.drop_last());
    }
}

/// Decoding only appends.
pub proof fn lemma_dec_grows(s: Seq<i16>, a: Seq<(usize, i16)>)
    ensures
        dec_from(s, a).len() >= s.len(),
        dec_from(s, a).take(s.len() as int) == s,
    decreases a.len(),
{
    if a.len() > 0 {
        lemma_dec_grows(s, a.drop_last());
        let d = dec_from(s, a.drop_last());
        assert(dec_step(d, a.last()).take(d.len() as int) =~= d);
        assert(dec_from(s, a).take(s.len() as int) =~= d.take(s.len() as int));
    }
}

/// `n` zero coefficients.
pub open spec fn zeros(n: nat) -> Seq<i16> {
    Seq::new(n, |i: int| 0i16)
}

proof fn lemma_dec_zrls(t: Seq<i16>, m: nat)
    ensures
        dec_from(t, zrls(m)) == t + zeros(16 * m),
    decreases m,
{
    if m > 0 {
        lemma_dec_zrls(t, (m - 1) as nat);
        assert(zrls(m).drop_last() =~= zrls((m - 1) as nat));
        assert(dec_from(t, zrls(m)) =~= t + zeros(16 * m));
    } else {
        assert(t + zeros(0) =~= t);
    }
}

proof fn lemma_dec_entry(t: Seq<i16>, z: nat, x: i16)
    requires
        x != 0,
    ensures
        dec_from(t, zrls(z / 16).push(((z % 16) as usize, x))) == t + zeros(z).push(x),
{
    lemma_dec_zrls(t, z / 16);
    let e = zrls(z / 16).push(((z % 16) as usize, x));
    assert(e.drop_last() =~= zrls(z / 16));
    assert(t + zeros(16 * (z / 16)) + zeros(z % 16).push(x) =~= t + zeros(z).push(x));
}

proof fn lemma_dec_enc_ac(b: Seq<i16>, p: int, z: nat, s: Seq<i16>)
    requires
        b.len() == 64,
        s.len() % 64 == 0,
        1 <= p <= 63,
        z <= p - 1,
        forall|j: int| p - z <= j < p ==> b[j] == 0,
    ensures
        dec_from(s + b.take(p - z), enc_ac(b, p, z)) == s + b,
    decreases 63 - p,
{
    let t = s + b.take(p - z);
    if p == 63 {
        if b[63] == 0 {
            let e = seq![(0usize, 0i16)];
            assert(e.drop_last() =~= Seq::<(usize, i16)>::empty());
            assert(dec_from(t, e.drop_last()) == t);
            assert(e.last() == (0usize, 0i16));
            assert(dec_from(t, e) == dec_step(t, (0usize, 0i16)));
            assert(t.len() % 64 == 63 - z) by {
                assert(t.len() == s.len() + 63 - z);
            }
            assert(dec_from(t, seq![(0usize, 0i16)]) == t + zeros((64 - t.len() % 64) as nat));
            assert(t + zeros(z + 1) =~= s + b);
        } else {
            lemma_dec_entry(t, z, b[63]);
            assert(t + zeros(z).push(b[63]) =~= s + b);
        }
    } else if b[p] == 0 {
        lemma_dec_enc_ac(b, p + 1, z + 1, s);
    } else {
        let e = zrls(z / 16).push(((z % 16) as usize, b[p]));
        lemma_dec_append(t, e, enc_ac(b, p + 1, 0));
        lemma_dec_entry(t, z, b[p]);
        assert(t + zeros(z).push(b[p]) =~= s + b.take(p + 1));
        lemma_dec_enc_ac(b, p + 1, 0, s);
    }
}

proof fn lemma_dec_enc_block(s: Seq<i16>, b: Seq<i16>)
    requires
        b.len() == 64,
        s.len() % 64 == 0,
    ensures
        dec_from(s, enc_block(b)) == s + b,
{
    let d = seq![(17usize, b[0])];
    lemma_dec_append(s, d, enc_ac(b, 1, 0));
    assert(d.drop_last() =~= Seq::<(usize, i16)>::empty());
    assert(dec_from(s, d.drop_last()) == s);
    assert(d.last() == (17usize, b[0]));
    assert(dec_from(s, d) == dec_step(s, (17usize, b[0])));
    assert(dec_from(s, d) =~= s + b.take(1));
    lemma_dec_enc_ac(b, 1, 0, s);
}

/// Decoding the run-length entries of a vector of whole blocks gives the vector back.
pub proof fn lemma_rle_roundtrip(v: Seq<i16>)
    requires
        v.len() % 64 == 0,
    ensures
        rle_decoding_spec(rle_encoding_spec(v)) == v,
    decreases v.len(),
{
    if v.len() > 0 {
        let k = last_block_start(v.len() as int);
        assert(k == v.len() - 64);
        lemma_rle_roundtrip(v.take(k));
        lemma_dec_append(Seq::empty(), rle_encoding_spec(v.take(k)), enc_block(v.skip(k)));
        lemma_dec_enc_block(v.take(k), v.skip(k));
        assert(v.take(k) + v.skip(k) =~= v);
    } else {
        assert(rle_decoding_spec(Seq::empty()) =~= v);
    }
}

impl Capture {
    /// Expands run-length entries back into coefficients.
    pub fn rle_decoding(&self, vector: &Vec<(usize, i16)>) -> (pixel: Vec<i16>)
        requires
            rle_decoding_spec(vector@).len() <= usize::MAX,
        ensures
            pixel@ == rle_decoding_spec(vector@),
    {
        let mut pixel: Vec<i16> = Vec::new();
        let mut k: usize = 0;
        while k < vector.len()
            invariant
                k <= vector@.len(),
                rle_decoding_spec(vector@).len() <= usize::MAX,
                pixel@ == dec_from(Seq::empty(), vector@.take(k as int)),
            decreases vector@.len() - k,
        {
            let rle = vector[k];
            let ghost before = pixel@;
            proof {
                let t = vector@.take(k as int + 1);
                assert(t.drop_last() =~= vector@.take(k as int));
                assert(t.last() == rle);
                assert(vector@ =~= t + vector@.skip(k as int + 1));
                lemma_dec_append(Seq::empty(), t, vector@.skip(k as int + 1));
                lemma_dec_grows(dec_from(Seq::empty(), t), vector@.skip(k as int + 1));
            }
            if rle.0 == 17 {
                pixel.push(rle.1);
            } else if rle.0 == 0 && rle.1 == 0 {
                let target = pixel.len() + 64 - (pixel.len() % 64);
                pixel.resize(target, 0);
            } else {
                let target = pixel.len() + rle.0;
                pixel.resize(target, 0);
                pixel.push(rle.1);
            }
            proof {
                assert(pixel@ =~= dec_step(before, rle));
            }
            k = k + 1;
        }
        proof {
            assert(vector@.take(vector@.len() as int) =~= vector@);
        }
        pixel
    }

    /// Run-length codes each block of 64 coefficients: a DC entry `(17, value)`,
    /// then `(zeros, value)` for each nonzero AC value, `(15, 0)` for each
    /// sixteen zeros before one, and `(0, 0)` when the block ends in zeros.
    #[verifier::rlimit(80)]
    pub fn rle_encoding(&self, vector: &Vec<i16>) -> (rle: Vec<(usize, i16)>)
        ensures
            rle@ == rle_encoding_spec(vector@),
    {
        let mut rle: Vec<(usize, i16)> = Vec::new();
        let mut zero_counter: usize = 0;
        let n = vector.len();
        let mut i: usize = 0;
        while i < n
            invariant
                n == vector@.len(),
                i <= n,
                i % 64 == 0 ==> rle@ == rle_encoding_spec(vector@.take(i as int)),
                i % 64 != 0 ==> ({
                    let bs = (i / 64) * 64;
                    let b = block_at(vector@, bs as int);
                    &&& rle@ == rle_encoding_spec(vector@.take(bs as int)) + seq![(17usize, b[0])]
                        + committed(b, i - bs).0 + zrls(committed(b, i - bs).1 / 16)
                    &&& zero_counter == committed(b, i - bs).1 % 16
                    &&& committed(b, i - bs).1 <= i - bs - 1
                }),
            decreases n - i,
        {
            let ghost bs = (i / 64) * 64;
            let ghost b = block_at(vector@, bs as int);
            let ghost p = i - bs;
            assert(0 <= p < 64);
            assert(b.len() == if bs + 64 <= n { 64 } else { n - bs });
            if i % 64 == 0 {
                zero_counter = 0;
                rle.push((17, vector[i]));
                proof {
                    assert(p == 0);
                    assert((i + 1) / 64 * 64 == bs);
                    assert(b[0] == vector@[i as int]);
                    assert(committed(b, 1) == (Seq::<(usize, i16)>::empty(), 0nat));
                    assert(rle@ =~= rle_encoding_spec(vector@.take(bs as int)) + seq![(17usize, b[0])]
                        + committed(b, 1).0 + zrls(0));
                }
            } else if i % 64 == 63 {
                let ghost c = committed(b, p).0;
                let ghost z = committed(b, p).1;
                let ghost base = rle_encoding_spec(vector@.take(bs as int)) + seq![(17usize, b[0])] + c;
                proof {
                    assert(p == 63);
                    assert(b.len() == 64);
                    lemma_committed(b, 63);
                    assert(base.len() > 0);
                    assert(base.last().0 != 15 || base.last().1 != 0) by {
                        if c.len() > 0 {
                            assert(base.last() == c.last());
                        } else {
                            assert(base.last() == (17usize, b[0]));
                        }
                    }
                }
                if vector[i] == 0 {
                    let ghost mut m: nat = z / 16;
                    while rle[rle.len() - 1].0 == 15 && rle[rle.len() - 1].1 == 0
                        invariant
                            rle@ == base + zrls(m),
                            base.len() > 0,
                            base.last().0 != 15 || base.last().1 != 0,
                        decreases rle@.len(),
                    {
                        proof {
                            if m == 0 {
                                assert(rle@ =~= base);
                            }
                        }
                        rle.pop();
                        proof {
                            m = (m - 1) as nat;
                            assert(rle@ =~= base + zrls(m));
                        }
                    }
                    proof {
                        if m > 0 {
                            assert((base + zrls(m)).last() == (15usize, 0i16));
                        }
                        assert(m == 0);
                        assert(rle@ =~= base);
                    }
                    rle.push((0, 0));
                    zero_counter = 0;
                    proof {
                        assert(enc_ac(b, 63, z) == seq![(0usize, 0i16)]);
                    }
                } else {
                    rle.push((zero_counter, vector[i]));
                    zero_counter = 0;
                    proof {
                        assert(rle@ =~= base + zrls(z / 16).push(((z % 16) as usize, b[63])));
                    }
                }
                proof {
                    assert(enc_block(b) =~= seq![(17usize, b[0])] + c + enc_ac(b, 63, z));
                    assert(rle@ =~= rle_encoding_spec(vector@.take(bs as int)) + enc_block(b));
                    lemma_enc_extend(vector@, bs as int, bs + 64);
                    assert(i + 1 == bs + 64);
                }
            } else {
                let ghost c = committed(b, p).0;
                let ghost z = committed(b, p).1;
                if vector[i] == 0 {
                    zero_counter += 1;
                    if zero_counter == 16 {
                        zero_counter = 0;
                        rle.push((15, 0));
                    }
                    proof {
                        assert(committed(b, p + 1) == (c, z + 1));
                        assert((z + 1) / 16 == if (z + 1) % 16 == 0 { z / 16 + 1 } else { z / 16 });
                        assert(rle@ =~= rle_encoding_spec(vector@.take(bs as int)) + seq![(17usize, b[0])]
                            + c + zrls((z + 1) / 16));
                    }
                } else {
                    rle.push((zero_counter, vector[i]));
                    zero_counter = 0;
                    proof {
                        let c2 = c + zrls(z / 16).push(((z % 16) as usize, b[p]));
                        assert(committed(b, p + 1) == (c2, 0nat));
                        assert(rle@ =~= rle_encoding_spec(vector@.take(bs as int)) + seq![(17usize, b[0])]
                            + c2 + zrls(0));
                    }
                }
                proof {
                    assert((i + 1) / 64 * 64 == bs);
                }
            }
            i = i + 1;
        }
        proof {
            if n % 64 == 0 {
                assert(vector@.take(n as int) =~= vector@);
            } else {
                let bs = (n / 64) * 64;
                let b = block_at(vector@, bs as int);
                assert(b.len() == n - bs);
                lemma_committed(b, n - bs);
                lemma_enc_extend(vector@, bs as int, n as int);
                assert(vector@.take(n as int) =~= vector@);
                assert(enc_block(b) =~= seq![(17usize, b[0])] + committed(b, n - bs).0 + zrls(
                    committed(b, n - bs).1 / 16,
                ));
            }
        }
        rle
    }
}

} // verus!

