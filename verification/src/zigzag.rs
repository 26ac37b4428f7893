use vstd::prelude::*;
use crate::capture::Capture;

verus! {

/// The order in which the coefficients of an 8x8 block are read out.
pub const ZIGZAG_ORDER: [usize; 64] = [
     0,  1,  8, 16,  9,  2,  3, 10,
    17, 24, 32, 25, 18, 11,  4,  5,
    12, 19, 26, 33, 40, 48, 41, 34,
    27, 20, 13,  6,  7, 14, 21, 28,
    35, 42, 49, 56, 57, 50, 43, 36,
    29, 22, 15, 23, 30, 37, 44, 51,
    58, 59, 52, 45, 38, 31, 39, 46,
    53, 60, 61, 54, 47, 55, 62, 63
];

/// The position in the zigzag order of each coefficient of a block.
pub open spec fn zigzag_rank(k: int) -> int {
    seq![
         0,  1,  5,  6, 14, 15, 27, 28,
         2,  4,  7, 13, 16, 26, 29, 42,
         3,  8, 12, 17, 25, 30, 41, 43,
         9, 11, 18, 24, 31, 40, 44, 53,
        10, 19, 23, 32, 39, 45, 52, 54,
        20, 22, 33, 38, 46, 51, 55, 60,
        21, 34, 37, 47, 50, 56, 59, 61,
        35, 36, 48, 49, 57, 58, 62, 63
    ][k]
}

/// The source position of the `i`-th value of the zigzag order, blockwise.
pub open spec fn zigzag_index(i: int) -> int {
    (i / 64) * 64 + ZIGZAG_ORDER@[i % 64] as int
}

/// The zigzag position of the coefficient at `p`, blockwise.
pub open spec fn zigzag_inverse_index(p: int) -> int {
    (p / 64) * 64 + zigzag_rank(p % 64)
}

/// Each block of `v` read out in zigzag order.
pub open spec fn zigzag_spec(v: Seq<i16>) -> Seq<i16> {
    Seq::new(v.len(), |i: int| v[zigzag_index(i)])
}

/// Each block of `v` put back from zigzag order; positions that no value of `v`
/// reaches hold 0.
pub open spec fn inverse_zigzag_spec(v: Seq<i16>) -> Seq<i16> {
    Seq::new(
        v.len(),
        |p: int|
            if zigzag_inverse_index(p) < v.len() {
                v[zigzag_inverse_index(p)]
            } else {
                0
            },
    )
}

/// Every zigzag read stays inside a vector of length `n`.
pub open spec fn zigzag_fits(n: int) -> bool {
    forall|i: int| 0 <= i < n ==> #[trigger] zigzag_index(i) < n
}

/// The zigzag order is a permutation of a block, and `zigzag_rank` is its inverse.
pub proof fn lemma_zigzag_permutation(k: int)
    requires
        0 <= k < 64,
    ensures
        0 <= ZIGZAG_ORDER@[k] < 64,
        0 <= zigzag_rank(k) < 64,
        zigzag_rank(ZIGZAG_ORDER@[k] as int) == k,
        ZIGZAG_ORDER@[zigzag_rank(k)] == k,
{
    if k == 0 {
        assert(ZIGZAG_ORDER@[0] == 0 && zigzag_rank(0) == 0 && zigzag_rank(0) == 0 && ZIGZAG_ORDER@[0] == 0);
    } else if k == 1 {
        assert(ZIGZAG_ORDER@[1] == 1 && zigzag_rank(1) == 1 && zigzag_rank(1) == 1 && ZIGZAG_ORDER@[1] == 1);
    } else if k == 2 {
        assert(ZIGZAG_ORDER@[2] == 8 && zigzag_rank(8) == 2 && zigzag_rank(2) == 5 && ZIGZAG_ORDER@[5] == 2);
    } else if k == 3 {
        assert(ZIGZAG_ORDER@[3] == 16 && zigzag_rank(16) == 3 && zigzag_rank(3) == 6 && ZIGZAG_ORDER@[6] == 3);
    } else if k == 4 {
        assert(ZIGZAG_ORDER@[4] == 9 && zigzag_rank(9) == 4 && zigzag_rank(4) == 14 && ZIGZAG_ORDER@[14] == 4);
    } else if k == 5 {
        assert(ZIGZAG_ORDER@[5] == 2 && zigzag_rank(2) == 5 && zigzag_rank(5) == 15 && ZIGZAG_ORDER@[15] == 5);
    } else if k == 6 {
        assert(ZIGZAG_ORDER@[6] == 3 && zigzag_rank(3) == 6 && zigzag_rank(6) == 27 && ZIGZAG_ORDER@[27] == 6);
    } else if k == 7 {
        assert(ZIGZAG_ORDER@[7] == 10 && zigzag_rank(10) == 7 && zigzag_rank(7) == 28 && ZIGZAG_ORDER@[28] == 7);
    } else if k == 8 {
        assert(ZIGZAG_ORDER@[8] == 17 && zigzag_rank(17) == 8 && zigzag_rank(8) == 2 && ZIGZAG_ORDER@[2] == 8);
    } else if k == 9 {
        assert(ZIGZAG_ORDER@[9] == 24 && zigzag_rank(24) == 9 && zigzag_rank(9) == 4 && ZIGZAG_ORDER@[4] == 9);
    } else if k == 10 {
        assert(ZIGZAG_ORDER@[10] == 32 && zigzag_rank(32) == 10 && zigzag_rank(10) == 7 && ZIGZAG_ORDER@[7] == 10);
    } else if k == 11 {
        assert(ZIGZAG_ORDER@[11] == 25 && zigzag_rank(25) == 11 && zigzag_rank(11) == 13 && ZIGZAG_ORDER@[13] == 11);
    } else if k == 12 {
        assert(ZIGZAG_ORDER@[12] == 18 && zigzag_rank(18) == 12 && zigzag_rank(12) == 16 && ZIGZAG_ORDER@[16] == 12);
    } else if k == 13 {
        assert(ZIGZAG_ORDER@[13] == 11 && zigzag_rank(11) == 13 && zigzag_rank(13) == 26 && ZIGZAG_ORDER@[26] == 13);
    } else if k == 14 {
        assert(ZIGZAG_ORDER@[14] == 4 && zigzag_rank(4) == 14 && zigzag_rank(14) == 29 && ZIGZAG_ORDER@[29] == 14);
    } else if k == 15 {
        assert(ZIGZAG_ORDER@[15] == 5 && zigzag_rank(5) == 15 && zigzag_rank(15) == 42 && ZIGZAG_ORDER@[42] == 15);
    } else if k == 16 {
        assert(ZIGZAG_ORDER@[16] == 12 && zigzag_rank(12) == 16 && zigzag_rank(16) == 3 && ZIGZAG_ORDER@[3] == 16);
    } else if k == 17 {
        assert(ZIGZAG_ORDER@[17] == 19 && zigzag_rank(19) == 17 && zigzag_rank(17) == 8 && ZIGZAG_ORDER@[8] == 17);
    } else if k == 18 {
        assert(ZIGZAG_ORDER@[18] == 26 && zigzag_rank(26) == 18 && zigzag_rank(18) == 12 && ZIGZAG_ORDER@[12] == 18);
    } else if k == 19 {
        assert(ZIGZAG_ORDER@[19] == 33 && zigzag_rank(33) == 19 && zigzag_rank(19) == 17 && ZIGZAG_ORDER@[17] == 19);
    } else if k == 20 {
        assert(ZIGZAG_ORDER@[20] == 40 && zigzag_rank(40) == 20 && zigzag_rank(20) == 25 && ZIGZAG_ORDER@[25] == 20);
    } else if k == 21 {
        assert(ZIGZAG_ORDER@[21] == 48 && zigzag_rank(48) == 21 && zigzag_rank(21) == 30 && ZIGZAG_ORDER@[30] == 21);
    } else if k == 22 {
        assert(ZIGZAG_ORDER@[22] == 41 && zigzag_rank(41) == 22 && zigzag_rank(22) == 41 && ZIGZAG_ORDER@[41] == 22);
    } else if k == 23 {
        assert(ZIGZAG_ORDER@[23] == 34 && zigzag_rank(34) == 23 && zigzag_rank(23) == 43 && ZIGZAG_ORDER@[43] == 23);
    } else if k == 24 {
        assert(ZIGZAG_ORDER@[24] == 27 && zigzag_rank(27) == 24 && zigzag_rank(24) == 9 && ZIGZAG_ORDER@[9] == 24);
    } else if k == 25 {
        assert(ZIGZAG_ORDER@[25] == 20 && zigzag_rank(20) == 25 && zigzag_rank(25) == 11 && ZIGZAG_ORDER@[11] == 25);
    } else if k == 26 {
        assert(ZIGZAG_ORDER@[26] == 13 && zigzag_rank(13) == 26 && zigzag_rank(26) == 18 && ZIGZAG_ORDER@[18] == 26);
    } else if k == 27 {
        assert(ZIGZAG_ORDER@[27] == 6 && zigzag_rank(6) == 27 && zigzag_rank(27) == 24 && ZIGZAG_ORDER@[24] == 27);
    } else if k == 28 {
        assert(ZIGZAG_ORDER@[28] == 7 && zigzag_rank(7) == 28 && zigzag_rank(28) == 31 && ZIGZAG_ORDER@[31] == 28);
    } else if k == 29 {
        assert(ZIGZAG_ORDER@[29] == 14 && zigzag_rank(14) == 29 && zigzag_rank(29) == 40 && ZIGZAG_ORDER@[40] == 29);
    } else if k == 30 {
        assert(ZIGZAG_ORDER@[30] == 21 && zigzag_rank(21) == 30 && zigzag_rank(30) == 44 && ZIGZAG_ORDER@[44] == 30);
    } else if k == 31 {
        assert(ZIGZAG_ORDER@[31] == 28 && zigzag_rank(28) == 31 && zigzag_rank(31) == 53 && ZIGZAG_ORDER@[53] == 31);
    } else if k == 32 {
        assert(ZIGZAG_ORDER@[32] == 35 && zigzag_rank(35) == 32 && zigzag_rank(32) == 10 && ZIGZAG_ORDER@[10] == 32);
    } else if k == 33 {
        assert(ZIGZAG_ORDER@[33] == 42 && zigzag_rank(42) == 33 && zigzag_rank(33) == 19 && ZIGZAG_ORDER@[19] == 33);
    } else if k == 34 {
        assert(ZIGZAG_ORDER@[34] == 49 && zigzag_rank(49) == 34 && zigzag_rank(34) == 23 && ZIGZAG_ORDER@[23] == 34);
    } else if k == 35 {
        assert(ZIGZAG_ORDER@[35] == 56 && zigzag_rank(56) == 35 && zigzag_rank(35) == 32 && ZIGZAG_ORDER@[32] == 35);
    } else if k == 36 {
        assert(ZIGZAG_ORDER@[36] == 57 && zigzag_rank(57) == 36 && zigzag_rank(36) == 39 && ZIGZAG_ORDER@[39] == 36);
    } else if k == 37 {
        assert(ZIGZAG_ORDER@[37] == 50 && zigzag_rank(50) == 37 && zigzag_rank(37) == 45 && ZIGZAG_ORDER@[45] == 37);
    } else if k == 38 {
        assert(ZIGZAG_ORDER@[38] == 43 && zigzag_rank(43) == 38 && zigzag_rank(38) == 52 && ZIGZAG_ORDER@[52] == 38);
    } else if k == 39 {
        assert(ZIGZAG_ORDER@[39] == 36 && zigzag_rank(36) == 39 && zigzag_rank(39) == 54 && ZIGZAG_ORDER@[54] == 39);
    } else if k == 40 {
        assert(ZIGZAG_ORDER@[40] == 29 && zigzag_rank(29) == 40 && zigzag_rank(40) == 20 && ZIGZAG_ORDER@[20] == 40);
    } else if k == 41 {
        assert(ZIGZAG_ORDER@[41] == 22 && zigzag_rank(22) == 41 && zigzag_rank(41) == 22 && ZIGZAG_ORDER@[22] == 41);
    } else if k == 42 {
        assert(ZIGZAG_ORDER@[42] == 15 && zigzag_rank(15) == 42 && zigzag_rank(42) == 33 && ZIGZAG_ORDER@[33] == 42);
    } else if k == 43 {
        assert(ZIGZAG_ORDER@[43] == 23 && zigzag_rank(23) == 43 && zigzag_rank(43) == 38 && ZIGZAG_ORDER@[38] == 43);
    } else if k == 44 {
        assert(ZIGZAG_ORDER@[44] == 30 && zigzag_rank(30) == 44 && zigzag_rank(44) == 46 && ZIGZAG_ORDER@[46] == 44);
    } else if k == 45 {
        assert(ZIGZAG_ORDER@[45] == 37 && zigzag_rank(37) == 45 && zigzag_rank(45) == 51 && ZIGZAG_ORDER@[51] == 45);
    } else if k == 46 {
        assert(ZIGZAG_ORDER@[46] == 44 && zigzag_rank(44) == 46 && zigzag_rank(46) == 55 && ZIGZAG_ORDER@[55] == 46);
    } else if k == 47 {
        assert(ZIGZAG_ORDER@[47] == 51 && zigzag_rank(51) == 47 && zigzag_rank(47) == 60 && ZIGZAG_ORDER@[60] == 47);
    } else if k == 48 {
        assert(ZIGZAG_ORDER@[48] == 58 && zigzag_rank(58) == 48 && zigzag_rank(48) == 21 && ZIGZAG_ORDER@[21] == 48);
    } else if k == 49 {
        assert(ZIGZAG_ORDER@[49] == 59 && zigzag_rank(59) == 49 && zigzag_rank(49) == 34 && ZIGZAG_ORDER@[34] == 49);
    } else if k == 50 {
        assert(ZIGZAG_ORDER@[50] == 52 && zigzag_rank(52) == 50 && zigzag_rank(50) == 37 && ZIGZAG_ORDER@[37] == 50);
    } else if k == 51 {
        assert(ZIGZAG_ORDER@[51] == 45 && zigzag_rank(45) == 51 && zigzag_rank(51) == 47 && ZIGZAG_ORDER@[47] == 51);
    } else if k == 52 {
        assert(ZIGZAG_ORDER@[52] == 38 && zigzag_rank(38) == 52 && zigzag_rank(52) == 50 && ZIGZAG_ORDER@[50] == 52);
    } else if k == 53 {
        assert(ZIGZAG_ORDER@[53] == 31 && zigzag_rank(31) == 53 && zigzag_rank(53) == 56 && ZIGZAG_ORDER@[56] == 53);
    } else if k == 54 {
        assert(ZIGZAG_ORDER@[54] == 39 && zigzag_rank(39) == 54 && zigzag_rank(54) == 59 && ZIGZAG_ORDER@[59] == 54);
    } else if k == 55 {
        assert(ZIGZAG_ORDER@[55] == 46 && zigzag_rank(46) == 55 && zigzag_rank(55) == 61 && ZIGZAG_ORDER@[61] == 55);
    } else if k == 56 {
        assert(ZIGZAG_ORDER@[56] == 53 && zigzag_rank(53) == 56 && zigzag_rank(56) == 35 && ZIGZAG_ORDER@[35] == 56);
    } else if k == 57 {
        assert(ZIGZAG_ORDER@[57] == 60 && zigzag_rank(60) == 57 && zigzag_rank(57) == 36 && ZIGZAG_ORDER@[36] == 57);
    } else if k == 58 {
        assert(ZIGZAG_ORDER@[58] == 61 && zigzag_rank(61) == 58 && zigzag_rank(58) == 48 && ZIGZAG_ORDER@[48] == 58);
    } else if k == 59 {
        assert(ZIGZAG_ORDER@[59] == 54 && zigzag_rank(54) == 59 && zigzag_rank(59) == 49 && ZIGZAG_ORDER@[49] == 59);
    } else if k == 60 {
        assert(ZIGZAG_ORDER@[60] == 47 && zigzag_rank(47) == 60 && zigzag_rank(60) == 57 && ZIGZAG_ORDER@[57] == 60);
    } else if k == 61 {
        assert(ZIGZAG_ORDER@[61] == 55 && zigzag_rank(55) == 61 && zigzag_rank(61) == 58 && ZIGZAG_ORDER@[58] == 61);
    } else if k == 62 {
        assert(ZIGZAG_ORDER@[62] == 62 && zigzag_rank(62) == 62 && zigzag_rank(62) == 62 && ZIGZAG_ORDER@[62] == 62);
    } else if k == 63 {
        assert(ZIGZAG_ORDER@[63] == 63 && zigzag_rank(63) == 63 && zigzag_rank(63) == 63 && ZIGZAG_ORDER@[63] == 63);
    }
}

pub proof fn lemma_zigzag_index(i: int)
    requires
        0 <= i,
    ensures
        zigzag_index(i) / 64 == i / 64,
        zigzag_index(i) % 64 == ZIGZAG_ORDER@[i % 64],
        zigzag_inverse_index(zigzag_index(i)) == i,
        zigzag_index(zigzag_inverse_index(i)) == i,
        zigzag_inverse_index(i) / 64 == i / 64,
        0 <= zigzag_index(i),
        0 <= zigzag_inverse_index(i),
{
    lemma_zigzag_permutation(i % 64);
    let z = ZIGZAG_ORDER@[i % 64] as int;
    let r = zigzag_rank(i % 64);
    assert(((i / 64) * 64 + z) / 64 == i / 64 && ((i / 64) * 64 + z) % 64 == z) by {
        vstd::arithmetic::div_mod::lemma_fundamental_div_mod_converse((i / 64) * 64 + z, 64, i / 64, z);
    }
    assert(((i / 64) * 64 + r) / 64 == i / 64 && ((i / 64) * 64 + r) % 64 == r) by {
        vstd::arithmetic::div_mod::lemma_fundamental_div_mod_converse((i / 64) * 64 + r, 64, i / 64, r);
    }
}

/// A vector whose length is a whole number of blocks can be zigzag-read.
pub proof fn lemma_zigzag_fits_blocks(n: int)
    requires
        n >= 0,
        n % 64 == 0,
    ensures
        zigzag_fits(n),
{
    assert forall|i: int| 0 <= i < n implies #[trigger] zigzag_index(i) < n by {
        lemma_zigzag_index(i);
        assert(i / 64 < n / 64);
        assert(zigzag_index(i) == (i / 64) * 64 + zigzag_index(i) % 64);
    }
}

/// Putting the blocks back from zigzag order undoes reading them out, for a
/// vector of whole blocks.
pub proof fn lemma_inverse_zigzag_undoes_zigzag(v: Seq<i16>)
    requires
        v.len() % 64 == 0,
    ensures
        inverse_zigzag_spec(zigzag_spec(v)) == v,
{
    lemma_zigzag_fits_blocks(v.len() as int);
    let z = zigzag_spec(v);
    assert forall|p: int| 0 <= p < v.len() implies #[trigger] inverse_zigzag_spec(z)[p] == v[p] by {
        lemma_zigzag_index(p);
        let q = zigzag_inverse_index(p);
        assert(q / 64 == p / 64);
        assert(q == (q / 64) * 64 + q % 64);
        assert(p / 64 < v.len() / 64);
        assert(q < v.len());
        assert(zigzag_index(q) == p);
    }
    assert(inverse_zigzag_spec(z) =~= v);
}

/// Reading the blocks out in zigzag order undoes putting them back, for a
/// vector of whole blocks.
pub proof fn lemma_zigzag_undoes_inverse_zigzag(v: Seq<i16>)
    requires
        v.len() % 64 == 0,
    ensures
        zigzag_spec(inverse_zigzag_spec(v)) == v,
{
    lemma_zigzag_fits_blocks(v.len() as int);
    let w = inverse_zigzag_spec(v);
    assert forall|i: int| 0 <= i < v.len() implies #[trigger] zigzag_spec(w)[i] == v[i] by {
        lemma_zigzag_index(i);
        let p = zigzag_index(i);
        assert(p < v.len());
        assert(zigzag_inverse_index(p) == i);
    }
    assert(zigzag_spec(w) =~= v);
}


/// The zigzag order walks a block by its anti-diagonals: it starts at the
/// top-left coefficient, and each next coefficient either lies on the same
/// anti-diagonal (row + column), one row up and one column right on an even
/// diagonal, one row down and one column left on an odd one, or starts the
/// next anti-diagonal. With the order visiting all 64 coefficients, this is
/// the JPEG zigzag.
pub proof fn lemma_zigzag_walks_diagonals()
    ensures
        ZIGZAG_ORDER@[0] == 0,
        forall|i: int|
            0 <= i < 63 ==> {
                let p = ZIGZAG_ORDER@[i] as int;
                let q = #[trigger] ZIGZAG_ORDER@[i + 1] as int;
                let dp = p / 8 + p % 8;
                let dq = q / 8 + q % 8;
                ||| dq == dp + 1
                ||| (dq == dp && dp % 2 == 0 && q / 8 == p / 8 - 1)
                ||| (dq == dp && dp % 2 == 1 && q / 8 == p / 8 + 1)
            },
        forall|i: int, j: int| 0 <= i < j < 64 ==> ZIGZAG_ORDER@[i] != ZIGZAG_ORDER@[j],
{
    assert forall|i: int|
        0 <= i < 63 implies {
            let p = ZIGZAG_ORDER@[i] as int;
            let q = #[trigger] ZIGZAG_ORDER@[i + 1] as int;
            let dp = p / 8 + p % 8;
            let dq = q / 8 + q % 8;
            ||| dq == dp + 1
            ||| (dq == dp && dp % 2 == 0 && q / 8 == p / 8 - 1)
            ||| (dq == dp && dp % 2 == 1 && q / 8 == p / 8 + 1)
        } by {
        lemma_zigzag_permutation(i);
        lemma_zigzag_permutation(i + 1);
    }
    assert forall|i: int, j: int| 0 <= i < j < 64 implies ZIGZAG_ORDER@[i] != ZIGZAG_ORDER@[j] by {
        lemma_zigzag_permutation(i);
        lemma_zigzag_permutation(j);
    }
}

impl Capture {
    /// Reads each block of 64 coefficients out in zigzag order.
    pub fn zigzag(&self, vector: &Vec<i16>) -> (zigzag: Vec<i16>)
        requires
            zigzag_fits(vector@.len() as int),
        ensures
            zigzag@ == zigzag_spec(vector@),
    {
        let mut zigzag = vec![0i16; vector.len()];
        let mut i: usize = 0;
        while i < vector.len()
            invariant
                zigzag_fits(vector@.len() as int),
                zigzag@.len() == vector@.len(),
                i <= vector@.len(),
                forall|j: int| 0 <= j < i ==> #[trigger] zigzag@[j] == vector@[zigzag_index(j)],
            decreases vector@.len() - i,
        {
            assert(zigzag_index(i as int) < vector@.len());
            proof { lemma_zigzag_index(i as int); }
            zigzag.set(i, vector[((i / 64) * 64) + ZIGZAG_ORDER[i % 64]]);
            i = i + 1;
        }
        assert(zigzag@ =~= zigzag_spec(vector@));
        zigzag
    }

    /// Puts each block of 64 coefficients back from zigzag order.
    pub fn inverse_zigzag(&self, vector: &Vec<i16>) -> (zigzag: Vec<i16>)
        requires
            zigzag_fits(vector@.len() as int),
        ensures
            zigzag@ == inverse_zigzag_spec(vector@),
    {
        let mut zigzag = vec![0i16; vector.len()];
        let mut i: usize = 0;
        while i < vector.len()
            invariant
                zigzag_fits(vector@.len() as int),
                zigzag@.len() == vector@.len(),
                i <= vector@.len(),
                forall|p: int|
                    0 <= p < vector@.len() ==> #[trigger] zigzag@[p] == if zigzag_inverse_index(p)
                        < i {
                        vector@[zigzag_inverse_index(p)]
                    } else {
                        0
                    },
            decreases vector@.len() - i,
        {
            assert(zigzag_index(i as int) < vector@.len());
            proof { lemma_zigzag_index(i as int); }
            let target = ((i / 64) * 64) + ZIGZAG_ORDER[i % 64];
            let ghost before = zigzag@;
            zigzag.set(target, vector[i]);
            proof {
                assert forall|p: int| 0 <= p < vector@.len() implies #[trigger] zigzag@[p] == if zigzag_inverse_index(p)
                    < i + 1 {
                    vector@[zigzag_inverse_index(p)]
                } else {
                    0
                } by {
                    lemma_zigzag_index(p);
                    if p != target {
                        assert(zigzag_inverse_index(p) != i);
                        assert(zigzag@[p] == before[p]);
                    }
                }
            }
            i = i + 1;
        }
        proof {
            assert(zigzag@ =~= inverse_zigzag_spec(vector@));
        }
        zigzag
    }
}

} // verus!
