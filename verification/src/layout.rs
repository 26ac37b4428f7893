use vstd::prelude::*;
use vstd::arithmetic::div_mod::lemma_fundamental_div_mod_converse;
use crate::capture::{Capture, RESULTING_WIDTH, RESULTING_HEIGHT, RESULTING_RESOLUTION};

verus! {

/// The position in a row-major plane of `width` pixels of the `k`-th value in
/// block order, with `blocks_x` blocks of 8x8 pixels per row of blocks.
pub open spec fn block_to_linear(k: int, width: int, blocks_x: int) -> int {
    let b = k / 64;
    let l = k % 64;
    ((b / blocks_x) * 8 + l / 8) * width + (b % blocks_x) * 8 + l % 8
}

/// The position in block order of pixel `p` of a row-major plane of `width` pixels.
pub open spec fn linear_to_block(p: int, width: int, blocks_x: int) -> int {
    let y = p / width;
    let x = p % width;
    ((y / 8) * blocks_x + x / 8) * 64 + (y % 8) * 8 + x % 8
}

/// The luma plane in block order.
pub open spec fn luma_to_blocks(pixels: Seq<u8>) -> Seq<u8> {
    Seq::new(RESULTING_RESOLUTION as nat, |k: int| pixels[block_to_linear(k, 1920, 240)])
}

/// The luma plane back in row-major order.
pub open spec fn luma_to_linear(blocks: Seq<u8>) -> Seq<u8> {
    Seq::new(RESULTING_RESOLUTION as nat, |p: int| blocks[linear_to_block(p, 1920, 240)])
}

/// Number of chroma values in whole 8x8 blocks: 120 blocks per row, 67 rows of blocks.
pub const CHROMA_BLOCK_VALUES: usize = 514560;

/// A block-order index splits into its block row, block column and the
/// row and column inside the block.
proof fn lemma_index_split(gy: int, gx: int, ly: int, lx: int, bx: int)
    requires
        0 <= gx < bx,
        0 <= gy,
        0 <= ly < 8,
        0 <= lx < 8,
    ensures
        ({
            let k = (gy * bx + gx) * 64 + ly * 8 + lx;
            &&& k / 64 == gy * bx + gx
            &&& k % 64 == ly * 8 + lx
            &&& (k / 64) / bx == gy
            &&& (k / 64) % bx == gx
            &&& (k % 64) / 8 == ly
            &&& (k % 64) % 8 == lx
        }),
{
    let k = (gy * bx + gx) * 64 + ly * 8 + lx;
    lemma_fundamental_div_mod_converse(k, 64, gy * bx + gx, ly * 8 + lx);
    lemma_fundamental_div_mod_converse(gy * bx + gx, bx, gy, gx);
    lemma_fundamental_div_mod_converse(ly * 8 + lx, 8, ly, lx);
}

/// Block order and row-major order are inverse to each other on the first
/// `blocks_y` rows of blocks.
pub proof fn lemma_layout_inverse(k: int, width: int, blocks_x: int, blocks_y: int)
    requires
        width == 8 * blocks_x,
        blocks_x > 0,
        blocks_y >= 0,
        0 <= k < blocks_x * blocks_y * 64,
    ensures
        0 <= block_to_linear(k, width, blocks_x) < blocks_y * 8 * width,
        linear_to_block(block_to_linear(k, width, blocks_x), width, blocks_x) == k,
{
    let b = k / 64;
    let l = k % 64;
    let gy = b / blocks_x;
    let gx = b % blocks_x;
    let ly = l / 8;
    let lx = l % 8;
    assert(b < blocks_x * blocks_y) by (nonlinear_arith)
        requires
            b == k / 64,
            k < blocks_x * blocks_y * 64,
            0 <= k,
    ;
    assert(gy < blocks_y) by (nonlinear_arith)
        requires
            gy == b / blocks_x,
            b < blocks_x * blocks_y,
            blocks_x > 0,
            0 <= b,
    ;
    let y = gy * 8 + ly;
    let x = gx * 8 + lx;
    let p = y * width + x;
    assert(0 <= x < width);
    assert(0 <= y < blocks_y * 8);
    assert(p < blocks_y * 8 * width) by (nonlinear_arith)
        requires
            p == y * width + x,
            0 <= x < width,
            0 <= y < blocks_y * 8,
    ;
    assert(0 <= p) by (nonlinear_arith)
        requires
            p == y * width + x,
            0 <= x,
            0 <= y,
            0 <= width,
    ;
    lemma_fundamental_div_mod_converse(p, width, y, x);
    lemma_fundamental_div_mod_converse(y, 8, gy, ly);
    lemma_fundamental_div_mod_converse(x, 8, gx, lx);
    vstd::arithmetic::div_mod::lemma_fundamental_div_mod(b, blocks_x);
    vstd::arithmetic::div_mod::lemma_fundamental_div_mod(k, 64);
    vstd::arithmetic::div_mod::lemma_fundamental_div_mod(l, 8);
    assert(b == gy * blocks_x + gx) by (nonlinear_arith)
        requires
            b == blocks_x * (b / blocks_x) + b % blocks_x,
            gy == b / blocks_x,
            gx == b % blocks_x,
    ;
}

/// Row-major order and block order are inverse to each other on the first
/// `blocks_y` rows of blocks.
pub proof fn lemma_layout_inverse_linear(p: int, width: int, blocks_x: int, blocks_y: int)
    requires
        width == 8 * blocks_x,
        blocks_x > 0,
        blocks_y >= 0,
        0 <= p < blocks_y * 8 * width,
    ensures
        0 <= linear_to_block(p, width, blocks_x) < blocks_x * blocks_y * 64,
        block_to_linear(linear_to_block(p, width, blocks_x), width, blocks_x) == p,
{
    let y = p / width;
    let x = p % width;
    let gy = y / 8;
    let ly = y % 8;
    let gx = x / 8;
    let lx = x % 8;
    assert(y < blocks_y * 8) by (nonlinear_arith)
        requires
            y == p / width,
            p < blocks_y * 8 * width,
            width > 0,
            0 <= p,
    ;
    assert(0 <= y);
    assert(gx < blocks_x);
    let b = gy * blocks_x + gx;
    let l = ly * 8 + lx;
    let k = b * 64 + l;
    assert(b < blocks_x * blocks_y) by (nonlinear_arith)
        requires
            b == gy * blocks_x + gx,
            0 <= gx < blocks_x,
            0 <= gy < blocks_y,
    ;
    assert(0 <= b) by (nonlinear_arith)
        requires
            b == gy * blocks_x + gx,
            0 <= gx,
            0 <= gy,
            0 <= blocks_x,
    ;
    lemma_index_split(gy, gx, ly, lx, blocks_x);
    vstd::arithmetic::div_mod::lemma_fundamental_div_mod(p, width);
    vstd::arithmetic::div_mod::lemma_fundamental_div_mod(y, 8);
    vstd::arithmetic::div_mod::lemma_fundamental_div_mod(x, 8);
    assert(p == y * width + x) by (nonlinear_arith)
        requires
            p == width * (p / width) + p % width,
            y == p / width,
            x == p % width,
    ;
}

/// Copies the first `blocks_y` rows of blocks of the row-major plane `src`
/// into `out` in block order.
fn to_blocks(src: &Vec<u8>, out: &mut Vec<u8>, width: usize, blocks_x: usize, blocks_y: usize)
    requires
        width == 8 * blocks_x,
        1 <= blocks_x <= 240,
        blocks_y <= 135,
        src@.len() >= blocks_y * 8 * width,
        old(out)@.len() >= blocks_x * blocks_y * 64,
    ensures
        final(out)@.len() == old(out)@.len(),
        forall|k: int|
            0 <= k < final(out)@.len() ==> #[trigger] final(out)@[k] == if k < blocks_x * blocks_y
                * 64 {
                src@[block_to_linear(k, width as int, blocks_x as int)]
            } else {
                old(out)@[k]
            },
{
    let ghost old_out = out@;
    let ghost total = blocks_x * blocks_y * 64;
    let block_size: usize = 8;
    let block_area: usize = block_size * block_size;
    assert(forall|j: int| 0 <= j < out@.len() ==> #[trigger] out@[j] == old_out[j]);
    let mut global_y: usize = 0;
    while global_y < blocks_y
        invariant
            global_y <= blocks_y,
            width == 8 * blocks_x,
            1 <= blocks_x <= 240,
            blocks_y <= 135,
            block_size == 8,
            block_area == 64,
            src@.len() >= blocks_y * 8 * width,
            out@.len() == old_out.len(),
            total == blocks_x * blocks_y * 64,
            old_out.len() >= total,
            forall|j: int|
                0 <= j < out@.len() ==> #[trigger] out@[j] == if j < global_y * blocks_x * 64 {
                    src@[block_to_linear(j, width as int, blocks_x as int)]
                } else {
                    old_out[j]
                },
        decreases blocks_y - global_y,
    {
        for global_x in 0..blocks_x
            invariant
                width == 8 * blocks_x,
                1 <= blocks_x <= 240,
                blocks_y <= 135,
                global_y < blocks_y,
                block_size == 8,
                block_area == 64,
                src@.len() >= blocks_y * 8 * width,
                out@.len() == old_out.len(),
                total == blocks_x * blocks_y * 64,
                old_out.len() >= total,
                forall|j: int|
                    0 <= j < out@.len() ==> #[trigger] out@[j] == if j < (global_y * blocks_x
                        + global_x) * 64 {
                        src@[block_to_linear(j, width as int, blocks_x as int)]
                    } else {
                        old_out[j]
                    },
        {
            for local_y in 0..block_size
                invariant
                    width == 8 * blocks_x,
                    1 <= blocks_x <= 240,
                    blocks_y <= 135,
                    global_y < blocks_y,
                    global_x < blocks_x,
                    block_size == 8,
                    block_area == 64,
                    src@.len() >= blocks_y * 8 * width,
                    out@.len() == old_out.len(),
                    total == blocks_x * blocks_y * 64,
                    old_out.len() >= total,
                    forall|j: int|
                        0 <= j < out@.len() ==> #[trigger] out@[j] == if j < (global_y * blocks_x
                            + global_x) * 64 + local_y * 8 {
                            src@[block_to_linear(j, width as int, blocks_x as int)]
                        } else {
                            old_out[j]
                        },
            {
                for local_x in 0..block_size
                    invariant
                        width == 8 * blocks_x,
                        1 <= blocks_x <= 240,
                        blocks_y <= 135,
                        global_y < blocks_y,
                        global_x < blocks_x,
                        local_y < 8,
                        block_size == 8,
                        block_area == 64,
                        src@.len() >= blocks_y * 8 * width,
                        out@.len() == old_out.len(),
                        total == blocks_x * blocks_y * 64,
                        old_out.len() >= total,
                        forall|j: int|
                            0 <= j < out@.len() ==> #[trigger] out@[j] == if j < (global_y
                                * blocks_x + global_x) * 64 + local_y * 8 + local_x {
                                src@[block_to_linear(j, width as int, blocks_x as int)]
                            } else {
                                old_out[j]
                            },
                {
                    let ghost k = (global_y * blocks_x + global_x) * 64 + local_y * 8 + local_x;
                    proof {
                        lemma_index_split(global_y as int, global_x as int, local_y as int, local_x as int, blocks_x as int);
                        assert(global_y * blocks_x + global_x < blocks_x * blocks_y) by (nonlinear_arith)
                            requires
                                global_y < blocks_y,
                                global_x < blocks_x,
                        ;
                        lemma_layout_inverse(k, width as int, blocks_x as int, blocks_y as int);
                    }
                    let y = global_y * block_size + local_y;
                    let x = global_x * block_size + local_x;
                    assert(y * width <= 1080 * 1920) by (nonlinear_arith)
                        requires
                            y < blocks_y * 8,
                            blocks_y <= 135,
                            width == 8 * blocks_x,
                            blocks_x <= 240,
                    ;
                    let linear_index = x + y * width;
                    assert(global_y * blocks_x <= 135 * 240) by (nonlinear_arith)
                        requires
                            global_y < blocks_y,
                            blocks_y <= 135,
                            blocks_x <= 240,
                    ;
                    let block_index = (global_y * blocks_x + global_x) * block_area + local_y
                        * block_size + local_x;
                    assert(linear_index == block_to_linear(k, width as int, blocks_x as int));
                    out.set(block_index, src[linear_index]);
                }
            }
        }
        assert((global_y * blocks_x + blocks_x) * 64 == (global_y + 1) * blocks_x * 64) by (nonlinear_arith);
        assert forall|j: int| 0 <= j < out@.len() implies #[trigger] out@[j] == if j < (global_y + 1)
            * blocks_x * 64 {
            src@[block_to_linear(j, width as int, blocks_x as int)]
        } else {
            old_out[j]
        } by {}
        global_y = global_y + 1;
    }
    assert(blocks_y * blocks_x * 64 == blocks_x * blocks_y * 64) by (nonlinear_arith);
}


/// Copies the first `blocks_x * blocks_y * 64` values of `src`, in block
/// order, back to their row-major positions in `out`.
fn to_linear(src: &Vec<u8>, out: &mut Vec<u8>, width: usize, blocks_x: usize, blocks_y: usize)
    requires
        width == 8 * blocks_x,
        1 <= blocks_x <= 240,
        blocks_y <= 135,
        src@.len() >= blocks_x * blocks_y * 64,
        old(out)@.len() >= blocks_y * 8 * width,
    ensures
        final(out)@.len() == old(out)@.len(),
        forall|p: int|
            0 <= p < final(out)@.len() ==> #[trigger] final(out)@[p] == if p < blocks_y * 8 * width {
                src@[linear_to_block(p, width as int, blocks_x as int)]
            } else {
                old(out)@[p]
            },
{
    let ghost old_out = out@;
    let block_size: usize = 8;
    let block_area: usize = block_size * block_size;
    let mut global_y: usize = 0;
    while global_y < blocks_y
        invariant
            global_y <= blocks_y,
            width == 8 * blocks_x,
            1 <= blocks_x <= 240,
            blocks_y <= 135,
            block_size == 8,
            block_area == 64,
            src@.len() >= blocks_x * blocks_y * 64,
            out@.len() == old_out.len(),
            old_out.len() >= blocks_y * 8 * width,
            forall|p: int|
                0 <= p < out@.len() ==> #[trigger] out@[p] == if p < blocks_y * 8 * width
                    && linear_to_block(p, width as int, blocks_x as int) < global_y * blocks_x * 64 {
                    src@[linear_to_block(p, width as int, blocks_x as int)]
                } else {
                    old_out[p]
                },
        decreases blocks_y - global_y,
    {
        let mut global_x: usize = 0;
        while global_x < blocks_x
            invariant
                global_x <= blocks_x,
                width == 8 * blocks_x,
                1 <= blocks_x <= 240,
                blocks_y <= 135,
                global_y < blocks_y,
                block_size == 8,
                block_area == 64,
                src@.len() >= blocks_x * blocks_y * 64,
                out@.len() == old_out.len(),
                old_out.len() >= blocks_y * 8 * width,
                forall|p: int|
                    0 <= p < out@.len() ==> #[trigger] out@[p] == if p < blocks_y * 8 * width
                        && linear_to_block(p, width as int, blocks_x as int) < (global_y * blocks_x
                        + global_x) * 64 {
                        src@[linear_to_block(p, width as int, blocks_x as int)]
                    } else {
                        old_out[p]
                    },
            decreases blocks_x - global_x,
        {
            let mut local_y: usize = 0;
            while local_y < block_size
                invariant
                    local_y <= 8,
                    width == 8 * blocks_x,
                    1 <= blocks_x <= 240,
                    blocks_y <= 135,
                    global_y < blocks_y,
                    global_x < blocks_x,
                    block_size == 8,
                    block_area == 64,
                    src@.len() >= blocks_x * blocks_y * 64,
                    out@.len() == old_out.len(),
                    old_out.len() >= blocks_y * 8 * width,
                    forall|p: int|
                        0 <= p < out@.len() ==> #[trigger] out@[p] == if p < blocks_y * 8 * width
                            && linear_to_block(p, width as int, blocks_x as int) < (global_y
                            * blocks_x + global_x) * 64 + local_y * 8 {
                            src@[linear_to_block(p, width as int, blocks_x as int)]
                        } else {
                            old_out[p]
                        },
                decreases 8 - local_y,
            {
                let mut local_x: usize = 0;
                while local_x < block_size
                    invariant
                        local_x <= 8,
                        width == 8 * blocks_x,
                        1 <= blocks_x <= 240,
                        blocks_y <= 135,
                        global_y < blocks_y,
                        global_x < blocks_x,
                        local_y < 8,
                        block_size == 8,
                        block_area == 64,
                        src@.len() >= blocks_x * blocks_y * 64,
                        out@.len() == old_out.len(),
                        old_out.len() >= blocks_y * 8 * width,
                        forall|p: int|
                            0 <= p < out@.len() ==> #[trigger] out@[p] == if p < blocks_y * 8
                                * width && linear_to_block(p, width as int, blocks_x as int) < (
                            global_y * blocks_x + global_x) * 64 + local_y * 8 + local_x {
                                src@[linear_to_block(p, width as int, blocks_x as int)]
                            } else {
                                old_out[p]
                            },
                    decreases 8 - local_x,
                {
                    let ghost k = (global_y * blocks_x + global_x) * 64 + local_y * 8 + local_x;
                    proof {
                        lemma_index_split(global_y as int, global_x as int, local_y as int, local_x as int, blocks_x as int);
                        assert(global_y * blocks_x + global_x < blocks_x * blocks_y) by (nonlinear_arith)
                            requires
                                global_y < blocks_y,
                                global_x < blocks_x,
                        ;
                        lemma_layout_inverse(k, width as int, blocks_x as int, blocks_y as int);
                    }
                    let y = global_y * block_size + local_y;
                    let x = global_x * block_size + local_x;
                    assert(y * width <= 1080 * 1920) by (nonlinear_arith)
                        requires
                            y < blocks_y * 8,
                            blocks_y <= 135,
                            width == 8 * blocks_x,
                            blocks_x <= 240,
                    ;
                    let linear_index = x + y * width;
                    assert(global_y * blocks_x <= 135 * 240) by (nonlinear_arith)
                        requires
                            global_y < blocks_y,
                            blocks_y <= 135,
                            blocks_x <= 240,
                    ;
                    let block_index = (global_y * blocks_x + global_x) * block_area + local_y
                        * block_size + local_x;
                    assert(linear_index == block_to_linear(k, width as int, blocks_x as int));
                    let ghost before = out@;
                    out.set(linear_index, src[block_index]);
                    proof {
                        assert forall|p: int| 0 <= p < out@.len() implies #[trigger] out@[p] == if p
                            < blocks_y * 8 * width && linear_to_block(p, width as int, blocks_x as int)
                            < k + 1 {
                            src@[linear_to_block(p, width as int, blocks_x as int)]
                        } else {
                            old_out[p]
                        } by {
                            if p != linear_index {
                                assert(out@[p] == before[p]);
                                if p < blocks_y * 8 * width {
                                    lemma_layout_inverse_linear(p, width as int, blocks_x as int, blocks_y as int);
                                }
                            }
                        }
                    }
                    local_x = local_x + 1;
                }
                local_y = local_y + 1;
            }
            global_x = global_x + 1;
        }
        assert((global_y * blocks_x + blocks_x) * 64 == (global_y + 1) * blocks_x * 64) by (nonlinear_arith);
        global_y = global_y + 1;
    }
    assert forall|p: int| 0 <= p < blocks_y * 8 * width implies linear_to_block(p, width as int, blocks_x as int) < blocks_y * blocks_x * 64 by {
        lemma_layout_inverse_linear(p, width as int, blocks_x as int, blocks_y as int);
        assert(blocks_y * blocks_x * 64 == blocks_x * blocks_y * 64) by (nonlinear_arith);
    }
}


/// `s` cut or extended with `fill` to length `n`.
pub open spec fn resized<T>(s: Seq<T>, n: nat, fill: T) -> Seq<T> {
    if n <= s.len() {
        s.take(n as int)
    } else {
        s + Seq::new((n - s.len()) as nat, |i: int| fill)
    }
}

/// A chroma plane in block order: `len` values of which the first
/// `CHROMA_BLOCK_VALUES` come from the 67 whole rows of blocks of `src` and the
/// rest are 0.
pub open spec fn chroma_to_blocks(src: Seq<u8>, len: nat) -> Seq<u8> {
    Seq::new(
        len,
        |k: int|
            if k < CHROMA_BLOCK_VALUES {
                src[block_to_linear(k, 960, 120)]
            } else {
                0
            },
    )
}

/// A chroma plane back in row-major order: `len` values of which the first
/// `CHROMA_BLOCK_VALUES` come from `src` in block order and the rest are 0.
pub open spec fn chroma_to_linear(src: Seq<u8>, len: nat) -> Seq<u8> {
    Seq::new(
        len,
        |p: int|
            if p < CHROMA_BLOCK_VALUES {
                src[linear_to_block(p, 960, 120)]
            } else {
                0
            },
    )
}

/// The source position of block-order value `k` of a half-size chroma plane,
/// with the last row and column repeated past the edges.
pub open spec fn chroma_block_source(k: int) -> int {
    let b = k / 64;
    let l = k % 64;
    let x = (b % 120) * 8 + l % 8;
    let y = (b / 120) * 8 + l / 8;
    (if y < 539 { y } else { 539 }) * 960 + (if x < 959 { x } else { 959 })
}

/// The source position of block-order value `k` of the luma plane.
pub open spec fn luma_block_source(k: int) -> int {
    let b = k / 64;
    let l = k % 64;
    ((b / 240) * 8 + l / 8) * 1920 + (b % 240) * 8 + l % 8
}

impl Capture {
    /// Rearranges the luma plane into 8x8 blocks, each value read from its
    /// source position in the 1920-wide plane.
    pub fn linear_to_block_y(&self, yuv: &Vec<u8>) -> (yuv_block: Vec<u8>)
        requires
            forall|k: int| 0 <= k < yuv@.len() ==> #[trigger] luma_block_source(k) < yuv@.len(),
        ensures
            yuv_block@ == Seq::new(yuv@.len(), |k: int| yuv@[luma_block_source(k)]),
    {
        let mut yuv_block: Vec<u8> = vec![0; yuv.len()];
        let blocks_per_row: usize = RESULTING_WIDTH / 8;
        let mut index: usize = 0;
        while index < yuv_block.len()
            invariant
                blocks_per_row == 240,
                yuv_block@.len() == yuv@.len(),
                index <= yuv@.len(),
                forall|k: int| 0 <= k < yuv@.len() ==> #[trigger] luma_block_source(k) < yuv@.len(),
                forall|k: int| 0 <= k < index ==> #[trigger] yuv_block@[k] == yuv@[luma_block_source(k)],
            decreases yuv@.len() - index,
        {
            let block_index = index / 64;
            let local_index = index % 64;
            let local_x = local_index % 8;
            let local_y = local_index / 8;
            let block_x = (block_index % blocks_per_row) * 8;
            let block_y = (block_index / blocks_per_row) * 8;
            assert(luma_block_source(index as int) < yuv@.len());
            let source_index = (block_y + local_y) * RESULTING_WIDTH + block_x + local_x;
            yuv_block.set(index, yuv[source_index]);
            index = index + 1;
        }
        assert(yuv_block@ =~= Seq::new(yuv@.len(), |k: int| yuv@[luma_block_source(k)]));
        yuv_block
    }

    /// Rearranges the two half-size chroma planes into 8x8 blocks, `cb.len()`
    /// plus four rows of values, each read from its source position with the
    /// last row and column repeated past the edges.
    pub fn linear_to_block_cb_cr(&self, cb: &Vec<u8>, cr: &Vec<u8>) -> (blocks: (Vec<u8>, Vec<u8>))
        requires
            cb@.len() + 3840 <= usize::MAX,
            forall|k: int| 0 <= k < cb@.len() + 3840 ==> #[trigger] chroma_block_source(k) < cb@.len(),
            forall|k: int| 0 <= k < cb@.len() + 3840 ==> #[trigger] chroma_block_source(k) < cr@.len(),
        ensures
            blocks.0@ == Seq::new((cb@.len() + 3840) as nat, |k: int| cb@[chroma_block_source(k)]),
            blocks.1@ == Seq::new((cb@.len() + 3840) as nat, |k: int| cr@[chroma_block_source(k)]),
    {
        let mut cb_block: Vec<u8> = vec![0; cb.len() + 4 * (1920 / 2)];
        let mut cr_block: Vec<u8> = vec![0; cb.len() + 4 * (1920 / 2)];
        let decreased_width: usize = RESULTING_WIDTH / 2;
        let decreased_height: usize = RESULTING_HEIGHT / 2;
        let blocks_per_row: usize = decreased_width / 8;
        let n = cb_block.len();
        let mut index: usize = 0;
        while index < n
            invariant
                decreased_width == 960,
                decreased_height == 540,
                blocks_per_row == 120,
                n == cb@.len() + 3840,
                cb_block@.len() == n,
                cr_block@.len() == n,
                index <= n,
                forall|k: int| 0 <= k < n ==> #[trigger] chroma_block_source(k) < cb@.len(),
                forall|k: int| 0 <= k < n ==> #[trigger] chroma_block_source(k) < cr@.len(),
                forall|k: int| 0 <= k < index ==> #[trigger] cb_block@[k] == cb@[chroma_block_source(k)],
                forall|k: int| 0 <= k < index ==> #[trigger] cr_block@[k] == cr@[chroma_block_source(k)],
            decreases n - index,
        {
            let block_index = index / 64;
            let local_index = index % 64;
            let local_x = local_index % 8;
            let local_y = local_index / 8;
            let block_x = (block_index % blocks_per_row) * 8;
            let block_y = (block_index / blocks_per_row) * 8;
            let src_x = if block_x + local_x < decreased_width - 1 { block_x + local_x } else { decreased_width - 1 };
            let src_y = if block_y + local_y < decreased_height - 1 { block_y + local_y } else { decreased_height - 1 };
            assert(chroma_block_source(index as int) < cb@.len());
            assert(chroma_block_source(index as int) < cr@.len());
            let source_index = src_y * decreased_width + src_x;
            cb_block.set(index, cb[source_index]);
            cr_block.set(index, cr[source_index]);
            index = index + 1;
        }
        assert(cb_block@ =~= Seq::new((cb@.len() + 3840) as nat, |k: int| cb@[chroma_block_source(k)]));
        assert(cr_block@ =~= Seq::new((cb@.len() + 3840) as nat, |k: int| cr@[chroma_block_source(k)]));
        (cb_block, cr_block)
    }

    /// Rearranges the 1920x1080 luma plane into 8x8 blocks, row of blocks by row of blocks.
    pub fn linear_block_fast(&self, pixels: &Vec<u8>) -> (vec_block: Vec<u8>)
        requires
            pixels@.len() >= RESULTING_RESOLUTION,
        ensures
            vec_block@ == luma_to_blocks(pixels@),
    {
        let mut vec_block: Vec<u8> = vec![0u8; RESULTING_RESOLUTION];
        to_blocks(pixels, &mut vec_block, RESULTING_WIDTH, RESULTING_WIDTH / 8, RESULTING_HEIGHT / 8);
        assert(vec_block@ =~= luma_to_blocks(pixels@));
        vec_block
    }

    /// Rearranges the 8x8 blocks of the luma plane back into rows.
    pub fn block_linear_fast(&self, pixels: &Vec<u8>) -> (linear_block: Vec<u8>)
        requires
            pixels@.len() >= RESULTING_RESOLUTION,
        ensures
            linear_block@ == luma_to_linear(pixels@),
    {
        let mut linear_block: Vec<u8> = vec![0u8; RESULTING_RESOLUTION];
        to_linear(pixels, &mut linear_block, RESULTING_WIDTH, RESULTING_WIDTH / 8, RESULTING_HEIGHT / 8);
        assert(linear_block@ =~= luma_to_linear(pixels@));
        linear_block
    }

    /// Rearranges the two 960x540 chroma planes into 8x8 blocks; only the 67
    /// whole rows of blocks are copied, and the planes are then sized to
    /// `cb.len()` plus four rows, the added values being 128.
    pub fn linear_block_fast_crcb(&self, cr: &Vec<u8>, cb: &Vec<u8>) -> (blocks: (Vec<u8>, Vec<u8>))
        requires
            cr@.len() >= CHROMA_BLOCK_VALUES,
            cb@.len() >= CHROMA_BLOCK_VALUES,
            cb@.len() + 3840 <= usize::MAX,
        ensures
            blocks.0@ == resized(chroma_to_blocks(cr@, cr@.len()), (cb@.len() + 3840) as nat, 128),
            blocks.1@ == resized(chroma_to_blocks(cb@, cr@.len()), (cb@.len() + 3840) as nat, 128),
    {
        let mut cr_block: Vec<u8> = vec![0u8; cr.len()];
        let mut cb_block: Vec<u8> = vec![0u8; cr.len()];
        to_blocks(cr, &mut cr_block, RESULTING_WIDTH / 2, (RESULTING_WIDTH / 2) / 8, (RESULTING_HEIGHT / 2) / 8);
        assert(cb_block@.len() == cr@.len());
        assert(cb@.len() >= 120 * 67 * 64);
        to_blocks(cb, &mut cb_block, RESULTING_WIDTH / 2, (RESULTING_WIDTH / 2) / 8, (RESULTING_HEIGHT / 2) / 8);
        assert(cr_block@ =~= chroma_to_blocks(cr@, cr@.len()));
        assert(cb_block@ =~= chroma_to_blocks(cb@, cr@.len()));
        let ghost crb = cr_block@;
        let ghost cbb = cb_block@;
        cr_block.resize(cb.len() + 4 * (1920 / 2), 128);
        cb_block.resize(cb.len() + 4 * (1920 / 2), 128);
        assert(cr_block@ =~= resized(crb, (cb@.len() + 3840) as nat, 128));
        assert(cb_block@ =~= resized(cbb, (cb@.len() + 3840) as nat, 128));
        (cr_block, cb_block)
    }

    /// Rearranges the 8x8 blocks of the two chroma planes back into rows: the
    /// 67 whole rows of blocks are copied, and the planes are then sized to
    /// 960x540 values, the added values being 0.
    pub fn block_linear_fast_crcb(&self, cr: &Vec<u8>, cb: &Vec<u8>) -> (planes: (Vec<u8>, Vec<u8>))
        requires
            cr@.len() >= CHROMA_BLOCK_VALUES,
            cb@.len() >= CHROMA_BLOCK_VALUES,
        ensures
            planes.0@ == resized(chroma_to_linear(cr@, cr@.len()), (RESULTING_RESOLUTION / 4) as nat, 0),
            planes.1@ == resized(chroma_to_linear(cb@, cr@.len()), (RESULTING_RESOLUTION / 4) as nat, 0),
    {
        let mut cr_block: Vec<u8> = vec![0u8; cr.len()];
        let mut cb_block: Vec<u8> = vec![0u8; cr.len()];
        assert((RESULTING_HEIGHT / 2) / 8 == 67 && RESULTING_WIDTH / 2 == 960);
        to_linear(cr, &mut cr_block, RESULTING_WIDTH / 2, (RESULTING_WIDTH / 2) / 8, (RESULTING_HEIGHT / 2) / 8);
        assert(cb_block@.len() == cr@.len());
        assert(cb@.len() >= 120 * 67 * 64);
        to_linear(cb, &mut cb_block, RESULTING_WIDTH / 2, (RESULTING_WIDTH / 2) / 8, (RESULTING_HEIGHT / 2) / 8);
        assert(cr_block@ =~= chroma_to_linear(cr@, cr@.len()));
        assert(cb_block@ =~= chroma_to_linear(cb@, cr@.len()));
        let ghost crb = cr_block@;
        let ghost cbb = cb_block@;
        cr_block.resize(RESULTING_RESOLUTION / 4, 0);
        cb_block.resize(RESULTING_RESOLUTION / 4, 0);
        assert(cr_block@ =~= resized(crb, (RESULTING_RESOLUTION / 4) as nat, 0));
        assert(cb_block@ =~= resized(cbb, (RESULTING_RESOLUTION / 4) as nat, 0));
        (cr_block, cb_block)
    }
}

/// Putting the luma blocks back into rows undoes rearranging the plane into blocks.
pub proof fn lemma_luma_layout_roundtrip(v: Seq<u8>)
    requires
        v.len() == RESULTING_RESOLUTION,
    ensures
        luma_to_linear(luma_to_blocks(v)) == v,
        luma_to_blocks(luma_to_linear(v)) == v,
{
    assert forall|p: int| 0 <= p < v.len() implies #[trigger] luma_to_linear(luma_to_blocks(v))[p] == v[p] by {
        lemma_layout_inverse_linear(p, 1920, 240, 135);
    }
    assert forall|k: int| 0 <= k < v.len() implies #[trigger] luma_to_blocks(luma_to_linear(v))[k] == v[k] by {
        lemma_layout_inverse(k, 1920, 240, 135);
    }
    assert(luma_to_linear(luma_to_blocks(v)) =~= v);
    assert(luma_to_blocks(luma_to_linear(v)) =~= v);
}

/// Putting the chroma blocks back into rows restores the 67 whole rows of blocks.
pub proof fn lemma_chroma_layout_roundtrip(v: Seq<u8>, n: nat, m: nat)
    requires
        v.len() >= CHROMA_BLOCK_VALUES,
        n >= CHROMA_BLOCK_VALUES,
        m >= CHROMA_BLOCK_VALUES,
    ensures
        chroma_to_linear(chroma_to_blocks(v, n), m).take(CHROMA_BLOCK_VALUES as int) == v.take(CHROMA_BLOCK_VALUES as int),
        chroma_to_blocks(chroma_to_linear(v, n), m).take(CHROMA_BLOCK_VALUES as int) == v.take(CHROMA_BLOCK_VALUES as int),
{
    assert forall|p: int| 0 <= p < CHROMA_BLOCK_VALUES implies #[trigger] chroma_to_linear(chroma_to_blocks(v, n), m)[p] == v[p] by {
        lemma_layout_inverse_linear(p, 960, 120, 67);
    }
    assert forall|k: int| 0 <= k < CHROMA_BLOCK_VALUES implies #[trigger] chroma_to_blocks(chroma_to_linear(v, n), m)[k] == v[k] by {
        lemma_layout_inverse(k, 960, 120, 67);
    }
    assert(chroma_to_linear(chroma_to_blocks(v, n), m).take(CHROMA_BLOCK_VALUES as int) =~= v.take(CHROMA_BLOCK_VALUES as int));
    assert(chroma_to_blocks(chroma_to_linear(v, n), m).take(CHROMA_BLOCK_VALUES as int) =~= v.take(CHROMA_BLOCK_VALUES as int));
}

} // verus!
