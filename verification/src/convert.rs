use vstd::prelude::*;

verus! {

/// The number of source pixels averaged along each side when a frame is
/// scaled to 1920 wide: one at that width already, else two.
pub open spec fn block_length(width: u32) -> int {
    if width == 1920 {
        1
    } else {
        2
    }
}

/// The sum of channel `c` over the first `n` source pixels of the block at
/// `dest`, row by row (`bl` pixels per row, rows `width` pixels apart; four
/// bytes per pixel).
pub open spec fn block_sum(pixels: Seq<u8>, dest: int, width: int, bl: int, c: int, n: nat) -> int
    decreases n,
{
    if n == 0 {
        0
    } else {
        let k = n - 1;
        block_sum(pixels, dest, width, bl, c, k as nat) + pixels[(dest + k % bl + (k / bl) * width) * 4 + c]
    }
}

/// The average of channel `c` over the source block at `dest`.
pub open spec fn channel_average(pixels: Seq<u8>, dest: int, width: u32, c: int) -> int {
    let bl = block_length(width);
    block_sum(pixels, dest, width as int, bl, c, (bl * bl) as nat) / (bl * bl)
}

/// The first value of the 2x2 square of the full-size plane that the
/// half-size value `index` averages.
pub open spec fn chroma_source(index: int) -> int {
    (index % 960) * 2 + (index / 960) * 2 * 1920
}

/// The half-size value `index`: the average of its 2x2 square.
pub open spec fn chroma_average(plane: Seq<u8>, index: int) -> u8 {
    let s = chroma_source(index);
    ((plane[s] + plane[s + 1] + plane[s + 1920] + plane[s + 1921]) / 4) as u8
}

/// A full-size plane halved in both directions.
pub open spec fn subsampled(plane: Seq<u8>) -> Seq<u8> {
    Seq::new(518400, |k: int| chroma_average(plane, k))
}

/// The 2x2 square of each half-size value lies inside the full-size plane.
pub proof fn lemma_chroma_source_bounds(index: int)
    requires
        0 <= index < 518400,
    ensures
        0 <= chroma_source(index),
        chroma_source(index) + 1921 < 2073600,
{
    assert(index / 960 <= 539);
    assert((index / 960) * 2 * 1920 <= 539 * 3840) by (nonlinear_arith)
        requires
            0 <= index / 960 <= 539,
    ;
    assert(0 <= (index / 960) * 2 * 1920) by (nonlinear_arith)
        requires
            0 <= index / 960,
    ;
}


/// The sums over the first `n` pixels of a block agree for frames that
/// agree on every byte but the fourth of each pixel, within the block.
proof fn lemma_block_sum_alpha(p1: Seq<u8>, p2: Seq<u8>, dest: int, width: int, bl: int, c: int, n: nat)
    requires
        0 <= c < 3,
        0 <= dest,
        0 <= width,
        1 <= bl <= 2,
        n <= bl * bl,
        p1.len() == p2.len(),
        forall|j: int| 0 <= j < p1.len() && j % 4 != 3 ==> #[trigger] p1[j] == p2[j],
        (dest + (bl - 1) + (bl - 1) * width) * 4 + 2 < p1.len(),
    ensures
        block_sum(p1, dest, width, bl, c, n) == block_sum(p2, dest, width, bl, c, n),
    decreases n,
{
    if n > 0 {
        let k = n - 1;
        lemma_block_sum_alpha(p1, p2, dest, width, bl, c, k as nat);
        let q = dest + k % bl + (k / bl) * width;
        if bl == 1 {
            assert(k == 0);
        } else {
            assert(k < 4);
        }
        assert(0 <= k % bl <= bl - 1 && 0 <= k / bl <= bl - 1);
        assert(0 <= (k / bl) * width <= (bl - 1) * width) by (nonlinear_arith)
            requires
                0 <= k / bl <= bl - 1,
                0 <= width,
        ;
        let i = q * 4 + c;
        assert(0 <= i < p1.len());
        assert(i % 4 == c) by {
            vstd::arithmetic::div_mod::lemma_fundamental_div_mod_converse(i, 4, q, c);
        }
        assert(p1[i] == p2[i]);
    }
}

/// The fourth byte of each pixel (alpha) never changes the averages of the
/// red, green and blue channels over a source block: frames that differ
/// only there average to the same colour.
pub proof fn lemma_alpha_ignored(p1: Seq<u8>, p2: Seq<u8>, dest: int, width: u32, c: int)
    requires
        0 <= c < 3,
        0 <= dest,
        p1.len() == p2.len(),
        forall|j: int| 0 <= j < p1.len() && j % 4 != 3 ==> #[trigger] p1[j] == p2[j],
        (dest + (block_length(width) - 1) + (block_length(width) - 1) * width) * 4 + 2 < p1.len(),
    ensures
        channel_average(p1, dest, width, c) == channel_average(p2, dest, width, c),
{
    let bl = block_length(width);
    lemma_block_sum_alpha(p1, p2, dest, width as int, bl, c, (bl * bl) as nat);
}


/// Halving a plane: half-size value `k`, at column `x = k % 960` and row
/// `y = k / 960`, is the average of the 2x2 square of the 1920-wide plane at
/// rows `2y` and `2y + 1` and columns `2x` and `2x + 1`.
pub proof fn lemma_subsampled_squares(plane: Seq<u8>, k: int)
    requires
        plane.len() >= 2073600,
        0 <= k < 518400,
    ensures
        ({
            let x = k % 960;
            let y = k / 960;
            subsampled(plane)[k] == ((plane[(2 * y) * 1920 + 2 * x] + plane[(2 * y) * 1920 + 2 * x + 1]
                + plane[(2 * y + 1) * 1920 + 2 * x] + plane[(2 * y + 1) * 1920 + 2 * x + 1]) / 4) as u8
        }),
{
    let x = k % 960;
    let y = k / 960;
    assert((2 * y + 1) * 1920 == (2 * y) * 1920 + 1920);
    assert((k / 960) * 2 * 1920 == (2 * y) * 1920);
}

/// Scaling to 1920 wide averages one source pixel per side at exactly that
/// width: at width 1920 a channel is the source pixel's own value; at any
/// other width it is the average of the 2x2 block of pixels at `dest`,
/// `dest + 1`, `dest + width` and `dest + width + 1` (four bytes per pixel).
pub proof fn lemma_channel_average_blocks(pixels: Seq<u8>, dest: int, width: u32, c: int)
    ensures
        block_length(width) == 1 <==> width == 1920,
        width == 1920 ==> channel_average(pixels, dest, width, c) == pixels[dest * 4 + c],
        width != 1920 ==> channel_average(pixels, dest, width, c) == (pixels[dest * 4 + c] + pixels[(dest + 1) * 4 + c]
            + pixels[(dest + width) * 4 + c] + pixels[(dest + width + 1) * 4 + c]) / 4,
{
    let w = width as int;
    if width == 1920 {
        assert(block_sum(pixels, dest, w, 1, c, 0) == 0);
        assert((0int % 1) == 0 && (0int / 1) == 0);
        assert((0int / 1) * w == 0);
        assert(block_sum(pixels, dest, w, 1, c, 1) == pixels[dest * 4 + c]);
        assert(block_length(width) == 1);
        let bl = block_length(width);
        assert(bl * bl == 1) by (nonlinear_arith)
            requires
                bl == 1,
        ;
        assert(channel_average(pixels, dest, width, c) == block_sum(pixels, dest, w, 1, c, 1nat) / 1);
    } else {
        reveal_with_fuel(block_sum, 5);
        let bl = block_length(width);
        assert(bl * bl == 4) by (nonlinear_arith)
            requires
                bl == 2,
        ;
        assert(0int % 2 == 0 && 0int / 2 == 0);
        assert(1int % 2 == 1 && 1int / 2 == 0);
        assert(2int % 2 == 0 && 2int / 2 == 1);
        assert(3int % 2 == 1 && 3int / 2 == 1);
        assert((dest + 0 + 1 * w) == dest + w);
        assert((dest + 1 + 1 * w) == dest + w + 1);
    }
}

} // verus!
