//! Layout of RGBA8 surfaces and of the 4x4 blocks that tile them.
use vstd::prelude::*;

verus! {

/// All BCn formats use blocks of 4x4 pixels.
pub const BLOCK_WIDTH: usize = 4;

/// All BCn formats use blocks of 4x4 pixels.
pub const BLOCK_HEIGHT: usize = 4;

/// Bytes of one RGBA8 pixel.
pub const BYTES_PER_PIXEL: usize = 4;

/// Bytes of one decoded 4x4 RGBA8 block.
pub const BYTES_PER_BLOCK: usize = 64;

/// `x / d` rounded up.
pub open spec fn spec_div_round_up(x: int, d: int) -> int {
    (x + d - 1) / d
}

/// The number of blocks of `BLOCK_WIDTH` pixels that cover `n` pixels.
pub open spec fn blocks_for(n: int) -> int {
    spec_div_round_up(n, 4)
}

/// Index of byte `c` of pixel (`x`, `y`) in an RGBA8 surface `width` pixels wide.
pub open spec fn pixel_index(width: int, x: int, y: int, c: int) -> int {
    (y * width + x) * 4 + c
}

/// The number, counting the blocks of a surface `width` pixels wide in
/// row-major order from 0, of the block that holds pixel (`x`, `y`).
pub open spec fn row_major_block(width: int, x: int, y: int) -> int {
    (y / 4) * blocks_for(width) + x / 4
}

/// Index of byte `c` of pixel (`x`, `y`) in a decoded 4x4 RGBA8 block.
pub open spec fn block_pixel_index(x: int, y: int, c: int) -> int {
    (y * 4 + x) * 4 + c
}

/// Divides `x` by `d`, rounding up.
pub fn div_round_up(x: usize, d: usize) -> (q: usize)
    requires
        d > 0,
    ensures
        q == spec_div_round_up(x as int, d as int),
{
    let q = x / d;
    let r = x % d;
    proof {
        let (xi, di) = (x as int, d as int);
        let q0 = xi / di;
        let r0 = xi % di;
        assert(xi == di * q0 + r0 && 0 <= r0 < di) by {
            vstd::arithmetic::div_mod::lemma_fundamental_div_mod(xi, di);
            vstd::arithmetic::div_mod::lemma_mod_bound(xi, di);
        }
        if r0 == 0 {
            vstd::arithmetic::div_mod::lemma_fundamental_div_mod_converse(
                xi + di - 1, di, q0, di - 1);
        } else {
            assert(di * (q0 + 1) == di * q0 + di) by (nonlinear_arith);
            vstd::arithmetic::div_mod::lemma_fundamental_div_mod_converse(
                xi + di - 1, di, q0 + 1, r0 - 1);
            assert(q0 + 1 <= xi) by (nonlinear_arith)
                requires xi == di * q0 + r0, r0 > 0, di >= 1, q0 >= 0;
        }
    }
    if r == 0 {
        q
    } else {
        q + 1
    }
}

/// Pixel indices of a surface are distinct for distinct pixels and bytes.
pub proof fn lemma_pixel_index_injective(
    width: int,
    x1: int,
    y1: int,
    c1: int,
    x2: int,
    y2: int,
    c2: int,
)
    requires
        0 <= x1 < width,
        0 <= x2 < width,
        0 <= y1,
        0 <= y2,
        0 <= c1 < 4,
        0 <= c2 < 4,
        pixel_index(width, x1, y1, c1) == pixel_index(width, x2, y2, c2),
    ensures
        x1 == x2,
        y1 == y2,
        c1 == c2,
{
    let a1 = y1 * width + x1;
    let a2 = y2 * width + x2;
    assert(a1 * 4 + c1 == a2 * 4 + c2);
    assert(a1 == a2);
    if y1 < y2 {
        assert(y2 * width >= y1 * width + width) by (nonlinear_arith)
            requires y1 < y2, width > 0;
    } else if y2 < y1 {
        assert(y1 * width >= y2 * width + width) by (nonlinear_arith)
            requires y2 < y1, width > 0;
    }
}

/// Pixel indices of a surface lie inside the surface.
pub proof fn lemma_pixel_index_bounds(width: int, height: int, x: int, y: int, c: int)
    requires
        0 <= x < width,
        0 <= y < height,
        0 <= c < 4,
    ensures
        0 <= pixel_index(width, x, y, c) < width * height * 4,
{
    assert(0 <= y * width) by (nonlinear_arith)
        requires 0 <= y, 0 < width;
    assert(y * width + width <= height * width) by (nonlinear_arith)
        requires y + 1 <= height, 0 < width;
    assert(height * width * 4 == width * height * 4) by (nonlinear_arith);
}

} // verus!
