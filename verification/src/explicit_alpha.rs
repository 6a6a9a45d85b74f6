//! BC2 encoding. A BC2 block is 8 bytes of explicit 4-bit alpha followed by a
//! color half that decoders read exactly as the color half of a BC3 block, so a
//! BC2 surface is built from the BC3 encoding of the same surface by replacing
//! the interpolated alpha half of each block with explicit alpha.
use vstd::prelude::*;
use vstd::arithmetic::div_mod::lemma_fundamental_div_mod_converse;
use crate::surface::{lemma_pixel_index_bounds, pixel_index};

verus! {

/// An 8-bit alpha value quantized to 4 bits, rounding to nearest:
/// decoders expand it back with `* 17`.
pub open spec fn alpha4(a: u8) -> int {
    (a * 15 + 127) / 255
}

/// Byte `j` (0..8) of the explicit alpha of the block whose top left pixel is
/// (`x0`, `y0`): row `j / 2`, the low nibble for column `2 * (j % 2)` and the
/// high nibble for the column after it.
pub open spec fn explicit_alpha_byte(width: int, rgba: Seq<u8>, x0: int, y0: int, j: int) -> u8 {
    let y = y0 + j / 2;
    let x = x0 + 2 * (j % 2);
    (alpha4(rgba[pixel_index(width, x, y, 3)]) + 16 * alpha4(rgba[pixel_index(width, x + 1, y, 3)])) as u8
}

/// The BC2 blocks for an RGBA8 surface whose BC3 blocks are `bc3`: block `k`
/// keeps the color half of BC3 block `k` and takes explicit alpha from the
/// `k`-th whole 4x4 block of the surface in row-major order, or zeros past the
/// whole blocks, where the BC3 encoder leaves its blocks zeroed too.
pub open spec fn spec_bc2_from_bc3(width: int, height: int, rgba: Seq<u8>, bc3: Seq<u8>) -> Seq<u8> {
    Seq::new(
        bc3.len(),
        |i: int|
            {
                let k = i / 16;
                let j = i % 16;
                if j >= 8 {
                    bc3[i]
                } else if k < (width / 4) * (height / 4) {
                    explicit_alpha_byte(width, rgba, 4 * (k % (width / 4)), 4 * (k / (width / 4)), j)
                } else {
                    0u8
                }
            },
    )
}

/// Quantizes an 8-bit alpha value to 4 bits.
fn quantize_alpha(a: u8) -> (q: u8)
    ensures
        q == alpha4(a),
        q < 16,
{
    ((a as u32 * 15 + 127) / 255) as u8
}

/// Builds the BC2 blocks of an RGBA8 surface from its BC3 blocks.
pub fn bc2_from_bc3(width: u32, height: u32, rgba: &[u8], bc3: &[u8]) -> (bc2: Vec<u8>)
    requires
        rgba@.len() >= width * height * 4,
        bc3@.len() % 16 == 0,
        bc3@.len() >= (width / 4) * (height / 4) * 16,
    ensures
        bc2@ == spec_bc2_from_bc3(width as int, height as int, rgba@, bc3@),
{
    let ghost spec = spec_bc2_from_bc3(width as int, height as int, rgba@, bc3@);
    let rgba_len = rgba.len();
    let bc3_len = bc3.len();
    let w = width as usize;
    let blocks_x = w / 4;
    let blocks_y = height as usize / 4;
    let ghost (wi, hi) = (width as int, height as int);
    proof {
        assert(blocks_x * blocks_y * 16 <= bc3@.len());
        assert(blocks_x * blocks_y <= blocks_x * blocks_y * 16) by (nonlinear_arith)
            requires blocks_x >= 0, blocks_y >= 0;
    }
    let whole = blocks_x * blocks_y;
    let n = bc3.len() / 16;
    let mut bc2: Vec<u8> = Vec::with_capacity(bc3.len());
    proof {
        if whole > 0 {
            assert(blocks_x > 0) by (nonlinear_arith)
                requires whole == blocks_x * blocks_y, whole > 0, blocks_y >= 0;
        }
        assert(0 * blocks_x == 0);
    }
    let mut k: usize = 0;
    let mut bx: usize = 0;
    let mut by: usize = 0;
    while k < n
        invariant
            n == bc3@.len() / 16,
            bc3@.len() % 16 == 0,
            bc3@.len() <= usize::MAX,
            rgba@.len() >= wi * hi * 4,
            rgba@.len() <= usize::MAX,
            wi == w,
            hi == height,
            blocks_x == wi / 4,
            blocks_y == hi / 4,
            whole == blocks_x * blocks_y,
            k <= n,
            bc2@.len() == 16 * k,
            k < whole ==> k == by * blocks_x + bx && bx < blocks_x,
            forall|i: int| 0 <= i < 16 * k ==> #[trigger] bc2@[i] == spec[i],
            spec == spec_bc2_from_bc3(wi, hi, rgba@, bc3@),
        decreases n - k,
    {
        if k < whole {
            proof {
                lemma_fundamental_div_mod_converse(k as int, blocks_x as int, by as int, bx as int);
                assert(by < blocks_y) by (nonlinear_arith)
                    requires k == by * blocks_x + bx, k < blocks_x * blocks_y, bx >= 0;
            }
            let mut j: usize = 0;
            while j < 8
                invariant
                    j <= 8,
                    k < whole,
                    whole == blocks_x * blocks_y,
                    k < n,
                    n == bc3@.len() / 16,
                    rgba@.len() >= wi * hi * 4,
                    rgba@.len() <= usize::MAX,
                    wi == w,
                    hi == height,
                    blocks_x == wi / 4,
                    blocks_y == hi / 4,
                    bx < blocks_x,
                    by < blocks_y,
                    (k as int) / (blocks_x as int) == by,
                    (k as int) % (blocks_x as int) == bx,
                    bc2@.len() == 16 * k + j,
                    forall|i: int| 0 <= i < 16 * k + j ==> #[trigger] bc2@[i] == spec[i],
                    spec == spec_bc2_from_bc3(wi, hi, rgba@, bc3@),
                decreases 8 - j,
            {
                let y = 4 * by + j / 2;
                let x = 4 * bx + 2 * (j % 2);
                proof {
                    lemma_pixel_index_bounds(wi, hi, x as int + 1, y as int, 3);
                    lemma_pixel_index_bounds(wi, hi, x as int, y as int, 3);
                }
                let lo = quantize_alpha(rgba[(y * w + x) * 4 + 3]);
                let hi4 = quantize_alpha(rgba[(y * w + x + 1) * 4 + 3]);
                bc2.push(lo + 16 * hi4);
                proof {
                    let i = 16 * k + j;
                    assert(explicit_alpha_byte(wi, rgba@, 4 * bx, 4 * by, j as int) == lo + 16
                        * hi4);
                    assert(i / 16 == k && i % 16 == j);
                    assert(spec[i] == explicit_alpha_byte(wi, rgba@, 4 * bx, 4 * by, j as int));
                }
                j += 1;
            }
            if bx + 1 == blocks_x {
                proof {
                    assert(k + 1 == (by + 1) * blocks_x) by (nonlinear_arith)
                        requires k == by * blocks_x + bx, bx + 1 == blocks_x;
                }
                bx = 0;
                by += 1;
            } else {
                bx += 1;
            }
        } else {
            let mut j: usize = 0;
            while j < 8
                invariant
                    j <= 8,
                    k >= whole,
                    k < n,
                    n == bc3@.len() / 16,
                    whole == blocks_x * blocks_y,
                    blocks_x == wi / 4,
                    blocks_y == hi / 4,
                    bc2@.len() == 16 * k + j,
                    forall|i: int| 0 <= i < 16 * k + j ==> #[trigger] bc2@[i] == spec[i],
                    spec == spec_bc2_from_bc3(wi, hi, rgba@, bc3@),
                decreases 8 - j,
            {
                bc2.push(0u8);
                proof {
                    let i = 16 * k + j;
                    assert(i / 16 == k && i % 16 == j);
                    assert(bc2@[i] == spec[i]);
                }
                j += 1;
            }
        }
        let mut j: usize = 8;
        while j < 16
            invariant
                8 <= j <= 16,
                k < n,
                bc3@.len() <= usize::MAX,
                n == bc3@.len() / 16,
                bc3@.len() % 16 == 0,
                bc2@.len() == 16 * k + j,
                forall|i: int| 0 <= i < 16 * k + j ==> #[trigger] bc2@[i] == spec[i],
                spec == spec_bc2_from_bc3(wi, hi, rgba@, bc3@),
            decreases 16 - j,
        {
            bc2.push(bc3[16 * k + j]);
            proof {
                let i = 16 * k + j;
                assert(i / 16 == k && i % 16 == j);
                assert(bc2@[i] == spec[i]);
            }
            j += 1;
        }
        k += 1;
    }
    assert(bc2@ =~= spec);
    bc2
}

/// Explicit alpha loses at most 8 of 255: a quantized alpha value, expanded
/// back by 17 as decoders do, is within 8 of the original.
pub proof fn lemma_alpha4_error(a: u8)
    ensures
        0 <= alpha4(a) <= 15,
        -8 <= alpha4(a) * 17 - a <= 8,
{
    let q = alpha4(a);
    assert(255 * q <= a * 15 + 127 < 255 * q + 255) by {
        vstd::arithmetic::div_mod::lemma_fundamental_div_mod(a * 15 + 127, 255);
        vstd::arithmetic::div_mod::lemma_mod_bound(a * 15 + 127, 255);
    }
    assert(0 <= q <= 15 && -8 <= q * 17 - a <= 8) by (nonlinear_arith)
        requires 255 * q <= a * 15 + 127 < 255 * q + 255, 0 <= a <= 255;
}

/// BC2 encoding keeps the color half of every block of the BC3 encoding.
pub proof fn lemma_bc2_keeps_bc3_color(
    width: int,
    height: int,
    rgba: Seq<u8>,
    bc3: Seq<u8>,
    i: int,
)
    requires
        0 <= i < bc3.len(),
        i % 16 >= 8,
    ensures
        spec_bc2_from_bc3(width, height, rgba, bc3).len() == bc3.len(),
        spec_bc2_from_bc3(width, height, rgba, bc3)[i] == bc3[i],
{
}

} // verus!
