//! Decoding and encoding of whole surfaces in the BCn formats.
use vstd::prelude::*;
use crate::block::ReadBlock;
use crate::error::{CompressSurfaceError, DecompressSurfaceError, Quality};
use crate::surface::{
    block_pixel_index, blocks_for, div_round_up, lemma_pixel_index_bounds,
    lemma_pixel_index_injective, pixel_index, BLOCK_HEIGHT, BLOCK_WIDTH, BYTES_PER_BLOCK,
    BYTES_PER_PIXEL,
};

verus! {

/// A block-compressed format: how one block decodes to RGBA8 pixels, and how an
/// RGBA8 surface is encoded.
pub trait Bcn {
    /// The compressed representation of one 4x4 block.
    type CompressedBlock: ReadBlock;

    /// The 64 RGBA8 bytes, row by row, that a block with bytes `block` decodes to.
    spec fn spec_decompress_block(block: Seq<u8>) -> Seq<u8>;

    /// The surfaces, and lengths of RGBA8 input, that the encoder accepts
    /// without an arithmetic overflow.
    spec fn can_compress(width: u32, height: u32, data_len: nat) -> bool;

    /// The number of bytes that encoding a `width` x `height` surface gives.
    spec fn spec_encoded_len(width: u32, height: u32) -> int;

    /// What holds of every encoding of a `width` x `height` RGBA8 surface
    /// that the encoder may give, beyond its length. For formats whose blocks
    /// come straight from a machine-dependent encoder this is `true`: nothing
    /// more is known of the bytes. BC2 states how its blocks are built from the
    /// encoder's BC3 blocks.
    spec fn is_compressed_surface(
        width: u32,
        height: u32,
        rgba8_data: Seq<u8>,
        quality: Quality,
        encoded: Seq<u8>,
    ) -> bool;

    /// Decodes one block to RGBA8, padding formats with fewer channels.
    fn decompress_block(block: &Self::CompressedBlock) -> (pixels: [u8; BYTES_PER_BLOCK])
        ensures
            pixels@ == Self::spec_decompress_block(block.bytes()),
    ;

    /// Encodes a `width` x `height` RGBA8 surface of `4 * width * height`
    /// bytes or more.
    fn compress_surface(
        width: u32,
        height: u32,
        rgba8_data: &[u8],
        quality: Quality,
    ) -> (encoded: Result<Vec<u8>, CompressSurfaceError>)
        requires
            Self::can_compress(width, height, rgba8_data@.len()),
            rgba8_data@.len() >= width * height * 4,
        ensures
            encoded matches Ok(blocks) && blocks@.len() == Self::spec_encoded_len(width, height)
                && Self::is_compressed_surface(width, height, rgba8_data@, quality, blocks@),
    ;
}

/// The number of bytes of the compressed blocks of a `width` x `height` surface.
pub open spec fn compressed_size<T: Bcn>(width: int, height: int) -> int {
    blocks_for(width) * blocks_for(height) * <T::CompressedBlock as ReadBlock>::SIZE_IN_BYTES
}

/// The compressed bytes of the block that holds pixel (`x`, `y`) of the surface
/// `width` pixels wide whose blocks, in row-major order, are the bytes of `data`.
pub open spec fn block_bytes<T: Bcn>(width: int, data: Seq<u8>, x: int, y: int) -> Seq<u8> {
    let size = <T::CompressedBlock as ReadBlock>::SIZE_IN_BYTES as int;
    let start = ((y / 4) * blocks_for(width) + x / 4) * size;
    data.subrange(start, start + size)
}

/// Byte `c` of pixel (`x`, `y`) of the surface `width` pixels wide whose blocks,
/// in row-major order, are the bytes of `data`.
pub open spec fn decoded_byte<T: Bcn>(width: int, data: Seq<u8>, x: int, y: int, c: int) -> u8 {
    T::spec_decompress_block(block_bytes::<T>(width, data, x, y))[block_pixel_index(
        x % 4,
        y % 4,
        c,
    )]
}

/// `rgba` is the RGBA8 surface, `width` x `height` pixels, that `data` decodes to.
pub open spec fn is_decoded_surface<T: Bcn>(
    width: int,
    height: int,
    data: Seq<u8>,
    rgba: Seq<u8>,
) -> bool {
    &&& rgba.len() == width * height * 4
    &&& forall|x: int, y: int, c: int|
        0 <= x < width && 0 <= y < height && 0 <= c < 4 ==> #[trigger] rgba[pixel_index(
            width,
            x,
            y,
            c,
        )] == decoded_byte::<T>(width, data, x, y, c)
}

/// Places a decoded 4x4 block with its top left pixel at (`x`, `y`) in the
/// surface, dropping the pixels that fall outside it.
#[verifier::spinoff_prover]
#[verifier::rlimit(60)]
fn put_rgba_block(
    surface: &mut Vec<u8>,
    pixels: [u8; BYTES_PER_BLOCK],
    x: usize,
    y: usize,
    width: usize,
    height: usize,
)
    requires
        old(surface)@.len() >= width * height * 4,
        x < width,
        y < height,
    ensures
        final(surface)@.len() == old(surface)@.len(),
        forall|k: int|
            width * height * 4 <= k < old(surface)@.len() ==> #[trigger] final(surface)@[k] == old(
                surface,
            )@[k],
        forall|px: int, py: int, c: int|
            0 <= px < width && 0 <= py < height && 0 <= c < 4 ==> #[trigger] final(surface)@[pixel_index(width as int, px, py, c)] == if x <= px < x + 4 && y <= py < y + 4 {
                pixels@[block_pixel_index(px - x, py - y, c)]
            } else {
                old(surface)@[pixel_index(width as int, px, py, c)]
            },
{
    let ghost w = width as int;
    let ghost h = height as int;
    let ghost before = surface@;
    let total = surface.len();
    proof {
        assert(w * h * 4 >= h * 4 && w * h * 4 >= w * 4) by (nonlinear_arith)
            requires w >= 1, h >= 1;
    }
    let mut k: usize = 0;
    while k < BYTES_PER_BLOCK
        invariant
            k <= 64,
            w == width as int,
            h == height as int,
            surface@.len() == before.len(),
            before.len() >= w * h * 4,
            before.len() == total,
            x < width,
            y < height,
            w * h * 4 <= usize::MAX,
            forall|j: int| w * h * 4 <= j < before.len() ==> #[trigger] surface@[j] == before[j],
            w * h * 4 >= h * 4,
            w * h * 4 >= w * 4,
            forall|px: int, py: int, c: int|
                0 <= px < w && 0 <= py < h && 0 <= c < 4 ==> #[trigger] surface@[pixel_index(
                    w,
                    px,
                    py,
                    c,
                )] == if x <= px < x + 4 && y <= py < y + 4 && block_pixel_index(
                    px - x,
                    py - y,
                    c,
                ) < k {
                    pixels@[block_pixel_index(px - x, py - y, c)]
                } else {
                    before[pixel_index(w, px, py, c)]
                },
        decreases 64 - k,
    {
        let row = k / 16;
        let col = (k / 4) % 4;
        let c = k % 4;
        assert(row < 4 && col < 4 && c < 4);
        assert(y + row <= h * 4 && x + col <= w * 4);
        if y + row < height && x + col < width {
            let ghost (px, py) = ((x + col) as int, (y + row) as int);
            proof {
                lemma_pixel_index_bounds(w, h, px, py, c as int);
                assert(pixel_index(w, px, py, c as int) == ((y + row) * width + x + col) * 4 + c)
                    by (nonlinear_arith)
                    requires px == x + col, py == y + row, w == width;
            }
            let i = ((y + row) * width + x + col) * 4 + c;
            let ghost prev = surface@;
            surface[i] = pixels[k];
            proof {
                assert(block_pixel_index(px - x, py - y, c as int) == k);
                assert forall|qx: int, qy: int, qc: int|
                    0 <= qx < w && 0 <= qy < h && 0 <= qc < 4 implies #[trigger] surface@[pixel_index(
                    w,
                    qx,
                    qy,
                    qc,
                )] == if x <= qx < x + 4 && y <= qy < y + 4 && block_pixel_index(
                    qx - x,
                    qy - y,
                    qc,
                ) < k + 1 {
                    pixels@[block_pixel_index(qx - x, qy - y, qc)]
                } else {
                    before[pixel_index(w, qx, qy, qc)]
                } by {
                    lemma_pixel_index_bounds(w, h, qx, qy, qc);
                    if pixel_index(w, qx, qy, qc) == i as int {
                        lemma_pixel_index_injective(w, qx, qy, qc, px, py, c as int);
                    } else {
                        if x <= qx < x + 4 && y <= qy < y + 4 && block_pixel_index(
                            qx - x,
                            qy - y,
                            qc,
                        ) == k {
                            assert(qx == px && qy == py && qc == c);
                        }
                    }
                }
            }
        } else {
            proof {
                assert forall|qx: int, qy: int, qc: int|
                    0 <= qx < w && 0 <= qy < h && 0 <= qc < 4 && x <= qx < x + 4 && y <= qy < y
                        + 4 implies #[trigger] block_pixel_index(qx - x, qy - y, qc) != k by {
                    if block_pixel_index(qx - x, qy - y, qc) == k {
                        assert(qx == x + col && qy == y + row);
                    }
                }
            }
        }
        k += 1;
    }
}

/// The surfaces whose block count or compressed size overflows `usize`.
pub open spec fn dimensions_overflow<T: Bcn>(width: int, height: int) -> bool {
    blocks_for(width) * blocks_for(height) > usize::MAX || compressed_size::<T>(width, height)
        > usize::MAX
}

/// Decompress the bytes in `data` to the uncompressed RGBA8 format.
///
/// The blocks are read in row-major order. Surfaces whose dimensions are not
/// multiples of the block dimensions are decoded too: the pixels of the last
/// blocks that fall outside the surface are dropped.
pub fn rgba8_from_bcn<T: Bcn>(width: u32, height: u32, data: &[u8]) -> (rgba: Result<
    Vec<u8>,
    DecompressSurfaceError,
>)
    requires
        !dimensions_overflow::<T>(width as int, height as int) && data@.len()
            >= compressed_size::<T>(width as int, height as int) ==> width as int * height as int
            * 4 <= usize::MAX,
    ensures
        dimensions_overflow::<T>(width as int, height as int) ==> rgba == Err::<Vec<u8>, _>(
            DecompressSurfaceError::InvalidDimensions { width, height },
        ),
        !dimensions_overflow::<T>(width as int, height as int) && data@.len()
            < compressed_size::<T>(width as int, height as int) ==> rgba == Err::<Vec<u8>, _>(
            DecompressSurfaceError::NotEnoughData {
                expected: compressed_size::<T>(width as int, height as int) as usize,
                actual: data@.len() as usize,
            },
        ),
        !dimensions_overflow::<T>(width as int, height as int) && data@.len()
            >= compressed_size::<T>(width as int, height as int) ==> (rgba matches Ok(v)
            && is_decoded_surface::<T>(width as int, height as int, data@, v@)),
{
    let size = T::CompressedBlock::SIZE_IN_BYTES;
    let blocks_x = div_round_up(width as usize, BLOCK_WIDTH);
    let blocks_y = div_round_up(height as usize, BLOCK_HEIGHT);
    // Surface dimensions are not validated yet and may cause overflow.
    let expected_size = match blocks_x.checked_mul(blocks_y) {
        Some(n) => match n.checked_mul(size) {
            Some(bytes) => bytes,
            None => {
                return Err(DecompressSurfaceError::InvalidDimensions { width, height });
            },
        },
        None => {
            return Err(DecompressSurfaceError::InvalidDimensions { width, height });
        },
    };

    // Mipmap dimensions do not need to be multiples of the block dimensions.
    // A mipmap of size 1x1 pixels can still be decoded.
    // Simply checking the data length is sufficient.
    if data.len() < expected_size {
        return Err(
            DecompressSurfaceError::NotEnoughData { expected: expected_size, actual: data.len() },
        );
    }

    let w = width as usize;
    let h = height as usize;
    let ghost (wi, hi, si, bw, bh) = (w as int, h as int, size as int, blocks_x as int, blocks_y as int);
    let mut rgba = vec![0u8; w * h * BYTES_PER_PIXEL];
    if w == 0 {
        return Ok(rgba);
    }

    // BCN formats lay out blocks in row-major order.
    let mut block_start: usize = 0;
    let mut y: usize = 0;
    let ghost mut by: int = 0;
    assert(0 * bw * si == 0) by (nonlinear_arith);
    assert(wi * hi * 4 >= hi * 4) by (nonlinear_arith)
        requires wi >= 1, hi >= 0;
    while y < h
        invariant
            wi == w,
            hi == h,
            si == size,
            size == <T::CompressedBlock as ReadBlock>::SIZE_IN_BYTES,
            bw == blocks_x,
            bh == blocks_y,
            bw == blocks_for(wi),
            bh == blocks_for(hi),
            expected_size == bw * bh * si,
            expected_size <= data@.len(),
            wi * hi * 4 <= usize::MAX,
            wi >= 1,
            wi * hi * 4 >= hi * 4,
            y == 4 * by,
            0 <= by <= bh,
            block_start == by * bw * si,
            rgba@.len() == wi * hi * 4,
            forall|px: int, py: int, c: int|
                0 <= px < wi && 0 <= py < hi && 0 <= c < 4 && py < y ==> #[trigger] rgba@[pixel_index(
                    wi,
                    px,
                    py,
                    c,
                )] == decoded_byte::<T>(wi, data@, px, py, c),
        decreases hi + 3 - y,
    {
        let mut x: usize = 0;
        let ghost mut bx: int = 0;
        proof {
            assert(by < bh);
            assert(y + 4 <= hi * 4);
        }
        while x < w
            invariant
                wi == w,
                hi == h,
                si == size,
                size == <T::CompressedBlock as ReadBlock>::SIZE_IN_BYTES,
                bw == blocks_x,
                bh == blocks_y,
                bw == blocks_for(wi),
                bh == blocks_for(hi),
                expected_size == bw * bh * si,
                expected_size <= data@.len(),
                wi * hi * 4 <= usize::MAX,
                y == 4 * by,
                0 <= by < bh,
                y < hi,
                y + 4 <= hi * 4,
                x == 4 * bx,
                0 <= bx <= bw,
                block_start == (by * bw + bx) * si,
                rgba@.len() == wi * hi * 4,
                forall|px: int, py: int, c: int|
                    0 <= px < wi && 0 <= py < hi && 0 <= c < 4 && (py < y || (py < y + 4 && px
                        < x)) ==> #[trigger] rgba@[pixel_index(wi, px, py, c)] == decoded_byte::<T>(
                        wi,
                        data@,
                        px,
                        py,
                        c,
                    ),
            decreases wi + 3 - x,
        {
            proof {
                assert(bx < bw);
                assert((by * bw + bx + 1) * si <= bw * bh * si) by (nonlinear_arith)
                    requires 0 <= by < bh, 0 <= bx < bw, si >= 0;
                assert((by * bw + bx + 1) * si == (by * bw + bx) * si + si) by (nonlinear_arith);
                assert(wi * 4 <= wi * hi * 4) by (nonlinear_arith)
                    requires hi >= 1, wi >= 0;
            }
            // Copy the block's bytes out of the input.
            let block = T::CompressedBlock::read_block(data, block_start);
            let decompressed_block = T::decompress_block(&block);
            let ghost before = rgba@;
            // Each block is 4x4, so multiple rows are updated.
            put_rgba_block(&mut rgba, decompressed_block, x, y, w, h);
            proof {
                assert forall|px: int, py: int, c: int|
                    0 <= px < wi && 0 <= py < hi && 0 <= c < 4 && (py < y || (py < y + 4 && px
                        < x + 4)) implies #[trigger] rgba@[pixel_index(wi, px, py, c)]
                    == decoded_byte::<T>(wi, data@, px, py, c) by {
                    if x <= px < x + 4 && y <= py < y + 4 {
                        assert(py / 4 == by && px / 4 == bx);
                        assert(px % 4 == px - x && py % 4 == py - y);
                    }
                }
                assert((by * bw + bx + 1) * si == (by * bw + bx) * si + si) by (nonlinear_arith);
            }
            block_start += size;
            x += BLOCK_WIDTH;
            proof {
                bx = bx + 1;
            }
        }
        proof {
            assert(bx == bw);
            assert((by * bw + bw) * si == (by + 1) * bw * si) by (nonlinear_arith);
        }
        y += BLOCK_HEIGHT;
        proof {
            by = by + 1;
        }
    }
    Ok(rgba)
}

/// An RGBA8 surface covers no more bytes than its blocks do.
pub proof fn lemma_surface_within_blocks(width: u32, height: u32)
    ensures
        width * height * 4 <= blocks_for(width as int) * blocks_for(height as int) * 64,
{
    let (w, h) = (width as int, height as int);
    let (bw, bh) = (blocks_for(w), blocks_for(h));
    assert(w <= 4 * bw && h <= 4 * bh && bw >= 0 && bh >= 0);
    assert(w * h * 4 <= bw * bh * 64) by (nonlinear_arith)
        requires w <= 4 * bw, h <= 4 * bh, w >= 0, h >= 0;
}

/// The number of RGBA8 bytes that the blocks of a `width` x `height` surface cover.
pub open spec fn rgba8_block_bytes(width: int, height: int) -> int {
    blocks_for(width) * blocks_for(height) * 64
}

/// The surfaces that the encoders refuse: an empty one, or one whose RGBA8
/// block bytes overflow `usize`.
pub open spec fn invalid_for_compression(width: u32, height: u32) -> bool {
    width == 0 || height == 0 || rgba8_block_bytes(width as int, height as int) > usize::MAX
}

/// Compress the uncompressed RGBA8 bytes in `data` to the given format `T`.
///
/// `data` must hold the RGBA8 bytes of every block of the surface, including
/// the parts of the last blocks that fall outside it.
pub fn bcn_from_rgba8<T: Bcn>(width: u32, height: u32, data: &[u8], quality: Quality) -> (encoded:
    Result<Vec<u8>, CompressSurfaceError>)
    requires
        !invalid_for_compression(width, height) && data@.len() >= rgba8_block_bytes(
            width as int,
            height as int,
        ) ==> T::can_compress(width, height, data@.len()),
    ensures
        invalid_for_compression(width, height) ==> encoded == Err::<Vec<u8>, _>(
            CompressSurfaceError::InvalidDimensions { width, height },
        ),
        !invalid_for_compression(width, height) && data@.len() < rgba8_block_bytes(
            width as int,
            height as int,
        ) ==> encoded == Err::<Vec<u8>, _>(
            CompressSurfaceError::NotEnoughData {
                expected: rgba8_block_bytes(width as int, height as int) as usize,
                actual: data@.len() as usize,
            },
        ),
        !invalid_for_compression(width, height) && data@.len() >= rgba8_block_bytes(
            width as int,
            height as int,
        ) ==> (encoded matches Ok(blocks) && blocks@.len() == T::spec_encoded_len(width, height)
            && T::is_compressed_surface(width, height, data@, quality, blocks@)),
{
    if width == 0 || height == 0 {
        return Err(CompressSurfaceError::InvalidDimensions { width, height });
    }
    // Surface dimensions are not validated yet and may cause overflow.
    let blocks_x = div_round_up(width as usize, BLOCK_WIDTH);
    let blocks_y = div_round_up(height as usize, BLOCK_HEIGHT);
    let expected_size = match blocks_x.checked_mul(blocks_y) {
        Some(n) => match n.checked_mul(BYTES_PER_BLOCK) {
            Some(bytes) => bytes,
            None => {
                return Err(CompressSurfaceError::InvalidDimensions { width, height });
            },
        },
        None => {
            proof {
                assert(blocks_x * blocks_y * 64 > usize::MAX) by (nonlinear_arith)
                    requires blocks_x * blocks_y > usize::MAX;
            }
            return Err(CompressSurfaceError::InvalidDimensions { width, height });
        },
    };

    if data.len() < expected_size {
        return Err(
            CompressSurfaceError::NotEnoughData { expected: expected_size, actual: data.len() },
        );
    }

    proof {
        lemma_surface_within_blocks(width, height);
    }
    T::compress_surface(width, height, data, quality)
}

/// Each block is decoded independently: a pixel of a decoded surface depends
/// only on the bytes of the block that holds it.
pub proof fn lemma_pixel_depends_only_on_its_block<T: Bcn>(
    width: int,
    data1: Seq<u8>,
    data2: Seq<u8>,
    x: int,
    y: int,
    c: int,
)
    requires
        ({
            let size = <T::CompressedBlock as ReadBlock>::SIZE_IN_BYTES as int;
            let start = ((y / 4) * blocks_for(width) + x / 4) * size;
            data1.subrange(start, start + size) == data2.subrange(start, start + size)
        }),
    ensures
        decoded_byte::<T>(width, data1, x, y, c) == decoded_byte::<T>(width, data2, x, y, c),
{
}

/// A 4x4 surface decodes to exactly the pixels of its single block.
pub proof fn lemma_single_block_surface<T: Bcn>(data: Seq<u8>, rgba: Seq<u8>)
    requires
        is_decoded_surface::<T>(4, 4, data, rgba),
    ensures
        rgba.len() == 64,
        forall|i: int|
            0 <= i < 64 ==> #[trigger] rgba[i] == T::spec_decompress_block(
                data.subrange(0, <T::CompressedBlock as ReadBlock>::SIZE_IN_BYTES as int),
            )[i],
{
    assert forall|i: int| 0 <= i < 64 implies #[trigger] rgba[i] == T::spec_decompress_block(
        data.subrange(0, <T::CompressedBlock as ReadBlock>::SIZE_IN_BYTES as int),
    )[i] by {
        let (p, c) = (i / 4, i % 4);
        let (x, y) = (p % 4, p / 4);
        assert(0 <= x < 4 && 0 <= y < 4 && 0 <= c < 4);
        assert(x / 4 == 0 && y / 4 == 0 && x % 4 == x && y % 4 == y && blocks_for(4) == 1);
        assert(pixel_index(4, x, y, c) == i);
        assert(block_pixel_index(x % 4, y % 4, c) == i);
        let size = <T::CompressedBlock as ReadBlock>::SIZE_IN_BYTES as int;
        assert(((y / 4) * blocks_for(4) + x / 4) * size == 0) by (nonlinear_arith)
            requires y / 4 == 0, x / 4 == 0;
        assert(rgba[pixel_index(4, x, y, c)] == decoded_byte::<T>(4, data, x, y, c));
    }
}

/// Decoding reads nothing past the compressed blocks of the surface: inputs
/// that agree on those bytes decode to the same surface.
pub proof fn lemma_decoding_ignores_trailing_bytes<T: Bcn>(
    width: int,
    height: int,
    data1: Seq<u8>,
    data2: Seq<u8>,
    rgba1: Seq<u8>,
    rgba2: Seq<u8>,
)
    requires
        width >= 0,
        height >= 0,
        data1.len() >= compressed_size::<T>(width, height),
        data2.len() >= compressed_size::<T>(width, height),
        data1.subrange(0, compressed_size::<T>(width, height)) == data2.subrange(
            0,
            compressed_size::<T>(width, height),
        ),
        is_decoded_surface::<T>(width, height, data1, rgba1),
        is_decoded_surface::<T>(width, height, data2, rgba2),
    ensures
        rgba1 == rgba2,
{
    let size = <T::CompressedBlock as ReadBlock>::SIZE_IN_BYTES as int;
    let (bw, bh) = (blocks_for(width), blocks_for(height));
    let total = compressed_size::<T>(width, height);
    assert forall|i: int| 0 <= i < rgba1.len() implies rgba1[i] == rgba2[i] by {
        let (p, c) = (i / 4, i % 4);
        let (x, y) = (p % width, p / width);
        assert(width > 0) by {
            if width == 0 {
                assert(rgba1.len() == 0) by (nonlinear_arith)
                    requires rgba1.len() == width * height * 4, width == 0;
            }
        }
        assert(p == y * width + x && 0 <= x < width) by {
            vstd::arithmetic::div_mod::lemma_fundamental_div_mod(p, width);
            vstd::arithmetic::div_mod::lemma_mod_bound(p, width);
        }
        assert(0 <= y < height) by (nonlinear_arith)
            requires
                p == y * width + x,
                0 <= x < width,
                0 <= p,
                p * 4 + c == i,
                0 <= c,
                i < width * height * 4,
        ;
        assert(pixel_index(width, x, y, c) == i);
        let start = ((y / 4) * bw + x / 4) * size;
        assert(start + size <= total && 0 <= start) by (nonlinear_arith)
            requires
                start == ((y / 4) * bw + x / 4) * size,
                total == bw * bh * size,
                0 <= y / 4 < bh,
                0 <= x / 4 < bw,
                size >= 0,
        ;
        assert(data1.subrange(start, start + size) =~= data2.subrange(start, start + size)) by {
            assert forall|k: int| 0 <= k < size implies #[trigger] data1.subrange(
                start,
                start + size,
            )[k] == data2.subrange(start, start + size)[k] by {
                assert(data1.subrange(0, total)[start + k] == data2.subrange(0, total)[start + k]);
            }
        }
        assert(rgba1[pixel_index(width, x, y, c)] == decoded_byte::<T>(width, data1, x, y, c));
        assert(rgba2[pixel_index(width, x, y, c)] == decoded_byte::<T>(width, data2, x, y, c));
    }
    assert(rgba1 =~= rgba2);
}

} // verus!
