//! The BCn formats: which decoder and encoder each uses, and how its decoded
//! channels are padded to RGBA8.
use vstd::prelude::*;
use crate::bcdec::{
    bc1_output, bc2_output, bc3_output, bc4_output, bc5_output, bc6h_half_output, bc7_output,
    decode_bc1, decode_bc2, decode_bc3, decode_bc4, decode_bc5, decode_bc6h_half, decode_bc7,
};
use crate::bcn::{block_bytes, compressed_size, decoded_byte, is_decoded_surface, Bcn};
use crate::block::{lemma_block_sizes, Block16, Block8};
use crate::channels::{
    half_plane, rgba_from_r, rgba_from_rg, rgba_from_rgb_half, spec_rgba_from_r,
    spec_rgba_from_rg, spec_rgba_from_rgb_half,
};
use crate::error::{CompressSurfaceError, Quality};
use crate::explicit_alpha::{bc2_from_bc3, spec_bc2_from_bc3};
use crate::intel::{
    bc6h_basic_settings, bc6h_slow_settings, bc6h_very_fast_settings, bc7_alpha_fast_settings,
    bc7_alpha_ultra_fast_settings, bc7_alpha_very_fast_settings, encode_bc1, encode_bc3,
    encode_bc4, encode_bc5, encode_bc6h, encode_bc7, encoded_size,
    spec_bc7_alpha_fast, spec_bc7_alpha_ultra_fast, spec_bc7_alpha_very_fast, Bc6hSettings,
    Bc7Settings,
};
use crate::surface::{
    block_pixel_index, blocks_for, pixel_index, row_major_block, BYTES_PER_BLOCK,
};
use crate::unorm::spec_unorm8_from_half;

verus! {

/// A buffer of `n` zero bytes.
pub open spec fn zeros(n: nat) -> Seq<u8> {
    Seq::new(n, |i: int| 0u8)
}

/// A buffer of `n` zero half-precision bit patterns.
pub open spec fn zeros_u16(n: nat) -> Seq<u16> {
    Seq::new(n, |i: int| 0u16)
}

/// The bytes of `height` rows of an RGBA8 surface, in the orders in which the
/// encoders' requirements multiply them.
proof fn lemma_row_bytes(width: u32, height: u32)
    ensures
        (4 * width) * height == width * height * 4,
        4 * width * height == width * height * 4,
{
    assert((4 * width) * height == width * height * 4) by (nonlinear_arith);
}

/// BC1: RGB with optional one-bit alpha, 8 bytes per block.
pub struct Bc1;

impl Bcn for Bc1 {
    type CompressedBlock = Block8;

    open spec fn spec_decompress_block(block: Seq<u8>) -> Seq<u8> {
        bc1_output(block, zeros(64), 16)
    }

    open spec fn can_compress(width: u32, height: u32, data_len: nat) -> bool {
        width * height + 15 <= u32::MAX && 4 * width <= i32::MAX
    }

    open spec fn spec_encoded_len(width: u32, height: u32) -> int {
        encoded_size(width, height, 8)
    }

    open spec fn is_compressed_surface(
        width: u32,
        height: u32,
        rgba8_data: Seq<u8>,
        quality: Quality,
        encoded: Seq<u8>,
    ) -> bool {
        true
    }

    fn decompress_block(block: &Block8) -> (pixels: [u8; BYTES_PER_BLOCK]) {
        let mut decompressed = [0u8; BYTES_PER_BLOCK];
        assert(decompressed@ =~= zeros(64));
        decode_bc1(&block.0, &mut decompressed, 16);
        decompressed
    }

    fn compress_surface(
        width: u32,
        height: u32,
        rgba8_data: &[u8],
        quality: Quality,
    ) -> (encoded: Result<Vec<u8>, CompressSurfaceError>) {
        proof {
            lemma_row_bytes(width, height);
        }
        // RGBA with 4 bytes per pixel.
        Ok(encode_bc1(width, height, width * 4, rgba8_data))
    }
}

/// BC2: BC1 color with explicit 4-bit alpha, 16 bytes per block.
pub struct Bc2;

impl Bcn for Bc2 {
    type CompressedBlock = Block16;

    open spec fn spec_decompress_block(block: Seq<u8>) -> Seq<u8> {
        bc2_output(block, zeros(64), 16)
    }

    open spec fn can_compress(width: u32, height: u32, data_len: nat) -> bool {
        width * height + 15 <= u32::MAX && 4 * width <= i32::MAX
    }

    open spec fn spec_encoded_len(width: u32, height: u32) -> int {
        encoded_size(width, height, 16)
    }

    open spec fn is_compressed_surface(
        width: u32,
        height: u32,
        rgba8_data: Seq<u8>,
        quality: Quality,
        encoded: Seq<u8>,
    ) -> bool {
        exists|bc3: Seq<u8>|
            bc3.len() == encoded_size(width, height, 16) && encoded == #[trigger] spec_bc2_from_bc3(
                width as int,
                height as int,
                rgba8_data,
                bc3,
            )
    }

    fn decompress_block(block: &Block16) -> (pixels: [u8; BYTES_PER_BLOCK]) {
        let mut decompressed = [0u8; BYTES_PER_BLOCK];
        assert(decompressed@ =~= zeros(64));
        decode_bc2(&block.0, &mut decompressed, 16);
        decompressed
    }

    fn compress_surface(
        width: u32,
        height: u32,
        rgba8_data: &[u8],
        quality: Quality,
    ) -> (encoded: Result<Vec<u8>, CompressSurfaceError>) {
        proof {
            lemma_row_bytes(width, height);
        }
        let bc3 = encode_bc3(width, height, width * 4, rgba8_data);
        proof {
            let (w, h) = (width as int, height as int);
            let blocks = (w * h + 15) / 16;
            assert(bc3@.len() == blocks * 16);
            assert((blocks * 16) % 16 == 0) by (nonlinear_arith)
                requires blocks >= 0;
            assert((w / 4) * (h / 4) * 16 <= w * h) by (nonlinear_arith)
                requires w >= 0, h >= 0;
            assert((w / 4) * (h / 4) * 16 <= blocks * 16) by (nonlinear_arith)
                requires (w / 4) * (h / 4) * 16 <= w * h, blocks == (w * h + 15) / 16, w * h >= 0;
        }
        let bc2 = bc2_from_bc3(width, height, rgba8_data, &bc3);
        assert(bc2@ == spec_bc2_from_bc3(width as int, height as int, rgba8_data@, bc3@));
        Ok(bc2)
    }
}

/// BC3: BC1 color with interpolated alpha, 16 bytes per block.
pub struct Bc3;

impl Bcn for Bc3 {
    type CompressedBlock = Block16;

    open spec fn spec_decompress_block(block: Seq<u8>) -> Seq<u8> {
        bc3_output(block, zeros(64), 16)
    }

    open spec fn can_compress(width: u32, height: u32, data_len: nat) -> bool {
        width * height + 15 <= u32::MAX && 4 * width <= i32::MAX
    }

    open spec fn spec_encoded_len(width: u32, height: u32) -> int {
        encoded_size(width, height, 16)
    }

    open spec fn is_compressed_surface(
        width: u32,
        height: u32,
        rgba8_data: Seq<u8>,
        quality: Quality,
        encoded: Seq<u8>,
    ) -> bool {
        true
    }

    fn decompress_block(block: &Block16) -> (pixels: [u8; BYTES_PER_BLOCK]) {
        let mut decompressed = [0u8; BYTES_PER_BLOCK];
        assert(decompressed@ =~= zeros(64));
        decode_bc3(&block.0, &mut decompressed, 16);
        decompressed
    }

    fn compress_surface(
        width: u32,
        height: u32,
        rgba8_data: &[u8],
        quality: Quality,
    ) -> (encoded: Result<Vec<u8>, CompressSurfaceError>) {
        proof {
            lemma_row_bytes(width, height);
        }
        // RGBA with 4 bytes per pixel.
        Ok(encode_bc3(width, height, width * 4, rgba8_data))
    }
}

/// BC4: one channel, 8 bytes per block, decoded as grayscale.
pub struct Bc4;

impl Bcn for Bc4 {
    type CompressedBlock = Block8;

    open spec fn spec_decompress_block(block: Seq<u8>) -> Seq<u8> {
        spec_rgba_from_r(bc4_output(block, zeros(16), 4, false))
    }

    open spec fn can_compress(width: u32, height: u32, data_len: nat) -> bool {
        width * height + 15 <= u32::MAX && 32 * width + 7 <= u32::MAX && 4 * width * height
            <= u32::MAX
    }

    open spec fn spec_encoded_len(width: u32, height: u32) -> int {
        encoded_size(width, height, 8)
    }

    open spec fn is_compressed_surface(
        width: u32,
        height: u32,
        rgba8_data: Seq<u8>,
        quality: Quality,
        encoded: Seq<u8>,
    ) -> bool {
        true
    }

    fn decompress_block(block: &Block8) -> (pixels: [u8; BYTES_PER_BLOCK]) {
        // BC4 stores grayscale data, so each decompressed pixel is 1 byte.
        let mut decompressed_r = [0u8; 16];
        assert(decompressed_r@ =~= zeros(16));
        decode_bc4(&block.0, &mut decompressed_r, 4, false);
        rgba_from_r(&decompressed_r)
    }

    fn compress_surface(
        width: u32,
        height: u32,
        rgba8_data: &[u8],
        quality: Quality,
    ) -> (encoded: Result<Vec<u8>, CompressSurfaceError>) {
        proof {
            lemma_row_bytes(width, height);
        }
        // RGBA with 4 bytes per pixel.
        Ok(encode_bc4(width, height, width * 4, rgba8_data))
    }
}

/// BC5: two channels, 16 bytes per block, decoded with blue zero.
pub struct Bc5;

impl Bcn for Bc5 {
    type CompressedBlock = Block16;

    open spec fn spec_decompress_block(block: Seq<u8>) -> Seq<u8> {
        spec_rgba_from_rg(bc5_output(block, zeros(32), 8, false))
    }

    open spec fn can_compress(width: u32, height: u32, data_len: nat) -> bool {
        width * height + 15 <= u32::MAX && 32 * width + 7 <= u32::MAX && 4 * width * height
            <= u32::MAX
    }

    open spec fn spec_encoded_len(width: u32, height: u32) -> int {
        encoded_size(width, height, 16)
    }

    open spec fn is_compressed_surface(
        width: u32,
        height: u32,
        rgba8_data: Seq<u8>,
        quality: Quality,
        encoded: Seq<u8>,
    ) -> bool {
        true
    }

    fn decompress_block(block: &Block16) -> (pixels: [u8; BYTES_PER_BLOCK]) {
        // BC5 stores RG data, so each decompressed pixel is 2 bytes.
        let mut decompressed_rg = [0u8; 32];
        assert(decompressed_rg@ =~= zeros(32));
        decode_bc5(&block.0, &mut decompressed_rg, 8, false);
        rgba_from_rg(&decompressed_rg)
    }

    fn compress_surface(
        width: u32,
        height: u32,
        rgba8_data: &[u8],
        quality: Quality,
    ) -> (encoded: Result<Vec<u8>, CompressSurfaceError>) {
        proof {
            lemma_row_bytes(width, height);
        }
        // RGBA with 4 bytes per pixel.
        Ok(encode_bc5(width, height, width * 4, rgba8_data))
    }
}

/// The BC6H encoder settings for each quality.
pub open spec fn spec_bc6h_settings(quality: Quality) -> Bc6hSettings {
    match quality {
        Quality::Fast => Bc6hSettings {
            slow_mode: false,
            fast_mode: true,
            refine_iterations_1p: 0,
            refine_iterations_2p: 0,
            fast_skip_threshold: 0,
        },
        Quality::Normal => Bc6hSettings {
            slow_mode: false,
            fast_mode: false,
            refine_iterations_1p: 2,
            refine_iterations_2p: 2,
            fast_skip_threshold: 4,
        },
        Quality::Slow => Bc6hSettings {
            slow_mode: true,
            fast_mode: false,
            refine_iterations_1p: 2,
            refine_iterations_2p: 2,
            fast_skip_threshold: 10,
        },
    }
}

/// Chooses the BC6H encoder settings for a quality: very fast, basic or slow.
pub fn bc6h_settings(quality: Quality) -> (settings: Bc6hSettings)
    ensures
        settings == spec_bc6h_settings(quality),
{
    match quality {
        Quality::Fast => bc6h_very_fast_settings(),
        Quality::Normal => bc6h_basic_settings(),
        Quality::Slow => bc6h_slow_settings(),
    }
}

/// The BC7 encoder settings for each quality.
pub open spec fn spec_bc7_settings(quality: Quality) -> Bc7Settings {
    match quality {
        Quality::Fast => spec_bc7_alpha_ultra_fast(),
        Quality::Normal => spec_bc7_alpha_very_fast(),
        Quality::Slow => spec_bc7_alpha_fast(),
    }
}

/// Chooses the BC7 encoder settings for a quality: BC7 has almost imperceptible
/// errors even at the fastest alpha settings, so these are ultra fast, very
/// fast and fast.
pub fn bc7_settings(quality: Quality) -> (settings: Bc7Settings)
    ensures
        settings == spec_bc7_settings(quality),
{
    match quality {
        Quality::Fast => bc7_alpha_ultra_fast_settings(),
        Quality::Normal => bc7_alpha_very_fast_settings(),
        Quality::Slow => bc7_alpha_fast_settings(),
    }
}

/// BC6H: unsigned half-precision RGB, 16 bytes per block.
pub struct Bc6;

impl Bcn for Bc6 {
    type CompressedBlock = Block16;

    open spec fn spec_decompress_block(block: Seq<u8>) -> Seq<u8> {
        spec_rgba_from_rgb_half(bc6h_half_output(block, zeros_u16(48), 12, false))
    }

    open spec fn can_compress(width: u32, height: u32, data_len: nat) -> bool {
        width * height + 15 <= u32::MAX && 8 * width <= i32::MAX && 2 * data_len <= usize::MAX
    }

    open spec fn spec_encoded_len(width: u32, height: u32) -> int {
        encoded_size(width, height, 16)
    }

    open spec fn is_compressed_surface(
        width: u32,
        height: u32,
        rgba8_data: Seq<u8>,
        quality: Quality,
        encoded: Seq<u8>,
    ) -> bool {
        true
    }

    fn decompress_block(block: &Block16) -> (pixels: [u8; BYTES_PER_BLOCK]) {
        // BC6H uses half precision floating point data: three values per pixel.
        let mut decompressed_rgb = [0u16; 48];
        assert(decompressed_rgb@ =~= zeros_u16(48));
        decode_bc6h_half(&block.0, &mut decompressed_rgb, 12, false);
        rgba_from_rgb_half(&decompressed_rgb)
    }

    fn compress_surface(
        width: u32,
        height: u32,
        rgba8_data: &[u8],
        quality: Quality,
    ) -> (encoded: Result<Vec<u8>, CompressSurfaceError>) {
        proof {
            lemma_row_bytes(width, height);
        }
        // The BC6H encoder expects half precision floating point data,
        // where the other formats expect a byte for each channel.
        let halves = half_plane(rgba8_data);
        proof {
            let (w, h, n) = (width as int, height as int, rgba8_data@.len() as int);
            assert((8 * w) * h <= n * 2) by (nonlinear_arith)
                requires w * h * 4 <= n, w >= 0, h >= 0;
        }
        let settings = bc6h_settings(quality);
        Ok(encode_bc6h(&settings, width, height, width * 8, &halves))
    }
}

/// BC7: RGBA, 16 bytes per block.
pub struct Bc7;

impl Bcn for Bc7 {
    type CompressedBlock = Block16;

    open spec fn spec_decompress_block(block: Seq<u8>) -> Seq<u8> {
        bc7_output(block, zeros(64), 16)
    }

    open spec fn can_compress(width: u32, height: u32, data_len: nat) -> bool {
        width * height + 15 <= u32::MAX && 4 * width <= i32::MAX
    }

    open spec fn spec_encoded_len(width: u32, height: u32) -> int {
        encoded_size(width, height, 16)
    }

    open spec fn is_compressed_surface(
        width: u32,
        height: u32,
        rgba8_data: Seq<u8>,
        quality: Quality,
        encoded: Seq<u8>,
    ) -> bool {
        true
    }

    fn decompress_block(block: &Block16) -> (pixels: [u8; BYTES_PER_BLOCK]) {
        let mut decompressed = [0u8; BYTES_PER_BLOCK];
        assert(decompressed@ =~= zeros(64));
        decode_bc7(&block.0, &mut decompressed, 16);
        decompressed
    }

    fn compress_surface(
        width: u32,
        height: u32,
        rgba8_data: &[u8],
        quality: Quality,
    ) -> (encoded: Result<Vec<u8>, CompressSurfaceError>) {
        proof {
            lemma_row_bytes(width, height);
        }
        let settings = bc7_settings(quality);
        // RGBA with 4 bytes per pixel.
        Ok(encode_bc7(&settings, width, height, width * 4, rgba8_data))
    }
}

/// Byte `c` of pixel (`x`, `y`) of a decoded block lies at `4 * (4 * y + x) + c`.
proof fn lemma_block_index(x: int, y: int, c: int)
    requires
        0 <= x < 4,
        0 <= y < 4,
        0 <= c < 4,
    ensures
        0 <= block_pixel_index(x, y, c) < 64,
        block_pixel_index(x, y, c) == 16 * y + 4 * x + c,
        block_pixel_index(x, y, c) % 4 == c,
        block_pixel_index(x, y, c) / 4 == 4 * y + x,
{
}

/// Byte `c` of pixel (`x`, `y`) of a decoded surface is byte `c` of pixel
/// (`x % 4`, `y % 4`) of the block that holds it, decoded alone.
proof fn lemma_surface_byte_in_block<T: Bcn>(
    width: int,
    height: int,
    data: Seq<u8>,
    rgba: Seq<u8>,
    x: int,
    y: int,
    c: int,
)
    requires
        is_decoded_surface::<T>(width, height, data, rgba),
        0 <= x < width,
        0 <= y < height,
        0 <= c < 4,
    ensures
        0 <= x % 4 < 4,
        0 <= y % 4 < 4,
        rgba[pixel_index(width, x, y, c)] == T::spec_decompress_block(
            block_bytes::<T>(width, data, x, y),
        )[block_pixel_index(x % 4, y % 4, c)],
{
    assert(rgba[pixel_index(width, x, y, c)] == decoded_byte::<T>(width, data, x, y, c));
}

/// BC1, BC2, BC3 and BC7 blocks decode to exactly what the decoder writes with
/// a pitch of 16 bytes, one RGBA8 row of the block per 16 bytes: byte `c` of
/// pixel (`x`, `y`) of a decoded block is byte `c` of column `x` of row `y` of
/// the decoder's output.
pub proof fn lemma_rgba_blocks_are_decoder_rows(block: Seq<u8>, x: int, y: int, c: int)
    requires
        0 <= x < 4,
        0 <= y < 4,
        0 <= c < 4,
    ensures
        Bc1::spec_decompress_block(block)[block_pixel_index(x, y, c)] == bc1_output(
            block,
            zeros(64),
            16,
        )[16 * y + 4 * x + c],
        Bc2::spec_decompress_block(block)[block_pixel_index(x, y, c)] == bc2_output(
            block,
            zeros(64),
            16,
        )[16 * y + 4 * x + c],
        Bc3::spec_decompress_block(block)[block_pixel_index(x, y, c)] == bc3_output(
            block,
            zeros(64),
            16,
        )[16 * y + 4 * x + c],
        Bc7::spec_decompress_block(block)[block_pixel_index(x, y, c)] == bc7_output(
            block,
            zeros(64),
            16,
        )[16 * y + 4 * x + c],
{
    lemma_block_index(x, y, c);
}

/// BC4 blocks decode as unsigned data: pixel (`x`, `y`) of a decoded block is
/// gray with the value at column `x` of row `y` of the unsigned decoder's
/// output (pitch 4), and opaque.
pub proof fn lemma_bc4_block_is_unsigned_gray(block: Seq<u8>, x: int, y: int, c: int)
    requires
        0 <= x < 4,
        0 <= y < 4,
        0 <= c < 4,
    ensures
        c < 3 ==> Bc4::spec_decompress_block(block)[block_pixel_index(x, y, c)] == bc4_output(
            block,
            zeros(16),
            4,
            false,
        )[4 * y + x],
        c == 3 ==> Bc4::spec_decompress_block(block)[block_pixel_index(x, y, c)] == 255,
{
    lemma_block_index(x, y, c);
}

/// BC5 blocks decode as unsigned data: pixel (`x`, `y`) of a decoded block has
/// the red and green values at column `x` of row `y` of the unsigned decoder's
/// output (pitch 8, two bytes per pixel), blue zero and alpha 255.
pub proof fn lemma_bc5_block_is_unsigned_red_green(block: Seq<u8>, x: int, y: int, c: int)
    requires
        0 <= x < 4,
        0 <= y < 4,
        0 <= c < 4,
    ensures
        c == 0 ==> Bc5::spec_decompress_block(block)[block_pixel_index(x, y, c)] == bc5_output(
            block,
            zeros(32),
            8,
            false,
        )[8 * y + 2 * x],
        c == 1 ==> Bc5::spec_decompress_block(block)[block_pixel_index(x, y, c)] == bc5_output(
            block,
            zeros(32),
            8,
            false,
        )[8 * y + 2 * x + 1],
        c == 2 ==> Bc5::spec_decompress_block(block)[block_pixel_index(x, y, c)] == 0,
        c == 3 ==> Bc5::spec_decompress_block(block)[block_pixel_index(x, y, c)] == 255,
{
    lemma_block_index(x, y, c);
}

/// BC6H blocks decode as unsigned data: channel `c` of pixel (`x`, `y`) of a
/// decoded block is the RGBA8 conversion of the half-precision value of that
/// channel at column `x` of row `y` of the unsigned decoder's output (pitch 12,
/// three values per pixel), and alpha is 255.
pub proof fn lemma_bc6_block_is_converted_rgb(block: Seq<u8>, x: int, y: int, c: int)
    requires
        0 <= x < 4,
        0 <= y < 4,
        0 <= c < 4,
    ensures
        c < 3 ==> Bc6::spec_decompress_block(block)[block_pixel_index(x, y, c)]
            == spec_unorm8_from_half(
            bc6h_half_output(block, zeros_u16(48), 12, false)[12 * y + 3 * x + c],
        ),
        c == 3 ==> Bc6::spec_decompress_block(block)[block_pixel_index(x, y, c)] == 255,
{
    lemma_block_index(x, y, c);
}

/// Pixel (`x`, `y`) of a decoded BC1 surface is column `x % 4` of row `y % 4`
/// of what the decoder writes, pitch 16, for the block that holds the pixel:
/// block `row_major_block(width, x, y)` of `data`.
pub proof fn lemma_bc1_surface_pixel(
    width: int,
    height: int,
    data: Seq<u8>,
    rgba: Seq<u8>,
    x: int,
    y: int,
    c: int,
)
    requires
        is_decoded_surface::<Bc1>(width, height, data, rgba),
        0 <= x < width,
        0 <= y < height,
        0 <= c < 4,
    ensures
        rgba[pixel_index(width, x, y, c)] == bc1_output(
            data.subrange(8 * row_major_block(width, x, y), 8 * row_major_block(width, x, y) + 8),
            zeros(64),
            16,
        )[16 * (y % 4) + 4 * (x % 4) + c],
{
    lemma_block_sizes();
    lemma_surface_byte_in_block::<Bc1>(width, height, data, rgba, x, y, c);
    lemma_rgba_blocks_are_decoder_rows(block_bytes::<Bc1>(width, data, x, y), x % 4, y % 4, c);
}

/// Pixel (`x`, `y`) of a decoded BC2 surface is column `x % 4` of row `y % 4`
/// of what the decoder writes, pitch 16, for the block that holds the pixel:
/// block `row_major_block(width, x, y)` of `data`.
pub proof fn lemma_bc2_surface_pixel(
    width: int,
    height: int,
    data: Seq<u8>,
    rgba: Seq<u8>,
    x: int,
    y: int,
    c: int,
)
    requires
        is_decoded_surface::<Bc2>(width, height, data, rgba),
        0 <= x < width,
        0 <= y < height,
        0 <= c < 4,
    ensures
        rgba[pixel_index(width, x, y, c)] == bc2_output(
            data.subrange(16 * row_major_block(width, x, y), 16 * row_major_block(width, x, y) + 16),
            zeros(64),
            16,
        )[16 * (y % 4) + 4 * (x % 4) + c],
{
    lemma_block_sizes();
    lemma_surface_byte_in_block::<Bc2>(width, height, data, rgba, x, y, c);
    lemma_rgba_blocks_are_decoder_rows(block_bytes::<Bc2>(width, data, x, y), x % 4, y % 4, c);
}

/// Pixel (`x`, `y`) of a decoded BC3 surface is column `x % 4` of row `y % 4`
/// of what the decoder writes, pitch 16, for the block that holds the pixel:
/// block `row_major_block(width, x, y)` of `data`.
pub proof fn lemma_bc3_surface_pixel(
    width: int,
    height: int,
    data: Seq<u8>,
    rgba: Seq<u8>,
    x: int,
    y: int,
    c: int,
)
    requires
        is_decoded_surface::<Bc3>(width, height, data, rgba),
        0 <= x < width,
        0 <= y < height,
        0 <= c < 4,
    ensures
        rgba[pixel_index(width, x, y, c)] == bc3_output(
            data.subrange(16 * row_major_block(width, x, y), 16 * row_major_block(width, x, y) + 16),
            zeros(64),
            16,
        )[16 * (y % 4) + 4 * (x % 4) + c],
{
    lemma_block_sizes();
    lemma_surface_byte_in_block::<Bc3>(width, height, data, rgba, x, y, c);
    lemma_rgba_blocks_are_decoder_rows(block_bytes::<Bc3>(width, data, x, y), x % 4, y % 4, c);
}

/// Pixel (`x`, `y`) of a decoded BC7 surface is column `x % 4` of row `y % 4`
/// of what the decoder writes, pitch 16, for the block that holds the pixel:
/// block `row_major_block(width, x, y)` of `data`.
pub proof fn lemma_bc7_surface_pixel(
    width: int,
    height: int,
    data: Seq<u8>,
    rgba: Seq<u8>,
    x: int,
    y: int,
    c: int,
)
    requires
        is_decoded_surface::<Bc7>(width, height, data, rgba),
        0 <= x < width,
        0 <= y < height,
        0 <= c < 4,
    ensures
        rgba[pixel_index(width, x, y, c)] == bc7_output(
            data.subrange(16 * row_major_block(width, x, y), 16 * row_major_block(width, x, y) + 16),
            zeros(64),
            16,
        )[16 * (y % 4) + 4 * (x % 4) + c],
{
    lemma_block_sizes();
    lemma_surface_byte_in_block::<Bc7>(width, height, data, rgba, x, y, c);
    lemma_rgba_blocks_are_decoder_rows(block_bytes::<Bc7>(width, data, x, y), x % 4, y % 4, c);
}

/// Pixel (`x`, `y`) of a decoded BC4 surface is gray with the unsigned value
/// at column `x % 4` of row `y % 4` of the decoder's output (pitch 4) for the
/// block that holds the pixel, block `row_major_block(width, x, y)` of `data`,
/// and opaque.
pub proof fn lemma_bc4_surface_pixel(
    width: int,
    height: int,
    data: Seq<u8>,
    rgba: Seq<u8>,
    x: int,
    y: int,
    c: int,
)
    requires
        is_decoded_surface::<Bc4>(width, height, data, rgba),
        0 <= x < width,
        0 <= y < height,
        0 <= c < 4,
    ensures
        c < 3 ==> rgba[pixel_index(width, x, y, c)] == bc4_output(
            data.subrange(8 * row_major_block(width, x, y), 8 * row_major_block(width, x, y) + 8),
            zeros(16),
            4,
            false,
        )[4 * (y % 4) + x % 4],
        c == 3 ==> rgba[pixel_index(width, x, y, c)] == 255,
{
    lemma_block_sizes();
    lemma_surface_byte_in_block::<Bc4>(width, height, data, rgba, x, y, c);
    lemma_bc4_block_is_unsigned_gray(block_bytes::<Bc4>(width, data, x, y), x % 4, y % 4, c);
}

/// Pixel (`x`, `y`) of a decoded BC5 surface has the unsigned red and green
/// values at column `x % 4` of row `y % 4` of the decoder's output (pitch 8)
/// for the block that holds the pixel, block `row_major_block(width, x, y)` of
/// `data`; blue is zero and alpha 255.
pub proof fn lemma_bc5_surface_pixel(
    width: int,
    height: int,
    data: Seq<u8>,
    rgba: Seq<u8>,
    x: int,
    y: int,
    c: int,
)
    requires
        is_decoded_surface::<Bc5>(width, height, data, rgba),
        0 <= x < width,
        0 <= y < height,
        0 <= c < 4,
    ensures
        c < 2 ==> rgba[pixel_index(width, x, y, c)] == bc5_output(
            data.subrange(16 * row_major_block(width, x, y), 16 * row_major_block(width, x, y) + 16),
            zeros(32),
            8,
            false,
        )[8 * (y % 4) + 2 * (x % 4) + c],
        c == 2 ==> rgba[pixel_index(width, x, y, c)] == 0,
        c == 3 ==> rgba[pixel_index(width, x, y, c)] == 255,
{
    lemma_block_sizes();
    lemma_surface_byte_in_block::<Bc5>(width, height, data, rgba, x, y, c);
    lemma_bc5_block_is_unsigned_red_green(block_bytes::<Bc5>(width, data, x, y), x % 4, y % 4, c);
}

/// Channel `c` of pixel (`x`, `y`) of a decoded BC6H surface is the RGBA8
/// conversion of the unsigned half-precision value of that channel at column
/// `x % 4` of row `y % 4` of the decoder's output (pitch 12) for the block that
/// holds the pixel, block `row_major_block(width, x, y)` of `data`; alpha is 255.
pub proof fn lemma_bc6_surface_pixel(
    width: int,
    height: int,
    data: Seq<u8>,
    rgba: Seq<u8>,
    x: int,
    y: int,
    c: int,
)
    requires
        is_decoded_surface::<Bc6>(width, height, data, rgba),
        0 <= x < width,
        0 <= y < height,
        0 <= c < 4,
    ensures
        c < 3 ==> rgba[pixel_index(width, x, y, c)] == spec_unorm8_from_half(
            bc6h_half_output(
                data.subrange(16 * row_major_block(width, x, y), 16 * row_major_block(width, x, y) + 16),
                zeros_u16(48),
                12,
                false,
            )[12 * (y % 4) + 3 * (x % 4) + c],
        ),
        c == 3 ==> rgba[pixel_index(width, x, y, c)] == 255,
{
    lemma_block_sizes();
    lemma_surface_byte_in_block::<Bc6>(width, height, data, rgba, x, y, c);
    lemma_bc6_block_is_converted_rgb(block_bytes::<Bc6>(width, data, x, y), x % 4, y % 4, c);
}

/// The index in a decoded block of byte `c` of the pixel of a surface at
/// (`x`, `y`) lies in the block, and is byte `c` of pixel `4 * (y % 4) + x % 4`.
proof fn lemma_block_byte_of_pixel(x: int, y: int, c: int)
    requires
        0 <= x,
        0 <= y,
        0 <= c < 4,
    ensures
        0 <= block_pixel_index(x % 4, y % 4, c) < 64,
        block_pixel_index(x % 4, y % 4, c) % 4 == c,
        block_pixel_index(x % 4, y % 4, c) / 4 == 4 * (y % 4) + x % 4,
{
}

/// BC4 decodes to grayscale and opaque pixels: every pixel of a decoded BC4
/// surface has equal red, green and blue, and alpha 255.
pub proof fn lemma_bc4_surface_is_gray_and_opaque(
    width: int,
    height: int,
    data: Seq<u8>,
    rgba: Seq<u8>,
    x: int,
    y: int,
)
    requires
        is_decoded_surface::<Bc4>(width, height, data, rgba),
        0 <= x < width,
        0 <= y < height,
    ensures
        rgba[pixel_index(width, x, y, 0)] == rgba[pixel_index(width, x, y, 1)],
        rgba[pixel_index(width, x, y, 1)] == rgba[pixel_index(width, x, y, 2)],
        rgba[pixel_index(width, x, y, 3)] == 255,
{
    lemma_block_byte_of_pixel(x, y, 0);
    lemma_block_byte_of_pixel(x, y, 1);
    lemma_block_byte_of_pixel(x, y, 2);
    lemma_block_byte_of_pixel(x, y, 3);
    assert(rgba[pixel_index(width, x, y, 0)] == decoded_byte::<Bc4>(width, data, x, y, 0));
    assert(rgba[pixel_index(width, x, y, 1)] == decoded_byte::<Bc4>(width, data, x, y, 1));
    assert(rgba[pixel_index(width, x, y, 2)] == decoded_byte::<Bc4>(width, data, x, y, 2));
    assert(rgba[pixel_index(width, x, y, 3)] == decoded_byte::<Bc4>(width, data, x, y, 3));
}

/// BC5 decodes to pixels with zero blue and opaque alpha.
pub proof fn lemma_bc5_surface_has_zero_blue_and_is_opaque(
    width: int,
    height: int,
    data: Seq<u8>,
    rgba: Seq<u8>,
    x: int,
    y: int,
)
    requires
        is_decoded_surface::<Bc5>(width, height, data, rgba),
        0 <= x < width,
        0 <= y < height,
    ensures
        rgba[pixel_index(width, x, y, 2)] == 0,
        rgba[pixel_index(width, x, y, 3)] == 255,
{
    lemma_block_byte_of_pixel(x, y, 2);
    lemma_block_byte_of_pixel(x, y, 3);
    assert(rgba[pixel_index(width, x, y, 2)] == decoded_byte::<Bc5>(width, data, x, y, 2));
    assert(rgba[pixel_index(width, x, y, 3)] == decoded_byte::<Bc5>(width, data, x, y, 3));
}

/// BC6H decodes to opaque pixels.
pub proof fn lemma_bc6_surface_is_opaque(
    width: int,
    height: int,
    data: Seq<u8>,
    rgba: Seq<u8>,
    x: int,
    y: int,
)
    requires
        is_decoded_surface::<Bc6>(width, height, data, rgba),
        0 <= x < width,
        0 <= y < height,
    ensures
        rgba[pixel_index(width, x, y, 3)] == 255,
{
    lemma_block_byte_of_pixel(x, y, 3);
    assert(rgba[pixel_index(width, x, y, 3)] == decoded_byte::<Bc6>(width, data, x, y, 3));
}

/// For surfaces whose sides are multiples of 4, the encoders give exactly the
/// number of bytes that the decoder reads for the surface.
pub proof fn lemma_encoded_len_is_compressed_size(width: u32, height: u32)
    requires
        width % 4 == 0,
        height % 4 == 0,
    ensures
        Bc1::spec_encoded_len(width, height) == compressed_size::<Bc1>(width as int, height as int),
        Bc2::spec_encoded_len(width, height) == compressed_size::<Bc2>(width as int, height as int),
        Bc3::spec_encoded_len(width, height) == compressed_size::<Bc3>(width as int, height as int),
        Bc4::spec_encoded_len(width, height) == compressed_size::<Bc4>(width as int, height as int),
        Bc5::spec_encoded_len(width, height) == compressed_size::<Bc5>(width as int, height as int),
        Bc6::spec_encoded_len(width, height) == compressed_size::<Bc6>(width as int, height as int),
        Bc7::spec_encoded_len(width, height) == compressed_size::<Bc7>(width as int, height as int),
{
    lemma_block_sizes();
    let (w, h) = (width as int, height as int);
    let (a, c) = (w / 4, h / 4);
    assert(blocks_for(w) == a && blocks_for(h) == c);
    assert(width * height == 16 * (a * c)) by (nonlinear_arith)
        requires w == 4 * a, h == 4 * c, width == w, height == h;
    assert((width * height + 15) / 16 == a * c);
}

} // verus!
