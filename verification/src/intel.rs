//! Trusted calls into `intel_tex_2`, the bindings to Intel's ISPC texture
//! compressor.
//!
//! The encoders search for good block encodings with floating-point kernels
//! that are dispatched at run time to one of several instruction sets, so the
//! bytes they produce may differ from machine to machine: the contracts state
//! only what holds of every outcome. The kernels encode the whole 4x4 blocks of
//! the surface, reading `stride` bytes per row, and return a buffer sized by
//! the crate's `calc_output_size`: one block's bytes per 16 pixels, rounded up.
use vstd::prelude::*;

verus! {

/// Options of the BC6H encoder; the fields of `intel_tex_2::bc6h::EncodeSettings`.
#[derive(Debug, Clone, Copy, PartialEq, Eq)]
pub struct Bc6hSettings {
    pub slow_mode: bool,
    pub fast_mode: bool,
    pub refine_iterations_1p: u32,
    pub refine_iterations_2p: u32,
    pub fast_skip_threshold: u32,
}

/// Options of the BC7 encoder; the fields of `intel_tex_2::bc7::EncodeSettings`.
#[derive(Debug, Clone, Copy, PartialEq, Eq)]
pub struct Bc7Settings {
    pub mode_selection: [bool; 4],
    pub refine_iterations: [u32; 8],
    pub skip_mode2: bool,
    pub fast_skip_threshold_mode1: u32,
    pub fast_skip_threshold_mode3: u32,
    pub fast_skip_threshold_mode7: u32,
    pub mode45_channel0: u32,
    pub refine_iterations_channel: u32,
    pub channels: i32,
}

/// The number of bytes the encoders return for a `width` x `height` surface
/// with `block_bytes` bytes per block.
pub open spec fn encoded_size(width: u32, height: u32, block_bytes: int) -> int {
    ((width * height + 15) / 16) * block_bytes
}

/// What the encoders need of the surface: `width * height + 15` is computed in
/// `u32`, and the stride is handed to the kernel as an `i32`.
pub open spec fn encoder_accepts(width: u32, height: u32, stride: u32) -> bool {
    width * height + 15 <= u32::MAX && stride <= i32::MAX
}

/// Calls `intel_tex_2::bc1::compress_blocks` on an RGBA8 surface. The contract
/// claims only that the result has `encoded_size` bytes with 8 bytes per block,
/// as the crate's `calc_output_size` computes; the encoded bytes are not
/// stated, as the kernel's floating-point search may give different bytes on
/// different machines. `requires` keeps that computation from overflowing, the
/// stride inside `i32`, and the kernel's reads, `stride` bytes for each of
/// `height` rows, inside `data`.
#[verifier::external_body]
pub(crate) fn encode_bc1(width: u32, height: u32, stride: u32, data: &[u8]) -> (blocks: Vec<u8>)
    requires
        encoder_accepts(width, height, stride),
        4 * width <= stride,
        stride * height <= data@.len(),
    ensures
        blocks@.len() == encoded_size(width, height, 8),
{
    intel_tex_2::bc1::compress_blocks(&intel_tex_2::RgbaSurface { data, width, height, stride })
}

/// Calls `intel_tex_2::bc3::compress_blocks` on an RGBA8 surface. The contract
/// claims only that the result has `encoded_size` bytes with 16 bytes per
/// block; the encoded bytes are not stated. `requires` as for BC1.
#[verifier::external_body]
pub(crate) fn encode_bc3(width: u32, height: u32, stride: u32, data: &[u8]) -> (blocks: Vec<u8>)
    requires
        encoder_accepts(width, height, stride),
        4 * width <= stride,
        stride * height <= data@.len(),
    ensures
        blocks@.len() == encoded_size(width, height, 16),
{
    intel_tex_2::bc3::compress_blocks(&intel_tex_2::RgbaSurface { data, width, height, stride })
}

/// What the surface size computations of the BC4 and BC5 encoders need: they
/// copy the red (and green) bytes of the RGBA8 surface into a buffer of their
/// own, computing its size, the row pitch `width * 32 / 8` and each byte's
/// index in `u32`, and the kernel reads that buffer with a stride derived
/// from `stride`.
pub open spec fn channel_copy_accepts(width: u32, height: u32, stride: u32, data_len: nat) -> bool {
    &&& 32 * width + 7 <= u32::MAX
    &&& 4 * width * height <= u32::MAX
    &&& 4 * width * height <= data_len
    &&& stride == 4 * width
}

/// Calls `intel_tex_2::bc4::compress_blocks` on an RGBA8 surface; the crate
/// encodes its red channel. The contract claims only that the result has
/// `encoded_size` bytes with 8 bytes per block; the encoded bytes are not
/// stated. `requires` keeps the crate's `u32` size and index computations from
/// overflowing, its reads inside `data`, the stride inside `i32` and the
/// kernel's reads inside the crate's copy of the channel.
#[verifier::external_body]
pub(crate) fn encode_bc4(width: u32, height: u32, stride: u32, data: &[u8]) -> (blocks: Vec<u8>)
    requires
        encoder_accepts(width, height, stride),
        channel_copy_accepts(width, height, stride, data@.len()),
    ensures
        blocks@.len() == encoded_size(width, height, 8),
{
    intel_tex_2::bc4::compress_blocks(&intel_tex_2::RgbaSurface { data, width, height, stride })
}

/// Calls `intel_tex_2::bc5::compress_blocks` on an RGBA8 surface; the crate
/// encodes its red and green channels. The contract claims only that the
/// result has `encoded_size` bytes with 16 bytes per block; the encoded bytes
/// are not stated. `requires` as for BC4.
#[verifier::external_body]
pub(crate) fn encode_bc5(width: u32, height: u32, stride: u32, data: &[u8]) -> (blocks: Vec<u8>)
    requires
        encoder_accepts(width, height, stride),
        channel_copy_accepts(width, height, stride, data@.len()),
    ensures
        blocks@.len() == encoded_size(width, height, 16),
{
    intel_tex_2::bc5::compress_blocks(&intel_tex_2::RgbaSurface { data, width, height, stride })
}

/// Calls `intel_tex_2::bc6h::compress_blocks` on a surface of four
/// little-endian half-precision values per pixel, with the given settings. The
/// contract claims only that the result has `encoded_size` bytes with 16 bytes
/// per block; the encoded bytes are not stated. `requires` as for BC1, with
/// eight bytes per pixel.
#[verifier::external_body]
pub(crate) fn encode_bc6h(
    settings: &Bc6hSettings,
    width: u32,
    height: u32,
    stride: u32,
    data: &[u8],
) -> (blocks: Vec<u8>)
    requires
        encoder_accepts(width, height, stride),
        8 * width <= stride,
        stride * height <= data@.len(),
    ensures
        blocks@.len() == encoded_size(width, height, 16),
{
    intel_tex_2::bc6h::compress_blocks(
        &intel_tex_2::bc6h::EncodeSettings {
            slow_mode: settings.slow_mode,
            fast_mode: settings.fast_mode,
            refine_iterations_1p: settings.refine_iterations_1p,
            refine_iterations_2p: settings.refine_iterations_2p,
            fast_skip_threshold: settings.fast_skip_threshold,
        },
        &intel_tex_2::RgbaSurface { data, width, height, stride },
    )
}

/// Calls `intel_tex_2::bc7::compress_blocks` on an RGBA8 surface with the given
/// settings. The contract claims only that the result has `encoded_size` bytes
/// with 16 bytes per block; the encoded bytes are not stated. `requires` as for
/// BC1.
#[verifier::external_body]
pub(crate) fn encode_bc7(
    settings: &Bc7Settings,
    width: u32,
    height: u32,
    stride: u32,
    data: &[u8],
) -> (blocks: Vec<u8>)
    requires
        encoder_accepts(width, height, stride),
        4 * width <= stride,
        stride * height <= data@.len(),
    ensures
        blocks@.len() == encoded_size(width, height, 16),
{
    intel_tex_2::bc7::compress_blocks(
        &intel_tex_2::bc7::EncodeSettings {
            mode_selection: settings.mode_selection,
            refine_iterations: settings.refine_iterations,
            skip_mode2: settings.skip_mode2,
            fast_skip_threshold_mode1: settings.fast_skip_threshold_mode1,
            fast_skip_threshold_mode3: settings.fast_skip_threshold_mode3,
            fast_skip_threshold_mode7: settings.fast_skip_threshold_mode7,
            mode45_channel0: settings.mode45_channel0,
            refine_iterations_channel: settings.refine_iterations_channel,
            channels: settings.channels,
        },
        &intel_tex_2::RgbaSurface { data, width, height, stride },
    )
}

/// Calls `intel_tex_2::bc6h::very_fast_settings`; the contract states the
/// values its source returns.
#[verifier::external_body]
pub(crate) fn bc6h_very_fast_settings() -> (s: Bc6hSettings)
    ensures
        s == (Bc6hSettings {
            slow_mode: false,
            fast_mode: true,
            refine_iterations_1p: 0,
            refine_iterations_2p: 0,
            fast_skip_threshold: 0,
        }),
{
    let s = intel_tex_2::bc6h::very_fast_settings();
    Bc6hSettings {
        slow_mode: s.slow_mode,
        fast_mode: s.fast_mode,
        refine_iterations_1p: s.refine_iterations_1p,
        refine_iterations_2p: s.refine_iterations_2p,
        fast_skip_threshold: s.fast_skip_threshold,
    }
}

/// Calls `intel_tex_2::bc6h::basic_settings`; the contract states the values
/// its source returns.
#[verifier::external_body]
pub(crate) fn bc6h_basic_settings() -> (s: Bc6hSettings)
    ensures
        s == (Bc6hSettings {
            slow_mode: false,
            fast_mode: false,
            refine_iterations_1p: 2,
            refine_iterations_2p: 2,
            fast_skip_threshold: 4,
        }),
{
    let s = intel_tex_2::bc6h::basic_settings();
    Bc6hSettings {
        slow_mode: s.slow_mode,
        fast_mode: s.fast_mode,
        refine_iterations_1p: s.refine_iterations_1p,
        refine_iterations_2p: s.refine_iterations_2p,
        fast_skip_threshold: s.fast_skip_threshold,
    }
}

/// Calls `intel_tex_2::bc6h::slow_settings`; the contract states the values
/// its source returns.
#[verifier::external_body]
pub(crate) fn bc6h_slow_settings() -> (s: Bc6hSettings)
    ensures
        s == (Bc6hSettings {
            slow_mode: true,
            fast_mode: false,
            refine_iterations_1p: 2,
            refine_iterations_2p: 2,
            fast_skip_threshold: 10,
        }),
{
    let s = intel_tex_2::bc6h::slow_settings();
    Bc6hSettings {
        slow_mode: s.slow_mode,
        fast_mode: s.fast_mode,
        refine_iterations_1p: s.refine_iterations_1p,
        refine_iterations_2p: s.refine_iterations_2p,
        fast_skip_threshold: s.fast_skip_threshold,
    }
}

/// The values of `intel_tex_2::bc7::alpha_ultra_fast_settings`.
pub open spec fn spec_bc7_alpha_ultra_fast() -> Bc7Settings {
    Bc7Settings {
        mode_selection: [false, false, true, true],
        refine_iterations: [2, 1, 2, 1, 1, 1, 2, 2],
        skip_mode2: true,
        fast_skip_threshold_mode1: 0,
        fast_skip_threshold_mode3: 0,
        fast_skip_threshold_mode7: 4,
        mode45_channel0: 3,
        refine_iterations_channel: 1,
        channels: 4,
    }
}

/// The values of `intel_tex_2::bc7::alpha_very_fast_settings`.
pub open spec fn spec_bc7_alpha_very_fast() -> Bc7Settings {
    Bc7Settings {
        mode_selection: [false, true, true, true],
        refine_iterations: [2, 1, 2, 1, 2, 2, 2, 2],
        skip_mode2: true,
        fast_skip_threshold_mode1: 0,
        fast_skip_threshold_mode3: 0,
        fast_skip_threshold_mode7: 4,
        mode45_channel0: 3,
        refine_iterations_channel: 2,
        channels: 4,
    }
}

/// The values of `intel_tex_2::bc7::alpha_fast_settings`.
pub open spec fn spec_bc7_alpha_fast() -> Bc7Settings {
    Bc7Settings {
        mode_selection: [false, true, true, true],
        refine_iterations: [2, 1, 2, 1, 2, 2, 2, 2],
        skip_mode2: true,
        fast_skip_threshold_mode1: 4,
        fast_skip_threshold_mode3: 4,
        fast_skip_threshold_mode7: 8,
        mode45_channel0: 3,
        refine_iterations_channel: 2,
        channels: 4,
    }
}

/// Calls `intel_tex_2::bc7::alpha_ultra_fast_settings`; the contract states
/// the values its source returns.
#[verifier::external_body]
pub(crate) fn bc7_alpha_ultra_fast_settings() -> (s: Bc7Settings)
    ensures
        s == spec_bc7_alpha_ultra_fast(),
{
    let s = intel_tex_2::bc7::alpha_ultra_fast_settings();
    Bc7Settings {
        mode_selection: s.mode_selection,
        refine_iterations: s.refine_iterations,
        skip_mode2: s.skip_mode2,
        fast_skip_threshold_mode1: s.fast_skip_threshold_mode1,
        fast_skip_threshold_mode3: s.fast_skip_threshold_mode3,
        fast_skip_threshold_mode7: s.fast_skip_threshold_mode7,
        mode45_channel0: s.mode45_channel0,
        refine_iterations_channel: s.refine_iterations_channel,
        channels: s.channels,
    }
}

/// Calls `intel_tex_2::bc7::alpha_very_fast_settings`; the contract states
/// the values its source returns.
#[verifier::external_body]
pub(crate) fn bc7_alpha_very_fast_settings() -> (s: Bc7Settings)
    ensures
        s == spec_bc7_alpha_very_fast(),
{
    let s = intel_tex_2::bc7::alpha_very_fast_settings();
    Bc7Settings {
        mode_selection: s.mode_selection,
        refine_iterations: s.refine_iterations,
        skip_mode2: s.skip_mode2,
        fast_skip_threshold_mode1: s.fast_skip_threshold_mode1,
        fast_skip_threshold_mode3: s.fast_skip_threshold_mode3,
        fast_skip_threshold_mode7: s.fast_skip_threshold_mode7,
        mode45_channel0: s.mode45_channel0,
        refine_iterations_channel: s.refine_iterations_channel,
        channels: s.channels,
    }
}

/// Calls `intel_tex_2::bc7::alpha_fast_settings`; the contract states the
/// values its source returns.
#[verifier::external_body]
pub(crate) fn bc7_alpha_fast_settings() -> (s: Bc7Settings)
    ensures
        s == spec_bc7_alpha_fast(),
{
    let s = intel_tex_2::bc7::alpha_fast_settings();
    Bc7Settings {
        mode_selection: s.mode_selection,
        refine_iterations: s.refine_iterations,
        skip_mode2: s.skip_mode2,
        fast_skip_threshold_mode1: s.fast_skip_threshold_mode1,
        fast_skip_threshold_mode3: s.fast_skip_threshold_mode3,
        fast_skip_threshold_mode7: s.fast_skip_threshold_mode7,
        mode45_channel0: s.mode45_channel0,
        refine_iterations_channel: s.refine_iterations_channel,
        channels: s.channels,
    }
}

} // verus!
