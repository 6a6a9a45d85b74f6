//! Trusted calls into `bcdec_rs`, the safe Rust port of the bcdec block decoders.
//!
//! Each decoder writes a 4x4 block of pixels into a caller-provided buffer,
//! row `i` of the block starting at byte (or element) `i * pitch`. What the
//! buffer holds afterwards takes pages of bit-level decoding to state, so it is
//! named here: each name stands for the buffer's contents after the call, as a
//! function of the compressed block, the buffer's previous contents, the pitch
//! and, where the decoder has one, the signedness flag.
use vstd::prelude::*;

verus! {

/// The buffer after `bcdec_rs::bc1`.
pub uninterp spec fn bc1_output(compressed: Seq<u8>, before: Seq<u8>, pitch: usize) -> Seq<u8>;

/// The buffer after `bcdec_rs::bc2`.
pub uninterp spec fn bc2_output(compressed: Seq<u8>, before: Seq<u8>, pitch: usize) -> Seq<u8>;

/// The buffer after `bcdec_rs::bc3`.
pub uninterp spec fn bc3_output(compressed: Seq<u8>, before: Seq<u8>, pitch: usize) -> Seq<u8>;

/// The buffer after `bcdec_rs::bc4`.
pub uninterp spec fn bc4_output(
    compressed: Seq<u8>,
    before: Seq<u8>,
    pitch: usize,
    is_signed: bool,
) -> Seq<u8>;

/// The buffer after `bcdec_rs::bc5`.
pub uninterp spec fn bc5_output(
    compressed: Seq<u8>,
    before: Seq<u8>,
    pitch: usize,
    is_signed: bool,
) -> Seq<u8>;

/// The buffer of half-precision bit patterns after `bcdec_rs::bc6h_half`.
pub uninterp spec fn bc6h_half_output(
    compressed: Seq<u8>,
    before: Seq<u16>,
    pitch: usize,
    is_signed: bool,
) -> Seq<u16>;

/// The buffer after `bcdec_rs::bc7`.
pub uninterp spec fn bc7_output(compressed: Seq<u8>, before: Seq<u8>, pitch: usize) -> Seq<u8>;

/// Calls `bcdec_rs::bc1`, which decodes an 8-byte BC1 block to RGBA8.
/// The contract claims only that the buffer afterwards is `bc1_output` of the
/// block, the buffer before and the pitch. The decoder indexes the buffer up to
/// byte `3 * pitch + 16`, so the pitch is bounded to keep it from panicking.
#[verifier::external_body]
pub(crate) fn decode_bc1(compressed: &[u8; 8], decompressed: &mut [u8; 64], pitch: usize)
    requires
        3 * pitch + 16 <= 64,
    ensures
        final(decompressed)@ == bc1_output(compressed@, old(decompressed)@, pitch),
{
    bcdec_rs::bc1(compressed, decompressed, pitch)
}

/// Calls `bcdec_rs::bc2`, which decodes a 16-byte BC2 block to RGBA8.
/// The contract claims only that the buffer afterwards is `bc2_output` of the
/// block, the buffer before and the pitch. The pitch is bounded as for BC1.
#[verifier::external_body]
pub(crate) fn decode_bc2(compressed: &[u8; 16], decompressed: &mut [u8; 64], pitch: usize)
    requires
        3 * pitch + 16 <= 64,
    ensures
        final(decompressed)@ == bc2_output(compressed@, old(decompressed)@, pitch),
{
    bcdec_rs::bc2(compressed, decompressed, pitch)
}

/// Calls `bcdec_rs::bc3`, which decodes a 16-byte BC3 block to RGBA8.
/// The contract claims only that the buffer afterwards is `bc3_output` of the
/// block, the buffer before and the pitch. The pitch is bounded as for BC1.
#[verifier::external_body]
pub(crate) fn decode_bc3(compressed: &[u8; 16], decompressed: &mut [u8; 64], pitch: usize)
    requires
        3 * pitch + 16 <= 64,
    ensures
        final(decompressed)@ == bc3_output(compressed@, old(decompressed)@, pitch),
{
    bcdec_rs::bc3(compressed, decompressed, pitch)
}

/// Calls `bcdec_rs::bc4`, which decodes an 8-byte BC4 block to one byte per
/// pixel. The contract claims only that the buffer afterwards is `bc4_output` of
/// the block, the buffer before, the pitch and the signedness flag. The decoder
/// indexes the buffer up to byte `3 * pitch + 4`.
#[verifier::external_body]
pub(crate) fn decode_bc4(
    compressed: &[u8; 8],
    decompressed: &mut [u8; 16],
    pitch: usize,
    is_signed: bool,
)
    requires
        3 * pitch + 4 <= 16,
    ensures
        final(decompressed)@ == bc4_output(compressed@, old(decompressed)@, pitch, is_signed),
{
    bcdec_rs::bc4(compressed, decompressed, pitch, is_signed)
}

/// Calls `bcdec_rs::bc5`, which decodes a 16-byte BC5 block to two bytes per
/// pixel. The contract claims only that the buffer afterwards is `bc5_output` of
/// the block, the buffer before, the pitch and the signedness flag. The decoder
/// indexes the buffer up to byte `3 * pitch + 8`.
#[verifier::external_body]
pub(crate) fn decode_bc5(
    compressed: &[u8; 16],
    decompressed: &mut [u8; 32],
    pitch: usize,
    is_signed: bool,
)
    requires
        3 * pitch + 8 <= 32,
    ensures
        final(decompressed)@ == bc5_output(compressed@, old(decompressed)@, pitch, is_signed),
{
    bcdec_rs::bc5(compressed, decompressed, pitch, is_signed)
}

/// Calls `bcdec_rs::bc6h_half`, which decodes a 16-byte BC6H block to three
/// half-precision values per pixel, given as their bit patterns. The contract
/// claims only that the buffer afterwards is `bc6h_half_output` of the block, the
/// buffer before, the pitch and the signedness flag. The decoder indexes the
/// buffer up to element `3 * pitch + 12`.
#[verifier::external_body]
pub(crate) fn decode_bc6h_half(
    compressed: &[u8; 16],
    decompressed: &mut [u16; 48],
    pitch: usize,
    is_signed: bool,
)
    requires
        3 * pitch + 12 <= 48,
    ensures
        final(decompressed)@ == bc6h_half_output(
            compressed@,
            old(decompressed)@,
            pitch,
            is_signed,
        ),
{
    bcdec_rs::bc6h_half(compressed, decompressed, pitch, is_signed)
}

/// Calls `bcdec_rs::bc7`, which decodes a 16-byte BC7 block to RGBA8.
/// The contract claims only that the buffer afterwards is `bc7_output` of the
/// block, the buffer before and the pitch. The decoder asserts that the buffer
/// holds `3 * pitch + 16` bytes.
#[verifier::external_body]
pub(crate) fn decode_bc7(compressed: &[u8; 16], decompressed: &mut [u8; 64], pitch: usize)
    requires
        3 * pitch + 16 <= 64,
    ensures
        final(decompressed)@ == bc7_output(compressed@, old(decompressed)@, pitch),
{
    bcdec_rs::bc7(compressed, decompressed, pitch)
}

} // verus!
