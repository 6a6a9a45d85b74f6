//! Channel layouts on either side of the outside codecs: padding decoded
//! blocks with fewer channels to RGBA8, and converting RGBA8 channels to the
//! half-precision values the BC6H encoder reads.
use vstd::prelude::*;
use crate::surface::BYTES_PER_BLOCK;
use crate::unorm::{half_from_unorm8, spec_half_from_unorm8, spec_unorm8_from_half, unorm8_from_half};

verus! {

/// A decoded single-channel 4x4 block as RGBA8: the value in red, green and
/// blue (grayscale), alpha opaque.
pub open spec fn spec_rgba_from_r(r: Seq<u8>) -> Seq<u8> {
    Seq::new(64, |i: int| if i % 4 == 3 { 255u8 } else { r[i / 4] })
}

/// A decoded two-channel 4x4 block as RGBA8: blue zero, alpha opaque.
pub open spec fn spec_rgba_from_rg(rg: Seq<u8>) -> Seq<u8> {
    Seq::new(
        64,
        |i: int|
            if i % 4 == 0 {
                rg[(i / 4) * 2]
            } else if i % 4 == 1 {
                rg[(i / 4) * 2 + 1]
            } else if i % 4 == 2 {
                0u8
            } else {
                255u8
            },
    )
}

/// A decoded 4x4 block of half-precision RGB values as RGBA8: each channel
/// converted with `spec_unorm8_from_half`, alpha opaque.
pub open spec fn spec_rgba_from_rgb_half(rgb: Seq<u16>) -> Seq<u8> {
    Seq::new(
        64,
        |i: int|
            if i % 4 == 3 {
                255u8
            } else {
                spec_unorm8_from_half(rgb[(i / 4) * 3 + i % 4])
            },
    )
}

/// Pads a decoded single-channel 4x4 block to RGBA8.
pub fn rgba_from_r(r: &[u8; 16]) -> (rgba: [u8; BYTES_PER_BLOCK])
    ensures
        rgba@ == spec_rgba_from_r(r@),
{
    let mut rgba = [0u8; BYTES_PER_BLOCK];
    let mut i: usize = 0;
    while i < 16
        invariant
            i <= 16,
            forall|j: int| 0 <= j < 4 * i ==> #[trigger] rgba@[j] == spec_rgba_from_r(r@)[j],
        decreases 16 - i,
    {
        // Use grayscale rather than red only to avoid confusing it with colored data.
        rgba[i * 4] = r[i];
        rgba[i * 4 + 1] = r[i];
        rgba[i * 4 + 2] = r[i];
        rgba[i * 4 + 3] = 255u8;
        i += 1;
    }
    assert(rgba@ =~= spec_rgba_from_r(r@));
    rgba
}

/// Pads a decoded two-channel 4x4 block to RGBA8.
pub fn rgba_from_rg(rg: &[u8; 32]) -> (rgba: [u8; BYTES_PER_BLOCK])
    ensures
        rgba@ == spec_rgba_from_rg(rg@),
{
    let mut rgba = [0u8; BYTES_PER_BLOCK];
    let mut i: usize = 0;
    while i < 16
        invariant
            i <= 16,
            forall|j: int| 0 <= j < 4 * i ==> #[trigger] rgba@[j] == spec_rgba_from_rg(rg@)[j],
        decreases 16 - i,
    {
        // It's convention to zero the blue channel.
        rgba[i * 4] = rg[i * 2];
        rgba[i * 4 + 1] = rg[i * 2 + 1];
        rgba[i * 4 + 2] = 0u8;
        rgba[i * 4 + 3] = 255u8;
        i += 1;
    }
    assert(rgba@ =~= spec_rgba_from_rg(rg@));
    rgba
}

/// Converts a decoded 4x4 block of half-precision RGB values to RGBA8.
pub fn rgba_from_rgb_half(rgb: &[u16; 48]) -> (rgba: [u8; BYTES_PER_BLOCK])
    ensures
        rgba@ == spec_rgba_from_rgb_half(rgb@),
{
    let mut rgba = [0u8; BYTES_PER_BLOCK];
    let mut i: usize = 0;
    while i < 16
        invariant
            i <= 16,
            forall|j: int|
                0 <= j < 4 * i ==> #[trigger] rgba@[j] == spec_rgba_from_rgb_half(rgb@)[j],
        decreases 16 - i,
    {
        rgba[i * 4] = unorm8_from_half(rgb[i * 3]);
        rgba[i * 4 + 1] = unorm8_from_half(rgb[i * 3 + 1]);
        rgba[i * 4 + 2] = unorm8_from_half(rgb[i * 3 + 2]);
        rgba[i * 4 + 3] = 255u8;
        i += 1;
    }
    assert(rgba@ =~= spec_rgba_from_rgb_half(rgb@));
    rgba
}

/// Each channel of an RGBA8 buffer as the little-endian bytes of the
/// half-precision value nearest to `channel / 255`.
pub open spec fn spec_half_plane(rgba: Seq<u8>) -> Seq<u8> {
    Seq::new(
        rgba.len() * 2,
        |i: int|
            if i % 2 == 0 {
                (spec_half_from_unorm8(rgba[i / 2]) % 256) as u8
            } else {
                (spec_half_from_unorm8(rgba[i / 2]) / 256) as u8
            },
    )
}

/// Converts each channel of an RGBA8 buffer to the little-endian bytes of a
/// half-precision value.
pub fn half_plane(rgba: &[u8]) -> (halves: Vec<u8>)
    requires
        rgba@.len() * 2 <= usize::MAX,
    ensures
        halves@ == spec_half_plane(rgba@),
{
    let n = rgba.len();
    let mut halves: Vec<u8> = Vec::with_capacity(n);
    let mut i: usize = 0;
    while i < n
        invariant
            i <= n,
            n == rgba@.len(),
            halves@.len() == 2 * i,
            forall|j: int| 0 <= j < 2 * i ==> #[trigger] halves@[j] == spec_half_plane(rgba@)[j],
        decreases n - i,
    {
        let h = half_from_unorm8(rgba[i]);
        halves.push((h % 256) as u8);
        halves.push((h / 256) as u8);
        i += 1;
    }
    assert(halves@ =~= spec_half_plane(rgba@));
    halves
}

} // verus!
