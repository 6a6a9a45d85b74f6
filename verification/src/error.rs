use vstd::prelude::*;

verus! {

/// How much time an encoder may spend looking for a good encoding.
#[derive(Debug, Clone, Copy, PartialEq, Eq, Structural)]
pub enum Quality {
    Fast,
    Normal,
    Slow,
}

/// Why a compressed surface could not be decoded.
#[derive(Debug, Clone, Copy, PartialEq, Eq, Structural)]
pub enum DecompressSurfaceError {
    /// The surface size in bytes does not fit in `usize`.
    InvalidDimensions { width: u32, height: u32 },
    /// The input holds fewer bytes than the surface needs.
    NotEnoughData { expected: usize, actual: usize },
}

/// Why an RGBA8 surface could not be encoded.
#[derive(Debug, Clone, Copy, PartialEq, Eq, Structural)]
pub enum CompressSurfaceError {
    /// A dimension is zero, or the surface size in bytes does not fit in `usize`.
    InvalidDimensions { width: u32, height: u32 },
    /// The input holds fewer bytes than the surface needs.
    NotEnoughData { expected: usize, actual: usize },
}

} // verus!
