//! Block-compressed (BCn) texture surfaces: decoding BC1-BC7 blocks to RGBA8
//! and encoding RGBA8 surfaces to BCn blocks.
pub mod block;
pub mod error;
pub mod bcdec;
pub mod surface;
pub mod bcn;
pub mod unorm;
pub mod channels;
pub mod intel;
pub mod explicit_alpha;
pub mod formats;

pub use bcn::{bcn_from_rgba8, rgba8_from_bcn, Bcn};
pub use block::{Block16, Block8, ReadBlock};
pub use error::{CompressSurfaceError, DecompressSurfaceError, Quality};
pub use formats::{Bc1, Bc2, Bc3, Bc4, Bc5, Bc6, Bc7};

// The encoders' prebuilt kernels include C++ code that needs the C++ runtime.
use link_cplusplus as _;
