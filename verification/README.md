# image_dds_bcn

Decoding and encoding of block-compressed (BC1-BC7) texture surfaces, with
contracts proved by Verus.

- `src/bcn.rs`: the `Bcn` trait, `rgba8_from_bcn` (blocks to an RGBA8 surface,
  row-major, clipped at the surface's edges) and `bcn_from_rgba8` (RGBA8 to
  blocks), with the laws relating surfaces to their blocks.
- `src/formats.rs`: `Bc1` to `Bc7`: which decoder and encoder each format uses and
  how decoded channels are padded to RGBA8.
- `src/block.rs`, `src/surface.rs`: compressed blocks and surface layout.
- `src/channels.rs`, `src/unorm.rs`, `src/explicit_alpha.rs`: channel padding,
  integer conversions between 8-bit channels and half-precision values, and the
  explicit alpha of BC2.
- `src/bcdec.rs`, `src/intel.rs`: the trusted calls into `bcdec_rs` (decoding,
  whose results are named as functions of their inputs) and `intel_tex_2`
  (encoding, whose machine-dependent results are stated only by their length).
