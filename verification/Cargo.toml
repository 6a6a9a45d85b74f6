[package]
name = "image_dds_bcn"
version = "0.1.0"
edition = "2021"
publish = false

[dependencies]
bcdec_rs = "=0.2.1"
intel_tex_2 = "=0.2.2"
link-cplusplus = "=1.0.12"

[dev-dependencies]
half = "=2.7.1"
