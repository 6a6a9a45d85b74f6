use image_dds_bcn::surface::BYTES_PER_BLOCK;
use image_dds_bcn::{
    bcn_from_rgba8, rgba8_from_bcn, Bc1, Bc2, Bc3, Bc4, Bc5, Bc6, Bc7, Bcn,
    CompressSurfaceError, DecompressSurfaceError, Quality,
};

fn check_decompress_compressed_bcn<T: Bcn>(rgba: &[u8], quality: Quality) {
    // Compress the data once to introduce some errors.
    let compressed_block = bcn_from_rgba8::<T>(4, 4, &rgba, quality).unwrap();
    let decompressed_block = rgba8_from_bcn::<T>(4, 4, &compressed_block).unwrap();

    // Compressing and decompressing should give back the same data.
    let compressed_block2 = bcn_from_rgba8::<T>(4, 4, &decompressed_block, quality).unwrap();
    let decompressed_block2 = rgba8_from_bcn::<T>(4, 4, &compressed_block2).unwrap();

    assert_eq!(decompressed_block2, decompressed_block);
}

#[test]
fn bc1_decompress_compressed() {
    let rgba = vec![64u8; BYTES_PER_BLOCK];
    check_decompress_compressed_bcn::<Bc1>(&rgba, Quality::Fast);
    check_decompress_compressed_bcn::<Bc1>(&rgba, Quality::Normal);
    check_decompress_compressed_bcn::<Bc1>(&rgba, Quality::Slow);
}

#[test]
fn bc2_decompress_compressed() {
    let rgba = vec![64u8; BYTES_PER_BLOCK];
    check_decompress_compressed_bcn::<Bc2>(&rgba, Quality::Fast);
    check_decompress_compressed_bcn::<Bc2>(&rgba, Quality::Normal);
    check_decompress_compressed_bcn::<Bc2>(&rgba, Quality::Slow);
}

#[test]
fn bc3_decompress_compressed() {
    let rgba = vec![64u8; BYTES_PER_BLOCK];
    check_decompress_compressed_bcn::<Bc3>(&rgba, Quality::Fast);
    check_decompress_compressed_bcn::<Bc3>(&rgba, Quality::Normal);
    check_decompress_compressed_bcn::<Bc3>(&rgba, Quality::Slow);
}

#[test]
fn bc4_decompress_compressed() {
    let rgba = vec![64u8; BYTES_PER_BLOCK];
    check_decompress_compressed_bcn::<Bc4>(&rgba, Quality::Fast);
    check_decompress_compressed_bcn::<Bc4>(&rgba, Quality::Normal);
    check_decompress_compressed_bcn::<Bc4>(&rgba, Quality::Slow);
}

#[test]
fn bc5_decompress_compressed() {
    let rgba = vec![64u8; BYTES_PER_BLOCK];
    check_decompress_compressed_bcn::<Bc5>(&rgba, Quality::Fast);
    check_decompress_compressed_bcn::<Bc5>(&rgba, Quality::Normal);
    check_decompress_compressed_bcn::<Bc5>(&rgba, Quality::Slow);
}

#[test]
fn bc6_decompress_compressed() {
    let rgba = vec![64u8; BYTES_PER_BLOCK];
    check_decompress_compressed_bcn::<Bc6>(&rgba, Quality::Fast);
    check_decompress_compressed_bcn::<Bc6>(&rgba, Quality::Normal);
    check_decompress_compressed_bcn::<Bc6>(&rgba, Quality::Slow);
}

#[test]
fn bc7_decompress_compressed() {
    let rgba = vec![64u8; BYTES_PER_BLOCK];
    check_decompress_compressed_bcn::<Bc7>(&rgba, Quality::Fast);
    check_decompress_compressed_bcn::<Bc7>(&rgba, Quality::Normal);
    check_decompress_compressed_bcn::<Bc7>(&rgba, Quality::Slow);
}

/// A BC1 block with both reference colors white and every index 0.
fn white_bc1_block() -> [u8; 8] {
    [0xff, 0xff, 0xff, 0xff, 0, 0, 0, 0]
}

/// A BC1 block with reference colors pure red and black and every index 0.
fn red_bc1_block() -> [u8; 8] {
    [0x00, 0xf8, 0x00, 0x00, 0, 0, 0, 0]
}

#[test]
fn decode_bc1_white_block() {
    let rgba = rgba8_from_bcn::<Bc1>(4, 4, &white_bc1_block()).unwrap();
    assert_eq!(rgba, vec![255u8; 64]);
}

#[test]
fn decode_places_blocks_in_row_major_order() {
    // An 8x4 surface: a red block on the left, a white block on the right.
    let mut data = red_bc1_block().to_vec();
    data.extend_from_slice(&white_bc1_block());
    let rgba = rgba8_from_bcn::<Bc1>(8, 4, &data).unwrap();
    assert_eq!(rgba.len(), 8 * 4 * 4);
    for y in 0..4 {
        for x in 0..8 {
            let i = (y * 8 + x) * 4;
            let expected: [u8; 4] = if x < 4 { [255, 0, 0, 255] } else { [255, 255, 255, 255] };
            assert_eq!(&rgba[i..i + 4], &expected);
        }
    }
}

#[test]
fn decode_mipmap_smaller_than_a_block() {
    // A mipmap of 1x1 pixels is decoded from one whole block.
    let rgba = rgba8_from_bcn::<Bc1>(1, 1, &red_bc1_block()).unwrap();
    assert_eq!(rgba, vec![255, 0, 0, 255]);
}

#[test]
fn decode_surface_with_partial_blocks() {
    // 5x5 pixels take 2x2 blocks; the pixels outside the surface are dropped.
    let mut data = Vec::new();
    data.extend_from_slice(&red_bc1_block());
    data.extend_from_slice(&white_bc1_block());
    data.extend_from_slice(&white_bc1_block());
    data.extend_from_slice(&red_bc1_block());
    let rgba = rgba8_from_bcn::<Bc1>(5, 5, &data).unwrap();
    assert_eq!(rgba.len(), 5 * 5 * 4);
    for y in 0..5 {
        for x in 0..5 {
            let i = (y * 5 + x) * 4;
            let red = (x < 4) == (y < 4);
            let expected: [u8; 4] = if red { [255, 0, 0, 255] } else { [255, 255, 255, 255] };
            assert_eq!(&rgba[i..i + 4], &expected);
        }
    }
}

#[test]
fn decode_empty_surface() {
    assert_eq!(rgba8_from_bcn::<Bc7>(0, 0, &[]), Ok(Vec::new()));
    assert_eq!(rgba8_from_bcn::<Bc7>(0, 16, &[]), Ok(Vec::new()));
}

#[test]
fn decode_ignores_trailing_bytes() {
    let mut data = white_bc1_block().to_vec();
    data.extend_from_slice(&[1, 2, 3]);
    assert_eq!(rgba8_from_bcn::<Bc1>(4, 4, &data).unwrap(), vec![255u8; 64]);
}

#[test]
fn decode_not_enough_data() {
    assert_eq!(
        rgba8_from_bcn::<Bc1>(8, 8, &[0u8; 31]),
        Err(DecompressSurfaceError::NotEnoughData { expected: 32, actual: 31 })
    );
    assert_eq!(
        rgba8_from_bcn::<Bc3>(5, 4, &[0u8; 16]),
        Err(DecompressSurfaceError::NotEnoughData { expected: 32, actual: 16 })
    );
}

#[test]
fn decode_bc4_is_gray_and_opaque() {
    // Endpoints 200 and 0; every index selects the first endpoint.
    let block = [200u8, 0, 0, 0, 0, 0, 0, 0];
    let rgba = rgba8_from_bcn::<Bc4>(4, 4, &block).unwrap();
    for pixel in rgba.chunks(4) {
        assert_eq!(pixel, &[200, 200, 200, 255]);
    }
}

#[test]
fn decode_bc5_has_zero_blue_and_opaque_alpha() {
    // Red endpoints 200 and 0, green endpoints 100 and 0; every index 0.
    let block = [200u8, 0, 0, 0, 0, 0, 0, 0, 100, 0, 0, 0, 0, 0, 0, 0];
    let rgba = rgba8_from_bcn::<Bc5>(4, 4, &block).unwrap();
    for pixel in rgba.chunks(4) {
        assert_eq!(pixel, &[200, 100, 0, 255]);
    }
}

#[test]
fn decode_bc6_is_opaque() {
    let rgba = rgba8_from_bcn::<Bc6>(4, 4, &[0u8; 16]).unwrap();
    for pixel in rgba.chunks(4) {
        assert_eq!(pixel, &[0, 0, 0, 255]);
    }
}

#[test]
fn decode_bc7_reserved_mode_is_transparent_black() {
    let rgba = rgba8_from_bcn::<Bc7>(4, 4, &[0u8; 16]).unwrap();
    assert_eq!(rgba, vec![0u8; 64]);
}

#[test]
fn encode_invalid_dimensions() {
    assert_eq!(
        bcn_from_rgba8::<Bc1>(0, 4, &[0u8; 64], Quality::Fast),
        Err(CompressSurfaceError::InvalidDimensions { width: 0, height: 4 })
    );
    assert_eq!(
        bcn_from_rgba8::<Bc7>(4, 0, &[0u8; 64], Quality::Fast),
        Err(CompressSurfaceError::InvalidDimensions { width: 4, height: 0 })
    );
}

#[test]
fn encode_not_enough_data() {
    assert_eq!(
        bcn_from_rgba8::<Bc3>(4, 4, &[0u8; 63], Quality::Fast),
        Err(CompressSurfaceError::NotEnoughData { expected: 64, actual: 63 })
    );
    // A 1x1 surface still needs the bytes of a whole block.
    assert_eq!(
        bcn_from_rgba8::<Bc1>(1, 1, &[0u8; 4], Quality::Fast),
        Err(CompressSurfaceError::NotEnoughData { expected: 64, actual: 4 })
    );
}

#[test]
fn encode_sizes() {
    let rgba = vec![128u8; 8 * 8 * 4];
    assert_eq!(bcn_from_rgba8::<Bc1>(8, 8, &rgba, Quality::Fast).unwrap().len(), 32);
    assert_eq!(bcn_from_rgba8::<Bc2>(8, 8, &rgba, Quality::Fast).unwrap().len(), 64);
    assert_eq!(bcn_from_rgba8::<Bc3>(8, 8, &rgba, Quality::Fast).unwrap().len(), 64);
    assert_eq!(bcn_from_rgba8::<Bc4>(8, 8, &rgba, Quality::Fast).unwrap().len(), 32);
    assert_eq!(bcn_from_rgba8::<Bc5>(8, 8, &rgba, Quality::Fast).unwrap().len(), 64);
    assert_eq!(bcn_from_rgba8::<Bc6>(8, 8, &rgba, Quality::Fast).unwrap().len(), 64);
    assert_eq!(bcn_from_rgba8::<Bc7>(8, 8, &rgba, Quality::Fast).unwrap().len(), 64);
}

#[test]
fn encode_bc2_explicit_alpha() {
    // Alpha 64 quantizes to 4, and 255 to 15.
    let mut rgba = vec![64u8; 64];
    for pixel in 0..8 {
        rgba[pixel * 4 + 3] = 255;
    }
    let bc2 = bcn_from_rgba8::<Bc2>(4, 4, &rgba, Quality::Normal).unwrap();
    assert_eq!(&bc2[0..8], &[0xff, 0xff, 0xff, 0xff, 0x44, 0x44, 0x44, 0x44]);
    let bc3 = bcn_from_rgba8::<Bc3>(4, 4, &rgba, Quality::Normal).unwrap();
    assert_eq!(&bc2[8..16], &bc3[8..16]);
    let decoded = rgba8_from_bcn::<Bc2>(4, 4, &bc2).unwrap();
    for pixel in 0..16 {
        assert_eq!(decoded[pixel * 4 + 3], if pixel < 8 { 255 } else { 68 });
    }
}

#[test]
fn encode_then_decode_uniform_color() {
    let rgba = vec![255u8; 64];
    for quality in [Quality::Fast, Quality::Normal, Quality::Slow] {
        let bc7 = bcn_from_rgba8::<Bc7>(4, 4, &rgba, quality).unwrap();
        assert_eq!(rgba8_from_bcn::<Bc7>(4, 4, &bc7).unwrap(), rgba);
        let bc1 = bcn_from_rgba8::<Bc1>(4, 4, &rgba, quality).unwrap();
        assert_eq!(rgba8_from_bcn::<Bc1>(4, 4, &bc1).unwrap(), rgba);
    }
}

#[test]
fn decode_bc3_opaque_white_block() {
    // Alpha endpoints 255 and 0 with every index 0, then a white color block.
    let block = [255u8, 0, 0, 0, 0, 0, 0, 0, 0xff, 0xff, 0xff, 0xff, 0, 0, 0, 0];
    assert_eq!(rgba8_from_bcn::<Bc3>(4, 4, &block).unwrap(), vec![255u8; 64]);
}

fn assert_close(actual: u8, expected: u8) {
    assert!(
        (actual as i32 - expected as i32).abs() <= 8,
        "{actual} is not close to {expected}"
    );
}

fn check_encode_decode_uniform<T: Bcn>(pixel: [u8; 4], channels: &[usize]) {
    let rgba: Vec<u8> = pixel.iter().copied().cycle().take(64).collect();
    for quality in [Quality::Fast, Quality::Normal, Quality::Slow] {
        let encoded = bcn_from_rgba8::<T>(4, 4, &rgba, quality).unwrap();
        let decoded = rgba8_from_bcn::<T>(4, 4, &encoded).unwrap();
        for p in decoded.chunks(4) {
            for &c in channels {
                assert_close(p[c], pixel[c]);
            }
        }
    }
}

#[test]
fn encode_then_decode_each_format() {
    let pixel = [200u8, 120, 40, 255];
    check_encode_decode_uniform::<Bc1>(pixel, &[0, 1, 2, 3]);
    check_encode_decode_uniform::<Bc2>(pixel, &[0, 1, 2, 3]);
    check_encode_decode_uniform::<Bc3>(pixel, &[0, 1, 2, 3]);
    check_encode_decode_uniform::<Bc4>(pixel, &[0]);
    check_encode_decode_uniform::<Bc5>(pixel, &[0, 1]);
    check_encode_decode_uniform::<Bc6>(pixel, &[0, 1, 2, 3]);
    check_encode_decode_uniform::<Bc7>(pixel, &[0, 1, 2, 3]);
}

#[test]
fn encode_then_decode_uniform_alpha() {
    let pixel = [10u8, 20, 30, 100];
    check_encode_decode_uniform::<Bc2>(pixel, &[3]);
    check_encode_decode_uniform::<Bc3>(pixel, &[3]);
    check_encode_decode_uniform::<Bc7>(pixel, &[3]);
}

#[test]
fn decode_one_pixel_needs_a_whole_block() {
    assert_eq!(
        rgba8_from_bcn::<Bc1>(1, 1, &[]),
        Err(DecompressSurfaceError::NotEnoughData { expected: 8, actual: 0 })
    );
}

#[test]
fn decode_bc4_blocks_in_row_major_order() {
    let mut data = Vec::new();
    for g in [10u8, 20, 30, 40] {
        data.extend_from_slice(&[g, 0, 0, 0, 0, 0, 0, 0]);
    }
    let rgba = rgba8_from_bcn::<Bc4>(8, 8, &data).unwrap();
    assert_eq!(rgba.len(), 256);
    for py in 0..8 {
        for px in 0..8 {
            let g = 10 * (1 + 2 * (py / 4) + px / 4) as u8;
            let i = (py * 8 + px) * 4;
            assert_eq!(&rgba[i..i + 4], &[g, g, g, 255]);
        }
    }
}

#[test]
fn compress_surface_reads_only_the_surface() {
    // A 5x5 surface of exactly 5 * 5 * 4 bytes: the encoder covers one whole block.
    let rgba = vec![200u8; 5 * 5 * 4];
    assert_eq!(Bc1::compress_surface(5, 5, &rgba, Quality::Fast).unwrap().len(), 16);
    assert_eq!(Bc7::compress_surface(5, 5, &rgba, Quality::Fast).unwrap().len(), 32);
    assert_eq!(Bc2::compress_surface(5, 5, &rgba, Quality::Fast).unwrap().len(), 32);
}
