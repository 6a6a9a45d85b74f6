use image_dds_bcn::channels::{
    half_plane, rgba_from_r, rgba_from_rg, rgba_from_rgb_half,
};
use image_dds_bcn::explicit_alpha::bc2_from_bc3;
use image_dds_bcn::formats::{bc6h_settings, bc7_settings};
use image_dds_bcn::surface::div_round_up;
use image_dds_bcn::unorm::{half_from_unorm8, unorm8_from_half};
use image_dds_bcn::{Block16, Block8, Quality, ReadBlock};

#[test]
fn div_round_up_values() {
    assert_eq!(div_round_up(0, 4), 0);
    assert_eq!(div_round_up(1, 4), 1);
    assert_eq!(div_round_up(4, 4), 1);
    assert_eq!(div_round_up(5, 4), 2);
    assert_eq!(div_round_up(usize::MAX, 4), usize::MAX / 4 + 1);
}

#[test]
fn half_from_unorm8_values() {
    assert_eq!(half_from_unorm8(0), 0x0000);
    assert_eq!(half_from_unorm8(1), 0x1c04);
    assert_eq!(half_from_unorm8(64), 0x3404);
    assert_eq!(half_from_unorm8(255), 0x3c00);
}

#[test]
fn half_from_unorm8_matches_float_conversion() {
    for v in 0..=255u8 {
        let expected = half::f16::from_f32(v as f32 / 255.0).to_bits();
        assert_eq!(half_from_unorm8(v), expected, "value {v}");
    }
}

#[test]
fn unorm8_from_half_values() {
    assert_eq!(unorm8_from_half(0x0000), 0);
    assert_eq!(unorm8_from_half(0x3c00), 255);
    // 0.5 * 255 = 127.5 rounds away from zero to 128.
    assert_eq!(unorm8_from_half(0x3800), 128);
    // The half value nearest to 64 / 255 is slightly below it.
    assert_eq!(unorm8_from_half(0x3404), 64);
    // Values above one saturate, negative values and NaN give zero.
    assert_eq!(unorm8_from_half(0x4000), 255);
    assert_eq!(unorm8_from_half(0x7c00), 255);
    assert_eq!(unorm8_from_half(0xbc00), 0);
    assert_eq!(unorm8_from_half(0xfc00), 0);
    assert_eq!(unorm8_from_half(0x7e00), 0);
}

#[test]
fn unorm8_from_half_matches_float_conversion() {
    for h in 0..=u16::MAX {
        let x = half::f16::from_bits(h).to_f32();
        let expected = (x * 255.0).round() as u8;
        assert_eq!(unorm8_from_half(h), expected, "bits {h:#06x}");
    }
}

#[test]
fn padding_single_channel() {
    let mut r = [0u8; 16];
    for i in 0..16 {
        r[i] = i as u8 * 10;
    }
    let rgba = rgba_from_r(&r);
    for i in 0..16 {
        assert_eq!(&rgba[i * 4..i * 4 + 4], &[r[i], r[i], r[i], 255]);
    }
}

#[test]
fn padding_two_channels() {
    let mut rg = [0u8; 32];
    for i in 0..32 {
        rg[i] = i as u8 + 1;
    }
    let rgba = rgba_from_rg(&rg);
    for i in 0..16 {
        assert_eq!(&rgba[i * 4..i * 4 + 4], &[rg[2 * i], rg[2 * i + 1], 0, 255]);
    }
}

#[test]
fn padding_half_rgb() {
    let mut rgb = [0u16; 48];
    for i in 0..16 {
        rgb[i * 3] = 0x3c00;
        rgb[i * 3 + 1] = 0x3800;
        rgb[i * 3 + 2] = 0x0000;
    }
    let rgba = rgba_from_rgb_half(&rgb);
    for i in 0..16 {
        assert_eq!(&rgba[i * 4..i * 4 + 4], &[255, 128, 0, 255]);
    }
}

#[test]
fn half_plane_bytes() {
    assert_eq!(half_plane(&[255u8, 64]), vec![0x00, 0x3c, 0x04, 0x34]);
    assert_eq!(half_plane(&[]), Vec::<u8>::new());
}

#[test]
fn bc2_alpha_from_surface() {
    // A 4x4 surface: alpha 0 except pixel (1, 0) with 255 and pixel (2, 3) with 17.
    let mut rgba = vec![0u8; 64];
    rgba[(0 * 4 + 1) * 4 + 3] = 255;
    rgba[(3 * 4 + 2) * 4 + 3] = 17;
    let bc3: Vec<u8> = (0..16).collect();
    let bc2 = bc2_from_bc3(4, 4, &rgba, &bc3);
    assert_eq!(bc2, vec![0xf0, 0, 0, 0, 0, 0, 0, 0x01, 8, 9, 10, 11, 12, 13, 14, 15]);
}

#[test]
fn bc2_alpha_past_whole_blocks_is_zero() {
    // A 5x4 surface has one whole block; the encoder's second block gets zero alpha.
    let rgba = vec![255u8; 5 * 4 * 4 + 16];
    let bc3: Vec<u8> = (0..32).collect();
    let bc2 = bc2_from_bc3(5, 4, &rgba, &bc3);
    assert_eq!(&bc2[0..8], &[0xff; 8]);
    assert_eq!(&bc2[8..16], &bc3[8..16]);
    assert_eq!(&bc2[16..24], &[0; 8]);
    assert_eq!(&bc2[24..32], &bc3[24..32]);
}

#[test]
fn read_blocks_at_offsets() {
    let data: Vec<u8> = (0..40).collect();
    let block = Block8::read_block(&data, 3);
    assert_eq!(block.0, [3, 4, 5, 6, 7, 8, 9, 10]);
    let block = Block16::read_block(&data, 24);
    assert_eq!(block.0.to_vec(), (24..40).collect::<Vec<u8>>());
    assert_eq!(Block8::SIZE_IN_BYTES, 8);
    assert_eq!(Block16::SIZE_IN_BYTES, 16);
}

#[test]
fn encoder_settings_for_quality() {
    let fast = bc6h_settings(Quality::Fast);
    assert!(fast.fast_mode && !fast.slow_mode);
    let normal = bc6h_settings(Quality::Normal);
    assert!(!normal.fast_mode && !normal.slow_mode);
    assert_eq!(normal.fast_skip_threshold, 4);
    let slow = bc6h_settings(Quality::Slow);
    assert!(slow.slow_mode);
    assert_eq!(slow.fast_skip_threshold, 10);

    assert_eq!(bc7_settings(Quality::Fast).mode_selection, [false, false, true, true]);
    assert_eq!(bc7_settings(Quality::Normal).refine_iterations_channel, 2);
    assert_eq!(bc7_settings(Quality::Slow).fast_skip_threshold_mode7, 8);
    assert_eq!(bc7_settings(Quality::Slow).channels, 4);
}

#[test]
fn unorm8_half_round_trip() {
    for v in 0..=255u8 {
        assert_eq!(unorm8_from_half(half_from_unorm8(v)), v);
    }
}

#[test]
fn bc2_alpha_quantization_error() {
    let bc3 = vec![0u8; 16];
    for a in 0..=255u8 {
        let rgba: Vec<u8> = [0u8, 0, 0, a].iter().copied().cycle().take(64).collect();
        let bc2 = bc2_from_bc3(4, 4, &rgba, &bc3);
        let nibble = bc2[0] & 0x0f;
        assert_eq!(bc2[0] >> 4, nibble);
        assert!((nibble as i32 * 17 - a as i32).abs() <= 8);
    }
}

#[test]
fn unorm8_from_half_is_monotone_and_clamps() {
    // For non-negative finite halves, larger bit patterns are larger values.
    let mut previous = 0u8;
    for h in 0..0x7c00u16 {
        let v = unorm8_from_half(h);
        assert!(v >= previous, "bits {h:#06x}");
        previous = v;
        if h >= 0x3c00 {
            assert_eq!(v, 255);
        }
    }
    for h in 0x8000..=0xfbffu16 {
        assert_eq!(unorm8_from_half(h), 0);
    }
}
