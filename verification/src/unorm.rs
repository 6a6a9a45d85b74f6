//! Conversions between 8-bit normalized channel values and the bit patterns of
//! half-precision (IEEE 754 binary16) values, written with integers only.
//!
//! A half value has at most 11 significant bits, so its product with 255 has at
//! most 19 and is exact in single precision: rounding that product is the
//! integer computation below.
use vstd::prelude::*;
use vstd::arithmetic::power2::{lemma2_to64, lemma_pow2_unfold, pow2};

verus! {

/// The exponent field of a half-precision bit pattern.
pub open spec fn half_exponent(h: u16) -> int {
    (h as int / 1024) % 32
}

/// The mantissa field of a half-precision bit pattern.
pub open spec fn half_mantissa(h: u16) -> int {
    h as int % 1024
}

/// The magnitude of the finite half-precision value with bits `h`, in units of 2^-24.
pub open spec fn half_magnitude(h: u16) -> int {
    if half_exponent(h) == 0 {
        half_mantissa(h)
    } else {
        (1024 + half_mantissa(h)) * pow2((half_exponent(h) - 1) as nat)
    }
}

/// The channel value `x * 255` of the half-precision value `x` with bits `h`,
/// rounded to nearest with ties away from zero and saturated to 0..=255, where
/// NaN gives 0.
pub open spec fn spec_unorm8_from_half(h: u16) -> u8 {
    if half_exponent(h) == 31 {
        if half_mantissa(h) == 0 && h < 32768 {
            255
        } else {
            0
        }
    } else if h >= 32768 {
        0
    } else {
        let v = (half_magnitude(h) * 255 + pow2(23)) / (pow2(24) as int);
        if v > 255 {
            255
        } else {
            v as u8
        }
    }
}

/// Converts a half-precision value, given by its bits, to an 8-bit channel
/// value: `x * 255` rounded and saturated.
pub fn unorm8_from_half(h: u16) -> (v: u8)
    ensures
        v == spec_unorm8_from_half(h),
{
    let exponent = (h / 1024) % 32;
    let mantissa = h % 1024;
    if exponent == 31 {
        if mantissa == 0 && h < 32768 {
            255
        } else {
            0
        }
    } else if h >= 32768 {
        0
    } else {
        let mut magnitude: u64 = if exponent == 0 {
            mantissa as u64
        } else {
            1024 + mantissa as u64
        };
        let mut i: u16 = 1;
        proof {
            lemma2_to64();
            assert((1024 + mantissa) * pow2(0) == 1024 + mantissa);
        }
        while i < exponent
            invariant
                1 <= i <= 31,
                exponent < 31,
                exponent == half_exponent(h),
                mantissa == half_mantissa(h),
                exponent == 0 ==> magnitude == half_mantissa(h),
                exponent > 0 ==> i <= exponent,
                exponent > 0 ==> magnitude == (1024 + mantissa) * pow2((i - 1) as nat),
                magnitude <= 2047 * pow2(29),
                pow2(29) == 0x2000_0000,
            decreases exponent - i,
        {
            proof {
                lemma_pow2_unfold(i as nat);
                assert(pow2((i - 1) as nat) <= pow2(28)) by {
                    if i - 1 < 28 {
                        vstd::arithmetic::power2::lemma_pow2_strictly_increases(
                            (i - 1) as nat,
                            28,
                        );
                    }
                }
                lemma_pow2_unfold(29);
                assert(2 * ((1024 + mantissa) * pow2((i - 1) as nat)) == (1024 + mantissa)
                    * pow2(i as nat)) by (nonlinear_arith)
                    requires pow2(i as nat) == 2 * pow2((i - 1) as nat);
                assert((1024 + mantissa) * pow2(i as nat) <= 2047 * pow2(29)) by (nonlinear_arith)
                    requires
                        pow2(i as nat) == 2 * pow2((i - 1) as nat),
                        pow2((i - 1) as nat) <= pow2(28),
                        pow2(29) == 2 * pow2(28),
                        mantissa < 1024,
                ;
            }
            magnitude = magnitude * 2;
            i += 1;
        }
        assert(magnitude == half_magnitude(h));
        let scaled = (magnitude * 255 + 0x80_0000) / 0x100_0000;
        if scaled > 255 {
            255
        } else {
            scaled as u8
        }
    }
}

/// The shift `s` with 2^-s <= v / 255 < 2^(1-s), for 0 < v <= 255.
pub open spec fn unit_shift(v: u8) -> nat {
    if v == 255 {
        0
    } else if v >= 128 {
        1
    } else if v >= 64 {
        2
    } else if v >= 32 {
        3
    } else if v >= 16 {
        4
    } else if v >= 8 {
        5
    } else if v >= 4 {
        6
    } else if v >= 2 {
        7
    } else {
        8
    }
}

/// The 11-bit significand, 1024..=2048, of v / 255 scaled by 2^(10 + s) and
/// rounded to the nearest integer (no ties occur, as 255 is odd).
pub open spec fn unorm8_significand(v: u8) -> int {
    (v * pow2(11 + unit_shift(v)) + 255) / 510
}

/// The bits of the half-precision value nearest to v / 255. A significand that
/// rounds up to 2048 carries into the exponent field.
pub open spec fn spec_half_from_unorm8(v: u8) -> u16 {
    if v == 0 {
        0
    } else {
        ((15 - unit_shift(v)) * 1024 + unorm8_significand(v) - 1024) as u16
    }
}

/// Converts an 8-bit channel value `v` to the bits of the half-precision value
/// nearest to `v / 255`.
pub fn half_from_unorm8(v: u8) -> (h: u16)
    ensures
        h == spec_half_from_unorm8(v),
{
    if v == 0 {
        return 0;
    }
    proof {
        lemma2_to64();
    }
    let (shift, scale): (u32, u32) = if v == 255 {
        (0, 2048)
    } else if v >= 128 {
        (1, 4096)
    } else if v >= 64 {
        (2, 8192)
    } else if v >= 32 {
        (3, 16384)
    } else if v >= 16 {
        (4, 32768)
    } else if v >= 8 {
        (5, 65536)
    } else if v >= 4 {
        (6, 131072)
    } else if v >= 2 {
        (7, 262144)
    } else {
        (8, 524288)
    };
    assert(shift == unit_shift(v) && scale == pow2(11 + unit_shift(v)));
    assert(v as u32 * scale < 1044480) by (nonlinear_arith)
        requires
            (v == 255 && scale == 2048) || (128 <= v < 255 && scale == 4096) || (64 <= v < 128
                && scale == 8192) || (32 <= v < 64 && scale == 16384) || (16 <= v < 32 && scale
                == 32768) || (8 <= v < 16 && scale == 65536) || (4 <= v < 8 && scale == 131072)
                || (2 <= v < 4 && scale == 262144) || (v == 1 && scale == 524288),
    ;
    let significand = (v as u32 * scale + 255) / 510;
    assert(1024 <= significand <= 2048) by (nonlinear_arith)
        requires
            significand == (v as u32 * scale + 255) / 510,
            (v == 255 && scale == 2048) || (128 <= v < 255 && scale == 4096) || (64 <= v < 128
                && scale == 8192) || (32 <= v < 64 && scale == 16384) || (16 <= v < 32 && scale
                == 32768) || (8 <= v < 16 && scale == 65536) || (4 <= v < 8 && scale == 131072)
                || (2 <= v < 4 && scale == 262144) || (v == 1 && scale == 524288),
    ;
    ((15 - shift) * 1024 + significand - 1024) as u16
}

/// `half_from_unorm8` rounds to the nearest half-precision value: for
/// 0 < v <= 255 the exponent is that of v / 255 (2^-s <= v / 255 < 2^(1-s)) and
/// the 11-bit significand q is within half a unit of v * 2^(10 + s) / 255.
pub proof fn lemma_half_from_unorm8_is_nearest(v: u8)
    requires
        v > 0,
    ensures
        255 <= v * pow2(unit_shift(v)) < 510,
        -255 <= 2 * v * pow2(10 + unit_shift(v)) - 510 * unorm8_significand(v) <= 255,
        1024 <= unorm8_significand(v) <= 2048,
        spec_half_from_unorm8(v) == (15 - unit_shift(v)) * 1024 + unorm8_significand(v) - 1024,
{
    let s = unit_shift(v);
    lemma2_to64();
    lemma_pow2_unfold(11 + s);
    vstd::arithmetic::power2::lemma_pow2_adds(s, 10);
    let p = pow2(s) as int;
    assert(pow2(10 + s) == p * 1024);
    assert(pow2(11 + s) == 2 * (p * 1024));
    assert(255 <= v * p < 510) by {
        if s == 0 {
            assert(255 <= v * p < 510) by (nonlinear_arith)
                requires p == 1, v == 255;
        } else if s == 1 {
            assert(255 <= v * p < 510) by (nonlinear_arith)
                requires p == 2, 128 <= v < 255;
        } else if s == 2 {
            assert(255 <= v * p < 510) by (nonlinear_arith)
                requires p == 4, 64 <= v < 128;
        } else if s == 3 {
            assert(255 <= v * p < 510) by (nonlinear_arith)
                requires p == 8, 32 <= v < 64;
        } else if s == 4 {
            assert(255 <= v * p < 510) by (nonlinear_arith)
                requires p == 16, 16 <= v < 32;
        } else if s == 5 {
            assert(255 <= v * p < 510) by (nonlinear_arith)
                requires p == 32, 8 <= v < 16;
        } else if s == 6 {
            assert(255 <= v * p < 510) by (nonlinear_arith)
                requires p == 64, 4 <= v < 8;
        } else if s == 7 {
            assert(255 <= v * p < 510) by (nonlinear_arith)
                requires p == 128, 2 <= v < 4;
        } else {
            assert(255 <= v * p < 510) by (nonlinear_arith)
                requires p == 256, v == 1;
        }
    }
    let vp2 = v * pow2(11 + s);
    assert(vp2 == 2048 * (v * p)) by (nonlinear_arith)
        requires vp2 == v * pow2(11 + s), pow2(11 + s) == 2 * (p * 1024);
    assert(2 * v * pow2(10 + s) == vp2) by (nonlinear_arith)
        requires vp2 == v * pow2(11 + s), pow2(11 + s) == 2 * (p * 1024), pow2(10 + s) == p
            * 1024;
    let q = unorm8_significand(v);
    assert(510 * q <= vp2 + 255 < 510 * q + 510) by {
        vstd::arithmetic::div_mod::lemma_fundamental_div_mod(vp2 + 255, 510);
        vstd::arithmetic::div_mod::lemma_mod_bound(vp2 + 255, 510);
    }
}

/// An 8-bit channel value survives the conversion to half precision and back:
/// the half-precision value nearest to v / 255, times 255 and rounded, is v.
pub proof fn lemma_unorm8_half_round_trip(v: u8)
    ensures
        spec_unorm8_from_half(spec_half_from_unorm8(v)) == v,
{
    lemma2_to64();
    if v == 0 {
        assert(half_magnitude(0) == 0);
    } else {
        lemma_half_from_unorm8_is_nearest(v);
        let s = unit_shift(v);
        let q = unorm8_significand(v);
        let h = spec_half_from_unorm8(v);
        let hi = (15 - s) * 1024 + q - 1024;
        assert(h as int == hi);
        let p = pow2(10 + s) as int;
        let r = pow2((14 - s) as nat) as int;
        vstd::arithmetic::power2::lemma_pow2_adds((14 - s) as nat, 10 + s);
        assert(((14 - s) as nat) + (10 + s) == 24);
        assert(r * p == pow2(24));
        assert(p >= 1024) by {
            vstd::arithmetic::power2::lemma_pow2_adds(s, 10);
            vstd::arithmetic::power2::lemma_pow2_pos(s);
            assert(p == pow2(s) * 1024);
        }
        assert(r > 0) by {
            vstd::arithmetic::power2::lemma_pow2_pos((14 - s) as nat);
        }
        // The magnitude of the half value, in units of 2^-24, is q * 2^(14 - s).
        if q < 2048 {
            assert(half_exponent(h) == 15 - s && half_mantissa(h) == q - 1024);
            assert(half_magnitude(h) == q * r);
        } else {
            assert(half_exponent(h) == 16 - s && half_mantissa(h) == 0);
            lemma_pow2_unfold((15 - s) as nat);
            assert(half_magnitude(h) == 1024 * (2 * r));
            assert(1024 * (2 * r) == q * r) by (nonlinear_arith)
                requires q == 2048;
        }
        assert(h < 32768 && half_exponent(h) != 31);
        let n = q * r * 255 + pow2(23);
        lemma_pow2_unfold(24);
        assert(pow2(23) * 2 == r * p);
        let rem = n - v * (r * p);
        assert(0 <= rem < r * p) by (nonlinear_arith)
            requires
                rem == q * r * 255 + pow2(23) - v * (r * p),
                pow2(23) * 2 == r * p,
                -255 <= 2 * v * p - 510 * q <= 255,
                p >= 1024,
                r > 0,
        ;
        vstd::arithmetic::div_mod::lemma_fundamental_div_mod_converse(n, r * p, v as int, rem);
        assert(half_magnitude(h) * 255 + pow2(23) == n) by (nonlinear_arith)
            requires half_magnitude(h) == q * r, n == q * r * 255 + pow2(23);
    }
}

/// The channel conversion is monotone: of two finite, non-negative
/// half-precision values, the larger never gives the smaller channel value.
pub proof fn lemma_unorm8_from_half_is_monotone(h1: u16, h2: u16)
    requires
        h1 < 32768,
        h2 < 32768,
        half_exponent(h1) != 31,
        half_exponent(h2) != 31,
        half_magnitude(h1) <= half_magnitude(h2),
    ensures
        spec_unorm8_from_half(h1) <= spec_unorm8_from_half(h2),
{
    lemma2_to64();
    vstd::arithmetic::div_mod::lemma_div_is_ordered(
        half_magnitude(h1) * 255 + pow2(23),
        half_magnitude(h2) * 255 + pow2(23),
        pow2(24) as int,
    );
}

/// The channel conversion clamps rather than wraps: a finite value of 1.0 or
/// more and positive infinity give 255; negative values and NaN give 0.
pub proof fn lemma_unorm8_from_half_clamps(h: u16)
    ensures
        h < 32768 && half_exponent(h) != 31 && half_magnitude(h) >= pow2(24)
            ==> spec_unorm8_from_half(h) == 255,
        h < 32768 && half_exponent(h) == 31 && half_mantissa(h) == 0
            ==> spec_unorm8_from_half(h) == 255,
        h >= 32768 ==> spec_unorm8_from_half(h) == 0,
        half_exponent(h) == 31 && half_mantissa(h) != 0 ==> spec_unorm8_from_half(h) == 0,
{
    lemma2_to64();
    if h < 32768 && half_exponent(h) != 31 && half_magnitude(h) >= pow2(24) {
        vstd::arithmetic::div_mod::lemma_div_is_ordered(
            (pow2(24) * 255) as int,
            half_magnitude(h) * 255 + pow2(23),
            pow2(24) as int,
        );
        vstd::arithmetic::div_mod::lemma_div_multiples_vanish(255, pow2(24) as int);
    }
}

} // verus!
