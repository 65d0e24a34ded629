use color::binary64::quantize;
use color::Color;

fn scaled(intensity: f64) -> u64 {
    (intensity * 255.).to_bits()
}

fn scaled_single(intensity: f32) -> u64 {
    ((intensity * 255.) as f64).to_bits()
}

fn clamp_then_cast(x: f64) -> u8 {
    x.clamp(0., 255.) as u8
}

#[test]
fn unit_interval_boundaries_truncate() {
    assert_eq!(quantize(scaled(0.0)), 0);
    assert_eq!(quantize(scaled(0.5)), 127);
    assert_eq!(quantize(scaled(0.999999)), 254);
    assert_eq!(quantize(scaled(1.0)), 255);
}

#[test]
fn out_of_range_intensities_clamp() {
    assert_eq!(quantize(scaled(-1.0)), 0);
    assert_eq!(quantize(scaled(2.0)), 255);
    assert_eq!(quantize(scaled(-0.001)), 0);
    assert_eq!(quantize(scaled(1.001)), 255);
    assert_eq!(quantize(scaled(1e300)), 255);
    assert_eq!(quantize(scaled(-1e300)), 0);
}

#[test]
fn known_bit_patterns() {
    assert_eq!(quantize(0x0000_0000_0000_0000), 0);
    assert_eq!(quantize(0x405f_e000_0000_0000), 127);
    assert_eq!(quantize(0x406f_dffd_e939_eadd), 254);
    assert_eq!(quantize(0x406f_e000_0000_0000), 255);
    assert_eq!(quantize(0xc06f_e000_0000_0000), 0);
    assert_eq!(quantize(0x407f_e000_0000_0000), 255);
    assert_eq!(quantize(0x3ff0_0000_0000_0000), 1);
    assert_eq!(quantize(0x3fef_ffff_ffff_ffff), 0);
    assert_eq!(quantize(0x4000_0000_0000_0000), 2);
}

#[test]
fn truncation_is_not_rounding() {
    assert_eq!(quantize(0.999_999_999f64.to_bits()), 0);
    assert_eq!(quantize(1.5f64.to_bits()), 1);
    assert_eq!(quantize(1.999_999f64.to_bits()), 1);
    assert_eq!(quantize(127.5f64.to_bits()), 127);
    assert_eq!(quantize(254.5f64.to_bits()), 254);
    assert_eq!(quantize(254.999_999_999_999f64.to_bits()), 254);
    assert_eq!(quantize(255.0f64.to_bits()), 255);
    assert_eq!(quantize(255.999f64.to_bits()), 255);
    assert_eq!(quantize(256.0f64.to_bits()), 255);
}

#[test]
fn special_values() {
    assert_eq!(quantize(f64::NAN.to_bits()), 0);
    assert_eq!(quantize((-f64::NAN).to_bits()), 0);
    assert_eq!(quantize(0x7ff0_0000_0000_0001), 0);
    assert_eq!(quantize(0x7fff_ffff_ffff_ffff), 0);
    assert_eq!(quantize(0xfff8_0000_0000_0000), 0);
    assert_eq!(quantize(f64::INFINITY.to_bits()), 255);
    assert_eq!(quantize(f64::NEG_INFINITY.to_bits()), 0);
    assert_eq!(quantize((-0.0f64).to_bits()), 0);
    assert_eq!(quantize(f64::MIN_POSITIVE.to_bits()), 0);
    assert_eq!(quantize(0x0000_0000_0000_0001), 0);
    assert_eq!(quantize(0x000f_ffff_ffff_ffff), 0);
    assert_eq!(quantize(f64::MAX.to_bits()), 255);
    assert_eq!(quantize(f64::MIN.to_bits()), 0);
    assert_eq!(quantize(f64::EPSILON.to_bits()), 0);
}

#[test]
fn every_whole_number_and_its_neighbours() {
    for n in 0..=300u32 {
        let x = n as f64;
        let expected = if n > 255 { 255 } else { n as u8 };
        assert_eq!(quantize(x.to_bits()), expected);
        let above = f64::from_bits(x.to_bits() + 1);
        assert_eq!(quantize(above.to_bits()), expected);
        if n > 0 {
            let below = f64::from_bits(x.to_bits() - 1);
            let expected_below = if n > 255 { 255 } else { (n - 1) as u8 };
            assert_eq!(quantize(below.to_bits()), expected_below);
        }
    }
}

#[test]
fn agrees_with_clamp_and_cast_on_a_fine_grid() {
    let mut k: i32 = -2 * 64;
    while k <= 258 * 64 {
        let x = k as f64 / 64.;
        assert_eq!(quantize(x.to_bits()), clamp_then_cast(x));
        k += 1;
    }
}

#[test]
fn agrees_with_clamp_and_cast_on_every_exponent() {
    let fractions: [u64; 7] = [
        0,
        1,
        0x8_0000_0000_0000,
        0xf_ffff_ffff_ffff,
        0xf_e000_0000_0000,
        0xf_dfff_ffff_ffff,
        0x5_5555_5555_5555,
    ];
    for exponent in 0..=0x7ffu64 {
        for fraction in fractions {
            for sign in [0u64, 1] {
                let bits = (sign << 63) | (exponent << 52) | fraction;
                assert_eq!(quantize(bits), clamp_then_cast(f64::from_bits(bits)));
            }
        }
    }
}

#[test]
fn agrees_with_clamp_and_cast_on_scattered_patterns() {
    let mut bits: u64 = 0x9e37_79b9_7f4a_7c15;
    for _ in 0..200_000 {
        bits ^= bits << 13;
        bits ^= bits >> 7;
        bits ^= bits << 17;
        assert_eq!(quantize(bits), clamp_then_cast(f64::from_bits(bits)));
        let in_range = (bits & 0x000f_ffff_ffff_ffff) | ((1023 + (bits >> 61)) << 52);
        assert_eq!(quantize(in_range), clamp_then_cast(f64::from_bits(in_range)));
    }
}

#[test]
fn scaled_constructors_quantize_each_channel() {
    let c = Color::rgb_scaled(scaled(0.0), scaled(0.5), scaled(0.999999));
    assert_eq!(c, Color(0, 127, 254, 255));
    let d = Color::rgba_scaled(scaled(1.0), scaled(-1.0), scaled(2.0), scaled(0.5));
    assert_eq!(d, Color(255, 0, 255, 127));
    let e = Color::rgba_scaled(scaled(0.25), scaled(0.75), scaled(0.1), scaled(0.0));
    assert_eq!(e, Color(63, 191, 25, 0));
}

#[test]
fn grey_levels_from_one_intensity() {
    for (f, byte) in [(0.0, 0u8), (0.5, 127), (0.999999, 254), (1.0, 255), (-1.0, 0), (2.0, 255)] {
        let c = Color::rgb_scaled(scaled(f), scaled(f), scaled(f));
        assert_eq!(c.r(), byte);
        assert_eq!(c, Color(byte, byte, byte, 255));
    }
}

#[test]
fn rgb_scaled_is_opaque_whatever_comes_in() {
    let inputs = [f64::NAN, f64::INFINITY, f64::NEG_INFINITY, -3.5, 0.0, 0.3, 1.0, 77.0];
    for r in inputs {
        for g in inputs {
            let c = Color::rgb_scaled(scaled(r), scaled(g), scaled(0.5));
            assert_eq!(c.a(), 255);
            assert_eq!(c.r(), clamp_then_cast(r * 255.));
            assert_eq!(c.g(), clamp_then_cast(g * 255.));
            assert_eq!(c.b(), 127);
        }
    }
}

#[test]
fn rgba_scaled_treats_alpha_like_the_rest() {
    let inputs = [f64::NAN, f64::INFINITY, -1.0, 0.0, 0.5, 0.999999, 1.0, 19966.5];
    for a in inputs {
        let c = Color::rgba_scaled(scaled(0.5), scaled(0.5), scaled(0.5), scaled(a));
        assert_eq!(c.a(), clamp_then_cast(a * 255.));
        assert_eq!((c.r(), c.g(), c.b()), (127, 127, 127));
    }
}

#[test]
fn single_precision_intensities_widen_exactly() {
    assert_eq!(quantize(scaled_single(0.0)), 0);
    assert_eq!(quantize(scaled_single(0.5)), 127);
    assert_eq!(quantize(scaled_single(1.0)), 255);
    assert_eq!(quantize(scaled_single(-1.0)), 0);
    assert_eq!(quantize(scaled_single(2.0)), 255);
    assert_eq!(quantize(scaled_single(f32::NAN)), 0);
    assert_eq!(quantize(scaled_single(f32::INFINITY)), 255);
    let mut k: u32 = 0;
    while k <= 4096 {
        let f = k as f32 / 4096.;
        let native = (f * 255.).clamp(0., 255.) as u8;
        assert_eq!(quantize(scaled_single(f)), native);
        k += 1;
    }
}

#[test]
fn round_trip_stays_within_one_step() {
    for v in 0..=255u8 {
        let c = Color::rgba(v, 255 - v, v / 2, v.wrapping_mul(7));
        let back = Color::rgba_scaled(
            scaled(c.r() as f64 / 255.),
            scaled(c.g() as f64 / 255.),
            scaled(c.b() as f64 / 255.),
            scaled(c.a() as f64 / 255.),
        );
        assert!((back.r() as i32 - c.r() as i32).abs() <= 1);
        assert!((back.g() as i32 - c.g() as i32).abs() <= 1);
        assert!((back.b() as i32 - c.b() as i32).abs() <= 1);
        assert!((back.a() as i32 - c.a() as i32).abs() <= 1);
        assert!(back.r() <= c.r() && back.g() <= c.g() && back.b() <= c.b() && back.a() <= c.a());
    }
}

#[test]
fn round_trip_through_single_precision_stays_within_one_step() {
    for v in 0..=255u8 {
        let exported = [v as f32 / 255., (255 - v) as f32 / 255.];
        let back = Color::rgb_scaled(
            scaled(exported[0] as f64),
            scaled(exported[1] as f64),
            scaled(0.),
        );
        assert!((back.r() as i32 - v as i32).abs() <= 1);
        assert!((back.g() as i32 - (255 - v) as i32).abs() <= 1);
    }
    assert_eq!(0u8 as f32 / 255., 0.0);
    assert_eq!(255u8 as f32 / 255., 1.0);
}
