//! Half and single precision numbers.
use taraference::quant::{
    dequant_f32, f16_bits_to_f32_fast, f16_to_f32, f32_to_f16, f32_to_f16_bits_fast,
};

fn wide(h: u16) -> f32 {
    f32::from_bits(f16_to_f32(h))
}

fn half(v: f32) -> u16 {
    f32_to_f16(v.to_bits())
}

#[test]
fn dequant_f32_reads_little_endian() {
    let mut y = vec![0u32; 2];
    let mut bytes = Vec::new();
    bytes.extend_from_slice(&1.5f32.to_le_bytes());
    bytes.extend_from_slice(&(-2.0f32).to_le_bytes());
    dequant_f32(&bytes, &mut y);
    assert_eq!(f32::from_bits(y[0]), 1.5);
    assert_eq!(f32::from_bits(y[1]), -2.0);
}

#[test]
fn f16_roundtrip_common_values() {
    for v in [0.0f32, 1.0, -1.0, 0.5, 2.0, 65504.0, -0.25] {
        let back = wide(half(v));
        let err = (back - v).abs();
        let tol = (v.abs() * 1e-3).max(1e-3);
        assert!(err <= tol, "v={v} back={back} err={err}");
    }
}

#[test]
fn f16_inf_and_nan() {
    assert!(wide(half(f32::INFINITY)).is_infinite());
    assert!(wide(half(f32::NEG_INFINITY)).is_infinite());
    assert!(wide(half(f32::NAN)).is_nan());
}

#[test]
fn fast_f16_matches_normals() {
    for v in [1.0f32, -2.5, 0.125, 100.0] {
        let a = wide(half(v));
        let b = f32::from_bits(f16_bits_to_f32_fast(f32_to_f16_bits_fast(v.to_bits())));
        assert!((a - b).abs() < 1e-2 || (a - v).abs() < 1e-2);
    }
}

#[test]
fn widening_is_exact() {
    assert_eq!(f16_to_f32(0x0001), 2.0f32.powi(-24).to_bits());
    assert_eq!(f16_to_f32(0x03ff), (1023.0 * 2.0f32.powi(-24)).to_bits());
    assert_eq!(f16_to_f32(0x8000), (-0.0f32).to_bits());
    assert_eq!(f16_to_f32(0x7bff), 65504.0f32.to_bits());
    assert_eq!(f16_to_f32(0xfc00), f32::NEG_INFINITY.to_bits());
}

#[test]
fn narrowing_rounds_to_even() {
    assert_eq!(half(1.0 + 2.0f32.powi(-11)), 0x3c00);
    assert_eq!(half(1.0 + 3.0 * 2.0f32.powi(-11)), 0x3c02);
    assert_eq!(half(65520.0), 0x7c00);
    assert_eq!(half(65519.0), 0x7bff);
    assert_eq!(half(2.0f32.powi(-25)), 0x0000);
    assert_eq!(half(3.0 * 2.0f32.powi(-25)), 0x0002);
}

#[test]
fn every_half_comes_back() {
    for h in 0..=u16::MAX {
        let is_nan = (h & 0x7c00) == 0x7c00 && (h & 0x3ff) != 0;
        if !is_nan {
            assert_eq!(f32_to_f16(f16_to_f32(h)), h);
        }
    }
}

#[test]
fn fast_narrowing_drops_small_numbers() {
    assert_eq!(f32_to_f16_bits_fast((2.0f32.powi(-20)).to_bits()), 0x0000);
    assert_eq!(f32_to_f16_bits_fast((-1.0e9f32).to_bits()), 0xfc00);
    assert_eq!(f16_bits_to_f32_fast(0x0001), 0);
}

#[test]
fn fast_narrowing_carries_into_the_exponent() {
    assert_eq!(f32_to_f16_bits_fast(0x3fff_ffff), 0x4000);
    assert_eq!(f32_to_f16_bits_fast(0xbfff_ffff), 0xc000);
    assert_eq!(f32_to_f16_bits_fast(0x407f_ffff), 0x4400);
    assert_eq!(f32_to_f16_bits_fast(0x477f_ffff), 0x7c00);
    assert_eq!(f32_to_f16_bits_fast(0xc77f_ffff), 0xfc00);
    assert_eq!(f32_to_f16_bits_fast(0x477f_e000), 0x7bff);
}

#[test]
fn fast_narrowing_rounds_halves_up() {
    assert_eq!(f32_to_f16_bits_fast(0x3f80_1000), 0x3c01);
    assert_eq!(f32_to_f16(0x3f80_1000), 0x3c00);
    assert_eq!(f32_to_f16_bits_fast(0x3f80_3000), 0x3c02);
    assert_eq!(f32_to_f16(0x3f80_3000), 0x3c02);
}
