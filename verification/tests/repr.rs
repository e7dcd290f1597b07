use lilliput::bits::{FpFromBits, FpToBits};
use lilliput::floats::{F32, F64};
use lilliput::repr::FpRepr;

fn f32_bits(value: f32) -> F32 {
    F32::from_bits(value.to_bits())
}

fn f64_bits(value: f64) -> F64 {
    F64::from_bits(value.to_bits())
}

#[test]
fn f32_matches_native_behavior() {
    assert_eq!(F32::zero(), f32_bits(0.0_f32));
    assert_eq!(F32::one(), f32_bits(1.0_f32));
    assert_eq!(F32::min(), f32_bits(f32::MIN));
    assert_eq!(F32::max(), f32_bits(f32::MAX));
    assert_eq!(F32::min_positive(), f32_bits(f32::MIN_POSITIVE));
    assert_eq!(F32::infinity(), f32_bits(f32::INFINITY));
    assert_eq!(F32::neg_infinity(), f32_bits(f32::NEG_INFINITY));
}

#[test]
fn f64_matches_native_behavior() {
    assert_eq!(F64::zero(), f64_bits(0.0_f64));
    assert_eq!(F64::one(), f64_bits(1.0_f64));
    assert_eq!(F64::min(), f64_bits(f64::MIN));
    assert_eq!(F64::max(), f64_bits(f64::MAX));
    assert_eq!(F64::min_positive(), f64_bits(f64::MIN_POSITIVE));
    assert_eq!(F64::infinity(), f64_bits(f64::INFINITY));
    assert_eq!(F64::neg_infinity(), f64_bits(f64::NEG_INFINITY));
}

#[test]
fn constants_have_native_bits() {
    assert_eq!(F32::one().to_bits(), 1.0_f32.to_bits());
    assert_eq!(F32::min().to_bits(), f32::MIN.to_bits());
    assert_eq!(F64::max().to_bits(), f64::MAX.to_bits());
    assert_eq!(F64::neg_infinity().to_bits(), f64::NEG_INFINITY.to_bits());
}
