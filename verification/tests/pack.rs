use lilliput::bits::{FpFromBits, FpToBits};
use lilliput::extend::FpExtend;
use lilliput::floats::{F32, F64};
use lilliput::pack::FpPack;
use lilliput::packed::PackedFloat;

fn f32_of(value: f32) -> F32 {
    F32::from_bits(value.to_bits())
}

fn f64_of(value: f64) -> F64 {
    F64::from_bits(value.to_bits())
}

fn width(packed: &PackedFloat) -> u32 {
    match packed {
        PackedFloat::F8(_) => 8,
        PackedFloat::F16(_) => 16,
        PackedFloat::F24(_) => 24,
        PackedFloat::F32(_) => 32,
        PackedFloat::F40(_) => 40,
        PackedFloat::F48(_) => 48,
        PackedFloat::F56(_) => 56,
        PackedFloat::F64(_) => 64,
    }
}

fn exact_f32(a: F32, b: F32) -> bool {
    a.to_bits() == b.to_bits()
}

fn exact_f64(a: F64, b: F64) -> bool {
    a.to_bits() == b.to_bits()
}

fn anything_f32(_: F32, _: F32) -> bool {
    true
}

fn anything_f64(_: F64, _: F64) -> bool {
    true
}

#[test]
fn pack_optimal_f32_exact() {
    assert_eq!(width(&f32_of(1.0).pack_optimal(&exact_f32)), 8);
    assert_eq!(width(&f32_of(-0.5).pack_optimal(&exact_f32)), 8);
    assert_eq!(width(&f32_of(1000.0).pack_optimal(&exact_f32)), 16);
    assert_eq!(width(&f32_of(0.1).pack_optimal(&exact_f32)), 32);
    assert_eq!(width(&f32_of(1.0e10).pack_optimal(&exact_f32)), 32);
    assert_eq!(width(&f32_of(1024.0 * 1024.0 * 1024.0).pack_optimal(&exact_f32)), 24);
    match f32_of(1.0).pack_optimal(&exact_f32) {
        PackedFloat::F8(p) => assert_eq!(p.to_bits(), 0b0011_1000),
        other => panic!("unexpected {other:?}"),
    }
}

#[test]
fn pack_optimal_f32_lenient() {
    assert_eq!(width(&f32_of(0.1).pack_optimal(&anything_f32)), 8);
    assert_eq!(width(&f32_of(1.0e10).pack_optimal(&anything_f32)), 24);
    assert_eq!(width(&f32_of(1.0e30).pack_optimal(&anything_f32)), 32);
    assert_eq!(width(&f32_of(f32::NAN).pack_optimal(&anything_f32)), 8);
    assert_eq!(width(&f32_of(f32::INFINITY).pack_optimal(&anything_f32)), 8);
    // a value whose category changes in every narrower format stays
    assert_eq!(width(&F32::from_bits(1).pack_optimal(&anything_f32)), 32);
}

#[test]
fn pack_native_f32_keeps_the_value() {
    match f32_of(1.0).pack_native(&anything_f32) {
        PackedFloat::F32(p) => assert_eq!(p.to_bits(), 1.0_f32.to_bits()),
        other => panic!("unexpected {other:?}"),
    }
}

#[test]
fn pack_optimal_f64() {
    assert_eq!(width(&f64_of(1.0).pack_optimal(&exact_f64)), 8);
    assert_eq!(width(&f64_of(0.1).pack_optimal(&exact_f64)), 64);
    assert_eq!(width(&f64_of(0.1).pack_optimal(&anything_f64)), 8);
    assert_eq!(width(&f64_of(1.0e10).pack_optimal(&anything_f64)), 24);
    assert_eq!(width(&f64_of(1.0e50).pack_optimal(&anything_f64)), 48);
    assert_eq!(width(&f64_of(1.0e100).pack_optimal(&anything_f64)), 56);
    assert_eq!(width(&f64_of(1.0e300).pack_optimal(&anything_f64)), 64);
    assert_eq!(width(&f64_of(1.0e30).pack_optimal(&anything_f64)), 32);
    assert_eq!(width(&f64_of(1.0e40).pack_optimal(&anything_f64)), 48);
    let fine = 1.0_f64 + 1.0 / (1u64 << 30) as f64;
    assert_eq!(width(&f64_of(fine).pack_optimal(&exact_f64)), 40);
    assert_eq!(width(&f64_of(0.1_f32 as f64).pack_optimal(&exact_f64)), 32);
}

#[test]
fn pack_native_f64() {
    match f64_of(0.5).pack_native(&exact_f64) {
        PackedFloat::F32(p) => assert_eq!(p.to_bits(), 0.5_f32.to_bits()),
        other => panic!("unexpected {other:?}"),
    }
    assert_eq!(width(&f64_of(0.1).pack_native(&exact_f64)), 64);
}

#[test]
fn pack_hands_the_validator_the_value_carried_back() {
    let seen = std::cell::RefCell::new(Vec::new());
    let validate = |a: F64, b: F64| {
        seen.borrow_mut().push((a.to_bits(), b.to_bits()));
        false
    };
    let x = f64_of(0.1);
    assert_eq!(width(&x.pack_native(&validate)), 64);
    let calls = seen.borrow();
    assert_eq!(calls.len(), 1);
    assert_eq!(calls[0].0, 0.1_f64.to_bits());
    assert_eq!(calls[0].1, ((0.1_f64 as f32) as f64).to_bits());
}

fn carried_back_f64(packed: PackedFloat) -> u64 {
    let wide: F64 = match packed {
        PackedFloat::F8(p) => p.extend(),
        PackedFloat::F16(p) => p.extend(),
        PackedFloat::F24(p) => p.extend(),
        PackedFloat::F32(p) => p.extend(),
        PackedFloat::F40(p) => p.extend(),
        PackedFloat::F48(p) => p.extend(),
        PackedFloat::F56(p) => p.extend(),
        PackedFloat::F64(p) => p,
    };
    wide.to_bits()
}

#[test]
fn exact_validator_packs_losslessly() {
    let values = [
        0.0_f64, -0.0, 1.0, -1.5, 0.1, 1.0e-310, 3.0e38, 1.0e100, 2.0e-8, 65504.0, 1.0e300,
    ];
    for value in values {
        let packed = f64_of(value).pack_optimal(&exact_f64);
        assert_eq!(carried_back_f64(packed), value.to_bits(), "value {value:e}");
        let packed = f64_of(value).pack_native(&exact_f64);
        assert_eq!(carried_back_f64(packed), value.to_bits(), "value {value:e}");
    }
}
