use lilliput::bits::{FpFromBits, FpToBits};
use lilliput::classify::{FpCategory, FpClassify};
use lilliput::extend::FpExtend;
use lilliput::floats::{F16, F24, F32, F40, F64, F8};
use lilliput::truncate::{FpTruncate, FpTruncateError};

fn f32_samples() -> Vec<f32> {
    let mut values = vec![
        0.0_f32,
        -0.0,
        1.0,
        -1.0,
        0.1,
        -2.5,
        3.141_592_7,
        1.0e-3,
        6.0e4,
        1.0e30,
        -1.0e-30,
        f32::MIN,
        f32::MAX,
        f32::MIN_POSITIVE,
        f32::EPSILON,
        f32::INFINITY,
        f32::NEG_INFINITY,
        f32::NAN,
        f32::from_bits(1),
        f32::from_bits(0x0000_0100),
        f32::from_bits(0x007f_ffff),
        f32::from_bits(0x8040_0001),
        f32::from_bits(0x7fc0_1234),
    ];
    let mut bits: u32 = 0x1234_5678;
    for _ in 0..2000 {
        bits = bits.wrapping_mul(1_664_525).wrapping_add(1_013_904_223);
        values.push(f32::from_bits(bits));
    }
    values
}

fn f64_samples() -> Vec<f64> {
    let mut values = vec![
        0.0_f64,
        -0.0,
        1.0,
        -1.0,
        0.1,
        1.0e-40,
        -1.0e-45,
        1.0e-320,
        3.4e38,
        3.5e38,
        1.0e300,
        f64::MIN,
        f64::MAX,
        f64::MIN_POSITIVE,
        f64::INFINITY,
        f64::NEG_INFINITY,
        f64::NAN,
        f64::from_bits(0x7ff8_0000_dead_beef),
        f64::from(f32::MAX) + 1.0e22,
        f64::from(f32::from_bits(1)) * 0.5,
        f64::from(f32::from_bits(1)) * 0.75,
        f64::from(f32::from_bits(3)) * 0.5,
    ];
    let mut bits: u64 = 0x0123_4567_89ab_cdef;
    for _ in 0..2000 {
        bits = bits
            .wrapping_mul(6_364_136_223_846_793_005)
            .wrapping_add(1_442_695_040_888_963_407);
        values.push(f64::from_bits(bits));
    }
    values
}

fn native_category_f32(value: f32) -> FpCategory {
    match value.classify() {
        std::num::FpCategory::Nan => FpCategory::Nan,
        std::num::FpCategory::Infinite => FpCategory::Infinite,
        std::num::FpCategory::Zero => FpCategory::Zero,
        std::num::FpCategory::Subnormal => FpCategory::Subnormal,
        std::num::FpCategory::Normal => FpCategory::Normal,
    }
}

fn native_category_f64(value: f64) -> FpCategory {
    match value.classify() {
        std::num::FpCategory::Nan => FpCategory::Nan,
        std::num::FpCategory::Infinite => FpCategory::Infinite,
        std::num::FpCategory::Zero => FpCategory::Zero,
        std::num::FpCategory::Subnormal => FpCategory::Subnormal,
        std::num::FpCategory::Normal => FpCategory::Normal,
    }
}

#[test]
fn classify_matches_native() {
    for value in f32_samples() {
        assert_eq!(F32::from_bits(value.to_bits()).classify(), native_category_f32(value));
    }
    for value in f64_samples() {
        assert_eq!(F64::from_bits(value.to_bits()).classify(), native_category_f64(value));
    }
}

#[test]
fn f32_to_f64_matches_native_behavior() {
    for value in f32_samples() {
        let actual: F64 = F32::from_bits(value.to_bits()).extend();
        let expected = (value as f64).to_bits();
        if value.is_nan() {
            assert!(f64::from_bits(actual.to_bits()).is_nan());
            assert_eq!(actual.to_bits() & (1 << 51), 1 << 51);
        } else {
            assert_eq!(actual.to_bits(), expected, "value {value:e}");
        }
    }
}

#[test]
fn extend_keeps_signaling_payload_below_f64() {
    // a signaling NaN of F32 (quiet bit clear, payload 1)
    let snan = F32::from_bits(0x7f80_0001);
    let wide: F40 = snan.extend();
    assert_eq!(wide.to_bits(), 0x7f_8000_0100);
    // to F64 the conversion quiets it, as the native cast does
    let wide64: F64 = snan.extend();
    assert_eq!(wide64.to_bits(), 0x7ff8_0000_2000_0000);
}

#[test]
fn f64_to_f32_matches_native_behavior() {
    for value in f64_samples() {
        let actual: F32 = F64::from_bits(value.to_bits()).truncate();
        let expected = value as f32;
        if value.is_nan() {
            assert!(f32::from_bits(actual.to_bits()).is_nan());
        } else {
            assert_eq!(actual.to_bits(), expected.to_bits(), "value {value:e}");
        }
    }
}

#[test]
fn extend_then_truncate_gives_back_the_value() {
    for bits in 0..=u8::MAX {
        let x = F8::from_bits(bits);
        let wide: F16 = x.extend();
        let back: F8 = wide.truncate();
        let wide24: F24 = x.extend();
        let back24: F8 = wide24.truncate();
        if x.is_nan() {
            assert_eq!(back.to_bits(), bits | 0b0000_0100);
            assert_eq!(back24.to_bits(), bits | 0b0000_0100);
        } else {
            assert_eq!(back.to_bits(), bits);
            assert_eq!(back24.to_bits(), bits);
        }
    }
    for value in f32_samples() {
        let x = F32::from_bits(value.to_bits());
        let wide: F64 = x.extend();
        let back: F32 = wide.truncate();
        if value.is_nan() {
            assert_eq!(back.to_bits(), value.to_bits() | 0x0040_0000);
        } else {
            assert_eq!(back.to_bits(), value.to_bits());
        }
    }
}

#[test]
fn extend_normalizes_subnormals() {
    // the smallest subnormal of F8 is 2^-9, a normal number of F16
    let x = F8::from_bits(0b0000_0001);
    assert_eq!(x.classify(), FpCategory::Subnormal);
    let wide: F16 = x.extend();
    assert_eq!(wide.classify(), FpCategory::Normal);
    // 2^-9 in F16: exponent -9 + 15 = 6, significand zero
    assert_eq!(wide.to_bits(), 6 << 10);
}

#[test]
fn truncate_rounds_to_nearest_even() {
    // 1 + 2^-4 lies halfway between 1 and 1 + 2^-3 in F8: ties to even gives 1
    let halfway = F32::from_bits((1.0_f32 + 0.0625).to_bits());
    let r: F8 = halfway.truncate();
    assert_eq!(r.to_bits(), 0b0011_1000);
    // 1 + 3 * 2^-4 lies halfway between 1 + 2^-3 and 1 + 2^-2: ties to even rounds up
    let halfway = F32::from_bits((1.0_f32 + 0.1875).to_bits());
    let r: F8 = halfway.truncate();
    assert_eq!(r.to_bits(), 0b0011_1010);
    // just above halfway rounds up
    let above = F32::from_bits((1.0_f32 + 0.0625 + 0.001).to_bits());
    let r: F8 = above.truncate();
    assert_eq!(r.to_bits(), 0b0011_1001);
}

#[test]
fn try_truncate_reports_category_changes() {
    let big = F32::from_bits(1.0e10_f32.to_bits());
    assert_eq!(FpTruncate::<F16>::try_truncate(big).err(), Some(FpTruncateError::Overflow));
    let tiny = F32::from_bits(1.0e-10_f32.to_bits());
    assert_eq!(FpTruncate::<F16>::try_truncate(tiny).err(), Some(FpTruncateError::Underflow));
    let subnormal = F32::from_bits(1);
    assert_eq!(FpTruncate::<F8>::try_truncate(subnormal).err(), Some(FpTruncateError::Underflow));
    let one = F32::from_bits(1.0_f32.to_bits());
    let r: Result<F16, FpTruncateError> = one.try_truncate();
    assert_eq!(r.ok().map(|v| v.to_bits()), Some(0x3c00));
    let nan = F64::from_bits(f64::NAN.to_bits());
    let r: Result<F8, FpTruncateError> = nan.try_truncate();
    assert!(r.ok().map(|v| v.is_nan()).unwrap_or(false));
}

fn assert_valid_category(before: FpCategory, after: FpCategory) {
    match before {
        FpCategory::Nan => assert_eq!(after, FpCategory::Nan),
        FpCategory::Infinite => assert_eq!(after, FpCategory::Infinite),
        FpCategory::Zero => assert_eq!(after, FpCategory::Zero),
        FpCategory::Subnormal => assert!(matches!(
            after,
            FpCategory::Zero | FpCategory::Subnormal | FpCategory::Infinite
        )),
        FpCategory::Normal => assert!(matches!(
            after,
            FpCategory::Zero | FpCategory::Subnormal | FpCategory::Normal | FpCategory::Infinite
        )),
    }
}

fn check_roundtrip_categories<S, T>(subject: S)
where
    S: FpTruncate<T> + FpClassify,
    T: FpExtend<S> + FpClassify,
{
    let (src_actual, dst_actual): (S, T) = lilliput::extend::truncate_roundtrip::<S, T>(subject);
    assert_valid_category(subject.classify(), src_actual.classify());
    assert_valid_category(subject.classify(), dst_actual.classify());
}

#[test]
fn truncate_f32_keeps_valid_categories() {
    for value in f32_samples() {
        let subject = F32::from_bits(value.to_bits());
        check_roundtrip_categories::<F32, F8>(subject);
        check_roundtrip_categories::<F32, F16>(subject);
        check_roundtrip_categories::<F32, F24>(subject);
    }
}

#[test]
fn truncate_f64_keeps_valid_categories() {
    for value in f64_samples() {
        let subject = F64::from_bits(value.to_bits());
        check_roundtrip_categories::<F64, F8>(subject);
        check_roundtrip_categories::<F64, F16>(subject);
        check_roundtrip_categories::<F64, F24>(subject);
        check_roundtrip_categories::<F64, F32>(subject);
        check_roundtrip_categories::<F64, lilliput::floats::F40>(subject);
        check_roundtrip_categories::<F64, lilliput::floats::F48>(subject);
        check_roundtrip_categories::<F64, lilliput::floats::F56>(subject);
    }
}

#[test]
fn truncate_f64_to_f32_roundtrip_matches_native() {
    for value in f64_samples() {
        let subject = F64::from_bits(value.to_bits());
        let (src_actual, dst_actual): (F64, F32) =
            lilliput::extend::truncate_roundtrip::<F64, F32>(subject);
        let dst_native = value as f32;
        let src_native = dst_native as f64;
        if value.is_nan() {
            assert!(f32::from_bits(dst_actual.to_bits()).is_nan());
            assert!(f64::from_bits(src_actual.to_bits()).is_nan());
        } else {
            assert_eq!(dst_actual.to_bits(), dst_native.to_bits());
            assert_eq!(src_actual.to_bits(), src_native.to_bits());
        }
    }
}

#[test]
fn truncate_below_normal_range() {
    // from a type without padding: 1.5 * 2^-25 lies halfway between the
    // subnormals 2^-24 and 2 * 2^-24 of F16, and ties to even gives 2 * 2^-24
    let x = F32::from_bits((1.5_f32 * (2.0_f32).powi(-25) * 2.0).to_bits());
    let r: F16 = x.truncate();
    assert_eq!(r.to_bits(), 0x0002);
    let y = F32::from_bits((1.5_f32 * (2.0_f32).powi(-25)).to_bits());
    let r: F16 = y.truncate();
    assert_eq!(r.to_bits(), 0x0001);
    let w = F32::from_bits((2.5_f32 * (2.0_f32).powi(-24)).to_bits());
    let r: F16 = w.truncate();
    assert_eq!(r.to_bits(), 0x0002);
    // from F24, whose storage has padding bits, a tie rounds to even too
    let z = F24::from_bits(0x002f_0280);
    let r: F16 = z.truncate();
    assert_eq!(r.to_bits(), 0x0102);
    let t = F24::from_bits(0x0030_0040);
    let r: F16 = t.truncate();
    assert_eq!(r.to_bits(), 0x0200);
}

#[test]
fn equal_exponent_widths_keep_zeros_and_subnormals() {
    // F32 and F40 share their exponent width: zero stays zero both ways
    let zero40 = F40::from_bits(0);
    let r: F32 = zero40.truncate();
    assert_eq!(r.to_bits(), 0);
    let neg_zero40 = F40::from_bits(0x80_0000_0000);
    let r: F32 = neg_zero40.truncate();
    assert_eq!(r.to_bits(), 0x8000_0000);
    assert_eq!(FpTruncate::<F32>::try_truncate(zero40).ok().map(|v| v.to_bits()), Some(0));
    // subnormals stay subnormal, shifted by the extra significand bits
    for bits in [1_u32, 2, 3, 0x0040_0000, 0x007f_ffff, 0x8000_0001] {
        let x = F32::from_bits(bits);
        let wide: F40 = x.extend();
        assert_eq!(wide.classify(), FpCategory::Subnormal);
        assert_eq!(wide.to_bits() & 0x7f_ffff_ffff, u64::from(bits & 0x7fff_ffff) << 8);
        let back: F32 = wide.truncate();
        assert_eq!(back.to_bits(), bits);
    }
    // a subnormal of F40 rounds on the subnormal grid of F32
    let tiny = F40::from_bits(0x180);
    let r: F32 = tiny.truncate();
    assert_eq!(r.to_bits(), 2);
}
