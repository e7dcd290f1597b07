use std::cmp::Ordering;

use lilliput::value::integer::{IntValue, SignedIntValue, UnsignedIntValue};
use lilliput::value::{BoolValue, BytesValue, NullValue, StringValue, UnitValue};

fn signed_values(v: i8) -> [IntValue; 4] {
    [
        IntValue::from(v),
        IntValue::from(v as i16),
        IntValue::from(v as i32),
        IntValue::from(v as i64),
    ]
}

fn unsigned_values(v: u8) -> [IntValue; 4] {
    [
        IntValue::from(v),
        IntValue::from(v as u16),
        IntValue::from(v as u32),
        IntValue::from(v as u64),
    ]
}

#[test]
fn int_value_eq_across_widths_and_signedness() {
    for signed in i8::MIN..=i8::MAX {
        for unsigned in u8::MIN..=u8::MAX {
            for lhs in &signed_values(signed) {
                for rhs in &signed_values(signed) {
                    assert_eq!(lhs, rhs);
                }
            }
            for lhs in &unsigned_values(unsigned) {
                for rhs in &unsigned_values(unsigned) {
                    assert_eq!(lhs, rhs);
                }
            }
            for lhs in &signed_values(signed) {
                for rhs in &unsigned_values(unsigned) {
                    if u8::try_from(signed) == Ok(unsigned) {
                        assert_eq!(lhs, rhs);
                        assert_eq!(rhs, lhs);
                    } else {
                        assert_ne!(lhs, rhs);
                        assert_ne!(rhs, lhs);
                    }
                }
            }
        }
    }
}

#[test]
fn int_value_order_across_widths_and_signedness() {
    for signed in i8::MIN..=i8::MAX {
        for unsigned in u8::MIN..=u8::MAX {
            for lhs in &signed_values(signed) {
                for rhs in &unsigned_values(unsigned) {
                    let ordering = lhs.partial_cmp(rhs);
                    if let Ok(positive) = u8::try_from(signed) {
                        assert_eq!(ordering, Some(positive.cmp(&unsigned)));
                    } else {
                        assert_eq!(ordering, Some(Ordering::Less));
                    }
                    assert_eq!(rhs.partial_cmp(lhs), ordering.map(Ordering::reverse));
                }
            }
        }
    }
}

#[test]
fn signed_int_value_order_matches_integers() {
    for lhs in i8::MIN..=i8::MAX {
        for rhs in i8::MIN..=i8::MAX {
            let l = [
                SignedIntValue::I8(lhs),
                SignedIntValue::I16(lhs as i16),
                SignedIntValue::I64(lhs as i64),
            ];
            let r = [SignedIntValue::I8(rhs), SignedIntValue::I32(rhs as i32)];
            for a in &l {
                for b in &r {
                    assert_eq!(a == b, lhs == rhs);
                    assert_eq!(a.partial_cmp(b), Some(lhs.cmp(&rhs)));
                }
            }
        }
    }
}

#[test]
fn unsigned_int_value_order_matches_integers() {
    for lhs in u8::MIN..=u8::MAX {
        for rhs in u8::MIN..=u8::MAX {
            let a = UnsignedIntValue::U16(lhs as u16);
            let b = UnsignedIntValue::U64(rhs as u64);
            assert_eq!(a == b, lhs == rhs);
            assert_eq!(a.partial_cmp(&b), Some(lhs.cmp(&rhs)));
        }
    }
}

#[test]
fn to_unsigned_keeps_width_and_rejects_negatives() {
    assert!(matches!(SignedIntValue::I8(5).to_unsigned(), Ok(UnsignedIntValue::U8(5))));
    assert!(matches!(SignedIntValue::I16(300).to_unsigned(), Ok(UnsignedIntValue::U16(300))));
    assert!(matches!(SignedIntValue::I32(0).to_unsigned(), Ok(UnsignedIntValue::U32(0))));
    assert!(matches!(
        SignedIntValue::I64(i64::MAX).to_unsigned(),
        Ok(UnsignedIntValue::U64(0x7fff_ffff_ffff_ffff))
    ));
    assert!(SignedIntValue::I8(-1).to_unsigned().is_err());
    assert!(SignedIntValue::I64(i64::MIN).to_unsigned().is_err());
}

#[test]
fn to_signed_widens_when_needed() {
    assert!(matches!(UnsignedIntValue::U8(127).to_signed(), Ok(SignedIntValue::I8(127))));
    assert!(matches!(UnsignedIntValue::U8(200).to_signed(), Ok(SignedIntValue::I16(200))));
    assert!(matches!(UnsignedIntValue::U16(40000).to_signed(), Ok(SignedIntValue::I32(40000))));
    assert!(matches!(
        UnsignedIntValue::U32(3_000_000_000).to_signed(),
        Ok(SignedIntValue::I64(3_000_000_000))
    ));
    assert!(matches!(
        UnsignedIntValue::U64(0x7fff_ffff_ffff_ffff).to_signed(),
        Ok(SignedIntValue::I64(i64::MAX))
    ));
    assert!(UnsignedIntValue::U64(u64::MAX).to_signed().is_err());
}

#[test]
fn int_value_defaults_and_signedness() {
    assert!(matches!(IntValue::default(), IntValue::Unsigned(UnsignedIntValue::U8(0))));
    assert!(matches!(SignedIntValue::default(), SignedIntValue::I8(0)));
    assert!(IntValue::from(-3_i16).is_signed());
    assert!(!IntValue::from(3_u16).is_signed());
    assert_eq!(SignedIntValue::I16(-7).canonicalized(), -7);
    assert_eq!(UnsignedIntValue::U32(7).canonicalized(), 7);
}

#[test]
fn bytes_value_accessors() {
    let value = BytesValue::from(vec![1, 2, 3]);
    assert_eq!(value.as_slice(), &[1, 2, 3]);
    assert_eq!(value.clone().into_vec(), vec![1, 2, 3]);
    assert_eq!(Vec::<u8>::from(value), vec![1, 2, 3]);
    assert_eq!(BytesValue::default().as_slice(), &[] as &[u8]);
}

#[test]
fn string_value_accessors() {
    let value = StringValue::from("lorem ipsum".to_owned());
    assert_eq!(value.as_str(), "lorem ipsum");
    assert_eq!(value.len(), 11);
    assert!(!value.is_empty());
    assert!(StringValue::default().is_empty());
    assert_eq!(StringValue::from("äö".to_owned()).len(), 4);
    assert_eq!(String::from(value), "lorem ipsum");
}

#[test]
fn small_values() {
    assert_eq!(UnitValue::from(()), UnitValue::default());
    assert_eq!(NullValue::from(()), NullValue);
    assert!(bool::from(BoolValue::from(true)));
    assert_eq!(BoolValue::default(), BoolValue(false));
}

#[test]
fn try_from_int_values() {
    assert_eq!(i8::try_from(SignedIntValue::I64(-128)), Ok(-128_i8));
    assert!(i8::try_from(SignedIntValue::I16(128)).is_err());
    assert_eq!(i16::try_from(SignedIntValue::I8(-5)), Ok(-5_i16));
    assert_eq!(i32::try_from(SignedIntValue::I64(70_000)), Ok(70_000_i32));
    assert!(i32::try_from(SignedIntValue::I64(i64::MAX)).is_err());
    assert_eq!(i64::try_from(SignedIntValue::I32(i32::MIN)), Ok(i32::MIN as i64));
    assert_eq!(isize::try_from(SignedIntValue::I16(-300)), Ok(-300_isize));
    assert_eq!(u8::try_from(UnsignedIntValue::U64(255)), Ok(255_u8));
    assert!(u8::try_from(UnsignedIntValue::U16(256)).is_err());
    assert_eq!(u16::try_from(UnsignedIntValue::U8(7)), Ok(7_u16));
    assert!(u32::try_from(UnsignedIntValue::U64(1 << 40)).is_err());
    assert_eq!(u64::try_from(UnsignedIntValue::U32(u32::MAX)), Ok(u32::MAX as u64));
    assert_eq!(usize::try_from(UnsignedIntValue::U16(9)), Ok(9_usize));
}

#[test]
fn sign_conversions_keep_the_number() {
    for v in i8::MIN..=i8::MAX {
        let signed = SignedIntValue::I8(v);
        match signed.to_unsigned() {
            Ok(unsigned) => {
                assert!(v >= 0);
                assert_eq!(unsigned.canonicalized(), v as u64);
                let back = unsigned.to_signed().unwrap();
                assert_eq!(back, signed);
                assert_eq!(back.canonicalized(), v as i64);
            }
            Err(_) => assert!(v < 0),
        }
    }
    for v in [0_u64, 1, 127, 128, 255, 65_535, 1 << 31, i64::MAX as u64, u64::MAX] {
        let unsigned = UnsignedIntValue::U64(v);
        match unsigned.to_signed() {
            Ok(signed) => assert_eq!(signed.canonicalized() as u64, v),
            Err(_) => assert!(v > i64::MAX as u64),
        }
    }
}
