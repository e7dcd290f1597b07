use lilliput::be_bytes::{FpFromBeBytes, FpToBeBytes};
use lilliput::bits::{FpFromBits, FpToBits};
use lilliput::floats::{F16, F24, F32, F40, F48, F56, F64, F8};

#[test]
fn f8_from_to_bits_roundtrip() {
    for bits in 0..=u8::MAX {
        assert_eq!(F8::from_bits(bits).to_bits(), bits);
    }
}

#[test]
fn f16_from_to_bits_roundtrip() {
    for bits in 0..=u16::MAX {
        assert_eq!(F16::from_bits(bits).to_bits(), bits);
    }
}

#[test]
fn wide_from_to_bits_roundtrip() {
    let mut bits: u64 = 0x9e37_79b9_7f4a_7c15;
    for _ in 0..10_000 {
        bits = bits.rotate_left(7).wrapping_mul(0x2545_f491_4f6c_dd1d);
        let b24 = (bits as u32) & 0x00ff_ffff;
        assert_eq!(F24::from_bits(b24).to_bits(), b24);
        assert_eq!(F32::from_bits(bits as u32).to_bits(), bits as u32);
        assert_eq!(F40::from_bits(bits >> 24).to_bits(), bits >> 24);
        assert_eq!(F48::from_bits(bits >> 16).to_bits(), bits >> 16);
        assert_eq!(F56::from_bits(bits >> 8).to_bits(), bits >> 8);
        assert_eq!(F64::from_bits(bits).to_bits(), bits);
    }
}

#[test]
fn be_bytes_roundtrip_and_layout() {
    let x = F24::from_bits(0x00ab_cdef);
    assert_eq!(x.to_be_bytes(), [0xab, 0xcd, 0xef]);
    assert_eq!(F24::from_be_bytes([0xab, 0xcd, 0xef]).to_bits(), 0x00ab_cdef);
    let y = F40::from_bits(0x01_2345_6789);
    assert_eq!(y.to_be_bytes(), [0x01, 0x23, 0x45, 0x67, 0x89]);
    assert_eq!(F40::from_be_bytes(y.to_be_bytes()).to_bits(), 0x01_2345_6789);
    let z = F64::from_bits(1.5_f64.to_bits());
    assert_eq!(z.to_be_bytes(), 1.5_f64.to_be_bytes());
    assert_eq!(F32::from_be_bytes(2.5_f32.to_be_bytes()).to_bits(), 2.5_f32.to_bits());
    for bits in 0..=u16::MAX {
        let v = F16::from_bits(bits);
        assert_eq!(F16::from_be_bytes(v.to_be_bytes()).to_bits(), bits);
    }
    let w = F56::from_bits(0x00_1122_3344_5566);
    assert_eq!(F56::from_be_bytes(w.to_be_bytes()).to_bits(), 0x00_1122_3344_5566);
    let v = F48::from_bits(0xfedc_ba98_7654);
    assert_eq!(v.to_be_bytes(), [0xfe, 0xdc, 0xba, 0x98, 0x76, 0x54]);
    assert_eq!(F8::from_be_bytes([0x42]).to_bits(), 0x42);
}

#[test]
fn partial_cmp_matches_native() {
    let samples = [
        0.0_f64,
        -0.0,
        1.0,
        -1.0,
        0.5,
        -2.0,
        1.0e300,
        -1.0e-300,
        f64::INFINITY,
        f64::NEG_INFINITY,
        f64::NAN,
        f64::MIN_POSITIVE,
        5.0e-324,
    ];
    for a in samples {
        for b in samples {
            let x = F64::from_bits(a.to_bits());
            let y = F64::from_bits(b.to_bits());
            assert_eq!(x.partial_cmp(&y), a.partial_cmp(&b), "{a} vs {b}");
            assert_eq!(x == y, a == b);
            let xs = F32::from_bits((a as f32).to_bits());
            let ys = F32::from_bits((b as f32).to_bits());
            assert_eq!(xs.partial_cmp(&ys), (a as f32).partial_cmp(&(b as f32)));
        }
    }
}

#[test]
fn padded_formats_compare_by_sign_and_magnitude() {
    let minus_one = F24::from_bits(0x00bf_0000);
    let one = F24::from_bits(0x003f_0000);
    let two = F24::from_bits(0x0040_0000);
    let minus_two = F24::from_bits(0x00c0_0000);
    let zero = F24::from_bits(0);
    let minus_zero = F24::from_bits(0x0080_0000);
    assert_eq!(minus_one.partial_cmp(&one), Some(std::cmp::Ordering::Less));
    assert_eq!(one.partial_cmp(&minus_one), Some(std::cmp::Ordering::Greater));
    assert_eq!(minus_two.partial_cmp(&minus_one), Some(std::cmp::Ordering::Less));
    assert_eq!(two.partial_cmp(&one), Some(std::cmp::Ordering::Greater));
    assert!(zero == minus_zero);
    let a = F40::from_bits(0x80_0000_0001);
    let b = F40::from_bits(0x00_0000_0001);
    assert_eq!(a.partial_cmp(&b), Some(std::cmp::Ordering::Less));
    let nan = F56::from_bits(0x7f_ffff_ffff_ffff);
    assert_eq!(nan.partial_cmp(&nan), None);
}
