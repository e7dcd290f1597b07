//! Bit-level representations of binary floating-point numbers of 8 to 64
//! bits, each stored right-aligned in the smallest unsigned integer that
//! holds it.

use vstd::arithmetic::power2::*;
use vstd::prelude::*;

use crate::bits::{FpFromBits, FpToBits};
use crate::format::FloatFormat;
use crate::repr::FpRepr;

verus! {
/// A bit-level representation of a 8-bit floating-point number: 1 sign
/// bit, 4 exponent bits and 3 explicitly stored significand bits
/// (a precision of 4 bits).
#[derive(Default, Copy, Clone, Debug)]
pub struct F8(pub(crate) u8);

impl View for F8 {
    type V = nat;

    closed spec fn view(&self) -> nat {
        self.0 as nat
    }
}

impl FpFromBits for F8 {
    type Bits = u8;

    open spec fn bits_accepted(bits: u8) -> bool {
        bits <= 0xff
    }

    open spec fn bits_value(bits: u8) -> nat {
        bits as nat
    }

    fn from_bits(bits: u8) -> (r: Self) {
        F8(bits)
    }
}

impl FpToBits for F8 {
    type Bits = u8;

    open spec fn to_bits_value(bits: u8) -> nat {
        bits as nat
    }

    fn to_bits(self) -> (r: u8) {
        proof {
            assert(Self::to_bits_value(self.0) == self@);
        }
        self.0
    }
}

impl FpRepr for F8 {
    type Bits = u8;

    const BITS: u32 = 8;
    const SIGN_BITS: u32 = 1;
    const EXPONENT_BITS: u32 = 4;
    const SIGNIFICAND_BITS: u32 = 3;

    const EXPONENT_MAX: u8 = 0xf;
    const EXPONENT_BIAS: u8 = 0x7;

    const SIGN_MASK: u8 = 0x80;
    const EXPONENT_MASK: u8 = 0x78;
    const SIGNIFICAND_MASK: u8 = 0x7;

    const IMPLICIT_BIT: u8 = 0x8;

    open spec fn format() -> FloatFormat {
        FloatFormat { significand_bits: 3, exponent_bits: 4, storage_bits: 8 }
    }

    fn layout() -> (r: FloatFormat) {
        FloatFormat { significand_bits: 3, exponent_bits: 4, storage_bits: 8 }
    }

    proof fn lemma_storage(self) {
        lemma2_to64();
        lemma2_to64_rest();
    }

    fn zero() -> (r: Self) {
        F8(0)
    }

    fn one() -> (r: Self) {
        proof {
            lemma2_to64();
            lemma2_to64_rest();
            assert(Self::format().total_bits() == 8);
            assert(Self::format().implicit_bit() == 0x8);
            assert(Self::format().sign_bit() == 0x80);
            assert(Self::format().exponent_max() == 0xf);
            assert(Self::format().exponent_bias() == 0x7);
        }
        F8(0x38)
    }

    fn min() -> (r: Self) {
        proof {
            lemma2_to64();
            lemma2_to64_rest();
            assert(Self::format().total_bits() == 8);
            assert(Self::format().implicit_bit() == 0x8);
            assert(Self::format().sign_bit() == 0x80);
            assert(Self::format().exponent_max() == 0xf);
            assert(Self::format().exponent_bias() == 0x7);
        }
        F8(0xf7)
    }

    fn max() -> (r: Self) {
        proof {
            lemma2_to64();
            lemma2_to64_rest();
            assert(Self::format().total_bits() == 8);
            assert(Self::format().implicit_bit() == 0x8);
            assert(Self::format().sign_bit() == 0x80);
            assert(Self::format().exponent_max() == 0xf);
            assert(Self::format().exponent_bias() == 0x7);
        }
        F8(0x77)
    }

    fn min_positive() -> (r: Self) {
        proof {
            lemma2_to64();
            lemma2_to64_rest();
            assert(Self::format().total_bits() == 8);
            assert(Self::format().implicit_bit() == 0x8);
            assert(Self::format().sign_bit() == 0x80);
            assert(Self::format().exponent_max() == 0xf);
            assert(Self::format().exponent_bias() == 0x7);
        }
        F8(0x8)
    }

    fn infinity() -> (r: Self) {
        proof {
            lemma2_to64();
            lemma2_to64_rest();
            assert(Self::format().total_bits() == 8);
            assert(Self::format().implicit_bit() == 0x8);
            assert(Self::format().sign_bit() == 0x80);
            assert(Self::format().exponent_max() == 0xf);
            assert(Self::format().exponent_bias() == 0x7);
        }
        F8(0x78)
    }

    fn neg_infinity() -> (r: Self) {
        proof {
            lemma2_to64();
            lemma2_to64_rest();
            assert(Self::format().total_bits() == 8);
            assert(Self::format().implicit_bit() == 0x8);
            assert(Self::format().sign_bit() == 0x80);
            assert(Self::format().exponent_max() == 0xf);
            assert(Self::format().exponent_bias() == 0x7);
        }
        F8(0xf8)
    }
}
/// A bit-level representation of a 16-bit floating-point number: 1 sign
/// bit, 5 exponent bits and 10 explicitly stored significand bits
/// (a precision of 11 bits).
#[derive(Default, Copy, Clone, Debug)]
pub struct F16(pub(crate) u16);

impl View for F16 {
    type V = nat;

    closed spec fn view(&self) -> nat {
        self.0 as nat
    }
}

impl FpFromBits for F16 {
    type Bits = u16;

    open spec fn bits_accepted(bits: u16) -> bool {
        bits <= 0xffff
    }

    open spec fn bits_value(bits: u16) -> nat {
        bits as nat
    }

    fn from_bits(bits: u16) -> (r: Self) {
        F16(bits)
    }
}

impl FpToBits for F16 {
    type Bits = u16;

    open spec fn to_bits_value(bits: u16) -> nat {
        bits as nat
    }

    fn to_bits(self) -> (r: u16) {
        proof {
            assert(Self::to_bits_value(self.0) == self@);
        }
        self.0
    }
}

impl FpRepr for F16 {
    type Bits = u16;

    const BITS: u32 = 16;
    const SIGN_BITS: u32 = 1;
    const EXPONENT_BITS: u32 = 5;
    const SIGNIFICAND_BITS: u32 = 10;

    const EXPONENT_MAX: u16 = 0x1f;
    const EXPONENT_BIAS: u16 = 0xf;

    const SIGN_MASK: u16 = 0x8000;
    const EXPONENT_MASK: u16 = 0x7c00;
    const SIGNIFICAND_MASK: u16 = 0x3ff;

    const IMPLICIT_BIT: u16 = 0x400;

    open spec fn format() -> FloatFormat {
        FloatFormat { significand_bits: 10, exponent_bits: 5, storage_bits: 16 }
    }

    fn layout() -> (r: FloatFormat) {
        FloatFormat { significand_bits: 10, exponent_bits: 5, storage_bits: 16 }
    }

    proof fn lemma_storage(self) {
        lemma2_to64();
        lemma2_to64_rest();
    }

    fn zero() -> (r: Self) {
        F16(0)
    }

    fn one() -> (r: Self) {
        proof {
            lemma2_to64();
            lemma2_to64_rest();
            assert(Self::format().total_bits() == 16);
            assert(Self::format().implicit_bit() == 0x400);
            assert(Self::format().sign_bit() == 0x8000);
            assert(Self::format().exponent_max() == 0x1f);
            assert(Self::format().exponent_bias() == 0xf);
        }
        F16(0x3c00)
    }

    fn min() -> (r: Self) {
        proof {
            lemma2_to64();
            lemma2_to64_rest();
            assert(Self::format().total_bits() == 16);
            assert(Self::format().implicit_bit() == 0x400);
            assert(Self::format().sign_bit() == 0x8000);
            assert(Self::format().exponent_max() == 0x1f);
            assert(Self::format().exponent_bias() == 0xf);
        }
        F16(0xfbff)
    }

    fn max() -> (r: Self) {
        proof {
            lemma2_to64();
            lemma2_to64_rest();
            assert(Self::format().total_bits() == 16);
            assert(Self::format().implicit_bit() == 0x400);
            assert(Self::format().sign_bit() == 0x8000);
            assert(Self::format().exponent_max() == 0x1f);
            assert(Self::format().exponent_bias() == 0xf);
        }
        F16(0x7bff)
    }

    fn min_positive() -> (r: Self) {
        proof {
            lemma2_to64();
            lemma2_to64_rest();
            assert(Self::format().total_bits() == 16);
            assert(Self::format().implicit_bit() == 0x400);
            assert(Self::format().sign_bit() == 0x8000);
            assert(Self::format().exponent_max() == 0x1f);
            assert(Self::format().exponent_bias() == 0xf);
        }
        F16(0x400)
    }

    fn infinity() -> (r: Self) {
        proof {
            lemma2_to64();
            lemma2_to64_rest();
            assert(Self::format().total_bits() == 16);
            assert(Self::format().implicit_bit() == 0x400);
            assert(Self::format().sign_bit() == 0x8000);
            assert(Self::format().exponent_max() == 0x1f);
            assert(Self::format().exponent_bias() == 0xf);
        }
        F16(0x7c00)
    }

    fn neg_infinity() -> (r: Self) {
        proof {
            lemma2_to64();
            lemma2_to64_rest();
            assert(Self::format().total_bits() == 16);
            assert(Self::format().implicit_bit() == 0x400);
            assert(Self::format().sign_bit() == 0x8000);
            assert(Self::format().exponent_max() == 0x1f);
            assert(Self::format().exponent_bias() == 0xf);
        }
        F16(0xfc00)
    }
}
/// A bit-level representation of a 24-bit floating-point number: 1 sign
/// bit, 7 exponent bits and 16 explicitly stored significand bits
/// (a precision of 17 bits), right-aligned in a `u32` whose top 8 bits are padding.
#[derive(Default, Copy, Clone, Debug)]
pub struct F24(pub(crate) u32);

impl View for F24 {
    type V = nat;

    closed spec fn view(&self) -> nat {
        self.0 as nat
    }
}

impl FpFromBits for F24 {
    type Bits = u32;

    open spec fn bits_accepted(bits: u32) -> bool {
        bits <= 0xffffff
    }

    open spec fn bits_value(bits: u32) -> nat {
        bits as nat
    }

    fn from_bits(bits: u32) -> (r: Self) {
        F24(bits)
    }
}

impl FpToBits for F24 {
    type Bits = u32;

    open spec fn to_bits_value(bits: u32) -> nat {
        bits as nat
    }

    fn to_bits(self) -> (r: u32) {
        proof {
            assert(Self::to_bits_value(self.0) == self@);
        }
        self.0
    }
}

impl FpRepr for F24 {
    type Bits = u32;

    const BITS: u32 = 24;
    const SIGN_BITS: u32 = 1;
    const EXPONENT_BITS: u32 = 7;
    const SIGNIFICAND_BITS: u32 = 16;

    const EXPONENT_MAX: u32 = 0x7f;
    const EXPONENT_BIAS: u32 = 0x3f;

    const SIGN_MASK: u32 = 0x800000;
    const EXPONENT_MASK: u32 = 0x7f0000;
    const SIGNIFICAND_MASK: u32 = 0xffff;

    const IMPLICIT_BIT: u32 = 0x10000;

    open spec fn format() -> FloatFormat {
        FloatFormat { significand_bits: 16, exponent_bits: 7, storage_bits: 32 }
    }

    fn layout() -> (r: FloatFormat) {
        FloatFormat { significand_bits: 16, exponent_bits: 7, storage_bits: 32 }
    }

    proof fn lemma_storage(self) {
        lemma2_to64();
        lemma2_to64_rest();
    }

    fn zero() -> (r: Self) {
        F24(0)
    }

    fn one() -> (r: Self) {
        proof {
            lemma2_to64();
            lemma2_to64_rest();
            assert(Self::format().total_bits() == 24);
            assert(Self::format().implicit_bit() == 0x10000);
            assert(Self::format().sign_bit() == 0x800000);
            assert(Self::format().exponent_max() == 0x7f);
            assert(Self::format().exponent_bias() == 0x3f);
        }
        F24(0x3f0000)
    }

    fn min() -> (r: Self) {
        proof {
            lemma2_to64();
            lemma2_to64_rest();
            assert(Self::format().total_bits() == 24);
            assert(Self::format().implicit_bit() == 0x10000);
            assert(Self::format().sign_bit() == 0x800000);
            assert(Self::format().exponent_max() == 0x7f);
            assert(Self::format().exponent_bias() == 0x3f);
        }
        F24(0xfeffff)
    }

    fn max() -> (r: Self) {
        proof {
            lemma2_to64();
            lemma2_to64_rest();
            assert(Self::format().total_bits() == 24);
            assert(Self::format().implicit_bit() == 0x10000);
            assert(Self::format().sign_bit() == 0x800000);
            assert(Self::format().exponent_max() == 0x7f);
            assert(Self::format().exponent_bias() == 0x3f);
        }
        F24(0x7effff)
    }

    fn min_positive() -> (r: Self) {
        proof {
            lemma2_to64();
            lemma2_to64_rest();
            assert(Self::format().total_bits() == 24);
            assert(Self::format().implicit_bit() == 0x10000);
            assert(Self::format().sign_bit() == 0x800000);
            assert(Self::format().exponent_max() == 0x7f);
            assert(Self::format().exponent_bias() == 0x3f);
        }
        F24(0x10000)
    }

    fn infinity() -> (r: Self) {
        proof {
            lemma2_to64();
            lemma2_to64_rest();
            assert(Self::format().total_bits() == 24);
            assert(Self::format().implicit_bit() == 0x10000);
            assert(Self::format().sign_bit() == 0x800000);
            assert(Self::format().exponent_max() == 0x7f);
            assert(Self::format().exponent_bias() == 0x3f);
        }
        F24(0x7f0000)
    }

    fn neg_infinity() -> (r: Self) {
        proof {
            lemma2_to64();
            lemma2_to64_rest();
            assert(Self::format().total_bits() == 24);
            assert(Self::format().implicit_bit() == 0x10000);
            assert(Self::format().sign_bit() == 0x800000);
            assert(Self::format().exponent_max() == 0x7f);
            assert(Self::format().exponent_bias() == 0x3f);
        }
        F24(0xff0000)
    }
}
/// A bit-level representation of a 32-bit floating-point number: 1 sign
/// bit, 8 exponent bits and 23 explicitly stored significand bits
/// (a precision of 24 bits).
#[derive(Default, Copy, Clone, Debug)]
pub struct F32(pub(crate) u32);

impl View for F32 {
    type V = nat;

    closed spec fn view(&self) -> nat {
        self.0 as nat
    }
}

impl FpFromBits for F32 {
    type Bits = u32;

    open spec fn bits_accepted(bits: u32) -> bool {
        bits <= 0xffffffff
    }

    open spec fn bits_value(bits: u32) -> nat {
        bits as nat
    }

    fn from_bits(bits: u32) -> (r: Self) {
        F32(bits)
    }
}

impl FpToBits for F32 {
    type Bits = u32;

    open spec fn to_bits_value(bits: u32) -> nat {
        bits as nat
    }

    fn to_bits(self) -> (r: u32) {
        proof {
            assert(Self::to_bits_value(self.0) == self@);
        }
        self.0
    }
}

impl FpRepr for F32 {
    type Bits = u32;

    const BITS: u32 = 32;
    const SIGN_BITS: u32 = 1;
    const EXPONENT_BITS: u32 = 8;
    const SIGNIFICAND_BITS: u32 = 23;

    const EXPONENT_MAX: u32 = 0xff;
    const EXPONENT_BIAS: u32 = 0x7f;

    const SIGN_MASK: u32 = 0x80000000;
    const EXPONENT_MASK: u32 = 0x7f800000;
    const SIGNIFICAND_MASK: u32 = 0x7fffff;

    const IMPLICIT_BIT: u32 = 0x800000;

    open spec fn format() -> FloatFormat {
        FloatFormat { significand_bits: 23, exponent_bits: 8, storage_bits: 32 }
    }

    fn layout() -> (r: FloatFormat) {
        FloatFormat { significand_bits: 23, exponent_bits: 8, storage_bits: 32 }
    }

    proof fn lemma_storage(self) {
        lemma2_to64();
        lemma2_to64_rest();
    }

    fn zero() -> (r: Self) {
        F32(0)
    }

    fn one() -> (r: Self) {
        proof {
            lemma2_to64();
            lemma2_to64_rest();
            assert(Self::format().total_bits() == 32);
            assert(Self::format().implicit_bit() == 0x800000);
            assert(Self::format().sign_bit() == 0x80000000);
            assert(Self::format().exponent_max() == 0xff);
            assert(Self::format().exponent_bias() == 0x7f);
        }
        F32(0x3f800000)
    }

    fn min() -> (r: Self) {
        proof {
            lemma2_to64();
            lemma2_to64_rest();
            assert(Self::format().total_bits() == 32);
            assert(Self::format().implicit_bit() == 0x800000);
            assert(Self::format().sign_bit() == 0x80000000);
            assert(Self::format().exponent_max() == 0xff);
            assert(Self::format().exponent_bias() == 0x7f);
        }
        F32(0xff7fffff)
    }

    fn max() -> (r: Self) {
        proof {
            lemma2_to64();
            lemma2_to64_rest();
            assert(Self::format().total_bits() == 32);
            assert(Self::format().implicit_bit() == 0x800000);
            assert(Self::format().sign_bit() == 0x80000000);
            assert(Self::format().exponent_max() == 0xff);
            assert(Self::format().exponent_bias() == 0x7f);
        }
        F32(0x7f7fffff)
    }

    fn min_positive() -> (r: Self) {
        proof {
            lemma2_to64();
            lemma2_to64_rest();
            assert(Self::format().total_bits() == 32);
            assert(Self::format().implicit_bit() == 0x800000);
            assert(Self::format().sign_bit() == 0x80000000);
            assert(Self::format().exponent_max() == 0xff);
            assert(Self::format().exponent_bias() == 0x7f);
        }
        F32(0x800000)
    }

    fn infinity() -> (r: Self) {
        proof {
            lemma2_to64();
            lemma2_to64_rest();
            assert(Self::format().total_bits() == 32);
            assert(Self::format().implicit_bit() == 0x800000);
            assert(Self::format().sign_bit() == 0x80000000);
            assert(Self::format().exponent_max() == 0xff);
            assert(Self::format().exponent_bias() == 0x7f);
        }
        F32(0x7f800000)
    }

    fn neg_infinity() -> (r: Self) {
        proof {
            lemma2_to64();
            lemma2_to64_rest();
            assert(Self::format().total_bits() == 32);
            assert(Self::format().implicit_bit() == 0x800000);
            assert(Self::format().sign_bit() == 0x80000000);
            assert(Self::format().exponent_max() == 0xff);
            assert(Self::format().exponent_bias() == 0x7f);
        }
        F32(0xff800000)
    }
}
/// A bit-level representation of a 40-bit floating-point number: 1 sign
/// bit, 8 exponent bits and 31 explicitly stored significand bits
/// (a precision of 32 bits), right-aligned in a `u64` whose top 24 bits are padding.
#[derive(Default, Copy, Clone, Debug)]
pub struct F40(pub(crate) u64);

impl View for F40 {
    type V = nat;

    closed spec fn view(&self) -> nat {
        self.0 as nat
    }
}

impl FpFromBits for F40 {
    type Bits = u64;

    open spec fn bits_accepted(bits: u64) -> bool {
        bits <= 0xffffffffff
    }

    open spec fn bits_value(bits: u64) -> nat {
        bits as nat
    }

    fn from_bits(bits: u64) -> (r: Self) {
        F40(bits)
    }
}

impl FpToBits for F40 {
    type Bits = u64;

    open spec fn to_bits_value(bits: u64) -> nat {
        bits as nat
    }

    fn to_bits(self) -> (r: u64) {
        proof {
            assert(Self::to_bits_value(self.0) == self@);
        }
        self.0
    }
}

impl FpRepr for F40 {
    type Bits = u64;

    const BITS: u32 = 40;
    const SIGN_BITS: u32 = 1;
    const EXPONENT_BITS: u32 = 8;
    const SIGNIFICAND_BITS: u32 = 31;

    const EXPONENT_MAX: u64 = 0xff;
    const EXPONENT_BIAS: u64 = 0x7f;

    const SIGN_MASK: u64 = 0x8000000000;
    const EXPONENT_MASK: u64 = 0x7f80000000;
    const SIGNIFICAND_MASK: u64 = 0x7fffffff;

    const IMPLICIT_BIT: u64 = 0x80000000;

    open spec fn format() -> FloatFormat {
        FloatFormat { significand_bits: 31, exponent_bits: 8, storage_bits: 64 }
    }

    fn layout() -> (r: FloatFormat) {
        FloatFormat { significand_bits: 31, exponent_bits: 8, storage_bits: 64 }
    }

    proof fn lemma_storage(self) {
        lemma2_to64();
        lemma2_to64_rest();
    }

    fn zero() -> (r: Self) {
        F40(0)
    }

    fn one() -> (r: Self) {
        proof {
            lemma2_to64();
            lemma2_to64_rest();
            assert(Self::format().total_bits() == 40);
            assert(Self::format().implicit_bit() == 0x80000000);
            assert(Self::format().sign_bit() == 0x8000000000);
            assert(Self::format().exponent_max() == 0xff);
            assert(Self::format().exponent_bias() == 0x7f);
        }
        F40(0x3f80000000)
    }

    fn min() -> (r: Self) {
        proof {
            lemma2_to64();
            lemma2_to64_rest();
            assert(Self::format().total_bits() == 40);
            assert(Self::format().implicit_bit() == 0x80000000);
            assert(Self::format().sign_bit() == 0x8000000000);
            assert(Self::format().exponent_max() == 0xff);
            assert(Self::format().exponent_bias() == 0x7f);
        }
        F40(0xff7fffffff)
    }

    fn max() -> (r: Self) {
        proof {
            lemma2_to64();
            lemma2_to64_rest();
            assert(Self::format().total_bits() == 40);
            assert(Self::format().implicit_bit() == 0x80000000);
            assert(Self::format().sign_bit() == 0x8000000000);
            assert(Self::format().exponent_max() == 0xff);
            assert(Self::format().exponent_bias() == 0x7f);
        }
        F40(0x7f7fffffff)
    }

    fn min_positive() -> (r: Self) {
        proof {
            lemma2_to64();
            lemma2_to64_rest();
            assert(Self::format().total_bits() == 40);
            assert(Self::format().implicit_bit() == 0x80000000);
            assert(Self::format().sign_bit() == 0x8000000000);
            assert(Self::format().exponent_max() == 0xff);
            assert(Self::format().exponent_bias() == 0x7f);
        }
        F40(0x80000000)
    }

    fn infinity() -> (r: Self) {
        proof {
            lemma2_to64();
            lemma2_to64_rest();
            assert(Self::format().total_bits() == 40);
            assert(Self::format().implicit_bit() == 0x80000000);
            assert(Self::format().sign_bit() == 0x8000000000);
            assert(Self::format().exponent_max() == 0xff);
            assert(Self::format().exponent_bias() == 0x7f);
        }
        F40(0x7f80000000)
    }

    fn neg_infinity() -> (r: Self) {
        proof {
            lemma2_to64();
            lemma2_to64_rest();
            assert(Self::format().total_bits() == 40);
            assert(Self::format().implicit_bit() == 0x80000000);
            assert(Self::format().sign_bit() == 0x8000000000);
            assert(Self::format().exponent_max() == 0xff);
            assert(Self::format().exponent_bias() == 0x7f);
        }
        F40(0xff80000000)
    }
}
/// A bit-level representation of a 48-bit floating-point number: 1 sign
/// bit, 9 exponent bits and 38 explicitly stored significand bits
/// (a precision of 39 bits), right-aligned in a `u64` whose top 16 bits are padding.
#[derive(Default, Copy, Clone, Debug)]
pub struct F48(pub(crate) u64);

impl View for F48 {
    type V = nat;

    closed spec fn view(&self) -> nat {
        self.0 as nat
    }
}

impl FpFromBits for F48 {
    type Bits = u64;

    open spec fn bits_accepted(bits: u64) -> bool {
        bits <= 0xffffffffffff
    }

    open spec fn bits_value(bits: u64) -> nat {
        bits as nat
    }

    fn from_bits(bits: u64) -> (r: Self) {
        F48(bits)
    }
}

impl FpToBits for F48 {
    type Bits = u64;

    open spec fn to_bits_value(bits: u64) -> nat {
        bits as nat
    }

    fn to_bits(self) -> (r: u64) {
        proof {
            assert(Self::to_bits_value(self.0) == self@);
        }
        self.0
    }
}

impl FpRepr for F48 {
    type Bits = u64;

    const BITS: u32 = 48;
    const SIGN_BITS: u32 = 1;
    const EXPONENT_BITS: u32 = 9;
    const SIGNIFICAND_BITS: u32 = 38;

    const EXPONENT_MAX: u64 = 0x1ff;
    const EXPONENT_BIAS: u64 = 0xff;

    const SIGN_MASK: u64 = 0x800000000000;
    const EXPONENT_MASK: u64 = 0x7fc000000000;
    const SIGNIFICAND_MASK: u64 = 0x3fffffffff;

    const IMPLICIT_BIT: u64 = 0x4000000000;

    open spec fn format() -> FloatFormat {
        FloatFormat { significand_bits: 38, exponent_bits: 9, storage_bits: 64 }
    }

    fn layout() -> (r: FloatFormat) {
        FloatFormat { significand_bits: 38, exponent_bits: 9, storage_bits: 64 }
    }

    proof fn lemma_storage(self) {
        lemma2_to64();
        lemma2_to64_rest();
    }

    fn zero() -> (r: Self) {
        F48(0)
    }

    fn one() -> (r: Self) {
        proof {
            lemma2_to64();
            lemma2_to64_rest();
            assert(Self::format().total_bits() == 48);
            assert(Self::format().implicit_bit() == 0x4000000000);
            assert(Self::format().sign_bit() == 0x800000000000);
            assert(Self::format().exponent_max() == 0x1ff);
            assert(Self::format().exponent_bias() == 0xff);
        }
        F48(0x3fc000000000)
    }

    fn min() -> (r: Self) {
        proof {
            lemma2_to64();
            lemma2_to64_rest();
            assert(Self::format().total_bits() == 48);
            assert(Self::format().implicit_bit() == 0x4000000000);
            assert(Self::format().sign_bit() == 0x800000000000);
            assert(Self::format().exponent_max() == 0x1ff);
            assert(Self::format().exponent_bias() == 0xff);
        }
        F48(0xffbfffffffff)
    }

    fn max() -> (r: Self) {
        proof {
            lemma2_to64();
            lemma2_to64_rest();
            assert(Self::format().total_bits() == 48);
            assert(Self::format().implicit_bit() == 0x4000000000);
            assert(Self::format().sign_bit() == 0x800000000000);
            assert(Self::format().exponent_max() == 0x1ff);
            assert(Self::format().exponent_bias() == 0xff);
        }
        F48(0x7fbfffffffff)
    }

    fn min_positive() -> (r: Self) {
        proof {
            lemma2_to64();
            lemma2_to64_rest();
            assert(Self::format().total_bits() == 48);
            assert(Self::format().implicit_bit() == 0x4000000000);
            assert(Self::format().sign_bit() == 0x800000000000);
            assert(Self::format().exponent_max() == 0x1ff);
            assert(Self::format().exponent_bias() == 0xff);
        }
        F48(0x4000000000)
    }

    fn infinity() -> (r: Self) {
        proof {
            lemma2_to64();
            lemma2_to64_rest();
            assert(Self::format().total_bits() == 48);
            assert(Self::format().implicit_bit() == 0x4000000000);
            assert(Self::format().sign_bit() == 0x800000000000);
            assert(Self::format().exponent_max() == 0x1ff);
            assert(Self::format().exponent_bias() == 0xff);
        }
        F48(0x7fc000000000)
    }

    fn neg_infinity() -> (r: Self) {
        proof {
            lemma2_to64();
            lemma2_to64_rest();
            assert(Self::format().total_bits() == 48);
            assert(Self::format().implicit_bit() == 0x4000000000);
            assert(Self::format().sign_bit() == 0x800000000000);
            assert(Self::format().exponent_max() == 0x1ff);
            assert(Self::format().exponent_bias() == 0xff);
        }
        F48(0xffc000000000)
    }
}
/// A bit-level representation of a 56-bit floating-point number: 1 sign
/// bit, 10 exponent bits and 45 explicitly stored significand bits
/// (a precision of 46 bits), right-aligned in a `u64` whose top 8 bits are padding.
#[derive(Default, Copy, Clone, Debug)]
pub struct F56(pub(crate) u64);

impl View for F56 {
    type V = nat;

    closed spec fn view(&self) -> nat {
        self.0 as nat
    }
}

impl FpFromBits for F56 {
    type Bits = u64;

    open spec fn bits_accepted(bits: u64) -> bool {
        bits <= 0xffffffffffffff
    }

    open spec fn bits_value(bits: u64) -> nat {
        bits as nat
    }

    fn from_bits(bits: u64) -> (r: Self) {
        F56(bits)
    }
}

impl FpToBits for F56 {
    type Bits = u64;

    open spec fn to_bits_value(bits: u64) -> nat {
        bits as nat
    }

    fn to_bits(self) -> (r: u64) {
        proof {
            assert(Self::to_bits_value(self.0) == self@);
        }
        self.0
    }
}

impl FpRepr for F56 {
    type Bits = u64;

    const BITS: u32 = 56;
    const SIGN_BITS: u32 = 1;
    const EXPONENT_BITS: u32 = 10;
    const SIGNIFICAND_BITS: u32 = 45;

    const EXPONENT_MAX: u64 = 0x3ff;
    const EXPONENT_BIAS: u64 = 0x1ff;

    const SIGN_MASK: u64 = 0x80000000000000;
    const EXPONENT_MASK: u64 = 0x7fe00000000000;
    const SIGNIFICAND_MASK: u64 = 0x1fffffffffff;

    const IMPLICIT_BIT: u64 = 0x200000000000;

    open spec fn format() -> FloatFormat {
        FloatFormat { significand_bits: 45, exponent_bits: 10, storage_bits: 64 }
    }

    fn layout() -> (r: FloatFormat) {
        FloatFormat { significand_bits: 45, exponent_bits: 10, storage_bits: 64 }
    }

    proof fn lemma_storage(self) {
        lemma2_to64();
        lemma2_to64_rest();
    }

    fn zero() -> (r: Self) {
        F56(0)
    }

    fn one() -> (r: Self) {
        proof {
            lemma2_to64();
            lemma2_to64_rest();
            assert(Self::format().total_bits() == 56);
            assert(Self::format().implicit_bit() == 0x200000000000);
            assert(Self::format().sign_bit() == 0x80000000000000);
            assert(Self::format().exponent_max() == 0x3ff);
            assert(Self::format().exponent_bias() == 0x1ff);
        }
        F56(0x3fe00000000000)
    }

    fn min() -> (r: Self) {
        proof {
            lemma2_to64();
            lemma2_to64_rest();
            assert(Self::format().total_bits() == 56);
            assert(Self::format().implicit_bit() == 0x200000000000);
            assert(Self::format().sign_bit() == 0x80000000000000);
            assert(Self::format().exponent_max() == 0x3ff);
            assert(Self::format().exponent_bias() == 0x1ff);
        }
        F56(0xffdfffffffffff)
    }

    fn max() -> (r: Self) {
        proof {
            lemma2_to64();
            lemma2_to64_rest();
            assert(Self::format().total_bits() == 56);
            assert(Self::format().implicit_bit() == 0x200000000000);
            assert(Self::format().sign_bit() == 0x80000000000000);
            assert(Self::format().exponent_max() == 0x3ff);
            assert(Self::format().exponent_bias() == 0x1ff);
        }
        F56(0x7fdfffffffffff)
    }

    fn min_positive() -> (r: Self) {
        proof {
            lemma2_to64();
            lemma2_to64_rest();
            assert(Self::format().total_bits() == 56);
            assert(Self::format().implicit_bit() == 0x200000000000);
            assert(Self::format().sign_bit() == 0x80000000000000);
            assert(Self::format().exponent_max() == 0x3ff);
            assert(Self::format().exponent_bias() == 0x1ff);
        }
        F56(0x200000000000)
    }

    fn infinity() -> (r: Self) {
        proof {
            lemma2_to64();
            lemma2_to64_rest();
            assert(Self::format().total_bits() == 56);
            assert(Self::format().implicit_bit() == 0x200000000000);
            assert(Self::format().sign_bit() == 0x80000000000000);
            assert(Self::format().exponent_max() == 0x3ff);
            assert(Self::format().exponent_bias() == 0x1ff);
        }
        F56(0x7fe00000000000)
    }

    fn neg_infinity() -> (r: Self) {
        proof {
            lemma2_to64();
            lemma2_to64_rest();
            assert(Self::format().total_bits() == 56);
            assert(Self::format().implicit_bit() == 0x200000000000);
            assert(Self::format().sign_bit() == 0x80000000000000);
            assert(Self::format().exponent_max() == 0x3ff);
            assert(Self::format().exponent_bias() == 0x1ff);
        }
        F56(0xffe00000000000)
    }
}
/// A bit-level representation of a 64-bit floating-point number: 1 sign
/// bit, 11 exponent bits and 52 explicitly stored significand bits
/// (a precision of 53 bits).
#[derive(Default, Copy, Clone, Debug)]
pub struct F64(pub(crate) u64);

impl View for F64 {
    type V = nat;

    closed spec fn view(&self) -> nat {
        self.0 as nat
    }
}

impl FpFromBits for F64 {
    type Bits = u64;

    open spec fn bits_accepted(bits: u64) -> bool {
        bits <= 0xffffffffffffffff
    }

    open spec fn bits_value(bits: u64) -> nat {
        bits as nat
    }

    fn from_bits(bits: u64) -> (r: Self) {
        F64(bits)
    }
}

impl FpToBits for F64 {
    type Bits = u64;

    open spec fn to_bits_value(bits: u64) -> nat {
        bits as nat
    }

    fn to_bits(self) -> (r: u64) {
        proof {
            assert(Self::to_bits_value(self.0) == self@);
        }
        self.0
    }
}

impl FpRepr for F64 {
    type Bits = u64;

    const BITS: u32 = 64;
    const SIGN_BITS: u32 = 1;
    const EXPONENT_BITS: u32 = 11;
    const SIGNIFICAND_BITS: u32 = 52;

    const EXPONENT_MAX: u64 = 0x7ff;
    const EXPONENT_BIAS: u64 = 0x3ff;

    const SIGN_MASK: u64 = 0x8000000000000000;
    const EXPONENT_MASK: u64 = 0x7ff0000000000000;
    const SIGNIFICAND_MASK: u64 = 0xfffffffffffff;

    const IMPLICIT_BIT: u64 = 0x10000000000000;

    open spec fn format() -> FloatFormat {
        FloatFormat { significand_bits: 52, exponent_bits: 11, storage_bits: 64 }
    }

    fn layout() -> (r: FloatFormat) {
        FloatFormat { significand_bits: 52, exponent_bits: 11, storage_bits: 64 }
    }

    proof fn lemma_storage(self) {
        lemma2_to64();
        lemma2_to64_rest();
    }

    fn zero() -> (r: Self) {
        F64(0)
    }

    fn one() -> (r: Self) {
        proof {
            lemma2_to64();
            lemma2_to64_rest();
            assert(Self::format().total_bits() == 64);
            assert(Self::format().implicit_bit() == 0x10000000000000);
            assert(Self::format().sign_bit() == 0x8000000000000000);
            assert(Self::format().exponent_max() == 0x7ff);
            assert(Self::format().exponent_bias() == 0x3ff);
        }
        F64(0x3ff0000000000000)
    }

    fn min() -> (r: Self) {
        proof {
            lemma2_to64();
            lemma2_to64_rest();
            assert(Self::format().total_bits() == 64);
            assert(Self::format().implicit_bit() == 0x10000000000000);
            assert(Self::format().sign_bit() == 0x8000000000000000);
            assert(Self::format().exponent_max() == 0x7ff);
            assert(Self::format().exponent_bias() == 0x3ff);
        }
        F64(0xffefffffffffffff)
    }

    fn max() -> (r: Self) {
        proof {
            lemma2_to64();
            lemma2_to64_rest();
            assert(Self::format().total_bits() == 64);
            assert(Self::format().implicit_bit() == 0x10000000000000);
            assert(Self::format().sign_bit() == 0x8000000000000000);
            assert(Self::format().exponent_max() == 0x7ff);
            assert(Self::format().exponent_bias() == 0x3ff);
        }
        F64(0x7fefffffffffffff)
    }

    fn min_positive() -> (r: Self) {
        proof {
            lemma2_to64();
            lemma2_to64_rest();
            assert(Self::format().total_bits() == 64);
            assert(Self::format().implicit_bit() == 0x10000000000000);
            assert(Self::format().sign_bit() == 0x8000000000000000);
            assert(Self::format().exponent_max() == 0x7ff);
            assert(Self::format().exponent_bias() == 0x3ff);
        }
        F64(0x10000000000000)
    }

    fn infinity() -> (r: Self) {
        proof {
            lemma2_to64();
            lemma2_to64_rest();
            assert(Self::format().total_bits() == 64);
            assert(Self::format().implicit_bit() == 0x10000000000000);
            assert(Self::format().sign_bit() == 0x8000000000000000);
            assert(Self::format().exponent_max() == 0x7ff);
            assert(Self::format().exponent_bias() == 0x3ff);
        }
        F64(0x7ff0000000000000)
    }

    fn neg_infinity() -> (r: Self) {
        proof {
            lemma2_to64();
            lemma2_to64_rest();
            assert(Self::format().total_bits() == 64);
            assert(Self::format().implicit_bit() == 0x10000000000000);
            assert(Self::format().sign_bit() == 0x8000000000000000);
            assert(Self::format().exponent_max() == 0x7ff);
            assert(Self::format().exponent_bias() == 0x3ff);
        }
        F64(0xfff0000000000000)
    }
}

/// The layout constants of `F8` agree with its layout: its width, the
/// widths of its fields, the largest exponent field and the bias, and the
/// masks of the sign, the exponent and the significand, and the implicit bit.
pub proof fn lemma_f8_constants()
    ensures
        F8::BITS as nat == F8::format().total_bits(),
        F8::SIGN_BITS == 1,
        F8::EXPONENT_BITS == F8::format().exponent_bits,
        F8::SIGNIFICAND_BITS == F8::format().significand_bits,
        F8::EXPONENT_MAX as nat == F8::format().exponent_max(),
        F8::EXPONENT_BIAS as nat == F8::format().exponent_bias(),
        F8::SIGN_MASK as nat == F8::format().sign_bit(),
        F8::EXPONENT_MASK as nat == F8::format().infinity_abs(),
        F8::SIGNIFICAND_MASK as nat == F8::format().implicit_bit() - 1,
        F8::IMPLICIT_BIT as nat == F8::format().implicit_bit(),
{
    lemma2_to64();
    lemma2_to64_rest();
    assert(F8::format().total_bits() == 8);
    assert(F8::format().implicit_bit() == 0x8);
    assert(F8::format().sign_bit() == 0x80);
    assert(F8::format().exponent_max() == 0xf);
}

/// The layout constants of `F16` agree with its layout: its width, the
/// widths of its fields, the largest exponent field and the bias, and the
/// masks of the sign, the exponent and the significand, and the implicit bit.
pub proof fn lemma_f16_constants()
    ensures
        F16::BITS as nat == F16::format().total_bits(),
        F16::SIGN_BITS == 1,
        F16::EXPONENT_BITS == F16::format().exponent_bits,
        F16::SIGNIFICAND_BITS == F16::format().significand_bits,
        F16::EXPONENT_MAX as nat == F16::format().exponent_max(),
        F16::EXPONENT_BIAS as nat == F16::format().exponent_bias(),
        F16::SIGN_MASK as nat == F16::format().sign_bit(),
        F16::EXPONENT_MASK as nat == F16::format().infinity_abs(),
        F16::SIGNIFICAND_MASK as nat == F16::format().implicit_bit() - 1,
        F16::IMPLICIT_BIT as nat == F16::format().implicit_bit(),
{
    lemma2_to64();
    lemma2_to64_rest();
    assert(F16::format().total_bits() == 16);
    assert(F16::format().implicit_bit() == 0x400);
    assert(F16::format().sign_bit() == 0x8000);
    assert(F16::format().exponent_max() == 0x1f);
}

/// The layout constants of `F24` agree with its layout: its width, the
/// widths of its fields, the largest exponent field and the bias, and the
/// masks of the sign, the exponent and the significand, and the implicit bit.
pub proof fn lemma_f24_constants()
    ensures
        F24::BITS as nat == F24::format().total_bits(),
        F24::SIGN_BITS == 1,
        F24::EXPONENT_BITS == F24::format().exponent_bits,
        F24::SIGNIFICAND_BITS == F24::format().significand_bits,
        F24::EXPONENT_MAX as nat == F24::format().exponent_max(),
        F24::EXPONENT_BIAS as nat == F24::format().exponent_bias(),
        F24::SIGN_MASK as nat == F24::format().sign_bit(),
        F24::EXPONENT_MASK as nat == F24::format().infinity_abs(),
        F24::SIGNIFICAND_MASK as nat == F24::format().implicit_bit() - 1,
        F24::IMPLICIT_BIT as nat == F24::format().implicit_bit(),
{
    lemma2_to64();
    lemma2_to64_rest();
    assert(F24::format().total_bits() == 24);
    assert(F24::format().implicit_bit() == 0x10000);
    assert(F24::format().sign_bit() == 0x800000);
    assert(F24::format().exponent_max() == 0x7f);
}

/// The layout constants of `F32` agree with its layout: its width, the
/// widths of its fields, the largest exponent field and the bias, and the
/// masks of the sign, the exponent and the significand, and the implicit bit.
pub proof fn lemma_f32_constants()
    ensures
        F32::BITS as nat == F32::format().total_bits(),
        F32::SIGN_BITS == 1,
        F32::EXPONENT_BITS == F32::format().exponent_bits,
        F32::SIGNIFICAND_BITS == F32::format().significand_bits,
        F32::EXPONENT_MAX as nat == F32::format().exponent_max(),
        F32::EXPONENT_BIAS as nat == F32::format().exponent_bias(),
        F32::SIGN_MASK as nat == F32::format().sign_bit(),
        F32::EXPONENT_MASK as nat == F32::format().infinity_abs(),
        F32::SIGNIFICAND_MASK as nat == F32::format().implicit_bit() - 1,
        F32::IMPLICIT_BIT as nat == F32::format().implicit_bit(),
{
    lemma2_to64();
    lemma2_to64_rest();
    assert(F32::format().total_bits() == 32);
    assert(F32::format().implicit_bit() == 0x800000);
    assert(F32::format().sign_bit() == 0x80000000);
    assert(F32::format().exponent_max() == 0xff);
}

/// The layout constants of `F40` agree with its layout: its width, the
/// widths of its fields, the largest exponent field and the bias, and the
/// masks of the sign, the exponent and the significand, and the implicit bit.
pub proof fn lemma_f40_constants()
    ensures
        F40::BITS as nat == F40::format().total_bits(),
        F40::SIGN_BITS == 1,
        F40::EXPONENT_BITS == F40::format().exponent_bits,
        F40::SIGNIFICAND_BITS == F40::format().significand_bits,
        F40::EXPONENT_MAX as nat == F40::format().exponent_max(),
        F40::EXPONENT_BIAS as nat == F40::format().exponent_bias(),
        F40::SIGN_MASK as nat == F40::format().sign_bit(),
        F40::EXPONENT_MASK as nat == F40::format().infinity_abs(),
        F40::SIGNIFICAND_MASK as nat == F40::format().implicit_bit() - 1,
        F40::IMPLICIT_BIT as nat == F40::format().implicit_bit(),
{
    lemma2_to64();
    lemma2_to64_rest();
    assert(F40::format().total_bits() == 40);
    assert(F40::format().implicit_bit() == 0x80000000);
    assert(F40::format().sign_bit() == 0x8000000000);
    assert(F40::format().exponent_max() == 0xff);
}

/// The layout constants of `F48` agree with its layout: its width, the
/// widths of its fields, the largest exponent field and the bias, and the
/// masks of the sign, the exponent and the significand, and the implicit bit.
pub proof fn lemma_f48_constants()
    ensures
        F48::BITS as nat == F48::format().total_bits(),
        F48::SIGN_BITS == 1,
        F48::EXPONENT_BITS == F48::format().exponent_bits,
        F48::SIGNIFICAND_BITS == F48::format().significand_bits,
        F48::EXPONENT_MAX as nat == F48::format().exponent_max(),
        F48::EXPONENT_BIAS as nat == F48::format().exponent_bias(),
        F48::SIGN_MASK as nat == F48::format().sign_bit(),
        F48::EXPONENT_MASK as nat == F48::format().infinity_abs(),
        F48::SIGNIFICAND_MASK as nat == F48::format().implicit_bit() - 1,
        F48::IMPLICIT_BIT as nat == F48::format().implicit_bit(),
{
    lemma2_to64();
    lemma2_to64_rest();
    assert(F48::format().total_bits() == 48);
    assert(F48::format().implicit_bit() == 0x4000000000);
    assert(F48::format().sign_bit() == 0x800000000000);
    assert(F48::format().exponent_max() == 0x1ff);
}

/// The layout constants of `F56` agree with its layout: its width, the
/// widths of its fields, the largest exponent field and the bias, and the
/// masks of the sign, the exponent and the significand, and the implicit bit.
pub proof fn lemma_f56_constants()
    ensures
        F56::BITS as nat == F56::format().total_bits(),
        F56::SIGN_BITS == 1,
        F56::EXPONENT_BITS == F56::format().exponent_bits,
        F56::SIGNIFICAND_BITS == F56::format().significand_bits,
        F56::EXPONENT_MAX as nat == F56::format().exponent_max(),
        F56::EXPONENT_BIAS as nat == F56::format().exponent_bias(),
        F56::SIGN_MASK as nat == F56::format().sign_bit(),
        F56::EXPONENT_MASK as nat == F56::format().infinity_abs(),
        F56::SIGNIFICAND_MASK as nat == F56::format().implicit_bit() - 1,
        F56::IMPLICIT_BIT as nat == F56::format().implicit_bit(),
{
    lemma2_to64();
    lemma2_to64_rest();
    assert(F56::format().total_bits() == 56);
    assert(F56::format().implicit_bit() == 0x200000000000);
    assert(F56::format().sign_bit() == 0x80000000000000);
    assert(F56::format().exponent_max() == 0x3ff);
}

/// The layout constants of `F64` agree with its layout: its width, the
/// widths of its fields, the largest exponent field and the bias, and the
/// masks of the sign, the exponent and the significand, and the implicit bit.
pub proof fn lemma_f64_constants()
    ensures
        F64::BITS as nat == F64::format().total_bits(),
        F64::SIGN_BITS == 1,
        F64::EXPONENT_BITS == F64::format().exponent_bits,
        F64::SIGNIFICAND_BITS == F64::format().significand_bits,
        F64::EXPONENT_MAX as nat == F64::format().exponent_max(),
        F64::EXPONENT_BIAS as nat == F64::format().exponent_bias(),
        F64::SIGN_MASK as nat == F64::format().sign_bit(),
        F64::EXPONENT_MASK as nat == F64::format().infinity_abs(),
        F64::SIGNIFICAND_MASK as nat == F64::format().implicit_bit() - 1,
        F64::IMPLICIT_BIT as nat == F64::format().implicit_bit(),
{
    lemma2_to64();
    lemma2_to64_rest();
    assert(F64::format().total_bits() == 64);
    assert(F64::format().implicit_bit() == 0x10000000000000);
    assert(F64::format().sign_bit() == 0x8000000000000000);
    assert(F64::format().exponent_max() == 0x7ff);
}

} // verus!
