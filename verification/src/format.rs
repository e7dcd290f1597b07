//! Bit layouts of the binary floating-point formats and the arithmetic on
//! their raw bit patterns, shared by all the concrete float types.
//!
//! A format is described by the width of its significand field, the width of
//! its exponent field and the width of the unsigned integer that stores it.
//! The stored bit pattern is `sign | exponent | significand`, most significant
//! first, right-aligned in the storage integer.

use vstd::arithmetic::div_mod::*;
use vstd::arithmetic::mul::*;
use vstd::arithmetic::power2::*;
use vstd::bits::*;
use vstd::prelude::*;

verus! {

/// The layout of a binary floating-point format.
#[derive(Clone, Copy, Debug)]
pub struct FloatFormat {
    /// Width of the stored significand field (without the implicit bit).
    pub significand_bits: u32,
    /// Width of the exponent field.
    pub exponent_bits: u32,
    /// Width of the unsigned integer holding the bit pattern.
    pub storage_bits: u32,
}

/// The category a bit pattern falls into (IEEE 754 classes).
#[derive(Clone, Copy, Debug, PartialEq, Eq, Structural)]
pub enum FpCategory {
    Nan,
    Infinite,
    Zero,
    Subnormal,
    Normal,
}

/// The outcome of comparing two bit patterns as numbers.
#[derive(Clone, Copy, Debug, PartialEq, Eq, Structural)]
pub enum BitsOrder {
    Unordered,
    Less,
    Equal,
    Greater,
}

/// The order of two integers.
pub open spec fn int_order(x: int, y: int) -> BitsOrder {
    if x < y {
        BitsOrder::Less
    } else if x == y {
        BitsOrder::Equal
    } else {
        BitsOrder::Greater
    }
}

impl FloatFormat {
    /// Number of bits of the format: sign, exponent and significand.
    pub open spec fn total_bits(self) -> nat {
        (1 + self.exponent_bits + self.significand_bits) as nat
    }

    pub open spec fn valid(self) -> bool {
        &&& 3 <= self.significand_bits <= 52
        &&& 4 <= self.exponent_bits <= 11
        &&& self.total_bits() <= self.storage_bits
        &&& (self.storage_bits == 8 || self.storage_bits == 16 || self.storage_bits == 32
            || self.storage_bits == 64)
    }

    /// `2^significand_bits`: the implicit leading bit of normal numbers.
    pub open spec fn implicit_bit(self) -> nat {
        pow2(self.significand_bits as nat)
    }

    /// `2^(total_bits - 1)`: the sign bit.
    pub open spec fn sign_bit(self) -> nat {
        pow2((self.total_bits() - 1) as nat)
    }

    /// The largest exponent field value, `2^exponent_bits - 1`.
    pub open spec fn exponent_max(self) -> nat {
        (pow2(self.exponent_bits as nat) - 1) as nat
    }

    /// The exponent bias, `exponent_max >> 1`.
    pub open spec fn exponent_bias(self) -> nat {
        self.exponent_max() / 2
    }

    /// The absolute value bits of infinity: maximal exponent, zero significand.
    pub open spec fn infinity_abs(self) -> nat {
        self.exponent_max() * self.implicit_bit()
    }

    /// Whether the sign bit of `x` is set.
    pub open spec fn sign_of(self, x: nat) -> bool {
        (x / self.sign_bit()) % 2 == 1
    }

    /// The bits of `x` below the sign bit.
    pub open spec fn abs_of(self, x: nat) -> nat {
        x % self.sign_bit()
    }

    /// The exponent field of `x`.
    pub open spec fn exponent_of(self, x: nat) -> nat {
        (x / self.implicit_bit()) % pow2(self.exponent_bits as nat)
    }

    /// The significand field of `x`.
    pub open spec fn significand_of(self, x: nat) -> nat {
        x % self.implicit_bit()
    }

    /// The IEEE 754 category of the bit pattern `x`.
    pub open spec fn category(self, x: nat) -> FpCategory {
        let e = self.exponent_of(x);
        let m = self.significand_of(x);
        if e == self.exponent_max() {
            if m == 0 {
                FpCategory::Infinite
            } else {
                FpCategory::Nan
            }
        } else if e == 0 {
            if m == 0 {
                FpCategory::Zero
            } else {
                FpCategory::Subnormal
            }
        } else {
            FpCategory::Normal
        }
    }

    /// The result of comparing the bit patterns `a` and `b` as numbers:
    /// unordered when either is NaN, equal when both are zero (of either
    /// sign), otherwise the order of their signed magnitudes.
    pub open spec fn comparison(self, a: nat, b: nat) -> BitsOrder {
        let la = self.abs_of(a);
        let lb = self.abs_of(b);
        if la > self.infinity_abs() || lb > self.infinity_abs() {
            BitsOrder::Unordered
        } else if la == 0 && lb == 0 {
            BitsOrder::Equal
        } else {
            int_order(self.signed_magnitude(a), self.signed_magnitude(b))
        }
    }

    /// The integer that orders the values of bit patterns: the magnitude
    /// bits, negated when the sign is set.
    pub open spec fn signed_magnitude(self, x: nat) -> int {
        if self.sign_of(x) {
            -(self.abs_of(x) as int)
        } else {
            self.abs_of(x) as int
        }
    }

    /// The number that the finite magnitude bits `a` stand for, times
    /// `2^(exponent_bias + significand_bits - 1)` so that it is an integer:
    /// the significand (with the implicit bit when the exponent field is not
    /// zero) shifted left by the exponent field minus one.
    pub open spec fn scaled_magnitude(self, a: nat) -> nat {
        let e = a / self.implicit_bit();
        let m = a % self.implicit_bit();
        if e == 0 {
            m
        } else {
            (self.implicit_bit() + m) * pow2((e - 1) as nat)
        }
    }

    /// The number that the bit pattern `x` stands for, scaled as in
    /// `scaled_magnitude` and signed; infinity reads as the power of two
    /// above the largest finite value.
    pub open spec fn signed_value(self, x: nat) -> int {
        if self.sign_of(x) {
            -(self.scaled_magnitude(self.abs_of(x)) as int)
        } else {
            self.scaled_magnitude(self.abs_of(x)) as int
        }
    }

    /// The bit pattern assembled from a sign, an exponent field and a
    /// significand field.
    pub open spec fn compose(self, sign: bool, exponent: nat, significand: nat) -> nat {
        (if sign {
            self.sign_bit()
        } else {
            0
        }) + exponent * self.implicit_bit() + significand
    }
}

/// Facts about powers of two that every layout computation needs.
pub proof fn lemma_pow2_facts(k: nat)
    ensures
        pow2(k) > 0,
        k >= 1 ==> pow2(k) == 2 * pow2((k - 1) as nat),
        k < 64 ==> pow2(k) <= 0x8000_0000_0000_0000,
        pow2(64) == 0x1_0000_0000_0000_0000,
{
    lemma_pow2_pos(k);
    if k >= 1 {
        lemma_pow2_unfold(k);
    }
    if k < 64 {
        lemma2_to64_rest();
        if k < 63 {
            lemma_pow2_strictly_increases(k, 63);
        }
    }
    lemma2_to64_rest();
}

/// `2^a * 2^b == 2^(a + b)`.
pub proof fn lemma_pow2_mul(a: nat, b: nat)
    ensures
        pow2(a) * pow2(b) == pow2(a + b),
{
    lemma_pow2_adds(a, b);
}

/// Powers of two grow with their exponent.
pub proof fn lemma_pow2_le(a: nat, b: nat)
    requires
        a <= b,
    ensures
        pow2(a) <= pow2(b),
{
    if a < b {
        lemma_pow2_strictly_increases(a, b);
    }
}

/// `x < 2^a` and `a <= b` give `x * 2^(b - a) < 2^b`.
pub proof fn lemma_mul_pow2_bound(x: nat, a: nat, b: nat)
    requires
        x < pow2(a),
        a <= b,
    ensures
        x * pow2((b - a) as nat) < pow2(b),
        x * pow2((b - a) as nat) <= (pow2(a) - 1) * pow2((b - a) as nat),
{
    lemma_pow2_pos((b - a) as nat);
    lemma_mul_strict_inequality(x as int, pow2(a) as int, pow2((b - a) as nat) as int);
    lemma_pow2_mul(a, (b - a) as nat);
    lemma_mul_inequality(x as int, (pow2(a) - 1) as int, pow2((b - a) as nat) as int);
}

/// `(x % 2^b) % 2^a == x % 2^a` for `a <= b`.
pub proof fn lemma_mod_pow2_twice(x: nat, a: nat, b: nat)
    requires
        a <= b,
    ensures
        (x % pow2(b)) % pow2(a) == x % pow2(a),
{
    lemma_pow2_pos(a);
    lemma_pow2_pos((b - a) as nat);
    lemma_pow2_mul(a, (b - a) as nat);
    lemma_mod_mod(x as int, pow2(a) as int, pow2((b - a) as nat) as int);
}

/// `(x % 2^b) / 2^a == (x / 2^a) % 2^(b - a)` for `a <= b`.
pub proof fn lemma_mod_div_pow2(x: nat, a: nat, b: nat)
    requires
        a <= b,
    ensures
        (x % pow2(b)) / pow2(a) == (x / pow2(a)) % pow2((b - a) as nat),
{
    let pa = pow2(a) as int;
    let pc = pow2((b - a) as nat) as int;
    lemma_pow2_pos(a);
    lemma_pow2_pos((b - a) as nat);
    lemma_pow2_mul(a, (b - a) as nat);
    lemma_mod_breakdown(x as int, pa, pc);
    // x % (pa * pc) == pa * ((x / pa) % pc) + x % pa
    lemma_mod_pos_bound(x as int, pa);
    lemma_mod_pos_bound(x as int / pa, pc);
    lemma_fundamental_div_mod_converse(
        x as int % (pa * pc),
        pa,
        (x as int / pa) % pc,
        x as int % pa,
    );
    lemma_mul_is_commutative(pa, (x as int / pa) % pc);
}

/// The comparison of two values that are not NaN is the numeric order of
/// the values they stand for: sign and magnitude, with the two zeros equal
/// (the bits below the sign grow with the magnitude).
pub proof fn lemma_comparison_orders_values(f: FloatFormat, a: nat, b: nat)
    requires
        f.valid(),
        f.category(a) != FpCategory::Nan,
        f.category(b) != FpCategory::Nan,
    ensures
        f.comparison(a, b) == int_order(f.signed_magnitude(a), f.signed_magnitude(b)),
{
    lemma_not_nan_abs_bound(f, a);
    lemma_not_nan_abs_bound(f, b);
}

/// The number that magnitude bits stand for lies between `2^(e - 1)` and
/// `2^e` times the implicit bit, for an exponent field `e` above zero, and
/// below the implicit bit when the exponent field is zero.
pub proof fn lemma_scaled_magnitude_range(f: FloatFormat, a: nat)
    requires
        f.valid(),
    ensures
        a / f.implicit_bit() == 0 ==> f.scaled_magnitude(a) < f.implicit_bit(),
        a / f.implicit_bit() == 0 ==> f.scaled_magnitude(a) == a,
        a / f.implicit_bit() > 0 ==> f.implicit_bit() * pow2((a / f.implicit_bit() - 1) as nat)
            <= f.scaled_magnitude(a),
        a / f.implicit_bit() > 0 ==> f.scaled_magnitude(a) < f.implicit_bit() * pow2(
            a / f.implicit_bit(),
        ),
{
    let i = f.implicit_bit();
    lemma_pow2_pos(f.significand_bits as nat);
    let e = a / i;
    let m = a % i;
    lemma_fundamental_div_mod(a as int, i as int);
    if e > 0 {
        let p = pow2((e - 1) as nat);
        lemma_pow2_facts(e);
        lemma_mul_inequality(i as int, (i + m) as int, p as int);
        lemma_mul_strict_inequality((i + m) as int, (2 * i) as int, p as int);
        lemma_mul_is_associative(2, i as int, p as int);
        lemma_mul_is_commutative(i as int, p as int);
        assert(i * pow2(e) == (2 * i) * p) by {
            lemma_mul_is_associative(i as int, 2, p as int);
            lemma_mul_is_commutative(i as int, 2);
        }
    } else {
        assert(a == m);
    }
}

/// The number that magnitude bits stand for grows strictly with the bits.
pub proof fn lemma_scaled_magnitude_increases(f: FloatFormat, a: nat, b: nat)
    requires
        f.valid(),
        a < b,
    ensures
        f.scaled_magnitude(a) < f.scaled_magnitude(b),
{
    let i = f.implicit_bit();
    lemma_pow2_pos(f.significand_bits as nat);
    let ea = a / i;
    let eb = b / i;
    lemma_div_is_ordered(a as int, b as int, i as int);
    lemma_fundamental_div_mod(a as int, i as int);
    lemma_fundamental_div_mod(b as int, i as int);
    lemma_scaled_magnitude_range(f, a);
    lemma_scaled_magnitude_range(f, b);
    if ea == eb {
        assert(a % i < b % i) by {
            lemma_mul_is_commutative(i as int, ea as int);
        }
        if ea > 0 {
            let p = pow2((ea - 1) as nat);
            lemma_pow2_pos((ea - 1) as nat);
            lemma_mul_strict_inequality((i + a % i) as int, (i + b % i) as int, p as int);
        }
    } else {
        if eb > 0 {
            lemma_pow2_le(ea, (eb - 1) as nat);
            lemma_mul_inequality(pow2(ea) as int, pow2((eb - 1) as nat) as int, i as int);
            lemma_mul_is_commutative(pow2(ea) as int, i as int);
            lemma_mul_is_commutative(pow2((eb - 1) as nat) as int, i as int);
            if ea == 0 {
                lemma_pow2_pos((eb - 1) as nat);
                lemma_mul_inequality(1, pow2((eb - 1) as nat) as int, i as int);
            }
        }
    }
}

/// Zero magnitude bits, and only they, stand for zero.
pub proof fn lemma_scaled_magnitude_zero(f: FloatFormat, a: nat)
    requires
        f.valid(),
    ensures
        (f.scaled_magnitude(a) == 0) == (a == 0),
{
    lemma_pow2_pos(f.significand_bits as nat);
    assert(f.scaled_magnitude(0) == 0) by {
        lemma_div_basics(f.implicit_bit() as int);
        lemma_small_mod(0, f.implicit_bit());
    }
    if a > 0 {
        lemma_scaled_magnitude_increases(f, 0, a);
    }
}

/// The signed magnitudes of two bit patterns are ordered as the numbers
/// they stand for.
pub proof fn lemma_signed_magnitude_orders_values(f: FloatFormat, a: nat, b: nat)
    requires
        f.valid(),
    ensures
        (f.signed_magnitude(a) < f.signed_magnitude(b)) == (f.signed_value(a) < f.signed_value(b)),
        (f.signed_magnitude(a) == f.signed_magnitude(b)) == (f.signed_value(a) == f.signed_value(
            b,
        )),
{
    let la = f.abs_of(a);
    let lb = f.abs_of(b);
    lemma_scaled_magnitude_zero(f, la);
    lemma_scaled_magnitude_zero(f, lb);
    if la < lb {
        lemma_scaled_magnitude_increases(f, la, lb);
    } else if lb < la {
        lemma_scaled_magnitude_increases(f, lb, la);
    }
}

/// Pattern comparison, for patterns that are not NaN, is the order of the
/// numbers they stand for: less, equal or greater exactly when the number
/// of `a` is below, equal to or above that of `b` (so the two zeros are
/// equal); a NaN on either side leaves the two unordered.
pub proof fn lemma_comparison_is_numeric_order(f: FloatFormat, a: nat, b: nat)
    requires
        f.valid(),
    ensures
        f.category(a) == FpCategory::Nan || f.category(b) == FpCategory::Nan ==> f.comparison(a, b)
            == BitsOrder::Unordered,
        f.category(a) != FpCategory::Nan && f.category(b) != FpCategory::Nan ==> {
            &&& (f.comparison(a, b) == BitsOrder::Less) == (f.signed_value(a) < f.signed_value(b))
            &&& (f.comparison(a, b) == BitsOrder::Equal) == (f.signed_value(a) == f.signed_value(b))
            &&& (f.comparison(a, b) == BitsOrder::Greater) == (f.signed_value(a) > f.signed_value(
                b,
            ))
        },
{
    if f.category(a) != FpCategory::Nan && f.category(b) != FpCategory::Nan {
        lemma_comparison_orders_values(f, a, b);
        lemma_signed_magnitude_orders_values(f, a, b);
    } else if f.category(a) == FpCategory::Nan {
        lemma_nan_abs_above_infinity(f, a);
    } else {
        lemma_nan_abs_above_infinity(f, b);
    }
}

/// A NaN pattern has its bits below the sign above those of infinity.
pub proof fn lemma_nan_abs_above_infinity(f: FloatFormat, x: nat)
    requires
        f.valid(),
        f.category(x) == FpCategory::Nan,
    ensures
        f.abs_of(x) > f.infinity_abs(),
{
    let s = f.significand_bits as nat;
    let e = f.exponent_bits as nat;
    let ax = f.abs_of(x);
    lemma_pow2_facts(s);
    lemma_pow2_facts(e);
    lemma_pow2_mul(s, e);
    lemma_mod_pow2_twice(x, s, s + e);
    lemma_mod_div_pow2(x, s, s + e);
    lemma_fundamental_div_mod(ax as int, pow2(s) as int);
    let ex = f.exponent_of(x);
    let m = f.significand_of(x);
    assert(ax == pow2(s) * ex + m);
    lemma_mul_is_commutative(pow2(s) as int, ex as int);
}

/// A pattern that is not NaN has its bits below the sign at most those of
/// infinity.
pub proof fn lemma_not_nan_abs_bound(f: FloatFormat, x: nat)
    requires
        f.valid(),
        f.category(x) != FpCategory::Nan,
    ensures
        f.abs_of(x) <= f.infinity_abs(),
{
    let s = f.significand_bits as nat;
    let e = f.exponent_bits as nat;
    let ax = f.abs_of(x);
    // abs_of(x) == exponent * 2^s + significand
    lemma_pow2_facts(s);
    lemma_pow2_facts(e);
    lemma_pow2_mul(s, e);
    lemma_mod_pow2_twice(x, s, s + e);
    lemma_mod_div_pow2(x, s, s + e);
    lemma_fundamental_div_mod(ax as int, pow2(s) as int);
    let ex = f.exponent_of(x);
    let m = f.significand_of(x);
    assert(ax == pow2(s) * ex + m);
    lemma_mod_pos_bound(x as int, pow2(s) as int);
    lemma_mod_pos_bound(x as int / pow2(s) as int, pow2(e) as int);
    if ex == f.exponent_max() {
        assert(m == 0);
        lemma_mul_is_commutative(pow2(s) as int, ex as int);
    } else {
        assert(ex + 1 <= f.exponent_max());
        lemma_mul_inequality(ex as int + 1, f.exponent_max() as int, pow2(s) as int);
        lemma_mul_is_distributive_add(pow2(s) as int, ex as int, 1);
        lemma_mul_is_commutative(pow2(s) as int, ex as int);
        lemma_mul_is_commutative(pow2(s) as int, ex as int + 1);
    }
}

/// `2^k` as a machine integer.
pub fn pow2_u64(k: u32) -> (r: u64)
    requires
        k < 64,
    ensures
        r == pow2(k as nat),
{
    proof {
        lemma_u64_pow2_no_overflow(k as nat);
        lemma_u64_shl_is_mul(1, k as u64);
    }
    1u64 << k
}

/// `x / 2^k`, computed by a right shift.
pub fn shr_u64(x: u64, k: u32) -> (r: u64)
    requires
        k < 64,
    ensures
        r == x as nat / pow2(k as nat),
{
    proof {
        lemma_u64_shr_is_div(x, k as u64);
    }
    x >> k
}

/// `x % 2^k`, computed by masking the low `k` bits.
pub fn low_u64(x: u64, k: u32) -> (r: u64)
    requires
        k < 64,
    ensures
        r == x as nat % pow2(k as nat),
{
    let p = pow2_u64(k);
    proof {
        lemma_pow2_pos(k as nat);
        lemma_u64_low_bits_mask_is_mod(x, k as nat);
    }
    x & (p - 1)
}

/// `x * 2^k`, computed by a left shift, where the product fits.
pub fn shl_u64(x: u64, k: u32) -> (r: u64)
    requires
        k < 64,
        x * pow2(k as nat) <= u64::MAX,
    ensures
        r == x * pow2(k as nat),
{
    proof {
        lemma_u64_shl_is_mul(x, k as u64);
    }
    x << k
}

impl FloatFormat {
    /// The bits of `x` below the sign bit.
    pub fn abs_bits(self, x: u64) -> (r: u64)
        requires
            self.valid(),
        ensures
            r == self.abs_of(x as nat),
    {
        low_u64(x, self.exponent_bits + self.significand_bits)
    }

    /// The absolute value bits of infinity.
    pub fn infinity_bits(self) -> (r: u64)
        requires
            self.valid(),
        ensures
            r == self.infinity_abs(),
            r < self.sign_bit(),
    {
        let p = pow2_u64(self.exponent_bits);
        proof {
            lemma_pow2_pos(self.exponent_bits as nat);
            lemma_mul_pow2_bound(
                (p - 1) as nat,
                self.exponent_bits as nat,
                (self.exponent_bits + self.significand_bits) as nat,
            );
            lemma_pow2_facts((self.exponent_bits + self.significand_bits) as nat);
        }
        shl_u64(p - 1, self.significand_bits)
    }

    /// Compares the bit patterns `a` and `b` of this format.
    pub fn compare_bits(self, a: u64, b: u64) -> (r: BitsOrder)
        requires
            self.valid(),
        ensures
            r == self.comparison(a as nat, b as nat),
    {
        let la = self.abs_bits(a);
        let lb = self.abs_bits(b);
        let inf = self.infinity_bits();
        if la > inf || lb > inf {
            return BitsOrder::Unordered;
        }
        if la == 0 && lb == 0 {
            return BitsOrder::Equal;
        }
        let top = self.exponent_bits + self.significand_bits;
        let a_negative = shr_u64(a, top) % 2 == 1;
        let b_negative = shr_u64(b, top) % 2 == 1;
        if a_negative && b_negative {
            if lb < la {
                BitsOrder::Less
            } else if lb == la {
                BitsOrder::Equal
            } else {
                BitsOrder::Greater
            }
        } else if a_negative {
            BitsOrder::Less
        } else if b_negative {
            BitsOrder::Greater
        } else if la < lb {
            BitsOrder::Less
        } else if la == lb {
            BitsOrder::Equal
        } else {
            BitsOrder::Greater
        }
    }

    /// Classifies the bit pattern `x` of this format.
    pub fn classify_bits(self, x: u64) -> (r: FpCategory)
        requires
            self.valid(),
        ensures
            r == self.category(x as nat),
    {
        let e = low_u64(shr_u64(x, self.significand_bits), self.exponent_bits);
        let m = low_u64(x, self.significand_bits);
        proof {
            lemma_pow2_pos(self.exponent_bits as nat);
        }
        let e_max = pow2_u64(self.exponent_bits) - 1;
        if e == e_max {
            if m == 0 {
                FpCategory::Infinite
            } else {
                FpCategory::Nan
            }
        } else if e == 0 {
            if m == 0 {
                FpCategory::Zero
            } else {
                FpCategory::Subnormal
            }
        } else {
            FpCategory::Normal
        }
    }
}

} // verus!
