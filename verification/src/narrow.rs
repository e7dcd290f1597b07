//! Conversion of a bit pattern to a narrower format, rounding to nearest
//! with ties to even (IEEE 754 `convertFormat`).

use vstd::arithmetic::div_mod::*;
use vstd::arithmetic::mul::*;
use vstd::arithmetic::power2::*;
use vstd::prelude::*;

use crate::format::{
    lemma_mod_div_pow2, lemma_mod_pow2_twice, lemma_mul_pow2_bound, lemma_pow2_facts,
    lemma_pow2_le, lemma_pow2_mul, low_u64, pow2_u64, shl_u64, shr_u64, FloatFormat, FpCategory,
};

verus! {

/// Whether shifting `m` right by `shift` places discards set bits.
pub open spec fn sticky(m: nat, shift: nat) -> bool {
    m % pow2(shift) != 0
}

/// `x / 2^k` rounded to the nearest integer, ties to the even one.
pub open spec fn round_half_even(x: nat, k: nat) -> nat {
    let q = x / pow2(k);
    let r = x % pow2(k);
    let half = pow2((k - 1) as nat);
    if r > half {
        q + 1
    } else if r == half {
        q + q % 2
    } else {
        q
    }
}

impl FloatFormat {
    /// Whether `g` is a narrower format that `self` converts to: at least two
    /// fewer significand bits, no more exponent bits, no wider storage.
    pub open spec fn narrows_to(self, g: FloatFormat) -> bool {
        &&& g.significand_bits + 2 <= self.significand_bits
        &&& g.exponent_bits <= self.exponent_bits
        &&& g.storage_bits <= self.storage_bits
    }

    /// The smallest magnitude bits of `self` that are normal in `g`.
    pub open spec fn underflow_limit(self, g: FloatFormat) -> nat {
        ((self.exponent_bias() + 1 - g.exponent_bias()) as nat) * self.implicit_bit()
    }

    /// The smallest magnitude bits of `self` that overflow `g`.
    pub open spec fn overflow_limit(self, g: FloatFormat) -> nat {
        ((self.exponent_bias() + g.exponent_max() - g.exponent_bias()) as nat)
            * self.implicit_bit()
    }

    /// The significand of the magnitude bits `a`, with the implicit bit
    /// when the exponent field is not zero.
    pub open spec fn full_significand(self, a: nat) -> nat {
        if a / self.implicit_bit() == 0 {
            a
        } else {
            a % self.implicit_bit() + self.implicit_bit()
        }
    }

    /// The number of places the significand of a value below the normal
    /// range of `g` is shifted right to become a subnormal significand of
    /// `g` (a zero exponent field counts as one, as subnormals have the
    /// exponent of the smallest normals).
    pub open spec fn denormal_shift(self, g: FloatFormat, a: nat) -> nat {
        let e = a / self.implicit_bit();
        (self.exponent_bias() + 1 - g.exponent_bias() - (if e == 0 {
            1
        } else {
            e
        })) as nat
    }

    /// Magnitude bits `a`, normal in `g`: `delta` significand bits dropped
    /// with rounding, the exponent rebiased.
    pub open spec fn narrow_normal(self, g: FloatFormat, a: nat) -> nat {
        let delta = (self.significand_bits - g.significand_bits) as nat;
        (round_half_even(a, delta) - ((self.exponent_bias() - g.exponent_bias()) as nat)
            * g.implicit_bit()) as nat
    }

    /// Magnitude bits `a` of a NaN: a quiet NaN of `g` keeping the top of the
    /// payload.
    pub open spec fn narrow_nan(self, g: FloatFormat, a: nat) -> nat {
        let delta = (self.significand_bits - g.significand_bits) as nat;
        g.infinity_abs() + pow2((g.significand_bits - 1) as nat) + (a % pow2(
            (self.significand_bits - 1) as nat,
        )) / pow2(delta)
    }

    /// Magnitude bits `a` below the normal range of `g`: a subnormal of `g`
    /// or zero (or the smallest normal when rounding carries), rounded after
    /// a right shift that keeps a sticky bit.
    pub open spec fn narrow_tiny(self, g: FloatFormat, a: nat) -> nat {
        let delta = (self.significand_bits - g.significand_bits) as nat;
        let shift = self.denormal_shift(g, a);
        let m = self.full_significand(a);
        if shift > self.significand_bits {
            0
        } else {
            let q = m / pow2(shift);
            let denormalized = if sticky(m, shift) && q % 2 == 0 {
                q + 1
            } else {
                q
            };
            round_half_even(denormalized, delta)
        }
    }

    /// The magnitude bits in `g` of the conversion of the magnitude bits `a`.
    pub open spec fn narrow_magnitude(self, g: FloatFormat, a: nat) -> nat {
        if self.underflow_limit(g) <= a && a < self.overflow_limit(g) {
            self.narrow_normal(g, a)
        } else if a > self.infinity_abs() {
            self.narrow_nan(g, a)
        } else if a >= self.overflow_limit(g) {
            // too large, or infinite: infinity
            g.infinity_abs()
        } else {
            self.narrow_tiny(g, a)
        }
    }

    /// The bit pattern in `g` of the conversion of the bit pattern `x`: the
    /// sign carried over and the magnitude converted.
    pub open spec fn narrow(self, g: FloatFormat, x: nat) -> nat {
        (if self.sign_of(x) {
            g.sign_bit()
        } else {
            0
        }) + self.narrow_magnitude(g, self.abs_of(x))
    }
}

/// Facts about the exponent bias of a valid format.
pub proof fn lemma_bias_facts(f: FloatFormat)
    requires
        f.valid(),
    ensures
        f.exponent_bias() == pow2((f.exponent_bits - 1) as nat) - 1,
        f.exponent_max() == 2 * f.exponent_bias() + 1,
        f.exponent_bias() >= 7,
        f.exponent_max() < pow2(f.exponent_bits as nat),
        f.infinity_abs() + f.implicit_bit() == f.sign_bit(),
        f.sign_bit() <= 0x8000_0000_0000_0000,
        pow2(f.total_bits()) == 2 * f.sign_bit(),
        f.total_bits() <= f.storage_bits,
        f.storage_bits <= 64,
{
    let e = f.exponent_bits as nat;
    let s = f.significand_bits as nat;
    lemma_pow2_facts(e);
    lemma_pow2_facts((e - 1) as nat);
    lemma_pow2_le(3, (e - 1) as nat);
    lemma2_to64();
    lemma_pow2_mul(e, s);
    lemma_pow2_facts(f.total_bits());
    lemma_pow2_facts((f.total_bits() - 1) as nat);
    assert(f.infinity_abs() + f.implicit_bit() == pow2(e) * pow2(s)) by {
        lemma_mul_is_distributive_add(pow2(s) as int, f.exponent_max() as int, 1);
        lemma_mul_is_commutative(pow2(s) as int, f.exponent_max() as int);
        lemma_mul_is_commutative(pow2(s) as int, pow2(e) as int);
    }
}

/// Facts about the limits of the normal range of `g` inside `f`.
pub proof fn lemma_limits(f: FloatFormat, g: FloatFormat)
    requires
        f.valid(),
        g.valid(),
        f.narrows_to(g),
    ensures
        g.exponent_bias() <= f.exponent_bias(),
        f.exponent_bias() + g.exponent_max() - g.exponent_bias() <= f.exponent_max(),
        f.implicit_bit() <= f.underflow_limit(g),
        f.underflow_limit(g) < f.overflow_limit(g),
        f.overflow_limit(g) <= f.infinity_abs(),
        f.infinity_abs() < f.sign_bit(),
{
    lemma_bias_facts(f);
    lemma_bias_facts(g);
    lemma_pow2_le((g.exponent_bits - 1) as nat, (f.exponent_bits - 1) as nat);
    let p = f.implicit_bit() as int;
    lemma_pow2_pos(f.significand_bits as nat);
    let lo = (f.exponent_bias() + 1 - g.exponent_bias()) as int;
    let hi = (f.exponent_bias() + g.exponent_max() - g.exponent_bias()) as int;
    lemma_mul_inequality(1, lo, p);
    lemma_mul_strict_inequality(lo, hi, p);
    lemma_mul_inequality(hi, f.exponent_max() as int, p);
}

/// Rounding to nearest, ties to even, is the truncated quotient or one more.
pub proof fn lemma_round_half_even_bounds(x: nat, k: nat)
    requires
        k >= 1,
    ensures
        x / pow2(k) <= round_half_even(x, k) <= x / pow2(k) + 1,
        round_half_even(x, k) <= x,
{
    lemma_pow2_facts(k);
    lemma_pow2_facts((k - 1) as nat);
    lemma_fundamental_div_mod(x as int, pow2(k) as int);
    lemma_mod_pos_bound(x as int, pow2(k) as int);
    let q = x / pow2(k);
    let r = x % pow2(k);
    if q >= 1 || r > pow2((k - 1) as nat) {
        lemma_mul_inequality(1, pow2(k) as int, q as int);
        lemma_mul_is_commutative(pow2(k) as int, q as int);
        if q >= 1 {
            assert(q * 2 <= pow2(k) * q) by {
                lemma_mul_inequality(2, pow2(k) as int, q as int);
                lemma_mul_is_commutative(2, q as int);
            }
        }
    }
}

/// A value below `2^(d + delta)` rounds to at most `2^d`.
pub proof fn lemma_round_half_even_below(x: nat, d: nat, delta: nat)
    requires
        delta >= 1,
        x < pow2(d + delta),
    ensures
        round_half_even(x, delta) <= pow2(d),
{
    lemma_round_half_even_bounds(x, delta);
    lemma_div_scaled_bound(x, 1, d, delta);
    lemma_le_succ(x / pow2(delta), round_half_even(x, delta), pow2(d));
}

/// `rr <= t + 1` and `t < c` give `rr <= c`.
proof fn lemma_le_succ(t: nat, rr: nat, c: nat)
    requires
        t < c,
        rr <= t + 1,
    ensures
        rr <= c,
{
}

/// `round_half_even(x, k)` computed with shifts and masks.
pub fn round_half_even_u64(x: u64, k: u32) -> (r: u64)
    requires
        1 <= k < 64,
    ensures
        r == round_half_even(x as nat, k as nat),
{
    proof {
        lemma_round_half_even_bounds(x as nat, k as nat);
    }
    let q = shr_u64(x, k);
    let rest = low_u64(x, k);
    let half = pow2_u64(k - 1);
    if rest > half {
        q + 1
    } else if rest == half {
        q + q % 2
    } else {
        q
    }
}

/// `a >= c * 2^(d + delta)` gives `a / 2^delta >= c * 2^d`, and
/// `a < c * 2^(d + delta)` gives `a / 2^delta < c * 2^d`.
pub proof fn lemma_div_scaled_bound(a: nat, c: nat, d: nat, delta: nat)
    ensures
        a >= c * pow2(d + delta) ==> a / pow2(delta) >= c * pow2(d),
        a < c * pow2(d + delta) ==> a / pow2(delta) < c * pow2(d),
{
    lemma_pow2_pos(delta);
    lemma_pow2_mul(d, delta);
    lemma_mul_is_associative(c as int, pow2(d) as int, pow2(delta) as int);
    let cd = c * pow2(d);
    lemma_div_multiples_vanish(cd as int, pow2(delta) as int);
    lemma_mul_is_commutative(cd as int, pow2(delta) as int);
    if a >= c * pow2(d + delta) {
        lemma_div_is_ordered((cd * pow2(delta)) as int, a as int, pow2(delta) as int);
    } else {
        lemma_fundamental_div_mod(a as int, pow2(delta) as int);
        lemma_mod_pos_bound(a as int, pow2(delta) as int);
        if a / pow2(delta) >= cd {
            lemma_mul_inequality(cd as int, (a / pow2(delta)) as int, pow2(delta) as int);
            lemma_mul_is_commutative(pow2(delta) as int, (a / pow2(delta)) as int);
        }
    }
}

impl FloatFormat {
    /// The exponent bias, at run time.
    pub fn exponent_bias_u64(self) -> (r: u64)
        requires
            self.valid(),
        ensures
            r == self.exponent_bias(),
    {
        proof {
            lemma_bias_facts(self);
        }
        pow2_u64(self.exponent_bits - 1) - 1
    }

    /// The maximal exponent field value, at run time.
    pub fn exponent_max_u64(self) -> (r: u64)
        requires
            self.valid(),
        ensures
            r == self.exponent_max(),
    {
        proof {
            lemma_bias_facts(self);
        }
        pow2_u64(self.exponent_bits) - 1
    }

    /// `narrow_normal`, at run time.
    fn narrow_normal_u64(self, g: FloatFormat, a: u64) -> (r: u64)
        requires
            self.valid(),
            g.valid(),
            self.narrows_to(g),
            self.underflow_limit(g) <= a < self.overflow_limit(g),
        ensures
            r == self.narrow_normal(g, a as nat),
            r <= g.infinity_abs(),
    {
        proof {
            lemma_limits(self, g);
            lemma_bias_facts(self);
            lemma_bias_facts(g);
            lemma_pow2_le(self.exponent_bits as nat, 11);
            lemma_pow2_le(g.exponent_bits as nat, 11);
            lemma2_to64();
        }
        let d = g.significand_bits;
        let delta = self.significand_bits - d;
        let bias_f = self.exponent_bias_u64();
        let bias_g = g.exponent_bias_u64();
        let e_max_g = g.exponent_max_u64();
        let q = round_half_even_u64(a, delta);
        proof {
            lemma_round_half_even_bounds(a as nat, delta as nat);
            lemma_div_scaled_bound(a as nat, (bias_f + 1 - bias_g) as nat, d as nat, delta as nat);
            lemma_div_scaled_bound(
                a as nat,
                (bias_f + e_max_g - bias_g) as nat,
                d as nat,
                delta as nat,
            );
            lemma_pow2_pos(d as nat);
            lemma_mul_inequality(
                (bias_f - bias_g) as int,
                (bias_f + 1 - bias_g) as int,
                pow2(d as nat) as int,
            );
            lemma_mul_is_distributive_add(
                pow2(d as nat) as int,
                (bias_f - bias_g) as int,
                e_max_g as int,
            );
            lemma_mul_is_commutative(pow2(d as nat) as int, (bias_f - bias_g) as int);
            lemma_mul_is_commutative(pow2(d as nat) as int, e_max_g as int);
            lemma_mul_is_commutative(pow2(d as nat) as int, (bias_f + e_max_g - bias_g) as int);
            lemma_mul_pow2_bound(
                (bias_f - bias_g) as nat,
                self.exponent_bits as nat,
                (self.exponent_bits + d) as nat,
            );
            lemma_pow2_le((self.exponent_bits + d) as nat, 63);
            lemma_pow2_facts(63);
        }
        let rebias = shl_u64(bias_f - bias_g, d);
        q - rebias
    }

    /// `narrow_nan`, at run time.
    fn narrow_nan_u64(self, g: FloatFormat, a: u64) -> (r: u64)
        requires
            self.valid(),
            g.valid(),
            self.narrows_to(g),
        ensures
            r == self.narrow_nan(g, a as nat),
            r < g.sign_bit(),
    {
        proof {
            lemma_bias_facts(g);
        }
        let s = self.significand_bits;
        let d = g.significand_bits;
        let delta = s - d;
        proof {
            lemma_pow2_facts((s - 1) as nat);
            lemma_pow2_facts((d - 1) as nat);
            lemma_mod_pos_bound(a as int, pow2((s - 1) as nat) as int);
            lemma_div_scaled_bound(
                (a as nat) % pow2((s - 1) as nat),
                1,
                (d - 1) as nat,
                delta as nat,
            );
            lemma_pow2_facts(d as nat);
        }
        let inf_g = g.infinity_bits();
        let payload = shr_u64(low_u64(a, s - 1), delta);
        inf_g + pow2_u64(d - 1) + payload
    }

    /// `narrow_tiny`, at run time.
    #[verifier::rlimit(30)]
    fn narrow_tiny_u64(self, g: FloatFormat, a: u64) -> (r: u64)
        requires
            self.valid(),
            g.valid(),
            self.narrows_to(g),
            a < self.underflow_limit(g),
        ensures
            r == self.narrow_tiny(g, a as nat),
            r <= g.implicit_bit(),
    {
        proof {
            lemma_limits(self, g);
        }
        let s = self.significand_bits;
        let d = g.significand_bits;
        let delta = s - d;
        let bias_f = self.exponent_bias_u64();
        let bias_g = g.exponent_bias_u64();
        proof {
            lemma_div_scaled_bound(a as nat, (bias_f + 1 - bias_g) as nat, 0, s as nat);
            lemma2_to64();
        }
        let e = shr_u64(a, s);
        proof {
            lemma_pow2_facts((s + 1) as nat);
            lemma_mod_pos_bound(a as int, pow2(s as nat) as int);
            lemma_div_pow2_zero(a as nat, s as nat);
        }
        let shift = if e == 0 {
            bias_f - bias_g
        } else {
            bias_f + 1 - bias_g - e
        };
        let m = if e == 0 {
            a
        } else {
            low_u64(a, s) + pow2_u64(s)
        };
        if shift > s as u64 {
            proof {
                lemma_pow2_pos(d as nat);
            }
            0
        } else {
            let denormalized = self.denormalize_u64(m, shift as u32);
            proof {
                lemma_round_half_even_below(denormalized as nat, d as nat, delta as nat);
            }
            round_half_even_u64(denormalized, delta)
        }
    }

    /// The significand `m` shifted right by `shift` places, with the sticky
    /// bit set in the last place when set bits were shifted out.
    fn denormalize_u64(self, m: u64, shift: u32) -> (r: u64)
        requires
            self.valid(),
            shift <= self.significand_bits,
            m < pow2((self.significand_bits + 1) as nat),
            shift >= 1 || m < pow2(self.significand_bits as nat),
        ensures
            r == (if sticky(m as nat, shift as nat) && (m as nat / pow2(shift as nat)) % 2 == 0 {
                m as nat / pow2(shift as nat) + 1
            } else {
                m as nat / pow2(shift as nat)
            }),
            r < pow2(self.significand_bits as nat),
    {
        let s = self.significand_bits;
        let shifted_out = low_u64(m, shift) != 0;
        let q = shr_u64(m, shift);
        proof {
            lemma_denormalized_bound(self, m as nat, shift as nat);
        }
        if shifted_out && q % 2 == 0 {
            q + 1
        } else {
            q
        }
    }

    /// Converts the bit pattern `x` of `self` to the narrower format `g`,
    /// rounding to nearest with ties to even.
    pub fn narrow_bits(self, g: FloatFormat, x: u64) -> (r: u64)
        requires
            self.valid(),
            g.valid(),
            self.narrows_to(g),
        ensures
            r == self.narrow(g, x as nat),
            r < pow2(g.total_bits()),
    {
        proof {
            lemma_limits(self, g);
            lemma_bias_facts(self);
            lemma_bias_facts(g);
            lemma_pow2_le(self.exponent_bits as nat, 11);
            lemma_pow2_le(g.exponent_bits as nat, 11);
            lemma2_to64();
        }
        let s = self.significand_bits;
        let a = self.abs_bits(x);
        let bias_f = self.exponent_bias_u64();
        let bias_g = g.exponent_bias_u64();
        let e_max_g = g.exponent_max_u64();
        proof {
            lemma_mul_pow2_bound(
                (bias_f + e_max_g - bias_g) as nat,
                self.exponent_bits as nat,
                (self.exponent_bits + s) as nat,
            );
            lemma_mul_pow2_bound(
                (bias_f + 1 - bias_g) as nat,
                self.exponent_bits as nat,
                (self.exponent_bits + s) as nat,
            );
            lemma_pow2_facts((self.exponent_bits + s) as nat);
        }
        let under = shl_u64(bias_f + 1 - bias_g, s);
        let over = shl_u64(bias_f + e_max_g - bias_g, s);
        let abs_r: u64 = if under <= a && a < over {
            self.narrow_normal_u64(g, a)
        } else if a > self.infinity_bits() {
            self.narrow_nan_u64(g, a)
        } else if a >= over {
            g.infinity_bits()
        } else {
            proof {
                lemma_pow2_facts(g.significand_bits as nat);
            }
            self.narrow_tiny_u64(g, a)
        };
        proof {
            lemma_pow2_pos(g.significand_bits as nat);
            assert(g.infinity_abs() > 0) by {
                lemma_mul_strictly_positive(g.exponent_max() as int, g.implicit_bit() as int);
            }
            assert(abs_r < g.sign_bit());
        }
        let sign = shr_u64(x, self.total_bits_u32() - 1) % 2 == 1;
        let sign_g = pow2_u64(g.total_bits_u32() - 1);
        if sign {
            sign_g + abs_r
        } else {
            abs_r
        }
    }

    /// The number of bits of the format, at run time.
    pub fn total_bits_u32(self) -> (r: u32)
        requires
            self.valid(),
        ensures
            r == self.total_bits(),
    {
        1 + self.exponent_bits + self.significand_bits
    }
}

/// The category of a pattern depends on its bits below the sign only.
pub proof fn lemma_category_ignores_sign(f: FloatFormat, a: nat, sign: bool)
    requires
        f.valid(),
        a < f.sign_bit(),
    ensures
        f.category((if sign {
            f.sign_bit()
        } else {
            0
        }) + a) == f.category(a),
        f.sign_of((if sign {
            f.sign_bit()
        } else {
            0
        }) + a) == sign,
        f.abs_of((if sign {
            f.sign_bit()
        } else {
            0
        }) + a) == a,
{
    let s = f.significand_bits as nat;
    let e = f.exponent_bits as nat;
    lemma_bias_facts(f);
    lemma_pow2_mul(s, e);
    lemma_pow2_facts(s);
    lemma_pow2_facts(e);
    let x = (if sign {
        f.sign_bit()
    } else {
        0
    }) + a;
    let ps = pow2(s);
    let pe = pow2(e);
    assert(f.sign_bit() == ps * pe);
    if sign {
        lemma_fundamental_div_mod_converse(x as int, f.sign_bit() as int, 1, a as int);
        lemma_fundamental_div_mod(a as int, ps as int);
        lemma_mod_pos_bound(a as int, ps as int);
        let qa = a / ps;
        let ra = a % ps;
        assert((e + s) as nat == (f.total_bits() - 1) as nat);
        lemma_div_pow2_lt(a, e, s);
        assert(qa < pe);
        assert(x == (pe + qa) * ps + ra) by {
            lemma_mul_is_distributive_add(ps as int, pe as int, qa as int);
            lemma_mul_is_commutative(ps as int, (pe + qa) as int);
        }
        lemma_fundamental_div_mod_converse(x as int, ps as int, (pe + qa) as int, ra as int);
        assert(((pe + qa) as nat) == 1 * pe + qa);
        lemma_fundamental_div_mod_converse((pe + qa) as int, pe as int, 1, qa as int);
        lemma_fundamental_div_mod_converse(qa as int, pe as int, 0, qa as int);
    } else {
        lemma_fundamental_div_mod_converse(x as int, f.sign_bit() as int, 0, a as int);
    }
}

/// A two-digit number `q * p + r` with `r < p` and `q < b` is below `b * p`.
pub proof fn lemma_digits_lt(q: nat, r: nat, p: nat, b: nat)
    requires
        r < p,
        q < b,
    ensures
        q * p + r < b * p,
{
    lemma_mul_inequality(q as int + 1, b as int, p as int);
    lemma_mul_is_distributive_add(p as int, q as int, 1);
    lemma_mul_is_commutative(p as int, q as int);
    lemma_mul_is_commutative(p as int, q as int + 1);
}

/// A two-digit number `q * p + r` with `q >= 1` is at least `p`.
pub proof fn lemma_digits_ge(q: nat, r: nat, p: nat)
    requires
        q >= 1,
    ensures
        q * p + r >= p,
{
    lemma_mul_inequality(1, q as int, p as int);
}

/// `m < 2^(k + j)` gives `m / 2^j < 2^k`.
pub proof fn lemma_div_pow2_lt(m: nat, k: nat, j: nat)
    requires
        m < pow2(k + j),
    ensures
        m / pow2(j) < pow2(k),
{
    lemma_div_scaled_bound(m, 1, k, j);
}

/// The category of a magnitude is decided by where it lies relative to
/// the implicit bit and to infinity.
pub proof fn lemma_category_of_magnitude(f: FloatFormat, a: nat)
    requires
        f.valid(),
        a < f.sign_bit(),
    ensures
        (f.category(a) == FpCategory::Nan) == (a > f.infinity_abs()),
        (f.category(a) == FpCategory::Infinite) == (a == f.infinity_abs()),
        (f.category(a) == FpCategory::Zero) == (a == 0),
        (f.category(a) == FpCategory::Subnormal) == (0 < a < f.implicit_bit()),
        (f.category(a) == FpCategory::Normal) == (f.implicit_bit() <= a < f.infinity_abs()),
{
    let s = f.significand_bits as nat;
    let e = f.exponent_bits as nat;
    lemma_bias_facts(f);
    lemma_pow2_mul(s, e);
    lemma_pow2_facts(s);
    lemma_pow2_facts(e);
    lemma2_to64();
    let ps = pow2(s);
    let pe = pow2(e);
    lemma_fundamental_div_mod(a as int, ps as int);
    lemma_mod_pos_bound(a as int, ps as int);
    let q = a / ps;
    let r = a % ps;
    assert(a < pe * ps) by {
        lemma_mul_is_commutative(ps as int, pe as int);
    }
    lemma_div_scaled_bound(a, pe, 0, s);
    assert(q < pe);
    lemma_fundamental_div_mod_converse(q as int, pe as int, 0, q as int);
    assert(f.exponent_of(a) == q);
    assert(f.significand_of(a) == r);
    let em = f.exponent_max();
    assert(a == q * ps + r) by {
        lemma_mul_is_commutative(ps as int, q as int);
    }
    assert(f.infinity_abs() == em * ps);
    if q < em {
        lemma_digits_lt(q, r, ps, em);
    }
    if q >= 1 {
        lemma_digits_ge(q, r, ps);
    }
    if q == em && r > 0 {
        assert(a > em * ps);
    }
    if q == 0 {
        lemma_mul_basics(ps as int);
        assert(a == r);
    }
}

/// The categories that conversion to a narrower format produces: NaN stays
/// NaN, infinity stays infinite, zero stays zero, a finite value never
/// becomes NaN; and when the normal range of `g` starts above every
/// subnormal of `self`, subnormals become zero.
pub proof fn lemma_narrow_categories(f: FloatFormat, g: FloatFormat, x: nat)
    requires
        f.valid(),
        g.valid(),
        f.narrows_to(g),
        x < pow2(f.storage_bits as nat),
    ensures
        f.category(x) == FpCategory::Nan ==> g.category(f.narrow(g, x)) == FpCategory::Nan,
        f.category(x) == FpCategory::Infinite ==> g.category(f.narrow(g, x))
            == FpCategory::Infinite,
        f.category(x) != FpCategory::Nan ==> g.category(f.narrow(g, x)) != FpCategory::Nan,
        f.category(x) == FpCategory::Zero ==> g.category(f.narrow(g, x)) == FpCategory::Zero,
        f.exponent_bias() + 1 - g.exponent_bias() > f.significand_bits ==> {
            ||| f.category(x) == FpCategory::Zero
            ||| f.category(x) == FpCategory::Subnormal
        } ==> g.category(f.narrow(g, x)) == FpCategory::Zero,
        f.sign_of(x) == g.sign_of(f.narrow(g, x)),
{
    let a = f.abs_of(x);
    lemma_limits(f, g);
    lemma_bias_facts(f);
    lemma_bias_facts(g);
    lemma_pow2_pos(f.sign_bit());
    lemma_mod_pos_bound(x as int, f.sign_bit() as int);
    // the category of x is that of its magnitude
    lemma_abs_category(f, x);
    lemma_category_of_magnitude(f, a);
    let b = f.narrow_magnitude(g, a);
    lemma_narrow_magnitude_bound(f, g, a);
    lemma_category_ignores_sign(g, b, f.sign_of(x));
    lemma_category_of_magnitude(g, b);
    if a > f.infinity_abs() {
        lemma_narrow_nan_is_nan(f, g, a);
    }
    if a < f.implicit_bit() {
        lemma_narrow_tiny_rounds(f, g, a);
        lemma_div_pow2_zero(a, f.significand_bits as nat);
        let k = f.denormal_shift(g, a) + (f.significand_bits - g.significand_bits) as nat;
        if a == 0 {
            lemma_round_small(0, k);
        }
        if f.exponent_bias() + 1 - g.exponent_bias() > f.significand_bits {
            lemma_pow2_le(f.significand_bits as nat, (k - 1) as nat);
            lemma_round_small(a, k);
        }
    }
}

/// The category of a pattern is that of its bits below the sign.
pub proof fn lemma_abs_category(f: FloatFormat, x: nat)
    requires
        f.valid(),
    ensures
        f.category(x) == f.category(f.abs_of(x)),
{
    let s = f.significand_bits as nat;
    let e = f.exponent_bits as nat;
    lemma_pow2_mul(s, e);
    lemma_mod_pow2_twice(x, s, s + e);
    lemma_mod_div_pow2(x, s, s + e);
    lemma_mod_pow2_twice(f.abs_of(x), s, s + e);
    lemma_mod_div_pow2(f.abs_of(x), s, s + e);
    lemma_pow2_facts(s + e);
    lemma_mod_pos_bound(x as int, pow2(s + e) as int);
    vstd::arithmetic::div_mod::lemma_small_mod(f.abs_of(x), pow2(s + e));
}

/// The magnitude of a conversion lies below the sign bit of `g`, and is at
/// most infinity unless the source is NaN.
pub proof fn lemma_narrow_magnitude_bound(f: FloatFormat, g: FloatFormat, a: nat)
    requires
        f.valid(),
        g.valid(),
        f.narrows_to(g),
        a < f.sign_bit(),
    ensures
        f.narrow_magnitude(g, a) < g.sign_bit(),
        a <= f.infinity_abs() ==> f.narrow_magnitude(g, a) <= g.infinity_abs(),
{
    lemma_limits(f, g);
    lemma_bias_facts(g);
    lemma_pow2_pos(g.significand_bits as nat);
    assert(g.infinity_abs() >= g.implicit_bit()) by {
        lemma_mul_inequality(1, g.exponent_max() as int, g.implicit_bit() as int);
    }
    if f.underflow_limit(g) <= a && a < f.overflow_limit(g) {
        lemma_narrow_normal_bound(f, g, a);
    } else if a > f.infinity_abs() {
        lemma_narrow_nan_is_nan(f, g, a);
    } else if a >= f.overflow_limit(g) {
    } else {
        lemma_narrow_tiny_bound(f, g, a);
    }
}

/// The normal branch stays at most infinity.
pub proof fn lemma_narrow_normal_bound(f: FloatFormat, g: FloatFormat, a: nat)
    requires
        f.valid(),
        g.valid(),
        f.narrows_to(g),
        f.underflow_limit(g) <= a < f.overflow_limit(g),
    ensures
        f.narrow_normal(g, a) <= g.infinity_abs(),
{
    lemma_limits(f, g);
    lemma_bias_facts(f);
    lemma_bias_facts(g);
    let d = g.significand_bits as nat;
    let delta = (f.significand_bits - g.significand_bits) as nat;
    let bf = f.exponent_bias();
    let bg = g.exponent_bias();
    let em = g.exponent_max();
    lemma_round_half_even_bounds(a, delta);
    lemma_div_scaled_bound(a, (bf + em - bg) as nat, d, delta);
    lemma_div_scaled_bound(a, (bf + 1 - bg) as nat, d, delta);
    lemma_pow2_pos(d);
    lemma_mul_inequality((bf - bg) as int, (bf + 1 - bg) as int, pow2(d) as int);
    lemma_mul_is_distributive_add(pow2(d) as int, (bf - bg) as int, em as int);
    lemma_mul_is_commutative(pow2(d) as int, (bf - bg) as int);
    lemma_mul_is_commutative(pow2(d) as int, em as int);
    lemma_mul_is_commutative(pow2(d) as int, (bf + em - bg) as int);
}

/// The NaN branch gives a NaN magnitude of `g`.
pub proof fn lemma_narrow_nan_is_nan(f: FloatFormat, g: FloatFormat, a: nat)
    requires
        f.valid(),
        g.valid(),
        f.narrows_to(g),
    ensures
        g.infinity_abs() < f.narrow_nan(g, a) < g.sign_bit(),
{
    let s = f.significand_bits as nat;
    let d = g.significand_bits as nat;
    let delta = (s - d) as nat;
    lemma_bias_facts(g);
    lemma_pow2_facts((s - 1) as nat);
    lemma_pow2_facts(d);
    let low = a % pow2((s - 1) as nat);
    lemma_mod_pos_bound(a as int, pow2((s - 1) as nat) as int);
    assert(((d - 1) as nat + delta) as nat == (s - 1) as nat);
    lemma_div_pow2_lt(low, (d - 1) as nat, delta);
    let payload = low / pow2(delta);
    lemma_nan_sum(
        g.infinity_abs(),
        pow2((d - 1) as nat),
        payload,
        g.sign_bit(),
    );
}

/// `inf + h + p` with `0 <= p < h` and `inf + 2h == top` lies strictly
/// between `inf` and `top`.
proof fn lemma_nan_sum(inf: nat, h: nat, p: nat, top: nat)
    requires
        p < h,
        inf + 2 * h == top,
    ensures
        inf < inf + h + p < top,
{
}

/// The tiny branch stays at most the implicit bit of `g`.
pub proof fn lemma_narrow_tiny_bound(f: FloatFormat, g: FloatFormat, a: nat)
    requires
        f.valid(),
        g.valid(),
        f.narrows_to(g),
        a < f.underflow_limit(g),
    ensures
        f.narrow_tiny(g, a) <= g.implicit_bit(),
{
    let s = f.significand_bits as nat;
    let d = g.significand_bits as nat;
    let delta = (s - d) as nat;
    let shift = f.denormal_shift(g, a);
    lemma_limits(f, g);
    lemma_div_scaled_bound(a, (f.exponent_bias() + 1 - g.exponent_bias()) as nat, 0, s);
    lemma2_to64();
    if shift <= s {
        let m = f.full_significand(a);
        lemma_pow2_facts(s + 1);
        lemma_mod_pos_bound(a as int, pow2(s) as int);
        lemma_div_pow2_zero(a, s);
        let q = m / pow2(shift);
        lemma_denormalized_bound(f, m, shift);
        let den = if sticky(m, shift) && q % 2 == 0 {
            q + 1
        } else {
            q
        };
        assert((d + delta) as nat == s);
        lemma_round_half_even_below(den, d, delta);
    } else {
        lemma_pow2_pos(d);
    }
}

/// The quotient of a significand below `2^(s + 1)` by `2^shift` (below
/// `2^s` when the shift is zero), with a sticky increment of an even
/// quotient, stays below `2^s`.
pub proof fn lemma_denormalized_bound(f: FloatFormat, m: nat, shift: nat)
    requires
        f.valid(),
        shift <= f.significand_bits,
        m < pow2((f.significand_bits + 1) as nat),
        shift >= 1 || m < pow2(f.significand_bits as nat),
    ensures
        (if sticky(m, shift) && (m / pow2(shift)) % 2 == 0 {
            m / pow2(shift) + 1
        } else {
            m / pow2(shift)
        }) < pow2(f.significand_bits as nat),
{
    let s = f.significand_bits as nat;
    lemma_pow2_facts(s);
    if shift >= 1 {
        assert(((s + 1 - shift) as nat + shift) as nat == (s + 1) as nat);
        lemma_div_pow2_lt(m, (s + 1 - shift) as nat, shift);
        lemma_pow2_le((s + 1 - shift) as nat, s);
    } else {
        lemma2_to64();
        lemma_div_basics(m as int);
    }
    lemma_even_below(m / pow2(shift), pow2((s - 1) as nat));
}

/// An even number below `2 * h` stays below it after adding one.
proof fn lemma_even_below(q: nat, h: nat)
    requires
        q < 2 * h,
    ensures
        q % 2 == 0 ==> q + 1 < 2 * h,
{
}

/// Rounding `k * 2^delta * q + m` by `delta` places rounds `m` alone when
/// `q` is even: the high part carries through unchanged.
proof fn lemma_round_shifted(k: nat, m: nat, delta: nat)
    requires
        delta >= 1,
        k % 2 == 0,
    ensures
        round_half_even(k * pow2(delta) + m, delta) == k + round_half_even(m, delta),
{
    lemma_pow2_pos(delta);
    let pd = pow2(delta);
    lemma_fundamental_div_mod(m as int, pd as int);
    lemma_mod_pos_bound(m as int, pd as int);
    let mq = m / pd;
    let mr = m % pd;
    assert(k * pd + m == (k + mq) * pd + mr) by {
        lemma_mul_is_distributive_add(pd as int, k as int, mq as int);
        lemma_mul_is_commutative(pd as int, k as int);
        lemma_mul_is_commutative(pd as int, mq as int);
        lemma_mul_is_commutative(pd as int, (k + mq) as int);
    }
    lemma_fundamental_div_mod_converse(
        (k * pd + m) as int,
        pd as int,
        (k + mq) as int,
        mr as int,
    );
    assert((k + mq) % 2 == mq % 2) by {
        lemma_fundamental_div_mod(k as int, 2);
        lemma_mod_multiples_vanish((k / 2) as int, mq as int, 2);
    }
}

/// In the normal range of `g`, conversion rounds the significand of `a`
/// (with its implicit bit) to nearest, ties to even, at `delta` fewer
/// places, and keeps the exponent: the scaled value of the result, times
/// the ratio of the scales, is that rounded significand at the exponent of
/// `a`. (When rounding carries out of the largest exponent of `g`, the
/// result is infinity, whose bits read as that same power of two.)
pub proof fn lemma_narrow_normal_rounds(f: FloatFormat, g: FloatFormat, a: nat)
    requires
        f.valid(),
        g.valid(),
        f.narrows_to(g),
        f.underflow_limit(g) <= a < f.overflow_limit(g),
    ensures
        g.scaled_magnitude(f.narrow_magnitude(g, a)) * pow2(
            (f.exponent_bias() - g.exponent_bias()) as nat,
        ) == round_half_even(
            f.implicit_bit() + a % f.implicit_bit(),
            (f.significand_bits - g.significand_bits) as nat,
        ) * pow2((a / f.implicit_bit() - 1) as nat),
{
    lemma_limits(f, g);
    lemma_bias_facts(f);
    lemma_bias_facts(g);
    let sf = f.significand_bits as nat;
    let sg = g.significand_bits as nat;
    let delta = (sf - sg) as nat;
    let pf = f.implicit_bit();
    let pg = g.implicit_bit();
    let pd = pow2(delta);
    let rebias = (f.exponent_bias() - g.exponent_bias()) as nat;
    lemma_pow2_pos(sf);
    lemma_pow2_pos(sg);
    lemma_pow2_pos(delta);
    lemma_pow2_mul(sg, delta);
    assert(pf == pg * pd);
    lemma_pow2_facts(sg);
    assert(pg % 2 == 0);
    lemma_fundamental_div_mod(a as int, pf as int);
    lemma_mod_pos_bound(a as int, pf as int);
    let e = a / pf;
    let m = a % pf;
    // the exponent lies in the normal range of g
    assert(e >= rebias + 1) by {
        if e < rebias + 1 {
            lemma_mul_inequality((e + 1) as int, (rebias + 1) as int, pf as int);
            lemma_mul_is_distributive_add(pf as int, e as int, 1);
            lemma_mul_is_commutative(pf as int, e as int);
            lemma_mul_is_commutative(pf as int, (e + 1) as int);
            lemma_mul_is_commutative(pf as int, (rebias + 1) as int);
        }
    }
    // rounding a, and rounding the significand with its implicit bit
    assert(a == (e * pg) * pd + m) by {
        lemma_mul_is_commutative(pf as int, e as int);
        lemma_mul_is_associative(e as int, pg as int, pd as int);
    }
    assert((e * pg) % 2 == 0) by {
        lemma_mul_mod_noop_right(e as int, pg as int, 2);
        lemma_mul_basics(e as int);
    }
    lemma_round_shifted(e * pg, m, delta);
    assert(pf + m == pg * pd + m);
    lemma_round_shifted(pg, m, delta);
    let r = round_half_even(m, delta);
    // r is at most the implicit bit of g
    lemma_round_half_even_below(m, sg, delta);
    assert(r <= pg);
    let c = f.narrow_magnitude(g, a);
    assert(c == f.narrow_normal(g, a));
    assert(rebias * pg <= e * pg) by {
        lemma_mul_inequality(rebias as int, e as int, pg as int);
    }
    assert(c == (e - rebias) * pg + r) by {
        lemma_mul_is_distributive_sub(pg as int, e as int, rebias as int);
        lemma_mul_is_commutative(pg as int, e as int);
        lemma_mul_is_commutative(pg as int, rebias as int);
        lemma_mul_is_commutative(pg as int, (e - rebias) as int);
    }
    let ec = (e - rebias) as nat;
    let q = (ec - 1) as nat;
    // the scaled value of c
    assert(g.scaled_magnitude(c) == (pg + r) * pow2(q)) by {
        if r < pg {
            lemma_fundamental_div_mod_converse(c as int, pg as int, ec as int, r as int);
        } else {
            assert(c == (ec + 1) * pg + 0) by {
                lemma_mul_is_distributive_add(pg as int, ec as int, 1);
                lemma_mul_is_commutative(pg as int, ec as int);
                lemma_mul_is_commutative(pg as int, (ec + 1) as int);
            }
            lemma_fundamental_div_mod_converse(c as int, pg as int, (ec + 1) as int, 0);
            lemma_pow2_facts(ec);
            assert(pg * pow2(ec) == (pg + r) * pow2(q)) by {
                lemma_mul_is_associative(pg as int, 2, pow2(q) as int);
                lemma_mul_is_commutative(pg as int, 2);
            }
        }
    }
    lemma_pow2_mul(q, rebias);
    assert(q + rebias == (e - 1) as nat);
    lemma_mul_is_associative((pg + r) as int, pow2(q) as int, pow2(rebias) as int);
}

/// Rounding by `s + delta` places, with `delta >= 2`, is shifting right by
/// `s` places while keeping a sticky last bit for what was shifted out,
/// then rounding by `delta` places.
pub proof fn lemma_sticky_rounding(m: nat, s: nat, delta: nat)
    requires
        delta >= 2,
    ensures
        ({
            let q = m / pow2(s);
            let den = if m % pow2(s) != 0 && q % 2 == 0 {
                q + 1
            } else {
                q
            };
            round_half_even(den, delta) == round_half_even(m, s + delta)
        }),
{
    let ps = pow2(s);
    let pd = pow2(delta);
    let pk = pow2(s + delta);
    lemma_pow2_pos(s);
    lemma_pow2_pos(delta);
    lemma_pow2_mul(s, delta);
    assert(pk == ps * pd);
    lemma_pow2_facts(delta);
    lemma_pow2_facts((delta - 1) as nat);
    lemma_pow2_facts((s + delta) as nat);
    let hd = pow2((delta - 1) as nat);
    assert(((s + delta) - 1) as nat == ((delta - 1) as nat + s) as nat);
    lemma_pow2_mul((delta - 1) as nat, s);
    let hk = pow2(((s + delta) - 1) as nat);
    assert(hk == hd * ps);
    lemma_pow2_le(1, (delta - 1) as nat);
    lemma2_to64();
    assert(hd % 2 == 0) by {
        lemma_pow2_facts((delta - 1) as nat);
        if delta - 1 >= 1 {
            lemma_pow2_unfold((delta - 1) as nat);
        }
    }
    // m == Q * pk + R, R == R1 * ps + R0
    lemma_fundamental_div_mod(m as int, pk as int);
    lemma_mod_pos_bound(m as int, pk as int);
    let qq = m / pk;
    let rr = m % pk;
    lemma_fundamental_div_mod(rr as int, ps as int);
    lemma_mod_pos_bound(rr as int, ps as int);
    let r1 = rr / ps;
    let r0 = rr % ps;
    lemma_div_scaled_bound(rr, 1, delta, s);
    assert(r1 < pd);
    // q == Q * pd + R1 and m % ps == R0
    assert(m == (qq * pd + r1) * ps + r0) by {
        lemma_mul_is_commutative(pk as int, qq as int);
        lemma_mul_is_associative(qq as int, pd as int, ps as int);
        lemma_mul_is_commutative(pd as int, ps as int);
        lemma_mul_is_distributive_add(ps as int, (qq * pd) as int, r1 as int);
        lemma_mul_is_commutative(ps as int, (qq * pd) as int);
        lemma_mul_is_commutative(ps as int, r1 as int);
        lemma_mul_is_commutative(ps as int, (qq * pd + r1) as int);
    }
    lemma_fundamental_div_mod_converse(m as int, ps as int, (qq * pd + r1) as int, r0 as int);
    let q = m / ps;
    assert(q == qq * pd + r1);
    assert((qq * pd) % 2 == 0) by {
        lemma_mul_mod_noop_right(qq as int, pd as int, 2);
        lemma_mul_basics(qq as int);
    }
    assert(q % 2 == r1 % 2) by {
        lemma_fundamental_div_mod((qq * pd) as int, 2);
        lemma_mod_multiples_vanish(((qq * pd) / 2) as int, r1 as int, 2);
    }
    let r1d = if r0 != 0 && r1 % 2 == 0 {
        r1 + 1
    } else {
        r1
    };
    assert(pd % 2 == 0);
    assert(r1d < pd);
    let den = if m % ps != 0 && q % 2 == 0 {
        q + 1
    } else {
        q
    };
    assert(den == qq * pd + r1d);
    lemma_fundamental_div_mod_converse(den as int, pd as int, qq as int, r1d as int);
    lemma_fundamental_div_mod_converse(m as int, pk as int, qq as int, rr as int);
    assert(rr == r1 * ps + r0) by {
        lemma_mul_is_commutative(ps as int, r1 as int);
    }
    // compare the remainders with the halves
    if r1 > hd {
        lemma_mul_inequality((hd + 1) as int, r1 as int, ps as int);
        lemma_mul_is_distributive_add(ps as int, hd as int, 1);
        lemma_mul_is_commutative(ps as int, hd as int);
        lemma_mul_is_commutative(ps as int, (hd + 1) as int);
        assert(rr > hk);
        assert(r1d > hd);
    } else if r1 == hd {
        assert(rr == hk + r0);
        if r0 == 0 {
            assert(r1d == hd);
        } else {
            assert(r1d == hd + 1);
        }
    } else {
        lemma_mul_inequality((r1 + 1) as int, hd as int, ps as int);
        lemma_mul_is_distributive_add(ps as int, r1 as int, 1);
        lemma_mul_is_commutative(ps as int, r1 as int);
        lemma_mul_is_commutative(ps as int, (r1 + 1) as int);
        assert(rr < hk);
        assert(r1d < hd);
    }
}

/// A value below the normal range of `g` converts to its significand (with
/// the implicit bit when its exponent field is not zero) rounded to
/// nearest, ties to even, on the grid of the subnormals of `g`: by the
/// denormalizing shift plus the difference of the significand widths.
pub proof fn lemma_narrow_tiny_rounds(f: FloatFormat, g: FloatFormat, a: nat)
    requires
        f.valid(),
        g.valid(),
        f.narrows_to(g),
        a < f.underflow_limit(g),
    ensures
        f.narrow_magnitude(g, a) == round_half_even(
            f.full_significand(a),
            f.denormal_shift(g, a) + (f.significand_bits - g.significand_bits) as nat,
        ),
{
    lemma_limits(f, g);
    lemma_bias_facts(f);
    let sf = f.significand_bits as nat;
    let sg = g.significand_bits as nat;
    let delta = (sf - sg) as nat;
    let pf = f.implicit_bit();
    let shift = f.denormal_shift(g, a);
    let m = f.full_significand(a);
    lemma_pow2_pos(sf);
    lemma_mod_pos_bound(a as int, pf as int);
    lemma_div_pow2_zero(a, sf);
    lemma2_to64();
    assert(f.narrow_magnitude(g, a) == f.narrow_tiny(g, a));
    lemma_pow2_facts(sf + 1);
    assert(m < pow2(sf + 1));
    if shift > sf {
        lemma_pow2_le(sf + 1, ((shift + delta) - 1) as nat);
        lemma_round_small(m, shift + delta);
    } else {
        lemma_sticky_rounding(m, shift, delta);
    }
}

/// A number at most `2^(k - 1)` rounds to zero.
pub proof fn lemma_round_small(x: nat, k: nat)
    requires
        k >= 1,
        x <= pow2((k - 1) as nat),
    ensures
        round_half_even(x, k) == 0,
{
    lemma_pow2_facts(k);
    lemma_pow2_pos((k - 1) as nat);
    lemma_fundamental_div_mod_converse(x as int, pow2(k) as int, 0, x as int);
}

/// The quotient by `2^k` is zero exactly below `2^k`.
pub proof fn lemma_div_pow2_zero(a: nat, k: nat)
    ensures
        (a / pow2(k) == 0) == (a < pow2(k)),
        a / pow2(k) * pow2(k) <= a,
{
    lemma_pow2_pos(k);
    lemma_fundamental_div_mod(a as int, pow2(k) as int);
    lemma_mod_pos_bound(a as int, pow2(k) as int);
    if a < pow2(k) {
        lemma_basic_div(a as int, pow2(k) as int);
    } else {
        if a / pow2(k) == 0 {
            lemma_mul_basics(pow2(k) as int);
        }
    }
    lemma_mul_is_commutative(pow2(k) as int, (a / pow2(k)) as int);
}

} // verus!
