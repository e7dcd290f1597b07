//! Conversion of a bit pattern to a wider format. Normal values are
//! rebiased, subnormals are normalized when the wider format has more
//! exponent bits (and stay subnormal when it has as many), and the payload
//! of a NaN is carried over left-aligned; so every value comes over exactly.

use vstd::arithmetic::div_mod::*;
use vstd::arithmetic::mul::*;
use vstd::arithmetic::power2::*;
use vstd::prelude::*;

use crate::format::{
    lemma_mul_pow2_bound, lemma_pow2_facts, lemma_pow2_le, lemma_pow2_mul, low_u64, pow2_u64,
    shl_u64, shr_u64, FloatFormat,
};
use crate::format::FpCategory;
use crate::narrow::{
    lemma_bias_facts, lemma_category_ignores_sign, lemma_category_of_magnitude, lemma_limits,
    lemma_div_pow2_zero, lemma_narrow_categories, lemma_narrow_tiny_rounds, lemma_round_small,
    round_half_even, sticky,
};
use crate::truncate::transition_allowed;

verus! {

/// The number of binary digits of `a`; zero has none.
pub open spec fn bit_length(a: nat) -> nat
    decreases a,
{
    if a == 0 {
        0
    } else {
        1 + bit_length(a / 2)
    }
}

/// A positive number lies between the powers of two around its length.
pub proof fn lemma_bit_length(a: nat)
    requires
        a > 0,
    ensures
        bit_length(a) >= 1,
        pow2((bit_length(a) - 1) as nat) <= a < pow2(bit_length(a)),
    decreases a,
{
    if a == 1 {
        assert(bit_length(0) == 0);
        lemma2_to64();
    } else {
        lemma_bit_length(a / 2);
        let l = bit_length(a / 2);
        lemma_pow2_facts(l);
        lemma_pow2_facts((l + 1) as nat);
    }
}

impl FloatFormat {
    /// Whether `g` is a wider format that `self` converts to: at least two
    /// more significand bits, no fewer exponent bits, no narrower storage,
    /// and a bias of `self` no smaller than its significand width (so that
    /// every subnormal of `self` is normal in a format with more exponent
    /// bits).
    pub open spec fn widens_to(self, g: FloatFormat) -> bool {
        &&& self.significand_bits + 2 <= g.significand_bits
        &&& self.exponent_bits <= g.exponent_bits
        &&& self.storage_bits <= g.storage_bits
        &&& self.significand_bits <= self.exponent_bias()
    }

    /// The magnitude bits in `g` of the magnitude bits `a` of `self`.
    ///
    /// When the biases differ, a subnormal is normalized: shifted until its
    /// leading digit lands on the implicit bit of `g`, which is then
    /// cleared, with the exponent that the shift gives. When they are equal,
    /// a subnormal stays subnormal, its significand widened like any other.
    pub open spec fn widen_magnitude(self, g: FloatFormat, a: nat) -> nat {
        let delta = (g.significand_bits - self.significand_bits) as nat;
        let rebias = (g.exponent_bias() - self.exponent_bias()) as nat;
        if a == 0 {
            0
        } else if a < self.implicit_bit() {
            let scale = (self.significand_bits + 1 - bit_length(a)) as nat;
            let normalized = (a * pow2(delta + scale) - g.implicit_bit()) as nat;
            if rebias != 0 {
                ((rebias + 1 - scale) as nat) * g.implicit_bit() + normalized
            } else {
                a * pow2(delta)
            }
        } else if a < self.infinity_abs() {
            a * pow2(delta) + rebias * g.implicit_bit()
        } else {
            g.infinity_abs() + (a % self.implicit_bit()) * pow2(delta)
        }
    }

    /// The magnitude bits `a` with the quiet bit set when they are a NaN.
    pub open spec fn quiet_magnitude(self, a: nat) -> nat {
        let h = pow2((self.significand_bits - 1) as nat);
        if a > self.infinity_abs() {
            self.infinity_abs() + h + a % h
        } else {
            a
        }
    }

    /// The bit pattern `x` with the bits above the format cleared and, when
    /// it is a NaN, the quiet bit set.
    pub open spec fn quieted(self, x: nat) -> nat {
        (if self.sign_of(x) {
            self.sign_bit()
        } else {
            0
        }) + self.quiet_magnitude(self.abs_of(x))
    }

    /// The bit pattern in `g` of the conversion of the bit pattern `x`: the
    /// sign carried over and the magnitude widened, a NaN made quiet when
    /// `quiet` is set.
    pub open spec fn widen(self, g: FloatFormat, x: nat, quiet: bool) -> nat {
        let b = self.widen_magnitude(g, self.abs_of(x));
        (if self.sign_of(x) {
            g.sign_bit()
        } else {
            0
        }) + if quiet {
            g.quiet_magnitude(b)
        } else {
            b
        }
    }
}

/// The number of binary digits of `a`, at run time.
pub fn bit_length_u64(a: u64) -> (r: u32)
    ensures
        r == bit_length(a as nat),
        r <= 64,
{
    let mut len: u32 = 0;
    let mut v: u64 = a;
    proof {
        if a > 0 {
            lemma_bit_length(a as nat);
            lemma_pow2_facts(64);
            if bit_length(a as nat) > 64 {
                lemma_pow2_le(64, (bit_length(a as nat) - 1) as nat);
            }
        }
    }
    while v > 0
        invariant
            len + bit_length(v as nat) == bit_length(a as nat),
            bit_length(a as nat) <= 64,
        decreases v,
    {
        v = v / 2;
        len = len + 1;
    }
    len
}

/// Facts about the biases of two formats that `widens_to` relates.
pub proof fn lemma_widen_biases(f: FloatFormat, g: FloatFormat)
    requires
        f.valid(),
        g.valid(),
        f.widens_to(g),
    ensures
        f.exponent_bias() <= g.exponent_bias(),
        f.exponent_bits == g.exponent_bits ==> f.exponent_bias() == g.exponent_bias(),
        f.exponent_bits < g.exponent_bits ==> g.exponent_bias() >= 2 * f.exponent_bias() + 1,
        f.exponent_max() + g.exponent_bias() - f.exponent_bias() <= g.exponent_max(),
        g.implicit_bit() == f.implicit_bit() * pow2(
            (g.significand_bits - f.significand_bits) as nat,
        ),
{
    lemma_bias_facts(f);
    lemma_bias_facts(g);
    lemma_pow2_le((f.exponent_bits - 1) as nat, (g.exponent_bits - 1) as nat);
    if f.exponent_bits < g.exponent_bits {
        lemma_pow2_le(f.exponent_bits as nat, (g.exponent_bits - 1) as nat);
        lemma_pow2_facts(f.exponent_bits as nat);
    }
    lemma_pow2_mul(
        f.significand_bits as nat,
        (g.significand_bits - f.significand_bits) as nat,
    );
}

impl FloatFormat {
    /// `widen_magnitude` of a subnormal, at run time.
    fn widen_subnormal_u64(self, g: FloatFormat, a: u64) -> (r: u64)
        requires
            self.valid(),
            g.valid(),
            self.widens_to(g),
            0 < a < self.implicit_bit(),
        ensures
            r == self.widen_magnitude(g, a as nat),
            r < g.infinity_abs(),
    {
        let s = self.significand_bits;
        let d = g.significand_bits;
        let delta = d - s;
        proof {
            lemma_widen_biases(self, g);
            lemma_bias_facts(self);
            lemma_bias_facts(g);
            lemma_bit_length(a as nat);
            if bit_length(a as nat) > s {
                lemma_pow2_le(s as nat, (bit_length(a as nat) - 1) as nat);
            }
        }
        let len = bit_length_u64(a);
        let scale = s + 1 - len;
        let shift = delta + scale;
        proof {
            let l = len as nat;
            lemma_pow2_mul((l - 1) as nat, shift as nat);
            lemma_pow2_mul(l, shift as nat);
            lemma_pow2_pos(shift as nat);
            lemma_mul_inequality(
                pow2((l - 1) as nat) as int,
                a as int,
                pow2(shift as nat) as int,
            );
            lemma_mul_strict_inequality(a as int, pow2(l) as int, pow2(shift as nat) as int);
            lemma_pow2_facts((d + 1) as nat);
            lemma_pow2_le((d + 1) as nat, 63);
        }
        let shifted = shl_u64(a, shift);
        let normalized = shifted - pow2_u64(d);
        let bias_f = self.exponent_bias_u64();
        let bias_g = g.exponent_bias_u64();
        let rebias = bias_g - bias_f;
        proof {
            lemma_pow2_facts(d as nat);
        }
        if rebias != 0 {
            let e = rebias + 1 - scale as u64;
            proof {
                lemma_pow2_pos(d as nat);
                lemma_mul_inequality(e as int + 1, g.exponent_max() as int, pow2(d as nat) as int);
                lemma_mul_is_distributive_add(pow2(d as nat) as int, e as int, 1);
                lemma_mul_is_commutative(pow2(d as nat) as int, e as int);
                lemma_mul_is_commutative(pow2(d as nat) as int, e as int + 1);
                lemma_mul_is_commutative(pow2(d as nat) as int, g.exponent_max() as int);
                lemma_mul_pow2_bound(
                    g.exponent_max(),
                    g.exponent_bits as nat,
                    (g.exponent_bits + d) as nat,
                );
                lemma_pow2_le((g.exponent_bits + d) as nat, 63);
                lemma_pow2_facts(63);
            }
            shl_u64(e, d) + normalized
        } else {
            proof {
                lemma_pow2_pos(d as nat);
                lemma_mul_inequality(1, g.exponent_max() as int, pow2(d as nat) as int);
                lemma_mul_pow2_bound(a as nat, s as nat, d as nat);
            }
            shl_u64(a, delta)
        }
    }
}

impl FloatFormat {
    /// `widen_magnitude` of a normal magnitude, at run time.
    fn widen_normal_u64(self, g: FloatFormat, a: u64) -> (r: u64)
        requires
            self.valid(),
            g.valid(),
            self.widens_to(g),
            self.implicit_bit() <= a < self.infinity_abs(),
        ensures
            r == self.widen_magnitude(g, a as nat),
            r < g.infinity_abs(),
    {
        let s = self.significand_bits;
        let d = g.significand_bits;
        let delta = d - s;
        let bias_f = self.exponent_bias_u64();
        let bias_g = g.exponent_bias_u64();
        proof {
            lemma_widen_biases(self, g);
        }
        let rebias = bias_g - bias_f;
        proof {
            lemma_bias_facts(self);
            lemma_bias_facts(g);
            let pd = pow2(delta as nat);
            let pf = self.implicit_bit();
            let pg = g.implicit_bit();
            lemma_pow2_pos(delta as nat);
            // a * 2^delta < e_max_f * 2^d
            lemma_mul_strict_inequality(a as int, self.infinity_abs() as int, pd as int);
            lemma_mul_is_associative(self.exponent_max() as int, pf as int, pd as int);
            // the sum stays below infinity of g
            lemma_mul_is_distributive_add(
                pg as int,
                self.exponent_max() as int,
                rebias as int,
            );
            lemma_mul_is_commutative(pg as int, self.exponent_max() as int);
            lemma_mul_is_commutative(pg as int, rebias as int);
            lemma_mul_is_commutative(pg as int, (self.exponent_max() + rebias) as int);
            lemma_mul_inequality(
                (self.exponent_max() + rebias) as int,
                g.exponent_max() as int,
                pg as int,
            );
            lemma_mul_is_commutative(pg as int, g.exponent_max() as int);
            lemma_mul_pow2_bound(
                g.exponent_max(),
                g.exponent_bits as nat,
                (g.exponent_bits + d) as nat,
            );
            lemma_pow2_le((g.exponent_bits + d) as nat, 63);
            lemma_pow2_facts(63);
            lemma_mul_inequality(rebias as int, g.exponent_max() as int, pg as int);
        }
        let r = shl_u64(a, delta) + shl_u64(rebias, d);
        proof {
            lemma_pow2_pos(s as nat);
            assert(a != 0 && !(a < self.implicit_bit()) && a < self.infinity_abs());
            assert(r == a * pow2(delta as nat) + rebias * g.implicit_bit());
        }
        r
    }

    /// `widen_magnitude` of an infinite or NaN magnitude, at run time.
    fn widen_special_u64(self, g: FloatFormat, a: u64) -> (r: u64)
        requires
            self.valid(),
            g.valid(),
            self.widens_to(g),
            a >= self.infinity_abs(),
        ensures
            r == self.widen_magnitude(g, a as nat),
            r < g.sign_bit(),
    {
        let s = self.significand_bits;
        let d = g.significand_bits;
        let delta = d - s;
        proof {
            lemma_widen_biases(self, g);
            lemma_bias_facts(self);
            lemma_bias_facts(g);
            lemma_pow2_pos(s as nat);
            lemma_pow2_pos(delta as nat);
            lemma_mod_pos_bound(a as int, self.implicit_bit() as int);
            lemma_mul_pow2_bound(a as nat % self.implicit_bit(), s as nat, d as nat);
            lemma_pow2_facts(d as nat);
            lemma_mul_inequality(1, self.exponent_max() as int, self.implicit_bit() as int);
        }
        g.infinity_bits() + shl_u64(low_u64(a, s), delta)
    }

    /// `quiet_magnitude`, at run time.
    fn quiet_u64(self, a: u64) -> (r: u64)
        requires
            self.valid(),
            a < self.sign_bit(),
        ensures
            r == self.quiet_magnitude(a as nat),
            r < self.sign_bit(),
    {
        let s = self.significand_bits;
        let inf = self.infinity_bits();
        if a > inf {
            proof {
                lemma_bias_facts(self);
                lemma_pow2_facts(s as nat);
                lemma_pow2_pos((s - 1) as nat);
                lemma_mod_pos_bound(a as int, pow2((s - 1) as nat) as int);
            }
            inf + pow2_u64(s - 1) + low_u64(a, s - 1)
        } else {
            a
        }
    }

    /// Converts the bit pattern `x` of `self` to the wider format `g`,
    /// making a NaN quiet when `quiet` is set.
    pub fn widen_bits(self, g: FloatFormat, x: u64, quiet: bool) -> (r: u64)
        requires
            self.valid(),
            g.valid(),
            self.widens_to(g),
        ensures
            r == self.widen(g, x as nat, quiet),
            r < pow2(g.total_bits()),
    {
        proof {
            lemma_bias_facts(self);
            lemma_bias_facts(g);
            lemma_pow2_pos(g.significand_bits as nat);
            lemma_mul_inequality(1, g.exponent_max() as int, g.implicit_bit() as int);
        }
        let a = self.abs_bits(x);
        let b: u64 = if a == 0 {
            0
        } else if a < pow2_u64(self.significand_bits) {
            self.widen_subnormal_u64(g, a)
        } else if a < self.infinity_bits() {
            self.widen_normal_u64(g, a)
        } else {
            self.widen_special_u64(g, a)
        };
        let c = if quiet {
            g.quiet_u64(b)
        } else {
            b
        };
        let sign = shr_u64(x, self.total_bits_u32() - 1) % 2 == 1;
        if sign {
            pow2_u64(g.total_bits_u32() - 1) + c
        } else {
            c
        }
    }
}

/// `q * 2^k + t` with `t <= 1` rounds back to `q` when `k >= 2`.
pub proof fn lemma_round_exact(q: nat, t: nat, k: nat)
    requires
        k >= 2,
        t <= 1,
    ensures
        round_half_even(q * pow2(k) + t, k) == q,
{
    lemma_pow2_facts(k);
    lemma_pow2_facts((k - 1) as nat);
    lemma_pow2_le(1, (k - 1) as nat);
    lemma2_to64();
    lemma_fundamental_div_mod_converse(
        (q * pow2(k) + t) as int,
        pow2(k) as int,
        q as int,
        t as int,
    );
}

/// Zero comes back as zero.
proof fn lemma_zero_comes_back(f: FloatFormat, g: FloatFormat)
    requires
        f.valid(),
        g.valid(),
        f.widens_to(g),
    ensures
        g.narrow_magnitude(f, 0) == 0,
{
    lemma_widen_biases(f, g);
    lemma_limits(g, f);
    lemma_pow2_pos(g.significand_bits as nat);
    lemma_div_pow2_zero(0, g.significand_bits as nat);
    lemma_narrow_tiny_rounds(g, f, 0);
    let k = g.denormal_shift(f, 0) + (g.significand_bits - f.significand_bits) as nat;
    lemma_round_small(0, k);
}

/// A subnormal of `f` widened to a format with as many exponent bits stays
/// subnormal and converts back to itself.
proof fn lemma_equal_subnormal_comes_back(f: FloatFormat, g: FloatFormat, a: nat)
    requires
        f.valid(),
        g.valid(),
        f.widens_to(g),
        f.exponent_bits == g.exponent_bits,
        0 < a < f.implicit_bit(),
    ensures
        0 < f.widen_magnitude(g, a) < g.implicit_bit(),
        g.narrow_magnitude(f, f.widen_magnitude(g, a)) == a,
{
    lemma_widen_biases(f, g);
    lemma_limits(g, f);
    lemma_bias_facts(f);
    lemma_bias_facts(g);
    let sg = g.significand_bits as nat;
    let sf = f.significand_bits as nat;
    let delta = (sg - sf) as nat;
    let b = a * pow2(delta);
    assert(f.widen_magnitude(g, a) == b);
    lemma_mul_pow2_bound(a, sf, sg);
    lemma_pow2_pos(delta);
    lemma_mul_strictly_positive(a as int, pow2(delta) as int);
    lemma_pow2_pos(sg);
    lemma_div_pow2_zero(b, sg);
    assert(g.underflow_limit(f) == g.implicit_bit()) by {
        lemma_mul_basics(g.implicit_bit() as int);
    }
    lemma_narrow_tiny_rounds(g, f, b);
    assert(g.full_significand(b) == b);
    assert(g.denormal_shift(f, b) == 0);
    lemma_round_exact(a, 0, delta);
}

/// A subnormal of `f` widened to a format with more exponent bits and
/// converted back is the subnormal again.
proof fn lemma_subnormal_comes_back(f: FloatFormat, g: FloatFormat, a: nat)
    requires
        f.valid(),
        g.valid(),
        f.widens_to(g),
        f.exponent_bits < g.exponent_bits,
        0 < a < f.implicit_bit(),
    ensures
        g.implicit_bit() <= f.widen_magnitude(g, a) < g.infinity_abs(),
        g.narrow_magnitude(f, f.widen_magnitude(g, a)) == a,
{
    lemma_widen_biases(f, g);
    lemma_limits(g, f);
    lemma_bias_facts(f);
    lemma_bias_facts(g);
    let sg = g.significand_bits as nat;
    let sf = f.significand_bits as nat;
    let delta = (sg - sf) as nat;
    let pg = g.implicit_bit();
    let rebias = (g.exponent_bias() - f.exponent_bias()) as nat;
    lemma_bit_length(a);
    let l = bit_length(a);
    if l > sf {
        lemma_pow2_le(sf, (l - 1) as nat);
    }
    let scale = (sf + 1 - l) as nat;
    let shift = delta + scale;
    let shifted = a * pow2(shift);
    lemma_pow2_mul((l - 1) as nat, shift);
    lemma_pow2_mul(l, shift);
    lemma_pow2_pos(shift);
    lemma_mul_inequality(pow2((l - 1) as nat) as int, a as int, pow2(shift) as int);
    lemma_mul_strict_inequality(a as int, pow2(l) as int, pow2(shift) as int);
    lemma_pow2_facts((sg + 1) as nat);
    assert(pg <= shifted < 2 * pg);
    let mm = (shifted - pg) as nat;
    let e = (rebias + 1 - scale) as nat;
    let b = e * pg + mm;
    assert(b >= pg) by {
        lemma_mul_inequality(1, e as int, pg as int);
    }
    assert(f.widen_magnitude(g, a) == b);
    lemma_pow2_pos(sg);
    // b lies below the normal range of f inside g
    lemma_fundamental_div_mod_converse(b as int, pg as int, e as int, mm as int);
    assert(b < g.underflow_limit(f)) by {
        lemma_mul_inequality((e + 1) as int, (rebias + 1) as int, pg as int);
        lemma_mul_is_distributive_add(pg as int, e as int, 1);
        lemma_mul_is_commutative(pg as int, e as int);
        lemma_mul_is_commutative(pg as int, (e + 1) as int);
    }
    assert(b < g.infinity_abs()) by {
        lemma_mul_inequality((e + 1) as int, g.exponent_max() as int, pg as int);
        lemma_mul_is_distributive_add(pg as int, e as int, 1);
        lemma_mul_is_commutative(pg as int, e as int);
        lemma_mul_is_commutative(pg as int, (e + 1) as int);
    }
    // the denormalizing shift undoes the normalization
    assert(g.denormal_shift(f, b) == scale);
    lemma_small_mod(mm, pg);
    assert(b % pg + pg == shifted) by {
        lemma_mul_is_commutative(e as int, pg as int);
        lemma_mod_multiples_vanish(e as int, mm as int, pg as int);
    }
    lemma_pow2_mul(delta, scale);
    assert(shifted == (a * pow2(delta)) * pow2(scale)) by {
        lemma_mul_is_associative(a as int, pow2(delta) as int, pow2(scale) as int);
    }
    lemma_pow2_pos(scale);
    lemma_div_multiples_vanish((a * pow2(delta)) as int, pow2(scale) as int);
    lemma_mul_is_commutative((a * pow2(delta)) as int, pow2(scale) as int);
    let q = shifted / pow2(scale);
    assert(q == a * pow2(delta));
    let den = if sticky(shifted, scale) && q % 2 == 0 {
        q + 1
    } else {
        q
    };
    if den == q {
        lemma_round_exact(a, 0, delta);
    } else {
        lemma_round_exact(a, 1, delta);
    }
}

/// A normal value of `f` widened and converted back is itself.
proof fn lemma_normal_comes_back(f: FloatFormat, g: FloatFormat, a: nat)
    requires
        f.valid(),
        g.valid(),
        f.widens_to(g),
        f.implicit_bit() <= a < f.infinity_abs(),
    ensures
        g.implicit_bit() <= f.widen_magnitude(g, a) < g.infinity_abs(),
        g.narrow_magnitude(f, f.widen_magnitude(g, a)) == a,
{
    lemma_widen_biases(f, g);
    lemma_limits(g, f);
    lemma_bias_facts(f);
    lemma_bias_facts(g);
    let sg = g.significand_bits as nat;
    let sf = f.significand_bits as nat;
    let delta = (sg - sf) as nat;
    let pf = f.implicit_bit();
    let pg = g.implicit_bit();
    let pd = pow2(delta);
    let rebias = (g.exponent_bias() - f.exponent_bias()) as nat;
    lemma_pow2_pos(sf);
    lemma_pow2_pos(delta);
    let b = a * pd + rebias * pg;
    assert(f.widen_magnitude(g, a) == b);
    // b == (a + rebias * pf) * 2^delta
    assert(b == (a + rebias * pf) * pd) by {
        lemma_mul_is_associative(rebias as int, pf as int, pd as int);
        lemma_mul_is_distributive_add(pd as int, a as int, (rebias * pf) as int);
        lemma_mul_is_commutative(pd as int, a as int);
        lemma_mul_is_commutative(pd as int, (a + rebias * pf) as int);
        lemma_mul_is_commutative(pd as int, (rebias * pf) as int);
    }
    // the range checks of the conversion back
    assert(pg <= a * pd) by {
        lemma_mul_inequality(pf as int, a as int, pd as int);
    }
    assert(a * pd < f.exponent_max() * pg) by {
        lemma_mul_strict_inequality(a as int, f.infinity_abs() as int, pd as int);
        lemma_mul_is_associative(f.exponent_max() as int, pf as int, pd as int);
    }
    assert(g.underflow_limit(f) == pg + rebias * pg) by {
        lemma_mul_is_distributive_add(pg as int, rebias as int, 1);
        lemma_mul_is_commutative(pg as int, rebias as int);
        lemma_mul_is_commutative(pg as int, (rebias + 1) as int);
    }
    assert(g.overflow_limit(f) == f.exponent_max() * pg + rebias * pg) by {
        lemma_mul_is_distributive_add(pg as int, rebias as int, f.exponent_max() as int);
        lemma_mul_is_commutative(pg as int, rebias as int);
        lemma_mul_is_commutative(pg as int, f.exponent_max() as int);
        lemma_mul_is_commutative(pg as int, (rebias + f.exponent_max()) as int);
    }
    assert(b < g.infinity_abs()) by {
        lemma_mul_is_distributive_add(pg as int, rebias as int, f.exponent_max() as int);
        lemma_mul_is_commutative(pg as int, rebias as int);
        lemma_mul_is_commutative(pg as int, f.exponent_max() as int);
        lemma_mul_is_commutative(pg as int, (rebias + f.exponent_max()) as int);
        lemma_mul_inequality(
            (rebias + f.exponent_max()) as int,
            g.exponent_max() as int,
            pg as int,
        );
        lemma_mul_is_commutative(pg as int, g.exponent_max() as int);
    }
    lemma_round_exact(a + rebias * pf, 0, delta);
}

/// Infinity and NaN of `f`, widened and converted back, are infinity and
/// the NaN made quiet.
proof fn lemma_special_comes_back(f: FloatFormat, g: FloatFormat, a: nat, quiet: bool)
    requires
        f.valid(),
        g.valid(),
        f.widens_to(g),
        f.infinity_abs() <= a < f.sign_bit(),
    ensures
        ({
            let b = f.widen_magnitude(g, a);
            let c = if quiet {
                g.quiet_magnitude(b)
            } else {
                b
            };
            &&& c < g.sign_bit()
            &&& (c == g.infinity_abs()) == (a == f.infinity_abs())
            &&& (c > g.infinity_abs()) == (a > f.infinity_abs())
            &&& g.narrow_magnitude(f, c) == f.quiet_magnitude(a)
        }),
{
    lemma_widen_biases(f, g);
    lemma_limits(g, f);
    lemma_bias_facts(f);
    lemma_bias_facts(g);
    let sg = g.significand_bits as nat;
    let sf = f.significand_bits as nat;
    let delta = (sg - sf) as nat;
    let pf = f.implicit_bit();
    let pg = g.implicit_bit();
    let pd = pow2(delta);
    let hf = pow2((sf - 1) as nat);
    let hg = pow2((sg - 1) as nat);
    lemma_pow2_facts(sf);
    lemma_pow2_facts(sg);
    lemma_pow2_pos(delta);
    lemma_pow2_mul((sf - 1) as nat, delta);
    assert(hg == hf * pd);
    let m = (a - f.infinity_abs()) as nat;
    assert(m < pf);
    // m is the significand of a
    assert(a % pf == m) by {
        lemma_mul_is_commutative(f.exponent_max() as int, pf as int);
        lemma_mod_multiples_vanish(f.exponent_max() as int, m as int, pf as int);
        lemma_small_mod(m, pf);
    }
    let b = f.widen_magnitude(g, a);
    assert(f.infinity_abs() >= pf) by {
        lemma_mul_inequality(1, f.exponent_max() as int, pf as int);
    }
    assert(b == g.infinity_abs() + m * pd);
    assert(m * pd < pg) by {
        lemma_mul_strict_inequality(m as int, pf as int, pd as int);
    }
    // infinity of either format is a multiple of its half-implicit bit
    assert(g.infinity_abs() % hg == 0) by {
        assert(g.infinity_abs() == (2 * g.exponent_max()) * hg) by {
            lemma_mul_is_associative(g.exponent_max() as int, 2, hg as int);
        }
        lemma_mod_multiples_basic((2 * g.exponent_max()) as int, hg as int);
    }
    assert(f.infinity_abs() % hf == 0) by {
        assert(f.infinity_abs() == (2 * f.exponent_max()) * hf) by {
            lemma_mul_is_associative(f.exponent_max() as int, 2, hf as int);
        }
        lemma_mod_multiples_basic((2 * f.exponent_max()) as int, hf as int);
    }
    if m == 0 {
        assert(b == g.infinity_abs()) by {
            lemma_mul_basics(pd as int);
        }
        assert(f.quiet_magnitude(a) == f.infinity_abs());
    } else {
        assert(m * pd > 0) by {
            lemma_mul_strictly_positive(m as int, pd as int);
        }
        // the low bits of b are those of m, shifted
        lemma_fundamental_div_mod(m as int, hf as int);
        lemma_mod_pos_bound(m as int, hf as int);
        let mq = m / hf;
        let mr = m % hf;
        assert(m * pd == mq * hg + mr * pd) by {
            lemma_mul_is_distributive_add(pd as int, (hf * mq) as int, mr as int);
            lemma_mul_is_commutative(pd as int, m as int);
            lemma_mul_is_commutative(pd as int, (hf * mq) as int);
            lemma_mul_is_commutative(pd as int, mr as int);
            lemma_mul_is_associative(mq as int, hf as int, pd as int);
            lemma_mul_is_commutative(hf as int, mq as int);
        }
        assert(mr * pd < hg) by {
            lemma_mul_strict_inequality(mr as int, hf as int, pd as int);
        }
        let kg = g.infinity_abs() / hg;
        lemma_fundamental_div_mod(g.infinity_abs() as int, hg as int);
        assert(b == (kg + mq) * hg + mr * pd) by {
            lemma_mul_is_distributive_add(hg as int, kg as int, mq as int);
            lemma_mul_is_commutative(hg as int, kg as int);
            lemma_mul_is_commutative(hg as int, mq as int);
            lemma_mul_is_commutative(hg as int, (kg + mq) as int);
        }
        lemma_fundamental_div_mod_converse(
            b as int,
            hg as int,
            (kg + mq) as int,
            (mr * pd) as int,
        );
        assert(b % hg == mr * pd);
        let c = if quiet {
            g.quiet_magnitude(b)
        } else {
            b
        };
        assert(c % hg == mr * pd) by {
            if quiet {
                lemma_mod_multiples_vanish(
                    (kg + 1) as int,
                    (mr * pd) as int,
                    hg as int,
                );
                lemma_small_mod(mr * pd, hg);
                lemma_mul_is_distributive_add(hg as int, kg as int, 1);
                lemma_mul_is_commutative(hg as int, kg as int);
            }
        }
        assert(c > g.infinity_abs());
        assert(c < g.sign_bit());
        lemma_div_multiples_vanish(mr as int, pd as int);
        lemma_mul_is_commutative(mr as int, pd as int);
        assert(g.narrow_nan(f, c) == f.infinity_abs() + hf + mr);
        // the quiet bit of f: a % hf == m % hf
        assert(a % hf == mr) by {
            let kf = f.infinity_abs() / hf;
            lemma_fundamental_div_mod(f.infinity_abs() as int, hf as int);
            lemma_mul_is_commutative(hf as int, kf as int);
            lemma_mod_multiples_vanish(kf as int, m as int, hf as int);
        }
    }
}

/// Widening, then converting back to the narrower format, gives back the
/// value, with a NaN made quiet and any bits above the format cleared.
pub proof fn lemma_widen_then_narrow(f: FloatFormat, g: FloatFormat, x: nat, quiet: bool)
    requires
        f.valid(),
        g.valid(),
        f.widens_to(g),
    ensures
        g.narrow(f, f.widen(g, x, quiet)) == f.quieted(x),
{
    let a = f.abs_of(x);
    let sign = f.sign_of(x);
    lemma_bias_facts(f);
    lemma_bias_facts(g);
    lemma_pow2_pos((f.total_bits() - 1) as nat);
    lemma_mod_pos_bound(x as int, f.sign_bit() as int);
    crate::narrow::lemma_abs_category(f, x);
    lemma_category_of_magnitude(f, a);
    let b = f.widen_magnitude(g, a);
    let c = if quiet {
        g.quiet_magnitude(b)
    } else {
        b
    };
    lemma_pow2_pos(g.significand_bits as nat);
    if a == 0 {
        lemma_zero_comes_back(f, g);
        assert(c == 0);
    } else if a < f.implicit_bit() {
        if f.exponent_bits < g.exponent_bits {
            lemma_subnormal_comes_back(f, g, a);
        } else {
            lemma_equal_subnormal_comes_back(f, g, a);
            assert(g.infinity_abs() >= g.implicit_bit()) by {
                lemma_mul_inequality(1, g.exponent_max() as int, g.implicit_bit() as int);
            }
            assert(c == b);
        }
        assert(f.infinity_abs() >= f.implicit_bit()) by {
            lemma_pow2_pos(f.significand_bits as nat);
            lemma_mul_inequality(1, f.exponent_max() as int, f.implicit_bit() as int);
        }
    } else if a < f.infinity_abs() {
        lemma_normal_comes_back(f, g, a);
    } else {
        lemma_special_comes_back(f, g, a, quiet);
    }
    assert(c < g.sign_bit()) by {
        lemma_mul_inequality(1, g.exponent_max() as int, g.implicit_bit() as int);
    }
    lemma_category_ignores_sign(g, c, sign);
}

/// The categories that widening produces: each category is kept, except
/// that a subnormal becomes normal in a format with more exponent bits; the
/// sign is kept.
pub proof fn lemma_widen_categories(f: FloatFormat, g: FloatFormat, x: nat, quiet: bool)
    requires
        f.valid(),
        g.valid(),
        f.widens_to(g),
    ensures
        ({
            let y = f.widen(g, x, quiet);
            &&& f.category(x) == FpCategory::Nan ==> g.category(y) == FpCategory::Nan
            &&& f.category(x) == FpCategory::Infinite ==> g.category(y) == FpCategory::Infinite
            &&& f.category(x) == FpCategory::Zero ==> g.category(y) == FpCategory::Zero
            &&& f.category(x) == FpCategory::Normal ==> g.category(y) == FpCategory::Normal
            &&& f.category(x) == FpCategory::Subnormal && f.exponent_bits < g.exponent_bits
                ==> g.category(y) == FpCategory::Normal
            &&& f.category(x) == FpCategory::Subnormal && f.exponent_bits == g.exponent_bits
                ==> g.category(y) == FpCategory::Subnormal
            &&& g.sign_of(y) == f.sign_of(x)
        }),
{
    let a = f.abs_of(x);
    let sign = f.sign_of(x);
    lemma_bias_facts(f);
    lemma_bias_facts(g);
    lemma_pow2_pos((f.total_bits() - 1) as nat);
    lemma_mod_pos_bound(x as int, f.sign_bit() as int);
    crate::narrow::lemma_abs_category(f, x);
    lemma_category_of_magnitude(f, a);
    let b = f.widen_magnitude(g, a);
    let c = if quiet {
        g.quiet_magnitude(b)
    } else {
        b
    };
    lemma_pow2_pos(g.significand_bits as nat);
    assert(g.infinity_abs() >= g.implicit_bit()) by {
        lemma_mul_inequality(1, g.exponent_max() as int, g.implicit_bit() as int);
    }
    if a == 0 {
        assert(c == 0);
    } else if a < f.implicit_bit() {
        if f.exponent_bits < g.exponent_bits {
            lemma_subnormal_comes_back(f, g, a);
        } else {
            lemma_equal_subnormal_comes_back(f, g, a);
        }
    } else if a < f.infinity_abs() {
        lemma_normal_comes_back(f, g, a);
    } else {
        lemma_special_comes_back(f, g, a, quiet);
    }
    assert(c < g.sign_bit());
    lemma_category_ignores_sign(g, c, sign);
    lemma_category_of_magnitude(g, c);
}

/// A subnormal shifted so that its leading digit lands on the implicit bit
/// of `g` lies between that bit and twice it.
proof fn lemma_normalized_subnormal(f: FloatFormat, g: FloatFormat, a: nat)
    requires
        f.valid(),
        g.valid(),
        f.widens_to(g),
        0 < a < f.implicit_bit(),
    ensures
        ({
            let delta = (g.significand_bits - f.significand_bits) as nat;
            let scale = (f.significand_bits + 1 - bit_length(a)) as nat;
            &&& 1 <= scale <= f.significand_bits
            &&& g.implicit_bit() <= a * pow2(delta + scale) < 2 * g.implicit_bit()
        }),
{
    let sg = g.significand_bits as nat;
    let sf = f.significand_bits as nat;
    let delta = (sg - sf) as nat;
    lemma_bit_length(a);
    let l = bit_length(a);
    if l > sf {
        lemma_pow2_le(sf, (l - 1) as nat);
    }
    let scale = (sf + 1 - l) as nat;
    let shift = delta + scale;
    lemma_pow2_mul((l - 1) as nat, shift);
    lemma_pow2_mul(l, shift);
    lemma_pow2_pos(shift);
    lemma_mul_inequality(pow2((l - 1) as nat) as int, a as int, pow2(shift) as int);
    lemma_mul_strict_inequality(a as int, pow2(l) as int, pow2(shift) as int);
    lemma_pow2_facts((sg + 1) as nat);
}

/// Converting to a narrower format and widening the result back changes the
/// category of a value only as a conversion may (see
/// `transition_allowed`), when the normal range of `g` starts above every
/// subnormal of `f`.
pub proof fn lemma_narrow_then_widen_categories(f: FloatFormat, g: FloatFormat, x: nat, quiet: bool)
    requires
        f.valid(),
        g.valid(),
        f.narrows_to(g),
        g.widens_to(f),
        x < pow2(f.storage_bits as nat),
        f.exponent_bias() + 1 - g.exponent_bias() > f.significand_bits,
    ensures
        transition_allowed(f.category(x), f.category(g.widen(f, f.narrow(g, x), quiet))),
{
    let y = f.narrow(g, x);
    lemma_narrow_categories(f, g, x);
    lemma_widen_categories(g, f, y, quiet);
    lemma_bias_facts(f);
    lemma_bias_facts(g);
    if g.exponent_bits >= f.exponent_bits {
        lemma_pow2_le((f.exponent_bits - 1) as nat, (g.exponent_bits - 1) as nat);
    }
    crate::narrow::lemma_abs_category(f, x);
    crate::narrow::lemma_abs_category(g, y);
}

/// The magnitude that widening gives stands for the same number: its
/// scaled value is that of `a` times the ratio of the scales.
proof fn lemma_widen_magnitude_value(f: FloatFormat, g: FloatFormat, a: nat)
    requires
        f.valid(),
        g.valid(),
        f.widens_to(g),
        a < f.infinity_abs(),
    ensures
        g.scaled_magnitude(f.widen_magnitude(g, a)) == f.scaled_magnitude(a) * pow2(
            ((g.significand_bits - f.significand_bits) + (g.exponent_bias()
                - f.exponent_bias())) as nat,
        ),
{
    lemma_widen_biases(f, g);
    lemma_bias_facts(f);
    lemma_bias_facts(g);
    let sg = g.significand_bits as nat;
    let sf = f.significand_bits as nat;
    let delta = (sg - sf) as nat;
    let pf = f.implicit_bit();
    let pg = g.implicit_bit();
    let pd = pow2(delta);
    let rebias = (g.exponent_bias() - f.exponent_bias()) as nat;
    let k = delta + rebias;
    lemma_pow2_pos(sf);
    lemma_pow2_pos(sg);
    lemma_pow2_pos(delta);
    let b = f.widen_magnitude(g, a);
    if a == 0 {
        lemma_div_basics(pf as int);
        lemma_small_mod(0, pf);
        lemma_div_basics(pg as int);
        lemma_small_mod(0, pg);
        assert(b == 0);
        lemma_mul_basics(pow2(k) as int);
    } else if a < pf && f.exponent_bits == g.exponent_bits {
        lemma_equal_subnormal_comes_back(f, g, a);
        lemma_div_pow2_zero(b, sg);
        lemma_div_pow2_zero(a, sf);
        lemma_small_mod(b, pg);
        lemma_small_mod(a, pf);
        assert(rebias == 0);
        assert(k == delta);
    } else if a < pf {
        lemma_normalized_subnormal(f, g, a);
        lemma_subnormal_comes_back(f, g, a);
        let l = bit_length(a);
        let scale = (sf + 1 - l) as nat;
        let shifted = a * pow2(delta + scale);
        let mm = (shifted - pg) as nat;
        let e = (rebias + 1 - scale) as nat;
        assert(b == e * pg + mm);
        lemma_fundamental_div_mod_converse(b as int, pg as int, e as int, mm as int);
        // the scaled value of a is a itself
        lemma_fundamental_div_mod_converse(a as int, pf as int, 0, a as int);
        assert(f.scaled_magnitude(a) == a);
        assert(g.scaled_magnitude(b) == shifted * pow2((e - 1) as nat));
        assert((delta + scale) + (e - 1) == k);
        lemma_pow2_mul(delta + scale, (e - 1) as nat);
        lemma_mul_is_associative(a as int, pow2(delta + scale) as int, pow2((e - 1) as nat) as int);
    } else {
        lemma_fundamental_div_mod(a as int, pf as int);
        lemma_mod_pos_bound(a as int, pf as int);
        let e = a / pf;
        let m = a % pf;
        assert(e >= 1) by {
            if e == 0 {
                lemma_mul_basics(pf as int);
            }
        }
        assert(b == a * pd + rebias * pg);
        // b == (e + rebias) * pg + m * pd
        assert(b == (e + rebias) * pg + m * pd) by {
            lemma_mul_is_commutative(pf as int, e as int);
            lemma_mul_is_distributive_add(pd as int, (e * pf) as int, m as int);
            lemma_mul_is_commutative(pd as int, a as int);
            lemma_mul_is_commutative(pd as int, (e * pf) as int);
            lemma_mul_is_commutative(pd as int, m as int);
            lemma_mul_is_associative(e as int, pf as int, pd as int);
            lemma_mul_is_distributive_add(pg as int, e as int, rebias as int);
            lemma_mul_is_commutative(pg as int, e as int);
            lemma_mul_is_commutative(pg as int, rebias as int);
            lemma_mul_is_commutative(pg as int, (e + rebias) as int);
        }
        assert(m * pd < pg) by {
            lemma_mul_strict_inequality(m as int, pf as int, pd as int);
        }
        lemma_fundamental_div_mod_converse(
            b as int,
            pg as int,
            (e + rebias) as int,
            (m * pd) as int,
        );
        // (pg + m * pd) == (pf + m) * pd
        assert(pg + m * pd == (pf + m) * pd) by {
            lemma_mul_is_distributive_add(pd as int, pf as int, m as int);
            lemma_mul_is_commutative(pd as int, pf as int);
            lemma_mul_is_commutative(pd as int, m as int);
            lemma_mul_is_commutative(pd as int, (pf + m) as int);
        }
        let q = (e - 1) as nat;
        assert(g.scaled_magnitude(b) == ((pf + m) * pd) * pow2((e + rebias - 1) as nat));
        lemma_pow2_mul(q, rebias);
        lemma_pow2_mul(delta, q + rebias);
        assert((e + rebias - 1) as nat == q + rebias);
        assert(((pf + m) * pd) * pow2(q + rebias) == (pf + m) * pow2(q) * pow2(k)) by {
            lemma_mul_is_associative((pf + m) as int, pd as int, pow2(q + rebias) as int);
            lemma_pow2_mul(delta, q + rebias);
            lemma_pow2_mul(q, k);
            assert(delta + (q + rebias) == q + k);
            lemma_mul_is_associative((pf + m) as int, pow2(q) as int, pow2(k) as int);
        }
    }
}

/// Widening keeps the number a finite value stands for, and its sign: the
/// scaled values agree up to the ratio of the scales of the two formats.
pub proof fn lemma_widen_keeps_value(f: FloatFormat, g: FloatFormat, x: nat, quiet: bool)
    requires
        f.valid(),
        g.valid(),
        f.widens_to(g),
        f.category(x) == FpCategory::Zero || f.category(x) == FpCategory::Normal
            || f.category(x) == FpCategory::Subnormal,
    ensures
        g.sign_of(f.widen(g, x, quiet)) == f.sign_of(x),
        g.scaled_magnitude(g.abs_of(f.widen(g, x, quiet))) == f.scaled_magnitude(f.abs_of(x))
            * pow2(
            ((g.significand_bits - f.significand_bits) + (g.exponent_bias()
                - f.exponent_bias())) as nat,
        ),
{
    let a = f.abs_of(x);
    lemma_bias_facts(f);
    lemma_bias_facts(g);
    lemma_pow2_pos((f.total_bits() - 1) as nat);
    lemma_mod_pos_bound(x as int, f.sign_bit() as int);
    crate::narrow::lemma_abs_category(f, x);
    lemma_category_of_magnitude(f, a);
    lemma_widen_magnitude_value(f, g, a);
    let b = f.widen_magnitude(g, a);
    lemma_pow2_pos(g.significand_bits as nat);
    assert(g.infinity_abs() >= g.implicit_bit()) by {
        lemma_mul_inequality(1, g.exponent_max() as int, g.implicit_bit() as int);
    }
    if a == 0 {
    } else if a < f.implicit_bit() && f.exponent_bits == g.exponent_bits {
        lemma_equal_subnormal_comes_back(f, g, a);
    } else if a < f.implicit_bit() {
        lemma_subnormal_comes_back(f, g, a);
    } else {
        lemma_normal_comes_back(f, g, a);
    }
    assert(b <= g.infinity_abs());
    lemma_category_ignores_sign(g, b, f.sign_of(x));
}

} // verus!
