//! Double-precision numbers, by the bits of their IEEE 754 encoding.
//!
//! A finite number is a whole multiple of 2^-1074, and that multiple is what the
//! contracts speak of. An infinity is counted as 2^1024, which is more than any
//! finite number.

use vstd::arithmetic::div_mod::lemma_div_is_ordered;
use vstd::arithmetic::div_mod::lemma_fundamental_div_mod;
use vstd::arithmetic::div_mod::lemma_fundamental_div_mod_converse;
use vstd::arithmetic::power2::lemma2_to64;
use vstd::arithmetic::power2::lemma2_to64_rest;
use vstd::arithmetic::power2::lemma_pow2_adds;
use vstd::arithmetic::power2::lemma_pow2_pos;
use vstd::prelude::*;

verus! {

/// 2 to the 52nd: the leading bit of a significand.
pub const LEADING: u64 = 0x10_0000_0000_0000;

/// 2 to the 53rd: one more than the largest significand.
pub const LIMIT: u64 = 0x20_0000_0000_0000;

/// A double-precision number, by the bits of its IEEE 754 encoding.
#[derive(Debug, Copy, Clone, PartialEq, Eq, Structural)]
pub struct Double {
    /// Sign, exponent and fraction.
    pub bits: u64,
}

impl Double {
    /// Whether the sign bit is set.
    pub open spec fn signed(self) -> bool {
        self.bits >= 0x8000_0000_0000_0000
    }

    /// The biased exponent.
    pub open spec fn exponent(self) -> nat {
        (self.bits as nat / LEADING as nat) % 2048
    }

    /// The fraction bits.
    pub open spec fn fraction(self) -> nat {
        self.bits as nat % LEADING as nat
    }

    /// Not a number.
    pub open spec fn nan(self) -> bool {
        self.exponent() == 2047 && self.fraction() != 0
    }

    /// The fraction with the leading bit that a normal number has.
    pub open spec fn significand(self) -> nat {
        if self.exponent() == 0 {
            self.fraction()
        } else {
            self.fraction() + LEADING as nat
        }
    }

    /// The power of two by which the significand is to be multiplied.
    pub open spec fn shift(self) -> nat {
        if self.exponent() == 0 {
            0
        } else {
            (self.exponent() - 1) as nat
        }
    }

    /// The absolute value of a number, as a multiple of 2^-1074.
    pub open spec fn magnitude(self) -> nat {
        self.significand() * pow2(self.shift())
    }

    /// The value of a number, as a multiple of 2^-1074.
    pub open spec fn scaled(self) -> int {
        if self.signed() {
            -(self.magnitude() as int)
        } else {
            self.magnitude() as int
        }
    }

    /// Whether this is zero or less.
    pub open spec fn not_positive(self) -> bool {
        !self.nan() && self.scaled() <= 0
    }
}

/// A power of two.
pub open spec fn pow2(n: nat) -> nat {
    vstd::arithmetic::power2::pow2(n)
}

/// The number 1, as a multiple of 2^-1074.
pub open spec fn one() -> nat {
    pow2(1074)
}

/// A quotient rounded to the nearest whole number, and halfway to the even one.
pub open spec fn half_even(a: nat, b: nat) -> nat {
    let f = a / b;
    let r = a % b;
    if 2 * r < b || (2 * r == b && f % 2 == 0) {
        f
    } else {
        f + 1
    }
}

/// The distance between neighbours among the double-precision numbers around a
/// multiple of 2^-1074.
pub open spec fn spacing(q: nat) -> nat
    decreases q,
{
    if q < LIMIT {
        1
    } else {
        2 * spacing(q / 2)
    }
}

/// The double-precision number that is nearest to a quotient, as every operation of
/// IEEE 754 rounds. A number beyond the largest one keeps its size here, where IEEE 754
/// gives an infinity.
pub open spec fn nearest(a: nat, b: nat) -> nat {
    half_even(a, b * spacing(a / b)) * spacing(a / b)
}

proof fn lemma_spacing(q: nat)
    ensures
        spacing(q) > 0,
        q < LIMIT * spacing(q),
        q >= LIMIT ==> q >= LEADING * spacing(q),
        spacing(q) > 1 <==> q >= LIMIT,
    decreases q,
{
    if q >= LIMIT {
        lemma_spacing(q / 2);
        let h = spacing(q / 2);
        assert(q < LIMIT * (2 * h)) by (nonlinear_arith)
            requires
                q / 2 < LIMIT * h,
        ;
        if q / 2 >= LIMIT {
            assert(q >= LEADING * (2 * h)) by (nonlinear_arith)
                requires
                    q / 2 >= LEADING * h,
            ;
        }
    }
}

proof fn lemma_spacing_grows(p: nat, q: nat)
    requires
        p <= q,
    ensures
        spacing(p) == spacing(q) || 2 * spacing(p) <= spacing(q),
    decreases q,
{
    lemma_spacing(p);
    lemma_spacing(q);
    if p >= LIMIT {
        lemma_spacing_grows(p / 2, q / 2);
    }
}

/// Around numbers with a given leading bit, the spacing is a given power of two.
proof fn lemma_spacing_is(q: nat, d: nat)
    requires
        LEADING * pow2(d) <= q < LIMIT * pow2(d),
    ensures
        spacing(q) == pow2(d),
    decreases d,
{
    lemma2_to64();
    if d == 0 {
        assert(pow2(0) == 1);
    } else {
        let e = (d - 1) as nat;
        lemma_pow2_adds(e, 1);
        lemma_pow2_pos(e);
        let h = pow2(e);
        assert(pow2(d) == h * 2);
        assert(LEADING * (h * 2) == LIMIT * h) by (nonlinear_arith);
        assert(q >= LIMIT) by (nonlinear_arith)
            requires
                q >= LIMIT * h,
                h >= 1,
        ;
        assert(LEADING * h <= q / 2 < LIMIT * h) by (nonlinear_arith)
            requires
                LEADING * (h * 2) <= q < LIMIT * (h * 2),
        ;
        lemma_spacing_is(q / 2, e);
    }
}

/// The quotient and the remainder of two numbers that are both multiplied.
proof fn lemma_scaled_division(a: nat, b: nat, c: nat)
    requires
        b > 0,
        c > 0,
    ensures
        (a * c) / (b * c) == a / b,
        (a * c) % (b * c) == (a % b) * c,
        b * c > 0,
{
    let f = (a / b) as int;
    let r = (a % b) as int;
    lemma_fundamental_div_mod(a as int, b as int);
    assert(b * c > 0) by (nonlinear_arith)
        requires
            b > 0,
            c > 0,
    ;
    assert(a * c == f * (b * c) + r * c) by (nonlinear_arith)
        requires
            a == b * f + r,
    ;
    assert(0 <= r * c < b * c) by (nonlinear_arith)
        requires
            0 <= r < b,
            c > 0,
    ;
    lemma_fundamental_div_mod_converse((a * c) as int, (b * c) as int, f, r * c);
}

/// Rounding does not change where both numbers are multiplied.
pub proof fn lemma_half_even_scales(a: nat, b: nat, c: nat)
    requires
        b > 0,
        c > 0,
    ensures
        half_even(a * c, b * c) == half_even(a, b),
{
    lemma_scaled_division(a, b, c);
    let r = a % b;
    assert(2 * (r * c) < b * c <==> 2 * r < b) by (nonlinear_arith)
        requires
            c > 0,
    ;
    assert(2 * (r * c) == b * c <==> 2 * r == b) by (nonlinear_arith)
        requires
            c > 0,
    ;
}

proof fn lemma_half_even_grows(a: nat, c: nat, b: nat)
    requires
        a <= c,
        b > 0,
    ensures
        half_even(a, b) <= half_even(c, b),
{
    lemma_div_is_ordered(a as int, c as int, b as int);
    lemma_fundamental_div_mod(a as int, b as int);
    lemma_fundamental_div_mod(c as int, b as int);
}

/// A quotient that is no more than a whole number does not round to more than it,
/// and one that is no less does not round to less.
pub proof fn lemma_half_even_bounds(a: nat, b: nat, m: nat)
    requires
        b > 0,
    ensures
        a <= m * b ==> half_even(a, b) <= m,
        a >= m * b ==> half_even(a, b) >= m,
{
    lemma_fundamental_div_mod((m * b) as int, b as int);
    vstd::arithmetic::div_mod::lemma_div_multiples_vanish(m as int, b as int);
    assert(m * b == b * m) by (nonlinear_arith);
    assert(half_even(m * b, b) == m);
    if a <= m * b {
        lemma_half_even_grows(a, m * b, b);
    }
    if a >= m * b {
        lemma_half_even_grows(m * b, a, b);
    }
}

/// Where the leading bit of a quotient is known, so is what it rounds to.
pub proof fn lemma_nearest_is(a: nat, b: nat, d: nat, w: nat)
    requires
        b > 0,
        LEADING * pow2(d) * b <= a < LIMIT * pow2(d) * b,
    ensures
        nearest(a * pow2(w), b) == half_even(a, b * pow2(d)) * pow2(d + w),
{
    let p = pow2(d);
    let c = pow2(w);
    lemma_pow2_pos(d);
    lemma_pow2_pos(w);
    lemma_pow2_adds(d, w);
    let q = a * c / b;
    lemma_fundamental_div_mod((a * c) as int, b as int);
    assert(LEADING * (p * c) <= q) by (nonlinear_arith)
        requires
            LEADING * p * b <= a,
            a * c == b * q + (a * c) % b,
            (a * c) % b < b,
            b > 0,
            c > 0,
    ;
    assert(q < LIMIT * (p * c)) by (nonlinear_arith)
        requires
            a < LIMIT * p * b,
            a * c == b * q + (a * c) % b,
            0 <= (a * c) % b,
            b > 0,
            c > 0,
    ;
    lemma_spacing_is(q, d + w);
    assert(b * (p * c) == (b * p) * c) by (nonlinear_arith);
    assert(b * p > 0) by (nonlinear_arith)
        requires
            b > 0,
            p > 0,
    ;
    lemma_half_even_scales(a, b * p, c);
}

/// A power of two, above the smallest, is a double-precision number.
pub proof fn lemma_power_is_nearest(j: nat, b: nat)
    requires
        b > 0,
        j >= 52,
    ensures
        nearest(pow2(j) * b, b) == pow2(j),
{
    let w = (j - 52) as nat;
    lemma2_to64();
    lemma2_to64_rest();
    lemma_pow2_adds(52, w);
    lemma_pow2_pos(w);
    let a = LEADING as nat * b;
    assert(pow2(0) == 1);
    assert(LEADING * pow2(0) * b <= a < LIMIT * pow2(0) * b) by (nonlinear_arith)
        requires
            pow2(0) == 1,
            a == LEADING as nat * b,
            b > 0,
    ;
    lemma_nearest_is(a, b, 0, w);
    assert(a * pow2(w) == pow2(j) * b) by (nonlinear_arith)
        requires
            a == LEADING as nat * b,
            LEADING as nat * pow2(w) == pow2(j),
    ;
    assert(b * pow2(0) == b);
    lemma_half_even_bounds(a, b, LEADING as nat);
}

/// A larger quotient does not round to a smaller number.
pub proof fn lemma_nearest_grows(a: nat, c: nat, b: nat)
    requires
        a <= c,
        b > 0,
    ensures
        nearest(a, b) <= nearest(c, b),
{
    let p = a / b;
    let q = c / b;
    let u = spacing(p);
    let v = spacing(q);
    lemma_div_is_ordered(a as int, c as int, b as int);
    lemma_spacing(p);
    lemma_spacing(q);
    lemma_spacing_grows(p, q);
    assert(b * u > 0 && b * v > 0) by (nonlinear_arith)
        requires
            b > 0,
            u > 0,
            v > 0,
    ;
    if u == v {
        lemma_half_even_grows(a, c, b * u);
        assert(half_even(a, b * u) * u <= half_even(c, b * u) * u) by (nonlinear_arith)
            requires
                half_even(a, b * u) <= half_even(c, b * u),
                u > 0,
        ;
    } else {
        lemma_fundamental_div_mod(a as int, b as int);
        lemma_fundamental_div_mod(c as int, b as int);
        let limit = LIMIT as nat;
        let leading = LEADING as nat;
        assert(a <= limit * (b * u)) by (nonlinear_arith)
            requires
                p < limit * u,
                a == b * p + a % b,
                a % b < b,
                b > 0,
        ;
        lemma_half_even_bounds(a, b * u, limit);
        assert(c >= leading * (b * v)) by (nonlinear_arith)
            requires
                q >= leading * v,
                c == b * q + c % b,
                0 <= c % b,
                b > 0,
        ;
        lemma_half_even_bounds(c, b * v, leading);
        let x = half_even(a, b * u);
        let y = half_even(c, b * v);
        assert(x * u <= y * v) by (nonlinear_arith)
            requires
                x <= limit,
                y >= leading,
                limit == 2 * leading,
                2 * u <= v,
                u > 0,
        ;
    }
}

/// Rounds a quotient to the nearest whole number, and halfway to the even one.
pub fn round_half_even(a: u128, b: u128) -> (r: u128)
    requires
        0 < b <= 0x7fff_ffff_ffff_ffff_ffff_ffff_ffff_ffff,
        a <= 0x7fff_ffff_ffff_ffff_ffff_ffff_ffff_ffff,
    ensures
        r == half_even(a as nat, b as nat),
{
    let f: u128 = a / b;
    let r: u128 = a % b;
    assert(f <= a) by (nonlinear_arith)
        requires
            f == a / b,
            b > 0,
    ;
    if 2 * r < b || (2 * r == b && f % 2 == 0) {
        f
    } else {
        f + 1
    }
}

/// How the bits of a number give its value: the smallest numbers count their bits, an
/// exponent more makes twice as much, and the sign bit makes it negative.
pub proof fn law_bits_give_the_value(v: Double, w: Double)
    ensures
        v.bits < LIMIT ==> !v.nan() && v.scaled() == v.bits,
        LEADING <= v.bits < 0x7fe0_0000_0000_0000 && w.bits == v.bits + LEADING ==> !w.nan() && w.scaled() == 2
            * v.scaled(),
        v.bits <= 0x7ff0_0000_0000_0000 && w.bits == v.bits + 0x8000_0000_0000_0000 ==> !w.nan() && w.scaled()
            == -v.scaled(),
        v.nan() <==> 0x7ff0_0000_0000_0000 < v.bits < 0x8000_0000_0000_0000 || v.bits > 0xfff0_0000_0000_0000,
        v.not_positive() <==> !v.nan() && (v.bits == 0 || v.bits >= 0x8000_0000_0000_0000),
{
    lemma2_to64();
    let s = v.significand();
    let k = v.shift();
    let p = pow2(k);
    lemma_pow2_pos(k);
    if v.bits < LIMIT {
        assert(k == 0);
        assert(pow2(0) == 1);
        assert(s * 1 == s);
    }
    if LEADING <= v.bits < 0x7fe0_0000_0000_0000 && w.bits == v.bits + LEADING {
        assert(w.exponent() == v.exponent() + 1);
        assert(w.fraction() == v.fraction());
        lemma_pow2_adds(k, 1);
        assert(s * (p * 2) == 2 * (s * p)) by (nonlinear_arith);
    }
    if v.bits <= 0x7ff0_0000_0000_0000 && w.bits == v.bits + 0x8000_0000_0000_0000 {
        assert(w.exponent() == v.exponent());
        assert(w.fraction() == v.fraction());
    }
    assert(s * p == 0 <==> s == 0) by (nonlinear_arith)
        requires
            p > 0,
    ;
}

/// What a quotient rounds to is no further from it than half the distance between
/// neighbours, and that distance is the smallest there is, or one part in 2^52 of the
/// quotient at most.
pub proof fn law_rounding_goes_to_the_nearest(a: nat, b: nat)
    requires
        b > 0,
    ensures
        ({
            let u = spacing(a / b);
            &&& 2 * (b * nearest(a, b)) <= 2 * a + b * u
            &&& 2 * a <= 2 * (b * nearest(a, b)) + b * u
            &&& u == 1 || LEADING * u <= a / b
            &&& u > 0
        }),
{
    let q = a / b;
    let u = spacing(q);
    lemma_spacing(q);
    let c = b * u;
    assert(c > 0) by (nonlinear_arith)
        requires
            c == b * u,
            b > 0,
            u > 0,
    ;
    let h = half_even(a, c);
    lemma_fundamental_div_mod(a as int, c as int);
    let f = a / c;
    let r = a % c;
    assert(b * (h * u) == c * h) by (nonlinear_arith)
        requires
            c == b * u,
    ;
    assert(nearest(a, b) == h * u);
    assert(a == c * f + r);
    if h == f {
        assert(2 * r <= c);
        assert(c * h == c * f);
    } else {
        assert(2 * r >= c);
        assert(r < c);
        assert(c * h == c * f + c) by (nonlinear_arith)
            requires
                h == f + 1,
        ;
    }
}

/// Halfway between two whole numbers the even one is taken, and a whole number is taken
/// as it is.
pub proof fn law_halfway_goes_to_the_even_one(a: nat, b: nat)
    requires
        b > 0,
    ensures
        2 * (a % b) == b ==> half_even(a, b) % 2 == 0,
        a % b == 0 ==> b * half_even(a, b) == a,
{
    lemma_fundamental_div_mod(a as int, b as int);
}

} // verus!
