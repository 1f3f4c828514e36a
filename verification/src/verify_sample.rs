//! Sampling helpers for `verify --sample`.
//!
//! The share of the packs is what double-precision arithmetic makes of it: the number
//! of packs and the percentage are rounded, divided and multiplied as IEEE 754 says.

use vstd::arithmetic::div_mod::lemma_div_is_ordered;
use vstd::arithmetic::div_mod::lemma_div_multiples_vanish_quotient;
use vstd::arithmetic::div_mod::lemma_fundamental_div_mod_converse;
use vstd::arithmetic::power2::lemma2_to64;
use vstd::arithmetic::power2::lemma2_to64_rest;
use vstd::arithmetic::power2::lemma_pow2_adds;
use vstd::arithmetic::power2::lemma_pow2_pos;
use vstd::arithmetic::power2::lemma_pow2_strictly_increases;
use vstd::prelude::*;
use crate::doubles;
use crate::doubles::{Double, LEADING, LIMIT};

verus! {

/// A number that is given as a multiple of 2^-1074, rounded to a whole number, and
/// halfway up.
pub open spec fn whole(v: nat) -> nat {
    (2 * v + doubles::one()) / (2 * doubles::one())
}

/// The number of packs as a double-precision number.
pub open spec fn as_double(pack_count: nat) -> nat {
    doubles::nearest(pack_count * doubles::one(), 1)
}

/// A percentage as a fraction of one.
pub open spec fn hundredth(percentage: nat) -> nat {
    doubles::nearest(percentage, 100)
}

/// The product of two numbers.
pub open spec fn product(x: nat, y: nat) -> nat {
    doubles::nearest(x * y, doubles::one())
}

/// The rounded share of the packs that a percentage above zero comes to.
pub open spec fn share(pack_count: nat, percentage: nat) -> nat {
    whole(product(as_double(pack_count), hundredth(percentage)))
}

/// How many packs are verified: none where none are asked for or there are none,
/// else the rounded share, but at least one and at most all. What is not a number
/// has no share.
pub open spec fn sampled(pack_count: usize, sample_pct: Double) -> nat {
    if pack_count == 0 || sample_pct.not_positive() {
        0
    } else {
        let rounded = if sample_pct.nan() {
            0
        } else {
            share(pack_count as nat, sample_pct.magnitude())
        };
        if rounded < 1 {
            1
        } else if rounded > pack_count {
            pack_count as nat
        } else {
            rounded
        }
    }
}

/// A number of packs as a double-precision number: a significand, and the power of two
/// that it is multiplied by.
fn count_as_double(n: u64) -> (r: (u64, u64))
    requires
        n > 0,
    ensures
        LEADING <= r.0 <= LIMIT,
        1022 <= r.1 <= 1085,
        as_double(n as nat) == r.0 as nat * doubles::pow2(r.1 as nat),
{
    proof {
        lemma2_to64();
        lemma2_to64_rest();
    }
    if n < LIMIT {
        let mut m: u64 = n;
        let mut j: u64 = 0;
        assert(n as nat * doubles::pow2(0) == n) by (nonlinear_arith)
            requires
                doubles::pow2(0) == 1,
        ;
        while m < LEADING
            invariant
                0 < m < LIMIT,
                j <= 52,
                m == n as nat * doubles::pow2(j as nat),
                m >= doubles::pow2(j as nat),
                doubles::pow2(52) == LEADING,
            decreases LIMIT - m,
        {
            proof {
                lemma_pow2_adds(j as nat, 1);
                lemma2_to64();
                let p = doubles::pow2(j as nat);
                assert(n as nat * (p * 2) == 2 * (n as nat * p)) by (nonlinear_arith);
            }
            m = m * 2;
            j = j + 1;
        }
        proof {
            let w = (1074 - j) as nat;
            lemma_pow2_adds(j as nat, w);
            let p = doubles::pow2(j as nat);
            let c = doubles::pow2(w);
            assert(n as nat * (p * c) == (n as nat * p) * c) by (nonlinear_arith);
            assert(doubles::pow2(0) == 1);
            doubles::lemma_nearest_is(m as nat, 1, 0, w);
            doubles::lemma_half_even_bounds(m as nat, 1, m as nat);
        }
        (m, 1074 - j)
    } else {
        let mut d: u64 = 0;
        let mut unit: u128 = 1;
        while n as u128 >= 0x20_0000_0000_0000 * unit
            invariant
                d <= 11,
                unit == doubles::pow2(d as nat),
                unit <= 2048,
                0x10_0000_0000_0000 * unit <= n,
                doubles::pow2(11) == 2048,
            decreases 11 - d,
        {
            proof {
                lemma_pow2_adds(d as nat, 1);
                lemma2_to64();
                if d < 11 {
                    if d + 1 < 11 {
                        lemma_pow2_strictly_increases((d + 1) as nat, 11);
                    }
                }
            }
            unit = unit * 2;
            d = d + 1;
        }
        let m: u128 = doubles::round_half_even(n as u128, unit);
        proof {
            assert(LEADING * unit <= n < LIMIT * unit) by (nonlinear_arith)
                requires
                    LEADING == 0x10_0000_0000_0000,
                    LIMIT == 0x20_0000_0000_0000,
                    0x10_0000_0000_0000 * unit <= n < 0x20_0000_0000_0000 * unit,
            ;
            doubles::lemma_nearest_is(n as nat, 1, d as nat, 1074);
            doubles::lemma_half_even_bounds(n as nat, unit as nat, LEADING as nat);
            doubles::lemma_half_even_bounds(n as nat, unit as nat, LIMIT as nat);
            assert(1 * doubles::pow2(d as nat) == unit);
        }
        (m as u64, 1074 + d)
    }
}

/// A hundredth of a number, which is given by its significand and the power of two
/// that it is multiplied by.
fn hundredth_of(s: u64, shift: u64) -> (r: (u64, u64))
    requires
        LEADING <= s < LIMIT,
        7 <= shift <= 2046,
    ensures
        LEADING <= r.0 <= LIMIT,
        shift - 7 <= r.1 <= shift,
        hundredth(s as nat * doubles::pow2(shift as nat)) == r.0 as nat * doubles::pow2(r.1 as nat),
{
    let k: u64 = if s * 64 >= 100 * LEADING {
        6
    } else {
        7
    };
    let a: u64 = if k == 6 {
        s * 64
    } else {
        s * 128
    };
    let m: u128 = doubles::round_half_even(a as u128, 100);
    proof {
        lemma2_to64();
        let w = (shift - k) as nat;
        lemma_pow2_adds(k as nat, w);
        let p = doubles::pow2(k as nat);
        let c = doubles::pow2(w);
        assert(a as nat == s as nat * p);
        assert(s as nat * (p * c) == (s as nat * p) * c) by (nonlinear_arith);
        assert(doubles::pow2(0) == 1);
        doubles::lemma_nearest_is(a as nat, 100, 0, w);
        doubles::lemma_half_even_bounds(a as nat, 100, LEADING as nat);
        doubles::lemma_half_even_bounds(a as nat, 100, LIMIT as nat);
    }
    (m as u64, shift - k)
}

/// The product of two numbers, which are given by their significands and the powers of
/// two that these are multiplied by.
fn product_of(x: u64, i: u64, y: u64, j: u64) -> (r: (u64, u64))
    requires
        LEADING <= x <= LIMIT,
        LEADING <= y <= LIMIT,
        1074 <= i + j <= 4000,
    ensures
        LEADING <= r.0 <= LIMIT,
        52 + i + j - 1074 <= r.1 <= 54 + i + j - 1074,
        product(x as nat * doubles::pow2(i as nat), y as nat * doubles::pow2(j as nat)) == r.0 as nat * doubles::pow2(
            r.1 as nat,
        ),
{
    assert(LEADING * LEADING <= x * y <= LIMIT * LIMIT) by (nonlinear_arith)
        requires
            LEADING <= x <= LIMIT,
            LEADING <= y <= LIMIT,
    ;
    let m: u128 = x as u128 * y as u128;
    let first: u128 = 0x200_0000_0000_0000_0000_0000_0000;
    let (d, unit): (u64, u128) = if m < first {
        (52, LEADING as u128)
    } else if m < 2 * first {
        (53, LIMIT as u128)
    } else {
        (54, 2 * LIMIT as u128)
    };
    let r: u128 = doubles::round_half_even(m, unit);
    proof {
        lemma2_to64();
        lemma2_to64_rest();
        let one = doubles::one();
        let u = unit as nat;
        let n = m as nat;
        let w = (i + j - 1074) as nat;
        lemma_pow2_pos(1074);
        assert(u == doubles::pow2(d as nat));
        assert(LEADING * u <= n < LIMIT * u);
        assert(LEADING * u * one <= n * one < LIMIT * u * one) by (nonlinear_arith)
            requires
                LEADING * u <= n < LIMIT * u,
                one > 0,
        ;
        doubles::lemma_nearest_is(n * one, one, d as nat, w);
        doubles::lemma_half_even_scales(n, u, one);
        assert(one * u == u * one) by (nonlinear_arith);
        let p = doubles::pow2(i as nat);
        let q = doubles::pow2(j as nat);
        lemma_pow2_adds(i as nat, j as nat);
        lemma_pow2_adds(1074, w);
        let c = doubles::pow2(w);
        assert((x as nat * p) * (y as nat * q) == (x as nat * y as nat) * (p * q)) by (nonlinear_arith);
        assert(n * (one * c) == (n * one) * c) by (nonlinear_arith);
        doubles::lemma_half_even_bounds(n, u, LEADING as nat);
        doubles::lemma_half_even_bounds(n, u, LIMIT as nat);
    }
    (r as u64, d + (i + j - 1074))
}

/// A number rounded to a whole one, but to no more than `most`.
fn whole_of(m: u64, w: u64, most: u64) -> (r: u64)
    requires
        LEADING <= m <= LIMIT,
        w <= 4000,
    ensures
        r == (if whole(m as nat * doubles::pow2(w as nat)) > most {
            most as nat
        } else {
            whole(m as nat * doubles::pow2(w as nat))
        }),
{
    proof {
        lemma2_to64();
        lemma2_to64_rest();
        lemma_pow2_pos(1074);
        lemma_pow2_pos(w as nat);
    }
    let ghost one = doubles::one();
    if w >= 1074 {
        let up: u64 = w - 1074;
        let ghost p = doubles::pow2(up as nat);
        let ghost v = m as nat * p;
        proof {
            lemma_pow2_adds(up as nat, 1074);
            lemma_pow2_pos(up as nat);
            assert(m as nat * (p * one) == v * one) by (nonlinear_arith)
                requires
                    v == m as nat * p,
            ;
            lemma_whole_number(v);
        }
        if up >= 12 {
            proof {
                if up > 12 {
                    lemma_pow2_strictly_increases(12, up as nat);
                }
                assert(v >= LEADING * 4096) by (nonlinear_arith)
                    requires
                        v == m as nat * p,
                        m >= LEADING,
                        p >= 4096,
                ;
            }
            return most;
        }
        let mut r: u128 = m as u128;
        let mut i: u64 = 0;
        assert(m as nat * doubles::pow2(0) == m) by (nonlinear_arith)
            requires
                doubles::pow2(0) == 1,
        ;
        while i < up
            invariant
                i <= up < 12,
                r == m as nat * doubles::pow2(i as nat),
                m <= LIMIT,
                doubles::pow2(12) == 4096,
            decreases up - i,
        {
            proof {
                lemma_pow2_adds(i as nat, 1);
                lemma2_to64();
                lemma_pow2_strictly_increases(i as nat, 12);
                let c = doubles::pow2(i as nat);
                assert(m as nat * (c * 2) == 2 * (m as nat * c)) by (nonlinear_arith);
                assert(m as nat * c <= LIMIT as nat * 4096) by (nonlinear_arith)
                    requires
                        m <= LIMIT,
                        c < 4096,
                ;
            }
            r = r * 2;
            i = i + 1;
        }
        if r > most as u128 {
            most
        } else {
            r as u64
        }
    } else {
        let down: u64 = 1074 - w;
        let ghost h = doubles::pow2((down - 1) as nat);
        proof {
            lemma_half_up(m as nat, w as nat);
        }
        if down >= 55 {
            proof {
                if down > 55 {
                    lemma_pow2_strictly_increases(54, (down - 1) as nat);
                }
                assert((m as nat + h) / (2 * h) == 0) by (nonlinear_arith)
                    requires
                        m < h,
                        h > 0,
                ;
            }
            return 0;
        }
        let mut half: u128 = 1;
        let mut i: u64 = 1;
        while i < down
            invariant
                1 <= i <= down < 55,
                half == doubles::pow2((i - 1) as nat),
                doubles::pow2(54) == 0x40_0000_0000_0000,
            decreases down - i,
        {
            proof {
                lemma_pow2_adds((i - 1) as nat, 1);
                lemma2_to64();
                lemma_pow2_strictly_increases((i - 1) as nat, 54);
            }
            half = half * 2;
            i = i + 1;
        }
        proof {
            if down - 1 < 54 {
                lemma_pow2_strictly_increases((down - 1) as nat, 54);
            }
            assert((m as nat + h) / (2 * h) <= m as nat + h) by (nonlinear_arith)
                requires
                    h > 0,
            ;
        }
        let r: u128 = (m as u128 + half) / (2 * half);
        if r > most as u128 {
            most
        } else {
            r as u64
        }
    }
}

/// A whole number rounds to itself.
proof fn lemma_whole_number(v: nat)
    ensures
        whole(v * doubles::one()) == v,
{
    let one = doubles::one() as int;
    lemma_pow2_pos(1074);
    assert((2 * (v * one) + one) == v * (2 * one) + one) by (nonlinear_arith);
    lemma_fundamental_div_mod_converse(2 * (v * one) + one, 2 * one, v as int, one);
}

/// What is less than a whole number by a power of two rounds halfway up.
proof fn lemma_half_up(m: nat, w: nat)
    requires
        w < 1074,
    ensures
        whole(m * doubles::pow2(w)) == (m + doubles::pow2((1073 - w) as nat)) / (2 * doubles::pow2((1073 - w) as nat)),
        doubles::pow2((1073 - w) as nat) > 0,
{
    let h = doubles::pow2((1073 - w) as nat) as int;
    let c = doubles::pow2(w) as int;
    let one = doubles::one() as int;
    lemma2_to64();
    lemma_pow2_pos(w);
    lemma_pow2_pos((1073 - w) as nat);
    lemma_pow2_adds((1073 - w) as nat, 1);
    lemma_pow2_adds((1074 - w) as nat, w);
    assert(one == (h * 2) * c);
    let a = m + h;
    let b = 2 * h;
    assert(2 * (m * c) + one == (2 * c) * a) by (nonlinear_arith)
        requires
            one == (h * 2) * c,
            a == m + h,
    ;
    assert(2 * one == (2 * c) * b) by (nonlinear_arith)
        requires
            one == (h * 2) * c,
            b == 2 * h,
    ;
    lemma_div_multiples_vanish_quotient(2 * c, a, b);
}

/// A percentage that is next to nothing has no share.
proof fn lemma_no_share(n: nat, p: nat)
    requires
        n <= doubles::pow2(64),
        p <= doubles::pow2(124),
    ensures
        share(n, p) == 0,
{
    let one = doubles::one();
    lemma2_to64();
    lemma2_to64_rest();
    lemma_pow2_pos(1074);
    assert(p <= doubles::pow2(124) * 100);
    doubles::lemma_nearest_grows(p, doubles::pow2(124) * 100, 100);
    doubles::lemma_power_is_nearest(124, 100);
    lemma_pow2_adds(64, 1074);
    assert(n * one <= doubles::pow2(64) * one) by (nonlinear_arith)
        requires
            n <= doubles::pow2(64),
            one > 0,
    ;
    doubles::lemma_nearest_grows(n * one, doubles::pow2(1138), 1);
    doubles::lemma_power_is_nearest(1138, 1);
    assert(doubles::pow2(1138) * 1 == doubles::pow2(1138));
    let x = as_double(n);
    let y = hundredth(p);
    lemma_pow2_adds(1138, 124);
    lemma_pow2_adds(188, 1074);
    assert(x * y <= doubles::pow2(188) * one) by (nonlinear_arith)
        requires
            x <= doubles::pow2(1138),
            y <= doubles::pow2(124),
            doubles::pow2(1138) * doubles::pow2(124) == doubles::pow2(188) * one,
    ;
    doubles::lemma_nearest_grows(x * y, doubles::pow2(188) * one, one);
    doubles::lemma_power_is_nearest(188, one);
    let v = product(x, y);
    assert(v <= doubles::pow2(188));
    lemma_pow2_strictly_increases(188, 1073);
    lemma_pow2_adds(1073, 1);
    assert((2 * v + one) / (2 * one) == 0) by (nonlinear_arith)
        requires
            2 * v < one,
            one > 0,
    ;
}

/// How many packs `--sample PCT%` should verify. `0%` and an empty pack list both
/// yield 0.
pub fn sample_pack_count(pack_count: usize, sample_pct: Double) -> (r: usize)
    ensures
        r == sampled(pack_count, sample_pct),
        r <= pack_count,
        r == 0 <==> pack_count == 0 || sample_pct.not_positive(),
{
    let exponent: u64 = (sample_pct.bits / LEADING) % 2048;
    let fraction: u64 = sample_pct.bits % LEADING;
    proof {
        lemma2_to64();
        lemma2_to64_rest();
        lemma_pow2_pos(sample_pct.shift());
        let s = sample_pct.significand();
        let p = doubles::pow2(sample_pct.shift());
        assert(s * p == 0 <==> s == 0) by (nonlinear_arith)
            requires
                p > 0,
        ;
    }
    if pack_count == 0 {
        return 0;
    }
    if exponent == 2047 && fraction != 0 {
        return 1;
    }
    if sample_pct.bits >= 0x8000_0000_0000_0000 || sample_pct.bits == 0 {
        return 0;
    }
    let n: u64 = pack_count as u64;
    if exponent < 72 {
        proof {
            let s = sample_pct.significand();
            let p = doubles::pow2(sample_pct.shift());
            if sample_pct.shift() < 71 {
                lemma_pow2_strictly_increases(sample_pct.shift(), 71);
            }
            lemma_pow2_adds(53, 71);
            assert(s * p <= LIMIT * doubles::pow2(71)) by (nonlinear_arith)
                requires
                    s <= LIMIT,
                    p <= doubles::pow2(71),
            ;
            lemma_no_share(n as nat, sample_pct.magnitude());
        }
        return 1;
    }
    let (x, i) = count_as_double(n);
    let (y, j) = hundredth_of(fraction + LEADING, exponent - 1);
    let (m, w) = product_of(x, i, y, j);
    let rounded: u64 = whole_of(m, w, n);
    if rounded < 1 {
        1
    } else {
        rounded as usize
    }
}

/// The sample grows with the percentage and with the number of packs.
pub proof fn law_sample_grows(fewer: usize, more: usize, p: Double, q: Double)
    requires
        fewer <= more,
        !p.nan(),
        !q.nan(),
        p.scaled() <= q.scaled(),
    ensures
        sampled(fewer, p) <= sampled(more, q),
{
    if fewer > 0 && !p.not_positive() {
        let m = fewer as nat;
        let n = more as nat;
        let one = doubles::one();
        lemma_pow2_pos(1074);
        assert(m * one <= n * one) by (nonlinear_arith)
            requires
                m <= n,
        ;
        doubles::lemma_nearest_grows(m * one, n * one, 1);
        doubles::lemma_nearest_grows(p.magnitude(), q.magnitude(), 100);
        let (a, b) = (as_double(m), hundredth(p.magnitude()));
        let (c, d) = (as_double(n), hundredth(q.magnitude()));
        assert(a * b <= c * d) by (nonlinear_arith)
            requires
                a <= c,
                b <= d,
        ;
        doubles::lemma_nearest_grows(a * b, c * d, one);
        lemma_div_is_ordered(
            (2 * product(a, b) + one) as int,
            (2 * product(c, d) + one) as int,
            (2 * one) as int,
        );
    }
}

/// Nothing is verified where nothing is asked for or nothing is there, and at least one
/// pack and at most all of them where something is; what is not a number asks for one.
pub proof fn law_a_sample_is_some_of_the_packs(pack_count: usize, sample_pct: Double)
    ensures
        sampled(pack_count, sample_pct) <= pack_count,
        sampled(pack_count, sample_pct) == 0 <==> pack_count == 0 || sample_pct.not_positive(),
        pack_count > 0 && sample_pct.nan() ==> sampled(pack_count, sample_pct) == 1,
{
}

/// A sample is the share of the packs that the percentage says, to the next whole number:
/// no more than half a pack from it, and a hundredth for what the arithmetic leaves out.
pub proof fn law_a_sample_is_the_share_of_the_packs(pack_count: usize, sample_pct: Double)
    requires
        0 < pack_count <= 0x100_0000_0000,
        !sample_pct.nan(),
        0 < sample_pct.scaled() <= 100 * doubles::one(),
    ensures
        ({
            let one = doubles::one() as int;
            let r = sampled(pack_count, sample_pct) as int;
            let exact = pack_count * sample_pct.scaled();
            &&& r > 1 ==> 100 * (r * one) <= exact + 51 * one
            &&& exact <= 100 * (r * one) + 51 * one
        }),
{
    let one = doubles::one();
    let n = pack_count as nat;
    let p = sample_pct.magnitude();
    let tiny = doubles::pow2(1022);
    lemma_pow2_pos(1074);
    lemma_pow2_pos(1022);
    lemma2_to64();
    lemma2_to64_rest();
    lemma_pow2_adds(1022, 52);
    assert(one == tiny * LEADING);
    // The number of packs is exact.
    let x = as_double(n);
    lemma_small_counts_are_exact(n);
    // The percentage is divided.
    let y = hundredth(p);
    doubles::law_rounding_goes_to_the_nearest(p, 100);
    doubles::lemma_nearest_grows(p, one * 100, 100);
    doubles::lemma_power_is_nearest(1074, 100);
    let u = doubles::spacing(p / 100);
    assert(u <= tiny) by (nonlinear_arith)
        requires
            u == 1 || LEADING * u <= p / 100,
            p <= 100 * one,
            one == tiny * LEADING,
            tiny > 0,
            LEADING == 0x10_0000_0000_0000,
    ;
    assert(2 * (100 * y) <= 2 * p + 100 * tiny && 2 * p <= 2 * (100 * y) + 100 * tiny);
    // The two are multiplied.
    let v = product(x, y);
    let a = x * y;
    assert(a == (n * y) * one) by (nonlinear_arith)
        requires
            a == x * y,
            x == n * one,
    ;
    assert(a / one == n * y) by (nonlinear_arith)
        requires
            a == (n * y) * one,
            one > 0,
    ;
    doubles::law_rounding_goes_to_the_nearest(a, one);
    let w = doubles::spacing(n * y);
    assert(w <= n * tiny) by (nonlinear_arith)
        requires
            w == 1 || LEADING * w <= n * y,
            y <= one,
            one == tiny * LEADING,
            tiny > 0,
            n > 0,
            LEADING == 0x10_0000_0000_0000,
    ;
    assert(2 * v <= 2 * (n * y) + w && 2 * (n * y) <= 2 * v + w) by (nonlinear_arith)
        requires
            2 * (one * v) <= 2 * ((n * y) * one) + one * w,
            2 * ((n * y) * one) <= 2 * (one * v) + one * w,
            one > 0,
    ;
    assert(2 * (100 * (n * y)) <= 2 * (n * p) + 100 * (n * tiny) && 2 * (n * p) <= 2 * (100 * (n * y)) + 100 * (n
        * tiny)) by (nonlinear_arith)
        requires
            2 * (100 * y) <= 2 * p + 100 * tiny,
            2 * p <= 2 * (100 * y) + 100 * tiny,
            n > 0,
    ;
    assert(100 * (n * tiny) <= one) by (nonlinear_arith)
        requires
            n <= 0x100_0000_0000,
            one == tiny * LEADING,
            LEADING == 0x10_0000_0000_0000,
            tiny > 0,
    ;
    assert(100 * v <= n * p + one && n * p <= 100 * v + one);
    // And rounded to a whole number.
    let s = whole(v);
    assert(2 * (s * one) <= 2 * v + one && 2 * v + one < 2 * (s * one) + 2 * one) by (nonlinear_arith)
        requires
            s == (2 * v + one) / (2 * one),
            one > 0,
    ;
    assert(n * p <= 100 * (n * one)) by (nonlinear_arith)
        requires
            p <= 100 * one,
    ;
    let r = sampled(pack_count, sample_pct);
    assert(r == s || (s < 1 && r == 1) || (s > n && r == n));
    assert(1 * one == one && 0 * one == 0);
    if s > n {
        assert(n * one <= s * one) by (nonlinear_arith)
            requires
                n <= s,
        ;
    }
    assert(n * p == pack_count * sample_pct.scaled());
}

proof fn lemma_small_counts_are_exact(n: nat)
    requires
        0 < n <= 0x100_0000_0000,
    ensures
        as_double(n) == n * doubles::one(),
{
    lemma2_to64();
    assert(n * doubles::pow2(0) == n) by (nonlinear_arith)
        requires
            doubles::pow2(0) == 1,
    ;
    lemma_normal_count(n, 0);
}

/// Doubled until it has a leading bit, a number of packs is a significand.
proof fn lemma_normal_count(n: nat, j: nat)
    requires
        0 < n,
        n * doubles::pow2(j) < LIMIT,
        j <= 52,
    ensures
        as_double(n) == n * doubles::one(),
    decreases 52 - j,
{
    lemma2_to64();
    lemma2_to64_rest();
    let m = n * doubles::pow2(j);
    lemma_pow2_pos(j);
    if m < LEADING {
        if j == 52 {
            assert(n * doubles::pow2(52) >= doubles::pow2(52)) by (nonlinear_arith)
                requires
                    n > 0,
            ;
        }
        lemma_pow2_adds(j, 1);
        let p = doubles::pow2(j);
        assert(n * (p * 2) == 2 * (n * p)) by (nonlinear_arith);
        lemma_normal_count(n, j + 1);
    } else {
        let w = (1074 - j) as nat;
        lemma_pow2_adds(j, w);
        let p = doubles::pow2(j);
        let c = doubles::pow2(w);
        assert(n * (p * c) == (n * p) * c) by (nonlinear_arith);
        assert(doubles::pow2(0) == 1);
        doubles::lemma_nearest_is(m, 1, 0, w);
        doubles::lemma_half_even_bounds(m, 1, m);
    }
}

} // verus!
