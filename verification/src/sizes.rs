//! Sizes in MiB, given as single-precision numbers.
//!
//! A size on the command line is a number of MiB that may have a fraction. It is
//! held by the 32 bits of its IEEE 754 encoding, so that every rule on it is a
//! rule on integers: a finite single-precision number is a whole multiple of
//! 2^-149, and that multiple is what the contracts speak of.

use vstd::arithmetic::div_mod::lemma_div_multiples_vanish_quotient;
use vstd::arithmetic::power2::lemma_pow2_adds;
use vstd::arithmetic::power2::lemma_pow2_pos;
use vstd::arithmetic::power2::lemma_pow2_strictly_increases;
use vstd::arithmetic::power2::lemma2_to64;
use vstd::arithmetic::power2::lemma2_to64_rest;
use vstd::bits::lemma_u64_shl_is_mul;
use vstd::bits::lemma_u64_shr_is_div;
use vstd::prelude::*;
use crate::text;

verus! {

/// A single-precision number, by the bits of its IEEE 754 encoding.
#[derive(Debug, Copy, Clone, PartialEq, Eq, Structural)]
pub struct Single {
    /// Sign, exponent and fraction.
    pub bits: u32,
}

/// The smallest pack size that can be configured, in MiB.
pub const MIN_CONFIGURABLE_PACK_SIZE_MIB: u32 = 1;

/// The largest pack size that can be configured, in MiB.
pub const MAX_CONFIGURABLE_PACK_SIZE_MIB: u32 = 4095;

impl Single {
    /// Whether the sign bit is set.
    pub open spec fn signed(self) -> bool {
        self.bits >= 0x8000_0000
    }

    /// The biased exponent.
    pub open spec fn exponent(self) -> int {
        (self.bits as int / 0x80_0000) % 256
    }

    /// The fraction bits.
    pub open spec fn fraction(self) -> int {
        self.bits as int % 0x80_0000
    }

    /// Neither an infinity nor a NaN.
    pub open spec fn finite(self) -> bool {
        self.exponent() != 255
    }

    /// Not a number.
    pub open spec fn nan(self) -> bool {
        self.exponent() == 255 && self.fraction() != 0
    }

    /// The fraction with the leading bit that a normal number has.
    pub open spec fn significand(self) -> int {
        if self.exponent() == 0 {
            self.fraction()
        } else {
            self.fraction() + 0x80_0000
        }
    }

    /// The power of two by which the significand is to be multiplied.
    pub open spec fn shift(self) -> int {
        if self.exponent() == 0 {
            0
        } else {
            self.exponent() - 1
        }
    }

    /// The absolute value of a finite number, as a multiple of 2^-149.
    pub open spec fn magnitude(self) -> int {
        self.significand() * vstd::arithmetic::power2::pow2(self.shift() as nat)
    }

    /// The value of a finite number, as a multiple of 2^-149.
    pub open spec fn scaled(self) -> int {
        if self.signed() {
            -self.magnitude()
        } else {
            self.magnitude()
        }
    }

    /// Whether a number is finite and stands between two whole numbers, both
    /// counted in.
    pub open spec fn between(self, low: int, high: int) -> bool {
        &&& self.finite()
        &&& low * vstd::arithmetic::power2::pow2(149) <= self.scaled()
        &&& self.scaled() <= high * vstd::arithmetic::power2::pow2(149)
    }

    /// The whole bytes in this many MiB, before any limit on their number. A MiB
    /// is 2^20 bytes, and the unit of the magnitude is 2^-149.
    pub open spec fn whole_bytes(self) -> int {
        self.magnitude() / (vstd::arithmetic::power2::pow2(129) as int)
    }

    /// The bytes in this many MiB as a 64-bit number: none where the size is
    /// negative or not a number, the largest such number where there are more.
    pub open spec fn bytes(self) -> u64 {
        if self.nan() || self.signed() {
            0
        } else if !self.finite() || self.whole_bytes() > u64::MAX {
            u64::MAX
        } else {
            self.whole_bytes() as u64
        }
    }
}

proof fn lemma_significand(v: Single)
    ensures
        0 <= v.significand() < 0x100_0000,
        v.exponent() > 0 ==> v.significand() >= 0x80_0000,
        0 <= v.exponent() <= 255,
        0 <= v.shift() <= 254,
        v.signed() == (v.bits as int / 0x80_0000 >= 256),
{
}

/// How the magnitude lies towards a power of two, by the exponent alone.
proof fn lemma_magnitude_by_exponent(v: Single, n: int)
    requires
        1 <= n <= 254,
    ensures
        v.exponent() >= n ==> v.magnitude() >= vstd::arithmetic::power2::pow2((n + 22) as nat),
        v.exponent() < n ==> v.magnitude() < vstd::arithmetic::power2::pow2((n + 22) as nat),
{
    lemma_significand(v);
    lemma2_to64();
    lemma2_to64_rest();
    let k = v.shift();
    let p = vstd::arithmetic::power2::pow2(k as nat) as int;
    lemma_pow2_pos(k as nat);
    lemma_pow2_adds(k as nat, 23);
    lemma_pow2_adds(k as nat, 24);
    let s = v.significand();
    if v.exponent() >= n {
        assert(s * p >= 0x80_0000 * p) by (nonlinear_arith)
            requires
                s >= 0x80_0000,
                p > 0,
        ;
        if k + 23 > n + 22 {
            lemma_pow2_strictly_increases((n + 22) as nat, (k + 23) as nat);
        }
    } else if v.exponent() == 0 {
        assert(s < 0x80_0000);
        assert(p == 1);
        if 23 < n + 22 {
            lemma_pow2_strictly_increases(23, (n + 22) as nat);
        }
    } else {
        assert(s * p < 0x100_0000 * p) by (nonlinear_arith)
            requires
                s < 0x100_0000,
                p > 0,
        ;
        if k + 24 < n + 22 {
            lemma_pow2_strictly_increases((k + 24) as nat, (n + 22) as nat);
        }
    }
}

impl Single {
    /// Whether this is neither an infinity nor a NaN.
    pub fn is_finite(&self) -> (r: bool)
        ensures
            r == self.finite(),
    {
        (self.bits / 0x80_0000) % 256 != 255
    }

    /// Whether this is below zero.
    pub fn is_negative(&self) -> (r: bool)
        requires
            self.finite(),
        ensures
            r == (self.scaled() < 0),
    {
        proof {
            lemma_significand(*self);
            lemma_pow2_pos(self.shift() as nat);
            let s = self.significand();
            let p = vstd::arithmetic::power2::pow2(self.shift() as nat) as int;
            assert(s > 0 ==> s * p > 0) by (nonlinear_arith)
                requires
                    p > 0,
            ;
            assert(s == 0 ==> s * p == 0) by (nonlinear_arith);
            assert(s == 0 <==> self.bits == 0x8000_0000 || self.bits == 0);
        }
        self.bits > 0x8000_0000
    }

    /// Whether this many MiB are more bytes than a 64-bit number can count.
    pub fn overflows(&self) -> (r: bool)
        requires
            self.finite(),
            !self.signed() || self.scaled() == 0,
        ensures
            r == (self.whole_bytes() > u64::MAX),
    {
        proof {
            lemma_magnitude_by_exponent(*self, 171);
            lemma_bytes_limit(self.magnitude());
        }
        (self.bits / 0x80_0000) % 256 >= 171
    }

    /// Whether this stands between the smallest and the largest pack size.
    pub fn is_pack_size(&self) -> (r: bool)
        ensures
            r == self.between(MIN_CONFIGURABLE_PACK_SIZE_MIB as int, MAX_CONFIGURABLE_PACK_SIZE_MIB as int),
    {
        let exponent: u32 = (self.bits / 0x80_0000) % 256;
        let fraction: u32 = self.bits % 0x80_0000;
        let r: bool = self.bits < 0x8000_0000 && (127 <= exponent && exponent < 138 || exponent == 138 && fraction
            <= 0x7f_f000);
        proof {
            lemma_significand(*self);
            let m = self.magnitude();
            let one = vstd::arithmetic::power2::pow2(149) as int;
            lemma_pow2_pos(149);
            lemma_pow2_pos(self.shift() as nat);
            assert(m >= 0) by (nonlinear_arith)
                requires
                    m == self.significand() * (vstd::arithmetic::power2::pow2(self.shift() as nat) as int),
                    self.significand() >= 0,
                    vstd::arithmetic::power2::pow2(self.shift() as nat) > 0,
            ;
            lemma_magnitude_by_exponent(*self, 127);
            lemma_magnitude_by_exponent(*self, 138);
            lemma_magnitude_by_exponent(*self, 139);
            lemma2_to64();
            lemma_pow2_adds(149, 11);
            lemma_pow2_adds(149, 12);
            lemma_pow2_adds(137, 12);
            if exponent == 138 {
                let p = vstd::arithmetic::power2::pow2(137) as int;
                let s = self.significand();
                assert(one == p * 4096);
                assert(m == s * p);
                assert(4095 * one == 0xff_f000 * p);
                assert(s <= 0xff_f000 <==> s * p <= 0xff_f000 * p) by (nonlinear_arith)
                    requires
                        p > 0,
                ;
                lemma_pow2_pos(137);
            }
        }
        r
    }

    /// Whether this is a percentage: whether it stands between 0 and 100.
    pub fn is_percentage(&self) -> (r: bool)
        ensures
            r == self.between(0, 100),
    {
        if !self.is_finite() {
            return false;
        }
        if self.is_negative() {
            return false;
        }
        let exponent: u32 = (self.bits / 0x80_0000) % 256;
        let fraction: u32 = self.bits % 0x80_0000;
        let r: bool = exponent < 133 || exponent == 133 && fraction <= 0x48_0000;
        proof {
            lemma_not_negative(*self);
            lemma_significand(*self);
            let m = self.magnitude();
            let one = vstd::arithmetic::power2::pow2(149) as int;
            lemma_pow2_pos(149);
            lemma_magnitude_by_exponent(*self, 133);
            lemma_magnitude_by_exponent(*self, 134);
            lemma2_to64();
            lemma_pow2_adds(149, 6);
            lemma_pow2_adds(149, 7);
            lemma_pow2_adds(132, 17);
            assert(self.scaled() == m);
            if exponent == 133 {
                let p = vstd::arithmetic::power2::pow2(132) as int;
                let s = self.significand();
                lemma_pow2_pos(132);
                assert(one == p * 0x2_0000);
                assert(m == s * p);
                assert(100 * one == 0xc8_0000 * p);
                assert(s <= 0xc8_0000 <==> s * p <= 0xc8_0000 * p) by (nonlinear_arith)
                    requires
                        p > 0,
                ;
            }
        }
        r
    }

    /// The bytes in this many MiB.
    pub fn to_bytes(&self) -> (r: u64)
        ensures
            r == self.bytes(),
    {
        let exponent: u32 = (self.bits / 0x80_0000) % 256;
        let fraction: u32 = self.bits % 0x80_0000;
        if exponent == 255 {
            if fraction != 0 || self.bits >= 0x8000_0000 {
                return 0;
            }
            return u64::MAX;
        }
        if self.bits >= 0x8000_0000 {
            return 0;
        }
        proof {
            lemma_significand(*self);
            lemma_magnitude_by_exponent(*self, 171);
            lemma_bytes_limit(self.magnitude());
        }
        if exponent >= 171 {
            return u64::MAX;
        }
        let significand: u64 = if exponent == 0 { fraction as u64 } else { fraction as u64 + 0x80_0000 };
        let shift: u32 = if exponent == 0 { 0 } else { exponent - 1 };
        let ghost s = significand as int;
        let ghost p129 = vstd::arithmetic::power2::pow2(129) as int;
        proof {
            lemma_pow2_pos(129);
            lemma2_to64();
            lemma2_to64_rest();
        }
        if shift >= 129 {
            let up: u64 = (shift - 129) as u64;
            proof {
                let q = vstd::arithmetic::power2::pow2(up as nat) as int;
                lemma_pow2_adds(129, up as nat);
                lemma_pow2_pos(up as nat);
                assert(s * (p129 * q) == (s * q) * p129) by (nonlinear_arith);
                assert((s * q) * p129 / p129 == s * q) by (nonlinear_arith)
                    requires
                        p129 > 0,
                ;
                if up < 40 {
                    lemma_pow2_strictly_increases(up as nat, 40);
                }
                assert(s * q < 0x100_0000 * 0x100_0000_0000) by (nonlinear_arith)
                    requires
                        0 <= s < 0x100_0000,
                        0 < q <= 0x100_0000_0000,
                ;
                lemma_u64_shl_is_mul(significand, up);
            }
            significand << up
        } else {
            let down: u32 = 129 - shift;
            proof {
                let k = vstd::arithmetic::power2::pow2(shift as nat) as int;
                let d = vstd::arithmetic::power2::pow2(down as nat) as int;
                lemma_pow2_adds(shift as nat, down as nat);
                lemma_pow2_pos(shift as nat);
                lemma_pow2_pos(down as nat);
                lemma_div_multiples_vanish_quotient(k, s, d);
                assert(k * s == s * k) by (nonlinear_arith);
                assert(self.whole_bytes() == s / d);
                if down >= 24 {
                    if down > 24 {
                        lemma_pow2_strictly_increases(24, down as nat);
                    }
                    assert(s / d == 0) by (nonlinear_arith)
                        requires
                            0 <= s < d,
                    ;
                }
            }
            if down >= 24 {
                0
            } else {
                proof {
                    lemma_u64_shr_is_div(significand, down as u64);
                }
                significand >> (down as u64)
            }
        }
    }
}

/// More than 2^64 - 1 whole bytes are at least 2^193 units.
proof fn lemma_bytes_limit(m: int)
    requires
        0 <= m,
    ensures
        (m / (vstd::arithmetic::power2::pow2(129) as int) > u64::MAX) == (m >= vstd::arithmetic::power2::pow2(193)),
{
    let p = vstd::arithmetic::power2::pow2(129) as int;
    lemma_pow2_pos(129);
    lemma_pow2_adds(129, 64);
    lemma2_to64();
    assert(vstd::arithmetic::power2::pow2(64) == 0x1_0000_0000_0000_0000);
    assert(m >= p * 0x1_0000_0000_0000_0000 ==> m / p >= 0x1_0000_0000_0000_0000) by (nonlinear_arith)
        requires
            p > 0,
            m >= 0,
    ;
    assert(m < p * 0x1_0000_0000_0000_0000 ==> m / p < 0x1_0000_0000_0000_0000) by (nonlinear_arith)
        requires
            p > 0,
            m >= 0,
    ;
}

/// What a pack size reads as: the number, if it could be read and stands between
/// the smallest and the largest pack size.
pub open spec fn pack_size(read: Result<Single, String>) -> Result<Single, Seq<char>> {
    match read {
        Err(e) => Err("Invalid pack size: "@ + e@),
        Ok(v) => if v.between(MIN_CONFIGURABLE_PACK_SIZE_MIB as int, MAX_CONFIGURABLE_PACK_SIZE_MIB as int) {
            Ok(v)
        } else {
            Err(
                "Pack size must be between "@ + text::decimal(MIN_CONFIGURABLE_PACK_SIZE_MIB as nat) + " and "@
                    + text::decimal(MAX_CONFIGURABLE_PACK_SIZE_MIB as nat) + " MiB"@,
            )
        },
    }
}

/// Checks a pack size. `read` is the number that was read, or why none could be.
pub fn pack_size_parser(read: Result<Single, String>) -> (r: Result<Single, String>)
    ensures
        text::agrees(r, pack_size(read)),
{
    match read {
        Err(e) => Err(text::join2("Invalid pack size: ", e.as_str())),
        Ok(v) => if v.is_pack_size() {
            Ok(v)
        } else {
            let mut m = "Pack size must be between ".to_owned();
            m.append(text::number_text(MIN_CONFIGURABLE_PACK_SIZE_MIB as u64).as_str());
            m.append(" and ");
            m.append(text::number_text(MAX_CONFIGURABLE_PACK_SIZE_MIB as u64).as_str());
            m.append(" MiB");
            Err(m)
        },
    }
}

/// What the size of a cache reads as: the number, if it could be read, is finite,
/// not negative, and no more bytes than a 64-bit number can count.
pub open spec fn cache_size(read: Result<Single, String>) -> Result<Single, Seq<char>> {
    match read {
        Err(e) => Err("Invalid cache size: "@ + e@),
        Ok(v) => if !v.finite() {
            Err("cache size must be a finite number"@)
        } else if v.scaled() < 0 {
            Err("cache size must not be negative"@)
        } else if v.whole_bytes() > u64::MAX {
            Err("cache size is too large"@)
        } else {
            Ok(v)
        },
    }
}

/// Checks the size of a cache. `read` is the number that was read, or why none
/// could be.
pub fn cache_size_mib_parser(read: Result<Single, String>) -> (r: Result<Single, String>)
    ensures
        text::agrees(r, cache_size(read)),
{
    match read {
        Err(e) => Err(text::join2("Invalid cache size: ", e.as_str())),
        Ok(v) => {
            if !v.is_finite() {
                return Err("cache size must be a finite number".to_owned());
            }
            if v.is_negative() {
                return Err("cache size must not be negative".to_owned());
            }
            proof {
                lemma_not_negative(v);
            }
            if v.overflows() {
                return Err("cache size is too large".to_owned());
            }
            Ok(v)
        },
    }
}

proof fn lemma_not_negative(v: Single)
    ensures
        v.magnitude() >= 0,
        v.finite() && v.scaled() >= 0 ==> !v.signed() || v.scaled() == 0,
{
    lemma_significand(v);
    lemma_pow2_pos(v.shift() as nat);
    let s = v.significand();
    let p = vstd::arithmetic::power2::pow2(v.shift() as nat) as int;
    assert(s * p >= 0) by (nonlinear_arith)
        requires
            s >= 0,
            p > 0,
    ;
}

/// What a tolerance of garbage reads as: the number, if it could be read and is a
/// percentage.
pub open spec fn tolerance(read: Result<Single, String>) -> Result<Single, Seq<char>> {
    match read {
        Err(e) => Err("Invalid tolerance: "@ + e@),
        Ok(v) => if v.between(0, 100) {
            Ok(v)
        } else {
            Err("tolerance must be between 0 and 100"@)
        },
    }
}

/// Checks a tolerance of garbage. `read` is the number that was read, or why none
/// could be.
pub fn tolerance_parser(read: Result<Single, String>) -> (r: Result<Single, String>)
    ensures
        text::agrees(r, tolerance(read)),
{
    match read {
        Err(e) => Err(text::join2("Invalid tolerance: ", e.as_str())),
        Ok(v) => {
            if v.is_percentage() {
                Ok(v)
            } else {
                Err("tolerance must be between 0 and 100".to_owned())
            }
        },
    }
}

/// A size that was accepted for a pack comes to at least one MiB and at most
/// 4095 MiB in bytes.
pub proof fn law_pack_size_in_bytes(read: Result<Single, String>, v: Single)
    requires
        pack_size(read) == Ok::<Single, Seq<char>>(v),
    ensures
        0x10_0000 <= v.bytes() <= 4095 * 0x10_0000,
{
    let one = vstd::arithmetic::power2::pow2(149) as int;
    let p = vstd::arithmetic::power2::pow2(129) as int;
    lemma_pow2_pos(129);
    lemma_pow2_adds(129, 20);
    lemma2_to64();
    let m = v.magnitude();
    lemma_not_negative(v);
    assert(one == p * 0x10_0000);
    assert(m / p >= 0x10_0000) by (nonlinear_arith)
        requires
            m >= p * 0x10_0000,
            p > 0,
    ;
    assert(m / p <= 4095 * 0x10_0000) by (nonlinear_arith)
        requires
            m <= 4095 * (p * 0x10_0000),
            p > 0,
    ;
}

/// A size that was accepted for a cache is counted in bytes exactly: no limit of
/// the counting cuts it off.
pub proof fn law_cache_size_is_not_cut_off(read: Result<Single, String>, v: Single)
    requires
        cache_size(read) == Ok::<Single, Seq<char>>(v),
    ensures
        v.bytes() == v.whole_bytes(),
{
    lemma_not_negative(v);
    lemma_pow2_pos(129);
    if v.signed() {
        assert(v.magnitude() == 0);
        assert(0int / (vstd::arithmetic::power2::pow2(129) as int) == 0) by (nonlinear_arith)
            requires
                vstd::arithmetic::power2::pow2(129) > 0,
        ;
    } else {
        let m = v.magnitude();
        let p = vstd::arithmetic::power2::pow2(129) as int;
        assert(m / p >= 0) by (nonlinear_arith)
            requires
                m >= 0,
                p > 0,
        ;
    }
}

/// How the bits of a number give its value: the smallest numbers count their bits, an
/// exponent more makes twice as much, and the sign bit makes it negative. Above the
/// largest exponent there are only the infinities and what is not a number.
pub proof fn law_bits_give_the_value(v: Single, w: Single)
    ensures
        v.bits < 0x100_0000 ==> v.finite() && v.scaled() == v.bits,
        0x80_0000 <= v.bits < 0x7f00_0000 && w.bits == v.bits + 0x80_0000 ==> w.finite() && w.scaled() == 2
            * v.scaled(),
        v.bits < 0x7f80_0000 && w.bits == v.bits + 0x8000_0000 ==> w.finite() && w.scaled() == -v.scaled(),
        v.bits == 0x7f80_0000 || v.bits == 0xff80_0000 ==> !v.finite() && !v.nan(),
        0x7f80_0000 < v.bits < 0x8000_0000 || v.bits > 0xff80_0000 ==> !v.finite() && v.nan(),
{
    lemma2_to64();
    lemma_significand(v);
    lemma_significand(w);
    if v.bits < 0x100_0000 {
        assert(v.shift() == 0);
        assert(vstd::arithmetic::power2::pow2(0) == 1);
        assert(v.significand() * 1 == v.significand());
    }
    if 0x80_0000 <= v.bits < 0x7f00_0000 && w.bits == v.bits + 0x80_0000 {
        assert(w.exponent() == v.exponent() + 1);
        assert(w.fraction() == v.fraction());
        let k = v.shift() as nat;
        lemma_pow2_adds(k, 1);
        let p = vstd::arithmetic::power2::pow2(k) as int;
        let s = v.significand();
        assert(s * (p * 2) == 2 * (s * p)) by (nonlinear_arith);
    }
    if v.bits < 0x7f80_0000 && w.bits == v.bits + 0x8000_0000 {
        assert(w.exponent() == v.exponent());
        assert(w.fraction() == v.fraction());
    }
}

/// A MiB is 2^20 bytes: so many bytes as are counted go into the size, and one more does
/// not, unless there are more than can be counted. A size below zero, and what is not a
/// number, has none.
pub proof fn law_a_mib_is_two_to_the_twenty_bytes(v: Single)
    ensures
        v.signed() || v.nan() ==> v.bytes() == 0,
        !v.signed() && !v.finite() && !v.nan() ==> v.bytes() == u64::MAX,
        v.finite() && !v.signed() ==> {
            let mib = vstd::arithmetic::power2::pow2(149) as int;
            &&& v.bytes() * mib <= v.scaled() * 0x10_0000
            &&& v.bytes() < u64::MAX ==> v.scaled() * 0x10_0000 < (v.bytes() + 1) * mib
        },
{
    let p = vstd::arithmetic::power2::pow2(129) as int;
    let mib = vstd::arithmetic::power2::pow2(149) as int;
    lemma_pow2_pos(129);
    lemma_pow2_adds(129, 20);
    lemma2_to64();
    lemma_not_negative(v);
    assert(mib == p * 0x10_0000);
    if v.finite() && !v.signed() {
        let m = v.magnitude();
        let n = m / p;
        assert(n * p <= m < (n + 1) * p) by (nonlinear_arith)
            requires
                n == m / p,
                p > 0,
                m >= 0,
        ;
        assert(n >= 0) by (nonlinear_arith)
            requires
                n == m / p,
                p > 0,
                m >= 0,
        ;
        let b = v.bytes() as int;
        assert(b <= n);
        assert(b * (p * 0x10_0000) <= m * 0x10_0000) by (nonlinear_arith)
            requires
                0 <= b <= n,
                n * p <= m,
                p > 0,
        ;
        if b < u64::MAX {
            assert(b == n);
            assert(m * 0x10_0000 < (b + 1) * (p * 0x10_0000)) by (nonlinear_arith)
                requires
                    b == n,
                    m < (n + 1) * p,
            ;
        }
    }
}

/// What was read is accepted as it is or not at all: for a pack from 1 to 4095 MiB, for
/// a cache from nothing to what 64 bits can count in bytes, as a tolerance from 0 to 100.
/// What could not be read is told of with the reason.
pub proof fn law_sizes_are_taken_as_they_are(v: Single, w: Single, e: String)
    ensures
        ({
            let one = vstd::arithmetic::power2::pow2(149) as int;
            &&& pack_size(Ok(v)) == Ok::<Single, Seq<char>>(w) <==> w == v && v.finite() && one <= v.scaled() <= 4095
                * one
            &&& tolerance(Ok(v)) == Ok::<Single, Seq<char>>(w) <==> w == v && v.finite() && 0 <= v.scaled() <= 100 * one
            &&& cache_size(Ok(v)) == Ok::<Single, Seq<char>>(w) <==> w == v && v.finite() && 0 <= v.scaled()
                && v.whole_bytes() <= u64::MAX
        }),
        !v.finite() ==> cache_size(Ok(v)) == Err::<Single, Seq<char>>("cache size must be a finite number"@),
        v.finite() && v.scaled() < 0 ==> cache_size(Ok(v)) == Err::<Single, Seq<char>>(
            "cache size must not be negative"@,
        ),
        pack_size(Err(e)) == Err::<Single, Seq<char>>("Invalid pack size: "@ + e@),
        cache_size(Err(e)) == Err::<Single, Seq<char>>("Invalid cache size: "@ + e@),
        tolerance(Err(e)) == Err::<Single, Seq<char>>("Invalid tolerance: "@ + e@),
{
    let one = vstd::arithmetic::power2::pow2(149) as int;
    assert(1 * one == one);
    assert(0 * one == 0);
}

/// What was read and is refused is told with the bounds.
pub proof fn law_why_a_size_is_refused(v: Single, e: Seq<char>)
    ensures
        pack_size(Ok(v)) == Err::<Single, Seq<char>>(e) ==> e == "Pack size must be between "@ + text::decimal(1)
            + " and "@ + text::decimal(4095) + " MiB"@,
        tolerance(Ok(v)) == Err::<Single, Seq<char>>(e) ==> e == "tolerance must be between 0 and 100"@,
        cache_size(Ok(v)) == Err::<Single, Seq<char>>(e) && v.finite() && v.scaled() >= 0 ==> e
            == "cache size is too large"@,
{
}

} // verus!
