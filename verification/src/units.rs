//! Transfer rates and durations, as they are written on the command line and in
//! the configuration file.

use vstd::prelude::*;
use crate::text;

verus! {

/// Bytes in a KiB.
pub const KIB: u64 = 1024;

/// Bytes in a MiB.
pub const MIB: u64 = 1048576;

/// Bytes in a GiB.
pub const GIB: u64 = 1073741824;

// ---------------------------------------------------------------------------
// Rows of digits
// ---------------------------------------------------------------------------

/// The number of digits that a text begins with.
pub open spec fn digit_run(s: Seq<char>) -> nat
    decreases s.len(),
{
    if s.len() > 0 && text::is_digit(s[0]) {
        1 + digit_run(s.skip(1))
    } else {
        0
    }
}

proof fn lemma_digit_run_bound(s: Seq<char>)
    ensures
        digit_run(s) <= s.len(),
        text::all_digits(s.take(digit_run(s) as int)),
    decreases s.len(),
{
    if s.len() > 0 && text::is_digit(s[0]) {
        lemma_digit_run_bound(s.skip(1));
        let n = digit_run(s) as int;
        assert forall|i: int| 0 <= i < n implies text::is_digit(#[trigger] s.take(n)[i]) by {
            if i > 0 {
                assert(s.take(n)[i] == s.skip(1).take(n - 1)[i - 1]);
            }
        }
    }
}

/// Digits in front of something that is none are the digits a text begins with.
pub proof fn lemma_digit_run_is(ds: Seq<char>, rest: Seq<char>)
    requires
        text::all_digits(ds),
        rest.len() > 0 ==> !text::is_digit(rest[0]),
    ensures
        digit_run(ds + rest) == ds.len(),
    decreases ds.len(),
{
    if ds.len() == 0 {
        assert(ds + rest =~= rest);
    } else {
        assert((ds + rest)[0] == ds[0]);
        assert((ds + rest).skip(1) =~= ds.skip(1) + rest);
        assert forall|i: int| 0 <= i < ds.skip(1).len() implies text::is_digit(#[trigger] ds.skip(1)[i]) by {
            assert(ds.skip(1)[i] == ds[i + 1]);
        }
        lemma_digit_run_is(ds.skip(1), rest);
    }
}

/// Where the digits that begin at a place end.
fn digits_end(cs: &Vec<char>, from: usize, to: usize) -> (r: usize)
    requires
        from <= to <= cs@.len(),
    ensures
        from <= r <= to,
        r - from == digit_run(cs@.subrange(from as int, to as int)),
{
    let mut i: usize = from;
    while i < to && cs[i] >= '0' && cs[i] <= '9'
        invariant
            from <= i <= to <= cs@.len(),
            digit_run(cs@.subrange(from as int, to as int)) == i - from + digit_run(cs@.subrange(i as int, to as int)),
        decreases to - i,
    {
        assert(cs@.subrange(i as int, to as int).skip(1) =~= cs@.subrange(i + 1, to as int));
        i = i + 1;
    }
    i
}

// ---------------------------------------------------------------------------
// Transfer rates
// ---------------------------------------------------------------------------

/// A number with a fraction, and what stands behind it.
pub struct Quantity {
    /// The digits in front of the point and those behind it, in a row.
    pub digits: Seq<char>,
    /// How many of them stand behind the point.
    pub places: nat,
    /// What stands behind the number.
    pub rest: Seq<char>,
}

/// Takes a text apart into the number it begins with and the rest.
pub open spec fn quantity(s: Seq<char>) -> Quantity {
    let a = digit_run(s) as int;
    if a < s.len() && s[a] == '.' {
        let b = digit_run(s.skip(a + 1)) as int;
        Quantity {
            digits: s.take(a) + s.subrange(a + 1, a + 1 + b),
            places: b as nat,
            rest: s.skip(a + 1 + b),
        }
    } else {
        Quantity { digits: s.take(a), places: 0, rest: s.skip(a) }
    }
}

/// The bytes that a unit stands for. The case of its letters does not matter.
pub open spec fn unit_bytes(u: Seq<char>) -> Option<nat> {
    if u.len() == 0 || text::is_word(u, "b"@) {
        Some(1)
    } else if text::is_word(u, "k"@) || text::is_word(u, "kib"@) {
        Some(KIB as nat)
    } else if text::is_word(u, "kb"@) {
        Some(1000)
    } else if text::is_word(u, "m"@) || text::is_word(u, "mib"@) {
        Some(MIB as nat)
    } else if text::is_word(u, "mb"@) {
        Some(1000000)
    } else if text::is_word(u, "g"@) || text::is_word(u, "gib"@) {
        Some(GIB as nat)
    } else if text::is_word(u, "gb"@) {
        Some(1000000000)
    } else {
        None
    }
}

/// A power of ten.
pub open spec fn ten_to(n: nat) -> nat
    decreases n,
{
    if n == 0 {
        1
    } else {
        10 * ten_to((n - 1) as nat)
    }
}

/// A text without `/s` at its end.
pub open spec fn without_per_second(s: Seq<char>) -> Seq<char> {
    if s.len() >= 2 && s[s.len() - 2] == '/' && s[s.len() - 1] == 's' {
        s.take(s.len() - 2)
    } else {
        s
    }
}

/// The bytes per second that a text stands for: a number, a unit and, if one
/// likes, `/s`. What is less than a byte is dropped.
pub open spec fn bytes_per_second(s: Seq<char>) -> Option<nat> {
    let q = quantity(without_per_second(text::trimmed(s)));
    if q.digits.len() == 0 {
        None
    } else {
        match unit_bytes(text::trimmed(q.rest)) {
            Some(unit) => {
                let n = text::value_of(q.digits) * unit / ten_to(q.places);
                if n <= u64::MAX {
                    Some(n)
                } else {
                    None
                }
            },
            None => None,
        }
    }
}

/// What a transfer rate reads as.
pub open spec fn bandwidth(s: Seq<char>) -> Result<u64, Seq<char>> {
    match bytes_per_second(s) {
        Some(n) => Ok(n as u64),
        None => Err("invalid bandwidth: "@ + s),
    }
}

proof fn lemma_ten_to_positive(n: nat)
    ensures
        ten_to(n) > 0,
    decreases n,
{
    if n > 0 {
        lemma_ten_to_positive((n - 1) as nat);
    }
}

fn unit_at(cs: &Vec<char>, from: usize, to: usize) -> (r: Option<u64>)
    requires
        from <= to <= cs@.len(),
    ensures
        match r {
            Some(n) => unit_bytes(cs@.subrange(from as int, to as int)) == Some(n as nat) && 1 <= n <= GIB,
            None => unit_bytes(cs@.subrange(from as int, to as int)) is None,
        },
{
    if from == to || text::word_at(cs, from, to, "b") {
        Some(1)
    } else if text::word_at(cs, from, to, "k") || text::word_at(cs, from, to, "kib") {
        Some(KIB)
    } else if text::word_at(cs, from, to, "kb") {
        Some(1000)
    } else if text::word_at(cs, from, to, "m") || text::word_at(cs, from, to, "mib") {
        Some(MIB)
    } else if text::word_at(cs, from, to, "mb") {
        Some(1000000)
    } else if text::word_at(cs, from, to, "g") || text::word_at(cs, from, to, "gib") {
        Some(GIB)
    } else if text::word_at(cs, from, to, "gb") {
        Some(1000000000)
    } else {
        None
    }
}

/// Takes `cs[from..to]` apart: the digits of the number it begins with, how many
/// of them stand behind the point, and where the rest begins.
fn take_apart(cs: &Vec<char>, from: usize, to: usize) -> (r: (Vec<char>, usize, usize))
    requires
        from <= to <= cs@.len(),
    ensures
        from <= r.2 <= to,
        r.1 <= r.0@.len(),
        r.0@ == quantity(cs@.subrange(from as int, to as int)).digits,
        r.1 == quantity(cs@.subrange(from as int, to as int)).places,
        cs@.subrange(r.2 as int, to as int) == quantity(cs@.subrange(from as int, to as int)).rest,
{
    let ghost u = cs@.subrange(from as int, to as int);
    let a: usize = digits_end(cs, from, to);
    let mut digits: Vec<char> = Vec::new();
    push_range(cs, from, a, &mut digits);
    assert(digits@ =~= u.take(a - from));
    if a < to && cs[a] == '.' {
        let b: usize = digits_end(cs, a + 1, to);
        assert(cs@.subrange(a + 1, to as int) =~= u.skip(a - from + 1));
        push_range(cs, a + 1, b, &mut digits);
        assert(cs@.subrange(a + 1, b as int) =~= u.subrange(a - from + 1, b - from));
        assert(cs@.subrange(b as int, to as int) =~= u.skip(b - from));
        (digits, b - (a + 1), b)
    } else {
        assert(cs@.subrange(a as int, to as int) =~= u.skip(a - from));
        (digits, 0, a)
    }
}

/// Two rows of digits side by side.
proof fn lemma_value_of_two(a: Seq<char>, b: Seq<char>)
    ensures
        text::value_of(a + b) == text::value_of(a) * ten_to(b.len()) + text::value_of(b),
    decreases b.len(),
{
    if b.len() == 0 {
        assert(a + b =~= a);
        assert(text::value_of(a) * 1 == text::value_of(a));
    } else {
        let c = b.drop_last();
        lemma_value_of_two(a, c);
        assert((a + b).drop_last() =~= a + c);
        assert((a + b).last() == b.last());
        let v = text::value_of(a);
        let p = ten_to(c.len());
        assert(10 * (v * p) == v * (10 * p)) by (nonlinear_arith);
    }
}

/// The whole units of a fraction, digit by digit: those of the digits behind the
/// first are a tenth of them each.
proof fn lemma_fraction_step(digits: Seq<char>, unit: nat)
    requires
        digits.len() > 0,
    ensures
        text::value_of(digits) * unit / ten_to(digits.len()) == (text::digit_value(digits[0]) * unit + text::value_of(
            digits.skip(1),
        ) * unit / ten_to((digits.len() - 1) as nat)) / 10,
{
    let rest = digits.skip(1);
    let d = text::digit_value(digits[0]) as int;
    let p = ten_to(rest.len()) as int;
    let f = text::value_of(rest) as int;
    let u = unit as int;
    lemma_ten_to_positive(rest.len());
    assert(digits =~= seq![digits[0]] + rest);
    lemma_value_of_two(seq![digits[0]], rest);
    reveal_with_fuel(text::value_of, 2);
    assert(seq![digits[0]].drop_last() =~= Seq::<char>::empty());
    assert(text::value_of(seq![digits[0]]) == d);
    let a = f * u;
    let j = d * u;
    assert((d * p + f) * u == a + j * p) by (nonlinear_arith)
        requires
            a == f * u,
            j == d * u,
    ;
    vstd::arithmetic::div_mod::lemma_hoist_over_denominator(a, j, p as nat);
    assert((a + j * p) / p == a / p + j);
    assert(a >= 0 && j >= 0) by (nonlinear_arith)
        requires
            a == f * u,
            j == d * u,
            f >= 0,
            u >= 0,
            d >= 0,
    ;
    assert(a + j * p >= 0) by (nonlinear_arith)
        requires
            a >= 0,
            j >= 0,
            p > 0,
    ;
    vstd::arithmetic::div_mod::lemma_div_denominator(a + j * p, p, 10);
    assert(p * 10 == ten_to(digits.len()));
}

/// The whole units that a row of digits behind the point comes to.
fn fraction(digits: &Vec<char>, from: usize, unit: u64) -> (r: u64)
    requires
        from <= digits@.len(),
        text::all_digits(digits@),
        unit <= GIB,
    ensures
        r == text::value_of(digits@.skip(from as int)) * (unit as nat) / ten_to((digits@.len() - from) as nat),
{
    let mut i: usize = digits.len();
    let mut r: u64 = 0;
    proof {
        let none = digits@.skip(digits@.len() as int);
        assert(none =~= Seq::<char>::empty());
        assert(text::value_of(none) == 0);
        assert(0 * (unit as nat) == 0);
        assert(ten_to(0) == 1);
    }
    while i > from
        invariant
            from <= i <= digits@.len(),
            text::all_digits(digits@),
            unit <= GIB,
            r <= GIB,
            r == text::value_of(digits@.skip(i as int)) * (unit as nat) / ten_to((digits@.len() - i) as nat),
        decreases i,
    {
        let d: u64 = digits[i - 1] as u64 - '0' as u64;
        proof {
            let here = digits@.skip(i - 1);
            assert(here.skip(1) =~= digits@.skip(i as int));
            assert(text::is_digit(digits@[i - 1]));
            lemma_fraction_step(here, unit as nat);
            assert(d * unit <= 9 * GIB) by (nonlinear_arith)
                requires
                    d <= 9,
                    unit <= GIB,
            ;
        }
        r = (d * unit + r) / 10;
        i = i - 1;
    }
    r
}

/// A number of units with a fraction, without what is less than one, if it is
/// none too large.
fn scale_up(digits: &Vec<char>, places: usize, unit: u64) -> (r: Option<u64>)
    requires
        text::all_digits(digits@),
        places <= digits@.len(),
        1 <= unit <= GIB,
    ensures
        match r {
            Some(n) => n == text::value_of(digits@) * (unit as nat) / ten_to(places as nat),
            None => text::value_of(digits@) * (unit as nat) / ten_to(places as nat) > u64::MAX,
        },
{
    let split: usize = digits.len() - places;
    let part: u64 = fraction(digits, split, unit);
    let ghost w = text::value_of(digits@.take(split as int)) as int;
    proof {
        let whole = digits@.take(split as int);
        let rest = digits@.skip(split as int);
        let p = ten_to(places as nat) as int;
        let f = text::value_of(rest) as int;
        let u = unit as int;
        assert(digits@ =~= whole + rest);
        lemma_value_of_two(whole, rest);
        lemma_ten_to_positive(places as nat);
        assert((w * p + f) * u == f * u + (w * u) * p) by (nonlinear_arith);
        vstd::arithmetic::div_mod::lemma_hoist_over_denominator(f * u, w * u, p as nat);
        assert(text::value_of(digits@) * (unit as nat) / ten_to(places as nat) == w * u + part);
        assert(w * u >= w) by (nonlinear_arith)
            requires
                u >= 1,
                w >= 0,
        ;
        assert(digits@.subrange(0, split as int) =~= whole);
    }
    let mut n: u128 = 0;
    if split > 0 {
        match text::read_digits(digits, 0, split) {
            text::Digits::Value(v) => {
                n = v;
            },
            _ => {
                return None;
            },
        }
    } else {
        assert(digits@.take(0) =~= Seq::<char>::empty());
    }
    if n > 0xffff_ffff_ffff_ffffu128 {
        return None;
    }
    assert(n * unit <= 0xffff_ffff_ffff_ffff * GIB) by (nonlinear_arith)
        requires
            n <= 0xffff_ffff_ffff_ffff,
            unit <= GIB,
    ;
    let v: u128 = n * (unit as u128) + part as u128;
    if v <= 0xffff_ffff_ffff_ffffu128 {
        Some(v as u64)
    } else {
        None
    }
}

/// The bytes per second that a text stands for, if it stands for any.
fn read_rate(s: &str) -> (r: Option<u64>)
    ensures
        match r {
            Some(n) => bytes_per_second(s@) == Some(n as nat),
            None => bytes_per_second(s@) is None,
        },
{
    let cs = text::chars_of(s);
    assert(cs@.subrange(0, cs@.len() as int) =~= s@);
    let (from, trimmed_end) = text::trim_bounds(&cs, 0, cs.len());
    let mut to: usize = trimmed_end;
    if trimmed_end - from >= 2 && cs[trimmed_end - 2] == '/' && cs[trimmed_end - 1] == 's' {
        to = trimmed_end - 2;
    }
    let ghost u = without_per_second(text::trimmed(s@));
    assert(cs@.subrange(from as int, to as int) =~= u);
    let (digits, places, rest) = take_apart(&cs, from, to);
    proof {
        lemma_quantity_digits(u);
    }
    if digits.len() == 0 {
        return None;
    }
    let (ua, ub) = text::trim_bounds(&cs, rest, to);
    match unit_at(&cs, ua, ub) {
        Some(unit) => scale_up(&digits, places, unit),
        None => None,
    }
}

proof fn lemma_quantity_digits(s: Seq<char>)
    ensures
        text::all_digits(quantity(s).digits),
{
    lemma_digit_run_bound(s);
    let a = digit_run(s) as int;
    if a < s.len() && s[a] == '.' {
        let r = s.skip(a + 1);
        lemma_digit_run_bound(r);
        let b = digit_run(r) as int;
        assert(s.subrange(a + 1, a + 1 + b) =~= r.take(b));
        let d = quantity(s).digits;
        assert forall|i: int| 0 <= i < d.len() implies text::is_digit(#[trigger] d[i]) by {
            if i < a {
                assert(d[i] == s.take(a)[i]);
            } else {
                assert(d[i] == r.take(b)[i - a]);
            }
        }
    }
}

fn push_range(cs: &Vec<char>, from: usize, to: usize, out: &mut Vec<char>)
    requires
        from <= to <= cs@.len(),
    ensures
        final(out)@ == old(out)@ + cs@.subrange(from as int, to as int),
{
    let mut i: usize = from;
    while i < to
        invariant
            from <= i <= to <= cs@.len(),
            out@ == old(out)@ + cs@.subrange(from as int, i as int),
        decreases to - i,
    {
        out.push(cs[i]);
        i = i + 1;
        assert(cs@.subrange(from as int, i as int) =~= cs@.subrange(from as int, i - 1).push(cs@[i - 1]));
        assert(out@ =~= old(out)@ + cs@.subrange(from as int, i as int));
    }
    assert(out@ =~= old(out)@ + cs@.subrange(from as int, to as int));
}

/// Reads a transfer rate such as `500KB/s`, in bytes per second.
pub fn parse_bandwidth(s: &str) -> (r: Result<u64, String>)
    ensures
        text::agrees(r, bandwidth(s@)),
{
    match read_rate(s) {
        Some(n) => Ok(n),
        None => Err(text::join2("invalid bandwidth: ", s)),
    }
}

/// Reads a transfer rate of the configuration file, if there is one.
pub fn deserialize_bandwidth_opt(opt: Option<String>) -> (r: Result<Option<u64>, String>)
    ensures
        text::agrees(r, text::optional(opt, |s: Seq<char>| bandwidth(s))),
{
    match opt {
        None => Ok(None),
        Some(s) => match parse_bandwidth(s.as_str()) {
            Ok(n) => Ok(Some(n)),
            Err(e) => Err(e),
        },
    }
}

/// The unit in which a rate is written.
pub open spec fn written_unit(b: nat) -> nat {
    if b >= GIB {
        GIB as nat
    } else if b >= MIB {
        MIB as nat
    } else if b >= KIB {
        KIB as nat
    } else {
        1
    }
}

/// The text that stands for a rate: whole multiples of the largest unit that
/// goes into it.
pub open spec fn bandwidth_text(b: nat) -> Seq<char> {
    text::decimal(b / written_unit(b)) + (if b >= GIB {
        " GiB/s"@
    } else if b >= MIB {
        " MiB/s"@
    } else if b >= KIB {
        " KiB/s"@
    } else {
        " B/s"@
    })
}

/// The text of a transfer rate in the configuration file, if there is a rate.
pub fn serialize_bandwidth_opt(val: Option<u64>) -> (r: Option<String>)
    ensures
        match (val, r) {
            (Some(b), Some(t)) => t@ == bandwidth_text(b as nat),
            (None, None) => true,
            _ => false,
        },
{
    match val {
        Some(b) => {
            if b >= GIB {
                Some(text::join2(text::number_text(b / GIB).as_str(), " GiB/s"))
            } else if b >= MIB {
                Some(text::join2(text::number_text(b / MIB).as_str(), " MiB/s"))
            } else if b >= KIB {
                Some(text::join2(text::number_text(b / KIB).as_str(), " KiB/s"))
            } else {
                Some(text::join2(text::number_text(b).as_str(), " B/s"))
            }
        },
        None => None,
    }
}

proof fn lemma_unit_words()
    ensures
        unit_bytes("GiB"@) == Some(GIB as nat),
        unit_bytes("MiB"@) == Some(MIB as nat),
        unit_bytes("KiB"@) == Some(KIB as nat),
        unit_bytes("B"@) == Some(1nat),
{
    reveal_strlit("GiB");
    reveal_strlit("MiB");
    reveal_strlit("KiB");
    reveal_strlit("B");
    reveal_strlit("b");
    reveal_strlit("k");
    reveal_strlit("kib");
    reveal_strlit("kb");
    reveal_strlit("m");
    reveal_strlit("mib");
    reveal_strlit("mb");
    reveal_strlit("g");
    reveal_strlit("gib");
    reveal_strlit("gb");
    assert(text::small('G') == 'g' && text::small('M') == 'm' && text::small('K') == 'k' && text::small('B') == 'b');
    assert(text::small('i') == 'i');
    assert(text::small("GiB"@[0]) != "kib"@[0] && text::small("GiB"@[0]) != "mib"@[0]);
    assert(text::small("MiB"@[0]) != "kib"@[0]);
    assert(text::is_word("GiB"@, "gib"@));
    assert(text::is_word("MiB"@, "mib"@));
    assert(text::is_word("KiB"@, "kib"@));
    assert(text::is_word("B"@, "b"@));
}

/// A rate written with a blank, a unit and `/s` reads as that many units.
proof fn lemma_written_rate(k: nat, unit: Seq<char>, tail: Seq<char>, bytes: nat)
    requires
        unit.len() > 0,
        !text::is_white(unit[0]),
        !text::is_white(unit.last()),
        unit_bytes(unit) == Some(bytes),
        tail == seq![' '] + unit + seq!['/', 's'],
        k * bytes <= u64::MAX,
    ensures
        bytes_per_second(text::decimal(k) + tail) == Some(k * bytes),
{
    let d = text::decimal(k);
    let t = d + tail;
    text::law_decimal_reads_back(k);
    assert(text::is_digit(d[0]));
    assert(t[0] == d[0]);
    assert(t.last() == 's');
    assert(!text::is_white(t[0]) && !text::is_white(t.last()));
    text::lemma_trimmed_is_kept(t);
    let rest = seq![' '] + unit;
    let u = without_per_second(t);
    assert(t[t.len() - 2] == '/');
    assert(u =~= d + rest);
    assert(rest[0] == ' ');
    lemma_digit_run_is(d, rest);
    assert(u[d.len() as int] == ' ');
    let q = quantity(u);
    assert(q.digits =~= d);
    assert(q.rest =~= rest);
    assert(rest.skip(1) =~= unit);
    assert(text::trim_front(rest) == text::trim_front(unit));
    assert(text::trimmed(rest) == unit);
    assert(q.places == 0);
    assert(ten_to(q.places) == 1);
    assert(text::value_of(q.digits) == k);
    assert(k * bytes / 1 == k * bytes);
    assert(text::value_of(q.digits) * bytes / ten_to(q.places) == k * bytes);
}

/// A rate that was written to the configuration file reads back as the whole
/// units of it: as the rate itself, where it is a whole number of them.
pub proof fn law_bandwidth_reads_back(b: u64)
    ensures
        bandwidth(bandwidth_text(b as nat)) == Ok::<u64, Seq<char>>(
            ((b as nat / written_unit(b as nat)) * written_unit(b as nat)) as u64,
        ),
        b as nat % written_unit(b as nat) == 0 ==> bandwidth(bandwidth_text(b as nat)) == Ok::<u64, Seq<char>>(b),
{
    let n = b as nat;
    let unit = written_unit(n);
    lemma_unit_words();
    reveal_strlit(" GiB/s");
    reveal_strlit(" MiB/s");
    reveal_strlit(" KiB/s");
    reveal_strlit(" B/s");
    reveal_strlit("GiB");
    reveal_strlit("MiB");
    reveal_strlit("KiB");
    reveal_strlit("B");
    vstd::arithmetic::div_mod::lemma_fundamental_div_mod(n as int, unit as int);
    assert((n / unit) * unit == unit * (n / unit)) by (nonlinear_arith);
    assert((n / unit) * unit <= n);
    assert(n / unit <= n) by (nonlinear_arith)
        requires
            unit >= 1,
            n >= 0,
    ;
    if n >= GIB {
        assert(" GiB/s"@ =~= seq![' '] + "GiB"@ + seq!['/', 's']);
        lemma_written_rate(n / unit, "GiB"@, " GiB/s"@, unit);
    } else if n >= MIB {
        assert(" MiB/s"@ =~= seq![' '] + "MiB"@ + seq!['/', 's']);
        lemma_written_rate(n / unit, "MiB"@, " MiB/s"@, unit);
    } else if n >= KIB {
        assert(" KiB/s"@ =~= seq![' '] + "KiB"@ + seq!['/', 's']);
        lemma_written_rate(n / unit, "KiB"@, " KiB/s"@, unit);
    } else {
        assert(" B/s"@ =~= seq![' '] + "B"@ + seq!['/', 's']);
        lemma_written_rate(n / unit, "B"@, " B/s"@, unit);
    }
}

// ---------------------------------------------------------------------------
// Durations
// ---------------------------------------------------------------------------

/// A length of time, in whole milliseconds.
#[derive(Debug, Copy, Clone, PartialEq, Eq, Structural)]
pub struct Duration {
    /// The milliseconds.
    pub millis: i64,
}

/// The most seconds that a length of time may have.
pub open spec fn max_seconds() -> int {
    i64::MAX as int / 1000
}

/// The milliseconds of `chrono::TimeDelta::try_seconds`: a thousand for each
/// second, and nothing where the seconds are more than `i64::MAX / 1000` in
/// either direction.
#[verifier::external_body]
fn delta_of_seconds(seconds: i64) -> (r: Option<i64>)
    ensures
        match r {
            Some(ms) => -max_seconds() <= seconds <= max_seconds() && ms == seconds * 1000,
            None => !(-max_seconds() <= seconds <= max_seconds()),
        },
{
    chrono::TimeDelta::try_seconds(seconds).map(|d| d.num_milliseconds())
}

/// The milliseconds of `chrono::TimeDelta::minutes`: sixty thousand for each
/// minute. It panics beyond the bounds that are asked for here.
#[verifier::external_body]
fn delta_of_minutes(minutes: i64) -> (r: i64)
    requires
        -max_seconds() <= minutes * 60 <= max_seconds(),
    ensures
        r == minutes * 60000,
{
    chrono::TimeDelta::minutes(minutes).num_milliseconds()
}

impl Duration {
    /// A number of minutes.
    pub fn minutes(n: i64) -> (r: Duration)
        requires
            -max_seconds() <= n * 60 <= max_seconds(),
        ensures
            r.millis == n * 60000,
    {
        Duration { millis: delta_of_minutes(n) }
    }

    /// Whether this is no time at all.
    pub fn is_zero(&self) -> (r: bool)
        ensures
            r == (self.millis == 0),
    {
        self.millis == 0
    }

    /// The whole seconds, whatever the sign.
    pub open spec fn whole_seconds(self) -> nat {
        (if self.millis < 0 {
            (-(self.millis as int)) / 1000
        } else {
            self.millis as int / 1000
        }) as nat
    }
}

/// The seconds that the letter of a unit stands for.
pub open spec fn unit_seconds(c: char) -> Option<nat> {
    if c == 's' {
        Some(1)
    } else if c == 'm' {
        Some(60)
    } else if c == 'h' {
        Some(3600)
    } else if c == 'd' {
        Some(86400)
    } else if c == 'w' {
        Some(604800)
    } else if c == 'y' {
        Some(31536000)
    } else {
        None
    }
}

/// The seconds that a row of numbers with units comes to.
pub open spec fn terms_seconds(s: Seq<char>) -> Option<nat>
    decreases s.len(),
{
    let a = digit_run(s) as int;
    if a == 0 || a >= s.len() {
        None
    } else {
        match unit_seconds(s[a]) {
            None => None,
            Some(u) => {
                let here = text::value_of(s.take(a)) * u;
                let rest = s.skip(a + 1);
                if rest.len() == 0 {
                    Some(here)
                } else {
                    match terms_seconds(rest) {
                        None => None,
                        Some(more) => Some(here + more),
                    }
                }
            },
        }
    }
}

/// What a duration such as `5m30s` reads as.
pub open spec fn duration(s: Seq<char>) -> Result<Duration, Seq<char>> {
    match terms_seconds(text::trimmed(s)) {
        Some(n) => if n <= max_seconds() {
            Ok(Duration { millis: (n * 1000) as i64 })
        } else {
            Err("invalid duration: "@ + s)
        },
        None => Err("invalid duration: "@ + s),
    }
}

fn seconds_of_unit(c: char) -> (r: Option<u64>)
    ensures
        match r {
            Some(n) => unit_seconds(c) == Some(n as nat) && 0 < n <= 31536000,
            None => unit_seconds(c) is None,
        },
{
    if c == 's' {
        Some(1)
    } else if c == 'm' {
        Some(60)
    } else if c == 'h' {
        Some(3600)
    } else if c == 'd' {
        Some(86400)
    } else if c == 'w' {
        Some(604800)
    } else if c == 'y' {
        Some(31536000)
    } else {
        None
    }
}

/// The seconds that `cs[from..to]` comes to, if they are none too many.
fn read_terms(cs: &Vec<char>, from: usize, to: usize) -> (r: Option<i64>)
    requires
        from <= to <= cs@.len(),
    ensures
        match r {
            Some(n) => terms_seconds(cs@.subrange(from as int, to as int)) == Some(n as nat) && 0 <= n <= max_seconds(),
            None => terms_seconds(cs@.subrange(from as int, to as int)) matches Some(n) ==> n > max_seconds(),
        },
{
    let ghost whole = cs@.subrange(from as int, to as int);
    let mut i: usize = from;
    let mut total: i64 = 0;
    loop
        invariant
            from <= i <= to <= cs@.len(),
            whole == cs@.subrange(from as int, to as int),
            0 <= total <= max_seconds(),
            terms_seconds(whole) == (match terms_seconds(cs@.subrange(i as int, to as int)) {
                Some(more) => Some((total + more) as nat),
                None => None,
            }),
        decreases to - i,
    {
        let ghost part = cs@.subrange(i as int, to as int);
        let a: usize = digits_end(cs, i, to);
        if a == i || a >= to {
            return None;
        }
        let unit: u64 = match seconds_of_unit(cs[a]) {
            Some(u) => u,
            None => {
                assert(part[a - i] == cs@[a as int]);
                return None;
            },
        };
        proof {
            assert(part[a - i] == cs@[a as int]);
            assert(cs@.subrange(i as int, a as int) =~= part.take(a - i));
            assert(cs@.subrange(a + 1, to as int) =~= part.skip(a - i + 1));
            lemma_digit_run_bound(part);
        }
        let ghost n = text::value_of(part.take(a - i));
        let ghost here = n * (unit as nat);
        assert(here >= n) by (nonlinear_arith)
            requires
                here == n * (unit as nat),
                unit >= 1,
        ;
        match text::read_digits(cs, i, a) {
            text::Digits::Value(v) => {
                if v > 9223372036854775u128 {
                    return None;
                }
                assert(v * unit <= 9223372036854775 * 31536000) by (nonlinear_arith)
                    requires
                        v <= 9223372036854775,
                        unit <= 31536000,
                ;
                let add: u128 = v * (unit as u128);
                if add > 9223372036854775u128 - (total as u128) {
                    return None;
                }
                total = total + (add as i64);
            },
            _ => {
                return None;
            },
        }
        if a + 1 == to {
            return Some(total);
        }
        i = a + 1;
    }
}

/// Reads a duration such as `5m`, `30s` or `5m30s`.
pub fn parse_duration_string(s: &str) -> (r: Result<Duration, String>)
    ensures
        text::agrees(r, duration(s@)),
{
    let cs = text::chars_of(s);
    assert(cs@.subrange(0, cs@.len() as int) =~= s@);
    let (from, to) = text::trim_bounds(&cs, 0, cs.len());
    match read_terms(&cs, from, to) {
        Some(n) => match delta_of_seconds(n) {
            Some(millis) => Ok(Duration { millis }),
            None => Err(text::join2("invalid duration: ", s)),
        },
        None => Err(text::join2("invalid duration: ", s)),
    }
}

/// Reads a duration of the configuration file, if there is one.
pub fn deserialize_duration_opt(opt: Option<String>) -> (r: Result<Option<Duration>, String>)
    ensures
        text::agrees(r, text::optional(opt, |s: Seq<char>| duration(s))),
{
    match opt {
        None => Ok(None),
        Some(s) => match parse_duration_string(s.as_str()) {
            Ok(d) => Ok(Some(d)),
            Err(e) => Err(e),
        },
    }
}

/// A number with the letter of its unit, or nothing where the number is zero.
pub open spec fn term(n: nat, unit: char) -> Seq<char> {
    if n == 0 {
        Seq::<char>::empty()
    } else {
        text::decimal(n).push(unit)
    }
}

/// The text that stands for a number of seconds: days, hours, minutes and
/// seconds, those of which there are none left out.
pub open spec fn seconds_text(n: nat) -> Seq<char> {
    if n == 0 {
        "0s"@
    } else {
        term(n / 86400, 'd') + (term(n / 3600 % 24, 'h') + (term(n / 60 % 60, 'm') + term(n % 60, 's')))
    }
}

fn push_term(out: &mut String, n: u64, unit: char, unit_text: &str)
    requires
        unit_text@ == seq![unit],
    ensures
        final(out)@ == old(out)@ + term(n as nat, unit),
{
    if n > 0 {
        out.append(text::number_text(n).as_str());
        out.append(unit_text);
        assert(out@ =~= old(out)@ + term(n as nat, unit));
    } else {
        assert(out@ =~= old(out)@ + term(n as nat, unit));
    }
}

/// The text of a duration in the configuration file, if there is a duration. The
/// sign and what is less than a second are dropped.
pub fn serialize_duration_opt(val: Option<Duration>) -> (r: Option<String>)
    ensures
        match (val, r) {
            (Some(d), Some(t)) => t@ == seconds_text(d.whole_seconds()),
            (None, None) => true,
            _ => false,
        },
{
    match val {
        Some(d) => {
            let magnitude: u64 = if d.millis < 0 {
                (-(d.millis as i128)) as u64
            } else {
                d.millis as u64
            };
            let n: u64 = magnitude / 1000;
            assert(n as nat == d.whole_seconds());
            if n == 0 {
                return Some("0s".to_owned());
            }
            proof {
                reveal_strlit("d");
                reveal_strlit("h");
                reveal_strlit("m");
                reveal_strlit("s");
                assert("d"@ =~= seq!['d']);
                assert("h"@ =~= seq!['h']);
                assert("m"@ =~= seq!['m']);
                assert("s"@ =~= seq!['s']);
            }
            let mut out = String::new();
            push_term(&mut out, n / 86400, 'd', "d");
            push_term(&mut out, n / 3600 % 24, 'h', "h");
            push_term(&mut out, n / 60 % 60, 'm', "m");
            push_term(&mut out, n % 60, 's', "s");
            assert(out@ =~= seconds_text(n as nat));
            Some(out)
        },
        None => None,
    }
}

/// A term in front of others adds its seconds to theirs.
proof fn lemma_term_first(n: nat, unit: char, per: nat, rest: Seq<char>, more: nat)
    requires
        unit_seconds(unit) == Some(per),
        rest.len() == 0 ==> more == 0 && n > 0,
        rest.len() > 0 ==> terms_seconds(rest) == Some(more),
    ensures
        (term(n, unit) + rest).len() > 0,
        terms_seconds(term(n, unit) + rest) == Some(n * per + more),
{
    let d = text::decimal(n);
    if n == 0 {
        assert(term(n, unit) + rest =~= rest);
        assert(n * per == 0) by (nonlinear_arith)
            requires
                n == 0,
        ;
    } else {
        text::law_decimal_reads_back(n);
        let tail = seq![unit] + rest;
        let s = term(n, unit) + rest;
        assert(s =~= d + tail);
        assert(tail[0] == unit && !text::is_digit(unit));
        lemma_digit_run_is(d, tail);
        assert(s[d.len() as int] == unit);
        assert(s.take(d.len() as int) =~= d);
        assert(s.skip(d.len() as int + 1) =~= rest);
    }
}

proof fn lemma_days_to_seconds(n: nat)
    ensures
        n == (n / 86400) * 86400 + (n / 3600 % 24) * 3600 + (n / 60 % 60) * 60 + n % 60,
{
    let m = n / 60;
    let h = m / 60;
    assert(n / 3600 == h);
    assert(n / 86400 == h / 24);
}

/// The text of a number of seconds comes to that number.
proof fn lemma_seconds_text(n: nat)
    requires
        n > 0,
    ensures
        terms_seconds(seconds_text(n)) == Some(n),
{
    let (dd, hh, mm, ss) = (n / 86400, n / 3600 % 24, n / 60 % 60, n % 60);
    lemma_days_to_seconds(n);
    let t4 = term(ss, 's');
    let t3 = term(mm, 'm') + t4;
    let t2 = term(hh, 'h') + t3;
    let empty = Seq::<char>::empty();
    if ss > 0 {
        lemma_term_first(ss, 's', 1, empty, 0);
        assert(t4 + empty =~= t4);
    }
    if mm > 0 || ss > 0 {
        lemma_term_first(mm, 'm', 60, t4, ss);
    } else {
        assert(t3 =~= empty);
    }
    if hh > 0 || mm > 0 || ss > 0 {
        lemma_term_first(hh, 'h', 3600, t3, mm * 60 + ss);
    } else {
        assert(t2 =~= empty);
    }
    lemma_term_first(dd, 'd', 86400, t2, hh * 3600 + mm * 60 + ss);
}

/// A duration of whole seconds that was written to the configuration file reads
/// back as the same duration.
pub proof fn law_duration_reads_back(d: Duration)
    requires
        d.millis >= 0,
        d.millis % 1000 == 0,
    ensures
        duration(seconds_text(d.whole_seconds())) == Ok::<Duration, Seq<char>>(d),
{
    let n = d.whole_seconds();
    let s = seconds_text(n);
    if n == 0 {
        reveal_strlit("0s");
        text::law_decimal_reads_back(0);
        let zero = text::decimal(0);
        assert(zero =~= seq!['0']);
        assert(s =~= zero + seq!['s']);
        lemma_digit_run_is(zero, seq!['s']);
        assert(s.take(1) =~= zero);
        assert(s.skip(2).len() == 0);
        assert(terms_seconds(s) == Some(0nat));
    } else {
        lemma_seconds_text(n);
    }
    lemma_terms_are_trimmed(s);
    text::lemma_trimmed_is_kept(s);
}

/// A row of terms begins with a digit and ends with a unit.
proof fn lemma_terms_are_trimmed(s: Seq<char>)
    requires
        terms_seconds(s) is Some,
    ensures
        s.len() > 0,
        !text::is_white(s[0]),
        !text::is_white(s.last()),
    decreases s.len(),
{
    let a = digit_run(s) as int;
    let rest = s.skip(a + 1);
    if rest.len() == 0 {
        assert(s.last() == s[a]);
    } else {
        lemma_terms_are_trimmed(rest);
        assert(rest.last() == s.last());
    }
}

// ---------------------------------------------------------------------------
// Moments
// ---------------------------------------------------------------------------

/// How a moment is written: the date, the time of day and the offset.
pub const TIME_PATTERN: &'static str = "%Y-%m-%d %H:%M:%S %:z";

/// The first second of the calendar, counted from the epoch.
pub const FIRST_SECOND: i64 = -8334601228800;

/// The last second of the calendar, counted from the epoch.
pub const LAST_SECOND: i64 = 8210266876799;

/// Whether a moment is in the calendar: between January 1 of the year -262143 and
/// December 31 of the year 262142, at an offset of less than a day.
pub open spec fn in_calendar(seconds: int, offset: int) -> bool {
    FIRST_SECOND <= seconds <= LAST_SECOND && -86400 < offset < 86400
}

/// What `chrono::DateTime::format` writes for a moment, given in seconds since the
/// epoch, at an offset in seconds to the east.
pub uninterp spec fn time_written(seconds: int, offset: int, pattern: Seq<char>) -> Seq<char>;

/// The text of `chrono::DateTime::format` for the moment that
/// `chrono::TimeZone::timestamp_opt` gives at the offset of
/// `chrono::FixedOffset::east_opt`; nothing where one of these has none. Nothing is
/// said of the text but that it is the same for the same moment and pattern. With a
/// pattern that is not one, writing panics.
#[verifier::external_body]
fn time_text(seconds: i64, offset: i32, pattern: &str) -> (r: Option<String>)
    requires
        pattern@ == TIME_PATTERN@,
    ensures
        match r {
            Some(s) => in_calendar(seconds as int, offset as int) && s@ == time_written(
                seconds as int,
                offset as int,
                pattern@,
            ),
            None => !in_calendar(seconds as int, offset as int),
        },
{
    let zone = chrono::FixedOffset::east_opt(offset)?;
    let time = chrono::TimeZone::timestamp_opt(&zone, seconds, 0).single()?;
    Some(time.format(pattern).to_string())
}

/// The text that stands for a moment.
pub fn moment_text(seconds: i64, offset: i32) -> (r: Option<String>)
    ensures
        match r {
            Some(s) => in_calendar(seconds as int, offset as int) && s@ == time_written(
                seconds as int,
                offset as int,
                TIME_PATTERN@,
            ),
            None => !in_calendar(seconds as int, offset as int),
        },
{
    time_text(seconds, offset, TIME_PATTERN)
}

// ---------------------------------------------------------------------------
// Laws
// ---------------------------------------------------------------------------

/// What a unit of a rate stands for, in letters of either case: bytes where there is
/// none, powers of 1024 for `k`, `m` and `g` with or without `ib`, powers of 1000 with
/// `b`; and nothing else is a unit.
pub proof fn law_units_of_a_rate(u: Seq<char>)
    ensures
        unit_bytes(u) == Some(1nat) <==> u.len() == 0 || text::is_word(u, "b"@),
        unit_bytes(u) == Some(1024nat) <==> text::is_word(u, "k"@) || text::is_word(u, "kib"@),
        unit_bytes(u) == Some(1000nat) <==> text::is_word(u, "kb"@),
        unit_bytes(u) == Some((1024 * 1024) as nat) <==> text::is_word(u, "m"@) || text::is_word(u, "mib"@),
        unit_bytes(u) == Some((1000 * 1000) as nat) <==> text::is_word(u, "mb"@),
        unit_bytes(u) == Some((1024 * 1024 * 1024) as nat) <==> text::is_word(u, "g"@) || text::is_word(u, "gib"@),
        unit_bytes(u) == Some((1000 * 1000 * 1000) as nat) <==> text::is_word(u, "gb"@),
        unit_bytes(u) matches Some(n) ==> n == 1 || n == 1024 || n == 1000 || n == 1024 * 1024 || n == 1000 * 1000 || n
            == 1024 * 1024 * 1024 || n == 1000 * 1000 * 1000,
{
    reveal_strlit("b");
    reveal_strlit("k");
    reveal_strlit("kib");
    reveal_strlit("kb");
    reveal_strlit("m");
    reveal_strlit("mib");
    reveal_strlit("mb");
    reveal_strlit("g");
    reveal_strlit("gib");
    reveal_strlit("gb");
    if u.len() > 0 {
        let c = text::small(u[0]);
        assert(text::is_word(u, "b"@) ==> c == 'b');
        assert(text::is_word(u, "k"@) || text::is_word(u, "kib"@) || text::is_word(u, "kb"@) ==> c == 'k');
        assert(text::is_word(u, "m"@) || text::is_word(u, "mib"@) || text::is_word(u, "mb"@) ==> c == 'm');
        assert(text::is_word(u, "g"@) || text::is_word(u, "gib"@) || text::is_word(u, "gb"@) ==> c == 'g');
    }
}

/// The letters at the ends of a unit.
proof fn lemma_unit_ends(u: Seq<char>)
    requires
        u.len() > 0,
        unit_bytes(u) is Some,
    ensures
        !text::is_digit(u[0]) && !text::is_white(u[0]) && u[0] != '.',
        !text::is_white(u.last()) && u.last() != 's',
{
    reveal_strlit("b");
    reveal_strlit("k");
    reveal_strlit("kib");
    reveal_strlit("kb");
    reveal_strlit("m");
    reveal_strlit("mib");
    reveal_strlit("mb");
    reveal_strlit("g");
    reveal_strlit("gib");
    reveal_strlit("gb");
    let n = u.len() - 1;
    let c = text::small(u[0]);
    let d = text::small(u[n]);
    assert(c == 'b' || c == 'k' || c == 'm' || c == 'g');
    assert(d == 'b' || d == 'k' || d == 'm' || d == 'g');
    lemma_letter(u[0]);
    lemma_letter(u[n]);
}

proof fn lemma_letter(c: char)
    requires
        text::small(c) == 'b' || text::small(c) == 'k' || text::small(c) == 'm' || text::small(c) == 'g',
    ensures
        !text::is_digit(c) && !text::is_white(c) && c != '.' && c != 's',
{
}

/// The number that digits in front of something else come to.
proof fn lemma_quantity_is(whole: Seq<char>, point: Seq<char>, frac: Seq<char>, rest: Seq<char>)
    requires
        text::all_digits(whole),
        text::all_digits(frac),
        point == seq!['.'] || point.len() == 0 && frac.len() == 0,
        rest.len() > 0 ==> !text::is_digit(rest[0]),
        point.len() == 0 && rest.len() > 0 ==> rest[0] != '.',
    ensures
        quantity(whole + point + frac + rest).digits == whole + frac,
        quantity(whole + point + frac + rest).places == frac.len(),
        quantity(whole + point + frac + rest).rest == rest,
{
    let s = whole + point + frac + rest;
    let a = whole.len() as int;
    let tail = point + frac + rest;
    assert(s =~= whole + tail);
    assert(point.len() > 0 ==> tail[0] == '.');
    assert(point.len() == 0 ==> tail =~= rest);
    lemma_digit_run_is(whole, tail);
    if point.len() > 0 {
        assert(s[a] == '.');
        let r = s.skip(a + 1);
        assert(r =~= frac + rest);
        lemma_digit_run_is(frac, rest);
        let b = frac.len() as int;
        assert(s.take(a) =~= whole);
        assert(s.subrange(a + 1, a + 1 + b) =~= frac);
        assert(s.skip(a + 1 + b) =~= rest);
    } else {
        assert(s.take(a) =~= whole);
        assert(s.skip(a) =~= rest);
        assert(whole + frac =~= whole);
        assert(a < s.len() ==> s[a] == rest[0]);
    }
}

/// A rate is its number times its unit: the digits in front of the point and those
/// behind it, white space or none, the unit or none, `/s` or not. What is less than a
/// byte is dropped, and what does not fit is refused.
pub proof fn law_a_rate_is_a_number_of_units(
    whole: Seq<char>,
    frac: Seq<char>,
    gap: Seq<char>,
    unit: Seq<char>,
    bytes: nat,
)
    requires
        text::all_digits(whole),
        text::all_digits(frac),
        whole.len() + frac.len() > 0,
        forall|i: int| 0 <= i < gap.len() ==> text::is_white(#[trigger] gap[i]),
        unit_bytes(unit) == Some(bytes),
        unit.len() == 0 ==> gap.len() == 0,
    ensures
        ({
            let n = text::value_of(whole) * bytes;
            let m = text::value_of(whole + frac) * bytes / ten_to(frac.len());
            let plain = whole + gap + unit;
            let pointed = whole + seq!['.'] + frac + gap + unit;
            &&& whole.len() > 0 && n <= u64::MAX ==> bytes_per_second(plain) == Some(n) && bytes_per_second(
                plain + seq!['/', 's'],
            ) == Some(n)
            &&& whole.len() > 0 && n > u64::MAX ==> bytes_per_second(plain) is None && bytes_per_second(
                plain + seq!['/', 's'],
            ) is None
            &&& m <= u64::MAX ==> bytes_per_second(pointed) == Some(m) && bytes_per_second(pointed + seq!['/', 's'])
                == Some(m)
            &&& m > u64::MAX ==> bytes_per_second(pointed) is None && bytes_per_second(pointed + seq!['/', 's']) is None
        }),
{
    let empty = Seq::<char>::empty();
    let plain = whole + gap + unit;
    if whole.len() > 0 {
        lemma_number_and_unit(whole, empty, empty, gap, unit, bytes);
        assert(whole + empty + empty + gap + unit =~= plain);
        assert(whole + empty =~= whole);
        let n = text::value_of(whole) * bytes;
        assert(n / 1 == n);
        assert(ten_to(0) == 1);
    }
    lemma_number_and_unit(whole, seq!['.'], frac, gap, unit, bytes);
}

proof fn lemma_number_and_unit(
    whole: Seq<char>,
    point: Seq<char>,
    frac: Seq<char>,
    gap: Seq<char>,
    unit: Seq<char>,
    bytes: nat,
)
    requires
        whole.len() + frac.len() > 0,
        text::all_digits(whole),
        text::all_digits(frac),
        point == seq!['.'] || point.len() == 0 && frac.len() == 0,
        forall|i: int| 0 <= i < gap.len() ==> text::is_white(#[trigger] gap[i]),
        unit_bytes(unit) == Some(bytes),
        unit.len() == 0 ==> gap.len() == 0,
    ensures
        ({
            let m = text::value_of(whole + frac) * bytes / ten_to(frac.len());
            let s = whole + point + frac + gap + unit;
            let r = if m <= u64::MAX {
                Some(m)
            } else {
                None
            };
            bytes_per_second(s) == r && bytes_per_second(s + seq!['/', 's']) == r
        }),
{
    let empty = Seq::<char>::empty();
    let number = whole + point + frac;
    let s = number + gap + unit;
    let t = s + seq!['/', 's'];
    let rest = gap + unit;
    if unit.len() > 0 {
        lemma_unit_ends(unit);
        assert(s.last() == unit.last());
    } else {
        assert(s =~= number);
        assert(unit =~= empty && gap =~= empty);
    }
    lemma_ends_of_a_number(whole, point, frac);
    assert(s[0] == number[0] && t[0] == number[0]);
    assert(t.last() == 's' && t[t.len() - 2] == '/');
    text::lemma_trimmed_is_kept(s);
    text::lemma_trimmed_is_kept(t);
    assert(without_per_second(s) == s);
    assert(t.take(t.len() - 2) =~= s);
    assert(without_per_second(t) == s);
    if gap.len() > 0 {
        assert(text::is_white(gap[0]) && rest[0] == gap[0]);
    } else if unit.len() > 0 {
        assert(rest[0] == unit[0]);
    }
    lemma_quantity_is(whole, point, frac, rest);
    assert(whole + point + frac + rest =~= s);
    text::law_trimming_takes_white_space_off(gap, unit, empty);
    assert(gap + unit + empty =~= rest);
}

proof fn lemma_ends_of_a_number(whole: Seq<char>, point: Seq<char>, frac: Seq<char>)
    requires
        whole.len() + frac.len() > 0,
        text::all_digits(whole),
        text::all_digits(frac),
        point == seq!['.'] || point.len() == 0 && frac.len() == 0,
    ensures
        ({
            let number = whole + point + frac;
            &&& number.len() > 0
            &&& !text::is_white(number[0]) && !text::is_white(number.last())
            &&& number.last() != 's'
        }),
{
    let number = whole + point + frac;
    if whole.len() > 0 {
        assert(text::is_digit(whole[0]) && number[0] == whole[0]);
        assert(text::is_digit(whole[whole.len() - 1]));
    } else {
        assert(number[0] == '.');
    }
    if frac.len() > 0 {
        assert(text::is_digit(frac[frac.len() - 1]) && number.last() == frac.last());
    } else if point.len() > 0 {
        assert(number.last() == '.');
    } else {
        assert(number.last() == whole.last());
    }
}

/// A text that begins with no number, or has something else than a unit behind it, is no
/// rate; and what is no rate is told of with the text.
pub proof fn law_what_is_no_rate(whole: Seq<char>, word: Seq<char>, s: Seq<char>)
    requires
        text::all_digits(whole),
        word.len() > 0,
        !text::is_digit(word[0]) && !text::is_white(word[0]) && word[0] != '.',
        !text::is_white(word.last()) && word.last() != 's',
    ensures
        whole.len() == 0 || unit_bytes(word) is None ==> bytes_per_second(whole + word) is None,
        bytes_per_second(s) is None <==> bandwidth(s) == Err::<u64, Seq<char>>("invalid bandwidth: "@ + s),
        bytes_per_second(s) matches Some(n) ==> bandwidth(s) == Ok::<u64, Seq<char>>(n as u64) && n <= u64::MAX,
        bytes_per_second(Seq::<char>::empty()) is None,
{
    let empty = Seq::<char>::empty();
    let t = whole + word;
    if whole.len() > 0 {
        assert(text::is_digit(whole[0]));
    }
    assert(t[0] == (if whole.len() > 0 {
        whole[0]
    } else {
        word[0]
    }));
    assert(t.last() == word.last());
    text::lemma_trimmed_is_kept(t);
    text::lemma_trimmed_is_kept(word);
    lemma_quantity_is(whole, empty, empty, word);
    assert(whole + empty + empty + word =~= t);
    assert(whole + empty =~= whole);
    text::lemma_trimmed_is_kept(empty);
    lemma_quantity_is(empty, empty, empty, empty);
    assert(empty + empty + empty + empty =~= empty);
    assert(empty + empty =~= empty);
}

/// A rate is written in the largest unit that goes into it, of bytes and powers of 1024;
/// one place more behind the point is ten times as fine.
pub proof fn law_a_rate_is_written_in_the_largest_unit(b: nat, n: nat)
    ensures
        ({
            let u = written_unit(b);
            &&& u == 1 || u == 1024 || u == 1024 * 1024 || u == 1024 * 1024 * 1024
            &&& u == 1 || u <= b
            &&& u < 1024 * 1024 * 1024 ==> b < 1024 * u
        }),
        ten_to(0) == 1,
        ten_to(n + 1) == 10 * ten_to(n),
{
}

/// A minute is sixty seconds, an hour sixty minutes, a day twenty-four hours, a week
/// seven days and a year 365 days; and no other letter is a unit of time.
pub proof fn law_units_of_time(c: char)
    ensures
        unit_seconds('s') == Some(1nat),
        unit_seconds('m') == Some(60nat),
        unit_seconds('h') == Some((60 * 60) as nat),
        unit_seconds('d') == Some((24 * 60 * 60) as nat),
        unit_seconds('w') == Some((7 * 24 * 60 * 60) as nat),
        unit_seconds('y') == Some((365 * 24 * 60 * 60) as nat),
        c != 's' && c != 'm' && c != 'h' && c != 'd' && c != 'w' && c != 'y' ==> unit_seconds(c) is None,
{
}

/// A row of numbers with units comes to the sum of each number times its unit. A number
/// without a unit, a unit without a number and anything that is neither make it none.
pub proof fn law_terms_add_up(digits: Seq<char>, c: char, rest: Seq<char>)
    requires
        text::all_digits(digits),
        !text::is_digit(c),
    ensures
        ({
            let here = digits + seq![c];
            let n = text::value_of(digits);
            &&& digits.len() > 0 && unit_seconds(c) is Some ==> terms_seconds(here) == Some(n * unit_seconds(c).unwrap())
            &&& digits.len() > 0 && unit_seconds(c) is Some && rest.len() > 0 && terms_seconds(rest) is Some
                ==> terms_seconds(here + rest) == Some(n * unit_seconds(c).unwrap() + terms_seconds(rest).unwrap())
            &&& rest.len() > 0 && terms_seconds(rest) is None ==> terms_seconds(here + rest) is None
            &&& digits.len() == 0 || unit_seconds(c) is None ==> terms_seconds(here + rest) is None
            &&& terms_seconds(digits) is None
        }),
{
    let empty = Seq::<char>::empty();
    let here = digits + seq![c];
    let all = here + rest;
    let a = digits.len() as int;
    lemma_digit_run_is(digits, seq![c]);
    lemma_digit_run_is(digits, seq![c] + rest);
    lemma_digit_run_is(digits, empty);
    assert(digits + empty =~= digits);
    assert(all =~= digits + (seq![c] + rest));
    assert(here[a] == c && all[a] == c);
    assert(here.take(a) =~= digits && all.take(a) =~= digits);
    assert(here.skip(a + 1) =~= empty);
    assert(all.skip(a + 1) =~= rest);
}

/// A duration is as many milliseconds as a thousand for each second, white space around
/// it or not; what is none, or is longer than can be counted, is told of with the text.
pub proof fn law_a_duration_is_its_seconds(front: Seq<char>, s: Seq<char>, back: Seq<char>)
    requires
        forall|i: int| 0 <= i < front.len() ==> text::is_white(#[trigger] front[i]),
        forall|i: int| 0 <= i < back.len() ==> text::is_white(#[trigger] back[i]),
        s.len() > 0 ==> !text::is_white(s[0]) && !text::is_white(s.last()),
    ensures
        ({
            let written = front + s + back;
            match terms_seconds(s) {
                Some(n) => if n * 1000 <= i64::MAX {
                    duration(written) matches Ok(d) && d.millis == n * 1000
                } else {
                    duration(written) == Err::<Duration, Seq<char>>("invalid duration: "@ + written)
                },
                None => duration(written) == Err::<Duration, Seq<char>>("invalid duration: "@ + written),
            }
        }),
{
    text::law_trimming_takes_white_space_off(front, s, back);
}

/// A duration is written as its days, hours, minutes and seconds, each with its letter
/// and those of which there are none left out.
pub proof fn law_how_a_duration_is_written(d: nat, h: nat, m: nat, s: nat)
    requires
        h < 24,
        m < 60,
        s < 60,
        d + h + m + s > 0,
    ensures
        seconds_text(d * 86400 + h * 3600 + m * 60 + s) == term(d, 'd') + (term(h, 'h') + (term(m, 'm') + term(s, 's'))),
        d > 0 ==> term(d, 'd') == text::decimal(d).push('d'),
        term(0, 'd').len() == 0,
        seconds_text(0) == "0s"@,
{
    let n = d * 86400 + h * 3600 + m * 60 + s;
    assert(n / 86400 == d);
    assert(n / 3600 == d * 24 + h);
    assert((d * 24 + h) % 24 == h);
    assert(n / 60 == (d * 24 + h) * 60 + m);
    assert(((d * 24 + h) * 60 + m) % 60 == m);
    assert(n % 60 == s);
}

/// The seconds that are written of a duration are its whole ones, and its sign is not.
pub proof fn law_whole_seconds(d: Duration)
    ensures
        d.millis >= 0 ==> d.whole_seconds() * 1000 <= d.millis < d.whole_seconds() * 1000 + 1000,
        d.millis < 0 ==> d.whole_seconds() * 1000 <= -d.millis < d.whole_seconds() * 1000 + 1000,
        max_seconds() * 1000 <= i64::MAX < max_seconds() * 1000 + 1000,
{
}

/// A moment is in the calendar where it lies in its years and its offset is less than a
/// day.
pub proof fn law_the_calendar_has_its_bounds(seconds: int, offset: int)
    ensures
        in_calendar(seconds, offset) <==> -8334601228800 <= seconds <= 8210266876799 && -24 * 3600 < offset < 24 * 3600,
        TIME_PATTERN@ == "%Y-%m-%d %H:%M:%S %:z"@,
{
}

} // verus!
