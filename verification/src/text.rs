//! Characters, decimal numbers and words: what the command line is made of.
//!
//! A text is seen as its sequence of Unicode scalar values. Numbers follow the
//! grammar of the standard library's integer parsers: an optional sign, then one
//! or more ASCII digits and nothing else.

use vstd::prelude::*;

verus! {

// ---------------------------------------------------------------------------
// Results that carry a message
// ---------------------------------------------------------------------------

/// Whether a result and its model agree: the same value, or the same message.
pub open spec fn agrees<T>(r: Result<T, String>, model: Result<T, Seq<char>>) -> bool {
    match (r, model) {
        (Ok(v), Ok(w)) => v == w,
        (Err(e), Err(m)) => e@ == m,
        _ => false,
    }
}

/// What an optional text reads as, where every text that is there has to read as
/// something.
pub open spec fn optional<T>(
    text: Option<String>,
    reads_as: spec_fn(Seq<char>) -> Result<T, Seq<char>>,
) -> Result<Option<T>, Seq<char>> {
    match text {
        None => Ok(None),
        Some(s) => match reads_as(s@) {
            Ok(v) => Ok(Some(v)),
            Err(e) => Err(e),
        },
    }
}

// ---------------------------------------------------------------------------
// Texts
// ---------------------------------------------------------------------------

/// The characters of a text.
pub fn chars_of(s: &str) -> (r: Vec<char>)
    ensures
        r@ == s@,
{
    let mut out: Vec<char> = Vec::new();
    for c in it: s.chars()
        invariant
            out@ == it.seq().take(it.index()),
            it.seq() == s@,
    {
        out.push(c);
    }
    assert(s@.take(s@.len() as int) =~= s@);
    out
}

/// Whether two texts are the same.
pub fn same(a: &str, b: &str) -> (r: bool)
    ensures
        r == (a@ == b@),
{
    let x = chars_of(a);
    let y = chars_of(b);
    if x.len() != y.len() {
        return false;
    }
    let mut i: usize = 0;
    while i < x.len()
        invariant
            x@ == a@,
            y@ == b@,
            x@.len() == y@.len(),
            i <= x@.len(),
            forall|k: int| 0 <= k < i ==> x@[k] == y@[k],
        decreases x@.len() - i,
    {
        if x[i] != y[i] {
            return false;
        }
        i = i + 1;
    }
    assert(a@ =~= b@);
    true
}

/// The characters of the texts in a list.
pub open spec fn characters(v: Seq<String>) -> Seq<Seq<char>> {
    v.map_values(|s: String| s@)
}

/// Three texts in a row.
pub fn join3(a: &str, b: &str, c: &str) -> (r: String)
    ensures
        r@ == a@ + b@ + c@,
{
    let mut out = a.to_owned();
    out.append(b);
    out.append(c);
    out
}

/// Two texts in a row.
pub fn join2(a: &str, b: &str) -> (r: String)
    ensures
        r@ == a@ + b@,
{
    let mut out = a.to_owned();
    out.append(b);
    out
}

// ---------------------------------------------------------------------------
// Decimal numbers
// ---------------------------------------------------------------------------

/// Whether a character is an ASCII digit.
pub open spec fn is_digit(c: char) -> bool {
    '0' <= c && c <= '9'
}

/// The number that a digit stands for.
pub open spec fn digit_value(c: char) -> nat {
    (c as int - '0' as int) as nat
}

/// The digit that stands for a number below ten.
pub open spec fn digit_char(d: nat) -> char {
    ('0' as int + d) as char
}

/// Whether a text holds nothing but digits.
pub open spec fn all_digits(s: Seq<char>) -> bool {
    forall|i: int| 0 <= i < s.len() ==> is_digit(#[trigger] s[i])
}

/// The number that a row of digits stands for.
pub open spec fn value_of(s: Seq<char>) -> nat
    decreases s.len(),
{
    if s.len() == 0 {
        0
    } else {
        10 * value_of(s.drop_last()) + digit_value(s.last())
    }
}

/// What a text without a sign reads as.
pub open spec fn natural(s: Seq<char>) -> Option<nat> {
    if s.len() > 0 && all_digits(s) {
        Some(value_of(s))
    } else {
        None
    }
}

/// What a text reads as where a number without a minus sign is asked for.
pub open spec fn unsigned(s: Seq<char>) -> Option<nat> {
    if s.len() > 0 && s[0] == '+' {
        natural(s.skip(1))
    } else {
        natural(s)
    }
}

/// What a text reads as where a number of either sign is asked for.
pub open spec fn signed(s: Seq<char>) -> Option<int> {
    if s.len() > 0 && s[0] == '-' {
        match natural(s.skip(1)) {
            Some(n) => Some(-(n as int)),
            None => None,
        }
    } else {
        match unsigned(s) {
            Some(n) => Some(n as int),
            None => None,
        }
    }
}

/// The decimal digits of a number, without leading zeros.
pub open spec fn decimal(n: nat) -> Seq<char>
    decreases n,
{
    if n < 10 {
        seq![digit_char(n)]
    } else {
        decimal(n / 10).push(digit_char(n % 10))
    }
}

/// The decimal text of a number of either sign.
pub open spec fn decimal_int(n: int) -> Seq<char> {
    if n < 0 {
        seq!['-'] + decimal((-n) as nat)
    } else {
        decimal(n as nat)
    }
}

/// What the digits from one place of a text to another come to.
pub enum Digits {
    /// No digit at all, or something that is not one.
    Malformed,
    /// The number.
    Value(u128),
    /// A number that does not fit.
    TooLarge,
}

/// A longer row of digits stands for no smaller a number.
pub proof fn lemma_value_grows(s: Seq<char>, i: int, j: int)
    requires
        0 <= i <= j <= s.len(),
    ensures
        value_of(s.take(i)) <= value_of(s.take(j)),
    decreases j - i,
{
    if i < j {
        lemma_value_grows(s, i, j - 1);
        assert(s.take(j).drop_last() =~= s.take(j - 1));
    }
}

/// Reads `cs[from..to]` as a row of digits.
pub fn read_digits(cs: &Vec<char>, from: usize, to: usize) -> (r: Digits)
    requires
        from <= to <= cs@.len(),
    ensures
        match r {
            Digits::Malformed => natural(cs@.subrange(from as int, to as int)) is None,
            Digits::Value(n) => natural(cs@.subrange(from as int, to as int)) == Some(n as nat),
            Digits::TooLarge => natural(cs@.subrange(from as int, to as int)) matches Some(n) && n > u128::MAX,
        },
{
    let ghost part = cs@.subrange(from as int, to as int);
    if from == to {
        return Digits::Malformed;
    }
    let mut i: usize = from;
    while i < to
        invariant
            from <= i <= to <= cs@.len(),
            part == cs@.subrange(from as int, to as int),
            forall|k: int| 0 <= k < i - from ==> is_digit(#[trigger] part[k]),
        decreases to - i,
    {
        let c: char = cs[i];
        if c < '0' || c > '9' {
            assert(!is_digit(part[i - from]));
            return Digits::Malformed;
        }
        i = i + 1;
    }
    let mut n: u128 = 0;
    i = from;
    while i < to
        invariant
            from <= i <= to <= cs@.len(),
            part == cs@.subrange(from as int, to as int),
            part.len() > 0,
            all_digits(part),
            n == value_of(part.take(i - from)),
        decreases to - i,
    {
        let c: char = cs[i];
        assert(part[i - from] == c && is_digit(part[i - from]));
        let d: u128 = (c as u32 - '0' as u32) as u128;
        assert(part.take(i + 1 - from).drop_last() =~= part.take(i - from));
        assert(value_of(part.take(i + 1 - from)) == 10 * n + d);
        proof {
            lemma_value_grows(part, i + 1 - from, part.len() as int);
            assert(part.take(part.len() as int) =~= part);
        }
        if n > (u128::MAX - d) / 10 {
            assert(10 * n + d > u128::MAX);
            return Digits::TooLarge;
        }
        n = n * 10 + d;
        i = i + 1;
    }
    assert(part.take(part.len() as int) =~= part);
    Digits::Value(n)
}

/// Reads a whole text as a number without a minus sign, up to a largest one.
pub fn parse_unsigned(s: &str, max: u128) -> (r: Option<u128>)
    ensures
        match r {
            Some(n) => unsigned(s@) == Some(n as nat) && n <= max,
            None => unsigned(s@) matches Some(n) ==> n > max,
        },
{
    let cs = chars_of(s);
    let from: usize = if cs.len() > 0 && cs[0] == '+' { 1 } else { 0 };
    proof {
        assert(s@.subrange(0, s@.len() as int) =~= s@);
        if s@.len() > 0 {
            assert(s@.subrange(1, s@.len() as int) =~= s@.skip(1));
        }
    }
    match read_digits(&cs, from, cs.len()) {
        Digits::Value(n) => if n <= max { Some(n) } else { None },
        _ => None,
    }
}

/// Reads a whole text as a number of either sign, between two bounds.
pub fn parse_signed(s: &str, min: i128, max: i128) -> (r: Option<i128>)
    requires
        min <= 0 <= max,
    ensures
        match r {
            Some(n) => signed(s@) == Some(n as int) && min <= n <= max,
            None => signed(s@) matches Some(n) ==> n < min || n > max,
        },
{
    let cs = chars_of(s);
    if cs.len() > 0 && cs[0] == '-' {
        assert(s@.subrange(1, s@.len() as int) =~= s@.skip(1));
        match read_digits(&cs, 1, cs.len()) {
            Digits::Value(n) => {
                if n > 0x7fff_ffff_ffff_ffff_ffff_ffff_ffff_ffffu128 {
                    assert(-(n as int) < min || n == 0x8000_0000_0000_0000_0000_0000_0000_0000u128);
                    if n == 0x8000_0000_0000_0000_0000_0000_0000_0000u128 && min == i128::MIN {
                        Some(i128::MIN)
                    } else {
                        None
                    }
                } else {
                    let v: i128 = -(n as i128);
                    if v >= min {
                        Some(v)
                    } else {
                        None
                    }
                }
            },
            _ => None,
        }
    } else {
        match parse_unsigned(s, max as u128) {
            Some(n) => Some(n as i128),
            None => None,
        }
    }
}

/// The digit for a number below ten.
fn digit_str(d: u64) -> (r: &'static str)
    requires
        d < 10,
    ensures
        r@ == seq![digit_char(d as nat)],
{
    proof {
        reveal_strlit("0");
        reveal_strlit("1");
        reveal_strlit("2");
        reveal_strlit("3");
        reveal_strlit("4");
        reveal_strlit("5");
        reveal_strlit("6");
        reveal_strlit("7");
        reveal_strlit("8");
        reveal_strlit("9");
    }
    let r: &'static str = if d == 0 {
        "0"
    } else if d == 1 {
        "1"
    } else if d == 2 {
        "2"
    } else if d == 3 {
        "3"
    } else if d == 4 {
        "4"
    } else if d == 5 {
        "5"
    } else if d == 6 {
        "6"
    } else if d == 7 {
        "7"
    } else if d == 8 {
        "8"
    } else {
        "9"
    };
    assert(r@ =~= seq![digit_char(d as nat)]);
    r
}

/// The decimal text of a number.
pub fn number_text(n: u64) -> (r: String)
    ensures
        r@ == decimal(n as nat),
    decreases n,
{
    if n < 10 {
        digit_str(n).to_owned()
    } else {
        let mut out = number_text(n / 10);
        out.append(digit_str(n % 10));
        assert(out@ =~= decimal(n as nat));
        out
    }
}

/// The decimal text of a number of either sign.
pub fn signed_text(n: i32) -> (r: String)
    ensures
        r@ == decimal_int(n as int),
{
    if n < 0 {
        let mut out = "-".to_owned();
        let magnitude: u64 = (-(n as i64)) as u64;
        out.append(number_text(magnitude).as_str());
        proof {
            reveal_strlit("-");
        }
        assert(out@ =~= decimal_int(n as int));
        out
    } else {
        number_text(n as u64)
    }
}

/// Reading the decimal text of a number gives the number back.
pub proof fn law_decimal_reads_back(n: nat)
    ensures
        all_digits(decimal(n)),
        decimal(n).len() > 0,
        value_of(decimal(n)) == n,
        natural(decimal(n)) == Some(n),
        unsigned(decimal(n)) == Some(n),
    decreases n,
{
    if n < 10 {
        let s = decimal(n);
        assert(s.drop_last() =~= Seq::<char>::empty());
        assert(value_of(s.drop_last()) == 0);
        assert(is_digit(s[0]));
    } else {
        law_decimal_reads_back(n / 10);
        let s = decimal(n);
        assert(s.drop_last() =~= decimal(n / 10));
        assert(s.last() == digit_char(n % 10));
        assert forall|i: int| 0 <= i < s.len() implies is_digit(#[trigger] s[i]) by {
            if i < s.len() - 1 {
                assert(s[i] == decimal(n / 10)[i]);
            }
        }
    }
    assert(is_digit(decimal(n)[0]));
}

/// The same for numbers of either sign.
pub proof fn law_signed_decimal_reads_back(n: int)
    ensures
        signed(decimal_int(n)) == Some(n),
{
    if n < 0 {
        law_decimal_reads_back((-n) as nat);
        assert(decimal_int(n).skip(1) =~= decimal((-n) as nat));
    } else {
        law_decimal_reads_back(n as nat);
        assert(is_digit(decimal(n as nat)[0]));
    }
}

// ---------------------------------------------------------------------------
// Letter case
// ---------------------------------------------------------------------------

/// A character with ASCII capitals made small.
pub open spec fn small(c: char) -> char {
    if 'A' <= c && c <= 'Z' {
        (c as int + 32) as char
    } else {
        c
    }
}

/// Whether a text is a word, whatever the case of its letters.
pub open spec fn is_word(s: Seq<char>, word: Seq<char>) -> bool {
    &&& s.len() == word.len()
    &&& forall|i: int| 0 <= i < s.len() ==> small(#[trigger] s[i]) == word[i]
}

/// Makes an ASCII capital small.
fn small_char(c: char) -> (r: char)
    ensures
        r == small(c),
{
    if c >= 'A' && c <= 'Z' {
        ((c as u8) + 32) as char
    } else {
        c
    }
}

/// Whether `cs[from..to]` is a word, whatever the case of its letters.
pub fn word_at(cs: &Vec<char>, from: usize, to: usize, word: &str) -> (r: bool)
    requires
        from <= to <= cs@.len(),
    ensures
        r == is_word(cs@.subrange(from as int, to as int), word@),
{
    let w = chars_of(word);
    let ghost part = cs@.subrange(from as int, to as int);
    if w.len() != to - from {
        return false;
    }
    let mut i: usize = 0;
    while i < w.len()
        invariant
            from <= to <= cs@.len(),
            w@ == word@,
            w@.len() == to - from,
            i <= w@.len(),
            part == cs@.subrange(from as int, to as int),
            forall|k: int| 0 <= k < i ==> small(#[trigger] part[k]) == word@[k],
        decreases w@.len() - i,
    {
        let c: char = small_char(cs[from + i]);
        assert(part[i as int] == cs@[from + i]);
        if c != w[i] {
            return false;
        }
        i = i + 1;
    }
    true
}

/// Whether a text is a word, whatever the case of its letters.
pub fn word_is(s: &str, word: &str) -> (r: bool)
    ensures
        r == is_word(s@, word@),
{
    let cs = chars_of(s);
    assert(s@.subrange(0, s@.len() as int) =~= s@);
    word_at(&cs, 0, cs.len(), word)
}

// ---------------------------------------------------------------------------
// White space and separators
// ---------------------------------------------------------------------------

/// The characters that Unicode counts as white space.
pub open spec fn is_white(c: char) -> bool {
    ||| '\u{9}' <= c && c <= '\u{d}'
    ||| c == ' '
    ||| c == '\u{85}'
    ||| c == '\u{a0}'
    ||| c == '\u{1680}'
    ||| '\u{2000}' <= c && c <= '\u{200a}'
    ||| c == '\u{2028}'
    ||| c == '\u{2029}'
    ||| c == '\u{202f}'
    ||| c == '\u{205f}'
    ||| c == '\u{3000}'
}

/// A text without the white space in front of it.
pub open spec fn trim_front(s: Seq<char>) -> Seq<char>
    decreases s.len(),
{
    if s.len() > 0 && is_white(s[0]) {
        trim_front(s.skip(1))
    } else {
        s
    }
}

/// A text without the white space behind it.
pub open spec fn trim_back(s: Seq<char>) -> Seq<char>
    decreases s.len(),
{
    if s.len() > 0 && is_white(s.last()) {
        trim_back(s.drop_last())
    } else {
        s
    }
}

/// A text without the white space around it.
pub open spec fn trimmed(s: Seq<char>) -> Seq<char> {
    trim_back(trim_front(s))
}

/// Whether a character is white space.
pub fn white(c: char) -> (r: bool)
    ensures
        r == is_white(c),
{
    (c >= '\u{9}' && c <= '\u{d}') || c == ' ' || c == '\u{85}' || c == '\u{a0}' || c == '\u{1680}'
        || (c >= '\u{2000}' && c <= '\u{200a}') || c == '\u{2028}' || c == '\u{2029}'
        || c == '\u{202f}' || c == '\u{205f}' || c == '\u{3000}'
}

/// The bounds of `cs[from..to]` without the white space around it.
pub fn trim_bounds(cs: &Vec<char>, from: usize, to: usize) -> (r: (usize, usize))
    requires
        from <= to <= cs@.len(),
    ensures
        from <= r.0 <= r.1 <= to,
        cs@.subrange(r.0 as int, r.1 as int) == trimmed(cs@.subrange(from as int, to as int)),
{
    let ghost whole = cs@.subrange(from as int, to as int);
    let mut a: usize = from;
    while a < to && white(cs[a])
        invariant
            from <= a <= to <= cs@.len(),
            trim_front(whole) == trim_front(cs@.subrange(a as int, to as int)),
        decreases to - a,
    {
        assert(cs@.subrange(a as int, to as int).skip(1) =~= cs@.subrange(a + 1, to as int));
        a = a + 1;
    }
    assert(trim_front(whole) == cs@.subrange(a as int, to as int));
    let mut b: usize = to;
    while b > a && white(cs[b - 1])
        invariant
            from <= a <= b <= to <= cs@.len(),
            trim_back(trim_front(whole)) == trim_back(cs@.subrange(a as int, b as int)),
        decreases b,
    {
        assert(cs@.subrange(a as int, b as int).drop_last() =~= cs@.subrange(a as int, b - 1));
        b = b - 1;
    }
    (a, b)
}

/// What is left of a trimmed text has no white space at either end.
pub proof fn lemma_trimmed_ends(s: Seq<char>)
    ensures
        trimmed(s).len() > 0 ==> !is_white(trimmed(s)[0]) && !is_white(trimmed(s).last()),
{
    lemma_trim_front_end(s);
    lemma_trim_back_end(trim_front(s));
}

proof fn lemma_trim_front_end(s: Seq<char>)
    ensures
        trim_front(s).len() > 0 ==> !is_white(trim_front(s)[0]),
    decreases s.len(),
{
    if s.len() > 0 && is_white(s[0]) {
        lemma_trim_front_end(s.skip(1));
    }
}

proof fn lemma_trim_back_end(s: Seq<char>)
    ensures
        trim_back(s).len() > 0 ==> !is_white(trim_back(s).last()) && trim_back(s)[0] == s[0],
    decreases s.len(),
{
    if s.len() > 0 && is_white(s.last()) {
        lemma_trim_back_end(s.drop_last());
    }
}

/// A text without white space at its ends is its own trimmed form.
pub proof fn lemma_trimmed_is_kept(s: Seq<char>)
    requires
        s.len() > 0 ==> !is_white(s[0]) && !is_white(s.last()),
    ensures
        trimmed(s) == s,
{
}

/// The pieces of a text between the occurrences of a separator. There is always
/// one more piece than there are separators.
pub open spec fn pieces(s: Seq<char>, sep: char) -> Seq<Seq<char>>
    decreases s.len(),
{
    if s.len() == 0 {
        seq![Seq::<char>::empty()]
    } else {
        let before = pieces(s.drop_last(), sep);
        if s.last() == sep {
            before.push(Seq::<char>::empty())
        } else {
            before.drop_last().push(before.last().push(s.last()))
        }
    }
}

/// There is at least one piece.
pub proof fn lemma_some_piece(s: Seq<char>, sep: char)
    ensures
        pieces(s, sep).len() > 0,
    decreases s.len(),
{
    if s.len() > 0 {
        lemma_some_piece(s.drop_last(), sep);
    }
}

/// Whether a character occurs in a text.
pub fn has_char(s: &str, c: char) -> (r: bool)
    ensures
        r == s@.contains(c),
{
    let cs = chars_of(s);
    let mut i: usize = 0;
    while i < cs.len()
        invariant
            cs@ == s@,
            i <= cs@.len(),
            forall|k: int| 0 <= k < i ==> cs@[k] != c,
        decreases cs@.len() - i,
    {
        if cs[i] == c {
            return true;
        }
        i = i + 1;
    }
    false
}

// ---------------------------------------------------------------------------
// Order
// ---------------------------------------------------------------------------

/// An order of the characters.
#[derive(Debug, Copy, Clone, PartialEq, Eq, Structural)]
pub enum Alphabet {
    /// The order of their numbers.
    Plain,
    /// The same, but with `/` before every other character: texts then stand like
    /// paths, which go by one component after the other.
    Path,
}

impl Alphabet {
    /// The place of a character in the order.
    pub open spec fn rank(self, c: char) -> int {
        if self is Path && c == '/' {
            -1
        } else {
            c as int
        }
    }

    /// Whether a character comes before another.
    fn puts_first(self, c: char, d: char) -> (r: bool)
        ensures
            r == (self.rank(c) < self.rank(d)),
            self.rank(c) == self.rank(d) <==> c == d,
    {
        match self {
            Alphabet::Plain => c < d,
            Alphabet::Path => {
                if d == '/' {
                    false
                } else {
                    c == '/' || c < d
                }
            },
        }
    }
}

/// Whether a text comes before another: by the first character in which they
/// differ, the shorter first where there is none.
pub open spec fn precedes(al: Alphabet, a: Seq<char>, b: Seq<char>) -> bool
    decreases a.len(),
{
    if b.len() == 0 {
        false
    } else if a.len() == 0 {
        true
    } else {
        al.rank(a[0]) < al.rank(b[0]) || (a[0] == b[0] && precedes(al, a.skip(1), b.skip(1)))
    }
}

/// On which side of another a text stands.
pub enum Side {
    /// Before it.
    Before,
    /// The texts are the same.
    Same,
    /// After it.
    After,
}

/// No text comes before itself.
pub proof fn lemma_not_before_itself(al: Alphabet, a: Seq<char>)
    ensures
        !precedes(al, a, a),
    decreases a.len(),
{
    if a.len() > 0 {
        lemma_not_before_itself(al, a.skip(1));
    }
}

/// The order goes on over a third text.
pub proof fn lemma_precedes_transitive(al: Alphabet, a: Seq<char>, b: Seq<char>, c: Seq<char>)
    requires
        precedes(al, a, b),
        precedes(al, b, c),
    ensures
        precedes(al, a, c),
    decreases a.len(),
{
    if a.len() > 0 && a[0] == b[0] && b[0] == c[0] {
        lemma_precedes_transitive(al, a.skip(1), b.skip(1), c.skip(1));
    }
}

/// Where two texts agree up to a place, the rest decides.
proof fn lemma_precedes_after_prefix(al: Alphabet, a: Seq<char>, b: Seq<char>, n: int)
    requires
        0 <= n <= a.len(),
        n <= b.len(),
        forall|k: int| 0 <= k < n ==> a[k] == b[k],
    ensures
        precedes(al, a, b) == precedes(al, a.skip(n), b.skip(n)),
    decreases n,
{
    if n == 0 {
        assert(a.skip(0) =~= a);
        assert(b.skip(0) =~= b);
    } else {
        lemma_precedes_after_prefix(al, a.skip(1), b.skip(1), n - 1);
        assert(a.skip(1).skip(n - 1) =~= a.skip(n));
        assert(b.skip(1).skip(n - 1) =~= b.skip(n));
    }
}

/// Tells on which side of `b` the text `a` stands.
pub fn side_of(al: Alphabet, a: &str, b: &str) -> (r: Side)
    ensures
        match r {
            Side::Before => precedes(al, a@, b@),
            Side::Same => a@ == b@,
            Side::After => precedes(al, b@, a@),
        },
{
    let x = chars_of(a);
    let y = chars_of(b);
    let mut i: usize = 0;
    while i < x.len() && i < y.len() && x[i] == y[i]
        invariant
            x@ == a@,
            y@ == b@,
            i <= x@.len(),
            i <= y@.len(),
            forall|k: int| 0 <= k < i ==> x@[k] == y@[k],
        decreases x@.len() - i,
    {
        i = i + 1;
    }
    proof {
        lemma_precedes_after_prefix(al, a@, b@, i as int);
        lemma_precedes_after_prefix(al, b@, a@, i as int);
        let ra = a@.skip(i as int);
        let rb = b@.skip(i as int);
        assert(i < x@.len() ==> ra[0] == x@[i as int]);
        assert(i < y@.len() ==> rb[0] == y@[i as int]);
    }
    if i == x.len() {
        if i == y.len() {
            assert(a@ =~= b@);
            Side::Same
        } else {
            Side::Before
        }
    } else if i == y.len() {
        Side::After
    } else if al.puts_first(x[i], y[i]) {
        Side::Before
    } else {
        Side::After
    }
}

// ---------------------------------------------------------------------------
// Laws
// ---------------------------------------------------------------------------

/// A result agrees with a value where it is that value, and with a message where it
/// is an error that says so, and with nothing else.
pub proof fn law_agreeing_is_saying_the_same<T>(r: Result<T, String>, v: T, m: Seq<char>)
    ensures
        agrees(r, Ok(v)) <==> r == Ok::<T, String>(v),
        agrees(r, Err(m)) <==> (r matches Err(e) && e@ == m),
{
}

/// Where there is no text nothing is read; a text that is there is read, and what it
/// reads as is what comes out, be it a value or a message.
pub proof fn law_optional_texts_are_read<T>(
    s: String,
    reads_as: spec_fn(Seq<char>) -> Result<T, Seq<char>>,
    v: T,
    m: Seq<char>,
)
    ensures
        optional(None, reads_as) == Ok::<Option<T>, Seq<char>>(None),
        optional(Some(s), reads_as) == Ok::<Option<T>, Seq<char>>(Some(v)) <==> reads_as(s@) == Ok::<T, Seq<char>>(v),
        optional(Some(s), reads_as) == Err::<Option<T>, Seq<char>>(m) <==> reads_as(s@) == Err::<T, Seq<char>>(m),
        optional(Some(s), reads_as) != Ok::<Option<T>, Seq<char>>(None),
{
}

/// The characters of a list are those of each text in it, in order.
pub proof fn law_characters_of_each_text(v: Seq<String>)
    ensures
        characters(v).len() == v.len(),
        forall|i: int| 0 <= i < v.len() ==> #[trigger] characters(v)[i] == v[i]@,
{
}

/// The place of a digit in a row makes it count: one digit more behind a row makes ten
/// times as much of it, and the digits from 0 to 9 count as 0 to 9.
pub proof fn law_digits_count_by_their_place(s: Seq<char>, c: char)
    ensures
        value_of(s.push(c)) == 10 * value_of(s) + value_of(seq![c]),
        value_of(seq!['0']) == 0,
        value_of(seq!['9']) == 9,
        '0' <= c && c < '9' ==> value_of(seq![((c as int) + 1) as char]) == value_of(seq![c]) + 1,
        value_of(Seq::<char>::empty()) == 0,
{
    assert(s.push(c).drop_last() =~= s);
    assert(seq![c].drop_last() =~= Seq::<char>::empty());
    assert(seq!['0'].drop_last() =~= Seq::<char>::empty());
    assert(seq!['9'].drop_last() =~= Seq::<char>::empty());
    let d = ((c as int) + 1) as char;
    assert(seq![d].drop_last() =~= Seq::<char>::empty());
    reveal_with_fuel(value_of, 2);
}

/// A text is a number exactly where it is one or more digits, behind at most one sign,
/// and it is the number of these digits then.
pub proof fn law_numbers_are_digits_behind_a_sign(digits: Seq<char>)
    ensures
        ({
            let fine = digits.len() > 0 && forall|i: int|
                0 <= i < digits.len() ==> '0' <= (#[trigger] digits[i]) && digits[i] <= '9';
            &&& fine ==> unsigned(digits) == Some(value_of(digits))
            &&& fine ==> unsigned(seq!['+'] + digits) == Some(value_of(digits))
            &&& fine ==> signed(digits) == Some(value_of(digits) as int)
            &&& fine ==> signed(seq!['+'] + digits) == Some(value_of(digits) as int)
            &&& fine ==> signed(seq!['-'] + digits) == Some(-(value_of(digits) as int))
            &&& unsigned(seq!['-'] + digits) is None
            &&& !fine ==> unsigned(seq!['+'] + digits) is None
            &&& !fine ==> signed(seq!['+'] + digits) is None
            &&& !fine ==> signed(seq!['-'] + digits) is None
            &&& !fine && (digits.len() > 0 ==> digits[0] != '+') ==> unsigned(digits) is None
            &&& !fine && (digits.len() > 0 ==> digits[0] != '+' && digits[0] != '-') ==> signed(digits) is None
        }),
{
    let plus = seq!['+'] + digits;
    let minus = seq!['-'] + digits;
    assert(plus.skip(1) =~= digits);
    assert(minus.skip(1) =~= digits);
    assert(plus[0] == '+' && minus[0] == '-');
    assert(!is_digit('-'));
    assert(!all_digits(minus)) by {
        assert(!is_digit(minus[0]));
    }
    if digits.len() > 0 && forall|i: int| 0 <= i < digits.len() ==> '0' <= (#[trigger] digits[i]) && digits[i] <= '9' {
        assert(all_digits(digits));
        assert(is_digit(digits[0]));
    } else if digits.len() > 0 && all_digits(digits) {
        assert forall|i: int| 0 <= i < digits.len() implies '0' <= (#[trigger] digits[i]) && digits[i] <= '9' by {
            assert(is_digit(digits[i]));
        }
    }
}

/// A word is found whatever the case of its letters: a small letter and its capital are
/// taken for the same, and no other two characters are.
pub proof fn law_case_of_letters_does_not_matter(s: Seq<char>, word: Seq<char>, i: int, c: char)
    requires
        0 <= i < s.len(),
        s.len() == word.len(),
    ensures
        is_word(s, word) ==> ({
            ||| s[i] == word[i]
            ||| 'A' <= s[i] && s[i] <= 'Z' && s[i] as int + 32 == word[i] as int
        }),
        is_word(s, word) && 'a' <= s[i] && s[i] <= 'z' ==> is_word(s.update(i, (s[i] as int - 32) as char), word),
        (forall|k: int| 0 <= k < s.len() ==> !('A' <= (#[trigger] s[k]) && s[k] <= 'Z')) ==> (is_word(s, word) <==> s
            == word),
        is_word(s, word) && is_word(s.update(i, c), word) && !('A' <= c && c <= 'Z') ==> c == word[i],
        !is_word(s.push(c), word),
{
    if is_word(s, word) {
        assert(small(s[i]) == word[i]);
        if 'a' <= s[i] && s[i] <= 'z' {
            let d = (s[i] as int - 32) as char;
            let t = s.update(i, d);
            assert(d as int == s[i] as int - 32);
            assert forall|k: int| 0 <= k < t.len() implies small(#[trigger] t[k]) == word[k] by {
                assert(small(s[k]) == word[k]);
            }
        }
        if is_word(s.update(i, c), word) {
            assert(small(s.update(i, c)[i]) == word[i]);
        }
    }
    if forall|k: int| 0 <= k < s.len() ==> !('A' <= (#[trigger] s[k]) && s[k] <= 'Z') {
        if is_word(s, word) {
            assert forall|k: int| 0 <= k < s.len() implies s[k] == word[k] by {
                assert(small(s[k]) == word[k]);
            }
            assert(s =~= word);
        }
    }
}

/// What is trimmed off a text is white space at its ends, all of it and nothing else.
pub proof fn law_trimming_takes_white_space_off(front: Seq<char>, core: Seq<char>, back: Seq<char>)
    requires
        forall|i: int| 0 <= i < front.len() ==> is_white(#[trigger] front[i]),
        forall|i: int| 0 <= i < back.len() ==> is_white(#[trigger] back[i]),
        core.len() > 0 ==> !is_white(core[0]) && !is_white(core.last()),
    ensures
        trimmed(front + core + back) == core,
    decreases front.len() + back.len(),
{
    let s = front + core + back;
    if front.len() > 0 {
        let rest = front.skip(1);
        assert forall|i: int| 0 <= i < rest.len() implies is_white(#[trigger] rest[i]) by {
            assert(is_white(front[i + 1]));
        }
        law_trimming_takes_white_space_off(rest, core, back);
        assert(s[0] == front[0]);
        assert(s.skip(1) =~= rest + core + back);
    } else if core.len() == 0 {
        assert(s =~= back);
        lemma_all_white(back);
        assert(core =~= Seq::<char>::empty());
    } else {
        assert(s[0] == core[0]);
        assert(trim_front(s) == s);
        if back.len() > 0 {
            let most = back.drop_last();
            assert forall|i: int| 0 <= i < most.len() implies is_white(#[trigger] most[i]) by {
                assert(is_white(back[i]));
            }
            law_trimming_takes_white_space_off(front, core, most);
            let u = front + core + most;
            assert(s.drop_last() =~= u);
            assert(s.last() == back.last() && is_white(back[back.len() - 1]));
            assert(u[0] == core[0]);
            assert(trim_front(u) == u);
        } else {
            assert(s =~= core);
        }
    }
}

proof fn lemma_all_white(s: Seq<char>)
    requires
        forall|i: int| 0 <= i < s.len() ==> is_white(#[trigger] s[i]),
    ensures
        trimmed(s) == Seq::<char>::empty(),
    decreases s.len(),
{
    if s.len() > 0 {
        let rest = s.skip(1);
        assert forall|i: int| 0 <= i < rest.len() implies is_white(#[trigger] rest[i]) by {
            assert(is_white(s[i + 1]));
        }
        lemma_all_white(rest);
    } else {
        assert(s =~= Seq::<char>::empty());
    }
}

/// A text without the separator is one piece, and a separator parts what is before it
/// from what is behind it; so no piece holds a separator.
pub proof fn law_separators_part_the_pieces(a: Seq<char>, b: Seq<char>, sep: char)
    ensures
        !a.contains(sep) ==> pieces(a, sep) == seq![a],
        pieces(a + seq![sep] + b, sep) == pieces(a, sep) + pieces(b, sep),
        forall|i: int| 0 <= i < pieces(a, sep).len() ==> !(#[trigger] pieces(a, sep)[i]).contains(sep),
    decreases a.len() + b.len(),
{
    let left = pieces(a, sep);
    let whole = a + seq![sep] + b;
    if b.len() == 0 {
        assert(whole.drop_last() =~= a);
        assert(pieces(whole, sep) =~= left + seq![Seq::<char>::empty()]);
    } else {
        law_separators_part_the_pieces(a, b.drop_last(), sep);
        lemma_some_piece(b.drop_last(), sep);
        let right = pieces(b.drop_last(), sep);
        assert(whole.drop_last() =~= a + seq![sep] + b.drop_last());
        assert((left + right).last() == right.last());
        assert((left + right).drop_last() =~= left + right.drop_last());
        assert(pieces(whole, sep) =~= left + pieces(b, sep));
    }
    if a.len() > 0 {
        let most = a.drop_last();
        let before = pieces(most, sep);
        law_separators_part_the_pieces(most, Seq::<char>::empty(), sep);
        lemma_some_piece(most, sep);
        if !a.contains(sep) {
            assert(!most.contains(sep)) by {
                if most.contains(sep) {
                    let k = choose|k: int| 0 <= k < most.len() && most[k] == sep;
                    assert(a[k] == sep);
                }
            }
            assert(a[a.len() - 1] != sep);
            assert(most.push(a.last()) =~= a);
            assert(left =~= seq![a]);
        }
        assert forall|i: int| 0 <= i < left.len() implies !(#[trigger] left[i]).contains(sep) by {
            if a.last() == sep {
                if i < before.len() {
                    assert(left[i] == before[i]);
                }
            } else if i < before.len() - 1 {
                assert(left[i] == before[i]);
            } else {
                let p = before[before.len() - 1];
                assert(left[i] == p.push(a.last()));
                if left[i].contains(sep) {
                    let k = choose|k: int| 0 <= k < left[i].len() && left[i][k] == sep;
                    assert(p[k] == sep);
                    assert(p.contains(sep));
                }
            }
        }
    } else {
        assert(a =~= Seq::<char>::empty());
        assert(left =~= seq![a]);
    }
}

/// Of two different texts exactly one comes before the other, and what comes before a
/// text comes before all that come after it. Texts that begin alike stand as their ends
/// do, and the beginning of a text comes before the whole.
pub proof fn law_texts_stand_in_one_order(al: Alphabet, a: Seq<char>, b: Seq<char>, c: Seq<char>, x: char, y: char)
    ensures
        !precedes(al, a, a),
        a != b ==> (precedes(al, a, b) <==> !precedes(al, b, a)),
        precedes(al, a, b) && precedes(al, b, c) ==> precedes(al, a, c),
        precedes(al, c + a, c + b) <==> precedes(al, a, b),
        precedes(al, c, c + seq![x]),
        al is Plain && x < y ==> precedes(al, seq![x] + a, seq![y] + b),
        al is Path && x != '/' && y != '/' && x < y ==> precedes(al, seq![x] + a, seq![y] + b),
        al is Path && x != '/' ==> precedes(al, seq!['/'] + a, seq![x] + b),
{
    lemma_not_before_itself(al, a);
    if a != b {
        lemma_one_is_first(al, a, b);
    }
    if precedes(al, a, b) && precedes(al, b, a) {
        lemma_precedes_transitive(al, a, b, a);
    }
    if precedes(al, a, b) && precedes(al, b, c) {
        lemma_precedes_transitive(al, a, b, c);
    }
    lemma_precedes_after_prefix(al, c + a, c + b, c.len() as int);
    assert((c + a).skip(c.len() as int) =~= a);
    assert((c + b).skip(c.len() as int) =~= b);
    let e = Seq::<char>::empty();
    lemma_precedes_after_prefix(al, c, c + seq![x], c.len() as int);
    assert(c.skip(c.len() as int) =~= e);
    assert((c + seq![x]).skip(c.len() as int) =~= seq![x]);
    assert((seq![x] + a)[0] == x && (seq![y] + b)[0] == y && (seq!['/'] + a)[0] == '/' && (seq![x] + b)[0] == x);
}

proof fn lemma_one_is_first(al: Alphabet, a: Seq<char>, b: Seq<char>)
    requires
        a != b,
    ensures
        precedes(al, a, b) || precedes(al, b, a),
    decreases a.len(),
{
    if a.len() == 0 {
        if b.len() == 0 {
            assert(a =~= b);
        }
    } else if b.len() > 0 && a[0] == b[0] {
        if a.skip(1) == b.skip(1) {
            assert(a =~= seq![a[0]] + a.skip(1));
            assert(b =~= seq![b[0]] + b.skip(1));
        }
        lemma_one_is_first(al, a.skip(1), b.skip(1));
    } else if b.len() > 0 {
        lemma_ranks_differ(al, a[0], b[0]);
    } else {
        assert(precedes(al, b, a));
    }
}

proof fn lemma_ranks_differ(al: Alphabet, c: char, d: char)
    requires
        c != d,
    ensures
        al.rank(c) != al.rank(d),
{
}

/// White space is what Unicode calls so: the five controls from tab to carriage return,
/// the blank, the next line, the blanks of other widths, and the separators of lines and
/// paragraphs; no digit, letter or mark of ASCII is.
pub proof fn law_what_white_space_is(c: char)
    ensures
        is_white(c) <==> {
            let n = c as int;
            ||| n == 0x9 || n == 0xa || n == 0xb || n == 0xc || n == 0xd
            ||| n == 0x20 || n == 0x85 || n == 0xa0 || n == 0x1680
            ||| 0x2000 <= n <= 0x200a
            ||| n == 0x2028 || n == 0x2029 || n == 0x202f || n == 0x205f || n == 0x3000
        },
        '!' <= c && c <= '~' ==> !is_white(c),
{
}

} // verus!
