//! The date stamp of a run, and the reading of size strings such as `100M`
//! or `931.5G` as byte counts.

use vstd::prelude::*;
use crate::decimal::{
    all_digits,
    digits_value,
    lemma_pow10_landmarks,
    lemma_pow10_monotone,
    lemma_pow10_positive,
    lemma_value_bound,
    lemma_value_push,
    pow10,
    saturated,
    scaled,
    scaled_bytes,
};
use crate::error::{Error, ErrorKind};
use crate::text::to_chars;

verus! {

/// Calls `chrono::Local::now()` and formats the moment with `%Y-%m-%d`:
/// today's date in the local time zone, for instance `2024-03-09`. Nothing
/// is promised of the text, since it depends on the clock and the time zone.
#[verifier::external_body]
pub fn current_date() -> (date: String) {
    chrono::Local::now().format("%Y-%m-%d").to_string()
}

/// White space as `str::trim` understands it.
pub open spec fn is_whitespace(c: char) -> bool {
    let n = c as u32;
    ||| 0x09 <= n <= 0x0d
    ||| n == 0x20
    ||| n == 0x85
    ||| n == 0xa0
    ||| n == 0x1680
    ||| 0x2000 <= n <= 0x200a
    ||| n == 0x2028
    ||| n == 0x2029
    ||| n == 0x202f
    ||| n == 0x205f
    ||| n == 0x3000
}

/// `s` without its leading white space.
pub open spec fn trim_start(s: Seq<char>) -> Seq<char>
    decreases s.len(),
{
    if s.len() > 0 && is_whitespace(s[0]) {
        trim_start(s.drop_first())
    } else {
        s
    }
}

/// `s` without its trailing white space.
pub open spec fn trim_end(s: Seq<char>) -> Seq<char>
    decreases s.len(),
{
    if s.len() > 0 && is_whitespace(s.last()) {
        trim_end(s.drop_last())
    } else {
        s
    }
}

/// `s` without leading and trailing white space.
pub open spec fn trimmed(s: Seq<char>) -> Seq<char> {
    trim_end(trim_start(s))
}

/// `c` is one of `0` to `9`.
pub open spec fn is_digit(c: char) -> bool {
    0x30 <= c as u32 <= 0x39
}

/// The value of the decimal digit `c`.
pub open spec fn digit_of(c: char) -> u8 {
    (c as u32 - 0x30) as u8
}

/// The digit values of a run of decimal digits.
pub open spec fn digit_values(s: Seq<char>) -> Seq<u8> {
    Seq::new(s.len(), |i: int| digit_of(s[i]))
}

/// The end of the run of digits that starts at `from`.
pub open spec fn digit_run(s: Seq<char>, from: int) -> int
    decreases s.len() - from,
{
    if 0 <= from < s.len() && is_digit(s[from]) {
        digit_run(s, from + 1)
    } else {
        from
    }
}

/// `s` spells the word given in lower and in upper case, in any mix of cases.
pub open spec fn spells(s: Seq<char>, lower: Seq<char>, upper: Seq<char>) -> bool {
    &&& s.len() == lower.len()
    &&& s.len() == upper.len()
    &&& forall|i: int| 0 <= i < s.len() ==> s[i] == lower[i] || s[i] == upper[i]
}

/// A number as a decimal literal writes it, without its sign.
pub enum Number {
    /// `nan`.
    NotANumber,
    /// `inf` or `infinity`.
    Infinite,
    /// The digits of the mantissa and the power of ten that divides it.
    Finite { digits: Seq<u8>, scale: int },
}

/// `c` is a sign.
pub open spec fn is_sign(c: char) -> bool {
    c == '+' || c == '-'
}

/// The unsigned finite number that `body` writes: digits with at most one
/// point among them and at least one digit, then possibly `e` or `E`, an
/// optional sign and at least one digit.
pub open spec fn finite_number(body: Seq<char>) -> Option<(Seq<u8>, int)> {
    let whole_end = digit_run(body, 0);
    let dotted = whole_end < body.len() && body[whole_end] == '.';
    let fraction_start = if dotted { whole_end + 1 } else { whole_end };
    let fraction_end = digit_run(body, fraction_start);
    let digits = digit_values(
        body.subrange(0, whole_end) + body.subrange(fraction_start, fraction_end),
    );
    let places = fraction_end - fraction_start;
    if digits.len() == 0 {
        None
    } else if fraction_end == body.len() {
        Some((digits, places))
    } else if body[fraction_end] == 'e' || body[fraction_end] == 'E' {
        let mark = fraction_end + 1;
        let signed = mark < body.len() && is_sign(body[mark]);
        let exponent_start = if signed { mark + 1 } else { mark };
        let exponent_end = digit_run(body, exponent_start);
        let magnitude = digits_value(digit_values(body.subrange(exponent_start, exponent_end)));
        if exponent_end == exponent_start || exponent_end != body.len() {
            None
        } else if signed && body[mark] == '-' {
            Some((digits, places + magnitude))
        } else {
            Some((digits, places - magnitude))
        }
    } else {
        None
    }
}

/// The number that `s` writes and whether it is negative: an optional sign,
/// then `inf`, `infinity` or `nan` in any case, or a finite number.
pub open spec fn number(s: Seq<char>) -> Option<(bool, Number)> {
    let signed = s.len() > 0 && is_sign(s[0]);
    let negative = signed && s[0] == '-';
    let body = if signed { s.skip(1) } else { s };
    if spells(body, "inf"@, "INF"@) || spells(body, "infinity"@, "INFINITY"@) {
        Some((negative, Number::Infinite))
    } else if spells(body, "nan"@, "NAN"@) {
        Some((negative, Number::NotANumber))
    } else {
        match finite_number(body) {
            Some((digits, scale)) => Some((negative, Number::Finite { digits, scale })),
            None => None,
        }
    }
}

/// The number of bytes in one unit: `B`, `K`, `M`, `G` and `T` go up by
/// factors of 1024; no other letter is a unit.
pub open spec fn unit_multiplier(unit: char) -> Option<nat> {
    if unit == 'B' {
        Some(1)
    } else if unit == 'K' {
        Some(0x400)
    } else if unit == 'M' {
        Some(0x10_0000)
    } else if unit == 'G' {
        Some(0x4000_0000)
    } else if unit == 'T' {
        Some(0x100_0000_0000)
    } else {
        None
    }
}

/// The number times the multiplier, rounded to the nearest integer with
/// halves away from zero, and brought into the range of 64 bits: negative
/// numbers and `nan` give zero, what is too large gives the largest value.
pub open spec fn byte_count(negative: bool, number: Number, multiplier: nat) -> u64 {
    match number {
        Number::NotANumber => 0,
        Number::Infinite => if negative { 0 } else { u64::MAX },
        Number::Finite { digits, scale } => if negative {
            0
        } else {
            saturated(scaled(digits_value(digits), scale, multiplier))
        },
    }
}

/// What a size string means. The string is trimmed; its last character is
/// the unit and what stands before it the number. `Err` carries the message
/// for a string without a readable number, `Ok(None)` stands for an unknown
/// unit.
pub open spec fn byte_size(s: Seq<char>) -> Result<Option<u64>, Seq<char>> {
    let t = trimmed(s);
    if t.len() == 0 {
        Err(""@)
    } else if t.len() == 1 {
        Err("Error parsing unit size: cannot parse float from empty string"@)
    } else {
        match number(t.drop_last()) {
            None => Err("Error parsing unit size: invalid float literal"@),
            Some((negative, value)) => match unit_multiplier(t.last()) {
                None => Ok(None),
                Some(multiplier) => Ok(Some(byte_count(negative, value, multiplier))),
            },
        }
    }
}

/// Scales far enough from the digits give the same count: below `-20` every
/// number but zero is too large, beyond the digits and thirteen more places
/// every number rounds to zero.
pub proof fn lemma_far_scales(digits: Seq<u8>, a: int, b: int, multiplier: nat)
    requires
        all_digits(digits),
        1 <= multiplier <= 0x100_0000_0000,
        (a <= -21 && b <= -21) || (a >= digits.len() + 14 && b >= digits.len() + 14),
    ensures
        saturated(scaled(digits_value(digits), a, multiplier)) == saturated(
            scaled(digits_value(digits), b, multiplier),
        ),
{
    lemma_far_scale(digits, a, multiplier);
    lemma_far_scale(digits, b, multiplier);
}

proof fn lemma_far_scale(digits: Seq<u8>, a: int, multiplier: nat)
    requires
        all_digits(digits),
        1 <= multiplier <= 0x100_0000_0000,
        a <= -21 || a >= digits.len() + 14,
    ensures
        a <= -21 ==> saturated(scaled(digits_value(digits), a, multiplier)) == (if digits_value(
            digits,
        ) == 0 {
            0u64
        } else {
            u64::MAX
        }),
        a >= digits.len() + 14 ==> scaled(digits_value(digits), a, multiplier) == 0,
{
    let n = digits_value(digits) as int;
    let m = multiplier as int;
    lemma_pow10_landmarks();
    if a <= -21 {
        let p = pow10((-a) as nat) as int;
        lemma_pow10_monotone(20, (-a) as nat);
        if n == 0 {
            assert(0 * p * m == 0) by (nonlinear_arith);
        } else {
            assert(n * p * m >= p) by (nonlinear_arith)
                requires
                    n >= 1,
                    p >= 1,
                    m >= 1,
            ;
        }
    } else {
        let len = digits.len();
        let p = pow10(a as nat) as int;
        let q = pow10(len) as int;
        let r = pow10(13) as int;
        lemma_value_bound(digits);
        crate::decimal::lemma_pow10_adds(len, 13);
        lemma_pow10_monotone(len + 13, (a - 1) as nat);
        lemma_pow10_positive(len);
        assert(p == 10 * pow10((a - 1) as nat));
        assert(n * m < q * r) by (nonlinear_arith)
            requires
                0 <= n < q,
                1 <= m < r,
        ;
        let x = 2 * (n * m) + p;
        assert(0 <= n * m) by (nonlinear_arith)
            requires
                0 <= n,
                1 <= m,
        ;
        assert(x < 2 * p);
        vstd::arithmetic::div_mod::lemma_fundamental_div_mod_converse(x, 2 * p, 0, x);
    }
}

/// Whether `c` is white space.
fn is_whitespace_char(c: char) -> (r: bool)
    ensures
        r == is_whitespace(c),
{
    let n: u32 = c as u32;
    (0x09 <= n && n <= 0x0d) || n == 0x20 || n == 0x85 || n == 0xa0 || n == 0x1680 || (0x2000 <= n
        && n <= 0x200a) || n == 0x2028 || n == 0x2029 || n == 0x202f || n == 0x205f || n == 0x3000
}

/// The characters of `s` without leading and trailing white space.
fn trim(s: &Vec<char>) -> (r: Vec<char>)
    ensures
        r@ == trimmed(s@),
{
    let mut lo: usize = 0;
    assert(s@.skip(0) == s@);
    while lo < s.len() && is_whitespace_char(s[lo])
        invariant
            lo <= s.len(),
            trim_start(s@) == trim_start(s@.skip(lo as int)),
        decreases s.len() - lo,
    {
        assert(s@.skip(lo as int).drop_first() == s@.skip(lo + 1));
        lo += 1;
    }
    let ghost t = s@.skip(lo as int);
    assert(trim_start(s@) == t);
    let mut hi: usize = s.len();
    assert(s@.subrange(lo as int, hi as int) == t);
    while hi > lo && is_whitespace_char(s[hi - 1])
        invariant
            lo <= hi <= s.len(),
            trim_end(t) == trim_end(s@.subrange(lo as int, hi as int)),
        decreases hi,
    {
        assert(s@.subrange(lo as int, hi as int).drop_last() == s@.subrange(lo as int, hi - 1));
        hi -= 1;
    }
    let mut r: Vec<char> = Vec::new();
    let mut i: usize = lo;
    while i < hi
        invariant
            lo <= i <= hi <= s.len(),
            r@ == s@.subrange(lo as int, i as int),
        decreases hi - i,
    {
        r.push(s[i]);
        i += 1;
    }
    r
}

/// The end of the run of digits that starts at `from`.
fn scan_digits(s: &Vec<char>, from: usize) -> (end: usize)
    requires
        from <= s.len(),
    ensures
        end == digit_run(s@, from as int),
        from <= end <= s.len(),
        forall|i: int| from <= i < end ==> is_digit(s@[i]),
{
    let mut end: usize = from;
    while end < s.len() && is_digit_char(s[end])
        invariant
            from <= end <= s.len(),
            digit_run(s@, from as int) == digit_run(s@, end as int),
            forall|i: int| from <= i < end ==> is_digit(s@[i]),
        decreases s.len() - end,
    {
        end += 1;
    }
    end
}

/// Whether `c` is a decimal digit.
fn is_digit_char(c: char) -> (r: bool)
    ensures
        r == is_digit(c),
{
    let n: u32 = c as u32;
    0x30 <= n && n <= 0x39
}

/// Appends the digit values of `s[from..to]` to `digits`.
fn push_digits(digits: &mut Vec<u8>, s: &Vec<char>, from: usize, to: usize)
    requires
        from <= to <= s.len(),
        forall|i: int| from <= i < to ==> is_digit(s@[i]),
        all_digits(old(digits)@),
    ensures
        final(digits)@ == old(digits)@ + digit_values(s@.subrange(from as int, to as int)),
        all_digits(final(digits)@),
{
    let mut i: usize = from;
    while i < to
        invariant
            from <= i <= to <= s.len(),
            forall|k: int| from <= k < to ==> is_digit(s@[k]),
            digits@ == old(digits)@ + digit_values(s@.subrange(from as int, i as int)),
            all_digits(digits@),
        decreases to - i,
    {
        let n: u32 = s[i] as u32;
        digits.push((n - 0x30) as u8);
        i += 1;
    }
}

/// The number written by the digits `s[from..to]`, capped at `2^80`.
fn capped_value(s: &Vec<char>, from: usize, to: usize) -> (r: u128)
    requires
        from <= to <= s.len(),
        forall|i: int| from <= i < to ==> is_digit(s@[i]),
    ensures
        r <= 0x1_0000_0000_0000_0000_0000,
        r < 0x1_0000_0000_0000_0000_0000 ==> r == digits_value(
            digit_values(s@.subrange(from as int, to as int)),
        ),
        r == 0x1_0000_0000_0000_0000_0000 ==> digits_value(
            digit_values(s@.subrange(from as int, to as int)),
        ) >= 0x1_0000_0000_0000_0000_0000,
{
    let cap: u128 = 0x1_0000_0000_0000_0000_0000;
    let mut acc: u128 = 0;
    let mut i: usize = from;
    assert(digit_values(s@.subrange(from as int, from as int)).len() == 0);
    while i < to
        invariant
            from <= i <= to <= s.len(),
            forall|k: int| from <= k < to ==> is_digit(s@[k]),
            cap == 0x1_0000_0000_0000_0000_0000,
            acc <= cap,
            acc < cap ==> acc == digits_value(digit_values(s@.subrange(from as int, i as int))),
            acc == cap ==> digits_value(digit_values(s@.subrange(from as int, i as int))) >= cap,
        decreases to - i,
    {
        let n: u32 = s[i] as u32;
        let d: u8 = (n - 0x30) as u8;
        proof {
            let before = digit_values(s@.subrange(from as int, i as int));
            assert(digit_values(s@.subrange(from as int, i + 1)) == before.push(d));
            lemma_value_push(before, d);
        }
        let next: u128 = acc * 10 + d as u128;
        acc = if next > cap { cap } else { next };
        i += 1;
    }
    acc
}

/// Whether `s` spells the word given in lower and in upper case.
fn spells_word(s: &Vec<char>, lower: &str, upper: &str) -> (r: bool)
    ensures
        r == spells(s@, lower@, upper@),
{
    let lo = to_chars(lower);
    let up = to_chars(upper);
    if s.len() != lo.len() || s.len() != up.len() {
        return false;
    }
    let mut i: usize = 0;
    while i < s.len()
        invariant
            i <= s.len(),
            s.len() == lo.len(),
            s.len() == up.len(),
            lo@ == lower@,
            up@ == upper@,
            forall|k: int| 0 <= k < i ==> s@[k] == lo@[k] || s@[k] == up@[k],
        decreases s.len() - i,
    {
        if s[i] != lo[i] && s[i] != up[i] {
            return false;
        }
        i += 1;
    }
    true
}

/// The digits and the scale of the finite number that `body` writes. The
/// scale is exact within `2^80` of zero; beyond, it keeps its sign and is
/// at least that far from zero.
fn parse_finite(body: &Vec<char>) -> (r: Option<(Vec<u8>, i128)>)
    ensures
        match finite_number(body@) {
            None => r is None,
            Some((digits, scale)) => r matches Some((d, s)) && d@ == digits && all_digits(d@) && (s
                == scale || (s <= -21 && scale <= -21) || (s >= d.len() + 14 && scale >= d.len()
                + 14)),
        },
{
    let whole_end = scan_digits(body, 0);
    let dotted = whole_end < body.len() && body[whole_end] == '.';
    let fraction_start: usize = if dotted { whole_end + 1 } else { whole_end };
    let fraction_end = scan_digits(body, fraction_start);
    let mut digits: Vec<u8> = Vec::new();
    push_digits(&mut digits, body, 0, whole_end);
    push_digits(&mut digits, body, fraction_start, fraction_end);
    proof {
        let a = body@.subrange(0, whole_end as int);
        let b = body@.subrange(fraction_start as int, fraction_end as int);
        assert(digits@ == digit_values(a + b));
    }
    let places: i128 = (fraction_end - fraction_start) as i128;
    if digits.len() == 0 {
        return None;
    }
    if fraction_end == body.len() {
        return Some((digits, places));
    }
    if body[fraction_end] != 'e' && body[fraction_end] != 'E' {
        return None;
    }
    let mark: usize = fraction_end + 1;
    let signed = mark < body.len() && (body[mark] == '+' || body[mark] == '-');
    let exponent_start: usize = if signed { mark + 1 } else { mark };
    let exponent_end = scan_digits(body, exponent_start);
    if exponent_end == exponent_start || exponent_end != body.len() {
        return None;
    }
    let magnitude = capped_value(body, exponent_start, exponent_end);
    let scale: i128 = if signed && body[mark] == '-' {
        places + magnitude as i128
    } else {
        places - magnitude as i128
    };
    Some((digits, scale))
}

/// The multiplier of a unit letter.
fn multiplier_of(unit: char) -> (r: Option<u64>)
    ensures
        match r {
            Some(m) => unit_multiplier(unit) == Some(m as nat),
            None => unit_multiplier(unit) is None,
        },
{
    if unit == 'B' {
        Some(1)
    } else if unit == 'K' {
        Some(0x400)
    } else if unit == 'M' {
        Some(0x10_0000)
    } else if unit == 'G' {
        Some(0x4000_0000)
    } else if unit == 'T' {
        Some(0x100_0000_0000)
    } else {
        None
    }
}

/// Reads a size such as `100M` or `16G` as a number of bytes. The result is
/// `Ok(None)` where the last character is no unit, and an error where no
/// number stands before it.
pub fn convert_to_byte_size(size_str: &str) -> (r: Result<Option<u64>, Error>)
    ensures
        match r {
            Ok(size) => byte_size(size_str@) == Ok::<Option<u64>, Seq<char>>(size),
            Err(e) => e@.kind == ErrorKind::InvalidSize && byte_size(size_str@) == Err::<
                Option<u64>,
                Seq<char>,
            >(e@.message),
        },
{
    let all = to_chars(size_str);
    let t = trim(&all);
    if t.len() == 0 {
        return Err(Error::new(ErrorKind::InvalidSize, "".to_string()));
    }
    if t.len() == 1 {
        return Err(
            Error::new(
                ErrorKind::InvalidSize,
                "Error parsing unit size: cannot parse float from empty string".to_string(),
            ),
        );
    }
    let unit = t[t.len() - 1];
    let signed = t[0] == '+' || t[0] == '-';
    let negative = signed && t[0] == '-';
    let start: usize = if signed { 1 } else { 0 };
    let mut body: Vec<char> = Vec::new();
    let mut i: usize = start;
    while i < t.len() - 1
        invariant
            start <= i <= t.len() - 1,
            body@ == t@.subrange(start as int, i as int),
        decreases t.len() - i,
    {
        body.push(t[i]);
        i += 1;
    }
    proof {
        let s = t@.drop_last();
        assert(s.len() > 0);
        assert(s[0] == t@[0]);
        if signed {
            assert(body@ == s.skip(1));
        } else {
            assert(body@ == s);
        }
    }
    let multiplier = multiplier_of(unit);
    if spells_word(&body, "inf", "INF") || spells_word(&body, "infinity", "INFINITY") {
        return match multiplier {
            None => Ok(None),
            Some(_) => Ok(Some(if negative { 0 } else { u64::MAX })),
        };
    }
    if spells_word(&body, "nan", "NAN") {
        return match multiplier {
            None => Ok(None),
            Some(_) => Ok(Some(0)),
        };
    }
    match parse_finite(&body) {
        None => Err(
            Error::new(
                ErrorKind::InvalidSize,
                "Error parsing unit size: invalid float literal".to_string(),
            ),
        ),
        Some((digits, scale)) => match multiplier {
            None => Ok(None),
            Some(m) => {
                if negative {
                    Ok(Some(0))
                } else {
                    proof {
                        let exact = finite_number(body@)->Some_0.1;
                        if scale as int != exact {
                            lemma_far_scales(digits@, scale as int, exact, m as nat);
                        }
                    }
                    Ok(Some(scaled_bytes(&digits, scale, m)))
                }
            },
        },
    }
}

/// A run of digits runs to its end.
proof fn lemma_digit_run_to_the_end(s: Seq<char>, from: int)
    requires
        0 <= from <= s.len(),
        forall|i: int| from <= i < s.len() ==> is_digit(s[i]),
    ensures
        digit_run(s, from) == s.len(),
    decreases s.len() - from,
{
    if from < s.len() {
        lemma_digit_run_to_the_end(s, from + 1);
    }
}

/// A whole number of units is that number times the size of the unit: a
/// size string made of digits and a unit letter, and nothing else, means
/// the number that the digits write times the bytes in the unit, as far as
/// 64 bits go.
pub proof fn law_whole_number_of_units(digits: Seq<char>, unit: char)
    requires
        digits.len() > 0,
        forall|i: int| 0 <= i < digits.len() ==> is_digit(digits[i]),
        unit_multiplier(unit) is Some,
    ensures
        byte_size(digits.push(unit)) == Ok::<Option<u64>, Seq<char>>(
            Some(
                saturated(digits_value(digit_values(digits)) * unit_multiplier(unit)->Some_0),
            ),
        ),
{
    let s = digits.push(unit);
    assert(s[0] == digits[0]);
    assert(is_digit(s[0]));
    assert(!is_whitespace(s[0]));
    assert(trim_start(s) == s);
    assert(s.last() == unit);
    assert(!is_whitespace(unit));
    assert(trimmed(s) == s);
    assert(s.drop_last() =~= digits);
    assert(!is_sign(digits[0]));
    reveal_strlit("inf");
    reveal_strlit("INF");
    reveal_strlit("infinity");
    reveal_strlit("INFINITY");
    reveal_strlit("nan");
    reveal_strlit("NAN");
    assert(!spells(digits, "inf"@, "INF"@)) by {
        if digits.len() == 3 {
            assert(digits[0] != "inf"@[0] && digits[0] != "INF"@[0]);
        }
    }
    assert(!spells(digits, "infinity"@, "INFINITY"@)) by {
        if digits.len() == 8 {
            assert(digits[0] != "infinity"@[0] && digits[0] != "INFINITY"@[0]);
        }
    }
    assert(!spells(digits, "nan"@, "NAN"@)) by {
        if digits.len() == 3 {
            assert(digits[0] != "nan"@[0] && digits[0] != "NAN"@[0]);
        }
    }
    lemma_digit_run_to_the_end(digits, 0);
    lemma_digit_run_to_the_end(digits, digits.len() as int);
    let len = digits.len() as int;
    assert(digits.subrange(0, len) + digits.subrange(len, len) =~= digits);
    assert(finite_number(digits) == Some((digit_values(digits), 0int)));
    let value = digits_value(digit_values(digits));
    let multiplier = unit_multiplier(unit)->Some_0;
    assert(pow10(0) == 1);
    assert(value * 1 * multiplier == value * multiplier) by (nonlinear_arith);
}

} // verus!
