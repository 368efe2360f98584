//! Exact arithmetic on decimal numbers given digit by digit: a number
//! `mantissa * 10^(-scale)` is multiplied by a small factor and rounded to
//! the nearest integer, halves away from zero, without ever leaving integer
//! arithmetic and however many digits the number has.

use vstd::prelude::*;
use vstd::arithmetic::div_mod::{
    lemma_div_denominator,
    lemma_fundamental_div_mod,
    lemma_fundamental_div_mod_converse,
};

verus! {

/// Ten to the power `n`.
pub open spec fn pow10(n: nat) -> nat
    decreases n,
{
    if n == 0 {
        1
    } else {
        10 * pow10((n - 1) as nat)
    }
}

/// The number written by the decimal digits `d`, most significant first.
pub open spec fn digits_value(d: Seq<u8>) -> nat
    decreases d.len(),
{
    if d.len() == 0 {
        0
    } else {
        digits_value(d.drop_last()) * 10 + d.last() as nat
    }
}

/// Every element is a decimal digit.
pub open spec fn all_digits(d: Seq<u8>) -> bool {
    forall|i: int| 0 <= i < d.len() ==> d[i] <= 9
}

/// `num / den` rounded to the nearest integer, halves upwards.
pub open spec fn round_half_up(num: nat, den: nat) -> nat {
    ((2 * num + den) / (2 * den)) as nat
}

/// `mantissa * 10^(-scale) * multiplier`, rounded to the nearest integer,
/// halves upwards.
pub open spec fn scaled(mantissa: nat, scale: int, multiplier: nat) -> nat {
    if scale <= 0 {
        mantissa * pow10((-scale) as nat) * multiplier
    } else {
        round_half_up(mantissa * multiplier, pow10(scale as nat))
    }
}

/// `x` where it fits in 64 bits, the largest 64-bit number where it does not.
pub open spec fn saturated(x: nat) -> u64 {
    if x >= u64::MAX {
        u64::MAX
    } else {
        x as u64
    }
}

pub proof fn lemma_pow10_positive(n: nat)
    ensures
        pow10(n) >= 1,
    decreases n,
{
    if n > 0 {
        lemma_pow10_positive((n - 1) as nat);
    }
}

pub proof fn lemma_pow10_adds(a: nat, b: nat)
    ensures
        pow10(a + b) == pow10(a) * pow10(b),
    decreases b,
{
    if b == 0 {
        assert(pow10(a) * 1 == pow10(a));
    } else {
        lemma_pow10_adds(a, (b - 1) as nat);
        assert(pow10(a + b) == 10 * pow10((a + b - 1) as nat));
        assert(10 * (pow10(a) * pow10((b - 1) as nat)) == pow10(a) * (10 * pow10((b - 1) as nat)))
            by (nonlinear_arith);
    }
}

pub proof fn lemma_pow10_monotone(a: nat, b: nat)
    requires
        a <= b,
    ensures
        pow10(a) <= pow10(b),
    decreases b,
{
    if a < b {
        lemma_pow10_monotone(a, (b - 1) as nat);
    }
}

/// Two landmarks: every 64-bit number is below `10^20`, and every number
/// below `2^42` is below `10^13`.
pub proof fn lemma_pow10_landmarks()
    ensures
        pow10(13) == 10_000_000_000_000,
        pow10(20) == 100_000_000_000_000_000_000,
        pow10(20) > u64::MAX,
{
    reveal_with_fuel(pow10, 21);
}

pub proof fn lemma_value_push(d: Seq<u8>, x: u8)
    ensures
        digits_value(d.push(x)) == digits_value(d) * 10 + x as nat,
{
    assert(d.push(x).drop_last() == d);
}

pub proof fn lemma_value_concat(a: Seq<u8>, b: Seq<u8>)
    ensures
        digits_value(a + b) == digits_value(a) * pow10(b.len()) + digits_value(b),
    decreases b.len(),
{
    if b.len() == 0 {
        assert(a + b == a);
        assert(digits_value(a) * 1 == digits_value(a));
    } else {
        lemma_value_concat(a, b.drop_last());
        assert((a + b).drop_last() == a + b.drop_last());
        let va = digits_value(a) as int;
        let p = pow10((b.len() - 1) as nat) as int;
        let vb = digits_value(b.drop_last()) as int;
        assert((va * p + vb) * 10 == va * (10 * p) + vb * 10) by (nonlinear_arith);
    }
}

pub proof fn lemma_value_bound(d: Seq<u8>)
    requires
        all_digits(d),
    ensures
        digits_value(d) < pow10(d.len()),
    decreases d.len(),
{
    if d.len() > 0 {
        lemma_value_bound(d.drop_last());
    }
}

/// A prefix is worth no more than the whole.
pub proof fn lemma_value_prefix(d: Seq<u8>, i: int)
    requires
        0 <= i <= d.len(),
    ensures
        digits_value(d.take(i)) <= digits_value(d),
{
    assert(d == d.take(i) + d.skip(i));
    lemma_value_concat(d.take(i), d.skip(i));
    lemma_pow10_positive(d.skip(i).len());
    let v = digits_value(d.take(i)) as int;
    let p = pow10(d.skip(i).len()) as int;
    assert(v * p >= v) by (nonlinear_arith)
        requires
            v >= 0,
            p >= 1,
    ;
}

/// Rounding to nearest is a floor of the doubled quotient, plus one, halved.
pub proof fn lemma_round_by_floor(num: nat, den: nat)
    requires
        den > 0,
    ensures
        round_half_up(num, den) == ((2 * num) / den + 1) / 2,
{
    let x = 2 * num as int;
    let d = den as int;
    let q = x / d;
    let r = x % d;
    lemma_fundamental_div_mod(x, d);
    assert((q + 1) * d + r == x + d) by (nonlinear_arith)
        requires
            x == d * q + r,
    ;
    lemma_fundamental_div_mod_converse(x + d, d, q + 1, r);
    lemma_div_denominator(x + d, d, 2);
    assert(d * 2 == 2 * d);
}

/// The quotient of `a * p + b` by `p * 10`, taken in two steps.
proof fn lemma_div_step(a: int, b: int, p: int)
    requires
        a >= 0,
        b >= 0,
        p > 0,
    ensures
        (a * p + b) / (p * 10) == (a + b / p) / 10,
{
    let q = b / p;
    let r = b % p;
    lemma_fundamental_div_mod(b, p);
    assert((a + q) * p + r == a * p + b) by (nonlinear_arith)
        requires
            b == p * q + r,
    ;
    lemma_fundamental_div_mod_converse(a * p + b, p, a + q, r);
    assert(a * p >= 0) by (nonlinear_arith)
        requires
            a >= 0,
            p > 0,
    ;
    lemma_div_denominator(a * p + b, p, 10);
}

/// The number written by `digits[..upto]` where it fits in 64 bits.
pub(crate) fn integer_part(digits: &Vec<u8>, upto: usize) -> (r: Option<u64>)
    requires
        upto <= digits.len(),
        all_digits(digits@),
    ensures
        match r {
            Some(v) => v == digits_value(digits@.take(upto as int)),
            None => digits_value(digits@.take(upto as int)) > u64::MAX,
        },
{
    let mut acc: u64 = 0;
    let mut i: usize = 0;
    assert(digits@.take(0).len() == 0);
    while i < upto
        invariant
            i <= upto <= digits.len(),
            all_digits(digits@),
            acc == digits_value(digits@.take(i as int)),
        decreases upto - i,
    {
        let d = digits[i];
        proof {
            assert(digits@.take(i + 1) == digits@.take(i as int).push(d));
            lemma_value_push(digits@.take(i as int), d);
            assert(digits@.take(upto as int).take(i + 1) == digits@.take(i + 1));
            lemma_value_prefix(digits@.take(upto as int), i + 1);
        }
        if acc > (u64::MAX - d as u64) / 10 {
            return None;
        }
        acc = acc * 10 + d as u64;
        i += 1;
    }
    Some(acc)
}

/// The whole part of `factor * 0.d`, where `0.d` is the decimal fraction
/// written by `zeros` zero digits followed by `digits[from..]`.
pub(crate) fn fraction_part(digits: &Vec<u8>, from: usize, zeros: u128, factor: u64) -> (r: u64)
    requires
        from <= digits.len(),
        all_digits(digits@),
        factor <= 0x400_0000_0000,
    ensures
        r == (factor * digits_value(digits@.skip(from as int))) / (pow10(
            (digits.len() - from + zeros) as nat,
        ) as int),
        r <= factor,
{
    let n = digits.len();
    let mut t: u64 = 0;
    let mut i: usize = n;
    assert(digits@.subrange(n as int, n as int).len() == 0);
    assert(pow10(0) == 1);
    assert(factor * 0 == 0);
    while i > from
        invariant
            from <= i <= n,
            n == digits.len(),
            all_digits(digits@),
            factor <= 0x400_0000_0000,
            t == (factor * digits_value(digits@.subrange(i as int, n as int))) / (pow10(
                (n - i) as nat,
            ) as int),
            t <= factor,
        decreases i,
    {
        i -= 1;
        let d = digits[i];
        proof {
            let rest = digits@.subrange(i + 1, n as int);
            let p = pow10((n - i - 1) as nat) as int;
            let v = digits_value(rest) as int;
            assert(digits@.subrange(i as int, n as int) == seq![d] + rest);
            lemma_value_concat(seq![d], rest);
            assert(seq![d] == Seq::<u8>::empty().push(d));
            lemma_value_push(Seq::<u8>::empty(), d);
            lemma_pow10_positive((n - i - 1) as nat);
            assert(factor * (d * p + v) == (factor * d) * p + factor * v) by (nonlinear_arith);
            assert(factor * d >= 0 && factor * v >= 0) by (nonlinear_arith)
                requires
                    factor >= 0,
                    d >= 0,
                    v >= 0,
            ;
            lemma_div_step(factor * d, factor * v, p);
            assert(pow10((n - i) as nat) == p * 10);
            assert(factor * d <= factor * 9) by (nonlinear_arith)
                requires
                    0 <= d <= 9,
                    factor >= 0,
            ;
        }
        t = (factor * (d as u64) + t) / 10;
    }
    assert(digits@.subrange(from as int, n as int) == digits@.skip(from as int));
    let ghost x = factor * digits_value(digits@.skip(from as int));
    let ghost len = (n - from) as nat;
    let mut z: u128 = zeros;
    while z > 0 && t > 0
        invariant
            z <= zeros,
            t == x / (pow10((len + zeros - z) as nat) as int),
            x >= 0,
            t <= factor,
        decreases z,
    {
        proof {
            let p = pow10((len + zeros - z) as nat) as int;
            lemma_pow10_positive((len + zeros - z) as nat);
            lemma_div_denominator(x, p, 10);
            assert(pow10((len + zeros - z + 1) as nat) == p * 10);
        }
        t = t / 10;
        z -= 1;
    }
    proof {
        let small = pow10((len + zeros - z) as nat) as int;
        let big = pow10((len + zeros) as nat) as int;
        lemma_pow10_positive((len + zeros - z) as nat);
        lemma_pow10_monotone((len + zeros - z) as nat, (len + zeros) as nat);
        if z > 0 {
            lemma_fundamental_div_mod(x, small);
            assert(small * 0 == 0);
            lemma_fundamental_div_mod_converse(x, big, 0, x);
        }
    }
    t
}

/// The digits of a number, its scale and a multiplier up to `2^40`, to the
/// rounded product, saturated at 64 bits.
pub(crate) fn scaled_bytes(digits: &Vec<u8>, scale: i128, multiplier: u64) -> (r: u64)
    requires
        all_digits(digits@),
        1 <= multiplier <= 0x100_0000_0000,
    ensures
        r == saturated(scaled(digits_value(digits@), scale as int, multiplier as nat)),
{
    let n = digits.len();
    let ghost mantissa = digits_value(digits@);
    assert(digits@.take(n as int) == digits@);
    if scale <= 0 {
        let whole = match integer_part(digits, n) {
            Some(v) => v,
            None => {
                proof {
                    lemma_pow10_positive((-scale) as nat);
                    let p = pow10((-scale) as nat) as int;
                    assert(mantissa * p * multiplier >= mantissa) by (nonlinear_arith)
                        requires
                            mantissa >= 0,
                            p >= 1,
                            multiplier >= 1,
                    ;
                }
                return u64::MAX;
            },
        };
        if whole == 0 {
            assert(0 * pow10((-scale) as nat) * multiplier == 0) by (nonlinear_arith);
            return 0;
        }
        if scale < -20 {
            proof {
                lemma_pow10_landmarks();
                lemma_pow10_monotone(20, (-scale) as nat);
                let p = pow10((-scale) as nat) as int;
                assert(mantissa * p * multiplier >= p) by (nonlinear_arith)
                    requires
                        mantissa >= 1,
                        p >= 1,
                        multiplier >= 1,
                ;
            }
            return u64::MAX;
        }
        let mut acc: u128 = whole as u128;
        let mut k: i128 = 0;
        assert(pow10(0) == 1);
        assert(mantissa * 1 == mantissa);
        while k < -scale
            invariant
                0 <= k <= -scale <= 20,
                mantissa == digits_value(digits@),
                acc == mantissa * pow10(k as nat),
                acc <= u64::MAX,
                mantissa >= 1,
                multiplier >= 1,
            decreases -scale - k,
        {
            proof {
                let p = pow10(k as nat) as int;
                assert(mantissa * (10 * p) == (mantissa * p) * 10) by (nonlinear_arith);
                assert(pow10((k + 1) as nat) == 10 * p);
            }
            acc = acc * 10;
            k += 1;
            if acc > u64::MAX as u128 {
                proof {
                    lemma_pow10_monotone(k as nat, (-scale) as nat);
                    let p = pow10(k as nat) as int;
                    let q = pow10((-scale) as nat) as int;
                    assert(acc == mantissa * p);
                    let m = mantissa as int;
                    let f = multiplier as int;
                    assert(m * q * f >= m * p) by (nonlinear_arith)
                        requires
                            m >= 1,
                            q >= p,
                            p >= 0,
                            f >= 1,
                    ;
                    assert(scaled(mantissa, scale as int, multiplier as nat) == m * q * f);
                }
                return u64::MAX;
            }
        }
        proof {
            assert(acc * multiplier <= 0xffff_ffff_ffff_ffff * 0x100_0000_0000) by (nonlinear_arith)
                requires
                    0 <= acc <= 0xffff_ffff_ffff_ffff,
                    0 <= multiplier <= 0x100_0000_0000,
            ;
        }
        let product: u128 = acc * (multiplier as u128);
        if product >= u64::MAX as u128 {
            u64::MAX
        } else {
            product as u64
        }
    } else {
        let (cut, zeros): (usize, u128) = if scale >= n as i128 {
            (0, (scale - n as i128) as u128)
        } else {
            (n - scale as usize, 0)
        };
        let ghost p = pow10(scale as nat) as int;
        let ghost fraction = digits_value(digits@.skip(cut as int)) as int;
        let ghost whole_value = digits_value(digits@.take(cut as int)) as int;
        proof {
            lemma_pow10_positive(scale as nat);
            lemma_round_by_floor(mantissa * (multiplier as nat), p as nat);
            assert(digits@ == digits@.take(cut as int) + digits@.skip(cut as int));
            lemma_value_concat(digits@.take(cut as int), digits@.skip(cut as int));
            if cut == 0 {
                assert(digits@.take(0).len() == 0);
                assert(whole_value == 0);
                lemma_pow10_positive((n - cut) as nat);
                assert(0 * pow10((n - cut) as nat) == 0);
            }
        }
        let factor: u64 = 2 * multiplier;
        let t = fraction_part(digits, cut, zeros, factor);
        assert((n - cut + zeros) as nat == scale as nat);
        let whole = match integer_part(digits, cut) {
            Some(v) => v,
            None => {
                proof {
                    // the rounded product is at least the whole part
                    assert(cut > 0);
                    assert(mantissa == whole_value * p + fraction);
                    let x = 2 * (mantissa * multiplier as int);
                    assert(x >= (2 * whole_value) * p) by (nonlinear_arith)
                        requires
                            x == 2 * (mantissa * multiplier as int),
                            mantissa == whole_value * p + fraction,
                            fraction >= 0,
                            multiplier >= 1,
                            whole_value >= 0,
                            p >= 1,
                    ;
                    vstd::arithmetic::div_mod::lemma_div_is_ordered((2 * whole_value) * p, x, p);
                    vstd::arithmetic::div_mod::lemma_div_multiples_vanish(2 * whole_value, p);
                    assert((2 * whole_value) * p == p * (2 * whole_value)) by (nonlinear_arith);
                }
                return u64::MAX;
            },
        };
        proof {
            // 2 * mantissa * multiplier == (factor * whole) * p + factor * fraction
            let x = 2 * (mantissa * multiplier as int);
            assert(x == (factor * whole) * p + factor * fraction) by (nonlinear_arith)
                requires
                    x == 2 * (mantissa * multiplier as int),
                    mantissa == whole * p + fraction,
                    factor == 2 * multiplier,
            ;
            let q = (factor * fraction) / p;
            let r = (factor * fraction) % p;
            lemma_fundamental_div_mod(factor * fraction, p);
            assert(factor * fraction >= 0) by (nonlinear_arith)
                requires
                    factor >= 0,
                    fraction >= 0,
            ;
            assert((factor * whole + q) * p + r == x) by (nonlinear_arith)
                requires
                    x == (factor * whole) * p + factor * fraction,
                    factor * fraction == p * q + r,
            ;
            lemma_fundamental_div_mod_converse(x, p, factor * whole + q, r);
            assert(x / p == factor * whole + t);
            assert(factor * whole <= 0x200_0000_0000 * 0xffff_ffff_ffff_ffff) by (nonlinear_arith)
                requires
                    0 <= factor <= 0x200_0000_0000,
                    0 <= whole <= 0xffff_ffff_ffff_ffff,
            ;
            assert(factor * whole >= 0) by (nonlinear_arith)
                requires
                    factor >= 0,
                    whole >= 0,
            ;
        }
        let doubled: u128 = (factor as u128) * (whole as u128) + t as u128;
        let rounded: u128 = (doubled + 1) / 2;
        if rounded >= u64::MAX as u128 {
            u64::MAX
        } else {
            rounded as u64
        }
    }
}

} // verus!
