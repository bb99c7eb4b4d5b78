//! Exact rationals: greatest common divisor, reduction to lowest terms and
//! the `Ratio` value, which is always reduced with a denominator of at
//! least two.
use vstd::prelude::*;

verus! {

/// An exact rational number that is not an integer. As the arithmetic of
/// this library produces it, it is in lowest terms with a denominator of
/// at least two.
#[derive(Debug, Clone, Copy)]
pub struct Ratio {
    pub num: i64,
    pub den: i64,
}

/// The magnitude of an integer.
pub open spec fn magnitude(i: int) -> nat {
    if i < 0 {
        (-i) as nat
    } else {
        i as nat
    }
}

/// The greatest common divisor of two naturals, with `gcd(a, 0) == a`.
pub open spec fn gcd_model(a: nat, b: nat) -> nat
    decreases b,
{
    if b == 0 {
        a
    } else {
        gcd_model(b, a % b)
    }
}

/// `n / d` in lowest terms with a positive denominator: both magnitudes
/// divided by their greatest common divisor, the sign carried by the
/// numerator. Meaningful for `d != 0`.
pub open spec fn reduce_model(n: int, d: int) -> (int, int) {
    let g = gcd_model(magnitude(n), magnitude(d));
    let q = (magnitude(n) / g) as int;
    (
        if (n < 0) != (d < 0) {
            -q
        } else {
            q
        },
        (magnitude(d) / g) as int,
    )
}

/// Whether an integer fits in 64 signed bits.
pub open spec fn fits_i64(i: int) -> bool {
    i64::MIN <= i <= i64::MAX
}

/// The greatest common divisor is positive unless both arguments are zero.
pub proof fn lemma_gcd_positive(a: nat, b: nat)
    requires
        a > 0 || b > 0,
    ensures
        gcd_model(a, b) > 0,
    decreases b,
{
    if b != 0 {
        lemma_gcd_positive(b, a % b);
    }
}

/// The greatest common divisor never exceeds the larger argument, and
/// never exceeds a positive second argument.
pub proof fn lemma_gcd_bounded(a: nat, b: nat)
    ensures
        gcd_model(a, b) <= a || gcd_model(a, b) <= b,
        b > 0 ==> gcd_model(a, b) <= b,
        b == 0 ==> gcd_model(a, b) == a,
    decreases b,
{
    if b != 0 {
        lemma_gcd_bounded(b, a % b);
    }
}

/// A multiple of `b` plus `r` is divisible by `g` when `b` and `r` are.
proof fn lemma_divides_sum(g: int, b: int, q: int, r: int)
    requires
        g > 0,
        b % g == 0,
        r % g == 0,
    ensures
        (b * q + r) % g == 0,
        (r - b * q) % g == 0,
{
    vstd::arithmetic::div_mod::lemma_mul_mod_noop_general(b, q, g);
    assert((b * q) % g == 0) by {
        assert(0 * q == 0);
        vstd::arithmetic::div_mod::lemma_small_mod(0, g as nat);
    }
    vstd::arithmetic::div_mod::lemma_add_mod_noop(b * q, r, g);
    vstd::arithmetic::div_mod::lemma_sub_mod_noop(r, b * q, g);
    vstd::arithmetic::div_mod::lemma_small_mod(0, g as nat);
}

/// The greatest common divisor divides both arguments.
pub proof fn lemma_gcd_divides(a: nat, b: nat)
    requires
        a > 0 || b > 0,
    ensures
        a % gcd_model(a, b) == 0,
        b % gcd_model(a, b) == 0,
    decreases b,
{
    let g = gcd_model(a, b);
    lemma_gcd_positive(a, b);
    if b == 0 {
        vstd::arithmetic::div_mod::lemma_mod_self_0(a as int);
    } else {
        let r = a % b;
        lemma_gcd_divides(b, r);
        vstd::arithmetic::div_mod::lemma_fundamental_div_mod(a as int, b as int);
        lemma_divides_sum(g as int, b as int, (a / b) as int, r as int);
    }
}

/// Every common divisor of the arguments divides their greatest common
/// divisor.
pub proof fn lemma_gcd_greatest(a: nat, b: nat, c: nat)
    requires
        c > 0,
        a % c == 0,
        b % c == 0,
    ensures
        gcd_model(a, b) % c == 0,
    decreases b,
{
    if b != 0 {
        let r = a % b;
        vstd::arithmetic::div_mod::lemma_fundamental_div_mod(a as int, b as int);
        lemma_divides_sum(c as int, b as int, (a / b) as int, a as int);
        assert(r == a - b * (a / b));
        lemma_gcd_greatest(b, r, c);
    }
}

/// A natural that a positive divisor divides is the divisor times the
/// quotient.
proof fn lemma_exact_quotient(x: nat, g: nat)
    requires
        g > 0,
        x % g == 0,
    ensures
        x == g * (x / g),
        x == (x / g) * g,
{
    vstd::arithmetic::div_mod::lemma_fundamental_div_mod(x as int, g as int);
    vstd::arithmetic::mul::lemma_mul_is_commutative(g as int, (x / g) as int);
}

/// Reduction keeps the value: the reduced pair and the given pair are
/// equal as fractions, and the reduced denominator is positive.
pub proof fn lemma_reduce_keeps_value(n: int, d: int)
    requires
        d != 0,
    ensures
        reduce_model(n, d).1 > 0,
        reduce_model(n, d).0 * d == n * reduce_model(n, d).1,
{
    let an = magnitude(n);
    let ad = magnitude(d);
    let g = gcd_model(an, ad);
    lemma_gcd_positive(an, ad);
    lemma_gcd_divides(an, ad);
    lemma_exact_quotient(an, g);
    lemma_exact_quotient(ad, g);
    let a = an / g;
    let b = ad / g;
    assert(b > 0) by (nonlinear_arith)
        requires
            ad == b * g,
            ad > 0,
            g > 0,
    ;
    assert(a * (b * g) == (a * g) * b) by (nonlinear_arith);
    assert((-(a as int)) * (b * g) == -((a * g) * b)) by (nonlinear_arith);
    assert((a as int) * (-((b * g) as int)) == -((a * g) * b)) by (nonlinear_arith);
    assert((-(a as int)) * (-((b * g) as int)) == (a * g) * b) by (nonlinear_arith);
    assert((-((a * g) as int)) * b == -((a * g) * b)) by (nonlinear_arith);
}

/// Reduction gives lowest terms: the reduced numerator and denominator
/// have no common divisor but one.
pub proof fn lemma_reduce_lowest_terms(n: int, d: int)
    requires
        d != 0,
    ensures
        gcd_model(magnitude(reduce_model(n, d).0), reduce_model(n, d).1 as nat) == 1,
{
    let an = magnitude(n);
    let ad = magnitude(d);
    let g = gcd_model(an, ad);
    lemma_gcd_positive(an, ad);
    lemma_gcd_divides(an, ad);
    lemma_exact_quotient(an, g);
    lemma_exact_quotient(ad, g);
    let a = an / g;
    let b = ad / g;
    assert(b > 0) by (nonlinear_arith)
        requires
            ad == b * g,
            ad > 0,
            g > 0,
    ;
    assert(magnitude(reduce_model(n, d).0) == a);
    let c = gcd_model(a, b);
    lemma_gcd_positive(a, b);
    lemma_gcd_divides(a, b);
    lemma_exact_quotient(a, c);
    lemma_exact_quotient(b, c);
    let cg = c * g;
    assert(cg > 0) by (nonlinear_arith)
        requires
            cg == c * g,
            c > 0,
            g > 0,
    ;
    assert(an == (a / c) * cg) by (nonlinear_arith)
        requires
            an == a * g,
            a == (a / c) * c,
            cg == c * g,
    ;
    assert(ad == (b / c) * cg) by (nonlinear_arith)
        requires
            ad == b * g,
            b == (b / c) * c,
            cg == c * g,
    ;
    vstd::arithmetic::div_mod::lemma_mod_multiples_basic((a / c) as int, cg as int);
    vstd::arithmetic::div_mod::lemma_mod_multiples_basic((b / c) as int, cg as int);
    lemma_gcd_greatest(an, ad, cg);
    lemma_exact_quotient(g, cg);
    let k = g / cg;
    assert(c == 1) by (nonlinear_arith)
        requires
            g == k * cg,
            cg == c * g,
            g > 0,
            c > 0,
    ;
}

/// The greatest common divisor by Euclid's algorithm.
pub fn gcd_wide(a: u128, b: u128) -> (g: u128)
    ensures
        g == gcd_model(a as nat, b as nat),
{
    let mut x: u128 = a;
    let mut y: u128 = b;
    while y != 0
        invariant
            gcd_model(x as nat, y as nat) == gcd_model(a as nat, b as nat),
        decreases y,
    {
        let t: u128 = x % y;
        x = y;
        y = t;
    }
    x
}

/// The magnitude of a 64-bit integer.
pub fn magnitude_of(i: i64) -> (m: u64)
    ensures
        m == magnitude(i as int),
{
    if i < 0 {
        ((-(i as i128)) as u128) as u64
    } else {
        i as u64
    }
}

/// The greatest common divisor of the magnitudes of `a` and `b`.
pub fn gcd(a: i64, b: i64) -> (g: u64)
    ensures
        g == gcd_model(magnitude(a as int), magnitude(b as int)),
{
    let x = magnitude_of(a);
    let y = magnitude_of(b);
    proof {
        lemma_gcd_bounded(x as nat, y as nat);
    }
    gcd_wide(x as u128, y as u128) as u64
}

/// Reduces `n / d` to lowest terms with a positive denominator.
pub fn reduce_wide(n: i128, d: i128) -> (r: (i128, i128))
    requires
        d != 0,
        n > i128::MIN,
        d > i128::MIN,
    ensures
        r.0 == reduce_model(n as int, d as int).0,
        r.1 == reduce_model(n as int, d as int).1,
        r.1 > 0,
        r.0 > i128::MIN,
{
    let an: u128 = if n < 0 {
        (-n) as u128
    } else {
        n as u128
    };
    let ad: u128 = if d < 0 {
        (-d) as u128
    } else {
        d as u128
    };
    let g = gcd_wide(an, ad);
    proof {
        lemma_gcd_positive(an as nat, ad as nat);
        lemma_gcd_bounded(an as nat, ad as nat);
    }
    let qn: u128 = an / g;
    let qd: u128 = ad / g;
    assert(qn <= an && qd <= ad && qd > 0) by (nonlinear_arith)
        requires
            g > 0,
            g <= ad,
            qn == an / g,
            qd == ad / g,
    ;
    let num: i128 = if (n < 0) != (d < 0) {
        -(qn as i128)
    } else {
        qn as i128
    };
    (num, qd as i128)
}

/// Reduces `num / den` to lowest terms with a positive denominator.
/// There is no result when `den` is zero or when a reduced part does not
/// fit in 64 bits.
pub fn reduce_ratio(num: i64, den: i64) -> (r: Option<(i64, i64)>)
    ensures
        r == if den != 0 && fits_i64(reduce_model(num as int, den as int).0) && fits_i64(
            reduce_model(num as int, den as int).1,
        ) {
            Some((reduce_model(num as int, den as int).0 as i64, reduce_model(num as int, den as int).1 as i64))
        } else {
            None
        },
{
    if den == 0 {
        return None;
    }
    let (n, d) = reduce_wide(num as i128, den as i128);
    if n < -0x8000_0000_0000_0000i128 || n > 0x7fff_ffff_ffff_ffffi128 || d > 0x7fff_ffff_ffff_ffffi128 {
        None
    } else {
        Some((n as i64, d as i64))
    }
}

} // verus!
