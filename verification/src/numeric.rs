//! The numeric tower: arithmetic on two numbers, each an integer, an exact
//! rational or a floating-point number.
//!
//! Two exact operands give the exact result, in lowest terms, as an integer
//! where the denominator is one. Where an operand is a floating-point
//! number, the other is widened and the floating-point unit computes.
use vstd::prelude::*;
use vstd::string::*;
use crate::error::{outcome, EvalError, EvalResult, Fault};
use crate::float::{ask_bits, float_model, is_zero, is_zero_bits, unit_ok, FloatAnswer, FloatCall, FloatModel};
use crate::ratio::{
    fits_i64, gcd_model, lemma_reduce_keeps_value, lemma_reduce_lowest_terms, magnitude, reduce_model,
    reduce_wide, Ratio,
};
use crate::value::{Datum, DialVal};

verus! {

/// The four operations of the tower.
#[derive(Debug, Clone, Copy)]
pub enum ArithOp {
    Add,
    Sub,
    Mul,
    Div,
}

/// What a division by zero is called.
pub open spec fn msg_divide_by_zero() -> Seq<char> {
    "cannot divide by zero"@
}

/// What a result beyond 64 bits is called.
pub open spec fn msg_overflow() -> Seq<char> {
    "integer overflow"@
}

/// What a rational with a zero or negative denominator is called.
pub open spec fn msg_malformed_ratio() -> Seq<char> {
    "ratio without a positive denominator"@
}

/// What arithmetic expects of an operand.
pub open spec fn msg_number() -> Seq<char> {
    "number"@
}

/// Whether a value is a number.
pub open spec fn is_numeric(d: Datum) -> bool {
    d is Int || d is Float || d is Ratio
}

/// The rational `n / d` as a value: in lowest terms, an integer where the
/// reduced denominator is one, an overflow error where a reduced part does
/// not fit in 64 bits. Meaningful for `d != 0`.
pub open spec fn normalize_model(n: int, d: int) -> Result<Datum, Fault> {
    let p = reduce_model(n, d).0;
    let q = reduce_model(n, d).1;
    if !fits_i64(p) || !fits_i64(q) {
        Err(Fault::InvalidArgumentError(msg_overflow()))
    } else if q == 1 {
        Ok(Datum::Int(p))
    } else {
        Ok(Datum::Ratio(p, q))
    }
}

/// Numerator and denominator of an exact number.
pub open spec fn parts(d: Datum) -> (int, int) {
    match d {
        Datum::Int(i) => (i, 1),
        Datum::Ratio(n, m) => (n, m),
        _ => (0, 1),
    }
}

/// The result of an operation on two exact numbers.
pub open spec fn exact_model(op: ArithOp, a: Datum, b: Datum) -> Result<Datum, Fault> {
    let n1 = parts(a).0;
    let d1 = parts(a).1;
    let n2 = parts(b).0;
    let d2 = parts(b).1;
    if d1 <= 0 || d2 <= 0 {
        Err(Fault::InvalidArgumentError(msg_malformed_ratio()))
    } else {
        match op {
            ArithOp::Add => normalize_model(n1 * d2 + n2 * d1, d1 * d2),
            ArithOp::Sub => normalize_model(n1 * d2 - n2 * d1, d1 * d2),
            ArithOp::Mul => normalize_model(n1 * n2, d1 * d2),
            ArithOp::Div => if n2 == 0 {
                Err(Fault::InvalidArgumentError(msg_divide_by_zero()))
            } else {
                normalize_model(n1 * d2, d1 * n2)
            },
        }
    }
}

/// The floating-point number that stands for a number.
pub open spec fn widen_model(fm: FloatModel, d: Datum) -> Result<u64, Fault> {
    match d {
        Datum::Float(bits) => Ok(bits),
        Datum::Int(i) => Ok((fm.bits)(FloatCall::FromInt(i as i64))),
        Datum::Ratio(n, m) => if m <= 0 {
            Err(Fault::InvalidArgumentError(msg_malformed_ratio()))
        } else {
            Ok((fm.bits)(FloatCall::FromRatio(n as i64, m as i64)))
        },
        _ => Err(Fault::TypeError(msg_number())),
    }
}

/// The result of an operation on two floating-point numbers. A division by
/// either zero is an error.
pub open spec fn floating_model(fm: FloatModel, op: ArithOp, a: u64, b: u64) -> Result<Datum, Fault> {
    match op {
        ArithOp::Add => Ok(Datum::Float((fm.bits)(FloatCall::Add(a, b)))),
        ArithOp::Sub => Ok(Datum::Float((fm.bits)(FloatCall::Sub(a, b)))),
        ArithOp::Mul => Ok(Datum::Float((fm.bits)(FloatCall::Mul(a, b)))),
        ArithOp::Div => if is_zero_bits(b) {
            Err(Fault::InvalidArgumentError(msg_divide_by_zero()))
        } else {
            Ok(Datum::Float((fm.bits)(FloatCall::Div(a, b))))
        },
    }
}

/// The result of an operation on two values.
pub open spec fn pair_model(fm: FloatModel, op: ArithOp, a: Datum, b: Datum) -> Result<Datum, Fault> {
    if !is_numeric(a) || !is_numeric(b) {
        Err(Fault::TypeError(msg_number()))
    } else if a is Float || b is Float {
        match widen_model(fm, a) {
            Err(e) => Err(e),
            Ok(x) => match widen_model(fm, b) {
                Err(e) => Err(e),
                Ok(y) => floating_model(fm, op, x, y),
            },
        }
    } else {
        exact_model(op, a, b)
    }
}

/// Whether a number is as the tower makes it: an integer within 64 bits, a
/// floating-point number, or a rational within 64 bits, in lowest terms,
/// with a denominator of at least two.
pub open spec fn canonical(d: Datum) -> bool {
    match d {
        Datum::Int(i) => fits_i64(i),
        Datum::Float(_) => true,
        Datum::Ratio(p, q) => fits_i64(p) && fits_i64(q) && q >= 2 && gcd_model(
            magnitude(p),
            q as nat,
        ) == 1,
        _ => false,
    }
}

/// The value of `n / d` is canonical and equals `n / d`: a rational never
/// has the denominator one, zero or a negative one, and an integer is
/// given only where `d` divides `n`.
pub proof fn lemma_normalize_canonical(n: int, d: int)
    requires
        d != 0,
    ensures
        match normalize_model(n, d) {
            Ok(Datum::Ratio(p, q)) => canonical(Datum::Ratio(p, q)) && p * d == n * q,
            Ok(Datum::Int(p)) => fits_i64(p) && p * d == n,
            Ok(_) => false,
            Err(f) => f == Fault::InvalidArgumentError(msg_overflow()),
        },
{
    lemma_reduce_keeps_value(n, d);
    lemma_reduce_lowest_terms(n, d);
}

/// Every number that the tower gives is canonical.
pub proof fn lemma_pair_canonical(fm: FloatModel, op: ArithOp, a: Datum, b: Datum)
    ensures
        pair_model(fm, op, a, b) matches Ok(v) ==> canonical(v),
{
    if is_numeric(a) && is_numeric(b) && !(a is Float || b is Float) {
        let n1 = parts(a).0;
        let d1 = parts(a).1;
        let n2 = parts(b).0;
        let d2 = parts(b).1;
        if d1 > 0 && d2 > 0 {
            assert(d1 * d2 != 0) by (nonlinear_arith)
                requires
                    d1 > 0,
                    d2 > 0,
            ;
            lemma_normalize_canonical(n1 * d2 + n2 * d1, d1 * d2);
            lemma_normalize_canonical(n1 * d2 - n2 * d1, d1 * d2);
            lemma_normalize_canonical(n1 * n2, d1 * d2);
            if n2 != 0 {
                assert(d1 * n2 != 0) by (nonlinear_arith)
                    requires
                        d1 > 0,
                        n2 != 0,
                ;
                lemma_normalize_canonical(n1 * d2, d1 * n2);
            }
        }
    }
}

/// The rational `n / d` as a value.
pub fn normalize(n: i128, d: i128) -> (r: EvalResult)
    requires
        d != 0,
        n > i128::MIN,
        d > i128::MIN,
    ensures
        outcome(r) == normalize_model(n as int, d as int),
{
    let (p, q) = reduce_wide(n, d);
    if p < -0x8000_0000_0000_0000i128 || p > 0x7fff_ffff_ffff_ffffi128 || q
        > 0x7fff_ffff_ffff_ffffi128 {
        Err(EvalError::InvalidArgumentError(String::from_str("integer overflow")))
    } else if q == 1 {
        Ok(DialVal::Int(p as i64))
    } else {
        Ok(DialVal::Ratio(Ratio { num: p as i64, den: q as i64 }))
    }
}

/// The value of `num / den`: the rational in lowest terms, or the integer
/// it equals. A zero denominator is an error.
pub fn new_ratio(num: i64, den: i64) -> (r: EvalResult)
    ensures
        outcome(r) == if den == 0 {
            Err(Fault::InvalidArgumentError(msg_divide_by_zero()))
        } else {
            normalize_model(num as int, den as int)
        },
{
    if den == 0 {
        Err(EvalError::InvalidArgumentError(String::from_str("cannot divide by zero")))
    } else {
        normalize(num as i128, den as i128)
    }
}

/// Numerator and denominator of an exact number.
fn parts_of(v: &DialVal) -> (r: (i64, i64))
    ensures
        r.0 == parts(v@).0,
        r.1 == parts(v@).1,
{
    match v {
        DialVal::Int(i) => (*i, 1),
        DialVal::Ratio(q) => (q.num, q.den),
        _ => (0, 1),
    }
}

/// Products of two 64-bit integers, one of them positive, stay well inside
/// 128 bits.
proof fn lemma_product_bounds(a: int, b: int)
    requires
        -0x8000_0000_0000_0000 <= a <= 0x7fff_ffff_ffff_ffff,
        -0x8000_0000_0000_0000 <= b <= 0x7fff_ffff_ffff_ffff,
    ensures
        -0x4000_0000_0000_0000_0000_0000_0000_0000 < a * b <= 0x4000_0000_0000_0000_0000_0000_0000_0000,
        b > 0 ==> -0x4000_0000_0000_0000_0000_0000_0000_0000 < a * b
            < 0x4000_0000_0000_0000_0000_0000_0000_0000,
        a != 0 && b != 0 ==> a * b != 0,
{
    assert(-0x4000_0000_0000_0000_0000_0000_0000_0000 < a * b
        <= 0x4000_0000_0000_0000_0000_0000_0000_0000) by (nonlinear_arith)
        requires
            -0x8000_0000_0000_0000 <= a <= 0x7fff_ffff_ffff_ffff,
            -0x8000_0000_0000_0000 <= b <= 0x7fff_ffff_ffff_ffff,
    ;
    assert(b > 0 ==> -0x4000_0000_0000_0000_0000_0000_0000_0000 < a * b
        < 0x4000_0000_0000_0000_0000_0000_0000_0000) by (nonlinear_arith)
        requires
            -0x8000_0000_0000_0000 <= a <= 0x7fff_ffff_ffff_ffff,
            -0x8000_0000_0000_0000 <= b <= 0x7fff_ffff_ffff_ffff,
    ;
    assert(a != 0 && b != 0 ==> a * b != 0) by (nonlinear_arith);
}

/// An operation on two exact numbers.
pub fn exact(op: ArithOp, a: &DialVal, b: &DialVal) -> (r: EvalResult)
    requires
        a@ is Int || a@ is Ratio,
        b@ is Int || b@ is Ratio,
    ensures
        outcome(r) == exact_model(op, a@, b@),
{
    let (n1, d1) = parts_of(a);
    let (n2, d2) = parts_of(b);
    if d1 <= 0 || d2 <= 0 {
        return Err(
            EvalError::InvalidArgumentError(String::from_str("ratio without a positive denominator")),
        );
    }
    let n1: i128 = n1 as i128;
    let d1: i128 = d1 as i128;
    let n2: i128 = n2 as i128;
    let d2: i128 = d2 as i128;
    proof {
        lemma_product_bounds(n1 as int, d2 as int);
        lemma_product_bounds(n2 as int, d1 as int);
        lemma_product_bounds(d1 as int, d2 as int);
        lemma_product_bounds(n1 as int, n2 as int);
        lemma_product_bounds(d1 as int, n2 as int);
    }
    match op {
        ArithOp::Add => normalize(n1 * d2 + n2 * d1, d1 * d2),
        ArithOp::Sub => normalize(n1 * d2 - n2 * d1, d1 * d2),
        ArithOp::Mul => normalize(n1 * n2, d1 * d2),
        ArithOp::Div => {
            if n2 == 0 {
                Err(EvalError::InvalidArgumentError(String::from_str("cannot divide by zero")))
            } else {
                normalize(n1 * d2, d1 * n2)
            }
        },
    }
}

/// The floating-point number that stands for a number.
pub fn widen<H: Fn(FloatCall) -> FloatAnswer>(v: &DialVal, fpu: &H) -> (r: Result<u64, EvalError>)
    requires
        unit_ok(fpu),
    ensures
        match r {
            Ok(bits) => widen_model(float_model(fpu), v@) == Ok::<u64, Fault>(bits),
            Err(e) => widen_model(float_model(fpu), v@) == Err::<u64, Fault>(e@),
        },
{
    match v {
        DialVal::Float(bits) => Ok(*bits),
        DialVal::Int(i) => Ok(ask_bits(fpu, FloatCall::FromInt(*i))),
        DialVal::Ratio(q) => {
            if q.den <= 0 {
                Err(
                    EvalError::InvalidArgumentError(
                        String::from_str("ratio without a positive denominator"),
                    ),
                )
            } else {
                Ok(ask_bits(fpu, FloatCall::FromRatio(q.num, q.den)))
            }
        },
        _ => Err(EvalError::TypeError(String::from_str("number"))),
    }
}

/// An operation on two floating-point numbers.
pub fn floating<H: Fn(FloatCall) -> FloatAnswer>(op: ArithOp, a: u64, b: u64, fpu: &H) -> (r: EvalResult)
    requires
        unit_ok(fpu),
    ensures
        outcome(r) == floating_model(float_model(fpu), op, a, b),
{
    match op {
        ArithOp::Add => Ok(DialVal::Float(ask_bits(fpu, FloatCall::Add(a, b)))),
        ArithOp::Sub => Ok(DialVal::Float(ask_bits(fpu, FloatCall::Sub(a, b)))),
        ArithOp::Mul => Ok(DialVal::Float(ask_bits(fpu, FloatCall::Mul(a, b)))),
        ArithOp::Div => {
            if is_zero(b) {
                Err(EvalError::InvalidArgumentError(String::from_str("cannot divide by zero")))
            } else {
                Ok(DialVal::Float(ask_bits(fpu, FloatCall::Div(a, b))))
            }
        },
    }
}

/// Whether a value is a number.
pub fn is_numeric_value(v: &DialVal) -> (r: bool)
    ensures
        r == is_numeric(v@),
{
    match v {
        DialVal::Int(_) => true,
        DialVal::Float(_) => true,
        DialVal::Ratio(_) => true,
        _ => false,
    }
}

/// Whether a value is a floating-point number.
pub fn is_float_value(v: &DialVal) -> (r: bool)
    ensures
        r == (v@ is Float),
{
    match v {
        DialVal::Float(_) => true,
        _ => false,
    }
}

/// An operation of the tower on two values.
pub fn pair<H: Fn(FloatCall) -> FloatAnswer>(op: ArithOp, a: &DialVal, b: &DialVal, fpu: &H) -> (r:
    EvalResult)
    requires
        unit_ok(fpu),
    ensures
        outcome(r) == pair_model(float_model(fpu), op, a@, b@),
{
    if !is_numeric_value(a) || !is_numeric_value(b) {
        Err(EvalError::TypeError(String::from_str("number")))
    } else if is_float_value(a) || is_float_value(b) {
        match widen(a, fpu) {
            Err(e) => Err(e),
            Ok(x) => match widen(b, fpu) {
                Err(e) => Err(e),
                Ok(y) => floating(op, x, y, fpu),
            },
        }
    } else {
        exact(op, a, b)
    }
}

} // verus!
