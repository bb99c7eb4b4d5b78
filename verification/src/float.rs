//! The floating-point unit. The library carries a floating-point number as
//! its IEEE-754 binary64 bit pattern and leaves the arithmetic on such
//! numbers to a function that the caller supplies.
use vstd::prelude::*;
use vstd::string::*;

verus! {

/// A request to the floating-point unit.
#[derive(Debug, Clone, Copy)]
pub enum FloatCall {
    /// The number written in decimal as the first integer, a point and the
    /// second integer.
    Decimal(i64, i64),
    /// The number nearest to an integer.
    FromInt(i64),
    /// The number nearest to a rational, given as numerator and denominator.
    FromRatio(i64, i64),
    /// The sum of two numbers.
    Add(u64, u64),
    /// The first number less the second.
    Sub(u64, u64),
    /// The product of two numbers.
    Mul(u64, u64),
    /// The first number divided by the second, which is not zero.
    Div(u64, u64),
    /// The decimal text of a number.
    Show(u64),
}

/// The unit's answer: `bits` to a request for a number, `text` to `Show`.
pub struct FloatAnswer {
    pub bits: u64,
    pub text: String,
}

/// The mathematical model of a floating-point unit: the number it gives
/// for each request, and the text it gives for each number.
pub struct FloatModel {
    pub bits: spec_fn(FloatCall) -> u64,
    pub text: spec_fn(u64) -> Seq<char>,
}

/// Some answer that the unit may give to a request.
pub open spec fn answer_of<H: Fn(FloatCall) -> FloatAnswer>(fpu: &H, call: FloatCall) -> FloatAnswer {
    choose|r: FloatAnswer| call_ensures(*fpu, (call,), r)
}

/// The model of a unit.
pub open spec fn float_model<H: Fn(FloatCall) -> FloatAnswer>(fpu: &H) -> FloatModel {
    FloatModel {
        bits: |call: FloatCall| answer_of(fpu, call).bits,
        text: |bits: u64| answer_of(fpu, FloatCall::Show(bits)).text@,
    }
}

/// A unit is usable when it accepts every request and answers as a
/// function of the request alone.
pub open spec fn unit_ok<H: Fn(FloatCall) -> FloatAnswer>(fpu: &H) -> bool {
    &&& forall|call: FloatCall| #[trigger] call_requires(*fpu, (call,))
    &&& forall|call: FloatCall, r: FloatAnswer| #[trigger]
        call_ensures(*fpu, (call,), r) ==> r.bits == answer_of(fpu, call).bits && r.text@
            == answer_of(fpu, call).text@
}

/// Whether a bit pattern is one of the two zeros.
pub open spec fn is_zero_bits(bits: u64) -> bool {
    bits == 0 || bits == 0x8000_0000_0000_0000
}

/// Whether a number is zero, positive or negative.
pub fn is_zero(bits: u64) -> (r: bool)
    ensures
        r == is_zero_bits(bits),
{
    bits == 0 || bits == 0x8000_0000_0000_0000
}

/// The number that the unit gives for a request.
pub fn ask_bits<H: Fn(FloatCall) -> FloatAnswer>(fpu: &H, call: FloatCall) -> (r: u64)
    requires
        unit_ok(fpu),
    ensures
        r == (float_model(fpu).bits)(call),
{
    let answer = fpu(call);
    answer.bits
}

/// The text that the unit gives for a number.
pub fn ask_text<H: Fn(FloatCall) -> FloatAnswer>(fpu: &H, bits: u64) -> (r: String)
    requires
        unit_ok(fpu),
    ensures
        r@ == (float_model(fpu).text)(bits),
{
    let answer = fpu(FloatCall::Show(bits));
    answer.text
}

} // verus!
