//! Decimal rendering of integers and a few helpers on character strings.
use vstd::prelude::*;
use vstd::string::*;

verus! {

/// The character that stands for the decimal digit `d` (`0 <= d <= 9`).
pub open spec fn digit_char(d: nat) -> char {
    if d == 0 {
        '0'
    } else if d == 1 {
        '1'
    } else if d == 2 {
        '2'
    } else if d == 3 {
        '3'
    } else if d == 4 {
        '4'
    } else if d == 5 {
        '5'
    } else if d == 6 {
        '6'
    } else if d == 7 {
        '7'
    } else if d == 8 {
        '8'
    } else {
        '9'
    }
}

/// The decimal numeral of `n`, most significant digit first, without
/// leading zeros (`0` is written "0").
pub open spec fn decimal_model(n: nat) -> Seq<char>
    decreases n,
{
    if n < 10 {
        seq![digit_char(n)]
    } else {
        decimal_model(n / 10).push(digit_char(n % 10))
    }
}

/// The decimal numeral of a signed integer: a minus sign before the
/// numeral of the magnitude when `i` is negative.
pub open spec fn int_text_model(i: int) -> Seq<char> {
    if i < 0 {
        seq!['-'] + decimal_model((-i) as nat)
    } else {
        decimal_model(i as nat)
    }
}

/// The one-character string of a decimal digit.
fn digit_str(d: u8) -> (r: &'static str)
    requires
        d < 10,
    ensures
        r@ == seq![digit_char(d as nat)],
{
    proof {
        reveal_strlit("0");
        reveal_strlit("1");
        reveal_strlit("2");
        reveal_strlit("3");
        reveal_strlit("4");
        reveal_strlit("5");
        reveal_strlit("6");
        reveal_strlit("7");
        reveal_strlit("8");
        reveal_strlit("9");
    }
    let r = if d == 0 {
        "0"
    } else if d == 1 {
        "1"
    } else if d == 2 {
        "2"
    } else if d == 3 {
        "3"
    } else if d == 4 {
        "4"
    } else if d == 5 {
        "5"
    } else if d == 6 {
        "6"
    } else if d == 7 {
        "7"
    } else if d == 8 {
        "8"
    } else {
        "9"
    };
    assert(r@ =~= seq![digit_char(d as nat)]);
    r
}

/// Renders `n` in decimal.
pub fn decimal(n: u128) -> (r: String)
    ensures
        r@ == decimal_model(n as nat),
    decreases n,
{
    if n < 10 {
        String::from_str(digit_str(n as u8))
    } else {
        let mut s = decimal(n / 10);
        s.append(digit_str((n % 10) as u8));
        assert(s@ =~= decimal_model(n as nat));
        s
    }
}

/// Renders a signed integer in decimal.
pub fn int_text(i: i64) -> (r: String)
    ensures
        r@ == int_text_model(i as int),
{
    if i < 0 {
        let mag: u128 = (-(i as i128)) as u128;
        let mut s = String::from_str("-");
        let d = decimal(mag);
        s.append(d.as_str());
        proof {
            reveal_strlit("-");
            assert(s@ =~= int_text_model(i as int));
        }
        s
    } else {
        decimal(i as u128)
    }
}

} // verus!
