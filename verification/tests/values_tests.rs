use dial::builtin::add;
use dial::numeric::{pair, ArithOp};
use dial::{DialVal, Env, FloatAnswer, FloatCall, Ratio};

fn unit(call: FloatCall) -> FloatAnswer {
    let bits = |x: f64| FloatAnswer { bits: x.to_bits(), text: String::new() };
    match call {
        FloatCall::Decimal(head, tail) => bits(format!("{}.{}", head, tail).parse::<f64>().unwrap()),
        FloatCall::FromInt(i) => bits(i as f64),
        FloatCall::FromRatio(n, d) => bits(n as f64 / d as f64),
        FloatCall::Add(a, b) => bits(f64::from_bits(a) + f64::from_bits(b)),
        FloatCall::Sub(a, b) => bits(f64::from_bits(a) - f64::from_bits(b)),
        FloatCall::Mul(a, b) => bits(f64::from_bits(a) * f64::from_bits(b)),
        FloatCall::Div(a, b) => bits(f64::from_bits(a) / f64::from_bits(b)),
        FloatCall::Show(b) => FloatAnswer { bits: b, text: format!("{}", f64::from_bits(b)) },
    }
}

fn integer(i: i64) -> DialVal {
    DialVal::Int(i)
}

fn float(x: f64) -> DialVal {
    DialVal::Float(x.to_bits())
}

fn ratio(num: i64, den: i64) -> DialVal {
    DialVal::Ratio(Ratio { num, den })
}

fn plus(a: DialVal, b: DialVal) -> DialVal {
    pair(ArithOp::Add, &a, &b, &unit).unwrap()
}

fn minus(a: DialVal, b: DialVal) -> DialVal {
    pair(ArithOp::Sub, &a, &b, &unit).unwrap()
}

fn times(a: DialVal, b: DialVal) -> DialVal {
    pair(ArithOp::Mul, &a, &b, &unit).unwrap()
}

fn over(a: DialVal, b: DialVal) -> DialVal {
    pair(ArithOp::Div, &a, &b, &unit).unwrap()
}

#[test]
fn sum_should_sum_all_values() {
    let vals = vec![integer(1), integer(2)];

    let result = add(&vals, &mut Env::default(), &unit).unwrap();

    assert_eq!(result, integer(3));
}

#[test]
fn values_addition_int_defined() {
    let left = integer(1);
    let right = integer(2);

    assert_eq!(integer(3), plus(left, right));
}

#[test]
fn values_addition_mixed_type_defined() {
    assert_eq!(float(6.5), plus(integer(1), float(5.5)));
}

#[test]
fn values_subtraction_int_defined() {
    let left = integer(1);
    let right = integer(2);

    assert_eq!(integer(1), minus(right, left));
}

#[test]
fn values_subtraction_mixed_type_defined() {
    assert_eq!(float(4.5), minus(float(5.5), integer(1)));
}

#[test]
fn values_int_div_by_ratio() {
    let result = over(integer(2), ratio(1, 3));

    assert_eq!(result, integer(6));
}

#[test]
fn values_ratio_div_by_int() {
    let result = over(ratio(1, 3), integer(2));

    assert_eq!(result, ratio(1, 6));
}

#[test]
fn values_float_div_by_ratio() {
    let result = over(float(2.0), ratio(1, 2));

    assert_eq!(result, float(4.0));
}

#[test]
fn values_ratio_div_by_float() {
    let result = over(ratio(1, 2), float(2.0));

    assert_eq!(result, float(0.25));
}

#[test]
fn values_ratio_div_by_ratio() {
    let result = over(ratio(1, 4), ratio(1, 2));

    assert_eq!(result, ratio(1, 2));
}

#[test]
fn values_int_mul_by_ratio() {
    let result = times(integer(2), ratio(1, 3));

    assert_eq!(result, ratio(2, 3));
}

#[test]
fn values_ratio_mul_by_int() {
    let result = times(ratio(1, 3), integer(2));

    assert_eq!(result, ratio(2, 3));
}

#[test]
fn values_float_mul_by_ratio() {
    let result = times(float(2.0), ratio(1, 2));

    assert_eq!(result, float(1.0));
}

#[test]
fn values_ratio_mul_by_float() {
    let result = times(ratio(1, 2), float(2.0));

    assert_eq!(result, float(1.0));
}

#[test]
fn values_ratio_mul_by_ratio() {
    let result = times(ratio(1, 4), ratio(1, 2));

    assert_eq!(result, ratio(1, 8));
}

#[test]
fn values_int_add_by_ratio() {
    let result = times(integer(2), ratio(1, 3));

    assert_eq!(result, ratio(2, 3));
}

#[test]
fn values_ratio_add_by_int() {
    let result = plus(ratio(1, 3), integer(2));

    assert_eq!(result, ratio(7, 3));
}

#[test]
fn values_float_add_by_ratio() {
    let result = plus(float(2.0), ratio(1, 2));

    assert_eq!(result, float(2.5));
}

#[test]
fn values_ratio_add_by_float() {
    let result = plus(ratio(1, 2), float(2.0));

    assert_eq!(result, float(2.5));
}

#[test]
fn values_ratio_add_by_ratio() {
    let result = plus(ratio(1, 4), ratio(1, 2));

    assert_eq!(result, ratio(3, 4));
}

#[test]
fn values_int_sub_by_ratio() {
    let result = times(integer(2), ratio(1, 3));

    assert_eq!(result, ratio(2, 3));
}

#[test]
fn values_ratio_sub_by_int() {
    let result = minus(ratio(1, 2), integer(2));

    assert_eq!(result, ratio(-3, 2));
}

#[test]
fn values_float_sub_by_ratio() {
    let result = minus(float(2.0), ratio(1, 2));

    assert_eq!(result, float(1.5));
}

#[test]
fn values_ratio_sub_by_float() {
    let result = minus(ratio(1, 2), float(2.0));

    assert_eq!(result, float(-1.5));
}

#[test]
fn values_ratio_sub_by_ratio() {
    let result = minus(ratio(1, 4), ratio(1, 2));

    assert_eq!(result, ratio(-1, 4));
}
