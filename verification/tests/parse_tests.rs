use dial::parse::{parse_atom, parse_sexpr};
use dial::{DialVal, FloatAnswer, FloatCall};

fn unit(call: FloatCall) -> FloatAnswer {
    let bits = |x: f64| FloatAnswer { bits: x.to_bits(), text: String::new() };
    match call {
        FloatCall::Decimal(head, tail) => bits(format!("{}.{}", head, tail).parse::<f64>().unwrap()),
        FloatCall::FromInt(i) => bits(i as f64),
        FloatCall::FromRatio(n, d) => bits(n as f64 / d as f64),
        FloatCall::Add(a, b) => bits(f64::from_bits(a) + f64::from_bits(b)),
        FloatCall::Sub(a, b) => bits(f64::from_bits(a) - f64::from_bits(b)),
        FloatCall::Mul(a, b) => bits(f64::from_bits(a) * f64::from_bits(b)),
        FloatCall::Div(a, b) => bits(f64::from_bits(a) / f64::from_bits(b)),
        FloatCall::Show(b) => FloatAnswer { bits: b, text: format!("{}", f64::from_bits(b)) },
    }
}

fn float(x: f64) -> DialVal {
    DialVal::Float(x.to_bits())
}

fn atom(s: &str) -> Result<DialVal, dial::ParseError> {
    parse_atom(s.to_string(), &unit)
}

fn sexpr(s: &str) -> Result<DialVal, dial::ParseError> {
    parse_sexpr(s.to_string(), &unit)
}

#[test]
fn parse_valid_sym_works() {
    assert_eq!(atom("test"), Ok(DialVal::Sym("test".into())));
}

#[test]
fn parse_sexpr_with_whitespace_parses() {
    let input = "   ( 123   456 )";
    let result = sexpr(input);

    let expected = Ok(DialVal::List(vec![DialVal::Int(123), DialVal::Int(456)]));

    assert_eq!(result, expected, "could not parse {}", input);
}

#[test]
fn parse_sexpr_atom_parses() {
    let input = "123";
    let result = sexpr(input).unwrap();

    let expected = DialVal::Int(123);

    assert_eq!(result, expected);
}

#[test]
fn parse_sexpr_list_parses() {
    let input = "(123 456)";
    let result = sexpr(input);

    let expected = Ok(DialVal::List(vec![DialVal::Int(123), DialVal::Int(456)]));

    assert_eq!(result, expected, "could not parse {}", input);
}

#[test]
fn parse_sexpr_single_list_parses() {
    let input = "( 123 )";
    let result = sexpr(input);

    let expected = Ok(DialVal::List(vec![DialVal::Int(123)]));

    assert_eq!(result, expected, "could not parse {}", input);
}

#[test]
fn parse_atom_test() {
    let inputs = vec!["12", "-34.5", r#""foo bar""#, ":foo", "foo"];
    let res: Vec<DialVal> = inputs.iter().map(|s| atom(s).unwrap()).collect();

    assert_eq!(
        res,
        vec![
            DialVal::Int(12),
            float(-34.5),
            DialVal::Str("foo bar".into()),
            DialVal::Keyword("foo".into()),
            DialVal::Sym("foo".into())
        ]
    );

    let new_res = atom("(");
    assert!(new_res.is_err(), "res: {:?}", new_res);
}

#[test]
fn parse_odd_symbols_parse() {
    let inputs = vec!["+", "foo/bar", "baz-quux"];
    let res: Vec<DialVal> = inputs.iter().map(|s| atom(s).unwrap()).collect();

    assert_eq!(
        res,
        vec![
            DialVal::Sym("+".into()),
            DialVal::Sym("foo/bar".into()),
            DialVal::Sym("baz-quux".into())
        ]
    );
}

#[test]
fn parse_int_test() {
    let inputs = vec!["-123", "4", "0"];
    let res: Vec<DialVal> = inputs.iter().map(|s| atom(s).unwrap()).collect();

    assert_eq!(
        res,
        vec![DialVal::Int(-123), DialVal::Int(4), DialVal::Int(0)]
    );
}

#[test]
fn parse_float_test() {
    let inputs = vec!["0.123", "4.56", "-7.089"];
    let res: Vec<DialVal> = inputs.iter().map(|s| atom(s).unwrap()).collect();
    assert_eq!(res, vec![float(0.123), float(4.56), float(-7.89)]);
}

#[test]
fn vector_test() {
    let input = "[1 2 [3 4 5.5] (+ 6 7 [8 9 10])]";
    let result = sexpr(input);

    let expected = DialVal::Vec(vec![
        DialVal::Int(1).into(),
        DialVal::Int(2).into(),
        DialVal::Vec(vec![
            DialVal::Int(3).into(),
            DialVal::Int(4).into(),
            float(5.5).into(),
        ]),
        DialVal::List(vec![
            DialVal::Sym("+".into()).into(),
            DialVal::Int(6).into(),
            DialVal::Int(7).into(),
            DialVal::Vec(vec![
                DialVal::Int(8).into(),
                DialVal::Int(9).into(),
                DialVal::Int(10).into(),
            ]),
        ]),
    ]);

    assert_eq!(result, Ok(expected));
}

#[test]
fn bool_test() {
    let input = "true false truth falsy trueVal falseVal";
    let result: Vec<DialVal> = input.split(" ").map(|w| sexpr(w).unwrap()).collect();

    let expected = vec![
        DialVal::Bool(true),
        DialVal::Bool(false),
        DialVal::Sym("truth".into()),
        DialVal::Sym("falsy".into()),
        DialVal::Sym("trueVal".into()),
        DialVal::Sym("falseVal".into()),
    ];

    assert_eq!(result, expected);
}

#[test]
fn nil_test() {
    let input = "nil nill";

    let result: Vec<DialVal> = input.split(" ").map(|w| sexpr(w).unwrap()).collect();

    let expected = vec![DialVal::Nil, DialVal::Sym("nill".into())];

    assert_eq!(result, expected);
}
