use dial::parse::{parse_atom, parse_program, parse_sexpr};
use dial::{read, DialVal, FloatAnswer, FloatCall, ParseError};

fn unit(call: FloatCall) -> FloatAnswer {
    let bits = |x: f64| FloatAnswer { bits: x.to_bits(), text: String::new() };
    match call {
        FloatCall::Decimal(head, tail) => bits(format!("{}.{}", head, tail).parse::<f64>().unwrap()),
        FloatCall::FromInt(i) => bits(i as f64),
        FloatCall::FromRatio(n, d) => bits(n as f64 / d as f64),
        FloatCall::Add(a, b) => bits(f64::from_bits(a) + f64::from_bits(b)),
        FloatCall::Sub(a, b) => bits(f64::from_bits(a) - f64::from_bits(b)),
        FloatCall::Mul(a, b) => bits(f64::from_bits(a) * f64::from_bits(b)),
        FloatCall::Div(a, b) => bits(f64::from_bits(a) / f64::from_bits(b)),
        FloatCall::Show(b) => FloatAnswer { bits: b, text: format!("{}", f64::from_bits(b)) },
    }
}

fn float(x: f64) -> DialVal {
    DialVal::Float(x.to_bits())
}

fn sym(s: &str) -> DialVal {
    DialVal::Sym(s.to_string())
}

fn program(text: &str) -> Result<Vec<DialVal>, ParseError> {
    parse_program(text.to_string(), &unit)
}

fn refused(text: &str, msg: &str, position: usize) {
    assert_eq!(program(text), Err(ParseError { msg: msg.to_string(), position }), "for {:?}", text);
}

#[test]
fn integers() {
    assert_eq!(program("0"), Ok(vec![DialVal::Int(0)]));
    assert_eq!(program("007"), Ok(vec![DialVal::Int(7)]));
    assert_eq!(program("-0"), Ok(vec![DialVal::Int(0)]));
    assert_eq!(program("-12"), Ok(vec![DialVal::Int(-12)]));
    assert_eq!(program("9223372036854775807"), Ok(vec![DialVal::Int(i64::MAX)]));
    assert_eq!(program("-9223372036854775807"), Ok(vec![DialVal::Int(-i64::MAX)]));
    refused("9223372036854775808", "number out of range", 0);
    refused("99999999999999999999999999999999", "number out of range", 0);
    assert_eq!(program("-9223372036854775808"), Ok(vec![sym("-9223372036854775808")]));
}

#[test]
fn floats() {
    assert_eq!(program("1.5"), Ok(vec![float(1.5)]));
    assert_eq!(program("-2.25"), Ok(vec![float(-2.25)]));
    assert_eq!(program("10.0"), Ok(vec![float(10.0)]));
    assert_eq!(program("3.14159"), Ok(vec![float(3.14159)]));
    assert_eq!(program("1.5.2"), Ok(vec![float(1.5), sym(".2")]));
    assert_eq!(program("1."), Ok(vec![DialVal::Int(1), sym(".")]));
    assert_eq!(program("1.x"), Ok(vec![DialVal::Int(1), sym(".x")]));
    assert_eq!(program("1.-5"), Ok(vec![DialVal::Int(1), sym(".-5")]));
    assert_eq!(program(".5"), Ok(vec![sym(".5")]));
    assert_eq!(program("1.99999999999999999999"), Ok(vec![DialVal::Int(1), sym(".99999999999999999999")]));
}

#[test]
fn strings() {
    assert_eq!(program("\"\""), Ok(vec![DialVal::Str(String::new())]));
    assert_eq!(program("\"a (b) [c] 1\""), Ok(vec![DialVal::Str("a (b) [c] 1".to_string())]));
    assert_eq!(program("\"line\nbreak\""), Ok(vec![DialVal::Str("line\nbreak".to_string())]));
    assert_eq!(program("\"h\u{e9}llo\" \u{3bb}"), Ok(vec![DialVal::Str("h\u{e9}llo".to_string()), sym("\u{3bb}")]));
    assert_eq!(program("\"a\"\"b\""), Ok(vec![DialVal::Str("a".to_string()), DialVal::Str("b".to_string())]));
    refused("\"abc", "unterminated string", 0);
    refused("(1 \"abc)", "unterminated string", 3);
    refused("\"", "unterminated string", 0);
}

#[test]
fn words() {
    assert_eq!(program("true"), Ok(vec![DialVal::Bool(true)]));
    assert_eq!(program("false"), Ok(vec![DialVal::Bool(false)]));
    assert_eq!(program("nil"), Ok(vec![DialVal::Nil]));
    assert_eq!(program("true1"), Ok(vec![sym("true1")]));
    assert_eq!(program("true?"), Ok(vec![sym("true?")]));
    assert_eq!(program("nil-ish"), Ok(vec![sym("nil-ish")]));
    assert_eq!(program("True"), Ok(vec![sym("True")]));
    assert_eq!(program(":kw"), Ok(vec![DialVal::Keyword("kw".to_string())]));
    assert_eq!(program(":a:b"), Ok(vec![DialVal::Keyword("a:b".to_string())]));
    assert_eq!(program(":"), Ok(vec![sym(":")]));
    assert_eq!(program(":1"), Ok(vec![sym(":1")]));
    assert_eq!(program(":true"), Ok(vec![DialVal::Keyword("true".to_string())]));
    assert_eq!(program("-"), Ok(vec![sym("-")]));
    assert_eq!(program("-x"), Ok(vec![sym("-x")]));
    assert_eq!(program("a1"), Ok(vec![sym("a1")]));
    assert_eq!(program("a\"b"), Ok(vec![sym("a\"b")]));
    assert_eq!(program("list?"), Ok(vec![sym("list?")]));
    assert_eq!(program("1a"), Ok(vec![DialVal::Int(1), sym("a")]));
}

#[test]
fn lists_and_vectors() {
    assert_eq!(program("()"), Ok(vec![DialVal::List(vec![])]));
    assert_eq!(program("(  )"), Ok(vec![DialVal::List(vec![])]));
    assert_eq!(program("[]"), Ok(vec![DialVal::Vec(vec![])]));
    assert_eq!(program("(1)"), Ok(vec![DialVal::List(vec![DialVal::Int(1)])]));
    assert_eq!(
        program("(a [b (c)] \"d\")"),
        Ok(vec![DialVal::List(vec![
            sym("a"),
            DialVal::Vec(vec![sym("b"), DialVal::List(vec![sym("c")])]),
            DialVal::Str("d".to_string())
        ])])
    );
    assert_eq!(
        program("(\n 1\t2\r\n 3 )"),
        Ok(vec![DialVal::List(vec![DialVal::Int(1), DialVal::Int(2), DialVal::Int(3)])])
    );
    assert_eq!(program("(a b)"), Ok(vec![DialVal::List(vec![sym("a"), sym("b")])]));
}

#[test]
fn items_want_white_space_between_them() {
    refused("(1(2))", "expected white space or a closing bracket", 2);
    refused("((1)(2))", "expected white space or a closing bracket", 4);
    refused("(\"a\"b)", "expected white space or a closing bracket", 4);
    refused("[1[2]]", "expected white space or a closing bracket", 2);
    assert_eq!(program("(1.5a)").is_err(), true);
}

#[test]
fn brackets_must_match() {
    refused("(", "unexpected end of input", 1);
    refused("(1 2", "unexpected end of input", 4);
    refused("(1 2 ", "unexpected end of input", 5);
    refused("[1 (2 3)", "unexpected end of input", 8);
    refused(")", "unexpected closing bracket", 0);
    refused("1 )", "unexpected closing bracket", 2);
    refused("(1 2))", "unexpected closing bracket", 5);
    refused("(1 2]", "unexpected closing bracket", 4);
    refused("[1 2)", "unexpected closing bracket", 4);
    refused("(]", "unexpected closing bracket", 1);
}

#[test]
fn a_program_is_one_expression_or_more() {
    refused("", "unexpected end of input", 0);
    refused("   ", "unexpected end of input", 3);
    refused(" \n\t ", "unexpected end of input", 4);
    assert_eq!(program(" 1 "), Ok(vec![DialVal::Int(1)]));
    assert_eq!(program("1 2"), Ok(vec![DialVal::Int(1), DialVal::Int(2)]));
    assert_eq!(program("(a)(b)"), Ok(vec![DialVal::List(vec![sym("a")]), DialVal::List(vec![sym("b")])]));
    assert_eq!(program("(a)\n(b)\n"), Ok(vec![DialVal::List(vec![sym("a")]), DialVal::List(vec![sym("b")])]));
    assert_eq!(read("1 2".to_string(), &unit), program("1 2"));
}

#[test]
fn nesting_is_bounded() {
    let deep = |n: usize| format!("{}{}", "(".repeat(n), ")".repeat(n));
    assert!(program(&deep(128)).is_ok());
    refused(&deep(129), "brackets nested too deep", 128);
    refused(&"[".repeat(5000), "brackets nested too deep", 128);
}

#[test]
fn the_first_expression_alone() {
    assert_eq!(parse_sexpr("  (a) b".to_string(), &unit), Ok(DialVal::List(vec![sym("a")])));
    assert_eq!(parse_sexpr("1)".to_string(), &unit), Ok(DialVal::Int(1)));
    assert_eq!(
        parse_sexpr("".to_string(), &unit),
        Err(ParseError { msg: "unexpected end of input".to_string(), position: 0 })
    );
    assert_eq!(
        parse_sexpr("  )".to_string(), &unit),
        Err(ParseError { msg: "unexpected closing bracket".to_string(), position: 2 })
    );
}

#[test]
fn an_atom_alone() {
    assert_eq!(parse_atom("12 13".to_string(), &unit), Ok(DialVal::Int(12)));
    assert_eq!(parse_atom("abc)".to_string(), &unit), Ok(sym("abc")));
    assert_eq!(
        parse_atom("".to_string(), &unit),
        Err(ParseError { msg: "unexpected end of input".to_string(), position: 0 })
    );
    assert_eq!(
        parse_atom(" 1".to_string(), &unit),
        Err(ParseError { msg: "expected an atom".to_string(), position: 0 })
    );
    assert_eq!(
        parse_atom("[".to_string(), &unit),
        Err(ParseError { msg: "expected an atom".to_string(), position: 0 })
    );
}

#[test]
fn reading_errors_print() {
    let e = program("(1 2").unwrap_err();
    assert_eq!(e.to_text(), "could not parse input unexpected end of input at position 4");
}

#[test]
fn positions_count_characters() {
    refused("\u{3bb}\u{3bb} )", "unexpected closing bracket", 3);
}
