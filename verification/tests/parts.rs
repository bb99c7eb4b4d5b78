use dial::builtin::{is_float, is_int, is_keyword, is_list, is_ratio, is_string, is_symbol};
use dial::env::Scope;
use dial::numeric::{new_ratio, normalize, pair, ArithOp};
use dial::ratio::{gcd, gcd_wide, reduce_ratio, reduce_wide};
use dial::repl::Reply;
use dial::text::{decimal, int_text};
use dial::{DialVal, Env, EvalError, FloatAnswer, FloatCall, Interpreter, Ratio, Repl};
use num::rational::Ratio as Outside;
use num::Integer;

fn unit(call: FloatCall) -> FloatAnswer {
    let bits = |x: f64| FloatAnswer { bits: x.to_bits(), text: String::new() };
    match call {
        FloatCall::Decimal(head, tail) => bits(format!("{}.{}", head, tail).parse::<f64>().unwrap()),
        FloatCall::FromInt(i) => bits(i as f64),
        FloatCall::FromRatio(n, d) => bits(n as f64 / d as f64),
        FloatCall::Add(a, b) => bits(f64::from_bits(a) + f64::from_bits(b)),
        FloatCall::Sub(a, b) => bits(f64::from_bits(a) - f64::from_bits(b)),
        FloatCall::Mul(a, b) => bits(f64::from_bits(a) * f64::from_bits(b)),
        FloatCall::Div(a, b) => bits(f64::from_bits(a) / f64::from_bits(b)),
        FloatCall::Show(b) => FloatAnswer { bits: b, text: format!("{}", f64::from_bits(b)) },
    }
}

fn ratio(num: i64, den: i64) -> DialVal {
    DialVal::Ratio(Ratio { num, den })
}

const SAMPLES: [i64; 17] = [
    0, 1, -1, 2, -2, 3, 6, -6, 12, 18, -35, 1024, 65536, 999983, 1000000007, i64::MAX, -i64::MAX,
];

#[test]
fn gcd_is_the_greatest_common_divisor() {
    assert_eq!(gcd(12, 18), 6);
    assert_eq!(gcd(-12, 18), 6);
    assert_eq!(gcd(12, -18), 6);
    assert_eq!(gcd(0, 5), 5);
    assert_eq!(gcd(5, 0), 5);
    assert_eq!(gcd(0, 0), 0);
    assert_eq!(gcd(17, 5), 1);
    assert_eq!(gcd(i64::MIN, 0), 1u64 << 63);
    assert_eq!(gcd(i64::MIN, i64::MIN), 1u64 << 63);
    assert_eq!(gcd(i64::MIN, 6), 2);
    assert_eq!(gcd_wide(u128::MAX, u128::MAX), u128::MAX);
    assert_eq!(gcd_wide(1 << 100, 1 << 90), 1 << 90);
    for a in SAMPLES {
        for b in SAMPLES {
            assert_eq!(gcd(a, b) as i64, a.gcd(&b), "gcd of {} and {}", a, b);
        }
    }
}

#[test]
fn reduction_agrees_with_the_rational_crate() {
    for n in SAMPLES {
        for d in SAMPLES {
            if d == 0 {
                assert_eq!(reduce_ratio(n, d), None);
                continue;
            }
            let outside = Outside::new(n, d);
            assert_eq!(reduce_ratio(n, d), Some((*outside.numer(), *outside.denom())), "{}/{}", n, d);
            let value = new_ratio(n, d).unwrap();
            if outside.is_integer() {
                assert_eq!(value, DialVal::Int(outside.to_integer()));
            } else {
                assert_eq!(value, ratio(*outside.numer(), *outside.denom()));
            }
        }
    }
}

#[test]
fn arithmetic_agrees_with_the_rational_crate() {
    let small: [i64; 9] = [0, 1, -1, 2, -3, 7, 12, -35, 1000];
    let value = |r: Outside<i64>| {
        if r.is_integer() {
            DialVal::Int(r.to_integer())
        } else {
            ratio(*r.numer(), *r.denom())
        }
    };
    for a in small {
        for b in small {
            for c in small {
                if b == 0 || c == 0 || b + c * c == 0 {
                    continue;
                }
                let x = Outside::new(a, b);
                let y = Outside::new(c, b + c * c);
                let (vx, vy) = (value(x), value(y));
                assert_eq!(pair(ArithOp::Add, &vx, &vy, &unit), Ok(value(x + y)));
                assert_eq!(pair(ArithOp::Sub, &vx, &vy, &unit), Ok(value(x - y)));
                assert_eq!(pair(ArithOp::Mul, &vx, &vy, &unit), Ok(value(x * y)));
                assert_eq!(pair(ArithOp::Div, &vx, &vy, &unit), Ok(value(x / y)));
            }
        }
    }
}

#[test]
fn reduction_at_the_edges() {
    assert_eq!(reduce_ratio(1, 0), None);
    assert_eq!(reduce_ratio(0, 0), None);
    assert_eq!(reduce_ratio(0, -7), Some((0, 1)));
    assert_eq!(reduce_ratio(6, 3), Some((2, 1)));
    assert_eq!(reduce_ratio(3, -6), Some((-1, 2)));
    assert_eq!(reduce_ratio(-3, -6), Some((1, 2)));
    assert_eq!(reduce_ratio(i64::MIN, 2), Some((i64::MIN / 2, 1)));
    assert_eq!(reduce_ratio(i64::MIN, 1), Some((i64::MIN, 1)));
    assert_eq!(reduce_ratio(i64::MIN, -1), None);
    assert_eq!(reduce_ratio(1, i64::MIN), None);
    assert_eq!(reduce_ratio(2, i64::MIN), Some((-1, 1i64 << 62)));
    assert_eq!(reduce_ratio(i64::MIN, i64::MIN), Some((1, 1)));
    assert_eq!(reduce_wide(-6, -4), (3, 2));
    assert_eq!(reduce_wide(i128::MAX, -i128::MAX), (-1, 1));
    assert_eq!(reduce_wide(0, 9), (0, 1));
}

#[test]
fn new_ratio_gives_an_integer_where_it_can() {
    assert_eq!(new_ratio(1, 6), Ok(ratio(1, 6)));
    assert_eq!(new_ratio(-3, 4), Ok(ratio(-3, 4)));
    assert_eq!(new_ratio(3, -4), Ok(ratio(-3, 4)));
    assert_eq!(new_ratio(-4, 1), Ok(DialVal::Int(-4)));
    assert_eq!(new_ratio(4, -2), Ok(DialVal::Int(-2)));
    assert_eq!(new_ratio(0, 3), Ok(DialVal::Int(0)));
    assert_eq!(
        new_ratio(1, 0),
        Err(EvalError::InvalidArgumentError("cannot divide by zero".to_string()))
    );
    assert_eq!(
        new_ratio(i64::MIN, -1),
        Err(EvalError::InvalidArgumentError("integer overflow".to_string()))
    );
    assert_eq!(normalize(10, 4), Ok(ratio(5, 2)));
    assert_eq!(normalize(1 << 70, 1 << 69), Ok(DialVal::Int(2)));
    assert_eq!(
        normalize(1 << 70, 3),
        Err(EvalError::InvalidArgumentError("integer overflow".to_string()))
    );
}

#[test]
fn pairs_want_numbers() {
    let number = Err(EvalError::TypeError("number".to_string()));
    assert_eq!(pair(ArithOp::Add, &DialVal::Nil, &DialVal::Int(1), &unit), number);
    assert_eq!(pair(ArithOp::Mul, &DialVal::Int(1), &DialVal::Str("1".to_string()), &unit), number);
}

#[test]
fn integers_print_in_decimal() {
    assert_eq!(decimal(0), "0");
    assert_eq!(decimal(7), "7");
    assert_eq!(decimal(10), "10");
    assert_eq!(decimal(1234567890), "1234567890");
    assert_eq!(decimal(u128::MAX), u128::MAX.to_string());
    assert_eq!(int_text(0), "0");
    assert_eq!(int_text(-1), "-1");
    assert_eq!(int_text(i64::MAX), i64::MAX.to_string());
    assert_eq!(int_text(i64::MIN), i64::MIN.to_string());
}

#[test]
fn scopes_bind_names() {
    let mut scope = Scope::new(Some(3));
    assert_eq!(scope.parent(), Some(3));
    assert_eq!(scope.get_value(&"a".to_string()), None);
    scope.set_value("a".to_string(), DialVal::Int(1));
    scope.set_value("b".to_string(), DialVal::Int(2));
    scope.set_value("a".to_string(), DialVal::Int(3));
    assert_eq!(scope.get_value(&"a".to_string()), Some(DialVal::Int(3)));
    assert_eq!(scope.get_value(&"b".to_string()), Some(DialVal::Int(2)));
    assert_eq!(scope.get_value(&"c".to_string()), None);
}

#[test]
fn the_chain_of_scopes() {
    let name = |s: &str| s.to_string();
    let mut env = Env::default();
    assert_eq!(env.scope_count(), 1);
    assert_eq!(env.current(), 0);
    for builtin in ["+", "-", "*", "/", "list", "list?", "empty?", "count", "="] {
        assert_eq!(env.get_value(&name(builtin)), Some(DialVal::Builtin { name: name(builtin) }));
    }
    env.set_value(name("x"), DialVal::Int(1));
    env.new_scope();
    assert_eq!(env.current(), 1);
    assert_eq!(env.get_value(&name("x")), Some(DialVal::Int(1)));
    env.set_value(name("x"), DialVal::Int(2));
    env.def_value(name("y"), DialVal::Int(3));
    assert_eq!(env.get_value(&name("x")), Some(DialVal::Int(2)));
    assert_eq!(env.get_value(&name("y")), Some(DialVal::Int(3)));
    assert_eq!(env.find(&name("x")), Some(1));
    assert_eq!(env.find(&name("y")), Some(0));
    assert_eq!(env.find(&name("z")), None);
    env.new_scope();
    env.bind(vec![name("a"), name("b"), name("c")], vec![DialVal::Int(10), DialVal::Int(20)]);
    assert_eq!(env.get_value(&name("a")), Some(DialVal::Int(10)));
    assert_eq!(env.get_value(&name("b")), Some(DialVal::Int(20)));
    assert_eq!(env.get_value(&name("c")), None);
    assert_eq!(env.get_value(&name("x")), Some(DialVal::Int(2)));
    env.scope_under(0);
    assert_eq!(env.current(), 3);
    assert_eq!(env.get_value(&name("x")), Some(DialVal::Int(1)));
    assert_eq!(env.get_value(&name("a")), None);
    env.enter(2);
    assert_eq!(env.get_value(&name("a")), Some(DialVal::Int(10)));
    env.drop_scopes(1);
    assert_eq!(env.current(), 1);
    assert_eq!(env.get_value(&name("a")), None);
    assert_eq!(env.get_value(&name("x")), Some(DialVal::Int(2)));
    env.drop_scopes(5);
    assert_eq!(env.current(), 0);
    assert_eq!(env.get_value(&name("x")), Some(DialVal::Int(1)));
    env.drop_scopes(0);
    assert_eq!(env.current(), 0);
    assert_eq!(env.scope_count(), 4);
    assert_eq!(Env::new().get_value(&name("+")), None);
}

#[test]
fn an_interpreter_keeps_its_definitions() {
    let mut interpreter = Interpreter::new();
    let read = |text: &str| dial::read(text.to_string(), &unit).unwrap().pop().unwrap();
    assert_eq!(interpreter.eval(read("(def a (+ 1 2))"), &unit), Ok(DialVal::Int(3)));
    assert_eq!(interpreter.eval(read("(* a a)"), &unit), Ok(DialVal::Int(9)));
    assert_eq!(interpreter.lookup(&"a".to_string()), Some(DialVal::Int(3)));
    assert_eq!(interpreter.lookup(&"b".to_string()), None);
}

#[test]
fn the_shell_replies_to_each_expression() {
    let texts = |replies: Vec<Reply>| -> Vec<(String, bool)> {
        replies.into_iter().map(|r| (r.text, r.failed)).collect()
    };
    let mut shell = Repl::new();
    assert_eq!(
        texts(shell.respond("(def a 6) a (+ a 1.5) (list a \"s\")".to_string(), &unit)),
        vec![
            ("6".to_string(), false),
            ("6".to_string(), false),
            ("7.5".to_string(), false),
            ("(6 \"s\")".to_string(), false)
        ]
    );
    assert_eq!(
        texts(shell.respond("(nope) a".to_string(), &unit)),
        vec![
            ("undefined value: no such symbol nope".to_string(), true),
            ("6".to_string(), false)
        ]
    );
    assert_eq!(
        texts(shell.respond("(def b 1) (".to_string(), &unit)),
        vec![("could not parse input unexpected end of input at position 11".to_string(), true)]
    );
    assert_eq!(
        texts(shell.respond("b".to_string(), &unit)),
        vec![("undefined value: no such symbol b".to_string(), true)]
    );
    assert_eq!(
        texts(shell.respond("".to_string(), &unit)),
        vec![("could not parse input unexpected end of input at position 0".to_string(), true)]
    );
}

#[test]
fn native_functions_by_name() {
    let mut env = Env::default();
    let two = [DialVal::Int(6), DialVal::Int(4)];
    let call = |name: &str, env: &mut Env| dial::builtin::apply(&name.to_string(), &two, env, &unit);
    assert_eq!(call("+", &mut env), Ok(DialVal::Int(10)));
    assert_eq!(call("-", &mut env), Ok(DialVal::Int(2)));
    assert_eq!(call("*", &mut env), Ok(DialVal::Int(24)));
    assert_eq!(call("/", &mut env), Ok(ratio(3, 2)));
    assert_eq!(call("list", &mut env), Ok(DialVal::List(vec![DialVal::Int(6), DialVal::Int(4)])));
    assert_eq!(call("=", &mut env), Ok(DialVal::Bool(false)));
    assert_eq!(call("list?", &mut env), Err(EvalError::ArityError(2)));
    assert_eq!(call("nope", &mut env), Err(EvalError::Undefined("nope".to_string())));
}

#[test]
fn kinds_are_told_apart() {
    let mut env = Env::default();
    let one = |v: DialVal| [v];
    assert_eq!(is_int(&one(DialVal::Int(1)), &mut env, &unit), Ok(DialVal::Bool(true)));
    assert_eq!(is_int(&one(ratio(1, 2)), &mut env, &unit), Ok(DialVal::Bool(false)));
    assert_eq!(is_float(&one(DialVal::Float(0)), &mut env, &unit), Ok(DialVal::Bool(true)));
    assert_eq!(is_float(&one(DialVal::Int(0)), &mut env, &unit), Ok(DialVal::Bool(false)));
    assert_eq!(is_string(&one(DialVal::Str(String::new())), &mut env, &unit), Ok(DialVal::Bool(true)));
    assert_eq!(is_string(&one(DialVal::Sym(String::new())), &mut env, &unit), Ok(DialVal::Bool(false)));
    assert_eq!(is_ratio(&one(ratio(1, 2)), &mut env, &unit), Ok(DialVal::Bool(true)));
    assert_eq!(is_keyword(&one(DialVal::Keyword("k".into())), &mut env, &unit), Ok(DialVal::Bool(true)));
    assert_eq!(is_symbol(&one(DialVal::Sym("k".into())), &mut env, &unit), Ok(DialVal::Bool(true)));
    assert_eq!(is_symbol(&one(DialVal::Keyword("k".into())), &mut env, &unit), Ok(DialVal::Bool(false)));
    assert_eq!(is_list(&one(DialVal::List(vec![])), &mut env, &unit), Ok(DialVal::Bool(true)));
    assert_eq!(is_list(&[], &mut env, &unit), Err(EvalError::ArityError(1)));
}

#[test]
fn values_are_copied_whole() {
    let v = DialVal::List(vec![
        DialVal::Str("s".to_string()),
        DialVal::Vec(vec![ratio(1, 2), DialVal::Float(7)]),
        DialVal::Builtin { name: "+".to_string() },
    ]);
    assert_eq!(v.duplicate(), v);
    let f = DialVal::Lambda { params: vec!["a".to_string()], body: Box::new(DialVal::Nil), env: 0 };
    match f.duplicate() {
        DialVal::Lambda { params, body, env } => {
            assert_eq!(params, vec!["a".to_string()]);
            assert_eq!(*body, DialVal::Nil);
            assert_eq!(env, 0);
        }
        other => panic!("no closure: {:?}", other),
    }
    assert!(!f.equals(&f));
    assert_eq!(EvalError::TypeError("t".to_string()).duplicate(), EvalError::TypeError("t".to_string()));
}
