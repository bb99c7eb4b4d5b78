use dial::{eval, print, read, DialVal, Env, EvalError, EvalResult, FloatAnswer, FloatCall, Ratio};

fn unit(call: FloatCall) -> FloatAnswer {
    let bits = |x: f64| FloatAnswer { bits: x.to_bits(), text: String::new() };
    match call {
        FloatCall::Decimal(head, tail) => bits(format!("{}.{}", head, tail).parse::<f64>().unwrap()),
        FloatCall::FromInt(i) => bits(i as f64),
        FloatCall::FromRatio(n, d) => bits(n as f64 / d as f64),
        FloatCall::Add(a, b) => bits(f64::from_bits(a) + f64::from_bits(b)),
        FloatCall::Sub(a, b) => bits(f64::from_bits(a) - f64::from_bits(b)),
        FloatCall::Mul(a, b) => bits(f64::from_bits(a) * f64::from_bits(b)),
        FloatCall::Div(a, b) => bits(f64::from_bits(a) / f64::from_bits(b)),
        FloatCall::Show(b) => FloatAnswer { bits: b, text: format!("{}", f64::from_bits(b)) },
    }
}

fn float(x: f64) -> DialVal {
    DialVal::Float(x.to_bits())
}

fn ratio(num: i64, den: i64) -> DialVal {
    DialVal::Ratio(Ratio { num, den })
}

fn sym(s: &str) -> DialVal {
    DialVal::Sym(s.to_string())
}

fn run(env: &mut Env, text: &str) -> EvalResult {
    let mut last = Ok(DialVal::Nil);
    for expr in read(text.to_string(), &unit).unwrap() {
        last = eval(expr, env, &unit);
    }
    last
}

fn once(text: &str) -> EvalResult {
    run(&mut Env::default(), text)
}

fn invalid(msg: &str) -> EvalResult {
    Err(EvalError::InvalidArgumentError(msg.to_string()))
}

#[test]
fn atoms_read_and_print_back() {
    for text in ["42", "-3.5", "\"hi\"", ":kw", "sym", "true", "false", "nil", "-7", "0"] {
        let values = read(text.to_string(), &unit).unwrap();
        assert_eq!(values.len(), 1);
        assert_eq!(values[0].to_text(&unit), text);
    }
    assert_eq!(read("42".to_string(), &unit).unwrap(), vec![DialVal::Int(42)]);
    assert_eq!(read("-3.5".to_string(), &unit).unwrap(), vec![float(-3.5)]);
    assert_eq!(read("\"hi\"".to_string(), &unit).unwrap(), vec![DialVal::Str("hi".to_string())]);
    assert_eq!(read(":kw".to_string(), &unit).unwrap(), vec![DialVal::Keyword("kw".to_string())]);
    assert_eq!(read("sym".to_string(), &unit).unwrap(), vec![sym("sym")]);
}

#[test]
fn every_integer_but_the_least_reads_back() {
    for i in [0i64, 1, -1, 9, 10, -10, 99, 100, 12345, -98765, i64::MAX, i64::MIN + 1] {
        let text = DialVal::Int(i).to_text(&unit);
        assert_eq!(text, i.to_string());
        assert_eq!(read(text, &unit).unwrap(), vec![DialVal::Int(i)]);
    }
    let least = DialVal::Int(i64::MIN).to_text(&unit);
    assert_eq!(least, "-9223372036854775808");
    assert_eq!(read(least, &unit).unwrap(), vec![sym("-9223372036854775808")]);
}

#[test]
fn numbers_are_promoted() {
    assert_eq!(once("(+ 1 2 3)"), Ok(DialVal::Int(6)));
    assert_eq!(once("(+ 1 2.0)"), Ok(float(3.0)));
    assert_eq!(once("(/ 1 3)"), Ok(ratio(1, 3)));
    assert_eq!(once("(/ 6 3)"), Ok(DialVal::Int(2)));
    assert_eq!(once("(/ 1 0)"), invalid("cannot divide by zero"));
}

#[test]
fn def_returns_the_bound_value() {
    let mut env = Env::default();
    assert_eq!(run(&mut env, "(def a 6)"), Ok(DialVal::Int(6)));
    assert_eq!(run(&mut env, "a"), Ok(DialVal::Int(6)));
}

#[test]
fn let_shadows_and_does_not_leak() {
    let mut env = Env::default();
    assert_eq!(run(&mut env, "(let (c 2) c)"), Ok(DialVal::Int(2)));
    assert_eq!(run(&mut env, "c"), Err(EvalError::Undefined("no such symbol c".to_string())));
    assert_eq!(run(&mut env, "(def c 1)"), Ok(DialVal::Int(1)));
    assert_eq!(run(&mut env, "(let (c 2) c)"), Ok(DialVal::Int(2)));
    assert_eq!(run(&mut env, "c"), Ok(DialVal::Int(1)));
}

#[test]
fn only_nil_and_false_are_false() {
    assert_eq!(once("(if 0 1 2)"), Ok(DialVal::Int(1)));
    assert_eq!(once("(if false 1 2)"), Ok(DialVal::Int(2)));
    assert_eq!(once("(if nil 1 2)"), Ok(DialVal::Int(2)));
    assert_eq!(once("(if true 1 2)"), Ok(DialVal::Int(1)));
    assert_eq!(once("(if (list) 1 2)"), Ok(DialVal::Int(1)));
    assert_eq!(once("(if \"\" 1 2)"), Ok(DialVal::Int(1)));
    assert_eq!(once("(if [] 1 2)"), Ok(DialVal::Int(1)));
    assert_eq!(once("(if)"), Err(EvalError::ArityError(1)));
    assert_eq!(once("(if true)"), Err(EvalError::ArityError(2)));
    assert_eq!(once("(if true 1)"), Err(EvalError::ArityError(3)));
    assert_eq!(once("(if true a b c)"), Err(EvalError::ArityError(4)));
}

#[test]
fn the_branch_not_taken_is_not_evaluated() {
    assert_eq!(once("(if true 1 (undefined-thing))"), Ok(DialVal::Int(1)));
    assert_eq!(once("(if false (undefined-thing) 2)"), Ok(DialVal::Int(2)));
}

#[test]
fn closures_capture_by_reference() {
    let mut env = Env::default();
    let text = "(do (def gen (fn (x) (fn (b) (+ x b)))) (def p (gen 7)) (p 8))";
    assert_eq!(run(&mut env, text), Ok(DialVal::Int(15)));
    assert_eq!(run(&mut env, "(p 8)"), Ok(DialVal::Int(15)));
    assert!(run(&mut env, "(def q (gen 1))").is_ok());
    assert_eq!(run(&mut env, "(+ (p 1) (q 1))"), Ok(DialVal::Int(10)));
}

#[test]
fn closures_see_later_definitions() {
    let mut env = Env::default();
    assert!(run(&mut env, "(def f (fn () later))").is_ok());
    assert_eq!(run(&mut env, "(f)"), Err(EvalError::Undefined("no such symbol later".to_string())));
    assert_eq!(run(&mut env, "(def later 3)"), Ok(DialVal::Int(3)));
    assert_eq!(run(&mut env, "(f)"), Ok(DialVal::Int(3)));
}

#[test]
fn scoping_is_lexical() {
    let mut env = Env::default();
    assert!(run(&mut env, "(def x 1)").is_ok());
    assert!(run(&mut env, "(def get-x (fn () x))").is_ok());
    assert_eq!(run(&mut env, "(let (x 2) (get-x))"), Ok(DialVal::Int(1)));
    assert_eq!(run(&mut env, "((fn (x) (get-x)) 3)"), Ok(DialVal::Int(1)));
}

#[test]
fn tail_recursion_needs_no_stack() {
    let mut env = Env::default();
    let text = "(do (def sum (fn (n acc) (if (= n 0) acc (sum (- n 1) (+ n acc))))) (sum 10000 0))";
    assert_eq!(run(&mut env, text), Ok(DialVal::Int(50005000)));
    assert_eq!(run(&mut env, "(sum 100000 0)"), Ok(DialVal::Int(5000050000)));
    let through_let = "(do (def down (fn (n) (let (m (- n 1)) (if (= m 0) 0 (do 1 (down m)))))) (down 5000))";
    assert_eq!(run(&mut env, through_let), Ok(DialVal::Int(0)));
}

#[test]
fn scopes_are_given_up_when_nothing_holds_them() {
    let mut env = Env::default();
    assert_eq!(env.scope_count(), 1);
    assert!(run(&mut env, "(def sum (fn (n acc) (if (= n 0) acc (sum (- n 1) (+ n acc)))))").is_ok());
    assert_eq!(env.scope_count(), 1);
    assert_eq!(run(&mut env, "(sum 1000 0)"), Ok(DialVal::Int(500500)));
    assert_eq!(env.scope_count(), 1);
    assert_eq!(run(&mut env, "(let (a 1 b 2) (let (c 3) (+ a b c)))"), Ok(DialVal::Int(6)));
    assert_eq!(env.scope_count(), 1);
    assert_eq!(run(&mut env, "((fn (x) (* x x)) 4)"), Ok(DialVal::Int(16)));
    assert_eq!(env.scope_count(), 1);
    assert!(run(&mut env, "(nope)").is_err());
    assert_eq!(env.scope_count(), 1);
}

#[test]
fn a_scope_that_a_closure_holds_stays() {
    let mut env = Env::default();
    assert!(run(&mut env, "(def gen (fn (x) (fn (b) (+ x b))))").is_ok());
    assert_eq!(env.scope_count(), 1);
    assert!(run(&mut env, "(def p (gen 7))").is_ok());
    assert_eq!(env.scope_count(), 2);
    assert_eq!(run(&mut env, "(p 8)"), Ok(DialVal::Int(15)));
    assert_eq!(env.scope_count(), 2);
    assert!(run(&mut env, "(def q (gen 100))").is_ok());
    assert_eq!(env.scope_count(), 3);
    assert_eq!(run(&mut env, "(+ (p 1) (q 1))"), Ok(DialVal::Int(109)));
    assert_eq!(env.scope_count(), 3);
    let text = "(do (def count-up (fn (n f) (if (= n 0) (f 0) (count-up (- n 1) (fn (x) (+ 1 (f x))))))) (count-up 50 (fn (x) x)))";
    assert_eq!(run(&mut env, text), Ok(DialVal::Int(50)));
    assert_eq!(run(&mut env, "(p 8)"), Ok(DialVal::Int(15)));
    assert_eq!(run(&mut env, "(q 8)"), Ok(DialVal::Int(108)));
}

#[test]
fn recursion_that_nests_too_deep_is_an_error() {
    let mut env = Env::default();
    assert!(run(&mut env, "(def f (fn (n) (+ 1 (f n))))").is_ok());
    assert_eq!(run(&mut env, "(f 1)"), invalid("evaluation nested too deep"));
    assert!(run(&mut env, "(def up (fn (n) (if (= n 0) 0 (+ 1 (up (- n 1))))))").is_ok());
    assert_eq!(run(&mut env, "(up 20)"), Ok(DialVal::Int(20)));
}

#[test]
fn list_primitives() {
    assert_eq!(once("(count (list 1 2 3))"), Ok(DialVal::Int(3)));
    assert_eq!(once("(empty? (list 1 2 3))"), Ok(DialVal::Bool(false)));
    assert_eq!(once("(list? (list 1 2 3))"), Ok(DialVal::Bool(true)));
    assert_eq!(once("(count (list))"), Ok(DialVal::Int(0)));
    assert_eq!(once("(empty? (list))"), Ok(DialVal::Bool(true)));
    assert_eq!(once("(list? (list))"), Ok(DialVal::Bool(true)));
    assert_eq!(once("(list? [1 2])"), Ok(DialVal::Bool(false)));
    assert_eq!(once("(count 1)"), invalid("count only valid on lists"));
    assert_eq!(once("(empty? 1)"), invalid("empty? only valid on lists"));
    assert_eq!(once("(count)"), Err(EvalError::ArityError(1)));
    assert_eq!(once("(count (list) (list))"), Err(EvalError::ArityError(2)));
    assert_eq!(once("(list? 1 2)"), Err(EvalError::ArityError(2)));
    assert_eq!(once("(list)"), Ok(DialVal::List(vec![])));
}

#[test]
fn what_stands_for_itself() {
    let mut env = Env::default();
    for text in ["nil", "true", "false", "7", "\"s\"", ":k", "()", "[]"] {
        let expr = read(text.to_string(), &unit).unwrap().pop().unwrap();
        assert_eq!(run(&mut env, text), Ok(expr));
    }
    assert_eq!(eval(ratio(1, 2), &mut env, &unit), Ok(ratio(1, 2)));
    assert_eq!(eval(float(1.5), &mut env, &unit), Ok(float(1.5)));
    let plus = DialVal::Builtin { name: "+".to_string() };
    assert_eq!(run(&mut env, "+"), Ok(plus));
}

#[test]
fn vectors_evaluate_their_items() {
    assert_eq!(
        once("[1 (+ 1 1) [(* 2 2)]]"),
        Ok(DialVal::Vec(vec![
            DialVal::Int(1),
            DialVal::Int(2),
            DialVal::Vec(vec![DialVal::Int(4)])
        ]))
    );
    assert_eq!(once("[1 nope]"), Err(EvalError::Undefined("no such symbol nope".to_string())));
}

#[test]
fn def_checks_its_shape() {
    assert_eq!(once("(def)"), Err(EvalError::ArityError(1)));
    assert_eq!(once("(def a)"), Err(EvalError::ArityError(2)));
    assert_eq!(once("(def a 1 2)"), Err(EvalError::ArityError(3)));
    assert_eq!(once("(def 1 2)"), invalid("'def' requires binding to symbol"));
    assert_eq!(once("(def a nope)"), Err(EvalError::Undefined("no such symbol nope".to_string())));
}

#[test]
fn def_binds_globally_from_any_depth() {
    let mut env = Env::default();
    assert_eq!(run(&mut env, "((fn (x) (let (y 2) (def z (+ x y)))) 1)"), Ok(DialVal::Int(3)));
    assert_eq!(run(&mut env, "z"), Ok(DialVal::Int(3)));
    assert!(run(&mut env, "x").is_err());
    assert!(run(&mut env, "y").is_err());
}

#[test]
fn let_checks_its_shape() {
    assert_eq!(once("(let)"), Err(EvalError::ArityError(1)));
    assert_eq!(once("(let (a 1))"), Err(EvalError::ArityError(2)));
    assert_eq!(once("(let (a 1) a a)"), Err(EvalError::ArityError(3)));
    assert_eq!(once("(let [a 1] a)"), invalid("let binding expects a list of associations"));
    assert_eq!(once("(let (a) a)"), invalid("let binding expects a list of associations"));
    assert_eq!(once("(let (1 2) 3)"), Err(EvalError::TypeError("symbol".to_string())));
    assert_eq!(once("(let () 3)"), Ok(DialVal::Int(3)));
}

#[test]
fn let_binds_in_turn() {
    assert_eq!(once("(let (a 1 b (+ a 1) c (* b 10)) (list a b c))"),
        Ok(DialVal::List(vec![DialVal::Int(1), DialVal::Int(2), DialVal::Int(20)])));
    assert_eq!(once("(let (a 1 a (+ a 1)) a)"), Ok(DialVal::Int(2)));
    assert_eq!(once("(let (a b b 1) a)"), Err(EvalError::Undefined("no such symbol b".to_string())));
}

#[test]
fn fn_checks_its_shape() {
    assert_eq!(once("(fn)"), Err(EvalError::ArityError(1)));
    assert_eq!(once("(fn (a))"), Err(EvalError::ArityError(2)));
    assert_eq!(once("(fn (a) a a)"), Err(EvalError::ArityError(3)));
    assert_eq!(once("(fn a a)"), Err(EvalError::TypeError("list".to_string())));
    assert_eq!(once("(fn [a] a)"), Err(EvalError::TypeError("list".to_string())));
    assert_eq!(once("(fn (a 1) a)"), Err(EvalError::TypeError("symbol".to_string())));
    match once("(fn (a b) (+ a b))") {
        Ok(DialVal::Lambda { params, body, env }) => {
            assert_eq!(params, vec!["a".to_string(), "b".to_string()]);
            assert_eq!(*body, DialVal::List(vec![sym("+"), sym("a"), sym("b")]));
            assert_eq!(env, 0);
        }
        other => panic!("no closure: {:?}", other),
    }
}

#[test]
fn do_gives_the_last_value() {
    assert_eq!(once("(do)"), Ok(DialVal::Nil));
    assert_eq!(once("(do 1)"), Ok(DialVal::Int(1)));
    assert_eq!(once("(do 1 2)"), Ok(DialVal::Int(2)));
    assert_eq!(once("(do nope 2)"), Err(EvalError::Undefined("no such symbol nope".to_string())));
}

#[test]
fn calls_check_the_function() {
    assert_eq!(once("(1 2)"), Err(EvalError::TypeError("1 is not a function".to_string())));
    assert_eq!(once("(\"f\" 2)"), Err(EvalError::TypeError("\"f\" is not a function".to_string())));
    assert_eq!(once("((list 1) 2)"), Err(EvalError::TypeError("(list 1) is not a function".to_string())));
    assert_eq!(once("(nope 2)"), Err(EvalError::Undefined("no such symbol nope".to_string())));
    assert_eq!(once("((fn (a b) a) 1)"), Err(EvalError::ArityError(2)));
    assert_eq!(once("((fn () 1) 1)"), Err(EvalError::ArityError(0)));
    assert_eq!(once("((fn (a) a) nope)"), Err(EvalError::Undefined("no such symbol nope".to_string())));
}

#[test]
fn a_closure_over_a_missing_scope_is_refused() {
    let mut env = Env::default();
    let stray = DialVal::Lambda { params: vec![], body: Box::new(DialVal::Int(1)), env: 5 };
    let call = DialVal::List(vec![stray]);
    assert_eq!(eval(call, &mut env, &unit), invalid("closure over a scope that does not exist"));
}

#[test]
fn an_unknown_native_function_is_undefined() {
    let mut env = Env::default();
    let call = DialVal::List(vec![DialVal::Builtin { name: "nope".to_string() }]);
    assert_eq!(eval(call, &mut env, &unit), Err(EvalError::Undefined("nope".to_string())));
}

#[test]
fn arithmetic_without_and_with_one_operand() {
    assert_eq!(once("(+)"), Ok(DialVal::Int(0)));
    assert_eq!(once("(*)"), Ok(DialVal::Int(1)));
    assert_eq!(once("(-)"), Err(EvalError::ArityError(1)));
    assert_eq!(once("(/)"), Err(EvalError::ArityError(1)));
    assert_eq!(once("(+ 5)"), Ok(DialVal::Int(5)));
    assert_eq!(once("(* 5)"), Ok(DialVal::Int(5)));
    assert_eq!(once("(- 5)"), Ok(DialVal::Int(-5)));
    assert_eq!(once("(/ 5)"), Ok(ratio(1, 5)));
    assert_eq!(once("(/ -5)"), Ok(ratio(-1, 5)));
    assert_eq!(once("(/ 1)"), Ok(DialVal::Int(1)));
    assert_eq!(once("(/ 0)"), invalid("cannot divide by zero"));
    assert_eq!(once("(- 2.5)"), Ok(float(-2.5)));
    assert_eq!(once("(/ 4.0)"), Ok(float(0.25)));
    assert_eq!(once("(/ (/ 2 3))"), Ok(ratio(3, 2)));
}

#[test]
fn exact_arithmetic() {
    assert_eq!(once("(+ (/ 1 2) (/ 1 3))"), Ok(ratio(5, 6)));
    assert_eq!(once("(+ (/ 1 2) (/ 1 2))"), Ok(DialVal::Int(1)));
    assert_eq!(once("(- (/ 1 2) (/ 1 2))"), Ok(DialVal::Int(0)));
    assert_eq!(once("(* (/ 2 3) (/ 3 2))"), Ok(DialVal::Int(1)));
    assert_eq!(once("(* (/ 2 3) 3)"), Ok(DialVal::Int(2)));
    assert_eq!(once("(/ (/ 1 2) (/ 1 4))"), Ok(DialVal::Int(2)));
    assert_eq!(once("(/ 1 -3)"), Ok(ratio(-1, 3)));
    assert_eq!(once("(/ -1 -3)"), Ok(ratio(1, 3)));
    assert_eq!(once("(/ -6 4)"), Ok(ratio(-3, 2)));
    assert_eq!(once("(/ 0 5)"), Ok(DialVal::Int(0)));
    assert_eq!(once("(/ 12 2 3)"), Ok(DialVal::Int(2)));
    assert_eq!(once("(/ 1 2 3)"), Ok(ratio(1, 6)));
    assert_eq!(once("(- 10 1 2 3)"), Ok(DialVal::Int(4)));
    assert_eq!(once("(* 2 3 4)"), Ok(DialVal::Int(24)));
}

#[test]
fn division_by_zero_is_an_error_in_every_mode() {
    let zero = invalid("cannot divide by zero");
    assert_eq!(once("(/ 1 0)"), zero);
    assert_eq!(once("(/ 1 2 0)"), zero);
    assert_eq!(once("(/ 1.0 0)"), zero);
    assert_eq!(once("(/ 1 0.0)"), zero);
    assert_eq!(once("(/ 1.5 (- 0.0))"), zero);
    assert_eq!(once("(/ 1.5 2.0 0.0)"), zero);
    assert_eq!(once("(/ (/ 1 2) 0)"), zero);
    assert_eq!(once("(/ (/ 1 2) (- 1 1))"), zero);
    assert_eq!(once("(/ 0.0)"), zero);
}

#[test]
fn floating_point_takes_over() {
    assert_eq!(once("(+ 1 2.5)"), Ok(float(3.5)));
    assert_eq!(once("(+ (/ 1 2) 0.25)"), Ok(float(0.75)));
    assert_eq!(once("(* 2 0.5 4)"), Ok(float(4.0)));
    assert_eq!(once("(- 1 0.5)"), Ok(float(0.5)));
    assert_eq!(once("(/ 1 4.0)"), Ok(float(0.25)));
    assert_eq!(once("(/ 1.0 2 4)"), Ok(float(0.125)));
    assert_eq!(
        once("(+ 9223372036854775807 9223372036854775807 0.0)"),
        Ok(float(9223372036854775807.0 + 9223372036854775807.0))
    );
    assert_eq!(once("(+ 0.1 0.2)"), Ok(float(0.1 + 0.2)));
}

#[test]
fn what_does_not_fit_is_an_error() {
    let over = invalid("integer overflow");
    assert_eq!(once("(+ 9223372036854775807 1)"), over);
    assert_eq!(once("(- -9223372036854775807 2)"), over);
    assert_eq!(once("(* 4611686018427387904 2)"), over);
    assert_eq!(once("(* 3037000500 3037000500)"), over);
    assert_eq!(once("(/ 1 9223372036854775807 2)"), over);
    assert_eq!(once("(+ 9223372036854775806 1)"), Ok(DialVal::Int(i64::MAX)));
    assert_eq!(once("(- -9223372036854775807 1)"), Ok(DialVal::Int(i64::MIN)));
    assert_eq!(once("(- (- -9223372036854775807 1))"), over);
    assert_eq!(once("(/ (- -9223372036854775807 1) -1)"), over);
    assert_eq!(once("(/ 1 (- -9223372036854775807 1))"), over);
    assert_eq!(once("(/ 2 (- -9223372036854775807 1))"), Ok(ratio(-1, 4611686018427387904)));
}

#[test]
fn arithmetic_wants_numbers() {
    let number = Err(EvalError::TypeError("number".to_string()));
    assert_eq!(once("(+ 1 \"2\")"), number);
    assert_eq!(once("(+ nil)"), number);
    assert_eq!(once("(* 1.5 :k)"), number);
    assert_eq!(once("(/ (list) 0)"), number);
    assert_eq!(once("(- true)"), number);
}

#[test]
fn a_ratio_without_a_positive_denominator_is_refused() {
    let mut env = Env::default();
    let bad = invalid("ratio without a positive denominator");
    let call = |op: &str, den: i64| {
        DialVal::List(vec![sym(op), DialVal::Int(1), DialVal::Ratio(Ratio { num: 1, den })])
    };
    assert_eq!(eval(call("+", 0), &mut env, &unit), bad);
    assert_eq!(eval(call("*", -2), &mut env, &unit), bad);
    assert_eq!(
        eval(DialVal::List(vec![sym("+"), float(1.0), DialVal::Ratio(Ratio { num: 1, den: 0 })]), &mut env, &unit),
        bad
    );
}

#[test]
fn equality() {
    assert_eq!(once("(=)"), Err(EvalError::ArityError(1)));
    assert_eq!(once("(= 1)"), Ok(DialVal::Bool(true)));
    assert_eq!(once("(= 1 1 1)"), Ok(DialVal::Bool(true)));
    assert_eq!(once("(= 1 1 2)"), Ok(DialVal::Bool(false)));
    assert_eq!(once("(= 1 1.0)"), Ok(DialVal::Bool(false)));
    assert_eq!(once("(= (/ 2 4) (/ 1 2))"), Ok(DialVal::Bool(true)));
    assert_eq!(once("(= \"a\" \"a\")"), Ok(DialVal::Bool(true)));
    assert_eq!(once("(= :a :a)"), Ok(DialVal::Bool(true)));
    assert_eq!(once("(= :a \"a\")"), Ok(DialVal::Bool(false)));
    assert_eq!(once("(= nil nil)"), Ok(DialVal::Bool(true)));
    assert_eq!(once("(= nil false)"), Ok(DialVal::Bool(false)));
    assert_eq!(once("(= (list 1 2) (list 1 2))"), Ok(DialVal::Bool(true)));
    assert_eq!(once("(= (list 1 2) (list 1 2 3))"), Ok(DialVal::Bool(false)));
    assert_eq!(once("(= (list 1 2 3) (list 1 2))"), Ok(DialVal::Bool(false)));
    assert_eq!(once("(= (list 1 2) [1 2])"), Ok(DialVal::Bool(false)));
    assert_eq!(once("(= [1 [2]] [1 [2]])"), Ok(DialVal::Bool(true)));
    assert_eq!(once("(= + +)"), Ok(DialVal::Bool(true)));
    assert_eq!(once("(= + -)"), Ok(DialVal::Bool(false)));
    assert_eq!(once("(do (def f (fn () 1)) (= f f))"), Ok(DialVal::Bool(false)));
    assert_eq!(once("(do (def f (fn () 1)) (= (list f) (list f)))"), Ok(DialVal::Bool(false)));
}

#[test]
fn special_forms_come_before_bindings() {
    let mut env = Env::default();
    assert_eq!(run(&mut env, "(def if 1)"), Ok(DialVal::Int(1)));
    assert_eq!(run(&mut env, "(if true 2 3)"), Ok(DialVal::Int(2)));
    assert_eq!(run(&mut env, "if"), Ok(DialVal::Int(1)));
}

#[test]
fn an_error_keeps_what_was_defined_before() {
    let mut env = Env::default();
    assert!(run(&mut env, "(do (def kept 1) (nope))").is_err());
    assert_eq!(run(&mut env, "kept"), Ok(DialVal::Int(1)));
    assert!(run(&mut env, "(let (a 1) (nope))").is_err());
    assert!(run(&mut env, "a").is_err());
    assert_eq!(env.current(), 0);
}

#[test]
fn values_print() {
    let show = |text: &str| print(once(text), &unit);
    assert_eq!(show("nil"), "nil");
    assert_eq!(show("true"), "true");
    assert_eq!(show("(- 12)"), "-12");
    assert_eq!(show("1.5"), "1.5");
    assert_eq!(show("(/ -1 3)"), "-1/3");
    assert_eq!(show("\"a b\""), "\"a b\"");
    assert_eq!(show(":key"), ":key");
    assert_eq!(show("+"), "#builtin: +");
    assert_eq!(show("(fn (a) a)"), "#<function>");
    assert_eq!(show("(list 1 (list 2 3) [4])"), "(1 (2 3) [4])");
    assert_eq!(show("()"), "()");
    assert_eq!(show("[1 2]"), "[1 2]");
    assert_eq!(show("[]"), "[]");
    assert_eq!(sym("abc").to_text(&unit), "abc");
}

#[test]
fn errors_print() {
    let show = |text: &str| print(once(text), &unit);
    assert_eq!(show("nope"), "undefined value: no such symbol nope");
    assert_eq!(show("(+ 1 nil)"), "TypeError: expected number");
    assert_eq!(show("(if)"), "ArityError: wrong number of args (1)");
    assert_eq!(show("((fn (a b c d e f g h i j k l) 1))"), "ArityError: wrong number of args (12)");
    assert_eq!(show("(/ 1 0)"), "InvalidArgumentError: cannot divide by zero");
    assert_eq!(EvalError::ArityError(0).to_text(), "ArityError: wrong number of args (0)");
}

#[test]
fn kinds_have_names() {
    let kind = |text: &str| once(text).unwrap().display_type();
    assert_eq!(kind("nil"), "nil");
    assert_eq!(kind("true"), "bool");
    assert_eq!(kind("1"), "int");
    assert_eq!(kind("1.5"), "float");
    assert_eq!(kind("\"s\""), "string");
    assert_eq!(kind(":k"), "keyword");
    assert_eq!(kind("(/ 1 2)"), "ratio");
    assert_eq!(kind("+"), "builtin");
    assert_eq!(kind("(fn () 1)"), "fn");
    assert_eq!(kind("()"), "list");
    assert_eq!(kind("[]"), "vector");
    assert_eq!(sym("s").display_type(), "symbol");
    assert!(DialVal::Int(1).is_number());
    assert!(float(1.0).is_number());
    assert!(!ratio(1, 2).is_number());
    assert!(DialVal::List(vec![]).is_list());
    assert!(!DialVal::Vec(vec![]).is_list());
    assert!(DialVal::Vec(vec![]).is_vector());
    assert!(DialVal::Nil.is_atom());
    assert!(!DialVal::List(vec![]).is_atom());
    assert_eq!(DialVal::Int(3).try_as_int(), Ok(3));
    assert_eq!(float(3.0).try_as_int(), Err(EvalError::TypeError("int".to_string())));
}
