//! The native functions: arithmetic over any number of operands, the list
//! primitives and equality.
use vstd::prelude::*;
use vstd::string::*;
use crate::env::Env;
use crate::error::{outcome, EvalError, EvalResult, Fault};
use crate::float::{float_model, unit_ok, FloatAnswer, FloatCall, FloatModel};
use crate::numeric::{
    is_float_value, is_numeric, is_numeric_value, msg_number, msg_overflow, pair, pair_model, widen,
    widen_model, ArithOp,
};
use crate::value::{equal_model, items_model, kind_model, lemma_list_model, Datum, DialVal, Kind};

verus! {

/// Whether every item from `from` on is a number.
pub open spec fn all_numeric(args: Seq<Datum>, from: nat) -> bool
    decreases args.len() - from,
{
    if from >= args.len() {
        true
    } else {
        is_numeric(args[from as int]) && all_numeric(args, from + 1)
    }
}

/// Whether some item from `from` on is a floating-point number.
pub open spec fn any_float(args: Seq<Datum>, from: nat) -> bool
    decreases args.len() - from,
{
    if from >= args.len() {
        false
    } else {
        args[from as int] is Float || any_float(args, from + 1)
    }
}

/// The operand in place `i` as the operation takes it: widened to a
/// floating-point number where any operand is one.
pub open spec fn operand_model(fm: FloatModel, args: Seq<Datum>, i: int) -> Result<Datum, Fault> {
    if any_float(args, 0) {
        match widen_model(fm, args[i]) {
            Ok(bits) => Ok(Datum::Float(bits)),
            Err(e) => Err(e),
        }
    } else {
        Ok(args[i])
    }
}

/// The operation applied from left to right: to `acc` and the item in
/// place `from`, then to that result and the next item, and so on.
pub open spec fn fold_model(fm: FloatModel, op: ArithOp, acc: Datum, args: Seq<Datum>, from: nat) -> Result<
    Datum,
    Fault,
>
    decreases args.len() - from,
{
    if from >= args.len() {
        Ok(acc)
    } else {
        match pair_model(fm, op, acc, args[from as int]) {
            Err(e) => Err(e),
            Ok(v) => fold_model(fm, op, v, args, from + 1),
        }
    }
}

/// An operation of the tower on any number of operands.
///
/// Without operands, a sum is `0` and a product is `1`; a difference and a
/// quotient want at least one. An operand that is no number is a type
/// error. Where any operand is a floating-point number, the first operand
/// is widened, and so is each further one as it is reached. One operand
/// alone is returned by a sum or a product, negated by a difference and
/// inverted by a quotient. Otherwise a sum, a difference and a product go
/// from left to right, and a quotient divides the first operand by the
/// product of the others.
pub open spec fn nary_model(fm: FloatModel, op: ArithOp, args: Seq<Datum>) -> Result<Datum, Fault> {
    if args.len() == 0 {
        match op {
            ArithOp::Add => Ok(Datum::Int(0)),
            ArithOp::Mul => Ok(Datum::Int(1)),
            _ => Err(Fault::ArityError(1)),
        }
    } else if !all_numeric(args, 0) {
        Err(Fault::TypeError(msg_number()))
    } else {
        match operand_model(fm, args, 0) {
            Err(e) => Err(e),
            Ok(first) => if args.len() == 1 {
                match op {
                    ArithOp::Add => Ok(first),
                    ArithOp::Mul => Ok(first),
                    ArithOp::Sub => pair_model(fm, ArithOp::Sub, Datum::Int(0), first),
                    ArithOp::Div => pair_model(fm, ArithOp::Div, Datum::Int(1), first),
                }
            } else {
                match op {
                    ArithOp::Div => match operand_model(fm, args, 1) {
                        Err(e) => Err(e),
                        Ok(second) => match fold_model(fm, ArithOp::Mul, second, args, 2) {
                            Err(e) => Err(e),
                            Ok(product) => pair_model(fm, ArithOp::Div, first, product),
                        },
                    },
                    _ => fold_model(fm, op, first, args, 1),
                }
            },
        }
    }
}

/// Whether every value is a number.
fn all_numbers(vals: &[DialVal]) -> (r: bool)
    ensures
        r == all_numeric(items_model(vals@), 0),
{
    let ghost ms = items_model(vals@);
    let mut i: usize = vals.len();
    while i > 0
        invariant
            i <= vals@.len(),
            ms == items_model(vals@),
            all_numeric(ms, i as nat),
        decreases i,
    {
        i -= 1;
        assert(ms[i as int] == vals@[i as int]@);
        if !is_numeric_value(&vals[i]) {
            proof {
                lemma_not_all_numeric(ms, 0, i as nat);
            }
            return false;
        }
    }
    true
}

/// An item that is no number makes every run that reaches it fail.
proof fn lemma_not_all_numeric(args: Seq<Datum>, from: nat, bad: nat)
    requires
        from <= bad < args.len(),
        !is_numeric(args[bad as int]),
    ensures
        !all_numeric(args, from),
    decreases bad - from,
{
    if from < bad {
        lemma_not_all_numeric(args, from + 1, bad);
    }
}

/// A floating-point item is found by every run that reaches it.
proof fn lemma_any_float(args: Seq<Datum>, from: nat, found: nat)
    requires
        from <= found < args.len(),
        args[found as int] is Float,
    ensures
        any_float(args, from),
    decreases found - from,
{
    if from < found {
        lemma_any_float(args, from + 1, found);
    }
}

/// Whether some value is a floating-point number.
fn has_float(vals: &[DialVal]) -> (r: bool)
    ensures
        r == any_float(items_model(vals@), 0),
{
    let ghost ms = items_model(vals@);
    let mut i: usize = vals.len();
    while i > 0
        invariant
            i <= vals@.len(),
            ms == items_model(vals@),
            !any_float(ms, i as nat),
        decreases i,
    {
        i -= 1;
        assert(ms[i as int] == vals@[i as int]@);
        if is_float_value(&vals[i]) {
            proof {
                lemma_any_float(ms, 0, i as nat);
            }
            return true;
        }
    }
    false
}

/// The operand in place `i` as the operation takes it.
fn operand<H: Fn(FloatCall) -> FloatAnswer>(vals: &[DialVal], i: usize, floating: bool, fpu: &H) -> (r:
    EvalResult)
    requires
        unit_ok(fpu),
        i < vals@.len(),
        floating == any_float(items_model(vals@), 0),
    ensures
        outcome(r) == operand_model(float_model(fpu), items_model(vals@), i as int),
{
    assert(items_model(vals@)[i as int] == vals@[i as int]@);
    if floating {
        match widen(&vals[i], fpu) {
            Ok(bits) => Ok(DialVal::Float(bits)),
            Err(e) => Err(e),
        }
    } else {
        Ok(vals[i].duplicate())
    }
}

/// The operation applied from left to right, from `first` over the values
/// from `from` on.
fn fold<H: Fn(FloatCall) -> FloatAnswer>(op: ArithOp, first: DialVal, vals: &[DialVal], from: usize, fpu: &H) -> (r:
    EvalResult)
    requires
        unit_ok(fpu),
        from <= vals@.len(),
    ensures
        outcome(r) == fold_model(float_model(fpu), op, first@, items_model(vals@), from as nat),
{
    let ghost fm = float_model(fpu);
    let ghost ms = items_model(vals@);
    let ghost start = first@;
    let mut acc = first;
    let mut i: usize = from;
    while i < vals.len()
        invariant
            unit_ok(fpu),
            fm == float_model(fpu),
            ms == items_model(vals@),
            from <= i <= vals@.len(),
            start == first@,
            fold_model(fm, op, acc@, ms, i as nat) == fold_model(fm, op, start, ms, from as nat),
        decreases vals@.len() - i,
    {
        assert(ms[i as int] == vals@[i as int]@);
        let step = pair(op, &acc, &vals[i], fpu);
        assert(outcome(step) == pair_model(fm, op, acc@, ms[i as int]));
        match step {
            Err(e) => {
                assert(fold_model(fm, op, acc@, ms, i as nat) == Err::<Datum, Fault>(e@));
                return Err(e);
            },
            Ok(v) => {
                assert(fold_model(fm, op, acc@, ms, i as nat) == fold_model(
                    fm,
                    op,
                    v@,
                    ms,
                    (i + 1) as nat,
                ));
                acc = v;
            },
        }
        i += 1;
    }
    Ok(acc)
}

/// An operation of the tower on any number of operands.
pub fn nary<H: Fn(FloatCall) -> FloatAnswer>(op: ArithOp, vals: &[DialVal], fpu: &H) -> (r: EvalResult)
    requires
        unit_ok(fpu),
    ensures
        outcome(r) == nary_model(float_model(fpu), op, items_model(vals@)),
{
    if vals.len() == 0 {
        return match op {
            ArithOp::Add => Ok(DialVal::Int(0)),
            ArithOp::Mul => Ok(DialVal::Int(1)),
            _ => Err(EvalError::ArityError(1)),
        };
    }
    if !all_numbers(vals) {
        return Err(EvalError::TypeError(String::from_str("number")));
    }
    let floating = has_float(vals);
    let first = match operand(vals, 0, floating, fpu) {
        Err(e) => {
            return Err(e);
        },
        Ok(v) => v,
    };
    if vals.len() == 1 {
        return match op {
            ArithOp::Add => Ok(first),
            ArithOp::Mul => Ok(first),
            ArithOp::Sub => pair(ArithOp::Sub, &DialVal::Int(0), &first, fpu),
            ArithOp::Div => pair(ArithOp::Div, &DialVal::Int(1), &first, fpu),
        };
    }
    match op {
        ArithOp::Div => {
            let second = match operand(vals, 1, floating, fpu) {
                Err(e) => {
                    return Err(e);
                },
                Ok(v) => v,
            };
            match fold(ArithOp::Mul, second, vals, 2, fpu) {
                Err(e) => Err(e),
                Ok(product) => pair(ArithOp::Div, &first, &product, fpu),
            }
        },
        _ => fold(op, first, vals, 1, fpu),
    }
}

/// The sum of the operands.
pub fn add<H: Fn(FloatCall) -> FloatAnswer>(vals: &[DialVal], env: &mut Env, fpu: &H) -> (r: EvalResult)
    requires
        unit_ok(fpu),
    ensures
        outcome(r) == nary_model(float_model(fpu), ArithOp::Add, items_model(vals@)),
        final(env)@ == old(env)@,
{
    nary(ArithOp::Add, vals, fpu)
}

/// The first operand less each of the others; the negation of one operand.
pub fn sub<H: Fn(FloatCall) -> FloatAnswer>(vals: &[DialVal], env: &mut Env, fpu: &H) -> (r: EvalResult)
    requires
        unit_ok(fpu),
    ensures
        outcome(r) == nary_model(float_model(fpu), ArithOp::Sub, items_model(vals@)),
        final(env)@ == old(env)@,
{
    nary(ArithOp::Sub, vals, fpu)
}

/// The product of the operands.
pub fn mul<H: Fn(FloatCall) -> FloatAnswer>(vals: &[DialVal], env: &mut Env, fpu: &H) -> (r: EvalResult)
    requires
        unit_ok(fpu),
    ensures
        outcome(r) == nary_model(float_model(fpu), ArithOp::Mul, items_model(vals@)),
        final(env)@ == old(env)@,
{
    nary(ArithOp::Mul, vals, fpu)
}

/// The first operand divided by the product of the others; the inverse of
/// one operand.
pub fn div<H: Fn(FloatCall) -> FloatAnswer>(vals: &[DialVal], env: &mut Env, fpu: &H) -> (r: EvalResult)
    requires
        unit_ok(fpu),
    ensures
        outcome(r) == nary_model(float_model(fpu), ArithOp::Div, items_model(vals@)),
        final(env)@ == old(env)@,
{
    nary(ArithOp::Div, vals, fpu)
}

/// A list of the operands.
pub fn list<H: Fn(FloatCall) -> FloatAnswer>(vals: &[DialVal], env: &mut Env, fpu: &H) -> (r: EvalResult)
    ensures
        outcome(r) == Ok::<Datum, Fault>(Datum::List(items_model(vals@))),
        final(env)@ == old(env)@,
{
    let mut out: Vec<DialVal> = Vec::new();
    let mut i: usize = 0;
    while i < vals.len()
        invariant
            i <= vals@.len(),
            out@.len() == i,
            forall|j: int| 0 <= j < i ==> out@[j]@ == vals@[j]@,
        decreases vals@.len() - i,
    {
        out.push(vals[i].duplicate());
        i += 1;
    }
    proof {
        lemma_list_model(out);
        assert(items_model(out@) =~= items_model(vals@));
    }
    Ok(DialVal::List(out))
}

/// What a function of one operand answers to a wrong number of operands.
pub open spec fn one_operand(args: Seq<Datum>) -> Option<Fault> {
    if args.len() == 0 {
        Some(Fault::ArityError(1))
    } else if args.len() > 1 {
        Some(Fault::ArityError(2))
    } else {
        None
    }
}

/// Whether the one operand is of the kind `kind`.
pub open spec fn kind_test_model(kind: Kind, args: Seq<Datum>) -> Result<Datum, Fault> {
    match one_operand(args) {
        Some(f) => Err(f),
        None => Ok(Datum::Bool(kind_model(args[0]) == kind)),
    }
}

/// Whether the one operand, a list, has no items.
pub open spec fn is_empty_model(args: Seq<Datum>) -> Result<Datum, Fault> {
    match one_operand(args) {
        Some(f) => Err(f),
        None => match args[0] {
            Datum::List(items) => Ok(Datum::Bool(items.len() == 0)),
            _ => Err(Fault::InvalidArgumentError("empty? only valid on lists"@)),
        },
    }
}

/// The number of items of the one operand, a list.
pub open spec fn count_model(args: Seq<Datum>) -> Result<Datum, Fault> {
    match one_operand(args) {
        Some(f) => Err(f),
        None => match args[0] {
            Datum::List(items) => if items.len() <= i64::MAX {
                Ok(Datum::Int(items.len() as int))
            } else {
                Err(Fault::InvalidArgumentError(msg_overflow()))
            },
            _ => Err(Fault::InvalidArgumentError("count only valid on lists"@)),
        },
    }
}

/// Whether every operand from `from` on equals the first.
pub open spec fn all_equal(args: Seq<Datum>, from: nat) -> bool
    decreases args.len() - from,
{
    if from >= args.len() {
        true
    } else {
        equal_model(args[0], args[from as int]) && all_equal(args, from + 1)
    }
}

/// Whether all operands are equal; at least one operand is wanted.
pub open spec fn eq_model(args: Seq<Datum>) -> Result<Datum, Fault> {
    if args.len() == 0 {
        Err(Fault::ArityError(1))
    } else {
        Ok(Datum::Bool(all_equal(args, 1)))
    }
}

/// Checks that there is exactly one operand.
fn check_one(vals: &[DialVal]) -> (r: Result<(), EvalError>)
    ensures
        match r {
            Ok(_) => one_operand(items_model(vals@)) is None && vals@.len() == 1,
            Err(e) => one_operand(items_model(vals@)) == Some(e@),
        },
{
    if vals.len() == 0 {
        Err(EvalError::ArityError(1))
    } else if vals.len() > 1 {
        Err(EvalError::ArityError(2))
    } else {
        Ok(())
    }
}

/// Whether the one operand is of the kind `kind`.
pub fn kind_test(kind: Kind, vals: &[DialVal]) -> (r: EvalResult)
    ensures
        outcome(r) == kind_test_model(kind, items_model(vals@)),
{
    match check_one(vals) {
        Err(e) => Err(e),
        Ok(_) => {
            assert(items_model(vals@)[0] == vals@[0]@);
            Ok(DialVal::Bool(same_kind(vals[0].kind(), kind)))
        },
    }
}

/// Whether two kinds are the same.
pub fn same_kind(a: Kind, b: Kind) -> (r: bool)
    ensures
        r == (a == b),
{
    match (a, b) {
        (Kind::Nil, Kind::Nil) => true,
        (Kind::Bool, Kind::Bool) => true,
        (Kind::Int, Kind::Int) => true,
        (Kind::Float, Kind::Float) => true,
        (Kind::Str, Kind::Str) => true,
        (Kind::Sym, Kind::Sym) => true,
        (Kind::Keyword, Kind::Keyword) => true,
        (Kind::Ratio, Kind::Ratio) => true,
        (Kind::Builtin, Kind::Builtin) => true,
        (Kind::Lambda, Kind::Lambda) => true,
        (Kind::List, Kind::List) => true,
        (Kind::Vector, Kind::Vector) => true,
        _ => false,
    }
}

/// Whether the one operand is a list.
pub fn is_list<H: Fn(FloatCall) -> FloatAnswer>(vals: &[DialVal], env: &mut Env, fpu: &H) -> (r: EvalResult)
    ensures
        outcome(r) == kind_test_model(Kind::List, items_model(vals@)),
        final(env)@ == old(env)@,
{
    kind_test(Kind::List, vals)
}

/// Whether the one operand is an integer.
pub fn is_int<H: Fn(FloatCall) -> FloatAnswer>(vals: &[DialVal], env: &mut Env, fpu: &H) -> (r: EvalResult)
    ensures
        outcome(r) == kind_test_model(Kind::Int, items_model(vals@)),
        final(env)@ == old(env)@,
{
    kind_test(Kind::Int, vals)
}

/// Whether the one operand is a floating-point number.
pub fn is_float<H: Fn(FloatCall) -> FloatAnswer>(vals: &[DialVal], env: &mut Env, fpu: &H) -> (r: EvalResult)
    ensures
        outcome(r) == kind_test_model(Kind::Float, items_model(vals@)),
        final(env)@ == old(env)@,
{
    kind_test(Kind::Float, vals)
}

/// Whether the one operand is a string.
pub fn is_string<H: Fn(FloatCall) -> FloatAnswer>(vals: &[DialVal], env: &mut Env, fpu: &H) -> (r: EvalResult)
    ensures
        outcome(r) == kind_test_model(Kind::Str, items_model(vals@)),
        final(env)@ == old(env)@,
{
    kind_test(Kind::Str, vals)
}

/// Whether the one operand is an exact rational.
pub fn is_ratio<H: Fn(FloatCall) -> FloatAnswer>(vals: &[DialVal], env: &mut Env, fpu: &H) -> (r: EvalResult)
    ensures
        outcome(r) == kind_test_model(Kind::Ratio, items_model(vals@)),
        final(env)@ == old(env)@,
{
    kind_test(Kind::Ratio, vals)
}

/// Whether the one operand is a keyword.
pub fn is_keyword<H: Fn(FloatCall) -> FloatAnswer>(vals: &[DialVal], env: &mut Env, fpu: &H) -> (r: EvalResult)
    ensures
        outcome(r) == kind_test_model(Kind::Keyword, items_model(vals@)),
        final(env)@ == old(env)@,
{
    kind_test(Kind::Keyword, vals)
}

/// Whether the one operand is a symbol.
pub fn is_symbol<H: Fn(FloatCall) -> FloatAnswer>(vals: &[DialVal], env: &mut Env, fpu: &H) -> (r: EvalResult)
    ensures
        outcome(r) == kind_test_model(Kind::Sym, items_model(vals@)),
        final(env)@ == old(env)@,
{
    kind_test(Kind::Sym, vals)
}

/// Whether the one operand, a list, has no items.
pub fn is_empty<H: Fn(FloatCall) -> FloatAnswer>(vals: &[DialVal], env: &mut Env, fpu: &H) -> (r: EvalResult)
    ensures
        outcome(r) == is_empty_model(items_model(vals@)),
        final(env)@ == old(env)@,
{
    match check_one(vals) {
        Err(e) => Err(e),
        Ok(_) => {
            assert(items_model(vals@)[0] == vals@[0]@);
            match &vals[0] {
                DialVal::List(items) => {
                    proof {
                        lemma_list_model(*items);
                    }
                    Ok(DialVal::Bool(items.len() == 0))
                },
                _ => Err(EvalError::InvalidArgumentError(String::from_str("empty? only valid on lists"))),
            }
        },
    }
}

/// The number of items of the one operand, a list.
pub fn count<H: Fn(FloatCall) -> FloatAnswer>(vals: &[DialVal], env: &mut Env, fpu: &H) -> (r: EvalResult)
    ensures
        outcome(r) == count_model(items_model(vals@)),
        final(env)@ == old(env)@,
{
    match check_one(vals) {
        Err(e) => Err(e),
        Ok(_) => {
            assert(items_model(vals@)[0] == vals@[0]@);
            match &vals[0] {
                DialVal::List(items) => {
                    proof {
                        lemma_list_model(*items);
                    }
                    let n = items.len();
                    if n as u128 <= 0x7fff_ffff_ffff_ffffu128 {
                        Ok(DialVal::Int(n as i64))
                    } else {
                        Err(EvalError::InvalidArgumentError(String::from_str("integer overflow")))
                    }
                },
                _ => Err(EvalError::InvalidArgumentError(String::from_str("count only valid on lists"))),
            }
        },
    }
}

/// Whether all operands are equal.
pub fn eq<H: Fn(FloatCall) -> FloatAnswer>(vals: &[DialVal], env: &mut Env, fpu: &H) -> (r: EvalResult)
    ensures
        outcome(r) == eq_model(items_model(vals@)),
        final(env)@ == old(env)@,
{
    if vals.len() == 0 {
        return Err(EvalError::ArityError(1));
    }
    let ghost ms = items_model(vals@);
    let mut i: usize = vals.len();
    while i > 1
        invariant
            1 <= i <= vals@.len(),
            ms == items_model(vals@),
            all_equal(ms, i as nat),
        decreases i,
    {
        i -= 1;
        assert(ms[i as int] == vals@[i as int]@);
        assert(ms[0] == vals@[0]@);
        if !vals[0].equals(&vals[i]) {
            proof {
                lemma_not_all_equal(ms, 1, i as nat);
            }
            return Ok(DialVal::Bool(false));
        }
    }
    Ok(DialVal::Bool(true))
}

/// An operand that differs from the first makes every run that reaches it
/// fail.
proof fn lemma_not_all_equal(args: Seq<Datum>, from: nat, bad: nat)
    requires
        from <= bad < args.len(),
        !equal_model(args[0], args[bad as int]),
    ensures
        !all_equal(args, from),
    decreases bad - from,
{
    if from < bad {
        lemma_not_all_equal(args, from + 1, bad);
    }
}

/// What the native function called `name` answers to the operands; an
/// unknown name is undefined.
pub open spec fn apply_model(fm: FloatModel, name: Seq<char>, args: Seq<Datum>) -> Result<Datum, Fault> {
    if name == "+"@ {
        nary_model(fm, ArithOp::Add, args)
    } else if name == "-"@ {
        nary_model(fm, ArithOp::Sub, args)
    } else if name == "*"@ {
        nary_model(fm, ArithOp::Mul, args)
    } else if name == "/"@ {
        nary_model(fm, ArithOp::Div, args)
    } else if name == "list"@ {
        Ok(Datum::List(args))
    } else if name == "list?"@ {
        kind_test_model(Kind::List, args)
    } else if name == "empty?"@ {
        is_empty_model(args)
    } else if name == "count"@ {
        count_model(args)
    } else if name == "="@ {
        eq_model(args)
    } else {
        Err(Fault::Undefined(name))
    }
}

/// Whether a string is the given text.
pub fn is_text(s: &String, text: &str) -> (r: bool)
    ensures
        r == (s@ == text@),
{
    let other = String::from_str(text);
    *s == other
}

/// Calls the native function called `name`.
pub fn apply<H: Fn(FloatCall) -> FloatAnswer>(name: &String, vals: &[DialVal], env: &mut Env, fpu: &H) -> (r:
    EvalResult)
    requires
        unit_ok(fpu),
    ensures
        outcome(r) == apply_model(float_model(fpu), name@, items_model(vals@)),
        final(env)@ == old(env)@,
{
    if is_text(name, "+") {
        self::add(vals, env, fpu)
    } else if is_text(name, "-") {
        self::sub(vals, env, fpu)
    } else if is_text(name, "*") {
        self::mul(vals, env, fpu)
    } else if is_text(name, "/") {
        div(vals, env, fpu)
    } else if is_text(name, "list") {
        list(vals, env, fpu)
    } else if is_text(name, "list?") {
        is_list(vals, env, fpu)
    } else if is_text(name, "empty?") {
        is_empty(vals, env, fpu)
    } else if is_text(name, "count") {
        count(vals, env, fpu)
    } else if is_text(name, "=") {
        eq(vals, env, fpu)
    } else {
        Err(EvalError::Undefined(name.clone()))
    }
}

/// A run from a floating-point number gives a floating-point number.
pub proof fn lemma_fold_floating(fm: FloatModel, op: ArithOp, acc: Datum, args: Seq<Datum>, from: nat)
    requires
        acc is Float,
    ensures
        fold_model(fm, op, acc, args, from) matches Ok(v) ==> v is Float,
    decreases args.len() - from,
{
    if from < args.len() {
        match pair_model(fm, op, acc, args[from as int]) {
            Err(_) => {},
            Ok(v) => {
                lemma_fold_floating(fm, op, v, args, from + 1);
            },
        }
    }
}

/// A run from an exact number over exact numbers gives an exact number.
pub proof fn lemma_fold_exact(fm: FloatModel, op: ArithOp, acc: Datum, args: Seq<Datum>, from: nat)
    requires
        !(acc is Float),
        !any_float(args, from),
    ensures
        fold_model(fm, op, acc, args, from) matches Ok(v) ==> !(v is Float),
    decreases args.len() - from,
{
    if from < args.len() {
        match pair_model(fm, op, acc, args[from as int]) {
            Err(_) => {},
            Ok(v) => {
                lemma_fold_exact(fm, op, v, args, from + 1);
            },
        }
    }
}

/// Promotion: an operation on one operand or more gives a floating-point
/// number where an operand is one, and an exact number where none is.
pub proof fn lemma_nary_promotes(fm: FloatModel, op: ArithOp, args: Seq<Datum>)
    requires
        args.len() > 0,
    ensures
        nary_model(fm, op, args) matches Ok(v) ==> (v is Float <==> any_float(args, 0)),
{
    if all_numeric(args, 0) {
        match operand_model(fm, args, 0) {
            Err(_) => {},
            Ok(first) => {
                assert(first is Float <==> any_float(args, 0));
                if args.len() > 1 {
                    if any_float(args, 0) {
                        lemma_fold_floating(fm, op, first, args, 1);
                        match operand_model(fm, args, 1) {
                            Ok(second) => {
                                lemma_fold_floating(fm, ArithOp::Mul, second, args, 2);
                            },
                            Err(_) => {},
                        }
                    } else {
                        assert(!any_float(args, 1));
                        assert(!any_float(args, 2));
                        lemma_fold_exact(fm, op, first, args, 1);
                        lemma_fold_exact(fm, ArithOp::Mul, args[1], args, 2);
                    }
                }
            },
        }
    }
}

/// The list primitives agree: the list of some operands is a list, has as
/// many items as there are operands, and is empty where there is none.
pub proof fn lemma_list_primitives(fm: FloatModel, args: Seq<Datum>)
    requires
        args.len() <= i64::MAX,
    ensures
        apply_model(fm, "list"@, args) matches Ok(l) && apply_model(fm, "list?"@, seq![l]) == Ok::<
            Datum,
            Fault,
        >(Datum::Bool(true)) && apply_model(fm, "count"@, seq![l]) == Ok::<Datum, Fault>(
            Datum::Int(args.len() as int),
        ) && apply_model(fm, "empty?"@, seq![l]) == Ok::<Datum, Fault>(
            Datum::Bool(args.len() == 0),
        ),
{
    reveal_strlit("+");
    reveal_strlit("-");
    reveal_strlit("*");
    reveal_strlit("/");
    reveal_strlit("list");
    reveal_strlit("list?");
    reveal_strlit("empty?");
    reveal_strlit("count");
    let l = Datum::List(args);
    assert("+"@.len() == 1 && "-"@.len() == 1 && "*"@.len() == 1 && "/"@.len() == 1);
    assert("list"@.len() == 4 && "list?"@.len() == 5 && "empty?"@.len() == 6 && "count"@.len() == 5);
    assert("list?"@[0] == 'l' && "count"@[0] == 'c');
    assert("list"@ != "+"@ && "list"@ != "-"@ && "list"@ != "*"@ && "list"@ != "/"@);
    assert("list?"@ != "+"@ && "list?"@ != "-"@ && "list?"@ != "*"@ && "list?"@ != "/"@ && "list?"@
        != "list"@);
    assert("empty?"@ != "+"@ && "empty?"@ != "-"@ && "empty?"@ != "*"@ && "empty?"@ != "/"@
        && "empty?"@ != "list"@ && "empty?"@ != "list?"@);
    assert("count"@ != "+"@ && "count"@ != "-"@ && "count"@ != "*"@ && "count"@ != "/"@ && "count"@
        != "list"@ && "count"@ != "list?"@ && "count"@ != "empty?"@);
    assert(apply_model(fm, "list"@, args) == Ok::<Datum, Fault>(l));
    assert(one_operand(seq![l]) is None);
    assert(seq![l][0] == l);
}

} // verus!
