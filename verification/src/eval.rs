//! The evaluator.
//!
//! `eval_model` says what an expression evaluates to in an environment;
//! `eval` computes it. An evaluation is a run of steps: a step either ends
//! the run with a result or replaces the expression by one in tail
//! position, so a call in tail position costs no nesting. Operands,
//! conditions and bindings are evaluated one level deeper. Both the length
//! of a run and the depth of nesting are bounded.
use vstd::prelude::*;
use vstd::string::*;
use crate::builtin::{apply, apply_model, is_text};
use crate::env::{Chain, Env};
use crate::error::{outcome, EvalError, EvalResult, Fault};
use crate::float::{float_model, unit_ok, FloatAnswer, FloatCall, FloatModel};
use crate::show::text_model;
use crate::value::{items_model, lemma_list_model, names_model, Datum, DialVal};

verus! {

/// The deepest nesting of evaluations that `eval` allows.
pub const MAX_DEPTH: usize = 256;

/// The longest run of steps of one evaluation.
pub const MAX_STEPS: u64 = 0xffff_ffff_ffff_ffff;

/// What an evaluation gives: a value or an error, and the environment it
/// leaves.
pub struct Evaluation {
    pub result: Result<Datum, Fault>,
    pub chain: Chain,
}

/// What the evaluation of several expressions gives.
pub struct Evaluations {
    pub result: Result<Seq<Datum>, Fault>,
    pub chain: Chain,
}

/// What a step gives: the end of the run, or the expression and the
/// environment that the run goes on with.
pub enum FlowModel {
    Done(Evaluation),
    Tail(Datum, Chain),
}

/// What an evaluation that spent its levels of nesting is called.
pub open spec fn msg_too_deep() -> Seq<char> {
    "evaluation nested too deep"@
}

/// What an evaluation that spent its steps is called.
pub open spec fn msg_too_long() -> Seq<char> {
    "evaluation ran too long"@
}

/// What `def` says of a name that is no symbol.
pub open spec fn msg_def_symbol() -> Seq<char> {
    "'def' requires binding to symbol"@
}

/// What `let` says of bindings that are no list of pairs.
pub open spec fn msg_let_bindings() -> Seq<char> {
    "let binding expects a list of associations"@
}

/// What a closure whose scope is not in the environment is called.
pub open spec fn msg_no_scope() -> Seq<char> {
    "closure over a scope that does not exist"@
}

/// What is expected where a name must stand.
pub open spec fn msg_symbol() -> Seq<char> {
    "symbol"@
}

/// What is expected where the parameters must stand.
pub open spec fn msg_list() -> Seq<char> {
    "list"@
}

/// A run that ends with `result` in `chain`.
pub open spec fn done(result: Result<Datum, Fault>, chain: Chain) -> FlowModel {
    FlowModel::Done(Evaluation { result, chain })
}

/// The fault of a form that wants `want` operands and has `n`: the place,
/// counted from one, of the first operand that is missing or in excess.
pub open spec fn arity_fault(n: nat, want: nat) -> Option<Fault> {
    if n < want {
        Some(Fault::ArityError(n + 1))
    } else if n > want {
        Some(Fault::ArityError(want + 1))
    } else {
        None
    }
}

/// Only `nil` and `false` count as false.
pub open spec fn truthy(d: Datum) -> bool {
    !(d is Nil) && d != Datum::Bool(false)
}

/// Whether every item from `from` on, taking every `stride`-th, is a
/// symbol.
pub open spec fn all_symbols(items: Seq<Datum>, from: nat, stride: nat) -> bool
    decreases items.len() + stride - from,
{
    if from >= items.len() || stride == 0 {
        true
    } else {
        items[from as int] is Sym && all_symbols(items, from + stride, stride)
    }
}

/// The names of a sequence of symbols.
pub open spec fn symbol_names(items: Seq<Datum>) -> Seq<Seq<char>> {
    Seq::new(items.len(), |i: int| items[i]->Sym_0)
}

/// What an expression evaluates to in an environment, with `depth` levels
/// of nesting to spend. The environment that is left has the innermost
/// scope it had before, and of the scopes that the evaluation made only
/// the anchored ones.
pub open spec fn eval_model(fm: FloatModel, expr: Datum, chain: Chain, depth: nat) -> Evaluation
    decreases depth, 3nat, 0nat,
{
    if depth == 0 {
        Evaluation { result: Err(Fault::InvalidArgumentError(msg_too_deep())), chain }
    } else {
        let run = run_model(fm, expr, chain, depth, MAX_STEPS as nat, chain.frames.len());
        Evaluation {
            result: run.result,
            chain: run.chain.leave(chain.frames.len(), chain.current),
        }
    }
}

/// A run of at most `steps` steps from an expression. The scopes from
/// `base` on are those that the run made itself.
pub open spec fn run_model(
    fm: FloatModel,
    expr: Datum,
    chain: Chain,
    depth: nat,
    steps: nat,
    base: nat,
) -> Evaluation
    decreases depth, 2nat, steps,
{
    if steps == 0 {
        Evaluation { result: Err(Fault::InvalidArgumentError(msg_too_long())), chain }
    } else {
        match step_model(fm, expr, chain, depth, base) {
            FlowModel::Done(e) => e,
            FlowModel::Tail(next, c) => run_model(fm, next, c, depth, (steps - 1) as nat, base),
        }
    }
}

/// One step.
///
/// A symbol is looked up. The items of a vector are evaluated from left to
/// right. The empty list and every other atom stand for themselves. A list
/// whose first item is one of the symbols `def`, `let`, `if`, `fn` and `do`
/// is that special form; any other list is a call.
pub open spec fn step_model(fm: FloatModel, expr: Datum, chain: Chain, depth: nat, base: nat) -> FlowModel
    decreases depth, 1nat, 0nat,
{
    match expr {
        Datum::Sym(s) => match chain.lookup(s) {
            Some(v) => done(Ok(v), chain),
            None => done(Err(Fault::Undefined("no such symbol "@ + s)), chain),
        },
        Datum::Vector(items) => if depth == 0 {
            done(Err(Fault::InvalidArgumentError(msg_too_deep())), chain)
        } else {
            let r = items_eval_model(fm, items, 0, items.len(), chain, (depth - 1) as nat);
            match r.result {
                Ok(vs) => done(Ok(Datum::Vector(vs)), r.chain),
                Err(e) => done(Err(e), r.chain),
            }
        },
        Datum::List(items) => if items.len() == 0 {
            done(Ok(expr), chain)
        } else if depth == 0 {
            done(Err(Fault::InvalidArgumentError(msg_too_deep())), chain)
        } else if items[0] == Datum::Sym("def"@) {
            def_model(fm, items, chain, depth)
        } else if items[0] == Datum::Sym("let"@) {
            let_model(fm, items, chain, depth)
        } else if items[0] == Datum::Sym("if"@) {
            if_model(fm, items, chain, depth)
        } else if items[0] == Datum::Sym("fn"@) {
            fn_model(items, chain)
        } else if items[0] == Datum::Sym("do"@) {
            do_model(fm, items, chain, depth)
        } else {
            call_model(fm, items, chain, depth, base)
        },
        _ => done(Ok(expr), chain),
    }
}

/// `(def name expr)`: evaluates the expression, binds the value to the name
/// in the global scope and gives the value.
pub open spec fn def_model(fm: FloatModel, items: Seq<Datum>, chain: Chain, depth: nat) -> FlowModel
    decreases depth, 0nat, 0nat,
{
    match arity_fault((items.len() - 1) as nat, 2) {
        Some(f) => done(Err(f), chain),
        None => match items[1] {
            Datum::Sym(name) => if depth == 0 {
                done(Err(Fault::InvalidArgumentError(msg_too_deep())), chain)
            } else {
                let r = eval_model(fm, items[2], chain, (depth - 1) as nat);
                match r.result {
                    Ok(v) => done(Ok(v), r.chain.define_global(name, v)),
                    Err(e) => done(Err(e), r.chain),
                }
            },
            _ => done(Err(Fault::InvalidArgumentError(msg_def_symbol())), chain),
        },
    }
}

/// `(let (name expr ...) body)`: enters a new scope, evaluates each
/// expression in it and binds the value to the name before the next is
/// evaluated, and goes on with the body in that scope.
pub open spec fn let_model(fm: FloatModel, items: Seq<Datum>, chain: Chain, depth: nat) -> FlowModel
    decreases depth, 0nat, 0nat,
{
    match arity_fault((items.len() - 1) as nat, 2) {
        Some(f) => done(Err(f), chain),
        None => match items[1] {
            Datum::List(bindings) => if bindings.len() % 2 != 0 {
                done(Err(Fault::InvalidArgumentError(msg_let_bindings())), chain)
            } else if !all_symbols(bindings, 0, 2) {
                done(Err(Fault::TypeError(msg_symbol())), chain)
            } else if depth == 0 {
                done(Err(Fault::InvalidArgumentError(msg_too_deep())), chain)
            } else {
                let r = bindings_model(
                    fm,
                    bindings,
                    0,
                    chain.push(chain.current),
                    (depth - 1) as nat,
                );
                match r.result {
                    Ok(_) => FlowModel::Tail(items[2], r.chain),
                    Err(e) => done(Err(e), r.chain),
                }
            },
            _ => done(Err(Fault::InvalidArgumentError(msg_let_bindings())), chain),
        },
    }
}

/// The bindings of a `let` from place `from` on, in turn.
pub open spec fn bindings_model(fm: FloatModel, bindings: Seq<Datum>, from: nat, chain: Chain, depth: nat) -> Evaluation
    decreases depth, 4nat, bindings.len() - from,
{
    if from + 1 >= bindings.len() {
        Evaluation { result: Ok(Datum::Nil), chain }
    } else {
        let r = eval_model(fm, bindings[from as int + 1], chain, depth);
        match r.result {
            Ok(v) => bindings_model(
                fm,
                bindings,
                from + 2,
                r.chain.define_local(bindings[from as int]->Sym_0, v),
                depth,
            ),
            Err(e) => r,
        }
    }
}

/// `(if cond then else)`: evaluates the condition and goes on with the
/// second branch where it is `nil` or `false`, with the first otherwise.
pub open spec fn if_model(fm: FloatModel, items: Seq<Datum>, chain: Chain, depth: nat) -> FlowModel
    decreases depth, 0nat, 0nat,
{
    match arity_fault((items.len() - 1) as nat, 3) {
        Some(f) => done(Err(f), chain),
        None => if depth == 0 {
            done(Err(Fault::InvalidArgumentError(msg_too_deep())), chain)
        } else {
            let r = eval_model(fm, items[1], chain, (depth - 1) as nat);
            match r.result {
                Ok(c) => FlowModel::Tail(
                    if truthy(c) {
                        items[2]
                    } else {
                        items[3]
                    },
                    r.chain,
                ),
                Err(e) => done(Err(e), r.chain),
            }
        },
    }
}

/// `(fn (param ...) body)`: a closure over the innermost scope, which is
/// anchored.
pub open spec fn fn_model(items: Seq<Datum>, chain: Chain) -> FlowModel {
    match arity_fault((items.len() - 1) as nat, 2) {
        Some(f) => done(Err(f), chain),
        None => match items[1] {
            Datum::List(params) => if !all_symbols(params, 0, 1) {
                done(Err(Fault::TypeError(msg_symbol())), chain)
            } else {
                done(
                    Ok(
                        Datum::Lambda {
                            params: symbol_names(params),
                            body: Box::new(items[2]),
                            env: chain.current,
                        },
                    ),
                    chain.anchor(),
                )
            },
            _ => done(Err(Fault::TypeError(msg_list())), chain),
        },
    }
}

/// `(do expr ... last)`: evaluates the expressions in turn and goes on with
/// the last; without an expression it gives `nil`.
pub open spec fn do_model(fm: FloatModel, items: Seq<Datum>, chain: Chain, depth: nat) -> FlowModel
    decreases depth, 0nat, 0nat,
{
    if items.len() == 1 {
        done(Ok(Datum::Nil), chain)
    } else if depth == 0 {
        done(Err(Fault::InvalidArgumentError(msg_too_deep())), chain)
    } else {
        let r = items_eval_model(fm, items, 1, (items.len() - 1) as nat, chain, (depth - 1) as nat);
        match r.result {
            Ok(_) => FlowModel::Tail(items[items.len() - 1], r.chain),
            Err(e) => done(Err(e), r.chain),
        }
    }
}

/// A call: evaluates the first item, then the others from left to right.
/// A native function is applied to the operands. A closure with as many
/// parameters as there are operands gets a new scope under the one it was
/// made in, with the parameters bound to the operands, and the run goes on
/// with its body. Anything else is no function.
pub open spec fn call_model(fm: FloatModel, items: Seq<Datum>, chain: Chain, depth: nat, base: nat) -> FlowModel
    decreases depth, 0nat, 0nat,
{
    if depth == 0 {
        done(Err(Fault::InvalidArgumentError(msg_too_deep())), chain)
    } else {
        let head = eval_model(fm, items[0], chain, (depth - 1) as nat);
        match head.result {
            Err(e) => done(Err(e), head.chain),
            Ok(f) => {
                let rest = items_eval_model(fm, items, 1, items.len(), head.chain, (depth - 1) as nat);
                match rest.result {
                    Err(e) => done(Err(e), rest.chain),
                    Ok(args) => apply_to_model(fm, items[0], f, args, rest.chain, base),
                }
            },
        }
    }
}

/// The application of the value `f`, which the expression `head` gave, to
/// evaluated operands. Before a closure gets its scope, the run gives up
/// the scopes it made so far, but for the anchored ones: the run goes on
/// with the body alone, so nothing can reach them any more.
pub open spec fn apply_to_model(
    fm: FloatModel,
    head: Datum,
    f: Datum,
    args: Seq<Datum>,
    chain: Chain,
    base: nat,
) -> FlowModel {
    match f {
        Datum::Builtin(name) => done(apply_model(fm, name, args), chain),
        Datum::Lambda { params, body, env } => if params.len() != args.len() {
            done(Err(Fault::ArityError(params.len())), chain)
        } else if env >= chain.kept(base) {
            done(Err(Fault::InvalidArgumentError(msg_no_scope())), chain)
        } else {
            FlowModel::Tail(*body, chain.leave(base, env).push(env).bind(params, args))
        },
        _ => done(Err(Fault::TypeError(text_model(fm, head) + " is not a function"@)), chain),
    }
}

/// The values of the items in places `from` to `to`, evaluated from left
/// to right; the first error ends it.
pub open spec fn items_eval_model(
    fm: FloatModel,
    items: Seq<Datum>,
    from: nat,
    to: nat,
    chain: Chain,
    depth: nat,
) -> Evaluations
    decreases depth, 4nat, to - from,
{
    if from >= to || from >= items.len() {
        Evaluations { result: Ok(Seq::empty()), chain }
    } else {
        let first = eval_model(fm, items[from as int], chain, depth);
        match first.result {
            Err(e) => Evaluations { result: Err(e), chain: first.chain },
            Ok(v) => {
                let rest = items_eval_model(fm, items, from + 1, to, first.chain, depth);
                match rest.result {
                    Err(e) => rest,
                    Ok(vs) => Evaluations { result: Ok(seq![v] + vs), chain: rest.chain },
                }
            },
        }
    }
}

/// What a step of the evaluator gives: the end of the run, or the
/// expression that the run goes on with.
pub enum Flow {
    Done(EvalResult),
    Tail(DialVal),
}

/// Whether a step that left the environment `after` is the step `m`.
pub open spec fn flow_is(flow: Flow, after: Chain, m: FlowModel) -> bool {
    match flow {
        Flow::Done(r) => m == done(outcome(r), after),
        Flow::Tail(next) => m == FlowModel::Tail(next@, after),
    }
}

/// The error of an evaluation that is nested too deep.
fn too_deep() -> (e: EvalError)
    ensures
        e@ == Fault::InvalidArgumentError(msg_too_deep()),
{
    EvalError::InvalidArgumentError(String::from_str("evaluation nested too deep"))
}

/// Checks the number of operands of a special form.
fn check_arity(n: usize, want: usize) -> (r: Option<EvalError>)
    requires
        want < 8,
    ensures
        match r {
            Some(e) => arity_fault(n as nat, want as nat) == Some(e@),
            None => arity_fault(n as nat, want as nat) is None && n == want,
        },
{
    if n < want {
        Some(EvalError::ArityError(n + 1))
    } else if n > want {
        Some(EvalError::ArityError(want + 1))
    } else {
        None
    }
}

/// Whether a value is the symbol called `name`.
fn is_symbol_named(v: &DialVal, name: &str) -> (r: bool)
    ensures
        r == (v@ == Datum::Sym(name@)),
{
    match v {
        DialVal::Sym(s) => is_text(s, name),
        _ => false,
    }
}

/// Whether every item, taking every `stride`-th from the first, is a
/// symbol.
fn symbols_only(items: &Vec<DialVal>, stride: usize) -> (r: bool)
    requires
        stride > 0,
    ensures
        r == all_symbols(items_model(items@), 0, stride as nat),
{
    let ghost ms = items_model(items@);
    let n = items.len();
    let mut i: usize = 0;
    while i < n
        invariant
            n == items@.len(),
            ms == items_model(items@),
            stride > 0,
            i <= n,
            all_symbols(ms, 0, stride as nat) == all_symbols(ms, i as nat, stride as nat),
        decreases n - i,
    {
        assert(ms[i as int] == items@[i as int]@);
        match &items[i] {
            DialVal::Sym(_) => {},
            _ => {
                return false;
            },
        }
        if n - i <= stride {
            assert(all_symbols(ms, (i + stride) as nat, stride as nat));
            assert(all_symbols(ms, n as nat, stride as nat));
            i = n;
        } else {
            i += stride;
        }
    }
    true
}

/// The names of a vector of symbols.
fn names_of(items: &Vec<DialVal>) -> (r: Vec<String>)
    requires
        all_symbols(items_model(items@), 0, 1),
    ensures
        names_model(r@) == symbol_names(items_model(items@)),
{
    let ghost ms = items_model(items@);
    let mut out: Vec<String> = Vec::new();
    let mut i: usize = 0;
    while i < items.len()
        invariant
            ms == items_model(items@),
            i <= items@.len(),
            out@.len() == i,
            all_symbols(ms, i as nat, 1),
            forall|j: int| 0 <= j < i ==> out@[j]@ == ms[j]->Sym_0,
        decreases items@.len() - i,
    {
        assert(ms[i as int] == items@[i as int]@);
        match &items[i] {
            DialVal::Sym(s) => {
                out.push(s.clone());
            },
            _ => {
                proof {
                    assert(false);
                }
            },
        }
        i += 1;
    }
    assert(names_model(out@) =~= symbol_names(ms));
    out
}

/// Evaluates an expression in an environment.
pub fn eval<H: Fn(FloatCall) -> FloatAnswer>(val: DialVal, env: &mut Env, fpu: &H) -> (r: EvalResult)
    requires
        old(env)@.wf(),
        unit_ok(fpu),
    ensures
        final(env)@.wf(),
        outcome(r) == eval_model(float_model(fpu), val@, old(env)@, MAX_DEPTH as nat).result,
        final(env)@ == eval_model(float_model(fpu), val@, old(env)@, MAX_DEPTH as nat).chain,
{
    eval_within(val, env, fpu, MAX_DEPTH)
}

/// Evaluates an expression in an environment, with `depth` levels of
/// nesting to spend.
pub fn eval_within<H: Fn(FloatCall) -> FloatAnswer>(val: DialVal, env: &mut Env, fpu: &H, depth: usize) -> (r:
    EvalResult)
    requires
        old(env)@.wf(),
        unit_ok(fpu),
    ensures
        final(env)@.wf(),
        final(env)@.frames.len() >= old(env)@.frames.len(),
        outcome(r) == eval_model(float_model(fpu), val@, old(env)@, depth as nat).result,
        final(env)@ == eval_model(float_model(fpu), val@, old(env)@, depth as nat).chain,
    decreases depth, 3nat, 0nat,
{
    if depth == 0 {
        return Err(too_deep());
    }
    let ghost fm = float_model(fpu);
    let base = env.scope_count();
    let ghost target = run_model(fm, val@, old(env)@, depth as nat, MAX_STEPS as nat, base as nat);
    let saved = env.current();
    let mut expr = val;
    let mut steps: u64 = MAX_STEPS;
    let mut pending = true;
    let mut result: EvalResult = Err(
        EvalError::InvalidArgumentError(String::from_str("evaluation ran too long")),
    );
    while pending && steps > 0
        invariant
            unit_ok(fpu),
            fm == float_model(fpu),
            depth > 0,
            env@.wf(),
            base == old(env)@.frames.len(),
            env@.frames.len() >= base,
            saved < base,
            pending ==> run_model(fm, expr@, env@, depth as nat, steps as nat, base as nat)
                == target,
            pending ==> outcome(result) == Err::<Datum, Fault>(
                Fault::InvalidArgumentError(msg_too_long()),
            ),
            !pending ==> target == (Evaluation { result: outcome(result), chain: env@ }),
        decreases steps,
    {
        let flow = step(&expr, env, fpu, depth, base);
        steps = steps - 1;
        match flow {
            Flow::Done(r) => {
                result = r;
                pending = false;
            },
            Flow::Tail(next) => {
                expr = next;
            },
        }
    }
    env.leave(base, saved);
    result
}

/// One step of the evaluator, in a run that made the scopes from `base`
/// on.
pub fn step<H: Fn(FloatCall) -> FloatAnswer>(
    expr: &DialVal,
    env: &mut Env,
    fpu: &H,
    depth: usize,
    base: usize,
) -> (flow: Flow)
    requires
        old(env)@.wf(),
        unit_ok(fpu),
        depth > 0,
        base <= old(env)@.frames.len(),
    ensures
        final(env)@.wf(),
        final(env)@.frames.len() >= base,
        flow_is(
            flow,
            final(env)@,
            step_model(float_model(fpu), expr@, old(env)@, depth as nat, base as nat),
        ),
    decreases depth, 1nat, 0nat,
{
    match expr {
        DialVal::Sym(s) => match env.get_value(s) {
            Some(v) => Flow::Done(Ok(v)),
            None => {
                let mut msg = String::from_str("no such symbol ");
                msg.append(s.as_str());
                Flow::Done(Err(EvalError::Undefined(msg)))
            },
        },
        DialVal::Vec(items) => {
            proof {
                lemma_list_model(*items);
            }
            match eval_items(items, 0, items.len(), env, fpu, depth - 1) {
                Ok(vs) => {
                    proof {
                        lemma_list_model(vs);
                    }
                    Flow::Done(Ok(DialVal::Vec(vs)))
                },
                Err(e) => Flow::Done(Err(e)),
            }
        },
        DialVal::List(items) => {
            proof {
                lemma_list_model(*items);
            }
            if items.len() == 0 {
                Flow::Done(Ok(expr.duplicate()))
            } else {
                assert(items_model(items@)[0] == items@[0]@);
                if is_symbol_named(&items[0], "def") {
                    eval_def(items, env, fpu, depth)
                } else if is_symbol_named(&items[0], "let") {
                    eval_let(items, env, fpu, depth)
                } else if is_symbol_named(&items[0], "if") {
                    eval_if(items, env, fpu, depth)
                } else if is_symbol_named(&items[0], "fn") {
                    eval_fn(items, env)
                } else if is_symbol_named(&items[0], "do") {
                    eval_do(items, env, fpu, depth)
                } else {
                    eval_call(items, env, fpu, depth, base)
                }
            }
        },
        _ => Flow::Done(Ok(expr.duplicate())),
    }
}

/// The special form `def`.
fn eval_def<H: Fn(FloatCall) -> FloatAnswer>(items: &Vec<DialVal>, env: &mut Env, fpu: &H, depth: usize) -> (flow:
    Flow)
    requires
        old(env)@.wf(),
        unit_ok(fpu),
        depth > 0,
        items@.len() > 0,
    ensures
        final(env)@.wf(),
        final(env)@.frames.len() >= old(env)@.frames.len(),
        flow_is(
            flow,
            final(env)@,
            def_model(float_model(fpu), items_model(items@), old(env)@, depth as nat),
        ),
    decreases depth, 0nat, 0nat,
{
    let ghost ms = items_model(items@);
    match check_arity(items.len() - 1, 2) {
        Some(e) => Flow::Done(Err(e)),
        None => {
            assert(ms[1] == items@[1]@);
            assert(ms[2] == items@[2]@);
            match &items[1] {
                DialVal::Sym(name) => {
                    match eval_within(items[2].duplicate(), env, fpu, depth - 1) {
                        Ok(v) => {
                            env.def_value(name.clone(), v.duplicate());
                            Flow::Done(Ok(v))
                        },
                        Err(e) => Flow::Done(Err(e)),
                    }
                },
                _ => Flow::Done(
                    Err(
                        EvalError::InvalidArgumentError(
                            String::from_str("'def' requires binding to symbol"),
                        ),
                    ),
                ),
            }
        },
    }
}

/// The special form `if`.
fn eval_if<H: Fn(FloatCall) -> FloatAnswer>(items: &Vec<DialVal>, env: &mut Env, fpu: &H, depth: usize) -> (flow:
    Flow)
    requires
        old(env)@.wf(),
        unit_ok(fpu),
        depth > 0,
        items@.len() > 0,
    ensures
        final(env)@.wf(),
        final(env)@.frames.len() >= old(env)@.frames.len(),
        flow_is(
            flow,
            final(env)@,
            if_model(float_model(fpu), items_model(items@), old(env)@, depth as nat),
        ),
    decreases depth, 0nat, 0nat,
{
    let ghost ms = items_model(items@);
    match check_arity(items.len() - 1, 3) {
        Some(e) => Flow::Done(Err(e)),
        None => {
            assert(ms[1] == items@[1]@);
            assert(ms[2] == items@[2]@);
            assert(ms[3] == items@[3]@);
            match eval_within(items[1].duplicate(), env, fpu, depth - 1) {
                Ok(c) => {
                    let yes = match c {
                        DialVal::Nil => false,
                        DialVal::Bool(b) => b,
                        _ => true,
                    };
                    if yes {
                        Flow::Tail(items[2].duplicate())
                    } else {
                        Flow::Tail(items[3].duplicate())
                    }
                },
                Err(e) => Flow::Done(Err(e)),
            }
        },
    }
}

/// The special form `fn`.
fn eval_fn(items: &Vec<DialVal>, env: &mut Env) -> (flow: Flow)
    requires
        old(env)@.wf(),
        items@.len() > 0,
    ensures
        final(env)@.wf(),
        final(env)@.frames.len() == old(env)@.frames.len(),
        flow_is(flow, final(env)@, fn_model(items_model(items@), old(env)@)),
{
    let ghost ms = items_model(items@);
    match check_arity(items.len() - 1, 2) {
        Some(e) => Flow::Done(Err(e)),
        None => {
            assert(ms[1] == items@[1]@);
            assert(ms[2] == items@[2]@);
            match &items[1] {
                DialVal::List(params) => {
                    proof {
                        lemma_list_model(*params);
                    }
                    if !symbols_only(params, 1) {
                        Flow::Done(Err(EvalError::TypeError(String::from_str("symbol"))))
                    } else {
                        let scope = env.current();
                        env.anchor();
                        Flow::Done(
                            Ok(
                                DialVal::Lambda {
                                    params: names_of(params),
                                    body: Box::new(items[2].duplicate()),
                                    env: scope,
                                },
                            ),
                        )
                    }
                },
                _ => Flow::Done(Err(EvalError::TypeError(String::from_str("list")))),
            }
        },
    }
}

/// The special form `do`.
fn eval_do<H: Fn(FloatCall) -> FloatAnswer>(items: &Vec<DialVal>, env: &mut Env, fpu: &H, depth: usize) -> (flow:
    Flow)
    requires
        old(env)@.wf(),
        unit_ok(fpu),
        depth > 0,
        items@.len() > 0,
    ensures
        final(env)@.wf(),
        final(env)@.frames.len() >= old(env)@.frames.len(),
        flow_is(
            flow,
            final(env)@,
            do_model(float_model(fpu), items_model(items@), old(env)@, depth as nat),
        ),
    decreases depth, 0nat, 0nat,
{
    let ghost ms = items_model(items@);
    let n = items.len();
    if n == 1 {
        Flow::Done(Ok(DialVal::Nil))
    } else {
        assert(ms[n - 1] == items@[n - 1]@);
        match eval_items(items, 1, n - 1, env, fpu, depth - 1) {
            Ok(_) => Flow::Tail(items[n - 1].duplicate()),
            Err(e) => Flow::Done(Err(e)),
        }
    }
}

/// The special form `let`.
fn eval_let<H: Fn(FloatCall) -> FloatAnswer>(items: &Vec<DialVal>, env: &mut Env, fpu: &H, depth: usize) -> (flow:
    Flow)
    requires
        old(env)@.wf(),
        unit_ok(fpu),
        depth > 0,
        items@.len() > 0,
    ensures
        final(env)@.wf(),
        final(env)@.frames.len() >= old(env)@.frames.len(),
        flow_is(
            flow,
            final(env)@,
            let_model(float_model(fpu), items_model(items@), old(env)@, depth as nat),
        ),
    decreases depth, 0nat, 0nat,
{
    let ghost ms = items_model(items@);
    match check_arity(items.len() - 1, 2) {
        Some(e) => Flow::Done(Err(e)),
        None => {
            assert(ms[1] == items@[1]@);
            assert(ms[2] == items@[2]@);
            match &items[1] {
                DialVal::List(bindings) => {
                    proof {
                        lemma_list_model(*bindings);
                    }
                    if bindings.len() % 2 != 0 {
                        Flow::Done(
                            Err(
                                EvalError::InvalidArgumentError(
                                    String::from_str("let binding expects a list of associations"),
                                ),
                            ),
                        )
                    } else if !symbols_only(bindings, 2) {
                        Flow::Done(Err(EvalError::TypeError(String::from_str("symbol"))))
                    } else {
                        env.new_scope();
                        match bind_pairs(bindings, env, fpu, depth - 1) {
                            Ok(_) => Flow::Tail(items[2].duplicate()),
                            Err(e) => Flow::Done(Err(e)),
                        }
                    }
                },
                _ => Flow::Done(
                    Err(
                        EvalError::InvalidArgumentError(
                            String::from_str("let binding expects a list of associations"),
                        ),
                    ),
                ),
            }
        },
    }
}

/// Evaluates and binds the pairs of a `let` in turn, in the innermost
/// scope.
fn bind_pairs<H: Fn(FloatCall) -> FloatAnswer>(bindings: &Vec<DialVal>, env: &mut Env, fpu: &H, depth: usize) -> (r:
    Result<(), EvalError>)
    requires
        old(env)@.wf(),
        unit_ok(fpu),
        bindings@.len() % 2 == 0,
        all_symbols(items_model(bindings@), 0, 2),
    ensures
        final(env)@.wf(),
        final(env)@.frames.len() >= old(env)@.frames.len(),
        match r {
            Ok(_) => bindings_model(
                float_model(fpu),
                items_model(bindings@),
                0,
                old(env)@,
                depth as nat,
            ) == (Evaluation { result: Ok(Datum::Nil), chain: final(env)@ }),
            Err(e) => bindings_model(
                float_model(fpu),
                items_model(bindings@),
                0,
                old(env)@,
                depth as nat,
            ) == (Evaluation { result: Err(e@), chain: final(env)@ }),
        },
    decreases depth, 4nat, bindings@.len(),
{
    let ghost fm = float_model(fpu);
    let ghost bs = items_model(bindings@);
    let ghost target = bindings_model(fm, bs, 0, old(env)@, depth as nat);
    let n = bindings.len();
    let mut i: usize = 0;
    while i < n
        invariant
            unit_ok(fpu),
            fm == float_model(fpu),
            bs == items_model(bindings@),
            n == bindings@.len(),
            n % 2 == 0,
            i % 2 == 0,
            i <= n,
            env@.wf(),
            env@.frames.len() >= old(env)@.frames.len(),
            all_symbols(bs, i as nat, 2),
            bindings_model(fm, bs, i as nat, env@, depth as nat) == target,
            target == bindings_model(fm, bs, 0, old(env)@, depth as nat),
        decreases n - i,
    {
        assert(bs[i as int] == bindings@[i as int]@);
        assert(bs[i + 1] == bindings@[i + 1]@);
        let name = match &bindings[i] {
            DialVal::Sym(s) => s.clone(),
            _ => {
                proof {
                    assert(false);
                }
                String::new()
            },
        };
        match eval_within(bindings[i + 1].duplicate(), env, fpu, depth) {
            Ok(v) => {
                env.set_value(name, v);
            },
            Err(e) => {
                return Err(e);
            },
        }
        i += 2;
    }
    Ok(())
}

/// Evaluates the items in places `from` to `to` from left to right.
fn eval_items<H: Fn(FloatCall) -> FloatAnswer>(
    items: &Vec<DialVal>,
    from: usize,
    to: usize,
    env: &mut Env,
    fpu: &H,
    depth: usize,
) -> (r: Result<Vec<DialVal>, EvalError>)
    requires
        old(env)@.wf(),
        unit_ok(fpu),
        from <= to <= items@.len(),
    ensures
        final(env)@.wf(),
        final(env)@.frames.len() >= old(env)@.frames.len(),
        match r {
            Ok(vs) => items_eval_model(
                float_model(fpu),
                items_model(items@),
                from as nat,
                to as nat,
                old(env)@,
                depth as nat,
            ) == (Evaluations { result: Ok(items_model(vs@)), chain: final(env)@ }),
            Err(e) => items_eval_model(
                float_model(fpu),
                items_model(items@),
                from as nat,
                to as nat,
                old(env)@,
                depth as nat,
            ) == (Evaluations { result: Err(e@), chain: final(env)@ }),
        },
    decreases depth, 4nat, to - from,
{
    let ghost fm = float_model(fpu);
    let ghost ms = items_model(items@);
    let ghost target = items_eval_model(fm, ms, from as nat, to as nat, old(env)@, depth as nat);
    let mut out: Vec<DialVal> = Vec::new();
    let mut i: usize = from;
    assert(items_model(out@) =~= Seq::<Datum>::empty());
    assert(after(Seq::<Datum>::empty(), target) == target) by {
        match target.result {
            Ok(vs) => {
                assert(Seq::<Datum>::empty() + vs =~= vs);
            },
            Err(_) => {},
        }
    }
    while i < to
        invariant
            unit_ok(fpu),
            fm == float_model(fpu),
            ms == items_model(items@),
            from <= i <= to <= items@.len(),
            env@.wf(),
            env@.frames.len() >= old(env)@.frames.len(),
            after(
                items_model(out@),
                items_eval_model(fm, ms, i as nat, to as nat, env@, depth as nat),
            ) == target,
            target == items_eval_model(fm, ms, from as nat, to as nat, old(env)@, depth as nat),
        decreases to - i,
    {
        assert(ms[i as int] == items@[i as int]@);
        let ghost before = env@;
        let ghost acc = items_model(out@);
        match eval_within(items[i].duplicate(), env, fpu, depth) {
            Ok(v) => {
                out.push(v);
                proof {
                    let rest = items_eval_model(fm, ms, (i + 1) as nat, to as nat, env@, depth as nat);
                    assert(items_model(out@) =~= acc.push(v@));
                    match rest.result {
                        Ok(vs) => {
                            assert(acc + (seq![v@] + vs) =~= acc.push(v@) + vs);
                        },
                        Err(_) => {},
                    }
                }
            },
            Err(e) => {
                return Err(e);
            },
        }
        i += 1;
    }
    proof {
        assert(items_model(out@) + Seq::<Datum>::empty() =~= items_model(out@));
    }
    Ok(out)
}

/// The evaluation `rest` after the values `done` were obtained.
pub open spec fn after(done: Seq<Datum>, rest: Evaluations) -> Evaluations {
    Evaluations {
        result: match rest.result {
            Ok(vs) => Ok(done + vs),
            Err(e) => Err(e),
        },
        chain: rest.chain,
    }
}

/// A call, in a run that made the scopes from `base` on.
fn eval_call<H: Fn(FloatCall) -> FloatAnswer>(
    items: &Vec<DialVal>,
    env: &mut Env,
    fpu: &H,
    depth: usize,
    base: usize,
) -> (flow: Flow)
    requires
        old(env)@.wf(),
        unit_ok(fpu),
        depth > 0,
        items@.len() > 0,
        base <= old(env)@.frames.len(),
    ensures
        final(env)@.wf(),
        final(env)@.frames.len() >= base,
        flow_is(
            flow,
            final(env)@,
            call_model(float_model(fpu), items_model(items@), old(env)@, depth as nat, base as nat),
        ),
    decreases depth, 0nat, 0nat,
{
    let ghost ms = items_model(items@);
    assert(ms[0] == items@[0]@);
    let f = match eval_within(items[0].duplicate(), env, fpu, depth - 1) {
        Ok(f) => f,
        Err(e) => {
            return Flow::Done(Err(e));
        },
    };
    let args = match eval_items(items, 1, items.len(), env, fpu, depth - 1) {
        Ok(args) => args,
        Err(e) => {
            return Flow::Done(Err(e));
        },
    };
    apply_to(&items[0], f, args, env, fpu, base)
}

/// Applies the value `f`, which the expression `head` gave, to evaluated
/// operands, in a run that made the scopes from `base` on.
fn apply_to<H: Fn(FloatCall) -> FloatAnswer>(
    head: &DialVal,
    f: DialVal,
    args: Vec<DialVal>,
    env: &mut Env,
    fpu: &H,
    base: usize,
) -> (flow: Flow)
    requires
        old(env)@.wf(),
        unit_ok(fpu),
        base <= old(env)@.frames.len(),
    ensures
        final(env)@.wf(),
        final(env)@.frames.len() >= base,
        flow_is(
            flow,
            final(env)@,
            apply_to_model(
                float_model(fpu),
                head@,
                f@,
                items_model(args@),
                old(env)@,
                base as nat,
            ),
        ),
{
    match f {
        DialVal::Builtin { name } => Flow::Done(apply(&name, args.as_slice(), env, fpu)),
        DialVal::Lambda { params, body, env: scope } => {
            if params.len() != args.len() {
                Flow::Done(Err(EvalError::ArityError(params.len())))
            } else if scope >= env.kept(base) {
                Flow::Done(
                    Err(
                        EvalError::InvalidArgumentError(
                            String::from_str("closure over a scope that does not exist"),
                        ),
                    ),
                )
            } else {
                env.leave(base, scope);
                env.scope_under(scope);
                env.bind(params, args);
                Flow::Tail(*body)
            }
        },
        _ => {
            let mut msg = head.to_text(fpu);
            msg.append(" is not a function");
            Flow::Done(Err(EvalError::TypeError(msg)))
        },
    }
}

} // verus!
