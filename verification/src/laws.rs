//! What holds of every evaluation.
use vstd::prelude::*;
use crate::env::{lemma_frame_set, Chain, Frame};
use crate::error::Fault;
use crate::eval::{
    all_symbols, apply_to_model, arity_fault, bindings_model, call_model, def_model, do_model, done,
    eval_model, if_model, items_eval_model, let_model, run_model, step_model, Evaluation,
    FlowModel, MAX_STEPS,
};
use crate::float::FloatModel;
use crate::value::Datum;

verus! {

/// Whether `after` keeps the scopes of `before` below `base`: it is well
/// formed, it has at least `base` scopes, and every scope of `before`
/// below `base`, but the global one and the scope `spare`, is in it as it
/// was.
pub open spec fn keeps_below(before: Chain, after: Chain, base: nat, spare: nat) -> bool {
    &&& after.wf()
    &&& base <= after.frames.len()
    &&& forall|i: int| 0 < i < base && i != spare ==> #[trigger] after.frames[i] == before.frames[i]
}

/// Whether `after` keeps `before` but for the scope `spare`.
pub open spec fn keeps_but(before: Chain, after: Chain, spare: nat) -> bool {
    keeps_below(before, after, before.frames.len(), spare)
}

/// Whether `after` keeps `before`: it is well formed, it has every scope
/// of `before`, and every scope of `before` but the global one is in it
/// as it was.
pub open spec fn keeps(before: Chain, after: Chain) -> bool {
    keeps_below(before, after, before.frames.len(), 0)
}

/// Binding names in a frame leaves it well formed, under the same parent.
pub proof fn lemma_frame_bind(f: Frame, names: Seq<Seq<char>>, values: Seq<Datum>)
    requires
        f.wf(),
    ensures
        f.bind(names, values).wf(),
        f.bind(names, values).parent == f.parent,
    decreases names.len(),
{
    if names.len() != 0 && values.len() != 0 {
        lemma_frame_set(f, names[0], values[0], names[0]);
        lemma_frame_bind(f.set(names[0], values[0]), names.skip(1), values.skip(1));
    }
}

/// An evaluation keeps the environment: it leaves a well-formed
/// environment with the same innermost scope, in which every scope that
/// was there is still there, and every one of them but the global scope
/// is as it was. So what `let` and a call bind is not seen afterwards,
/// and only `def` leaves a trace, in the global scope.
pub proof fn lemma_eval_keeps(fm: FloatModel, expr: Datum, chain: Chain, depth: nat)
    requires
        chain.wf(),
    ensures
        keeps(chain, eval_model(fm, expr, chain, depth).chain),
        eval_model(fm, expr, chain, depth).chain.current == chain.current,
    decreases depth, 3nat, 0nat,
{
    if depth > 0 {
        lemma_run_keeps(fm, expr, chain, depth, MAX_STEPS as nat, chain.frames.len());
    }
}

/// An evaluation leaves no scope behind but the anchored ones: afterwards
/// the environment has the scopes that it had, and those up to the last
/// one in which a closure was made.
pub proof fn lemma_eval_gives_up(fm: FloatModel, expr: Datum, chain: Chain, depth: nat)
    requires
        chain.wf(),
    ensures
        eval_model(fm, expr, chain, depth).chain.frames.len() == if eval_model(
            fm,
            expr,
            chain,
            depth,
        ).chain.anchored > chain.frames.len() {
            eval_model(fm, expr, chain, depth).chain.anchored
        } else {
            chain.frames.len()
        },
{
    if depth > 0 {
        lemma_run_keeps(fm, expr, chain, depth, MAX_STEPS as nat, chain.frames.len());
    }
}

/// A run keeps the scopes that it did not make.
pub proof fn lemma_run_keeps(fm: FloatModel, expr: Datum, chain: Chain, depth: nat, steps: nat, base: nat)
    requires
        chain.wf(),
        base <= chain.frames.len(),
    ensures
        keeps_below(chain, run_model(fm, expr, chain, depth, steps, base).chain, base, 0),
    decreases depth, 2nat, steps,
{
    if steps > 0 {
        lemma_step_keeps(fm, expr, chain, depth, base);
        match step_model(fm, expr, chain, depth, base) {
            FlowModel::Done(_) => {},
            FlowModel::Tail(next, c) => {
                lemma_run_keeps(fm, next, c, depth, (steps - 1) as nat, base);
            },
        }
    }
}

/// Whether a step keeps the environment.
pub open spec fn flow_keeps(chain: Chain, flow: FlowModel) -> bool {
    match flow {
        FlowModel::Done(e) => keeps(chain, e.chain),
        FlowModel::Tail(_, c) => keeps(chain, c),
    }
}

/// Whether a step keeps the scopes below `base`.
pub open spec fn flow_keeps_below(chain: Chain, flow: FlowModel, base: nat) -> bool {
    match flow {
        FlowModel::Done(e) => keeps_below(chain, e.chain, base, 0),
        FlowModel::Tail(_, c) => keeps_below(chain, c, base, 0),
    }
}

/// A step keeps the scopes that the run did not make.
pub proof fn lemma_step_keeps(fm: FloatModel, expr: Datum, chain: Chain, depth: nat, base: nat)
    requires
        chain.wf(),
        base <= chain.frames.len(),
    ensures
        flow_keeps_below(chain, step_model(fm, expr, chain, depth, base), base),
    decreases depth, 1nat, 0nat,
{
    match expr {
        Datum::Vector(items) => {
            if depth > 0 {
                lemma_items_keep(fm, items, 0, items.len(), chain, (depth - 1) as nat);
            }
        },
        Datum::List(items) => {
            if items.len() > 0 && depth > 0 {
                if items[0] == Datum::Sym("def"@) {
                    lemma_def_keeps(fm, items, chain, depth);
                } else if items[0] == Datum::Sym("let"@) {
                    lemma_let_keeps(fm, items, chain, depth);
                } else if items[0] == Datum::Sym("if"@) {
                    lemma_if_keeps(fm, items, chain, depth);
                } else if items[0] == Datum::Sym("fn"@) {
                } else if items[0] == Datum::Sym("do"@) {
                    lemma_do_keeps(fm, items, chain, depth);
                } else {
                    lemma_call_keeps(fm, items, chain, depth, base);
                }
            }
        },
        _ => {},
    }
}

proof fn lemma_def_keeps(fm: FloatModel, items: Seq<Datum>, chain: Chain, depth: nat)
    requires
        chain.wf(),
        depth > 0,
    ensures
        flow_keeps(chain, def_model(fm, items, chain, depth)),
    decreases depth, 0nat, 0nat,
{
    if arity_fault((items.len() - 1) as nat, 2) is None {
        match items[1] {
            Datum::Sym(name) => {
                lemma_eval_keeps(fm, items[2], chain, (depth - 1) as nat);
                let r = eval_model(fm, items[2], chain, (depth - 1) as nat);
                match r.result {
                    Ok(v) => {
                        lemma_frame_set(r.chain.frames[0], name, v, name);
                    },
                    Err(_) => {},
                }
            },
            _ => {},
        }
    }
}

proof fn lemma_if_keeps(fm: FloatModel, items: Seq<Datum>, chain: Chain, depth: nat)
    requires
        chain.wf(),
        depth > 0,
    ensures
        flow_keeps(chain, if_model(fm, items, chain, depth)),
    decreases depth, 0nat, 0nat,
{
    if arity_fault((items.len() - 1) as nat, 3) is None {
        lemma_eval_keeps(fm, items[1], chain, (depth - 1) as nat);
    }
}

proof fn lemma_do_keeps(fm: FloatModel, items: Seq<Datum>, chain: Chain, depth: nat)
    requires
        chain.wf(),
        depth > 0,
    ensures
        flow_keeps(chain, do_model(fm, items, chain, depth)),
    decreases depth, 0nat, 0nat,
{
    if items.len() != 1 {
        lemma_items_keep(fm, items, 1, (items.len() - 1) as nat, chain, (depth - 1) as nat);
    }
}

proof fn lemma_let_keeps(fm: FloatModel, items: Seq<Datum>, chain: Chain, depth: nat)
    requires
        chain.wf(),
        depth > 0,
    ensures
        flow_keeps(chain, let_model(fm, items, chain, depth)),
    decreases depth, 0nat, 0nat,
{
    if arity_fault((items.len() - 1) as nat, 2) is None {
        match items[1] {
            Datum::List(bindings) => {
                if bindings.len() % 2 == 0 && all_symbols(bindings, 0, 2) {
                    let inner = chain.push(chain.current);
                    assert(inner.wf());
                    lemma_bindings_keep(fm, bindings, 0, inner, (depth - 1) as nat);
                    let r = bindings_model(fm, bindings, 0, inner, (depth - 1) as nat);
                    assert forall|i: int| 0 < i < chain.frames.len() implies #[trigger] r.chain.frames[i]
                        == chain.frames[i] by {
                        assert(inner.frames[i] == chain.frames[i]);
                    }
                }
            },
            _ => {},
        }
    }
}

/// The bindings of a `let` keep the environment but for the innermost
/// scope, which stays the innermost.
proof fn lemma_bindings_keep(fm: FloatModel, bindings: Seq<Datum>, from: nat, chain: Chain, depth: nat)
    requires
        chain.wf(),
    ensures
        keeps_but(chain, bindings_model(fm, bindings, from, chain, depth).chain, chain.current),
        bindings_model(fm, bindings, from, chain, depth).chain.current == chain.current,
    decreases depth, 4nat, bindings.len() - from,
{
    if from + 1 < bindings.len() {
        lemma_eval_keeps(fm, bindings[from as int + 1], chain, depth);
        let r = eval_model(fm, bindings[from as int + 1], chain, depth);
        match r.result {
            Ok(v) => {
                let name = bindings[from as int]->Sym_0;
                lemma_frame_set(r.chain.frames[r.chain.current as int], name, v, name);
                let next = r.chain.define_local(name, v);
                assert(next.wf());
                lemma_bindings_keep(fm, bindings, from + 2, next, depth);
                let last = bindings_model(fm, bindings, from + 2, next, depth).chain;
                assert forall|i: int|
                    0 < i < chain.frames.len() && i != chain.current implies #[trigger] last.frames[i]
                    == chain.frames[i] by {
                    assert(next.frames[i] == r.chain.frames[i]);
                    assert(r.chain.frames[i] == chain.frames[i]);
                }
            },
            Err(_) => {},
        }
    }
}

/// The evaluation of several expressions keeps the environment and its
/// innermost scope.
pub proof fn lemma_items_keep(fm: FloatModel, items: Seq<Datum>, from: nat, to: nat, chain: Chain, depth: nat)
    requires
        chain.wf(),
    ensures
        keeps(chain, items_eval_model(fm, items, from, to, chain, depth).chain),
        items_eval_model(fm, items, from, to, chain, depth).chain.current == chain.current,
    decreases depth, 4nat, to - from,
{
    if !(from >= to || from >= items.len()) {
        lemma_eval_keeps(fm, items[from as int], chain, depth);
        let first = eval_model(fm, items[from as int], chain, depth);
        match first.result {
            Err(_) => {},
            Ok(_) => {
                lemma_items_keep(fm, items, from + 1, to, first.chain, depth);
                let rest = items_eval_model(fm, items, from + 1, to, first.chain, depth);
                assert forall|i: int| 0 < i < chain.frames.len() implies #[trigger] rest.chain.frames[i]
                    == chain.frames[i] by {
                    assert(first.chain.frames[i] == chain.frames[i]);
                }
            },
        }
    }
}

proof fn lemma_call_keeps(fm: FloatModel, items: Seq<Datum>, chain: Chain, depth: nat, base: nat)
    requires
        chain.wf(),
        depth > 0,
        base <= chain.frames.len(),
    ensures
        flow_keeps_below(chain, call_model(fm, items, chain, depth, base), base),
    decreases depth, 0nat, 0nat,
{
    lemma_eval_keeps(fm, items[0], chain, (depth - 1) as nat);
    let head = eval_model(fm, items[0], chain, (depth - 1) as nat);
    match head.result {
        Err(_) => {},
        Ok(f) => {
            lemma_items_keep(fm, items, 1, items.len(), head.chain, (depth - 1) as nat);
            let rest = items_eval_model(fm, items, 1, items.len(), head.chain, (depth - 1) as nat);
            match rest.result {
                Err(_) => {},
                Ok(args) => {
                    lemma_apply_keeps(fm, items[0], f, args, rest.chain, base);
                    let flow = apply_to_model(fm, items[0], f, args, rest.chain, base);
                    let last = match flow {
                        FlowModel::Done(e) => e.chain,
                        FlowModel::Tail(_, c) => c,
                    };
                    assert forall|i: int| 0 < i < base implies #[trigger] last.frames[i]
                        == chain.frames[i] by {
                        assert(rest.chain.frames[i] == head.chain.frames[i]);
                        assert(head.chain.frames[i] == chain.frames[i]);
                    }
                },
            }
            assert forall|i: int| 0 < i < chain.frames.len() implies #[trigger] rest.chain.frames[i]
                == chain.frames[i] by {
                assert(head.chain.frames[i] == chain.frames[i]);
            }
        },
    }
}

/// An application keeps the scopes that the run did not make.
pub proof fn lemma_apply_keeps(
    fm: FloatModel,
    head: Datum,
    f: Datum,
    args: Seq<Datum>,
    chain: Chain,
    base: nat,
)
    requires
        chain.wf(),
        base <= chain.frames.len(),
    ensures
        flow_keeps_below(chain, apply_to_model(fm, head, f, args, chain, base), base),
{
    match f {
        Datum::Lambda { params, body, env } => {
            if params.len() == args.len() && env < chain.kept(base) {
                let left = chain.leave(base, env);
                assert(left.wf());
                let inner = left.push(env);
                assert(inner.wf());
                lemma_frame_bind(inner.frames[inner.current as int], params, args);
            }
        },
        _ => {},
    }
}

/// To give up the scopes that were made when none was made changes
/// nothing.
pub proof fn lemma_leave_nothing(chain: Chain)
    ensures
        chain.leave(chain.frames.len(), chain.current) == chain,
{
    assert(chain.frames.take(chain.frames.len() as int) =~= chain.frames);
}

/// Whether a value stands for itself: every atom but a symbol, and the
/// empty list.
pub open spec fn self_evaluating(d: Datum) -> bool {
    match d {
        Datum::Sym(_) => false,
        Datum::Vector(_) => false,
        Datum::List(items) => items.len() == 0,
        _ => true,
    }
}

/// A value that stands for itself evaluates to itself and leaves the
/// environment as it is.
pub proof fn lemma_self_evaluating(fm: FloatModel, expr: Datum, chain: Chain, depth: nat)
    requires
        self_evaluating(expr),
        depth > 0,
    ensures
        eval_model(fm, expr, chain, depth) == (Evaluation { result: Ok(expr), chain }),
{
    let base = chain.frames.len();
    assert(step_model(fm, expr, chain, depth, base) == done(Ok(expr), chain));
    assert(run_model(fm, expr, chain, depth, MAX_STEPS as nat, base) == (Evaluation {
        result: Ok(expr),
        chain,
    }));
    lemma_leave_nothing(chain);
}

/// The empty vector evaluates to itself.
pub proof fn lemma_empty_vector(fm: FloatModel, chain: Chain, depth: nat)
    requires
        depth > 0,
    ensures
        eval_model(fm, Datum::Vector(Seq::empty()), chain, depth) == (Evaluation {
            result: Ok(Datum::Vector(Seq::empty())),
            chain,
        }),
{
    let expr = Datum::Vector(Seq::empty());
    assert(items_eval_model(fm, Seq::empty(), 0, 0, chain, (depth - 1) as nat).result == Ok::<
        Seq<Datum>,
        Fault,
    >(Seq::empty()));
    let base = chain.frames.len();
    assert(step_model(fm, expr, chain, depth, base) == done(Ok(expr), chain));
    assert(run_model(fm, expr, chain, depth, MAX_STEPS as nat, base) == (Evaluation {
        result: Ok(expr),
        chain,
    }));
    lemma_leave_nothing(chain);
}

/// A symbol evaluates to what the environment binds to it, and to an
/// error where nothing is bound.
pub proof fn lemma_symbol(fm: FloatModel, name: Seq<char>, chain: Chain, depth: nat)
    requires
        depth > 0,
    ensures
        eval_model(fm, Datum::Sym(name), chain, depth).result == match chain.lookup(name) {
            Some(v) => Ok::<Datum, Fault>(v),
            None => Err::<Datum, Fault>(Fault::Undefined("no such symbol "@ + name)),
        },
        eval_model(fm, Datum::Sym(name), chain, depth).chain == chain,
{
    let expr = Datum::Sym(name);
    assert(run_model(fm, expr, chain, depth, MAX_STEPS as nat, chain.frames.len()).chain == chain);
    lemma_leave_nothing(chain);
}

/// The form `(def name expr)`.
pub open spec fn def_form(name: Seq<char>, expr: Datum) -> Datum {
    Datum::List(seq![Datum::Sym("def"@), Datum::Sym(name), expr])
}

/// `def` gives the value that it binds: where the expression has a value,
/// `(def name expr)` has that value and leaves it bound to the name in the
/// global scope; evaluated in the global scope, the name then has that
/// value.
pub proof fn lemma_def_gives_what_it_binds(
    fm: FloatModel,
    name: Seq<char>,
    expr: Datum,
    chain: Chain,
    depth: nat,
    later: nat,
)
    requires
        chain.wf(),
        depth > 1,
        later > 0,
        eval_model(fm, expr, chain, (depth - 1) as nat).result is Ok,
    ensures
        eval_model(fm, def_form(name, expr), chain, depth).result == eval_model(
            fm,
            expr,
            chain,
            (depth - 1) as nat,
        ).result,
        eval_model(fm, def_form(name, expr), chain, depth).chain.frames[0].get(name) == Some(
            eval_model(fm, expr, chain, (depth - 1) as nat).result->Ok_0,
        ),
        chain.current == 0 ==> eval_model(
            fm,
            Datum::Sym(name),
            eval_model(fm, def_form(name, expr), chain, depth).chain,
            later,
        ).result == eval_model(fm, expr, chain, (depth - 1) as nat).result,
{
    let items = seq![Datum::Sym("def"@), Datum::Sym(name), expr];
    let form = def_form(name, expr);
    let r = eval_model(fm, expr, chain, (depth - 1) as nat);
    let v = r.result->Ok_0;
    lemma_eval_keeps(fm, expr, chain, (depth - 1) as nat);
    lemma_frame_set(r.chain.frames[0], name, v, name);
    assert(arity_fault((items.len() - 1) as nat, 2) is None);
    let base = chain.frames.len();
    assert(def_model(fm, items, chain, depth) == done(Ok(v), r.chain.define_global(name, v)));
    assert(step_model(fm, form, chain, depth, base) == def_model(fm, items, chain, depth));
    assert(run_model(fm, form, chain, depth, MAX_STEPS as nat, base) == (Evaluation {
        result: Ok(v),
        chain: r.chain.define_global(name, v),
    }));
    let after = eval_model(fm, form, chain, depth).chain;
    assert(after.frames[0] == r.chain.frames[0].set(name, v));
    if chain.current == 0 {
        lemma_symbol(fm, name, after, later);
        assert(after.lookup(name) == Some(v));
    }
}

/// A name stands for the same value in two environments whose scopes on
/// the way from `at` to the root are alike.
pub proof fn lemma_lookup_alike(before: Chain, after: Chain, at: nat, name: Seq<char>)
    requires
        before.wf(),
        at < before.frames.len() <= after.frames.len(),
        forall|i: int| 0 <= i <= at ==> #[trigger] after.frames[i] == before.frames[i],
    ensures
        after.lookup_from(at, name) == before.lookup_from(at, name),
    decreases at,
{
    assert(after.frames[at as int] == before.frames[at as int]);
    match before.frames[at as int].parent {
        Some(p) => {
            if p < at {
                lemma_lookup_alike(before, after, p, name);
            }
        },
        None => {},
    }
}

/// What an evaluation leaves of the names: a name that the global scope
/// binds as before stands for what it stood for before, seen from any
/// scope that was there.
pub proof fn lemma_names_kept(before: Chain, after: Chain, at: nat, name: Seq<char>)
    requires
        before.wf(),
        keeps(before, after),
        at < before.frames.len(),
        after.frames[0].get(name) == before.frames[0].get(name),
    ensures
        after.lookup_from(at, name) == before.lookup_from(at, name),
    decreases at,
{
    if at > 0 {
        assert(after.frames[at as int] == before.frames[at as int]);
        let p = before.frames[at as int].parent->Some_0;
        lemma_names_kept(before, after, p, name);
    }
}

/// The form `(let (name value) body)`.
pub open spec fn let_form(name: Seq<char>, value: Datum, body: Datum) -> Datum {
    Datum::List(seq![Datum::Sym("let"@), Datum::List(seq![Datum::Sym(name), value]), body])
}

/// `let` shadows and forgets: `(let (name value) name)`, for a value that
/// stands for itself, gives the value and leaves the environment as it
/// was, so that afterwards every name, this one too, stands for what it
/// stood for before.
pub proof fn lemma_let_shadows_and_forgets(
    fm: FloatModel,
    name: Seq<char>,
    value: Datum,
    chain: Chain,
    depth: nat,
)
    requires
        chain.wf(),
        depth > 1,
        self_evaluating(value),
    ensures
        eval_model(fm, let_form(name, value, Datum::Sym(name)), chain, depth) == (Evaluation {
            result: Ok(value),
            chain,
        }),
{
    let bindings = seq![Datum::Sym(name), value];
    let items = seq![Datum::Sym("let"@), Datum::List(bindings), Datum::Sym(name)];
    let form = let_form(name, value, Datum::Sym(name));
    let inner = chain.push(chain.current);
    let bound = inner.define_local(name, value);
    assert(inner.wf());
    lemma_self_evaluating(fm, value, inner, (depth - 1) as nat);
    crate::env::lemma_define_local(inner, name, value);
    assert(all_symbols(bindings, 2, 2));
    assert(all_symbols(bindings, 0, 2));
    assert(bindings_model(fm, bindings, 2, bound, (depth - 1) as nat) == (Evaluation {
        result: Ok(Datum::Nil),
        chain: bound,
    }));
    assert(bindings_model(fm, bindings, 0, inner, (depth - 1) as nat) == (Evaluation {
        result: Ok(Datum::Nil),
        chain: bound,
    }));
    assert(arity_fault((items.len() - 1) as nat, 2) is None);
    assert(let_model(fm, items, chain, depth) == FlowModel::Tail(Datum::Sym(name), bound));
    reveal_strlit("let");
    reveal_strlit("def");
    assert("let"@[0] == 'l' && "def"@[0] == 'd');
    let base = chain.frames.len();
    assert(step_model(fm, form, chain, depth, base) == let_model(fm, items, chain, depth));
    assert(step_model(fm, Datum::Sym(name), bound, depth, base) == done(Ok(value), bound));
    assert(run_model(fm, Datum::Sym(name), bound, depth, (MAX_STEPS - 1) as nat, base)
        == (Evaluation { result: Ok(value), chain: bound }));
    assert(run_model(fm, form, chain, depth, MAX_STEPS as nat, base) == (Evaluation {
        result: Ok(value),
        chain: bound,
    }));
    let after = bound.leave(base, chain.current);
    assert(bound.kept(base) == base);
    assert(after.frames =~= chain.frames);
}

} // verus!
