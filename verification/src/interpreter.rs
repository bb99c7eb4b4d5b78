//! An interpreter: an environment that lasts from one evaluation to the
//! next.
use vstd::prelude::*;
use crate::env::{global_frame, Chain, Env};
use crate::error::{outcome, EvalResult};
use crate::eval::{eval, eval_model, MAX_DEPTH};
use crate::float::{float_model, unit_ok, FloatAnswer, FloatCall};
use crate::value::DialVal;

verus! {

/// An interpreter.
pub struct Interpreter {
    env: Env,
}

impl View for Interpreter {
    type V = Chain;

    /// The environment of the interpreter.
    closed spec fn view(&self) -> Chain {
        self.env@
    }
}

impl Interpreter {
    /// An interpreter whose environment binds the native functions in its
    /// one scope, the global one.
    pub fn new() -> (r: Interpreter)
        ensures
            r@ == (Chain { frames: seq![global_frame()], current: 0, anchored: 1 }),
            r@.wf(),
    {
        Interpreter { env: Env::default() }
    }

    /// Evaluates an expression in the interpreter's environment, which
    /// keeps what the evaluation defined.
    pub fn eval<H: Fn(FloatCall) -> FloatAnswer>(&mut self, expr: DialVal, fpu: &H) -> (r: EvalResult)
        requires
            old(self)@.wf(),
            unit_ok(fpu),
        ensures
            final(self)@.wf(),
            outcome(r) == eval_model(float_model(fpu), expr@, old(self)@, MAX_DEPTH as nat).result,
            final(self)@ == eval_model(float_model(fpu), expr@, old(self)@, MAX_DEPTH as nat).chain,
    {
        eval(expr, &mut self.env, fpu)
    }

    /// The value that the environment binds to a name, as seen from its
    /// innermost scope.
    pub fn lookup(&self, symbol: &String) -> (r: Option<DialVal>)
        requires
            self@.wf(),
        ensures
            match r {
                Some(v) => self@.lookup(symbol@) == Some(v@),
                None => self@.lookup(symbol@) is None,
            },
    {
        self.env.get_value(symbol)
    }
}

} // verus!
