//! The shell's side of a session: what is shown for each line that was
//! read. Getting the line and showing the replies is left to the caller.
use vstd::prelude::*;
use vstd::string::*;
use crate::env::{global_frame, Chain};
use crate::error::{fault_text, outcome, Fault};
use crate::eval::{eval_model, MAX_DEPTH};
use crate::float::{float_model, unit_ok, FloatAnswer, FloatCall, FloatModel};
use crate::interpreter::Interpreter;
use crate::parse::{parse_program, program_model, ParseFault};
use crate::show::{print, text_model};
use crate::text::decimal_model;
use crate::value::{items_model, Datum};

verus! {

/// One reply of the shell: a text, and whether it reports an error.
#[derive(Debug)]
pub struct Reply {
    pub text: String,
    pub failed: bool,
}

/// The mathematical model of a reply.
pub struct ReplyModel {
    pub text: Seq<char>,
    pub failed: bool,
}

impl View for Reply {
    type V = ReplyModel;

    open spec fn view(&self) -> ReplyModel {
        ReplyModel { text: self.text@, failed: self.failed }
    }
}

/// The models of a sequence of replies.
pub open spec fn replies_view(v: Seq<Reply>) -> Seq<ReplyModel> {
    Seq::new(v.len(), |i: int| v[i]@)
}

/// What a session gives for a line: the replies and the environment that
/// is left.
pub struct Session {
    pub replies: Seq<ReplyModel>,
    pub chain: Chain,
}

/// The reply to the result of an evaluation.
pub open spec fn reply_model(fm: FloatModel, result: Result<Datum, Fault>) -> ReplyModel {
    match result {
        Ok(d) => ReplyModel { text: text_model(fm, d), failed: false },
        Err(f) => ReplyModel { text: fault_text(f), failed: true },
    }
}

/// The text that describes a reading error.
pub open spec fn parse_fault_text(f: ParseFault) -> Seq<char> {
    "could not parse input "@ + f.msg + " at position "@ + decimal_model(f.position)
}

/// The replies to the expressions from place `from` on, each evaluated in
/// the environment that the one before left.
pub open spec fn replies_model(fm: FloatModel, exprs: Seq<Datum>, from: nat, chain: Chain) -> Session
    decreases exprs.len() - from,
{
    if from >= exprs.len() {
        Session { replies: Seq::empty(), chain }
    } else {
        let e = eval_model(fm, exprs[from as int], chain, MAX_DEPTH as nat);
        let rest = replies_model(fm, exprs, from + 1, e.chain);
        Session { replies: seq![reply_model(fm, e.result)] + rest.replies, chain: rest.chain }
    }
}

/// What the shell shows for a line. A line that cannot be read gets one
/// reply, the reading error, and changes nothing. Otherwise each
/// expression of the line is evaluated in turn and gets one reply: the
/// printed value, or the error, after which the session goes on.
pub open spec fn respond_model(fm: FloatModel, line: Seq<char>, chain: Chain) -> Session {
    match program_model(fm, line) {
        Err(f) => Session {
            replies: seq![ReplyModel { text: parse_fault_text(f), failed: true }],
            chain,
        },
        Ok(exprs) => replies_model(fm, exprs, 0, chain),
    }
}

/// The shell: an interpreter that answers to lines of text.
pub struct Repl {
    interpreter: Interpreter,
}

impl View for Repl {
    type V = Chain;

    /// The environment of the session.
    closed spec fn view(&self) -> Chain {
        self.interpreter@
    }
}

impl Repl {
    /// A shell with a new interpreter.
    pub fn new() -> (r: Repl)
        ensures
            r@ == (Chain { frames: seq![global_frame()], current: 0, anchored: 1 }),
            r@.wf(),
    {
        Repl { interpreter: Interpreter::new() }
    }

    /// Reads a line, evaluates its expressions and gives the replies to
    /// show.
    pub fn respond<H: Fn(FloatCall) -> FloatAnswer>(&mut self, line: String, fpu: &H) -> (r: Vec<Reply>)
        requires
            old(self)@.wf(),
            unit_ok(fpu),
        ensures
            final(self)@.wf(),
            replies_view(r@) == respond_model(float_model(fpu), line@, old(self)@).replies,
            final(self)@ == respond_model(float_model(fpu), line@, old(self)@).chain,
    {
        let ghost fm = float_model(fpu);
        let mut out: Vec<Reply> = Vec::new();
        match parse_program(line, fpu) {
            Err(e) => {
                out.push(Reply { text: e.to_text(), failed: true });
                assert(replies_view(out@) =~= respond_model(fm, line@, old(self)@).replies);
                out
            },
            Ok(exprs) => {
                let ghost es = items_model(exprs@);
                let ghost target = replies_model(fm, es, 0, old(self)@);
                let mut i: usize = 0;
                assert(replies_view(out@) =~= Seq::<ReplyModel>::empty());
                assert(Seq::<ReplyModel>::empty() + target.replies =~= target.replies);
                while i < exprs.len()
                    invariant
                        unit_ok(fpu),
                        fm == float_model(fpu),
                        es == items_model(exprs@),
                        i <= exprs@.len(),
                        self@.wf(),
                        replies_view(out@) + replies_model(fm, es, i as nat, self@).replies
                            == target.replies,
                        replies_model(fm, es, i as nat, self@).chain == target.chain,
                    decreases exprs@.len() - i,
                {
                    assert(es[i as int] == exprs@[i as int]@);
                    let ghost acc = replies_view(out@);
                    let ghost before = self@;
                    let result = self.interpreter.eval(exprs[i].duplicate(), fpu);
                    let failed = result.is_err();
                    let ghost shown = outcome(result);
                    let text = print(result, fpu);
                    out.push(Reply { text, failed });
                    proof {
                        let first = reply_model(fm, shown);
                        let rest = replies_model(fm, es, (i + 1) as nat, self@);
                        assert(replies_view(out@) =~= acc.push(first));
                        assert(acc + (seq![first] + rest.replies) =~= acc.push(first) + rest.replies);
                    }
                    i += 1;
                }
                assert(replies_view(out@) + Seq::<ReplyModel>::empty() =~= replies_view(out@));
                out
            },
        }
    }
}

} // verus!
