//! The printed form of a value.
use vstd::prelude::*;
use vstd::string::*;
use crate::error::{fault_text, outcome, EvalResult};
use crate::float::{ask_text, float_model, unit_ok, FloatAnswer, FloatCall, FloatModel};
use crate::text::{int_text, int_text_model};
use crate::value::{items_model, lemma_list_model, Datum, DialVal};

verus! {

/// The printed form of a value: atoms as the reader takes them, a string
/// between double quotes, a keyword after a colon, a rational as numerator,
/// slash and denominator, the items of a list or a vector separated by one
/// space between round or square brackets.
pub open spec fn text_model(fm: FloatModel, d: Datum) -> Seq<char>
    decreases d, 0nat,
{
    match d {
        Datum::Nil => "nil"@,
        Datum::Bool(b) => if b {
            "true"@
        } else {
            "false"@
        },
        Datum::Int(i) => int_text_model(i),
        Datum::Float(bits) => (fm.text)(bits),
        Datum::Ratio(n, m) => int_text_model(n) + "/"@ + int_text_model(m),
        Datum::Str(s) => "\""@ + s + "\""@,
        Datum::Sym(s) => s,
        Datum::Keyword(s) => ":"@ + s,
        Datum::Builtin(name) => "#builtin: "@ + name,
        Datum::Lambda { .. } => "#<function>"@,
        Datum::List(items) => "("@ + join_model(fm, items, 0) + ")"@,
        Datum::Vector(items) => "["@ + join_model(fm, items, 0) + "]"@,
    }
}

/// The printed forms of the items from `from` on, separated by one space.
pub open spec fn join_model(fm: FloatModel, items: Seq<Datum>, from: nat) -> Seq<char>
    decreases items, items.len() - from,
{
    if from >= items.len() {
        Seq::empty()
    } else if from + 1 == items.len() {
        text_model(fm, items[from as int])
    } else {
        text_model(fm, items[from as int]) + " "@ + join_model(fm, items, from + 1)
    }
}

/// The printed forms of the items, separated by one space.
pub fn join_text<H: Fn(FloatCall) -> FloatAnswer>(items: &Vec<DialVal>, fpu: &H) -> (r: String)
    requires
        unit_ok(fpu),
    ensures
        r@ == join_model(float_model(fpu), items_model(items@), 0),
    decreases items,
{
    let ghost fm = float_model(fpu);
    let ghost ms = items_model(items@);
    let mut out = String::new();
    let mut i: usize = 0;
    while i < items.len()
        invariant
            unit_ok(fpu),
            fm == float_model(fpu),
            ms == items_model(items@),
            i <= items@.len(),
            out@ + join_model(fm, ms, i as nat) == join_model(fm, ms, 0),
        decreases items@.len() - i,
    {
        let item = &items[i];
        proof {
            vstd::std_specs::vec::axiom_vec_index_decreases(*items, i as int);
        }
        let ghost before = out@;
        let piece = item.to_text(fpu);
        out.append(piece.as_str());
        if i + 1 < items.len() {
            out.append(" ");
            assert(out@ + join_model(fm, ms, (i + 1) as nat) =~= before + join_model(
                fm,
                ms,
                i as nat,
            ));
        } else {
            assert(out@ + join_model(fm, ms, (i + 1) as nat) =~= before + join_model(
                fm,
                ms,
                i as nat,
            ));
        }
        i += 1;
    }
    assert(out@ =~= out@ + join_model(fm, ms, i as nat));
    out
}

impl DialVal {
    /// The printed form of the value.
    pub fn to_text<H: Fn(FloatCall) -> FloatAnswer>(&self, fpu: &H) -> (r: String)
        requires
            unit_ok(fpu),
        ensures
            r@ == text_model(float_model(fpu), self@),
        decreases self,
    {
        match self {
            DialVal::Nil => String::from_str("nil"),
            DialVal::Bool(b) => if *b {
                String::from_str("true")
            } else {
                String::from_str("false")
            },
            DialVal::Int(i) => int_text(*i),
            DialVal::Float(bits) => ask_text(fpu, *bits),
            DialVal::Ratio(q) => {
                let mut out = int_text(q.num);
                out.append("/");
                let den = int_text(q.den);
                out.append(den.as_str());
                out
            },
            DialVal::Str(s) => {
                let mut out = String::from_str("\"");
                out.append(s.as_str());
                out.append("\"");
                out
            },
            DialVal::Sym(s) => s.clone(),
            DialVal::Keyword(s) => {
                let mut out = String::from_str(":");
                out.append(s.as_str());
                out
            },
            DialVal::Builtin { name } => {
                let mut out = String::from_str("#builtin: ");
                out.append(name.as_str());
                out
            },
            DialVal::Lambda { .. } => String::from_str("#<function>"),
            DialVal::List(items) => {
                let mut out = String::from_str("(");
                let inner = join_text(items, fpu);
                out.append(inner.as_str());
                out.append(")");
                proof {
                    lemma_list_model(*items);
                }
                out
            },
            DialVal::Vec(items) => {
                let mut out = String::from_str("[");
                let inner = join_text(items, fpu);
                out.append(inner.as_str());
                out.append("]");
                proof {
                    lemma_list_model(*items);
                }
                out
            },
        }
    }
}

/// The text that a result is shown as: the printed form of a value, or the
/// description of an error.
pub fn print<H: Fn(FloatCall) -> FloatAnswer>(val: EvalResult, fpu: &H) -> (r: String)
    requires
        unit_ok(fpu),
    ensures
        r@ == match outcome(val) {
            Ok(d) => text_model(float_model(fpu), d),
            Err(f) => fault_text(f),
        },
{
    match val {
        Ok(v) => v.to_text(fpu),
        Err(e) => e.to_text(),
    }
}

} // verus!
