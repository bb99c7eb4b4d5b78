//! The errors of evaluation and of reading, with their models.
use vstd::prelude::*;
use vstd::string::*;
use crate::text::{decimal, decimal_model};
use crate::value::{Datum, DialVal};

verus! {

/// The mathematical model of an evaluation error.
pub enum Fault {
    Undefined(Seq<char>),
    TypeError(Seq<char>),
    ArityError(nat),
    InvalidArgumentError(Seq<char>),
}

/// Why an evaluation failed.
#[derive(Debug, PartialEq)]
pub enum EvalError {
    /// A symbol that no active scope binds.
    Undefined(String),
    /// A value of the wrong kind; the text says what was expected.
    TypeError(String),
    /// A wrong number of operands. For a special form or a native function
    /// the number is the position, counted from one, of the first operand
    /// that is missing or in excess; for a closure it is the number of its
    /// parameters.
    ArityError(usize),
    /// An operand of the right kind that the operation cannot accept.
    InvalidArgumentError(String),
}

impl View for EvalError {
    type V = Fault;

    open spec fn view(&self) -> Fault {
        match self {
            EvalError::Undefined(s) => Fault::Undefined(s@),
            EvalError::TypeError(s) => Fault::TypeError(s@),
            EvalError::ArityError(n) => Fault::ArityError(*n as nat),
            EvalError::InvalidArgumentError(s) => Fault::InvalidArgumentError(s@),
        }
    }
}

/// The result of an evaluation.
pub type EvalResult = Result<DialVal, EvalError>;

/// The model of an evaluation result.
pub open spec fn outcome(r: EvalResult) -> Result<Datum, Fault> {
    match r {
        Ok(v) => Ok(v@),
        Err(e) => Err(e@),
    }
}

/// The text that describes a fault.
pub open spec fn fault_text(f: Fault) -> Seq<char> {
    match f {
        Fault::Undefined(s) => "undefined value: "@ + s,
        Fault::TypeError(s) => "TypeError: expected "@ + s,
        Fault::ArityError(n) => "ArityError: wrong number of args ("@ + decimal_model(n) + ")"@,
        Fault::InvalidArgumentError(s) => "InvalidArgumentError: "@ + s,
    }
}

impl EvalError {
    /// A copy of the error.
    pub fn duplicate(&self) -> (r: EvalError)
        ensures
            r@ == self@,
    {
        match self {
            EvalError::Undefined(s) => EvalError::Undefined(s.clone()),
            EvalError::TypeError(s) => EvalError::TypeError(s.clone()),
            EvalError::ArityError(n) => EvalError::ArityError(*n),
            EvalError::InvalidArgumentError(s) => EvalError::InvalidArgumentError(s.clone()),
        }
    }

    /// The text that describes the error.
    pub fn to_text(&self) -> (r: String)
        ensures
            r@ == fault_text(self@),
    {
        match self {
            EvalError::Undefined(s) => {
                let mut out = String::from_str("undefined value: ");
                out.append(s.as_str());
                out
            },
            EvalError::TypeError(s) => {
                let mut out = String::from_str("TypeError: expected ");
                out.append(s.as_str());
                out
            },
            EvalError::ArityError(n) => {
                let mut out = String::from_str("ArityError: wrong number of args (");
                let digits = decimal(*n as u128);
                out.append(digits.as_str());
                out.append(")");
                out
            },
            EvalError::InvalidArgumentError(s) => {
                let mut out = String::from_str("InvalidArgumentError: ");
                out.append(s.as_str());
                out
            },
        }
    }
}

/// Why a text could not be read: a message and the offending position,
/// counted in characters from the start of the text.
#[derive(Debug, PartialEq)]
pub struct ParseError {
    pub msg: String,
    pub position: usize,
}

/// The result of reading.
pub type ParseResult<T> = Result<T, ParseError>;

impl ParseError {
    /// The text that describes the error.
    pub fn to_text(&self) -> (r: String)
        ensures
            r@ == "could not parse input "@ + self.msg@ + " at position "@ + decimal_model(
                self.position as nat,
            ),
    {
        let mut out = String::from_str("could not parse input ");
        out.append(self.msg.as_str());
        out.append(" at position ");
        let digits = decimal(self.position as u128);
        out.append(digits.as_str());
        out
    }
}

} // verus!
