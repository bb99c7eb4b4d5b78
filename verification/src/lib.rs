//! A small Lisp-family expression language: reader, value model, numeric
//! tower, environment chain and a trampolined evaluator.
//!
//! Every function of the library carries a contract over the mathematical
//! models defined next to the data types (`Datum` for values, `Chain` for
//! environments), and is proved against it.
//!
//! Floating-point numbers are carried as bit patterns. The arithmetic on
//! them is the caller's: each function that may need it takes the
//! floating-point unit as an argument (see `float`).
pub mod builtin;
pub mod convert;
pub mod env;
pub mod equality;
pub mod error;
pub mod eval;
pub mod float;
pub mod interpreter;
pub mod laws;
pub mod numeric;
pub mod parse;
pub mod ratio;
pub mod repl;
pub mod roundtrip;
pub mod show;
pub mod text;
pub mod value;

pub use env::Env;
pub use error::{EvalError, EvalResult, ParseError, ParseResult};
pub use eval::eval;
pub use float::{FloatAnswer, FloatCall};
pub use interpreter::Interpreter;
pub use parse::read;
pub use ratio::Ratio;
pub use repl::Repl;
pub use show::print;
pub use value::DialVal;
