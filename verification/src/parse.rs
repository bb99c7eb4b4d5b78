//! The reader: from text to values.
//!
//! `program_model` says which values a text denotes; `parse_program`
//! computes them. The grammar:
//!
//! - an integer is an optional minus sign and decimal digits, within 64
//!   bits;
//! - a floating-point number is an integer, a point and decimal digits;
//! - a string stands between double quotes and holds no double quote;
//! - any other run of characters up to white space or a bracket, which
//!   does not begin with a digit, is a symbol; but `true`, `false` and
//!   `nil` are themselves, and a colon before a symbol makes a keyword;
//! - a list stands between round brackets and a vector between square
//!   ones, their items separated by white space.
use vstd::prelude::*;
use vstd::string::*;
use vstd::std_specs::iter::IteratorSpec;
use crate::error::{ParseError, ParseResult};
use crate::float::{ask_bits, float_model, unit_ok, FloatAnswer, FloatCall, FloatModel};
use crate::value::{items_model, lemma_list_model, Datum, DialVal};

verus! {

/// The deepest nesting of lists and vectors that the reader accepts.
pub const MAX_NESTING: usize = 128;

/// The mathematical model of a reading error.
pub struct ParseFault {
    pub msg: Seq<char>,
    pub position: nat,
}

impl View for ParseError {
    type V = ParseFault;

    open spec fn view(&self) -> ParseFault {
        ParseFault { msg: self.msg@, position: self.position as nat }
    }
}

/// What reading one expression gives: a value and the place after it, or
/// an error.
pub enum Parsed {
    Value(Datum, nat),
    Fault(ParseFault),
}

/// What reading several expressions gives.
pub enum ParsedSeq {
    Values(Seq<Datum>, nat),
    Fault(ParseFault),
}

/// What a text that ends too early is called.
pub open spec fn msg_end() -> Seq<char> {
    "unexpected end of input"@
}

/// What a closing bracket without its opening one is called.
pub open spec fn msg_closing() -> Seq<char> {
    "unexpected closing bracket"@
}

/// What a string without its closing quote is called.
pub open spec fn msg_string() -> Seq<char> {
    "unterminated string"@
}

/// What a number beyond 64 bits is called.
pub open spec fn msg_range() -> Seq<char> {
    "number out of range"@
}

/// What is said where two items touch.
pub open spec fn msg_separator() -> Seq<char> {
    "expected white space or a closing bracket"@
}

/// What is said where an atom must begin.
pub open spec fn msg_atom() -> Seq<char> {
    "expected an atom"@
}

/// What brackets nested beyond the bound are called.
pub open spec fn msg_nesting() -> Seq<char> {
    "brackets nested too deep"@
}

/// Whether a character is white space.
pub open spec fn is_space(c: char) -> bool {
    c == ' ' || c == '\t' || c == '\n' || c == '\r'
}

/// Whether a character is a decimal digit.
pub open spec fn is_digit(c: char) -> bool {
    '0' <= c <= '9'
}

/// Whether a character is a bracket.
pub open spec fn is_bracket(c: char) -> bool {
    c == '(' || c == ')' || c == '[' || c == ']'
}

/// Whether a character may stand in a symbol.
pub open spec fn is_symbol_char(c: char) -> bool {
    !is_space(c) && !is_bracket(c)
}

/// Whether a character may begin a symbol.
pub open spec fn is_symbol_start(c: char) -> bool {
    is_symbol_char(c) && !is_digit(c) && c != '"'
}

/// The value of a decimal digit.
pub open spec fn digit_model(c: char) -> nat {
    (c as u32 - '0' as u32) as nat
}

/// The first place from `pos` on that holds no white space.
pub open spec fn skip_spaces(s: Seq<char>, pos: nat) -> nat
    decreases s.len() - pos,
{
    if pos < s.len() && is_space(s[pos as int]) {
        skip_spaces(s, pos + 1)
    } else {
        pos
    }
}

/// The first place from `pos` on that holds no digit.
pub open spec fn digits_end(s: Seq<char>, pos: nat) -> nat
    decreases s.len() - pos,
{
    if pos < s.len() && is_digit(s[pos as int]) {
        digits_end(s, pos + 1)
    } else {
        pos
    }
}

/// The first place from `pos` on that holds no character of a symbol.
pub open spec fn symbol_end(s: Seq<char>, pos: nat) -> nat
    decreases s.len() - pos,
{
    if pos < s.len() && is_symbol_char(s[pos as int]) {
        symbol_end(s, pos + 1)
    } else {
        pos
    }
}

/// The first place from `pos` on that holds a double quote.
pub open spec fn quote_at(s: Seq<char>, pos: nat) -> Option<nat>
    decreases s.len() - pos,
{
    if pos >= s.len() {
        None
    } else if s[pos as int] == '"' {
        Some(pos)
    } else {
        quote_at(s, pos + 1)
    }
}

/// The number that the digits in places `from` to `to` write.
pub open spec fn digits_value(s: Seq<char>, from: nat, to: nat) -> nat
    decreases to,
{
    if to <= from {
        0
    } else {
        digits_value(s, from, (to - 1) as nat) * 10 + digit_model(s[to - 1])
    }
}

/// The unsigned integer written at `pos`, within 64 signed bits, and the
/// place after it.
pub open spec fn natural_at(s: Seq<char>, pos: nat) -> Option<(int, nat)> {
    if pos < s.len() && is_digit(s[pos as int]) && digits_value(s, pos, digits_end(s, pos))
        <= i64::MAX {
        Some((digits_value(s, pos, digits_end(s, pos)) as int, digits_end(s, pos)))
    } else {
        None
    }
}

/// The integer written at `pos` and the place after it.
pub open spec fn integer_at(s: Seq<char>, pos: nat) -> Option<(int, nat)> {
    if pos < s.len() && s[pos as int] == '-' {
        match natural_at(s, pos + 1) {
            Some((v, end)) => Some((-v, end)),
            None => None,
        }
    } else {
        natural_at(s, pos)
    }
}

/// The floating-point number written at `pos`, as the integers before and
/// after the point, and the place after it.
pub open spec fn decimal_at(s: Seq<char>, pos: nat) -> Option<(int, int, nat)> {
    match integer_at(s, pos) {
        Some((head, dot)) => if dot < s.len() && s[dot as int] == '.' {
            match natural_at(s, dot + 1) {
                Some((tail, end)) => Some((head, tail, end)),
                None => None,
            }
        } else {
            None
        },
        None => None,
    }
}

/// The value of the run of symbol characters in places `from` to `to`,
/// which begins with a character that may begin a symbol.
pub open spec fn word_model(s: Seq<char>, from: nat, to: nat) -> Datum {
    let word = s.subrange(from as int, to as int);
    if word == "true"@ {
        Datum::Bool(true)
    } else if word == "false"@ {
        Datum::Bool(false)
    } else if word == "nil"@ {
        Datum::Nil
    } else if s[from as int] == ':' && from + 1 < to && is_symbol_start(s[from as int + 1]) {
        Datum::Keyword(s.subrange(from as int + 1, to as int))
    } else {
        Datum::Sym(word)
    }
}

/// The atom at `pos`, a place that holds neither white space nor a
/// bracket.
pub open spec fn atom_model(fm: FloatModel, s: Seq<char>, pos: nat) -> Parsed {
    match decimal_at(s, pos) {
        Some((head, tail, end)) => Parsed::Value(
            Datum::Float((fm.bits)(FloatCall::Decimal(head as i64, tail as i64))),
            end,
        ),
        None => match integer_at(s, pos) {
            Some((v, end)) => Parsed::Value(Datum::Int(v), end),
            None => if s[pos as int] == '"' {
                match quote_at(s, pos + 1) {
                    Some(close) => Parsed::Value(
                        Datum::Str(s.subrange(pos as int + 1, close as int)),
                        close + 1,
                    ),
                    None => Parsed::Fault(ParseFault { msg: msg_string(), position: pos }),
                }
            } else if is_symbol_start(s[pos as int]) {
                Parsed::Value(word_model(s, pos, symbol_end(s, pos)), symbol_end(s, pos))
            } else {
                Parsed::Fault(ParseFault { msg: msg_range(), position: pos })
            },
        },
    }
}

/// The expression at `pos`, a place that holds no white space, with
/// `nest` levels of brackets to spend.
pub open spec fn expr_model(fm: FloatModel, s: Seq<char>, pos: nat, nest: nat) -> Parsed
    decreases s.len() - pos, 0nat,
{
    if pos >= s.len() {
        Parsed::Fault(ParseFault { msg: msg_end(), position: pos })
    } else if s[pos as int] == '(' || s[pos as int] == '[' {
        if nest == 0 {
            Parsed::Fault(ParseFault { msg: msg_nesting(), position: pos })
        } else {
            let close = if s[pos as int] == '(' {
                ')'
            } else {
                ']'
            };
            match items_at(fm, s, skip_spaces(s, pos + 1), close, (nest - 1) as nat, pos + 1) {
                ParsedSeq::Values(vs, end) => if s[pos as int] == '(' {
                    Parsed::Value(Datum::List(vs), end)
                } else {
                    Parsed::Value(Datum::Vector(vs), end)
                },
                ParsedSeq::Fault(f) => Parsed::Fault(f),
            }
        }
    } else if is_bracket(s[pos as int]) {
        Parsed::Fault(ParseFault { msg: msg_closing(), position: pos })
    } else {
        atom_model(fm, s, pos)
    }
}

/// The items of a list or a vector from `pos` on, a place that holds no
/// white space, up to the bracket `close`, and the place after that
/// bracket. `floor` is a place that is not after `pos`: the end of the
/// item before, or the place after the opening bracket.
///
/// The tests on `floor` and on the end of an item never fail (see
/// `lemma_expr_advances`); they are here to show that the reading ends.
pub open spec fn items_at(fm: FloatModel, s: Seq<char>, pos: nat, close: char, nest: nat, floor: nat) -> ParsedSeq
    decreases s.len() - floor, 1nat,
{
    if pos >= s.len() {
        ParsedSeq::Fault(ParseFault { msg: msg_end(), position: pos })
    } else if s[pos as int] == close {
        ParsedSeq::Values(Seq::empty(), pos + 1)
    } else if pos < floor {
        ParsedSeq::Fault(ParseFault { msg: msg_end(), position: pos })
    } else {
        match expr_model(fm, s, pos, nest) {
            Parsed::Fault(f) => ParsedSeq::Fault(f),
            Parsed::Value(v, end) => {
                let next = skip_spaces(s, end);
                if end <= pos || end > s.len() {
                    ParsedSeq::Fault(ParseFault { msg: msg_end(), position: end })
                } else if next == end && next < s.len() && s[next as int] != ')' && s[next as int]
                    != ']' {
                    ParsedSeq::Fault(ParseFault { msg: msg_separator(), position: end })
                } else {
                    match items_at(fm, s, next, close, nest, end) {
                        ParsedSeq::Values(vs, after) => ParsedSeq::Values(seq![v] + vs, after),
                        ParsedSeq::Fault(f) => ParsedSeq::Fault(f),
                    }
                }
            },
        }
    }
}

/// The expressions of a text from `pos` on, a place that holds no white
/// space: one after the other, with or without white space between them,
/// to the end of the text. The tests on the end of an expression never
/// fail (see `lemma_expr_advances`); they are here to show that the
/// reading ends.
pub open spec fn program_at(fm: FloatModel, s: Seq<char>, pos: nat) -> ParsedSeq
    decreases s.len() - pos,
{
    if pos >= s.len() {
        ParsedSeq::Values(Seq::empty(), pos)
    } else {
        match expr_model(fm, s, pos, MAX_NESTING as nat) {
            Parsed::Fault(f) => ParsedSeq::Fault(f),
            Parsed::Value(v, end) => if end <= pos || skip_spaces(s, end) < end || skip_spaces(s, end)
                > s.len() {
                ParsedSeq::Fault(ParseFault { msg: msg_end(), position: end })
            } else {
                match program_at(fm, s, skip_spaces(s, end)) {
                    ParsedSeq::Values(vs, after) => ParsedSeq::Values(seq![v] + vs, after),
                    ParsedSeq::Fault(f) => ParsedSeq::Fault(f),
                }
            },
        }
    }
}

/// The values that a text denotes: its expressions in order. A text
/// without an expression is an error.
pub open spec fn program_model(fm: FloatModel, s: Seq<char>) -> Result<Seq<Datum>, ParseFault> {
    if skip_spaces(s, 0) >= s.len() {
        Err(ParseFault { msg: msg_end(), position: skip_spaces(s, 0) })
    } else {
        match program_at(fm, s, skip_spaces(s, 0)) {
            ParsedSeq::Values(vs, _) => Ok(vs),
            ParsedSeq::Fault(f) => Err(f),
        }
    }
}

/// The value that the first expression of a text denotes.
pub open spec fn sexpr_model(fm: FloatModel, s: Seq<char>) -> Result<Datum, ParseFault> {
    match expr_model(fm, s, skip_spaces(s, 0), MAX_NESTING as nat) {
        Parsed::Value(v, _) => Ok(v),
        Parsed::Fault(f) => Err(f),
    }
}

/// The characters of a text.
pub fn chars_of(text: &str) -> (r: Vec<char>)
    ensures
        r@ == text@,
{
    let mut out: Vec<char> = Vec::new();
    let n = text.unicode_len();
    let mut it = text.chars();
    loop
        invariant
            out@ + it.remaining() == text@,
            n == text@.len(),
        ensures
            out@ == text@,
        decreases n - out@.len(),
    {
        match it.next() {
            Some(c) => {
                out.push(c);
            },
            None => {
                assert(out@ + it.remaining() =~= out@);
                break ;
            },
        }
    }
    out
}

fn space(c: char) -> (r: bool)
    ensures
        r == is_space(c),
{
    c == ' ' || c == '\t' || c == '\n' || c == '\r'
}

fn digit(c: char) -> (r: bool)
    ensures
        r == is_digit(c),
{
    '0' <= c && c <= '9'
}

fn bracket(c: char) -> (r: bool)
    ensures
        r == is_bracket(c),
{
    c == '(' || c == ')' || c == '[' || c == ']'
}

fn symbol_char(c: char) -> (r: bool)
    ensures
        r == is_symbol_char(c),
{
    !space(c) && !bracket(c)
}

fn symbol_start(c: char) -> (r: bool)
    ensures
        r == is_symbol_start(c),
{
    symbol_char(c) && !digit(c) && c != '"'
}

/// A reading error.
fn fault(msg: &str, position: usize) -> (e: ParseError)
    ensures
        e@ == (ParseFault { msg: msg@, position: position as nat }),
{
    ParseError { msg: String::from_str(msg), position }
}

/// The first place from `pos` on that holds no white space.
fn skip(chars: &Vec<char>, pos: usize) -> (r: usize)
    requires
        pos <= chars@.len(),
    ensures
        r == skip_spaces(chars@, pos as nat),
        pos <= r <= chars@.len(),
{
    let mut i: usize = pos;
    while i < chars.len() && space(chars[i])
        invariant
            pos <= i <= chars@.len(),
            skip_spaces(chars@, i as nat) == skip_spaces(chars@, pos as nat),
        decreases chars@.len() - i,
    {
        i += 1;
    }
    i
}

/// The first place from `pos` on that holds no character of a symbol.
fn scan_symbol(chars: &Vec<char>, pos: usize) -> (r: usize)
    requires
        pos <= chars@.len(),
    ensures
        r == symbol_end(chars@, pos as nat),
        pos <= r <= chars@.len(),
        pos < chars@.len() && is_symbol_char(chars@[pos as int]) ==> pos < r,
{
    let mut i: usize = pos;
    while i < chars.len() && symbol_char(chars[i])
        invariant
            pos <= i <= chars@.len(),
            symbol_end(chars@, i as nat) == symbol_end(chars@, pos as nat),
        decreases chars@.len() - i,
    {
        i += 1;
    }
    i
}

/// The first place from `pos` on that holds a double quote.
fn find_quote(chars: &Vec<char>, pos: usize) -> (r: Option<usize>)
    requires
        pos <= chars@.len(),
    ensures
        match r {
            Some(q) => quote_at(chars@, pos as nat) == Some(q as nat) && pos <= q < chars@.len(),
            None => quote_at(chars@, pos as nat) is None,
        },
{
    let mut i: usize = pos;
    while i < chars.len()
        invariant
            pos <= i <= chars@.len(),
            quote_at(chars@, i as nat) == quote_at(chars@, pos as nat),
        decreases chars@.len() - i,
    {
        if chars[i] == '"' {
            return Some(i);
        }
        i += 1;
    }
    None
}

/// The digits from `pos` on: the place after them, and the number they
/// write where it fits in 64 signed bits.
fn scan_digits(chars: &Vec<char>, pos: usize) -> (r: (usize, Option<i64>))
    requires
        pos <= chars@.len(),
    ensures
        r.0 == digits_end(chars@, pos as nat),
        pos <= r.0 <= chars@.len(),
        pos < chars@.len() && is_digit(chars@[pos as int]) ==> pos < r.0,
        match r.1 {
            Some(v) => v == digits_value(chars@, pos as nat, r.0 as nat),
            None => digits_value(chars@, pos as nat, r.0 as nat) > i64::MAX,
        },
{
    let ghost s = chars@;
    let mut i: usize = pos;
    let mut value: u64 = 0;
    let mut over = false;
    while i < chars.len() && digit(chars[i])
        invariant
            s == chars@,
            pos <= i <= s.len(),
            digits_end(s, i as nat) == digits_end(s, pos as nat),
            !over ==> value == digits_value(s, pos as nat, i as nat) && value <= i64::MAX,
            over ==> digits_value(s, pos as nat, i as nat) > i64::MAX,
        decreases s.len() - i,
    {
        let d: u64 = (chars[i] as u32 - '0' as u32) as u64;
        assert(d == digit_model(s[i as int]));
        assert(digits_value(s, pos as nat, (i + 1) as nat) == digits_value(s, pos as nat, i as nat)
            * 10 + d);
        if !over {
            if value > (0x7fff_ffff_ffff_ffffu64 - d) / 10 {
                over = true;
            } else {
                value = value * 10 + d;
            }
        }
        i += 1;
    }
    if over {
        (i, None)
    } else {
        (i, Some(value as i64))
    }
}

/// The unsigned integer written at `pos` and the place after it.
fn natural(chars: &Vec<char>, pos: usize) -> (r: Option<(i64, usize)>)
    requires
        pos <= chars@.len(),
    ensures
        match r {
            Some((v, end)) => natural_at(chars@, pos as nat) == Some((v as int, end as nat)) && pos
                < end <= chars@.len() && v >= 0,
            None => natural_at(chars@, pos as nat) is None,
        },
{
    if pos < chars.len() && digit(chars[pos]) {
        let (end, value) = scan_digits(chars, pos);
        match value {
            Some(v) => Some((v, end)),
            None => None,
        }
    } else {
        None
    }
}

/// The integer written at `pos` and the place after it.
fn integer(chars: &Vec<char>, pos: usize) -> (r: Option<(i64, usize)>)
    requires
        pos <= chars@.len(),
    ensures
        match r {
            Some((v, end)) => integer_at(chars@, pos as nat) == Some((v as int, end as nat)) && pos
                < end <= chars@.len(),
            None => integer_at(chars@, pos as nat) is None,
        },
{
    if pos < chars.len() && chars[pos] == '-' {
        match natural(chars, pos + 1) {
            Some((v, end)) => Some((-v, end)),
            None => None,
        }
    } else {
        natural(chars, pos)
    }
}

/// The floating-point number written at `pos`, as the integers before and
/// after the point, and the place after it.
fn decimal(chars: &Vec<char>, pos: usize) -> (r: Option<(i64, i64, usize)>)
    requires
        pos <= chars@.len(),
    ensures
        match r {
            Some((head, tail, end)) => decimal_at(chars@, pos as nat) == Some(
                (head as int, tail as int, end as nat),
            ) && pos < end <= chars@.len(),
            None => decimal_at(chars@, pos as nat) is None,
        },
{
    match integer(chars, pos) {
        Some((head, dot)) => {
            if dot < chars.len() && chars[dot] == '.' {
                match natural(chars, dot + 1) {
                    Some((tail, end)) => Some((head, tail, end)),
                    None => None,
                }
            } else {
                None
            }
        },
        None => None,
    }
}

/// Whether a text is the given one.
fn same_text(a: &str, b: &str) -> (r: bool)
    ensures
        r == (a@ == b@),
{
    let x = String::from_str(a);
    let y = String::from_str(b);
    x == y
}

/// The value of the run of symbol characters in places `from` to `to`.
fn word(text: &str, chars: &Vec<char>, from: usize, to: usize) -> (r: DialVal)
    requires
        chars@ == text@,
        from < to <= chars@.len(),
    ensures
        r@ == word_model(chars@, from as nat, to as nat),
{
    let w = text.substring_char(from, to);
    if same_text(w, "true") {
        DialVal::Bool(true)
    } else if same_text(w, "false") {
        DialVal::Bool(false)
    } else if same_text(w, "nil") {
        DialVal::Nil
    } else if chars[from] == ':' && from + 1 < to && symbol_start(chars[from + 1]) {
        DialVal::Keyword(String::from_str(text.substring_char(from + 1, to)))
    } else {
        DialVal::Sym(String::from_str(w))
    }
}

/// Reads the atom at `pos`.
fn atom<H: Fn(FloatCall) -> FloatAnswer>(text: &str, chars: &Vec<char>, pos: usize, fpu: &H) -> (r: ParseResult<
    (DialVal, usize),
>)
    requires
        unit_ok(fpu),
        chars@ == text@,
        pos < chars@.len(),
    ensures
        match r {
            Ok((v, end)) => atom_model(float_model(fpu), chars@, pos as nat) == Parsed::Value(
                v@,
                end as nat,
            ) && pos < end <= chars@.len(),
            Err(e) => atom_model(float_model(fpu), chars@, pos as nat) == Parsed::Fault(e@),
        },
{
    match decimal(chars, pos) {
        Some((head, tail, end)) => {
            return Ok((DialVal::Float(ask_bits(fpu, FloatCall::Decimal(head, tail))), end));
        },
        None => {},
    }
    match integer(chars, pos) {
        Some((v, end)) => {
            return Ok((DialVal::Int(v), end));
        },
        None => {},
    }
    let n = chars.len();
    if chars[pos] == '"' {
        match find_quote(chars, pos + 1) {
            Some(close) => Ok(
                (DialVal::Str(String::from_str(text.substring_char(pos + 1, close))), close + 1),
            ),
            None => Err(fault("unterminated string", pos)),
        }
    } else if symbol_start(chars[pos]) {
        let end = scan_symbol(chars, pos);
        Ok((word(text, chars, pos, end), end))
    } else {
        Err(fault("number out of range", pos))
    }
}

/// Reads the expression at `pos`.
fn expr<H: Fn(FloatCall) -> FloatAnswer>(text: &str, chars: &Vec<char>, pos: usize, nest: usize, fpu: &H) -> (r:
    ParseResult<(DialVal, usize)>)
    requires
        unit_ok(fpu),
        chars@ == text@,
        pos <= chars@.len(),
    ensures
        match r {
            Ok((v, end)) => expr_model(float_model(fpu), chars@, pos as nat, nest as nat)
                == Parsed::Value(v@, end as nat) && pos < end <= chars@.len(),
            Err(e) => expr_model(float_model(fpu), chars@, pos as nat, nest as nat) == Parsed::Fault(
                e@,
            ),
        },
    decreases nest, 0nat,
{
    if pos >= chars.len() {
        return Err(fault("unexpected end of input", pos));
    }
    let c = chars[pos];
    if c == '(' || c == '[' {
        if nest == 0 {
            return Err(fault("brackets nested too deep", pos));
        }
        let close = if c == '(' {
            ')'
        } else {
            ']'
        };
        let start = skip(chars, pos + 1);
        match items(text, chars, start, close, nest - 1, pos + 1, fpu) {
            Ok((vs, end)) => {
                proof {
                    lemma_list_model(vs);
                }
                if c == '(' {
                    Ok((DialVal::List(vs), end))
                } else {
                    Ok((DialVal::Vec(vs), end))
                }
            },
            Err(e) => Err(e),
        }
    } else if bracket(c) {
        Err(fault("unexpected closing bracket", pos))
    } else {
        atom(text, chars, pos, fpu)
    }
}

/// The values `done`, then what `rest` gives.
pub open spec fn then(done: Seq<Datum>, rest: ParsedSeq) -> ParsedSeq {
    match rest {
        ParsedSeq::Values(vs, end) => ParsedSeq::Values(done + vs, end),
        ParsedSeq::Fault(f) => ParsedSeq::Fault(f),
    }
}

/// Reads the items of a list or a vector from `pos` on, up to the bracket
/// `close`.
fn items<H: Fn(FloatCall) -> FloatAnswer>(
    text: &str,
    chars: &Vec<char>,
    pos: usize,
    close: char,
    nest: usize,
    floor: usize,
    fpu: &H,
) -> (r: ParseResult<(Vec<DialVal>, usize)>)
    requires
        unit_ok(fpu),
        chars@ == text@,
        floor <= pos <= chars@.len(),
    ensures
        match r {
            Ok((vs, end)) => items_at(
                float_model(fpu),
                chars@,
                pos as nat,
                close,
                nest as nat,
                floor as nat,
            ) == ParsedSeq::Values(items_model(vs@), end as nat) && pos < end <= chars@.len(),
            Err(e) => items_at(
                float_model(fpu),
                chars@,
                pos as nat,
                close,
                nest as nat,
                floor as nat,
            ) == ParsedSeq::Fault(e@),
        },
    decreases nest, 1nat,
{
    let ghost fm = float_model(fpu);
    let ghost s = chars@;
    let ghost target = items_at(fm, s, pos as nat, close, nest as nat, floor as nat);
    let mut out: Vec<DialVal> = Vec::new();
    let mut at: usize = pos;
    let mut low: usize = floor;
    proof {
        assert(items_model(out@) =~= Seq::<Datum>::empty());
        match target {
            ParsedSeq::Values(vs, _) => {
                assert(Seq::<Datum>::empty() + vs =~= vs);
            },
            ParsedSeq::Fault(_) => {},
        }
    }
    loop
        invariant
            unit_ok(fpu),
            fm == float_model(fpu),
            s == chars@,
            chars@ == text@,
            low <= at <= s.len(),
            pos <= at,
            then(items_model(out@), items_at(fm, s, at as nat, close, nest as nat, low as nat))
                == target,
            target == items_at(fm, s, pos as nat, close, nest as nat, floor as nat),
        decreases s.len() - at,
    {
        if at >= chars.len() {
            return Err(fault("unexpected end of input", at));
        }
        if chars[at] == close {
            proof {
                assert(items_model(out@) + Seq::<Datum>::empty() =~= items_model(out@));
            }
            return Ok((out, at + 1));
        }
        let ghost acc = items_model(out@);
        match expr(text, chars, at, nest, fpu) {
            Err(e) => {
                return Err(e);
            },
            Ok((v, end)) => {
                let next = skip(chars, end);
                if next == end && next < chars.len() && chars[next] != ')' && chars[next] != ']' {
                    return Err(fault("expected white space or a closing bracket", end));
                }
                out.push(v);
                proof {
                    assert(items_model(out@) =~= acc.push(v@));
                    match items_at(fm, s, next as nat, close, nest as nat, end as nat) {
                        ParsedSeq::Values(vs, _) => {
                            assert(acc + (seq![v@] + vs) =~= acc.push(v@) + vs);
                        },
                        ParsedSeq::Fault(_) => {},
                    }
                }
                at = next;
                low = end;
            },
        }
    }
}

/// Reads the expressions of a text from `pos` on.
fn program<H: Fn(FloatCall) -> FloatAnswer>(text: &str, chars: &Vec<char>, pos: usize, fpu: &H) -> (r: ParseResult<
    Vec<DialVal>,
>)
    requires
        unit_ok(fpu),
        chars@ == text@,
        pos <= chars@.len(),
    ensures
        match r {
            Ok(vs) => program_at(float_model(fpu), chars@, pos as nat) matches ParsedSeq::Values(
                ms,
                _,
            ) && ms == items_model(vs@),
            Err(e) => program_at(float_model(fpu), chars@, pos as nat) == ParsedSeq::Fault(e@),
        },
{
    let ghost fm = float_model(fpu);
    let ghost s = chars@;
    let ghost target = program_at(fm, s, pos as nat);
    let mut out: Vec<DialVal> = Vec::new();
    let mut at: usize = pos;
    proof {
        assert(items_model(out@) =~= Seq::<Datum>::empty());
        match target {
            ParsedSeq::Values(vs, _) => {
                assert(Seq::<Datum>::empty() + vs =~= vs);
            },
            ParsedSeq::Fault(_) => {},
        }
    }
    while at < chars.len()
        invariant
            unit_ok(fpu),
            fm == float_model(fpu),
            s == chars@,
            chars@ == text@,
            at <= s.len(),
            then(items_model(out@), program_at(fm, s, at as nat)) == target,
            target == program_at(fm, s, pos as nat),
        decreases s.len() - at,
    {
        let ghost acc = items_model(out@);
        match expr(text, chars, at, MAX_NESTING, fpu) {
            Err(e) => {
                return Err(e);
            },
            Ok((v, end)) => {
                let next = skip(chars, end);
                out.push(v);
                proof {
                    assert(items_model(out@) =~= acc.push(v@));
                    match program_at(fm, s, next as nat) {
                        ParsedSeq::Values(vs, _) => {
                            assert(acc + (seq![v@] + vs) =~= acc.push(v@) + vs);
                        },
                        ParsedSeq::Fault(_) => {},
                    }
                }
                at = next;
            },
        }
    }
    proof {
        assert(items_model(out@) + Seq::<Datum>::empty() =~= items_model(out@));
        assert(target == ParsedSeq::Values(items_model(out@), at as nat));
    }
    Ok(out)
}

/// Reads a text: its expressions in order.
pub fn parse_program<H: Fn(FloatCall) -> FloatAnswer>(input: String, fpu: &H) -> (r: ParseResult<Vec<DialVal>>)
    requires
        unit_ok(fpu),
    ensures
        match r {
            Ok(vs) => program_model(float_model(fpu), input@) == Ok::<Seq<Datum>, ParseFault>(
                items_model(vs@),
            ),
            Err(e) => program_model(float_model(fpu), input@) == Err::<Seq<Datum>, ParseFault>(e@),
        },
{
    let text = input.as_str();
    let chars = chars_of(text);
    let start = skip(&chars, 0);
    if start >= chars.len() {
        Err(fault("unexpected end of input", start))
    } else {
        program(text, &chars, start, fpu)
    }
}

/// Reads the first expression of a text.
pub fn parse_sexpr<H: Fn(FloatCall) -> FloatAnswer>(input: String, fpu: &H) -> (r: ParseResult<DialVal>)
    requires
        unit_ok(fpu),
    ensures
        match r {
            Ok(v) => sexpr_model(float_model(fpu), input@) == Ok::<Datum, ParseFault>(v@),
            Err(e) => sexpr_model(float_model(fpu), input@) == Err::<Datum, ParseFault>(e@),
        },
{
    let text = input.as_str();
    let chars = chars_of(text);
    let start = skip(&chars, 0);
    match expr(text, &chars, start, MAX_NESTING, fpu) {
        Ok((v, _)) => Ok(v),
        Err(e) => Err(e),
    }
}

/// The atom that a text begins with; a text that begins with white space
/// or a bracket has none.
pub open spec fn atom_text_model(fm: FloatModel, s: Seq<char>) -> Result<Datum, ParseFault> {
    if s.len() == 0 {
        Err(ParseFault { msg: msg_end(), position: 0 })
    } else if is_space(s[0]) || is_bracket(s[0]) {
        Err(ParseFault { msg: msg_atom(), position: 0 })
    } else {
        match atom_model(fm, s, 0) {
            Parsed::Value(v, _) => Ok(v),
            Parsed::Fault(f) => Err(f),
        }
    }
}

/// Reads the atom that a text begins with.
pub fn parse_atom<H: Fn(FloatCall) -> FloatAnswer>(input: String, fpu: &H) -> (r: ParseResult<DialVal>)
    requires
        unit_ok(fpu),
    ensures
        match r {
            Ok(v) => atom_text_model(float_model(fpu), input@) == Ok::<Datum, ParseFault>(v@),
            Err(e) => atom_text_model(float_model(fpu), input@) == Err::<Datum, ParseFault>(e@),
        },
{
    let text = input.as_str();
    let chars = chars_of(text);
    if chars.len() == 0 {
        Err(fault("unexpected end of input", 0))
    } else if space(chars[0]) || bracket(chars[0]) {
        Err(fault("expected an atom", 0))
    } else {
        match atom(text, &chars, 0, fpu) {
            Ok((v, _)) => Ok(v),
            Err(e) => Err(e),
        }
    }
}

/// Reads a text: its expressions in order.
pub fn read<H: Fn(FloatCall) -> FloatAnswer>(input: String, fpu: &H) -> (r: ParseResult<Vec<DialVal>>)
    requires
        unit_ok(fpu),
    ensures
        match r {
            Ok(vs) => program_model(float_model(fpu), input@) == Ok::<Seq<Datum>, ParseFault>(
                items_model(vs@),
            ),
            Err(e) => program_model(float_model(fpu), input@) == Err::<Seq<Datum>, ParseFault>(e@),
        },
{
    parse_program(input, fpu)
}

/// Skipping white space goes forward, and not beyond the end of the text.
pub proof fn lemma_skip_bounds(s: Seq<char>, pos: nat)
    ensures
        pos <= skip_spaces(s, pos),
        pos <= s.len() ==> skip_spaces(s, pos) <= s.len(),
        skip_spaces(s, pos) < s.len() ==> !is_space(s[skip_spaces(s, pos) as int]),
    decreases s.len() - pos,
{
    if pos < s.len() && is_space(s[pos as int]) {
        lemma_skip_bounds(s, pos + 1);
    }
}

/// A run of digits goes forward, and not beyond the end of the text.
proof fn lemma_digits_bounds(s: Seq<char>, pos: nat)
    ensures
        pos <= digits_end(s, pos),
        pos <= s.len() ==> digits_end(s, pos) <= s.len(),
        pos < s.len() && is_digit(s[pos as int]) ==> pos < digits_end(s, pos),
    decreases s.len() - pos,
{
    if pos < s.len() && is_digit(s[pos as int]) {
        lemma_digits_bounds(s, pos + 1);
    }
}

/// A run of symbol characters goes forward, and not beyond the end of the
/// text.
proof fn lemma_symbol_bounds(s: Seq<char>, pos: nat)
    ensures
        pos <= symbol_end(s, pos),
        pos <= s.len() ==> symbol_end(s, pos) <= s.len(),
        pos < s.len() && is_symbol_char(s[pos as int]) ==> pos < symbol_end(s, pos),
    decreases s.len() - pos,
{
    if pos < s.len() && is_symbol_char(s[pos as int]) {
        lemma_symbol_bounds(s, pos + 1);
    }
}

/// A double quote is found at or after the place where the search began,
/// within the text.
proof fn lemma_quote_bounds(s: Seq<char>, pos: nat)
    ensures
        quote_at(s, pos) matches Some(q) ==> pos <= q < s.len(),
    decreases s.len() - pos,
{
    if pos < s.len() && s[pos as int] != '"' {
        lemma_quote_bounds(s, pos + 1);
    }
}

/// An atom ends after the place where it begins, within the text.
pub proof fn lemma_atom_advances(fm: FloatModel, s: Seq<char>, pos: nat)
    requires
        pos < s.len(),
    ensures
        atom_model(fm, s, pos) matches Parsed::Value(_, end) ==> pos < end <= s.len(),
{
    lemma_digits_bounds(s, pos);
    lemma_digits_bounds(s, pos + 1);
    lemma_symbol_bounds(s, pos);
    lemma_quote_bounds(s, pos + 1);
    match integer_at(s, pos) {
        Some((_, dot)) => {
            lemma_digits_bounds(s, dot + 1);
        },
        None => {},
    }
}

/// An expression ends after the place where it begins, within the text.
pub proof fn lemma_expr_advances(fm: FloatModel, s: Seq<char>, pos: nat, nest: nat)
    ensures
        expr_model(fm, s, pos, nest) matches Parsed::Value(_, end) ==> pos < end <= s.len(),
    decreases s.len() - pos, 0nat,
{
    if pos < s.len() {
        if s[pos as int] == '(' || s[pos as int] == '[' {
            if nest > 0 {
                let close = if s[pos as int] == '(' {
                    ')'
                } else {
                    ']'
                };
                lemma_skip_bounds(s, pos + 1);
                lemma_items_advance(
                    fm,
                    s,
                    skip_spaces(s, pos + 1),
                    close,
                    (nest - 1) as nat,
                    pos + 1,
                );
            }
        } else if !is_bracket(s[pos as int]) {
            lemma_atom_advances(fm, s, pos);
        }
    }
}

/// The items of a list or a vector end after the place where they begin,
/// within the text.
pub proof fn lemma_items_advance(fm: FloatModel, s: Seq<char>, pos: nat, close: char, nest: nat, floor: nat)
    requires
        floor <= pos,
    ensures
        items_at(fm, s, pos, close, nest, floor) matches ParsedSeq::Values(_, end) ==> pos < end
            <= s.len(),
    decreases s.len() - floor, 1nat,
{
    if pos < s.len() && s[pos as int] != close {
        lemma_expr_advances(fm, s, pos, nest);
        match expr_model(fm, s, pos, nest) {
            Parsed::Fault(_) => {},
            Parsed::Value(_, end) => {
                lemma_skip_bounds(s, end);
                if !(end <= pos || end > s.len()) {
                    lemma_items_advance(fm, s, skip_spaces(s, end), close, nest, end);
                }
            },
        }
    }
}

} // verus!
