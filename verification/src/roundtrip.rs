//! Reading what was printed.
use vstd::prelude::*;
use crate::float::FloatModel;
use crate::parse::{
    atom_model, decimal_at, digit_model, digits_end, digits_value, expr_model, integer_at, is_bracket,
    is_digit, is_space, is_symbol_char, is_symbol_start, natural_at, program_at, program_model,
    quote_at, sexpr_model, skip_spaces, symbol_end, word_model, ParseFault, Parsed, ParsedSeq,
    MAX_NESTING,
};
use crate::show::text_model;
use crate::text::{decimal_model, digit_char, int_text_model};
use crate::value::Datum;

verus! {

/// The character of a digit is a digit with that value.
proof fn lemma_digit_char(d: nat)
    requires
        d < 10,
    ensures
        is_digit(digit_char(d)),
        digit_model(digit_char(d)) == d,
{
}

/// A decimal numeral consists of digits, at least one.
proof fn lemma_decimal_digits(n: nat)
    ensures
        decimal_model(n).len() >= 1,
        forall|k: int| 0 <= k < decimal_model(n).len() ==> is_digit(#[trigger] decimal_model(n)[k]),
    decreases n,
{
    if n < 10 {
        lemma_digit_char(n);
    } else {
        lemma_decimal_digits(n / 10);
        lemma_digit_char(n % 10);
    }
}

/// Digits that are alike write the same number.
proof fn lemma_value_agrees(a: Seq<char>, fa: nat, b: Seq<char>, fb: nat, k: nat)
    requires
        fa + k <= a.len(),
        fb + k <= b.len(),
        a.subrange(fa as int, (fa + k) as int) == b.subrange(fb as int, (fb + k) as int),
    ensures
        digits_value(a, fa, fa + k) == digits_value(b, fb, fb + k),
    decreases k,
{
    if k > 0 {
        let x = a.subrange(fa as int, (fa + k) as int);
        let y = b.subrange(fb as int, (fb + k) as int);
        assert(a.subrange(fa as int, fa + k - 1) =~= x.subrange(0, k - 1));
        assert(b.subrange(fb as int, fb + k - 1) =~= y.subrange(0, k - 1));
        lemma_value_agrees(a, fa, b, fb, (k - 1) as nat);
        assert(a[fa + k - 1] == x[k - 1]);
        assert(b[fb + k - 1] == y[k - 1]);
    }
}

/// A decimal numeral writes its number.
proof fn lemma_decimal_value(n: nat)
    ensures
        digits_value(decimal_model(n), 0, decimal_model(n).len()) == n,
    decreases n,
{
    let t = decimal_model(n);
    if n < 10 {
        lemma_digit_char(n);
        assert(digits_value(t, 0, 0) == 0);
        assert(digits_value(t, 0, 1) == digits_value(t, 0, 0) * 10 + digit_model(t[0]));
    } else {
        let p = decimal_model(n / 10);
        lemma_decimal_value(n / 10);
        lemma_digit_char(n % 10);
        assert(t.subrange(0, p.len() as int) =~= p.subrange(0, p.len() as int));
        lemma_value_agrees(t, 0, p, 0, p.len());
        assert(t.len() == p.len() + 1);
        assert(digits_value(t, 0, t.len()) == digits_value(t, 0, p.len()) * 10 + digit_model(
            t[t.len() - 1],
        ));
    }
}

/// A run of digits to the end of the text ends there.
proof fn lemma_digits_run(s: Seq<char>, pos: nat)
    requires
        pos <= s.len(),
        forall|j: int| pos <= j < s.len() ==> is_digit(#[trigger] s[j]),
    ensures
        digits_end(s, pos) == s.len(),
    decreases s.len() - pos,
{
    if pos < s.len() {
        assert(is_digit(s[pos as int]));
        lemma_digits_run(s, pos + 1);
    }
}

/// A text that is one atom reads as that atom alone.
proof fn lemma_one_atom(fm: FloatModel, s: Seq<char>, v: Datum)
    requires
        s.len() > 0,
        !is_space(s[0]),
        !is_bracket(s[0]),
        atom_model(fm, s, 0) == Parsed::Value(v, s.len()),
    ensures
        program_model(fm, s) == Ok::<Seq<Datum>, ParseFault>(seq![v]),
        sexpr_model(fm, s) == Ok::<Datum, ParseFault>(v),
{
    assert(skip_spaces(s, 0) == 0);
    assert(skip_spaces(s, s.len()) == s.len());
    assert(expr_model(fm, s, 0, MAX_NESTING as nat) == Parsed::Value(v, s.len()));
    assert(program_at(fm, s, s.len()) == ParsedSeq::Values(Seq::<Datum>::empty(), s.len()));
    assert(seq![v] + Seq::<Datum>::empty() =~= seq![v]);
}

/// An integer reads back from its printed form, but for the least
/// integer of 64 bits, whose magnitude is no integer of 64 bits.
pub proof fn lemma_integer_reads_back(fm: FloatModel, i: int)
    requires
        i64::MIN < i <= i64::MAX,
    ensures
        program_model(fm, text_model(fm, Datum::Int(i))) == Ok::<Seq<Datum>, ParseFault>(
            seq![Datum::Int(i)],
        ),
        sexpr_model(fm, text_model(fm, Datum::Int(i))) == Ok::<Datum, ParseFault>(Datum::Int(i)),
{
    let s = int_text_model(i);
    if i < 0 {
        let n = (-i) as nat;
        let t = decimal_model(n);
        lemma_decimal_digits(n);
        lemma_decimal_value(n);
        assert(s =~= seq!['-'] + t);
        assert forall|j: int| 1 <= j < s.len() implies is_digit(#[trigger] s[j]) by {
            assert(s[j] == t[j - 1]);
        }
        lemma_digits_run(s, 1);
        assert(s.subrange(1, (1 + t.len()) as int) =~= t.subrange(0, t.len() as int));
        lemma_value_agrees(s, 1, t, 0, t.len());
        assert(natural_at(s, 1) == Some((n as int, s.len())));
        assert(integer_at(s, 0) == Some((i, s.len())));
    } else {
        let n = i as nat;
        lemma_decimal_digits(n);
        lemma_decimal_value(n);
        assert forall|j: int| 0 <= j < s.len() implies is_digit(#[trigger] s[j]) by {}
        lemma_digits_run(s, 0);
        assert(is_digit(s[0]));
        assert(natural_at(s, 0) == Some((i, s.len())));
        assert(integer_at(s, 0) == Some((i, s.len())));
    }
    assert(decimal_at(s, 0) is None);
    assert(atom_model(fm, s, 0) == Parsed::Value(Datum::Int(i), s.len()));
    lemma_one_atom(fm, s, Datum::Int(i));
}

/// The first double quote after a run without one.
proof fn lemma_quote_found(s: Seq<char>, pos: nat, at: nat)
    requires
        pos <= at < s.len(),
        s[at as int] == '"',
        forall|j: int| pos <= j < at ==> s[j] != '"',
    ensures
        quote_at(s, pos) == Some(at),
    decreases at - pos,
{
    if pos < at {
        lemma_quote_found(s, pos + 1, at);
    }
}

/// A string without a double quote reads back from its printed form.
pub proof fn lemma_string_reads_back(fm: FloatModel, text: Seq<char>)
    requires
        forall|j: int| 0 <= j < text.len() ==> text[j] != '"',
    ensures
        program_model(fm, text_model(fm, Datum::Str(text))) == Ok::<Seq<Datum>, ParseFault>(
            seq![Datum::Str(text)],
        ),
        sexpr_model(fm, text_model(fm, Datum::Str(text))) == Ok::<Datum, ParseFault>(
            Datum::Str(text),
        ),
{
    reveal_strlit("\"");
    let s = text_model(fm, Datum::Str(text));
    assert(s =~= seq!['"'] + text + seq!['"']);
    let close = (text.len() + 1) as nat;
    assert(s[close as int] == '"');
    assert forall|j: int| 1 <= j < close implies s[j] != '"' by {
        assert(s[j] == text[j - 1]);
    }
    lemma_quote_found(s, 1, close);
    assert(s.subrange(1, close as int) =~= text);
    assert(natural_at(s, 0) is None);
    assert(integer_at(s, 0) is None);
    assert(decimal_at(s, 0) is None);
    assert(atom_model(fm, s, 0) == Parsed::Value(Datum::Str(text), s.len()));
    lemma_one_atom(fm, s, Datum::Str(text));
}

/// A run of symbol characters to the end of the text ends there.
proof fn lemma_symbol_run(s: Seq<char>, pos: nat)
    requires
        pos <= s.len(),
        forall|j: int| pos <= j < s.len() ==> is_symbol_char(#[trigger] s[j]),
    ensures
        symbol_end(s, pos) == s.len(),
    decreases s.len() - pos,
{
    if pos < s.len() {
        assert(is_symbol_char(s[pos as int]));
        lemma_symbol_run(s, pos + 1);
    }
}

/// Whether a text is the name of a symbol that prints as it reads: a run
/// of symbol characters that begins as a symbol may, is none of `true`,
/// `false` and `nil`, does not begin like a keyword and does not begin
/// like a negative number.
pub open spec fn is_symbol_name(name: Seq<char>) -> bool {
    &&& name.len() > 0
    &&& is_symbol_start(name[0])
    &&& forall|j: int| 0 <= j < name.len() ==> is_symbol_char(#[trigger] name[j])
    &&& name != "true"@ && name != "false"@ && name != "nil"@
    &&& !(name[0] == ':' && name.len() > 1 && is_symbol_start(name[1]))
    &&& !(name[0] == '-' && name.len() > 1 && is_digit(name[1]))
}

/// A symbol with such a name reads back from its printed form.
pub proof fn lemma_symbol_reads_back(fm: FloatModel, name: Seq<char>)
    requires
        is_symbol_name(name),
    ensures
        program_model(fm, text_model(fm, Datum::Sym(name))) == Ok::<Seq<Datum>, ParseFault>(
            seq![Datum::Sym(name)],
        ),
        sexpr_model(fm, text_model(fm, Datum::Sym(name))) == Ok::<Datum, ParseFault>(
            Datum::Sym(name),
        ),
{
    let s = name;
    lemma_symbol_run(s, 0);
    assert(s.subrange(0, s.len() as int) =~= s);
    assert(natural_at(s, 0) is None);
    if s[0] == '-' {
        assert(natural_at(s, 1) is None);
    }
    assert(integer_at(s, 0) is None);
    assert(decimal_at(s, 0) is None);
    assert(word_model(s, 0, s.len()) == Datum::Sym(name));
    assert(atom_model(fm, s, 0) == Parsed::Value(Datum::Sym(name), s.len()));
    lemma_one_atom(fm, s, Datum::Sym(name));
}

/// A keyword whose name is a run of symbol characters that begins as a
/// symbol may reads back from its printed form.
pub proof fn lemma_keyword_reads_back(fm: FloatModel, name: Seq<char>)
    requires
        name.len() > 0,
        is_symbol_start(name[0]),
        forall|j: int| 0 <= j < name.len() ==> is_symbol_char(#[trigger] name[j]),
    ensures
        program_model(fm, text_model(fm, Datum::Keyword(name))) == Ok::<Seq<Datum>, ParseFault>(
            seq![Datum::Keyword(name)],
        ),
        sexpr_model(fm, text_model(fm, Datum::Keyword(name))) == Ok::<Datum, ParseFault>(
            Datum::Keyword(name),
        ),
{
    reveal_strlit(":");
    reveal_strlit("true");
    reveal_strlit("false");
    reveal_strlit("nil");
    let s = text_model(fm, Datum::Keyword(name));
    assert(s =~= seq![':'] + name);
    assert forall|j: int| 0 <= j < s.len() implies is_symbol_char(#[trigger] s[j]) by {
        if j > 0 {
            assert(s[j] == name[j - 1]);
        }
    }
    lemma_symbol_run(s, 0);
    assert(s.subrange(1, s.len() as int) =~= name);
    let word = s.subrange(0, s.len() as int);
    assert(word[0] == ':');
    assert(natural_at(s, 0) is None);
    assert(integer_at(s, 0) is None);
    assert(decimal_at(s, 0) is None);
    assert(word_model(s, 0, s.len()) == Datum::Keyword(name));
    assert(atom_model(fm, s, 0) == Parsed::Value(Datum::Keyword(name), s.len()));
    lemma_one_atom(fm, s, Datum::Keyword(name));
}

/// `nil`, `true` and `false` read back from their printed forms.
pub proof fn lemma_words_read_back(fm: FloatModel)
    ensures
        sexpr_model(fm, text_model(fm, Datum::Nil)) == Ok::<Datum, ParseFault>(Datum::Nil),
        sexpr_model(fm, text_model(fm, Datum::Bool(true))) == Ok::<Datum, ParseFault>(
            Datum::Bool(true),
        ),
        sexpr_model(fm, text_model(fm, Datum::Bool(false))) == Ok::<Datum, ParseFault>(
            Datum::Bool(false),
        ),
{
    reveal_strlit("true");
    reveal_strlit("false");
    reveal_strlit("nil");
    assert("nil"@.subrange(0, 3) =~= "nil"@);
    assert("true"@.subrange(0, 4) =~= "true"@);
    assert("false"@.subrange(0, 5) =~= "false"@);
    lemma_word(fm, "nil"@, Datum::Nil);
    lemma_word(fm, "true"@, Datum::Bool(true));
    lemma_word(fm, "false"@, Datum::Bool(false));
}

/// A text of letters that stands for the value `v` as a word reads as `v`.
proof fn lemma_word(fm: FloatModel, s: Seq<char>, v: Datum)
    requires
        s.len() > 0,
        is_symbol_start(s[0]),
        s[0] != '-',
        forall|j: int| 0 <= j < s.len() ==> is_symbol_char(#[trigger] s[j]),
        word_model(s, 0, s.len()) == v,
    ensures
        program_model(fm, s) == Ok::<Seq<Datum>, ParseFault>(seq![v]),
        sexpr_model(fm, s) == Ok::<Datum, ParseFault>(v),
{
    lemma_symbol_run(s, 0);
    assert(natural_at(s, 0) is None);
    assert(integer_at(s, 0) is None);
    assert(decimal_at(s, 0) is None);
    assert(atom_model(fm, s, 0) == Parsed::Value(v, s.len()));
    lemma_one_atom(fm, s, v);
}

} // verus!
