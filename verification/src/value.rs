//! The value model: every runtime value of the language, which is also the
//! reader's output, together with its mathematical model `Datum`.
use vstd::prelude::*;
use vstd::string::*;
use crate::error::{EvalError, Fault};
use crate::ratio::Ratio;

verus! {

/// The mathematical model of a value.
pub enum Datum {
    Nil,
    Bool(bool),
    Int(int),
    /// A floating-point number, given by its IEEE-754 binary64 bit pattern.
    Float(u64),
    /// An exact rational: numerator and denominator.
    Ratio(int, int),
    Str(Seq<char>),
    Sym(Seq<char>),
    Keyword(Seq<char>),
    /// A native function, identified by its name.
    Builtin(Seq<char>),
    /// A closure: parameter names, body and the handle of the scope that was
    /// innermost where the closure was made.
    Lambda { params: Seq<Seq<char>>, body: Box<Datum>, env: nat },
    List(Seq<Datum>),
    Vector(Seq<Datum>),
}

/// A runtime value.
#[derive(Debug)]
pub enum DialVal {
    Nil,
    Bool(bool),
    Int(i64),
    /// A floating-point number, held as its IEEE-754 binary64 bit pattern.
    Float(u64),
    Str(String),
    Sym(String),
    Keyword(String),
    Ratio(Ratio),
    /// A native function, identified by its name.
    Builtin { name: String },
    /// A closure over the scope `env` of the environment it was made in.
    Lambda { params: Vec<String>, body: Box<DialVal>, env: usize },
    List(Vec<DialVal>),
    Vec(Vec<DialVal>),
}

/// The character sequences of a sequence of strings.
pub open spec fn names_model(v: Seq<String>) -> Seq<Seq<char>> {
    Seq::new(v.len(), |i: int| v[i]@)
}

/// The models of a sequence of values.
pub open spec fn items_model(v: Seq<DialVal>) -> Seq<Datum> {
    Seq::new(v.len(), |i: int| v[i].model())
}

impl DialVal {
    /// The mathematical value that `self` stands for.
    pub open spec fn model(&self) -> Datum
        decreases self,
    {
        match self {
            DialVal::Nil => Datum::Nil,
            DialVal::Bool(b) => Datum::Bool(*b),
            DialVal::Int(i) => Datum::Int(*i as int),
            DialVal::Float(bits) => Datum::Float(*bits),
            DialVal::Str(s) => Datum::Str(s@),
            DialVal::Sym(s) => Datum::Sym(s@),
            DialVal::Keyword(s) => Datum::Keyword(s@),
            DialVal::Ratio(r) => Datum::Ratio(r.num as int, r.den as int),
            DialVal::Builtin { name } => Datum::Builtin(name@),
            DialVal::Lambda { params, body, env } => Datum::Lambda {
                params: names_model(params@),
                body: Box::new(body.model()),
                env: *env as nat,
            },
            DialVal::List(items) => Datum::List(
                Seq::new(
                    items@.len(),
                    |i: int|
                        if 0 <= i < items@.len() {
                            items@[i].model()
                        } else {
                            Datum::Nil
                        },
                ),
            ),
            DialVal::Vec(items) => Datum::Vector(
                Seq::new(
                    items@.len(),
                    |i: int|
                        if 0 <= i < items@.len() {
                            items@[i].model()
                        } else {
                            Datum::Nil
                        },
                ),
            ),
        }
    }
}

impl View for DialVal {
    type V = Datum;

    open spec fn view(&self) -> Datum {
        self.model()
    }
}

/// The model of a list value is the list of the models of its items.
pub proof fn lemma_list_model(items: Vec<DialVal>)
    ensures
        DialVal::List(items)@ == Datum::List(items_model(items@)),
        DialVal::Vec(items)@ == Datum::Vector(items_model(items@)),
{
    assert(DialVal::List(items).model()->List_0 =~= items_model(items@));
    assert(DialVal::Vec(items).model()->Vector_0 =~= items_model(items@));
}

/// Copies a vector of names.
pub fn clone_names(v: &Vec<String>) -> (r: Vec<String>)
    ensures
        names_model(r@) == names_model(v@),
{
    let mut out: Vec<String> = Vec::new();
    let mut i: usize = 0;
    while i < v.len()
        invariant
            i <= v.len(),
            out@.len() == i,
            forall|j: int| 0 <= j < i ==> out@[j]@ == v@[j]@,
        decreases v.len() - i,
    {
        out.push(v[i].clone());
        i += 1;
    }
    assert(names_model(out@) =~= names_model(v@));
    out
}

/// Copies a vector of values, item by item.
pub fn clone_items(v: &Vec<DialVal>) -> (r: Vec<DialVal>)
    ensures
        items_model(r@) == items_model(v@),
    decreases v,
{
    let mut out: Vec<DialVal> = Vec::new();
    let mut i: usize = 0;
    while i < v.len()
        invariant
            i <= v.len(),
            out@.len() == i,
            forall|j: int| 0 <= j < i ==> out@[j]@ == v@[j]@,
        decreases v.len() - i,
    {
        let item = &v[i];
        proof {
            vstd::std_specs::vec::axiom_vec_index_decreases(*v, i as int);
        }
        out.push(item.duplicate());
        i += 1;
    }
    assert(items_model(out@) =~= items_model(v@));
    out
}

impl DialVal {
    /// A copy of the value, equal to it in every part.
    pub fn duplicate(&self) -> (r: DialVal)
        ensures
            r@ == self@,
        decreases self,
    {
        match self {
            DialVal::Nil => DialVal::Nil,
            DialVal::Bool(b) => DialVal::Bool(*b),
            DialVal::Int(i) => DialVal::Int(*i),
            DialVal::Float(bits) => DialVal::Float(*bits),
            DialVal::Str(s) => DialVal::Str(s.clone()),
            DialVal::Sym(s) => DialVal::Sym(s.clone()),
            DialVal::Keyword(s) => DialVal::Keyword(s.clone()),
            DialVal::Ratio(r) => DialVal::Ratio(Ratio { num: r.num, den: r.den }),
            DialVal::Builtin { name } => DialVal::Builtin { name: name.clone() },
            DialVal::Lambda { params, body, env } => DialVal::Lambda {
                params: clone_names(params),
                body: Box::new(body.duplicate()),
                env: *env,
            },
            DialVal::List(items) => {
                let out = clone_items(items);
                proof {
                    lemma_list_model(out);
                    lemma_list_model(*items);
                }
                DialVal::List(out)
            },
            DialVal::Vec(items) => {
                let out = clone_items(items);
                proof {
                    lemma_list_model(out);
                    lemma_list_model(*items);
                }
                DialVal::Vec(out)
            },
        }
    }

    /// Whether the value is an integer or a floating-point number.
    pub fn is_number(&self) -> (r: bool)
        ensures
            r == (self@ is Int || self@ is Float),
    {
        match self {
            DialVal::Int(_) => true,
            DialVal::Float(_) => true,
            _ => false,
        }
    }

    /// Whether the value is a list.
    pub fn is_list(&self) -> (r: bool)
        ensures
            r == (self@ is List),
    {
        match self {
            DialVal::List(_) => true,
            _ => false,
        }
    }
}

/// Whether a value holds no closure, at any depth.
pub open spec fn closure_free(d: Datum) -> bool
    decreases d, 0nat,
{
    match d {
        Datum::Lambda { .. } => false,
        Datum::List(items) => all_closure_free(items, 0),
        Datum::Vector(items) => all_closure_free(items, 0),
        _ => true,
    }
}

/// Whether none of the items from `from` on holds a closure.
pub open spec fn all_closure_free(items: Seq<Datum>, from: nat) -> bool
    decreases items, items.len() - from,
{
    if from >= items.len() {
        true
    } else {
        closure_free(items[from as int]) && all_closure_free(items, from + 1)
    }
}

/// Equality of values: two values are equal when they are the same value
/// and hold no closure. So atoms are equal when they are alike, native
/// functions when their names are, lists and vectors when they have the
/// same length and equal items in each place; a closure equals nothing.
pub open spec fn equal_model(a: Datum, b: Datum) -> bool {
    a == b && closure_free(a)
}

/// Whether two vectors of values have the same length and equal items in
/// each place.
pub fn equal_items(a: &Vec<DialVal>, b: &Vec<DialVal>) -> (r: bool)
    ensures
        r == (items_model(a@) == items_model(b@) && all_closure_free(items_model(a@), 0)),
    decreases a,
{
    let ghost ma = items_model(a@);
    let ghost mb = items_model(b@);
    if a.len() != b.len() {
        assert(ma.len() != mb.len());
        return false;
    }
    let mut i: usize = 0;
    while i < a.len()
        invariant
            i <= a@.len(),
            a@.len() == b@.len(),
            ma == items_model(a@),
            mb == items_model(b@),
            forall|j: int| 0 <= j < i ==> ma[j] == mb[j],
            all_closure_free(ma, 0) == all_closure_free(ma, i as nat),
        decreases a@.len() - i,
    {
        let x = &a[i];
        proof {
            vstd::std_specs::vec::axiom_vec_index_decreases(*a, i as int);
        }
        assert(ma[i as int] == a@[i as int]@);
        assert(mb[i as int] == b@[i as int]@);
        if !x.equals(&b[i]) {
            return false;
        }
        i += 1;
    }
    assert(ma =~= mb);
    true
}

impl DialVal {
    /// Whether two values are equal.
    pub fn equals(&self, other: &DialVal) -> (r: bool)
        ensures
            r == equal_model(self@, other@),
        decreases self,
    {
        match self {
            DialVal::Nil => match other {
                DialVal::Nil => true,
                _ => false,
            },
            DialVal::Bool(x) => match other {
                DialVal::Bool(y) => *x == *y,
                _ => false,
            },
            DialVal::Int(x) => match other {
                DialVal::Int(y) => *x == *y,
                _ => false,
            },
            DialVal::Float(x) => match other {
                DialVal::Float(y) => *x == *y,
                _ => false,
            },
            DialVal::Ratio(x) => match other {
                DialVal::Ratio(y) => x.num == y.num && x.den == y.den,
                _ => false,
            },
            DialVal::Str(x) => match other {
                DialVal::Str(y) => *x == *y,
                _ => false,
            },
            DialVal::Sym(x) => match other {
                DialVal::Sym(y) => *x == *y,
                _ => false,
            },
            DialVal::Keyword(x) => match other {
                DialVal::Keyword(y) => *x == *y,
                _ => false,
            },
            DialVal::Builtin { name: x } => match other {
                DialVal::Builtin { name: y } => *x == *y,
                _ => false,
            },
            DialVal::Lambda { .. } => false,
            DialVal::List(x) => match other {
                DialVal::List(y) => {
                    proof {
                        lemma_list_model(*x);
                        lemma_list_model(*y);
                    }
                    equal_items(x, y)
                },
                _ => false,
            },
            DialVal::Vec(x) => match other {
                DialVal::Vec(y) => {
                    proof {
                        lemma_list_model(*x);
                        lemma_list_model(*y);
                    }
                    equal_items(x, y)
                },
                _ => false,
            },
        }
    }
}

/// The kind of a value.
#[derive(Debug, Clone, Copy)]
pub enum Kind {
    Nil,
    Bool,
    Int,
    Float,
    Str,
    Sym,
    Keyword,
    Ratio,
    Builtin,
    Lambda,
    List,
    Vector,
}

/// The kind of a value.
pub open spec fn kind_model(d: Datum) -> Kind {
    match d {
        Datum::Nil => Kind::Nil,
        Datum::Bool(_) => Kind::Bool,
        Datum::Int(_) => Kind::Int,
        Datum::Float(_) => Kind::Float,
        Datum::Str(_) => Kind::Str,
        Datum::Sym(_) => Kind::Sym,
        Datum::Keyword(_) => Kind::Keyword,
        Datum::Ratio(_, _) => Kind::Ratio,
        Datum::Builtin(_) => Kind::Builtin,
        Datum::Lambda { .. } => Kind::Lambda,
        Datum::List(_) => Kind::List,
        Datum::Vector(_) => Kind::Vector,
    }
}

/// The name of a kind.
pub open spec fn kind_name(k: Kind) -> Seq<char> {
    match k {
        Kind::Nil => "nil"@,
        Kind::Bool => "bool"@,
        Kind::Int => "int"@,
        Kind::Float => "float"@,
        Kind::Str => "string"@,
        Kind::Sym => "symbol"@,
        Kind::Keyword => "keyword"@,
        Kind::Ratio => "ratio"@,
        Kind::Builtin => "builtin"@,
        Kind::Lambda => "fn"@,
        Kind::List => "list"@,
        Kind::Vector => "vector"@,
    }
}

impl DialVal {
    /// The kind of the value.
    pub fn kind(&self) -> (r: Kind)
        ensures
            r == kind_model(self@),
    {
        match self {
            DialVal::Nil => Kind::Nil,
            DialVal::Bool(_) => Kind::Bool,
            DialVal::Int(_) => Kind::Int,
            DialVal::Float(_) => Kind::Float,
            DialVal::Str(_) => Kind::Str,
            DialVal::Sym(_) => Kind::Sym,
            DialVal::Keyword(_) => Kind::Keyword,
            DialVal::Ratio(_) => Kind::Ratio,
            DialVal::Builtin { .. } => Kind::Builtin,
            DialVal::Lambda { .. } => Kind::Lambda,
            DialVal::List(_) => Kind::List,
            DialVal::Vec(_) => Kind::Vector,
        }
    }

    /// The name of the value's kind.
    pub fn display_type(&self) -> (r: String)
        ensures
            r@ == kind_name(kind_model(self@)),
    {
        let name = match self {
            DialVal::Nil => "nil",
            DialVal::Bool(_) => "bool",
            DialVal::Int(_) => "int",
            DialVal::Float(_) => "float",
            DialVal::Str(_) => "string",
            DialVal::Sym(_) => "symbol",
            DialVal::Keyword(_) => "keyword",
            DialVal::Ratio(_) => "ratio",
            DialVal::Builtin { .. } => "builtin",
            DialVal::Lambda { .. } => "fn",
            DialVal::List(_) => "list",
            DialVal::Vec(_) => "vector",
        };
        String::from_str(name)
    }

    /// The integer that the value is; a type error for any other value.
    pub fn try_as_int(&self) -> (r: Result<i64, EvalError>)
        ensures
            match r {
                Ok(i) => self@ == Datum::Int(i as int),
                Err(e) => !(self@ is Int) && e@ == Fault::TypeError("int"@),
            },
    {
        match self {
            DialVal::Int(i) => Ok(*i),
            _ => Err(EvalError::TypeError(String::from_str("int"))),
        }
    }
}

impl DialVal {
    /// Whether the value is a vector.
    pub fn is_vector(&self) -> (r: bool)
        ensures
            r == (self@ is Vector),
    {
        match self {
            DialVal::Vec(_) => true,
            _ => false,
        }
    }

    /// Whether the value is an atom: neither a list nor a vector.
    pub fn is_atom(&self) -> (r: bool)
        ensures
            r == !(self@ is List || self@ is Vector),
    {
        match self {
            DialVal::List(_) => false,
            DialVal::Vec(_) => false,
            _ => true,
        }
    }

    /// Goes through the items of a list, or through the one value that is
    /// no list.
    pub fn into_iter(self) -> (r: DialValIter)
        ensures
            r@ == match self@ {
                Datum::List(items) => items,
                d => seq![d],
            },
    {
        match self {
            DialVal::List(items) => {
                proof {
                    lemma_list_model(items);
                }
                let mut rest: Vec<DialVal> = Vec::new();
                let mut i: usize = items.len();
                while i > 0
                    invariant
                        i <= items@.len(),
                        rest@.len() == items@.len() - i,
                        forall|j: int|
                            0 <= j < rest@.len() ==> rest@[j]@ == items@[items@.len() - 1 - j]@,
                    decreases i,
                {
                    i -= 1;
                    rest.push(items[i].duplicate());
                }
                let r = DialValIter { rest };
                assert(r@ =~= items_model(items@));
                r
            },
            other => {
                let ghost d = other@;
                let mut rest: Vec<DialVal> = Vec::new();
                rest.push(other);
                let r = DialValIter { rest };
                assert(r@ =~= seq![d]);
                r
            },
        }
    }
}

/// The items of a list that are still to come, in order.
#[derive(Debug)]
pub struct DialValIter {
    rest: Vec<DialVal>,
}

impl View for DialValIter {
    type V = Seq<Datum>;

    /// The items that are still to come, the next one first.
    closed spec fn view(&self) -> Seq<Datum> {
        Seq::new(self.rest@.len(), |i: int| self.rest@[self.rest@.len() - 1 - i]@)
    }
}

impl DialValIter {
    /// The next item, if one is left.
    pub fn next(&mut self) -> (r: Option<DialVal>)
        ensures
            match r {
                Some(v) => old(self)@.len() > 0 && v@ == old(self)@[0] && final(self)@ == old(
                    self,
                )@.skip(1),
                None => old(self)@.len() == 0 && final(self)@ == old(self)@,
            },
    {
        let r = self.rest.pop();
        proof {
            if r.is_some() {
                assert(self@ =~= old(self)@.skip(1));
            } else {
                assert(self@ =~= old(self)@);
            }
        }
        r
    }
}

} // verus!
