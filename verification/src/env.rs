//! The environment: an arena of scopes, each with a handle to its parent.
//!
//! A scope is an insertion-ordered table from names to values. The scope
//! with handle zero is the global one. A closure keeps the handle of the
//! scope that was innermost where it was made; that scope and all before
//! it are anchored and live as long as the environment, so every holder
//! of the handle sees what is written to the scope. A scope that is not
//! anchored is given up when the evaluation that made it has no more use
//! for it.
use vstd::prelude::*;
use vstd::string::*;
use crate::value::{items_model, names_model, Datum, DialVal};

verus! {

/// The mathematical model of a scope.
pub struct Frame {
    pub names: Seq<Seq<char>>,
    pub values: Seq<Datum>,
    pub parent: Option<nat>,
}

/// The mathematical model of an environment: its scopes by handle, the
/// handle of the innermost one, and the number of leading scopes that are
/// anchored: a scope in which a closure was made, and every scope before
/// it, is never given up.
pub struct Chain {
    pub frames: Seq<Frame>,
    pub current: nat,
    pub anchored: nat,
}

/// Whether `i` is the first place where `names` holds `name`.
pub open spec fn is_first(names: Seq<Seq<char>>, name: Seq<char>, i: int) -> bool {
    &&& 0 <= i < names.len()
    &&& names[i] == name
    &&& forall|j: int| 0 <= j < i ==> names[j] != name
}

/// The first place where `names` holds `name`.
pub open spec fn position_model(names: Seq<Seq<char>>, name: Seq<char>) -> Option<int> {
    if exists|i: int| is_first(names, name, i) {
        Some(choose|i: int| is_first(names, name, i))
    } else {
        None
    }
}

impl Frame {
    /// A frame is well formed when it has a value for each name.
    pub open spec fn wf(self) -> bool {
        self.names.len() == self.values.len()
    }

    /// The value that the frame binds to a name.
    pub open spec fn get(self, name: Seq<char>) -> Option<Datum> {
        match position_model(self.names, name) {
            Some(i) => Some(self.values[i]),
            None => None,
        }
    }

    /// The frame after binding a name: the value replaces the one bound
    /// before, or the binding is added at the end.
    pub open spec fn set(self, name: Seq<char>, value: Datum) -> Frame {
        match position_model(self.names, name) {
            Some(i) => Frame { values: self.values.update(i, value), ..self },
            None => Frame {
                names: self.names.push(name),
                values: self.values.push(value),
                ..self
            },
        }
    }

    /// The frame after binding names to values pairwise, in order, as far
    /// as both sequences go.
    pub open spec fn bind(self, names: Seq<Seq<char>>, values: Seq<Datum>) -> Frame
        decreases names.len(),
    {
        if names.len() == 0 || values.len() == 0 {
            self
        } else {
            self.set(names[0], values[0]).bind(names.skip(1), values.skip(1))
        }
    }
}

impl Chain {
    /// A chain is well formed when the innermost scope exists, the global
    /// scope is anchored, every frame is well formed, every scope but the
    /// global one has a parent, and every parent has a smaller handle than
    /// its child.
    pub open spec fn wf(self) -> bool {
        &&& self.frames.len() > 0
        &&& self.current < self.frames.len()
        &&& 0 < self.anchored <= self.frames.len()
        &&& forall|i: int|
            0 <= i < self.frames.len() ==> (#[trigger] self.frames[i]).wf() && (
            self.frames[i].parent matches Some(p) ==> p < i) && (i > 0
                ==> self.frames[i].parent is Some)
    }

    /// The value of a name as seen from the scope `at`: the binding of the
    /// nearest scope on the way to the root that has one.
    pub open spec fn lookup_from(self, at: nat, name: Seq<char>) -> Option<Datum>
        decreases at,
    {
        if at >= self.frames.len() {
            None
        } else {
            match self.frames[at as int].get(name) {
                Some(v) => Some(v),
                None => match self.frames[at as int].parent {
                    Some(p) => if p < at {
                        self.lookup_from(p, name)
                    } else {
                        None
                    },
                    None => None,
                },
            }
        }
    }

    /// The handle of the nearest scope, from `at` to the root, that binds
    /// a name.
    pub open spec fn find_from(self, at: nat, name: Seq<char>) -> Option<nat>
        decreases at,
    {
        if at >= self.frames.len() {
            None
        } else if self.frames[at as int].get(name) is Some {
            Some(at)
        } else {
            match self.frames[at as int].parent {
                Some(p) => if p < at {
                    self.find_from(p, name)
                } else {
                    None
                },
                None => None,
            }
        }
    }

    /// The value of a name as seen from the innermost scope.
    pub open spec fn lookup(self, name: Seq<char>) -> Option<Datum> {
        self.lookup_from(self.current, name)
    }

    /// The chain after binding a name in the scope `at`.
    pub open spec fn set_at(self, at: nat, name: Seq<char>, value: Datum) -> Chain {
        Chain { frames: self.frames.update(at as int, self.frames[at as int].set(name, value)), ..self }
    }

    /// The chain after binding a name in the global scope.
    pub open spec fn define_global(self, name: Seq<char>, value: Datum) -> Chain {
        self.set_at(0, name, value)
    }

    /// The chain after binding a name in the innermost scope.
    pub open spec fn define_local(self, name: Seq<char>, value: Datum) -> Chain {
        self.set_at(self.current, name, value)
    }

    /// The chain after binding names to values pairwise in the innermost
    /// scope.
    pub open spec fn bind(self, names: Seq<Seq<char>>, values: Seq<Datum>) -> Chain {
        Chain {
            frames: self.frames.update(
                self.current as int,
                self.frames[self.current as int].bind(names, values),
            ),
            ..self
        }
    }

    /// The chain after a new, empty scope under `parent` became the
    /// innermost one.
    pub open spec fn push(self, parent: nat) -> Chain {
        Chain {
            frames: self.frames.push(
                Frame { names: Seq::empty(), values: Seq::empty(), parent: Some(parent) },
            ),
            current: self.frames.len(),
            ..self
        }
    }

    /// The chain after a closure was made in the innermost scope: that
    /// scope and every scope before it are anchored.
    pub open spec fn anchor(self) -> Chain {
        Chain {
            anchored: if self.anchored > self.current {
                self.anchored
            } else {
                self.current + 1
            },
            ..self
        }
    }

    /// The number of leading scopes that stay when the scopes from `base`
    /// on are given up: those before `base` and the anchored ones.
    pub open spec fn kept(self, base: nat) -> nat {
        let wanted = if base > self.anchored {
            base
        } else {
            self.anchored
        };
        if wanted > self.frames.len() {
            self.frames.len()
        } else {
            wanted
        }
    }

    /// The chain after the scopes from `base` on that are not anchored
    /// were given up and the scope `handle` became the innermost one.
    pub open spec fn leave(self, base: nat, handle: nat) -> Chain {
        Chain { frames: self.frames.take(self.kept(base) as int), current: handle, ..self }
    }

    /// The chain with another scope as the innermost one.
    pub open spec fn enter(self, handle: nat) -> Chain {
        Chain { current: handle, ..self }
    }

    /// The chain after leaving `count` scopes towards the root; the root
    /// is never left.
    pub open spec fn pop(self, count: nat) -> Chain
        decreases count,
    {
        if count == 0 {
            self
        } else {
            match self.frames[self.current as int].parent {
                Some(p) => self.enter(p).pop((count - 1) as nat),
                None => self,
            }
        }
    }
}

/// The first place where a name occurs is unique.
pub proof fn lemma_first_unique(names: Seq<Seq<char>>, name: Seq<char>, i: int)
    requires
        is_first(names, name, i),
    ensures
        position_model(names, name) == Some(i),
{
    let c = choose|c: int| is_first(names, name, c);
    if c < i {
        assert(names[c] != name);
    } else if i < c {
        assert(names[i] != name);
    }
}

/// A name that occurs nowhere has no first place.
pub proof fn lemma_absent(names: Seq<Seq<char>>, name: Seq<char>)
    requires
        forall|j: int| 0 <= j < names.len() ==> names[j] != name,
    ensures
        position_model(names, name) is None,
{
}

/// Binding a name in a frame makes the name stand for the value and
/// leaves every other name as it was.
pub proof fn lemma_frame_set(f: Frame, name: Seq<char>, value: Datum, other: Seq<char>)
    requires
        f.wf(),
    ensures
        f.set(name, value).wf(),
        f.set(name, value).parent == f.parent,
        f.set(name, value).get(name) == Some(value),
        other != name ==> f.set(name, value).get(other) == f.get(other),
{
    let g = f.set(name, value);
    match position_model(f.names, name) {
        Some(i) => {
            assert(is_first(f.names, name, i));
            if other != name {
                match position_model(f.names, other) {
                    Some(j) => {
                        assert(is_first(f.names, other, j));
                    },
                    None => {},
                }
            }
        },
        None => {
            let n = f.names.len() as int;
            assert forall|j: int| 0 <= j < n implies f.names[j] != name by {
                if f.names[j] == name {
                    lemma_occurs(f.names, name, j);
                }
            }
            assert(is_first(g.names, name, n));
            lemma_first_unique(g.names, name, n);
            if other != name {
                match position_model(f.names, other) {
                    Some(j) => {
                        assert(is_first(f.names, other, j));
                        assert(is_first(g.names, other, j));
                        lemma_first_unique(g.names, other, j);
                    },
                    None => {
                        assert forall|j: int| 0 <= j < g.names.len() implies g.names[j] != other by {
                            if j < n && f.names[j] == other {
                                lemma_occurs(f.names, other, j);
                            }
                        }
                        lemma_absent(g.names, other);
                    },
                }
            }
        },
    }
}

/// A name that occurs somewhere has a first place.
pub proof fn lemma_occurs(names: Seq<Seq<char>>, name: Seq<char>, at: int)
    requires
        0 <= at < names.len(),
        names[at] == name,
    ensures
        position_model(names, name) is Some,
    decreases at,
{
    if forall|j: int| 0 <= j < at ==> names[j] != name {
        assert(is_first(names, name, at));
    } else {
        let j = choose|j: int| 0 <= j < at && names[j] == name;
        lemma_occurs(names, name, j);
    }
}

/// A name bound in the innermost scope stands for the value that was
/// bound to it.
pub proof fn lemma_define_local(chain: Chain, name: Seq<char>, value: Datum)
    requires
        chain.wf(),
    ensures
        chain.define_local(name, value).wf(),
        chain.define_local(name, value).lookup(name) == Some(value),
{
    lemma_frame_set(chain.frames[chain.current as int], name, value, name);
}

/// A name bound in the global scope stands for the value that was bound
/// to it wherever no nearer scope binds the name.
pub proof fn lemma_define_global(chain: Chain, name: Seq<char>, value: Datum)
    requires
        chain.wf(),
    ensures
        chain.define_global(name, value).wf(),
        chain.define_global(name, value).frames[0].get(name) == Some(value),
        chain.find_from(chain.current, name) is None || chain.find_from(chain.current, name) == Some(
            0nat,
        ) ==> chain.define_global(name, value).lookup(name) == Some(value),
{
    lemma_frame_set(chain.frames[0], name, value, name);
    lemma_global_seen(chain, chain.current, name, value);
}

/// From a scope with no binding of the name nearer than the global one,
/// the name stands for what the global scope is made to bind.
proof fn lemma_global_seen(chain: Chain, at: nat, name: Seq<char>, value: Datum)
    requires
        chain.wf(),
        at < chain.frames.len(),
    ensures
        chain.find_from(at, name) is None || chain.find_from(at, name) == Some(0nat)
            ==> chain.define_global(name, value).lookup_from(at, name) == Some(value),
    decreases at,
{
    lemma_frame_set(chain.frames[0], name, value, name);
    let after = chain.define_global(name, value);
    if at > 0 {
        assert(after.frames[at as int] == chain.frames[at as int]);
        let p = chain.frames[at as int].parent->Some_0;
        lemma_global_seen(chain, p, name, value);
    }
}

/// A scope: names and their values, in the order in which the names were
/// first bound, and the handle of the enclosing scope.
#[derive(Debug)]
pub struct Scope {
    names: Vec<String>,
    values: Vec<DialVal>,
    parent: Option<usize>,
}

impl View for Scope {
    type V = Frame;

    closed spec fn view(&self) -> Frame {
        Frame {
            names: names_model(self.names@),
            values: items_model(self.values@),
            parent: match self.parent {
                Some(p) => Some(p as nat),
                None => None,
            },
        }
    }
}

impl Scope {
    /// An empty scope under `parent`.
    pub fn new(parent: Option<usize>) -> (r: Scope)
        ensures
            r@.names == Seq::<Seq<char>>::empty(),
            r@.values == Seq::<Datum>::empty(),
            r@.parent == match parent {
                Some(p) => Some(p as nat),
                None => None,
            },
    {
        let r = Scope { names: Vec::new(), values: Vec::new(), parent };
        assert(r@.names =~= Seq::<Seq<char>>::empty());
        assert(r@.values =~= Seq::<Datum>::empty());
        r
    }

    /// The handle of the enclosing scope.
    pub fn parent(&self) -> (r: Option<usize>)
        ensures
            self@.parent == match r {
                Some(p) => Some(p as nat),
                None => None,
            },
    {
        self.parent
    }

    /// The first place where the scope holds a name.
    fn position(&self, sym: &String) -> (r: Option<usize>)
        ensures
            match r {
                Some(i) => position_model(self@.names, sym@) == Some(i as int) && i
                    < self.names@.len(),
                None => position_model(self@.names, sym@) is None,
            },
    {
        let mut i: usize = 0;
        while i < self.names.len()
            invariant
                i <= self.names@.len(),
                forall|j: int| 0 <= j < i ==> self@.names[j] != sym@,
            decreases self.names@.len() - i,
        {
            if self.names[i] == *sym {
                proof {
                    lemma_first_unique(self@.names, sym@, i as int);
                }
                return Some(i);
            }
            i += 1;
        }
        proof {
            lemma_absent(self@.names, sym@);
        }
        None
    }

    /// The value that the scope binds to a name.
    pub fn get_value(&self, sym: &String) -> (r: Option<DialVal>)
        requires
            self@.wf(),
        ensures
            match r {
                Some(v) => self@.get(sym@) == Some(v@),
                None => self@.get(sym@) is None,
            },
    {
        match self.position(sym) {
            Some(i) => Some(self.values[i].duplicate()),
            None => None,
        }
    }

    /// Binds a name in the scope.
    pub fn set_value(&mut self, sym: String, val: DialVal)
        requires
            old(self)@.wf(),
        ensures
            final(self)@ == old(self)@.set(sym@, val@),
            final(self)@.wf(),
    {
        match self.position(&sym) {
            Some(i) => {
                self.values.set(i, val);
                assert(self@.values =~= old(self)@.values.update(i as int, val@));
            },
            None => {
                self.names.push(sym);
                self.values.push(val);
                assert(self@.names =~= old(self)@.names.push(sym@));
                assert(self@.values =~= old(self)@.values.push(val@));
            },
        }
    }
}

/// The names of the native functions that a new environment binds.
pub open spec fn builtin_names() -> Seq<Seq<char>> {
    seq!["+"@, "-"@, "*"@, "/"@, "list"@, "list?"@, "empty?"@, "count"@, "="@]
}

/// The global frame of a new environment: each native function bound to
/// its name.
pub open spec fn global_frame() -> Frame {
    Frame {
        names: builtin_names(),
        values: Seq::new(builtin_names().len(), |i: int| Datum::Builtin(builtin_names()[i])),
        parent: None,
    }
}

/// The environment: every scope made so far, and the innermost one.
#[derive(Debug)]
pub struct Env {
    stack: Vec<Scope>,
    current: usize,
    anchored: usize,
}

impl View for Env {
    type V = Chain;

    closed spec fn view(&self) -> Chain {
        Chain {
            frames: Seq::new(self.stack@.len(), |i: int| self.stack@[i]@),
            current: self.current as nat,
            anchored: self.anchored as nat,
        }
    }
}

impl Default for Env {
    /// An environment of one scope, the global one, which binds the native
    /// functions.
    fn default() -> (r: Env)
        ensures
            r@ == (Chain { frames: seq![global_frame()], current: 0, anchored: 1 }),
            r@.wf(),
    {
        let mut root = Scope::new(None);
        root.define_builtin("+");
        root.define_builtin("-");
        root.define_builtin("*");
        root.define_builtin("/");
        root.define_builtin("list");
        root.define_builtin("list?");
        root.define_builtin("empty?");
        root.define_builtin("count");
        root.define_builtin("=");
        assert(root@.names =~= builtin_names());
        assert(root@.values =~= global_frame().values);
        let mut stack: Vec<Scope> = Vec::new();
        stack.push(root);
        let r = Env { stack, current: 0, anchored: 1 };
        assert(r@.frames =~= seq![global_frame()]);
        r
    }
}

impl Scope {
    /// Adds a native function under its name at the end of the scope.
    fn define_builtin(&mut self, name: &str)
        ensures
            final(self)@.names == old(self)@.names.push(name@),
            final(self)@.values == old(self)@.values.push(Datum::Builtin(name@)),
            final(self)@.parent == old(self)@.parent,
    {
        self.names.push(String::from_str(name));
        self.values.push(DialVal::Builtin { name: String::from_str(name) });
        assert(self@.names =~= old(self)@.names.push(name@));
        assert(self@.values =~= old(self)@.values.push(Datum::Builtin(name@)));
    }
}

impl Env {
    /// The handle of the innermost scope.
    pub fn current(&self) -> (r: usize)
        ensures
            r == self@.current,
    {
        self.current
    }

    /// The number of scopes.
    pub fn scope_count(&self) -> (r: usize)
        ensures
            r == self@.frames.len(),
    {
        self.stack.len()
    }

    /// The value of a name: the binding of the nearest scope that has one,
    /// from the innermost scope to the global one.
    pub fn get_value(&self, sym: &String) -> (r: Option<DialVal>)
        requires
            self@.wf(),
        ensures
            match r {
                Some(v) => self@.lookup(sym@) == Some(v@),
                None => self@.lookup(sym@) is None,
            },
    {
        let mut at: usize = self.current;
        loop
            invariant
                self@.wf(),
                at < self.stack@.len(),
                self@.lookup(sym@) == self@.lookup_from(at as nat, sym@),
            decreases at,
        {
            let scope = &self.stack[at];
            assert(scope@ == self@.frames[at as int]);
            match scope.get_value(sym) {
                Some(v) => {
                    return Some(v);
                },
                None => match scope.parent() {
                    Some(p) => {
                        at = p;
                    },
                    None => {
                        return None;
                    },
                },
            }
        }
    }

    /// Binds a name in the innermost scope.
    pub fn set_value(&mut self, sym: String, val: DialVal)
        requires
            old(self)@.wf(),
        ensures
            final(self)@ == old(self)@.define_local(sym@, val@),
            final(self)@.wf(),
    {
        let at = self.current;
        self.set_at(at, sym, val);
    }

    /// Binds a name in the global scope, whatever the innermost scope is.
    pub fn def_value(&mut self, sym: String, val: DialVal)
        requires
            old(self)@.wf(),
        ensures
            final(self)@ == old(self)@.define_global(sym@, val@),
            final(self)@.wf(),
    {
        self.set_at(0, sym, val);
    }

    /// Binds a name in the scope `at`.
    fn set_at(&mut self, at: usize, sym: String, val: DialVal)
        requires
            old(self)@.wf(),
            at < old(self)@.frames.len(),
        ensures
            final(self)@ == old(self)@.set_at(at as nat, sym@, val@),
            final(self)@.wf(),
    {
        assert(self.stack@[at as int]@ == self@.frames[at as int]);
        self.stack[at].set_value(sym, val);
        assert(self@.frames =~= old(self)@.frames.update(
            at as int,
            old(self)@.frames[at as int].set(sym@, val@),
        ));
    }

    /// Makes a new, empty scope under the innermost one and enters it.
    pub fn new_scope(&mut self)
        requires
            old(self)@.wf(),
        ensures
            final(self)@ == old(self)@.push(old(self)@.current),
            final(self)@.wf(),
    {
        let parent = self.current;
        self.scope_under(parent);
    }

    /// Makes a new, empty scope under the scope `parent` and enters it.
    pub fn scope_under(&mut self, parent: usize)
        requires
            old(self)@.wf(),
            parent < old(self)@.frames.len(),
        ensures
            final(self)@ == old(self)@.push(parent as nat),
            final(self)@.wf(),
    {
        let handle = self.stack.len();
        let scope = Scope::new(Some(parent));
        assert(scope@.wf());
        self.stack.push(scope);
        self.current = handle;
        assert(self@.frames =~= old(self)@.push(parent as nat).frames);
    }

    /// Anchors the innermost scope and every scope before it, as the
    /// making of a closure in it does.
    pub fn anchor(&mut self)
        requires
            old(self)@.wf(),
        ensures
            final(self)@ == old(self)@.anchor(),
            final(self)@.wf(),
    {
        let n = self.stack.len();
        if self.anchored <= self.current {
            self.anchored = self.current + 1;
        }
        assert(self@.frames =~= old(self)@.frames);
    }

    /// The number of leading scopes that stay when the scopes from `base`
    /// on are given up.
    pub fn kept(&self, base: usize) -> (r: usize)
        requires
            self@.wf(),
        ensures
            r == self@.kept(base as nat),
            r <= self@.frames.len(),
            r >= self@.anchored,
    {
        let wanted = if base > self.anchored {
            base
        } else {
            self.anchored
        };
        if wanted > self.stack.len() {
            self.stack.len()
        } else {
            wanted
        }
    }

    /// Gives up the scopes from `base` on that are not anchored and makes
    /// the scope `handle`, one that stays, the innermost one.
    pub fn leave(&mut self, base: usize, handle: usize)
        requires
            old(self)@.wf(),
            handle < old(self)@.kept(base as nat),
        ensures
            final(self)@ == old(self)@.leave(base as nat, handle as nat),
            final(self)@.wf(),
    {
        let kept = self.kept(base);
        self.stack.truncate(kept);
        self.current = handle;
        assert(self@.frames =~= old(self)@.frames.take(kept as int));
    }

    /// Makes the scope `handle` the innermost one.
    pub fn enter(&mut self, handle: usize)
        requires
            old(self)@.wf(),
            handle < old(self)@.frames.len(),
        ensures
            final(self)@ == old(self)@.enter(handle as nat),
            final(self)@.wf(),
    {
        self.current = handle;
        assert(self@.frames =~= old(self)@.frames);
    }

    /// Binds names to values pairwise, in order, in the innermost scope.
    pub fn bind(&mut self, symbols: Vec<String>, vals: Vec<DialVal>)
        requires
            old(self)@.wf(),
        ensures
            final(self)@ == old(self)@.bind(names_model(symbols@), items_model(vals@)),
            final(self)@.wf(),
    {
        let ghost names = names_model(symbols@);
        let ghost values = items_model(vals@);
        let at = self.current;
        let mut i: usize = 0;
        assert(names.skip(0) =~= names);
        assert(values.skip(0) =~= values);
        while i < symbols.len() && i < vals.len()
            invariant
                self@.wf(),
                self@.current == old(self)@.current,
                self@.anchored == old(self)@.anchored,
                at == self@.current,
                i <= symbols@.len(),
                i <= vals@.len(),
                names == names_model(symbols@),
                values == items_model(vals@),
                self@.frames.len() == old(self)@.frames.len(),
                forall|j: int|
                    0 <= j < self@.frames.len() && j != at ==> self@.frames[j] == old(
                        self,
                    )@.frames[j],
                self@.frames[at as int].bind(names.skip(i as int), values.skip(i as int)) == old(
                    self,
                )@.frames[at as int].bind(names, values),
            decreases symbols@.len() - i,
        {
            let ghost before = self@.frames[at as int];
            assert(names.skip(i as int)[0] == symbols@[i as int]@);
            assert(values.skip(i as int)[0] == vals@[i as int]@);
            assert(names.skip(i as int).skip(1) =~= names.skip(i + 1));
            assert(values.skip(i as int).skip(1) =~= values.skip(i + 1));
            self.set_at(at, symbols[i].clone(), vals[i].duplicate());
            i += 1;
        }
        assert(self@.frames =~= old(self)@.bind(names, values).frames);
    }

    /// Leaves `count` scopes towards the global one, which is never left.
    pub fn drop_scopes(&mut self, count: usize)
        requires
            old(self)@.wf(),
        ensures
            final(self)@ == old(self)@.pop(count as nat),
            final(self)@.wf(),
    {
        let mut left: usize = count;
        while left > 0
            invariant
                self@.wf(),
                self@.pop(left as nat) == old(self)@.pop(count as nat),
            decreases left,
        {
            assert(self.stack@[self.current as int]@ == self@.frames[self@.current as int]);
            match self.stack[self.current].parent() {
                Some(p) => {
                    let ghost before = self@;
                    self.current = p;
                    assert(self@.frames =~= before.frames);
                    assert(self@ == before.enter(p as nat));
                    left -= 1;
                },
                None => {
                    left = 0;
                },
            }
        }
    }

    /// An environment of one scope, the global one, which binds nothing.
    pub fn new() -> (r: Env)
        ensures
            r@ == (Chain {
                frames: seq![
                    Frame { names: Seq::empty(), values: Seq::empty(), parent: None },
                ],
                current: 0,
                anchored: 1,
            }),
            r@.wf(),
    {
        let root = Scope::new(None);
        let mut stack: Vec<Scope> = Vec::new();
        stack.push(root);
        let r = Env { stack, current: 0, anchored: 1 };
        assert(r@.frames =~= seq![
            Frame { names: Seq::<Seq<char>>::empty(), values: Seq::<Datum>::empty(), parent: None },
        ]);
        r
    }

    /// The environment `outer` with a new, empty scope under its innermost
    /// one as the innermost.
    pub fn from_outer(outer: Env) -> (r: Env)
        requires
            outer@.wf(),
        ensures
            r@ == outer@.push(outer@.current),
            r@.wf(),
    {
        let mut env = outer;
        env.new_scope();
        env
    }

    /// Binds a name in the innermost scope.
    pub fn set(&mut self, symbol: &String, val: DialVal)
        requires
            old(self)@.wf(),
        ensures
            final(self)@ == old(self)@.define_local(symbol@, val@),
            final(self)@.wf(),
    {
        self.set_value(symbol.clone(), val);
    }

    /// The value of a name, from the innermost scope to the global one.
    pub fn get(&self, symbol: &String) -> (r: Option<DialVal>)
        requires
            self@.wf(),
        ensures
            match r {
                Some(v) => self@.lookup(symbol@) == Some(v@),
                None => self@.lookup(symbol@) is None,
            },
    {
        self.get_value(symbol)
    }

    /// The handle of the nearest scope, from the innermost to the global
    /// one, that binds a name.
    pub fn find(&self, symbol: &String) -> (r: Option<usize>)
        requires
            self@.wf(),
        ensures
            match r {
                Some(h) => self@.find_from(self@.current, symbol@) == Some(h as nat),
                None => self@.find_from(self@.current, symbol@) is None,
            },
    {
        let mut at: usize = self.current;
        loop
            invariant
                self@.wf(),
                at < self.stack@.len(),
                self@.find_from(self@.current, symbol@) == self@.find_from(at as nat, symbol@),
            decreases at,
        {
            let scope = &self.stack[at];
            assert(scope@ == self@.frames[at as int]);
            if scope.get_value(symbol).is_some() {
                return Some(at);
            }
            match scope.parent() {
                Some(p) => {
                    at = p;
                },
                None => {
                    return None;
                },
            }
        }
    }

    /// Whether the innermost scope itself binds a name.
    pub fn contains_symbol(&self, symbol: &String) -> (r: bool)
        requires
            self@.wf(),
        ensures
            r == self@.frames[self@.current as int].get(symbol@).is_some(),
    {
        assert(self.stack@[self.current as int]@ == self@.frames[self@.current as int]);
        self.stack[self.current].get_value(symbol).is_some()
    }
}

} // verus!
