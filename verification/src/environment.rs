//! The environment: a chain of scopes, each of which maps the names
//! declared in it to their current values. The innermost scope comes
//! first; the global scope has no enclosing scope.

use vstd::prelude::*;

use crate::token::Token;
use crate::value::Value;
use crate::value::ValueView;

verus! {

/// A scope, with the scopes that enclose it. A scope holds each of its
/// names once, in the order of their declaration.
#[derive(Debug)]
pub struct Environment {
    pub values: Vec<(String, Value)>,
    pub enclosing: Option<Box<Environment>>,
}

/// The mathematical model of an [`Environment`].
pub struct EnvironmentView {
    pub values: Map<Seq<char>, ValueView>,
    pub enclosing: Option<Box<EnvironmentView>>,
}

/// The message for a name that no scope of the chain holds.
pub open spec fn undefined(name: Seq<char>) -> Seq<char> {
    "Undefined variable "@ + name + "."@
}

impl EnvironmentView {
    /// The global scope before anything is declared.
    pub open spec fn global() -> EnvironmentView {
        EnvironmentView { values: Map::empty(), enclosing: None }
    }

    /// A fresh scope inside this one.
    pub open spec fn child(self) -> EnvironmentView {
        EnvironmentView { values: Map::empty(), enclosing: Some(Box::new(self)) }
    }

    /// The scope that encloses this one; the global scope encloses itself.
    pub open spec fn leave(self) -> EnvironmentView {
        match self.enclosing {
            Some(e) => *e,
            None => self,
        }
    }

    /// The global scope of the chain.
    pub open spec fn root(self) -> EnvironmentView
        decreases self,
    {
        match self.enclosing {
            Some(e) => e.root(),
            None => self,
        }
    }

    /// The number of scopes around this one.
    pub open spec fn depth(self) -> nat
        decreases self,
    {
        match self.enclosing {
            Some(e) => e.depth() + 1,
            None => 0,
        }
    }

    /// Whether the two chains have as many scopes, and each scope of the
    /// one holds the names that the scope of the other holds.
    pub open spec fn same_names(self, other: EnvironmentView) -> bool
        decreases self,
    {
        &&& self.values.dom() =~= other.values.dom()
        &&& match (self.enclosing, other.enclosing) {
            (Some(a), Some(b)) => a.same_names(*b),
            (None, None) => true,
            _ => false,
        }
    }

    /// Whether this chain comes from `before` by declarations in the
    /// current scope and by assignments: the current scope holds at least
    /// the names that it held before, and the scopes around it hold the
    /// same names as before.
    pub open spec fn extends(self, before: EnvironmentView) -> bool {
        &&& before.values.dom().subset_of(self.values.dom())
        &&& match (self.enclosing, before.enclosing) {
            (Some(a), Some(b)) => a.same_names(*b),
            (None, None) => true,
            _ => false,
        }
    }

    /// The value of `name`: that of the innermost scope which holds the
    /// name.
    pub open spec fn get(self, name: Seq<char>) -> Option<ValueView>
        decreases self,
    {
        if self.values.contains_key(name) {
            Some(self.values[name])
        } else {
            match self.enclosing {
                Some(e) => e.get(name),
                None => None,
            }
        }
    }

    /// Declares `name` in this scope with the value `value`, whether or
    /// not the scope held the name before.
    pub open spec fn define(self, name: Seq<char>, value: ValueView) -> EnvironmentView {
        EnvironmentView { values: self.values.insert(name, value), enclosing: self.enclosing }
    }

    /// Gives `name` the value `value` in the innermost scope which holds
    /// the name; nothing, where no scope holds it.
    pub open spec fn assign(self, name: Seq<char>, value: ValueView) -> Option<EnvironmentView>
        decreases self,
    {
        if self.values.contains_key(name) {
            Some(self.define(name, value))
        } else {
            match self.enclosing {
                Some(e) => match e.assign(name, value) {
                    Some(outer) => Some(
                        EnvironmentView { values: self.values, enclosing: Some(Box::new(outer)) },
                    ),
                    None => None,
                },
                None => None,
            }
        }
    }
}

/// Whether no two of the entries have the same name.
pub open spec fn distinct_names(entries: Seq<(String, Value)>) -> bool {
    forall|i: int, j: int|
        0 <= i < j < entries.len() ==> (#[trigger] entries[i]).0@ != (#[trigger] entries[j]).0@
}

/// The map that the entries of a scope stand for.
pub open spec fn scope_map(entries: Seq<(String, Value)>) -> Map<Seq<char>, ValueView> {
    Map::new(
        |name: Seq<char>| exists|i: int| 0 <= i < entries.len() && (#[trigger] entries[i]).0@ == name,
        |name: Seq<char>|
            entries[choose|i: int| 0 <= i < entries.len() && (#[trigger] entries[i]).0@ == name].1@,
    )
}

/// With distinct names, the entry at `i` gives the value of its name.
pub proof fn scope_map_at(entries: Seq<(String, Value)>, i: int)
    requires
        distinct_names(entries),
        0 <= i < entries.len(),
    ensures
        scope_map(entries).contains_key(entries[i].0@),
        scope_map(entries)[entries[i].0@] == entries[i].1@,
{
    let name = entries[i].0@;
    let j = choose|j: int| 0 <= j < entries.len() && (#[trigger] entries[j]).0@ == name;
    if j < i {
        assert(entries[j].0@ != entries[i].0@);
    } else if i < j {
        assert(entries[i].0@ != entries[j].0@);
    }
}

impl Environment {
    /// The model of this environment.
    pub open spec fn model(&self) -> EnvironmentView
        decreases self,
    {
        EnvironmentView {
            values: scope_map(self.values@),
            enclosing: match self.enclosing {
                Some(e) => Some(Box::new(e.model())),
                None => None,
            },
        }
    }

    /// No scope of the chain holds a name twice.
    pub open spec fn well_formed(&self) -> bool
        decreases self,
    {
        &&& distinct_names(self.values@)
        &&& match self.enclosing {
            Some(e) => e.well_formed(),
            None => true,
        }
    }
}

impl View for Environment {
    type V = EnvironmentView;

    open spec fn view(&self) -> EnvironmentView {
        self.model()
    }
}

impl Default for Environment {
    /// The global scope before anything is declared.
    fn default() -> (r: Self)
        ensures
            r.well_formed(),
            r@ == EnvironmentView::global(),
    {
        let r = Environment { values: Vec::new(), enclosing: None };
        assert(r@.values =~= Map::empty());
        r
    }
}

impl Environment {
    /// A fresh scope inside `enclosing`.
    pub fn build_environment(enclosing: Box<Self>) -> (r: Self)
        ensures
            r@ == enclosing@.child(),
            enclosing.well_formed() ==> r.well_formed(),
    {
        let r = Self { values: Vec::new(), enclosing: Some(enclosing) };
        assert(r@.values =~= Map::empty());
        r
    }

    /// Where this scope holds `name`, if it does.
    fn position(&self, name: &String) -> (r: Option<usize>)
        requires
            distinct_names(self.values@),
        ensures
            match r {
                Some(i) => i < self.values.len() && self.values@[i as int].0@ == name@,
                None => !scope_map(self.values@).contains_key(name@),
            },
            r is Some == self@.values.contains_key(name@),
            r matches Some(i) ==> self@.values[name@] == self.values@[i as int].1@,
    {
        let mut i: usize = 0;
        while i < self.values.len()
            invariant
                i <= self.values.len(),
                distinct_names(self.values@),
                forall|j: int| 0 <= j < i ==> (#[trigger] self.values@[j]).0@ != name@,
            decreases self.values.len() - i,
        {
            if self.values[i].0 == *name {
                proof {
                    scope_map_at(self.values@, i as int);
                }
                return Some(i);
            }
            i = i + 1;
        }
        None
    }

    /// The value of `name`, or the message that the name is undefined.
    pub fn get(&self, name: Token) -> (r: Result<Value, String>)
        requires
            self.well_formed(),
        ensures
            match self@.get(name@.lexeme) {
                Some(v) => r matches Ok(found) && found@ == v,
                None => r matches Err(message) && message@ == undefined(name@.lexeme),
            },
        decreases self,
    {
        match self.position(&name.lexeme) {
            Some(i) => Ok(self.values[i].1.clone()),
            None => match &self.enclosing {
                Some(e) => e.get(name),
                None => Err(
                    crate::text::join3("Undefined variable ", name.lexeme.as_str(), "."),
                ),
            },
        }
    }

    /// Declares `name` in this scope with the value `value`.
    pub fn define(&mut self, name: String, value: Value)
        requires
            old(self).well_formed(),
        ensures
            final(self).well_formed(),
            final(self)@ == old(self)@.define(name@, value@),
    {
        match self.position(&name) {
            Some(i) => {
                let ghost before = self.values@;
                self.values[i] = (name, value);
                proof {
                    let after = self.values@;
                    assert(distinct_names(after)) by {
                        assert forall|a: int, b: int| 0 <= a < b < after.len() implies (
                        #[trigger] after[a]).0@ != (#[trigger] after[b]).0@ by {
                            assert(before[a].0@ != before[b].0@);
                        }
                    }
                    scope_map_at(after, i as int);
                    assert forall|k: Seq<char>|
                        scope_map(after).contains_key(k) == scope_map(before).insert(
                            name@,
                            value@,
                        ).contains_key(k) by {
                        if scope_map(after).contains_key(k) {
                            let j = choose|j: int|
                                0 <= j < after.len() && (#[trigger] after[j]).0@ == k;
                            assert(before[j].0@ == k);
                        }
                        if scope_map(before).contains_key(k) {
                            let j = choose|j: int|
                                0 <= j < before.len() && (#[trigger] before[j]).0@ == k;
                            assert(after[j].0@ == k);
                        }
                    }
                    assert forall|k: Seq<char>| scope_map(after).contains_key(k) implies scope_map(
                        after,
                    )[k] == scope_map(before).insert(name@, value@)[k] by {
                        let j = choose|j: int|
                            0 <= j < after.len() && (#[trigger] after[j]).0@ == k;
                        scope_map_at(after, j);
                        if k != name@ {
                            scope_map_at(before, j);
                        }
                    }
                    assert(scope_map(after) =~= scope_map(before).insert(name@, value@));
                }
            },
            None => {
                let ghost before = self.values@;
                self.values.push((name, value));
                proof {
                    let after = self.values@;
                    let last = before.len() as int;
                    assert(distinct_names(after)) by {
                        assert forall|a: int, b: int| 0 <= a < b < after.len() implies (
                        #[trigger] after[a]).0@ != (#[trigger] after[b]).0@ by {
                            if b == last {
                                assert(before[a].0@ != name@);
                            } else {
                                assert(before[a].0@ != before[b].0@);
                            }
                        }
                    }
                    assert forall|k: Seq<char>|
                        scope_map(after).contains_key(k) == scope_map(before).insert(
                            name@,
                            value@,
                        ).contains_key(k) by {
                        if scope_map(after).contains_key(k) {
                            let j = choose|j: int|
                                0 <= j < after.len() && (#[trigger] after[j]).0@ == k;
                            if j < last {
                                assert(before[j].0@ == k);
                            }
                        }
                        if scope_map(before).contains_key(k) {
                            let j = choose|j: int|
                                0 <= j < before.len() && (#[trigger] before[j]).0@ == k;
                            assert(after[j].0@ == k);
                        }
                        if k == name@ {
                            assert(after[last].0@ == k);
                        }
                    }
                    assert forall|k: Seq<char>| scope_map(after).contains_key(k) implies scope_map(
                        after,
                    )[k] == scope_map(before).insert(name@, value@)[k] by {
                        let j = choose|j: int|
                            0 <= j < after.len() && (#[trigger] after[j]).0@ == k;
                        scope_map_at(after, j);
                        if j < last {
                            scope_map_at(before, j);
                        }
                    }
                    assert(scope_map(after) =~= scope_map(before).insert(name@, value@));
                }
            },
        }
    }

    /// Gives `name` the value `value` in the innermost scope which holds
    /// the name. Where no scope holds it, nothing changes and the result
    /// is the message that the name is undefined.
    pub fn assign(&mut self, name: Token, value: Value) -> (r: Result<(), String>)
        requires
            old(self).well_formed(),
        ensures
            final(self).well_formed(),
            match old(self)@.assign(name@.lexeme, value@) {
                Some(after) => r is Ok && final(self)@ == after,
                None => final(self)@ == old(self)@ && (r matches Err(message) && message@
                    == undefined(name@.lexeme)),
            },
        decreases *old(self),
    {
        if self.position(&name.lexeme).is_some() {
            self.define(name.lexeme, value);
            return Ok(());
        }
        match &mut self.enclosing {
            Some(e) => e.assign(name, value),
            None => Err(crate::text::join3("Undefined variable ", name.lexeme.as_str(), ".")),
        }
    }

    /// The scope that encloses this one; the global scope is returned as
    /// it is.
    pub fn leave(self) -> (r: Self)
        ensures
            r@ == self@.leave(),
            self.well_formed() ==> r.well_formed(),
    {
        match self.enclosing {
            Some(e) => *e,
            None => self,
        }
    }

    /// The global scope of the chain.
    pub fn unwind(self) -> (r: Self)
        ensures
            r@ == self@.root(),
            r@.enclosing is None,
            self.well_formed() ==> r.well_formed(),
        decreases self,
    {
        match self.enclosing {
            Some(e) => (*e).unwind(),
            None => self,
        }
    }
}

/// A name reads as the value that was last declared for it or assigned to
/// it: after `define`, and after an `assign` that found the name, `get`
/// gives the value written. Every other name reads as before.
pub proof fn write_then_read(env: EnvironmentView, name: Seq<char>, value: ValueView)
    ensures
        env.define(name, value).get(name) == Some(value),
        env.assign(name, value) is Some <==> env.get(name) is Some,
        env.assign(name, value) matches Some(after) ==> after.get(name) == Some(value),
        forall|other: Seq<char>|
            other != name ==> #[trigger] env.define(name, value).get(other) == env.get(other),
        forall|other: Seq<char>|
            other != name && env.assign(name, value) is Some ==> env.assign(name, value)->0.get(
                other,
            ) == #[trigger] env.get(other),
    decreases env,
{
    if !env.values.contains_key(name) {
        match env.enclosing {
            Some(e) => {
                write_then_read(*e, name, value);
            },
            None => {},
        }
    }
    assert forall|other: Seq<char>|
        other != name && env.assign(name, value) is Some implies env.assign(name, value)->0.get(
        other,
    ) == #[trigger] env.get(other) by {
        let after = env.assign(name, value)->0;
        if env.values.contains_key(name) {
            assert(after.values.contains_key(other) == env.values.contains_key(other));
        } else {
            let e = env.enclosing->0;
            let outer = e.assign(name, value)->0;
            assert(after.enclosing == Some(Box::new(outer)));
            assert(outer.get(other) == e.get(other));
        }
    }
}

/// Block entry and exit are balanced: what is declared in a scope is gone
/// when the scope is left. After any number of declarations in a fresh
/// scope, leaving it gives the enclosing environment back, so that a name
/// declared inside reads outside as it did before.
pub proof fn declarations_do_not_leak(env: EnvironmentView, name: Seq<char>, value: ValueView)
    ensures
        env.child().leave() == env,
        env.child().define(name, value).leave() == env,
        env.child().define(name, value).leave().get(name) == env.get(name),
        env.child().define(name, value).get(name) == Some(value),
{
}

/// The root of a chain is a global scope, and it is the chain itself where
/// the chain is one scope.
pub proof fn root_is_global(env: EnvironmentView)
    ensures
        env.root().enclosing is None,
        env.enclosing is None ==> env.root() == env,
        env.child().root() == env.root(),
    decreases env,
{
    match env.enclosing {
        Some(e) => {
            root_is_global(*e);
        },
        None => {},
    }
}

/// An assignment keeps the shape of the chain: it adds no scope and
/// removes none, and it declares no name.
pub proof fn assign_keeps_the_chain(env: EnvironmentView, name: Seq<char>, value: ValueView)
    ensures
        env.assign(name, value) matches Some(after) ==> {
            &&& after.depth() == env.depth()
            &&& after.values.dom() =~= env.values.dom()
        },
    decreases env,
{
    if !env.values.contains_key(name) {
        match env.enclosing {
            Some(e) => {
                assign_keeps_the_chain(*e, name, value);
            },
            None => {},
        }
    }
}

/// Holding the same names is reflexive, symmetric and transitive.
pub proof fn same_names_is_an_equivalence(
    a: EnvironmentView,
    b: EnvironmentView,
    c: EnvironmentView,
)
    ensures
        a.same_names(a),
        a.same_names(b) ==> b.same_names(a),
        a.same_names(b) && b.same_names(c) ==> a.same_names(c),
    decreases a,
{
    match a.enclosing {
        Some(x) => {
            same_names_is_an_equivalence(*x, *x, *x);
            match b.enclosing {
                Some(y) => {
                    match c.enclosing {
                        Some(z) => {
                            same_names_is_an_equivalence(*x, *y, *z);
                        },
                        None => {
                            same_names_is_an_equivalence(*x, *y, *y);
                        },
                    }
                },
                None => {},
            }
        },
        None => {},
    }
}

/// Extension is reflexive and transitive, and chains with the same names
/// extend each other.
pub proof fn extension_is_an_order(a: EnvironmentView, b: EnvironmentView, c: EnvironmentView)
    ensures
        a.extends(a),
        a.same_names(b) ==> a.extends(b),
        a.extends(b) && b.extends(c) ==> a.extends(c),
{
    same_names_is_an_equivalence(a, a, a);
    match (a.enclosing, b.enclosing, c.enclosing) {
        (Some(x), Some(y), Some(z)) => {
            same_names_is_an_equivalence(*x, *y, *z);
        },
        (Some(x), _, _) => {
            same_names_is_an_equivalence(*x, *x, *x);
        },
        _ => {},
    }
}

/// An assignment declares nothing: every scope holds the names that it
/// held before.
pub proof fn assign_keeps_the_names(env: EnvironmentView, name: Seq<char>, value: ValueView)
    ensures
        env.assign(name, value) matches Some(after) ==> after.same_names(env),
    decreases env,
{
    same_names_is_an_equivalence(env, env, env);
    if !env.values.contains_key(name) {
        match env.enclosing {
            Some(e) => {
                assign_keeps_the_names(*e, name, value);
            },
            None => {},
        }
    } else {
        assert(env.values.insert(name, value).dom() =~= env.values.dom());
    }
}

} // verus!
