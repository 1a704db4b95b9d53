//! Environments: the names that are in scope, and the values bound to them.
//!
//! An environment binds names to values and may have an enclosing
//! environment. All environments of a run live in one store and are referred
//! to by their index in it; an environment is enclosed by one that was made
//! before it, so that the chains are finite.

use crate::error::Diagnostic;
use crate::runtime::{Callable, Object, ObjectView, failure};
use crate::token::Token;
use vstd::prelude::*;

verus! {

/// An environment as a mathematical value: its bindings, and the index of
/// the environment that encloses it.
pub struct Scope {
    pub bindings: Map<Seq<char>, ObjectView>,
    pub enclosing: Option<nat>,
}

/// One environment.
#[derive(Debug)]
pub struct Environment {
    bindings: Vec<(String, Object)>,
    enclosing: Option<usize>,
}

/// The index of the first binding of `name` from `from` on; the length of
/// the list where there is none.
pub closed spec fn index_of(bindings: Seq<(String, Object)>, name: Seq<char>, from: int) -> int
    decreases bindings.len() - from,
{
    if from < 0 || from >= bindings.len() {
        bindings.len() as int
    } else if bindings[from].0@ == name {
        from
    } else {
        index_of(bindings, name, from + 1)
    }
}

proof fn lemma_index_bounds(bindings: Seq<(String, Object)>, name: Seq<char>, from: int)
    requires
        0 <= from <= bindings.len(),
    ensures
        from <= index_of(bindings, name, from) <= bindings.len(),
        index_of(bindings, name, from) < bindings.len() ==> bindings[index_of(
            bindings,
            name,
            from,
        )].0@ == name,
        forall|j: int| from <= j < index_of(bindings, name, from) ==> bindings[j].0@ != name,
    decreases bindings.len() - from,
{
    if from < bindings.len() && bindings[from].0@ != name {
        lemma_index_bounds(bindings, name, from + 1);
    }
}

/// The index of the first binding of a name is the only index before which
/// the name is not bound and at which it is.
proof fn lemma_index_is(bindings: Seq<(String, Object)>, name: Seq<char>, i: int)
    requires
        0 <= i <= bindings.len(),
        forall|j: int| 0 <= j < i ==> bindings[j].0@ != name,
        i < bindings.len() ==> bindings[i].0@ == name,
    ensures
        index_of(bindings, name, 0) == i,
{
    lemma_index_bounds(bindings, name, 0);
}

impl Environment {
    /// The value bound to `name` here, if any.
    pub closed spec fn value(&self, name: Seq<char>) -> Option<ObjectView> {
        let i = index_of(self.bindings@, name, 0);
        if i < self.bindings@.len() {
            Some(self.bindings@[i].1@)
        } else {
            None
        }
    }

    /// The bindings of the environment.
    pub closed spec fn bindings(&self) -> Map<Seq<char>, ObjectView> {
        Map::new(|name: Seq<char>| self.value(name) is Some, |name: Seq<char>| self.value(name)->0)
    }

    /// The index of the enclosing environment, if any.
    pub closed spec fn parent(&self) -> Option<nat> {
        match self.enclosing {
            Some(p) => Some(p as nat),
            None => None,
        }
    }
}

impl View for Environment {
    type V = Scope;

    open spec fn view(&self) -> Scope {
        Scope { bindings: self.bindings(), enclosing: self.parent() }
    }
}

impl Environment {
    /// An environment without bindings.
    pub fn new(enclosing: Option<usize>) -> (r: Self)
        ensures
            r@.bindings == Map::<Seq<char>, ObjectView>::empty(),
            r@.enclosing == match enclosing {
                Some(p) => Some(p as nat),
                None => None,
            },
    {
        let r = Self { bindings: Vec::new(), enclosing };
        r
    }

    /// The index of the enclosing environment, if any.
    pub fn enclosing(&self) -> (r: Option<usize>)
        ensures
            self@.enclosing == match r {
                Some(p) => Some(p as nat),
                None => None,
            },
    {
        self.enclosing
    }

    /// The index of the binding of `key`; the number of bindings where there
    /// is none.
    fn position(&self, key: &String) -> (r: usize)
        ensures
            r == index_of(self.bindings@, key@, 0),
            r <= self.bindings@.len(),
    {
        let mut i: usize = 0;
        while i < self.bindings.len()
            invariant
                i <= self.bindings.len(),
                forall|j: int| 0 <= j < i ==> self.bindings@[j].0@ != key@,
            decreases self.bindings.len() - i,
        {
            if self.bindings[i].0 == *key {
                proof {
                    lemma_index_is(self.bindings@, key@, i as int);
                }
                return i;
            }
            i = i + 1;
        }
        proof {
            lemma_index_is(self.bindings@, key@, i as int);
        }
        i
    }

    /// Whether `key` is bound here.
    pub fn contains(&self, key: &String) -> (r: bool)
        ensures
            r == self@.bindings.contains_key(key@),
    {
        self.position(key) < self.bindings.len()
    }

    /// Binds `key` to `value` here, whether or not it was bound before.
    pub fn define(&mut self, key: String, value: Object)
        ensures
            final(self)@.bindings == old(self)@.bindings.insert(key@, value@),
            final(self)@.enclosing == old(self)@.enclosing,
    {
        let i = self.position(&key);
        let ghost before = self.bindings@;
        let ghost name = key@;
        let ghost bound = value@;
        if i < self.bindings.len() {
            self.bindings.set(i, (key, value));
        } else {
            self.bindings.push((key, value));
        }
        proof {
            let after = self.bindings@;
            lemma_index_bounds(before, name, 0);
            assert forall|n: Seq<char>| #[trigger]
                self.value(n) == (if n == name {
                    Some(bound)
                } else {
                    old(self).value(n)
                }) by {
                lemma_index_bounds(before, n, 0);
                let k = index_of(before, n, 0);
                if n == name {
                    lemma_index_is(after, n, i as int);
                } else if k < before.len() {
                    lemma_index_is(after, n, k);
                } else {
                    lemma_index_is(after, n, after.len() as int);
                }
            }
        }
    }

    /// Binds `key` to a callable.
    pub fn define_callable(&mut self, key: String, value: Callable)
        ensures
            final(self)@.bindings == old(self)@.bindings.insert(
                key@,
                ObjectView::Callable(value@),
            ),
            final(self)@.enclosing == old(self)@.enclosing,
    {
        self.define(key, Object::Callable(value));
    }

    /// The value that `key` is bound to here, if it is bound here.
    pub fn get(&self, key: &Token) -> (r: Option<Object>)
        ensures
            match r {
                Some(v) => self@.bindings.contains_key(key@.lexeme) && v@
                    == self@.bindings[key@.lexeme],
                None => !self@.bindings.contains_key(key@.lexeme),
            },
    {
        let i = self.position(&key.lexeme);
        if i < self.bindings.len() {
            Some(self.bindings[i].1.clone())
        } else {
            None
        }
    }

    /// Binds `key` to `value` if it is bound here; assignment creates no
    /// binding. The answer says whether `key` was bound.
    pub fn assign(&mut self, key: &String, value: Object) -> (r: bool)
        ensures
            r == old(self)@.bindings.contains_key(key@),
            final(self)@.enclosing == old(self)@.enclosing,
            final(self)@.bindings == if r {
                old(self)@.bindings.insert(key@, value@)
            } else {
                old(self)@.bindings
            },
    {
        if self.contains(key) {
            self.define(key.clone(), value);
            true
        } else {
            false
        }
    }
}

/// Every environment that has an enclosing one was made after it.
pub open spec fn well_linked(scopes: Seq<Scope>) -> bool {
    forall|i: int|
        0 <= i < scopes.len() ==> match (#[trigger] scopes[i]).enclosing {
            Some(p) => p < i,
            None => true,
        }
}

/// The environment that binds `name` for code that runs in `env`: `env`
/// itself if it binds the name, else what holds of the enclosing one.
pub open spec fn home(scopes: Seq<Scope>, env: int, name: Seq<char>) -> Option<int>
    decreases env,
{
    if env < 0 || env >= scopes.len() {
        None
    } else if scopes[env].bindings.contains_key(name) {
        Some(env)
    } else {
        match scopes[env].enclosing {
            Some(p) => if p < env {
                home(scopes, p as int, name)
            } else {
                None
            },
            None => None,
        }
    }
}

/// The value that `name` stands for in `env`, if it is bound in `env` or in
/// an environment around it.
pub open spec fn lookup(scopes: Seq<Scope>, env: int, name: Seq<char>) -> Option<ObjectView> {
    match home(scopes, env, name) {
        Some(h) => Some(scopes[h].bindings[name]),
        None => None,
    }
}

/// `scopes` with `name` bound to `value` in the environment `env`.
pub open spec fn bind(scopes: Seq<Scope>, env: int, name: Seq<char>, value: ObjectView) -> Seq<
    Scope,
> {
    scopes.update(
        env,
        Scope {
            bindings: scopes[env].bindings.insert(name, value),
            enclosing: scopes[env].enclosing,
        },
    )
}

/// The message for a name that is bound nowhere.
pub open spec fn undefined(name: Seq<char>) -> Seq<char> {
    "Undefined variable '"@ + name + "'"@
}

/// The message for an assignment to a name that is bound nowhere.
pub open spec fn unassignable(name: Seq<char>) -> Seq<char> {
    "Tried to assign to non-existent binding '"@ + name + "'"@
}

/// All the environments of a run. The first one is the global environment.
#[derive(Debug)]
pub struct Environments {
    scopes: Vec<Environment>,
}

impl View for Environments {
    type V = Seq<Scope>;

    closed spec fn view(&self) -> Seq<Scope> {
        Seq::new(self.scopes@.len(), |i: int| self.scopes@[i]@)
    }
}

impl Environments {
    /// A store that holds the global environment, which binds nothing yet.
    pub fn new() -> (r: Self)
        ensures
            r@ == seq![Scope { bindings: Map::<Seq<char>, ObjectView>::empty(), enclosing: None }],
    {
        let mut scopes: Vec<Environment> = Vec::new();
        scopes.push(Environment::new(None));
        let r = Self { scopes };
        r
    }

    /// How many environments there are.
    pub fn len(&self) -> (r: usize)
        ensures
            r == self@.len(),
    {
        self.scopes.len()
    }

    /// Makes a new environment inside `enclosing` and answers its index.
    pub fn push(&mut self, enclosing: usize) -> (r: usize)
        ensures
            r == old(self)@.len(),
            final(self)@ == old(self)@.push(
                Scope {
                    bindings: Map::<Seq<char>, ObjectView>::empty(),
                    enclosing: Some(enclosing as nat),
                },
            ),
    {
        let r = self.scopes.len();
        self.scopes.push(Environment::new(Some(enclosing)));
        r
    }

    /// Binds `key` to `value` in the environment `env`, whether or not it was
    /// bound there before.
    pub fn define(&mut self, env: usize, key: String, value: Object)
        requires
            env < old(self)@.len(),
        ensures
            final(self)@ == bind(old(self)@, env as int, key@, value@),
    {
        self.scopes[env].define(key, value);
    }

    /// Binds `key` to a callable in the environment `env`.
    pub fn define_callable(&mut self, env: usize, key: String, value: Callable)
        requires
            env < old(self)@.len(),
        ensures
            final(self)@ == bind(old(self)@, env as int, key@, ObjectView::Callable(value@)),
    {
        self.define(env, key, Object::Callable(value));
    }

    /// The value that the name `key` stands for in the environment `env`:
    /// where `env` does not bind it, the enclosing environment is asked, and
    /// so on outwards. A name that is bound nowhere is reported on the line
    /// of `key`.
    pub fn get(&self, env: usize, key: &Token) -> (r: Result<Object, Diagnostic>)
        requires
            env < self@.len(),
            well_linked(self@),
        ensures
            match lookup(self@, env as int, key@.lexeme) {
                Some(v) => r matches Ok(found) && found@ == v,
                None => r matches Err(d) && d@ == failure(key@.line, undefined(key@.lexeme)),
            },
    {
        let mut at = env;
        loop
            invariant
                at < self@.len(),
                well_linked(self@),
                lookup(self@, at as int, key@.lexeme) == lookup(self@, env as int, key@.lexeme),
            decreases at,
        {
            match self.scopes[at].get(key) {
                Some(v) => {
                    return Ok(v);
                },
                None => {},
            }
            match self.scopes[at].enclosing() {
                Some(p) => {
                    at = p;
                },
                None => {
                    let mut message = String::from_str("Undefined variable '");
                    message.append(key.lexeme.as_str());
                    message.append("'");
                    return Err(Diagnostic::runtime(key.line, message));
                },
            }
        }
    }

    /// The environment that binds `key` for code that runs in `env`, if any.
    fn find(&self, env: usize, key: &String) -> (r: Option<usize>)
        requires
            env < self@.len(),
            well_linked(self@),
        ensures
            match r {
                Some(h) => home(self@, env as int, key@) == Some(h as int) && h < self@.len()
                    && self@[h as int].bindings.contains_key(key@),
                None => home(self@, env as int, key@) is None,
            },
    {
        let mut at = env;
        loop
            invariant
                at < self@.len(),
                well_linked(self@),
                home(self@, at as int, key@) == home(self@, env as int, key@),
            decreases at,
        {
            if self.scopes[at].contains(key) {
                return Some(at);
            }
            match self.scopes[at].enclosing() {
                Some(p) => {
                    at = p;
                },
                None => {
                    return None;
                },
            }
        }
    }

    /// Gives the name `key` the value `value` in the environment that binds
    /// it for code that runs in `env`. Assignment creates no binding: where
    /// the name is bound nowhere, nothing changes and the answer is a
    /// message.
    pub fn assign(&mut self, env: usize, key: &str, value: Object) -> (r: Result<(), String>)
        requires
            env < old(self)@.len(),
            well_linked(old(self)@),
        ensures
            match home(old(self)@, env as int, key@) {
                Some(h) => r is Ok && final(self)@ == bind(old(self)@, h, key@, value@),
                None => r matches Err(m) && m@ == unassignable(key@) && final(self)@ == old(self)@,
            },
    {
        let name = String::from_str(key);
        match self.find(env, &name) {
            Some(h) => {
                self.define(h, name, value);
                Ok(())
            },
            None => {
                let mut message = String::from_str("Tried to assign to non-existent binding '");
                message.append(key);
                message.append("'");
                Err(message)
            },
        }
    }
}

/// What may have become of the environments `before` while code ran that
/// left `after`: every environment is still there, enclosed as it was, and
/// binds the names it bound and no others. Only the environment `open`, if
/// there is one, may bind more names than before.
pub open spec fn keeps(before: Seq<Scope>, after: Seq<Scope>, open: Option<int>) -> bool {
    &&& before.len() <= after.len()
    &&& forall|i: int|
        0 <= i < before.len() ==> {
            &&& (#[trigger] after[i]).enclosing == before[i].enclosing
            &&& before[i].bindings.dom().subset_of(after[i].bindings.dom())
            &&& open != Some(i) ==> after[i].bindings.dom() == before[i].bindings.dom()
        }
}

/// Binding a name in an environment changes no other environment, and adds
/// at most that name to this one.
pub proof fn lemma_keeps_bind(scopes: Seq<Scope>, env: int, name: Seq<char>, value: ObjectView)
    requires
        0 <= env < scopes.len(),
    ensures
        keeps(scopes, bind(scopes, env, name, value), Some(env)),
        scopes[env].bindings.contains_key(name) ==> keeps(
            scopes,
            bind(scopes, env, name, value),
            None,
        ),
        well_linked(scopes) ==> well_linked(bind(scopes, env, name, value)),
{
    let after = bind(scopes, env, name, value);
    if scopes[env].bindings.contains_key(name) {
        assert(after[env].bindings.dom() =~= scopes[env].bindings.dom());
    }
    if well_linked(scopes) {
        assert forall|i: int| 0 <= i < after.len() implies match (#[trigger] after[i]).enclosing {
            Some(p) => p < i,
            None => true,
        } by {}
    }
}

} // verus!
