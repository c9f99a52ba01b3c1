//! Scopes: a store of variable bindings, each scope linked to the scope
//! that encloses it.
//!
//! A scope is named by its place in the store. The scope that encloses
//! another was made before it, so a walk from a scope outwards ends. Scopes
//! leave the store from its end only, and only where no function can have
//! kept their place: a function keeps the place of the scope it was defined
//! in, and finds it again whenever it is called.

use vstd::prelude::*;
use crate::error::{InterpreterError, InterpreterErrorView};
use crate::token::{Token, TokenView};
use crate::value::{value_views, Value, ValueView};

verus! {

/// One scope: the variables defined in it, and the scope that encloses it.
pub struct Scope {
    parent: Option<usize>,
    names: Vec<String>,
    values: Vec<Value>,
}

/// The mathematical value of a [`Scope`]. `values[i]` is bound to
/// `names[i]`.
pub struct ScopeView {
    pub parent: Option<usize>,
    pub names: Seq<Seq<char>>,
    pub values: Seq<ValueView>,
}

/// The store of scopes.
pub struct Environment {
    scopes: Vec<Scope>,
}

/// The views of a sequence of texts, in order.
pub open spec fn text_views(texts: Seq<String>) -> Seq<Seq<char>> {
    texts.map_values(|s: String| s@)
}

impl View for Scope {
    type V = ScopeView;

    closed spec fn view(&self) -> ScopeView {
        ScopeView { parent: self.parent, names: text_views(self.names@), values: value_views(self.values@) }
    }
}

impl View for Environment {
    type V = Seq<ScopeView>;

    closed spec fn view(&self) -> Seq<ScopeView> {
        self.scopes@.map_values(|s: Scope| s@)
    }
}

/// Every scope binds each of its names to a value, and the scope that
/// encloses it comes before it in the store.
pub open spec fn well_formed(scopes: Seq<ScopeView>) -> bool {
    forall|i: int|
        0 <= i < scopes.len() ==> {
            &&& (#[trigger] scopes[i]).names.len() == scopes[i].values.len()
            &&& (scopes[i].parent matches Some(p) ==> p < i)
        }
}

/// The first place at or behind `from` at which `name` stands in `names`.
pub open spec fn find_from(names: Seq<Seq<char>>, name: Seq<char>, from: nat) -> Option<nat>
    decreases names.len() - from,
{
    if from >= names.len() {
        None
    } else if names[from as int] == name {
        Some(from)
    } else {
        find_from(names, name, from + 1)
    }
}

/// The first place at which `name` stands in `names`.
pub open spec fn find(names: Seq<Seq<char>>, name: Seq<char>) -> Option<nat> {
    find_from(names, name, 0)
}

/// The nearest scope that binds `name`, going outwards from `scope`.
pub open spec fn holder(scopes: Seq<ScopeView>, scope: nat, name: Seq<char>) -> Option<nat>
    decreases scope,
{
    if scope >= scopes.len() {
        None
    } else if find(scopes[scope as int].names, name) is Some {
        Some(scope)
    } else {
        match scopes[scope as int].parent {
            Some(p) => if p < scope {
                holder(scopes, p as nat, name)
            } else {
                None
            },
            None => None,
        }
    }
}

/// The value that `name` has in `scope`: the value bound to it in the
/// nearest scope that binds it.
pub open spec fn lookup(scopes: Seq<ScopeView>, scope: nat, name: Seq<char>) -> Option<ValueView> {
    match holder(scopes, scope, name) {
        Some(h) => {
            let at = find(scopes[h as int].names, name).unwrap();
            Some(scopes[h as int].values[at as int])
        },
        None => None,
    }
}

/// `scope` with `name` bound to `value`: in place of its old value if the
/// scope binds the name already, as a new binding otherwise.
pub open spec fn bound(scope: ScopeView, name: Seq<char>, value: ValueView) -> ScopeView {
    match find(scope.names, name) {
        Some(at) => ScopeView { values: scope.values.update(at as int, value), ..scope },
        None => ScopeView { names: scope.names.push(name), values: scope.values.push(value), ..scope },
    }
}

/// The store after `name` has been defined in `scope`. No other scope
/// changes.
pub open spec fn defined(scopes: Seq<ScopeView>, scope: nat, name: Seq<char>, value: ValueView) -> Seq<ScopeView> {
    scopes.update(scope as int, bound(scopes[scope as int], name, value))
}

/// The store after `value` has been assigned to `name` as seen from
/// `scope`: the nearest scope that binds the name has the new value. There
/// is no such store if no scope binds the name.
pub open spec fn assigned(scopes: Seq<ScopeView>, scope: nat, name: Seq<char>, value: ValueView) -> Option<
    Seq<ScopeView>,
> {
    match holder(scopes, scope, name) {
        Some(h) => Some(defined(scopes, h, name, value)),
        None => None,
    }
}

/// The store with a new, empty scope inside `parent`.
pub open spec fn extended(scopes: Seq<ScopeView>, parent: nat) -> Seq<ScopeView> {
    scopes.push(ScopeView { parent: Some(parent as usize), names: Seq::empty(), values: Seq::empty() })
}

/// The store that a program starts with: the global scope alone.
pub open spec fn initial() -> Seq<ScopeView> {
    seq![ScopeView { parent: None, names: Seq::empty(), values: Seq::empty() }]
}

/// The error for a name that no scope binds.
pub open spec fn undefined(name: TokenView) -> InterpreterErrorView {
    InterpreterErrorView::UndefinedVariable { name: name.lexeme, line: name.line }
}

impl Scope {
    fn new(parent: Option<usize>) -> (scope: Scope)
        ensures
            scope@ == (ScopeView { parent, names: Seq::empty(), values: Seq::empty() }),
    {
        let scope = Scope { parent, names: Vec::new(), values: Vec::new() };
        assert(text_views(scope.names@) =~= Seq::empty());
        assert(value_views(scope.values@) =~= Seq::empty());
        scope
    }

    /// The place of `name` among the names of the scope.
    #[verifier::rlimit(100)]
    fn find(&self, name: &String) -> (at: Option<usize>)
        ensures
            match at {
                Some(i) => find(self@.names, name@) == Some(i as nat) && i < self@.names.len(),
                None => find(self@.names, name@) is None,
            },
    {
        let mut i: usize = 0;
        while i < self.names.len()
            invariant
                i <= self.names.len(),
                find(self@.names, name@) == find_from(self@.names, name@, i as nat),
            decreases self.names.len() - i,
        {
            if self.names[i] == *name {
                return Some(i);
            }
            i += 1;
        }
        None
    }
}

impl Environment {
    /// The store is well formed.
    pub open spec fn wf(&self) -> bool {
        well_formed(self@)
    }

    /// A store that holds the global scope alone.
    pub fn new() -> (env: Environment)
        ensures
            env.wf(),
            env@ == initial(),
            env@.len() == 1,
    {
        let mut scopes: Vec<Scope> = Vec::new();
        scopes.push(Scope::new(None));
        let env = Environment { scopes };
        assert(env@ =~= initial());
        env
    }

    /// The number of scopes in the store.
    pub fn len(&self) -> (n: usize)
        ensures
            n == self@.len(),
    {
        self.scopes.len()
    }

    /// Opens a new, empty scope inside `parent` and gives its place.
    pub fn open_scope(&mut self, parent: usize) -> (scope: usize)
        requires
            old(self).wf(),
            parent < old(self)@.len(),
        ensures
            final(self).wf(),
            final(self)@ == extended(old(self)@, parent as nat),
            scope == old(self)@.len(),
    {
        let scope = self.scopes.len();
        self.scopes.push(Scope::new(Some(parent)));
        assert(self@ =~= extended(old(self)@, parent as nat));
        scope
    }

    /// Lets go of the scopes from the place `len` on: of those that were
    /// opened last.
    pub fn truncate(&mut self, len: usize)
        requires
            old(self).wf(),
            len <= old(self)@.len(),
        ensures
            final(self).wf(),
            final(self)@ == old(self)@.take(len as int),
    {
        self.scopes.truncate(len);
        assert(self@ =~= old(self)@.take(len as int));
    }

    /// Binds `name` to `value` in `scope`, in place of the value that the
    /// scope had for it, if it had one.
    #[verifier::rlimit(100)]
    pub fn define(&mut self, scope: usize, name: String, value: Value)
        requires
            old(self).wf(),
            scope < old(self)@.len(),
        ensures
            final(self).wf(),
            final(self)@ == defined(old(self)@, scope as nat, name@, value@),
    {
        let ghost before = self@;
        let ghost old_scope = self.scopes[scope as int]@;
        match self.scopes[scope].find(&name) {
            Some(at) => {
                self.scopes[scope].values.set(at, value);
                assert(self.scopes[scope as int]@.values =~= old_scope.values.update(at as int, value@));
            },
            None => {
                self.scopes[scope].names.push(name);
                self.scopes[scope].values.push(value);
                assert(self.scopes[scope as int]@.names =~= old_scope.names.push(name@));
                assert(self.scopes[scope as int]@.values =~= old_scope.values.push(value@));
            },
        }
        assert(self@ =~= defined(before, scope as nat, name@, value@));
    }

    /// The nearest scope that binds `name`, going outwards from `scope`.
    #[verifier::rlimit(100)]
    fn holder(&self, scope: usize, name: &String) -> (found: Option<(usize, usize)>)
        requires
            self.wf(),
        ensures
            match found {
                Some((h, at)) => {
                    &&& holder(self@, scope as nat, name@) == Some(h as nat)
                    &&& h < self@.len()
                    &&& find(self@[h as int].names, name@) == Some(at as nat)
                    &&& at < self@[h as int].values.len()
                },
                None => holder(self@, scope as nat, name@) is None,
            },
    {
        let mut s = scope;
        loop
            invariant
                self.wf(),
                holder(self@, scope as nat, name@) == holder(self@, s as nat, name@),
            decreases s,
        {
            if s >= self.scopes.len() {
                return None;
            }
            match self.scopes[s].find(name) {
                Some(at) => {
                    return Some((s, at));
                },
                None => match self.scopes[s].parent {
                    Some(p) => {
                        assert(self@[s as int].parent == Some(p));
                        s = p;
                    },
                    None => {
                        return None;
                    },
                },
            }
        }
    }

    /// The value of the variable `name` as seen from `scope`.
    pub fn get(&self, scope: usize, name: &Token) -> (result: Result<Value, InterpreterError>)
        requires
            self.wf(),
        ensures
            match lookup(self@, scope as nat, name@.lexeme) {
                Some(value) => result matches Ok(v) && v@ == value,
                None => result matches Err(e) && e@ == undefined(name@),
            },
    {
        match self.holder(scope, &name.lexeme) {
            Some((h, at)) => Ok(self.scopes[h].values[at].clone()),
            None => Err(InterpreterError::UndefinedVariable { name: name.lexeme.clone(), line: name.line }),
        }
    }

    /// Gives the variable `name`, as seen from `scope`, the value `value`.
    /// A name that no scope binds is an error, and the store stays as it is.
    #[verifier::rlimit(100)]
    pub fn assign(&mut self, scope: usize, name: &Token, value: Value) -> (result: Result<(), InterpreterError>)
        requires
            old(self).wf(),
        ensures
            final(self).wf(),
            match assigned(old(self)@, scope as nat, name@.lexeme, value@) {
                Some(scopes) => result is Ok && final(self)@ == scopes,
                None => result matches Err(e) && e@ == undefined(name@) && final(self)@ == old(self)@,
            },
    {
        let ghost before = self@;
        match self.holder(scope, &name.lexeme) {
            Some((h, at)) => {
                let ghost old_scope = self.scopes[h as int]@;
                self.scopes[h].values.set(at, value);
                assert(self.scopes[h as int]@.values =~= old_scope.values.update(at as int, value@));
                assert(self@ =~= defined(before, h as nat, name@.lexeme, value@));
                Ok(())
            },
            None => Err(InterpreterError::UndefinedVariable { name: name.lexeme.clone(), line: name.line }),
        }
    }
}

} // verus!
