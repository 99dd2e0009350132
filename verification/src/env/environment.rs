//! One scope of names, and the operations on a heap of scopes.
//!
//! A heap is a sequence of scopes; a scope is named by its index. Each scope
//! maps names to values and may name an enclosing scope, always one that was
//! made before it.

use crate::expressions::expression::{ExpressionRes, Value};
use vstd::prelude::*;

verus! {

/// The mathematical content of a scope: its bindings and its enclosing
/// scope.
pub struct ScopeView {
    pub vars: Map<Seq<char>, Value>,
    pub parent: Option<nat>,
}

/// A heap of scopes.
pub type Heap = Seq<ScopeView>;

/// Whether every scope that `v` refers to is among the first `n`.
pub open spec fn refs_within(v: Value, n: nat) -> bool {
    match v {
        Value::Function(m) => m.env < n,
        Value::Instance(i) => i.env < n,
        _ => true,
    }
}

/// Whether a heap is closed: each scope's parent was made before it, and
/// every value refers to scopes of the heap only.
pub open spec fn heap_closed(h: Heap) -> bool {
    forall|i: int|
        0 <= i < h.len() ==> {
            &&& (#[trigger] h[i]).parent matches Some(p) ==> p < i
            &&& forall|k: Seq<char>|
                h[i].vars.contains_key(k) ==> refs_within(#[trigger] h[i].vars[k], h.len())
        }
}

/// The heap with one more, empty scope inside `parent`. The new scope's index
/// is the old length.
pub open spec fn push_scope(h: Heap, parent: Option<nat>) -> Heap {
    h.push(ScopeView { vars: Map::empty(), parent })
}

/// The heap with `name` bound to `v` in the scope `env`, whatever it was
/// bound to there before.
pub open spec fn define(h: Heap, env: nat, name: Seq<char>, v: Value) -> Heap {
    if env < h.len() {
        h.update(env as int, ScopeView { vars: h[env as int].vars.insert(name, v), ..h[env as int] })
    } else {
        h
    }
}

/// The nearest scope, from `env` outwards, that binds `name`.
pub open spec fn resolve(h: Heap, env: nat, name: Seq<char>) -> Option<nat>
    decreases env,
{
    if env >= h.len() {
        None
    } else if h[env as int].vars.contains_key(name) {
        Some(env)
    } else {
        match h[env as int].parent {
            Some(p) => if p < env {
                resolve(h, p, name)
            } else {
                None
            },
            None => None,
        }
    }
}

/// What `name` is bound to, seen from `env`.
pub open spec fn lookup(h: Heap, env: nat, name: Seq<char>) -> Option<Value> {
    match resolve(h, env, name) {
        Some(s) => Some(h[s as int].vars[name]),
        None => None,
    }
}

/// The heap with the nearest binding of `name`, seen from `env`, changed to
/// `v`; `None` where no scope binds it.
pub open spec fn assign(h: Heap, env: nat, name: Seq<char>, v: Value) -> Option<Heap> {
    match resolve(h, env, name) {
        Some(s) => Some(define(h, s, name, v)),
        None => None,
    }
}

/// The heap without the nearest binding of `name`, seen from `env`; the same
/// heap where no scope binds it.
pub open spec fn remove(h: Heap, env: nat, name: Seq<char>) -> Heap {
    match resolve(h, env, name) {
        Some(s) => h.update(
            s as int,
            ScopeView { vars: h[s as int].vars.remove(name), ..h[s as int] },
        ),
        None => h,
    }
}

/// The scope that `resolve` finds is in the heap, at or outside `env`, and
/// binds the name.
pub proof fn lemma_resolve_found(h: Heap, env: nat, name: Seq<char>)
    ensures
        resolve(h, env, name) matches Some(s) ==> s <= env && s < h.len() && h[s as int].vars.contains_key(
            name,
        ),
    decreases env,
{
    if env < h.len() && !h[env as int].vars.contains_key(name) {
        if let Some(p) = h[env as int].parent {
            if p < env {
                lemma_resolve_found(h, p, name);
            }
        }
    }
}

/// One scope: names and their values, and the index of the enclosing scope.
#[derive(Debug)]
pub struct Environment {
    pub names: Vec<String>,
    pub values: Vec<ExpressionRes>,
    pub enclosing: Option<usize>,
}

impl Environment {
    /// Each name has one value, no name occurs twice, and every value has its
    /// kind's slot filled.
    pub open spec fn wf(&self) -> bool {
        &&& self.names.len() == self.values.len()
        &&& forall|i: int, j: int|
            0 <= i < j < self.names.len() ==> self.names[i]@ != self.names[j]@
        &&& forall|i: int| 0 <= i < self.values.len() ==> (#[trigger] self.values[i]).wf()
    }

    /// Whether some slot holds the name `k`.
    pub open spec fn has(&self, k: Seq<char>) -> bool {
        exists|i: int| 0 <= i < self.names.len() && #[trigger] self.names[i]@ == k
    }

    /// A slot that holds the name `k`.
    pub open spec fn slot(&self, k: Seq<char>) -> int {
        choose|i: int| 0 <= i < self.names.len() && #[trigger] self.names[i]@ == k
    }

    /// Whether every value refers to scopes among the first `n` only.
    pub open spec fn refs_within(&self, n: nat) -> bool {
        forall|i: int| 0 <= i < self.values.len() ==> refs_within((#[trigger] self.values[i])@, n)
    }

    /// In a well-formed scope the slot of a name is the one slot that holds
    /// it.
    pub proof fn lemma_slot(&self, i: int)
        requires
            self.wf(),
            0 <= i < self.names.len(),
        ensures
            self.has(self.names[i]@),
            self.slot(self.names[i]@) == i,
    {
        let k = self.names[i]@;
        assert(self.names[i]@ == k);
        let j = self.slot(k);
        assert(0 <= j < self.names.len() && self.names[j]@ == k);
        if j < i {
            assert(self.names[j]@ != self.names[i]@);
        } else if i < j {
            assert(self.names[i]@ != self.names[j]@);
        }
    }

    /// An empty scope inside `enclosing`.
    pub fn new(enclosing: Option<usize>) -> (e: Environment)
        ensures
            e.wf(),
            e@ == (ScopeView {
                vars: Map::empty(),
                parent: match enclosing {
                    Some(p) => Some(p as nat),
                    None => None,
                },
            }),
            e.enclosing == enclosing,
            e.values.len() == 0,
    {
        let e = Environment { names: Vec::new(), values: Vec::new(), enclosing };
        assert(e@.vars =~= Map::empty());
        e
    }

    /// An empty scope inside the scope `enclosing`.
    pub fn new_with_enclosing(enclosing: usize) -> (e: Environment)
        ensures
            e.wf(),
            e@ == (ScopeView { vars: Map::empty(), parent: Some(enclosing as nat) }),
            e.enclosing == Some(enclosing),
            e.values.len() == 0,
    {
        Environment::new(Some(enclosing))
    }

    /// The slot that holds `name`, if one does.
    #[verifier::loop_isolation(false)]
    pub fn find(&self, name: &String) -> (r: Option<usize>)
        requires
            self.wf(),
        ensures
            r is Some <==> self@.vars.contains_key(name@),
            r matches Some(i) ==> i < self.names.len() && i < self.values.len()
                && self.names[i as int]@ == name@ && self@.vars[name@] == self.values[i as int]@,
    {
        let mut i: usize = 0;
        while i < self.names.len()
            invariant
                i <= self.names.len(),
                forall|j: int| 0 <= j < i ==> self.names[j]@ != name@,
            decreases self.names.len() - i,
        {
            if self.names[i] == *name {
                proof {
                    self.lemma_slot(i as int);
                }
                return Some(i);
            }
            i += 1;
        }
        None
    }

    /// What `name` is bound to in this scope.
    pub fn get_variable(&self, name: &String) -> (r: Option<&ExpressionRes>)
        requires
            self.wf(),
        ensures
            r is Some <==> self@.vars.contains_key(name@),
            r matches Some(v) ==> v@ == self@.vars[name@] && v.wf(),
    {
        match self.find(name) {
            Some(i) => Some(&self.values[i]),
            None => None,
        }
    }

    /// Binds `name` to `value` in this scope, in place of the value it had
    /// here, if any.
    pub fn define_variable(&mut self, name: String, value: ExpressionRes)
        requires
            old(self).wf(),
            value.wf(),
        ensures
            final(self).wf(),
            final(self)@ == (ScopeView { vars: old(self)@.vars.insert(name@, value@), ..old(self)@ }),
            final(self).enclosing == old(self).enclosing,
            forall|n: nat|
                old(self).refs_within(n) && refs_within(value@, n) ==> final(self).refs_within(n),
    {
        match self.find(&name) {
            Some(i) => {
                self.values[i] = value;
                proof {
                    assert forall|k: Seq<char>| self.has(k) == old(self).has(k) by {
                        if self.has(k) {
                            let j = self.slot(k);
                            assert(old(self).names[j]@ == k);
                        }
                        if old(self).has(k) {
                            let j = old(self).slot(k);
                            assert(self.names[j]@ == k);
                        }
                    }
                    assert forall|k: Seq<char>| self.has(k) implies self.slot(k) == old(self).slot(
                        k,
                    ) by {
                        let j = old(self).slot(k);
                        assert(self.names[j]@ == k);
                        self.lemma_slot(j);
                    }
                    old(self).lemma_slot(i as int);
                    assert(self@.vars =~= old(self)@.vars.insert(name@, value@));
                }
            },
            None => {
                let ghost n = self.names.len() as int;
                self.names.push(name);
                self.values.push(value);
                proof {
                    assert(self.names[n]@ == name@);
                    assert forall|k: Seq<char>| self.has(k) == (old(self).has(k) || k == name@) by {
                        if self.has(k) {
                            let j = self.slot(k);
                            if j < n {
                                assert(old(self).names[j]@ == k);
                            }
                        }
                        if old(self).has(k) {
                            let j = old(self).slot(k);
                            assert(self.names[j]@ == k);
                        }
                    }
                    assert(self.wf());
                    assert forall|k: Seq<char>| old(self).has(k) implies self.slot(k) == old(
                        self,
                    ).slot(k) by {
                        let j = old(self).slot(k);
                        assert(self.names[j]@ == k);
                        self.lemma_slot(j);
                    }
                    self.lemma_slot(n);
                    assert(self@.vars =~= old(self)@.vars.insert(name@, value@));
                }
            },
        }
    }

    /// Removes the binding of `name` from this scope, if it has one, and says
    /// whether it had.
    pub fn remove_variable(&mut self, name: &String) -> (removed: bool)
        requires
            old(self).wf(),
        ensures
            final(self).wf(),
            removed == old(self)@.vars.contains_key(name@),
            final(self)@ == (ScopeView { vars: old(self)@.vars.remove(name@), ..old(self)@ }),
            final(self).enclosing == old(self).enclosing,
            forall|n: nat| old(self).refs_within(n) ==> final(self).refs_within(n),
    {
        match self.find(name) {
            Some(i) => {
                self.names.remove(i);
                self.values.remove(i);
                proof {
                    let at = i as int;
                    assert forall|a: int, b: int| 0 <= a < b < self.names.len() implies self.names[a]@
                        != self.names[b]@ by {
                        let a0 = if a < at { a } else { a + 1 };
                        let b0 = if b < at { b } else { b + 1 };
                        assert(old(self).names[a0]@ != old(self).names[b0]@);
                    }
                    assert forall|j: int| 0 <= j < self.values.len() implies (
                    #[trigger] self.values[j]).wf() by {
                        let j0 = if j < at { j } else { j + 1 };
                        assert(old(self).values[j0].wf());
                    }
                    assert forall|k: Seq<char>| self.has(k) == (old(self).has(k) && k != name@) by {
                        if self.has(k) {
                            let j = self.slot(k);
                            let j0 = if j < at { j } else { j + 1 };
                            assert(old(self).names[j0]@ == k);
                            assert(old(self).names[j0]@ != old(self).names[at]@);
                        }
                        if old(self).has(k) && k != name@ {
                            let j0 = old(self).slot(k);
                            let j = if j0 < at { j0 } else { j0 - 1 };
                            assert(self.names[j]@ == k);
                        }
                    }
                    assert forall|k: Seq<char>| self.has(k) implies self.values[self.slot(k)]@
                        == old(self).values[old(self).slot(k)]@ by {
                        let j = self.slot(k);
                        let j0 = if j < at { j } else { j + 1 };
                        assert(old(self).names[j0]@ == k);
                        old(self).lemma_slot(j0);
                    }
                    assert(self@.vars =~= old(self)@.vars.remove(name@));
                    assert forall|n: nat| old(self).refs_within(n) implies self.refs_within(n) by {
                        assert forall|j: int| 0 <= j < self.values.len() implies refs_within(
                            (#[trigger] self.values[j])@,
                            n,
                        ) by {
                            let j0 = if j < at { j } else { j + 1 };
                            assert(refs_within(old(self).values[j0]@, n));
                        }
                    }
                }
                true
            },
            None => {
                proof {
                    assert(self@.vars =~= old(self)@.vars.remove(name@));
                }
                false
            },
        }
    }
}

impl View for Environment {
    type V = ScopeView;

    open spec fn view(&self) -> ScopeView {
        ScopeView {
            vars: Map::new(|k: Seq<char>| self.has(k), |k: Seq<char>| self.values[self.slot(k)]@),
            parent: match self.enclosing {
                Some(p) => Some(p as nat),
                None => None,
            },
        }
    }
}

} // verus!
