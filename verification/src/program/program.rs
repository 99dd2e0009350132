//! The arena of scopes that a program runs in.

use crate::env::environment::{
    assign, define, heap_closed, lemma_resolve_found, lookup, push_scope, refs_within, remove,
    resolve, Environment, Heap,
};
use crate::expressions::expression::ExpressionRes;
use vstd::prelude::*;

verus! {

/// Every scope made so far, each named by its index, and the index of the
/// scope that top-level code runs in. Scopes are never dropped, so an index
/// held by a closure or an instance stays good.
#[derive(Debug)]
pub struct ProgramEnvs {
    pub scopes: Vec<Environment>,
    pub current: usize,
}

impl ProgramEnvs {
    /// The scopes as a heap.
    pub open spec fn heap(&self) -> Heap {
        Seq::new(self.scopes.len() as nat, |i: int| self.scopes[i]@)
    }

    /// The current scope exists, each scope is well-formed and lies inside an
    /// earlier one, if any, and every value refers to existing scopes.
    pub open spec fn wf(&self) -> bool {
        &&& self.current < self.scopes.len()
        &&& forall|i: int|
            0 <= i < self.scopes.len() ==> {
                &&& (#[trigger] self.scopes[i]).wf()
                &&& self.scopes[i].enclosing matches Some(p) ==> p < i
                &&& self.scopes[i].refs_within(self.scopes.len() as nat)
            }
    }

    /// The heap of a well-formed arena is closed.
    pub proof fn lemma_heap_closed(&self)
        requires
            self.wf(),
        ensures
            heap_closed(self.heap()),
    {
        let h = self.heap();
        assert forall|i: int| 0 <= i < h.len() implies {
            &&& (#[trigger] h[i]).parent matches Some(p) ==> p < i
            &&& forall|k: Seq<char>|
                h[i].vars.contains_key(k) ==> refs_within(#[trigger] h[i].vars[k], h.len())
        } by {
            assert(self.scopes[i].wf());
            assert forall|k: Seq<char>| h[i].vars.contains_key(k) implies refs_within(
                #[trigger] h[i].vars[k],
                h.len(),
            ) by {
                let j = self.scopes[i].slot(k);
                assert(refs_within(self.scopes[i].values[j]@, h.len()));
            }
        }
    }

    /// An arena with one empty scope, which is current.
    pub fn new() -> (envs: ProgramEnvs)
        ensures
            envs.wf(),
            envs.current == 0,
            envs.heap() == push_scope(Seq::empty(), None),
    {
        let mut scopes: Vec<Environment> = Vec::new();
        scopes.push(Environment::new(None));
        let envs = ProgramEnvs { scopes, current: 0 };
        assert(envs.heap() =~= push_scope(Seq::empty(), None));
        envs
    }

    /// Makes an empty scope inside `parent` and returns its index.
    pub fn new_child(&mut self, parent: Option<usize>) -> (id: usize)
        requires
            old(self).wf(),
            parent matches Some(p) ==> p < old(self).scopes.len(),
        ensures
            final(self).wf(),
            final(self).current == old(self).current,
            id == old(self).scopes.len(),
            final(self).scopes.len() == old(self).scopes.len() + 1,
            final(self).heap() == push_scope(
                old(self).heap(),
                match parent {
                    Some(p) => Some(p as nat),
                    None => None,
                },
            ),
    {
        let id = self.scopes.len();
        self.scopes.push(Environment::new(parent));
        proof {
            assert forall|i: int| 0 <= i < self.scopes.len() implies {
                &&& (#[trigger] self.scopes[i]).wf()
                &&& self.scopes[i].enclosing matches Some(p) ==> p < i
                &&& self.scopes[i].refs_within(self.scopes.len() as nat)
            } by {
                if i < id {
                    assert(self.scopes[i] == old(self).scopes[i]);
                    assert(old(self).scopes[i].refs_within(old(self).scopes.len() as nat));
                }
            }
            assert(self.heap() =~= push_scope(
                old(self).heap(),
                match parent {
                    Some(p) => Some(p as nat),
                    None => None,
                },
            ));
        }
        id
    }

    /// Binds `name` to `value` in the scope `env`.
    pub fn define_in(&mut self, env: usize, name: String, value: ExpressionRes)
        requires
            old(self).wf(),
            env < old(self).scopes.len(),
            value.wf(),
            refs_within(value@, old(self).scopes.len() as nat),
        ensures
            final(self).wf(),
            final(self).current == old(self).current,
            final(self).scopes.len() == old(self).scopes.len(),
            final(self).heap() == define(old(self).heap(), env as nat, name@, value@),
    {
        let ghost n = self.scopes.len() as nat;
        assert(self.scopes[env as int].wf());
        assert(self.scopes[env as int].refs_within(n));
        self.scopes[env].define_variable(name, value);
        proof {
            assert forall|i: int| 0 <= i < self.scopes.len() implies {
                &&& (#[trigger] self.scopes[i]).wf()
                &&& self.scopes[i].enclosing matches Some(p) ==> p < i
                &&& self.scopes[i].refs_within(self.scopes.len() as nat)
            } by {
                if i != env {
                    assert(self.scopes[i] == old(self).scopes[i]);
                }
            }
            assert(self.heap() =~= define(old(self).heap(), env as nat, name@, value@));
        }
    }

    /// The nearest scope, from `env` outwards, that binds `name`.
    #[verifier::loop_isolation(false)]
    pub fn resolve_in(&self, env: usize, name: &String) -> (r: Option<usize>)
        requires
            self.wf(),
            env < self.scopes.len(),
        ensures
            match r {
                Some(s) => resolve(self.heap(), env as nat, name@) == Some(s as nat) && s
                    < self.scopes.len(),
                None => resolve(self.heap(), env as nat, name@) is None,
            },
    {
        let mut at = env;
        loop
            invariant
                at < self.scopes.len(),
                resolve(self.heap(), at as nat, name@) == resolve(self.heap(), env as nat, name@),
            decreases at,
        {
            assert(self.scopes[at as int].wf());
            if self.scopes[at].find(name).is_some() {
                return Some(at);
            }
            match self.scopes[at].enclosing {
                Some(p) => {
                    at = p;
                },
                None => {
                    return None;
                },
            }
        }
    }

    /// A copy of what `name` is bound to, seen from `env`.
    pub fn lookup_in(&self, env: usize, name: &String) -> (r: Option<ExpressionRes>)
        requires
            self.wf(),
            env < self.scopes.len(),
        ensures
            match r {
                Some(v) => lookup(self.heap(), env as nat, name@) == Some(v@) && v.wf()
                    && refs_within(v@, self.scopes.len() as nat),
                None => lookup(self.heap(), env as nat, name@) is None,
            },
    {
        match self.resolve_in(env, name) {
            Some(s) => {
                assert(self.scopes[s as int].wf());
                assert(self.scopes[s as int].refs_within(self.scopes.len() as nat));
                proof {
                    lemma_resolve_found(self.heap(), env as nat, name@);
                }
                match self.scopes[s].find(name) {
                    Some(i) => Some(ExpressionRes::copy(&self.scopes[s].values[i])),
                    None => None,
                }
            },
            None => None,
        }
    }

    /// Changes the nearest binding of `name`, seen from `env`, to `value`,
    /// and says whether there was one.
    pub fn assign_in(&mut self, env: usize, name: String, value: ExpressionRes) -> (assigned: bool)
        requires
            old(self).wf(),
            env < old(self).scopes.len(),
            value.wf(),
            refs_within(value@, old(self).scopes.len() as nat),
        ensures
            final(self).wf(),
            final(self).current == old(self).current,
            final(self).scopes.len() == old(self).scopes.len(),
            match assign(old(self).heap(), env as nat, name@, value@) {
                Some(h) => assigned && final(self).heap() == h,
                None => !assigned && final(self).heap() == old(self).heap(),
            },
    {
        match self.resolve_in(env, &name) {
            Some(s) => {
                self.define_in(s, name, value);
                true
            },
            None => false,
        }
    }

    /// Removes the nearest binding of `name`, seen from `env`, and says
    /// whether there was one.
    pub fn remove_in(&mut self, env: usize, name: &String) -> (removed: bool)
        requires
            old(self).wf(),
            env < old(self).scopes.len(),
        ensures
            final(self).wf(),
            final(self).current == old(self).current,
            final(self).scopes.len() == old(self).scopes.len(),
            final(self).heap() == remove(old(self).heap(), env as nat, name@),
            removed == resolve(old(self).heap(), env as nat, name@) is Some,
    {
        match self.resolve_in(env, name) {
            Some(s) => {
                let ghost n = self.scopes.len() as nat;
                assert(self.scopes[s as int].wf());
                assert(self.scopes[s as int].refs_within(n));
                self.scopes[s].remove_variable(name);
                proof {
                    assert forall|i: int| 0 <= i < self.scopes.len() implies {
                        &&& (#[trigger] self.scopes[i]).wf()
                        &&& self.scopes[i].enclosing matches Some(p) ==> p < i
                        &&& self.scopes[i].refs_within(self.scopes.len() as nat)
                    } by {
                        if i != s {
                            assert(self.scopes[i] == old(self).scopes[i]);
                        }
                    }
                    assert(self.heap() =~= remove(old(self).heap(), env as nat, name@));
                }
                true
            },
            None => false,
        }
    }

    /// Binds `name` to `value` in the current scope.
    pub fn define_variable(&mut self, name: String, value: ExpressionRes)
        requires
            old(self).wf(),
            value.wf(),
            refs_within(value@, old(self).scopes.len() as nat),
        ensures
            final(self).wf(),
            final(self).current == old(self).current,
            final(self).scopes.len() == old(self).scopes.len(),
            final(self).heap() == define(
                old(self).heap(),
                old(self).current as nat,
                name@,
                value@,
            ),
    {
        self.define_in(self.current, name, value)
    }

    /// A copy of what `name` is bound to, seen from the current scope.
    pub fn lookup_var(&self, name: &String) -> (r: Option<ExpressionRes>)
        requires
            self.wf(),
        ensures
            match r {
                Some(v) => lookup(self.heap(), self.current as nat, name@) == Some(v@) && v.wf()
                    && refs_within(v@, self.scopes.len() as nat),
                None => lookup(self.heap(), self.current as nat, name@) is None,
            },
    {
        self.lookup_in(self.current, name)
    }

    /// Changes the nearest binding of `name`, seen from the current scope, to
    /// `value`, and says whether there was one.
    pub fn assign_to_existing(&mut self, name: String, value: ExpressionRes) -> (assigned: bool)
        requires
            old(self).wf(),
            value.wf(),
            refs_within(value@, old(self).scopes.len() as nat),
        ensures
            final(self).wf(),
            final(self).current == old(self).current,
            final(self).scopes.len() == old(self).scopes.len(),
            match assign(old(self).heap(), old(self).current as nat, name@, value@) {
                Some(h) => assigned && final(self).heap() == h,
                None => !assigned && final(self).heap() == old(self).heap(),
            },
    {
        self.assign_in(self.current, name, value)
    }

    /// Removes the nearest binding of `name`, seen from the current scope,
    /// and says whether there was one.
    pub fn remove_var(&mut self, name: &String) -> (removed: bool)
        requires
            old(self).wf(),
        ensures
            final(self).wf(),
            final(self).current == old(self).current,
            final(self).scopes.len() == old(self).scopes.len(),
            final(self).heap() == remove(old(self).heap(), old(self).current as nat, name@),
            removed == resolve(old(self).heap(), old(self).current as nat, name@) is Some,
    {
        self.remove_in(self.current, name)
    }
}

} // verus!
