use vstd::prelude::*;
use crate::ast::{AST, SpecAST};

verus! {

/// The bindings denoted by one scope frame: each entry binds a name, and a
/// later entry for the same name shadows an earlier one.
pub open spec fn sp_scope_map(s: Seq<(String, AST)>) -> Map<Seq<char>, SpecAST>
    decreases s,
{
    if s.len() == 0 {
        Map::empty()
    } else {
        sp_scope_map(s.drop_last()).insert(s.last().0@, s.last().1@)
    }
}

/// Looking a name up from the innermost scope outwards.
pub open spec fn sp_env_lookup(env: Seq<Map<Seq<char>, SpecAST>>, name: Seq<char>) -> Option<
    SpecAST,
>
    decreases env.len(),
{
    if env.len() == 0 {
        None
    } else if env.last().contains_key(name) {
        Some(env.last()[name])
    } else {
        sp_env_lookup(env.drop_last(), name)
    }
}

/// What one scope frame gives a name when scanned from its newest entry
/// backwards.
pub open spec fn sp_scope_lookup(s: Seq<(String, AST)>, name: Seq<char>) -> Option<SpecAST>
    decreases s,
{
    if s.len() == 0 {
        None
    } else if s.last().0@ == name {
        Some(s.last().1@)
    } else {
        sp_scope_lookup(s.drop_last(), name)
    }
}

/// Scanning a frame from its newest entry backwards finds exactly the
/// binding its map holds.
pub proof fn lemma_scope_lookup(s: Seq<(String, AST)>, name: Seq<char>)
    ensures
        sp_scope_map(s).contains_key(name) <==> sp_scope_lookup(s, name) is Some,
        sp_scope_lookup(s, name) matches Some(v) ==> sp_scope_map(s)[name] == v,
    decreases s,
{
    if s.len() > 0 {
        lemma_scope_lookup(s.drop_last(), name);
    }
}

/// A chain of scopes: the last frame is the innermost. Lookup walks from the
/// innermost frame outwards; definition always writes into the innermost
/// frame, never an outer one.
pub struct Environment {
    pub scopes: Vec<Vec<(String, AST)>>,
}

impl View for Environment {
    type V = Seq<Map<Seq<char>, SpecAST>>;

    open spec fn view(&self) -> Seq<Map<Seq<char>, SpecAST>> {
        Seq::new(self.scopes@.len(), |i: int| sp_scope_map(self.scopes@[i]@))
    }
}

impl Environment {
    /// There is always a root scope.
    pub open spec fn wf(&self) -> bool {
        self.scopes@.len() >= 1
    }

    /// An environment holding a single empty root scope.
    pub fn new() -> (r: Environment)
        ensures
            r.wf(),
            r@ =~= seq![Map::<Seq<char>, SpecAST>::empty()],
    {
        let mut scopes: Vec<Vec<(String, AST)>> = Vec::new();
        scopes.push(Vec::new());
        Environment { scopes }
    }

    /// Opens a fresh empty innermost scope.
    pub fn push_scope(&mut self)
        ensures
            final(self).wf(),
            final(self)@ == old(self)@.push(Map::<Seq<char>, SpecAST>::empty()),
    {
        self.scopes.push(Vec::new());
        proof {
            assert(self@ =~= old(self)@.push(Map::<Seq<char>, SpecAST>::empty()));
        }
    }

    /// Discards the innermost scope (the root scope always stays).
    pub fn pop_scope(&mut self)
        requires
            old(self)@.len() >= 2,
        ensures
            final(self).wf(),
            final(self)@ == old(self)@.drop_last(),
    {
        let _discarded = self.scopes.pop();
        proof {
            assert(self@ =~= old(self)@.drop_last());
        }
    }

    /// Binds `name` to `value` in the innermost scope only: an existing
    /// binding there is overwritten, bindings in outer scopes are untouched
    /// (re-binding an outer name shadows it locally).
    pub fn def(&mut self, name: &String, value: AST)
        requires
            old(self).wf(),
        ensures
            final(self).wf(),
            final(self)@ == old(self)@.update(
                old(self)@.len() - 1,
                old(self)@.last().insert(name@, value@),
            ),
    {
        let mut scope = self.scopes.pop().unwrap();
        let ghost old_scope = scope@;
        scope.push((name.clone(), value));
        proof {
            assert(scope@.drop_last() =~= old_scope);
        }
        self.scopes.push(scope);
        proof {
            assert(self@ =~= old(self)@.update(
                old(self)@.len() - 1,
                old(self)@.last().insert(name@, value@),
            ));
        }
    }

    /// Looks `name` up in this scope, then in each enclosing scope in turn;
    /// yields a copy of the innermost binding, or nothing when the name is
    /// bound nowhere in the chain.
    #[verifier::loop_isolation(false)]
    pub fn get(&self, name: &String) -> (r: Option<AST>)
        ensures
            match r {
                Some(v) => sp_env_lookup(self@, name@) == Some(v@),
                None => sp_env_lookup(self@, name@) is None,
            },
    {
        let mut j: usize = self.scopes.len();
        proof {
            assert(self@.take(j as int) =~= self@);
        }
        while j > 0
            invariant
                j <= self.scopes@.len(),
                sp_env_lookup(self@, name@) == sp_env_lookup(self@.take(j as int), name@),
            decreases j,
        {
            let scope = &self.scopes[j - 1];
            let mut i: usize = scope.len();
            proof {
                assert(scope@.take(i as int) =~= scope@);
            }
            while i > 0
                invariant
                    i <= scope@.len(),
                    sp_scope_lookup(scope@, name@) == sp_scope_lookup(
                        scope@.take(i as int),
                        name@,
                    ),
                decreases i,
            {
                let entry = &scope[i - 1];
                if entry.0 == *name {
                    proof {
                        assert(scope@.take(i as int).last() == scope@[i - 1]);
                        lemma_scope_lookup(scope@, name@);
                        assert(self@.take(j as int).last() == sp_scope_map(scope@));
                    }
                    return Some(entry.1.duplicate());
                }
                proof {
                    assert(scope@.take(i as int).drop_last() =~= scope@.take(i - 1));
                }
                i = i - 1;
            }
            proof {
                assert(scope@.take(0) =~= Seq::<(String, AST)>::empty());
                lemma_scope_lookup(scope@, name@);
                assert(self@.take(j as int).last() == sp_scope_map(scope@));
                assert(self@.take(j as int).drop_last() =~= self@.take(j - 1));
            }
            j = j - 1;
        }
        proof {
            assert(self@.take(0) =~= Seq::<Map<Seq<char>, SpecAST>>::empty());
        }
        None
    }

    /// Copies out every binding for diagnostics: the innermost scope's
    /// entries first (each scope's entries in the order they were made),
    /// then each enclosing scope in turn.
    #[verifier::loop_isolation(false)]
    pub fn dump(&self) -> (r: Vec<(String, AST)>)
        ensures
            sp_pairs(r@) == sp_dump(self.scopes@),
    {
        let mut r: Vec<(String, AST)> = Vec::new();
        let mut j: usize = self.scopes.len();
        while j > 0
            invariant
                j <= self.scopes@.len(),
                sp_dump(self.scopes@) =~= sp_pairs(r@) + sp_dump_down(self.scopes@, j as int),
            decreases j,
        {
            let scope = &self.scopes[j - 1];
            let mut i: usize = 0;
            let ghost r0 = r@;
            while i < scope.len()
                invariant
                    i <= scope@.len(),
                    r@.len() == r0.len() + i,
                    forall|k: int| 0 <= k < r0.len() ==> r@[k] == r0[k],
                    forall|k: int|
                        0 <= k < i ==> (r@[r0.len() + k].0@ == scope@[k].0@ && r@[r0.len()
                            + k].1@ == scope@[k].1@),
                decreases scope@.len() - i,
            {
                let entry = &scope[i];
                r.push((entry.0.clone(), entry.1.duplicate()));
                i = i + 1;
            }
            proof {
                assert(sp_pairs(r@) =~= sp_pairs(r0) + sp_pairs(scope@));
                assert(sp_dump(self.scopes@) =~= sp_pairs(r@) + sp_dump_down(
                    self.scopes@,
                    j - 1,
                ));
            }
            j = j - 1;
        }
        proof {
            assert(sp_pairs(r@) =~= sp_dump(self.scopes@));
        }
        r
    }
}

/// The views of a sequence of bindings, elementwise.
pub open spec fn sp_pairs(s: Seq<(String, AST)>) -> Seq<(Seq<char>, SpecAST)> {
    Seq::new(s.len(), |i: int| (s[i].0@, s[i].1@))
}

/// The bindings of frames `0 .. j`, the frame `j - 1` (innermost among
/// them) first, each frame's entries in the order they were made.
pub open spec fn sp_dump_down(scopes: Seq<Vec<(String, AST)>>, j: int) -> Seq<(Seq<char>, SpecAST)>
    decreases j,
{
    if j <= 0 {
        Seq::empty()
    } else {
        sp_pairs(scopes[j - 1]@) + sp_dump_down(scopes, j - 1)
    }
}

/// Every binding of every frame, the innermost frame's entries first.
pub open spec fn sp_dump(scopes: Seq<Vec<(String, AST)>>) -> Seq<(Seq<char>, SpecAST)> {
    sp_dump_down(scopes, scopes.len() as int)
}

} // verus!
