//! Lexical scope used while one function body is compiled.
//!
//! A scope is an ordered stack of names; a name's position is its slot.
//! Bindings are pushed by parameter lists and `let` expressions and popped in
//! reverse order when their construct ends. Lookup finds the most recently
//! pushed occurrence of a name, so inner bindings shadow outer ones.

use vstd::prelude::*;

verus! {

/// A stack of `(name, slot)` bindings; the slot of a binding is its index.
#[derive(Debug)]
pub struct Scope {
    names: Vec<String>,
}

/// The slot of the most recently pushed binding named `name`, if any.
pub open spec fn scope_get(names: Seq<Seq<char>>, name: Seq<char>) -> Option<int>
    decreases names.len(),
{
    if names.len() == 0 {
        None
    } else if names.last() == name {
        Some(names.len() - 1)
    } else {
        scope_get(names.drop_last(), name)
    }
}

impl Scope {
    /// The stack of binding names, innermost last.
    pub closed spec fn model(&self) -> Seq<Seq<char>> {
        self.names.deep_view()
    }

    /// Creates an empty scope.
    pub fn new() -> (s: Scope)
        ensures
            s.model() == Seq::<Seq<char>>::empty(),
    {
        let s = Scope { names: Vec::new() };
        proof {
            assert(s.model() =~= Seq::<Seq<char>>::empty());
        }
        s
    }

    /// The number of live bindings.
    pub fn len(&self) -> (n: usize)
        ensures
            n == self.model().len(),
    {
        self.names.len()
    }

    /// Appends a binding for `name` and returns its slot, the next sequential
    /// index.
    pub fn push(&mut self, name: String) -> (slot: usize)
        ensures
            final(self).model() == old(self).model().push(name@),
            slot == old(self).model().len(),
    {
        let slot = self.names.len();
        self.names.push(name);
        proof {
            assert(self.model() =~= old(self).model().push(name@));
        }
        slot
    }

    /// Removes the most recent binding. Popping an empty scope is a caller
    /// bug, so an empty scope is ruled out here.
    pub fn pop(&mut self)
        requires
            old(self).model().len() > 0,
        ensures
            final(self).model() == old(self).model().drop_last(),
    {
        self.names.pop();
        proof {
            assert(self.model() =~= old(self).model().drop_last());
        }
    }

    /// Finds the slot of the most recently pushed binding named `name`;
    /// inner bindings win over outer ones.
    pub fn get(&self, name: &String) -> (r: Option<usize>)
        ensures
            match r {
                Some(slot) => scope_get(self.model(), name@) == Some(slot as int),
                None => scope_get(self.model(), name@) is None,
            },
    {
        let mut i: usize = self.names.len();
        proof {
            assert(self.model().take(i as int) =~= self.model());
        }
        while i > 0
            invariant
                i <= self.model().len(),
                scope_get(self.model(), name@) == scope_get(self.model().take(i as int), name@),
            decreases i,
        {
            i = i - 1;
            if self.names[i] == *name {
                proof {
                    let pre = self.model().take(i as int + 1);
                    assert(pre.last() == name@);
                    assert(scope_get(pre, name@) == Some(i as int));
                }
                return Some(i);
            }
            proof {
                let pre = self.model().take(i as int + 1);
                assert(pre.last() != name@);
                assert(pre.drop_last() =~= self.model().take(i as int));
            }
        }
        proof {
            assert(self.model().take(0) =~= Seq::<Seq<char>>::empty());
        }
        None
    }
}

/// Pushing a binding makes lookup of that name resolve to the new innermost
/// slot, whatever the name was bound to before.
pub proof fn lemma_shadowing(names: Seq<Seq<char>>, name: Seq<char>)
    ensures
        scope_get(names.push(name), name) == Some(names.len() as int),
{
    assert(names.push(name).last() == name);
}

/// Popping the binding pushed last restores every lookup to what it was
/// before the push, at any nesting depth.
pub proof fn lemma_pop_restores(names: Seq<Seq<char>>, pushed: Seq<char>, other: Seq<char>)
    ensures
        scope_get(names.push(pushed).drop_last(), other) == scope_get(names, other),
{
    assert(names.push(pushed).drop_last() =~= names);
}

} // verus!
