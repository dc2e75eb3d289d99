//! The map from variable numbers to types that the lower level works with: at this point there
//! are no scopes, only unique numbers.
use vstd::prelude::*;
use std::collections::HashMap;
use crate::typing::types::Type;

verus! {

broadcast use vstd::std_specs::hash::group_hash_axioms;

/// A counter that hands out variable numbers, from 0 up.
#[derive(Debug)]
pub struct VarGen {
    ct: usize,
}

impl VarGen {
    /// The number that the next call of `fresh` hands out.
    pub closed spec fn next(&self) -> usize {
        self.ct
    }

    /// A counter that has handed out nothing.
    pub fn new() -> (g: VarGen)
        ensures
            g.next() == 0,
    {
        VarGen { ct: 0 }
    }

    /// Hand out the next number.
    pub fn fresh(&mut self) -> (id: usize)
        requires
            old(self).next() < usize::MAX,
        ensures
            id == old(self).next(),
            final(self).next() == old(self).next() + 1,
    {
        let ret = self.ct;
        self.ct += 1;
        ret
    }
}

/// Variables by number, with their types.
#[derive(Debug)]
pub struct Web {
    vars: VarGen,
    map: HashMap<usize, Type>,
}

impl Web {
    /// The number the next variable gets.
    pub closed spec fn next(&self) -> usize {
        self.vars.next()
    }

    /// The type of each variable so far.
    pub closed spec fn types(&self) -> Map<usize, Type> {
        self.map@
    }

    /// Every variable so far has a number below the next one, and there are finitely many.
    pub closed spec fn wf(&self) -> bool {
        &&& self.types().dom().finite()
        &&& forall|k: usize| #[trigger] self.types().dom().contains(k) ==> k < self.next()
    }

    /// A web without variables.
    pub fn new() -> (w: Web)
        ensures
            w.wf(),
            w.next() == 0,
            w.types() == Map::<usize, Type>::empty(),
    {
        Web { vars: VarGen::new(), map: HashMap::new() }
    }

    /// Add a variable of type `v`; it gets the next number, which no variable had before, so
    /// the web holds one variable more.
    pub fn insert(&mut self, v: Type)
        requires
            old(self).wf(),
            old(self).next() < usize::MAX,
        ensures
            final(self).wf(),
            final(self).next() == old(self).next() + 1,
            !old(self).types().dom().contains(old(self).next()),
            final(self).types() == old(self).types().insert(old(self).next(), v),
            final(self).types().len() == old(self).types().len() + 1,
    {
        let id = self.vars.fresh();
        self.map.insert(id, v);
        proof {
            vstd::std_specs::hash::axiom_hashmap_view_finite_dom(self.map);
        }
    }
}

} // verus!
