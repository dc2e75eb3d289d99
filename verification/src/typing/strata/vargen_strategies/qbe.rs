//! Variable names for the QBE back end: a dot and a counter.
use vstd::prelude::*;
use crate::text::{decimal, push_char, push_decimal};
use crate::typing::strata::{VarGenerator, next_after};

verus! {

/// Hands out the names `.0`, `.1`, `.2`, ...
#[derive(Debug)]
pub struct QbeVarGen {
    ct: usize,
}

impl QbeVarGen {
    /// The counter of the next name.
    pub closed spec fn count(&self) -> usize {
        self.ct
    }
}

impl VarGenerator for QbeVarGen {
    fn init() -> (g: QbeVarGen)
        ensures
            g.count() == 0,
    {
        QbeVarGen { ct: 0 }
    }

    /// Hand out the next name; the program's name for the variable is not used. The counter
    /// wraps around after `usize::MAX`.
    fn fresh(&mut self, _name: &str) -> (name: String)
        ensures
            name@ == seq!['.'] + decimal(old(self).count() as nat),
            final(self).count() == next_after(old(self).count()),
    {
        let ct = self.ct;
        let mut ret = String::new();
        push_char(&mut ret, '.');
        push_decimal(&mut ret, ct);
        self.ct = self.ct.wrapping_add(1);
        assert(ret@ =~= seq!['.'] + decimal(ct as nat));
        ret
    }
}

} // verus!
