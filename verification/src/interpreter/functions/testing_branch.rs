//! A function that picks a result branch, for testing matches.
use vstd::prelude::*;
use crate::interpreter::types::{ILitType, IResultBranch, Val};

verus! {

/// `ok(1)` when `toggle` is 0, `err(1)` otherwise.
pub fn testing_branch(toggle: usize) -> (r: ILitType)
    ensures
        r@ == Val::Result(toggle == 0, Box::new(Val::Integer(1))),
{
    let one = ILitType::Integer(1);
    assert(one@ == Val::Integer(1));
    if toggle == 0 {
        ILitType::Result(IResultBranch::OkBranch(Box::new(one)))
    } else {
        ILitType::Result(IResultBranch::ErrBranch(Box::new(one)))
    }
}

} // verus!
