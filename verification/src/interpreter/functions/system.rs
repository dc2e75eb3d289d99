//! The program's arguments.
use vstd::prelude::*;
use crate::interpreter::types::{ILitType, Val, vals_of};

verus! {

/// The program's arguments, as an array of strings.
pub fn args(argv: &Vec<String>) -> (r: ILitType)
    ensures
        r@ == Val::Array(Seq::new(argv@.len(), |i: int| Val::Str(argv@[i]@))),
{
    let mut out: Vec<ILitType> = Vec::new();
    let mut i: usize = 0;
    while i < argv.len()
        invariant
            i <= argv@.len(),
            out@.len() == i,
            forall|k: int| 0 <= k < i ==> val_of_is(#[trigger] out@[k], argv@[k]@),
        decreases argv@.len() - i,
    {
        out.push(ILitType::String(argv[i].clone()));
        i += 1;
    }
    let r = ILitType::Array(out);
    assert(vals_of(out) =~= Seq::new(argv@.len(), |i: int| Val::Str(argv@[i]@)));
    r
}

spec fn val_of_is(v: ILitType, s: Seq<char>) -> bool {
    v@ == Val::Str(s)
}

} // verus!
