//! Basic arithmetic on integers.
use vstd::prelude::*;
use crate::interpreter::types::{ILitType, Val};

verus! {

/// The larger of two integers.
pub fn max(fst: usize, snd: usize) -> (r: ILitType)
    ensures
        r@ == Val::Integer(if fst >= snd { fst } else { snd }),
{
    ILitType::Integer(if fst >= snd { fst } else { snd })
}

/// The smaller of two integers.
pub fn min(fst: usize, snd: usize) -> (r: ILitType)
    ensures
        r@ == Val::Integer(if fst <= snd { fst } else { snd }),
{
    ILitType::Integer(if fst <= snd { fst } else { snd })
}

/// The sum of two integers; it wraps around past `usize::MAX`.
pub fn add(fst: usize, snd: usize) -> (r: ILitType)
    ensures
        r@ == Val::Integer(
            (if fst + snd > usize::MAX { fst + snd - usize::MAX - 1 } else { fst + snd }) as usize,
        ),
{
    ILitType::Integer(fst.wrapping_add(snd))
}

/// The difference of two integers; it wraps around below 0.
pub fn sub(fst: usize, snd: usize) -> (r: ILitType)
    ensures
        r@ == Val::Integer(
            (if fst >= snd { fst - snd } else { fst - snd + usize::MAX + 1 }) as usize,
        ),
{
    ILitType::Integer(fst.wrapping_sub(snd))
}

} // verus!
