//! Results, and comparing values.
use vstd::prelude::*;
use crate::interpreter::types::{
    FileHandle, ILitType, IResultBranch, IStreamHandle, Val, val_of, vals_of, stream_view,
};

verus! {

/// `ok(val)`: a result on the ok branch.
pub fn ok(val: &ILitType) -> (r: ILitType)
    ensures
        r@ == Val::Result(true, Box::new(val@)),
{
    let inner = val.clone();
    ILitType::Result(IResultBranch::OkBranch(Box::new(inner)))
}

/// `err(val)`: a result on the error branch.
pub fn err(val: &ILitType) -> (r: ILitType)
    ensures
        r@ == Val::Result(false, Box::new(val@)),
{
    let inner = val.clone();
    ILitType::Result(IResultBranch::ErrBranch(Box::new(inner)))
}

fn strings_equal(a: &String, b: &String) -> (r: bool)
    ensures
        r == (a@ == b@),
{
    *a == *b
}

fn bytes_equal(a: &Vec<u8>, b: &Vec<u8>) -> (r: bool)
    ensures
        r == (a@ == b@),
{
    if a.len() != b.len() {
        return false;
    }
    let mut i: usize = 0;
    while i < a.len()
        invariant
            a@.len() == b@.len(),
            i <= a@.len(),
            forall|k: int| 0 <= k < i ==> a@[k] == b@[k],
        decreases a@.len() - i,
    {
        if a[i] != b[i] {
            return false;
        }
        i += 1;
    }
    assert(a@ =~= b@);
    true
}

fn handles_equal(a: &IStreamHandle, b: &IStreamHandle) -> (r: bool)
    ensures
        r == (stream_view(*a) == stream_view(*b)),
{
    match (a, b) {
        (IStreamHandle::File(x), IStreamHandle::File(y)) => x.id == y.id && strings_equal(
            &x.shown,
            &y.shown,
        ) && strings_equal(&x.debugged, &y.debugged),
        (IStreamHandle::Stdout, IStreamHandle::Stdout) => true,
        (IStreamHandle::Stdin, IStreamHandle::Stdin) => true,
        (IStreamHandle::Buffer(x), IStreamHandle::Buffer(y)) => bytes_equal(x, y),
        _ => false,
    }
}

fn lists_equal(a: &Vec<ILitType>, b: &Vec<ILitType>) -> (r: bool)
    ensures
        r == (vals_of(*a) == vals_of(*b)),
    decreases *a,
{
    if a.len() != b.len() {
        assert(vals_of(*a).len() != vals_of(*b).len());
        return false;
    }
    let mut i: usize = 0;
    while i < a.len()
        invariant
            a@.len() == b@.len(),
            i <= a@.len(),
            forall|k: int| 0 <= k < i ==> val_of(#[trigger] a@[k]) == val_of(b@[k]),
        decreases a@.len() - i,
    {
        assert(decreases_to!(*a => a@[i as int]));
        if !values_equal(&a[i], &b[i]) {
            assert(vals_of(*a)[i as int] != vals_of(*b)[i as int]);
            return false;
        }
        i += 1;
    }
    assert(vals_of(*a) =~= vals_of(*b));
    true
}

/// Whether two values are the same value.
pub fn values_equal(a: &ILitType, b: &ILitType) -> (r: bool)
    ensures
        r == (a@ == b@),
    decreases *a,
{
    match (a, b) {
        (ILitType::Integer(x), ILitType::Integer(y)) => *x == *y,
        (ILitType::String(x), ILitType::String(y)) => strings_equal(x, y),
        (ILitType::Unit, ILitType::Unit) => true,
        (
            ILitType::Result(IResultBranch::OkBranch(x)),
            ILitType::Result(IResultBranch::OkBranch(y)),
        ) => values_equal(x, y),
        (
            ILitType::Result(IResultBranch::ErrBranch(x)),
            ILitType::Result(IResultBranch::ErrBranch(y)),
        ) => values_equal(x, y),
        (ILitType::Array(x), ILitType::Array(y)) => lists_equal(x, y),
        (ILitType::Stream(x), ILitType::Stream(y)) => handles_equal(x, y),
        (ILitType::File(x), ILitType::File(y)) => strings_equal(x, y),
        _ => false,
    }
}

/// `eq(lhs, rhs)`: `ok(())` when the two values are the same, `err(())` otherwise.
pub fn eq(lhs: &ILitType, rhs: &ILitType) -> (r: ILitType)
    ensures
        r@ == Val::Result(lhs@ == rhs@, Box::new(Val::Unit)),
{
    let inner = ILitType::Unit;
    assert(inner@ == Val::Unit);
    if values_equal(lhs, rhs) {
        ILitType::Result(IResultBranch::OkBranch(Box::new(inner)))
    } else {
        ILitType::Result(IResultBranch::ErrBranch(Box::new(inner)))
    }
}

} // verus!
