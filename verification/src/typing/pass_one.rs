//! Function signatures, collected before any body is checked, and the errors that checking
//! reports.
use vstd::prelude::*;
use crate::parse::types::{FuncLet, PVal, SourceSpan, FuncArg};
use crate::typing::types::{Type, spec_from_ptype};

verus! {

/// Why a node could not be read as a function definition.
#[derive(Debug, Clone, Copy, PartialEq, Eq, Structural)]
pub enum FuncDefConversionError {
    NotAFuncDef,
}

/// A type error, with the spans of program text that it points at.
#[derive(Debug)]
#[allow(inconsistent_fields)]
pub enum VerifyError {
    /// The body of a function gives back another type than the function declares.
    InvalidReturnType { expected: Type, got: Type, bad_bit: SourceSpan, decl: SourceSpan },
    /// An unwrap `!` or a match on a value that is not a result.
    UnwrapNonResult { bad_bit: SourceSpan },
    /// A value of another type than the place it stands in expects.
    MismatchedType { expected: Type, got: Type, bad_bit: SourceSpan },
    /// Two arms of one match give back values of different types.
    MismatchedMatchArms { expected: Type, got: Type, cur_branch: SourceSpan, prev_branch: SourceSpan },
    /// A loop over a value that is not an array.
    NonIterable { bad_bit: SourceSpan, defined_here: Option<SourceSpan>, got: Type },
    /// The type of an empty array cannot be inferred.
    EmptyArrayInfer,
    /// An array whose elements are not all of one type.
    MismatchedArrayElements { expected: Type, got: Type, bad_bit: SourceSpan },
    /// A call with another number of arguments than the function takes.
    ArgumentLengthMismatch { expected: usize, got: usize, bad_bit: SourceSpan },
    /// An argument of another type than the parameter it is passed to.
    ArgumentTypeMismatch {
        slot: usize,
        expected: Type,
        got: Type,
        bad_bit: SourceSpan,
        defined_here: Option<SourceSpan>,
    },
}

/// The signature of a function: its parameter types and its return type.
#[derive(Debug)]
pub struct FuncDef {
    pub args: Vec<Type>,
    pub ret: Type,
}

/// The mathematical form of a signature.
pub struct FuncDefView {
    pub args: Seq<Type>,
    pub ret: Type,
}

impl View for FuncDef {
    type V = FuncDefView;

    open spec fn view(&self) -> FuncDefView {
        FuncDefView { args: self.args@, ret: self.ret }
    }
}

/// The parameter types of a parameter list, in order.
pub open spec fn param_types(params: Seq<FuncArg>) -> Seq<Type> {
    Seq::new(params.len(), |i: int| spec_from_ptype(params[i].ty))
}

/// The signature that a function definition declares: an omitted return type is `unit`.
pub open spec fn spec_signature(f: FuncLet) -> FuncDefView {
    FuncDefView {
        args: param_types(f.spec_params()),
        ret: match f.spec_ret() {
            Some(t) => spec_from_ptype(t),
            None => Type::Unit,
        },
    }
}

impl FuncDef {
    /// The signature that a function definition declares.
    pub fn from_funclet(f: &FuncLet) -> (d: FuncDef)
        ensures
            d@ == spec_signature(*f),
    {
        let mut args: Vec<Type> = Vec::new();
        match f.args() {
            Some(list) => {
                let params = list.node.as_slice();
                let mut i: usize = 0;
                while i < params.len()
                    invariant
                        i <= params@.len(),
                        params@ == f.spec_params(),
                        args@ == param_types(f.spec_params()).take(i as int),
                    decreases params@.len() - i,
                {
                    args.push(Type::from_ptype(&params[i].ty));
                    i += 1;
                    assert(args@ =~= param_types(f.spec_params()).take(i as int));
                }
                assert(args@ =~= param_types(f.spec_params()));
            },
            None => {
                assert(args@ =~= param_types(f.spec_params()));
            },
        }
        let ret = match f.ret() {
            Some(t) => Type::from_ptype(t),
            None => Type::Unit,
        };
        FuncDef { args, ret }
    }

    /// The signature declared by a node that is a function definition.
    pub fn try_from_pval(v: &PVal) -> (r: Result<FuncDef, FuncDefConversionError>)
        ensures
            match *v {
                PVal::FuncLet(f) => r matches Ok(d) && d@ == spec_signature(f),
                _ => r == Err::<FuncDef, _>(FuncDefConversionError::NotAFuncDef),
            },
    {
        match v {
            PVal::FuncLet(f) => Ok(FuncDef::from_funclet(f)),
            _ => Err(FuncDefConversionError::NotAFuncDef),
        }
    }

    /// Compare two signatures of one function; every pair is accepted.
    pub fn verify(&self, rhs: &Self) -> (r: Result<(), VerifyError>)
        ensures
            r is Ok,
    {
        Ok(())
    }
}

/// The signatures of the functions a program can call, by name.
#[derive(Debug)]
pub struct FuncTable {
    entries: Vec<(String, FuncDef)>,
}

/// The entries of a table, oldest first: a later entry for a name replaces an earlier one.
pub type TableView = Seq<(Seq<char>, FuncDefView)>;

/// The signature that a table holds for `name`: that of its latest entry with that name.
pub open spec fn table_lookup(t: TableView, name: Seq<char>) -> Option<FuncDefView>
    decreases t.len(),
{
    if t.len() == 0 {
        None
    } else if t.last().0 == name {
        Some(t.last().1)
    } else {
        table_lookup(t.drop_last(), name)
    }
}

impl View for FuncTable {
    type V = TableView;

    closed spec fn view(&self) -> TableView {
        Seq::new(self.entries.len() as nat, |i: int| (self.entries[i].0@, self.entries[i].1@))
    }
}

impl FuncTable {
    /// A table without entries.
    pub fn new() -> (t: FuncTable)
        ensures
            t@ == Seq::<(Seq<char>, FuncDefView)>::empty(),
    {
        let t = FuncTable { entries: Vec::new() };
        assert(t@ =~= Seq::<(Seq<char>, FuncDefView)>::empty());
        t
    }

    /// Record the signature of `name`, replacing any earlier one.
    pub fn insert(&mut self, name: &str, def: FuncDef)
        ensures
            final(self)@ == old(self)@.push((name@, def@)),
    {
        let ghost d = def@;
        self.entries.push((String::from_str(name), def));
        assert(self@ =~= old(self)@.push((name@, d)));
    }

    /// The signature of `name`, if the table holds one.
    pub fn lookup(&self, name: &str) -> (r: Option<&FuncDef>)
        ensures
            match r {
                Some(d) => table_lookup(self@, name@) == Some(d@),
                None => table_lookup(self@, name@) is None,
            },
    {
        let key = String::from_str(name);
        let mut i: usize = self.entries.len();
        assert(self@.take(i as int) =~= self@);
        while i > 0
            invariant
                i <= self.entries.len(),
                key@ == name@,
                table_lookup(self@, name@) == table_lookup(self@.take(i as int), name@),
            decreases i,
        {
            let ghost prefix = self@.take(i as int);
            assert(prefix.drop_last() =~= self@.take(i - 1));
            if self.entries[i - 1].0 == key {
                return Some(&self.entries[i - 1].1);
            }
            i -= 1;
        }
        assert(self@.take(0) =~= Seq::<(Seq<char>, FuncDefView)>::empty());
        None
    }

    /// The return type of `name`, if the table holds a signature for it.
    pub fn lookup_ret(&self, name: &str) -> (r: Option<&Type>)
        ensures
            match r {
                Some(t) => table_lookup(self@, name@) matches Some(d) && d.ret == *t,
                None => table_lookup(self@, name@) is None,
            },
    {
        match self.lookup(name) {
            Some(d) => Some(&d.ret),
            None => None,
        }
    }

    /// Add every signature of `rhs`; where both hold one for a name, that of `rhs` wins.
    pub fn extend(&mut self, rhs: Self)
        ensures
            final(self)@ == old(self)@ + rhs@,
    {
        let ghost r = rhs@;
        let mut rest = rhs.entries;
        self.entries.append(&mut rest);
        assert(self@ =~= old(self)@ + r);
    }
}

/// A table answers for a name with the signature of the name's latest entry; other names are
/// answered as before.
pub proof fn lemma_lookup_after_insert(t: TableView, name: Seq<char>, def: FuncDefView, other: Seq<char>)
    ensures
        table_lookup(t.push((name, def)), name) == Some(def),
        other != name ==> table_lookup(t.push((name, def)), other) == table_lookup(t, other),
{
    assert(t.push((name, def)).drop_last() =~= t);
}

/// After `extend`, a name that the added table holds a signature for has that signature, and
/// every other name keeps the one it had.
pub proof fn lemma_lookup_after_extend(a: TableView, b: TableView, name: Seq<char>)
    ensures
        table_lookup(a + b, name) == match table_lookup(b, name) {
            Some(d) => Some(d),
            None => table_lookup(a, name),
        },
    decreases b.len(),
{
    if b.len() == 0 {
        assert(a + b =~= a);
    } else {
        assert((a + b).drop_last() =~= a + b.drop_last());
        assert((a + b).last() == b.last());
        lemma_lookup_after_extend(a, b.drop_last(), name);
    }
}

} // verus!
