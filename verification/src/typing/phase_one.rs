//! The first phase of checking: the signatures of function definitions, which are all
//! globally scoped.
use vstd::prelude::*;
use crate::parse::types::{FuncArg, PVal, spec_pval_name};
use crate::typing::types::{Type, compatible, spec_from_ptype, types_compatible};

verus! {

/// An error of the first phase.
#[derive(Debug)]
#[allow(inconsistent_fields)]
pub enum PhaseOneError {
    /// A node of another kind than expected.
    InvalidState { expected: &'static str, got: &'static str },
    /// Two signatures of one function with incompatible return types.
    InvalidReturnType { expected: Type, got: Type },
    /// Two signatures of one function with incompatible parameters.
    InvalidArgs { expected: Type, got: Type },
}

/// A function definition's signature, with its name and parameters as written.
#[derive(Debug)]
pub struct FuncDef {
    name: String,
    args: Vec<FuncArg>,
    ret: Type,
}

impl FuncDef {
    /// The function's name.
    pub closed spec fn spec_name(&self) -> Seq<char> {
        self.name@
    }

    /// The parameters, as written.
    pub closed spec fn spec_args(&self) -> Seq<FuncArg> {
        self.args@
    }

    /// The return type (`unit` when none is written).
    pub closed spec fn spec_ret(&self) -> Type {
        self.ret
    }

    /// The signature of a function definition; any other node is refused.
    pub fn from_pval(func: PVal) -> (r: Result<FuncDef, PhaseOneError>)
        ensures
            match func {
                PVal::FuncLet(f) => r matches Ok(d) && d.spec_name() == f.spec_name()
                    && d.spec_args() == f.spec_params() && d.spec_ret() == match f.spec_ret() {
                    Some(t) => spec_from_ptype(t),
                    None => Type::Unit,
                },
                _ => r matches Err(PhaseOneError::InvalidState { expected, got })
                    && expected@ == "FuncLet"@ && got@ == spec_pval_name(func),
            },
    {
        match func {
            PVal::FuncLet(f) => {
                let name = String::from_str(f.name());
                let ret = match f.ret() {
                    Some(t) => Type::from_ptype(t),
                    None => Type::Unit,
                };
                let (args, _) = f.into_args_ret();
                let args = match args {
                    Some(a) => a.node,
                    None => Vec::new(),
                };
                Ok(FuncDef { name, args, ret })
            },
            other => {
                proof {
                    reveal_strlit("FuncLet");
                }
                Err(PhaseOneError::InvalidState { expected: "FuncLet", got: other.into_name() })
            },
        }
    }

    /// Compare this signature with another one of the same function: their return types must
    /// be compatible.
    pub fn verify(&self, rhs: &Self) -> (r: Result<(), PhaseOneError>)
        ensures
            compatible(self.spec_ret(), rhs.spec_ret()) ==> r is Ok,
            !compatible(self.spec_ret(), rhs.spec_ret()) ==> (r matches Err(
                PhaseOneError::InvalidReturnType { expected, got },
            ) && expected == self.spec_ret() && got == rhs.spec_ret()),
    {
        if !types_compatible(&self.ret, &rhs.ret) {
            return Err(
                PhaseOneError::InvalidReturnType { expected: self.ret.clone(), got: rhs.ret.clone() },
            );
        }
        Ok(())
    }
}

} // verus!
