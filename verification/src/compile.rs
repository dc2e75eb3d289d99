//! Turning a program text into IR: the text is read, the signatures of its function
//! definitions are collected together with those of the standard library, and the program is
//! type checked against them.
use vstd::prelude::*;
use crate::interpreter::functions::arrays::utf8_len;
use crate::interpreter::stdlib::{spec_stdlib_ir, spec_stdlib_signatures, stdlib_ir, stdlib_signatures};
use crate::parse::grammar::{DIParser, ParseError, program_stop, too_large_message, unreadable_message};
use crate::parse::syntax::{p_program, sp};
use crate::parse::types::{PVal, Span, Spanned, list_v};
use crate::typing::pass_one::TableView;
use crate::typing::pass_two::{TypeCheckError, TypeChecker, ir_views};
use crate::typing::rules::{CheckState, ErrorView, chk_program};
use crate::typing::scoping::{AstWalker, walk_list};
use crate::typing::strata::{IR, IRView};

verus! {

/// Why a program text could not be turned into IR.
#[derive(Debug)]
pub enum CompileError {
    /// The text is not a program.
    Parse(ParseError),
    /// The program does not type check.
    Check(TypeCheckError),
}

/// The signatures a program is checked against: those of its own definitions, then those of
/// the standard library, which win where both have a name.
pub open spec fn compile_table(p: Seq<Spanned<PVal>>) -> TableView {
    walk_list(p) + spec_stdlib_signatures()
}

/// The state the check of a program starts in: one empty scope, no variable named yet, and
/// the elements of array literals required to share a type.
pub open spec fn initial_state() -> CheckState {
    CheckState { scopes: seq![Seq::empty()], used: Seq::empty(), homo: true }
}

/// The IR of a program, or why it does not type check.
pub open spec fn checked(p: Seq<Spanned<PVal>>) -> Result<Seq<IRView>, ErrorView> {
    match chk_program(compile_table(p), initial_state(), p, Seq::empty()) {
        Ok((irs, _)) => Ok(irs),
        Err(e) => Err(e),
    }
}

fn append_irs(r: Vec<IR>, v: &[IR]) -> (out: Vec<IR>)
    ensures
        ir_views(out@) == ir_views(r@) + ir_views(v@),
{
    let ghost start = r@;
    let mut r = r;
    let mut i: usize = 0;
    assert(ir_views(r@) =~= ir_views(start) + ir_views(v@.take(0)));
    while i < v.len()
        invariant
            i <= v@.len(),
            r@.len() == start.len() + i,
            ir_views(r@) == ir_views(start) + ir_views(v@.take(i as int)),
        decreases v@.len() - i,
    {
        let x = v[i].clone();
        assert(x@ == v@[i as int]@);
        let ghost before = r@;
        r.push(x);
        assert(r@ == before.push(x));
        assert forall|k: int| 0 <= k < i + 1 implies #[trigger] ir_views(v@.take(i + 1))[k] == v@[k]@ by {
            assert(ir_views(v@.take(i + 1))[k] == v@.take(i + 1)[k]@);
            if k < i {
                assert(ir_views(v@.take(i as int))[k] == v@.take(i as int)[k]@);
            }
        }
        assert forall|k: int| 0 <= k < r@.len() implies #[trigger] ir_views(r@)[k] == (ir_views(start) + ir_views(v@.take(i + 1)))[k] by {
            assert(ir_views(r@)[k] == r@[k]@);
            if k < start.len() + i {
                assert(r@[k] == before[k]);
                assert(ir_views(before)[k] == before[k]@);
            } else {
                assert(r@[k] == x);
            }
        }
        i += 1;
        assert(ir_views(r@) =~= ir_views(start) + ir_views(v@.take(i as int)));
    }
    assert(v@.take(i as int) =~= v@);
    r
}

/// The IR of the program `string`, read from the file `file`: that of the standard library's
/// functions written in Diamond, then that of the program.
pub fn compile_source(string: &str, file: &str) -> (r: Result<Vec<IR>, CompileError>)
    ensures
        match r {
            Ok(ir) => exists|p: Seq<Spanned<PVal>>|
                p_program(string@) == Some(#[trigger] list_v(p)) && (checked(p) matches Ok(irs)
                    && ir_views(ir@) == spec_stdlib_ir() + irs),
            Err(CompileError::Parse(e)) => utf8_len(string@) > usize::MAX && e.message@ == too_large_message()
                && e.span == Span { start: 0, end: 0 }
                || utf8_len(string@) <= usize::MAX && p_program(string@) is None
                && e.message@ == unreadable_message(file@)
                && e.span == sp(string@, program_stop(string@), program_stop(string@)),
            Err(CompileError::Check(e)) => exists|p: Seq<Spanned<PVal>>|
                p_program(string@) == Some(#[trigger] list_v(p)) && checked(p) == Err::<Seq<IRView>, ErrorView>(e@),
        },
{
    let program = match DIParser::parse_di(string, file) {
        Ok(p) => p,
        Err(e) => return Err(CompileError::Parse(e)),
    };
    let walker = AstWalker::new(&program);
    let mut funcs = walker.collect_function_defs();
    funcs.extend(stdlib_signatures());
    let mut checker = TypeChecker::new(&funcs, file, string);
    match checker.check_program(&program) {
        Ok(()) => {
            let lib = stdlib_ir();
            assert(ir_views(lib@) =~= spec_stdlib_ir());
            let ir = append_irs(lib, checker.ir());
            assert(list_v(program@) == list_v(program@));
            Ok(ir)
        },
        Err(e) => {
            assert(list_v(program@) == list_v(program@));
            Err(CompileError::Check(e))
        },
    }
}

} // verus!
