//! What the interpreter promises of printing and of variables: `printf` prints exactly the text
//! that `sprintf` gives and answers with its length in bytes, and an assignment gives the value
//! assigned, which a read of the variable right after gives back.
use vstd::prelude::*;
use crate::interpreter::engine::{Env, Machine, bind_args, call_builtin, ev, ev_call, ev_list, get_var, set_var};
use crate::interpreter::stdlib::{RtView, func_lookup};
use crate::interpreter::functions::arrays::utf8_len;
use crate::interpreter::stdlib::Builtin;
use crate::interpreter::types::Val;
use crate::typing::strata::IRView;
use crate::typing::types::Type;

verus! {

/// `printf` prints what `sprintf` gives: for the same format `f` and arguments `args`, where
/// `sprintf` gives the text `t`, `printf` adds `t` to the output and leaves the rest of the
/// state as `sprintf` does, and answers with the length of `t` in bytes when that fits in an
/// integer; where `sprintf` stops, `printf` stops in the same way.
pub proof fn lemma_printf_prints_sprintf(env: Env, m: Machine, name: Seq<char>, f: Seq<char>, args: Seq<Val>)
    ensures
        ({
            let a = seq![Val::Str(f), Val::Array(args)];
            let (ms, rs) = call_builtin(env, m, name, Builtin::Sprintf, a);
            let (mp, rp) = call_builtin(env, m, name, Builtin::Printf, a);
            match rs {
                Ok(Val::Str(t)) => {
                    &&& mp == (Machine { output: ms.output.push(t), ..ms })
                    &&& utf8_len(t) <= usize::MAX ==> rp == Ok::<Val, crate::interpreter::engine::StopView>(
                        Val::Integer(utf8_len(t) as usize),
                    )
                },
                _ => mp == ms && rp == rs,
            }
        }),
{
}

/// A variable that was just set reads as the value it was set to, whatever it held before.
pub proof fn lemma_read_after_set(m: Machine, name: Seq<char>, v: Val)
    ensures
        get_var(set_var(m, name, v), name) == Some(v),
{
}

/// An assignment gives the value its expression gives, and reading the variable right after
/// gives that value back; where the expression stops, so does the assignment.
pub proof fn lemma_assignment_reads_back(env: Env, m: Machine, name: Seq<char>, ty: Type, value: IRView, depth: nat)
    ensures
        ({
            let (mv, rv) = ev(env, m, value, depth);
            let (ml, rl) = ev(env, m, IRView::Let { name, ty, value: Box::new(value) }, depth);
            match rv {
                Ok(v) => rl == rv && ev(env, ml, IRView::Ident(name), depth) == (ml, rl),
                Err(_) => ml == mv && rl == rv,
            }
        }),
{
    let (mv, rv) = ev(env, m, value, depth);
    if rv is Ok {
        lemma_read_after_set(mv, name, rv->Ok_0);
    }
}

/// Parameters are bound in order: after the parameters `params` are set to the argument
/// values `vals`, the `i`-th parameter reads the `i`-th value, provided no later parameter
/// has the same name.
pub proof fn lemma_params_read_their_arguments(
    m: Machine,
    params: Seq<(Seq<char>, Type)>,
    vals: Seq<Val>,
    i: int,
)
    requires
        0 <= i < params.len(),
        i < vals.len(),
        forall|k: int| i < k < params.len() ==> #[trigger] params[k].0 != params[i].0,
    ensures
        get_var(bind_args(m, params, vals), params[i].0) == Some(vals[i]),
    decreases params.len(),
{
    let last = params.len() - 1;
    let inner = bind_args(m, params.drop_last(), vals);
    if i < last {
        assert(params.drop_last()[i] == params[i]);
        assert forall|k: int| i < k < params.drop_last().len() implies #[trigger] params.drop_last()[k].0
            != params.drop_last()[i].0 by {
            assert(params.drop_last()[k] == params[k]);
        }
        lemma_params_read_their_arguments(m, params.drop_last(), vals, i);
        assert(params[last].0 != params[i].0);
        let v = if last < vals.len() { vals[last] } else { Val::Unit };
        let after = set_var(inner, params[last].0, v);
        assert(after.frames.drop_last() =~= inner.frames);
    }
}

/// A call of a program's function binds its parameters to the argument values in order: when
/// the function's body reads its `i`-th parameter, the call gives the value of the `i`-th
/// argument (the parameters having distinct names, and the call one level of nesting to go).
pub proof fn lemma_call_reads_its_arguments(
    env: Env,
    m: Machine,
    name: Seq<char>,
    args: Seq<IRView>,
    depth: nat,
    i: int,
)
    requires
        depth > 0,
        func_lookup(m.funcs, name) matches Some(RtView::User(u)) && 0 <= i < u.args.len()
            && u.body == IRView::Ident(u.args[i].0)
            && (forall|k: int| i < k < u.args.len() ==> #[trigger] u.args[k].0 != u.args[i].0),
        ev_list(env, m, args, depth, Seq::empty()).1 matches Ok(vals) && i < vals.len(),
    ensures
        ev_call(env, m, name, args, false, depth).1 == Ok::<Val, crate::interpreter::engine::StopView>(
            ev_list(env, m, args, depth, Seq::empty()).1->Ok_0[i],
        ),
{
    let u = func_lookup(m.funcs, name)->Some_0->User_0;
    let (m1, r) = ev_list(env, m, args, depth, Seq::empty());
    let vals = r->Ok_0;
    lemma_params_read_their_arguments(m1, u.args, vals, i);
}

} // verus!
