//! Why the host may run a program again from the start with more answers: a run only adds
//! to what was printed, uses the answers in order, and stops for an answer only when it has
//! used all it was given; and a run given more answers does what a run given fewer did, up to
//! the point where that one stopped for an answer.
use vstd::prelude::*;
use crate::interpreter::engine::{
    Env, Machine, Step, StopView, answer, bind_args, call_builtin, ev, ev_arms, ev_call, ev_for,
    ev_list, ev_program, ev_seq, fit, format_text, print, render, set_var, with_frames,
};
use crate::interpreter::functions::printf::PieceView;
use crate::interpreter::stdlib::{Builtin, RtView, func_lookup};
use crate::interpreter::types::Val;
use crate::typing::strata::{ArmView, IRView};

verus! {

/// Whether `a` is a prefix of `b`.
pub open spec fn is_prefix<T>(a: Seq<T>, b: Seq<T>) -> bool {
    a.len() <= b.len() && b.take(a.len() as int) == a
}

/// Whether `b` came from `a` by running on: what was printed stays printed, and answers are
/// only used up.
pub open spec fn grows(a: Machine, b: Machine) -> bool {
    is_prefix(a.output, b.output) && a.cursor <= b.cursor
}

/// Whether a state has used no more answers than there are.
pub open spec fn within(env: Env, m: Machine) -> bool {
    m.cursor <= env.answers.len()
}

/// Whether a run stopped for an answer.
pub open spec fn waits<T>(r: Result<T, StopView>) -> bool {
    r matches Err(StopView::Wait(_))
}

/// What a step from `m` may do: grow the state, keep within the answers, and stop for an
/// answer only when it has used them all.
pub open spec fn steps_ok<T>(env: Env, m: Machine, s: (Machine, Result<T, StopView>)) -> bool {
    &&& grows(m, s.0)
    &&& within(env, s.0)
    &&& (waits(s.1) ==> s.0.cursor == env.answers.len())
}

proof fn lemma_grows_trans(a: Machine, b: Machine, c: Machine)
    requires
        grows(a, b),
        grows(b, c),
    ensures
        grows(a, c),
{
    assert(c.output.take(a.output.len() as int) =~= c.output.take(b.output.len() as int).take(a.output.len() as int));
}

proof fn lemma_grows_refl(a: Machine)
    ensures
        grows(a, a),
{
    assert(a.output.take(a.output.len() as int) =~= a.output);
}

proof fn lemma_print_grows(m: Machine, t: Seq<char>)
    ensures
        grows(m, print(m, t)),
{
    assert(print(m, t).output.take(m.output.len() as int) =~= m.output);
}

proof fn lemma_answer_ok(env: Env, m: Machine, req: crate::interpreter::engine::RequestView)
    requires
        within(env, m),
    ensures
        steps_ok(env, m, answer(env, m, req)),
{
    lemma_grows_refl(m);
}

proof fn lemma_render_ok(env: Env, m: Machine, p: Seq<PieceView>, acc: Seq<char>)
    requires
        within(env, m),
    ensures
        steps_ok(env, m, render(env, m, p, acc)),
    decreases p.len(),
{
    lemma_grows_refl(m);
    if p.len() > 0 {
        match p[0] {
            PieceView::Text(t) => {
                lemma_render_ok(env, m, p.drop_first(), acc + t);
            },
            PieceView::Float(i) => {
                let (m2, r) = answer(env, m, crate::interpreter::engine::RequestView::FormatFloat(i));
                lemma_answer_ok(env, m, crate::interpreter::engine::RequestView::FormatFloat(i));
                match r {
                    Ok(v) => {
                        let rest = acc + match v {
                            Val::Str(s) => s,
                            _ => Seq::empty(),
                        };
                        lemma_render_ok(env, m2, p.drop_first(), rest);
                        lemma_grows_trans(m, m2, render(env, m2, p.drop_first(), rest).0);
                    },
                    Err(_) => {},
                }
            },
        }
    }
}

proof fn lemma_format_ok(env: Env, m: Machine, f: Seq<char>, args: Seq<Val>)
    requires
        within(env, m),
    ensures
        steps_ok(env, m, format_text(env, m, f, args)),
{
    lemma_grows_refl(m);
    lemma_render_ok(env, m, crate::interpreter::functions::printf::spec_sprintf(f, args), Seq::empty());
}

proof fn lemma_builtin_ok(env: Env, m: Machine, name: Seq<char>, b: Builtin, a: Seq<Val>)
    requires
        within(env, m),
    ensures
        steps_ok(env, m, call_builtin(env, m, name, b, a)),
{
    lemma_grows_refl(m);
    match b {
        Builtin::DumpVar => {
            lemma_print_grows(m, crate::interpreter::types::debug_rep(a[0]) + seq!['\n']);
        },
        Builtin::Puts => {
            if a.len() == 1 && a[0] is Str {
                lemma_print_grows(m, a[0]->Str_0);
            }
        },
        Builtin::Sprintf | Builtin::Printf => {
            if a.len() == 2 && a[0] is Str && a[1] is Array {
                let (m2, r) = format_text(env, m, a[0]->Str_0, a[1]->Array_0);
                lemma_format_ok(env, m, a[0]->Str_0, a[1]->Array_0);
                match r {
                    Ok(t) => {
                        lemma_print_grows(m2, t);
                        lemma_grows_trans(m, m2, print(m2, t));
                    },
                    Err(_) => {},
                }
            }
        },
        Builtin::Panic => {
            if a.len() == 1 && a[0] is Str {
                lemma_format_ok(env, m, a[0]->Str_0, Seq::empty());
            }
        },
        Builtin::Len => {
            if a.len() == 1 {
                match a[0] {
                    Val::Stream(h) => lemma_answer_ok(env, m, crate::interpreter::engine::RequestView::StreamLen(h)),
                    _ => {},
                }
            }
        },
        Builtin::Create => {
            if a.len() == 1 && a[0] is File {
                lemma_answer_ok(env, m, crate::interpreter::engine::RequestView::Create(a[0]->File_0));
            }
        },
        Builtin::Open => {
            if a.len() == 1 && a[0] is File {
                lemma_answer_ok(env, m, crate::interpreter::engine::RequestView::Open(a[0]->File_0));
            }
        },
        Builtin::Dump => {
            if a.len() == 2 && a[0] is Stream && a[1] is Str {
                lemma_answer_ok(env, m, crate::interpreter::engine::RequestView::Dump(a[0]->Stream_0, a[1]->Str_0));
            }
        },
        Builtin::Lines => {
            if a.len() == 1 && a[0] is Stream {
                lemma_answer_ok(env, m, crate::interpreter::engine::RequestView::Lines(a[0]->Stream_0));
            }
        },
        Builtin::Skip => {
            if !(a.len() == 2 && a[0] is Array && a[1] is Integer) && a.len() == 2 && a[0] is Stream
                && a[1] is Integer {
                lemma_answer_ok(env, m, crate::interpreter::engine::RequestView::Lines(a[0]->Stream_0));
            }
        },
        _ => {},
    }
}


proof fn lemma_bind_args_keeps(m: Machine, params: Seq<(Seq<char>, crate::typing::types::Type)>, vals: Seq<Val>)
    ensures
        bind_args(m, params, vals).output == m.output,
        bind_args(m, params, vals).cursor == m.cursor,
    decreases params.len(),
{
    if params.len() > 0 {
        lemma_bind_args_keeps(m, params.drop_last(), vals);
    }
}

proof fn lemma_ev_ok(env: Env, m: Machine, ir: IRView, depth: nat)
    requires
        within(env, m),
    ensures
        steps_ok(env, m, ev(env, m, ir, depth)),
    decreases depth, ir, 0nat,
{
    lemma_grows_refl(m);
    match ir {
        IRView::FuncLet { .. } => {},
        IRView::Grouping { inner, redirect } => {
            let (m1, r) = match redirect {
                Some((e, bind)) => {
                    let (m0, r0) = ev(env, m, *e, depth);
                    lemma_ev_ok(env, m, *e, depth);
                    match r0 {
                        Ok(v) => (set_var(m0, bind, v), Ok(Val::Unit)),
                        Err(s) => (m0, Err(s)),
                    }
                },
                None => (m, Ok(Val::Unit)),
            };
            match r {
                Err(s) => {},
                Ok(_) => {
                    lemma_seq_ok(env, m1, inner, depth, Val::Unit);
                    lemma_grows_trans(m, m1, ev_seq(env, m1, inner, depth, Val::Unit).0);
                },
            }
        },
        IRView::For { bind, iter, body } => {
            let (m1, r) = ev(env, m, *iter, depth);
            lemma_ev_ok(env, m, *iter, depth);
            match r {
                Ok(Val::Array(elems)) => {
                    lemma_for_ok(env, m1, bind, elems, *body, depth, Val::Unit);
                    lemma_grows_trans(m, m1, ev_for(env, m1, bind, elems, *body, depth, Val::Unit).0);
                },
                _ => {},
            }
        },
        IRView::Let { name, ty, value } => {
            lemma_ev_ok(env, m, *value, depth);
        },
        IRView::Match { expr, arms } => {
            let (m1, r) = ev(env, m, *expr, depth);
            lemma_ev_ok(env, m, *expr, depth);
            match r {
                Ok(Val::Result(is_ok, v)) => {
                    lemma_arms_ok(env, m1, arms, is_ok, *v, depth);
                    lemma_grows_trans(m, m1, ev_arms(env, m1, arms, is_ok, *v, depth).0);
                },
                _ => {},
            }
        },
        IRView::FuncCall { name, args, unwrap } => {
            lemma_call_ok(env, m, name, args, unwrap, depth);
        },
        IRView::Array(elems) => {
            lemma_list_ok(env, m, elems, depth, Seq::empty());
        },
        IRView::Expr(e) => {
            lemma_ev_ok(env, m, *e, depth);
        },
        IRView::Stmt(e) => {
            lemma_ev_ok(env, m, *e, depth);
        },
        _ => {},
    }
}

proof fn lemma_seq_ok(env: Env, m: Machine, s: Seq<IRView>, depth: nat, last: Val)
    requires
        within(env, m),
    ensures
        steps_ok(env, m, ev_seq(env, m, s, depth, last)),
    decreases depth, s, 0nat,
{
    lemma_grows_refl(m);
    if s.len() > 0 {
        let (m1, r) = ev(env, m, s[0], depth);
        lemma_ev_ok(env, m, s[0], depth);
        match r {
            Err(e) => {},
            Ok(v) => {
                lemma_seq_ok(env, m1, s.drop_first(), depth, v);
                lemma_grows_trans(m, m1, ev_seq(env, m1, s.drop_first(), depth, v).0);
            },
        }
    }
}

proof fn lemma_list_ok(env: Env, m: Machine, s: Seq<IRView>, depth: nat, acc: Seq<Val>)
    requires
        within(env, m),
    ensures
        steps_ok(env, m, ev_list(env, m, s, depth, acc)),
    decreases depth, s, 0nat,
{
    lemma_grows_refl(m);
    if s.len() > 0 {
        let (m1, r) = ev(env, m, s[0], depth);
        lemma_ev_ok(env, m, s[0], depth);
        match r {
            Err(e) => {},
            Ok(v) => {
                lemma_list_ok(env, m1, s.drop_first(), depth, acc.push(v));
                lemma_grows_trans(m, m1, ev_list(env, m1, s.drop_first(), depth, acc.push(v)).0);
            },
        }
    }
}

proof fn lemma_for_ok(env: Env, m: Machine, bind: Seq<char>, elems: Seq<Val>, body: IRView, depth: nat, last: Val)
    requires
        within(env, m),
    ensures
        steps_ok(env, m, ev_for(env, m, bind, elems, body, depth, last)),
    decreases depth, body, elems.len(),
{
    lemma_grows_refl(m);
    if elems.len() > 0 {
        let m0 = set_var(m, bind, elems[0]);
        let (m1, r) = ev(env, m0, body, depth);
        lemma_ev_ok(env, m0, body, depth);
        let m2 = with_frames(m1, m.frames);
        match r {
            Err(e) => {},
            Ok(v) => {
                lemma_for_ok(env, m2, bind, elems.drop_first(), body, depth, v);
                lemma_grows_trans(m, m2, ev_for(env, m2, bind, elems.drop_first(), body, depth, v).0);
            },
        }
    }
}

proof fn lemma_arms_ok(env: Env, m: Machine, arms: Seq<ArmView>, is_ok: bool, v: Val, depth: nat)
    requires
        within(env, m),
    ensures
        steps_ok(env, m, ev_arms(env, m, arms, is_ok, v, depth)),
    decreases depth, arms, 0nat,
{
    lemma_grows_refl(m);
    if arms.len() > 0 {
        if arms[0].is_ok == is_ok {
            lemma_ev_ok(env, set_var(m, arms[0].bind, v), arms[0].body, depth);
        } else {
            lemma_arms_ok(env, m, arms.drop_first(), is_ok, v, depth);
        }
    }
}

proof fn lemma_call_ok(env: Env, m: Machine, name: Seq<char>, args: Seq<IRView>, unwrap: bool, depth: nat)
    requires
        within(env, m),
    ensures
        steps_ok(env, m, ev_call(env, m, name, args, unwrap, depth)),
        func_lookup(m.funcs, name) is Some && ev_list(env, m, args, depth, Seq::empty()).1 is Ok ==> grows(
            ev_list(env, m, args, depth, Seq::empty()).0,
            ev_call(env, m, name, args, unwrap, depth).0,
        ),
    decreases depth, args, 1nat,
{
    lemma_grows_refl(m);
    match func_lookup(m.funcs, name) {
        None => {},
        Some(f) => {
            let (m1, r) = ev_list(env, m, args, depth, Seq::empty());
            lemma_list_ok(env, m, args, depth, Seq::empty());
            match r {
                Err(s) => {},
                Ok(vals) => {
                    let (m2, ret) = match f {
                        RtView::Internal(b) => call_builtin(env, m1, name, b, vals),
                        RtView::User(u) => if depth == 0 {
                            (m1, Err(StopView::Depth))
                        } else {
                            let (mb, rb) = ev(env, bind_args(m1, u.args, vals), u.body, (depth - 1) as nat);
                            (with_frames(mb, m1.frames), rb)
                        },
                    };
                    match f {
                        RtView::Internal(b) => {
                            lemma_builtin_ok(env, m1, name, b, vals);
                        },
                        RtView::User(u) => {
                            lemma_grows_refl(m1);
                            if depth > 0 {
                                let mba = bind_args(m1, u.args, vals);
                                lemma_bind_args_keeps(m1, u.args, vals);
                                lemma_grows_refl(mba);
                                lemma_ev_ok(env, mba, u.body, (depth - 1) as nat);
                                lemma_grows_trans(m1, mba, ev(env, mba, u.body, (depth - 1) as nat).0);
                            }
                        },
                    }
                    lemma_grows_trans(m, m1, m2);
                    match ret {
                        Err(s) => {},
                        Ok(v) => if unwrap {
                            match v {
                                Val::Result(false, inner) => if crate::interpreter::types::printable(*inner) {
                                    let t = crate::interpreter::types::string_rep(*inner);
                                    lemma_format_ok(env, m2, t, Seq::empty());
                                    lemma_grows_trans(m, m2, format_text(env, m2, t, Seq::empty()).0);
                                    lemma_grows_trans(m1, m2, format_text(env, m2, t, Seq::empty()).0);
                                },
                                _ => {},
                            }
                        },
                    }
                },
            }
        },
    }
}


/// Whether `e2` gives a run what `e1` gives and more: the same arguments, and the answers of
/// `e1` followed by others.
pub open spec fn extends(e1: Env, e2: Env) -> bool {
    e1.argv == e2.argv && is_prefix(e1.answers, e2.answers)
}

/// Whether the step `s2`, taken with more answers, agrees with `s1`: it is the same step,
/// unless `s1` stopped for an answer; then `s2` printed what `s1` printed, and maybe more.
pub open spec fn agrees<T>(s1: (Machine, Result<T, StopView>), s2: (Machine, Result<T, StopView>)) -> bool {
    if waits(s1.1) {
        is_prefix(s1.0.output, s2.0.output)
    } else {
        s1 == s2
    }
}

proof fn lemma_prefix_grows(a: Machine, b: Machine, c: Machine)
    requires
        is_prefix(a.output, b.output),
        grows(b, c),
    ensures
        is_prefix(a.output, c.output),
{
    assert(c.output.take(a.output.len() as int) =~= c.output.take(b.output.len() as int).take(a.output.len() as int));
}

proof fn lemma_answer_agrees(e1: Env, e2: Env, m: Machine, req: crate::interpreter::engine::RequestView)
    requires
        extends(e1, e2),
        within(e1, m),
    ensures
        agrees(answer(e1, m, req), answer(e2, m, req)),
{
    lemma_grows_refl(m);
    if m.cursor < e1.answers.len() {
        assert(e2.answers[m.cursor as int] == e2.answers.take(e1.answers.len() as int)[m.cursor as int]);
    }
}

proof fn lemma_render_agrees(e1: Env, e2: Env, m: Machine, p: Seq<PieceView>, acc: Seq<char>)
    requires
        extends(e1, e2),
        within(e1, m),
    ensures
        agrees(render(e1, m, p, acc), render(e2, m, p, acc)),
    decreases p.len(),
{
    lemma_grows_refl(m);
    if p.len() > 0 {
        match p[0] {
            PieceView::Text(t) => {
                lemma_render_agrees(e1, e2, m, p.drop_first(), acc + t);
            },
            PieceView::Float(i) => {
                let req = crate::interpreter::engine::RequestView::FormatFloat(i);
                let (m1, r1) = answer(e1, m, req);
                let (m2, r2) = answer(e2, m, req);
                lemma_answer_agrees(e1, e2, m, req);
                lemma_answer_ok(e1, m, req);
                if waits(r1) {
                    lemma_answer_ok(e2, m, req);
                    match r2 {
                        Ok(v) => {
                            let rest = acc + match v {
                                Val::Str(s) => s,
                                _ => Seq::empty(),
                            };
                            lemma_render_ok(e2, m2, p.drop_first(), rest);
                            lemma_prefix_grows(m1, m2, render(e2, m2, p.drop_first(), rest).0);
                        },
                        Err(_) => {},
                    }
                } else {
                    match r1 {
                        Ok(v) => {
                            let rest = acc + match v {
                                Val::Str(s) => s,
                                _ => Seq::empty(),
                            };
                            lemma_render_agrees(e1, e2, m1, p.drop_first(), rest);
                        },
                        Err(_) => {},
                    }
                }
            },
        }
    }
}

proof fn lemma_format_agrees(e1: Env, e2: Env, m: Machine, f: Seq<char>, args: Seq<Val>)
    requires
        extends(e1, e2),
        within(e1, m),
    ensures
        agrees(format_text(e1, m, f, args), format_text(e2, m, f, args)),
{
    lemma_render_agrees(e1, e2, m, crate::interpreter::functions::printf::spec_sprintf(f, args), Seq::empty());
}

proof fn lemma_builtin_agrees(e1: Env, e2: Env, m: Machine, name: Seq<char>, b: Builtin, a: Seq<Val>)
    requires
        extends(e1, e2),
        within(e1, m),
    ensures
        agrees(call_builtin(e1, m, name, b, a), call_builtin(e2, m, name, b, a)),
{
    lemma_grows_refl(m);
    match b {
        Builtin::Sprintf | Builtin::Printf => {
            if a.len() == 2 && a[0] is Str && a[1] is Array {
                let f = a[0]->Str_0;
                let xs = a[1]->Array_0;
                let (m1, r1) = format_text(e1, m, f, xs);
                let (m2, r2) = format_text(e2, m, f, xs);
                lemma_format_agrees(e1, e2, m, f, xs);
                if waits(r1) {
                    match r2 {
                        Ok(t) => {
                            lemma_print_grows(m2, t);
                            lemma_prefix_grows(m1, m2, print(m2, t));
                        },
                        Err(_) => {},
                    }
                }
            }
        },
        Builtin::Panic => {
            if a.len() == 1 && a[0] is Str {
                lemma_format_agrees(e1, e2, m, a[0]->Str_0, Seq::empty());
            }
        },
        Builtin::Len => {
            if a.len() == 1 {
                match a[0] {
                    Val::Stream(h) => lemma_answer_agrees(e1, e2, m, crate::interpreter::engine::RequestView::StreamLen(h)),
                    _ => {},
                }
            }
        },
        Builtin::Create => {
            if a.len() == 1 && a[0] is File {
                lemma_answer_agrees(e1, e2, m, crate::interpreter::engine::RequestView::Create(a[0]->File_0));
            }
        },
        Builtin::Open => {
            if a.len() == 1 && a[0] is File {
                lemma_answer_agrees(e1, e2, m, crate::interpreter::engine::RequestView::Open(a[0]->File_0));
            }
        },
        Builtin::Dump => {
            if a.len() == 2 && a[0] is Stream && a[1] is Str {
                lemma_answer_agrees(e1, e2, m, crate::interpreter::engine::RequestView::Dump(a[0]->Stream_0, a[1]->Str_0));
            }
        },
        Builtin::Lines => {
            if a.len() == 1 && a[0] is Stream {
                lemma_answer_agrees(e1, e2, m, crate::interpreter::engine::RequestView::Lines(a[0]->Stream_0));
            }
        },
        Builtin::Skip => {
            if !(a.len() == 2 && a[0] is Array && a[1] is Integer) && a.len() == 2 && a[0] is Stream
                && a[1] is Integer {
                lemma_answer_agrees(e1, e2, m, crate::interpreter::engine::RequestView::Lines(a[0]->Stream_0));
            }
        },
        _ => {},
    }
}


proof fn lemma_ev_agrees(e1: Env, e2: Env, m: Machine, ir: IRView, depth: nat)
    requires
        extends(e1, e2),
        within(e1, m),
    ensures
        agrees(ev(e1, m, ir, depth), ev(e2, m, ir, depth)),
    decreases depth, ir, 0nat,
{
    lemma_grows_refl(m);
    match ir {
        IRView::Grouping { inner, redirect } => {
            match redirect {
                Some((e, bind)) => {
                    let (a1, q1) = ev(e1, m, *e, depth);
                    let (a2, q2) = ev(e2, m, *e, depth);
                    lemma_ev_agrees(e1, e2, m, *e, depth);
                    lemma_ev_ok(e1, m, *e, depth);
                    lemma_ev_ok(e2, m, *e, depth);
                    if waits(q1) {
                        match q2 {
                            Ok(v) => {
                                let b2 = set_var(a2, bind, v);
                                lemma_grows_refl(a2);
                                lemma_seq_ok(e2, b2, inner, depth, Val::Unit);
                                lemma_prefix_grows(a1, b2, ev_seq(e2, b2, inner, depth, Val::Unit).0);
                            },
                            Err(_) => {},
                        }
                    } else {
                        match q1 {
                            Ok(v) => {
                                lemma_seq_agrees(e1, e2, set_var(a1, bind, v), inner, depth, Val::Unit);
                            },
                            Err(_) => {},
                        }
                    }
                },
                None => {
                    lemma_seq_agrees(e1, e2, m, inner, depth, Val::Unit);
                },
            }
        },
        IRView::For { bind, iter, body } => {
            let (a1, q1) = ev(e1, m, *iter, depth);
            let (a2, q2) = ev(e2, m, *iter, depth);
            lemma_ev_agrees(e1, e2, m, *iter, depth);
            lemma_ev_ok(e1, m, *iter, depth);
            lemma_ev_ok(e2, m, *iter, depth);
            if waits(q1) {
                match q2 {
                    Ok(Val::Array(elems)) => {
                        lemma_for_ok(e2, a2, bind, elems, *body, depth, Val::Unit);
                        lemma_prefix_grows(a1, a2, ev_for(e2, a2, bind, elems, *body, depth, Val::Unit).0);
                    },
                    _ => {},
                }
            } else {
                match q1 {
                    Ok(Val::Array(elems)) => {
                        lemma_for_agrees(e1, e2, a1, bind, elems, *body, depth, Val::Unit);
                    },
                    _ => {},
                }
            }
        },
        IRView::Let { name, ty, value } => {
            lemma_ev_agrees(e1, e2, m, *value, depth);
        },
        IRView::Match { expr, arms } => {
            let (a1, q1) = ev(e1, m, *expr, depth);
            let (a2, q2) = ev(e2, m, *expr, depth);
            lemma_ev_agrees(e1, e2, m, *expr, depth);
            lemma_ev_ok(e1, m, *expr, depth);
            lemma_ev_ok(e2, m, *expr, depth);
            if waits(q1) {
                match q2 {
                    Ok(Val::Result(is_ok, v)) => {
                        lemma_arms_ok(e2, a2, arms, is_ok, *v, depth);
                        lemma_prefix_grows(a1, a2, ev_arms(e2, a2, arms, is_ok, *v, depth).0);
                    },
                    _ => {},
                }
            } else {
                match q1 {
                    Ok(Val::Result(is_ok, v)) => {
                        lemma_arms_agrees(e1, e2, a1, arms, is_ok, *v, depth);
                    },
                    _ => {},
                }
            }
        },
        IRView::FuncCall { name, args, unwrap } => {
            lemma_call_agrees(e1, e2, m, name, args, unwrap, depth);
        },
        IRView::Array(elems) => {
            lemma_list_agrees(e1, e2, m, elems, depth, Seq::empty());
        },
        IRView::Expr(e) => {
            lemma_ev_agrees(e1, e2, m, *e, depth);
        },
        IRView::Stmt(e) => {
            lemma_ev_agrees(e1, e2, m, *e, depth);
        },
        _ => {},
    }
}

proof fn lemma_seq_agrees(e1: Env, e2: Env, m: Machine, s: Seq<IRView>, depth: nat, last: Val)
    requires
        extends(e1, e2),
        within(e1, m),
    ensures
        agrees(ev_seq(e1, m, s, depth, last), ev_seq(e2, m, s, depth, last)),
    decreases depth, s, 0nat,
{
    lemma_grows_refl(m);
    if s.len() > 0 {
        let (a1, q1) = ev(e1, m, s[0], depth);
        let (a2, q2) = ev(e2, m, s[0], depth);
        lemma_ev_agrees(e1, e2, m, s[0], depth);
        lemma_ev_ok(e1, m, s[0], depth);
        lemma_ev_ok(e2, m, s[0], depth);
        if waits(q1) {
            match q2 {
                Ok(v) => {
                    lemma_seq_ok(e2, a2, s.drop_first(), depth, v);
                    lemma_prefix_grows(a1, a2, ev_seq(e2, a2, s.drop_first(), depth, v).0);
                },
                Err(_) => {},
            }
        } else {
            match q1 {
                Ok(v) => {
                    lemma_seq_agrees(e1, e2, a1, s.drop_first(), depth, v);
                },
                Err(_) => {},
            }
        }
    }
}

proof fn lemma_list_agrees(e1: Env, e2: Env, m: Machine, s: Seq<IRView>, depth: nat, acc: Seq<Val>)
    requires
        extends(e1, e2),
        within(e1, m),
    ensures
        agrees(ev_list(e1, m, s, depth, acc), ev_list(e2, m, s, depth, acc)),
    decreases depth, s, 0nat,
{
    lemma_grows_refl(m);
    if s.len() > 0 {
        let (a1, q1) = ev(e1, m, s[0], depth);
        let (a2, q2) = ev(e2, m, s[0], depth);
        lemma_ev_agrees(e1, e2, m, s[0], depth);
        lemma_ev_ok(e1, m, s[0], depth);
        lemma_ev_ok(e2, m, s[0], depth);
        if waits(q1) {
            match q2 {
                Ok(v) => {
                    lemma_list_ok(e2, a2, s.drop_first(), depth, acc.push(v));
                    lemma_prefix_grows(a1, a2, ev_list(e2, a2, s.drop_first(), depth, acc.push(v)).0);
                },
                Err(_) => {},
            }
        } else {
            match q1 {
                Ok(v) => {
                    lemma_list_agrees(e1, e2, a1, s.drop_first(), depth, acc.push(v));
                },
                Err(_) => {},
            }
        }
    }
}

proof fn lemma_for_agrees(e1: Env, e2: Env, m: Machine, bind: Seq<char>, elems: Seq<Val>, body: IRView, depth: nat, last: Val)
    requires
        extends(e1, e2),
        within(e1, m),
    ensures
        agrees(ev_for(e1, m, bind, elems, body, depth, last), ev_for(e2, m, bind, elems, body, depth, last)),
    decreases depth, body, elems.len(),
{
    lemma_grows_refl(m);
    if elems.len() > 0 {
        let m0 = set_var(m, bind, elems[0]);
        let (a1, q1) = ev(e1, m0, body, depth);
        let (a2, q2) = ev(e2, m0, body, depth);
        lemma_ev_agrees(e1, e2, m0, body, depth);
        lemma_ev_ok(e1, m0, body, depth);
        lemma_ev_ok(e2, m0, body, depth);
        let b1 = with_frames(a1, m.frames);
        let b2 = with_frames(a2, m.frames);
        if waits(q1) {
            match q2 {
                Ok(v) => {
                    lemma_for_ok(e2, b2, bind, elems.drop_first(), body, depth, v);
                    lemma_prefix_grows(b1, b2, ev_for(e2, b2, bind, elems.drop_first(), body, depth, v).0);
                },
                Err(_) => {},
            }
        } else {
            match q1 {
                Ok(v) => {
                    lemma_for_agrees(e1, e2, b1, bind, elems.drop_first(), body, depth, v);
                },
                Err(_) => {},
            }
        }
    }
}

proof fn lemma_arms_agrees(e1: Env, e2: Env, m: Machine, arms: Seq<ArmView>, is_ok: bool, v: Val, depth: nat)
    requires
        extends(e1, e2),
        within(e1, m),
    ensures
        agrees(ev_arms(e1, m, arms, is_ok, v, depth), ev_arms(e2, m, arms, is_ok, v, depth)),
    decreases depth, arms, 0nat,
{
    if arms.len() > 0 {
        if arms[0].is_ok == is_ok {
            lemma_ev_agrees(e1, e2, set_var(m, arms[0].bind, v), arms[0].body, depth);
        } else {
            lemma_arms_agrees(e1, e2, m, arms.drop_first(), is_ok, v, depth);
        }
    }
}

proof fn lemma_call_agrees(e1: Env, e2: Env, m: Machine, name: Seq<char>, args: Seq<IRView>, unwrap: bool, depth: nat)
    requires
        extends(e1, e2),
        within(e1, m),
    ensures
        agrees(ev_call(e1, m, name, args, unwrap, depth), ev_call(e2, m, name, args, unwrap, depth)),
    decreases depth, args, 1nat,
{
    lemma_grows_refl(m);
    match func_lookup(m.funcs, name) {
        None => {},
        Some(f) => {
            let (a1, q1) = ev_list(e1, m, args, depth, Seq::empty());
            let (a2, q2) = ev_list(e2, m, args, depth, Seq::empty());
            lemma_list_agrees(e1, e2, m, args, depth, Seq::empty());
            lemma_list_ok(e1, m, args, depth, Seq::empty());
            lemma_list_ok(e2, m, args, depth, Seq::empty());
            lemma_call_ok(e2, m, name, args, unwrap, depth);
            if waits(q1) {
                match q2 {
                    Ok(vals) => {
                        lemma_prefix_grows(a1, a2, ev_call(e2, m, name, args, unwrap, depth).0);
                    },
                    Err(_) => {},
                }
            } else {
                match q1 {
                    Ok(vals) => {
                        let (c1, w1) = match f {
                            RtView::Internal(b) => call_builtin(e1, a1, name, b, vals),
                            RtView::User(u) => if depth == 0 {
                                (a1, Err(StopView::Depth))
                            } else {
                                let (mb, rb) = ev(e1, bind_args(a1, u.args, vals), u.body, (depth - 1) as nat);
                                (with_frames(mb, a1.frames), rb)
                            },
                        };
                        let (c2, w2) = match f {
                            RtView::Internal(b) => call_builtin(e2, a1, name, b, vals),
                            RtView::User(u) => if depth == 0 {
                                (a1, Err(StopView::Depth))
                            } else {
                                let (mb, rb) = ev(e2, bind_args(a1, u.args, vals), u.body, (depth - 1) as nat);
                                (with_frames(mb, a1.frames), rb)
                            },
                        };
                        match f {
                            RtView::Internal(b) => {
                                lemma_builtin_agrees(e1, e2, a1, name, b, vals);
                                lemma_builtin_ok(e1, a1, name, b, vals);
                                lemma_builtin_ok(e2, a1, name, b, vals);
                            },
                            RtView::User(u) => {
                                if depth > 0 {
                                    let mba = bind_args(a1, u.args, vals);
                                    lemma_bind_args_keeps(a1, u.args, vals);
                                    lemma_ev_agrees(e1, e2, mba, u.body, (depth - 1) as nat);
                                    lemma_ev_ok(e1, mba, u.body, (depth - 1) as nat);
                                    lemma_ev_ok(e2, mba, u.body, (depth - 1) as nat);
                                }
                            },
                        }
                        if waits(w1) {
                            match w2 {
                                Ok(v) => if unwrap {
                                    match v {
                                        Val::Result(false, inner) => if crate::interpreter::types::printable(*inner) {
                                            let t = crate::interpreter::types::string_rep(*inner);
                                            lemma_format_ok(e2, c2, t, Seq::empty());
                                            lemma_prefix_grows(c1, c2, format_text(e2, c2, t, Seq::empty()).0);
                                        },
                                        _ => {},
                                    }
                                },
                                Err(_) => {},
                            }
                        } else {
                            match w1 {
                                Ok(v) => if unwrap {
                                    match v {
                                        Val::Result(false, inner) => if crate::interpreter::types::printable(*inner) {
                                            let t = crate::interpreter::types::string_rep(*inner);
                                            lemma_format_agrees(e1, e2, c1, t, Seq::empty());
                                        },
                                        _ => {},
                                    }
                                },
                                Err(_) => {},
                            }
                        }
                    },
                    Err(_) => {},
                }
            }
        },
    }
}


/// A run of a program never takes back what it printed, uses the answers in order, and stops
/// for an answer only when it has used all it was given. A run given more answers (the same
/// ones first) does exactly what a run given fewer did when that one did not stop for an
/// answer; when it did, the run with more answers prints what it printed, and maybe more. So a
/// host may answer the request a run stopped at and run the program again from the start.
pub proof fn lemma_replay(e1: Env, e2: Env, m: Machine, s: Seq<IRView>, depth: nat)
    requires
        extends(e1, e2),
        within(e1, m),
    ensures
        steps_ok(e1, m, ev_program(e1, m, s, depth)),
        agrees(ev_program(e1, m, s, depth), ev_program(e2, m, s, depth)),
    decreases s.len(),
{
    lemma_grows_refl(m);
    if s.len() > 0 {
        let (a1, q1) = ev(e1, m, s[0], depth);
        let (a2, q2) = ev(e2, m, s[0], depth);
        lemma_ev_agrees(e1, e2, m, s[0], depth);
        lemma_ev_ok(e1, m, s[0], depth);
        lemma_ev_ok(e2, m, s[0], depth);
        if waits(q1) {
            match q2 {
                Ok(_) => {
                    lemma_program_ok(e2, a2, s.drop_first(), depth);
                    lemma_prefix_grows(a1, a2, ev_program(e2, a2, s.drop_first(), depth).0);
                },
                Err(_) => {},
            }
        } else {
            match q1 {
                Ok(_) => {
                    lemma_replay(e1, e2, a1, s.drop_first(), depth);
                    lemma_grows_trans(m, a1, ev_program(e1, a1, s.drop_first(), depth).0);
                },
                Err(_) => {},
            }
        }
    }
}

proof fn lemma_program_ok(env: Env, m: Machine, s: Seq<IRView>, depth: nat)
    requires
        within(env, m),
    ensures
        steps_ok(env, m, ev_program(env, m, s, depth)),
    decreases s.len(),
{
    lemma_grows_refl(m);
    if s.len() > 0 {
        let (a, q) = ev(env, m, s[0], depth);
        lemma_ev_ok(env, m, s[0], depth);
        match q {
            Ok(_) => {
                lemma_program_ok(env, a, s.drop_first(), depth);
                lemma_grows_trans(m, a, ev_program(env, a, s.drop_first(), depth).0);
            },
            Err(_) => {},
        }
    }
}

} // verus!
