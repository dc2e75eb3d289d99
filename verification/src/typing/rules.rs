//! The typing rules of Diamond, and the IR that each rule lowers its expression to.
//!
//! A rule takes the checker's state (the visible bindings, the variable names handed out, and
//! whether array elements must share one type) and a syntax tree node, and gives either the
//! node's type, its IR and the state after it, or the error the checker reports first.
use vstd::prelude::*;
use crate::parse::types::{
    FuncArg, FuncCall, FuncLet, For, Grouping, Let, Match, PAtomic, PMatchArm, PMatchCase, PVal,
    SourceSpan, Span, Spanned, spec_atomic_span, spec_ptype_span, spec_source_span,
};
use crate::typing::pass_one::{TableView, VerifyError, table_lookup};
use crate::typing::scoping::{BindingView, stack_bind, stack_find};
use crate::typing::strata::{ArmView, IRView};
use crate::typing::strata::vargen_strategies::interpreter::fresh_name;
use crate::typing::types::{Type, compatible, spec_from_ptype, spec_is_any_array};

verus! {

/// The state the checker carries from one node to the next.
pub struct CheckState {
    /// The visible bindings, innermost scope last.
    pub scopes: Seq<Seq<BindingView>>,
    /// The unique variable names handed out so far, in order.
    pub used: Seq<Seq<char>>,
    /// Whether the elements of an array literal must all have the type of the first.
    pub homo: bool,
}

/// What checking a node gives: its type, its IR, and the state after it.
pub struct Checked {
    pub ty: Type,
    pub ir: IRView,
    pub st: CheckState,
}

/// The mathematical form of a checker error.
pub enum ErrorView {
    VerifyError(VerifyError),
    UnknownFunction { name: Seq<char>, bad_bit: SourceSpan },
    UnknownVariable { name: Seq<char>, bad_bit: SourceSpan },
}

/// The outcome of checking a node.
pub type Outcome = Result<Checked, ErrorView>;

/// The state after a new, empty innermost scope is opened.
pub open spec fn st_push(st: CheckState) -> CheckState {
    CheckState { scopes: st.scopes.push(Seq::empty()), ..st }
}

/// The state after the innermost scope is closed.
pub open spec fn st_pop(st: CheckState) -> CheckState {
    CheckState { scopes: st.scopes.drop_last(), ..st }
}

/// The unique name that a variable the program calls `name` gets in the state `st`.
pub open spec fn st_fresh(st: CheckState, name: Seq<char>) -> Seq<char> {
    fresh_name(st.used, name)
}

/// The state after `name` is bound, in the innermost scope, to a fresh variable of type `ty`;
/// the variable's unique name is `st_fresh(st, name)`, which is handed out.
pub open spec fn st_bind(st: CheckState, name: Seq<char>, span: Span, ty: Type) -> CheckState {
    CheckState {
        scopes: stack_bind(st.scopes, BindingView { name, span, ty, id: st_fresh(st, name) }),
        used: st.used.push(st_fresh(st, name)),
        homo: st.homo,
    }
}

/// Where the variable that a bare identifier names was bound, for error messages; nothing for
/// other nodes and for names that are not bound.
pub open spec fn ident_span(st: CheckState, v: PVal) -> Option<SourceSpan> {
    match v {
        PVal::Atomic(a) => match a.node {
            PAtomic::Ident(name) => match stack_find(st.scopes, name.node@) {
                Some(b) => Some(spec_source_span(b.span)),
                None => None,
            },
            _ => None,
        },
        _ => None,
    }
}

/// The type that a function definition declares to return: `unit` when none is written.
pub open spec fn declared_ret(f: FuncLet) -> Type {
    match f.spec_ret() {
        Some(t) => spec_from_ptype(t),
        None => Type::Unit,
    }
}

/// Check a node.
pub open spec fn chk_inner(ft: TableView, st: CheckState, v: PVal, span: Span) -> Outcome
    decreases v,
{
    match v {
        PVal::FuncLet(f) => chk_funclet(ft, st, f),
        PVal::Atomic(a) => chk_atomic(ft, st, a.node),
        PVal::FuncCall(f) => chk_funccall(ft, st, f, span),
        PVal::Grouping(g) => chk_grouping(ft, st, g),
        PVal::Match(m) => chk_match(ft, st, m),
        PVal::For(f) => chk_for(ft, st, f),
        PVal::Let(l) => chk_let(ft, st, l),
        PVal::Expr(s) => chk_inner(ft, st, *s.node, s.span),
        PVal::Stmt(s) => match chk_inner(ft, st, *s.node, s.span) {
            Ok(c) => Ok(Checked { ty: Type::Unit, ir: IRView::Stmt(Box::new(c.ir)), st: c.st }),
            Err(e) => Err(e),
        },
    }
}

/// Check a literal or a name.
pub open spec fn chk_atomic(ft: TableView, st: CheckState, a: PAtomic) -> Outcome
    decreases a,
{
    match a {
        PAtomic::Integer(i) => Ok(Checked { ty: Type::Integer, ir: IRView::Integer(i.node), st }),
        PAtomic::String(s) => Ok(Checked { ty: Type::String, ir: IRView::String(s.node@), st }),
        PAtomic::Array(arr) => {
            let elems = arr.node.node@;
            if elems.len() == 0 {
                Ok(
                    Checked {
                        ty: Type::Array(Box::new(Type::Any)),
                        ir: IRView::Array(Seq::empty()),
                        st,
                    },
                )
            } else {
                proof {
                    assert(decreases_to!(arr.node.node => elems));
                }
                match chk_inner(ft, st, elems[0].node, elems[0].span) {
                    Err(e) => Err(e),
                    Ok(first) => match chk_elems(
                        ft,
                        first.st,
                        elems.drop_first(),
                        first.ty,
                        !st.homo,
                        seq![first.ir],
                    ) {
                        Err(e) => Err(e),
                        Ok((irs, st2)) => Ok(
                            Checked {
                                ty: Type::Array(Box::new(first.ty)),
                                ir: IRView::Array(irs),
                                st: st2,
                            },
                        ),
                    },
                }
            }
        },
        PAtomic::Ident(name) => match stack_find(st.scopes, name.node@) {
            Some(b) => Ok(Checked { ty: b.ty, ir: IRView::Ident(b.id), st }),
            None => Err(
                ErrorView::UnknownVariable {
                    name: name.node@,
                    bad_bit: spec_source_span(spec_atomic_span(a)),
                },
            ),
        },
        PAtomic::Unit(_) => Ok(Checked { ty: Type::Unit, ir: IRView::Unit, st }),
        PAtomic::Result(pair) => match chk_atomic(ft, st, *pair.node.0) {
            Err(e) => Err(e),
            Ok(ok) => match chk_atomic(ft, ok.st, *pair.node.1) {
                Err(e) => Err(e),
                Ok(err) => Ok(
                    Checked {
                        ty: Type::Result(Box::new(ok.ty), Box::new(err.ty)),
                        ir: IRView::Result { ok: Box::new(ok.ir), err: Box::new(err.ir) },
                        st: err.st,
                    },
                ),
            },
        },
    }
}

/// Check the remaining elements of an array literal, whose first element has type `expected`.
pub open spec fn chk_elems(
    ft: TableView,
    st: CheckState,
    s: Seq<Spanned<PVal>>,
    expected: Type,
    hetero: bool,
    acc: Seq<IRView>,
) -> Result<(Seq<IRView>, CheckState), ErrorView>
    decreases s,
{
    if s.len() == 0 {
        Ok((acc, st))
    } else {
        match chk_inner(ft, st, s[0].node, s[0].span) {
            Err(e) => Err(e),
            Ok(c) => if !hetero && !compatible(c.ty, expected) {
                Err(
                    ErrorView::VerifyError(
                        VerifyError::MismatchedArrayElements {
                            expected,
                            got: c.ty,
                            bad_bit: spec_source_span(s[0].span),
                        },
                    ),
                )
            } else {
                chk_elems(ft, c.st, s.drop_first(), expected, hetero, acc.push(c.ir))
            },
        }
    }
}

/// Check a call.
pub open spec fn chk_funccall(ft: TableView, st: CheckState, f: FuncCall, span: Span) -> Outcome
    decreases f,
{
    match table_lookup(ft, f.spec_name()) {
        None => Err(ErrorView::UnknownFunction { name: f.spec_name(), bad_bit: spec_source_span(span) }),
        Some(def) => {
            let args = f.spec_arg_list();
            if args.len() != def.args.len() {
                Err(
                    ErrorView::VerifyError(
                        VerifyError::ArgumentLengthMismatch {
                            expected: def.args.len() as usize,
                            got: args.len() as usize,
                            bad_bit: spec_source_span(span),
                        },
                    ),
                )
            } else {
                let checked_args = match f.spec_args() {
                    Some(a) => {
                        proof {
                            f.lemma_arg_list_decreases();
                        }
                        chk_args(ft, st, a.node@, def.args, 0, Seq::empty())
                    },
                    None => Ok((Seq::empty(), st)),
                };
                match checked_args {
                    Err(e) => Err(e),
                    Ok((irs, st2)) => {
                        let call = IRView::FuncCall {
                            name: f.spec_name(),
                            args: irs,
                            unwrap: f.spec_has_unwrap(),
                        };
                        match f.spec_unwrap() {
                            Some(u) => match def.ret {
                                Type::Result(ok, _) => Ok(Checked { ty: *ok, ir: call, st: st2 }),
                                _ => Err(
                                    ErrorView::VerifyError(
                                        VerifyError::UnwrapNonResult {
                                            bad_bit: spec_source_span(u.span),
                                        },
                                    ),
                                ),
                            },
                            None => Ok(Checked { ty: def.ret, ir: call, st: st2 }),
                        }
                    },
                }
            }
        },
    }
}

/// Check the arguments of a call from position `slot` on, against the parameter types `exp`.
/// While an argument for an `[any]` parameter is checked, array elements need not share a type.
pub open spec fn chk_args(
    ft: TableView,
    st: CheckState,
    s: Seq<Spanned<PVal>>,
    exp: Seq<Type>,
    slot: nat,
    acc: Seq<IRView>,
) -> Result<(Seq<IRView>, CheckState), ErrorView>
    decreases s,
{
    if s.len() == 0 {
        Ok((acc, st))
    } else {
        let expected = exp[0];
        let st1 = if spec_is_any_array(expected) {
            CheckState { homo: false, ..st }
        } else {
            st
        };
        match chk_inner(ft, st1, s[0].node, s[0].span) {
            Err(e) => Err(e),
            Ok(c) => {
                let st2 = CheckState { homo: st.homo, ..c.st };
                if expected != Type::Any && !compatible(c.ty, expected) {
                    Err(
                        ErrorView::VerifyError(
                            VerifyError::ArgumentTypeMismatch {
                                slot: slot as usize,
                                expected,
                                got: c.ty,
                                bad_bit: spec_source_span(s[0].span),
                                defined_here: ident_span(st2, s[0].node),
                            },
                        ),
                    )
                } else {
                    chk_args(ft, st2, s.drop_first(), exp.drop_first(), slot + 1, acc.push(c.ir))
                }
            },
        }
    }
}

/// Bind the parameters of a function definition, in order, to fresh variables; gives the
/// state after it and the unique names and types of the parameters.
pub open spec fn bind_params(st: CheckState, ps: Seq<FuncArg>) -> (CheckState, Seq<(Seq<char>, Type)>)
    decreases ps.len(),
{
    if ps.len() == 0 {
        (st, Seq::empty())
    } else {
        let (st1, lowered) = bind_params(st, ps.drop_last());
        let t = spec_from_ptype(ps.last().ty);
        (st_bind(st1, ps.last().name.node@, ps.last().name.span, t), lowered.push((st_fresh(st1, ps.last().name.node@), t)))
    }
}

/// Check a function definition. An `~internal` one is not checked: its body belongs to the
/// interpreter.
pub open spec fn chk_funclet(ft: TableView, st: CheckState, f: FuncLet) -> Outcome
    decreases f,
{
    let expected = declared_ret(f);
    if f.spec_internal() {
        Ok(Checked { ty: expected, ir: IRView::Unit, st })
    } else {
        let (st2, lowered) = bind_params(st_push(st), f.spec_params());
        let body = f.spec_body();
        proof {
            f.lemma_body_decreases();
        }
        match chk_inner(ft, st2, *body.node, body.span) {
            Err(e) => Err(e),
            Ok(got) => if !compatible(got.ty, expected) {
                Err(
                    ErrorView::VerifyError(
                        VerifyError::InvalidReturnType {
                            expected,
                            got: got.ty,
                            bad_bit: spec_source_span(body.span),
                            decl: match f.spec_ret() {
                                Some(t) => spec_source_span(spec_ptype_span(t)),
                                None => spec_source_span(f.spec_name_raw().span),
                            },
                        },
                    ),
                )
            } else {
                Ok(
                    Checked {
                        ty: expected,
                        ir: IRView::FuncLet {
                            name: f.spec_name(),
                            args: lowered,
                            internal: false,
                            ret: expected,
                            body: Box::new(got.ir),
                        },
                        st: st_pop(got.st),
                    },
                )
            },
        }
    }
}

/// Check a grouping: its redirect, which must be a stream and is bound to `STREAM`, then its
/// statements; it has the type of its last statement, `unit` when it has none.
pub open spec fn chk_grouping(ft: TableView, st: CheckState, g: Grouping) -> Outcome
    decreases g,
{
    let st1 = st_push(st);
    let redirect: Result<(Option<(Box<IRView>, Seq<char>)>, CheckState), ErrorView> = match g.spec_redirect() {
        None => Ok((None, st1)),
        Some(e) => {
            proof {
                g.lemma_redirect_decreases();
            }
            match chk_inner(ft, st1, *e.node, e.span) {
                Err(x) => Err(x),
                Ok(got) => if !compatible(got.ty, Type::Stream) {
                    Err(
                        ErrorView::VerifyError(
                            VerifyError::MismatchedType {
                                expected: Type::Stream,
                                got: got.ty,
                                bad_bit: spec_source_span(e.span),
                            },
                        ),
                    )
                } else {
                    Ok(
                        (
                            Some((Box::new(got.ir), st_fresh(got.st, "STREAM"@))),
                            st_bind(got.st, "STREAM"@, e.span, Type::Stream),
                        ),
                    )
                },
            }
        },
    };
    match redirect {
        Err(x) => Err(x),
        Ok((redir, st2)) => {
            proof {
                g.lemma_stmt_list_decreases();
            }
            match chk_stmts(ft, st2, g.spec_stmts(), Type::Unit, Seq::empty()) {
                Err(x) => Err(x),
                Ok((irs, last_ty, st3)) => Ok(
                    Checked {
                        ty: last_ty,
                        ir: IRView::Grouping { inner: irs, redirect: redir },
                        st: st_pop(st3),
                    },
                ),
            }
        },
    }
}

/// Check statements in order; gives their IR, the type of the last one, and the state after.
pub open spec fn chk_stmts(
    ft: TableView,
    st: CheckState,
    s: Seq<Spanned<PVal>>,
    last: Type,
    acc: Seq<IRView>,
) -> Result<(Seq<IRView>, Type, CheckState), ErrorView>
    decreases s,
{
    if s.len() == 0 {
        Ok((acc, last, st))
    } else {
        match chk_inner(ft, st, s[0].node, s[0].span) {
            Err(e) => Err(e),
            Ok(c) => chk_stmts(ft, c.st, s.drop_first(), c.ty, acc.push(c.ir)),
        }
    }
}

/// Check a match: the matched expression must be a result; every arm binds its value in a
/// scope of its own, and all arms must have compatible types; the match has the type of its
/// first arm, `unit` when it has none.
pub open spec fn chk_match(ft: TableView, st: CheckState, m: Match) -> Outcome
    decreases m,
{
    let e = m.spec_expr();
    proof {
        m.lemma_expr_decreases();
        m.lemma_arm_list_decreases();
    }
    match chk_inner(ft, st, *e.node, e.span) {
        Err(x) => Err(x),
        Ok(er) => match er.ty {
            Type::Result(ok, err) => match chk_arms(ft, er.st, m.spec_arms(), *ok, *err, None, None, Seq::empty()) {
                Err(x) => Err(x),
                Ok((arms, rty, st2)) => Ok(
                    Checked {
                        ty: match rty {
                            Some(t) => t,
                            None => Type::Unit,
                        },
                        ir: IRView::Match { expr: Box::new(er.ir), arms },
                        st: st2,
                    },
                ),
            },
            _ => Err(ErrorView::VerifyError(VerifyError::UnwrapNonResult { bad_bit: spec_source_span(e.span) })),
        },
    }
}

/// Check match arms in order. `first` is the type of the first arm checked so far and `first_span`
/// where its body is.
pub open spec fn chk_arms(
    ft: TableView,
    st: CheckState,
    s: Seq<Spanned<PMatchArm>>,
    ok_ty: Type,
    err_ty: Type,
    first: Option<Type>,
    first_span: Option<Span>,
    acc: Seq<ArmView>,
) -> Result<(Seq<ArmView>, Option<Type>, CheckState), ErrorView>
    decreases s,
{
    if s.len() == 0 {
        Ok((acc, first, st))
    } else {
        let arm = s[0].node;
        let (bind_ty, is_ok) = match arm.res {
            PMatchCase::OkBranch(_) => (ok_ty, true),
            PMatchCase::ErrBranch(_) => (err_ty, false),
        };
        let st1 = st_bind(st_push(st), arm.inner.node@, arm.inner.span, bind_ty);
        proof {
            assert(decreases_to!(s => s[0]));
            assert(decreases_to!(s[0] => s[0].node));
            assert(decreases_to!(s[0].node => s[0].node.expr));
            assert(decreases_to!(s[0].node.expr => s[0].node.expr.node));
        }
        match chk_inner(ft, st1, *arm.expr.node, arm.expr.span) {
            Err(x) => Err(x),
            Ok(c) => {
                let st2 = st_pop(c.st);
                let acc2 = acc.push(ArmView { bind: st_fresh(st_push(st), arm.inner.node@), is_ok, body: c.ir });
                match first {
                    Some(got) => if !compatible(got, c.ty) {
                        Err(
                            ErrorView::VerifyError(
                                VerifyError::MismatchedMatchArms {
                                    expected: c.ty,
                                    got,
                                    cur_branch: spec_source_span(arm.expr.span),
                                    prev_branch: spec_source_span(first_span->0),
                                },
                            ),
                        )
                    } else {
                        chk_arms(ft, st2, s.drop_first(), ok_ty, err_ty, first, first_span, acc2)
                    },
                    None => chk_arms(
                        ft,
                        st2,
                        s.drop_first(),
                        ok_ty,
                        err_ty,
                        Some(c.ty),
                        Some(arm.expr.span),
                        acc2,
                    ),
                }
            },
        }
    }
}

/// Check a loop: the iterated expression must be an array; the bound name has its element
/// type in a scope of its own; the loop has the type of its body.
pub open spec fn chk_for(ft: TableView, st: CheckState, f: For) -> Outcome
    decreases f,
{
    let e = f.spec_loop().node.expr;
    proof {
        f.lemma_parts_decrease();
    }
    match chk_inner(ft, st, *e.node, e.span) {
        Err(x) => Err(x),
        Ok(it) => match it.ty {
            Type::Array(inner) => {
                let b = f.spec_loop().node.bind;
                let st1 = st_bind(st_push(it.st), b.node@, b.span, *inner);
                match chk_inner(ft, st1, *f.spec_body().node, f.spec_body().span) {
                    Err(x) => Err(x),
                    Ok(body) => Ok(
                        Checked {
                            ty: body.ty,
                            ir: IRView::For {
                                bind: st_fresh(st_push(it.st), b.node@),
                                iter: Box::new(it.ir),
                                body: Box::new(body.ir),
                            },
                            st: st_pop(body.st),
                        },
                    ),
                }
            },
            _ => Err(
                ErrorView::VerifyError(
                    VerifyError::NonIterable {
                        bad_bit: spec_source_span(e.span),
                        defined_here: ident_span(it.st, *e.node),
                        got: it.ty,
                    },
                ),
            ),
        },
    }
}

/// Check an assignment: the name is bound after its expression is checked, so the expression
/// sees the binding the name had before.
pub open spec fn chk_let(ft: TableView, st: CheckState, l: Let) -> Outcome
    decreases l,
{
    let e = l.spec_expr();
    proof {
        l.lemma_expr_decreases();
    }
    match chk_inner(ft, st, *e.node, e.span) {
        Err(x) => Err(x),
        Ok(c) => {
            let n = l.spec_name_raw();
            Ok(
                Checked {
                    ty: c.ty,
                    ir: IRView::Let { name: st_fresh(c.st, n.node@), ty: c.ty, value: Box::new(c.ir) },
                    st: st_bind(c.st, n.node@, n.span, c.ty),
                },
            )
        },
    }
}

/// Check the top-level nodes of a program in order; gives their IR and the state after.
pub open spec fn chk_program(
    ft: TableView,
    st: CheckState,
    s: Seq<Spanned<PVal>>,
    acc: Seq<IRView>,
) -> Result<(Seq<IRView>, CheckState), ErrorView>
    decreases s,
{
    if s.len() == 0 {
        Ok((acc, st))
    } else {
        match chk_inner(ft, st, s[0].node, s[0].span) {
            Err(e) => Err(e),
            Ok(c) => chk_program(ft, c.st, s.drop_first(), acc.push(c.ir)),
        }
    }
}

/// The state in which an argument is checked against a parameter of type `expected`: while an
/// argument for an `[any]` parameter is checked, array elements need not share a type.
pub open spec fn arg_entry(st: CheckState, expected: Type) -> CheckState {
    if spec_is_any_array(expected) {
        CheckState { homo: false, ..st }
    } else {
        st
    }
}

/// The state in which the argument at position `k` of `s` is checked, when the ones before it
/// are checked in order from `st` (nothing when one of them fails to check).
pub open spec fn arg_state(ft: TableView, st: CheckState, s: Seq<Spanned<PVal>>, exp: Seq<Type>, k: nat) -> Option<
    CheckState,
>
    decreases k,
{
    if k == 0 {
        Some(st)
    } else {
        match arg_state(ft, st, s, exp, (k - 1) as nat) {
            None => None,
            Some(sk) => match chk_inner(ft, arg_entry(sk, exp[k - 1]), s[k - 1].node, s[k - 1].span) {
                Ok(c) => Some(CheckState { homo: sk.homo, ..c.st }),
                Err(_) => None,
            },
        }
    }
}

/// Whether the argument at position `i` checks, in the state the arguments before it lead to,
/// with a type that fits the parameter type at `i` (or that parameter takes anything).
pub open spec fn arg_fits(ft: TableView, st: CheckState, s: Seq<Spanned<PVal>>, exp: Seq<Type>, i: int) -> bool {
    &&& arg_state(ft, st, s, exp, i as nat) matches Some(si)
    &&& chk_inner(ft, arg_entry(si, exp[i]), s[i].node, s[i].span) matches Ok(c)
    &&& (exp[i] == Type::Any || compatible(c.ty, exp[i]))
}

/// The arguments after the first are checked from the state the first leads to.
proof fn lemma_arg_state_shift(
    ft: TableView,
    st: CheckState,
    s: Seq<Spanned<PVal>>,
    exp: Seq<Type>,
    st2: CheckState,
    k: nat,
)
    requires
        s.len() > 0,
        exp.len() == s.len(),
        (chk_inner(ft, arg_entry(st, exp[0]), s[0].node, s[0].span) matches Ok(c) && st2 == (CheckState {
            homo: st.homo,
            ..c.st
        })),
        k < s.len(),
    ensures
        arg_state(ft, st, s, exp, k + 1) == arg_state(ft, st2, s.drop_first(), exp.drop_first(), k),
    decreases k,
{
    if k == 0 {
        assert(arg_state(ft, st, s, exp, 0) == Some(st));
        assert(arg_state(ft, st2, s.drop_first(), exp.drop_first(), 0) == Some(st2));
    } else {
        lemma_arg_state_shift(ft, st, s, exp, st2, (k - 1) as nat);
        assert(s.drop_first()[k - 1] == s[k as int]);
        assert(exp.drop_first()[k - 1] == exp[k as int]);
        assert(arg_state(ft, st, s, exp, k) == arg_state(ft, st2, s.drop_first(), exp.drop_first(), (k - 1) as nat));
    }
}

/// A successful check of call arguments checked every one of them: each argument, checked in
/// the state the ones before it lead to, has a type that fits its parameter.
pub proof fn lemma_checked_args_fit(
    ft: TableView,
    st: CheckState,
    s: Seq<Spanned<PVal>>,
    exp: Seq<Type>,
    slot: nat,
    acc: Seq<IRView>,
)
    requires
        exp.len() == s.len(),
        (chk_args(ft, st, s, exp, slot, acc) is Ok),
    ensures
        forall|i: int| 0 <= i < s.len() ==> arg_fits(ft, st, s, exp, i),
    decreases s,
{
    if s.len() > 0 {
        let c = chk_inner(ft, arg_entry(st, exp[0]), s[0].node, s[0].span)->Ok_0;
        let st2 = CheckState { homo: st.homo, ..c.st };
        lemma_checked_args_fit(ft, st2, s.drop_first(), exp.drop_first(), slot + 1, acc.push(c.ir));
        assert forall|i: int| 0 <= i < s.len() implies arg_fits(ft, st, s, exp, i) by {
            if i > 0 {
                lemma_arg_state_shift(ft, st, s, exp, st2, (i - 1) as nat);
                assert(s.drop_first()[i - 1] == s[i]);
                assert(exp.drop_first()[i - 1] == exp[i]);
                assert(arg_fits(ft, st2, s.drop_first(), exp.drop_first(), i - 1));
            }
        }
    }
}

/// A call that type checks passes each argument where its function takes it: the function is
/// in the table, the call has as many arguments as it has parameters, and each argument has a
/// type that fits its parameter's type (or the parameter takes anything).
pub proof fn lemma_checked_call_fits(ft: TableView, st: CheckState, f: FuncCall, span: Span)
    requires
        (chk_funccall(ft, st, f, span) is Ok),
    ensures
        (table_lookup(ft, f.spec_name()) matches Some(def) && f.spec_arg_list().len() == def.args.len()
            && forall|i: int|
            0 <= i < def.args.len() ==> arg_fits(ft, st, f.spec_arg_list(), def.args, i)),
{
    let def = table_lookup(ft, f.spec_name())->Some_0;
    match f.spec_args() {
        Some(a) => {
            lemma_checked_args_fit(ft, st, a.node@, def.args, 0, Seq::empty());
        },
        None => {},
    }
}

} // verus!
