//! The type checker: checks every node of a program against the typing rules and lowers it to
//! IR.
use vstd::prelude::*;
use crate::parse::types::{
    FuncCall, FuncLet, For, Grouping, Let, Match, PAtomic, PMatchCase, PVal, SourceSpan, Span,
    Spanned, to_source_span,
};
use crate::typing::pass_one::{FuncTable, TableView, VerifyError, table_lookup};
use crate::typing::rules::{
    CheckState, Checked, ErrorView, Outcome, bind_params, chk_arms, chk_args, chk_atomic, chk_elems,
    chk_for, chk_funccall, chk_funclet, chk_grouping, chk_inner, chk_let, chk_match, chk_program,
    chk_stmts, ident_span, st_bind, st_pop, st_push,
};
use crate::typing::scoping::ScopeStack;
use crate::typing::strata::{ArmView, IR, IRMatchArm, IRView, VarGenerator, arms_view, ir_view, irs_view, params_view};
use crate::typing::strata::vargen_strategies::interpreter::VarGenInterpreter;
use crate::typing::types::{Type, types_compatible};

verus! {

/// An error that the checker reports.
#[derive(Debug)]
pub enum TypeCheckError {
    VerifyError(VerifyError),
    /// A call of a function that no signature is known for.
    UnknownFunction { name: String, bad_bit: SourceSpan },
    /// A name that no visible binding has.
    UnknownVariable { name: String, bad_bit: SourceSpan },
}

impl View for TypeCheckError {
    type V = ErrorView;

    open spec fn view(&self) -> ErrorView {
        match *self {
            TypeCheckError::VerifyError(e) => ErrorView::VerifyError(e),
            TypeCheckError::UnknownFunction { name, bad_bit } => ErrorView::UnknownFunction {
                name: name@,
                bad_bit,
            },
            TypeCheckError::UnknownVariable { name, bad_bit } => ErrorView::UnknownVariable {
                name: name@,
                bad_bit,
            },
        }
    }
}

/// Settings that change while the checker descends into a node.
#[derive(Debug, Clone, Copy)]
pub struct Attributes {
    array_homogeneity_required: bool,
}

impl Attributes {
    /// Whether the elements of an array literal must all have the type of the first.
    pub closed spec fn homogeneity_required(self) -> bool {
        self.array_homogeneity_required
    }

    /// Whether the elements of an array literal must all have the type of the first.
    pub fn homo_arrays_allowed(self) -> (b: bool)
        ensures
            b == self.homogeneity_required(),
    {
        self.array_homogeneity_required
    }

    /// Whether the elements of an array literal may have different types.
    pub fn hetero_arrays_allowed(self) -> (b: bool)
        ensures
            b == !self.homogeneity_required(),
    {
        !self.homo_arrays_allowed()
    }
}

impl Default for Attributes {
    /// The elements of an array literal must share a type, but where the literal is passed
    /// for a parameter of type `[any]`.
    fn default() -> (a: Self)
        ensures
            a.homogeneity_required(),
    {
        Attributes { array_homogeneity_required: true }
    }
}

/// A checked node: its type and its IR.
#[derive(Debug)]
pub struct TypeAndIR {
    ty: Type,
    ir: IR,
}

impl View for TypeAndIR {
    type V = (Type, IRView);

    closed spec fn view(&self) -> (Type, IRView) {
        (self.ty, self.ir@)
    }
}

impl TypeAndIR {
    /// A checked node of type `ty` lowered to `ir`.
    pub fn new(ty: Type, ir: IR) -> (t: TypeAndIR)
        ensures
            t@ == (ty, ir@),
    {
        TypeAndIR { ty, ir }
    }

    /// The type.
    pub fn ty(&self) -> (t: &Type)
        ensures
            *t == self@.0,
    {
        &self.ty
    }

    /// The IR.
    pub fn ir(&self) -> (i: &IR)
        ensures
            i@ == self@.1,
    {
        &self.ir
    }

    /// Take the type.
    pub fn into_ty(self) -> (t: Type)
        ensures
            t == self@.0,
    {
        self.ty
    }

    /// Take the IR.
    pub fn into_ir(self) -> (i: IR)
        ensures
            i@ == self@.1,
    {
        self.ir
    }
}

/// What a check reports, given the state it leaves behind.
spec fn outcome(r: Result<TypeAndIR, TypeCheckError>, st: CheckState) -> Outcome {
    match r {
        Ok(t) => Ok(Checked { ty: t.ty, ir: t.ir@, st }),
        Err(e) => Err(e@),
    }
}

/// The views of a list of IR nodes.
pub open spec fn ir_views(v: Seq<IR>) -> Seq<IRView> {
    Seq::new(v.len(), |i: int| v[i]@)
}

/// The views of a list of lowered match arms.
pub open spec fn arm_views(v: Seq<IRMatchArm>) -> Seq<ArmView> {
    Seq::new(v.len(), |i: int| v[i]@)
}

/// The view of the redirect of a grouping.
pub open spec fn redirect_view(r: Option<(Box<IR>, String)>) -> Option<(Box<IRView>, Seq<char>)> {
    match r {
        Some((e, b)) => Some((Box::new(ir_view(*e)), b@)),
        None => None,
    }
}

/// The views of a list of IR nodes, as the view of a node that holds the list gives them.
proof fn lemma_ir_views_guarded(v: Vec<IR>)
    ensures
        ir_views(v@) == irs_view(v),
{
    assert(ir_views(v@) =~= irs_view(v));
}

/// The views of a list of match arms, as the view of a match that holds the list gives them.
proof fn lemma_arm_views_guarded(v: Vec<IRMatchArm>)
    ensures
        arm_views(v@) == arms_view(v),
{
    assert(arm_views(v@) =~= arms_view(v));
}

/// Checks the nodes of a program against the signatures in a function table, and keeps the IR
/// of the last program it checked.
#[derive(Debug)]
pub struct TypeChecker<'a> {
    funcs: &'a FuncTable,
    scopes: ScopeStack,
    file_name: String,
    text: String,
    var_gen: VarGenInterpreter,
    attrs: Attributes,
    ir: Vec<IR>,
}

impl<'a> TypeChecker<'a> {
    /// The state the typing rules speak of.
    pub closed spec fn state(&self) -> CheckState {
        CheckState {
            scopes: self.scopes@,
            used: self.var_gen.used(),
            homo: self.attrs.array_homogeneity_required,
        }
    }

    /// The signatures the checker checks calls against.
    pub closed spec fn table(&self) -> TableView {
        self.funcs@
    }

    /// The IR of the last program checked.
    pub closed spec fn ir_view(&self) -> Seq<IRView> {
        ir_views(self.ir@)
    }

    /// The name of the file the program was read from.
    pub closed spec fn spec_file_name(&self) -> Seq<char> {
        self.file_name@
    }

    /// The program text.
    pub closed spec fn spec_text(&self) -> Seq<char> {
        self.text@
    }

    /// The checker's invariant: the global scope is always there.
    pub closed spec fn inv(&self) -> bool {
        self.scopes@.len() >= 1
    }

    /// A checker that checks calls against `funcs`, for the program text `prog_text` read
    /// from `file_name`. Nothing is bound yet, and no variable name has been handed out.
    pub fn new(funcs: &'a FuncTable, file_name: &str, prog_text: &str) -> (c: Self)
        ensures
            c.inv(),
            c.table() == funcs@,
            c.state() == (CheckState {
                scopes: seq![Seq::empty()],
                used: Seq::empty(),
                homo: true,
            }),
            c.ir_view() == Seq::<IRView>::empty(),
            c.spec_file_name() == file_name@,
            c.spec_text() == prog_text@,
    {
        let c = TypeChecker {
            funcs,
            scopes: ScopeStack::new(),
            file_name: String::from_str(file_name),
            text: String::from_str(prog_text),
            var_gen: VarGenInterpreter::init(),
            attrs: Attributes::default(),
            ir: Vec::new(),
        };
        assert(c.ir_view() =~= Seq::<IRView>::empty());
        c
    }

    /// The name of the file the program was read from.
    pub fn file_name(&self) -> (s: &str)
        ensures
            s@ == self.spec_file_name(),
    {
        self.file_name.as_str()
    }

    /// The program text.
    pub fn text(&self) -> (s: &str)
        ensures
            s@ == self.spec_text(),
    {
        self.text.as_str()
    }

    /// The IR of the last program checked.
    pub fn ir(&self) -> (r: &[IR])
        ensures
            ir_views(r@) == self.ir_view(),
    {
        self.ir.as_slice()
    }

    /// Check a program, node by node; on success keep its IR. The first error stops the check,
    /// and the IR kept before stays.
    #[verifier::loop_isolation(false)]
    pub fn check_program(&mut self, program: &Vec<Spanned<PVal>>) -> (r: Result<(), TypeCheckError>)
        requires
            old(self).inv(),
        ensures
            final(self).inv(),
            final(self).table() == old(self).table(),
            match chk_program(old(self).table(), old(self).state(), program@, Seq::empty()) {
                Ok((irs, st)) => r is Ok && final(self).ir_view() == irs && final(self).state() == st,
                Err(e) => r matches Err(x) && x@ == e && final(self).ir_view() == old(self).ir_view(),
            },
    {
        let ghost st0 = self.state();
        let ghost ft = self.table();
        let mut ir: Vec<IR> = Vec::new();
        let mut i: usize = 0;
        assert(program@.skip(0) =~= program@);
        assert(ir_views(ir@) =~= Seq::<IRView>::empty());
        while i < program.len()
            invariant
                i <= program@.len(),
                self.inv(),
                self.funcs == old(self).funcs,
                self.ir == old(self).ir,
                ft == self.table(),
                chk_program(ft, st0, program@, Seq::empty()) == chk_program(
                    ft,
                    self.state(),
                    program@.skip(i as int),
                    ir_views(ir@),
                ),
            decreases program@.len() - i,
        {
            let ghost rest = program@.skip(i as int);
            assert(rest[0] == program@[i as int]);
            assert(rest.drop_first() =~= program@.skip(i + 1));
            let result = match self.check_inner(&program[i].node, program[i].span) {
                Ok(r) => r,
                Err(e) => {
                    return Err(e);
                },
            };
            let ghost before = ir_views(ir@);
            ir.push(result.ir);
            assert(ir_views(ir@) =~= before.push(ir@.last()@));
            i += 1;
        }
        assert(program@.skip(i as int) =~= Seq::<Spanned<PVal>>::empty());
        self.ir = ir;
        Ok(())
    }

    /// Where the variable that a bare identifier names was bound.
    fn get_span_of_ident(&self, val: &PVal) -> (r: Option<SourceSpan>)
        ensures
            r == ident_span(self.state(), *val),
    {
        match val {
            PVal::Atomic(a) => match &a.node {
                PAtomic::Ident(name) => match self.scopes.get_span(name.node.as_str()) {
                    Some(sp) => Some(to_source_span(*sp)),
                    None => None,
                },
                _ => None,
            },
            _ => None,
        }
    }

    fn check_inner(&mut self, node: &PVal, span: Span) -> (r: Result<TypeAndIR, TypeCheckError>)
        requires
            old(self).inv(),
        ensures
            final(self).inv(),
            final(self).funcs == old(self).funcs,
            final(self).ir == old(self).ir,
            r is Ok ==> final(self).scopes@.len() == old(self).scopes@.len(),
            outcome(r, final(self).state()) == chk_inner(old(self).table(), old(self).state(), *node, span),
        decreases *node,
    {
        match node {
            PVal::FuncLet(f) => self.check_funclet(f),
            PVal::Atomic(a) => self.check_atomic(&a.node),
            PVal::FuncCall(f) => self.check_funccall(f, span),
            PVal::Grouping(g) => self.check_grouping(g),
            PVal::Match(m) => self.check_match(m),
            PVal::For(f) => self.check_for(f),
            PVal::Let(l) => self.check_let(l),
            PVal::Expr(s) => self.check_inner(&s.node, s.span),
            PVal::Stmt(s) => {
                let res = match self.check_inner(&s.node, s.span) {
                    Ok(t) => t,
                    Err(e) => {
                        return Err(e);
                    },
                };
                Ok(TypeAndIR { ty: Type::Unit, ir: IR::Stmt(Box::new(res.ir)) })
            },
        }
    }

    fn check_for(&mut self, f: &For) -> (r: Result<TypeAndIR, TypeCheckError>)
        requires
            old(self).inv(),
        ensures
            final(self).inv(),
            final(self).funcs == old(self).funcs,
            final(self).ir == old(self).ir,
            r is Ok ==> final(self).scopes@.len() == old(self).scopes@.len(),
            outcome(r, final(self).state()) == chk_for(old(self).table(), old(self).state(), *f),
        decreases *f,
    {
        proof {
            f.lemma_parts_decrease();
        }
        let loop_expr = &f.loop_raw().node.expr;
        let iter_res = match self.check_inner(&loop_expr.node, loop_expr.span) {
            Ok(t) => t,
            Err(e) => {
                return Err(e);
            },
        };
        let TypeAndIR { ty: iter_ty, ir: iter_ir } = iter_res;
        let elem_ty = match iter_ty {
            Type::Array(inner) => *inner,
            _ => {
                let defined_here = self.get_span_of_ident(&loop_expr.node);
                return Err(
                    TypeCheckError::VerifyError(
                        VerifyError::NonIterable {
                            bad_bit: loop_expr.as_miette_span(),
                            defined_here,
                            got: iter_ty,
                        },
                    ),
                );
            },
        };
        self.scopes.push();
        let bind_name = &f.loop_raw().node.bind;
        let unique = self.var_gen.fresh(bind_name.node.as_str());
        self.scopes.insert(bind_name.node.as_str(), bind_name.span, elem_ty, unique.clone());
        let body_res = match self.check_inner(&f.body_raw().node, f.body_raw().span) {
            Ok(t) => t,
            Err(e) => {
                return Err(e);
            },
        };
        self.scopes.pop();
        Ok(
            TypeAndIR {
                ty: body_res.ty,
                ir: IR::For { bind: unique, iter: Box::new(iter_ir), body: Box::new(body_res.ir) },
            },
        )
    }

    fn check_let(&mut self, l: &Let) -> (r: Result<TypeAndIR, TypeCheckError>)
        requires
            old(self).inv(),
        ensures
            final(self).inv(),
            final(self).funcs == old(self).funcs,
            final(self).ir == old(self).ir,
            r is Ok ==> final(self).scopes@.len() == old(self).scopes@.len(),
            outcome(r, final(self).state()) == chk_let(old(self).table(), old(self).state(), *l),
        decreases *l,
    {
        proof {
            l.lemma_expr_decreases();
        }
        let e = l.expr_raw();
        let res = match self.check_inner(&e.node, e.span) {
            Ok(t) => t,
            Err(e) => {
                return Err(e);
            },
        };
        let name = l.name_raw();
        let unique = self.var_gen.fresh(name.node.as_str());
        self.scopes.insert(name.node.as_str(), name.span, res.ty.clone(), unique.clone());
        Ok(
            TypeAndIR {
                ty: res.ty.clone(),
                ir: IR::Let { name: unique, ty: res.ty, value: Box::new(res.ir) },
            },
        )
    }

    fn check_funclet(&mut self, f: &FuncLet) -> (r: Result<TypeAndIR, TypeCheckError>)
        requires
            old(self).inv(),
        ensures
            final(self).inv(),
            final(self).funcs == old(self).funcs,
            final(self).ir == old(self).ir,
            r is Ok ==> final(self).scopes@.len() == old(self).scopes@.len(),
            outcome(r, final(self).state()) == chk_funclet(old(self).table(), old(self).state(), *f),
        decreases *f,
    {
        let expected = match f.ret() {
            Some(t) => Type::from_ptype(t),
            None => Type::Unit,
        };
        if f.is_internal() {
            return Ok(TypeAndIR { ty: expected, ir: IR::Unit });
        }
        self.scopes.push();
        let ghost st1 = self.state();
        let mut lowered: Vec<(String, Type)> = Vec::new();
        match f.args() {
            Some(list) => {
                let params = list.node.as_slice();
                let mut i: usize = 0;
                assert(params@.take(0) =~= Seq::<crate::parse::types::FuncArg>::empty());
                while i < params.len()
                    invariant
                        i <= params@.len(),
                        params@ == f.spec_params(),
                        self.inv(),
                        self.scopes@.len() == old(self).scopes@.len() + 1,
                        self.funcs == old(self).funcs,
                        self.ir == old(self).ir,
                        (self.state(), params_view(lowered@)) == bind_params(st1, params@.take(i as int)),
                    decreases params@.len() - i,
                {
                    assert(params@.take(i + 1).drop_last() =~= params@.take(i as int));
                    let unique = self.var_gen.fresh(params[i].name.node.as_str());
                    let ty = Type::from_ptype(&params[i].ty);
                    self.scopes.insert(params[i].name.node.as_str(), params[i].name.span, ty.clone(), unique.clone());
                    let ghost before = params_view(lowered@);
                    lowered.push((unique, ty));
                    assert(params_view(lowered@) =~= before.push((lowered@.last().0@, lowered@.last().1)));
                    i += 1;
                }
                assert(params@.take(i as int) =~= params@);
            },
            None => {
                assert(params_view(lowered@) =~= Seq::<(Seq<char>, Type)>::empty());
            },
        }
        let body = f.body_raw();
        proof {
            f.lemma_body_decreases();
        }
        let got = match self.check_inner(&body.node, body.span) {
            Ok(t) => t,
            Err(e) => {
                return Err(e);
            },
        };
        if !types_compatible(&got.ty, &expected) {
            self.scopes.pop();
            let decl = match f.ret() {
                Some(t) => to_source_span(t.span()),
                None => f.name_raw().as_miette_span(),
            };
            return Err(
                TypeCheckError::VerifyError(
                    VerifyError::InvalidReturnType {
                        expected,
                        got: got.ty,
                        bad_bit: body.as_miette_span(),
                        decl,
                    },
                ),
            );
        }
        self.scopes.pop();
        Ok(
            TypeAndIR {
                ty: expected.clone(),
                ir: IR::FuncLet {
                    name: String::from_str(f.name()),
                    args: lowered,
                    internal: false,
                    ret: expected,
                    body: Box::new(got.ir),
                },
            },
        )
    }

    #[verifier::loop_isolation(false)]
    fn check_grouping(&mut self, g: &Grouping) -> (r: Result<TypeAndIR, TypeCheckError>)
        requires
            old(self).inv(),
        ensures
            final(self).inv(),
            final(self).funcs == old(self).funcs,
            final(self).ir == old(self).ir,
            r is Ok ==> final(self).scopes@.len() == old(self).scopes@.len(),
            outcome(r, final(self).state()) == chk_grouping(old(self).table(), old(self).state(), *g),
        decreases *g,
    {
        let ghost ft = self.table();
        self.scopes.push();
        let redirect_ir: Option<(Box<IR>, String)> = match g.redirect() {
            Some(expr) => {
                proof {
                    g.lemma_redirect_decreases();
                }
                let got = match self.check_inner(&expr.node, expr.span) {
                    Ok(t) => t,
                    Err(e) => {
                        return Err(e);
                    },
                };
                if !types_compatible(&got.ty, &Type::Stream) {
                    return Err(
                        TypeCheckError::VerifyError(
                            VerifyError::MismatchedType {
                                expected: Type::Stream,
                                got: got.ty,
                                bad_bit: expr.as_miette_span(),
                            },
                        ),
                    );
                }
                let unique = self.var_gen.fresh("STREAM");
                self.scopes.insert("STREAM", expr.span, Type::Stream, unique.clone());
                Some((Box::new(got.ir), unique))
            },
            None => None,
        };
        let ghost st2 = self.state();
        let ghost redir_view = redirect_view(redirect_ir);
        assert(chk_grouping(ft, old(self).state(), *g) == match chk_stmts(ft, st2, g.spec_stmts(), Type::Unit, Seq::empty()) {
            Err(x) => Err(x),
            Ok((irs, last_ty, st3)) => Ok(
                Checked {
                    ty: last_ty,
                    ir: IRView::Grouping { inner: irs, redirect: redir_view },
                    st: st_pop(st3),
                },
            ),
        });
        let stmts = g.stmts_raw();
        let mut inner_ir: Vec<IR> = Vec::new();
        let mut last_val_ty = Type::Unit;
        let mut i: usize = 0;
        proof {
            g.lemma_stmt_list_decreases();
        }
        assert(stmts@.skip(0) =~= stmts@);
        assert(ir_views(inner_ir@) =~= Seq::<IRView>::empty());
        while i < stmts.len()
            invariant
                i <= stmts@.len(),
                stmts@ == g.spec_stmts(),
                decreases_to!(*g => stmts@),
                self.inv(),
                self.scopes@.len() == old(self).scopes@.len() + 1,
                self.funcs == old(self).funcs,
                self.ir == old(self).ir,
                ft == self.table(),
                chk_stmts(ft, st2, stmts@, Type::Unit, Seq::empty()) == chk_stmts(
                    ft,
                    self.state(),
                    stmts@.skip(i as int),
                    last_val_ty,
                    ir_views(inner_ir@),
                ),
            decreases stmts@.len() - i,
        {
            let ghost rest = stmts@.skip(i as int);
            assert(rest[0] == stmts@[i as int]);
            assert(rest.drop_first() =~= stmts@.skip(i + 1));
            assert(decreases_to!(stmts@ => stmts@[i as int]));
            assert(decreases_to!(stmts@[i as int] => stmts@[i as int].node));
            let res = match self.check_inner(&stmts[i].node, stmts[i].span) {
                Ok(t) => t,
                Err(e) => {
                    return Err(e);
                },
            };
            let ghost before = ir_views(inner_ir@);
            last_val_ty = res.ty;
            inner_ir.push(res.ir);
            assert(ir_views(inner_ir@) =~= before.push(inner_ir@.last()@));
            i += 1;
        }
        assert(stmts@.skip(i as int) =~= Seq::<Spanned<PVal>>::empty());
        self.scopes.pop();
        proof {
            lemma_ir_views_guarded(inner_ir);
        }
        Ok(TypeAndIR { ty: last_val_ty, ir: IR::Grouping { inner: inner_ir, redirect: redirect_ir } })
    }

    #[verifier::loop_isolation(false)]
    fn check_atomic(&mut self, a: &PAtomic) -> (r: Result<TypeAndIR, TypeCheckError>)
        requires
            old(self).inv(),
        ensures
            final(self).inv(),
            final(self).funcs == old(self).funcs,
            final(self).ir == old(self).ir,
            r is Ok ==> final(self).scopes@.len() == old(self).scopes@.len(),
            outcome(r, final(self).state()) == chk_atomic(old(self).table(), old(self).state(), *a),
        decreases *a,
    {
        let ghost ft = self.table();
        match a {
            PAtomic::Integer(i) => Ok(TypeAndIR { ty: Type::Integer, ir: IR::Integer(i.node) }),
            PAtomic::String(s) => Ok(TypeAndIR { ty: Type::String, ir: IR::String(s.node.clone()) }),
            PAtomic::Array(arr) => {
                let elems = arr.node.node.as_slice();
                if elems.len() == 0 {
                    let v: Vec<IR> = Vec::new();
                    proof {
                        lemma_ir_views_guarded(v);
                    }
                    assert(ir_views(v@) =~= Seq::<IRView>::empty());
                    return Ok(TypeAndIR { ty: Type::Array(Box::new(Type::Any)), ir: IR::Array(v) });
                }
                let hetero = self.attrs.hetero_arrays_allowed();
                assert(decreases_to!(*a => arr.node.node@));
                assert(decreases_to!(arr.node.node@ => elems@[0]));
                let first = match self.check_inner(&elems[0].node, elems[0].span) {
                    Ok(t) => t,
                    Err(e) => {
                        return Err(e);
                    },
                };
                let TypeAndIR { ty: expected, ir: first_ir } = first;
                let ghost st1 = self.state();
                let ghost first_view = first_ir@;
                let mut ir: Vec<IR> = Vec::new();
                ir.push(first_ir);
                assert(ir_views(ir@) =~= seq![first_view]);
                let mut i: usize = 1;
                assert(elems@.skip(1) =~= elems@.drop_first());
                while i < elems.len()
                    invariant
                        1 <= i <= elems@.len(),
                        elems@ == arr.node.node@,
                        decreases_to!(*a => elems@),
                        self.inv(),
                        self.scopes@.len() == old(self).scopes@.len(),
                        self.funcs == old(self).funcs,
                        self.ir == old(self).ir,
                        ft == self.table(),
                        chk_elems(ft, st1, elems@.drop_first(), expected, hetero, seq![first_view])
                            == chk_elems(
                            ft,
                            self.state(),
                            elems@.skip(i as int),
                            expected,
                            hetero,
                            ir_views(ir@),
                        ),
                    decreases elems@.len() - i,
                {
                    let ghost rest = elems@.skip(i as int);
                    assert(rest[0] == elems@[i as int]);
                    assert(rest.drop_first() =~= elems@.skip(i + 1));
                    assert(decreases_to!(elems@ => elems@[i as int]));
                    assert(decreases_to!(elems@[i as int] => elems@[i as int].node));
                    let got = match self.check_inner(&elems[i].node, elems[i].span) {
                        Ok(t) => t,
                        Err(e) => {
                            return Err(e);
                        },
                    };
                    if !hetero && !types_compatible(&got.ty, &expected) {
                        return Err(
                            TypeCheckError::VerifyError(
                                VerifyError::MismatchedArrayElements {
                                    expected,
                                    got: got.ty,
                                    bad_bit: elems[i].as_miette_span(),
                                },
                            ),
                        );
                    }
                    let ghost before = ir_views(ir@);
                    ir.push(got.ir);
                    assert(ir_views(ir@) =~= before.push(ir@.last()@));
                    i += 1;
                }
                assert(elems@.skip(i as int) =~= Seq::<Spanned<PVal>>::empty());
                proof {
                    lemma_ir_views_guarded(ir);
                }
                let ghost views = ir_views(ir@);
                assert(chk_elems(ft, st1, elems@.drop_first(), expected, hetero, seq![first_view]) == Ok::<(Seq<IRView>, CheckState), ErrorView>((views, self.state())));
                let r = TypeAndIR { ty: Type::Array(Box::new(expected)), ir: IR::Array(ir) };
                assert(r.ir@ == IRView::Array(views));
                assert(chk_atomic(ft, old(self).state(), *a) == Ok::<Checked, ErrorView>(Checked { ty: r.ty, ir: IRView::Array(views), st: self.state() }));
                Ok(r)
            },
            PAtomic::Ident(name) => {
                match self.scopes.get_unique_ident(name.node.as_str()) {
                    Some((ty, unique)) => Ok(TypeAndIR { ty, ir: IR::Ident(unique) }),
                    None => Err(
                        TypeCheckError::UnknownVariable {
                            name: name.node.clone(),
                            bad_bit: to_source_span(a.span()),
                        },
                    ),
                }
            },
            PAtomic::Unit(_) => Ok(TypeAndIR { ty: Type::Unit, ir: IR::Unit }),
            PAtomic::Result(pair) => {
                let ok_res = match self.check_atomic(&pair.node.0) {
                    Ok(t) => t,
                    Err(e) => {
                        return Err(e);
                    },
                };
                let err_res = match self.check_atomic(&pair.node.1) {
                    Ok(t) => t,
                    Err(e) => {
                        return Err(e);
                    },
                };
                Ok(
                    TypeAndIR {
                        ty: Type::Result(Box::new(ok_res.ty), Box::new(err_res.ty)),
                        ir: IR::Result { ok: Box::new(ok_res.ir), err: Box::new(err_res.ir) },
                    },
                )
            },
        }
    }

    #[verifier::loop_isolation(false)]
    fn check_funccall(&mut self, f: &FuncCall, span: Span) -> (r: Result<TypeAndIR, TypeCheckError>)
        requires
            old(self).inv(),
        ensures
            final(self).inv(),
            final(self).funcs == old(self).funcs,
            final(self).ir == old(self).ir,
            r is Ok ==> final(self).scopes@.len() == old(self).scopes@.len(),
            outcome(r, final(self).state()) == chk_funccall(old(self).table(), old(self).state(), *f, span),
            ({
                let found = table_lookup(old(self).table(), f.spec_name());
                found is None || f.spec_arg_list().len() != found->Some_0.args.len()
            }) ==> final(self).state() == old(self).state(),
        decreases *f,
    {
        let ghost ft = self.table();
        let ghost st0 = self.state();
        let funcs: &FuncTable = self.funcs;
        let def = match funcs.lookup(f.name()) {
            Some(d) => d,
            None => {
                return Err(
                    TypeCheckError::UnknownFunction {
                        name: String::from_str(f.name()),
                        bad_bit: to_source_span(span),
                    },
                );
            },
        };
        let no_args: Vec<Spanned<PVal>> = Vec::new();
        let args: &[Spanned<PVal>] = match f.args_raw() {
            Some(list) => list.node.as_slice(),
            None => no_args.as_slice(),
        };
        assert(args@ == f.spec_arg_list());
        let got_len = args.len();
        let expected_len = def.args.len();
        if got_len != expected_len {
            return Err(
                TypeCheckError::VerifyError(
                    VerifyError::ArgumentLengthMismatch {
                        expected: expected_len,
                        got: got_len,
                        bad_bit: to_source_span(span),
                    },
                ),
            );
        }
        let mut args_ir: Vec<IR> = Vec::new();
        let mut i: usize = 0;
        assert(args@.skip(0) =~= args@);
        assert(def.args@.skip(0) =~= def.args@);
        assert(ir_views(args_ir@) =~= Seq::<IRView>::empty());
        let ghost whole = match f.spec_args() {
            Some(list) => chk_args(ft, st0, list.node@, def.args@, 0, Seq::empty()),
            None => Ok((Seq::empty(), st0)),
        };
        proof {
            if f.spec_args() is Some {
                f.lemma_arg_list_decreases();
            }
        }
        while i < args.len()
            invariant
                i <= args@.len(),
                args@.len() == def.args@.len(),
                args@ == f.spec_arg_list(),
                f.spec_args() is Some ==> decreases_to!(*f => args@),
                args@.len() > 0 ==> f.spec_args() is Some,
                self.inv(),
                self.scopes@.len() == old(self).scopes@.len(),
                self.funcs == old(self).funcs,
                self.ir == old(self).ir,
                ft == self.table(),
                whole == chk_args(
                    ft,
                    self.state(),
                    args@.skip(i as int),
                    def.args@.skip(i as int),
                    i as nat,
                    ir_views(args_ir@),
                ),
            decreases args@.len() - i,
        {
            let ghost rest = args@.skip(i as int);
            let ghost erest = def.args@.skip(i as int);
            assert(rest[0] == args@[i as int]);
            assert(rest.drop_first() =~= args@.skip(i + 1));
            assert(erest[0] == def.args@[i as int]);
            assert(erest.drop_first() =~= def.args@.skip(i + 1));
            assert(decreases_to!(args@ => args@[i as int]));
            assert(decreases_to!(args@[i as int] => args@[i as int].node));
            let expected = def.args[i].clone();
            let old_homo = self.attrs.array_homogeneity_required;
            if expected.is_any_array() {
                self.attrs.array_homogeneity_required = false;
            }
            let got = match self.check_inner(&args[i].node, args[i].span) {
                Ok(t) => t,
                Err(e) => {
                    return Err(e);
                },
            };
            self.attrs.array_homogeneity_required = old_homo;
            if !expected.is_any() && !types_compatible(&got.ty, &expected) {
                let defined_here = self.get_span_of_ident(&args[i].node);
                return Err(
                    TypeCheckError::VerifyError(
                        VerifyError::ArgumentTypeMismatch {
                            slot: i,
                            expected,
                            got: got.ty,
                            bad_bit: args[i].as_miette_span(),
                            defined_here,
                        },
                    ),
                );
            }
            let ghost before = ir_views(args_ir@);
            args_ir.push(got.ir);
            assert(ir_views(args_ir@) =~= before.push(args_ir@.last()@));
            i += 1;
        }
        assert(args@.skip(i as int) =~= Seq::<Spanned<PVal>>::empty());
        let unwrap = f.has_unwrap();
        let ret_ty = match f.get_unwrap() {
            Some(u) => match def.ret.clone() {
                Type::Result(ok, _) => *ok,
                _ => {
                    return Err(
                        TypeCheckError::VerifyError(
                            VerifyError::UnwrapNonResult { bad_bit: u.as_miette_span() },
                        ),
                    );
                },
            },
            None => def.ret.clone(),
        };
        proof {
            lemma_ir_views_guarded(args_ir);
        }
        Ok(
            TypeAndIR {
                ty: ret_ty,
                ir: IR::FuncCall { name: String::from_str(f.name()), args: args_ir, unwrap },
            },
        )
    }

    #[verifier::loop_isolation(false)]
    fn check_match(&mut self, m: &Match) -> (r: Result<TypeAndIR, TypeCheckError>)
        requires
            old(self).inv(),
        ensures
            final(self).inv(),
            final(self).funcs == old(self).funcs,
            final(self).ir == old(self).ir,
            r is Ok ==> final(self).scopes@.len() == old(self).scopes@.len(),
            outcome(r, final(self).state()) == chk_match(old(self).table(), old(self).state(), *m),
        decreases *m,
    {
        let ghost ft = self.table();
        proof {
            m.lemma_expr_decreases();
            m.lemma_arm_list_decreases();
        }
        let expr_raw = m.expr_raw();
        let expr_res = match self.check_inner(&expr_raw.node, expr_raw.span) {
            Ok(t) => t,
            Err(e) => {
                return Err(e);
            },
        };
        let TypeAndIR { ty: expr_ty, ir: expr_ir } = expr_res;
        let (ok_ty, err_ty) = match expr_ty {
            Type::Result(ok, err) => (*ok, *err),
            _ => {
                return Err(
                    TypeCheckError::VerifyError(
                        VerifyError::UnwrapNonResult { bad_bit: expr_raw.as_miette_span() },
                    ),
                );
            },
        };
        let ghost st1 = self.state();
        let arms = m.arms_raw();
        let mut result_ty: Option<Type> = None;
        let mut last_span: Option<Span> = None;
        let mut arms_ir: Vec<IRMatchArm> = Vec::new();
        let mut i: usize = 0;
        assert(arms@.skip(0) =~= arms@);
        assert(arm_views(arms_ir@) =~= Seq::<ArmView>::empty());
        while i < arms.len()
            invariant
                i <= arms@.len(),
                arms@ == m.spec_arms(),
                decreases_to!(*m => arms@),
                result_ty is Some <==> last_span is Some,
                self.inv(),
                self.scopes@.len() == old(self).scopes@.len(),
                self.funcs == old(self).funcs,
                self.ir == old(self).ir,
                ft == self.table(),
                chk_arms(ft, st1, arms@, ok_ty, err_ty, None, None, Seq::empty()) == chk_arms(
                    ft,
                    self.state(),
                    arms@.skip(i as int),
                    ok_ty,
                    err_ty,
                    result_ty,
                    last_span,
                    arm_views(arms_ir@),
                ),
            decreases arms@.len() - i,
        {
            let ghost rest = arms@.skip(i as int);
            assert(rest[0] == arms@[i as int]);
            assert(rest.drop_first() =~= arms@.skip(i + 1));
            assert(decreases_to!(arms@ => arms@[i as int]));
            assert(decreases_to!(arms@[i as int] => arms@[i as int].node));
            assert(decreases_to!(arms@[i as int].node => arms@[i as int].node.expr));
            assert(decreases_to!(arms@[i as int].node.expr => arms@[i as int].node.expr.node));
            let arm = &arms[i].node;
            self.scopes.push();
            let (bind_ty, is_ok) = match &arm.res {
                PMatchCase::OkBranch(_) => (ok_ty.clone(), true),
                PMatchCase::ErrBranch(_) => (err_ty.clone(), false),
            };
            let unique = self.var_gen.fresh(arm.inner.node.as_str());
            self.scopes.insert(arm.inner.node.as_str(), arm.inner.span, bind_ty, unique.clone());
            let arm_res = match self.check_inner(&arm.expr.node, arm.expr.span) {
                Ok(t) => t,
                Err(e) => {
                    return Err(e);
                },
            };
            self.scopes.pop();
            let TypeAndIR { ty: arm_ty, ir: arm_ir } = arm_res;
            let ghost before = arm_views(arms_ir@);
            arms_ir.push(IRMatchArm { bind: unique, is_ok, body: Box::new(arm_ir) });
            assert(arm_views(arms_ir@) =~= before.push(arms_ir@.last()@));
            match &result_ty {
                Some(got) => {
                    if !types_compatible(got, &arm_ty) {
                        let prev = match last_span {
                            Some(s) => s,
                            None => arm.expr.span,
                        };
                        return Err(
                            TypeCheckError::VerifyError(
                                VerifyError::MismatchedMatchArms {
                                    expected: arm_ty,
                                    got: got.clone(),
                                    cur_branch: to_source_span(arm.expr.span),
                                    prev_branch: to_source_span(prev),
                                },
                            ),
                        );
                    }
                },
                None => {
                    last_span = Some(arm.expr.span);
                    result_ty = Some(arm_ty);
                },
            }
            i += 1;
        }
        assert(arms@.skip(i as int) =~= Seq::<Spanned<crate::parse::types::PMatchArm>>::empty());
        proof {
            lemma_arm_views_guarded(arms_ir);
        }
        let ty = match result_ty {
            Some(t) => t,
            None => Type::Unit,
        };
        Ok(TypeAndIR { ty, ir: IR::Match { expr: Box::new(expr_ir), arms: arms_ir } })
    }
}

} // verus!
