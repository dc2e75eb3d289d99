//! The IR that the type checker lowers a program to: every variable has a name of its own,
//! every type is known, and nothing of the program text is left but names of functions and
//! variables and string literals.
use vstd::prelude::*;
use crate::typing::types::Type;

pub mod vargen_strategies;
pub mod web;

verus! {

/// A source of fresh variable names.
pub trait VarGenerator: Sized {
    /// A generator that has handed out no name yet.
    fn init() -> Self;

    /// Hand out a fresh name for a variable that the program calls `name`.
    fn fresh(&mut self, name: &str) -> String;
}

/// The number handed out after `id` by a counter that wraps around after `usize::MAX`.
pub open spec fn next_after(id: usize) -> usize {
    if id == usize::MAX {
        0
    } else {
        (id + 1) as usize
    }
}

/// A lowered expression.
#[derive(Debug)]
#[allow(inconsistent_fields)]
pub enum IR {
    FuncLet { name: String, args: Vec<(String, Type)>, internal: bool, ret: Type, body: Box<IR> },
    Grouping {
        inner: Vec<IR>,
        /// Expression and binding name.
        redirect: Option<(Box<IR>, String)>,
    },
    For { bind: String, iter: Box<IR>, body: Box<IR> },
    Let { name: String, ty: Type, value: Box<IR> },
    Match { expr: Box<IR>, arms: Vec<IRMatchArm> },
    FuncCall { name: String, args: Vec<IR>, unwrap: bool },
    Integer(usize),
    String(String),
    Ident(String),
    Array(Vec<IR>),
    Unit,
    Result { ok: Box<IR>, err: Box<IR> },
    Expr(Box<IR>),
    Stmt(Box<IR>),
}

/// One arm of a lowered match: the variable that receives the value, which branch of the result
/// it takes, and the arm's body.
#[derive(Debug)]
pub struct IRMatchArm {
    pub bind: String,
    pub is_ok: bool,
    pub body: Box<IR>,
}

/// The mathematical form of an [`IR`] node: names are character sequences, lists are sequences.
#[allow(inconsistent_fields)]
pub enum IRView {
    FuncLet {
        name: Seq<char>,
        args: Seq<(Seq<char>, Type)>,
        internal: bool,
        ret: Type,
        body: Box<IRView>,
    },
    Grouping { inner: Seq<IRView>, redirect: Option<(Box<IRView>, Seq<char>)> },
    For { bind: Seq<char>, iter: Box<IRView>, body: Box<IRView> },
    Let { name: Seq<char>, ty: Type, value: Box<IRView> },
    Match { expr: Box<IRView>, arms: Seq<ArmView> },
    FuncCall { name: Seq<char>, args: Seq<IRView>, unwrap: bool },
    Integer(usize),
    String(Seq<char>),
    Ident(Seq<char>),
    Array(Seq<IRView>),
    Unit,
    Result { ok: Box<IRView>, err: Box<IRView> },
    Expr(Box<IRView>),
    Stmt(Box<IRView>),
}

/// The mathematical form of an [`IRMatchArm`].
pub struct ArmView {
    pub bind: Seq<char>,
    pub is_ok: bool,
    pub body: IRView,
}

/// The mathematical form of a parameter list: each name as a character sequence.
pub open spec fn params_view(v: Seq<(String, Type)>) -> Seq<(Seq<char>, Type)> {
    v.map_values(|p: (String, Type)| (p.0@, p.1))
}

/// The mathematical form of an IR node.
pub open spec fn ir_view(ir: IR) -> IRView
    decreases ir,
{
    match ir {
        IR::FuncLet { name, args, internal, ret, body } => IRView::FuncLet {
            name: name@,
            args: params_view(args@),
            internal,
            ret,
            body: Box::new(ir_view(*body)),
        },
        IR::Grouping { inner, redirect } => IRView::Grouping {
            inner: irs_view(inner),
            redirect: match redirect {
                Some((e, b)) => Some((Box::new(ir_view(*e)), b@)),
                None => None,
            },
        },
        IR::For { bind, iter, body } => IRView::For {
            bind: bind@,
            iter: Box::new(ir_view(*iter)),
            body: Box::new(ir_view(*body)),
        },
        IR::Let { name, ty, value } => IRView::Let { name: name@, ty, value: Box::new(ir_view(*value)) },
        IR::Match { expr, arms } => IRView::Match {
            expr: Box::new(ir_view(*expr)),
            arms: arms_view(arms),
        },
        IR::FuncCall { name, args, unwrap } => IRView::FuncCall {
            name: name@,
            args: irs_view(args),
            unwrap,
        },
        IR::Integer(n) => IRView::Integer(n),
        IR::String(s) => IRView::String(s@),
        IR::Ident(id) => IRView::Ident(id@),
        IR::Array(elems) => IRView::Array(irs_view(elems)),
        IR::Unit => IRView::Unit,
        IR::Result { ok, err } => IRView::Result {
            ok: Box::new(ir_view(*ok)),
            err: Box::new(ir_view(*err)),
        },
        IR::Expr(e) => IRView::Expr(Box::new(ir_view(*e))),
        IR::Stmt(s) => IRView::Stmt(Box::new(ir_view(*s))),
    }
}

/// The mathematical forms of a list of IR nodes.
pub open spec fn irs_view(v: Vec<IR>) -> Seq<IRView>
    decreases v,
{
    Seq::new(v.len() as nat, |i: int| if 0 <= i < v.len() { ir_view(v[i]) } else { IRView::Unit })
}

/// The mathematical forms of a list of match arms.
pub open spec fn arms_view(v: Vec<IRMatchArm>) -> Seq<ArmView>
    decreases v,
{
    Seq::new(
        v.len() as nat,
        |i: int|
            if 0 <= i < v.len() {
                ArmView { bind: v[i].bind@, is_ok: v[i].is_ok, body: ir_view(*v[i].body) }
            } else {
                ArmView { bind: Seq::empty(), is_ok: false, body: IRView::Unit }
            },
    )
}

impl View for IR {
    type V = IRView;

    open spec fn view(&self) -> IRView {
        ir_view(*self)
    }
}

impl View for IRMatchArm {
    type V = ArmView;

    open spec fn view(&self) -> ArmView {
        ArmView { bind: self.bind@, is_ok: self.is_ok, body: ir_view(*self.body) }
    }
}

/// A copy of a list of IR nodes.
pub fn clone_irs(v: &Vec<IR>) -> (r: Vec<IR>)
    ensures
        irs_view(r) == irs_view(*v),
    decreases *v,
{
    let mut r: Vec<IR> = Vec::new();
    let mut i: usize = 0;
    while i < v.len()
        invariant
            i <= v@.len(),
            r@.len() == i,
            forall|k: int| 0 <= k < i ==> ir_view(#[trigger] r@[k]) == ir_view(v@[k]),
        decreases v@.len() - i,
    {
        assert(decreases_to!(*v => v@[i as int]));
        r.push(v[i].clone());
        i += 1;
    }
    assert(irs_view(r) =~= irs_view(*v));
    r
}

/// A copy of a list of match arms.
pub fn clone_arms(v: &Vec<IRMatchArm>) -> (r: Vec<IRMatchArm>)
    ensures
        arms_view(r) == arms_view(*v),
    decreases *v,
{
    let mut r: Vec<IRMatchArm> = Vec::new();
    let mut i: usize = 0;
    while i < v.len()
        invariant
            i <= v@.len(),
            r@.len() == i,
            forall|k: int|
                0 <= k < i ==> (#[trigger] r@[k]).bind@ == v@[k].bind@ && r@[k].is_ok == v@[k].is_ok
                    && ir_view(*r@[k].body) == ir_view(*v@[k].body),
        decreases v@.len() - i,
    {
        assert(decreases_to!(*v => v@[i as int]));
        assert(decreases_to!(v@[i as int] => v@[i as int].body));
        let body = (*v[i].body).clone();
        r.push(IRMatchArm { bind: v[i].bind.clone(), is_ok: v[i].is_ok, body: Box::new(body) });
        i += 1;
    }
    assert(arms_view(r) =~= arms_view(*v));
    r
}

/// A copy of a parameter list.
pub fn clone_params(v: &Vec<(String, Type)>) -> (r: Vec<(String, Type)>)
    ensures
        params_view(r@) == params_view(v@),
{
    let mut r: Vec<(String, Type)> = Vec::new();
    let mut i: usize = 0;
    while i < v.len()
        invariant
            i <= v@.len(),
            params_view(r@) == params_view(v@.take(i as int)),
        decreases v@.len() - i,
    {
        let ghost before = params_view(r@);
        let name = v[i].0.clone();
        let ty = v[i].1.clone();
        r.push((name, ty));
        assert(params_view(r@) =~= before.push((v@[i as int].0@, v@[i as int].1)));
        assert(params_view(v@.take(i + 1)) =~= params_view(v@.take(i as int)).push((v@[i as int].0@, v@[i as int].1)));
        i += 1;
        assert(params_view(r@) =~= params_view(v@.take(i as int)));
    }
    assert(v@.take(i as int) =~= v@);
    r
}

impl Clone for IR {
    fn clone(&self) -> (r: Self)
        ensures
            r@ == self@,
        decreases *self,
    {
        match self {
            IR::FuncLet { name, args, internal, ret, body } => IR::FuncLet {
                name: name.clone(),
                args: clone_params(args),
                internal: *internal,
                ret: ret.clone(),
                body: Box::new((**body).clone()),
            },
            IR::Grouping { inner, redirect } => IR::Grouping {
                inner: clone_irs(inner),
                redirect: match redirect {
                    Some((e, b)) => Some((Box::new((**e).clone()), b.clone())),
                    None => None,
                },
            },
            IR::For { bind, iter, body } => IR::For {
                bind: bind.clone(),
                iter: Box::new((**iter).clone()),
                body: Box::new((**body).clone()),
            },
            IR::Let { name, ty, value } => IR::Let {
                name: name.clone(),
                ty: ty.clone(),
                value: Box::new((**value).clone()),
            },
            IR::Match { expr, arms } => IR::Match {
                expr: Box::new((**expr).clone()),
                arms: clone_arms(arms),
            },
            IR::FuncCall { name, args, unwrap } => IR::FuncCall {
                name: name.clone(),
                args: clone_irs(args),
                unwrap: *unwrap,
            },
            IR::Integer(n) => IR::Integer(*n),
            IR::String(s) => IR::String(s.clone()),
            IR::Ident(id) => IR::Ident(id.clone()),
            IR::Array(elems) => IR::Array(clone_irs(elems)),
            IR::Unit => IR::Unit,
            IR::Result { ok, err } => IR::Result {
                ok: Box::new((**ok).clone()),
                err: Box::new((**err).clone()),
            },
            IR::Expr(e) => IR::Expr(Box::new((**e).clone())),
            IR::Stmt(s) => IR::Stmt(Box::new((**s).clone())),
        }
    }
}

/// An expression of the lower level that the IR is lowered to.
pub enum StrataExpr {
    Integer(usize),
    String(String),
    Unit,
    Var(usize),
    FuncCall { id: usize, args: Vec<StrataExpr>, ret: Type },
    Let { id: usize, ty: Type, value: Box<StrataExpr>, body: Box<StrataExpr> },
}

} // verus!
