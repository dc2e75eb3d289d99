//! Syntax tree nodes. Every node carries the span of program text that it was parsed from, so
//! that the type checker can point at the offending text.
use vstd::prelude::*;

verus! {

/// A range of byte offsets `[start, end)` into the program text.
#[derive(Clone, Copy, Debug, PartialEq, Eq, Structural)]
pub struct Span {
    pub start: usize,
    pub end: usize,
}

impl Span {
    /// A span from `start` up to (not including) `end`.
    pub fn new(start: usize, end: usize) -> (s: Span)
        ensures
            s.start == start,
            s.end == end,
    {
        Span { start, end }
    }
}

/// A span given as its first offset and its length, as diagnostics report it.
#[derive(Clone, Copy, Debug, PartialEq, Eq, Structural)]
pub struct SourceSpan {
    pub offset: usize,
    pub len: usize,
}

/// The diagnostic form of a span: its start, and its length (zero for a span that ends before
/// it starts).
pub open spec fn spec_source_span(s: Span) -> SourceSpan {
    SourceSpan {
        offset: s.start,
        len: if s.end >= s.start { (s.end - s.start) as usize } else { 0 },
    }
}

/// Convert a span to its diagnostic form.
pub fn to_source_span(s: Span) -> (r: SourceSpan)
    ensures
        r == spec_source_span(s),
{
    SourceSpan { offset: s.start, len: if s.end >= s.start { s.end - s.start } else { 0 } }
}

/// A `T` together with the span of program text it came from.
#[derive(Debug)]
pub struct Spanned<T> {
    /// The `T` value.
    pub node: T,
    /// A span.
    pub span: Span,
}

/// A boxed [`PVal`] with a span.
pub type BPVal = Spanned<Box<PVal>>;

/// A [`Spanned`] list of [`PVal`]s.
pub type BPArr = Spanned<Vec<Spanned<PVal>>>;

/// A [`Spanned`] [`PVal`].
pub type SpannedPVal = Spanned<PVal>;

/// A [`Spanned`] string.
pub type SpannedStr = Spanned<String>;

impl<T> Spanned<T> {
    /// Create a new spanned object.
    pub fn new(node: T, span: Span) -> (s: Self)
        ensures
            s.node == node,
            s.span == span,
    {
        Spanned { node, span }
    }

    /// Consume the span and get the inner `T`.
    pub fn into_inner(self) -> (t: T)
        ensures
            t == self.node,
    {
        self.node
    }

    /// [`Box`] the inner `T`.
    pub fn into_boxed(self) -> (b: Spanned<Box<T>>)
        ensures
            *b.node == self.node,
            b.span == self.span,
    {
        Spanned { node: Box::new(self.node), span: self.span }
    }

    /// Get the span of the object.
    pub fn span(&self) -> (s: Span)
        ensures
            s == self.span,
    {
        self.span
    }

    /// The span of the object as a diagnostic reports it.
    pub fn as_miette_span(&self) -> (r: SourceSpan)
        ensures
            r == spec_source_span(self.span),
    {
        to_source_span(self.span)
    }
}

/// An expression or statement.
#[derive(Debug)]
pub enum PVal {
    Atomic(Spanned<PAtomic>),
    FuncCall(FuncCall),
    FuncLet(FuncLet),
    Grouping(Grouping),
    Match(Match),
    For(For),
    Let(Let),
    Expr(BPVal),
    Stmt(BPVal),
}

impl PVal {
    /// The name of the node's kind.
    pub fn into_name(self) -> (n: &'static str)
        ensures
            n@ == spec_pval_name(self),
    {
        proof {
            reveal_strlit("For");
            reveal_strlit("Let");
            reveal_strlit("Expr");
            reveal_strlit("Stmt");
            reveal_strlit("Atomic");
            reveal_strlit("Match");
            reveal_strlit("FuncLet");
            reveal_strlit("FuncCall");
            reveal_strlit("Grouping");
        }
        match self {
            PVal::For(_) => "For",
            PVal::Let(_) => "Let",
            PVal::Expr(_) => "Expr",
            PVal::Stmt(_) => "Stmt",
            PVal::Atomic(_) => "Atomic",
            PVal::Match(_) => "Match",
            PVal::FuncLet(_) => "FuncLet",
            PVal::FuncCall(_) => "FuncCall",
            PVal::Grouping(_) => "Grouping",
        }
    }
}

/// The name of a node's kind.
pub open spec fn spec_pval_name(v: PVal) -> Seq<char> {
    match v {
        PVal::For(_) => "For"@,
        PVal::Let(_) => "Let"@,
        PVal::Expr(_) => "Expr"@,
        PVal::Stmt(_) => "Stmt"@,
        PVal::Atomic(_) => "Atomic"@,
        PVal::Match(_) => "Match"@,
        PVal::FuncLet(_) => "FuncLet"@,
        PVal::FuncCall(_) => "FuncCall"@,
        PVal::Grouping(_) => "Grouping"@,
    }
}

/// A literal or a name.
#[derive(Debug)]
pub enum PAtomic {
    Integer(Spanned<usize>),
    String(Spanned<String>),
    Array(Spanned<BPArr>),
    Ident(Spanned<String>),
    Unit(Spanned<String>),
    Result(Spanned<(Box<PAtomic>, Box<PAtomic>)>),
}

impl PAtomic {
    /// The span of the literal or name.
    pub fn span(&self) -> (s: Span)
        ensures
            s == spec_atomic_span(*self),
    {
        match self {
            PAtomic::Array(a) => a.span,
            PAtomic::Ident(i) => i.span,
            PAtomic::String(s) => s.span,
            PAtomic::Integer(i) => i.span,
            PAtomic::Unit(u) => u.span,
            PAtomic::Result(r) => r.span,
        }
    }
}

/// The span of a literal or name.
pub open spec fn spec_atomic_span(a: PAtomic) -> Span {
    match a {
        PAtomic::Array(a) => a.span,
        PAtomic::Ident(i) => i.span,
        PAtomic::String(s) => s.span,
        PAtomic::Integer(i) => i.span,
        PAtomic::Unit(u) => u.span,
        PAtomic::Result(r) => r.span,
    }
}

/// A type as written in a function's signature.
#[derive(Debug)]
pub enum PType {
    Array(Spanned<Box<PType>>),
    Stream(Spanned<String>),
    String(Spanned<String>),
    File(Spanned<String>),
    Unit(Spanned<String>),
    Unret(Spanned<String>),
    Integer(Spanned<String>),
    Any(Spanned<String>),
    Result(Spanned<(Box<PType>, Box<PType>)>),
}

impl PType {
    /// The span of the written type.
    pub fn span(&self) -> (s: Span)
        ensures
            s == spec_ptype_span(*self),
    {
        match self {
            PType::Array(a) => a.span,
            PType::String(s) => s.span,
            PType::Integer(i) => i.span,
            PType::Unit(u) => u.span,
            PType::Result(r) => r.span,
            PType::Stream(s) => s.span,
            PType::Unret(u) => u.span,
            PType::File(f) => f.span,
            PType::Any(a) => a.span,
        }
    }
}

/// The span of a written type.
pub open spec fn spec_ptype_span(t: PType) -> Span {
    match t {
        PType::Array(a) => a.span,
        PType::String(s) => s.span,
        PType::Integer(i) => i.span,
        PType::Unit(u) => u.span,
        PType::Result(r) => r.span,
        PType::Stream(s) => s.span,
        PType::Unret(u) => u.span,
        PType::File(f) => f.span,
        PType::Any(a) => a.span,
    }
}

/// The name that a node holds when it is a bare identifier, and the empty name otherwise.
pub open spec fn spec_ident_name(v: PVal) -> Seq<char> {
    match v {
        PVal::Atomic(a) => match a.node {
            PAtomic::Ident(i) => i.node@,
            _ => Seq::empty(),
        },
        _ => Seq::empty(),
    }
}

/// The name that a node holds when it is a bare identifier, and the empty name otherwise.
fn ident_name(v: &PVal) -> (s: &str)
    ensures
        s@ == spec_ident_name(*v),
{
    proof {
        reveal_strlit("");
    }
    match v {
        PVal::Atomic(a) => match &a.node {
            PAtomic::Ident(i) => i.node.as_str(),
            _ => "",
        },
        _ => "",
    }
}

/// A function call: `name(args)` with an optional unwrap `!`.
#[derive(Debug)]
pub struct FuncCall {
    name: BPVal,
    args: Option<BPArr>,
    unwrap: Option<Spanned<bool>>,
}

impl FuncCall {
    /// A call of the function named by `name`.
    pub fn new(name: BPVal, args: Option<BPArr>, unwrap: Option<Spanned<bool>>) -> (f: FuncCall)
        ensures
            f.spec_name_raw() == name,
            f.spec_args() == args,
            f.spec_unwrap() == unwrap,
    {
        FuncCall { name, args, unwrap }
    }

    pub closed spec fn spec_name_raw(self) -> BPVal {
        self.name
    }

    pub closed spec fn spec_args(self) -> Option<BPArr> {
        self.args
    }

    pub closed spec fn spec_unwrap(self) -> Option<Spanned<bool>> {
        self.unwrap
    }

    /// The name of the called function.
    pub open spec fn spec_name(self) -> Seq<char> {
        spec_ident_name(*self.spec_name_raw().node)
    }

    /// The argument nodes, in order (empty when the call has no argument list).
    pub open spec fn spec_arg_list(self) -> Seq<Spanned<PVal>> {
        match self.spec_args() {
            Some(a) => a.node@,
            None => Seq::empty(),
        }
    }

    /// The argument list is a smaller tree than the call.
    pub proof fn lemma_arg_list_decreases(self)
        requires
            self.spec_args() is Some,
        ensures
            decreases_to!(self => self.spec_args()->0.node@),
    {
        let a = self.args->0;
        assert(decreases_to!(self => self.args));
        assert(decreases_to!(self.args => a));
        assert(decreases_to!(a => a.node));
        assert(decreases_to!(a.node => a.node@));
    }

    /// The node that names the function is a smaller tree than the call.
    pub proof fn lemma_name_decreases(self)
        ensures
            decreases_to!(self => *self.spec_name_raw().node),
    {
        assert(decreases_to!(self => self.name));
        assert(decreases_to!(self.name => self.name.node));
    }

    /// Whether the call ends in an unwrap `!`.
    pub open spec fn spec_has_unwrap(self) -> bool {
        match self.spec_unwrap() {
            Some(s) => s.node,
            None => false,
        }
    }

    /// Whether the call ends in an unwrap `!`.
    pub fn has_unwrap(&self) -> (b: bool)
        ensures
            b == self.spec_has_unwrap(),
    {
        match &self.unwrap {
            Some(span) => span.node,
            None => false,
        }
    }

    /// The unwrap `!`, with its span, if the call has one.
    pub fn get_unwrap(&self) -> (u: Option<&Spanned<bool>>)
        ensures
            u == match self.spec_unwrap() {
                Some(s) => Some(&s),
                None => None::<&Spanned<bool>>,
            },
    {
        match &self.unwrap {
            Some(s) => Some(s),
            None => None,
        }
    }

    /// The arguments, if the call has any.
    pub fn args_raw(&self) -> (a: Option<&BPArr>)
        ensures
            a == match self.spec_args() {
                Some(s) => Some(&s),
                None => None::<&BPArr>,
            },
    {
        match &self.args {
            Some(s) => Some(s),
            None => None,
        }
    }

    /// The node that names the function.
    pub fn name_raw(&self) -> (n: &BPVal)
        ensures
            *n == self.spec_name_raw(),
    {
        &self.name
    }

    /// The name of the called function.
    pub fn name(&self) -> (s: &str)
        ensures
            s@ == self.spec_name(),
    {
        ident_name(&self.name.node)
    }
}

/// A function definition: `let name(args): ret = body`, possibly `~internal`.
#[derive(Debug)]
pub struct FuncLet {
    name: BPVal,
    args: Option<Spanned<Vec<FuncArg>>>,
    ret: Option<PType>,
    body: BPVal,
    internal: bool,
}

/// A parameter of a function definition.
#[derive(Debug)]
pub struct FuncArg {
    pub name: SpannedStr,
    pub ty: PType,
}

impl FuncLet {
    /// A definition of the function named by `name`.
    pub fn new(
        name: BPVal,
        args: Option<Spanned<Vec<FuncArg>>>,
        ret: Option<PType>,
        body: BPVal,
        internal: bool,
    ) -> (f: FuncLet)
        ensures
            f.spec_name_raw() == name,
            f.spec_args() == args,
            f.spec_ret() == ret,
            f.spec_body() == body,
            f.spec_internal() == internal,
    {
        FuncLet { name, args, ret, body, internal }
    }

    pub closed spec fn spec_name_raw(self) -> BPVal {
        self.name
    }

    pub closed spec fn spec_args(self) -> Option<Spanned<Vec<FuncArg>>> {
        self.args
    }

    pub closed spec fn spec_ret(self) -> Option<PType> {
        self.ret
    }

    pub closed spec fn spec_body(self) -> BPVal {
        self.body
    }

    pub closed spec fn spec_internal(self) -> bool {
        self.internal
    }

    /// The body is a smaller tree than the definition.
    pub proof fn lemma_body_decreases(self)
        ensures
            decreases_to!(self => *self.spec_body().node),
    {
        assert(decreases_to!(self => self.body));
        assert(decreases_to!(self.body => self.body.node));
    }

    /// The node that names the function is a smaller tree than the definition.
    pub proof fn lemma_name_decreases(self)
        ensures
            decreases_to!(self => *self.spec_name_raw().node),
    {
        assert(decreases_to!(self => self.name));
        assert(decreases_to!(self.name => self.name.node));
    }

    /// The name of the defined function.
    pub open spec fn spec_name(self) -> Seq<char> {
        spec_ident_name(*self.spec_name_raw().node)
    }

    /// The parameters, in order, as a sequence (empty when there are none).
    pub open spec fn spec_params(self) -> Seq<FuncArg> {
        match self.spec_args() {
            Some(a) => a.node@,
            None => Seq::empty(),
        }
    }

    /// Whether the definition is `~internal` (its body belongs to the interpreter).
    pub fn is_internal(&self) -> (b: bool)
        ensures
            b == self.spec_internal(),
    {
        self.internal
    }

    /// The node that names the function.
    pub fn name_raw(&self) -> (n: &BPVal)
        ensures
            *n == self.spec_name_raw(),
    {
        &self.name
    }

    /// The name of the defined function.
    pub fn name(&self) -> (s: &str)
        ensures
            s@ == self.spec_name(),
    {
        ident_name(&self.name.node)
    }

    /// The parameter list, if there is one.
    pub fn args_raw(&self) -> (a: &Option<Spanned<Vec<FuncArg>>>)
        ensures
            *a == self.spec_args(),
    {
        &self.args
    }

    /// The parameter list, if there is one.
    pub fn args(&self) -> (a: Option<&Spanned<Vec<FuncArg>>>)
        ensures
            a == match self.spec_args() {
                Some(s) => Some(&s),
                None => None::<&Spanned<Vec<FuncArg>>>,
            },
    {
        match &self.args {
            Some(s) => Some(s),
            None => None,
        }
    }

    /// The number of parameters.
    pub fn args_len(&self) -> (n: usize)
        ensures
            n == self.spec_params().len(),
    {
        match &self.args {
            Some(args) => args.node.len(),
            None => 0,
        }
    }

    /// The body.
    pub fn body_raw(&self) -> (b: &BPVal)
        ensures
            *b == self.spec_body(),
    {
        &self.body
    }

    /// The declared return type, if there is one.
    pub fn ret_raw(&self) -> (r: &Option<PType>)
        ensures
            *r == self.spec_ret(),
    {
        &self.ret
    }

    /// The declared return type, if there is one.
    pub fn ret(&self) -> (r: Option<&PType>)
        ensures
            r == match self.spec_ret() {
                Some(s) => Some(&s),
                None => None::<&PType>,
            },
    {
        match &self.ret {
            Some(t) => Some(t),
            None => None,
        }
    }

    /// Take the parameter list and the declared return type.
    pub fn into_args_ret(self) -> (p: (Option<Spanned<Vec<FuncArg>>>, Option<PType>))
        ensures
            p.0 == self.spec_args(),
            p.1 == self.spec_ret(),
    {
        (self.args, self.ret)
    }
}

/// A grouping `{ stmts } < redirect`.
#[derive(Debug)]
pub struct Grouping {
    stmts: Vec<Spanned<PVal>>,
    redirect: Option<BPVal>,
}

impl Grouping {
    /// A grouping of `stmts`, with an optional redirect.
    pub fn new(stmts: Vec<Spanned<PVal>>, redirect: Option<BPVal>) -> (g: Grouping)
        ensures
            g.spec_stmts() == stmts@,
            g.spec_redirect() == redirect,
    {
        Grouping { stmts, redirect }
    }

    pub closed spec fn spec_stmts(self) -> Seq<Spanned<PVal>> {
        self.stmts@
    }

    pub closed spec fn spec_redirect(self) -> Option<BPVal> {
        self.redirect
    }

    /// The statement list is a smaller tree than the grouping.
    pub proof fn lemma_stmt_list_decreases(self)
        ensures
            decreases_to!(self => self.spec_stmts()),
    {
        assert(decreases_to!(self => self.stmts));
        assert(decreases_to!(self.stmts => self.stmts@));
    }

    /// The redirect is a smaller tree than the grouping.
    pub proof fn lemma_redirect_decreases(self)
        requires
            self.spec_redirect() is Some,
        ensures
            decreases_to!(self => *self.spec_redirect()->0.node),
    {
        let r = self.redirect->0;
        assert(decreases_to!(self => self.redirect));
        assert(decreases_to!(self.redirect => r));
        assert(decreases_to!(r => r.node));
    }

    /// The statements, in order.
    pub fn stmts_raw(&self) -> (s: &[Spanned<PVal>])
        ensures
            s@ == self.spec_stmts(),
    {
        self.stmts.as_slice()
    }

    /// The redirect, if there is one.
    pub fn redirect_raw(&self) -> (r: &Option<BPVal>)
        ensures
            *r == self.spec_redirect(),
    {
        &self.redirect
    }

    /// The redirect, if there is one.
    pub fn redirect(&self) -> (r: Option<&BPVal>)
        ensures
            r == match self.spec_redirect() {
                Some(s) => Some(&s),
                None => None::<&BPVal>,
            },
    {
        match &self.redirect {
            Some(s) => Some(s),
            None => None,
        }
    }
}

/// An assignment `let name = expr`.
#[derive(Debug)]
pub struct Let {
    name: SpannedStr,
    expr: BPVal,
}

impl Let {
    /// An assignment of `expr` to `name`.
    pub fn new(name: SpannedStr, expr: BPVal) -> (l: Let)
        ensures
            l.spec_name_raw() == name,
            l.spec_expr() == expr,
    {
        Let { name, expr }
    }

    pub closed spec fn spec_name_raw(self) -> SpannedStr {
        self.name
    }

    pub closed spec fn spec_expr(self) -> BPVal {
        self.expr
    }

    /// The assigned expression is a smaller tree than the assignment.
    pub proof fn lemma_expr_decreases(self)
        ensures
            decreases_to!(self => *self.spec_expr().node),
    {
        assert(decreases_to!(self => self.expr));
        assert(decreases_to!(self.expr => self.expr.node));
    }

    /// The assigned name, with its span.
    pub fn name_raw(&self) -> (n: &SpannedStr)
        ensures
            *n == self.spec_name_raw(),
    {
        &self.name
    }

    /// The assigned name.
    pub fn name(&self) -> (n: &str)
        ensures
            n@ == self.spec_name_raw().node@,
    {
        self.name.node.as_str()
    }

    /// The assigned expression.
    pub fn expr_raw(&self) -> (e: &BPVal)
        ensures
            *e == self.spec_expr(),
    {
        &self.expr
    }
}

/// A loop `for (bind in expr) body`.
#[derive(Debug)]
pub struct For {
    loop_: Spanned<PForInner>,
    body: BPVal,
}

/// The head `bind in expr` of a loop.
#[derive(Debug)]
pub struct PForInner {
    pub bind: SpannedStr,
    pub expr: BPVal,
}

impl For {
    /// A loop over the head `loop_`.
    pub fn new(loop_: Spanned<PForInner>, body: BPVal) -> (f: For)
        ensures
            f.spec_loop() == loop_,
            f.spec_body() == body,
    {
        For { loop_, body }
    }

    pub closed spec fn spec_loop(self) -> Spanned<PForInner> {
        self.loop_
    }

    pub closed spec fn spec_body(self) -> BPVal {
        self.body
    }

    /// The iterated expression and the body are smaller trees than the loop.
    pub proof fn lemma_parts_decrease(self)
        ensures
            decreases_to!(self => *self.spec_loop().node.expr.node),
            decreases_to!(self => *self.spec_body().node),
    {
        assert(decreases_to!(self => self.loop_));
        assert(decreases_to!(self.loop_ => self.loop_.node));
        assert(decreases_to!(self.loop_.node => self.loop_.node.expr));
        assert(decreases_to!(self.loop_.node.expr => self.loop_.node.expr.node));
        assert(decreases_to!(self => self.body));
        assert(decreases_to!(self.body => self.body.node));
    }

    /// The loop head.
    pub fn loop_raw(&self) -> (l: &Spanned<PForInner>)
        ensures
            *l == self.spec_loop(),
    {
        &self.loop_
    }

    /// The loop body.
    pub fn body_raw(&self) -> (b: &BPVal)
        ensures
            *b == self.spec_body(),
    {
        &self.body
    }
}

impl PForInner {
    /// The bound name, with its span.
    pub fn bind_raw(&self) -> (b: &SpannedStr)
        ensures
            *b == self.bind,
    {
        &self.bind
    }

    /// The iterated expression.
    pub fn expr_raw(&self) -> (e: &BPVal)
        ensures
            *e == self.expr,
    {
        &self.expr
    }

    /// The bound name.
    pub fn bind(&self) -> (b: &str)
        ensures
            b@ == self.bind.node@,
    {
        self.bind.node.as_str()
    }
}

/// A match `match (expr) { arms }` over a result.
#[derive(Debug)]
pub struct Match {
    expr: BPVal,
    arms: Vec<Spanned<PMatchArm>>,
}

impl Match {
    /// A match of `expr` against `arms`.
    pub fn new(expr: BPVal, arms: Vec<Spanned<PMatchArm>>) -> (m: Match)
        ensures
            m.spec_expr() == expr,
            m.spec_arms() == arms@,
    {
        Match { expr, arms }
    }

    pub closed spec fn spec_expr(self) -> BPVal {
        self.expr
    }

    pub closed spec fn spec_arms(self) -> Seq<Spanned<PMatchArm>> {
        self.arms@
    }

    /// The matched expression is a smaller tree than the match.
    pub proof fn lemma_expr_decreases(self)
        ensures
            decreases_to!(self => *self.spec_expr().node),
    {
        assert(decreases_to!(self => self.expr));
        assert(decreases_to!(self.expr => self.expr.node));
    }

    /// The arm list is a smaller tree than the match.
    pub proof fn lemma_arm_list_decreases(self)
        ensures
            decreases_to!(self => self.spec_arms()),
    {
        assert(decreases_to!(self => self.arms));
        assert(decreases_to!(self.arms => self.arms@));
    }

    /// The body of each arm is a smaller tree than the match.
    pub proof fn lemma_arm_decreases(self, i: int)
        requires
            0 <= i < self.spec_arms().len(),
        ensures
            decreases_to!(self => *self.spec_arms()[i].node.expr.node),
    {
        assert(decreases_to!(self => self.arms));
        assert(decreases_to!(self.arms => self.arms[i]));
        assert(decreases_to!(self.arms[i] => self.arms[i].node));
        assert(decreases_to!(self.arms[i].node => self.arms[i].node.expr));
        assert(decreases_to!(self.arms[i].node.expr => self.arms[i].node.expr.node));
    }

    /// The matched expression.
    pub fn expr_raw(&self) -> (e: &BPVal)
        ensures
            *e == self.spec_expr(),
    {
        &self.expr
    }

    /// The arms, in order.
    pub fn arms_raw(&self) -> (a: &[Spanned<PMatchArm>])
        ensures
            a@ == self.spec_arms(),
    {
        self.arms.as_slice()
    }
}

/// An arm `ok name = expr` or `err name = expr`.
#[derive(Debug)]
pub struct PMatchArm {
    /// The literal text `ok` or `err`.
    pub res: PMatchCase,
    /// The value associated with the branch.
    pub inner: SpannedStr,
    /// The code that executes if matched.
    pub expr: BPVal,
}

impl PMatchArm {
    /// Whether this is the `ok` arm.
    pub fn ok(&self) -> (b: bool)
        ensures
            b == (self.res is OkBranch),
    {
        match self.res {
            PMatchCase::OkBranch(_) => true,
            PMatchCase::ErrBranch(_) => false,
        }
    }

    /// Whether this is the `err` arm.
    pub fn err(&self) -> (b: bool)
        ensures
            b == (self.res is ErrBranch),
    {
        match self.res {
            PMatchCase::OkBranch(_) => false,
            PMatchCase::ErrBranch(_) => true,
        }
    }
}

/// Which branch of a result an arm matches.
#[derive(Debug)]
pub enum PMatchCase {
    OkBranch(SpannedStr),
    ErrBranch(SpannedStr),
}

/// The mathematical form of a syntax tree node: texts are character sequences and lists are
/// sequences; every part keeps its span.
#[allow(inconsistent_fields)]
pub enum PValV {
    Atomic(Spanned<AtomV>),
    FuncCall {
        name: Box<Spanned<PValV>>,
        args: Option<Spanned<Seq<Spanned<PValV>>>>,
        unwrap: Option<Spanned<bool>>,
    },
    FuncLet {
        name: Box<Spanned<PValV>>,
        args: Option<Spanned<Seq<ArgV>>>,
        ret: Option<TypeV>,
        body: Box<Spanned<PValV>>,
        internal: bool,
    },
    Grouping { stmts: Seq<Spanned<PValV>>, redirect: Option<Box<Spanned<PValV>>> },
    Match { expr: Box<Spanned<PValV>>, arms: Seq<Spanned<ArmV>> },
    For { bind: Spanned<Seq<char>>, iter: Box<Spanned<PValV>>, head: Span, body: Box<Spanned<PValV>> },
    Let { name: Spanned<Seq<char>>, expr: Box<Spanned<PValV>> },
    Expr(Box<Spanned<PValV>>),
    Stmt(Box<Spanned<PValV>>),
}

/// The mathematical form of a [`PAtomic`].
pub enum AtomV {
    Integer(Spanned<usize>),
    Str(Spanned<Seq<char>>),
    Array(Spanned<Spanned<Seq<Spanned<PValV>>>>),
    Ident(Spanned<Seq<char>>),
    Unit(Spanned<Seq<char>>),
    Result(Spanned<(Box<AtomV>, Box<AtomV>)>),
}

/// The mathematical form of a [`PType`].
pub enum TypeV {
    Array(Spanned<Box<TypeV>>),
    Stream(Spanned<Seq<char>>),
    String(Spanned<Seq<char>>),
    File(Spanned<Seq<char>>),
    Unit(Spanned<Seq<char>>),
    Unret(Spanned<Seq<char>>),
    Integer(Spanned<Seq<char>>),
    Any(Spanned<Seq<char>>),
    Result(Spanned<(Box<TypeV>, Box<TypeV>)>),
}

/// The mathematical form of a [`FuncArg`].
pub struct ArgV {
    pub name: Spanned<Seq<char>>,
    pub ty: TypeV,
}

/// The mathematical form of a [`PMatchArm`]: whether it is the `ok` arm, the branch keyword,
/// the bound name and the body.
pub struct ArmV {
    pub is_ok: bool,
    pub res: Spanned<Seq<char>>,
    pub inner: Spanned<Seq<char>>,
    pub expr: Box<Spanned<PValV>>,
}

/// The mathematical form of a spanned text.
pub open spec fn text_v(t: Spanned<String>) -> Spanned<Seq<char>> {
    Spanned { node: t.node@, span: t.span }
}

/// The mathematical form of a node.
pub open spec fn pval_v(v: PVal) -> PValV
    decreases v, 2nat,
{
    match v {
        PVal::Atomic(a) => PValV::Atomic(Spanned { node: atom_v(a.node), span: a.span }),
        PVal::FuncCall(f) => {
            proof {
                f.lemma_name_decreases();
            }
            PValV::FuncCall {
                name: Box::new(Spanned { node: pval_v(*f.spec_name_raw().node), span: f.spec_name_raw().span }),
                args: match f.spec_args() {
                    Some(a) => {
                        proof {
                            f.lemma_arg_list_decreases();
                        }
                        Some(Spanned { node: list_v(a.node@), span: a.span })
                    },
                    None => None,
                },
                unwrap: f.spec_unwrap(),
            }
        },
        PVal::FuncLet(f) => {
            proof {
                f.lemma_name_decreases();
                f.lemma_body_decreases();
            }
            PValV::FuncLet {
                name: Box::new(Spanned { node: pval_v(*f.spec_name_raw().node), span: f.spec_name_raw().span }),
                args: match f.spec_args() {
                    Some(a) => Some(Spanned { node: args_v(a.node@), span: a.span }),
                    None => None,
                },
                ret: match f.spec_ret() {
                    Some(t) => Some(type_v(t)),
                    None => None,
                },
                body: Box::new(Spanned { node: pval_v(*f.spec_body().node), span: f.spec_body().span }),
                internal: f.spec_internal(),
            }
        },
        PVal::Grouping(g) => {
            proof {
                g.lemma_stmt_list_decreases();
            }
            PValV::Grouping {
                stmts: list_v(g.spec_stmts()),
                redirect: match g.spec_redirect() {
                    Some(r) => {
                        proof {
                            g.lemma_redirect_decreases();
                        }
                        Some(Box::new(Spanned { node: pval_v(*r.node), span: r.span }))
                    },
                    None => None,
                },
            }
        },
        PVal::Match(m) => {
            proof {
                m.lemma_expr_decreases();
                m.lemma_arm_list_decreases();
            }
            PValV::Match {
                expr: Box::new(Spanned { node: pval_v(*m.spec_expr().node), span: m.spec_expr().span }),
                arms: arms_v(m.spec_arms()),
            }
        },
        PVal::For(f) => {
            proof {
                f.lemma_parts_decrease();
            }
            PValV::For {
                bind: text_v(f.spec_loop().node.bind),
                iter: Box::new(Spanned { node: pval_v(*f.spec_loop().node.expr.node), span: f.spec_loop().node.expr.span }),
                head: f.spec_loop().span,
                body: Box::new(Spanned { node: pval_v(*f.spec_body().node), span: f.spec_body().span }),
            }
        },
        PVal::Let(l) => {
            proof {
                l.lemma_expr_decreases();
            }
            PValV::Let {
                name: text_v(l.spec_name_raw()),
                expr: Box::new(Spanned { node: pval_v(*l.spec_expr().node), span: l.spec_expr().span }),
            }
        },
        PVal::Expr(e) => PValV::Expr(Box::new(Spanned { node: pval_v(*e.node), span: e.span })),
        PVal::Stmt(e) => PValV::Stmt(Box::new(Spanned { node: pval_v(*e.node), span: e.span })),
    }
}

/// The mathematical forms of spanned nodes.
pub open spec fn list_v(s: Seq<Spanned<PVal>>) -> Seq<Spanned<PValV>>
    decreases s, 0nat,
{
    if s.len() == 0 {
        Seq::empty()
    } else {
        seq![Spanned { node: pval_v(s[0].node), span: s[0].span }] + list_v(s.drop_first())
    }
}

/// The mathematical forms of match arms.
pub open spec fn arms_v(s: Seq<Spanned<PMatchArm>>) -> Seq<Spanned<ArmV>>
    decreases s, 0nat,
{
    if s.len() == 0 {
        Seq::empty()
    } else {
        seq![arm_v(s[0])] + arms_v(s.drop_first())
    }
}

/// The mathematical form of a match arm.
pub open spec fn arm_v(a: Spanned<PMatchArm>) -> Spanned<ArmV>
    decreases a, 1nat,
{
    Spanned {
        node: ArmV {
            is_ok: a.node.res is OkBranch,
            res: match a.node.res {
                PMatchCase::OkBranch(t) => text_v(t),
                PMatchCase::ErrBranch(t) => text_v(t),
            },
            inner: text_v(a.node.inner),
            expr: Box::new(Spanned { node: pval_v(*a.node.expr.node), span: a.node.expr.span }),
        },
        span: a.span,
    }
}

/// The mathematical form of a node with the span `span`.
pub open spec fn spv(v: PVal, span: Span) -> Spanned<PValV> {
    Spanned { node: pval_v(v), span }
}

/// The form of a list with one node more is that of the list with the node's form after it.
pub proof fn lemma_list_v_push(s: Seq<Spanned<PVal>>, x: Spanned<PVal>)
    ensures
        list_v(s.push(x)) == list_v(s).push(spv(x.node, x.span)),
    decreases s.len(),
{
    if s.len() == 0 {
        let t = s.push(x);
        assert(t.drop_first() =~= Seq::<Spanned<PVal>>::empty());
        assert(list_v(t.drop_first()) == Seq::<Spanned<PValV>>::empty());
        assert(t[0] == x);
        assert(list_v(t) =~= list_v(s).push(spv(x.node, x.span)));
    } else {
        let t = s.push(x);
        assert(t.drop_first() =~= s.drop_first().push(x));
        lemma_list_v_push(s.drop_first(), x);
        assert(t[0] == s[0]);
        assert(list_v(t) == seq![spv(t[0].node, t[0].span)] + list_v(t.drop_first()));
        assert(list_v(s) == seq![spv(s[0].node, s[0].span)] + list_v(s.drop_first()));
        assert(list_v(t) =~= list_v(s).push(spv(x.node, x.span)));
    }
}

/// The form of a list with one arm more is that of the list with the arm's form after it.
pub proof fn lemma_arms_v_push(s: Seq<Spanned<PMatchArm>>, x: Spanned<PMatchArm>)
    ensures
        arms_v(s.push(x)) == arms_v(s).push(arm_v(x)),
    decreases s.len(),
{
    if s.len() == 0 {
        let t = s.push(x);
        assert(t.drop_first() =~= Seq::<Spanned<PMatchArm>>::empty());
        assert(arms_v(t.drop_first()) == Seq::<Spanned<ArmV>>::empty());
        assert(t[0] == x);
        assert(arms_v(t) =~= arms_v(s).push(arm_v(x)));
    } else {
        let t = s.push(x);
        assert(t.drop_first() =~= s.drop_first().push(x));
        lemma_arms_v_push(s.drop_first(), x);
        assert(t[0] == s[0]);
        assert(arms_v(t) == seq![arm_v(t[0])] + arms_v(t.drop_first()));
        assert(arms_v(s) == seq![arm_v(s[0])] + arms_v(s.drop_first()));
        assert(arms_v(t) =~= arms_v(s).push(arm_v(x)));
    }
}

/// The mathematical form of a literal or a name.
pub open spec fn atom_v(a: PAtomic) -> AtomV
    decreases a, 1nat,
{
    match a {
        PAtomic::Integer(i) => AtomV::Integer(i),
        PAtomic::String(s) => AtomV::Str(text_v(s)),
        PAtomic::Array(x) => AtomV::Array(
            Spanned { node: Spanned { node: list_v(x.node.node@), span: x.node.span }, span: x.span },
        ),
        PAtomic::Ident(i) => AtomV::Ident(text_v(i)),
        PAtomic::Unit(u) => AtomV::Unit(text_v(u)),
        PAtomic::Result(r) => AtomV::Result(
            Spanned { node: (Box::new(atom_v(*r.node.0)), Box::new(atom_v(*r.node.1))), span: r.span },
        ),
    }
}

/// The mathematical form of a written type.
pub open spec fn type_v(t: PType) -> TypeV
    decreases t,
{
    match t {
        PType::Array(a) => TypeV::Array(Spanned { node: Box::new(type_v(*a.node)), span: a.span }),
        PType::Stream(s) => TypeV::Stream(text_v(s)),
        PType::String(s) => TypeV::String(text_v(s)),
        PType::File(s) => TypeV::File(text_v(s)),
        PType::Unit(s) => TypeV::Unit(text_v(s)),
        PType::Unret(s) => TypeV::Unret(text_v(s)),
        PType::Integer(s) => TypeV::Integer(text_v(s)),
        PType::Any(s) => TypeV::Any(text_v(s)),
        PType::Result(r) => TypeV::Result(
            Spanned { node: (Box::new(type_v(*r.node.0)), Box::new(type_v(*r.node.1))), span: r.span },
        ),
    }
}

/// The mathematical forms of parameters.
pub open spec fn args_v(s: Seq<FuncArg>) -> Seq<ArgV> {
    Seq::new(s.len(), |i: int| ArgV { name: text_v(s[i].name), ty: type_v(s[i].ty) })
}

} // verus!
