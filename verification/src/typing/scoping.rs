//! The walk that collects function signatures, and the stack of scopes that the checker keeps
//! its variables in.
use vstd::prelude::*;
use crate::parse::types::{PVal, Span, Spanned, FuncLet};
use crate::typing::pass_one::{FuncDef, FuncDefView, FuncTable, TableView, spec_signature};
use crate::typing::types::Type;

verus! {

/// The signatures that a walk over `v` records, in the order it records them. Every definition
/// counts, wherever it stands: a definition is recorded, then the definitions in its body.
pub open spec fn walk_defs(v: PVal) -> TableView
    decreases v,
{
    match v {
        PVal::Atomic(_) => Seq::empty(),
        PVal::FuncCall(f) => {
            proof {
                f.lemma_name_decreases();
            }
            walk_defs(*f.spec_name_raw().node) + match f.spec_args() {
                Some(a) => {
                    proof {
                        f.lemma_arg_list_decreases();
                    }
                    walk_list(a.node@)
                },
                None => Seq::empty(),
            }
        },
        PVal::FuncLet(f) => {
            proof {
                f.lemma_body_decreases();
            }
            seq![(f.spec_name(), spec_signature(f))] + walk_defs(*f.spec_body().node)
        },
        PVal::Grouping(g) => {
            proof {
                g.lemma_stmt_list_decreases();
            }
            walk_list(g.spec_stmts()) + match g.spec_redirect() {
                Some(r) => {
                    proof {
                        g.lemma_redirect_decreases();
                    }
                    walk_defs(*r.node)
                },
                None => Seq::empty(),
            }
        },
        PVal::Match(m) => {
            proof {
                m.lemma_expr_decreases();
                m.lemma_arm_list_decreases();
            }
            walk_defs(*m.spec_expr().node) + walk_arms(m.spec_arms())
        },
        PVal::For(f) => {
            proof {
                f.lemma_parts_decrease();
            }
            walk_defs(*f.spec_loop().node.expr.node) + walk_defs(*f.spec_body().node)
        },
        PVal::Let(l) => {
            proof {
                l.lemma_expr_decreases();
            }
            walk_defs(*l.spec_expr().node)
        },
        PVal::Stmt(s) | PVal::Expr(s) => walk_defs(*s.node),
    }
}

/// The signatures that walks over the nodes of `s`, one after the other, record.
pub open spec fn walk_list(s: Seq<Spanned<PVal>>) -> TableView
    decreases s,
{
    if s.len() == 0 {
        Seq::empty()
    } else {
        walk_defs(s[0].node) + walk_list(s.drop_first())
    }
}

/// The signatures that walks over the bodies of match arms record.
pub open spec fn walk_arms(s: Seq<Spanned<crate::parse::types::PMatchArm>>) -> TableView
    decreases s,
{
    if s.len() == 0 {
        Seq::empty()
    } else {
        walk_defs(*s[0].node.expr.node) + walk_arms(s.drop_first())
    }
}

/// Walks a program and collects the signatures of the functions it defines.
#[derive(Debug)]
pub struct AstWalker<'a> {
    ast: &'a Vec<Spanned<PVal>>,
}

impl<'a> AstWalker<'a> {
    /// A walker over the top-level nodes of a program.
    pub fn new(ast: &'a Vec<Spanned<PVal>>) -> (w: Self)
        ensures
            w.program() == ast@,
    {
        AstWalker { ast }
    }

    /// The top-level nodes that the walker walks.
    pub closed spec fn program(self) -> Seq<Spanned<PVal>> {
        self.ast@
    }

    fn visit_list(items: &[Spanned<PVal>], table: &mut FuncTable)
        ensures
            final(table)@ == old(table)@ + walk_list(items@),
        decreases items@,
    {
        let mut i: usize = 0;
        assert(items@.skip(0) =~= items@);
        while i < items.len()
            invariant
                i <= items@.len(),
                old(table)@ + walk_list(items@) == table@ + walk_list(items@.skip(i as int)),
            decreases items@.len() - i,
        {
            let ghost rest = items@.skip(i as int);
            assert(rest[0] == items@[i as int]);
            assert(rest.drop_first() =~= items@.skip(i + 1));
            assert(decreases_to!(items@ => items@[i as int]));
            Self::visit_function(&items[i].node, table);
            i += 1;
            assert(old(table)@ + walk_list(items@) =~= table@ + walk_list(items@.skip(i as int)));
        }
        assert(items@.skip(i as int) =~= Seq::<Spanned<PVal>>::empty());
        assert(old(table)@ + walk_list(items@) =~= table@);
    }

    fn visit_function(node: &PVal, table: &mut FuncTable)
        ensures
            final(table)@ == old(table)@ + walk_defs(*node),
        decreases *node,
    {
        match node {
            PVal::Atomic(_) => {
                assert(old(table)@ + walk_defs(*node) =~= old(table)@);
            },
            PVal::FuncCall(func) => {
                proof {
                    func.lemma_name_decreases();
                }
                Self::visit_function(&func.name_raw().node, table);
                match func.args_raw() {
                    Some(args) => {
                        proof {
                            func.lemma_arg_list_decreases();
                        }
                        Self::visit_list(args.node.as_slice(), table);
                    },
                    None => {},
                }
                assert(final(table)@ =~= old(table)@ + walk_defs(*node));
            },
            PVal::FuncLet(func) => {
                let def = FuncDef::from_funclet(func);
                table.insert(func.name(), def);
                proof {
                    func.lemma_body_decreases();
                }
                Self::visit_function(&func.body_raw().node, table);
                assert(final(table)@ =~= old(table)@ + walk_defs(*node));
            },
            PVal::Grouping(group) => {
                proof {
                    group.lemma_stmt_list_decreases();
                }
                Self::visit_list(group.stmts_raw(), table);
                match group.redirect_raw() {
                    Some(redir) => {
                        proof {
                            group.lemma_redirect_decreases();
                        }
                        Self::visit_function(&redir.node, table);
                    },
                    None => {},
                }
                assert(final(table)@ =~= old(table)@ + walk_defs(*node));
            },
            PVal::Match(m) => {
                proof {
                    m.lemma_expr_decreases();
                }
                Self::visit_function(&m.expr_raw().node, table);
                let arms = m.arms_raw();
                let mut i: usize = 0;
                let ghost mid = table@;
                assert(arms@.skip(0) =~= arms@);
                assert(decreases_to!(*node => *m));
                while i < arms.len()
                    invariant
                        decreases_to!(*node => *m),
                        i <= arms@.len(),
                        arms@ == m.spec_arms(),
                        mid + walk_arms(arms@) == table@ + walk_arms(arms@.skip(i as int)),
                    decreases arms@.len() - i,
                {
                    let ghost rest = arms@.skip(i as int);
                    assert(rest[0] == arms@[i as int]);
                    assert(rest.drop_first() =~= arms@.skip(i + 1));
                    proof {
                        m.lemma_arm_decreases(i as int);
                        assert(decreases_to!(*node => *arms@[i as int].node.expr.node));
                    }
                    Self::visit_function(&arms[i].node.expr.node, table);
                    i += 1;
                    assert(mid + walk_arms(arms@) =~= table@ + walk_arms(arms@.skip(i as int)));
                }
                assert(arms@.skip(i as int) =~= Seq::<Spanned<crate::parse::types::PMatchArm>>::empty());
                assert(final(table)@ =~= old(table)@ + walk_defs(*node));
            },
            PVal::For(f) => {
                proof {
                    f.lemma_parts_decrease();
                }
                Self::visit_function(&f.loop_raw().node.expr.node, table);
                Self::visit_function(&f.body_raw().node, table);
                assert(final(table)@ =~= old(table)@ + walk_defs(*node));
            },
            PVal::Let(l) => {
                proof {
                    l.lemma_expr_decreases();
                }
                Self::visit_function(&l.expr_raw().node, table);
            },
            PVal::Stmt(s) | PVal::Expr(s) => {
                Self::visit_function(&s.node, table);
            },
        }
    }

    /// The signatures of all the functions that the program defines, those inside the bodies of
    /// other definitions too: function definitions are global. A later definition of a name
    /// replaces an earlier one.
    pub fn collect_function_defs(&self) -> (t: FuncTable)
        ensures
            t@ == walk_list(self.program()),
    {
        let mut table = FuncTable::new();
        Self::visit_list(self.ast.as_slice(), &mut table);
        assert(table@ =~= walk_list(self.program()));
        table
    }
}

/// A variable binding: the name as written, where it was bound, its type and the unique name
/// the IR gives it.
#[derive(Debug)]
pub struct Binding {
    pub name: String,
    pub span: Span,
    pub ty: Type,
    pub id: String,
}

/// The mathematical form of a [`Binding`].
pub struct BindingView {
    pub name: Seq<char>,
    pub span: Span,
    pub ty: Type,
    pub id: Seq<char>,
}

impl View for Binding {
    type V = BindingView;

    open spec fn view(&self) -> BindingView {
        BindingView { name: self.name@, span: self.span, ty: self.ty, id: self.id@ }
    }
}

/// The binding of `name` in one scope: the latest one made there.
pub open spec fn scope_find(scope: Seq<BindingView>, name: Seq<char>) -> Option<BindingView>
    decreases scope.len(),
{
    if scope.len() == 0 {
        None
    } else if scope.last().name == name {
        Some(scope.last())
    } else {
        scope_find(scope.drop_last(), name)
    }
}

/// The binding of `name` that is visible in a stack of scopes: that of the innermost scope
/// that binds it.
pub open spec fn stack_find(scopes: Seq<Seq<BindingView>>, name: Seq<char>) -> Option<BindingView>
    decreases scopes.len(),
{
    if scopes.len() == 0 {
        None
    } else {
        match scope_find(scopes.last(), name) {
            Some(b) => Some(b),
            None => stack_find(scopes.drop_last(), name),
        }
    }
}

/// The stack after a new binding in its innermost scope.
pub open spec fn stack_bind(scopes: Seq<Seq<BindingView>>, b: BindingView) -> Seq<Seq<BindingView>> {
    scopes.update(scopes.len() - 1, scopes.last().push(b))
}

/// A name that was just bound is found with that binding, whatever bound it before; other
/// names are found as before.
pub proof fn lemma_find_after_bind(scopes: Seq<Seq<BindingView>>, b: BindingView, other: Seq<char>)
    requires
        scopes.len() >= 1,
    ensures
        stack_find(stack_bind(scopes, b), b.name) == Some(b),
        other != b.name ==> stack_find(stack_bind(scopes, b), other) == stack_find(scopes, other),
{
    let s2 = stack_bind(scopes, b);
    assert(s2.last() == scopes.last().push(b));
    assert(s2.drop_last() =~= scopes.drop_last());
    assert(scopes.last().push(b).drop_last() =~= scopes.last());
}

/// Closing a scope forgets every binding made in it: opening a scope, binding names in it and
/// closing it again leaves the stack as it was.
pub proof fn lemma_scope_closes(scopes: Seq<Seq<BindingView>>, inner: Seq<BindingView>)
    ensures
        scopes.push(Seq::empty()).drop_last() == scopes,
        scopes.push(inner).drop_last() == scopes,
{
    assert(scopes.push(Seq::empty()).drop_last() =~= scopes);
    assert(scopes.push(inner).drop_last() =~= scopes);
}

/// A binding in an inner scope hides a binding of the same name in an outer scope.
pub proof fn lemma_inner_shadows(scopes: Seq<Seq<BindingView>>, b: BindingView)
    requires
        scopes.len() >= 1,
    ensures
        stack_find(stack_bind(scopes.push(Seq::empty()), b), b.name) == Some(b),
        stack_find(stack_bind(scopes.push(Seq::empty()), b).drop_last(), b.name) == stack_find(
            scopes,
            b.name,
        ),
{
    lemma_find_after_bind(scopes.push(Seq::empty()), b, b.name);
    assert(stack_bind(scopes.push(Seq::empty()), b).drop_last() =~= scopes);
}

/// A stack of scopes, innermost last. The outermost scope is the global one.
#[derive(Debug)]
pub struct ScopeStack {
    scopes: Vec<Vec<Binding>>,
}

impl View for ScopeStack {
    type V = Seq<Seq<BindingView>>;

    closed spec fn view(&self) -> Seq<Seq<BindingView>> {
        Seq::new(
            self.scopes.len() as nat,
            |i: int| Seq::new(self.scopes[i].len() as nat, |j: int| self.scopes[i][j]@),
        )
    }
}

impl ScopeStack {
    /// A stack that holds only the empty global scope.
    pub fn new() -> (s: ScopeStack)
        ensures
            s@ == seq![Seq::<BindingView>::empty()],
    {
        let mut scopes: Vec<Vec<Binding>> = Vec::new();
        scopes.push(Vec::new());
        let s = ScopeStack { scopes };
        assert(s@[0] =~= Seq::<BindingView>::empty());
        assert(s@ =~= seq![Seq::<BindingView>::empty()]);
        s
    }

    /// The depth of the innermost scope; the global scope has depth 0.
    pub fn scope(&self) -> (d: usize)
        requires
            self@.len() >= 1,
        ensures
            d == self@.len() - 1,
    {
        self.scopes.len() - 1
    }

    /// Open a new, empty innermost scope.
    pub fn push(&mut self)
        ensures
            final(self)@ == old(self)@.push(Seq::empty()),
    {
        self.scopes.push(Vec::new());
        assert(self@.last() =~= Seq::<BindingView>::empty());
        assert(self@ =~= old(self)@.push(Seq::empty()));
    }

    /// Close the innermost scope, and forget its bindings.
    pub fn pop(&mut self)
        requires
            old(self)@.len() >= 1,
        ensures
            final(self)@ == old(self)@.drop_last(),
    {
        let _ = self.scopes.pop();
        assert(self@ =~= old(self)@.drop_last());
    }

    /// Bind `name` in the innermost scope; it hides any earlier binding of the name.
    pub fn insert(&mut self, name: &str, span: Span, ty: Type, id: String)
        requires
            old(self)@.len() >= 1,
        ensures
            final(self)@ == stack_bind(
                old(self)@,
                BindingView { name: name@, span, ty, id: id@ },
            ),
    {
        let ghost b = BindingView { name: name@, span, ty, id: id@ };
        let last = self.scopes.len() - 1;
        let mut scope = self.scopes.pop().unwrap();
        scope.push(Binding { name: String::from_str(name), span, ty, id });
        self.scopes.push(scope);
        assert(self@[last as int] =~= old(self)@.last().push(b));
        assert(self@ =~= stack_bind(old(self)@, b));
    }

    /// The position of the binding of `name` that is visible, if there is one.
    fn find(&self, name: &str) -> (r: Option<(usize, usize)>)
        ensures
            match r {
                Some((i, j)) => i < self.scopes@.len() && j < self.scopes@[i as int]@.len()
                    && stack_find(self@, name@) == Some(self@[i as int][j as int]),
                None => stack_find(self@, name@) is None,
            },
    {
        let key = String::from_str(name);
        let mut i: usize = self.scopes.len();
        assert(self@.take(i as int) =~= self@);
        while i > 0
            invariant
                i <= self.scopes@.len(),
                key@ == name@,
                stack_find(self@, name@) == stack_find(self@.take(i as int), name@),
            decreases i,
        {
            let scope = &self.scopes[i - 1];
            let ghost sv = self@[i - 1];
            let mut j: usize = scope.len();
            assert(sv.take(j as int) =~= sv);
            while j > 0
                invariant
                    0 < i <= self.scopes@.len(),
                    sv == self@[i - 1],
                    scope == self.scopes@[i - 1],
                    stack_find(self@, name@) == stack_find(self@.take(i as int), name@),
                    j <= scope@.len(),
                    scope@.len() == sv.len(),
                    forall|k: int| 0 <= k < sv.len() ==> #[trigger] sv[k] == scope@[k]@,
                    key@ == name@,
                    scope_find(sv, name@) == scope_find(sv.take(j as int), name@),
                decreases j,
            {
                assert(sv.take(j as int).drop_last() =~= sv.take(j - 1));
                if scope[j - 1].name == key {
                    assert(sv.take(j as int).last() == sv[j - 1]);
                    assert(scope_find(sv, name@) == Some(sv[j - 1]));
                    assert(self@.take(i as int).last() == sv);
                    return Some((i - 1, j - 1));
                }
                j -= 1;
            }
            assert(sv.take(0) =~= Seq::<BindingView>::empty());
            assert(self@.take(i as int).last() == sv);
            assert(self@.take(i as int).drop_last() =~= self@.take(i - 1));
            i -= 1;
        }
        assert(self@.take(0) =~= Seq::<Seq<BindingView>>::empty());
        None
    }

    /// The type of the visible binding of `name`.
    pub fn get(&self, name: &str) -> (r: Option<&Type>)
        ensures
            match r {
                Some(t) => stack_find(self@, name@) matches Some(b) && b.ty == *t,
                None => stack_find(self@, name@) is None,
            },
    {
        match self.find(name) {
            Some((i, j)) => Some(&self.scopes[i][j].ty),
            None => None,
        }
    }

    /// Where the visible binding of `name` was made.
    pub fn get_span(&self, name: &str) -> (r: Option<&Span>)
        ensures
            match r {
                Some(s) => stack_find(self@, name@) matches Some(b) && b.span == *s,
                None => stack_find(self@, name@) is None,
            },
    {
        match self.find(name) {
            Some((i, j)) => Some(&self.scopes[i][j].span),
            None => None,
        }
    }

    /// The type and the unique name of the visible binding of `name`.
    pub fn get_unique_ident(&self, name: &str) -> (r: Option<(Type, String)>)
        ensures
            match r {
                Some((t, id)) => stack_find(self@, name@) matches Some(b) && b.ty == t && b.id == id@,
                None => stack_find(self@, name@) is None,
            },
    {
        match self.find(name) {
            Some((i, j)) => Some((self.scopes[i][j].ty.clone(), self.scopes[i][j].id.clone())),
            None => None,
        }
    }
}

} // verus!
