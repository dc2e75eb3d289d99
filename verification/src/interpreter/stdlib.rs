//! The standard library's table of functions, and the signatures the type checker checks
//! calls of them against.
use vstd::prelude::*;
use crate::interpreter::types::{ILitType};
use crate::typing::pass_one::{FuncDef, FuncDefView, FuncTable, TableView};
use crate::typing::strata::{IR, IRView, params_view};
use crate::typing::types::Type;

verus! {

/// A function of the standard library that the interpreter itself provides.
#[derive(Debug, Clone, Copy, PartialEq, Eq, Structural)]
pub enum Builtin {
    Itoa,
    Atoi,
    Max,
    Min,
    Add,
    Sub,
    DumpVar,
    Sprintf,
    Printf,
    Puts,
    Nth,
    Split,
    Len,
    Enumerate,
    Chars,
    Only,
    Rev,
    Range,
    Equals,
    File,
    Create,
    Open,
    Dump,
    Lines,
    Skip,
    Fpop,
    Panic,
    Exit,
    Args,
    MakeOk,
    MakeErr,
    Trim,
    TrimLeft,
    TrimRight,
    Upper,
    Lower,
    Replace,
    SplitAt,
}

/// A function that a program defines: its parameters (by unique name, with their types),
/// its body and its return type.
#[derive(Debug)]
pub struct UserFunc {
    pub args: Vec<(String, Type)>,
    pub body: IR,
    pub ret: Type,
}

/// A function the interpreter can call.
#[derive(Debug)]
pub enum RuntimeFunc {
    User(UserFunc),
    Internal(Builtin),
}

/// The mathematical form of a program's function.
pub struct FuncView {
    pub args: Seq<(Seq<char>, Type)>,
    pub body: IRView,
    pub ret: Type,
}

/// The mathematical form of a [`RuntimeFunc`].
pub enum RtView {
    User(FuncView),
    Internal(Builtin),
}

impl View for RuntimeFunc {
    type V = RtView;

    open spec fn view(&self) -> RtView {
        match *self {
            RuntimeFunc::User(f) => RtView::User(FuncView { args: params_view(f.args@), body: f.body@, ret: f.ret }),
            RuntimeFunc::Internal(b) => RtView::Internal(b),
        }
    }
}

/// The functions by name, oldest first: a later entry for a name replaces an earlier one.
pub type FunctionsView = Seq<(Seq<char>, RtView)>;

/// The function that `name` stands for: that of its latest entry.
pub open spec fn func_lookup(t: FunctionsView, name: Seq<char>) -> Option<RtView>
    decreases t.len(),
{
    if t.len() == 0 {
        None
    } else if t.last().0 == name {
        Some(t.last().1)
    } else {
        func_lookup(t.drop_last(), name)
    }
}

/// The table of functions the interpreter calls by name.
#[derive(Debug)]
pub struct Functions {
    funcs: Vec<(String, RuntimeFunc)>,
}

impl View for Functions {
    type V = FunctionsView;

    closed spec fn view(&self) -> FunctionsView {
        Seq::new(self.funcs.len() as nat, |i: int| (self.funcs[i].0@, self.funcs[i].1@))
    }
}

/// The standard library, as a table of functions.
pub open spec fn spec_stdlib() -> FunctionsView {
    Seq::empty()
        .push(("itoa"@, RtView::Internal(Builtin::Itoa)))
        .push(("atoi"@, RtView::Internal(Builtin::Atoi)))
        .push(("max"@, RtView::Internal(Builtin::Max)))
        .push(("min"@, RtView::Internal(Builtin::Min)))
        .push(("add"@, RtView::Internal(Builtin::Add)))
        .push(("sub"@, RtView::Internal(Builtin::Sub)))
        .push(("dump_var"@, RtView::Internal(Builtin::DumpVar)))
        .push(("sprintf"@, RtView::Internal(Builtin::Sprintf)))
        .push(("printf"@, RtView::Internal(Builtin::Printf)))
        .push(("puts"@, RtView::Internal(Builtin::Puts)))
        .push(("nth"@, RtView::Internal(Builtin::Nth)))
        .push(("split"@, RtView::Internal(Builtin::Split)))
        .push(("len"@, RtView::Internal(Builtin::Len)))
        .push(("enumerate"@, RtView::Internal(Builtin::Enumerate)))
        .push(("chars"@, RtView::Internal(Builtin::Chars)))
        .push(("only"@, RtView::Internal(Builtin::Only)))
        .push(("rev"@, RtView::Internal(Builtin::Rev)))
        .push(("range"@, RtView::Internal(Builtin::Range)))
        .push(("eq"@, RtView::Internal(Builtin::Equals)))
        .push(("file"@, RtView::Internal(Builtin::File)))
        .push(("create"@, RtView::Internal(Builtin::Create)))
        .push(("open"@, RtView::Internal(Builtin::Open)))
        .push(("dump"@, RtView::Internal(Builtin::Dump)))
        .push(("lines"@, RtView::Internal(Builtin::Lines)))
        .push(("skip"@, RtView::Internal(Builtin::Skip)))
        .push(("fpop"@, RtView::Internal(Builtin::Fpop)))
        .push(("panic"@, RtView::Internal(Builtin::Panic)))
        .push(("exit"@, RtView::Internal(Builtin::Exit)))
        .push(("args"@, RtView::Internal(Builtin::Args)))
        .push(("ok"@, RtView::Internal(Builtin::MakeOk)))
        .push(("err"@, RtView::Internal(Builtin::MakeErr)))
        .push(("trim"@, RtView::Internal(Builtin::Trim)))
        .push(("trim_left"@, RtView::Internal(Builtin::TrimLeft)))
        .push(("trim_right"@, RtView::Internal(Builtin::TrimRight)))
        .push(("upper"@, RtView::Internal(Builtin::Upper)))
        .push(("lower"@, RtView::Internal(Builtin::Lower)))
        .push(("replace"@, RtView::Internal(Builtin::Replace)))
        .push(("split_at"@, RtView::Internal(Builtin::SplitAt)))
}

/// The signatures of the standard library, as its documentation gives them.
pub open spec fn spec_stdlib_signatures() -> TableView {
    Seq::empty()
        .push(("itoa"@, FuncDefView { args: seq![Type::Integer], ret: Type::String }))
        .push(("atoi"@, FuncDefView { args: seq![Type::String], ret: Type::Result(Box::new(Type::Integer), Box::new(Type::String)) }))
        .push(("max"@, FuncDefView { args: seq![Type::Integer, Type::Integer], ret: Type::Integer }))
        .push(("min"@, FuncDefView { args: seq![Type::Integer, Type::Integer], ret: Type::Integer }))
        .push(("add"@, FuncDefView { args: seq![Type::Integer, Type::Integer], ret: Type::Integer }))
        .push(("sub"@, FuncDefView { args: seq![Type::Integer, Type::Integer], ret: Type::Integer }))
        .push(("dump_var"@, FuncDefView { args: seq![Type::Any], ret: Type::Unit }))
        .push(("sprintf"@, FuncDefView { args: seq![Type::String, Type::Array(Box::new(Type::Any))], ret: Type::String }))
        .push(("printf"@, FuncDefView { args: seq![Type::String, Type::Array(Box::new(Type::Any))], ret: Type::Integer }))
        .push(("puts"@, FuncDefView { args: seq![Type::String], ret: Type::Unit }))
        .push(("nth"@, FuncDefView { args: seq![Type::Array(Box::new(Type::Any)), Type::Integer], ret: Type::Result(Box::new(Type::Any), Box::new(Type::String)) }))
        .push(("split"@, FuncDefView { args: seq![Type::String, Type::String], ret: Type::Array(Box::new(Type::String)) }))
        .push(("len"@, FuncDefView { args: seq![Type::Any], ret: Type::Integer }))
        .push(("enumerate"@, FuncDefView { args: seq![Type::Array(Box::new(Type::Any))], ret: Type::Array(Box::new(Type::Array(Box::new(Type::Any)))) }))
        .push(("chars"@, FuncDefView { args: seq![Type::String], ret: Type::Array(Box::new(Type::String)) }))
        .push(("only"@, FuncDefView { args: seq![Type::Array(Box::new(Type::Any)), Type::Integer], ret: Type::Array(Box::new(Type::Any)) }))
        .push(("rev"@, FuncDefView { args: seq![Type::Array(Box::new(Type::Any))], ret: Type::Array(Box::new(Type::Any)) }))
        .push(("range"@, FuncDefView { args: seq![Type::Integer, Type::Integer], ret: Type::Array(Box::new(Type::Integer)) }))
        .push(("eq"@, FuncDefView { args: seq![Type::Any, Type::Any], ret: Type::Result(Box::new(Type::Unit), Box::new(Type::Unit)) }))
        .push(("file"@, FuncDefView { args: seq![Type::String], ret: Type::File }))
        .push(("create"@, FuncDefView { args: seq![Type::File], ret: Type::Result(Box::new(Type::File), Box::new(Type::String)) }))
        .push(("open"@, FuncDefView { args: seq![Type::File], ret: Type::Result(Box::new(Type::Stream), Box::new(Type::String)) }))
        .push(("dump"@, FuncDefView { args: seq![Type::Stream, Type::String], ret: Type::Result(Box::new(Type::Unit), Box::new(Type::String)) }))
        .push(("lines"@, FuncDefView { args: seq![Type::Stream], ret: Type::Result(Box::new(Type::Array(Box::new(Type::String))), Box::new(Type::String)) }))
        .push(("skip"@, FuncDefView { args: seq![Type::Array(Box::new(Type::String)), Type::Integer], ret: Type::Result(Box::new(Type::Array(Box::new(Type::String))), Box::new(Type::String)) }))
        .push(("fpop"@, FuncDefView { args: seq![Type::File], ret: Type::Result(Box::new(Type::File), Box::new(Type::String)) }))
        .push(("panic"@, FuncDefView { args: seq![Type::String], ret: Type::Unret }))
        .push(("exit"@, FuncDefView { args: seq![Type::Integer], ret: Type::Unret }))
        .push(("args"@, FuncDefView { args: Seq::<Type>::empty(), ret: Type::Array(Box::new(Type::String)) }))
        .push(("ok"@, FuncDefView { args: seq![Type::Any], ret: Type::Result(Box::new(Type::Any), Box::new(Type::Any)) }))
        .push(("err"@, FuncDefView { args: seq![Type::Any], ret: Type::Result(Box::new(Type::Any), Box::new(Type::Any)) }))
        .push(("trim"@, FuncDefView { args: seq![Type::String], ret: Type::String }))
        .push(("trim_left"@, FuncDefView { args: seq![Type::String], ret: Type::String }))
        .push(("trim_right"@, FuncDefView { args: seq![Type::String], ret: Type::String }))
        .push(("upper"@, FuncDefView { args: seq![Type::String], ret: Type::String }))
        .push(("lower"@, FuncDefView { args: seq![Type::String], ret: Type::String }))
        .push(("replace"@, FuncDefView { args: seq![Type::String, Type::String, Type::String], ret: Type::String }))
        .push(("split_at"@, FuncDefView { args: seq![Type::String, Type::Integer], ret: Type::Result(Box::new(Type::Array(Box::new(Type::String))), Box::new(Type::String)) }))
        .push(("last"@, FuncDefView { args: seq![Type::Array(Box::new(Type::Any))], ret: Type::Any }))
}

fn builtin(f: &mut Functions, name: &str, b: Builtin)
    ensures
        final(f)@ == old(f)@.push((name@, RtView::Internal(b))),
{
    f.insert(name, RuntimeFunc::Internal(b));
}

fn sig0(t: &mut FuncTable, name: &str, ret: Type)
    ensures
        final(t)@ == old(t)@.push((name@, FuncDefView { args: Seq::<Type>::empty(), ret })),
{
    let args: Vec<Type> = Vec::new();
    assert(args@ =~= Seq::<Type>::empty());
    t.insert(name, FuncDef { args, ret });
}

fn sig1(t: &mut FuncTable, name: &str, a: Type, ret: Type)
    ensures
        final(t)@ == old(t)@.push((name@, FuncDefView { args: seq![a], ret })),
{
    let mut args: Vec<Type> = Vec::new();
    args.push(a);
    assert(args@ =~= seq![a]);
    t.insert(name, FuncDef { args, ret });
}

fn sig2(t: &mut FuncTable, name: &str, a: Type, b: Type, ret: Type)
    ensures
        final(t)@ == old(t)@.push((name@, FuncDefView { args: seq![a, b], ret })),
{
    let mut args: Vec<Type> = Vec::new();
    args.push(a);
    args.push(b);
    assert(args@ =~= seq![a, b]);
    t.insert(name, FuncDef { args, ret });
}

fn sig3(t: &mut FuncTable, name: &str, a: Type, b: Type, c: Type, ret: Type)
    ensures
        final(t)@ == old(t)@.push((name@, FuncDefView { args: seq![a, b, c], ret })),
{
    let mut args: Vec<Type> = Vec::new();
    args.push(a);
    args.push(b);
    args.push(c);
    assert(args@ =~= seq![a, b, c]);
    t.insert(name, FuncDef { args, ret });
}

/// The signatures of the standard library, for the type checker.
pub fn stdlib_signatures() -> (t: FuncTable)
    ensures
        t@ == spec_stdlib_signatures(),
{
    let mut t = FuncTable::new();
    sig1(&mut t, "itoa", Type::Integer, Type::String);
    sig1(&mut t, "atoi", Type::String, Type::Result(Box::new(Type::Integer), Box::new(Type::String)));
    sig2(&mut t, "max", Type::Integer, Type::Integer, Type::Integer);
    sig2(&mut t, "min", Type::Integer, Type::Integer, Type::Integer);
    sig2(&mut t, "add", Type::Integer, Type::Integer, Type::Integer);
    sig2(&mut t, "sub", Type::Integer, Type::Integer, Type::Integer);
    sig1(&mut t, "dump_var", Type::Any, Type::Unit);
    sig2(&mut t, "sprintf", Type::String, Type::Array(Box::new(Type::Any)), Type::String);
    sig2(&mut t, "printf", Type::String, Type::Array(Box::new(Type::Any)), Type::Integer);
    sig1(&mut t, "puts", Type::String, Type::Unit);
    sig2(&mut t, "nth", Type::Array(Box::new(Type::Any)), Type::Integer, Type::Result(Box::new(Type::Any), Box::new(Type::String)));
    sig2(&mut t, "split", Type::String, Type::String, Type::Array(Box::new(Type::String)));
    sig1(&mut t, "len", Type::Any, Type::Integer);
    sig1(&mut t, "enumerate", Type::Array(Box::new(Type::Any)), Type::Array(Box::new(Type::Array(Box::new(Type::Any)))));
    sig1(&mut t, "chars", Type::String, Type::Array(Box::new(Type::String)));
    sig2(&mut t, "only", Type::Array(Box::new(Type::Any)), Type::Integer, Type::Array(Box::new(Type::Any)));
    sig1(&mut t, "rev", Type::Array(Box::new(Type::Any)), Type::Array(Box::new(Type::Any)));
    sig2(&mut t, "range", Type::Integer, Type::Integer, Type::Array(Box::new(Type::Integer)));
    sig2(&mut t, "eq", Type::Any, Type::Any, Type::Result(Box::new(Type::Unit), Box::new(Type::Unit)));
    sig1(&mut t, "file", Type::String, Type::File);
    sig1(&mut t, "create", Type::File, Type::Result(Box::new(Type::File), Box::new(Type::String)));
    sig1(&mut t, "open", Type::File, Type::Result(Box::new(Type::Stream), Box::new(Type::String)));
    sig2(&mut t, "dump", Type::Stream, Type::String, Type::Result(Box::new(Type::Unit), Box::new(Type::String)));
    sig1(&mut t, "lines", Type::Stream, Type::Result(Box::new(Type::Array(Box::new(Type::String))), Box::new(Type::String)));
    sig2(&mut t, "skip", Type::Array(Box::new(Type::String)), Type::Integer, Type::Result(Box::new(Type::Array(Box::new(Type::String))), Box::new(Type::String)));
    sig1(&mut t, "fpop", Type::File, Type::Result(Box::new(Type::File), Box::new(Type::String)));
    sig1(&mut t, "panic", Type::String, Type::Unret);
    sig1(&mut t, "exit", Type::Integer, Type::Unret);
    sig0(&mut t, "args", Type::Array(Box::new(Type::String)));
    sig1(&mut t, "ok", Type::Any, Type::Result(Box::new(Type::Any), Box::new(Type::Any)));
    sig1(&mut t, "err", Type::Any, Type::Result(Box::new(Type::Any), Box::new(Type::Any)));
    sig1(&mut t, "trim", Type::String, Type::String);
    sig1(&mut t, "trim_left", Type::String, Type::String);
    sig1(&mut t, "trim_right", Type::String, Type::String);
    sig1(&mut t, "upper", Type::String, Type::String);
    sig1(&mut t, "lower", Type::String, Type::String);
    sig3(&mut t, "replace", Type::String, Type::String, Type::String, Type::String);
    sig2(
        &mut t,
        "split_at",
        Type::String,
        Type::Integer,
        Type::Result(Box::new(Type::Array(Box::new(Type::String))), Box::new(Type::String)),
    );
    sig1(&mut t, "last", Type::Array(Box::new(Type::Any)), Type::Any);
    t
}

/// The IR of the functions of the standard library that are written in Diamond: `last`, the
/// value of the last element of an array (`()` for an empty one), which is
/// `let last(lst: [any]): any = for (i in lst) i;`.
pub open spec fn spec_stdlib_ir() -> Seq<IRView> {
    seq![
        IRView::Stmt(
            Box::new(
                IRView::FuncLet {
                    name: "last"@,
                    args: seq![("lst_1"@, Type::Array(Box::new(Type::Any)))],
                    internal: false,
                    ret: Type::Any,
                    body: Box::new(
                        IRView::For {
                            bind: "i_1"@,
                            iter: Box::new(IRView::Ident("lst_1"@)),
                            body: Box::new(IRView::Ident("i_1"@)),
                        },
                    ),
                },
            ),
        ),
    ]
}

/// The IR of the functions of the standard library that are written in Diamond.
pub fn stdlib_ir() -> (v: Vec<IR>)
    ensures
        v@.len() == spec_stdlib_ir().len(),
        forall|i: int| 0 <= i < v@.len() ==> #[trigger] v@[i]@ == spec_stdlib_ir()[i],
{
    let mut args: Vec<(String, Type)> = Vec::new();
    args.push((String::from_str("lst_1"), Type::Array(Box::new(Type::Any))));
    assert(params_view(args@) =~= seq![("lst_1"@, Type::Array(Box::new(Type::Any)))]);
    let it = IR::Ident(String::from_str("lst_1"));
    assert(it@ == IRView::Ident("lst_1"@));
    let el = IR::Ident(String::from_str("i_1"));
    assert(el@ == IRView::Ident("i_1"@));
    let body = IR::For { bind: String::from_str("i_1"), iter: Box::new(it), body: Box::new(el) };
    assert(body@ == IRView::For {
        bind: "i_1"@,
        iter: Box::new(IRView::Ident("lst_1"@)),
        body: Box::new(IRView::Ident("i_1"@)),
    });
    let name = String::from_str("last");
    proof {
        reveal_strlit("last");
    }
    let def = IR::FuncLet { name, args, internal: false, ret: Type::Any, body: Box::new(body) };
    let ghost dv = def@;
    let last = IR::Stmt(Box::new(def));
    assert(last@ == IRView::Stmt(Box::new(dv)));
    assert(last@ == spec_stdlib_ir()[0]);
    let mut v: Vec<IR> = Vec::new();
    v.push(last);
    v
}

impl Functions {
    /// The standard library.
    pub fn stdlib() -> (f: Functions)
        ensures
            f@ == spec_stdlib(),
    {
        let mut f = Functions { funcs: Vec::new() };
        assert(f@ =~= Seq::<(Seq<char>, RtView)>::empty());
        builtin(&mut f, "itoa", Builtin::Itoa);
        builtin(&mut f, "atoi", Builtin::Atoi);
        builtin(&mut f, "max", Builtin::Max);
        builtin(&mut f, "min", Builtin::Min);
        builtin(&mut f, "add", Builtin::Add);
        builtin(&mut f, "sub", Builtin::Sub);
        builtin(&mut f, "dump_var", Builtin::DumpVar);
        builtin(&mut f, "sprintf", Builtin::Sprintf);
        builtin(&mut f, "printf", Builtin::Printf);
        builtin(&mut f, "puts", Builtin::Puts);
        builtin(&mut f, "nth", Builtin::Nth);
        builtin(&mut f, "split", Builtin::Split);
        builtin(&mut f, "len", Builtin::Len);
        builtin(&mut f, "enumerate", Builtin::Enumerate);
        builtin(&mut f, "chars", Builtin::Chars);
        builtin(&mut f, "only", Builtin::Only);
        builtin(&mut f, "rev", Builtin::Rev);
        builtin(&mut f, "range", Builtin::Range);
        builtin(&mut f, "eq", Builtin::Equals);
        builtin(&mut f, "file", Builtin::File);
        builtin(&mut f, "create", Builtin::Create);
        builtin(&mut f, "open", Builtin::Open);
        builtin(&mut f, "dump", Builtin::Dump);
        builtin(&mut f, "lines", Builtin::Lines);
        builtin(&mut f, "skip", Builtin::Skip);
        builtin(&mut f, "fpop", Builtin::Fpop);
        builtin(&mut f, "panic", Builtin::Panic);
        builtin(&mut f, "exit", Builtin::Exit);
        builtin(&mut f, "args", Builtin::Args);
        builtin(&mut f, "ok", Builtin::MakeOk);
        builtin(&mut f, "err", Builtin::MakeErr);
        builtin(&mut f, "trim", Builtin::Trim);
        builtin(&mut f, "trim_left", Builtin::TrimLeft);
        builtin(&mut f, "trim_right", Builtin::TrimRight);
        builtin(&mut f, "upper", Builtin::Upper);
        builtin(&mut f, "lower", Builtin::Lower);
        builtin(&mut f, "replace", Builtin::Replace);
        builtin(&mut f, "split_at", Builtin::SplitAt);
        f
    }

    /// Add a function; it replaces any earlier one of the same name.
    pub fn insert(&mut self, name: &str, func: RuntimeFunc)
        ensures
            final(self)@ == old(self)@.push((name@, func@)),
    {
        let ghost fv = func@;
        self.funcs.push((String::from_str(name), func));
        assert(self@ =~= old(self)@.push((name@, fv)));
    }

    /// The function `name` stands for.
    pub fn resolve(&self, name: &str) -> (r: Option<&RuntimeFunc>)
        ensures
            match r {
                Some(f) => func_lookup(self@, name@) == Some(f@),
                None => func_lookup(self@, name@) is None,
            },
    {
        let key = String::from_str(name);
        let mut i: usize = self.funcs.len();
        assert(self@.take(i as int) =~= self@);
        while i > 0
            invariant
                i <= self.funcs.len(),
                key@ == name@,
                func_lookup(self@, name@) == func_lookup(self@.take(i as int), name@),
            decreases i,
        {
            assert(self@.take(i as int).drop_last() =~= self@.take(i - 1));
            if self.funcs[i - 1].0 == key {
                return Some(&self.funcs[i - 1].1);
            }
            i -= 1;
        }
        assert(self@.take(0) =~= Seq::<(Seq<char>, RtView)>::empty());
        None
    }
}


/// After a function is added under a name, the name stands for it; other names stand for what
/// they stood for before.
pub proof fn lemma_resolve_after_insert(t: FunctionsView, name: Seq<char>, f: RtView, other: Seq<char>)
    ensures
        func_lookup(t.push((name, f)), name) == Some(f),
        other != name ==> func_lookup(t.push((name, f)), other) == func_lookup(t, other),
{
    assert(t.push((name, f)).drop_last() =~= t);
}

} // verus!
