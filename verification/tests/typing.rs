use diamond::interpreter::stdlib::stdlib_signatures;
use diamond::parse::types::{
    FuncArg, FuncCall, FuncLet, For, Grouping, Let, Match, PAtomic, PForInner, PMatchArm,
    PMatchCase, PType, PVal, SourceSpan, Span, Spanned,
};
use diamond::typing::pass_one::{FuncDef, FuncTable, VerifyError};
use diamond::typing::pass_two::{Attributes, TypeCheckError, TypeChecker};
use diamond::typing::phase_one::{self, PhaseOneError};
use diamond::typing::scoping::{AstWalker, ScopeStack};
use diamond::typing::strata::vargen_strategies::interpreter::VarGenInterpreter;
use diamond::typing::strata::vargen_strategies::qbe::QbeVarGen;
use diamond::typing::strata::web::{VarGen, Web};
use diamond::typing::strata::{VarGenerator, IR};
use diamond::typing::types::Type;

fn sp(a: usize, b: usize) -> Span {
    Span::new(a, b)
}

fn node(v: PVal) -> Spanned<PVal> {
    Spanned::new(v, sp(0, 1))
}

fn boxed(v: PVal) -> Spanned<Box<PVal>> {
    Spanned::new(Box::new(v), sp(0, 1))
}

fn int_of(n: usize) -> PVal {
    PVal::Atomic(Spanned::new(PAtomic::Integer(Spanned::new(n, sp(0, 1))), sp(0, 1)))
}

fn string(s: &str) -> PVal {
    PVal::Atomic(Spanned::new(PAtomic::String(Spanned::new(s.to_string(), sp(0, 1))), sp(0, 1)))
}

fn unit() -> PVal {
    PVal::Atomic(Spanned::new(PAtomic::Unit(Spanned::new("()".to_string(), sp(0, 2))), sp(0, 2)))
}

fn ident_at(s: &str, a: usize, b: usize) -> PVal {
    PVal::Atomic(Spanned::new(PAtomic::Ident(Spanned::new(s.to_string(), sp(a, b))), sp(a, b)))
}

fn ident(s: &str) -> PVal {
    ident_at(s, 0, 1)
}

fn array(elems: Vec<PVal>) -> PVal {
    let items: Vec<Spanned<PVal>> = elems.into_iter().map(node).collect();
    PVal::Atomic(Spanned::new(PAtomic::Array(Spanned::new(Spanned::new(items, sp(0, 1)), sp(0, 1))), sp(0, 1)))
}

fn call(name: &str, args: Vec<PVal>) -> PVal {
    let items: Vec<Spanned<PVal>> = args.into_iter().map(node).collect();
    PVal::FuncCall(FuncCall::new(boxed(ident(name)), Some(Spanned::new(items, sp(0, 1))), None))
}

fn call_unwrap(name: &str, args: Vec<PVal>) -> PVal {
    let items: Vec<Spanned<PVal>> = args.into_iter().map(node).collect();
    PVal::FuncCall(FuncCall::new(
        boxed(ident(name)),
        Some(Spanned::new(items, sp(0, 1))),
        Some(Spanned::new(true, sp(7, 8))),
    ))
}

fn let_(name: &str, v: PVal) -> PVal {
    PVal::Let(Let::new(Spanned::new(name.to_string(), sp(4, 5)), boxed(v)))
}

fn ty(word: &str) -> PType {
    let t = Spanned::new(word.to_string(), sp(20, 21));
    match word {
        "integer" => PType::Integer(t),
        "string" => PType::String(t),
        "unit" => PType::Unit(t),
        "any" => PType::Any(t),
        "stream" => PType::Stream(t),
        "file" => PType::File(t),
        _ => PType::Unret(t),
    }
}

fn array_ty(inner: PType) -> PType {
    PType::Array(Spanned::new(Box::new(inner), sp(20, 22)))
}

fn funclet(name: &str, params: Vec<(&str, PType)>, ret: Option<PType>, body: PVal) -> PVal {
    let args: Vec<FuncArg> = params
        .into_iter()
        .map(|(n, t)| FuncArg { name: Spanned::new(n.to_string(), sp(0, 1)), ty: t })
        .collect();
    PVal::FuncLet(FuncLet::new(boxed(ident(name)), Some(Spanned::new(args, sp(0, 1))), ret, boxed(body), false))
}

fn grouping(stmts: Vec<PVal>) -> PVal {
    PVal::Grouping(Grouping::new(stmts.into_iter().map(node).collect(), None))
}

fn stmt(v: PVal) -> PVal {
    PVal::Stmt(boxed(v))
}

fn check(program: Vec<PVal>) -> Result<Vec<IR>, TypeCheckError> {
    let nodes: Vec<Spanned<PVal>> = program.into_iter().map(node).collect();
    let walker = AstWalker::new(&nodes);
    let mut funcs = walker.collect_function_defs();
    funcs.extend(stdlib_signatures());
    let mut checker = TypeChecker::new(&funcs, "test.di", "");
    checker.check_program(&nodes)?;
    Ok(checker.ir().iter().cloned().collect())
}

#[test]
fn let_binding_gets_a_fresh_name() {
    let ir = check(vec![let_("x", int_of(5)), let_("y", ident("x")), let_("x", ident("y"))]).unwrap();
    assert!(matches!(&ir[0], IR::Let { name, ty: Type::Integer, .. } if name == "x_1"));
    match &ir[1] {
        IR::Let { name, ty: Type::Integer, value } if name == "y_1" => {
            assert!(matches!(&**value, IR::Ident(x) if x == "x_1"))
        }
        other => panic!("unexpected {:?}", other),
    }
    match &ir[2] {
        IR::Let { name, value, .. } if name == "x_2" => assert!(matches!(&**value, IR::Ident(y) if y == "y_1")),
        other => panic!("unexpected {:?}", other),
    }
}

#[test]
fn unknown_variable_is_reported_with_its_name() {
    let err = check(vec![let_("y", ident_at("x", 8, 9))]).unwrap_err();
    match err {
        TypeCheckError::UnknownVariable { name, bad_bit } => {
            assert_eq!(name, "x");
            assert_eq!(bad_bit, SourceSpan { offset: 8, len: 1 });
        }
        other => panic!("unexpected {:?}", other),
    }
}

#[test]
fn let_does_not_see_its_own_name() {
    let err = check(vec![let_("x", ident("x"))]).unwrap_err();
    assert!(matches!(err, TypeCheckError::UnknownVariable { .. }));
}

#[test]
fn stdlib_call_has_its_declared_type() {
    let ir = check(vec![let_("s", call("itoa", vec![int_of(99)]))]).unwrap();
    assert!(matches!(&ir[0], IR::Let { ty: Type::String, .. }));
}

#[test]
fn argument_of_wrong_type_is_reported() {
    let err = check(vec![call("itoa", vec![string("a")])]).unwrap_err();
    match err {
        TypeCheckError::VerifyError(VerifyError::ArgumentTypeMismatch { slot, expected, got, .. }) => {
            assert_eq!(slot, 0);
            assert!(matches!(expected, Type::Integer));
            assert!(matches!(got, Type::String));
        }
        other => panic!("unexpected {:?}", other),
    }
}

#[test]
fn wrong_number_of_arguments_is_reported() {
    let err = check(vec![call("itoa", vec![int_of(1), int_of(2)])]).unwrap_err();
    assert!(matches!(
        err,
        TypeCheckError::VerifyError(VerifyError::ArgumentLengthMismatch { expected: 1, got: 2, .. })
    ));
}

#[test]
fn unknown_function_is_reported() {
    let err = check(vec![call("nope", vec![])]).unwrap_err();
    match err {
        TypeCheckError::UnknownFunction { name, .. } => assert_eq!(name, "nope"),
        other => panic!("unexpected {:?}", other),
    }
}

#[test]
fn heterogeneous_array_is_rejected_outside_any_parameters() {
    // let arr = [1, "two"];
    // printf("%d and %s\n", arr);
    let program = vec![
        let_("arr", array(vec![int_of(1), string("two")])),
        call("printf", vec![string("%d and %s\n"), ident("arr")]),
    ];
    match check(program) {
        Err(TypeCheckError::VerifyError(VerifyError::MismatchedArrayElements { expected, got, .. })) => {
            assert!(matches!(expected, Type::Integer));
            assert!(matches!(got, Type::String));
        }
        other => panic!("{:?}", other),
    }
}

#[test]
fn any_array_parameter_takes_mixed_elements() {
    let ir = check(vec![call("printf", vec![string("%s %d"), array(vec![string("a"), int_of(1)])])]).unwrap();
    assert_eq!(ir.len(), 1);
}

#[test]
fn wrong_return_type_is_reported() {
    let err = check(vec![funclet("f", vec![], Some(ty("integer")), string("s"))]).unwrap_err();
    match err {
        TypeCheckError::VerifyError(VerifyError::InvalidReturnType { expected, got, decl, .. }) => {
            assert!(matches!(expected, Type::Integer));
            assert!(matches!(got, Type::String));
            assert_eq!(decl, SourceSpan { offset: 20, len: 1 });
        }
        other => panic!("unexpected {:?}", other),
    }
}

#[test]
fn function_without_return_type_returns_unit() {
    assert!(check(vec![funclet("f", vec![], None, grouping(vec![stmt(call("puts", vec![string("x")]))]))]).is_ok());
    let err = check(vec![funclet("g", vec![], None, int_of(1))]).unwrap_err();
    assert!(matches!(err, TypeCheckError::VerifyError(VerifyError::InvalidReturnType { .. })));
}

#[test]
fn unwrap_of_non_result_is_reported() {
    let err = check(vec![call_unwrap("itoa", vec![int_of(1)])]).unwrap_err();
    assert!(matches!(
        err,
        TypeCheckError::VerifyError(VerifyError::UnwrapNonResult { bad_bit: SourceSpan { offset: 7, len: 1 } })
    ));
    let ir = check(vec![let_("n", call_unwrap("atoi", vec![string("5")]))]).unwrap();
    assert!(matches!(&ir[0], IR::Let { ty: Type::Integer, .. }));
}

#[test]
fn loop_over_non_array_is_reported() {
    let f = For::new(
        Spanned::new(PForInner { bind: Spanned::new("c".to_string(), sp(0, 1)), expr: boxed(int_of(3)) }, sp(0, 1)),
        boxed(unit()),
    );
    let err = check(vec![PVal::For(f)]).unwrap_err();
    assert!(matches!(err, TypeCheckError::VerifyError(VerifyError::NonIterable { got: Type::Integer, .. })));
}

#[test]
fn loop_binds_the_element_type() {
    let f = For::new(
        Spanned::new(
            PForInner { bind: Spanned::new("c".to_string(), sp(0, 1)), expr: boxed(call("chars", vec![string("ab")])) },
            sp(0, 1),
        ),
        boxed(call("puts", vec![ident("c")])),
    );
    let ir = check(vec![PVal::For(f)]).unwrap();
    assert!(matches!(&ir[0], IR::For { bind, .. } if bind == "c_1"));
}

#[test]
fn match_needs_a_result_and_arms_of_one_type() {
    let arm = |case: PMatchCase, body: PVal| {
        Spanned::new(
            PMatchArm { res: case, inner: Spanned::new("v".to_string(), sp(0, 1)), expr: boxed(body) },
            sp(0, 1),
        )
    };
    let ok_case = || PMatchCase::OkBranch(Spanned::new("ok".to_string(), sp(0, 2)));
    let err_case = || PMatchCase::ErrBranch(Spanned::new("err".to_string(), sp(0, 3)));
    let good = Match::new(
        boxed(call("atoi", vec![string("1")])),
        vec![arm(ok_case(), ident("v")), arm(err_case(), call("len", vec![ident("v")]))],
    );
    let ir = check(vec![let_("n", PVal::Match(good))]).unwrap();
    assert!(matches!(&ir[0], IR::Let { ty: Type::Integer, .. }));

    let bad = Match::new(
        boxed(call("atoi", vec![string("1")])),
        vec![arm(ok_case(), ident("v")), arm(err_case(), ident("v"))],
    );
    let err = check(vec![PVal::Match(bad)]).unwrap_err();
    assert!(matches!(
        err,
        TypeCheckError::VerifyError(VerifyError::MismatchedMatchArms { expected: Type::String, got: Type::Integer, .. })
    ));

    let not_result = Match::new(boxed(int_of(1)), vec![arm(ok_case(), ident("v"))]);
    let err = check(vec![PVal::Match(not_result)]).unwrap_err();
    assert!(matches!(err, TypeCheckError::VerifyError(VerifyError::UnwrapNonResult { .. })));
}

#[test]
fn redirect_must_be_a_stream() {
    let g = Grouping::new(vec![node(unit())], Some(boxed(int_of(1))));
    let err = check(vec![PVal::Grouping(g)]).unwrap_err();
    assert!(matches!(
        err,
        TypeCheckError::VerifyError(VerifyError::MismatchedType { expected: Type::Stream, got: Type::Integer, .. })
    ));
}

#[test]
fn statement_is_unit_and_grouping_has_its_last_type() {
    let ir = check(vec![let_("a", grouping(vec![stmt(int_of(1))])), let_("b", grouping(vec![int_of(1)]))]).unwrap();
    assert!(matches!(&ir[0], IR::Let { ty: Type::Unit, .. }));
    assert!(matches!(&ir[1], IR::Let { ty: Type::Integer, .. }));
}

#[test]
fn binding_in_a_grouping_is_not_visible_after_it() {
    let err = check(vec![grouping(vec![let_("x", int_of(1))]), let_("y", ident("x"))]).unwrap_err();
    assert!(matches!(err, TypeCheckError::UnknownVariable { .. }));
}

#[test]
fn later_definition_replaces_earlier_and_nested_ones_are_collected() {
    let program: Vec<Spanned<PVal>> = vec![
        node(funclet("f", vec![], Some(ty("integer")), int_of(1))),
        node(funclet("f", vec![("s", ty("string"))], Some(ty("string")), funclet("inner", vec![], None, unit()))),
    ];
    let table = AstWalker::new(&program).collect_function_defs();
    let f = table.lookup("f").unwrap();
    assert_eq!(f.args.len(), 1);
    assert!(matches!(f.ret, Type::String));
    assert!(table.lookup("inner").is_some());
    assert!(matches!(table.lookup_ret("inner"), Some(Type::Unit)));
    assert!(matches!(table.lookup_ret("f"), Some(Type::String)));
    assert!(table.lookup("missing").is_none());
}

#[test]
fn extended_table_prefers_the_added_signatures() {
    let mut a = FuncTable::new();
    a.insert("f", FuncDef { args: vec![], ret: Type::Integer });
    a.insert("g", FuncDef { args: vec![], ret: Type::Integer });
    let mut b = FuncTable::new();
    b.insert("f", FuncDef { args: vec![], ret: Type::String });
    a.extend(b);
    assert!(matches!(a.lookup_ret("f"), Some(Type::String)));
    assert!(matches!(a.lookup_ret("g"), Some(Type::Integer)));
    assert!(a.lookup("h").is_none());
}

#[test]
fn scopes_shadow_and_forget() {
    let mut s = ScopeStack::new();
    assert_eq!(s.scope(), 0);
    s.insert("x", sp(0, 1), Type::Integer, "x_1".to_string());
    s.push();
    assert_eq!(s.scope(), 1);
    s.insert("x", sp(2, 3), Type::String, "x_2".to_string());
    assert!(matches!(s.get_unique_ident("x"), Some((Type::String, ref u)) if u == "x_2"));
    assert_eq!(s.get_span("x"), Some(&sp(2, 3)));
    s.pop();
    assert!(matches!(s.get("x"), Some(Type::Integer)));
    assert!(s.get("y").is_none());
}

#[test]
fn type_compatibility_and_display() {
    assert!(Type::Any == Type::Integer);
    assert!(Type::String == Type::Unret);
    assert!(Type::Array(Box::new(Type::Integer)) != Type::Array(Box::new(Type::String)));
    assert!(Type::Array(Box::new(Type::Any)).is_any_array());
    assert!(!Type::Array(Box::new(Type::Integer)).is_any_array());
    assert_eq!(Type::Array(Box::new(Type::Integer)).as_display_ty(), "[integer]");
    assert_eq!(Type::Result(Box::new(Type::String), Box::new(Type::Any)).as_display_ty(), "result(string, any)");
    assert!(matches!(Type::default(), Type::Unit));
}

#[test]
fn attributes_default_requires_homogeneous_arrays() {
    let a = Attributes::default();
    assert!(a.homo_arrays_allowed());
    assert!(!a.hetero_arrays_allowed());
}

#[test]
fn variable_names_are_unique() {
    let mut g = VarGenInterpreter::init();
    assert_eq!(&*g.fresh("x"), "x_1");
    assert_eq!(&*g.fresh("x"), "x_2");
    assert_eq!(&*g.fresh("y"), "y_1");
    assert_eq!(&*g.fresh("My-Var"), "my_var_1");
    assert_eq!(&*g.fresh("my_var"), "my_var_2");
    assert_eq!(&*g.fresh("x"), "x_3");
    let mut v = VarGen::new();
    assert_eq!(v.fresh(), 0);
    assert_eq!(v.fresh(), 1);
    let mut w = Web::new();
    w.insert(Type::Integer);
    w.insert(Type::String);
}

#[test]
fn names_are_normalized_to_lower_case_letters() {
    assert_eq!(VarGenInterpreter::normalize("Hello-World_42"), "hello_world_");
    assert_eq!(VarGenInterpreter::normalize("my-var"), "my_var");
    assert_eq!(VarGenInterpreter::normalize(""), "");
}

#[test]
fn qbe_names_are_a_dot_and_a_counter() {
    let mut g = QbeVarGen::init();
    assert_eq!(g.fresh("x"), ".0");
    assert_eq!(g.fresh("y"), ".1");
}

#[test]
fn phase_one_reads_definitions_only() {
    let d = phase_one::FuncDef::from_pval(funclet("f", vec![], Some(ty("integer")), int_of(1))).unwrap();
    let e = phase_one::FuncDef::from_pval(funclet("f", vec![], Some(ty("string")), string("s"))).unwrap();
    assert!(d.verify(&d).is_ok());
    assert!(matches!(d.verify(&e), Err(PhaseOneError::InvalidReturnType { .. })));
    match phase_one::FuncDef::from_pval(int_of(1)) {
        Err(PhaseOneError::InvalidState { expected, got }) => {
            assert_eq!(expected, "FuncLet");
            assert_eq!(got, "Atomic");
        }
        _ => panic!("expected an error"),
    }
}
