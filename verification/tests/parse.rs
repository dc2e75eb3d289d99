use diamond::parse::grammar::{DIParser, Rule};
use diamond::parse::types::{PAtomic, PType, PVal, Span};

fn atomic(v: &PVal) -> &PAtomic {
    match v {
        PVal::Atomic(a) => &a.node,
        other => panic!("not an atomic value: {:?}", other),
    }
}

#[test]
fn func_call() {
    let string = r###"@super_func(ident, ["string", 0], @output())"###;
    let func = DIParser::parse_rule(Rule::func_expr, string).expect("failed to parse `func_expr`");

    let func = match &func.node {
        PVal::FuncCall(f) => f,
        other => panic!("{:?}", other),
    };

    assert_eq!(func.name(), "super_func");

    assert!(!func.has_unwrap());

    let Some(args) = func.args_raw() else {
        unreachable!("args are not empty!");
    };

    // ident, array, func_call
    assert_eq!(args.node.len(), 3);
}

#[test]
fn assign() {
    let string = "let a = 0";
    let assign = DIParser::parse_rule(Rule::assign_expr, string).expect("failed to parse `assign_expr`");

    let assign = match &assign.node {
        PVal::Let(l) => l,
        other => panic!("{:?}", other),
    };

    let expr = match atomic(&assign.expr_raw().node) {
        PAtomic::Integer(i) => i.node,
        other => panic!("{:?}", other),
    };

    assert_eq!(assign.name(), "a");
    assert_eq!(expr, 0);
}

#[test]
fn func_def_to_another_func() {
    let string = "let @foo(x: string) = @bar(x)!";
    let func = DIParser::parse_rule(Rule::func_def_expr, string).expect("failed to parse `func_def_expr`");

    let funclet = match &func.node {
        PVal::FuncLet(f) => f,
        other => panic!("{:?}", other),
    };

    let args = funclet.args_raw().as_ref().expect("we have args");

    assert_eq!(funclet.name(), "foo");

    assert_eq!(args.node.len(), 1);

    let arg = &args.node[0];

    assert_eq!(arg.name.node, "x");
}

#[test]
fn func_def_to_type() {
    let string = "let @f() = ()";
    let func = DIParser::parse_rule(Rule::func_def_expr, string).expect("failed to parse `func_def_expr`");

    let funclet = match &func.node {
        PVal::FuncLet(f) => f,
        other => panic!("{:?}", other),
    };

    assert_eq!(funclet.name(), "f");

    assert_eq!(funclet.args_len(), 0);

    assert!(matches!(atomic(&funclet.body_raw().node), PAtomic::Unit(_)))
}

#[test]
fn func_def_to_grouping() {
    let string = r###"let @tee(file: stream, txt: [string]) = {
                            @printf("%s", txt);
                            @dump(file, txt);
        };"###;

    let func = DIParser::parse_rule(Rule::func_def_expr, string).expect("failed to parse `func_def_expr`");

    let funclet = match &func.node {
        PVal::FuncLet(f) => f,
        other => panic!("{:?}", other),
    };

    assert_eq!(funclet.name(), "tee");

    assert_eq!(funclet.args_len(), 2);

    assert!(matches!(*funclet.body_raw().node, PVal::Grouping { .. }))
}

#[test]
fn match_() {
    let string = r###"match (@nth(ARGV, 0)) {
                ok o = o,
                err e = @panic("expected file to be passed"),
             } # ty : file"###;

    let match_ = DIParser::parse_rule(Rule::match_expr, string).expect("failed to parse `match_expr`");

    let match_ = match &match_.node {
        PVal::Match(m) => m,
        other => panic!("{:?}", other),
    };

    let arms = match_.arms_raw();

    assert!(matches!(*match_.expr_raw().node, PVal::FuncCall { .. }));

    assert_eq!(arms.len(), 2);

    let (ok, err) = (&arms[0], &arms[1]);

    assert!(ok.node.ok());
    assert!(err.node.err());

    let ok_expr = match atomic(&ok.node.expr.node) {
        PAtomic::Ident(i) => i.node.clone(),
        other => panic!("{:?}", other),
    };

    let func = match &*err.node.expr.node {
        PVal::FuncCall(f) => f,
        other => panic!("{:?}", other),
    };

    let func_args = &func.args_raw().expect("argument count should be 1").node;
    assert_eq!(func_args.len(), 1);
    let func_arg = match atomic(&func_args[0].node) {
        PAtomic::String(s) => s.node.clone(),
        other => panic!("{:?}", other),
    };

    assert_eq!(ok_expr, "o");
    assert_eq!(func.name(), "panic");
    assert_eq!(func_arg, "expected file to be passed");
    assert!(!func.has_unwrap());
}

#[test]
fn for_() {
    let string = r###"for (a in @range(0, 50)) {
            @printf("%d\n", a);
        }"###;

    let for_ = DIParser::parse_rule(Rule::for_expr, string).expect("failed to parse `for_expr`");

    let for_ = match &for_.node {
        PVal::For(f) => f,
        other => panic!("{:?}", other),
    };

    let bind = for_.loop_raw().node.bind();

    assert_eq!(bind, "a");

    assert!(matches!(*for_.body_raw().node, PVal::Grouping { .. }))
}

#[test]
fn program() {
    let string = r###"# returns unit type.
let @tee(file: stream, txt: string) = {
    @printf("%s", txt);
    @dump(file, txt);
};

let @bar() = { 5 };

# set file to the first file inputted.
let file = @f(match (@nth(ARGV, 0)) {
                ok o = o,
                err e = @panic("expected file to be passed"),
             }); # ty : file
let output = @open(@create(@f("kvs.txt"))!)!; # ty : stream

{
    let first_line = @nth(STREAM, 0)!; # ty : string
    let csv_header_split = @split(first_line, ","); # ty : [string]
    let csv_length = @length(csv_header_split); # ty : integer
    let header = @sprintf("%s\n", @join_str(csv_header_split, ",")); # ty : string
    @tee(output, header);

    # main loop.
    for (line in @skip(STREAM, 0)) {
        let line_split = @split(line, ",");
        @assert_eq(@length(line_split), csv_length);
        let txt = @sprintf("%s\n", @join_str(line_split, ","));
        @tee(output, txt);
    }
} < @open(file)!;"###;

    let program = DIParser::parse_di(string, "program.di").expect("failed to parse `program`");

    assert_eq!(program.len(), 5);
    assert!(program.iter().all(|s| matches!(s.node, PVal::Stmt(_))));
}

#[test]
fn calls_without_sigil_and_chained_assignments() {
    let program = DIParser::parse_di(
        "puts(\"Hello, World!\\n\");\nlet foo = let bar = let baz = \"hello\"",
        "x.di",
    )
    .expect("parses");
    assert_eq!(program.len(), 2);
    match &program[0].node {
        PVal::Stmt(s) => match &*s.node {
            PVal::FuncCall(f) => assert_eq!(f.name(), "puts"),
            other => panic!("{:?}", other),
        },
        other => panic!("{:?}", other),
    }
    match &program[1].node {
        PVal::Let(l) => {
            assert_eq!(l.name(), "foo");
            assert!(matches!(*l.expr_raw().node, PVal::Let(_)));
        }
        other => panic!("{:?}", other),
    }
}

#[test]
fn program_without_white_space() {
    let program = DIParser::parse_di(
        r#"letstring="Hello, World!"for(char in chars(string))printf("%s", [char])printf("\n", [])"#,
        "x.di",
    )
    .expect("parses");
    assert_eq!(program.len(), 3);
    assert!(matches!(program[0].node, PVal::Let(_)));
    assert!(matches!(program[1].node, PVal::For(_)));
    assert!(matches!(program[2].node, PVal::FuncCall(_)));
}

#[test]
fn spans_are_byte_offsets() {
    let string = "let é = \"ü\"";
    let assign = DIParser::parse_rule(Rule::assign_expr, "let x = \"ü\"").expect("parses");
    assert_eq!(assign.span, Span::new(0, 12));
    match &assign.node {
        PVal::Let(l) => {
            assert_eq!(l.name_raw().span, Span::new(4, 5));
            assert_eq!(l.expr_raw().span, Span::new(8, 12));
            match atomic(&l.expr_raw().node) {
                PAtomic::String(s) => {
                    assert_eq!(s.node, "ü");
                    assert_eq!(s.span, Span::new(8, 12));
                }
                other => panic!("{:?}", other),
            }
        }
        other => panic!("{:?}", other),
    }
    // an identifier is made of ASCII letters, digits and `_` only
    assert!(DIParser::parse_rule(Rule::assign_expr, string).is_err());
}

#[test]
fn function_definition_with_return_type_and_internal_mark() {
    let def = DIParser::parse_rule(
        Rule::func_def_expr,
        "let ~internal enumerate(arr: [any], r: result(integer, string)): [[any]] = ()",
    )
    .expect("parses");
    let f = match &def.node {
        PVal::FuncLet(f) => f,
        other => panic!("{:?}", other),
    };
    assert!(f.is_internal());
    assert_eq!(f.name(), "enumerate");
    assert_eq!(f.args_len(), 2);
    let args = f.args_raw().as_ref().unwrap();
    assert!(matches!(args.node[1].ty, PType::Result(_)));
    match f.ret_raw() {
        Some(PType::Array(a)) => assert!(matches!(*a.node, PType::Array(_))),
        other => panic!("{:?}", other),
    }
}

#[test]
fn unknown_type_name_is_an_error() {
    assert!(DIParser::parse_rule(Rule::func_def_expr, "let f(x: strings) = x").is_err());
    assert!(DIParser::parse_rule(Rule::func_def_expr, "let f(x: string) = x").is_ok());
}

#[test]
fn integer_too_large_is_an_error() {
    assert!(DIParser::parse_di("18446744073709551615;", "x.di").is_ok());
    let e = DIParser::parse_di("18446744073709551616;", "x.di").unwrap_err();
    assert_eq!(e.message, "x.di: expected a statement, an expression or the end of the file");
    assert_eq!(e.span, Span::new(0, 0));
}

#[test]
fn error_points_at_the_first_unreadable_token() {
    let e = DIParser::parse_di("puts(\"a\");\n  ) # oops", "bad.di").unwrap_err();
    assert_eq!(e.span, Span::new(13, 13));
    assert!(DIParser::parse_di("", "empty.di").unwrap().is_empty());
    assert!(DIParser::parse_di("  # only a comment\n", "c.di").unwrap().is_empty());
}

#[test]
fn keywords_are_not_names() {
    assert!(DIParser::parse_rule(Rule::value, "match").is_err());
    assert!(DIParser::parse_rule(Rule::value, "letter").is_ok());
    assert!(DIParser::parse_rule(Rule::func_expr, "for(x)").is_err());
}

#[test]
fn grouping_with_redirect_and_trailing_commas() {
    let g = DIParser::parse_rule(Rule::grouping, "{ a; [1, 2,]; } < open(f)!").expect("parses");
    match &g.node {
        PVal::Grouping(gr) => {
            assert_eq!(gr.stmts_raw().len(), 2);
            assert!(gr.redirect().is_some());
            match &gr.stmts_raw()[1].node {
                PVal::Stmt(s) => match atomic(&s.node) {
                    PAtomic::Array(a) => assert_eq!(a.node.node.len(), 2),
                    other => panic!("{:?}", other),
                },
                other => panic!("{:?}", other),
            }
        }
        other => panic!("{:?}", other),
    }
    assert_eq!(g.span, Span::new(0, 26));
}
