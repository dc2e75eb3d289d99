use diamond::interpreter::engine::{Engine, Request, Stop};
use diamond::interpreter::functions::arrays::{
    byte_len, byte_len_checked, chars, enumerate, last, len, nth, only, range, rev, skip, split,
};
use diamond::interpreter::functions::itoa::{atoi, itoa, parse_usize, IntErrorKind};
use diamond::interpreter::functions::math::{add, max, min, sub};
use diamond::interpreter::functions::printf::{all_are_printable, is_printable, sprintf, Piece};
use diamond::interpreter::functions::result::{eq, err, ok, values_equal};
use diamond::interpreter::functions::file::{lines_answer_of, read_lines};
use diamond::interpreter::functions::strings::{lower, replace, split_at, trim, trim_left, trim_right, upper};
use diamond::interpreter::functions::system::args;
use diamond::interpreter::functions::testing_branch::testing_branch;
use diamond::interpreter::stdlib::{Builtin, Functions, RuntimeFunc, UserFunc};
use diamond::interpreter::types::{push_debug, FileHandle, ILitType, IResultBranch, IStreamHandle};
use diamond::typing::strata::{IRMatchArm, IR};
use diamond::typing::types::Type;

fn s(x: &str) -> ILitType {
    ILitType::String(x.to_string())
}

fn text(v: &ILitType) -> String {
    match v {
        ILitType::String(s) => s.clone(),
        other => panic!("not a string: {:?}", other),
    }
}

fn int_of(v: &ILitType) -> usize {
    match v {
        ILitType::Integer(i) => *i,
        other => panic!("not an integer: {:?}", other),
    }
}

fn texts(v: &ILitType) -> Vec<String> {
    match v {
        ILitType::Array(a) => a.iter().map(text).collect(),
        other => panic!("not an array: {:?}", other),
    }
}

fn ints(v: &ILitType) -> Vec<usize> {
    match v {
        ILitType::Array(a) => a.iter().map(int_of).collect(),
        other => panic!("not an array: {:?}", other),
    }
}

/// The branch of a result and what it holds.
fn result(v: ILitType) -> (bool, ILitType) {
    match v {
        ILitType::Result(IResultBranch::OkBranch(x)) => (true, *x),
        ILitType::Result(IResultBranch::ErrBranch(x)) => (false, *x),
        other => panic!("not a result: {:?}", other),
    }
}

fn pieces_text(p: &[Piece]) -> String {
    match p {
        [Piece::Text(t)] => t.clone(),
        [] => String::new(),
        other => panic!("not one text piece: {:?}", other),
    }
}

fn call(name: &str, args: Vec<IR>, unwrap: bool) -> IR {
    IR::FuncCall { name: name.to_string(), args, unwrap }
}

fn string_ir(x: &str) -> IR {
    IR::String(x.to_string())
}

#[test]
fn itoa_writes_decimal() {
    assert_eq!(text(&itoa(99)), "99");
    assert_eq!(text(&itoa(0)), "0");
    assert_eq!(text(&itoa(usize::MAX)), usize::MAX.to_string());
}

#[test]
fn atoi_reads_decimal() {
    let (is_ok, v) = result(atoi("99"));
    assert!(is_ok);
    assert_eq!(int_of(&v), 99);
    let (is_ok, v) = result(atoi("+7"));
    assert!(is_ok);
    assert_eq!(int_of(&v), 7);
}

#[test]
fn atoi_errors_carry_std_messages() {
    let (is_ok, v) = result(atoi(""));
    assert!(!is_ok);
    assert_eq!(text(&v), "cannot parse integer from empty string");
    let (is_ok, v) = result(atoi("12a"));
    assert!(!is_ok);
    assert_eq!(text(&v), "invalid digit found in string");
    let (is_ok, v) = result(atoi("-"));
    assert!(!is_ok);
    assert_eq!(text(&v), "invalid digit found in string");
    let (is_ok, v) = result(atoi("99999999999999999999999"));
    assert!(!is_ok);
    assert_eq!(text(&v), "number too large to fit in target type");
}

#[test]
fn parse_usize_agrees_with_std() {
    for t in ["", "0", "+", "-", "+12", "-3", "007", "18446744073709551615", "18446744073709551616", " 1", "1 "] {
        let ours = parse_usize(t);
        let theirs = t.parse::<usize>();
        match (ours, theirs) {
            (Ok(a), Ok(b)) => assert_eq!(a, b),
            (Err(IntErrorKind::Empty), Err(_)) => assert!(t.is_empty()),
            (Err(_), Err(_)) => {}
            (a, b) => panic!("{:?}: {:?} against {:?}", t, a, b),
        }
    }
}

#[test]
fn math_functions() {
    assert_eq!(int_of(&max(3, 9)), 9);
    assert_eq!(int_of(&min(3, 9)), 3);
    assert_eq!(int_of(&add(3, 9)), 12);
    assert_eq!(int_of(&add(usize::MAX, 2)), 1);
    assert_eq!(int_of(&sub(9, 3)), 6);
    assert_eq!(int_of(&sub(0, 1)), usize::MAX);
}

#[test]
fn split_on_separator() {
    assert_eq!(texts(&split("a,b,,c", ",")), vec!["a", "b", "", "c"]);
    assert_eq!(texts(&split("abc", "")), vec!["", "a", "b", "c", ""]);
    assert_eq!(texts(&split("a--b---c", "--")), vec!["a", "b", "-c"]);
    assert_eq!(texts(&split("", ",")), vec![""]);
}

#[test]
fn chars_and_lengths() {
    assert_eq!(texts(&chars("hey")), vec!["h", "e", "y"]);
    assert_eq!(byte_len("héllo"), 6);
    assert_eq!(byte_len_checked("héllo"), Some(6));
    assert_eq!(int_of(&len(&s("héllo"))), 6);
    assert_eq!(int_of(&len(&ILitType::Array(vec![s("a"), s("b")]))), 2);
    assert_eq!(int_of(&len(&ILitType::Integer(41))), 41);
    assert_eq!(int_of(&len(&ILitType::Unit)), 0);
}

#[test]
fn array_functions() {
    let arr = vec![s("a"), s("b"), s("c")];
    let (is_ok, v) = result(nth(&arr, 1));
    assert!(is_ok);
    assert_eq!(text(&v), "b");
    let (is_ok, v) = result(nth(&arr, 5));
    assert!(!is_ok);
    assert_eq!(text(&v), "invalid index `5`");
    assert_eq!(texts(&only(&arr, 2)), vec!["a", "b"]);
    assert_eq!(texts(&only(&arr, 9)), vec!["a", "b", "c"]);
    assert_eq!(texts(&rev(&arr)), vec!["c", "b", "a"]);
    let (is_ok, v) = result(skip(&arr, 1));
    assert!(is_ok);
    assert_eq!(texts(&v), vec!["b", "c"]);
    let (is_ok, v) = result(skip(&arr, 3));
    assert!(!is_ok);
    assert_eq!(text(&v), "empty array");
    assert_eq!(text(&last(&arr)), "c");
    assert!(matches!(last(&[]), ILitType::Unit));
    let nums = vec![ILitType::Integer(1), ILitType::Integer(2), ILitType::Integer(3), ILitType::Integer(4)];
    assert_eq!(int_of(&last(&nums)), 4);
}

#[test]
fn enumerate_pairs_index_and_element() {
    let arr = vec![s("x"), s("y")];
    match enumerate(&arr) {
        ILitType::Array(pairs) => {
            assert_eq!(pairs.len(), 2);
            match &pairs[1] {
                ILitType::Array(p) => {
                    assert_eq!(int_of(&p[0]), 1);
                    assert_eq!(text(&p[1]), "y");
                }
                other => panic!("{:?}", other),
            }
        }
        other => panic!("{:?}", other),
    }
}

#[test]
fn range_counts_up() {
    assert_eq!(ints(&range(2, 5)), vec![2, 3, 4, 5]);
    assert_eq!(ints(&range(5, 2)), Vec::<usize>::new());
    assert_eq!(ints(&range(3, 3)), vec![3]);
    assert_eq!(ints(&range(0, 5)).len(), 6);
}

#[test]
fn trims() {
    assert_eq!(text(&trim("   hello   ")), "hello");
    assert_eq!(text(&trim_left("\t hi ")), "hi ");
    assert_eq!(text(&trim_right(" hi \n")), " hi");
    assert_eq!(text(&trim("\u{3000}x\u{a0}")), "x");
}

#[test]
fn results_and_equality() {
    let (is_ok, v) = result(ok(&ILitType::Integer(3)));
    assert!(is_ok);
    assert_eq!(int_of(&v), 3);
    let (is_ok, v) = result(err(&s("bad")));
    assert!(!is_ok);
    assert_eq!(text(&v), "bad");
    assert!(result(eq(&s("a"), &s("a"))).0);
    assert!(!result(eq(&s("a"), &s("b"))).0);
    assert!(!result(eq(&s("1"), &ILitType::Integer(1))).0);
    let a = ILitType::Array(vec![ILitType::Integer(1), ok(&ILitType::Unit)]);
    let b = ILitType::Array(vec![ILitType::Integer(1), ok(&ILitType::Unit)]);
    let c = ILitType::Array(vec![ILitType::Integer(1), err(&ILitType::Unit)]);
    assert!(values_equal(&a, &b));
    assert!(!values_equal(&a, &c));
}

#[test]
fn testing_branch_toggles() {
    let (is_ok, v) = result(testing_branch(0));
    assert!(is_ok);
    assert_eq!(int_of(&v), 1);
    assert!(!result(testing_branch(2)).0);
}

#[test]
fn args_as_strings() {
    assert_eq!(texts(&args(&vec!["a".to_string(), "bc".to_string()])), vec!["a", "bc"]);
}

#[test]
fn fpop_gives_parent() {
    match diamond::interpreter::functions::file::file("a/b") {
        ILitType::File(p) => assert_eq!(p, "a/b"),
        other => panic!("{:?}", other),
    }
    match result(diamond::interpreter::functions::file::fpop("a/b")) {
        (true, ILitType::File(p)) => assert_eq!(p, "a"),
        other => panic!("{:?}", other),
    }
    let (is_ok, v) = result(diamond::interpreter::functions::file::fpop("/"));
    assert!(!is_ok);
    assert_eq!(text(&v), "file has no parent");
}

#[test]
fn sprintf_fills_directives() {
    let args = vec![ILitType::Integer(5), s("a")];
    assert_eq!(pieces_text(&sprintf("%d-%s\\n", &args)), "5-a\n");
    assert_eq!(pieces_text(&sprintf("100%% \\t\\\\ \\q", &[])), "100% \t\\ \\q");
    assert_eq!(pieces_text(&sprintf("end %", &[])), "end %");
    assert_eq!(pieces_text(&sprintf("%s|%s", &[s("x")])), "x|()");
    assert_eq!(pieces_text(&sprintf("%d", &[s("x")])), "%d");
    assert_eq!(pieces_text(&sprintf("%x", &[ILitType::Integer(1)])), "%x");
}

#[test]
fn sprintf_array_and_float() {
    let arr = ILitType::Array(vec![ILitType::Integer(1), s("q\"")]);
    assert_eq!(
        pieces_text(&sprintf("%a", &[arr])),
        "[1, \"q\\\"\"]"
    );
    let plain = ILitType::Array(vec![ILitType::Integer(1), ILitType::Integer(2)]);
    assert_eq!(pieces_text(&sprintf("%a", &[plain])), "[1, 2]");
    let nested = ILitType::Array(vec![
        ILitType::Array(vec![ILitType::Integer(1)]),
        ILitType::Array(vec![ILitType::Integer(2), ILitType::Integer(3)]),
    ]);
    assert_eq!(pieces_text(&sprintf("%a", &[nested])), "[[1], [2, 3]]");
    let mixed = ILitType::Array(vec![ILitType::Unit, ok(&ILitType::Integer(3)), err(&s("no")), ILitType::Array(vec![])]);
    assert_eq!(pieces_text(&sprintf("%a", &[mixed])), "[(), ok(3), err(\"no\"), []]");
    let p = sprintf("x=%f!", &[ILitType::Integer(2)]);
    assert!(matches!(&p[..], [Piece::Text(a), Piece::Float(2), Piece::Text(b)] if a == "x=" && b == "!"));
}

#[test]
fn string_rep_of_values() {
    let arr = ILitType::Array(vec![s("a"), ILitType::Unit, ok(&ILitType::Integer(2))]);
    assert_eq!(arr.as_string_rep(), "[String(\"a\"), Unit, Result(Ok(Integer(2)))]");
    assert_eq!(ILitType::Unit.as_string_rep(), "()");
    assert_eq!(err(&ILitType::Integer(4)).as_string_rep(), "4");
    let f = ILitType::Stream(IStreamHandle::File(FileHandle {
        id: 0,
        shown: "out.txt".to_string(),
        debugged: "File".to_string(),
    }));
    assert_eq!(f.as_string_rep(), "out.txt");
    assert!(is_printable(&f));
    assert!(!is_printable(&ILitType::Stream(IStreamHandle::Stdout)));
    assert!(!all_are_printable(&[s("a"), ILitType::Stream(IStreamHandle::Stdin)]));
}

#[test]
fn function_table_latest_entry_wins() {
    let mut f = Functions::stdlib();
    assert!(matches!(f.resolve("itoa"), Some(RuntimeFunc::Internal(Builtin::Itoa))));
    assert!(matches!(f.resolve("eq"), Some(RuntimeFunc::Internal(Builtin::Equals))));
    assert!(matches!(f.resolve("upper"), Some(RuntimeFunc::Internal(Builtin::Upper))));
    assert!(matches!(f.resolve("lower"), Some(RuntimeFunc::Internal(Builtin::Lower))));
    assert!(matches!(f.resolve("replace"), Some(RuntimeFunc::Internal(Builtin::Replace))));
    assert!(matches!(f.resolve("split_at"), Some(RuntimeFunc::Internal(Builtin::SplitAt))));
    assert!(f.resolve("nope").is_none());
    f.insert("itoa", RuntimeFunc::Internal(Builtin::Puts));
    assert!(matches!(f.resolve("itoa"), Some(RuntimeFunc::Internal(Builtin::Puts))));
    f.insert(
        "mine",
        RuntimeFunc::User(UserFunc { args: vec![], body: IR::Unit, ret: Type::Unit }),
    );
    assert!(matches!(f.resolve("mine"), Some(RuntimeFunc::User(_))));
}

#[test]
fn engine_prints_in_order() {
    let prog = vec![
        call("puts", vec![string_ir("hello ")], false),
        call("printf", vec![string_ir("%d\\n"), IR::Array(vec![IR::Integer(42)])], false),
        call("dump_var", vec![IR::Integer(7)], false),
    ];
    let mut e = Engine::new(vec![]);
    assert!(e.run(&prog, &vec![], 64).is_ok());
    assert_eq!(e.output(), &vec!["hello ".to_string(), "42\n".to_string(), "Integer(7)\n".to_string()]);
}

#[test]
fn engine_variables_and_loops() {
    let prog = vec![
        IR::Let {
            name: "xs_1".to_string(),
            ty: Type::Array(Box::new(Type::Integer)),
            value: Box::new(call("range", vec![IR::Integer(1), IR::Integer(4)], false)),
        },
        IR::For {
            bind: "x_1".to_string(),
            iter: Box::new(IR::Ident("xs_1".to_string())),
            body: Box::new(call("puts", vec![call("itoa", vec![IR::Ident("x_1".to_string())], false)], false)),
        },
    ];
    let mut e = Engine::new(vec![]);
    assert!(e.run(&prog, &vec![], 64).is_ok());
    assert_eq!(e.output(), &vec!["1".to_string(), "2".to_string(), "3".to_string(), "4".to_string()]);
}

#[test]
fn engine_match_takes_the_right_arm() {
    let prog = vec![IR::Match {
        expr: Box::new(call("atoi", vec![string_ir("x")], false)),
        arms: vec![
            IRMatchArm { bind: "n_1".to_string(), is_ok: true, body: Box::new(call("puts", vec![string_ir("number")], false)) },
            IRMatchArm {
                bind: "e_1".to_string(),
                is_ok: false,
                body: Box::new(call("puts", vec![IR::Ident("e_1".to_string())], false)),
            },
        ],
    }];
    let mut e = Engine::new(vec![]);
    assert!(e.run(&prog, &vec![], 64).is_ok());
    assert_eq!(e.output(), &vec!["invalid digit found in string".to_string()]);
}

#[test]
fn engine_user_functions_and_depth() {
    let def = IR::FuncLet {
        name: "twice".to_string(),
        args: vec![("s_1".to_string(), Type::String)],
        internal: false,
        ret: Type::Unit,
        body: Box::new(IR::Grouping {
            inner: vec![
                call("puts", vec![IR::Ident("s_1".to_string())], false),
                call("puts", vec![IR::Ident("s_1".to_string())], false),
            ],
            redirect: None,
        }),
    };
    let prog = vec![def, call("twice", vec![string_ir("a")], false)];
    let mut e = Engine::new(vec![]);
    assert!(e.run(&prog, &vec![], 64).is_ok());
    assert_eq!(e.output(), &vec!["a".to_string(), "a".to_string()]);

    let looping = IR::FuncLet {
        name: "again".to_string(),
        args: vec![],
        internal: false,
        ret: Type::Unit,
        body: Box::new(call("again", vec![], false)),
    };
    let prog = vec![looping, call("again", vec![], false)];
    let mut e = Engine::new(vec![]);
    assert!(matches!(e.run(&prog, &vec![], 3), Err(Stop::Depth)));
}

#[test]
fn engine_exit_and_panics() {
    let mut e = Engine::new(vec![]);
    let prog = vec![call("puts", vec![string_ir("a")], false), call("exit", vec![IR::Integer(3)], false), call("puts", vec![string_ir("b")], false)];
    assert!(matches!(e.run(&prog, &vec![], 8), Err(Stop::Exit(3))));
    assert_eq!(e.output(), &vec!["a".to_string()]);

    let mut e = Engine::new(vec![]);
    let prog = vec![call("atoi", vec![string_ir("")], true)];
    match e.run(&prog, &vec![], 8) {
        Err(Stop::Panic(m)) => assert_eq!(m, "cannot parse integer from empty string"),
        other => panic!("{:?}", other),
    }

    let mut e = Engine::new(vec![]);
    let prog = vec![call("panic", vec![string_ir("no\\tway")], false)];
    match e.run(&prog, &vec![], 8) {
        Err(Stop::Panic(m)) => assert_eq!(m, "no\tway"),
        other => panic!("{:?}", other),
    }

    let mut e = Engine::new(vec![]);
    let prog = vec![call("nope", vec![], false)];
    match e.run(&prog, &vec![], 8) {
        Err(Stop::Crash(m)) => assert_eq!(m, "function `nope` not found! Did you add the internal function yet?"),
        other => panic!("{:?}", other),
    }

    let mut e = Engine::new(vec![]);
    let prog = vec![call("itoa", vec![string_ir("1")], false)];
    match e.run(&prog, &vec![], 8) {
        Err(Stop::Crash(m)) => assert_eq!(m, "invalid arguments for `itoa`"),
        other => panic!("{:?}", other),
    }
}

#[test]
fn engine_reads_back_what_was_assigned_and_stops_on_unknown_names() {
    let prog = vec![
        IR::Let { name: "a_1".to_string(), ty: Type::Integer, value: Box::new(IR::Integer(9)) },
        call("puts", vec![call("itoa", vec![IR::Ident("a_1".to_string())], false)], false),
        IR::Let { name: "a_1".to_string(), ty: Type::Integer, value: Box::new(IR::Integer(10)) },
        call("puts", vec![call("itoa", vec![IR::Ident("a_1".to_string())], false)], false),
    ];
    let mut e = Engine::new(vec![]);
    assert!(e.run(&prog, &vec![], 8).is_ok());
    assert_eq!(e.output(), &vec!["9".to_string(), "10".to_string()]);

    let mut e = Engine::new(vec![]);
    let prog = vec![call("puts", vec![IR::Ident("nobody_1".to_string())], false)];
    match e.run(&prog, &vec![], 8) {
        Err(Stop::Crash(m)) => assert_eq!(m, "could not find ident"),
        other => panic!("{:?}", other),
    }
}

#[test]
fn engine_waits_for_the_host_and_replays() {
    let prog = vec![
        IR::Let {
            name: "f_1".to_string(),
            ty: Type::Result(Box::new(Type::Stream), Box::new(Type::String)),
            value: Box::new(call("create", vec![call("file", vec![string_ir("out.txt")], false)], true)),
        },
        call("puts", vec![string_ir("made")], false),
        call("printf", vec![string_ir("%f"), IR::Array(vec![IR::Integer(2)])], false),
    ];
    let mut e = Engine::new(vec![]);
    match e.run(&prog, &vec![], 8) {
        Err(Stop::Wait(Request::Create(p))) => assert_eq!(p, "out.txt"),
        other => panic!("{:?}", other),
    }
    assert!(e.output().is_empty());

    let answers = vec![ok(&ILitType::Stream(IStreamHandle::Stdout))];
    let mut e = Engine::new(vec![]);
    assert!(matches!(e.run(&prog, &answers, 8), Err(Stop::Wait(Request::FormatFloat(2)))));
    assert_eq!(e.output(), &vec!["made".to_string()]);

    let answers = vec![ok(&ILitType::Stream(IStreamHandle::Stdout)), s("2")];
    let mut e = Engine::new(vec![]);
    assert!(e.run(&prog, &answers, 8).is_ok());
    assert_eq!(e.output(), &vec!["made".to_string(), "2".to_string()]);
}

#[test]
fn engine_args() {
    let prog = vec![call("puts", vec![call("nth", vec![call("args", vec![], false), IR::Integer(1)], true)], false)];
    let mut e = Engine::new(vec!["prog".to_string(), "x".to_string()]);
    assert!(e.run(&prog, &vec![], 8).is_ok());
    assert_eq!(e.output(), &vec!["x".to_string()]);
    assert_eq!(e.args().len(), 2);
}

#[test]
fn atoi_reads_back_itoa() {
    for n in [0usize, 7, 10, 99, 1000, 123456789, usize::MAX] {
        let t = text(&itoa(n));
        let (is_ok, v) = result(atoi(&t));
        assert!(is_ok);
        assert_eq!(int_of(&v), n);
    }
}

#[test]
fn split_always_gives_a_part() {
    assert_eq!(texts(&split("Mary had a little lamb", "x")), vec!["Mary had a little lamb"]);
    assert_eq!(texts(&split("", "x")), vec![""]);
    assert_eq!(texts(&split("Mary had a little lamb", " ")), vec!["Mary", "had", "a", "little", "lamb"]);
    assert_eq!(int_of(&len(&split("Mary had a little lamb", " "))), 5);
}

#[test]
fn math_examples_from_the_docs() {
    assert_eq!(int_of(&max(50, 100)), 100);
    assert_eq!(int_of(&min(50, 100)), 50);
    assert_eq!(int_of(&add(50, 100)), 150);
    assert_eq!(int_of(&sub(100, 50)), 50);
}

#[test]
fn debug_forms_of_strings_and_paths() {
    let mut out = String::new();
    push_debug(&mut out, &ILitType::File("it's".to_string()));
    assert_eq!(out, "File(\"it's\")");
    let mut out = String::new();
    push_debug(&mut out, &ILitType::File("a\"b\\c".to_string()));
    assert_eq!(out, "File(\"a\\\"b\\\\c\")");
    let mut out = String::new();
    push_debug(&mut out, &s("it's"));
    assert_eq!(out, "String(\"it's\")");
}

#[test]
fn case_changes() {
    assert_eq!(text(&upper("Hello, world!")), "HELLO, WORLD!");
    assert_eq!(text(&lower("Hello, WORLD!")), "hello, world!");
    assert_eq!(text(&upper("stra\u{df}e")), "STRASSE");
    assert_eq!(text(&lower("\u{3a3}O\u{3a3}")), "\u{3c3}o\u{3c2}");
    assert_eq!(text(&upper("")), "");
}

#[test]
fn replace_every_occurrence() {
    assert_eq!(text(&replace("a-b-c", "-", "+")), "a+b+c");
    assert_eq!(text(&replace("aaa", "aa", "b")), "ba");
    assert_eq!(text(&replace("abc", "x", "y")), "abc");
    assert_eq!(text(&replace("ab", "", "-")), "-a-b-");
    assert_eq!(text(&replace("", "", "-")), "-");
    assert_eq!(text(&replace("h\u{e9}llo", "\u{e9}", "e")), "hello");
}

#[test]
fn split_at_a_character_position() {
    let (is_ok, v) = result(split_at("hello", 2));
    assert!(is_ok);
    assert_eq!(texts(&v), vec!["he", "llo"]);
    let (is_ok, v) = result(split_at("h\u{e9}llo", 2));
    assert!(is_ok);
    assert_eq!(texts(&v), vec!["h\u{e9}", "llo"]);
    let (is_ok, v) = result(split_at("hi", 2));
    assert!(is_ok);
    assert_eq!(texts(&v), vec!["hi", ""]);
    let (is_ok, v) = result(split_at("hi", 5));
    assert!(!is_ok);
    assert_eq!(text(&v), "invalid index `5`");
}

fn line_texts(v: &[ILitType]) -> Vec<String> {
    v.iter().map(text).collect()
}

#[test]
fn lines_of_a_text() {
    assert_eq!(line_texts(&read_lines("a\nb\r\nc", 0)), vec!["a", "b", "c"]);
    assert_eq!(line_texts(&read_lines("a\nb\n", 0)), vec!["a", "b"]);
    assert_eq!(line_texts(&read_lines("a\n\nb", 0)), vec!["a", "", "b"]);
    assert_eq!(line_texts(&read_lines("x\r", 0)), vec!["x\r"]);
    assert!(read_lines("", 0).is_empty());
    assert_eq!(line_texts(&read_lines("a\nb\nc\n", 1)), vec!["b", "c"]);
    assert!(read_lines("a\nb", 5).is_empty());
    for t in ["a\nb\r\nc", "a\n\n", "", "\n", "one", "x\r\n\r\ny"] {
        let expected: Vec<String> = t.lines().map(|l| l.to_string()).collect();
        assert_eq!(line_texts(&read_lines(t, 0)), expected, "{:?}", t);
    }
    let (is_ok, v) = result(lines_answer_of(ok(&s("a\nb")), 0));
    assert!(is_ok);
    assert_eq!(texts(&v), vec!["a", "b"]);
    let (is_ok, v) = result(lines_answer_of(err(&s("no such file")), 0));
    assert!(!is_ok);
    assert_eq!(text(&v), "no such file");
}

#[test]
fn engine_reads_the_lines_the_host_answers() {
    let handle = ILitType::Stream(IStreamHandle::File(FileHandle {
        id: 0,
        shown: "f".to_string(),
        debugged: "File".to_string(),
    }));
    let prog = vec![
        IR::Let {
            name: "f_1".to_string(),
            ty: Type::Stream,
            value: Box::new(call("open", vec![call("file", vec![string_ir("in.txt")], false)], true)),
        },
        IR::For {
            bind: "l_1".to_string(),
            iter: Box::new(call("skip", vec![IR::Ident("f_1".to_string()), IR::Integer(1)], true)),
            body: Box::new(call("puts", vec![IR::Ident("l_1".to_string())], false)),
        },
    ];
    let mut e = Engine::new(vec![]);
    match e.run(&prog, &vec![ok(&handle)], 8) {
        Err(Stop::Wait(Request::Lines(_))) => {}
        other => panic!("{:?}", other),
    }
    let mut e = Engine::new(vec![]);
    assert!(e.run(&prog, &vec![ok(&handle), ok(&s("head\nx\r\ny\n"))], 8).is_ok());
    assert_eq!(e.output(), &vec!["x".to_string(), "y".to_string()]);
}
