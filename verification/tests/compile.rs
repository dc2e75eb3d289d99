use diamond::compile::{compile_source, CompileError};
use diamond::interpreter::engine::{Engine, Stop};

fn run(src: &str) -> (Result<(), Stop>, Vec<String>) {
    let ir = compile_source(src, "test.di").expect("compiles");
    let mut e = Engine::new(vec!["first".to_string()]);
    let r = e.run(&ir, &vec![], 256);
    (r, e.output().clone())
}

#[test]
fn hello_world_programs_from_the_guide() {
    let (r, out) = run("puts(\"Hello, World!\\n\");");
    assert!(r.is_ok());
    assert_eq!(out, vec!["Hello, World!\\n".to_string()]);

    let (r, out) = run("printf(\"%s, %s!\\n\", [\"Hello\", \"World\"]);");
    assert!(r.is_ok());
    assert_eq!(out, vec!["Hello, World!\n".to_string()]);

    let (r, out) = run(
        "let string = \"Hello, World!\";\nfor (char in chars(string)) {\n    printf(\"%s\", [char]);\n}\nprintf(\"\\n\", []);",
    );
    assert!(r.is_ok());
    assert_eq!(out.concat(), "Hello, World!\n");
}

#[test]
fn user_functions_and_matches_run() {
    let src = r#"
let @greet(name: string) = puts(name);
@greet("hi");
let n = match (atoi("41")) {
    ok v = add(v, 1),
    err e = 0,
};
printf("%d\n", [n]);
puts(nth(args(), 0)!);
"#;
    let (r, out) = run(src);
    assert!(r.is_ok());
    assert_eq!(out, vec!["hi".to_string(), "42\n".to_string(), "first".to_string()]);
}

#[test]
fn unwrap_of_an_error_panics_with_its_text() {
    let (r, out) = run("puts(\"a\");\natoi(\"x\")!;");
    match r {
        Err(Stop::Panic(m)) => assert_eq!(m, "invalid digit found in string"),
        other => panic!("{:?}", other),
    }
    assert_eq!(out, vec!["a".to_string()]);
}

#[test]
fn parse_and_type_errors_are_told_apart() {
    assert!(matches!(compile_source("puts(", "x.di"), Err(CompileError::Parse(_))));
    assert!(matches!(compile_source("itoa(\"x\");", "x.di"), Err(CompileError::Check(_))));
    assert!(matches!(compile_source("nope(1);", "x.di"), Err(CompileError::Check(_))));
}

#[test]
fn arrays_mix_types_only_where_any_is_expected() {
    let (r, out) = run("printf(\"%d and %s\\n\", [1, \"two\"]);");
    assert!(r.is_ok());
    assert_eq!(out, vec!["1 and two\n".to_string()]);
    assert!(matches!(compile_source("let arr = [1, \"two\"];", "x.di"), Err(CompileError::Check(_))));
}

#[test]
fn recursive_calls_keep_their_own_variables() {
    let src = r#"
let sum(n: integer): integer = match (eq(n, 0)) {
    ok u = 0,
    err e = add(sum(sub(n, 1)), n),
};
printf("%d\n", [sum(4)]);
"#;
    let (r, out) = run(src);
    assert!(r.is_ok(), "{:?}", r);
    assert_eq!(out, vec!["10\n".to_string()]);
}

#[test]
fn loops_see_outer_variables() {
    let src = r#"
let total = 5;
for (i in range(0, 3)) {
    let y = add(total, i);
    printf("%d\n", [y]);
}
printf("%d\n", [total]);
"#;
    let (r, out) = run(src);
    assert!(r.is_ok(), "{:?}", r);
    assert_eq!(
        out,
        vec!["5\n".to_string(), "6\n".to_string(), "7\n".to_string(), "8\n".to_string(), "5\n".to_string()]
    );
}

#[test]
fn last_comes_from_the_standard_library() {
    let (r, out) = run("let lst = [1, 2, 3, 4];\nprintf(\"%d\\n\", [last(lst)]);");
    assert!(r.is_ok(), "{:?}", r);
    assert_eq!(out, vec!["4\n".to_string()]);
    let ir = compile_source("let last(lst: [any]): any = for (i in lst) i;", "headers.di").expect("compiles");
    assert_eq!(ir.len(), 2);
    assert_eq!(format!("{:?}", ir[0]), format!("{:?}", ir[1]));
}

#[test]
fn a_function_defined_inside_another_is_known_everywhere() {
    let src = r#"
let outer(): integer = {
    let inner(): integer = 7;
    inner()
};
printf("%d\n", [outer()]);
"#;
    let (r, out) = run(src);
    assert!(r.is_ok(), "{:?}", r);
    assert_eq!(out, vec!["7\n".to_string()]);
}

#[test]
fn variables_get_readable_unique_names() {
    let ir = compile_source("let My_Var = 1;\nlet my_var = 2;\nlet x = 3;", "test.di").expect("compiles");
    let text = format!("{:?}", ir);
    assert!(text.contains("\"my_var_1\""), "{}", text);
    assert!(text.contains("\"my_var_2\""), "{}", text);
    assert!(text.contains("\"x_1\""), "{}", text);
}

#[test]
fn printf_formats_arrays_as_written() {
    let (r, out) = run("printf(\"%a\\n\", [[1, 2]]);");
    assert!(r.is_ok(), "{:?}", r);
    assert_eq!(out, vec!["[1, 2]\n".to_string()]);
    let (r, out) = run("printf(\"%d\\n\", [len(range(0, 5))]);");
    assert!(r.is_ok(), "{:?}", r);
    assert_eq!(out, vec!["6\n".to_string()]);
}

#[test]
fn printf_answers_with_the_length_in_bytes_and_assignment_reads_back() {
    let (r, out) = run("let n = printf(\"h\u{e9}llo\\n\", []);\nprintf(\"%d\\n\", [n]);");
    assert!(r.is_ok(), "{:?}", r);
    assert_eq!(out, vec!["h\u{e9}llo\n".to_string(), "7\n".to_string()]);
    let (r, out) = run("let a = let b = 5;\nprintf(\"%d %d\\n\", [a, b]);");
    assert!(r.is_ok(), "{:?}", r);
    assert_eq!(out, vec!["5 5\n".to_string()]);
}

#[test]
fn string_functions_of_the_standard_library() {
    let src = r#"
puts(upper("abc"));
puts(lower("ABC"));
puts(replace("a-b", "-", "+"));
let parts = split_at("hello", 1)!;
puts(nth(parts, 1)!);
"#;
    let (r, out) = run(src);
    assert!(r.is_ok(), "{:?}", r);
    assert_eq!(out, vec!["ABC".to_string(), "abc".to_string(), "a+b".to_string(), "ello".to_string()]);
}
