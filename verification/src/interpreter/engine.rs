//! The interpreter: it evaluates IR.
//!
//! The engine does no input or output itself. What a program prints is kept, in order, as the
//! run's output; what a program asks of the outside (opening, reading or writing a file,
//! writing a float) is a request that the host answers. A run is given the answers that the
//! host gave so far and uses them, in order, for the program's requests; at the first request
//! that has no answer yet the run stops and names it. The host then answers it and runs the
//! program again from the start with one answer more: the program does the same until that
//! point, so the host performs only what it has not performed yet.
use vstd::prelude::*;
use std::rc::Rc;
use crate::interpreter::functions::arrays::{
    slice_vals, spec_len, split_parts, str_array, str_vals, utf8_len,
};
use crate::interpreter::functions::file::{lines_answer, lines_answer_of, path_popped};
use crate::interpreter::functions::itoa::{int_error_message, spec_parse_usize};
use crate::interpreter::functions::printf::{
    Piece, PieceView, all_are_printable, is_printable, all_printable, lemma_printable_args_defined, pieces_view,
    spec_sprintf, sprintf,
};
use crate::interpreter::functions::strings::{
    lower_cased, replaced, split_at_val, trim_end, trim_start, upper_cased,
};
use crate::interpreter::stdlib::{Builtin, FuncView, Functions, FunctionsView, RtView, RuntimeFunc, UserFunc, func_lookup};
use crate::interpreter::types::{
    ILitType, IResultBranch, IStreamHandle, StreamView, Val, debug_rep, printable, stream_view,
    string_rep,
};
use crate::text::{decimal, push_str};
use crate::interpreter::functions::arrays::{
    byte_len_checked, chars, enumerate, lemma_vals_of_view, nth, only, range, rev, skip, split,
};
use crate::interpreter::functions::file::{file, fpop};
use crate::interpreter::functions::itoa::{atoi, itoa};
use crate::interpreter::functions::math::{max, min};
use crate::interpreter::functions::result::{eq, err, ok};
use crate::interpreter::functions::strings::{lower, replace, split_at, trim, trim_left, trim_right, upper};
use crate::interpreter::functions::system::args as arg_list;
use crate::interpreter::types::{push_debug};
use crate::typing::strata::{ArmView, IR, IRMatchArm, IRView, arms_view, clone_params, ir_view, irs_view, params_view};

verus! {

/// What a program asks of the host.
#[derive(Debug)]
pub enum Request {
    /// Create (or truncate) the file at a path: answered by the result `create` gives.
    Create(String),
    /// Open the file at a path for reading and appending: answered by the result `open` gives.
    Open(String),
    /// Append text to a stream: answered by the result `dump` gives.
    Dump(IStreamHandle, String),
    /// Read the text of a stream: answered by `ok` of the text, or an error.
    Lines(IStreamHandle),
    /// The size of a stream's file: answered by an integer.
    StreamLen(IStreamHandle),
    /// The text of an integer written as a float: answered by a string.
    FormatFloat(usize),
}

/// The mathematical form of a [`Request`].
pub enum RequestView {
    Create(Seq<char>),
    Open(Seq<char>),
    Dump(StreamView, Seq<char>),
    Lines(StreamView),
    StreamLen(StreamView),
    FormatFloat(usize),
}

impl View for Request {
    type V = RequestView;

    open spec fn view(&self) -> RequestView {
        match *self {
            Request::Create(p) => RequestView::Create(p@),
            Request::Open(p) => RequestView::Open(p@),
            Request::Dump(h, c) => RequestView::Dump(stream_view(h), c@),
            Request::Lines(h) => RequestView::Lines(stream_view(h)),
            Request::StreamLen(h) => RequestView::StreamLen(stream_view(h)),
            Request::FormatFloat(i) => RequestView::FormatFloat(i),
        }
    }
}

/// Why a run stopped before the end of the program.
#[derive(Debug)]
pub enum Stop {
    /// `exit(code)`.
    Exit(usize),
    /// A Diamond panic, with its message: `panic(..)`, or an unwrap `!` of an error.
    Panic(String),
    /// A failure of the interpreter itself, with its message.
    Crash(String),
    /// A request that has no answer yet.
    Wait(Request),
    /// Function calls nested deeper than the run allows.
    Depth,
}

/// The mathematical form of a [`Stop`].
pub enum StopView {
    Exit(usize),
    Panic(Seq<char>),
    Crash(Seq<char>),
    Wait(RequestView),
    Depth,
}

impl View for Stop {
    type V = StopView;

    open spec fn view(&self) -> StopView {
        match *self {
            Stop::Exit(c) => StopView::Exit(c),
            Stop::Panic(m) => StopView::Panic(m@),
            Stop::Crash(m) => StopView::Crash(m@),
            Stop::Wait(r) => StopView::Wait(r@),
            Stop::Depth => StopView::Depth,
        }
    }
}

/// The state of a run: the variables that are set, each name with its value, in the order they
/// were set; the functions by name; what the program has printed so far; and how many answers
/// it has used.
pub struct Machine {
    pub frames: Seq<(Seq<char>, Val)>,
    pub funcs: FunctionsView,
    pub output: Seq<Seq<char>>,
    pub cursor: nat,
}

/// What a run is given: the host's answers so far, and the program's arguments.
pub struct Env {
    pub answers: Seq<Val>,
    pub argv: Seq<Seq<char>>,
}

/// The state after a step, and its value or why the run stops.
pub type Step = (Machine, Result<Val, StopView>);

/// The value that the latest setting of `name` among `frames` gave it, if any did.
pub open spec fn find_var(frames: Seq<(Seq<char>, Val)>, name: Seq<char>) -> Option<Val>
    decreases frames.len(),
{
    if frames.len() == 0 {
        None
    } else if frames.last().0 == name {
        Some(frames.last().1)
    } else {
        find_var(frames.drop_last(), name)
    }
}

/// The value of a variable, if it is set.
pub open spec fn get_var(m: Machine, name: Seq<char>) -> Option<Val> {
    find_var(m.frames, name)
}

/// The state after a variable is set: the new value hides any earlier one.
pub open spec fn set_var(m: Machine, name: Seq<char>, v: Val) -> Machine {
    Machine { frames: m.frames.push((name, v)), ..m }
}

/// The state with the variables of `frames`: what a grouping, a loop's iteration, a match arm
/// or a function call sets is forgotten when it ends.
pub open spec fn with_frames(m: Machine, frames: Seq<(Seq<char>, Val)>) -> Machine {
    Machine { frames, ..m }
}

/// The state after the program prints `t`.
pub open spec fn print(m: Machine, t: Seq<char>) -> Machine {
    Machine { output: m.output.push(t), ..m }
}

/// The host's answer to a request: the next unused answer, or a stop that names the request.
pub open spec fn answer(env: Env, m: Machine, req: RequestView) -> Step {
    if m.cursor < env.answers.len() {
        (Machine { cursor: m.cursor + 1, ..m }, Ok(env.answers[m.cursor as int]))
    } else {
        (m, Err(StopView::Wait(req)))
    }
}

/// The text of formatted pieces after `acc`, with each float written by the host.
pub open spec fn render(env: Env, m: Machine, p: Seq<PieceView>, acc: Seq<char>) -> (
    Machine,
    Result<Seq<char>, StopView>,
)
    decreases p.len(),
{
    if p.len() == 0 {
        (m, Ok(acc))
    } else {
        match p[0] {
            PieceView::Text(t) => render(env, m, p.drop_first(), acc + t),
            PieceView::Float(i) => {
                let (m2, r) = answer(env, m, RequestView::FormatFloat(i));
                match r {
                    Ok(v) => render(
                        env,
                        m2,
                        p.drop_first(),
                        acc + match v {
                            Val::Str(s) => s,
                            _ => Seq::empty(),
                        },
                    ),
                    Err(s) => (m2, Err(s)),
                }
            },
        }
    }
}

/// The message of a call with arguments that do not fit the function.
pub open spec fn bad_args(name: Seq<char>) -> Seq<char> {
    "invalid arguments for `"@ + name + "`"@
}

/// The message of a call of a function that does not exist.
pub open spec fn not_found(name: Seq<char>) -> Seq<char> {
    "function `"@ + name + "` not found! Did you add the internal function yet?"@
}

/// The text of a format with `args` filled in, and the state after the host wrote its floats.
pub open spec fn format_text(env: Env, m: Machine, f: Seq<char>, args: Seq<Val>) -> (
    Machine,
    Result<Seq<char>, StopView>,
) {
    if all_printable(args) {
        render(env, m, spec_sprintf(f, args), Seq::empty())
    } else {
        (m, Err(StopView::Crash("not yet implemented"@)))
    }
}

/// The value of an integer that fits, or a crash.
pub open spec fn fit(m: Machine, n: nat) -> Step {
    if n <= usize::MAX {
        (m, Ok(Val::Integer(n as usize)))
    } else {
        (m, Err(StopView::Crash("length does not fit in an integer"@)))
    }
}

/// Ask the host for the text of a stream, and read it as the stream's lines after the first
/// `n`; an error the host answers is the program's.
pub open spec fn read_stream_lines(env: Env, m: Machine, h: StreamView, n: usize) -> Step {
    let (m2, r) = answer(env, m, RequestView::Lines(h));
    (
        m2,
        match r {
            Ok(v) => Ok(lines_answer(v, n)),
            Err(e) => Err(e),
        },
    )
}

/// A call of a function of the standard library.
pub open spec fn call_builtin(env: Env, m: Machine, name: Seq<char>, b: Builtin, a: Seq<Val>) -> Step {
    let bad = (m, Err(StopView::Crash(bad_args(name))));
    match b {
        Builtin::Itoa => if a.len() == 1 && a[0] is Integer {
            (m, Ok(Val::Str(decimal(a[0]->Integer_0 as nat))))
        } else {
            bad
        },
        Builtin::Atoi => if a.len() == 1 && a[0] is Str {
            (
                m,
                Ok(
                    match spec_parse_usize(a[0]->Str_0) {
                        Ok(n) => Val::Result(true, Box::new(Val::Integer(n as usize))),
                        Err(k) => Val::Result(false, Box::new(Val::Str(int_error_message(k)))),
                    },
                ),
            )
        } else {
            bad
        },
        Builtin::Max | Builtin::Min | Builtin::Add | Builtin::Sub => if a.len() == 2 && a[0] is Integer
            && a[1] is Integer {
            let x = a[0]->Integer_0;
            let y = a[1]->Integer_0;
            (
                m,
                Ok(
                    Val::Integer(
                        match b {
                            Builtin::Max => if x >= y { x } else { y },
                            Builtin::Min => if x <= y { x } else { y },
                            Builtin::Add => (if x + y > usize::MAX { x + y - usize::MAX - 1 } else { x + y }) as usize,
                            _ => (if x >= y { x - y } else { x - y + usize::MAX + 1 }) as usize,
                        },
                    ),
                ),
            )
        } else {
            bad
        },
        Builtin::DumpVar => if a.len() == 1 {
            (print(m, debug_rep(a[0]) + seq!['\n']), Ok(Val::Unit))
        } else {
            bad
        },
        Builtin::Sprintf | Builtin::Printf => if a.len() == 2 && a[0] is Str && a[1] is Array {
            let (m2, r) = format_text(env, m, a[0]->Str_0, a[1]->Array_0);
            match r {
                Err(s) => (m2, Err(s)),
                Ok(t) => if b == Builtin::Sprintf {
                    (m2, Ok(Val::Str(t)))
                } else {
                    fit(print(m2, t), utf8_len(t))
                },
            }
        } else {
            bad
        },
        Builtin::Puts => if a.len() == 1 && a[0] is Str {
            (print(m, a[0]->Str_0), Ok(Val::Unit))
        } else {
            bad
        },
        Builtin::Nth => if a.len() == 2 && a[0] is Array && a[1] is Integer {
            let arr = a[0]->Array_0;
            let i = a[1]->Integer_0;
            (
                m,
                Ok(
                    if i < arr.len() {
                        Val::Result(true, Box::new(arr[i as int]))
                    } else {
                        Val::Result(
                            false,
                            Box::new(Val::Str("invalid index `"@ + decimal(i as nat) + "`"@)),
                        )
                    },
                ),
            )
        } else {
            bad
        },
        Builtin::Split => if a.len() == 2 && a[0] is Str && a[1] is Str {
            (m, Ok(str_array(split_parts(a[0]->Str_0, a[1]->Str_0))))
        } else {
            bad
        },
        Builtin::Len => if a.len() == 1 {
            match a[0] {
                Val::Stream(h) => answer(env, m, RequestView::StreamLen(h)),
                v => fit(m, spec_len(v)),
            }
        } else {
            bad
        },
        Builtin::Enumerate => if a.len() == 1 && a[0] is Array {
            let arr = a[0]->Array_0;
            (
                m,
                Ok(
                    Val::Array(
                        Seq::new(
                            arr.len(),
                            |i: int| Val::Array(seq![Val::Integer(i as usize), arr[i]]),
                        ),
                    ),
                ),
            )
        } else {
            bad
        },
        Builtin::Chars => if a.len() == 1 && a[0] is Str {
            let s = a[0]->Str_0;
            (m, Ok(str_array(Seq::new(s.len(), |i: int| seq![s[i]]))))
        } else {
            bad
        },
        Builtin::Only => if a.len() == 2 && a[0] is Array && a[1] is Integer {
            let arr = a[0]->Array_0;
            let n = a[1]->Integer_0;
            (m, Ok(Val::Array(arr.take(if n < arr.len() { n as int } else { arr.len() as int }))))
        } else {
            bad
        },
        Builtin::Rev => if a.len() == 1 && a[0] is Array {
            (m, Ok(Val::Array(a[0]->Array_0.reverse())))
        } else {
            bad
        },
        Builtin::Range => if a.len() == 2 && a[0] is Integer && a[1] is Integer {
            let bot = a[0]->Integer_0;
            let top = a[1]->Integer_0;
            (
                m,
                Ok(
                    Val::Array(
                        Seq::new(
                            if bot <= top { (top - bot + 1) as nat } else { 0 },
                            |i: int| Val::Integer((bot + i) as usize),
                        ),
                    ),
                ),
            )
        } else {
            bad
        },
        Builtin::Equals => if a.len() == 2 {
            (m, Ok(Val::Result(a[0] == a[1], Box::new(Val::Unit))))
        } else {
            bad
        },
        Builtin::File => if a.len() == 1 && a[0] is Str {
            (m, Ok(Val::File(a[0]->Str_0)))
        } else {
            bad
        },
        Builtin::Create => if a.len() == 1 && a[0] is File {
            answer(env, m, RequestView::Create(a[0]->File_0))
        } else {
            bad
        },
        Builtin::Open => if a.len() == 1 && a[0] is File {
            answer(env, m, RequestView::Open(a[0]->File_0))
        } else {
            bad
        },
        Builtin::Dump => if a.len() == 2 && a[0] is Stream && a[1] is Str {
            answer(env, m, RequestView::Dump(a[0]->Stream_0, a[1]->Str_0))
        } else {
            bad
        },
        Builtin::Lines => if a.len() == 1 && a[0] is Stream {
            read_stream_lines(env, m, a[0]->Stream_0, 0)
        } else {
            bad
        },
        Builtin::Skip => if a.len() == 2 && a[0] is Array && a[1] is Integer {
            let lines = a[0]->Array_0;
            let n = a[1]->Integer_0;
            (
                m,
                Ok(
                    if n >= lines.len() {
                        Val::Result(false, Box::new(Val::Str("empty array"@)))
                    } else {
                        Val::Result(true, Box::new(Val::Array(lines.skip(n as int))))
                    },
                ),
            )
        } else if a.len() == 2 && a[0] is Stream && a[1] is Integer {
            read_stream_lines(env, m, a[0]->Stream_0, a[1]->Integer_0)
        } else {
            bad
        },
        Builtin::Fpop => if a.len() == 1 && a[0] is File {
            let p = a[0]->File_0;
            (
                m,
                Ok(
                    if path_popped(p).0 {
                        Val::Result(true, Box::new(Val::File(path_popped(p).1)))
                    } else {
                        Val::Result(false, Box::new(Val::Str("file has no parent"@)))
                    },
                ),
            )
        } else {
            bad
        },
        Builtin::Panic => if a.len() == 1 && a[0] is Str {
            let (m2, r) = format_text(env, m, a[0]->Str_0, Seq::empty());
            match r {
                Ok(t) => (m2, Err(StopView::Panic(t))),
                Err(s) => (m2, Err(s)),
            }
        } else {
            bad
        },
        Builtin::Exit => if a.len() == 1 && a[0] is Integer {
            (m, Err(StopView::Exit(a[0]->Integer_0)))
        } else {
            bad
        },
        Builtin::Args => if a.len() == 0 {
            (m, Ok(str_array(env.argv)))
        } else {
            bad
        },
        Builtin::MakeOk | Builtin::MakeErr => if a.len() == 1 {
            (m, Ok(Val::Result(b == Builtin::MakeOk, Box::new(a[0]))))
        } else {
            bad
        },
        Builtin::Trim | Builtin::TrimLeft | Builtin::TrimRight => if a.len() == 1 && a[0] is Str {
            let s = a[0]->Str_0;
            (
                m,
                Ok(
                    Val::Str(
                        match b {
                            Builtin::Trim => trim_end(trim_start(s)),
                            Builtin::TrimLeft => trim_start(s),
                            _ => trim_end(s),
                        },
                    ),
                ),
            )
        } else {
            bad
        },
        Builtin::Upper | Builtin::Lower => if a.len() == 1 && a[0] is Str {
            let s = a[0]->Str_0;
            (m, Ok(Val::Str(if b == Builtin::Upper { upper_cased(s) } else { lower_cased(s) })))
        } else {
            bad
        },
        Builtin::Replace => if a.len() == 3 && a[0] is Str && a[1] is Str && a[2] is Str {
            (m, Ok(Val::Str(replaced(a[0]->Str_0, a[1]->Str_0, a[2]->Str_0))))
        } else {
            bad
        },
        Builtin::SplitAt => if a.len() == 2 && a[0] is Str && a[1] is Integer {
            (m, Ok(split_at_val(a[0]->Str_0, a[1]->Integer_0)))
        } else {
            bad
        },
    }
}

/// Evaluate a node; calls may nest `depth` deep.
pub open spec fn ev(env: Env, m: Machine, ir: IRView, depth: nat) -> Step
    decreases depth, ir, 0nat,
{
    match ir {
        IRView::FuncLet { name, args, internal, ret, body } => (
            Machine {
                funcs: m.funcs.push((name, RtView::User(FuncView { args, body: *body, ret }))),
                ..m
            },
            Ok(Val::Unit),
        ),
        IRView::Grouping { inner, redirect } => {
            let (m1, r) = match redirect {
                Some((e, bind)) => {
                    let (m0, r0) = ev(env, m, *e, depth);
                    match r0 {
                        Ok(v) => (set_var(m0, bind, v), Ok(Val::Unit)),
                        Err(s) => (m0, Err(s)),
                    }
                },
                None => (m, Ok(Val::Unit)),
            };
            let (m2, r2) = match r {
                Err(s) => (m1, Err(s)),
                Ok(_) => ev_seq(env, m1, inner, depth, Val::Unit),
            };
            (with_frames(m2, m.frames), r2)
        },
        IRView::For { bind, iter, body } => {
            let (m1, r) = ev(env, m, *iter, depth);
            match r {
                Err(s) => (m1, Err(s)),
                Ok(Val::Array(elems)) => ev_for(env, m1, bind, elems, *body, depth, Val::Unit),
                Ok(_) => (m1, Err(StopView::Crash("loop over a value that is not an array"@))),
            }
        },
        IRView::Let { name, ty, value } => {
            let (m1, r) = ev(env, m, *value, depth);
            match r {
                Err(s) => (m1, Err(s)),
                Ok(v) => (set_var(m1, name, v), Ok(v)),
            }
        },
        IRView::Match { expr, arms } => {
            let (m1, r) = ev(env, m, *expr, depth);
            match r {
                Err(s) => (m1, Err(s)),
                Ok(Val::Result(is_ok, v)) => ev_arms(env, m1, arms, is_ok, *v, depth),
                Ok(_) => (m1, Err(StopView::Crash("match on a value that is not a result"@))),
            }
        },
        IRView::FuncCall { name, args, unwrap } => ev_call(env, m, name, args, unwrap, depth),
        IRView::Integer(i) => (m, Ok(Val::Integer(i))),
        IRView::String(s) => (m, Ok(Val::Str(s))),
        IRView::Ident(id) => match get_var(m, id) {
            Some(v) => (m, Ok(v)),
            None => (m, Err(StopView::Crash("could not find ident"@))),
        },
        IRView::Array(elems) => {
            let (m1, r) = ev_list(env, m, elems, depth, Seq::empty());
            match r {
                Err(s) => (m1, Err(s)),
                Ok(vs) => (m1, Ok(Val::Array(vs))),
            }
        },
        IRView::Unit => (m, Ok(Val::Unit)),
        IRView::Result { .. } => (m, Err(StopView::Crash("not yet implemented: result"@))),
        IRView::Expr(e) => ev(env, m, *e, depth),
        IRView::Stmt(e) => {
            let (m1, r) = ev(env, m, *e, depth);
            match r {
                Err(s) => (m1, Err(s)),
                Ok(_) => (m1, Ok(Val::Unit)),
            }
        },
    }
}

/// Evaluate nodes in order; gives the value of the last (`last` when there are none).
pub open spec fn ev_seq(env: Env, m: Machine, s: Seq<IRView>, depth: nat, last: Val) -> Step
    decreases depth, s, 0nat,
{
    if s.len() == 0 {
        (m, Ok(last))
    } else {
        let (m1, r) = ev(env, m, s[0], depth);
        match r {
            Err(e) => (m1, Err(e)),
            Ok(v) => ev_seq(env, m1, s.drop_first(), depth, v),
        }
    }
}

/// Evaluate nodes in order; gives their values after `acc`.
pub open spec fn ev_list(env: Env, m: Machine, s: Seq<IRView>, depth: nat, acc: Seq<Val>) -> (
    Machine,
    Result<Seq<Val>, StopView>,
)
    decreases depth, s, 0nat,
{
    if s.len() == 0 {
        (m, Ok(acc))
    } else {
        let (m1, r) = ev(env, m, s[0], depth);
        match r {
            Err(e) => (m1, Err(e)),
            Ok(v) => ev_list(env, m1, s.drop_first(), depth, acc.push(v)),
        }
    }
}

/// Run a loop body for each element, with the element in variable `bind`; gives the value of
/// the last run of the body (`last` when there is none).
pub open spec fn ev_for(
    env: Env,
    m: Machine,
    bind: Seq<char>,
    elems: Seq<Val>,
    body: IRView,
    depth: nat,
    last: Val,
) -> Step
    decreases depth, body, elems.len(),
{
    if elems.len() == 0 {
        (m, Ok(last))
    } else {
        let (m1, r) = ev(env, set_var(m, bind, elems[0]), body, depth);
        let m2 = with_frames(m1, m.frames);
        match r {
            Err(e) => (m2, Err(e)),
            Ok(v) => ev_for(env, m2, bind, elems.drop_first(), body, depth, v),
        }
    }
}

/// Run the first arm for the branch a result is on, with the held value in the arm's variable.
pub open spec fn ev_arms(env: Env, m: Machine, arms: Seq<ArmView>, is_ok: bool, v: Val, depth: nat) -> Step
    decreases depth, arms, 0nat,
{
    if arms.len() == 0 {
        (m, Err(StopView::Crash("no arm matches"@)))
    } else if arms[0].is_ok == is_ok {
        let (m1, r) = ev(env, set_var(m, arms[0].bind, v), arms[0].body, depth);
        (with_frames(m1, m.frames), r)
    } else {
        ev_arms(env, m, arms.drop_first(), is_ok, v, depth)
    }
}

/// Set the parameters of a function to the arguments, in order (`()` where an argument is
/// missing).
pub open spec fn bind_args(m: Machine, params: Seq<(Seq<char>, crate::typing::types::Type)>, vals: Seq<Val>) -> Machine
    decreases params.len(),
{
    if params.len() == 0 {
        m
    } else {
        let i = params.len() - 1;
        set_var(
            bind_args(m, params.drop_last(), vals),
            params[i].0,
            if i < vals.len() { vals[i] } else { Val::Unit },
        )
    }
}

/// Evaluate a call: the arguments in order, then the function; a call of a program's
/// function runs its body one level deeper. An unwrap `!` gives the value of an ok result and
/// panics with the text of an error.
pub open spec fn ev_call(
    env: Env,
    m: Machine,
    name: Seq<char>,
    args: Seq<IRView>,
    unwrap: bool,
    depth: nat,
) -> Step
    decreases depth, args, 1nat,
{
    match func_lookup(m.funcs, name) {
        None => (m, Err(StopView::Crash(not_found(name)))),
        Some(f) => {
            let (m1, r) = ev_list(env, m, args, depth, Seq::empty());
            match r {
                Err(s) => (m1, Err(s)),
                Ok(vals) => {
                    let (m2, ret) = match f {
                        RtView::Internal(b) => call_builtin(env, m1, name, b, vals),
                        RtView::User(u) => if depth == 0 {
                            (m1, Err(StopView::Depth))
                        } else {
                            let (mb, rb) = ev(env, bind_args(m1, u.args, vals), u.body, (depth - 1) as nat);
                            (with_frames(mb, m1.frames), rb)
                        },
                    };
                    match ret {
                        Err(s) => (m2, Err(s)),
                        Ok(v) => if !unwrap {
                            (m2, Ok(v))
                        } else {
                            match v {
                                Val::Result(true, inner) => (m2, Ok(*inner)),
                                Val::Result(false, inner) => if printable(*inner) {
                                    let (m3, t) = format_text(env, m2, string_rep(*inner), Seq::empty());
                                    match t {
                                        Ok(msg) => (m3, Err(StopView::Panic(msg))),
                                        Err(s) => (m3, Err(s)),
                                    }
                                } else {
                                    (m2, Err(StopView::Crash("not yet implemented"@)))
                                },
                                _ => (m2, Err(StopView::Crash("unwrap of a value that is not a result"@))),
                            }
                        },
                    }
                },
            }
        },
    }
}

/// Evaluate the nodes of a program in order.
pub open spec fn ev_program(env: Env, m: Machine, s: Seq<IRView>, depth: nat) -> (Machine, Result<(), StopView>)
    decreases s.len(),
{
    if s.len() == 0 {
        (m, Ok(()))
    } else {
        let (m1, r) = ev(env, m, s[0], depth);
        match r {
            Err(e) => (m1, Err(e)),
            Ok(_) => ev_program(env, m1, s.drop_first(), depth),
        }
    }
}

/// The mathematical form of what a step gives.
pub open spec fn result_view(r: Result<ILitType, Stop>) -> Result<Val, StopView> {
    match r {
        Ok(v) => Ok(v@),
        Err(s) => Err(s@),
    }
}

/// An integer that fits, or the crash for one that does not.
pub open spec fn fit_view(n: Option<usize>) -> Result<Val, StopView> {
    match n {
        Some(k) => Ok(Val::Integer(k)),
        None => Err(StopView::Crash("length does not fit in an integer"@)),
    }
}

/// The mathematical form of a text or of why a run stops.
pub open spec fn text_result(r: Result<String, Stop>) -> Result<Seq<char>, StopView> {
    match r {
        Ok(t) => Ok(t@),
        Err(e) => Err(e@),
    }
}

/// The mathematical forms of a list of values.
pub open spec fn val_list(v: Seq<ILitType>) -> Seq<Val> {
    Seq::new(v.len(), |i: int| v[i]@)
}

/// The mathematical forms of a list of texts.
pub open spec fn text_list(v: Seq<String>) -> Seq<Seq<char>> {
    Seq::new(v.len(), |i: int| v[i]@)
}

/// A copy of a function.
fn clone_runtime_func(f: &RuntimeFunc) -> (r: RuntimeFunc)
    ensures
        r@ == f@,
{
    match f {
        RuntimeFunc::User(u) => RuntimeFunc::User(
            UserFunc { args: clone_params(&u.args), body: u.body.clone(), ret: u.ret.clone() },
        ),
        RuntimeFunc::Internal(b) => RuntimeFunc::Internal(*b),
    }
}

/// A copy of a stream handle.
fn clone_handle(h: &IStreamHandle) -> (r: IStreamHandle)
    ensures
        stream_view(r) == stream_view(*h),
{
    match h {
        IStreamHandle::File(f) => IStreamHandle::File(f.clone()),
        IStreamHandle::Stdout => IStreamHandle::Stdout,
        IStreamHandle::Stdin => IStreamHandle::Stdin,
        IStreamHandle::Buffer(b) => IStreamHandle::Buffer(b.clone()),
    }
}

/// The variables of a run, each name with its value.
pub open spec fn frame_list(v: Seq<(String, Rc<ILitType>)>) -> Seq<(Seq<char>, Val)> {
    Seq::new(v.len(), |i: int| (v[i].0@, v[i].1@))
}

/// std's `Rc::clone`: another pointer to the same value.
#[verifier::external_body]
fn share(v: &Rc<ILitType>) -> (r: Rc<ILitType>)
    ensures
        r == *v,
{
    Rc::clone(v)
}

/// Runs IR.
#[derive(Debug)]
pub struct Engine {
    frames: Vec<(String, Rc<ILitType>)>,
    funcs: Functions,
    argv: Vec<String>,
    output: Vec<String>,
    cursor: usize,
}

impl Engine {
    /// The state of the run.
    pub closed spec fn machine(&self) -> Machine {
        Machine {
            frames: frame_list(self.frames@),
            funcs: self.funcs@,
            output: text_list(self.output@),
            cursor: self.cursor as nat,
        }
    }

    /// What the run is given, with the host's answers `answers`.
    pub closed spec fn env(&self, answers: Seq<ILitType>) -> Env {
        Env { answers: val_list(answers), argv: text_list(self.argv@) }
    }

    /// An engine for a program with the arguments `args`, with the standard library and no
    /// variable set.
    pub fn new(args: Vec<String>) -> (e: Engine)
        ensures
            e.machine() == (Machine {
                frames: Seq::empty(),
                funcs: crate::interpreter::stdlib::spec_stdlib(),
                output: Seq::empty(),
                cursor: 0,
            }),
            e.env(Seq::empty()).argv == text_list(args@),
    {
        Engine::new_precomp(args, 0)
    }

    /// An engine as `new` makes it, with room set aside for `size` variables.
    pub fn new_precomp(args: Vec<String>, size: usize) -> (e: Engine)
        ensures
            e.machine() == (Machine {
                frames: Seq::empty(),
                funcs: crate::interpreter::stdlib::spec_stdlib(),
                output: Seq::empty(),
                cursor: 0,
            }),
            e.env(Seq::empty()).argv == text_list(args@),
    {
        let frames: Vec<(String, Rc<ILitType>)> = Vec::with_capacity(size);
        let e = Engine { frames, funcs: Functions::stdlib(), argv: args, output: Vec::new(), cursor: 0 };
        assert(frame_list(e.frames@) =~= Seq::<(Seq<char>, Val)>::empty());
        assert(text_list(e.output@) =~= Seq::<Seq<char>>::empty());
        e
    }

    /// The program's arguments.
    pub fn args(&self) -> (a: &Vec<String>)
        ensures
            text_list(a@) == self.env(Seq::empty()).argv,
    {
        &self.argv
    }

    /// What the program has printed so far, in order.
    pub fn output(&self) -> (o: &Vec<String>)
        ensures
            text_list(o@) == self.machine().output,
    {
        &self.output
    }

    fn get_var(&self, name: &String) -> (v: Option<ILitType>)
        ensures
            match v {
                Some(x) => get_var(self.machine(), name@) == Some(x@),
                None => get_var(self.machine(), name@) is None,
            },
    {
        let ghost fl = frame_list(self.frames@);
        let mut i: usize = self.frames.len();
        assert(fl.take(i as int) =~= fl);
        while i > 0
            invariant
                i <= self.frames@.len(),
                fl == frame_list(self.frames@),
                find_var(fl, name@) == find_var(fl.take(i as int), name@),
            decreases i,
        {
            assert(fl.take(i as int).drop_last() =~= fl.take(i - 1));
            assert(fl.take(i as int).last() == fl[i - 1]);
            if self.frames[i - 1].0 == *name {
                return Some((*self.frames[i - 1].1).clone());
            }
            i -= 1;
        }
        assert(fl.take(0) =~= Seq::<(Seq<char>, Val)>::empty());
        None
    }

    fn set_var(&mut self, name: &String, val: ILitType)
        ensures
            final(self).machine() == set_var(old(self).machine(), name@, val@),
            final(self).argv == old(self).argv,
    {
        let ghost v = val@;
        self.frames.push((name.clone(), Rc::new(val)));
        assert(frame_list(self.frames@) =~= frame_list(old(self).frames@).push((name@, v)));
    }

    /// The variables as they are now, to be restored later.
    fn save_frames(&self) -> (s: Vec<(String, Rc<ILitType>)>)
        ensures
            frame_list(s@) == self.machine().frames,
    {
        let mut s: Vec<(String, Rc<ILitType>)> = Vec::new();
        let mut i: usize = 0;
        while i < self.frames.len()
            invariant
                i <= self.frames@.len(),
                frame_list(s@) == frame_list(self.frames@.take(i as int)),
            decreases self.frames@.len() - i,
        {
            let ghost before = frame_list(s@);
            let name = self.frames[i].0.clone();
            let val = share(&self.frames[i].1);
            s.push((name, val));
            assert(frame_list(s@) =~= before.push((self.frames@[i as int].0@, self.frames@[i as int].1@)));
            assert(frame_list(self.frames@.take(i + 1)) =~= frame_list(self.frames@.take(i as int)).push((self.frames@[i as int].0@, self.frames@[i as int].1@)));
            i += 1;
            assert(frame_list(s@) =~= frame_list(self.frames@.take(i as int)));
        }
        assert(self.frames@.take(i as int) =~= self.frames@);
        s
    }

    /// Put back the variables saved in `s`.
    fn restore_frames(&mut self, s: Vec<(String, Rc<ILitType>)>)
        ensures
            final(self).machine() == with_frames(old(self).machine(), frame_list(s@)),
            final(self).argv == old(self).argv,
    {
        self.frames = s;
    }

    fn print(&mut self, t: String)
        ensures
            final(self).machine() == print(old(self).machine(), t@),
            final(self).argv == old(self).argv,
    {
        let ghost tv = t@;
        self.output.push(t);
        assert(text_list(self.output@) =~= text_list(old(self).output@).push(tv));
    }

    fn render(&mut self, pieces: &Vec<Piece>, answers: &Vec<ILitType>) -> (r: Result<String, Stop>)
        ensures
            (final(self).machine(), text_result(r)) == render(old(self).env(answers@), old(self).machine(), pieces_view(pieces@), Seq::empty()),
            final(self).argv == old(self).argv,
    {
        let ghost env = self.env(answers@);
        let ghost pv = pieces_view(pieces@);
        let mut acc = String::new();
        let mut i: usize = 0;
        assert(pv.skip(0) =~= pv);
        while i < pieces.len()
            invariant
                i <= pieces@.len(),
                pv == pieces_view(pieces@),
                env == self.env(answers@),
                self.argv == old(self).argv,
                render(env, old(self).machine(), pv, Seq::empty()) == render(env, self.machine(), pv.skip(i as int), acc@),
            decreases pieces@.len() - i,
        {
            let ghost rest = pv.skip(i as int);
            assert(rest[0] == pieces@[i as int]@);
            assert(rest.drop_first() =~= pv.skip(i + 1));
            match &pieces[i] {
                Piece::Text(t) => {
                    push_str(&mut acc, t.as_str());
                },
                Piece::Float(n) => {
                    match self.answer(Request::FormatFloat(*n), answers) {
                        Ok(v) => {
                            match v {
                                ILitType::String(t) => {
                                    push_str(&mut acc, t.as_str());
                                },
                                _ => {
                                    assert(acc@ + Seq::<char>::empty() =~= acc@);
                                },
                            }
                        },
                        Err(e) => {
                            return Err(e);
                        },
                    }
                },
            }
            i += 1;
        }
        assert(pv.skip(i as int) =~= Seq::<PieceView>::empty());
        Ok(acc)
    }

    fn format_text(&mut self, f: &str, args: &[ILitType], answers: &Vec<ILitType>) -> (r: Result<String, Stop>)
        ensures
            (final(self).machine(), text_result(r)) == format_text(old(self).env(answers@), old(self).machine(), f@, val_list(args@)),
            final(self).argv == old(self).argv,
    {
        assert(val_list(args@) =~= Seq::new(args@.len(), |i: int| args@[i]@));
        if !all_are_printable(args) {
            let msg = String::from_str("not yet implemented");
            return Err(Stop::Crash(msg));
        }
        proof {
            lemma_printable_args_defined(f@, 0, val_list(args@), 0, Seq::empty());
        }
        let pieces = sprintf(f, args);
        self.render(&pieces, answers)
    }

    fn fit(n: Option<usize>) -> (r: Result<ILitType, Stop>)
        ensures
            result_view(r) == fit_view(n),
    {
        match n {
            Some(k) => Ok(ILitType::Integer(k)),
            None => Err(Stop::Crash(String::from_str("length does not fit in an integer"))),
        }
    }

    fn bad(name: &String) -> (s: Stop)
        ensures
            s@ == StopView::Crash(bad_args(name@)),
    {
        let mut m = String::from_str("invalid arguments for `");
        push_str(&mut m, name.as_str());
        push_str(&mut m, "`");
        Stop::Crash(m)
    }

    fn call_builtin(&mut self, name: &String, b: Builtin, a: Vec<ILitType>, answers: &Vec<ILitType>) -> (r: Result<ILitType, Stop>)
        ensures
            (final(self).machine(), result_view(r)) == call_builtin(old(self).env(answers@), old(self).machine(), name@, b, val_list(a@)),
            final(self).argv == old(self).argv,
    {
        let ghost av = val_list(a@);
        let n = a.len();
        match b {
            Builtin::Itoa => {
                if n == 1 {
                    if let ILitType::Integer(x) = &a[0] {
                        return Ok(itoa(*x));
                    }
                }
                Err(Self::bad(name))
            },
            Builtin::Atoi => {
                if n == 1 {
                    if let ILitType::String(x) = &a[0] {
                        return Ok(atoi(x.as_str()));
                    }
                }
                Err(Self::bad(name))
            },
            Builtin::Max | Builtin::Min | Builtin::Add | Builtin::Sub => {
                if n == 2 {
                    if let ILitType::Integer(x) = &a[0] {
                        if let ILitType::Integer(y) = &a[1] {
                            return Ok(
                                match b {
                                    Builtin::Max => max(*x, *y),
                                    Builtin::Min => min(*x, *y),
                                    Builtin::Add => crate::interpreter::functions::math::add(*x, *y),
                                    _ => crate::interpreter::functions::math::sub(*x, *y),
                                },
                            );
                        }
                    }
                }
                Err(Self::bad(name))
            },
            Builtin::DumpVar => {
                if n == 1 {
                    let mut t = String::new();
                    push_debug(&mut t, &a[0]);
                    push_str(&mut t, "\n");
                    proof {
                        reveal_strlit("\n");
                        assert("\n"@ =~= seq!['\n']);
                        assert(t@ =~= debug_rep(av[0]) + seq!['\n']);
                    }
                    self.print(t);
                    return Ok(ILitType::Unit);
                }
                Err(Self::bad(name))
            },
            Builtin::Sprintf | Builtin::Printf => {
                if n == 2 {
                    if let ILitType::String(f) = &a[0] {
                        if let ILitType::Array(xs) = &a[1] {
                            proof {
                                lemma_vals_of_view(*xs);
                            }
                            assert(val_list(xs@) =~= slice_vals(xs@));
                            let t = match self.format_text(f.as_str(), xs.as_slice(), answers) {
                                Ok(t) => t,
                                Err(e) => {
                                    return Err(e);
                                },
                            };
                            if b == Builtin::Sprintf {
                                return Ok(ILitType::String(t));
                            } else {
                                let len = byte_len_checked(t.as_str());
                                self.print(t);
                                return Self::fit(len);
                            }
                        }
                    }
                }
                Err(Self::bad(name))
            },
            Builtin::Puts => {
                if n == 1 {
                    if let ILitType::String(x) = &a[0] {
                        self.print(x.clone());
                        return Ok(ILitType::Unit);
                    }
                }
                Err(Self::bad(name))
            },
            Builtin::Nth => {
                if n == 2 {
                    if let ILitType::Array(xs) = &a[0] {
                        if let ILitType::Integer(i) = &a[1] {
                            proof {
                                lemma_vals_of_view(*xs);
                            }
                            return Ok(nth(xs, *i));
                        }
                    }
                }
                Err(Self::bad(name))
            },
            Builtin::Split => {
                if n == 2 {
                    if let ILitType::String(x) = &a[0] {
                        if let ILitType::String(y) = &a[1] {
                            return Ok(split(x.as_str(), y.as_str()));
                        }
                    }
                }
                Err(Self::bad(name))
            },
            Builtin::Len => {
                if n == 1 {
                    match &a[0] {
                        ILitType::Stream(h) => {
                            return self.answer(Request::StreamLen(clone_handle(h)), answers);
                        },
                        ILitType::Array(xs) => {
                            proof {
                                lemma_vals_of_view(*xs);
                            }
                            return Ok(ILitType::Integer(xs.len()));
                        },
                        ILitType::Integer(i) => {
                            return Ok(ILitType::Integer(*i));
                        },
                        ILitType::String(x) => {
                            return Self::fit(byte_len_checked(x.as_str()));
                        },
                        ILitType::Unit => {
                            return Ok(ILitType::Integer(0));
                        },
                        ILitType::Result(_) => {
                            return Ok(ILitType::Integer(1));
                        },
                        ILitType::File(p) => {
                            return Self::fit(byte_len_checked(p.as_str()));
                        },
                    }
                }
                Err(Self::bad(name))
            },
            Builtin::Enumerate => {
                if n == 1 {
                    if let ILitType::Array(xs) = &a[0] {
                        proof {
                            lemma_vals_of_view(*xs);
                        }
                        let r = enumerate(xs);
                        let ghost arr = crate::interpreter::types::vals_of(*xs);
                        assert(Seq::new(xs@.len(), |i: int| Val::Array(seq![Val::Integer(i as usize), xs@[i]@]))
                            =~= Seq::new(arr.len(), |i: int| Val::Array(seq![Val::Integer(i as usize), arr[i]])));
                        return Ok(r);
                    }
                }
                Err(Self::bad(name))
            },
            Builtin::Chars => {
                if n == 1 {
                    if let ILitType::String(x) = &a[0] {
                        return Ok(chars(x.as_str()));
                    }
                }
                Err(Self::bad(name))
            },
            Builtin::Only => {
                if n == 2 {
                    if let ILitType::Array(xs) = &a[0] {
                        if let ILitType::Integer(k) = &a[1] {
                            proof {
                                lemma_vals_of_view(*xs);
                            }
                            return Ok(only(xs, *k));
                        }
                    }
                }
                Err(Self::bad(name))
            },
            Builtin::Rev => {
                if n == 1 {
                    if let ILitType::Array(xs) = &a[0] {
                        proof {
                            lemma_vals_of_view(*xs);
                        }
                        return Ok(rev(xs));
                    }
                }
                Err(Self::bad(name))
            },
            Builtin::Range => {
                if n == 2 {
                    if let ILitType::Integer(x) = &a[0] {
                        if let ILitType::Integer(y) = &a[1] {
                            return Ok(range(*x, *y));
                        }
                    }
                }
                Err(Self::bad(name))
            },
            Builtin::Equals => {
                if n == 2 {
                    return Ok(eq(&a[0], &a[1]));
                }
                Err(Self::bad(name))
            },
            Builtin::File => {
                if n == 1 {
                    if let ILitType::String(x) = &a[0] {
                        return Ok(file(x.as_str()));
                    }
                }
                Err(Self::bad(name))
            },
            Builtin::Create | Builtin::Open => {
                if n == 1 {
                    if let ILitType::File(p) = &a[0] {
                        let req = if b == Builtin::Create {
                            Request::Create(p.clone())
                        } else {
                            Request::Open(p.clone())
                        };
                        return self.answer(req, answers);
                    }
                }
                Err(Self::bad(name))
            },
            Builtin::Dump => {
                if n == 2 {
                    if let ILitType::Stream(h) = &a[0] {
                        if let ILitType::String(c) = &a[1] {
                            return self.answer(Request::Dump(clone_handle(h), c.clone()), answers);
                        }
                    }
                }
                Err(Self::bad(name))
            },
            Builtin::Lines => {
                if n == 1 {
                    if let ILitType::Stream(h) = &a[0] {
                        return match self.answer(Request::Lines(clone_handle(h)), answers) {
                            Ok(v) => Ok(lines_answer_of(v, 0)),
                            Err(e) => Err(e),
                        };
                    }
                }
                Err(Self::bad(name))
            },
            Builtin::Skip => {
                if n == 2 {
                    if let ILitType::Integer(k) = &a[1] {
                        match &a[0] {
                            ILitType::Array(xs) => {
                                proof {
                                    lemma_vals_of_view(*xs);
                                }
                                return Ok(skip(xs, *k));
                            },
                            ILitType::Stream(h) => {
                                return match self.answer(Request::Lines(clone_handle(h)), answers) {
                                    Ok(v) => Ok(lines_answer_of(v, *k)),
                                    Err(e) => Err(e),
                                };
                            },
                            _ => {},
                        }
                    }
                }
                Err(Self::bad(name))
            },
            Builtin::Fpop => {
                if n == 1 {
                    if let ILitType::File(p) = &a[0] {
                        return Ok(fpop(p.as_str()));
                    }
                }
                Err(Self::bad(name))
            },
            Builtin::Panic => {
                if n == 1 {
                    if let ILitType::String(f) = &a[0] {
                        let none: Vec<ILitType> = Vec::new();
                        assert(val_list(none@) =~= Seq::<Val>::empty());
                        return match self.format_text(f.as_str(), none.as_slice(), answers) {
                            Ok(t) => Err(Stop::Panic(t)),
                            Err(e) => Err(e),
                        };
                    }
                }
                Err(Self::bad(name))
            },
            Builtin::Exit => {
                if n == 1 {
                    if let ILitType::Integer(c) = &a[0] {
                        return Err(Stop::Exit(*c));
                    }
                }
                Err(Self::bad(name))
            },
            Builtin::Args => {
                if n == 0 {
                    let r = arg_list(&self.argv);
                    assert(Seq::new(self.argv@.len(), |i: int| Val::Str(self.argv@[i]@)) =~= str_vals(text_list(self.argv@)));
                    return Ok(r);
                }
                Err(Self::bad(name))
            },
            Builtin::MakeOk | Builtin::MakeErr => {
                if n == 1 {
                    return Ok(if b == Builtin::MakeOk { ok(&a[0]) } else { err(&a[0]) });
                }
                Err(Self::bad(name))
            },
            Builtin::Trim | Builtin::TrimLeft | Builtin::TrimRight => {
                if n == 1 {
                    if let ILitType::String(x) = &a[0] {
                        return Ok(
                            match b {
                                Builtin::Trim => trim(x.as_str()),
                                Builtin::TrimLeft => trim_left(x.as_str()),
                                _ => trim_right(x.as_str()),
                            },
                        );
                    }
                }
                Err(Self::bad(name))
            },
            Builtin::Upper | Builtin::Lower => {
                if n == 1 {
                    if let ILitType::String(x) = &a[0] {
                        return Ok(if b == Builtin::Upper { upper(x.as_str()) } else { lower(x.as_str()) });
                    }
                }
                Err(Self::bad(name))
            },
            Builtin::Replace => {
                if n == 3 {
                    if let ILitType::String(x) = &a[0] {
                        if let ILitType::String(y) = &a[1] {
                            if let ILitType::String(z) = &a[2] {
                                return Ok(replace(x.as_str(), y.as_str(), z.as_str()));
                            }
                        }
                    }
                }
                Err(Self::bad(name))
            },
            Builtin::SplitAt => {
                if n == 2 {
                    if let ILitType::String(x) = &a[0] {
                        if let ILitType::Integer(i) = &a[1] {
                            return Ok(split_at(x.as_str(), *i));
                        }
                    }
                }
                Err(Self::bad(name))
            },
        }
    }

    fn answer(&mut self, req: Request, answers: &Vec<ILitType>) -> (r: Result<ILitType, Stop>)
        ensures
            (final(self).machine(), result_view(r)) == answer(old(self).env(answers@), old(self).machine(), req@),
            final(self).argv == old(self).argv,
    {
        if self.cursor < answers.len() {
            let a = answers[self.cursor].clone();
            self.cursor += 1;
            Ok(a)
        } else {
            Err(Stop::Wait(req))
        }
    }

    fn crash(msg: &str) -> (s: Stop)
        ensures
            s@ == StopView::Crash(msg@),
    {
        Stop::Crash(String::from_str(msg))
    }

    /// Evaluate a node; calls may nest `depth` deep.
    #[verifier::loop_isolation(false)]
    fn eval(&mut self, ir: &IR, answers: &Vec<ILitType>, depth: usize) -> (r: Result<ILitType, Stop>)
        ensures
            (final(self).machine(), result_view(r)) == ev(old(self).env(answers@), old(self).machine(), ir@, depth as nat),
            final(self).argv == old(self).argv,
        decreases depth, *ir, 0nat,
    {
        let ghost env = self.env(answers@);
        match ir {
            IR::FuncLet { name, args, internal: _, ret, body } => {
                let f = UserFunc { args: clone_params(args), body: (**body).clone(), ret: ret.clone() };
                self.funcs.insert(name.as_str(), RuntimeFunc::User(f));
                Ok(ILitType::Unit)
            },
            IR::Grouping { inner, redirect } => {
                let saved = self.save_frames();
                match redirect {
                    Some((e, bind)) => {
                        let v = match self.eval(e, answers, depth) {
                            Ok(v) => v,
                            Err(s) => {
                                self.restore_frames(saved);
                                return Err(s);
                            },
                        };
                        self.set_var(bind, v);
                    },
                    None => {},
                }
                let ghost m1 = self.machine();
                let ghost iv = irs_view(*inner);
                let mut last = ILitType::Unit;
                let mut i: usize = 0;
                assert(iv.skip(0) =~= iv);
                while i < inner.len()
                    invariant
                        i <= inner@.len(),
                        iv == irs_view(*inner),
                        env == self.env(answers@),
                        self.argv == old(self).argv,
                        ev_seq(env, m1, iv, depth as nat, Val::Unit) == ev_seq(env, self.machine(), iv.skip(i as int), depth as nat, last@),
                    decreases inner@.len() - i,
                {
                    let ghost rest = iv.skip(i as int);
                    assert(rest[0] == ir_view(inner@[i as int]));
                    assert(rest.drop_first() =~= iv.skip(i + 1));
                    assert(decreases_to!(*inner => inner@[i as int]));
                    match self.eval(&inner[i], answers, depth) {
                        Ok(v) => {
                            last = v;
                        },
                        Err(s) => {
                            self.restore_frames(saved);
                            return Err(s);
                        },
                    }
                    i += 1;
                }
                assert(iv.skip(i as int) =~= Seq::<IRView>::empty());
                self.restore_frames(saved);
                Ok(last)
            },
            IR::For { bind, iter, body } => {
                let it = match self.eval(iter, answers, depth) {
                    Ok(v) => v,
                    Err(s) => {
                        return Err(s);
                    },
                };
                match it {
                    ILitType::Array(elems) => {
                        let ghost m1 = self.machine();
                        let ghost ev_elems = crate::interpreter::types::vals_of(elems);
                        let mut last = ILitType::Unit;
                        let mut i: usize = 0;
                        assert(ev_elems.skip(0) =~= ev_elems);
                        while i < elems.len()
                            invariant
                                i <= elems@.len(),
                                ev_elems == crate::interpreter::types::vals_of(elems),
                                env == self.env(answers@),
                                self.argv == old(self).argv,
                                ev_for(env, m1, bind@, ev_elems, body@, depth as nat, Val::Unit) == ev_for(env, self.machine(), bind@, ev_elems.skip(i as int), body@, depth as nat, last@),
                            decreases elems@.len() - i,
                        {
                            let ghost rest = ev_elems.skip(i as int);
                            assert(rest[0] == elems@[i as int]@);
                            assert(rest.drop_first() =~= ev_elems.skip(i + 1));
                            let saved = self.save_frames();
                            self.set_var(bind, elems[i].clone());
                            let r = self.eval(body, answers, depth);
                            self.restore_frames(saved);
                            match r {
                                Ok(v) => {
                                    last = v;
                                },
                                Err(s) => {
                                    return Err(s);
                                },
                            }
                            i += 1;
                        }
                        assert(ev_elems.skip(i as int) =~= Seq::<Val>::empty());
                        Ok(last)
                    },
                    _ => Err(Self::crash("loop over a value that is not an array")),
                }
            },
            IR::Let { name, ty: _, value } => {
                let v = match self.eval(value, answers, depth) {
                    Ok(v) => v,
                    Err(s) => {
                        return Err(s);
                    },
                };
                self.set_var(name, v.clone());
                Ok(v)
            },
            IR::Match { expr, arms } => {
                let v = match self.eval(expr, answers, depth) {
                    Ok(v) => v,
                    Err(s) => {
                        return Err(s);
                    },
                };
                let (is_ok, held) = match v {
                    ILitType::Result(IResultBranch::OkBranch(x)) => (true, *x),
                    ILitType::Result(IResultBranch::ErrBranch(x)) => (false, *x),
                    _ => {
                        return Err(Self::crash("match on a value that is not a result"));
                    },
                };
                let ghost m1 = self.machine();
                let ghost av = arms_view(*arms);
                let mut i: usize = 0;
                assert(av.skip(0) =~= av);
                while i < arms.len()
                    invariant
                        i <= arms@.len(),
                        av == arms_view(*arms),
                        env == self.env(answers@),
                        self.argv == old(self).argv,
                        self.machine() == m1,
                        ev_arms(env, m1, av, is_ok, held@, depth as nat) == ev_arms(env, m1, av.skip(i as int), is_ok, held@, depth as nat),
                    decreases arms@.len() - i,
                {
                    let ghost rest = av.skip(i as int);
                    assert(rest[0] == arms@[i as int]@);
                    assert(rest.drop_first() =~= av.skip(i + 1));
                    if arms[i].is_ok == is_ok {
                        assert(decreases_to!(*arms => arms@[i as int]));
                        assert(decreases_to!(arms@[i as int] => arms@[i as int].body));
                        let saved = self.save_frames();
                        self.set_var(&arms[i].bind, held.clone());
                        let r = self.eval(&arms[i].body, answers, depth);
                        self.restore_frames(saved);
                        return r;
                    }
                    i += 1;
                }
                assert(av.skip(i as int) =~= Seq::<ArmView>::empty());
                Err(Self::crash("no arm matches"))
            },
            IR::FuncCall { name, args, unwrap } => self.eval_funccall(name, args, *unwrap, answers, depth),
            IR::Integer(i) => Ok(ILitType::Integer(*i)),
            IR::String(s) => Ok(ILitType::String(s.clone())),
            IR::Ident(id) => match self.get_var(id) {
                Some(v) => Ok(v),
                None => Err(Self::crash("could not find ident")),
            },
            IR::Array(elems) => {
                match self.eval_list(elems, answers, depth) {
                    Ok(vs) => {
                        proof {
                            lemma_vals_of_view(vs);
                        }
                        Ok(ILitType::Array(vs))
                    },
                    Err(s) => Err(s),
                }
            },
            IR::Unit => Ok(ILitType::Unit),
            IR::Result { .. } => Err(Self::crash("not yet implemented: result")),
            IR::Expr(e) => self.eval(e, answers, depth),
            IR::Stmt(e) => {
                match self.eval(e, answers, depth) {
                    Ok(_) => Ok(ILitType::Unit),
                    Err(s) => Err(s),
                }
            },
        }
    }

    /// Evaluate nodes in order.
    #[verifier::loop_isolation(false)]
    fn eval_list(&mut self, elems: &Vec<IR>, answers: &Vec<ILitType>, depth: usize) -> (r: Result<Vec<ILitType>, Stop>)
        ensures
            (final(self).machine(), match r {
                Ok(vs) => Ok(val_list(vs@)),
                Err(s) => Err(s@),
            }) == ev_list(old(self).env(answers@), old(self).machine(), irs_view(*elems), depth as nat, Seq::empty()),
            final(self).argv == old(self).argv,
        decreases depth, *elems, 0nat,
    {
        let ghost env = self.env(answers@);
        let ghost m0 = self.machine();
        let ghost iv = irs_view(*elems);
        let mut vs: Vec<ILitType> = Vec::new();
        let mut i: usize = 0;
        assert(iv.skip(0) =~= iv);
        assert(val_list(vs@) =~= Seq::<Val>::empty());
        while i < elems.len()
            invariant
                i <= elems@.len(),
                iv == irs_view(*elems),
                env == self.env(answers@),
                self.argv == old(self).argv,
                ev_list(env, m0, iv, depth as nat, Seq::empty()) == ev_list(env, self.machine(), iv.skip(i as int), depth as nat, val_list(vs@)),
            decreases elems@.len() - i,
        {
            let ghost rest = iv.skip(i as int);
            assert(rest[0] == ir_view(elems@[i as int]));
            assert(rest.drop_first() =~= iv.skip(i + 1));
            assert(decreases_to!(*elems => elems@[i as int]));
            match self.eval(&elems[i], answers, depth) {
                Ok(v) => {
                    let ghost before = val_list(vs@);
                    vs.push(v);
                    assert(val_list(vs@) =~= before.push(vs@.last()@));
                },
                Err(s) => {
                    return Err(s);
                },
            }
            i += 1;
        }
        assert(iv.skip(i as int) =~= Seq::<IRView>::empty());
        Ok(vs)
    }

    /// Evaluate a call.
    #[verifier::loop_isolation(false)]
    fn eval_funccall(&mut self, name: &String, args: &Vec<IR>, unwrap: bool, answers: &Vec<ILitType>, depth: usize) -> (r: Result<ILitType, Stop>)
        ensures
            (final(self).machine(), result_view(r)) == ev_call(old(self).env(answers@), old(self).machine(), name@, irs_view(*args), unwrap, depth as nat),
            final(self).argv == old(self).argv,
        decreases depth, *args, 1nat,
    {
        let ghost env = self.env(answers@);
        let func = match self.funcs.resolve(name.as_str()) {
            Some(f) => clone_runtime_func(f),
            None => {
                let mut msg = String::from_str("function `");
                push_str(&mut msg, name.as_str());
                push_str(&mut msg, "` not found! Did you add the internal function yet?");
                return Err(Stop::Crash(msg));
            },
        };
        let vals = match self.eval_list(args, answers, depth) {
            Ok(vs) => vs,
            Err(s) => {
                return Err(s);
            },
        };
        let ret = match func {
            RuntimeFunc::Internal(b) => self.call_builtin(name, b, vals, answers),
            RuntimeFunc::User(u) => {
                if depth == 0 {
                    Err(Stop::Depth)
                } else {
                    let ghost m1 = self.machine();
                    let saved = self.save_frames();
                    let mut i: usize = 0;
                    let ghost ps = params_view(u.args@);
                    assert(ps.take(0) =~= Seq::<(Seq<char>, crate::typing::types::Type)>::empty());
                    while i < u.args.len()
                        invariant
                            i <= u.args@.len(),
                            env == self.env(answers@),
                            self.argv == old(self).argv,
                            ps == params_view(u.args@),
                            self.machine() == bind_args(m1, ps.take(i as int), val_list(vals@)),
                        decreases u.args@.len() - i,
                    {
                        let v = if i < vals.len() { vals[i].clone() } else { ILitType::Unit };
                        assert(ps.take(i + 1).drop_last() =~= ps.take(i as int));
                        assert(ps.take(i + 1).last() == (u.args@[i as int].0@, u.args@[i as int].1));
                        self.set_var(&u.args[i].0, v);
                        i += 1;
                    }
                    assert(ps.take(i as int) =~= ps);
                    let r = self.eval(&u.body, answers, depth - 1);
                    self.restore_frames(saved);
                    r
                }
            },
        };
        let v = match ret {
            Ok(v) => v,
            Err(s) => {
                return Err(s);
            },
        };
        if !unwrap {
            return Ok(v);
        }
        match v {
            ILitType::Result(IResultBranch::OkBranch(x)) => Ok(*x),
            ILitType::Result(IResultBranch::ErrBranch(x)) => {
                if is_printable(&x) {
                    let text = x.as_string_rep();
                    let none: Vec<ILitType> = Vec::new();
                    assert(val_list(none@) =~= Seq::<Val>::empty());
                    match self.format_text(text.as_str(), none.as_slice(), answers) {
                        Ok(t) => Err(Stop::Panic(t)),
                        Err(s) => Err(s),
                    }
                } else {
                    Err(Self::crash("not yet implemented"))
                }
            },
            _ => Err(Self::crash("unwrap of a value that is not a result")),
        }
    }

    /// Run the nodes of a program in order, with the host's answers so far; calls may nest
    /// `depth` deep. The run stops at the first stop, with what the program printed until then
    /// in [`Engine::output`].
    #[verifier::loop_isolation(false)]
    pub fn run(&mut self, ir: &Vec<IR>, answers: &Vec<ILitType>, depth: usize) -> (r: Result<(), Stop>)
        ensures
            (final(self).machine(), match r {
                Ok(u) => Ok(u),
                Err(s) => Err(s@),
            }) == ev_program(old(self).env(answers@), old(self).machine(), irs_view(*ir), depth as nat),
            final(self).env(answers@) == old(self).env(answers@),
    {
        let ghost env = self.env(answers@);
        let ghost m0 = self.machine();
        let ghost iv = irs_view(*ir);
        let mut i: usize = 0;
        assert(iv.skip(0) =~= iv);
        while i < ir.len()
            invariant
                i <= ir@.len(),
                iv == irs_view(*ir),
                env == self.env(answers@),
                self.argv == old(self).argv,
                ev_program(env, m0, iv, depth as nat) == ev_program(env, self.machine(), iv.skip(i as int), depth as nat),
            decreases ir@.len() - i,
        {
            let ghost rest = iv.skip(i as int);
            assert(rest[0] == ir_view(ir@[i as int]));
            assert(rest.drop_first() =~= iv.skip(i + 1));
            match self.eval(&ir[i], answers, depth) {
                Ok(_) => {},
                Err(s) => {
                    return Err(s);
                },
            }
            i += 1;
        }
        assert(iv.skip(i as int) =~= Seq::<IRView>::empty());
        Ok(())
    }
}

} // verus!
