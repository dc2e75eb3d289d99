//! The values a running Diamond program works with.
use vstd::prelude::*;
use std::fmt::Write;
use crate::text::{decimal, push_char, push_decimal, push_str};

verus! {

/// A value.
#[derive(Debug)]
pub enum ILitType {
    Integer(usize),
    String(String),
    Unit,
    Result(IResultBranch),
    Array(Vec<ILitType>),
    Stream(IStreamHandle),
    /// A path.
    File(String),
}

/// The branch a result value is on, and the value it holds.
#[derive(Debug)]
pub enum IResultBranch {
    OkBranch(Box<ILitType>),
    ErrBranch(Box<ILitType>),
}

/// What a stream reads from and writes to.
#[derive(Debug)]
pub enum IStreamHandle {
    File(FileHandle),
    Stdout,
    Stdin,
    Buffer(Vec<u8>),
}

/// An open file, as the host that opened it describes it: its number among the host's open
/// files, the text that stands for it when it is printed, and the text of its debug form.
#[derive(Debug)]
pub struct FileHandle {
    pub id: usize,
    pub shown: String,
    pub debugged: String,
}

/// The mathematical form of a value.
pub enum Val {
    Integer(usize),
    Str(Seq<char>),
    Unit,
    /// `true` for the ok branch.
    Result(bool, Box<Val>),
    Array(Seq<Val>),
    Stream(StreamView),
    File(Seq<char>),
}

/// The mathematical form of a stream handle.
pub enum StreamView {
    File { id: usize, shown: Seq<char>, debugged: Seq<char> },
    Stdout,
    Stdin,
    Buffer(Seq<u8>),
}

/// The mathematical form of a value.
pub open spec fn val_of(v: ILitType) -> Val
    decreases v,
{
    match v {
        ILitType::Integer(i) => Val::Integer(i),
        ILitType::String(s) => Val::Str(s@),
        ILitType::Unit => Val::Unit,
        ILitType::Result(IResultBranch::OkBranch(b)) => Val::Result(true, Box::new(val_of(*b))),
        ILitType::Result(IResultBranch::ErrBranch(b)) => Val::Result(false, Box::new(val_of(*b))),
        ILitType::Array(a) => Val::Array(vals_of(a)),
        ILitType::Stream(h) => Val::Stream(stream_view(h)),
        ILitType::File(p) => Val::File(p@),
    }
}

/// The mathematical forms of a list of values.
pub open spec fn vals_of(a: Vec<ILitType>) -> Seq<Val>
    decreases a,
{
    Seq::new(a.len() as nat, |i: int| if 0 <= i < a.len() { val_of(a[i]) } else { Val::Unit })
}

/// The mathematical form of a stream handle.
pub open spec fn stream_view(h: IStreamHandle) -> StreamView {
    match h {
        IStreamHandle::File(f) => StreamView::File { id: f.id, shown: f.shown@, debugged: f.debugged@ },
        IStreamHandle::Stdout => StreamView::Stdout,
        IStreamHandle::Stdin => StreamView::Stdin,
        IStreamHandle::Buffer(b) => StreamView::Buffer(b@),
    }
}

impl View for ILitType {
    type V = Val;

    open spec fn view(&self) -> Val {
        val_of(*self)
    }
}

/// The text of `s` as std's debug formatting of a string writes it: in double quotes, with
/// quotes, backslashes and unprintable characters escaped.
pub uninterp spec fn debug_quoted(s: Seq<char>) -> Seq<char>;

/// Append std's debug form of the string `s` to `out`.
#[verifier::external_body]
fn push_debug_quoted(out: &mut String, s: &str)
    ensures
        final(out)@ == old(out)@ + debug_quoted(s@),
{
    let _ = write!(out, "{:?}", s);
}

/// The text of the path `p` as std's debug formatting of a path writes it: in double quotes,
/// with quotes, backslashes and unprintable characters escaped.
pub uninterp spec fn path_debug_quoted(p: Seq<char>) -> Seq<char>;

/// Append std's debug form of the path `p` to `out`.
#[verifier::external_body]
fn push_path_debug(out: &mut String, p: &str)
    ensures
        final(out)@ == old(out)@ + path_debug_quoted(p@),
{
    let _ = write!(out, "{:?}", std::path::Path::new(p));
}

/// Whether the text form of a value is defined: it is, but for streams other than files.
pub open spec fn printable(v: Val) -> bool
    decreases v,
{
    match v {
        Val::Result(_, b) => printable(*b),
        Val::Stream(StreamView::File { .. }) => true,
        Val::Stream(_) => false,
        _ => true,
    }
}

/// The text form of a value, as `%s` and `puts` print it: integers in decimal, strings as they
/// are, `()` for unit, the held value of a result, the debug form of an array, the host's text
/// for a file stream, and the path of a file.
pub open spec fn string_rep(v: Val) -> Seq<char>
    decreases v,
{
    match v {
        Val::Integer(i) => decimal(i as nat),
        Val::Str(s) => s,
        Val::Unit => "()"@,
        Val::Result(_, b) => string_rep(*b),
        Val::Array(a) => array_debug(a),
        Val::Stream(StreamView::File { shown, .. }) => shown,
        Val::Stream(_) => Seq::empty(),
        Val::File(p) => p,
    }
}

/// The debug form of a list of values: `[a, b, c]`.
pub open spec fn array_debug(a: Seq<Val>) -> Seq<char>
    decreases a, 1nat,
{
    "["@ + debug_list(a) + "]"@
}

/// The debug forms of values, separated by `, `.
pub open spec fn debug_list(a: Seq<Val>) -> Seq<char>
    decreases a, 0nat,
{
    if a.len() == 0 {
        Seq::empty()
    } else if a.len() == 1 {
        debug_rep(a[0])
    } else {
        debug_list(a.drop_last()) + ", "@ + debug_rep(a.last())
    }
}

/// The debug form of a value: the variant's name around its contents.
pub open spec fn debug_rep(v: Val) -> Seq<char>
    decreases v, 0nat,
{
    match v {
        Val::Integer(i) => "Integer("@ + decimal(i as nat) + ")"@,
        Val::Str(s) => "String("@ + debug_quoted(s) + ")"@,
        Val::Unit => "Unit"@,
        Val::Result(true, b) => "Result(Ok("@ + debug_rep(*b) + "))"@,
        Val::Result(false, b) => "Result(Err("@ + debug_rep(*b) + "))"@,
        Val::Array(a) => "Array("@ + array_debug(a) + ")"@,
        Val::Stream(h) => "Stream("@ + stream_debug(h) + ")"@,
        Val::File(p) => "File("@ + path_debug_quoted(p) + ")"@,
    }
}

/// A list of values as it is written in a program: `[1, "a", [2]]`.
pub open spec fn array_literal(a: Seq<Val>) -> Seq<char>
    decreases a, 1nat,
{
    "["@ + literal_list(a) + "]"@
}

/// The written forms of values, separated by `, `.
pub open spec fn literal_list(a: Seq<Val>) -> Seq<char>
    decreases a, 0nat,
{
    if a.len() == 0 {
        Seq::empty()
    } else if a.len() == 1 {
        literal_rep(a[0])
    } else {
        literal_list(a.drop_last()) + ", "@ + literal_rep(a.last())
    }
}

/// A value as it is written in a program: integers in decimal, strings quoted, `()` for unit,
/// `ok(..)` and `err(..)` around a result's value, arrays in brackets; streams and files,
/// which have no written form, in their debug form.
pub open spec fn literal_rep(v: Val) -> Seq<char>
    decreases v, 0nat,
{
    match v {
        Val::Integer(i) => decimal(i as nat),
        Val::Str(s) => debug_quoted(s),
        Val::Unit => "()"@,
        Val::Result(true, b) => "ok("@ + literal_rep(*b) + ")"@,
        Val::Result(false, b) => "err("@ + literal_rep(*b) + ")"@,
        Val::Array(a) => array_literal(a),
        Val::Stream(_) => debug_rep(v),
        Val::File(_) => debug_rep(v),
    }
}

/// The debug form of a stream handle.
pub open spec fn stream_debug(h: StreamView) -> Seq<char> {
    match h {
        StreamView::File { debugged, .. } => "File("@ + debugged + ")"@,
        StreamView::Stdout => "Stdout"@,
        StreamView::Stdin => "Stdin"@,
        StreamView::Buffer(b) => "Buffer("@ + byte_list(b) + ")"@,
    }
}

/// Bytes as a debug list: `[1, 2, 3]`.
pub open spec fn byte_list(b: Seq<u8>) -> Seq<char> {
    "["@ + byte_items(b) + "]"@
}

/// Bytes in decimal, separated by `, `.
pub open spec fn byte_items(b: Seq<u8>) -> Seq<char>
    decreases b.len(),
{
    if b.len() == 0 {
        Seq::empty()
    } else if b.len() == 1 {
        decimal(b[0] as nat)
    } else {
        byte_items(b.drop_last()) + ", "@ + decimal(b.last() as nat)
    }
}

impl Clone for FileHandle {
    fn clone(&self) -> (r: Self)
        ensures
            r.id == self.id,
            r.shown@ == self.shown@,
            r.debugged@ == self.debugged@,
    {
        FileHandle { id: self.id, shown: self.shown.clone(), debugged: self.debugged.clone() }
    }
}

/// A copy of a list of values.
pub fn clone_vals(a: &Vec<ILitType>) -> (r: Vec<ILitType>)
    ensures
        vals_of(r) == vals_of(*a),
    decreases *a,
{
    let mut r: Vec<ILitType> = Vec::new();
    let mut i: usize = 0;
    while i < a.len()
        invariant
            i <= a@.len(),
            r@.len() == i,
            forall|k: int| 0 <= k < i ==> val_of(#[trigger] r@[k]) == val_of(a@[k]),
        decreases a@.len() - i,
    {
        assert(decreases_to!(*a => a@[i as int]));
        let c = a[i].clone();
        r.push(c);
        i += 1;
    }
    assert(vals_of(r) =~= vals_of(*a));
    r
}

impl Clone for ILitType {
    fn clone(&self) -> (r: Self)
        ensures
            r@ == self@,
        decreases *self,
    {
        match self {
            ILitType::Integer(i) => ILitType::Integer(*i),
            ILitType::String(s) => ILitType::String(s.clone()),
            ILitType::Unit => ILitType::Unit,
            ILitType::Result(IResultBranch::OkBranch(b)) => ILitType::Result(
                IResultBranch::OkBranch(Box::new((**b).clone())),
            ),
            ILitType::Result(IResultBranch::ErrBranch(b)) => ILitType::Result(
                IResultBranch::ErrBranch(Box::new((**b).clone())),
            ),
            ILitType::Array(a) => ILitType::Array(clone_vals(a)),
            ILitType::Stream(h) => ILitType::Stream(
                match h {
                    IStreamHandle::File(f) => IStreamHandle::File(f.clone()),
                    IStreamHandle::Stdout => IStreamHandle::Stdout,
                    IStreamHandle::Stdin => IStreamHandle::Stdin,
                    IStreamHandle::Buffer(b) => IStreamHandle::Buffer(b.clone()),
                },
            ),
            ILitType::File(p) => ILitType::File(p.clone()),
        }
    }
}

/// Append the debug form of a value to `out`.
pub fn push_debug(out: &mut String, v: &ILitType)
    ensures
        final(out)@ == old(out)@ + debug_rep(v@),
    decreases *v,
{
    match v {
        ILitType::Integer(i) => {
            push_str(out, "Integer(");
            push_decimal(out, *i);
            push_str(out, ")");
        },
        ILitType::String(s) => {
            push_str(out, "String(");
            push_debug_quoted(out, s.as_str());
            push_str(out, ")");
        },
        ILitType::Unit => {
            push_str(out, "Unit");
        },
        ILitType::Result(IResultBranch::OkBranch(b)) => {
            push_str(out, "Result(Ok(");
            push_debug(out, b);
            push_str(out, "))");
        },
        ILitType::Result(IResultBranch::ErrBranch(b)) => {
            push_str(out, "Result(Err(");
            push_debug(out, b);
            push_str(out, "))");
        },
        ILitType::Array(a) => {
            push_str(out, "Array(");
            push_array_debug(out, a);
            push_str(out, ")");
        },
        ILitType::Stream(h) => {
            push_str(out, "Stream(");
            match h {
                IStreamHandle::File(f) => {
                    push_str(out, "File(");
                    push_str(out, f.debugged.as_str());
                    push_str(out, ")");
                },
                IStreamHandle::Stdout => {
                    push_str(out, "Stdout");
                },
                IStreamHandle::Stdin => {
                    push_str(out, "Stdin");
                },
                IStreamHandle::Buffer(b) => {
                    push_str(out, "Buffer(");
                    push_byte_list(out, b);
                    push_str(out, ")");
                },
            }
            push_str(out, ")");
        },
        ILitType::File(p) => {
            push_str(out, "File(");
            push_path_debug(out, p.as_str());
            push_str(out, ")");
        },
    }
    proof {
        reveal_strlit("Integer(");
        reveal_strlit(")");
        reveal_strlit("String(");
        reveal_strlit("Unit");
        reveal_strlit("Result(Ok(");
        reveal_strlit("Result(Err(");
        reveal_strlit("))");
        reveal_strlit("Array(");
        reveal_strlit("Stream(");
        reveal_strlit("File(");
        reveal_strlit("Stdout");
        reveal_strlit("Stdin");
        reveal_strlit("Buffer(");
    }
    assert(final(out)@ =~= old(out)@ + debug_rep(v@));
}

/// Append the debug form of a list of values to `out`.
pub fn push_array_debug(out: &mut String, a: &Vec<ILitType>)
    ensures
        final(out)@ == old(out)@ + array_debug(vals_of(*a)),
    decreases *a,
{
    let ghost vals = vals_of(*a);
    push_str(out, "[");
    let ghost start = out@;
    let mut i: usize = 0;
    assert(vals.take(0) =~= Seq::<Val>::empty());
    while i < a.len()
        invariant
            i <= a@.len(),
            vals == vals_of(*a),
            out@ == start + debug_list(vals.take(i as int)),
        decreases a@.len() - i,
    {
        assert(decreases_to!(*a => a@[i as int]));
        if i > 0 {
            push_str(out, ", ");
        }
        push_debug(out, &a[i]);
        proof {
            reveal_strlit(", ");
            let t = vals.take(i + 1);
            assert(t.drop_last() =~= vals.take(i as int));
            assert(t.last() == val_of(a@[i as int]));
        }
        i += 1;
        assert(out@ =~= start + debug_list(vals.take(i as int)));
    }
    assert(vals.take(i as int) =~= vals);
    push_str(out, "]");
    proof {
        reveal_strlit("[");
        reveal_strlit("]");
    }
    assert(out@ =~= old(out)@ + array_debug(vals));
}

/// Append a value, as it is written in a program, to `out`.
pub fn push_literal(out: &mut String, v: &ILitType)
    ensures
        final(out)@ == old(out)@ + literal_rep(v@),
    decreases *v,
{
    match v {
        ILitType::Integer(i) => {
            push_decimal(out, *i);
        },
        ILitType::String(s) => {
            push_debug_quoted(out, s.as_str());
        },
        ILitType::Unit => {
            push_str(out, "()");
        },
        ILitType::Result(IResultBranch::OkBranch(b)) => {
            push_str(out, "ok(");
            push_literal(out, b);
            push_str(out, ")");
        },
        ILitType::Result(IResultBranch::ErrBranch(b)) => {
            push_str(out, "err(");
            push_literal(out, b);
            push_str(out, ")");
        },
        ILitType::Array(a) => {
            push_array_literal(out, a);
        },
        ILitType::Stream(_) => {
            push_debug(out, v);
        },
        ILitType::File(_) => {
            push_debug(out, v);
        },
    }
    proof {
        reveal_strlit("()");
        reveal_strlit("ok(");
        reveal_strlit("err(");
        reveal_strlit(")");
    }
    assert(final(out)@ =~= old(out)@ + literal_rep(v@));
}

/// Append a list of values, as it is written in a program, to `out`.
pub fn push_array_literal(out: &mut String, a: &Vec<ILitType>)
    ensures
        final(out)@ == old(out)@ + array_literal(vals_of(*a)),
    decreases *a,
{
    let ghost vals = vals_of(*a);
    push_str(out, "[");
    let ghost start = out@;
    let mut i: usize = 0;
    assert(vals.take(0) =~= Seq::<Val>::empty());
    while i < a.len()
        invariant
            i <= a@.len(),
            vals == vals_of(*a),
            out@ == start + literal_list(vals.take(i as int)),
        decreases a@.len() - i,
    {
        assert(decreases_to!(*a => a@[i as int]));
        if i > 0 {
            push_str(out, ", ");
        }
        push_literal(out, &a[i]);
        proof {
            reveal_strlit(", ");
            let t = vals.take(i + 1);
            assert(t.drop_last() =~= vals.take(i as int));
            assert(t.last() == val_of(a@[i as int]));
        }
        i += 1;
        assert(out@ =~= start + literal_list(vals.take(i as int)));
    }
    assert(vals.take(i as int) =~= vals);
    push_str(out, "]");
    proof {
        reveal_strlit("[");
        reveal_strlit("]");
    }
    assert(out@ =~= old(out)@ + array_literal(vals));
}

/// Append a list of bytes, in debug form, to `out`.
fn push_byte_list(out: &mut String, b: &Vec<u8>)
    ensures
        final(out)@ == old(out)@ + byte_list(b@),
{
    push_str(out, "[");
    let ghost start = out@;
    let mut i: usize = 0;
    assert(b@.take(0) =~= Seq::<u8>::empty());
    while i < b.len()
        invariant
            i <= b@.len(),
            out@ == start + byte_items(b@.take(i as int)),
        decreases b@.len() - i,
    {
        if i > 0 {
            push_str(out, ", ");
        }
        push_decimal(out, b[i] as usize);
        proof {
            reveal_strlit(", ");
            assert(b@.take(i + 1).drop_last() =~= b@.take(i as int));
        }
        i += 1;
        assert(out@ =~= start + byte_items(b@.take(i as int)));
    }
    assert(b@.take(i as int) =~= b@);
    push_str(out, "]");
    proof {
        reveal_strlit("[");
        reveal_strlit("]");
    }
    assert(out@ =~= old(out)@ + byte_list(b@));
}

impl ILitType {
    /// The text form of the value, as `%s` and `puts` print it.
    pub fn as_string_rep(&self) -> (s: String)
        requires
            printable(self@),
        ensures
            s@ == string_rep(self@),
        decreases *self,
    {
        match self {
            ILitType::Integer(i) => crate::text::to_decimal(*i),
            ILitType::String(s) => s.clone(),
            ILitType::Unit => {
                proof {
                    reveal_strlit("()");
                }
                String::from_str("()")
            },
            ILitType::Result(IResultBranch::OkBranch(b)) => b.as_string_rep(),
            ILitType::Result(IResultBranch::ErrBranch(b)) => b.as_string_rep(),
            ILitType::Array(a) => {
                let mut out = String::new();
                push_array_debug(&mut out, a);
                assert(out@ =~= array_debug(vals_of(*a)));
                out
            },
            ILitType::Stream(IStreamHandle::File(f)) => f.shown.clone(),
            ILitType::Stream(_) => String::new(),
            ILitType::File(p) => p.clone(),
        }
    }
}

} // verus!
