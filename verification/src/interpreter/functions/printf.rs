//! Formatted text: `sprintf` and the pieces that `printf` prints.
use vstd::prelude::*;
use crate::interpreter::types::{
    ILitType, Val, array_literal, printable, push_array_literal, string_rep,
};
use crate::text::{chars_of, decimal, push_char, push_decimal, push_str};

verus! {

/// A piece of formatted text: text, or an integer to be written as a float, which the host
/// writes.
#[derive(Debug)]
pub enum Piece {
    Text(String),
    Float(usize),
}

/// The mathematical form of a [`Piece`].
pub enum PieceView {
    Text(Seq<char>),
    Float(usize),
}

impl View for Piece {
    type V = PieceView;

    open spec fn view(&self) -> PieceView {
        match *self {
            Piece::Text(s) => PieceView::Text(s@),
            Piece::Float(i) => PieceView::Float(i),
        }
    }
}

/// The views of a list of pieces.
pub open spec fn pieces_view(v: Seq<Piece>) -> Seq<PieceView> {
    Seq::new(v.len(), |i: int| v[i]@)
}

/// Pieces after some text: it joins the last piece when that is text.
pub open spec fn emit(out: Seq<PieceView>, t: Seq<char>) -> Seq<PieceView> {
    if out.len() > 0 && out.last() is Text {
        out.drop_last().push(PieceView::Text(out.last()->Text_0 + t))
    } else {
        out.push(PieceView::Text(t))
    }
}

/// The text that the escape `\x` stands for: `\n` and `\t` are a newline and a tab, `\\` is a
/// backslash, and any other escape stands for itself.
pub open spec fn escaped(x: char) -> Seq<char> {
    if x == 'n' {
        seq!['\n']
    } else if x == 't' {
        seq!['\t']
    } else if x == '\\' {
        seq!['\\']
    } else {
        seq!['\\', x]
    }
}

/// What the directive `%d` (for `d` the character `c`) writes for the argument `arg`: `%s`
/// the text form of any value, `%d` and `%u` an integer in decimal, `%f` an integer as a
/// float, `%a` an array as it is written in a program; anything else writes the directive itself.
pub open spec fn directive(out: Seq<PieceView>, c: char, arg: Val) -> Seq<PieceView> {
    if c == 's' {
        emit(out, string_rep(arg))
    } else if (c == 'd' || c == 'u') && arg is Integer {
        emit(out, decimal(arg->Integer_0 as nat))
    } else if c == 'f' && arg is Integer {
        out.push(PieceView::Float(arg->Integer_0))
    } else if c == 'a' && arg is Array {
        emit(out, array_literal(arg->Array_0))
    } else {
        emit(out, seq!['%', c])
    }
}

/// Format `f` from position `i` on, with `cur` the number of the next argument; gives the
/// pieces, and whether every `%s` met a value that has a text form. Arguments past the last
/// one are `()`.
pub open spec fn fmt_scan(f: Seq<char>, i: int, args: Seq<Val>, cur: nat, out: Seq<PieceView>) -> (
    Seq<PieceView>,
    bool,
)
    decreases f.len() - i,
{
    if i >= f.len() || i < 0 {
        (out, true)
    } else if f[i] == '\\' {
        if i + 1 >= f.len() {
            fmt_scan(f, i + 1, args, cur, emit(out, seq!['\\']))
        } else {
            fmt_scan(f, i + 2, args, cur, emit(out, escaped(f[i + 1])))
        }
    } else if f[i] != '%' {
        fmt_scan(f, i + 1, args, cur, emit(out, seq![f[i]]))
    } else if i + 1 >= f.len() {
        (emit(out, seq!['%']), true)
    } else if f[i + 1] == '%' {
        fmt_scan(f, i + 2, args, cur, emit(out, seq!['%']))
    } else {
        let arg = if cur < args.len() {
            args[cur as int]
        } else {
            Val::Unit
        };
        let rest = fmt_scan(f, i + 2, args, cur + 1, directive(out, f[i + 1], arg));
        (rest.0, rest.1 && (f[i + 1] == 's' ==> printable(arg)))
    }
}

/// The pieces of `format` with `args` filled in.
pub open spec fn spec_sprintf(format: Seq<char>, args: Seq<Val>) -> Seq<PieceView> {
    fmt_scan(format, 0, args, 0, Seq::empty()).0
}

/// Whether every `%s` of `format` meets a value that has a text form.
pub open spec fn sprintf_defined(format: Seq<char>, args: Seq<Val>) -> bool {
    fmt_scan(format, 0, args, 0, Seq::empty()).1
}

/// Append text to formatted pieces.
fn push_text(out: &mut Vec<Piece>, t: &str)
    ensures
        pieces_view(final(out)@) == emit(pieces_view(old(out)@), t@),
{
    let n = out.len();
    if n > 0 {
        match out.pop() {
            Some(Piece::Text(mut s)) => {
                push_str(&mut s, t);
                out.push(Piece::Text(s));
                assert(pieces_view(out@) =~= emit(pieces_view(old(out)@), t@));
                return;
            },
            Some(other) => {
                out.push(other);
            },
            None => {},
        }
    }
    assert(out@ == old(out)@);
    out.push(Piece::Text(String::from_str(t)));
    assert(pieces_view(out@) =~= emit(pieces_view(old(out)@), t@));
}

/// Append a string to formatted pieces.
fn push_text_string(out: &mut Vec<Piece>, t: String)
    ensures
        pieces_view(final(out)@) == emit(pieces_view(old(out)@), t@),
{
    push_text(out, t.as_str());
}

/// `format` with `args` filled in: `\n`, `\t` and `\\` are escapes, `%%` is a percent sign,
/// and every other `%` directive takes the next argument (see [`directive`]).
pub fn sprintf(format: &str, args: &[ILitType]) -> (r: Vec<Piece>)
    requires
        sprintf_defined(format@, Seq::new(args@.len(), |i: int| args@[i]@)),
    ensures
        pieces_view(r@) == spec_sprintf(format@, Seq::new(args@.len(), |i: int| args@[i]@)),
{
    let ghost vals = Seq::new(args@.len(), |i: int| args@[i]@);
    let f = chars_of(format);
    let mut out: Vec<Piece> = Vec::new();
    let mut cur: usize = 0;
    let mut i: usize = 0;
    let ghost target = fmt_scan(f@, 0, vals, 0, Seq::empty()).0;
    assert(pieces_view(out@) =~= Seq::<PieceView>::empty());
    while i < f.len()
        invariant
            f@ == format@,
            i <= f@.len(),
            cur <= i,
            fmt_scan(f@, i as int, vals, cur as nat, pieces_view(out@)) == (target, true),
            vals == Seq::new(args@.len(), |i: int| args@[i]@),
        decreases f@.len() - i,
    {
        let c = f[i];
        if c == '\\' {
            if i + 1 >= f.len() {
                push_text(&mut out, "\\");
                proof {
                    reveal_strlit("\\");
                    assert("\\"@ =~= seq!['\\']);
                }
                i += 1;
            } else {
                let x = f[i + 1];
                if x == 'n' {
                    push_text(&mut out, "\n");
                    proof {
                        reveal_strlit("\n");
                        assert("\n"@ =~= seq!['\n']);
                    }
                } else if x == 't' {
                    push_text(&mut out, "\t");
                    proof {
                        reveal_strlit("\t");
                        assert("\t"@ =~= seq!['\t']);
                    }
                } else if x == '\\' {
                    push_text(&mut out, "\\");
                    proof {
                        reveal_strlit("\\");
                        assert("\\"@ =~= seq!['\\']);
                    }
                } else {
                    let mut s = String::new();
                    push_char(&mut s, '\\');
                    push_char(&mut s, x);
                    assert(s@ =~= seq!['\\', x]);
                    push_text_string(&mut out, s);
                }
                i += 2;
            }
        } else if c != '%' {
            let mut s = String::new();
            push_char(&mut s, c);
            assert(s@ =~= seq![c]);
            push_text_string(&mut out, s);
            i += 1;
        } else if i + 1 >= f.len() {
            push_text(&mut out, "%");
            proof {
                reveal_strlit("%");
                assert("%"@ =~= seq!['%']);
            }
            i = f.len();
        } else if f[i + 1] == '%' {
            push_text(&mut out, "%");
            proof {
                reveal_strlit("%");
                assert("%"@ =~= seq!['%']);
            }
            i += 2;
        } else {
            let d = f[i + 1];
            let unit = ILitType::Unit;
            let arg: &ILitType = if cur < args.len() { &args[cur] } else { &unit };
            let ghost before = pieces_view(out@);
            if d == 's' {
                let t = arg.as_string_rep();
                push_text_string(&mut out, t);
            } else if d == 'd' || d == 'u' {
                match arg {
                    ILitType::Integer(n) => {
                        let mut s = String::new();
                        push_decimal(&mut s, *n);
                        assert(s@ =~= decimal(*n as nat));
                        push_text_string(&mut out, s);
                    },
                    _ => {
                        let mut s = String::new();
                        push_char(&mut s, '%');
                        push_char(&mut s, d);
                        assert(s@ =~= seq!['%', d]);
                        push_text_string(&mut out, s);
                    },
                }
            } else if d == 'f' {
                match arg {
                    ILitType::Integer(n) => {
                        out.push(Piece::Float(*n));
                        assert(pieces_view(out@) =~= before.push(PieceView::Float(*n)));
                    },
                    _ => {
                        let mut s = String::new();
                        push_char(&mut s, '%');
                        push_char(&mut s, d);
                        assert(s@ =~= seq!['%', d]);
                        push_text_string(&mut out, s);
                    },
                }
            } else if d == 'a' {
                match arg {
                    ILitType::Array(a) => {
                        let mut s = String::new();
                        push_array_literal(&mut s, a);
                        assert(s@ =~= array_literal(crate::interpreter::types::vals_of(*a)));
                        push_text_string(&mut out, s);
                    },
                    _ => {
                        let mut s = String::new();
                        push_char(&mut s, '%');
                        push_char(&mut s, d);
                        assert(s@ =~= seq!['%', d]);
                        push_text_string(&mut out, s);
                    },
                }
            } else {
                let mut s = String::new();
                push_char(&mut s, '%');
                push_char(&mut s, d);
                assert(s@ =~= seq!['%', d]);
                push_text_string(&mut out, s);
            }
            let ghost arg_v = if cur < args.len() { args@[cur as int]@ } else { Val::Unit };
            assert(arg@ == arg_v);
            assert(pieces_view(out@) == directive(before, d, arg_v));
            cur += 1;
            i += 2;
        }
    }
    out
}

/// Whether every value has a text form.
pub open spec fn all_printable(args: Seq<Val>) -> bool {
    forall|i: int| 0 <= i < args.len() ==> printable(#[trigger] args[i])
}

/// When every argument has a text form, every `%s` meets one.
pub proof fn lemma_printable_args_defined(f: Seq<char>, i: int, args: Seq<Val>, cur: nat, out: Seq<PieceView>)
    requires
        all_printable(args),
    ensures
        fmt_scan(f, i, args, cur, out).1,
    decreases f.len() - i,
{
    if i >= f.len() || i < 0 {
    } else if f[i] == '\\' {
        if i + 1 >= f.len() {
            lemma_printable_args_defined(f, i + 1, args, cur, emit(out, seq!['\\']));
        } else {
            lemma_printable_args_defined(f, i + 2, args, cur, emit(out, escaped(f[i + 1])));
        }
    } else if f[i] != '%' {
        lemma_printable_args_defined(f, i + 1, args, cur, emit(out, seq![f[i]]));
    } else if i + 1 >= f.len() {
    } else if f[i + 1] == '%' {
        lemma_printable_args_defined(f, i + 2, args, cur, emit(out, seq!['%']));
    } else {
        let arg = if cur < args.len() { args[cur as int] } else { Val::Unit };
        lemma_printable_args_defined(f, i + 2, args, cur + 1, directive(out, f[i + 1], arg));
    }
}

/// Whether a value has a text form.
pub fn is_printable(v: &ILitType) -> (b: bool)
    ensures
        b == printable(v@),
    decreases *v,
{
    match v {
        ILitType::Result(crate::interpreter::types::IResultBranch::OkBranch(x)) => is_printable(x),
        ILitType::Result(crate::interpreter::types::IResultBranch::ErrBranch(x)) => is_printable(x),
        ILitType::Stream(crate::interpreter::types::IStreamHandle::File(_)) => true,
        ILitType::Stream(_) => false,
        _ => true,
    }
}

/// Whether every value of a list has a text form.
pub fn all_are_printable(args: &[ILitType]) -> (b: bool)
    ensures
        b == all_printable(Seq::new(args@.len(), |i: int| args@[i]@)),
{
    let ghost vals = Seq::new(args@.len(), |i: int| args@[i]@);
    let mut i: usize = 0;
    while i < args.len()
        invariant
            i <= args@.len(),
            vals == Seq::new(args@.len(), |i: int| args@[i]@),
            forall|k: int| 0 <= k < i ==> printable(#[trigger] vals[k]),
        decreases args@.len() - i,
    {
        if !is_printable(&args[i]) {
            assert(!printable(vals[i as int]));
            return false;
        }
        i += 1;
    }
    true
}

/// Whether a format text is plain: it holds no directive and no escape.
pub open spec fn plain(t: Seq<char>) -> bool {
    forall|k: int| 0 <= k < t.len() ==> #[trigger] t[k] != '%' && t[k] != '\\'
}

/// Plain text is copied as it is, joining the text piece before it.
proof fn lemma_scan_plain(f: Seq<char>, i: int, j: int, args: Seq<Val>, cur: nat, out: Seq<PieceView>)
    requires
        0 <= i <= j <= f.len(),
        forall|k: int| i <= k < j ==> #[trigger] f[k] != '%' && f[k] != '\\',
        out.len() > 0,
        out.last() is Text,
    ensures
        fmt_scan(f, i, args, cur, out) == fmt_scan(f, j, args, cur, emit(out, f.subrange(i, j))),
    decreases j - i,
{
    let x = out.last()->Text_0;
    if i == j {
        assert(x + f.subrange(i, i) =~= x);
        assert(emit(out, f.subrange(i, j)) =~= out);
    } else {
        let out1 = emit(out, seq![f[i]]);
        lemma_scan_plain(f, i + 1, j, args, cur, out1);
        assert(x + seq![f[i]] + f.subrange(i + 1, j) =~= x + f.subrange(i, j));
        assert(emit(out1, f.subrange(i + 1, j)) =~= emit(out, f.subrange(i, j)));
    }
}

/// `%d` and `%u` write an integer in decimal: in a format made of plain text, one of these
/// directives and plain text again, the integer argument `n` is written as its decimal numeral
/// between the two texts.
pub proof fn lemma_integer_directives(pre: Seq<char>, c: char, post: Seq<char>, n: usize)
    requires
        c == 'd' || c == 'u',
        plain(pre),
        plain(post),
    ensures
        spec_sprintf(pre + seq!['%', c] + post, seq![Val::Integer(n)]) == seq![
            PieceView::Text(pre + decimal(n as nat) + post),
        ],
{
    let f = pre + seq!['%', c] + post;
    let args = seq![Val::Integer(n)];
    let p = pre.len() as int;
    assert forall|k: int| 0 <= k < p implies #[trigger] f[k] != '%' && f[k] != '\\' by {
        assert(f[k] == pre[k]);
    }
    assert forall|k: int| p + 2 <= k < f.len() implies #[trigger] f[k] != '%' && f[k] != '\\' by {
        assert(f[k] == post[k - p - 2]);
    }
    assert(f[p] == '%');
    assert(f[p + 1] == c);
    assert(f.subrange(0, p) =~= pre);
    assert(f.subrange(p + 2, f.len() as int) =~= post);
    let at_dir = if p == 0 {
        Seq::<PieceView>::empty()
    } else {
        seq![PieceView::Text(pre)]
    };
    if p > 0 {
        let out0 = emit(Seq::empty(), seq![f[0]]);
        assert(out0 =~= seq![PieceView::Text(seq![f[0]])]);
        lemma_scan_plain(f, 1, p, args, 0, out0);
        assert(seq![f[0]] + f.subrange(1, p) =~= pre);
        assert(emit(out0, f.subrange(1, p)) =~= at_dir);
        assert(fmt_scan(f, 0, args, 0, Seq::empty()) == fmt_scan(f, p, args, 0, at_dir));
    }
    let after = directive(at_dir, c, Val::Integer(n));
    if p == 0 {
        assert(after =~= seq![PieceView::Text(decimal(n as nat))]);
    } else {
        assert(after =~= seq![PieceView::Text(pre + decimal(n as nat))]);
    }
    assert(fmt_scan(f, p, args, 0, at_dir).0 == fmt_scan(f, p + 2, args, 1, after).0);
    lemma_scan_plain(f, p + 2, f.len() as int, args, 1, after);
    assert(pre + decimal(n as nat) + post =~= after.last()->Text_0 + post);
    assert(emit(after, post) =~= seq![PieceView::Text(pre + decimal(n as nat) + post)]);
}

} // verus!
