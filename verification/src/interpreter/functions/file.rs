//! Paths, and the lines of a file's text. (Opening, reading and writing files is the host's
//! work.)
use vstd::prelude::*;
use crate::interpreter::functions::arrays::{lemma_split_nonempty, lemma_vals_of_view, slice_vals, split, split_parts, str_array, str_vals};
use crate::interpreter::types::{ILitType, IResultBranch, Val};
use crate::text::{chars_of, string_of_range};

verus! {

/// `file(path)`: the file at a path.
pub fn file(path: &str) -> (r: ILitType)
    ensures
        r@ == Val::File(path@),
{
    ILitType::File(String::from_str(path))
}

/// What std's `PathBuf::pop` does to a path: whether the path had a parent, and the path
/// after (its parent, or the path unchanged).
pub uninterp spec fn path_popped(path: Seq<char>) -> (bool, Seq<char>);

/// std's `PathBuf::pop` on the path `path`.
#[verifier::external_body]
fn path_pop(path: &str) -> (r: (bool, String))
    ensures
        (r.0, r.1@) == path_popped(path@),
{
    let mut p = std::path::PathBuf::from(path);
    let popped = p.pop();
    (popped, p.to_string_lossy().into_owned())
}

/// `fpop(file)`: the parent of a path, or an error when it has none.
pub fn fpop(file: &str) -> (r: ILitType)
    ensures
        r@ == if path_popped(file@).0 {
            Val::Result(true, Box::new(Val::File(path_popped(file@).1)))
        } else {
            Val::Result(false, Box::new(Val::Str("file has no parent"@)))
        },
{
    let (popped, parent) = path_pop(file);
    if popped {
        let ghost pv = parent@;
        let inner = ILitType::File(parent);
        assert(inner@ == Val::File(pv));
        ILitType::Result(IResultBranch::OkBranch(Box::new(inner)))
    } else {
        let inner = ILitType::String(String::from_str("file has no parent"));
        assert(inner@ == Val::Str("file has no parent"@));
        ILitType::Result(IResultBranch::ErrBranch(Box::new(inner)))
    }
}

/// A line without the `\r` of a `\r\n` line ending.
pub open spec fn strip_cr(s: Seq<char>) -> Seq<char> {
    if s.len() > 0 && s.last() == '\r' {
        s.drop_last()
    } else {
        s
    }
}

/// The lines of a text, as std's `str::lines` and `BufRead::lines` give them: the text is cut
/// at each `\n`, a `\r` just before a `\n` goes with it, and a last line that is empty (the
/// text ends with a line ending, or is empty) is no line.
pub open spec fn text_lines(c: Seq<char>) -> Seq<Seq<char>> {
    let parts = split_parts(c, "\n"@);
    let k = if parts.last().len() == 0 { parts.len() - 1 } else { parts.len() as int };
    Seq::new(k as nat, |i: int| if i < parts.len() - 1 { strip_cr(parts[i]) } else { parts[i] })
}

/// The lines after the first `n`; none when there are not more than `n`.
pub open spec fn lines_after(ls: Seq<Seq<char>>, n: usize) -> Seq<Seq<char>> {
    if n <= ls.len() {
        ls.skip(n as int)
    } else {
        Seq::empty()
    }
}

/// What a program gets for the host's answer to a request for the lines of a stream after the
/// first `n`: for the stream's text, `ok` of its lines after the first `n`; an error, or any
/// other answer, as the host gave it.
pub open spec fn lines_answer(v: Val, n: usize) -> Val {
    match v {
        Val::Result(true, b) => match *b {
            Val::Str(c) => Val::Result(true, Box::new(str_array(lines_after(text_lines(c), n)))),
            _ => v,
        },
        _ => v,
    }
}

/// A line without the `\r` of a `\r\n` line ending.
fn strip_cr_of(s: &str) -> (r: String)
    ensures
        r@ == strip_cr(s@),
{
    let cs = chars_of(s);
    let n = cs.len();
    if n > 0 && cs[n - 1] == '\r' {
        assert(cs@.subrange(0, n - 1) =~= s@.drop_last());
        string_of_range(cs.as_slice(), 0, n - 1)
    } else {
        assert(cs@.subrange(0, n as int) =~= s@);
        string_of_range(cs.as_slice(), 0, n)
    }
}

/// The lines of the text `c` after the first `n`.
pub fn read_lines(c: &str, n: usize) -> (r: Vec<ILitType>)
    ensures
        slice_vals(r@) == str_vals(lines_after(text_lines(c@), n)),
{
    let split_all = split(c, "\n");
    let ghost parts = split_parts(c@, "\n"@);
    proof {
        lemma_split_nonempty(c@, "\n"@);
    }
    let ghost lines = text_lines(c@);
    let mut out: Vec<ILitType> = Vec::new();
    match split_all {
        ILitType::Array(ps) => {
            proof {
                lemma_vals_of_view(ps);
            }
            assert(slice_vals(ps@) == str_vals(parts));
            let total = ps.len();
            let last_empty = match &ps[total - 1] {
                ILitType::String(t) => t.unicode_len() == 0,
                _ => false,
            };
            assert(slice_vals(ps@)[total - 1] == ps@[total - 1]@);
            assert(str_vals(parts)[total - 1] == Val::Str(parts[total - 1]));
            assert(ps@[total - 1]@ == Val::Str(parts.last()));
            let k = if last_empty { total - 1 } else { total };
            assert(k == lines.len());
            let start = if n <= k { n } else { k };
            let mut i = start;
            assert(lines_after(lines, n) =~= lines.subrange(start as int, k as int));
            assert(slice_vals(out@) =~= str_vals(lines.subrange(start as int, start as int)));
            while i < k
                invariant
                    start <= i <= k,
                    k == lines.len(),
                    k <= total,
                    total == ps@.len(),
                    total == parts.len(),
                    slice_vals(ps@) == str_vals(parts),
                    lines == text_lines(c@),
                    parts == split_parts(c@, "\n"@),
                    slice_vals(out@) == str_vals(lines.subrange(start as int, i as int)),
                decreases k - i,
            {
                assert(slice_vals(ps@)[i as int] == ps@[i as int]@);
                assert(str_vals(parts)[i as int] == Val::Str(parts[i as int]));
                let line = match &ps[i] {
                    ILitType::String(t) => {
                        if i + 1 < total {
                            strip_cr_of(t.as_str())
                        } else {
                            t.clone()
                        }
                    },
                    _ => String::new(),
                };
                assert(line@ == lines[i as int]);
                let ghost before = slice_vals(out@);
                out.push(ILitType::String(line));
                assert(slice_vals(out@) =~= before.push(Val::Str(lines[i as int])));
                i += 1;
                assert(slice_vals(out@) =~= str_vals(lines.subrange(start as int, i as int)));
            }
        },
        _ => {},
    }
    out
}

/// What a program gets for the host's answer `v` to a request for the lines of a stream after
/// the first `n`.
pub fn lines_answer_of(v: ILitType, n: usize) -> (r: ILitType)
    ensures
        r@ == lines_answer(v@, n),
{
    let ghost vv = v@;
    match v {
        ILitType::Result(IResultBranch::OkBranch(b)) => {
            let inner = *b;
            assert(vv == Val::Result(true, Box::new(inner@)));
            match inner {
                ILitType::String(c) => {
                    let ls = read_lines(c.as_str(), n);
                    proof {
                        lemma_vals_of_view(ls);
                    }
                    let arr = ILitType::Array(ls);
                    assert(arr@ == str_array(lines_after(text_lines(c@), n)));
                    ILitType::Result(IResultBranch::OkBranch(Box::new(arr)))
                },
                other => ILitType::Result(IResultBranch::OkBranch(Box::new(other))),
            }
        },
        other => other,
    }
}

} // verus!
