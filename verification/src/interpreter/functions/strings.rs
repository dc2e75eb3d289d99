//! String functions.
use vstd::prelude::*;
use crate::interpreter::functions::arrays::{lemma_vals_of_view, occurs_at};
use crate::interpreter::types::{ILitType, IResultBranch, Val};
use crate::text::{chars_of, decimal, push_char, push_decimal, push_str, string_of_range};

verus! {

/// Whether a character is white space in Unicode (std's `char::is_whitespace`).
pub open spec fn is_white_space(c: char) -> bool {
    let u = c as u32;
    (0x9 <= u && u <= 0xD) || u == 0x20 || u == 0x85 || u == 0xA0 || u == 0x1680 || (0x2000 <= u
        && u <= 0x200A) || u == 0x2028 || u == 0x2029 || u == 0x202F || u == 0x205F || u == 0x3000
}

/// A text without its leading white space.
pub open spec fn trim_start(s: Seq<char>) -> Seq<char>
    decreases s.len(),
{
    if s.len() > 0 && is_white_space(s[0]) {
        trim_start(s.drop_first())
    } else {
        s
    }
}

/// A text without its trailing white space.
pub open spec fn trim_end(s: Seq<char>) -> Seq<char>
    decreases s.len(),
{
    if s.len() > 0 && is_white_space(s.last()) {
        trim_end(s.drop_last())
    } else {
        s
    }
}

fn white_space(c: char) -> (b: bool)
    ensures
        b == is_white_space(c),
{
    let u = c as u32;
    (0x9 <= u && u <= 0xD) || u == 0x20 || u == 0x85 || u == 0xA0 || u == 0x1680 || (0x2000 <= u
        && u <= 0x200A) || u == 0x2028 || u == 0x2029 || u == 0x202F || u == 0x205F || u == 0x3000
}

/// The first position in `cs[from..to]` that is not white space, or `to`.
fn skip_front(cs: &Vec<char>, from: usize, to: usize) -> (i: usize)
    requires
        from <= to <= cs@.len(),
    ensures
        from <= i <= to,
        trim_start(cs@.subrange(from as int, to as int)) == cs@.subrange(i as int, to as int),
{
    let mut i = from;
    while i < to && white_space(cs[i])
        invariant
            from <= i <= to,
            to <= cs@.len(),
            trim_start(cs@.subrange(from as int, to as int)) == trim_start(cs@.subrange(i as int, to as int)),
        decreases to - i,
    {
        assert(cs@.subrange(i as int, to as int).drop_first() =~= cs@.subrange(i + 1, to as int));
        i += 1;
    }
    if i < to {
        assert(cs@.subrange(i as int, to as int)[0] == cs@[i as int]);
    }
    i
}

/// The last position after which `cs[from..to]` is all white space, or `from`.
fn skip_back(cs: &Vec<char>, from: usize, to: usize) -> (j: usize)
    requires
        from <= to <= cs@.len(),
    ensures
        from <= j <= to,
        trim_end(cs@.subrange(from as int, to as int)) == cs@.subrange(from as int, j as int),
{
    let mut j = to;
    while j > from && white_space(cs[j - 1])
        invariant
            from <= j <= to,
            to <= cs@.len(),
            trim_end(cs@.subrange(from as int, to as int)) == trim_end(cs@.subrange(from as int, j as int)),
        decreases j,
    {
        assert(cs@.subrange(from as int, j as int).drop_last() =~= cs@.subrange(from as int, j - 1));
        j -= 1;
    }
    if j > from {
        assert(cs@.subrange(from as int, j as int).last() == cs@[j - 1]);
    }
    j
}

/// The string without leading and trailing white space.
///
/// `trim("   hello   ")` is `"hello"`.
pub fn trim(str: &str) -> (r: ILitType)
    ensures
        r@ == Val::Str(trim_end(trim_start(str@))),
{
    let cs = chars_of(str);
    let i = skip_front(&cs, 0, cs.len());
    let j = skip_back(&cs, i, cs.len());
    assert(cs@.subrange(0, cs@.len() as int) =~= str@);
    ILitType::String(string_of_range(cs.as_slice(), i, j))
}

/// The string without leading white space.
pub fn trim_left(str: &str) -> (r: ILitType)
    ensures
        r@ == Val::Str(trim_start(str@)),
{
    let cs = chars_of(str);
    let i = skip_front(&cs, 0, cs.len());
    assert(cs@.subrange(0, cs@.len() as int) =~= str@);
    ILitType::String(string_of_range(cs.as_slice(), i, cs.len()))
}

/// The string without trailing white space.
pub fn trim_right(str: &str) -> (r: ILitType)
    ensures
        r@ == Val::Str(trim_end(str@)),
{
    let cs = chars_of(str);
    let j = skip_back(&cs, 0, cs.len());
    assert(cs@.subrange(0, cs@.len() as int) =~= str@);
    ILitType::String(string_of_range(cs.as_slice(), 0, j))
}

/// The text that std's `str::to_uppercase` gives for `s`: every character replaced by its
/// upper-case mapping in Unicode, which may be several characters.
pub uninterp spec fn upper_cased(s: Seq<char>) -> Seq<char>;

/// The text that std's `str::to_lowercase` gives for `s`: every character replaced by its
/// lower-case mapping in Unicode, a capital sigma at the end of a word by the final form.
pub uninterp spec fn lower_cased(s: Seq<char>) -> Seq<char>;

/// std's `str::to_uppercase`.
#[verifier::external_body]
fn std_to_uppercase(s: &str) -> (r: String)
    ensures
        r@ == upper_cased(s@),
{
    s.to_uppercase()
}

/// std's `str::to_lowercase`.
#[verifier::external_body]
fn std_to_lowercase(s: &str) -> (r: String)
    ensures
        r@ == lower_cased(s@),
{
    s.to_lowercase()
}

/// The string in upper case.
///
/// `upper("Hello")` is `"HELLO"`.
pub fn upper(str: &str) -> (r: ILitType)
    ensures
        r@ == Val::Str(upper_cased(str@)),
{
    ILitType::String(std_to_uppercase(str))
}

/// The string in lower case.
///
/// `lower("Hello")` is `"hello"`.
pub fn lower(str: &str) -> (r: ILitType)
    ensures
        r@ == Val::Str(lower_cased(str@)),
{
    ILitType::String(std_to_lowercase(str))
}

/// `s` from position `i` on, with every occurrence of the non-empty `pat`, found from left to
/// right and without overlap, replaced by `to`.
pub open spec fn replace_from(s: Seq<char>, pat: Seq<char>, to: Seq<char>, i: int) -> Seq<char>
    decreases s.len() - i,
{
    if i < 0 || i >= s.len() {
        Seq::empty()
    } else if pat.len() > 0 && i + pat.len() <= s.len() && s.subrange(i, i + pat.len()) == pat {
        to + replace_from(s, pat, to, i + pat.len())
    } else {
        seq![s[i]] + replace_from(s, pat, to, i + 1)
    }
}

/// `to` before every character of `s` and after the last one: what replacing the empty
/// pattern gives.
pub open spec fn interleaved(s: Seq<char>, to: Seq<char>) -> Seq<char>
    decreases s.len(),
{
    if s.len() == 0 {
        to
    } else {
        interleaved(s.drop_last(), to) + seq![s.last()] + to
    }
}

/// `s` with every occurrence of `pat` replaced by `to`, as std's `str::replace` does it: the
/// occurrences are found from left to right and do not overlap; an empty `pat` occurs before
/// every character and at the end.
pub open spec fn replaced(s: Seq<char>, pat: Seq<char>, to: Seq<char>) -> Seq<char> {
    if pat.len() == 0 {
        interleaved(s, to)
    } else {
        replace_from(s, pat, to, 0)
    }
}

/// The string with every occurrence of `from` replaced by `to`.
///
/// `replace("a-b-c", "-", "+")` is `"a+b+c"`; `replace("aaa", "aa", "b")` is `"ba"`.
pub fn replace(str: &str, from: &str, to: &str) -> (r: ILitType)
    ensures
        r@ == Val::Str(replaced(str@, from@, to@)),
{
    let cs = chars_of(str);
    let n = cs.len();
    let mut out = String::new();
    if from.unicode_len() == 0 {
        push_str(&mut out, to);
        let mut i: usize = 0;
        assert(cs@.take(0) =~= Seq::<char>::empty());
        assert(out@ =~= interleaved(cs@.take(0), to@));
        while i < n
            invariant
                n == cs@.len(),
                i <= n,
                out@ == interleaved(cs@.take(i as int), to@),
            decreases n - i,
        {
            push_char(&mut out, cs[i]);
            push_str(&mut out, to);
            assert(cs@.take(i + 1).drop_last() =~= cs@.take(i as int));
            i += 1;
            assert(out@ =~= interleaved(cs@.take(i as int), to@));
        }
        assert(cs@.take(n as int) =~= str@);
        return ILitType::String(out);
    }
    let pat = chars_of(from);
    let mut i: usize = 0;
    assert(out@ + replace_from(cs@, pat@, to@, 0) =~= replace_from(cs@, pat@, to@, 0));
    while i < n
        invariant
            n == cs@.len(),
            i <= n,
            pat@.len() > 0,
            out@ + replace_from(cs@, pat@, to@, i as int) == replace_from(cs@, pat@, to@, 0),
        decreases n - i,
    {
        if pat.len() <= n - i && occurs_at(&cs, &pat, i) {
            let ghost before = out@;
            push_str(&mut out, to);
            assert(before + replace_from(cs@, pat@, to@, i as int) =~= out@ + replace_from(
                cs@,
                pat@,
                to@,
                i + pat@.len(),
            ));
            i += pat.len();
        } else {
            let ghost before = out@;
            push_char(&mut out, cs[i]);
            assert(before + replace_from(cs@, pat@, to@, i as int) =~= out@ + replace_from(
                cs@,
                pat@,
                to@,
                i + 1,
            ));
            i += 1;
        }
    }
    assert(out@ =~= replace_from(cs@, pat@, to@, 0));
    ILitType::String(out)
}

/// The string split in two at a character position: `ok([first, rest])` where the first part
/// holds the first `idx` characters, or an error that names the position when the string is
/// shorter than that.
pub open spec fn split_at_val(s: Seq<char>, idx: usize) -> Val {
    if idx <= s.len() {
        Val::Result(true, Box::new(Val::Array(seq![Val::Str(s.take(idx as int)), Val::Str(s.skip(idx as int))])))
    } else {
        Val::Result(false, Box::new(Val::Str("invalid index `"@ + decimal(idx as nat) + "`"@)))
    }
}

/// The string split in two after its first `idx` characters.
///
/// `split_at("hello", 2)` is `ok(["he", "llo"])`; `split_at("hi", 5)` is
/// ``err("invalid index `5`")``.
pub fn split_at(str: &str, idx: usize) -> (r: ILitType)
    ensures
        r@ == split_at_val(str@, idx),
{
    let cs = chars_of(str);
    if idx <= cs.len() {
        let first = string_of_range(cs.as_slice(), 0, idx);
        let rest = string_of_range(cs.as_slice(), idx, cs.len());
        assert(cs@.subrange(0, idx as int) =~= str@.take(idx as int));
        assert(cs@.subrange(idx as int, cs@.len() as int) =~= str@.skip(idx as int));
        let mut parts: Vec<ILitType> = Vec::new();
        parts.push(ILitType::String(first));
        parts.push(ILitType::String(rest));
        proof {
            lemma_vals_of_view(parts);
        }
        let ghost pv = crate::interpreter::types::vals_of(parts);
        assert(pv =~= seq![Val::Str(str@.take(idx as int)), Val::Str(str@.skip(idx as int))]);
        let arr = ILitType::Array(parts);
        assert(arr@ == Val::Array(pv));
        ILitType::Result(IResultBranch::OkBranch(Box::new(arr)))
    } else {
        let mut s = String::from_str("invalid index `");
        push_decimal(&mut s, idx);
        push_str(&mut s, "`");
        let ghost sv = s@;
        let inner = ILitType::String(s);
        assert(inner@ == Val::Str(sv));
        ILitType::Result(IResultBranch::ErrBranch(Box::new(inner)))
    }
}

} // verus!
