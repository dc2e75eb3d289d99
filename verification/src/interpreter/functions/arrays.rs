//! Array functions.
use vstd::prelude::*;
use crate::interpreter::types::{ILitType, IResultBranch, Val, clone_vals, vals_of};
use crate::text::{chars_of, decimal, push_char, push_decimal, push_str, string_of_range};

verus! {

/// The mathematical forms of the values of a slice.
pub open spec fn slice_vals(a: Seq<ILitType>) -> Seq<Val> {
    Seq::new(a.len(), |i: int| a[i]@)
}

/// The mathematical form of an array of strings.
pub open spec fn str_array(parts: Seq<Seq<char>>) -> Val {
    Val::Array(str_vals(parts))
}

/// The mathematical forms of strings.
pub open spec fn str_vals(parts: Seq<Seq<char>>) -> Seq<Val> {
    Seq::new(parts.len(), |i: int| Val::Str(parts[i]))
}

/// The values of a vector, as a list.
pub proof fn lemma_vals_of_view(v: Vec<ILitType>)
    ensures
        vals_of(v) == slice_vals(v@),
{
    assert(vals_of(v) =~= slice_vals(v@));
}

/// The element of `arr` at index `nth`, or an error that names the index.
///
/// `nth([1, 2, 3], 1)` is `ok(2)`; `nth([1], 5)` is ``err("invalid index `5`")``.
pub fn nth(arr: &Vec<ILitType>, index: usize) -> (r: ILitType)
    ensures
        r@ == if index < arr@.len() {
            Val::Result(true, Box::new(arr@[index as int]@))
        } else {
            Val::Result(false, Box::new(Val::Str("invalid index `"@ + decimal(index as nat) + "`"@)))
        },
{
    if index < arr.len() {
        ILitType::Result(IResultBranch::OkBranch(Box::new(arr[index].clone())))
    } else {
        let mut s = String::from_str("invalid index `");
        push_decimal(&mut s, index);
        push_str(&mut s, "`");
        let ghost sv = s@;
        let inner = ILitType::String(s);
        assert(inner@ == Val::Str(sv));
        ILitType::Result(IResultBranch::ErrBranch(Box::new(inner)))
    }
}

/// The position of the first occurrence of `pat` in `s` at or after position `from`.
pub open spec fn find_from(s: Seq<char>, pat: Seq<char>, from: int) -> Option<int>
    decreases s.len() + 1 - from,
{
    if from < 0 || from + pat.len() > s.len() {
        None
    } else if s.subrange(from, from + pat.len()) == pat {
        Some(from)
    } else {
        find_from(s, pat, from + 1)
    }
}

/// The parts of `s` between the occurrences of `sep`, as std's `str::split` gives them: the
/// occurrences are found left to right without overlap. An empty separator occurs at every
/// position, so the parts are an empty string, each character, and an empty string.
pub open spec fn split_parts(s: Seq<char>, sep: Seq<char>) -> Seq<Seq<char>>
    decreases s.len(),
{
    if sep.len() == 0 {
        seq![Seq::<char>::empty()] + Seq::new(s.len(), |i: int| seq![s[i]]) + seq![
            Seq::<char>::empty(),
        ]
    } else {
        match find_from(s, sep, 0) {
            None => seq![s],
            Some(k) => if k + sep.len() <= s.len() && 0 <= k {
                seq![s.take(k)] + split_parts(s.skip(k + sep.len()), sep)
            } else {
                seq![s]
            },
        }
    }
}

proof fn lemma_find_bounds(s: Seq<char>, pat: Seq<char>, from: int)
    ensures
        find_from(s, pat, from) matches Some(k) ==> from <= k && k + pat.len() <= s.len()
            && s.subrange(k, k + pat.len()) == pat,
    decreases s.len() + 1 - from,
{
    if from < 0 || from + pat.len() > s.len() {
    } else if s.subrange(from, from + pat.len()) == pat {
    } else {
        lemma_find_bounds(s, pat, from + 1);
    }
}

/// Whether `pat` occurs in `s` at position `at`.
pub(crate) fn occurs_at(s: &Vec<char>, pat: &Vec<char>, at: usize) -> (b: bool)
    requires
        at + pat@.len() <= s@.len(),
    ensures
        b == (s@.subrange(at as int, at + pat@.len()) == pat@),
{
    let n = s.len();
    let mut j: usize = 0;
    while j < pat.len()
        invariant
            n == s@.len(),
            at + pat@.len() <= s@.len(),
            j <= pat@.len(),
            forall|k: int| 0 <= k < j ==> s@[at + k] == pat@[k],
        decreases pat@.len() - j,
    {
        assert(at + j < s@.len());
        let idx: usize = at + j;
        if s[idx] != pat[j] {
            assert(s@.subrange(at as int, at + pat@.len())[j as int] != pat@[j as int]);
            return false;
        }
        j += 1;
    }
    assert(s@.subrange(at as int, at + pat@.len()) =~= pat@);
    true
}

/// The first occurrence of `pat` in `s` at or after `from`.
fn find(s: &Vec<char>, pat: &Vec<char>, from: usize) -> (r: Option<usize>)
    requires
        pat@.len() > 0,
    ensures
        match r {
            Some(k) => find_from(s@, pat@, from as int) == Some(k as int),
            None => find_from(s@, pat@, from as int) is None,
        },
{
    let mut k = from;
    while k <= s.len() && pat.len() <= s.len() - k
        invariant
            pat@.len() > 0,
            from <= k,
            find_from(s@, pat@, from as int) == find_from(s@, pat@, k as int),
        decreases s@.len() + 1 - k,
    {
        if occurs_at(s, pat, k) {
            return Some(k);
        }
        k += 1;
    }
    None
}

/// The parts of `string` between the occurrences of `sep`.
///
/// `split("a,b,,c", ",")` is `["a", "b", "", "c"]`.
pub fn split(string: &str, sep: &str) -> (r: ILitType)
    ensures
        r@ == str_array(split_parts(string@, sep@)),
{
    let s = chars_of(string);
    let p = chars_of(sep);
    let mut parts: Vec<ILitType> = Vec::new();
    let ghost target = split_parts(string@, sep@);
    if p.len() == 0 {
        parts.push(ILitType::String(String::new()));
        let mut i: usize = 0;
        while i < s.len()
            invariant
                i <= s@.len(),
                s@ == string@,
                parts@.len() == i + 1,
                slice_vals(parts@) == seq![Val::Str(Seq::empty())] + Seq::new(
                    i as nat,
                    |k: int| Val::Str(seq![s@[k]]),
                ),
            decreases s@.len() - i,
        {
            let mut one = String::new();
            push_char(&mut one, s[i]);
            let ghost before = slice_vals(parts@);
            parts.push(ILitType::String(one));
            assert(slice_vals(parts@) =~= before.push(Val::Str(seq![s@[i as int]])));
            i += 1;
            assert(slice_vals(parts@) =~= seq![Val::Str(Seq::empty())] + Seq::new(
                i as nat,
                |k: int| Val::Str(seq![s@[k]]),
            ));
        }
        let ghost middle = slice_vals(parts@);
        parts.push(ILitType::String(String::new()));
        proof {
            assert(slice_vals(parts@) =~= middle.push(Val::Str(Seq::empty())));
            assert(s@.len() == i);
            assert(target =~= seq![Seq::<char>::empty()] + Seq::new(s@.len(), |k: int| seq![s@[k]])
                + seq![Seq::<char>::empty()]);
            lemma_vals_of_view(parts);
            assert(vals_of(parts) =~= str_vals(target));
        }
        return ILitType::Array(parts);
    }
    let mut start: usize = 0;
    assert(s@.skip(0) =~= s@);
    while start <= s.len()
        invariant
            target == split_parts(string@, sep@),
            s@ == string@,
            p@ == sep@,
            p@.len() > 0,
            start <= s@.len(),
            slice_vals(parts@) + str_vals(split_parts(s@.skip(start as int), p@)) == str_vals(target),
        decreases s@.len() - start,
    {
        let ghost rest = s@.skip(start as int);
        match find(&s, &p, start) {
            Some(k) => {
                proof {
                    lemma_find_bounds(s@, p@, start as int);
                    lemma_shift_find(s@, p@, start as int);
                }
                let piece = string_of_range(s.as_slice(), start, k);
                proof {
                    assert(rest.take(k - start) =~= s@.subrange(start as int, k as int));
                    assert(rest.skip(k - start + p@.len()) =~= s@.skip(k + p@.len()));
                }
                let ghost before = slice_vals(parts@);
                parts.push(ILitType::String(piece));
                proof {
                    assert(slice_vals(parts@) =~= before.push(Val::Str(rest.take(k - start))));
                    let sp_rest = split_parts(rest, p@);
                    let sp_next = split_parts(s@.skip(k + p@.len()), p@);
                    assert(sp_rest =~= seq![rest.take(k - start)] + sp_next);
                    assert(slice_vals(parts@) + str_vals(sp_next) =~= before + str_vals(sp_rest));
                }
                start = k + p.len();
            },
            None => {
                proof {
                    lemma_shift_find(s@, p@, start as int);
                }
                let piece = string_of_range(s.as_slice(), start, s.len());
                let ghost before = slice_vals(parts@);
                parts.push(ILitType::String(piece));
                proof {
                    assert(s@.subrange(start as int, s@.len() as int) =~= rest);
                    assert(split_parts(rest, p@) =~= seq![rest]);
                    assert(slice_vals(parts@) =~= str_vals(target));
                    lemma_vals_of_view(parts);
                    assert(vals_of(parts) == slice_vals(parts@));
                    assert(target == split_parts(string@, sep@));
                }
                let r = ILitType::Array(parts);
                assert(r@ == Val::Array(vals_of(parts)));
                return r;
            },
        }
    }
    proof {
        lemma_vals_of_view(parts);
    }
    ILitType::Array(parts)
}

/// Searching a suffix from its start finds what searching the whole from the suffix's start
/// finds, shifted.
proof fn lemma_shift_find(s: Seq<char>, pat: Seq<char>, start: int)
    requires
        0 <= start <= s.len(),
    ensures
        find_from(s.skip(start), pat, 0) == match find_from(s, pat, start) {
            Some(k) => Some(k - start),
            None => None::<int>,
        },
{
    lemma_shift_find_from(s, pat, start, 0);
}

proof fn lemma_shift_find_from(s: Seq<char>, pat: Seq<char>, start: int, j: int)
    requires
        0 <= start <= s.len(),
        0 <= j,
    ensures
        find_from(s.skip(start), pat, j) == match find_from(s, pat, start + j) {
            Some(k) => Some(k - start),
            None => None::<int>,
        },
    decreases s.len() + 1 - start - j,
{
    let t = s.skip(start);
    if j + pat.len() > t.len() {
    } else {
        assert(t.subrange(j, j + pat.len()) =~= s.subrange(start + j, start + j + pat.len()));
        if t.subrange(j, j + pat.len()) == pat {
        } else {
            lemma_shift_find_from(s, pat, start, j + 1);
        }
    }
}

/// Each character of `string`, as a string of its own.
///
/// `chars("hey")` is `["h", "e", "y"]`.
pub fn chars(string: &str) -> (r: ILitType)
    ensures
        r@ == str_array(Seq::new(string@.len(), |i: int| seq![string@[i]])),
{
    let s = chars_of(string);
    let mut parts: Vec<ILitType> = Vec::new();
    let mut i: usize = 0;
    while i < s.len()
        invariant
            s@ == string@,
            i <= s@.len(),
            slice_vals(parts@) == str_vals(Seq::new(i as nat, |k: int| seq![s@[k]])),
        decreases s@.len() - i,
    {
        let mut one = String::new();
        push_char(&mut one, s[i]);
        assert(one@ =~= seq![s@[i as int]]);
        let ghost before = slice_vals(parts@);
        parts.push(ILitType::String(one));
        assert(slice_vals(parts@) =~= before.push(Val::Str(seq![s@[i as int]])));
        i += 1;
        assert(slice_vals(parts@) =~= str_vals(Seq::new(i as nat, |k: int| seq![s@[k]])));
    }
    proof {
        lemma_vals_of_view(parts);
        assert(Seq::new(i as nat, |k: int| seq![s@[k]]) =~= Seq::new(string@.len(), |k: int| seq![string@[k]]));
    }
    ILitType::Array(parts)
}

/// The number of bytes that UTF-8 takes for a character.
pub open spec fn utf8_width(c: char) -> nat {
    if (c as u32) < 0x80 {
        1
    } else if (c as u32) < 0x800 {
        2
    } else if (c as u32) < 0x10000 {
        3
    } else {
        4
    }
}

/// The number of bytes that UTF-8 takes for a text.
pub open spec fn utf8_len(s: Seq<char>) -> nat
    decreases s.len(),
{
    if s.len() == 0 {
        0
    } else {
        utf8_len(s.drop_last()) + utf8_width(s.last())
    }
}

proof fn lemma_utf8_len_bound(s: Seq<char>)
    ensures
        utf8_len(s) <= 4 * s.len(),
    decreases s.len(),
{
    if s.len() > 0 {
        lemma_utf8_len_bound(s.drop_last());
    }
}

/// The number of bytes of the UTF-8 form of `s`.
pub fn byte_len(s: &str) -> (n: usize)
    requires
        utf8_len(s@) <= usize::MAX,
    ensures
        n == utf8_len(s@),
{
    let cs = chars_of(s);
    let mut n: usize = 0;
    let mut i: usize = 0;
    assert(cs@.take(0) =~= Seq::<char>::empty());
    while i < cs.len()
        invariant
            cs@ == s@,
            i <= cs@.len(),
            n == utf8_len(cs@.take(i as int)),
            utf8_len(s@) <= usize::MAX,
        decreases cs@.len() - i,
    {
        let c = cs[i];
        let w: usize = if (c as u32) < 0x80 {
            1
        } else if (c as u32) < 0x800 {
            2
        } else if (c as u32) < 0x10000 {
            3
        } else {
            4
        };
        proof {
            assert(cs@.take(i + 1).drop_last() =~= cs@.take(i as int));
            lemma_utf8_len_prefix(s@, i + 1);
        }
        n = n + w;
        i += 1;
    }
    assert(cs@.take(i as int) =~= s@);
    n
}

pub proof fn lemma_utf8_len_prefix(s: Seq<char>, k: int)
    requires
        0 <= k <= s.len(),
    ensures
        utf8_len(s.take(k)) <= utf8_len(s),
    decreases s.len() - k,
{
    if k < s.len() {
        lemma_utf8_len_prefix(s, k + 1);
        assert(s.take(k + 1).drop_last() =~= s.take(k));
    } else {
        assert(s.take(k) =~= s);
    }
}

/// The length that `len` gives for a value: the number of elements of an array, the integer
/// itself, the number of bytes of a string or of a path, 0 for unit and 1 for a result. (The
/// length of a stream is the size of its file, which the host reads.)
pub open spec fn spec_len(v: Val) -> nat {
    match v {
        Val::Array(a) => a.len(),
        Val::Integer(i) => i as nat,
        Val::Str(s) => utf8_len(s),
        Val::Unit => 0,
        Val::Result(_, _) => 1,
        Val::Stream(_) => 0,
        Val::File(p) => utf8_len(p),
    }
}

/// The length of a value that is not a stream.
pub fn len(v: &ILitType) -> (r: ILitType)
    requires
        !(v@ is Stream),
        spec_len(v@) <= usize::MAX,
    ensures
        r@ == Val::Integer(spec_len(v@) as usize),
{
    let n: usize = match v {
        ILitType::Array(a) => {
            proof {
                lemma_vals_of_view(*a);
            }
            a.len()
        },
        ILitType::Integer(i) => *i,
        ILitType::String(s) => byte_len(s.as_str()),
        ILitType::Unit => 0,
        ILitType::Result(_) => 1,
        ILitType::Stream(_) => 0,
        ILitType::File(p) => byte_len(p.as_str()),
    };
    ILitType::Integer(n)
}

/// Each element with its index: `[[0, a], [1, b], ...]`.
pub fn enumerate(arr: &Vec<ILitType>) -> (r: ILitType)
    ensures
        r@ == Val::Array(
            Seq::new(
                arr@.len(),
                |i: int| Val::Array(seq![Val::Integer(i as usize), arr@[i]@]),
            ),
        ),
{
    let mut out: Vec<ILitType> = Vec::new();
    let mut i: usize = 0;
    while i < arr.len()
        invariant
            i <= arr@.len(),
            slice_vals(out@) == Seq::new(
                i as nat,
                |k: int| Val::Array(seq![Val::Integer(k as usize), arr@[k]@]),
            ),
        decreases arr@.len() - i,
    {
        let mut pair: Vec<ILitType> = Vec::new();
        pair.push(ILitType::Integer(i));
        pair.push(arr[i].clone());
        let ghost pv = Val::Array(seq![Val::Integer(i), arr@[i as int]@]);
        proof {
            lemma_vals_of_view(pair);
            assert(vals_of(pair) =~= seq![Val::Integer(i), arr@[i as int]@]);
        }
        let ghost before = slice_vals(out@);
        out.push(ILitType::Array(pair));
        assert(slice_vals(out@) =~= before.push(pv));
        i += 1;
        assert(slice_vals(out@) =~= Seq::new(
            i as nat,
            |k: int| Val::Array(seq![Val::Integer(k as usize), arr@[k]@]),
        ));
    }
    proof {
        lemma_vals_of_view(out);
    }
    ILitType::Array(out)
}

/// The last element of `lst`, or `()` when `lst` is empty.
pub fn last(lst: &[ILitType]) -> (r: ILitType)
    ensures
        r@ == if lst@.len() == 0 { Val::Unit } else { lst@.last()@ },
{
    if lst.len() == 0 {
        ILitType::Unit
    } else {
        lst[lst.len() - 1].clone()
    }
}

/// A copy of the values `a[from..to]`.
fn copy_range(a: &Vec<ILitType>, from: usize, to: usize) -> (r: Vec<ILitType>)
    requires
        from <= to <= a@.len(),
    ensures
        slice_vals(r@) == slice_vals(a@).subrange(from as int, to as int),
{
    let mut r: Vec<ILitType> = Vec::new();
    let mut i = from;
    while i < to
        invariant
            from <= i <= to,
            to <= a@.len(),
            slice_vals(r@) == slice_vals(a@).subrange(from as int, i as int),
        decreases to - i,
    {
        let ghost before = slice_vals(r@);
        r.push(a[i].clone());
        assert(slice_vals(r@) =~= before.push(a@[i as int]@));
        i += 1;
        assert(slice_vals(r@) =~= slice_vals(a@).subrange(from as int, i as int));
    }
    r
}

/// The first `up_to` elements (all of them when there are fewer).
pub fn only(arr: &Vec<ILitType>, up_to: usize) -> (r: ILitType)
    ensures
        r@ == Val::Array(slice_vals(arr@).take(if up_to < arr@.len() { up_to as int } else { arr@.len() as int })),
{
    let n = if up_to < arr.len() { up_to } else { arr.len() };
    let v = copy_range(arr, 0, n);
    proof {
        lemma_vals_of_view(v);
        assert(slice_vals(arr@).subrange(0, n as int) =~= slice_vals(arr@).take(n as int));
    }
    ILitType::Array(v)
}

/// The elements in reverse order.
pub fn rev(arr: &Vec<ILitType>) -> (r: ILitType)
    ensures
        r@ == Val::Array(slice_vals(arr@).reverse()),
{
    let mut out: Vec<ILitType> = Vec::new();
    let mut i = arr.len();
    while i > 0
        invariant
            i <= arr@.len(),
            slice_vals(out@) == slice_vals(arr@).subrange(i as int, arr@.len() as int).reverse(),
        decreases i,
    {
        i -= 1;
        let ghost before = slice_vals(out@);
        out.push(arr[i].clone());
        assert(slice_vals(out@) =~= before.push(arr@[i as int]@));
        assert(slice_vals(out@) =~= slice_vals(arr@).subrange(i as int, arr@.len() as int).reverse());
    }
    proof {
        lemma_vals_of_view(out);
        assert(slice_vals(arr@).subrange(0, arr@.len() as int) =~= slice_vals(arr@));
    }
    ILitType::Array(out)
}

/// The lines after the first `n`; an error when none are left.
///
/// `skip(["a", "b", "c"], 1)` is `ok(["b", "c"])`; `skip(["a"], 3)` is `err("empty array")`.
pub fn skip(lines: &Vec<ILitType>, n: usize) -> (r: ILitType)
    ensures
        r@ == if n >= lines@.len() {
            Val::Result(false, Box::new(Val::Str("empty array"@)))
        } else {
            Val::Result(true, Box::new(Val::Array(slice_vals(lines@).skip(n as int))))
        },
{
    let start = if n < lines.len() { n } else { lines.len() };
    if start == lines.len() {
        let inner = ILitType::String(String::from_str("empty array"));
        assert(inner@ == Val::Str("empty array"@));
        ILitType::Result(IResultBranch::ErrBranch(Box::new(inner)))
    } else {
        let v = copy_range(lines, start, lines.len());
        proof {
            lemma_vals_of_view(v);
            assert(slice_vals(lines@).subrange(start as int, lines@.len() as int) =~= slice_vals(lines@).skip(n as int));
        }
        let inner = ILitType::Array(v);
        assert(inner@ == Val::Array(slice_vals(lines@).skip(n as int)));
        ILitType::Result(IResultBranch::OkBranch(Box::new(inner)))
    }
}

/// The integers from `bot` up to and including `top`.
///
/// `range(2, 5)` is `[2, 3, 4, 5]`; `range(3, 3)` is `[3]`; `range(5, 2)` is `[]`.
pub fn range(bot: usize, top: usize) -> (r: ILitType)
    ensures
        r@ == Val::Array(
            Seq::new(
                if bot <= top { (top - bot + 1) as nat } else { 0 },
                |i: int| Val::Integer((bot + i) as usize),
            ),
        ),
{
    let mut out: Vec<ILitType> = Vec::new();
    if bot <= top {
        let mut i = bot;
        loop
            invariant_except_break
                slice_vals(out@) == Seq::new((i - bot) as nat, |k: int| Val::Integer((bot + k) as usize)),
            invariant
                bot <= i <= top,
            ensures
                slice_vals(out@) == Seq::new((top - bot + 1) as nat, |k: int| Val::Integer((bot + k) as usize)),
            decreases top - i,
        {
            let ghost before = slice_vals(out@);
            out.push(ILitType::Integer(i));
            assert(slice_vals(out@) =~= before.push(Val::Integer(i)));
            assert(slice_vals(out@) =~= Seq::new((i + 1 - bot) as nat, |k: int| Val::Integer((bot + k) as usize)));
            if i == top {
                break;
            }
            i += 1;
        }
    }
    proof {
        lemma_vals_of_view(out);
        if bot > top {
            assert(slice_vals(out@) =~= Seq::<Val>::empty());
        }
        assert(vals_of(out) =~= Seq::new(
            if bot <= top { (top - bot + 1) as nat } else { 0 },
            |i: int| Val::Integer((bot + i) as usize),
        ));
    }
    ILitType::Array(out)
}

/// The number of bytes of the UTF-8 form of `s`, if it fits in a `usize`.
pub fn byte_len_checked(s: &str) -> (r: Option<usize>)
    ensures
        match r {
            Some(n) => n == utf8_len(s@),
            None => utf8_len(s@) > usize::MAX,
        },
{
    let cs = chars_of(s);
    let mut n: usize = 0;
    let mut i: usize = 0;
    assert(cs@.take(0) =~= Seq::<char>::empty());
    while i < cs.len()
        invariant
            cs@ == s@,
            i <= cs@.len(),
            n == utf8_len(cs@.take(i as int)),
        decreases cs@.len() - i,
    {
        let c = cs[i];
        let w: usize = if (c as u32) < 0x80 {
            1
        } else if (c as u32) < 0x800 {
            2
        } else if (c as u32) < 0x10000 {
            3
        } else {
            4
        };
        assert(cs@.take(i + 1).drop_last() =~= cs@.take(i as int));
        if n > usize::MAX - w {
            proof {
                lemma_utf8_len_prefix(s@, i + 1);
            }
            return None;
        }
        n = n + w;
        i += 1;
    }
    assert(cs@.take(i as int) =~= s@);
    Some(n)
}


/// `split` gives at least one part, and when the separator does not occur in the text (and is
/// not empty) that part is the whole text.
pub proof fn lemma_split_nonempty(s: Seq<char>, sep: Seq<char>)
    ensures
        split_parts(s, sep).len() >= 1,
        sep.len() > 0 && find_from(s, sep, 0) is None ==> split_parts(s, sep) == seq![s],
{
    if sep.len() > 0 {
        match find_from(s, sep, 0) {
            None => {},
            Some(k) => {
                if k + sep.len() <= s.len() && 0 <= k {
                    assert((seq![s.take(k)] + split_parts(s.skip(k + sep.len()), sep)).len() >= 1);
                }
            },
        }
    }
}

} // verus!
