//! A program text as the parser reads it: its characters, and the byte offset of each position.
use vstd::prelude::*;
use crate::interpreter::functions::arrays::{lemma_utf8_len_prefix, utf8_len, utf8_width};
use crate::parse::syntax::{
    at, ident_char, ident_start, is_alpha, is_digit, is_space, lit, off, scan_alpha, scan_digits,
    scan_ident, scan_quote, sk, skip_from, sp,
};
use crate::parse::types::Span;
use crate::text::{chars_of, string_of_range};

verus! {

/// A program text.
pub struct Source {
    /// The characters.
    pub cs: Vec<char>,
    /// The byte offset of each position, and of the end.
    pub offs: Vec<usize>,
}

/// The skip from a position stays within the text and does not go back.
pub proof fn lemma_skip_bounds(s: Seq<char>, i: int, comment: bool)
    requires
        0 <= i <= s.len(),
    ensures
        i <= skip_from(s, i, comment) <= s.len(),
    decreases s.len() - i,
{
    if i < s.len() {
        if comment {
            lemma_skip_bounds(s, i + 1, s[i] != '\n');
        } else if is_space(s[i]) {
            lemma_skip_bounds(s, i + 1, false);
        } else if s[i] == '#' {
            lemma_skip_bounds(s, i + 1, true);
        }
    }
}

proof fn lemma_scan_ident_bounds(s: Seq<char>, i: int)
    requires
        0 <= i <= s.len(),
    ensures
        i <= scan_ident(s, i) <= s.len(),
    decreases s.len() - i,
{
    if i < s.len() && ident_char(s[i]) {
        lemma_scan_ident_bounds(s, i + 1);
    }
}

proof fn lemma_scan_digits_bounds(s: Seq<char>, i: int)
    requires
        0 <= i <= s.len(),
    ensures
        i <= scan_digits(s, i) <= s.len(),
    decreases s.len() - i,
{
    if i < s.len() && is_digit(s[i]) {
        lemma_scan_digits_bounds(s, i + 1);
    }
}

proof fn lemma_scan_alpha_bounds(s: Seq<char>, i: int)
    requires
        0 <= i <= s.len(),
    ensures
        i <= scan_alpha(s, i) <= s.len(),
    decreases s.len() - i,
{
    if i < s.len() && is_alpha(s[i]) {
        lemma_scan_alpha_bounds(s, i + 1);
    }
}

proof fn lemma_scan_quote_bounds(s: Seq<char>, i: int)
    requires
        0 <= i <= s.len(),
    ensures
        i <= scan_quote(s, i) <= s.len(),
    decreases s.len() - i,
{
    if i < s.len() && s[i] != '"' {
        lemma_scan_quote_bounds(s, i + 1);
    }
}

fn is_alpha_char(c: char) -> (b: bool)
    ensures
        b == is_alpha(c),
{
    ('a' <= c && c <= 'z') || ('A' <= c && c <= 'Z')
}

fn is_digit_char(c: char) -> (b: bool)
    ensures
        b == is_digit(c),
{
    '0' <= c && c <= '9'
}

impl Source {
    /// The characters of the text.
    pub open spec fn text(&self) -> Seq<char> {
        self.cs@
    }

    /// Whether each position's byte offset is recorded.
    pub open spec fn wf(&self) -> bool {
        &&& self.cs@.len() < usize::MAX
        &&& self.offs@.len() == self.cs@.len() + 1
        &&& forall|k: int| 0 <= k <= self.cs@.len() ==> #[trigger] self.offs@[k] == off(self.cs@, k)
    }

    /// The text `t`, or `None` when its UTF-8 form has more bytes than a `usize` counts.
    pub fn new(t: &str) -> (r: Option<Source>)
        ensures
            match r {
                Some(src) => src.wf() && src.text() == t@ && utf8_len(t@) <= usize::MAX,
                None => utf8_len(t@) > usize::MAX,
            },
    {
        let cs = chars_of(t);
        let mut offs: Vec<usize> = Vec::new();
        offs.push(0);
        let mut n: usize = 0;
        let mut i: usize = 0;
        assert(cs@.take(0) =~= Seq::<char>::empty());
        while i < cs.len()
            invariant
                cs@ == t@,
                i <= cs@.len(),
                n == utf8_len(cs@.take(i as int)),
                offs@.len() == i + 1,
                forall|k: int| 0 <= k <= i ==> #[trigger] offs@[k] == off(cs@, k),
            decreases cs@.len() - i,
        {
            let c = cs[i];
            let w: usize = if (c as u32) < 0x80 {
                1
            } else if (c as u32) < 0x800 {
                2
            } else if (c as u32) < 0x10000 {
                3
            } else {
                4
            };
            proof {
                assert(cs@.take(i + 1).drop_last() =~= cs@.take(i as int));
                assert(w == utf8_width(c));
            }
            if n > usize::MAX - w {
                proof {
                    lemma_utf8_len_prefix(cs@, i + 1);
                }
                return None;
            }
            n = n + w;
            i += 1;
            offs.push(n);
        }
        let m = offs.len();
        assert(m == cs@.len() + 1);
        assert(cs@.take(i as int) =~= cs@);
        Some(Source { cs, offs })
    }

    /// The number of characters.
    pub fn len(&self) -> (n: usize)
        ensures
            n == self.text().len(),
    {
        self.cs.len()
    }

    /// The position of the next token at or after `i`.
    pub fn skip(&self, i: usize) -> (r: usize)
        requires
            i <= self.text().len(),
        ensures
            r == sk(self.text(), i as int),
            i <= r <= self.text().len(),
    {
        let ghost s = self.cs@;
        proof {
            lemma_skip_bounds(s, i as int, false);
        }
        let mut j = i;
        let mut comment = false;
        while j < self.cs.len()
            invariant
                s == self.cs@,
                i <= j <= s.len(),
                skip_from(s, i as int, false) == skip_from(s, j as int, comment),
            decreases s.len() - j,
        {
            let c = self.cs[j];
            if comment {
                comment = c != '\n';
            } else if c == ' ' || c == '\t' || c == '\n' || c == '\r' {
            } else if c == '#' {
                comment = true;
            } else {
                return j;
            }
            j += 1;
        }
        j
    }

    /// Whether the character at `i` is `c`.
    pub fn at(&self, i: usize, c: char) -> (b: bool)
        ensures
            b == at(self.text(), i as int, c),
    {
        i < self.cs.len() && self.cs[i] == c
    }

    /// Whether the text from `i` on starts with `w`.
    pub fn lit(&self, i: usize, w: &str) -> (b: bool)
        ensures
            b == lit(self.text(), i as int, w@),
    {
        let wc = chars_of(w);
        if i > self.cs.len() || wc.len() > self.cs.len() - i {
            return false;
        }
        let n = self.cs.len();
        let mut k: usize = 0;
        while k < wc.len()
            invariant
                n == self.cs@.len(),
                wc@ == w@,
                i + wc@.len() <= self.cs@.len(),
                k <= wc@.len(),
                forall|m: int| 0 <= m < k ==> self.cs@[i + m] == wc@[m],
            decreases wc@.len() - k,
        {
            assert(i + k < self.cs@.len());
            if self.cs[i + k] != wc[k] {
                assert(self.cs@.subrange(i as int, i + wc@.len())[k as int] != w@[k as int]);
                return false;
            }
            k += 1;
        }
        assert(self.cs@.subrange(i as int, i + wc@.len()) =~= w@);
        true
    }

    /// The span from position `a` to position `b`.
    pub fn span(&self, a: usize, b: usize) -> (r: Span)
        requires
            self.wf(),
            a <= self.text().len(),
            b <= self.text().len(),
        ensures
            r == sp(self.text(), a as int, b as int),
    {
        Span::new(self.offs[a], self.offs[b])
    }

    /// The text from position `a` up to position `b`.
    pub fn slice(&self, a: usize, b: usize) -> (r: String)
        requires
            a <= b <= self.text().len(),
        ensures
            r@ == self.text().subrange(a as int, b as int),
    {
        string_of_range(self.cs.as_slice(), a, b)
    }

    /// Whether an identifier may start at `i`.
    pub fn ident_start_at(&self, i: usize) -> (b: bool)
        ensures
            b == (i < self.text().len() && ident_start(self.text()[i as int])),
    {
        i < self.cs.len() && (is_alpha_char(self.cs[i]) || self.cs[i] == '_')
    }

    /// Whether a digit stands at `i`.
    pub fn digit_at(&self, i: usize) -> (b: bool)
        ensures
            b == (i < self.text().len() && is_digit(self.text()[i as int])),
    {
        i < self.cs.len() && is_digit_char(self.cs[i])
    }

    /// Whether a letter stands at `i`.
    pub fn alpha_at(&self, i: usize) -> (b: bool)
        ensures
            b == (i < self.text().len() && is_alpha(self.text()[i as int])),
    {
        i < self.cs.len() && is_alpha_char(self.cs[i])
    }

    /// The end of the run of identifier characters from `i` on.
    pub fn scan_ident(&self, i: usize) -> (r: usize)
        requires
            i <= self.text().len(),
        ensures
            r == scan_ident(self.text(), i as int),
            i <= r <= self.text().len(),
    {
        proof {
            lemma_scan_ident_bounds(self.cs@, i as int);
        }
        let mut j = i;
        while j < self.cs.len() && (is_alpha_char(self.cs[j]) || is_digit_char(self.cs[j]) || self.cs[j] == '_')
            invariant
                i <= j <= self.cs@.len(),
                scan_ident(self.cs@, i as int) == scan_ident(self.cs@, j as int),
            decreases self.cs@.len() - j,
        {
            j += 1;
        }
        j
    }

    /// The end of the run of digits from `i` on.
    pub fn scan_digits(&self, i: usize) -> (r: usize)
        requires
            i <= self.text().len(),
        ensures
            r == scan_digits(self.text(), i as int),
            i <= r <= self.text().len(),
    {
        proof {
            lemma_scan_digits_bounds(self.cs@, i as int);
        }
        let mut j = i;
        while j < self.cs.len() && is_digit_char(self.cs[j])
            invariant
                i <= j <= self.cs@.len(),
                scan_digits(self.cs@, i as int) == scan_digits(self.cs@, j as int),
            decreases self.cs@.len() - j,
        {
            j += 1;
        }
        j
    }

    /// The end of the run of letters from `i` on.
    pub fn scan_alpha(&self, i: usize) -> (r: usize)
        requires
            i <= self.text().len(),
        ensures
            r == scan_alpha(self.text(), i as int),
            i <= r <= self.text().len(),
    {
        proof {
            lemma_scan_alpha_bounds(self.cs@, i as int);
        }
        let mut j = i;
        while j < self.cs.len() && is_alpha_char(self.cs[j])
            invariant
                i <= j <= self.cs@.len(),
                scan_alpha(self.cs@, i as int) == scan_alpha(self.cs@, j as int),
            decreases self.cs@.len() - j,
        {
            j += 1;
        }
        j
    }

    /// The position of the first `"` at or after `i`.
    pub fn scan_quote(&self, i: usize) -> (r: usize)
        requires
            i <= self.text().len(),
        ensures
            r == scan_quote(self.text(), i as int),
            i <= r <= self.text().len(),
    {
        proof {
            lemma_scan_quote_bounds(self.cs@, i as int);
        }
        let mut j = i;
        while j < self.cs.len() && self.cs[j] != '"'
            invariant
                i <= j <= self.cs@.len(),
                scan_quote(self.cs@, i as int) == scan_quote(self.cs@, j as int),
            decreases self.cs@.len() - j,
        {
            j += 1;
        }
        j
    }
}

} // verus!
