//! Readable unique variable names for the interpreter: the program's own name, normalized, with
//! the least number that makes it new.
use vstd::prelude::*;
use crate::interpreter::functions::itoa::lemma_decimal_value;
use crate::text::{decimal, digits_value, push_char, push_decimal_wide, push_str};
use crate::typing::strata::VarGenerator;

verus! {

/// Whether a character is an ASCII letter.
pub open spec fn is_ascii_letter(c: char) -> bool {
    ('a' <= c && c <= 'z') || ('A' <= c && c <= 'Z')
}

/// The lower-case form of an ASCII character; other characters stay.
pub open spec fn ascii_lower(c: char) -> char {
    if 'A' <= c && c <= 'Z' {
        (((c as u8) + 32) as u8) as char
    } else {
        c
    }
}

/// What one character of a name becomes: an ASCII letter its lower-case form, `-` and `_`
/// an underscore; every other character is dropped.
pub open spec fn normalized_char(c: char) -> Seq<char> {
    if is_ascii_letter(c) {
        seq![ascii_lower(c)]
    } else if c == '-' || c == '_' {
        seq!['_']
    } else {
        Seq::empty()
    }
}

/// A name reduced to its ASCII letters, in lower case, with `-` replaced by `_`.
pub open spec fn normalized(s: Seq<char>) -> Seq<char>
    decreases s.len(),
{
    if s.len() == 0 {
        Seq::empty()
    } else {
        normalized(s.drop_last()) + normalized_char(s.last())
    }
}

/// The name `base_n`.
pub open spec fn suffixed(base: Seq<char>, n: nat) -> Seq<char> {
    base + seq!['_'] + decimal(n)
}

/// The least number from `n` on, trying at most `fuel` of them, whose `base_n` is not among
/// `used`; `n + fuel` when all that were tried are taken.
pub open spec fn first_free(used: Seq<Seq<char>>, base: Seq<char>, n: nat, fuel: nat) -> nat
    decreases fuel,
{
    if fuel == 0 {
        n
    } else if !used.contains(suffixed(base, n)) {
        n
    } else {
        first_free(used, base, n + 1, (fuel - 1) as nat)
    }
}

/// The name that a generator which has handed out `used` gives a variable called `name`: the
/// normalized name, `_`, and the least number from 1 on that makes a name not handed out yet.
pub open spec fn fresh_name(used: Seq<Seq<char>>, name: Seq<char>) -> Seq<char> {
    suffixed(normalized(name), first_free(used, normalized(name), 1, used.len() + 1))
}

/// Hands out readable names, each one once: `x_1`, `x_2`, `y_1`, ...
#[derive(Debug)]
pub struct VarGenInterpreter {
    store: Vec<String>,
}

impl VarGenInterpreter {
    /// The names handed out so far, in order.
    pub closed spec fn used(&self) -> Seq<Seq<char>> {
        self.store@.map_values(|s: String| s@)
    }

    /// A name reduced to its ASCII letters, in lower case, with `-` replaced by `_`; every other
    /// character goes.
    pub fn normalize(s: &str) -> (r: String)
        ensures
            r@ == normalized(s@),
    {
        let n = s.unicode_len();
        let mut r = String::new();
        let mut i: usize = 0;
        assert(s@.take(0) =~= Seq::<char>::empty());
        while i < n
            invariant
                n == s@.len(),
                i <= n,
                r@ == normalized(s@.take(i as int)),
            decreases n - i,
        {
            let c = s.get_char(i);
            assert(s@.take(i + 1).drop_last() =~= s@.take(i as int));
            if ('a' <= c && c <= 'z') {
                push_char(&mut r, c);
            } else if ('A' <= c && c <= 'Z') {
                let code = (c as u8) + 32;
                let lower = code as char;
                push_char(&mut r, lower);
            } else if c == '-' || c == '_' {
                push_char(&mut r, '_');
            }
            i += 1;
            assert(r@ =~= normalized(s@.take(i as int)));
        }
        assert(s@.take(n as int) =~= s@);
        r
    }

    /// The name `base_n`.
    fn suffixed_name(base: &str, n: u128) -> (r: String)
        ensures
            r@ == suffixed(base@, n as nat),
    {
        let mut r = String::new();
        push_str(&mut r, base);
        push_char(&mut r, '_');
        push_decimal_wide(&mut r, n);
        assert(r@ =~= suffixed(base@, n as nat));
        r
    }

    /// Whether `name` has been handed out.
    fn is_used(&self, name: &String) -> (b: bool)
        ensures
            b == self.used().contains(name@),
    {
        let mut i: usize = 0;
        while i < self.store.len()
            invariant
                i <= self.store@.len(),
                forall|k: int| 0 <= k < i ==> self.used()[k] != name@,
            decreases self.store@.len() - i,
        {
            if self.store[i] == *name {
                assert(self.used()[i as int] == name@);
                return true;
            }
            i += 1;
        }
        assert forall|k: int| 0 <= k < self.used().len() implies self.used()[k] != name@ by {}
        false
    }
}

impl VarGenerator for VarGenInterpreter {
    fn init() -> (g: Self)
        ensures
            g.used() == Seq::<Seq<char>>::empty(),
    {
        let g = VarGenInterpreter { store: Vec::new() };
        assert(g.used() =~= Seq::<Seq<char>>::empty());
        g
    }

    fn fresh(&mut self, name: &str) -> (r: String)
        ensures
            r@ == fresh_name(old(self).used(), name@),
            !old(self).used().contains(r@),
            final(self).used() == old(self).used().push(r@),
    {
        proof {
            lemma_fresh_name_is_new(self.used(), name@);
        }
        let base = Self::normalize(name);
        let ghost used = self.used();
        let len = self.store.len();
        let mut n: u128 = 1;
        let mut fuel: u128 = len as u128 + 1;
        loop
            invariant
                used == self.used(),
                len == used.len(),
                base@ == normalized(name@),
                n + fuel == len + 2,
                first_free(used, base@, 1, (len + 1) as nat) == first_free(used, base@, n as nat, fuel as nat),
            ensures
                first_free(used, base@, 1, (len + 1) as nat) == n,
            decreases fuel,
        {
            if fuel == 0 {
                break;
            }
            let cand = Self::suffixed_name(base.as_str(), n);
            if !self.is_used(&cand) {
                break;
            }
            n += 1;
            fuel -= 1;
        }
        let r = Self::suffixed_name(base.as_str(), n);
        self.store.push(r.clone());
        assert(self.used() =~= used.push(r@));
        r
    }
}

/// Two names `base_a` and `base_b` are the same name only for the same number.
proof fn lemma_suffixed_injective(base: Seq<char>, a: nat, b: nat)
    requires
        suffixed(base, a) == suffixed(base, b),
    ensures
        a == b,
{
    let k: int = base.len() as int + 1;
    assert(suffixed(base, a).skip(k) =~= decimal(a));
    assert(suffixed(base, b).skip(k) =~= decimal(b));
    lemma_decimal_value(a);
    lemma_decimal_value(b);
    assert(digits_value(decimal(a)) == digits_value(decimal(b)));
}

/// If the names `base_1` to `base_k` are all in a finite set, the set holds at least `k`
/// elements.
proof fn lemma_taken_bound(taken: Set<Seq<char>>, base: Seq<char>, k: nat)
    requires
        taken.finite(),
        forall|n: nat| 1 <= n <= k ==> taken.contains(#[trigger] suffixed(base, n)),
    ensures
        k <= taken.len(),
    decreases k,
{
    if k > 0 {
        let last = suffixed(base, k);
        let rest = taken.remove(last);
        assert forall|n: nat| 1 <= n <= (k - 1) as nat implies rest.contains(#[trigger] suffixed(base, n)) by {
            if suffixed(base, n) == last {
                lemma_suffixed_injective(base, n, k);
            }
        }
        lemma_taken_bound(rest, base, (k - 1) as nat);
    }
}

/// `first_free` stops at the first name that is free, and the names it passed are taken.
proof fn lemma_first_free_passed(used: Seq<Seq<char>>, base: Seq<char>, n: nat, fuel: nat)
    ensures
        n <= first_free(used, base, n, fuel) <= n + fuel,
        forall|j: nat| n <= j < first_free(used, base, n, fuel) ==> used.contains(#[trigger] suffixed(base, j)),
        first_free(used, base, n, fuel) < n + fuel ==> !used.contains(suffixed(base, first_free(used, base, n, fuel))),
    decreases fuel,
{
    if fuel > 0 && used.contains(suffixed(base, n)) {
        lemma_first_free_passed(used, base, n + 1, (fuel - 1) as nat);
    }
}

/// A fresh name has not been handed out before: whatever was handed out, the name that
/// `fresh` gives next is none of those names.
pub proof fn lemma_fresh_name_is_new(used: Seq<Seq<char>>, name: Seq<char>)
    ensures
        !used.contains(fresh_name(used, name)),
{
    let base = normalized(name);
    let k = first_free(used, base, 1, used.len() + 1);
    lemma_first_free_passed(used, base, 1, used.len() + 1);
    if k == used.len() + 2 {
        let taken = used.to_set();
        assert forall|n: nat| 1 <= n <= used.len() + 1 implies taken.contains(#[trigger] suffixed(base, n)) by {
            assert(used.contains(suffixed(base, n)));
        }
        used.lemma_cardinality_of_set();
        lemma_taken_bound(taken, base, used.len() + 1);
        assert(false);
    }
}

} // verus!
