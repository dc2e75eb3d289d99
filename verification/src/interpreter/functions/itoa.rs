//! Conversions between integers and strings.
use vstd::prelude::*;
use crate::interpreter::types::{ILitType, IResultBranch, Val};
use crate::text::{all_digits, chars_of, decimal, digit_char, digit_value, digits_value, to_decimal};

verus! {

/// Why a text is not the decimal numeral of a `usize`.
#[derive(Debug, Clone, Copy, PartialEq, Eq, Structural)]
pub enum IntErrorKind {
    /// The text is empty.
    Empty,
    /// A character is not a digit (or the text is a lone sign).
    InvalidDigit,
    /// The number is larger than `usize::MAX`.
    PosOverflow,
}

/// Read the digits of `s` from position `i` on, after the value `acc` of those before; the
/// first character that is not a digit, or the first digit that takes the value past
/// `usize::MAX`, is an error.
pub open spec fn scan_digits(s: Seq<char>, i: int, acc: nat) -> Result<nat, IntErrorKind>
    decreases s.len() - i,
{
    if i >= s.len() || i < 0 {
        Ok(acc)
    } else {
        match digit_value(s[i]) {
            None => Err(IntErrorKind::InvalidDigit),
            Some(d) => if acc * 10 + d > usize::MAX {
                Err(IntErrorKind::PosOverflow)
            } else {
                scan_digits(s, i + 1, acc * 10 + d)
            },
        }
    }
}

/// The value of a decimal numeral as std's `usize::from_str` reads it: an optional `+` and
/// at least one digit.
pub open spec fn spec_parse_usize(s: Seq<char>) -> Result<nat, IntErrorKind> {
    if s.len() == 0 {
        Err(IntErrorKind::Empty)
    } else if (s[0] == '+' || s[0] == '-') && s.len() == 1 {
        Err(IntErrorKind::InvalidDigit)
    } else if s[0] == '+' {
        scan_digits(s, 1, 0)
    } else {
        scan_digits(s, 0, 0)
    }
}

/// The message that std gives for each kind of error.
pub open spec fn int_error_message(k: IntErrorKind) -> Seq<char> {
    match k {
        IntErrorKind::Empty => "cannot parse integer from empty string"@,
        IntErrorKind::InvalidDigit => "invalid digit found in string"@,
        IntErrorKind::PosOverflow => "number too large to fit in target type"@,
    }
}

/// The value of a decimal numeral.
pub fn parse_usize(s: &str) -> (r: Result<usize, IntErrorKind>)
    ensures
        match spec_parse_usize(s@) {
            Ok(n) => r == Ok::<usize, IntErrorKind>(n as usize),
            Err(k) => r == Err::<usize, IntErrorKind>(k),
        },
{
    let cs = chars_of(s);
    if cs.len() == 0 {
        return Err(IntErrorKind::Empty);
    }
    if (cs[0] == '+' || cs[0] == '-') && cs.len() == 1 {
        return Err(IntErrorKind::InvalidDigit);
    }
    let mut i: usize = if cs[0] == '+' { 1 } else { 0 };
    let mut acc: usize = 0;
    let ghost whole = spec_parse_usize(s@);
    while i < cs.len()
        invariant
            cs@ == s@,
            i <= cs@.len(),
            whole == scan_digits(cs@, i as int, acc as nat),
            whole == spec_parse_usize(s@),
        decreases cs@.len() - i,
    {
        let c = cs[i];
        if !('0' <= c && c <= '9') {
            return Err(IntErrorKind::InvalidDigit);
        }
        let d = (c as u32 - '0' as u32) as usize;
        assert(digit_value(c) == Some(d as nat));
        if acc > (usize::MAX - d) / 10 {
            assert(acc * 10 + d > usize::MAX) by (nonlinear_arith)
                requires
                    acc > (usize::MAX - d) / 10,
                    d <= 9,
            ;
            return Err(IntErrorKind::PosOverflow);
        }
        assert(acc * 10 + d <= usize::MAX) by (nonlinear_arith)
            requires
                acc <= (usize::MAX - d) / 10,
                d <= 9,
        ;
        acc = acc * 10 + d;
        i += 1;
    }
    Ok(acc)
}

/// The decimal numeral of an integer.
///
/// `itoa(99)` is `"99"`.
pub fn itoa(num: usize) -> (r: ILitType)
    ensures
        r@ == Val::Str(decimal(num as nat)),
{
    ILitType::String(to_decimal(num))
}

/// The integer a decimal numeral stands for, or std's message for why it stands for none.
///
/// `atoi("99")` is `ok(99)`; `atoi("9x")` is `err("invalid digit found in string")`.
pub fn atoi(num: &str) -> (r: ILitType)
    ensures
        r@ == match spec_parse_usize(num@) {
            Ok(n) => Val::Result(true, Box::new(Val::Integer(n as usize))),
            Err(k) => Val::Result(false, Box::new(Val::Str(int_error_message(k)))),
        },
{
    match parse_usize(num) {
        Ok(n) => {
            let inner = ILitType::Integer(n);
            assert(inner@ == Val::Integer(n));
            ILitType::Result(IResultBranch::OkBranch(Box::new(inner)))
        },
        Err(k) => {
            let msg = match k {
                IntErrorKind::Empty => String::from_str("cannot parse integer from empty string"),
                IntErrorKind::InvalidDigit => String::from_str("invalid digit found in string"),
                IntErrorKind::PosOverflow => String::from_str("number too large to fit in target type"),
            };
            let inner = ILitType::String(msg);
            assert(inner@ == Val::Str(int_error_message(k)));
            ILitType::Result(IResultBranch::ErrBranch(Box::new(inner)))
        },
    }
}


proof fn lemma_digit_char_value(d: nat)
    requires
        d < 10,
    ensures
        digit_value(digit_char(d)) == Some(d),
{
}

/// The numeral of `n` is made of digits, and its value is `n`.
pub(crate) proof fn lemma_decimal_value(n: nat)
    ensures
        all_digits(decimal(n)),
        digits_value(decimal(n)) == n,
        decimal(n).len() >= 1,
    decreases n,
{
    if n < 10 {
        lemma_digit_char_value(n);
        let s = decimal(n);
        assert(s.drop_last() =~= Seq::<char>::empty());
        assert(digits_value(s.drop_last()) == 0);
        assert(s.last() == digit_char(n));
    } else {
        lemma_decimal_value(n / 10);
        lemma_digit_char_value(n % 10);
        let s = decimal(n);
        assert(s.drop_last() =~= decimal(n / 10));
        assert(s.last() == digit_char(n % 10));
        assert(digits_value(s) == digits_value(decimal(n / 10)) * 10 + n % 10);
        assert(n / 10 * 10 + n % 10 == n) by (nonlinear_arith);
    }
}

/// A prefix of a numeral has no larger value than the numeral.
proof fn lemma_prefix_value(s: Seq<char>, k: int)
    requires
        0 <= k <= s.len(),
    ensures
        digits_value(s.take(k)) <= digits_value(s),
    decreases s.len(),
{
    if k < s.len() {
        assert(s.drop_last().take(k) =~= s.take(k));
        lemma_prefix_value(s.drop_last(), k);
    } else {
        assert(s.take(k) =~= s);
    }
}

/// Reading the digits of a numeral from position `i` on, after the value of those before,
/// gives the numeral's value.
proof fn lemma_scan_all_digits(s: Seq<char>, i: int)
    requires
        0 <= i <= s.len(),
        all_digits(s),
        digits_value(s) <= usize::MAX,
    ensures
        scan_digits(s, i, digits_value(s.take(i))) == Ok::<nat, IntErrorKind>(digits_value(s)),
    decreases s.len() - i,
{
    if i < s.len() {
        assert(s.take(i + 1).drop_last() =~= s.take(i));
        assert(digit_value(s[i]) is Some);
        lemma_prefix_value(s, i + 1);
        lemma_scan_all_digits(s, i + 1);
    } else {
        assert(s.take(i) =~= s);
    }
}

/// `atoi` reads back what `itoa` writes: the numeral of an integer is read as that integer.
pub proof fn lemma_atoi_reads_itoa(n: usize)
    ensures
        spec_parse_usize(decimal(n as nat)) == Ok::<nat, IntErrorKind>(n as nat),
{
    let s = decimal(n as nat);
    lemma_decimal_value(n as nat);
    assert(digit_value(s[0]) is Some);
    assert(s.take(0) =~= Seq::<char>::empty());
    lemma_scan_all_digits(s, 0);
}

} // verus!
