//! The grammar of Diamond, as the functions that give the syntax tree of a text.
//!
//! Each rule reads a text from a position and gives the tree it read and the position after
//! it, or `None` when the text there is not of the rule; a choice takes its first alternative
//! that reads. Between the tokens of a rule stand any number of spaces, tabs, line breaks and
//! comments (`#` up to the end of the line). Spans are byte offsets into the text.
//!
//! ```text
//! program      = stmt_or_expr* EOI
//! stmt_or_expr = expr ";"?                      (with ";" a statement)
//! expr         = func_expr | func_def_expr | assign_expr | grouping | match_expr
//!              | for_expr | value
//! func_expr    = name "(" args? ")" "!"?
//! name         = "@"? ident                     (no space between the two)
//! args         = expr ("," expr)* ","?
//! func_def     = "let" "~internal"? name "(" params? ")" (":" type)? "=" expr
//! params       = ident ":" type ("," ident ":" type)* ","?
//! assign_expr  = "let" ident "=" expr
//! grouping     = "{" stmt_or_expr* "}" ("<" expr)?
//! match_expr   = "match" "(" expr ")" "{" arm ("," arm)* ","? "}"
//! arm          = ("ok" | "err") ident "=" expr
//! for_expr     = "for" "(" ident "in" expr ")" expr
//! value        = ident | integer | string | "[" args? "]" | "()"
//! type         = "[" type "]" | "result" "(" type "," type ")" | a type name
//! ```
//! An identifier is a letter or `_` followed by letters, digits and `_`, but not one of the
//! words `let`, `for`, `match` and `in`; an integer is a run of digits that fits in a `usize`;
//! a string is any text without `"` between double quotes.
use vstd::prelude::*;
use crate::interpreter::functions::arrays::utf8_len;
use crate::interpreter::functions::itoa::spec_parse_usize;
use crate::parse::types::{ArgV, ArmV, AtomV, PValV, Span, Spanned, TypeV};

verus! {

/// Whether `c` is white space between tokens.
pub open spec fn is_space(c: char) -> bool {
    c == ' ' || c == '\t' || c == '\n' || c == '\r'
}

/// An ASCII letter.
pub open spec fn is_alpha(c: char) -> bool {
    ('a' <= c && c <= 'z') || ('A' <= c && c <= 'Z')
}

/// An ASCII digit.
pub open spec fn is_digit(c: char) -> bool {
    '0' <= c && c <= '9'
}

/// A character that may start an identifier.
pub open spec fn ident_start(c: char) -> bool {
    is_alpha(c) || c == '_'
}

/// A character that may continue an identifier.
pub open spec fn ident_char(c: char) -> bool {
    is_alpha(c) || is_digit(c) || c == '_'
}

/// The position after the white space and comments from `i` on; `comment` when `i` is inside
/// a comment.
pub open spec fn skip_from(s: Seq<char>, i: int, comment: bool) -> int
    decreases s.len() - i,
{
    if i < 0 || i >= s.len() {
        i
    } else if comment {
        skip_from(s, i + 1, s[i] != '\n')
    } else if is_space(s[i]) {
        skip_from(s, i + 1, false)
    } else if s[i] == '#' {
        skip_from(s, i + 1, true)
    } else {
        i
    }
}

/// The position of the next token at or after `i`.
pub open spec fn sk(s: Seq<char>, i: int) -> int {
    skip_from(s, i, false)
}

/// The end of the run of identifier characters from `i` on.
pub open spec fn scan_ident(s: Seq<char>, i: int) -> int
    decreases s.len() - i,
{
    if 0 <= i < s.len() && ident_char(s[i]) {
        scan_ident(s, i + 1)
    } else {
        i
    }
}

/// The end of the run of digits from `i` on.
pub open spec fn scan_digits(s: Seq<char>, i: int) -> int
    decreases s.len() - i,
{
    if 0 <= i < s.len() && is_digit(s[i]) {
        scan_digits(s, i + 1)
    } else {
        i
    }
}

/// The end of the run of letters from `i` on.
pub open spec fn scan_alpha(s: Seq<char>, i: int) -> int
    decreases s.len() - i,
{
    if 0 <= i < s.len() && is_alpha(s[i]) {
        scan_alpha(s, i + 1)
    } else {
        i
    }
}

/// The position of the first `"` at or after `i` (the end of the text when there is none).
pub open spec fn scan_quote(s: Seq<char>, i: int) -> int
    decreases s.len() - i,
{
    if 0 <= i < s.len() && s[i] != '"' {
        scan_quote(s, i + 1)
    } else {
        i
    }
}

/// Whether the character at `i` is `c`.
pub open spec fn at(s: Seq<char>, i: int, c: char) -> bool {
    0 <= i < s.len() && s[i] == c
}

/// Whether the text from `i` on starts with `w`.
pub open spec fn lit(s: Seq<char>, i: int, w: Seq<char>) -> bool {
    0 <= i && i + w.len() <= s.len() && s.subrange(i, i + w.len()) == w
}

/// The byte offset of position `k`.
pub open spec fn off(s: Seq<char>, k: int) -> usize {
    utf8_len(s.take(k)) as usize
}

/// The span from position `a` to position `b`.
pub open spec fn sp(s: Seq<char>, a: int, b: int) -> Span {
    Span { start: off(s, a), end: off(s, b) }
}

/// The words that are not identifiers.
pub open spec fn is_keyword(w: Seq<char>) -> bool {
    w == "let"@ || w == "for"@ || w == "match"@ || w == "in"@
}

/// Whether `j` is a position after `i` in the text.
pub open spec fn fwd(s: Seq<char>, i: int, j: int) -> bool {
    i < j <= s.len()
}

/// The first choice that reads.
pub open spec fn either<T>(a: Option<T>, b: Option<T>) -> Option<T> {
    if a is Some {
        a
    } else {
        b
    }
}

/// An identifier.
pub open spec fn p_ident(s: Seq<char>, i: int) -> Option<(Spanned<Seq<char>>, int)> {
    if 0 <= i < s.len() && ident_start(s[i]) {
        let e = scan_ident(s, i + 1);
        let w = s.subrange(i, e);
        if is_keyword(w) {
            None
        } else {
            Some((Spanned { node: w, span: sp(s, i, e) }, e))
        }
    } else {
        None
    }
}

/// An integer literal.
pub open spec fn p_integer(s: Seq<char>, i: int) -> Option<(Spanned<usize>, int)> {
    if 0 <= i < s.len() && is_digit(s[i]) {
        let e = scan_digits(s, i + 1);
        match spec_parse_usize(s.subrange(i, e)) {
            Ok(n) => Some((Spanned { node: n as usize, span: sp(s, i, e) }, e)),
            Err(_) => None,
        }
    } else {
        None
    }
}

/// A string literal: the text between the quotes, spanned over the whole literal.
pub open spec fn p_string(s: Seq<char>, i: int) -> Option<(Spanned<Seq<char>>, int)> {
    if at(s, i, '"') {
        let k = scan_quote(s, i + 1);
        if at(s, k, '"') {
            Some((Spanned { node: s.subrange(i + 1, k), span: sp(s, i, k + 1) }, k + 1))
        } else {
            None
        }
    } else {
        None
    }
}

/// The unit literal `()`.
pub open spec fn p_unit(s: Seq<char>, i: int) -> Option<(Spanned<Seq<char>>, int)> {
    if at(s, i, '(') && at(s, i + 1, ')') {
        Some((Spanned { node: s.subrange(i, i + 2), span: sp(s, i, i + 2) }, i + 2))
    } else {
        None
    }
}

/// The name of a called or defined function: an identifier, after an optional `@`. The node
/// is the identifier; the span covers the `@` too.
pub open spec fn p_name(s: Seq<char>, i: int) -> Option<(Spanned<PValV>, int)> {
    let j = if at(s, i, '@') {
        i + 1
    } else {
        i
    };
    match p_ident(s, j) {
        Some((id, e)) => Some(
            (
                Spanned {
                    node: PValV::Atomic(Spanned { node: AtomV::Ident(id), span: id.span }),
                    span: sp(s, i, e),
                },
                e,
            ),
        ),
        None => None,
    }
}

/// The type that a type name stands for.
pub open spec fn named_type(w: Spanned<Seq<char>>) -> Option<TypeV> {
    if w.node == "stream"@ {
        Some(TypeV::Stream(w))
    } else if w.node == "string"@ {
        Some(TypeV::String(w))
    } else if w.node == "file"@ {
        Some(TypeV::File(w))
    } else if w.node == "unit"@ {
        Some(TypeV::Unit(w))
    } else if w.node == "integer"@ {
        Some(TypeV::Integer(w))
    } else if w.node == "unret"@ {
        Some(TypeV::Unret(w))
    } else if w.node == "any"@ {
        Some(TypeV::Any(w))
    } else {
        None
    }
}

/// A written type.
pub open spec fn p_type(s: Seq<char>, i: int) -> Option<(TypeV, int)>
    decreases s.len() - i,
{
    if !(0 <= i <= s.len()) {
        None
    } else if at(s, i, '[') {
        let j = sk(s, i + 1);
        if !fwd(s, i, j) {
            None
        } else {
            match p_type(s, j) {
                Some((t, e)) => {
                    let k = sk(s, e);
                    if at(s, k, ']') {
                        Some((TypeV::Array(Spanned { node: Box::new(t), span: sp(s, i, k + 1) }), k + 1))
                    } else {
                        None
                    }
                },
                None => None,
            }
        }
    } else if lit(s, i, "result"@) && at(s, sk(s, i + 6), '(') {
        let j = sk(s, sk(s, i + 6) + 1);
        if !fwd(s, i, j) {
            None
        } else {
            match p_type(s, j) {
                Some((ok, e1)) => {
                    let c = sk(s, e1);
                    let j2 = sk(s, c + 1);
                    if at(s, c, ',') && fwd(s, i, j2) {
                        match p_type(s, j2) {
                            Some((err, e2)) => {
                                let d = sk(s, e2);
                                if at(s, d, ')') {
                                    Some(
                                        (
                                            TypeV::Result(
                                                Spanned { node: (Box::new(ok), Box::new(err)), span: sp(s, i, d + 1) },
                                            ),
                                            d + 1,
                                        ),
                                    )
                                } else {
                                    None
                                }
                            },
                            None => None,
                        }
                    } else {
                        None
                    }
                },
                None => None,
            }
        }
    } else if i < s.len() && is_alpha(s[i]) {
        let e = scan_alpha(s, i + 1);
        match named_type(Spanned { node: s.subrange(i, e), span: sp(s, i, e) }) {
            Some(t) => Some((t, e)),
            None => None,
        }
    } else {
        None
    }
}

/// A parameter `name: type`.
pub open spec fn p_param(s: Seq<char>, i: int) -> Option<(ArgV, int)> {
    match p_ident(s, i) {
        Some((id, e)) => {
            let c = sk(s, e);
            if at(s, c, ':') {
                match p_type(s, sk(s, c + 1)) {
                    Some((t, et)) => Some((ArgV { name: id, ty: t }, et)),
                    None => None,
                }
            } else {
                None
            }
        },
        None => None,
    }
}

/// The parameters after those in `acc`, the last of which ended at `e`.
pub open spec fn p_params_more(s: Seq<char>, e: int, acc: Seq<ArgV>) -> (Seq<ArgV>, int)
    decreases s.len() - e,
{
    let c = sk(s, e);
    if 0 <= e <= s.len() && at(s, c, ',') {
        match p_param(s, sk(s, c + 1)) {
            Some((a, ea)) => if e < ea <= s.len() {
                p_params_more(s, ea, acc.push(a))
            } else {
                (acc, e)
            },
            None => (acc, c + 1),
        }
    } else {
        (acc, e)
    }
}

/// A parameter list.
pub open spec fn p_params(s: Seq<char>, i: int) -> Option<(Spanned<Seq<ArgV>>, int)> {
    match p_param(s, i) {
        Some((a, e)) => {
            let (ps, end) = p_params_more(s, e, seq![a]);
            Some((Spanned { node: ps, span: sp(s, i, end) }, end))
        },
        None => None,
    }
}

/// An expression.
pub open spec fn p_expr(s: Seq<char>, i: int) -> Option<(Spanned<PValV>, int)>
    decreases s.len() - i, 2nat,
{
    if !(0 <= i <= s.len()) {
        None
    } else {
        either(
            p_call(s, i),
            either(
                p_def(s, i),
                either(
                    p_assign(s, i),
                    either(p_group(s, i), either(p_match(s, i), either(p_for(s, i), p_value(s, i)))),
                ),
            ),
        )
    }
}

/// A function call.
pub open spec fn p_call(s: Seq<char>, i: int) -> Option<(Spanned<PValV>, int)>
    decreases s.len() - i, 1nat,
{
    if !(0 <= i <= s.len()) {
        None
    } else {
        match p_name(s, i) {
            Some((name, e)) => {
                let k = sk(s, e);
                let k2 = sk(s, k + 1);
                if at(s, k, '(') && fwd(s, i, k2) {
                    let (args, e2) = match p_args(s, k2) {
                        Some((a, ea)) => (Some(a), ea),
                        None => (None, k + 1),
                    };
                    let c = sk(s, e2);
                    if at(s, c, ')') {
                        let u = sk(s, c + 1);
                        let (unwrap, end) = if at(s, u, '!') {
                            (Some(Spanned { node: true, span: sp(s, u, u + 1) }), u + 1)
                        } else {
                            (None, c + 1)
                        };
                        Some(
                            (
                                Spanned {
                                    node: PValV::FuncCall { name: Box::new(name), args, unwrap },
                                    span: sp(s, i, end),
                                },
                                end,
                            ),
                        )
                    } else {
                        None
                    }
                } else {
                    None
                }
            },
            None => None,
        }
    }
}

/// The arguments of a call or the elements of an array.
pub open spec fn p_args(s: Seq<char>, i: int) -> Option<(Spanned<Seq<Spanned<PValV>>>, int)>
    decreases s.len() - i, 3nat,
{
    if !(0 <= i <= s.len()) {
        None
    } else {
        match p_expr(s, i) {
            Some((x, e)) => if i <= e <= s.len() {
                let (items, end) = p_args_more(s, e, seq![x]);
                Some((Spanned { node: items, span: sp(s, i, end) }, end))
            } else {
                None
            },
            None => None,
        }
    }
}

/// The arguments after those in `acc`, the last of which ended at `e`.
pub open spec fn p_args_more(s: Seq<char>, e: int, acc: Seq<Spanned<PValV>>) -> (Seq<Spanned<PValV>>, int)
    decreases s.len() - e, 0nat,
{
    let c = sk(s, e);
    let n = sk(s, c + 1);
    if 0 <= e <= s.len() && at(s, c, ',') && fwd(s, e, n) {
        match p_expr(s, n) {
            Some((x, ex)) => if e < ex <= s.len() {
                p_args_more(s, ex, acc.push(x))
            } else {
                (acc, e)
            },
            None => (acc, c + 1),
        }
    } else {
        (acc, e)
    }
}

/// A function definition.
pub open spec fn p_def(s: Seq<char>, i: int) -> Option<(Spanned<PValV>, int)>
    decreases s.len() - i, 1nat,
{
    if !(0 <= i <= s.len()) || !lit(s, i, "let"@) {
        None
    } else {
        let a = sk(s, i + 3);
        let (internal, n0) = if lit(s, a, "~internal"@) {
            (true, sk(s, a + 9))
        } else {
            (false, a)
        };
        match p_name(s, n0) {
            Some((name, e)) => {
                let k = sk(s, e);
                if at(s, k, '(') {
                    let k2 = sk(s, k + 1);
                    let (args, e2) = match p_params(s, k2) {
                        Some((ps, ep)) => (Some(ps), ep),
                        None => (None, k + 1),
                    };
                    let c = sk(s, e2);
                    if at(s, c, ')') {
                        let r = sk(s, c + 1);
                        let (ret, e3) = if at(s, r, ':') {
                            match p_type(s, sk(s, r + 1)) {
                                Some((t, et)) => (Some(t), et),
                                None => (None, c + 1),
                            }
                        } else {
                            (None, c + 1)
                        };
                        let q = sk(s, e3);
                        let b = sk(s, q + 1);
                        if at(s, q, '=') && fwd(s, i, b) {
                            match p_expr(s, b) {
                                Some((body, eb)) => Some(
                                    (
                                        Spanned {
                                            node: PValV::FuncLet {
                                                name: Box::new(name),
                                                args,
                                                ret,
                                                body: Box::new(body),
                                                internal,
                                            },
                                            span: sp(s, i, eb),
                                        },
                                        eb,
                                    ),
                                ),
                                None => None,
                            }
                        } else {
                            None
                        }
                    } else {
                        None
                    }
                } else {
                    None
                }
            },
            None => None,
        }
    }
}

/// An assignment.
pub open spec fn p_assign(s: Seq<char>, i: int) -> Option<(Spanned<PValV>, int)>
    decreases s.len() - i, 1nat,
{
    if !(0 <= i <= s.len()) || !lit(s, i, "let"@) {
        None
    } else {
        match p_ident(s, sk(s, i + 3)) {
            Some((id, e)) => {
                let q = sk(s, e);
                let b = sk(s, q + 1);
                if at(s, q, '=') && fwd(s, i, b) {
                    match p_expr(s, b) {
                        Some((x, ex)) => Some(
                            (
                                Spanned {
                                    node: PValV::Let { name: id, expr: Box::new(x) },
                                    span: sp(s, i, ex),
                                },
                                ex,
                            ),
                        ),
                        None => None,
                    }
                } else {
                    None
                }
            },
            None => None,
        }
    }
}

/// A statement (an expression and `;`) or an expression.
pub open spec fn p_soe(s: Seq<char>, i: int) -> Option<(Spanned<PValV>, int)>
    decreases s.len() - i, 3nat,
{
    if !(0 <= i <= s.len()) {
        None
    } else {
        match p_expr(s, i) {
            Some((x, e)) => {
                let c = sk(s, e);
                if at(s, c, ';') {
                    Some((Spanned { node: PValV::Stmt(Box::new(x)), span: sp(s, i, c + 1) }, c + 1))
                } else {
                    Some((x, e))
                }
            },
            None => None,
        }
    }
}

/// Statements and expressions from `j` on, after those in `acc`; gives them and the position
/// after the last.
pub open spec fn p_stmts(s: Seq<char>, j: int, acc: Seq<Spanned<PValV>>) -> (Seq<Spanned<PValV>>, int)
    decreases s.len() - j, 4nat,
{
    if !(0 <= j <= s.len()) {
        (acc, j)
    } else {
        match p_soe(s, j) {
            Some((x, e)) => {
                let n = sk(s, e);
                if j < n <= s.len() {
                    p_stmts(s, n, acc.push(x))
                } else {
                    (acc, j)
                }
            },
            None => (acc, j),
        }
    }
}

/// A grouping.
pub open spec fn p_group(s: Seq<char>, i: int) -> Option<(Spanned<PValV>, int)>
    decreases s.len() - i, 1nat,
{
    let j = sk(s, i + 1);
    if !(0 <= i <= s.len()) || !at(s, i, '{') || !fwd(s, i, j) {
        None
    } else {
        let (stmts, e) = p_stmts(s, j, Seq::empty());
        let c = sk(s, e);
        if at(s, c, '}') && c >= i {
            let r = sk(s, c + 1);
            let b = sk(s, r + 1);
            let (redirect, end) = if at(s, r, '<') && fwd(s, i, b) {
                match p_expr(s, b) {
                    Some((x, ex)) => (Some(Box::new(x)), ex),
                    None => (None, c + 1),
                }
            } else {
                (None, c + 1)
            };
            Some((Spanned { node: PValV::Grouping { stmts, redirect }, span: sp(s, i, end) }, end))
        } else {
            None
        }
    }
}

/// A match arm.
pub open spec fn p_arm(s: Seq<char>, i: int) -> Option<(Spanned<ArmV>, int)>
    decreases s.len() - i, 1nat,
{
    let w: int = if lit(s, i, "ok"@) {
        2
    } else if lit(s, i, "err"@) {
        3
    } else {
        0
    };
    if !(0 <= i <= s.len()) || w == 0 {
        None
    } else {
        match p_ident(s, sk(s, i + w)) {
            Some((id, e)) => {
                let q = sk(s, e);
                let b = sk(s, q + 1);
                if at(s, q, '=') && fwd(s, i, b) {
                    match p_expr(s, b) {
                        Some((x, ex)) => Some(
                            (
                                Spanned {
                                    node: ArmV {
                                        is_ok: w == 2,
                                        res: Spanned { node: s.subrange(i, i + w), span: sp(s, i, i + w) },
                                        inner: id,
                                        expr: Box::new(x),
                                    },
                                    span: sp(s, i, ex),
                                },
                                ex,
                            ),
                        ),
                        None => None,
                    }
                } else {
                    None
                }
            },
            None => None,
        }
    }
}

/// The arms after those in `acc`, the last of which ended at `e`.
pub open spec fn p_arms_more(s: Seq<char>, e: int, acc: Seq<Spanned<ArmV>>) -> (Seq<Spanned<ArmV>>, int)
    decreases s.len() - e, 0nat,
{
    let c = sk(s, e);
    let n = sk(s, c + 1);
    if 0 <= e <= s.len() && at(s, c, ',') && fwd(s, e, n) {
        match p_arm(s, n) {
            Some((a, ea)) => if e < ea <= s.len() {
                p_arms_more(s, ea, acc.push(a))
            } else {
                (acc, e)
            },
            None => (acc, c + 1),
        }
    } else {
        (acc, e)
    }
}

/// A match.
pub open spec fn p_match(s: Seq<char>, i: int) -> Option<(Spanned<PValV>, int)>
    decreases s.len() - i, 1nat,
{
    let a = sk(s, i + 5);
    let j = sk(s, a + 1);
    if !(0 <= i <= s.len()) || !lit(s, i, "match"@) || !at(s, a, '(') || !fwd(s, i, j) {
        None
    } else {
        match p_expr(s, j) {
            Some((x, ex)) => {
                let b = sk(s, ex);
                let d = sk(s, b + 1);
                let f = sk(s, d + 1);
                if at(s, b, ')') && at(s, d, '{') && fwd(s, i, f) {
                    match p_arm(s, f) {
                        Some((first, e1)) => if i <= e1 <= s.len() {
                            let (arms, e) = p_arms_more(s, e1, seq![first]);
                            let g = sk(s, e);
                            if at(s, g, '}') {
                                Some(
                                    (
                                        Spanned {
                                            node: PValV::Match { expr: Box::new(x), arms },
                                            span: sp(s, i, g + 1),
                                        },
                                        g + 1,
                                    ),
                                )
                            } else {
                                None
                            }
                        } else {
                            None
                        },
                        None => None,
                    }
                } else {
                    None
                }
            },
            None => None,
        }
    }
}

/// A loop.
pub open spec fn p_for(s: Seq<char>, i: int) -> Option<(Spanned<PValV>, int)>
    decreases s.len() - i, 1nat,
{
    let a = sk(s, i + 3);
    let j = sk(s, a + 1);
    if !(0 <= i <= s.len()) || !lit(s, i, "for"@) || !at(s, a, '(') {
        None
    } else {
        match p_ident(s, j) {
            Some((id, e)) => {
                let n = sk(s, e);
                let k = sk(s, n + 2);
                if lit(s, n, "in"@) && fwd(s, i, k) {
                    match p_expr(s, k) {
                        Some((x, ex)) => {
                            let b = sk(s, ex);
                            let bd = sk(s, b + 1);
                            if at(s, b, ')') && fwd(s, i, bd) {
                                match p_expr(s, bd) {
                                    Some((body, eb)) => Some(
                                        (
                                            Spanned {
                                                node: PValV::For {
                                                    bind: id,
                                                    iter: Box::new(x),
                                                    head: sp(s, j, ex),
                                                    body: Box::new(body),
                                                },
                                                span: sp(s, i, eb),
                                            },
                                            eb,
                                        ),
                                    ),
                                    None => None,
                                }
                            } else {
                                None
                            }
                        },
                        None => None,
                    }
                } else {
                    None
                }
            },
            None => None,
        }
    }
}

/// An array literal.
pub open spec fn p_array(s: Seq<char>, i: int) -> Option<(Spanned<AtomV>, int)>
    decreases s.len() - i, 0nat,
{
    let k = sk(s, i + 1);
    if !(0 <= i <= s.len()) || !at(s, i, '[') || !fwd(s, i, k) {
        None
    } else {
        let (args, e) = match p_args(s, k) {
            Some((a, ea)) => (Some(a), ea),
            None => (None, i + 1),
        };
        let c = sk(s, e);
        if at(s, c, ']') {
            let span = sp(s, i, c + 1);
            let items = match args {
                Some(a) => a,
                None => Spanned { node: Seq::empty(), span },
            };
            Some((Spanned { node: AtomV::Array(Spanned { node: items, span }), span }, c + 1))
        } else {
            None
        }
    }
}

/// A value: an identifier or a literal.
pub open spec fn p_value(s: Seq<char>, i: int) -> Option<(Spanned<PValV>, int)>
    decreases s.len() - i, 1nat,
{
    if !(0 <= i <= s.len()) {
        None
    } else {
        let atom: Option<(AtomV, int)> = match p_ident(s, i) {
            Some((id, e)) => Some((AtomV::Ident(id), e)),
            None => match p_integer(s, i) {
                Some((n, e)) => Some((AtomV::Integer(n), e)),
                None => match p_string(s, i) {
                    Some((t, e)) => Some((AtomV::Str(t), e)),
                    None => match p_array(s, i) {
                        Some((a, e)) => Some((a.node, e)),
                        None => match p_unit(s, i) {
                            Some((u, e)) => Some((AtomV::Unit(u), e)),
                            None => None,
                        },
                    },
                },
            },
        };
        match atom {
            Some((a, e)) => Some(
                (Spanned { node: PValV::Atomic(Spanned { node: a, span: sp(s, i, e) }), span: sp(s, i, e) }, e),
            ),
            None => None,
        }
    }
}

/// A whole program: its statements and expressions, with nothing but white space and comments
/// after them.
pub open spec fn p_program(s: Seq<char>) -> Option<Seq<Spanned<PValV>>> {
    let (items, e) = p_stmts(s, sk(s, 0), Seq::empty());
    if sk(s, e) == s.len() {
        Some(items)
    } else {
        None
    }
}

} // verus!
