//! The parser: it reads a program text by the grammar of `syntax.rs` and builds the syntax
//! tree. Each rule is a function that reads from a position and is proved to give exactly the
//! tree and end position that the grammar gives; the functions that build a node from the text
//! of a single token come first.
use vstd::prelude::*;
use crate::interpreter::functions::arrays::utf8_len;
use crate::interpreter::functions::itoa::{IntErrorKind, int_error_message, parse_usize, spec_parse_usize};
use crate::parse::source::Source;
use crate::parse::syntax::{
    p_args, p_args_more, p_arm, p_arms_more, p_array, p_assign, p_call, p_def, p_expr, p_for,
    p_group, p_ident, p_integer, p_match, p_name, p_param, p_params, p_params_more, p_program,
    p_soe, p_stmts, p_string, p_type, p_unit, p_value, sk, sp,
};
use crate::parse::types::{
    ArgV, ArmV, AtomV, BPArr, For, FuncArg, FuncCall, FuncLet, Grouping, Let, Match, PAtomic,
    PForInner, PMatchArm, PMatchCase, PType, PVal, PValV, Span, Spanned, TypeV, args_v, arm_v,
    arms_v, atom_v, lemma_arms_v_push, lemma_list_v_push, list_v, spv, text_v, type_v,
};
use crate::text::push_str;
use crate::typing::types::{display, is_word_type, spec_from_ptype};

verus! {

/// The parser of Diamond programs.
pub struct DIParser;

/// A token that the parser could not read, with why and where.
#[derive(Debug)]
pub struct ParseError {
    pub message: String,
    pub span: Span,
}

/// The type that a type name stands for, if it is one: `stream`, `string`, `file`, `unit`,
/// `integer`, `unret` or `any`.
pub open spec fn spec_atomic_type(text: Seq<char>) -> Option<nat> {
    if text == "stream"@ {
        Some(0)
    } else if text == "string"@ {
        Some(1)
    } else if text == "file"@ {
        Some(2)
    } else if text == "unit"@ {
        Some(3)
    } else if text == "integer"@ {
        Some(4)
    } else if text == "unret"@ {
        Some(5)
    } else if text == "any"@ {
        Some(6)
    } else {
        None
    }
}

fn str_eq(a: &str, b: &str) -> (r: bool)
    ensures
        r == (a@ == b@),
{
    let x = String::from_str(a);
    let y = String::from_str(b);
    x == y
}

impl DIParser {
    /// An integer literal; a numeral too large for a `usize` is an error with std's message.
    pub fn integer(text: &str, span: Span) -> (r: Result<PAtomic, ParseError>)
        ensures
            match spec_parse_usize(text@) {
                Ok(n) => r matches Ok(PAtomic::Integer(i)) && i.node == n as usize && i.span == span,
                Err(k) => r matches Err(e) && e.message@ == int_error_message(k) && e.span == span,
            },
    {
        match parse_usize(text) {
            Ok(n) => Ok(PAtomic::Integer(Spanned::new(n, span))),
            Err(k) => {
                let message = match k {
                    IntErrorKind::Empty => String::from_str("cannot parse integer from empty string"),
                    IntErrorKind::InvalidDigit => String::from_str("invalid digit found in string"),
                    IntErrorKind::PosOverflow => String::from_str("number too large to fit in target type"),
                };
                Err(ParseError { message, span })
            },
        }
    }

    /// An identifier.
    pub fn ident(text: &str, span: Span) -> (r: PAtomic)
        ensures
            r matches PAtomic::Ident(i) && i.node@ == text@ && i.span == span,
    {
        PAtomic::Ident(Spanned::new(String::from_str(text), span))
    }

    /// The text between the quotes of a string literal.
    pub fn inner_string(text: &str) -> (r: &str)
        ensures
            r@ == text@,
    {
        text
    }

    /// A string literal, from the text between its quotes and the span of the whole literal.
    pub fn string_lit(inner: &str, span: Span) -> (r: PAtomic)
        ensures
            r matches PAtomic::String(s) && s.node@ == inner@ && s.span == span,
    {
        PAtomic::String(Spanned::new(String::from_str(DIParser::inner_string(inner)), span))
    }

    /// The unit literal `()`.
    pub fn unit_lit(text: &str, span: Span) -> (r: PAtomic)
        ensures
            r matches PAtomic::Unit(u) && u.node@ == text@ && u.span == span,
    {
        PAtomic::Unit(Spanned::new(String::from_str(text), span))
    }

    /// A type name; any other word is an error that quotes it.
    pub fn atomic_type(text: &str, span: Span) -> (r: Result<PType, ParseError>)
        ensures
            match spec_atomic_type(text@) {
                Some(k) => r matches Ok(t) && (match t {
                    PType::Stream(s) => k == 0 && s.node@ == text@ && s.span == span,
                    PType::String(s) => k == 1 && s.node@ == text@ && s.span == span,
                    PType::File(s) => k == 2 && s.node@ == text@ && s.span == span,
                    PType::Unit(s) => k == 3 && s.node@ == text@ && s.span == span,
                    PType::Integer(s) => k == 4 && s.node@ == text@ && s.span == span,
                    PType::Unret(s) => k == 5 && s.node@ == text@ && s.span == span,
                    PType::Any(s) => k == 6 && s.node@ == text@ && s.span == span,
                    _ => false,
                }),
                None => r matches Err(e) && e.message@ == text@ && e.span == span,
            },
            r matches Ok(t) ==> is_word_type(spec_from_ptype(t)) && display(spec_from_ptype(t)) == text@,
    {
        let txt = Spanned::new(String::from_str(text), span);
        if str_eq(text, "stream") {
            Ok(PType::Stream(txt))
        } else if str_eq(text, "string") {
            Ok(PType::String(txt))
        } else if str_eq(text, "file") {
            Ok(PType::File(txt))
        } else if str_eq(text, "unit") {
            Ok(PType::Unit(txt))
        } else if str_eq(text, "integer") {
            Ok(PType::Integer(txt))
        } else if str_eq(text, "unret") {
            Ok(PType::Unret(txt))
        } else if str_eq(text, "any") {
            Ok(PType::Any(txt))
        } else {
            Err(ParseError { message: String::from_str(text), span })
        }
    }

    /// The type `result(ok, err)`.
    pub fn result_type(ok: PType, err: PType, span: Span) -> (r: PType)
        ensures
            r matches PType::Result(p) && *p.node.0 == ok && *p.node.1 == err && p.span == span,
    {
        PType::Result(Spanned::new((Box::new(ok), Box::new(err)), span))
    }

    /// The type `[inner]`.
    pub fn type_array(inner: PType, span: Span) -> (r: PType)
        ensures
            r matches PType::Array(a) && *a.node == inner && a.span == span,
    {
        PType::Array(Spanned::new(Box::new(inner), span))
    }

    /// Which branch of a result a match arm takes: `ok` or `err`.
    pub fn result_branch(text: &str, span: Span) -> (r: PMatchCase)
        requires
            text@ == "ok"@ || text@ == "err"@,
        ensures
            text@ == "ok"@ ==> (r matches PMatchCase::OkBranch(s) && s.node@ == text@ && s.span == span),
            text@ == "err"@ ==> (r matches PMatchCase::ErrBranch(s) && s.node@ == text@ && s.span == span),
    {
        proof {
            reveal_strlit("ok");
            reveal_strlit("err");
            assert("ok"@.len() != "err"@.len());
        }
        let txt = Spanned::new(String::from_str(text), span);
        if str_eq(text, "ok") {
            PMatchCase::OkBranch(txt)
        } else {
            PMatchCase::ErrBranch(txt)
        }
    }

    /// The mark `~internal` of a function whose body the interpreter provides.
    pub fn internal() -> (b: bool)
        ensures
            b,
    {
        true
    }

    /// The unwrap mark `!` after a call.
    pub fn result_unwrap(span: Span) -> (r: Spanned<bool>)
        ensures
            r.node && r.span == span,
    {
        Spanned::new(true, span)
    }

    /// The name of a called function, `@name`: the name as an identifier node, spanned over
    /// the sigil and the name.
    pub fn func_sigil_and_name(name: Spanned<PAtomic>, span: Span) -> (r: Spanned<PVal>)
        ensures
            r.node == PVal::Atomic(name),
            r.span == span,
    {
        Spanned::new(PVal::Atomic(name), span)
    }
}


/// The mathematical form of a spanned text read up to a position.
pub open spec fn text_at(r: Option<(Spanned<String>, usize)>) -> Option<(Spanned<Seq<char>>, int)> {
    match r {
        Some((t, e)) => Some((text_v(t), e as int)),
        None => None,
    }
}

/// The mathematical form of a node read up to a position.
pub open spec fn tree_at(r: Option<(Spanned<PVal>, usize)>) -> Option<(Spanned<PValV>, int)> {
    match r {
        Some((v, e)) => Some((spv(v.node, v.span), e as int)),
        None => None,
    }
}

/// The mathematical form of a type read up to a position.
pub open spec fn type_at(r: Option<(PType, usize)>) -> Option<(TypeV, int)> {
    match r {
        Some((t, e)) => Some((type_v(t), e as int)),
        None => None,
    }
}

/// Whether what was read ends within the text.
pub open spec fn ends_within<T>(r: Option<(T, usize)>, n: nat) -> bool {
    match r {
        Some((_, e)) => e <= n,
        None => true,
    }
}

impl DIParser {
    fn read_ident(src: &Source, i: usize) -> (r: Option<(Spanned<String>, usize)>)
        requires
            src.wf(),
            i <= src.text().len(),
        ensures
            text_at(r) == p_ident(src.text(), i as int),
            ends_within(r, src.text().len()),
    {
        if !src.ident_start_at(i) {
            return None;
        }
        let e = src.scan_ident(i + 1);
        let w = src.slice(i, e);
        if str_eq(w.as_str(), "let") || str_eq(w.as_str(), "for") || str_eq(w.as_str(), "match")
            || str_eq(w.as_str(), "in") {
            return None;
        }
        let span = src.span(i, e);
        Some((Spanned::new(w, span), e))
    }

    fn read_integer(src: &Source, i: usize) -> (r: Option<(Spanned<usize>, usize)>)
        requires
            src.wf(),
            i <= src.text().len(),
        ensures
            match r {
                Some((n, e)) => p_integer(src.text(), i as int) == Some((n, e as int)),
                None => p_integer(src.text(), i as int) is None,
            },
            ends_within(r, src.text().len()),
    {
        if !src.digit_at(i) {
            return None;
        }
        let e = src.scan_digits(i + 1);
        let w = src.slice(i, e);
        match parse_usize(w.as_str()) {
            Ok(n) => Some((Spanned::new(n, src.span(i, e)), e)),
            Err(_) => None,
        }
    }

    fn read_string(src: &Source, i: usize) -> (r: Option<(Spanned<String>, usize)>)
        requires
            src.wf(),
            i <= src.text().len(),
        ensures
            text_at(r) == p_string(src.text(), i as int),
            ends_within(r, src.text().len()),
    {
        if !src.at(i, '"') {
            return None;
        }
        let k = src.scan_quote(i + 1);
        if !src.at(k, '"') {
            return None;
        }
        let inner = src.slice(i + 1, k);
        Some((Spanned::new(inner, src.span(i, k + 1)), k + 1))
    }

    fn read_unit(src: &Source, i: usize) -> (r: Option<(Spanned<String>, usize)>)
        requires
            src.wf(),
            i <= src.text().len(),
        ensures
            text_at(r) == p_unit(src.text(), i as int),
            ends_within(r, src.text().len()),
    {
        if !(src.at(i, '(') && src.at(i + 1, ')')) {
            return None;
        }
        Some((Spanned::new(src.slice(i, i + 2), src.span(i, i + 2)), i + 2))
    }

    fn read_name(src: &Source, i: usize) -> (r: Option<(Spanned<PVal>, usize)>)
        requires
            src.wf(),
            i <= src.text().len(),
        ensures
            tree_at(r) == p_name(src.text(), i as int),
            ends_within(r, src.text().len()),
    {
        let j = if src.at(i, '@') {
            i + 1
        } else {
            i
        };
        match DIParser::read_ident(src, j) {
            Some((id, e)) => {
                let ghost idv = text_v(id);
                let idspan = id.span;
                let name = Spanned::new(PAtomic::Ident(id), idspan);
                assert(atom_v(name.node) == AtomV::Ident(idv));
                Some((DIParser::func_sigil_and_name(name, src.span(i, e)), e))
            },
            None => None,
        }
    }

    fn read_type(src: &Source, i: usize) -> (r: Option<(PType, usize)>)
        requires
            src.wf(),
            i <= src.text().len(),
        ensures
            type_at(r) == p_type(src.text(), i as int),
            ends_within(r, src.text().len()),
        decreases src.text().len() - i,
    {
        proof {
            reveal_strlit("result");
        }
        if src.at(i, '[') {
            let j = src.skip(i + 1);
            match DIParser::read_type(src, j) {
                Some((t, e)) => {
                    let k = src.skip(e);
                    if src.at(k, ']') {
                        Some((DIParser::type_array(t, src.span(i, k + 1)), k + 1))
                    } else {
                        None
                    }
                },
                None => None,
            }
        } else if src.lit(i, "result") && src.at(src.skip(i + 6), '(') {
            let j = src.skip(src.skip(i + 6) + 1);
            match DIParser::read_type(src, j) {
                Some((ok, e1)) => {
                    let c = src.skip(e1);
                    if !src.at(c, ',') {
                        return None;
                    }
                    let j2 = src.skip(c + 1);
                    if !(i < j2) {
                        return None;
                    }
                    match DIParser::read_type(src, j2) {
                        Some((err, e2)) => {
                            let d = src.skip(e2);
                            if src.at(d, ')') {
                                Some((DIParser::result_type(ok, err, src.span(i, d + 1)), d + 1))
                            } else {
                                None
                            }
                        },
                        None => None,
                    }
                },
                None => None,
            }
        } else if src.alpha_at(i) {
            let e = src.scan_alpha(i + 1);
            let w = src.slice(i, e);
            match DIParser::atomic_type(w.as_str(), src.span(i, e)) {
                Ok(t) => Some((t, e)),
                Err(_) => None,
            }
        } else {
            None
        }
    }

    fn read_param(src: &Source, i: usize) -> (r: Option<(FuncArg, usize)>)
        requires
            src.wf(),
            i <= src.text().len(),
        ensures
            match r {
                Some((a, e)) => p_param(src.text(), i as int) == Some((ArgV { name: text_v(a.name), ty: type_v(a.ty) }, e as int)),
                None => p_param(src.text(), i as int) is None,
            },
            ends_within(r, src.text().len()),
    {
        match DIParser::read_ident(src, i) {
            Some((id, e)) => {
                let c = src.skip(e);
                if !src.at(c, ':') {
                    return None;
                }
                match DIParser::read_type(src, src.skip(c + 1)) {
                    Some((ty, et)) => Some((FuncArg { name: id, ty }, et)),
                    None => None,
                }
            },
            None => None,
        }
    }

    fn read_params(src: &Source, i: usize) -> (r: Option<(Spanned<Vec<FuncArg>>, usize)>)
        requires
            src.wf(),
            i <= src.text().len(),
        ensures
            match r {
                Some((ps, e)) => p_params(src.text(), i as int) == Some((Spanned { node: args_v(ps.node@), span: ps.span }, e as int)),
                None => p_params(src.text(), i as int) is None,
            },
            ends_within(r, src.text().len()),
    {
        let ghost s = src.text();
        let (first, mut e) = match DIParser::read_param(src, i) {
            Some(p) => p,
            None => return None,
        };
        let mut items: Vec<FuncArg> = Vec::new();
        items.push(first);
        assert(args_v(items@) =~= seq![ArgV { name: text_v(first.name), ty: type_v(first.ty) }]);
        let ghost target = p_params_more(s, e as int, args_v(items@));
        assert(p_params(s, i as int) == Some((Spanned { node: target.0, span: sp(s, i as int, target.1) }, target.1)));
        loop
            invariant
                p_params(s, i as int) == Some((Spanned { node: target.0, span: sp(s, i as int, target.1) }, target.1)),
                src.wf(),
                s == src.text(),
                i <= s.len(),
                e <= s.len(),
                target == p_params_more(s, e as int, args_v(items@)),
            decreases s.len() - e,
        {
            let c = src.skip(e);
            if !src.at(c, ',') {
                assert(target == (args_v(items@), e as int));
                let span = src.span(i, e);
                return Some((Spanned::new(items, span), e));
            }
            match DIParser::read_param(src, src.skip(c + 1)) {
                Some((a, ea)) => {
                    if !(e < ea) {
                        assert(target == (args_v(items@), e as int));
                        let span = src.span(i, e);
                        return Some((Spanned::new(items, span), e));
                    }
                    let ghost av = ArgV { name: text_v(a.name), ty: type_v(a.ty) };
                    let ghost before = args_v(items@);
                    items.push(a);
                    assert(args_v(items@) =~= before.push(av));
                    e = ea;
                },
                None => {
                    let end = c + 1;
                    assert(target == (args_v(items@), end as int));
                    let span = src.span(i, end);
                    return Some((Spanned::new(items, span), end));
                },
            }
        }
    }
}


impl DIParser {
    /// An expression.
    fn expr(src: &Source, i: usize) -> (r: Option<(Spanned<PVal>, usize)>)
        requires
            src.wf(),
            i <= src.text().len(),
        ensures
            tree_at(r) == p_expr(src.text(), i as int),
            ends_within(r, src.text().len()),
        decreases src.text().len() - i, 2nat,
    {
        if let Some(r) = DIParser::func_expr(src, i) {
            return Some(r);
        }
        if let Some(r) = DIParser::func_def_expr(src, i) {
            return Some(r);
        }
        if let Some(r) = DIParser::assign_expr(src, i) {
            return Some(r);
        }
        if let Some(r) = DIParser::grouping(src, i) {
            return Some(r);
        }
        if let Some(r) = DIParser::match_expr(src, i) {
            return Some(r);
        }
        if let Some(r) = DIParser::for_expr(src, i) {
            return Some(r);
        }
        DIParser::value(src, i)
    }

    /// A function call.
    fn func_expr(src: &Source, i: usize) -> (r: Option<(Spanned<PVal>, usize)>)
        requires
            src.wf(),
            i <= src.text().len(),
        ensures
            tree_at(r) == p_call(src.text(), i as int),
            ends_within(r, src.text().len()),
        decreases src.text().len() - i, 1nat,
    {
        let (name, e) = match DIParser::read_name(src, i) {
            Some(p) => p,
            None => return None,
        };
        let k = src.skip(e);
        if !src.at(k, '(') {
            return None;
        }
        let k2 = src.skip(k + 1);
        if !(i < k2) {
            return None;
        }
        let (args, e2) = match DIParser::func_call_args(src, k2) {
            Some((a, ea)) => (Some(a), ea),
            None => (None, k + 1),
        };
        let c = src.skip(e2);
        if !src.at(c, ')') {
            return None;
        }
        let u = src.skip(c + 1);
        let (unwrap, end) = if src.at(u, '!') {
            (Some(DIParser::result_unwrap(src.span(u, u + 1))), u + 1)
        } else {
            (None, c + 1)
        };
        let call = FuncCall::new(name.into_boxed(), args, unwrap);
        let span = src.span(i, end);
        Some((Spanned::new(PVal::FuncCall(call), span), end))
    }

    /// The arguments of a call or the elements of an array.
    fn func_call_args(src: &Source, i: usize) -> (r: Option<(BPArr, usize)>)
        requires
            src.wf(),
            i <= src.text().len(),
        ensures
            match r {
                Some((a, e)) => p_args(src.text(), i as int) == Some((Spanned { node: list_v(a.node@), span: a.span }, e as int)),
                None => p_args(src.text(), i as int) is None,
            },
            ends_within(r, src.text().len()),
        decreases src.text().len() - i, 3nat,
    {
        let (x, e) = match DIParser::expr(src, i) {
            Some(p) => p,
            None => return None,
        };
        if !(i <= e) {
            return None;
        }
        let mut acc: Vec<Spanned<PVal>> = Vec::new();
        proof {
            lemma_list_v_push(acc@, x);
            assert(list_v(acc@) == Seq::<Spanned<PValV>>::empty());
        }
        acc.push(x);
        let (items, end) = DIParser::args_more(src, e, acc);
        let span = src.span(i, end);
        Some((Spanned::new(items, span), end))
    }

    /// The arguments after those in `acc`, the last of which ended at `e`.
    fn args_more(src: &Source, e: usize, acc: Vec<Spanned<PVal>>) -> (r: (Vec<Spanned<PVal>>, usize))
        requires
            src.wf(),
            e <= src.text().len(),
        ensures
            (list_v(r.0@), r.1 as int) == p_args_more(src.text(), e as int, list_v(acc@)),
            r.1 <= src.text().len(),
        decreases src.text().len() - e, 0nat,
    {
        let c = src.skip(e);
        if !src.at(c, ',') {
            return (acc, e);
        }
        let n = src.skip(c + 1);
        if !(e < n) {
            return (acc, e);
        }
        match DIParser::expr(src, n) {
            Some((x, ex)) => {
                if e < ex {
                    let mut acc = acc;
                    proof {
                        lemma_list_v_push(acc@, x);
                    }
                    acc.push(x);
                    DIParser::args_more(src, ex, acc)
                } else {
                    (acc, e)
                }
            },
            None => (acc, c + 1),
        }
    }

    /// A function definition.
    fn func_def_expr(src: &Source, i: usize) -> (r: Option<(Spanned<PVal>, usize)>)
        requires
            src.wf(),
            i <= src.text().len(),
        ensures
            tree_at(r) == p_def(src.text(), i as int),
            ends_within(r, src.text().len()),
        decreases src.text().len() - i, 1nat,
    {
        proof {
            reveal_strlit("let");
            reveal_strlit("~internal");
        }
        if !src.lit(i, "let") {
            return None;
        }
        let a = src.skip(i + 3);
        let (internal, n0) = if src.lit(a, "~internal") {
            (DIParser::internal(), src.skip(a + 9))
        } else {
            (false, a)
        };
        let (name, e) = match DIParser::read_name(src, n0) {
            Some(p) => p,
            None => return None,
        };
        let k = src.skip(e);
        if !src.at(k, '(') {
            return None;
        }
        let k2 = src.skip(k + 1);
        let (args, e2) = match DIParser::read_params(src, k2) {
            Some((ps, ep)) => (Some(ps), ep),
            None => (None, k + 1),
        };
        let c = src.skip(e2);
        if !src.at(c, ')') {
            return None;
        }
        let r = src.skip(c + 1);
        let (ret, e3) = if src.at(r, ':') {
            match DIParser::read_type(src, src.skip(r + 1)) {
                Some((t, et)) => (Some(t), et),
                None => (None, c + 1),
            }
        } else {
            (None, c + 1)
        };
        let q = src.skip(e3);
        if !src.at(q, '=') {
            return None;
        }
        let b = src.skip(q + 1);
        if !(i < b) {
            return None;
        }
        let (body, eb) = match DIParser::expr(src, b) {
            Some(p) => p,
            None => return None,
        };
        let f = FuncLet::new(name.into_boxed(), args, ret, body.into_boxed(), internal);
        let span = src.span(i, eb);
        Some((Spanned::new(PVal::FuncLet(f), span), eb))
    }

    /// An assignment.
    fn assign_expr(src: &Source, i: usize) -> (r: Option<(Spanned<PVal>, usize)>)
        requires
            src.wf(),
            i <= src.text().len(),
        ensures
            tree_at(r) == p_assign(src.text(), i as int),
            ends_within(r, src.text().len()),
        decreases src.text().len() - i, 1nat,
    {
        proof {
            reveal_strlit("let");
        }
        if !src.lit(i, "let") {
            return None;
        }
        let (id, e) = match DIParser::read_ident(src, src.skip(i + 3)) {
            Some(p) => p,
            None => return None,
        };
        let q = src.skip(e);
        if !src.at(q, '=') {
            return None;
        }
        let b = src.skip(q + 1);
        if !(i < b) {
            return None;
        }
        let (x, ex) = match DIParser::expr(src, b) {
            Some(p) => p,
            None => return None,
        };
        let l = Let::new(id, x.into_boxed());
        let span = src.span(i, ex);
        Some((Spanned::new(PVal::Let(l), span), ex))
    }

    /// A statement or an expression.
    fn stmt_or_expr(src: &Source, i: usize) -> (r: Option<(Spanned<PVal>, usize)>)
        requires
            src.wf(),
            i <= src.text().len(),
        ensures
            tree_at(r) == p_soe(src.text(), i as int),
            ends_within(r, src.text().len()),
        decreases src.text().len() - i, 3nat,
    {
        let (x, e) = match DIParser::expr(src, i) {
            Some(p) => p,
            None => return None,
        };
        let c = src.skip(e);
        if src.at(c, ';') {
            let span = src.span(i, c + 1);
            Some((Spanned::new(PVal::Stmt(x.into_boxed()), span), c + 1))
        } else {
            Some((x, e))
        }
    }

    /// Statements and expressions from `j` on, after those in `acc`.
    fn stmts(src: &Source, j: usize, acc: Vec<Spanned<PVal>>) -> (r: (Vec<Spanned<PVal>>, usize))
        requires
            src.wf(),
            j <= src.text().len(),
        ensures
            (list_v(r.0@), r.1 as int) == p_stmts(src.text(), j as int, list_v(acc@)),
            r.1 <= src.text().len(),
        decreases src.text().len() - j, 4nat,
    {
        match DIParser::stmt_or_expr(src, j) {
            Some((x, e)) => {
                let n = src.skip(e);
                if j < n {
                    let mut acc = acc;
                    proof {
                        lemma_list_v_push(acc@, x);
                    }
                    acc.push(x);
                    DIParser::stmts(src, n, acc)
                } else {
                    (acc, j)
                }
            },
            None => (acc, j),
        }
    }

    /// A grouping.
    fn grouping(src: &Source, i: usize) -> (r: Option<(Spanned<PVal>, usize)>)
        requires
            src.wf(),
            i <= src.text().len(),
        ensures
            tree_at(r) == p_group(src.text(), i as int),
            ends_within(r, src.text().len()),
        decreases src.text().len() - i, 1nat,
    {
        if !src.at(i, '{') {
            return None;
        }
        let j = src.skip(i + 1);
        if !(i < j) {
            return None;
        }
        let empty: Vec<Spanned<PVal>> = Vec::new();
        assert(list_v(empty@) == Seq::<Spanned<PValV>>::empty());
        let (items, e) = DIParser::stmts(src, j, empty);
        let c = src.skip(e);
        if !(src.at(c, '}') && c >= i) {
            return None;
        }
        let r = src.skip(c + 1);
        let (redirect, end) = if src.at(r, '<') {
            let b = src.skip(r + 1);
            if i < b {
                match DIParser::expr(src, b) {
                    Some((x, ex)) => (Some(x.into_boxed()), ex),
                    None => (None, c + 1),
                }
            } else {
                (None, c + 1)
            }
        } else {
            (None, c + 1)
        };
        let g = Grouping::new(items, redirect);
        let span = src.span(i, end);
        Some((Spanned::new(PVal::Grouping(g), span), end))
    }

    /// A match arm.
    fn match_arm(src: &Source, i: usize) -> (r: Option<(Spanned<PMatchArm>, usize)>)
        requires
            src.wf(),
            i <= src.text().len(),
        ensures
            match r {
                Some((a, e)) => p_arm(src.text(), i as int) == Some((arm_v(a), e as int)),
                None => p_arm(src.text(), i as int) is None,
            },
            ends_within(r, src.text().len()),
        decreases src.text().len() - i, 1nat,
    {
        proof {
            reveal_strlit("ok");
            reveal_strlit("err");
        }
        let w: usize = if src.lit(i, "ok") {
            2
        } else if src.lit(i, "err") {
            3
        } else {
            return None;
        };
        let (id, e) = match DIParser::read_ident(src, src.skip(i + w)) {
            Some(p) => p,
            None => return None,
        };
        let q = src.skip(e);
        if !src.at(q, '=') {
            return None;
        }
        let b = src.skip(q + 1);
        if !(i < b) {
            return None;
        }
        let (x, ex) = match DIParser::expr(src, b) {
            Some(p) => p,
            None => return None,
        };
        let word = src.slice(i, i + w);
        let res = DIParser::result_branch(word.as_str(), src.span(i, i + w));
        let arm = PMatchArm { res, inner: id, expr: x.into_boxed() };
        let span = src.span(i, ex);
        Some((Spanned::new(arm, span), ex))
    }

    /// The arms after those in `acc`, the last of which ended at `e`.
    fn arms_more(src: &Source, e: usize, acc: Vec<Spanned<PMatchArm>>) -> (r: (Vec<Spanned<PMatchArm>>, usize))
        requires
            src.wf(),
            e <= src.text().len(),
        ensures
            (arms_v(r.0@), r.1 as int) == p_arms_more(src.text(), e as int, arms_v(acc@)),
            r.1 <= src.text().len(),
        decreases src.text().len() - e, 0nat,
    {
        let c = src.skip(e);
        if !src.at(c, ',') {
            return (acc, e);
        }
        let n = src.skip(c + 1);
        if !(e < n) {
            return (acc, e);
        }
        match DIParser::match_arm(src, n) {
            Some((a, ea)) => {
                if e < ea {
                    let mut acc = acc;
                    proof {
                        lemma_arms_v_push(acc@, a);
                    }
                    acc.push(a);
                    DIParser::arms_more(src, ea, acc)
                } else {
                    (acc, e)
                }
            },
            None => (acc, c + 1),
        }
    }

    /// A match.
    fn match_expr(src: &Source, i: usize) -> (r: Option<(Spanned<PVal>, usize)>)
        requires
            src.wf(),
            i <= src.text().len(),
        ensures
            tree_at(r) == p_match(src.text(), i as int),
            ends_within(r, src.text().len()),
        decreases src.text().len() - i, 1nat,
    {
        proof {
            reveal_strlit("match");
        }
        if !src.lit(i, "match") {
            return None;
        }
        let a = src.skip(i + 5);
        if !src.at(a, '(') {
            return None;
        }
        let j = src.skip(a + 1);
        if !(i < j) {
            return None;
        }
        let (x, ex) = match DIParser::expr(src, j) {
            Some(p) => p,
            None => return None,
        };
        let b = src.skip(ex);
        if !src.at(b, ')') {
            return None;
        }
        let d = src.skip(b + 1);
        if !src.at(d, '{') {
            return None;
        }
        let f = src.skip(d + 1);
        if !(i < f) {
            return None;
        }
        let (first, e1) = match DIParser::match_arm(src, f) {
            Some(p) => p,
            None => return None,
        };
        if !(i <= e1) {
            return None;
        }
        let mut acc: Vec<Spanned<PMatchArm>> = Vec::new();
        proof {
            lemma_arms_v_push(acc@, first);
            assert(arms_v(acc@) == Seq::<Spanned<ArmV>>::empty());
        }
        acc.push(first);
        let (arms, e) = DIParser::arms_more(src, e1, acc);
        let g = src.skip(e);
        if !src.at(g, '}') {
            return None;
        }
        let m = Match::new(x.into_boxed(), arms);
        let span = src.span(i, g + 1);
        Some((Spanned::new(PVal::Match(m), span), g + 1))
    }

    /// A loop.
    fn for_expr(src: &Source, i: usize) -> (r: Option<(Spanned<PVal>, usize)>)
        requires
            src.wf(),
            i <= src.text().len(),
        ensures
            tree_at(r) == p_for(src.text(), i as int),
            ends_within(r, src.text().len()),
        decreases src.text().len() - i, 1nat,
    {
        proof {
            reveal_strlit("for");
            reveal_strlit("in");
        }
        if !src.lit(i, "for") {
            return None;
        }
        let a = src.skip(i + 3);
        if !src.at(a, '(') {
            return None;
        }
        let j = src.skip(a + 1);
        let (id, e) = match DIParser::read_ident(src, j) {
            Some(p) => p,
            None => return None,
        };
        let n = src.skip(e);
        if !src.lit(n, "in") {
            return None;
        }
        let k = src.skip(n + 2);
        if !(i < k) {
            return None;
        }
        let (x, ex) = match DIParser::expr(src, k) {
            Some(p) => p,
            None => return None,
        };
        let b = src.skip(ex);
        if !src.at(b, ')') {
            return None;
        }
        let bd = src.skip(b + 1);
        if !(i < bd) {
            return None;
        }
        let (body, eb) = match DIParser::expr(src, bd) {
            Some(p) => p,
            None => return None,
        };
        let head = Spanned::new(PForInner { bind: id, expr: x.into_boxed() }, src.span(j, ex));
        let f = For::new(head, body.into_boxed());
        let span = src.span(i, eb);
        Some((Spanned::new(PVal::For(f), span), eb))
    }

    /// An array literal.
    fn array_lit(src: &Source, i: usize) -> (r: Option<(Spanned<PAtomic>, usize)>)
        requires
            src.wf(),
            i <= src.text().len(),
        ensures
            match r {
                Some((a, e)) => p_array(src.text(), i as int) == Some((Spanned { node: atom_v(a.node), span: a.span }, e as int)),
                None => p_array(src.text(), i as int) is None,
            },
            ends_within(r, src.text().len()),
        decreases src.text().len() - i, 0nat,
    {
        if !src.at(i, '[') {
            return None;
        }
        let k = src.skip(i + 1);
        if !(i < k) {
            return None;
        }
        let (args, e) = match DIParser::func_call_args(src, k) {
            Some((a, ea)) => (Some(a), ea),
            None => (None, i + 1),
        };
        let c = src.skip(e);
        if !src.at(c, ']') {
            return None;
        }
        let span = src.span(i, c + 1);
        let items = match args {
            Some(a) => a,
            None => {
                let empty: Vec<Spanned<PVal>> = Vec::new();
                assert(list_v(empty@) == Seq::<Spanned<PValV>>::empty());
                Spanned::new(empty, span)
            },
        };
        Some((Spanned::new(PAtomic::Array(Spanned::new(items, span)), span), c + 1))
    }

    /// A value: an identifier or a literal.
    fn value(src: &Source, i: usize) -> (r: Option<(Spanned<PVal>, usize)>)
        requires
            src.wf(),
            i <= src.text().len(),
        ensures
            tree_at(r) == p_value(src.text(), i as int),
            ends_within(r, src.text().len()),
        decreases src.text().len() - i, 1nat,
    {
        let (atom, e) = if let Some((id, e)) = DIParser::read_ident(src, i) {
            let ghost v = AtomV::Ident(text_v(id));
            let a = PAtomic::Ident(id);
            assert(atom_v(a) == v);
            (a, e)
        } else if let Some((n, e)) = DIParser::read_integer(src, i) {
            let a = PAtomic::Integer(n);
            assert(atom_v(a) == AtomV::Integer(n));
            (a, e)
        } else if let Some((t, e)) = DIParser::read_string(src, i) {
            let ghost v = AtomV::Str(text_v(t));
            let a = PAtomic::String(t);
            assert(atom_v(a) == v);
            (a, e)
        } else if let Some((arr, e)) = DIParser::array_lit(src, i) {
            (arr.node, e)
        } else if let Some((u, e)) = DIParser::read_unit(src, i) {
            let ghost v = AtomV::Unit(text_v(u));
            let a = PAtomic::Unit(u);
            assert(atom_v(a) == v);
            (a, e)
        } else {
            return None;
        };
        let span = src.span(i, e);
        Some((Spanned::new(PVal::Atomic(Spanned::new(atom, span)), span), e))
    }
}


/// The rules that a text can be read as on its own.
#[allow(non_camel_case_types)]
#[derive(Debug, Clone, Copy, PartialEq, Eq, Structural)]
pub enum Rule {
    expr,
    stmt_or_expr,
    func_expr,
    func_def_expr,
    assign_expr,
    grouping,
    match_expr,
    for_expr,
    value,
}

/// What the rule `rule` reads from position `i`.
#[verifier::opaque]
pub open spec fn p_rule(rule: Rule, s: Seq<char>, i: int) -> Option<(Spanned<PValV>, int)> {
    match rule {
        Rule::expr => p_expr(s, i),
        Rule::stmt_or_expr => p_soe(s, i),
        Rule::func_expr => p_call(s, i),
        Rule::func_def_expr => p_def(s, i),
        Rule::assign_expr => p_assign(s, i),
        Rule::grouping => p_group(s, i),
        Rule::match_expr => p_match(s, i),
        Rule::for_expr => p_for(s, i),
        Rule::value => p_value(s, i),
    }
}

/// The position where a program stops being readable: after its last statement or
/// expression, and the white space after it.
pub open spec fn program_stop(s: Seq<char>) -> int {
    sk(s, p_stmts(s, sk(s, 0), Seq::empty()).1)
}

/// The message for a text too large to have its byte offsets counted.
pub open spec fn too_large_message() -> Seq<char> {
    "the program is too large"@
}

/// The message for a program that cannot be read past a point.
pub open spec fn unreadable_message(file: Seq<char>) -> Seq<char> {
    file + ": expected a statement, an expression or the end of the file"@
}

/// The message for a text that the rule does not read.
pub open spec fn rule_message() -> Seq<char> {
    "the text is not of the rule"@
}

impl DIParser {
    /// The syntax tree of the program `input`, read from the file `file`: its statements and
    /// expressions, in order. A program that cannot be read past a point is an error that
    /// points there.
    pub fn parse_di(input: &str, file: &str) -> (r: Result<Vec<Spanned<PVal>>, ParseError>)
        ensures
            match r {
                Ok(v) => utf8_len(input@) <= usize::MAX && p_program(input@) == Some(list_v(v@)),
                Err(e) => utf8_len(input@) > usize::MAX && e.message@ == too_large_message()
                    && e.span == Span { start: 0, end: 0 }
                    || utf8_len(input@) <= usize::MAX && p_program(input@) is None
                    && e.message@ == unreadable_message(file@)
                    && e.span == sp(input@, program_stop(input@), program_stop(input@)),
            },
    {
        let src = match Source::new(input) {
            Some(src) => src,
            None => {
                return Err(ParseError { message: String::from_str("the program is too large"), span: Span::new(0, 0) });
            },
        };
        let start = src.skip(0);
        let empty: Vec<Spanned<PVal>> = Vec::new();
        assert(list_v(empty@) == Seq::<Spanned<PValV>>::empty());
        let (items, e) = DIParser::stmts(&src, start, empty);
        let stop = src.skip(e);
        if stop == src.len() {
            Ok(items)
        } else {
            let mut message = String::from_str(file);
            push_str(&mut message, ": expected a statement, an expression or the end of the file");
            Err(ParseError { message, span: src.span(stop, stop) })
        }
    }

    #[verifier::spinoff_prover]
    fn read_rule(src: &Source, rule: Rule) -> (r: Option<(Spanned<PVal>, usize)>)
        requires
            src.wf(),
        ensures
            tree_at(r) == p_rule(rule, src.text(), 0),
    {
        reveal(p_rule);
        match rule {
            Rule::expr => DIParser::expr(src, 0),
            Rule::stmt_or_expr => DIParser::stmt_or_expr(src, 0),
            Rule::func_expr => DIParser::func_expr(src, 0),
            Rule::func_def_expr => DIParser::func_def_expr(src, 0),
            Rule::assign_expr => DIParser::assign_expr(src, 0),
            Rule::grouping => DIParser::grouping(src, 0),
            Rule::match_expr => DIParser::match_expr(src, 0),
            Rule::for_expr => DIParser::for_expr(src, 0),
            Rule::value => DIParser::value(src, 0),
        }
    }

    /// The syntax tree that the rule `rule` reads from the start of `input` (what follows it
    /// is left unread).
    pub fn parse_rule(rule: Rule, input: &str) -> (r: Result<Spanned<PVal>, ParseError>)
        ensures
            match r {
                Ok(v) => utf8_len(input@) <= usize::MAX && (p_rule(rule, input@, 0) matches Some((t, _))
                    && t == spv(v.node, v.span)),
                Err(e) => utf8_len(input@) > usize::MAX && e.message@ == too_large_message()
                    && e.span == Span { start: 0, end: 0 }
                    || utf8_len(input@) <= usize::MAX && p_rule(rule, input@, 0) is None
                    && e.message@ == rule_message() && e.span == Span { start: 0, end: 0 },
            },
    {
        let src = match Source::new(input) {
            Some(src) => src,
            None => {
                return Err(ParseError { message: String::from_str("the program is too large"), span: Span::new(0, 0) });
            },
        };
        let r = DIParser::read_rule(&src, rule);
        match r {
            Some((v, e)) => {
                assert(p_rule(rule, input@, 0) == Some((spv(v.node, v.span), e as int)));
                Ok(v)
            },
            None => Err(ParseError { message: String::from_str("the text is not of the rule"), span: Span::new(0, 0) }),
        }
    }
}

} // verus!
