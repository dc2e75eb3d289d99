//! The types of Diamond values.
use vstd::prelude::*;
use crate::parse::syntax::named_type;
use crate::parse::types::{PType, TypeV, type_v};

verus! {

/// A Diamond type.
///
/// `Unret` is the type of an expression that never gives a value back (a panic), and `Any` is
/// the type of a parameter that takes every value; both are compatible with every type.
#[derive(Debug)]
pub enum Type {
    String,
    Integer,
    Unit,
    Array(Box<Type>),
    Stream,
    File,
    Result(Box<Type>, Box<Type>),
    Unret,
    Any,
}

/// Whether two types are compatible: `Unret` and `Any` are compatible with every type, other
/// types are compatible with the same type constructor applied to compatible types.
pub open spec fn compatible(a: Type, b: Type) -> bool
    decreases a,
{
    match (a, b) {
        (Type::Unret, _) | (_, Type::Unret) | (Type::Any, _) | (_, Type::Any) => true,
        (Type::String, Type::String) => true,
        (Type::Integer, Type::Integer) => true,
        (Type::Unit, Type::Unit) => true,
        (Type::Stream, Type::Stream) => true,
        (Type::File, Type::File) => true,
        (Type::Array(x), Type::Array(y)) => compatible(*x, *y),
        (Type::Result(x1, y1), Type::Result(x2, y2)) => compatible(*x1, *x2) && compatible(*y1, *y2),
        _ => false,
    }
}

/// Whether two types are compatible.
pub fn types_compatible(a: &Type, b: &Type) -> (r: bool)
    ensures
        r == compatible(*a, *b),
    decreases *a,
{
    match (a, b) {
        (Type::Unret, _) | (_, Type::Unret) | (Type::Any, _) | (_, Type::Any) => true,
        (Type::String, Type::String) => true,
        (Type::Integer, Type::Integer) => true,
        (Type::Unit, Type::Unit) => true,
        (Type::Stream, Type::Stream) => true,
        (Type::File, Type::File) => true,
        (Type::Array(x), Type::Array(y)) => types_compatible(x, y),
        (Type::Result(x1, y1), Type::Result(x2, y2)) => types_compatible(x1, x2) && types_compatible(
            y1,
            y2,
        ),
        _ => false,
    }
}

impl PartialEq for Type {
    fn eq(&self, other: &Self) -> (r: bool) {
        types_compatible(self, other)
    }
}

impl vstd::std_specs::cmp::PartialEqSpecImpl for Type {
    open spec fn obeys_eq_spec() -> bool {
        true
    }

    open spec fn eq_spec(&self, other: &Self) -> bool {
        compatible(*self, *other)
    }
}

impl Clone for Type {
    fn clone(&self) -> (r: Self)
        ensures
            r == *self,
        decreases *self,
    {
        match self {
            Type::String => Type::String,
            Type::Integer => Type::Integer,
            Type::Unit => Type::Unit,
            Type::Array(t) => Type::Array(Box::new((**t).clone())),
            Type::Stream => Type::Stream,
            Type::File => Type::File,
            Type::Result(a, b) => Type::Result(Box::new((**a).clone()), Box::new((**b).clone())),
            Type::Unret => Type::Unret,
            Type::Any => Type::Any,
        }
    }
}

impl Default for Type {
    fn default() -> (r: Self)
        ensures
            r == Type::Unit,
    {
        Type::Unit
    }
}

/// Whether a type is `[any]`, the array of anything.
pub open spec fn spec_is_any_array(t: Type) -> bool {
    match t {
        Type::Array(inner) => *inner == Type::Any,
        _ => false,
    }
}

/// How a type is written in Diamond source.
pub open spec fn display(t: Type) -> Seq<char>
    decreases t,
{
    match t {
        Type::String => "string"@,
        Type::Integer => "integer"@,
        Type::Unit => "unit"@,
        Type::Array(inner) => "["@ + display(*inner) + "]"@,
        Type::Stream => "stream"@,
        Type::File => "file"@,
        Type::Unret => "unret"@,
        Type::Any => "any"@,
        Type::Result(ok, err) => "result("@ + display(*ok) + ", "@ + display(*err) + ")"@,
    }
}

/// The type that a written type denotes.
pub open spec fn spec_from_ptype(p: PType) -> Type
    decreases p,
{
    match p {
        PType::Unit(_) => Type::Unit,
        PType::Integer(_) => Type::Integer,
        PType::File(_) => Type::File,
        PType::Array(inner) => Type::Array(Box::new(spec_from_ptype(*inner.node))),
        PType::Stream(_) => Type::Stream,
        PType::String(_) => Type::String,
        PType::Unret(_) => Type::Unret,
        PType::Any(_) => Type::Any,
        PType::Result(pair) => Type::Result(
            Box::new(spec_from_ptype(*pair.node.0)),
            Box::new(spec_from_ptype(*pair.node.1)),
        ),
    }
}

impl Type {
    /// Whether this is `[any]`, the array of anything.
    pub fn is_any_array(&self) -> (b: bool)
        ensures
            b == spec_is_any_array(*self),
    {
        match self {
            Type::Array(inner) => match **inner {
                Type::Any => true,
                _ => false,
            },
            _ => false,
        }
    }

    /// Whether this is `any`.
    pub fn is_any(&self) -> (b: bool)
        ensures
            b == (*self == Type::Any),
    {
        match self {
            Type::Any => true,
            _ => false,
        }
    }

    /// How the type is written in Diamond source, as error messages show it.
    pub fn as_display_ty(&self) -> (s: String)
        ensures
            s@ == display(*self),
        decreases *self,
    {
        match self {
            Type::String => String::from_str("string"),
            Type::Integer => String::from_str("integer"),
            Type::Unit => String::from_str("unit"),
            Type::Array(inner) => {
                let mut s = String::from_str("[");
                let d = inner.as_display_ty();
                s.append(d.as_str());
                s.append("]");
                s
            },
            Type::Stream => String::from_str("stream"),
            Type::File => String::from_str("file"),
            Type::Unret => String::from_str("unret"),
            Type::Any => String::from_str("any"),
            Type::Result(ok, err) => {
                let mut s = String::from_str("result(");
                let d = ok.as_display_ty();
                s.append(d.as_str());
                s.append(", ");
                let e = err.as_display_ty();
                s.append(e.as_str());
                s.append(")");
                s
            },
        }
    }

    /// The type that a written type denotes.
    pub fn from_ptype(p: &PType) -> (t: Type)
        ensures
            t == spec_from_ptype(*p),
        decreases *p,
    {
        match p {
            PType::Unit(_) => Type::Unit,
            PType::Integer(_) => Type::Integer,
            PType::File(_) => Type::File,
            PType::Array(inner) => Type::Array(Box::new(Type::from_ptype(&inner.node))),
            PType::Stream(_) => Type::Stream,
            PType::String(_) => Type::String,
            PType::Unret(_) => Type::Unret,
            PType::Any(_) => Type::Any,
            PType::Result(pair) => Type::Result(
                Box::new(Type::from_ptype(&pair.node.0)),
                Box::new(Type::from_ptype(&pair.node.1)),
            ),
        }
    }
}

impl From<PType> for Type {
    fn from(p: PType) -> (t: Type) {
        Type::from_ptype(&p)
    }
}

impl vstd::std_specs::convert::FromSpecImpl<PType> for Type {
    open spec fn obeys_from_spec() -> bool {
        true
    }

    open spec fn from_spec(p: PType) -> Type {
        spec_from_ptype(p)
    }
}

/// Every type is compatible with itself.
pub proof fn lemma_compatible_reflexive(t: Type)
    ensures
        compatible(t, t),
    decreases t,
{
    match t {
        Type::Array(inner) => lemma_compatible_reflexive(*inner),
        Type::Result(a, b) => {
            lemma_compatible_reflexive(*a);
            lemma_compatible_reflexive(*b);
        },
        _ => {},
    }
}

/// Compatibility does not depend on the order of the two types.
pub proof fn lemma_compatible_symmetric(a: Type, b: Type)
    ensures
        compatible(a, b) == compatible(b, a),
    decreases a,
{
    match (a, b) {
        (Type::Array(x), Type::Array(y)) => lemma_compatible_symmetric(*x, *y),
        (Type::Result(x1, y1), Type::Result(x2, y2)) => {
            lemma_compatible_symmetric(*x1, *x2);
            lemma_compatible_symmetric(*y1, *y2);
        },
        _ => {},
    }
}

/// `any` and `unret` are compatible with every type, on either side.
pub proof fn lemma_wildcards_compatible(t: Type)
    ensures
        compatible(t, Type::Any),
        compatible(Type::Any, t),
        compatible(t, Type::Unret),
        compatible(Type::Unret, t),
{
}

/// The type that a written type denotes, read off its mathematical form.
pub open spec fn typev_type(v: TypeV) -> Type
    decreases v,
{
    match v {
        TypeV::Unit(_) => Type::Unit,
        TypeV::Integer(_) => Type::Integer,
        TypeV::File(_) => Type::File,
        TypeV::Array(inner) => Type::Array(Box::new(typev_type(*inner.node))),
        TypeV::Stream(_) => Type::Stream,
        TypeV::String(_) => Type::String,
        TypeV::Unret(_) => Type::Unret,
        TypeV::Any(_) => Type::Any,
        TypeV::Result(pair) => Type::Result(
            Box::new(typev_type(*pair.node.0)),
            Box::new(typev_type(*pair.node.1)),
        ),
    }
}

/// A written type and its mathematical form denote the same type.
pub proof fn lemma_typev_type(p: PType)
    ensures
        typev_type(type_v(p)) == spec_from_ptype(p),
    decreases p,
{
    match p {
        PType::Array(inner) => {
            lemma_typev_type(*inner.node);
        },
        PType::Result(pair) => {
            lemma_typev_type(*pair.node.0);
            lemma_typev_type(*pair.node.1);
        },
        _ => {},
    }
}

/// Whether a type is named by a single word: every type but arrays and results.
pub open spec fn is_word_type(t: Type) -> bool {
    !(t is Array) && !(t is Result)
}

/// A type word names the type that is displayed with that word, and only such words name a
/// type: the word a single-word type is displayed with reads back as that type, and a word
/// that reads as a type is the word that type is displayed with.
pub proof fn lemma_type_words_round_trip(t: Type, w: crate::parse::types::Spanned<Seq<char>>)
    ensures
        is_word_type(t) && w.node == display(t) ==> (named_type(w) matches Some(v) && typev_type(v) == t),
        named_type(w) matches Some(v) ==> is_word_type(typev_type(v)) && display(typev_type(v)) == w.node,
{
    reveal_strlit("stream");
    reveal_strlit("string");
    reveal_strlit("file");
    reveal_strlit("unit");
    reveal_strlit("integer");
    reveal_strlit("unret");
    reveal_strlit("any");
    let words = seq!["stream"@, "string"@, "file"@, "unit"@, "integer"@, "unret"@, "any"@];
    assert forall|a: int, b: int| 0 <= a < b < 7 implies words[a] != words[b] by {
        if words[a].len() == words[b].len() {
            assert(words[a][0] != words[b][0] || words[a][3] != words[b][3]);
        }
    }
    if is_word_type(t) && w.node == display(t) {
        match t {
            Type::Stream => assert(w.node == words[0]),
            Type::String => assert(w.node == words[1]),
            Type::File => assert(w.node == words[2]),
            Type::Unit => assert(w.node == words[3]),
            Type::Integer => assert(w.node == words[4]),
            Type::Unret => assert(w.node == words[5]),
            Type::Any => assert(w.node == words[6]),
            _ => {},
        }
    }
}

} // verus!
