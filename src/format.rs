//! The schema algebra for field types, and the resolver that maps a declared
//! type expression onto it.

use vstd::prelude::*;
use crate::text::is_word;

verus! {

broadcast use vstd::std_specs::vec::group_vec_axioms;

/// A declared field type, as the source spells it.
pub enum TypeExpr {
    /// A path type, by its last segment: `std::collections::BTreeMap<K, V>`
    /// is `BTreeMap` with the type arguments `K` and `V`.
    Path { ident: String, type_args: Vec<TypeExpr> },
    /// A tuple type `(A, B, ...)`.
    Tuple { elems: Vec<TypeExpr> },
    /// An array type `[T; N]`; `text` is the whole expression as written.
    Array { elem: Box<TypeExpr>, len: ArrayLen, text: String },
    /// Any other type expression, as written.
    Other { text: String },
}

/// The length of an array type.
pub enum ArrayLen {
    /// An integer literal, with its value where that fits a `usize`.
    Int(Option<usize>),
    /// Any other expression.
    Expr,
}

#[derive(Clone, Copy, Debug, PartialEq, Eq, Structural)]
pub enum Primitive {
    U8,
    U16,
    U32,
    U64,
    U128,
    I8,
    I16,
    I32,
    I64,
    I128,
    F32,
    F64,
    Bool,
    Char,
    Str,
}

/// The shape of a field type.
#[derive(Debug)]
pub enum TypeFormat {
    Primitive(Primitive),
    Optional(Box<TypeFormat>),
    Sequence(Box<TypeFormat>),
    Dictionary { key: Box<TypeFormat>, value: Box<TypeFormat> },
    Tuple(Vec<TypeFormat>),
    FixedArray { content: Box<TypeFormat>, size: usize },
    /// A type known only by name: another declaration, or a foreign type.
    NamedReference(String),
    /// A generic whose type arguments are missing or of the wrong number.
    Unresolved(String),
}

/// The mathematical value of a `TypeFormat`.
pub enum FormatView {
    Primitive(Primitive),
    Optional(Box<FormatView>),
    Sequence(Box<FormatView>),
    Dictionary(Box<FormatView>, Box<FormatView>),
    Tuple(Seq<FormatView>),
    FixedArray(Box<FormatView>, nat),
    NamedReference(Seq<char>),
    Unresolved(Seq<char>),
}

pub open spec fn format_view(f: TypeFormat) -> FormatView
    decreases f,
{
    match f {
        TypeFormat::Primitive(p) => FormatView::Primitive(p),
        TypeFormat::Optional(inner) => FormatView::Optional(Box::new(format_view(*inner))),
        TypeFormat::Sequence(inner) => FormatView::Sequence(Box::new(format_view(*inner))),
        TypeFormat::Dictionary { key, value } => FormatView::Dictionary(
            Box::new(format_view(*key)),
            Box::new(format_view(*value)),
        ),
        TypeFormat::Tuple(elems) => FormatView::Tuple(
            Seq::new(
                elems@.len(),
                |i: int|
                    if 0 <= i < elems@.len() {
                        format_view(elems[i])
                    } else {
                        FormatView::Unresolved(Seq::empty())
                    },
            ),
        ),
        TypeFormat::FixedArray { content, size } => FormatView::FixedArray(
            Box::new(format_view(*content)),
            size as nat,
        ),
        TypeFormat::NamedReference(name) => FormatView::NamedReference(name@),
        TypeFormat::Unresolved(text) => FormatView::Unresolved(text@),
    }
}

impl View for TypeFormat {
    type V = FormatView;

    open spec fn view(&self) -> FormatView {
        format_view(*self)
    }
}

/// The primitive that a type name stands for, matched exactly.
pub open spec fn primitive_named(name: Seq<char>) -> Option<Primitive> {
    if name == "u8"@ {
        Some(Primitive::U8)
    } else if name == "u16"@ {
        Some(Primitive::U16)
    } else if name == "u32"@ {
        Some(Primitive::U32)
    } else if name == "u64"@ {
        Some(Primitive::U64)
    } else if name == "u128"@ {
        Some(Primitive::U128)
    } else if name == "i8"@ {
        Some(Primitive::I8)
    } else if name == "i16"@ {
        Some(Primitive::I16)
    } else if name == "i32"@ {
        Some(Primitive::I32)
    } else if name == "i64"@ {
        Some(Primitive::I64)
    } else if name == "i128"@ {
        Some(Primitive::I128)
    } else if name == "f32"@ {
        Some(Primitive::F32)
    } else if name == "f64"@ {
        Some(Primitive::F64)
    } else if name == "bool"@ {
        Some(Primitive::Bool)
    } else if name == "char"@ {
        Some(Primitive::Char)
    } else if name == "String"@ {
        Some(Primitive::Str)
    } else {
        None
    }
}

/// The shape that a declared type resolves to.
pub open spec fn resolved(t: TypeExpr) -> FormatView
    decreases t,
{
    match t {
        TypeExpr::Path { ident, type_args } => {
            if primitive_named(ident@) is Some {
                FormatView::Primitive(primitive_named(ident@)->Some_0)
            } else if ident@ == "Option"@ {
                if type_args@.len() > 0 {
                    FormatView::Optional(Box::new(resolved(type_args[0])))
                } else {
                    FormatView::Unresolved("Option<?>"@)
                }
            } else if ident@ == "Vec"@ {
                if type_args@.len() > 0 {
                    FormatView::Sequence(Box::new(resolved(type_args[0])))
                } else {
                    FormatView::Unresolved("Vec<?>"@)
                }
            } else if ident@ == "BTreeMap"@ {
                if type_args@.len() == 2 {
                    FormatView::Dictionary(
                        Box::new(resolved(type_args[0])),
                        Box::new(resolved(type_args[1])),
                    )
                } else {
                    FormatView::Unresolved("BTreeMap<?, ?>"@)
                }
            } else {
                FormatView::NamedReference(ident@)
            }
        },
        TypeExpr::Tuple { elems } => FormatView::Tuple(
            Seq::new(
                elems@.len(),
                |i: int|
                    if 0 <= i < elems@.len() {
                        resolved(elems[i])
                    } else {
                        FormatView::Unresolved(Seq::empty())
                    },
            ),
        ),
        TypeExpr::Array { elem, len, text } => match len {
            ArrayLen::Int(Some(n)) => FormatView::FixedArray(Box::new(resolved(*elem)), n as nat),
            _ => FormatView::NamedReference(text@),
        },
        TypeExpr::Other { text } => FormatView::NamedReference(text@),
    }
}

fn primitive_of(name: &String) -> (r: Option<Primitive>)
    ensures
        r == primitive_named(name@),
{
    if is_word(name, "u8") {
        Some(Primitive::U8)
    } else if is_word(name, "u16") {
        Some(Primitive::U16)
    } else if is_word(name, "u32") {
        Some(Primitive::U32)
    } else if is_word(name, "u64") {
        Some(Primitive::U64)
    } else if is_word(name, "u128") {
        Some(Primitive::U128)
    } else if is_word(name, "i8") {
        Some(Primitive::I8)
    } else if is_word(name, "i16") {
        Some(Primitive::I16)
    } else if is_word(name, "i32") {
        Some(Primitive::I32)
    } else if is_word(name, "i64") {
        Some(Primitive::I64)
    } else if is_word(name, "i128") {
        Some(Primitive::I128)
    } else if is_word(name, "f32") {
        Some(Primitive::F32)
    } else if is_word(name, "f64") {
        Some(Primitive::F64)
    } else if is_word(name, "bool") {
        Some(Primitive::Bool)
    } else if is_word(name, "char") {
        Some(Primitive::Char)
    } else if is_word(name, "String") {
        Some(Primitive::Str)
    } else {
        None
    }
}

/// Resolves a declared field type into its schema shape. Every type
/// expression resolves: what is not recognised becomes a named reference,
/// and a generic with missing arguments an unresolved placeholder.
pub fn to_type_format(ty: &TypeExpr) -> (r: TypeFormat)
    ensures
        r@ == resolved(*ty),
    decreases ty,
{
    match ty {
        TypeExpr::Path { ident, type_args } => {
            match primitive_of(ident) {
                Some(p) => TypeFormat::Primitive(p),
                None => {
                    if is_word(ident, "Option") {
                        if type_args.len() > 0 {
                            proof {
                                assert(decreases_to!(*ty => (*ty)->type_args));
                            }
                            let inner = to_type_format(&type_args[0]);
                            TypeFormat::Optional(Box::new(inner))
                        } else {
                            TypeFormat::Unresolved(String::from_str("Option<?>"))
                        }
                    } else if is_word(ident, "Vec") {
                        if type_args.len() > 0 {
                            proof {
                                assert(decreases_to!(*ty => (*ty)->type_args));
                            }
                            let inner = to_type_format(&type_args[0]);
                            TypeFormat::Sequence(Box::new(inner))
                        } else {
                            TypeFormat::Unresolved(String::from_str("Vec<?>"))
                        }
                    } else if is_word(ident, "BTreeMap") {
                        if type_args.len() == 2 {
                            proof {
                                assert(decreases_to!(*ty => (*ty)->type_args));
                            }
                            let key = to_type_format(&type_args[0]);
                            let value = to_type_format(&type_args[1]);
                            TypeFormat::Dictionary { key: Box::new(key), value: Box::new(value) }
                        } else {
                            TypeFormat::Unresolved(String::from_str("BTreeMap<?, ?>"))
                        }
                    } else {
                        TypeFormat::NamedReference(ident.clone())
                    }
                },
            }
        },
        TypeExpr::Tuple { elems } => {
            let mut formats: Vec<TypeFormat> = Vec::new();
            let mut i: usize = 0;
            while i < elems.len()
                invariant
                    0 <= i <= elems.len(),
                    *ty == (TypeExpr::Tuple { elems: *elems }),
                    formats@.len() == i,
                    forall|j: int| 0 <= j < i ==> #[trigger] formats[j]@ == resolved(elems[j]),
                decreases elems.len() - i,
            {
                proof {
                    assert(decreases_to!(*ty => (*ty)->elems));
                }
                let f = to_type_format(&elems[i]);
                formats.push(f);
                i += 1;
            }
            let r = TypeFormat::Tuple(formats);
            proof {
                assert(r@ == resolved(*ty)) by {
                    if let FormatView::Tuple(a) = r@ {
                        if let FormatView::Tuple(b) = resolved(*ty) {
                            assert forall|j: int| 0 <= j < a.len() implies a[j] == b[j] by {
                                assert(formats[j]@ == resolved(elems[j]));
                            }
                            assert(a =~= b);
                        }
                    }
                }
            }
            r
        },
        TypeExpr::Array { elem, len, text } => {
            match len {
                ArrayLen::Int(Some(n)) => {
                    let content = to_type_format(elem);
                    TypeFormat::FixedArray { content: Box::new(content), size: *n }
                },
                _ => TypeFormat::NamedReference(text.clone()),
            }
        },
        TypeExpr::Other { text } => TypeFormat::NamedReference(text.clone()),
    }
}

pub open spec fn digit_char(d: int) -> char {
    if d == 0 {
        '0'
    } else if d == 1 {
        '1'
    } else if d == 2 {
        '2'
    } else if d == 3 {
        '3'
    } else if d == 4 {
        '4'
    } else if d == 5 {
        '5'
    } else if d == 6 {
        '6'
    } else if d == 7 {
        '7'
    } else if d == 8 {
        '8'
    } else {
        '9'
    }
}

/// The decimal digits of `n`.
pub open spec fn decimal(n: nat) -> Seq<char>
    decreases n,
{
    if n < 10 {
        seq![digit_char(n as int)]
    } else {
        decimal(n / 10) + seq![digit_char((n % 10) as int)]
    }
}

pub open spec fn primitive_text(p: Primitive) -> Seq<char> {
    match p {
        Primitive::U8 => "u8"@,
        Primitive::U16 => "u16"@,
        Primitive::U32 => "u32"@,
        Primitive::U64 => "u64"@,
        Primitive::U128 => "u128"@,
        Primitive::I8 => "i8"@,
        Primitive::I16 => "i16"@,
        Primitive::I32 => "i32"@,
        Primitive::I64 => "i64"@,
        Primitive::I128 => "i128"@,
        Primitive::F32 => "f32"@,
        Primitive::F64 => "f64"@,
        Primitive::Bool => "bool"@,
        Primitive::Char => "char"@,
        Primitive::Str => "String"@,
    }
}

/// A shape written back as a type signature: `Option<Vec<u8>>`,
/// `BTreeMap<String, u32>`, `(u8, bool)`, `[u8; 4]`.
pub open spec fn format_text(f: FormatView) -> Seq<char>
    decreases f,
{
    match f {
        FormatView::Primitive(p) => primitive_text(p),
        FormatView::Optional(x) => "Option"@ + "<"@ + format_text(*x) + ">"@,
        FormatView::Sequence(x) => "Vec"@ + "<"@ + format_text(*x) + ">"@,
        FormatView::Dictionary(k, v) => "BTreeMap"@ + "<"@ + format_text(*k) + ", "@ + format_text(
            *v,
        ) + ">"@,
        FormatView::Tuple(es) => "("@ + formats_text(es) + ")"@,
        FormatView::FixedArray(x, n) => "["@ + format_text(*x) + "; "@ + decimal(n) + "]"@,
        FormatView::NamedReference(name) => name,
        FormatView::Unresolved(text) => text,
    }
}

/// Shapes written back and joined with `, `.
pub open spec fn formats_text(es: Seq<FormatView>) -> Seq<char>
    decreases es,
{
    if es.len() == 0 {
        Seq::empty()
    } else if es.len() == 1 {
        format_text(es[0])
    } else {
        formats_text(es.subrange(0, es.len() - 1)) + ", "@ + format_text(es[es.len() - 1])
    }
}

/// A declared type written out from its parts, with each path by its last
/// segment.
pub open spec fn type_text(t: TypeExpr) -> Seq<char>
    decreases t,
{
    match t {
        TypeExpr::Path { ident, type_args } => if type_args@.len() == 0 {
            ident@
        } else {
            ident@ + "<"@ + types_text(type_args@) + ">"@
        },
        TypeExpr::Tuple { elems } => "("@ + types_text(elems@) + ")"@,
        TypeExpr::Array { elem, len, text } => match len {
            ArrayLen::Int(Some(n)) => "["@ + type_text(*elem) + "; "@ + decimal(n as nat) + "]"@,
            _ => text@,
        },
        TypeExpr::Other { text } => text@,
    }
}

/// Declared types written out and joined with `, `.
pub open spec fn types_text(ts: Seq<TypeExpr>) -> Seq<char>
    decreases ts,
{
    if ts.len() == 0 {
        Seq::empty()
    } else if ts.len() == 1 {
        type_text(ts[0])
    } else {
        types_text(ts.subrange(0, ts.len() - 1)) + ", "@ + type_text(ts[ts.len() - 1])
    }
}

/// Whether a declared type is built from primitives, `Option`, `Vec`,
/// `BTreeMap`, tuples and arrays of literal length alone, each generic with
/// the number of type arguments it takes.
pub open spec fn is_plain(t: TypeExpr) -> bool
    decreases t,
{
    match t {
        TypeExpr::Path { ident, type_args } => if primitive_named(ident@) is Some {
            type_args@.len() == 0
        } else if ident@ == "Option"@ || ident@ == "Vec"@ {
            type_args@.len() == 1 && is_plain(type_args[0])
        } else if ident@ == "BTreeMap"@ {
            type_args@.len() == 2 && is_plain(type_args[0]) && is_plain(type_args[1])
        } else {
            false
        },
        TypeExpr::Tuple { elems } => forall|i: int|
            0 <= i < elems@.len() ==> is_plain(#[trigger] elems[i]),
        TypeExpr::Array { elem, len, .. } => match len {
            ArrayLen::Int(Some(_)) => is_plain(*elem),
            _ => false,
        },
        TypeExpr::Other { .. } => false,
    }
}

proof fn lemma_lists_text(es: Seq<FormatView>, ts: Seq<TypeExpr>)
    requires
        es.len() == ts.len(),
        forall|i: int| 0 <= i < es.len() ==> format_text(#[trigger] es[i]) == type_text(ts[i]),
    ensures
        formats_text(es) == types_text(ts),
    decreases es.len(),
{
    if es.len() > 1 {
        let ep = es.subrange(0, es.len() - 1);
        let tp = ts.subrange(0, ts.len() - 1);
        assert forall|i: int| 0 <= i < ep.len() implies format_text(#[trigger] ep[i]) == type_text(
            tp[i],
        ) by {
            assert(ep[i] == es[i]);
            assert(tp[i] == ts[i]);
        }
        lemma_lists_text(ep, tp);
        assert(format_text(es[es.len() - 1]) == type_text(ts[ts.len() - 1]));
    } else if es.len() == 1 {
        assert(format_text(es[0]) == type_text(ts[0]));
    }
}

proof fn lemma_primitive_text(name: Seq<char>)
    requires
        primitive_named(name) is Some,
    ensures
        primitive_text(primitive_named(name)->Some_0) == name,
{
}

/// A type built from primitives, optionals, sequences, maps, tuples and
/// fixed arrays resolves to a shape that, written back as a signature,
/// reads as the declared type.
pub proof fn lemma_resolve_round_trip(t: TypeExpr)
    requires
        is_plain(t),
    ensures
        format_text(resolved(t)) == type_text(t),
    decreases t,
{
    match t {
        TypeExpr::Path { ident, type_args } => {
            if primitive_named(ident@) is Some {
                lemma_primitive_text(ident@);
            } else {
                reveal_strlit("Option");
                reveal_strlit("Vec");
                reveal_strlit("BTreeMap");
                assert(decreases_to!(t => t->type_args));
                lemma_resolve_round_trip(type_args[0]);
                if ident@ == "BTreeMap"@ {
                    assert("BTreeMap"@.len() == 8);
                    assert(ident@ != "Option"@ && ident@ != "Vec"@);
                    lemma_resolve_round_trip(type_args[1]);
                    let ts = type_args@;
                    assert(ts.subrange(0, 1)[0] == ts[0]);
                    assert(types_text(ts.subrange(0, 1)) == type_text(ts[0]));
                    assert(types_text(ts) == type_text(ts[0]) + ", "@ + type_text(ts[1]));
                    assert(format_text(resolved(t)) == type_text(t));
                } else {
                    assert(type_args@.len() == 1);
                    assert(types_text(type_args@) == type_text(type_args@[0]));
                    assert(format_text(resolved(t)) == type_text(t));
                }
            }
        },
        TypeExpr::Tuple { elems } => {
            let rs = resolved(t)->Tuple_0;
            assert forall|i: int| 0 <= i < rs.len() implies format_text(#[trigger] rs[i])
                == type_text(elems@[i]) by {
                assert(decreases_to!(t => t->elems));
                assert(is_plain(elems[i]));
                lemma_resolve_round_trip(elems[i]);
            }
            lemma_lists_text(rs, elems@);
            assert(format_text(resolved(t)) == type_text(t));
        },
        TypeExpr::Array { elem, len, text } => {
            lemma_resolve_round_trip(*elem);
        },
        TypeExpr::Other { .. } => {},
    }
}

fn digit_str(d: usize) -> (r: &'static str)
    requires
        d < 10,
    ensures
        r@ == seq![digit_char(d as int)],
{
    proof {
        reveal_strlit("0");
        reveal_strlit("1");
        reveal_strlit("2");
        reveal_strlit("3");
        reveal_strlit("4");
        reveal_strlit("5");
        reveal_strlit("6");
        reveal_strlit("7");
        reveal_strlit("8");
        reveal_strlit("9");
    }
    if d == 0 {
        "0"
    } else if d == 1 {
        "1"
    } else if d == 2 {
        "2"
    } else if d == 3 {
        "3"
    } else if d == 4 {
        "4"
    } else if d == 5 {
        "5"
    } else if d == 6 {
        "6"
    } else if d == 7 {
        "7"
    } else if d == 8 {
        "8"
    } else {
        "9"
    }
}

/// The decimal digits of `n`.
pub fn decimal_text(n: usize) -> (r: String)
    ensures
        r@ == decimal(n as nat),
    decreases n,
{
    let mut out = if n >= 10 {
        decimal_text(n / 10)
    } else {
        String::new()
    };
    out.append(digit_str(n % 10));
    out
}

fn primitive_str(p: Primitive) -> (r: &'static str)
    ensures
        r@ == primitive_text(p),
{
    match p {
        Primitive::U8 => "u8",
        Primitive::U16 => "u16",
        Primitive::U32 => "u32",
        Primitive::U64 => "u64",
        Primitive::U128 => "u128",
        Primitive::I8 => "i8",
        Primitive::I16 => "i16",
        Primitive::I32 => "i32",
        Primitive::I64 => "i64",
        Primitive::I128 => "i128",
        Primitive::F32 => "f32",
        Primitive::F64 => "f64",
        Primitive::Bool => "bool",
        Primitive::Char => "char",
        Primitive::Str => "String",
    }
}

impl TypeFormat {
    /// The shape written back as a type signature.
    pub fn signature(&self) -> (r: String)
        ensures
            r@ == format_text(self@),
        decreases self,
    {
        match self {
            TypeFormat::Primitive(p) => String::from_str(primitive_str(*p)),
            TypeFormat::Optional(inner) => {
                let mut out = String::from_str("Option");
                out.append("<");
                let s = inner.signature();
                out.append(s.as_str());
                out.append(">");
                out
            },
            TypeFormat::Sequence(inner) => {
                let mut out = String::from_str("Vec");
                out.append("<");
                let s = inner.signature();
                out.append(s.as_str());
                out.append(">");
                out
            },
            TypeFormat::Dictionary { key, value } => {
                let mut out = String::from_str("BTreeMap");
                out.append("<");
                let k = key.signature();
                out.append(k.as_str());
                out.append(", ");
                let v = value.signature();
                out.append(v.as_str());
                out.append(">");
                out
            },
            TypeFormat::Tuple(elems) => {
                let ghost views = self@->Tuple_0;
                let mut inner = String::new();
                let mut i: usize = 0;
                while i < elems.len()
                    invariant
                        0 <= i <= elems.len(),
                        views == self@->Tuple_0,
                        *self == TypeFormat::Tuple(*elems),
                        views.len() == elems@.len(),
                        forall|j: int| 0 <= j < elems@.len() ==> #[trigger] views[j] == elems[j]@,
                        inner@ == formats_text(views.subrange(0, i as int)),
                    decreases elems.len() - i,
                {
                    proof {
                        assert(decreases_to!(*self => (*self)->Tuple_0));
                        let sub = views.subrange(0, i + 1);
                        assert(sub.subrange(0, sub.len() - 1) =~= views.subrange(0, i as int));
                        assert(sub[sub.len() - 1] == views[i as int]);
                        assert(sub.len() == 1 ==> sub[0] == views[i as int]);
                    }
                    let s = elems[i].signature();
                    if i > 0 {
                        inner.append(", ");
                    }
                    inner.append(s.as_str());
                    i += 1;
                }
                proof {
                    assert(views.subrange(0, views.len() as int) =~= views);
                }
                let mut out = String::from_str("(");
                out.append(inner.as_str());
                out.append(")");
                out
            },
            TypeFormat::FixedArray { content, size } => {
                let mut out = String::from_str("[");
                let c = content.signature();
                out.append(c.as_str());
                out.append("; ");
                let n = decimal_text(*size);
                out.append(n.as_str());
                out.append("]");
                out
            },
            TypeFormat::NamedReference(name) => name.clone(),
            TypeFormat::Unresolved(text) => text.clone(),
        }
    }
}

} // verus!
