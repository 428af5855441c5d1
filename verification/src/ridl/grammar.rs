//! The RIDL grammar over tokens, as functions from a token position to what
//! the rule there yields and the position after it. The grammar is
//! deterministic: each rule decides by the next tokens which alternative
//! applies.
//!
//! ```text
//! idl          := module_decl? definition*
//! module_decl  := "module" dotted ("@" version)? ";"?
//! definition   := interface | class | singleton | enum | struct | callback
//!               | function | using | import
//! interface    := "interface" ident "{" member* "}"
//! class        := "class" ident "{" member* "}"
//! singleton    := "singleton" ident "{" member* "}"
//! member       := function
//!               | "const" ident ":" type "=" literal ";"
//!               | "readonly" "property" ident ":" type ";"
//!               | "property" ident ":" type ";"
//!               | "proto"? "var" ident ":" type ("=" literal)? ";"
//!               | "opaque" "{" (ident ":" type (","|";")?)* "}"
//!               | ident ":" type ";"                       (property)
//!               | ident params ";"                          (constructor)
//! function     := "fn" ident params ("->" type)? ";"
//! enum         := "enum" ident "{" (value ("," value)* ","?)? "}"
//! value        := ident ("=" integer)?
//! struct       := ("json"|"msgpack"|"protobuf")? "struct" ident "{" (field ";")* "}"
//! field        := ident ":" type
//! callback     := "callback" ident params ";"
//! using        := "using" ident "=" type ";"
//! import       := "import" names "from" (string | dotted) ";"
//! params       := "(" (param ("," param)*)? ")"
//! param        := word ":" type
//! type         := postfix ("|" postfix)*
//! postfix      := primary "?"?
//! primary      := "(" type ")" | "array" "<" type ">"
//!               | "map" "<" type "," type ">"
//!               | "callback" (params ("->" type)?)?
//!               | ident "<" type ("," type)* ">"            (generic name)
//!               | name
//! ```

use super::ast::{
    param_view, params_view, type_view, types_view, EnumValueV, FieldV, FunctionV, ImportItemV, ItemV, Param, ParamV,
    PropertyModifier, PropertyV, SerializationFormat, Type, TypeV,
};
use crate::ridl_glue::string_from_chars;
use super::lexer::{TokKind, Token};
use vstd::prelude::*;

verus! {

/// The text of a token.
pub open spec fn tok_text(s: Seq<char>, tok: Token) -> Seq<char> {
    s.subrange(tok.start as int, tok.end as int)
}

/// Whether a token lies within the source.
pub open spec fn tok_in_bounds(s: Seq<char>, tok: Token) -> bool {
    tok.start <= tok.end <= s.len()
}

/// The words that cannot name a definition, member or parameter.
pub open spec fn is_keyword(w: Seq<char>) -> bool {
    ||| w == "interface"@
    ||| w == "class"@
    ||| w == "enum"@
    ||| w == "struct"@
    ||| w == "fn"@
    ||| w == "callback"@
    ||| w == "using"@
    ||| w == "import"@
    ||| w == "from"@
    ||| w == "module"@
    ||| w == "singleton"@
    ||| w == "readonly"@
    ||| w == "property"@
    ||| w == "const"@
    ||| w == "json"@
    ||| w == "msgpack"@
    ||| w == "protobuf"@
    ||| w == "array"@
    ||| w == "map"@
    ||| w == "var"@
    ||| w == "proto"@
    ||| w == "opaque"@
    ||| w == "as"@
}

pub open spec fn punct_at(t: Seq<Token>, i: int, c: char) -> bool {
    0 <= i < t.len() && t[i].kind == TokKind::Punct(c)
}

pub open spec fn arrow_at(t: Seq<Token>, i: int) -> bool {
    0 <= i < t.len() && t[i].kind == TokKind::Arrow
}

pub open spec fn kind_at(t: Seq<Token>, i: int, k: TokKind) -> bool {
    0 <= i < t.len() && t[i].kind == k
}

/// Whether the token at `i` is the word `w`.
pub open spec fn word_at(s: Seq<char>, t: Seq<Token>, i: int, w: Seq<char>) -> bool {
    0 <= i < t.len() && t[i].kind == TokKind::Word && tok_in_bounds(s, t[i]) && tok_text(s, t[i]) == w
}

/// Whether the token at `i` is an identifier: a word that is no keyword.
pub open spec fn ident_at(s: Seq<char>, t: Seq<Token>, i: int) -> bool {
    0 <= i < t.len() && t[i].kind == TokKind::Word && tok_in_bounds(s, t[i]) && !is_keyword(
        tok_text(s, t[i]),
    )
}

/// Whether the token at `i` is a literal: a string, a number, or one of the
/// words `true`, `false`, `null`.
pub open spec fn literal_at(s: Seq<char>, t: Seq<Token>, i: int) -> bool {
    0 <= i < t.len() && tok_in_bounds(s, t[i]) && (t[i].kind == TokKind::Str || t[i].kind
        == TokKind::Int || t[i].kind == TokKind::Float || word_at(s, t, i, "true"@) || word_at(
        s,
        t,
        i,
        "false"@,
    ) || word_at(s, t, i, "null"@))
}

/// The type a name denotes: a basic type, or a custom type of that name.
pub open spec fn named_type(w: Seq<char>) -> TypeV {
    if w == "bool"@ {
        TypeV::Bool
    } else if w == "int"@ {
        TypeV::Int
    } else if w == "float"@ {
        TypeV::Float
    } else if w == "double"@ {
        TypeV::Double
    } else if w == "string"@ {
        TypeV::String
    } else if w == "void"@ {
        TypeV::Void
    } else if w == "object"@ {
        TypeV::Object
    } else if w == "function"@ {
        TypeV::Function
    } else if w == "null"@ {
        TypeV::Null
    } else if w == "any"@ {
        TypeV::Any
    } else {
        TypeV::Custom(w)
    }
}

/// A type: one alternative, or a union of several.
pub open spec fn sp_type(s: Seq<char>, t: Seq<Token>, i: int) -> Option<(TypeV, int)>
    decreases t.len() - i, 4int,
{
    if 0 <= i < t.len() {
        match sp_postfix(s, t, i) {
            Some((a, j)) => if i < j <= t.len() {
                sp_union_rest(s, t, j, seq![a])
            } else {
                None
            },
            None => None,
        }
    } else {
        None
    }
}

/// The alternatives of a union after the first ones, `acc`.
pub open spec fn sp_union_rest(s: Seq<char>, t: Seq<Token>, j: int, acc: Seq<TypeV>) -> Option<
    (TypeV, int),
>
    decreases t.len() - j, 3int,
{
    if 0 <= j < t.len() && punct_at(t, j, '|') {
        match sp_postfix(s, t, j + 1) {
            Some((b, k)) => if j < k <= t.len() {
                sp_union_rest(s, t, k, acc.push(b))
            } else {
                None
            },
            None => None,
        }
    } else if acc.len() == 1 {
        Some((acc[0], j))
    } else {
        Some((TypeV::Union(acc), j))
    }
}

/// A primary type, optionally marked nullable by `?`.
pub open spec fn sp_postfix(s: Seq<char>, t: Seq<Token>, i: int) -> Option<(TypeV, int)>
    decreases t.len() - i, 2int,
{
    if 0 <= i < t.len() {
        match sp_primary(s, t, i) {
            Some((a, j)) => if punct_at(t, j, '?') {
                Some((TypeV::Optional(Box::new(a)), j + 1))
            } else {
                Some((a, j))
            },
            None => None,
        }
    } else {
        None
    }
}

/// A group, array, map, callback, generic or named type.
pub open spec fn sp_primary(s: Seq<char>, t: Seq<Token>, i: int) -> Option<(TypeV, int)>
    decreases t.len() - i, 1int,
{
    if 0 <= i < t.len() {
        if punct_at(t, i, '(') {
            match sp_type(s, t, i + 1) {
                Some((a, j)) => if punct_at(t, j, ')') {
                    Some((TypeV::Group(Box::new(a)), j + 1))
                } else {
                    None
                },
                None => None,
            }
        } else if word_at(s, t, i, "array"@) {
            if punct_at(t, i + 1, '<') {
                match sp_type(s, t, i + 2) {
                    Some((a, j)) => if punct_at(t, j, '>') {
                        Some((TypeV::Array(Box::new(a)), j + 1))
                    } else {
                        None
                    },
                    None => None,
                }
            } else {
                None
            }
        } else if word_at(s, t, i, "map"@) {
            if punct_at(t, i + 1, '<') {
                match sp_type(s, t, i + 2) {
                    Some((k, j)) => if punct_at(t, j, ',') && i < j < t.len() {
                        match sp_type(s, t, j + 1) {
                            Some((v, m)) => if punct_at(t, m, '>') {
                                Some((TypeV::MapType(Box::new(k), Box::new(v)), m + 1))
                            } else {
                                None
                            },
                            None => None,
                        }
                    } else {
                        None
                    },
                    None => None,
                }
            } else {
                None
            }
        } else if word_at(s, t, i, "callback"@) {
            if punct_at(t, i + 1, '(') {
                match sp_params(s, t, i + 1) {
                    Some((_ps, j)) => if arrow_at(t, j) && i < j < t.len() {
                        match sp_type(s, t, j + 1) {
                            Some((_r, m)) => Some((TypeV::Callback, m)),
                            None => None,
                        }
                    } else {
                        Some((TypeV::Callback, j))
                    },
                    None => None,
                }
            } else {
                Some((TypeV::Callback, i + 1))
            }
        } else if ident_at(s, t, i) {
            if punct_at(t, i + 1, '<') {
                match sp_type_args(s, t, i + 2) {
                    Some(m) => if punct_at(t, m, '>') && tok_in_bounds(s, t[m]) && t[i].start <= t[m].end {
                        Some((TypeV::Custom(s.subrange(t[i].start as int, t[m].end as int)), m + 1))
                    } else {
                        None
                    },
                    None => None,
                }
            } else {
                Some((named_type(tok_text(s, t[i])), i + 1))
            }
        } else {
            None
        }
    } else {
        None
    }
}

/// The arguments of a generic type, `type ("," type)*`; the position after them.
pub open spec fn sp_type_args(s: Seq<char>, t: Seq<Token>, j: int) -> Option<int>
    decreases t.len() - j, 5int,
{
    if 0 <= j < t.len() {
        match sp_type(s, t, j) {
            Some((_a, k)) => if punct_at(t, k, ',') && j < k {
                sp_type_args(s, t, k + 1)
            } else {
                Some(k)
            },
            None => None,
        }
    } else {
        None
    }
}

/// A parenthesized parameter list.
pub open spec fn sp_params(s: Seq<char>, t: Seq<Token>, i: int) -> Option<(Seq<ParamV>, int)>
    decreases t.len() - i, 5int,
{
    if 0 <= i < t.len() && punct_at(t, i, '(') {
        if punct_at(t, i + 1, ')') {
            Some((Seq::empty(), i + 2))
        } else {
            match sp_param(s, t, i + 1) {
                Some((p, j)) => if i + 1 < j <= t.len() {
                    sp_params_rest(s, t, j, seq![p])
                } else {
                    None
                },
                None => None,
            }
        }
    } else {
        None
    }
}

/// The parameters after the first ones, `acc`, up to the closing `)`.
pub open spec fn sp_params_rest(s: Seq<char>, t: Seq<Token>, j: int, acc: Seq<ParamV>) -> Option<
    (Seq<ParamV>, int),
>
    decreases t.len() - j, 4int,
{
    if 0 <= j < t.len() {
        if punct_at(t, j, ',') {
            match sp_param(s, t, j + 1) {
                Some((p, k)) => if j < k <= t.len() {
                    sp_params_rest(s, t, k, acc.push(p))
                } else {
                    None
                },
                None => None,
            }
        } else if punct_at(t, j, ')') {
            Some((acc, j + 1))
        } else {
            None
        }
    } else {
        None
    }
}

/// A parameter: a name and its type. A parameter may take any word as its
/// name, `callback` among them.
pub open spec fn sp_param(s: Seq<char>, t: Seq<Token>, i: int) -> Option<(ParamV, int)>
    decreases t.len() - i, 2int,
{
    if 0 <= i < t.len() && any_word_at(s, t, i) && punct_at(t, i + 1, ':') {
        match sp_type(s, t, i + 2) {
            Some((ty, j)) => Some(
                (ParamV { name: tok_text(s, t[i]), param_type: ty, optional: false }, j),
            ),
            None => None,
        }
    } else {
        None
    }
}



/// Whether the token at `i` is a word of any kind, keyword or not.
pub open spec fn any_word_at(s: Seq<char>, t: Seq<Token>, i: int) -> bool {
    0 <= i < t.len() && t[i].kind == TokKind::Word && tok_in_bounds(s, t[i])
}

/// A function signature: `fn name(params) (-> type)? ;`. Without a return
/// type, the function returns `void`.
pub open spec fn sp_fn_sig(s: Seq<char>, t: Seq<Token>, i: int) -> Option<(FunctionV, int)> {
    if word_at(s, t, i, "fn"@) && ident_at(s, t, i + 1) {
        let name = tok_text(s, t[i + 1]);
        match sp_params(s, t, i + 2) {
            Some((ps, j)) => if arrow_at(t, j) {
                match sp_type(s, t, j + 1) {
                    Some((r, k)) => if punct_at(t, k, ';') {
                        Some((FunctionV { name, params: ps, return_type: r, is_async: false }, k + 1))
                    } else {
                        None
                    },
                    None => None,
                }
            } else if punct_at(t, j, ';') {
                Some((FunctionV { name, params: ps, return_type: TypeV::Void, is_async: false }, j + 1))
            } else {
                None
            },
            None => None,
        }
    } else {
        None
    }
}

/// What a member of a class, singleton or interface body contributes.
pub enum MemberV {
    Method(FunctionV),
    Property(PropertyV),
    Constructor(FunctionV),
    Other,
}

/// A property `name: type ;` whose name is at `i`, with the given access.
pub open spec fn sp_prop_tail(s: Seq<char>, t: Seq<Token>, i: int, m: PropertyModifier) -> Option<
    (MemberV, int),
> {
    if ident_at(s, t, i) && punct_at(t, i + 1, ':') {
        match sp_type(s, t, i + 2) {
            Some((ty, j)) => if punct_at(t, j, ';') {
                Some(
                    (
                        MemberV::Property(
                            PropertyV {
                                modifiers: seq![m],
                                name: tok_text(s, t[i]),
                                property_type: ty,
                                default_value: None,
                            },
                        ),
                        j + 1,
                    ),
                )
            } else {
                None
            },
            None => None,
        }
    } else {
        None
    }
}

/// A variable `var name: type (= literal)? ;` whose name is at `i`.
pub open spec fn sp_var_tail(s: Seq<char>, t: Seq<Token>, i: int) -> Option<(MemberV, int)> {
    if ident_at(s, t, i) && punct_at(t, i + 1, ':') {
        match sp_type(s, t, i + 2) {
            Some((_ty, j)) => if punct_at(t, j, '=') && literal_at(s, t, j + 1) && punct_at(
                t,
                j + 2,
                ';',
            ) {
                Some((MemberV::Other, j + 3))
            } else if punct_at(t, j, ';') {
                Some((MemberV::Other, j + 1))
            } else {
                None
            },
            None => None,
        }
    } else {
        None
    }
}

/// The fields of an `opaque` block, up to and including its `}`.
pub open spec fn sp_opaque_fields(s: Seq<char>, t: Seq<Token>, i: int) -> Option<int>
    decreases t.len() - i,
{
    if 0 <= i < t.len() {
        if punct_at(t, i, '}') {
            Some(i + 1)
        } else if ident_at(s, t, i) && punct_at(t, i + 1, ':') {
            match sp_type(s, t, i + 2) {
                Some((_ty, j)) => {
                    let next = if punct_at(t, j, ',') || punct_at(t, j, ';') {
                        j + 1
                    } else {
                        j
                    };
                    if i < next <= t.len() {
                        sp_opaque_fields(s, t, next)
                    } else {
                        None
                    }
                },
                None => None,
            }
        } else {
            None
        }
    } else {
        None
    }
}

/// One member of a class, singleton or interface body.
pub open spec fn sp_member(s: Seq<char>, t: Seq<Token>, i: int) -> Option<(MemberV, int)> {
    if word_at(s, t, i, "fn"@) {
        match sp_fn_sig(s, t, i) {
            Some((f, j)) => Some((MemberV::Method(f), j)),
            None => None,
        }
    } else if word_at(s, t, i, "const"@) {
        if ident_at(s, t, i + 1) && punct_at(t, i + 2, ':') {
            match sp_type(s, t, i + 3) {
                Some((ty, j)) => if punct_at(t, j, '=') && literal_at(s, t, j + 1) && punct_at(
                    t,
                    j + 2,
                    ';',
                ) {
                    Some(
                        (
                            MemberV::Property(
                                PropertyV {
                                    modifiers: seq![PropertyModifier::Const],
                                    name: tok_text(s, t[i + 1]),
                                    property_type: ty,
                                    default_value: Some(tok_text(s, t[j + 1])),
                                },
                            ),
                            j + 3,
                        ),
                    )
                } else {
                    None
                },
                None => None,
            }
        } else {
            None
        }
    } else if word_at(s, t, i, "readonly"@) {
        if word_at(s, t, i + 1, "property"@) {
            sp_prop_tail(s, t, i + 2, PropertyModifier::ReadOnly)
        } else {
            None
        }
    } else if word_at(s, t, i, "property"@) {
        sp_prop_tail(s, t, i + 1, PropertyModifier::ReadWrite)
    } else if word_at(s, t, i, "var"@) {
        sp_var_tail(s, t, i + 1)
    } else if word_at(s, t, i, "proto"@) {
        if word_at(s, t, i + 1, "var"@) {
            sp_var_tail(s, t, i + 2)
        } else {
            None
        }
    } else if word_at(s, t, i, "opaque"@) {
        if punct_at(t, i + 1, '{') {
            match sp_opaque_fields(s, t, i + 2) {
                Some(j) => Some((MemberV::Other, j)),
                None => None,
            }
        } else {
            None
        }
    } else if ident_at(s, t, i) {
        if punct_at(t, i + 1, ':') {
            sp_prop_tail(s, t, i, PropertyModifier::ReadWrite)
        } else if punct_at(t, i + 1, '(') {
            match sp_params(s, t, i + 1) {
                Some((ps, j)) => if punct_at(t, j, ';') {
                    Some(
                        (
                            MemberV::Constructor(
                                FunctionV {
                                    name: tok_text(s, t[i]),
                                    params: ps,
                                    return_type: TypeV::Void,
                                    is_async: false,
                                },
                            ),
                            j + 1,
                        ),
                    )
                } else {
                    None
                },
                None => None,
            }
        } else {
            None
        }
    } else {
        None
    }
}

/// What a body collects: the last constructor, the methods and the properties.
#[verifier::ext_equal]
pub struct BodyV {
    pub constructor: Option<FunctionV>,
    pub methods: Seq<FunctionV>,
    pub properties: Seq<PropertyV>,
}

pub open spec fn add_member(b: BodyV, m: MemberV) -> BodyV {
    match m {
        MemberV::Method(f) => BodyV { methods: b.methods.push(f), ..b },
        MemberV::Property(p) => BodyV { properties: b.properties.push(p), ..b },
        MemberV::Constructor(f) => BodyV { constructor: Some(f), ..b },
        MemberV::Other => b,
    }
}

pub open spec fn empty_body() -> BodyV {
    BodyV { constructor: None, methods: Seq::empty(), properties: Seq::empty() }
}

/// The members from `i` up to and including the closing `}`, added to `b`.
pub open spec fn sp_body(s: Seq<char>, t: Seq<Token>, i: int, b: BodyV) -> Option<(BodyV, int)>
    decreases t.len() - i,
{
    if 0 <= i < t.len() {
        if punct_at(t, i, '}') {
            Some((b, i + 1))
        } else {
            match sp_member(s, t, i) {
                Some((m, j)) => if i < j <= t.len() {
                    sp_body(s, t, j, add_member(b, m))
                } else {
                    None
                },
                None => None,
            }
        }
    } else {
        None
    }
}

/// The result of a top-level definition.
pub enum DefV {
    /// An item of the syntax tree.
    Item(ItemV),
    /// A definition that yields no item (`using`).
    Skip,
    /// A singleton, which yields no item of the syntax tree.
    Singleton,
}

/// `keyword name { body }`, the body's members collected.
pub open spec fn sp_braced_body(s: Seq<char>, t: Seq<Token>, i: int, kw: Seq<char>) -> Option<
    (Seq<char>, BodyV, int),
> {
    if word_at(s, t, i, kw) && ident_at(s, t, i + 1) && punct_at(t, i + 2, '{') {
        match sp_body(s, t, i + 3, empty_body()) {
            Some((b, j)) => Some((tok_text(s, t[i + 1]), b, j)),
            None => None,
        }
    } else {
        None
    }
}

/// An interface: its methods; other members are checked and not kept.
pub open spec fn sp_interface(s: Seq<char>, t: Seq<Token>, i: int) -> Option<(DefV, int)> {
    match sp_braced_body(s, t, i, "interface"@) {
        Some((name, b, j)) => Some(
            (
                DefV::Item(
                    ItemV::Interface { name, methods: b.methods, properties: Seq::empty() },
                ),
                j,
            ),
        ),
        None => None,
    }
}

/// A class: its last constructor, methods and properties.
pub open spec fn sp_class(s: Seq<char>, t: Seq<Token>, i: int) -> Option<(DefV, int)> {
    match sp_braced_body(s, t, i, "class"@) {
        Some((name, b, j)) => Some(
            (
                DefV::Item(
                    ItemV::Class {
                        name,
                        constructor: b.constructor,
                        methods: b.methods,
                        properties: b.properties,
                    },
                ),
                j,
            ),
        ),
        None => None,
    }
}

/// A singleton.
pub open spec fn sp_singleton(s: Seq<char>, t: Seq<Token>, i: int) -> Option<(DefV, int)> {
    match sp_braced_body(s, t, i, "singleton"@) {
        Some((_name, _b, j)) => Some((DefV::Singleton, j)),
        None => None,
    }
}

/// The value of a sequence of decimal digits.
pub open spec fn digits_value(d: Seq<char>) -> int
    decreases d.len(),
{
    if d.len() == 0 {
        0
    } else {
        digits_value(d.drop_last()) * 10 + (d.last() as int - '0' as int)
    }
}

/// Whether every character of `d` is a decimal digit.
pub open spec fn all_digits(d: Seq<char>) -> bool {
    forall|k: int| 0 <= k < d.len() ==> '0' <= #[trigger] d[k] <= '9'
}

/// The value of an integer literal: an optional `-`, then at least one digit.
pub open spec fn int_literal_value(d: Seq<char>) -> Option<int> {
    if d.len() > 1 && d[0] == '-' && all_digits(d.drop_first()) {
        Some(-digits_value(d.drop_first()))
    } else if d.len() > 0 && all_digits(d) {
        Some(digits_value(d))
    } else {
        None
    }
}

/// A value of an enumeration, with an optional explicit value that must fit
/// in an `i32`.
pub open spec fn sp_enum_value(s: Seq<char>, t: Seq<Token>, i: int) -> Option<(EnumValueV, int)> {
    if ident_at(s, t, i) {
        let name = tok_text(s, t[i]);
        if punct_at(t, i + 1, '=') {
            if kind_at(t, i + 2, TokKind::Int) && tok_in_bounds(s, t[i + 2]) {
                match int_literal_value(tok_text(s, t[i + 2])) {
                    Some(v) => if i32::MIN <= v <= i32::MAX {
                        Some((EnumValueV { name, value: Some(v as i32) }, i + 3))
                    } else {
                        None
                    },
                    None => None,
                }
            } else {
                None
            }
        } else {
            Some((EnumValueV { name, value: None }, i + 1))
        }
    } else {
        None
    }
}

/// The values of an enumeration from `i` up to and including its `}`, after `acc`.
pub open spec fn sp_enum_values(s: Seq<char>, t: Seq<Token>, i: int, acc: Seq<EnumValueV>) -> Option<
    (Seq<EnumValueV>, int),
>
    decreases t.len() - i,
{
    if 0 <= i < t.len() {
        if punct_at(t, i, '}') {
            Some((acc, i + 1))
        } else {
            match sp_enum_value(s, t, i) {
                Some((v, j)) => if punct_at(t, j, ',') && i < j {
                    sp_enum_values(s, t, j + 1, acc.push(v))
                } else if punct_at(t, j, '}') {
                    Some((acc.push(v), j + 1))
                } else {
                    None
                },
                None => None,
            }
        }
    } else {
        None
    }
}

/// An enumeration.
pub open spec fn sp_enum(s: Seq<char>, t: Seq<Token>, i: int) -> Option<(DefV, int)> {
    if word_at(s, t, i, "enum"@) && ident_at(s, t, i + 1) && punct_at(t, i + 2, '{') {
        match sp_enum_values(s, t, i + 3, Seq::empty()) {
            Some((vs, j)) => Some(
                (DefV::Item(ItemV::Enum { name: tok_text(s, t[i + 1]), values: vs }), j),
            ),
            None => None,
        }
    } else {
        None
    }
}

/// A field: a name and its type.
pub open spec fn sp_field(s: Seq<char>, t: Seq<Token>, i: int) -> Option<(FieldV, int)> {
    if ident_at(s, t, i) && punct_at(t, i + 1, ':') {
        match sp_type(s, t, i + 2) {
            Some((ty, j)) => Some(
                (FieldV { name: tok_text(s, t[i]), field_type: ty, optional: false }, j),
            ),
            None => None,
        }
    } else {
        None
    }
}

/// The `;`-terminated fields from `i` up to and including the `}`, after `acc`.
pub open spec fn sp_fields(s: Seq<char>, t: Seq<Token>, i: int, acc: Seq<FieldV>) -> Option<
    (Seq<FieldV>, int),
>
    decreases t.len() - i,
{
    if 0 <= i < t.len() {
        if punct_at(t, i, '}') {
            Some((acc, i + 1))
        } else {
            match sp_field(s, t, i) {
                Some((f, j)) => if punct_at(t, j, ';') && i < j {
                    sp_fields(s, t, j + 1, acc.push(f))
                } else {
                    None
                },
                None => None,
            }
        }
    } else {
        None
    }
}

/// The serialization format named at `i`, if any, and where the `struct`
/// keyword is then expected. Without a format word, JSON is used.
pub open spec fn struct_format(s: Seq<char>, t: Seq<Token>, i: int) -> (SerializationFormat, int) {
    if word_at(s, t, i, "json"@) {
        (SerializationFormat::Json, i + 1)
    } else if word_at(s, t, i, "msgpack"@) {
        (SerializationFormat::MessagePack, i + 1)
    } else if word_at(s, t, i, "protobuf"@) {
        (SerializationFormat::Protobuf, i + 1)
    } else {
        (SerializationFormat::Json, i)
    }
}

/// A structure.
pub open spec fn sp_struct(s: Seq<char>, t: Seq<Token>, i: int) -> Option<(DefV, int)> {
    let (format, k) = struct_format(s, t, i);
    if word_at(s, t, k, "struct"@) && ident_at(s, t, k + 1) && punct_at(t, k + 2, '{') {
        match sp_fields(s, t, k + 3, Seq::empty()) {
            Some((fs, j)) => Some(
                (DefV::Item(ItemV::Struct { name: tok_text(s, t[k + 1]), fields: fs, format }), j),
            ),
            None => None,
        }
    } else {
        None
    }
}

/// A callback definition: a function returning `void`.
pub open spec fn sp_callback(s: Seq<char>, t: Seq<Token>, i: int) -> Option<(DefV, int)> {
    if word_at(s, t, i, "callback"@) && ident_at(s, t, i + 1) {
        match sp_params(s, t, i + 2) {
            Some((ps, j)) => if punct_at(t, j, ';') {
                Some(
                    (
                        DefV::Item(
                            ItemV::Function(
                                FunctionV {
                                    name: tok_text(s, t[i + 1]),
                                    params: ps,
                                    return_type: TypeV::Void,
                                    is_async: false,
                                },
                            ),
                        ),
                        j + 1,
                    ),
                )
            } else {
                None
            },
            None => None,
        }
    } else {
        None
    }
}

/// A free function.
pub open spec fn sp_function(s: Seq<char>, t: Seq<Token>, i: int) -> Option<(DefV, int)> {
    match sp_fn_sig(s, t, i) {
        Some((f, j)) => Some((DefV::Item(ItemV::Function(f)), j)),
        None => None,
    }
}

/// A type alias.
pub open spec fn sp_using(s: Seq<char>, t: Seq<Token>, i: int) -> Option<(DefV, int)> {
    if word_at(s, t, i, "using"@) && ident_at(s, t, i + 1) && punct_at(t, i + 2, '=') {
        match sp_type(s, t, i + 3) {
            Some((_ty, j)) => if punct_at(t, j, ';') {
                Some((DefV::Skip, j + 1))
            } else {
                None
            },
            None => None,
        }
    } else {
        None
    }
}

/// A dotted path of words, `a.b.c`: the words joined by dots, after `acc`.
pub open spec fn sp_dotted(s: Seq<char>, t: Seq<Token>, i: int, acc: Seq<char>) -> Option<(Seq<char>, int)>
    decreases t.len() - i,
{
    if 0 <= i < t.len() && any_word_at(s, t, i) {
        let acc2 = acc + tok_text(s, t[i]);
        if punct_at(t, i + 1, '.') && any_word_at(s, t, i + 2) {
            sp_dotted(s, t, i + 2, acc2.push('.'))
        } else {
            Some((acc2, i + 1))
        }
    } else {
        None
    }
}

/// An imported name, possibly renamed with `as`.
pub open spec fn sp_import_item(s: Seq<char>, t: Seq<Token>, i: int) -> Option<(ImportItemV, int)> {
    if ident_at(s, t, i) {
        let name = tok_text(s, t[i]);
        if word_at(s, t, i + 1, "as"@) && ident_at(s, t, i + 2) {
            Some((ImportItemV { original_name: name, alias: Some(tok_text(s, t[i + 2])) }, i + 3))
        } else {
            Some((ImportItemV { original_name: name, alias: None }, i + 1))
        }
    } else {
        None
    }
}

/// A comma-separated list of imported names, after `acc`.
pub open spec fn sp_import_items(s: Seq<char>, t: Seq<Token>, i: int, acc: Seq<ImportItemV>) -> Option<
    (Seq<ImportItemV>, int),
>
    decreases t.len() - i,
{
    if 0 <= i < t.len() {
        match sp_import_item(s, t, i) {
            Some((x, j)) => if punct_at(t, j, ',') && i < j {
                sp_import_items(s, t, j + 1, acc.push(x))
            } else {
                Some((acc.push(x), j))
            },
            None => None,
        }
    } else {
        None
    }
}

/// The names of an import: `{ a, b as c }`, `* as m` (the name `*` bound to
/// `m`), or `a, b`.
pub open spec fn sp_import_names(s: Seq<char>, t: Seq<Token>, i: int) -> Option<(Seq<ImportItemV>, int)> {
    if punct_at(t, i, '{') {
        match sp_import_items(s, t, i + 1, Seq::empty()) {
            Some((xs, j)) => if punct_at(t, j, '}') {
                Some((xs, j + 1))
            } else {
                None
            },
            None => None,
        }
    } else if punct_at(t, i, '*') {
        if word_at(s, t, i + 1, "as"@) && ident_at(s, t, i + 2) {
            Some(
                (seq![ImportItemV { original_name: seq!['*'], alias: Some(tok_text(s, t[i + 2])) }], i + 3),
            )
        } else {
            None
        }
    } else {
        sp_import_items(s, t, i, Seq::empty())
    }
}

/// The text between the quotes of a string literal token.
pub open spec fn str_content(s: Seq<char>, tok: Token) -> Seq<char> {
    if tok.start + 2 <= tok.end {
        s.subrange(tok.start + 1, tok.end - 1)
    } else {
        Seq::empty()
    }
}

/// An import statement: its names and the module they come from, a string
/// or a dotted path.
pub open spec fn sp_import(s: Seq<char>, t: Seq<Token>, i: int) -> Option<(DefV, int)> {
    if word_at(s, t, i, "import"@) {
        match sp_import_names(s, t, i + 1) {
            Some((xs, j)) => if word_at(s, t, j, "from"@) {
                let src = if kind_at(t, j + 1, TokKind::Str) && tok_in_bounds(s, t[j + 1]) {
                    Some((str_content(s, t[j + 1]), j + 2))
                } else {
                    sp_dotted(s, t, j + 1, Seq::empty())
                };
                match src {
                    Some((m, k)) => if punct_at(t, k, ';') {
                        Some((DefV::Item(ItemV::Import { module: m, items: xs }), k + 1))
                    } else {
                        None
                    },
                    None => None,
                }
            } else {
                None
            },
            None => None,
        }
    } else {
        None
    }
}

pub open spec fn number_at(t: Seq<Token>, i: int) -> bool {
    kind_at(t, i, TokKind::Int) || kind_at(t, i, TokKind::Float)
}

/// A version: numbers separated by dots.
pub open spec fn sp_version(t: Seq<Token>, i: int) -> Option<int>
    decreases t.len() - i,
{
    if 0 <= i < t.len() && number_at(t, i) {
        if punct_at(t, i + 1, '.') && number_at(t, i + 2) {
            sp_version(t, i + 2)
        } else {
            Some(i + 1)
        }
    } else {
        None
    }
}

/// A module declaration: `module a.b (@ version)? ;?`.
pub open spec fn sp_module(s: Seq<char>, t: Seq<Token>, i: int) -> Option<int> {
    if word_at(s, t, i, "module"@) {
        match sp_dotted(s, t, i + 1, Seq::empty()) {
            Some((_name, j)) => {
                let k = if punct_at(t, j, '@') {
                    sp_version(t, j + 1)
                } else {
                    Some(j)
                };
                match k {
                    Some(k) => if punct_at(t, k, ';') {
                        Some(k + 1)
                    } else {
                        Some(k)
                    },
                    None => None,
                }
            },
            None => None,
        }
    } else {
        None
    }
}

/// A top-level definition, chosen by its first word.
pub open spec fn sp_definition(s: Seq<char>, t: Seq<Token>, i: int) -> Option<(DefV, int)> {
    if word_at(s, t, i, "interface"@) {
        sp_interface(s, t, i)
    } else if word_at(s, t, i, "class"@) {
        sp_class(s, t, i)
    } else if word_at(s, t, i, "singleton"@) {
        sp_singleton(s, t, i)
    } else if word_at(s, t, i, "enum"@) {
        sp_enum(s, t, i)
    } else if word_at(s, t, i, "json"@) || word_at(s, t, i, "msgpack"@) || word_at(
        s,
        t,
        i,
        "protobuf"@,
    ) || word_at(s, t, i, "struct"@) {
        sp_struct(s, t, i)
    } else if word_at(s, t, i, "callback"@) {
        sp_callback(s, t, i)
    } else if word_at(s, t, i, "fn"@) {
        sp_function(s, t, i)
    } else if word_at(s, t, i, "using"@) {
        sp_using(s, t, i)
    } else if word_at(s, t, i, "import"@) {
        sp_import(s, t, i)
    } else {
        None
    }
}

/// The definitions from `i` to the end of the tokens, after `acc`.
pub open spec fn sp_defs(s: Seq<char>, t: Seq<Token>, i: int, acc: Seq<DefV>) -> Option<Seq<DefV>>
    decreases t.len() - i,
{
    if i < 0 || i > t.len() {
        None
    } else if i == t.len() {
        Some(acc)
    } else {
        match sp_definition(s, t, i) {
            Some((d, j)) => if i < j <= t.len() {
                sp_defs(s, t, j, acc.push(d))
            } else {
                None
            },
            None => None,
        }
    }
}

/// A whole RIDL file: an optional module declaration, then definitions.
pub open spec fn sp_idl(s: Seq<char>, t: Seq<Token>) -> Option<Seq<DefV>> {
    if word_at(s, t, 0, "module"@) {
        match sp_module(s, t, 0) {
            Some(j) => sp_defs(s, t, j, Seq::empty()),
            None => None,
        }
    } else {
        sp_defs(s, t, 0, Seq::empty())
    }
}

/// The items of a sequence of definitions, or `None` if a singleton occurs.
pub open spec fn defs_items(d: Seq<DefV>) -> Option<Seq<ItemV>>
    decreases d.len(),
{
    if d.len() == 0 {
        Some(Seq::empty())
    } else {
        match defs_items(d.drop_last()) {
            Some(items) => match d.last() {
                DefV::Item(x) => Some(items.push(x)),
                DefV::Skip => Some(items),
                DefV::Singleton => None,
            },
            None => None,
        }
    }
}

pub(crate) proof fn lemma_types_view_index(s: Seq<Type>)
    ensures
        types_view(s).len() == s.len(),
        forall|k: int| 0 <= k < s.len() ==> #[trigger] types_view(s)[k] == type_view(s[k]),
    decreases s.len(),
{
    if s.len() > 0 {
        let rest = s.subrange(1, s.len() as int);
        lemma_types_view_index(rest);
        assert forall|k: int| 0 <= k < s.len() implies #[trigger] types_view(s)[k] == type_view(s[k]) by {
            if k > 0 {
                assert(rest[k - 1] == s[k]);
            }
        }
    }
}

pub(crate) proof fn lemma_types_view_push(s: Seq<Type>, x: Type)
    ensures
        types_view(s.push(x)) == types_view(s).push(type_view(x)),
{
    lemma_types_view_index(s);
    lemma_types_view_index(s.push(x));
    assert(types_view(s.push(x)) =~= types_view(s).push(type_view(x)));
}

pub(crate) fn punct_at_exec(t: &Vec<Token>, i: usize, c: char) -> (r: bool)
    ensures
        r == punct_at(t@, i as int, c),
        r ==> i < t.len(),
{
    i < t.len() && t[i].kind == TokKind::Punct(c)
}

pub(crate) fn arrow_at_exec(t: &Vec<Token>, i: usize) -> (r: bool)
    ensures
        r == arrow_at(t@, i as int),
        r ==> i < t.len(),
{
    i < t.len() && t[i].kind == TokKind::Arrow
}

pub(crate) fn kind_at_exec(t: &Vec<Token>, i: usize, k: TokKind) -> (r: bool)
    ensures
        r == kind_at(t@, i as int, k),
        r ==> i < t.len(),
{
    i < t.len() && t[i].kind == k
}

/// Whether the token lies within the source and its text is `w`.
pub(crate) fn text_eq(s: &Vec<char>, tok: Token, w: &str) -> (r: bool)
    ensures
        r == (tok_in_bounds(s@, tok) && tok_text(s@, tok) == w@),
{
    if !(tok.start <= tok.end && tok.end <= s.len()) {
        return false;
    }
    let n = w.unicode_len();
    if tok.end - tok.start != n {
        return false;
    }
    let mut k: usize = 0;
    while k < n
        invariant
            tok.start <= tok.end <= s@.len(),
            tok.end - tok.start == n,
            n == w@.len(),
            k <= n,
            forall|j: int| 0 <= j < k ==> s@[tok.start + j] == w@[j],
        decreases n - k,
    {
        if s[tok.start + k] != w.get_char(k) {
            return false;
        }
        k = k + 1;
    }
    assert(tok_text(s@, tok) =~= w@);
    true
}

pub(crate) fn word_at_exec(s: &Vec<char>, t: &Vec<Token>, i: usize, w: &str) -> (r: bool)
    ensures
        r == word_at(s@, t@, i as int, w@),
        r ==> i < t.len(),
{
    i < t.len() && t[i].kind == TokKind::Word && text_eq(s, t[i], w)
}

fn is_keyword_exec(s: &Vec<char>, tok: Token) -> (r: bool)
    requires
        tok_in_bounds(s@, tok),
    ensures
        r == is_keyword(tok_text(s@, tok)),
{
    text_eq(s, tok, "interface") || text_eq(s, tok, "class") || text_eq(s, tok, "enum") || text_eq(
        s,
        tok,
        "struct",
    ) || text_eq(s, tok, "fn") || text_eq(s, tok, "callback") || text_eq(s, tok, "using")
        || text_eq(s, tok, "import") || text_eq(s, tok, "from") || text_eq(s, tok, "module")
        || text_eq(s, tok, "singleton") || text_eq(s, tok, "readonly") || text_eq(s, tok, "property")
        || text_eq(s, tok, "const") || text_eq(s, tok, "json") || text_eq(s, tok, "msgpack")
        || text_eq(s, tok, "protobuf") || text_eq(s, tok, "array") || text_eq(s, tok, "map")
        || text_eq(s, tok, "var") || text_eq(s, tok, "proto") || text_eq(s, tok, "opaque")
        || text_eq(s, tok, "as")
}

pub(crate) fn ident_at_exec(s: &Vec<char>, t: &Vec<Token>, i: usize) -> (r: bool)
    ensures
        r == ident_at(s@, t@, i as int),
        r ==> i < t.len(),
{
    if i < t.len() && t[i].kind == TokKind::Word && t[i].start <= t[i].end && t[i].end <= s.len() {
        !is_keyword_exec(s, t[i])
    } else {
        false
    }
}

pub(crate) fn literal_at_exec(s: &Vec<char>, t: &Vec<Token>, i: usize) -> (r: bool)
    ensures
        r == literal_at(s@, t@, i as int),
        r ==> i < t.len(),
{
    if i < t.len() && t[i].start <= t[i].end && t[i].end <= s.len() {
        let k = t[i].kind;
        k == TokKind::Str || k == TokKind::Int || k == TokKind::Float || word_at_exec(s, t, i, "true")
            || word_at_exec(s, t, i, "false") || word_at_exec(s, t, i, "null")
    } else {
        false
    }
}

pub(crate) fn any_word_at_exec(s: &Vec<char>, t: &Vec<Token>, i: usize) -> (r: bool)
    ensures
        r == any_word_at(s@, t@, i as int),
        r ==> i < t.len(),
{
    i < t.len() && t[i].kind == TokKind::Word && t[i].start <= t[i].end && t[i].end <= s.len()
}

/// Appends the text of a token.
pub(crate) fn push_text(out: &mut Vec<char>, s: &Vec<char>, tok: Token)
    requires
        tok_in_bounds(s@, tok),
    ensures
        final(out)@ == old(out)@ + tok_text(s@, tok),
{
    let ghost start = out@;
    let mut k = tok.start;
    while k < tok.end
        invariant
            tok.start <= k <= tok.end <= s@.len(),
            out@ == start + s@.subrange(tok.start as int, k as int),
        decreases tok.end - k,
    {
        out.push(s[k]);
        assert(out@ =~= start + s@.subrange(tok.start as int, k + 1));
        k = k + 1;
    }
}

/// The text of a token.
pub(crate) fn text_of(s: &Vec<char>, tok: Token) -> (r: String)
    requires
        tok_in_bounds(s@, tok),
    ensures
        r@ == tok_text(s@, tok),
{
    let mut out: Vec<char> = Vec::new();
    let mut k = tok.start;
    while k < tok.end
        invariant
            tok.start <= k <= tok.end <= s@.len(),
            out@ == s@.subrange(tok.start as int, k as int),
        decreases tok.end - k,
    {
        out.push(s[k]);
        assert(out@ =~= s@.subrange(tok.start as int, k + 1));
        k = k + 1;
    }
    string_from_chars(out)
}

fn named_type_exec(s: &Vec<char>, tok: Token) -> (r: Type)
    requires
        tok_in_bounds(s@, tok),
    ensures
        type_view(r) == named_type(tok_text(s@, tok)),
{
    if text_eq(s, tok, "bool") {
        Type::Bool
    } else if text_eq(s, tok, "int") {
        Type::Int
    } else if text_eq(s, tok, "float") {
        Type::Float
    } else if text_eq(s, tok, "double") {
        Type::Double
    } else if text_eq(s, tok, "string") {
        Type::String
    } else if text_eq(s, tok, "void") {
        Type::Void
    } else if text_eq(s, tok, "object") {
        Type::Object
    } else if text_eq(s, tok, "function") {
        Type::Function
    } else if text_eq(s, tok, "null") {
        Type::Null
    } else if text_eq(s, tok, "any") {
        Type::Any
    } else {
        Type::Custom(text_of(s, tok))
    }
}

pub fn parse_type(s: &Vec<char>, t: &Vec<Token>, i: usize) -> (r: Option<(Type, usize)>)
    ensures
        match r {
            Some((v, j)) => sp_type(s@, t@, i as int) == Some((type_view(v), j as int)),
            None => sp_type(s@, t@, i as int) is None,
        },
    decreases t@.len() - i, 4int,
{
    if i >= t.len() {
        return None;
    }
    match parse_postfix(s, t, i) {
        Some((a, j)) => {
            if !(i < j && j <= t.len()) {
                return None;
            }
            let mut acc: Vec<Type> = Vec::new();
            acc.push(a);
            proof {
                lemma_types_view_push(Seq::<Type>::empty(), a);
                assert(Seq::<Type>::empty().push(a) =~= acc@);
                assert(types_view(Seq::<Type>::empty()) =~= Seq::<TypeV>::empty());
                assert(seq![type_view(a)] =~= Seq::<TypeV>::empty().push(type_view(a)));
            }
            let mut k = j;
            while k < t.len() && punct_at_exec(t, k, '|')
                invariant
                    i < k <= t@.len(),
                    acc@.len() >= 1,
                    sp_type(s@, t@, i as int) == sp_union_rest(s@, t@, k as int, types_view(acc@)),
                decreases t@.len() - k,
            {
                match parse_postfix(s, t, k + 1) {
                    Some((b, m)) => {
                        if !(k < m && m <= t.len()) {
                            return None;
                        }
                        proof {
                            lemma_types_view_push(acc@, b);
                        }
                        acc.push(b);
                        k = m;
                    },
                    None => {
                        return None;
                    },
                }
            }
            proof {
                lemma_types_view_index(acc@);
            }
            if acc.len() == 1 {
                let v = acc.pop().unwrap();
                Some((v, k))
            } else {
                Some((Type::Union(acc), k))
            }
        },
        None => None,
    }
}

pub fn parse_postfix(s: &Vec<char>, t: &Vec<Token>, i: usize) -> (r: Option<(Type, usize)>)
    ensures
        match r {
            Some((v, j)) => sp_postfix(s@, t@, i as int) == Some((type_view(v), j as int)),
            None => sp_postfix(s@, t@, i as int) is None,
        },
    decreases t@.len() - i, 2int,
{
    if i >= t.len() {
        return None;
    }
    match parse_primary(s, t, i) {
        Some((a, j)) => {
            if punct_at_exec(t, j, '?') {
                Some((Type::Optional(Box::new(a)), j + 1))
            } else {
                Some((a, j))
            }
        },
        None => None,
    }
}

pub fn parse_primary(s: &Vec<char>, t: &Vec<Token>, i: usize) -> (r: Option<(Type, usize)>)
    ensures
        match r {
            Some((v, j)) => sp_primary(s@, t@, i as int) == Some((type_view(v), j as int)),
            None => sp_primary(s@, t@, i as int) is None,
        },
    decreases t@.len() - i, 1int,
{
    if i >= t.len() {
        return None;
    }
    if punct_at_exec(t, i, '(') {
        match parse_type(s, t, i + 1) {
            Some((a, j)) => if punct_at_exec(t, j, ')') {
                Some((Type::Group(Box::new(a)), j + 1))
            } else {
                None
            },
            None => None,
        }
    } else if word_at_exec(s, t, i, "array") {
        if punct_at_exec(t, i + 1, '<') {
            match parse_type(s, t, i + 2) {
                Some((a, j)) => if punct_at_exec(t, j, '>') {
                    Some((Type::Array(Box::new(a)), j + 1))
                } else {
                    None
                },
                None => None,
            }
        } else {
            None
        }
    } else if word_at_exec(s, t, i, "map") {
        if punct_at_exec(t, i + 1, '<') {
            match parse_type(s, t, i + 2) {
                Some((k, j)) => if punct_at_exec(t, j, ',') && i < j && j < t.len() {
                    match parse_type(s, t, j + 1) {
                        Some((v, m)) => if punct_at_exec(t, m, '>') {
                            Some((Type::MapType(Box::new(k), Box::new(v)), m + 1))
                        } else {
                            None
                        },
                        None => None,
                    }
                } else {
                    None
                },
                None => None,
            }
        } else {
            None
        }
    } else if word_at_exec(s, t, i, "callback") {
        if punct_at_exec(t, i + 1, '(') {
            match parse_params(s, t, i + 1) {
                Some((_ps, j)) => if arrow_at_exec(t, j) && i < j && j < t.len() {
                    match parse_type(s, t, j + 1) {
                        Some((_r, m)) => Some((Type::Callback, m)),
                        None => None,
                    }
                } else {
                    Some((Type::Callback, j))
                },
                None => None,
            }
        } else {
            Some((Type::Callback, i + 1))
        }
    } else if ident_at_exec(s, t, i) {
        if punct_at_exec(t, i + 1, '<') {
            match parse_type_args(s, t, i + 2) {
                Some(m) => if punct_at_exec(t, m, '>') && t[m].start <= t[m].end && t[m].end <= s.len()
                    && t[i].start <= t[m].end {
                    let name = text_of(s, Token { kind: TokKind::Word, start: t[i].start, end: t[m].end });
                    Some((Type::Custom(name), m + 1))
                } else {
                    None
                },
                None => None,
            }
        } else {
            Some((named_type_exec(s, t[i]), i + 1))
        }
    } else {
        None
    }
}

/// The arguments of a generic type; the position after them.
pub fn parse_type_args(s: &Vec<char>, t: &Vec<Token>, j: usize) -> (r: Option<usize>)
    ensures
        match r {
            Some(k) => sp_type_args(s@, t@, j as int) == Some(k as int),
            None => sp_type_args(s@, t@, j as int) is None,
        },
    decreases t@.len() - j, 5int,
{
    if j >= t.len() {
        return None;
    }
    let mut k = j;
    loop
        invariant
            j <= k < t@.len(),
            sp_type_args(s@, t@, j as int) == sp_type_args(s@, t@, k as int),
        decreases t@.len() - k,
    {
        match parse_type(s, t, k) {
            Some((_a, m)) => {
                if punct_at_exec(t, m, ',') && k < m {
                    if m + 1 >= t.len() {
                        assert(sp_type_args(s@, t@, m + 1) is None);
                        return None;
                    }
                    k = m + 1;
                } else {
                    return Some(m);
                }
            },
            None => {
                return None;
            },
        }
    }
}

pub fn parse_params(s: &Vec<char>, t: &Vec<Token>, i: usize) -> (r: Option<(Vec<Param>, usize)>)
    ensures
        match r {
            Some((v, j)) => sp_params(s@, t@, i as int) == Some((params_view(v@), j as int)),
            None => sp_params(s@, t@, i as int) is None,
        },
    decreases t@.len() - i, 5int,
{
    if !(i < t.len() && punct_at_exec(t, i, '(')) {
        return None;
    }
    if punct_at_exec(t, i + 1, ')') {
        let v: Vec<Param> = Vec::new();
        assert(params_view(v@) =~= Seq::<ParamV>::empty());
        return Some((v, i + 2));
    }
    match parse_param(s, t, i + 1) {
        Some((p, j)) => {
            if !(i + 1 < j && j <= t.len()) {
                return None;
            }
            let ghost pv = param_view(p);
            let mut acc: Vec<Param> = Vec::new();
            acc.push(p);
            assert(params_view(acc@) =~= seq![pv]);
            let mut k = j;
            while k < t.len() && punct_at_exec(t, k, ',')
                invariant
                    i < k <= t@.len(),
                    sp_params(s@, t@, i as int) == sp_params_rest(s@, t@, k as int, params_view(acc@)),
                decreases t@.len() - k,
            {
                match parse_param(s, t, k + 1) {
                    Some((q, m)) => {
                        if !(k < m && m <= t.len()) {
                            return None;
                        }
                        let ghost before = acc@;
                        acc.push(q);
                        assert(params_view(acc@) =~= params_view(before).push(param_view(q)));
                        k = m;
                    },
                    None => {
                        return None;
                    },
                }
            }
            if punct_at_exec(t, k, ')') {
                Some((acc, k + 1))
            } else {
                None
            }
        },
        None => None,
    }
}

pub fn parse_param(s: &Vec<char>, t: &Vec<Token>, i: usize) -> (r: Option<(Param, usize)>)
    ensures
        match r {
            Some((v, j)) => sp_param(s@, t@, i as int) == Some((param_view(v), j as int)),
            None => sp_param(s@, t@, i as int) is None,
        },
    decreases t@.len() - i, 2int,
{
    if !(i < t.len() && any_word_at_exec(s, t, i) && punct_at_exec(t, i + 1, ':')) {
        return None;
    }
    match parse_type(s, t, i + 2) {
        Some((ty, j)) => {
            let name = text_of(s, t[i]);
            Some((Param { name, param_type: ty, optional: false }, j))
        },
        None => None,
    }
}

} // verus!
