//! Parsing of RIDL definitions: each function follows the grammar rule of the
//! same name and builds the syntax tree whose view that rule yields.

use super::ast::{
    enum_value_view, enum_values_view, function_view, item_view, method_view, methods_view,
    field_view, fields_view, properties_view, property_view, Class, Enum, EnumValue, Field, Function,
    IDLItem, Interface, Method, Property, PropertyModifier, SerializationFormat, StructDef, Type,
};
use super::grammar::{
    add_member, all_digits, arrow_at_exec, digits_value, empty_body, ident_at_exec, int_literal_value,
    ident_at, kind_at_exec, literal_at_exec, punct_at, word_at, parse_params, parse_type, punct_at_exec, sp_body, sp_braced_body,
    sp_class, sp_enum, sp_enum_value, sp_enum_values, sp_fn_sig, sp_interface, sp_member,
    sp_opaque_fields, sp_prop_tail, sp_singleton, sp_var_tail, text_of, tok_in_bounds, tok_text,
    word_at_exec, BodyV, DefV, MemberV, any_word_at, number_at, sp_callback, sp_defs, sp_definition,
    sp_dotted, sp_field, sp_fields, sp_function, sp_idl, sp_import, sp_import_item, sp_import_items,
    sp_import_names, sp_module, sp_struct, sp_using, sp_version, struct_format,
};
use super::ast::{import_item_view, import_items_view, items_view, ImportItem, ImportItemV, ImportStmt, ItemV};
use super::grammar::{any_word_at_exec, push_text, str_content};
use crate::ridl_glue::string_from_chars;
use super::grammar::{defs_items, kind_at, sp_param, sp_type};
use super::lexer::{lex, lex_prefix, spec_lex, spec_lex_prefix, TokKind, Token};
use vstd::prelude::*;

verus! {

/// A member of a class, singleton or interface body.
pub enum Member {
    Method(Method),
    Property(Property),
    Constructor(Function),
    Other,
}

pub open spec fn member_view(m: Member) -> MemberV {
    match m {
        Member::Method(x) => MemberV::Method(method_view(x)),
        Member::Property(p) => MemberV::Property(property_view(p)),
        Member::Constructor(f) => MemberV::Constructor(function_view(f)),
        Member::Other => MemberV::Other,
    }
}

/// The members a body collects.
pub struct Body {
    pub constructor: Option<Function>,
    pub methods: Vec<Method>,
    pub properties: Vec<Property>,
}

pub open spec fn body_view(b: Body) -> BodyV {
    BodyV {
        constructor: match b.constructor {
            Some(f) => Some(function_view(f)),
            None => None,
        },
        methods: methods_view(b.methods@),
        properties: properties_view(b.properties@),
    }
}

/// A function signature `fn name(params) (-> type)? ;`.
pub fn parse_fn_sig(s: &Vec<char>, t: &Vec<Token>, i: usize) -> (r: Option<(Function, usize)>)
    ensures
        match r {
            Some((f, j)) => sp_fn_sig(s@, t@, i as int) == Some((function_view(f), j as int)),
            None => sp_fn_sig(s@, t@, i as int) is None,
        },
{
    if !(word_at_exec(s, t, i, "fn") && ident_at_exec(s, t, i + 1)) {
        return None;
    }
    let name = text_of(s, t[i + 1]);
    match parse_params(s, t, i + 2) {
        Some((ps, j)) => {
            if arrow_at_exec(t, j) {
                match parse_type(s, t, j + 1) {
                    Some((ret, k)) => if punct_at_exec(t, k, ';') {
                        Some((Function { name, params: ps, return_type: ret, is_async: false }, k + 1))
                    } else {
                        None
                    },
                    None => None,
                }
            } else if punct_at_exec(t, j, ';') {
                Some((Function { name, params: ps, return_type: super::ast::Type::Void, is_async: false }, j + 1))
            } else {
                None
            }
        },
        None => None,
    }
}

/// The method with the name, parameters and return type of a function.
fn method_of(f: Function) -> (m: Method)
    ensures
        method_view(m) == function_view(f),
{
    Method { name: f.name, params: f.params, return_type: f.return_type, is_async: f.is_async }
}

/// `name: type ;` as a property with the access `m`.
fn parse_prop_tail(s: &Vec<char>, t: &Vec<Token>, i: usize, m: PropertyModifier) -> (r: Option<(Member, usize)>)
    ensures
        match r {
            Some((x, j)) => sp_prop_tail(s@, t@, i as int, m) == Some((member_view(x), j as int)),
            None => sp_prop_tail(s@, t@, i as int, m) is None,
        },
{
    if !(ident_at_exec(s, t, i) && punct_at_exec(t, i + 1, ':')) {
        return None;
    }
    match parse_type(s, t, i + 2) {
        Some((ty, j)) => if punct_at_exec(t, j, ';') {
            let mut mods: Vec<PropertyModifier> = Vec::new();
            mods.push(m);
            assert(mods@ =~= seq![m]);
            let name = text_of(s, t[i]);
            Some((Member::Property(Property { modifiers: mods, name, property_type: ty, default_value: None }), j + 1))
        } else {
            None
        },
        None => None,
    }
}

/// `name: type (= literal)? ;` after `var`.
fn parse_var_tail(s: &Vec<char>, t: &Vec<Token>, i: usize) -> (r: Option<(Member, usize)>)
    ensures
        match r {
            Some((x, j)) => sp_var_tail(s@, t@, i as int) == Some((member_view(x), j as int)),
            None => sp_var_tail(s@, t@, i as int) is None,
        },
{
    if !(ident_at_exec(s, t, i) && punct_at_exec(t, i + 1, ':')) {
        return None;
    }
    match parse_type(s, t, i + 2) {
        Some((_ty, j)) => if punct_at_exec(t, j, '=') && literal_at_exec(s, t, j + 1) && punct_at_exec(t, j + 2, ';') {
            Some((Member::Other, j + 3))
        } else if punct_at_exec(t, j, ';') {
            Some((Member::Other, j + 1))
        } else {
            None
        },
        None => None,
    }
}

/// The fields of an `opaque` block, up to and including its `}`.
fn parse_opaque_fields(s: &Vec<char>, t: &Vec<Token>, i: usize) -> (r: Option<usize>)
    ensures
        match r {
            Some(j) => sp_opaque_fields(s@, t@, i as int) == Some(j as int),
            None => sp_opaque_fields(s@, t@, i as int) is None,
        },
{
    if i >= t.len() {
        return None;
    }
    let mut k = i;
    while k < t.len()
        invariant
            k <= t@.len(),
            sp_opaque_fields(s@, t@, i as int) == sp_opaque_fields(s@, t@, k as int),
        decreases t@.len() - k,
    {
        if punct_at_exec(t, k, '}') {
            return Some(k + 1);
        }
        if !(ident_at_exec(s, t, k) && punct_at_exec(t, k + 1, ':')) {
            return None;
        }
        match parse_type(s, t, k + 2) {
            Some((_ty, j)) => {
                let next = if punct_at_exec(t, j, ',') || punct_at_exec(t, j, ';') {
                    j + 1
                } else {
                    j
                };
                if !(k < next && next <= t.len()) {
                    return None;
                }
                k = next;
            },
            None => {
                return None;
            },
        }
    }
    None
}

/// One member of a body.
pub fn parse_member(s: &Vec<char>, t: &Vec<Token>, i: usize) -> (r: Option<(Member, usize)>)
    ensures
        match r {
            Some((x, j)) => sp_member(s@, t@, i as int) == Some((member_view(x), j as int)),
            None => sp_member(s@, t@, i as int) is None,
        },
{
    if word_at_exec(s, t, i, "fn") {
        match parse_fn_sig(s, t, i) {
            Some((f, j)) => Some((Member::Method(method_of(f)), j)),
            None => None,
        }
    } else if word_at_exec(s, t, i, "const") {
        if !(ident_at_exec(s, t, i + 1) && punct_at_exec(t, i + 2, ':')) {
            return None;
        }
        match parse_type(s, t, i + 3) {
            Some((ty, j)) => if punct_at_exec(t, j, '=') && literal_at_exec(s, t, j + 1) && punct_at_exec(t, j + 2, ';') {
                let mut mods: Vec<PropertyModifier> = Vec::new();
                mods.push(PropertyModifier::Const);
                assert(mods@ =~= seq![PropertyModifier::Const]);
                let name = text_of(s, t[i + 1]);
                let value = text_of(s, t[j + 1]);
                Some(
                    (
                        Member::Property(
                            Property { modifiers: mods, name, property_type: ty, default_value: Some(value) },
                        ),
                        j + 3,
                    ),
                )
            } else {
                None
            },
            None => None,
        }
    } else if word_at_exec(s, t, i, "readonly") {
        if word_at_exec(s, t, i + 1, "property") {
            parse_prop_tail(s, t, i + 2, PropertyModifier::ReadOnly)
        } else {
            None
        }
    } else if word_at_exec(s, t, i, "property") {
        parse_prop_tail(s, t, i + 1, PropertyModifier::ReadWrite)
    } else if word_at_exec(s, t, i, "var") {
        parse_var_tail(s, t, i + 1)
    } else if word_at_exec(s, t, i, "proto") {
        if word_at_exec(s, t, i + 1, "var") {
            parse_var_tail(s, t, i + 2)
        } else {
            None
        }
    } else if word_at_exec(s, t, i, "opaque") {
        if punct_at_exec(t, i + 1, '{') {
            match parse_opaque_fields(s, t, i + 2) {
                Some(j) => Some((Member::Other, j)),
                None => None,
            }
        } else {
            None
        }
    } else if ident_at_exec(s, t, i) {
        if punct_at_exec(t, i + 1, ':') {
            parse_prop_tail(s, t, i, PropertyModifier::ReadWrite)
        } else if punct_at_exec(t, i + 1, '(') {
            match parse_params(s, t, i + 1) {
                Some((ps, j)) => if punct_at_exec(t, j, ';') {
                    let name = text_of(s, t[i]);
                    Some(
                        (
                            Member::Constructor(
                                Function { name, params: ps, return_type: super::ast::Type::Void, is_async: false },
                            ),
                            j + 1,
                        ),
                    )
                } else {
                    None
                },
                None => None,
            }
        } else {
            None
        }
    } else {
        None
    }
}

/// Adds a member to what a body has collected.
fn add_member_exec(b: &mut Body, m: Member)
    ensures
        body_view(*final(b)) == add_member(body_view(*old(b)), member_view(m)),
{
    let ghost before = body_view(*b);
    let ghost mv = member_view(m);
    match m {
        Member::Method(x) => {
            let ghost old_methods = b.methods@;
            b.methods.push(x);
            assert(methods_view(b.methods@) =~= methods_view(old_methods).push(method_view(x)));
        },
        Member::Property(p) => {
            let ghost old_props = b.properties@;
            b.properties.push(p);
            assert(properties_view(b.properties@) =~= properties_view(old_props).push(property_view(p)));
        },
        Member::Constructor(f) => {
            b.constructor = Some(f);
        },
        Member::Other => {},
    }
    assert(body_view(*b) =~= add_member(before, mv));
}

/// The members from `i` up to and including the closing `}`.
pub fn parse_body(s: &Vec<char>, t: &Vec<Token>, i: usize) -> (r: Option<(Body, usize)>)
    ensures
        match r {
            Some((b, j)) => sp_body(s@, t@, i as int, empty_body()) == Some((body_view(b), j as int)),
            None => sp_body(s@, t@, i as int, empty_body()) is None,
        },
{
    let mut b = Body { constructor: None, methods: Vec::new(), properties: Vec::new() };
    assert(body_view(b) =~= empty_body());
    if i >= t.len() {
        return None;
    }
    let mut k = i;
    while k < t.len()
        invariant
            k <= t@.len(),
            sp_body(s@, t@, i as int, empty_body()) == sp_body(s@, t@, k as int, body_view(b)),
        decreases t@.len() - k,
    {
        if punct_at_exec(t, k, '}') {
            return Some((b, k + 1));
        }
        match parse_member(s, t, k) {
            Some((m, j)) => {
                if !(k < j && j <= t.len()) {
                    return None;
                }
                add_member_exec(&mut b, m);
                k = j;
            },
            None => {
                return None;
            },
        }
    }
    None
}

/// What a top-level definition yields.
pub enum Def {
    Item(IDLItem),
    Skip,
    Singleton,
}

pub open spec fn def_view(d: Def) -> DefV {
    match d {
        Def::Item(x) => DefV::Item(item_view(x)),
        Def::Skip => DefV::Skip,
        Def::Singleton => DefV::Singleton,
    }
}

/// `keyword name { body }`.
fn parse_braced_body(s: &Vec<char>, t: &Vec<Token>, i: usize, kw: &str) -> (r: Option<(String, Body, usize)>)
    ensures
        match r {
            Some((name, b, j)) => sp_braced_body(s@, t@, i as int, kw@) == Some((name@, body_view(b), j as int)),
            None => sp_braced_body(s@, t@, i as int, kw@) is None,
        },
{
    if !(word_at_exec(s, t, i, kw) && ident_at_exec(s, t, i + 1) && punct_at_exec(t, i + 2, '{')) {
        return None;
    }
    match parse_body(s, t, i + 3) {
        Some((b, j)) => {
            let name = text_of(s, t[i + 1]);
            Some((name, b, j))
        },
        None => None,
    }
}

/// An interface definition.
pub fn parse_interface(s: &Vec<char>, t: &Vec<Token>, i: usize) -> (r: Option<(Def, usize)>)
    ensures
        match r {
            Some((d, j)) => sp_interface(s@, t@, i as int) == Some((def_view(d), j as int)),
            None => sp_interface(s@, t@, i as int) is None,
        },
{
    match parse_braced_body(s, t, i, "interface") {
        Some((name, b, j)) => {
            let properties: Vec<Property> = Vec::new();
            assert(properties_view(properties@) =~= Seq::empty());
            Some((Def::Item(IDLItem::Interface(Interface { name, methods: b.methods, properties })), j))
        },
        None => None,
    }
}

/// A class definition.
pub fn parse_class(s: &Vec<char>, t: &Vec<Token>, i: usize) -> (r: Option<(Def, usize)>)
    ensures
        match r {
            Some((d, j)) => sp_class(s@, t@, i as int) == Some((def_view(d), j as int)),
            None => sp_class(s@, t@, i as int) is None,
        },
{
    match parse_braced_body(s, t, i, "class") {
        Some((name, b, j)) => Some(
            (
                Def::Item(
                    IDLItem::Class(
                        Class { name, constructor: b.constructor, methods: b.methods, properties: b.properties },
                    ),
                ),
                j,
            ),
        ),
        None => None,
    }
}

/// A singleton definition.
pub fn parse_singleton(s: &Vec<char>, t: &Vec<Token>, i: usize) -> (r: Option<(Def, usize)>)
    ensures
        match r {
            Some((d, j)) => sp_singleton(s@, t@, i as int) == Some((def_view(d), j as int)),
            None => sp_singleton(s@, t@, i as int) is None,
        },
{
    match parse_braced_body(s, t, i, "singleton") {
        Some((_name, _b, j)) => Some((Def::Singleton, j)),
        None => None,
    }
}

/// A count that stops growing at 2^32, past every value an `i32` holds.
pub open spec fn capped(x: int) -> int {
    if x < 0x1_0000_0000 {
        x
    } else {
        0x1_0000_0000
    }
}

proof fn lemma_digits_value_step(d: Seq<char>, k: int)
    requires
        0 <= k < d.len(),
    ensures
        digits_value(d.subrange(0, k + 1)) == digits_value(d.subrange(0, k)) * 10 + (d[k] as int - '0' as int),
{
    assert(d.subrange(0, k + 1).drop_last() =~= d.subrange(0, k));
}

proof fn lemma_digits_value_nonneg(d: Seq<char>)
    requires
        all_digits(d),
    ensures
        digits_value(d) >= 0,
    decreases d.len(),
{
    if d.len() > 0 {
        assert(all_digits(d.drop_last())) by {
            assert forall|k: int| 0 <= k < d.drop_last().len() implies '0' <= #[trigger] d.drop_last()[k] <= '9' by {
                assert(d.drop_last()[k] == d[k]);
            }
        }
        lemma_digits_value_nonneg(d.drop_last());
        assert('0' <= d[d.len() - 1] <= '9');
    }
}

/// The value of an integer literal token, if it fits in an `i32`.
fn int_literal_i32(s: &Vec<char>, tok: Token) -> (r: Option<i32>)
    requires
        tok_in_bounds(s@, tok),
    ensures
        r == (match int_literal_value(tok_text(s@, tok)) {
            Some(v) => if i32::MIN <= v <= i32::MAX {
                Some(v as i32)
            } else {
                None
            },
            None => None,
        }),
{
    let ghost d = tok_text(s@, tok);
    let neg = tok.start < tok.end && s[tok.start] == '-';
    let from = if neg {
        tok.start + 1
    } else {
        tok.start
    };
    if from >= tok.end {
        assert(!all_digits(d) || d.len() == 0) by {
            if d.len() > 0 {
                assert(d[0] == '-');
            }
        }
        return None;
    }
    let ghost digits = s@.subrange(from as int, tok.end as int);
    let mut acc: u64 = 0;
    let mut k = from;
    while k < tok.end
        invariant
            tok.start <= from <= k <= tok.end <= s@.len(),
            from < tok.end,
            d == tok_text(s@, tok),
            neg == (tok.start < tok.end && s@[tok.start as int] == '-'),
            from == if neg { tok.start + 1 } else { tok.start as int },
            digits == s@.subrange(from as int, tok.end as int),
            all_digits(digits.subrange(0, k - from)),
            acc == capped(digits_value(digits.subrange(0, k - from))),
        decreases tok.end - k,
    {
        let c = s[k];
        if !('0' <= c && c <= '9') {
            proof {
                assert(digits[k - from] == c);
                if neg {
                    assert(d.drop_first() =~= digits);
                    assert(!all_digits(d.drop_first()));
                    assert(d[0] == '-');
                    assert(!all_digits(d));
                } else {
                    assert(d =~= digits);
                    assert(!all_digits(d));
                }
            }
            return None;
        }
        let dv: u64 = (c as u64) - ('0' as u64);
        proof {
            lemma_digits_value_step(digits, k - from);
            assert(all_digits(digits.subrange(0, k - from + 1))) by {
                assert forall|j: int| 0 <= j < k - from + 1 implies '0' <= #[trigger] digits.subrange(0, k - from + 1)[j] <= '9' by {
                    if j < k - from {
                        assert(digits.subrange(0, k - from + 1)[j] == digits.subrange(0, k - from)[j]);
                    }
                }
            }
            lemma_digits_value_nonneg(digits.subrange(0, k - from));
        }
        if acc >= 0x1_0000_0000 {
            acc = 0x1_0000_0000;
        } else {
            let n = acc * 10 + dv;
            acc = if n > 0x1_0000_0000 {
                0x1_0000_0000
            } else {
                n
            };
        }
        k = k + 1;
    }
    proof {
        assert(digits.subrange(0, k - from) =~= digits);
        lemma_digits_value_nonneg(digits);
        if neg {
            assert(d.drop_first() =~= digits);
        } else {
            assert(d =~= digits);
            if d.len() > 1 && d[0] == '-' {
                assert(s@[tok.start as int] == '-');
            }
        }
    }
    if neg {
        if acc > 0x8000_0000 {
            None
        } else if acc == 0x8000_0000 {
            Some(i32::MIN)
        } else {
            let a = acc as i32;
            Some(-a)
        }
    } else {
        if acc > 0x7fff_ffff {
            None
        } else {
            Some(acc as i32)
        }
    }
}

/// A value of an enumeration.
fn parse_enum_value(s: &Vec<char>, t: &Vec<Token>, i: usize) -> (r: Option<(EnumValue, usize)>)
    ensures
        match r {
            Some((v, j)) => sp_enum_value(s@, t@, i as int) == Some((enum_value_view(v), j as int)),
            None => sp_enum_value(s@, t@, i as int) is None,
        },
{
    if !ident_at_exec(s, t, i) {
        return None;
    }
    let name = text_of(s, t[i]);
    if punct_at_exec(t, i + 1, '=') {
        if kind_at_exec(t, i + 2, TokKind::Int) && t[i + 2].start <= t[i + 2].end && t[i + 2].end <= s.len() {
            match int_literal_i32(s, t[i + 2]) {
                Some(v) => Some((EnumValue { name, value: Some(v) }, i + 3)),
                None => None,
            }
        } else {
            None
        }
    } else {
        Some((EnumValue { name, value: None }, i + 1))
    }
}

/// An enumeration.
pub fn parse_enum(s: &Vec<char>, t: &Vec<Token>, i: usize) -> (r: Option<(Def, usize)>)
    ensures
        match r {
            Some((d, j)) => sp_enum(s@, t@, i as int) == Some((def_view(d), j as int)),
            None => sp_enum(s@, t@, i as int) is None,
        },
{
    if !(word_at_exec(s, t, i, "enum") && ident_at_exec(s, t, i + 1) && punct_at_exec(t, i + 2, '{')) {
        return None;
    }
    let name = text_of(s, t[i + 1]);
    let mut values: Vec<EnumValue> = Vec::new();
    assert(enum_values_view(values@) =~= Seq::empty());
    let start = i + 3;
    if start >= t.len() {
        return None;
    }
    let mut k = start;
    while k < t.len()
        invariant
            k <= t@.len(),
            start == i + 3,
            word_at(s@, t@, i as int, "enum"@),
            ident_at(s@, t@, i + 1),
            punct_at(t@, i + 2, '{'),
            name@ == tok_text(s@, t@[i + 1]),
            sp_enum_values(s@, t@, start as int, Seq::empty()) == sp_enum_values(s@, t@, k as int, enum_values_view(values@)),
        decreases t@.len() - k,
    {
        if punct_at_exec(t, k, '}') {
            return Some((Def::Item(IDLItem::Enum(Enum { name, values })), k + 1));
        }
        match parse_enum_value(s, t, k) {
            Some((v, j)) => {
                let ghost before = values@;
                let ghost vv = enum_value_view(v);
                values.push(v);
                assert(enum_values_view(values@) =~= enum_values_view(before).push(vv));
                if punct_at_exec(t, j, ',') && k < j {
                    k = j + 1;
                } else if punct_at_exec(t, j, '}') {
                    return Some((Def::Item(IDLItem::Enum(Enum { name, values })), j + 1));
                } else {
                    return None;
                }
            },
            None => {
                return None;
            },
        }
    }
    None
}

/// A field: a name and its type.
fn parse_field(s: &Vec<char>, t: &Vec<Token>, i: usize) -> (r: Option<(Field, usize)>)
    ensures
        match r {
            Some((f, j)) => sp_field(s@, t@, i as int) == Some((field_view(f), j as int)),
            None => sp_field(s@, t@, i as int) is None,
        },
{
    if !(ident_at_exec(s, t, i) && punct_at_exec(t, i + 1, ':')) {
        return None;
    }
    match parse_type(s, t, i + 2) {
        Some((ty, j)) => {
            let name = text_of(s, t[i]);
            Some((Field { name, field_type: ty, optional: false }, j))
        },
        None => None,
    }
}

/// The serialization format word at `i`, if any, and where `struct` is then
/// expected.
fn parse_struct_format(s: &Vec<char>, t: &Vec<Token>, i: usize) -> (r: (SerializationFormat, usize))
    ensures
        struct_format(s@, t@, i as int) == (r.0, r.1 as int),
{
    if word_at_exec(s, t, i, "json") {
        (SerializationFormat::Json, i + 1)
    } else if word_at_exec(s, t, i, "msgpack") {
        (SerializationFormat::MessagePack, i + 1)
    } else if word_at_exec(s, t, i, "protobuf") {
        (SerializationFormat::Protobuf, i + 1)
    } else {
        (SerializationFormat::Json, i)
    }
}

/// A structure.
pub fn parse_struct(s: &Vec<char>, t: &Vec<Token>, i: usize) -> (r: Option<(Def, usize)>)
    ensures
        match r {
            Some((d, j)) => sp_struct(s@, t@, i as int) == Some((def_view(d), j as int)),
            None => sp_struct(s@, t@, i as int) is None,
        },
{
    let (format, k0) = parse_struct_format(s, t, i);
    if !(word_at_exec(s, t, k0, "struct") && ident_at_exec(s, t, k0 + 1) && punct_at_exec(t, k0 + 2, '{')) {
        return None;
    }
    let name = text_of(s, t[k0 + 1]);
    let mut fields: Vec<Field> = Vec::new();
    assert(fields_view(fields@) =~= Seq::empty());
    let start = k0 + 3;
    if start >= t.len() {
        return None;
    }
    let mut k = start;
    while k < t.len()
        invariant
            k <= t@.len(),
            start == k0 + 3,
            struct_format(s@, t@, i as int) == (format, k0 as int),
            word_at(s@, t@, k0 as int, "struct"@),
            ident_at(s@, t@, k0 + 1),
            punct_at(t@, k0 + 2, '{'),
            name@ == tok_text(s@, t@[k0 + 1]),
            sp_fields(s@, t@, start as int, Seq::empty()) == sp_fields(s@, t@, k as int, fields_view(fields@)),
        decreases t@.len() - k,
    {
        if punct_at_exec(t, k, '}') {
            return Some(
                (Def::Item(IDLItem::Struct(StructDef { name, fields, serialization_format: format })), k + 1),
            );
        }
        match parse_field(s, t, k) {
            Some((f, j)) => {
                if !(punct_at_exec(t, j, ';') && k < j) {
                    return None;
                }
                let ghost before = fields@;
                let ghost fv = field_view(f);
                fields.push(f);
                assert(fields_view(fields@) =~= fields_view(before).push(fv));
                k = j + 1;
            },
            None => {
                return None;
            },
        }
    }
    None
}

/// A callback definition.
pub fn parse_callback(s: &Vec<char>, t: &Vec<Token>, i: usize) -> (r: Option<(Def, usize)>)
    ensures
        match r {
            Some((d, j)) => sp_callback(s@, t@, i as int) == Some((def_view(d), j as int)),
            None => sp_callback(s@, t@, i as int) is None,
        },
{
    if !(word_at_exec(s, t, i, "callback") && ident_at_exec(s, t, i + 1)) {
        return None;
    }
    match parse_params(s, t, i + 2) {
        Some((ps, j)) => if punct_at_exec(t, j, ';') {
            let name = text_of(s, t[i + 1]);
            Some(
                (
                    Def::Item(IDLItem::Function(Function { name, params: ps, return_type: Type::Void, is_async: false })),
                    j + 1,
                ),
            )
        } else {
            None
        },
        None => None,
    }
}

/// A free function.
pub fn parse_function(s: &Vec<char>, t: &Vec<Token>, i: usize) -> (r: Option<(Def, usize)>)
    ensures
        match r {
            Some((d, j)) => sp_function(s@, t@, i as int) == Some((def_view(d), j as int)),
            None => sp_function(s@, t@, i as int) is None,
        },
{
    match parse_fn_sig(s, t, i) {
        Some((f, j)) => Some((Def::Item(IDLItem::Function(f)), j)),
        None => None,
    }
}

/// A type alias.
pub fn parse_using(s: &Vec<char>, t: &Vec<Token>, i: usize) -> (r: Option<(Def, usize)>)
    ensures
        match r {
            Some((d, j)) => sp_using(s@, t@, i as int) == Some((def_view(d), j as int)),
            None => sp_using(s@, t@, i as int) is None,
        },
{
    if !(word_at_exec(s, t, i, "using") && ident_at_exec(s, t, i + 1) && punct_at_exec(t, i + 2, '=')) {
        return None;
    }
    match parse_type(s, t, i + 3) {
        Some((_ty, j)) => if punct_at_exec(t, j, ';') {
            Some((Def::Skip, j + 1))
        } else {
            None
        },
        None => None,
    }
}

/// A dotted path of words, joined by dots.
fn parse_dotted(s: &Vec<char>, t: &Vec<Token>, i: usize) -> (r: Option<(String, usize)>)
    ensures
        match r {
            Some((m, j)) => sp_dotted(s@, t@, i as int, Seq::empty()) == Some((m@, j as int)),
            None => sp_dotted(s@, t@, i as int, Seq::empty()) is None,
        },
{
    if !any_word_at_exec(s, t, i) {
        return None;
    }
    let mut out: Vec<char> = Vec::new();
    let mut k = i;
    loop
        invariant
            any_word_at(s@, t@, k as int),
            k < t.len(),
            sp_dotted(s@, t@, i as int, Seq::empty()) == sp_dotted(s@, t@, k as int, out@),
        decreases t@.len() - k,
    {
        push_text(&mut out, s, t[k]);
        if punct_at_exec(t, k + 1, '.') && any_word_at_exec(s, t, k + 2) {
            out.push('.');
            k = k + 2;
        } else {
            return Some((string_from_chars(out), k + 1));
        }
    }
}

/// An imported name, possibly renamed.
fn parse_import_item(s: &Vec<char>, t: &Vec<Token>, i: usize) -> (r: Option<(ImportItem, usize)>)
    ensures
        match r {
            Some((x, j)) => sp_import_item(s@, t@, i as int) == Some((import_item_view(x), j as int)),
            None => sp_import_item(s@, t@, i as int) is None,
        },
{
    if !ident_at_exec(s, t, i) {
        return None;
    }
    let original_name = text_of(s, t[i]);
    if word_at_exec(s, t, i + 1, "as") && ident_at_exec(s, t, i + 2) {
        let alias = text_of(s, t[i + 2]);
        Some((ImportItem { original_name, alias: Some(alias) }, i + 3))
    } else {
        Some((ImportItem { original_name, alias: None }, i + 1))
    }
}

/// A comma-separated list of imported names.
fn parse_import_items(s: &Vec<char>, t: &Vec<Token>, i: usize) -> (r: Option<(Vec<ImportItem>, usize)>)
    ensures
        match r {
            Some((v, j)) => sp_import_items(s@, t@, i as int, Seq::empty()) == Some((import_items_view(v@), j as int)),
            None => sp_import_items(s@, t@, i as int, Seq::empty()) is None,
        },
{
    if i >= t.len() {
        return None;
    }
    let mut items: Vec<ImportItem> = Vec::new();
    assert(import_items_view(items@) =~= Seq::empty());
    let mut k = i;
    loop
        invariant
            k < t@.len(),
            sp_import_items(s@, t@, i as int, Seq::empty()) == sp_import_items(s@, t@, k as int, import_items_view(items@)),
        decreases t@.len() - k,
    {
        match parse_import_item(s, t, k) {
            Some((x, j)) => {
                let ghost before = items@;
                let ghost xv = import_item_view(x);
                items.push(x);
                assert(import_items_view(items@) =~= import_items_view(before).push(xv));
                if punct_at_exec(t, j, ',') && k < j {
                    if j + 1 >= t.len() {
                        assert(sp_import_items(s@, t@, j + 1, import_items_view(items@)) is None);
                        return None;
                    }
                    k = j + 1;
                } else {
                    return Some((items, j));
                }
            },
            None => {
                return None;
            },
        }
    }
}

/// The names of an import.
fn parse_import_names(s: &Vec<char>, t: &Vec<Token>, i: usize) -> (r: Option<(Vec<ImportItem>, usize)>)
    ensures
        match r {
            Some((v, j)) => sp_import_names(s@, t@, i as int) == Some((import_items_view(v@), j as int)),
            None => sp_import_names(s@, t@, i as int) is None,
        },
{
    if punct_at_exec(t, i, '{') {
        match parse_import_items(s, t, i + 1) {
            Some((v, j)) => if punct_at_exec(t, j, '}') {
                Some((v, j + 1))
            } else {
                None
            },
            None => None,
        }
    } else if punct_at_exec(t, i, '*') {
        if word_at_exec(s, t, i + 1, "as") && ident_at_exec(s, t, i + 2) {
            let mut star_chars: Vec<char> = Vec::new();
            star_chars.push('*');
            assert(star_chars@ =~= seq!['*']);
            let star = string_from_chars(star_chars);
            let alias = text_of(s, t[i + 2]);
            let mut v: Vec<ImportItem> = Vec::new();
            v.push(ImportItem { original_name: star, alias: Some(alias) });
            assert(import_items_view(v@) =~= seq![
                ImportItemV { original_name: seq!['*'], alias: Some(tok_text(s@, t@[i + 2])) },
            ]);
            Some((v, i + 3))
        } else {
            None
        }
    } else {
        parse_import_items(s, t, i)
    }
}

/// The text between the quotes of a string literal token.
fn str_content_exec(s: &Vec<char>, tok: Token) -> (r: String)
    requires
        tok_in_bounds(s@, tok),
    ensures
        r@ == str_content(s@, tok),
{
    if tok.end >= 2 && tok.start <= tok.end - 2 {
        text_of(s, Token { kind: TokKind::Str, start: tok.start + 1, end: tok.end - 1 })
    } else {
        string_from_chars(Vec::new())
    }
}

/// An import statement.
pub fn parse_import(s: &Vec<char>, t: &Vec<Token>, i: usize) -> (r: Option<(Def, usize)>)
    ensures
        match r {
            Some((d, j)) => sp_import(s@, t@, i as int) == Some((def_view(d), j as int)),
            None => sp_import(s@, t@, i as int) is None,
        },
{
    if !word_at_exec(s, t, i, "import") {
        return None;
    }
    match parse_import_names(s, t, i + 1) {
        Some((items, j)) => {
            if !word_at_exec(s, t, j, "from") {
                return None;
            }
            let src = if kind_at_exec(t, j + 1, TokKind::Str) && t[j + 1].start <= t[j + 1].end && t[j + 1].end
                <= s.len() {
                Some((str_content_exec(s, t[j + 1]), j + 2))
            } else {
                parse_dotted(s, t, j + 1)
            };
            match src {
                Some((module, k)) => if punct_at_exec(t, k, ';') {
                    Some((Def::Item(IDLItem::Import(ImportStmt { module, items })), k + 1))
                } else {
                    None
                },
                None => None,
            }
        },
        None => None,
    }
}

fn number_at_exec(t: &Vec<Token>, i: usize) -> (r: bool)
    ensures
        r == number_at(t@, i as int),
        r ==> i < t.len(),
{
    kind_at_exec(t, i, TokKind::Int) || kind_at_exec(t, i, TokKind::Float)
}

/// A version: numbers separated by dots.
fn parse_version(t: &Vec<Token>, i: usize) -> (r: Option<usize>)
    ensures
        match r {
            Some(j) => sp_version(t@, i as int) == Some(j as int),
            None => sp_version(t@, i as int) is None,
        },
{
    if !number_at_exec(t, i) {
        return None;
    }
    let mut k = i;
    while punct_at_exec(t, k + 1, '.') && number_at_exec(t, k + 2)
        invariant
            number_at(t@, k as int),
            k < t.len(),
            sp_version(t@, i as int) == sp_version(t@, k as int),
        decreases t@.len() - k,
    {
        k = k + 2;
    }
    Some(k + 1)
}

/// A module declaration; the position after it.
fn parse_module(s: &Vec<char>, t: &Vec<Token>, i: usize) -> (r: Option<usize>)
    ensures
        match r {
            Some(j) => sp_module(s@, t@, i as int) == Some(j as int),
            None => sp_module(s@, t@, i as int) is None,
        },
{
    if !word_at_exec(s, t, i, "module") {
        return None;
    }
    match parse_dotted(s, t, i + 1) {
        Some((_name, j)) => {
            let k = if punct_at_exec(t, j, '@') {
                parse_version(t, j + 1)
            } else {
                Some(j)
            };
            match k {
                Some(k) => if punct_at_exec(t, k, ';') {
                    Some(k + 1)
                } else {
                    Some(k)
                },
                None => None,
            }
        },
        None => None,
    }
}

/// A top-level definition, chosen by its first word.
pub fn parse_definition(s: &Vec<char>, t: &Vec<Token>, i: usize) -> (r: Option<(Def, usize)>)
    ensures
        match r {
            Some((d, j)) => sp_definition(s@, t@, i as int) == Some((def_view(d), j as int)),
            None => sp_definition(s@, t@, i as int) is None,
        },
{
    if word_at_exec(s, t, i, "interface") {
        parse_interface(s, t, i)
    } else if word_at_exec(s, t, i, "class") {
        parse_class(s, t, i)
    } else if word_at_exec(s, t, i, "singleton") {
        parse_singleton(s, t, i)
    } else if word_at_exec(s, t, i, "enum") {
        parse_enum(s, t, i)
    } else if word_at_exec(s, t, i, "json") || word_at_exec(s, t, i, "msgpack") || word_at_exec(s, t, i, "protobuf")
        || word_at_exec(s, t, i, "struct") {
        parse_struct(s, t, i)
    } else if word_at_exec(s, t, i, "callback") {
        parse_callback(s, t, i)
    } else if word_at_exec(s, t, i, "fn") {
        parse_function(s, t, i)
    } else if word_at_exec(s, t, i, "using") {
        parse_using(s, t, i)
    } else if word_at_exec(s, t, i, "import") {
        parse_import(s, t, i)
    } else {
        None
    }
}

pub open spec fn defs_view(d: Seq<Def>) -> Seq<DefV> {
    d.map_values(|x: Def| def_view(x))
}

/// The definitions from `i` to the end of the tokens.
pub fn parse_defs(s: &Vec<char>, t: &Vec<Token>, i: usize) -> (r: Option<Vec<Def>>)
    ensures
        match r {
            Some(v) => sp_defs(s@, t@, i as int, Seq::empty()) == Some(defs_view(v@)),
            None => sp_defs(s@, t@, i as int, Seq::empty()) is None,
        },
{
    let mut out: Vec<Def> = Vec::new();
    assert(defs_view(out@) =~= Seq::empty());
    if i > t.len() {
        return None;
    }
    let mut k = i;
    while k < t.len()
        invariant
            k <= t@.len(),
            sp_defs(s@, t@, i as int, Seq::empty()) == sp_defs(s@, t@, k as int, defs_view(out@)),
        decreases t@.len() - k,
    {
        match parse_definition(s, t, k) {
            Some((d, j)) => {
                if !(k < j && j <= t.len()) {
                    return None;
                }
                let ghost before = out@;
                let ghost dv = def_view(d);
                out.push(d);
                assert(defs_view(out@) =~= defs_view(before).push(dv));
                k = j;
            },
            None => {
                return None;
            },
        }
    }
    Some(out)
}

/// A whole RIDL file over its tokens.
pub fn parse_tokens(s: &Vec<char>, t: &Vec<Token>) -> (r: Option<Vec<Def>>)
    ensures
        match r {
            Some(v) => sp_idl(s@, t@) == Some(defs_view(v@)),
            None => sp_idl(s@, t@) is None,
        },
{
    if word_at_exec(s, t, 0, "module") {
        match parse_module(s, t, 0) {
            Some(j) => parse_defs(s, t, j),
            None => None,
        }
    } else {
        parse_defs(s, t, 0)
    }
}

/// The rules of the grammar that can be matched against a whole input.
#[allow(non_camel_case_types)]
#[derive(Clone, Copy, Debug, PartialEq, Eq, Structural)]
pub enum Rule {
    idl,
    identifier,
    string_literal,
    integer_literal,
    float_literal,
    type_expr,
    param,
    interface_def,
    class_def,
    singleton_def,
    enum_def,
    struct_def,
    callback_def,
    global_function,
    using_def,
    import_stmt,
    module_decl,
}

/// Why an input was refused.
#[derive(Clone, Copy, Debug, PartialEq, Eq, Structural)]
pub enum ParseError {
    /// The input is not a sequence of tokens, or not an instance of the rule.
    Syntax,
    /// The input is well formed but holds a definition that yields no item
    /// of the syntax tree (a singleton).
    UnexpectedDefinition,
}

/// Whether the tokens `t` of the source `s` start with an instance of the
/// rule (for `idl`: are, all of them, one RIDL file).
pub open spec fn rule_accepts(rule: Rule, s: Seq<char>, t: Seq<Token>) -> bool {
    match rule {
        Rule::idl => sp_idl(s, t) is Some,
        Rule::identifier => t.len() >= 1 && ident_at(s, t, 0),
        Rule::string_literal => t.len() >= 1 && kind_at(t, 0, TokKind::Str),
        Rule::integer_literal => t.len() >= 1 && kind_at(t, 0, TokKind::Int),
        Rule::float_literal => t.len() >= 1 && kind_at(t, 0, TokKind::Float),
        Rule::type_expr => sp_type(s, t, 0) is Some,
        Rule::param => sp_param(s, t, 0) is Some,
        Rule::interface_def => sp_interface(s, t, 0) is Some,
        Rule::class_def => sp_class(s, t, 0) is Some,
        Rule::singleton_def => sp_singleton(s, t, 0) is Some,
        Rule::enum_def => sp_enum(s, t, 0) is Some,
        Rule::struct_def => sp_struct(s, t, 0) is Some,
        Rule::callback_def => sp_callback(s, t, 0) is Some,
        Rule::global_function => sp_function(s, t, 0) is Some,
        Rule::using_def => sp_using(s, t, 0) is Some,
        Rule::import_stmt => sp_import(s, t, 0) is Some,
        Rule::module_decl => sp_module(s, t, 0) is Some,
    }
}

/// Whether the text starts with an instance of the rule, less whitespace
/// and comments around its tokens; what follows it is not read. The `idl`
/// rule, a whole RIDL file, takes the whole text.
pub open spec fn text_accepts(rule: Rule, s: Seq<char>) -> bool {
    if rule == Rule::idl {
        match spec_lex(s) {
            Some(t) => rule_accepts(rule, s, t),
            None => false,
        }
    } else {
        rule_accepts(rule, s, spec_lex_prefix(s))
    }
}

/// Whether the tokens start with an instance of the rule (for `idl`: are
/// one RIDL file).
pub fn rule_accepts_exec(rule: Rule, s: &Vec<char>, t: &Vec<Token>) -> (r: bool)
    ensures
        r == rule_accepts(rule, s@, t@),
{
    let n = t.len();
    match rule {
        Rule::idl => parse_tokens(s, t).is_some(),
        Rule::identifier => n >= 1 && ident_at_exec(s, t, 0),
        Rule::string_literal => n >= 1 && kind_at_exec(t, 0, TokKind::Str),
        Rule::integer_literal => n >= 1 && kind_at_exec(t, 0, TokKind::Int),
        Rule::float_literal => n >= 1 && kind_at_exec(t, 0, TokKind::Float),
        Rule::type_expr => parse_type(s, t, 0).is_some(),
        Rule::param => super::grammar::parse_param(s, t, 0).is_some(),
        Rule::interface_def => parse_interface(s, t, 0).is_some(),
        Rule::class_def => parse_class(s, t, 0).is_some(),
        Rule::singleton_def => parse_singleton(s, t, 0).is_some(),
        Rule::enum_def => parse_enum(s, t, 0).is_some(),
        Rule::struct_def => parse_struct(s, t, 0).is_some(),
        Rule::callback_def => parse_callback(s, t, 0).is_some(),
        Rule::global_function => parse_function(s, t, 0).is_some(),
        Rule::using_def => parse_using(s, t, 0).is_some(),
        Rule::import_stmt => parse_import(s, t, 0).is_some(),
        Rule::module_decl => parse_module(s, t, 0).is_some(),
    }
}

/// The characters of a string, in order.
pub(crate) fn chars_of(text: &str) -> (r: Vec<char>)
    ensures
        r@ == text@,
{
    let mut out: Vec<char> = Vec::new();
    let ghost src = text@;
    for c in iter: text.chars()
        invariant
            iter.seq() == src,
            out@ == src.take(iter.index() as int),
    {
        proof {
            assert(src.take(iter.index() + 1) =~= src.take(iter.index() as int).push(c));
        }
        out.push(c);
    }
    proof {
        assert(src.take(src.len() as int) =~= src);
    }
    out
}

/// Matches a rule at the start of an input (the `idl` rule against the
/// whole input).
pub fn parse_rule(rule: Rule, input: &str) -> (r: Result<(), ParseError>)
    ensures
        r is Ok <==> text_accepts(rule, input@),
        r is Err ==> r == Err::<(), ParseError>(ParseError::Syntax),
{
    let s = chars_of(input);
    let ok = match rule {
        Rule::idl => match lex(&s) {
            Some(t) => rule_accepts_exec(rule, &s, &t),
            None => false,
        },
        _ => {
            let t = lex_prefix(&s);
            rule_accepts_exec(rule, &s, &t)
        },
    };
    if ok {
        Ok(())
    } else {
        Err(ParseError::Syntax)
    }
}

/// The parser of the RIDL grammar.
pub struct RIDLParser;

impl RIDLParser {
    /// Matches a rule of the grammar at the start of an input (the `idl`
    /// rule against the whole input).
    pub fn parse(rule: Rule, input: &str) -> (r: Result<(), ParseError>)
        ensures
            r is Ok <==> text_accepts(rule, input@),
            r is Err ==> r == Err::<(), ParseError>(ParseError::Syntax),
    {
        parse_rule(rule, input)
    }
}

/// The parser of RIDL files.
pub struct IDLParser;

impl IDLParser {
    /// Matches a rule of the grammar at the start of an input (the `idl`
    /// rule against the whole input).
    pub fn parse(rule: Rule, input: &str) -> (r: Result<(), ParseError>)
        ensures
            r is Ok <==> text_accepts(rule, input@),
            r is Err ==> r == Err::<(), ParseError>(ParseError::Syntax),
    {
        parse_rule(rule, input)
    }
}

/// The definitions of a RIDL text, if it is well formed.
pub open spec fn spec_parse_defs(s: Seq<char>) -> Option<Seq<DefV>> {
    match spec_lex(s) {
        Some(t) => sp_idl(s, t),
        None => None,
    }
}

/// What parsing a RIDL text gives: its items, or why it was refused.
pub open spec fn spec_parse_idl(s: Seq<char>) -> Result<Seq<ItemV>, ParseError> {
    match spec_parse_defs(s) {
        None => Err(ParseError::Syntax),
        Some(d) => match defs_items(d) {
            Some(items) => Ok(items),
            None => Err(ParseError::UnexpectedDefinition),
        },
    }
}

proof fn lemma_defs_items_prefix_none(d: Seq<DefV>, k: int)
    requires
        0 <= k <= d.len(),
        defs_items(d.take(k)) is None,
    ensures
        defs_items(d) is None,
    decreases d.len(),
{
    if k == d.len() {
        assert(d.take(k) =~= d);
    } else {
        assert(d.drop_last().take(k) =~= d.take(k));
        lemma_defs_items_prefix_none(d.drop_last(), k);
    }
}

/// The items of the definitions, in order; `None` at a singleton.
fn defs_to_items(defs: Vec<Def>) -> (r: Option<Vec<IDLItem>>)
    ensures
        match r {
            Some(v) => defs_items(defs_view(defs@)) == Some(items_view(v@)),
            None => defs_items(defs_view(defs@)) is None,
        },
{
    let ghost dv = defs_view(defs@);
    let mut rest = defs;
    let mut items: Vec<IDLItem> = Vec::new();
    let ghost mut n: int = 0;
    assert(dv.take(0) =~= Seq::<DefV>::empty());
    assert(items_view(items@) =~= Seq::empty());
    while rest.len() > 0
        invariant
            0 <= n <= dv.len(),
            dv == defs_view(defs@),
            rest@.len() == dv.len() - n,
            defs_view(rest@) == dv.skip(n),
            defs_items(dv.take(n)) == Some(items_view(items@)),
        decreases rest@.len(),
    {
        let ghost before = items@;
        let ghost rest_before = rest@;
        let d = rest.remove(0);
        proof {
            assert(defs_view(rest_before)[0] == def_view(d));
            assert(dv.skip(n)[0] == def_view(d));
            assert(dv.take(n + 1).drop_last() =~= dv.take(n));
            assert(dv.take(n + 1).last() == dv[n]);
            assert forall|k: int| 0 <= k < rest@.len() implies #[trigger] defs_view(rest@)[k] == dv.skip(n + 1)[k] by {
                assert(rest@[k] == rest_before[k + 1]);
                assert(defs_view(rest_before)[k + 1] == dv.skip(n)[k + 1]);
            }
            assert(defs_view(rest@) =~= dv.skip(n + 1));
        }
        match d {
            Def::Item(x) => {
                let ghost xv = item_view(x);
                items.push(x);
                assert(items_view(items@) =~= items_view(before).push(xv));
            },
            Def::Skip => {},
            Def::Singleton => {
                proof {
                    assert(dv[n] == DefV::Singleton);
                    assert(defs_items(dv.take(n + 1)) is None);
                    lemma_defs_items_prefix_none(dv, n + 1);
                }
                return None;
            },
        }
        proof {
            n = n + 1;
        }
    }
    assert(dv.take(n) =~= dv);
    Some(items)
}

/// Parses a RIDL text into its items.
pub fn parse_idl(content: &str) -> (r: Result<Vec<IDLItem>, ParseError>)
    ensures
        match r {
            Ok(v) => spec_parse_idl(content@) == Ok::<Seq<ItemV>, ParseError>(items_view(v@)),
            Err(e) => spec_parse_idl(content@) == Err::<Seq<ItemV>, ParseError>(e),
        },
{
    let s = chars_of(content);
    let t = match lex(&s) {
        Some(t) => t,
        None => {
            return Err(ParseError::Syntax);
        },
    };
    match parse_tokens(&s, &t) {
        Some(defs) => match defs_to_items(defs) {
            Some(items) => Ok(items),
            None => Err(ParseError::UnexpectedDefinition),
        },
        None => Err(ParseError::Syntax),
    }
}

} // verus!
