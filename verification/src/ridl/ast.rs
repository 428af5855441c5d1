//! The syntax tree of RIDL definitions, and its mathematical view (names as
//! character sequences).

use super::text::{push_str, push_string};
use crate::ridl_glue::string_from_chars;
use vstd::prelude::*;

verus! {

/// A RIDL type.
#[derive(Debug, PartialEq)]
pub enum Type {
    Bool,
    Int,
    Float,
    Double,
    String,
    Void,
    Object,
    Function,
    Callback,
    Null,
    Any,
    Array(Box<Type>),
    MapType(Box<Type>, Box<Type>),
    Union(Vec<Type>),
    Optional(Box<Type>),
    Custom(String),
    Group(Box<Type>),
}

/// The view of a RIDL type.
pub enum TypeV {
    Bool,
    Int,
    Float,
    Double,
    String,
    Void,
    Object,
    Function,
    Callback,
    Null,
    Any,
    Array(Box<TypeV>),
    MapType(Box<TypeV>, Box<TypeV>),
    Union(Seq<TypeV>),
    Optional(Box<TypeV>),
    Custom(Seq<char>),
    Group(Box<TypeV>),
}

/// The views of a sequence of types.
pub open spec fn types_view(s: Seq<Type>) -> Seq<TypeV>
    decreases s,
{
    if s.len() == 0 {
        Seq::empty()
    } else {
        seq![type_view(s[0])] + types_view(s.subrange(1, s.len() as int))
    }
}

/// The view of a type.
pub open spec fn type_view(t: Type) -> TypeV
    decreases t,
{
    match t {
        Type::Bool => TypeV::Bool,
        Type::Int => TypeV::Int,
        Type::Float => TypeV::Float,
        Type::Double => TypeV::Double,
        Type::String => TypeV::String,
        Type::Void => TypeV::Void,
        Type::Object => TypeV::Object,
        Type::Function => TypeV::Function,
        Type::Callback => TypeV::Callback,
        Type::Null => TypeV::Null,
        Type::Any => TypeV::Any,
        Type::Array(inner) => TypeV::Array(Box::new(type_view(*inner))),
        Type::MapType(k, v) => TypeV::MapType(Box::new(type_view(*k)), Box::new(type_view(*v))),
        Type::Union(ts) => TypeV::Union(types_view(ts@)),
        Type::Optional(inner) => TypeV::Optional(Box::new(type_view(*inner))),
        Type::Custom(name) => TypeV::Custom(name@),
        Type::Group(inner) => TypeV::Group(Box::new(type_view(*inner))),
    }
}

/// How a type is written in RIDL source.
pub open spec fn type_text(t: TypeV) -> Seq<char>
    decreases t, 0int,
{
    match t {
        TypeV::Bool => "bool"@,
        TypeV::Int => "int"@,
        TypeV::Float => "float"@,
        TypeV::Double => "double"@,
        TypeV::String => "string"@,
        TypeV::Void => "void"@,
        TypeV::Object => "object"@,
        TypeV::Function => "function"@,
        TypeV::Callback => "callback"@,
        TypeV::Null => "null"@,
        TypeV::Any => "any"@,
        TypeV::Array(inner) => "array<"@ + type_text(*inner) + ">"@,
        TypeV::MapType(k, v) => "map<"@ + type_text(*k) + ", "@ + type_text(*v) + ">"@,
        TypeV::Union(ts) => union_text(ts),
        TypeV::Optional(inner) => type_text(*inner) + "?"@,
        TypeV::Custom(name) => name,
        TypeV::Group(inner) => "("@ + type_text(*inner) + ")"@,
    }
}

/// The alternatives of a union, separated by ` | `.
pub open spec fn union_text(ts: Seq<TypeV>) -> Seq<char>
    decreases ts, 1int,
{
    if ts.len() == 0 {
        Seq::empty()
    } else if ts.len() == 1 {
        type_text(ts[0])
    } else {
        union_text(ts.subrange(0, ts.len() - 1)) + " | "@ + type_text(ts[ts.len() - 1])
    }
}

fn push_type_text(out: &mut Vec<char>, t: &Type)
    ensures
        final(out)@ == old(out)@ + type_text(type_view(*t)),
    decreases t,
{
    let ghost start = out@;
    match t {
        Type::Bool => push_str(out, "bool"),
        Type::Int => push_str(out, "int"),
        Type::Float => push_str(out, "float"),
        Type::Double => push_str(out, "double"),
        Type::String => push_str(out, "string"),
        Type::Void => push_str(out, "void"),
        Type::Object => push_str(out, "object"),
        Type::Function => push_str(out, "function"),
        Type::Callback => push_str(out, "callback"),
        Type::Null => push_str(out, "null"),
        Type::Any => push_str(out, "any"),
        Type::Array(inner) => {
            push_str(out, "array<");
            push_type_text(out, inner);
            push_str(out, ">");
            assert(out@ =~= start + type_text(type_view(*t)));
        },
        Type::MapType(k, v) => {
            push_str(out, "map<");
            push_type_text(out, k);
            push_str(out, ", ");
            push_type_text(out, v);
            push_str(out, ">");
            assert(out@ =~= start + type_text(type_view(*t)));
        },
        Type::Union(ts) => {
            let ghost tv = types_view(ts@);
            proof {
                lemma_types_view_len(ts@);
            }
            assert(tv.take(0) =~= Seq::<TypeV>::empty());
            let n = ts.len();
            let mut k: usize = 0;
            while k < n
                invariant
                    *t == Type::Union(*ts),
                    n == ts@.len(),
                    tv == types_view(ts@),
                    tv.len() == n,
                    k <= n,
                    out@ == start + union_text(tv.take(k as int)),
                decreases n - k,
            {
                let ghost before = out@;
                if k > 0 {
                    push_str(out, " | ");
                }
                proof {
                    lemma_types_view_elem(ts@, k as int);
                    assert(decreases_to!(*t => (*t)->Union_0));
                    assert(decreases_to!(*ts => ts@));
                    assert(decreases_to!(ts@ => ts@[k as int]));
                }
                push_type_text(out, &ts[k]);
                proof {
                    let p = tv.take(k + 1);
                    assert(p.subrange(0, p.len() - 1) =~= tv.take(k as int));
                    assert(p[p.len() - 1] == type_view(ts@[k as int]));
                    if k == 0 {
                        assert(p[0] == type_view(ts@[0]));
                    }
                    assert(out@ =~= start + union_text(p));
                }
                k = k + 1;
            }
            assert(tv.take(n as int) =~= tv);
            assert(out@ =~= start + type_text(type_view(*t)));
        },
        Type::Optional(inner) => {
            push_type_text(out, inner);
            push_str(out, "?");
            assert(out@ =~= start + type_text(type_view(*t)));
        },
        Type::Custom(name) => push_string(out, name),
        Type::Group(inner) => {
            push_str(out, "(");
            push_type_text(out, inner);
            push_str(out, ")");
            assert(out@ =~= start + type_text(type_view(*t)));
        },
    }
}

proof fn lemma_types_view_len(s: Seq<Type>)
    ensures
        types_view(s).len() == s.len(),
    decreases s.len(),
{
    if s.len() > 0 {
        lemma_types_view_len(s.subrange(1, s.len() as int));
    }
}

proof fn lemma_types_view_elem(s: Seq<Type>, k: int)
    requires
        0 <= k < s.len(),
    ensures
        types_view(s)[k] == type_view(s[k]),
    decreases s.len(),
{
    let rest = s.subrange(1, s.len() as int);
    lemma_types_view_len(rest);
    if k > 0 {
        lemma_types_view_elem(rest, k - 1);
        assert(rest[k - 1] == s[k]);
    }
}

impl Type {
    /// The type as RIDL source writes it: `array<int>`, `map<string, int>`,
    /// `string?`, `(a | b)`, and alternatives of a union separated by ` | `.
    pub fn to_string(&self) -> (r: String)
        ensures
            r@ == type_text(type_view(*self)),
    {
        let mut out: Vec<char> = Vec::new();
        push_type_text(&mut out, self);
        assert(out@ =~= type_text(type_view(*self)));
        string_from_chars(out)
    }
}

/// How a structure is serialized.
#[derive(Debug, Clone, Copy, PartialEq, Eq, Structural)]
pub enum SerializationFormat {
    Json,
    MessagePack,
    Protobuf,
}

/// How a property may be accessed.
#[derive(Debug, Clone, Copy, PartialEq, Eq, Structural)]
pub enum PropertyModifier {
    ReadOnly,
    Const,
    ReadWrite,
}

/// A parameter.
#[derive(Debug)]
pub struct Param {
    pub name: String,
    pub param_type: Type,
    pub optional: bool,
}

pub struct ParamV {
    pub name: Seq<char>,
    pub param_type: TypeV,
    pub optional: bool,
}

pub open spec fn param_view(p: Param) -> ParamV {
    ParamV { name: p.name@, param_type: type_view(p.param_type), optional: p.optional }
}

pub open spec fn params_view(s: Seq<Param>) -> Seq<ParamV> {
    s.map_values(|p: Param| param_view(p))
}

/// A method of an interface or class.
#[derive(Debug)]
pub struct Method {
    pub name: String,
    pub params: Vec<Param>,
    pub return_type: Type,
    pub is_async: bool,
}

/// A free function, callback or constructor.
#[derive(Debug)]
pub struct Function {
    pub name: String,
    pub params: Vec<Param>,
    pub return_type: Type,
    pub is_async: bool,
}

/// The view of a method, function, callback or constructor.
pub struct FunctionV {
    pub name: Seq<char>,
    pub params: Seq<ParamV>,
    pub return_type: TypeV,
    pub is_async: bool,
}

pub open spec fn method_view(m: Method) -> FunctionV {
    FunctionV {
        name: m.name@,
        params: params_view(m.params@),
        return_type: type_view(m.return_type),
        is_async: m.is_async,
    }
}

pub open spec fn methods_view(s: Seq<Method>) -> Seq<FunctionV> {
    s.map_values(|m: Method| method_view(m))
}

pub open spec fn function_view(f: Function) -> FunctionV {
    FunctionV {
        name: f.name@,
        params: params_view(f.params@),
        return_type: type_view(f.return_type),
        is_async: f.is_async,
    }
}

/// A property of a class.
#[derive(Debug)]
pub struct Property {
    pub modifiers: Vec<PropertyModifier>,
    pub name: String,
    pub property_type: Type,
    pub default_value: Option<String>,
}

pub struct PropertyV {
    pub modifiers: Seq<PropertyModifier>,
    pub name: Seq<char>,
    pub property_type: TypeV,
    pub default_value: Option<Seq<char>>,
}

pub open spec fn property_view(p: Property) -> PropertyV {
    PropertyV {
        modifiers: p.modifiers@,
        name: p.name@,
        property_type: type_view(p.property_type),
        default_value: match p.default_value {
            Some(v) => Some(v@),
            None => None,
        },
    }
}

pub open spec fn properties_view(s: Seq<Property>) -> Seq<PropertyV> {
    s.map_values(|p: Property| property_view(p))
}

/// An interface: a named set of methods.
#[derive(Debug)]
pub struct Interface {
    pub name: String,
    pub methods: Vec<Method>,
    pub properties: Vec<Property>,
}

/// A class: a constructor, methods and properties.
#[derive(Debug)]
pub struct Class {
    pub name: String,
    pub constructor: Option<Function>,
    pub methods: Vec<Method>,
    pub properties: Vec<Property>,
}

/// A value of an enumeration.
#[derive(Debug)]
pub struct EnumValue {
    pub name: String,
    pub value: Option<i32>,
}

pub struct EnumValueV {
    pub name: Seq<char>,
    pub value: Option<i32>,
}

pub open spec fn enum_value_view(v: EnumValue) -> EnumValueV {
    EnumValueV { name: v.name@, value: v.value }
}

pub open spec fn enum_values_view(s: Seq<EnumValue>) -> Seq<EnumValueV> {
    s.map_values(|v: EnumValue| enum_value_view(v))
}

/// An enumeration.
#[derive(Debug)]
pub struct Enum {
    pub name: String,
    pub values: Vec<EnumValue>,
}

/// A field of a structure.
#[derive(Debug)]
pub struct Field {
    pub name: String,
    pub field_type: Type,
    pub optional: bool,
}

pub struct FieldV {
    pub name: Seq<char>,
    pub field_type: TypeV,
    pub optional: bool,
}

pub open spec fn field_view(f: Field) -> FieldV {
    FieldV { name: f.name@, field_type: type_view(f.field_type), optional: f.optional }
}

pub open spec fn fields_view(s: Seq<Field>) -> Seq<FieldV> {
    s.map_values(|f: Field| field_view(f))
}

/// A structure and how it is serialized.
#[derive(Debug)]
pub struct StructDef {
    pub name: String,
    pub fields: Vec<Field>,
    pub serialization_format: SerializationFormat,
}

/// A type alias.
#[derive(Debug)]
pub struct UsingDef {
    pub name: String,
    pub alias: String,
    pub target: String,
}

/// A namespace of items.
#[derive(Debug)]
pub struct Namespace {
    pub name: String,
    pub items: Vec<IDLItem>,
}

/// An import statement.
#[derive(Debug)]
pub struct ImportStmt {
    pub module: String,
    pub items: Vec<ImportItem>,
}

/// One imported name, possibly renamed.
#[derive(Debug)]
pub struct ImportItem {
    pub original_name: String,
    pub alias: Option<String>,
}

/// The view of an imported name.
pub struct ImportItemV {
    pub original_name: Seq<char>,
    pub alias: Option<Seq<char>>,
}

pub open spec fn import_item_view(x: ImportItem) -> ImportItemV {
    ImportItemV {
        original_name: x.original_name@,
        alias: match x.alias {
            Some(a) => Some(a@),
            None => None,
        },
    }
}

pub open spec fn import_items_view(s: Seq<ImportItem>) -> Seq<ImportItemV> {
    s.map_values(|x: ImportItem| import_item_view(x))
}

/// An exception type.
#[derive(Debug)]
pub struct Exception {
    pub name: String,
    pub fields: Vec<Field>,
}

/// A top-level RIDL item.
#[derive(Debug)]
pub enum IDLItem {
    Interface(Interface),
    Class(Class),
    Enum(Enum),
    Struct(StructDef),
    Function(Function),
    Using(UsingDef),
    Namespace(Namespace),
    Import(ImportStmt),
    Exception(Exception),
}

/// The view of the items that parsing produces.
pub enum ItemV {
    Interface { name: Seq<char>, methods: Seq<FunctionV>, properties: Seq<PropertyV> },
    Class {
        name: Seq<char>,
        constructor: Option<FunctionV>,
        methods: Seq<FunctionV>,
        properties: Seq<PropertyV>,
    },
    Enum { name: Seq<char>, values: Seq<EnumValueV> },
    Struct { name: Seq<char>, fields: Seq<FieldV>, format: SerializationFormat },
    Function(FunctionV),
    Import { module: Seq<char>, items: Seq<ImportItemV> },
    Other,
}

pub open spec fn item_view(i: IDLItem) -> ItemV {
    match i {
        IDLItem::Interface(x) => ItemV::Interface {
            name: x.name@,
            methods: methods_view(x.methods@),
            properties: properties_view(x.properties@),
        },
        IDLItem::Class(x) => ItemV::Class {
            name: x.name@,
            constructor: match x.constructor {
                Some(f) => Some(function_view(f)),
                None => None,
            },
            methods: methods_view(x.methods@),
            properties: properties_view(x.properties@),
        },
        IDLItem::Enum(x) => ItemV::Enum { name: x.name@, values: enum_values_view(x.values@) },
        IDLItem::Struct(x) => ItemV::Struct {
            name: x.name@,
            fields: fields_view(x.fields@),
            format: x.serialization_format,
        },
        IDLItem::Function(f) => ItemV::Function(function_view(f)),
        IDLItem::Import(x) => ItemV::Import { module: x.module@, items: import_items_view(x.items@) },
        _ => ItemV::Other,
    }
}

pub open spec fn items_view(s: Seq<IDLItem>) -> Seq<ItemV> {
    s.map_values(|i: IDLItem| item_view(i))
}

} // verus!
