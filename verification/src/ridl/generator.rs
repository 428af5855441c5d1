//! The code generator: from RIDL items to the text of the Rust glue, the C
//! bindings and the standard library descriptions. Each text is stated as a
//! function of the items' views, and built by appending to a buffer.

use super::ast::{
    enum_values_view, fields_view, function_view, items_view, method_view, methods_view, params_view,
    type_view, Class, Enum, EnumValue, EnumValueV, FieldV, Function, FunctionV, IDLItem, Interface,
    ItemV, Method, ParamV, PropertyV, SerializationFormat, StructDef, Type, TypeV,
};
use super::text::{int_text, nat_text, push_i32, push_nat, push_str, push_string};
use crate::ridl_glue::string_from_chars;
use vstd::prelude::*;

verus! {

/// The Rust type name of a RIDL type.
pub open spec fn rust_type_text(t: TypeV) -> Seq<char>
    decreases t,
{
    match t {
        TypeV::Bool => "bool"@,
        TypeV::Int => "i32"@,
        TypeV::Float => "f32"@,
        TypeV::Double => "f64"@,
        TypeV::String => "String"@,
        TypeV::Void => "()"@,
        TypeV::Object => "Object"@,
        TypeV::Function => "Function"@,
        TypeV::Callback => "Callback"@,
        TypeV::Null => "Option<()>"@,
        TypeV::Any => "serde_json::Value"@,
        TypeV::Array(inner) => "Vec<"@ + rust_type_text(*inner) + ">"@,
        TypeV::MapType(k, v) => "std::collections::HashMap<"@ + rust_type_text(*k) + ", "@
            + rust_type_text(*v) + ">"@,
        TypeV::Union(_ts) => "serde_json::Value"@,
        TypeV::Optional(inner) => "Option<"@ + rust_type_text(*inner) + ">"@,
        TypeV::Custom(name) => name,
        TypeV::Group(inner) => rust_type_text(*inner),
    }
}

/// Appends the Rust type name of a RIDL type.
fn push_rust_type(out: &mut Vec<char>, t: &Type)
    ensures
        final(out)@ == old(out)@ + rust_type_text(type_view(*t)),
    decreases t,
{
    let ghost start = out@;
    match t {
        Type::Bool => push_str(out, "bool"),
        Type::Int => push_str(out, "i32"),
        Type::Float => push_str(out, "f32"),
        Type::Double => push_str(out, "f64"),
        Type::String => push_str(out, "String"),
        Type::Void => push_str(out, "()"),
        Type::Object => push_str(out, "Object"),
        Type::Function => push_str(out, "Function"),
        Type::Callback => push_str(out, "Callback"),
        Type::Null => push_str(out, "Option<()>"),
        Type::Any => push_str(out, "serde_json::Value"),
        Type::Array(inner) => {
            push_str(out, "Vec<");
            push_rust_type(out, inner);
            push_str(out, ">");
            assert(out@ =~= start + rust_type_text(type_view(*t)));
        },
        Type::MapType(k, v) => {
            push_str(out, "std::collections::HashMap<");
            push_rust_type(out, k);
            push_str(out, ", ");
            push_rust_type(out, v);
            push_str(out, ">");
            assert(out@ =~= start + rust_type_text(type_view(*t)));
        },
        Type::Union(_ts) => push_str(out, "serde_json::Value"),
        Type::Optional(inner) => {
            push_str(out, "Option<");
            push_rust_type(out, inner);
            push_str(out, ">");
            assert(out@ =~= start + rust_type_text(type_view(*t)));
        },
        Type::Custom(name) => push_string(out, name),
        Type::Group(inner) => push_rust_type(out, inner),
    }
}

/// The Rust type name of a RIDL type.
pub fn rust_type_name(idl_type: &Type) -> (r: String)
    ensures
        r@ == rust_type_text(type_view(*idl_type)),
{
    let mut out: Vec<char> = Vec::new();
    push_rust_type(&mut out, idl_type);
    assert(out@ =~= rust_type_text(type_view(*idl_type)));
    string_from_chars(out)
}

/// The Rust stub of a method of a class or interface.
pub open spec fn rust_method_glue(cls: Seq<char>, m: Seq<char>) -> Seq<char> {
    "JSValue "@ + cls + "_"@ + m
        + "_method(JSContext *ctx, JSValue this_val, int argc, JSValue *argv) {\n    // TODO: Implement method\n    return JS_UNDEFINED;\n}\n\n"@
}

/// The Rust stub of a constructor.
pub open spec fn rust_constructor_glue(cls: Seq<char>) -> Seq<char> {
    "JSValue "@ + cls
        + "_constructor(JSContext *ctx, JSValue new_target, int argc, JSValue *argv) {\n    // TODO: Implement constructor\n    return JS_UNDEFINED;\n}\n\n"@
}

/// The Rust stubs of the methods, in order.
pub open spec fn rust_methods_glue(cls: Seq<char>, ms: Seq<FunctionV>) -> Seq<char>
    decreases ms.len(),
{
    if ms.len() == 0 {
        Seq::empty()
    } else {
        rust_methods_glue(cls, ms.drop_last()) + rust_method_glue(cls, ms.last().name)
    }
}

fn generate_rust_method_glue(out: &mut Vec<char>, class_name: &String, method: &Method)
    ensures
        final(out)@ == old(out)@ + rust_method_glue(class_name@, method.name@),
{
    let ghost start = out@;
    push_str(out, "JSValue ");
    push_string(out, class_name);
    push_str(out, "_");
    push_string(out, &method.name);
    push_str(
        out,
        "_method(JSContext *ctx, JSValue this_val, int argc, JSValue *argv) {\n    // TODO: Implement method\n    return JS_UNDEFINED;\n}\n\n",
    );
    assert(out@ =~= start + rust_method_glue(class_name@, method.name@));
}

fn generate_rust_constructor_glue(out: &mut Vec<char>, class_name: &String)
    ensures
        final(out)@ == old(out)@ + rust_constructor_glue(class_name@),
{
    let ghost start = out@;
    push_str(out, "JSValue ");
    push_string(out, class_name);
    push_str(
        out,
        "_constructor(JSContext *ctx, JSValue new_target, int argc, JSValue *argv) {\n    // TODO: Implement constructor\n    return JS_UNDEFINED;\n}\n\n",
    );
    assert(out@ =~= start + rust_constructor_glue(class_name@));
}

fn push_rust_methods_glue(out: &mut Vec<char>, class_name: &String, methods: &Vec<Method>)
    ensures
        final(out)@ == old(out)@ + rust_methods_glue(class_name@, methods_view(methods@)),
{
    let ghost start = out@;
    let ghost ms = methods_view(methods@);
    assert(ms.take(0) =~= Seq::<FunctionV>::empty());
    for k in 0..methods.len()
        invariant
            ms == methods_view(methods@),
            out@ == start + rust_methods_glue(class_name@, ms.take(k as int)),
    {
        generate_rust_method_glue(out, class_name, &methods[k]);
        proof {
            assert(ms.take(k + 1).drop_last() =~= ms.take(k as int));
            assert(ms.take(k + 1).last() == method_view(methods@[k as int]));
            assert(out@ =~= start + rust_methods_glue(class_name@, ms.take(k + 1)));
        }
    }
    assert(ms.take(methods@.len() as int) =~= ms);
}

/// The Rust glue of an interface.
pub open spec fn rust_interface_glue(name: Seq<char>, methods: Seq<FunctionV>) -> Seq<char> {
    "// Interface: "@ + name + "\n"@ + "pub struct "@ + name + " {\n"@ + "    // Interface implementation\n"@
        + "}\n\n"@ + rust_methods_glue(name, methods)
}

fn generate_rust_interface_glue(out: &mut Vec<char>, interface: &Interface)
    ensures
        final(out)@ == old(out)@ + rust_interface_glue(interface.name@, methods_view(interface.methods@)),
{
    let ghost start = out@;
    push_str(out, "// Interface: ");
    push_string(out, &interface.name);
    push_str(out, "\n");
    push_str(out, "pub struct ");
    push_string(out, &interface.name);
    push_str(out, " {\n");
    push_str(out, "    // Interface implementation\n");
    push_str(out, "}\n\n");
    push_rust_methods_glue(out, &interface.name, &interface.methods);
    assert(out@ =~= start + rust_interface_glue(interface.name@, methods_view(interface.methods@)));
}

/// The Rust glue of a class.
pub open spec fn rust_class_glue(name: Seq<char>, has_constructor: bool, methods: Seq<FunctionV>) -> Seq<char> {
    "// Class: "@ + name + "\n"@ + "pub struct "@ + name + " {\n"@ + "    // Class implementation\n"@
        + "}\n\n"@ + (if has_constructor {
        rust_constructor_glue(name)
    } else {
        Seq::empty()
    }) + rust_methods_glue(name, methods)
}

fn generate_rust_class_glue(out: &mut Vec<char>, class: &Class)
    ensures
        final(out)@ == old(out)@ + rust_class_glue(
            class.name@,
            class.constructor is Some,
            methods_view(class.methods@),
        ),
{
    let ghost start = out@;
    push_str(out, "// Class: ");
    push_string(out, &class.name);
    push_str(out, "\n");
    push_str(out, "pub struct ");
    push_string(out, &class.name);
    push_str(out, " {\n");
    push_str(out, "    // Class implementation\n");
    push_str(out, "}\n\n");
    if class.constructor.is_some() {
        generate_rust_constructor_glue(out, &class.name);
    }
    push_rust_methods_glue(out, &class.name, &class.methods);
    assert(out@ =~= start + rust_class_glue(class.name@, class.constructor is Some, methods_view(class.methods@)));
}

/// The Rust line of an enumeration value.
pub open spec fn rust_enum_value_line(v: EnumValueV) -> Seq<char> {
    match v.value {
        Some(x) => "    "@ + v.name + " = "@ + int_text(x as int) + ",\n"@,
        None => "    "@ + v.name + ",\n"@,
    }
}

pub open spec fn rust_enum_value_lines(vs: Seq<EnumValueV>) -> Seq<char>
    decreases vs.len(),
{
    if vs.len() == 0 {
        Seq::empty()
    } else {
        rust_enum_value_lines(vs.drop_last()) + rust_enum_value_line(vs.last())
    }
}

/// The Rust glue of an enumeration.
pub open spec fn rust_enum_glue(name: Seq<char>, values: Seq<EnumValueV>) -> Seq<char> {
    "// Enum: "@ + name + "\n"@ + "pub enum "@ + name + " {\n"@ + rust_enum_value_lines(values) + "}\n\n"@
}

fn generate_rust_enum_glue(out: &mut Vec<char>, enum_def: &Enum)
    ensures
        final(out)@ == old(out)@ + rust_enum_glue(enum_def.name@, enum_values_view(enum_def.values@)),
{
    let ghost start = out@;
    push_str(out, "// Enum: ");
    push_string(out, &enum_def.name);
    push_str(out, "\n");
    push_str(out, "pub enum ");
    push_string(out, &enum_def.name);
    push_str(out, " {\n");
    let ghost mid = out@;
    let ghost vs = enum_values_view(enum_def.values@);
    assert(vs.take(0) =~= Seq::<EnumValueV>::empty());
    for k in 0..enum_def.values.len()
        invariant
            vs == enum_values_view(enum_def.values@),
            out@ == mid + rust_enum_value_lines(vs.take(k as int)),
    {
        let ghost before = out@;
        let value = &enum_def.values[k];
        match value.value {
            Some(x) => {
                push_str(out, "    ");
                push_string(out, &value.name);
                push_str(out, " = ");
                push_i32(out, x);
                push_str(out, ",\n");
            },
            None => {
                push_str(out, "    ");
                push_string(out, &value.name);
                push_str(out, ",\n");
            },
        }
        proof {
            assert(vs.take(k + 1).drop_last() =~= vs.take(k as int));
            assert(vs.take(k + 1).last() == vs[k as int]);
            assert(out@ =~= before + rust_enum_value_line(vs[k as int]));
            assert(out@ =~= mid + rust_enum_value_lines(vs.take(k + 1)));
        }
    }
    assert(vs.take(enum_def.values@.len() as int) =~= vs);
    push_str(out, "}\n\n");
    assert(out@ =~= start + rust_enum_glue(enum_def.name@, vs));
}

/// The derive line of a structure's serialization format.
pub open spec fn rust_derive_line(f: SerializationFormat) -> Seq<char> {
    match f {
        SerializationFormat::Json => "#[derive(serde::Serialize, serde::Deserialize)]\n"@,
        SerializationFormat::MessagePack => "#[derive(serde::Serialize, serde::Deserialize)]\n"@,
        SerializationFormat::Protobuf => "#[derive(protobuf::Message)]\n"@,
    }
}

/// The Rust line of a field.
pub open spec fn rust_field_line(f: FieldV) -> Seq<char> {
    "    pub "@ + f.name + ": "@ + rust_type_text(f.field_type) + ",\n"@
}

pub open spec fn rust_field_lines(fs: Seq<FieldV>) -> Seq<char>
    decreases fs.len(),
{
    if fs.len() == 0 {
        Seq::empty()
    } else {
        rust_field_lines(fs.drop_last()) + rust_field_line(fs.last())
    }
}

/// The Rust glue of a structure.
pub open spec fn rust_struct_glue(name: Seq<char>, fields: Seq<FieldV>, format: SerializationFormat) -> Seq<char> {
    "// Struct: "@ + name + "\n"@ + rust_derive_line(format) + "pub struct "@ + name + " {\n"@
        + rust_field_lines(fields) + "}\n\n"@
}

fn generate_rust_struct_glue(out: &mut Vec<char>, struct_def: &StructDef)
    ensures
        final(out)@ == old(out)@ + rust_struct_glue(
            struct_def.name@,
            fields_view(struct_def.fields@),
            struct_def.serialization_format,
        ),
{
    let ghost start = out@;
    push_str(out, "// Struct: ");
    push_string(out, &struct_def.name);
    push_str(out, "\n");
    match struct_def.serialization_format {
        SerializationFormat::Json => push_str(out, "#[derive(serde::Serialize, serde::Deserialize)]\n"),
        SerializationFormat::MessagePack => push_str(out, "#[derive(serde::Serialize, serde::Deserialize)]\n"),
        SerializationFormat::Protobuf => push_str(out, "#[derive(protobuf::Message)]\n"),
    }
    push_str(out, "pub struct ");
    push_string(out, &struct_def.name);
    push_str(out, " {\n");
    let ghost mid = out@;
    let ghost fs = fields_view(struct_def.fields@);
    assert(fs.take(0) =~= Seq::<FieldV>::empty());
    for k in 0..struct_def.fields.len()
        invariant
            fs == fields_view(struct_def.fields@),
            out@ == mid + rust_field_lines(fs.take(k as int)),
    {
        let ghost before = out@;
        let field = &struct_def.fields[k];
        push_str(out, "    pub ");
        push_string(out, &field.name);
        push_str(out, ": ");
        push_rust_type(out, &field.field_type);
        push_str(out, ",\n");
        proof {
            assert(fs.take(k + 1).drop_last() =~= fs.take(k as int));
            assert(fs.take(k + 1).last() == fs[k as int]);
            assert(out@ =~= before + rust_field_line(fs[k as int]));
            assert(out@ =~= mid + rust_field_lines(fs.take(k + 1)));
        }
    }
    assert(fs.take(struct_def.fields@.len() as int) =~= fs);
    push_str(out, "}\n\n");
    assert(out@ =~= start + rust_struct_glue(struct_def.name@, fs, struct_def.serialization_format));
}

/// A parameter as `name: type`.
pub open spec fn rust_param_text(p: ParamV) -> Seq<char> {
    p.name + ": "@ + rust_type_text(p.param_type)
}

/// The parameters as `name: type`, separated by `, `.
pub open spec fn rust_params_text(ps: Seq<ParamV>) -> Seq<char>
    decreases ps.len(),
{
    if ps.len() == 0 {
        Seq::empty()
    } else if ps.len() == 1 {
        rust_param_text(ps[0])
    } else {
        rust_params_text(ps.drop_last()) + ", "@ + rust_param_text(ps.last())
    }
}

/// The Rust stub of a free function.
pub open spec fn rust_function_glue(f: FunctionV) -> Seq<char> {
    "pub fn "@ + f.name + "("@ + rust_params_text(f.params) + ") -> "@ + rust_type_text(f.return_type)
        + " {\n    todo!(\"Function implementation\");\n}\n\n"@
}

fn generate_rust_function_glue(out: &mut Vec<char>, function: &Function)
    ensures
        final(out)@ == old(out)@ + rust_function_glue(function_view(*function)),
{
    let ghost start = out@;
    push_str(out, "pub fn ");
    push_string(out, &function.name);
    push_str(out, "(");
    let ghost mid = out@;
    let ghost ps = params_view(function.params@);
    assert(ps.take(0) =~= Seq::<ParamV>::empty());
    for k in 0..function.params.len()
        invariant
            ps == params_view(function.params@),
            out@ == mid + rust_params_text(ps.take(k as int)),
    {
        let ghost before = out@;
        let p = &function.params[k];
        if k > 0 {
            push_str(out, ", ");
        }
        push_string(out, &p.name);
        push_str(out, ": ");
        push_rust_type(out, &p.param_type);
        proof {
            assert(ps.take(k + 1).drop_last() =~= ps.take(k as int));
            assert(ps.take(k + 1).last() == ps[k as int]);
            if k == 0 {
                assert(ps.take(1)[0] == ps[0]);
            }
            assert(out@ =~= mid + rust_params_text(ps.take(k + 1)));
        }
    }
    assert(ps.take(function.params@.len() as int) =~= ps);
    push_str(out, ") -> ");
    push_rust_type(out, &function.return_type);
    push_str(out, " {\n    todo!(\"Function implementation\");\n}\n\n");
    assert(out@ =~= start + rust_function_glue(function_view(*function)));
}

/// The Rust glue of one item; items other than interfaces, classes,
/// enumerations, structures and functions have none.
pub open spec fn rust_item_glue(it: ItemV) -> Seq<char> {
    match it {
        ItemV::Interface { name, methods, .. } => rust_interface_glue(name, methods),
        ItemV::Class { name, constructor, methods, .. } => rust_class_glue(name, constructor is Some, methods),
        ItemV::Enum { name, values } => rust_enum_glue(name, values),
        ItemV::Struct { name, fields, format } => rust_struct_glue(name, fields, format),
        ItemV::Function(f) => rust_function_glue(f),
        _ => Seq::empty(),
    }
}

pub open spec fn rust_items_glue(items: Seq<ItemV>) -> Seq<char>
    decreases items.len(),
{
    if items.len() == 0 {
        Seq::empty()
    } else {
        rust_items_glue(items.drop_last()) + rust_item_glue(items.last())
    }
}

/// The text of the Rust glue file.
pub open spec fn rust_glue_text(items: Seq<ItemV>) -> Seq<char> {
    "// Auto-generated Rust glue code\n\n"@ + rust_items_glue(items)
}

fn generate_rust_item_glue(out: &mut Vec<char>, item: &IDLItem)
    ensures
        final(out)@ == old(out)@ + rust_item_glue(super::ast::item_view(*item)),
{
    match item {
        IDLItem::Interface(interface) => generate_rust_interface_glue(out, interface),
        IDLItem::Class(class) => generate_rust_class_glue(out, class),
        IDLItem::Enum(enum_def) => generate_rust_enum_glue(out, enum_def),
        IDLItem::Struct(struct_def) => generate_rust_struct_glue(out, struct_def),
        IDLItem::Function(function) => generate_rust_function_glue(out, function),
        _ => {
            assert(out@ =~= old(out)@ + rust_item_glue(super::ast::item_view(*item)));
        },
    }
}

/// The Rust glue of the items.
pub fn generate_rust_glue(items: &[IDLItem]) -> (r: String)
    ensures
        r@ == rust_glue_text(items_view(items@)),
{
    let mut out: Vec<char> = Vec::new();
    push_str(&mut out, "// Auto-generated Rust glue code\n\n");
    let ghost mid = out@;
    let ghost iv = items_view(items@);
    assert(iv.take(0) =~= Seq::<ItemV>::empty());
    for k in 0..items.len()
        invariant
            iv == items_view(items@),
            out@ == mid + rust_items_glue(iv.take(k as int)),
    {
        let ghost before = out@;
        generate_rust_item_glue(&mut out, &items[k]);
        proof {
            assert(iv.take(k + 1).drop_last() =~= iv.take(k as int));
            assert(iv.take(k + 1).last() == iv[k as int]);
            assert(out@ =~= before + rust_item_glue(iv[k as int]));
            assert(out@ =~= mid + rust_items_glue(iv.take(k + 1)));
        }
    }
    assert(iv.take(items@.len() as int) =~= iv);
    assert(out@ =~= rust_glue_text(iv));
    string_from_chars(out)
}

/// What std's `Debug` writes for a string: the string in double quotes,
/// with the characters that `char::escape_debug` escapes escaped.
pub uninterp spec fn debug_quoted(s: Seq<char>) -> Seq<char>;

/// Calls `format!("{:?}", s)`, std's `Debug` for a string. Its result is
/// named, not stated: which characters std escapes, and how, is left unsaid.
#[verifier::external_body]
fn debug_quote(s: &String) -> (r: String)
    ensures
        r@ == debug_quoted(s@),
{
    format!("{:?}", s)
}

/// The C declaration of a method.
pub open spec fn c_method_decl(cls: Seq<char>, m: Seq<char>) -> Seq<char> {
    "// Method: "@ + cls + "::"@ + m + "\nJSValue "@ + cls + "_"@ + m
        + "_method(JSContext *ctx, JSValue this_val, int argc, JSValue *argv);\n\n"@
}

pub open spec fn c_method_decls(cls: Seq<char>, ms: Seq<FunctionV>) -> Seq<char>
    decreases ms.len(),
{
    if ms.len() == 0 {
        Seq::empty()
    } else {
        c_method_decls(cls, ms.drop_last()) + c_method_decl(cls, ms.last().name)
    }
}

fn push_c_method_decls(out: &mut Vec<char>, class_name: &String, methods: &Vec<Method>)
    ensures
        final(out)@ == old(out)@ + c_method_decls(class_name@, methods_view(methods@)),
{
    let ghost start = out@;
    let ghost ms = methods_view(methods@);
    assert(ms.take(0) =~= Seq::<FunctionV>::empty());
    for k in 0..methods.len()
        invariant
            ms == methods_view(methods@),
            out@ == start + c_method_decls(class_name@, ms.take(k as int)),
    {
        let ghost before = out@;
        let m = &methods[k];
        push_str(out, "// Method: ");
        push_string(out, class_name);
        push_str(out, "::");
        push_string(out, &m.name);
        push_str(out, "\nJSValue ");
        push_string(out, class_name);
        push_str(out, "_");
        push_string(out, &m.name);
        push_str(out, "_method(JSContext *ctx, JSValue this_val, int argc, JSValue *argv);\n\n");
        proof {
            assert(ms.take(k + 1).drop_last() =~= ms.take(k as int));
            assert(ms.take(k + 1).last() == method_view(methods@[k as int]));
            assert(out@ =~= before + c_method_decl(class_name@, m.name@));
            assert(out@ =~= start + c_method_decls(class_name@, ms.take(k + 1)));
        }
    }
    assert(ms.take(methods@.len() as int) =~= ms);
}

/// The C bindings of an interface.
pub open spec fn c_interface_glue(name: Seq<char>, methods: Seq<FunctionV>) -> Seq<char> {
    "// C bindings for interface: "@ + name + "\n"@ + c_method_decls(name, methods)
}

fn generate_c_interface_glue(out: &mut Vec<char>, interface: &Interface)
    ensures
        final(out)@ == old(out)@ + c_interface_glue(interface.name@, methods_view(interface.methods@)),
{
    let ghost start = out@;
    push_str(out, "// C bindings for interface: ");
    push_string(out, &interface.name);
    push_str(out, "\n");
    push_c_method_decls(out, &interface.name, &interface.methods);
    assert(out@ =~= start + c_interface_glue(interface.name@, methods_view(interface.methods@)));
}

/// The C bindings of a class.
pub open spec fn c_class_glue(name: Seq<char>, has_constructor: bool, methods: Seq<FunctionV>) -> Seq<char> {
    "// C bindings for class: "@ + name + "\n"@ + (if has_constructor {
        "// Constructor: "@ + name + "\nJSValue "@ + name
            + "_constructor(JSContext *ctx, JSValue this_val, int argc, JSValue *argv);\n\n"@
    } else {
        Seq::empty()
    }) + c_method_decls(name, methods)
}

fn generate_c_class_glue(out: &mut Vec<char>, class: &Class)
    ensures
        final(out)@ == old(out)@ + c_class_glue(class.name@, class.constructor is Some, methods_view(class.methods@)),
{
    let ghost start = out@;
    push_str(out, "// C bindings for class: ");
    push_string(out, &class.name);
    push_str(out, "\n");
    if class.constructor.is_some() {
        push_str(out, "// Constructor: ");
        push_string(out, &class.name);
        push_str(out, "\nJSValue ");
        push_string(out, &class.name);
        push_str(out, "_constructor(JSContext *ctx, JSValue this_val, int argc, JSValue *argv);\n\n");
    }
    push_c_method_decls(out, &class.name, &class.methods);
    assert(out@ =~= start + c_class_glue(class.name@, class.constructor is Some, methods_view(class.methods@)));
}

/// What `{:?}` writes for an enumeration value.
pub open spec fn enum_value_debug(v: EnumValueV) -> Seq<char> {
    "EnumValue { name: "@ + debug_quoted(v.name) + ", value: "@ + match v.value {
        Some(x) => "Some("@ + int_text(x as int) + ")"@,
        None => "None"@,
    } + " }"@
}

/// The entries of a list of enumeration values, separated by `, `.
pub open spec fn enum_values_debug_entries(vs: Seq<EnumValueV>) -> Seq<char>
    decreases vs.len(),
{
    if vs.len() == 0 {
        Seq::empty()
    } else if vs.len() == 1 {
        enum_value_debug(vs[0])
    } else {
        enum_values_debug_entries(vs.drop_last()) + ", "@ + enum_value_debug(vs.last())
    }
}

/// What `{:?}` writes for a list of enumeration values.
pub open spec fn enum_values_debug(vs: Seq<EnumValueV>) -> Seq<char> {
    "["@ + enum_values_debug_entries(vs) + "]"@
}

/// The C bindings of an enumeration: its values as `{:?}` writes them.
pub open spec fn c_enum_glue(name: Seq<char>, values: Seq<EnumValueV>) -> Seq<char> {
    "// C bindings for enum: "@ + name + "\n// Values: "@ + enum_values_debug(values) + "\n\n"@
}

fn push_enum_value_debug(out: &mut Vec<char>, v: &EnumValue)
    ensures
        final(out)@ == old(out)@ + enum_value_debug(super::ast::enum_value_view(*v)),
{
    let ghost start = out@;
    push_str(out, "EnumValue { name: ");
    let quoted = debug_quote(&v.name);
    push_string(out, &quoted);
    push_str(out, ", value: ");
    match v.value {
        Some(x) => {
            push_str(out, "Some(");
            push_i32(out, x);
            push_str(out, ")");
        },
        None => {
            push_str(out, "None");
        },
    }
    push_str(out, " }");
    assert(out@ =~= start + enum_value_debug(super::ast::enum_value_view(*v)));
}

fn generate_c_enum_glue(out: &mut Vec<char>, enum_def: &Enum)
    ensures
        final(out)@ == old(out)@ + c_enum_glue(enum_def.name@, enum_values_view(enum_def.values@)),
{
    let ghost start = out@;
    push_str(out, "// C bindings for enum: ");
    push_string(out, &enum_def.name);
    push_str(out, "\n// Values: ");
    push_str(out, "[");
    let ghost mid = out@;
    let ghost vs = enum_values_view(enum_def.values@);
    assert(vs.take(0) =~= Seq::<EnumValueV>::empty());
    for k in 0..enum_def.values.len()
        invariant
            vs == enum_values_view(enum_def.values@),
            out@ == mid + enum_values_debug_entries(vs.take(k as int)),
    {
        let ghost before = out@;
        if k > 0 {
            push_str(out, ", ");
        }
        push_enum_value_debug(out, &enum_def.values[k]);
        proof {
            assert(vs.take(k + 1).drop_last() =~= vs.take(k as int));
            assert(vs.take(k + 1).last() == vs[k as int]);
            if k == 0 {
                assert(vs.take(1)[0] == vs[0]);
            }
            assert(out@ =~= mid + enum_values_debug_entries(vs.take(k + 1)));
        }
    }
    assert(vs.take(enum_def.values@.len() as int) =~= vs);
    push_str(out, "]");
    push_str(out, "\n\n");
    assert(out@ =~= start + c_enum_glue(enum_def.name@, vs));
}

/// The name a C comment gives a serialization format.
pub open spec fn format_name(f: SerializationFormat) -> Seq<char> {
    match f {
        SerializationFormat::Json => "JSON"@,
        SerializationFormat::MessagePack => "MessagePack"@,
        SerializationFormat::Protobuf => "Protobuf"@,
    }
}

/// The C bindings of a structure: its format and its number of fields.
pub open spec fn c_struct_glue(name: Seq<char>, format: SerializationFormat, n_fields: nat) -> Seq<char> {
    "// C bindings for struct: "@ + name + " (serialized with "@ + format_name(format) + ")\n// Fields: "@
        + nat_text(n_fields) + "\n\n"@
}

fn generate_c_struct_glue(out: &mut Vec<char>, struct_def: &StructDef)
    ensures
        final(out)@ == old(out)@ + c_struct_glue(
            struct_def.name@,
            struct_def.serialization_format,
            struct_def.fields@.len(),
        ),
{
    let ghost start = out@;
    push_str(out, "// C bindings for struct: ");
    push_string(out, &struct_def.name);
    push_str(out, " (serialized with ");
    match struct_def.serialization_format {
        SerializationFormat::Json => push_str(out, "JSON"),
        SerializationFormat::MessagePack => push_str(out, "MessagePack"),
        SerializationFormat::Protobuf => push_str(out, "Protobuf"),
    }
    push_str(out, ")\n// Fields: ");
    push_nat(out, struct_def.fields.len() as u64);
    push_str(out, "\n\n");
    assert(out@ =~= start + c_struct_glue(struct_def.name@, struct_def.serialization_format, struct_def.fields@.len()));
}

/// The C declaration of a free function.
pub open spec fn c_function_glue(name: Seq<char>) -> Seq<char> {
    "// Global function: "@ + name + "\nJSValue "@ + name
        + "_function(JSContext *ctx, JSValue this_val, int argc, JSValue *argv);\n\n"@
}

fn generate_c_function_glue(out: &mut Vec<char>, function: &Function)
    ensures
        final(out)@ == old(out)@ + c_function_glue(function.name@),
{
    let ghost start = out@;
    push_str(out, "// Global function: ");
    push_string(out, &function.name);
    push_str(out, "\nJSValue ");
    push_string(out, &function.name);
    push_str(out, "_function(JSContext *ctx, JSValue this_val, int argc, JSValue *argv);\n\n");
    assert(out@ =~= start + c_function_glue(function.name@));
}

/// The C bindings of one item.
pub open spec fn c_item_glue(it: ItemV) -> Seq<char> {
    match it {
        ItemV::Interface { name, methods, .. } => c_interface_glue(name, methods),
        ItemV::Class { name, constructor, methods, .. } => c_class_glue(name, constructor is Some, methods),
        ItemV::Enum { name, values } => c_enum_glue(name, values),
        ItemV::Struct { name, fields, format } => c_struct_glue(name, format, fields.len()),
        ItemV::Function(f) => c_function_glue(f.name),
        _ => Seq::empty(),
    }
}

pub open spec fn c_items_glue(items: Seq<ItemV>) -> Seq<char>
    decreases items.len(),
{
    if items.len() == 0 {
        Seq::empty()
    } else {
        c_items_glue(items.drop_last()) + c_item_glue(items.last())
    }
}

/// The text of the C bindings file.
pub open spec fn c_bindings_text(items: Seq<ItemV>) -> Seq<char> {
    "// Auto-generated C bindings\n\n"@ + "#include \"mquickjs.h\"\n\n"@ + c_items_glue(items)
}

fn generate_c_item_glue(out: &mut Vec<char>, item: &IDLItem)
    ensures
        final(out)@ == old(out)@ + c_item_glue(super::ast::item_view(*item)),
{
    match item {
        IDLItem::Interface(interface) => generate_c_interface_glue(out, interface),
        IDLItem::Class(class) => generate_c_class_glue(out, class),
        IDLItem::Enum(enum_def) => generate_c_enum_glue(out, enum_def),
        IDLItem::Struct(struct_def) => generate_c_struct_glue(out, struct_def),
        IDLItem::Function(function) => generate_c_function_glue(out, function),
        _ => {
            assert(out@ =~= old(out)@ + c_item_glue(super::ast::item_view(*item)));
        },
    }
}

/// The C bindings of the items.
pub fn generate_c_bindings(items: &[IDLItem]) -> (r: String)
    ensures
        r@ == c_bindings_text(items_view(items@)),
{
    let mut out: Vec<char> = Vec::new();
    push_str(&mut out, "// Auto-generated C bindings\n\n");
    push_str(&mut out, "#include \"mquickjs.h\"\n\n");
    let ghost mid = out@;
    let ghost iv = items_view(items@);
    assert(iv.take(0) =~= Seq::<ItemV>::empty());
    for k in 0..items.len()
        invariant
            iv == items_view(items@),
            out@ == mid + c_items_glue(iv.take(k as int)),
    {
        let ghost before = out@;
        generate_c_item_glue(&mut out, &items[k]);
        proof {
            assert(iv.take(k + 1).drop_last() =~= iv.take(k as int));
            assert(iv.take(k + 1).last() == iv[k as int]);
            assert(out@ =~= before + c_item_glue(iv[k as int]));
            assert(out@ =~= mid + c_items_glue(iv.take(k + 1)));
        }
    }
    assert(iv.take(items@.len() as int) =~= iv);
    assert(out@ =~= c_bindings_text(iv));
    string_from_chars(out)
}

/// The description line of each method.
pub open spec fn method_lines(owner: Seq<char>, ms: Seq<FunctionV>) -> Seq<char>
    decreases ms.len(),
{
    if ms.len() == 0 {
        Seq::empty()
    } else {
        method_lines(owner, ms.drop_last()) + "// Method: "@ + owner + "::"@ + ms.last().name + "\n"@
    }
}

fn push_method_lines(out: &mut Vec<char>, owner: &String, methods: &Vec<Method>)
    ensures
        final(out)@ == old(out)@ + method_lines(owner@, methods_view(methods@)),
{
    let ghost start = out@;
    let ghost ms = methods_view(methods@);
    assert(ms.take(0) =~= Seq::<FunctionV>::empty());
    for k in 0..methods.len()
        invariant
            ms == methods_view(methods@),
            out@ == start + method_lines(owner@, ms.take(k as int)),
    {
        let ghost before = out@;
        push_str(out, "// Method: ");
        push_string(out, owner);
        push_str(out, "::");
        push_string(out, &methods[k].name);
        push_str(out, "\n");
        proof {
            assert(ms.take(k + 1).drop_last() =~= ms.take(k as int));
            assert(ms.take(k + 1).last() == method_view(methods@[k as int]));
            assert(out@ =~= start + method_lines(owner@, ms.take(k + 1)));
        }
    }
    assert(ms.take(methods@.len() as int) =~= ms);
}

/// The standard library description of one item.
pub open spec fn stdlib_item_text(it: ItemV) -> Seq<char> {
    match it {
        ItemV::Interface { name, methods, .. } => "// Interface: "@ + name + "\n"@ + method_lines(name, methods),
        ItemV::Class { name, constructor, methods, .. } => "// Class: "@ + name + "\n"@ + (if constructor is Some {
            "// Constructor: "@ + name + "::new\n"@
        } else {
            Seq::empty()
        }) + method_lines(name, methods),
        ItemV::Function(f) => "// Function: "@ + f.name + "\n"@,
        _ => Seq::empty(),
    }
}

pub open spec fn stdlib_items_text(items: Seq<ItemV>) -> Seq<char>
    decreases items.len(),
{
    if items.len() == 0 {
        Seq::empty()
    } else {
        stdlib_items_text(items.drop_last()) + stdlib_item_text(items.last())
    }
}

/// The text of the standard library descriptions file.
pub open spec fn stdlib_descriptions_text(items: Seq<ItemV>) -> Seq<char> {
    "// Auto-generated standard library descriptions\n\n"@ + stdlib_items_text(items)
}

fn push_stdlib_item(out: &mut Vec<char>, item: &IDLItem)
    ensures
        final(out)@ == old(out)@ + stdlib_item_text(super::ast::item_view(*item)),
{
    let ghost start = out@;
    match item {
        IDLItem::Interface(interface) => {
            push_str(out, "// Interface: ");
            push_string(out, &interface.name);
            push_str(out, "\n");
            push_method_lines(out, &interface.name, &interface.methods);
        },
        IDLItem::Class(class) => {
            push_str(out, "// Class: ");
            push_string(out, &class.name);
            push_str(out, "\n");
            if class.constructor.is_some() {
                push_str(out, "// Constructor: ");
                push_string(out, &class.name);
                push_str(out, "::new\n");
            }
            push_method_lines(out, &class.name, &class.methods);
        },
        IDLItem::Function(function) => {
            push_str(out, "// Function: ");
            push_string(out, &function.name);
            push_str(out, "\n");
        },
        _ => {},
    }
    assert(out@ =~= start + stdlib_item_text(super::ast::item_view(*item)));
}

/// The standard library descriptions of the items: each interface, class
/// and function, with their constructors and methods.
pub fn generate_stdlib_descriptions(items: &[IDLItem]) -> (r: String)
    ensures
        r@ == stdlib_descriptions_text(items_view(items@)),
{
    let mut out: Vec<char> = Vec::new();
    push_str(&mut out, "// Auto-generated standard library descriptions\n\n");
    let ghost mid = out@;
    let ghost iv = items_view(items@);
    assert(iv.take(0) =~= Seq::<ItemV>::empty());
    for k in 0..items.len()
        invariant
            iv == items_view(items@),
            out@ == mid + stdlib_items_text(iv.take(k as int)),
    {
        let ghost before = out@;
        push_stdlib_item(&mut out, &items[k]);
        proof {
            assert(iv.take(k + 1).drop_last() =~= iv.take(k as int));
            assert(iv.take(k + 1).last() == iv[k as int]);
            assert(out@ =~= before + stdlib_item_text(iv[k as int]));
            assert(out@ =~= mid + stdlib_items_text(iv.take(k + 1)));
        }
    }
    assert(iv.take(items@.len() as int) =~= iv);
    assert(out@ =~= stdlib_descriptions_text(iv));
    string_from_chars(out)
}

/// The three texts that code generation writes: the Rust glue
/// (`rust_glue.rs`), the C bindings (`c_bindings.c`) and the standard
/// library descriptions (`stdlib_descriptions.txt`).
pub struct GeneratedCode {
    pub rust_glue: String,
    pub c_bindings: String,
    pub stdlib_descriptions: String,
}

/// The texts that code generation writes for the items.
pub fn generate_code(items: &[IDLItem]) -> (r: GeneratedCode)
    ensures
        r.rust_glue@ == rust_glue_text(items_view(items@)),
        r.c_bindings@ == c_bindings_text(items_view(items@)),
        r.stdlib_descriptions@ == stdlib_descriptions_text(items_view(items@)),
{
    GeneratedCode {
        rust_glue: generate_rust_glue(items),
        c_bindings: generate_c_bindings(items),
        stdlib_descriptions: generate_stdlib_descriptions(items),
    }
}


/// The derive line of a structure's Rust glue follows its serialization
/// format alone: JSON and MessagePack structures derive serde's
/// `Serialize` and `Deserialize`, only Protobuf ones `protobuf::Message`.
/// A structure after any items adds its glue after theirs, its heading
/// followed by that derive line and the struct's opening line.
pub proof fn law_struct_glue_derive(
    items: Seq<ItemV>,
    name: Seq<char>,
    fields: Seq<FieldV>,
    format: SerializationFormat,
)
    ensures
        ({
            let derive = match format {
                SerializationFormat::Protobuf => "#[derive(protobuf::Message)]\n"@,
                _ => "#[derive(serde::Serialize, serde::Deserialize)]\n"@,
            };
            let head = rust_glue_text(items) + "// Struct: "@ + name + "\n"@ + derive + "pub struct "@ + name
                + " {\n"@;
            let text = rust_glue_text(items.push(ItemV::Struct { name, fields, format }));
            &&& head.len() <= text.len()
            &&& text.take(head.len() as int) == head
        }),
{
    let it = ItemV::Struct { name, fields, format };
    assert(items.push(it).drop_last() =~= items);
    let derive = match format {
        SerializationFormat::Protobuf => "#[derive(protobuf::Message)]\n"@,
        _ => "#[derive(serde::Serialize, serde::Deserialize)]\n"@,
    };
    assert(rust_derive_line(format) == derive);
    let head = rust_glue_text(items) + "// Struct: "@ + name + "\n"@ + derive + "pub struct "@ + name + " {\n"@;
    let text = rust_glue_text(items.push(it));
    assert(text =~= head + (rust_field_lines(fields) + "}\n\n"@));
    assert(text.take(head.len() as int) =~= head);
}

/// The C bindings of a class declare a constructor exactly when the class
/// has one: a class after any items adds its heading, then, only if it has
/// a constructor, the `<Name>_constructor` declaration, then its method
/// declarations.
pub proof fn law_class_bindings_constructor(
    items: Seq<ItemV>,
    name: Seq<char>,
    constructor: Option<FunctionV>,
    methods: Seq<FunctionV>,
    properties: Seq<PropertyV>,
)
    ensures
        ({
            let text = c_bindings_text(items.push(ItemV::Class { name, constructor, methods, properties }));
            let head = c_bindings_text(items) + "// C bindings for class: "@ + name + "\n"@;
            &&& constructor is None ==> text == head + c_method_decls(name, methods)
            &&& constructor is Some ==> text == head + "// Constructor: "@ + name + "\nJSValue "@ + name
                + "_constructor(JSContext *ctx, JSValue this_val, int argc, JSValue *argv);\n\n"@
                + c_method_decls(name, methods)
        }),
{
    let it = ItemV::Class { name, constructor, methods, properties };
    assert(items.push(it).drop_last() =~= items);
    let text = c_bindings_text(items.push(it));
    let head = c_bindings_text(items) + "// C bindings for class: "@ + name + "\n"@;
    if constructor is None {
        assert(text =~= head + c_method_decls(name, methods));
    } else {
        assert(text =~= head + "// Constructor: "@ + name + "\nJSValue "@ + name
            + "_constructor(JSContext *ctx, JSValue this_val, int argc, JSValue *argv);\n\n"@
            + c_method_decls(name, methods));
    }
}

} // verus!
