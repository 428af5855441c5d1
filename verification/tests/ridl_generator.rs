use mquickjs_rs::ridl::ast::{IDLItem, Type};
use mquickjs_rs::ridl::generator::{
    generate_c_bindings, generate_code, generate_rust_glue, generate_stdlib_descriptions, rust_type_name,
};
use mquickjs_rs::ridl::parser::parse_idl;

fn items_of(src: &str) -> Vec<IDLItem> {
    match parse_idl(src) {
        Ok(items) => items,
        Err(e) => panic!("parse failed: {:?}", e),
    }
}

#[test]
fn rust_type_name_of_basic_types() {
    assert_eq!(rust_type_name(&Type::Bool), "bool");
    assert_eq!(rust_type_name(&Type::Int), "i32");
    assert_eq!(rust_type_name(&Type::Double), "f64");
    assert_eq!(rust_type_name(&Type::Void), "()");
    assert_eq!(rust_type_name(&Type::Null), "Option<()>");
    assert_eq!(rust_type_name(&Type::Any), "serde_json::Value");
}

#[test]
fn rust_type_name_of_nested_types() {
    let t = Type::MapType(Box::new(Type::String), Box::new(Type::Array(Box::new(Type::Int))));
    assert_eq!(rust_type_name(&t), "std::collections::HashMap<String, Vec<i32>>");
    let o = Type::Optional(Box::new(Type::Custom("Person".to_string())));
    assert_eq!(rust_type_name(&o), "Option<Person>");
    let u = Type::Union(vec![Type::String, Type::Int]);
    assert_eq!(rust_type_name(&u), "serde_json::Value");
    let g = Type::Group(Box::new(Type::Bool));
    assert_eq!(rust_type_name(&g), "bool");
}

#[test]
fn type_to_string_writes_ridl_syntax() {
    let t = Type::Optional(Box::new(Type::Group(Box::new(Type::Union(vec![Type::String, Type::Int])))));
    assert_eq!(t.to_string(), "(string | int)?");
    let m = Type::MapType(Box::new(Type::String), Box::new(Type::Array(Box::new(Type::Custom("Person".to_string())))));
    assert_eq!(m.to_string(), "map<string, array<Person>>");
    let u = Type::Union(vec![Type::Bool, Type::Null, Type::Any]);
    assert_eq!(u.to_string(), "bool | null | any");
    assert_eq!(Type::Union(vec![]).to_string(), "");
}

#[test]
fn rust_glue_of_enum_with_negative_value() {
    let items = items_of("enum LogLevel { DEBUG = 0, INFO = -1, WARN }");
    assert_eq!(
        generate_rust_glue(&items),
        "// Auto-generated Rust glue code\n\n// Enum: LogLevel\npub enum LogLevel {\n    DEBUG = 0,\n    INFO = -1,\n    WARN,\n}\n\n"
    );
}

#[test]
fn c_bindings_of_enum_quote_the_names() {
    let items = items_of("enum LogLevel { DEBUG = 0, INFO = -1 }");
    assert_eq!(
        generate_c_bindings(&items),
        "// Auto-generated C bindings\n\n#include \"mquickjs.h\"\n\n// C bindings for enum: LogLevel\n// Values: [EnumValue { name: \"DEBUG\", value: Some(0) }, EnumValue { name: \"INFO\", value: Some(-1) }]\n\n"
    );
}

#[test]
fn c_bindings_of_enum_without_values() {
    let items = items_of("enum Empty { }");
    assert_eq!(
        generate_c_bindings(&items),
        "// Auto-generated C bindings\n\n#include \"mquickjs.h\"\n\n// C bindings for enum: Empty\n// Values: []\n\n"
    );
}

#[test]
fn glue_of_global_function() {
    let items = items_of("fn add(a: int, b: int) -> int;");
    assert_eq!(
        generate_c_bindings(&items),
        "// Auto-generated C bindings\n\n#include \"mquickjs.h\"\n\n// Global function: add\nJSValue add_function(JSContext *ctx, JSValue this_val, int argc, JSValue *argv);\n\n"
    );
    let rust = generate_rust_glue(&items);
    assert!(rust.starts_with("// Auto-generated Rust glue code\n\npub fn add(a: i32, b: i32) -> i32 {\n"));
    assert_eq!(generate_stdlib_descriptions(&items), "// Auto-generated standard library descriptions\n\n// Function: add\n");
}

#[test]
fn glue_of_class_with_constructor() {
    let items = items_of("class Person { name: string; Person(name: string); fn getName() -> string; }");
    assert_eq!(
        generate_c_bindings(&items),
        "// Auto-generated C bindings\n\n#include \"mquickjs.h\"\n\n// C bindings for class: Person\n// Constructor: Person\nJSValue Person_constructor(JSContext *ctx, JSValue this_val, int argc, JSValue *argv);\n\n// Method: Person::getName\nJSValue Person_getName_method(JSContext *ctx, JSValue this_val, int argc, JSValue *argv);\n\n"
    );
    assert_eq!(
        generate_stdlib_descriptions(&items),
        "// Auto-generated standard library descriptions\n\n// Class: Person\n// Constructor: Person::new\n// Method: Person::getName\n"
    );
    let rust = generate_rust_glue(&items);
    assert!(rust.starts_with("// Auto-generated Rust glue code\n\n// Class: Person\npub struct Person {\n    // Class implementation\n}\n\nJSValue Person_constructor(JSContext *ctx, JSValue new_target, int argc, JSValue *argv) {\n"));
    assert!(rust.contains("JSValue Person_getName_method(JSContext *ctx, JSValue this_val, int argc, JSValue *argv) {\n"));
}

#[test]
fn glue_of_interface() {
    let items = items_of("interface Console { fn log(message: string); fn error(message: string); }");
    assert_eq!(
        generate_stdlib_descriptions(&items),
        "// Auto-generated standard library descriptions\n\n// Interface: Console\n// Method: Console::log\n// Method: Console::error\n"
    );
    assert_eq!(
        generate_c_bindings(&items),
        "// Auto-generated C bindings\n\n#include \"mquickjs.h\"\n\n// C bindings for interface: Console\n// Method: Console::log\nJSValue Console_log_method(JSContext *ctx, JSValue this_val, int argc, JSValue *argv);\n\n// Method: Console::error\nJSValue Console_error_method(JSContext *ctx, JSValue this_val, int argc, JSValue *argv);\n\n"
    );
    let rust = generate_rust_glue(&items);
    assert!(rust.starts_with("// Auto-generated Rust glue code\n\n// Interface: Console\npub struct Console {\n    // Interface implementation\n}\n\nJSValue Console_log_method("));
}

#[test]
fn glue_of_msgpack_struct() {
    let items = items_of("msgpack struct Point { x: int; y: double?; }");
    assert_eq!(
        generate_rust_glue(&items),
        "// Auto-generated Rust glue code\n\n// Struct: Point\n#[derive(serde::Serialize, serde::Deserialize)]\npub struct Point {\n    pub x: i32,\n    pub y: Option<f64>,\n}\n\n"
    );
    assert_eq!(
        generate_c_bindings(&items),
        "// Auto-generated C bindings\n\n#include \"mquickjs.h\"\n\n// C bindings for struct: Point (serialized with MessagePack)\n// Fields: 2\n\n"
    );
}

#[test]
fn glue_of_protobuf_struct() {
    let items = items_of("protobuf struct Packet { data: array<int>; }");
    assert_eq!(
        generate_rust_glue(&items),
        "// Auto-generated Rust glue code\n\n// Struct: Packet\n#[derive(protobuf::Message)]\npub struct Packet {\n    pub data: Vec<i32>,\n}\n\n"
    );
}

#[test]
fn imports_and_aliases_yield_no_glue() {
    let items = items_of("using UserId = int; import A from \"a.proto\";");
    assert_eq!(items.len(), 1);
    assert_eq!(generate_rust_glue(&items), "// Auto-generated Rust glue code\n\n");
    assert_eq!(generate_stdlib_descriptions(&items), "// Auto-generated standard library descriptions\n\n");
}

#[test]
fn generate_code_gives_the_three_texts() {
    let items = items_of("fn ping() -> void; enum E { A }");
    let code = generate_code(&items);
    assert_eq!(code.rust_glue, generate_rust_glue(&items));
    assert_eq!(code.c_bindings, generate_c_bindings(&items));
    assert_eq!(code.stdlib_descriptions, generate_stdlib_descriptions(&items));
}
