use mquickjs_rs::ridl::ast::{IDLItem, PropertyModifier, SerializationFormat, Type};
use mquickjs_rs::ridl::parser::{parse_idl, ParseError, RIDLParser, Rule};

#[test]
fn import_with_alias_and_dotted_source() {
    let items = parse_idl("import NetworkPacket as Packet from Packet.proto;").unwrap();
    assert_eq!(items.len(), 1);
    match &items[0] {
        IDLItem::Import(stmt) => {
            assert_eq!(stmt.module, "Packet.proto");
            assert_eq!(stmt.items.len(), 1);
            assert_eq!(stmt.items[0].original_name, "NetworkPacket");
            assert_eq!(stmt.items[0].alias, Some("Packet".to_string()));
        }
        _ => panic!("Expected Import"),
    }
}

#[test]
fn import_star_from_string_source() {
    let items = parse_idl("import * as net from \"net.proto\";").unwrap();
    match &items[0] {
        IDLItem::Import(stmt) => {
            assert_eq!(stmt.module, "net.proto");
            assert_eq!(stmt.items.len(), 1);
            assert_eq!(stmt.items[0].original_name, "*");
            assert_eq!(stmt.items[0].alias, Some("net".to_string()));
        }
        _ => panic!("Expected Import"),
    }
}

#[test]
fn import_braced_list() {
    let items = parse_idl("import { A, B as C } from x.y.z;").unwrap();
    match &items[0] {
        IDLItem::Import(stmt) => {
            assert_eq!(stmt.module, "x.y.z");
            assert_eq!(stmt.items.len(), 2);
            assert_eq!(stmt.items[0].original_name, "A");
            assert_eq!(stmt.items[0].alias, None);
            assert_eq!(stmt.items[1].original_name, "B");
            assert_eq!(stmt.items[1].alias, Some("C".to_string()));
        }
        _ => panic!("Expected Import"),
    }
}

#[test]
fn enum_values_at_the_i32_limits() {
    let items = parse_idl("enum E { LOW = -2147483648, HIGH = 2147483647, NEXT }").unwrap();
    match &items[0] {
        IDLItem::Enum(e) => {
            assert_eq!(e.values[0].value, Some(i32::MIN));
            assert_eq!(e.values[1].value, Some(i32::MAX));
            assert_eq!(e.values[2].value, None);
        }
        _ => panic!("Expected Enum"),
    }
}

#[test]
fn enum_value_beyond_i32_is_refused() {
    assert_eq!(parse_idl("enum E { A = 2147483648 }").unwrap_err(), ParseError::Syntax);
    assert_eq!(parse_idl("enum E { A = -2147483649 }").unwrap_err(), ParseError::Syntax);
    assert_eq!(parse_idl("enum E { A = 99999999999999999999999 }").unwrap_err(), ParseError::Syntax);
}

#[test]
fn enum_with_trailing_comma() {
    let items = parse_idl("enum E { A, B, }").unwrap();
    match &items[0] {
        IDLItem::Enum(e) => assert_eq!(e.values.len(), 2),
        _ => panic!("Expected Enum"),
    }
}

#[test]
fn singleton_is_an_unexpected_definition() {
    let r = parse_idl("fn f(); singleton console { fn log(m: string); }");
    assert_eq!(r.unwrap_err(), ParseError::UnexpectedDefinition);
}

#[test]
fn syntax_error_takes_precedence_over_singleton() {
    let r = parse_idl("singleton console { } fn f(");
    assert_eq!(r.unwrap_err(), ParseError::Syntax);
}

#[test]
fn comments_and_whitespace_are_ignored() {
    let items = parse_idl("/* block */ fn f(); // line\n\tfn g(x: int) -> bool;").unwrap();
    assert_eq!(items.len(), 2);
    match &items[1] {
        IDLItem::Function(f) => {
            assert_eq!(f.name, "g");
            assert_eq!(f.return_type, Type::Bool);
            assert_eq!(f.params[0].param_type, Type::Int);
        }
        _ => panic!("Expected Function"),
    }
}

#[test]
fn unterminated_block_comment_is_refused() {
    assert_eq!(parse_idl("fn f(); /* open").unwrap_err(), ParseError::Syntax);
}

#[test]
fn class_members_of_every_kind() {
    let src = "class C { const MAX: int = 150; readonly property on: bool; property p: string; var v: int = 1; proto var w: int; opaque { a: int, b: string; } q: double; C(); fn m(); }";
    let items = parse_idl(src).unwrap();
    match &items[0] {
        IDLItem::Class(c) => {
            assert_eq!(c.properties.len(), 4);
            assert_eq!(c.properties[0].name, "MAX");
            assert_eq!(c.properties[0].modifiers, vec![PropertyModifier::Const]);
            assert_eq!(c.properties[0].default_value, Some("150".to_string()));
            assert_eq!(c.properties[1].modifiers, vec![PropertyModifier::ReadOnly]);
            assert_eq!(c.properties[2].modifiers, vec![PropertyModifier::ReadWrite]);
            assert_eq!(c.properties[3].name, "q");
            assert_eq!(c.properties[3].property_type, Type::Double);
            assert_eq!(c.constructor.as_ref().unwrap().name, "C");
            assert_eq!(c.methods.len(), 1);
            assert_eq!(c.methods[0].return_type, Type::Void);
        }
        _ => panic!("Expected Class"),
    }
}

#[test]
fn interface_keeps_only_methods() {
    let items = parse_idl("interface I { name: string; fn a() -> int; }").unwrap();
    match &items[0] {
        IDLItem::Interface(i) => {
            assert_eq!(i.methods.len(), 1);
            assert_eq!(i.properties.len(), 0);
        }
        _ => panic!("Expected Interface"),
    }
}

#[test]
fn struct_without_format_is_json() {
    let items = parse_idl("struct S { a: int; }").unwrap();
    match &items[0] {
        IDLItem::Struct(s) => assert_eq!(s.serialization_format, SerializationFormat::Json),
        _ => panic!("Expected Struct"),
    }
    let items = parse_idl("protobuf struct P { a: int; }").unwrap();
    match &items[0] {
        IDLItem::Struct(s) => assert_eq!(s.serialization_format, SerializationFormat::Protobuf),
        _ => panic!("Expected Struct"),
    }
}

#[test]
fn types_of_every_shape() {
    let items = parse_idl("fn f(a: map<string, int>, b: (int | string)?, c: callback(x: int) -> bool, d: Person) -> any;").unwrap();
    match &items[0] {
        IDLItem::Function(f) => {
            assert_eq!(f.params[0].param_type, Type::MapType(Box::new(Type::String), Box::new(Type::Int)));
            assert_eq!(
                f.params[1].param_type,
                Type::Optional(Box::new(Type::Group(Box::new(Type::Union(vec![Type::Int, Type::String])))))
            );
            assert_eq!(f.params[2].param_type, Type::Callback);
            assert_eq!(f.params[3].param_type, Type::Custom("Person".to_string()));
            assert_eq!(f.return_type, Type::Any);
        }
        _ => panic!("Expected Function"),
    }
}

#[test]
fn module_declaration_is_skipped() {
    let items = parse_idl("module a.b@1.2.3; fn f();").unwrap();
    assert_eq!(items.len(), 1);
    assert!(RIDLParser::parse(Rule::module_decl, "module a.b@1.2").is_ok());
    assert!(RIDLParser::parse(Rule::module_decl, "module @1").is_err());
}

#[test]
fn params_may_be_named_by_keywords() {
    assert!(RIDLParser::parse(Rule::param, "callback: callback").is_ok());
    assert!(RIDLParser::parse(Rule::identifier, "callback").is_err());
    assert!(RIDLParser::parse(Rule::identifier, "a b").is_ok());
    assert!(RIDLParser::parse(Rule::identifier, "callback b").is_err());
}

#[test]
fn rules_match_at_the_start_of_the_input() {
    assert!(RIDLParser::parse(Rule::type_expr, "int extra").is_ok());
    assert!(RIDLParser::parse(Rule::type_expr, "int @ #").is_ok());
    assert!(RIDLParser::parse(Rule::type_expr, "@ int").is_err());
    assert!(RIDLParser::parse(Rule::idl, "fn f(); @").is_err());
    assert!(RIDLParser::parse(Rule::idl, "fn f(); fn").is_err());
    assert!(RIDLParser::parse(Rule::integer_literal, "-12").is_ok());
    assert!(RIDLParser::parse(Rule::float_literal, "12").is_err());
    assert!(RIDLParser::parse(Rule::string_literal, "\"a\\\"b\"").is_ok());
    assert!(RIDLParser::parse(Rule::idl, "").is_ok());
}

#[test]
fn readme_module_is_accepted() {
    let src = r#"
module my.app@1.0.0;

import { Helper } from "helper_lib";

class Calculator {
    opaque {
        history: array<Traced<Value>>
    }

    fn add(a: i32, b: i32) -> i32;
    fn getHistory() -> array<i32>;
}

singleton MathService {
    fn initialize() -> void;
    readonly property version: string;
}
"#;
    assert!(RIDLParser::parse(Rule::idl, src).is_ok());
    assert_eq!(parse_idl(src).unwrap_err(), ParseError::UnexpectedDefinition);
}

#[test]
fn readme_definitions_parse() {
    let src = r#"
class MyClass {
    const MAX: i32 = 100;
    var count: i32 = 0;
    proto var state: i32 = 0;
    readonly property name: string;
    property value: i32;
    constructor(x: i32);
    fn doSomething() -> void;

    opaque {
        held: Traced<Value>
        items: array<Traced<Value>>
    }
}
interface Drawable {
    fn draw(ctx: object) -> void;
}
enum Color { RED, GREEN, BLUE }
json struct Config {
    name: string;
    value: i32;
}
callback EventHandler(event: object);
using StringMap = map<string, string>;
import { Foo, Bar } from "my_lib";
import { Helper as H } from "utils";
import * as Utils from "utils";
"#;
    let items = parse_idl(src).unwrap();
    assert_eq!(items.len(), 8);
    match &items[0] {
        IDLItem::Class(c) => {
            assert_eq!(c.properties.len(), 3);
            assert_eq!(c.properties[0].property_type, Type::Custom("i32".to_string()));
            assert_eq!(c.constructor.as_ref().unwrap().name, "constructor");
            assert_eq!(c.methods.len(), 1);
        }
        _ => panic!("Expected Class"),
    }
    match &items[2] {
        IDLItem::Enum(e) => assert_eq!(e.values.len(), 3),
        _ => panic!("Expected Enum"),
    }
}

#[test]
fn generic_type_keeps_its_source_text() {
    let items = parse_idl("fn f(x: Traced<Value>, y: Pair<int, string>) -> Box< Value >;").unwrap();
    match &items[0] {
        IDLItem::Function(f) => {
            assert_eq!(f.params[0].param_type, Type::Custom("Traced<Value>".to_string()));
            assert_eq!(f.params[1].param_type, Type::Custom("Pair<int, string>".to_string()));
            assert_eq!(f.return_type, Type::Custom("Box< Value >".to_string()));
        }
        _ => panic!("Expected Function"),
    }
}
