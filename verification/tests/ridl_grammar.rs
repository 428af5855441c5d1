use mquickjs_rs::ridl::ast::{IDLItem, SerializationFormat, Type};
use mquickjs_rs::ridl::parser::{parse_idl, IDLParser, RIDLParser, Rule};

#[test]
fn test_identifier() {
    let result = RIDLParser::parse(
        Rule::identifier,
        "validIdentifier123"
    );
    assert!(result.is_ok());
}

#[test]
fn test_string_literal() {
    let result = RIDLParser::parse(
        Rule::string_literal,
        "\"hello world\""
    );
    assert!(result.is_ok());
}

#[test]
fn test_integer_literal() {
    let result = RIDLParser::parse(
        Rule::integer_literal,
        "12345"
    );
    assert!(result.is_ok());
}

#[test]
fn test_float_literal() {
    let result = RIDLParser::parse(
        Rule::float_literal,
        "12.34"
    );
    assert!(result.is_ok());
}

#[test]
fn test_nullable_type() {
    let result = RIDLParser::parse(
        Rule::type_expr,
        "string?"
    );
    assert!(result.is_ok());
}

#[test]
fn test_union_type() {
    let result = RIDLParser::parse(
        Rule::type_expr,
        "string | int | bool"
    );
    assert!(result.is_ok());
}

#[test]
fn test_array_type() {
    let result = RIDLParser::parse(
        Rule::type_expr,
        "array<string>"
    );
    assert!(result.is_ok());
}

#[test]
fn test_map_type() {
    let result = RIDLParser::parse(
        Rule::type_expr,
        "map<string, int>"
    );
    assert!(result.is_ok());
}

#[test]
fn test_group_type() {
    let result = RIDLParser::parse(
        Rule::type_expr,
        "(Person | LogEntry | string)"
    );
    assert!(result.is_ok());
}

#[test]
fn test_interface_definition() {
    let input = r#"
    interface TestInterface {
        fn getValue() -> int;
        fn process(input: string);
        fn optionalParam(name: string?);
    }
    "#;
    
    let result = RIDLParser::parse(
        Rule::interface_def,
        input
    );
    assert!(result.is_ok());
}

#[test]
fn lib_test_class_definition() {
    let input = r#"
    class TestClass {
        name: string;
        age: int;
        const MAX_AGE: int = 150;
        readonly property enabled: bool;
        TestClass(name: string, age: int);
        fn getName() -> string;
        fn setAge(age: int) -> void;
    }
    "#;
    
    let result = RIDLParser::parse(
        Rule::class_def,
        input
    );
    assert!(result.is_ok());
}

#[test]
fn lib_test_enum_definition() {
    let input = r#"
    enum TestEnum {
        VALUE1 = 0,
        VALUE2 = 1,
        VALUE3 = 2
    }
    "#;
    
    let result = RIDLParser::parse(
        Rule::enum_def,
        input
    );
    assert!(result.is_ok());
}

#[test]
fn lib_test_struct_definition() {
    let input = r#"
    json struct TestStruct {
        field1: string;
        field2: int?;
        field3: array<string>;
    }
    "#;
    
    let result = RIDLParser::parse(
        Rule::struct_def,
        input
    );
    assert!(result.is_ok());
}

#[test]
fn test_msgpack_struct_definition() {
    let input = r#"
    msgpack struct TestStruct {
        field1: string;
        field2: int;
    }
    "#;
    
    let result = RIDLParser::parse(
        Rule::struct_def,
        input
    );
    assert!(result.is_ok());
}

#[test]
fn lib_test_callback_definition() {
    let input = r#"
    callback ProcessCallback(result: string | object, success: bool);
    "#;
    
    let result = RIDLParser::parse(
        Rule::callback_def,
        input
    );
    assert!(result.is_ok());
}

#[test]
fn test_function_definition() {
    let input = r#"
    fn add(a: int, b: int) -> int;
    "#;
    
    let result = RIDLParser::parse(
        Rule::global_function,
        input
    );
    assert!(result.is_ok());
}

#[test]
fn test_using_definition() {
    let input = r#"
    using UserId = int;
    "#;
    
    let result = RIDLParser::parse(
        Rule::using_def,
        input
    );
    assert!(result.is_ok());
}

#[test]
fn test_import_definition() {
    let input = r#"
    import NetworkPacket from "Packet.proto";
    "#;
    
    let result = RIDLParser::parse(
        Rule::import_stmt,
        input
    );
    assert!(result.is_ok());
}

#[test]
fn test_complete_ridl_file() {
    let input = r#"
    // 完整的RIDL文件示例
    using UserId = int;
    import NetworkPacket from "Packet.proto";
    
    json struct Person {
        name: string;
        age: int;
        email: string?;
    }
    
    interface UserService {
        fn getUser(id: UserId) -> Person?;
        fn processUsers(users: array<Person>, cb: callback(success: bool));
    }
    
    class UserProcessor {
        cache: map<UserId, Person>?;
        UserProcessor();
        fn processUser(user: Person) -> bool;
    }
    
    enum Status {
        PENDING = 0,
        PROCESSING = 1,
        COMPLETED = 2
    }
    
    callback ResultCallback(success: bool, result: string?);
    
    fn setTimeout(cb: callback(success: bool), delay: int);
    "#;
    
    let result = RIDLParser::parse(
        Rule::idl,
        input
    );
    assert!(result.is_ok());
}

#[test]
fn test_module_definition() {
    let input = r#"
    module system.network@1.0
    interface Network {
        fn getStatus() -> string;
    }
    "#;
    
    let result = RIDLParser::parse(
        Rule::idl,
        input
    );
    assert!(result.is_ok());
}

#[test]
fn test_singleton_definition() {
    let input = r#"
    singleton console {
        fn log(message: string);
        fn error(message: string);
        readonly property enabled: bool;
    }
    "#;
    
    let result = RIDLParser::parse(
        Rule::singleton_def,
        input
    );
    assert!(result.is_ok());
}

#[test]
fn test_complex_union_type() {
    let result = RIDLParser::parse(
        Rule::type_expr,
        "string | int | array<string> | map<string, int> | Person"
    );
    assert!(result.is_ok());
}

#[test]
fn test_complex_nullable_type() {
    let result = RIDLParser::parse(
        Rule::type_expr,
        "(string | int)?"
    );
    assert!(result.is_ok());
}

#[test]
fn test_invalid_interface_missing_brace() {
    let input = r#"interface TestInterface { fn getValue() -> int; "#;  // 缺少闭合大括号
    let result = RIDLParser::parse(Rule::interface_def, input);
    assert!(result.is_err());
}

#[test]
fn test_invalid_type_definition_array() {
    let input = r#"array<"#;  // 不完整的数组类型定义
    let result = RIDLParser::parse(Rule::type_expr, input);
    assert!(result.is_err());
}

#[test]
fn test_invalid_type_definition_map() {
    let input = r#"map<string"#;  // 不完整的映射类型定义
    let result = RIDLParser::parse(Rule::type_expr, input);
    assert!(result.is_err());
}

#[test]
fn test_invalid_enum_definition() {
    let input = r#"enum TestEnum { VALUE1 = 0, "#;  // 缺少闭合大括号
    let result = RIDLParser::parse(Rule::enum_def, input);
    assert!(result.is_err());
}

#[test]
fn test_invalid_struct_definition() {
    let input = r#"struct TestStruct { field1: string; "#;  // 缺少闭合大括号
    let result = RIDLParser::parse(Rule::struct_def, input);
    assert!(result.is_err());
}

#[test]
fn test_invalid_function_definition() {
    let input = r#"fn add(a: int, "#;  // 不完整的函数定义
    let result = RIDLParser::parse(Rule::global_function, input);
    assert!(result.is_err());
}

#[test]
fn test_invalid_callback_definition() {
    let input = r#"callback ProcessCallback("#;  // 不完整的回调定义
    let result = RIDLParser::parse(Rule::callback_def, input);
    assert!(result.is_err());
}

#[test]
fn test_invalid_using_definition() {
    let input = r#"using UserId "#;  // 不完整的using定义
    let result = RIDLParser::parse(Rule::using_def, input);
    assert!(result.is_err());
}

#[test]
fn test_invalid_import_definition() {
    let input = r#"import NetworkPacket from "#;  // 不完整的import定义
    let result = RIDLParser::parse(Rule::import_stmt, input);
    assert!(result.is_err());
}

#[test]
fn test_invalid_class_definition() {
    let input = r#"class TestClass { name: string "#;  // 缺少分号
    let result = RIDLParser::parse(Rule::class_def, input);
    assert!(result.is_err());
}

#[test]
fn test_invalid_singleton_definition() {
    let input = r#"singleton console { fn log(message: string) "#;  // 缺少分号
    let result = RIDLParser::parse(Rule::singleton_def, input);
    assert!(result.is_err());
}

#[test]
fn test_invalid_complete_ridl_file_with_syntax_error() {
    // 一个更复杂的错误用例
    let input = r#"
    interface TestInterface {
        fn getValue() ->;  // 错误：缺少返回类型
    }
    "#;
    
    let result = RIDLParser::parse(Rule::idl, input);
    assert!(result.is_err());
}

#[test]
fn test_invalid_string_literal() {
    let input = r#""hello world"#;  // 缺少闭合引号
    let result = RIDLParser::parse(Rule::string_literal, input);
    assert!(result.is_err());
}

#[test]
fn test_invalid_identifier_with_keyword() {
    let input = r#"interface"#;  // 关键字不能作为标识符
    let result = RIDLParser::parse(Rule::identifier, input);
    assert!(result.is_err());
}

#[test]
fn test_parse_simple_interface() {
    let ridl = r#"
    interface Console {
        fn log(message: string) -> void;
        fn error(message: string) -> void;
    }
    "#;
    
    match parse_idl(ridl) {
        Ok(items) => {
            assert_eq!(items.len(), 1);
            
            match &items[0] {
                IDLItem::Interface(interface) => {
                    assert_eq!(interface.name, "Console");
                    assert_eq!(interface.methods.len(), 2);
                    
                    let method1 = &interface.methods[0];
                    assert_eq!(method1.name, "log");
                    assert_eq!(method1.params.len(), 1);
                    assert_eq!(method1.params[0].name, "message");
                    assert_eq!(method1.params[0].param_type, Type::String);
                    assert_eq!(method1.return_type, Type::Void);
                    
                    let method2 = &interface.methods[1];
                    assert_eq!(method2.name, "error");
                    assert_eq!(method2.params.len(), 1);
                    assert_eq!(method2.params[0].name, "message");
                    assert_eq!(method2.params[0].param_type, Type::String);
                    assert_eq!(method2.return_type, Type::Void);
                }
                _ => panic!("Expected Interface"),
            }
        }
        Err(e) => {
            panic!("Parsing failed with error: {:?}", e);
        }
    }
}

#[test]
fn test_parse_class_with_properties() {
    let ridl = r#"
    class Person {
        name: string;
        age: int;
        Person(name: string, age: int);
        fn getName() -> string;
        fn getAge() -> int;
        fn setAge(age: int) -> void;
    }
    "#;
    
    match parse_idl(ridl) {
        Ok(items) => {
            assert_eq!(items.len(), 1);
            
            match &items[0] {
                IDLItem::Class(class) => {
                    assert_eq!(class.name, "Person");
                    assert_eq!(class.properties.len(), 2);
                    assert!(class.constructor.is_some());
                    assert_eq!(class.methods.len(), 3);
                    
                    // Check properties
                    assert_eq!(class.properties[0].name, "name");
                    assert_eq!(class.properties[0].property_type, Type::String);
                    assert_eq!(class.properties[1].name, "age");
                    assert_eq!(class.properties[1].property_type, Type::Int);
                    
                    // Check constructor
                    let constructor = class.constructor.as_ref().unwrap();
                    assert_eq!(constructor.name, "Person");
                    assert_eq!(constructor.params.len(), 2);
                    assert_eq!(constructor.params[0].name, "name");
                    assert_eq!(constructor.params[0].param_type, Type::String);
                    assert_eq!(constructor.params[1].name, "age");
                    assert_eq!(constructor.params[1].param_type, Type::Int);
                    
                    // Check methods
                    let get_name = &class.methods[0];
                    assert_eq!(get_name.name, "getName");
                    assert_eq!(get_name.return_type, Type::String);
                    
                    let get_age = &class.methods[1];
                    assert_eq!(get_age.name, "getAge");
                    assert_eq!(get_age.return_type, Type::Int);
                    
                    let set_age = &class.methods[2];
                    assert_eq!(set_age.name, "setAge");
                    assert_eq!(set_age.return_type, Type::Void);
                    assert_eq!(set_age.params.len(), 1);
                    assert_eq!(set_age.params[0].name, "age");
                    assert_eq!(set_age.params[0].param_type, Type::Int);
                }
                _ => panic!("Expected Class"),
            }
        }
        Err(e) => {
            panic!("Parsing failed with error: {:?}", e);
        }
    }
}

#[test]
fn mod_test_identifier_parsing() {
    let result = IDLParser::parse(Rule::identifier, "TestInterface");
    assert!(result.is_ok());
}

#[test]
fn mod_test_basic_interface_parsing() {
    // 根据RIDL规范，接口方法必须有返回类型
    let result = IDLParser::parse(Rule::interface_def, 
        "interface TestInterface { fn doSomething(value: int) -> void; }");
    assert!(result.is_ok());
}

#[test]
fn mod_test_simple_interface_parsing() {
    let ridl = r#"
    interface Console {
        fn log(message: string) -> void;
        fn error(message: string) -> void;
    }
    "#;
    
    let result = parse_idl(ridl);
    assert!(result.is_ok());
    
    let items = result.unwrap();
    assert_eq!(items.len(), 1);
    
    match &items[0] {
        IDLItem::Interface(interface) => {
            assert_eq!(interface.name, "Console");
            assert_eq!(interface.methods.len(), 2);
            
            let method1 = &interface.methods[0];
            assert_eq!(method1.name, "log");
            assert_eq!(method1.params.len(), 1);
            assert_eq!(method1.params[0].name, "message");
            assert_eq!(method1.params[0].param_type, Type::String);
            assert_eq!(method1.return_type, Type::Void);
            
            let method2 = &interface.methods[1];
            assert_eq!(method2.name, "error");
            assert_eq!(method2.params.len(), 1);
            assert_eq!(method2.params[0].name, "message");
            assert_eq!(method2.params[0].param_type, Type::String);
            assert_eq!(method2.return_type, Type::Void);
        }
        _ => panic!("Expected Interface"),
    }
}

#[test]
fn mod_test_interface_with_nullable_types() {
    let ridl = r#"
    interface NullableExample {
        fn getName() -> string?;
        fn getAge() -> int?;
        fn processName(name: string?) -> void;
    }
    "#;
    
    let result = parse_idl(ridl);
    assert!(result.is_ok());
    
    let items = result.unwrap();
    assert_eq!(items.len(), 1);
    
    match &items[0] {
        IDLItem::Interface(interface) => {
            assert_eq!(interface.name, "NullableExample");
            assert_eq!(interface.methods.len(), 3);
            
            let method1 = &interface.methods[0];
            assert_eq!(method1.name, "getName");
            // Note: Currently our AST doesn't distinguish nullable types properly
            // This would require enhancement to the AST
            
            let method2 = &interface.methods[1];
            assert_eq!(method2.name, "getAge");
            
            let method3 = &interface.methods[2];
            assert_eq!(method3.name, "processName");
            assert_eq!(method3.params.len(), 1);
            assert_eq!(method3.params[0].name, "name");
            // Check that it's a nullable string type
        }
        _ => panic!("Expected Interface"),
    }
}

#[test]
fn mod_test_interface_with_union_types() {
    let ridl = r#"
    interface DataProcessor {
        fn processInput(data: string | int | array<string>) -> void;
        fn validateData(input: string) -> (bool | object);
    }
    "#;
    
    let result = parse_idl(ridl);
    assert!(result.is_ok());
    
    let items = result.unwrap();
    assert_eq!(items.len(), 1);
}

#[test]
fn mod_test_class_definition() {
    let ridl = r#"
    class Person {
        name: string;
        age: int;
        Person(name: string, age: int);
        fn getName() -> string;
        fn getAge() -> int;
        fn setAge(age: int) -> void;
    }
    "#;
    
    let result = parse_idl(ridl);
    assert!(result.is_ok());
    
    let items = result.unwrap();
    assert_eq!(items.len(), 1);
    
    match &items[0] {
        IDLItem::Class(class) => {
            assert_eq!(class.name, "Person");
            assert_eq!(class.properties.len(), 2);
            assert!(class.constructor.is_some());
            assert_eq!(class.methods.len(), 3);
            
            // Check properties
            assert_eq!(class.properties[0].name, "name");
            assert_eq!(class.properties[0].property_type, Type::String);
            assert_eq!(class.properties[1].name, "age");
            assert_eq!(class.properties[1].property_type, Type::Int);
            
            // Check constructor
            let constructor = class.constructor.as_ref().unwrap();
            assert_eq!(constructor.name, "Person");
            assert_eq!(constructor.params.len(), 2);
            assert_eq!(constructor.params[0].name, "name");
            assert_eq!(constructor.params[0].param_type, Type::String);
            assert_eq!(constructor.params[1].name, "age");
            assert_eq!(constructor.params[1].param_type, Type::Int);
            
            // Check methods
            let get_name = &class.methods[0];
            assert_eq!(get_name.name, "getName");
            assert_eq!(get_name.return_type, Type::String);
            
            let get_age = &class.methods[1];
            assert_eq!(get_age.name, "getAge");
            assert_eq!(get_age.return_type, Type::Int);
            
            let set_age = &class.methods[2];
            assert_eq!(set_age.name, "setAge");
            assert_eq!(set_age.return_type, Type::Void);
            assert_eq!(set_age.params.len(), 1);
            assert_eq!(set_age.params[0].name, "age");
            assert_eq!(set_age.params[0].param_type, Type::Int);
        }
        _ => panic!("Expected Class"),
    }
}

#[test]
fn mod_test_enum_definition() {
    let ridl = r#"
    enum LogLevel {
        DEBUG = 0,
        INFO = 1,
        WARN = 2,
        ERROR = 3
    }
    "#;
    
    let result = parse_idl(ridl);
    assert!(result.is_ok());
    
    let items = result.unwrap();
    assert_eq!(items.len(), 1);
    
    match &items[0] {
        IDLItem::Enum(enum_def) => {
            assert_eq!(enum_def.name, "LogLevel");
            assert_eq!(enum_def.values.len(), 4);
            
            assert_eq!(enum_def.values[0].name, "DEBUG");
            assert_eq!(enum_def.values[0].value, Some(0));
            
            assert_eq!(enum_def.values[1].name, "INFO");
            assert_eq!(enum_def.values[1].value, Some(1));
            
            assert_eq!(enum_def.values[2].name, "WARN");
            assert_eq!(enum_def.values[2].value, Some(2));
            
            assert_eq!(enum_def.values[3].name, "ERROR");
            assert_eq!(enum_def.values[3].value, Some(3));
        }
        _ => panic!("Expected Enum"),
    }
}

#[test]
fn mod_test_struct_definition() {
    let ridl = r#"
    struct Person {
        name: string;
        age: int;
        email: string?;
    }
    "#;
    
    let result = parse_idl(ridl);
    assert!(result.is_ok());
    
    let items = result.unwrap();
    assert_eq!(items.len(), 1);
    
    match &items[0] {
        IDLItem::Struct(struct_def) => {
            assert_eq!(struct_def.name, "Person");
            assert_eq!(struct_def.fields.len(), 3);
            
            assert_eq!(struct_def.fields[0].name, "name");
            assert_eq!(struct_def.fields[0].field_type, Type::String);
            
            assert_eq!(struct_def.fields[1].name, "age");
            assert_eq!(struct_def.fields[1].field_type, Type::Int);
            
            assert_eq!(struct_def.fields[2].name, "email");
            // Note: Currently our AST doesn't distinguish nullable types properly
        }
        _ => panic!("Expected Struct"),
    }
}

#[test]
fn mod_test_json_struct_definition() {
    let ridl = r#"
    json struct Address {
        street: string;
        city: string;
        country: string;
    }
    "#;
    
    let result = parse_idl(ridl);
    assert!(result.is_ok());
    
    let items = result.unwrap();
    assert_eq!(items.len(), 1);
    
    match &items[0] {
        IDLItem::Struct(struct_def) => {
            assert_eq!(struct_def.name, "Address");
            assert_eq!(struct_def.fields.len(), 3);
            assert_eq!(struct_def.serialization_format, SerializationFormat::Json);
        }
        _ => panic!("Expected Struct"),
    }
}

#[test]
fn mod_test_callback_definition() {
    let ridl = r#"
    callback ProcessCallback(success: bool, result: string);
    callback LogCallback(entry: LogEntry);
    "#;
    
    let result = parse_idl(ridl);
    assert!(result.is_ok());
    
    let items = result.unwrap();
    assert_eq!(items.len(), 2);
    
    match &items[0] {
        IDLItem::Function(callback) => {
            assert_eq!(callback.name, "ProcessCallback");
            assert_eq!(callback.params.len(), 2);
            assert_eq!(callback.params[0].name, "success");
            assert_eq!(callback.params[0].param_type, Type::Bool);
            assert_eq!(callback.params[1].name, "result");
            assert_eq!(callback.params[1].param_type, Type::String);
        }
        _ => panic!("Expected Function"),
    }
}

#[test]
fn mod_test_complex_interface_with_callback() {
    let ridl = r#"
    interface CallbackExample {
        fn processData(input: string, callback: ProcessCallback) -> void;
    }
    "#;
    
    let result = parse_idl(ridl);
    assert!(result.is_ok());
    
    let items = result.unwrap();
    assert_eq!(items.len(), 1);
}

#[test]
fn mod_test_global_function() {
    let ridl = r#"
    fn setTimeout(callback: callback, delay: int) -> void;
    fn add(a: int, b: int) -> int;
    "#;
    
    let result = parse_idl(ridl);
    assert!(result.is_ok());
    
    let items = result.unwrap();
    assert_eq!(items.len(), 2);
    
    match &items[0] {
        IDLItem::Function(function) => {
            assert_eq!(function.name, "setTimeout");
            assert_eq!(function.params.len(), 2);
            assert_eq!(function.params[0].name, "callback");
            assert_eq!(function.params[0].param_type, Type::Callback);
            assert_eq!(function.params[1].name, "delay");
            assert_eq!(function.params[1].param_type, Type::Int);
            assert_eq!(function.return_type, Type::Void);
        }
        _ => panic!("Expected Function"),
    }
}

#[test]
fn mod_test_array_and_map_types() {
    let ridl = r#"
    interface ComplexExample {
        fn getItems() -> array<string>;
        fn processArray(items: array<int>) -> void;
        fn getMetadata() -> map<string, string>;
        fn updateConfig(config: object) -> void;
    }
    "#;
    
    let result = parse_idl(ridl);
    assert!(result.is_ok());
    
    let items = result.unwrap();
    assert_eq!(items.len(), 1);
}

#[test]
fn mod_test_namespace_definition() {
    // RIDL不再支持namespace特性，因为JavaScript原生不支持该特性
    // 此测试保留作为说明，但不会通过
    let source = r#"
    namespace Console {
        fn log(message: string);
    }
    "#;
    
    let result = parse_idl(source);
    assert!(result.is_err() || result.unwrap().len() == 0);
}

#[test]
fn mod_test_import_statement() {
    let ridl = r#"
    import NetworkPacket as Packet from Packet.proto;
    import TypeA, TypeB from Types.proto;
    "#;
    
    let result = parse_idl(ridl);
    assert!(result.is_ok());
    
    let items = result.unwrap();
    assert_eq!(items.len(), 2);
}

#[test]
fn test_grammar_test_identifier_parsing() {
    let result = IDLParser::parse(Rule::identifier, "TestInterface");
    assert!(result.is_ok());
}

#[test]
fn test_grammar_test_basic_interface_parsing() {
    // 根据RIDL规范，接口方法必须有返回类型
    let result = IDLParser::parse(Rule::interface_def, 
        "interface TestInterface { fn doSomething(value: int) -> void; }");
    assert!(result.is_ok());
}

#[test]
fn test_grammar_test_simple_interface_parsing() {
    let ridl = r#"
    interface Console {
        fn log(message: string) -> void;
        fn error(message: string) -> void;
    }
    "#;
    
    let result = parse_idl(ridl);
    assert!(result.is_ok());
    
    let items = result.unwrap();
    assert_eq!(items.len(), 1);
    
    match &items[0] {
        IDLItem::Interface(interface) => {
            assert_eq!(interface.name, "Console");
            assert_eq!(interface.methods.len(), 2);
            
            let method1 = &interface.methods[0];
            assert_eq!(method1.name, "log");
            assert_eq!(method1.params.len(), 1);
            assert_eq!(method1.params[0].name, "message");
            assert_eq!(method1.params[0].param_type, Type::String);
            assert_eq!(method1.return_type, Type::Void);
            
            let method2 = &interface.methods[1];
            assert_eq!(method2.name, "error");
            assert_eq!(method2.params.len(), 1);
            assert_eq!(method2.params[0].name, "message");
            assert_eq!(method2.params[0].param_type, Type::String);
            assert_eq!(method2.return_type, Type::Void);
        }
        _ => panic!("Expected Interface"),
    }
}

#[test]
fn test_grammar_test_interface_with_nullable_types() {
    let ridl = r#"
    interface NullableExample {
        fn getName() -> string?;
        fn getAge() -> int?;
        fn processName(name: string?) -> void;
    }
    "#;
    
    let result = parse_idl(ridl);
    assert!(result.is_ok());
    
    let items = result.unwrap();
    assert_eq!(items.len(), 1);
    
    match &items[0] {
        IDLItem::Interface(interface) => {
            assert_eq!(interface.name, "NullableExample");
            assert_eq!(interface.methods.len(), 3);
            
            let method1 = &interface.methods[0];
            assert_eq!(method1.name, "getName");
            // Note: Currently our AST doesn't distinguish nullable types properly
            // This would require enhancement to the AST
            
            let method2 = &interface.methods[1];
            assert_eq!(method2.name, "getAge");
            
            let method3 = &interface.methods[2];
            assert_eq!(method3.name, "processName");
            assert_eq!(method3.params.len(), 1);
            assert_eq!(method3.params[0].name, "name");
            // Check that it's a nullable string type
        }
        _ => panic!("Expected Interface"),
    }
}

#[test]
fn test_grammar_test_interface_with_union_types() {
    let ridl = r#"
    interface DataProcessor {
        fn processInput(data: string | int | array<string>) -> void;
        fn validateData(input: string) -> (bool | object);
    }
    "#;
    
    let result = parse_idl(ridl);
    assert!(result.is_ok());
    
    let items = result.unwrap();
    assert_eq!(items.len(), 1);
}

#[test]
fn test_grammar_test_class_definition() {
    let ridl = r#"
    class Person {
        name: string;
        age: int;
        Person(name: string, age: int);
        fn getName() -> string;
        fn getAge() -> int;
        fn setAge(age: int) -> void;
    }
    "#;
    
    let result = parse_idl(ridl);
    assert!(result.is_ok());
    
    let items = result.unwrap();
    assert_eq!(items.len(), 1);
    
    match &items[0] {
        IDLItem::Class(class) => {
            assert_eq!(class.name, "Person");
            assert_eq!(class.properties.len(), 2);
            assert!(class.constructor.is_some());
            assert_eq!(class.methods.len(), 3);
            
            // Check properties
            assert_eq!(class.properties[0].name, "name");
            assert_eq!(class.properties[0].property_type, Type::String);
            assert_eq!(class.properties[1].name, "age");
            assert_eq!(class.properties[1].property_type, Type::Int);
            
            // Check constructor
            let constructor = class.constructor.as_ref().unwrap();
            assert_eq!(constructor.name, "Person");
            assert_eq!(constructor.params.len(), 2);
            assert_eq!(constructor.params[0].name, "name");
            assert_eq!(constructor.params[0].param_type, Type::String);
            assert_eq!(constructor.params[1].name, "age");
            assert_eq!(constructor.params[1].param_type, Type::Int);
            
            // Check methods
            let getName = &class.methods[0];
            assert_eq!(getName.name, "getName");
            assert_eq!(getName.return_type, Type::String);
            
            let getAge = &class.methods[1];
            assert_eq!(getAge.name, "getAge");
            assert_eq!(getAge.return_type, Type::Int);
            
            let setAge = &class.methods[2];
            assert_eq!(setAge.name, "setAge");
            assert_eq!(setAge.return_type, Type::Void);
            assert_eq!(setAge.params.len(), 1);
            assert_eq!(setAge.params[0].name, "age");
            assert_eq!(setAge.params[0].param_type, Type::Int);
        }
        _ => panic!("Expected Class"),
    }
}

#[test]
fn test_grammar_test_enum_definition() {
    let ridl = r#"
    enum LogLevel {
        DEBUG = 0,
        INFO = 1,
        WARN = 2,
        ERROR = 3
    }
    "#;
    
    let result = parse_idl(ridl);
    assert!(result.is_ok());
    
    let items = result.unwrap();
    assert_eq!(items.len(), 1);
    
    match &items[0] {
        IDLItem::Enum(enum_def) => {
            assert_eq!(enum_def.name, "LogLevel");
            assert_eq!(enum_def.values.len(), 4);
            
            assert_eq!(enum_def.values[0].name, "DEBUG");
            assert_eq!(enum_def.values[0].value, Some(0));
            
            assert_eq!(enum_def.values[1].name, "INFO");
            assert_eq!(enum_def.values[1].value, Some(1));
            
            assert_eq!(enum_def.values[2].name, "WARN");
            assert_eq!(enum_def.values[2].value, Some(2));
            
            assert_eq!(enum_def.values[3].name, "ERROR");
            assert_eq!(enum_def.values[3].value, Some(3));
        }
        _ => panic!("Expected Enum"),
    }
}

#[test]
fn test_grammar_test_struct_definition() {
    let ridl = r#"
    struct Person {
        name: string;
        age: int;
        email: string?;
    }
    "#;
    
    let result = parse_idl(ridl);
    assert!(result.is_ok());
    
    let items = result.unwrap();
    assert_eq!(items.len(), 1);
    
    match &items[0] {
        IDLItem::Struct(struct_def) => {
            assert_eq!(struct_def.name, "Person");
            assert_eq!(struct_def.fields.len(), 3);
            
            assert_eq!(struct_def.fields[0].name, "name");
            assert_eq!(struct_def.fields[0].field_type, Type::String);
            
            assert_eq!(struct_def.fields[1].name, "age");
            assert_eq!(struct_def.fields[1].field_type, Type::Int);
            
            assert_eq!(struct_def.fields[2].name, "email");
            // Note: Currently our AST doesn't distinguish nullable types properly
        }
        _ => panic!("Expected StructDef"),
    }
}

#[test]
fn test_grammar_test_json_struct_definition() {
    let ridl = r#"
    json struct Address {
        street: string;
        city: string;
        country: string;
    }
    "#;
    
    let result = parse_idl(ridl);
    assert!(result.is_ok());
    
    let items = result.unwrap();
    assert_eq!(items.len(), 1);
    
    match &items[0] {
        IDLItem::Struct(struct_def) => {
            assert_eq!(struct_def.name, "Address");
            assert_eq!(struct_def.fields.len(), 3);
            assert_eq!(struct_def.serialization_format, SerializationFormat::Json);
        }
        _ => panic!("Expected StructDef"),
    }
}

#[test]
fn test_grammar_test_callback_definition() {
    let ridl = r#"
    callback ProcessCallback(success: bool, result: string);
    callback LogCallback(entry: LogEntry);
    "#;
    
    let result = parse_idl(ridl);
    assert!(result.is_ok());
    
    let items = result.unwrap();
    assert_eq!(items.len(), 2);
    
    match &items[0] {
        IDLItem::Function(function) => {
            assert_eq!(function.name, "ProcessCallback");
            assert_eq!(function.params.len(), 2);
            assert_eq!(function.params[0].name, "success");
            assert_eq!(function.params[0].param_type, Type::Bool);
            assert_eq!(function.params[1].name, "result");
            assert_eq!(function.params[1].param_type, Type::String);
        }
        _ => panic!("Expected Function (Callback)"),
    }
}

#[test]
fn test_grammar_test_complex_interface_with_callback() {
    let ridl = r#"
    interface CallbackExample {
        fn processData(input: string, callback: ProcessCallback) -> void;
    }
    "#;
    
    let result = parse_idl(ridl);
    assert!(result.is_ok());
    
    let items = result.unwrap();
    assert_eq!(items.len(), 1);
}

#[test]
fn test_grammar_test_global_function() {
    let ridl = r#"
    fn setTimeout(callback: function, delay: int) -> void;
    fn add(a: int, b: int) -> int;
    "#;
    
    let result = parse_idl(ridl);
    assert!(result.is_ok());
    
    let items = result.unwrap();
    assert_eq!(items.len(), 2);
    
    match &items[0] {
        IDLItem::Function(function) => {
            assert_eq!(function.name, "setTimeout");
            assert_eq!(function.params.len(), 2);
            assert_eq!(function.params[0].name, "callback");
            assert_eq!(function.params[0].param_type, Type::Function);
            assert_eq!(function.params[1].name, "delay");
            assert_eq!(function.params[1].param_type, Type::Int);
            assert_eq!(function.return_type, Type::Void);
        }
        _ => panic!("Expected Function"),
    }
}

#[test]
fn test_grammar_test_array_and_map_types() {
    let ridl = r#"
    interface ComplexExample {
        fn getItems() -> array<string>;
        fn processArray(items: array<int>) -> void;
        fn getMetadata() -> map<string, string>;
        fn updateConfig(config: object) -> void;
    }
    "#;
    
    let result = parse_idl(ridl);
    assert!(result.is_ok());
    
    let items = result.unwrap();
    assert_eq!(items.len(), 1);
}

#[test]
fn test_grammar_test_namespace_definition() {
    // RIDL不再支持namespace特性，因为JavaScript原生不支持该特性
    // 此测试保留作为说明，但不会通过
    let source = r#"
    namespace Console {
        fn log(message: string);
    }
    "#;
    
    let result = parse_idl(source);
    assert!(result.is_err() || result.unwrap().len() == 0);
}

#[test]
fn test_grammar_test_import_statement() {
    let ridl = r#"
    import NetworkPacket as Packet from Packet.proto;
    import TypeA, TypeB from Types.proto;
    "#;
    
    let result = parse_idl(ridl);
    assert!(result.is_ok());
    
    let items = result.unwrap();
    assert_eq!(items.len(), 2);
}
