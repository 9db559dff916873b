//! The end-to-end behavior of registered entries, exercised through the
//! sample implementation functions the directive lists wire up.

use macro_registry::tokens::Token;
use macro_registry::sequence::compile_directives;
use macro_registry::directive::{BindingDescriptor, MacroKind};
use macro_registry::existing_mod::fizzbuzz;
use macro_registry::hello::hello;
use macro_registry::attr_impl::gen_doc;
use macro_registry::inner::attr_derive_debug;
use macro_registry::subdir::generate_display_impl;
use macro_registry::derive_impl::impl_default;
use macro_registry::derive_impl_with_attrs::impl_with_attributes;
use macro_registry::derive_multiple_attrs::{
    Check, FieldModel, FieldValue, StructModel, generate_validation, validate_record,
};

fn id(s: &str) -> Token {
    Token::Ident(s.to_string())
}

fn sep() -> Token {
    Token::PathSep
}

/// The binding a compiled list exposes under `name`.
fn find_binding<'a>(bs: &'a [BindingDescriptor], name: &str) -> &'a BindingDescriptor {
    for b in bs {
        if b.exposed_name == name {
            return b;
        }
    }
    panic!("no binding named {}", name);
}

/// Forwards a function-like entry's payload to the implementation its
/// call path leaf names, the way the emitted glue does.
fn run_function_entry(bs: &[BindingDescriptor], name: &str, payload: &str) -> String {
    let b = find_binding(bs, name);
    assert!(matches!(b.kind, MacroKind::Function));
    let leaf = b.call_path.last().expect("call path never empty").clone();
    match leaf.as_str() {
        "fizzbuzz" => fizzbuzz(payload),
        "hello" => hello(payload),
        other => panic!("no implementation named {}", other),
    }
}

#[test]
fn test_function_macros() {
    // the list wires `greet` to the file-anchored hello and `fizz` to the
    // in-scope fizzbuzz implementation
    let toks = vec![
        id("function"),
        Token::OpenParen,
        id("greet"),
        Token::CloseParen,
        Token::Arrow,
        Token::LitStr("hello/mod.rs".to_string()),
        sep(),
        id("hello"),
        Token::Comma,
        id("function"),
        Token::OpenParen,
        id("fizz"),
        Token::CloseParen,
        Token::Arrow,
        id("fizzbuzz"),
    ];
    let bs = compile_directives(&toks).expect("list compiles");

    // greet
    let result = run_function_entry(&bs, "greet", "\"World\"");
    assert_eq!(result, "\"Hello, World\"");

    // fizzbuzz
    assert_eq!(run_function_entry(&bs, "fizz", "3"), "\"Fizz\"");
    assert_eq!(run_function_entry(&bs, "fizz", "5"), "\"Buzz\"");
    assert_eq!(run_function_entry(&bs, "fizz", "15"), "\"FizzBuzz\"");
    assert_eq!(run_function_entry(&bs, "fizz", "7"), "7");
}

#[test]
fn test_derive_debug_attr_macro() {
    let item = "struct TestStruct { field: i32 }";
    let out = attr_derive_debug("", item);
    assert!(out.contains("TestStruct"));
    assert!(out.starts_with("#[derive(Debug)]"));
    assert_eq!(out, format!("#[derive(Debug)] {}", item));
    let test_field: i32 = 42;
    let debug_str = format!("{:?}", test_field);
    assert!(debug_str.contains("42"));
}

#[test]
fn test_gen_doc_attr_macro() {
    let item = "struct TestStruct { field: String }";
    let out = gen_doc("", item);
    let field = "Hello".to_string();
    let _doc_str = format!("generate_documentation {}", field);
    assert!(out.ends_with(item));
}

#[test]
fn test_derive_display_macros() {
    let out = generate_display_impl("struct TestDisplay;");
    assert!(out.contains("This is a TestDisplay"));

    let out_enum = generate_display_impl("enum TestEnum { A, B }");
    assert!(out_enum.contains("This is a TestEnum"));
}

#[test]
fn test_derive_default_macros() {
    let out = impl_default("struct TestDefault { field: i32 }");
    assert!(out.contains("impl ::std::default::Default for TestDefault"));
}

#[test]
fn test_derive_with_attrs() {
    // the regular node (without attributes)
    let regular = impl_with_attributes("struct RegularNode { data: String }");
    assert!(regular.contains("\"unknown\""));
    assert!(regular.contains("false"));

    // the special node (with a node_category attribute)
    let special = impl_with_attributes(
        "#[node_category(\"special\")]\nstruct SpecialNode { data: String }",
    );
    assert!(special.contains("\"special\""));
    assert!(special.contains("true"));
}

#[test]
fn test_validation_derive() {
    let fields = vec![
        FieldModel { name: "name".to_string(), checks: vec![Check::Required] },
        FieldModel {
            name: "password".to_string(),
            checks: vec![Check::LengthMin(8), Check::LengthMax(64)],
        },
        FieldModel {
            name: "age".to_string(),
            checks: vec![Check::RangeMin(13), Check::RangeMax(120)],
        },
    ];
    let model = StructModel { name: "User".to_string(), fields };
    let out = generate_validation(&model);
    assert!(out.contains("impl Validate for User"));

    // Valid user
    let valid_user = vec![
        FieldValue::Text("John".to_string()),
        FieldValue::Text("secure_password".to_string()),
        FieldValue::Num(30),
    ];
    assert!(validate_record(&model.fields, &valid_user).is_ok());

    // Invalid user - missing required field
    let missing_name = vec![
        FieldValue::Missing,
        FieldValue::Text("secure_password".to_string()),
        FieldValue::Num(30),
    ];
    assert!(validate_record(&model.fields, &missing_name).is_err());

    // Invalid user - password too short
    let short_password = vec![
        FieldValue::Text("John".to_string()),
        FieldValue::Text("short".to_string()),
        FieldValue::Num(30),
    ];
    assert!(validate_record(&model.fields, &short_password).is_err());

    // Invalid user - age out of range
    let invalid_age = vec![
        FieldValue::Text("John".to_string()),
        FieldValue::Text("secure_password".to_string()),
        FieldValue::Num(10),
    ];
    assert!(validate_record(&model.fields, &invalid_age).is_err());
}
