//! Edge cases of the sample implementation functions and the text
//! utilities under them.

use macro_registry::existing_mod::fizzbuzz;
use macro_registry::hello::hello;
use macro_registry::foo::{bar, baz};
use macro_registry::inner::attr_derive_debug;
use macro_registry::attr_impl::gen_doc;
use macro_registry::derive_impl;
use macro_registry::derive_impl_with_attrs;
use macro_registry::subdir;
use macro_registry::derive_multiple_attrs::{
    Check, FieldModel, FieldValue, StructModel, generate_validation, validate_record,
};

#[test]
fn fizzbuzz_trims_and_normalizes_numbers() {
    assert_eq!(fizzbuzz(" 7 "), "7");
    assert_eq!(fizzbuzz("007"), "7");
    assert_eq!(fizzbuzz("-4"), "-4");
    assert_eq!(fizzbuzz("-30"), "\"FizzBuzz\"");
}

#[test]
fn fizzbuzz_treats_garbage_as_zero() {
    // an unparsable payload counts as zero, a multiple of fifteen
    assert_eq!(fizzbuzz("x"), "\"FizzBuzz\"");
    assert_eq!(fizzbuzz(""), "\"FizzBuzz\"");
    assert_eq!(fizzbuzz("99999999999999999999"), "\"FizzBuzz\"");
}

#[test]
fn hello_strips_all_quotes() {
    assert_eq!(hello("\"World\""), "\"Hello, World\"");
    assert_eq!(hello("World"), "\"Hello, World\"");
    assert_eq!(hello(""), "\"Hello, \"");
}

#[test]
fn constant_implementations_ignore_their_payload() {
    assert_eq!(bar("anything"), bar(""));
    assert!(bar("x").contains("\"baz\""));
    assert!(baz("x").contains("\"ofo\""));
}

#[test]
fn derive_debug_prefixes_the_item() {
    assert_eq!(attr_derive_debug("args", "enum E {}"), "#[derive(Debug)] enum E {}");
}

#[test]
fn gen_doc_builds_a_doc_comment() {
    assert_eq!(gen_doc("note", "fn f() {}"), "/// note\nfn f() {}");
}

#[test]
fn word_extraction_falls_back_without_struct() {
    assert_eq!(derive_impl::extract_type_name("enum E {}"), "UnknownStruct");
    assert_eq!(derive_impl::extract_type_name(""), "UnknownStruct");
    // the brace glued to the name is stripped
    assert_eq!(derive_impl::extract_type_name("pub struct S{ x: u8 }"), "S");
    assert_eq!(
        derive_impl_with_attrs::extract_type_name("struct T { x: u8 }"),
        "T"
    );
}

#[test]
fn scan_extraction_handles_struct_enum_and_neither() {
    assert_eq!(subdir::extract_type_name("struct S { x: u8 }"), "S");
    assert_eq!(subdir::extract_type_name("struct Unit;"), "Unit");
    assert_eq!(subdir::extract_type_name("enum E { A }"), "E");
    assert_eq!(subdir::extract_type_name("fn nothing() {}"), "UnknownType");
}

#[test]
fn category_extraction_reads_the_annotation() {
    let out = derive_impl_with_attrs::impl_with_attributes(
        "#[node_category( \"spaced\" )]\nstruct S { x: u8 }",
    );
    assert!(out.contains("\"spaced\""));
    assert!(out.contains("true"));
}

#[test]
fn validation_reports_every_failing_check_in_order() {
    let fields = vec![
        FieldModel { name: "name".to_string(), checks: vec![Check::Required] },
        FieldModel {
            name: "password".to_string(),
            checks: vec![Check::LengthMin(8), Check::LengthMax(64)],
        },
    ];
    let values = vec![FieldValue::Missing, FieldValue::Text("short".to_string())];
    let errors = validate_record(&fields, &values).expect_err("two checks fail");
    assert_eq!(
        errors,
        vec!["Field name is required".to_string(), "Field password is too short".to_string()]
    );
}

#[test]
fn validation_text_carries_the_bounds() {
    let model = StructModel {
        name: "User".to_string(),
        fields: vec![FieldModel {
            name: "age".to_string(),
            checks: vec![Check::RangeMin(13), Check::RangeMax(120)],
        }],
    };
    let out = generate_validation(&model);
    assert!(out.contains("val < 13"));
    assert!(out.contains("val > 120"));
    assert!(out.starts_with("impl Validate for User {"));
    assert!(out.contains("errors.push(\"Field age is below minimum value\".to_string());"));
}
