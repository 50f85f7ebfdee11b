use schema_codegen::keywords::{AdditionalPropertiesKeyword, Keywords};
use schema_codegen::resolver::{default_resolver, Error};
use schema_codegen::context::Context;
use schema_codegen::schema::{JsonSchema, ResolvedJsonSchema};
use schema_codegen::typebuilder::{Scalar, Type};
use schema_codegen::typedef::{RootTypeDefSchema, TypeDef, TypeDefSchema, Metadata};
use schema_codegen::validator::ValidatorState;
use schema_codegen::value::{JsonNumber, JsonValue};

#[test]
fn merge_replaces_scalars() {
    let mut t = Type::Scalar(Scalar::I8);
    t.merge(Type::Scalar(Scalar::U64));
    assert_eq!(t, Type::Scalar(Scalar::U64));
}

#[test]
fn merge_extends_unions() {
    let mut t = Type::Union(vec![("a".to_string(), Type::Scalar(Scalar::I32))]);
    t.merge(Type::Union(vec![("b".to_string(), Type::Scalar(Scalar::Str))]));
    match &t {
        Type::Union(cases) => {
            assert_eq!(cases.len(), 2);
            assert_eq!(cases[0].0, "a");
            assert_eq!(cases[1].0, "b");
        }
        _ => panic!("expected a union"),
    }
    t.merge(Type::Enum(vec![("c".to_string(), Type::Scalar(Scalar::F32))]));
    match &t {
        Type::Union(cases) => assert_eq!(cases.len(), 3),
        _ => panic!("expected a union"),
    }
}

#[test]
fn merge_leaves_other_combinations_alone() {
    let mut t = Type::Tuple(vec![Type::Scalar(Scalar::I32)]);
    t.merge(Type::Scalar(Scalar::U8));
    assert_eq!(t, Type::Tuple(vec![Type::Scalar(Scalar::I32)]));
    let mut s = Type::Scalar(Scalar::I32);
    s.merge(Type::Union(vec![]));
    assert_eq!(s, Type::Scalar(Scalar::I32));
}

#[test]
fn keywords_are_never_logical_yet() {
    let kws = Keywords::default();
    assert!(!kws.is_logical());
}

#[test]
fn typedef_bridges_are_stubs() {
    let root = RootTypeDefSchema::from(ResolvedJsonSchema::Bool(true));
    assert!(root.definitions.is_empty());
    assert!(matches!(root.schema.schema, TypeDef::Empty));
    let def = TypeDefSchema { metadata: Metadata {}, schema: TypeDef::Empty };
    assert_eq!(JsonSchema::from(def), JsonSchema::Bool(false));
}

#[test]
fn default_resolver_reports_invalid_fragment() {
    let cx = Context::new();
    match default_resolver(cx) {
        Err(Error::InvalidFragment) => {}
        _ => panic!("expected InvalidFragment"),
    }
}

#[test]
fn additional_properties_validation_states() {
    let kw = AdditionalPropertiesKeyword(Box::new(JsonSchema::Bool(true)));
    let fail = |v: &JsonValue| match kw.validate(v) {
        ValidatorState::Fail(m) => m,
        other => panic!("expected Fail, got {:?}", other),
    };
    assert_eq!(fail(&JsonValue::Null), "null is not an object");
    assert_eq!(fail(&JsonValue::Bool(true)), "bool is not an object");
    assert_eq!(fail(&JsonValue::Number(JsonNumber("1.5".to_string()))), "number is not an object");
    assert_eq!(fail(&JsonValue::Str("x".to_string())), "string is not an object");
    assert_eq!(fail(&JsonValue::Array(vec![])), "array is not an object");
    assert_eq!(kw.validate(&JsonValue::Object(vec![])), ValidatorState::NA);
}
