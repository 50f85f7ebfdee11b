use schema_codegen::codegen::{
    generate_rust_code, resolve_rust_ident, resolve_rust_type, try_resolve_ident, CodegenState,
    ResolveIdentError, SynthError,
};
use schema_codegen::context::Context;
use schema_codegen::keywords::{
    EnumKeyword, FormatKeyword, Keywords, OneOfKeyword, PrefixItemsKeyword, PropertiesKeyword,
    RequiredKeyword, TitleKeyword, TypeKeyword,
};
use schema_codegen::location::SchemaUrl;
use schema_codegen::schema::JsonSchema;
use schema_codegen::text::{is_number, pascal_string};
use schema_codegen::value::JsonValue;

fn loc(base: &str) -> SchemaUrl {
    SchemaUrl::new(base.to_string(), None)
}

fn typed(name: &str) -> Keywords {
    let mut kws = Keywords::default();
    kws.type_ = Some(TypeKeyword::Single(name.to_string()));
    kws
}

fn scalar_schema(name: &str) -> JsonSchema {
    JsonSchema::Object(typed(name))
}

fn scalar_with_format(name: &str, format: &str) -> JsonSchema {
    let mut kws = typed(name);
    kws.format = Some(FormatKeyword(format.to_string()));
    JsonSchema::Object(kws)
}

fn object_schema(props: Vec<(&str, JsonSchema)>, required: Vec<&str>) -> JsonSchema {
    let mut kws = typed("object");
    kws.props = Some(PropertiesKeyword {
        map: props.into_iter().map(|(k, v)| (k.to_string(), v)).collect(),
    });
    if !required.is_empty() {
        kws.required = Some(RequiredKeyword(required.into_iter().map(|s| s.to_string()).collect()));
    }
    JsonSchema::Object(kws)
}

#[test]
fn struct_field_optionality() {
    let mut ctx = Context::new();
    let doc = object_schema(
        vec![("a", scalar_schema("string")), ("b", scalar_schema("string"))],
        vec!["a"],
    );
    let (_, _) = ctx.compile_schema(doc, loc("file:///root/person.json"));
    let (code, faults) = generate_rust_code(&ctx);
    assert!(faults.is_empty());
    assert!(code.contains("pub struct Person {\n"));
    assert!(code.contains("\tpub a: String,\n"));
    assert!(code.contains("\tpub b: Option<String>,\n"));
}

#[test]
fn variant_closure() {
    let mut ctx = Context::new();
    let mut kws = Keywords::default();
    kws.one_of = Some(OneOfKeyword(vec![scalar_schema("string"), JsonSchema::Bool(true)]));
    let (_, _) = ctx.compile_schema(JsonSchema::Object(kws), loc("file:///root/choice.json"));
    let (code, faults) = generate_rust_code(&ctx);
    assert!(faults.is_empty());
    assert!(code.contains("pub enum Choice {\n"));
    // exactly one catch-all case for the accept-anything branch
    assert_eq!(code.matches("\tValue(serde_json::Value),\n").count(), 1);
    // and no empty case, since no branch accepts nothing
    assert!(!code.contains("\tEmpty,\n"));
}

#[test]
fn variant_closure_many_boolean_branches() {
    let mut ctx = Context::new();
    let mut kws = Keywords::default();
    kws.one_of = Some(OneOfKeyword(vec![
        JsonSchema::Bool(true),
        JsonSchema::Bool(true),
        JsonSchema::Bool(false),
        JsonSchema::Bool(false),
    ]));
    let (_, _) = ctx.compile_schema(JsonSchema::Object(kws), loc("file:///root/many.json"));
    let (code, faults) = generate_rust_code(&ctx);
    assert!(faults.is_empty());
    // at most one of each, regardless of how many such branches appear
    assert_eq!(code.matches("\tValue(serde_json::Value),\n").count(), 1);
    assert_eq!(code.matches("\tEmpty,\n").count(), 1);
}

#[test]
fn enum_members_only_strings_become_cases() {
    let mut ctx = Context::new();
    let mut kws = Keywords::default();
    kws.enum_ = Some(EnumKeyword(vec![
        JsonValue::Str("Red".to_string()),
        JsonValue::Bool(true),
        JsonValue::Str("Blue".to_string()),
    ]));
    let (_, _) = ctx.compile_schema(JsonSchema::Object(kws), loc("file:///root/color.json"));
    let (code, faults) = generate_rust_code(&ctx);
    assert!(faults.is_empty());
    assert!(code.contains("pub enum Color {\n"));
    assert!(code.contains("\tRed,\n"));
    assert!(code.contains("\tBlue,\n"));
}

#[test]
fn tuple_synthesis() {
    let mut ctx = Context::new();
    let mut array_kws = typed("array");
    array_kws.prefix_items = Some(PrefixItemsKeyword(vec![
        scalar_schema("string"),
        scalar_schema("integer"),
    ]));
    let doc = object_schema(vec![("t", JsonSchema::Object(array_kws))], vec!["t"]);
    let (_, _) = ctx.compile_schema(doc, loc("file:///root/pair.json"));
    let (code, faults) = generate_rust_code(&ctx);
    assert!(faults.is_empty());
    // a 2-slot tuple, (text, integer), in that order
    assert!(code.contains("\tpub t: (String, i32),\n"));
}

#[test]
fn homogeneous_sequence_synthesis() {
    let mut ctx = Context::new();
    let mut array_kws = typed("array");
    array_kws.items = Some(schema_codegen::keywords::ItemsKeyword(Box::new(scalar_schema(
        "number",
    ))));
    let doc = object_schema(vec![("xs", JsonSchema::Object(array_kws))], vec!["xs"]);
    let (_, _) = ctx.compile_schema(doc, loc("file:///root/list.json"));
    let (code, faults) = generate_rust_code(&ctx);
    assert!(faults.is_empty());
    assert!(code.contains("\tpub xs: Vec<f32>,\n"));
}

#[test]
fn self_reference_termination() {
    let me = "file:///root/me.json";
    let mut ctx = Context::new();
    let doc = object_schema(
        vec![(
            "me",
            JsonSchema::Ref { ref_: schema_codegen::pointer::JsonPointer::Relative(
                "me.json".to_string(),
            ) },
        )],
        vec![],
    );
    let (_, _) = ctx.compile_schema(doc, loc(me));
    let (code, faults) = generate_rust_code(&ctx);
    assert!(faults.is_empty());
    // the self-referential field uses the already-assigned name
    assert!(code.contains("pub struct Me {\n"));
    assert!(code.contains("\tpub me: Option<Me>,\n"));
}

#[test]
fn scalar_format_table() {
    let mut ctx = Context::new();
    let doc = object_schema(
        vec![
            ("id", scalar_with_format("string", "uuid")),
            ("link", scalar_with_format("string", "uri")),
            ("when", scalar_with_format("string", "date-time")),
            ("count", scalar_with_format("integer", "u32")),
            ("plain", scalar_schema("integer")),
        ],
        vec!["id", "link", "when", "count", "plain"],
    );
    let (_, _) = ctx.compile_schema(doc, loc("file:///root/meta.json"));
    let (code, faults) = generate_rust_code(&ctx);
    assert!(faults.is_empty());
    assert!(code.contains("\tpub id: uuid::Uuid,\n"));
    assert!(code.contains("\tpub link: url::Url,\n"));
    assert!(code.contains("\tpub when: String,\n"));
    assert!(code.contains("\tpub count: u32,\n"));
    assert!(code.contains("\tpub plain: i32,\n"));
}

#[test]
fn unsupported_format_hint_is_a_per_declaration_fault() {
    let mut ctx = Context::new();
    let doc = object_schema(vec![("z", scalar_with_format("string", "zorp"))], vec!["z"]);
    let (_, _) = ctx.compile_schema(doc, loc("file:///root/bad.json"));
    let good = object_schema(vec![("ok", scalar_schema("string"))], vec!["ok"]);
    let (_, _) = ctx.compile_schema(good, loc("file:///root/good.json"));
    let (code, faults) = generate_rust_code(&ctx);
    // the failed declaration is reported and skipped; the rest is produced
    assert_eq!(faults.len(), 1);
    assert_eq!(faults[0].0, loc("file:///root/bad.json"));
    assert_eq!(faults[0].1, SynthError::UnsupportedFormatHint);
    assert!(!code.contains("pub struct Bad"));
    assert!(code.contains("pub struct Good {\n"));
    assert!(code.contains("\tpub ok: String,\n"));
}

#[test]
fn unrecognized_shape_emits_diagnostic_marker() {
    let mut ctx = Context::new();
    let mut kws = Keywords::default();
    kws.description = Some(schema_codegen::keywords::DescriptionKeyword("nothing".to_string()));
    let (_, _) = ctx.compile_schema(JsonSchema::Object(kws), loc("file:///root/odd.json"));
    let (code, faults) = generate_rust_code(&ctx);
    assert!(faults.is_empty());
    assert!(code.contains("// file:///root/odd.json\n"));
}

#[test]
fn boolean_schemas_produce_no_top_level_declaration() {
    let mut ctx = Context::new();
    let (_, _) = ctx.compile_schema(JsonSchema::Bool(true), loc("file:///root/any.json"));
    let (code, faults) = generate_rust_code(&ctx);
    assert!(faults.is_empty());
    assert_eq!(code, "");
}

#[test]
fn title_wins_over_location_names() {
    let mut ctx = Context::new();
    let mut kws = typed("object");
    kws.title = Some(TitleKeyword("hello world".to_string()));
    kws.props = Some(PropertiesKeyword { map: vec![] });
    let (_, _) = ctx.compile_schema(JsonSchema::Object(kws), loc("file:///root/x.json"));
    let (code, faults) = generate_rust_code(&ctx);
    assert!(faults.is_empty());
    assert!(code.contains("pub struct HelloWorld {\n"));
}

#[test]
fn numeric_fragment_segments_fall_back_to_the_file_stem() {
    let mut ctx = Context::new();
    let mut kws = Keywords::default();
    kws.one_of = Some(OneOfKeyword(vec![scalar_schema("string")]));
    let (_, _) = ctx.compile_schema(JsonSchema::Object(kws), loc("file:///root/fruit.json"));
    let (code, faults) = generate_rust_code(&ctx);
    assert!(faults.is_empty());
    // the branch at /oneOf/0 is positional, so the document stem names it
    assert!(code.contains("\tFruit(Fruit),\n"));
}

#[test]
fn resolve_type_writes_named_locations_by_name() {
    let mut ctx = Context::new();
    let doc = object_schema(vec![], vec![]);
    let url = loc("file:///root/thing.json");
    let (_, _) = ctx.compile_schema(doc, url.clone());
    let mut state = CodegenState::new();
    let mut w: Vec<char> = Vec::new();
    let handle = JsonSchema::Resolved(url.clone());
    assert_eq!(resolve_rust_type(&mut w, &mut state, &ctx, &handle, 8), Ok(()));
    let first: String = w.iter().collect();
    assert_eq!(first, "Thing");
    // a second rendering reuses the same name
    let mut w2: Vec<char> = Vec::new();
    assert_eq!(resolve_rust_type(&mut w2, &mut state, &ctx, &handle, 8), Ok(()));
    let second: String = w2.iter().collect();
    assert_eq!(second, "Thing");
}

#[test]
fn ident_memoization() {
    let mut ctx = Context::new();
    let url = loc("file:///root/widget.json");
    let (_, _) = ctx.compile_schema(object_schema(vec![], vec![]), url.clone());
    let mut state = CodegenState::new();
    match try_resolve_ident(&ctx, &state, &url) {
        Err(ResolveIdentError::Unresolvable) => {}
        other => panic!("expected Unresolvable, got {:?}", other),
    }
    let kws = Keywords::default();
    let first = resolve_rust_ident(&mut state, &kws, &url);
    assert_eq!(first, "Widget");
    // once computed, the same identifier is returned on every later call,
    // even when a title has appeared since
    let mut titled = Keywords::default();
    titled.title = Some(TitleKeyword("other name".to_string()));
    let second = resolve_rust_ident(&mut state, &titled, &url);
    assert_eq!(second, "Widget");
    assert_eq!(try_resolve_ident(&ctx, &state, &url).unwrap(), "Widget");
}

#[test]
fn pascal_conversion() {
    assert_eq!(pascal_string("hello_world"), "HelloWorld");
    assert_eq!(pascal_string("hello world"), "HelloWorld");
    assert_eq!(pascal_string("schema-name.v2"), "SchemaNameV2");
    assert_eq!(pascal_string("FOO"), "FOO");
    assert_eq!(pascal_string(""), "");
}

#[test]
fn digit_tests() {
    assert!(is_number("0123"));
    assert!(is_number(""));
    assert!(!is_number("a1"));
    assert!(!is_number("12x"));
}

#[test]
fn allof_and_anyof_flatten_into_the_record() {
    let mut ctx = Context::new();
    let mut base = typed("object");
    base.title = Some(TitleKeyword("base".to_string()));
    base.props = Some(PropertiesKeyword { map: vec![] });
    let mut extra = typed("object");
    extra.title = Some(TitleKeyword("extra".to_string()));
    extra.props = Some(PropertiesKeyword { map: vec![] });
    let mut kws = Keywords::default();
    kws.props = Some(PropertiesKeyword {
        map: vec![("own".to_string(), scalar_schema("string"))],
    });
    kws.all_of = Some(schema_codegen::keywords::AllOfKeyword(vec![JsonSchema::Object(base)]));
    kws.any_of = Some(schema_codegen::keywords::AnyOfKeyword(vec![JsonSchema::Object(extra)]));
    let (_, _) = ctx.compile_schema(JsonSchema::Object(kws), loc("file:///root/combo.json"));
    let (code, faults) = generate_rust_code(&ctx);
    assert!(faults.is_empty());
    assert!(code.contains("\tpub own: Option<String>,\n"));
    // declared properties come first, then the flattened groups
    assert!(code.contains("\t#[serde(flatten)]\n\tpub Base: Base,\n"));
    assert!(code.contains("\t/// file:///root/combo.json#/allOf/0\n"));
    assert!(code.contains("\t#[serde(flatten)]\n\tpub Extra: Option<Extra>,\n"));
    let own = code.find("pub own:").unwrap();
    let base_at = code.find("pub Base:").unwrap();
    let extra_at = code.find("pub Extra:").unwrap();
    assert!(own < base_at && base_at < extra_at);
}

#[test]
fn both_or_neither_container_keywords_degrade_to_a_placeholder() {
    let mut ctx = Context::new();
    let mut both = typed("array");
    both.items = Some(schema_codegen::keywords::ItemsKeyword(Box::new(scalar_schema("string"))));
    both.prefix_items = Some(PrefixItemsKeyword(vec![scalar_schema("string")]));
    let neither = typed("array");
    let doc = object_schema(
        vec![("b", JsonSchema::Object(both)), ("n", JsonSchema::Object(neither))],
        vec!["b", "n"],
    );
    let (_, _) = ctx.compile_schema(doc, loc("file:///root/odd_arrays.json"));
    let (code, faults) = generate_rust_code(&ctx);
    assert!(faults.is_empty());
    assert!(code.contains("\tpub b: Vec<()>,\n"));
    assert!(code.contains("\tpub n: Vec<()>,\n"));
}
