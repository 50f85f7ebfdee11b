use schema_codegen::context::{
    document_kind, CompileError, Context, DocumentKind, FetchDecision, Reference, UrlScheme,
    scheme_of,
};
use schema_codegen::keywords::{Keywords, PropertiesKeyword, RequiredKeyword, TypeKeyword};
use schema_codegen::location::SchemaUrl;
use schema_codegen::pointer::JsonPointer;
use schema_codegen::schema::{JsonSchema, ResolvedJsonSchema};

fn loc(base: &str) -> SchemaUrl {
    SchemaUrl::new(base.to_string(), None)
}

fn frag(base: &str, fragment: &str) -> SchemaUrl {
    SchemaUrl::new(base.to_string(), Some(fragment.to_string()))
}

fn object_with_props(props: Vec<(&str, JsonSchema)>) -> JsonSchema {
    let mut kws = Keywords::default();
    kws.props = Some(PropertiesKeyword {
        map: props.into_iter().map(|(k, v)| (k.to_string(), v)).collect(),
    });
    JsonSchema::Object(kws)
}

fn string_schema() -> JsonSchema {
    let mut kws = Keywords::default();
    kws.type_ = Some(TypeKeyword::Single("string".to_string()));
    JsonSchema::Object(kws)
}

#[test]
fn fragment_identity_distinct_positions() {
    let mut ctx = Context::new();
    let doc = object_with_props(vec![("x", JsonSchema::Bool(true)), ("y", JsonSchema::Bool(true))]);
    let (root, refs) = ctx.compile_schema(doc, loc("file:///root/doc.json"));
    assert!(refs.is_empty());
    assert_eq!(root, JsonSchema::Resolved(loc("file:///root/doc.json")));
    let x = frag("file:///root/doc.json", "/properties/x");
    let y = frag("file:///root/doc.json", "/properties/y");
    // textually identical sub-schemas at different positions have their own entries
    assert_eq!(ctx.schema(&x), Some(&ResolvedJsonSchema::Bool(true)));
    assert_eq!(ctx.schema(&y), Some(&ResolvedJsonSchema::Bool(true)));
    assert_eq!(ctx.locations().len(), 3);
    // two references to the exact same fragment path resolve to the same entry
    let x2 = frag("file:///root/doc.json", "/properties/x");
    assert!(std::ptr::eq(ctx.schema(&x).unwrap(), ctx.schema(&x2).unwrap()));
}

#[test]
fn reference_nodes_become_pending() {
    let mut ctx = Context::new();
    let doc = object_with_props(vec![(
        "r",
        JsonSchema::Ref { ref_: JsonPointer::Relative("other.json".to_string()) },
    )]);
    let (_, refs) = ctx.compile_schema(doc, loc("file:///root/doc.json"));
    assert_eq!(refs, vec![Reference::Ref(loc("file:///root/other.json"))]);
    // the target's content is not required to exist yet
    assert_eq!(ctx.schema(&loc("file:///root/other.json")), None);
    // the node itself was rewritten into a handle at the target
    let r = frag("file:///root/doc.json", "/properties/r");
    match ctx.schema(&loc("file:///root/doc.json")).unwrap() {
        ResolvedJsonSchema::Object(kws) => {
            let props = kws.props.as_ref().unwrap();
            assert_eq!(props.map[0].1, JsonSchema::Resolved(loc("file:///root/other.json")));
        }
        _ => panic!("root should be an object"),
    }
    assert_eq!(ctx.schema(&r), None);
}

#[test]
fn memoized_resolution_two_node_cycle() {
    let a = "file:///root/a.json";
    let b = "file:///root/b.json";
    let mut ctx = Context::new();
    let doc_a = object_with_props(vec![(
        "to_b",
        JsonSchema::Ref { ref_: JsonPointer::Relative("b.json".to_string()) },
    )]);
    let (_, refs) = ctx.compile_schema(doc_a, loc(a));
    assert_eq!(refs, vec![Reference::Ref(loc(b))]);
    // first and only fetch of b
    assert_eq!(ctx.begin_fetch(&loc(b)), FetchDecision::Fetch);
    let doc_b = object_with_props(vec![(
        "to_a",
        JsonSchema::Ref { ref_: JsonPointer::Relative("a.json".to_string()) },
    )]);
    let (_, refs_b) = ctx.complete_fetch(&loc(b), doc_b);
    // b's reference back to a finds a already resolved: nothing is queued,
    // and a request for a would not fetch again
    assert_eq!(refs_b, vec![]);
    assert_eq!(ctx.begin_fetch(&loc(a)), FetchDecision::AlreadyResolved);
    // resolving terminates with both documents fetched exactly once
    assert!(ctx.schema(&loc(a)).is_some());
    assert!(ctx.schema(&loc(b)).is_some());
}

#[test]
fn concurrent_fetch_coalescing() {
    let u = "https://example.com/schema.json";
    let mut ctx = Context::new();
    // two simultaneous resolutions of the same not-yet-cached location
    assert_eq!(ctx.begin_fetch(&loc(u)), FetchDecision::Fetch);
    assert_eq!(ctx.begin_fetch(&loc(u)), FetchDecision::InFlight);
    let (_, refs) = ctx.complete_fetch(&loc(u), JsonSchema::Bool(true));
    assert!(refs.is_empty());
    // exactly one store entry, and no further fetch
    assert_eq!(ctx.locations().len(), 1);
    assert_eq!(ctx.begin_fetch(&loc(u)), FetchDecision::AlreadyResolved);
}

#[test]
fn failed_fetch_releases_reservation_and_keeps_siblings() {
    let u = "https://example.com/gone.json";
    let v = "https://example.com/there.json";
    let mut ctx = Context::new();
    assert_eq!(ctx.begin_fetch(&loc(u)), FetchDecision::Fetch);
    assert_eq!(ctx.begin_fetch(&loc(v)), FetchDecision::Fetch);
    let _ = ctx.complete_fetch(&loc(v), JsonSchema::Bool(false));
    ctx.fetch_failed(&loc(u));
    // the sibling's committed entry stands; the failed one may be retried
    assert_eq!(ctx.schema(&loc(v)), Some(&ResolvedJsonSchema::Bool(false)));
    assert_eq!(ctx.begin_fetch(&loc(u)), FetchDecision::Fetch);
}

#[test]
fn self_reference_resolves_without_fetch() {
    let me = "file:///root/me.json";
    let mut ctx = Context::new();
    let doc = object_with_props(vec![(
        "me",
        JsonSchema::Ref { ref_: JsonPointer::Relative("me.json".to_string()) },
    )]);
    let (_, refs) = ctx.compile_schema(doc, loc(me));
    // the reference back to the document's own URL hits the reservation
    assert!(refs.is_empty());
    match ctx.schema(&loc(me)).unwrap() {
        ResolvedJsonSchema::Object(kws) => {
            let props = kws.props.as_ref().unwrap();
            assert_eq!(props.map[0].1, JsonSchema::Resolved(loc(me)));
        }
        _ => panic!("root should be an object"),
    }
}

#[test]
fn duplicate_document_is_not_recompiled() {
    let mut ctx = Context::new();
    let (_, _) = ctx.compile_schema(JsonSchema::Bool(true), loc("file:///root/one.json"));
    let before = ctx.locations().len();
    let (again, refs) = ctx.compile_schema(JsonSchema::Bool(false), loc("file:///root/one.json"));
    // the dedup check runs before any content is recomputed: the old entry wins
    assert_eq!(again, JsonSchema::Resolved(loc("file:///root/one.json")));
    assert!(refs.is_empty());
    assert_eq!(ctx.locations().len(), before);
    assert_eq!(
        ctx.schema(&loc("file:///root/one.json")),
        Some(&ResolvedJsonSchema::Bool(true))
    );
}

#[test]
fn clear_drops_every_entry() {
    let mut ctx = Context::new();
    let (_, _) = ctx.compile_schema(JsonSchema::Bool(true), loc("file:///root/one.json"));
    ctx.clear();
    assert_eq!(ctx.locations().len(), 0);
    assert_eq!(ctx.schema(&loc("file:///root/one.json")), None);
}

#[test]
fn pointer_resolution() {
    let base = loc("file:///root/a/b.json");
    let abs = JsonPointer::Absolute(loc("https://example.com/x.json"));
    assert_eq!(abs.to_absolute(&base).unwrap(), loc("https://example.com/x.json"));
    let rel = JsonPointer::Relative("c.json".to_string());
    assert_eq!(rel.to_absolute(&base).unwrap(), loc("file:///root/a/c.json"));
    let fragment = JsonPointer::Relative("#/defs/x".to_string());
    assert_eq!(
        fragment.to_absolute(&base).unwrap(),
        frag("file:///root/a/b.json", "/defs/x")
    );
    let bad_base = loc("not a url at all");
    match rel.to_absolute(&bad_base) {
        Err(CompileError::InvalidUrl) => {}
        other => panic!("expected InvalidUrl, got {:?}", other),
    }
    assert_eq!(abs.absolute(), &loc("https://example.com/x.json"));
    assert_eq!(JsonPointer::from(loc("file:///x.json")), JsonPointer::Absolute(loc("file:///x.json")));
}

#[test]
fn scheme_classification() {
    assert_eq!(scheme_of(&loc("http://h/x.json")), UrlScheme::Http);
    assert_eq!(scheme_of(&loc("https://h/x.json")), UrlScheme::Https);
    assert_eq!(scheme_of(&loc("file:///x.json")), UrlScheme::File);
    assert_eq!(scheme_of(&loc("ftp://h/x.json")), UrlScheme::Other);
}

#[test]
fn document_kind_by_extension() {
    assert_eq!(document_kind("/root/x.yml"), Ok(DocumentKind::Yaml));
    assert_eq!(document_kind("/root/x.yaml"), Ok(DocumentKind::Yaml));
    assert_eq!(document_kind("/root/x.json"), Ok(DocumentKind::Json));
    assert_eq!(document_kind("/root/x.toml"), Err(CompileError::UnsupportedExtension));
    assert_eq!(document_kind("/root/noext"), Err(CompileError::UnsupportedExtension));
    assert_eq!(document_kind("/root/.hidden"), Err(CompileError::UnsupportedExtension));
}

#[test]
fn compile_error_messages() {
    assert_eq!(CompileError::UnsupportedScheme.message(), "UnsupportedScheme");
    assert_eq!(CompileError::UnsupportedExtension.message(), "UnsupportedExtension");
    assert_eq!(CompileError::InvalidPath.message(), "InvalidPath");
    assert_eq!(CompileError::InvalidUrl.message(), "InvalidUrl");
    assert_eq!(CompileError::NetworkError.message(), "NetworkError");
    assert_eq!(CompileError::ParseError.message(), "ParseError");
}

#[test]
fn location_equality_distinguishes_fragments() {
    let a = loc("file:///x.json");
    let b = frag("file:///x.json", "");
    let c = frag("file:///x.json", "/a");
    assert!(a.eq_loc(&a) && b.eq_loc(&b));
    assert!(!a.eq_loc(&b));
    assert!(!b.eq_loc(&c));
    assert_eq!(a.render(), "file:///x.json");
    assert_eq!(c.render(), "file:///x.json#/a");
}

#[test]
fn required_keyword_rides_through_compilation() {
    let mut ctx = Context::new();
    let mut kws = Keywords::default();
    kws.props = Some(PropertiesKeyword {
        map: vec![("a".to_string(), string_schema())],
    });
    kws.required = Some(RequiredKeyword(vec!["a".to_string()]));
    let (_, _) = ctx.compile_schema(JsonSchema::Object(kws), loc("file:///root/req.json"));
    match ctx.schema(&loc("file:///root/req.json")).unwrap() {
        ResolvedJsonSchema::Object(k) => {
            assert_eq!(k.required, Some(RequiredKeyword(vec!["a".to_string()])));
        }
        _ => panic!("expected object"),
    }
}

#[test]
fn named_definition_keywords_descend() {
    let mut ctx = Context::new();
    let mut kws = Keywords::default();
    kws.defs = Some(schema_codegen::keywords::DefsKeyword {
        map: vec![("thing".to_string(), JsonSchema::Bool(true))],
    });
    kws.definitions = Some(schema_codegen::keywords::DefinitionsKeyword {
        map: vec![("legacy".to_string(), JsonSchema::Bool(false))],
    });
    let (_, refs) = ctx.compile_schema(JsonSchema::Object(kws), loc("file:///root/lib.yaml"));
    assert!(refs.is_empty());
    assert_eq!(
        ctx.schema(&frag("file:///root/lib.yaml", "/$defs/thing")),
        Some(&ResolvedJsonSchema::Bool(true))
    );
    assert_eq!(
        ctx.schema(&frag("file:///root/lib.yaml", "/definitions/legacy")),
        Some(&ResolvedJsonSchema::Bool(false))
    );
}

#[test]
fn starting_fragment_seeds_the_path_stack() {
    let mut ctx = Context::new();
    let doc = object_with_props(vec![("p", JsonSchema::Bool(true))]);
    let (_, _) = ctx.compile_schema(doc, frag("file:///root/mod.json", "/defs/a"));
    // the child's canonical fragment extends the starting fragment
    assert_eq!(
        ctx.schema(&frag("file:///root/mod.json", "/defs/a/properties/p")),
        Some(&ResolvedJsonSchema::Bool(true))
    );
    assert!(ctx.schema(&frag("file:///root/mod.json", "/properties/p")).is_none());
}
