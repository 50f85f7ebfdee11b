//! The keyword record: one independently optional field per recognized
//! keyword. Keywords whose payload can contain nested schemas are the ones
//! the compiler descends into; the rest ride along unchanged.
use crate::pointer::JsonPointer;
use crate::schema::JsonSchema;
use crate::value::{JsonNumber, JsonValue};
use vstd::prelude::*;

verus! {

#[derive(Debug, PartialEq, Eq)]
pub struct AdditionalPropertiesKeyword(pub Box<JsonSchema>);

#[derive(Debug, PartialEq, Eq)]
pub struct AllOfKeyword(pub Vec<JsonSchema>);

#[derive(Debug, PartialEq, Eq)]
pub struct AnchorKeyword(pub String);

#[derive(Debug, PartialEq, Eq)]
pub struct AnyOfKeyword(pub Vec<JsonSchema>);

#[derive(Debug, PartialEq, Eq)]
pub struct CommentKeyword(pub String);

#[derive(Debug, PartialEq, Eq)]
pub struct ConstantKeyword(pub JsonValue);

#[derive(Debug, PartialEq, Eq)]
pub struct ContainsKeyword(pub Box<JsonSchema>);

#[derive(Debug, PartialEq, Eq)]
pub struct DefaultKeyword(pub JsonValue);

/// Named sub-schemas under `definitions`; source order is kept.
#[derive(Debug, PartialEq, Eq)]
pub struct DefinitionsKeyword {
    pub map: Vec<(String, JsonSchema)>,
}

/// Named sub-schemas under `$defs`; source order is kept.
#[derive(Debug, PartialEq, Eq)]
pub struct DefsKeyword {
    pub map: Vec<(String, JsonSchema)>,
}

#[derive(Debug, PartialEq, Eq)]
pub struct DeprecatedKeyword;

#[derive(Debug, PartialEq, Eq)]
pub struct DescriptionKeyword(pub String);

#[derive(Debug, PartialEq, Eq)]
pub struct DynamicAnchorKeyword(pub JsonPointer);

#[derive(Debug, PartialEq, Eq)]
pub struct DynamicRefKeyword(pub JsonPointer);

#[derive(Debug, PartialEq, Eq)]
pub struct EnumKeyword(pub Vec<JsonValue>);

#[derive(Debug, PartialEq, Eq)]
pub struct ExamplesKeyword(pub Vec<JsonValue>);

#[derive(Debug, PartialEq, Eq)]
pub struct ExclusiveMaximumKeyword(pub JsonNumber);

#[derive(Debug, PartialEq, Eq)]
pub struct ExclusiveMinimumKeyword(pub JsonNumber);

#[derive(Debug, PartialEq, Eq)]
pub struct FormatKeyword(pub String);

#[derive(Debug, PartialEq, Eq)]
pub struct IdKeyword(pub String);

/// Conditional application; an extension point that carries no payload yet.
#[derive(Debug, PartialEq, Eq)]
pub struct IfThenElseKeyword {
    pub if_: (),
    pub then_: (),
    pub else_: (),
}

#[derive(Debug, PartialEq, Eq)]
pub struct ItemsKeyword(pub Box<JsonSchema>);

#[derive(Debug, PartialEq, Eq)]
pub struct MaxContainsKeyword(pub JsonNumber);

#[derive(Debug, PartialEq, Eq)]
pub struct MaxItemsKeyword(pub JsonNumber);

#[derive(Debug, PartialEq, Eq)]
pub struct MaxLengthKeyword(pub JsonNumber);

#[derive(Debug, PartialEq, Eq)]
pub struct MaxPropertiesKeyword(pub JsonNumber);

#[derive(Debug, PartialEq, Eq)]
pub struct MaximumKeyword(pub JsonNumber);

#[derive(Debug, PartialEq, Eq)]
pub struct MinContainsKeyword(pub JsonNumber);

#[derive(Debug, PartialEq, Eq)]
pub struct MinItemsKeyword(pub JsonNumber);

#[derive(Debug, PartialEq, Eq)]
pub struct MinLengthKeyword(pub JsonNumber);

#[derive(Debug, PartialEq, Eq)]
pub struct MinPropertiesKeyword(pub JsonNumber);

#[derive(Debug, PartialEq, Eq)]
pub struct MinimumKeyword(pub JsonNumber);

#[derive(Debug, PartialEq, Eq)]
pub struct MultipleOfKeyword(pub JsonNumber);

#[derive(Debug, PartialEq, Eq)]
pub struct NotKeyword(pub Box<JsonSchema>);

#[derive(Debug, PartialEq, Eq)]
pub struct OneOfKeyword(pub Vec<JsonSchema>);

/// Pattern-keyed sub-schemas; source order is kept.
#[derive(Debug, PartialEq, Eq)]
pub struct PatternPropertiesKeyword {
    pub map: Vec<(String, JsonSchema)>,
}

#[derive(Debug, PartialEq, Eq)]
pub struct PatternKeyword(pub String);

#[derive(Debug, PartialEq, Eq)]
pub struct PrefixItemsKeyword(pub Vec<JsonSchema>);

/// Named property sub-schemas; source order is kept, and field synthesis
/// follows it.
#[derive(Debug, PartialEq, Eq)]
pub struct PropertiesKeyword {
    pub map: Vec<(String, JsonSchema)>,
}

#[derive(Debug, PartialEq, Eq)]
pub struct PropertyNamesKeyword(pub Box<JsonSchema>);

#[derive(Debug, PartialEq, Eq)]
pub struct ReadOnlyKeyword(pub bool);

#[derive(Debug, PartialEq, Eq)]
pub struct RequiredKeyword(pub Vec<String>);

#[derive(Debug, PartialEq, Eq)]
pub struct SchemaKeyword(pub String);

#[derive(Debug, PartialEq, Eq)]
pub struct TitleKeyword(pub String);

#[derive(Debug, PartialEq, Eq)]
pub enum TypeKeyword {
    Single(String),
    Multiple(Vec<String>),
}

#[derive(Debug, PartialEq, Eq)]
pub struct UnevaluatedItemsKeyword(pub Box<JsonSchema>);

#[derive(Debug, PartialEq, Eq)]
pub struct UnevaluatedPropertiesKeyword(pub Box<JsonSchema>);

#[derive(Debug, PartialEq, Eq)]
pub struct UniqueItemsKeyword(pub bool);

#[derive(Debug, PartialEq, Eq)]
pub struct WriteOnlyKeyword(pub bool);

/// The keyword record: a fixed set of named, independently optional
/// sub-values.
#[derive(Debug, PartialEq, Eq)]
pub struct Keywords {
    pub additional_properties: Option<AdditionalPropertiesKeyword>,
    pub all_of: Option<AllOfKeyword>,
    pub anchor: Option<AnchorKeyword>,
    pub any_of: Option<AnyOfKeyword>,
    pub comment: Option<CommentKeyword>,
    pub constant: Option<ConstantKeyword>,
    pub contains: Option<ContainsKeyword>,
    pub default: Option<DefaultKeyword>,
    pub definitions: Option<DefinitionsKeyword>,
    pub defs: Option<DefsKeyword>,
    pub deprecated: Option<DeprecatedKeyword>,
    pub description: Option<DescriptionKeyword>,
    pub dynamic_anchor: Option<DynamicAnchorKeyword>,
    pub dynamic_ref: Option<DynamicRefKeyword>,
    pub enum_: Option<EnumKeyword>,
    pub examples: Option<ExamplesKeyword>,
    pub excl_max: Option<ExclusiveMaximumKeyword>,
    pub excl_min: Option<ExclusiveMinimumKeyword>,
    pub format: Option<FormatKeyword>,
    pub id: Option<IdKeyword>,
    pub if_then_else: Option<IfThenElseKeyword>,
    pub items: Option<ItemsKeyword>,
    pub max_contains: Option<MaxContainsKeyword>,
    pub max_items: Option<MaxItemsKeyword>,
    pub max_length: Option<MaxLengthKeyword>,
    pub max_props: Option<MaxPropertiesKeyword>,
    pub max: Option<MaximumKeyword>,
    pub min_contains: Option<MinContainsKeyword>,
    pub min_items: Option<MinItemsKeyword>,
    pub min_length: Option<MinLengthKeyword>,
    pub min_props: Option<MinPropertiesKeyword>,
    pub min: Option<MinimumKeyword>,
    pub multiple: Option<MultipleOfKeyword>,
    pub not: Option<NotKeyword>,
    pub one_of: Option<OneOfKeyword>,
    pub pat_props: Option<PatternPropertiesKeyword>,
    pub pat: Option<PatternKeyword>,
    pub prefix_items: Option<PrefixItemsKeyword>,
    pub props: Option<PropertiesKeyword>,
    pub prop_names: Option<PropertyNamesKeyword>,
    pub read_only: Option<ReadOnlyKeyword>,
    pub required: Option<RequiredKeyword>,
    pub schema: Option<SchemaKeyword>,
    pub title: Option<TitleKeyword>,
    pub type_: Option<TypeKeyword>,
    pub unevaluated_items: Option<UnevaluatedItemsKeyword>,
    pub unique_items: Option<UniqueItemsKeyword>,
    pub write_only: Option<WriteOnlyKeyword>,
}

/// The keyword record with every keyword absent.
pub open spec fn empty_keywords() -> Keywords {
    Keywords {
        additional_properties: None,
        all_of: None,
        anchor: None,
        any_of: None,
        comment: None,
        constant: None,
        contains: None,
        default: None,
        definitions: None,
        defs: None,
        deprecated: None,
        description: None,
        dynamic_anchor: None,
        dynamic_ref: None,
        enum_: None,
        examples: None,
        excl_max: None,
        excl_min: None,
        format: None,
        id: None,
        if_then_else: None,
        items: None,
        max_contains: None,
        max_items: None,
        max_length: None,
        max_props: None,
        max: None,
        min_contains: None,
        min_items: None,
        min_length: None,
        min_props: None,
        min: None,
        multiple: None,
        not: None,
        one_of: None,
        pat_props: None,
        pat: None,
        prefix_items: None,
        props: None,
        prop_names: None,
        read_only: None,
        required: None,
        schema: None,
        title: None,
        type_: None,
        unevaluated_items: None,
        unique_items: None,
        write_only: None,
    }
}

impl Default for Keywords {
    fn default() -> (r: Self)
        ensures
            r == empty_keywords(),
    {
        Keywords {
            additional_properties: None,
            all_of: None,
            anchor: None,
            any_of: None,
            comment: None,
            constant: None,
            contains: None,
            default: None,
            definitions: None,
            defs: None,
            deprecated: None,
            description: None,
            dynamic_anchor: None,
            dynamic_ref: None,
            enum_: None,
            examples: None,
            excl_max: None,
            excl_min: None,
            format: None,
            id: None,
            if_then_else: None,
            items: None,
            max_contains: None,
            max_items: None,
            max_length: None,
            max_props: None,
            max: None,
            min_contains: None,
            min_items: None,
            min_length: None,
            min_props: None,
            min: None,
            multiple: None,
            not: None,
            one_of: None,
            pat_props: None,
            pat: None,
            prefix_items: None,
            props: None,
            prop_names: None,
            read_only: None,
            required: None,
            schema: None,
            title: None,
            type_: None,
            unevaluated_items: None,
            unique_items: None,
            write_only: None,
        }
    }
}

/// Marker for a keyword combination that cannot describe any value; no
/// such combination is recognized yet.
pub enum IllogicalSchema {
    Unrecognized,
}

impl Keywords {
    /// Tests whether the keywords form a logical schema. No combination is
    /// recognized yet, so every record is reported illogical; the test
    /// mirrors that openly.
    pub fn is_logical(&self) -> (r: bool)
        ensures
            !r,
    {
        false
    }
}

} // verus!
