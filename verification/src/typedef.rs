//! A simplified type-definition document format: plain data with a nominal
//! bridge from and to the schema graph model.
use crate::schema::{JsonSchema, ResolvedJsonSchema};
use vstd::prelude::*;

verus! {

/// The primitive type names of the simplified format.
#[derive(Debug, PartialEq, Eq)]
pub enum Type {
    Boolean,
    String,
    Timestamp,
    Float32,
    Float64,
    Int8,
    UInt8,
    Int16,
    UInt16,
    Int32,
    UInt32,
}

#[derive(Debug, PartialEq, Eq)]
pub struct TypeTypeDef {
    pub type_: Type,
}

#[derive(Debug, PartialEq, Eq)]
pub struct EnumTypeDef(pub Vec<String>);

#[derive(Debug, PartialEq, Eq)]
pub struct ElementsTypeDef(pub Box<TypeDefSchema>);

#[derive(Debug, PartialEq, Eq)]
pub struct PropertiesTypeDef {
    pub properties: Vec<(String, TypeDefSchema)>,
}

#[derive(Debug, PartialEq, Eq)]
pub struct ValuesTypeDef {}

#[derive(Debug, PartialEq, Eq)]
pub struct DiscriminatorTypeDef {}

#[derive(Debug, PartialEq, Eq)]
pub struct UnionTypeDef {}

#[derive(Debug, PartialEq, Eq)]
pub enum TypeDef {
    Empty,
    Type(TypeTypeDef),
    Enum(EnumTypeDef),
    Elements(ElementsTypeDef),
    Properties(PropertiesTypeDef),
    Values(ValuesTypeDef),
    Discriminator(DiscriminatorTypeDef),
    Union(UnionTypeDef),
    Ref { ref_: String },
}

#[derive(Debug, PartialEq, Eq)]
pub struct Metadata {}

#[derive(Debug, PartialEq, Eq)]
pub struct TypeDefSchema {
    pub metadata: Metadata,
    pub schema: TypeDef,
}

#[derive(Debug, PartialEq, Eq)]
pub struct RootTypeDefSchema {
    pub definitions: Vec<(String, TypeDefSchema)>,
    pub schema: TypeDefSchema,
}

impl From<ResolvedJsonSchema> for RootTypeDefSchema {
    /// The translation is a stub: every resolved schema maps to the empty
    /// definition document.
    fn from(_s: ResolvedJsonSchema) -> (r: Self)
        ensures
            r.definitions@.len() == 0,
            r.schema.schema is Empty,
    {
        RootTypeDefSchema {
            definitions: Vec::new(),
            schema: TypeDefSchema { metadata: Metadata {}, schema: TypeDef::Empty },
        }
    }
}

impl vstd::std_specs::convert::FromSpecImpl<ResolvedJsonSchema> for RootTypeDefSchema {
    open spec fn obeys_from_spec() -> bool {
        false
    }

    open spec fn from_spec(s: ResolvedJsonSchema) -> Self {
        vstd::pervasive::arbitrary()
    }
}

impl From<TypeDefSchema> for JsonSchema {
    /// The translation is a stub: every definition maps to the schema that
    /// accepts nothing.
    fn from(_s: TypeDefSchema) -> (r: Self)
        ensures
            r == JsonSchema::Bool(false),
    {
        JsonSchema::Bool(false)
    }
}

impl vstd::std_specs::convert::FromSpecImpl<TypeDefSchema> for JsonSchema {
    open spec fn obeys_from_spec() -> bool {
        true
    }

    open spec fn from_spec(s: TypeDefSchema) -> Self {
        JsonSchema::Bool(false)
    }
}

} // verus!
