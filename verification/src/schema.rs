//! The schema graph model: a raw schema node as parsed from a document, and
//! the resolved form that the document store holds.
use crate::keywords::Keywords;
use crate::location::SchemaUrl;
use crate::pointer::JsonPointer;
use vstd::prelude::*;

verus! {

/// A raw schema node. After compilation completes for a closure of
/// documents, no `Ref`/`Mod` node remains reachable from the document
/// store: every reachable node is a `Bool` or an `Object`, addressed
/// through a `Resolved` handle.
#[derive(Debug, PartialEq, Eq)]
pub enum JsonSchema {
    /// A pointer to a single schema document or fragment.
    Ref { ref_: JsonPointer },
    /// A pointer to a document containing multiple named schemas.
    Mod { mod_: JsonPointer },
    /// Accepts everything (`true`) or nothing (`false`).
    Bool(bool),
    /// A keyword-bearing object schema.
    Object(Keywords),
    /// A canonical URL standing in for an already-processed node.
    Resolved(SchemaUrl),
}

/// A fully resolved node, as held by the document store.
#[derive(Debug, PartialEq, Eq)]
pub enum ResolvedJsonSchema {
    Bool(bool),
    Object(Keywords),
}

} // verus!
