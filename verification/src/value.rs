//! The library's model of a generic document value: the plain data that the
//! keyword record carries for keywords whose payload is not itself a schema.
use vstd::prelude::*;

verus! {

/// A numeric literal, kept as its written text. No arithmetic is ever done
/// on these values; they only ride along through compilation.
#[derive(Debug, PartialEq, Eq)]
pub struct JsonNumber(pub String);

/// A generic document value. Object members keep their source order.
#[derive(Debug, PartialEq, Eq)]
pub enum JsonValue {
    Null,
    Bool(bool),
    Number(JsonNumber),
    Str(String),
    Array(Vec<JsonValue>),
    Object(Vec<(String, JsonValue)>),
}

} // verus!
