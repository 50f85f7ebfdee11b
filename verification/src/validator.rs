//! The validation extension point: the states a keyword check can report,
//! and the one keyword check that inspects a document value's kind.
use crate::keywords::AdditionalPropertiesKeyword;
use crate::value::JsonValue;
use vstd::prelude::*;
use vstd::string::StringExecFns;

verus! {

/// What one keyword reported for one value.
#[derive(Debug, PartialEq, Eq)]
pub enum ValidatorState {
    Pass,
    Fail(String),
    Defer(String),
    NA,
}

/// One recorded validation failure.
#[derive(Debug, PartialEq, Eq)]
pub struct ValidationError {
    pub message: &'static str,
}

impl AdditionalPropertiesKeyword {
    /// Checks the kind of the value under validation: anything that is not
    /// an object fails with a message naming its kind; the member-by-member
    /// check of an object is a stub extension point and reports nothing.
    pub fn validate(&self, value: &JsonValue) -> (r: ValidatorState)
        ensures
            match value {
                JsonValue::Null => (r matches ValidatorState::Fail(m) && m@
                    == "null is not an object"@),
                JsonValue::Bool(_) => (r matches ValidatorState::Fail(m) && m@
                    == "bool is not an object"@),
                JsonValue::Number(_) => (r matches ValidatorState::Fail(m) && m@
                    == "number is not an object"@),
                JsonValue::Str(_) => (r matches ValidatorState::Fail(m) && m@
                    == "string is not an object"@),
                JsonValue::Array(_) => (r matches ValidatorState::Fail(m) && m@
                    == "array is not an object"@),
                JsonValue::Object(_) => r is NA,
            },
    {
        match value {
            JsonValue::Null => ValidatorState::Fail(String::from_str("null is not an object")),
            JsonValue::Bool(_) => ValidatorState::Fail(String::from_str("bool is not an object")),
            JsonValue::Number(_) => ValidatorState::Fail(
                String::from_str("number is not an object"),
            ),
            JsonValue::Str(_) => ValidatorState::Fail(String::from_str("string is not an object")),
            JsonValue::Array(_) => ValidatorState::Fail(String::from_str("array is not an object")),
            JsonValue::Object(_) => ValidatorState::NA,
        }
    }
}

} // verus!
