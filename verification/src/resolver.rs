//! The pluggable resolution entry point and its error kinds.
use crate::context::Context;
use crate::schema::JsonSchema;
use vstd::prelude::*;

verus! {

/// The ways a pluggable resolver can fail.
#[derive(Debug, PartialEq, Eq)]
pub enum Error {
    InvalidRelativePath,
    InvalidFragment,
    InvalidUrl,
}

/// What a resolver hands back: a schema, or why it could not.
pub type ResolverResult = Result<JsonSchema, Error>;

/// The default resolver: a stub that resolves nothing yet, reporting every
/// request as an unresolvable fragment.
pub fn default_resolver(cx: Context) -> (r: ResolverResult)
    ensures
        r matches Err(e) && e is InvalidFragment,
{
    let _ = cx;
    Err(Error::InvalidFragment)
}

} // verus!
