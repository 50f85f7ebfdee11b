//! Pointers between schema documents: either an already absolute location
//! or a text reference to be resolved against the location it was found at.
use crate::context::CompileError;
use crate::location::{joined, SchemaUrl, UrlKey};
use vstd::prelude::*;

verus! {

/// A reference to another schema location, as written in a document. A
/// relative pointer may be a path, a `#/…` fragment, or any other partial
/// URL form; it resolves against the location of the node that carries it.
#[derive(Debug, PartialEq, Eq)]
pub enum JsonPointer {
    Absolute(SchemaUrl),
    Relative(String),
}

impl JsonPointer {
    /// The canonical location this pointer names when it stands at a node
    /// whose own location is written `base_render`, or nothing when the
    /// reference text cannot be resolved.
    pub open spec fn target_key(&self, base_render: Seq<char>) -> Option<UrlKey> {
        match self {
            JsonPointer::Absolute(u) => Some(u.key()),
            JsonPointer::Relative(s) => joined(base_render, s@),
        }
    }

    /// Resolves this pointer against `base` into an absolute location.
    pub fn to_absolute(&self, base: &SchemaUrl) -> (r: Result<SchemaUrl, CompileError>)
        ensures
            match self.target_key(base.spec_render()) {
                Some(k) => r matches Ok(u) && u.key() == k,
                None => r matches Err(e) && e is InvalidUrl,
            },
    {
        match self {
            JsonPointer::Absolute(url) => Ok(url.clone()),
            JsonPointer::Relative(text) => match base.join(text.as_str()) {
                Some(url) => Ok(url),
                None => Err(CompileError::InvalidUrl),
            },
        }
    }

    /// The location of a pointer already known to be absolute.
    pub fn absolute(&self) -> (r: &SchemaUrl)
        requires
            self is Absolute,
        ensures
            *self == JsonPointer::Absolute(*r),
    {
        match self {
            JsonPointer::Absolute(url) => url,
            JsonPointer::Relative(_) => unreached(),
        }
    }
}

impl From<SchemaUrl> for JsonPointer {
    fn from(url: SchemaUrl) -> (r: Self)
        ensures
            r == JsonPointer::Absolute(url),
    {
        JsonPointer::Absolute(url)
    }
}

impl vstd::std_specs::convert::FromSpecImpl<SchemaUrl> for JsonPointer {
    open spec fn obeys_from_spec() -> bool {
        true
    }

    open spec fn from_spec(url: SchemaUrl) -> Self {
        JsonPointer::Absolute(url)
    }
}

/// A pointer written relative to the current node, kept with the number of
/// levels it climbs before descending.
#[derive(Debug, PartialEq, Eq)]
pub struct RelativeJsonPointer {
    pub source: String,
    pub traverse: usize,
}

/// A fragment pointer that starts from the document root.
#[derive(Debug, PartialEq, Eq)]
pub struct AbsoluteJsonPointer {}

/// A fragment pointer in either of its two written forms.
#[derive(Debug, PartialEq, Eq)]
pub enum JsonPointerFragment {
    Absolute(AbsoluteJsonPointer),
    Relative(RelativeJsonPointer),
}

} // verus!
