//! Canonical locations: a document URL plus an optional fragment path. Two
//! schema nodes are the same entity exactly when their canonical locations
//! are equal; this is the graph's primary key.
use vstd::prelude::*;

verus! {

/// A canonical schema location: the document URL without its fragment, and
/// the fragment path (slash-separated segments) if there is one. A location
/// with an empty fragment is distinct from one with no fragment at all.
#[derive(Debug, PartialEq, Eq)]
pub struct SchemaUrl {
    pub base: String,
    pub fragment: Option<String>,
}

/// The mathematical identity of a location.
pub type UrlKey = (Seq<char>, Option<Seq<char>>);

pub open spec fn opt_str_view(o: Option<String>) -> Option<Seq<char>> {
    match o {
        Some(s) => Some(s@),
        None => None,
    }
}

/// What resolving `reference` against the absolute URL written `base` yields:
/// the resolved URL split into its fragment-free text and its fragment, or
/// nothing when the text cannot be parsed as a URL. The outcome depends on
/// the two strings alone.
pub uninterp spec fn joined(base: Seq<char>, reference: Seq<char>) -> Option<UrlKey>;

impl SchemaUrl {
    pub open spec fn key(&self) -> UrlKey {
        (self.base@, opt_str_view(self.fragment))
    }

    pub fn new(base: String, fragment: Option<String>) -> (r: SchemaUrl)
        ensures
            r.key() == (base@, opt_str_view(fragment)),
    {
        SchemaUrl { base, fragment }
    }

    /// Location equality: equal document URL and equal fragment.
    pub fn eq_loc(&self, other: &SchemaUrl) -> (r: bool)
        ensures
            r == (self.key() == other.key()),
    {
        if !(self.base == other.base) {
            return false;
        }
        match (&self.fragment, &other.fragment) {
            (Some(a), Some(b)) => *a == *b,
            (None, None) => true,
            _ => false,
        }
    }

    /// The full written form: the document URL, then `#` and the fragment
    /// when one is present.
    pub open spec fn spec_render(&self) -> Seq<char> {
        match self.fragment {
            Some(f) => self.base@ + seq!['#'] + f@,
            None => self.base@,
        }
    }

    pub fn render(&self) -> (out: String)
        ensures
            out@ == self.spec_render(),
    {
        match &self.fragment {
            Some(f) => {
                let mut buf = crate::text::str_chars(self.base.as_str());
                buf.push('#');
                crate::text::append_str(&mut buf, f.as_str());
                crate::text::chars_string(&buf)
            },
            None => self.base.clone(),
        }
    }

    /// Resolves `reference` against this location.
    pub fn join(&self, reference: &str) -> (r: Option<SchemaUrl>)
        ensures
            match r {
                Some(u) => joined(self.spec_render(), reference@) == Some(u.key()),
                None => joined(self.spec_render(), reference@) is None,
            },
    {
        let rendered = self.render();
        join_reference(rendered.as_str(), reference)
    }
}

impl Clone for SchemaUrl {
    fn clone(&self) -> (r: Self)
        ensures
            r == *self,
    {
        SchemaUrl { base: self.base.clone(), fragment: match &self.fragment {
            Some(f) => Some(f.clone()),
            None => None,
        } }
    }
}

/// Relies on url's `Url::parse`, `Url::join`, `Url::fragment`,
/// `Url::set_fragment` and `Url::as_str`: resolves `reference` against the
/// absolute URL written `base` and splits the result into its fragment-free
/// text and its fragment. Parsing and joining depend on the two strings
/// alone, so the outcome is named by `joined`.
#[verifier::external_body]
fn join_reference(base: &str, reference: &str) -> (r: Option<SchemaUrl>)
    ensures
        match r {
            Some(u) => joined(base@, reference@) == Some(u.key()),
            None => joined(base@, reference@) is None,
        },
{
    let parsed = match url::Url::parse(base) {
        Ok(u) => u,
        Err(_) => return None,
    };
    let mut target = match parsed.join(reference) {
        Ok(u) => u,
        Err(_) => return None,
    };
    let fragment = target.fragment().map(|f| f.to_string());
    target.set_fragment(None);
    Some(SchemaUrl { base: target.as_str().to_string(), fragment })
}

} // verus!
