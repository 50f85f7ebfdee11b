//! The document store and the reference compiler: the store maps canonical
//! locations to resolved schema nodes; the compiler rewrites a raw schema
//! tree into resolved handles, filling the store and collecting the
//! references that still need fetching.
use crate::keywords::{
    AdditionalPropertiesKeyword, AllOfKeyword, AnyOfKeyword, ContainsKeyword, DefinitionsKeyword,
    DefsKeyword, ItemsKeyword, Keywords, NotKeyword, OneOfKeyword, PatternPropertiesKeyword,
    PrefixItemsKeyword, PropertiesKeyword, PropertyNamesKeyword, UnevaluatedItemsKeyword,
};
use crate::location::{SchemaUrl, UrlKey};
use crate::schema::{JsonSchema, ResolvedJsonSchema};
use vstd::prelude::*;

verus! {

/// The distinguishable ways compilation of one document can fail.
#[derive(Debug, PartialEq, Eq, Clone, Copy)]
pub enum CompileError {
    UnsupportedScheme,
    UnsupportedExtension,
    InvalidPath,
    InvalidUrl,
    NetworkError,
    ParseError,
}

impl CompileError {
    /// A short description, matching the variant's name.
    pub fn message(&self) -> (r: &'static str)
        ensures
            match self {
                CompileError::UnsupportedScheme => r@ == "UnsupportedScheme"@,
                CompileError::UnsupportedExtension => r@ == "UnsupportedExtension"@,
                CompileError::InvalidPath => r@ == "InvalidPath"@,
                CompileError::InvalidUrl => r@ == "InvalidUrl"@,
                CompileError::NetworkError => r@ == "NetworkError"@,
                CompileError::ParseError => r@ == "ParseError"@,
            },
    {
        match self {
            CompileError::UnsupportedScheme => "UnsupportedScheme",
            CompileError::UnsupportedExtension => "UnsupportedExtension",
            CompileError::InvalidPath => "InvalidPath",
            CompileError::InvalidUrl => "InvalidUrl",
            CompileError::NetworkError => "NetworkError",
            CompileError::ParseError => "ParseError",
        }
    }
}

/// A pending reference discovered during one document's compilation pass:
/// a location that must be fetched and compiled before the session is
/// closed for that branch. `Ref` names a single schema document; `Mod`
/// names a document containing multiple named schemas.
#[derive(Debug, PartialEq, Eq)]
pub enum Reference {
    Ref(SchemaUrl),
    Mod(SchemaUrl),
}

impl Reference {
    pub open spec fn key(&self) -> UrlKey {
        match self {
            Reference::Ref(u) => u.key(),
            Reference::Mod(u) => u.key(),
        }
    }
}

/// The flat association of canonical locations to resolved entries.
pub open spec fn entries_map(s: Seq<(SchemaUrl, ResolvedJsonSchema)>) -> Map<
    UrlKey,
    ResolvedJsonSchema,
>
    decreases s.len(),
{
    if s.len() == 0 {
        Map::empty()
    } else {
        entries_map(s.drop_last()).insert(s.last().0.key(), s.last().1)
    }
}

/// The set of keys of a list of locations.
pub open spec fn urls_set(s: Seq<SchemaUrl>) -> Set<UrlKey>
    decreases s.len(),
{
    if s.len() == 0 {
        Set::empty()
    } else {
        urls_set(s.drop_last()).insert(s.last().key())
    }
}

proof fn lemma_entries_map_contains(s: Seq<(SchemaUrl, ResolvedJsonSchema)>, k: UrlKey)
    ensures
        entries_map(s).contains_key(k) <==> exists|i: int|
            0 <= i < s.len() && #[trigger] s[i].0.key() == k,
    decreases s.len(),
{
    if s.len() > 0 {
        lemma_entries_map_contains(s.drop_last(), k);
        if entries_map(s).contains_key(k) {
            if s.last().0.key() != k {
                let i = choose|i: int| 0 <= i < s.len() - 1 && #[trigger] s.drop_last()[i].0.key()
                    == k;
                assert(s[i].0.key() == k);
            } else {
                assert(s[s.len() - 1].0.key() == k);
            }
        }
        if exists|i: int| 0 <= i < s.len() && #[trigger] s[i].0.key() == k {
            let i = choose|i: int| 0 <= i < s.len() && #[trigger] s[i].0.key() == k;
            if i < s.len() - 1 {
                assert(s.drop_last()[i].0.key() == k);
            }
        }
    }
}

proof fn lemma_entries_map_index(s: Seq<(SchemaUrl, ResolvedJsonSchema)>, i: int)
    requires
        0 <= i < s.len(),
        forall|a: int, b: int|
            0 <= a < b < s.len() ==> (#[trigger] s[a].0.key()) != (#[trigger] s[b].0.key()),
    ensures
        entries_map(s).contains_key(s[i].0.key()),
        entries_map(s)[s[i].0.key()] == s[i].1,
    decreases s.len(),
{
    lemma_entries_map_contains(s, s[i].0.key());
    if i < s.len() - 1 {
        assert(s.drop_last()[i] == s[i]);
        lemma_entries_map_index(s.drop_last(), i);
        assert(s.last().0.key() != s[i].0.key());
    }
}

proof fn lemma_urls_set_contains(s: Seq<SchemaUrl>, k: UrlKey)
    ensures
        urls_set(s).contains(k) <==> exists|i: int| 0 <= i < s.len() && #[trigger] s[i].key() == k,
    decreases s.len(),
{
    if s.len() > 0 {
        lemma_urls_set_contains(s.drop_last(), k);
        if urls_set(s).contains(k) && s.last().key() != k {
            let i = choose|i: int| 0 <= i < s.len() - 1 && #[trigger] s.drop_last()[i].key() == k;
            assert(s[i].key() == k);
        }
        if exists|i: int| 0 <= i < s.len() && #[trigger] s[i].key() == k {
            let i = choose|i: int| 0 <= i < s.len() && #[trigger] s[i].key() == k;
            if i < s.len() - 1 {
                assert(s.drop_last()[i].key() == k);
            } else {
                assert(s.last().key() == k);
            }
        }
    }
}

proof fn lemma_urls_set_remove(s: Seq<SchemaUrl>, i: int)
    requires
        0 <= i < s.len(),
        forall|a: int, b: int|
            0 <= a < b < s.len() ==> (#[trigger] s[a].key()) != (#[trigger] s[b].key()),
    ensures
        urls_set(s.remove(i)) == urls_set(s).remove(s[i].key()),
    decreases s.len(),
{
    lemma_urls_set_contains(s, s[i].key());
    lemma_urls_set_contains(s.remove(i), s[i].key());
    if s.len() > 0 {
        if i == s.len() - 1 {
            assert(s.remove(i) =~= s.drop_last());
            assert forall|k: UrlKey| urls_set(s.drop_last()).contains(k) implies urls_set(
                s,
            ).remove(s[i].key()).contains(k) by {
                lemma_urls_set_contains(s.drop_last(), k);
                let j = choose|j: int|
                    0 <= j < s.len() - 1 && #[trigger] s.drop_last()[j].key() == k;
                assert(s[j].key() == k);
                lemma_urls_set_contains(s, k);
            }
            assert forall|k: UrlKey| urls_set(s).remove(s[i].key()).contains(k) implies urls_set(
                s.drop_last(),
            ).contains(k) by {
                lemma_urls_set_contains(s, k);
                let j = choose|j: int| 0 <= j < s.len() && #[trigger] s[j].key() == k;
                assert(j < s.len() - 1);
                assert(s.drop_last()[j].key() == k);
                lemma_urls_set_contains(s.drop_last(), k);
            }
            assert(urls_set(s.remove(i)) =~= urls_set(s).remove(s[i].key()));
        } else {
            let t = s.remove(i);
            assert(t.drop_last() =~= s.drop_last().remove(i));
            assert(t.last() == s.last());
            assert forall|a: int, b: int|
                0 <= a < b < s.len() - 1 implies (#[trigger] s.drop_last()[a].key())
                != (#[trigger] s.drop_last()[b].key()) by {
                assert(s.drop_last()[a] == s[a]);
                assert(s.drop_last()[b] == s[b]);
            }
            lemma_urls_set_remove(s.drop_last(), i);
            assert(s.drop_last()[i] == s[i]);
            assert(urls_set(t) == urls_set(s.drop_last()).remove(s[i].key()).insert(
                s.last().key(),
            ));
            assert(s.last().key() != s[i].key());
            assert(urls_set(s.drop_last()).remove(s[i].key()).insert(s.last().key()) =~= urls_set(
                s.drop_last(),
            ).insert(s.last().key()).remove(s[i].key()));
        }
    }
}

/// The document store: the process-wide map from canonical location to
/// resolved schema content, together with the set of locations that are
/// reserved — already claimed by an in-progress tree walk or an in-flight
/// fetch, their content still pending.
pub struct Context {
    entries: Vec<(SchemaUrl, ResolvedJsonSchema)>,
    reserved: Vec<SchemaUrl>,
}

impl Context {
    /// The resolved content, by canonical location.
    pub closed spec fn map(&self) -> Map<UrlKey, ResolvedJsonSchema> {
        entries_map(self.entries@)
    }

    /// The locations reserved but not yet resolved.
    pub closed spec fn reserved_set(&self) -> Set<UrlKey> {
        urls_set(self.reserved@)
    }

    /// The locations that are resolved or reserved.
    pub open spec fn known_set(&self) -> Set<UrlKey> {
        self.map().dom().union(self.reserved_set())
    }

    /// A location is known once it is resolved or reserved. The single
    /// deduplication and cycle-breaking check tests exactly this.
    pub open spec fn known(&self, k: UrlKey) -> bool {
        self.known_set().contains(k)
    }

    /// Well-formedness: entry keys are distinct, reserved keys are
    /// distinct, and no location is both resolved and reserved.
    pub closed spec fn wf(&self) -> bool {
        &&& forall|a: int, b: int|
            0 <= a < b < self.entries@.len() ==> (#[trigger] self.entries@[a].0.key()) != (
            #[trigger] self.entries@[b].0.key())
        &&& forall|a: int, b: int|
            0 <= a < b < self.reserved@.len() ==> (#[trigger] self.reserved@[a].key()) != (
            #[trigger] self.reserved@[b].key())
        &&& forall|a: int, b: int|
            0 <= a < self.entries@.len() && 0 <= b < self.reserved@.len() ==> (
            #[trigger] self.entries@[a].0.key()) != (#[trigger] self.reserved@[b].key())
    }

    pub fn new() -> (r: Context)
        ensures
            r.wf(),
            r.map() == Map::<UrlKey, ResolvedJsonSchema>::empty(),
            r.reserved_set() == Set::<UrlKey>::empty(),
    {
        Context { entries: Vec::new(), reserved: Vec::new() }
    }

    /// Drops every entry and every reservation.
    pub fn clear(&mut self)
        ensures
            final(self).wf(),
            final(self).map() == Map::<UrlKey, ResolvedJsonSchema>::empty(),
            final(self).reserved_set() == Set::<UrlKey>::empty(),
    {
        self.entries.clear();
        self.reserved.clear();
    }

    /// Looks one location up in the store. Only complete entries are ever
    /// returned: a reserved location reads as absent.
    #[verifier::loop_isolation(false)]
    pub fn schema(&self, url: &SchemaUrl) -> (r: Option<&ResolvedJsonSchema>)
        requires
            self.wf(),
        ensures
            match r {
                Some(s) => self.map().contains_key(url.key()) && *s == self.map()[url.key()],
                None => !self.map().contains_key(url.key()),
            },
    {
        let k = url;
        let mut i: usize = 0;
        while i < self.entries.len()
            invariant
                i <= self.entries@.len(),
                forall|j: int| 0 <= j < i ==> (#[trigger] self.entries@[j].0.key()) != k.key(),
            decreases self.entries@.len() - i,
        {
            if self.entries[i].0.eq_loc(k) {
                proof {
                    lemma_entries_map_index(self.entries@, i as int);
                }
                return Some(&self.entries[i].1);
            }
            i += 1;
        }
        proof {
            lemma_entries_map_contains(self.entries@, k.key());
        }
        None
    }

    /// True when the location is resolved or reserved.
    #[verifier::loop_isolation(false)]
    pub fn is_known(&self, url: &SchemaUrl) -> (r: bool)
        requires
            self.wf(),
        ensures
            r == self.known(url.key()),
    {
        match self.schema(url) {
            Some(_) => true,
            None => {
                let mut i: usize = 0;
                while i < self.reserved.len()
                    invariant
                        i <= self.reserved@.len(),
                        forall|j: int| 0 <= j < i ==> (#[trigger] self.reserved@[j].key()) != url.key(),
                    decreases self.reserved@.len() - i,
                {
                    if self.reserved[i].eq_loc(url) {
                        proof {
                            lemma_urls_set_contains(self.reserved@, url.key());
                        }
                        return true;
                    }
                    i += 1;
                }
                proof {
                    lemma_urls_set_contains(self.reserved@, url.key());
                }
                false
            },
        }
    }

    /// Inserts a complete entry for a location that is not yet known.
    pub(crate) fn insert(&mut self, url: SchemaUrl, schema: ResolvedJsonSchema)
        requires
            old(self).wf(),
            !old(self).known(url.key()),
        ensures
            final(self).wf(),
            final(self).map() == old(self).map().insert(url.key(), schema),
            final(self).reserved_set() == old(self).reserved_set(),
    {
        proof {
            lemma_entries_map_contains(self.entries@, url.key());
            lemma_urls_set_contains(self.reserved@, url.key());
        }
        let ghost k = url.key();
        let ghost pre = self.entries@;
        self.entries.push((url, schema));
        proof {
            let post = self.entries@;
            assert(post.drop_last() =~= pre);
            assert(forall|i: int| 0 <= i < pre.len() ==> (#[trigger] pre[i].0.key()) != k);
            assert forall|x: int, y: int| 0 <= x < y < post.len() implies (
            #[trigger] post[x].0.key()) != (#[trigger] post[y].0.key()) by {
                assert(post[x] == pre[x]);
                if y < post.len() - 1 {
                    assert(post[y] == pre[y]);
                } else {
                    assert(post[y].0.key() == k);
                }
            }
            assert forall|x: int, y: int|
                0 <= x < post.len() && 0 <= y < self.reserved@.len() implies (
            #[trigger] post[x].0.key()) != (#[trigger] self.reserved@[y].key()) by {
                if x < post.len() - 1 {
                    assert(post[x] == pre[x]);
                } else {
                    assert(post[x].0.key() == k);
                }
            }
        }
    }

    /// Reserves a location that is not yet known: its content is pending.
    pub(crate) fn reserve(&mut self, url: SchemaUrl)
        requires
            old(self).wf(),
            !old(self).known(url.key()),
        ensures
            final(self).wf(),
            final(self).map() == old(self).map(),
            final(self).reserved_set() == old(self).reserved_set().insert(url.key()),
    {
        proof {
            lemma_entries_map_contains(self.entries@, url.key());
            lemma_urls_set_contains(self.reserved@, url.key());
        }
        let ghost pre = self.reserved@;
        self.reserved.push(url);
        proof {
            assert(self.reserved@.drop_last() =~= pre);
        }
    }

    /// Releases a reservation without writing content; the store is exactly
    /// as if the location had never been claimed.
    #[verifier::loop_isolation(false)]
    pub(crate) fn release(&mut self, url: &SchemaUrl)
        requires
            old(self).wf(),
        ensures
            final(self).wf(),
            final(self).map() == old(self).map(),
            final(self).reserved_set() == old(self).reserved_set().remove(url.key()),
    {
        let mut i: usize = 0;
        while i < self.reserved.len()
            invariant
                self.wf(),
                *self == *old(self),
                i <= self.reserved@.len(),
                forall|j: int| 0 <= j < i ==> (#[trigger] self.reserved@[j].key()) != url.key(),
            decreases self.reserved@.len() - i,
        {
            if self.reserved[i].eq_loc(url) {
                proof {
                    lemma_urls_set_remove(self.reserved@, i as int);
                }
                self.reserved.remove(i);
                return ;
            }
            i += 1;
        }
        proof {
            lemma_urls_set_contains(self.reserved@, url.key());
            assert(self.reserved_set() =~= self.reserved_set().remove(url.key()));
        }
    }

    /// Turns a reservation into a complete entry.
    pub(crate) fn commit(&mut self, url: SchemaUrl, schema: ResolvedJsonSchema)
        requires
            old(self).wf(),
            old(self).reserved_set().contains(url.key()),
            !old(self).map().contains_key(url.key()),
        ensures
            final(self).wf(),
            final(self).map() == old(self).map().insert(url.key(), schema),
            final(self).reserved_set() == old(self).reserved_set().remove(url.key()),
    {
        self.release(&url);
        proof {
            lemma_urls_set_contains(self.reserved@, url.key());
        }
        self.insert(url, schema);
    }
}

// ---------------------------------------------------------------------------
// Fragment segments
// ---------------------------------------------------------------------------
/// The fragment segment a keyword with a single nested schema contributes.
pub open spec fn seg_one(name: Seq<char>) -> Seq<char> {
    seq!['/'] + name
}

/// The segment a map-shaped keyword contributes for the entry named `key`.
pub open spec fn seg_key(name: Seq<char>, key: Seq<char>) -> Seq<char> {
    seq!['/'] + name + seq!['/'] + key
}

/// The segment a list-shaped keyword contributes for position `i`.
pub open spec fn seg_idx(name: Seq<char>, i: int) -> Seq<char> {
    seq!['/'] + name + seq!['/'] + crate::text::dec_rep(i as nat)
}

/// The canonical key of the child node reached by extending the fragment
/// path `ptr` (within the document `base`) with `seg`.
pub open spec fn child_key(base: Seq<char>, ptr: Seq<char>, seg: Seq<char>) -> UrlKey {
    (base, Some(ptr + seg))
}

/// The written form of that child location.
pub open spec fn child_render(base: Seq<char>, ptr: Seq<char>, seg: Seq<char>) -> Seq<char> {
    base + seq!['#'] + ptr + seg
}

fn one_segment(name: &str) -> (v: Vec<char>)
    ensures
        v@ == seg_one(name@),
{
    let mut v: Vec<char> = Vec::new();
    v.push('/');
    crate::text::append_str(&mut v, name);
    v
}

fn key_segment(name: &str, key: &str) -> (v: Vec<char>)
    ensures
        v@ == seg_key(name@, key@),
{
    let mut v: Vec<char> = Vec::new();
    v.push('/');
    crate::text::append_str(&mut v, name);
    v.push('/');
    crate::text::append_str(&mut v, key);
    v
}

fn idx_segment(name: &str, i: usize) -> (v: Vec<char>)
    ensures
        v@ == seg_idx(name@, i as int),
{
    let mut v: Vec<char> = Vec::new();
    v.push('/');
    crate::text::append_str(&mut v, name);
    v.push('/');
    let mut digits = crate::text::usize_chars(i);
    v.append(&mut digits);
    v
}

// ---------------------------------------------------------------------------
// What one compilation step does
// ---------------------------------------------------------------------------
/// The canonical location a node resolves to: a reference resolves its
/// pointer against the current location's written form; any other node
/// resolves to the current location itself.
pub open spec fn node_target(schema: JsonSchema, loc: UrlKey, render: Seq<char>) -> Option<UrlKey> {
    match schema {
        JsonSchema::Ref { ref_ } => ref_.target_key(render),
        JsonSchema::Mod { mod_ } => mod_.target_key(render),
        _ => Some(loc),
    }
}

/// How one nested schema is rewritten: an already resolved handle is kept;
/// a node whose pointer cannot be resolved is left as it stands; every
/// other node becomes a resolved handle at its target location.
pub open spec fn child_compiled(inp: JsonSchema, out: JsonSchema, k: UrlKey, render: Seq<char>) -> bool {
    match inp {
        JsonSchema::Resolved(_) => out == inp,
        _ => match node_target(inp, k, render) {
            None => out == inp,
            Some(t) => out matches JsonSchema::Resolved(u) && u.key() == t,
        },
    }
}

/// One nested schema, fully handled: rewritten as `child_compiled` says,
/// and, when it carries content of its own, known to the store: `known`
/// is the set of locations resolved or reserved afterwards.
pub open spec fn child_done(
    inp: JsonSchema,
    out: JsonSchema,
    base: Seq<char>,
    ptr: Seq<char>,
    seg: Seq<char>,
    known: Set<UrlKey>,
) -> bool {
    &&& child_compiled(inp, out, child_key(base, ptr, seg), child_render(base, ptr, seg))
    &&& (inp is Bool || inp is Object) ==> known.contains(child_key(base, ptr, seg))
}

/// A list-shaped keyword, fully handled, position by position.
pub open spec fn schemas_done(
    iv: Seq<JsonSchema>,
    ov: Seq<JsonSchema>,
    base: Seq<char>,
    ptr: Seq<char>,
    name: Seq<char>,
    known: Set<UrlKey>,
) -> bool {
    &&& ov.len() == iv.len()
    &&& forall|j: int|
        0 <= j < iv.len() ==> child_done(iv[j], #[trigger] ov[j], base, ptr, seg_idx(name, j), known)
}

/// A map-shaped keyword, fully handled, entry by entry; keys are kept.
pub open spec fn pairs_done(
    iv: Seq<(String, JsonSchema)>,
    ov: Seq<(String, JsonSchema)>,
    base: Seq<char>,
    ptr: Seq<char>,
    name: Seq<char>,
    known: Set<UrlKey>,
) -> bool {
    &&& ov.len() == iv.len()
    &&& forall|j: int|
        0 <= j < iv.len() ==> (#[trigger] ov[j]).0 == iv[j].0 && child_done(
            iv[j].1,
            ov[j].1,
            base,
            ptr,
            seg_key(name, iv[j].0@),
            known,
        )
}

/// The whole keyword record after one compilation pass over a node at
/// fragment path `ptr` of document `base`: every keyword that carries
/// nested schemas had them rewritten under its own conventional segment,
/// and every other keyword is unchanged.
pub open spec fn keywords_compiled(
    i: Keywords,
    o: Keywords,
    base: Seq<char>,
    ptr: Seq<char>,
    known: Set<UrlKey>,
) -> bool {
    &&& match (i.additional_properties, o.additional_properties) {
        (Some(a), Some(b)) => child_done(*a.0, *b.0, base, ptr, seg_one("additionalProperties"@), known),
        (None, None) => true,
        _ => false,
    }
    &&& match (i.all_of, o.all_of) {
        (Some(a), Some(b)) => schemas_done(a.0@, b.0@, base, ptr, "allOf"@, known),
        (None, None) => true,
        _ => false,
    }
    &&& match (i.any_of, o.any_of) {
        (Some(a), Some(b)) => schemas_done(a.0@, b.0@, base, ptr, "anyOf"@, known),
        (None, None) => true,
        _ => false,
    }
    &&& match (i.contains, o.contains) {
        (Some(a), Some(b)) => child_done(*a.0, *b.0, base, ptr, seg_one("contains"@), known),
        (None, None) => true,
        _ => false,
    }
    &&& match (i.definitions, o.definitions) {
        (Some(a), Some(b)) => pairs_done(a.map@, b.map@, base, ptr, "definitions"@, known),
        (None, None) => true,
        _ => false,
    }
    &&& match (i.defs, o.defs) {
        (Some(a), Some(b)) => pairs_done(a.map@, b.map@, base, ptr, "$defs"@, known),
        (None, None) => true,
        _ => false,
    }
    &&& match (i.items, o.items) {
        (Some(a), Some(b)) => child_done(*a.0, *b.0, base, ptr, seg_one("items"@), known),
        (None, None) => true,
        _ => false,
    }
    &&& match (i.not, o.not) {
        (Some(a), Some(b)) => child_done(*a.0, *b.0, base, ptr, seg_one("not"@), known),
        (None, None) => true,
        _ => false,
    }
    &&& match (i.one_of, o.one_of) {
        (Some(a), Some(b)) => schemas_done(a.0@, b.0@, base, ptr, "oneOf"@, known),
        (None, None) => true,
        _ => false,
    }
    &&& match (i.pat_props, o.pat_props) {
        (Some(a), Some(b)) => pairs_done(a.map@, b.map@, base, ptr, "patternProperties"@, known),
        (None, None) => true,
        _ => false,
    }
    &&& match (i.prefix_items, o.prefix_items) {
        (Some(a), Some(b)) => schemas_done(a.0@, b.0@, base, ptr, "prefixItems"@, known),
        (None, None) => true,
        _ => false,
    }
    &&& match (i.props, o.props) {
        (Some(a), Some(b)) => pairs_done(a.map@, b.map@, base, ptr, "properties"@, known),
        (None, None) => true,
        _ => false,
    }
    &&& match (i.prop_names, o.prop_names) {
        (Some(a), Some(b)) => child_done(*a.0, *b.0, base, ptr, seg_one("propertyNames"@), known),
        (None, None) => true,
        _ => false,
    }
    &&& match (i.unevaluated_items, o.unevaluated_items) {
        (Some(a), Some(b)) => child_done(*a.0, *b.0, base, ptr, seg_one("unevaluatedItems"@), known),
        (None, None) => true,
        _ => false,
    }
    &&& o.anchor == i.anchor
    &&& o.comment == i.comment
    &&& o.constant == i.constant
    &&& o.default == i.default
    &&& o.deprecated == i.deprecated
    &&& o.description == i.description
    &&& o.dynamic_anchor == i.dynamic_anchor
    &&& o.dynamic_ref == i.dynamic_ref
    &&& o.enum_ == i.enum_
    &&& o.examples == i.examples
    &&& o.excl_max == i.excl_max
    &&& o.excl_min == i.excl_min
    &&& o.format == i.format
    &&& o.id == i.id
    &&& o.if_then_else == i.if_then_else
    &&& o.max_contains == i.max_contains
    &&& o.max_items == i.max_items
    &&& o.max_length == i.max_length
    &&& o.max_props == i.max_props
    &&& o.max == i.max
    &&& o.min_contains == i.min_contains
    &&& o.min_items == i.min_items
    &&& o.min_length == i.min_length
    &&& o.min_props == i.min_props
    &&& o.min == i.min
    &&& o.multiple == i.multiple
    &&& o.pat == i.pat
    &&& o.read_only == i.read_only
    &&& o.required == i.required
    &&& o.schema == i.schema
    &&& o.title == i.title
    &&& o.type_ == i.type_
    &&& o.unique_items == i.unique_items
    &&& o.write_only == i.write_only
}

/// Everything one compilation step promises: how the node was rewritten,
/// what the store gained, and what was queued for fetching.
pub open spec fn compile_outcome(
    loc: UrlKey,
    render: Seq<char>,
    base: Seq<char>,
    cptr: Seq<char>,
    pre_map: Map<UrlKey, ResolvedJsonSchema>,
    pre_known: Set<UrlKey>,
    post_map: Map<UrlKey, ResolvedJsonSchema>,
    post_known: Set<UrlKey>,
    refs_pre: Seq<Reference>,
    refs_post: Seq<Reference>,
    schema: JsonSchema,
    out: JsonSchema,
) -> bool {
    match schema {
        JsonSchema::Resolved(_) => out == schema && post_map == pre_map && refs_post == refs_pre,
        _ => match node_target(schema, loc, render) {
            None => out == schema && post_map == pre_map && refs_post == refs_pre,
            Some(k) => {
                &&& out matches JsonSchema::Resolved(u) && u.key() == k
                &&& if pre_known.contains(k) {
                    post_map == pre_map && refs_post == refs_pre
                } else {
                    match schema {
                        JsonSchema::Bool(b) => post_map == pre_map.insert(
                            k,
                            ResolvedJsonSchema::Bool(b),
                        ) && refs_post == refs_pre,
                        JsonSchema::Ref { .. } => post_map == pre_map && refs_post.len()
                            == refs_pre.len() + 1 && (refs_post.last() matches Reference::Ref(u2)
                            && u2.key() == k),
                        JsonSchema::Mod { .. } => post_map == pre_map && refs_post.len()
                            == refs_pre.len() + 1 && (refs_post.last() matches Reference::Mod(u2)
                            && u2.key() == k),
                        JsonSchema::Object(kws) => {
                            &&& post_map.contains_key(k)
                            &&& post_map[k] matches ResolvedJsonSchema::Object(kws2)
                                && keywords_compiled(kws, kws2, base, cptr, post_known)
                        },
                        JsonSchema::Resolved(_) => false,
                    }
                }
            },
        },
    }
}

// ---------------------------------------------------------------------------
// The compiler
// ---------------------------------------------------------------------------
/// One document's compilation pass: the document URL, the fragment path of
/// the node being walked (a stack of segments, extended before each descent
/// and restored after), and the pending references found so far.
pub struct Compiler {
    base: String,
    pointer: Vec<char>,
    has_fragment: bool,
    refs: Vec<Reference>,
}

impl Compiler {
    /// A fragment is either absent or the pointer text; the pointer text is
    /// only tracked once a fragment exists.
    pub closed spec fn wf(&self) -> bool {
        !self.has_fragment ==> self.pointer@.len() == 0
    }

    pub closed spec fn frag(&self) -> Option<Seq<char>> {
        if self.has_fragment {
            Some(self.pointer@)
        } else {
            None
        }
    }

    /// The canonical key of the node currently being walked.
    pub closed spec fn loc_key(&self) -> UrlKey {
        (self.base@, self.frag())
    }

    /// The written form of the current location.
    pub closed spec fn loc_render(&self) -> Seq<char> {
        match self.frag() {
            Some(f) => self.base@ + seq!['#'] + f,
            None => self.base@,
        }
    }

    pub closed spec fn spec_base(&self) -> Seq<char> {
        self.base@
    }

    pub closed spec fn spec_pointer(&self) -> Seq<char> {
        self.pointer@
    }

    pub closed spec fn spec_refs(&self) -> Seq<Reference> {
        self.refs@
    }

    /// Both compilers stand at the same place.
    pub closed spec fn same_place(&self, other: &Compiler) -> bool {
        &&& self.base@ == other.base@
        &&& self.pointer@ == other.pointer@
        &&& self.has_fragment == other.has_fragment
    }

    /// Starts a pass at `location`: its fragment, if any, seeds the path
    /// stack, so anonymous nodes below it stay distinct from those below
    /// any other starting fragment.
    pub fn new(location: &SchemaUrl) -> (c: Compiler)
        ensures
            c.wf(),
            c.loc_key() == location.key(),
            c.spec_refs() == Seq::<Reference>::empty(),
    {
        match &location.fragment {
            Some(f) => Compiler {
                base: location.base.clone(),
                pointer: crate::text::str_chars(f.as_str()),
                has_fragment: true,
                refs: Vec::new(),
            },
            None => Compiler {
                base: location.base.clone(),
                pointer: Vec::new(),
                has_fragment: false,
                refs: Vec::new(),
            },
        }
    }

    /// The current location as a value.
    fn current_location(&self) -> (u: SchemaUrl)
        ensures
            u.key() == self.loc_key(),
            u.spec_render() == self.loc_render(),
    {
        let fragment = if self.has_fragment {
            Some(crate::text::chars_string(&self.pointer))
        } else {
            None
        };
        SchemaUrl { base: self.base.clone(), fragment }
    }

    /// Hands the collected pending references out, leaving none behind.
    pub fn take_refs(&mut self) -> (r: Vec<Reference>)
        ensures
            r@ == old(self).spec_refs(),
            final(self).spec_refs() == Seq::<Reference>::empty(),
            final(self).same_place(&*old(self)),
            final(self).wf() == old(self).wf(),
    {
        let mut out: Vec<Reference> = Vec::new();
        std::mem::swap(&mut out, &mut self.refs);
        out
    }

    /// Compiles one node at the current location: replaces it with a
    /// resolved handle, stores newly discovered content under its canonical
    /// URL, and records references that need fetching. The store only
    /// grows, reservations are exactly restored, and the path stack is left
    /// as it was found.
    pub fn compile(&mut self, context: &mut Context, schema: JsonSchema) -> (out: JsonSchema)
        requires
            old(self).wf(),
            old(context).wf(),
        ensures
            final(self).wf(),
            final(context).wf(),
            final(self).same_place(&*old(self)),
            old(self).spec_refs().is_prefix_of(final(self).spec_refs()),
            old(context).map().submap_of(final(context).map()),
            final(context).reserved_set() == old(context).reserved_set(),
            compile_outcome(
                old(self).loc_key(),
                old(self).loc_render(),
                old(self).spec_base(),
                old(self).spec_pointer(),
                old(context).map(),
                old(context).known_set(),
                final(context).map(),
                final(context).known_set(),
                old(self).spec_refs(),
                final(self).spec_refs(),
                schema,
                out,
            ),
        decreases schema, 0int,
    {
        let cur = self.current_location();
        let target: Result<SchemaUrl, CompileError> = match &schema {
            JsonSchema::Ref { ref_ } => ref_.to_absolute(&cur),
            JsonSchema::Mod { mod_ } => mod_.to_absolute(&cur),
            JsonSchema::Resolved(_) => {
                return schema;
            },
            _ => Ok(cur),
        };
        match target {
            Err(_) => schema,
            Ok(url) => {
                if self_known(context, &url) {
                    JsonSchema::Resolved(url)
                } else {
                    match schema {
                        JsonSchema::Bool(b) => {
                            context.insert(url.clone(), ResolvedJsonSchema::Bool(b));
                            JsonSchema::Resolved(url)
                        },
                        JsonSchema::Object(kws) => {
                            let ghost gkws: Keywords = kws;
                            let ghost c_pre: Context = *context;
                            context.reserve(url.clone());
                            let kws2 = kws.compile(self, context);
                            let ghost c_kws: Context = *context;
                            let ghost gkws2: Keywords = kws2;
                            proof {
                                lemma_wf_disjoint(*context, url.key());
                            }
                            context.commit(url.clone(), ResolvedJsonSchema::Object(kws2));
                            proof {
                                assert(context.reserved_set() =~= c_pre.reserved_set());
                                assert(c_pre.map().submap_of(c_kws.map()));
                                assert(c_pre.map().submap_of(context.map()));
                                assert forall|j: UrlKey| c_kws.known_set().contains(j) implies context.known_set().contains(
                                    j,
                                ) by {
                                    if c_kws.map().dom().contains(j) {
                                        assert(context.map().dom().contains(j));
                                    }
                                }
                                lemma_keywords_compiled_mono(
                                    gkws,
                                    gkws2,
                                    old(self).spec_base(),
                                    old(self).spec_pointer(),
                                    c_kws.known_set(),
                                    context.known_set(),
                                );
                            }
                            JsonSchema::Resolved(url)
                        },
                        JsonSchema::Ref { .. } => {
                            self.refs.push(Reference::Ref(url.clone()));
                            JsonSchema::Resolved(url)
                        },
                        JsonSchema::Mod { .. } => {
                            self.refs.push(Reference::Mod(url.clone()));
                            JsonSchema::Resolved(url)
                        },
                        JsonSchema::Resolved(_) => unreached(),
                    }
                }
            },
        }
    }

    /// Compiles one nested schema below the current node: the fragment path
    /// is extended by `segment` for the duration of the call and restored
    /// afterwards, so sibling traversals never observe it.
    pub fn compile_rel_key(
        &mut self,
        context: &mut Context,
        segment: Vec<char>,
        schema: JsonSchema,
    ) -> (out: JsonSchema)
        requires
            old(self).wf(),
            old(context).wf(),
        ensures
            final(self).wf(),
            final(context).wf(),
            final(self).same_place(&*old(self)),
            old(self).spec_refs().is_prefix_of(final(self).spec_refs()),
            old(context).map().submap_of(final(context).map()),
            final(context).reserved_set() == old(context).reserved_set(),
            compile_outcome(
                child_key(old(self).spec_base(), old(self).spec_pointer(), segment@),
                child_render(old(self).spec_base(), old(self).spec_pointer(), segment@),
                old(self).spec_base(),
                old(self).spec_pointer() + segment@,
                old(context).map(),
                old(context).known_set(),
                final(context).map(),
                final(context).known_set(),
                old(self).spec_refs(),
                final(self).spec_refs(),
                schema,
                out,
            ),
        decreases schema, 1int,
    {
        let saved_len = self.pointer.len();
        let saved_frag = self.has_fragment;
        self.has_fragment = true;
        let mut seg = segment;
        self.pointer.append(&mut seg);
        let out = self.compile(context, schema);
        self.pointer.truncate(saved_len);
        self.has_fragment = saved_frag;
        proof {
            assert(self.pointer@ =~= old(self).pointer@);
            assert(old(self).spec_base() + seq!['#'] + old(self).spec_pointer() + segment@
                =~= old(self).spec_base() + seq!['#'] + (old(self).spec_pointer() + segment@));
        }
        out
    }
}

/// The deduplication check, as its own step: a location already resolved
/// or reserved is never walked, fetched or recomputed again.
fn self_known(context: &Context, url: &SchemaUrl) -> (r: bool)
    requires
        context.wf(),
    ensures
        r == context.known(url.key()),
{
    context.is_known(url)
}


// ---------------------------------------------------------------------------
// Descending into keywords
// ---------------------------------------------------------------------------
/// A step's outcome at a child place, folded into `child_done`.
proof fn lemma_outcome_child_done(
    base: Seq<char>,
    ptr: Seq<char>,
    seg: Seq<char>,
    pre: Context,
    post: Context,
    refs_pre: Seq<Reference>,
    refs_post: Seq<Reference>,
    schema: JsonSchema,
    out: JsonSchema,
)
    requires
        compile_outcome(
            child_key(base, ptr, seg),
            child_render(base, ptr, seg),
            base,
            ptr + seg,
            pre.map(),
            pre.known_set(),
            post.map(),
            post.known_set(),
            refs_pre,
            refs_post,
            schema,
            out,
        ),
        pre.map().submap_of(post.map()),
        post.reserved_set() == pre.reserved_set(),
    ensures
        child_done(schema, out, base, ptr, seg, post.known_set()),
{
    let k = child_key(base, ptr, seg);
    match schema {
        JsonSchema::Resolved(_) => {},
        JsonSchema::Bool(b) => {
            if pre.known(k) {
                assert(post.known(k));
            } else {
                assert(post.map().contains_key(k));
                assert(post.known(k));
            }
        },
        JsonSchema::Object(_) => {
            if pre.known(k) {
                assert(post.known(k));
            } else {
                assert(post.map().contains_key(k));
                assert(post.known(k));
            }
        },
        _ => {},
    }
}

/// `child_done` is stable while the store grows and reservations stand.
proof fn lemma_child_done_mono(
    i: JsonSchema,
    o: JsonSchema,
    base: Seq<char>,
    ptr: Seq<char>,
    seg: Seq<char>,
    k1: Set<UrlKey>,
    k2: Set<UrlKey>,
)
    requires
        child_done(i, o, base, ptr, seg, k1),
        k1.subset_of(k2),
    ensures
        child_done(i, o, base, ptr, seg, k2),
{
}

proof fn lemma_schemas_done_mono(
    iv: Seq<JsonSchema>,
    ov: Seq<JsonSchema>,
    base: Seq<char>,
    ptr: Seq<char>,
    name: Seq<char>,
    k1: Set<UrlKey>,
    k2: Set<UrlKey>,
)
    requires
        schemas_done(iv, ov, base, ptr, name, k1),
        k1.subset_of(k2),
    ensures
        schemas_done(iv, ov, base, ptr, name, k2),
{
    assert forall|j: int| 0 <= j < iv.len() implies child_done(
        iv[j],
        #[trigger] ov[j],
        base,
        ptr,
        seg_idx(name, j),
        k2,
    ) by {
        lemma_child_done_mono(iv[j], ov[j], base, ptr, seg_idx(name, j), k1, k2);
    }
}

proof fn lemma_pairs_done_mono(
    iv: Seq<(String, JsonSchema)>,
    ov: Seq<(String, JsonSchema)>,
    base: Seq<char>,
    ptr: Seq<char>,
    name: Seq<char>,
    k1: Set<UrlKey>,
    k2: Set<UrlKey>,
)
    requires
        pairs_done(iv, ov, base, ptr, name, k1),
        k1.subset_of(k2),
    ensures
        pairs_done(iv, ov, base, ptr, name, k2),
{
    assert forall|j: int| 0 <= j < iv.len() implies (#[trigger] ov[j]).0 == iv[j].0 && child_done(
        iv[j].1,
        ov[j].1,
        base,
        ptr,
        seg_key(name, iv[j].0@),
        k2,
    ) by {
        lemma_child_done_mono(iv[j].1, ov[j].1, base, ptr, seg_key(name, iv[j].0@), k1, k2);
    }
}

/// Compiles the nested schema of a keyword that holds exactly one.
fn compile_boxed(
    c: &mut Compiler,
    context: &mut Context,
    b: Box<JsonSchema>,
    name: &str,
) -> (out: Box<JsonSchema>)
    requires
        old(c).wf(),
        old(context).wf(),
    ensures
        final(c).wf(),
        final(context).wf(),
        final(c).same_place(&*old(c)),
        old(c).spec_refs().is_prefix_of(final(c).spec_refs()),
        old(context).map().submap_of(final(context).map()),
        final(context).reserved_set() == old(context).reserved_set(),
        child_done(*b, *out, old(c).spec_base(), old(c).spec_pointer(), seg_one(name@), final(context).known_set()),
    decreases *b, 2int,
{
    let seg = one_segment(name);
    let ghost pre = *context;
    let ghost refs_pre = c.spec_refs();
    let out = c.compile_rel_key(context, seg, *b);
    proof {
        lemma_outcome_child_done(
            old(c).spec_base(),
            old(c).spec_pointer(),
            seg_one(name@),
            pre,
            *context,
            refs_pre,
            c.spec_refs(),
            *b,
            out,
        );
    }
    Box::new(out)
}

/// Compiles every nested schema of a list-shaped keyword, in order.
#[verifier::loop_isolation(false)]
fn compile_vec(
    c: &mut Compiler,
    context: &mut Context,
    v: Vec<JsonSchema>,
    name: &str,
) -> (out: Vec<JsonSchema>)
    requires
        old(c).wf(),
        old(context).wf(),
    ensures
        final(c).wf(),
        final(context).wf(),
        final(c).same_place(&*old(c)),
        old(c).spec_refs().is_prefix_of(final(c).spec_refs()),
        old(context).map().submap_of(final(context).map()),
        final(context).reserved_set() == old(context).reserved_set(),
        schemas_done(v@, out@, old(c).spec_base(), old(c).spec_pointer(), name@, final(context).known_set()),
    decreases v@, 2int,
{
    let ghost orig = v@;
    let mut v = v;
    let mut out: Vec<JsonSchema> = Vec::new();
    while v.len() > 0
        invariant
            c.wf(),
            context.wf(),
            out@.len() + v@.len() == orig.len(),
            v@ == orig.skip(out@.len() as int),
            c.same_place(&*old(c)),
            old(c).spec_refs().is_prefix_of(c.spec_refs()),
            old(context).map().submap_of(context.map()),
            context.reserved_set() == old(context).reserved_set(),
            forall|j: int|
                0 <= j < out@.len() ==> child_done(
                    orig[j],
                    #[trigger] out@[j],
                    old(c).spec_base(),
                    old(c).spec_pointer(),
                    seg_idx(name@, j),
                    context.known_set(),
                ),
        decreases v@.len(),
    {
        let ghost j = out@.len() as int;
        let ghost mid = *context;
        let ghost refs_mid = c.spec_refs();
        let item = v.remove(0);
        proof {
            assert(item == orig[j]);
            assert(decreases_to!(orig => orig[j]));
        }
        let seg = idx_segment(name, out.len());
        let compiled = c.compile_rel_key(context, seg, item);
        proof {
            lemma_outcome_child_done(
                old(c).spec_base(),
                old(c).spec_pointer(),
                seg_idx(name@, j),
                mid,
                *context,
                refs_mid,
                c.spec_refs(),
                item,
                compiled,
            );
        }
        out.push(compiled);
        proof {
            assert forall|q: int| 0 <= q < out@.len() - 1 implies child_done(
                orig[q],
                #[trigger] out@[q],
                old(c).spec_base(),
                old(c).spec_pointer(),
                seg_idx(name@, q),
                context.known_set(),
            ) by {
                lemma_known_grows(mid, *context);
                lemma_child_done_mono(
                    orig[q],
                    out@[q],
                    old(c).spec_base(),
                    old(c).spec_pointer(),
                    seg_idx(name@, q),
                    mid.known_set(),
                    context.known_set(),
                );
            }
            lemma_submap_trans(old(context).map(), mid.map(), context.map());
            assert(v@ =~= orig.skip(out@.len() as int));
        }
    }
    out
}

/// Compiles the nested schema of one named entry of a map-shaped keyword.
fn compile_pair(
    c: &mut Compiler,
    context: &mut Context,
    pair: (String, JsonSchema),
    name: &str,
) -> (out: (String, JsonSchema))
    requires
        old(c).wf(),
        old(context).wf(),
    ensures
        final(c).wf(),
        final(context).wf(),
        final(c).same_place(&*old(c)),
        old(c).spec_refs().is_prefix_of(final(c).spec_refs()),
        old(context).map().submap_of(final(context).map()),
        final(context).reserved_set() == old(context).reserved_set(),
        out.0 == pair.0,
        child_done(
            pair.1,
            out.1,
            old(c).spec_base(),
            old(c).spec_pointer(),
            seg_key(name@, pair.0@),
            final(context).known_set(),
        ),
    decreases pair, 2int,
{
    let (key, child) = pair;
    let seg = key_segment(name, key.as_str());
    let ghost pre = *context;
    let ghost refs_pre = c.spec_refs();
    let compiled = c.compile_rel_key(context, seg, child);
    proof {
        lemma_outcome_child_done(
            old(c).spec_base(),
            old(c).spec_pointer(),
            seg_key(name@, key@),
            pre,
            *context,
            refs_pre,
            c.spec_refs(),
            child,
            compiled,
        );
    }
    (key, compiled)
}

/// Compiles every nested schema of a map-shaped keyword, in source order.
#[verifier::loop_isolation(false)]
fn compile_pairs(
    c: &mut Compiler,
    context: &mut Context,
    v: Vec<(String, JsonSchema)>,
    name: &str,
) -> (out: Vec<(String, JsonSchema)>)
    requires
        old(c).wf(),
        old(context).wf(),
    ensures
        final(c).wf(),
        final(context).wf(),
        final(c).same_place(&*old(c)),
        old(c).spec_refs().is_prefix_of(final(c).spec_refs()),
        old(context).map().submap_of(final(context).map()),
        final(context).reserved_set() == old(context).reserved_set(),
        pairs_done(v@, out@, old(c).spec_base(), old(c).spec_pointer(), name@, final(context).known_set()),
    decreases v@, 2int,
{
    let ghost orig = v@;
    let mut v = v;
    let mut out: Vec<(String, JsonSchema)> = Vec::new();
    while v.len() > 0
        invariant
            c.wf(),
            context.wf(),
            out@.len() + v@.len() == orig.len(),
            v@ == orig.skip(out@.len() as int),
            c.same_place(&*old(c)),
            old(c).spec_refs().is_prefix_of(c.spec_refs()),
            old(context).map().submap_of(context.map()),
            context.reserved_set() == old(context).reserved_set(),
            forall|j: int|
                0 <= j < out@.len() ==> (#[trigger] out@[j]).0 == orig[j].0 && child_done(
                    orig[j].1,
                    out@[j].1,
                    old(c).spec_base(),
                    old(c).spec_pointer(),
                    seg_key(name@, orig[j].0@),
                    context.known_set(),
                ),
        decreases v@.len(),
    {
        let ghost j = out@.len() as int;
        let ghost mid = *context;
        let item = v.remove(0);
        proof {
            assert(item == orig[j]);
            assert(decreases_to!(orig => orig[j]));
        }
        let compiled = compile_pair(c, context, item, name);
        out.push(compiled);
        proof {
            assert forall|q: int| 0 <= q < out@.len() - 1 implies (#[trigger] out@[q]).0
                == orig[q].0 && child_done(
                orig[q].1,
                out@[q].1,
                old(c).spec_base(),
                old(c).spec_pointer(),
                seg_key(name@, orig[q].0@),
                context.known_set(),
            ) by {
                lemma_known_grows(mid, *context);
                lemma_child_done_mono(
                    orig[q].1,
                    out@[q].1,
                    old(c).spec_base(),
                    old(c).spec_pointer(),
                    seg_key(name@, orig[q].0@),
                    mid.known_set(),
                    context.known_set(),
                );
            }
            lemma_submap_trans(old(context).map(), mid.map(), context.map());
            assert(v@ =~= orig.skip(out@.len() as int));
        }
    }
    out
}


/// `keywords_compiled` is stable while the store grows and reservations
/// stand.
proof fn lemma_keywords_compiled_mono(
    i: Keywords,
    o: Keywords,
    base: Seq<char>,
    ptr: Seq<char>,
    k1: Set<UrlKey>,
    k2: Set<UrlKey>,
)
    requires
        keywords_compiled(i, o, base, ptr, k1),
        k1.subset_of(k2),
    ensures
        keywords_compiled(i, o, base, ptr, k2),
{
    match (i.additional_properties, o.additional_properties) {
        (Some(a), Some(b)) => lemma_child_done_mono(
            *a.0,
            *b.0,
            base,
            ptr,
            seg_one("additionalProperties"@),
            k1,
            k2,
        ),
        _ => (),
    }
    match (i.all_of, o.all_of) {
        (Some(a), Some(b)) => lemma_schemas_done_mono(a.0@, b.0@, base, ptr, "allOf"@, k1, k2),
        _ => (),
    }
    match (i.any_of, o.any_of) {
        (Some(a), Some(b)) => lemma_schemas_done_mono(a.0@, b.0@, base, ptr, "anyOf"@, k1, k2),
        _ => (),
    }
    match (i.contains, o.contains) {
        (Some(a), Some(b)) => lemma_child_done_mono(*a.0, *b.0, base, ptr, seg_one("contains"@), k1, k2),
        _ => (),
    }
    match (i.definitions, o.definitions) {
        (Some(a), Some(b)) => lemma_pairs_done_mono(a.map@, b.map@, base, ptr, "definitions"@, k1, k2),
        _ => (),
    }
    match (i.defs, o.defs) {
        (Some(a), Some(b)) => lemma_pairs_done_mono(a.map@, b.map@, base, ptr, "$defs"@, k1, k2),
        _ => (),
    }
    match (i.items, o.items) {
        (Some(a), Some(b)) => lemma_child_done_mono(*a.0, *b.0, base, ptr, seg_one("items"@), k1, k2),
        _ => (),
    }
    match (i.not, o.not) {
        (Some(a), Some(b)) => lemma_child_done_mono(*a.0, *b.0, base, ptr, seg_one("not"@), k1, k2),
        _ => (),
    }
    match (i.one_of, o.one_of) {
        (Some(a), Some(b)) => lemma_schemas_done_mono(a.0@, b.0@, base, ptr, "oneOf"@, k1, k2),
        _ => (),
    }
    match (i.pat_props, o.pat_props) {
        (Some(a), Some(b)) => lemma_pairs_done_mono(
            a.map@,
            b.map@,
            base,
            ptr,
            "patternProperties"@,
            k1,
            k2,
        ),
        _ => (),
    }
    match (i.prefix_items, o.prefix_items) {
        (Some(a), Some(b)) => lemma_schemas_done_mono(a.0@, b.0@, base, ptr, "prefixItems"@, k1, k2),
        _ => (),
    }
    match (i.props, o.props) {
        (Some(a), Some(b)) => lemma_pairs_done_mono(a.map@, b.map@, base, ptr, "properties"@, k1, k2),
        _ => (),
    }
    match (i.prop_names, o.prop_names) {
        (Some(a), Some(b)) => lemma_child_done_mono(
            *a.0,
            *b.0,
            base,
            ptr,
            seg_one("propertyNames"@),
            k1,
            k2,
        ),
        _ => (),
    }
    match (i.unevaluated_items, o.unevaluated_items) {
        (Some(a), Some(b)) => lemma_child_done_mono(
            *a.0,
            *b.0,
            base,
            ptr,
            seg_one("unevaluatedItems"@),
            k1,
            k2,
        ),
        _ => (),
    }
}


/// Store growth is transitive.
proof fn lemma_submap_trans(
    a: Map<UrlKey, ResolvedJsonSchema>,
    b: Map<UrlKey, ResolvedJsonSchema>,
    c: Map<UrlKey, ResolvedJsonSchema>,
)
    requires
        a.submap_of(b),
        b.submap_of(c),
    ensures
        a.submap_of(c),
{
    vstd::map_lib::lemma_submap_of_trans(a, b, c);
}

/// While the store grows and reservations stand, every known location
/// stays known.
proof fn lemma_known_grows(c1: Context, c2: Context)
    requires
        c1.map().submap_of(c2.map()),
        c2.reserved_set() == c1.reserved_set(),
    ensures
        c1.known_set().subset_of(c2.known_set()),
{
    assert forall|j: UrlKey| c1.known_set().contains(j) implies c2.known_set().contains(j) by {
        if c1.map().dom().contains(j) {
            assert(c2.map().dom().contains(j));
        }
    }
}

/// A reserved location has no stored content yet.
proof fn lemma_wf_disjoint(c: Context, k: UrlKey)
    requires
        c.wf(),
        c.reserved_set().contains(k),
    ensures
        !c.map().contains_key(k),
{
    lemma_urls_set_contains(c.reserved@, k);
    lemma_entries_map_contains(c.entries@, k);
}



fn compile_kw_additional_properties(c: &mut Compiler, context: &mut Context, f: Option<AdditionalPropertiesKeyword>) -> (out: Option<
    AdditionalPropertiesKeyword,
>)
    requires
        old(c).wf(),
        old(context).wf(),
    ensures
        final(c).wf(),
        final(context).wf(),
        final(c).same_place(&*old(c)),
        old(c).spec_refs().is_prefix_of(final(c).spec_refs()),
        old(context).map().submap_of(final(context).map()),
        final(context).reserved_set() == old(context).reserved_set(),
        match (f, out) {
            (Some(a), Some(b)) => child_done(*a.0, *b.0, old(c).spec_base(), old(c).spec_pointer(), seg_one("additionalProperties"@), final(context).known_set()),
            (None, None) => true,
            _ => false,
        },
    decreases f, 2int,
{
    match f {
        Some(AdditionalPropertiesKeyword(b)) => Some(AdditionalPropertiesKeyword(compile_boxed(c, context, b, "additionalProperties"))),
        None => None,
    }
}

fn compile_kw_all_of(c: &mut Compiler, context: &mut Context, f: Option<AllOfKeyword>) -> (out: Option<
    AllOfKeyword,
>)
    requires
        old(c).wf(),
        old(context).wf(),
    ensures
        final(c).wf(),
        final(context).wf(),
        final(c).same_place(&*old(c)),
        old(c).spec_refs().is_prefix_of(final(c).spec_refs()),
        old(context).map().submap_of(final(context).map()),
        final(context).reserved_set() == old(context).reserved_set(),
        match (f, out) {
            (Some(a), Some(b)) => schemas_done(a.0@, b.0@, old(c).spec_base(), old(c).spec_pointer(), "allOf"@, final(context).known_set()),
            (None, None) => true,
            _ => false,
        },
    decreases f, 2int,
{
    match f {
        Some(AllOfKeyword(v)) => Some(AllOfKeyword(compile_vec(c, context, v, "allOf"))),
        None => None,
    }
}

fn compile_kw_any_of(c: &mut Compiler, context: &mut Context, f: Option<AnyOfKeyword>) -> (out: Option<
    AnyOfKeyword,
>)
    requires
        old(c).wf(),
        old(context).wf(),
    ensures
        final(c).wf(),
        final(context).wf(),
        final(c).same_place(&*old(c)),
        old(c).spec_refs().is_prefix_of(final(c).spec_refs()),
        old(context).map().submap_of(final(context).map()),
        final(context).reserved_set() == old(context).reserved_set(),
        match (f, out) {
            (Some(a), Some(b)) => schemas_done(a.0@, b.0@, old(c).spec_base(), old(c).spec_pointer(), "anyOf"@, final(context).known_set()),
            (None, None) => true,
            _ => false,
        },
    decreases f, 2int,
{
    match f {
        Some(AnyOfKeyword(v)) => Some(AnyOfKeyword(compile_vec(c, context, v, "anyOf"))),
        None => None,
    }
}

fn compile_kw_contains(c: &mut Compiler, context: &mut Context, f: Option<ContainsKeyword>) -> (out: Option<
    ContainsKeyword,
>)
    requires
        old(c).wf(),
        old(context).wf(),
    ensures
        final(c).wf(),
        final(context).wf(),
        final(c).same_place(&*old(c)),
        old(c).spec_refs().is_prefix_of(final(c).spec_refs()),
        old(context).map().submap_of(final(context).map()),
        final(context).reserved_set() == old(context).reserved_set(),
        match (f, out) {
            (Some(a), Some(b)) => child_done(*a.0, *b.0, old(c).spec_base(), old(c).spec_pointer(), seg_one("contains"@), final(context).known_set()),
            (None, None) => true,
            _ => false,
        },
    decreases f, 2int,
{
    match f {
        Some(ContainsKeyword(b)) => Some(ContainsKeyword(compile_boxed(c, context, b, "contains"))),
        None => None,
    }
}

fn compile_kw_definitions(c: &mut Compiler, context: &mut Context, f: Option<DefinitionsKeyword>) -> (out: Option<
    DefinitionsKeyword,
>)
    requires
        old(c).wf(),
        old(context).wf(),
    ensures
        final(c).wf(),
        final(context).wf(),
        final(c).same_place(&*old(c)),
        old(c).spec_refs().is_prefix_of(final(c).spec_refs()),
        old(context).map().submap_of(final(context).map()),
        final(context).reserved_set() == old(context).reserved_set(),
        match (f, out) {
            (Some(a), Some(b)) => pairs_done(a.map@, b.map@, old(c).spec_base(), old(c).spec_pointer(), "definitions"@, final(context).known_set()),
            (None, None) => true,
            _ => false,
        },
    decreases f, 2int,
{
    match f {
        Some(DefinitionsKeyword { map }) => Some(DefinitionsKeyword { map: compile_pairs(c, context, map, "definitions") }),
        None => None,
    }
}

fn compile_kw_defs(c: &mut Compiler, context: &mut Context, f: Option<DefsKeyword>) -> (out: Option<
    DefsKeyword,
>)
    requires
        old(c).wf(),
        old(context).wf(),
    ensures
        final(c).wf(),
        final(context).wf(),
        final(c).same_place(&*old(c)),
        old(c).spec_refs().is_prefix_of(final(c).spec_refs()),
        old(context).map().submap_of(final(context).map()),
        final(context).reserved_set() == old(context).reserved_set(),
        match (f, out) {
            (Some(a), Some(b)) => pairs_done(a.map@, b.map@, old(c).spec_base(), old(c).spec_pointer(), "$defs"@, final(context).known_set()),
            (None, None) => true,
            _ => false,
        },
    decreases f, 2int,
{
    match f {
        Some(DefsKeyword { map }) => Some(DefsKeyword { map: compile_pairs(c, context, map, "$defs") }),
        None => None,
    }
}

fn compile_kw_items(c: &mut Compiler, context: &mut Context, f: Option<ItemsKeyword>) -> (out: Option<
    ItemsKeyword,
>)
    requires
        old(c).wf(),
        old(context).wf(),
    ensures
        final(c).wf(),
        final(context).wf(),
        final(c).same_place(&*old(c)),
        old(c).spec_refs().is_prefix_of(final(c).spec_refs()),
        old(context).map().submap_of(final(context).map()),
        final(context).reserved_set() == old(context).reserved_set(),
        match (f, out) {
            (Some(a), Some(b)) => child_done(*a.0, *b.0, old(c).spec_base(), old(c).spec_pointer(), seg_one("items"@), final(context).known_set()),
            (None, None) => true,
            _ => false,
        },
    decreases f, 2int,
{
    match f {
        Some(ItemsKeyword(b)) => Some(ItemsKeyword(compile_boxed(c, context, b, "items"))),
        None => None,
    }
}

fn compile_kw_not(c: &mut Compiler, context: &mut Context, f: Option<NotKeyword>) -> (out: Option<
    NotKeyword,
>)
    requires
        old(c).wf(),
        old(context).wf(),
    ensures
        final(c).wf(),
        final(context).wf(),
        final(c).same_place(&*old(c)),
        old(c).spec_refs().is_prefix_of(final(c).spec_refs()),
        old(context).map().submap_of(final(context).map()),
        final(context).reserved_set() == old(context).reserved_set(),
        match (f, out) {
            (Some(a), Some(b)) => child_done(*a.0, *b.0, old(c).spec_base(), old(c).spec_pointer(), seg_one("not"@), final(context).known_set()),
            (None, None) => true,
            _ => false,
        },
    decreases f, 2int,
{
    match f {
        Some(NotKeyword(b)) => Some(NotKeyword(compile_boxed(c, context, b, "not"))),
        None => None,
    }
}

fn compile_kw_one_of(c: &mut Compiler, context: &mut Context, f: Option<OneOfKeyword>) -> (out: Option<
    OneOfKeyword,
>)
    requires
        old(c).wf(),
        old(context).wf(),
    ensures
        final(c).wf(),
        final(context).wf(),
        final(c).same_place(&*old(c)),
        old(c).spec_refs().is_prefix_of(final(c).spec_refs()),
        old(context).map().submap_of(final(context).map()),
        final(context).reserved_set() == old(context).reserved_set(),
        match (f, out) {
            (Some(a), Some(b)) => schemas_done(a.0@, b.0@, old(c).spec_base(), old(c).spec_pointer(), "oneOf"@, final(context).known_set()),
            (None, None) => true,
            _ => false,
        },
    decreases f, 2int,
{
    match f {
        Some(OneOfKeyword(v)) => Some(OneOfKeyword(compile_vec(c, context, v, "oneOf"))),
        None => None,
    }
}

fn compile_kw_pat_props(c: &mut Compiler, context: &mut Context, f: Option<PatternPropertiesKeyword>) -> (out: Option<
    PatternPropertiesKeyword,
>)
    requires
        old(c).wf(),
        old(context).wf(),
    ensures
        final(c).wf(),
        final(context).wf(),
        final(c).same_place(&*old(c)),
        old(c).spec_refs().is_prefix_of(final(c).spec_refs()),
        old(context).map().submap_of(final(context).map()),
        final(context).reserved_set() == old(context).reserved_set(),
        match (f, out) {
            (Some(a), Some(b)) => pairs_done(a.map@, b.map@, old(c).spec_base(), old(c).spec_pointer(), "patternProperties"@, final(context).known_set()),
            (None, None) => true,
            _ => false,
        },
    decreases f, 2int,
{
    match f {
        Some(PatternPropertiesKeyword { map }) => Some(PatternPropertiesKeyword { map: compile_pairs(c, context, map, "patternProperties") }),
        None => None,
    }
}

fn compile_kw_prefix_items(c: &mut Compiler, context: &mut Context, f: Option<PrefixItemsKeyword>) -> (out: Option<
    PrefixItemsKeyword,
>)
    requires
        old(c).wf(),
        old(context).wf(),
    ensures
        final(c).wf(),
        final(context).wf(),
        final(c).same_place(&*old(c)),
        old(c).spec_refs().is_prefix_of(final(c).spec_refs()),
        old(context).map().submap_of(final(context).map()),
        final(context).reserved_set() == old(context).reserved_set(),
        match (f, out) {
            (Some(a), Some(b)) => schemas_done(a.0@, b.0@, old(c).spec_base(), old(c).spec_pointer(), "prefixItems"@, final(context).known_set()),
            (None, None) => true,
            _ => false,
        },
    decreases f, 2int,
{
    match f {
        Some(PrefixItemsKeyword(v)) => Some(PrefixItemsKeyword(compile_vec(c, context, v, "prefixItems"))),
        None => None,
    }
}

fn compile_kw_props(c: &mut Compiler, context: &mut Context, f: Option<PropertiesKeyword>) -> (out: Option<
    PropertiesKeyword,
>)
    requires
        old(c).wf(),
        old(context).wf(),
    ensures
        final(c).wf(),
        final(context).wf(),
        final(c).same_place(&*old(c)),
        old(c).spec_refs().is_prefix_of(final(c).spec_refs()),
        old(context).map().submap_of(final(context).map()),
        final(context).reserved_set() == old(context).reserved_set(),
        match (f, out) {
            (Some(a), Some(b)) => pairs_done(a.map@, b.map@, old(c).spec_base(), old(c).spec_pointer(), "properties"@, final(context).known_set()),
            (None, None) => true,
            _ => false,
        },
    decreases f, 2int,
{
    match f {
        Some(PropertiesKeyword { map }) => Some(PropertiesKeyword { map: compile_pairs(c, context, map, "properties") }),
        None => None,
    }
}

fn compile_kw_prop_names(c: &mut Compiler, context: &mut Context, f: Option<PropertyNamesKeyword>) -> (out: Option<
    PropertyNamesKeyword,
>)
    requires
        old(c).wf(),
        old(context).wf(),
    ensures
        final(c).wf(),
        final(context).wf(),
        final(c).same_place(&*old(c)),
        old(c).spec_refs().is_prefix_of(final(c).spec_refs()),
        old(context).map().submap_of(final(context).map()),
        final(context).reserved_set() == old(context).reserved_set(),
        match (f, out) {
            (Some(a), Some(b)) => child_done(*a.0, *b.0, old(c).spec_base(), old(c).spec_pointer(), seg_one("propertyNames"@), final(context).known_set()),
            (None, None) => true,
            _ => false,
        },
    decreases f, 2int,
{
    match f {
        Some(PropertyNamesKeyword(b)) => Some(PropertyNamesKeyword(compile_boxed(c, context, b, "propertyNames"))),
        None => None,
    }
}

fn compile_kw_unevaluated_items(c: &mut Compiler, context: &mut Context, f: Option<UnevaluatedItemsKeyword>) -> (out: Option<
    UnevaluatedItemsKeyword,
>)
    requires
        old(c).wf(),
        old(context).wf(),
    ensures
        final(c).wf(),
        final(context).wf(),
        final(c).same_place(&*old(c)),
        old(c).spec_refs().is_prefix_of(final(c).spec_refs()),
        old(context).map().submap_of(final(context).map()),
        final(context).reserved_set() == old(context).reserved_set(),
        match (f, out) {
            (Some(a), Some(b)) => child_done(*a.0, *b.0, old(c).spec_base(), old(c).spec_pointer(), seg_one("unevaluatedItems"@), final(context).known_set()),
            (None, None) => true,
            _ => false,
        },
    decreases f, 2int,
{
    match f {
        Some(UnevaluatedItemsKeyword(b)) => Some(UnevaluatedItemsKeyword(compile_boxed(c, context, b, "unevaluatedItems"))),
        None => None,
    }
}

/// Folds the per-keyword results, each stated against the store as it was
/// right after that keyword, into one statement against the final store.
#[verifier::rlimit(100)]
#[verifier::spinoff_prover]
proof fn lemma_keywords_assemble(
    i0: Keywords,
    o0: Keywords,
    base: Seq<char>,
    ptr: Seq<char>,
    g1: Context,
    g2: Context,
    g3: Context,
    g4: Context,
    g5: Context,
    g6: Context,
    g7: Context,
    g8: Context,
    g9: Context,
    g10: Context,
    g11: Context,
    g12: Context,
    g13: Context,
    gf: Context,
)
    requires
        g1.map().submap_of(g2.map()),
        g2.map().submap_of(g3.map()),
        g3.map().submap_of(g4.map()),
        g4.map().submap_of(g5.map()),
        g5.map().submap_of(g6.map()),
        g6.map().submap_of(g7.map()),
        g7.map().submap_of(g8.map()),
        g8.map().submap_of(g9.map()),
        g9.map().submap_of(g10.map()),
        g10.map().submap_of(g11.map()),
        g11.map().submap_of(g12.map()),
        g12.map().submap_of(g13.map()),
        g13.map().submap_of(gf.map()),
        g2.reserved_set() == g1.reserved_set(),
        g3.reserved_set() == g2.reserved_set(),
        g4.reserved_set() == g3.reserved_set(),
        g5.reserved_set() == g4.reserved_set(),
        g6.reserved_set() == g5.reserved_set(),
        g7.reserved_set() == g6.reserved_set(),
        g8.reserved_set() == g7.reserved_set(),
        g9.reserved_set() == g8.reserved_set(),
        g10.reserved_set() == g9.reserved_set(),
        g11.reserved_set() == g10.reserved_set(),
        g12.reserved_set() == g11.reserved_set(),
        g13.reserved_set() == g12.reserved_set(),
        gf.reserved_set() == g13.reserved_set(),
        match (i0.additional_properties, o0.additional_properties) {
            (Some(a), Some(b)) => child_done(*a.0, *b.0, base, ptr, seg_one("additionalProperties"@), g1.known_set()),
            (None, None) => true,
            _ => false,
        },
        match (i0.all_of, o0.all_of) {
            (Some(a), Some(b)) => schemas_done(a.0@, b.0@, base, ptr, "allOf"@, g2.known_set()),
            (None, None) => true,
            _ => false,
        },
        match (i0.any_of, o0.any_of) {
            (Some(a), Some(b)) => schemas_done(a.0@, b.0@, base, ptr, "anyOf"@, g3.known_set()),
            (None, None) => true,
            _ => false,
        },
        match (i0.contains, o0.contains) {
            (Some(a), Some(b)) => child_done(*a.0, *b.0, base, ptr, seg_one("contains"@), g4.known_set()),
            (None, None) => true,
            _ => false,
        },
        match (i0.definitions, o0.definitions) {
            (Some(a), Some(b)) => pairs_done(a.map@, b.map@, base, ptr, "definitions"@, g5.known_set()),
            (None, None) => true,
            _ => false,
        },
        match (i0.defs, o0.defs) {
            (Some(a), Some(b)) => pairs_done(a.map@, b.map@, base, ptr, "$defs"@, g6.known_set()),
            (None, None) => true,
            _ => false,
        },
        match (i0.items, o0.items) {
            (Some(a), Some(b)) => child_done(*a.0, *b.0, base, ptr, seg_one("items"@), g7.known_set()),
            (None, None) => true,
            _ => false,
        },
        match (i0.not, o0.not) {
            (Some(a), Some(b)) => child_done(*a.0, *b.0, base, ptr, seg_one("not"@), g8.known_set()),
            (None, None) => true,
            _ => false,
        },
        match (i0.one_of, o0.one_of) {
            (Some(a), Some(b)) => schemas_done(a.0@, b.0@, base, ptr, "oneOf"@, g9.known_set()),
            (None, None) => true,
            _ => false,
        },
        match (i0.pat_props, o0.pat_props) {
            (Some(a), Some(b)) => pairs_done(a.map@, b.map@, base, ptr, "patternProperties"@, g10.known_set()),
            (None, None) => true,
            _ => false,
        },
        match (i0.prefix_items, o0.prefix_items) {
            (Some(a), Some(b)) => schemas_done(a.0@, b.0@, base, ptr, "prefixItems"@, g11.known_set()),
            (None, None) => true,
            _ => false,
        },
        match (i0.props, o0.props) {
            (Some(a), Some(b)) => pairs_done(a.map@, b.map@, base, ptr, "properties"@, g12.known_set()),
            (None, None) => true,
            _ => false,
        },
        match (i0.prop_names, o0.prop_names) {
            (Some(a), Some(b)) => child_done(*a.0, *b.0, base, ptr, seg_one("propertyNames"@), g13.known_set()),
            (None, None) => true,
            _ => false,
        },
        match (i0.unevaluated_items, o0.unevaluated_items) {
            (Some(a), Some(b)) => child_done(*a.0, *b.0, base, ptr, seg_one("unevaluatedItems"@), gf.known_set()),
            (None, None) => true,
            _ => false,
        },
        o0.anchor == i0.anchor,
        o0.comment == i0.comment,
        o0.constant == i0.constant,
        o0.default == i0.default,
        o0.deprecated == i0.deprecated,
        o0.description == i0.description,
        o0.dynamic_anchor == i0.dynamic_anchor,
        o0.dynamic_ref == i0.dynamic_ref,
        o0.enum_ == i0.enum_,
        o0.examples == i0.examples,
        o0.excl_max == i0.excl_max,
        o0.excl_min == i0.excl_min,
        o0.format == i0.format,
        o0.id == i0.id,
        o0.if_then_else == i0.if_then_else,
        o0.max_contains == i0.max_contains,
        o0.max_items == i0.max_items,
        o0.max_length == i0.max_length,
        o0.max_props == i0.max_props,
        o0.max == i0.max,
        o0.min_contains == i0.min_contains,
        o0.min_items == i0.min_items,
        o0.min_length == i0.min_length,
        o0.min_props == i0.min_props,
        o0.min == i0.min,
        o0.multiple == i0.multiple,
        o0.pat == i0.pat,
        o0.read_only == i0.read_only,
        o0.required == i0.required,
        o0.schema == i0.schema,
        o0.title == i0.title,
        o0.type_ == i0.type_,
        o0.unique_items == i0.unique_items,
        o0.write_only == i0.write_only,
    ensures
        keywords_compiled(i0, o0, base, ptr, gf.known_set()),
        g1.map().submap_of(gf.map()),
{
    lemma_submap_trans(g12.map(), g13.map(), gf.map());
    lemma_submap_trans(g11.map(), g12.map(), gf.map());
    lemma_submap_trans(g10.map(), g11.map(), gf.map());
    lemma_submap_trans(g9.map(), g10.map(), gf.map());
    lemma_submap_trans(g8.map(), g9.map(), gf.map());
    lemma_submap_trans(g7.map(), g8.map(), gf.map());
    lemma_submap_trans(g6.map(), g7.map(), gf.map());
    lemma_submap_trans(g5.map(), g6.map(), gf.map());
    lemma_submap_trans(g4.map(), g5.map(), gf.map());
    lemma_submap_trans(g3.map(), g4.map(), gf.map());
    lemma_submap_trans(g2.map(), g3.map(), gf.map());
    lemma_submap_trans(g1.map(), g2.map(), gf.map());
    lemma_known_grows(g1, gf);
    lemma_known_grows(g2, gf);
    lemma_known_grows(g3, gf);
    lemma_known_grows(g4, gf);
    lemma_known_grows(g5, gf);
    lemma_known_grows(g6, gf);
    lemma_known_grows(g7, gf);
    lemma_known_grows(g8, gf);
    lemma_known_grows(g9, gf);
    lemma_known_grows(g10, gf);
    lemma_known_grows(g11, gf);
    lemma_known_grows(g12, gf);
    lemma_known_grows(g13, gf);
    match (i0.additional_properties, o0.additional_properties) {
        (Some(a), Some(b)) => lemma_child_done_mono(*a.0, *b.0, base, ptr, seg_one("additionalProperties"@), g1.known_set(), gf.known_set()),
        _ => (),
    }
    match (i0.all_of, o0.all_of) {
        (Some(a), Some(b)) => lemma_schemas_done_mono(a.0@, b.0@, base, ptr, "allOf"@, g2.known_set(), gf.known_set()),
        _ => (),
    }
    match (i0.any_of, o0.any_of) {
        (Some(a), Some(b)) => lemma_schemas_done_mono(a.0@, b.0@, base, ptr, "anyOf"@, g3.known_set(), gf.known_set()),
        _ => (),
    }
    match (i0.contains, o0.contains) {
        (Some(a), Some(b)) => lemma_child_done_mono(*a.0, *b.0, base, ptr, seg_one("contains"@), g4.known_set(), gf.known_set()),
        _ => (),
    }
    match (i0.definitions, o0.definitions) {
        (Some(a), Some(b)) => lemma_pairs_done_mono(a.map@, b.map@, base, ptr, "definitions"@, g5.known_set(), gf.known_set()),
        _ => (),
    }
    match (i0.defs, o0.defs) {
        (Some(a), Some(b)) => lemma_pairs_done_mono(a.map@, b.map@, base, ptr, "$defs"@, g6.known_set(), gf.known_set()),
        _ => (),
    }
    match (i0.items, o0.items) {
        (Some(a), Some(b)) => lemma_child_done_mono(*a.0, *b.0, base, ptr, seg_one("items"@), g7.known_set(), gf.known_set()),
        _ => (),
    }
    match (i0.not, o0.not) {
        (Some(a), Some(b)) => lemma_child_done_mono(*a.0, *b.0, base, ptr, seg_one("not"@), g8.known_set(), gf.known_set()),
        _ => (),
    }
    match (i0.one_of, o0.one_of) {
        (Some(a), Some(b)) => lemma_schemas_done_mono(a.0@, b.0@, base, ptr, "oneOf"@, g9.known_set(), gf.known_set()),
        _ => (),
    }
    match (i0.pat_props, o0.pat_props) {
        (Some(a), Some(b)) => lemma_pairs_done_mono(a.map@, b.map@, base, ptr, "patternProperties"@, g10.known_set(), gf.known_set()),
        _ => (),
    }
    match (i0.prefix_items, o0.prefix_items) {
        (Some(a), Some(b)) => lemma_schemas_done_mono(a.0@, b.0@, base, ptr, "prefixItems"@, g11.known_set(), gf.known_set()),
        _ => (),
    }
    match (i0.props, o0.props) {
        (Some(a), Some(b)) => lemma_pairs_done_mono(a.map@, b.map@, base, ptr, "properties"@, g12.known_set(), gf.known_set()),
        _ => (),
    }
    match (i0.prop_names, o0.prop_names) {
        (Some(a), Some(b)) => lemma_child_done_mono(*a.0, *b.0, base, ptr, seg_one("propertyNames"@), g13.known_set(), gf.known_set()),
        _ => (),
    }
}

impl Keywords {
    /// Asks every keyword that carries nested schemas to compile them, each
    /// under its own conventional fragment segment, in declaration order.
    #[verifier::rlimit(100)]
    #[verifier::spinoff_prover]
    pub fn compile(self, c: &mut Compiler, context: &mut Context) -> (out: Keywords)
        requires
            old(c).wf(),
            old(context).wf(),
        ensures
            final(c).wf(),
            final(context).wf(),
            final(c).same_place(&*old(c)),
            old(c).spec_refs().is_prefix_of(final(c).spec_refs()),
            old(context).map().submap_of(final(context).map()),
            final(context).reserved_set() == old(context).reserved_set(),
            keywords_compiled(self, out, old(c).spec_base(), old(c).spec_pointer(), final(context).known_set()),
        decreases self, 3int,
    {
        let ghost i0: Keywords = self;
        let Keywords {
            additional_properties,
            all_of,
            anchor,
            any_of,
            comment,
            constant,
            contains,
            default,
            definitions,
            defs,
            deprecated,
            description,
            dynamic_anchor,
            dynamic_ref,
            enum_,
            examples,
            excl_max,
            excl_min,
            format,
            id,
            if_then_else,
            items,
            max_contains,
            max_items,
            max_length,
            max_props,
            max,
            min_contains,
            min_items,
            min_length,
            min_props,
            min,
            multiple,
            not,
            one_of,
            pat_props,
            pat,
            prefix_items,
            props,
            prop_names,
            read_only,
            required,
            schema,
            title,
            type_,
            unevaluated_items,
            unique_items,
            write_only,
        } = self;
        let additional_properties = compile_kw_additional_properties(c, context, additional_properties);
        let ghost g1: Context = *context;
        let all_of = compile_kw_all_of(c, context, all_of);
        let ghost g2: Context = *context;
        let any_of = compile_kw_any_of(c, context, any_of);
        let ghost g3: Context = *context;
        let contains = compile_kw_contains(c, context, contains);
        let ghost g4: Context = *context;
        let definitions = compile_kw_definitions(c, context, definitions);
        let ghost g5: Context = *context;
        let defs = compile_kw_defs(c, context, defs);
        let ghost g6: Context = *context;
        let items = compile_kw_items(c, context, items);
        let ghost g7: Context = *context;
        let not = compile_kw_not(c, context, not);
        let ghost g8: Context = *context;
        let one_of = compile_kw_one_of(c, context, one_of);
        let ghost g9: Context = *context;
        let pat_props = compile_kw_pat_props(c, context, pat_props);
        let ghost g10: Context = *context;
        let prefix_items = compile_kw_prefix_items(c, context, prefix_items);
        let ghost g11: Context = *context;
        let props = compile_kw_props(c, context, props);
        let ghost g12: Context = *context;
        let prop_names = compile_kw_prop_names(c, context, prop_names);
        let ghost g13: Context = *context;
        let unevaluated_items = compile_kw_unevaluated_items(c, context, unevaluated_items);
        let out = Keywords {
            additional_properties,
            all_of,
            anchor,
            any_of,
            comment,
            constant,
            contains,
            default,
            definitions,
            defs,
            deprecated,
            description,
            dynamic_anchor,
            dynamic_ref,
            enum_,
            examples,
            excl_max,
            excl_min,
            format,
            id,
            if_then_else,
            items,
            max_contains,
            max_items,
            max_length,
            max_props,
            max,
            min_contains,
            min_items,
            min_length,
            min_props,
            min,
            multiple,
            not,
            one_of,
            pat_props,
            pat,
            prefix_items,
            props,
            prop_names,
            read_only,
            required,
            schema,
            title,
            type_,
            unevaluated_items,
            unique_items,
            write_only,
        };
        proof {
            let o0: Keywords = out;
            let gf: Context = *context;
            lemma_keywords_assemble(
                i0,
                o0,
                old(c).spec_base(),
                old(c).spec_pointer(),
                g1,
                g2,
                g3,
                g4,
                g5,
                g6,
                g7,
                g8,
                g9,
                g10,
                g11,
                g12,
                g13,
                gf,
            );
            lemma_submap_trans(old(context).map(), g1.map(), gf.map());
        }
        out
    }
}


// ---------------------------------------------------------------------------
// Whole-document compilation and the fetch protocol
// ---------------------------------------------------------------------------
/// The fragment path a pass starting at `location` begins with.
pub open spec fn start_pointer(location: SchemaUrl) -> Seq<char> {
    match location.fragment {
        Some(f) => f@,
        None => Seq::empty(),
    }
}

/// What `begin_fetch` answers for a pending reference.
#[derive(Debug, PartialEq, Eq)]
pub enum FetchDecision {
    /// The location's content is already in the store.
    AlreadyResolved,
    /// Another resolution of the same location is already under way.
    InFlight,
    /// The caller must fetch the document; the location is now reserved.
    Fetch,
}

/// Whether a fresh request for `k` would have to fetch: only when the
/// location is neither resolved nor reserved.
pub open spec fn decides_fetch(c: Context, k: UrlKey) -> bool {
    !c.known(k)
}

impl Context {
    /// Compiles a schema tree rooted at `location`: the tree is rewritten
    /// into resolved handles, every discovered node is stored under its
    /// canonical URL, and the references that must still be fetched are
    /// handed back. Entries already present are never recomputed or
    /// overwritten, and reservations are exactly as before.
    pub fn compile_schema(&mut self, schema: JsonSchema, location: SchemaUrl) -> (r: (
        JsonSchema,
        Vec<Reference>,
    ))
        requires
            old(self).wf(),
        ensures
            final(self).wf(),
            old(self).map().submap_of(final(self).map()),
            final(self).reserved_set() == old(self).reserved_set(),
            compile_outcome(
                location.key(),
                location.spec_render(),
                location.base@,
                start_pointer(location),
                old(self).map(),
                old(self).known_set(),
                final(self).map(),
                final(self).known_set(),
                Seq::<Reference>::empty(),
                r.1@,
                schema,
                r.0,
            ),
    {
        let mut compiler = Compiler::new(&location);
        let out = compiler.compile(self, schema);
        let refs = compiler.take_refs();
        (out, refs)
    }

    /// True when the location is reserved: claimed, its content pending.
    #[verifier::loop_isolation(false)]
    fn is_reserved(&self, url: &SchemaUrl) -> (r: bool)
        requires
            self.wf(),
        ensures
            r == self.reserved_set().contains(url.key()),
    {
        let mut i: usize = 0;
        while i < self.reserved.len()
            invariant
                i <= self.reserved@.len(),
                forall|j: int| 0 <= j < i ==> (#[trigger] self.reserved@[j].key()) != url.key(),
            decreases self.reserved@.len() - i,
        {
            if self.reserved[i].eq_loc(url) {
                proof {
                    lemma_urls_set_contains(self.reserved@, url.key());
                }
                return true;
            }
            i += 1;
        }
        proof {
            lemma_urls_set_contains(self.reserved@, url.key());
        }
        false
    }

    /// Begins resolving one pending reference. The check and the claim are
    /// one atomic step on the store: the caller is told to fetch exactly
    /// when the location is neither resolved nor reserved, and in that case
    /// the location is reserved before the answer is returned, so no second
    /// request for it is told to fetch.
    pub fn begin_fetch(&mut self, url: &SchemaUrl) -> (d: FetchDecision)
        requires
            old(self).wf(),
        ensures
            final(self).wf(),
            (d is Fetch) == decides_fetch(*old(self), url.key()),
            d is AlreadyResolved ==> old(self).map().contains_key(url.key()),
            d is InFlight ==> old(self).reserved_set().contains(url.key()),
            final(self).map() == old(self).map(),
            d is Fetch ==> final(self).reserved_set() == old(self).reserved_set().insert(
                url.key(),
            ),
            !(d is Fetch) ==> final(self).reserved_set() == old(self).reserved_set(),
            final(self).known(url.key()),
    {
        match self.schema(url) {
            Some(_) => FetchDecision::AlreadyResolved,
            None => {
                if self.is_reserved(url) {
                    FetchDecision::InFlight
                } else {
                    self.reserve(url.clone());
                    FetchDecision::Fetch
                }
            },
        }
    }

    /// Completes a fetch begun with `begin_fetch`: the document parsed from
    /// the fetched bytes is compiled at its location, and the reservation
    /// is replaced by whatever the compilation stored.
    pub fn complete_fetch(&mut self, url: &SchemaUrl, schema: JsonSchema) -> (r: (
        JsonSchema,
        Vec<Reference>,
    ))
        requires
            old(self).wf(),
            old(self).reserved_set().contains(url.key()),
        ensures
            final(self).wf(),
            old(self).map().submap_of(final(self).map()),
            final(self).reserved_set() == old(self).reserved_set().remove(url.key()),
            compile_outcome(
                url.key(),
                url.spec_render(),
                url.base@,
                start_pointer(*url),
                old(self).map(),
                old(self).known_set().remove(url.key()),
                final(self).map(),
                final(self).known_set(),
                Seq::<Reference>::empty(),
                r.1@,
                schema,
                r.0,
            ),
    {
        proof {
            lemma_wf_disjoint(*self, url.key());
        }
        self.release(url);
        proof {
            assert(self.known_set() =~= old(self).known_set().remove(url.key()));
        }
        self.compile_schema(schema, url.clone())
    }

    /// A fetch that failed: the reservation is dropped, the store is
    /// untouched, and entries committed for sibling references stand.
    pub fn fetch_failed(&mut self, url: &SchemaUrl)
        requires
            old(self).wf(),
        ensures
            final(self).wf(),
            final(self).map() == old(self).map(),
            final(self).reserved_set() == old(self).reserved_set().remove(url.key()),
    {
        self.release(url);
    }
}

/// Law (memoized resolution, fetch half): once a location is known — its
/// content stored, or a fetch for it begun — no later request decides to
/// fetch it again, as long as the session keeps it known. With
/// `begin_fetch`'s promise that a `Fetch` answer leaves the location
/// known, the document behind each location is fetched at most once; the
/// walk itself terminates because every compilation function decreases on
/// the schema tree.
pub proof fn lemma_fetch_at_most_once(c1: Context, c2: Context, k: UrlKey)
    requires
        c1.known(k),
        forall|j: UrlKey| #[trigger] c1.known(j) ==> c2.known(j),
    ensures
        !decides_fetch(c2, k),
{
}

/// Law (concurrent fetch coalescing): two requests for the same
/// not-yet-cached location, the second made in any state reached after the
/// first was told to fetch, result in exactly one fetch: the second is not
/// told to fetch.
pub proof fn lemma_fetch_coalescing(before: Context, after: Context, later: Context, k: UrlKey)
    requires
        decides_fetch(before, k),
        after.known(k),
        forall|j: UrlKey| #[trigger] after.known(j) ==> later.known(j),
    ensures
        !decides_fetch(later, k),
{
}

/// Law (fragment identity, one direction): inline anonymous nodes under
/// the same keyword but different entry names never collide in the store:
/// their canonical keys differ.
pub proof fn lemma_distinct_names_distinct_keys(
    base: Seq<char>,
    ptr: Seq<char>,
    name: Seq<char>,
    k1: Seq<char>,
    k2: Seq<char>,
)
    requires
        k1 != k2,
    ensures
        child_key(base, ptr, seg_key(name, k1)) != child_key(base, ptr, seg_key(name, k2)),
{
    let pre = ptr + (seq!['/'] + name + seq!['/']);
    let f1 = ptr + seg_key(name, k1);
    let f2 = ptr + seg_key(name, k2);
    assert(f1 =~= pre + k1);
    assert(f2 =~= pre + k2);
    if f1 == f2 {
        assert((pre + k1).skip(pre.len() as int) =~= k1);
        assert((pre + k2).skip(pre.len() as int) =~= k2);
        assert(false);
    }
}

/// Law (fragment identity, positional direction): inline anonymous nodes
/// at different positions of the same list keyword never collide in the
/// store: their canonical keys differ.
pub proof fn lemma_distinct_positions_distinct_keys(
    base: Seq<char>,
    ptr: Seq<char>,
    name: Seq<char>,
    i: int,
    j: int,
)
    requires
        0 <= i,
        0 <= j,
        i != j,
    ensures
        child_key(base, ptr, seg_idx(name, i)) != child_key(base, ptr, seg_idx(name, j)),
{
    crate::text::lemma_dec_rep_injective(i as nat, j as nat);
    let pre = ptr + (seq!['/'] + name + seq!['/']);
    let f1 = ptr + seg_idx(name, i);
    let f2 = ptr + seg_idx(name, j);
    assert(f1 =~= pre + crate::text::dec_rep(i as nat));
    assert(f2 =~= pre + crate::text::dec_rep(j as nat));
    if f1 == f2 {
        assert((pre + crate::text::dec_rep(i as nat)).skip(pre.len() as int) =~= crate::text::dec_rep(
            i as nat,
        ));
        assert((pre + crate::text::dec_rep(j as nat)).skip(pre.len() as int) =~= crate::text::dec_rep(
            j as nat,
        ));
        assert(false);
    }
}

/// Law (fragment identity, other direction): two references to the same
/// canonical location always resolve to the same store entry.
pub proof fn lemma_same_key_same_entry(c: Context, u1: SchemaUrl, u2: SchemaUrl)
    requires
        u1.key() == u2.key(),
        c.map().contains_key(u1.key()),
    ensures
        c.map()[u1.key()] == c.map()[u2.key()],
{
}


/// The locations of a list of entries, in order.
pub open spec fn entry_locations(s: Seq<(SchemaUrl, ResolvedJsonSchema)>) -> Seq<SchemaUrl>
    decreases s.len(),
{
    if s.len() == 0 {
        Seq::empty()
    } else {
        entry_locations(s.drop_last()).push(s.last().0)
    }
}

proof fn lemma_entry_locations(s: Seq<(SchemaUrl, ResolvedJsonSchema)>)
    ensures
        entry_locations(s).len() == s.len(),
        forall|i: int| 0 <= i < s.len() ==> entry_locations(s)[i] == (#[trigger] s[i]).0,
    decreases s.len(),
{
    if s.len() > 0 {
        lemma_entry_locations(s.drop_last());
        assert forall|i: int| 0 <= i < s.len() implies entry_locations(s)[i] == (#[trigger] s[i]).0 by {
            if i < s.len() - 1 {
                assert(s.drop_last()[i] == s[i]);
            }
        }
    }
}

impl Context {
    /// The canonical location of every stored entry, in insertion order.
    pub closed spec fn locations_seq(&self) -> Seq<SchemaUrl> {
        entry_locations(self.entries@)
    }

    /// Every listed location has its entry in the store.
    pub proof fn lemma_locations_in_map(&self)
        requires
            self.wf(),
        ensures
            forall|i: int|
                0 <= i < self.locations_seq().len() ==> self.map().contains_key(
                    (#[trigger] self.locations_seq()[i]).key(),
                ),
    {
        lemma_entry_locations(self.entries@);
        assert forall|i: int| 0 <= i < self.locations_seq().len() implies self.map().contains_key(
            (#[trigger] self.locations_seq()[i]).key(),
        ) by {
            lemma_entries_map_index(self.entries@, i);
        }
    }

    /// The stored locations, in insertion order.
    pub fn locations(&self) -> (r: Vec<SchemaUrl>)
        requires
            self.wf(),
        ensures
            r@ == self.locations_seq(),
    {
        proof {
            lemma_entry_locations(self.entries@);
        }
        let mut r: Vec<SchemaUrl> = Vec::new();
        let mut i: usize = 0;
        while i < self.entries.len()
            invariant
                i <= self.entries@.len(),
                r@ == self.locations_seq().take(i as int),
                self.locations_seq().len() == self.entries@.len(),
                forall|j: int|
                    0 <= j < self.entries@.len() ==> self.locations_seq()[j] == (
                    #[trigger] self.entries@[j]).0,
            decreases self.entries@.len() - i,
        {
            r.push(self.entries[i].0.clone());
            proof {
                assert(r@ =~= self.locations_seq().take(i + 1 as int));
            }
            i += 1;
        }
        proof {
            assert(r@ =~= self.locations_seq());
        }
        r
    }
}


// ---------------------------------------------------------------------------
// Classifying what a pending reference needs
// ---------------------------------------------------------------------------
/// The URL schemes a fetch can be dispatched on.
#[derive(Debug, PartialEq, Eq, Clone, Copy)]
pub enum UrlScheme {
    Http,
    Https,
    File,
    Other,
}

/// Whether the written URL starts with the scheme `name` followed by `:`.
pub open spec fn is_scheme(base: Seq<char>, name: Seq<char>) -> bool {
    base.len() > name.len() && base.take(name.len() as int) == name && base[name.len() as int]
        == ':'
}

/// The scheme class of a written URL.
pub open spec fn spec_scheme(base: Seq<char>) -> UrlScheme {
    if is_scheme(base, "http"@) {
        UrlScheme::Http
    } else if is_scheme(base, "https"@) {
        UrlScheme::Https
    } else if is_scheme(base, "file"@) {
        UrlScheme::File
    } else {
        UrlScheme::Other
    }
}

fn has_scheme(v: &Vec<char>, name: &str) -> (r: bool)
    ensures
        r == is_scheme(v@, name@),
{
    let n = crate::text::str_chars(name);
    if v.len() <= n.len() {
        return false;
    }
    let mut i: usize = 0;
    while i < n.len()
        invariant
            n@ == name@,
            v@.len() > n@.len(),
            i <= n@.len(),
            forall|j: int| 0 <= j < i ==> v@[j] == n@[j],
        decreases n@.len() - i,
    {
        if v[i] != n[i] {
            proof {
                assert(v@.take(n@.len() as int)[i as int] != n@[i as int]);
            }
            return false;
        }
        i += 1;
    }
    proof {
        assert(v@.take(n@.len() as int) =~= n@);
    }
    v[n.len()] == ':'
}

/// The scheme a location's document must be fetched by. An unsupported
/// scheme is reported, never silently skipped.
pub fn scheme_of(url: &SchemaUrl) -> (s: UrlScheme)
    ensures
        s == spec_scheme(url.base@),
{
    let v = crate::text::str_chars(url.base.as_str());
    if has_scheme(&v, "http") {
        UrlScheme::Http
    } else if has_scheme(&v, "https") {
        UrlScheme::Https
    } else if has_scheme(&v, "file") {
        UrlScheme::File
    } else {
        UrlScheme::Other
    }
}

/// The surface syntaxes a fetched document can be parsed from.
#[derive(Debug, PartialEq, Eq, Clone, Copy)]
pub enum DocumentKind {
    Yaml,
    Json,
}

/// The document kind a path maps to, by its file extension: `yml` and
/// `yaml` name the YAML-like syntax, `json` the JSON-like one, and any
/// other extension — or none — is unsupported.
pub open spec fn spec_document_kind(path: Seq<char>) -> Result<DocumentKind, CompileError> {
    let name = crate::text::after_last(path, '/');
    if exists|i: int| 1 <= i < name.len() && name[i] == '.' {
        let ext = crate::text::after_last(name, '.');
        if ext == "yml"@ || ext == "yaml"@ {
            Ok(DocumentKind::Yaml)
        } else if ext == "json"@ {
            Ok(DocumentKind::Json)
        } else {
            Err(CompileError::UnsupportedExtension)
        }
    } else {
        Err(CompileError::UnsupportedExtension)
    }
}

/// Classifies a document path by its file extension.
pub fn document_kind(path: &str) -> (r: Result<DocumentKind, CompileError>)
    ensures
        r == spec_document_kind(path@),
{
    let chars = crate::text::str_chars(path);
    let name = match crate::text::last_index_of(&chars, '/') {
        Some(i) => {
            let n = chars.len();
            proof {
                crate::text::lemma_after_last_at(chars@, '/', i as int);
            }
            crate::text::tail_from(&chars, i + 1)
        },
        None => {
            proof {
                crate::text::lemma_after_last_absent(chars@, '/');
            }
            chars
        },
    };
    match crate::text::last_index_of(&name, '.') {
        Some(i) if i > 0 => {
            let n = name.len();
            proof {
                crate::text::lemma_after_last_at(name@, '.', i as int);
            }
            let ext = crate::text::tail_from(&name, i + 1);
            if crate::text::chars_eq_str(&ext, "yml") || crate::text::chars_eq_str(&ext, "yaml") {
                Ok(DocumentKind::Yaml)
            } else if crate::text::chars_eq_str(&ext, "json") {
                Ok(DocumentKind::Json)
            } else {
                Err(CompileError::UnsupportedExtension)
            }
        },
        _ => Err(CompileError::UnsupportedExtension),
    }
}

} // verus!
