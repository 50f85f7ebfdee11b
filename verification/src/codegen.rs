//! The type synthesizer: walks the document store and emits one target-type
//! declaration per eligible location, naming each through a memoized
//! identifier table so that recursive references render as a use of the
//! already-assigned name.
use crate::context::Context;
use crate::keywords::{FormatKeyword, Keywords, PrefixItemsKeyword, TitleKeyword, TypeKeyword};
use crate::location::{SchemaUrl, UrlKey};
use crate::schema::{JsonSchema, ResolvedJsonSchema};
use crate::value::JsonValue;
use crate::text::{
    after_last, all_ascii_digits, chars_string, is_number, last_index_of, pascal_of, pascal_string,
    str_chars, tail_from, take_to,
};
use vstd::prelude::*;

verus! {

/// The per-declaration ways synthesis can fail.
#[derive(Debug, PartialEq, Eq, Clone, Copy)]
pub enum SynthError {
    /// A format hint that is not recognized for its base type.
    UnsupportedFormatHint,
    /// A keyword combination, or a node, that no synthesis rule covers.
    UnsupportedSchemaShape,
}

/// Why an identifier could not be resolved from what is already known.
#[derive(Debug, PartialEq, Eq)]
pub enum ResolveIdentError {
    Unresolvable,
    NotEnoughInfo,
    SimilarNameExists,
}

// ---------------------------------------------------------------------------
// Naming
// ---------------------------------------------------------------------------
/// The file-stem of the final path-like component of a written URL: what
/// follows the last `/`, with everything from the last `.` on dropped —
/// unless that dot leads the name.
pub open spec fn stem_of(name: Seq<char>) -> Seq<char> {
    if exists|i: int| 1 <= i < name.len() && name[i] == '.' {
        name.take(name.len() - after_last(name, '.').len() - 1)
    } else {
        name
    }
}

/// The identifier derived from the document URL's own file stem.
pub open spec fn url_path_ident(base: Seq<char>) -> Seq<char> {
    pascal_of(stem_of(after_last(base, '/')))
}

/// The identifier derived from a canonical location alone: the fragment's
/// last segment, unless that segment is purely numeric (it came from a
/// positional construct), in which case the document's file stem decides.
pub open spec fn url_ident(k: UrlKey) -> Seq<char> {
    match k.1 {
        Some(f) => {
            let last = after_last(f, '/');
            if all_ascii_digits(last) {
                url_path_ident(k.0)
            } else {
                pascal_of(last)
            }
        },
        None => url_path_ident(k.0),
    }
}

/// The identifier a node gets: its declared title, converted, wins;
/// otherwise the location decides.
pub open spec fn ident_for(title: Option<TitleKeyword>, k: UrlKey) -> Seq<char> {
    match title {
        Some(t) => pascal_of(t.0@),
        None => url_ident(k),
    }
}

/// One naming step: a location already named keeps its name and the table
/// stands; a new location is named by `ident_for` and remembered.
pub open spec fn resolve_ident_step(
    idents: Map<UrlKey, Seq<char>>,
    title: Option<TitleKeyword>,
    k: UrlKey,
) -> (Seq<char>, Map<UrlKey, Seq<char>>) {
    if idents.contains_key(k) {
        (idents[k], idents)
    } else {
        let n = ident_for(title, k);
        (n, idents.insert(k, n))
    }
}

/// The identifier table of one synthesis run.
pub open spec fn idents_map(s: Seq<(SchemaUrl, String)>) -> Map<UrlKey, Seq<char>>
    decreases s.len(),
{
    if s.len() == 0 {
        Map::empty()
    } else {
        idents_map(s.drop_last()).insert(s.last().0.key(), s.last().1@)
    }
}

proof fn lemma_idents_map_contains(s: Seq<(SchemaUrl, String)>, k: UrlKey)
    ensures
        idents_map(s).contains_key(k) <==> exists|i: int|
            0 <= i < s.len() && #[trigger] s[i].0.key() == k,
    decreases s.len(),
{
    if s.len() > 0 {
        lemma_idents_map_contains(s.drop_last(), k);
        if idents_map(s).contains_key(k) {
            if s.last().0.key() != k {
                let i = choose|i: int|
                    0 <= i < s.len() - 1 && #[trigger] s.drop_last()[i].0.key() == k;
                assert(s[i].0.key() == k);
            } else {
                assert(s[s.len() - 1].0.key() == k);
            }
        }
        if exists|i: int| 0 <= i < s.len() && #[trigger] s[i].0.key() == k {
            let i = choose|i: int| 0 <= i < s.len() && #[trigger] s[i].0.key() == k;
            if i < s.len() - 1 {
                assert(s.drop_last()[i].0.key() == k);
            }
        }
    }
}

proof fn lemma_idents_map_index(s: Seq<(SchemaUrl, String)>, i: int)
    requires
        0 <= i < s.len(),
        forall|a: int, b: int|
            0 <= a < b < s.len() ==> (#[trigger] s[a].0.key()) != (#[trigger] s[b].0.key()),
    ensures
        idents_map(s).contains_key(s[i].0.key()),
        idents_map(s)[s[i].0.key()] == s[i].1@,
    decreases s.len(),
{
    lemma_idents_map_contains(s, s[i].0.key());
    if i < s.len() - 1 {
        assert(s.drop_last()[i] == s[i]);
        lemma_idents_map_index(s.drop_last(), i);
        assert(s.last().0.key() != s[i].0.key());
    }
}

/// One synthesis run's working state: the identifier table, built lazily.
/// Once a location has an identifier, every later request returns the same
/// one; that is what terminates recursive type expansion.
pub struct CodegenState {
    idents: Vec<(SchemaUrl, String)>,
}

impl CodegenState {
    /// The table as a map from canonical location to chosen name.
    pub closed spec fn ident_map(&self) -> Map<UrlKey, Seq<char>> {
        idents_map(self.idents@)
    }

    pub closed spec fn wf(&self) -> bool {
        forall|a: int, b: int|
            0 <= a < b < self.idents@.len() ==> (#[trigger] self.idents@[a].0.key()) != (
            #[trigger] self.idents@[b].0.key())
    }

    /// A fresh run: no location is named yet.
    pub fn new() -> (r: CodegenState)
        ensures
            r.wf(),
            r.ident_map() == Map::<UrlKey, Seq<char>>::empty(),
    {
        CodegenState { idents: Vec::new() }
    }

    /// The name already chosen for a location, if any.
    #[verifier::loop_isolation(false)]
    pub fn lookup(&self, url: &SchemaUrl) -> (r: Option<&String>)
        requires
            self.wf(),
        ensures
            match r {
                Some(n) => self.ident_map().contains_key(url.key())
                    && n@ == self.ident_map()[url.key()],
                None => !self.ident_map().contains_key(url.key()),
            },
    {
        let mut i: usize = 0;
        while i < self.idents.len()
            invariant
                i <= self.idents@.len(),
                forall|j: int| 0 <= j < i ==> (#[trigger] self.idents@[j].0.key()) != url.key(),
            decreases self.idents@.len() - i,
        {
            if self.idents[i].0.eq_loc(url) {
                proof {
                    lemma_idents_map_index(self.idents@, i as int);
                }
                return Some(&self.idents[i].1);
            }
            i += 1;
        }
        proof {
            lemma_idents_map_contains(self.idents@, url.key());
        }
        None
    }

    fn remember(&mut self, url: SchemaUrl, name: String)
        requires
            old(self).wf(),
            !old(self).ident_map().contains_key(url.key()),
        ensures
            final(self).wf(),
            final(self).ident_map() == old(self).ident_map().insert(url.key(), name@),
    {
        proof {
            lemma_idents_map_contains(self.idents@, url.key());
        }
        let ghost pre = self.idents@;
        self.idents.push((url, name));
        proof {
            assert(self.idents@.drop_last() =~= pre);
        }
    }
}

/// The identifier derived from the document URL's file stem.
fn resolve_url_file_path_ident(url: &SchemaUrl) -> (r: String)
    ensures
        r@ == url_path_ident(url.base@),
{
    let chars = str_chars(url.base.as_str());
    let name = match last_index_of(&chars, '/') {
        Some(i) => {
            let n = chars.len();
            proof {
                crate::text::lemma_after_last_at(chars@, '/', i as int);
            }
            tail_from(&chars, i + 1)
        },
        None => {
            proof {
                crate::text::lemma_after_last_absent(chars@, '/');
            }
            chars
        },
    };
    let stem = match last_index_of(&name, '.') {
        Some(i) if i > 0 => {
            proof {
                crate::text::lemma_after_last_at(name@, '.', i as int);
                assert(stem_of(name@) == name@.take(i as int));
            }
            take_to(&name, i)
        },
        Some(_) => {
            proof {
                assert(stem_of(name@) == name@);
            }
            name
        },
        None => {
            proof {
                assert(stem_of(name@) == name@);
            }
            name
        },
    };
    let p = crate::text::pascal_chars(&stem);
    chars_string(&p)
}

/// The identifier derived from a canonical location alone.
pub fn resolve_url_ident(url: &SchemaUrl) -> (r: String)
    ensures
        r@ == url_ident(url.key()),
{
    match &url.fragment {
        Some(f) => {
            let chars = str_chars(f.as_str());
            let last = match last_index_of(&chars, '/') {
                Some(i) => {
                    let n = chars.len();
                    proof {
                        crate::text::lemma_after_last_at(chars@, '/', i as int);
                    }
                    tail_from(&chars, i + 1)
                },
                None => {
                    proof {
                        crate::text::lemma_after_last_absent(chars@, '/');
                    }
                    chars
                },
            };
            let last_str = chars_string(&last);
            if is_number(last_str.as_str()) {
                resolve_url_file_path_ident(url)
            } else {
                let p = crate::text::pascal_chars(&last);
                chars_string(&p)
            }
        },
        None => resolve_url_file_path_ident(url),
    }
}

/// Assigns, or looks up, the identifier of the node at `url`: an explicit
/// title wins, the location decides otherwise, and whatever was chosen
/// first is returned on every later request within the same run.
pub fn resolve_rust_ident(state: &mut CodegenState, keywords: &Keywords, url: &SchemaUrl) -> (r:
    String)
    requires
        old(state).wf(),
    ensures
        final(state).wf(),
        ({
            let (n, m) = resolve_ident_step(old(state).ident_map(), keywords.title, url.key());
            r@ == n && final(state).ident_map() == m
        }),
{
    match state.lookup(url) {
        Some(name) => name.clone(),
        None => {
            let ident = match &keywords.title {
                Some(t) => pascal_string(t.0.as_str()),
                None => resolve_url_ident(url),
            };
            state.remember(url.clone(), ident.clone());
            ident
        },
    }
}

/// Resolves an identifier from what is already known, assigning nothing:
/// the name is handed back only when the location is both stored and
/// already named.
pub fn try_resolve_ident<'a>(context: &Context, state: &'a CodegenState, url: &SchemaUrl) -> (r:
    Result<&'a String, ResolveIdentError>)
    requires
        state.wf(),
        context.wf(),
    ensures
        match r {
            Ok(n) => context.map().contains_key(url.key()) && state.ident_map().contains_key(
                url.key(),
            ) && n@ == state.ident_map()[url.key()],
            Err(e) => e is Unresolvable && (!context.map().contains_key(url.key())
                || !state.ident_map().contains_key(url.key())),
        },
{
    match context.schema(url) {
        Some(_) => match state.lookup(url) {
            Some(name) => Ok(name),
            None => Err(ResolveIdentError::Unresolvable),
        },
        None => Err(ResolveIdentError::Unresolvable),
    }
}

/// The canonical URL a resolved handle stands for.
pub fn get_url(schema: &JsonSchema) -> (r: &SchemaUrl)
    requires
        schema is Resolved,
    ensures
        *schema == JsonSchema::Resolved(*r),
{
    match schema {
        JsonSchema::Resolved(url) => url,
        _ => vstd::pervasive::unreached(),
    }
}


// ---------------------------------------------------------------------------
// Type expressions
// ---------------------------------------------------------------------------
/// What one synthesis step produced: the text it appended, the identifier
/// table as it left it, and the fault that stopped it, if one did.
pub struct SynthOut {
    pub text: Seq<char>,
    pub idents: Map<UrlKey, Seq<char>>,
    pub fault: Option<SynthError>,
}

pub open spec fn fmt_view(f: Option<FormatKeyword>) -> Option<Seq<char>> {
    match f {
        Some(k) => Some(k.0@),
        None => None,
    }
}

/// The scalar mapped to for a `string` base type with a format hint.
pub open spec fn string_format_text(f: Seq<char>) -> Option<Seq<char>> {
    if f == "uuid"@ {
        Some("uuid::Uuid"@)
    } else if f == "uri"@ || f == "url"@ {
        Some("url::Url"@)
    } else if f == "date-time"@ || f == "time"@ || f == "date"@ || f == "duration"@ || f
        == "email"@ || f == "idn-email"@ || f == "host-name"@ || f == "idn-host-name"@ || f
        == "ipv4"@ || f == "ipv6"@ || f == "uri-reference"@ || f == "iri"@ || f == "iri-reference"@
        || f == "uri-template"@ || f == "json-pointer"@ || f == "relative-json-pointer"@ || f
        == "regex"@ {
        Some("String"@)
    } else {
        None
    }
}

/// The scalar mapped to for a `number` base type with a format hint.
pub open spec fn number_format_text(f: Seq<char>) -> Option<Seq<char>> {
    if f == "f32"@ {
        Some("f32"@)
    } else if f == "f64"@ {
        Some("f64"@)
    } else {
        None
    }
}

/// The scalar mapped to for an `integer` base type with a format hint.
pub open spec fn integer_format_text(f: Seq<char>) -> Option<Seq<char>> {
    if f == "i8"@ {
        Some("i8"@)
    } else if f == "u8"@ {
        Some("u8"@)
    } else if f == "i16"@ {
        Some("i16"@)
    } else if f == "u16"@ {
        Some("u16"@)
    } else if f == "i32"@ {
        Some("i32"@)
    } else if f == "u32"@ {
        Some("u32"@)
    } else {
        None
    }
}

/// The scalar decision table: a base type with its optional format hint
/// maps to a target scalar, the documented default width standing in when
/// no hint is given; an unrecognized hint is a generation failure, never a
/// silent fallback.
pub open spec fn scalar_text(t: Seq<char>, fmt: Option<Seq<char>>) -> Option<Seq<char>> {
    if t == "string"@ {
        match fmt {
            Some(f) => string_format_text(f),
            None => Some("String"@),
        }
    } else if t == "number"@ {
        match fmt {
            Some(f) => number_format_text(f),
            None => Some("f32"@),
        }
    } else {
        match fmt {
            Some(f) => integer_format_text(f),
            None => Some("i32"@),
        }
    }
}

pub open spec fn ident_out(
    idents: Map<UrlKey, Seq<char>>,
    title: Option<TitleKeyword>,
    k: UrlKey,
) -> SynthOut {
    SynthOut {
        text: resolve_ident_step(idents, title, k).0,
        idents: resolve_ident_step(idents, title, k).1,
        fault: None,
    }
}

/// The type expression written for the node at `k`: a location already
/// named is written as its name and nothing more; a boolean schema maps to
/// the any-value type or the unit type; a scalar-typed object maps through
/// the scalar table; an array-typed object maps to a sequence or a tuple of
/// its item types; anything else is written as its (memoized) identifier.
/// `fuel` bounds how deep chains of element types may reach.
pub open spec fn type_step(
    store: Map<UrlKey, ResolvedJsonSchema>,
    idents: Map<UrlKey, Seq<char>>,
    k: UrlKey,
    fuel: nat,
) -> SynthOut
    decreases fuel, 1int, 0int,
{
    if idents.contains_key(k) {
        SynthOut { text: idents[k], idents, fault: None }
    } else if !store.contains_key(k) {
        SynthOut { text: "()"@, idents, fault: None }
    } else {
        match store[k] {
            ResolvedJsonSchema::Bool(b) => SynthOut {
                text: if b {
                    "serde_json::Value"@
                } else {
                    "()"@
                },
                idents,
                fault: None,
            },
            ResolvedJsonSchema::Object(kws) => match kws.type_ {
                Some(TypeKeyword::Single(t)) => {
                    if t@ == "object"@ {
                        ident_out(idents, kws.title, k)
                    } else if t@ == "array"@ {
                        array_step(store, idents, kws, fuel)
                    } else if t@ == "string"@ || t@ == "number"@ || t@ == "integer"@ {
                        match scalar_text(t@, fmt_view(kws.format)) {
                            Some(txt) => SynthOut { text: txt, idents, fault: None },
                            None => SynthOut {
                                text: Seq::empty(),
                                idents,
                                fault: Some(SynthError::UnsupportedFormatHint),
                            },
                        }
                    } else {
                        SynthOut {
                            text: Seq::empty(),
                            idents,
                            fault: Some(SynthError::UnsupportedSchemaShape),
                        }
                    }
                },
                _ => ident_out(idents, kws.title, k),
            },
        }
    }
}

/// The container mapping: `items` alone gives a homogeneous sequence,
/// `prefixItems` alone a fixed-arity tuple, and both or neither degrade to
/// a placeholder sequence type.
pub open spec fn array_step(
    store: Map<UrlKey, ResolvedJsonSchema>,
    idents: Map<UrlKey, Seq<char>>,
    kws: Keywords,
    fuel: nat,
) -> SynthOut
    decreases fuel, 0int, 0int,
{
    match (kws.items, kws.prefix_items) {
        (Some(items), None) => match *items.0 {
            JsonSchema::Resolved(u) => {
                if fuel == 0 {
                    SynthOut {
                        text: "Vec<"@,
                        idents,
                        fault: Some(SynthError::UnsupportedSchemaShape),
                    }
                } else {
                    let inner = type_step(store, idents, u.key(), (fuel - 1) as nat);
                    SynthOut {
                        text: "Vec<"@ + inner.text + if inner.fault is None {
                            ">"@
                        } else {
                            Seq::empty()
                        },
                        idents: inner.idents,
                        fault: inner.fault,
                    }
                }
            },
            _ => SynthOut { text: "Vec<"@, idents, fault: Some(SynthError::UnsupportedSchemaShape) },
        },
        (None, Some(prefix)) => {
            if fuel == 0 {
                SynthOut { text: "("@, idents, fault: Some(SynthError::UnsupportedSchemaShape) }
            } else {
                let inner = tuple_step(store, idents, prefix.0@, 0, (fuel - 1) as nat);
                SynthOut {
                    text: "("@ + inner.text + if inner.fault is None {
                        ")"@
                    } else {
                        Seq::empty()
                    },
                    idents: inner.idents,
                    fault: inner.fault,
                }
            }
        },
        _ => SynthOut { text: "Vec<()>"@, idents, fault: None },
    }
}

/// One tuple slot per listed schema, in order, separated by commas.
pub open spec fn tuple_step(
    store: Map<UrlKey, ResolvedJsonSchema>,
    idents: Map<UrlKey, Seq<char>>,
    items: Seq<JsonSchema>,
    i: int,
    fuel: nat,
) -> SynthOut
    decreases fuel, 2int, items.len() - i,
{
    if i < 0 || i >= items.len() {
        SynthOut { text: Seq::empty(), idents, fault: None }
    } else {
        match items[i] {
            JsonSchema::Resolved(u) => {
                let inner = type_step(store, idents, u.key(), fuel);
                if inner.fault is Some {
                    inner
                } else {
                    let sep: Seq<char> = if i + 1 < items.len() {
                        ", "@
                    } else {
                        Seq::empty()
                    };
                    let rest = tuple_step(store, inner.idents, items, i + 1, fuel);
                    SynthOut { text: inner.text + sep + rest.text, idents: rest.idents, fault: rest.fault }
                }
            },
            _ => SynthOut {
                text: Seq::empty(),
                idents,
                fault: Some(SynthError::UnsupportedSchemaShape),
            },
        }
    }
}

/// Law (self-reference termination): a location that already carries a
/// name is rendered as exactly that name — it is never re-expanded, no
/// rule is consulted, and the table stands. Together with the memoization
/// of `resolve_rust_ident` this is what lets a schema that refers back to
/// its own URL synthesize in finite time.
pub proof fn lemma_named_location_reuses_name(
    store: Map<UrlKey, ResolvedJsonSchema>,
    idents: Map<UrlKey, Seq<char>>,
    k: UrlKey,
    fuel: nat,
)
    requires
        idents.contains_key(k),
    ensures
        type_step(store, idents, k, fuel) == (SynthOut { text: idents[k], idents, fault: None }),
{
}


/// Law (tuple synthesis): two listed element schemas, and no homogeneous
/// `items`, synthesize a two-slot tuple holding the two element types in
/// listed order.
pub proof fn lemma_tuple_synthesis(
    store: Map<UrlKey, ResolvedJsonSchema>,
    idents: Map<UrlKey, Seq<char>>,
    kws: Keywords,
    u1: SchemaUrl,
    u2: SchemaUrl,
    fuel: nat,
)
    requires
        fuel > 0,
        kws.items is None,
        kws.prefix_items matches Some(p) && p.0@ == seq![
            JsonSchema::Resolved(u1),
            JsonSchema::Resolved(u2),
        ],
        type_step(store, idents, u1.key(), (fuel - 1) as nat).fault is None,
        type_step(
            store,
            type_step(store, idents, u1.key(), (fuel - 1) as nat).idents,
            u2.key(),
            (fuel - 1) as nat,
        ).fault is None,
    ensures
        ({
            let t1 = type_step(store, idents, u1.key(), (fuel - 1) as nat);
            let t2 = type_step(store, t1.idents, u2.key(), (fuel - 1) as nat);
            array_step(store, idents, kws, fuel).text == "("@ + t1.text + ", "@ + t2.text + ")"@
        }),
{
    let items = (kws.prefix_items->0).0@;
    let t1 = type_step(store, idents, u1.key(), (fuel - 1) as nat);
    let t2 = type_step(store, t1.idents, u2.key(), (fuel - 1) as nat);
    assert(items.len() == 2);
    assert(items[0] == JsonSchema::Resolved(u1));
    assert(items[1] == JsonSchema::Resolved(u2));
    let inner = tuple_step(store, idents, items, 0, (fuel - 1) as nat);
    let rest1 = tuple_step(store, t1.idents, items, 1, (fuel - 1) as nat);
    let rest2 = tuple_step(store, t2.idents, items, 2, (fuel - 1) as nat);
    assert(rest2.text == Seq::<char>::empty() && rest2.fault is None);
    assert(rest1.text =~= t2.text + Seq::<char>::empty() && rest1.fault is None);
    assert(inner.text =~= t1.text + ", "@ + rest1.text && inner.fault is None);
    assert(inner.text =~= t1.text + ", "@ + (t2.text + Seq::<char>::empty()));
    assert(array_step(store, idents, kws, fuel).text =~= "("@ + inner.text + ")"@);
    assert(array_step(store, idents, kws, fuel).text =~= "("@ + t1.text + ", "@ + t2.text + ")"@);
}

/// The scalar table, as run.
fn scalar_type_text(t: &str, fmt: &Option<FormatKeyword>) -> (r: Result<&'static str, SynthError>)
    requires
        t@ == "string"@ || t@ == "number"@ || t@ == "integer"@,
    ensures
        match scalar_text(t@, fmt_view(*fmt)) {
            Some(txt) => r matches Ok(s) && s@ == txt,
            None => r matches Err(e) && e == SynthError::UnsupportedFormatHint,
        },
{
    if crate::text::str_eq(t, "string") {
        match fmt {
            None => Ok("String"),
            Some(FormatKeyword(f)) => {
                let f = f.as_str();
                if crate::text::str_eq(f, "uuid") {
                    Ok("uuid::Uuid")
                } else if crate::text::str_eq(f, "uri") || crate::text::str_eq(f, "url") {
                    Ok("url::Url")
                } else if crate::text::str_eq(f, "date-time") || crate::text::str_eq(f, "time")
                    || crate::text::str_eq(f, "date") || crate::text::str_eq(f, "duration")
                    || crate::text::str_eq(f, "email") || crate::text::str_eq(f, "idn-email")
                    || crate::text::str_eq(f, "host-name") || crate::text::str_eq(f, "idn-host-name")
                    || crate::text::str_eq(f, "ipv4") || crate::text::str_eq(f, "ipv6")
                    || crate::text::str_eq(f, "uri-reference") || crate::text::str_eq(f, "iri")
                    || crate::text::str_eq(f, "iri-reference") || crate::text::str_eq(f, "uri-template")
                    || crate::text::str_eq(f, "json-pointer") || crate::text::str_eq(
                    f,
                    "relative-json-pointer",
                ) || crate::text::str_eq(f, "regex") {
                    Ok("String")
                } else {
                    Err(SynthError::UnsupportedFormatHint)
                }
            },
        }
    } else if crate::text::str_eq(t, "number") {
        match fmt {
            None => Ok("f32"),
            Some(FormatKeyword(f)) => {
                let f = f.as_str();
                if crate::text::str_eq(f, "f32") {
                    Ok("f32")
                } else if crate::text::str_eq(f, "f64") {
                    Ok("f64")
                } else {
                    Err(SynthError::UnsupportedFormatHint)
                }
            },
        }
    } else {
        match fmt {
            None => Ok("i32"),
            Some(FormatKeyword(f)) => {
                let f = f.as_str();
                if crate::text::str_eq(f, "i8") {
                    Ok("i8")
                } else if crate::text::str_eq(f, "u8") {
                    Ok("u8")
                } else if crate::text::str_eq(f, "i16") {
                    Ok("i16")
                } else if crate::text::str_eq(f, "u16") {
                    Ok("u16")
                } else if crate::text::str_eq(f, "i32") {
                    Ok("i32")
                } else if crate::text::str_eq(f, "u32") {
                    Ok("u32")
                } else {
                    Err(SynthError::UnsupportedFormatHint)
                }
            },
        }
    }
}

/// Writes the type expression for a resolved handle: a previously named
/// location is written as its name; scalars, sequences and tuples are
/// written structurally; object-like nodes are written as their memoized
/// identifier, which is assigned now if missing.
#[verifier::loop_isolation(false)]
pub fn resolve_rust_type(
    w: &mut Vec<char>,
    state: &mut CodegenState,
    context: &Context,
    schema: &JsonSchema,
    fuel: usize,
) -> (r: Result<(), SynthError>)
    requires
        old(state).wf(),
        context.wf(),
        schema is Resolved,
    ensures
        final(state).wf(),
        ({
            let o = type_step(
                context.map(),
                old(state).ident_map(),
                schema->Resolved_0.key(),
                fuel as nat,
            );
            &&& final(w)@ == old(w)@ + o.text
            &&& final(state).ident_map() == o.idents
            &&& r == (match o.fault {
                None => Ok::<(), SynthError>(()),
                Some(e) => Err::<(), SynthError>(e),
            })
        }),
    decreases fuel, 1int,
{
    let url = get_url(schema);
    match state.lookup(url) {
        Some(name) => {
            let n = name.clone();
            crate::text::append_str(w, n.as_str());
            Ok(())
        },
        None => match context.schema(url) {
            None => {
                crate::text::append_str(w, "()");
                Ok(())
            },
            Some(ResolvedJsonSchema::Bool(b)) => {
                if *b {
                    crate::text::append_str(w, "serde_json::Value");
                } else {
                    crate::text::append_str(w, "()");
                }
                Ok(())
            },
            Some(ResolvedJsonSchema::Object(kws)) => match &kws.type_ {
                Some(TypeKeyword::Single(t)) => {
                    if crate::text::str_eq(t.as_str(), "object") {
                        let name = resolve_rust_ident(state, kws, url);
                        crate::text::append_str(w, name.as_str());
                        Ok(())
                    } else if crate::text::str_eq(t.as_str(), "array") {
                        resolve_array_type(w, state, context, kws, fuel)
                    } else if crate::text::str_eq(t.as_str(), "string") || crate::text::str_eq(
                        t.as_str(),
                        "number",
                    ) || crate::text::str_eq(t.as_str(), "integer") {
                        match scalar_type_text(t.as_str(), &kws.format) {
                            Ok(txt) => {
                                crate::text::append_str(w, txt);
                                Ok(())
                            },
                            Err(e) => Err(e),
                        }
                    } else {
                        Err(SynthError::UnsupportedSchemaShape)
                    }
                },
                _ => {
                    let name = resolve_rust_ident(state, kws, url);
                    crate::text::append_str(w, name.as_str());
                    Ok(())
                },
            },
        },
    }
}

/// Writes the container mapping of an array-typed node.
#[verifier::loop_isolation(false)]
#[verifier::rlimit(100)]
#[verifier::spinoff_prover]
fn resolve_array_type(
    w: &mut Vec<char>,
    state: &mut CodegenState,
    context: &Context,
    kws: &Keywords,
    fuel: usize,
) -> (r: Result<(), SynthError>)
    requires
        old(state).wf(),
        context.wf(),
    ensures
        final(state).wf(),
        ({
            let o = array_step(context.map(), old(state).ident_map(), *kws, fuel as nat);
            &&& final(w)@ == old(w)@ + o.text
            &&& final(state).ident_map() == o.idents
            &&& r == (match o.fault {
                None => Ok::<(), SynthError>(()),
                Some(e) => Err::<(), SynthError>(e),
            })
        }),
    decreases fuel, 0int,
{
    match (&kws.items, &kws.prefix_items) {
        (Some(items), None) => {
            crate::text::append_str(w, "Vec<");
            match &*items.0 {
                JsonSchema::Resolved(_) => {
                    if fuel == 0 {
                        return Err(SynthError::UnsupportedSchemaShape);
                    }
                    let child: &JsonSchema = &items.0;
                    match resolve_rust_type(w, state, context, child, fuel - 1) {
                        Ok(()) => {
                            crate::text::append_str(w, ">");
                            Ok(())
                        },
                        Err(e) => Err(e),
                    }
                },
                _ => Err(SynthError::UnsupportedSchemaShape),
            }
        },
        (None, Some(prefix)) => {
            crate::text::append_str(w, "(");
            if fuel == 0 {
                return Err(SynthError::UnsupportedSchemaShape);
            }
            let items = &prefix.0;
            let ghost store_m = context.map();
            let ghost idents0 = state.ident_map();
            let ghost w0 = w@;
            let ghost sv = items@;
            let ghost fm = (fuel - 1) as nat;
            let ghost total = tuple_step(store_m, idents0, sv, 0, fm);
            let mut i: usize = 0;
            while i < items.len()
                invariant
                    i <= sv.len(),
                    state.wf(),
                    w0.len() <= w@.len(),
                    w@.take(w0.len() as int) == w0,
                    ({
                        let rest = tuple_step(store_m, state.ident_map(), sv, i as int, fm);
                        &&& total.text == w@.skip(w0.len() as int) + rest.text
                        &&& total.idents == rest.idents
                        &&& total.fault == rest.fault
                    }),
                decreases sv.len() - i,
            {
                let ghost w_pre = w@;
                let ghost idents_pre = state.ident_map();
                let ghost gi = i as int;
                let child = &items[i];
                match child {
                    JsonSchema::Resolved(_) => {
                        let ghost ck = child->Resolved_0.key();
                        let ghost inner_c = type_step(store_m, idents_pre, ck, fm);
                        let ghost rest_pre = tuple_step(store_m, idents_pre, sv, gi, fm);
                        match resolve_rust_type(w, state, context, child, fuel - 1) {
                            Ok(()) => {
                                if i + 1 < items.len() {
                                    crate::text::append_str(w, ", ");
                                }
                                proof {
                                    let rest_next = tuple_step(
                                        store_m,
                                        state.ident_map(),
                                        sv,
                                        gi + 1,
                                        fm,
                                    );
                                    assert(rest_pre.text == inner_c.text + (if gi + 1 < sv.len() {
                                        ", "@
                                    } else {
                                        Seq::<char>::empty()
                                    }) + rest_next.text);
                                    assert(w@.take(w0.len() as int) =~= w0);
                                    assert(w@.skip(w0.len() as int) =~= w_pre.skip(
                                        w0.len() as int,
                                    ) + w@.skip(w_pre.len() as int));
                                    assert(total.text =~= w@.skip(w0.len() as int)
                                        + rest_next.text);
                                }
                            },
                            Err(e) => {
                                proof {
                                    assert(rest_pre == inner_c);
                                    assert(w@.take(w0.len() as int) =~= w0);
                                    assert(w@.skip(w0.len() as int) =~= w_pre.skip(
                                        w0.len() as int,
                                    ) + w@.skip(w_pre.len() as int));
                                    assert(total.text =~= w@.skip(w0.len() as int));
                                    assert(w0 =~= old(w)@ + "("@);
                                    assert(w@ =~= w@.take(w0.len() as int) + w@.skip(
                                        w0.len() as int,
                                    ));
                                    assert(w@ =~= old(w)@ + ("("@ + total.text));
                                }
                                return Err(e);
                            },
                        }
                    },
                    _ => {
                        proof {
                            let rest_here = tuple_step(store_m, state.ident_map(), sv, gi, fm);
                            assert(rest_here.fault == Some(SynthError::UnsupportedSchemaShape));
                            assert(rest_here.text =~= Seq::<char>::empty());
                            assert(total.text =~= w@.skip(w0.len() as int));
                            assert(w0 =~= old(w)@ + "("@);
                            assert(w@ =~= w@.take(w0.len() as int) + w@.skip(w0.len() as int));
                            assert(w@ =~= old(w)@ + ("("@ + total.text));
                        }
                        return Err(SynthError::UnsupportedSchemaShape);
                    },
                }
                i += 1;
            }
            let ghost w_end = w@;
            crate::text::append_str(w, ")");
            proof {
                let rest_done = tuple_step(store_m, state.ident_map(), sv, sv.len() as int, fm);
                assert(rest_done.text =~= Seq::<char>::empty());
                assert(total.text =~= w_end.skip(w0.len() as int));
                assert(w@.skip(w0.len() as int) =~= total.text + ")"@);
                assert(w0 =~= old(w)@ + "("@);
                assert(w@.take(w0.len() as int) =~= w0);
                assert(w@ =~= w@.take(w0.len() as int) + w@.skip(w0.len() as int));
                assert(old(w)@ + ("("@ + total.text + ")"@) =~= w@);
            }
            Ok(())
        },
        _ => {
            crate::text::append_str(w, "Vec<()>");
            Ok(())
        },
    }
}


// ---------------------------------------------------------------------------
// Record (struct) synthesis
// ---------------------------------------------------------------------------
/// Whether `n` is one of the names in `rs`.
pub open spec fn contains_name(rs: Seq<String>, n: Seq<char>) -> bool {
    exists|j: int| 0 <= j < rs.len() && rs[j]@ == n
}

/// One declared property: a field named after the property key, typed by
/// the property's schema, and optional exactly when the key is not listed
/// in `required`.
pub open spec fn field_step(
    store: Map<UrlKey, ResolvedJsonSchema>,
    idents: Map<UrlKey, Seq<char>>,
    name: Seq<char>,
    schema: JsonSchema,
    required: Seq<String>,
    fuel: nat,
) -> SynthOut {
    match schema {
        JsonSchema::Resolved(u) => {
            let opt = !contains_name(required, name);
            let inner = type_step(store, idents, u.key(), fuel);
            SynthOut {
                text: "\tpub "@ + name + ": "@ + (if opt {
                    "Option<"@
                } else {
                    Seq::empty()
                }) + inner.text + (if inner.fault is None {
                    (if opt {
                        ">"@
                    } else {
                        Seq::<char>::empty()
                    }) + ",\n"@
                } else {
                    Seq::empty()
                }),
                idents: inner.idents,
                fault: inner.fault,
            }
        },
        _ => SynthOut {
            text: Seq::empty(),
            idents,
            fault: Some(SynthError::UnsupportedSchemaShape),
        },
    }
}

/// Law (struct field optionality): a synthesized field is mandatory when
/// its name is listed in `required`, and wrapped in the optional container
/// otherwise.
pub proof fn lemma_struct_field_optionality(
    store: Map<UrlKey, ResolvedJsonSchema>,
    idents: Map<UrlKey, Seq<char>>,
    name: Seq<char>,
    schema: JsonSchema,
    required: Seq<String>,
    fuel: nat,
)
    requires
        schema is Resolved,
        type_step(store, idents, schema->Resolved_0.key(), fuel).fault is None,
    ensures
        ({
            let inner = type_step(store, idents, schema->Resolved_0.key(), fuel);
            let t = field_step(store, idents, name, schema, required, fuel).text;
            if contains_name(required, name) {
                t == "\tpub "@ + name + ": "@ + inner.text + ",\n"@
            } else {
                t == "\tpub "@ + name + ": "@ + "Option<"@ + inner.text + ">"@ + ",\n"@
            }
        }),
{
    let inner = type_step(store, idents, schema->Resolved_0.key(), fuel);
    if contains_name(required, name) {
        assert(field_step(store, idents, name, schema, required, fuel).text =~= "\tpub "@ + name
            + ": "@ + inner.text + ",\n"@);
    } else {
        assert(field_step(store, idents, name, schema, required, fuel).text =~= "\tpub "@ + name
            + ": "@ + "Option<"@ + inner.text + ">"@ + ",\n"@);
    }
}

/// The declared properties, one field each, in source order.
pub open spec fn props_fold(
    store: Map<UrlKey, ResolvedJsonSchema>,
    idents: Map<UrlKey, Seq<char>>,
    props: Seq<(String, JsonSchema)>,
    required: Seq<String>,
    i: int,
    fuel: nat,
) -> SynthOut
    decreases props.len() - i,
{
    if i < 0 || i >= props.len() {
        SynthOut { text: Seq::empty(), idents, fault: None }
    } else {
        let one = field_step(store, idents, props[i].0@, props[i].1, required, fuel);
        if one.fault is Some {
            one
        } else {
            let rest = props_fold(store, one.idents, props, required, i + 1, fuel);
            SynthOut { text: one.text + rest.text, idents: rest.idents, fault: rest.fault }
        }
    }
}

/// One `allOf` branch that resolves to an object schema: an always-present
/// field named and typed as that branch's named type, marked so its fields
/// flatten into the parent's representation. Branches resolving to boolean
/// schemas, or not yet stored, add nothing.
pub open spec fn allof_field_step(
    store: Map<UrlKey, ResolvedJsonSchema>,
    idents: Map<UrlKey, Seq<char>>,
    schema: JsonSchema,
    fuel: nat,
) -> SynthOut {
    match schema {
        JsonSchema::Resolved(u) => {
            if store.contains_key(u.key()) && store[u.key()] is Object {
                let kws2 = store[u.key()]->Object_0;
                let n = resolve_ident_step(idents, kws2.title, u.key()).0;
                let id1 = resolve_ident_step(idents, kws2.title, u.key()).1;
                let inner = type_step(store, id1, u.key(), fuel);
                SynthOut {
                    text: "\t/// "@ + u.spec_render() + "\n"@
                        + "\t#[serde(flatten)]\n"@ + "\tpub "@ + n + ": "@ + inner.text + (
                    if inner.fault is None {
                        ",\n"@
                    } else {
                        Seq::empty()
                    }),
                    idents: inner.idents,
                    fault: inner.fault,
                }
            } else {
                SynthOut { text: Seq::empty(), idents, fault: None }
            }
        },
        _ => SynthOut {
            text: Seq::empty(),
            idents,
            fault: Some(SynthError::UnsupportedSchemaShape),
        },
    }
}

/// One `anyOf` branch that resolves to an object schema: as for `allOf`,
/// but the flattened field is optional.
pub open spec fn anyof_field_step(
    store: Map<UrlKey, ResolvedJsonSchema>,
    idents: Map<UrlKey, Seq<char>>,
    schema: JsonSchema,
    fuel: nat,
) -> SynthOut {
    match schema {
        JsonSchema::Resolved(u) => {
            if store.contains_key(u.key()) && store[u.key()] is Object {
                let kws2 = store[u.key()]->Object_0;
                let n = resolve_ident_step(idents, kws2.title, u.key()).0;
                let id1 = resolve_ident_step(idents, kws2.title, u.key()).1;
                let inner = type_step(store, id1, u.key(), fuel);
                SynthOut {
                    text: "\t#[serde(flatten)]\n"@ + "\tpub "@ + n + ": Option<"@ + inner.text
                        + (if inner.fault is None {
                        ">,\n"@
                    } else {
                        Seq::empty()
                    }),
                    idents: inner.idents,
                    fault: inner.fault,
                }
            } else {
                SynthOut { text: Seq::empty(), idents, fault: None }
            }
        },
        _ => SynthOut {
            text: Seq::empty(),
            idents,
            fault: Some(SynthError::UnsupportedSchemaShape),
        },
    }
}

pub open spec fn allof_fold(
    store: Map<UrlKey, ResolvedJsonSchema>,
    idents: Map<UrlKey, Seq<char>>,
    branches: Seq<JsonSchema>,
    i: int,
    fuel: nat,
) -> SynthOut
    decreases branches.len() - i,
{
    if i < 0 || i >= branches.len() {
        SynthOut { text: Seq::empty(), idents, fault: None }
    } else {
        let one = allof_field_step(store, idents, branches[i], fuel);
        if one.fault is Some {
            one
        } else {
            let rest = allof_fold(store, one.idents, branches, i + 1, fuel);
            SynthOut { text: one.text + rest.text, idents: rest.idents, fault: rest.fault }
        }
    }
}

pub open spec fn anyof_fold(
    store: Map<UrlKey, ResolvedJsonSchema>,
    idents: Map<UrlKey, Seq<char>>,
    branches: Seq<JsonSchema>,
    i: int,
    fuel: nat,
) -> SynthOut
    decreases branches.len() - i,
{
    if i < 0 || i >= branches.len() {
        SynthOut { text: Seq::empty(), idents, fault: None }
    } else {
        let one = anyof_field_step(store, idents, branches[i], fuel);
        if one.fault is Some {
            one
        } else {
            let rest = anyof_fold(store, one.idents, branches, i + 1, fuel);
            SynthOut { text: one.text + rest.text, idents: rest.idents, fault: rest.fault }
        }
    }
}

/// All fields of a record: declared properties first, then `allOf`-derived
/// flattened fields, then `anyOf`-derived optional flattened fields, each
/// group in source order.
pub open spec fn fields_step(
    store: Map<UrlKey, ResolvedJsonSchema>,
    idents: Map<UrlKey, Seq<char>>,
    kws: Keywords,
    fuel: nat,
) -> SynthOut {
    let required: Seq<String> = match kws.required {
        Some(r) => r.0@,
        None => Seq::empty(),
    };
    let p = match kws.props {
        Some(props) => props_fold(store, idents, props.map@, required, 0, fuel),
        None => SynthOut { text: Seq::empty(), idents, fault: None },
    };
    if p.fault is Some {
        p
    } else {
        let a = match kws.all_of {
            Some(b) => allof_fold(store, p.idents, b.0@, 0, fuel),
            None => SynthOut { text: Seq::empty(), idents: p.idents, fault: None },
        };
        if a.fault is Some {
            SynthOut { text: p.text + a.text, idents: a.idents, fault: a.fault }
        } else {
            let y = match kws.any_of {
                Some(b) => anyof_fold(store, a.idents, b.0@, 0, fuel),
                None => SynthOut { text: Seq::empty(), idents: a.idents, fault: None },
            };
            SynthOut { text: p.text + a.text + y.text, idents: y.idents, fault: y.fault }
        }
    }
}


fn contains_name_exec(rs: &Vec<String>, n: &str) -> (r: bool)
    ensures
        r == contains_name(rs@, n@),
{
    let mut i: usize = 0;
    while i < rs.len()
        invariant
            i <= rs@.len(),
            forall|j: int| 0 <= j < i ==> rs@[j]@ != n@,
        decreases rs@.len() - i,
    {
        if crate::text::str_eq(rs[i].as_str(), n) {
            return true;
        }
        i += 1;
    }
    false
}

/// Writes one declared property's field.
fn write_field(
    w: &mut Vec<char>,
    state: &mut CodegenState,
    context: &Context,
    name: &String,
    schema: &JsonSchema,
    required: &Vec<String>,
    fuel: usize,
) -> (r: Result<(), SynthError>)
    requires
        old(state).wf(),
        context.wf(),
    ensures
        final(state).wf(),
        ({
            let o = field_step(
                context.map(),
                old(state).ident_map(),
                name@,
                *schema,
                required@,
                fuel as nat,
            );
            &&& final(w)@ == old(w)@ + o.text
            &&& final(state).ident_map() == o.idents
            &&& r == (match o.fault {
                None => Ok::<(), SynthError>(()),
                Some(e) => Err::<(), SynthError>(e),
            })
        }),
{
    match schema {
        JsonSchema::Resolved(_) => {
            crate::text::append_str(w, "\tpub ");
            crate::text::append_str(w, name.as_str());
            crate::text::append_str(w, ": ");
            let optional = !contains_name_exec(required, name.as_str());
            if optional {
                crate::text::append_str(w, "Option<");
            }
            match resolve_rust_type(w, state, context, schema, fuel) {
                Ok(()) => {
                    if optional {
                        crate::text::append_str(w, ">");
                    }
                    crate::text::append_str(w, ",\n");
                    proof {
                        assert(w@ =~= old(w)@ + field_step(
                            context.map(),
                            old(state).ident_map(),
                            name@,
                            *schema,
                            required@,
                            fuel as nat,
                        ).text);
                    }
                    Ok(())
                },
                Err(e) => {
                    proof {
                        assert(w@ =~= old(w)@ + field_step(
                            context.map(),
                            old(state).ident_map(),
                            name@,
                            *schema,
                            required@,
                            fuel as nat,
                        ).text);
                    }
                    Err(e)
                },
            }
        },
        _ => Err(SynthError::UnsupportedSchemaShape),
    }
}

/// Writes one `allOf`-derived flattened field, or nothing for a branch
/// that does not resolve to an object schema.
fn write_allof_field(
    w: &mut Vec<char>,
    state: &mut CodegenState,
    context: &Context,
    schema: &JsonSchema,
    fuel: usize,
) -> (r: Result<(), SynthError>)
    requires
        old(state).wf(),
        context.wf(),
    ensures
        final(state).wf(),
        ({
            let o = allof_field_step(context.map(), old(state).ident_map(), *schema, fuel as nat);
            &&& final(w)@ == old(w)@ + o.text
            &&& final(state).ident_map() == o.idents
            &&& r == (match o.fault {
                None => Ok::<(), SynthError>(()),
                Some(e) => Err::<(), SynthError>(e),
            })
        }),
{
    match schema {
        JsonSchema::Resolved(url) => {
            match context.schema(url) {
                Some(ResolvedJsonSchema::Object(kws2)) => {
                    let name = resolve_rust_ident(state, kws2, url);
                    crate::text::append_str(w, "\t/// ");
                    let rendered = url.render();
                    crate::text::append_str(w, rendered.as_str());
                    crate::text::append_str(w, "\n");
                    crate::text::append_str(w, "\t#[serde(flatten)]\n");
                    crate::text::append_str(w, "\tpub ");
                    crate::text::append_str(w, name.as_str());
                    crate::text::append_str(w, ": ");
                    match resolve_rust_type(w, state, context, schema, fuel) {
                        Ok(()) => {
                            crate::text::append_str(w, ",\n");
                            proof {
                                assert(w@ =~= old(w)@ + allof_field_step(
                                    context.map(),
                                    old(state).ident_map(),
                                    *schema,
                                    fuel as nat,
                                ).text);
                            }
                            Ok(())
                        },
                        Err(e) => {
                            proof {
                                assert(w@ =~= old(w)@ + allof_field_step(
                                    context.map(),
                                    old(state).ident_map(),
                                    *schema,
                                    fuel as nat,
                                ).text);
                            }
                            Err(e)
                        },
                    }
                },
                _ => Ok(()),
            }
        },
        _ => Err(SynthError::UnsupportedSchemaShape),
    }
}

/// Writes one `anyOf`-derived optional flattened field, or nothing for a
/// branch that does not resolve to an object schema.
fn write_anyof_field(
    w: &mut Vec<char>,
    state: &mut CodegenState,
    context: &Context,
    schema: &JsonSchema,
    fuel: usize,
) -> (r: Result<(), SynthError>)
    requires
        old(state).wf(),
        context.wf(),
    ensures
        final(state).wf(),
        ({
            let o = anyof_field_step(context.map(), old(state).ident_map(), *schema, fuel as nat);
            &&& final(w)@ == old(w)@ + o.text
            &&& final(state).ident_map() == o.idents
            &&& r == (match o.fault {
                None => Ok::<(), SynthError>(()),
                Some(e) => Err::<(), SynthError>(e),
            })
        }),
{
    match schema {
        JsonSchema::Resolved(url) => {
            match context.schema(url) {
                Some(ResolvedJsonSchema::Object(kws2)) => {
                    let name = resolve_rust_ident(state, kws2, url);
                    crate::text::append_str(w, "\t#[serde(flatten)]\n");
                    crate::text::append_str(w, "\tpub ");
                    crate::text::append_str(w, name.as_str());
                    crate::text::append_str(w, ": Option<");
                    match resolve_rust_type(w, state, context, schema, fuel) {
                        Ok(()) => {
                            crate::text::append_str(w, ">,\n");
                            proof {
                                assert(w@ =~= old(w)@ + anyof_field_step(
                                    context.map(),
                                    old(state).ident_map(),
                                    *schema,
                                    fuel as nat,
                                ).text);
                            }
                            Ok(())
                        },
                        Err(e) => {
                            proof {
                                assert(w@ =~= old(w)@ + anyof_field_step(
                                    context.map(),
                                    old(state).ident_map(),
                                    *schema,
                                    fuel as nat,
                                ).text);
                            }
                            Err(e)
                        },
                    }
                },
                _ => Ok(()),
            }
        },
        _ => Err(SynthError::UnsupportedSchemaShape),
    }
}


/// Writes the declared-property fields, in source order.
#[verifier::loop_isolation(false)]
#[verifier::rlimit(100)]
#[verifier::spinoff_prover]
fn write_props_fields(
    w: &mut Vec<char>,
    state: &mut CodegenState,
    context: &Context,
    props: &Vec<(String, JsonSchema)>,
    required: &Vec<String>,
    fuel: usize,
) -> (r: Result<(), SynthError>)
    requires
        old(state).wf(),
        context.wf(),
    ensures
        final(state).wf(),
        ({
            let o = props_fold(
                context.map(),
                old(state).ident_map(),
                props@,
                required@,
                0,
                fuel as nat,
            );
            &&& final(w)@ == old(w)@ + o.text
            &&& final(state).ident_map() == o.idents
            &&& r == (match o.fault {
                None => Ok::<(), SynthError>(()),
                Some(e) => Err::<(), SynthError>(e),
            })
        }),
{
    let ghost store_m = context.map();
    let ghost idents0 = state.ident_map();
    let ghost fm = fuel as nat;
    let ghost pv = props@;
    let ghost reqv = required@;
    let ghost w0 = w@;
    let ghost ptotal = props_fold(store_m, idents0, pv, reqv, 0, fm);
    let mut i: usize = 0;
    while i < props.len()
        invariant
            i <= pv.len(),
            state.wf(),
            w0.len() <= w@.len(),
            w@.take(w0.len() as int) == w0,
            ({
                let rest = props_fold(store_m, state.ident_map(), pv, reqv, i as int, fm);
                &&& ptotal.text == w@.skip(w0.len() as int) + rest.text
                &&& ptotal.idents == rest.idents
                &&& ptotal.fault == rest.fault
            }),
        decreases pv.len() - i,
    {
        let ghost w_pre = w@;
        let ghost idents_pre = state.ident_map();
        let ghost gi = i as int;
        let pair = &props[i];
        match write_field(w, state, context, &pair.0, &pair.1, required, fuel) {
            Ok(()) => {
                proof {
                    assert(w@.take(w0.len() as int) =~= w0);
                    assert(w@.skip(w0.len() as int) =~= w_pre.skip(w0.len() as int) + w@.skip(
                        w_pre.len() as int,
                    ));
                }
            },
            Err(e) => {
                proof {
                    assert(w@.take(w0.len() as int) =~= w0);
                    assert(w@.skip(w0.len() as int) =~= w_pre.skip(w0.len() as int) + w@.skip(
                        w_pre.len() as int,
                    ));
                    assert(ptotal.text =~= w@.skip(w0.len() as int));
                    assert(w@ =~= w0 + ptotal.text);
                }
                return Err(e);
            },
        }
        i += 1;
    }
    proof {
        assert(ptotal.text =~= w@.skip(w0.len() as int));
        assert(w@ =~= w0 + ptotal.text);
    }
    Ok(())
}

/// Writes the `allOf`-derived flattened fields, in source order.
#[verifier::loop_isolation(false)]
#[verifier::rlimit(100)]
#[verifier::spinoff_prover]
fn write_allof_fields(
    w: &mut Vec<char>,
    state: &mut CodegenState,
    context: &Context,
    branches: &Vec<JsonSchema>,
    fuel: usize,
) -> (r: Result<(), SynthError>)
    requires
        old(state).wf(),
        context.wf(),
    ensures
        final(state).wf(),
        ({
            let o = allof_fold(context.map(), old(state).ident_map(), branches@, 0, fuel as nat);
            &&& final(w)@ == old(w)@ + o.text
            &&& final(state).ident_map() == o.idents
            &&& r == (match o.fault {
                None => Ok::<(), SynthError>(()),
                Some(e) => Err::<(), SynthError>(e),
            })
        }),
{
    let ghost store_m = context.map();
    let ghost idents0 = state.ident_map();
    let ghost fm = fuel as nat;
    let ghost bv = branches@;
    let ghost w0 = w@;
    let ghost atotal = allof_fold(store_m, idents0, bv, 0, fm);
    let mut i: usize = 0;
    while i < branches.len()
        invariant
            i <= bv.len(),
            state.wf(),
            w0.len() <= w@.len(),
            w@.take(w0.len() as int) == w0,
            ({
                let rest = allof_fold(store_m, state.ident_map(), bv, i as int, fm);
                &&& atotal.text == w@.skip(w0.len() as int) + rest.text
                &&& atotal.idents == rest.idents
                &&& atotal.fault == rest.fault
            }),
        decreases bv.len() - i,
    {
        let ghost w_pre = w@;
        match write_allof_field(w, state, context, &branches[i], fuel) {
            Ok(()) => {
                proof {
                    assert(w@.take(w0.len() as int) =~= w0);
                    assert(w@.skip(w0.len() as int) =~= w_pre.skip(w0.len() as int) + w@.skip(
                        w_pre.len() as int,
                    ));
                }
            },
            Err(e) => {
                proof {
                    assert(w@.take(w0.len() as int) =~= w0);
                    assert(w@.skip(w0.len() as int) =~= w_pre.skip(w0.len() as int) + w@.skip(
                        w_pre.len() as int,
                    ));
                    assert(atotal.text =~= w@.skip(w0.len() as int));
                    assert(w@ =~= w0 + atotal.text);
                }
                return Err(e);
            },
        }
        i += 1;
    }
    proof {
        assert(atotal.text =~= w@.skip(w0.len() as int));
        assert(w@ =~= w0 + atotal.text);
    }
    Ok(())
}

/// Writes the `anyOf`-derived optional flattened fields, in source order.
#[verifier::loop_isolation(false)]
#[verifier::rlimit(100)]
#[verifier::spinoff_prover]
fn write_anyof_fields(
    w: &mut Vec<char>,
    state: &mut CodegenState,
    context: &Context,
    branches: &Vec<JsonSchema>,
    fuel: usize,
) -> (r: Result<(), SynthError>)
    requires
        old(state).wf(),
        context.wf(),
    ensures
        final(state).wf(),
        ({
            let o = anyof_fold(context.map(), old(state).ident_map(), branches@, 0, fuel as nat);
            &&& final(w)@ == old(w)@ + o.text
            &&& final(state).ident_map() == o.idents
            &&& r == (match o.fault {
                None => Ok::<(), SynthError>(()),
                Some(e) => Err::<(), SynthError>(e),
            })
        }),
{
    let ghost store_m = context.map();
    let ghost idents0 = state.ident_map();
    let ghost fm = fuel as nat;
    let ghost bv = branches@;
    let ghost w0 = w@;
    let ghost ytotal = anyof_fold(store_m, idents0, bv, 0, fm);
    let mut i: usize = 0;
    while i < branches.len()
        invariant
            i <= bv.len(),
            state.wf(),
            w0.len() <= w@.len(),
            w@.take(w0.len() as int) == w0,
            ({
                let rest = anyof_fold(store_m, state.ident_map(), bv, i as int, fm);
                &&& ytotal.text == w@.skip(w0.len() as int) + rest.text
                &&& ytotal.idents == rest.idents
                &&& ytotal.fault == rest.fault
            }),
        decreases bv.len() - i,
    {
        let ghost w_pre = w@;
        match write_anyof_field(w, state, context, &branches[i], fuel) {
            Ok(()) => {
                proof {
                    assert(w@.take(w0.len() as int) =~= w0);
                    assert(w@.skip(w0.len() as int) =~= w_pre.skip(w0.len() as int) + w@.skip(
                        w_pre.len() as int,
                    ));
                }
            },
            Err(e) => {
                proof {
                    assert(w@.take(w0.len() as int) =~= w0);
                    assert(w@.skip(w0.len() as int) =~= w_pre.skip(w0.len() as int) + w@.skip(
                        w_pre.len() as int,
                    ));
                    assert(ytotal.text =~= w@.skip(w0.len() as int));
                    assert(w@ =~= w0 + ytotal.text);
                }
                return Err(e);
            },
        }
        i += 1;
    }
    proof {
        assert(ytotal.text =~= w@.skip(w0.len() as int));
        assert(w@ =~= w0 + ytotal.text);
    }
    Ok(())
}

/// Writes all fields of a record: declared properties, then flattened
/// `allOf` fields, then optional flattened `anyOf` fields, in source order.
#[verifier::rlimit(100)]
#[verifier::spinoff_prover]
pub fn write_fields(
    w: &mut Vec<char>,
    state: &mut CodegenState,
    context: &Context,
    keywords: &Keywords,
    fuel: usize,
) -> (r: Result<(), SynthError>)
    requires
        old(state).wf(),
        context.wf(),
    ensures
        final(state).wf(),
        ({
            let o = fields_step(context.map(), old(state).ident_map(), *keywords, fuel as nat);
            &&& final(w)@ == old(w)@ + o.text
            &&& final(state).ident_map() == o.idents
            &&& r == (match o.fault {
                None => Ok::<(), SynthError>(()),
                Some(e) => Err::<(), SynthError>(e),
            })
        }),
{
    let ghost store_m = context.map();
    let ghost idents0 = state.ident_map();
    let ghost fm = fuel as nat;
    let empty_req: Vec<String> = Vec::new();
    if let Some(props) = &keywords.props {
        let required: &Vec<String> = match &keywords.required {
            Some(r) => &r.0,
            None => &empty_req,
        };
        match write_props_fields(w, state, context, &props.map, required, fuel) {
            Ok(()) => (),
            Err(e) => {
                return Err(e);
            },
        }
    }
    if let Some(all_of) = &keywords.all_of {
        match write_allof_fields(w, state, context, &all_of.0, fuel) {
            Ok(()) => (),
            Err(e) => {
                proof {
                    assert(w@ =~= old(w)@ + fields_step(store_m, idents0, *keywords, fm).text);
                }
                return Err(e);
            },
        }
    }
    if let Some(any_of) = &keywords.any_of {
        match write_anyof_fields(w, state, context, &any_of.0, fuel) {
            Ok(()) => (),
            Err(e) => {
                proof {
                    assert(w@ =~= old(w)@ + fields_step(store_m, idents0, *keywords, fm).text);
                }
                return Err(e);
            },
        }
    }
    proof {
        assert(w@ =~= old(w)@ + fields_step(store_m, idents0, *keywords, fm).text);
    }
    Ok(())
}


// ---------------------------------------------------------------------------
// Variant (enum) synthesis
// ---------------------------------------------------------------------------
/// One case line per listed `enum` member; only string-valued members get
/// a named case, every other member kind contributes a bare separator.
pub open spec fn values_fold(vals: Seq<JsonValue>, i: int) -> Seq<char>
    decreases vals.len() - i,
{
    if i < 0 || i >= vals.len() {
        Seq::empty()
    } else {
        (match vals[i] {
            JsonValue::Str(t) => "\t"@ + t@,
            _ => Seq::empty(),
        }) + ",\n"@ + values_fold(vals, i + 1)
    }
}

/// What a `oneOf` branch resolves to, when it is a boolean schema.
pub open spec fn branch_bool(
    store: Map<UrlKey, ResolvedJsonSchema>,
    s: JsonSchema,
) -> Option<bool> {
    match s {
        JsonSchema::Resolved(u) => {
            if store.contains_key(u.key()) {
                match store[u.key()] {
                    ResolvedJsonSchema::Bool(b) => Some(b),
                    _ => None,
                }
            } else {
                None
            }
        },
        _ => None,
    }
}

/// Whether any branch before `upto` is the accept-anything schema.
pub open spec fn has_true_branch(
    store: Map<UrlKey, ResolvedJsonSchema>,
    bs: Seq<JsonSchema>,
    upto: int,
) -> bool {
    exists|j: int| 0 <= j < upto && branch_bool(store, #[trigger] bs[j]) == Some(true)
}

/// Whether any branch before `upto` is the accept-nothing schema.
pub open spec fn has_false_branch(
    store: Map<UrlKey, ResolvedJsonSchema>,
    bs: Seq<JsonSchema>,
    upto: int,
) -> bool {
    exists|j: int| 0 <= j < upto && branch_bool(store, #[trigger] bs[j]) == Some(false)
}

/// One case per `oneOf` branch: an object branch gets a named case whose
/// payload is that branch's named type; a boolean branch contributes only
/// a separator here and is folded into the closing cases.
pub open spec fn oneof_fold(
    store: Map<UrlKey, ResolvedJsonSchema>,
    idents: Map<UrlKey, Seq<char>>,
    bs: Seq<JsonSchema>,
    i: int,
    fuel: nat,
) -> SynthOut
    decreases bs.len() - i,
{
    if i < 0 || i >= bs.len() {
        SynthOut { text: Seq::empty(), idents, fault: None }
    } else {
        match bs[i] {
            JsonSchema::Resolved(u) => {
                if !store.contains_key(u.key()) {
                    SynthOut {
                        text: Seq::empty(),
                        idents,
                        fault: Some(SynthError::UnsupportedSchemaShape),
                    }
                } else {
                    match store[u.key()] {
                        ResolvedJsonSchema::Bool(_) => {
                            let rest = oneof_fold(store, idents, bs, i + 1, fuel);
                            SynthOut {
                                text: ",\n"@ + rest.text,
                                idents: rest.idents,
                                fault: rest.fault,
                            }
                        },
                        ResolvedJsonSchema::Object(kws2) => {
                            let n = resolve_ident_step(idents, kws2.title, u.key()).0;
                            let id1 = resolve_ident_step(idents, kws2.title, u.key()).1;
                            let rest = oneof_fold(store, id1, bs, i + 1, fuel);
                            SynthOut {
                                text: "\t"@ + n + "("@ + n + ")"@ + ",\n"@ + rest.text,
                                idents: rest.idents,
                                fault: rest.fault,
                            }
                        },
                    }
                }
            },
            _ => SynthOut {
                text: Seq::empty(),
                idents,
                fault: Some(SynthError::UnsupportedSchemaShape),
            },
        }
    }
}

/// The closing cases of a synthesized variant: exactly one catch-all case
/// when any branch accepts anything, and exactly one empty case when any
/// branch accepts nothing — each at most once, however many such branches
/// appear.
pub open spec fn enum_tail(has_t: bool, has_f: bool) -> Seq<char> {
    (if has_t {
        "\tValue(serde_json::Value),\n"@
    } else {
        Seq::<char>::empty()
    }) + (if has_f {
        "\tEmpty,\n"@
    } else {
        Seq::<char>::empty()
    })
}

/// Law (variant closure): the closing cases depend only on whether an
/// accept-anything branch and an accept-nothing branch exist, never on how
/// many of each appear, so the synthesized variant gains at most one
/// catch-all case and at most one empty case.
pub proof fn lemma_variant_closure(
    store: Map<UrlKey, ResolvedJsonSchema>,
    bs1: Seq<JsonSchema>,
    bs2: Seq<JsonSchema>,
)
    requires
        has_true_branch(store, bs1, bs1.len() as int) == has_true_branch(
            store,
            bs2,
            bs2.len() as int,
        ),
        has_false_branch(store, bs1, bs1.len() as int) == has_false_branch(
            store,
            bs2,
            bs2.len() as int,
        ),
    ensures
        enum_tail(
            has_true_branch(store, bs1, bs1.len() as int),
            has_false_branch(store, bs1, bs1.len() as int),
        ) == enum_tail(
            has_true_branch(store, bs2, bs2.len() as int),
            has_false_branch(store, bs2, bs2.len() as int),
        ),
{
}

/// The whole variant declaration for the node at `k`.
pub open spec fn enum_step(
    store: Map<UrlKey, ResolvedJsonSchema>,
    idents: Map<UrlKey, Seq<char>>,
    kws: Keywords,
    k: UrlKey,
    fuel: nat,
) -> SynthOut {
    let n = resolve_ident_step(idents, kws.title, k).0;
    let id1 = resolve_ident_step(idents, kws.title, k).1;
    let header = "#[derive(::serde::Deserialize, ::serde::Serialize)]\n"@ + "pub enum "@ + n
        + " {\n"@;
    let vals: Seq<char> = match kws.enum_ {
        Some(e) => values_fold(e.0@, 0),
        None => Seq::empty(),
    };
    match kws.one_of {
        Some(o) => {
            let f = oneof_fold(store, id1, o.0@, 0, fuel);
            if f.fault is Some {
                SynthOut { text: header + vals + f.text, idents: f.idents, fault: f.fault }
            } else {
                SynthOut {
                    text: header + vals + f.text + enum_tail(
                        has_true_branch(store, o.0@, o.0@.len() as int),
                        has_false_branch(store, o.0@, o.0@.len() as int),
                    ) + "}\n"@,
                    idents: f.idents,
                    fault: None,
                }
            }
        },
        None => SynthOut { text: header + vals + "}\n"@, idents: id1, fault: None },
    }
}

/// The whole record declaration for the node at `url`.
pub open spec fn struct_step(
    store: Map<UrlKey, ResolvedJsonSchema>,
    idents: Map<UrlKey, Seq<char>>,
    kws: Keywords,
    url: SchemaUrl,
    fuel: nat,
) -> SynthOut {
    let n = resolve_ident_step(idents, kws.title, url.key()).0;
    let id1 = resolve_ident_step(idents, kws.title, url.key()).1;
    let header = "/// "@ + url.spec_render() + "\n"@
        + "#[derive(::serde::Deserialize, ::serde::Serialize)]\n"@ + "pub struct "@ + n + " {\n"@;
    let f = fields_step(store, id1, kws, fuel);
    SynthOut {
        text: header + f.text + (if f.fault is None {
            "}\n"@
        } else {
            Seq::empty()
        }),
        idents: f.idents,
        fault: f.fault,
    }
}

/// The singleton declaration for a `const`-bearing node.
pub open spec fn const_step(
    idents: Map<UrlKey, Seq<char>>,
    kws: Keywords,
    k: UrlKey,
) -> SynthOut {
    let n = resolve_ident_step(idents, kws.title, k).0;
    let id1 = resolve_ident_step(idents, kws.title, k).1;
    SynthOut {
        text: "#[derive(::serde::Deserialize, ::serde::Serialize)]\n"@ + "pub struct "@ + n
            + ";\n"@,
        idents: id1,
        fault: None,
    }
}

/// The declaration, if any, for the node stored at `url`: the decision
/// table, first matching rule winning — a singleton for `const`, a variant
/// for `enum`, `oneOf` or multiple declared types, a record for the object
/// type or for `properties`/`allOf` without a declared type, nothing for
/// scalar and boolean nodes, and a diagnostic marker when nothing matches.
pub open spec fn decl_step(
    store: Map<UrlKey, ResolvedJsonSchema>,
    idents: Map<UrlKey, Seq<char>>,
    url: SchemaUrl,
    fuel: nat,
) -> SynthOut {
    let k = url.key();
    if !store.contains_key(k) {
        SynthOut { text: Seq::empty(), idents, fault: None }
    } else {
        match store[k] {
            ResolvedJsonSchema::Bool(_) => SynthOut { text: Seq::empty(), idents, fault: None },
            ResolvedJsonSchema::Object(kws) => {
                if kws.constant is Some {
                    const_step(idents, kws, k)
                } else if kws.enum_ is Some || kws.one_of is Some {
                    enum_step(store, idents, kws, k, fuel)
                } else {
                    match kws.type_ {
                        Some(TypeKeyword::Multiple(_)) => enum_step(store, idents, kws, k, fuel),
                        Some(TypeKeyword::Single(t)) => {
                            if t@ == "object"@ {
                                struct_step(store, idents, kws, url, fuel)
                            } else {
                                SynthOut { text: Seq::empty(), idents, fault: None }
                            }
                        },
                        None => {
                            if kws.props is Some || kws.all_of is Some {
                                struct_step(store, idents, kws, url, fuel)
                            } else {
                                SynthOut {
                                    text: "// "@ + url.spec_render() + "\n"@,
                                    idents,
                                    fault: None,
                                }
                            }
                        },
                    }
                }
            },
        }
    }
}

/// What one whole run produced: the concatenated declarations of the
/// locations that synthesized cleanly, the final identifier table, and the
/// per-location faults of those that did not.
pub struct GenOut {
    pub text: Seq<char>,
    pub idents: Map<UrlKey, Seq<char>>,
    pub faults: Seq<(SchemaUrl, SynthError)>,
}

/// One declaration per stored location, in store order; a faulted
/// declaration contributes its fault and no text.
pub open spec fn gen_fold(
    store: Map<UrlKey, ResolvedJsonSchema>,
    idents: Map<UrlKey, Seq<char>>,
    locs: Seq<SchemaUrl>,
    i: int,
    fuel: nat,
) -> GenOut
    decreases locs.len() - i,
{
    if i < 0 || i >= locs.len() {
        GenOut { text: Seq::empty(), idents, faults: Seq::empty() }
    } else {
        let d = decl_step(store, idents, locs[i], fuel);
        let rest = gen_fold(store, d.idents, locs, i + 1, fuel);
        match d.fault {
            None => GenOut {
                text: d.text + rest.text,
                idents: rest.idents,
                faults: rest.faults,
            },
            Some(e) => GenOut {
                text: rest.text,
                idents: rest.idents,
                faults: seq![(locs[i], e)] + rest.faults,
            },
        }
    }
}


/// Writes the `enum`-member case lines.
#[verifier::loop_isolation(false)]
fn write_enum_values(w: &mut Vec<char>, vals: &Vec<JsonValue>)
    ensures
        final(w)@ == old(w)@ + values_fold(vals@, 0),
{
    let ghost vv = vals@;
    let ghost w0 = w@;
    let mut i: usize = 0;
    while i < vals.len()
        invariant
            i <= vv.len(),
            w0.len() <= w@.len(),
            w@.take(w0.len() as int) == w0,
            values_fold(vv, 0) == w@.skip(w0.len() as int) + values_fold(vv, i as int),
        decreases vv.len() - i,
    {
        let ghost w_pre = w@;
        match &vals[i] {
            JsonValue::Str(t) => {
                crate::text::append_str(w, "\t");
                crate::text::append_str(w, t.as_str());
            },
            _ => (),
        }
        crate::text::append_str(w, ",\n");
        i += 1;
        proof {
            assert(w@.take(w0.len() as int) =~= w0);
            assert(w@.skip(w0.len() as int) =~= w_pre.skip(w0.len() as int) + w@.skip(
                w_pre.len() as int,
            ));
        }
    }
    proof {
        assert(w@ =~= w0 + values_fold(vv, 0));
    }
}

/// Writes the `oneOf` case lines and reports which boolean branches were
/// seen.
#[verifier::loop_isolation(false)]
#[verifier::rlimit(100)]
#[verifier::spinoff_prover]
fn write_oneof_cases(
    w: &mut Vec<char>,
    state: &mut CodegenState,
    context: &Context,
    branches: &Vec<JsonSchema>,
    fuel: usize,
) -> (r: Result<(bool, bool), SynthError>)
    requires
        old(state).wf(),
        context.wf(),
    ensures
        final(state).wf(),
        ({
            let o = oneof_fold(context.map(), old(state).ident_map(), branches@, 0, fuel as nat);
            &&& final(w)@ == old(w)@ + o.text
            &&& final(state).ident_map() == o.idents
            &&& (match o.fault {
                None => r matches Ok(fl) && fl.0 == has_true_branch(
                    context.map(),
                    branches@,
                    branches@.len() as int,
                ) && fl.1 == has_false_branch(context.map(), branches@, branches@.len() as int),
                Some(e) => r == Err::<(bool, bool), SynthError>(e),
            })
        }),
{
    let ghost store_m = context.map();
    let ghost bv = branches@;
    let ghost w0 = w@;
    let ghost total = oneof_fold(store_m, state.ident_map(), bv, 0, fuel as nat);
    let mut wrote_true: bool = false;
    let mut wrote_false: bool = false;
    let mut i: usize = 0;
    while i < branches.len()
        invariant
            i <= bv.len(),
            state.wf(),
            w0.len() <= w@.len(),
            w@.take(w0.len() as int) == w0,
            wrote_true == has_true_branch(store_m, bv, i as int),
            wrote_false == has_false_branch(store_m, bv, i as int),
            ({
                let rest = oneof_fold(store_m, state.ident_map(), bv, i as int, fuel as nat);
                &&& total.text == w@.skip(w0.len() as int) + rest.text
                &&& total.idents == rest.idents
                &&& total.fault == rest.fault
            }),
        decreases bv.len() - i,
    {
        let ghost w_pre = w@;
        let ghost gi = i as int;
        match &branches[i] {
            JsonSchema::Resolved(url) => {
                match context.schema(url) {
                    None => {
                        proof {
                            assert(total.text =~= w@.skip(w0.len() as int));
                            assert(w@ =~= w0 + total.text);
                        }
                        return Err(SynthError::UnsupportedSchemaShape);
                    },
                    Some(ResolvedJsonSchema::Bool(b)) => {
                        if *b {
                            wrote_true = true;
                        } else {
                            wrote_false = true;
                        }
                        crate::text::append_str(w, ",\n");
                        proof {
                            assert(w@.take(w0.len() as int) =~= w0);
                            assert(w@.skip(w0.len() as int) =~= w_pre.skip(w0.len() as int)
                                + w@.skip(w_pre.len() as int));
                            assert(has_true_branch(store_m, bv, gi + 1) == (has_true_branch(
                                store_m,
                                bv,
                                gi,
                            ) || branch_bool(store_m, bv[gi]) == Some(true)));
                            assert(has_false_branch(store_m, bv, gi + 1) == (has_false_branch(
                                store_m,
                                bv,
                                gi,
                            ) || branch_bool(store_m, bv[gi]) == Some(false)));
                        }
                    },
                    Some(ResolvedJsonSchema::Object(kws2)) => {
                        let name = resolve_rust_ident(state, kws2, url);
                        crate::text::append_str(w, "\t");
                        crate::text::append_str(w, name.as_str());
                        crate::text::append_str(w, "(");
                        crate::text::append_str(w, name.as_str());
                        crate::text::append_str(w, ")");
                        crate::text::append_str(w, ",\n");
                        proof {
                            assert(w@.take(w0.len() as int) =~= w0);
                            assert(w@.skip(w0.len() as int) =~= w_pre.skip(w0.len() as int)
                                + w@.skip(w_pre.len() as int));
                            assert(has_true_branch(store_m, bv, gi + 1) == has_true_branch(
                                store_m,
                                bv,
                                gi,
                            ));
                            assert(has_false_branch(store_m, bv, gi + 1) == has_false_branch(
                                store_m,
                                bv,
                                gi,
                            ));
                        }
                    },
                }
            },
            _ => {
                proof {
                    assert(total.text =~= w@.skip(w0.len() as int));
                    assert(w@ =~= w0 + total.text);
                }
                return Err(SynthError::UnsupportedSchemaShape);
            },
        }
        i += 1;
    }
    proof {
        assert(total.text =~= w@.skip(w0.len() as int));
        assert(w@ =~= w0 + total.text);
    }
    Ok((wrote_true, wrote_false))
}

/// Writes a closed variant declaration: one case per listed `enum` member
/// and per `oneOf` branch, then at most one catch-all case and one empty
/// case for the boolean branches seen.
#[verifier::rlimit(100)]
#[verifier::spinoff_prover]
pub fn write_enum(
    w: &mut Vec<char>,
    state: &mut CodegenState,
    context: &Context,
    keywords: &Keywords,
    location: &SchemaUrl,
    fuel: usize,
) -> (r: Result<(), SynthError>)
    requires
        old(state).wf(),
        context.wf(),
    ensures
        final(state).wf(),
        ({
            let o = enum_step(
                context.map(),
                old(state).ident_map(),
                *keywords,
                location.key(),
                fuel as nat,
            );
            &&& final(w)@ == old(w)@ + o.text
            &&& final(state).ident_map() == o.idents
            &&& r == (match o.fault {
                None => Ok::<(), SynthError>(()),
                Some(e) => Err::<(), SynthError>(e),
            })
        }),
{
    let name = resolve_rust_ident(state, keywords, location);
    crate::text::append_str(w, "#[derive(::serde::Deserialize, ::serde::Serialize)]\n");
    crate::text::append_str(w, "pub enum ");
    crate::text::append_str(w, name.as_str());
    crate::text::append_str(w, " {\n");
    if let Some(vals) = &keywords.enum_ {
        write_enum_values(w, &vals.0);
    }
    if let Some(one_of) = &keywords.one_of {
        match write_oneof_cases(w, state, context, &one_of.0, fuel) {
            Ok((wrote_true, wrote_false)) => {
                if wrote_true {
                    crate::text::append_str(w, "\tValue(serde_json::Value),\n");
                }
                if wrote_false {
                    crate::text::append_str(w, "\tEmpty,\n");
                }
            },
            Err(e) => {
                return Err(e);
            },
        }
    }
    crate::text::append_str(w, "}\n");
    Ok(())
}

/// Writes a record declaration.
#[verifier::rlimit(100)]
#[verifier::spinoff_prover]
pub fn write_struct(
    w: &mut Vec<char>,
    state: &mut CodegenState,
    context: &Context,
    keywords: &Keywords,
    location: &SchemaUrl,
    fuel: usize,
) -> (r: Result<(), SynthError>)
    requires
        old(state).wf(),
        context.wf(),
    ensures
        final(state).wf(),
        ({
            let o = struct_step(
                context.map(),
                old(state).ident_map(),
                *keywords,
                *location,
                fuel as nat,
            );
            &&& final(w)@ == old(w)@ + o.text
            &&& final(state).ident_map() == o.idents
            &&& r == (match o.fault {
                None => Ok::<(), SynthError>(()),
                Some(e) => Err::<(), SynthError>(e),
            })
        }),
{
    let name = resolve_rust_ident(state, keywords, location);
    crate::text::append_str(w, "/// ");
    let rendered = location.render();
    crate::text::append_str(w, rendered.as_str());
    crate::text::append_str(w, "\n");
    crate::text::append_str(w, "#[derive(::serde::Deserialize, ::serde::Serialize)]\n");
    crate::text::append_str(w, "pub struct ");
    crate::text::append_str(w, name.as_str());
    crate::text::append_str(w, " {\n");
    match write_fields(w, state, context, keywords, fuel) {
        Ok(()) => {
            crate::text::append_str(w, "}\n");
            Ok(())
        },
        Err(e) => Err(e),
    }
}

/// Writes a singleton declaration for a `const`-bearing node.
pub fn write_constant(
    w: &mut Vec<char>,
    state: &mut CodegenState,
    keywords: &Keywords,
    location: &SchemaUrl,
) -> (r: Result<(), SynthError>)
    requires
        old(state).wf(),
    ensures
        final(state).wf(),
        ({
            let o = const_step(old(state).ident_map(), *keywords, location.key());
            &&& final(w)@ == old(w)@ + o.text
            &&& final(state).ident_map() == o.idents
            &&& r is Ok
        }),
{
    let name = resolve_rust_ident(state, keywords, location);
    crate::text::append_str(w, "#[derive(::serde::Deserialize, ::serde::Serialize)]\n");
    crate::text::append_str(w, "pub struct ");
    crate::text::append_str(w, name.as_str());
    crate::text::append_str(w, ";\n");
    Ok(())
}

/// Reserved for variant layouts not yet synthesized; writes nothing.
pub fn write_variants(w: &mut Vec<char>, state: &mut CodegenState) -> (r: Result<(), SynthError>)
    ensures
        final(w)@ == old(w)@,
        *final(state) == *old(state),
        r is Ok,
{
    Ok(())
}

/// Writes the declaration, if any, for the node stored at `location`,
/// following the decision table.
#[verifier::rlimit(100)]
#[verifier::spinoff_prover]
pub fn generate_rust_type(
    w: &mut Vec<char>,
    state: &mut CodegenState,
    context: &Context,
    location: &SchemaUrl,
    fuel: usize,
) -> (r: Result<(), SynthError>)
    requires
        old(state).wf(),
        context.wf(),
    ensures
        final(state).wf(),
        ({
            let o = decl_step(context.map(), old(state).ident_map(), *location, fuel as nat);
            &&& final(w)@ == old(w)@ + o.text
            &&& final(state).ident_map() == o.idents
            &&& (r is Ok <==> o.fault is None)
            &&& (r matches Err(e) ==> o.fault == Some(e))
        }),
{
    let ghost o = decl_step(context.map(), old(state).ident_map(), *location, fuel as nat);
    match context.schema(location) {
        None => {
            proof {
                assert(w@ =~= old(w)@ + o.text);
            }
            Ok(())
        },
        Some(ResolvedJsonSchema::Bool(_)) => {
            proof {
                assert(w@ =~= old(w)@ + o.text);
            }
            Ok(())
        },
        Some(ResolvedJsonSchema::Object(kws)) => {
            if kws.constant.is_some() {
                write_constant(w, state, kws, location)
            } else if kws.enum_.is_some() || kws.one_of.is_some() {
                write_enum(w, state, context, kws, location, fuel)
            } else {
                match &kws.type_ {
                    Some(TypeKeyword::Multiple(_)) => write_enum(
                        w,
                        state,
                        context,
                        kws,
                        location,
                        fuel,
                    ),
                    Some(TypeKeyword::Single(t)) => {
                        if crate::text::str_eq(t.as_str(), "object") {
                            write_struct(w, state, context, kws, location, fuel)
                        } else {
                            proof {
                                assert(w@ =~= old(w)@ + o.text);
                            }
                            Ok(())
                        }
                    },
                    None => {
                        if kws.props.is_some() || kws.all_of.is_some() {
                            write_struct(w, state, context, kws, location, fuel)
                        } else {
                            crate::text::append_str(w, "// ");
                            let rendered = location.render();
                            crate::text::append_str(w, rendered.as_str());
                            crate::text::append_str(w, "\n");
                            proof {
                                assert(w@ =~= old(w)@ + o.text);
                            }
                            Ok(())
                        }
                    },
                }
            }
        },
    }
}

/// The fuel one run hands each declaration: enough for element-type chains
/// as long as the whole store, and one more.
pub open spec fn run_fuel(n: nat) -> nat {
    if n < usize::MAX as nat {
        n + 1
    } else {
        n
    }
}

/// Synthesizes one declaration per stored location, in store order, and
/// reports the aggregated per-location faults alongside the produced text:
/// a location that fails contributes a fault and no text, and never stops
/// the run.
#[verifier::loop_isolation(false)]
#[verifier::rlimit(100)]
#[verifier::spinoff_prover]
pub fn generate_rust_code(context: &Context) -> (r: (String, Vec<(SchemaUrl, SynthError)>))
    requires
        context.wf(),
    ensures
        ({
            let o = gen_fold(
                context.map(),
                Map::empty(),
                context.locations_seq(),
                0,
                run_fuel(context.locations_seq().len()),
            );
            r.0@ == o.text && r.1@ == o.faults
        }),
{
    let mut state = CodegenState::new();
    let locs = context.locations();
    let fuel: usize = if locs.len() < usize::MAX {
        locs.len() + 1
    } else {
        locs.len()
    };
    let ghost store_m = context.map();
    let ghost lv = locs@;
    let ghost fm = fuel as nat;
    let ghost total = gen_fold(store_m, Map::empty(), lv, 0, fm);
    let mut out: Vec<char> = Vec::new();
    let mut faults: Vec<(SchemaUrl, SynthError)> = Vec::new();
    let mut i: usize = 0;
    while i < locs.len()
        invariant
            i <= lv.len(),
            state.wf(),
            ({
                let rest = gen_fold(store_m, state.ident_map(), lv, i as int, fm);
                &&& total.text == out@ + rest.text
                &&& total.idents == rest.idents
                &&& total.faults == faults@ + rest.faults
            }),
        decreases lv.len() - i,
    {
        let ghost gi = i as int;
        let ghost idents_pre = state.ident_map();
        let mut buf: Vec<char> = Vec::new();
        match generate_rust_type(&mut buf, &mut state, context, &locs[i], fuel) {
            Ok(()) => {
                out.append(&mut buf);
            },
            Err(e) => {
                faults.push((locs[i].clone(), e));
                proof {
                    let d = decl_step(store_m, idents_pre, lv[gi], fm);
                    assert(faults@ =~= faults@.drop_last().push((lv[gi], e)));
                    assert(faults@.drop_last() + (seq![(lv[gi], e)] + gen_fold(
                        store_m,
                        state.ident_map(),
                        lv,
                        gi + 1,
                        fm,
                    ).faults) =~= faults@ + gen_fold(store_m, state.ident_map(), lv, gi + 1, fm).faults);
                }
            },
        }
        i += 1;
    }
    proof {
        assert(total.text =~= out@);
        assert(total.faults =~= faults@);
    }
    (crate::text::chars_string(&out), faults)
}

} // verus!
