//! Component manifest — the structural surface.
//!
//! A manifest holds identity, source, ports and relations: structure only.
//! Skills are referenced through `relations["skills"]`; governance is kept
//! outside the manifest.
//!
//! Bridge: `Manifest.type_url` = `TypedStruct.type_url`.

use std::collections::HashMap;
use vstd::prelude::*;
use vstd::string::StrSliceExecFns;

verus! {

/// Component manifest — the structural surface for composition and discovery.
///
/// Five fields: identity (`type_url`), location (`source`), port declarations
/// (`required`, `provides`), and extensible typed edges (`relations`).
#[derive(Debug, Clone)]
pub struct Manifest {
    /// Globally unique identity. Bridges to the runtime layer via
    /// `TypedStruct.type_url`. Format: `<namespace>.<version>.<Resource>`.
    pub type_url: String,
    /// Where the component lives: a Git URL or a local path.
    pub source: String,
    /// Input type URLs this component needs (port declarations).
    pub required: Vec<String>,
    /// Output type URLs this component provides (port declarations).
    pub provides: Vec<String>,
    /// Extensible typed relations with convention-based keys (`skills`,
    /// `tested_with`, `replaces`, `depends_on`); stored, never interpreted.
    pub relations: HashMap<String, Vec<String>>,
}

/// The list given, or none.
pub open spec fn list_or_empty(v: Option<Vec<String>>) -> Seq<String> {
    match v {
        Some(v) => v@,
        None => Seq::empty(),
    }
}

/// The relations given, or none.
pub open spec fn relations_or_empty(m: Option<HashMap<String, Vec<String>>>) -> Map<
    String,
    Vec<String>,
> {
    match m {
        Some(m) => m@,
        None => Map::empty(),
    }
}

/// Component kind. It is a convention of the type URL's namespace, not a
/// field of the manifest: `cix.capability.*` is a capability (stateless,
/// input → output), `cix.agents.*` an agent (autonomous, session-based),
/// `cix.skills.*` a skill (knowledge, no execution), `cix.flows.*` a flow
/// (a composition of components).
#[derive(Debug, Clone, Copy, PartialEq, Eq, Structural)]
pub enum Kind {
    Capability,
    Agent,
    Skill,
    Flow,
}

/// The type URL prefix of a kind's namespace.
pub open spec fn kind_prefix(kind: Kind) -> Seq<char> {
    match kind {
        Kind::Capability => "cix.capability."@,
        Kind::Agent => "cix.agents."@,
        Kind::Skill => "cix.skills."@,
        Kind::Flow => "cix.flows."@,
    }
}

/// The kind whose namespace a type URL is in, if any.
pub open spec fn kind_of(type_url: Seq<char>) -> Option<Kind> {
    if kind_prefix(Kind::Capability).is_prefix_of(type_url) {
        Some(Kind::Capability)
    } else if kind_prefix(Kind::Agent).is_prefix_of(type_url) {
        Some(Kind::Agent)
    } else if kind_prefix(Kind::Skill).is_prefix_of(type_url) {
        Some(Kind::Skill)
    } else if kind_prefix(Kind::Flow).is_prefix_of(type_url) {
        Some(Kind::Flow)
    } else {
        None
    }
}

/// Whether `text` begins with `prefix`.
pub fn starts_with(text: &str, prefix: &str) -> (r: bool)
    ensures
        r == prefix@.is_prefix_of(text@),
{
    let n = prefix.unicode_len();
    if text.unicode_len() < n {
        return false;
    }
    let mut i: usize = 0;
    while i < n
        invariant
            n == prefix@.len(),
            n <= text@.len(),
            i <= n,
            forall|j: int| 0 <= j < i ==> prefix@[j] == text@[j],
        decreases n - i,
    {
        if prefix.get_char(i) != text.get_char(i) {
            return false;
        }
        i = i + 1;
    }
    assert(prefix@ =~= text@.subrange(0, n as int));
    true
}

impl Kind {
    /// The type URL prefix of this kind's namespace.
    pub fn namespace(&self) -> (r: &'static str)
        ensures
            r@ == kind_prefix(*self),
            r@ == match *self {
                Kind::Capability => "cix.capability."@,
                Kind::Agent => "cix.agents."@,
                Kind::Skill => "cix.skills."@,
                Kind::Flow => "cix.flows."@,
            },
    {
        match self {
            Kind::Capability => "cix.capability.",
            Kind::Agent => "cix.agents.",
            Kind::Skill => "cix.skills.",
            Kind::Flow => "cix.flows.",
        }
    }

    /// The kind whose namespace `type_url` is in, if any.
    pub fn of_type_url(type_url: &str) -> (r: Option<Kind>)
        ensures
            r == kind_of(type_url@),
    {
        if starts_with(type_url, Kind::Capability.namespace()) {
            Some(Kind::Capability)
        } else if starts_with(type_url, Kind::Agent.namespace()) {
            Some(Kind::Agent)
        } else if starts_with(type_url, Kind::Skill.namespace()) {
            Some(Kind::Skill)
        } else if starts_with(type_url, Kind::Flow.namespace()) {
            Some(Kind::Flow)
        } else {
            None
        }
    }
}

impl Manifest {
    /// A manifest from its identity and location; ports and relations that
    /// are not given are empty.
    pub fn new(
        type_url: String,
        source: String,
        required: Option<Vec<String>>,
        provides: Option<Vec<String>>,
        relations: Option<HashMap<String, Vec<String>>>,
    ) -> (r: Manifest)
        ensures
            r.type_url == type_url,
            r.source == source,
            r.required@ == list_or_empty(required),
            r.provides@ == list_or_empty(provides),
            r.relations@ == relations_or_empty(relations),
            required matches Some(v) ==> r.required@ == v@,
            required is None ==> r.required@ == Seq::<String>::empty(),
            provides matches Some(v) ==> r.provides@ == v@,
            provides is None ==> r.provides@ == Seq::<String>::empty(),
            relations matches Some(m) ==> r.relations@ == m@,
            relations is None ==> r.relations@ == Map::<String, Vec<String>>::empty(),
    {
        let required = match required {
            Some(v) => v,
            None => Vec::new(),
        };
        let provides = match provides {
            Some(v) => v,
            None => Vec::new(),
        };
        let relations = match relations {
            Some(m) => m,
            None => HashMap::new(),
        };
        Manifest { type_url, source, required, provides, relations }
    }
}

} // verus!
