//! Generic typed extension registry.
//!
//! Maps type URL → factory → typed instance. The builder is the only way to
//! add factories; a built registry is immutable.

use vstd::prelude::*;
use crate::factory::{acts_like, BoxedFactory};
use crate::order::{sort_strs, sorted_strictly, str_eq};
use vstd::string::StringExecFns;

verus! {

/// Typed structured data envelope — a type URL plus an opaque value.
///
/// The type URL identifies the schema; the value is interpreted by whatever
/// consumes that type URL (a factory, a runtime).
#[derive(Debug, Clone)]
pub struct TypedStruct {
    /// Type URL identifying the schema (e.g. `mox.geist.processors.v1.AccessControl`).
    pub type_url: String,
    /// Opaque structured value, interpreted by the consumer of the type URL.
    pub value: serde_json::Value,
}

/// Error returned by [`TypedRegistry::create`] and [`TypedRegistry::create_all`].
#[derive(Debug)]
pub enum RegistryError<E> {
    /// No factory registered for this type URL.
    UnknownTypeUrl { type_url: String, available: Vec<String> },
    /// Factory returned an error during instantiation.
    Factory { type_url: String, source: E },
}

/// The texts of a list of strings.
pub open spec fn texts(v: Seq<String>) -> Seq<Seq<char>> {
    v.map_values(|s: String| s@)
}

/// `listed` names every registered type URL once, sorted.
pub open spec fn lists_type_urls<F>(table: Map<Seq<char>, F>, listed: Seq<Seq<char>>) -> bool {
    &&& sorted_strictly(listed)
    &&& listed.to_set() == table.dom()
}

/// `out` is what `create` answers for `type_url` when its factory gave `produced`.
pub open spec fn wraps_factory_result<T, E>(
    type_url: Seq<char>,
    produced: Result<T, E>,
    out: Result<T, RegistryError<E>>,
) -> bool {
    match produced {
        Ok(t) => out == Ok::<T, RegistryError<E>>(t),
        Err(e) => match out {
            Err(RegistryError::Factory { type_url: u, source }) => u@ == type_url && source == e,
            _ => false,
        },
    }
}

/// `out` is a possible answer of `create(type_url, value)` on a registry with
/// these factories: the unknown-URL error listing every registered URL, or
/// the wrapped outcome of one call of the registered factory.
pub open spec fn creation_outcome<T, E>(
    table: Map<Seq<char>, BoxedFactory<T, E>>,
    type_url: Seq<char>,
    value: serde_json::Value,
    out: Result<T, RegistryError<E>>,
) -> bool {
    if table.contains_key(type_url) {
        exists|produced: Result<T, E>|
            #[trigger] table[type_url].yields(value, produced) && wraps_factory_result(
                type_url,
                produced,
                out,
            )
    } else {
        match out {
            Err(RegistryError::UnknownTypeUrl { type_url: u, available }) => {
                &&& u@ == type_url
                &&& lists_type_urls(table, texts(available@))
            },
            _ => false,
        }
    }
}

/// `out` is what `create_all(entries)` answers when the calls of `create` on
/// the first `steps.len()` entries answered `steps`: creation stops at the
/// first error, which is the answer; otherwise every entry was created.
pub open spec fn pipeline_outcome<T, E>(
    table: Map<Seq<char>, BoxedFactory<T, E>>,
    entries: Seq<TypedStruct>,
    steps: Seq<Result<T, RegistryError<E>>>,
    out: Result<Vec<T>, RegistryError<E>>,
) -> bool {
    &&& steps.len() <= entries.len()
    &&& forall|i: int|
        0 <= i < steps.len() ==> creation_outcome(
            table,
            entries[i].type_url@,
            entries[i].value,
            #[trigger] steps[i],
        )
    &&& forall|i: int| 0 <= i < steps.len() - 1 ==> (#[trigger] steps[i]) is Ok
    &&& match out {
        Ok(made) => {
            &&& steps.len() == entries.len()
            &&& forall|i: int| 0 <= i < steps.len() ==> (#[trigger] steps[i]) is Ok
            &&& made@ == steps.map_values(|s: Result<T, RegistryError<E>>| s->Ok_0)
        },
        Err(e) => steps.len() > 0 && steps.last() == Err::<T, RegistryError<E>>(e),
    }
}

/// Every factory that `create_all(entries)` may call accepts its entry's value.
pub open spec fn accepts_entries<T, E>(
    table: Map<Seq<char>, BoxedFactory<T, E>>,
    entries: Seq<TypedStruct>,
) -> bool {
    forall|i: int|
        0 <= i < entries.len() && table.contains_key(#[trigger] entries[i].type_url@)
            ==> table[entries[i].type_url@].accepts(entries[i].value)
}

spec fn entry_urls<T, E>(entries: Seq<(String, BoxedFactory<T, E>)>) -> Seq<Seq<char>> {
    entries.map_values(|e: (String, BoxedFactory<T, E>)| e.0@)
}

spec fn table_of<T, E>(entries: Seq<(String, BoxedFactory<T, E>)>) -> Map<
    Seq<char>,
    BoxedFactory<T, E>,
> {
    Map::new(
        |k: Seq<char>| entry_urls(entries).contains(k),
        |k: Seq<char>| entries[entry_urls(entries).index_of(k)].1,
    )
}

proof fn lemma_table_at<T, E>(entries: Seq<(String, BoxedFactory<T, E>)>, i: int)
    requires
        entry_urls(entries).no_duplicates(),
        0 <= i < entries.len(),
    ensures
        table_of(entries).contains_key(entries[i].0@),
        table_of(entries)[entries[i].0@] == entries[i].1,
{
    let urls = entry_urls(entries);
    assert(urls[i] == entries[i].0@);
    let j = urls.index_of(entries[i].0@);
    assert(urls[j] == urls[i]);
}

proof fn lemma_table_dom<T, E>(entries: Seq<(String, BoxedFactory<T, E>)>)
    requires
        entry_urls(entries).no_duplicates(),
    ensures
        table_of(entries).dom() == entry_urls(entries).to_set(),
        table_of(entries).len() == entries.len(),
{
    assert(table_of(entries).dom() =~= entry_urls(entries).to_set());
    entry_urls(entries).unique_seq_to_set();
}

proof fn lemma_table_push<T, E>(
    entries: Seq<(String, BoxedFactory<T, E>)>,
    e: (String, BoxedFactory<T, E>),
)
    requires
        entry_urls(entries).no_duplicates(),
        !entry_urls(entries).contains(e.0@),
    ensures
        entry_urls(entries.push(e)).no_duplicates(),
        table_of(entries.push(e)) == table_of(entries).insert(e.0@, e.1),
{
    let after = entries.push(e);
    let urls = entry_urls(entries);
    let urls2 = entry_urls(after);
    assert(urls2 =~= urls.push(e.0@));
    assert forall|i: int, j: int|
        0 <= i < urls2.len() && 0 <= j < urls2.len() && i != j implies urls2[i] != urls2[j] by {
        if i < urls.len() && j < urls.len() {
            assert(urls[i] != urls[j]);
        } else if i < urls.len() {
            assert(urls[i] == urls2[i]);
        } else if j < urls.len() {
            assert(urls[j] == urls2[j]);
        }
    }
    let m1 = table_of(after);
    let m2 = table_of(entries).insert(e.0@, e.1);
    lemma_table_dom(after);
    lemma_table_dom(entries);
    assert(urls2.to_set() =~= urls.to_set().insert(e.0@)) by {
        assert forall|k: Seq<char>| urls.to_set().insert(e.0@).contains(k) implies urls2.to_set().contains(k) by {
            if k == e.0@ {
                assert(urls2[urls.len() as int] == k);
            } else {
                let j = choose|j: int| 0 <= j < urls.len() && urls[j] == k;
                assert(urls2[j] == k);
            }
        }
        assert forall|k: Seq<char>| urls2.to_set().contains(k) implies urls.to_set().insert(e.0@).contains(k) by {
            let j = choose|j: int| 0 <= j < urls2.len() && urls2[j] == k;
            if j < urls.len() {
                assert(urls[j] == k);
            }
        }
    }
    assert(m1.dom() =~= m2.dom());
    assert forall|k: Seq<char>| #[trigger] m1.contains_key(k) implies m1[k] == m2[k] by {
        assert(urls2.to_set().contains(k));
        let j = choose|j: int| 0 <= j < urls2.len() && urls2[j] == k;
        lemma_table_at(after, j);
        if j < urls.len() {
            lemma_table_at(entries, j);
        }
    }
    assert(m1 =~= m2);
}

proof fn lemma_table_update<T, E>(
    entries: Seq<(String, BoxedFactory<T, E>)>,
    i: int,
    e: (String, BoxedFactory<T, E>),
)
    requires
        entry_urls(entries).no_duplicates(),
        0 <= i < entries.len(),
        entries[i].0@ == e.0@,
    ensures
        entry_urls(entries.update(i, e)).no_duplicates(),
        table_of(entries.update(i, e)) == table_of(entries).insert(e.0@, e.1),
{
    let after = entries.update(i, e);
    let urls = entry_urls(entries);
    let urls2 = entry_urls(after);
    assert(urls2 =~= urls);
    let m1 = table_of(after);
    let m2 = table_of(entries).insert(e.0@, e.1);
    lemma_table_dom(after);
    lemma_table_dom(entries);
    assert(urls.to_set().contains(e.0@)) by {
        assert(urls[i] == e.0@);
    }
    assert(m1.dom() =~= m2.dom());
    assert forall|k: Seq<char>| #[trigger] m1.contains_key(k) implies m1[k] == m2[k] by {
        assert(urls2.to_set().contains(k));
        let j = choose|j: int| 0 <= j < urls2.len() && urls2[j] == k;
        lemma_table_at(after, j);
        if k != e.0@ {
            lemma_table_at(entries, j);
        }
    }
    assert(m1 =~= m2);
}

/// Where the factory for `type_url` stands in `factories`, if anywhere.
fn position<T, E>(factories: &Vec<(String, BoxedFactory<T, E>)>, type_url: &str) -> (r: Option<
    usize,
>)
    ensures
        match r {
            Some(i) => i < factories@.len() && factories@[i as int].0@ == type_url@,
            None => !entry_urls(factories@).contains(type_url@),
        },
{
    let mut i: usize = 0;
    while i < factories.len()
        invariant
            i <= factories@.len(),
            forall|j: int| 0 <= j < i ==> factories@[j].0@ != type_url@,
        decreases factories@.len() - i,
    {
        if str_eq(factories[i].0.as_str(), type_url) {
            return Some(i);
        }
        i = i + 1;
    }
    proof {
        if entry_urls(factories@).contains(type_url@) {
            let j = choose|j: int|
                0 <= j < entry_urls(factories@).len() && entry_urls(factories@)[j] == type_url@;
            assert(factories@[j].0@ == type_url@);
        }
    }
    None
}

/// Mutable builder for [`TypedRegistry`]. Immutable after [`build()`](Self::build).
#[verifier::reject_recursive_types(T)]
#[verifier::reject_recursive_types(E)]
pub struct TypedRegistryBuilder<T, E> {
    factories: Vec<(String, BoxedFactory<T, E>)>,
}

impl<T, E> TypedRegistryBuilder<T, E> {
    /// No type URL has two factories.
    #[verifier::type_invariant]
    spec fn urls_distinct(self) -> bool {
        entry_urls(self.factories@).no_duplicates()
    }
}

impl<T, E> View for TypedRegistryBuilder<T, E> {
    /// Each registered type URL with its factory.
    type V = Map<Seq<char>, BoxedFactory<T, E>>;

    closed spec fn view(&self) -> Self::V {
        table_of(self.factories@)
    }
}

impl<T, E> TypedRegistryBuilder<T, E> {
    /// A builder with no factories.
    pub fn new() -> (r: Self)
        ensures
            r@ == Map::<Seq<char>, BoxedFactory<T, E>>::empty(),
    {
        let r = Self { factories: Vec::new() };
        assert(r@ =~= Map::<Seq<char>, BoxedFactory<T, E>>::empty());
        r
    }

    /// Register a factory for a type URL. Last registration wins on duplicate.
    #[must_use]
    pub fn register(
        self,
        type_url: &str,
        factory: impl Fn(&serde_json::Value) -> Result<T, E> + Send + Sync + 'static,
    ) -> (r: Self)
        ensures
            r@ == self@.insert(type_url@, r@[type_url@]),
            acts_like(r@[type_url@], factory),
    {
        proof {
            use_type_invariant(&self);
        }
        let boxed = BoxedFactory::new(factory);
        let ghost stored = boxed;
        let key = type_url.to_owned();
        let ghost entry = (key, boxed);
        let mut factories = self.factories;
        let ghost before = factories@;
        match position(&factories, type_url) {
            Some(i) => {
                factories.set(i, (key, boxed));
                proof {
                    lemma_table_update(before, i as int, entry);
                }
            },
            None => {
                factories.push((key, boxed));
                proof {
                    lemma_table_push(before, entry);
                }
            },
        }
        let r = Self { factories };
        assert(r@[type_url@] == stored);
        r
    }

    /// Register a factory for a type URL that has none yet.
    #[must_use]
    pub fn register_unique(
        self,
        type_url: &str,
        factory: impl Fn(&serde_json::Value) -> Result<T, E> + Send + Sync + 'static,
    ) -> (r: Self)
        requires
            !self@.contains_key(type_url@),
        ensures
            r@ == self@.insert(type_url@, r@[type_url@]),
            acts_like(r@[type_url@], factory),
    {
        proof {
            use_type_invariant(&self);
            assert(self@.dom() == entry_urls(self.factories@).to_set()) by {
                lemma_table_dom(self.factories@);
            }
        }
        let boxed = BoxedFactory::new(factory);
        let ghost stored = boxed;
        let key = type_url.to_owned();
        let ghost entry = (key, boxed);
        let mut factories = self.factories;
        let ghost before = factories@;
        factories.push((key, boxed));
        proof {
            lemma_table_push(before, entry);
        }
        let r = Self { factories };
        assert(r@[type_url@] == stored);
        r
    }

    /// Returns true if a factory is registered for this type URL.
    pub fn contains(&self, type_url: &str) -> (r: bool)
        ensures
            r == self@.contains_key(type_url@),
    {
        proof {
            use_type_invariant(self);
            lemma_table_dom(self.factories@);
        }
        match position(&self.factories, type_url) {
            Some(i) => {
                proof {
                    lemma_table_at(self.factories@, i as int);
                }
                true
            },
            None => false,
        }
    }

    /// Freeze the registry. No further registrations possible.
    pub fn build(self) -> (r: TypedRegistry<T, E>)
        ensures
            r@ == self@,
    {
        proof {
            use_type_invariant(&self);
        }
        TypedRegistry { factories: self.factories }
    }
}

impl<T, E> Default for TypedRegistryBuilder<T, E> {
    fn default() -> (r: Self)
        ensures
            r@ == Map::<Seq<char>, BoxedFactory<T, E>>::empty(),
    {
        Self::new()
    }
}

/// Immutable typed registry. Maps type URL → factory.
///
/// Created via [`TypedRegistryBuilder::build`]. Thread-safe and shareable
/// via `Arc`.
#[verifier::reject_recursive_types(T)]
#[verifier::reject_recursive_types(E)]
pub struct TypedRegistry<T, E> {
    factories: Vec<(String, BoxedFactory<T, E>)>,
}

impl<T, E> TypedRegistry<T, E> {
    /// No type URL has two factories.
    #[verifier::type_invariant]
    spec fn urls_distinct(self) -> bool {
        entry_urls(self.factories@).no_duplicates()
    }
}

impl<T, E> View for TypedRegistry<T, E> {
    /// Each registered type URL with its factory.
    type V = Map<Seq<char>, BoxedFactory<T, E>>;

    closed spec fn view(&self) -> Self::V {
        table_of(self.factories@)
    }
}

/// The answer of `create` for `type_url` once its factory gave `produced`:
/// the instance, or the factory's error tagged with the type URL.
pub fn wrap_factory_result<T, E>(type_url: &str, produced: Result<T, E>) -> (r: Result<
    T,
    RegistryError<E>,
>)
    ensures
        wraps_factory_result(type_url@, produced, r),
{
    match produced {
        Ok(t) => Ok(t),
        Err(source) => Err(RegistryError::Factory { type_url: type_url.to_owned(), source }),
    }
}

impl<T, E> TypedRegistry<T, E> {
    /// Instantiate a value from a type URL and config.
    pub fn create(&self, type_url: &str, value: &serde_json::Value) -> (r: Result<
        T,
        RegistryError<E>,
    >)
        requires
            self@.contains_key(type_url@) ==> self@[type_url@].accepts(*value),
        ensures
            creation_outcome(self@, type_url@, *value, r),
    {
        proof {
            use_type_invariant(self);
            lemma_table_dom(self.factories@);
        }
        match position(&self.factories, type_url) {
            None => {
                let available = self.type_urls_owned();
                Err(RegistryError::UnknownTypeUrl { type_url: type_url.to_owned(), available })
            },
            Some(i) => {
                proof {
                    lemma_table_at(self.factories@, i as int);
                }
                let produced = self.factories[i].1.call(value);
                let r = wrap_factory_result(type_url, produced);
                assert(self@[type_url@].yields(*value, produced));
                r
            },
        }
    }

    /// Instantiate values from a list of typed struct entries.
    pub fn create_all(&self, entries: &[TypedStruct]) -> (r: Result<Vec<T>, RegistryError<E>>)
        requires
            accepts_entries(self@, entries@),
        ensures
            exists|steps: Seq<Result<T, RegistryError<E>>>|
                pipeline_outcome(self@, entries@, steps, r),
    {
        let mut made: Vec<T> = Vec::new();
        let ghost mut steps: Seq<Result<T, RegistryError<E>>> = Seq::empty();
        let mut i: usize = 0;
        while i < entries.len()
            invariant
                accepts_entries(self@, entries@),
                i <= entries@.len(),
                steps.len() == i,
                forall|j: int|
                    0 <= j < i ==> creation_outcome(
                        self@,
                        entries@[j].type_url@,
                        entries@[j].value,
                        #[trigger] steps[j],
                    ),
                forall|j: int| 0 <= j < i ==> (#[trigger] steps[j]) is Ok,
                made@ == steps.map_values(|s: Result<T, RegistryError<E>>| s->Ok_0),
            decreases entries@.len() - i,
        {
            let entry = &entries[i];
            let created = self.create(entry.type_url.as_str(), &entry.value);
            match created {
                Ok(t) => {
                    proof {
                        steps = steps.push(Ok(t));
                    }
                    made.push(t);
                    assert(made@ =~= steps.map_values(|s: Result<T, RegistryError<E>>| s->Ok_0));
                },
                Err(e) => {
                    proof {
                        steps = steps.push(Err(e));
                        assert(pipeline_outcome(self@, entries@, steps, Err(e)));
                    }
                    return Err(e);
                },
            }
            i = i + 1;
        }
        assert(pipeline_outcome(self@, entries@, steps, Ok(made)));
        Ok(made)
    }

    /// List all registered type URLs, sorted (for diagnostics).
    pub fn type_urls(&self) -> (r: Vec<&str>)
        ensures
            lists_type_urls(self@, r@.map_values(|s: &str| s@)),
            r@.len() == self@.len(),
    {
        proof {
            use_type_invariant(self);
            lemma_table_dom(self.factories@);
        }
        let mut urls: Vec<&str> = Vec::new();
        let mut i: usize = 0;
        while i < self.factories.len()
            invariant
                i <= self.factories@.len(),
                urls@.map_values(|s: &str| s@) == entry_urls(self.factories@).take(i as int),
            decreases self.factories@.len() - i,
        {
            let ghost prev = urls@;
            urls.push(self.factories[i].0.as_str());
            assert(urls@.map_values(|s: &str| s@) =~= prev.map_values(|s: &str| s@).push(
                self.factories@[i as int].0@,
            ));
            assert(entry_urls(self.factories@).take(i + 1) =~= entry_urls(self.factories@).take(
                i as int,
            ).push(self.factories@[i as int].0@));
            i = i + 1;
        }
        assert(entry_urls(self.factories@).take(i as int) =~= entry_urls(self.factories@));
        sort_strs(urls)
    }

    /// Returns the number of registered factories.
    pub fn len(&self) -> (r: usize)
        ensures
            r == self@.len(),
    {
        proof {
            use_type_invariant(self);
            lemma_table_dom(self.factories@);
        }
        self.factories.len()
    }

    /// Returns true if no factories are registered.
    pub fn is_empty(&self) -> (r: bool)
        ensures
            r == (self@.len() == 0),
    {
        proof {
            use_type_invariant(self);
            lemma_table_dom(self.factories@);
        }
        self.factories.len() == 0
    }

    /// Sorted owned type URLs (for error messages).
    fn type_urls_owned(&self) -> (r: Vec<String>)
        ensures
            lists_type_urls(self@, texts(r@)),
    {
        let urls = self.type_urls();
        let mut owned: Vec<String> = Vec::new();
        let mut i: usize = 0;
        while i < urls.len()
            invariant
                i <= urls@.len(),
                texts(owned@) == urls@.map_values(|s: &str| s@).take(i as int),
            decreases urls@.len() - i,
        {
            let ghost prev = owned@;
            owned.push(urls[i].to_owned());
            assert(texts(owned@) =~= texts(prev).push(urls@[i as int]@));
            assert(urls@.map_values(|s: &str| s@).take(i + 1) =~= urls@.map_values(|s: &str| s@).take(
                i as int,
            ).push(urls@[i as int]@));
            i = i + 1;
        }
        assert(urls@.map_values(|s: &str| s@).take(i as int) =~= urls@.map_values(|s: &str| s@));
        owned
    }
}

} // verus!

verus! {

/// `items` written one after another with `sep` between each two.
pub open spec fn joined(items: Seq<Seq<char>>, sep: Seq<char>) -> Seq<char>
    decreases items.len(),
{
    if items.len() == 0 {
        Seq::empty()
    } else if items.len() == 1 {
        items[0]
    } else {
        joined(items.drop_last(), sep) + sep + items.last()
    }
}

/// The message of `err`, where `source_text` is how the factory's own error
/// reads.
pub open spec fn error_message<E>(err: RegistryError<E>, source_text: Seq<char>) -> Seq<char> {
    match err {
        RegistryError::UnknownTypeUrl { type_url, available } => "unknown type URL '"@ + type_url@
            + "'. registered: ["@ + joined(texts(available@), ", "@) + "]"@,
        RegistryError::Factory { type_url, .. } => "factory error for '"@ + type_url@ + "': "@
            + source_text,
    }
}

impl<E> RegistryError<E> {
    /// The message of this error; `source_text` is how the factory's own
    /// error reads, and only a factory error uses it.
    pub fn describe(&self, source_text: &str) -> (s: String)
        ensures
            s@ == error_message(*self, source_text@),
    {
        let mut s = String::new();
        match self {
            RegistryError::UnknownTypeUrl { type_url, available } => {
                s.append("unknown type URL '");
                s.append(type_url.as_str());
                s.append("'. registered: [");
                let ghost head = s@;
                let ghost names = texts(available@);
                let mut i: usize = 0;
                while i < available.len()
                    invariant
                        i <= available@.len(),
                        names == texts(available@),
                        s@ == head + joined(names.take(i as int), ", "@),
                    decreases available@.len() - i,
                {
                    let ghost before = s@;
                    if i > 0 {
                        s.append(", ");
                    }
                    s.append(available[i].as_str());
                    assert(names.take(i + 1).drop_last() =~= names.take(i as int));
                    if i == 0 {
                        assert(joined(names.take(0), ", "@) =~= Seq::<char>::empty());
                        assert(before =~= head);
                    }
                    i = i + 1;
                }
                assert(names.take(i as int) =~= names);
                s.append("]");
            },
            RegistryError::Factory { type_url, .. } => {
                s.append("factory error for '");
                s.append(type_url.as_str());
                s.append("': ");
                s.append(source_text);
            },
        }
        s
    }
}

impl RegistryError<String> {
    /// The message of this error; a factory error reads as its own text.
    pub fn to_string(&self) -> (s: String)
        ensures
            s@ == error_message(*self, match *self {
                RegistryError::Factory { source, .. } => source@,
                _ => Seq::empty(),
            }),
    {
        match self {
            RegistryError::Factory { source, .. } => self.describe(source.as_str()),
            RegistryError::UnknownTypeUrl { .. } => self.describe(""),
        }
    }
}

} // verus!
