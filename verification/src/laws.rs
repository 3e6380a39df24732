//! What holds of the registry across its operations.

use vstd::prelude::*;
use crate::factory::{acts_like, BoxedFactory};
use crate::json::json_check_answer;
use crate::manifest::{kind_of, kind_prefix, list_or_empty, relations_or_empty, Kind};
use crate::order::{bytes_lt, lemma_text_lt_order, sorted_strictly, text_lt};
use std::collections::HashMap;
use vstd::utf8::encode_utf8;
use crate::registry::{
    error_message,
    joined,
    texts,
    creation_outcome,
    lists_type_urls,
    pipeline_outcome,
    wraps_factory_result,
    RegistryError,
    TypedStruct,
};

verus! {

/// After a factory is registered under a type URL, creating from that URL
/// calls that factory (the last registration wins), and creating from any
/// other registered URL answers as before.
pub proof fn law_create_uses_last_registration<T, E>(
    table: Map<Seq<char>, BoxedFactory<T, E>>,
    type_url: Seq<char>,
    stored: BoxedFactory<T, E>,
    other_url: Seq<char>,
    value: serde_json::Value,
    out: Result<T, RegistryError<E>>,
)
    ensures
        creation_outcome(table.insert(type_url, stored), type_url, value, out) ==> exists|
            produced: Result<T, E>,
        |
            #[trigger] stored.yields(value, produced) && wraps_factory_result(
                type_url,
                produced,
                out,
            ),
        other_url != type_url && table.contains_key(other_url) ==> (creation_outcome(
            table.insert(type_url, stored),
            other_url,
            value,
            out,
        ) == creation_outcome(table, other_url, value, out)),
{
    if creation_outcome(table.insert(type_url, stored), type_url, value, out) {
        let m = table.insert(type_url, stored);
        assert(m.contains_key(type_url));
        assert(m[type_url] == stored);
    }
    if other_url != type_url && table.contains_key(other_url) {
        let m = table.insert(type_url, stored);
        assert(m.contains_key(other_url));
        assert(m[other_url] == table[other_url]);
    }
}

/// Creating from a registered type URL never answers that the URL is
/// unknown; creating from an unregistered one always does.
pub proof fn law_unknown_exactly_when_unregistered<T, E>(
    table: Map<Seq<char>, BoxedFactory<T, E>>,
    type_url: Seq<char>,
    value: serde_json::Value,
    out: Result<T, RegistryError<E>>,
)
    requires
        creation_outcome(table, type_url, value, out),
    ensures
        (out matches Err(RegistryError::UnknownTypeUrl { .. })) <==> !table.contains_key(type_url),
{
    if table.contains_key(type_url) {
        let produced = choose|produced: Result<T, E>|
            #[trigger] table[type_url].yields(value, produced) && wraps_factory_result(
                type_url,
                produced,
                out,
            );
        assert(wraps_factory_result(type_url, produced, out));
    }
}

proof fn lemma_sorted_head_is_least(s: Seq<Seq<char>>, x: Seq<char>)
    requires
        sorted_strictly(s),
        s.len() > 0,
        s.contains(x),
    ensures
        x == s[0] || text_lt(s[0], x),
{
    let k = choose|k: int| 0 <= k < s.len() && s[k] == x;
    if k > 0 {
        assert(text_lt(s[0], s[k]));
    }
}

/// A sorted listing of a set of type URLs is unique: any two listings of the
/// same registry are the same sequence, with one entry per registered URL.
/// So the URLs an unknown-URL error lists are exactly `type_urls()`.
pub proof fn law_listing_is_unique<F>(table: Map<Seq<char>, F>, a: Seq<Seq<char>>, b: Seq<Seq<char>>)
    requires
        lists_type_urls(table, a),
        lists_type_urls(table, b),
    ensures
        a == b,
        a.len() == table.dom().len(),
    decreases a.len(),
{
    assert(a.no_duplicates()) by {
        assert forall|i: int, j: int| 0 <= i < a.len() && 0 <= j < a.len() && i != j implies a[i]
            != a[j] by {
            lemma_text_lt_order(a[i], a[j], a[j]);
            lemma_text_lt_order(a[j], a[i], a[i]);
            if i < j {
                assert(text_lt(a[i], a[j]));
            } else {
                assert(text_lt(a[j], a[i]));
            }
        }
    }
    a.unique_seq_to_set();
    if a.len() == 0 {
        if b.len() > 0 {
            assert(b.to_set().contains(b[0]));
            assert(!a.to_set().contains(b[0]));
        }
        assert(a =~= b);
    } else {
        assert(b.len() > 0) by {
            assert(a.to_set().contains(a[0]));
            if b.len() == 0 {
                assert(!b.to_set().contains(a[0]));
            }
        }
        assert(a.to_set().contains(b[0]));
        assert(b.to_set().contains(a[0]));
        lemma_sorted_head_is_least(a, b[0]);
        lemma_sorted_head_is_least(b, a[0]);
        lemma_text_lt_order(a[0], b[0], a[0]);
        assert(a[0] == b[0]);
        let ta = a.drop_first();
        let tb = b.drop_first();
        let rest = table.remove(a[0]);
        assert forall|i: int, j: int| 0 <= i < j < ta.len() implies text_lt(
            #[trigger] ta[i],
            #[trigger] ta[j],
        ) by {
            assert(text_lt(a[i + 1], a[j + 1]));
        }
        assert forall|i: int, j: int| 0 <= i < j < tb.len() implies text_lt(
            #[trigger] tb[i],
            #[trigger] tb[j],
        ) by {
            assert(text_lt(b[i + 1], b[j + 1]));
        }
        assert forall|x: Seq<char>| #[trigger] ta.to_set().contains(x) <==> rest.dom().contains(x) by {
            if ta.to_set().contains(x) {
                let k = choose|k: int| 0 <= k < ta.len() && ta[k] == x;
                assert(a[k + 1] == x);
                assert(text_lt(a[0], a[k + 1]));
                lemma_text_lt_order(a[0], x, x);
                assert(a.to_set().contains(x));
            }
            if rest.dom().contains(x) {
                assert(a.to_set().contains(x));
                let k = choose|k: int| 0 <= k < a.len() && a[k] == x;
                assert(k != 0);
                assert(ta[k - 1] == x);
            }
        }
        assert forall|x: Seq<char>| #[trigger] tb.to_set().contains(x) <==> rest.dom().contains(x) by {
            if tb.to_set().contains(x) {
                let k = choose|k: int| 0 <= k < tb.len() && tb[k] == x;
                assert(b[k + 1] == x);
                assert(text_lt(b[0], b[k + 1]));
                lemma_text_lt_order(b[0], x, x);
                assert(b.to_set().contains(x));
            }
            if rest.dom().contains(x) {
                assert(b.to_set().contains(x));
                let k = choose|k: int| 0 <= k < b.len() && b[k] == x;
                assert(k != 0);
                assert(tb[k - 1] == x);
            }
        }
        assert(ta.to_set() =~= rest.dom());
        assert(tb.to_set() =~= rest.dom());
        law_listing_is_unique(rest, ta, tb);
        assert(a =~= seq![a[0]] + ta);
        assert(b =~= seq![b[0]] + tb);
    }
}

/// A type URL is listed by `type_urls()` (and by an unknown-URL error)
/// exactly when a factory is registered for it, which is what `contains`
/// answers.
pub proof fn law_listed_iff_registered<F>(
    table: Map<Seq<char>, F>,
    listed: Seq<Seq<char>>,
    type_url: Seq<char>,
)
    requires
        lists_type_urls(table, listed),
    ensures
        listed.contains(type_url) <==> table.contains_key(type_url),
{
    assert(listed.to_set().contains(type_url) == listed.contains(type_url));
}

/// `create_all` on no entries creates nothing and succeeds.
pub proof fn law_create_all_of_nothing<T, E>(
    table: Map<Seq<char>, BoxedFactory<T, E>>,
    steps: Seq<Result<T, RegistryError<E>>>,
    out: Result<Vec<T>, RegistryError<E>>,
)
    requires
        pipeline_outcome(table, Seq::empty(), steps, out),
    ensures
        out matches Ok(made) && made@.len() == 0,
{
}

/// `create_all` on one entry answers as `create` on it: the same error, or
/// the one instance it made.
pub proof fn law_create_all_of_one_is_create<T, E>(
    table: Map<Seq<char>, BoxedFactory<T, E>>,
    entry: TypedStruct,
    steps: Seq<Result<T, RegistryError<E>>>,
    out: Result<Vec<T>, RegistryError<E>>,
)
    requires
        pipeline_outcome(table, seq![entry], steps, out),
    ensures
        steps.len() == 1,
        creation_outcome(table, entry.type_url@, entry.value, steps[0]),
        match steps[0] {
            Ok(t) => out matches Ok(made) && made@ == seq![t],
            Err(e) => out == Err::<Vec<T>, RegistryError<E>>(e),
        },
{
    assert(seq![entry][0] == entry);
    match out {
        Ok(made) => {
            assert(made@ =~= seq![steps[0]->Ok_0]);
        },
        Err(e) => {},
    }
}

/// When `create_all` succeeds it made one instance per entry, in order, each
/// a possible instance of `create` on its entry; an entry whose type URL is
/// unregistered makes it fail.
pub proof fn law_create_all_is_create_on_each<T, E>(
    table: Map<Seq<char>, BoxedFactory<T, E>>,
    entries: Seq<TypedStruct>,
    steps: Seq<Result<T, RegistryError<E>>>,
    out: Result<Vec<T>, RegistryError<E>>,
    i: int,
)
    requires
        pipeline_outcome(table, entries, steps, out),
        0 <= i < entries.len(),
    ensures
        out matches Ok(made) ==> made@.len() == entries.len() && creation_outcome(
            table,
            entries[i].type_url@,
            entries[i].value,
            Ok(made@[i]),
        ),
        !table.contains_key(entries[i].type_url@) ==> out is Err,
{
    if out is Ok {
        let made = out->Ok_0;
        assert(steps[i] is Ok);
        assert(made@[i] == steps[i]->Ok_0);
        assert(steps[i] == Ok::<T, RegistryError<E>>(made@[i]));
        if !table.contains_key(entries[i].type_url@) {
            assert(creation_outcome(table, entries[i].type_url@, entries[i].value, steps[i]));
        }
    }
}

} // verus!

verus! {

/// A type URL in a kind's namespace is of that kind: no namespace prefix
/// begins another, so the kind of `namespace + rest` is the namespace's.
pub proof fn law_kind_of_namespaced_url(kind: Kind, rest: Seq<char>)
    ensures
        kind_of(kind_prefix(kind) + rest) == Some(kind),
{
    reveal_strlit("cix.capability.");
    reveal_strlit("cix.agents.");
    reveal_strlit("cix.skills.");
    reveal_strlit("cix.flows.");
    let url = kind_prefix(kind) + rest;
    assert(kind_prefix(kind).is_prefix_of(url)) by {
        assert(url.subrange(0, kind_prefix(kind).len() as int) =~= kind_prefix(kind));
    }
    if kind != Kind::Capability {
        assert(url[4] != kind_prefix(Kind::Capability)[4]);
    }
    if kind == Kind::Skill || kind == Kind::Flow {
        assert(url[4] != kind_prefix(Kind::Agent)[4]);
    }
    if kind == Kind::Flow {
        assert(url[4] != kind_prefix(Kind::Skill)[4]);
    }
}

} // verus!

verus! {

/// `create_all` goes through the entries in order and stops at the first
/// error: every answer of `create` it used is one for its entry; when it
/// fails, its error is the answer on the last entry it tried and every
/// earlier entry was created; when it succeeds, it created every entry and
/// returns their instances in entry order.
pub proof fn law_create_all_stops_at_first_error<T, E>(
    table: Map<Seq<char>, BoxedFactory<T, E>>,
    entries: Seq<TypedStruct>,
    steps: Seq<Result<T, RegistryError<E>>>,
    out: Result<Vec<T>, RegistryError<E>>,
)
    requires
        pipeline_outcome(table, entries, steps, out),
    ensures
        steps.len() <= entries.len(),
        forall|i: int|
            0 <= i < steps.len() ==> creation_outcome(
                table,
                entries[i].type_url@,
                entries[i].value,
                #[trigger] steps[i],
            ),
        out matches Err(e) ==> {
            &&& steps.len() >= 1
            &&& steps[steps.len() - 1] == Err::<T, RegistryError<E>>(e)
            &&& forall|i: int| 0 <= i < steps.len() - 1 ==> (#[trigger] steps[i]) is Ok
        },
        out matches Ok(made) ==> {
            &&& steps.len() == entries.len()
            &&& made@.len() == entries.len()
            &&& forall|i: int|
                0 <= i < entries.len() ==> #[trigger] steps[i] == Ok::<T, RegistryError<E>>(
                    made@[i],
                )
        },
{
    if out is Ok {
        let made = out->Ok_0;
        assert forall|i: int| 0 <= i < entries.len() implies #[trigger] steps[i] == Ok::<
            T,
            RegistryError<E>,
        >(made@[i]) by {
            assert(steps[i] is Ok);
            assert(made@[i] == steps[i]->Ok_0);
        }
    }
}

proof fn lemma_bytes_lt_prefix_witness(x: Seq<u8>, y: Seq<u8>)
    ensures
        bytes_lt(x, y) <==> exists|i: int|
            #![trigger x.take(i), y.take(i)]
            0 <= i <= x.len() && i <= y.len() && x.take(i) == y.take(i) && ((i == x.len() && i
                < y.len()) || (i < x.len() && i < y.len() && x[i] < y[i])),
    decreases x.len(),
{
    if x.len() == 0 {
        assert(x.take(0) =~= y.take(0));
        if bytes_lt(x, y) {
            assert(x.take(0) == y.take(0));
        }
    } else if y.len() == 0 {
        assert(!bytes_lt(x, y));
    } else if x[0] < y[0] {
        assert(x.take(0) =~= y.take(0));
        assert(x.take(0) == y.take(0));
    } else if x[0] > y[0] {
        if exists|i: int|
            #![trigger x.take(i), y.take(i)]
            0 <= i <= x.len() && i <= y.len() && x.take(i) == y.take(i) && ((i == x.len() && i
                < y.len()) || (i < x.len() && i < y.len() && x[i] < y[i])) {
            let i = choose|i: int|
                #![trigger x.take(i), y.take(i)]
                0 <= i <= x.len() && i <= y.len() && x.take(i) == y.take(i) && ((i == x.len() && i
                    < y.len()) || (i < x.len() && i < y.len() && x[i] < y[i]));
            if i > 0 {
                assert(x.take(i)[0] == y.take(i)[0]);
            }
        }
    } else {
        let xs = x.drop_first();
        let ys = y.drop_first();
        lemma_bytes_lt_prefix_witness(xs, ys);
        if bytes_lt(x, y) {
            let i = choose|i: int|
                #![trigger xs.take(i), ys.take(i)]
                0 <= i <= xs.len() && i <= ys.len() && xs.take(i) == ys.take(i) && ((i == xs.len()
                    && i < ys.len()) || (i < xs.len() && i < ys.len() && xs[i] < ys[i]));
            assert(x.take(i + 1) =~= seq![x[0]] + xs.take(i));
            assert(y.take(i + 1) =~= seq![y[0]] + ys.take(i));
            assert(x.take(i + 1) == y.take(i + 1));
        }
        if exists|i: int|
            #![trigger x.take(i), y.take(i)]
            0 <= i <= x.len() && i <= y.len() && x.take(i) == y.take(i) && ((i == x.len() && i
                < y.len()) || (i < x.len() && i < y.len() && x[i] < y[i])) {
            let i = choose|i: int|
                #![trigger x.take(i), y.take(i)]
                0 <= i <= x.len() && i <= y.len() && x.take(i) == y.take(i) && ((i == x.len() && i
                    < y.len()) || (i < x.len() && i < y.len() && x[i] < y[i]));
            assert(i > 0);
            let j = i - 1;
            assert(xs.take(j) =~= x.take(i).drop_first());
            assert(ys.take(j) =~= y.take(i).drop_first());
            assert(xs.take(j) == ys.take(j));
        }
    }
}

/// The order in which type URLs are listed is `str`'s own order: `a` comes
/// before `b` exactly when, at the first byte where their UTF-8 encodings
/// differ, `a`'s byte is the smaller number, or when `a`'s encoding is a
/// proper prefix of `b`'s.
pub proof fn law_text_order_is_bytewise(a: Seq<char>, b: Seq<char>)
    ensures
        text_lt(a, b) <==> exists|i: int|
            #![trigger encode_utf8(a).take(i), encode_utf8(b).take(i)]
            0 <= i <= encode_utf8(a).len() && i <= encode_utf8(b).len() && encode_utf8(a).take(i)
                == encode_utf8(b).take(i) && ((i == encode_utf8(a).len() && i < encode_utf8(
                b,
            ).len()) || (i < encode_utf8(a).len() && i < encode_utf8(b).len() && encode_utf8(
                a,
            )[i] < encode_utf8(b)[i])),
{
    lemma_bytes_lt_prefix_witness(encode_utf8(a), encode_utf8(b));
}

/// `Manifest::new` keeps a given port list or relation map exactly as given,
/// and uses an empty one where none is given.
pub proof fn law_manifest_parts_kept_or_empty(
    list: Option<Vec<String>>,
    map: Option<HashMap<String, Vec<String>>>,
)
    ensures
        list matches Some(v) ==> list_or_empty(list) == v@,
        list is None ==> list_or_empty(list).len() == 0,
        map matches Some(m) ==> relations_or_empty(map) == m@,
        map is None ==> relations_or_empty(map).dom().len() == 0,
{
    if map is None {
        assert(relations_or_empty(map).dom() =~= Set::<String>::empty());
    }
}

/// A value text is accepted exactly when the JSON parser accepts it; a
/// refused text is answered with `invalid JSON value: ` followed by the
/// parser's message, whatever that message says.
pub proof fn law_json_check_follows_parser(verdict: Result<(), Seq<char>>, r: Result<(), String>)
    requires
        json_check_answer(verdict, r),
    ensures
        r is Ok <==> verdict is Ok,
        verdict matches Err(m) ==> r matches Err(t) && t@ == "invalid JSON value: "@ + m,
{
}

/// The kinds' namespaces are the documented ones, each a dotted prefix:
/// `cix.capability.`, `cix.agents.`, `cix.skills.`, `cix.flows.`. So a type URL
/// is of a kind only when it begins with that kind's whole namespace,
/// including its closing dot.
pub proof fn law_kind_namespaces(kind: Kind, type_url: Seq<char>)
    ensures
        kind_prefix(Kind::Capability) == "cix.capability."@,
        kind_prefix(Kind::Agent) == "cix.agents."@,
        kind_prefix(Kind::Skill) == "cix.skills."@,
        kind_prefix(Kind::Flow) == "cix.flows."@,
        kind_prefix(kind).len() > 0 && kind_prefix(kind).last() == '.',
        kind_of(type_url) == Some(kind) ==> kind_prefix(kind).is_prefix_of(type_url)
            && type_url[kind_prefix(kind).len() - 1] == '.',
{
    reveal_strlit("cix.capability.");
    reveal_strlit("cix.agents.");
    reveal_strlit("cix.skills.");
    reveal_strlit("cix.flows.");
    if kind_of(type_url) == Some(kind) {
        let p = kind_prefix(kind);
        assert(type_url.subrange(0, p.len() as int)[p.len() - 1] == p[p.len() - 1]);
    }
}

} // verus!

verus! {

/// What `create(type_url, value)` answers, spelled out: for an unregistered
/// URL, the unknown-URL error naming that URL and listing every registered
/// URL once, in strictly increasing order; for a registered URL, what one
/// call of its factory gave — the instance itself, or the factory's error
/// tagged with the URL.
pub proof fn law_create_answers<T, E>(
    table: Map<Seq<char>, BoxedFactory<T, E>>,
    type_url: Seq<char>,
    value: serde_json::Value,
    out: Result<T, RegistryError<E>>,
)
    requires
        creation_outcome(table, type_url, value, out),
    ensures
        !table.contains_key(type_url) ==> match out {
            Err(RegistryError::UnknownTypeUrl { type_url: u, available }) => {
                &&& u@ == type_url
                &&& forall|i: int, j: int|
                    0 <= i < j < available@.len() ==> text_lt(
                        #[trigger] available@[i]@,
                        #[trigger] available@[j]@,
                    )
                &&& forall|k: Seq<char>|
                    table.contains_key(k) <==> exists|i: int|
                        0 <= i < available@.len() && #[trigger] available@[i]@ == k
            },
            _ => false,
        },
        table.contains_key(type_url) ==> exists|produced: Result<T, E>|
            #[trigger] table[type_url].yields(value, produced) && match produced {
                Ok(t) => out == Ok::<T, RegistryError<E>>(t),
                Err(e) => match out {
                    Err(RegistryError::Factory { type_url: u, source }) => u@ == type_url
                        && source == e,
                    _ => false,
                },
            },
{
    if !table.contains_key(type_url) {
        let available = out->Err_0->UnknownTypeUrl_available;
        let names = texts(available@);
        assert forall|i: int, j: int| 0 <= i < j < available@.len() implies text_lt(
            #[trigger] available@[i]@,
            #[trigger] available@[j]@,
        ) by {
            assert(names[i] == available@[i]@ && names[j] == available@[j]@);
        }
        assert forall|k: Seq<char>| table.contains_key(k) <==> exists|i: int|
            0 <= i < available@.len() && #[trigger] available@[i]@ == k by {
            if table.contains_key(k) {
                assert(names.to_set().contains(k));
                let i = choose|i: int| 0 <= i < names.len() && names[i] == k;
                assert(available@[i]@ == k);
            }
            if exists|i: int| 0 <= i < available@.len() && #[trigger] available@[i]@ == k {
                let i = choose|i: int| 0 <= i < available@.len() && #[trigger] available@[i]@ == k;
                assert(names[i] == k);
                assert(names.to_set().contains(k));
            }
        }
    }
}

/// A stored factory made from a closure may answer, on every value, exactly
/// what the closure may answer, and accepts exactly the values it accepts.
pub proof fn law_stored_factory_is_the_closure<T, E, F: Fn(&serde_json::Value) -> Result<T, E>>(
    stored: BoxedFactory<T, E>,
    f: F,
    value: serde_json::Value,
    result: Result<T, E>,
)
    requires
        acts_like(stored, f),
    ensures
        stored.yields(value, result) <==> call_ensures(f, (&value,), result),
        stored.accepts(value) <==> call_requires(f, (&value,)),
{
}

/// How a list of names is written out: nothing for no names, the name itself
/// for one, and one more name after the separator for each further one.
pub proof fn law_joined_writes_names_in_order(items: Seq<Seq<char>>, sep: Seq<char>, item: Seq<char>)
    ensures
        joined(Seq::empty(), sep) == Seq::<char>::empty(),
        joined(seq![item], sep) == item,
        items.len() > 0 ==> joined(items.push(item), sep) == joined(items, sep) + sep + item,
{
    assert(seq![item].len() == 1);
    assert(items.push(item).drop_last() =~= items);
}

/// The messages of the registry's errors: the unknown-URL error names the
/// URL and lists the registered ones in brackets, separated by `, `; a
/// factory error names the URL and then reads as the factory's own error.
pub proof fn law_error_messages<E>(err: RegistryError<E>, source_text: Seq<char>)
    ensures
        err matches RegistryError::UnknownTypeUrl { type_url, available } ==> error_message(
            err,
            source_text,
        ) == "unknown type URL '"@ + type_url@ + "'. registered: ["@ + joined(
            texts(available@),
            ", "@,
        ) + "]"@,
        err matches RegistryError::Factory { type_url, .. } ==> error_message(err, source_text)
            == "factory error for '"@ + type_url@ + "': "@ + source_text,
{
}

} // verus!
