//! Byte-wise comparison of strings: equality and the lexicographic order of
//! their UTF-8 encodings, which is the order `str` itself uses.

use vstd::prelude::*;
use vstd::utf8::*;

verus! {

broadcast use vstd::utf8::encode_utf8_decode_utf8;

/// Lexicographic strict order on byte sequences: a proper prefix comes first,
/// otherwise the first differing byte decides.
pub open spec fn bytes_lt(a: Seq<u8>, b: Seq<u8>) -> bool
    decreases a.len(),
{
    if a.len() == 0 {
        b.len() > 0
    } else if b.len() == 0 {
        false
    } else if a[0] < b[0] {
        true
    } else if a[0] > b[0] {
        false
    } else {
        bytes_lt(a.drop_first(), b.drop_first())
    }
}

/// Strict order of texts: by their UTF-8 bytes.
pub open spec fn text_lt(a: Seq<char>, b: Seq<char>) -> bool {
    bytes_lt(encode_utf8(a), encode_utf8(b))
}

/// Every earlier text is strictly smaller than every later one
/// (so the sequence is sorted and has no repeats).
pub open spec fn sorted_strictly(s: Seq<Seq<char>>) -> bool {
    forall|i: int, j: int| 0 <= i < j < s.len() ==> text_lt(#[trigger] s[i], #[trigger] s[j])
}

pub proof fn lemma_bytes_lt_irreflexive(a: Seq<u8>)
    ensures
        !bytes_lt(a, a),
    decreases a.len(),
{
    if a.len() > 0 {
        lemma_bytes_lt_irreflexive(a.drop_first());
    }
}

pub proof fn lemma_bytes_lt_transitive(a: Seq<u8>, b: Seq<u8>, c: Seq<u8>)
    requires
        bytes_lt(a, b),
        bytes_lt(b, c),
    ensures
        bytes_lt(a, c),
    decreases a.len(),
{
    if a.len() > 0 && b.len() > 0 && c.len() > 0 && a[0] == b[0] && b[0] == c[0] {
        lemma_bytes_lt_transitive(a.drop_first(), b.drop_first(), c.drop_first());
    }
}

pub proof fn lemma_bytes_lt_total(a: Seq<u8>, b: Seq<u8>)
    requires
        a != b,
    ensures
        bytes_lt(a, b) || bytes_lt(b, a),
    decreases a.len(),
{
    if a.len() > 0 && b.len() > 0 && a[0] == b[0] {
        if a.drop_first() == b.drop_first() {
            assert(a =~= seq![a[0]] + a.drop_first());
            assert(b =~= seq![b[0]] + b.drop_first());
        }
        lemma_bytes_lt_total(a.drop_first(), b.drop_first());
    } else if a.len() == 0 && b.len() == 0 {
        assert(a =~= b);
    }
}

pub proof fn lemma_bytes_lt_asymmetric(a: Seq<u8>, b: Seq<u8>)
    requires
        bytes_lt(a, b),
    ensures
        !bytes_lt(b, a),
{
    if bytes_lt(b, a) {
        lemma_bytes_lt_transitive(a, b, a);
        lemma_bytes_lt_irreflexive(a);
    }
}

/// The text order is a strict total order.
pub proof fn lemma_text_lt_order(a: Seq<char>, b: Seq<char>, c: Seq<char>)
    ensures
        !text_lt(a, a),
        text_lt(a, b) ==> !text_lt(b, a),
        text_lt(a, b) && text_lt(b, c) ==> text_lt(a, c),
        a != b ==> text_lt(a, b) || text_lt(b, a),
{
    lemma_bytes_lt_irreflexive(encode_utf8(a));
    if text_lt(a, b) {
        lemma_bytes_lt_asymmetric(encode_utf8(a), encode_utf8(b));
        if text_lt(b, c) {
            lemma_bytes_lt_transitive(encode_utf8(a), encode_utf8(b), encode_utf8(c));
        }
    }
    if a != b {
        assert(decode_utf8(encode_utf8(a)) == a);
        assert(decode_utf8(encode_utf8(b)) == b);
        lemma_bytes_lt_total(encode_utf8(a), encode_utf8(b));
    }
}

/// Whether two strings hold the same text.
pub fn str_eq(a: &str, b: &str) -> (r: bool)
    ensures
        r == (a@ == b@),
{
    let ab = a.as_bytes();
    let bb = b.as_bytes();
    proof {
        assert(decode_utf8(encode_utf8(a@)) == a@);
        assert(decode_utf8(encode_utf8(b@)) == b@);
    }
    if ab.len() != bb.len() {
        return false;
    }
    let n = ab.len();
    let mut i: usize = 0;
    while i < n
        invariant
            n == ab@.len(),
            n == bb@.len(),
            ab@ == encode_utf8(a@),
            bb@ == encode_utf8(b@),
            i <= n,
            forall|j: int| 0 <= j < i ==> ab@[j] == bb@[j],
        decreases n - i,
    {
        if ab[i] != bb[i] {
            return false;
        }
        i = i + 1;
    }
    assert(ab@ =~= bb@);
    true
}

/// Whether `a` comes strictly before `b` in the order of their UTF-8 bytes.
pub fn str_lt(a: &str, b: &str) -> (r: bool)
    ensures
        r == text_lt(a@, b@),
{
    let ab = a.as_bytes();
    let bb = b.as_bytes();
    let ghost sa = ab@;
    let ghost sb = bb@;
    assert(sa.skip(0) =~= sa);
    assert(sb.skip(0) =~= sb);
    let mut i: usize = 0;
    while i < ab.len() && i < bb.len()
        invariant
            sa == ab@,
            sb == bb@,
            sa == encode_utf8(a@),
            sb == encode_utf8(b@),
            i <= sa.len(),
            i <= sb.len(),
            bytes_lt(sa, sb) == bytes_lt(sa.skip(i as int), sb.skip(i as int)),
        decreases sa.len() - i,
    {
        if ab[i] != bb[i] {
            return ab[i] < bb[i];
        }
        assert(sa.skip(i as int).drop_first() =~= sa.skip(i + 1));
        assert(sb.skip(i as int).drop_first() =~= sb.skip(i + 1));
        i = i + 1;
    }
    i < bb.len()
}

/// Places `item` into the strictly sorted `v`, before the first entry that
/// does not come before it.
fn insert_sorted<'a>(v: &mut Vec<&'a str>, item: &'a str)
    requires
        sorted_strictly(old(v)@.map_values(|s: &str| s@)),
        !old(v)@.map_values(|s: &str| s@).contains(item@),
    ensures
        sorted_strictly(final(v)@.map_values(|s: &str| s@)),
        final(v)@.map_values(|s: &str| s@).to_set() == old(v)@.map_values(|s: &str| s@).to_set().insert(
            item@,
        ),
        final(v)@.len() == old(v)@.len() + 1,
{
    let ghost before = v@.map_values(|s: &str| s@);
    let mut p: usize = 0;
    while p < v.len() && str_lt(v[p], item)
        invariant
            before == v@.map_values(|s: &str| s@),
            p <= v@.len(),
            forall|j: int| 0 <= j < p ==> text_lt(#[trigger] before[j], item@),
        decreases v@.len() - p,
    {
        p = p + 1;
    }
    v.insert(p, item);
    let ghost after = v@.map_values(|s: &str| s@);
    assert(after =~= before.insert(p as int, item@));
    assert forall|i: int, j: int| 0 <= i < j < after.len() implies text_lt(
        #[trigger] after[i],
        #[trigger] after[j],
    ) by {
        if p < before.len() {
            assert(before[p as int] != item@);
            lemma_text_lt_order(before[p as int], item@, item@);
            assert(text_lt(item@, before[p as int]));
        }
        if i < p && j == p {
        } else if i < p && j > p {
            lemma_text_lt_order(before[i], item@, before[j - 1]);
            if j - 1 > p {
                assert(text_lt(before[p as int], before[j - 1]));
                lemma_text_lt_order(item@, before[p as int], before[j - 1]);
            }
        } else if i == p {
            if j - 1 > p {
                assert(text_lt(before[p as int], before[j - 1]));
                lemma_text_lt_order(item@, before[p as int], before[j - 1]);
            }
        } else if i > p {
            assert(text_lt(before[i - 1], before[j - 1]));
        } else {
            assert(text_lt(before[i], before[j]));
        }
    }
    assert(after.to_set() =~= before.to_set().insert(item@)) by {
        assert forall|x: Seq<char>| after.to_set().contains(x) implies before.to_set().insert(
            item@,
        ).contains(x) by {
            let k = choose|k: int| 0 <= k < after.len() && after[k] == x;
            if k < p {
                assert(before[k] == x);
            } else if k > p {
                assert(before[k - 1] == x);
            }
        }
        assert forall|x: Seq<char>| before.to_set().insert(item@).contains(x) implies after.to_set().contains(
            x,
        ) by {
            if x == item@ {
                assert(after[p as int] == x);
            } else {
                let k = choose|k: int| 0 <= k < before.len() && before[k] == x;
                if k < p {
                    assert(after[k] == x);
                } else {
                    assert(after[k + 1] == x);
                }
            }
        }
    }
}

/// The strings of `items`, sorted into the order of their UTF-8 bytes.
/// `items` holds no text twice.
pub fn sort_strs<'a>(items: Vec<&'a str>) -> (r: Vec<&'a str>)
    requires
        items@.map_values(|s: &str| s@).no_duplicates(),
    ensures
        sorted_strictly(r@.map_values(|s: &str| s@)),
        r@.map_values(|s: &str| s@).to_set() == items@.map_values(|s: &str| s@).to_set(),
        r@.len() == items@.len(),
{
    let ghost src = items@.map_values(|s: &str| s@);
    let mut out: Vec<&'a str> = Vec::new();
    let mut i: usize = 0;
    while i < items.len()
        invariant
            src == items@.map_values(|s: &str| s@),
            src.no_duplicates(),
            i <= items@.len(),
            sorted_strictly(out@.map_values(|s: &str| s@)),
            out@.map_values(|s: &str| s@).to_set() == src.take(i as int).to_set(),
            out@.len() == i,
        decreases items@.len() - i,
    {
        proof {
            if out@.map_values(|s: &str| s@).contains(src[i as int]) {
                assert(out@.map_values(|s: &str| s@).to_set().contains(src[i as int]));
                let k = choose|k: int| 0 <= k < i && src.take(i as int)[k] == src[i as int];
                assert(src[k] == src[i as int]);
            }
        }
        insert_sorted(&mut out, items[i]);
        proof {
            let pre = src.take(i as int);
            let nxt = src.take(i + 1);
            assert(nxt =~= pre.push(src[i as int]));
            assert forall|x: Seq<char>| nxt.to_set().contains(x) implies pre.to_set().insert(
                src[i as int],
            ).contains(x) by {
                let k = choose|k: int| 0 <= k < nxt.len() && nxt[k] == x;
                if k < pre.len() {
                    assert(pre[k] == x);
                }
            }
            assert forall|x: Seq<char>| pre.to_set().insert(src[i as int]).contains(
                x,
            ) implies nxt.to_set().contains(x) by {
                if x == src[i as int] {
                    assert(nxt[pre.len() as int] == x);
                } else {
                    let k = choose|k: int| 0 <= k < pre.len() && pre[k] == x;
                    assert(nxt[k] == x);
                }
            }
            assert(nxt.to_set() =~= pre.to_set().insert(src[i as int]));
        }
        i = i + 1;
    }
    assert(src.take(items@.len() as int) =~= src);
    out
}

} // verus!
