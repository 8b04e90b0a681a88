//! Association lists keyed by text and kept in increasing key order, the
//! layout of the maps in the storage files.
use vstd::prelude::*;
use crate::text::{lemma_text_less_asymmetric, lemma_text_less_total, lemma_text_less_transitive, text_before, text_less};

verus! {

/// The keys of an association list.
pub open spec fn keys_of<V>(e: Seq<(Seq<char>, V)>) -> Seq<Seq<char>> {
    e.map_values(|p: (Seq<char>, V)| p.0)
}

/// Whether the keys of an association list strictly increase.
pub open spec fn keys_increasing<V>(e: Seq<(Seq<char>, V)>) -> bool {
    forall|i: int, j: int| 0 <= i < j < e.len() ==> text_less(#[trigger] e[i].0, #[trigger] e[j].0)
}

/// `e` with the value of key `k` set to `v`: replaced where `k` is present,
/// inserted before the first greater key otherwise (a map insertion).
pub open spec fn upsert<V>(e: Seq<(Seq<char>, V)>, k: Seq<char>, v: V) -> Seq<(Seq<char>, V)>
    decreases e.len(),
{
    if e.len() == 0 {
        seq![(k, v)]
    } else if e[0].0 == k {
        seq![(k, v)] + e.drop_first()
    } else if text_less(k, e[0].0) {
        seq![(k, v)] + e
    } else {
        seq![e[0]] + upsert(e.drop_first(), k, v)
    }
}

/// The value of key `k`, if present (the first one).
pub open spec fn lookup<V>(e: Seq<(Seq<char>, V)>, k: Seq<char>) -> Option<V>
    decreases e.len(),
{
    if e.len() == 0 {
        None
    } else if e[0].0 == k {
        Some(e[0].1)
    } else {
        lookup(e.drop_first(), k)
    }
}

/// The position where key `k` is or would go in an increasing list.
pub open spec fn key_pos<V>(e: Seq<(Seq<char>, V)>, k: Seq<char>) -> nat
    decreases e.len(),
{
    if e.len() == 0 {
        0
    } else if !text_less(e[0].0, k) {
        0
    } else {
        1 + key_pos(e.drop_first(), k)
    }
}

/// In an increasing list, the key position is after all smaller keys, at
/// the key itself or at a greater key.
pub proof fn lemma_key_pos<V>(e: Seq<(Seq<char>, V)>, k: Seq<char>)
    ensures
        key_pos(e, k) <= e.len(),
        forall|m: int| 0 <= m < key_pos(e, k) ==> text_less(#[trigger] e[m].0, k),
        key_pos(e, k) < e.len() ==> !text_less(e[key_pos(e, k) as int].0, k),
    decreases e.len(),
{
    if e.len() > 0 && text_less(e[0].0, k) {
        lemma_key_pos(e.drop_first(), k);
        assert forall|m: int| 0 <= m < key_pos(e, k) implies text_less(#[trigger] e[m].0, k) by {
            if m > 0 {
                assert(e[m] == e.drop_first()[m - 1]);
            }
        }
    }
}

/// The key position is the first position whose key is not less.
pub proof fn lemma_key_pos_is<V>(e: Seq<(Seq<char>, V)>, k: Seq<char>, j: int)
    requires
        0 <= j <= e.len(),
        forall|m: int| 0 <= m < j ==> text_less(#[trigger] e[m].0, k),
        j < e.len() ==> !text_less(e[j].0, k),
    ensures
        key_pos(e, k) == j,
    decreases e.len(),
{
    if j > 0 {
        assert(text_less(e[0].0, k));
        assert forall|m: int| 0 <= m < j - 1 implies text_less(#[trigger] e.drop_first()[m].0, k) by {
            assert(e.drop_first()[m] == e[m + 1]);
        }
        lemma_key_pos_is(e.drop_first(), k, j - 1);
    }
}

/// In an increasing list, upserting replaces at the key position when the
/// key is there and inserts there otherwise.
pub proof fn lemma_upsert_at<V>(e: Seq<(Seq<char>, V)>, k: Seq<char>, v: V)
    requires
        keys_increasing(e),
    ensures
        key_pos(e, k) < e.len() && e[key_pos(e, k) as int].0 == k ==> upsert(e, k, v) == e.update(key_pos(e, k) as int, (k, v)),
        !(key_pos(e, k) < e.len() && e[key_pos(e, k) as int].0 == k) ==> upsert(e, k, v) == e.insert(key_pos(e, k) as int, (k, v)),
    decreases e.len(),
{
    lemma_key_pos(e, k);
    if e.len() == 0 {
        assert(e.insert(0, (k, v)) =~= seq![(k, v)]);
    } else if e[0].0 == k {
        lemma_text_less_total(k, k);
        crate::text::lemma_text_less_irreflexive(k);
        assert(key_pos(e, k) == 0);
        assert(seq![(k, v)] + e.drop_first() =~= e.update(0, (k, v)));
    } else if text_less(k, e[0].0) {
        lemma_text_less_asymmetric(k, e[0].0);
        assert(key_pos(e, k) == 0);
        assert(seq![(k, v)] + e =~= e.insert(0, (k, v)));
    } else {
        lemma_text_less_total(k, e[0].0);
        assert(text_less(e[0].0, k));
        let r = e.drop_first();
        assert(keys_increasing(r)) by {
            assert forall|i: int, j: int| 0 <= i < j < r.len() implies text_less(#[trigger] r[i].0, #[trigger] r[j].0) by {
                assert(r[i] == e[i + 1] && r[j] == e[j + 1]);
            }
        }
        lemma_upsert_at(r, k, v);
        lemma_key_pos(r, k);
        let p = key_pos(r, k) as int;
        if p < r.len() && r[p].0 == k {
            assert(seq![e[0]] + r.update(p, (k, v)) =~= e.update(p + 1, (k, v)));
        } else {
            assert(seq![e[0]] + r.insert(p, (k, v)) =~= e.insert(p + 1, (k, v)));
        }
    }
}

/// Upserting keeps the keys of an increasing list increasing.
pub proof fn lemma_upsert_increasing<V>(e: Seq<(Seq<char>, V)>, k: Seq<char>, v: V)
    requires
        keys_increasing(e),
    ensures
        keys_increasing(upsert(e, k, v)),
{
    lemma_upsert_at(e, k, v);
    lemma_key_pos(e, k);
    let p = key_pos(e, k) as int;
    let u = upsert(e, k, v);
    if p < e.len() && e[p].0 == k {
        assert forall|i: int, j: int| 0 <= i < j < u.len() implies text_less(#[trigger] u[i].0, #[trigger] u[j].0) by {
            assert(u[i].0 == e[i].0 && u[j].0 == e[j].0);
        }
    } else {
        if p < e.len() {
            lemma_text_less_total(e[p].0, k);
        }
        assert forall|m: int| p <= m < e.len() implies text_less(k, #[trigger] e[m].0) by {
            if m > p {
                lemma_text_less_transitive(k, e[p].0, e[m].0);
            }
        }
        assert forall|i: int, j: int| 0 <= i < j < u.len() implies text_less(#[trigger] u[i].0, #[trigger] u[j].0) by {
            if i == p {
                assert(u[j] == e[j - 1]);
            } else if j == p {
            } else if i < p && j > p {
                assert(u[j] == e[j - 1]);
                lemma_text_less_transitive(e[i].0, k, e[j - 1].0);
            } else if i > p {
                assert(u[i] == e[i - 1] && u[j] == e[j - 1]);
            }
        }
    }
}

/// The views of the keys of an association list with string keys.
pub open spec fn key_views<V>(e: Seq<(String, V)>) -> Seq<Seq<char>> {
    e.map_values(|p: (String, V)| p.0@)
}

/// The position where key `k` is or would go in a list whose keys increase.
pub fn find_key_pos<V>(e: &Vec<(String, V)>, k: &str) -> (r: usize)
    ensures
        r <= e.len(),
        forall|m: int| 0 <= m < r ==> text_less(#[trigger] e@[m].0@, k@),
        r < e.len() ==> !text_less(e@[r as int].0@, k@),
{
    let mut j: usize = 0;
    while j < e.len() && text_before(e[j].0.as_str(), k)
        invariant
            j <= e.len(),
            forall|m: int| 0 <= m < j ==> text_less(#[trigger] e@[m].0@, k@),
        decreases e.len() - j,
    {
        j = j + 1;
    }
    j
}

/// After an upsert, the key holds the new value and other keys keep theirs.
pub proof fn lemma_lookup_upsert<V>(e: Seq<(Seq<char>, V)>, k: Seq<char>, v: V, k2: Seq<char>)
    ensures
        lookup(upsert(e, k, v), k) == Some(v),
        k2 != k ==> lookup(upsert(e, k, v), k2) == lookup(e, k2),
    decreases e.len(),
{
    if e.len() == 0 {
    } else if e[0].0 == k {
        assert((seq![(k, v)] + e.drop_first()).drop_first() =~= e.drop_first());
    } else if text_less(k, e[0].0) {
        assert((seq![(k, v)] + e).drop_first() =~= e);
    } else {
        lemma_lookup_upsert(e.drop_first(), k, v, k2);
        assert((seq![e[0]] + upsert(e.drop_first(), k, v)).drop_first() =~= upsert(e.drop_first(), k, v));
    }
}

/// The entries of a list upserted one after another into an empty list.
pub open spec fn upsert_all<V>(e: Seq<(Seq<char>, V)>) -> Seq<(Seq<char>, V)>
    decreases e.len(),
{
    if e.len() == 0 {
        Seq::empty()
    } else {
        upsert(upsert_all(e.drop_last()), e.last().0, e.last().1)
    }
}

/// Upserting one entry after another gives increasing keys.
pub proof fn lemma_upsert_all_increasing<V>(e: Seq<(Seq<char>, V)>)
    ensures
        keys_increasing(upsert_all(e)),
    decreases e.len(),
{
    if e.len() > 0 {
        lemma_upsert_all_increasing(e.drop_last());
        lemma_upsert_increasing(upsert_all(e.drop_last()), e.last().0, e.last().1);
    }
}

} // verus!
