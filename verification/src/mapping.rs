//! Maps as sequences of entries in key order.
//!
//! A map holds each key once and keeps its entries sorted by the total order
//! on keys, so that two maps with the same association are the same sequence.

use vstd::prelude::*;
use crate::order::{
    compare, lemma_relate_flip, lemma_relate_same, lemma_relate_transitive, relate, Relation,
};
use crate::value::{entry_models, lemma_view_mapping, lemma_view_sequence, models, Model, Value};

verus! {

/// The keys of `s` stand in strictly increasing order.
pub open spec fn sorted(s: Seq<(Model, Model)>) -> bool {
    forall|i: int, j: int| 0 <= i < j < s.len() ==> relate(s[i].0, s[j].0) == Relation::Before
}

/// Every map inside the model, at any depth, has its entries in key order.
pub open spec fn well_formed(m: Model) -> bool
    decreases m,
{
    match m {
        Model::Sequence(s) => forall|i: int| 0 <= i < s.len() ==> well_formed(#[trigger] s[i]),
        Model::Mapping(s) => sorted(s) && forall|i: int|
            0 <= i < s.len() ==> well_formed((#[trigger] s[i]).0) && well_formed(s[i].1),
        _ => true,
    }
}

/// Every key and every value of the entries is well formed.
pub open spec fn entries_well_formed(s: Seq<(Model, Model)>) -> bool {
    forall|i: int| 0 <= i < s.len() ==> well_formed((#[trigger] s[i]).0) && well_formed(s[i].1)
}

/// Some entry of `s` has the key `k`.
pub open spec fn has_key(s: Seq<(Model, Model)>, k: Model) -> bool {
    exists|i: int| 0 <= i < s.len() && s[i].0 == k
}

/// The index of an entry of `s` with the key `k`, where there is one.
pub open spec fn key_index(s: Seq<(Model, Model)>, k: Model) -> int {
    choose|i: int| 0 <= i < s.len() && s[i].0 == k
}

/// The value that `s` holds under the key `k`, if any.
pub open spec fn lookup(s: Seq<(Model, Model)>, k: Model) -> Option<Model> {
    if has_key(s, k) {
        Some(s[key_index(s, k)].1)
    } else {
        None
    }
}

/// The entries of `s` as an association from keys to values.
pub open spec fn association(s: Seq<(Model, Model)>) -> Map<Model, Model> {
    Map::new(|k: Model| has_key(s, k), |k: Model| lookup(s, k)->0)
}

/// The first index from `i` on whose key does not come before `k`.
pub open spec fn slot_from(s: Seq<(Model, Model)>, k: Model, i: int) -> int
    decreases s.len() - i,
{
    if 0 <= i < s.len() && relate(s[i].0, k) == Relation::Before {
        slot_from(s, k, i + 1)
    } else {
        i
    }
}

/// The number of leading entries of `s` whose key comes before `k`: the place
/// of `k` in `s`.
pub open spec fn slot(s: Seq<(Model, Model)>, k: Model) -> int {
    slot_from(s, k, 0)
}

/// The entries of `s` after `v` was put under `k`: an entry with that key is
/// replaced, else the new entry takes its place in key order.
pub open spec fn put(s: Seq<(Model, Model)>, k: Model, v: Model) -> Seq<(Model, Model)> {
    let p = slot(s, k);
    if 0 <= p < s.len() && s[p].0 == k {
        s.update(p, (k, v))
    } else {
        s.insert(p, (k, v))
    }
}

/// The entries after each pair of `pairs` was put, in order, into `s`.
pub open spec fn put_all(s: Seq<(Model, Model)>, pairs: Seq<(Model, Model)>) -> Seq<(Model, Model)>
    decreases pairs.len(),
{
    if pairs.len() == 0 {
        s
    } else {
        put(put_all(s, pairs.drop_last()), pairs.last().0, pairs.last().1)
    }
}

proof fn lemma_slot_from(s: Seq<(Model, Model)>, k: Model, i: int)
    requires
        0 <= i <= s.len(),
        forall|j: int| 0 <= j < i ==> relate(s[j].0, k) == Relation::Before,
    ensures
        i <= slot_from(s, k, i) <= s.len(),
        forall|j: int| 0 <= j < slot_from(s, k, i) ==> relate(s[j].0, k) == Relation::Before,
        slot_from(s, k, i) < s.len() ==> relate(s[slot_from(s, k, i)].0, k) != Relation::Before,
    decreases s.len() - i,
{
    if i < s.len() && relate(s[i].0, k) == Relation::Before {
        lemma_slot_from(s, k, i + 1);
    }
}

/// What [`slot`] finds: every key before it comes before `k`, and the key at
/// it, if there is one, does not.
pub proof fn lemma_slot(s: Seq<(Model, Model)>, k: Model)
    ensures
        0 <= slot(s, k) <= s.len(),
        forall|j: int| 0 <= j < slot(s, k) ==> relate(s[j].0, k) == Relation::Before,
        slot(s, k) < s.len() ==> relate(s[slot(s, k)].0, k) != Relation::Before,
{
    lemma_slot_from(s, k, 0);
}

/// An index with the properties of the slot is the slot.
pub proof fn lemma_slot_is(s: Seq<(Model, Model)>, k: Model, p: int)
    requires
        0 <= p <= s.len(),
        forall|j: int| 0 <= j < p ==> relate(s[j].0, k) == Relation::Before,
        p < s.len() ==> relate(s[p].0, k) != Relation::Before,
    ensures
        slot(s, k) == p,
{
    lemma_slot(s, k);
}

/// Putting an entry keeps the keys in order.
pub proof fn lemma_put_sorted(s: Seq<(Model, Model)>, k: Model, v: Model)
    requires
        sorted(s),
    ensures
        sorted(put(s, k, v)),
{
    lemma_slot(s, k);
    let p = slot(s, k);
    let n = put(s, k, v);
    if p < s.len() && s[p].0 == k {
        assert forall|i: int, j: int| 0 <= i < j < n.len() implies relate(n[i].0, n[j].0)
            == Relation::Before by {
            assert(n[i].0 == s[i].0);
            assert(n[j].0 == s[j].0);
        }
    } else {
        assert forall|i: int, j: int| 0 <= i < j < n.len() implies relate(n[i].0, n[j].0)
            == Relation::Before by {
            if j < p {
                assert(n[i] == s[i] && n[j] == s[j]);
            } else if j == p {
                assert(n[i] == s[i]);
            } else if i == p {
                assert(n[j] == s[j - 1]);
                lemma_relate_same(s[p].0, k);
                lemma_relate_flip(s[p].0, k);
                if j - 1 > p {
                    lemma_relate_transitive(k, s[p].0, s[j - 1].0);
                }
            } else if i < p {
                assert(n[i] == s[i] && n[j] == s[j - 1]);
            } else {
                assert(n[i] == s[i - 1] && n[j] == s[j - 1]);
            }
        }
    }
}

/// In a sorted sequence every key occurs once, so the value under a key is
/// that of the entry found with it.
pub proof fn lemma_lookup_at(s: Seq<(Model, Model)>, i: int)
    requires
        sorted(s),
        0 <= i < s.len(),
    ensures
        has_key(s, s[i].0),
        lookup(s, s[i].0) == Some(s[i].1),
{
    let k = s[i].0;
    assert(0 <= i < s.len() && s[i].0 == k);
    assert(has_key(s, k));
    let c = key_index(s, k);
    if c < i {
        lemma_relate_same(s[c].0, s[i].0);
    } else if i < c {
        lemma_relate_same(s[i].0, s[c].0);
    }
}

/// Putting an entry is insertion into the association: the new value stands
/// under the key, whatever stood there before, and nothing else changes.
pub proof fn lemma_put_association(s: Seq<(Model, Model)>, k: Model, v: Model)
    requires
        sorted(s),
    ensures
        association(put(s, k, v)) == association(s).insert(k, v),
{
    lemma_slot(s, k);
    lemma_put_sorted(s, k, v);
    let p = slot(s, k);
    let n = put(s, k, v);
    let replaced = p < s.len() && s[p].0 == k;
    assert(n[p] == (k, v));
    lemma_lookup_at(n, p);
    assert forall|x: Model| has_key(n, x) <==> (x == k || has_key(s, x)) by {
        if has_key(n, x) && x != k {
            let i = key_index(n, x);
            if replaced {
                assert(s[i].0 == x);
            } else if i < p {
                assert(s[i].0 == x);
            } else {
                assert(s[i - 1].0 == x);
            }
        }
        if has_key(s, x) && x != k {
            let i = key_index(s, x);
            if replaced {
                assert(n[i].0 == x);
            } else if i < p {
                assert(n[i].0 == x);
            } else {
                assert(n[i + 1].0 == x);
            }
        }
    }
    assert forall|x: Model| has_key(s, x) && x != k implies lookup(n, x) == lookup(s, x) by {
        let i = key_index(s, x);
        lemma_lookup_at(s, i);
        if replaced {
            assert(n[i] == s[i]);
            lemma_lookup_at(n, i);
        } else if i < p {
            assert(n[i] == s[i]);
            lemma_lookup_at(n, i);
        } else {
            assert(n[i + 1] == s[i]);
            lemma_lookup_at(n, i + 1);
        }
    }
    assert(association(n) =~= association(s).insert(k, v));
}

/// Finds the place of `key` among `entries`, and whether an entry with that
/// key stands there.
pub fn find_slot(entries: &Vec<(Value, Value)>, key: &Value) -> (r: (usize, bool))
    ensures
        r.0 as int == slot(entry_models(entries@), key@),
        r.1 == (r.0 < entries.len() && entry_models(entries@)[r.0 as int].0 == key@),
{
    let mut i: usize = 0;
    while i < entries.len()
        invariant
            i <= entries.len(),
            forall|j: int| 0 <= j < i ==> relate(entry_models(entries@)[j].0, key@) == Relation::Before,
        decreases entries.len() - i,
    {
        let r = compare(&entries[i].0, key);
        match r {
            Relation::Before => {
                i = i + 1;
            },
            Relation::Same => {
                proof {
                    lemma_relate_same(entries@[i as int].0@, key@);
                    lemma_slot_is(entry_models(entries@), key@, i as int);
                }
                return (i, true);
            },
            Relation::After => {
                proof {
                    lemma_relate_same(entries@[i as int].0@, key@);
                    lemma_slot_is(entry_models(entries@), key@, i as int);
                }
                return (i, false);
            },
        }
    }
    proof {
        lemma_slot_is(entry_models(entries@), key@, i as int);
    }
    (i, false)
}

/// Puts `value` under `key`: an entry with that key is replaced, else the new
/// entry takes its place in key order.
pub fn insert(entries: &mut Vec<(Value, Value)>, key: Value, value: Value)
    ensures
        entry_models(final(entries)@) == put(entry_models(old(entries)@), key@, value@),
{
    let (p, found) = find_slot(entries, &key);
    proof {
        lemma_slot(entry_models(entries@), key@);
    }
    if found {
        entries[p] = (key, value);
        assert(entry_models(entries@) =~= entry_models(old(entries)@).update(
            p as int,
            (key@, value@),
        ));
    } else {
        entries.insert(p, (key, value));
        assert(entry_models(entries@) =~= entry_models(old(entries)@).insert(
            p as int,
            (key@, value@),
        ));
    }
}

/// The value that sorted `entries` hold under `key`, if any.
pub fn find<'a>(entries: &'a Vec<(Value, Value)>, key: &Value) -> (r: Option<&'a Value>)
    requires
        sorted(entry_models(entries@)),
    ensures
        match r {
            Some(v) => lookup(entry_models(entries@), key@) == Some(v@),
            None => lookup(entry_models(entries@), key@) is None,
        },
{
    let (p, found) = find_slot(entries, key);
    let ghost s = entry_models(entries@);
    proof {
        lemma_slot(s, key@);
    }
    if found {
        proof {
            lemma_lookup_at(s, p as int);
        }
        Some(&entries[p].1)
    } else {
        proof {
            if has_key(s, key@) {
                let i = key_index(s, key@);
                lemma_relate_same(s[i].0, key@);
                if i > p {
                    lemma_relate_same(s[p as int].0, key@);
                    lemma_relate_flip(s[p as int].0, key@);
                    lemma_relate_transitive(key@, s[p as int].0, s[i].0);
                }
            }
        }
        None
    }
}

/// Collects pairs into entries in key order; of two pairs with one key the
/// later one stays.
pub fn from_pairs(pairs: Vec<(Value, Value)>) -> (entries: Vec<(Value, Value)>)
    ensures
        entry_models(entries@) == put_all(Seq::empty(), entry_models(pairs@)),
        sorted(entry_models(entries@)),
{
    let mut entries: Vec<(Value, Value)> = Vec::new();
    let ghost all = entry_models(pairs@);
    assert(entry_models(entries@) =~= Seq::empty());
    for pair in it: pairs
        invariant
            it.seq() == pairs@,
            all == entry_models(pairs@),
            entry_models(entries@) == put_all(Seq::empty(), all.take(it.index() as int)),
            sorted(entry_models(entries@)),
    {
        proof {
            let n = it.index() as int;
            assert(all.take(n + 1).drop_last() =~= all.take(n));
            assert(all.take(n + 1).last() == (pair.0@, pair.1@));
            lemma_put_sorted(entry_models(entries@), pair.0@, pair.1@);
        }
        insert(&mut entries, pair.0, pair.1);
    }
    assert(all.take(pairs@.len() as int) =~= all);
    entries
}

proof fn lemma_tail(s: Seq<(Model, Model)>)
    requires
        sorted(s),
        s.len() > 0,
    ensures
        sorted(s.skip(1)),
        forall|x: Model| has_key(s.skip(1), x) <==> has_key(s, x) && x != s[0].0,
        forall|x: Model| has_key(s.skip(1), x) ==> lookup(s.skip(1), x) == lookup(s, x),
{
    let t = s.skip(1);
    assert forall|i: int, j: int| 0 <= i < j < t.len() implies relate(t[i].0, t[j].0)
        == Relation::Before by {
        assert(t[i] == s[i + 1] && t[j] == s[j + 1]);
    }
    assert forall|x: Model| has_key(t, x) <==> has_key(s, x) && x != s[0].0 by {
        if has_key(t, x) {
            let i = key_index(t, x);
            assert(s[i + 1].0 == x);
            lemma_relate_same(s[0].0, s[i + 1].0);
        }
        if has_key(s, x) && x != s[0].0 {
            let i = key_index(s, x);
            assert(t[i - 1].0 == x);
        }
    }
    assert forall|x: Model| has_key(t, x) implies lookup(t, x) == lookup(s, x) by {
        let i = key_index(t, x);
        lemma_lookup_at(t, i);
        assert(t[i] == s[i + 1]);
        lemma_lookup_at(s, i + 1);
    }
}

/// Entries in key order are determined by their association: two sorted
/// sequences of entries that hold the same association, whatever order
/// their entries were put in, are the same sequence.
pub proof fn lemma_sorted_unique(s: Seq<(Model, Model)>, t: Seq<(Model, Model)>)
    requires
        sorted(s),
        sorted(t),
        association(s) == association(t),
    ensures
        s == t,
    decreases s.len(),
{
    assert forall|x: Model| has_key(s, x) == has_key(t, x) by {
        assert(association(s).dom().contains(x) == has_key(s, x));
        assert(association(t).dom().contains(x) == has_key(t, x));
    }
    if s.len() == 0 || t.len() == 0 {
        if t.len() > 0 {
            lemma_lookup_at(t, 0);
            assert(has_key(s, t[0].0));
        }
        if s.len() > 0 {
            lemma_lookup_at(s, 0);
            assert(has_key(t, s[0].0));
        }
        assert(s =~= t);
    } else {
        lemma_lookup_at(s, 0);
        lemma_lookup_at(t, 0);
        let k = s[0].0;
        assert(has_key(t, k));
        assert(has_key(s, t[0].0));
        let j = key_index(t, k);
        let i = key_index(s, t[0].0);
        if j > 0 {
            lemma_relate_same(t[0].0, s[0].0);
            lemma_relate_flip(t[0].0, s[0].0);
            assert(relate(t[0].0, t[j].0) == Relation::Before);
            if i > 0 {
                assert(relate(s[0].0, s[i].0) == Relation::Before);
            }
            assert(false);
        }
        assert(t[0].0 == k);
        assert(association(s).dom().contains(k));
        assert(association(s)[k] == lookup(s, k)->0);
        assert(association(t)[k] == lookup(t, k)->0);
        assert(s[0].1 == t[0].1);
        lemma_tail(s);
        lemma_tail(t);
        assert(association(s.skip(1)) =~= association(t.skip(1))) by {
            assert forall|x: Model| has_key(s.skip(1), x) == has_key(t.skip(1), x) by {
                assert(has_key(s, x) == has_key(t, x));
            }
            assert forall|x: Model|
                association(s.skip(1)).dom().contains(x) == association(t.skip(1)).dom().contains(
                    x,
                ) by {
                assert(has_key(s.skip(1), x) == has_key(t.skip(1), x));
            }
            assert forall|x: Model| has_key(s.skip(1), x) implies lookup(s.skip(1), x) == lookup(
                t.skip(1),
                x,
            ) by {
                assert(has_key(s, x) && has_key(t, x) && has_key(t.skip(1), x));
                assert(association(s).dom().contains(x));
                assert(association(s)[x] == lookup(s, x)->0);
                assert(association(t)[x] == lookup(t, x)->0);
            }
        }
        lemma_sorted_unique(s.skip(1), t.skip(1));
        assert(s.len() == s.skip(1).len() + 1);
        assert(t.len() == t.skip(1).len() + 1);
        assert forall|n: int| 0 <= n < s.len() implies s[n] == t[n] by {
            if n > 0 {
                assert(s[n] == s.skip(1)[n - 1]);
                assert(t[n] == t.skip(1)[n - 1]);
            }
        }
        assert(s =~= t);
    }
}

/// Whether the entries stand in strictly increasing key order.
pub fn is_sorted(entries: &Vec<(Value, Value)>) -> (r: bool)
    ensures
        r == sorted(entry_models(entries@)),
{
    let ghost s = entry_models(entries@);
    if entries.len() == 0 {
        return true;
    }
    let mut i: usize = 1;
    while i < entries.len()
        invariant
            1 <= i <= entries.len(),
            s == entry_models(entries@),
            forall|a: int, b: int| 0 <= a < b < i ==> relate(s[a].0, s[b].0) == Relation::Before,
        decreases entries.len() - i,
    {
        let r = compare(&entries[i - 1].0, &entries[i].0);
        if r != Relation::Before {
            assert(relate(s[i - 1].0, s[i as int].0) != Relation::Before);
            return false;
        }
        assert forall|a: int, b: int| 0 <= a < b < i + 1 implies relate(s[a].0, s[b].0)
            == Relation::Before by {
            if b == i && a < i - 1 {
                lemma_relate_transitive(s[a].0, s[i - 1].0, s[i as int].0);
            }
        }
        i = i + 1;
    }
    true
}

/// Whether every map inside the value, at any depth, has its entries in key
/// order.
pub fn is_well_formed(v: &Value) -> (r: bool)
    ensures
        r == well_formed(v@),
    decreases v,
{
    match v {
        Value::Sequence(items) => {
            proof {
                lemma_view_sequence(*v);
            }
            items_well_formed(items)
        },
        Value::Mapping(entries) => {
            proof {
                lemma_view_mapping(*v);
            }
            is_sorted(entries) && pairs_well_formed(entries)
        },
        _ => true,
    }
}

/// Whether each of the values is well formed.
pub fn items_well_formed(items: &Vec<Value>) -> (r: bool)
    ensures
        r == well_formed(Model::Sequence(models(items@))),
    decreases items,
{
    let mut i: usize = 0;
    while i < items.len()
        invariant
            i <= items.len(),
            forall|k: int| 0 <= k < i ==> well_formed(models(items@)[k]),
        decreases items.len() - i,
    {
        if !is_well_formed(&items[i]) {
            proof {
                let s = models(items@);
                assert(s[i as int] == items@[i as int]@);
                assert(Model::Sequence(s)->Sequence_0[i as int] == s[i as int]);
            }
            return false;
        }
        i = i + 1;
    }
    true
}

/// Whether each key and each value of the entries is well formed.
pub fn pairs_well_formed(entries: &Vec<(Value, Value)>) -> (r: bool)
    ensures
        r == entries_well_formed(entry_models(entries@)),
    decreases entries,
{
    let ghost s = entry_models(entries@);
    let mut i: usize = 0;
    while i < entries.len()
        invariant
            i <= entries.len(),
            s == entry_models(entries@),
            forall|k: int| 0 <= k < i ==> well_formed((#[trigger] s[k]).0) && well_formed(s[k].1),
        decreases entries.len() - i,
    {
        if !is_well_formed(&entries[i].0) || !is_well_formed(&entries[i].1) {
            assert(!(well_formed(s[i as int].0) && well_formed(s[i as int].1)));
            return false;
        }
        i = i + 1;
    }
    true
}

} // verus!
