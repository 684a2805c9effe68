//! Ordered key/value sequences in which a later entry for a key replaces the
//! earlier one in place.
use crate::cli::KV;
use crate::text::{first_where, lemma_first_where, lemma_first_where_is};
use vstd::prelude::*;

verus! {

/// A key with its value, as mathematical sequences of characters.
pub type Pair = (Seq<char>, Seq<char>);

/// The pairs that a sequence of `KV` stands for.
pub open spec fn pairs_of(v: Seq<KV>) -> Seq<Pair> {
    v.map_values(|kv: KV| kv@)
}

/// The test for an entry with key `k`.
pub open spec fn key_is(k: Seq<char>) -> spec_fn(Pair) -> bool {
    |e: Pair| e.0 == k
}

/// Index of the first entry of `m` with key `k`, or `m.len()` if there is none.
pub open spec fn key_index(m: Seq<Pair>, k: Seq<char>) -> int {
    first_where(m, key_is(k))
}

/// Whether `m` has an entry with key `k`.
pub open spec fn has_key(m: Seq<Pair>, k: Seq<char>) -> bool {
    0 <= key_index(m, k) < m.len()
}

/// The value of the first entry of `m` with key `k`.
pub open spec fn value_of(m: Seq<Pair>, k: Seq<char>) -> Option<Seq<char>> {
    if has_key(m, k) {
        Some(m[key_index(m, k)].1)
    } else {
        None
    }
}

/// No two entries of `m` have the same key.
pub open spec fn distinct_keys(m: Seq<Pair>) -> bool {
    forall|i: int, j: int| 0 <= i < j < m.len() ==> (#[trigger] m[i]).0 != (#[trigger] m[j]).0
}

/// `m` with the value of `k` set to `v`: in place where `m` has the key, at the
/// end where it has not.
pub open spec fn put(m: Seq<Pair>, k: Seq<char>, v: Seq<char>) -> Seq<Pair> {
    if has_key(m, k) {
        m.update(key_index(m, k), (k, v))
    } else {
        m.push((k, v))
    }
}

/// The entries of `items` put one after the other into an empty sequence.
pub open spec fn merged(items: Seq<Pair>) -> Seq<Pair>
    decreases items.len(),
{
    if items.len() == 0 {
        Seq::empty()
    } else {
        put(merged(items.drop_last()), items.last().0, items.last().1)
    }
}

/// The entries of `items` put one after the other into `acc`.
pub open spec fn merge_into(acc: Seq<Pair>, items: Seq<Pair>) -> Seq<Pair>
    decreases items.len(),
{
    if items.len() == 0 {
        acc
    } else {
        put(merge_into(acc, items.drop_last()), items.last().0, items.last().1)
    }
}

/// The value of the last entry of `items` with key `k`.
pub open spec fn last_value(items: Seq<Pair>, k: Seq<char>) -> Option<Seq<char>>
    decreases items.len(),
{
    if items.len() == 0 {
        None
    } else if items.last().0 == k {
        Some(items.last().1)
    } else {
        last_value(items.drop_last(), k)
    }
}

/// What `key_index` finds: within bounds, the first entry with the key.
pub proof fn lemma_key_index(m: Seq<Pair>, k: Seq<char>)
    ensures
        0 <= key_index(m, k) <= m.len(),
        forall|j: int| 0 <= j < key_index(m, k) ==> (#[trigger] m[j]).0 != k,
        has_key(m, k) ==> m[key_index(m, k)].0 == k,
        has_key(m, k) <==> exists|j: int| 0 <= j < m.len() && (#[trigger] m[j]).0 == k,
{
    let p = key_is(k);
    lemma_first_where(m, p);
    assert forall|j: int| 0 <= j < key_index(m, k) implies (#[trigger] m[j]).0 != k by {
        assert(!p(m[j]));
    }
    if has_key(m, k) {
        assert(p(m[key_index(m, k)]));
    }
    if exists|j: int| 0 <= j < m.len() && (#[trigger] m[j]).0 == k {
        let j = choose|j: int| 0 <= j < m.len() && (#[trigger] m[j]).0 == k;
        if key_index(m, k) > j {
            assert(!p(m[j]));
        }
    }
}

/// An index that holds the key, with no earlier entry that does, is `key_index`.
pub proof fn lemma_key_index_is(m: Seq<Pair>, k: Seq<char>, i: int)
    requires
        0 <= i <= m.len(),
        forall|j: int| 0 <= j < i ==> (#[trigger] m[j]).0 != k,
        i < m.len() ==> m[i].0 == k,
    ensures
        key_index(m, k) == i,
{
    assert forall|j: int| 0 <= j < i implies !key_is(k)(#[trigger] m[j]) by {
        assert(m[j].0 != k);
    }
    lemma_first_where_is(m, key_is(k), i);
}

/// How `put` treats the key it sets: the key ends up with the new value at the
/// place `key_index` names, and distinct keys stay distinct.
pub proof fn lemma_put(m: Seq<Pair>, k: Seq<char>, v: Seq<char>)
    ensures
        has_key(put(m, k, v), k),
        key_index(put(m, k, v), k) == key_index(m, k),
        value_of(put(m, k, v), k) == Some(v),
        distinct_keys(m) ==> distinct_keys(put(m, k, v)),
        put(m, k, v).len() == (if has_key(m, k) {
            m.len()
        } else {
            m.len() + 1
        }),
{
    let m2 = put(m, k, v);
    lemma_key_index(m, k);
    let i = key_index(m, k);
    assert forall|j: int| 0 <= j < i implies (#[trigger] m2[j]).0 != k by {
        assert(m2[j] == m[j]);
    }
    lemma_key_index_is(m2, k, i);
    if distinct_keys(m) {
        assert forall|a: int, b: int| 0 <= a < b < m2.len() implies (#[trigger] m2[a]).0 != (
        #[trigger] m2[b]).0 by {
            if has_key(m, k) {
                if a != i {
                    assert(m2[a] == m[a]);
                }
                if b != i {
                    assert(m2[b] == m[b]);
                }
                assert(m[a].0 != m[b].0);
            } else {
                assert(m2[a] == m[a]);
                if b < m.len() {
                    assert(m2[b] == m[b]);
                }
            }
        }
    }
}

/// How `put` treats every other key: it keeps its place and its value, and a
/// key that was absent stays absent.
pub proof fn lemma_put_other(m: Seq<Pair>, k: Seq<char>, v: Seq<char>, o: Seq<char>)
    requires
        o != k,
    ensures
        has_key(put(m, k, v), o) == has_key(m, o),
        has_key(m, o) ==> key_index(put(m, k, v), o) == key_index(m, o),
        value_of(put(m, k, v), o) == value_of(m, o),
{
    let m2 = put(m, k, v);
    lemma_key_index(m, k);
    lemma_key_index(m, o);
    let i = key_index(m, k);
    let io = key_index(m, o);
    if has_key(m, o) {
        assert forall|j: int| 0 <= j < io implies (#[trigger] m2[j]).0 != o by {
            if j != i {
                assert(m2[j] == m[j]);
            }
        }
        assert(io != i);
        assert(m2[io] == m[io]);
        lemma_key_index_is(m2, o, io);
    } else {
        assert forall|j: int| 0 <= j < m2.len() implies (#[trigger] m2[j]).0 != o by {
            if j < m.len() && j != i {
                assert(m2[j] == m[j]);
            }
        }
        lemma_key_index_is(m2, o, m2.len() as int);
    }
}

/// The entries of a merged sequence have distinct keys.
pub proof fn lemma_merged_distinct(items: Seq<Pair>)
    ensures
        distinct_keys(merged(items)),
    decreases items.len(),
{
    if items.len() > 0 {
        lemma_merged_distinct(items.drop_last());
        lemma_put(merged(items.drop_last()), items.last().0, items.last().1);
    }
}

/// In a merged sequence each key has the value of its last entry in `items`;
/// a key that `items` lacks is absent.
pub proof fn lemma_merged_last_wins(items: Seq<Pair>, k: Seq<char>)
    ensures
        value_of(merged(items), k) == last_value(items, k),
    decreases items.len(),
{
    if items.len() > 0 {
        lemma_merged_last_wins(items.drop_last(), k);
        lemma_put(merged(items.drop_last()), items.last().0, items.last().1);
        if items.last().0 != k {
            lemma_put_other(merged(items.drop_last()), items.last().0, items.last().1, k);
        }
    }
}

/// A key is in the merged sequence exactly if it is in `items`.
pub proof fn lemma_merged_keys(items: Seq<Pair>, k: Seq<char>)
    ensures
        has_key(merged(items), k) == has_key(items, k),
    decreases items.len(),
{
    if items.len() > 0 {
        let init = items.drop_last();
        lemma_merged_keys(init, k);
        lemma_key_index_prefix(items, k);
        lemma_key_index(init, k);
        lemma_put(merged(init), items.last().0, items.last().1);
        if items.last().0 != k {
            lemma_put_other(merged(init), items.last().0, items.last().1, k);
        }
    } else {
        lemma_key_index(items, k);
    }
}

/// Merging keeps the keys in the order in which `items` first names them.
pub proof fn lemma_merged_order(items: Seq<Pair>, a: Seq<char>, b: Seq<char>)
    requires
        has_key(items, a),
        has_key(items, b),
    ensures
        has_key(merged(items), a),
        has_key(merged(items), b),
        key_index(merged(items), a) < key_index(merged(items), b) <==> key_index(items, a)
            < key_index(items, b),
    decreases items.len(),
{
    lemma_merged_keys(items, a);
    lemma_merged_keys(items, b);
    lemma_key_index(items, a);
    lemma_key_index(items, b);
    if a != b {
        let init = items.drop_last();
        let m = merged(init);
        let (lk, lv) = items.last();
        lemma_key_index_prefix(items, a);
        lemma_key_index_prefix(items, b);
        lemma_key_index(init, a);
        lemma_key_index(init, b);
        lemma_merged_keys(init, a);
        lemma_merged_keys(init, b);
        lemma_key_index(m, a);
        lemma_key_index(m, b);
        lemma_put(m, lk, lv);
        if lk != a {
            lemma_put_other(m, lk, lv, a);
        }
        if lk != b {
            lemma_put_other(m, lk, lv, b);
        }
        if has_key(init, a) && has_key(init, b) {
            lemma_merged_order(init, a, b);
        }
    }
}

/// Where the sequence without its last entry has the key, the first entry with
/// it is the same in both; else it is the last entry or none.
pub proof fn lemma_key_index_prefix(items: Seq<Pair>, k: Seq<char>)
    requires
        items.len() > 0,
    ensures
        has_key(items.drop_last(), k) ==> key_index(items, k) == key_index(items.drop_last(), k),
        !has_key(items.drop_last(), k) ==> key_index(items, k) == (if items.last().0 == k {
            items.len() - 1
        } else {
            items.len() as int
        }),
{
    let init = items.drop_last();
    lemma_key_index(init, k);
    let i = key_index(init, k);
    if has_key(init, k) {
        assert forall|j: int| 0 <= j < i implies (#[trigger] items[j]).0 != k by {
            assert(items[j] == init[j]);
        }
        assert(items[i] == init[i]);
        lemma_key_index_is(items, k, i);
    } else {
        assert forall|j: int| 0 <= j < items.len() - 1 implies (#[trigger] items[j]).0 != k by {
            assert(items[j] == init[j]);
        }
        if items.last().0 == k {
            lemma_key_index_is(items, k, items.len() - 1);
        } else {
            lemma_key_index_is(items, k, items.len() as int);
        }
    }
}

/// Merging a sequence whose keys are distinct gives the sequence back.
pub proof fn lemma_merged_identity(items: Seq<Pair>)
    requires
        distinct_keys(items),
    ensures
        merged(items) == items,
    decreases items.len(),
{
    if items.len() > 0 {
        let init = items.drop_last();
        assert forall|i: int, j: int| 0 <= i < j < init.len() implies (#[trigger] init[i]).0 != (
        #[trigger] init[j]).0 by {
            assert(init[i] == items[i] && init[j] == items[j]);
        }
        lemma_merged_identity(init);
        assert forall|j: int| 0 <= j < init.len() implies (#[trigger] init[j]).0
            != items.last().0 by {
            assert(init[j] == items[j]);
            assert(items[j].0 != items[items.len() - 1].0);
        }
        lemma_key_index_is(init, items.last().0, init.len() as int);
        assert(init.push(items.last()) == items);
    }
}

/// Merging `b` into what `a` merges to is merging `a` followed by `b`.
pub proof fn lemma_merge_into(a: Seq<Pair>, b: Seq<Pair>)
    ensures
        merge_into(merged(a), b) == merged(a + b),
    decreases b.len(),
{
    if b.len() == 0 {
        assert(a + b == a);
    } else {
        lemma_merge_into(a, b.drop_last());
        assert((a + b).drop_last() == a + b.drop_last());
    }
}

/// In `a` followed by `b` the last value of a key is the one in `b` where `b`
/// has the key, and the one in `a` otherwise.
pub proof fn lemma_last_value_concat(a: Seq<Pair>, b: Seq<Pair>, k: Seq<char>)
    ensures
        last_value(a + b, k) == (if last_value(b, k) is Some {
            last_value(b, k)
        } else {
            last_value(a, k)
        }),
    decreases b.len(),
{
    if b.len() == 0 {
        assert(a + b == a);
    } else {
        lemma_last_value_concat(a, b.drop_last(), k);
        assert((a + b).drop_last() == a + b.drop_last());
    }
}

/// A key has a last value exactly if it has an entry.
pub proof fn lemma_last_value_some(items: Seq<Pair>, k: Seq<char>)
    ensures
        last_value(items, k) is Some <==> has_key(items, k),
{
    lemma_merged_last_wins(items, k);
    lemma_merged_keys(items, k);
}

/// Every entry of a merged sequence is an entry of `items`.
pub proof fn lemma_merged_entries(items: Seq<Pair>, i: int)
    requires
        0 <= i < merged(items).len(),
    ensures
        items.contains(merged(items)[i]),
    decreases items.len(),
{
    if items.len() > 0 {
        let init = items.drop_last();
        let m = merged(init);
        lemma_key_index(m, items.last().0);
        assert(items[items.len() - 1] == items.last());
        if merged(items)[i] != items.last() {
            assert(merged(items)[i] == m[i]);
            lemma_merged_entries(init, i);
            let j = choose|j: int| 0 <= j < init.len() && init[j] == m[i];
            assert(items[j] == init[j]);
        }
    }
}

/// Sets the value of `kv.key` in `m` to `kv.value`: in place where `m` has the
/// key, at the end where it has not.
pub fn upsert(m: &mut Vec<KV>, kv: KV)
    ensures
        pairs_of(final(m)@) == put(pairs_of(old(m)@), kv.key@, kv.value@),
{
    let ghost before = pairs_of(m@);
    let mut i: usize = 0;
    while i < m.len() && !(m[i].key == kv.key)
        invariant
            i <= m.len(),
            m@ == old(m)@,
            before == pairs_of(m@),
            forall|j: int| 0 <= j < i ==> (#[trigger] before[j]).0 != kv.key@,
        decreases m.len() - i,
    {
        i += 1;
    }
    proof {
        lemma_key_index_is(before, kv.key@, i as int);
    }
    if i < m.len() {
        m[i] = kv;
        assert(pairs_of(m@) == before.update(i as int, (kv.key@, kv.value@)));
    } else {
        m.push(kv);
        assert(pairs_of(m@) == before.push((kv.key@, kv.value@)));
    }
}

} // verus!
