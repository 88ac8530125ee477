//! Association tables: vectors of key/value pairs with string keys, looked
//! up by the first matching key. Manifest documents give every table with
//! distinct keys, so first-match lookup is ordinary map lookup; the
//! insert-with-overwrite used for derived tables keeps keys distinct.

use crate::text::str_eq;
use vstd::prelude::*;

verus! {

/// First-match lookup in a sequence of key/value pairs.
pub open spec fn spec_table_find<V>(s: Seq<(Seq<char>, V)>, k: Seq<char>) -> Option<V>
    decreases s.len(),
{
    if s.len() == 0 {
        None
    } else if s[0].0 == k {
        Some(s[0].1)
    } else {
        spec_table_find(s.skip(1), k)
    }
}

/// Insert with overwrite: replaces the value at the first occurrence of the
/// key, or appends a new pair when the key is absent.
pub open spec fn spec_table_set<V>(s: Seq<(Seq<char>, V)>, k: Seq<char>, v: V) -> Seq<
    (Seq<char>, V),
>
    decreases s.len(),
{
    if s.len() == 0 {
        seq![(k, v)]
    } else if s[0].0 == k {
        seq![(k, v)] + s.skip(1)
    } else {
        seq![s[0]] + spec_table_set(s.skip(1), k, v)
    }
}

/// A first occurrence of a key determines the lookup result.
pub proof fn lemma_table_find_some<V>(s: Seq<(Seq<char>, V)>, k: Seq<char>, i: int)
    requires
        0 <= i < s.len(),
        s[i].0 == k,
        forall|j: int| 0 <= j < i ==> s[j].0 != k,
    ensures
        spec_table_find(s, k) == Some(s[i].1),
    decreases i,
{
    if i > 0 {
        lemma_table_find_some(s.skip(1), k, i - 1);
    }
}

/// A key on no pair is found on none.
pub proof fn lemma_table_find_none<V>(s: Seq<(Seq<char>, V)>, k: Seq<char>)
    requires
        forall|j: int| 0 <= j < s.len() ==> s[j].0 != k,
    ensures
        spec_table_find(s, k) is None,
    decreases s.len(),
{
    if s.len() > 0 {
        lemma_table_find_none(s.skip(1), k);
    }
}

/// Inserting over the first occurrence of a key updates that pair in place.
pub proof fn lemma_table_set_found<V>(s: Seq<(Seq<char>, V)>, k: Seq<char>, v: V, i: int)
    requires
        0 <= i < s.len(),
        s[i].0 == k,
        forall|j: int| 0 <= j < i ==> s[j].0 != k,
    ensures
        spec_table_set(s, k, v) =~= s.update(i, (k, v)),
    decreases i,
{
    if i == 0 {
        assert(seq![(k, v)] + s.skip(1) =~= s.update(0, (k, v)));
    } else {
        lemma_table_set_found(s.skip(1), k, v, i - 1);
        assert(seq![s[0]] + s.skip(1).update(i - 1, (k, v)) =~= s.update(i, (k, v)));
    }
}

/// Inserting an absent key appends the pair.
pub proof fn lemma_table_set_absent<V>(s: Seq<(Seq<char>, V)>, k: Seq<char>, v: V)
    requires
        forall|j: int| 0 <= j < s.len() ==> s[j].0 != k,
    ensures
        spec_table_set(s, k, v) =~= s.push((k, v)),
    decreases s.len(),
{
    if s.len() == 0 {
        assert(seq![(k, v)] =~= s.push((k, v)));
    } else {
        lemma_table_set_absent(s.skip(1), k, v);
        assert(seq![s[0]] + s.skip(1).push((k, v)) =~= s.push((k, v)));
    }
}

/// After an insert, the inserted key is found with the inserted value.
pub proof fn lemma_table_set_finds<V>(s: Seq<(Seq<char>, V)>, k: Seq<char>, v: V)
    ensures
        spec_table_find(spec_table_set(s, k, v), k) == Some(v),
    decreases s.len(),
{
    if s.len() == 0 {
        assert(spec_table_set(s, k, v) == seq![(k, v)]);
        assert(spec_table_set(s, k, v).skip(1) =~= Seq::<(Seq<char>, V)>::empty());
    } else if s[0].0 == k {
        assert((seq![(k, v)] + s.skip(1))[0] == (k, v));
    } else {
        lemma_table_set_finds(s.skip(1), k, v);
        let t = seq![s[0]] + spec_table_set(s.skip(1), k, v);
        assert(t[0] == s[0]);
        assert(t.skip(1) =~= spec_table_set(s.skip(1), k, v));
    }
}

/// An insert leaves every other key's lookup unchanged.
pub proof fn lemma_table_set_preserves<V>(s: Seq<(Seq<char>, V)>, k: Seq<char>, v: V, k2: Seq<char>)
    requires
        k2 != k,
    ensures
        spec_table_find(spec_table_set(s, k, v), k2) == spec_table_find(s, k2),
    decreases s.len(),
{
    if s.len() == 0 {
        let t = seq![(k, v)];
        assert(t[0] == (k, v));
        assert(t.skip(1) =~= Seq::<(Seq<char>, V)>::empty());
        assert(spec_table_find(Seq::<(Seq<char>, V)>::empty(), k2) is None);
        assert(spec_table_find(s, k2) is None);
    } else if s[0].0 == k {
        let t = seq![(k, v)] + s.skip(1);
        assert(t[0] == (k, v));
        assert(t.skip(1) =~= s.skip(1));
    } else {
        lemma_table_set_preserves(s.skip(1), k, v, k2);
        let t = seq![s[0]] + spec_table_set(s.skip(1), k, v);
        assert(t[0] == s[0]);
        assert(t.skip(1) =~= spec_table_set(s.skip(1), k, v));
    }
}

/// Inserts with overwrite, as `spec_table_set` says: the first pair with
/// this key is replaced, or the pair is appended when the key is absent.
pub fn table_set<V: DeepView>(table: &mut Vec<(String, V)>, key: String, value: V)
    ensures
        final(table).deep_view() == spec_table_set(
            old(table).deep_view(),
            key@,
            value.deep_view(),
        ),
{
    let ghost m0 = table.deep_view();
    let ghost kv = value.deep_view();
    match table_find_index(table, key.as_str()) {
        Some(i) => {
            proof {
                lemma_table_set_found(m0, key@, kv, i as int);
            }
            table[i] = (key, value);
            proof {
                assert(table.deep_view() =~~= m0.update(i as int, (key@, kv)));
            }
        },
        None => {
            proof {
                lemma_table_set_absent(m0, key@, kv);
            }
            table.push((key, value));
            proof {
                assert(table.deep_view() =~~= m0.push((key@, kv)));
            }
        },
    }
}

/// The position of the first pair whose key reads as the given text, if any.
pub fn table_find_index<V>(table: &Vec<(String, V)>, key: &str) -> (r: Option<usize>)
    ensures
        r matches Some(i) ==> 0 <= i < table@.len() && table@[i as int].0@ == key@ && (forall|
            j: int,
        | 0 <= j < i ==> table@[j].0@ != key@),
        r is None ==> forall|j: int| 0 <= j < table@.len() ==> table@[j].0@ != key@,
{
    let n = table.len();
    let mut i: usize = 0;
    while i < n
        invariant
            i <= n,
            n == table@.len(),
            forall|j: int| 0 <= j < i ==> table@[j].0@ != key@,
        decreases n - i,
    {
        if str_eq(table[i].0.as_str(), key) {
            return Some(i);
        }
        i = i + 1;
    }
    None
}

} // verus!
