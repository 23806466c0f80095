//! String-keyed association lists and their `Map` views.
//!
//! The registry, the session store, the liveness index and the per-session
//! bucket table are all small string-keyed tables. Each is held as a
//! `Vec<(String, V)>` with pairwise-distinct keys, and each is specified
//! against the `Map<Seq<char>, V>` that the list denotes. This module holds
//! that denotation and the lemmas that connect list edits to map edits.

use vstd::prelude::*;

verus! {

/// No two entries share a key.
pub open spec fn distinct_keys<V>(s: Seq<(String, V)>) -> bool {
    forall|i: int, j: int| 0 <= i < j < s.len() ==> s[i].0@ != s[j].0@
}

/// Some entry carries the key `k`.
pub open spec fn has_key<V>(s: Seq<(String, V)>, k: Seq<char>) -> bool {
    exists|i: int| 0 <= i < s.len() && s[i].0@ == k
}

/// The finite map that the association list denotes; later entries win.
pub open spec fn assoc_map<V>(s: Seq<(String, V)>) -> Map<Seq<char>, V>
    decreases s.len(),
{
    if s.len() == 0 {
        Map::empty()
    } else {
        assoc_map(s.drop_last()).insert(s.last().0@, s.last().1)
    }
}

/// The denoted map is finite and its domain is exactly the keys on the list.
pub proof fn lemma_assoc_dom<V>(s: Seq<(String, V)>)
    ensures
        assoc_map(s).dom().finite(),
        forall|k: Seq<char>| #[trigger] assoc_map(s).dom().contains(k) <==> has_key(s, k),
    decreases s.len(),
{
    if s.len() == 0 {
        assert(forall|k: Seq<char>| !(#[trigger] assoc_map(s).dom().contains(k)));
        assert(forall|k: Seq<char>| !has_key(s, k));
    } else {
        let butlast = s.drop_last();
        lemma_assoc_dom(butlast);
        assert forall|k: Seq<char>| #[trigger] assoc_map(s).dom().contains(k) implies has_key(
            s,
            k,
        ) by {
            if k == s.last().0@ {
                assert(s[s.len() - 1].0@ == k);
            } else {
                let i = choose|i: int| 0 <= i < butlast.len() && butlast[i].0@ == k;
                assert(s[i].0@ == k);
            }
        }
        assert forall|k: Seq<char>| has_key(s, k) implies #[trigger] assoc_map(
            s,
        ).dom().contains(k) by {
            let i = choose|i: int| 0 <= i < s.len() && s[i].0@ == k;
            if i < s.len() - 1 {
                assert(butlast[i].0@ == k);
            }
        }
    }
}

/// Under distinct keys, the entry at any index is the map's value for its key.
pub proof fn lemma_assoc_index<V>(s: Seq<(String, V)>, i: int)
    requires
        distinct_keys(s),
        0 <= i < s.len(),
    ensures
        assoc_map(s).dom().contains(s[i].0@),
        assoc_map(s)[s[i].0@] == s[i].1,
    decreases s.len(),
{
    if i == s.len() - 1 {
    } else {
        let butlast = s.drop_last();
        assert(distinct_keys(butlast));
        lemma_assoc_index(butlast, i);
        assert(s[i].0@ != s.last().0@);
    }
}

/// Under distinct keys, the map has exactly as many entries as the list.
pub proof fn lemma_assoc_len<V>(s: Seq<(String, V)>)
    requires
        distinct_keys(s),
    ensures
        assoc_map(s).dom().finite(),
        assoc_map(s).dom().len() == s.len(),
    decreases s.len(),
{
    lemma_assoc_dom(s);
    if s.len() > 0 {
        let butlast = s.drop_last();
        assert(distinct_keys(butlast));
        lemma_assoc_len(butlast);
        lemma_assoc_dom(butlast);
        assert(!has_key(butlast, s.last().0@));
        assert(assoc_map(s).dom() =~= assoc_map(butlast).dom().insert(s.last().0@));
    }
}

/// Replacing the value at index `i` (key kept) is a map `insert` on its key.
pub proof fn lemma_assoc_update<V>(s: Seq<(String, V)>, i: int, v: V)
    requires
        distinct_keys(s),
        0 <= i < s.len(),
    ensures
        distinct_keys(s.update(i, (s[i].0, v))),
        assoc_map(s.update(i, (s[i].0, v))) == assoc_map(s).insert(s[i].0@, v),
    decreases s.len(),
{
    let s2 = s.update(i, (s[i].0, v));
    assert(forall|x: int| 0 <= x < s.len() && x != i ==> s2[x] == s[x]);
    assert(distinct_keys(s2));
    if i == s.len() - 1 {
        assert(s2.drop_last() =~= s.drop_last());
        assert(assoc_map(s2) == assoc_map(s.drop_last()).insert(s[i].0@, v));
        assert(assoc_map(s).insert(s[i].0@, v) =~= assoc_map(s.drop_last()).insert(s[i].0@, v));
    } else {
        let butlast = s.drop_last();
        assert(distinct_keys(butlast));
        lemma_assoc_update(butlast, i, v);
        assert(s2.drop_last() =~= butlast.update(i, (s[i].0, v)));
        assert(s2.last() == s.last());
        // the two inserts commute because the keys differ
        assert(s[i].0@ != s.last().0@);
        assert(assoc_map(butlast).insert(s[i].0@, v).insert(s.last().0@, s.last().1)
            =~= assoc_map(butlast).insert(s.last().0@, s.last().1).insert(s[i].0@, v));
    }
}

/// Appending a fresh key is a map `insert` of that key.
pub proof fn lemma_assoc_push<V>(s: Seq<(String, V)>, key: String, v: V)
    requires
        distinct_keys(s),
        !has_key(s, key@),
    ensures
        distinct_keys(s.push((key, v))),
        assoc_map(s.push((key, v))) == assoc_map(s).insert(key@, v),
{
    let s2 = s.push((key, v));
    assert forall|i: int, j: int| 0 <= i < j < s2.len() implies s2[i].0@ != s2[j].0@ by {
        if j == s2.len() - 1 {
            assert(s[i].0@ != key@);
        }
    }
    assert(s2.drop_last() =~= s);
}

/// Dropping the entry at index `i` is a map `remove` of its key.
pub proof fn lemma_assoc_remove<V>(s: Seq<(String, V)>, i: int)
    requires
        distinct_keys(s),
        0 <= i < s.len(),
    ensures
        distinct_keys(s.remove(i)),
        assoc_map(s.remove(i)) == assoc_map(s).remove(s[i].0@),
    decreases s.len(),
{
    let s2 = s.remove(i);
    assert(forall|x: int| 0 <= x < i ==> s2[x] == s[x]);
    assert(forall|x: int| i <= x < s2.len() ==> s2[x] == s[x + 1]);
    assert forall|x: int, y: int| 0 <= x < y < s2.len() implies s2[x].0@ != s2[y].0@ by {
        let sx = if x < i { x } else { x + 1 };
        let sy = if y < i { y } else { y + 1 };
        assert(s2[x] == s[sx] && s2[y] == s[sy]);
    }
    if i == s.len() - 1 {
        assert(s2 =~= s.drop_last());
        lemma_assoc_dom(s.drop_last());
        assert(distinct_keys(s.drop_last()));
        assert(!has_key(s.drop_last(), s[i].0@));
        assert(!assoc_map(s.drop_last()).dom().contains(s[i].0@));
        assert(assoc_map(s.drop_last()) =~= assoc_map(s).remove(s[i].0@));
    } else {
        let butlast = s.drop_last();
        assert(distinct_keys(butlast));
        lemma_assoc_remove(butlast, i);
        assert(s2.drop_last() =~= butlast.remove(i));
        assert(s2.last() == s.last());
        assert(s[i].0@ != s.last().0@);
        assert(assoc_map(butlast).remove(s[i].0@).insert(s.last().0@, s.last().1)
            =~= assoc_map(butlast).insert(s.last().0@, s.last().1).remove(s[i].0@));
    }
}

/// Linear search for a key; the backbone of every lookup in the crate.
pub fn find_index<V>(entries: &Vec<(String, V)>, key: &String) -> (r: Option<usize>)
    ensures
        match r {
            Some(i) => i < entries@.len() && entries@[i as int].0@ == key@,
            None => !has_key(entries@, key@),
        },
{
    let n = entries.len();
    let mut i: usize = 0;
    while i < n
        invariant
            n == entries@.len(),
            i <= n,
            forall|j: int| 0 <= j < i ==> entries@[j].0@ != key@,
        decreases n - i,
    {
        if entries[i].0 == *key {
            return Some(i);
        }
        i = i + 1;
    }
    None
}

} // verus!
