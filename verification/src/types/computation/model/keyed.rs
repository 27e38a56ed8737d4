use vstd::prelude::*;

verus! {

// Lists of (tag, value) entries with distinct tags, seen as maps from tag text to value.

/// The tags of the entries, as text.
pub open spec fn keys<V>(entries: Seq<(String, V)>) -> Seq<Seq<char>> {
    entries.map_values(|e: (String, V)| e.0@)
}

/// The entries as a map from tag text to the image of the value under `f`.
pub open spec fn keyed_map<V, W>(entries: Seq<(String, V)>, f: spec_fn(V) -> W) -> Map<Seq<char>, W> {
    Map::new(
        |k: Seq<char>| keys(entries).contains(k),
        |k: Seq<char>| f(entries[keys(entries).index_of(k)].1),
    )
}

/// In a list without repeated tags, a tag is found at the one position that holds it.
pub proof fn lemma_index_of_distinct<A>(s: Seq<A>, i: int)
    requires
        s.no_duplicates(),
        0 <= i < s.len(),
    ensures
        s.contains(s[i]),
        s.index_of(s[i]) == i,
{
    assert(s.contains(s[i]));
    let j = s.index_of(s[i]);
    assert(0 <= j < s.len() && s[j] == s[i]);
}

/// The value stored under the tag at position `i`.
pub proof fn lemma_keyed_map_at<V, W>(entries: Seq<(String, V)>, f: spec_fn(V) -> W, i: int)
    requires
        keys(entries).no_duplicates(),
        0 <= i < entries.len(),
    ensures
        keyed_map(entries, f).contains_key(entries[i].0@),
        keyed_map(entries, f)[entries[i].0@] == f(entries[i].1),
{
    lemma_index_of_distinct(keys(entries), i);
}

/// A tag with no entry is not a key of the map.
pub proof fn lemma_keyed_map_absent<V, W>(entries: Seq<(String, V)>, f: spec_fn(V) -> W, k: Seq<char>)
    requires
        forall|i: int| 0 <= i < entries.len() ==> entries[i].0@ != k,
    ensures
        !keyed_map(entries, f).contains_key(k),
{
}

/// Appending an entry with a fresh tag inserts it into the map.
pub proof fn lemma_keyed_map_push<V, W>(entries: Seq<(String, V)>, f: spec_fn(V) -> W, e: (String, V))
    requires
        keys(entries).no_duplicates(),
        !keys(entries).contains(e.0@),
    ensures
        keys(entries.push(e)).no_duplicates(),
        keys(entries.push(e)) == keys(entries).push(e.0@),
        keyed_map(entries.push(e), f) == keyed_map(entries, f).insert(e.0@, f(e.1)),
{
    let s = entries.push(e);
    assert(keys(s) =~= keys(entries).push(e.0@));
    let m1 = keyed_map(s, f);
    let m2 = keyed_map(entries, f).insert(e.0@, f(e.1));
    assert forall|k: Seq<char>| keys(s).contains(k) <==> (keys(entries).contains(k) || k == e.0@) by {
        if keys(entries).contains(k) {
            let j = choose|j: int| 0 <= j < keys(entries).len() && keys(entries)[j] == k;
            assert(keys(s)[j] == k);
        }
        if k == e.0@ {
            assert(keys(s)[entries.len() as int] == k);
        }
        if keys(s).contains(k) {
            let j = choose|j: int| 0 <= j < keys(s).len() && keys(s)[j] == k;
            if j < entries.len() {
                assert(keys(entries)[j] == k);
            }
        }
    }
    assert(m1.dom() =~= m2.dom());
    assert forall|k: Seq<char>| m1.contains_key(k) implies m1[k] == m2[k] by {
        let j = choose|j: int| 0 <= j < keys(s).len() && keys(s)[j] == k;
        lemma_index_of_distinct(keys(s), j);
        if j < entries.len() {
            assert(keys(entries)[j] == k);
            lemma_index_of_distinct(keys(entries), j);
        }
    }
    assert(m1 =~= m2);
}

/// Replacing the value of the entry at position `i` updates that tag in the map.
pub proof fn lemma_keyed_map_update<V, W>(entries: Seq<(String, V)>, f: spec_fn(V) -> W, i: int, v: V)
    requires
        keys(entries).no_duplicates(),
        0 <= i < entries.len(),
    ensures
        keys(entries.update(i, (entries[i].0, v))) == keys(entries),
        keyed_map(entries.update(i, (entries[i].0, v)), f) == keyed_map(entries, f).insert(entries[i].0@, f(v)),
{
    let s = entries.update(i, (entries[i].0, v));
    assert(keys(s) =~= keys(entries));
    let m1 = keyed_map(s, f);
    let m2 = keyed_map(entries, f).insert(entries[i].0@, f(v));
    lemma_index_of_distinct(keys(entries), i);
    assert forall|k: Seq<char>| m1.contains_key(k) implies m1[k] == m2[k] by {
        let j = choose|j: int| 0 <= j < keys(s).len() && keys(s)[j] == k;
        lemma_index_of_distinct(keys(s), j);
    }
    assert(m1 =~= m2);
}

/// Removing the entry at position `i` removes its tag from the map.
pub proof fn lemma_keyed_map_remove<V, W>(entries: Seq<(String, V)>, f: spec_fn(V) -> W, i: int)
    requires
        keys(entries).no_duplicates(),
        0 <= i < entries.len(),
    ensures
        keys(entries.remove(i)).no_duplicates(),
        keys(entries.remove(i)) == keys(entries).remove(i),
        keyed_map(entries.remove(i), f) == keyed_map(entries, f).remove(entries[i].0@),
{
    let s = entries.remove(i);
    let ks = keys(entries);
    assert(keys(s) =~= ks.remove(i));
    assert forall|a: int, b: int| 0 <= a < keys(s).len() && 0 <= b < keys(s).len() && a != b
        implies keys(s)[a] != keys(s)[b] by {
        let a2 = if a < i { a } else { a + 1 };
        let b2 = if b < i { b } else { b + 1 };
        assert(keys(s)[a] == ks[a2]);
        assert(keys(s)[b] == ks[b2]);
    }
    let m1 = keyed_map(s, f);
    let m2 = keyed_map(entries, f).remove(entries[i].0@);
    assert forall|k: Seq<char>| keys(s).contains(k) <==> (ks.contains(k) && k != entries[i].0@) by {
        if keys(s).contains(k) {
            let j = choose|j: int| 0 <= j < keys(s).len() && keys(s)[j] == k;
            let j2 = if j < i { j } else { j + 1 };
            assert(ks[j2] == k);
            assert(j2 != i);
            assert(ks[i] == entries[i].0@);
        }
        if ks.contains(k) && k != entries[i].0@ {
            let j = choose|j: int| 0 <= j < ks.len() && ks[j] == k;
            assert(j != i);
            let j2 = if j < i { j } else { j - 1 };
            assert(keys(s)[j2] == k);
        }
    }
    assert(m1.dom() =~= m2.dom());
    assert forall|k: Seq<char>| m1.contains_key(k) implies m1[k] == m2[k] by {
        let j = choose|j: int| 0 <= j < keys(s).len() && keys(s)[j] == k;
        lemma_index_of_distinct(keys(s), j);
        let j2 = if j < i { j } else { j + 1 };
        assert(ks[j2] == k);
        lemma_index_of_distinct(ks, j2);
    }
    assert(m1 =~= m2);
}

} // verus!
