use vstd::prelude::*;

verus! {

/// No two entries of `entries` carry the same name.
pub open spec fn keys_distinct<V>(entries: Seq<(String, V)>) -> bool {
    forall|i: int, j: int|
        0 <= i < entries.len() && 0 <= j < entries.len() && i != j ==> #[trigger] entries[i].0@
            != #[trigger] entries[j].0@
}

/// Some entry of `entries` carries the name `k`.
pub open spec fn has_key<V>(entries: Seq<(String, V)>, k: Seq<char>) -> bool {
    exists|i: int| 0 <= i < entries.len() && #[trigger] entries[i].0@ == k
}

/// The value of an entry of `entries` named `k`.
pub open spec fn value_of<V: View>(entries: Seq<(String, V)>, k: Seq<char>) -> V::V {
    entries[choose|i: int| 0 <= i < entries.len() && #[trigger] entries[i].0@ == k].1@
}

/// `entries` read as a map from names to values.
pub open spec fn entries_map<V: View>(entries: Seq<(String, V)>) -> Map<Seq<char>, V::V> {
    Map::new(|k: Seq<char>| has_key(entries, k), |k: Seq<char>| value_of(entries, k))
}

pub proof fn lemma_value_at<V: View>(entries: Seq<(String, V)>, i: int)
    requires
        keys_distinct(entries),
        0 <= i < entries.len(),
    ensures
        entries_map(entries).contains_key(entries[i].0@),
        entries_map(entries)[entries[i].0@] == entries[i].1@,
{
    let k = entries[i].0@;
    assert(has_key(entries, k));
    let j = choose|j: int| 0 <= j < entries.len() && #[trigger] entries[j].0@ == k;
    assert(entries[j].0@ == k);
}

/// Placing an entry with a fresh name anywhere adds that name to the map.
pub proof fn lemma_insert_fresh<V: View>(entries: Seq<(String, V)>, p: int, e: (String, V))
    requires
        keys_distinct(entries),
        !has_key(entries, e.0@),
        0 <= p <= entries.len(),
    ensures
        keys_distinct(entries.insert(p, e)),
        entries_map(entries.insert(p, e)) == entries_map(entries).insert(e.0@, e.1@),
{
    let s = entries.insert(p, e);
    assert forall|i: int| 0 <= i < s.len() implies #[trigger] s[i] == (if i < p {
        entries[i]
    } else if i == p {
        e
    } else {
        entries[i - 1]
    }) by {}
    assert forall|i: int, j: int|
        0 <= i < s.len() && 0 <= j < s.len() && i != j implies #[trigger] s[i].0@ != #[trigger] s[j].0@ by {
        if i != p && j != p {
            let ii = if i < p { i } else { i - 1 };
            let jj = if j < p { j } else { j - 1 };
            assert(s[i] == entries[ii] && s[j] == entries[jj]);
        } else if i == p {
            let jj = if j < p { j } else { j - 1 };
            assert(s[j] == entries[jj]);
        } else {
            let ii = if i < p { i } else { i - 1 };
            assert(s[i] == entries[ii]);
        }
    }
    let m = entries_map(s);
    let m0 = entries_map(entries).insert(e.0@, e.1@);
    assert forall|k: Seq<char>| m.contains_key(k) <==> m0.contains_key(k) by {
        if has_key(s, k) {
            let i = choose|i: int| 0 <= i < s.len() && #[trigger] s[i].0@ == k;
            if i < p {
                assert(s[i] == entries[i]);
                assert(has_key(entries, k));
            } else if i > p {
                assert(s[i] == entries[i - 1]);
                assert(has_key(entries, k));
            }
        }
        if has_key(entries, k) {
            let i = choose|i: int| 0 <= i < entries.len() && #[trigger] entries[i].0@ == k;
            if i < p {
                assert(s[i] == entries[i]);
            } else {
                assert(s[i + 1] == entries[i]);
            }
            assert(has_key(s, k));
        }
        if k == e.0@ {
            assert(s[p] == e);
            assert(has_key(s, k));
        }
    }
    assert forall|k: Seq<char>| #[trigger] m.contains_key(k) implies m[k] == m0[k] by {
        let i = choose|i: int| 0 <= i < s.len() && #[trigger] s[i].0@ == k;
        lemma_value_at(s, i);
        if i < p {
            assert(s[i] == entries[i]);
            lemma_value_at(entries, i);
        } else if i > p {
            assert(s[i] == entries[i - 1]);
            lemma_value_at(entries, i - 1);
        }
    }
    assert(m =~= m0);
}

/// Replacing the entry at `p` by one of the same name rebinds that name.
pub proof fn lemma_replace_at<V: View>(entries: Seq<(String, V)>, p: int, e: (String, V))
    requires
        keys_distinct(entries),
        0 <= p < entries.len(),
        entries[p].0@ == e.0@,
    ensures
        keys_distinct(entries.update(p, e)),
        entries_map(entries.update(p, e)) == entries_map(entries).insert(e.0@, e.1@),
{
    let s = entries.update(p, e);
    assert forall|i: int, j: int|
        0 <= i < s.len() && 0 <= j < s.len() && i != j implies #[trigger] s[i].0@ != #[trigger] s[j].0@ by {
        assert(s[i].0@ == entries[i].0@ && s[j].0@ == entries[j].0@);
    }
    let m = entries_map(s);
    let m0 = entries_map(entries).insert(e.0@, e.1@);
    assert forall|k: Seq<char>| m.contains_key(k) <==> m0.contains_key(k) by {
        if has_key(s, k) {
            let i = choose|i: int| 0 <= i < s.len() && #[trigger] s[i].0@ == k;
            assert(entries[i].0@ == k);
        }
        if has_key(entries, k) {
            let i = choose|i: int| 0 <= i < entries.len() && #[trigger] entries[i].0@ == k;
            assert(s[i].0@ == k);
        }
        if k == e.0@ {
            assert(s[p].0@ == k);
        }
    }
    assert forall|k: Seq<char>| #[trigger] m.contains_key(k) implies m[k] == m0[k] by {
        let i = choose|i: int| 0 <= i < s.len() && #[trigger] s[i].0@ == k;
        lemma_value_at(s, i);
        if i != p {
            assert(s[i] == entries[i]);
            lemma_value_at(entries, i);
        }
    }
    assert(m =~= m0);
}

} // verus!
