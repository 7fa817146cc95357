//! Keyed-collection model: the registry keeps its rosters and mappings in
//! plain vectors with distinct keys, and reasons about them through the
//! `Set` and `Map` views defined here.

use vstd::prelude::*;

verus! {

/// The set of element views of a sequence.
pub open spec fn set_view<T: View>(s: Seq<T>) -> Set<T::V>
    decreases s.len(),
{
    if s.len() == 0 {
        Set::empty()
    } else {
        set_view(s.drop_last()).insert(s.last()@)
    }
}

/// The map built from a sequence of entries; a later entry for the same key
/// wins, which never arises while the keys are distinct.
pub open spec fn map_view<K: View, U: View>(s: Seq<(K, U)>) -> Map<K::V, U::V>
    decreases s.len(),
{
    if s.len() == 0 {
        Map::empty()
    } else {
        map_view(s.drop_last()).insert(s.last().0@, s.last().1@)
    }
}

/// No two elements of the sequence share a view.
pub open spec fn distinct_views<T: View>(s: Seq<T>) -> bool {
    forall|i: int, j: int| 0 <= i < j < s.len() ==> s[i]@ != s[j]@
}

/// No two entries of the sequence share a key view.
pub open spec fn distinct_keys<K: View, U>(s: Seq<(K, U)>) -> bool {
    forall|i: int, j: int| 0 <= i < j < s.len() ==> s[i].0@ != s[j].0@
}

/// A view is in `set_view(s)` exactly when some element of `s` carries it.
pub proof fn lemma_set_view_contains<T: View>(s: Seq<T>, x: T::V)
    ensures
        set_view(s).contains(x) <==> exists|i: int| 0 <= i < s.len() && s[i]@ == x,
    decreases s.len(),
{
    if s.len() > 0 {
        lemma_set_view_contains(s.drop_last(), x);
        if set_view(s).contains(x) {
            if x == s.last()@ {
                assert(s[s.len() - 1]@ == x);
            } else {
                let i = choose|i: int| 0 <= i < s.drop_last().len() && s.drop_last()[i]@ == x;
                assert(s[i]@ == x);
            }
        }
        if exists|i: int| 0 <= i < s.len() && s[i]@ == x {
            let i = choose|i: int| 0 <= i < s.len() && s[i]@ == x;
            if i < s.len() - 1 {
                assert(s.drop_last()[i]@ == x);
            }
        }
    }
}

/// Appending an element adds exactly its view to the set view.
pub proof fn lemma_set_view_push<T: View>(s: Seq<T>, t: T)
    ensures
        set_view(s.push(t)) == set_view(s).insert(t@),
{
    assert(s.push(t).drop_last() =~= s);
    assert(s.push(t).last() == t);
}

/// A key is in `map_view(s)` exactly when some entry of `s` carries it.
pub proof fn lemma_map_view_contains<K: View, U: View>(s: Seq<(K, U)>, k: K::V)
    ensures
        map_view(s).contains_key(k) <==> exists|i: int| 0 <= i < s.len() && s[i].0@ == k,
    decreases s.len(),
{
    if s.len() > 0 {
        lemma_map_view_contains(s.drop_last(), k);
        if map_view(s).contains_key(k) {
            if k == s.last().0@ {
                assert(s[s.len() - 1].0@ == k);
            } else {
                let i = choose|i: int|
                    0 <= i < s.drop_last().len() && s.drop_last()[i].0@ == k;
                assert(s[i].0@ == k);
            }
        }
        if exists|i: int| 0 <= i < s.len() && s[i].0@ == k {
            let i = choose|i: int| 0 <= i < s.len() && s[i].0@ == k;
            if i < s.len() - 1 {
                assert(s.drop_last()[i].0@ == k);
            }
        }
    }
}

/// With distinct keys, the entry at any index gives the map's value at its
/// key.
pub proof fn lemma_map_view_value<K: View, U: View>(s: Seq<(K, U)>, i: int)
    requires
        distinct_keys(s),
        0 <= i < s.len(),
    ensures
        map_view(s).contains_key(s[i].0@),
        map_view(s)[s[i].0@] == s[i].1@,
    decreases s.len(),
{
    if i < s.len() - 1 {
        assert(distinct_keys(s.drop_last()));
        lemma_map_view_value(s.drop_last(), i);
        assert(s.drop_last()[i] == s[i]);
        assert(s[i].0@ != s.last().0@);
    }
}

/// Appending an entry updates the map view at exactly its key.
pub proof fn lemma_map_view_push<K: View, U: View>(s: Seq<(K, U)>, t: (K, U))
    ensures
        map_view(s.push(t)) == map_view(s).insert(t.0@, t.1@),
{
    assert(s.push(t).drop_last() =~= s);
    assert(s.push(t).last() == t);
}

/// Removing the element at an index of a view-distinct sequence removes
/// exactly its view from the set view.
pub proof fn lemma_set_view_remove_at<T: View>(s: Seq<T>, i: int)
    requires
        distinct_views(s),
        0 <= i < s.len(),
    ensures
        set_view(s.remove(i)) == set_view(s).remove(s[i]@),
    decreases s.len(),
{
    if i == s.len() - 1 {
        assert(s.remove(i) =~= s.drop_last());
        lemma_set_view_contains(s.drop_last(), s[i]@);
        assert(forall|j: int| 0 <= j < s.drop_last().len() ==> s.drop_last()[j]@ != s[i]@);
        assert(set_view(s.drop_last()) =~= set_view(s.drop_last()).insert(s[i]@).remove(s[i]@));
    } else {
        assert(distinct_views(s.drop_last()));
        lemma_set_view_remove_at(s.drop_last(), i);
        assert(s.remove(i).drop_last() =~= s.drop_last().remove(i));
        assert(s.remove(i).last() == s.last());
        assert(s.drop_last()[i] == s[i]);
        assert(s[i]@ != s.last()@);
        assert(set_view(s.drop_last()).remove(s[i]@).insert(s.last()@) =~= set_view(
            s.drop_last(),
        ).insert(s.last()@).remove(s[i]@));
    }
}

/// Removing the entry at an index of a key-distinct sequence removes
/// exactly its key from the map view.
pub proof fn lemma_map_view_remove_at<K: View, U: View>(s: Seq<(K, U)>, i: int)
    requires
        distinct_keys(s),
        0 <= i < s.len(),
    ensures
        map_view(s.remove(i)) == map_view(s).remove(s[i].0@),
    decreases s.len(),
{
    if i == s.len() - 1 {
        assert(s.remove(i) =~= s.drop_last());
        lemma_map_view_contains(s.drop_last(), s[i].0@);
        assert(forall|j: int|
            0 <= j < s.drop_last().len() ==> s.drop_last()[j].0@ != s[i].0@);
        assert(map_view(s.drop_last()) =~= map_view(s.drop_last()).insert(
            s[i].0@,
            s[i].1@,
        ).remove(s[i].0@));
    } else {
        assert(distinct_keys(s.drop_last()));
        lemma_map_view_remove_at(s.drop_last(), i);
        assert(s.remove(i).drop_last() =~= s.drop_last().remove(i));
        assert(s.remove(i).last() == s.last());
        assert(s.drop_last()[i] == s[i]);
        assert(s[i].0@ != s.last().0@);
        assert(map_view(s.drop_last()).remove(s[i].0@).insert(s.last().0@, s.last().1@) =~= map_view(
            s.drop_last(),
        ).insert(s.last().0@, s.last().1@).remove(s[i].0@));
    }
}

/// Removing an element keeps the remaining views distinct.
pub proof fn lemma_distinct_views_remove_at<T: View>(s: Seq<T>, i: int)
    requires
        distinct_views(s),
        0 <= i < s.len(),
    ensures
        distinct_views(s.remove(i)),
{
    assert forall|p: int, q: int| 0 <= p < q < s.remove(i).len() implies s.remove(i)[p]@ != s.remove(
        i,
    )[q]@ by {
        let p0 = if p < i { p } else { p + 1 };
        let q0 = if q < i { q } else { q + 1 };
        assert(s.remove(i)[p] == s[p0]);
        assert(s.remove(i)[q] == s[q0]);
    }
}

/// Removing an entry keeps the remaining keys distinct.
pub proof fn lemma_distinct_keys_remove_at<K: View, U>(s: Seq<(K, U)>, i: int)
    requires
        distinct_keys(s),
        0 <= i < s.len(),
    ensures
        distinct_keys(s.remove(i)),
{
    assert forall|p: int, q: int| 0 <= p < q < s.remove(i).len() implies s.remove(i)[p].0@ != s.remove(
        i,
    )[q].0@ by {
        let p0 = if p < i { p } else { p + 1 };
        let q0 = if q < i { q } else { q + 1 };
        assert(s.remove(i)[p] == s[p0]);
        assert(s.remove(i)[q] == s[q0]);
    }
}

/// The set view of any sequence is finite.
pub proof fn lemma_set_view_finite<T: View>(s: Seq<T>)
    ensures
        set_view(s).finite(),
    decreases s.len(),
{
    if s.len() > 0 {
        lemma_set_view_finite(s.drop_last());
    }
}

} // verus!
