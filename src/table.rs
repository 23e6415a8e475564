//! Keyed tables held as lists of entries with unique keys, and the map each one stands for.
use vstd::prelude::*;

verus! {

/// The map that a list of entries stands for; a later entry wins over an earlier one.
pub open spec fn to_map<V>(s: Seq<(Seq<char>, V)>) -> Map<Seq<char>, V>
    decreases s.len(),
{
    if s.len() == 0 {
        Map::empty()
    } else {
        to_map(s.drop_last()).insert(s.last().0, s.last().1)
    }
}

/// No two entries share a key.
pub open spec fn unique_keys<V>(s: Seq<(Seq<char>, V)>) -> bool {
    forall|i: int, j: int| 0 <= i < j < s.len() ==> s[i].0 != s[j].0
}

/// Appending an entry sets its key in the map.
pub proof fn lemma_to_map_push<V>(s: Seq<(Seq<char>, V)>, e: (Seq<char>, V))
    ensures
        to_map(s.push(e)) == to_map(s).insert(e.0, e.1),
{
    assert(s.push(e).drop_last() =~= s);
}

/// Appending an entry under a new key keeps the keys unique and adds the entry to the map.
pub proof fn lemma_push_fresh<V>(s: Seq<(Seq<char>, V)>, e: (Seq<char>, V))
    requires
        unique_keys(s),
        !to_map(s).contains_key(e.0),
    ensures
        unique_keys(s.push(e)),
        to_map(s.push(e)) == to_map(s).insert(e.0, e.1),
{
    lemma_to_map_push(s, e);
    lemma_to_map_domain(s, e.0);
    let t = s.push(e);
    assert forall|i: int, j: int| 0 <= i < j < t.len() implies t[i].0 != t[j].0 by {
        if j == s.len() {
            assert(t[i] == s[i]);
        } else {
            assert(t[i] == s[i] && t[j] == s[j]);
        }
    }
}

/// Changing every value by `f`, keys kept, changes the map by `f`.
pub proof fn lemma_to_map_values<V>(s: Seq<(Seq<char>, V)>, t: Seq<(Seq<char>, V)>, f: spec_fn(V) -> V)
    requires
        s.len() == t.len(),
        forall|i: int| 0 <= i < s.len() ==> #[trigger] t[i] == (s[i].0, f(s[i].1)),
    ensures
        to_map(t) == to_map(s).map_values(f),
        unique_keys(s) ==> unique_keys(t),
    decreases s.len(),
{
    if s.len() > 0 {
        let s1 = s.drop_last();
        let t1 = t.drop_last();
        assert forall|i: int| 0 <= i < s1.len() implies #[trigger] t1[i] == (s1[i].0, f(s1[i].1)) by {
            assert(t[i] == (s[i].0, f(s[i].1)));
        }
        lemma_to_map_values(s1, t1, f);
        assert(t.last() == (s.last().0, f(s.last().1)));
    }
    assert(to_map(t) =~= to_map(s).map_values(f));
    if unique_keys(s) {
        assert forall|i: int, j: int| 0 <= i < j < t.len() implies t[i].0 != t[j].0 by {
            assert(t[i] == (s[i].0, f(s[i].1)));
            assert(t[j] == (s[j].0, f(s[j].1)));
        }
    }
}

/// A key is in the map exactly when some entry carries it.
pub proof fn lemma_to_map_domain<V>(s: Seq<(Seq<char>, V)>, k: Seq<char>)
    ensures
        to_map(s).contains_key(k) <==> exists|i: int| 0 <= i < s.len() && s[i].0 == k,
    decreases s.len(),
{
    if s.len() > 0 {
        let t = s.drop_last();
        lemma_to_map_domain(t, k);
        if to_map(s).contains_key(k) {
            if s.last().0 != k {
                let i = choose|i: int| 0 <= i < t.len() && t[i].0 == k;
                assert(s[i].0 == k);
            }
        }
        if exists|i: int| 0 <= i < s.len() && s[i].0 == k {
            let i = choose|i: int| 0 <= i < s.len() && s[i].0 == k;
            if i < t.len() {
                assert(t[i].0 == k);
            }
        }
    }
}

/// With unique keys, the map gives each entry's value under its key.
pub proof fn lemma_to_map_lookup<V>(s: Seq<(Seq<char>, V)>, i: int)
    requires
        unique_keys(s),
        0 <= i < s.len(),
    ensures
        to_map(s).contains_key(s[i].0),
        to_map(s)[s[i].0] == s[i].1,
    decreases s.len(),
{
    if i < s.len() - 1 {
        let t = s.drop_last();
        assert(t[i] == s[i]);
        lemma_to_map_lookup(t, i);
    }
}

/// Replacing the value of an entry, with unique keys, replaces it in the map.
pub proof fn lemma_to_map_update<V>(s: Seq<(Seq<char>, V)>, i: int, v: V)
    requires
        unique_keys(s),
        0 <= i < s.len(),
    ensures
        to_map(s.update(i, (s[i].0, v))) == to_map(s).insert(s[i].0, v),
        unique_keys(s.update(i, (s[i].0, v))),
    decreases s.len(),
{
    let u = s.update(i, (s[i].0, v));
    let t = s.drop_last();
    if i == s.len() - 1 {
        assert(u.drop_last() =~= t);
        assert(to_map(u) =~= to_map(s).insert(s[i].0, v));
    } else {
        assert(t[i] == s[i]);
        lemma_to_map_update(t, i, v);
        assert(u.drop_last() =~= t.update(i, (s[i].0, v)));
        assert(s.last().0 != s[i].0);
        assert(to_map(u) =~= to_map(s).insert(s[i].0, v));
    }
}

/// Removing an entry, with unique keys, removes its key from the map.
pub proof fn lemma_to_map_remove<V>(s: Seq<(Seq<char>, V)>, i: int)
    requires
        unique_keys(s),
        0 <= i < s.len(),
    ensures
        to_map(s.remove(i)) == to_map(s).remove(s[i].0),
        unique_keys(s.remove(i)),
    decreases s.len(),
{
    let r = s.remove(i);
    let t = s.drop_last();
    let k = s[i].0;
    if i == s.len() - 1 {
        assert(r =~= t);
        lemma_to_map_domain(t, k);
        assert(to_map(r) =~= to_map(s).remove(k));
    } else {
        assert(t[i] == s[i]);
        lemma_to_map_remove(t, i);
        assert(r.drop_last() =~= t.remove(i));
        assert(r.last() == s.last());
        assert(s.last().0 != k);
        assert(to_map(r) =~= to_map(s).remove(k));
    }
}

/// What an entry of a table is looked up by.
pub trait Keyed {
    spec fn key_view(&self) -> Seq<char>;

    fn key(&self) -> (r: &String)
        ensures
            r@ == self.key_view(),
    ;
}

impl<V> Keyed for (String, V) {
    open spec fn key_view(&self) -> Seq<char> {
        self.0@
    }

    fn key(&self) -> (r: &String) {
        &self.0
    }
}

/// The place of the entry whose key is `k`, if any.
pub fn position<T: Keyed>(v: &Vec<T>, k: &String) -> (r: Option<usize>)
    ensures
        match r {
            Some(i) => i < v@.len() && v@[i as int].key_view() == k@,
            None => forall|i: int| 0 <= i < v@.len() ==> v@[i].key_view() != k@,
        },
{
    let mut i: usize = 0;
    while i < v.len()
        invariant
            i <= v@.len(),
            forall|j: int| 0 <= j < i ==> v@[j].key_view() != k@,
        decreases v@.len() - i,
    {
        if v[i].key().eq(k) {
            return Some(i);
        }
        i += 1;
    }
    None
}

} // verus!
