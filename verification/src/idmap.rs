//! A map keyed by 128-bit identifiers, kept as a vector of entries in
//! insertion order with no identifier repeated.
use vstd::prelude::*;

verus! {

/// Key `k` appears in the entries.
pub open spec fn has_id<V>(s: Seq<(u128, V)>, k: u128) -> bool {
    exists|i: int| 0 <= i < s.len() && (#[trigger] s[i]).0 == k
}

/// Position of key `k` in the entries (meaningful when it appears).
pub open spec fn id_index<V>(s: Seq<(u128, V)>, k: u128) -> int {
    choose|i: int| 0 <= i < s.len() && (#[trigger] s[i]).0 == k
}

/// No key appears twice.
pub open spec fn ids_unique<V>(s: Seq<(u128, V)>) -> bool {
    forall|i: int, j: int|
        0 <= i < s.len() && 0 <= j < s.len() && i != j ==> (#[trigger] s[i]).0 != (#[trigger] s[j]).0
}

/// The map that a sequence of entries stands for.
pub open spec fn id_entries_map<V>(s: Seq<(u128, V)>) -> Map<u128, V> {
    Map::new(|k: u128| has_id(s, k), |k: u128| s[id_index(s, k)].1)
}

/// With unique keys, the entry at position `i` is the one the map gives
/// for its key.
pub proof fn lemma_id_entry_in_map<V>(s: Seq<(u128, V)>, i: int)
    requires
        ids_unique(s),
        0 <= i < s.len(),
    ensures
        id_entries_map(s).contains_key(s[i].0),
        id_entries_map(s)[s[i].0] == s[i].1,
        id_index(s, s[i].0) == i,
{
    assert(has_id(s, s[i].0));
    let j = id_index(s, s[i].0);
    assert(s[j].0 == s[i].0);
}

pub struct IdMap<V> {
    entries: Vec<(u128, V)>,
}

impl<V> View for IdMap<V> {
    type V = Map<u128, V>;

    closed spec fn view(&self) -> Map<u128, V> {
        id_entries_map(self.entries@)
    }
}

impl<V> IdMap<V> {
    #[verifier::type_invariant]
    closed spec fn unique(self) -> bool {
        ids_unique(self.entries@)
    }

    /// The entries in insertion order.
    pub closed spec fn pairs(self) -> Seq<(u128, V)> {
        self.entries@
    }

    /// The map view is the map of the entries.
    pub proof fn lemma_view_of_pairs(self)
        ensures
            self@ == id_entries_map(self.pairs()),
    {
    }

    /// An empty map.
    pub fn new() -> (r: IdMap<V>)
        ensures
            r@ == Map::<u128, V>::empty(),
            r.pairs().len() == 0,
    {
        let r = IdMap { entries: Vec::new() };
        assert(r@ =~= Map::<u128, V>::empty());
        r
    }

    /// Position of `k` among the entries.
    fn find(&self, k: u128) -> (r: Option<usize>)
        ensures
            r matches Some(i) ==> i < self.entries@.len() && self.entries@[i as int].0 == k,
            r is None ==> !has_id(self.entries@, k),
    {
        let mut i: usize = 0;
        while i < self.entries.len()
            invariant
                i <= self.entries@.len(),
                forall|j: int| 0 <= j < i ==> (#[trigger] self.entries@[j]).0 != k,
            decreases self.entries@.len() - i,
        {
            if self.entries[i].0 == k {
                return Some(i);
            }
            i = i + 1;
        }
        None
    }

    /// Whether `k` is a key.
    pub fn contains_key(&self, k: u128) -> (r: bool)
        ensures
            r == self@.contains_key(k),
    {
        self.find(k).is_some()
    }

    /// The value stored under `k`.
    pub fn get(&self, k: u128) -> (r: Option<&V>)
        ensures
            r is Some <==> self@.contains_key(k),
            r matches Some(v) ==> *v == self@[k],
    {
        proof {
            use_type_invariant(self);
        }
        match self.find(k) {
            Some(i) => {
                proof {
                    lemma_id_entry_in_map(self.entries@, i as int);
                }
                Some(&self.entries[i].1)
            },
            None => None,
        }
    }

    /// Number of keys.
    pub fn len(&self) -> (r: usize)
        ensures
            r == self@.len(),
            r == self.pairs().len(),
            self@.dom().finite(),
    {
        proof {
            use_type_invariant(self);
            lemma_id_map_finite_len(self.entries@);
        }
        self.entries.len()
    }

    /// The entries in insertion order.
    pub fn as_pairs(&self) -> (r: &Vec<(u128, V)>)
        ensures
            r@ == self.pairs(),
            ids_unique(self.pairs()),
    {
        proof {
            use_type_invariant(self);
        }
        &self.entries
    }

    /// Stores `v` under `k`, replacing the value already there; a new key
    /// goes last, a known key keeps its position.
    pub fn insert(&mut self, k: u128, v: V)
        ensures
            final(self)@ == old(self)@.insert(k, v),
            old(self)@.contains_key(k) ==> final(self).pairs() == old(self).pairs().update(
                id_index(old(self).pairs(), k),
                (k, v),
            ),
            !old(self)@.contains_key(k) ==> final(self).pairs() == old(self).pairs().push((k, v)),
    {
        proof {
            use_type_invariant(&*self);
        }
        let ghost old_entries = self.entries@;
        match self.find(k) {
            Some(i) => {
                proof {
                    lemma_id_entry_in_map(old_entries, i as int);
                }
                let mut es: Vec<(u128, V)> = Vec::new();
                std::mem::swap(&mut es, &mut self.entries);
                es.set(i, (k, v));
                proof {
                    let s = es@;
                    assert(ids_unique(s));
                    assert forall|q: u128| #[trigger]
                        id_entries_map(s).contains_key(q) == id_entries_map(old_entries).insert(
                            k,
                            v,
                        ).contains_key(q) by {
                        if q == k {
                            assert(s[i as int].0 == q);
                        } else if has_id(old_entries, q) {
                            let j = id_index(old_entries, q);
                            assert(s[j].0 == q);
                        } else if has_id(s, q) {
                            let j = id_index(s, q);
                            assert(old_entries[j].0 == q);
                        }
                    }
                    assert forall|q: u128| #[trigger]
                        id_entries_map(s).contains_key(q) implies id_entries_map(s)[q]
                        == id_entries_map(old_entries).insert(k, v)[q] by {
                        let j = id_index(s, q);
                        lemma_id_entry_in_map(s, j);
                        if q != k {
                            lemma_id_entry_in_map(old_entries, j);
                        }
                    }
                    assert(id_entries_map(s) =~= id_entries_map(old_entries).insert(k, v));
                }
                self.entries = es;
            },
            None => {
                let mut es: Vec<(u128, V)> = Vec::new();
                std::mem::swap(&mut es, &mut self.entries);
                es.push((k, v));
                proof {
                    let s = es@;
                    assert(ids_unique(s));
                    assert forall|q: u128| #[trigger]
                        id_entries_map(s).contains_key(q) == id_entries_map(old_entries).insert(
                            k,
                            v,
                        ).contains_key(q) by {
                        if q == k {
                            assert(s[old_entries.len() as int].0 == q);
                        } else if has_id(old_entries, q) {
                            let j = id_index(old_entries, q);
                            assert(s[j].0 == q);
                        } else if has_id(s, q) {
                            let j = id_index(s, q);
                            assert(old_entries[j].0 == q);
                        }
                    }
                    assert forall|q: u128| #[trigger]
                        id_entries_map(s).contains_key(q) implies id_entries_map(s)[q]
                        == id_entries_map(old_entries).insert(k, v)[q] by {
                        let j = id_index(s, q);
                        lemma_id_entry_in_map(s, j);
                        if q != k {
                            lemma_id_entry_in_map(old_entries, j);
                        }
                    }
                    assert(id_entries_map(s) =~= id_entries_map(old_entries).insert(k, v));
                }
                self.entries = es;
            },
        }
    }

    /// Removes `k` and gives back its value; the other entries keep their
    /// order.
    pub fn remove(&mut self, k: u128) -> (r: Option<V>)
        ensures
            final(self)@ == old(self)@.remove(k),
            r is Some <==> old(self)@.contains_key(k),
            r matches Some(v) ==> v == old(self)@[k],
            old(self)@.contains_key(k) ==> final(self).pairs() == old(self).pairs().remove(
                id_index(old(self).pairs(), k),
            ),
            !old(self)@.contains_key(k) ==> final(self).pairs() == old(self).pairs(),
    {
        proof {
            use_type_invariant(&*self);
        }
        let ghost old_entries = self.entries@;
        match self.find(k) {
            Some(i) => {
                proof {
                    lemma_id_entry_in_map(old_entries, i as int);
                }
                let mut es: Vec<(u128, V)> = Vec::new();
                std::mem::swap(&mut es, &mut self.entries);
                let (_, v) = es.remove(i);
                proof {
                    let s = es@;
                    assert(s =~= old_entries.remove(i as int));
                    assert forall|a: int, b: int|
                        0 <= a < s.len() && 0 <= b < s.len() && a != b implies (#[trigger] s[a]).0
                        != (#[trigger] s[b]).0 by {
                        let a2 = if a < i { a } else { a + 1 };
                        let b2 = if b < i { b } else { b + 1 };
                        assert(s[a] == old_entries[a2]);
                        assert(s[b] == old_entries[b2]);
                    }
                    assert forall|q: u128| #[trigger]
                        id_entries_map(s).contains_key(q) == id_entries_map(old_entries).remove(
                            k,
                        ).contains_key(q) by {
                        if has_id(s, q) {
                            let j = id_index(s, q);
                            let j2 = if j < i { j } else { j + 1 };
                            assert(old_entries[j2].0 == q);
                            assert(j2 != i);
                        }
                        if q != k && has_id(old_entries, q) {
                            let j = id_index(old_entries, q);
                            assert(j != i);
                            let j2 = if j < i { j } else { j - 1 };
                            assert(s[j2].0 == q);
                        }
                    }
                    assert forall|q: u128| #[trigger]
                        id_entries_map(s).contains_key(q) implies id_entries_map(s)[q]
                        == id_entries_map(old_entries).remove(k)[q] by {
                        let j = id_index(s, q);
                        lemma_id_entry_in_map(s, j);
                        let j2 = if j < i { j } else { j + 1 };
                        assert(old_entries[j2] == s[j]);
                        lemma_id_entry_in_map(old_entries, j2);
                    }
                    assert(id_entries_map(s) =~= id_entries_map(old_entries).remove(k));
                }
                self.entries = es;
                Some(v)
            },
            None => {
                proof {
                    assert(id_entries_map(old_entries) =~= id_entries_map(old_entries).remove(k));
                }
                None
            },
        }
    }
}

/// A map of unique entries has one key per entry.
proof fn lemma_id_map_finite_len<V>(s: Seq<(u128, V)>)
    requires
        ids_unique(s),
    ensures
        id_entries_map(s).dom().finite(),
        id_entries_map(s).len() == s.len(),
    decreases s.len(),
{
    let m = id_entries_map(s);
    if s.len() == 0 {
        assert(m.dom() =~= Set::<u128>::empty());
    } else {
        let t = s.drop_last();
        assert(ids_unique(t));
        lemma_id_map_finite_len(t);
        let k = s.last().0;
        assert forall|q: u128| #[trigger] m.dom().contains(q) == id_entries_map(t).dom().insert(
            k,
        ).contains(q) by {
            if has_id(s, q) && q != k {
                let j = id_index(s, q);
                assert(j != s.len() - 1);
                assert(t[j].0 == q);
            }
            if has_id(t, q) {
                let j = id_index(t, q);
                assert(s[j].0 == q);
            }
            if q == k {
                assert(s[s.len() - 1].0 == q);
            }
        }
        assert(m.dom() =~= id_entries_map(t).dom().insert(k));
        if has_id(t, k) {
            let j = id_index(t, k);
            assert(s[j].0 == s[s.len() - 1].0);
            assert(false);
        }
    }
}

} // verus!
