//! A map keyed by strings, kept as a vector of entries in insertion order
//! with no key repeated. It stands where the governance components keep a
//! `HashMap<String, _>`; its iteration order is the order of insertion.
use vstd::prelude::*;
use crate::text::str_eq;

verus! {

/// Key `k` appears in the entries.
pub open spec fn has_key<V>(s: Seq<(String, V)>, k: Seq<char>) -> bool {
    exists|i: int| 0 <= i < s.len() && (#[trigger] s[i]).0@ == k
}

/// Position of key `k` in the entries (meaningful when it appears).
pub open spec fn key_index<V>(s: Seq<(String, V)>, k: Seq<char>) -> int {
    choose|i: int| 0 <= i < s.len() && (#[trigger] s[i]).0@ == k
}

/// No key appears twice.
pub open spec fn keys_unique<V>(s: Seq<(String, V)>) -> bool {
    forall|i: int, j: int|
        0 <= i < s.len() && 0 <= j < s.len() && i != j ==> (#[trigger] s[i]).0@ != (#[trigger] s[j]).0@
}

/// The map that a sequence of entries stands for.
pub open spec fn entries_map<V>(s: Seq<(String, V)>) -> Map<Seq<char>, V> {
    Map::new(|k: Seq<char>| has_key(s, k), |k: Seq<char>| s[key_index(s, k)].1)
}

/// With unique keys, the entry at position `i` is the one the map gives
/// for its key.
pub proof fn lemma_entry_in_map<V>(s: Seq<(String, V)>, i: int)
    requires
        keys_unique(s),
        0 <= i < s.len(),
    ensures
        entries_map(s).contains_key(s[i].0@),
        entries_map(s)[s[i].0@] == s[i].1,
        key_index(s, s[i].0@) == i,
{
    assert(has_key(s, s[i].0@));
    let j = key_index(s, s[i].0@);
    assert(s[j].0@ == s[i].0@);
}

pub struct StrMap<V> {
    entries: Vec<(String, V)>,
}

impl<V> View for StrMap<V> {
    type V = Map<Seq<char>, V>;

    closed spec fn view(&self) -> Map<Seq<char>, V> {
        entries_map(self.entries@)
    }
}

impl<V> StrMap<V> {
    #[verifier::type_invariant]
    closed spec fn unique(self) -> bool {
        keys_unique(self.entries@)
    }

    /// The entries in insertion order.
    pub closed spec fn pairs(self) -> Seq<(String, V)> {
        self.entries@
    }

    /// The map view is the map of the entries.
    pub proof fn lemma_view_of_pairs(self)
        ensures
            self@ == entries_map(self.pairs()),
    {
    }

    /// An empty map.
    pub fn new() -> (r: StrMap<V>)
        ensures
            r@ == Map::<Seq<char>, V>::empty(),
            r.pairs().len() == 0,
    {
        let r = StrMap { entries: Vec::new() };
        assert(r@ =~= Map::<Seq<char>, V>::empty());
        r
    }

    /// Position of `k` among the entries.
    fn find(&self, k: &str) -> (r: Option<usize>)
        ensures
            r matches Some(i) ==> i < self.entries@.len() && self.entries@[i as int].0@ == k@,
            r is None ==> !has_key(self.entries@, k@),
    {
        let mut i: usize = 0;
        while i < self.entries.len()
            invariant
                i <= self.entries@.len(),
                forall|j: int| 0 <= j < i ==> (#[trigger] self.entries@[j]).0@ != k@,
            decreases self.entries@.len() - i,
        {
            if str_eq(self.entries[i].0.as_str(), k) {
                return Some(i);
            }
            i = i + 1;
        }
        None
    }

    /// Whether `k` is a key.
    pub fn contains_key(&self, k: &str) -> (r: bool)
        ensures
            r == self@.contains_key(k@),
    {
        self.find(k).is_some()
    }

    /// The value stored under `k`.
    pub fn get(&self, k: &str) -> (r: Option<&V>)
        ensures
            r is Some <==> self@.contains_key(k@),
            r matches Some(v) ==> *v == self@[k@],
    {
        proof {
            use_type_invariant(self);
        }
        match self.find(k) {
            Some(i) => {
                proof {
                    lemma_entry_in_map(self.entries@, i as int);
                }
                Some(&self.entries[i].1)
            },
            None => None,
        }
    }

    /// Number of keys.
    pub fn len(&self) -> (r: usize)
        ensures
            r == self@.len(),
            r == self.pairs().len(),
            self@.dom().finite(),
    {
        proof {
            use_type_invariant(self);
            lemma_map_finite_len(self.entries@);
        }
        self.entries.len()
    }

    /// The entries in insertion order.
    pub fn as_pairs(&self) -> (r: &Vec<(String, V)>)
        ensures
            r@ == self.pairs(),
            keys_unique(self.pairs()),
    {
        proof {
            use_type_invariant(self);
        }
        &self.entries
    }

    /// Stores `v` under `k`, replacing the value already there; a new key
    /// goes last, a known key keeps its position.
    pub fn insert(&mut self, k: String, v: V)
        ensures
            final(self)@ == old(self)@.insert(k@, v),
            keys_unique(old(self).pairs()),
            keys_unique(final(self).pairs()),
            old(self)@.contains_key(k@) ==> final(self).pairs() == old(self).pairs().update(
                key_index(old(self).pairs(), k@),
                (k, v),
            ),
            !old(self)@.contains_key(k@) ==> final(self).pairs() == old(self).pairs().push((k, v)),
    {
        proof {
            use_type_invariant(&*self);
        }
        let ghost old_entries = self.entries@;
        match self.find(k.as_str()) {
            Some(i) => {
                proof {
                    lemma_entry_in_map(old_entries, i as int);
                }
                let mut es: Vec<(String, V)> = Vec::new();
                std::mem::swap(&mut es, &mut self.entries);
                es.set(i, (k, v));
                proof {
                    let s = es@;
                    assert(keys_unique(s));
                    assert forall|q: Seq<char>| #[trigger]
                        entries_map(s).contains_key(q) == entries_map(old_entries).insert(
                            k@,
                            v,
                        ).contains_key(q) by {
                        if q == k@ {
                            assert(s[i as int].0@ == q);
                        } else if has_key(old_entries, q) {
                            let j = key_index(old_entries, q);
                            assert(s[j].0@ == q);
                        } else if has_key(s, q) {
                            let j = key_index(s, q);
                            assert(old_entries[j].0@ == q);
                        }
                    }
                    assert forall|q: Seq<char>| #[trigger]
                        entries_map(s).contains_key(q) implies entries_map(s)[q]
                        == entries_map(old_entries).insert(k@, v)[q] by {
                        let j = key_index(s, q);
                        lemma_entry_in_map(s, j);
                        if q != k@ {
                            lemma_entry_in_map(old_entries, j);
                        }
                    }
                    assert(entries_map(s) =~= entries_map(old_entries).insert(k@, v));
                }
                self.entries = es;
            },
            None => {
                let mut es: Vec<(String, V)> = Vec::new();
                std::mem::swap(&mut es, &mut self.entries);
                es.push((k, v));
                proof {
                    let s = es@;
                    assert(keys_unique(s));
                    assert forall|q: Seq<char>| #[trigger]
                        entries_map(s).contains_key(q) == entries_map(old_entries).insert(
                            k@,
                            v,
                        ).contains_key(q) by {
                        if q == k@ {
                            assert(s[old_entries.len() as int].0@ == q);
                        } else if has_key(old_entries, q) {
                            let j = key_index(old_entries, q);
                            assert(s[j].0@ == q);
                        } else if has_key(s, q) {
                            let j = key_index(s, q);
                            assert(old_entries[j].0@ == q);
                        }
                    }
                    assert forall|q: Seq<char>| #[trigger]
                        entries_map(s).contains_key(q) implies entries_map(s)[q]
                        == entries_map(old_entries).insert(k@, v)[q] by {
                        let j = key_index(s, q);
                        lemma_entry_in_map(s, j);
                        if q != k@ {
                            lemma_entry_in_map(old_entries, j);
                        }
                    }
                    assert(entries_map(s) =~= entries_map(old_entries).insert(k@, v));
                }
                self.entries = es;
            },
        }
    }

    /// Removes `k` and gives back its value; the other entries keep their
    /// order.
    pub fn remove(&mut self, k: &str) -> (r: Option<V>)
        ensures
            final(self)@ == old(self)@.remove(k@),
            r is Some <==> old(self)@.contains_key(k@),
            r matches Some(v) ==> v == old(self)@[k@],
            old(self)@.contains_key(k@) ==> final(self).pairs() == old(self).pairs().remove(
                key_index(old(self).pairs(), k@),
            ),
            !old(self)@.contains_key(k@) ==> final(self).pairs() == old(self).pairs(),
    {
        proof {
            use_type_invariant(&*self);
        }
        let ghost old_entries = self.entries@;
        match self.find(k) {
            Some(i) => {
                proof {
                    lemma_entry_in_map(old_entries, i as int);
                }
                let mut es: Vec<(String, V)> = Vec::new();
                std::mem::swap(&mut es, &mut self.entries);
                let (_, v) = es.remove(i);
                proof {
                    let s = es@;
                    assert(s =~= old_entries.remove(i as int));
                    assert forall|a: int, b: int|
                        0 <= a < s.len() && 0 <= b < s.len() && a != b implies (#[trigger] s[a]).0@
                        != (#[trigger] s[b]).0@ by {
                        let a2 = if a < i { a } else { a + 1 };
                        let b2 = if b < i { b } else { b + 1 };
                        assert(s[a] == old_entries[a2]);
                        assert(s[b] == old_entries[b2]);
                    }
                    assert forall|q: Seq<char>| #[trigger]
                        entries_map(s).contains_key(q) == entries_map(old_entries).remove(
                            k@,
                        ).contains_key(q) by {
                        if has_key(s, q) {
                            let j = key_index(s, q);
                            let j2 = if j < i { j } else { j + 1 };
                            assert(old_entries[j2].0@ == q);
                            assert(j2 != i);
                        }
                        if q != k@ && has_key(old_entries, q) {
                            let j = key_index(old_entries, q);
                            assert(j != i);
                            let j2 = if j < i { j } else { j - 1 };
                            assert(s[j2].0@ == q);
                        }
                    }
                    assert forall|q: Seq<char>| #[trigger]
                        entries_map(s).contains_key(q) implies entries_map(s)[q]
                        == entries_map(old_entries).remove(k@)[q] by {
                        let j = key_index(s, q);
                        lemma_entry_in_map(s, j);
                        let j2 = if j < i { j } else { j + 1 };
                        assert(old_entries[j2] == s[j]);
                        lemma_entry_in_map(old_entries, j2);
                    }
                    assert(entries_map(s) =~= entries_map(old_entries).remove(k@));
                }
                self.entries = es;
                Some(v)
            },
            None => {
                proof {
                    assert(entries_map(old_entries) =~= entries_map(old_entries).remove(k@));
                }
                None
            },
        }
    }
}

/// A map of unique entries has one key per entry.
proof fn lemma_map_finite_len<V>(s: Seq<(String, V)>)
    requires
        keys_unique(s),
    ensures
        entries_map(s).dom().finite(),
        entries_map(s).len() == s.len(),
    decreases s.len(),
{
    let m = entries_map(s);
    if s.len() == 0 {
        assert(m.dom() =~= Set::<Seq<char>>::empty());
    } else {
        let t = s.drop_last();
        assert(keys_unique(t));
        lemma_map_finite_len(t);
        let k = s.last().0@;
        assert forall|q: Seq<char>| #[trigger] m.dom().contains(q) == entries_map(t).dom().insert(
            k,
        ).contains(q) by {
            if has_key(s, q) && q != k {
                let j = key_index(s, q);
                assert(j != s.len() - 1);
                assert(t[j].0@ == q);
            }
            if has_key(t, q) {
                let j = key_index(t, q);
                assert(s[j].0@ == q);
            }
            if q == k {
                assert(s[s.len() - 1].0@ == q);
            }
        }
        assert(m.dom() =~= entries_map(t).dom().insert(k));
        if has_key(t, k) {
            let j = key_index(t, k);
            assert(s[j].0@ == s[s.len() - 1].0@);
            assert(false);
        }
    }
}

} // verus!

verus! {

/// The value a map holds for `k`, if any.
pub open spec fn lookup<V>(m: Map<Seq<char>, V>, k: Seq<char>) -> Option<V> {
    if m.contains_key(k) {
        Some(m[k])
    } else {
        None
    }
}

} // verus!
