//! A small associative store keyed by strings, kept as a list of entries in
//! which no key occurs twice. Its view is the finite map it represents.

use vstd::prelude::*;

verus! {

/// No two entries of `s` carry the same key.
spec fn distinct_keys<V>(s: Seq<(String, V)>) -> bool {
    forall|i: int, j: int| 0 <= i < j < s.len() ==> (#[trigger] s[i]).0@ != (#[trigger] s[j]).0@
}

/// Some entry of `s` carries the key `k`.
spec fn has_key<V>(s: Seq<(String, V)>, k: Seq<char>) -> bool {
    exists|i: int| 0 <= i < s.len() && (#[trigger] s[i]).0@ == k
}

/// The position of an entry of `s` that carries the key `k`.
spec fn slot_of<V>(s: Seq<(String, V)>, k: Seq<char>) -> int {
    choose|i: int| 0 <= i < s.len() && (#[trigger] s[i]).0@ == k
}

/// The finite map that the entries `s` represent.
spec fn entries_map<V>(s: Seq<(String, V)>) -> Map<Seq<char>, V> {
    Map::new(|k: Seq<char>| has_key(s, k), |k: Seq<char>| s[slot_of(s, k)].1)
}

/// With distinct keys, the entry at position `i` is the one its key is mapped through.
proof fn lemma_slot_unique<V>(s: Seq<(String, V)>, i: int)
    requires
        distinct_keys(s),
        0 <= i < s.len(),
    ensures
        has_key(s, s[i].0@),
        slot_of(s, s[i].0@) == i,
        entries_map(s).contains_key(s[i].0@),
        entries_map(s)[s[i].0@] == s[i].1,
{
    let k = s[i].0@;
    let j = slot_of(s, k);
    assert(0 <= j < s.len() && s[j].0@ == k);
    if j < i {
        assert(s[j].0@ != s[i].0@);
    } else if i < j {
        assert(s[i].0@ != s[j].0@);
    }
}

/// The map that entries represent has finitely many keys.
proof fn lemma_entries_map_finite<V>(s: Seq<(String, V)>)
    ensures
        entries_map(s).dom().finite(),
    decreases s.len(),
{
    if s.len() == 0 {
        assert(entries_map(s).dom() =~= Set::<Seq<char>>::empty());
    } else {
        let front = s.drop_last();
        lemma_entries_map_finite(front);
        assert forall|k: Seq<char>| has_key(s, k) == (k == s.last().0@ || has_key(front, k)) by {
            if has_key(s, k) {
                let i = slot_of(s, k);
                if i < front.len() {
                    assert(front[i].0@ == k);
                }
            }
            if has_key(front, k) {
                let i = slot_of(front, k);
                assert(s[i].0@ == k);
            }
            if k == s.last().0@ {
                assert(s[s.len() - 1].0@ == k);
            }
        }
        assert(entries_map(s).dom() =~= entries_map(front).dom().insert(s.last().0@));
    }
}

/// A map from string keys to values of type `V`.
#[derive(Debug)]
pub struct KeyedStore<V> {
    entries: Vec<(String, V)>,
}

impl<V> View for KeyedStore<V> {
    type V = Map<Seq<char>, V>;

    closed spec fn view(&self) -> Map<Seq<char>, V> {
        entries_map(self.entries@)
    }
}

impl<V> KeyedStore<V> {
    #[verifier::type_invariant]
    spec fn keys_are_distinct(&self) -> bool {
        distinct_keys(self.entries@)
    }

    /// A store holds finitely many keys.
    pub proof fn lemma_finite(&self)
        ensures
            self@.dom().finite(),
    {
        lemma_entries_map_finite(self.entries@);
    }

    /// The empty store.
    pub fn new() -> (s: Self)
        ensures
            s@ == Map::<Seq<char>, V>::empty(),
    {
        let s = KeyedStore { entries: Vec::new() };
        assert(s@ =~= Map::<Seq<char>, V>::empty());
        s
    }

    /// The position of the entry for `key`, if there is one.
    fn position(&self, key: &String) -> (r: Option<usize>)
        ensures
            match r {
                Some(i) => i < self.entries@.len() && self.entries@[i as int].0@ == key@,
                None => !has_key(self.entries@, key@),
            },
    {
        let mut i: usize = 0;
        while i < self.entries.len()
            invariant
                i <= self.entries@.len(),
                forall|j: int| 0 <= j < i ==> (#[trigger] self.entries@[j]).0@ != key@,
            decreases self.entries@.len() - i,
        {
            if self.entries[i].0 == *key {
                return Some(i);
            }
            i += 1;
        }
        None
    }

    /// The value stored under `key`, if there is one.
    pub fn get(&self, key: &String) -> (r: Option<&V>)
        ensures
            match r {
                Some(v) => self@.contains_key(key@) && *v == self@[key@],
                None => !self@.contains_key(key@),
            },
    {
        proof {
            use_type_invariant(self);
        }
        match self.position(key) {
            Some(i) => {
                proof {
                    lemma_slot_unique(self.entries@, i as int);
                }
                Some(&self.entries[i].1)
            },
            None => None,
        }
    }

    /// Whether a value is stored under `key`.
    pub fn contains_key(&self, key: &String) -> (r: bool)
        ensures
            r == self@.contains_key(key@),
    {
        self.position(key).is_some()
    }

    /// Stores `value` under `key`, replacing what was stored there.
    pub fn insert(&mut self, key: String, value: V)
        ensures
            final(self)@ == old(self)@.insert(key@, value),
    {
        proof {
            use_type_invariant(&*self);
        }
        let ghost before = self.entries@;
        let ghost k = key@;
        match self.position(&key) {
            Some(i) => {
                // The list is taken out while it changes and put back whole.
                let mut entries: Vec<(String, V)> = Vec::new();
                std::mem::swap(&mut entries, &mut self.entries);
                entries.set(i, (key, value));
                self.entries = entries;
                proof {
                    let after = self.entries@;
                    assert(distinct_keys(after)) by {
                        assert forall|a: int, b: int| 0 <= a < b < after.len() implies (
                        #[trigger] after[a]).0@ != (#[trigger] after[b]).0@ by {
                            assert(before[a].0@ != before[b].0@);
                        }
                    }
                    assert forall|q: Seq<char>| has_key(after, q) == (q == k || has_key(before, q)) by {
                        if has_key(after, q) {
                            let j = slot_of(after, q);
                            assert(before[j].0@ == q);
                        }
                        if has_key(before, q) {
                            let j = slot_of(before, q);
                            assert(after[j].0@ == q);
                        }
                        if q == k {
                            assert(after[i as int].0@ == q);
                        }
                    }
                    assert forall|q: Seq<char>| has_key(after, q) implies entries_map(after)[q]
                        == entries_map(before).insert(k, value)[q] by {
                        let j = slot_of(after, q);
                        lemma_slot_unique(after, j);
                        if q != k {
                            assert(j != i);
                            lemma_slot_unique(before, j);
                        } else {
                            lemma_slot_unique(after, i as int);
                        }
                    }
                    assert(entries_map(after) =~= entries_map(before).insert(k, value));
                }
            },
            None => {
                let mut entries: Vec<(String, V)> = Vec::new();
                std::mem::swap(&mut entries, &mut self.entries);
                entries.push((key, value));
                self.entries = entries;
                proof {
                    let after = self.entries@;
                    let n = before.len() as int;
                    assert(distinct_keys(after)) by {
                        assert forall|a: int, b: int| 0 <= a < b < after.len() implies (
                        #[trigger] after[a]).0@ != (#[trigger] after[b]).0@ by {
                            if b < n {
                                assert(before[a].0@ != before[b].0@);
                            } else {
                                assert(before[a].0@ == after[a].0@);
                            }
                        }
                    }
                    assert forall|q: Seq<char>| has_key(after, q) == (q == k || has_key(before, q)) by {
                        if has_key(after, q) {
                            let j = slot_of(after, q);
                            if j < n {
                                assert(before[j].0@ == q);
                            }
                        }
                        if has_key(before, q) {
                            let j = slot_of(before, q);
                            assert(after[j].0@ == q);
                        }
                        if q == k {
                            assert(after[n].0@ == q);
                        }
                    }
                    assert forall|q: Seq<char>| has_key(after, q) implies entries_map(after)[q]
                        == entries_map(before).insert(k, value)[q] by {
                        let j = slot_of(after, q);
                        lemma_slot_unique(after, j);
                        if q != k {
                            assert(before[j].0@ == q);
                            lemma_slot_unique(before, j);
                        } else {
                            lemma_slot_unique(after, n);
                        }
                    }
                    assert(entries_map(after) =~= entries_map(before).insert(k, value));
                }
            },
        }
    }

    /// Removes what is stored under `key`, if anything.
    pub fn remove(&mut self, key: &String)
        ensures
            final(self)@ == old(self)@.remove(key@),
    {
        proof {
            use_type_invariant(&*self);
        }
        let ghost before = self.entries@;
        let ghost k = key@;
        match self.position(key) {
            Some(i) => {
                let mut entries: Vec<(String, V)> = Vec::new();
                std::mem::swap(&mut entries, &mut self.entries);
                let _gone = entries.remove(i);
                self.entries = entries;
                proof {
                    let after = self.entries@;
                    let p = i as int;
                    assert forall|a: int| 0 <= a < after.len() implies #[trigger] after[a]
                        == before[if a < p { a } else { a + 1 }] by {}
                    assert(distinct_keys(after)) by {
                        assert forall|a: int, b: int| 0 <= a < b < after.len() implies (
                        #[trigger] after[a]).0@ != (#[trigger] after[b]).0@ by {
                            let a0 = if a < p { a } else { a + 1 };
                            let b0 = if b < p { b } else { b + 1 };
                            assert(before[a0].0@ != before[b0].0@);
                        }
                    }
                    assert forall|q: Seq<char>| has_key(after, q) == (q != k && has_key(before, q)) by {
                        if has_key(after, q) {
                            let j = slot_of(after, q);
                            let j0 = if j < p { j } else { j + 1 };
                            assert(before[j0].0@ == q);
                            if j0 < p {
                                assert(before[j0].0@ != before[p].0@);
                            } else {
                                assert(before[p].0@ != before[j0].0@);
                            }
                        }
                        if q != k && has_key(before, q) {
                            let j = slot_of(before, q);
                            let j1 = if j < p { j } else { j - 1 };
                            assert(after[j1].0@ == q);
                        }
                    }
                    assert forall|q: Seq<char>| has_key(after, q) implies entries_map(after)[q]
                        == entries_map(before)[q] by {
                        let j = slot_of(after, q);
                        let j0 = if j < p { j } else { j + 1 };
                        lemma_slot_unique(after, j);
                        lemma_slot_unique(before, j0);
                    }
                    assert(entries_map(after) =~= entries_map(before).remove(k));
                }
            },
            None => {
                assert(self@ =~= old(self)@.remove(k));
            },
        }
    }
}

} // verus!
