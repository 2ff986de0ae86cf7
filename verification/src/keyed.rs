//! A map from text keys to values, held as a list of distinct keys with
//! their values.
use vstd::prelude::*;
use crate::order::text_eq;

verus! {

/// A map keyed by text; the model is `Map<Seq<char>, T>`.
#[derive(Debug)]
#[verifier::reject_recursive_types(T)]
pub struct KeyedList<T> {
    entries: Vec<(String, T)>,
}

/// The keys of a list of entries are pairwise distinct.
pub open spec fn distinct_keys<T>(s: Seq<(String, T)>) -> bool {
    forall|i: int, j: int|
        0 <= i < s.len() && 0 <= j < s.len() && i != j ==> #[trigger] s[i].0@ != #[trigger] s[j].0@
}

/// Some entry of the list has key `k`.
pub open spec fn has_key<T>(s: Seq<(String, T)>, k: Seq<char>) -> bool {
    exists|i: int| 0 <= i < s.len() && #[trigger] s[i].0@ == k
}

/// The map that a list of entries with distinct keys stands for.
pub open spec fn entries_map<T>(s: Seq<(String, T)>) -> Map<Seq<char>, T> {
    Map::new(
        |k: Seq<char>| has_key(s, k),
        |k: Seq<char>| s[choose|i: int| 0 <= i < s.len() && #[trigger] s[i].0@ == k].1,
    )
}

/// In a list with distinct keys, the entry at `i` gives the value of its key.
pub proof fn lemma_entries_map_at<T>(s: Seq<(String, T)>, i: int)
    requires
        distinct_keys(s),
        0 <= i < s.len(),
    ensures
        entries_map(s).contains_key(s[i].0@),
        entries_map(s)[s[i].0@] == s[i].1,
{
    let k = s[i].0@;
    assert(has_key(s, k));
    let j = choose|j: int| 0 <= j < s.len() && #[trigger] s[j].0@ == k;
    assert(s[j].0@ == k);
    if j != i {
        assert(s[i].0@ != s[j].0@);
    }
}

/// A list with distinct keys stands for a finite map with one key per entry.
pub proof fn lemma_entries_map_len<T>(s: Seq<(String, T)>)
    requires
        distinct_keys(s),
    ensures
        entries_map(s).dom().finite(),
        entries_map(s).len() == s.len(),
{
    let keys = s.map_values(|p: (String, T)| p.0@);
    assert(keys.no_duplicates()) by {
        assert forall|i: int, j: int| 0 <= i < keys.len() && 0 <= j < keys.len() && i != j
            implies keys[i] != keys[j] by {
            assert(s[i].0@ != s[j].0@);
        }
    }
    keys.unique_seq_to_set();
    assert(keys.to_set() =~= entries_map(s).dom()) by {
        assert forall|k: Seq<char>| keys.to_set().contains(k) == entries_map(s).dom().contains(k) by {
            if keys.to_set().contains(k) {
                let i = choose|i: int| 0 <= i < keys.len() && keys[i] == k;
                assert(s[i].0@ == k);
            }
            if has_key(s, k) {
                let i = choose|i: int| 0 <= i < s.len() && #[trigger] s[i].0@ == k;
                assert(keys[i] == k);
            }
        }
    }
}

impl<T> View for KeyedList<T> {
    type V = Map<Seq<char>, T>;

    /// The map that the list stands for.
    closed spec fn view(&self) -> Map<Seq<char>, T> {
        entries_map(self.entries@)
    }
}

impl<T> KeyedList<T> {
    #[verifier::type_invariant]
    spec fn inv(self) -> bool {
        distinct_keys(self.entries@)
    }

    /// The entries in the order they are held.
    pub closed spec fn pairs(self) -> Seq<(String, T)> {
        self.entries@
    }


    /// An empty map.
    pub fn new() -> (r: Self)
        ensures
            r@ == Map::<Seq<char>, T>::empty(),
            r.pairs().len() == 0,
    {
        let r = KeyedList { entries: Vec::new() };
        assert(entries_map(r.entries@) =~= Map::<Seq<char>, T>::empty());
        r
    }

    /// The entries in the order they are held.
    pub fn entries(&self) -> (r: &Vec<(String, T)>)
        ensures
            r@ == self.pairs(),
            distinct_keys(r@),
            entries_map(r@) == self@,
    {
        proof {
            use_type_invariant(self);
        }
        &self.entries
    }

    /// The entries, given up in the order they are held.
    pub fn into_entries(self) -> (r: Vec<(String, T)>)
        ensures
            r@ == self.pairs(),
            distinct_keys(r@),
            entries_map(r@) == self@,
    {
        proof {
            use_type_invariant(&self);
        }
        self.entries
    }

    /// The number of keys.
    pub fn len(&self) -> (n: usize)
        ensures
            n == self@.len(),
            n == self.pairs().len(),
    {
        proof {
            use_type_invariant(self);
            lemma_entries_map_len(self.entries@);
        }
        self.entries.len()
    }

    fn position(&self, k: &str) -> (r: Option<usize>)
        ensures
            match r {
                Some(i) => i < self.entries@.len() && self.entries@[i as int].0@ == k@,
                None => !has_key(self.entries@, k@),
            },
    {
        let mut i: usize = 0;
        while i < self.entries.len()
            invariant
                i <= self.entries@.len(),
                forall|j: int| 0 <= j < i ==> #[trigger] self.entries@[j].0@ != k@,
            decreases self.entries@.len() - i,
        {
            if text_eq(self.entries[i].0.as_str(), k) {
                return Some(i);
            }
            i = i + 1;
        }
        None
    }

    /// Whether the map holds key `k`.
    pub fn contains_key(&self, k: &str) -> (r: bool)
        ensures
            r == self@.contains_key(k@),
    {
        self.position(k).is_some()
    }

    /// The value at key `k`, if any.
    pub fn get(&self, k: &str) -> (r: Option<&T>)
        ensures
            match r {
                Some(v) => self@.contains_key(k@) && *v == self@[k@],
                None => !self@.contains_key(k@),
            },
    {
        proof {
            use_type_invariant(self);
        }
        match self.position(k) {
            Some(i) => {
                proof {
                    lemma_entries_map_at(self.entries@, i as int);
                }
                Some(&self.entries[i].1)
            },
            None => None,
        }
    }

    /// Removes key `k`, giving back its value if it was there.
    pub fn remove(&mut self, k: &str) -> (r: Option<T>)
        ensures
            final(self)@ == old(self)@.remove(k@),
            match r {
                Some(v) => old(self)@.contains_key(k@) && v == old(self)@[k@],
                None => !old(self)@.contains_key(k@),
            },
    {
        proof {
            use_type_invariant(&*self);
        }
        let ghost old_entries = self.entries@;
        match self.position(k) {
            Some(i) => {
                proof {
                    lemma_entries_map_at(old_entries, i as int);
                }
                let mut es: Vec<(String, T)> = Vec::new();
                std::mem::swap(&mut es, &mut self.entries);
                let (_key, v) = es.remove(i);
                let ghost new_entries = es@;
                assert(new_entries =~= old_entries.remove(i as int));
                assert(distinct_keys(new_entries)) by {
                    assert forall|a: int, b: int|
                        0 <= a < new_entries.len() && 0 <= b < new_entries.len() && a != b
                        implies #[trigger] new_entries[a].0@ != #[trigger] new_entries[b].0@ by {
                        let oa = if a < i { a } else { a + 1 };
                        let ob = if b < i { b } else { b + 1 };
                        assert(new_entries[a] == old_entries[oa]);
                        assert(new_entries[b] == old_entries[ob]);
                        assert(old_entries[oa].0@ != old_entries[ob].0@);
                    }
                }
                assert(entries_map(new_entries) =~= entries_map(old_entries).remove(k@)) by {
                    assert forall|key: Seq<char>|
                        #[trigger] entries_map(new_entries).contains_key(key)
                        == entries_map(old_entries).remove(k@).contains_key(key) by {
                        if has_key(new_entries, key) {
                            let a = choose|a: int| 0 <= a < new_entries.len() && #[trigger] new_entries[a].0@ == key;
                            let oa = if a < i { a } else { a + 1 };
                            assert(old_entries[oa].0@ == key);
                            assert(oa != i);
                        }
                        if key != k@ && has_key(old_entries, key) {
                            let a = choose|a: int| 0 <= a < old_entries.len() && #[trigger] old_entries[a].0@ == key;
                            assert(a != i);
                            let na = if a < i { a } else { a - 1 };
                            assert(new_entries[na].0@ == key);
                        }
                    }
                    assert forall|key: Seq<char>|
                        #[trigger] entries_map(new_entries).contains_key(key)
                        implies entries_map(new_entries)[key] == entries_map(old_entries)[key] by {
                        let a = choose|a: int| 0 <= a < new_entries.len() && #[trigger] new_entries[a].0@ == key;
                        let oa = if a < i { a } else { a + 1 };
                        assert(new_entries[a] == old_entries[oa]);
                        lemma_entries_map_at(new_entries, a);
                        lemma_entries_map_at(old_entries, oa);
                    }
                }
                self.entries = es;
                Some(v)
            },
            None => {
                assert(entries_map(old_entries) =~= entries_map(old_entries).remove(k@));
                None
            },
        }
    }

    /// Sets the value at key `k` to `v`.
    pub fn insert(&mut self, k: String, v: T)
        ensures
            final(self)@ == old(self)@.insert(k@, v),
    {
        let _ = self.remove(k.as_str());
        proof {
            use_type_invariant(&*self);
        }
        let ghost before = self.entries@;
        assert(!entries_map(before).contains_key(k@));
        let mut es: Vec<(String, T)> = Vec::new();
        std::mem::swap(&mut es, &mut self.entries);
        es.push((k, v));
        let ghost after = es@;
        assert(after =~= before.push((k, v)));
        assert(distinct_keys(after)) by {
            assert forall|a: int, b: int|
                0 <= a < after.len() && 0 <= b < after.len() && a != b
                implies #[trigger] after[a].0@ != #[trigger] after[b].0@ by {
                if a < before.len() && b < before.len() {
                    assert(before[a].0@ != before[b].0@);
                } else if a < before.len() {
                    assert(has_key(before, before[a].0@));
                } else {
                    assert(has_key(before, before[b].0@));
                }
            }
        }
        assert(entries_map(after) =~= entries_map(before).insert(k@, v)) by {
            assert forall|key: Seq<char>|
                #[trigger] entries_map(after).contains_key(key)
                == entries_map(before).insert(k@, v).contains_key(key) by {
                if has_key(after, key) {
                    let a = choose|a: int| 0 <= a < after.len() && #[trigger] after[a].0@ == key;
                    if a < before.len() {
                        assert(before[a].0@ == key);
                    }
                }
                if has_key(before, key) {
                    let a = choose|a: int| 0 <= a < before.len() && #[trigger] before[a].0@ == key;
                    assert(after[a].0@ == key);
                }
                if key == k@ {
                    assert(after[before.len() as int].0@ == key);
                }
            }
            assert forall|key: Seq<char>|
                #[trigger] entries_map(after).contains_key(key)
                implies entries_map(after)[key] == entries_map(before).insert(k@, v)[key] by {
                let a = choose|a: int| 0 <= a < after.len() && #[trigger] after[a].0@ == key;
                lemma_entries_map_at(after, a);
                if a < before.len() {
                    assert(after[a] == before[a]);
                    lemma_entries_map_at(before, a);
                }
            }
        }
        self.entries = es;
    }
}

impl<T: Clone> Clone for KeyedList<T> {
    /// A copy with the same keys, each value a clone of the original's.
    fn clone(&self) -> (r: Self)
        ensures
            r@.dom() == self@.dom(),
            forall|k: Seq<char>| #[trigger] r@.contains_key(k) ==> cloned(self@[k], r@[k]),
    {
        proof {
            use_type_invariant(self);
        }
        let ghost src = self.entries@;
        let mut es: Vec<(String, T)> = Vec::new();
        let mut i: usize = 0;
        while i < self.entries.len()
            invariant
                src == self.entries@,
                distinct_keys(src),
                i <= src.len(),
                es@.len() == i,
                forall|j: int| 0 <= j < i ==> (#[trigger] es@[j]).0 == src[j].0 && cloned(src[j].1, es@[j].1),
            decreases src.len() - i,
        {
            let k = self.entries[i].0.clone();
            let v = self.entries[i].1.clone();
            es.push((k, v));
            i = i + 1;
        }
        let ghost out = es@;
        assert(distinct_keys(out)) by {
            assert forall|a: int, b: int| 0 <= a < out.len() && 0 <= b < out.len() && a != b
                implies #[trigger] out[a].0@ != #[trigger] out[b].0@ by {
                assert(out[a].0 == src[a].0 && out[b].0 == src[b].0);
                assert(src[a].0@ != src[b].0@);
            }
        }
        assert(entries_map(out).dom() =~= entries_map(src).dom()) by {
            assert forall|k: Seq<char>| has_key(out, k) == has_key(src, k) by {
                if has_key(out, k) {
                    let a = choose|a: int| 0 <= a < out.len() && #[trigger] out[a].0@ == k;
                    assert(out[a].0 == src[a].0);
                    assert(src[a].0@ == k);
                }
                if has_key(src, k) {
                    let a = choose|a: int| 0 <= a < src.len() && #[trigger] src[a].0@ == k;
                    assert(out[a].0 == src[a].0);
                    assert(out[a].0@ == k);
                }
            }
        }
        assert forall|k: Seq<char>| #[trigger] entries_map(out).contains_key(k) implies cloned(
            entries_map(src)[k],
            entries_map(out)[k],
        ) by {
            let a = choose|a: int| 0 <= a < out.len() && #[trigger] out[a].0@ == k;
            assert(out[a].0 == src[a].0);
            lemma_entries_map_at(out, a);
            lemma_entries_map_at(src, a);
        }
        KeyedList { entries: es }
    }
}

/// A value written at a key is what a read at that key gives back, and a
/// write leaves every other key as it was.
pub proof fn law_read_after_insert<T>(m: Map<Seq<char>, T>, k: Seq<char>, v: T, other: Seq<char>)
    requires
        other != k,
    ensures
        m.insert(k, v).contains_key(k),
        m.insert(k, v)[k] == v,
        m.insert(k, v).contains_key(other) == m.contains_key(other),
        m.contains_key(other) ==> m.insert(k, v)[other] == m[other],
{
}

/// A removed key reads as absent, and a removal leaves every other key as
/// it was.
pub proof fn law_read_after_remove<T>(m: Map<Seq<char>, T>, k: Seq<char>, other: Seq<char>)
    requires
        other != k,
    ensures
        !m.remove(k).contains_key(k),
        m.remove(k).contains_key(other) == m.contains_key(other),
        m.contains_key(other) ==> m.remove(k)[other] == m[other],
{
}

} // verus!
