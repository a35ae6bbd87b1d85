//! A string-keyed map of sensor values (`label -> value`).
use vstd::prelude::*;

verus! {

/// Sensor values by label. Each label occurs at most once; inserting an
/// existing label replaces its value.
pub struct SensorValues {
    entries: Vec<(String, String)>,
}

/// The labels of a list of entries, in order.
pub open spec fn entry_keys(e: Seq<(String, String)>) -> Seq<Seq<char>> {
    Seq::new(e.len(), |i: int| e[i].0@)
}

/// A position of label `k` in the entries (meaningful when it occurs).
pub open spec fn entry_index(e: Seq<(String, String)>, k: Seq<char>) -> int {
    choose|i: int| 0 <= i < e.len() && e[i].0@ == k
}

/// The map that a list of entries with distinct labels stands for.
pub open spec fn entries_map(e: Seq<(String, String)>) -> Map<Seq<char>, Seq<char>> {
    Map::new(
        |k: Seq<char>| exists|i: int| 0 <= i < e.len() && e[i].0@ == k,
        |k: Seq<char>| e[entry_index(e, k)].1@,
    )
}

/// In a list with distinct labels, the map gives each entry's value.
proof fn lemma_entries_value_at(e: Seq<(String, String)>, i: int)
    requires
        entry_keys(e).no_duplicates(),
        0 <= i < e.len(),
    ensures
        entries_map(e).contains_key(e[i].0@),
        entries_map(e)[e[i].0@] == e[i].1@,
{
    let k = e[i].0@;
    assert(entry_keys(e)[i] == k);
    assert(entries_map(e).contains_key(k));
    let j = entry_index(e, k);
    assert(entry_keys(e)[j] == k);
    assert(j == i);
    assert(entries_map(e)[k] == e[j].1@);
}

impl SensorValues {
    /// The entries are keyed by distinct labels.
    #[verifier::type_invariant]
    spec fn well_formed(&self) -> bool {
        entry_keys(self.entries@).no_duplicates()
    }

    /// The labels, in insertion order.
    pub closed spec fn keys(&self) -> Seq<Seq<char>> {
        entry_keys(self.entries@)
    }

    /// An empty map.
    pub fn new() -> (s: Self)
        ensures
            s@ == Map::<Seq<char>, Seq<char>>::empty(),
    {
        let s = SensorValues { entries: Vec::new() };
        assert(entry_keys(s.entries@) =~= Seq::<Seq<char>>::empty());
        assert(s@ =~= Map::<Seq<char>, Seq<char>>::empty());
        s
    }

    /// Number of labels.
    pub fn len(&self) -> (n: usize)
        ensures
            n == self@.len(),
            n == self@.dom().len(),
    {
        proof {
            use_type_invariant(self);
            let ks = entry_keys(self.entries@);
            ks.unique_seq_to_set();
            assert(self@.dom() =~= ks.to_set()) by {
                assert forall|k: Seq<char>| self@.dom().contains(k) implies ks.to_set().contains(
                    k,
                ) by {
                    let i = choose|i: int| 0 <= i < self.entries@.len() && self.entries@[i].0@ == k;
                    assert(ks[i] == k);
                }
                assert forall|k: Seq<char>| ks.to_set().contains(k) implies self@.dom().contains(
                    k,
                ) by {
                    let i = choose|i: int| 0 <= i < ks.len() && ks[i] == k;
                    assert(self.entries@[i].0@ == k);
                }
            }
        }
        self.entries.len()
    }

    /// True when there are no labels.
    pub fn is_empty(&self) -> (b: bool)
        ensures
            b == (self@.len() == 0),
    {
        self.len() == 0
    }

    /// Position of `key` in the entries, if present.
    fn position(&self, key: &String) -> (r: Option<usize>)
        ensures
            match r {
                Some(i) => i < self.entries@.len() && self.entries@[i as int].0@ == key@,
                None => !self@.contains_key(key@),
            },
    {
        proof {
            use_type_invariant(self);
        }
        let mut i: usize = 0;
        while i < self.entries.len()
            invariant
                i <= self.entries@.len(),
                forall|j: int| 0 <= j < i ==> self.entries@[j].0@ != key@,
            decreases self.entries@.len() - i,
        {
            if self.entries[i].0 == *key {
                return Some(i);
            }
            i = i + 1;
        }
        None
    }

    /// The value stored for `key`.
    pub fn get(&self, key: &str) -> (r: Option<&String>)
        ensures
            match r {
                Some(v) => self@.contains_key(key@) && self@[key@] == v@,
                None => !self@.contains_key(key@),
            },
    {
        proof {
            use_type_invariant(self);
        }
        let k = String::from_str(key);
        match self.position(&k) {
            Some(i) => {
                proof {
                    lemma_entries_value_at(self.entries@, i as int);
                }
                Some(&self.entries[i].1)
            },
            None => None,
        }
    }

    /// Sets `key` to `value`, replacing a previous value of the same label.
    pub fn insert(&mut self, key: String, value: String)
        ensures
            final(self)@ == old(self)@.insert(key@, value@),
    {
        proof {
            use_type_invariant(&*self);
        }
        let ghost old_e = self.entries@;
        let ghost k = key@;
        let ghost v = value@;
        let pos = self.position(&key);
        let mut entries: Vec<(String, String)> = Vec::new();
        std::mem::swap(&mut entries, &mut self.entries);
        match pos {
            Some(i) => {
                entries.set(i, (key, value));
                assert(entry_keys(entries@) =~= entry_keys(old_e));
                self.entries = entries;
                proof {
                    let e = self.entries@;
                    assert(entry_keys(e) =~= entry_keys(old_e));
                    assert forall|j: int| 0 <= j < e.len() && j != i implies #[trigger] e[j]
                        == old_e[j] by {}
                    assert(self@ =~= entries_map(old_e).insert(k, v)) by {
                        assert forall|q: Seq<char>| #[trigger]
                            self@.contains_key(q) implies entries_map(old_e).insert(
                            k,
                            v,
                        ).contains_key(q) by {
                            let j = choose|j: int| 0 <= j < e.len() && e[j].0@ == q;
                            if j != i {
                                assert(old_e[j].0@ == q);
                            }
                        }
                        assert forall|q: Seq<char>| #[trigger]
                            entries_map(old_e).insert(k, v).contains_key(q) implies self@.contains_key(
                            q,
                        ) by {
                            if q != k {
                                let j = choose|j: int| 0 <= j < old_e.len() && old_e[j].0@ == q;
                                assert(e[j].0@ == q);
                            } else {
                                assert(e[i as int].0@ == q);
                            }
                        }
                        assert forall|q: Seq<char>| #[trigger]
                            self@.contains_key(q) implies self@[q] == entries_map(old_e).insert(
                            k,
                            v,
                        )[q] by {
                            let j = choose|j: int| 0 <= j < e.len() && e[j].0@ == q;
                            lemma_entries_value_at(e, j);
                            if q != k {
                                assert(j != i);
                                lemma_entries_value_at(old_e, j);
                            } else {
                                assert(entry_keys(e)[j] == entry_keys(e)[i as int]);
                            }
                        }
                    }
                }
            },
            None => {
                entries.push((key, value));
                proof {
                    assert(entry_keys(entries@) =~= entry_keys(old_e).push(k));
                    assert(!entry_keys(old_e).contains(k)) by {
                        if entry_keys(old_e).contains(k) {
                            let j = choose|j: int|
                                0 <= j < entry_keys(old_e).len() && entry_keys(old_e)[j] == k;
                            assert(old_e[j].0@ == k);
                            assert(entries_map(old_e).contains_key(k));
                        }
                    }
                }
                self.entries = entries;
                proof {
                    let e = self.entries@;
                    assert(entry_keys(e) =~= entry_keys(old_e).push(k));
                    assert(self@ =~= entries_map(old_e).insert(k, v)) by {
                        assert forall|q: Seq<char>| #[trigger]
                            self@.contains_key(q) implies entries_map(old_e).insert(
                            k,
                            v,
                        ).contains_key(q) by {
                            let j = choose|j: int| 0 <= j < e.len() && e[j].0@ == q;
                            if j < old_e.len() {
                                assert(old_e[j].0@ == q);
                            }
                        }
                        assert forall|q: Seq<char>| #[trigger]
                            entries_map(old_e).insert(k, v).contains_key(q) implies self@.contains_key(
                            q,
                        ) by {
                            if q != k {
                                let j = choose|j: int| 0 <= j < old_e.len() && old_e[j].0@ == q;
                                assert(e[j].0@ == q);
                            } else {
                                assert(e[old_e.len() as int].0@ == q);
                            }
                        }
                        assert forall|q: Seq<char>| #[trigger]
                            self@.contains_key(q) implies self@[q] == entries_map(old_e).insert(
                            k,
                            v,
                        )[q] by {
                            let j = choose|j: int| 0 <= j < e.len() && e[j].0@ == q;
                            lemma_entries_value_at(e, j);
                            if q != k {
                                assert(j < old_e.len());
                                lemma_entries_value_at(old_e, j);
                            } else {
                                assert(entry_keys(e)[j] == entry_keys(e)[old_e.len() as int]);
                            }
                        }
                    }
                }
            },
        }
    }

    /// Copies every entry of `other` into `self` (values of `other` win).
    pub fn merge_from(&mut self, other: &SensorValues)
        ensures
            final(self)@ == old(self)@.union_prefer_right(other@),
    {
        proof {
            use_type_invariant(other);
        }
        let mut i: usize = 0;
        while i < other.entries.len()
            invariant
                entry_keys(other.entries@).no_duplicates(),
                i <= other.entries@.len(),
                self@ == old(self)@.union_prefer_right(
                    entries_map(other.entries@.take(i as int)),
                ),
            decreases other.entries@.len() - i,
        {
            let key = other.entries[i].0.clone();
            let value = other.entries[i].1.clone();
            self.insert(key, value);
            proof {
                let t0 = other.entries@.take(i as int);
                let t1 = other.entries@.take(i + 1);
                assert(entry_keys(t1) =~= entry_keys(t0).push(key@));
                assert(entries_map(t1) =~= entries_map(t0).insert(key@, value@)) by {
                    assert forall|q: Seq<char>| #[trigger]
                        entries_map(t1).contains_key(q) implies entries_map(t0).insert(
                        key@,
                        value@,
                    ).contains_key(q) by {
                        let j = choose|j: int| 0 <= j < t1.len() && t1[j].0@ == q;
                        if j < i {
                            assert(t0[j].0@ == q);
                        }
                    }
                    assert forall|q: Seq<char>| #[trigger]
                        entries_map(t0).insert(key@, value@).contains_key(q) implies entries_map(
                        t1,
                    ).contains_key(q) by {
                        if q != key@ {
                            let j = choose|j: int| 0 <= j < t0.len() && t0[j].0@ == q;
                            assert(t1[j].0@ == q);
                        } else {
                            assert(t1[i as int].0@ == q);
                        }
                    }
                    assert forall|q: Seq<char>| #[trigger]
                        entries_map(t1).contains_key(q) implies entries_map(t1)[q] == entries_map(
                        t0,
                    ).insert(key@, value@)[q] by {
                        let j = choose|j: int| 0 <= j < t1.len() && t1[j].0@ == q;
                        let ks = entry_keys(other.entries@);
                        assert(entry_keys(t1) =~= ks.take(i + 1));
                        if q != key@ {
                            assert(j < i);
                            let j0 = choose|j0: int| 0 <= j0 < t0.len() && t0[j0].0@ == q;
                            assert(ks[j] == ks[j0]);
                        } else {
                            assert(ks[j] == ks[i as int]);
                        }
                    }
                }
            }
            i = i + 1;
        }
        proof {
            assert(other.entries@.take(i as int) =~= other.entries@);
        }
    }

    /// The entries as `(label, value)` pairs, in insertion order.
    pub fn pairs(&self) -> (r: &Vec<(String, String)>)
        ensures
            entries_map(r@) == self@,
            entry_keys(r@) == self.keys(),
    {
        &self.entries
    }
}

impl View for SensorValues {
    type V = Map<Seq<char>, Seq<char>>;

    closed spec fn view(&self) -> Map<Seq<char>, Seq<char>> {
        entries_map(self.entries@)
    }
}

} // verus!
