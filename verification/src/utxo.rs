use vstd::prelude::*;

use crate::chain::{Output, OutputPointer};

verus! {

/// Whether `k` is the key of some entry of `s`.
pub open spec fn has_key(s: Seq<(OutputPointer, Output)>, k: OutputPointer) -> bool {
    exists|i: int| 0 <= i < s.len() && (#[trigger] s[i]).0 == k
}

/// Whether no two entries of `s` have the same key.
pub open spec fn unique_keys(s: Seq<(OutputPointer, Output)>) -> bool {
    forall|i: int, j: int|
        0 <= i < s.len() && 0 <= j < s.len() && i != j ==> (#[trigger] s[i]).0 != (#[trigger] s[j]).0
}

/// The value of the entry of `s` whose key is `k`.
pub open spec fn value_of(s: Seq<(OutputPointer, Output)>, k: OutputPointer) -> Output {
    s[choose|i: int| 0 <= i < s.len() && (#[trigger] s[i]).0 == k].1
}

/// The map that the entries of `s` stand for.
pub open spec fn entries_map(s: Seq<(OutputPointer, Output)>) -> Map<OutputPointer, Output> {
    Map::new(|k: OutputPointer| has_key(s, k), |k: OutputPointer| value_of(s, k))
}

/// With distinct keys, the entry at index `i` gives the value of its key.
pub proof fn lemma_value_of_index(s: Seq<(OutputPointer, Output)>, i: int)
    requires
        unique_keys(s),
        0 <= i < s.len(),
    ensures
        has_key(s, s[i].0),
        value_of(s, s[i].0) == s[i].1,
        entries_map(s).dom().contains(s[i].0),
        entries_map(s)[s[i].0] == s[i].1,
{
    let k = s[i].0;
    assert(has_key(s, k));
    let j = choose|j: int| 0 <= j < s.len() && (#[trigger] s[j]).0 == k;
    assert(s[j].0 == k);
    if j != i {
        assert(s[i].0 != s[j].0);
    }
}

/// The set of unspent outputs: each output that can still be spent, found
/// by the pointer that names it.
pub struct UnspentOutputsPool {
    entries: Vec<(OutputPointer, Output)>,
}

impl View for UnspentOutputsPool {
    type V = Map<OutputPointer, Output>;

    closed spec fn view(&self) -> Map<OutputPointer, Output> {
        entries_map(self.entries@)
    }
}

impl UnspentOutputsPool {
    #[verifier::type_invariant]
    spec fn keys_are_unique(&self) -> bool {
        unique_keys(self.entries@)
    }

    /// An empty set.
    pub fn new() -> (r: UnspentOutputsPool)
        ensures
            r@ == Map::<OutputPointer, Output>::empty(),
    {
        let r = UnspentOutputsPool { entries: Vec::new() };
        assert(r@ =~= Map::<OutputPointer, Output>::empty());
        r
    }

    /// The index of the entry whose key is `k`, if there is one.
    fn position(entries: &Vec<(OutputPointer, Output)>, k: &OutputPointer) -> (r: Option<usize>)
        ensures
            match r {
                Some(i) => i < entries.len() && entries@[i as int].0 == *k,
                None => !has_key(entries@, *k),
            },
    {
        let mut i: usize = 0;
        while i < entries.len()
            invariant
                i <= entries.len(),
                forall|j: int| 0 <= j < i ==> (#[trigger] entries@[j]).0 != *k,
            decreases entries.len() - i,
        {
            if entries[i].0.same_as(k) {
                return Some(i);
            }
            i = i + 1;
        }
        None
    }

    /// Whether some unspent output is found at `k`.
    pub fn contains_key(&self, k: &OutputPointer) -> (r: bool)
        ensures
            r == self@.dom().contains(*k),
    {
        Self::position(&self.entries, k).is_some()
    }

    /// The unspent output found at `k`, if any.
    pub fn get(&self, k: &OutputPointer) -> (r: Option<Output>)
        ensures
            r == (if self@.dom().contains(*k) {
                Some(self@[*k])
            } else {
                None
            }),
    {
        proof {
            use_type_invariant(self);
        }
        match Self::position(&self.entries, k) {
            Some(i) => {
                proof {
                    lemma_value_of_index(self.entries@, i as int);
                }
                Some(self.entries[i].1)
            },
            None => None,
        }
    }

    /// Puts `v` at `k`, in place of what was there; gives back what was there.
    pub fn insert(&mut self, k: OutputPointer, v: Output) -> (r: Option<Output>)
        ensures
            final(self)@ == old(self)@.insert(k, v),
            r == (if old(self)@.dom().contains(k) {
                Some(old(self)@[k])
            } else {
                None
            }),
    {
        proof {
            use_type_invariant(&*self);
        }
        let ghost old_entries = self.entries@;
        let mut entries: Vec<(OutputPointer, Output)> = Vec::new();
        std::mem::swap(&mut entries, &mut self.entries);
        let r = match Self::position(&entries, &k) {
            Some(i) => {
                proof {
                    lemma_value_of_index(old_entries, i as int);
                }
                let prev = entries[i].1;
                entries.set(i, (k, v));
                proof {
                    let s = entries@;
                    assert(s == old_entries.update(i as int, (k, v)));
                    assert(unique_keys(s));
                    assert forall|key: OutputPointer|
                        #[trigger] entries_map(s).dom().contains(key) == entries_map(
                            old_entries,
                        ).insert(k, v).dom().contains(key) by {
                        if key != k && has_key(old_entries, key) {
                            let j = choose|j: int|
                                0 <= j < old_entries.len() && (#[trigger] old_entries[j]).0 == key;
                            assert(s[j].0 == key);
                        }
                        if key != k && has_key(s, key) {
                            let j = choose|j: int| 0 <= j < s.len() && (#[trigger] s[j]).0 == key;
                            assert(old_entries[j].0 == key);
                        }
                        if key == k {
                            assert(s[i as int].0 == key);
                        }
                    }
                    assert forall|key: OutputPointer|
                        #[trigger] entries_map(s).dom().contains(key) implies entries_map(s)[key]
                        == entries_map(old_entries).insert(k, v)[key] by {
                        let j = choose|j: int| 0 <= j < s.len() && (#[trigger] s[j]).0 == key;
                        lemma_value_of_index(s, j);
                        if key != k {
                            assert(old_entries[j].0 == key);
                            lemma_value_of_index(old_entries, j);
                        }
                    }
                    assert(entries_map(s) =~= entries_map(old_entries).insert(k, v));
                }
                Some(prev)
            },
            None => {
                entries.push((k, v));
                proof {
                    let s = entries@;
                    assert(s == old_entries.push((k, v)));
                    assert(unique_keys(s)) by {
                        assert forall|a: int, b: int|
                            0 <= a < s.len() && 0 <= b < s.len() && a != b implies (#[trigger] s[a]).0
                            != (#[trigger] s[b]).0 by {
                            if a == old_entries.len() {
                                assert(old_entries[b].0 != k);
                            }
                            if b == old_entries.len() {
                                assert(old_entries[a].0 != k);
                            }
                        }
                    }
                    assert forall|key: OutputPointer|
                        #[trigger] entries_map(s).dom().contains(key) == entries_map(
                            old_entries,
                        ).insert(k, v).dom().contains(key) by {
                        if has_key(old_entries, key) {
                            let j = choose|j: int|
                                0 <= j < old_entries.len() && (#[trigger] old_entries[j]).0 == key;
                            assert(s[j].0 == key);
                        }
                        if key == k {
                            assert(s[old_entries.len() as int].0 == key);
                        }
                    }
                    assert forall|key: OutputPointer|
                        #[trigger] entries_map(s).dom().contains(key) implies entries_map(s)[key]
                        == entries_map(old_entries).insert(k, v)[key] by {
                        let j = choose|j: int| 0 <= j < s.len() && (#[trigger] s[j]).0 == key;
                        lemma_value_of_index(s, j);
                        if key != k {
                            assert(old_entries[j].0 == key);
                            lemma_value_of_index(old_entries, j);
                        }
                    }
                    assert(entries_map(s) =~= entries_map(old_entries).insert(k, v));
                }
                None
            },
        };
        self.entries = entries;
        r
    }

    /// Takes out what is at `k`, if anything, and gives it back.
    pub fn remove(&mut self, k: &OutputPointer) -> (r: Option<Output>)
        ensures
            final(self)@ == old(self)@.remove(*k),
            r == (if old(self)@.dom().contains(*k) {
                Some(old(self)@[*k])
            } else {
                None
            }),
    {
        proof {
            use_type_invariant(&*self);
        }
        let ghost old_entries = self.entries@;
        let mut entries: Vec<(OutputPointer, Output)> = Vec::new();
        std::mem::swap(&mut entries, &mut self.entries);
        let r = match Self::position(&entries, k) {
            Some(i) => {
                proof {
                    lemma_value_of_index(old_entries, i as int);
                }
                let (_, prev) = entries.remove(i);
                proof {
                    let s = entries@;
                    assert(s == old_entries.remove(i as int));
                    assert(unique_keys(s)) by {
                        assert forall|a: int, b: int|
                            0 <= a < s.len() && 0 <= b < s.len() && a != b implies (#[trigger] s[a]).0
                            != (#[trigger] s[b]).0 by {
                            let oa = if a < i { a } else { a + 1 };
                            let ob = if b < i { b } else { b + 1 };
                            assert(s[a] == old_entries[oa]);
                            assert(s[b] == old_entries[ob]);
                        }
                    }
                    assert forall|key: OutputPointer|
                        #[trigger] entries_map(s).dom().contains(key) == entries_map(
                            old_entries,
                        ).remove(*k).dom().contains(key) by {
                        if key != *k && has_key(old_entries, key) {
                            let j = choose|j: int|
                                0 <= j < old_entries.len() && (#[trigger] old_entries[j]).0 == key;
                            assert(j != i);
                            let sj = if j < i { j } else { j - 1 };
                            assert(s[sj].0 == key);
                        }
                        if has_key(s, key) {
                            let j = choose|j: int| 0 <= j < s.len() && (#[trigger] s[j]).0 == key;
                            let oj = if j < i { j } else { j + 1 };
                            assert(old_entries[oj].0 == key);
                            assert(oj != i);
                            assert(old_entries[i as int].0 != old_entries[oj].0);
                        }
                    }
                    assert forall|key: OutputPointer|
                        #[trigger] entries_map(s).dom().contains(key) implies entries_map(s)[key]
                        == entries_map(old_entries).remove(*k)[key] by {
                        let j = choose|j: int| 0 <= j < s.len() && (#[trigger] s[j]).0 == key;
                        lemma_value_of_index(s, j);
                        let oj = if j < i { j } else { j + 1 };
                        assert(old_entries[oj] == s[j]);
                        lemma_value_of_index(old_entries, oj);
                    }
                    assert(entries_map(s) =~= entries_map(old_entries).remove(*k));
                }
                Some(prev)
            },
            None => {
                proof {
                    assert(entries_map(entries@) =~= entries_map(old_entries).remove(*k));
                }
                None
            },
        };
        self.entries = entries;
        r
    }

    /// A copy of the set.
    pub fn duplicate(&self) -> (r: UnspentOutputsPool)
        ensures
            r@ == self@,
    {
        proof {
            use_type_invariant(self);
        }
        UnspentOutputsPool { entries: crate::chain::copy_vec(&self.entries) }
    }
}

} // verus!
