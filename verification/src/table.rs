//! A small map from text keys to values, kept in the order of insertion.

use vstd::prelude::*;

verus! {

/// A map from text keys to values. No key occurs twice, and a key that was
/// inserted earlier stands earlier.
pub struct Table<V> {
    keys: Vec<String>,
    values: Vec<V>,
}

impl<V> Table<V> {
    /// What holds of every table: one value for each key, and no key twice.
    pub closed spec fn wf(&self) -> bool {
        &&& self.keys@.len() == self.values@.len()
        &&& forall|i: int, j: int|
            0 <= i < j < self.keys@.len() ==> (#[trigger] self.keys@[i])@ != (
            #[trigger] self.keys@[j])@
    }

    /// Whether `k` is a key of the table.
    pub closed spec fn has(&self, k: Seq<char>) -> bool {
        exists|i: int| 0 <= i < self.keys@.len() && (#[trigger] self.keys@[i])@ == k
    }

    /// Where the key `k` stands.
    pub closed spec fn position(&self, k: Seq<char>) -> int {
        choose|i: int| 0 <= i < self.keys@.len() && (#[trigger] self.keys@[i])@ == k
    }

    /// The keys of the table, in the order of insertion.
    pub closed spec fn key_texts(&self) -> Seq<Seq<char>> {
        Seq::new(self.keys@.len(), |i: int| self.keys@[i]@)
    }

    proof fn lemma_position(&self, i: int)
        requires
            self.wf(),
            0 <= i < self.keys@.len(),
        ensures
            self.has(self.keys@[i]@),
            self.position(self.keys@[i]@) == i,
            self@.contains_key(self.keys@[i]@),
            self@[self.keys@[i]@] == self.values@[i],
    {
        let k = self.keys@[i]@;
        assert(self.has(k));
        let p = self.position(k);
        assert(0 <= p < self.keys@.len() && self.keys@[p]@ == k);
        if p < i {
            assert(self.keys@[p]@ != self.keys@[i]@);
        } else if i < p {
            assert(self.keys@[i]@ != self.keys@[p]@);
        }
    }

    /// The keys of a table are its keys in order, each once.
    pub proof fn lemma_keys(&self)
        requires
            self.wf(),
        ensures
            forall|k: Seq<char>| self@.contains_key(k) <==> self.key_texts().contains(k),
            self.key_texts().no_duplicates(),
    {
        assert forall|k: Seq<char>| self@.contains_key(k) <==> self.key_texts().contains(k) by {
            if self@.contains_key(k) {
                let p = self.position(k);
                assert(self.key_texts()[p] == k);
            }
            if self.key_texts().contains(k) {
                let i = choose|i: int| 0 <= i < self.key_texts().len() && self.key_texts()[i] == k;
                assert(self.keys@[i]@ == k);
            }
        }
        assert forall|i: int, j: int|
            0 <= i < self.key_texts().len() && 0 <= j < self.key_texts().len() && i
                != j implies self.key_texts()[i] != self.key_texts()[j] by {
            if i < j {
                assert(self.keys@[i]@ != self.keys@[j]@);
            } else {
                assert(self.keys@[j]@ != self.keys@[i]@);
            }
        }
    }

    /// An empty table.
    pub fn new() -> (t: Table<V>)
        ensures
            t.wf(),
            t@ == Map::<Seq<char>, V>::empty(),
            t.key_texts() == Seq::<Seq<char>>::empty(),
    {
        let t = Table { keys: Vec::new(), values: Vec::new() };
        assert(t@ =~= Map::<Seq<char>, V>::empty());
        assert(t.key_texts() =~= Seq::<Seq<char>>::empty());
        t
    }

    /// How many keys the table has.
    pub fn len(&self) -> (n: usize)
        requires
            self.wf(),
        ensures
            n == self.key_texts().len(),
    {
        self.keys.len()
    }

    fn find(&self, key: &str) -> (r: Option<usize>)
        requires
            self.wf(),
        ensures
            match r {
                Some(i) => i < self.keys@.len() && self.keys@[i as int]@ == key@,
                None => !self.has(key@),
            },
    {
        let k = key.to_owned();
        let mut i: usize = 0;
        while i < self.keys.len()
            invariant
                i <= self.keys@.len(),
                k@ == key@,
                forall|j: int| 0 <= j < i ==> (#[trigger] self.keys@[j])@ != key@,
            decreases self.keys@.len() - i,
        {
            if self.keys[i] == k {
                return Some(i);
            }
            i += 1;
        }
        None
    }

    /// Whether `key` is in the table.
    pub fn contains_key(&self, key: &str) -> (b: bool)
        requires
            self.wf(),
        ensures
            b == self@.contains_key(key@),
    {
        self.find(key).is_some()
    }

    /// The value under `key`.
    pub fn get(&self, key: &str) -> (r: Option<&V>)
        requires
            self.wf(),
        ensures
            match r {
                Some(v) => self@.contains_key(key@) && *v == self@[key@],
                None => !self@.contains_key(key@),
            },
    {
        match self.find(key) {
            Some(i) => {
                proof {
                    self.lemma_position(i as int);
                }
                Some(&self.values[i])
            },
            None => None,
        }
    }

    /// Puts `value` under `key`. The result is the value that was there. A
    /// new key goes to the end; a key that was there keeps its place.
    pub fn insert(&mut self, key: String, value: V) -> (previous: Option<V>)
        requires
            old(self).wf(),
        ensures
            final(self).wf(),
            final(self)@ == old(self)@.insert(key@, value),
            previous == if old(self)@.contains_key(key@) {
                Some(old(self)@[key@])
            } else {
                None::<V>
            },
            final(self).key_texts() == if old(self)@.contains_key(key@) {
                old(self).key_texts()
            } else {
                old(self).key_texts().push(key@)
            },
    {
        match self.find(key.as_str()) {
            Some(i) => {
                proof {
                    old(self).lemma_position(i as int);
                }
                self.values.push(value);
                let previous = self.values.swap_remove(i);
                proof {
                    assert(self.keys@ == old(self).keys@);
                    assert(self.values@ == old(self).values@.update(i as int, value));
                    assert(self.wf());
                    self.lemma_view_after_update(*old(self), i as int, value);
                    assert(self.key_texts() =~= old(self).key_texts());
                }
                Some(previous)
            },
            None => {
                self.keys.push(key);
                self.values.push(value);
                proof {
                    assert(self.wf()) by {
                        assert forall|i: int, j: int|
                            0 <= i < j < self.keys@.len() implies (#[trigger] self.keys@[i])@ != (
                            #[trigger] self.keys@[j])@ by {
                            if j == self.keys@.len() - 1 {
                                assert(self.keys@[i] == old(self).keys@[i]);
                                assert(!old(self).has(key@));
                            } else {
                                assert(self.keys@[i] == old(self).keys@[i]);
                                assert(self.keys@[j] == old(self).keys@[j]);
                            }
                        }
                    }
                    self.lemma_view_after_push(*old(self), key, value);
                    assert(self.key_texts() =~= old(self).key_texts().push(key@));
                }
                None
            },
        }
    }

    proof fn lemma_view_after_update(&self, before: Table<V>, i: int, value: V)
        requires
            before.wf(),
            self.wf(),
            0 <= i < before.keys@.len(),
            self.keys@ == before.keys@,
            self.values@ == before.values@.update(i, value),
        ensures
            self@ == before@.insert(before.keys@[i]@, value),
    {
        let key = before.keys@[i]@;
        assert forall|k: Seq<char>| self.has(k) <==> before.has(k) by {
            if self.has(k) {
                let p = self.position(k);
                assert(before.keys@[p]@ == k);
            }
            if before.has(k) {
                let p = before.position(k);
                assert(self.keys@[p]@ == k);
            }
        }
        assert(self.position(key) == before.position(key));
        before.lemma_position(i);
        assert forall|k: Seq<char>| #[trigger] self@.contains_key(k) implies self@[k]
            == before@.insert(key, value)[k] by {
            let p = self.position(k);
            assert(0 <= p < self.keys@.len() && self.keys@[p]@ == k);
            self.lemma_position(p);
            before.lemma_position(p);
        }
        assert(self@ =~= before@.insert(key, value));
    }

    proof fn lemma_view_after_push(&self, before: Table<V>, key: String, value: V)
        requires
            before.wf(),
            self.wf(),
            !before.has(key@),
            self.keys@ == before.keys@.push(key),
            self.values@ == before.values@.push(value),
        ensures
            self@ == before@.insert(key@, value),
    {
        let n = before.keys@.len() as int;
        assert forall|k: Seq<char>| self.has(k) <==> (before.has(k) || k == key@) by {
            if self.has(k) {
                let p = self.position(k);
                if p < n {
                    assert(before.keys@[p]@ == k);
                }
            }
            if before.has(k) {
                let p = before.position(k);
                assert(self.keys@[p]@ == k);
            }
            if k == key@ {
                assert(self.keys@[n]@ == k);
            }
        }
        assert forall|k: Seq<char>| #[trigger] self@.contains_key(k) implies self@[k]
            == before@.insert(key@, value)[k] by {
            let p = self.position(k);
            assert(0 <= p < self.keys@.len() && self.keys@[p]@ == k);
            self.lemma_position(p);
            if p < n {
                assert(before.keys@[p]@ == k);
                before.lemma_position(p);
            }
        }
        assert(self@ =~= before@.insert(key@, value));
    }

    /// Takes `key` and its value out of the table. The other keys keep their
    /// order.
    pub fn remove(&mut self, key: &str) -> (removed: Option<V>)
        requires
            old(self).wf(),
        ensures
            final(self).wf(),
            final(self)@ == old(self)@.remove(key@),
            removed == if old(self)@.contains_key(key@) {
                Some(old(self)@[key@])
            } else {
                None::<V>
            },
            final(self).key_texts() == without(old(self).key_texts(), key@),
    {
        match self.find(key) {
            Some(i) => {
                proof {
                    old(self).lemma_position(i as int);
                }
                let _ = self.keys.remove(i);
                let removed = self.values.remove(i);
                proof {
                    self.lemma_view_after_remove(*old(self), i as int);
                }
                Some(removed)
            },
            None => {
                proof {
                    assert(self@ =~= old(self)@.remove(key@));
                    old(self).lemma_absent_key(key@);
                }
                None
            },
        }
    }

    proof fn lemma_absent_key(&self, key: Seq<char>)
        requires
            !self.has(key),
        ensures
            without(self.key_texts(), key) == self.key_texts(),
    {
        let s = self.key_texts();
        assert forall|i: int| 0 <= i < s.len() implies #[trigger] s[i] != key by {
            assert(self.keys@[i]@ == s[i]);
        }
        lemma_without_absent(s, key);
    }

    proof fn lemma_view_after_remove(&self, before: Table<V>, i: int)
        requires
            before.wf(),
            0 <= i < before.keys@.len(),
            self.keys@ == before.keys@.remove(i),
            self.values@ == before.values@.remove(i),
        ensures
            self.wf(),
            self@ == before@.remove(before.keys@[i]@),
            self.key_texts() == without(before.key_texts(), before.keys@[i]@),
    {
        let key = before.keys@[i]@;
        assert forall|a: int, b: int| 0 <= a < b < self.keys@.len() implies (
        #[trigger] self.keys@[a])@ != (#[trigger] self.keys@[b])@ by {
            let a0 = if a < i {
                a
            } else {
                a + 1
            };
            let b0 = if b < i {
                b
            } else {
                b + 1
            };
            assert(self.keys@[a] == before.keys@[a0]);
            assert(self.keys@[b] == before.keys@[b0]);
        }
        assert(self.wf());
        assert forall|k: Seq<char>| self.has(k) <==> (before.has(k) && k != key) by {
            if self.has(k) {
                let p = self.position(k);
                let p0 = if p < i {
                    p
                } else {
                    p + 1
                };
                assert(self.keys@[p] == before.keys@[p0]);
                assert(before.keys@[p0]@ == k);
                if k == key {
                    if p0 < i {
                        assert(before.keys@[p0]@ != before.keys@[i]@);
                    } else {
                        assert(before.keys@[i]@ != before.keys@[p0]@);
                    }
                }
            }
            if before.has(k) && k != key {
                let p0 = before.position(k);
                let p = if p0 < i {
                    p0
                } else {
                    p0 - 1
                };
                assert(self.keys@[p] == before.keys@[p0]);
            }
        }
        assert forall|k: Seq<char>| #[trigger] self@.contains_key(k) implies self@[k]
            == before@.remove(key)[k] by {
            let p = self.position(k);
            assert(0 <= p < self.keys@.len() && self.keys@[p]@ == k);
            self.lemma_position(p);
            let p0 = if p < i {
                p
            } else {
                p + 1
            };
            assert(self.keys@[p] == before.keys@[p0]);
            before.lemma_position(p0);
        }
        assert(self@ =~= before@.remove(key));
        let s = before.key_texts();
        assert(self.key_texts() =~= s.remove(i));
        assert forall|j: int| 0 <= j < s.len() && j != i implies #[trigger] s[j] != key by {
            if j < i {
                assert(before.keys@[j]@ != before.keys@[i]@);
            } else {
                assert(before.keys@[i]@ != before.keys@[j]@);
            }
        }
        lemma_without_one(s, key, i);
    }

    /// The keys, in the order of insertion.
    pub fn keys(&self) -> (r: Vec<String>)
        requires
            self.wf(),
        ensures
            r@.len() == self.key_texts().len(),
            forall|i: int| 0 <= i < r@.len() ==> (#[trigger] r@[i])@ == self.key_texts()[i],
    {
        let mut r: Vec<String> = Vec::new();
        let mut i: usize = 0;
        while i < self.keys.len()
            invariant
                i <= self.keys@.len(),
                r@.len() == i,
                forall|j: int| 0 <= j < i ==> (#[trigger] r@[j])@ == self.keys@[j]@,
            decreases self.keys@.len() - i,
        {
            r.push(self.keys[i].clone());
            i += 1;
        }
        r
    }
}

impl<V> View for Table<V> {
    type V = Map<Seq<char>, V>;

    closed spec fn view(&self) -> Map<Seq<char>, V> {
        Map::new(|k: Seq<char>| self.has(k), |k: Seq<char>| self.values@[self.position(k)])
    }
}

/// The keys `s` without `key`, in their order.
pub open spec fn without(s: Seq<Seq<char>>, key: Seq<char>) -> Seq<Seq<char>>
    decreases s.len(),
{
    if s.len() == 0 {
        s
    } else if s.last() == key {
        without(s.drop_last(), key)
    } else {
        without(s.drop_last(), key).push(s.last())
    }
}

/// Taking out a key that is not there changes nothing.
pub proof fn lemma_without_absent(s: Seq<Seq<char>>, key: Seq<char>)
    requires
        forall|i: int| 0 <= i < s.len() ==> #[trigger] s[i] != key,
    ensures
        without(s, key) == s,
    decreases s.len(),
{
    if s.len() > 0 {
        lemma_without_absent(s.drop_last(), key);
        assert(s.drop_last().push(s.last()) == s);
    }
}

/// Taking out a key that stands at `i` and nowhere else removes position
/// `i`.
pub proof fn lemma_without_one(s: Seq<Seq<char>>, key: Seq<char>, i: int)
    requires
        0 <= i < s.len(),
        s[i] == key,
        forall|j: int| 0 <= j < s.len() && j != i ==> #[trigger] s[j] != key,
    ensures
        without(s, key) == s.remove(i),
    decreases s.len(),
{
    if i == s.len() - 1 {
        lemma_without_absent(s.drop_last(), key);
        assert(s.remove(i) == s.drop_last());
    } else {
        lemma_without_one(s.drop_last(), key, i);
        assert(s.drop_last().remove(i).push(s.last()) == s.remove(i));
    }
}

} // verus!
