//! A small associative table kept in insertion order.
//!
//! The tables of this crate are short (tens of peers, a bounded number of
//! pending requests), are walked in order by the logic that uses them, and
//! are keyed by identifiers that are compared byte by byte. A pair of
//! vectors with distinct keys serves all of that; its abstract value is a
//! `Map`.

use vstd::prelude::*;

verus! {

/// Keys that can be compared at run time, with the comparison agreeing with
/// mathematical equality.
pub trait TableKey: Sized {
    fn key_eq(&self, other: &Self) -> (r: bool)
        ensures
            r == (*self == *other),
    ;
}

impl TableKey for u64 {
    fn key_eq(&self, other: &Self) -> (r: bool) {
        *self == *other
    }
}

/// An insertion-ordered table with distinct keys.
pub struct Table<K, V> {
    keys: Vec<K>,
    values: Vec<V>,
}

impl<K, V> View for Table<K, V> {
    type V = Map<K, V>;

    closed spec fn view(&self) -> Map<K, V> {
        Map::new(
            |k: K| self.keys@.contains(k),
            |k: K| self.values@[self.keys@.index_of(k)],
        )
    }
}

/// In a sequence without duplicates, the index of an element is the place
/// where it stands.
pub proof fn lemma_index_of_unique<K>(s: Seq<K>, i: int)
    requires
        s.no_duplicates(),
        0 <= i < s.len(),
    ensures
        s.index_of(s[i]) == i,
{
    let j = s.index_of(s[i]);
    assert(0 <= j < s.len() && s[j] == s[i]);
}

/// Taking one element out of a sequence without duplicates leaves no
/// duplicates and removes that element from the set of its elements.
pub proof fn lemma_remove_unique<A>(s: Seq<A>, i: int)
    requires
        s.no_duplicates(),
        0 <= i < s.len(),
    ensures
        s.remove(i).no_duplicates(),
        s.remove(i).to_set() == s.to_set().remove(s[i]),
{
    let r = s.remove(i);
    assert forall|a: int, b: int| 0 <= a < r.len() && 0 <= b < r.len() && a != b implies r[a]
        != r[b] by {
        let a0 = if a < i { a } else { a + 1 };
        let b0 = if b < i { b } else { b + 1 };
        assert(r[a] == s[a0] && r[b] == s[b0]);
    }
    assert forall|x: A| #[trigger] r.to_set().contains(x) <==> s.to_set().remove(s[i]).contains(
        x,
    ) by {
        if r.contains(x) {
            let j = choose|j: int| 0 <= j < r.len() && r[j] == x;
            let j0 = if j < i { j } else { j + 1 };
            assert(s[j0] == x);
        }
        if s.contains(x) && x != s[i] {
            let j = choose|j: int| 0 <= j < s.len() && s[j] == x;
            let j2 = if j < i { j } else { j - 1 };
            assert(r[j2] == x);
        }
    }
    assert(r.to_set() =~= s.to_set().remove(s[i]));
}

/// Adding a new element to a sequence without duplicates leaves no
/// duplicates and adds that element to the set of its elements.
pub proof fn lemma_push_unique<A>(s: Seq<A>, x: A)
    requires
        s.no_duplicates(),
        !s.contains(x),
    ensures
        s.push(x).no_duplicates(),
        s.push(x).to_set() == s.to_set().insert(x),
{
    let r = s.push(x);
    assert forall|a: int, b: int| 0 <= a < r.len() && 0 <= b < r.len() && a != b implies r[a]
        != r[b] by {
        if a < s.len() {
            assert(s.contains(s[a]));
        }
        if b < s.len() {
            assert(s.contains(s[b]));
        }
    }
    assert forall|y: A| #[trigger] r.to_set().contains(y) <==> s.to_set().insert(x).contains(
        y,
    ) by {
        if r.contains(y) {
            let j = choose|j: int| 0 <= j < r.len() && r[j] == y;
            if j < s.len() {
                assert(s[j] == y);
            }
        }
        if s.contains(y) {
            let j = choose|j: int| 0 <= j < s.len() && s[j] == y;
            assert(r[j] == y);
        }
        if y == x {
            assert(r[s.len() as int] == x);
        }
    }
    assert(r.to_set() =~= s.to_set().insert(x));
}

impl<K, V> Table<K, V> {
    /// The representation invariant: one value per key, no key twice.
    pub closed spec fn wf(&self) -> bool {
        &&& self.keys@.len() == self.values@.len()
        &&& self.keys@.no_duplicates()
    }

    /// The keys in insertion order.
    pub closed spec fn key_seq(&self) -> Seq<K> {
        self.keys@
    }

    /// The values, each at the position of its key in [`Self::key_seq`].
    pub closed spec fn value_seq(&self) -> Seq<V> {
        self.values@
    }

    /// How the ordered contents and the map relate.
    pub proof fn lemma_contents(&self)
        requires
            self.wf(),
        ensures
            self.key_seq().len() == self.value_seq().len(),
            self.key_seq().len() <= usize::MAX,
            self.key_seq().no_duplicates(),
            self@.dom().finite(),
            self@.dom().len() == self.key_seq().len(),
            self@.dom() == self.key_seq().to_set(),
            forall|i: int|
                0 <= i < self.key_seq().len() ==> self@.contains_key(#[trigger] self.key_seq()[i])
                    && self@[self.key_seq()[i]] == self.value_seq()[i],
            forall|k: K| #[trigger]
                self@.contains_key(k) ==> self.key_seq().contains(k)
                    && self.value_seq()[self.key_seq().index_of(k)] == self@[k],
    {
        let ks = self.keys@;
        assert(ks.len() == self.keys.len());
        assert(self@.dom() =~= ks.to_set());
        ks.unique_seq_to_set();
        vstd::seq_lib::seq_to_set_is_finite(ks);
        assert forall|i: int| 0 <= i < ks.len() implies self@.contains_key(#[trigger] ks[i])
            && self@[ks[i]] == self.values@[i] by {
            lemma_index_of_unique(ks, i);
        }
    }
}

impl<K: TableKey, V> Table<K, V> {
    /// An empty table.
    pub fn new() -> (t: Self)
        ensures
            t.wf(),
            t@ == Map::<K, V>::empty(),
            t.key_seq() == Seq::<K>::empty(),
            t.value_seq() == Seq::<V>::empty(),
    {
        let t = Table { keys: Vec::new(), values: Vec::new() };
        assert(t@ =~= Map::<K, V>::empty());
        t
    }

    /// How many keys the table holds.
    pub fn len(&self) -> (n: usize)
        requires
            self.wf(),
        ensures
            n == self@.dom().len(),
            n == self.key_seq().len(),
    {
        proof {
            self.lemma_contents();
        }
        self.keys.len()
    }

    /// The position of `key`, if the table holds it.
    pub fn find(&self, key: &K) -> (r: Option<usize>)
        requires
            self.wf(),
        ensures
            match r {
                Some(i) => i < self.key_seq().len() && self.key_seq()[i as int] == *key
                    && self@.contains_key(*key),
                None => !self@.contains_key(*key),
            },
    {
        let mut i: usize = 0;
        while i < self.keys.len()
            invariant
                i <= self.keys@.len(),
                forall|j: int| 0 <= j < i ==> self.keys@[j] != *key,
            decreases self.keys@.len() - i,
        {
            if self.keys[i].key_eq(key) {
                return Some(i);
            }
            i = i + 1;
        }
        None
    }

    /// Whether the table holds `key`.
    pub fn contains_key(&self, key: &K) -> (b: bool)
        requires
            self.wf(),
        ensures
            b == self@.contains_key(*key),
    {
        self.find(key).is_some()
    }

    /// The value of `key`, if the table holds it.
    pub fn get(&self, key: &K) -> (r: Option<&V>)
        requires
            self.wf(),
        ensures
            match r {
                Some(v) => self@.contains_key(*key) && *v == self@[*key],
                None => !self@.contains_key(*key),
            },
    {
        match self.find(key) {
            Some(i) => {
                proof {
                    lemma_index_of_unique(self.keys@, i as int);
                }
                Some(&self.values[i])
            },
            None => None,
        }
    }

    /// The key at position `i`.
    pub fn key_at(&self, i: usize) -> (k: &K)
        requires
            self.wf(),
            i < self.key_seq().len(),
        ensures
            *k == self.key_seq()[i as int],
    {
        &self.keys[i]
    }

    /// The value at position `i`.
    pub fn value_at(&self, i: usize) -> (v: &V)
        requires
            self.wf(),
            i < self.key_seq().len(),
        ensures
            *v == self.value_seq()[i as int],
            *v == self@[self.key_seq()[i as int]],
    {
        proof {
            self.lemma_contents();
        }
        &self.values[i]
    }

    /// Binds `key` to `value`. A new key goes to the end; a key already
    /// present keeps its place and hands back the value it had.
    pub fn insert(&mut self, key: K, value: V) -> (previous: Option<V>)
        requires
            old(self).wf(),
        ensures
            final(self).wf(),
            final(self)@ == old(self)@.insert(key, value),
            previous == if old(self)@.contains_key(key) {
                Some(old(self)@[key])
            } else {
                None::<V>
            },
            !old(self)@.contains_key(key) ==> final(self).key_seq() == old(self).key_seq().push(key)
                && final(self).value_seq() == old(self).value_seq().push(value),
            old(self)@.contains_key(key) ==> final(self).key_seq() == old(self).key_seq()
                && final(self).value_seq() == old(self).value_seq().update(
                old(self).key_seq().index_of(key),
                value,
            ),
    {
        match self.find(&key) {
            Some(i) => {
                let ghost ks = self.keys@;
                let ghost vs = self.values@;
                self.values.push(value);
                let previous = self.values.swap_remove(i);
                proof {
                    lemma_index_of_unique(ks, i as int);
                    assert(self.values@ =~= vs.update(i as int, value));
                    assert forall|k: K| #[trigger] ks.contains(k) implies self.values@[ks.index_of(k)]
                        == old(self)@.insert(key, value)[k] by {
                        let j = ks.index_of(k);
                        assert(0 <= j < ks.len() && ks[j] == k);
                    }
                    assert(self@ =~= old(self)@.insert(key, value));
                }
                Some(previous)
            },
            None => {
                let ghost ks = self.keys@;
                let ghost vs = self.values@;
                self.keys.push(key);
                self.values.push(value);
                proof {
                    let ks2 = self.keys@;
                    assert(ks2 =~= ks.push(key));
                    assert(ks2.no_duplicates()) by {
                        assert forall|a: int, b: int|
                            0 <= a < ks2.len() && 0 <= b < ks2.len() && a != b implies ks2[a]
                            != ks2[b] by {
                            if a < ks.len() {
                                assert(ks.contains(ks[a]));
                            }
                            if b < ks.len() {
                                assert(ks.contains(ks[b]));
                            }
                        }
                    }
                    assert forall|k: K| #[trigger] ks2.contains(k) implies (ks.contains(k) || k == key)
                        && self.values@[ks2.index_of(k)] == old(self)@.insert(key, value)[k] by {
                        let j = ks2.index_of(k);
                        assert(0 <= j < ks2.len() && ks2[j] == k);
                        if j < ks.len() {
                            assert(ks[j] == k);
                            lemma_index_of_unique(ks, j);
                        }
                    }
                    assert forall|k: K| ks.contains(k) || k == key implies #[trigger] ks2.contains(
                        k,
                    ) by {
                        if k == key {
                            assert(ks2[ks.len() as int] == key);
                        } else {
                            let j = ks.index_of(k);
                            assert(ks2[j] == k);
                        }
                    }
                    assert(self@ =~= old(self)@.insert(key, value));
                }
                None
            },
        }
    }

    /// Takes `key` and its value out; the entries behind it move up.
    pub fn remove(&mut self, key: &K) -> (removed: Option<V>)
        requires
            old(self).wf(),
        ensures
            final(self).wf(),
            final(self)@ == old(self)@.remove(*key),
            removed == if old(self)@.contains_key(*key) {
                Some(old(self)@[*key])
            } else {
                None::<V>
            },
            !old(self)@.contains_key(*key) ==> final(self).key_seq() == old(self).key_seq()
                && final(self).value_seq() == old(self).value_seq(),
            old(self)@.contains_key(*key) ==> final(self).key_seq() == old(self).key_seq().remove(
                old(self).key_seq().index_of(*key),
            ) && final(self).value_seq() == old(self).value_seq().remove(
                old(self).key_seq().index_of(*key),
            ),
    {
        match self.find(key) {
            Some(i) => {
                proof {
                    lemma_index_of_unique(self.keys@, i as int);
                }
                let (_, v) = self.remove_at(i);
                Some(v)
            },
            None => {
                assert(self@ =~= old(self)@.remove(*key));
                None
            },
        }
    }

    /// Takes the entry at position `i` out; the entries behind it move up.
    pub fn remove_at(&mut self, i: usize) -> (entry: (K, V))
        requires
            old(self).wf(),
            i < old(self).key_seq().len(),
        ensures
            final(self).wf(),
            entry.0 == old(self).key_seq()[i as int],
            entry.1 == old(self).value_seq()[i as int],
            entry.1 == old(self)@[entry.0],
            final(self)@ == old(self)@.remove(entry.0),
            final(self).key_seq() == old(self).key_seq().remove(i as int),
            final(self).value_seq() == old(self).value_seq().remove(i as int),
    {
        let ghost ks = self.keys@;
        let ghost vs = self.values@;
        let k = self.keys.remove(i);
        let v = self.values.remove(i);
        proof {
            let ks2 = self.keys@;
            let vs2 = self.values@;
            lemma_index_of_unique(ks, i as int);
            assert forall|a: int, b: int|
                0 <= a < ks2.len() && 0 <= b < ks2.len() && a != b implies ks2[a] != ks2[b] by {
                let a0 = if a < i { a } else { a + 1 };
                let b0 = if b < i { b } else { b + 1 };
                assert(ks2[a] == ks[a0] && ks2[b] == ks[b0]);
            }
            assert forall|q: K| #[trigger] ks2.contains(q) implies ks.contains(q) && q != k
                && vs2[ks2.index_of(q)] == vs[ks.index_of(q)] by {
                let j = ks2.index_of(q);
                assert(0 <= j < ks2.len() && ks2[j] == q);
                let j0 = if j < i { j } else { j + 1 };
                assert(ks[j0] == q);
                lemma_index_of_unique(ks, j0);
            }
            assert forall|q: K| ks.contains(q) && q != k implies #[trigger] ks2.contains(q) by {
                let j = ks.index_of(q);
                assert(0 <= j < ks.len() && ks[j] == q);
                let j2 = if j < i { j } else { j - 1 };
                assert(ks2[j2] == q);
            }
            assert(self@ =~= old(self)@.remove(k));
        }
        (k, v)
    }

    /// Puts `value` in place of the value at position `i` and hands the old
    /// one back.
    pub fn replace_at(&mut self, i: usize, value: V) -> (previous: V)
        requires
            old(self).wf(),
            i < old(self).key_seq().len(),
        ensures
            final(self).wf(),
            previous == old(self).value_seq()[i as int],
            final(self).key_seq() == old(self).key_seq(),
            final(self).value_seq() == old(self).value_seq().update(i as int, value),
            final(self)@ == old(self)@.insert(old(self).key_seq()[i as int], value),
    {
        let ghost ks = self.keys@;
        let ghost vs = self.values@;
        self.values.push(value);
        let previous = self.values.swap_remove(i);
        proof {
            lemma_index_of_unique(ks, i as int);
            assert(self.values@ =~= vs.update(i as int, value));
            assert forall|k: K| #[trigger] ks.contains(k) implies self.values@[ks.index_of(k)]
                == old(self)@.insert(ks[i as int], value)[k] by {
                let j = ks.index_of(k);
                assert(0 <= j < ks.len() && ks[j] == k);
            }
            assert(self@ =~= old(self)@.insert(ks[i as int], value));
        }
        previous
    }
}

} // verus!
