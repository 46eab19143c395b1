//! Small keyed tables that keep the order in which their keys came.

use vstd::prelude::*;

use crate::text::{same_bytes, same_text};

verus! {

/// A key: two keys are the same when their views are.
pub trait Key: View + Sized {
    /// Whether two keys are the same.
    fn same(&self, other: &Self) -> (r: bool)
        ensures
            r == (self@ == other@),
    ;

    /// A second copy of the key.
    fn copy_key(&self) -> (r: Self)
        ensures
            r@ == self@,
    ;
}

impl Key for String {
    fn same(&self, other: &Self) -> (r: bool) {
        same_text(self.as_str(), other.as_str())
    }

    fn copy_key(&self) -> (r: Self) {
        self.clone()
    }
}

/// A content hash, a record id or a public key: thirty-two bytes.
#[derive(Clone, Copy, Debug, PartialEq, Eq)]
pub struct Id {
    /// The bytes.
    pub bytes: [u8; 32],
}

impl View for Id {
    type V = Seq<u8>;

    open spec fn view(&self) -> Seq<u8> {
        self.bytes@
    }
}

impl Key for Id {
    fn same(&self, other: &Self) -> (r: bool) {
        same_bytes(self.bytes.as_slice(), other.bytes.as_slice())
    }

    fn copy_key(&self) -> (r: Self) {
        *self
    }
}

/// A set of keys without repetition, in order of arrival.
pub struct KeySet<K: Key> {
    items: Vec<K>,
}

impl<K: Key> View for KeySet<K> {
    type V = Set<K::V>;

    closed spec fn view(&self) -> Set<K::V> {
        self.keys().to_set()
    }
}

impl<K: Key> KeySet<K> {
    /// The keys in order of arrival.
    pub closed spec fn keys(&self) -> Seq<K::V> {
        self.items@.map_values(|k: K| k@)
    }

    /// No key stands twice.
    pub closed spec fn wf(&self) -> bool {
        self.keys().no_duplicates()
    }

    /// An empty set.
    pub fn new() -> (r: Self)
        ensures
            r.wf(),
            r@ == Set::<K::V>::empty(),
            r.keys() == Seq::<K::V>::empty(),
    {
        let r = KeySet { items: Vec::new() };
        assert(r.keys() =~= Seq::<K::V>::empty());
        assert(r@ =~= Set::<K::V>::empty());
        r
    }

    /// Membership in the set is membership in the sequence, and no key stands
    /// twice.
    pub proof fn lemma_keys(&self)
        ensures
            self@ == self.keys().to_set(),
            forall|k: K::V| self@.contains(k) <==> self.keys().contains(k),
    {
    }

    /// How many keys there are.
    pub fn len(&self) -> (r: usize)
        requires
            self.wf(),
        ensures
            r == self@.len(),
            r == self.keys().len(),
            self@.finite(),
            self.keys().no_duplicates(),
            self@ == self.keys().to_set(),
    {
        proof {
            self.keys().unique_seq_to_set();
        }
        self.items.len()
    }

    /// The key at a position.
    pub fn key_at(&self, i: usize) -> (r: &K)
        requires
            i < self.keys().len(),
        ensures
            r@ == self.keys()[i as int],
            self@.contains(r@),
    {
        proof {
            assert(self.keys()[i as int] == self.items@[i as int]@);
            assert(self.keys().contains(self.keys()[i as int]));
        }
        &self.items[i]
    }

    fn find(&self, k: &K) -> (r: Option<usize>)
        ensures
            match r {
                Some(i) => i < self.keys().len() && self.keys()[i as int] == k@,
                None => !self.keys().contains(k@),
            },
    {
        let mut i: usize = 0;
        while i < self.items.len()
            invariant
                i <= self.items.len(),
                self.keys().len() == self.items.len(),
                forall|j: int| 0 <= j < i ==> self.keys()[j] != k@,
            decreases self.items.len() - i,
        {
            assert(self.keys()[i as int] == self.items@[i as int]@);
            if self.items[i].same(k) {
                return Some(i);
            }
            i = i + 1;
        }
        None
    }

    /// Whether a key is in the set.
    pub fn contains(&self, k: &K) -> (r: bool)
        ensures
            r == self@.contains(k@),
    {
        match self.find(k) {
            Some(i) => {
                proof {
                    assert(self.keys().contains(self.keys()[i as int]));
                }
                true
            },
            None => false,
        }
    }

    /// Adds a key; tells whether it was not there before.
    pub fn insert(&mut self, k: K) -> (r: bool)
        requires
            old(self).wf(),
        ensures
            final(self).wf(),
            r == !old(self)@.contains(k@),
            final(self)@ == old(self)@.insert(k@),
            final(self).keys() == if old(self)@.contains(k@) {
                old(self).keys()
            } else {
                old(self).keys().push(k@)
            },
    {
        if self.contains(&k) {
            assert(self@ =~= self@.insert(k@));
            return false;
        }
        let ghost before = self.keys();
        let ghost set = self@;
        let ghost items = self.items@;
        assert(items.push(k).map_values(|k: K| k@) =~= before.push(k@));
        assert(before.push(k@).no_duplicates()) by {
            assert forall|i: int, j: int| 0 <= i < j < before.push(k@).len() implies before.push(
                k@,
            )[i] != before.push(k@)[j] by {
                if j == before.len() {
                    assert(before.contains(before[i]));
                }
            }
        }
        self.items.push(k);
        assert(self.keys() == before.push(k@));
        assert(self@ =~= set.insert(k@)) by {
            assert forall|x: K::V| before.push(k@).contains(x) <==> (before.contains(x) || x
                == k@) by {
                if before.contains(x) {
                    let i = choose|i: int| 0 <= i < before.len() && before[i] == x;
                    assert(before.push(k@)[i] == x);
                }
                assert(before.push(k@)[before.len() as int] == k@);
            }
        }
        true
    }

    /// Takes the key at a position out.
    pub fn remove_at(&mut self, i: usize)
        requires
            old(self).wf(),
            i < old(self).keys().len(),
        ensures
            final(self).wf(),
            final(self).keys() == old(self).keys().remove(i as int),
            final(self)@ == old(self)@.remove(old(self).keys()[i as int]),
    {
        let ghost before = self.keys();
        let ghost set = self@;
        let ghost items = self.items@;
        assert(items.remove(i as int).map_values(|k: K| k@) =~= before.remove(i as int));
        proof {
            lemma_remove_unique(before, i as int);
        }
        let _ = self.items.remove(i);
        assert(self@ =~= set.remove(before[i as int]));
    }

    /// Takes a key out; tells whether it was there.
    pub fn remove(&mut self, k: &K) -> (r: bool)
        requires
            old(self).wf(),
        ensures
            final(self).wf(),
            r == old(self)@.contains(k@),
            final(self)@ == old(self)@.remove(k@),
    {
        match self.find(k) {
            Some(i) => {
                assert(self.keys().contains(self.keys()[i as int]));
                self.remove_at(i);
                true
            },
            None => {
                assert(self@ =~= self@.remove(k@));
                false
            },
        }
    }
}

proof fn lemma_remove_unique<A>(s: Seq<A>, i: int)
    requires
        s.no_duplicates(),
        0 <= i < s.len(),
    ensures
        s.remove(i).no_duplicates(),
        s.remove(i).to_set() == s.to_set().remove(s[i]),
{
    let t = s.remove(i);
    assert forall|a: int, b: int| 0 <= a < b < t.len() implies t[a] != t[b] by {
        let a2 = if a < i { a } else { a + 1 };
        let b2 = if b < i { b } else { b + 1 };
        assert(t[a] == s[a2]);
        assert(t[b] == s[b2]);
    }
    assert forall|x: A| t.contains(x) <==> (s.contains(x) && x != s[i]) by {
        if t.contains(x) {
            let a = choose|a: int| 0 <= a < t.len() && t[a] == x;
            let a2 = if a < i { a } else { a + 1 };
            assert(t[a] == s[a2]);
        }
        if s.contains(x) && x != s[i] {
            let a = choose|a: int| 0 <= a < s.len() && s[a] == x;
            let a2 = if a < i { a } else { a - 1 };
            assert(t[a2] == s[a]);
        }
    }
    assert(t.to_set() =~= s.to_set().remove(s[i]));
}

/// A table from keys to values, in order of the keys' arrival.
pub struct KeyMap<K: Key, T> {
    names: Vec<K>,
    values: Vec<T>,
}

impl<K: Key, T> View for KeyMap<K, T> {
    type V = Map<K::V, T>;

    closed spec fn view(&self) -> Map<K::V, T> {
        Map::new(
            |k: K::V| self.keys().contains(k),
            |k: K::V| self.vals()[self.keys().index_of(k)],
        )
    }
}

impl<K: Key, T> KeyMap<K, T> {
    /// The keys in order of arrival.
    pub closed spec fn keys(&self) -> Seq<K::V> {
        self.names@.map_values(|k: K| k@)
    }

    /// The values, each at its key's position.
    pub closed spec fn vals(&self) -> Seq<T> {
        self.values@
    }

    /// No key stands twice, and each has its value.
    pub closed spec fn wf(&self) -> bool {
        &&& self.keys().no_duplicates()
        &&& self.names.len() == self.values.len()
    }

    /// An empty table.
    pub fn new() -> (r: Self)
        ensures
            r.wf(),
            r@ == Map::<K::V, T>::empty(),
            r.keys() == Seq::<K::V>::empty(),
            r.vals() == Seq::<T>::empty(),
    {
        let r = KeyMap { names: Vec::new(), values: Vec::new() };
        assert(r.keys() =~= Seq::<K::V>::empty());
        assert(r@ =~= Map::<K::V, T>::empty());
        r
    }

    spec fn shape(&self) -> bool {
        &&& self.keys().no_duplicates()
        &&& self.vals().len() == self.keys().len()
        &&& self@.dom() == self.keys().to_set()
        &&& forall|i: int|
            0 <= i < self.keys().len() ==> self@.dom().contains(#[trigger] self.keys()[i])
                && self@[self.keys()[i]] == self.vals()[i]
    }

    proof fn lemma_shape(&self)
        requires
            self.wf(),
        ensures
            self.shape(),
    {
        assert(self@.dom() =~= self.keys().to_set());
        assert forall|i: int| 0 <= i < self.keys().len() implies self@.dom().contains(
            #[trigger] self.keys()[i],
        ) && self@[self.keys()[i]] == self.vals()[i] by {
            let k = self.keys()[i];
            assert(self.keys().contains(k));
            assert(self.keys()[self.keys().index_of(k)] == k);
        }
    }

    /// How many keys there are.
    pub fn len(&self) -> (r: usize)
        requires
            self.wf(),
        ensures
            r == self@.len(),
            r == self.keys().len(),
            self@.dom().finite(),
            self@.dom() == self.keys().to_set(),
            self.keys().no_duplicates(),
            self.vals().len() == r,
            forall|i: int|
                0 <= i < r ==> self@.dom().contains(#[trigger] self.keys()[i])
                    && self@[self.keys()[i]] == self.vals()[i],
    {
        proof {
            self.lemma_shape();
            self.keys().unique_seq_to_set();
        }
        self.names.len()
    }

    /// The key at a position.
    pub fn key_at(&self, i: usize) -> (r: &K)
        requires
            i < self.keys().len(),
        ensures
            r@ == self.keys()[i as int],
            self@.dom().contains(r@),
    {
        proof {
            assert(self.keys()[i as int] == self.names@[i as int]@);
            assert(self.keys().contains(self.keys()[i as int]));
        }
        &self.names[i]
    }

    /// The value at a position.
    pub fn value_at(&self, i: usize) -> (r: &T)
        requires
            self.wf(),
            i < self.keys().len(),
        ensures
            *r == self.vals()[i as int],
            *r == self@[self.keys()[i as int]],
    {
        proof {
            self.lemma_shape();
        }
        &self.values[i]
    }

    fn find(&self, k: &K) -> (r: Option<usize>)
        ensures
            match r {
                Some(i) => i < self.keys().len() && self.keys()[i as int] == k@,
                None => !self.keys().contains(k@),
            },
    {
        let mut i: usize = 0;
        while i < self.names.len()
            invariant
                i <= self.names.len(),
                self.keys().len() == self.names.len(),
                forall|j: int| 0 <= j < i ==> self.keys()[j] != k@,
            decreases self.names.len() - i,
        {
            assert(self.keys()[i as int] == self.names@[i as int]@);
            if self.names[i].same(k) {
                return Some(i);
            }
            i = i + 1;
        }
        None
    }

    /// Whether the table has a key.
    pub fn contains_key(&self, k: &K) -> (r: bool)
        ensures
            r == self@.dom().contains(k@),
    {
        match self.find(k) {
            Some(i) => {
                assert(self.keys().contains(self.keys()[i as int]));
                true
            },
            None => false,
        }
    }

    /// The value under a key.
    pub fn get(&self, k: &K) -> (r: Option<&T>)
        requires
            self.wf(),
        ensures
            match r {
                Some(v) => self@.dom().contains(k@) && *v == self@[k@],
                None => !self@.dom().contains(k@),
            },
    {
        proof {
            self.lemma_shape();
        }
        match self.find(k) {
            Some(i) => Some(&self.values[i]),
            None => None,
        }
    }

    /// Puts a value under a key, in place of what stood there.
    pub fn insert(&mut self, k: K, v: T)
        requires
            old(self).wf(),
        ensures
            final(self).wf(),
            final(self)@ == old(self)@.insert(k@, v),
            final(self).keys() == if old(self)@.dom().contains(k@) {
                old(self).keys()
            } else {
                old(self).keys().push(k@)
            },
    {
        proof {
            self.lemma_shape();
        }
        let ghost keys = self.keys();
        let ghost vals = self.vals();
        let ghost table = self@;
        let ghost names = self.names@;
        let ghost kv = k@;
        match self.find(&k) {
            Some(i) => {
                assert(keys.contains(keys[i as int]));
                self.values.set(i, v);
                proof {
                    self.lemma_shape();
                    assert(self.keys() == keys);
                    assert forall|x: K::V| keys.contains(x) implies self@[x] == #[trigger] table.insert(
                        kv,
                        v,
                    )[x] by {
                        let j = choose|j: int| 0 <= j < keys.len() && keys[j] == x;
                        assert(self@[keys[j]] == self.vals()[j]);
                        assert(table[keys[j]] == vals[j]);
                    }
                    assert(self@ =~= table.insert(kv, v));
                }
            },
            None => {
                let ghost pushed = keys.push(kv);
                assert(names.push(k).map_values(|k: K| k@) =~= pushed);
                assert(pushed.no_duplicates()) by {
                    assert forall|i: int, j: int| 0 <= i < j < pushed.len() implies pushed[i]
                        != pushed[j] by {
                        if j == keys.len() {
                            assert(keys.contains(keys[i]));
                        }
                    }
                }
                self.names.push(k);
                self.values.push(v);
                proof {
                    self.lemma_shape();
                    assert(self.keys() == pushed);
                    assert forall|x: K::V| pushed.contains(x) <==> (keys.contains(x) || x == kv) by {
                        if keys.contains(x) {
                            let j = choose|j: int| 0 <= j < keys.len() && keys[j] == x;
                            assert(pushed[j] == x);
                        }
                        assert(pushed[keys.len() as int] == kv);
                    }
                    assert forall|x: K::V| pushed.contains(x) implies self@[x] == #[trigger] table.insert(
                        kv,
                        v,
                    )[x] by {
                        let j = choose|j: int| 0 <= j < pushed.len() && pushed[j] == x;
                        assert(self@[self.keys()[j]] == self.vals()[j]);
                        if j < keys.len() {
                            assert(table[keys[j]] == vals[j]);
                        }
                    }
                    assert(self@ =~= table.insert(kv, v));
                }
            },
        }
    }

    /// Takes the key and the value at a position out.
    pub fn remove_at(&mut self, i: usize) -> (r: (K, T))
        requires
            old(self).wf(),
            i < old(self).keys().len(),
        ensures
            final(self).wf(),
            r.0@ == old(self).keys()[i as int],
            r.1 == old(self)@[r.0@],
            final(self).keys() == old(self).keys().remove(i as int),
            final(self)@ == old(self)@.remove(r.0@),
    {
        proof {
            self.lemma_shape();
        }
        let ghost keys = self.keys();
        let ghost vals = self.vals();
        let ghost table = self@;
        let ghost names0 = self.names@;
        proof {
            lemma_remove_unique(keys, i as int);
            assert(names0.remove(i as int).map_values(|k: K| k@) =~= keys.remove(i as int));
            assert(keys[i as int] == names0[i as int]@);
        }
        let k = self.names.remove(i);
        let v = self.values.remove(i);
        proof {
            self.lemma_shape();
            let rest = keys.remove(i as int);
            assert(self.keys() == rest);
            assert forall|x: K::V| rest.contains(x) implies self@[x] == #[trigger] table.remove(
                k@,
            )[x] by {
                let j = choose|j: int| 0 <= j < rest.len() && rest[j] == x;
                let j2 = if j < i { j } else { j + 1 };
                assert(self@[self.keys()[j]] == self.vals()[j]);
                assert(table[keys[j2]] == vals[j2]);
                assert(keys.to_set().contains(x));
            }
            assert forall|x: K::V| rest.to_set().contains(x) <==> rest.contains(x) by {}
            assert(self@.dom() =~= table.remove(k@).dom());
            assert(self@ =~= table.remove(k@));
        }
        (k, v)
    }

    /// Takes a key out with its value.
    pub fn remove(&mut self, k: &K) -> (r: Option<T>)
        requires
            old(self).wf(),
        ensures
            final(self).wf(),
            match r {
                Some(v) => old(self)@.dom().contains(k@) && v == old(self)@[k@],
                None => !old(self)@.dom().contains(k@),
            },
            final(self)@ == old(self)@.remove(k@),
    {
        match self.find(k) {
            Some(i) => {
                assert(self.keys().contains(self.keys()[i as int]));
                let (_, v) = self.remove_at(i);
                Some(v)
            },
            None => {
                assert(self@ =~= self@.remove(k@));
                None
            },
        }
    }
}

} // verus!
