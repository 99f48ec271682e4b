//! Small keyed tables kept in insertion order: one keyed by 128-bit
//! identifiers, one keyed by names. Each is modelled by a map from the key's
//! view to the stored value.

use vstd::prelude::*;
use vstd::string::*;

verus! {

/// A table from 128-bit identifiers to values, in insertion order.
pub struct IdTable<V> {
    entries: Vec<(u128, V)>,
    model: Ghost<Map<u128, V>>,
}

impl<V> View for IdTable<V> {
    type V = Map<u128, V>;

    closed spec fn view(&self) -> Map<u128, V> {
        self.model@
    }
}

impl<V> IdTable<V> {
    /// The keys in insertion order.
    pub closed spec fn key_seq(&self) -> Seq<u128> {
        self.entries@.map_values(|e: (u128, V)| e.0)
    }

    /// Keys are unique, and the entries are exactly the model's.
    pub closed spec fn wf(&self) -> bool {
        &&& forall|i: int, j: int|
            0 <= i < j < self.entries@.len() ==> self.entries@[i].0 != self.entries@[j].0
        &&& forall|i: int|
            0 <= i < self.entries@.len() ==> self.model@.contains_key(#[trigger] self.entries@[i].0)
                && self.model@[self.entries@[i].0] == self.entries@[i].1
        &&& forall|k: u128|
            #[trigger] self.model@.contains_key(k) ==> exists|i: int|
                0 <= i < self.entries@.len() && self.entries@[i].0 == k
    }

    /// An empty table.
    pub fn new() -> (r: Self)
        ensures
            r.wf(),
            r@ == Map::<u128, V>::empty(),
    {
        IdTable { entries: Vec::new(), model: Ghost(Map::empty()) }
    }

    /// The number of entries.
    pub fn len(&self) -> (r: usize)
        requires
            self.wf(),
        ensures
            r == self@.len(),
    {
        proof {
            self.lemma_len();
        }
        self.entries.len()
    }

    proof fn lemma_len(&self)
        requires
            self.wf(),
        ensures
            self.entries@.len() == self@.len(),
            self@.dom().finite(),
            self.key_seq().no_duplicates(),
            self.key_seq().to_set() == self@.dom(),
        decreases self.entries@.len(),
    {
        let keys = self.key_seq();
        assert forall|i: int, j: int| 0 <= i < j < keys.len() implies keys[i] != keys[j] by {
            assert(self.entries@[i].0 != self.entries@[j].0);
        }
        assert(keys.no_duplicates());
        keys.unique_seq_to_set();
        assert(keys.to_set() =~= self@.dom()) by {
            assert forall|k: u128| keys.to_set().contains(k) implies self@.dom().contains(k) by {
                let i = choose|i: int| 0 <= i < keys.len() && keys[i] == k;
                assert(self.entries@[i].0 == k);
            }
            assert forall|k: u128| self@.dom().contains(k) implies keys.to_set().contains(k) by {
                let i = choose|i: int| 0 <= i < self.entries@.len() && self.entries@[i].0 == k;
                assert(keys[i] == k);
            }
        }
    }

    /// The index of `k`, if present.
    fn find(&self, k: u128) -> (r: Option<usize>)
        requires
            self.wf(),
        ensures
            r matches Some(i) ==> i < self.entries@.len() && self.entries@[i as int].0 == k,
            r.is_none() == !self@.contains_key(k),
    {
        let mut i: usize = 0;
        while i < self.entries.len()
            invariant
                self.wf(),
                i <= self.entries@.len(),
                forall|j: int| 0 <= j < i ==> self.entries@[j].0 != k,
            decreases self.entries@.len() - i,
        {
            if self.entries[i].0 == k {
                assert(self@.contains_key(self.entries@[i as int].0));
                return Some(i);
            }
            i = i + 1;
        }
        proof {
            if self@.contains_key(k) {
                let j = choose|j: int| 0 <= j < self.entries@.len() && self.entries@[j].0 == k;
                assert(self.entries@[j].0 != k);
            }
        }
        None
    }

    /// Whether `k` is present.
    pub fn contains_key(&self, k: u128) -> (r: bool)
        requires
            self.wf(),
        ensures
            r == self@.contains_key(k),
    {
        self.find(k).is_some()
    }

    /// The value stored under `k`, if any.
    pub fn get(&self, k: u128) -> (r: Option<&V>)
        requires
            self.wf(),
        ensures
            r.is_some() == self@.contains_key(k),
            r matches Some(v) ==> *v == self@[k],
    {
        match self.find(k) {
            Some(i) => Some(&self.entries[i].1),
            None => None,
        }
    }

    /// Stores `v` under `k`, replacing the value there, if any, in place.
    pub fn insert(&mut self, k: u128, v: V)
        requires
            old(self).wf(),
        ensures
            final(self).wf(),
            final(self)@ == old(self)@.insert(k, v),
    {
        match self.find(k) {
            Some(i) => {
                let ghost old_entries = self.entries@;
                self.entries.set(i, (k, v));
                self.model = Ghost(self.model@.insert(k, v));
                proof {
                    assert forall|k2: u128| #[trigger]
                        self.model@.contains_key(k2) implies exists|j: int|
                        0 <= j < self.entries@.len() && self.entries@[j].0 == k2 by {
                        if k2 != k {
                            let j = choose|j: int|
                                0 <= j < old_entries.len() && old_entries[j].0 == k2;
                            assert(self.entries@[j].0 == k2);
                        } else {
                            assert(self.entries@[i as int].0 == k2);
                        }
                    }
                }
            },
            None => {
                let ghost old_entries = self.entries@;
                let ghost old_model = self.model@;
                self.entries.push((k, v));
                self.model = Ghost(self.model@.insert(k, v));
                proof {
                    assert forall|k2: u128| #[trigger]
                        self.model@.contains_key(k2) implies exists|j: int|
                        0 <= j < self.entries@.len() && self.entries@[j].0 == k2 by {
                        if k2 != k {
                            let j = choose|j: int|
                                0 <= j < old_entries.len() && old_entries[j].0 == k2;
                            assert(self.entries@[j].0 == k2);
                        } else {
                            assert(self.entries@[old_entries.len() as int].0 == k2);
                        }
                    }
                    assert forall|a: int, b: int|
                        0 <= a < b < self.entries@.len() implies self.entries@[a].0
                        != self.entries@[b].0 by {
                        if b == old_entries.len() {
                            assert(old_model.contains_key(old_entries[a].0));
                        } else {
                            assert(old_entries[a].0 != old_entries[b].0);
                        }
                    }
                }
            },
        }
    }

    /// Takes out the value under `k`, if any.
    pub fn remove(&mut self, k: u128) -> (r: Option<V>)
        requires
            old(self).wf(),
        ensures
            final(self).wf(),
            final(self)@ == old(self)@.remove(k),
            r.is_some() == old(self)@.contains_key(k),
            r matches Some(v) ==> v == old(self)@[k],
    {
        match self.find(k) {
            Some(i) => {
                let ghost old_entries = self.entries@;
                let e = self.entries.remove(i);
                self.model = Ghost(self.model@.remove(k));
                proof {
                    assert forall|a: int|
                        0 <= a < self.entries@.len() implies self.model@.contains_key(
                        #[trigger] self.entries@[a].0,
                    ) && self.model@[self.entries@[a].0] == self.entries@[a].1 by {
                        if a < i {
                            assert(self.entries@[a] == old_entries[a]);
                        } else {
                            assert(self.entries@[a] == old_entries[a + 1]);
                        }
                    }
                    assert forall|k2: u128| #[trigger]
                        self.model@.contains_key(k2) implies exists|j: int|
                        0 <= j < self.entries@.len() && self.entries@[j].0 == k2 by {
                        let j = choose|j: int|
                            0 <= j < old_entries.len() && old_entries[j].0 == k2;
                        if j < i {
                            assert(self.entries@[j].0 == k2);
                        } else {
                            assert(j != i);
                            assert(self.entries@[j - 1].0 == k2);
                        }
                    }
                    assert forall|a: int, b: int|
                        0 <= a < b < self.entries@.len() implies self.entries@[a].0
                        != self.entries@[b].0 by {
                        let oa = if a < i { a } else { a + 1 };
                        let ob = if b < i { b } else { b + 1 };
                        assert(self.entries@[a] == old_entries[oa]);
                        assert(self.entries@[b] == old_entries[ob]);
                    }
                }
                Some(e.1)
            },
            None => {
                proof {
                    assert(self.model@.remove(k) =~= self.model@);
                }
                None
            },
        }
    }

    /// The keys, in insertion order.
    pub fn keys(&self) -> (r: Vec<u128>)
        requires
            self.wf(),
        ensures
            r@.to_set() == self@.dom(),
            r@.no_duplicates(),
            r@ == self.key_seq(),
    {
        let mut out: Vec<u128> = Vec::new();
        let mut i: usize = 0;
        while i < self.entries.len()
            invariant
                i <= self.entries@.len(),
                out@ == self.key_seq().subrange(0, i as int),
            decreases self.entries@.len() - i,
        {
            out.push(self.entries[i].0);
            i = i + 1;
            proof {
                assert(out@ =~= self.key_seq().subrange(0, i as int));
            }
        }
        proof {
            assert(out@ =~= self.key_seq());
            assert forall|a: int, b: int| 0 <= a < out@.len() && 0 <= b < out@.len() && a
                != b implies out@[a] != out@[b] by {
                if a < b {
                    assert(self.entries@[a].0 != self.entries@[b].0);
                } else {
                    assert(self.entries@[b].0 != self.entries@[a].0);
                }
            }
            assert(out@.to_set() =~= self@.dom()) by {
                assert forall|k: u128| out@.to_set().contains(k) implies self@.dom().contains(
                    k,
                ) by {
                    let a = choose|a: int| 0 <= a < out@.len() && out@[a] == k;
                    assert(self.entries@[a].0 == k);
                }
                assert forall|k: u128| self@.dom().contains(k) implies out@.to_set().contains(
                    k,
                ) by {
                    let a = choose|a: int| 0 <= a < self.entries@.len() && self.entries@[a].0 == k;
                    assert(out@[a] == k);
                }
            }
        }
        out
    }
}

/// Whether two strings are equal.
pub fn str_equal(a: &str, b: &str) -> (r: bool)
    ensures
        r == (a@ == b@),
{
    proof {
        vstd::utf8::encode_utf8_decode_utf8(a@);
        vstd::utf8::encode_utf8_decode_utf8(b@);
    }
    crate::topic::bytes_equal(a.as_bytes(), b.as_bytes())
}

/// A table from names to values, in insertion order.
pub struct NameTable<V> {
    entries: Vec<(String, V)>,
    model: Ghost<Map<Seq<char>, V>>,
}

impl<V> View for NameTable<V> {
    type V = Map<Seq<char>, V>;

    closed spec fn view(&self) -> Map<Seq<char>, V> {
        self.model@
    }
}

impl<V> NameTable<V> {
    /// The keys in insertion order.
    pub closed spec fn key_seq(&self) -> Seq<Seq<char>> {
        self.entries@.map_values(|e: (String, V)| e.0@)
    }

    /// Keys are unique, and the entries are exactly the model's.
    pub closed spec fn wf(&self) -> bool {
        &&& forall|i: int, j: int|
            0 <= i < j < self.entries@.len() ==> self.entries@[i].0@ != self.entries@[j].0@
        &&& forall|i: int|
            0 <= i < self.entries@.len() ==> self.model@.contains_key(#[trigger] self.entries@[i].0@)
                && self.model@[self.entries@[i].0@] == self.entries@[i].1
        &&& forall|k: Seq<char>|
            #[trigger] self.model@.contains_key(k) ==> exists|i: int|
                0 <= i < self.entries@.len() && self.entries@[i].0@ == k
    }

    /// An empty table.
    pub fn new() -> (r: Self)
        ensures
            r.wf(),
            r@ == Map::<Seq<char>, V>::empty(),
    {
        NameTable { entries: Vec::new(), model: Ghost(Map::empty()) }
    }

    /// The number of entries.
    pub fn len(&self) -> (r: usize)
        requires
            self.wf(),
        ensures
            r == self@.len(),
    {
        proof {
            self.lemma_len();
        }
        self.entries.len()
    }

    proof fn lemma_len(&self)
        requires
            self.wf(),
        ensures
            self.entries@.len() == self@.len(),
            self@.dom().finite(),
            self.key_seq().no_duplicates(),
            self.key_seq().to_set() == self@.dom(),
        decreases self.entries@.len(),
    {
        let keys = self.key_seq();
        assert forall|i: int, j: int| 0 <= i < j < keys.len() implies keys[i] != keys[j] by {
            assert(self.entries@[i].0@ != self.entries@[j].0@);
        }
        assert(keys.no_duplicates());
        keys.unique_seq_to_set();
        assert(keys.to_set() =~= self@.dom()) by {
            assert forall|k: Seq<char>| keys.to_set().contains(k) implies self@.dom().contains(k) by {
                let i = choose|i: int| 0 <= i < keys.len() && keys[i] == k;
                assert(self.entries@[i].0@ == k);
            }
            assert forall|k: Seq<char>| self@.dom().contains(k) implies keys.to_set().contains(k) by {
                let i = choose|i: int| 0 <= i < self.entries@.len() && self.entries@[i].0@ == k;
                assert(keys[i] == k);
            }
        }
    }

    /// The index of `k`, if present.
    fn find(&self, k: &str) -> (r: Option<usize>)
        requires
            self.wf(),
        ensures
            r matches Some(i) ==> i < self.entries@.len() && self.entries@[i as int].0@ == k@,
            r.is_none() == !self@.contains_key(k@),
    {
        let mut i: usize = 0;
        while i < self.entries.len()
            invariant
                self.wf(),
                i <= self.entries@.len(),
                forall|j: int| 0 <= j < i ==> self.entries@[j].0@ != k@,
            decreases self.entries@.len() - i,
        {
            if str_equal(self.entries[i].0.as_str(), k) {
                assert(self@.contains_key(self.entries@[i as int].0@));
                return Some(i);
            }
            i = i + 1;
        }
        proof {
            if self@.contains_key(k@) {
                let j = choose|j: int| 0 <= j < self.entries@.len() && self.entries@[j].0@ == k@;
                assert(self.entries@[j].0@ != k@);
            }
        }
        None
    }

    /// Whether `k` is present.
    pub fn contains_key(&self, k: &str) -> (r: bool)
        requires
            self.wf(),
        ensures
            r == self@.contains_key(k@),
    {
        self.find(k).is_some()
    }

    /// The value stored under `k`, if any.
    pub fn get(&self, k: &str) -> (r: Option<&V>)
        requires
            self.wf(),
        ensures
            r.is_some() == self@.contains_key(k@),
            r matches Some(v) ==> *v == self@[k@],
    {
        match self.find(k) {
            Some(i) => Some(&self.entries[i].1),
            None => None,
        }
    }

    /// Stores `v` under `k`, replacing the value there, if any, in place.
    pub fn insert(&mut self, k: String, v: V)
        requires
            old(self).wf(),
        ensures
            final(self).wf(),
            final(self)@ == old(self)@.insert(k@, v),
    {
        let ghost kv = k@;
        match self.find(k.as_str()) {
            Some(i) => {
                let ghost old_entries = self.entries@;
                self.entries.set(i, (k, v));
                self.model = Ghost(self.model@.insert(kv, v));
                proof {
                    assert forall|k2: Seq<char>| #[trigger]
                        self.model@.contains_key(k2) implies exists|j: int|
                        0 <= j < self.entries@.len() && self.entries@[j].0@ == k2 by {
                        if k2 != kv {
                            let j = choose|j: int|
                                0 <= j < old_entries.len() && old_entries[j].0@ == k2;
                            assert(self.entries@[j].0@ == k2);
                        } else {
                            assert(self.entries@[i as int].0@ == k2);
                        }
                    }
                }
            },
            None => {
                let ghost old_entries = self.entries@;
                let ghost old_model = self.model@;
                self.entries.push((k, v));
                self.model = Ghost(self.model@.insert(kv, v));
                proof {
                    assert forall|k2: Seq<char>| #[trigger]
                        self.model@.contains_key(k2) implies exists|j: int|
                        0 <= j < self.entries@.len() && self.entries@[j].0@ == k2 by {
                        if k2 != kv {
                            let j = choose|j: int|
                                0 <= j < old_entries.len() && old_entries[j].0@ == k2;
                            assert(self.entries@[j].0@ == k2);
                        } else {
                            assert(self.entries@[old_entries.len() as int].0@ == k2);
                        }
                    }
                    assert forall|a: int, b: int|
                        0 <= a < b < self.entries@.len() implies self.entries@[a].0@
                        != self.entries@[b].0@ by {
                        if b == old_entries.len() {
                            assert(old_model.contains_key(old_entries[a].0@));
                        } else {
                            assert(old_entries[a].0@ != old_entries[b].0@);
                        }
                    }
                }
            },
        }
    }

    /// Takes out the value under `k`, if any.
    pub fn remove(&mut self, k: &str) -> (r: Option<V>)
        requires
            old(self).wf(),
        ensures
            final(self).wf(),
            final(self)@ == old(self)@.remove(k@),
            r.is_some() == old(self)@.contains_key(k@),
            r matches Some(v) ==> v == old(self)@[k@],
    {
        match self.find(k) {
            Some(i) => {
                let ghost old_entries = self.entries@;
                let e = self.entries.remove(i);
                self.model = Ghost(self.model@.remove(k@));
                proof {
                    assert forall|a: int|
                        0 <= a < self.entries@.len() implies self.model@.contains_key(
                        #[trigger] self.entries@[a].0@,
                    ) && self.model@[self.entries@[a].0@] == self.entries@[a].1 by {
                        if a < i {
                            assert(self.entries@[a] == old_entries[a]);
                        } else {
                            assert(self.entries@[a] == old_entries[a + 1]);
                        }
                    }
                    assert forall|k2: Seq<char>| #[trigger]
                        self.model@.contains_key(k2) implies exists|j: int|
                        0 <= j < self.entries@.len() && self.entries@[j].0@ == k2 by {
                        let j = choose|j: int|
                            0 <= j < old_entries.len() && old_entries[j].0@ == k2;
                        if j < i {
                            assert(self.entries@[j].0@ == k2);
                        } else {
                            assert(j != i);
                            assert(self.entries@[j - 1].0@ == k2);
                        }
                    }
                    assert forall|a: int, b: int|
                        0 <= a < b < self.entries@.len() implies self.entries@[a].0@
                        != self.entries@[b].0@ by {
                        let oa = if a < i { a } else { a + 1 };
                        let ob = if b < i { b } else { b + 1 };
                        assert(self.entries@[a] == old_entries[oa]);
                        assert(self.entries@[b] == old_entries[ob]);
                    }
                }
                Some(e.1)
            },
            None => {
                proof {
                    assert(self.model@.remove(k@) =~= self.model@);
                }
                None
            },
        }
    }

    /// The keys, in insertion order.
    pub fn keys(&self) -> (r: Vec<String>)
        requires
            self.wf(),
        ensures
            r@.map_values(|s: String| s@) == self.key_seq(),
    {
        let mut out: Vec<String> = Vec::new();
        let mut i: usize = 0;
        while i < self.entries.len()
            invariant
                i <= self.entries@.len(),
                out@.map_values(|s: String| s@) == self.key_seq().subrange(0, i as int),
            decreases self.entries@.len() - i,
        {
            let ghost prev = out@;
            let k = self.entries[i].0.clone();
            out.push(k);
            proof {
                assert(prev.push(k) == out@);
                assert(out@.map_values(|s: String| s@) =~= prev.map_values(|s: String| s@).push(
                    k@,
                ));
                assert(self.key_seq().subrange(0, i + 1 as int) =~= self.key_seq().subrange(
                    0,
                    i as int,
                ).push(self.entries@[i as int].0@));
            }
            i = i + 1;
        }
        proof {
            assert(self.key_seq().subrange(0, i as int) =~= self.key_seq());
        }
        out
    }

    /// The keys in insertion order are unique and are the model's domain.
    pub proof fn lemma_keys(&self)
        requires
            self.wf(),
        ensures
            self.key_seq().no_duplicates(),
            self.key_seq().to_set() == self@.dom(),
            self.key_seq().len() == self@.len(),
    {
        self.lemma_len();
    }
}

} // verus!
