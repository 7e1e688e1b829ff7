//! A keyed store of contract storage entries (one value per key), as kept by
//! storage mappers indexed by an address, a game id or a resource type.

use vstd::prelude::*;
use crate::bytes::{bytes_eq, copy_bytes};

verus! {

/// Keys that can be compared for equality of their views.
pub trait StoreKey: View + Sized {
    fn same_key(&self, other: &Self) -> (r: bool)
        ensures
            r == (self@ == other@),
    ;

    fn copy_key(&self) -> (r: Self)
        ensures
            r@ == self@,
    ;
}

impl StoreKey for u64 {
    fn same_key(&self, other: &Self) -> (r: bool) {
        *self == *other
    }

    fn copy_key(&self) -> (r: Self) {
        *self
    }
}

impl StoreKey for Vec<u8> {
    fn same_key(&self, other: &Self) -> (r: bool) {
        bytes_eq(self, other)
    }

    fn copy_key(&self) -> (r: Self) {
        copy_bytes(self)
    }
}

impl StoreKey for (Vec<u8>, Vec<u8>) {
    fn same_key(&self, other: &Self) -> (r: bool) {
        bytes_eq(&self.0, &other.0) && bytes_eq(&self.1, &other.1)
    }

    fn copy_key(&self) -> (r: Self) {
        (copy_bytes(&self.0), copy_bytes(&self.1))
    }
}

/// A finite map from keys to values, kept as a list of entries whose keys are
/// pairwise distinct.
pub struct Store<K: StoreKey, V: View> {
    entries: Vec<(K, V)>,
}

impl<K: StoreKey, V: View> Store<K, V> {
    #[verifier::type_invariant]
    closed spec fn keys_distinct(self) -> bool {
        forall|i: int, j: int|
            0 <= i < self.entries.len() && 0 <= j < self.entries.len() && i != j
                ==> #[trigger] self.entries[i].0@ != #[trigger] self.entries[j].0@
    }

    closed spec fn has_at(entries: Seq<(K, V)>, k: K::V, i: int) -> bool {
        0 <= i < entries.len() && entries[i].0@ == k
    }

    closed spec fn map_of(entries: Seq<(K, V)>) -> Map<K::V, V::V> {
        Map::new(
            |k: K::V| exists|i: int| Self::has_at(entries, k, i),
            |k: K::V| entries[choose|i: int| Self::has_at(entries, k, i)].1@,
        )
    }

    proof fn lemma_lookup(entries: Seq<(K, V)>, i: int)
        requires
            0 <= i < entries.len(),
            forall|a: int, b: int|
                0 <= a < entries.len() && 0 <= b < entries.len() && a != b
                    ==> #[trigger] entries[a].0@ != #[trigger] entries[b].0@,
        ensures
            Self::map_of(entries).contains_key(entries[i].0@),
            Self::map_of(entries)[entries[i].0@] == entries[i].1@,
    {
        let k = entries[i].0@;
        assert(Self::has_at(entries, k, i));
        let j = choose|j: int| Self::has_at(entries, k, j);
        assert(Self::has_at(entries, k, j));
        if j != i {
            assert(entries[i].0@ != entries[j].0@);
        }
    }

    proof fn lemma_absent(entries: Seq<(K, V)>, k: K::V)
        requires
            forall|i: int| 0 <= i < entries.len() ==> (#[trigger] entries[i]).0@ != k,
        ensures
            !Self::map_of(entries).contains_key(k),
    {
        if exists|i: int| Self::has_at(entries, k, i) {
            let i = choose|i: int| Self::has_at(entries, k, i);
            assert(entries[i].0@ != k);
        }
    }

    /// Whether the key of every entry is one of `entries`'s keys and the value
    /// the one stored there: the view determined entry by entry.
    proof fn lemma_view_eq(e1: Seq<(K, V)>, m: Map<K::V, V::V>)
        requires
            forall|a: int, b: int|
                0 <= a < e1.len() && 0 <= b < e1.len() && a != b
                    ==> #[trigger] e1[a].0@ != #[trigger] e1[b].0@,
            forall|i: int| 0 <= i < e1.len() ==> m.contains_key((#[trigger] e1[i]).0@)
                && m[e1[i].0@] == e1[i].1@,
            forall|k: K::V| m.contains_key(k) ==> exists|i: int| Self::has_at(e1, k, i),
        ensures
            Self::map_of(e1) == m,
    {
        assert forall|k: K::V| #[trigger] Self::map_of(e1).contains_key(k) <==> m.contains_key(k) by {
            if m.contains_key(k) {
                let i = choose|i: int| Self::has_at(e1, k, i);
                Self::lemma_lookup(e1, i);
            }
            if Self::map_of(e1).contains_key(k) {
                let i = choose|i: int| Self::has_at(e1, k, i);
                assert(m.contains_key(e1[i].0@));
            }
        }
        assert forall|k: K::V| #[trigger] Self::map_of(e1).contains_key(k) implies Self::map_of(
            e1,
        )[k] == m[k] by {
            let i = choose|i: int| Self::has_at(e1, k, i);
            Self::lemma_lookup(e1, i);
        }
        assert(Self::map_of(e1) =~= m);
    }
}

impl<K: StoreKey, V: View> View for Store<K, V> {
    type V = Map<K::V, V::V>;

    closed spec fn view(&self) -> Map<K::V, V::V> {
        Self::map_of(self.entries@)
    }
}

impl<K: StoreKey, V: View> Store<K, V> {
    /// An empty store.
    pub fn new() -> (s: Self)
        ensures
            s@ == Map::<K::V, V::V>::empty(),
    {
        let s = Store { entries: Vec::new() };
        proof {
            assert forall|k: K::V| !#[trigger] Self::map_of(s.entries@).contains_key(k) by {
                Self::lemma_absent(s.entries@, k);
            }
            assert(s@ =~= Map::<K::V, V::V>::empty());
        }
        s
    }

    fn find(&self, k: &K) -> (r: Option<usize>)
        ensures
            match r {
                Some(i) => i < self.entries@.len() && self.entries@[i as int].0@ == k@,
                None => forall|i: int|
                    0 <= i < self.entries@.len() ==> (#[trigger] self.entries@[i]).0@ != k@,
            },
    {
        let n = self.entries.len();
        let mut i: usize = 0;
        while i < n
            invariant
                n == self.entries@.len(),
                i <= n,
                forall|j: int| 0 <= j < i ==> (#[trigger] self.entries@[j]).0@ != k@,
            decreases n - i,
        {
            if self.entries[i].0.same_key(k) {
                return Some(i);
            }
            i = i + 1;
        }
        None
    }

    /// Whether `k` has a value.
    pub fn contains(&self, k: &K) -> (r: bool)
        ensures
            r == self@.contains_key(k@),
    {
        proof {
            use_type_invariant(self);
        }
        match self.find(k) {
            Some(i) => {
                proof {
                    Self::lemma_lookup(self.entries@, i as int);
                }
                true
            },
            None => {
                proof {
                    Self::lemma_absent(self.entries@, k@);
                }
                false
            },
        }
    }

    /// The value stored under `k`, if any.
    pub fn get(&self, k: &K) -> (r: Option<&V>)
        ensures
            match r {
                Some(v) => self@.contains_key(k@) && v@ == self@[k@],
                None => !self@.contains_key(k@),
            },
    {
        proof {
            use_type_invariant(self);
        }
        match self.find(k) {
            Some(i) => {
                proof {
                    Self::lemma_lookup(self.entries@, i as int);
                }
                Some(&self.entries[i].1)
            },
            None => {
                proof {
                    Self::lemma_absent(self.entries@, k@);
                }
                None
            },
        }
    }

    /// Stores `v` under `k`, replacing any earlier value.
    pub fn insert(&mut self, k: K, v: V)
        ensures
            final(self)@ == old(self)@.insert(k@, v@),
    {
        proof {
            use_type_invariant(&*self);
        }
        let ghost old_view = self@;
        let ghost old_entries = self.entries@;
        let found = self.find(&k);
        let mut entries: Vec<(K, V)> = Vec::new();
        std::mem::swap(&mut entries, &mut self.entries);
        let ghost kv = k@;
        let ghost vv = v@;
        match found {
            Some(i) => {
                entries.set(i, (k, v));
                proof {
                    let ne = entries@;
                    assert(ne == old_entries.update(i as int, ne[i as int]));
                    let m = old_view.insert(kv, vv);
                    assert forall|a: int, b: int|
                        0 <= a < ne.len() && 0 <= b < ne.len() && a != b
                            implies #[trigger] ne[a].0@ != #[trigger] ne[b].0@ by {
                        if a != i && b != i {
                            assert(old_entries[a].0@ != old_entries[b].0@);
                        } else if a == i {
                            assert(old_entries[a].0@ != old_entries[b].0@);
                        } else {
                            assert(old_entries[a].0@ != old_entries[b].0@);
                        }
                    }
                    assert forall|j: int| 0 <= j < ne.len() implies m.contains_key(
                        (#[trigger] ne[j]).0@,
                    ) && m[ne[j].0@] == ne[j].1@ by {
                        if j != i {
                            Self::lemma_lookup(old_entries, j);
                            assert(old_entries[j].0@ != old_entries[i as int].0@);
                        }
                    }
                    assert forall|kk: K::V| m.contains_key(kk) implies exists|j: int|
                        Self::has_at(ne, kk, j) by {
                        if kk == kv {
                            assert(Self::has_at(ne, kk, i as int));
                        } else {
                            let j = choose|j: int| Self::has_at(old_entries, kk, j);
                            assert(Self::has_at(ne, kk, j));
                        }
                    }
                    Self::lemma_view_eq(ne, m);
                }
            },
            None => {
                entries.push((k, v));
                proof {
                    let ne = entries@;
                    let n = old_entries.len() as int;
                    let m = old_view.insert(kv, vv);
                    assert forall|a: int, b: int|
                        0 <= a < ne.len() && 0 <= b < ne.len() && a != b
                            implies #[trigger] ne[a].0@ != #[trigger] ne[b].0@ by {
                        if a < n && b < n {
                            assert(old_entries[a].0@ != old_entries[b].0@);
                        } else if a < n {
                            assert(old_entries[a].0@ != kv);
                        } else {
                            assert(old_entries[b].0@ != kv);
                        }
                    }
                    assert forall|j: int| 0 <= j < ne.len() implies m.contains_key(
                        (#[trigger] ne[j]).0@,
                    ) && m[ne[j].0@] == ne[j].1@ by {
                        if j < n {
                            Self::lemma_lookup(old_entries, j);
                            assert(old_entries[j].0@ != kv);
                        }
                    }
                    assert forall|kk: K::V| m.contains_key(kk) implies exists|j: int|
                        Self::has_at(ne, kk, j) by {
                        if kk == kv {
                            assert(Self::has_at(ne, kk, n));
                        } else {
                            let j = choose|j: int| Self::has_at(old_entries, kk, j);
                            assert(Self::has_at(ne, kk, j));
                        }
                    }
                    Self::lemma_view_eq(ne, m);
                }
            },
        }
        self.entries = entries;
    }

    /// Removes the value stored under `k` and hands it back, if there was one.
    pub fn remove(&mut self, k: &K) -> (r: Option<V>)
        ensures
            final(self)@ == old(self)@.remove(k@),
            match r {
                Some(v) => old(self)@.contains_key(k@) && v@ == old(self)@[k@],
                None => !old(self)@.contains_key(k@),
            },
    {
        proof {
            use_type_invariant(&*self);
        }
        let ghost old_view = self@;
        let ghost old_entries = self.entries@;
        let found = self.find(k);
        match found {
            Some(i) => {
                let mut entries: Vec<(K, V)> = Vec::new();
                std::mem::swap(&mut entries, &mut self.entries);
                let (_, v) = entries.remove(i);
                proof {
                    Self::lemma_lookup(old_entries, i as int);
                    let ne = entries@;
                    let ii = i as int;
                    let m = old_view.remove(k@);
                    assert(ne == old_entries.remove(ii));
                    assert forall|a: int, b: int|
                        0 <= a < ne.len() && 0 <= b < ne.len() && a != b
                            implies #[trigger] ne[a].0@ != #[trigger] ne[b].0@ by {
                        let oa = if a < ii { a } else { a + 1 };
                        let ob = if b < ii { b } else { b + 1 };
                        assert(ne[a] == old_entries[oa]);
                        assert(ne[b] == old_entries[ob]);
                        assert(old_entries[oa].0@ != old_entries[ob].0@);
                    }
                    assert forall|j: int| 0 <= j < ne.len() implies m.contains_key(
                        (#[trigger] ne[j]).0@,
                    ) && m[ne[j].0@] == ne[j].1@ by {
                        let oj = if j < ii { j } else { j + 1 };
                        assert(ne[j] == old_entries[oj]);
                        Self::lemma_lookup(old_entries, oj);
                        assert(old_entries[oj].0@ != old_entries[ii].0@);
                    }
                    assert forall|kk: K::V| m.contains_key(kk) implies exists|j: int|
                        Self::has_at(ne, kk, j) by {
                        let oj = choose|j: int| Self::has_at(old_entries, kk, j);
                        assert(oj != ii);
                        let j = if oj < ii { oj } else { oj - 1 };
                        assert(ne[j] == old_entries[oj]);
                        assert(Self::has_at(ne, kk, j));
                    }
                    Self::lemma_view_eq(ne, m);
                }
                self.entries = entries;
                Some(v)
            },
            None => {
                proof {
                    Self::lemma_absent(old_entries, k@);
                    assert(old_view.remove(k@) =~= old_view);
                }
                None
            },
        }
    }

    /// Number of keys with a value.
    pub fn len(&self) -> (r: usize)
        ensures
            r == self@.dom().len(),
            self@.dom().finite(),
    {
        proof {
            use_type_invariant(self);
            Self::lemma_len(self.entries@);
        }
        self.entries.len()
    }

    /// The keys that have a value, each once.
    pub fn keys(&self) -> (r: Vec<K>)
        ensures
            r@.len() == self@.dom().len(),
            forall|i: int| 0 <= i < r@.len() ==> self@.contains_key(#[trigger] r@[i]@),
            forall|k: K::V| self@.contains_key(k) ==> exists|i: int| 0 <= i < r@.len() && r@[i]@ == k,
            forall|i: int, j: int| 0 <= i < r@.len() && 0 <= j < r@.len() && i != j ==> #[trigger] r@[i]@ != #[trigger] r@[j]@,
    {
        proof {
            use_type_invariant(self);
            Self::lemma_len(self.entries@);
        }
        let n = self.entries.len();
        let mut r: Vec<K> = Vec::new();
        let mut i: usize = 0;
        while i < n
            invariant
                n == self.entries@.len(),
                i <= n,
                r@.len() == i,
                forall|j: int| 0 <= j < i ==> (#[trigger] r@[j])@ == self.entries@[j].0@,
            decreases n - i,
        {
            r.push(self.entries[i].0.copy_key());
            i = i + 1;
        }
        proof {
            assert forall|j: int| 0 <= j < r@.len() implies self@.contains_key(#[trigger] r@[j]@) by {
                Self::lemma_lookup(self.entries@, j);
            }
            assert forall|k: K::V| self@.contains_key(k) implies exists|j: int| 0 <= j < r@.len() && r@[j]@ == k by {
                let j = choose|j: int| Self::has_at(self.entries@, k, j);
                assert(r@[j]@ == k);
            }
            assert forall|a: int, b: int| 0 <= a < r@.len() && 0 <= b < r@.len() && a != b implies #[trigger] r@[a]@ != #[trigger] r@[b]@ by {
                assert(self.entries@[a].0@ != self.entries@[b].0@);
            }
        }
        r
    }

    proof fn lemma_len(entries: Seq<(K, V)>)
        requires
            forall|a: int, b: int|
                0 <= a < entries.len() && 0 <= b < entries.len() && a != b
                    ==> #[trigger] entries[a].0@ != #[trigger] entries[b].0@,
        ensures
            Self::map_of(entries).dom().finite(),
            Self::map_of(entries).dom().len() == entries.len(),
        decreases entries.len(),
    {
        if entries.len() == 0 {
            assert forall|k: K::V| !#[trigger] Self::map_of(entries).contains_key(k) by {
                Self::lemma_absent(entries, k);
            }
            assert(Self::map_of(entries).dom() =~= Set::empty());
        } else {
            let init = entries.drop_last();
            let last = entries.last();
            Self::lemma_len(init);
            assert forall|k: K::V| #[trigger] Self::map_of(entries).dom().contains(k) <==> Self::map_of(
                init,
            ).dom().insert(last.0@).contains(k) by {
                if Self::map_of(entries).dom().contains(k) {
                    let i = choose|i: int| Self::has_at(entries, k, i);
                    if i < init.len() {
                        assert(Self::has_at(init, k, i));
                    }
                }
                if Self::map_of(init).dom().contains(k) {
                    let i = choose|i: int| Self::has_at(init, k, i);
                    assert(Self::has_at(entries, k, i));
                }
                if k == last.0@ {
                    assert(Self::has_at(entries, k, entries.len() - 1));
                }
            }
            assert(Self::map_of(entries).dom() =~= Self::map_of(init).dom().insert(last.0@));
            assert(!Self::map_of(init).dom().contains(last.0@)) by {
                if Self::map_of(init).dom().contains(last.0@) {
                    let i = choose|i: int| Self::has_at(init, last.0@, i);
                    assert(entries[i].0@ == entries[entries.len() - 1].0@);
                }
            }
        }
    }
}

/// Byte strings kept in the order they were first added, each once (as an
/// unordered set mapper keeps entries that are never removed).
pub struct OrderedSet {
    items: Vec<Vec<u8>>,
}

impl View for OrderedSet {
    type V = Seq<Seq<u8>>;

    closed spec fn view(&self) -> Seq<Seq<u8>> {
        self.items@.map_values(|v: Vec<u8>| v@)
    }
}

impl OrderedSet {
    #[verifier::type_invariant]
    closed spec fn items_distinct(self) -> bool {
        forall|i: int, j: int| 0 <= i < j < self.items@.len() ==> #[trigger] self.items@[i]@ != #[trigger] self.items@[j]@
    }

    /// An empty set.
    pub fn new() -> (r: Self)
        ensures
            r@ == Seq::<Seq<u8>>::empty(),
    {
        let r = OrderedSet { items: Vec::new() };
        proof {
            assert(r@ =~= Seq::<Seq<u8>>::empty());
        }
        r
    }

    /// Whether `v` is in the set.
    pub fn contains(&self, v: &Vec<u8>) -> (r: bool)
        ensures
            r == self@.contains(v@),
    {
        let n = self.items.len();
        let mut i: usize = 0;
        while i < n
            invariant
                n == self.items@.len(),
                i <= n,
                forall|j: int| 0 <= j < i ==> self@[j] != v@,
            decreases n - i,
        {
            if bytes_eq(&self.items[i], v) {
                assert(self@[i as int] == v@);
                return true;
            }
            i = i + 1;
        }
        false
    }

    /// Adds `v` at the end, unless it is already in the set.
    pub fn insert(&mut self, v: &Vec<u8>)
        ensures
            final(self)@ == if old(self)@.contains(v@) { old(self)@ } else { old(self)@.push(v@) },
            final(self)@.no_duplicates(),
    {
        proof {
            use_type_invariant(&*self);
        }
        if !self.contains(v) {
            let ghost before = self.items@;
            let mut items = Vec::new();
            std::mem::swap(&mut items, &mut self.items);
            items.push(copy_bytes(v));
            proof {
                assert(items@.map_values(|x: Vec<u8>| x@) =~= before.map_values(|x: Vec<u8>| x@).push(v@));
                assert forall|i: int, j: int| 0 <= i < j < items@.len() implies #[trigger] items@[i]@ != #[trigger] items@[j]@ by {
                    if j == items@.len() - 1 {
                        assert(before.map_values(|x: Vec<u8>| x@)[i] == items@[i]@);
                    }
                }
            }
            self.items = items;
        }
        proof {
            use_type_invariant(&*self);
            assert forall|i: int, j: int| 0 <= i < self@.len() && 0 <= j < self@.len() && i != j implies self@[i] != self@[j] by {
                if i < j {
                    assert(self.items@[i]@ != self.items@[j]@);
                } else {
                    assert(self.items@[j]@ != self.items@[i]@);
                }
            }
        }
    }

    /// The items, in order.
    pub fn items(&self) -> (r: Vec<Vec<u8>>)
        ensures
            r@.map_values(|v: Vec<u8>| v@) == self@,
    {
        let n = self.items.len();
        let mut r: Vec<Vec<u8>> = Vec::new();
        let mut i: usize = 0;
        while i < n
            invariant
                n == self.items@.len(),
                i <= n,
                r@.len() == i,
                r@.map_values(|v: Vec<u8>| v@) == self@.take(i as int),
            decreases n - i,
        {
            r.push(copy_bytes(&self.items[i]));
            i = i + 1;
            assert(r@.map_values(|v: Vec<u8>| v@) =~= self@.take(i as int));
        }
        assert(self@.take(n as int) =~= self@);
        r
    }
}

} // verus!
