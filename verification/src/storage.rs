//! A keyed store of values: the map-shaped storage items of the pallets.
//!
//! Entries are kept in insertion order in a `Vec`; the type invariant is that no
//! key occurs twice, and the store is seen as a `Map` from keys to values.
use vstd::prelude::*;

verus! {

/// A key of a storage map: a value that can be compared with another one.
pub trait StorageKey: Sized {
    fn key_eq(&self, other: &Self) -> (r: bool)
        ensures
            r == (*self == *other),
    ;
}

impl StorageKey for u64 {
    fn key_eq(&self, other: &Self) -> (r: bool) {
        *self == *other
    }
}

impl StorageKey for [u8; 16] {
    fn key_eq(&self, other: &Self) -> (r: bool) {
        bytes16_eq(self, other)
    }
}

impl StorageKey for (u64, [u8; 16]) {
    fn key_eq(&self, other: &Self) -> (r: bool) {
        self.0 == other.0 && bytes16_eq(&self.1, &other.1)
    }
}

/// Compares two 16-byte identifiers byte by byte.
pub fn bytes16_eq(a: &[u8; 16], b: &[u8; 16]) -> (r: bool)
    ensures
        r == (*a == *b),
{
    let mut i: usize = 0;
    while i < 16
        invariant
            i <= 16,
            forall|j: int| 0 <= j < i ==> a[j] == b[j],
        decreases 16 - i,
    {
        if a[i] != b[i] {
            return false;
        }
        i = i + 1;
    }
    assert(*a =~= *b);
    true
}

/// No key occurs at two positions of `s`.
pub open spec fn unique_keys<K, V>(s: Seq<(K, V)>) -> bool {
    forall|i: int, j: int|
        0 <= i < s.len() && 0 <= j < s.len() && i != j ==> #[trigger] s[i].0 != #[trigger] s[j].0
}

/// Some position of `s` holds the key `k`.
pub open spec fn has_key<K, V>(s: Seq<(K, V)>, k: K) -> bool {
    exists|i: int| 0 <= i < s.len() && #[trigger] s[i].0 == k
}

/// A position of `s` that holds the key `k`.
pub open spec fn key_index<K, V>(s: Seq<(K, V)>, k: K) -> int {
    choose|i: int| 0 <= i < s.len() && #[trigger] s[i].0 == k
}

/// The map that a sequence of entries stands for.
pub open spec fn entries_view<K, V>(s: Seq<(K, V)>) -> Map<K, V> {
    Map::new(|k: K| has_key(s, k), |k: K| s[key_index(s, k)].1)
}

proof fn lemma_entry_in_view<K, V>(s: Seq<(K, V)>, i: int)
    requires
        unique_keys(s),
        0 <= i < s.len(),
    ensures
        entries_view(s).contains_key(s[i].0),
        entries_view(s)[s[i].0] == s[i].1,
{
    assert(has_key(s, s[i].0));
    let j = key_index(s, s[i].0);
    assert(s[j].0 == s[i].0);
}

proof fn lemma_view_push<K, V>(s: Seq<(K, V)>, k: K, v: V)
    requires
        unique_keys(s),
        !has_key(s, k),
    ensures
        unique_keys(s.push((k, v))),
        entries_view(s.push((k, v))) == entries_view(s).insert(k, v),
{
    let t = s.push((k, v));
    assert forall|a: int, b: int|
        0 <= a < t.len() && 0 <= b < t.len() && a != b implies #[trigger] t[a].0 != #[trigger] t[b].0 by {
        if a < s.len() && b < s.len() {
            assert(t[a] == s[a] && t[b] == s[b]);
        } else if a < s.len() {
            assert(t[a] == s[a]);
        } else {
            assert(t[b] == s[b]);
        }
    }
    assert forall|x: K| #[trigger] entries_view(t).contains_key(x) == entries_view(s).insert(k, v).contains_key(x) by {
        if has_key(s, x) {
            let i = key_index(s, x);
            assert(t[i] == s[i]);
        }
        if has_key(t, x) {
            let i = key_index(t, x);
            if i < s.len() {
                assert(t[i] == s[i]);
            }
        }
        if x == k {
            assert(t[s.len() as int].0 == k);
        }
    }
    assert forall|x: K| #[trigger] entries_view(t).contains_key(x) implies entries_view(t)[x] == entries_view(s).insert(k, v)[x] by {
        if x == k {
            lemma_entry_in_view(t, s.len() as int);
        } else {
            let i = key_index(s, x);
            assert(t[i] == s[i]);
            lemma_entry_in_view(t, i);
            lemma_entry_in_view(s, i);
        }
    }
    assert(entries_view(t) =~= entries_view(s).insert(k, v));
}

proof fn lemma_view_update<K, V>(s: Seq<(K, V)>, i: int, v: V)
    requires
        unique_keys(s),
        0 <= i < s.len(),
    ensures
        unique_keys(s.update(i, (s[i].0, v))),
        entries_view(s.update(i, (s[i].0, v))) == entries_view(s).insert(s[i].0, v),
{
    let k = s[i].0;
    let t = s.update(i, (k, v));
    assert forall|a: int, b: int|
        0 <= a < t.len() && 0 <= b < t.len() && a != b implies #[trigger] t[a].0 != #[trigger] t[b].0 by {
        assert(t[a].0 == s[a].0 && t[b].0 == s[b].0);
    }
    assert forall|x: K| #[trigger] entries_view(t).contains_key(x) == entries_view(s).insert(k, v).contains_key(x) by {
        if has_key(s, x) {
            let j = key_index(s, x);
            assert(t[j].0 == s[j].0);
        }
        if has_key(t, x) {
            let j = key_index(t, x);
            assert(t[j].0 == s[j].0);
        }
    }
    assert forall|x: K| #[trigger] entries_view(t).contains_key(x) implies entries_view(t)[x] == entries_view(s).insert(k, v)[x] by {
        let j = key_index(t, x);
        assert(t[j].0 == s[j].0);
        lemma_entry_in_view(t, j);
        if j != i {
            assert(t[j] == s[j]);
            lemma_entry_in_view(s, j);
        }
    }
    assert(entries_view(t) =~= entries_view(s).insert(k, v));
}

proof fn lemma_view_remove<K, V>(s: Seq<(K, V)>, i: int)
    requires
        unique_keys(s),
        0 <= i < s.len(),
    ensures
        unique_keys(s.remove(i)),
        entries_view(s.remove(i)) == entries_view(s).remove(s[i].0),
{
    let k = s[i].0;
    let t = s.remove(i);
    assert forall|a: int| 0 <= a < t.len() implies #[trigger] t[a] == (if a < i { s[a] } else { s[a + 1] }) by {}
    assert forall|a: int, b: int|
        0 <= a < t.len() && 0 <= b < t.len() && a != b implies #[trigger] t[a].0 != #[trigger] t[b].0 by {
        let a1 = if a < i { a } else { a + 1 };
        let b1 = if b < i { b } else { b + 1 };
        assert(t[a] == s[a1] && t[b] == s[b1]);
    }
    assert forall|x: K| #[trigger] entries_view(t).contains_key(x) == entries_view(s).remove(k).contains_key(x) by {
        if has_key(s, x) {
            let j = key_index(s, x);
            if x != k {
                assert(j != i);
                let j1 = if j < i { j } else { j - 1 };
                assert(t[j1] == s[j]);
            }
        }
        if has_key(t, x) {
            let j = key_index(t, x);
            let j1 = if j < i { j } else { j + 1 };
            assert(t[j] == s[j1]);
            assert(j1 != i);
        }
    }
    assert forall|x: K| #[trigger] entries_view(t).contains_key(x) implies entries_view(t)[x] == entries_view(s).remove(k)[x] by {
        let j = key_index(t, x);
        let j1 = if j < i { j } else { j + 1 };
        assert(t[j] == s[j1]);
        lemma_entry_in_view(t, j);
        lemma_entry_in_view(s, j1);
    }
    assert(entries_view(t) =~= entries_view(s).remove(k));
}

/// A map from keys to values, as a storage item of a pallet holds one.
pub struct StorageMap<K, V> {
    entries: Vec<(K, V)>,
}

impl<K, V> View for StorageMap<K, V> {
    type V = Map<K, V>;

    closed spec fn view(&self) -> Map<K, V> {
        entries_view(self.entries@)
    }
}

impl<K, V> StorageMap<K, V> {
    #[verifier::type_invariant]
    closed spec fn inv(self) -> bool {
        unique_keys(self.entries@)
    }
}

impl<K: StorageKey, V> StorageMap<K, V> {
    /// An empty map.
    pub fn new() -> (m: Self)
        ensures
            m@ == Map::<K, V>::empty(),
    {
        let m = StorageMap { entries: Vec::new() };
        assert(m@ =~= Map::<K, V>::empty());
        m
    }

    fn find(&self, k: &K) -> (r: Option<usize>)
        ensures
            match r {
                Some(i) => i < self.entries@.len() && self.entries@[i as int].0 == *k,
                None => !has_key(self.entries@, *k),
            },
    {
        let mut i: usize = 0;
        while i < self.entries.len()
            invariant
                i <= self.entries@.len(),
                forall|j: int| 0 <= j < i ==> #[trigger] self.entries@[j].0 != *k,
            decreases self.entries@.len() - i,
        {
            if self.entries[i].0.key_eq(k) {
                return Some(i);
            }
            i = i + 1;
        }
        None
    }

    /// Whether `k` has a value.
    pub fn contains_key(&self, k: &K) -> (r: bool)
        ensures
            r == self@.contains_key(*k),
    {
        self.find(k).is_some()
    }

    /// The value of `k`, if it has one.
    pub fn get(&self, k: &K) -> (r: Option<&V>)
        ensures
            match r {
                Some(v) => self@.contains_key(*k) && *v == self@[*k],
                None => !self@.contains_key(*k),
            },
    {
        proof {
            use_type_invariant(self);
        }
        match self.find(k) {
            Some(i) => {
                proof {
                    lemma_entry_in_view(self.entries@, i as int);
                }
                Some(&self.entries[i].1)
            },
            None => None,
        }
    }

    /// Gives `k` the value `v`, replacing the value it had.
    pub fn insert(&mut self, k: K, v: V)
        ensures
            final(self)@ == old(self)@.insert(k, v),
    {
        proof {
            use_type_invariant(&*self);
        }
        match self.find(&k) {
            Some(i) => {
                proof {
                    lemma_view_update(self.entries@, i as int, v);
                }
                let mut entries = Vec::new();
                std::mem::swap(&mut entries, &mut self.entries);
                entries.set(i, (k, v));
                self.entries = entries;
            },
            None => {
                proof {
                    lemma_view_push(self.entries@, k, v);
                }
                let mut entries = Vec::new();
                std::mem::swap(&mut entries, &mut self.entries);
                entries.push((k, v));
                self.entries = entries;
            },
        }
    }

    /// Takes the value of `k` out of the map.
    pub fn remove(&mut self, k: &K) -> (r: Option<V>)
        ensures
            final(self)@ == old(self)@.remove(*k),
            match r {
                Some(v) => old(self)@.contains_key(*k) && v == old(self)@[*k],
                None => !old(self)@.contains_key(*k),
            },
    {
        proof {
            use_type_invariant(&*self);
        }
        match self.find(k) {
            Some(i) => {
                proof {
                    lemma_view_remove(self.entries@, i as int);
                    lemma_entry_in_view(self.entries@, i as int);
                }
                let mut entries = Vec::new();
                std::mem::swap(&mut entries, &mut self.entries);
                let (_, v) = entries.remove(i);
                self.entries = entries;
                Some(v)
            },
            None => {
                assert(self@ =~= self@.remove(*k));
                None
            },
        }
    }
}

/// The lists that a map of vectors holds.
pub open spec fn lists<K, T>(m: Map<K, Vec<T>>) -> Map<K, Seq<T>> {
    m.map_values(|v: Vec<T>| v@)
}

pub proof fn lemma_lists_insert<K, T>(m: Map<K, Vec<T>>, k: K, v: Vec<T>)
    ensures
        lists(m.insert(k, v)) == lists(m).insert(k, v@),
{
    assert(lists(m.insert(k, v)) =~= lists(m).insert(k, v@));
}

pub proof fn lemma_lists_remove<K, T>(m: Map<K, Vec<T>>, k: K)
    ensures
        lists(m.remove(k)) == lists(m).remove(k),
{
    assert(lists(m.remove(k)) =~= lists(m).remove(k));
}

/// Taking a key out and giving it a value is giving it that value.
pub proof fn lemma_remove_insert<K, V>(m: Map<K, V>, k: K, v: V)
    ensures
        m.remove(k).insert(k, v) == m.insert(k, v),
{
    assert(m.remove(k).insert(k, v) =~= m.insert(k, v));
}

} // verus!
