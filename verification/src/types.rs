//! Account keys and the keyed tables the contracts keep per account.
use vstd::prelude::*;

verus! {

/// A 32-byte account key.
#[derive(Clone, Copy, Debug)]
pub struct Pubkey {
    pub bytes: [u8; 32],
}

impl View for Pubkey {
    type V = Seq<u8>;

    open spec fn view(&self) -> Seq<u8> {
        self.bytes@
    }
}

impl Pubkey {
    /// The key with the given bytes.
    pub fn new(bytes: [u8; 32]) -> (r: Self)
        ensures
            r@ == bytes@,
    {
        Pubkey { bytes }
    }

    /// The all-zero key.
    pub fn zero() -> (r: Self)
        ensures
            r@ == Seq::new(32, |i: int| 0u8),
    {
        let r = Pubkey { bytes: [0u8; 32] };
        assert(r@ =~= Seq::new(32, |i: int| 0u8));
        r
    }

    /// Whether the two keys have the same bytes.
    pub fn same(&self, other: &Pubkey) -> (r: bool)
        ensures
            r == (self@ == other@),
    {
        let mut i: usize = 0;
        while i < 32
            invariant
                i <= 32,
                self@.len() == 32,
                other@.len() == 32,
                forall|j: int| 0 <= j < i ==> self@[j] == other@[j],
            decreases 32 - i,
        {
            if self.bytes[i] != other.bytes[i] {
                return false;
            }
            i = i + 1;
        }
        assert(self@ =~= other@);
        true
    }
}

/// A key of a [`Table`]: keys are told apart by their view.
pub trait TableKey: Sized {
    type KeyView;

    spec fn key_view(&self) -> Self::KeyView;

    /// Whether the two keys have the same view.
    fn same_key(&self, other: &Self) -> (r: bool)
        ensures
            r == (self.key_view() == other.key_view()),
    ;
}

impl TableKey for Pubkey {
    type KeyView = Seq<u8>;

    open spec fn key_view(&self) -> Seq<u8> {
        self@
    }

    fn same_key(&self, other: &Self) -> (r: bool) {
        self.same(other)
    }
}

impl TableKey for String {
    type KeyView = Seq<char>;

    open spec fn key_view(&self) -> Seq<char> {
        self@
    }

    fn same_key(&self, other: &Self) -> (r: bool) {
        *self == *other
    }
}

impl TableKey for u32 {
    type KeyView = u32;

    open spec fn key_view(&self) -> u32 {
        *self
    }

    fn same_key(&self, other: &Self) -> (r: bool) {
        *self == *other
    }
}

impl TableKey for (String, u32) {
    type KeyView = (Seq<char>, u32);

    open spec fn key_view(&self) -> (Seq<char>, u32) {
        (self.0@, self.1)
    }

    fn same_key(&self, other: &Self) -> (r: bool) {
        self.1 == other.1 && self.0 == other.0
    }
}

impl TableKey for (u16, u16) {
    type KeyView = (u16, u16);

    open spec fn key_view(&self) -> (u16, u16) {
        *self
    }

    fn same_key(&self, other: &Self) -> (r: bool) {
        self.0 == other.0 && self.1 == other.1
    }
}

impl TableKey for (Pubkey, u32) {
    type KeyView = (Seq<u8>, u32);

    open spec fn key_view(&self) -> (Seq<u8>, u32) {
        (self.0@, self.1)
    }

    fn same_key(&self, other: &Self) -> (r: bool) {
        self.1 == other.1 && self.0.same(&other.0)
    }
}

impl TableKey for (Pubkey, Pubkey) {
    type KeyView = (Seq<u8>, Seq<u8>);

    open spec fn key_view(&self) -> (Seq<u8>, Seq<u8>) {
        (self.0@, self.1@)
    }

    fn same_key(&self, other: &Self) -> (r: bool) {
        self.0.same(&other.0) && self.1.same(&other.1)
    }
}

impl TableKey for u64 {
    type KeyView = u64;

    open spec fn key_view(&self) -> u64 {
        *self
    }

    fn same_key(&self, other: &Self) -> (r: bool) {
        *self == *other
    }
}

/// One row of a [`Table`].
pub struct KeyedEntry<K, V> {
    pub key: K,
    pub value: V,
}

/// A table from keys to values, in insertion order.
pub struct Table<K, V> {
    entries: Vec<KeyedEntry<K, V>>,
}

/// A table keyed by account.
pub type PubkeyMap<V> = Table<Pubkey, V>;

/// No two rows have the same key.
pub open spec fn keys_distinct<K: TableKey, V>(s: Seq<KeyedEntry<K, V>>) -> bool {
    forall|i: int, j: int|
        0 <= i < s.len() && 0 <= j < s.len() && i != j ==> #[trigger] s[i].key.key_view() != #[trigger] s[j].key.key_view()
}

/// The row index of `k`.
pub open spec fn index_of<K: TableKey, V>(s: Seq<KeyedEntry<K, V>>, k: K::KeyView) -> int {
    choose|i: int| 0 <= i < s.len() && #[trigger] s[i].key.key_view() == k
}

/// The map that the rows describe.
pub open spec fn rows_map<K: TableKey, V>(s: Seq<KeyedEntry<K, V>>) -> Map<K::KeyView, V> {
    Map::new(
        |k: K::KeyView| exists|i: int| 0 <= i < s.len() && #[trigger] s[i].key.key_view() == k,
        |k: K::KeyView| s[index_of(s, k)].value,
    )
}

impl<K: TableKey, V> Table<K, V> {
    pub closed spec fn well_formed(&self) -> bool {
        keys_distinct(self.entries@)
    }

    /// The keys in insertion order.
    pub closed spec fn key_seq(&self) -> Seq<K::KeyView> {
        self.entries@.map_values(|e: KeyedEntry<K, V>| e.key.key_view())
    }

    pub closed spec fn view(&self) -> Map<K::KeyView, V> {
        rows_map(self.entries@)
    }

    pub fn new() -> (r: Self)
        ensures
            r.well_formed(),
            r.view() == Map::<K::KeyView, V>::empty(),
            r.key_seq() == Seq::<K::KeyView>::empty(),
    {
        let r = Table { entries: Vec::new() };
        assert(r.view() =~= Map::<K::KeyView, V>::empty());
        assert(r.key_seq() =~= Seq::<K::KeyView>::empty());
        r
    }

    /// The number of keys.
    pub fn len(&self) -> (r: usize)
        requires
            self.well_formed(),
        ensures
            r == self.key_seq().len(),
            r == self.view().dom().len(),
    {
        proof {
            self.lemma_dom_len();
        }
        self.entries.len()
    }

    proof fn lemma_dom_len(&self)
        requires
            self.well_formed(),
        ensures
            self.view().dom().len() == self.entries@.len(),
            self.view().dom().finite(),
            self.key_seq().len() == self.entries@.len(),
    {
        let ks = self.key_seq();
        assert(ks.no_duplicates()) by {
            assert forall|i: int, j: int| 0 <= i < ks.len() && 0 <= j < ks.len() && i != j implies ks[i] != ks[j] by {
                assert(ks[i] == self.entries@[i].key.key_view());
                assert(ks[j] == self.entries@[j].key.key_view());
            }
        }
        assert(self.view().dom() =~= ks.to_set()) by {
            assert forall|k: K::KeyView| self.view().dom().contains(k) implies ks.to_set().contains(k) by {
                let i = choose|i: int| 0 <= i < self.entries@.len() && #[trigger] self.entries@[i].key.key_view() == k;
                assert(ks[i] == k);
            }
            assert forall|k: K::KeyView| ks.to_set().contains(k) implies self.view().dom().contains(k) by {
                let i = choose|i: int| 0 <= i < ks.len() && ks[i] == k;
                assert(self.entries@[i].key.key_view() == k);
            }
        }
        ks.unique_seq_to_set();
    }

    /// The row of `k`, if it has one.
    fn find(&self, k: &K) -> (r: Option<usize>)
        requires
            self.well_formed(),
        ensures
            match r {
                Some(i) => i < self.entries@.len() && self.entries@[i as int].key.key_view() == k.key_view()
                    && index_of(self.entries@, k.key_view()) == i,
                None => !self.view().dom().contains(k.key_view()),
            },
    {
        let mut i: usize = 0;
        while i < self.entries.len()
            invariant
                i <= self.entries@.len(),
                self.well_formed(),
                forall|j: int| 0 <= j < i ==> #[trigger] self.entries@[j].key.key_view() != k.key_view(),
            decreases self.entries@.len() - i,
        {
            if self.entries[i].key.same_key(k) {
                proof {
                    assert(self.entries@[i as int].key.key_view() == k.key_view());
                    let j = index_of(self.entries@, k.key_view());
                    assert(self.entries@[j].key.key_view() == k.key_view());
                }
                return Some(i);
            }
            i = i + 1;
        }
        None
    }

    /// The value of `k`, if it has one.
    pub fn get(&self, k: &K) -> (r: Option<&V>)
        requires
            self.well_formed(),
        ensures
            match r {
                Some(v) => self.view().dom().contains(k.key_view()) && *v == self.view()[k.key_view()],
                None => !self.view().dom().contains(k.key_view()),
            },
    {
        match self.find(k) {
            Some(i) => Some(&self.entries[i].value),
            None => None,
        }
    }

    /// Whether `k` has a value.
    pub fn contains_key(&self, k: &K) -> (r: bool)
        requires
            self.well_formed(),
        ensures
            r == self.view().dom().contains(k.key_view()),
    {
        self.find(k).is_some()
    }

    /// Gives `k` the value `v`, in place of any value it had.
    pub fn insert(&mut self, k: K, v: V)
        requires
            old(self).well_formed(),
        ensures
            final(self).well_formed(),
            final(self).view() == old(self).view().insert(k.key_view(), v),
            old(self).view().dom().contains(k.key_view()) ==> final(self).key_seq() == old(self).key_seq(),
            !old(self).view().dom().contains(k.key_view()) ==> final(self).key_seq() == old(self).key_seq().push(k.key_view()),
    {
        let ghost kv = k.key_view();
        match self.find(&k) {
            Some(i) => {
                let ghost before = self.entries@;
                self.entries.set(i, KeyedEntry { key: k, value: v });
                proof {
                    let after = self.entries@;
                    assert(keys_distinct(after)) by {
                        assert forall|a: int, b: int|
                            0 <= a < after.len() && 0 <= b < after.len() && a != b implies #[trigger] after[a].key.key_view()
                            != #[trigger] after[b].key.key_view() by {
                            assert(after[a].key.key_view() == before[a].key.key_view());
                            assert(after[b].key.key_view() == before[b].key.key_view());
                        }
                    }
                    assert forall|k2: K::KeyView| rows_map(after).dom().contains(k2) == rows_map(before).insert(kv, v).dom().contains(k2) by {
                        if rows_map(before).dom().contains(k2) {
                            let j = choose|j: int| 0 <= j < before.len() && #[trigger] before[j].key.key_view() == k2;
                            assert(after[j].key.key_view() == k2);
                        }
                        if rows_map(after).dom().contains(k2) {
                            let j = choose|j: int| 0 <= j < after.len() && #[trigger] after[j].key.key_view() == k2;
                            assert(before[j].key.key_view() == k2);
                        }
                    }
                    assert forall|k2: K::KeyView| rows_map(after).dom().contains(k2) implies rows_map(after)[k2] == rows_map(before).insert(kv, v)[k2] by {
                        let ja = index_of(after, k2);
                        if k2 == kv {
                            assert(after[i as int].key.key_view() == kv);
                        } else {
                            let jb = index_of(before, k2);
                            assert(after[jb].key.key_view() == k2);
                            assert(before[ja].key.key_view() == k2);
                        }
                    }
                    assert(rows_map(after) =~= rows_map(before).insert(kv, v));
                    assert(self.key_seq() =~= old(self).key_seq());
                }
            },
            None => {
                let ghost before = self.entries@;
                self.entries.push(KeyedEntry { key: k, value: v });
                proof {
                    let after = self.entries@;
                    assert(keys_distinct(after)) by {
                        assert forall|a: int, b: int|
                            0 <= a < after.len() && 0 <= b < after.len() && a != b implies #[trigger] after[a].key.key_view()
                            != #[trigger] after[b].key.key_view() by {
                            if a < before.len() && b < before.len() {
                                assert(after[a] == before[a]);
                                assert(after[b] == before[b]);
                            } else if a < before.len() {
                                assert(after[a] == before[a]);
                            } else {
                                assert(after[b] == before[b]);
                            }
                        }
                    }
                    assert forall|k2: K::KeyView| rows_map(after).dom().contains(k2) == rows_map(before).insert(kv, v).dom().contains(k2) by {
                        if rows_map(before).dom().contains(k2) {
                            let j = choose|j: int| 0 <= j < before.len() && #[trigger] before[j].key.key_view() == k2;
                            assert(after[j] == before[j]);
                        }
                        if k2 == kv {
                            assert(after[before.len() as int].key.key_view() == kv);
                        }
                        if rows_map(after).dom().contains(k2) && k2 != kv {
                            let j = choose|j: int| 0 <= j < after.len() && #[trigger] after[j].key.key_view() == k2;
                            assert(after[j] == before[j]);
                        }
                    }
                    assert forall|k2: K::KeyView| rows_map(after).dom().contains(k2) implies rows_map(after)[k2] == rows_map(before).insert(kv, v)[k2] by {
                        let ja = index_of(after, k2);
                        if k2 == kv {
                            assert(after[before.len() as int].key.key_view() == kv);
                        } else {
                            let jb = index_of(before, k2);
                            assert(after[jb] == before[jb]);
                            assert(after[ja] == before[ja]);
                        }
                    }
                    assert(rows_map(after) =~= rows_map(before).insert(kv, v));
                    assert(self.key_seq() =~= old(self).key_seq().push(kv));
                }
            },
        }
    }

    /// Takes `k` out of the table, with its value if it had one.
    pub fn remove(&mut self, k: &K) -> (r: Option<V>)
        requires
            old(self).well_formed(),
        ensures
            final(self).well_formed(),
            final(self).view() == old(self).view().remove(k.key_view()),
            match r {
                Some(v) => old(self).view().dom().contains(k.key_view()) && v == old(self).view()[k.key_view()],
                None => !old(self).view().dom().contains(k.key_view()),
            },
    {
        let ghost kv = k.key_view();
        match self.find(k) {
            Some(i) => {
                let ghost before = self.entries@;
                let e = self.entries.remove(i);
                proof {
                    let after = self.entries@;
                    assert forall|a: int| 0 <= a < after.len() implies #[trigger] after[a] == if a < i { before[a] } else { before[a + 1] } by {}
                    assert(keys_distinct(after)) by {
                        assert forall|a: int, b: int|
                            0 <= a < after.len() && 0 <= b < after.len() && a != b implies #[trigger] after[a].key.key_view()
                            != #[trigger] after[b].key.key_view() by {
                            let a2 = if a < i { a } else { a + 1 };
                            let b2 = if b < i { b } else { b + 1 };
                            assert(after[a] == before[a2]);
                            assert(after[b] == before[b2]);
                        }
                    }
                    assert forall|k2: K::KeyView| rows_map(after).dom().contains(k2) == rows_map(before).remove(kv).dom().contains(k2) by {
                        if rows_map(before).dom().contains(k2) && k2 != kv {
                            let j = choose|j: int| 0 <= j < before.len() && #[trigger] before[j].key.key_view() == k2;
                            assert(j != i);
                            let j2 = if j < i { j } else { j - 1 };
                            assert(after[j2] == before[j]);
                        }
                        if rows_map(after).dom().contains(k2) {
                            let j = choose|j: int| 0 <= j < after.len() && #[trigger] after[j].key.key_view() == k2;
                            let j2 = if j < i { j } else { j + 1 };
                            assert(after[j] == before[j2]);
                            assert(j2 != i);
                        }
                    }
                    assert forall|k2: K::KeyView| rows_map(after).dom().contains(k2) implies rows_map(after)[k2] == rows_map(before).remove(kv)[k2] by {
                        let ja = index_of(after, k2);
                        let ja2 = if ja < i { ja } else { ja + 1 };
                        assert(after[ja] == before[ja2]);
                        let jb = index_of(before, k2);
                        assert(before[jb].key.key_view() == k2);
                    }
                    assert(rows_map(after) =~= rows_map(before).remove(kv));
                }
                Some(e.value)
            },
            None => {
                assert(self.view() =~= old(self).view().remove(kv));
                None
            },
        }
    }

    /// The key in row `i` has a value.
    pub proof fn lemma_key_seq_in_dom(&self, i: int)
        requires
            0 <= i < self.key_seq().len(),
        ensures
            self.view().dom().contains(self.key_seq()[i]),
    {
        assert(self.entries@[i].key.key_view() == self.key_seq()[i]);
    }

    /// The key in row `i`.
    pub fn key_at(&self, i: usize) -> (r: &K)
        requires
            i < self.key_seq().len(),
        ensures
            r.key_view() == self.key_seq()[i as int],
    {
        &self.entries[i].key
    }
}

} // verus!

verus! {

/// Whether the two byte strings are equal.
pub fn bytes_eq(a: &Vec<u8>, b: &Vec<u8>) -> (r: bool)
    ensures
        r == (a@ == b@),
{
    if a.len() != b.len() {
        return false;
    }
    let mut i: usize = 0;
    while i < a.len()
        invariant
            i <= a@.len(),
            a@.len() == b@.len(),
            forall|j: int| 0 <= j < i ==> a@[j] == b@[j],
        decreases a@.len() - i,
    {
        if a[i] != b[i] {
            return false;
        }
        i = i + 1;
    }
    assert(a@ =~= b@);
    true
}

} // verus!

verus! {

/// A copy of the bytes.
pub fn clone_bytes(v: &Vec<u8>) -> (r: Vec<u8>)
    ensures
        r@ == v@,
{
    let r = v.clone();
    assert(r@ =~= v@);
    r
}

} // verus!
