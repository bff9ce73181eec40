use vstd::prelude::*;
use crate::address::Address;

verus! {

/// A key of a [`Table`]: it has a mathematical view and an executable test
/// for equality of views.
pub trait TableKey: Sized {
    type KeyView;

    spec fn key_view(&self) -> Self::KeyView;

    fn key_eq(&self, other: &Self) -> (r: bool)
        ensures
            r == (self.key_view() == other.key_view());

    fn key_copy(&self) -> (r: Self)
        ensures
            r.key_view() == self.key_view();
}

impl TableKey for Address {
    type KeyView = Seq<u8>;

    open spec fn key_view(&self) -> Seq<u8> {
        self@
    }

    fn key_eq(&self, other: &Self) -> (r: bool) {
        self.same_as(other)
    }

    fn key_copy(&self) -> (r: Self) {
        self.duplicate()
    }
}

/// The key of an operator approval: `owner` lets `operator` act on all of
/// its tokens.
pub struct OperatorKey {
    pub owner: Address,
    pub operator: Address,
}

impl TableKey for OperatorKey {
    type KeyView = (Seq<u8>, Seq<u8>);

    open spec fn key_view(&self) -> (Seq<u8>, Seq<u8>) {
        (self.owner@, self.operator@)
    }

    fn key_eq(&self, other: &Self) -> (r: bool) {
        self.owner.same_as(&other.owner) && self.operator.same_as(&other.operator)
    }

    fn key_copy(&self) -> (r: Self) {
        OperatorKey { owner: self.owner.duplicate(), operator: self.operator.duplicate() }
    }
}

/// The map that a sequence of key/value entries denotes, a later entry
/// taking precedence over an earlier one with the same key.
pub open spec fn entries_map<KV, V>(s: Seq<(KV, V)>) -> Map<KV, V>
    decreases s.len(),
{
    if s.len() == 0 {
        Map::empty()
    } else {
        entries_map(s.drop_last()).insert(s.last().0, s.last().1)
    }
}

/// An entry at `i` with key `k` that no later entry shadows.
pub open spec fn last_entry_at<KV, V>(s: Seq<(KV, V)>, k: KV, i: int) -> bool {
    &&& 0 <= i < s.len()
    &&& s[i].0 == k
    &&& forall|j: int| i < j < s.len() ==> s[j].0 != k
}

pub proof fn lemma_entries_map_last<KV, V>(s: Seq<(KV, V)>, k: KV, i: int)
    requires
        last_entry_at(s, k, i),
    ensures
        entries_map(s).contains_key(k),
        entries_map(s)[k] == s[i].1,
    decreases s.len(),
{
    if i < s.len() - 1 {
        lemma_entries_map_last(s.drop_last(), k, i);
    }
}

pub proof fn lemma_entries_map_absent<KV, V>(s: Seq<(KV, V)>, k: KV)
    requires
        forall|j: int| 0 <= j < s.len() ==> s[j].0 != k,
    ensures
        !entries_map(s).contains_key(k),
    decreases s.len(),
{
    if s.len() > 0 {
        lemma_entries_map_absent(s.drop_last(), k);
    }
}

pub proof fn lemma_entries_map_update<KV, V>(s: Seq<(KV, V)>, k: KV, v: V, i: int)
    requires
        last_entry_at(s, k, i),
    ensures
        entries_map(s.update(i, (k, v))) =~= entries_map(s).insert(k, v),
    decreases s.len(),
{
    let t = s.update(i, (k, v));
    if i < s.len() - 1 {
        assert(t.drop_last() =~= s.drop_last().update(i, (k, v)));
        lemma_entries_map_update(s.drop_last(), k, v, i);
    } else {
        assert(t.drop_last() =~= s.drop_last());
    }
}

/// A finite map from keys to values, held as a list of entries. A key may
/// occur in more than one entry; the last entry for a key gives its value.
pub struct Table<K: TableKey, V: Copy> {
    entries: Vec<(K, V)>,
}

impl<K: TableKey, V: Copy> Table<K, V> {
    pub closed spec fn entry_views(&self) -> Seq<(K::KeyView, V)> {
        self.entries@.map_values(|e: (K, V)| (e.0.key_view(), e.1))
    }

    /// The map that this table holds.
    pub closed spec fn view(&self) -> Map<K::KeyView, V> {
        entries_map(self.entry_views())
    }

    /// The empty table.
    pub fn new() -> (t: Self)
        ensures
            t.view() == Map::<K::KeyView, V>::empty(),
    {
        let t = Table { entries: Vec::new() };
        assert(t.entry_views() =~= Seq::<(K::KeyView, V)>::empty());
        t
    }

    /// The table that holds the entries `entries`, a later entry taking
    /// precedence over an earlier one with the same key.
    pub fn from_entries(entries: Vec<(K, V)>) -> (t: Self)
        ensures
            t.view() == entries_map(entries@.map_values(|e: (K, V)| (e.0.key_view(), e.1))),
    {
        Table { entries }
    }

    /// The entries of this table, which hold its map.
    pub fn to_entries(&self) -> (r: Vec<(K, V)>)
        ensures
            entries_map(r@.map_values(|e: (K, V)| (e.0.key_view(), e.1))) == self.view(),
    {
        let mut out: Vec<(K, V)> = Vec::new();
        let n = self.entries.len();
        let mut i: usize = 0;
        while i < n
            invariant
                n == self.entries.len(),
                i <= n,
                out@.map_values(|e: (K, V)| (e.0.key_view(), e.1)) =~= self.entry_views().subrange(0, i as int),
            decreases n - i,
        {
            let e = &self.entries[i];
            let ghost before = out@.map_values(|e: (K, V)| (e.0.key_view(), e.1));
            out.push((e.0.key_copy(), e.1));
            proof {
                assert(out@.map_values(|e: (K, V)| (e.0.key_view(), e.1)) =~= before.push((e.0.key_view(), e.1)));
            }
            i = i + 1;
        }
        proof {
            assert(self.entry_views().subrange(0, n as int) =~= self.entry_views());
        }
        out
    }

    /// The index of the entry for `k` that no later entry shadows.
    fn find(&self, k: &K) -> (r: Option<usize>)
        ensures
            match r {
                Some(i) => last_entry_at(self.entry_views(), k.key_view(), i as int),
                None => forall|j: int|
                    0 <= j < self.entry_views().len() ==> self.entry_views()[j].0 != k.key_view(),
            },
    {
        let n = self.entries.len();
        let mut i: usize = n;
        while i > 0
            invariant
                n == self.entries.len(),
                i <= n,
                forall|j: int|
                    i <= j < n ==> self.entry_views()[j].0 != k.key_view(),
            decreases i,
        {
            i = i - 1;
            if self.entries[i].0.key_eq(k) {
                return Some(i);
            }
        }
        None
    }

    /// The value stored for `k`, if any.
    pub fn get(&self, k: &K) -> (r: Option<V>)
        ensures
            r == (if self.view().contains_key(k.key_view()) {
                Some(self.view()[k.key_view()])
            } else {
                None::<V>
            }),
    {
        match self.find(k) {
            Some(i) => {
                proof {
                    lemma_entries_map_last(self.entry_views(), k.key_view(), i as int);
                }
                Some(self.entries[i].1)
            },
            None => {
                proof {
                    lemma_entries_map_absent(self.entry_views(), k.key_view());
                }
                None
            },
        }
    }

    /// Store `v` for `k`, replacing what was stored for `k`.
    pub fn set(&mut self, k: K, v: V)
        ensures
            final(self).view() == old(self).view().insert(k.key_view(), v),
    {
        let ghost kv = k.key_view();
        match self.find(&k) {
            Some(i) => {
                proof {
                    lemma_entries_map_update(self.entry_views(), kv, v, i as int);
                }
                let ghost before = self.entry_views();
                self.entries.set(i, (k, v));
                assert(self.entry_views() =~= before.update(i as int, (kv, v)));
            },
            None => {
                let ghost before = self.entry_views();
                self.entries.push((k, v));
                assert(self.entry_views().drop_last() =~= before);
            },
        }
    }
}

} // verus!
