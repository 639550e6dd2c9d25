//! In-memory keyed stores with mathematical map and set views.
//!
//! The engine keeps every shared record — accounts, streams, the token
//! registry, per-asset tallies — in one of these stores and follows an
//! extract–mutate–reinsert discipline per invocation. Keys are unique; the
//! view of a store is the finite `Map` (or `Set`) of its contents.

use vstd::prelude::*;

use crate::primitives::AccountId;
use crate::primitives::StreamId;

verus! {

/// Whether some entry of `s` carries the key `k`.
pub open spec fn tbl_has_key<V>(s: Seq<(AccountId, V)>, k: Seq<char>) -> bool {
    exists|i: int| 0 <= i < s.len() && s[i].0@ == k
}

/// The value stored under `k`; meaningful only when the keys of `s` are
/// distinct and `k` is present.
pub open spec fn tbl_value<V>(s: Seq<(AccountId, V)>, k: Seq<char>) -> V {
    s[choose|i: int| 0 <= i < s.len() && s[i].0@ == k].1
}

/// The association map carried by a sequence of entries.
pub open spec fn tbl_map<V>(s: Seq<(AccountId, V)>) -> Map<Seq<char>, V> {
    Map::new(|k: Seq<char>| tbl_has_key(s, k), |k: Seq<char>| tbl_value(s, k))
}

/// An association table keyed by account identity.
pub struct Table<V> {
    pub entries: Vec<(AccountId, V)>,
}

impl<V> View for Table<V> {
    type V = Map<Seq<char>, V>;

    open spec fn view(&self) -> Map<Seq<char>, V> {
        tbl_map(self.entries@)
    }
}

impl<V> Table<V> {
    /// Entries in storage order, for iteration; contracts generally use the
    /// map view instead.
    pub open spec fn entries_view(self) -> Seq<(AccountId, V)> {
        self.entries@
    }

    /// Keys are pairwise distinct.
    pub open spec fn wf(self) -> bool {
        forall|i: int, j: int|
            0 <= i < j < self.entries@.len() ==> self.entries@[i].0@ != self.entries@[j].0@
    }

    pub fn new() -> (r: Self)
        ensures
            r.wf(),
            r@ == Map::<Seq<char>, V>::empty(),
            r.entries_view() == Seq::<(AccountId, V)>::empty(),
    {
        let r = Table { entries: Vec::new() };
        proof {
            assert(r@ =~= Map::<Seq<char>, V>::empty());
        }
        r
    }

    /// The index holding key `k`, if any.
    fn find(&self, k: &AccountId) -> (r: Option<usize>)
        ensures
            match r {
                Some(i) => i < self.entries@.len() && self.entries@[i as int].0@ == k@,
                None => !self@.dom().contains(k@),
            },
    {
        let n = self.entries.len();
        let mut i: usize = 0;
        while i < n
            invariant
                i <= n,
                n == self.entries@.len(),
                forall|j: int| 0 <= j < i ==> self.entries@[j].0@ != k@,
            decreases n - i,
        {
            if self.entries[i].0 == *k {
                return Some(i);
            }
            i = i + 1;
        }
        None
    }

    pub fn contains_key(&self, k: &AccountId) -> (r: bool)
        ensures
            r == self@.dom().contains(k@),
    {
        match self.find(k) {
            Some(_) => true,
            None => false,
        }
    }

    pub fn get(&self, k: &AccountId) -> (r: Option<&V>)
        requires
            self.wf(),
        ensures
            match r {
                Some(v) => self@.dom().contains(k@) && *v == self@[k@],
                None => !self@.dom().contains(k@),
            },
    {
        match self.find(k) {
            Some(i) => {
                proof {
                    let j = choose|j: int|
                        0 <= j < self.entries@.len() && self.entries@[j].0@ == k@;
                    assert(j == i);
                }
                Some(&self.entries[i].1)
            },
            None => None,
        }
    }

    /// Removes and returns the value stored under `k`.
    pub fn remove(&mut self, k: &AccountId) -> (r: Option<V>)
        requires
            old(self).wf(),
        ensures
            final(self).wf(),
            final(self)@ == old(self)@.remove(k@),
            match r {
                Some(v) => old(self)@.dom().contains(k@) && v == old(self)@[k@],
                None => !old(self)@.dom().contains(k@) && *final(self) == *old(self),
            },
    {
        match self.find(k) {
            Some(i) => {
                let ghost s0 = self.entries@;
                let (_, v) = self.entries.remove(i);
                proof {
                    let s1 = self.entries@;
                    let j0 = choose|j: int| 0 <= j < s0.len() && s0[j].0@ == k@;
                    assert(j0 == i);
                    assert forall|kk: Seq<char>| #[trigger] self@.dom().contains(kk) implies
                        old(self)@.remove(k@).dom().contains(kk) && self@[kk] == old(self)@[kk] by {
                        let a = choose|a: int| 0 <= a < s1.len() && s1[a].0@ == kk;
                        let b = if a < i { a } else { a + 1 };
                        assert(s0[b].0@ == kk);
                        assert(kk != k@);
                        let b2 = choose|b2: int| 0 <= b2 < s0.len() && s0[b2].0@ == kk;
                        assert(b2 == b);
                        let a2 = choose|a2: int| 0 <= a2 < s1.len() && s1[a2].0@ == kk;
                        assert(a2 == a);
                    }
                    assert forall|kk: Seq<char>| #[trigger] old(self)@.remove(k@).dom().contains(kk)
                        implies self@.dom().contains(kk) by {
                        let b = choose|b: int| 0 <= b < s0.len() && s0[b].0@ == kk;
                        assert(b != i);
                        if b < i {
                            assert(s1[b].0@ == kk);
                        } else {
                            assert(s1[b - 1].0@ == kk);
                        }
                    }
                    assert(self@ =~= old(self)@.remove(k@));
                }
                Some(v)
            },
            None => {
                proof {
                    assert(self@ =~= old(self)@.remove(k@));
                }
                None
            },
        }
    }

    /// Inserts `v` under `k`, replacing and returning any previous value.
    pub fn insert(&mut self, k: AccountId, v: V) -> (r: Option<V>)
        requires
            old(self).wf(),
        ensures
            final(self).wf(),
            final(self)@ == old(self)@.insert(k@, v),
            match r {
                Some(prev) => old(self)@.dom().contains(k@) && prev == old(self)@[k@],
                None => !old(self)@.dom().contains(k@),
            },
    {
        let prev = self.remove(&k);
        let ghost s0 = self.entries@;
        let ghost mid = tbl_map(s0);
        self.entries.push((k, v));
        proof {
            let s1 = self.entries@;
            assert(mid == old(self)@.remove(k@));
            assert(!mid.dom().contains(k@));
            assert(!tbl_has_key(s0, k@));
            assert(s1.len() == s0.len() + 1);
            assert(s1[s0.len() as int].0@ == k@);
            assert forall|a: int, b: int| 0 <= a < b < s1.len() implies s1[a].0@ != s1[b].0@ by {
                if b < s0.len() {
                    assert(s1[a] == s0[a]);
                    assert(s1[b] == s0[b]);
                } else {
                    assert(s1[a] == s0[a]);
                    assert(s0[a].0@ != k@);
                }
            }
            assert forall|kk: Seq<char>| #[trigger] self@.dom().contains(kk) implies
                old(self)@.insert(k@, v).dom().contains(kk) && self@[kk] == old(self)@.insert(
                    k@,
                    v,
                )[kk] by {
                let a = choose|a: int| 0 <= a < s1.len() && s1[a].0@ == kk;
                let a2 = choose|a2: int| 0 <= a2 < s1.len() && s1[a2].0@ == kk;
                assert(a2 == a);
                assert(self@[kk] == s1[a].1);
                if a < s0.len() {
                    assert(s1[a] == s0[a]);
                    assert(kk != k@);
                    assert(mid.dom().contains(kk));
                    let b = choose|b: int| 0 <= b < s0.len() && s0[b].0@ == kk;
                    assert(b == a);
                    assert(mid[kk] == s0[a].1);
                    assert(old(self)@[kk] == mid[kk]);
                } else {
                    assert(kk == k@);
                    assert(self@[kk] == v);
                }
            }
            assert forall|kk: Seq<char>| #[trigger] old(self)@.insert(k@, v).dom().contains(kk)
                implies self@.dom().contains(kk) by {
                if kk == k@ {
                    assert(s1[s0.len() as int].0@ == kk);
                } else {
                    assert(mid.dom().contains(kk));
                    let b = choose|b: int| 0 <= b < s0.len() && s0[b].0@ == kk;
                    assert(s1[b] == s0[b]);
                    assert(s1[b].0@ == kk);
                }
            }
            assert(self@ =~= old(self)@.insert(k@, v));
        }
        prev
    }

    pub fn len(&self) -> (r: usize)
        ensures
            r == self.entries_view().len(),
    {
        self.entries.len()
    }

    pub fn key_at(&self, i: usize) -> (r: &AccountId)
        requires
            i < self.entries_view().len(),
        ensures
            *r == self.entries_view()[i as int].0,
    {
        &self.entries[i].0
    }

    pub fn val_at(&self, i: usize) -> (r: &V)
        requires
            i < self.entries_view().len(),
        ensures
            *r == self.entries_view()[i as int].1,
    {
        &self.entries[i].1
    }

    /// Every stored entry is in the map view under its own key.
    pub proof fn lemma_entry_in_view(&self, i: int)
        requires
            self.wf(),
            0 <= i < self.entries_view().len(),
        ensures
            self@.dom().contains(self.entries_view()[i].0@),
            self@[self.entries_view()[i].0@] == self.entries_view()[i].1,
    {
        let s = self.entries@;
        let j = choose|j: int| 0 <= j < s.len() && s[j].0@ == s[i].0@;
        assert(j == i);
    }

    /// The number of entries equals the cardinality of the map view's domain.
    pub proof fn lemma_len_is_dom_len(&self)
        requires
            self.wf(),
        ensures
            self@.dom().finite(),
            self@.dom().len() == self.entries_view().len(),
    {
        let s = self.entries@;
        let keys = s.map_values(|e: (AccountId, V)| e.0@);
        assert(keys.no_duplicates());
        keys.unique_seq_to_set();
        assert forall|kk: Seq<char>| #[trigger] self@.dom().contains(kk) implies keys.to_set()
            .contains(kk) by {
            let a = choose|a: int| 0 <= a < s.len() && s[a].0@ == kk;
            assert(keys[a] == kk);
        }
        assert forall|kk: Seq<char>| #[trigger] keys.to_set().contains(kk) implies self@.dom()
            .contains(kk) by {
            let a = choose|a: int| 0 <= a < keys.len() && keys[a] == kk;
            assert(s[a].0@ == kk);
        }
        assert(self@.dom() =~= keys.to_set());
    }
}

/// Whether some entry of `s` carries the stream id `k`.
pub open spec fn id_tbl_has_key<V>(s: Seq<(StreamId, V)>, k: StreamId) -> bool {
    exists|i: int| 0 <= i < s.len() && s[i].0 == k
}

/// The value stored under stream id `k`; meaningful only when the keys of `s`
/// are distinct and `k` is present.
pub open spec fn id_tbl_value<V>(s: Seq<(StreamId, V)>, k: StreamId) -> V {
    s[choose|i: int| 0 <= i < s.len() && s[i].0 == k].1
}

/// The association map carried by a sequence of id-keyed entries.
pub open spec fn id_tbl_map<V>(s: Seq<(StreamId, V)>) -> Map<StreamId, V> {
    Map::new(|k: StreamId| id_tbl_has_key(s, k), |k: StreamId| id_tbl_value(s, k))
}

/// An association table keyed by stream identity.
pub struct IdTable<V> {
    pub entries: Vec<(StreamId, V)>,
}

impl<V> View for IdTable<V> {
    type V = Map<StreamId, V>;

    open spec fn view(&self) -> Map<StreamId, V> {
        id_tbl_map(self.entries@)
    }
}

impl<V> IdTable<V> {
    /// Entries in storage order, for iteration; contracts generally use the
    /// map view instead.
    pub open spec fn entries_view(self) -> Seq<(StreamId, V)> {
        self.entries@
    }

    /// Keys are pairwise distinct.
    pub open spec fn wf(self) -> bool {
        forall|i: int, j: int|
            0 <= i < j < self.entries@.len() ==> self.entries@[i].0 != self.entries@[j].0
    }

    pub fn new() -> (r: Self)
        ensures
            r.wf(),
            r@ == Map::<StreamId, V>::empty(),
            r.entries_view() == Seq::<(StreamId, V)>::empty(),
    {
        let r = IdTable { entries: Vec::new() };
        proof {
            assert(r@ =~= Map::<StreamId, V>::empty());
        }
        r
    }

    /// The index holding key `k`, if any.
    fn find(&self, k: StreamId) -> (r: Option<usize>)
        ensures
            match r {
                Some(i) => i < self.entries@.len() && self.entries@[i as int].0 == k,
                None => !self@.dom().contains(k),
            },
    {
        let n = self.entries.len();
        let mut i: usize = 0;
        while i < n
            invariant
                i <= n,
                n == self.entries@.len(),
                forall|j: int| 0 <= j < i ==> self.entries@[j].0 != k,
            decreases n - i,
        {
            if self.entries[i].0 == k {
                return Some(i);
            }
            i = i + 1;
        }
        None
    }

    pub fn contains_key(&self, k: StreamId) -> (r: bool)
        ensures
            r == self@.dom().contains(k),
    {
        match self.find(k) {
            Some(_) => true,
            None => false,
        }
    }

    pub fn get(&self, k: StreamId) -> (r: Option<&V>)
        requires
            self.wf(),
        ensures
            match r {
                Some(v) => self@.dom().contains(k) && *v == self@[k],
                None => !self@.dom().contains(k),
            },
    {
        match self.find(k) {
            Some(i) => {
                proof {
                    let j = choose|j: int| 0 <= j < self.entries@.len() && self.entries@[j].0 == k;
                    assert(j == i);
                }
                Some(&self.entries[i].1)
            },
            None => None,
        }
    }

    /// Removes and returns the value stored under `k`.
    pub fn remove(&mut self, k: StreamId) -> (r: Option<V>)
        requires
            old(self).wf(),
        ensures
            final(self).wf(),
            final(self)@ == old(self)@.remove(k),
            match r {
                Some(v) => old(self)@.dom().contains(k) && v == old(self)@[k],
                None => !old(self)@.dom().contains(k) && *final(self) == *old(self),
            },
    {
        match self.find(k) {
            Some(i) => {
                let ghost s0 = self.entries@;
                let (_, v) = self.entries.remove(i);
                proof {
                    let s1 = self.entries@;
                    let j0 = choose|j: int| 0 <= j < s0.len() && s0[j].0 == k;
                    assert(j0 == i);
                    assert forall|kk: StreamId| #[trigger] self@.dom().contains(kk) implies old(
                        self,
                    )@.remove(k).dom().contains(kk) && self@[kk] == old(self)@[kk] by {
                        let a = choose|a: int| 0 <= a < s1.len() && s1[a].0 == kk;
                        let b = if a < i { a } else { a + 1 };
                        assert(s0[b].0 == kk);
                        assert(kk != k);
                        let b2 = choose|b2: int| 0 <= b2 < s0.len() && s0[b2].0 == kk;
                        assert(b2 == b);
                        let a2 = choose|a2: int| 0 <= a2 < s1.len() && s1[a2].0 == kk;
                        assert(a2 == a);
                    }
                    assert forall|kk: StreamId| #[trigger] old(self)@.remove(k).dom().contains(kk)
                        implies self@.dom().contains(kk) by {
                        let b = choose|b: int| 0 <= b < s0.len() && s0[b].0 == kk;
                        assert(b != i);
                        if b < i {
                            assert(s1[b].0 == kk);
                        } else {
                            assert(s1[b - 1].0 == kk);
                        }
                    }
                    assert(self@ =~= old(self)@.remove(k));
                }
                Some(v)
            },
            None => {
                proof {
                    assert(self@ =~= old(self)@.remove(k));
                }
                None
            },
        }
    }

    /// Inserts `v` under `k`, replacing and returning any previous value.
    pub fn insert(&mut self, k: StreamId, v: V) -> (r: Option<V>)
        requires
            old(self).wf(),
        ensures
            final(self).wf(),
            final(self)@ == old(self)@.insert(k, v),
            match r {
                Some(prev) => old(self)@.dom().contains(k) && prev == old(self)@[k],
                None => !old(self)@.dom().contains(k),
            },
    {
        let prev = self.remove(k);
        let ghost s0 = self.entries@;
        let ghost mid = id_tbl_map(s0);
        self.entries.push((k, v));
        proof {
            let s1 = self.entries@;
            assert(mid == old(self)@.remove(k));
            assert(!mid.dom().contains(k));
            assert(!id_tbl_has_key(s0, k));
            assert(s1.len() == s0.len() + 1);
            assert(s1[s0.len() as int].0 == k);
            assert forall|a: int, b: int| 0 <= a < b < s1.len() implies s1[a].0 != s1[b].0 by {
                if b < s0.len() {
                    assert(s1[a] == s0[a]);
                    assert(s1[b] == s0[b]);
                } else {
                    assert(s1[a] == s0[a]);
                    assert(s0[a].0 != k);
                }
            }
            assert forall|kk: StreamId| #[trigger] self@.dom().contains(kk) implies old(
                self,
            )@.insert(k, v).dom().contains(kk) && self@[kk] == old(self)@.insert(k, v)[kk] by {
                let a = choose|a: int| 0 <= a < s1.len() && s1[a].0 == kk;
                let a2 = choose|a2: int| 0 <= a2 < s1.len() && s1[a2].0 == kk;
                assert(a2 == a);
                assert(self@[kk] == s1[a].1);
                if a < s0.len() {
                    assert(s1[a] == s0[a]);
                    assert(kk != k);
                    assert(mid.dom().contains(kk));
                    let b = choose|b: int| 0 <= b < s0.len() && s0[b].0 == kk;
                    assert(b == a);
                    assert(mid[kk] == s0[a].1);
                    assert(old(self)@[kk] == mid[kk]);
                } else {
                    assert(kk == k);
                    assert(self@[kk] == v);
                }
            }
            assert forall|kk: StreamId| #[trigger] old(self)@.insert(k, v).dom().contains(kk)
                implies self@.dom().contains(kk) by {
                if kk == k {
                    assert(s1[s0.len() as int].0 == kk);
                } else {
                    assert(mid.dom().contains(kk));
                    let b = choose|b: int| 0 <= b < s0.len() && s0[b].0 == kk;
                    assert(s1[b] == s0[b]);
                    assert(s1[b].0 == kk);
                }
            }
            assert(self@ =~= old(self)@.insert(k, v));
        }
        prev
    }

    pub fn len(&self) -> (r: usize)
        ensures
            r == self.entries_view().len(),
    {
        self.entries.len()
    }

    pub fn val_at(&self, i: usize) -> (r: &V)
        requires
            i < self.entries_view().len(),
        ensures
            *r == self.entries_view()[i as int].1,
    {
        &self.entries[i].1
    }

    /// Every stored entry is in the map view under its own key.
    pub proof fn lemma_entry_in_view(&self, i: int)
        requires
            self.wf(),
            0 <= i < self.entries_view().len(),
        ensures
            self@.dom().contains(self.entries_view()[i].0),
            self@[self.entries_view()[i].0] == self.entries_view()[i].1,
    {
        let s = self.entries@;
        let j = choose|j: int| 0 <= j < s.len() && s[j].0 == s[i].0;
        assert(j == i);
    }

    /// The number of entries equals the cardinality of the map view's domain.
    pub proof fn lemma_len_is_dom_len(&self)
        requires
            self.wf(),
        ensures
            self@.dom().finite(),
            self@.dom().len() == self.entries_view().len(),
    {
        let s = self.entries@;
        let keys = s.map_values(|e: (StreamId, V)| e.0);
        assert(keys.no_duplicates());
        keys.unique_seq_to_set();
        assert forall|kk: StreamId| #[trigger] self@.dom().contains(kk) implies keys.to_set()
            .contains(kk) by {
            let a = choose|a: int| 0 <= a < s.len() && s[a].0 == kk;
            assert(keys[a] == kk);
        }
        assert forall|kk: StreamId| #[trigger] keys.to_set().contains(kk) implies self@.dom()
            .contains(kk) by {
            let a = choose|a: int| 0 <= a < keys.len() && keys[a] == kk;
            assert(s[a].0 == kk);
        }
        assert(self@.dom() =~= keys.to_set());
    }
}

/// A duplicate-free list of stream identities; its view is the finite set of
/// its members.
pub struct IdList {
    pub items: Vec<StreamId>,
}

impl View for IdList {
    type V = Set<StreamId>;

    open spec fn view(&self) -> Set<StreamId> {
        self.items@.to_set()
    }
}

impl IdList {
    pub open spec fn wf(self) -> bool {
        self.items@.no_duplicates()
    }

    pub fn new() -> (r: Self)
        ensures
            r.wf(),
            r@ == Set::<StreamId>::empty(),
    {
        let r = IdList { items: Vec::new() };
        proof {
            assert(r@ =~= Set::<StreamId>::empty());
        }
        r
    }

    fn find(&self, id: StreamId) -> (r: Option<usize>)
        ensures
            match r {
                Some(i) => i < self.items@.len() && self.items@[i as int] == id,
                None => !self@.contains(id),
            },
    {
        let n = self.items.len();
        let mut i: usize = 0;
        while i < n
            invariant
                i <= n,
                n == self.items@.len(),
                forall|j: int| 0 <= j < i ==> self.items@[j] != id,
            decreases n - i,
        {
            if self.items[i] == id {
                return Some(i);
            }
            i = i + 1;
        }
        None
    }

    pub fn contains(&self, id: StreamId) -> (r: bool)
        ensures
            r == self@.contains(id),
    {
        match self.find(id) {
            Some(_) => true,
            None => false,
        }
    }

    /// Adds `id`; reports whether membership actually changed.
    pub fn insert(&mut self, id: StreamId) -> (r: bool)
        requires
            old(self).wf(),
        ensures
            final(self).wf(),
            final(self)@ == old(self)@.insert(id),
            r == !old(self)@.contains(id),
    {
        match self.find(id) {
            Some(_) => {
                proof {
                    assert(self@ =~= old(self)@.insert(id));
                }
                false
            },
            None => {
                let ghost s0 = self.items@;
                self.items.push(id);
                proof {
                    let s1 = self.items@;
                    assert forall|a: int| 0 <= a < s1.len() implies s1[a] == id || s0.contains(
                        s1[a],
                    ) by {
                        if a < s0.len() {
                            assert(s0[a] == s1[a]);
                        }
                    }
                    assert(s1[s0.len() as int] == id);
                    assert forall|x: StreamId| #[trigger] s0.to_set().insert(id).contains(x)
                        implies s1.to_set().contains(x) by {
                        if x == id {
                            assert(s1[s0.len() as int] == x);
                        } else {
                            let a = choose|a: int| 0 <= a < s0.len() && s0[a] == x;
                            assert(s1[a] == x);
                        }
                    }
                    assert(self@ =~= old(self)@.insert(id));
                }
                true
            },
        }
    }

    /// Removes `id`; reports whether membership actually changed.
    pub fn remove(&mut self, id: StreamId) -> (r: bool)
        requires
            old(self).wf(),
        ensures
            final(self).wf(),
            final(self)@ == old(self)@.remove(id),
            r == old(self)@.contains(id),
    {
        match self.find(id) {
            Some(i) => {
                let ghost s0 = self.items@;
                self.items.remove(i);
                proof {
                    let s1 = self.items@;
                    assert forall|x: StreamId| #[trigger] s1.to_set().contains(x) implies s0
                        .to_set().remove(id).contains(x) by {
                        let a = choose|a: int| 0 <= a < s1.len() && s1[a] == x;
                        let b = if a < i { a } else { a + 1 };
                        assert(s0[b] == x);
                        assert(x != id);
                    }
                    assert forall|x: StreamId| #[trigger] s0.to_set().remove(id).contains(x)
                        implies s1.to_set().contains(x) by {
                        let b = choose|b: int| 0 <= b < s0.len() && s0[b] == x;
                        assert(b != i);
                        if b < i {
                            assert(s1[b] == x);
                        } else {
                            assert(s1[b - 1] == x);
                        }
                    }
                    assert(self@ =~= old(self)@.remove(id));
                }
                true
            },
            None => {
                proof {
                    assert(self@ =~= old(self)@.remove(id));
                }
                false
            },
        }
    }

    pub fn len(&self) -> (r: usize)
        ensures
            r == self.items@.len(),
    {
        self.items.len()
    }

    pub fn at(&self, i: usize) -> (r: StreamId)
        requires
            i < self.items@.len(),
        ensures
            r == self.items@[i as int],
            self@.contains(r),
    {
        self.items[i]
    }

    pub proof fn lemma_len_is_card(&self)
        requires
            self.wf(),
        ensures
            self@.finite(),
            self@.len() == self.items@.len(),
    {
        self.items@.unique_seq_to_set();
    }
}

/// A duplicate-free list of account identities; its view is the finite set of
/// the identities' character sequences.
pub struct NameList {
    pub items: Vec<AccountId>,
}

impl View for NameList {
    type V = Set<Seq<char>>;

    open spec fn view(&self) -> Set<Seq<char>> {
        self.items@.map_values(|a: AccountId| a@).to_set()
    }
}

impl NameList {
    pub open spec fn wf(self) -> bool {
        forall|i: int, j: int|
            0 <= i < j < self.items@.len() ==> self.items@[i]@ != self.items@[j]@
    }

    pub fn new() -> (r: Self)
        ensures
            r.wf(),
            r@ == Set::<Seq<char>>::empty(),
    {
        let r = NameList { items: Vec::new() };
        proof {
            assert(r@ =~= Set::<Seq<char>>::empty());
        }
        r
    }

    fn find(&self, name: &AccountId) -> (r: Option<usize>)
        ensures
            match r {
                Some(i) => i < self.items@.len() && self.items@[i as int]@ == name@,
                None => !self@.contains(name@),
            },
    {
        let n = self.items.len();
        let mut i: usize = 0;
        while i < n
            invariant
                i <= n,
                n == self.items@.len(),
                forall|j: int| 0 <= j < i ==> self.items@[j]@ != name@,
            decreases n - i,
        {
            if self.items[i] == *name {
                return Some(i);
            }
            i = i + 1;
        }
        proof {
            let m = self.items@.map_values(|a: AccountId| a@);
            if m.to_set().contains(name@) {
                let a = choose|a: int| 0 <= a < m.len() && m[a] == name@;
                assert(self.items@[a]@ == name@);
            }
        }
        None
    }

    pub fn contains(&self, name: &AccountId) -> (r: bool)
        ensures
            r == self@.contains(name@),
    {
        match self.find(name) {
            Some(i) => {
                proof {
                    let m = self.items@.map_values(|a: AccountId| a@);
                    assert(m[i as int] == name@);
                }
                true
            },
            None => false,
        }
    }

    /// Adds `name`; reports whether membership actually changed.
    pub fn insert(&mut self, name: AccountId) -> (r: bool)
        requires
            old(self).wf(),
        ensures
            final(self).wf(),
            final(self)@ == old(self)@.insert(name@),
            r == !old(self)@.contains(name@),
    {
        match self.find(&name) {
            Some(i) => {
                proof {
                    let m = self.items@.map_values(|a: AccountId| a@);
                    assert(m[i as int] == name@);
                    assert(self@ =~= old(self)@.insert(name@));
                }
                false
            },
            None => {
                let ghost s0 = self.items@;
                let ghost k = name@;
                self.items.push(name);
                proof {
                    let s1 = self.items@;
                    let m0 = s0.map_values(|a: AccountId| a@);
                    let m1 = s1.map_values(|a: AccountId| a@);
                    assert(s1[s0.len() as int]@ == k);
                    assert(m1[s0.len() as int] == k);
                    assert forall|a: int, b: int| 0 <= a < b < s1.len() implies s1[a]@ != s1[b]@
                        by {
                        if b < s0.len() {
                            assert(s1[a] == s0[a]);
                            assert(s1[b] == s0[b]);
                        } else {
                            assert(s1[a] == s0[a]);
                            if s0[a]@ == k {
                                assert(m0[a] == k);
                                assert(m0.to_set().contains(k));
                            }
                        }
                    }
                    assert forall|x: Seq<char>| #[trigger] m1.to_set().contains(x) implies m0
                        .to_set().insert(k).contains(x) by {
                        let a = choose|a: int| 0 <= a < m1.len() && m1[a] == x;
                        if a < s0.len() {
                            assert(s1[a] == s0[a]);
                            assert(m0[a] == x);
                        }
                    }
                    assert forall|x: Seq<char>| #[trigger] m0.to_set().insert(k).contains(x)
                        implies m1.to_set().contains(x) by {
                        if x == k {
                            assert(m1[s0.len() as int] == x);
                        } else {
                            let a = choose|a: int| 0 <= a < m0.len() && m0[a] == x;
                            assert(s1[a] == s0[a]);
                            assert(m1[a] == x);
                        }
                    }
                    assert(self@ =~= old(self)@.insert(k));
                }
                true
            },
        }
    }

    /// Removes `name`; reports whether membership actually changed.
    pub fn remove(&mut self, name: &AccountId) -> (r: bool)
        requires
            old(self).wf(),
        ensures
            final(self).wf(),
            final(self)@ == old(self)@.remove(name@),
            r == old(self)@.contains(name@),
    {
        match self.find(name) {
            Some(i) => {
                let ghost s0 = self.items@;
                self.items.remove(i);
                proof {
                    let s1 = self.items@;
                    let m0 = s0.map_values(|a: AccountId| a@);
                    let m1 = s1.map_values(|a: AccountId| a@);
                    assert(m0[i as int] == name@);
                    assert forall|a: int| 0 <= a < s1.len() implies m1[a] == (if a < i {
                        m0[a]
                    } else {
                        m0[a + 1]
                    }) by {
                        if a < i {
                            assert(s1[a] == s0[a]);
                        } else {
                            assert(s1[a] == s0[a + 1]);
                        }
                    }
                    assert forall|x: Seq<char>| #[trigger] m1.to_set().contains(x) implies m0
                        .to_set().remove(name@).contains(x) by {
                        let a = choose|a: int| 0 <= a < m1.len() && m1[a] == x;
                        let b = if a < i { a } else { a + 1 };
                        assert(m0[b] == x);
                        assert(x != name@);
                    }
                    assert forall|x: Seq<char>| #[trigger] m0.to_set().remove(name@).contains(x)
                        implies m1.to_set().contains(x) by {
                        let b = choose|b: int| 0 <= b < m0.len() && m0[b] == x;
                        assert(b != i);
                        if b < i {
                            assert(m1[b] == x);
                        } else {
                            assert(m1[b - 1] == x);
                        }
                    }
                    assert(self@ =~= old(self)@.remove(name@));
                }
                true
            },
            None => {
                proof {
                    assert(self@ =~= old(self)@.remove(name@));
                }
                false
            },
        }
    }

    pub fn is_empty(&self) -> (r: bool)
        ensures
            r == (self.items@.len() == 0),
    {
        self.items.len() == 0
    }
}

} // verus!
