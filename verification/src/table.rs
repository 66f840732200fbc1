//! A small keyed store: the owned stand-in for a persistent mapping.
//!
//! A [`Table`] keeps its entries in the order in which their keys were first
//! written. Its view is the finite map from each key's identity to the value
//! last written under it.

use vstd::prelude::*;
use crate::address::Address;
use crate::sum::{amount_of, amounts, lemma_amounts_insert, lemma_total_insert, seq_total, total};
use crate::uint::U256;

verus! {

/// What a table can be keyed by: a value with an identity that an executable
/// test decides.
pub trait Key: Sized {
    /// The identity that two keys share exactly when they are the same key.
    type Id;

    spec fn id(&self) -> Self::Id;

    fn same(&self, other: &Self) -> (r: bool)
        ensures
            r == (self.id() == other.id()),
    ;

    /// A key with the same identity.
    fn copy(&self) -> (r: Self)
        ensures
            r.id() == self.id(),
    ;
}

impl Key for Address {
    type Id = Address;

    open spec fn id(&self) -> Address {
        *self
    }

    fn same(&self, other: &Address) -> (r: bool) {
        *self == *other
    }

    fn copy(&self) -> (r: Address) {
        *self
    }
}

impl Key for (Address, Address) {
    type Id = (Address, Address);

    open spec fn id(&self) -> (Address, Address) {
        *self
    }

    fn same(&self, other: &(Address, Address)) -> (r: bool) {
        self.0 == other.0 && self.1 == other.1
    }

    fn copy(&self) -> (r: (Address, Address)) {
        *self
    }
}

impl Key for String {
    type Id = Seq<char>;

    open spec fn id(&self) -> Seq<char> {
        self@
    }

    fn same(&self, other: &String) -> (r: bool) {
        *self == *other
    }

    fn copy(&self) -> (r: String) {
        self.clone()
    }
}

/// The map that parallel sequences of keys and values stand for: each key's
/// identity is bound to the value at the key's place.
pub open spec fn assoc<K: Key, V>(keys: Seq<K>, vals: Seq<V>) -> Map<K::Id, V>
    decreases keys.len(),
{
    if keys.len() == 0 || keys.len() != vals.len() {
        Map::empty()
    } else {
        assoc(keys.drop_last(), vals.drop_last()).insert(keys.last().id(), vals.last())
    }
}

/// No identity occurs at two places of the sequence.
pub open spec fn distinct<K: Key>(keys: Seq<K>) -> bool {
    forall|i: int, j: int| 0 <= i < j < keys.len() ==> keys[i].id() != keys[j].id()
}

/// The map that a list of entries stands for: each key's identity is bound
/// to the value of the last entry under that key.
pub open spec fn assoc_of<K: Key, V>(entries: Seq<(K, V)>) -> Map<K::Id, V>
    decreases entries.len(),
{
    if entries.len() == 0 {
        Map::empty()
    } else {
        assoc_of(entries.drop_last()).insert(entries.last().0.id(), entries.last().1)
    }
}

/// No key occurs in two entries of the list.
pub open spec fn distinct_keys<K: Key, V>(entries: Seq<(K, V)>) -> bool {
    forall|i: int, j: int| 0 <= i < j < entries.len() ==> entries[i].0.id() != entries[j].0.id()
}

/// The keys that a list of entries binds are the keys of its entries.
pub proof fn lemma_assoc_of_dom<K: Key, V>(entries: Seq<(K, V)>, id: K::Id)
    ensures
        assoc_of(entries).contains_key(id) <==> exists|i: int|
            0 <= i < entries.len() && entries[i].0.id() == id,
        assoc_of(entries).dom().finite(),
    decreases entries.len(),
{
    if entries.len() > 0 {
        lemma_assoc_of_dom(entries.drop_last(), id);
        if assoc_of(entries).contains_key(id) {
            if entries.last().0.id() == id {
                assert(entries[entries.len() - 1].0.id() == id);
            } else {
                let i = choose|i: int|
                    0 <= i < entries.len() - 1 && entries.drop_last()[i].0.id() == id;
                assert(entries[i].0.id() == id);
            }
        }
        if exists|i: int| 0 <= i < entries.len() && entries[i].0.id() == id {
            let i = choose|i: int| 0 <= i < entries.len() && entries[i].0.id() == id;
            if i < entries.len() - 1 {
                assert(entries.drop_last()[i].0.id() == id);
            }
        }
    }
}

/// The amounts bound by a list of entries with distinct keys add up to the
/// sum of the list.
pub proof fn lemma_assoc_of_total<K: Key>(entries: Seq<(K, U256)>)
    requires
        distinct_keys(entries),
    ensures
        amounts(assoc_of(entries)).dom().finite(),
        total(amounts(assoc_of(entries))) == seq_total(entries),
    decreases entries.len(),
{
    if entries.len() == 0 {
        assert(amounts(assoc_of(entries)) =~= Map::<K::Id, nat>::empty());
    } else {
        let front = entries.drop_last();
        let last = entries.last();
        assert(distinct_keys(front)) by {
            assert forall|a: int, b: int| 0 <= a < b < front.len() implies front[a].0.id()
                != front[b].0.id() by {
                assert(entries[a].0.id() != entries[b].0.id());
            }
        }
        lemma_assoc_of_total(front);
        lemma_assoc_of_dom(front, last.0.id());
        if assoc_of(front).contains_key(last.0.id()) {
            let i = choose|i: int| 0 <= i < front.len() && front[i].0.id() == last.0.id();
            assert(entries[i].0.id() == entries[entries.len() - 1].0.id());
        }
        lemma_amounts_insert(assoc_of(front), last.0.id(), last.1);
        lemma_total_insert(amounts(assoc_of(front)), last.0.id(), last.1@);
    }
}

proof fn lemma_assoc_dom<K: Key, V>(keys: Seq<K>, vals: Seq<V>, id: K::Id)
    requires
        keys.len() == vals.len(),
    ensures
        assoc(keys, vals).contains_key(id) <==> exists|i: int|
            0 <= i < keys.len() && keys[i].id() == id,
        assoc(keys, vals).dom().finite(),
    decreases keys.len(),
{
    if keys.len() > 0 {
        lemma_assoc_dom(keys.drop_last(), vals.drop_last(), id);
        if assoc(keys, vals).contains_key(id) {
            if keys.last().id() == id {
                assert(keys[keys.len() - 1].id() == id);
            } else {
                let i = choose|i: int| 0 <= i < keys.len() - 1 && keys.drop_last()[i].id() == id;
                assert(keys[i].id() == id);
            }
        }
        if exists|i: int| 0 <= i < keys.len() && keys[i].id() == id {
            let i = choose|i: int| 0 <= i < keys.len() && keys[i].id() == id;
            if i < keys.len() - 1 {
                assert(keys.drop_last()[i].id() == id);
            }
        }
    }
}

proof fn lemma_assoc_value<K: Key, V>(keys: Seq<K>, vals: Seq<V>, i: int)
    requires
        keys.len() == vals.len(),
        distinct(keys),
        0 <= i < keys.len(),
    ensures
        assoc(keys, vals).contains_key(keys[i].id()),
        assoc(keys, vals)[keys[i].id()] == vals[i],
    decreases keys.len(),
{
    if i < keys.len() - 1 {
        assert(distinct(keys.drop_last())) by {
            assert forall|a: int, b: int| 0 <= a < b < keys.drop_last().len() implies keys.drop_last()[a].id()
                != keys.drop_last()[b].id() by {
                assert(keys[a].id() != keys[b].id());
            }
        }
        lemma_assoc_value(keys.drop_last(), vals.drop_last(), i);
        assert(keys[i].id() != keys[keys.len() - 1].id());
    }
}

proof fn lemma_assoc_update<K: Key, V>(keys: Seq<K>, vals: Seq<V>, i: int, v: V)
    requires
        keys.len() == vals.len(),
        distinct(keys),
        0 <= i < keys.len(),
    ensures
        assoc(keys, vals.update(i, v)) == assoc(keys, vals).insert(keys[i].id(), v),
    decreases keys.len(),
{
    let n = keys.len() - 1;
    if i < n {
        assert(distinct(keys.drop_last())) by {
            assert forall|a: int, b: int| 0 <= a < b < keys.drop_last().len() implies keys.drop_last()[a].id()
                != keys.drop_last()[b].id() by {
                assert(keys[a].id() != keys[b].id());
            }
        }
        lemma_assoc_update(keys.drop_last(), vals.drop_last(), i, v);
        assert(vals.update(i, v).drop_last() =~= vals.drop_last().update(i, v));
        assert(keys[i].id() != keys[n].id());
        assert(assoc(keys, vals.update(i, v)) =~= assoc(keys, vals).insert(keys[i].id(), v));
    } else {
        assert(vals.update(i, v).drop_last() =~= vals.drop_last());
        assert(assoc(keys, vals.update(i, v)) =~= assoc(keys, vals).insert(keys[i].id(), v));
    }
}

/// A finite map from keys to values, held as the entries written so far.
pub struct Table<K: Key, V> {
    keys: Vec<K>,
    vals: Vec<V>,
}

impl<K: Key, V> Table<K, V> {
    /// The entries are paired and no key is held twice.
    pub closed spec fn wf(&self) -> bool {
        &&& self.keys@.len() == self.vals@.len()
        &&& distinct(self.keys@)
    }

    /// The map from each key's identity to the value held under it.
    pub closed spec fn view(&self) -> Map<K::Id, V> {
        assoc(self.keys@, self.vals@)
    }

    /// A table holds finitely many keys, no more than a machine can count.
    pub proof fn lemma_len_bounded(&self)
        requires
            self.wf(),
        ensures
            self@.dom().finite(),
            self@.dom().len() <= usize::MAX,
    {
        lemma_assoc_len(self.keys@, self.vals@);
        assert(self.keys@.len() == self.keys.len());
    }

    pub fn new() -> (t: Self)
        ensures
            t.wf(),
            t@ == Map::<K::Id, V>::empty(),
    {
        Table { keys: Vec::new(), vals: Vec::new() }
    }

    fn find(&self, k: &K) -> (r: Option<usize>)
        requires
            self.wf(),
        ensures
            match r {
                Some(i) => i < self.keys@.len() && self.keys@[i as int].id() == k.id(),
                None => !self@.contains_key(k.id()),
            },
    {
        let mut i: usize = 0;
        while i < self.keys.len()
            invariant
                i <= self.keys@.len(),
                forall|j: int| 0 <= j < i ==> self.keys@[j].id() != k.id(),
            decreases self.keys@.len() - i,
        {
            if self.keys[i].same(k) {
                return Some(i);
            }
            i += 1;
        }
        proof {
            lemma_assoc_dom(self.keys@, self.vals@, k.id());
        }
        None
    }

    pub fn contains(&self, k: &K) -> (r: bool)
        requires
            self.wf(),
        ensures
            r == self@.contains_key(k.id()),
    {
        match self.find(k) {
            Some(i) => {
                proof {
                    lemma_assoc_value(self.keys@, self.vals@, i as int);
                }
                true
            },
            None => false,
        }
    }

    /// The value held under `k`, if any.
    pub fn get(&self, k: &K) -> (r: Option<&V>)
        requires
            self.wf(),
        ensures
            match r {
                Some(v) => self@.contains_key(k.id()) && *v == self@[k.id()],
                None => !self@.contains_key(k.id()),
            },
    {
        match self.find(k) {
            Some(i) => {
                proof {
                    lemma_assoc_value(self.keys@, self.vals@, i as int);
                }
                Some(&self.vals[i])
            },
            None => None,
        }
    }

    /// Binds `k` to `v`, in place of what `k` was bound to before.
    pub fn insert(&mut self, k: K, v: V)
        requires
            old(self).wf(),
        ensures
            final(self).wf(),
            final(self)@ == old(self)@.insert(k.id(), v),
    {
        match self.find(&k) {
            Some(i) => {
                proof {
                    lemma_assoc_update(self.keys@, self.vals@, i as int, v);
                }
                self.vals.set(i, v);
            },
            None => {
                proof {
                    let keys = self.keys@.push(k);
                    let vals = self.vals@.push(v);
                    assert(keys.drop_last() =~= self.keys@);
                    assert(vals.drop_last() =~= self.vals@);
                    assert forall|a: int, b: int| 0 <= a < b < keys.len() implies keys[a].id()
                        != keys[b].id() by {
                        if b == keys.len() - 1 {
                            lemma_assoc_dom(self.keys@, self.vals@, k.id());
                        }
                    }
                }
                self.keys.push(k);
                self.vals.push(v);
            },
        }
    }
}

/// A list of entries that pairs the keys and values of two sequences place
/// by place stands for the map that the two sequences stand for.
proof fn lemma_assoc_of_paired<K: Key, V>(keys: Seq<K>, vals: Seq<V>, entries: Seq<(K, V)>)
    requires
        keys.len() == vals.len(),
        entries.len() == keys.len(),
        forall|i: int|
            0 <= i < entries.len() ==> (#[trigger] entries[i]).0.id() == keys[i].id() && entries[i].1
                == vals[i],
    ensures
        assoc_of(entries) == assoc(keys, vals),
    decreases keys.len(),
{
    if keys.len() > 0 {
        let n = keys.len() - 1;
        assert(entries[n].0.id() == keys[n].id() && entries[n].1 == vals[n]);
        assert forall|i: int| 0 <= i < entries.drop_last().len() implies (
        #[trigger] entries.drop_last()[i]).0.id() == keys.drop_last()[i].id()
            && entries.drop_last()[i].1 == vals.drop_last()[i] by {
            assert(entries[i].0.id() == keys[i].id() && entries[i].1 == vals[i]);
        }
        lemma_assoc_of_paired(keys.drop_last(), vals.drop_last(), entries.drop_last());
    }
}

impl<K: Key, V: Copy> Table<K, V> {
    /// The entries of the table, in the order in which their keys were
    /// first written.
    pub fn entries(&self) -> (r: Vec<(K, V)>)
        requires
            self.wf(),
        ensures
            distinct_keys(r@),
            assoc_of(r@) == self@,
    {
        let mut r: Vec<(K, V)> = Vec::new();
        let mut i: usize = 0;
        while i < self.keys.len()
            invariant
                i <= self.keys@.len(),
                self.keys@.len() == self.vals@.len(),
                r@.len() == i,
                forall|j: int|
                    0 <= j < i ==> (#[trigger] r@[j]).0.id() == self.keys@[j].id() && r@[j].1
                        == self.vals@[j],
            decreases self.keys@.len() - i,
        {
            let key = self.keys[i].copy();
            r.push((key, self.vals[i]));
            i += 1;
        }
        proof {
            lemma_assoc_of_paired(self.keys@, self.vals@, r@);
            assert forall|a: int, b: int| 0 <= a < b < r@.len() implies r@[a].0.id()
                != r@[b].0.id() by {
                assert(r@[a].0.id() == self.keys@[a].id());
                assert(r@[b].0.id() == self.keys@[b].id());
            }
        }
        r
    }

    /// The table that a list of entries with distinct keys stands for;
    /// `None` where a key occurs twice.
    pub fn from_entries(entries: &Vec<(K, V)>) -> (r: Option<Self>)
        ensures
            match r {
                Some(t) => distinct_keys(entries@) && t.wf() && t@ == assoc_of(entries@),
                None => !distinct_keys(entries@),
            },
    {
        let mut t: Table<K, V> = Table::new();
        let mut i: usize = 0;
        while i < entries.len()
            invariant
                i <= entries@.len(),
                t.wf(),
                t@ == assoc_of(entries@.subrange(0, i as int)),
                distinct_keys(entries@.subrange(0, i as int)),
            decreases entries@.len() - i,
        {
            let ghost prefix = entries@.subrange(0, i as int);
            let ghost next = entries@.subrange(0, i + 1);
            proof {
                assert(next.drop_last() =~= prefix);
                lemma_assoc_of_dom(prefix, entries@[i as int].0.id());
            }
            if t.contains(&entries[i].0) {
                proof {
                    let j = choose|j: int|
                        0 <= j < prefix.len() && prefix[j].0.id() == entries@[i as int].0.id();
                    assert(entries@[j].0.id() == entries@[i as int].0.id());
                }
                return None;
            }
            let key = entries[i].0.copy();
            t.insert(key, entries[i].1);
            proof {
                assert forall|a: int, b: int| 0 <= a < b < next.len() implies next[a].0.id()
                    != next[b].0.id() by {
                    if b == i {
                        assert(prefix[a].0.id() == next[a].0.id());
                    } else {
                        assert(prefix[a].0.id() != prefix[b].0.id());
                    }
                }
            }
            i += 1;
        }
        proof {
            assert(entries@.subrange(0, entries@.len() as int) =~= entries@);
        }
        Some(t)
    }
}

impl<K: Key> Table<K, U256> {
    /// Whether no amount held exceeds `limit`.
    pub fn all_at_most(&self, limit: &U256) -> (r: bool)
        requires
            self.wf(),
        ensures
            r == (forall|id: K::Id| #[trigger] amount_of(amounts(self@), id) <= limit@),
    {
        let mut i: usize = 0;
        while i < self.vals.len()
            invariant
                i <= self.vals@.len(),
                self.wf(),
                forall|j: int| 0 <= j < i ==> self.vals@[j]@ <= limit@,
            decreases self.vals@.len() - i,
        {
            if self.vals[i].gt(limit) {
                proof {
                    lemma_assoc_value(self.keys@, self.vals@, i as int);
                    let id = self.keys@[i as int].id();
                    assert(amount_of(amounts(self@), id) == self.vals@[i as int]@);
                }
                return false;
            }
            i += 1;
        }
        proof {
            assert forall|id: K::Id| #[trigger] amount_of(amounts(self@), id) <= limit@ by {
                if self@.contains_key(id) {
                    lemma_assoc_dom(self.keys@, self.vals@, id);
                    let j = choose|j: int| 0 <= j < self.keys@.len() && self.keys@[j].id() == id;
                    lemma_assoc_value(self.keys@, self.vals@, j);
                }
            }
        }
        true
    }

    /// The amount held under `k`, or zero where nothing is.
    pub fn amount(&self, k: &K) -> (v: U256)
        requires
            self.wf(),
        ensures
            v@ == amount_of(amounts(self@), k.id()),
    {
        match self.get(k) {
            Some(v) => *v,
            None => U256::zero(),
        }
    }
}

proof fn lemma_assoc_len<K: Key, V>(keys: Seq<K>, vals: Seq<V>)
    requires
        keys.len() == vals.len(),
        distinct(keys),
    ensures
        assoc(keys, vals).dom().finite(),
        assoc(keys, vals).dom().len() == keys.len(),
    decreases keys.len(),
{
    if keys.len() > 0 {
        assert(distinct(keys.drop_last())) by {
            assert forall|a: int, b: int| 0 <= a < b < keys.drop_last().len() implies keys.drop_last()[a].id()
                != keys.drop_last()[b].id() by {
                assert(keys[a].id() != keys[b].id());
            }
        }
        lemma_assoc_len(keys.drop_last(), vals.drop_last());
        lemma_assoc_dom(keys.drop_last(), vals.drop_last(), keys.last().id());
        if assoc(keys.drop_last(), vals.drop_last()).contains_key(keys.last().id()) {
            let i = choose|i: int|
                0 <= i < keys.len() - 1 && keys.drop_last()[i].id() == keys.last().id();
            assert(keys[i].id() == keys[keys.len() - 1].id());
        }
    }
}

} // verus!
