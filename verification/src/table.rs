//! A table that finds a value by its key and holds each key once.
use vstd::prelude::*;

verus! {

/// A key: two keys with the same id are the same key.
pub trait Key: Sized {
    type Id;

    spec fn id(&self) -> Self::Id;

    fn same_key(&self, other: &Self) -> (result: bool)
        ensures
            result == (self.id() == other.id()),
    ;
}

impl Key for String {
    type Id = Seq<char>;

    open spec fn id(&self) -> Seq<char> {
        self@
    }

    fn same_key(&self, other: &String) -> (result: bool) {
        *self == *other
    }
}

impl Key for u64 {
    type Id = u64;

    open spec fn id(&self) -> u64 {
        *self
    }

    fn same_key(&self, other: &u64) -> (result: bool) {
        *self == *other
    }
}

/// Keys with their values, in the order in which the keys came.
#[derive(Clone, Debug, PartialEq, Eq)]
pub struct Table<K, V> {
    pub entries: Vec<(K, V)>,
}

impl<K: Key, V> Table<K, V> {
    /// The ids of the keys, in order.
    pub open spec fn ids(self) -> Seq<K::Id> {
        Seq::new(self.entries@.len(), |i: int| self.entries@[i].0.id())
    }

    /// Each key is held once.
    pub open spec fn wf(self) -> bool {
        self.ids().no_duplicates()
    }

    /// The entry at `i` has this key.
    pub open spec fn at(self, id: K::Id, i: int) -> bool {
        0 <= i < self.entries@.len() && self.entries@[i].0.id() == id
    }

    pub open spec fn has(self, id: K::Id) -> bool {
        exists|i: int| #[trigger] self.at(id, i)
    }

    /// The value of each key.
    pub open spec fn map(self) -> Map<K::Id, V> {
        Map::new(
            |id: K::Id| self.has(id),
            |id: K::Id| self.entries@[choose|i: int| #[trigger] self.at(id, i)].1,
        )
    }

    /// In a table each entry is the one that its key finds.
    pub proof fn entry_is_found(self, i: int)
        requires
            self.wf(),
            0 <= i < self.entries@.len(),
        ensures
            self.map().contains_key(self.entries@[i].0.id()),
            self.map()[self.entries@[i].0.id()] == self.entries@[i].1,
    {
        let id = self.entries@[i].0.id();
        assert(self.at(id, i));
        let j = choose|j: int| #[trigger] self.at(id, j);
        assert(self.ids()[i] == id && self.ids()[j] == id);
    }

    /// The first `n` keys with their values.
    pub open spec fn first(self, n: int) -> Map<K::Id, V> {
        Map::new(
            |id: K::Id| exists|i: int| i < n && #[trigger] self.at(id, i),
            |id: K::Id| self.map()[id],
        )
    }

    /// One more entry.
    pub proof fn first_grows(self, n: int)
        requires
            self.wf(),
            0 <= n < self.entries@.len(),
        ensures
            self.first(n + 1) == self.first(n).insert(
                self.entries@[n].0.id(),
                self.entries@[n].1,
            ),
            !self.first(n).contains_key(self.entries@[n].0.id()),
    {
        let id = self.entries@[n].0.id();
        self.entry_is_found(n);
        assert(self.at(id, n));
        assert forall|other: K::Id| #[trigger] self.first(n + 1).contains_key(other) == (other == id
            || self.first(n).contains_key(other)) by {
            if self.first(n + 1).contains_key(other) {
                let i = choose|i: int| i < n + 1 && #[trigger] self.at(other, i);
                if i < n {
                    assert(i < n && self.at(other, i));
                }
            }
            if self.first(n).contains_key(other) {
                let i = choose|i: int| i < n && #[trigger] self.at(other, i);
                assert(i < n + 1 && self.at(other, i));
            }
        }
        if self.first(n).contains_key(id) {
            let i = choose|i: int| i < n && #[trigger] self.at(id, i);
            assert(self.ids()[i] == id && self.ids()[n] == id);
        }
        assert(self.first(n + 1) =~= self.first(n).insert(id, self.entries@[n].1));
    }

    /// All entries.
    pub proof fn first_is_all(self)
        requires
            self.wf(),
        ensures
            self.first(self.entries@.len() as int) == self.map(),
            self.first(0) == Map::<K::Id, V>::empty(),
    {
        let n = self.entries@.len() as int;
        assert forall|id: K::Id| #[trigger] self.first(n).contains_key(id) == self.map().contains_key(
            id,
        ) by {
            if self.has(id) {
                let i = choose|i: int| #[trigger] self.at(id, i);
                assert(i < n && self.at(id, i));
            }
        }
        assert(self.first(n) =~= self.map());
        assert(self.first(0) =~= Map::<K::Id, V>::empty());
    }

    /// Takes over the entries of another table; its values count.
    pub fn extend(&mut self, other: Table<K, V>)
        requires
            old(self).wf(),
            other.wf(),
        ensures
            final(self).wf(),
            final(self).map() == old(self).map().union_prefer_right(other.map()),
    {
        let ghost whole = other;
        proof {
            whole.first_is_all();
            assert(self.map() =~= old(self).map().union_prefer_right(whole.first(0)));
        }
        for entry in it: other.entries
            invariant
                it.seq() == whole.entries@,
                whole.wf(),
                self.wf(),
                self.map() == old(self).map().union_prefer_right(whole.first(it.index() as int)),
        {
            let (key, value) = entry;
            let ghost n = it.index() as int;
            proof {
                whole.first_grows(n);
            }
            self.insert(key, value);
            assert(self.map() =~= old(self).map().union_prefer_right(whole.first(n + 1)));
        }
        proof {
            whole.first_is_all();
        }
    }

    pub fn new() -> (result: Table<K, V>)
        ensures
            result.wf(),
            result.map() == Map::<K::Id, V>::empty(),
            result.entries@.len() == 0,
    {
        let result = Table { entries: Vec::new() };
        assert(result.map() =~= Map::<K::Id, V>::empty());
        result
    }

    /// The place of a key.
    pub fn position(&self, key: &K) -> (result: Option<usize>)
        ensures
            match result {
                Some(i) => self.at(key.id(), i as int) && i < self.entries@.len(),
                None => !self.has(key.id()),
            },
    {
        let mut i: usize = 0;
        while i < self.entries.len()
            invariant
                i <= self.entries@.len(),
                forall|j: int| 0 <= j < i ==> !self.at(key.id(), j),
            decreases self.entries@.len() - i,
        {
            if self.entries[i].0.same_key(key) {
                assert(self.at(key.id(), i as int));
                return Some(i);
            }
            i += 1;
        }
        None
    }

    pub fn contains(&self, key: &K) -> (result: bool)
        ensures
            result == self.map().contains_key(key.id()),
    {
        self.position(key).is_some()
    }

    pub fn get(&self, key: &K) -> (result: Option<&V>)
        requires
            self.wf(),
        ensures
            match result {
                Some(value) => self.map().contains_key(key.id()) && *value == self.map()[key.id()],
                None => !self.map().contains_key(key.id()),
            },
    {
        match self.position(key) {
            Some(i) => {
                proof {
                    self.entry_is_found(i as int);
                }
                Some(&self.entries[i].1)
            },
            None => None,
        }
    }

    /// Sets the value of a key.
    pub fn insert(&mut self, key: K, value: V)
        requires
            old(self).wf(),
        ensures
            final(self).wf(),
            final(self).map() == old(self).map().insert(key.id(), value),
    {
        let ghost before = *self;
        match self.position(&key) {
            Some(i) => {
                let ghost id = key.id();
                let ghost stored = value;
                self.entries.set(i, (key, value));
                proof {
                    assert(self.ids() =~= before.ids());
                    assert forall|other: K::Id| #[trigger] self.has(other) == before.has(other) by {
                        if self.has(other) {
                            let j = choose|j: int| #[trigger] self.at(other, j);
                            assert(self.ids()[j] == before.ids()[j]);
                            assert(before.at(other, j));
                        }
                        if before.has(other) {
                            let j = choose|j: int| #[trigger] before.at(other, j);
                            assert(self.ids()[j] == before.ids()[j]);
                            assert(self.at(other, j));
                        }
                    }
                    assert forall|other: K::Id| #[trigger] self.has(other) implies self.map()[other]
                        == before.map().insert(id, stored)[other] by {
                        let j = choose|j: int| #[trigger] self.at(other, j);
                        self.entry_is_found(j);
                        assert(self.ids()[j] == before.ids()[j]);
                        before.entry_is_found(j);
                        assert(self.ids()[i as int] == id);
                        if other == id {
                            assert(j == i);
                        }
                    }
                    assert(self.map() =~= before.map().insert(id, stored));
                }
            },
            None => {
                let ghost id = key.id();
                let ghost stored = value;
                self.entries.push((key, value));
                proof {
                    let n = before.entries@.len() as int;
                    assert forall|j: int, k: int|
                        0 <= j < k < self.ids().len() implies self.ids()[j] != self.ids()[k] by {
                        assert(self.ids()[j] == before.ids()[j]);
                        if k == n {
                            if self.ids()[j] == id {
                                assert(before.at(id, j));
                            }
                        } else {
                            assert(self.ids()[k] == before.ids()[k]);
                        }
                    }
                    assert(self.at(id, n));
                    assert forall|other: K::Id| #[trigger] self.has(other) == (other == id
                        || before.has(other)) by {
                        if self.has(other) {
                            let j = choose|j: int| #[trigger] self.at(other, j);
                            if j < n {
                                assert(before.at(other, j));
                            }
                        }
                        if before.has(other) {
                            let j = choose|j: int| #[trigger] before.at(other, j);
                            assert(self.at(other, j));
                        }
                    }
                    assert forall|other: K::Id| #[trigger] self.has(other) implies self.map()[other]
                        == before.map().insert(id, stored)[other] by {
                        let j = choose|j: int| #[trigger] self.at(other, j);
                        self.entry_is_found(j);
                        if j < n {
                            before.entry_is_found(j);
                        }
                    }
                    assert(self.map() =~= before.map().insert(id, stored));
                }
            },
        }
    }

    /// Takes a key and its value out.
    pub fn remove(&mut self, key: &K) -> (result: Option<V>)
        requires
            old(self).wf(),
        ensures
            final(self).wf(),
            final(self).map() == old(self).map().remove(key.id()),
            match result {
                Some(value) => old(self).map().contains_key(key.id()) && value == old(
                    self,
                ).map()[key.id()],
                None => !old(self).map().contains_key(key.id()),
            },
    {
        let ghost before = *self;
        match self.position(key) {
            Some(i) => {
                let (_, value) = self.entries.remove(i);
                proof {
                    let id = key.id();
                    before.entry_is_found(i as int);
                    assert forall|j: int| 0 <= j < self.entries@.len() implies self.entries@[j]
                        == before.entries@[if j < i {
                        j
                    } else {
                        j + 1
                    }] by {}
                    assert forall|j: int, k: int|
                        0 <= j < k < self.ids().len() implies self.ids()[j] != self.ids()[k] by {
                        let a = if j < i {
                            j
                        } else {
                            j + 1
                        };
                        let b = if k < i {
                            k
                        } else {
                            k + 1
                        };
                        assert(before.ids()[a] == self.ids()[j]);
                        assert(before.ids()[b] == self.ids()[k]);
                    }
                    assert forall|other: K::Id| #[trigger] self.has(other) == (other != id
                        && before.has(other)) by {
                        if self.has(other) {
                            let j = choose|j: int| #[trigger] self.at(other, j);
                            let a = if j < i {
                                j
                            } else {
                                j + 1
                            };
                            assert(before.at(other, a));
                            assert(before.ids()[a] == other && before.ids()[i as int] == id);
                        }
                        if before.has(other) && other != id {
                            let a = choose|a: int| #[trigger] before.at(other, a);
                            let j = if a < i {
                                a
                            } else {
                                a - 1
                            };
                            assert(self.at(other, j));
                        }
                    }
                    assert forall|other: K::Id| #[trigger] self.has(other) implies self.map()[other]
                        == before.map()[other] by {
                        let j = choose|j: int| #[trigger] self.at(other, j);
                        let a = if j < i {
                            j
                        } else {
                            j + 1
                        };
                        self.entry_is_found(j);
                        before.entry_is_found(a);
                    }
                    assert(self.map() =~= before.map().remove(id));
                }
                Some(value)
            },
            None => {
                assert(self.map() =~= before.map().remove(key.id()));
                None
            },
        }
    }
}

/// Different places are no more than there are places.
pub proof fn places_are_few(places: Seq<int>, n: int)
    requires
        n >= 0,
        places.no_duplicates(),
        forall|k: int| 0 <= k < places.len() ==> 0 <= #[trigger] places[k] < n,
    ensures
        places.len() <= n,
{
    places.unique_seq_to_set();
    vstd::set_lib::lemma_int_range(0, n);
    assert(places.to_set().subset_of(vstd::set_lib::set_int_range(0, n))) by {
        assert forall|x: int| places.to_set().contains(x) implies vstd::set_lib::set_int_range(
            0,
            n,
        ).contains(x) by {
            let k = places.index_of(x);
            assert(places[k] == x);
        }
    }
    vstd::set_lib::lemma_len_subset(places.to_set(), vstd::set_lib::set_int_range(0, n));
}

/// What was put into a table is found under its key, and nothing else changes; what was taken
/// out is gone.
pub proof fn what_is_put_in_is_found<K: Key, V>(
    before: Table<K, V>,
    put: &mut Table<K, V>,
    key: K,
    value: V,
    taken: &mut Table<K, V>,
    out: Option<V>,
    other: K,
    had: bool,
    has: bool,
    still: bool,
)
    requires
        before.wf(),
        *old(put) == before,
        call_ensures(Table::<K, V>::insert, (put, key, value), ()),
        *old(taken) == *final(put),
        call_ensures(Table::<K, V>::remove, (taken, &key), out),
        call_ensures(Table::<K, V>::contains, (&before, &other), had),
        call_ensures(Table::<K, V>::contains, (&*final(put), &other), has),
        call_ensures(Table::<K, V>::contains, (&*final(taken), &other), still),
    ensures
        out == Some(value),
        other.id() == key.id() ==> has && !still,
        other.id() != key.id() ==> has == had && still == had,
{
}

} // verus!
