//! A small map from peer ids to values.
//!
//! The entries are kept in the order in which their keys first came in, and
//! no key occurs twice.  Contracts speak of this sequence of entries, so
//! that what a map holds, and in which order it is walked, is the same in
//! every run.

use vstd::prelude::*;
use crate::node::PeerId;

verus! {

/// Whether `entries` has an entry for `id`.
pub open spec fn has_key<T>(entries: Seq<(PeerId, T)>, id: PeerId) -> bool {
    exists|i: int| 0 <= i < entries.len() && (#[trigger] entries[i]).0 == id
}

/// A place at which `entries` holds `id`, if there is one.
pub open spec fn key_index<T>(entries: Seq<(PeerId, T)>, id: PeerId) -> int {
    choose|i: int| 0 <= i < entries.len() && (#[trigger] entries[i]).0 == id
}

/// Whether no key occurs twice in `entries`.
pub open spec fn distinct_keys<T>(entries: Seq<(PeerId, T)>) -> bool {
    forall|i: int, j: int|
        0 <= i < j < entries.len() ==> (#[trigger] entries[i]).0 != (#[trigger] entries[j]).0
}

/// The value that `entries` holds for `id`.
pub open spec fn value_of<T>(entries: Seq<(PeerId, T)>, id: PeerId) -> Option<T> {
    if has_key(entries, id) {
        Some(entries[key_index(entries, id)].1)
    } else {
        None
    }
}

/// `entries` with `value` for `id`: in the place of the entry that `id` had,
/// or behind all others if it had none.
pub open spec fn with_entry<T>(entries: Seq<(PeerId, T)>, id: PeerId, value: T) -> Seq<(PeerId, T)> {
    if has_key(entries, id) {
        entries.update(key_index(entries, id), (id, value))
    } else {
        entries.push((id, value))
    }
}

/// `entries` without the entry for `id`; the others keep their order.
pub open spec fn without_key<T>(entries: Seq<(PeerId, T)>, id: PeerId) -> Seq<(PeerId, T)> {
    if has_key(entries, id) {
        entries.remove(key_index(entries, id))
    } else {
        entries
    }
}

/// The keys of `entries`, in their order.
pub open spec fn keys_of<T>(entries: Seq<(PeerId, T)>) -> Seq<PeerId> {
    Seq::new(entries.len(), |i: int| entries[i].0)
}

/// Where keys are distinct, the place of a key is the one place that has it.
pub proof fn lemma_key_index_is<T>(entries: Seq<(PeerId, T)>, id: PeerId, i: int)
    requires
        distinct_keys(entries),
        0 <= i < entries.len(),
        entries[i].0 == id,
    ensures
        has_key(entries, id),
        key_index(entries, id) == i,
{
    let k = key_index(entries, id);
    if k < i {
        assert(entries[k].0 != entries[i].0);
    } else if i < k {
        assert(entries[i].0 != entries[k].0);
    }
}

/// Setting a key keeps the keys distinct, and the key then has the value.
pub proof fn lemma_with_entry<T>(entries: Seq<(PeerId, T)>, id: PeerId, value: T)
    requires
        distinct_keys(entries),
    ensures
        distinct_keys(with_entry(entries, id, value)),
        has_key(with_entry(entries, id, value), id),
        value_of(with_entry(entries, id, value), id) == Some(value),
        forall|other: PeerId|
            other != id ==> has_key(with_entry(entries, id, value), other) == has_key(entries, other)
                && value_of(with_entry(entries, id, value), other) == value_of(entries, other),
        with_entry(entries, id, value).len() == if has_key(entries, id) {
            entries.len()
        } else {
            entries.len() + 1
        },
{
    let after = with_entry(entries, id, value);
    let place = if has_key(entries, id) {
        key_index(entries, id)
    } else {
        entries.len() as int
    };
    assert(after[place] == (id, value));
    assert forall|i: int| 0 <= i < after.len() && i != place implies #[trigger] after[i]
        == entries[i] by {}
    assert forall|i: int, j: int| 0 <= i < j < after.len() implies (#[trigger] after[i]).0 != (
    #[trigger] after[j]).0 by {
        if i != place && j != place {
            assert(entries[i].0 != entries[j].0);
        } else if i == place {
            assert(entries[j].0 != id);
        } else {
            assert(entries[i].0 != id);
        }
    }
    lemma_key_index_is(after, id, place);
    assert forall|other: PeerId| other != id implies has_key(after, other) == has_key(entries, other)
        && value_of(after, other) == value_of(entries, other) by {
        if has_key(entries, other) {
            let k = key_index(entries, other);
            assert(after[k] == entries[k]);
            lemma_key_index_is(after, other, k);
        }
        if has_key(after, other) {
            let k = key_index(after, other);
            assert(after[k] == entries[k]);
            lemma_key_index_is(entries, other, k);
        }
    }
}

/// Dropping a key keeps the keys distinct and leaves the other keys alone.
pub proof fn lemma_without_key<T>(entries: Seq<(PeerId, T)>, id: PeerId)
    requires
        distinct_keys(entries),
    ensures
        distinct_keys(without_key(entries, id)),
        !has_key(without_key(entries, id), id),
        forall|other: PeerId|
            other != id ==> has_key(without_key(entries, id), other) == has_key(entries, other)
                && value_of(without_key(entries, id), other) == value_of(entries, other),
        without_key(entries, id).len() == if has_key(entries, id) {
            entries.len() - 1
        } else {
            entries.len() as int
        },
{
    let after = without_key(entries, id);
    if has_key(entries, id) {
        let place = key_index(entries, id);
        assert forall|i: int| 0 <= i < after.len() implies #[trigger] after[i] == entries[if i
            < place {
            i
        } else {
            i + 1
        }] by {}
        assert forall|i: int, j: int| 0 <= i < j < after.len() implies (#[trigger] after[i]).0 != (
        #[trigger] after[j]).0 by {
            let i0 = if i < place {
                i
            } else {
                i + 1
            };
            let j0 = if j < place {
                j
            } else {
                j + 1
            };
            assert(entries[i0].0 != entries[j0].0);
        }
        if has_key(after, id) {
            let k = key_index(after, id);
            let k0 = if k < place {
                k
            } else {
                k + 1
            };
            assert(entries[k0].0 == id);
            lemma_key_index_is(entries, id, k0);
        }
        assert forall|other: PeerId| other != id implies has_key(after, other) == has_key(
            entries,
            other,
        ) && value_of(after, other) == value_of(entries, other) by {
            if has_key(entries, other) {
                let k = key_index(entries, other);
                let k1 = if k < place {
                    k
                } else {
                    k - 1
                };
                assert(after[k1] == entries[k]);
                lemma_key_index_is(after, other, k1);
            }
            if has_key(after, other) {
                let k = key_index(after, other);
                let k0 = if k < place {
                    k
                } else {
                    k + 1
                };
                assert(after[k] == entries[k0]);
                lemma_key_index_is(entries, other, k0);
            }
        }
    }
}

/// A map from peer ids to values of type `T`.
#[derive(Debug)]
pub struct PeerMap<T> {
    entries: Vec<(PeerId, T)>,
}

impl<T> PeerMap<T> {
    /// The entries of the map, in their order.
    pub closed spec fn view(&self) -> Seq<(PeerId, T)> {
        self.entries@
    }

    /// What holds of every map: no key occurs twice.
    pub open spec fn wf(&self) -> bool {
        distinct_keys(self@)
    }

    /// The empty map.
    pub fn new() -> (map: Self)
        ensures
            map@ == Seq::<(PeerId, T)>::empty(),
            map.wf(),
    {
        PeerMap { entries: Vec::new() }
    }

    /// Number of entries.
    pub fn len(&self) -> (n: usize)
        ensures
            n == self@.len(),
    {
        self.entries.len()
    }

    /// The place of the entry for `id`.
    pub fn position(&self, id: PeerId) -> (place: Option<usize>)
        requires
            self.wf(),
        ensures
            place is Some <==> has_key(self@, id),
            place matches Some(i) ==> i == key_index(self@, id) && i < self@.len(),
    {
        let mut i: usize = 0;
        while i < self.entries.len()
            invariant
                i <= self.entries.len(),
                self.wf(),
                forall|j: int| 0 <= j < i ==> (#[trigger] self@[j]).0 != id,
            decreases self.entries.len() - i,
        {
            if self.entries[i].0 == id {
                proof {
                    lemma_key_index_is(self@, id, i as int);
                }
                return Some(i);
            }
            i = i + 1;
        }
        None
    }

    /// Whether the map has an entry for `id`.
    pub fn contains_key(&self, id: PeerId) -> (yes: bool)
        requires
            self.wf(),
        ensures
            yes == has_key(self@, id),
    {
        self.position(id).is_some()
    }

    /// The value for `id`.
    pub fn get(&self, id: PeerId) -> (value: Option<&T>)
        requires
            self.wf(),
        ensures
            value is Some <==> has_key(self@, id),
            value matches Some(v) ==> value_of(self@, id) == Some(*v),
    {
        match self.position(id) {
            Some(i) => Some(&self.entries[i].1),
            None => None,
        }
    }

    /// The key at place `i`.
    pub fn key_at(&self, i: usize) -> (id: PeerId)
        requires
            i < self@.len(),
        ensures
            id == self@[i as int].0,
    {
        self.entries[i].0
    }

    /// The value at place `i`.
    pub fn value_at(&self, i: usize) -> (value: &T)
        requires
            i < self@.len(),
        ensures
            *value == self@[i as int].1,
    {
        &self.entries[i].1
    }

    /// Sets the value for `id` and hands back the one that it had.
    pub fn insert(&mut self, id: PeerId, value: T) -> (before: Option<T>)
        requires
            old(self).wf(),
        ensures
            final(self).wf(),
            final(self)@ == with_entry(old(self)@, id, value),
            before == value_of(old(self)@, id),
    {
        proof {
            lemma_with_entry(self@, id, value);
        }
        match self.position(id) {
            Some(i) => {
                let had = self.entries.remove(i);
                self.entries.insert(i, (id, value));
                assert(self@ =~= with_entry(old(self)@, id, value));
                Some(had.1)
            },
            None => {
                self.entries.push((id, value));
                None
            },
        }
    }

    /// Takes the entry for `id` out of the map, if there is one.
    pub fn remove(&mut self, id: PeerId) -> (before: Option<T>)
        requires
            old(self).wf(),
        ensures
            final(self).wf(),
            final(self)@ == without_key(old(self)@, id),
            before == value_of(old(self)@, id),
    {
        proof {
            lemma_without_key(self@, id);
        }
        match self.position(id) {
            Some(i) => {
                let had = self.entries.remove(i);
                Some(had.1)
            },
            None => None,
        }
    }

    /// Takes the entry at place `i` out of the map.
    pub fn take_at(&mut self, i: usize) -> (entry: (PeerId, T))
        requires
            old(self).wf(),
            i < old(self)@.len(),
        ensures
            final(self).wf(),
            entry == old(self)@[i as int],
            final(self)@ == old(self)@.remove(i as int),
            !has_key(final(self)@, entry.0),
    {
        proof {
            lemma_key_index_is(self@, self@[i as int].0, i as int);
            lemma_without_key(self@, self@[i as int].0);
        }
        self.entries.remove(i)
    }

    /// Puts an entry with a key that the map does not have at place `i`.
    pub fn put_at(&mut self, i: usize, id: PeerId, value: T)
        requires
            old(self).wf(),
            i <= old(self)@.len(),
            !has_key(old(self)@, id),
        ensures
            final(self).wf(),
            final(self)@ == old(self)@.insert(i as int, (id, value)),
    {
        self.entries.insert(i, (id, value));
        proof {
            let before = old(self)@;
            let after = self@;
            assert forall|a: int, b: int| 0 <= a < b < after.len() implies (#[trigger] after[a]).0
                != (#[trigger] after[b]).0 by {
                let a0 = if a < i {
                    a
                } else {
                    a - 1
                };
                let b0 = if b < i {
                    b
                } else {
                    b - 1
                };
                if a == i {
                    assert(before[b0].0 != id);
                } else if b == i {
                    assert(before[a0].0 != id);
                } else {
                    assert(before[a0].0 != before[b0].0);
                }
            }
        }
    }

    /// The keys, in the order of the entries.
    pub fn keys(&self) -> (ids: Vec<PeerId>)
        ensures
            ids@ == keys_of(self@),
    {
        let mut ids: Vec<PeerId> = Vec::new();
        let mut i: usize = 0;
        while i < self.entries.len()
            invariant
                i <= self.entries.len(),
                ids@ == keys_of(self@).subrange(0, i as int),
            decreases self.entries.len() - i,
        {
            ids.push(self.entries[i].0);
            assert(ids@ =~= keys_of(self@).subrange(0, i + 1));
            i = i + 1;
        }
        assert(ids@ =~= keys_of(self@));
        ids
    }
}

} // verus!
