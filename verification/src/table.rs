//! A table keyed by strings that keeps its entries in the order in which
//! their keys first came.

use vstd::prelude::*;
use vstd::string::*;

use crate::text::str_eq;

verus! {

/// No entry of `entries` before `at` has the key.
pub open spec fn absent_before<T>(entries: Seq<(Seq<char>, T)>, key: Seq<char>, at: int) -> bool {
    forall|j: int| 0 <= j < at && j < entries.len() ==> (#[trigger] entries[j]).0 != key
}

/// No entry of `entries` has the key.
pub open spec fn lacks<T>(entries: Seq<(Seq<char>, T)>, key: Seq<char>) -> bool {
    absent_before(entries, key, entries.len() as int)
}

/// `at` is the first place in `entries` where the key stands.
pub open spec fn first_at<T>(entries: Seq<(Seq<char>, T)>, key: Seq<char>, at: int) -> bool {
    &&& 0 <= at < entries.len()
    &&& entries[at].0 == key
    &&& absent_before(entries, key, at)
}

/// The first place in `entries` where the key stands.
pub open spec fn position<T>(entries: Seq<(Seq<char>, T)>, key: Seq<char>) -> Option<int> {
    if exists|at: int| first_at(entries, key, at) {
        Some(choose|at: int| first_at(entries, key, at))
    } else {
        None
    }
}

/// What `entries` holds under the key.
pub open spec fn lookup<T>(entries: Seq<(Seq<char>, T)>, key: Seq<char>) -> Option<T> {
    match position(entries, key) {
        Some(at) => Some(entries[at].1),
        None => None,
    }
}

/// `entries` with `value` under the key: in the place of what stood there,
/// or at the end where the key is new.
pub open spec fn inserted<T>(entries: Seq<(Seq<char>, T)>, key: Seq<char>, value: T) -> Seq<
    (Seq<char>, T),
> {
    match position(entries, key) {
        Some(at) => entries.update(at, (key, value)),
        None => entries.push((key, value)),
    }
}

/// `entries` without what stands under the key.
pub open spec fn removed<T>(entries: Seq<(Seq<char>, T)>, key: Seq<char>) -> Seq<(Seq<char>, T)> {
    match position(entries, key) {
        Some(at) => entries.remove(at),
        None => entries,
    }
}

/// No key stands twice in `entries`.
pub open spec fn distinct_keys<T>(entries: Seq<(Seq<char>, T)>) -> bool {
    forall|i: int, j: int|
        0 <= i < j < entries.len() ==> (#[trigger] entries[i]).0 != (#[trigger] entries[j]).0
}

/// The place that [`position`] names is the one at which the key was found.
pub proof fn lemma_position_found<T>(entries: Seq<(Seq<char>, T)>, key: Seq<char>, at: int)
    requires
        first_at(entries, key, at),
    ensures
        position(entries, key) == Some(at),
{
    let chosen = choose|at: int| first_at(entries, key, at);
    assert(first_at(entries, key, chosen));
    if chosen < at {
        assert(entries[chosen].0 != key);
    }
    if at < chosen {
        assert(entries[at].0 != key);
    }
}

/// A key that no entry has is at no place.
pub proof fn lemma_position_none<T>(entries: Seq<(Seq<char>, T)>, key: Seq<char>)
    requires
        lacks(entries, key),
    ensures
        position(entries, key) is None,
{
    if exists|at: int| first_at(entries, key, at) {
        let chosen = choose|at: int| first_at(entries, key, at);
        assert(entries[chosen].0 != key);
    }
}

/// [`position`] names the first place of the key, or there is none.
pub proof fn lemma_position<T>(entries: Seq<(Seq<char>, T)>, key: Seq<char>)
    ensures
        match position(entries, key) {
            Some(at) => first_at(entries, key, at),
            None => lacks(entries, key),
        },
{
    if exists|at: int| first_at(entries, key, at) {
    } else {
        lemma_lacks_or_first(entries, key, entries.len() as int);
    }
}

proof fn lemma_lacks_or_first<T>(entries: Seq<(Seq<char>, T)>, key: Seq<char>, upto: int)
    requires
        0 <= upto <= entries.len(),
    ensures
        absent_before(entries, key, upto) || exists|at: int| first_at(entries, key, at),
    decreases upto,
{
    if upto > 0 {
        lemma_lacks_or_first(entries, key, upto - 1);
        if absent_before(entries, key, upto - 1) && entries[upto - 1].0 == key {
            assert(first_at(entries, key, upto - 1));
        }
    }
}

/// What was put under a key is found there.
pub proof fn lemma_lookup_inserted<T>(entries: Seq<(Seq<char>, T)>, key: Seq<char>, value: T)
    ensures
        lookup(inserted(entries, key, value), key) == Some(value),
        forall|other: Seq<char>|
            other != key ==> #[trigger] lookup(inserted(entries, key, value), other) == lookup(
                entries,
                other,
            ),
        distinct_keys(entries) ==> distinct_keys(inserted(entries, key, value)),
        inserted(entries, key, value).len() == if lookup(entries, key) is Some {
            entries.len()
        } else {
            entries.len() + 1
        },
{
    let after = inserted(entries, key, value);
    lemma_position(entries, key);
    match position(entries, key) {
        Some(at) => {
            assert(first_at(after, key, at));
            lemma_position_found(after, key, at);
        },
        None => {
            assert(first_at(after, key, entries.len() as int));
            lemma_position_found(after, key, entries.len() as int);
        },
    }
    assert forall|other: Seq<char>| other != key implies #[trigger] lookup(after, other) == lookup(
        entries,
        other,
    ) by {
        lemma_position(entries, other);
        match position(entries, other) {
            Some(place) => {
                assert(after[place] == entries[place]);
                assert(first_at(after, other, place)) by {
                    assert forall|j: int| 0 <= j < place && j < after.len() implies (
                    #[trigger] after[j]).0 != other by {
                        assert(entries[j].0 != other);
                    }
                }
                lemma_position_found(after, other, place);
            },
            None => {
                assert(lacks(after, other)) by {
                    assert forall|j: int| 0 <= j < after.len() implies (#[trigger] after[j]).0
                        != other by {
                        if j < entries.len() {
                            assert(entries[j].0 != other);
                        }
                    }
                }
                lemma_position_none(after, other);
            },
        }
    }
    if distinct_keys(entries) {
        assert forall|i: int, j: int| 0 <= i < j < after.len() implies (#[trigger] after[i]).0 != (
        #[trigger] after[j]).0 by {
            match position(entries, key) {
                Some(at) => {
                    assert(entries[i].0 != entries[j].0);
                    if i == at {
                        assert(entries[i].0 == key);
                    }
                    if j == at {
                        assert(entries[j].0 == key);
                    }
                },
                None => {
                    if j < entries.len() {
                        assert(entries[i].0 != entries[j].0);
                    } else {
                        assert(entries[i].0 != key);
                    }
                },
            }
        }
    }
}

/// What was taken out is no longer found, and the rest stays.
pub proof fn lemma_lookup_removed<T>(entries: Seq<(Seq<char>, T)>, key: Seq<char>)
    ensures
        distinct_keys(entries) ==> lookup(removed(entries, key), key) is None,
        forall|other: Seq<char>|
            other != key ==> #[trigger] lookup(removed(entries, key), other) == lookup(
                entries,
                other,
            ),
        distinct_keys(entries) ==> distinct_keys(removed(entries, key)),
        removed(entries, key).len() == if lookup(entries, key) is Some {
            entries.len() - 1
        } else {
            entries.len() as int
        },
{
    let after = removed(entries, key);
    lemma_position(entries, key);
    match position(entries, key) {
        Some(at) => {
            assert forall|j: int| 0 <= j < after.len() implies #[trigger] after[j] == entries[if j
                < at {
                j
            } else {
                j + 1
            }] by {}
            if distinct_keys(entries) {
                assert(lacks(after, key)) by {
                    assert forall|j: int| 0 <= j < after.len() implies (#[trigger] after[j]).0
                        != key by {
                        let from = if j < at {
                            j
                        } else {
                            j + 1
                        };
                        assert(after[j] == entries[from]);
                        if from < at {
                            assert(entries[from].0 != entries[at].0);
                        } else {
                            assert(entries[at].0 != entries[from].0);
                        }
                    }
                }
                lemma_position_none(after, key);
                assert forall|i: int, j: int| 0 <= i < j < after.len() implies (
                #[trigger] after[i]).0 != (#[trigger] after[j]).0 by {
                    let from_i = if i < at {
                        i
                    } else {
                        i + 1
                    };
                    let from_j = if j < at {
                        j
                    } else {
                        j + 1
                    };
                    assert(after[i] == entries[from_i]);
                    assert(after[j] == entries[from_j]);
                    assert(entries[from_i].0 != entries[from_j].0);
                }
            }
            assert forall|other: Seq<char>| other != key implies #[trigger] lookup(after, other)
                == lookup(entries, other) by {
                lemma_position(entries, other);
                match position(entries, other) {
                    Some(place) => {
                        let to = if place < at {
                            place
                        } else {
                            place - 1
                        };
                        assert(after[to] == entries[place]);
                        assert(first_at(after, other, to)) by {
                            assert forall|j: int| 0 <= j < to && j < after.len() implies (
                            #[trigger] after[j]).0 != other by {
                                let from = if j < at {
                                    j
                                } else {
                                    j + 1
                                };
                                assert(after[j] == entries[from]);
                                assert(entries[from].0 != other);
                            }
                        }
                        lemma_position_found(after, other, to);
                    },
                    None => {
                        assert(lacks(after, other)) by {
                            assert forall|j: int| 0 <= j < after.len() implies (
                            #[trigger] after[j]).0 != other by {
                                let from = if j < at {
                                    j
                                } else {
                                    j + 1
                                };
                                assert(after[j] == entries[from]);
                                assert(entries[from].0 != other);
                            }
                        }
                        lemma_position_none(after, other);
                    },
                }
            }
        },
        None => {},
    }
}

/// A table from strings to values of `V`.
pub struct Table<V> {
    entries: Vec<(String, V)>,
}

/// An entry as the contracts see it.
pub open spec fn entry_view<V: View>(entry: (String, V)) -> (Seq<char>, V::V) {
    (entry.0@, entry.1@)
}

impl<V: View> View for Table<V> {
    type V = Seq<(Seq<char>, V::V)>;

    open spec fn view(&self) -> Seq<(Seq<char>, V::V)> {
        self.items().map_values(|entry: (String, V)| entry_view(entry))
    }
}

impl<V: View> Table<V> {
    /// The entries as they are held.
    pub closed spec fn items(&self) -> Seq<(String, V)> {
        self.entries@
    }

    /// No key stands twice.
    pub open spec fn wf(&self) -> bool {
        distinct_keys(self@)
    }

    /// An empty table.
    pub fn new() -> (table: Self)
        ensures
            table@ == Seq::<(Seq<char>, V::V)>::empty(),
            table.items() == Seq::<(String, V)>::empty(),
            table.wf(),
    {
        let table = Table { entries: Vec::new() };
        assert(table@ =~= Seq::<(Seq<char>, V::V)>::empty());
        table
    }

    /// The number of entries.
    pub fn len(&self) -> (len: usize)
        ensures
            len == self@.len(),
            len == self.items().len(),
    {
        self.entries.len()
    }

    /// The place of the key.
    pub fn find(&self, key: &str) -> (found: Option<usize>)
        ensures
            match found {
                Some(at) => position(self@, key@) == Some(at as int) && at < self@.len(),
                None => position(self@, key@) is None,
            },
    {
        let mut at: usize = 0;
        while at < self.entries.len()
            invariant
                at <= self.entries.len(),
                absent_before(self@, key@, at as int),
            decreases self.entries.len() - at,
        {
            if str_eq(self.entries[at].0.as_str(), key) {
                proof {
                    assert(first_at(self@, key@, at as int));
                    lemma_position_found(self@, key@, at as int);
                }
                return Some(at);
            }
            at = at + 1;
        }
        proof {
            lemma_position_none(self@, key@);
        }
        None
    }

    /// Whether the key has an entry.
    pub fn contains_key(&self, key: &str) -> (present: bool)
        ensures
            present == (lookup(self@, key@) is Some),
    {
        self.find(key).is_some()
    }

    /// The key of the entry at a place.
    pub fn key_at(&self, at: usize) -> (key: &String)
        requires
            at < self@.len(),
        ensures
            key@ == self@[at as int].0,
            *key == self.items()[at as int].0,
    {
        &self.entries[at].0
    }

    /// The value of the entry at a place.
    pub fn value_at(&self, at: usize) -> (value: &V)
        requires
            at < self@.len(),
        ensures
            value@ == self@[at as int].1,
            *value == self.items()[at as int].1,
    {
        &self.entries[at].1
    }

    /// The value of the entry at a place, to be changed where it stands.
    pub fn value_mut(&mut self, at: usize) -> (value: &mut V)
        requires
            at < old(self)@.len(),
        ensures
            *value == old(self).items()[at as int].1,
            final(self).items() == old(self).items().update(
                at as int,
                (old(self).items()[at as int].0, *final(value)),
            ),
    {
        &mut self.entries[at].1
    }

    /// What stands under the key.
    pub fn get(&self, key: &str) -> (value: Option<&V>)
        ensures
            match value {
                Some(held) => lookup(self@, key@) == Some(held@) && position(self@, key@)
                    is Some && *held == self.items()[position(self@, key@).unwrap()].1,
                None => lookup(self@, key@) is None,
            },
    {
        match self.find(key) {
            Some(at) => Some(&self.entries[at].1),
            None => None,
        }
    }

    /// Puts `value` under the key: in the place of what stood there, or at
    /// the end.
    pub fn insert(&mut self, key: String, value: V)
        ensures
            final(self)@ == inserted(old(self)@, key@, value@),
            old(self).wf() ==> final(self).wf(),
            match position(old(self)@, key@) {
                Some(at) => final(self).items() == old(self).items().update(at, (key, value)),
                None => final(self).items() == old(self).items().push((key, value)),
            },
    {
        proof {
            lemma_lookup_inserted(self@, key@, value@);
        }
        match self.find(key.as_str()) {
            Some(at) => {
                self.entries[at] = (key, value);
                assert(self@ =~= inserted(old(self)@, key@, value@));
            },
            None => {
                self.entries.push((key, value));
                assert(self@ =~= inserted(old(self)@, key@, value@));
            },
        }
    }

    /// Takes out what stands under the key.
    pub fn remove(&mut self, key: &str) -> (taken: Option<V>)
        ensures
            final(self)@ == removed(old(self)@, key@),
            old(self).wf() ==> final(self).wf(),
            match taken {
                Some(value) => lookup(old(self)@, key@) == Some(value@) && position(
                    old(self)@,
                    key@,
                ) is Some && value == old(self).items()[position(old(self)@, key@).unwrap()].1
                    && final(self).items() == old(self).items().remove(
                    position(old(self)@, key@).unwrap(),
                ),
                None => lookup(old(self)@, key@) is None && final(self).items() == old(
                    self,
                ).items(),
            },
    {
        proof {
            lemma_lookup_removed(self@, key@);
        }
        match self.find(key) {
            Some(at) => {
                let entry = self.entries.remove(at);
                assert(self@ =~= removed(old(self)@, key@));
                Some(entry.1)
            },
            None => None,
        }
    }

    /// Takes every entry out, in order.
    pub fn take_all(&mut self) -> (taken: Vec<(String, V)>)
        ensures
            final(self)@ == Seq::<(Seq<char>, V::V)>::empty(),
            final(self).items() == Seq::<(String, V)>::empty(),
            final(self).wf(),
            taken@ == old(self).items(),
    {
        let mut taken: Vec<(String, V)> = Vec::new();
        core::mem::swap(&mut self.entries, &mut taken);
        assert(self@ =~= Seq::<(Seq<char>, V::V)>::empty());
        taken
    }
}

} // verus!
