//! A table from names to values that keeps the order in which the names were
//! first entered. It is searched from the front, which is meant for tables of
//! a few entries.

use crate::text::same_text;
use vstd::prelude::*;

verus! {

/// The position of the first entry for `key`, from position `i` on.
pub open spec fn position_from<V>(entries: Seq<(Seq<char>, V)>, key: Seq<char>, i: nat) -> Option<
    int,
>
    decreases entries.len() - i,
{
    if i >= entries.len() {
        None
    } else if entries[i as int].0 == key {
        Some(i as int)
    } else {
        position_from(entries, key, i + 1)
    }
}

/// The position of the entry for `key`.
pub open spec fn position<V>(entries: Seq<(Seq<char>, V)>, key: Seq<char>) -> Option<int> {
    position_from(entries, key, 0)
}

/// The value entered under `key`.
pub open spec fn lookup<V>(entries: Seq<(Seq<char>, V)>, key: Seq<char>) -> Option<V> {
    match position(entries, key) {
        Some(i) => Some(entries[i].1),
        None => None,
    }
}

/// The entries after `value` is entered under `key`: the last writer wins, a
/// new name goes to the end.
pub open spec fn entered<V>(entries: Seq<(Seq<char>, V)>, key: Seq<char>, value: V) -> Seq<
    (Seq<char>, V),
> {
    match position(entries, key) {
        Some(i) => entries.update(i, (key, value)),
        None => entries.push((key, value)),
    }
}

/// The entries without the one for `key`.
pub open spec fn dropped<V>(entries: Seq<(Seq<char>, V)>, key: Seq<char>) -> Seq<(Seq<char>, V)> {
    match position(entries, key) {
        Some(i) => entries.remove(i),
        None => entries,
    }
}

/// No name stands in two entries.
pub open spec fn names_distinct<V>(entries: Seq<(Seq<char>, V)>) -> bool {
    forall|i: int, j: int|
        0 <= i < entries.len() && 0 <= j < entries.len() && i != j ==> entries[i].0 != entries[j].0
}

/// Where `position_from` finds an entry, it is the first for the name.
pub proof fn lemma_position<V>(entries: Seq<(Seq<char>, V)>, key: Seq<char>, i: nat)
    ensures
        match position_from(entries, key, i) {
            Some(k) => i <= k < entries.len() && entries[k].0 == key && forall|j: int|
                i <= j < k ==> entries[j].0 != key,
            None => forall|j: int| i <= j < entries.len() ==> entries[j].0 != key,
        },
    decreases entries.len() - i,
{
    if i < entries.len() && entries[i as int].0 != key {
        lemma_position(entries, key, i + 1);
    }
}

/// Entering keeps every name in one entry, and the value is found under the
/// name.
pub proof fn law_entered_found<V>(entries: Seq<(Seq<char>, V)>, key: Seq<char>, value: V)
    requires
        names_distinct(entries),
    ensures
        names_distinct(entered(entries, key, value)),
        lookup(entered(entries, key, value), key) == Some(value),
        forall|other: Seq<char>|
            other != key ==> #[trigger] lookup(entered(entries, key, value), other) == lookup(
                entries,
                other,
            ),
{
    let after = entered(entries, key, value);
    lemma_position(entries, key, 0);
    lemma_position(after, key, 0);
    match position(entries, key) {
        Some(i) => {
            assert(after[i].0 == key);
        },
        None => {
            assert(after[entries.len() as int].0 == key);
        },
    }
    assert forall|other: Seq<char>| other != key implies #[trigger] lookup(after, other) == lookup(
        entries,
        other,
    ) by {
        lemma_position(entries, other, 0);
        lemma_position(after, other, 0);
        match position(entries, other) {
            Some(a) => {
                assert(after[a] == entries[a]);
                match position(after, other) {
                    Some(b) => {
                        if b < entries.len() {
                            assert(after[b].0 == entries[b].0);
                        }
                    },
                    None => {},
                }
            },
            None => {
                match position(after, other) {
                    Some(b) => {
                        if b < entries.len() {
                            assert(after[b].0 == entries[b].0 || after[b].0 == key);
                        }
                    },
                    None => {},
                }
            },
        }
    }
}

/// A name that was dropped is found no longer; the others are found as before.
pub proof fn law_dropped_gone<V>(entries: Seq<(Seq<char>, V)>, key: Seq<char>)
    requires
        names_distinct(entries),
    ensures
        names_distinct(dropped(entries, key)),
        lookup(dropped(entries, key), key) is None,
        forall|other: Seq<char>|
            other != key ==> #[trigger] lookup(dropped(entries, key), other) == lookup(
                entries,
                other,
            ),
{
    let after = dropped(entries, key);
    lemma_position(entries, key, 0);
    lemma_position(after, key, 0);
    match position(entries, key) {
        None => {},
        Some(i) => {
            assert forall|k: int| 0 <= k < after.len() implies after[k] == (if k < i {
                entries[k]
            } else {
                entries[k + 1]
            }) by {}
            assert forall|other: Seq<char>| other != key implies #[trigger] lookup(after, other)
                == lookup(entries, other) by {
                lemma_position(entries, other, 0);
                lemma_position(after, other, 0);
                match position(entries, other) {
                    Some(a) => {
                        let a2 = if a < i {
                            a
                        } else {
                            a - 1
                        };
                        assert(after[a2] == entries[a]);
                        match position(after, other) {
                            Some(b) => {
                                let b0 = if b < i {
                                    b
                                } else {
                                    b + 1
                                };
                                assert(entries[b0] == after[b]);
                            },
                            None => {},
                        }
                    },
                    None => {
                        match position(after, other) {
                            Some(b) => {
                                let b0 = if b < i {
                                    b
                                } else {
                                    b + 1
                                };
                                assert(entries[b0] == after[b]);
                            },
                            None => {},
                        }
                    },
                }
            }
        },
    }
}

/// A table from names to values, in the order in which the names were first
/// entered.
pub struct NameTable<V> {
    entries: Vec<(String, V)>,
}

impl<V> View for NameTable<V> {
    type V = Seq<(Seq<char>, V)>;

    closed spec fn view(&self) -> Seq<(Seq<char>, V)> {
        Seq::new(self.entries@.len(), |i: int| (self.entries@[i].0@, self.entries@[i].1))
    }
}

impl<V> NameTable<V> {
    /// No name stands in two entries.
    pub open spec fn wf(&self) -> bool {
        names_distinct(self@)
    }

    pub fn new() -> (table: Self)
        ensures
            table@ == Seq::<(Seq<char>, V)>::empty(),
            table.wf(),
    {
        let table = NameTable { entries: Vec::new() };
        assert(table@ =~= Seq::<(Seq<char>, V)>::empty());
        table
    }

    pub fn len(&self) -> (count: usize)
        ensures
            count == self@.len(),
    {
        self.entries.len()
    }

    /// The position of the entry for `key`, if there is one.
    pub fn position_of(&self, key: &str) -> (found: Option<usize>)
        ensures
            match found {
                Some(i) => position(self@, key@) == Some(i as int) && i < self@.len(),
                None => position(self@, key@) is None,
            },
    {
        let n = self.entries.len();
        let mut i: usize = 0;
        while i < n
            invariant
                i <= n,
                n == self@.len(),
                n == self.entries@.len(),
                position(self@, key@) == position_from(self@, key@, i as nat),
            decreases n - i,
        {
            if same_text(self.entries[i].0.as_str(), key) {
                return Some(i);
            }
            i += 1;
        }
        None
    }

    /// The name of the entry at position `i`.
    pub fn name_at(&self, i: usize) -> (name: &str)
        requires
            i < self@.len(),
        ensures
            name@ == self@[i as int].0,
    {
        self.entries[i].0.as_str()
    }

    /// The value of the entry at position `i`.
    pub fn value_at(&self, i: usize) -> (value: &V)
        requires
            i < self@.len(),
        ensures
            *value == self@[i as int].1,
    {
        &self.entries[i].1
    }

    /// The value entered under `key`, if any.
    pub fn get(&self, key: &str) -> (value: Option<&V>)
        ensures
            match value {
                Some(found) => lookup(self@, key@) == Some(*found),
                None => lookup(self@, key@) is None,
            },
    {
        match self.position_of(key) {
            Some(i) => Some(&self.entries[i].1),
            None => None,
        }
    }

    /// Enters `value` under `key`, in place of what stood there.
    pub fn insert(&mut self, key: String, value: V)
        requires
            old(self).wf(),
        ensures
            final(self).wf(),
            final(self)@ == entered(old(self)@, key@, value),
    {
        let found = self.position_of(key.as_str());
        proof {
            lemma_position(self@, key@, 0);
        }
        match found {
            Some(i) => {
                self.entries[i] = (key, value);
            },
            None => {
                self.entries.push((key, value));
            },
        }
        assert(self@ =~= entered(old(self)@, key@, value));
    }

    /// Drops the entry for `key`, if there is one.
    pub fn remove(&mut self, key: &str)
        requires
            old(self).wf(),
        ensures
            final(self).wf(),
            final(self)@ == dropped(old(self)@, key@),
    {
        let found = self.position_of(key);
        if let Some(i) = found {
            let _entry = self.entries.remove(i);
            assert(self@ =~= old(self)@.remove(i as int));
        }
    }
}

} // verus!
