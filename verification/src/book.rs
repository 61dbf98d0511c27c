//! What is known of several things, each under a name of its own.

use crate::order;
use crate::text;
use vstd::prelude::*;

verus! {

/// What an entry can be filed under: a value that is told apart by what it looks like.
pub trait Name: View {
    /// Whether two names are the same.
    fn is_same(&self, other: &Self) -> (same: bool)
        ensures
            same == (self@ == other@),
    ;
}

impl Name for i32 {
    fn is_same(&self, other: &i32) -> (same: bool) {
        *self == *other
    }
}

impl Name for String {
    fn is_same(&self, other: &String) -> (same: bool) {
        text::same(self.as_str(), other.as_str())
    }
}

/// Entries in the order they were first made.
#[derive(Debug, PartialEq, Eq)]
pub struct Book<K, V> {
    entries: Vec<(K, V)>,
}

spec fn filed_under<K: Name, V>(name: K::V) -> spec_fn((K, V)) -> bool {
    |entry: (K, V)| entry.0@ == name
}

impl<K: Name, V> View for Book<K, V> {
    type V = Map<K::V, V>;

    /// What stands under each name.
    closed spec fn view(&self) -> Map<K::V, V> {
        Map::new(
            |name: K::V| self.place(name) is Some,
            |name: K::V| self.entries@[self.place(name)->0].1,
        )
    }
}

impl<K: Name, V> Book<K, V> {
    spec fn place(self, name: K::V) -> Option<int> {
        order::first_where(self.entries@, filed_under::<K, V>(name))
    }

    /// Whether no two entries stand under one name.
    pub closed spec fn wf(self) -> bool {
        forall|i: int, j: int|
            0 <= i < j < self.entries@.len() ==> (#[trigger] self.entries@[i]).0@ != (
            #[trigger] self.entries@[j]).0@
    }

    /// A book with nothing in it.
    pub fn new() -> (book: Book<K, V>)
        ensures
            book.wf(),
            book@ == Map::<K::V, V>::empty(),
    {
        let book = Book { entries: Vec::new() };
        assert(book@ =~= Map::<K::V, V>::empty());
        book
    }

    /// Whether there is nothing in it.
    pub fn is_empty(&self) -> (empty: bool)
        ensures
            empty == (self@ == Map::<K::V, V>::empty()),
    {
        proof {
            if self.entries@.len() > 0 {
                let name = self.entries@[0].0@;
                assert(filed_under::<K, V>(name)(self.entries@[0]));
                order::lemma_is_first(self.entries@, filed_under::<K, V>(name), 0);
                assert(self@.contains_key(name));
            } else {
                assert(self@ =~= Map::<K::V, V>::empty());
            }
        }
        self.entries.len() == 0
    }

    fn position(&self, name: &K) -> (at: Option<usize>)
        ensures
            match at {
                Some(found) => self.place(name@) == Some(found as int) && found
                    < self.entries@.len(),
                None => self.place(name@) is None,
            },
    {
        let ghost wanted = filed_under::<K, V>(name@);
        let mut next: usize = 0;
        while next < self.entries.len()
            invariant
                next <= self.entries@.len(),
                wanted == filed_under::<K, V>(name@),
                forall|i: int| 0 <= i < next ==> !#[trigger] wanted(self.entries@[i]),
            decreases self.entries@.len() - next,
        {
            if self.entries[next].0.is_same(name) {
                proof {
                    order::lemma_is_first(self.entries@, wanted, next as int);
                }
                return Some(next);
            }
            next += 1;
        }
        proof {
            order::lemma_is_nowhere(self.entries@, wanted);
        }
        None
    }

    /// What stands under a name.
    pub fn get(&self, name: &K) -> (found: Option<&V>)
        ensures
            match found {
                Some(value) => self@.contains_key(name@) && *value == self@[name@],
                None => !self@.contains_key(name@),
            },
    {
        match self.position(name) {
            Some(at) => Some(&self.entries[at].1),
            None => None,
        }
    }

    /// Puts a value under a name, in place of what stood there.
    pub fn insert(&mut self, name: K, value: V)
        ensures
            old(self).wf() ==> final(self).wf(),
            final(self)@ == old(self)@.insert(name@, value),
    {
        let ghost before = *self;
        let ghost told = name@;
        match self.position(&name) {
            Some(at) => {
                self.entries.set(at, (name, value));
                proof {
                    lemma_replaced(before, *self, at as int, told, value);
                }
            },
            None => {
                self.entries.push((name, value));
                proof {
                    lemma_added(before, *self, told, value);
                }
            },
        }
    }

    /// Whether a value stands under some name.
    pub open spec fn holds(self, value: V) -> bool {
        exists|name: K::V| #[trigger] self@.contains_key(name) && self@[name] == value
    }

    /// What stands in it, in the order it was made.
    pub closed spec fn values(self) -> Seq<V> {
        self.entries@.map_values(|entry: (K, V)| entry.1)
    }

    /// How many entries there are.
    pub fn len(&self) -> (count: usize)
        ensures
            count == self.values().len(),
    {
        self.entries.len()
    }

    /// One of the values.
    pub fn value(&self, at: usize) -> (value: &V)
        requires
            at < self.values().len(),
        ensures
            *value == self.values()[at as int],
    {
        &self.entries[at].1
    }

    /// The values are what stands under the names.
    pub proof fn lemma_values(self)
        requires
            self.wf(),
        ensures
            forall|name: K::V| #[trigger]
                self@.contains_key(name) ==> self.values().contains(self@[name]),
            forall|i: int|
                0 <= i < self.values().len() ==> self.holds(#[trigger] self.values()[i]),
    {
        assert forall|name: K::V| #[trigger] self@.contains_key(name) implies self.values().contains(
            self@[name],
        ) by {
            order::lemma_first_where(self.entries@, filed_under::<K, V>(name));
            assert(self.values()[self.place(name)->0] == self@[name]);
        }
        assert forall|i: int| 0 <= i < self.values().len() implies self.holds(
            #[trigger] self.values()[i],
        ) by {
            let name = self.entries@[i].0@;
            let wanted = filed_under::<K, V>(name);
            assert forall|j: int| 0 <= j < i implies !#[trigger] wanted(self.entries@[j]) by {
                assert(self.entries@[j].0@ != self.entries@[i].0@);
            }
            assert(wanted(self.entries@[i]));
            order::lemma_is_first(self.entries@, wanted, i);
            assert(self@.contains_key(name) && self@[name] == self.values()[i]);
        }
    }
}

proof fn lemma_replaced<K: Name, V>(
    before: Book<K, V>,
    after: Book<K, V>,
    at: int,
    told: K::V,
    value: V,
)
    requires
        before.place(told) == Some(at),
        after.entries@.len() == before.entries@.len(),
        forall|i: int|
            0 <= i < before.entries@.len() && i != at ==> after.entries@[i]
                == #[trigger] before.entries@[i],
        after.entries@[at].0@ == told,
        after.entries@[at].1 == value,
    ensures
        before.wf() ==> after.wf(),
        after@ == before@.insert(told, value),
{
    order::lemma_first_where(before.entries@, filed_under::<K, V>(told));
    assert(filed_under::<K, V>(told)(before.entries@[at]));
    if before.wf() {
        assert forall|i: int, j: int| 0 <= i < j < after.entries@.len() implies (
        #[trigger] after.entries@[i]).0@ != (#[trigger] after.entries@[j]).0@ by {
            assert(before.entries@[i].0@ != before.entries@[j].0@);
        }
    }
    assert forall|key: K::V| #[trigger] after.place(key) == before.place(key) by {
        let wanted = filed_under::<K, V>(key);
        order::lemma_first_where(before.entries@, wanted);
        match before.place(key) {
            Some(i) => {
                assert forall|j: int| 0 <= j < i implies !#[trigger] wanted(after.entries@[j]) by {
                    assert(!wanted(before.entries@[j]));
                }
                assert(wanted(before.entries@[i]));
                assert(wanted(after.entries@[i]));
                order::lemma_is_first(after.entries@, wanted, i);
            },
            None => {
                assert forall|j: int| 0 <= j < after.entries@.len() implies !#[trigger] wanted(
                    after.entries@[j],
                ) by {
                    assert(!wanted(before.entries@[j]));
                }
                order::lemma_is_nowhere(after.entries@, wanted);
            },
        }
    }
    assert forall|key: K::V| after@.contains_key(key) implies #[trigger] after@[key]
        == before@.insert(told, value)[key] by {
        assert(after.place(key) == before.place(key));
        order::lemma_first_where(before.entries@, filed_under::<K, V>(key));
    }
    assert forall|key: K::V| #[trigger] after@.contains_key(key) == before@.insert(
        told,
        value,
    ).contains_key(key) by {
        assert(after.place(key) == before.place(key));
    }
    assert(after@ =~= before@.insert(told, value));
}

proof fn lemma_added<K: Name, V>(before: Book<K, V>, after: Book<K, V>, told: K::V, value: V)
    requires
        before.place(told) is None,
        after.entries@.len() == before.entries@.len() + 1,
        forall|i: int|
            0 <= i < before.entries@.len() ==> after.entries@[i] == #[trigger] before.entries@[i],
        after.entries@.last().0@ == told,
        after.entries@.last().1 == value,
    ensures
        before.wf() ==> after.wf(),
        after@ == before@.insert(told, value),
{
    let last = before.entries@.len() as int;
    order::lemma_first_where(before.entries@, filed_under::<K, V>(told));
    if before.wf() {
        assert forall|i: int, j: int| 0 <= i < j < after.entries@.len() implies (
        #[trigger] after.entries@[i]).0@ != (#[trigger] after.entries@[j]).0@ by {
            assert(!filed_under::<K, V>(told)(before.entries@[i]));
            if j < last {
                assert(before.entries@[i].0@ != before.entries@[j].0@);
            }
        }
    }
    assert forall|key: K::V| #[trigger] after.place(key) == (if key == told {
        Some(last)
    } else {
        before.place(key)
    }) by {
        let wanted = filed_under::<K, V>(key);
        order::lemma_first_where(before.entries@, wanted);
        match before.place(key) {
            Some(i) => {
                assert forall|j: int| 0 <= j < i implies !#[trigger] wanted(after.entries@[j]) by {
                    assert(!wanted(before.entries@[j]));
                }
                assert(wanted(before.entries@[i]));
                assert(wanted(after.entries@[i]));
                order::lemma_is_first(after.entries@, wanted, i);
            },
            None => {
                assert forall|j: int| 0 <= j < last implies !#[trigger] wanted(
                    after.entries@[j],
                ) by {
                    assert(!wanted(before.entries@[j]));
                }
                if key == told {
                    assert(wanted(after.entries@[last]));
                    order::lemma_is_first(after.entries@, wanted, last);
                } else {
                    assert(!wanted(after.entries@[last]));
                    order::lemma_is_nowhere(after.entries@, wanted);
                }
            },
        }
    }
    assert forall|key: K::V| after@.contains_key(key) implies #[trigger] after@[key]
        == before@.insert(told, value)[key] by {
        assert(after.place(key) == (if key == told {
            Some(last)
        } else {
            before.place(key)
        }));
        order::lemma_first_where(before.entries@, filed_under::<K, V>(key));
    }
    assert forall|key: K::V| #[trigger] after@.contains_key(key) == before@.insert(
        told,
        value,
    ).contains_key(key) by {
        assert(after.place(key) == (if key == told {
            Some(last)
        } else {
            before.place(key)
        }));
    }
    assert(after@ =~= before@.insert(told, value));
}

} // verus!
