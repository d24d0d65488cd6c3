//! Open attribute bags: the extra named text attributes that an element of
//! the description may carry, kept in the order in which they were added.

use vstd::prelude::*;
use crate::text::same_text;

verus! {

/// The attributes of a bag as mathematical values: names and textual values,
/// in the bag's order.
pub type Entries = Seq<(Seq<char>, Seq<char>)>;

/// The attributes that an element carries, none if it has no bag.
pub open spec fn entries_of(bag: Option<Entries>) -> Entries {
    match bag {
        Some(entries) => entries,
        None => Seq::empty(),
    }
}

/// The view of an optional bag.
pub open spec fn bag_view(bag: Option<AttributeBag>) -> Option<Entries> {
    match bag {
        Some(b) => Some(b@),
        None => None,
    }
}

/// A copy of an optional bag.
pub fn clone_bag(bag: &Option<AttributeBag>) -> (r: Option<AttributeBag>)
    ensures
        bag_view(r) == bag_view(*bag),
{
    match bag {
        Some(b) => Some(b.clone()),
        None => None,
    }
}

/// Some entry of `entries` is filed under `key`.
pub open spec fn has_key<V>(entries: Seq<(Seq<char>, V)>, key: Seq<char>) -> bool {
    exists|i: int| 0 <= i < entries.len() && (#[trigger] entries[i]).0 == key
}

/// No two entries of `entries` share a key.
pub open spec fn distinct_keys<V>(entries: Seq<(Seq<char>, V)>) -> bool {
    forall|i: int, j: int|
        0 <= i < j < entries.len() ==> (#[trigger] entries[i]).0 != (#[trigger] entries[j]).0
}

/// The place of an entry filed under `key`.
pub open spec fn index_of<V>(entries: Seq<(Seq<char>, V)>, key: Seq<char>) -> int {
    choose|i: int| 0 <= i < entries.len() && (#[trigger] entries[i]).0 == key
}

/// What `entries` holds under `key`.
pub open spec fn lookup<V>(entries: Seq<(Seq<char>, V)>, key: Seq<char>) -> Option<V> {
    if has_key(entries, key) {
        Some(entries[index_of(entries, key)].1)
    } else {
        None
    }
}

/// `entries` with `value` filed under `key`: in the place of the entry that
/// had the key, or else at the end.
pub open spec fn put<V>(entries: Seq<(Seq<char>, V)>, key: Seq<char>, value: V) -> Seq<
    (Seq<char>, V),
> {
    if has_key(entries, key) {
        entries.update(index_of(entries, key), (key, value))
    } else {
        entries.push((key, value))
    }
}

/// `entries` after each attribute of `more` has been filed, one after the other.
pub open spec fn put_all(entries: Entries, more: Entries) -> Entries
    decreases more.len(),
{
    if more.len() == 0 {
        entries
    } else {
        put(put_all(entries, more.drop_last()), more.last().0, more.last().1)
    }
}

/// Among distinct keys, the entry at place `i` is the one found under its key.
pub proof fn lemma_lookup_at<V>(entries: Seq<(Seq<char>, V)>, i: int)
    requires
        distinct_keys(entries),
        0 <= i < entries.len(),
    ensures
        has_key(entries, entries[i].0),
        index_of(entries, entries[i].0) == i,
        lookup(entries, entries[i].0) == Some(entries[i].1),
{
    let j = index_of(entries, entries[i].0);
    assert(0 <= j < entries.len() && entries[j].0 == entries[i].0);
    if j < i {
        assert(entries[j].0 != entries[i].0);
    } else if i < j {
        assert(entries[i].0 != entries[j].0);
    }
}

/// Filing a value keeps the keys distinct, makes it the value found under its
/// key and leaves every other key as it was.
pub proof fn lemma_put<V>(entries: Seq<(Seq<char>, V)>, key: Seq<char>, value: V)
    requires
        distinct_keys(entries),
    ensures
        distinct_keys(put(entries, key, value)),
        lookup(put(entries, key, value), key) == Some(value),
        forall|other: Seq<char>|
            other != key ==> lookup(put(entries, key, value), other) == lookup(entries, other),
{
    let after = put(entries, key, value);
    let at = if has_key(entries, key) {
        index_of(entries, key)
    } else {
        entries.len() as int
    };
    assert(0 <= at < after.len() && after[at] == (key, value));
    assert forall|i: int, j: int| 0 <= i < j < after.len() implies (#[trigger] after[i]).0 != (
    #[trigger] after[j]).0 by {
        if i != at && j != at {
            assert(after[i] == entries[i] && after[j] == entries[j]);
        } else if has_key(entries, key) {
            assert(after[i].0 == entries[i].0 && after[j].0 == entries[j].0);
        } else {
            assert(j == at);
            assert(after[i] == entries[i]);
        }
    }
    lemma_lookup_at(after, at);
    assert forall|other: Seq<char>| other != key implies lookup(after, other) == lookup(
        entries,
        other,
    ) by {
        if has_key(entries, other) {
            let k = index_of(entries, other);
            assert(after[k] == entries[k]);
            lemma_lookup_at(after, k);
        } else if has_key(after, other) {
            let k = index_of(after, other);
            assert(k != at);
            assert(entries[k] == after[k]);
        }
    }
}

/// An ordered mapping from attribute names to their textual values.
#[derive(Debug, PartialEq, Eq)]
pub struct AttributeBag {
    entries: Vec<(String, String)>,
}

impl View for AttributeBag {
    type V = Entries;

    closed spec fn view(&self) -> Entries {
        self.entries@.map_values(|e: (String, String)| (e.0@, e.1@))
    }
}

impl Clone for AttributeBag {
    fn clone(&self) -> (r: Self)
        ensures
            r@ == self@,
    {
        proof {
            use_type_invariant(self);
        }
        let mut entries: Vec<(String, String)> = Vec::new();
        let mut i: usize = 0;
        while i < self.entries.len()
            invariant
                i <= self.entries.len(),
                entries@.len() == i,
                forall|j: int| 0 <= j < i ==> #[trigger] entries@[j] == self.entries@[j],
            decreases self.entries.len() - i,
        {
            entries.push((self.entries[i].0.clone(), self.entries[i].1.clone()));
            i += 1;
        }
        assert(entries@ =~= self.entries@);
        AttributeBag { entries }
    }
}

impl AttributeBag {
    #[verifier::type_invariant]
    closed spec fn inv(&self) -> bool {
        distinct_keys(self@)
    }

    /// An empty bag.
    pub fn new() -> (r: Self)
        ensures
            r@ == Seq::<(Seq<char>, Seq<char>)>::empty(),
    {
        let r = AttributeBag { entries: Vec::new() };
        assert(r@ =~= Seq::empty());
        r
    }

    /// The bag of the attributes that an element was found to carry, none
    /// if it carries no attribute. Where a name comes twice, its place is
    /// that of the first occurrence and its value that of the last.
    pub fn from_entries(entries: Vec<(String, String)>) -> (r: Option<Self>)
        ensures
            match r {
                Some(bag) => entries@.len() > 0 && bag@ == put_all(
                    Seq::empty(),
                    entries@.map_values(|e: (String, String)| (e.0@, e.1@)),
                ),
                None => entries@.len() == 0,
            },
    {
        if entries.len() == 0 {
            return None;
        }
        let ghost all = entries@.map_values(|e: (String, String)| (e.0@, e.1@));
        let mut bag = AttributeBag::new();
        for entry in it: entries
            invariant
                it.seq() == entries@,
                all == entries@.map_values(|e: (String, String)| (e.0@, e.1@)),
                bag@ == put_all(Seq::empty(), all.take(it.index() as int)),
        {
            proof {
                let i = it.index() as int;
                assert(all.take(i + 1).drop_last() =~= all.take(i));
                assert(all.take(i + 1).last() == (entry.0@, entry.1@));
            }
            bag.insert(entry.0, entry.1);
        }
        assert(all.take(all.len() as int) =~= all);
        Some(bag)
    }

    /// The number of attributes in the bag.
    pub fn len(&self) -> (n: usize)
        ensures
            n == self@.len(),
            distinct_keys(self@),
    {
        proof {
            use_type_invariant(self);
        }
        self.entries.len()
    }

    /// The name of the attribute at place `i`.
    pub fn key_at(&self, i: usize) -> (k: &String)
        requires
            i < self@.len(),
        ensures
            k@ == self@[i as int].0,
    {
        &self.entries[i].0
    }

    /// The value of the attribute at place `i`.
    pub fn value_at(&self, i: usize) -> (v: &String)
        requires
            i < self@.len(),
        ensures
            v@ == self@[i as int].1,
    {
        &self.entries[i].1
    }

    fn find(&self, key: &str) -> (r: Option<usize>)
        ensures
            match r {
                Some(i) => i < self@.len() && self@[i as int].0 == key@,
                None => !has_key(self@, key@),
            },
    {
        let mut i: usize = 0;
        while i < self.entries.len()
            invariant
                i <= self.entries.len(),
                self@.len() == self.entries.len(),
                forall|j: int| 0 <= j < i ==> (#[trigger] self@[j]).0 != key@,
            decreases self.entries.len() - i,
        {
            if same_text(self.entries[i].0.as_str(), key) {
                return Some(i);
            }
            i += 1;
        }
        None
    }

    /// Tells whether the bag has an attribute called `key`.
    pub fn contains_key(&self, key: &str) -> (r: bool)
        ensures
            r == has_key(self@, key@),
    {
        self.find(key).is_some()
    }

    /// The value of the attribute called `key`, if the bag has one.
    pub fn get(&self, key: &str) -> (r: Option<&String>)
        ensures
            match r {
                Some(v) => lookup(self@, key@) == Some(v@),
                None => lookup(self@, key@).is_none(),
            },
    {
        match self.find(key) {
            Some(i) => {
                proof {
                    use_type_invariant(self);
                    lemma_lookup_at(self@, i as int);
                }
                Some(&self.entries[i].1)
            },
            None => None,
        }
    }

    /// Files `value` under `key`, in the place of the value that the key had
    /// or else as the last attribute of the bag.
    pub fn insert(&mut self, key: String, value: String)
        ensures
            final(self)@ == put(old(self)@, key@, value@),
    {
        proof {
            use_type_invariant(&*self);
            lemma_put(self@, key@, value@);
        }
        let found = self.find(key.as_str());
        let mut entries: Vec<(String, String)> = Vec::new();
        assert(entries@.map_values(|e: (String, String)| (e.0@, e.1@)) =~= Seq::empty());
        core::mem::swap(&mut entries, &mut self.entries);
        match found {
            Some(i) => {
                proof {
                    lemma_lookup_at(old(self)@, i as int);
                }
                entries.set(i, (key, value));
            },
            None => {
                entries.push((key, value));
            },
        }
        assert(entries@.map_values(|e: (String, String)| (e.0@, e.1@)) =~= put(
            old(self)@,
            key@,
            value@,
        ));
        self.entries = entries;
    }
}

} // verus!
