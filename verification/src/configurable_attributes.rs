//! The catalogue of attributes that can be requested for display: for cores,
//! routers and channels, each attribute name with the kind of its values.

use vstd::prelude::*;
use vstd::string::*;
use crate::attributes::{
    bag_view, distinct_keys, entries_of, has_key, index_of, lemma_lookup_at, lemma_put, lookup,
    put, AttributeBag, Entries,
};
use crate::routing::RoutingAlgorithms;
use crate::text::{is_number, parses_as_number, same_text};

verus! {

/// The name under which the identifier of an element is offered.
pub const ID_KEY: &'static str = "@id";

/// The name under which the coordinates of a core are offered.
pub const COORDINATES_KEY: &'static str = "@coordinates";

/// The name under which a channel tells whether it faces a border router.
pub const BORDER_ROUTERS_KEY: &'static str = "@borderRouters";

/// The name under which a channel tells the routing algorithm.
pub const ROUTING_KEY: &'static str = "@routingAlgorithm";

/// The kind of the values of an attribute.
#[derive(Debug, Clone, Copy, PartialEq, Eq, Structural, Hash)]
pub enum AttributeType {
    Text,
    Number,
    Coordinates,
    Boolean,
    Routing,
}

/// A registry as a mathematical value: attribute names with their kinds, in
/// the order in which they were registered.
pub type Registry = Seq<(Seq<char>, AttributeType)>;

/// The kind that is inferred from the textual value `value`.
pub open spec fn classify(value: Seq<char>) -> AttributeType {
    if is_number(value) {
        AttributeType::Number
    } else {
        AttributeType::Text
    }
}

/// `registry` after the attribute `key` has been seen with the value `value`:
/// a name that is registered keeps its kind, a new one is registered behind
/// the others with the kind of this value.
pub open spec fn absorb(registry: Registry, key: Seq<char>, value: Seq<char>) -> Registry {
    if has_key(registry, key) {
        registry
    } else {
        registry.push((key, classify(value)))
    }
}

/// `registry` after the attributes `seen` have been seen one after the other.
pub open spec fn absorb_all(registry: Registry, seen: Entries) -> Registry
    decreases seen.len(),
{
    if seen.len() == 0 {
        registry
    } else {
        absorb(absorb_all(registry, seen.drop_last()), seen.last().0, seen.last().1)
    }
}

/// Seeing two runs of attributes one after the other is seeing the two runs
/// joined.
pub proof fn lemma_absorb_all_concat(registry: Registry, first: Entries, second: Entries)
    ensures
        absorb_all(registry, first + second) == absorb_all(absorb_all(registry, first), second),
    decreases second.len(),
{
    if second.len() == 0 {
        assert(first + second =~= first);
    } else {
        lemma_absorb_all_concat(registry, first, second.drop_last());
        assert((first + second).drop_last() =~= first + second.drop_last());
        assert((first + second).last() == second.last());
    }
}

/// A registry of distinct names stays one, whatever is seen.
pub proof fn lemma_absorb_all_distinct(registry: Registry, seen: Entries)
    requires
        distinct_keys(registry),
    ensures
        distinct_keys(absorb_all(registry, seen)),
    decreases seen.len(),
{
    if seen.len() > 0 {
        lemma_absorb_all_distinct(registry, seen.drop_last());
        let before = absorb_all(registry, seen.drop_last());
        let after = absorb(before, seen.last().0, seen.last().1);
        if !has_key(before, seen.last().0) {
            assert forall|i: int, j: int| 0 <= i < j < after.len() implies (
            #[trigger] after[i]).0 != (#[trigger] after[j]).0 by {
                assert(after[i] == before[i]);
                if j < before.len() {
                    assert(after[j] == before[j]);
                }
            }
        }
    }
}

/// The names of the registry after a scan are those that were registered
/// before and those that were seen.
pub proof fn lemma_absorbed_names(registry: Registry, seen: Entries, key: Seq<char>)
    ensures
        has_key(absorb_all(registry, seen), key) <==> has_key(registry, key) || has_key(
            seen,
            key,
        ),
    decreases seen.len(),
{
    if seen.len() > 0 {
        let rest = seen.drop_last();
        lemma_absorbed_names(registry, rest, key);
        let before = absorb_all(registry, rest);
        let after = absorb_all(registry, seen);
        if has_key(seen, key) {
            let i = index_of(seen, key);
            if i < rest.len() {
                assert(rest[i] == seen[i]);
            }
        }
        if has_key(rest, key) {
            let i = index_of(rest, key);
            assert(seen[i] == rest[i]);
        }
        if seen.last().0 == key {
            assert(seen[seen.len() - 1].0 == key);
        }
        if has_key(before, key) {
            let i = index_of(before, key);
            assert(after[i] == before[i]);
        }
        if has_key(after, key) && !has_key(before, key) {
            let i = index_of(after, key);
            if i < before.len() {
                assert(before[i] == after[i]);
            }
        }
        if !has_key(before, seen.last().0) {
            assert(after[before.len() as int].0 == seen.last().0);
        }
    }
}

/// A name that is registered keeps its kind, whatever is seen afterwards: a
/// pinned kind overrides inference, and a kind once inferred is not revised.
pub proof fn lemma_registered_kind_stays(registry: Registry, seen: Entries, key: Seq<char>)
    requires
        distinct_keys(registry),
        has_key(registry, key),
    ensures
        lookup(absorb_all(registry, seen), key) == lookup(registry, key),
    decreases seen.len(),
{
    if seen.len() > 0 {
        let rest = seen.drop_last();
        lemma_registered_kind_stays(registry, rest, key);
        lemma_absorb_all_distinct(registry, rest);
        lemma_absorb_all_distinct(registry, seen);
        lemma_absorbed_names(registry, rest, key);
        let before = absorb_all(registry, rest);
        let after = absorb_all(registry, seen);
        let i = index_of(before, key);
        assert(after[i] == before[i]);
        lemma_lookup_at(before, i);
        lemma_lookup_at(after, i);
    }
}

/// The first value with which a name is seen decides its kind: where `key`
/// is not registered and `seen[i]` is its first occurrence, the registry
/// holds the kind of that value under it.
pub proof fn lemma_first_seen_wins(registry: Registry, seen: Entries, key: Seq<char>, i: int)
    requires
        distinct_keys(registry),
        !has_key(registry, key),
        0 <= i < seen.len(),
        seen[i].0 == key,
        forall|j: int| 0 <= j < i ==> (#[trigger] seen[j]).0 != key,
    ensures
        lookup(absorb_all(registry, seen), key) == Some(classify(seen[i].1)),
{
    let head = seen.take(i);
    let at = seen.subrange(i, i + 1);
    let tail = seen.skip(i + 1);
    assert(seen =~= (head + at) + tail);
    lemma_absorb_all_concat(registry, head + at, tail);
    lemma_absorbed_names(registry, head, key);
    assert(!has_key(head, key)) by {
        if has_key(head, key) {
            let j = index_of(head, key);
            assert(seen[j] == head[j]);
        }
    }
    let before = absorb_all(registry, head);
    assert((head + at).drop_last() =~= head);
    assert((head + at).last() == seen[i]);
    let with_key = absorb_all(registry, head + at);
    assert(with_key == before.push((key, classify(seen[i].1))));
    lemma_absorb_all_distinct(registry, head + at);
    assert(with_key[before.len() as int] == (key, classify(seen[i].1)));
    lemma_lookup_at(with_key, before.len() as int);
    lemma_registered_kind_stays(with_key, tail, key);
}

/// An ordered mapping from attribute names to the kinds of their values.
#[derive(Debug, PartialEq, Eq)]
pub struct AttributeRegistry {
    entries: Vec<(String, AttributeType)>,
}

impl View for AttributeRegistry {
    type V = Registry;

    closed spec fn view(&self) -> Registry {
        self.entries@.map_values(|e: (String, AttributeType)| (e.0@, e.1))
    }
}

impl Clone for AttributeRegistry {
    fn clone(&self) -> (r: Self)
        ensures
            r@ == self@,
    {
        proof {
            use_type_invariant(self);
        }
        let mut entries: Vec<(String, AttributeType)> = Vec::new();
        let mut i: usize = 0;
        while i < self.entries.len()
            invariant
                i <= self.entries.len(),
                entries@.len() == i,
                forall|j: int| 0 <= j < i ==> #[trigger] entries@[j] == self.entries@[j],
            decreases self.entries.len() - i,
        {
            entries.push((self.entries[i].0.clone(), self.entries[i].1));
            i += 1;
        }
        assert(entries@ =~= self.entries@);
        AttributeRegistry { entries }
    }
}

impl AttributeRegistry {
    #[verifier::type_invariant]
    closed spec fn inv(&self) -> bool {
        distinct_keys(self@)
    }

    /// A registry without names.
    pub fn new() -> (r: Self)
        ensures
            r@ == Seq::<(Seq<char>, AttributeType)>::empty(),
    {
        let r = AttributeRegistry { entries: Vec::new() };
        assert(r@ =~= Seq::empty());
        r
    }

    /// The number of names in the registry.
    pub fn len(&self) -> (n: usize)
        ensures
            n == self@.len(),
            distinct_keys(self@),
    {
        proof {
            use_type_invariant(self);
        }
        self.entries.len()
    }

    /// The name at place `i`.
    pub fn key_at(&self, i: usize) -> (k: &String)
        requires
            i < self@.len(),
        ensures
            k@ == self@[i as int].0,
    {
        &self.entries[i].0
    }

    /// The kind of the name at place `i`.
    pub fn kind_at(&self, i: usize) -> (k: AttributeType)
        requires
            i < self@.len(),
        ensures
            k == self@[i as int].1,
    {
        self.entries[i].1
    }

    fn find(&self, key: &str) -> (r: Option<usize>)
        ensures
            match r {
                Some(i) => i < self@.len() && self@[i as int].0 == key@,
                None => !has_key(self@, key@),
            },
    {
        let mut i: usize = 0;
        while i < self.entries.len()
            invariant
                i <= self.entries.len(),
                self@.len() == self.entries.len(),
                forall|j: int| 0 <= j < i ==> (#[trigger] self@[j]).0 != key@,
            decreases self.entries.len() - i,
        {
            if same_text(self.entries[i].0.as_str(), key) {
                return Some(i);
            }
            i += 1;
        }
        None
    }

    /// The kind that is registered under `key`, if the name is registered.
    pub fn get(&self, key: &str) -> (r: Option<AttributeType>)
        ensures
            r == lookup(self@, key@),
    {
        match self.find(key) {
            Some(i) => {
                proof {
                    use_type_invariant(self);
                    lemma_lookup_at(self@, i as int);
                }
                Some(self.entries[i].1)
            },
            None => None,
        }
    }

    /// Registers `key` with the fixed kind `kind`, whatever kind it had.
    pub fn insert_manual(&mut self, key: &str, kind: AttributeType)
        ensures
            final(self)@ == put(old(self)@, key@, kind),
    {
        proof {
            use_type_invariant(&*self);
            lemma_put(self@, key@, kind);
        }
        let found = self.find(key);
        let mut entries: Vec<(String, AttributeType)> = Vec::new();
        assert(entries@.map_values(|e: (String, AttributeType)| (e.0@, e.1)) =~= Seq::empty());
        core::mem::swap(&mut entries, &mut self.entries);
        match found {
            Some(i) => {
                proof {
                    lemma_lookup_at(old(self)@, i as int);
                }
                entries.set(i, (String::from_str(key), kind));
            },
            None => {
                entries.push((String::from_str(key), kind));
            },
        }
        assert(entries@.map_values(|e: (String, AttributeType)| (e.0@, e.1)) =~= put(
            old(self)@,
            key@,
            kind,
        ));
        self.entries = entries;
    }

    fn absorb(&mut self, key: &str, value: &str)
        ensures
            final(self)@ == absorb(old(self)@, key@, value@),
    {
        proof {
            use_type_invariant(&*self);
            lemma_absorb_all_distinct(self@, seq![(key@, value@)]);
            assert(seq![(key@, value@)].drop_last() =~= Seq::<(Seq<char>, Seq<char>)>::empty());
        }
        if self.find(key).is_none() {
            let kind = if parses_as_number(value) {
                AttributeType::Number
            } else {
                AttributeType::Text
            };
            let mut entries: Vec<(String, AttributeType)> = Vec::new();
            assert(entries@.map_values(|e: (String, AttributeType)| (e.0@, e.1))
                =~= Seq::empty());
            core::mem::swap(&mut entries, &mut self.entries);
            entries.push((String::from_str(key), kind));
            assert(entries@.map_values(|e: (String, AttributeType)| (e.0@, e.1)) =~= absorb(
                old(self)@,
                key@,
                value@,
            ));
            self.entries = entries;
        }
    }

    /// Registers the attributes of `bag` that are not registered yet, each
    /// with the kind of its value, in the order of the bag.
    pub fn extend_from_bag(&mut self, bag: &Option<AttributeBag>)
        ensures
            final(self)@ == absorb_all(old(self)@, entries_of(bag_view(*bag))),
    {
        if let Some(attributes) = bag {
            let n = attributes.len();
            let mut i: usize = 0;
            while i < n
                invariant
                    i <= n,
                    n == attributes@.len(),
                    self@ == absorb_all(old(self)@, attributes@.take(i as int)),
                decreases n - i,
            {
                self.absorb(attributes.key_at(i).as_str(), attributes.value_at(i).as_str());
                proof {
                    let next = attributes@.take(i + 1);
                    assert(next.drop_last() =~= attributes@.take(i as int));
                    assert(next.last() == attributes@[i as int]);
                }
                i += 1;
            }
            assert(attributes@.take(n as int) =~= attributes@);
        }
    }
}

/// The catalogue as a mathematical value.
pub struct ConfigurableAttributesView {
    pub core_attributes: Registry,
    pub router_attributes: Registry,
    pub channel_attributes: Registry,
    pub algorithms: Seq<RoutingAlgorithms>,
    pub observed_algorithm: Option<Seq<char>>,
}

/// What a front end may offer for display: the attributes of cores, routers
/// and channels with their kinds, the routing algorithms that are supported
/// and the one that the description was made with, if it names one.
#[derive(Debug, PartialEq, Eq)]
pub struct ConfigurableAttributes {
    core_attributes: AttributeRegistry,
    router_attributes: AttributeRegistry,
    channel_attributes: AttributeRegistry,
    algorithms: Vec<RoutingAlgorithms>,
    observed_algorithm: Option<String>,
}

/// The view of an optional text.
pub open spec fn text_view(text: Option<String>) -> Option<Seq<char>> {
    match text {
        Some(t) => Some(t@),
        None => None,
    }
}

/// A copy of an optional text.
pub fn clone_text(text: &Option<String>) -> (r: Option<String>)
    ensures
        text_view(r) == text_view(*text),
{
    match text {
        Some(t) => Some(t.clone()),
        None => None,
    }
}

impl View for ConfigurableAttributes {
    type V = ConfigurableAttributesView;

    closed spec fn view(&self) -> ConfigurableAttributesView {
        ConfigurableAttributesView {
            core_attributes: self.core_attributes@,
            router_attributes: self.router_attributes@,
            channel_attributes: self.channel_attributes@,
            algorithms: self.algorithms@,
            observed_algorithm: text_view(self.observed_algorithm),
        }
    }
}

impl Clone for ConfigurableAttributes {
    fn clone(&self) -> (r: Self)
        ensures
            r@ == self@,
    {
        let mut algorithms: Vec<RoutingAlgorithms> = Vec::new();
        let mut i: usize = 0;
        while i < self.algorithms.len()
            invariant
                i <= self.algorithms.len(),
                algorithms@ == self.algorithms@.take(i as int),
            decreases self.algorithms.len() - i,
        {
            algorithms.push(self.algorithms[i]);
            assert(algorithms@ =~= self.algorithms@.take(i + 1));
            i += 1;
        }
        assert(algorithms@ =~= self.algorithms@);
        ConfigurableAttributes {
            core_attributes: self.core_attributes.clone(),
            router_attributes: self.router_attributes.clone(),
            channel_attributes: self.channel_attributes.clone(),
            algorithms,
            observed_algorithm: clone_text(&self.observed_algorithm),
        }
    }
}

impl ConfigurableAttributes {
    /// The catalogue made of the given registries and algorithms.
    pub fn new(
        core_attributes: AttributeRegistry,
        router_attributes: AttributeRegistry,
        observed_algorithm: Option<String>,
        algorithms: Vec<RoutingAlgorithms>,
        channel_attributes: AttributeRegistry,
    ) -> (r: Self)
        ensures
            r@ == (ConfigurableAttributesView {
                core_attributes: core_attributes@,
                router_attributes: router_attributes@,
                channel_attributes: channel_attributes@,
                algorithms: algorithms@,
                observed_algorithm: text_view(observed_algorithm),
            }),
    {
        ConfigurableAttributes {
            core_attributes,
            router_attributes,
            channel_attributes,
            algorithms,
            observed_algorithm,
        }
    }

    /// The attributes of cores.
    pub fn core_attributes(&self) -> (r: &AttributeRegistry)
        ensures
            r@ == self@.core_attributes,
    {
        &self.core_attributes
    }

    /// The attributes of routers.
    pub fn router_attributes(&self) -> (r: &AttributeRegistry)
        ensures
            r@ == self@.router_attributes,
    {
        &self.router_attributes
    }

    /// The attributes of channels.
    pub fn channel_attributes(&self) -> (r: &AttributeRegistry)
        ensures
            r@ == self@.channel_attributes,
    {
        &self.channel_attributes
    }

    /// The routing algorithms that are supported.
    pub fn algorithms(&self) -> (r: &Vec<RoutingAlgorithms>)
        ensures
            r@ == self@.algorithms,
    {
        &self.algorithms
    }

    /// The routing algorithm that the description was made with, if it names one.
    pub fn observed_algorithm(&self) -> (r: &Option<String>)
        ensures
            text_view(*r) == self@.observed_algorithm,
    {
        &self.observed_algorithm
    }
}

} // verus!
