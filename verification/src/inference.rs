//! The inference of the attribute catalogue from the attributes that the
//! cores, routers and channels of a description carry.

use vstd::prelude::*;
use crate::attributes::{distinct_keys, entries_of, has_key, index_of, lookup, put, Entries};
use crate::channels::{ChannelView, Channels};
use crate::configurable_attributes::{
    absorb_all, classify, lemma_absorb_all_concat, lemma_first_seen_wins, text_view,
    AttributeRegistry, AttributeType, ConfigurableAttributes, ConfigurableAttributesView,
    Registry, BORDER_ROUTERS_KEY, COORDINATES_KEY, ID_KEY, ROUTING_KEY,
};
use crate::cores::{channels_view, Core, CoreView, core_views};
use crate::routing::{catalogue, supported_algorithms};

verus! {

/// The attributes that are met when `items` are visited in their order and
/// each shows the attributes `shown(item)`.
pub open spec fn scan<T>(items: Seq<T>, shown: spec_fn(T) -> Entries) -> Entries
    decreases items.len(),
{
    if items.len() == 0 {
        Seq::empty()
    } else {
        scan(items.drop_last(), shown) + shown(items.last())
    }
}

/// Visiting one item more adds what that item shows.
pub proof fn lemma_scan_next<T>(items: Seq<T>, shown: spec_fn(T) -> Entries, i: int)
    requires
        0 <= i < items.len(),
    ensures
        scan(items.take(i + 1), shown) == scan(items.take(i), shown) + shown(items[i]),
{
    assert(items.take(i + 1).drop_last() =~= items.take(i));
}

/// Visiting two runs of items one after the other meets what the first run
/// shows, then what the second shows.
pub proof fn lemma_scan_concat<T>(first: Seq<T>, second: Seq<T>, shown: spec_fn(T) -> Entries)
    ensures
        scan(first + second, shown) == scan(first, shown) + scan(second, shown),
    decreases second.len(),
{
    if second.len() == 0 {
        assert(first + second =~= first);
        assert(scan(first, shown) + scan(second, shown) =~= scan(first, shown));
    } else {
        lemma_scan_concat(first, second.drop_last(), shown);
        assert((first + second).drop_last() =~= first + second.drop_last());
        assert((first + second).last() == second.last());
        assert((scan(first, shown) + scan(second.drop_last(), shown)) + shown(second.last())
            =~= scan(first, shown) + (scan(second.drop_last(), shown) + shown(second.last())));
    }
}

/// Where no item shows an attribute called `key`, none is met.
pub proof fn lemma_scan_misses<T>(items: Seq<T>, shown: spec_fn(T) -> Entries, key: Seq<char>)
    requires
        forall|k: int| 0 <= k < items.len() ==> !has_key(shown(#[trigger] items[k]), key),
    ensures
        !has_key(scan(items, shown), key),
    decreases items.len(),
{
    if items.len() > 0 {
        let rest = items.drop_last();
        assert forall|k: int| 0 <= k < rest.len() implies !has_key(
            shown(#[trigger] rest[k]),
            key,
        ) by {
            assert(rest[k] == items[k]);
        }
        lemma_scan_misses(rest, shown, key);
        let met = scan(items, shown);
        if has_key(met, key) {
            let l = index_of(met, key);
            if l < scan(rest, shown).len() {
                assert(scan(rest, shown)[l] == met[l]);
            } else {
                assert(shown(items.last())[l - scan(rest, shown).len()] == met[l]);
                assert(items.last() == items[items.len() - 1]);
            }
        }
    }
}

/// The first item that shows an attribute called `key` decides its kind, by
/// the first value that it shows under that name: later items, and later
/// values, do not revise it.
pub proof fn lemma_first_item_decides<T>(
    registry: Registry,
    items: Seq<T>,
    shown: spec_fn(T) -> Entries,
    key: Seq<char>,
    i: int,
    j: int,
)
    requires
        distinct_keys(registry),
        !has_key(registry, key),
        0 <= i < items.len(),
        forall|k: int| 0 <= k < i ==> !has_key(shown(#[trigger] items[k]), key),
        0 <= j < shown(items[i]).len(),
        shown(items[i])[j].0 == key,
        forall|l: int| 0 <= l < j ==> (#[trigger] shown(items[i])[l]).0 != key,
    ensures
        lookup(absorb_all(registry, scan(items, shown)), key) == Some(
            classify(shown(items[i])[j].1),
        ),
{
    let head = items.take(i);
    let tail = items.skip(i + 1);
    let bag = shown(items[i]);
    assert(items =~= head.push(items[i]) + tail);
    lemma_scan_concat(head.push(items[i]), tail, shown);
    assert(head.push(items[i]).drop_last() =~= head);
    let before = scan(head, shown);
    let seen = scan(items, shown);
    assert(seen == (before + bag) + scan(tail, shown));
    assert forall|k: int| 0 <= k < head.len() implies !has_key(shown(#[trigger] head[k]), key) by {
        assert(head[k] == items[k]);
    }
    lemma_scan_misses(head, shown, key);
    let at = before.len() + j;
    assert(seen[at] == bag[j]);
    assert forall|l: int| 0 <= l < at implies (#[trigger] seen[l]).0 != key by {
        if l < before.len() {
            assert(seen[l] == before[l]);
        } else {
            assert(seen[l] == bag[l - before.len()]);
        }
    }
    lemma_first_seen_wins(registry, seen, key, at);
}

/// What a core shows of itself: its own extra attributes.
pub open spec fn core_bag() -> spec_fn(CoreView) -> Entries {
    |c: CoreView| entries_of(c.other_attributes)
}

/// What a core shows of its router: the router's extra attributes.
pub open spec fn router_bag() -> spec_fn(CoreView) -> Entries {
    |c: CoreView| entries_of(c.router.other_attributes)
}

/// What a channel shows: its extra attributes.
pub open spec fn channel_bag() -> spec_fn(ChannelView) -> Entries {
    |c: ChannelView| entries_of(c.other_attributes)
}

/// The channels of a core, none if it has no channel set.
pub open spec fn channels_of(core: CoreView) -> Seq<ChannelView> {
    match core.channels {
        Some(channels) => channels,
        None => Seq::empty(),
    }
}

/// What a core shows of its channels: the extra attributes of each, in the
/// order of the channel set.
pub open spec fn channels_bag() -> spec_fn(CoreView) -> Entries {
    |c: CoreView| scan(channels_of(c), channel_bag())
}

/// The attributes of cores that are known before any core is looked at.
pub open spec fn pinned_core() -> Registry {
    put(
        put(Seq::empty(), ID_KEY@, AttributeType::Text),
        COORDINATES_KEY@,
        AttributeType::Coordinates,
    )
}

/// The attributes of channels that are known before any channel is looked
/// at. Whether a channel faces a border router is one of them only where the
/// system has border routers.
pub open spec fn pinned_channel(with_borders: bool) -> Registry {
    let routing = put(Seq::empty(), ROUTING_KEY@, AttributeType::Routing);
    if with_borders {
        put(routing, BORDER_ROUTERS_KEY@, AttributeType::Boolean)
    } else {
        routing
    }
}

/// The catalogue that is inferred from `cores`, visited in their order, for a
/// description that names the routing algorithm `routing_algo` and has
/// border routers or not.
pub open spec fn inferred(
    cores: Seq<CoreView>,
    routing_algo: Option<Seq<char>>,
    with_borders: bool,
) -> ConfigurableAttributesView {
    ConfigurableAttributesView {
        core_attributes: absorb_all(pinned_core(), scan(cores, core_bag())),
        router_attributes: absorb_all(Seq::empty(), scan(cores, router_bag())),
        channel_attributes: absorb_all(pinned_channel(with_borders), scan(cores, channels_bag())),
        algorithms: catalogue(),
        observed_algorithm: routing_algo,
    }
}

/// The registry of the attributes of cores.
pub fn infer_core_attributes(cores: &Vec<Core>) -> (r: AttributeRegistry)
    ensures
        r@ == absorb_all(pinned_core(), scan(core_views(cores@), core_bag())),
{
    let ghost views = core_views(cores@);
    let mut registry = AttributeRegistry::new();
    registry.insert_manual(ID_KEY, AttributeType::Text);
    registry.insert_manual(COORDINATES_KEY, AttributeType::Coordinates);
    let mut i: usize = 0;
    while i < cores.len()
        invariant
            i <= cores.len(),
            views == core_views(cores@),
            registry@ == absorb_all(pinned_core(), scan(views.take(i as int), core_bag())),
        decreases cores.len() - i,
    {
        registry.extend_from_bag(cores[i].other_attributes());
        proof {
            lemma_scan_next(views, core_bag(), i as int);
            lemma_absorb_all_concat(
                pinned_core(),
                scan(views.take(i as int), core_bag()),
                core_bag()(views[i as int]),
            );
        }
        i += 1;
    }
    assert(views.take(cores.len() as int) =~= views);
    registry
}

/// The registry of the attributes of routers.
pub fn infer_router_attributes(cores: &Vec<Core>) -> (r: AttributeRegistry)
    ensures
        r@ == absorb_all(Seq::empty(), scan(core_views(cores@), router_bag())),
{
    let ghost views = core_views(cores@);
    let mut registry = AttributeRegistry::new();
    let mut i: usize = 0;
    while i < cores.len()
        invariant
            i <= cores.len(),
            views == core_views(cores@),
            registry@ == absorb_all(Seq::empty(), scan(views.take(i as int), router_bag())),
        decreases cores.len() - i,
    {
        registry.extend_from_bag(cores[i].router().other_attributes());
        proof {
            lemma_scan_next(views, router_bag(), i as int);
            lemma_absorb_all_concat(
                Seq::empty(),
                scan(views.take(i as int), router_bag()),
                router_bag()(views[i as int]),
            );
        }
        i += 1;
    }
    assert(views.take(cores.len() as int) =~= views);
    registry
}

fn scan_channels(registry: &mut AttributeRegistry, channels: &Option<Channels>)
    ensures
        final(registry)@ == absorb_all(
            old(registry)@,
            scan(
                match channels_view(*channels) {
                    Some(c) => c,
                    None => Seq::empty(),
                },
                channel_bag(),
            ),
        ),
{
    if let Some(set) = channels {
        let n = set.len();
        let mut j: usize = 0;
        while j < n
            invariant
                j <= n,
                n == set@.len(),
                registry@ == absorb_all(old(registry)@, scan(set@.take(j as int), channel_bag())),
            decreases n - j,
        {
            registry.extend_from_bag(set.at(j).other_attributes());
            proof {
                lemma_scan_next(set@, channel_bag(), j as int);
                lemma_absorb_all_concat(
                    old(registry)@,
                    scan(set@.take(j as int), channel_bag()),
                    channel_bag()(set@[j as int]),
                );
            }
            j += 1;
        }
        assert(set@.take(n as int) =~= set@);
    }
}

/// The registry of the attributes of channels, for a system that has border
/// routers or not.
pub fn infer_channel_attributes(cores: &Vec<Core>, with_borders: bool) -> (r: AttributeRegistry)
    ensures
        r@ == absorb_all(
            pinned_channel(with_borders),
            scan(core_views(cores@), channels_bag()),
        ),
{
    let ghost views = core_views(cores@);
    let mut registry = AttributeRegistry::new();
    registry.insert_manual(ROUTING_KEY, AttributeType::Routing);
    if with_borders {
        registry.insert_manual(BORDER_ROUTERS_KEY, AttributeType::Boolean);
    }
    let mut i: usize = 0;
    while i < cores.len()
        invariant
            i <= cores.len(),
            views == core_views(cores@),
            registry@ == absorb_all(
                pinned_channel(with_borders),
                scan(views.take(i as int), channels_bag()),
            ),
        decreases cores.len() - i,
    {
        scan_channels(&mut registry, cores[i].channels());
        proof {
            lemma_scan_next(views, channels_bag(), i as int);
            lemma_absorb_all_concat(
                pinned_channel(with_borders),
                scan(views.take(i as int), channels_bag()),
                channels_bag()(views[i as int]),
            );
        }
        i += 1;
    }
    assert(views.take(cores.len() as int) =~= views);
    registry
}

/// Infers the catalogue of attributes from the cores, visited in their order.
/// It never fails: a value that is not written as a number is text.
pub fn infer_attributes(
    cores: &Vec<Core>,
    routing_algo: Option<String>,
    with_borders: bool,
) -> (r: ConfigurableAttributes)
    ensures
        r@ == inferred(core_views(cores@), text_view(routing_algo), with_borders),
{
    ConfigurableAttributes::new(
        infer_core_attributes(cores),
        infer_router_attributes(cores),
        routing_algo,
        supported_algorithms(),
        infer_channel_attributes(cores, with_borders),
    )
}

} // verus!
