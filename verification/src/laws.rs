//! What holds of every construction, stated over the mathematical values of
//! descriptions and models.

use vstd::prelude::*;
use crate::attributes::{entries_of, has_key, lemma_put, lookup, put};
use crate::configurable_attributes::{classify, AttributeType, COORDINATES_KEY, ID_KEY};
use crate::cores::{edge_flags, id_leq, ids_of, sorted_ids};
use crate::inference::{core_bag, lemma_first_item_decides, pinned_core, router_bag};
use crate::error::ErrorView;
use crate::placement::{lemma_placement, lemma_placement_injective, placement};
use crate::system::{
    lemma_every_identifier_held, lemma_reconstruction, outcome, DecodedSystemView,
    ManycoreSystemView,
};
use crate::topology::{derived, holder};
use crate::validation::{contiguous, count_error, sequence_error, validation_error};

verus! {

/// A constructed model has exactly as many cores as its grid has cells.
pub proof fn lemma_core_count(d: DecodedSystemView, m: ManycoreSystemView)
    requires
        outcome(d) == Ok::<ManycoreSystemView, ErrorView>(m),
    ensures
        m.cores.len() == m.rows * m.columns,
        m.rows == d.rows,
        m.columns == d.columns,
{
}

/// A description whose number of cores is not the number of cells of its
/// grid gives the count error and no model.
pub proof fn lemma_count_mismatch(d: DecodedSystemView)
    requires
        d.cores.len() != d.rows * d.columns,
    ensures
        outcome(d) == Err::<ManycoreSystemView, ErrorView>(
            count_error(d.rows, d.columns, d.cores.len() as int),
        ),
{
    assert(ids_of(d.cores).len() == d.cores.len());
}

/// In a constructed model the core at place `i` has the identifier `i`, and
/// the identifiers of the description, put in ascending order, are
/// 0, 1, 2, ... without gap or repeat.
pub proof fn lemma_identifier_contiguity(d: DecodedSystemView, m: ManycoreSystemView)
    requires
        outcome(d) == Ok::<ManycoreSystemView, ErrorView>(m),
    ensures
        contiguous(sorted_ids(ids_of(d.cores))),
        contiguous(ids_of(m.cores)),
        forall|i: int| 0 <= i < m.cores.len() ==> (#[trigger] m.cores[i]).id == i,
{
    assert forall|i: int| 0 <= i < m.cores.len() implies (#[trigger] m.cores[i]).id == i by {
        lemma_every_identifier_held(d, i);
    }
}

/// A description with the right number of cores whose identifiers, put in
/// ascending order, are not 0, 1, 2, ... gives the sequence error of its
/// first departure and no model.
pub proof fn lemma_sequence_violation(d: DecodedSystemView)
    requires
        d.cores.len() == d.rows * d.columns,
        !contiguous(sorted_ids(ids_of(d.cores))),
    ensures
        outcome(d) == Err::<ManycoreSystemView, ErrorView>(
            sequence_error(sorted_ids(ids_of(d.cores))),
        ),
{
    assert(ids_of(d.cores).len() == d.cores.len());
}

/// In a constructed model every router bears the identifier of its core.
pub proof fn lemma_router_mirroring(d: DecodedSystemView, m: ManycoreSystemView, i: int)
    requires
        outcome(d) == Ok::<ManycoreSystemView, ErrorView>(m),
        0 <= i < m.cores.len(),
    ensures
        m.cores[i].router.id == m.cores[i].id,
{
}

/// In a constructed model the edge flags of the core at place `i` are those
/// of the cell `i` of the grid, filled row by row.
pub proof fn lemma_edge_flags(d: DecodedSystemView, m: ManycoreSystemView, i: int)
    requires
        outcome(d) == Ok::<ManycoreSystemView, ErrorView>(m),
        0 <= i < m.cores.len(),
    ensures
        m.cores[i].matrix_edge == edge_flags(i, m.columns as int, m.rows as int),
{
    lemma_every_identifier_held(d, i);
}

/// No two cores of a description that passes validation share an identifier.
pub proof fn lemma_identifiers_distinct(d: DecodedSystemView, j: int, k: int)
    requires
        validation_error(d.rows, d.columns, ids_of(d.cores)).is_none(),
        0 <= j < k < d.cores.len(),
    ensures
        d.cores[j].id != d.cores[k].id,
{
    broadcast use vstd::seq_lib::group_to_multiset_ensures;
    broadcast use vstd::multiset::group_multiset_axioms;

    let ids = ids_of(d.cores);
    let sorted = sorted_ids(ids);
    ids.lemma_sort_by_ensures(id_leq());
    if ids[j] == ids[k] {
        let v = ids[j];
        ids.to_multiset_ensures();
        sorted.to_multiset_ensures();
        assert(ids.remove(k)[j] == v);
        assert(ids.remove(k).contains(v));
        ids.remove(k).to_multiset_ensures();
        vstd::seq_lib::to_multiset_remove(ids, k);
        assert(ids.remove(k).to_multiset().count(v) >= 1);
        assert(ids.to_multiset().remove(v).count(v) >= 1);
        assert(ids.to_multiset().count(v) >= 2);
        assert(sorted.len() == ids.len());
        assert(sorted[v as int] == v);
        let rest = sorted.remove(v as int);
        vstd::seq_lib::to_multiset_remove(sorted, v as int);
        rest.to_multiset_ensures();
        assert(rest.to_multiset().count(v) >= 1);
        assert(rest.contains(v));
        let p = choose|p: int| 0 <= p < rest.len() && rest[p] == v;
        if p < v {
            assert(rest[p] == sorted[p]);
        } else {
            assert(rest[p] == sorted[p + 1]);
        }
    }
}

/// A constructed model holds every core of the description at the place of
/// the core's identifier, with the router identifier and the edge flags
/// derived anew and nothing else changed.
pub proof fn lemma_model_holds_every_core(d: DecodedSystemView, m: ManycoreSystemView, j: int)
    requires
        outcome(d) == Ok::<ManycoreSystemView, ErrorView>(m),
        0 <= j < d.cores.len(),
    ensures
        0 <= d.cores[j].id < m.cores.len(),
        m.cores[d.cores[j].id as int] == derived(d.cores[j], d.columns as int, d.rows as int),
{
    broadcast use vstd::seq_lib::group_to_multiset_ensures;

    let ids = ids_of(d.cores);
    let sorted = sorted_ids(ids);
    let id = d.cores[j].id as int;
    ids.lemma_sort_by_ensures(id_leq());
    ids.to_multiset_ensures();
    sorted.to_multiset_ensures();
    assert(ids[j] == id);
    assert(ids.contains(ids[j]));
    assert(sorted.to_multiset().count(ids[j]) > 0);
    assert(sorted.contains(ids[j]));
    let p = choose|p: int| 0 <= p < sorted.len() && sorted[p] == ids[j];
    assert(sorted[p] == p);
    assert(sorted.len() == ids.len());
    lemma_every_identifier_held(d, id);
    let h = holder(d.cores, id);
    if h < j {
        lemma_identifiers_distinct(d, h, j);
    } else if j < h {
        lemma_identifiers_distinct(d, j, h);
    }
}

/// The tasks of the placement index of a constructed model are exactly the
/// tasks that some core of the description declares as allocated to it, and
/// each is filed with the place of a core that declares it.
pub proof fn lemma_placement_of_model(d: DecodedSystemView, m: ManycoreSystemView, task: u16)
    requires
        outcome(d) == Ok::<ManycoreSystemView, ErrorView>(m),
    ensures
        m.task_core_map.dom().contains(task) <==> exists|j: int|
            0 <= j < d.cores.len() && (#[trigger] d.cores[j]).allocated_task == Some(task),
        m.task_core_map.dom().contains(task) ==> {
            let host = m.task_core_map[task] as int;
            &&& 0 <= host < m.cores.len()
            &&& m.cores[host].id == host
            &&& m.cores[host].allocated_task == Some(task)
        },
{
    assert(m.cores.len() <= usize::MAX) by (nonlinear_arith)
        requires
            m.cores.len() == d.rows * d.columns,
            d.rows <= 255,
            d.columns <= 255,
    ;
    lemma_placement(m.cores, task);
    assert(m.task_core_map == placement(m.cores));
    if m.task_core_map.dom().contains(task) {
        let host = m.task_core_map[task] as int;
        lemma_every_identifier_held(d, host);
        let j = holder(d.cores, host);
        assert(d.cores[j].allocated_task == Some(task));
    }
    if exists|j: int|
        0 <= j < d.cores.len() && (#[trigger] d.cores[j]).allocated_task == Some(task) {
        let j = choose|j: int|
            0 <= j < d.cores.len() && (#[trigger] d.cores[j]).allocated_task == Some(task);
        lemma_model_holds_every_core(d, m, j);
        assert(m.cores[d.cores[j].id as int].allocated_task == Some(task));
    }
}

/// The placement index of a constructed model is injective: no two tasks are
/// filed with the same core.
pub proof fn lemma_placement_injective_of_model(
    d: DecodedSystemView,
    m: ManycoreSystemView,
    first: u16,
    second: u16,
)
    requires
        outcome(d) == Ok::<ManycoreSystemView, ErrorView>(m),
        m.task_core_map.dom().contains(first),
        m.task_core_map.dom().contains(second),
        m.task_core_map[first] == m.task_core_map[second],
    ensures
        first == second,
{
    assert(m.cores.len() <= usize::MAX) by (nonlinear_arith)
        requires
            m.cores.len() == d.rows * d.columns,
            d.rows <= 255,
            d.columns <= 255,
    ;
    lemma_placement_injective(m.cores, first, second);
}

/// In a constructed model the kind of an attribute of cores that is not
/// pinned is decided by the first core, in the order of identifiers, that
/// carries the attribute, and by the first value that it carries under the
/// name: a later core with another kind of value does not revise it.
pub proof fn lemma_first_core_decides(
    d: DecodedSystemView,
    m: ManycoreSystemView,
    key: Seq<char>,
    i: int,
    j: int,
)
    requires
        outcome(d) == Ok::<ManycoreSystemView, ErrorView>(m),
        key != ID_KEY@,
        key != COORDINATES_KEY@,
        0 <= i < m.cores.len(),
        forall|k: int|
            0 <= k < i ==> !has_key(entries_of((#[trigger] m.cores[k]).other_attributes), key),
        0 <= j < entries_of(m.cores[i].other_attributes).len(),
        entries_of(m.cores[i].other_attributes)[j].0 == key,
        forall|l: int|
            0 <= l < j ==> (#[trigger] entries_of(m.cores[i].other_attributes)[l]).0 != key,
    ensures
        lookup(m.configurable_attributes.core_attributes, key) == Some(
            classify(entries_of(m.cores[i].other_attributes)[j].1),
        ),
{
    let none = Seq::<(Seq<char>, AttributeType)>::empty();
    let first = put(none, ID_KEY@, AttributeType::Text);
    lemma_put(none, ID_KEY@, AttributeType::Text);
    lemma_put(first, COORDINATES_KEY@, AttributeType::Coordinates);
    assert(!has_key(none, key));
    assert(lookup(pinned_core(), key) == lookup(none, key));
    lemma_first_item_decides(pinned_core(), m.cores, core_bag(), key, i, j);
}

/// In a constructed model the kind of an attribute of routers is decided by
/// the first router, in the order of identifiers, that carries the
/// attribute, and by the first value that it carries under the name.
pub proof fn lemma_first_router_decides(
    d: DecodedSystemView,
    m: ManycoreSystemView,
    key: Seq<char>,
    i: int,
    j: int,
)
    requires
        outcome(d) == Ok::<ManycoreSystemView, ErrorView>(m),
        0 <= i < m.cores.len(),
        forall|k: int|
            0 <= k < i ==> !has_key(
                entries_of((#[trigger] m.cores[k]).router.other_attributes),
                key,
            ),
        0 <= j < entries_of(m.cores[i].router.other_attributes).len(),
        entries_of(m.cores[i].router.other_attributes)[j].0 == key,
        forall|l: int|
            0 <= l < j ==> (#[trigger] entries_of(m.cores[i].router.other_attributes)[l]).0
                != key,
    ensures
        lookup(m.configurable_attributes.router_attributes, key) == Some(
            classify(entries_of(m.cores[i].router.other_attributes)[j].1),
        ),
{
    let none = Seq::<(Seq<char>, AttributeType)>::empty();
    assert(!has_key(none, key));
    lemma_first_item_decides(none, m.cores, router_bag(), key, i, j);
}

/// Constructing again from what a document holds of a constructed model
/// succeeds and gives the same model.
pub proof fn lemma_round_trip(d: DecodedSystemView, m: ManycoreSystemView)
    requires
        outcome(d) == Ok::<ManycoreSystemView, ErrorView>(m),
    ensures
        outcome(crate::system::wire(m)) == Ok::<ManycoreSystemView, ErrorView>(m),
{
    lemma_reconstruction(d);
}

} // verus!
