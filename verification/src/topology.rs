//! What the position of a core in the grid decides: the identifier of its
//! router and the edges on which it lies.

use vstd::prelude::*;
use crate::cores::{edge_flags, ids_of, Core, CoreView, Cores, core_views};
use crate::router::RouterView;
use crate::validation::contiguous;

verus! {

/// The core `core` with what its place in a grid of `columns` columns and
/// `rows` rows decides: its router bears the core's identifier, whatever it
/// bore before, and the edge flags are those of the core's cell.
pub open spec fn derived(core: CoreView, columns: int, rows: int) -> CoreView {
    CoreView {
        router: RouterView { id: core.id, ..core.router },
        matrix_edge: edge_flags(core.id as int, columns, rows),
        ..core
    }
}

/// The place in `cores` of a core with the identifier `id`.
pub open spec fn holder(cores: Seq<CoreView>, id: int) -> int {
    choose|j: int| 0 <= j < cores.len() && (#[trigger] cores[j]).id == id
}

/// The cores `cores` in the order of their identifiers, each with what its
/// place in the grid decides. It is meant for cores whose identifiers are
/// 0, 1, 2, ... in some order.
pub open spec fn arranged(cores: Seq<CoreView>, columns: int, rows: int) -> Seq<CoreView> {
    Seq::new(cores.len(), |i: int| derived(cores[holder(cores, i)], columns, rows))
}

/// Cores that stand in the order 0, 1, 2, ... of their identifiers and are
/// the cores `cores` in another order are, once derived, `cores` arranged.
pub proof fn lemma_arranged(
    sorted: Seq<CoreView>,
    cores: Seq<CoreView>,
    columns: int,
    rows: int,
)
    requires
        sorted.to_multiset() == cores.to_multiset(),
        contiguous(ids_of(sorted)),
    ensures
        sorted.map_values(|c: CoreView| derived(c, columns, rows)) == arranged(
            cores,
            columns,
            rows,
        ),
{
    broadcast use vstd::seq_lib::group_to_multiset_ensures;

    sorted.to_multiset_ensures();
    cores.to_multiset_ensures();
    let mapped = sorted.map_values(|c: CoreView| derived(c, columns, rows));
    assert(mapped.len() == cores.len());
    assert forall|i: int| 0 <= i < sorted.len() implies sorted[i] == cores[holder(cores, i)] by {
        assert(ids_of(sorted)[i] == i);
        assert(sorted.contains(sorted[i]));
        assert(cores.to_multiset().count(sorted[i]) > 0);
        assert(cores.contains(sorted[i]));
        let j = choose|j: int| 0 <= j < cores.len() && cores[j] == sorted[i];
        assert(cores[j].id == i);
        let h = holder(cores, i);
        assert(0 <= h < cores.len() && cores[h].id == i);
        assert(cores.contains(cores[h]));
        assert(sorted.to_multiset().count(cores[h]) > 0);
        assert(sorted.contains(cores[h]));
        let k = choose|k: int| 0 <= k < sorted.len() && sorted[k] == cores[h];
        assert(ids_of(sorted)[k] == k);
        assert(k == i);
    }
    assert(mapped =~= arranged(cores, columns, rows));
}

/// Gives every core what its place in a grid of `columns` columns and `rows`
/// rows decides: its router gets the core's identifier, and the core learns
/// on which edges it lies.
pub fn derive_topology(cores: Cores, columns: u8, rows: u8) -> (r: Cores)
    requires
        cores@.len() > 0 ==> columns > 0,
    ensures
        r@ == cores@.map_values(|c: CoreView| derived(c, columns as int, rows as int)),
{
    let ghost before = cores@;
    let list = cores.into_list();
    let mut done: Vec<Core> = Vec::new();
    for core in it: list
        invariant
            list@.len() > 0 ==> columns > 0,
            it.seq() == list@,
            before == core_views(list@),
            done@.len() == it.index(),
            forall|j: int|
                0 <= j < done@.len() ==> (#[trigger] done@[j])@ == derived(
                    before[j],
                    columns as int,
                    rows as int,
                ),
    {
        let mut core = core;
        core.populate_matrix_edge(columns, rows);
        core.mirror_router_id();
        done.push(core);
    }
    let r = Cores::new(done);
    assert(r@ =~= before.map_values(|c: CoreView| derived(c, columns as int, rows as int)));
    r
}

} // verus!
