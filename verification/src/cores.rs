//! Cores: the cells of the grid, and the collection that holds them.

use vstd::prelude::*;
use vstd::relations::{sorted_by, total_ordering};
use vstd::seq_lib::lemma_sorted_unique;
use crate::attributes::{bag_view, clone_bag, AttributeBag, Entries};
use crate::channels::{ChannelView, Channels};
use crate::router::{Router, RouterView};

verus! {

/// Where a core lies with respect to the edges of the grid.
#[derive(Debug, Clone, Copy, PartialEq, Eq, Structural)]
pub struct MatrixEdge {
    /// The core is in the first row.
    pub top: bool,
    /// The core is in the last row.
    pub bottom: bool,
    /// The core is in the first column.
    pub left: bool,
    /// The core is in the last column.
    pub right: bool,
}

/// The row of the core `id` in a grid of `columns` columns, filled row by row.
pub open spec fn row_of(id: int, columns: int) -> int {
    id / columns
}

/// The column of the core `id` in a grid of `columns` columns, filled row by row.
pub open spec fn column_of(id: int, columns: int) -> int {
    id % columns
}

/// The edges on which the core `id` lies in a grid of `rows` rows and
/// `columns` columns.
pub open spec fn edge_flags(id: int, columns: int, rows: int) -> MatrixEdge {
    MatrixEdge {
        top: row_of(id, columns) == 0,
        bottom: row_of(id, columns) == rows - 1,
        left: column_of(id, columns) == 0,
        right: column_of(id, columns) == columns - 1,
    }
}

/// The number of cells of a grid of `rows` rows and `columns` columns.
pub fn grid_cells(rows: u8, columns: u8) -> (n: usize)
    ensures
        n == rows * columns,
{
    assert(rows * columns <= 255 * 255) by (nonlinear_arith)
        requires
            rows <= 255,
            columns <= 255,
    ;
    rows as usize * columns as usize
}

/// A core as a mathematical value.
pub struct CoreView {
    pub id: u8,
    pub router: RouterView,
    pub allocated_task: Option<u16>,
    pub channels: Option<Seq<ChannelView>>,
    pub other_attributes: Option<Entries>,
    pub matrix_edge: MatrixEdge,
}

/// The view of an optional channel set.
pub open spec fn channels_view(channels: Option<Channels>) -> Option<Seq<ChannelView>> {
    match channels {
        Some(c) => Some(c@),
        None => None,
    }
}

/// One cell of the grid.
#[derive(Debug, PartialEq, Eq)]
pub struct Core {
    id: u8,
    router: Router,
    allocated_task: Option<u16>,
    channels: Option<Channels>,
    other_attributes: Option<AttributeBag>,
    matrix_edge: MatrixEdge,
}

impl View for Core {
    type V = CoreView;

    closed spec fn view(&self) -> CoreView {
        CoreView {
            id: self.id,
            router: self.router@,
            allocated_task: self.allocated_task,
            channels: channels_view(self.channels),
            other_attributes: bag_view(self.other_attributes),
            matrix_edge: self.matrix_edge,
        }
    }
}

impl Clone for Core {
    fn clone(&self) -> (r: Self)
        ensures
            r@ == self@,
    {
        let channels = match &self.channels {
            Some(c) => Some(c.clone()),
            None => None,
        };
        Core {
            id: self.id,
            router: self.router.clone(),
            allocated_task: self.allocated_task,
            channels,
            other_attributes: clone_bag(&self.other_attributes),
            matrix_edge: self.matrix_edge,
        }
    }
}

impl Core {
    /// A core as the description gives it. It lies on no edge until
    /// [`Core::populate_matrix_edge`] has placed it in a grid.
    pub fn new(
        id: u8,
        router: Router,
        allocated_task: Option<u16>,
        channels: Option<Channels>,
        other_attributes: Option<AttributeBag>,
    ) -> (r: Self)
        ensures
            r@ == (CoreView {
                id,
                router: router@,
                allocated_task,
                channels: channels_view(channels),
                other_attributes: bag_view(other_attributes),
                matrix_edge: MatrixEdge { top: false, bottom: false, left: false, right: false },
            }),
    {
        Core {
            id,
            router,
            allocated_task,
            channels,
            other_attributes,
            matrix_edge: MatrixEdge { top: false, bottom: false, left: false, right: false },
        }
    }

    /// The core's identifier.
    pub fn id(&self) -> (r: &u8)
        ensures
            *r == self@.id,
    {
        &self.id
    }

    /// The core's router.
    pub fn router(&self) -> (r: &Router)
        ensures
            r@ == self@.router,
    {
        &self.router
    }

    /// The task that is allocated to the core, if any.
    pub fn allocated_task(&self) -> (r: &Option<u16>)
        ensures
            *r == self@.allocated_task,
    {
        &self.allocated_task
    }

    /// The core's channels, if the description gives any.
    pub fn channels(&self) -> (r: &Option<Channels>)
        ensures
            channels_view(*r) == self@.channels,
    {
        &self.channels
    }

    /// The core's extra attributes, if it carries any.
    pub fn other_attributes(&self) -> (r: &Option<AttributeBag>)
        ensures
            bag_view(*r) == self@.other_attributes,
    {
        &self.other_attributes
    }

    /// The edges of the grid on which the core lies.
    pub fn matrix_edge(&self) -> (r: MatrixEdge)
        ensures
            r == self@.matrix_edge,
    {
        self.matrix_edge
    }

    /// Places the core in a grid of `columns` columns and `rows` rows and
    /// records the edges on which it lies there.
    pub fn populate_matrix_edge(&mut self, columns: u8, rows: u8)
        requires
            columns > 0,
        ensures
            final(self)@ == (CoreView {
                matrix_edge: edge_flags(old(self)@.id as int, columns as int, rows as int),
                ..old(self)@
            }),
    {
        let row = self.id / columns;
        let column = self.id % columns;
        self.matrix_edge = MatrixEdge {
            top: row == 0,
            bottom: row as u16 + 1 == rows as u16,
            left: column == 0,
            right: column as u16 + 1 == columns as u16,
        };
    }

    /// Gives the core's router the core's own identifier.
    pub fn mirror_router_id(&mut self)
        ensures
            final(self)@ == (CoreView {
                router: RouterView { id: old(self)@.id, ..old(self)@.router },
                ..old(self)@
            }),
    {
        self.router.set_id(self.id);
    }
}

/// The identifiers of `cores`, in their order.
pub open spec fn ids_of(cores: Seq<CoreView>) -> Seq<u8> {
    cores.map_values(|c: CoreView| c.id)
}

/// The order of identifiers.
pub open spec fn id_leq() -> spec_fn(u8, u8) -> bool {
    |a: u8, b: u8| a <= b
}

/// `ids` in ascending order.
pub open spec fn sorted_ids(ids: Seq<u8>) -> Seq<u8> {
    ids.sort_by(id_leq())
}

/// The identifiers of `cores` never decrease from one core to the next.
pub open spec fn ascending(cores: Seq<CoreView>) -> bool {
    forall|i: int, j: int| 0 <= i < j < cores.len() ==> cores[i].id <= cores[j].id
}

/// The cores of `cores` that bear the identifier `id`, in their order.
pub open spec fn with_id(cores: Seq<CoreView>, id: u8) -> Seq<CoreView> {
    cores.filter(|c: CoreView| c.id == id)
}

proof fn lemma_with_id_push(cores: Seq<CoreView>, core: CoreView, id: u8)
    ensures
        with_id(cores.push(core), id) == if core.id == id {
            with_id(cores, id).push(core)
        } else {
            with_id(cores, id)
        },
{
    reveal(Seq::filter);
    assert(cores.push(core).drop_last() =~= cores);
}

proof fn lemma_with_id_insert(cores: Seq<CoreView>, at: int, core: CoreView, id: u8)
    requires
        0 <= at <= cores.len(),
        forall|k: int| at <= k < cores.len() ==> cores[k].id > core.id,
    ensures
        with_id(cores.insert(at, core), id) == with_id(cores.push(core), id),
{
    let pred = |c: CoreView| c.id == id;
    let head = cores.take(at);
    let tail = cores.skip(at);
    let one = seq![core];
    assert(cores.insert(at, core) =~= (head + one) + tail);
    assert(cores.push(core) =~= (head + tail) + one);
    Seq::filter_distributes_over_add(head + one, tail, pred);
    Seq::filter_distributes_over_add(head, one, pred);
    Seq::filter_distributes_over_add(head + tail, one, pred);
    Seq::filter_distributes_over_add(head, tail, pred);
    if core.id == id {
        assert(tail.all(|x: CoreView| !pred(x)));
        tail.lemma_all_neg_filter_empty(pred);
        assert(tail.filter(pred) =~= Seq::empty());
    } else {
        assert(one.all(|x: CoreView| !pred(x)));
        one.lemma_all_neg_filter_empty(pred);
        assert(one.filter(pred) =~= Seq::empty());
    }
    assert((head.filter(pred) + one.filter(pred)) + tail.filter(pred) =~= (head.filter(pred)
        + tail.filter(pred)) + one.filter(pred));
}

/// A sequence of identifiers that never decreases and holds each identifier
/// as often as `ids` does is `ids` in ascending order.
pub proof fn lemma_sorted_ids_unique(sorted: Seq<u8>, ids: Seq<u8>)
    requires
        forall|i: int, j: int| 0 <= i < j < sorted.len() ==> sorted[i] <= sorted[j],
        sorted.to_multiset() == ids.to_multiset(),
    ensures
        sorted == sorted_ids(ids),
{
    assert(total_ordering(id_leq()));
    ids.lemma_sort_by_ensures(id_leq());
    assert(sorted_by(sorted, id_leq()));
    lemma_sorted_unique(sorted, sorted_ids(ids), id_leq());
}

/// The cores of `list` as mathematical values.
pub open spec fn core_views(list: Seq<Core>) -> Seq<CoreView> {
    list.map_values(|c: Core| c@)
}

/// The cores of a system.
#[derive(Debug, PartialEq, Eq)]
pub struct Cores {
    list: Vec<Core>,
}

impl View for Cores {
    type V = Seq<CoreView>;

    closed spec fn view(&self) -> Seq<CoreView> {
        core_views(self.list@)
    }
}

impl Clone for Cores {
    fn clone(&self) -> (r: Self)
        ensures
            r@ == self@,
    {
        let mut list: Vec<Core> = Vec::new();
        let mut i: usize = 0;
        while i < self.list.len()
            invariant
                i <= self.list.len(),
                list@.len() == i,
                forall|j: int| 0 <= j < i ==> (#[trigger] list@[j])@ == self.list@[j]@,
            decreases self.list.len() - i,
        {
            list.push(self.list[i].clone());
            i += 1;
        }
        let r = Cores { list };
        assert(r@ =~= self@);
        r
    }
}

impl Cores {
    /// The collection of the given cores, in the given order.
    pub fn new(list: Vec<Core>) -> (r: Self)
        ensures
            r@ == core_views(list@),
    {
        Cores { list }
    }

    /// The cores, in their present order.
    pub fn list(&self) -> (r: &Vec<Core>)
        ensures
            core_views(r@) == self@,
    {
        &self.list
    }

    /// Hands the cores out.
    pub fn into_list(self) -> (r: Vec<Core>)
        ensures
            core_views(r@) == self@,
    {
        self.list
    }

    /// The number of cores.
    pub fn len(&self) -> (n: usize)
        ensures
            n == self@.len(),
    {
        self.list.len()
    }

    /// Puts the cores in ascending order of their identifiers. No core is
    /// lost, added or changed, and cores that share an identifier keep their
    /// order.
    pub fn sort_by_id(&mut self)
        ensures
            ascending(final(self)@),
            forall|id: u8| #[trigger] with_id(final(self)@, id) == with_id(old(self)@, id),
            final(self)@.len() == old(self)@.len(),
            final(self)@.to_multiset() == old(self)@.to_multiset(),
            ids_of(final(self)@) == sorted_ids(ids_of(old(self)@)),
    {
        let mut input: Vec<Core> = Vec::new();
        core::mem::swap(&mut input, &mut self.list);
        let ghost before = core_views(input@);
        let mut sorted: Vec<Core> = Vec::new();
        assert(before == old(self)@);
        proof {
            let none = core_views(sorted@);
            assert(none =~= before.take(0));
            assert(ids_of(none) =~= ids_of(before.take(0)));
        }
        for core in it: input
            invariant
                it.seq() == input@,
                before == core_views(input@),
                sorted@.len() == it.index(),
                ascending(core_views(sorted@)),
                forall|id: u8|
                    #[trigger] with_id(core_views(sorted@), id) == with_id(
                        before.take(it.index() as int),
                        id,
                    ),
                core_views(sorted@).to_multiset() == before.take(
                    it.index() as int,
                ).to_multiset(),
                ids_of(core_views(sorted@)).to_multiset() == ids_of(
                    before.take(it.index() as int),
                ).to_multiset(),
        {
            let ghost done = core_views(sorted@);
            let mut at: usize = sorted.len();
            while at > 0 && sorted[at - 1].id > core.id
                invariant
                    at <= sorted.len(),
                    done == core_views(sorted@),
                    forall|k: int| at <= k < sorted.len() ==> done[k].id > core.id,
                decreases at,
            {
                at -= 1;
            }
            sorted.insert(at, core);
            proof {
                let i = it.index() as int;
                let after = core_views(sorted@);
                assert(after =~= done.insert(at as int, core@));
                assert(before.take(i + 1) =~= before.take(i).push(before[i]));
                assert(before[i] == core@);
                assert forall|id: u8| #[trigger] with_id(after, id) == with_id(
                    before.take(i + 1),
                    id,
                ) by {
                    lemma_with_id_insert(done, at as int, core@, id);
                    lemma_with_id_push(done, core@, id);
                    lemma_with_id_push(before.take(i), core@, id);
                }
                vstd::seq_lib::to_multiset_insert(done, at as int, core@);
                vstd::seq_lib::to_multiset_build(before.take(i), core@);
                assert(ids_of(after) =~= ids_of(done).insert(at as int, core@.id));
                assert(ids_of(before.take(i + 1)) =~= ids_of(before.take(i)).push(core@.id));
                vstd::seq_lib::to_multiset_insert(ids_of(done), at as int, core@.id);
                vstd::seq_lib::to_multiset_build(ids_of(before.take(i)), core@.id);
                assert(ascending(after)) by {
                    assert forall|a: int, b: int| 0 <= a < b < after.len() implies after[a].id
                        <= after[b].id by {
                        if a < at && b > at {
                            assert(after[a] == done[a] && after[b] == done[b - 1]);
                        } else if a < at && b < at {
                            assert(after[a] == done[a] && after[b] == done[b]);
                        } else if a > at {
                            assert(after[a] == done[a - 1] && after[b] == done[b - 1]);
                        } else if a == at {
                            assert(after[b] == done[b - 1]);
                        } else {
                            assert(b == at);
                            assert(after[a] == done[a]);
                            if at > 0 {
                                assert(done[at - 1].id <= core@.id);
                            }
                        }
                    }
                }
            }
        }
        proof {
            let after = core_views(sorted@);
            assert(before.take(before.len() as int) =~= before);
            assert forall|i: int, j: int| 0 <= i < j < ids_of(after).len() implies ids_of(
                after,
            )[i] <= ids_of(after)[j] by {
                assert(after[i].id <= after[j].id);
            }
            lemma_sorted_ids_unique(ids_of(after), ids_of(before));
        }
        self.list = sorted;
    }
}

} // verus!
