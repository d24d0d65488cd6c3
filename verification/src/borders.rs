//! Border routers: the points at the edge of the grid where data enters or
//! leaves the system, and their association with the cores of the edge.

use std::collections::HashMap;
use vstd::prelude::*;
use crate::attributes::{bag_view, clone_bag, AttributeBag, Entries};
use crate::channels::Directions;
use crate::cores::{edge_flags, grid_cells, MatrixEdge};
use crate::overwrite::{last_writer, lemma_pass_none, lemma_pass_some};

verus! {

/// What a border router does for the system.
#[derive(Debug, Clone, Copy, PartialEq, Eq, Structural, Hash)]
pub enum BorderKind {
    /// Data leaves the system here.
    Sink,
    /// Data enters the system here.
    Source,
}

/// A border router as a mathematical value.
pub struct BorderRouterView {
    pub core_id: u8,
    pub side: Directions,
    pub kind: BorderKind,
    pub other_attributes: Option<Entries>,
}

/// A border router: it names the core that it is meant for and the side of
/// that core on which it stands.
#[derive(Debug, PartialEq, Eq)]
pub struct BorderRouter {
    core_id: u8,
    side: Directions,
    kind: BorderKind,
    other_attributes: Option<AttributeBag>,
}

impl View for BorderRouter {
    type V = BorderRouterView;

    closed spec fn view(&self) -> BorderRouterView {
        BorderRouterView {
            core_id: self.core_id,
            side: self.side,
            kind: self.kind,
            other_attributes: bag_view(self.other_attributes),
        }
    }
}

impl Clone for BorderRouter {
    fn clone(&self) -> (r: Self)
        ensures
            r@ == self@,
    {
        BorderRouter {
            core_id: self.core_id,
            side: self.side,
            kind: self.kind,
            other_attributes: clone_bag(&self.other_attributes),
        }
    }
}

impl BorderRouter {
    /// The border router of the given kind at the side `side` of the core `core_id`.
    pub fn new(
        core_id: u8,
        side: Directions,
        kind: BorderKind,
        other_attributes: Option<AttributeBag>,
    ) -> (r: Self)
        ensures
            r@ == (BorderRouterView {
                core_id,
                side,
                kind,
                other_attributes: bag_view(other_attributes),
            }),
    {
        BorderRouter { core_id, side, kind, other_attributes }
    }

    /// The identifier of the core that the border router is meant for.
    pub fn core_id(&self) -> (r: u8)
        ensures
            r == self@.core_id,
    {
        self.core_id
    }

    /// The side of the core on which the border router stands.
    pub fn side(&self) -> (r: Directions)
        ensures
            r == self@.side,
    {
        self.side
    }

    /// Whether data enters or leaves here.
    pub fn kind(&self) -> (r: BorderKind)
        ensures
            r == self@.kind,
    {
        self.kind
    }

    /// The border router's extra attributes, if it carries any.
    pub fn other_attributes(&self) -> (r: &Option<AttributeBag>)
        ensures
            bag_view(*r) == self@.other_attributes,
    {
        &self.other_attributes
    }
}

/// A core with the edges `edge` has the outside of the grid on its side `side`.
pub open spec fn on_side(edge: MatrixEdge, side: Directions) -> bool {
    match side {
        Directions::North => edge.top,
        Directions::South => edge.bottom,
        Directions::East => edge.right,
        Directions::West => edge.left,
        Directions::Local => false,
    }
}

/// The border router `border` attaches to a core of the grid of `columns`
/// columns and `rows` rows: the core that it names exists and has the outside
/// of the grid on the side that it names.
pub open spec fn attaches(border: BorderRouterView, columns: int, rows: int) -> bool {
    &&& columns > 0
    &&& border.core_id < rows * columns
    &&& on_side(edge_flags(border.core_id as int, columns, rows), border.side)
}

/// For each border router, the core and side that it attaches to, if any.
pub open spec fn attachments(records: Seq<BorderRouterView>, columns: int, rows: int) -> Seq<
    Option<(u8, Directions)>,
> {
    records.map_values(
        |b: BorderRouterView|
            if attaches(b, columns, rows) {
                Some((b.core_id, b.side))
            } else {
                None
            },
    )
}

/// The association of cores with border routers: for each core and side to
/// which some border router attaches, the place of the last such router in
/// `records`.
pub open spec fn association(records: Seq<BorderRouterView>, columns: int, rows: int) -> Map<
    (u8, Directions),
    usize,
> {
    last_writer(attachments(records, columns, rows)).map_values(|i: int| i as usize)
}

/// The number under which a side is filed.
pub open spec fn side_rank(side: Directions) -> int {
    match side {
        Directions::North => 0,
        Directions::South => 1,
        Directions::East => 2,
        Directions::West => 3,
        Directions::Local => 4,
    }
}

/// The number under which a core and one of its sides are filed.
pub open spec fn slot(core_id: u8, side: Directions) -> u16 {
    (core_id * 5 + side_rank(side)) as u16
}

/// A map filed by slot numbers, read by core and side.
pub open spec fn by_core_and_side(filed: Map<u16, usize>) -> Map<(u8, Directions), usize> {
    Map::new(
        |k: (u8, Directions)| filed.dom().contains(slot(k.0, k.1)),
        |k: (u8, Directions)| filed[slot(k.0, k.1)],
    )
}

fn slot_of(core_id: u8, side: Directions) -> (r: u16)
    ensures
        r == slot(core_id, side),
{
    let rank: u16 = match side {
        Directions::North => 0,
        Directions::South => 1,
        Directions::East => 2,
        Directions::West => 3,
        Directions::Local => 4,
    };
    core_id as u16 * 5 + rank
}

proof fn lemma_slot_injective(a: (u8, Directions), b: (u8, Directions))
    requires
        slot(a.0, a.1) == slot(b.0, b.1),
    ensures
        a == b,
{
}

/// The border routers of a system as a mathematical value.
pub struct BordersView {
    /// The border routers, in the order of the description.
    pub records: Seq<BorderRouterView>,
    /// For a core and one of its sides, the place of the attached border router.
    pub core_border_map: Map<(u8, Directions), usize>,
}

/// The border routers of a system, with the association that
/// [`Borders::compute_core_border_map`] derives from them.
#[derive(Debug, PartialEq, Eq)]
pub struct Borders {
    records: Vec<BorderRouter>,
    core_border_map: HashMap<u16, usize>,
}

impl View for Borders {
    type V = BordersView;

    closed spec fn view(&self) -> BordersView {
        BordersView {
            records: self.records@.map_values(|b: BorderRouter| b@),
            core_border_map: by_core_and_side(self.core_border_map@),
        }
    }
}

impl Clone for Borders {
    fn clone(&self) -> (r: Self)
        ensures
            r@ == self@,
    {
        let copy = self.unassociated();
        Borders { records: copy.records, core_border_map: self.core_border_map.clone() }
    }
}

impl Borders {
    /// A copy of the border routers, not associated with any core.
    pub fn unassociated(&self) -> (r: Self)
        ensures
            r@.records == self@.records,
            r@.core_border_map == Map::<(u8, Directions), usize>::empty(),
    {
        let mut records: Vec<BorderRouter> = Vec::new();
        let mut i: usize = 0;
        while i < self.records.len()
            invariant
                i <= self.records.len(),
                records@.len() == i,
                forall|j: int| 0 <= j < i ==> (#[trigger] records@[j])@ == self.records@[j]@,
            decreases self.records.len() - i,
        {
            records.push(self.records[i].clone());
            i += 1;
        }
        assert(records@.map_values(|b: BorderRouter| b@) =~= self@.records);
        Borders::new(records)
    }

    /// The given border routers, not yet associated with any core.
    pub fn new(records: Vec<BorderRouter>) -> (r: Self)
        ensures
            r@.records == records@.map_values(|b: BorderRouter| b@),
            r@.core_border_map == Map::<(u8, Directions), usize>::empty(),
    {
        let r = Borders { records, core_border_map: HashMap::new() };
        assert(r@.core_border_map =~= Map::empty());
        r
    }

    /// The border routers, in the order of the description.
    pub fn records(&self) -> (r: &Vec<BorderRouter>)
        ensures
            r@.map_values(|b: BorderRouter| b@) == self@.records,
    {
        &self.records
    }

    /// The place in [`Borders::records`] of the border router that is
    /// attached to the side `side` of the core `core_id`, if there is one.
    pub fn border_for(&self, core_id: u8, side: Directions) -> (r: Option<usize>)
        ensures
            r == if self@.core_border_map.dom().contains((core_id, side)) {
                Some(self@.core_border_map[(core_id, side)])
            } else {
                None
            },
    {
        broadcast use vstd::std_specs::hash::group_hash_axioms;

        let key = slot_of(core_id, side);
        match self.core_border_map.get(&key) {
            Some(place) => Some(*place),
            None => None,
        }
    }

    /// Associates the border routers with the cores of a grid of `columns`
    /// columns and `rows` rows. A border router that attaches to no core of
    /// the grid is left out of the association.
    pub fn compute_core_border_map(&mut self, columns: u8, rows: u8)
        ensures
            final(self)@.records == old(self)@.records,
            final(self)@.core_border_map == association(
                old(self)@.records,
                columns as int,
                rows as int,
            ),
    {
        broadcast use vstd::std_specs::hash::group_hash_axioms;

        let ghost records = self@.records;
        let mut filed: HashMap<u16, usize> = HashMap::new();
        let n = self.records.len();
        let cells = grid_cells(rows, columns);
        let mut i: usize = 0;
        proof {
            assert(attachments(records.take(0), columns as int, rows as int) =~= Seq::empty());
            assert(by_core_and_side(filed@) =~= association(
                records.take(0),
                columns as int,
                rows as int,
            ));
        }
        while i < n
            invariant
                i <= n,
                n == self.records@.len(),
                records == self.records@.map_values(|b: BorderRouter| b@),
                cells == rows * columns,
                by_core_and_side(filed@) == association(
                    records.take(i as int),
                    columns as int,
                    rows as int,
                ),
            decreases n - i,
        {
            let border = &self.records[i];
            let ghost seen = attachments(records.take(i as int), columns as int, rows as int);
            let ghost next = attachments(records.take(i + 1), columns as int, rows as int);
            assert(border@ == records[i as int]);
            let attached = columns > 0 && (border.core_id as usize) < cells && {
                let row = border.core_id / columns;
                let column = border.core_id % columns;
                match border.side {
                    Directions::North => row == 0,
                    Directions::South => row as u16 + 1 == rows as u16,
                    Directions::East => column as u16 + 1 == columns as u16,
                    Directions::West => column == 0,
                    Directions::Local => false,
                }
            };
            assert(attached == attaches(border@, columns as int, rows as int));
            if attached {
                let key = slot_of(border.core_id, border.side);
                let ghost before = filed@;
                filed.insert(key, i);
                proof {
                    let k = (border@.core_id, border@.side);
                    assert(next =~= seen.push(Some(k)));
                    lemma_pass_some(seen, k);
                    assert forall|o: (u8, Directions)|
                        slot(o.0, o.1) == slot(k.0, k.1) implies o == k by {
                        lemma_slot_injective(o, k);
                    }
                    assert(by_core_and_side(filed@) =~= by_core_and_side(before).insert(k, i));
                    assert(association(records.take(i + 1), columns as int, rows as int)
                        =~= association(records.take(i as int), columns as int, rows as int).insert(
                        k,
                        i,
                    ));
                }
            } else {
                proof {
                    assert(next =~= seen.push(None));
                    lemma_pass_none(seen);
                }
            }
            i += 1;
        }
        assert(records.take(n as int) =~= records);
        self.core_border_map = filed;
    }
}

} // verus!
