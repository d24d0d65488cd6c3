//! The system: the description as it is decoded, and the model that is
//! constructed from it.

use std::collections::HashMap;
use vstd::prelude::*;
use crate::borders::{association, BorderRouterView, Borders, BordersView};
use crate::configurable_attributes::{
    clone_text, text_view, ConfigurableAttributes, ConfigurableAttributesView,
};
use crate::cores::{ids_of, lemma_sorted_ids_unique, sorted_ids, CoreView, Cores, id_leq};
use crate::error::{ErrorView, ManycoreError};
use crate::graph::{TaskGraph, TaskGraphView};
use crate::inference::{infer_attributes, inferred};
use crate::placement::{index_tasks, placement};
use crate::topology::{arranged, derive_topology, derived, holder, lemma_arranged};
use crate::validation::{contiguous, validate, validation_error};

verus! {

/// A decoded description as a mathematical value.
pub struct DecodedSystemView {
    pub xmlns: Seq<char>,
    pub xmlns_si: Seq<char>,
    pub xsi_schema_location: Seq<char>,
    pub rows: u8,
    pub columns: u8,
    pub routing_algo: Option<Seq<char>>,
    pub task_graph: TaskGraphView,
    pub cores: Seq<CoreView>,
    pub borders: Option<Seq<BorderRouterView>>,
}

/// The border routers of an optional border set.
pub open spec fn records_view(borders: Option<Borders>) -> Option<Seq<BorderRouterView>> {
    match borders {
        Some(b) => Some(b@.records),
        None => None,
    }
}

/// The view of an optional border set.
pub open spec fn borders_view(borders: Option<Borders>) -> Option<BordersView> {
    match borders {
        Some(b) => Some(b@),
        None => None,
    }
}

/// A description of a system as it comes out of decoding: what the document
/// says and nothing that is derived from it. Whatever the cores and border
/// routers hold as derived data is not looked at.
#[derive(Debug, PartialEq, Eq)]
pub struct DecodedSystem {
    /// The namespace of the document.
    pub xmlns: String,
    /// The namespace of the schema instance.
    pub xmlns_si: String,
    /// Where the schema of the document is found.
    pub xsi_schema_location: String,
    /// The number of rows of the grid.
    pub rows: u8,
    /// The number of columns of the grid.
    pub columns: u8,
    /// The routing algorithm that produced the channel data, if it is named.
    pub routing_algo: Option<String>,
    /// The task graph of the application.
    pub task_graph: TaskGraph,
    /// The cores, in the order of the document.
    pub cores: Cores,
    /// The border routers, if the document has any.
    pub borders: Option<Borders>,
}

impl View for DecodedSystem {
    type V = DecodedSystemView;

    open spec fn view(&self) -> DecodedSystemView {
        DecodedSystemView {
            xmlns: self.xmlns@,
            xmlns_si: self.xmlns_si@,
            xsi_schema_location: self.xsi_schema_location@,
            rows: self.rows,
            columns: self.columns,
            routing_algo: text_view(self.routing_algo),
            task_graph: self.task_graph@,
            cores: self.cores@,
            borders: records_view(self.borders),
        }
    }
}

/// A model as a mathematical value.
pub struct ManycoreSystemView {
    pub xmlns: Seq<char>,
    pub xmlns_si: Seq<char>,
    pub xsi_schema_location: Seq<char>,
    pub rows: u8,
    pub columns: u8,
    pub routing_algo: Option<Seq<char>>,
    pub task_graph: TaskGraphView,
    pub cores: Seq<CoreView>,
    pub borders: Option<BordersView>,
    pub task_core_map: Map<u16, usize>,
    pub configurable_attributes: ConfigurableAttributesView,
}

/// The border routers `records` with their association in a grid of
/// `columns` columns and `rows` rows.
pub open spec fn associated(records: Option<Seq<BorderRouterView>>, columns: int, rows: int) -> Option<
    BordersView,
> {
    match records {
        Some(r) => Some(BordersView { records: r, core_border_map: association(r, columns, rows) }),
        None => None,
    }
}

/// The model of the description `d`. It is meant for a description that
/// passes validation.
pub open spec fn model_of(d: DecodedSystemView) -> ManycoreSystemView {
    let cores = arranged(d.cores, d.columns as int, d.rows as int);
    ManycoreSystemView {
        xmlns: d.xmlns,
        xmlns_si: d.xmlns_si,
        xsi_schema_location: d.xsi_schema_location,
        rows: d.rows,
        columns: d.columns,
        routing_algo: d.routing_algo,
        task_graph: d.task_graph,
        cores,
        borders: associated(d.borders, d.columns as int, d.rows as int),
        task_core_map: placement(cores),
        configurable_attributes: inferred(cores, d.routing_algo, d.borders.is_some()),
    }
}

/// What the construction makes of the description `d`: the error of its
/// validation, or else its model.
pub open spec fn outcome(d: DecodedSystemView) -> Result<ManycoreSystemView, ErrorView> {
    match validation_error(d.rows, d.columns, ids_of(d.cores)) {
        Some(e) => Err(e),
        None => Ok(model_of(d)),
    }
}

/// What a document holds of the model `m`: the model without what was
/// derived for it. The cores keep their derived fields, which a construction
/// computes anew.
pub open spec fn wire(m: ManycoreSystemView) -> DecodedSystemView {
    DecodedSystemView {
        xmlns: m.xmlns,
        xmlns_si: m.xmlns_si,
        xsi_schema_location: m.xsi_schema_location,
        rows: m.rows,
        columns: m.columns,
        routing_algo: m.routing_algo,
        task_graph: m.task_graph,
        cores: m.cores,
        borders: match m.borders {
            Some(b) => Some(b.records),
            None => None,
        },
    }
}

/// A model is well formed when it is what the construction makes of its own
/// document: its derived data are those that its document decides.
pub open spec fn well_formed(m: ManycoreSystemView) -> bool {
    outcome(wire(m)) == Ok::<ManycoreSystemView, ErrorView>(m)
}

/// In a description that passes validation every identifier from 0 up to the
/// number of cores is the identifier of some core.
pub proof fn lemma_every_identifier_held(d: DecodedSystemView, id: int)
    requires
        validation_error(d.rows, d.columns, ids_of(d.cores)).is_none(),
        0 <= id < d.cores.len(),
    ensures
        0 <= holder(d.cores, id) < d.cores.len(),
        d.cores[holder(d.cores, id)].id == id,
{
    broadcast use vstd::seq_lib::group_to_multiset_ensures;

    let ids = ids_of(d.cores);
    let sorted = sorted_ids(ids);
    ids.lemma_sort_by_ensures(id_leq());
    assert(sorted.len() == ids.len()) by {
        sorted.to_multiset_ensures();
        ids.to_multiset_ensures();
    }
    assert(sorted[id] == id);
    assert(sorted.contains(sorted[id]));
    sorted.to_multiset_ensures();
    ids.to_multiset_ensures();
    assert(ids.to_multiset().count(sorted[id]) > 0);
    assert(ids.contains(sorted[id]));
    let j = choose|j: int| 0 <= j < ids.len() && ids[j] == sorted[id];
    assert(d.cores[j].id == id);
}

/// Constructing again from the document of a constructed model gives the
/// same model: the derived data are computed anew, and identically.
pub proof fn lemma_reconstruction(d: DecodedSystemView)
    requires
        validation_error(d.rows, d.columns, ids_of(d.cores)).is_none(),
    ensures
        outcome(d) == Ok::<ManycoreSystemView, ErrorView>(model_of(d)),
        well_formed(model_of(d)),
{
    let m = model_of(d);
    let columns = d.columns as int;
    let rows = d.rows as int;
    let cores = m.cores;
    assert forall|i: int| 0 <= i < cores.len() implies (#[trigger] cores[i]).id == i by {
        lemma_every_identifier_held(d, i);
    }
    let ids = ids_of(cores);
    assert(contiguous(ids));
    assert(forall|i: int, j: int| 0 <= i < j < ids.len() ==> ids[i] <= ids[j]);
    lemma_sorted_ids_unique(ids, ids);
    assert(validation_error(m.rows, m.columns, ids).is_none());
    assert forall|i: int| 0 <= i < cores.len() implies holder(cores, i) == i by {
        assert(cores[i].id == i);
        let h = holder(cores, i);
        assert(0 <= h < cores.len() && cores[h].id == i);
    }
    assert(arranged(cores, columns, rows) =~= cores);
    assert(wire(m).borders == d.borders);
    assert(model_of(wire(m)) == m);
}

/// A validated model of a many-core system: the cores stand in the order of
/// their identifiers, and everything that is derived from the description is
/// in place.
#[derive(Debug, PartialEq, Eq)]
pub struct ManycoreSystem {
    xmlns: String,
    xmlns_si: String,
    xsi_schema_location: String,
    rows: u8,
    columns: u8,
    routing_algo: Option<String>,
    task_graph: TaskGraph,
    cores: Cores,
    borders: Option<Borders>,
    task_core_map: HashMap<u16, usize>,
    configurable_attributes: ConfigurableAttributes,
}

impl View for ManycoreSystem {
    type V = ManycoreSystemView;

    closed spec fn view(&self) -> ManycoreSystemView {
        ManycoreSystemView {
            xmlns: self.xmlns@,
            xmlns_si: self.xmlns_si@,
            xsi_schema_location: self.xsi_schema_location@,
            rows: self.rows,
            columns: self.columns,
            routing_algo: text_view(self.routing_algo),
            task_graph: self.task_graph@,
            cores: self.cores@,
            borders: borders_view(self.borders),
            task_core_map: self.task_core_map@,
            configurable_attributes: self.configurable_attributes@,
        }
    }
}

impl ManycoreSystem {
    #[verifier::type_invariant]
    closed spec fn inv(&self) -> bool {
        well_formed(self@)
    }

    /// Constructs the model of a decoded description: validates the cores,
    /// puts them in the order of their identifiers, gives each router the
    /// identifier of its core and each core its edge flags, associates the
    /// border routers, indexes the allocated tasks and infers the catalogue
    /// of attributes. It fails with the first error of the validation, and
    /// then no model is made.
    pub fn construct(decoded: DecodedSystem) -> (r: Result<ManycoreSystem, ManycoreError>)
        ensures
            match r {
                Ok(m) => outcome(decoded@) == Ok::<ManycoreSystemView, ErrorView>(m@)
                    && well_formed(m@),
                Err(e) => outcome(decoded@) == Err::<ManycoreSystemView, ErrorView>(e@),
            },
    {
        let ghost d = decoded@;
        let DecodedSystem {
            xmlns,
            xmlns_si,
            xsi_schema_location,
            rows,
            columns,
            routing_algo,
            task_graph,
            cores,
            borders,
        } = decoded;
        let mut cores = cores;
        match validate(rows, columns, &mut cores) {
            Err(e) => {
                return Err(e);
            },
            Ok(_) => {},
        }
        let ghost sorted = cores@;
        assert(cores@.len() > 0 ==> columns > 0) by (nonlinear_arith)
            requires
                cores@.len() == rows * columns,
        ;
        let cores = derive_topology(cores, columns, rows);
        proof {
            lemma_arranged(sorted, d.cores, columns as int, rows as int);
            assert(cores@ =~= arranged(d.cores, columns as int, rows as int));
        }
        let task_core_map = index_tasks(cores.list());
        let borders = match borders {
            Some(b) => {
                let mut b = b;
                b.compute_core_border_map(columns, rows);
                Some(b)
            },
            None => None,
        };
        let observed = clone_text(&routing_algo);
        let configurable_attributes = infer_attributes(cores.list(), observed, borders.is_some());
        proof {
            lemma_reconstruction(d);
        }
        let m = ManycoreSystem {
            xmlns,
            xmlns_si,
            xsi_schema_location,
            rows,
            columns,
            routing_algo,
            task_graph,
            cores,
            borders,
            task_core_map,
            configurable_attributes,
        };
        assert(m@ == model_of(d));
        Ok(m)
    }
    /// What a document holds of the model: a copy of the model without the
    /// association of the border routers, the placement index and the
    /// catalogue of attributes.
    pub fn to_decoded(&self) -> (r: DecodedSystem)
        ensures
            r@ == wire(self@),
            outcome(r@) == Ok::<ManycoreSystemView, ErrorView>(self@),
    {
        proof {
            use_type_invariant(self);
        }
        let borders = match &self.borders {
            Some(b) => Some(b.unassociated()),
            None => None,
        };
        DecodedSystem {
            xmlns: self.xmlns.clone(),
            xmlns_si: self.xmlns_si.clone(),
            xsi_schema_location: self.xsi_schema_location.clone(),
            rows: self.rows,
            columns: self.columns,
            routing_algo: clone_text(&self.routing_algo),
            task_graph: self.task_graph.clone(),
            cores: self.cores.clone(),
            borders,
        }
    }

    /// The number of rows of the grid.
    pub fn rows(&self) -> (r: &u8)
        ensures
            *r == self@.rows,
            well_formed(self@),
    {
        proof {
            use_type_invariant(self);
        }
        &self.rows
    }

    /// The number of columns of the grid.
    pub fn columns(&self) -> (r: &u8)
        ensures
            *r == self@.columns,
            well_formed(self@),
    {
        proof {
            use_type_invariant(self);
        }
        &self.columns
    }

    /// The routing algorithm that produced the channel data, if it is named.
    pub fn routing_algo(&self) -> (r: &Option<String>)
        ensures
            text_view(*r) == self@.routing_algo,
            well_formed(self@),
    {
        proof {
            use_type_invariant(self);
        }
        &self.routing_algo
    }

    /// The task graph of the application.
    pub fn task_graph(&self) -> (r: &TaskGraph)
        ensures
            r@ == self@.task_graph,
            well_formed(self@),
    {
        proof {
            use_type_invariant(self);
        }
        &self.task_graph
    }

    /// Replaces the task graph and leaves the rest of the model alone.
    pub fn set_task_graph(&mut self, task_graph: TaskGraph)
        ensures
            final(self)@ == (ManycoreSystemView { task_graph: task_graph@, ..old(self)@ }),
            well_formed(final(self)@),
    {
        proof {
            use_type_invariant(&*self);
        }
        self.task_graph = task_graph;
    }

    /// The cores, in the order of their identifiers.
    pub fn cores(&self) -> (r: &Cores)
        ensures
            r@ == self@.cores,
            well_formed(self@),
    {
        proof {
            use_type_invariant(self);
        }
        &self.cores
    }

    /// The border routers with their association, if the system has any.
    pub fn borders(&self) -> (r: &Option<Borders>)
        ensures
            borders_view(*r) == self@.borders,
            well_formed(self@),
    {
        proof {
            use_type_invariant(self);
        }
        &self.borders
    }

    /// The placement index: for each allocated task, the place of the core
    /// that hosts it.
    pub fn task_core_map(&self) -> (r: &HashMap<u16, usize>)
        ensures
            r@ == self@.task_core_map,
            well_formed(self@),
    {
        proof {
            use_type_invariant(self);
        }
        &self.task_core_map
    }

    /// The catalogue of attributes that can be requested for display.
    pub fn configurable_attributes(&self) -> (r: &ConfigurableAttributes)
        ensures
            r@ == self@.configurable_attributes,
            well_formed(self@),
    {
        proof {
            use_type_invariant(self);
        }
        &self.configurable_attributes
    }

    /// The namespace of the document.
    pub fn xmlns(&self) -> (r: &String)
        ensures
            r@ == self@.xmlns,
    {
        &self.xmlns
    }

    /// The namespace of the schema instance.
    pub fn xmlns_si(&self) -> (r: &String)
        ensures
            r@ == self@.xmlns_si,
    {
        &self.xmlns_si
    }

    /// Where the schema of the document is found.
    pub fn xsi_schema_location(&self) -> (r: &String)
        ensures
            r@ == self@.xsi_schema_location,
    {
        &self.xsi_schema_location
    }
}

} // verus!
