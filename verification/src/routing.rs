//! The routing algorithms that the tool knows how to interpret.

use vstd::prelude::*;

verus! {

/// A routing algorithm.
#[derive(Debug, Clone, Copy, PartialEq, Eq, Structural, Hash)]
pub enum RoutingAlgorithms {
    /// The routes that the description itself records on its channels.
    Observed,
    /// Along the row first, then along the column.
    RowFirst,
    /// Along the column first, then along the row.
    ColumnFirst,
}

/// The catalogue of [`supported_algorithms`] as a mathematical value.
pub open spec fn catalogue() -> Seq<RoutingAlgorithms> {
    seq![RoutingAlgorithms::Observed, RoutingAlgorithms::RowFirst, RoutingAlgorithms::ColumnFirst]
}

/// The algorithms that the tool supports, in the order in which it offers them.
pub fn supported_algorithms() -> (r: Vec<RoutingAlgorithms>)
    ensures
        r@ == catalogue(),
{
    let mut r: Vec<RoutingAlgorithms> = Vec::new();
    r.push(RoutingAlgorithms::Observed);
    r.push(RoutingAlgorithms::RowFirst);
    r.push(RoutingAlgorithms::ColumnFirst);
    assert(r@ =~= catalogue());
    r
}

impl RoutingAlgorithms {
    /// The name under which a description refers to the algorithm.
    pub fn name(&self) -> (r: &'static str)
        ensures
            r@ == match *self {
                RoutingAlgorithms::Observed => "Observed"@,
                RoutingAlgorithms::RowFirst => "RowFirst"@,
                RoutingAlgorithms::ColumnFirst => "ColumnFirst"@,
            },
    {
        match self {
            RoutingAlgorithms::Observed => "Observed",
            RoutingAlgorithms::RowFirst => "RowFirst",
            RoutingAlgorithms::ColumnFirst => "ColumnFirst",
        }
    }
}

} // verus!
