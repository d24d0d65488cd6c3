//! The structural checks that a description must pass: the number of cores
//! and the sequence of their identifiers.

use vstd::prelude::*;
use crate::cores::{
    ascending, core_views, grid_cells, ids_of, sorted_ids, with_id, Core, Cores,
};
use crate::error::{ErrorView, ManycoreError, ManycoreErrorKind};

verus! {

/// The identifiers `ids` are 0, 1, 2, ... in this order.
pub open spec fn contiguous(ids: Seq<u8>) -> bool {
    forall|i: int| 0 <= i < ids.len() ==> ids[i] == i
}

/// The place `i` is the first at which `ids` departs from 0, 1, 2, ...
pub open spec fn is_first_violation(ids: Seq<u8>, i: int) -> bool {
    &&& 0 <= i < ids.len()
    &&& ids[i] != i
    &&& forall|j: int| 0 <= j < i ==> ids[j] == j
}

/// The first place at which `ids` departs from 0, 1, 2, ...
pub open spec fn first_violation(ids: Seq<u8>) -> int {
    choose|i: int| is_first_violation(ids, i)
}

/// The error that tells where the identifiers `ids`, taken in ascending
/// order, first depart from 0, 1, 2, ...
pub open spec fn sequence_error(ids: Seq<u8>) -> ErrorView {
    let i = first_violation(ids);
    ErrorView::IdentifierSequenceError {
        expected: i,
        encountered: ids[i] as int,
        previous: if i == 0 {
            None
        } else {
            Some(ids[i - 1] as int)
        },
    }
}

/// The error that tells that `actual` cores were found in a grid of `rows`
/// rows and `columns` columns.
pub open spec fn count_error(rows: u8, columns: u8, actual: int) -> ErrorView {
    ErrorView::StructuralMismatch {
        expected: rows * columns,
        actual,
        rows: rows as int,
        columns: columns as int,
    }
}

/// What is wrong with cores of the identifiers `ids` in a grid of `rows` rows
/// and `columns` columns: a wrong count comes first, then the first departure
/// of the identifiers, in ascending order, from 0, 1, 2, ...
pub open spec fn validation_error(rows: u8, columns: u8, ids: Seq<u8>) -> Option<ErrorView> {
    if ids.len() != rows * columns {
        Some(count_error(rows, columns, ids.len() as int))
    } else if !contiguous(sorted_ids(ids)) {
        Some(sequence_error(sorted_ids(ids)))
    } else {
        None
    }
}

/// The first departure from 0, 1, 2, ... is determined.
pub proof fn lemma_first_violation_is(ids: Seq<u8>, i: int)
    requires
        is_first_violation(ids, i),
    ensures
        first_violation(ids) == i,
        !contiguous(ids),
{
    let f = first_violation(ids);
    assert(is_first_violation(ids, f));
    if f < i {
        assert(ids[f] == f);
    } else if i < f {
        assert(ids[i] == i);
    }
}

/// Checks that a grid of `rows` rows and `columns` columns has `actual` cells.
pub fn check_count(rows: u8, columns: u8, actual: usize) -> (r: Result<(), ManycoreError>)
    ensures
        match r {
            Ok(_) => actual == rows * columns,
            Err(e) => actual != rows * columns && e@ == count_error(rows, columns, actual as int),
        },
{
    let expected = grid_cells(rows, columns);
    if actual != expected {
        Err(
            ManycoreError::new(
                ManycoreErrorKind::StructuralMismatch { expected, actual, rows, columns },
            ),
        )
    } else {
        Ok(())
    }
}

/// Checks that the identifiers of `cores`, in the order of `cores`, are
/// 0, 1, 2, ... and tells the first departure otherwise.
pub fn check_sequence(cores: &Vec<Core>) -> (r: Result<(), ManycoreError>)
    ensures
        match r {
            Ok(_) => contiguous(ids_of(core_views(cores@))),
            Err(e) => !contiguous(ids_of(core_views(cores@))) && e@ == sequence_error(
                ids_of(core_views(cores@)),
            ),
        },
{
    let ghost ids = ids_of(core_views(cores@));
    let mut previous: Option<u8> = None;
    let mut i: usize = 0;
    while i < cores.len()
        invariant
            i <= cores.len(),
            ids == ids_of(core_views(cores@)),
            forall|j: int| 0 <= j < i ==> ids[j] == j,
            previous == if i == 0 {
                None
            } else {
                Some(ids[i - 1])
            },
        decreases cores.len() - i,
    {
        let encountered = *cores[i].id();
        assert(encountered == ids[i as int]);
        if encountered as usize != i {
            proof {
                lemma_first_violation_is(ids, i as int);
            }
            return Err(
                ManycoreError::new(
                    ManycoreErrorKind::IdentifierSequenceError {
                        expected: i,
                        encountered,
                        previous,
                    },
                ),
            );
        }
        previous = Some(encountered);
        i += 1;
    }
    Ok(())
}

/// Validates the cores of a grid of `rows` rows and `columns` columns and
/// leaves them in ascending order of their identifiers. The count is checked
/// first; if it is wrong the cores are left as they are.
pub fn validate(rows: u8, columns: u8, cores: &mut Cores) -> (r: Result<(), ManycoreError>)
    ensures
        match r {
            Ok(_) => validation_error(rows, columns, ids_of(old(cores)@)).is_none(),
            Err(e) => validation_error(rows, columns, ids_of(old(cores)@)) == Some(e@),
        },
        old(cores)@.len() != rows * columns ==> final(cores)@ == old(cores)@,
        old(cores)@.len() == rows * columns ==> ascending(final(cores)@),
        forall|id: u8| #[trigger] with_id(final(cores)@, id) == with_id(old(cores)@, id),
        final(cores)@.len() == old(cores)@.len(),
        final(cores)@.to_multiset() == old(cores)@.to_multiset(),
        r.is_ok() ==> contiguous(ids_of(final(cores)@)),
{
    match check_count(rows, columns, cores.len()) {
        Err(e) => {
            return Err(e);
        },
        Ok(_) => {},
    }
    cores.sort_by_id();
    check_sequence(cores.list())
}

} // verus!
