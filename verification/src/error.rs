//! What can go wrong while a model is built, and how it is told.

use vstd::prelude::*;
use vstd::string::*;
use crate::text::{decimal, decimal_text};

verus! {

/// The conditions that end the construction of a model.
#[derive(Debug, PartialEq, Eq)]
pub enum ManycoreErrorKind {
    /// The description could not be decoded; the cause is given as text.
    DecodeError(String),
    /// The number of cores is not the number of cells of the grid.
    StructuralMismatch { expected: usize, actual: usize, rows: u8, columns: u8 },
    /// In ascending order the identifiers of the cores are not 0, 1, 2, ...:
    /// `encountered` stands where `expected` should, behind `previous`.
    IdentifierSequenceError { expected: usize, encountered: u8, previous: Option<u8> },
    /// The description could not be read; the cause is given as text.
    IoError(String),
}

/// An error condition as a mathematical value.
pub enum ErrorView {
    DecodeError(Seq<char>),
    StructuralMismatch { expected: int, actual: int, rows: int, columns: int },
    IdentifierSequenceError { expected: int, encountered: int, previous: Option<int> },
    IoError(Seq<char>),
}

impl View for ManycoreErrorKind {
    type V = ErrorView;

    open spec fn view(&self) -> ErrorView {
        match *self {
            ManycoreErrorKind::DecodeError(cause) => ErrorView::DecodeError(cause@),
            ManycoreErrorKind::StructuralMismatch { expected, actual, rows, columns } => {
                ErrorView::StructuralMismatch {
                    expected: expected as int,
                    actual: actual as int,
                    rows: rows as int,
                    columns: columns as int,
                }
            },
            ManycoreErrorKind::IdentifierSequenceError { expected, encountered, previous } => {
                ErrorView::IdentifierSequenceError {
                    expected: expected as int,
                    encountered: encountered as int,
                    previous: match previous {
                        Some(p) => Some(p as int),
                        None => None,
                    },
                }
            },
            ManycoreErrorKind::IoError(cause) => ErrorView::IoError(cause@),
        }
    }
}

impl Clone for ManycoreErrorKind {
    fn clone(&self) -> (r: Self)
        ensures
            r@ == self@,
    {
        match self {
            ManycoreErrorKind::DecodeError(cause) => ManycoreErrorKind::DecodeError(
                cause.clone(),
            ),
            ManycoreErrorKind::StructuralMismatch { expected, actual, rows, columns } => {
                ManycoreErrorKind::StructuralMismatch {
                    expected: *expected,
                    actual: *actual,
                    rows: *rows,
                    columns: *columns,
                }
            },
            ManycoreErrorKind::IdentifierSequenceError { expected, encountered, previous } => {
                ManycoreErrorKind::IdentifierSequenceError {
                    expected: *expected,
                    encountered: *encountered,
                    previous: *previous,
                }
            },
            ManycoreErrorKind::IoError(cause) => ManycoreErrorKind::IoError(cause.clone()),
        }
    }
}

/// The sentence that tells of the error `e`.
pub open spec fn message_of(e: ErrorView) -> Seq<char> {
    match e {
        ErrorView::DecodeError(cause) => cause,
        ErrorView::StructuralMismatch { expected, actual, rows, columns } => {
            "Expected "@ + decimal(expected as nat) + " cores, found "@ + decimal(actual as nat)
                + ". Hint: make sure you provided the correct number of rows ("@ + decimal(
                rows as nat,
            ) + ") and columns ("@ + decimal(columns as nat) + ")."@
        },
        ErrorView::IdentifierSequenceError { expected, encountered, previous } => {
            "Core IDs must be incremental starting from 0. Was expecting ID "@ + decimal(
                expected as nat,
            ) + ", got "@ + decimal(encountered as nat) + match previous {
                Some(p) => ". Previously inspected core had ID "@ + decimal(p as nat) + "."@,
                None => ". No core had been inspected before."@,
            }
        },
        ErrorView::IoError(cause) => cause,
    }
}

/// The failure of a construction.
#[derive(Debug, PartialEq, Eq)]
pub struct ManycoreError {
    kind: ManycoreErrorKind,
}

impl View for ManycoreError {
    type V = ErrorView;

    closed spec fn view(&self) -> ErrorView {
        self.kind@
    }
}

impl Clone for ManycoreError {
    fn clone(&self) -> (r: Self)
        ensures
            r@ == self@,
    {
        ManycoreError { kind: self.kind.clone() }
    }
}

impl ManycoreError {
    /// The error of the given kind.
    pub fn new(kind: ManycoreErrorKind) -> (r: Self)
        ensures
            r@ == kind@,
    {
        ManycoreError { kind }
    }

    /// The condition that the error tells of.
    pub fn kind(&self) -> (r: &ManycoreErrorKind)
        ensures
            r@ == self@,
    {
        &self.kind
    }

    /// The error as a sentence for the user.
    pub fn message(&self) -> (r: String)
        ensures
            r@ == message_of(self@),
    {
        match &self.kind {
            ManycoreErrorKind::DecodeError(cause) => cause.clone(),
            ManycoreErrorKind::StructuralMismatch { expected, actual, rows, columns } => {
                let mut r = String::from_str("Expected ");
                r.append(decimal_text(*expected as u64).as_str());
                r.append(" cores, found ");
                r.append(decimal_text(*actual as u64).as_str());
                r.append(". Hint: make sure you provided the correct number of rows (");
                r.append(decimal_text(*rows as u64).as_str());
                r.append(") and columns (");
                r.append(decimal_text(*columns as u64).as_str());
                r.append(").");
                assert(r@ =~= message_of(self@));
                r
            },
            ManycoreErrorKind::IdentifierSequenceError { expected, encountered, previous } => {
                let mut r = String::from_str(
                    "Core IDs must be incremental starting from 0. Was expecting ID ",
                );
                r.append(decimal_text(*expected as u64).as_str());
                r.append(", got ");
                r.append(decimal_text(*encountered as u64).as_str());
                match previous {
                    Some(p) => {
                        r.append(". Previously inspected core had ID ");
                        r.append(decimal_text(*p as u64).as_str());
                        r.append(".");
                    },
                    None => {
                        r.append(". No core had been inspected before.");
                    },
                }
                assert(r@ =~= message_of(self@));
                r
            },
            ManycoreErrorKind::IoError(cause) => cause.clone(),
        }
    }
}

/// The error of a description that could not be turned into a model, with
/// the cause as text.
pub fn generation_error(reason: String) -> (r: ManycoreError)
    ensures
        r@ == ErrorView::DecodeError(reason@),
{
    ManycoreError::new(ManycoreErrorKind::DecodeError(reason))
}

} // verus!
