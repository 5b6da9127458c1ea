//! Error kinds, raw store outcomes, and the classifier that turns an
//! outcome into a result.

use vstd::prelude::*;
use vstd::string::StringExecFns;
use crate::value::{cells, rows_view, Row};

verus! {

/// The ways an operation fails.
#[derive(Debug, PartialEq, Eq)]
pub enum DatabaseError {
    /// The predicate matched no row where one was required.
    NotFound,
    /// A write violated a uniqueness or other constraint.
    Conflict,
    /// An update was asked for with an empty update set. This is raised
    /// before the store is contacted, never by the store.
    NoFieldsToUpdate,
    /// The store could not be reached.
    Unavailable,
    /// Any other failure of the store, with what the store said of it.
    Unknown(String),
}

/// The result of an operation.
pub type StorageResult<T> = Result<T, DatabaseError>;

/// The reason a store gives for a failed statement.
#[derive(Debug, Clone, Copy, PartialEq, Eq, Structural)]
pub enum Signal {
    /// No row where the statement needed one.
    Absent,
    /// A uniqueness or other constraint stood against the write.
    Constraint,
    /// The statement did not reach the store, or the answer did not come back.
    Transport,
    /// Anything else.
    Other,
}

/// A failed statement: the reason, and the store's own words.
#[derive(Debug)]
pub struct Failure {
    pub signal: Signal,
    pub detail: String,
}

/// What a store hands back for one statement. It is made per call and
/// consumed at once by the classifier.
#[derive(Debug)]
pub enum Outcome {
    /// The rows the statement returned, in the order the store gave them.
    /// Their number is the statement's row count.
    Rows(Vec<Row>),
    /// The statement failed.
    Failed(Failure),
}

/// The error kind for a failure.
pub open spec fn failure_kind(failure: Failure) -> DatabaseError {
    match failure.signal {
        Signal::Absent => DatabaseError::NotFound,
        Signal::Constraint => DatabaseError::Conflict,
        Signal::Transport => DatabaseError::Unavailable,
        Signal::Other => DatabaseError::Unknown(failure.detail),
    }
}

/// What is said of a write that reports success and returns no row.
pub open spec fn no_row_detail() -> Seq<char> {
    "the store returned no row for the write"@
}

/// Classifies a failure.
pub fn classify_failure(failure: Failure) -> (r: DatabaseError)
    ensures
        r == failure_kind(failure),
        !(r is NoFieldsToUpdate),
{
    match failure.signal {
        Signal::Absent => DatabaseError::NotFound,
        Signal::Constraint => DatabaseError::Conflict,
        Signal::Transport => DatabaseError::Unavailable,
        Signal::Other => DatabaseError::Unknown(failure.detail),
    }
}

/// Classifies the outcome of a statement that is to yield one row: the
/// first row returned is the result, and no row at all is `NotFound`.
pub fn classify_one(outcome: Outcome) -> (r: StorageResult<Row>)
    ensures
        match outcome {
            Outcome::Rows(rows) => if rows@.len() == 0 {
                r == Err::<Row, DatabaseError>(DatabaseError::NotFound)
            } else {
                r is Ok && cells(r->Ok_0@) == rows_view(rows@)[0]
            },
            Outcome::Failed(failure) => r == Err::<Row, DatabaseError>(failure_kind(failure)),
        },
{
    match outcome {
        Outcome::Rows(mut rows) => {
            if rows.len() == 0 {
                Err(DatabaseError::NotFound)
            } else {
                Ok(rows.swap_remove(0))
            }
        },
        Outcome::Failed(failure) => Err(classify_failure(failure)),
    }
}

/// Classifies the outcome of a statement that is to yield any number of
/// rows. No row is a success: an empty list, also where the store reports
/// the absence of rows as a failure.
pub fn classify_many(outcome: Outcome) -> (r: StorageResult<Vec<Row>>)
    ensures
        match outcome {
            Outcome::Rows(rows) => r is Ok && rows_view(r->Ok_0@) == rows_view(rows@),
            Outcome::Failed(failure) => if failure.signal == Signal::Absent {
                r is Ok && r->Ok_0@.len() == 0
            } else {
                r == Err::<Vec<Row>, DatabaseError>(failure_kind(failure))
            },
        },
{
    match outcome {
        Outcome::Rows(rows) => Ok(rows),
        Outcome::Failed(failure) => {
            match failure.signal {
                Signal::Absent => Ok(Vec::new()),
                _ => Err(classify_failure(failure)),
            }
        },
    }
}

/// Classifies the outcome of an insert: the first row returned is the
/// stored row. A store that reports success without a row, or the absence
/// of a row, has failed in a way that has no kind of its own.
pub fn classify_insert(outcome: Outcome) -> (r: StorageResult<Row>)
    ensures
        match outcome {
            Outcome::Rows(rows) => if rows@.len() == 0 {
                r is Err && r->Err_0 is Unknown && r->Err_0->Unknown_0@ == no_row_detail()
            } else {
                r is Ok && cells(r->Ok_0@) == rows_view(rows@)[0]
            },
            Outcome::Failed(failure) => if failure.signal == Signal::Absent {
                r == Err::<Row, DatabaseError>(DatabaseError::Unknown(failure.detail))
            } else {
                r == Err::<Row, DatabaseError>(failure_kind(failure))
            },
        },
        !(r is Err && (r->Err_0 is NotFound || r->Err_0 is NoFieldsToUpdate)),
{
    match outcome {
        Outcome::Rows(mut rows) => {
            if rows.len() == 0 {
                Err(
                    DatabaseError::Unknown(
                        String::from_str("the store returned no row for the write"),
                    ),
                )
            } else {
                Ok(rows.swap_remove(0))
            }
        },
        Outcome::Failed(failure) => {
            match failure.signal {
                Signal::Absent => Err(DatabaseError::Unknown(failure.detail)),
                _ => Err(classify_failure(failure)),
            }
        },
    }
}

} // verus!
