//! The errors of the query builder, read into failures that the classifier
//! understands.

use vstd::prelude::*;
use diesel::result::{DatabaseErrorKind, Error};
use crate::errors::{classify_failure, DatabaseError, Failure, Signal};

verus! {

/// `diesel::result::Error`, carried through as it is.
#[verifier::external_type_specification]
#[verifier::external_body]
pub struct ExError(Error);

/// `diesel::result::DatabaseErrorKind`, carried through as it is.
#[verifier::external_type_specification]
#[verifier::external_body]
pub struct ExDatabaseErrorKind(DatabaseErrorKind);

/// Which error the query builder reported. `K` is the form in which the
/// kind of a database error is held.
#[derive(Debug)]
pub enum StoreError<K> {
    /// The database refused or lost the statement.
    Database(K),
    /// A query that needs a row returned none.
    NotFound,
    /// The query could not be built.
    QueryBuilder,
    /// A value from the database could not be read.
    Deserialization,
    /// A value for the database could not be written.
    Serialization,
    /// The connection's transaction state is broken.
    BrokenTransactionManager,
    /// Any other error.
    Unrecognized,
}

/// What the database said of a statement it failed.
#[derive(Debug, Clone, Copy, PartialEq, Eq, Structural)]
pub enum DatabaseFault {
    UniqueViolation,
    ForeignKeyViolation,
    UnableToSendCommand,
    SerializationFailure,
    ReadOnlyTransaction,
    RestrictViolation,
    NotNullViolation,
    CheckViolation,
    ExclusionViolation,
    ClosedConnection,
    Unrecognized,
}

/// The variant that an error has: what matching on
/// `diesel::result::Error` finds.
pub uninterp spec fn variant_of(err: Error) -> StoreError<DatabaseErrorKind>;

/// The variant that the kind of a database error has: what matching on
/// `diesel::result::DatabaseErrorKind` finds.
pub uninterp spec fn fault_of(kind: DatabaseErrorKind) -> DatabaseFault;

/// The text of an error: what `diesel::result::Error` displays.
pub uninterp spec fn text_of(err: Error) -> Seq<char>;

/// Tells the variants of `diesel::result::Error` apart: the six that the
/// classifier treats differently, each under its own name with the kind of
/// a database error carried along, and every other as `Unrecognized`.
/// The contract claims that the variant is the error's own, the same
/// whenever the error is looked at; it claims nothing of which variant a
/// given error has.
#[verifier::external_body]
fn error_variant(err: &Error) -> (r: StoreError<DatabaseErrorKind>)
    ensures
        r == variant_of(*err),
{
    match err {
        Error::DatabaseError(kind, _) => StoreError::Database(*kind),
        Error::NotFound => StoreError::NotFound,
        Error::QueryBuilderError(_) => StoreError::QueryBuilder,
        Error::DeserializationError(_) => StoreError::Deserialization,
        Error::SerializationError(_) => StoreError::Serialization,
        Error::BrokenTransactionManager => StoreError::BrokenTransactionManager,
        _ => StoreError::Unrecognized,
    }
}

/// Tells the variants of `diesel::result::DatabaseErrorKind` apart: each
/// under its own name, and one that this version does not list as
/// `Unrecognized`. The contract claims that the variant is the kind's
/// own, the same whenever the kind is looked at; it claims nothing of which
/// variant a given kind has.
#[verifier::external_body]
fn kind_variant(kind: DatabaseErrorKind) -> (r: DatabaseFault)
    ensures
        r == fault_of(kind),
{
    match kind {
        DatabaseErrorKind::UniqueViolation => DatabaseFault::UniqueViolation,
        DatabaseErrorKind::ForeignKeyViolation => DatabaseFault::ForeignKeyViolation,
        DatabaseErrorKind::UnableToSendCommand => DatabaseFault::UnableToSendCommand,
        DatabaseErrorKind::SerializationFailure => DatabaseFault::SerializationFailure,
        DatabaseErrorKind::ReadOnlyTransaction => DatabaseFault::ReadOnlyTransaction,
        DatabaseErrorKind::RestrictViolation => DatabaseFault::RestrictViolation,
        DatabaseErrorKind::NotNullViolation => DatabaseFault::NotNullViolation,
        DatabaseErrorKind::CheckViolation => DatabaseFault::CheckViolation,
        DatabaseErrorKind::ExclusionViolation => DatabaseFault::ExclusionViolation,
        DatabaseErrorKind::ClosedConnection => DatabaseFault::ClosedConnection,
        _ => DatabaseFault::Unrecognized,
    }
}

/// The text that `diesel::result::Error` displays, through `format!`.
/// The contract claims that the text is the error's own, the same
/// whenever the error is displayed; it claims nothing of what it says.
#[verifier::external_body]
fn error_text(err: &Error) -> (r: String)
    ensures
        r@ == text_of(*err),
{
    format!("{}", err)
}

/// The signal that a fault of the database stands for.
pub open spec fn fault_signal(fault: DatabaseFault) -> Signal {
    match fault {
        DatabaseFault::UniqueViolation
        | DatabaseFault::ForeignKeyViolation
        | DatabaseFault::RestrictViolation
        | DatabaseFault::NotNullViolation
        | DatabaseFault::CheckViolation
        | DatabaseFault::ExclusionViolation => Signal::Constraint,
        DatabaseFault::UnableToSendCommand | DatabaseFault::ClosedConnection => Signal::Transport,
        DatabaseFault::SerializationFailure
        | DatabaseFault::ReadOnlyTransaction
        | DatabaseFault::Unrecognized => Signal::Other,
    }
}

/// The signal that an error of the query builder stands for.
pub open spec fn error_signal(err: StoreError<DatabaseFault>) -> Signal {
    match err {
        StoreError::Database(fault) => fault_signal(fault),
        StoreError::NotFound => Signal::Absent,
        StoreError::BrokenTransactionManager => Signal::Transport,
        StoreError::QueryBuilder
        | StoreError::Deserialization
        | StoreError::Serialization
        | StoreError::Unrecognized => Signal::Other,
    }
}

/// Reads the signal out of an error of the query builder: a violated
/// constraint, a lost connection, a missing row, or none of these.
pub fn signal_of(err: StoreError<DatabaseFault>) -> (r: Signal)
    ensures
        r == error_signal(err),
{
    match err {
        StoreError::Database(fault) => match fault {
            DatabaseFault::UniqueViolation => Signal::Constraint,
            DatabaseFault::ForeignKeyViolation => Signal::Constraint,
            DatabaseFault::RestrictViolation => Signal::Constraint,
            DatabaseFault::NotNullViolation => Signal::Constraint,
            DatabaseFault::CheckViolation => Signal::Constraint,
            DatabaseFault::ExclusionViolation => Signal::Constraint,
            DatabaseFault::UnableToSendCommand => Signal::Transport,
            DatabaseFault::ClosedConnection => Signal::Transport,
            _ => Signal::Other,
        },
        StoreError::NotFound => Signal::Absent,
        StoreError::BrokenTransactionManager => Signal::Transport,
        _ => Signal::Other,
    }
}

/// What is observed of an error: its variant, and for a database error
/// the variant of its kind.
pub open spec fn observed(err: Error) -> StoreError<DatabaseFault> {
    match variant_of(err) {
        StoreError::Database(kind) => StoreError::Database(fault_of(kind)),
        StoreError::NotFound => StoreError::NotFound,
        StoreError::QueryBuilder => StoreError::QueryBuilder,
        StoreError::Deserialization => StoreError::Deserialization,
        StoreError::Serialization => StoreError::Serialization,
        StoreError::BrokenTransactionManager => StoreError::BrokenTransactionManager,
        StoreError::Unrecognized => StoreError::Unrecognized,
    }
}

/// The error kind for an error of the query builder: that of the signal it
/// stands for, and for one that stands for no other signal, `Unknown` with
/// the text of the error.
pub open spec fn classified_as(r: DatabaseError, err: Error) -> bool {
    match error_signal(observed(err)) {
        Signal::Absent => r == DatabaseError::NotFound,
        Signal::Constraint => r == DatabaseError::Conflict,
        Signal::Transport => r == DatabaseError::Unavailable,
        Signal::Other => r is Unknown && r->Unknown_0@ == text_of(err),
    }
}

/// Which error `err` is, with the kind of a database error read out.
pub fn observe(err: &Error) -> (r: StoreError<DatabaseFault>)
    ensures
        r == observed(*err),
{
    match error_variant(err) {
        StoreError::Database(kind) => StoreError::Database(kind_variant(kind)),
        StoreError::NotFound => StoreError::NotFound,
        StoreError::QueryBuilder => StoreError::QueryBuilder,
        StoreError::Deserialization => StoreError::Deserialization,
        StoreError::Serialization => StoreError::Serialization,
        StoreError::BrokenTransactionManager => StoreError::BrokenTransactionManager,
        StoreError::Unrecognized => StoreError::Unrecognized,
    }
}

/// The failure that an error of the query builder amounts to: its signal,
/// and its text as the detail.
pub fn failure_of(err: &Error) -> (r: Failure)
    ensures
        r.signal == error_signal(observed(*err)),
        r.detail@ == text_of(*err),
{
    Failure { signal: signal_of(observe(err)), detail: error_text(err) }
}

/// Classifies an error of the query builder: a missing row is `NotFound`,
/// a violated constraint `Conflict`, a lost connection `Unavailable`, and
/// every other error `Unknown` with its text. Whatever the error, the
/// result is never `NoFieldsToUpdate`: the store does not raise it.
pub fn classify_store_error(err: &Error) -> (r: DatabaseError)
    ensures
        classified_as(r, *err),
        !(r is NoFieldsToUpdate),
{
    classify_failure(failure_of(err))
}

} // verus!
