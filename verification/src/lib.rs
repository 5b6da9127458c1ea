//! A relational-record access layer: predicates, sort keys and windows,
//! classification of raw store outcomes, and the generic verbs (insert,
//! find, filter, update, delete) over a table of rows, together with the
//! payment-method entity that is stored through them.

pub mod errors;
pub mod laws;
pub mod payment_method;
pub mod predicate;
pub mod query;
pub mod relation;
pub mod sorting;
pub mod store_error;
pub mod table;
pub mod update_set;
pub mod value;
