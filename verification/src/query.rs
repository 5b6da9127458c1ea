//! The operations on stored records: the generic verbs, and the functions
//! of each entity that are built on them.

pub mod generics;
pub mod payment_method;
