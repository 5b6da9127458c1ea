//! The generic verbs: insert, find one, filter many, update one, delete
//! one. Each hands a statement to the table and classifies what comes back.

use vstd::prelude::*;
use crate::errors::{
    classify_insert, classify_many, classify_one, DatabaseError, Signal, StorageResult,
};
use crate::predicate::{Predicate, PredicateView};
use crate::relation::{
    changed, distinct, lemma_matching_from, lemma_no_match_selects_nothing, matching, remaining,
    rewritten, selection, usable,
};
use crate::sorting::OrderBy;
use crate::table::{arity_detail, serial_detail, stamped, window_detail, Table};
use crate::update_set::{apply_changes, UpdateSet};
use crate::value::{cells, rows_view, Row, ValueView};

verus! {

/// The row that a predicate meant for one row selects: the first that it
/// holds of, in the order the rows were stored, if there is any.
pub open spec fn found(rows: Seq<Seq<ValueView>>, pred: PredicateView) -> Option<
    Seq<ValueView>,
> {
    if matching(rows, pred).len() == 0 {
        None
    } else {
        Some(matching(rows, pred)[0])
    }
}

/// Whether `e` is the error for a row that the table refuses with
/// `signal`: `Conflict` for a collision, and otherwise `Unknown` with what
/// the table said.
pub open spec fn refused_as(
    e: DatabaseError,
    signal: Signal,
    row: Seq<ValueView>,
    arity: usize,
) -> bool {
    if signal == Signal::Constraint {
        e == DatabaseError::Conflict
    } else {
        &&& e is Unknown
        &&& e->Unknown_0@ == (if row.len() != arity {
            arity_detail()
        } else {
            serial_detail()
        })
    }
}

/// Decides, before the store is contacted, whether an update has anything
/// to change.
pub fn check_update(changes: &UpdateSet) -> (r: StorageResult<()>)
    ensures
        r == (if changes@ == Map::<usize, ValueView>::empty() {
            Err::<(), DatabaseError>(DatabaseError::NoFieldsToUpdate)
        } else {
            Ok::<(), DatabaseError>(())
        }),
{
    if changes.is_empty() {
        Err(DatabaseError::NoFieldsToUpdate)
    } else {
        Ok(())
    }
}

/// Stores `values` as a new row and returns the row as stored. Either the
/// table has exactly that one row more, or it is as it was and the result
/// is an error: `Conflict` where the row collides with one the table
/// holds, `Unknown` where the table cannot take the row at all.
pub fn generic_insert(store: &mut Table, values: Row) -> (r: StorageResult<Row>)
    ensures
        match old(store).refusal(cells(values@)) {
            Some(signal) => {
                &&& *final(store) == *old(store)
                &&& r is Err
                &&& refused_as(r->Err_0, signal, cells(values@), old(store).arity())
            },
            None => {
                let stored = stamped(cells(values@), old(store).serial(), old(store).next_serial());
                &&& final(store)@ == old(store)@.push(stored)
                &&& final(store).same_layout(old(store))
                &&& final(store).next_serial() == (if old(store).serial() is Some {
                    old(store).next_serial() + 1
                } else {
                    old(store).next_serial() as int
                })
                &&& r is Ok
                &&& cells(r->Ok_0@) == stored
            },
        },
        old(store).wf() ==> final(store).wf(),
{
    let outcome = store.insert(values);
    proof {
        if outcome is Rows {
            let rows = outcome->Rows_0@;
            assert(rows_view(rows).len() == rows.len());
            assert(rows_view(rows)[0] == cells(rows[0]@));
        }
    }
    classify_insert(outcome)
}

/// Returns the row that `pred` selects, or `NotFound` where it holds of no
/// row. Where it holds of several rows, the first stored is the one.
pub fn generic_find_one(store: &Table, pred: &Predicate) -> (r: StorageResult<Row>)
    ensures
        match found(store@, pred@) {
            Some(row) => r is Ok && cells(r->Ok_0@) == row && pred@.holds(row),
            None => r == Err::<Row, DatabaseError>(DatabaseError::NotFound),
        },
{
    proof {
        if matching(store@, pred@).len() > 0 {
            lemma_matching_from(store@, pred@, 0);
        }
    }
    let outcome = store.select(pred, Some(1), None, None);
    proof {
        let hits = matching(store@, pred@);
        let first = selection(store@, pred@, Some(1), None, None);
        assert(first.len() == (if hits.len() == 0 {
            0int
        } else {
            1int
        }));
        if hits.len() > 0 {
            assert(first[0] == hits[0]);
        }
        if outcome is Rows {
            assert(rows_view(outcome->Rows_0@).len() == outcome->Rows_0@.len());
        }
    }
    classify_one(outcome)
}

/// Returns the rows that `pred` holds of: sorted by `order` where one is
/// given, then without the first `offset` and cut to `limit`. That no row
/// matches is a success with no rows. A negative limit or offset is
/// `Unknown`.
pub fn generic_filter(
    store: &Table,
    pred: &Predicate,
    limit: Option<i64>,
    offset: Option<i64>,
    order: Option<OrderBy>,
) -> (r: StorageResult<Vec<Row>>)
    ensures
        usable(limit) && usable(offset) ==> {
            &&& r is Ok
            &&& rows_view(r->Ok_0@) == selection(store@, pred@, limit, offset, order)
        },
        !(usable(limit) && usable(offset)) ==> {
            &&& r is Err
            &&& r->Err_0 is Unknown
            &&& r->Err_0->Unknown_0@ == window_detail()
        },
        usable(limit) && usable(offset) && found(store@, pred@) is None ==> r is Ok
            && r->Ok_0@.len() == 0,
{
    proof {
        if usable(limit) && usable(offset) && found(store@, pred@) is None {
            lemma_no_match_selects_nothing(store@, pred@, limit, offset, order);
        }
    }
    let outcome = store.select(pred, limit, offset, order);
    proof {
        if outcome is Rows {
            assert(rows_view(outcome->Rows_0@).len() == outcome->Rows_0@.len());
        }
    }
    classify_many(outcome)
}

/// Applies `changes` to the row that `pred` selects and returns the row as
/// it is afterwards. An empty update set is `NoFieldsToUpdate`, decided
/// before the table is touched, whatever the predicate. Otherwise a
/// predicate that holds of no row is `NotFound`, and changes that would
/// make rows collide are `Conflict`; in both cases nothing changes. Where
/// the predicate holds of several rows, all of them are changed and the
/// first stored is returned.
pub fn generic_update_with_unique_predicate_get_result(
    store: &mut Table,
    pred: &Predicate,
    changes: &UpdateSet,
) -> (r: StorageResult<Row>)
    ensures
        ({
            let next = rewritten(old(store)@, pred@, changes@);
            if changes@ == Map::<usize, ValueView>::empty() {
                &&& *final(store) == *old(store)
                &&& r == Err::<Row, DatabaseError>(DatabaseError::NoFieldsToUpdate)
            } else if found(old(store)@, pred@) is None {
                &&& *final(store) == *old(store)
                &&& r == Err::<Row, DatabaseError>(DatabaseError::NotFound)
            } else if !distinct(next, old(store).unique()) {
                &&& *final(store) == *old(store)
                &&& r == Err::<Row, DatabaseError>(DatabaseError::Conflict)
            } else {
                &&& final(store)@ == next
                &&& final(store).same_layout(old(store))
                &&& final(store).next_serial() == old(store).next_serial()
                &&& r is Ok
                &&& cells(r->Ok_0@) == apply_changes(found(old(store)@, pred@)->0, changes@)
            }
        }),
        old(store).wf() ==> final(store).wf(),
{
    match check_update(changes) {
        Err(e) => Err(e),
        Ok(()) => {
            let outcome = store.update(pred, changes);
            proof {
                if outcome is Rows {
                    let rows = outcome->Rows_0@;
                    let hits = matching(old(store)@, pred@);
                    assert(rows_view(rows).len() == rows.len());
                    if rows.len() > 0 {
                        assert(rows_view(rows)[0] == cells(rows[0]@));
                        assert(changed(hits, changes@)[0] == apply_changes(hits[0], changes@));
                    }
                }
            }
            classify_one(outcome)
        },
    }
}

/// Takes out the row that `pred` selects and returns it as it was, or
/// returns `NotFound` and changes nothing where it holds of no row. Where
/// the predicate holds of several rows, all of them are taken out and the
/// first stored is returned.
pub fn generic_delete_one_with_result(store: &mut Table, pred: &Predicate) -> (r: StorageResult<
    Row,
>)
    ensures
        match found(old(store)@, pred@) {
            Some(row) => {
                &&& final(store)@ == remaining(old(store)@, pred@)
                &&& final(store).same_layout(old(store))
                &&& final(store).next_serial() == old(store).next_serial()
                &&& r is Ok
                &&& cells(r->Ok_0@) == row
            },
            None => {
                &&& *final(store) == *old(store)
                &&& r == Err::<Row, DatabaseError>(DatabaseError::NotFound)
            },
        },
        old(store).wf() ==> final(store).wf(),
{
    classify_one(store.delete(pred))
}

} // verus!
