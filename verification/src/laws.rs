//! What holds of the generic verbs whatever the table, the predicate and
//! the changes.

use vstd::prelude::*;
use crate::predicate::PredicateView;
use crate::query::generics::found;
use crate::relation::{
    lemma_matching_empty, lemma_no_match_selects_nothing, lemma_remaining_all,
    lemma_remaining_matches_nothing, matching, remaining, rewritten, selection, usable, window,
    window_from,
};
use crate::sorting::OrderBy;
use crate::table::stamped;
use crate::update_set::apply_changes;
use crate::value::ValueView;

verus! {

/// Where a predicate holds of no row, finding one row and deleting one row
/// find nothing, a delete leaves the table as it is, and a listing is empty,
/// whatever its sort key and whatever limit and offset that are not
/// negative.
pub proof fn law_no_match(
    rows: Seq<Seq<ValueView>>,
    pred: PredicateView,
    limit: Option<i64>,
    offset: Option<i64>,
    order: Option<OrderBy>,
)
    requires
        forall|i: int| 0 <= i < rows.len() ==> !pred.holds(#[trigger] rows[i]),
        usable(limit),
        usable(offset),
    ensures
        found(rows, pred) is None,
        remaining(rows, pred) == rows,
        selection(rows, pred, limit, offset, order).len() == 0,
{
    lemma_matching_empty(rows, pred);
    lemma_remaining_all(rows, pred);
    lemma_no_match_selects_nothing(rows, pred, limit, offset, order);
}

/// An update changes the cells whose columns the update set names to the
/// values it gives, and leaves every other cell and the length of the row
/// as they were.
pub proof fn law_update_cells(row: Seq<ValueView>, changes: Map<usize, ValueView>, column: usize)
    requires
        column < row.len(),
    ensures
        apply_changes(row, changes).len() == row.len(),
        changes.dom().contains(column) ==> apply_changes(row, changes)[column as int]
            == changes[column],
        !changes.dom().contains(column) ==> apply_changes(row, changes)[column as int]
            == row[column as int],
{
}

/// Where a predicate holds of exactly one row, that row is the one found,
/// and an update rewrites that row and no other.
pub proof fn law_update_one(
    rows: Seq<Seq<ValueView>>,
    pred: PredicateView,
    changes: Map<usize, ValueView>,
    i: int,
)
    requires
        0 <= i < rows.len(),
        pred.holds(rows[i]),
        forall|j: int| 0 <= j < rows.len() && j != i ==> !pred.holds(#[trigger] rows[j]),
    ensures
        found(rows, pred) == Some(rows[i]),
        rewritten(rows, pred, changes) == rows.update(i, apply_changes(rows[i], changes)),
    decreases rows.len(),
{
    lemma_matching_one(rows, pred, i);
    assert(rewritten(rows, pred, changes) == rows.update(i, apply_changes(rows[i], changes)));
}

/// Where a predicate holds of exactly one row, the matching rows are that
/// row.
pub proof fn lemma_matching_one(rows: Seq<Seq<ValueView>>, pred: PredicateView, i: int)
    requires
        0 <= i < rows.len(),
        pred.holds(rows[i]),
        forall|j: int| 0 <= j < rows.len() && j != i ==> !pred.holds(#[trigger] rows[j]),
    ensures
        matching(rows, pred) == seq![rows[i]],
    decreases rows.len(),
{
    let front = rows.drop_last();
    assert forall|j: int| 0 <= j < front.len() && j != i implies !pred.holds(
        #[trigger] front[j],
    ) by {
        assert(front[j] == rows[j]);
    }
    if i == rows.len() - 1 {
        lemma_matching_empty(front, pred);
        assert(matching(front, pred).push(rows.last()) == seq![rows[i]]);
    } else {
        assert(!pred.holds(rows[rows.len() - 1]));
        assert(front[i] == rows[i]);
        lemma_matching_one(front, pred, i);
    }
}

/// A row is stored with every cell that was supplied, but for the cell of
/// the number that the table gives it.
pub proof fn law_insert_cells(
    row: Seq<ValueView>,
    serial: Option<usize>,
    number: i64,
    column: usize,
)
    requires
        column < row.len(),
    ensures
        stamped(row, serial, number).len() == row.len(),
        serial != Some(column) ==> stamped(row, serial, number)[column as int]
            == row[column as int],
        serial == Some(column) ==> stamped(row, serial, number)[column as int] == ValueView::Int(
            number,
        ),
{
}

/// After a delete, the predicate that was deleted by finds nothing.
pub proof fn law_find_after_delete(rows: Seq<Seq<ValueView>>, pred: PredicateView)
    ensures
        found(remaining(rows, pred), pred) is None,
{
    lemma_remaining_matches_nothing(rows, pred);
}

/// A window holds no more rows than the limit, starts behind the offset,
/// and keeps rows that are in order in order.
pub proof fn law_window(
    rows: Seq<Seq<ValueView>>,
    offset: Option<i64>,
    limit: Option<i64>,
    key: OrderBy,
)
    requires
        usable(offset),
        usable(limit),
    ensures
        window(rows, offset, limit).len() <= rows.len(),
        limit is Some ==> window(rows, offset, limit).len() <= limit->0,
        offset is None && limit is None ==> window(rows, offset, limit) == rows,
        key.in_order(rows) ==> key.in_order(window(rows, offset, limit)),
{
    let out = window(rows, offset, limit);
    if offset is None && limit is None {
        assert(out == rows);
    }
    if key.in_order(rows) {
        let from = window_from(rows.len(), offset);
        assert forall|i: int| 0 < i < out.len() implies !key.before(
            #[trigger] out[i],
            out[i - 1],
        ) by {
            assert(out[i] == rows[from + i]);
            assert(out[i - 1] == rows[from + i - 1]);
        }
    }
}

/// A listing with a sort key is in the order of that key, holds no more
/// rows than the limit, and holds only rows that the predicate holds of.
pub proof fn law_selection(
    rows: Seq<Seq<ValueView>>,
    pred: PredicateView,
    limit: Option<i64>,
    offset: Option<i64>,
    key: OrderBy,
)
    requires
        usable(offset),
        usable(limit),
    ensures
        key.in_order(selection(rows, pred, limit, offset, Some(key))),
        limit is Some ==> selection(rows, pred, limit, offset, Some(key)).len() <= limit->0,
        selection(rows, pred, limit, offset, Some(key)).len() <= matching(rows, pred).len(),
{
    let hits = matching(rows, pred);
    key.lemma_sorted(hits);
    law_window(key.sorted(hits), offset, limit, key);
}

} // verus!
