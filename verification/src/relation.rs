//! What the statements of a store mean, on a table taken as the sequence of
//! its rows.

use vstd::prelude::*;
use crate::predicate::PredicateView;
use crate::sorting::OrderBy;
use crate::update_set::apply_changes;
use crate::value::{agrees, ValueView};

verus! {

/// The rows that `pred` holds of, in the order they stand in.
pub open spec fn matching(rows: Seq<Seq<ValueView>>, pred: PredicateView) -> Seq<Seq<ValueView>>
    decreases rows.len(),
{
    if rows.len() == 0 {
        rows
    } else if pred.holds(rows.last()) {
        matching(rows.drop_last(), pred).push(rows.last())
    } else {
        matching(rows.drop_last(), pred)
    }
}

/// The rows that `pred` does not hold of, in the order they stand in.
pub open spec fn remaining(rows: Seq<Seq<ValueView>>, pred: PredicateView) -> Seq<Seq<ValueView>>
    decreases rows.len(),
{
    if rows.len() == 0 {
        rows
    } else if pred.holds(rows.last()) {
        remaining(rows.drop_last(), pred)
    } else {
        remaining(rows.drop_last(), pred).push(rows.last())
    }
}

/// The rows with `changes` applied to each of them.
pub open spec fn changed(rows: Seq<Seq<ValueView>>, changes: Map<usize, ValueView>) -> Seq<
    Seq<ValueView>,
> {
    Seq::new(rows.len(), |i: int| apply_changes(rows[i], changes))
}

/// The table after an update: `changes` applied to the rows that `pred`
/// holds of, the others as they were, all in their places.
pub open spec fn rewritten(
    rows: Seq<Seq<ValueView>>,
    pred: PredicateView,
    changes: Map<usize, ValueView>,
) -> Seq<Seq<ValueView>> {
    Seq::new(
        rows.len(),
        |i: int|
            if pred.holds(rows[i]) {
                apply_changes(rows[i], changes)
            } else {
                rows[i]
            },
    )
}

/// The rows sorted by `order`, or as they stand where there is none.
pub open spec fn arranged(rows: Seq<Seq<ValueView>>, order: Option<OrderBy>) -> Seq<
    Seq<ValueView>,
> {
    match order {
        Some(key) => key.sorted(rows),
        None => rows,
    }
}

/// Whether a row count given as a limit or an offset is usable: it is
/// absent or not negative.
pub open spec fn usable(count: Option<i64>) -> bool {
    match count {
        Some(n) => n >= 0,
        None => true,
    }
}

/// The position of the first row of a window: behind the offset, or at
/// the end where there are no more rows than that.
pub open spec fn window_from(len: nat, offset: Option<i64>) -> int {
    match offset {
        Some(n) => if n <= len {
            n as int
        } else {
            len as int
        },
        None => 0,
    }
}

/// The position behind the last row of a window: `limit` rows on from the
/// first, or at the end where there are not that many.
pub open spec fn window_to(len: nat, offset: Option<i64>, limit: Option<i64>) -> int {
    match limit {
        Some(n) => if window_from(len, offset) + n <= len {
            window_from(len, offset) + n
        } else {
            len as int
        },
        None => len as int,
    }
}

/// The rows left after `offset` rows are passed over and at most `limit`
/// rows are taken. No offset passes over none, no limit takes all.
pub open spec fn window(rows: Seq<Seq<ValueView>>, offset: Option<i64>, limit: Option<i64>) -> Seq<
    Seq<ValueView>,
>
    recommends
        usable(offset),
        usable(limit),
{
    rows.subrange(window_from(rows.len(), offset), window_to(rows.len(), offset, limit))
}

/// What a select returns: the matching rows, sorted, then windowed.
pub open spec fn selection(
    rows: Seq<Seq<ValueView>>,
    pred: PredicateView,
    limit: Option<i64>,
    offset: Option<i64>,
    order: Option<OrderBy>,
) -> Seq<Seq<ValueView>> {
    window(arranged(matching(rows, pred), order), offset, limit)
}

/// Whether two rows agree in a column that must be unique.
pub open spec fn collides(a: Seq<ValueView>, b: Seq<ValueView>, unique: Seq<usize>) -> bool {
    exists|k: int|
        0 <= k < unique.len() && #[trigger] unique[k] < a.len() && unique[k] < b.len() && agrees(
            a[unique[k] as int],
            b[unique[k] as int],
        )
}

/// Whether `row` collides with a row of the table.
pub open spec fn conflicts(
    rows: Seq<Seq<ValueView>>,
    row: Seq<ValueView>,
    unique: Seq<usize>,
) -> bool {
    exists|i: int| 0 <= i < rows.len() && collides(#[trigger] rows[i], row, unique)
}

/// Whether no two rows of the table collide.
pub open spec fn distinct(rows: Seq<Seq<ValueView>>, unique: Seq<usize>) -> bool {
    forall|i: int, j: int|
        0 <= i < j < rows.len() ==> !collides(#[trigger] rows[i], #[trigger] rows[j], unique)
}

/// Whether every row has `arity` columns.
pub open spec fn uniform(rows: Seq<Seq<ValueView>>, arity: usize) -> bool {
    forall|i: int| 0 <= i < rows.len() ==> (#[trigger] rows[i]).len() == arity
}

/// Every matching row is a row of the table that the predicate holds of.
pub proof fn lemma_matching_from(rows: Seq<Seq<ValueView>>, pred: PredicateView, k: int)
    requires
        0 <= k < matching(rows, pred).len(),
    ensures
        pred.holds(matching(rows, pred)[k]),
        exists|i: int| 0 <= i < rows.len() && #[trigger] rows[i] == matching(rows, pred)[k],
    decreases rows.len(),
{
    if rows.len() > 0 {
        let front = rows.drop_last();
        if pred.holds(rows.last()) && k == matching(front, pred).len() {
            assert(rows[rows.len() - 1] == matching(rows, pred)[k]);
        } else {
            lemma_matching_from(front, pred, k);
            let i = choose|i: int|
                0 <= i < front.len() && #[trigger] front[i] == matching(front, pred)[k];
            assert(rows[i] == matching(rows, pred)[k]);
        }
    }
}

/// Every remaining row is a row of the table that the predicate does not
/// hold of.
pub proof fn lemma_remaining_from(rows: Seq<Seq<ValueView>>, pred: PredicateView, k: int)
    requires
        0 <= k < remaining(rows, pred).len(),
    ensures
        !pred.holds(remaining(rows, pred)[k]),
        exists|i: int| 0 <= i < rows.len() && #[trigger] rows[i] == remaining(rows, pred)[k],
    decreases rows.len(),
{
    if rows.len() > 0 {
        let front = rows.drop_last();
        if !pred.holds(rows.last()) && k == remaining(front, pred).len() {
            assert(rows[rows.len() - 1] == remaining(rows, pred)[k]);
        } else {
            lemma_remaining_from(front, pred, k);
            let i = choose|i: int|
                0 <= i < front.len() && #[trigger] front[i] == remaining(front, pred)[k];
            assert(rows[i] == remaining(rows, pred)[k]);
        }
    }
}

/// Every row of a listing is a row of the table that the predicate holds
/// of.
pub proof fn lemma_selection_from(
    rows: Seq<Seq<ValueView>>,
    pred: PredicateView,
    limit: Option<i64>,
    offset: Option<i64>,
    order: Option<OrderBy>,
    k: int,
)
    requires
        usable(limit),
        usable(offset),
        0 <= k < selection(rows, pred, limit, offset, order).len(),
    ensures
        pred.holds(selection(rows, pred, limit, offset, order)[k]),
        exists|i: int|
            0 <= i < rows.len() && #[trigger] rows[i] == selection(
                rows,
                pred,
                limit,
                offset,
                order,
            )[k],
{
    let hits = matching(rows, pred);
    let lined = arranged(hits, order);
    let row = selection(rows, pred, limit, offset, order)[k];
    assert(row == lined[window_from(lined.len(), offset) + k]);
    assert(lined.contains(row));
    assert(hits.contains(row)) by {
        match order {
            Some(key) => {
                key.lemma_sorted(hits);
                vstd::seq_lib::to_multiset_contains(lined, row);
                vstd::seq_lib::to_multiset_contains(hits, row);
            },
            None => {},
        }
    }
    let h = choose|h: int| 0 <= h < hits.len() && hits[h] == row;
    lemma_matching_from(rows, pred, h);
}

/// The predicate matches no row exactly when it holds of no row.
pub proof fn lemma_matching_empty(rows: Seq<Seq<ValueView>>, pred: PredicateView)
    ensures
        matching(rows, pred).len() == 0 <==> forall|i: int|
            0 <= i < rows.len() ==> !pred.holds(#[trigger] rows[i]),
    decreases rows.len(),
{
    if rows.len() > 0 {
        let front = rows.drop_last();
        lemma_matching_empty(front, pred);
        if matching(rows, pred).len() == 0 {
            assert forall|i: int| 0 <= i < rows.len() implies !pred.holds(#[trigger] rows[i]) by {
                if i < front.len() {
                    assert(front[i] == rows[i]);
                }
            }
        } else if !pred.holds(rows.last()) {
            let i = choose|i: int| 0 <= i < front.len() && pred.holds(#[trigger] front[i]);
            assert(pred.holds(rows[i]));
        } else {
            assert(pred.holds(rows[rows.len() - 1]));
        }
    }
}

/// Where the predicate matches no row, a select returns none.
pub proof fn lemma_no_match_selects_nothing(
    rows: Seq<Seq<ValueView>>,
    pred: PredicateView,
    limit: Option<i64>,
    offset: Option<i64>,
    order: Option<OrderBy>,
)
    requires
        matching(rows, pred).len() == 0,
        usable(limit),
        usable(offset),
    ensures
        selection(rows, pred, limit, offset, order).len() == 0,
{
    let hits = matching(rows, pred);
    assert(arranged(hits, order) == hits);
}

/// Among the rows that a predicate leaves, it matches none.
pub proof fn lemma_remaining_matches_nothing(rows: Seq<Seq<ValueView>>, pred: PredicateView)
    ensures
        matching(remaining(rows, pred), pred).len() == 0,
{
    let rest = remaining(rows, pred);
    lemma_matching_empty(rest, pred);
    assert forall|k: int| 0 <= k < rest.len() implies !pred.holds(#[trigger] rest[k]) by {
        lemma_remaining_from(rows, pred, k);
    }
}

/// A table without a matching row is left whole.
pub proof fn lemma_remaining_all(rows: Seq<Seq<ValueView>>, pred: PredicateView)
    requires
        matching(rows, pred).len() == 0,
    ensures
        remaining(rows, pred) == rows,
    decreases rows.len(),
{
    lemma_matching_empty(rows, pred);
    if rows.len() > 0 {
        let front = rows.drop_last();
        assert(pred.holds(rows[rows.len() - 1]) == pred.holds(rows.last()));
        lemma_matching_empty(front, pred);
        lemma_remaining_all(front, pred);
        assert(front.push(rows.last()) == rows);
    }
}

/// Taking rows out of a table keeps its rows of one length and apart.
pub proof fn lemma_remaining_keeps(
    rows: Seq<Seq<ValueView>>,
    pred: PredicateView,
    arity: usize,
    unique: Seq<usize>,
)
    requires
        uniform(rows, arity),
        distinct(rows, unique),
    ensures
        uniform(remaining(rows, pred), arity),
        distinct(remaining(rows, pred), unique),
    decreases rows.len(),
{
    let rest = remaining(rows, pred);
    assert forall|k: int| 0 <= k < rest.len() implies (#[trigger] rest[k]).len() == arity by {
        lemma_remaining_from(rows, pred, k);
    }
    if rows.len() > 0 {
        let front = rows.drop_last();
        assert(uniform(front, arity) && distinct(front, unique)) by {
            assert forall|i: int| 0 <= i < front.len() implies front[i] == rows[i] by {}
        }
        lemma_remaining_keeps(front, pred, arity, unique);
        let kept = remaining(front, pred);
        if !pred.holds(rows.last()) {
            assert forall|i: int, j: int| 0 <= i < j < rest.len() implies !collides(
                #[trigger] rest[i],
                #[trigger] rest[j],
                unique,
            ) by {
                if j < kept.len() {
                    assert(rest[i] == kept[i] && rest[j] == kept[j]);
                } else {
                    lemma_remaining_from(front, pred, i);
                    let m = choose|m: int| 0 <= m < front.len() && #[trigger] front[m] == kept[i];
                    assert(rows[m] == rest[i]);
                    assert(rows[rows.len() - 1] == rest[j]);
                }
            }
        }
    }
}

} // verus!
