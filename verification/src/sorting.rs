//! Sort keys and the stable sort of rows by one column.

use vstd::prelude::*;
use crate::value::{
    cells, duplicate_row, lemma_precedes_asymmetric, precedes, rows_view, Row, Value, ValueView,
};

verus! {

/// The direction of a sort.
#[derive(Debug, Clone, Copy, PartialEq, Eq, Structural)]
pub enum Direction {
    /// Smallest key first.
    Asc,
    /// Largest key first.
    Desc,
}

/// A sort key: a column and a direction.
#[derive(Debug, Clone, Copy, PartialEq, Eq, Structural)]
pub struct OrderBy {
    pub column: usize,
    pub direction: Direction,
}

/// The value a row is sorted by: its cell in `column`, or null where the row
/// has no such column.
pub open spec fn sort_key(row: Seq<ValueView>, column: usize) -> ValueView {
    if column < row.len() {
        row[column as int]
    } else {
        ValueView::Null
    }
}

impl OrderBy {
    /// Whether row `a` must come strictly before row `b`.
    pub open spec fn before(self, a: Seq<ValueView>, b: Seq<ValueView>) -> bool {
        match self.direction {
            Direction::Asc => precedes(sort_key(a, self.column), sort_key(b, self.column)),
            Direction::Desc => precedes(sort_key(b, self.column), sort_key(a, self.column)),
        }
    }

    /// `sorted` with `row` put behind the last row that need not follow it.
    pub open spec fn place(self, sorted: Seq<Seq<ValueView>>, row: Seq<ValueView>) -> Seq<
        Seq<ValueView>,
    >
        decreases sorted.len(),
    {
        if sorted.len() == 0 {
            seq![row]
        } else if self.before(row, sorted.last()) {
            self.place(sorted.drop_last(), row).push(sorted.last())
        } else {
            sorted.push(row)
        }
    }

    /// The rows in sorted order. Rows with equal keys keep the order they
    /// came in.
    pub open spec fn sorted(self, rows: Seq<Seq<ValueView>>) -> Seq<Seq<ValueView>>
        decreases rows.len(),
    {
        if rows.len() == 0 {
            rows
        } else {
            self.place(self.sorted(rows.drop_last()), rows.last())
        }
    }

    /// Whether no row of `rows` must come strictly before its predecessor.
    pub open spec fn in_order(self, rows: Seq<Seq<ValueView>>) -> bool {
        forall|i: int| 0 < i < rows.len() ==> !self.before(#[trigger] rows[i], rows[i - 1])
    }

    /// An ascending sort by `column`.
    pub fn asc(column: usize) -> (r: OrderBy)
        ensures
            r == (OrderBy { column, direction: Direction::Asc }),
    {
        OrderBy { column, direction: Direction::Asc }
    }

    /// A descending sort by `column`.
    pub fn desc(column: usize) -> (r: OrderBy)
        ensures
            r == (OrderBy { column, direction: Direction::Desc }),
    {
        OrderBy { column, direction: Direction::Desc }
    }

    /// Tests whether row `a` must come strictly before row `b`.
    pub fn row_before(&self, a: &Row, b: &Row) -> (r: bool)
        ensures
            r == self.before(cells(a@), cells(b@)),
    {
        let null = Value::Null;
        let ka = if self.column < a.len() { &a[self.column] } else { &null };
        let kb = if self.column < b.len() { &b[self.column] } else { &null };
        match self.direction {
            Direction::Asc => ka.sorts_before(kb),
            Direction::Desc => kb.sorts_before(ka),
        }
    }

    /// Sorts `rows` by this key, keeping rows with equal keys in the order
    /// they came in.
    pub fn sort(&self, rows: &Vec<Row>) -> (r: Vec<Row>)
        ensures
            rows_view(r@) == self.sorted(rows_view(rows@)),
    {
        let mut out: Vec<Row> = Vec::new();
        let mut i: usize = 0;
        assert(rows_view(rows@).take(0) == Seq::<Seq<ValueView>>::empty());
        assert(rows_view(out@) == Seq::<Seq<ValueView>>::empty());
        while i < rows.len()
            invariant
                i <= rows.len(),
                rows_view(out@) == self.sorted(rows_view(rows@).take(i as int)),
            decreases rows.len() - i,
        {
            let row = duplicate_row(&rows[i]);
            let mut p: usize = out.len();
            while p > 0 && self.row_before(&row, &out[p - 1])
                invariant
                    p <= out.len(),
                    forall|j: int|
                        p <= j < out.len() ==> self.before(
                            cells(row@),
                            #[trigger] rows_view(out@)[j],
                        ),
                decreases p,
            {
                p = p - 1;
            }
            proof {
                let done = rows_view(out@);
                let all = rows_view(rows@);
                self.lemma_place_is_insert(done, cells(row@), p as int);
                assert(all.take(i + 1).drop_last() == all.take(i as int));
                assert(all.take(i + 1).last() == cells(row@));
                assert(rows_view(out@.insert(p as int, row)) == done.insert(
                    p as int,
                    cells(row@),
                ));
            }
            out.insert(p, row);
            i = i + 1;
        }
        assert(rows_view(rows@).take(rows@.len() as int) == rows_view(rows@));
        out
    }

    /// Placing a row is an insertion at the position behind the last row
    /// that need not follow it.
    pub proof fn lemma_place_is_insert(
        self,
        sorted: Seq<Seq<ValueView>>,
        row: Seq<ValueView>,
        p: int,
    )
        requires
            0 <= p <= sorted.len(),
            forall|j: int| p <= j < sorted.len() ==> self.before(row, #[trigger] sorted[j]),
            p > 0 ==> !self.before(row, sorted[p - 1]),
        ensures
            self.place(sorted, row) == sorted.insert(p, row),
        decreases sorted.len(),
    {
        if sorted.len() == 0 {
            assert(seq![row] == sorted.insert(p, row));
        } else if p == sorted.len() {
            assert(sorted.push(row) == sorted.insert(p, row));
        } else {
            self.lemma_place_is_insert(sorted.drop_last(), row, p);
            assert(sorted.drop_last().insert(p, row).push(sorted.last()) == sorted.insert(p, row));
        }
    }

    /// No row must come strictly before a row that must come strictly
    /// before it.
    pub proof fn lemma_before_asymmetric(self, a: Seq<ValueView>, b: Seq<ValueView>)
        ensures
            !(self.before(a, b) && self.before(b, a)),
    {
        lemma_precedes_asymmetric(sort_key(a, self.column), sort_key(b, self.column));
    }

    /// Placing a row keeps the rows in order, adds the row and loses none.
    pub proof fn lemma_place(self, sorted: Seq<Seq<ValueView>>, row: Seq<ValueView>)
        requires
            self.in_order(sorted),
        ensures
            self.in_order(self.place(sorted, row)),
            self.place(sorted, row).len() == sorted.len() + 1,
            self.place(sorted, row).to_multiset() == sorted.to_multiset().insert(row),
            self.place(sorted, row).last() == row || (sorted.len() > 0 && self.place(
                sorted,
                row,
            ).last() == sorted.last()),
        decreases sorted.len(),
    {
        broadcast use vstd::seq_lib::group_to_multiset_ensures;

        if sorted.len() == 0 {
            assert(seq![row] == Seq::<Seq<ValueView>>::empty().push(row));
            assert(sorted == Seq::<Seq<ValueView>>::empty());
        } else if self.before(row, sorted.last()) {
            let front = sorted.drop_last();
            assert(self.in_order(front)) by {
                assert forall|i: int| 0 < i < front.len() implies !self.before(
                    #[trigger] front[i],
                    front[i - 1],
                ) by {
                    assert(front[i] == sorted[i]);
                }
            }
            self.lemma_place(front, row);
            let placed = self.place(front, row);
            let out = placed.push(sorted.last());
            self.lemma_before_asymmetric(row, sorted.last());
            assert(self.in_order(out)) by {
                assert forall|i: int| 0 < i < out.len() implies !self.before(
                    #[trigger] out[i],
                    out[i - 1],
                ) by {
                    if i < placed.len() {
                        assert(out[i] == placed[i]);
                    } else {
                        if placed.last() != row {
                            assert(front.last() == sorted[sorted.len() - 2]);
                            assert(sorted.last() == sorted[sorted.len() - 1]);
                        }
                    }
                }
            }
            assert(sorted == front.push(sorted.last()));
        } else {
            let out = sorted.push(row);
            assert forall|i: int| 0 < i < out.len() implies !self.before(
                #[trigger] out[i],
                out[i - 1],
            ) by {
                if i < sorted.len() {
                    assert(out[i] == sorted[i]);
                }
            }
        }
    }

    /// The sorted rows are in order, and they are the given rows: none is
    /// added, lost or counted twice.
    pub proof fn lemma_sorted(self, rows: Seq<Seq<ValueView>>)
        ensures
            self.in_order(self.sorted(rows)),
            self.sorted(rows).len() == rows.len(),
            self.sorted(rows).to_multiset() == rows.to_multiset(),
        decreases rows.len(),
    {
        broadcast use vstd::seq_lib::group_to_multiset_ensures;

        if rows.len() > 0 {
            self.lemma_sorted(rows.drop_last());
            self.lemma_place(self.sorted(rows.drop_last()), rows.last());
            assert(rows == rows.drop_last().push(rows.last()));
        }
    }
}

} // verus!
