//! A table held in memory, which carries out the statements of a store.

use vstd::prelude::*;
use vstd::string::StringExecFns;
use crate::errors::{Failure, Outcome, Signal};
use crate::predicate::Predicate;
use crate::relation::{
    changed, collides, conflicts, distinct, lemma_remaining_all, lemma_remaining_keeps, matching,
    remaining, rewritten, selection, uniform, usable,
};
use crate::sorting::OrderBy;
use crate::update_set::UpdateSet;
use crate::value::{agrees, cells, duplicate_row, rows_view, Row, Value, ValueView};

verus! {

/// A table: rows of one length, with columns that must be unique and,
/// where the table numbers its rows, the column that holds the number.
#[derive(Debug)]
pub struct Table {
    arity: usize,
    unique: Vec<usize>,
    serial: Option<usize>,
    next_serial: i64,
    rows: Vec<Row>,
}

/// The row as it is stored: where the table numbers its rows, the number
/// stands in the serial column, whatever the caller put there.
pub open spec fn stamped(row: Seq<ValueView>, serial: Option<usize>, number: i64) -> Seq<
    ValueView,
> {
    match serial {
        Some(c) => if c < row.len() {
            row.update(c as int, ValueView::Int(number))
        } else {
            row
        },
        None => row,
    }
}

/// What the table says of a row with the wrong number of columns.
pub open spec fn arity_detail() -> Seq<char> {
    "the row does not have the table's columns"@
}

/// What the table says when it has no number left for a row.
pub open spec fn serial_detail() -> Seq<char> {
    "the table has run out of row numbers"@
}

/// What the table says of a row that collides with one it holds.
pub open spec fn unique_detail() -> Seq<char> {
    "a unique column would hold the same value twice"@
}

/// What the table says of a negative limit or offset.
pub open spec fn window_detail() -> Seq<char> {
    "a limit or an offset is negative"@
}

/// Tests whether two rows agree in a column that must be unique.
fn row_collides(a: &Row, b: &Row, unique: &Vec<usize>) -> (r: bool)
    ensures
        r == collides(cells(a@), cells(b@), unique@),
{
    let mut k: usize = 0;
    while k < unique.len()
        invariant
            k <= unique.len(),
            forall|m: int|
                0 <= m < k ==> !(#[trigger] unique@[m] < a@.len() && unique@[m] < b@.len()
                    && agrees(a@[unique@[m] as int]@, b@[unique@[m] as int]@)),
        decreases unique.len() - k,
    {
        let c = unique[k];
        if c < a.len() && c < b.len() && a[c].agrees_with(&b[c]) {
            assert(unique@[k as int] < cells(a@).len());
            return true;
        }
        k = k + 1;
    }
    false
}

/// Tests whether `row` collides with one of the first `n` rows.
fn collides_with_any(rows: &Vec<Row>, n: usize, row: &Row, unique: &Vec<usize>) -> (r: bool)
    requires
        n <= rows.len(),
    ensures
        r == conflicts(rows_view(rows@).take(n as int), cells(row@), unique@),
{
    let ghost all = rows_view(rows@).take(n as int);
    let mut i: usize = 0;
    while i < n
        invariant
            i <= n <= rows.len(),
            all == rows_view(rows@).take(n as int),
            forall|m: int| 0 <= m < i ==> !collides(#[trigger] all[m], cells(row@), unique@),
        decreases n - i,
    {
        if row_collides(&rows[i], row, unique) {
            assert(collides(all[i as int], cells(row@), unique@));
            return true;
        }
        i = i + 1;
    }
    false
}

/// Tests whether no two of the rows collide.
fn all_distinct(rows: &Vec<Row>, unique: &Vec<usize>) -> (r: bool)
    ensures
        r == distinct(rows_view(rows@), unique@),
{
    let ghost all = rows_view(rows@);
    let mut j: usize = 0;
    while j < rows.len()
        invariant
            j <= rows.len(),
            all == rows_view(rows@),
            forall|a: int, b: int|
                0 <= a < b < j ==> !collides(#[trigger] all[a], #[trigger] all[b], unique@),
        decreases rows.len() - j,
    {
        if collides_with_any(rows, j, &rows[j], unique) {
            proof {
                let front = all.take(j as int);
                let i = choose|i: int|
                    0 <= i < front.len() && collides(#[trigger] front[i], all[j as int], unique@);
                assert(collides(all[i], all[j as int], unique@));
            }
            return false;
        }
        proof {
            let front = all.take(j as int);
            assert forall|a: int| 0 <= a < j implies !collides(
                #[trigger] all[a],
                all[j as int],
                unique@,
            ) by {
                assert(front[a] == all[a]);
            }
        }
        j = j + 1;
    }
    true
}

impl View for Table {
    type V = Seq<Seq<ValueView>>;

    /// The rows of the table, in the order they were stored.
    closed spec fn view(&self) -> Seq<Seq<ValueView>> {
        rows_view(self.rows@)
    }
}

impl Table {
    /// The number of columns.
    pub closed spec fn arity(&self) -> usize {
        self.arity
    }

    /// The columns that must be unique.
    pub closed spec fn unique(&self) -> Seq<usize> {
        self.unique@
    }

    /// The column that holds the row's number, where the table numbers
    /// its rows.
    pub closed spec fn serial(&self) -> Option<usize> {
        self.serial
    }

    /// The number that the next row gets.
    pub closed spec fn next_serial(&self) -> i64 {
        self.next_serial
    }

    /// Whether the table is in order: every row has the table's columns, and
    /// no two rows agree in a column that must be unique.
    pub open spec fn wf(&self) -> bool {
        &&& uniform(self@, self.arity())
        &&& distinct(self@, self.unique())
    }

    /// Whether two tables are laid out alike.
    pub open spec fn same_layout(&self, other: &Table) -> bool {
        &&& self.arity() == other.arity()
        &&& self.unique() == other.unique()
        &&& self.serial() == other.serial()
    }

    /// Why the table refuses to store `row`, if it does.
    pub open spec fn refusal(&self, row: Seq<ValueView>) -> Option<Signal> {
        if row.len() != self.arity() {
            Some(Signal::Other)
        } else if self.serial() is Some && self.next_serial() == i64::MAX {
            Some(Signal::Other)
        } else if conflicts(self@, stamped(row, self.serial(), self.next_serial()), self.unique()) {
            Some(Signal::Constraint)
        } else {
            None
        }
    }

    /// An empty table of `arity` columns, of which `unique` must be unique
    /// and `serial`, if given, holds the number of the row, from 1 on.
    pub fn new(arity: usize, unique: Vec<usize>, serial: Option<usize>) -> (r: Table)
        ensures
            r@ == Seq::<Seq<ValueView>>::empty(),
            r.arity() == arity,
            r.unique() == unique@,
            r.serial() == serial,
            r.next_serial() == 1,
            r.wf(),
    {
        let r = Table { arity, unique, serial, next_serial: 1, rows: Vec::new() };
        assert(r@ == Seq::<Seq<ValueView>>::empty());
        r
    }

    /// The number of rows.
    pub fn len(&self) -> (r: usize)
        ensures
            r == self@.len(),
    {
        self.rows.len()
    }

    /// Stores `row` and returns it as stored, or refuses it and changes
    /// nothing.
    pub fn insert(&mut self, row: Row) -> (r: Outcome)
        ensures
            match old(self).refusal(cells(row@)) {
                Some(signal) => {
                    &&& *final(self) == *old(self)
                    &&& r matches Outcome::Failed(failure)
                    &&& failure.signal == signal
                    &&& failure.detail@ == (if row@.len() != old(self).arity() {
                        arity_detail()
                    } else if signal == Signal::Other {
                        serial_detail()
                    } else {
                        unique_detail()
                    })
                },
                None => {
                    let stored = stamped(cells(row@), old(self).serial(), old(self).next_serial());
                    &&& final(self)@ == old(self)@.push(stored)
                    &&& final(self).same_layout(old(self))
                    &&& final(self).next_serial() == (if old(self).serial() is Some {
                        old(self).next_serial() + 1
                    } else {
                        old(self).next_serial() as int
                    })
                    &&& r matches Outcome::Rows(rows)
                    &&& rows_view(rows@) == seq![stored]
                },
            },
            old(self).wf() ==> final(self).wf(),
    {
        if row.len() != self.arity {
            return Outcome::Failed(
                Failure {
                    signal: Signal::Other,
                    detail: String::from_str("the row does not have the table's columns"),
                },
            );
        }
        let mut entry = row;
        match self.serial {
            Some(c) => {
                if self.next_serial == i64::MAX {
                    return Outcome::Failed(
                        Failure {
                            signal: Signal::Other,
                            detail: String::from_str("the table has run out of row numbers"),
                        },
                    );
                }
                if c < entry.len() {
                    entry.set(c, Value::Int(self.next_serial));
                    assert(cells(entry@) == cells(row@).update(
                        c as int,
                        ValueView::Int(self.next_serial),
                    ));
                }
            },
            None => {},
        }
        let ghost stored = cells(entry@);
        assert(stored == stamped(cells(row@), self.serial(), self.next_serial()));
        assert(rows_view(self.rows@).take(self.rows@.len() as int) == rows_view(self.rows@));
        if collides_with_any(&self.rows, self.rows.len(), &entry, &self.unique) {
            return Outcome::Failed(
                Failure {
                    signal: Signal::Constraint,
                    detail: String::from_str("a unique column would hold the same value twice"),
                },
            );
        }
        let mut returned: Vec<Row> = Vec::new();
        returned.push(duplicate_row(&entry));
        self.rows.push(entry);
        if self.serial.is_some() {
            self.next_serial = self.next_serial + 1;
        }
        proof {
            assert(rows_view(returned@) == seq![stored]);
            assert(self@ == old(self)@.push(stored));
            if old(self).wf() {
                assert(uniform(self@, self.arity()));
                assert(distinct(self@, self.unique())) by {
                    assert forall|i: int, j: int| 0 <= i < j < self@.len() implies !collides(
                        #[trigger] self@[i],
                        #[trigger] self@[j],
                        self.unique(),
                    ) by {
                        assert(self@[i] == old(self)@[i]);
                        if j < old(self)@.len() {
                            assert(self@[j] == old(self)@[j]);
                        }
                    }
                }
            }
        }
        Outcome::Rows(returned)
    }

    /// Returns the rows that `pred` holds of: sorted by `order` where one is
    /// given and in the order they were stored where none is, then without
    /// the first `offset` of them and cut to `limit`. A negative limit or
    /// offset is refused.
    pub fn select(
        &self,
        pred: &Predicate,
        limit: Option<i64>,
        offset: Option<i64>,
        order: Option<OrderBy>,
    ) -> (r: Outcome)
        ensures
            usable(limit) && usable(offset) ==> {
                &&& r matches Outcome::Rows(rows)
                &&& rows_view(rows@) == selection(self@, pred@, limit, offset, order)
            },
            !(usable(limit) && usable(offset)) ==> {
                &&& r matches Outcome::Failed(failure)
                &&& failure.signal == Signal::Other
                &&& failure.detail@ == window_detail()
            },
    {
        let limit_ok = match limit {
            Some(n) => n >= 0,
            None => true,
        };
        let offset_ok = match offset {
            Some(n) => n >= 0,
            None => true,
        };
        if !limit_ok || !offset_ok {
            return Outcome::Failed(
                Failure {
                    signal: Signal::Other,
                    detail: String::from_str("a limit or an offset is negative"),
                },
            );
        }
        let mut hits: Vec<Row> = Vec::new();
        let mut i: usize = 0;
        assert(self@.take(0) == Seq::<Seq<ValueView>>::empty());
        assert(rows_view(hits@) == Seq::<Seq<ValueView>>::empty());
        while i < self.rows.len()
            invariant
                i <= self.rows.len(),
                rows_view(hits@) == matching(self@.take(i as int), pred@),
            decreases self.rows.len() - i,
        {
            assert(self@.take(i + 1).drop_last() == self@.take(i as int));
            assert(self@.take(i + 1).last() == cells(self.rows@[i as int]@));
            if pred.test(&self.rows[i]) {
                let row = duplicate_row(&self.rows[i]);
                assert(rows_view(hits@.push(row)) == rows_view(hits@).push(cells(row@)));
                hits.push(row);
            }
            i = i + 1;
        }
        assert(self@.take(self@.len() as int) == self@);
        let arranged = match order {
            Some(key) => key.sort(&hits),
            None => hits,
        };
        let total = arranged.len();
        let from: usize = match offset {
            Some(n) => if (n as u64) <= (total as u64) {
                n as usize
            } else {
                total
            },
            None => 0,
        };
        let to: usize = match limit {
            Some(n) => if (n as u64) <= ((total - from) as u64) {
                from + (n as usize)
            } else {
                total
            },
            None => total,
        };
        let mut out: Vec<Row> = Vec::new();
        let mut k: usize = from;
        assert(rows_view(arranged@).subrange(from as int, from as int) == rows_view(out@));
        while k < to
            invariant
                from <= k <= to <= arranged.len(),
                rows_view(out@) == rows_view(arranged@).subrange(from as int, k as int),
            decreases to - k,
        {
            let row = duplicate_row(&arranged[k]);
            proof {
                let all = rows_view(arranged@);
                assert(rows_view(out@.push(row)) == rows_view(out@).push(cells(row@)));
                assert(all.subrange(from as int, k + 1) == all.subrange(from as int, k as int).push(
                    all[k as int],
                ));
            }
            out.push(row);
            k = k + 1;
        }
        Outcome::Rows(out)
    }

    /// Applies `changes` to every row that `pred` holds of and returns those
    /// rows as they are afterwards. Where no row matches, or where the
    /// changed rows would collide, nothing changes.
    pub fn update(&mut self, pred: &Predicate, changes: &UpdateSet) -> (r: Outcome)
        ensures
            ({
                let hits = matching(old(self)@, pred@);
                let next = rewritten(old(self)@, pred@, changes@);
                if hits.len() == 0 {
                    &&& *final(self) == *old(self)
                    &&& r matches Outcome::Rows(rows)
                    &&& rows@.len() == 0
                } else if !distinct(next, old(self).unique()) {
                    &&& *final(self) == *old(self)
                    &&& r matches Outcome::Failed(failure)
                    &&& failure.signal == Signal::Constraint
                    &&& failure.detail@ == unique_detail()
                } else {
                    &&& final(self)@ == next
                    &&& final(self).same_layout(old(self))
                    &&& final(self).next_serial() == old(self).next_serial()
                    &&& r matches Outcome::Rows(rows)
                    &&& rows_view(rows@) == changed(hits, changes@)
                }
            }),
            old(self).wf() ==> final(self).wf(),
    {
        let mut next: Vec<Row> = Vec::new();
        let mut returned: Vec<Row> = Vec::new();
        let mut i: usize = 0;
        assert(self@.take(0) == Seq::<Seq<ValueView>>::empty());
        assert(rows_view(returned@) == changed(Seq::<Seq<ValueView>>::empty(), changes@));
        assert(rows_view(next@) == rewritten(self@.take(0), pred@, changes@));
        while i < self.rows.len()
            invariant
                i <= self.rows.len(),
                rows_view(next@) == rewritten(self@.take(i as int), pred@, changes@),
                rows_view(returned@) == changed(matching(self@.take(i as int), pred@), changes@),
            decreases self.rows.len() - i,
        {
            let ghost before = self@.take(i as int);
            let ghost upto = self@.take(i + 1);
            assert(upto.drop_last() == before);
            assert(upto.last() == cells(self.rows@[i as int]@));
            if pred.test(&self.rows[i]) {
                let row = changes.apply(&self.rows[i]);
                let copy = duplicate_row(&row);
                proof {
                    let hits = matching(before, pred@);
                    assert(matching(upto, pred@) == hits.push(upto.last()));
                    assert(rows_view(returned@.push(copy)) == rows_view(returned@).push(
                        cells(copy@),
                    ));
                    assert(changed(hits.push(upto.last()), changes@) == changed(
                        hits,
                        changes@,
                    ).push(cells(row@)));
                    assert(rows_view(next@.push(row)) == rows_view(next@).push(cells(row@)));
                    assert(rewritten(upto, pred@, changes@) == rewritten(
                        before,
                        pred@,
                        changes@,
                    ).push(cells(row@)));
                }
                returned.push(copy);
                next.push(row);
            } else {
                let row = duplicate_row(&self.rows[i]);
                proof {
                    assert(rows_view(next@.push(row)) == rows_view(next@).push(cells(row@)));
                    assert(rewritten(upto, pred@, changes@) == rewritten(
                        before,
                        pred@,
                        changes@,
                    ).push(cells(row@)));
                }
                next.push(row);
            }
            i = i + 1;
        }
        assert(self@.take(self@.len() as int) == self@);
        if returned.len() == 0 {
            return Outcome::Rows(returned);
        }
        if !all_distinct(&next, &self.unique) {
            return Outcome::Failed(
                Failure {
                    signal: Signal::Constraint,
                    detail: String::from_str("a unique column would hold the same value twice"),
                },
            );
        }
        self.rows = next;
        Outcome::Rows(returned)
    }

    /// Takes out every row that `pred` holds of and returns those rows as
    /// they were.
    pub fn delete(&mut self, pred: &Predicate) -> (r: Outcome)
        ensures
            final(self)@ == remaining(old(self)@, pred@),
            final(self).same_layout(old(self)),
            final(self).next_serial() == old(self).next_serial(),
            matching(old(self)@, pred@).len() == 0 ==> *final(self) == *old(self),
            r matches Outcome::Rows(rows) && rows_view(rows@) == matching(old(self)@, pred@),
            old(self).wf() ==> final(self).wf(),
    {
        let mut kept: Vec<Row> = Vec::new();
        let mut removed: Vec<Row> = Vec::new();
        let mut i: usize = 0;
        assert(self@.take(0) == Seq::<Seq<ValueView>>::empty());
        assert(rows_view(kept@) == Seq::<Seq<ValueView>>::empty());
        assert(rows_view(removed@) == Seq::<Seq<ValueView>>::empty());
        while i < self.rows.len()
            invariant
                i <= self.rows.len(),
                rows_view(kept@) == remaining(self@.take(i as int), pred@),
                rows_view(removed@) == matching(self@.take(i as int), pred@),
            decreases self.rows.len() - i,
        {
            assert(self@.take(i + 1).drop_last() == self@.take(i as int));
            assert(self@.take(i + 1).last() == cells(self.rows@[i as int]@));
            let row = duplicate_row(&self.rows[i]);
            if pred.test(&self.rows[i]) {
                assert(rows_view(removed@.push(row)) == rows_view(removed@).push(cells(row@)));
                removed.push(row);
            } else {
                assert(rows_view(kept@.push(row)) == rows_view(kept@).push(cells(row@)));
                kept.push(row);
            }
            i = i + 1;
        }
        assert(self@.take(self@.len() as int) == self@);
        proof {
            if old(self).wf() {
                lemma_remaining_keeps(old(self)@, pred@, old(self).arity(), old(self).unique());
            }
            if removed@.len() == 0 {
                lemma_remaining_all(old(self)@, pred@);
            }
        }
        if removed.len() > 0 {
            self.rows = kept;
        }
        Outcome::Rows(removed)
    }
}

} // verus!
