//! Update sets: the sparse mapping from columns to the values they are to
//! take.

use vstd::prelude::*;
use crate::value::{cells, Row, Value, ValueView};

verus! {

/// One entry of an update set.
#[derive(Debug)]
pub struct Assignment {
    pub column: usize,
    pub value: Value,
}

/// The changes an update is to make: for each column named, its new value.
/// An update set without entries is a valid input; it asks for no change.
#[derive(Debug)]
pub struct UpdateSet {
    entries: Vec<Assignment>,
}

/// The mapping that a list of assignments stands for. Where a column is
/// assigned twice the later assignment counts.
pub open spec fn assignments_map(entries: Seq<Assignment>) -> Map<usize, ValueView>
    decreases entries.len(),
{
    if entries.len() == 0 {
        Map::empty()
    } else {
        assignments_map(entries.drop_last()).insert(entries.last().column, entries.last().value@)
    }
}

/// The row after the changes: a cell whose column is named takes the new
/// value, every other cell stays. A change to a column that the row does
/// not have changes nothing.
pub open spec fn apply_changes(row: Seq<ValueView>, changes: Map<usize, ValueView>) -> Seq<
    ValueView,
> {
    Seq::new(
        row.len(),
        |c: int|
            if changes.dom().contains(c as usize) {
                changes[c as usize]
            } else {
                row[c]
            },
    )
}

impl View for UpdateSet {
    type V = Map<usize, ValueView>;

    closed spec fn view(&self) -> Map<usize, ValueView> {
        assignments_map(self.entries@)
    }
}

impl UpdateSet {
    /// The update set without entries.
    pub fn new() -> (r: UpdateSet)
        ensures
            r@ == Map::<usize, ValueView>::empty(),
    {
        UpdateSet { entries: Vec::new() }
    }

    /// Names `column` and the value it is to take. An earlier entry for the
    /// same column is replaced.
    pub fn set(&mut self, column: usize, value: Value)
        ensures
            final(self)@ == old(self)@.insert(column, value@),
    {
        self.entries.push(Assignment { column, value });
        assert(self.entries@.drop_last() == old(self).entries@);
    }

    /// Whether the update set names no column.
    pub fn is_empty(&self) -> (r: bool)
        ensures
            r == (self@ == Map::<usize, ValueView>::empty()),
    {
        let r = self.entries.len() == 0;
        proof {
            if !r {
                assert(self@.dom().contains(self.entries@.last().column));
            }
        }
        r
    }

    /// The value that `column` is to take, if the update set names it.
    pub fn get(&self, column: usize) -> (r: Option<&Value>)
        ensures
            match r {
                Some(v) => self@.dom().contains(column) && v@ == self@[column],
                None => !self@.dom().contains(column),
            },
    {
        let mut i: usize = self.entries.len();
        assert(self.entries@.take(i as int) == self.entries@);
        while i > 0
            invariant
                i <= self.entries.len(),
                self@.dom().contains(column) == assignments_map(
                    self.entries@.take(i as int),
                ).dom().contains(column),
                self@.dom().contains(column) ==> self@[column] == assignments_map(
                    self.entries@.take(i as int),
                )[column],
            decreases i,
        {
            let ghost prefix = self.entries@.take(i as int);
            assert(prefix.drop_last() == self.entries@.take(i - 1));
            assert(prefix.last() == self.entries@[i - 1]);
            if self.entries[i - 1].column == column {
                return Some(&self.entries[i - 1].value);
            }
            i = i - 1;
        }
        None
    }

    /// Applies the changes to `row`.
    pub fn apply(&self, row: &Row) -> (r: Row)
        ensures
            cells(r@) == apply_changes(cells(row@), self@),
    {
        let ghost target = apply_changes(cells(row@), self@);
        let mut out: Row = Vec::new();
        let mut c: usize = 0;
        while c < row.len()
            invariant
                c <= row.len(),
                target == apply_changes(cells(row@), self@),
                cells(out@) == target.take(c as int),
            decreases row.len() - c,
        {
            let cell = match self.get(c) {
                Some(v) => v.clone(),
                None => row[c].clone(),
            };
            proof {
                assert(cells(out@.push(cell)) == cells(out@).push(cell@));
                assert(target.take(c + 1) == target.take(c as int).push(cell@));
            }
            out.push(cell);
            c = c + 1;
        }
        assert(target.take(row@.len() as int) == target);
        out
    }
}

} // verus!
