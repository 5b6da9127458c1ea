//! Predicates: equality tests on columns, combined by conjunction.

use vstd::prelude::*;
use crate::value::{agrees, cells, Row, Value, ValueView};

verus! {

/// A condition that selects rows. It is built once and never changed.
#[derive(Debug)]
pub enum Predicate {
    /// The cell in `column` agrees with `value`.
    Eq { column: usize, value: Value },
    /// Both conditions hold.
    And(Box<Predicate>, Box<Predicate>),
}

/// One equality test: the column, and the value its cell must agree with.
pub type Test = (usize, Value);

/// What a list of tests says.
pub open spec fn tests_view(tests: Seq<Test>) -> Seq<(usize, ValueView)> {
    tests.map_values(|t: Test| (t.0, t.1@))
}

/// What a predicate says.
pub enum PredicateView {
    Eq { column: usize, value: ValueView },
    And(Box<PredicateView>, Box<PredicateView>),
}

impl PredicateView {
    /// Whether the predicate holds of `row`. A test on a column that the
    /// row does not have holds of no row.
    pub open spec fn holds(self, row: Seq<ValueView>) -> bool
        decreases self,
    {
        match self {
            PredicateView::Eq { column, value } => column < row.len() && agrees(
                row[column as int],
                value,
            ),
            PredicateView::And(left, right) => left.holds(row) && right.holds(row),
        }
    }

    /// The conjunction of this predicate and `other`.
    pub open spec fn and(self, other: PredicateView) -> PredicateView {
        PredicateView::And(Box::new(self), Box::new(other))
    }

    /// The equality tests of the predicate, from left to right.
    pub open spec fn tests(self) -> Seq<(usize, ValueView)>
        decreases self,
    {
        match self {
            PredicateView::Eq { column, value } => seq![(column, value)],
            PredicateView::And(left, right) => left.tests() + right.tests(),
        }
    }

    /// A predicate holds of a row exactly when each of its tests does.
    pub proof fn lemma_tests(self, row: Seq<ValueView>)
        ensures
            self.holds(row) <==> forall|i: int|
                0 <= i < self.tests().len() ==> passes(#[trigger] self.tests()[i], row),
        decreases self,
    {
        match self {
            PredicateView::Eq { column, value } => {
                assert(self.tests()[0] == (column, value));
            },
            PredicateView::And(left, right) => {
                left.lemma_tests(row);
                right.lemma_tests(row);
                let l = left.tests();
                let r = right.tests();
                let all = self.tests();
                if left.holds(row) && right.holds(row) {
                    assert forall|i: int| 0 <= i < all.len() implies passes(
                        #[trigger] all[i],
                        row,
                    ) by {
                        if i < l.len() {
                            assert(all[i] == l[i]);
                        } else {
                            assert(all[i] == r[i - l.len()]);
                        }
                    }
                }
                if forall|i: int| 0 <= i < all.len() ==> passes(#[trigger] all[i], row) {
                    assert forall|i: int| 0 <= i < l.len() implies passes(#[trigger] l[i], row) by {
                        assert(all[i] == l[i]);
                    }
                    assert forall|i: int| 0 <= i < r.len() implies passes(#[trigger] r[i], row) by {
                        assert(all[l.len() + i] == r[i]);
                    }
                }
            },
        }
    }
}

/// Whether one equality test holds of `row`.
pub open spec fn passes(test: (usize, ValueView), row: Seq<ValueView>) -> bool {
    test.0 < row.len() && agrees(row[test.0 as int], test.1)
}

/// What the predicate `p` says.
pub open spec fn predicate_view(p: Predicate) -> PredicateView
    decreases p,
{
    match p {
        Predicate::Eq { column, value } => PredicateView::Eq { column, value: value@ },
        Predicate::And(left, right) => PredicateView::And(
            Box::new(predicate_view(*left)),
            Box::new(predicate_view(*right)),
        ),
    }
}

impl View for Predicate {
    type V = PredicateView;

    open spec fn view(&self) -> PredicateView {
        predicate_view(*self)
    }
}

impl Predicate {
    /// The test `column = value`.
    pub fn eq(column: usize, value: Value) -> (r: Predicate)
        ensures
            r@ == (PredicateView::Eq { column, value: value@ }),
    {
        Predicate::Eq { column, value }
    }

    /// The conjunction of this predicate and `other`.
    pub fn and(self, other: Predicate) -> (r: Predicate)
        ensures
            r@ == self@.and(other@),
    {
        Predicate::And(Box::new(self), Box::new(other))
    }

    /// The equality tests of the predicate, from left to right. The
    /// predicate holds of a row exactly when each of them does.
    pub fn tests(&self) -> (r: Vec<Test>)
        ensures
            tests_view(r@) == self@.tests(),
        decreases self,
    {
        match self {
            Predicate::Eq { column, value } => {
                let mut out: Vec<Test> = Vec::new();
                out.push((*column, value.clone()));
                assert(tests_view(out@) == self@.tests());
                out
            },
            Predicate::And(left, right) => {
                let mut out = left.tests();
                let mut rest = right.tests();
                let ghost first = out@;
                let ghost second = rest@;
                out.append(&mut rest);
                assert(tests_view(first + second) == tests_view(first) + tests_view(second));
                out
            },
        }
    }

    /// Evaluates the predicate on `row`.
    pub fn test(&self, row: &Row) -> (r: bool)
        ensures
            r == self@.holds(cells(row@)),
        decreases self,
    {
        match self {
            Predicate::Eq { column, value } => {
                *column < row.len() && row[*column].agrees_with(value)
            },
            Predicate::And(left, right) => left.test(row) && right.test(row),
        }
    }
}

} // verus!
