//! Cell values and the two relations the layer needs on them: agreement
//! (what an equality test selects) and precedence (what a sort goes by).

use vstd::prelude::*;

verus! {

/// One cell of a row.
#[derive(Debug, PartialEq, Eq)]
pub enum Value {
    /// The absent value of a nullable column.
    Null,
    /// An integer, which also stands for a timestamp or an enumeration code.
    Int(i64),
    /// A piece of text.
    Text(String),
}

/// What a cell holds.
pub enum ValueView {
    Null,
    Int(i64),
    Text(Seq<char>),
}

impl View for Value {
    type V = ValueView;

    open spec fn view(&self) -> ValueView {
        match *self {
            Value::Null => ValueView::Null,
            Value::Int(x) => ValueView::Int(x),
            Value::Text(s) => ValueView::Text(s@),
        }
    }
}

/// A row of a table: one value per column, in column order.
pub type Row = Vec<Value>;

/// What a row holds: the content of each cell, in column order.
pub open spec fn cells(row: Seq<Value>) -> Seq<ValueView> {
    row.map_values(|v: Value| v@)
}

/// What a list of rows holds: the cells of each row, in order.
pub open spec fn rows_view(rows: Seq<Row>) -> Seq<Seq<ValueView>> {
    rows.map_values(|r: Row| cells(r@))
}

/// Whether an equality test between `a` and `b` succeeds. As in a
/// relational store, the null value agrees with nothing, itself included.
pub open spec fn agrees(a: ValueView, b: ValueView) -> bool {
    match (a, b) {
        (ValueView::Int(x), ValueView::Int(y)) => x == y,
        (ValueView::Text(s), ValueView::Text(t)) => s == t,
        _ => false,
    }
}

/// Whether the text `a` comes strictly before the text `b`: the first
/// position at which they differ decides, by code point, and a proper prefix
/// comes first.
pub open spec fn text_before(a: Seq<char>, b: Seq<char>) -> bool
    decreases a.len(),
{
    if b.len() == 0 {
        false
    } else if a.len() == 0 {
        true
    } else if a[0] != b[0] {
        (a[0] as u32) < (b[0] as u32)
    } else {
        text_before(a.skip(1), b.skip(1))
    }
}

/// The rank of a value's kind in the sort order: nulls first, then
/// integers, then text.
pub open spec fn kind_rank(v: ValueView) -> int {
    match v {
        ValueView::Null => 0,
        ValueView::Int(_) => 1,
        ValueView::Text(_) => 2,
    }
}

/// Whether `a` sorts strictly before `b` in ascending order.
pub open spec fn precedes(a: ValueView, b: ValueView) -> bool {
    match (a, b) {
        (ValueView::Int(x), ValueView::Int(y)) => x < y,
        (ValueView::Text(s), ValueView::Text(t)) => text_before(s, t),
        _ => kind_rank(a) < kind_rank(b),
    }
}

/// `String`'s `<`, which the standard library documents as the
/// lexicographic order of the two strings by code point.
#[verifier::external_body]
fn string_before(a: &String, b: &String) -> (r: bool)
    ensures
        r == text_before(a@, b@),
{
    a < b
}

impl Clone for Value {
    fn clone(&self) -> (r: Value)
        ensures
            r == *self,
    {
        match self {
            Value::Null => Value::Null,
            Value::Int(x) => Value::Int(*x),
            Value::Text(s) => Value::Text(s.clone()),
        }
    }
}

impl Value {
    /// A text value that holds `text`.
    pub fn text(text: &str) -> (r: Value)
        ensures
            r@ == ValueView::Text(text@),
    {
        Value::Text(text.to_owned())
    }

    /// A text value that holds `text`, or the null value where there is
    /// none.
    pub fn optional_text(text: &Option<String>) -> (r: Value)
        ensures
            r@ == (match *text {
                Some(s) => ValueView::Text(s@),
                None => ValueView::Null,
            }),
    {
        match text {
            Some(s) => Value::Text(s.clone()),
            None => Value::Null,
        }
    }

    /// Tests whether this value agrees with `other`.
    pub fn agrees_with(&self, other: &Value) -> (r: bool)
        ensures
            r == agrees(self@, other@),
    {
        match (self, other) {
            (Value::Int(x), Value::Int(y)) => *x == *y,
            (Value::Text(s), Value::Text(t)) => *s == *t,
            _ => false,
        }
    }

    /// Tests whether this value sorts strictly before `other`.
    pub fn sorts_before(&self, other: &Value) -> (r: bool)
        ensures
            r == precedes(self@, other@),
    {
        match (self, other) {
            (Value::Int(x), Value::Int(y)) => *x < *y,
            (Value::Text(s), Value::Text(t)) => string_before(s, t),
            (Value::Null, Value::Null) => false,
            (Value::Null, _) => true,
            (Value::Int(_), Value::Text(_)) => true,
            _ => false,
        }
    }
}

/// Copies a row, cell by cell.
pub fn duplicate_row(row: &Row) -> (r: Row)
    ensures
        r@ == row@,
{
    let mut out: Row = Vec::new();
    let mut i: usize = 0;
    while i < row.len()
        invariant
            i <= row.len(),
            out@ == row@.take(i as int),
        decreases row.len() - i,
    {
        out.push(row[i].clone());
        assert(row@.take(i + 1) == row@.take(i as int).push(row@[i as int]));
        i = i + 1;
    }
    assert(row@.take(row@.len() as int) == row@);
    out
}

/// No two texts come strictly before one another.
pub proof fn lemma_text_before_asymmetric(a: Seq<char>, b: Seq<char>)
    ensures
        !(text_before(a, b) && text_before(b, a)),
    decreases a.len(),
{
    if a.len() > 0 && b.len() > 0 && a[0] == b[0] {
        lemma_text_before_asymmetric(a.skip(1), b.skip(1));
    }
}

/// No two values sort strictly before one another.
pub proof fn lemma_precedes_asymmetric(a: ValueView, b: ValueView)
    ensures
        !(precedes(a, b) && precedes(b, a)),
{
    match (a, b) {
        (ValueView::Text(s), ValueView::Text(t)) => lemma_text_before_asymmetric(s, t),
        _ => {},
    }
}

} // verus!
