//! The payment-method entity: its fields, its place in a row, and the
//! changes that can be asked of it.

use vstd::prelude::*;
use vstd::string::StringExecFns;
use crate::errors::{DatabaseError, StorageResult};
use crate::table::Table;
use crate::update_set::{apply_changes, UpdateSet};
use crate::value::{cells, rows_view, Row, Value, ValueView};

verus! {

/// The number of columns of a payment-method row.
pub const COLUMNS: usize = 10;

/// The column of the number that the table gives the row.
pub const ID: usize = 0;

/// The column of the customer that the payment method belongs to.
pub const CUSTOMER_ID: usize = 1;

/// The column of the merchant that the customer uses it with.
pub const MERCHANT_ID: usize = 2;

/// The column of the identity of a payment method. It is unique.
pub const PAYMENT_METHOD_ID: usize = 3;

/// The column of the locker that keeps the payment method, if one does.
pub const LOCKER_ID: usize = 4;

/// The column of the status, held as its code.
pub const STATUS: usize = 5;

/// The column of the time of creation.
pub const CREATED_AT: usize = 6;

/// The column of the time of the last use.
pub const LAST_USED_AT: usize = 7;

/// The column of the data of the payment method, if there is any.
pub const PAYMENT_METHOD_DATA: usize = 8;

/// The column of the network's transaction, if there is one.
pub const NETWORK_TRANSACTION_ID: usize = 9;

/// The state of a payment method.
#[derive(Debug, Clone, Copy, PartialEq, Eq, Structural)]
pub enum PaymentMethodStatus {
    Active,
    Inactive,
    Processing,
    AwaitingData,
}

/// A stored payment method.
#[derive(Debug, PartialEq, Eq)]
pub struct PaymentMethod {
    pub id: i64,
    pub customer_id: String,
    pub merchant_id: String,
    pub payment_method_id: String,
    pub locker_id: Option<String>,
    pub status: PaymentMethodStatus,
    pub created_at: i64,
    pub last_used_at: i64,
    pub payment_method_data: Option<String>,
    pub network_transaction_id: Option<String>,
}

/// A payment method that is to be stored. The table gives it its number.
#[derive(Debug, PartialEq, Eq)]
pub struct PaymentMethodNew {
    pub customer_id: String,
    pub merchant_id: String,
    pub payment_method_id: String,
    pub locker_id: Option<String>,
    pub status: PaymentMethodStatus,
    pub created_at: i64,
    pub last_used_at: i64,
    pub payment_method_data: Option<String>,
    pub network_transaction_id: Option<String>,
}

impl Clone for PaymentMethod {
    fn clone(&self) -> (r: PaymentMethod)
        ensures
            r == *self,
    {
        PaymentMethod {
            id: self.id,
            customer_id: self.customer_id.clone(),
            merchant_id: self.merchant_id.clone(),
            payment_method_id: self.payment_method_id.clone(),
            locker_id: self.locker_id.clone(),
            status: self.status,
            created_at: self.created_at,
            last_used_at: self.last_used_at,
            payment_method_data: self.payment_method_data.clone(),
            network_transaction_id: self.network_transaction_id.clone(),
        }
    }
}

impl Clone for PaymentMethodNew {
    fn clone(&self) -> (r: PaymentMethodNew)
        ensures
            r == *self,
    {
        PaymentMethodNew {
            customer_id: self.customer_id.clone(),
            merchant_id: self.merchant_id.clone(),
            payment_method_id: self.payment_method_id.clone(),
            locker_id: self.locker_id.clone(),
            status: self.status,
            created_at: self.created_at,
            last_used_at: self.last_used_at,
            payment_method_data: self.payment_method_data.clone(),
            network_transaction_id: self.network_transaction_id.clone(),
        }
    }
}

/// The code under which a status is stored.
pub open spec fn status_code(status: PaymentMethodStatus) -> i64 {
    match status {
        PaymentMethodStatus::Active => 0,
        PaymentMethodStatus::Inactive => 1,
        PaymentMethodStatus::Processing => 2,
        PaymentMethodStatus::AwaitingData => 3,
    }
}

/// The cell for a text that may be absent.
pub open spec fn nullable(text: Option<String>) -> ValueView {
    match text {
        Some(s) => ValueView::Text(s@),
        None => ValueView::Null,
    }
}

/// Whether two texts that may be absent are the same: both are absent, or
/// both are there and read the same.
pub open spec fn same_text(a: Option<String>, b: Option<String>) -> bool {
    match (a, b) {
        (Some(s), Some(t)) => s@ == t@,
        (None, None) => true,
        _ => false,
    }
}

/// Whether a cell holds a text or nothing.
pub open spec fn text_or_null(cell: ValueView) -> bool {
    cell is Text || cell is Null
}

/// Whether a row is that of a payment method: it has the columns, and
/// each holds a value of the column's kind.
pub open spec fn decodes(row: Seq<ValueView>) -> bool {
    &&& row.len() == COLUMNS
    &&& row[ID as int] is Int
    &&& row[CUSTOMER_ID as int] is Text
    &&& row[MERCHANT_ID as int] is Text
    &&& row[PAYMENT_METHOD_ID as int] is Text
    &&& text_or_null(row[LOCKER_ID as int])
    &&& row[STATUS as int] matches ValueView::Int(code) && 0 <= code <= 3
    &&& row[CREATED_AT as int] is Int
    &&& row[LAST_USED_AT as int] is Int
    &&& text_or_null(row[PAYMENT_METHOD_DATA as int])
    &&& text_or_null(row[NETWORK_TRANSACTION_ID as int])
}

/// What is said of a row that is not that of a payment method.
pub open spec fn decode_detail() -> Seq<char> {
    "the row is not that of a payment method"@
}

/// Whether the table is one of payment methods: it has their columns, it
/// numbers its rows in the column of the number, and each of its rows is
/// that of a payment method.
pub open spec fn holds_payment_methods(store: Table) -> bool {
    &&& store.arity() == COLUMNS
    &&& store.serial() == Some(ID)
    &&& forall|i: int| 0 <= i < store@.len() ==> decodes(#[trigger] store@[i])
}

/// The rows of a list of payment methods.
pub open spec fn entity_rows(entities: Seq<PaymentMethod>) -> Seq<Seq<ValueView>> {
    entities.map_values(|e: PaymentMethod| e.row())
}

/// Whether `r` is what reading `row` as a payment method gives: the
/// payment method with that row, or `Unknown` where there is none.
pub open spec fn reads_as(r: StorageResult<PaymentMethod>, row: Seq<ValueView>) -> bool {
    if decodes(row) {
        r is Ok && r->Ok_0.row() == row
    } else {
        r is Err && r->Err_0 is Unknown && r->Err_0->Unknown_0@ == decode_detail()
    }
}

/// Whether `r` is what reading `rows` as payment methods gives: the
/// payment methods with those rows, in order, or `Unknown` where a row is
/// not that of a payment method.
pub open spec fn read_as(r: StorageResult<Vec<PaymentMethod>>, rows: Seq<Seq<ValueView>>) -> bool {
    if forall|i: int| 0 <= i < rows.len() ==> decodes(#[trigger] rows[i]) {
        r is Ok && entity_rows(r->Ok_0@) == rows
    } else {
        r is Err && r->Err_0 is Unknown && r->Err_0->Unknown_0@ == decode_detail()
    }
}

impl PaymentMethodStatus {
    /// The code under which this status is stored.
    pub fn code(&self) -> (r: i64)
        ensures
            r == status_code(*self),
    {
        match self {
            PaymentMethodStatus::Active => 0,
            PaymentMethodStatus::Inactive => 1,
            PaymentMethodStatus::Processing => 2,
            PaymentMethodStatus::AwaitingData => 3,
        }
    }

    /// The status stored under `code`, if there is one.
    pub fn from_code(code: i64) -> (r: Option<PaymentMethodStatus>)
        ensures
            match r {
                Some(status) => status_code(status) == code,
                None => !(0 <= code <= 3),
            },
    {
        if code == 0 {
            Some(PaymentMethodStatus::Active)
        } else if code == 1 {
            Some(PaymentMethodStatus::Inactive)
        } else if code == 2 {
            Some(PaymentMethodStatus::Processing)
        } else if code == 3 {
            Some(PaymentMethodStatus::AwaitingData)
        } else {
            None
        }
    }
}

/// The integer in a cell, if it holds one.
fn int_cell(cell: &Value) -> (r: Option<i64>)
    ensures
        match r {
            Some(x) => cell@ == ValueView::Int(x),
            None => !(cell@ is Int),
        },
{
    match cell {
        Value::Int(x) => Some(*x),
        _ => None,
    }
}

/// The text in a cell, if it holds one.
fn text_cell(cell: &Value) -> (r: Option<String>)
    ensures
        match r {
            Some(s) => cell@ == ValueView::Text(s@),
            None => !(cell@ is Text),
        },
{
    match cell {
        Value::Text(s) => Some(s.clone()),
        _ => None,
    }
}

/// The text in a cell that may be empty, if it holds a text or nothing.
fn nullable_cell(cell: &Value) -> (r: Option<Option<String>>)
    ensures
        match r {
            Some(text) => cell@ == nullable(text),
            None => !text_or_null(cell@),
        },
{
    match cell {
        Value::Text(s) => Some(Some(s.clone())),
        Value::Null => Some(None),
        _ => None,
    }
}

impl PaymentMethod {
    /// The row of this payment method.
    pub open spec fn row(self) -> Seq<ValueView> {
        seq![
            ValueView::Int(self.id),
            ValueView::Text(self.customer_id@),
            ValueView::Text(self.merchant_id@),
            ValueView::Text(self.payment_method_id@),
            nullable(self.locker_id),
            ValueView::Int(status_code(self.status)),
            ValueView::Int(self.created_at),
            ValueView::Int(self.last_used_at),
            nullable(self.payment_method_data),
            nullable(self.network_transaction_id),
        ]
    }

    /// An empty table for payment methods: the identity is unique, and the
    /// table numbers the rows.
    pub fn table() -> (r: Table)
        ensures
            r@ == Seq::<Seq<ValueView>>::empty(),
            r.arity() == COLUMNS,
            r.unique() == seq![PAYMENT_METHOD_ID],
            r.serial() == Some(ID),
            r.next_serial() == 1,
            r.wf(),
            holds_payment_methods(r),
    {
        let mut unique: Vec<usize> = Vec::new();
        unique.push(PAYMENT_METHOD_ID);
        assert(unique@ == seq![PAYMENT_METHOD_ID]);
        Table::new(COLUMNS, unique, Some(ID))
    }

    /// Writes this payment method as a row.
    pub fn to_row(&self) -> (r: Row)
        ensures
            cells(r@) == self.row(),
    {
        let mut row: Row = Vec::new();
        row.push(Value::Int(self.id));
        row.push(Value::Text(self.customer_id.clone()));
        row.push(Value::Text(self.merchant_id.clone()));
        row.push(Value::Text(self.payment_method_id.clone()));
        row.push(Value::optional_text(&self.locker_id));
        row.push(Value::Int(self.status.code()));
        row.push(Value::Int(self.created_at));
        row.push(Value::Int(self.last_used_at));
        row.push(Value::optional_text(&self.payment_method_data));
        row.push(Value::optional_text(&self.network_transaction_id));
        assert(cells(row@) == self.row());
        row
    }

    /// Reads a row as a payment method.
    pub fn from_row(row: &Row) -> (r: Option<PaymentMethod>)
        ensures
            match r {
                Some(entity) => decodes(cells(row@)) && entity.row() == cells(row@),
                None => !decodes(cells(row@)),
            },
    {
        if row.len() != COLUMNS {
            return None;
        }
        let id = int_cell(&row[ID])?;
        let customer_id = text_cell(&row[CUSTOMER_ID])?;
        let merchant_id = text_cell(&row[MERCHANT_ID])?;
        let payment_method_id = text_cell(&row[PAYMENT_METHOD_ID])?;
        let locker_id = nullable_cell(&row[LOCKER_ID])?;
        let code = int_cell(&row[STATUS])?;
        let status = PaymentMethodStatus::from_code(code)?;
        let created_at = int_cell(&row[CREATED_AT])?;
        let last_used_at = int_cell(&row[LAST_USED_AT])?;
        let payment_method_data = nullable_cell(&row[PAYMENT_METHOD_DATA])?;
        let network_transaction_id = nullable_cell(&row[NETWORK_TRANSACTION_ID])?;
        let entity = PaymentMethod {
            id,
            customer_id,
            merchant_id,
            payment_method_id,
            locker_id,
            status,
            created_at,
            last_used_at,
            payment_method_data,
            network_transaction_id,
        };
        assert(entity.row() == cells(row@));
        Some(entity)
    }

    /// The row of a payment method is that of a payment method.
    pub proof fn lemma_row_decodes(self)
        ensures
            decodes(self.row()),
    {
    }

    /// Two payment methods with the same row agree in every field.
    pub proof fn lemma_row_tells_all(self, other: PaymentMethod)
        requires
            self.row() == other.row(),
        ensures
            self.id == other.id,
            self.customer_id@ == other.customer_id@,
            self.merchant_id@ == other.merchant_id@,
            self.payment_method_id@ == other.payment_method_id@,
            same_text(self.locker_id, other.locker_id),
            self.status == other.status,
            self.created_at == other.created_at,
            self.last_used_at == other.last_used_at,
            same_text(self.payment_method_data, other.payment_method_data),
            same_text(self.network_transaction_id, other.network_transaction_id),
    {
        let a = self.row();
        let b = other.row();
        assert(a[ID as int] == b[ID as int]);
        assert(a[CUSTOMER_ID as int] == b[CUSTOMER_ID as int]);
        assert(a[MERCHANT_ID as int] == b[MERCHANT_ID as int]);
        assert(a[PAYMENT_METHOD_ID as int] == b[PAYMENT_METHOD_ID as int]);
        assert(a[LOCKER_ID as int] == b[LOCKER_ID as int]);
        assert(a[STATUS as int] == b[STATUS as int]);
        assert(a[CREATED_AT as int] == b[CREATED_AT as int]);
        assert(a[LAST_USED_AT as int] == b[LAST_USED_AT as int]);
        assert(a[PAYMENT_METHOD_DATA as int] == b[PAYMENT_METHOD_DATA as int]);
        assert(a[NETWORK_TRANSACTION_ID as int] == b[NETWORK_TRANSACTION_ID as int]);
    }
}

impl PaymentMethodNew {
    /// The row that is handed to the table: the cell for the number is
    /// empty.
    pub open spec fn row(self) -> Seq<ValueView> {
        seq![
            ValueView::Null,
            ValueView::Text(self.customer_id@),
            ValueView::Text(self.merchant_id@),
            ValueView::Text(self.payment_method_id@),
            nullable(self.locker_id),
            ValueView::Int(status_code(self.status)),
            ValueView::Int(self.created_at),
            ValueView::Int(self.last_used_at),
            nullable(self.payment_method_data),
            nullable(self.network_transaction_id),
        ]
    }

    /// Writes this payment method as the row that is handed to the table.
    pub fn to_row(&self) -> (r: Row)
        ensures
            cells(r@) == self.row(),
    {
        let mut row: Row = Vec::new();
        row.push(Value::Null);
        row.push(Value::Text(self.customer_id.clone()));
        row.push(Value::Text(self.merchant_id.clone()));
        row.push(Value::Text(self.payment_method_id.clone()));
        row.push(Value::optional_text(&self.locker_id));
        row.push(Value::Int(self.status.code()));
        row.push(Value::Int(self.created_at));
        row.push(Value::Int(self.last_used_at));
        row.push(Value::optional_text(&self.payment_method_data));
        row.push(Value::optional_text(&self.network_transaction_id));
        assert(cells(row@) == self.row());
        row
    }
}

/// A change that can be asked of a payment method.
#[derive(Debug, PartialEq, Eq)]
pub enum PaymentMethodUpdate {
    /// Replaces the stored data, where new data is given.
    PaymentMethodDataUpdate { payment_method_data: Option<String> },
    /// Records when the payment method was last used.
    LastUsedUpdate { last_used_at: i64 },
    /// Changes the status, where one is given.
    StatusUpdate { status: Option<PaymentMethodStatus> },
    /// Records the network's transaction and changes the status, each
    /// where one is given.
    NetworkTransactionIdAndStatusUpdate {
        network_transaction_id: Option<String>,
        status: Option<PaymentMethodStatus>,
    },
}

/// The columns that a change touches: a field that is absent leaves its
/// column alone.
#[derive(Debug, PartialEq, Eq)]
pub struct PaymentMethodUpdateInternal {
    pub status: Option<PaymentMethodStatus>,
    pub last_used_at: Option<i64>,
    pub payment_method_data: Option<String>,
    pub network_transaction_id: Option<String>,
}

/// The columns that `update` touches.
pub open spec fn internal_of(update: PaymentMethodUpdate) -> PaymentMethodUpdateInternal {
    match update {
        PaymentMethodUpdate::PaymentMethodDataUpdate { payment_method_data } => {
            PaymentMethodUpdateInternal {
                status: None,
                last_used_at: None,
                payment_method_data,
                network_transaction_id: None,
            }
        },
        PaymentMethodUpdate::LastUsedUpdate { last_used_at } => PaymentMethodUpdateInternal {
            status: None,
            last_used_at: Some(last_used_at),
            payment_method_data: None,
            network_transaction_id: None,
        },
        PaymentMethodUpdate::StatusUpdate { status } => PaymentMethodUpdateInternal {
            status,
            last_used_at: None,
            payment_method_data: None,
            network_transaction_id: None,
        },
        PaymentMethodUpdate::NetworkTransactionIdAndStatusUpdate {
            network_transaction_id,
            status,
        } => PaymentMethodUpdateInternal {
            status,
            last_used_at: None,
            payment_method_data: None,
            network_transaction_id,
        },
    }
}

impl From<PaymentMethodUpdate> for PaymentMethodUpdateInternal {
    fn from(update: PaymentMethodUpdate) -> (r: PaymentMethodUpdateInternal) {
        match update {
            PaymentMethodUpdate::PaymentMethodDataUpdate { payment_method_data } => {
                PaymentMethodUpdateInternal {
                    status: None,
                    last_used_at: None,
                    payment_method_data,
                    network_transaction_id: None,
                }
            },
            PaymentMethodUpdate::LastUsedUpdate { last_used_at } => PaymentMethodUpdateInternal {
                status: None,
                last_used_at: Some(last_used_at),
                payment_method_data: None,
                network_transaction_id: None,
            },
            PaymentMethodUpdate::StatusUpdate { status } => PaymentMethodUpdateInternal {
                status,
                last_used_at: None,
                payment_method_data: None,
                network_transaction_id: None,
            },
            PaymentMethodUpdate::NetworkTransactionIdAndStatusUpdate {
                network_transaction_id,
                status,
            } => PaymentMethodUpdateInternal {
                status,
                last_used_at: None,
                payment_method_data: None,
                network_transaction_id,
            },
        }
    }
}

impl vstd::std_specs::convert::FromSpecImpl<PaymentMethodUpdate> for PaymentMethodUpdateInternal {
    open spec fn obeys_from_spec() -> bool {
        true
    }

    open spec fn from_spec(update: PaymentMethodUpdate) -> PaymentMethodUpdateInternal {
        internal_of(update)
    }
}

impl PaymentMethodUpdateInternal {
    /// The update set that these columns make: one entry for each field
    /// that is present.
    pub open spec fn changes(self) -> Map<usize, ValueView> {
        let none = Map::<usize, ValueView>::empty();
        let with_status = match self.status {
            Some(status) => none.insert(STATUS, ValueView::Int(status_code(status))),
            None => none,
        };
        let with_used = match self.last_used_at {
            Some(at) => with_status.insert(LAST_USED_AT, ValueView::Int(at)),
            None => with_status,
        };
        let with_data = match self.payment_method_data {
            Some(data) => with_used.insert(PAYMENT_METHOD_DATA, ValueView::Text(data@)),
            None => with_used,
        };
        match self.network_transaction_id {
            Some(id) => with_data.insert(NETWORK_TRANSACTION_ID, ValueView::Text(id@)),
            None => with_data,
        }
    }

    /// Whether no field is present.
    pub open spec fn is_noop(self) -> bool {
        &&& self.status is None
        &&& self.last_used_at is None
        &&& self.payment_method_data is None
        &&& self.network_transaction_id is None
    }

    /// Writes these columns as an update set.
    pub fn to_update_set(&self) -> (r: UpdateSet)
        ensures
            r@ == self.changes(),
    {
        let mut set = UpdateSet::new();
        match self.status {
            Some(status) => set.set(STATUS, Value::Int(status.code())),
            None => {},
        }
        match self.last_used_at {
            Some(at) => set.set(LAST_USED_AT, Value::Int(at)),
            None => {},
        }
        match &self.payment_method_data {
            Some(data) => set.set(PAYMENT_METHOD_DATA, Value::Text(data.clone())),
            None => {},
        }
        match &self.network_transaction_id {
            Some(id) => set.set(NETWORK_TRANSACTION_ID, Value::Text(id.clone())),
            None => {},
        }
        set
    }

    /// The update set is empty exactly when no field is present.
    pub proof fn lemma_noop(self)
        ensures
            self.is_noop() <==> self.changes() == Map::<usize, ValueView>::empty(),
    {
        let none = Map::<usize, ValueView>::empty();
        if self.network_transaction_id is Some {
            assert(self.changes().dom().contains(NETWORK_TRANSACTION_ID));
        } else if self.payment_method_data is Some {
            assert(self.changes().dom().contains(PAYMENT_METHOD_DATA));
        } else if self.last_used_at is Some {
            assert(self.changes().dom().contains(LAST_USED_AT));
        } else if self.status is Some {
            assert(self.changes().dom().contains(STATUS));
        }
        assert(!none.dom().contains(NETWORK_TRANSACTION_ID));
        assert(!none.dom().contains(PAYMENT_METHOD_DATA));
        assert(!none.dom().contains(LAST_USED_AT));
        assert(!none.dom().contains(STATUS));
    }
}

/// The row under which a new payment method is stored is that of a
/// payment method, whatever number the table gives it.
pub proof fn lemma_stored_decodes(entity: PaymentMethodNew, number: i64)
    ensures
        decodes(entity.row().update(ID as int, ValueView::Int(number))),
{
}

/// A change leaves the row of a payment method the row of a payment
/// method.
pub proof fn lemma_changed_decodes(row: Seq<ValueView>, internal: PaymentMethodUpdateInternal)
    requires
        decodes(row),
    ensures
        decodes(apply_changes(row, internal.changes())),
{
    let changes = internal.changes();
    let after = apply_changes(row, changes);
    assert(forall|c: usize|
        changes.dom().contains(c) ==> c == STATUS || c == LAST_USED_AT || c == PAYMENT_METHOD_DATA
            || c == NETWORK_TRANSACTION_ID);
    assert(after[ID as int] == row[ID as int]);
    assert(after[CUSTOMER_ID as int] == row[CUSTOMER_ID as int]);
    assert(after[MERCHANT_ID as int] == row[MERCHANT_ID as int]);
    assert(after[PAYMENT_METHOD_ID as int] == row[PAYMENT_METHOD_ID as int]);
    assert(after[LOCKER_ID as int] == row[LOCKER_ID as int]);
    assert(after[CREATED_AT as int] == row[CREATED_AT as int]);
}

/// Reads what an operation returned for one row.
pub fn read_one(result: StorageResult<Row>) -> (r: StorageResult<PaymentMethod>)
    ensures
        match result {
            Ok(row) => reads_as(r, cells(row@)),
            Err(e) => r == Err::<PaymentMethod, DatabaseError>(e),
        },
{
    match result {
        Ok(row) => match PaymentMethod::from_row(&row) {
            Some(entity) => Ok(entity),
            None => Err(
                DatabaseError::Unknown(String::from_str("the row is not that of a payment method")),
            ),
        },
        Err(e) => Err(e),
    }
}

/// Reads what an operation returned for any number of rows.
pub fn read_many(result: StorageResult<Vec<Row>>) -> (r: StorageResult<Vec<PaymentMethod>>)
    ensures
        match result {
            Ok(rows) => read_as(r, rows_view(rows@)),
            Err(e) => r == Err::<Vec<PaymentMethod>, DatabaseError>(e),
        },
{
    match result {
        Ok(rows) => {
            let mut out: Vec<PaymentMethod> = Vec::new();
            let mut i: usize = 0;
            assert(entity_rows(out@) == rows_view(rows@).take(0));
            while i < rows.len()
                invariant
                    i <= rows.len(),
                    result == Ok::<Vec<Row>, DatabaseError>(rows),
                    entity_rows(out@) == rows_view(rows@).take(i as int),
                    forall|j: int| 0 <= j < i ==> decodes(#[trigger] rows_view(rows@)[j]),
                decreases rows.len() - i,
            {
                match PaymentMethod::from_row(&rows[i]) {
                    Some(entity) => {
                        proof {
                            let all = rows_view(rows@);
                            assert(entity_rows(out@.push(entity)) == entity_rows(out@).push(
                                entity.row(),
                            ));
                            assert(all.take(i + 1) == all.take(i as int).push(all[i as int]));
                        }
                        out.push(entity);
                    },
                    None => {
                        proof {
                            let all = rows_view(rows@);
                            assert(0 <= i < all.len() && !decodes(all[i as int]));
                        }
                        return Err(
                            DatabaseError::Unknown(
                                String::from_str("the row is not that of a payment method"),
                            ),
                        );
                    },
                }
                i = i + 1;
            }
            assert(rows_view(rows@).take(rows@.len() as int) == rows_view(rows@));
            Ok(out)
        },
        Err(e) => Err(e),
    }
}

} // verus!
