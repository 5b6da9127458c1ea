//! Payment methods in a table: storing, finding, listing, changing and
//! removing them.

use vstd::prelude::*;
use crate::errors::{DatabaseError, StorageResult};
use crate::payment_method::{
    decodes, holds_payment_methods, internal_of, lemma_changed_decodes, lemma_stored_decodes,
    read_as, read_many, read_one, reads_as, status_code, PaymentMethod, PaymentMethodNew,
    PaymentMethodStatus, PaymentMethodUpdate, PaymentMethodUpdateInternal, CUSTOMER_ID,
    LAST_USED_AT, LOCKER_ID, MERCHANT_ID, PAYMENT_METHOD_ID, STATUS,
};
use crate::predicate::{Predicate, PredicateView};
use crate::query::generics::{
    found, generic_delete_one_with_result, generic_filter, generic_find_one, generic_insert,
    generic_update_with_unique_predicate_get_result, refused_as,
};
use crate::relation::{
    distinct, lemma_matching_from, lemma_remaining_from, lemma_selection_from, remaining,
    rewritten, selection, usable,
};
use crate::sorting::{Direction, OrderBy};
use crate::table::{stamped, window_detail, Table};
use crate::update_set::apply_changes;
use crate::value::{cells, Row, Value, ValueView};

verus! {

/// The test that `column` holds `text`.
pub open spec fn text_is(column: usize, text: Seq<char>) -> PredicateView {
    PredicateView::Eq { column, value: ValueView::Text(text) }
}

/// The payment method with this identity.
pub open spec fn payment_method_id_is(payment_method_id: Seq<char>) -> PredicateView {
    text_is(PAYMENT_METHOD_ID, payment_method_id)
}

/// The payment method of this merchant with this identity.
pub open spec fn merchant_id_payment_method_id_are(
    merchant_id: Seq<char>,
    payment_method_id: Seq<char>,
) -> PredicateView {
    text_is(MERCHANT_ID, merchant_id).and(text_is(PAYMENT_METHOD_ID, payment_method_id))
}

/// The payment method kept in this locker.
pub open spec fn locker_id_is(locker_id: Seq<char>) -> PredicateView {
    text_is(LOCKER_ID, locker_id)
}

/// The payment methods of this merchant.
pub open spec fn merchant_id_is(merchant_id: Seq<char>) -> PredicateView {
    text_is(MERCHANT_ID, merchant_id)
}

/// The payment methods of this customer with this merchant.
pub open spec fn customer_id_merchant_id_are(
    customer_id: Seq<char>,
    merchant_id: Seq<char>,
) -> PredicateView {
    text_is(CUSTOMER_ID, customer_id).and(text_is(MERCHANT_ID, merchant_id))
}

/// The payment methods of this customer with this merchant that are in
/// this status.
pub open spec fn customer_id_merchant_id_status_are(
    customer_id: Seq<char>,
    merchant_id: Seq<char>,
    status: PaymentMethodStatus,
) -> PredicateView {
    customer_id_merchant_id_are(customer_id, merchant_id).and(
        PredicateView::Eq { column: STATUS, value: ValueView::Int(status_code(status)) },
    )
}

/// The sort that puts the payment method used last first.
pub open spec fn last_used_first() -> Option<OrderBy> {
    Some(OrderBy { column: LAST_USED_AT, direction: Direction::Desc })
}

/// The predicate for the payment method with this identity.
pub fn by_payment_method_id(payment_method_id: &str) -> (r: Predicate)
    ensures
        r@ == payment_method_id_is(payment_method_id@),
{
    Predicate::eq(PAYMENT_METHOD_ID, Value::text(payment_method_id))
}

/// The predicate for the payment method of this merchant with this
/// identity.
pub fn by_merchant_id_payment_method_id(merchant_id: &str, payment_method_id: &str) -> (r:
    Predicate)
    ensures
        r@ == merchant_id_payment_method_id_are(merchant_id@, payment_method_id@),
{
    Predicate::eq(MERCHANT_ID, Value::text(merchant_id)).and(
        Predicate::eq(PAYMENT_METHOD_ID, Value::text(payment_method_id)),
    )
}

/// The predicate for the payment method kept in this locker.
pub fn by_locker_id(locker_id: &str) -> (r: Predicate)
    ensures
        r@ == locker_id_is(locker_id@),
{
    Predicate::eq(LOCKER_ID, Value::text(locker_id))
}

/// The predicate for the payment methods of this merchant.
pub fn by_merchant_id(merchant_id: &str) -> (r: Predicate)
    ensures
        r@ == merchant_id_is(merchant_id@),
{
    Predicate::eq(MERCHANT_ID, Value::text(merchant_id))
}

/// The predicate for the payment methods of this customer with this
/// merchant.
pub fn by_customer_id_merchant_id(customer_id: &str, merchant_id: &str) -> (r: Predicate)
    ensures
        r@ == customer_id_merchant_id_are(customer_id@, merchant_id@),
{
    Predicate::eq(CUSTOMER_ID, Value::text(customer_id)).and(
        Predicate::eq(MERCHANT_ID, Value::text(merchant_id)),
    )
}

/// The predicate for the payment methods of this customer with this
/// merchant that are in this status.
pub fn by_customer_id_merchant_id_status(
    customer_id: &str,
    merchant_id: &str,
    status: PaymentMethodStatus,
) -> (r: Predicate)
    ensures
        r@ == customer_id_merchant_id_status_are(customer_id@, merchant_id@, status),
{
    by_customer_id_merchant_id(customer_id, merchant_id).and(
        Predicate::eq(STATUS, Value::Int(status.code())),
    )
}

/// The sort key that puts the payment method used last first.
pub fn by_last_used() -> (r: Option<OrderBy>)
    ensures
        r == last_used_first(),
{
    Some(OrderBy::desc(LAST_USED_AT))
}

/// Reads what an update returned. An update that had nothing to change
/// has succeeded: the result is `entity`, the payment method as it was
/// before. Every other error stays as it is.
pub fn read_updated(entity: PaymentMethod, result: StorageResult<Row>) -> (r: StorageResult<
    PaymentMethod,
>)
    ensures
        match result {
            Ok(row) => reads_as(r, cells(row@)),
            Err(DatabaseError::NoFieldsToUpdate) => r == Ok::<PaymentMethod, DatabaseError>(entity),
            Err(e) => r == Err::<PaymentMethod, DatabaseError>(e),
        },
{
    match result {
        Err(DatabaseError::NoFieldsToUpdate) => Ok(entity),
        other => read_one(other),
    }
}

/// In a table of payment methods, the row that a predicate selects is
/// that of a payment method.
pub proof fn lemma_found_decodes(store: Table, pred: PredicateView)
    requires
        holds_payment_methods(store),
        found(store@, pred) is Some,
    ensures
        decodes(found(store@, pred)->0),
{
    lemma_matching_from(store@, pred, 0);
}

/// In a table of payment methods, every row of a listing is that of a
/// payment method.
pub proof fn lemma_selection_decodes(
    store: Table,
    pred: PredicateView,
    limit: Option<i64>,
    offset: Option<i64>,
    order: Option<OrderBy>,
)
    requires
        holds_payment_methods(store),
        usable(limit),
        usable(offset),
    ensures
        forall|k: int|
            0 <= k < selection(store@, pred, limit, offset, order).len() ==> decodes(
                #[trigger] selection(store@, pred, limit, offset, order)[k],
            ),
{
    let listed = selection(store@, pred, limit, offset, order);
    assert forall|k: int| 0 <= k < listed.len() implies decodes(#[trigger] listed[k]) by {
        lemma_selection_from(store@, pred, limit, offset, order, k);
    }
}

/// A delete leaves a table of payment methods one, and the row it returns
/// is that of a payment method.
pub proof fn lemma_delete_keeps(store: Table, pred: PredicateView)
    requires
        holds_payment_methods(store),
    ensures
        forall|k: int|
            0 <= k < remaining(store@, pred).len() ==> decodes(
                #[trigger] remaining(store@, pred)[k],
            ),
        found(store@, pred) is Some ==> decodes(found(store@, pred)->0),
{
    let rest = remaining(store@, pred);
    assert forall|k: int| 0 <= k < rest.len() implies decodes(#[trigger] rest[k]) by {
        lemma_remaining_from(store@, pred, k);
    }
    if found(store@, pred) is Some {
        lemma_found_decodes(store, pred);
    }
}

impl PaymentMethodNew {
    /// Stores this payment method and returns it as stored, with the
    /// number that the table gave it. A payment method whose identity the
    /// table already holds is a `Conflict`, and nothing is stored.
    pub fn insert(self, store: &mut Table) -> (r: StorageResult<PaymentMethod>)
        ensures
            match old(store).refusal(self.row()) {
                Some(signal) => {
                    &&& *final(store) == *old(store)
                    &&& r is Err
                    &&& refused_as(r->Err_0, signal, self.row(), old(store).arity())
                },
                None => {
                    let stored = stamped(self.row(), old(store).serial(), old(store).next_serial());
                    &&& final(store)@ == old(store)@.push(stored)
                    &&& final(store).same_layout(old(store))
                    &&& final(store).next_serial() == (if old(store).serial() is Some {
                        old(store).next_serial() + 1
                    } else {
                        old(store).next_serial() as int
                    })
                    &&& reads_as(r, stored)
                },
            },
            old(store).wf() ==> final(store).wf(),
            holds_payment_methods(*old(store)) ==> holds_payment_methods(*final(store)),
            holds_payment_methods(*old(store)) && old(store).refusal(self.row()) is None ==> r
                is Ok,
    {
        proof {
            lemma_stored_decodes(self, store.next_serial());
        }
        read_one(generic_insert(store, self.to_row()))
    }
}

impl PaymentMethod {
    /// Removes the payment method with this identity and returns it as it
    /// was. Where there is none the result is `NotFound` and nothing
    /// changes.
    pub fn delete_by_payment_method_id(store: &mut Table, payment_method_id: String) -> (r:
        StorageResult<Self>)
        ensures
            match found(old(store)@, payment_method_id_is(payment_method_id@)) {
                Some(row) => {
                    &&& final(store)@ == remaining(
                        old(store)@,
                        payment_method_id_is(payment_method_id@),
                    )
                    &&& final(store).same_layout(old(store))
                    &&& final(store).next_serial() == old(store).next_serial()
                    &&& reads_as(r, row)
                },
                None => {
                    &&& *final(store) == *old(store)
                    &&& r == Err::<Self, DatabaseError>(DatabaseError::NotFound)
                },
            },
            old(store).wf() ==> final(store).wf(),
            holds_payment_methods(*old(store)) ==> holds_payment_methods(*final(store)) && !(r
                is Err && r->Err_0 is Unknown),
    {
        let pred = by_payment_method_id(payment_method_id.as_str());
        proof {
            if holds_payment_methods(*store) {
                lemma_delete_keeps(*store, pred@);
            }
        }
        read_one(generic_delete_one_with_result(store, &pred))
    }

    /// Removes the payment method of this merchant with this identity and
    /// returns it as it was. Where there is none the result is `NotFound`
    /// and nothing changes.
    pub fn delete_by_merchant_id_payment_method_id(
        store: &mut Table,
        merchant_id: &str,
        payment_method_id: &str,
    ) -> (r: StorageResult<Self>)
        ensures
            match found(
                old(store)@,
                merchant_id_payment_method_id_are(merchant_id@, payment_method_id@),
            ) {
                Some(row) => {
                    &&& final(store)@ == remaining(
                        old(store)@,
                        merchant_id_payment_method_id_are(merchant_id@, payment_method_id@),
                    )
                    &&& final(store).same_layout(old(store))
                    &&& final(store).next_serial() == old(store).next_serial()
                    &&& reads_as(r, row)
                },
                None => {
                    &&& *final(store) == *old(store)
                    &&& r == Err::<Self, DatabaseError>(DatabaseError::NotFound)
                },
            },
            old(store).wf() ==> final(store).wf(),
            holds_payment_methods(*old(store)) ==> holds_payment_methods(*final(store)) && !(r
                is Err && r->Err_0 is Unknown),
    {
        let pred = by_merchant_id_payment_method_id(merchant_id, payment_method_id);
        proof {
            if holds_payment_methods(*store) {
                lemma_delete_keeps(*store, pred@);
            }
        }
        read_one(generic_delete_one_with_result(store, &pred))
    }

    /// Returns the payment method kept in this locker, or `NotFound`.
    pub fn find_by_locker_id(store: &Table, locker_id: &str) -> (r: StorageResult<Self>)
        ensures
            match found(store@, locker_id_is(locker_id@)) {
                Some(row) => reads_as(r, row),
                None => r == Err::<Self, DatabaseError>(DatabaseError::NotFound),
            },
            holds_payment_methods(*store) ==> !(r is Err && r->Err_0 is Unknown),
    {
        let pred = by_locker_id(locker_id);
        proof {
            if holds_payment_methods(*store) && found(store@, pred@) is Some {
                lemma_found_decodes(*store, pred@);
            }
        }
        read_one(generic_find_one(store, &pred))
    }

    /// Returns the payment method with this identity, or `NotFound`.
    pub fn find_by_payment_method_id(store: &Table, payment_method_id: &str) -> (r: StorageResult<
        Self,
    >)
        ensures
            match found(store@, payment_method_id_is(payment_method_id@)) {
                Some(row) => reads_as(r, row),
                None => r == Err::<Self, DatabaseError>(DatabaseError::NotFound),
            },
            holds_payment_methods(*store) ==> !(r is Err && r->Err_0 is Unknown),
    {
        let pred = by_payment_method_id(payment_method_id);
        proof {
            if holds_payment_methods(*store) && found(store@, pred@) is Some {
                lemma_found_decodes(*store, pred@);
            }
        }
        read_one(generic_find_one(store, &pred))
    }

    /// Returns the payment methods of this merchant, in the order they
    /// were stored. That there is none is a success.
    pub fn find_by_merchant_id(store: &Table, merchant_id: &str) -> (r: StorageResult<Vec<Self>>)
        ensures
            read_as(r, selection(store@, merchant_id_is(merchant_id@), None, None, None)),
            holds_payment_methods(*store) ==> r is Ok,
    {
        let pred = by_merchant_id(merchant_id);
        proof {
            if holds_payment_methods(*store) {
                lemma_selection_decodes(*store, pred@, None, None, None);
            }
        }
        read_many(generic_filter(store, &pred, None, None, None))
    }

    /// Returns the payment methods of this customer with this merchant,
    /// the one used last first, and at most `limit` of them where a limit
    /// is given. That there is none is a success; a negative limit is
    /// `Unknown`.
    pub fn find_by_customer_id_merchant_id(
        store: &Table,
        customer_id: &str,
        merchant_id: &str,
        limit: Option<i64>,
    ) -> (r: StorageResult<Vec<Self>>)
        ensures
            usable(limit) ==> read_as(
                r,
                selection(
                    store@,
                    customer_id_merchant_id_are(customer_id@, merchant_id@),
                    limit,
                    None,
                    last_used_first(),
                ),
            ),
            !usable(limit) ==> {
                &&& r is Err
                &&& r->Err_0 is Unknown
                &&& r->Err_0->Unknown_0@ == window_detail()
            },
            holds_payment_methods(*store) && usable(limit) ==> r is Ok,
    {
        let pred = by_customer_id_merchant_id(customer_id, merchant_id);
        proof {
            if holds_payment_methods(*store) && usable(limit) {
                lemma_selection_decodes(*store, pred@, limit, None, last_used_first());
            }
        }
        read_many(generic_filter(store, &pred, limit, None, by_last_used()))
    }

    /// Returns the payment methods of this customer with this merchant
    /// that are in `status`, the one used last first, and at most `limit`
    /// of them where a limit is given. That there is none is a success; a
    /// negative limit is `Unknown`.
    pub fn find_by_customer_id_merchant_id_status(
        store: &Table,
        customer_id: &str,
        merchant_id: &str,
        status: PaymentMethodStatus,
        limit: Option<i64>,
    ) -> (r: StorageResult<Vec<Self>>)
        ensures
            usable(limit) ==> read_as(
                r,
                selection(
                    store@,
                    customer_id_merchant_id_status_are(customer_id@, merchant_id@, status),
                    limit,
                    None,
                    last_used_first(),
                ),
            ),
            !usable(limit) ==> {
                &&& r is Err
                &&& r->Err_0 is Unknown
                &&& r->Err_0->Unknown_0@ == window_detail()
            },
            holds_payment_methods(*store) && usable(limit) ==> r is Ok,
    {
        let pred = by_customer_id_merchant_id_status(customer_id, merchant_id, status);
        proof {
            if holds_payment_methods(*store) && usable(limit) {
                lemma_selection_decodes(*store, pred@, limit, None, last_used_first());
            }
        }
        read_many(generic_filter(store, &pred, limit, None, by_last_used()))
    }

    /// Applies `payment_method` to the stored payment method that has the
    /// identity of this one and returns it as it is afterwards. A change
    /// that touches no column succeeds without contacting the table, and
    /// the result is this payment method as it was given. Otherwise, where
    /// the table holds no payment method with this identity the result is
    /// `NotFound`.
    pub fn update_with_payment_method_id(
        self,
        store: &mut Table,
        payment_method: PaymentMethodUpdate,
    ) -> (r: StorageResult<Self>)
        ensures
            ({
                let pred = payment_method_id_is(self.payment_method_id@);
                let changes = internal_of(payment_method).changes();
                let next = rewritten(old(store)@, pred, changes);
                if internal_of(payment_method).is_noop() {
                    &&& *final(store) == *old(store)
                    &&& r == Ok::<Self, DatabaseError>(self)
                } else if found(old(store)@, pred) is None {
                    &&& *final(store) == *old(store)
                    &&& r == Err::<Self, DatabaseError>(DatabaseError::NotFound)
                } else if !distinct(next, old(store).unique()) {
                    &&& *final(store) == *old(store)
                    &&& r == Err::<Self, DatabaseError>(DatabaseError::Conflict)
                } else {
                    &&& final(store)@ == next
                    &&& final(store).same_layout(old(store))
                    &&& final(store).next_serial() == old(store).next_serial()
                    &&& reads_as(r, apply_changes(found(old(store)@, pred)->0, changes))
                }
            }),
            old(store).wf() ==> final(store).wf(),
            holds_payment_methods(*old(store)) ==> holds_payment_methods(*final(store)) && !(r
                is Err && r->Err_0 is Unknown),
    {
        let internal = PaymentMethodUpdateInternal::from(payment_method);
        proof {
            internal.lemma_noop();
            if holds_payment_methods(*store) {
                let pred = payment_method_id_is(self.payment_method_id@);
                let next = rewritten(store@, pred, internal.changes());
                assert forall|i: int| 0 <= i < next.len() implies decodes(#[trigger] next[i]) by {
                    lemma_changed_decodes(store@[i], internal);
                }
                if found(store@, pred) is Some {
                    lemma_found_decodes(*store, pred);
                    lemma_changed_decodes(found(store@, pred)->0, internal);
                }
            }
        }
        let changes = internal.to_update_set();
        let pred = by_payment_method_id(self.payment_method_id.as_str());
        let result = generic_update_with_unique_predicate_get_result(store, &pred, &changes);
        read_updated(self, result)
    }
}

} // verus!
