use diesel_models::errors::DatabaseError;
use diesel_models::payment_method::{
    read_many, read_one, PaymentMethod, PaymentMethodNew, PaymentMethodStatus,
    PaymentMethodUpdate, PaymentMethodUpdateInternal,
};
use diesel_models::query::generics::{generic_filter, generic_insert};
use diesel_models::query::payment_method::{
    by_customer_id_merchant_id, by_customer_id_merchant_id_status, by_last_used, by_locker_id,
    by_merchant_id, by_merchant_id_payment_method_id, by_payment_method_id, read_updated,
};
use diesel_models::sorting::{Direction, OrderBy};
use diesel_models::table::Table;
use diesel_models::value::Value;

fn new_method(id: &str, customer: &str, merchant: &str, last_used_at: i64) -> PaymentMethodNew {
    PaymentMethodNew {
        customer_id: customer.to_string(),
        merchant_id: merchant.to_string(),
        payment_method_id: id.to_string(),
        locker_id: None,
        status: PaymentMethodStatus::Active,
        created_at: 1_700_000_000,
        last_used_at,
        payment_method_data: None,
        network_transaction_id: None,
    }
}

fn stored(store: &mut Table, id: &str, customer: &str, merchant: &str, last_used_at: i64) -> PaymentMethod {
    new_method(id, customer, merchant, last_used_at).insert(store).unwrap()
}

fn ids(found: &[PaymentMethod]) -> Vec<String> {
    found.iter().map(|m| m.payment_method_id.clone()).collect()
}

#[test]
fn insert_then_find_returns_the_stored_entity() {
    let mut store = PaymentMethod::table();
    let e1 = new_method("pm_1", "c1", "m1", 10).insert(&mut store).unwrap();
    assert_eq!(e1.id, 1);
    assert_eq!(e1.payment_method_id, "pm_1");
    assert_eq!(e1.customer_id, "c1");
    assert_eq!(e1.merchant_id, "m1");
    assert_eq!(e1.last_used_at, 10);
    assert_eq!(e1.created_at, 1_700_000_000);
    assert_eq!(e1.status, PaymentMethodStatus::Active);
    let found = PaymentMethod::find_by_payment_method_id(&store, "pm_1").unwrap();
    assert_eq!(found, e1);
}

#[test]
fn insert_numbers_the_rows_from_one() {
    let mut store = PaymentMethod::table();
    assert_eq!(stored(&mut store, "pm_1", "c1", "m1", 1).id, 1);
    assert_eq!(stored(&mut store, "pm_2", "c1", "m1", 2).id, 2);
    assert_eq!(stored(&mut store, "pm_3", "c2", "m1", 3).id, 3);
    assert_eq!(store.len(), 3);
}

#[test]
fn insert_of_a_known_identity_is_a_conflict_and_stores_nothing() {
    let mut store = PaymentMethod::table();
    let first = stored(&mut store, "pm_1", "c1", "m1", 1);
    let again = new_method("pm_1", "c9", "m9", 9).insert(&mut store);
    assert_eq!(again, Err(DatabaseError::Conflict));
    assert_eq!(store.len(), 1);
    assert_eq!(PaymentMethod::find_by_payment_method_id(&store, "pm_1"), Ok(first));
    // the number that the refused row would have had is still free
    assert_eq!(stored(&mut store, "pm_2", "c1", "m1", 2).id, 2);
}

#[test]
fn insert_into_a_table_of_another_shape_is_unknown() {
    let mut store = Table::new(3, vec![], None);
    let r = new_method("pm_1", "c1", "m1", 1).insert(&mut store);
    assert_eq!(
        r,
        Err(DatabaseError::Unknown("the row does not have the table's columns".to_string()))
    );
    assert_eq!(store.len(), 0);
}

#[test]
fn find_of_an_unknown_identity_is_not_found() {
    let mut store = PaymentMethod::table();
    assert_eq!(
        PaymentMethod::find_by_payment_method_id(&store, "pm_1"),
        Err(DatabaseError::NotFound)
    );
    stored(&mut store, "pm_1", "c1", "m1", 1);
    assert_eq!(
        PaymentMethod::find_by_payment_method_id(&store, "pm_2"),
        Err(DatabaseError::NotFound)
    );
    assert_eq!(
        PaymentMethod::find_by_payment_method_id(&store, "pm_"),
        Err(DatabaseError::NotFound)
    );
}

#[test]
fn find_by_locker_id_skips_rows_without_a_locker() {
    let mut store = PaymentMethod::table();
    stored(&mut store, "pm_1", "c1", "m1", 1);
    let mut with_locker = new_method("pm_2", "c1", "m1", 2);
    with_locker.locker_id = Some("lock_7".to_string());
    let e2 = with_locker.insert(&mut store).unwrap();
    assert_eq!(e2.locker_id, Some("lock_7".to_string()));
    assert_eq!(PaymentMethod::find_by_locker_id(&store, "lock_7"), Ok(e2));
    assert_eq!(
        PaymentMethod::find_by_locker_id(&store, "lock_8"),
        Err(DatabaseError::NotFound)
    );
}

#[test]
fn find_by_merchant_id_lists_in_stored_order() {
    let mut store = PaymentMethod::table();
    stored(&mut store, "pm_1", "c1", "m1", 30);
    stored(&mut store, "pm_2", "c1", "m2", 20);
    stored(&mut store, "pm_3", "c2", "m1", 10);
    let found = PaymentMethod::find_by_merchant_id(&store, "m1").unwrap();
    assert_eq!(ids(&found), vec!["pm_1", "pm_3"]);
    let none = PaymentMethod::find_by_merchant_id(&store, "m3").unwrap();
    assert!(none.is_empty());
}

#[test]
fn find_by_customer_and_merchant_puts_the_last_used_first() {
    let mut store = PaymentMethod::table();
    stored(&mut store, "pm_1", "c1", "m1", 10);
    stored(&mut store, "pm_2", "c1", "m1", 30);
    stored(&mut store, "pm_3", "c1", "m1", 20);
    stored(&mut store, "pm_4", "c2", "m1", 40);
    stored(&mut store, "pm_5", "c1", "m2", 50);
    let two = PaymentMethod::find_by_customer_id_merchant_id(&store, "c1", "m1", Some(2)).unwrap();
    assert_eq!(ids(&two), vec!["pm_2", "pm_3"]);
    assert_eq!(two[0].last_used_at, 30);
    assert_eq!(two[1].last_used_at, 20);
    let all = PaymentMethod::find_by_customer_id_merchant_id(&store, "c1", "m1", None).unwrap();
    assert_eq!(ids(&all), vec!["pm_2", "pm_3", "pm_1"]);
    let none = PaymentMethod::find_by_customer_id_merchant_id(&store, "c1", "m1", Some(0)).unwrap();
    assert!(none.is_empty());
    let wide = PaymentMethod::find_by_customer_id_merchant_id(&store, "c1", "m1", Some(9)).unwrap();
    assert_eq!(wide.len(), 3);
}

#[test]
fn find_by_customer_and_merchant_refuses_a_negative_limit() {
    let mut store = PaymentMethod::table();
    stored(&mut store, "pm_1", "c1", "m1", 10);
    assert_eq!(
        PaymentMethod::find_by_customer_id_merchant_id(&store, "c1", "m1", Some(-1)),
        Err(DatabaseError::Unknown("a limit or an offset is negative".to_string()))
    );
}

#[test]
fn find_by_customer_merchant_and_status_filters_by_status() {
    let mut store = PaymentMethod::table();
    stored(&mut store, "pm_1", "c1", "m1", 10);
    let mut inactive = new_method("pm_2", "c1", "m1", 30);
    inactive.status = PaymentMethodStatus::Inactive;
    inactive.insert(&mut store).unwrap();
    stored(&mut store, "pm_3", "c1", "m1", 20);
    let active = PaymentMethod::find_by_customer_id_merchant_id_status(
        &store,
        "c1",
        "m1",
        PaymentMethodStatus::Active,
        None,
    )
    .unwrap();
    assert_eq!(ids(&active), vec!["pm_3", "pm_1"]);
    let one = PaymentMethod::find_by_customer_id_merchant_id_status(
        &store,
        "c1",
        "m1",
        PaymentMethodStatus::Active,
        Some(1),
    )
    .unwrap();
    assert_eq!(ids(&one), vec!["pm_3"]);
    let inactive = PaymentMethod::find_by_customer_id_merchant_id_status(
        &store,
        "c1",
        "m1",
        PaymentMethodStatus::Inactive,
        Some(5),
    )
    .unwrap();
    assert_eq!(ids(&inactive), vec!["pm_2"]);
    let processing = PaymentMethod::find_by_customer_id_merchant_id_status(
        &store,
        "c1",
        "m1",
        PaymentMethodStatus::Processing,
        None,
    )
    .unwrap();
    assert!(processing.is_empty());
}

#[test]
fn update_with_nothing_to_change_returns_the_entity_unchanged() {
    let mut store = PaymentMethod::table();
    let e1 = stored(&mut store, "pm_1", "c1", "m1", 10);
    let copy = PaymentMethod::find_by_payment_method_id(&store, "pm_1").unwrap();
    let r = e1.update_with_payment_method_id(
        &mut store,
        PaymentMethodUpdate::PaymentMethodDataUpdate { payment_method_data: None },
    );
    assert_eq!(r, Ok(copy));
    let r = PaymentMethod::find_by_payment_method_id(&store, "pm_1")
        .unwrap()
        .update_with_payment_method_id(&mut store, PaymentMethodUpdate::StatusUpdate { status: None });
    assert!(r.is_ok());
}

#[test]
fn update_with_nothing_to_change_succeeds_for_an_entity_that_is_not_stored() {
    let mut store = PaymentMethod::table();
    let e1 = stored(&mut store, "pm_1", "c1", "m1", 10);
    PaymentMethod::delete_by_payment_method_id(&mut store, "pm_1".to_string()).unwrap();
    let copy = new_method("pm_1", "c1", "m1", 10);
    let r = e1.update_with_payment_method_id(
        &mut store,
        PaymentMethodUpdate::NetworkTransactionIdAndStatusUpdate {
            network_transaction_id: None,
            status: None,
        },
    );
    let unchanged = r.unwrap();
    assert_eq!(unchanged.id, 1);
    assert_eq!(unchanged.payment_method_id, copy.payment_method_id);
    assert_eq!(store.len(), 0);
}

#[test]
fn update_changes_the_named_fields_and_no_others() {
    let mut store = PaymentMethod::table();
    let e1 = stored(&mut store, "pm_1", "c1", "m1", 10);
    stored(&mut store, "pm_2", "c1", "m1", 11);
    let after = e1
        .update_with_payment_method_id(
            &mut store,
            PaymentMethodUpdate::NetworkTransactionIdAndStatusUpdate {
                network_transaction_id: Some("ntid_5".to_string()),
                status: Some(PaymentMethodStatus::Inactive),
            },
        )
        .unwrap();
    assert_eq!(after.network_transaction_id, Some("ntid_5".to_string()));
    assert_eq!(after.status, PaymentMethodStatus::Inactive);
    assert_eq!(after.id, 1);
    assert_eq!(after.customer_id, "c1");
    assert_eq!(after.merchant_id, "m1");
    assert_eq!(after.payment_method_id, "pm_1");
    assert_eq!(after.locker_id, None);
    assert_eq!(after.created_at, 1_700_000_000);
    assert_eq!(after.last_used_at, 10);
    assert_eq!(after.payment_method_data, None);
    assert_eq!(PaymentMethod::find_by_payment_method_id(&store, "pm_1"), Ok(after));
    let other = PaymentMethod::find_by_payment_method_id(&store, "pm_2").unwrap();
    assert_eq!(other.status, PaymentMethodStatus::Active);
    assert_eq!(other.network_transaction_id, None);
}

#[test]
fn update_of_last_used_changes_the_listing_order() {
    let mut store = PaymentMethod::table();
    let e1 = stored(&mut store, "pm_1", "c1", "m1", 10);
    stored(&mut store, "pm_2", "c1", "m1", 20);
    let after = e1
        .update_with_payment_method_id(&mut store, PaymentMethodUpdate::LastUsedUpdate { last_used_at: 99 })
        .unwrap();
    assert_eq!(after.last_used_at, 99);
    let listed = PaymentMethod::find_by_customer_id_merchant_id(&store, "c1", "m1", None).unwrap();
    assert_eq!(ids(&listed), vec!["pm_1", "pm_2"]);
}

#[test]
fn update_of_data_stores_the_data() {
    let mut store = PaymentMethod::table();
    let e1 = stored(&mut store, "pm_1", "c1", "m1", 10);
    let after = e1
        .update_with_payment_method_id(
            &mut store,
            PaymentMethodUpdate::PaymentMethodDataUpdate {
                payment_method_data: Some("{\"card\":\"4242\"}".to_string()),
            },
        )
        .unwrap();
    assert_eq!(after.payment_method_data, Some("{\"card\":\"4242\"}".to_string()));
}

#[test]
fn update_of_an_entity_that_is_not_stored_is_not_found() {
    let mut store = PaymentMethod::table();
    let e1 = stored(&mut store, "pm_1", "c1", "m1", 10);
    PaymentMethod::delete_by_payment_method_id(&mut store, "pm_1".to_string()).unwrap();
    stored(&mut store, "pm_2", "c1", "m1", 20);
    let r = e1.update_with_payment_method_id(
        &mut store,
        PaymentMethodUpdate::StatusUpdate { status: Some(PaymentMethodStatus::Inactive) },
    );
    assert_eq!(r, Err(DatabaseError::NotFound));
    let other = PaymentMethod::find_by_payment_method_id(&store, "pm_2").unwrap();
    assert_eq!(other.status, PaymentMethodStatus::Active);
}

#[test]
fn delete_returns_the_row_and_a_second_delete_is_not_found() {
    let mut store = PaymentMethod::table();
    let e1 = stored(&mut store, "pm_1", "c1", "m1", 10);
    let e2 = stored(&mut store, "pm_2", "c1", "m1", 20);
    let gone = PaymentMethod::delete_by_payment_method_id(&mut store, "pm_1".to_string());
    assert_eq!(gone, Ok(e1));
    assert_eq!(store.len(), 1);
    assert_eq!(
        PaymentMethod::delete_by_payment_method_id(&mut store, "pm_1".to_string()),
        Err(DatabaseError::NotFound)
    );
    assert_eq!(store.len(), 1);
    assert_eq!(PaymentMethod::find_by_payment_method_id(&store, "pm_2"), Ok(e2));
}

#[test]
fn delete_then_find_is_not_found() {
    let mut store = PaymentMethod::table();
    stored(&mut store, "pm_1", "c1", "m1", 10);
    PaymentMethod::delete_by_payment_method_id(&mut store, "pm_1".to_string()).unwrap();
    assert_eq!(
        PaymentMethod::find_by_payment_method_id(&store, "pm_1"),
        Err(DatabaseError::NotFound)
    );
}

#[test]
fn delete_by_merchant_and_identity_needs_both_to_match() {
    let mut store = PaymentMethod::table();
    let e1 = stored(&mut store, "pm_1", "c1", "m1", 10);
    assert_eq!(
        PaymentMethod::delete_by_merchant_id_payment_method_id(&mut store, "m2", "pm_1"),
        Err(DatabaseError::NotFound)
    );
    assert_eq!(
        PaymentMethod::delete_by_merchant_id_payment_method_id(&mut store, "m1", "pm_2"),
        Err(DatabaseError::NotFound)
    );
    assert_eq!(store.len(), 1);
    assert_eq!(
        PaymentMethod::delete_by_merchant_id_payment_method_id(&mut store, "m1", "pm_1"),
        Ok(e1)
    );
    assert_eq!(store.len(), 0);
}

#[test]
fn an_identity_is_free_again_after_a_delete() {
    let mut store = PaymentMethod::table();
    stored(&mut store, "pm_1", "c1", "m1", 10);
    PaymentMethod::delete_by_payment_method_id(&mut store, "pm_1".to_string()).unwrap();
    let again = stored(&mut store, "pm_1", "c1", "m1", 10);
    assert_eq!(again.id, 2);
}

#[test]
fn a_row_of_another_kind_does_not_read_as_a_payment_method() {
    let mut store = PaymentMethod::table();
    let mut row = new_method("pm_1", "c1", "m1", 10).to_row();
    row[5] = Value::Int(7);
    generic_insert(&mut store, row).unwrap();
    assert_eq!(
        PaymentMethod::find_by_payment_method_id(&store, "pm_1"),
        Err(DatabaseError::Unknown("the row is not that of a payment method".to_string()))
    );
    assert_eq!(
        PaymentMethod::find_by_merchant_id(&store, "m1"),
        Err(DatabaseError::Unknown("the row is not that of a payment method".to_string()))
    );
}

#[test]
fn rows_and_entities_convert_both_ways() {
    let entity = PaymentMethod {
        id: 7,
        customer_id: "c1".to_string(),
        merchant_id: "m1".to_string(),
        payment_method_id: "pm_1".to_string(),
        locker_id: Some("lock_1".to_string()),
        status: PaymentMethodStatus::AwaitingData,
        created_at: 5,
        last_used_at: 6,
        payment_method_data: None,
        network_transaction_id: Some("n1".to_string()),
    };
    let row = entity.to_row();
    assert_eq!(row.len(), 10);
    assert_eq!(row[0], Value::Int(7));
    assert_eq!(row[4], Value::Text("lock_1".to_string()));
    assert_eq!(row[5], Value::Int(3));
    assert_eq!(row[8], Value::Null);
    assert_eq!(PaymentMethod::from_row(&row), Some(entity));
    assert_eq!(PaymentMethod::from_row(&row[..9].to_vec()), None);
}

#[test]
fn status_codes_convert_both_ways() {
    assert_eq!(PaymentMethodStatus::Active.code(), 0);
    assert_eq!(PaymentMethodStatus::Inactive.code(), 1);
    assert_eq!(PaymentMethodStatus::Processing.code(), 2);
    assert_eq!(PaymentMethodStatus::AwaitingData.code(), 3);
    assert_eq!(PaymentMethodStatus::from_code(2), Some(PaymentMethodStatus::Processing));
    assert_eq!(PaymentMethodStatus::from_code(4), None);
    assert_eq!(PaymentMethodStatus::from_code(-1), None);
}

#[test]
fn an_update_touches_the_columns_of_the_fields_it_gives() {
    let internal = PaymentMethodUpdateInternal::from(PaymentMethodUpdate::LastUsedUpdate {
        last_used_at: 42,
    });
    assert_eq!(
        internal,
        PaymentMethodUpdateInternal {
            status: None,
            last_used_at: Some(42),
            payment_method_data: None,
            network_transaction_id: None,
        }
    );
    let set = internal.to_update_set();
    assert!(!set.is_empty());
    assert_eq!(set.get(7), Some(&Value::Int(42)));
    assert_eq!(set.get(5), None);
    let nothing = PaymentMethodUpdateInternal::from(PaymentMethodUpdate::StatusUpdate { status: None });
    assert!(nothing.to_update_set().is_empty());
}

#[test]
fn the_predicates_name_the_columns_of_the_entity() {
    let text = |s: &str| Value::Text(s.to_string());
    assert_eq!(by_payment_method_id("pm_1").tests(), vec![(3, text("pm_1"))]);
    assert_eq!(
        by_merchant_id_payment_method_id("m1", "pm_1").tests(),
        vec![(2, text("m1")), (3, text("pm_1"))]
    );
    assert_eq!(by_locker_id("l1").tests(), vec![(4, text("l1"))]);
    assert_eq!(by_merchant_id("m1").tests(), vec![(2, text("m1"))]);
    assert_eq!(
        by_customer_id_merchant_id("c1", "m1").tests(),
        vec![(1, text("c1")), (2, text("m1"))]
    );
    assert_eq!(
        by_customer_id_merchant_id_status("c1", "m1", PaymentMethodStatus::Processing).tests(),
        vec![(1, text("c1")), (2, text("m1")), (5, Value::Int(2))]
    );
    assert_eq!(by_last_used(), Some(OrderBy { column: 7, direction: Direction::Desc }));
}

#[test]
fn reading_an_update_recovers_only_from_nothing_to_change() {
    let mut store = PaymentMethod::table();
    let e1 = stored(&mut store, "pm_1", "c1", "m1", 10);
    let e2 = stored(&mut store, "pm_2", "c1", "m1", 20);
    assert_eq!(read_updated(e1.clone(), Err(DatabaseError::NoFieldsToUpdate)), Ok(e1.clone()));
    assert_eq!(read_updated(e1.clone(), Err(DatabaseError::NotFound)), Err(DatabaseError::NotFound));
    assert_eq!(read_updated(e1.clone(), Err(DatabaseError::Conflict)), Err(DatabaseError::Conflict));
    assert_eq!(
        read_updated(e1.clone(), Err(DatabaseError::Unavailable)),
        Err(DatabaseError::Unavailable)
    );
    assert_eq!(
        read_updated(e1.clone(), Err(DatabaseError::Unknown("x".to_string()))),
        Err(DatabaseError::Unknown("x".to_string()))
    );
    assert_eq!(read_updated(e1.clone(), Ok(e2.to_row())), Ok(e2));
    assert_eq!(
        read_updated(e1, Ok(vec![])),
        Err(DatabaseError::Unknown("the row is not that of a payment method".to_string()))
    );
}

#[test]
fn reading_rows_keeps_their_order_and_passes_errors_on() {
    let mut store = PaymentMethod::table();
    let e1 = stored(&mut store, "pm_1", "c1", "m1", 10);
    let e2 = stored(&mut store, "pm_2", "c1", "m1", 20);
    assert_eq!(read_many(Ok(vec![e2.to_row(), e1.to_row()])), Ok(vec![e2.clone(), e1.clone()]));
    assert_eq!(read_many(Ok(vec![])), Ok(vec![]));
    assert_eq!(read_many(Err(DatabaseError::Unavailable)), Err(DatabaseError::Unavailable));
    assert_eq!(
        read_many(Ok(vec![e1.to_row(), vec![]])),
        Err(DatabaseError::Unknown("the row is not that of a payment method".to_string()))
    );
    assert_eq!(read_one(Ok(e1.to_row())), Ok(e1));
    assert_eq!(read_one(Err(DatabaseError::NotFound)), Err(DatabaseError::NotFound));
}

#[test]
fn a_new_payment_method_is_written_with_an_empty_number() {
    let new = new_method("pm_1", "c1", "m1", 10);
    let copy = new.clone();
    let row = new.to_row();
    assert_eq!(row.len(), 10);
    assert_eq!(row[0], Value::Null);
    assert_eq!(row[3], Value::Text("pm_1".to_string()));
    assert_eq!(row[7], Value::Int(10));
    assert_eq!(copy, new);
}

#[test]
fn filter_by_merchant_with_a_limit_returns_the_two_used_last() {
    let mut store = PaymentMethod::table();
    stored(&mut store, "pm_1", "c1", "m1", 10);
    stored(&mut store, "pm_2", "c2", "m1", 40);
    stored(&mut store, "pm_3", "c3", "m2", 50);
    stored(&mut store, "pm_4", "c1", "m1", 30);
    let rows = generic_filter(&store, &by_merchant_id("m1"), Some(2), None, by_last_used()).unwrap();
    let found = read_many(Ok(rows)).unwrap();
    assert_eq!(ids(&found), vec!["pm_2", "pm_4"]);
    assert!(found.len() <= 2);
    assert!(found[0].last_used_at >= found[1].last_used_at);
    let one = generic_filter(&store, &by_merchant_id("m2"), Some(2), None, by_last_used()).unwrap();
    assert_eq!(one.len(), 1);
}
