use stock_manager_backend::errors::Error;
use stock_manager_backend::records::{StockPayload, TransactionPayload, TransactionType};
use stock_manager_backend::stable::Storage;
use stock_manager_backend::stock_service::{
    add_stock, delete_stock, get_stock, get_stock_by_id, update_stock,
};
use stock_manager_backend::transaction_service::{
    add_transaction, delete_transaction, get_transactions, update_transaction,
};

fn msg_of(e: &Error) -> &str {
    e.message().as_str()
}

#[test]
fn stock_accepts_dangling_item_reference() {
    let mut s = Storage::init();
    let lot = add_stock(&mut s, StockPayload { item_id: 999, quantity: 5 }).unwrap();
    assert_eq!(lot.id, 0);
    assert_eq!(lot.item_id, 999);
    assert_eq!(lot.quantity, 5);
}

#[test]
fn stock_crud_cycle() {
    let mut s = Storage::init();
    match get_stock(&s) {
        Err(e) => assert_eq!(msg_of(&e), "No Stock found"),
        Ok(_) => panic!("empty map listed as success"),
    }
    add_stock(&mut s, StockPayload { item_id: 1, quantity: 10 }).unwrap();
    add_stock(&mut s, StockPayload { item_id: 2, quantity: 20 }).unwrap();
    let listed = get_stock(&s).unwrap();
    assert_eq!(listed.len(), 2);
    assert_eq!(listed[0].id, 0);
    assert_eq!(listed[1].id, 1);

    let one = get_stock_by_id(&s, 1).unwrap();
    assert_eq!(one.item_id, 2);

    let upd = update_stock(&mut s, 0, StockPayload { item_id: 7, quantity: 3 }).unwrap();
    assert_eq!(upd.id, 0);
    assert_eq!(upd.item_id, 7);
    assert_eq!(upd.quantity, 3);

    delete_stock(&mut s, 0).unwrap();
    match get_stock_by_id(&s, 0) {
        Err(e) => assert_eq!(msg_of(&e), "Stock with the id=0 not found"),
        Ok(_) => panic!("deleted stock still present"),
    }
    let next = add_stock(&mut s, StockPayload { item_id: 8, quantity: 1 }).unwrap();
    assert_eq!(next.id, 2);
}

#[test]
fn missing_stock_names_the_id() {
    let mut s = Storage::init();
    match update_stock(&mut s, 7, StockPayload { item_id: 0, quantity: 0 }) {
        Err(e) => assert_eq!(msg_of(&e), "Stock with the id=7 not found"),
        Ok(_) => panic!("updated a missing stock"),
    }
    match delete_stock(&mut s, 7) {
        Err(e) => assert_eq!(msg_of(&e), "Stock with the id=7 not found"),
        Ok(_) => panic!("deleted a missing stock"),
    }
}

#[test]
fn transaction_accepts_dangling_stock_reference() {
    let mut s = Storage::init();
    let t = add_transaction(
        &mut s,
        TransactionPayload {
            stock_id: 12345,
            transaction_type: TransactionType::Inflow,
            quantity: 9,
        },
    )
    .unwrap();
    assert_eq!(t.id, 0);
    assert_eq!(t.stock_id, 12345);
    assert_eq!(t.transaction_type, TransactionType::Inflow);
    assert_eq!(t.quantity, 9);
}

#[test]
fn transaction_crud_cycle() {
    let mut s = Storage::init();
    match get_transactions(&s) {
        Err(e) => assert_eq!(msg_of(&e), "No Transactions found"),
        Ok(_) => panic!("empty map listed as success"),
    }
    add_transaction(
        &mut s,
        TransactionPayload {
            stock_id: 1,
            transaction_type: TransactionType::Inflow,
            quantity: 4,
        },
    )
    .unwrap();
    add_transaction(
        &mut s,
        TransactionPayload {
            stock_id: 1,
            transaction_type: TransactionType::Outflow,
            quantity: 2,
        },
    )
    .unwrap();
    let listed = get_transactions(&s).unwrap();
    assert_eq!(listed.len(), 2);
    assert_eq!(listed[0].id, 0);
    assert_eq!(listed[0].transaction_type, TransactionType::Inflow);
    assert_eq!(listed[1].id, 1);
    assert_eq!(listed[1].transaction_type, TransactionType::Outflow);

    let upd = update_transaction(
        &mut s,
        1,
        TransactionPayload {
            stock_id: 2,
            transaction_type: TransactionType::Inflow,
            quantity: 6,
        },
    )
    .unwrap();
    assert_eq!(upd.id, 1);
    assert_eq!(upd.stock_id, 2);
    assert_eq!(upd.transaction_type, TransactionType::Inflow);

    delete_transaction(&mut s, 0).unwrap();
    let remaining = get_transactions(&s).unwrap();
    assert_eq!(remaining.len(), 1);
    assert_eq!(remaining[0].id, 1);

    match delete_transaction(&mut s, 0) {
        Err(e) => assert_eq!(msg_of(&e), "Transaction with the id=0 not found"),
        Ok(_) => panic!("deleted a missing transaction"),
    }
}

#[test]
fn the_three_kinds_are_independent() {
    let mut s = Storage::init();
    add_stock(&mut s, StockPayload { item_id: 0, quantity: 1 }).unwrap();
    assert_eq!(s.stock_count(), 1);
    assert_eq!(s.item_count(), 0);
    assert_eq!(s.transaction_count(), 0);
    assert!(get_transactions(&s).is_err());
}
