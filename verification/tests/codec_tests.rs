use stock_manager_backend::codec::MAX_RECORD_SIZE;
use stock_manager_backend::records::{Item, Stock, Transaction, TransactionType};

#[test]
fn item_round_trips_through_bytes() {
    let item = Item {
        id: 42,
        name: b"Widget".to_vec(),
        description: b"A widget".to_vec(),
        price_bits: 9.99f64.to_bits(),
    };
    let bytes = item.to_bytes();
    assert!(bytes.len() <= MAX_RECORD_SIZE);
    assert_eq!(bytes.len(), 21 + item.name.len() + item.description.len());
    let back = Item::from_bytes(&bytes).unwrap();
    assert_eq!(back.id, 42);
    assert_eq!(back.name, b"Widget".to_vec());
    assert_eq!(back.description, b"A widget".to_vec());
    assert_eq!(back.price_bits, 9.99f64.to_bits());
}

#[test]
fn empty_strings_round_trip() {
    let item = Item { id: 0, name: Vec::new(), description: Vec::new(), price_bits: 0 };
    let bytes = item.to_bytes();
    assert_eq!(bytes.len(), 21);
    let back = Item::from_bytes(&bytes).unwrap();
    assert_eq!(back.id, 0);
    assert!(back.name.is_empty());
    assert!(back.description.is_empty());
}

#[test]
fn largest_fitting_item_round_trips() {
    let item = Item {
        id: u64::MAX,
        name: vec![b'x'; 500],
        description: vec![b'y'; 503],
        price_bits: u64::MAX,
    };
    let bytes = item.to_bytes();
    assert_eq!(bytes.len(), MAX_RECORD_SIZE);
    let back = Item::from_bytes(&bytes).unwrap();
    assert_eq!(back.id, u64::MAX);
    assert_eq!(back.name.len(), 500);
    assert_eq!(back.description.len(), 503);
}

#[test]
fn stock_round_trips_through_bytes() {
    let stock = Stock { id: 3, item_id: 999, quantity: 5 };
    let bytes = stock.to_bytes();
    assert_eq!(bytes.len(), 21);
    let back = Stock::from_bytes(&bytes).unwrap();
    assert_eq!(back, stock);
}

#[test]
fn transaction_round_trips_through_bytes() {
    for t in [
        Transaction { id: 1, stock_id: 2, transaction_type: TransactionType::Inflow, quantity: 7 },
        Transaction {
            id: u64::MAX,
            stock_id: 0,
            transaction_type: TransactionType::Outflow,
            quantity: u32::MAX,
        },
    ] {
        let bytes = t.to_bytes();
        assert_eq!(bytes.len(), 22);
        let back = Transaction::from_bytes(&bytes).unwrap();
        assert_eq!(back, t);
    }
}

#[test]
fn malformed_bytes_are_rejected() {
    assert!(Item::from_bytes(&Vec::new()).is_none());
    assert!(Item::from_bytes(&vec![0u8; 21]).is_none());
    assert!(Stock::from_bytes(&vec![9u8; 21]).is_none());
    assert!(Stock::from_bytes(&vec![2u8; 20]).is_none());

    let good = Transaction {
        id: 1,
        stock_id: 2,
        transaction_type: TransactionType::Inflow,
        quantity: 7,
    }
    .to_bytes();
    let mut bad_direction = good.clone();
    bad_direction[17] = 2;
    assert!(Transaction::from_bytes(&bad_direction).is_none());
    let mut bad_tag = good;
    bad_tag[0] = 7;
    assert!(Transaction::from_bytes(&bad_tag).is_none());
}

#[test]
fn wrong_kind_tag_does_not_decode() {
    let stock = Stock { id: 3, item_id: 4, quantity: 5 };
    let bytes = stock.to_bytes();
    assert!(Item::from_bytes(&bytes).is_none());
    assert!(Transaction::from_bytes(&bytes).is_none());
}
