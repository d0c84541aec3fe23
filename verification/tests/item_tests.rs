use stock_manager_backend::errors::Error;
use stock_manager_backend::item_service::{
    add_item, delete_item, get_item_by_id, get_items, update_item,
};
use stock_manager_backend::records::ItemPayload;
use stock_manager_backend::stable::Storage;

fn payload(name: &str, description: &str, price: f64) -> ItemPayload {
    ItemPayload {
        name: name.as_bytes().to_vec(),
        description: description.as_bytes().to_vec(),
        price_bits: price.to_bits(),
    }
}

fn msg_of(e: &Error) -> &str {
    e.message().as_str()
}

#[test]
fn item_end_to_end_scenario() {
    let mut s = Storage::init();

    let widget = add_item(&mut s, payload("Widget", "A widget", 9.99)).unwrap();
    assert_eq!(widget.id, 0);
    assert_eq!(widget.name, b"Widget".to_vec());
    assert_eq!(widget.description, b"A widget".to_vec());
    assert_eq!(f64::from_bits(widget.price_bits), 9.99);

    let gadget = add_item(&mut s, payload("Gadget", "A gadget", 4.50)).unwrap();
    assert_eq!(gadget.id, 1);

    let listed = get_items(&s).unwrap();
    assert_eq!(listed.len(), 2);
    assert_eq!(listed[0].id, 0);
    assert_eq!(listed[0].name, b"Widget".to_vec());
    assert_eq!(listed[1].id, 1);
    assert_eq!(listed[1].name, b"Gadget".to_vec());

    assert!(delete_item(&mut s, 0).is_ok());
    let gone = get_item_by_id(&s, 0);
    match gone {
        Err(e) => assert_eq!(msg_of(&e), "Item with the id=0 not found"),
        Ok(_) => panic!("deleted item still present"),
    }

    let third = add_item(&mut s, payload("Sprocket", "A sprocket", 1.25)).unwrap();
    assert_eq!(third.id, 2);
}

#[test]
fn empty_listing_is_an_error() {
    let s = Storage::init();
    match get_items(&s) {
        Err(e) => assert_eq!(msg_of(&e), "No Items found"),
        Ok(_) => panic!("empty map listed as success"),
    }
}

#[test]
fn listing_after_deleting_all_is_an_error() {
    let mut s = Storage::init();
    add_item(&mut s, payload("Widget", "A widget", 9.99)).unwrap();
    delete_item(&mut s, 0).unwrap();
    assert!(get_items(&s).is_err());
}

#[test]
fn get_missing_item_names_the_id() {
    let s = Storage::init();
    match get_item_by_id(&s, 10) {
        Err(e) => assert_eq!(msg_of(&e), "Item with the id=10 not found"),
        Ok(_) => panic!("missing item found"),
    }
    match get_item_by_id(&s, 1234567890) {
        Err(e) => assert_eq!(msg_of(&e), "Item with the id=1234567890 not found"),
        Ok(_) => panic!("missing item found"),
    }
}

#[test]
fn update_replaces_every_payload_field() {
    let mut s = Storage::init();
    add_item(&mut s, payload("Widget", "A widget", 9.99)).unwrap();
    let updated = update_item(&mut s, 0, payload("Cog", "A cog", 2.00)).unwrap();
    assert_eq!(updated.id, 0);
    assert_eq!(updated.name, b"Cog".to_vec());
    assert_eq!(updated.description, b"A cog".to_vec());
    assert_eq!(f64::from_bits(updated.price_bits), 2.00);
    let fetched = get_item_by_id(&s, 0).unwrap();
    assert_eq!(fetched.name, b"Cog".to_vec());
}

#[test]
fn update_twice_with_same_payload_is_idempotent() {
    let mut s = Storage::init();
    add_item(&mut s, payload("Widget", "A widget", 9.99)).unwrap();
    let first = update_item(&mut s, 0, payload("Cog", "A cog", 2.00)).unwrap();
    let second = update_item(&mut s, 0, payload("Cog", "A cog", 2.00)).unwrap();
    assert_eq!(first.id, second.id);
    assert_eq!(first.name, second.name);
    assert_eq!(first.description, second.description);
    assert_eq!(first.price_bits, second.price_bits);
    let stored = get_item_by_id(&s, 0).unwrap();
    assert_eq!(stored.name, b"Cog".to_vec());
    assert_eq!(stored.price_bits, 2.00f64.to_bits());
}

#[test]
fn update_and_delete_of_missing_id_fail() {
    let mut s = Storage::init();
    match update_item(&mut s, 3, payload("X", "Y", 0.0)) {
        Err(e) => assert_eq!(msg_of(&e), "Item with the id=3 not found"),
        Ok(_) => panic!("updated a missing item"),
    }
    match delete_item(&mut s, 3) {
        Err(e) => assert_eq!(msg_of(&e), "Item with the id=3 not found"),
        Ok(_) => panic!("deleted a missing item"),
    }
}

#[test]
fn delete_is_terminal_and_id_is_never_reused() {
    let mut s = Storage::init();
    add_item(&mut s, payload("A", "a", 1.0)).unwrap();
    add_item(&mut s, payload("B", "b", 2.0)).unwrap();
    delete_item(&mut s, 1).unwrap();
    let listed = get_items(&s).unwrap();
    assert_eq!(listed.len(), 1);
    assert_eq!(listed[0].id, 0);
    assert!(get_item_by_id(&s, 1).is_err());
    assert!(update_item(&mut s, 1, payload("C", "c", 3.0)).is_err());
    assert!(delete_item(&mut s, 1).is_err());
    let next = add_item(&mut s, payload("D", "d", 4.0)).unwrap();
    assert_eq!(next.id, 2);
}

#[test]
fn ids_increase_strictly_from_zero() {
    let mut s = Storage::init();
    assert_eq!(s.item_count(), 0);
    for expected in 0..5u64 {
        let it = add_item(&mut s, payload("N", "n", 0.5)).unwrap();
        assert_eq!(it.id, expected);
        assert_eq!(s.item_count(), expected + 1);
    }
}
