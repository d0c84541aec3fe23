//! The item CRUD surface: list, point lookup, create with monotonic id
//! allocation, in-place update, and terminal delete.

use vstd::prelude::*;
use vstd::string::StringExecFns;
use crate::codec::{item_payload_fits, spec_decode_item, spec_encode_item};
use crate::errors::{id_not_found_msg, spec_id_not_found_msg, Error};
use crate::records::{Item, ItemPayload, ItemV};
use crate::stable::{table_entries, Storage};
use crate::storage::{lemma_map_values_insert, lemma_map_values_remove};

verus! {

/// `v` lists exactly the records of `m`, in ascending id order, each
/// carrying the id it is keyed under.
pub open spec fn item_listing_of(v: Seq<Item>, m: Map<u64, ItemV>) -> bool {
    &&& forall|i: int|
        0 <= i < v.len() ==> m.dom().contains(#[trigger] v[i]@.id) && v[i]@ == m[v[i]@.id]
    &&& forall|i: int, j: int| 0 <= i < j < v.len() ==> #[trigger] v[i]@.id < #[trigger] v[j]@.id
    &&& forall|k: u64| #[trigger] m.dom().contains(k) ==> exists|i: int|
        0 <= i < v.len() && v[i]@.id == k
}

/// All live items in ascending id order; the empty map is reported as
/// an error, never as an empty listing.
pub fn get_items(s: &Storage) -> (r: Result<Vec<Item>, Error>)
    requires
        s.wf(),
    ensures
        match r {
            Ok(v) => item_listing_of(v@, s.spec_items()) && (exists|k: u64|
                s.spec_items().dom().contains(k)),
            Err(e) => (forall|k: u64| !s.spec_items().dom().contains(k)) && e.spec_msg()
                == "No Items found"@,
        },
{
    proof {
        assert(s.spec_items().dom() =~= table_entries(s.items).dom());
    }
    let ent = s.items.entries();
    if ent.len() == 0 {
        return Err(Error::NotFound { msg: String::from_str("No Items found") });
    }
    let mut out: Vec<Item> = Vec::new();
    let mut i: usize = 0;
    while i < ent.len()
        invariant
            s.wf(),
            i <= ent@.len(),
            out@.len() == i,
            forall|j: int, l: int|
                0 <= j < l < ent@.len() ==> #[trigger] ent@[j].0 < #[trigger] ent@[l].0,
            forall|j: int|
                0 <= j < ent@.len() ==> table_entries(s.items).dom().contains(
                    #[trigger] ent@[j].0,
                ) && ent@[j].1@ == table_entries(s.items)[ent@[j].0],
            forall|k: u64|
                table_entries(s.items).dom().contains(k) ==> exists|j: int|
                    0 <= j < ent@.len() && (#[trigger] ent@[j]).0 == k,
            forall|j: int| 0 <= j < i ==> (#[trigger] out@[j])@.id == ent@[j].0,
            forall|j: int|
                0 <= j < i ==> s.spec_items().dom().contains((#[trigger] out@[j])@.id)
                    && out@[j]@ == s.spec_items()[out@[j]@.id],
        decreases ent@.len() - i,
    {
        match Item::from_bytes(&ent[i].1) {
            Some(it) => {
                proof {
                    assert(s.spec_items()[ent@[i as int].0] == spec_decode_item(
                        table_entries(s.items)[ent@[i as int].0],
                    ).unwrap());
                }
                out.push(it);
            },
            None => {
                proof {
                    assert(false);
                }
                return Err(Error::NotFound { msg: String::from_str("No Items found") });
            },
        }
        i = i + 1;
    }
    proof {
        assert(table_entries(s.items).dom().contains(ent@[0].0));
        assert forall|k: u64| s.spec_items().dom().contains(k) implies exists|j: int|
            0 <= j < out@.len() && out@[j]@.id == k by {
            let j = choose|j: int| 0 <= j < ent@.len() && (ent@[j]).0 == k;
            assert(out@[j]@.id == k);
        }
    }
    Ok(out)
}

/// The item stored under `id`, or the not-found error naming that id.
pub fn get_item_by_id(s: &Storage, id: u64) -> (r: Result<Item, Error>)
    requires
        s.wf(),
    ensures
        (if s.spec_items().dom().contains(id) {
            r matches Ok(it) && it@ == s.spec_items()[id]
        } else {
            r matches Err(e) && e.spec_msg() == spec_id_not_found_msg("Item"@, id)
        }),
{
    match s.items.get(id) {
        Some(b) => {
            match Item::from_bytes(&b) {
                Some(it) => Ok(it),
                None => {
                    proof {
                        assert(false);
                    }
                    Err(Error::NotFound { msg: id_not_found_msg("Item", id) })
                },
            }
        },
        None => Err(Error::NotFound { msg: id_not_found_msg("Item", id) }),
    }
}

/// Creates an item under the next id: the id equals the count of ids
/// ever allocated, and that count grows by one. Never fails.
pub fn add_item(s: &mut Storage, payload: ItemPayload) -> (r: Result<Item, Error>)
    requires
        old(s).wf(),
        old(s).spec_item_count() < u64::MAX,
        item_payload_fits(payload),
    ensures
        final(s).wf(),
        ({
            let id = old(s).spec_item_count();
            let v = ItemV {
                id,
                name: payload.name@,
                description: payload.description@,
                price_bits: payload.price_bits,
            };
            &&& r matches Ok(it) && it@ == v
            &&& final(s).spec_items() == old(s).spec_items().insert(id, v)
            &&& final(s).spec_item_count() == id + 1
        }),
        final(s).spec_stocks() == old(s).spec_stocks(),
        final(s).spec_transactions() == old(s).spec_transactions(),
        final(s).spec_stock_count() == old(s).spec_stock_count(),
        final(s).spec_transaction_count() == old(s).spec_transaction_count(),
{
    let id = s.item_counter.get();
    s.item_counter.set(id + 1);
    let item = Item {
        id,
        name: payload.name,
        description: payload.description,
        price_bits: payload.price_bits,
    };
    let bytes = item.to_bytes();
    let ghost pre = table_entries(s.items);
    s.items.insert(id, bytes);
    proof {
        crate::codec::lemma_item_round_trip(item@);
        lemma_map_values_insert(
            pre,
            |b: Seq<u8>| spec_decode_item(b).unwrap(),
            id,
            spec_encode_item(item@),
        );
    }
    Ok(item)
}

/// Overwrites every caller-supplied field of the item under `id`,
/// keeping the id itself; absent ids are reported, not created.
pub fn update_item(s: &mut Storage, id: u64, payload: ItemPayload) -> (r: Result<Item, Error>)
    requires
        old(s).wf(),
        item_payload_fits(payload),
    ensures
        final(s).wf(),
        final(s).spec_item_count() == old(s).spec_item_count(),
        final(s).spec_stocks() == old(s).spec_stocks(),
        final(s).spec_transactions() == old(s).spec_transactions(),
        final(s).spec_stock_count() == old(s).spec_stock_count(),
        final(s).spec_transaction_count() == old(s).spec_transaction_count(),
        (if old(s).spec_items().dom().contains(id) {
            let v = ItemV {
                id,
                name: payload.name@,
                description: payload.description@,
                price_bits: payload.price_bits,
            };
            &&& r matches Ok(it) && it@ == v
            &&& final(s).spec_items() == old(s).spec_items().insert(id, v)
        } else {
            &&& r matches Err(e) && e.spec_msg() == spec_id_not_found_msg("Item"@, id)
            &&& final(s).spec_items() == old(s).spec_items()
        }),
{
    match s.items.get(id) {
        Some(_prior) => {
            let item = Item {
                id,
                name: payload.name,
                description: payload.description,
                price_bits: payload.price_bits,
            };
            let bytes = item.to_bytes();
            let ghost pre = table_entries(s.items);
            s.items.insert(id, bytes);
            proof {
                crate::codec::lemma_item_round_trip(item@);
                lemma_map_values_insert(
                    pre,
                    |b: Seq<u8>| spec_decode_item(b).unwrap(),
                    id,
                    spec_encode_item(item@),
                );
            }
            Ok(item)
        },
        None => Err(Error::NotFound { msg: id_not_found_msg("Item", id) }),
    }
}

/// Removes the item under `id` for good; the id counter is untouched,
/// so the id is never handed out again.
pub fn delete_item(s: &mut Storage, id: u64) -> (r: Result<(), Error>)
    requires
        old(s).wf(),
    ensures
        final(s).wf(),
        final(s).spec_item_count() == old(s).spec_item_count(),
        final(s).spec_stocks() == old(s).spec_stocks(),
        final(s).spec_transactions() == old(s).spec_transactions(),
        final(s).spec_stock_count() == old(s).spec_stock_count(),
        final(s).spec_transaction_count() == old(s).spec_transaction_count(),
        (if old(s).spec_items().dom().contains(id) {
            r is Ok && final(s).spec_items() == old(s).spec_items().remove(id)
        } else {
            (r matches Err(e) && e.spec_msg() == spec_id_not_found_msg("Item"@, id))
                && final(s).spec_items() == old(s).spec_items()
        }),
{
    let ghost pre = table_entries(s.items);
    match s.items.remove(id) {
        Some(_prior) => {
            proof {
                lemma_map_values_remove(pre, |b: Seq<u8>| spec_decode_item(b).unwrap(), id);
            }
            Ok(())
        },
        None => {
            proof {
                lemma_map_values_remove(pre, |b: Seq<u8>| spec_decode_item(b).unwrap(), id);
                assert(old(s).spec_items().remove(id) =~= old(s).spec_items());
            }
            Err(Error::NotFound { msg: id_not_found_msg("Item", id) })
        },
    }
}

} // verus!
