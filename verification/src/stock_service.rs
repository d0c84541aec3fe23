//! The stock-lot CRUD surface. A lot's `item_id` is a soft reference:
//! it is stored as given and never checked against the item map.

use vstd::prelude::*;
use vstd::string::StringExecFns;
use crate::codec::{spec_decode_stock, spec_encode_stock};
use crate::errors::{id_not_found_msg, spec_id_not_found_msg, Error};
use crate::records::{Stock, StockPayload};
use crate::stable::{table_entries, Storage};
use crate::storage::{lemma_map_values_insert, lemma_map_values_remove};

verus! {

/// `v` lists exactly the records of `m`, in ascending id order, each
/// carrying the id it is keyed under.
pub open spec fn stock_listing_of(v: Seq<Stock>, m: Map<u64, Stock>) -> bool {
    &&& forall|i: int|
        0 <= i < v.len() ==> m.dom().contains(#[trigger] v[i].id) && v[i] == m[v[i].id]
    &&& forall|i: int, j: int| 0 <= i < j < v.len() ==> #[trigger] v[i].id < #[trigger] v[j].id
    &&& forall|k: u64| #[trigger] m.dom().contains(k) ==> exists|i: int|
        0 <= i < v.len() && v[i].id == k
}

/// All live stock lots in ascending id order; the empty map is reported
/// as an error, never as an empty listing.
pub fn get_stock(s: &Storage) -> (r: Result<Vec<Stock>, Error>)
    requires
        s.wf(),
    ensures
        match r {
            Ok(v) => stock_listing_of(v@, s.spec_stocks()) && (exists|k: u64|
                s.spec_stocks().dom().contains(k)),
            Err(e) => (forall|k: u64| !s.spec_stocks().dom().contains(k)) && e.spec_msg()
                == "No Stock found"@,
        },
{
    proof {
        assert(s.spec_stocks().dom() =~= table_entries(s.stocks).dom());
    }
    let ent = s.stocks.entries();
    if ent.len() == 0 {
        return Err(Error::NotFound { msg: String::from_str("No Stock found") });
    }
    let mut out: Vec<Stock> = Vec::new();
    let mut i: usize = 0;
    while i < ent.len()
        invariant
            s.wf(),
            i <= ent@.len(),
            out@.len() == i,
            forall|j: int, l: int|
                0 <= j < l < ent@.len() ==> #[trigger] ent@[j].0 < #[trigger] ent@[l].0,
            forall|j: int|
                0 <= j < ent@.len() ==> table_entries(s.stocks).dom().contains(
                    #[trigger] ent@[j].0,
                ) && ent@[j].1@ == table_entries(s.stocks)[ent@[j].0],
            forall|k: u64|
                table_entries(s.stocks).dom().contains(k) ==> exists|j: int|
                    0 <= j < ent@.len() && (#[trigger] ent@[j]).0 == k,
            forall|j: int| 0 <= j < i ==> (#[trigger] out@[j]).id == ent@[j].0,
            forall|j: int|
                0 <= j < i ==> s.spec_stocks().dom().contains((#[trigger] out@[j]).id)
                    && out@[j] == s.spec_stocks()[out@[j].id],
        decreases ent@.len() - i,
    {
        match Stock::from_bytes(&ent[i].1) {
            Some(st) => {
                proof {
                    assert(s.spec_stocks()[ent@[i as int].0] == spec_decode_stock(
                        table_entries(s.stocks)[ent@[i as int].0],
                    ).unwrap());
                }
                out.push(st);
            },
            None => {
                proof {
                    assert(false);
                }
                return Err(Error::NotFound { msg: String::from_str("No Stock found") });
            },
        }
        i = i + 1;
    }
    proof {
        assert(table_entries(s.stocks).dom().contains(ent@[0].0));
        assert forall|k: u64| s.spec_stocks().dom().contains(k) implies exists|j: int|
            0 <= j < out@.len() && out@[j].id == k by {
            let j = choose|j: int| 0 <= j < ent@.len() && (ent@[j]).0 == k;
            assert(out@[j].id == k);
        }
    }
    Ok(out)
}

/// The stock lot stored under `id`, or the not-found error naming that
/// id.
pub fn get_stock_by_id(s: &Storage, id: u64) -> (r: Result<Stock, Error>)
    requires
        s.wf(),
    ensures
        (if s.spec_stocks().dom().contains(id) {
            r matches Ok(st) && st == s.spec_stocks()[id]
        } else {
            r matches Err(e) && e.spec_msg() == spec_id_not_found_msg("Stock"@, id)
        }),
{
    match s.stocks.get(id) {
        Some(b) => {
            match Stock::from_bytes(&b) {
                Some(st) => Ok(st),
                None => {
                    proof {
                        assert(false);
                    }
                    Err(Error::NotFound { msg: id_not_found_msg("Stock", id) })
                },
            }
        },
        None => Err(Error::NotFound { msg: id_not_found_msg("Stock", id) }),
    }
}

/// Creates a stock lot under the next id: the id equals the count of
/// ids ever allocated, and that count grows by one. Never fails; the
/// referenced item id is not validated.
pub fn add_stock(s: &mut Storage, payload: StockPayload) -> (r: Result<Stock, Error>)
    requires
        old(s).wf(),
        old(s).spec_stock_count() < u64::MAX,
    ensures
        final(s).wf(),
        ({
            let id = old(s).spec_stock_count();
            let v = Stock { id, item_id: payload.item_id, quantity: payload.quantity };
            &&& r matches Ok(st) && st == v
            &&& final(s).spec_stocks() == old(s).spec_stocks().insert(id, v)
            &&& final(s).spec_stock_count() == id + 1
        }),
        final(s).spec_items() == old(s).spec_items(),
        final(s).spec_transactions() == old(s).spec_transactions(),
        final(s).spec_item_count() == old(s).spec_item_count(),
        final(s).spec_transaction_count() == old(s).spec_transaction_count(),
{
    let id = s.stock_counter.get();
    s.stock_counter.set(id + 1);
    let stock = Stock { id, item_id: payload.item_id, quantity: payload.quantity };
    let bytes = stock.to_bytes();
    let ghost pre = table_entries(s.stocks);
    s.stocks.insert(id, bytes);
    proof {
        crate::codec::lemma_stock_round_trip(stock);
        lemma_map_values_insert(
            pre,
            |b: Seq<u8>| spec_decode_stock(b).unwrap(),
            id,
            spec_encode_stock(stock),
        );
    }
    Ok(stock)
}

/// Overwrites every caller-supplied field of the lot under `id`,
/// keeping the id itself; absent ids are reported, not created.
pub fn update_stock(s: &mut Storage, id: u64, payload: StockPayload) -> (r: Result<Stock, Error>)
    requires
        old(s).wf(),
    ensures
        final(s).wf(),
        final(s).spec_stock_count() == old(s).spec_stock_count(),
        final(s).spec_items() == old(s).spec_items(),
        final(s).spec_transactions() == old(s).spec_transactions(),
        final(s).spec_item_count() == old(s).spec_item_count(),
        final(s).spec_transaction_count() == old(s).spec_transaction_count(),
        (if old(s).spec_stocks().dom().contains(id) {
            let v = Stock { id, item_id: payload.item_id, quantity: payload.quantity };
            &&& r matches Ok(st) && st == v
            &&& final(s).spec_stocks() == old(s).spec_stocks().insert(id, v)
        } else {
            &&& r matches Err(e) && e.spec_msg() == spec_id_not_found_msg("Stock"@, id)
            &&& final(s).spec_stocks() == old(s).spec_stocks()
        }),
{
    match s.stocks.get(id) {
        Some(_prior) => {
            let stock = Stock { id, item_id: payload.item_id, quantity: payload.quantity };
            let bytes = stock.to_bytes();
            let ghost pre = table_entries(s.stocks);
            s.stocks.insert(id, bytes);
            proof {
                crate::codec::lemma_stock_round_trip(stock);
                lemma_map_values_insert(
                    pre,
                    |b: Seq<u8>| spec_decode_stock(b).unwrap(),
                    id,
                    spec_encode_stock(stock),
                );
            }
            Ok(stock)
        },
        None => Err(Error::NotFound { msg: id_not_found_msg("Stock", id) }),
    }
}

/// Removes the lot under `id` for good; the id counter is untouched,
/// so the id is never handed out again.
pub fn delete_stock(s: &mut Storage, id: u64) -> (r: Result<(), Error>)
    requires
        old(s).wf(),
    ensures
        final(s).wf(),
        final(s).spec_stock_count() == old(s).spec_stock_count(),
        final(s).spec_items() == old(s).spec_items(),
        final(s).spec_transactions() == old(s).spec_transactions(),
        final(s).spec_item_count() == old(s).spec_item_count(),
        final(s).spec_transaction_count() == old(s).spec_transaction_count(),
        (if old(s).spec_stocks().dom().contains(id) {
            r is Ok && final(s).spec_stocks() == old(s).spec_stocks().remove(id)
        } else {
            (r matches Err(e) && e.spec_msg() == spec_id_not_found_msg("Stock"@, id))
                && final(s).spec_stocks() == old(s).spec_stocks()
        }),
{
    let ghost pre = table_entries(s.stocks);
    match s.stocks.remove(id) {
        Some(_prior) => {
            proof {
                lemma_map_values_remove(pre, |b: Seq<u8>| spec_decode_stock(b).unwrap(), id);
            }
            Ok(())
        },
        None => {
            proof {
                lemma_map_values_remove(pre, |b: Seq<u8>| spec_decode_stock(b).unwrap(), id);
                assert(old(s).spec_stocks().remove(id) =~= old(s).spec_stocks());
            }
            Err(Error::NotFound { msg: id_not_found_msg("Stock", id) })
        },
    }
}

} // verus!
