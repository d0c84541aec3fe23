//! The transaction CRUD surface. A transaction's `stock_id` is a soft
//! reference: it is stored as given and never checked against the stock
//! map. There is no point lookup for transactions; they are listed,
//! created, updated and deleted only.

use vstd::prelude::*;
use vstd::string::StringExecFns;
use crate::codec::{spec_decode_transaction, spec_encode_transaction};
use crate::errors::{id_not_found_msg, spec_id_not_found_msg, Error};
use crate::records::{Transaction, TransactionPayload};
use crate::stable::{table_entries, Storage};
use crate::storage::{lemma_map_values_insert, lemma_map_values_remove};

verus! {

/// `v` lists exactly the records of `m`, in ascending id order, each
/// carrying the id it is keyed under.
pub open spec fn transaction_listing_of(v: Seq<Transaction>, m: Map<u64, Transaction>) -> bool {
    &&& forall|i: int|
        0 <= i < v.len() ==> m.dom().contains(#[trigger] v[i].id) && v[i] == m[v[i].id]
    &&& forall|i: int, j: int| 0 <= i < j < v.len() ==> #[trigger] v[i].id < #[trigger] v[j].id
    &&& forall|k: u64| #[trigger] m.dom().contains(k) ==> exists|i: int|
        0 <= i < v.len() && v[i].id == k
}

/// All live transactions in ascending id order; the empty map is
/// reported as an error, never as an empty listing.
pub fn get_transactions(s: &Storage) -> (r: Result<Vec<Transaction>, Error>)
    requires
        s.wf(),
    ensures
        match r {
            Ok(v) => transaction_listing_of(v@, s.spec_transactions()) && (exists|k: u64|
                s.spec_transactions().dom().contains(k)),
            Err(e) => (forall|k: u64| !s.spec_transactions().dom().contains(k)) && e.spec_msg()
                == "No Transactions found"@,
        },
{
    proof {
        assert(s.spec_transactions().dom() =~= table_entries(s.transactions).dom());
    }
    let ent = s.transactions.entries();
    if ent.len() == 0 {
        return Err(Error::NotFound { msg: String::from_str("No Transactions found") });
    }
    let mut out: Vec<Transaction> = Vec::new();
    let mut i: usize = 0;
    while i < ent.len()
        invariant
            s.wf(),
            i <= ent@.len(),
            out@.len() == i,
            forall|j: int, l: int|
                0 <= j < l < ent@.len() ==> #[trigger] ent@[j].0 < #[trigger] ent@[l].0,
            forall|j: int|
                0 <= j < ent@.len() ==> table_entries(s.transactions).dom().contains(
                    #[trigger] ent@[j].0,
                ) && ent@[j].1@ == table_entries(s.transactions)[ent@[j].0],
            forall|k: u64|
                table_entries(s.transactions).dom().contains(k) ==> exists|j: int|
                    0 <= j < ent@.len() && (#[trigger] ent@[j]).0 == k,
            forall|j: int| 0 <= j < i ==> (#[trigger] out@[j]).id == ent@[j].0,
            forall|j: int|
                0 <= j < i ==> s.spec_transactions().dom().contains((#[trigger] out@[j]).id)
                    && out@[j] == s.spec_transactions()[out@[j].id],
        decreases ent@.len() - i,
    {
        match Transaction::from_bytes(&ent[i].1) {
            Some(t) => {
                proof {
                    assert(s.spec_transactions()[ent@[i as int].0] == spec_decode_transaction(
                        table_entries(s.transactions)[ent@[i as int].0],
                    ).unwrap());
                }
                out.push(t);
            },
            None => {
                proof {
                    assert(false);
                }
                return Err(Error::NotFound { msg: String::from_str("No Transactions found") });
            },
        }
        i = i + 1;
    }
    proof {
        assert(table_entries(s.transactions).dom().contains(ent@[0].0));
        assert forall|k: u64| s.spec_transactions().dom().contains(k) implies exists|j: int|
            0 <= j < out@.len() && out@[j].id == k by {
            let j = choose|j: int| 0 <= j < ent@.len() && (ent@[j]).0 == k;
            assert(out@[j].id == k);
        }
    }
    Ok(out)
}

/// Creates a transaction under the next id: the id equals the count of
/// ids ever allocated, and that count grows by one. Never fails; the
/// referenced stock id is not validated.
pub fn add_transaction(s: &mut Storage, payload: TransactionPayload) -> (r: Result<
    Transaction,
    Error,
>)
    requires
        old(s).wf(),
        old(s).spec_transaction_count() < u64::MAX,
    ensures
        final(s).wf(),
        ({
            let id = old(s).spec_transaction_count();
            let v = Transaction {
                id,
                stock_id: payload.stock_id,
                transaction_type: payload.transaction_type,
                quantity: payload.quantity,
            };
            &&& r matches Ok(t) && t == v
            &&& final(s).spec_transactions() == old(s).spec_transactions().insert(id, v)
            &&& final(s).spec_transaction_count() == id + 1
        }),
        final(s).spec_items() == old(s).spec_items(),
        final(s).spec_stocks() == old(s).spec_stocks(),
        final(s).spec_item_count() == old(s).spec_item_count(),
        final(s).spec_stock_count() == old(s).spec_stock_count(),
{
    let id = s.transaction_counter.get();
    s.transaction_counter.set(id + 1);
    let transaction = Transaction {
        id,
        stock_id: payload.stock_id,
        transaction_type: payload.transaction_type,
        quantity: payload.quantity,
    };
    let bytes = transaction.to_bytes();
    let ghost pre = table_entries(s.transactions);
    s.transactions.insert(id, bytes);
    proof {
        crate::codec::lemma_transaction_round_trip(transaction);
        lemma_map_values_insert(
            pre,
            |b: Seq<u8>| spec_decode_transaction(b).unwrap(),
            id,
            spec_encode_transaction(transaction),
        );
    }
    Ok(transaction)
}

/// Overwrites every caller-supplied field of the transaction under
/// `id`, keeping the id itself; absent ids are reported, not created.
pub fn update_transaction(s: &mut Storage, id: u64, payload: TransactionPayload) -> (r: Result<
    Transaction,
    Error,
>)
    requires
        old(s).wf(),
    ensures
        final(s).wf(),
        final(s).spec_transaction_count() == old(s).spec_transaction_count(),
        final(s).spec_items() == old(s).spec_items(),
        final(s).spec_stocks() == old(s).spec_stocks(),
        final(s).spec_item_count() == old(s).spec_item_count(),
        final(s).spec_stock_count() == old(s).spec_stock_count(),
        (if old(s).spec_transactions().dom().contains(id) {
            let v = Transaction {
                id,
                stock_id: payload.stock_id,
                transaction_type: payload.transaction_type,
                quantity: payload.quantity,
            };
            &&& r matches Ok(t) && t == v
            &&& final(s).spec_transactions() == old(s).spec_transactions().insert(id, v)
        } else {
            &&& r matches Err(e) && e.spec_msg() == spec_id_not_found_msg("Transaction"@, id)
            &&& final(s).spec_transactions() == old(s).spec_transactions()
        }),
{
    match s.transactions.get(id) {
        Some(_prior) => {
            let transaction = Transaction {
                id,
                stock_id: payload.stock_id,
                transaction_type: payload.transaction_type,
                quantity: payload.quantity,
            };
            let bytes = transaction.to_bytes();
            let ghost pre = table_entries(s.transactions);
            s.transactions.insert(id, bytes);
            proof {
                crate::codec::lemma_transaction_round_trip(transaction);
                lemma_map_values_insert(
                    pre,
                    |b: Seq<u8>| spec_decode_transaction(b).unwrap(),
                    id,
                    spec_encode_transaction(transaction),
                );
            }
            Ok(transaction)
        },
        None => Err(Error::NotFound { msg: id_not_found_msg("Transaction", id) }),
    }
}

/// Removes the transaction under `id` for good; the id counter is
/// untouched, so the id is never handed out again.
pub fn delete_transaction(s: &mut Storage, id: u64) -> (r: Result<(), Error>)
    requires
        old(s).wf(),
    ensures
        final(s).wf(),
        final(s).spec_transaction_count() == old(s).spec_transaction_count(),
        final(s).spec_items() == old(s).spec_items(),
        final(s).spec_stocks() == old(s).spec_stocks(),
        final(s).spec_item_count() == old(s).spec_item_count(),
        final(s).spec_stock_count() == old(s).spec_stock_count(),
        (if old(s).spec_transactions().dom().contains(id) {
            r is Ok && final(s).spec_transactions() == old(s).spec_transactions().remove(id)
        } else {
            (r matches Err(e) && e.spec_msg() == spec_id_not_found_msg("Transaction"@, id))
                && final(s).spec_transactions() == old(s).spec_transactions()
        }),
{
    let ghost pre = table_entries(s.transactions);
    match s.transactions.remove(id) {
        Some(_prior) => {
            proof {
                lemma_map_values_remove(
                    pre,
                    |b: Seq<u8>| spec_decode_transaction(b).unwrap(),
                    id,
                );
            }
            Ok(())
        },
        None => {
            proof {
                lemma_map_values_remove(
                    pre,
                    |b: Seq<u8>| spec_decode_transaction(b).unwrap(),
                    id,
                );
                assert(old(s).spec_transactions().remove(id) =~= old(s).spec_transactions());
            }
            Err(Error::NotFound { msg: id_not_found_msg("Transaction", id) })
        },
    }
}

} // verus!
