//! The mathematical model of the persistent state and its
//! well-formedness invariant.
//!
//! The invariant ties the raw byte contents of each durable map to the
//! record kind stored in it: every stored byte string is a valid
//! encoding, the encoded id equals the key it is stored under, and
//! every key is below the kind's id counter (ids are allocated
//! monotonically and never reused).

use vstd::prelude::*;
use vstd::map::*;
use crate::codec::{spec_decode_item, spec_decode_stock, spec_decode_transaction};
use crate::records::{ItemV, Stock, Transaction};
use crate::stable::{id_cell_value, table_entries, Storage};

verus! {

impl Storage {
    /// The live items, keyed by id, as decoded records.
    pub open spec fn spec_items(&self) -> Map<u64, ItemV> {
        table_entries(self.items).map_values(|b: Seq<u8>| spec_decode_item(b).unwrap())
    }

    /// The live stock lots, keyed by id, as decoded records.
    pub open spec fn spec_stocks(&self) -> Map<u64, Stock> {
        table_entries(self.stocks).map_values(|b: Seq<u8>| spec_decode_stock(b).unwrap())
    }

    /// The live transactions, keyed by id, as decoded records.
    pub open spec fn spec_transactions(&self) -> Map<u64, Transaction> {
        table_entries(self.transactions).map_values(
            |b: Seq<u8>| spec_decode_transaction(b).unwrap(),
        )
    }

    /// The count of item ids ever allocated; the next item id.
    pub open spec fn spec_item_count(&self) -> u64 {
        id_cell_value(self.item_counter)
    }

    /// The count of stock ids ever allocated; the next stock id.
    pub open spec fn spec_stock_count(&self) -> u64 {
        id_cell_value(self.stock_counter)
    }

    /// The count of transaction ids ever allocated; the next
    /// transaction id.
    pub open spec fn spec_transaction_count(&self) -> u64 {
        id_cell_value(self.transaction_counter)
    }

    /// Every stored byte string decodes to a record of the right kind,
    /// carries the id it is keyed under, and sits below the kind's
    /// counter.
    pub open spec fn wf(&self) -> bool {
        &&& forall|k: u64| #[trigger] table_entries(self.items).dom().contains(k) ==> {
            &&& spec_decode_item(table_entries(self.items)[k]) is Some
            &&& spec_decode_item(table_entries(self.items)[k]).unwrap().id == k
            &&& k < id_cell_value(self.item_counter)
        }
        &&& forall|k: u64| #[trigger] table_entries(self.stocks).dom().contains(k) ==> {
            &&& spec_decode_stock(table_entries(self.stocks)[k]) is Some
            &&& spec_decode_stock(table_entries(self.stocks)[k]).unwrap().id == k
            &&& k < id_cell_value(self.stock_counter)
        }
        &&& forall|k: u64| #[trigger] table_entries(self.transactions).dom().contains(k) ==> {
            &&& spec_decode_transaction(table_entries(self.transactions)[k]) is Some
            &&& spec_decode_transaction(table_entries(self.transactions)[k]).unwrap().id == k
            &&& k < id_cell_value(self.transaction_counter)
        }
    }

    /// How many item ids were ever allocated.
    pub fn item_count(&self) -> (r: u64)
        ensures
            r == self.spec_item_count(),
    {
        self.item_counter.get()
    }

    /// How many stock ids were ever allocated.
    pub fn stock_count(&self) -> (r: u64)
        ensures
            r == self.spec_stock_count(),
    {
        self.stock_counter.get()
    }

    /// How many transaction ids were ever allocated.
    pub fn transaction_count(&self) -> (r: u64)
        ensures
            r == self.spec_transaction_count(),
    {
        self.transaction_counter.get()
    }

    /// Builds the storage context and establishes the invariant: a
    /// fresh memory space holds no records, and no id was allocated.
    pub fn init() -> (r: Storage)
        ensures
            r.wf(),
            r.spec_items() == Map::<u64, ItemV>::empty(),
            r.spec_stocks() == Map::<u64, Stock>::empty(),
            r.spec_transactions() == Map::<u64, Transaction>::empty(),
            r.spec_item_count() == 0,
            r.spec_stock_count() == 0,
            r.spec_transaction_count() == 0,
    {
        let s = Storage::new();
        proof {
            assert_maps_equal!(s.spec_items(), Map::<u64, ItemV>::empty());
            assert_maps_equal!(s.spec_stocks(), Map::<u64, Stock>::empty());
            assert_maps_equal!(s.spec_transactions(), Map::<u64, Transaction>::empty());
        }
        s
    }
}

/// Mapping the values of a map commutes with inserting one entry.
pub proof fn lemma_map_values_insert<A, B, C>(m: Map<A, B>, f: spec_fn(B) -> C, k: A, v: B)
    ensures
        m.insert(k, v).map_values(f) == m.map_values(f).insert(k, f(v)),
{
    assert_maps_equal!(m.insert(k, v).map_values(f), m.map_values(f).insert(k, f(v)));
}

/// Mapping the values of a map commutes with removing one entry.
pub proof fn lemma_map_values_remove<A, B, C>(m: Map<A, B>, f: spec_fn(B) -> C, k: A)
    ensures
        m.remove(k).map_values(f) == m.map_values(f).remove(k),
{
    assert_maps_equal!(m.remove(k).map_values(f), m.map_values(f).remove(k));
}

} // verus!
