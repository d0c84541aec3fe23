//! Trusted boundary to `ic_stable_structures`: the durable id counters
//! and the durable ordered byte maps, all backed by disjoint regions of
//! one stable memory space handed out by the crate's memory manager.
//!
//! Verus sees these containers only through the two uninterpreted
//! content functions and the contracts of the wrapper methods below;
//! everything layered on top is verified against those contracts.

use vstd::prelude::*;
use ic_stable_structures::memory_manager::{MemoryId, MemoryManager};

verus! {

/// A durable 64-bit counter in one stable region. Wraps
/// `ic_stable_structures::Cell<u64, _>`.
#[verifier::external_body]
pub struct IdCell {
    inner: ic_stable_structures::Cell<
        u64,
        ic_stable_structures::memory_manager::VirtualMemory<
            ic_stable_structures::DefaultMemoryImpl,
        >,
    >,
}

/// A durable ordered map from 64-bit ids to encoded records, in one
/// stable region. Wraps `ic_stable_structures::BTreeMap<u64, Vec<u8>, _>`.
#[verifier::external_body]
pub struct ByteTable {
    inner: ic_stable_structures::BTreeMap<
        u64,
        Vec<u8>,
        ic_stable_structures::memory_manager::VirtualMemory<
            ic_stable_structures::DefaultMemoryImpl,
        >,
    >,
}

/// The value a durable counter holds.
pub uninterp spec fn id_cell_value(c: IdCell) -> u64;

/// The key-to-bytes contents of a durable ordered map.
pub uninterp spec fn table_entries(t: ByteTable) -> Map<u64, Seq<u8>>;

impl IdCell {
    /// Relies on `Cell::get`: returns the value the cell holds.
    #[verifier::external_body]
    pub fn get(&self) -> (r: u64)
        ensures
            r == id_cell_value(*self),
    {
        *self.inner.get()
    }

    /// Relies on `Cell::set`: persists `v` as the cell's value. If the
    /// host ever refused to grow the cell's region the call would
    /// abort, a condition the design treats as fatal, never as a typed
    /// error.
    #[verifier::external_body]
    pub fn set(&mut self, v: u64)
        ensures
            id_cell_value(*final(self)) == v,
    {
        self.inner.set(v);
    }
}

impl ByteTable {
    /// Relies on `BTreeMap::insert`: stores `v` under `k` and returns
    /// the value previously stored there, if any.
    #[verifier::external_body]
    pub fn insert(&mut self, k: u64, v: Vec<u8>) -> (r: Option<Vec<u8>>)
        ensures
            table_entries(*final(self)) == table_entries(*old(self)).insert(k, v@),
            match r {
                Some(prev) => table_entries(*old(self)).dom().contains(k) && prev@
                    == table_entries(*old(self))[k],
                None => !table_entries(*old(self)).dom().contains(k),
            },
    {
        self.inner.insert(k, v)
    }

    /// Relies on `BTreeMap::get`: returns the value stored under `k`,
    /// if any.
    #[verifier::external_body]
    pub fn get(&self, k: u64) -> (r: Option<Vec<u8>>)
        ensures
            match r {
                Some(v) => table_entries(*self).dom().contains(k) && v@ == table_entries(
                    *self,
                )[k],
                None => !table_entries(*self).dom().contains(k),
            },
    {
        self.inner.get(&k)
    }

    /// Relies on `BTreeMap::remove`: deletes the entry under `k` and
    /// returns the value it held, if any.
    #[verifier::external_body]
    pub fn remove(&mut self, k: u64) -> (r: Option<Vec<u8>>)
        ensures
            table_entries(*final(self)) == table_entries(*old(self)).remove(k),
            match r {
                Some(prev) => table_entries(*old(self)).dom().contains(k) && prev@
                    == table_entries(*old(self))[k],
                None => !table_entries(*old(self)).dom().contains(k),
            },
    {
        self.inner.remove(&k)
    }

    /// Relies on `BTreeMap::iter`: yields every entry exactly once, in
    /// ascending key order.
    #[verifier::external_body]
    pub fn entries(&self) -> (r: Vec<(u64, Vec<u8>)>)
        ensures
            forall|i: int, j: int|
                0 <= i < j < r@.len() ==> #[trigger] r@[i].0 < #[trigger] r@[j].0,
            forall|i: int|
                0 <= i < r@.len() ==> table_entries(*self).dom().contains(#[trigger] r@[i].0)
                    && r@[i].1@ == table_entries(*self)[r@[i].0],
            forall|k: u64|
                table_entries(*self).dom().contains(k) ==> exists|i: int|
                    0 <= i < r@.len() && (#[trigger] r@[i]).0 == k,
    {
        self.inner.iter().map(|e| e.into_pair()).collect()
    }
}

/// The whole persistent state: one id counter and one ordered map per
/// record kind, each bound to its own fixed region tag.
pub struct Storage {
    pub item_counter: IdCell,
    pub stock_counter: IdCell,
    pub transaction_counter: IdCell,
    pub items: ByteTable,
    pub stocks: ByteTable,
    pub transactions: ByteTable,
}

impl Storage {
    /// Builds the six region-backed structures over a fresh memory
    /// space. Relies on `MemoryManager::init` handing out disjoint
    /// regions per tag, on `Cell::init` holding the default value over
    /// an empty region, and on `BTreeMap::init` starting empty over an
    /// empty region.
    #[verifier::external_body]
    pub fn new() -> (r: Storage)
        ensures
            id_cell_value(r.item_counter) == 0,
            id_cell_value(r.stock_counter) == 0,
            id_cell_value(r.transaction_counter) == 0,
            forall|k: u64| !table_entries(r.items).dom().contains(k),
            forall|k: u64| !table_entries(r.stocks).dom().contains(k),
            forall|k: u64| !table_entries(r.transactions).dom().contains(k),
    {
        let mm = MemoryManager::init(ic_stable_structures::DefaultMemoryImpl::default());
        Storage {
            item_counter: IdCell { inner: ic_stable_structures::Cell::init(mm.get(MemoryId::new(0)), 0) },
            stock_counter: IdCell { inner: ic_stable_structures::Cell::init(mm.get(MemoryId::new(1)), 0) },
            transaction_counter: IdCell { inner: ic_stable_structures::Cell::init(mm.get(MemoryId::new(2)), 0) },
            items: ByteTable { inner: ic_stable_structures::BTreeMap::init(mm.get(MemoryId::new(3))) },
            stocks: ByteTable { inner: ic_stable_structures::BTreeMap::init(mm.get(MemoryId::new(4))) },
            transactions: ByteTable { inner: ic_stable_structures::BTreeMap::init(mm.get(MemoryId::new(5))) },
        }
    }
}

} // verus!
