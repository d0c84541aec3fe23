//! Cross-operation laws of the storage layer, stated over the models
//! that the operations' own contracts use.

use vstd::prelude::*;
use vstd::map::*;
use crate::stable::{table_entries, Storage};

verus! {

/// Id allocation is monotonic for items: every live item id lies
/// strictly below the item counter, so the id the next creation
/// returns — the counter itself, by `add_item`'s contract — is never a
/// live id, and in particular never an id allocated before, whether
/// that record still exists or was deleted.
pub proof fn lemma_next_item_id_fresh(s: Storage)
    requires
        s.wf(),
    ensures
        forall|k: u64| #[trigger] s.spec_items().dom().contains(k) ==> k < s.spec_item_count(),
        !s.spec_items().dom().contains(s.spec_item_count()),
{
    assert(s.spec_items().dom() =~= table_entries(s.items).dom());
}

/// Id allocation is monotonic for stock lots; see
/// [`lemma_next_item_id_fresh`].
pub proof fn lemma_next_stock_id_fresh(s: Storage)
    requires
        s.wf(),
    ensures
        forall|k: u64| #[trigger] s.spec_stocks().dom().contains(k) ==> k < s.spec_stock_count(),
        !s.spec_stocks().dom().contains(s.spec_stock_count()),
{
    assert(s.spec_stocks().dom() =~= table_entries(s.stocks).dom());
}

/// Id allocation is monotonic for transactions; see
/// [`lemma_next_item_id_fresh`].
pub proof fn lemma_next_transaction_id_fresh(s: Storage)
    requires
        s.wf(),
    ensures
        forall|k: u64| #[trigger] s.spec_transactions().dom().contains(k) ==> k
            < s.spec_transaction_count(),
        !s.spec_transactions().dom().contains(s.spec_transaction_count()),
{
    assert(s.spec_transactions().dom() =~= table_entries(s.transactions).dom());
}

/// Updating a record twice with the same payload is idempotent: by the
/// update contracts the stored map after an update is the prior map
/// with the record determined by the id and payload inserted, and the
/// returned record is that same value, so a second identical update
/// stores and returns exactly what the first did.
pub proof fn lemma_update_idempotent<V>(m: Map<u64, V>, id: u64, v: V)
    ensures
        m.insert(id, v).insert(id, v) == m.insert(id, v),
        m.insert(id, v).dom().contains(id),
{
    assert_maps_equal!(m.insert(id, v).insert(id, v), m.insert(id, v));
}

/// A deleted item id is gone for good: once the id is absent, point
/// lookup, update and delete on it all take their not-found branch by
/// their contracts; and since counters never decrease and a creation
/// returns the counter at its call, no later creation ever returns
/// this id again.
pub proof fn lemma_deleted_item_id_never_returns(s: Storage, id: u64, later_count: u64)
    requires
        s.wf(),
        !s.spec_items().dom().contains(id),
        id < s.spec_item_count(),
        later_count >= s.spec_item_count(),
    ensures
        later_count != id,
{
}

/// A deleted stock id is gone for good; see
/// [`lemma_deleted_item_id_never_returns`].
pub proof fn lemma_deleted_stock_id_never_returns(s: Storage, id: u64, later_count: u64)
    requires
        s.wf(),
        !s.spec_stocks().dom().contains(id),
        id < s.spec_stock_count(),
        later_count >= s.spec_stock_count(),
    ensures
        later_count != id,
{
}

/// A deleted transaction id is gone for good; see
/// [`lemma_deleted_item_id_never_returns`].
pub proof fn lemma_deleted_transaction_id_never_returns(s: Storage, id: u64, later_count: u64)
    requires
        s.wf(),
        !s.spec_transactions().dom().contains(id),
        id < s.spec_transaction_count(),
        later_count >= s.spec_transaction_count(),
    ensures
        later_count != id,
{
}

} // verus!
