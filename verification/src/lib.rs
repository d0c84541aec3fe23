//! A persistent inventory ledger: three independent CRUD services (items,
//! stock lots, transactions) layered over a single stable memory space.
//!
//! Each record kind is stored in its own durable ordered map keyed by a
//! monotonically allocated 64-bit id, with the record serialized to a
//! bounded, self-describing byte encoding. The encoding, the id allocation
//! discipline and the CRUD semantics are verified; the durable containers
//! of `ic_stable_structures` stand behind trusted wrappers.

pub mod codec;
pub mod errors;
pub mod item_service;
pub mod laws;
pub mod records;
pub mod stable;
pub mod stock_service;
pub mod storage;
pub mod transaction_service;
