//! The three record kinds of the ledger, their payloads, and their
//! mathematical views.
//!
//! The dispatch boundary outside this library speaks UTF-8 strings and
//! 64-bit floats; inside the storage layer a name or description is held
//! as its UTF-8 bytes and a price as its IEEE-754 bit pattern, so that
//! every field is a plain value the encoding and the proofs can speak of.

use vstd::prelude::*;

verus! {

/// A catalogue item. `name` and `description` are UTF-8 bytes;
/// `price_bits` is the IEEE-754 bit pattern of the price.
#[derive(Clone)]
pub struct Item {
    pub id: u64,
    pub name: Vec<u8>,
    pub description: Vec<u8>,
    pub price_bits: u64,
}

/// The mathematical view of an [`Item`].
pub ghost struct ItemV {
    pub id: u64,
    pub name: Seq<u8>,
    pub description: Seq<u8>,
    pub price_bits: u64,
}

impl View for Item {
    type V = ItemV;

    open spec fn view(&self) -> ItemV {
        ItemV {
            id: self.id,
            name: self.name@,
            description: self.description@,
            price_bits: self.price_bits,
        }
    }
}

/// The fields of an item a caller supplies; the id is allocated by the
/// storage layer.
pub struct ItemPayload {
    pub name: Vec<u8>,
    pub description: Vec<u8>,
    pub price_bits: u64,
}

/// A stock lot. `item_id` is a soft reference to an item id: it is never
/// checked to exist.
#[derive(Clone, Debug, PartialEq, Eq, Structural)]
pub struct Stock {
    pub id: u64,
    pub item_id: u64,
    pub quantity: u32,
}

/// The caller-supplied fields of a stock lot.
pub struct StockPayload {
    pub item_id: u64,
    pub quantity: u32,
}

/// Whether a transaction adds to or draws from a stock lot.
#[derive(Clone, Copy, Debug, PartialEq, Eq, Structural)]
pub enum TransactionType {
    Inflow,
    Outflow,
}

/// A stock movement. `stock_id` is a soft reference to a stock id: it is
/// never checked to exist.
#[derive(Clone, Debug, PartialEq, Eq, Structural)]
pub struct Transaction {
    pub id: u64,
    pub stock_id: u64,
    pub transaction_type: TransactionType,
    pub quantity: u32,
}

/// The caller-supplied fields of a transaction.
pub struct TransactionPayload {
    pub stock_id: u64,
    pub transaction_type: TransactionType,
    pub quantity: u32,
}

} // verus!
