//! The bounded, self-describing byte encoding of the three record kinds.
//!
//! Every record is encoded as a kind tag followed by its fields, integers
//! in little-endian order and byte strings prefixed by a 16-bit length.
//! Encoding and decoding are mutual inverses (proved below), and no
//! encoding of an admissible record exceeds [`MAX_RECORD_SIZE`] bytes.

use vstd::prelude::*;
use vstd::assert_seqs_equal;
use crate::records::{Item, ItemPayload, ItemV, Stock, Transaction, TransactionType};

verus! {

/// The hard ceiling on the byte length of one encoded record.
pub const MAX_RECORD_SIZE: usize = 1024;

/// Kind tag of an encoded item.
pub const ITEM_TAG: u8 = 1;

/// Kind tag of an encoded stock lot.
pub const STOCK_TAG: u8 = 2;

/// Kind tag of an encoded transaction.
pub const TRANSACTION_TAG: u8 = 3;

/// Little-endian bytes of a 16-bit number.
pub open spec fn le16(n: u16) -> Seq<u8> {
    seq![(n & 0xff) as u8, ((n >> 8) & 0xff) as u8]
}

/// The 16-bit number read from two little-endian bytes.
pub open spec fn le16_of(s: Seq<u8>) -> u16
    recommends
        s.len() == 2,
{
    (s[0] as u16) | ((s[1] as u16) << 8)
}

/// Little-endian bytes of a 32-bit number.
pub open spec fn le32(n: u32) -> Seq<u8> {
    seq![
        (n & 0xff) as u8,
        ((n >> 8) & 0xff) as u8,
        ((n >> 16) & 0xff) as u8,
        ((n >> 24) & 0xff) as u8,
    ]
}

/// The 32-bit number read from four little-endian bytes.
pub open spec fn le32_of(s: Seq<u8>) -> u32
    recommends
        s.len() == 4,
{
    (s[0] as u32) | ((s[1] as u32) << 8) | ((s[2] as u32) << 16) | ((s[3] as u32) << 24)
}

/// Little-endian bytes of a 64-bit number.
pub open spec fn le64(n: u64) -> Seq<u8> {
    seq![
        (n & 0xff) as u8,
        ((n >> 8) & 0xff) as u8,
        ((n >> 16) & 0xff) as u8,
        ((n >> 24) & 0xff) as u8,
        ((n >> 32) & 0xff) as u8,
        ((n >> 40) & 0xff) as u8,
        ((n >> 48) & 0xff) as u8,
        ((n >> 56) & 0xff) as u8,
    ]
}

/// The 64-bit number read from eight little-endian bytes.
pub open spec fn le64_of(s: Seq<u8>) -> u64
    recommends
        s.len() == 8,
{
    (s[0] as u64) | ((s[1] as u64) << 8) | ((s[2] as u64) << 16) | ((s[3] as u64) << 24)
        | ((s[4] as u64) << 32) | ((s[5] as u64) << 40) | ((s[6] as u64) << 48)
        | ((s[7] as u64) << 56)
}

/// Reading back the little-endian bytes of a 16-bit number returns it.
pub proof fn lemma_le16_round(n: u16)
    ensures
        le16_of(le16(n)) == n,
{
    assert((((n & 0xff) as u8) as u16) | (((((n >> 8) & 0xff) as u8) as u16) << 8) == n)
        by (bit_vector);
}

/// Reading back the little-endian bytes of a 32-bit number returns it.
pub proof fn lemma_le32_round(n: u32)
    ensures
        le32_of(le32(n)) == n,
{
    assert((((n & 0xff) as u8) as u32) | (((((n >> 8) & 0xff) as u8) as u32) << 8)
        | (((((n >> 16) & 0xff) as u8) as u32) << 16)
        | (((((n >> 24) & 0xff) as u8) as u32) << 24) == n) by (bit_vector);
}

/// Reading back the little-endian bytes of a 64-bit number returns it.
pub proof fn lemma_le64_round(n: u64)
    ensures
        le64_of(le64(n)) == n,
{
    assert((((n & 0xff) as u8) as u64) | (((((n >> 8) & 0xff) as u8) as u64) << 8)
        | (((((n >> 16) & 0xff) as u8) as u64) << 16)
        | (((((n >> 24) & 0xff) as u8) as u64) << 24)
        | (((((n >> 32) & 0xff) as u8) as u64) << 32)
        | (((((n >> 40) & 0xff) as u8) as u64) << 40)
        | (((((n >> 48) & 0xff) as u8) as u64) << 48)
        | (((((n >> 56) & 0xff) as u8) as u64) << 56) == n) by (bit_vector);
}

/// Appends the little-endian bytes of a 16-bit number.
fn push_u16(out: &mut Vec<u8>, n: u16)
    ensures
        final(out)@ == old(out)@ + le16(n),
{
    assert(n & 0xff <= 0xff && (n >> 8) & 0xff <= 0xff) by (bit_vector);
    out.push((n & 0xff) as u8);
    out.push(((n >> 8) & 0xff) as u8);
    proof { assert_seqs_equal!(out@ == old(out)@ + le16(n)); }
}

/// Appends the little-endian bytes of a 32-bit number.
fn push_u32(out: &mut Vec<u8>, n: u32)
    ensures
        final(out)@ == old(out)@ + le32(n),
{
    assert(n & 0xff <= 0xff && (n >> 8) & 0xff <= 0xff && (n >> 16) & 0xff <= 0xff
        && (n >> 24) & 0xff <= 0xff) by (bit_vector);
    out.push((n & 0xff) as u8);
    out.push(((n >> 8) & 0xff) as u8);
    out.push(((n >> 16) & 0xff) as u8);
    out.push(((n >> 24) & 0xff) as u8);
    proof { assert_seqs_equal!(out@ == old(out)@ + le32(n)); }
}

/// Appends the little-endian bytes of a 64-bit number.
fn push_u64(out: &mut Vec<u8>, n: u64)
    ensures
        final(out)@ == old(out)@ + le64(n),
{
    assert(n & 0xff <= 0xff && (n >> 8) & 0xff <= 0xff && (n >> 16) & 0xff <= 0xff
        && (n >> 24) & 0xff <= 0xff && (n >> 32) & 0xff <= 0xff && (n >> 40) & 0xff <= 0xff
        && (n >> 48) & 0xff <= 0xff && (n >> 56) & 0xff <= 0xff) by (bit_vector);
    out.push((n & 0xff) as u8);
    out.push(((n >> 8) & 0xff) as u8);
    out.push(((n >> 16) & 0xff) as u8);
    out.push(((n >> 24) & 0xff) as u8);
    out.push(((n >> 32) & 0xff) as u8);
    out.push(((n >> 40) & 0xff) as u8);
    out.push(((n >> 48) & 0xff) as u8);
    out.push(((n >> 56) & 0xff) as u8);
    proof { assert_seqs_equal!(out@ == old(out)@ + le64(n)); }
}

/// Appends a whole byte string.
fn push_bytes(out: &mut Vec<u8>, b: &Vec<u8>)
    ensures
        final(out)@ == old(out)@ + b@,
{
    let mut i: usize = 0;
    while i < b.len()
        invariant
            i <= b.len(),
            out@ == old(out)@ + b@.subrange(0, i as int),
        decreases b.len() - i,
    {
        out.push(b[i]);
        i = i + 1;
        proof { assert_seqs_equal!(out@ == old(out)@ + b@.subrange(0, i as int)); }
    }
    proof { assert_seqs_equal!(out@ == old(out)@ + b@); }
}

/// Reads the 16-bit number at `pos`.
fn read_u16(b: &Vec<u8>, pos: usize) -> (r: u16)
    requires
        pos + 2 <= b@.len(),
    ensures
        r == le16_of(b@.subrange(pos as int, pos as int + 2)),
{
    let l: usize = b.len();
    assert(pos + 2 <= l);
    let r = (b[pos] as u16) | ((b[pos + 1] as u16) << 8);
    proof {
        let s = b@.subrange(pos as int, pos as int + 2);
        assert(s[0] == b@[pos as int] && s[1] == b@[pos as int + 1]);
    }
    r
}

/// Reads the 32-bit number at `pos`.
fn read_u32(b: &Vec<u8>, pos: usize) -> (r: u32)
    requires
        pos + 4 <= b@.len(),
    ensures
        r == le32_of(b@.subrange(pos as int, pos as int + 4)),
{
    let l: usize = b.len();
    assert(pos + 4 <= l);
    let r = (b[pos] as u32) | ((b[pos + 1] as u32) << 8) | ((b[pos + 2] as u32) << 16)
        | ((b[pos + 3] as u32) << 24);
    proof {
        let s = b@.subrange(pos as int, pos as int + 4);
        assert(forall|j: int| 0 <= j < 4 ==> s[j] == b@[pos + j]);
    }
    r
}

/// Reads the 64-bit number at `pos`.
fn read_u64(b: &Vec<u8>, pos: usize) -> (r: u64)
    requires
        pos + 8 <= b@.len(),
    ensures
        r == le64_of(b@.subrange(pos as int, pos as int + 8)),
{
    let l: usize = b.len();
    assert(pos + 8 <= l);
    let r = (b[pos] as u64) | ((b[pos + 1] as u64) << 8) | ((b[pos + 2] as u64) << 16)
        | ((b[pos + 3] as u64) << 24) | ((b[pos + 4] as u64) << 32)
        | ((b[pos + 5] as u64) << 40) | ((b[pos + 6] as u64) << 48)
        | ((b[pos + 7] as u64) << 56);
    proof {
        let s = b@.subrange(pos as int, pos as int + 8);
        assert(forall|j: int| 0 <= j < 8 ==> s[j] == b@[pos + j]);
    }
    r
}

/// Copies `len` bytes starting at `pos` into a fresh vector.
fn copy_range(b: &Vec<u8>, pos: usize, len: usize) -> (r: Vec<u8>)
    requires
        pos + len <= b@.len(),
    ensures
        r@ == b@.subrange(pos as int, pos as int + len as int),
{
    let mut r: Vec<u8> = Vec::new();
    let mut i: usize = 0;
    while i < len
        invariant
            i <= len,
            pos + len <= b@.len(),
            r@ == b@.subrange(pos as int, pos as int + i as int),
        decreases len - i,
    {
        assert(pos + i < b.len());
        r.push(b[pos + i]);
        i = i + 1;
        proof { assert_seqs_equal!(r@ == b@.subrange(pos as int, pos as int + i as int)); }
    }
    r
}

/// Whether an item's variable-length fields fit under the record size
/// ceiling: a fixed 21 bytes of tag, id, two length prefixes and price,
/// plus the name and description bytes.
pub open spec fn item_fits(v: ItemV) -> bool {
    21 + v.name.len() + v.description.len() <= MAX_RECORD_SIZE
}

/// Whether a caller-supplied item payload fits under the size ceiling
/// once a record is built from it (the id adds no variable length).
pub open spec fn item_payload_fits(p: ItemPayload) -> bool {
    21 + p.name@.len() + p.description@.len() <= MAX_RECORD_SIZE
}

/// The encoding of an item: tag, id, length-prefixed name and
/// description, price bits.
pub open spec fn spec_encode_item(v: ItemV) -> Seq<u8> {
    seq![ITEM_TAG] + le64(v.id) + le16(v.name.len() as u16) + v.name
        + le16(v.description.len() as u16) + v.description + le64(v.price_bits)
}

/// The item encoded in `b`, or nothing if `b` is not exactly an item
/// encoding.
pub open spec fn spec_decode_item(b: Seq<u8>) -> Option<ItemV> {
    if b.len() < 13 || b[0] != ITEM_TAG {
        None
    } else {
        let nlen = le16_of(b.subrange(9, 11)) as int;
        if b.len() < 13 + nlen {
            None
        } else {
            let dlen = le16_of(b.subrange(11 + nlen, 13 + nlen)) as int;
            if b.len() != 21 + nlen + dlen {
                None
            } else {
                Some(ItemV {
                    id: le64_of(b.subrange(1, 9)),
                    name: b.subrange(11, 11 + nlen),
                    description: b.subrange(13 + nlen, 13 + nlen + dlen),
                    price_bits: le64_of(b.subrange(13 + nlen + dlen, 21 + nlen + dlen)),
                })
            }
        }
    }
}

/// The encoding of a stock lot: tag, id, item id, quantity.
pub open spec fn spec_encode_stock(s: Stock) -> Seq<u8> {
    seq![STOCK_TAG] + le64(s.id) + le64(s.item_id) + le32(s.quantity)
}

/// The stock lot encoded in `b`, or nothing if `b` is not exactly a
/// stock encoding.
pub open spec fn spec_decode_stock(b: Seq<u8>) -> Option<Stock> {
    if b.len() != 21 || b[0] != STOCK_TAG {
        None
    } else {
        Some(Stock {
            id: le64_of(b.subrange(1, 9)),
            item_id: le64_of(b.subrange(9, 17)),
            quantity: le32_of(b.subrange(17, 21)),
        })
    }
}

/// The byte that stands for a transaction direction.
pub open spec fn type_byte(t: TransactionType) -> u8 {
    match t {
        TransactionType::Inflow => 0,
        TransactionType::Outflow => 1,
    }
}

/// The encoding of a transaction: tag, id, stock id, direction byte,
/// quantity.
pub open spec fn spec_encode_transaction(t: Transaction) -> Seq<u8> {
    seq![TRANSACTION_TAG] + le64(t.id) + le64(t.stock_id) + seq![type_byte(t.transaction_type)]
        + le32(t.quantity)
}

/// The transaction encoded in `b`, or nothing if `b` is not exactly a
/// transaction encoding.
pub open spec fn spec_decode_transaction(b: Seq<u8>) -> Option<Transaction> {
    if b.len() != 22 || b[0] != TRANSACTION_TAG || b[17] > 1 {
        None
    } else {
        Some(Transaction {
            id: le64_of(b.subrange(1, 9)),
            stock_id: le64_of(b.subrange(9, 17)),
            transaction_type: if b[17] == 0 {
                TransactionType::Inflow
            } else {
                TransactionType::Outflow
            },
            quantity: le32_of(b.subrange(18, 22)),
        })
    }
}

impl Item {
    /// Encodes this item; defined only for items under the size ceiling.
    pub fn to_bytes(&self) -> (r: Vec<u8>)
        requires
            item_fits(self@),
        ensures
            r@ == spec_encode_item(self@),
            r@.len() <= MAX_RECORD_SIZE,
    {
        let mut out: Vec<u8> = Vec::new();
        out.push(ITEM_TAG);
        push_u64(&mut out, self.id);
        push_u16(&mut out, self.name.len() as u16);
        push_bytes(&mut out, &self.name);
        push_u16(&mut out, self.description.len() as u16);
        push_bytes(&mut out, &self.description);
        push_u64(&mut out, self.price_bits);
        proof { assert_seqs_equal!(out@ == spec_encode_item(self@)); }
        out
    }

    /// Decodes an item, or nothing if `b` is not exactly an item encoding.
    pub fn from_bytes(b: &Vec<u8>) -> (r: Option<Item>)
        ensures
            match r {
                Some(it) => spec_decode_item(b@) == Some(it@),
                None => spec_decode_item(b@) is None,
            },
    {
        if b.len() < 13 {
            return None;
        }
        if b[0] != ITEM_TAG {
            return None;
        }
        let nlen = read_u16(b, 9) as usize;
        if b.len() < 13 + nlen {
            return None;
        }
        let dlen = read_u16(b, 11 + nlen) as usize;
        if b.len() != 21 + nlen + dlen {
            return None;
        }
        let id = read_u64(b, 1);
        let name = copy_range(b, 11, nlen);
        let description = copy_range(b, 13 + nlen, dlen);
        let price_bits = read_u64(b, 13 + nlen + dlen);
        Some(Item { id, name, description, price_bits })
    }
}

impl Stock {
    /// Encodes this stock lot; always 21 bytes.
    pub fn to_bytes(&self) -> (r: Vec<u8>)
        ensures
            r@ == spec_encode_stock(*self),
            r@.len() <= MAX_RECORD_SIZE,
    {
        let mut out: Vec<u8> = Vec::new();
        out.push(STOCK_TAG);
        push_u64(&mut out, self.id);
        push_u64(&mut out, self.item_id);
        push_u32(&mut out, self.quantity);
        proof { assert_seqs_equal!(out@ == spec_encode_stock(*self)); }
        out
    }

    /// Decodes a stock lot, or nothing if `b` is not exactly a stock
    /// encoding.
    pub fn from_bytes(b: &Vec<u8>) -> (r: Option<Stock>)
        ensures
            r == spec_decode_stock(b@),
    {
        if b.len() != 21 {
            return None;
        }
        if b[0] != STOCK_TAG {
            return None;
        }
        let id = read_u64(b, 1);
        let item_id = read_u64(b, 9);
        let quantity = read_u32(b, 17);
        Some(Stock { id, item_id, quantity })
    }
}

impl Transaction {
    /// Encodes this transaction; always 22 bytes.
    pub fn to_bytes(&self) -> (r: Vec<u8>)
        ensures
            r@ == spec_encode_transaction(*self),
            r@.len() <= MAX_RECORD_SIZE,
    {
        let mut out: Vec<u8> = Vec::new();
        out.push(TRANSACTION_TAG);
        push_u64(&mut out, self.id);
        push_u64(&mut out, self.stock_id);
        let tb: u8 = match self.transaction_type {
            TransactionType::Inflow => 0,
            TransactionType::Outflow => 1,
        };
        out.push(tb);
        push_u32(&mut out, self.quantity);
        proof { assert_seqs_equal!(out@ == spec_encode_transaction(*self)); }
        out
    }

    /// Decodes a transaction, or nothing if `b` is not exactly a
    /// transaction encoding.
    pub fn from_bytes(b: &Vec<u8>) -> (r: Option<Transaction>)
        ensures
            r == spec_decode_transaction(b@),
    {
        if b.len() != 22 {
            return None;
        }
        if b[0] != TRANSACTION_TAG {
            return None;
        }
        let tb = b[17];
        if tb > 1 {
            return None;
        }
        let id = read_u64(b, 1);
        let stock_id = read_u64(b, 9);
        let quantity = read_u32(b, 18);
        let transaction_type = if tb == 0 {
            TransactionType::Inflow
        } else {
            TransactionType::Outflow
        };
        Some(Transaction { id, stock_id, transaction_type, quantity })
    }
}

/// Decoding an encoded item returns the item: the codec round trip,
/// for every item under the size ceiling.
pub proof fn lemma_item_round_trip(v: ItemV)
    requires
        item_fits(v),
    ensures
        spec_decode_item(spec_encode_item(v)) == Some(v),
{
    let e = spec_encode_item(v);
    let n = v.name.len() as int;
    let d = v.description.len() as int;
    assert(e.len() == 21 + n + d);
    assert(e[0] == ITEM_TAG);
    assert_seqs_equal!(e.subrange(9, 11) == le16(v.name.len() as u16));
    lemma_le16_round(v.name.len() as u16);
    assert(le16_of(e.subrange(9, 11)) as int == n);
    assert_seqs_equal!(e.subrange(11 + n, 13 + n) == le16(v.description.len() as u16));
    lemma_le16_round(v.description.len() as u16);
    assert(le16_of(e.subrange(11 + n, 13 + n)) as int == d);
    assert_seqs_equal!(e.subrange(1, 9) == le64(v.id));
    lemma_le64_round(v.id);
    assert_seqs_equal!(e.subrange(11, 11 + n) == v.name);
    assert_seqs_equal!(e.subrange(13 + n, 13 + n + d) == v.description);
    assert_seqs_equal!(e.subrange(13 + n + d, 21 + n + d) == le64(v.price_bits));
    lemma_le64_round(v.price_bits);
}

/// Decoding an encoded stock lot returns the lot: the codec round trip.
pub proof fn lemma_stock_round_trip(s: Stock)
    ensures
        spec_decode_stock(spec_encode_stock(s)) == Some(s),
{
    let e = spec_encode_stock(s);
    assert(e.len() == 21);
    assert(e[0] == STOCK_TAG);
    assert_seqs_equal!(e.subrange(1, 9) == le64(s.id));
    assert_seqs_equal!(e.subrange(9, 17) == le64(s.item_id));
    assert_seqs_equal!(e.subrange(17, 21) == le32(s.quantity));
    lemma_le64_round(s.id);
    lemma_le64_round(s.item_id);
    lemma_le32_round(s.quantity);
}

/// Decoding an encoded transaction returns the transaction: the codec
/// round trip.
pub proof fn lemma_transaction_round_trip(t: Transaction)
    ensures
        spec_decode_transaction(spec_encode_transaction(t)) == Some(t),
{
    let e = spec_encode_transaction(t);
    assert(e.len() == 22);
    assert(e[0] == TRANSACTION_TAG);
    assert(e[17] == type_byte(t.transaction_type));
    assert_seqs_equal!(e.subrange(1, 9) == le64(t.id));
    assert_seqs_equal!(e.subrange(9, 17) == le64(t.stock_id));
    assert_seqs_equal!(e.subrange(18, 22) == le32(t.quantity));
    lemma_le64_round(t.id);
    lemma_le64_round(t.stock_id);
    lemma_le32_round(t.quantity);
}

} // verus!
