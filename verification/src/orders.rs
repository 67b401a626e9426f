//! Order identifiers and the sequence generator.
//!
//! A 128-bit order id deterministically encodes `(price, side, sequence)` so
//! that ascending numeric order of ids yields best-price-first priority on
//! each side and, within equal price, earliest-sequence-first (FIFO).  The
//! bid side inverts the price field so that a better price is always a
//! numerically smaller id on both sides; one bit records the side so that the
//! price projection is lossless without out-of-band knowledge.

use vstd::arithmetic::div_mod::lemma_fundamental_div_mod_converse;
use vstd::prelude::*;

verus! {

/// Weight of the price field: the price key occupies the top 64 bits.
pub const PRICE_FACTOR: u128 = 0x1_0000_0000_0000_0000;

/// Weight of the side bit, directly below the price field.
pub const SIDE_FACTOR: u128 = 0x8000_0000_0000_0000;

/// Exclusive upper bound of sequence numbers: they fill the low 63 bits.
pub const SEQ_LIMIT: u64 = 0x8000_0000_0000_0000;

#[derive(Clone, Copy, Debug, PartialEq, Eq, Structural)]
pub enum Side {
    Bid,
    Ask,
}

#[derive(Clone, Copy, Debug, PartialEq, Eq, Structural)]
pub enum OrderType {
    /// Rest any unfilled remainder on the book.
    Limit,
    /// Discard any unfilled remainder instead of resting it.
    ImmediateOrCancel,
}

/// Price key stored in the id: asks keep the price, bids invert it, so that
/// on both sides a better price gives a smaller key.
pub open spec fn spec_price_key(price: u64, side: Side) -> int {
    match side {
        Side::Bid => u64::MAX - price,
        Side::Ask => price as int,
    }
}

/// The side bit stored in the id: 1 for a bid, 0 for an ask.
pub open spec fn spec_side_bit(side: Side) -> int {
    match side {
        Side::Bid => 1,
        Side::Ask => 0,
    }
}

/// The id that encodes `(price, side, seq)`.  For `seq < SEQ_LIMIT` the value
/// always fits in 128 bits.
pub open spec fn spec_order_id(price: u64, side: Side, seq: u64) -> int {
    spec_price_key(price, side) * (PRICE_FACTOR as int) + spec_side_bit(side) * (
    SIDE_FACTOR as int) + seq
}

/// Price key projected back out of an id.
pub open spec fn spec_id_price_key(id: u128) -> int {
    (id as int) / (PRICE_FACTOR as int)
}

/// Side bit projected back out of an id.
pub open spec fn spec_id_side_bit(id: u128) -> int {
    ((id as int) % (PRICE_FACTOR as int)) / (SIDE_FACTOR as int)
}

/// Sequence number projected back out of an id.
pub open spec fn spec_id_seq(id: u128) -> int {
    (id as int) % (SIDE_FACTOR as int)
}

/// Side projected back out of an id.
pub open spec fn spec_id_side(id: u128) -> Side {
    if spec_id_side_bit(id) == 1 {
        Side::Bid
    } else {
        Side::Ask
    }
}

/// Price projected back out of an id: un-inverts the key on the bid side.
pub open spec fn spec_id_price(id: u128) -> int {
    if spec_id_side_bit(id) == 1 {
        u64::MAX - spec_id_price_key(id)
    } else {
        spec_id_price_key(id)
    }
}

/// The projections are exact inverses of the encoding.
pub proof fn lemma_order_id_round_trip(price: u64, side: Side, seq: u64)
    requires
        seq < SEQ_LIMIT,
    ensures
        0 <= spec_order_id(price, side, seq) < u128::MAX + 1,
        spec_id_price(spec_order_id(price, side, seq) as u128) == price,
        spec_id_side(spec_order_id(price, side, seq) as u128) == side,
        spec_id_seq(spec_order_id(price, side, seq) as u128) == seq,
{
    let pk = spec_price_key(price, side);
    let sb = spec_side_bit(side);
    let id = spec_order_id(price, side, seq);
    assert(0 <= pk <= u64::MAX);
    assert(0 <= sb * (SIDE_FACTOR as int) + seq < PRICE_FACTOR as int);
    assert(id <= u64::MAX * (PRICE_FACTOR as int) + (PRICE_FACTOR as int) - 1)
        by (nonlinear_arith)
        requires
            pk <= u64::MAX,
            sb * (SIDE_FACTOR as int) + seq < PRICE_FACTOR as int,
            id == pk * (PRICE_FACTOR as int) + sb * (SIDE_FACTOR as int) + seq,
    ;
    lemma_fundamental_div_mod_converse(
        id,
        PRICE_FACTOR as int,
        pk,
        sb * (SIDE_FACTOR as int) + seq,
    );
    assert(spec_id_price_key(id as u128) == pk);
    lemma_fundamental_div_mod_converse(
        sb * (SIDE_FACTOR as int) + seq,
        SIDE_FACTOR as int,
        sb,
        seq as int,
    );
}

/// Within one side and one price, an earlier sequence number gives a smaller
/// id: the book's ascending order is first-in-first-out at equal price.
pub proof fn lemma_order_id_fifo(price: u64, side: Side, seq1: u64, seq2: u64)
    requires
        seq1 < seq2 < SEQ_LIMIT,
    ensures
        spec_order_id(price, side, seq1) < spec_order_id(price, side, seq2),
{
}

/// Within one side, a strictly better price gives a strictly smaller id,
/// whatever the sequence numbers: bids with higher prices and asks with lower
/// prices stand earlier in ascending id order.
pub proof fn lemma_order_id_price_priority(
    price1: u64,
    price2: u64,
    side: Side,
    seq1: u64,
    seq2: u64,
)
    requires
        seq1 < SEQ_LIMIT,
        seq2 < SEQ_LIMIT,
        match side {
            Side::Bid => price1 > price2,
            Side::Ask => price1 < price2,
        },
    ensures
        spec_order_id(price1, side, seq1) < spec_order_id(price2, side, seq2),
{
    let pk1 = spec_price_key(price1, side);
    let pk2 = spec_price_key(price2, side);
    assert(pk1 < pk2);
    assert(pk1 * (PRICE_FACTOR as int) + (PRICE_FACTOR as int) <= pk2 * (PRICE_FACTOR as int))
        by (nonlinear_arith)
        requires
            pk1 < pk2,
    ;
}

/// An issued id is never zero: a bid id carries its side bit, an ask id a
/// positive price key.  Zero can therefore mark a free ledger slot.
pub proof fn lemma_order_id_nonzero(price: u64, side: Side, seq: u64)
    requires
        seq < SEQ_LIMIT,
        match side {
            Side::Bid => true,
            Side::Ask => price >= 1,
        },
    ensures
        spec_order_id(price, side, seq) > 0,
{
    let pk = spec_price_key(price, side);
    let sb = spec_side_bit(side);
    assert(pk * (PRICE_FACTOR as int) + sb * (SIDE_FACTOR as int) + seq > 0) by (nonlinear_arith)
        requires
            0 <= pk,
            0 <= seq,
            0 <= sb,
            sb == 1 || pk >= 1,
    ;
}

/// Projects the price component back out of an order id.
pub fn price_from_order_id(order_id: u128) -> (price: u64)
    ensures
        price == spec_id_price(order_id),
{
    proof {
        assert((order_id as int) / (PRICE_FACTOR as int) < PRICE_FACTOR as int)
            by (nonlinear_arith)
            requires
                order_id <= u128::MAX,
        ;
    }
    let price_key: u64 = (order_id / PRICE_FACTOR) as u64;
    let side_bit: u128 = (order_id % PRICE_FACTOR) / SIDE_FACTOR;
    if side_bit == 1 {
        u64::MAX - price_key
    } else {
        price_key
    }
}

/// Projects the sequence component back out of an order id.
pub fn seq_from_order_id(order_id: u128) -> (seq: u64)
    ensures
        seq == spec_id_seq(order_id),
{
    (order_id % SIDE_FACTOR) as u64
}

/// Projects the side component back out of an order id.
pub fn side_from_order_id(order_id: u128) -> (side: Side)
    ensures
        side == spec_id_side(order_id),
{
    let side_bit: u128 = (order_id % PRICE_FACTOR) / SIDE_FACTOR;
    if side_bit == 1 {
        Side::Bid
    } else {
        Side::Ask
    }
}

/// The request log: holds the next sequence number.  Every accepted order
/// consumes exactly one sequence value, which guarantees id uniqueness and a
/// total order across the market's lifetime.  Exhaustion of the counter is
/// unrecoverable, so issuing an id requires headroom.
pub struct RequestQueue {
    pub next_seq: u64,
}

impl RequestQueue {
    /// A fresh generator, starting at sequence zero.
    pub fn new() -> (r: RequestQueue)
        ensures
            r.next_seq == 0,
    {
        RequestQueue { next_seq: 0 }
    }

    /// Issues the id encoding `(price, side)` with the current sequence
    /// number, then advances the counter.
    pub fn gen_order_id(&mut self, limit_price: u64, side: Side) -> (r: u128)
        requires
            old(self).next_seq < SEQ_LIMIT - 1,
        ensures
            final(self).next_seq == old(self).next_seq + 1,
            r == spec_order_id(limit_price, side, old(self).next_seq),
            spec_id_price(r) == limit_price,
            spec_id_side(r) == side,
            spec_id_seq(r) == old(self).next_seq,
    {
        let seq = self.next_seq;
        self.next_seq = self.next_seq + 1;
        let price_key: u64 = match side {
            Side::Bid => u64::MAX - limit_price,
            Side::Ask => limit_price,
        };
        let side_bit: u128 = match side {
            Side::Bid => 1,
            Side::Ask => 0,
        };
        let r = (price_key as u128) * PRICE_FACTOR + side_bit * SIDE_FACTOR + (seq as u128);
        proof {
            lemma_order_id_round_trip(limit_price, side, seq);
        }
        r
    }
}

} // verus!
