//! The order book: two price-ordered collections of resting orders.
//!
//! Each side is kept in strictly ascending order-id order.  Because the id
//! encodes the (side-inverted) price in its top bits and the sequence number
//! in its low bits, ascending id order is exactly best-price-first and, at
//! equal price, earliest-sequence-first: the front of each side is always the
//! order that must fill next.

use crate::errors::ErrorCodeCustom;
use crate::events::{
    event_slot_free, two_slots_free, Event, EventQueue, SettleStatus, EVENT_CAPACITY,
};
use crate::market::Market;
use crate::orders::{
    price_from_order_id, spec_id_price, spec_id_side, OrderType, Side,
};
use vstd::prelude::*;

verus! {

/// One resting order: its id (which encodes price, side and sequence), its
/// owner, the owner's ledger slot, and the remaining quantity in base lots.
#[derive(Clone, Copy, Debug, PartialEq, Eq, Structural)]
pub struct RestingOrder {
    pub order_id: u128,
    pub owner: u64,
    pub owner_slot: u8,
    pub qty: u64,
}

/// A resting order is valid for its side under the market's lot sizes: the
/// id carries the side and a positive price, the quantity is positive, and
/// the order's full native value fits the balance width (which bounds every
/// partial fill against it).
pub open spec fn valid_resting(o: RestingOrder, side: Side, coin_lot: u64, pc_lot: u64) -> bool {
    &&& spec_id_side(o.order_id) == side
    &&& 1 <= spec_id_price(o.order_id)
    &&& 1 <= o.qty
    &&& o.qty * spec_id_price(o.order_id) * pc_lot <= u64::MAX
    &&& o.qty * coin_lot <= u64::MAX
}

/// Strictly ascending by order id: best price first, FIFO at equal price.
pub open spec fn side_sorted(s: Seq<RestingOrder>) -> bool {
    forall|i: int, j: int|
        0 <= i < j < s.len() ==> (#[trigger] s[i]).order_id < (#[trigger] s[j]).order_id
}

/// Well-formedness of one side of the book.
pub open spec fn side_wf(s: Seq<RestingOrder>, side: Side, coin_lot: u64, pc_lot: u64) -> bool {
    &&& side_sorted(s)
    &&& forall|i: int| 0 <= i < s.len() ==> valid_resting(#[trigger] s[i], side, coin_lot, pc_lot)
}

/// The new state of a side after matching consumed orders from its front:
/// some prefix is gone, and the new front may be the old order at `k` with
/// its quantity partially reduced.
pub open spec fn consumed_prefix(new: Seq<RestingOrder>, prior: Seq<RestingOrder>) -> bool {
    exists|k: int|
        #![trigger head_reduced(new, prior, k)]
        #![trigger prior.subrange(k, prior.len() as int)]
        0 <= k <= prior.len() && (new == prior.skip(k) || head_reduced(new, prior, k))
}

/// The first `k` orders of `prior` are gone and the next one lost part of
/// its quantity, keeping its identity; the rest is untouched.
pub open spec fn head_reduced(new: Seq<RestingOrder>, prior: Seq<RestingOrder>, k: int) -> bool {
    &&& 0 <= k < prior.len()
    &&& new.len() == prior.len() - k
    &&& new[0].order_id == prior[k].order_id
    &&& new[0].owner == prior[k].owner
    &&& new[0].owner_slot == prior[k].owner_slot
    &&& 0 < new[0].qty < prior[k].qty
    &&& (forall|j: int| 1 <= j < new.len() ==> new[j] == prior[k + j])
}

pub struct OrderBook {
    pub bids: Vec<RestingOrder>,
    pub asks: Vec<RestingOrder>,
}

impl OrderBook {
    /// Both sides are well-formed under the market's lot sizes.
    pub open spec fn wf(self, coin_lot: u64, pc_lot: u64) -> bool {
        &&& side_wf(self.bids@, Side::Bid, coin_lot, pc_lot)
        &&& side_wf(self.asks@, Side::Ask, coin_lot, pc_lot)
    }

    /// An empty book.
    pub fn new() -> (r: OrderBook)
        ensures
            r.bids@.len() == 0,
            r.asks@.len() == 0,
    {
        OrderBook { bids: Vec::new(), asks: Vec::new() }
    }
}

/// Index of the order with the given id, if it rests on this side.  Ids on a
/// sorted side are unique, so the index is the only one.
fn find_order_index(v: &Vec<RestingOrder>, order_id: u128) -> (r: Option<usize>)
    ensures
        r is Some ==> r->0 < v.len() && v[r->0 as int].order_id == order_id,
        r is None ==> forall|i: int| 0 <= i < v.len() ==> v[i].order_id != order_id,
{
    let mut i: usize = 0;
    while i < v.len()
        invariant
            i <= v.len(),
            forall|j: int| 0 <= j < i ==> v[j].order_id != order_id,
        decreases v.len() - i,
    {
        if v[i].order_id == order_id {
            return Some(i);
        }
        i = i + 1;
    }
    None
}

/// Inserts a resting order into a side, preserving the strict id order.  The
/// id must be fresh on this side.
fn insert_resting(
    v: &mut Vec<RestingOrder>,
    o: RestingOrder,
    Ghost(side): Ghost<Side>,
    Ghost(coin_lot): Ghost<u64>,
    Ghost(pc_lot): Ghost<u64>,
)
    requires
        side_wf(old(v)@, side, coin_lot, pc_lot),
        valid_resting(o, side, coin_lot, pc_lot),
        forall|i: int| 0 <= i < old(v)@.len() ==> old(v)@[i].order_id != o.order_id,
        old(v)@.len() < usize::MAX,
    ensures
        side_wf(final(v)@, side, coin_lot, pc_lot),
        exists|k: int| 0 <= k <= old(v)@.len() && final(v)@ == old(v)@.insert(k, o),
{
    let mut i: usize = 0;
    while i < v.len() && v[i].order_id < o.order_id
        invariant
            v == old(v),
            i <= v.len(),
            forall|j: int| 0 <= j < i ==> v[j].order_id < o.order_id,
        decreases v.len() - i,
    {
        i = i + 1;
    }
    proof {
        if i < v.len() {
            assert(v@[i as int].order_id != o.order_id);
            assert(v@[i as int].order_id > o.order_id);
        }
    }
    v.insert(i, o);
    proof {
        let s = old(v)@;
        let t = v@;
        s.insert_ensures(i as int, o);
        assert forall|a: int, b: int| 0 <= a < b < t.len() implies (#[trigger] t[a]).order_id < (
        #[trigger] t[b]).order_id by {
            if b < i {
                assert(t[a] == s[a] && t[b] == s[b]);
            } else if b == i {
                assert(t[a] == s[a]);
            } else if a < i {
                assert(t[a] == s[a] && t[b] == s[b - 1]);
                if i < s.len() && a < b - 1 {
                    assert(s[a].order_id < s[b - 1].order_id);
                }
            } else if a == i {
                assert(t[b] == s[b - 1]);
                assert(b - 1 >= i);
                if b - 1 > i {
                    assert(s[i as int].order_id < s[b - 1].order_id);
                }
            } else {
                assert(t[a] == s[a - 1] && t[b] == s[b - 1]);
            }
        }
        assert forall|a: int| 0 <= a < t.len() implies valid_resting(
            #[trigger] t[a],
            side,
            coin_lot,
            pc_lot,
        ) by {
            if a < i {
                assert(t[a] == s[a]);
            } else if a > i {
                assert(t[a] == s[a - 1]);
            }
        }
    }
}

impl OrderBook {
    /// Index of the bid with the given id, if it rests on the bid side.
    pub fn find_bid_index(&self, order_id: u128) -> (r: Option<usize>)
        ensures
            r is Some ==> r->0 < self.bids@.len() && self.bids@[r->0 as int].order_id == order_id,
            r is None ==> forall|i: int|
                0 <= i < self.bids@.len() ==> self.bids@[i].order_id != order_id,
    {
        find_order_index(&self.bids, order_id)
    }

    /// Index of the ask with the given id, if it rests on the ask side.
    pub fn find_ask_index(&self, order_id: u128) -> (r: Option<usize>)
        ensures
            r is Some ==> r->0 < self.asks@.len() && self.asks@[r->0 as int].order_id == order_id,
            r is None ==> forall|i: int|
                0 <= i < self.asks@.len() ==> self.asks@[i].order_id != order_id,
    {
        find_order_index(&self.asks, order_id)
    }

    /// Removes the bid with the given id.  Fails with a not-found condition
    /// if no such bid rests, and with an ownership-mismatch condition if the
    /// resting bid is not owned by `expected_owner`; either failure leaves
    /// the book unchanged.  On success returns the quantity the order held.
    pub fn cancel_order_bid(&mut self, order_id: u128, expected_owner: u64) -> (r: Result<
        u64,
        ErrorCodeCustom,
    >)
        requires
            side_sorted(old(self).bids@),
        ensures
            final(self).asks == old(self).asks,
            r is Err ==> *final(self) == *old(self),
            r == Err::<u64, ErrorCodeCustom>(ErrorCodeCustom::OrderNotFound) <==> (forall|i: int|
                0 <= i < old(self).bids@.len() ==> old(self).bids@[i].order_id != order_id),
            r is Ok <==> exists|i: int|
                0 <= i < old(self).bids@.len() && (#[trigger] old(self).bids@[i]).order_id
                    == order_id && old(self).bids@[i].owner == expected_owner,
            r is Ok ==> exists|i: int|
                {
                    &&& 0 <= i < old(self).bids@.len()
                    &&& old(self).bids@[i].order_id == order_id
                    &&& old(self).bids@[i].owner == expected_owner
                    &&& r->Ok_0 == old(self).bids@[i].qty
                    &&& final(self).bids@ == old(self).bids@.remove(i)
                },
            r == Err::<u64, ErrorCodeCustom>(ErrorCodeCustom::InvalidAuthority) <==> exists|i: int|
                0 <= i < old(self).bids@.len() && (#[trigger] old(self).bids@[i]).order_id
                    == order_id && old(self).bids@[i].owner != expected_owner,
    {
        match find_order_index(&self.bids, order_id) {
            Option::None => Err(ErrorCodeCustom::OrderNotFound),
            Option::Some(i) => {
                proof {
                    let s = self.bids@;
                    assert forall|j: int|
                        0 <= j < s.len() && (#[trigger] s[j]).order_id == order_id implies j
                        == i as int by {
                        if j < i as int {
                            assert(s[j].order_id < s[i as int].order_id);
                        } else if j > i as int {
                            assert(s[i as int].order_id < s[j].order_id);
                        }
                    }
                }
                if self.bids[i].owner != expected_owner {
                    return Err(ErrorCodeCustom::InvalidAuthority);
                }
                let removed = self.bids.remove(i);
                Ok(removed.qty)
            },
        }
    }

    /// Removes the ask with the given id, as `cancel_order_bid` does for
    /// bids.
    pub fn cancel_order_ask(&mut self, order_id: u128, expected_owner: u64) -> (r: Result<
        u64,
        ErrorCodeCustom,
    >)
        requires
            side_sorted(old(self).asks@),
        ensures
            final(self).bids == old(self).bids,
            r is Err ==> *final(self) == *old(self),
            r == Err::<u64, ErrorCodeCustom>(ErrorCodeCustom::OrderNotFound) <==> (forall|i: int|
                0 <= i < old(self).asks@.len() ==> old(self).asks@[i].order_id != order_id),
            r is Ok <==> exists|i: int|
                0 <= i < old(self).asks@.len() && (#[trigger] old(self).asks@[i]).order_id
                    == order_id && old(self).asks@[i].owner == expected_owner,
            r is Ok ==> exists|i: int|
                {
                    &&& 0 <= i < old(self).asks@.len()
                    &&& old(self).asks@[i].order_id == order_id
                    &&& old(self).asks@[i].owner == expected_owner
                    &&& r->Ok_0 == old(self).asks@[i].qty
                    &&& final(self).asks@ == old(self).asks@.remove(i)
                },
            r == Err::<u64, ErrorCodeCustom>(ErrorCodeCustom::InvalidAuthority) <==> exists|i: int|
                0 <= i < old(self).asks@.len() && (#[trigger] old(self).asks@[i]).order_id
                    == order_id && old(self).asks@[i].owner != expected_owner,
    {
        match find_order_index(&self.asks, order_id) {
            Option::None => Err(ErrorCodeCustom::OrderNotFound),
            Option::Some(i) => {
                proof {
                    let s = self.asks@;
                    assert forall|j: int|
                        0 <= j < s.len() && (#[trigger] s[j]).order_id == order_id implies j
                        == i as int by {
                        if j < i as int {
                            assert(s[j].order_id < s[i as int].order_id);
                        } else if j > i as int {
                            assert(s[i as int].order_id < s[j].order_id);
                        }
                    }
                }
                if self.asks[i].owner != expected_owner {
                    return Err(ErrorCodeCustom::InvalidAuthority);
                }
                let removed = self.asks.remove(i);
                Ok(removed.qty)
            },
        }
    }
}

/// One counterparty whose matched leg needs a just-in-time transfer before
/// it can be finalized.
#[derive(Clone, Copy, Debug, PartialEq, Eq, Structural)]
pub struct JitStruct {
    pub owner: u64,
    pub owner_slot: u8,
    pub native_qty_paid: u64,
}

/// Summary of a processed order returned to the caller, in lot units for the
/// base asset and native units for the quote asset.
pub struct RequestProceeds {
    pub coin_unlocked: u64,
    pub native_pc_unlocked: u64,
    pub coin_credit: u64,
    pub native_pc_credit: u64,
    pub coin_debit: u64,
    pub native_pc_debit: u64,
    pub jit_data: Vec<JitStruct>,
}

impl RequestProceeds {
    /// All counters zero and no counterparties yet.
    pub fn new() -> (r: RequestProceeds)
        ensures
            r.coin_unlocked == 0 && r.native_pc_unlocked == 0 && r.coin_credit == 0
                && r.native_pc_credit == 0 && r.coin_debit == 0 && r.native_pc_debit == 0
                && r.jit_data@.len() == 0,
    {
        RequestProceeds {
            coin_unlocked: 0,
            native_pc_unlocked: 0,
            coin_credit: 0,
            native_pc_credit: 0,
            coin_debit: 0,
            native_pc_debit: 0,
            jit_data: Vec::new(),
        }
    }
}

/// An accepted order on its way into the matcher.
pub struct NewOrderRequest {
    pub side: Side,
    pub order_type: OrderType,
    pub order_id: u128,
    pub owner: u64,
    pub owner_slot: u8,
    pub max_coin_qty: u64,
    pub timestamp: u64,
}

/// The request's id carries its own side and a positive price, and the
/// order's full native value fits the balance width.
pub open spec fn valid_request(req: NewOrderRequest, coin_lot: u64, pc_lot: u64) -> bool {
    &&& spec_id_side(req.order_id) == req.side
    &&& 1 <= spec_id_price(req.order_id)
    &&& req.max_coin_qty * spec_id_price(req.order_id) * pc_lot <= u64::MAX
    &&& req.max_coin_qty * coin_lot <= u64::MAX
}

/// The side opposite to the given one.
pub open spec fn opposite(side: Side) -> Side {
    match side {
        Side::Bid => Side::Ask,
        Side::Ask => Side::Bid,
    }
}

/// The resting order that carries an unfilled remainder of a request.
pub open spec fn rested_order(req: NewOrderRequest, qty: u64) -> RestingOrder {
    RestingOrder { order_id: req.order_id, owner: req.owner, owner_slot: req.owner_slot, qty }
}

/// The native amounts one leg of a fill pays and receives when the taker of
/// the given side takes `q` base lots at the maker's price: the quote-for-
/// base exchange.  `paid` and `released` are the taker leg's own flows; the
/// maker leg's flows are these two swapped.
pub open spec fn fill_amounts(
    taker_side: Side,
    q: int,
    maker_price: int,
    coin_lot: u64,
    pc_lot: u64,
    paid: int,
    released: int,
) -> bool {
    match taker_side {
        Side::Bid => paid == q * maker_price * pc_lot && released == q * coin_lot,
        Side::Ask => paid == q * coin_lot && released == q * maker_price * pc_lot,
    }
}

/// The taker leg of one fill of this request: a pending, crossed record of
/// the incoming order, carrying its id, owner and slot, whose flows exchange
/// some `q` base lots for their quote value at the resting (maker) price
/// named by `order_id_second`.
pub open spec fn taker_leg_ok(e: Event, req: NewOrderRequest, coin_lot: u64, pc_lot: u64) -> bool {
    &&& e.finalised == SettleStatus::Pending
    &&& e.timestamp == req.timestamp
    &&& e.crossed()
    &&& e.order_id == req.order_id
    &&& e.side == req.side
    &&& !e.maker
    &&& e.owner == req.owner
    &&& e.owner_slot == req.owner_slot
    &&& exists|q: int| taker_fill_witness(e, req, coin_lot, pc_lot, q)
}

/// The incoming order filled `q` of its lots at the maker price this taker
/// leg records through `order_id_second`.
pub open spec fn taker_fill_witness(
    e: Event,
    req: NewOrderRequest,
    coin_lot: u64,
    pc_lot: u64,
    q: int,
) -> bool {
    &&& 1 <= q <= req.max_coin_qty
    &&& fill_amounts(
        req.side,
        q,
        spec_id_price(e.order_id_second),
        coin_lot,
        pc_lot,
        e.native_qty_paid as int,
        e.native_qty_released as int,
    )
}

/// The maker leg of one fill of this request: a pending, crossed record of a
/// resting order of the prior opposite side, carrying that order's id, owner
/// and ledger slot, for a fill of at most its remaining quantity at its own
/// price.
pub open spec fn maker_leg_ok(
    e: Event,
    req: NewOrderRequest,
    prior_opp: Seq<RestingOrder>,
    coin_lot: u64,
    pc_lot: u64,
) -> bool {
    &&& e.finalised == SettleStatus::Pending
    &&& e.timestamp == req.timestamp
    &&& e.crossed()
    &&& e.order_id_second == req.order_id
    &&& e.side == opposite(req.side)
    &&& e.maker
    &&& exists|x: int, q: int| maker_fill_witness(e, req, prior_opp, coin_lot, pc_lot, x, q)
}

/// The resting order at index `x` of the prior opposite side is the one this
/// maker leg records, filled for `q` of its lots.
pub open spec fn maker_fill_witness(
    e: Event,
    req: NewOrderRequest,
    prior_opp: Seq<RestingOrder>,
    coin_lot: u64,
    pc_lot: u64,
    x: int,
    q: int,
) -> bool {
    &&& 0 <= x < prior_opp.len()
    &&& prior_opp[x].order_id == e.order_id
    &&& prior_opp[x].owner == e.owner
    &&& prior_opp[x].owner_slot == e.owner_slot
    &&& 1 <= q <= prior_opp[x].qty
    &&& q <= req.max_coin_qty
    &&& fill_amounts(
        req.side,
        q,
        spec_id_price(e.order_id),
        coin_lot,
        pc_lot,
        e.native_qty_released as int,
        e.native_qty_paid as int,
    )
}

/// The two legs of one fill mirror each other: mutual order-id references,
/// opposite flows, one maker and one taker, written at the same time.
pub open spec fn mirrored_legs(m: Event, t: Event) -> bool {
    &&& m.order_id == t.order_id_second
    &&& m.order_id_second == t.order_id
    &&& m.native_qty_paid == t.native_qty_released
    &&& m.native_qty_released == t.native_qty_paid
    &&& m.timestamp == t.timestamp
    &&& m.maker
    &&& !t.maker
}

/// The matcher only fills free event slots: every record that was live
/// (pending) beforehand is untouched; every slot it did write holds one leg
/// of a fill of this request; and each written leg has its mirrored partner
/// leg written too, so fills come in mutually cross-referencing pairs.
pub open spec fn events_preserved(
    new: Seq<Option<Event>>,
    prior: Seq<Option<Event>>,
    req: NewOrderRequest,
    prior_opp: Seq<RestingOrder>,
    coin_lot: u64,
    pc_lot: u64,
) -> bool {
    &&& new.len() == prior.len()
    &&& (forall|i: int|
        0 <= i < prior.len() && !event_slot_free(prior, i) ==> #[trigger] new[i] == prior[i])
    &&& (forall|i: int|
        0 <= i < prior.len() && #[trigger] new[i] != prior[i] ==> new[i] is Some && (taker_leg_ok(
            new[i]->0,
            req,
            coin_lot,
            pc_lot,
        ) || maker_leg_ok(new[i]->0, req, prior_opp, coin_lot, pc_lot)))
    &&& (forall|i: int|
        0 <= i < prior.len() && #[trigger] new[i] != prior[i] ==> exists|j: int|
            {
                &&& 0 <= j < prior.len()
                &&& j != i
                &&& #[trigger] new[j] != prior[j]
                &&& new[j] is Some
                &&& if new[i]->0.maker {
                    mirrored_legs(new[i]->0, new[j]->0)
                } else {
                    mirrored_legs(new[j]->0, new[i]->0)
                }
            })
}

/// Total base lots resting on a side.
pub open spec fn side_qty_sum(s: Seq<RestingOrder>) -> int
    decreases s.len(),
{
    if s.len() == 0 {
        0
    } else {
        s[0].qty + side_qty_sum(s.skip(1))
    }
}

/// Peeling the order at `k` off a suffix: the suffix's total is that order's
/// quantity plus the next suffix's total.
proof fn lemma_qty_sum_skip(s: Seq<RestingOrder>, k: int)
    requires
        0 <= k < s.len(),
    ensures
        side_qty_sum(s.skip(k)) == s[k].qty + side_qty_sum(s.skip(k + 1)),
{
    let t = s.skip(k);
    assert(t[0] == s[k]);
    assert(t.skip(1) =~= s.skip(k + 1));
    assert(side_qty_sum(t) == t[0].qty + side_qty_sum(t.skip(1)));
}

/// Reducing the front order's quantity reduces the side's total by the same
/// amount.
proof fn lemma_qty_sum_head_update(s: Seq<RestingOrder>, o: RestingOrder)
    requires
        s.len() > 0,
    ensures
        side_qty_sum(s.update(0, o)) == side_qty_sum(s) - s[0].qty + o.qty,
{
    let t = s.update(0, o);
    assert(t[0] == o);
    assert(t.skip(1) =~= s.skip(1));
    assert(side_qty_sum(t) == t[0].qty + side_qty_sum(t.skip(1)));
    assert(side_qty_sum(s) == s[0].qty + side_qty_sum(s.skip(1)));
}

/// The request's limit price crosses the given resting price.
pub open spec fn price_crosses(side: Side, limit: int, resting: int) -> bool {
    match side {
        Side::Bid => resting <= limit,
        Side::Ask => resting >= limit,
    }
}

/// The quote value of the fill the matcher would execute next against the
/// front resting order.
pub open spec fn spec_next_fill_pc(front: RestingOrder, remaining: u64, pc_lot: u64) -> int {
    (if remaining < front.qty {
        remaining as int
    } else {
        front.qty as int
    }) * spec_id_price(front.order_id) * pc_lot
}

/// Matching ran until it genuinely could not continue.  With `queue_full`
/// the event log lacked the two free slots of the next fill; otherwise the
/// incoming quantity is exhausted, the opposite side is empty, its front
/// order no longer crosses the request's limit, or (taking quote in) the
/// quote-credit counter cannot take the next fill.
pub open spec fn match_stopped(
    req: NewOrderRequest,
    remaining: u64,
    opp: Seq<RestingOrder>,
    eqbuf: Seq<Option<Event>>,
    pc_credit: u64,
    pc_lot: u64,
    queue_full: bool,
) -> bool {
    if queue_full {
        !two_slots_free(eqbuf)
    } else {
        ||| remaining == 0
        ||| opp.len() == 0
        ||| !price_crosses(req.side, spec_id_price(req.order_id), spec_id_price(opp[0].order_id))
        ||| (req.side == Side::Ask && pc_credit + spec_next_fill_pc(opp[0], remaining, pc_lot)
            > u64::MAX)
    }
}

/// Multiplying by a larger first factor cannot shrink a triple product.
proof fn lemma_mul3_mono_first(q1: int, q2: int, p: int, l: int)
    requires
        0 <= q1 <= q2,
        0 <= p,
        0 <= l,
    ensures
        q1 * p * l <= q2 * p * l,
{
    assert(q1 * p * l <= q2 * p * l) by (nonlinear_arith)
        requires
            0 <= q1 <= q2,
            0 <= p,
            0 <= l,
    ;
}

/// Multiplying by a larger middle factor cannot shrink a triple product.
proof fn lemma_mul3_mono_mid(q: int, p1: int, p2: int, l: int)
    requires
        0 <= q,
        0 <= p1 <= p2,
        0 <= l,
    ensures
        q * p1 * l <= q * p2 * l,
{
    assert(q * p1 * l <= q * p2 * l) by (nonlinear_arith)
        requires
            0 <= q,
            0 <= p1 <= p2,
            0 <= l,
    ;
}

/// A double product is bounded by the triple product with a positive last
/// factor.
proof fn lemma_mul3_last_one(q: int, p: int, l: int)
    requires
        0 <= q,
        0 <= p,
        1 <= l,
    ensures
        q * p <= q * p * l,
{
    assert(q * p <= q * p * l) by (nonlinear_arith)
        requires
            0 <= q,
            0 <= p,
            1 <= l,
    ;
}

/// The triple product distributes over a sum in its first factor.
proof fn lemma_mul3_distrib(q1: int, q2: int, p: int, l: int)
    ensures
        (q1 + q2) * p * l == q1 * p * l + q2 * p * l,
{
    assert((q1 + q2) * p * l == q1 * p * l + q2 * p * l) by (nonlinear_arith);
}

/// The triple product distributes over a difference in its middle factor.
proof fn lemma_mul3_distrib_mid(q: int, p1: int, p2: int, l: int)
    ensures
        q * p1 * l + q * (p2 - p1) * l == q * p2 * l,
{
    assert(q * p1 * l + q * (p2 - p1) * l == q * p2 * l) by (nonlinear_arith);
}

/// A suffix of a well-formed side is well-formed.
pub proof fn lemma_side_wf_skip(s: Seq<RestingOrder>, k: int, side: Side, coin_lot: u64, pc_lot: u64)
    requires
        side_wf(s, side, coin_lot, pc_lot),
        0 <= k <= s.len(),
    ensures
        side_wf(s.skip(k), side, coin_lot, pc_lot),
{
    let t = s.skip(k);
    assert forall|a: int, b: int| 0 <= a < b < t.len() implies (#[trigger] t[a]).order_id < (
    #[trigger] t[b]).order_id by {
        assert(t[a] == s[k + a]);
        assert(t[b] == s[k + b]);
    }
    assert forall|a: int| 0 <= a < t.len() implies valid_resting(
        #[trigger] t[a],
        side,
        coin_lot,
        pc_lot,
    ) by {
        assert(t[a] == s[k + a]);
    }
}

/// Removal from a well-formed side keeps it well-formed.
pub proof fn lemma_side_wf_remove(
    s: Seq<RestingOrder>,
    i: int,
    side: Side,
    coin_lot: u64,
    pc_lot: u64,
)
    requires
        side_wf(s, side, coin_lot, pc_lot),
        0 <= i < s.len(),
    ensures
        side_wf(s.remove(i), side, coin_lot, pc_lot),
{
    let t = s.remove(i);
    assert forall|a: int, b: int| 0 <= a < b < t.len() implies (#[trigger] t[a]).order_id < (
    #[trigger] t[b]).order_id by {
        if b < i {
        } else if a < i {
            assert(t[b] == s[b + 1]);
        } else {
            assert(t[a] == s[a + 1] && t[b] == s[b + 1]);
        }
    }
    assert forall|a: int| 0 <= a < t.len() implies valid_resting(
        #[trigger] t[a],
        side,
        coin_lot,
        pc_lot,
    ) by {
        if a < i {
            assert(t[a] == s[a]);
        } else {
            assert(t[a] == s[a + 1]);
        }
    }
}


/// Walks the opposite side from its best price while the incoming order's
/// limit crosses the resting price.  Each fill takes the smaller of the two
/// remaining quantities at the resting (maker) price, writes one pending
/// event per leg into free slots of the log, and reduces or removes the
/// resting order.  Matching stops only when the price no longer crosses, the
/// incoming quantity is exhausted, the event log lacks two free slots
/// (reported in the returned flag), or the quote-credit counter would
/// overflow; the already-matched portion stands.
fn match_loop(
    opp: &mut Vec<RestingOrder>,
    req: &NewOrderRequest,
    coin_lot: u64,
    pc_lot: u64,
    event_q: &mut EventQueue,
    proceeds: &mut RequestProceeds,
) -> (res: (u64, bool))
    requires
        coin_lot >= 1,
        pc_lot >= 1,
        side_wf(old(opp)@, opposite(req.side), coin_lot, pc_lot),
        old(event_q).wf(),
        valid_request(*req, coin_lot, pc_lot),
        old(proceeds).coin_unlocked == 0,
        old(proceeds).native_pc_unlocked == 0,
        old(proceeds).coin_credit == 0,
        old(proceeds).native_pc_credit == 0,
        old(proceeds).coin_debit == 0,
        old(proceeds).native_pc_debit == 0,
    ensures
        side_wf(final(opp)@, opposite(req.side), coin_lot, pc_lot),
        consumed_prefix(final(opp)@, old(opp)@),
        final(event_q).wf(),
        events_preserved(
            final(event_q).buf@,
            old(event_q).buf@,
            *req,
            old(opp)@,
            coin_lot,
            pc_lot,
        ),
        res.0 <= req.max_coin_qty,
        side_qty_sum(old(opp)@) - side_qty_sum(final(opp)@) == req.max_coin_qty - res.0,
        match_stopped(
            *req,
            res.0,
            final(opp)@,
            final(event_q).buf@,
            final(proceeds).native_pc_credit,
            pc_lot,
            res.1,
        ),
        match req.side {
            Side::Bid => {
                &&& final(proceeds).coin_credit == req.max_coin_qty - res.0
                &&& final(proceeds).coin_debit == 0
                &&& final(proceeds).native_pc_credit == 0
                &&& final(proceeds).coin_unlocked == 0
                &&& final(proceeds).native_pc_debit + final(proceeds).native_pc_unlocked == (
                req.max_coin_qty - res.0) * spec_id_price(req.order_id) * pc_lot
            },
            Side::Ask => {
                &&& final(proceeds).coin_debit == req.max_coin_qty - res.0
                &&& final(proceeds).coin_credit == 0
                &&& final(proceeds).native_pc_debit == 0
                &&& final(proceeds).coin_unlocked == 0
                &&& final(proceeds).native_pc_unlocked == 0
                &&& final(proceeds).native_pc_credit >= (req.max_coin_qty - res.0)
                    * spec_id_price(req.order_id) * pc_lot
            },
        },
{
    let limit: u64 = price_from_order_id(req.order_id);
    let mut remaining: u64 = req.max_coin_qty;
    let mut done: bool = false;
    let mut queue_full: bool = false;
    let ghost mut consumed: int = 0;
    proof {
        assert(old(opp)@.skip(0) =~= old(opp)@);
        lemma_mul3_zero(spec_id_price(req.order_id), pc_lot as int);
    }
    while !done && remaining > 0 && opp.len() > 0
        invariant
            coin_lot >= 1,
            pc_lot >= 1,
            valid_request(*req, coin_lot, pc_lot),
            limit == spec_id_price(req.order_id),
            side_wf(old(opp)@, opposite(req.side), coin_lot, pc_lot),
            0 <= consumed <= old(opp)@.len(),
            !done ==> opp@ == old(opp)@.skip(consumed),
            done ==> (opp@ == old(opp)@.skip(consumed) || head_reduced(opp@, old(opp)@, consumed)),
            side_wf(opp@, opposite(req.side), coin_lot, pc_lot),
            event_q.wf(),
            events_preserved(
                event_q.buf@,
                old(event_q).buf@,
                *req,
                old(opp)@,
                coin_lot,
                pc_lot,
            ),
            remaining <= req.max_coin_qty,
            side_qty_sum(old(opp)@) - side_qty_sum(opp@) == req.max_coin_qty - remaining,
            queue_full ==> done,
            queue_full ==> !two_slots_free(event_q.buf@),
            (done && !queue_full) ==> (remaining == 0 || opp@.len() == 0 || !price_crosses(
                req.side,
                spec_id_price(req.order_id),
                spec_id_price(opp@[0].order_id),
            ) || (req.side == Side::Ask && proceeds.native_pc_credit + spec_next_fill_pc(
                opp@[0],
                remaining,
                pc_lot,
            ) > u64::MAX)),
            match req.side {
                Side::Bid => {
                    &&& proceeds.coin_credit == req.max_coin_qty - remaining
                    &&& proceeds.coin_debit == 0
                    &&& proceeds.native_pc_credit == 0
                    &&& proceeds.coin_unlocked == 0
                    &&& proceeds.native_pc_debit + proceeds.native_pc_unlocked == (req.max_coin_qty
                        - remaining) * spec_id_price(req.order_id) * pc_lot
                },
                Side::Ask => {
                    &&& proceeds.coin_debit == req.max_coin_qty - remaining
                    &&& proceeds.coin_credit == 0
                    &&& proceeds.native_pc_debit == 0
                    &&& proceeds.coin_unlocked == 0
                    &&& proceeds.native_pc_unlocked == 0
                    &&& proceeds.native_pc_credit >= (req.max_coin_qty - remaining)
                        * spec_id_price(req.order_id) * pc_lot
                },
            },
        decreases opp.len(), remaining, (if done { 0int } else { 1int }),
    {
        let best: RestingOrder = opp[0];
        proof {
            assert(opp@[0] == old(opp)@.skip(consumed)[0]);
            assert(valid_resting(best, opposite(req.side), coin_lot, pc_lot));
        }
        let p: u64 = price_from_order_id(best.order_id);
        let crosses: bool = match req.side {
            Side::Bid => p <= limit,
            Side::Ask => p >= limit,
        };
        if !crosses {
            done = true;
        } else {
            match event_q.two_free_slots() {
                Option::None => {
                    queue_full = true;
                    done = true;
                },
                Option::Some((slot1, slot2)) => {
                    let q: u64 = if remaining < best.qty {
                        remaining
                    } else {
                        best.qty
                    };
                    proof {
                        let pi = spec_id_price(best.order_id) as int;
                        let li = spec_id_price(req.order_id) as int;
                        lemma_mul3_mono_first(q as int, best.qty as int, pi, pc_lot as int);
                        lemma_mul3_last_one(q as int, pi, pc_lot as int);
                        lemma_mul_mono(q as int, best.qty as int, coin_lot as int);
                        // the fill, valued at the request's own limit, stays within the
                        // request's total value bound
                        lemma_mul3_mono_first(q as int, req.max_coin_qty as int, li, pc_lot as int);
                        lemma_mul3_mono_first(
                            (req.max_coin_qty - remaining) as int,
                            req.max_coin_qty as int,
                            li,
                            pc_lot as int,
                        );
                        lemma_mul3_distrib(
                            (req.max_coin_qty - remaining) as int,
                            q as int,
                            li,
                            pc_lot as int,
                        );
                        lemma_mul3_mono_first(
                            req.max_coin_qty - remaining + q,
                            req.max_coin_qty as int,
                            li,
                            pc_lot as int,
                        );
                        if limit >= p {
                            lemma_mul3_mono_mid(q as int, pi, li, pc_lot as int);
                            lemma_mul3_last_one(q as int, (li - pi) as int, pc_lot as int);
                            lemma_mul3_mono_mid(q as int, (li - pi) as int, li, pc_lot as int);
                        } else {
                            lemma_mul3_mono_mid(q as int, li, pi, pc_lot as int);
                        }
                    }
                    let pc_native: u64 = q * p * pc_lot;
                    let coin_native: u64 = q * coin_lot;
                    let fits: bool = match req.side {
                        Side::Bid => true,
                        Side::Ask => pc_native <= u64::MAX - proceeds.native_pc_credit,
                    };
                    if !fits {
                        done = true;
                    } else {
                        let maker_ev = Event {
                            order_id: best.order_id,
                            order_id_second: req.order_id,
                            owner: best.owner,
                            owner_slot: best.owner_slot,
                            native_qty_paid: match req.side {
                                Side::Bid => coin_native,
                                Side::Ask => pc_native,
                            },
                            native_qty_released: match req.side {
                                Side::Bid => pc_native,
                                Side::Ask => coin_native,
                            },
                            timestamp: req.timestamp,
                            finalised: SettleStatus::Pending,
                            side: match req.side {
                                Side::Bid => Side::Ask,
                                Side::Ask => Side::Bid,
                            },
                            maker: true,
                        };
                        let taker_ev = Event {
                            order_id: req.order_id,
                            order_id_second: best.order_id,
                            owner: req.owner,
                            owner_slot: req.owner_slot,
                            native_qty_paid: match req.side {
                                Side::Bid => pc_native,
                                Side::Ask => coin_native,
                            },
                            native_qty_released: match req.side {
                                Side::Bid => coin_native,
                                Side::Ask => pc_native,
                            },
                            timestamp: req.timestamp,
                            finalised: SettleStatus::Pending,
                            side: req.side,
                            maker: false,
                        };
                        let ghost eq_before = event_q.buf@;
                        event_q.set_event(slot1, maker_ev);
                        event_q.set_event(slot2, taker_ev);
                        proof {
                            assert(old(opp)@[consumed] == best);
                            assert(taker_ev.order_id_second == best.order_id);
                            assert(taker_fill_witness(taker_ev, *req, coin_lot, pc_lot, q as int));
                            assert(taker_leg_ok(taker_ev, *req, coin_lot, pc_lot));
                            assert(maker_fill_witness(
                                maker_ev,
                                *req,
                                old(opp)@,
                                coin_lot,
                                pc_lot,
                                consumed,
                                q as int,
                            ));
                            assert(maker_leg_ok(maker_ev, *req, old(opp)@, coin_lot, pc_lot));
                            lemma_fill_pair_preserved(
                                event_q.buf@,
                                eq_before,
                                old(event_q).buf@,
                                *req,
                                old(opp)@,
                                coin_lot,
                                pc_lot,
                                slot1 as int,
                                slot2 as int,
                                maker_ev,
                                taker_ev,
                            );
                        }
                        proceeds.jit_data.push(
                            JitStruct {
                                owner: best.owner,
                                owner_slot: best.owner_slot,
                                native_qty_paid: maker_ev.native_qty_paid,
                            },
                        );
                        match req.side {
                            Side::Bid => {
                                proceeds.coin_credit = proceeds.coin_credit + q;
                                proceeds.native_pc_debit = proceeds.native_pc_debit + pc_native;
                                let unlock_native: u64 = q * (limit - p) * pc_lot;
                                proceeds.native_pc_unlocked = proceeds.native_pc_unlocked
                                    + unlock_native;
                                proof {
                                    lemma_mul3_distrib_mid(
                                        q as int,
                                        p as int,
                                        limit as int,
                                        pc_lot as int,
                                    );
                                }
                            },
                            Side::Ask => {
                                proceeds.coin_debit = proceeds.coin_debit + q;
                                proceeds.native_pc_credit = proceeds.native_pc_credit + pc_native;
                            },
                        }
                        if q == best.qty {
                            proof {
                                lemma_qty_sum_skip(old(opp)@, consumed);
                            }
                            let _ = opp.remove(0);
                            proof {
                                let prior = old(opp)@;
                                consumed = consumed + 1;
                                assert(opp@ =~= prior.skip(consumed));
                                lemma_side_wf_skip(
                                    prior,
                                    consumed,
                                    opposite(req.side),
                                    coin_lot,
                                    pc_lot,
                                );
                            }
                        } else {
                            let new_qty: u64 = best.qty - q;
                            let mut updated = best;
                            updated.qty = new_qty;
                            let ghost before = opp@;
                            opp[0] = updated;
                            done = true;
                            proof {
                                lemma_qty_sum_head_update(before, updated);
                                let prior = old(opp)@;
                                assert(opp@ == before.update(0, updated));
                                assert(head_reduced(opp@, prior, consumed));
                                assert forall|a: int, b: int|
                                    0 <= a < b < opp@.len() implies (
                                #[trigger] opp@[a]).order_id < (#[trigger] opp@[b]).order_id by {
                                    assert(before[a].order_id == opp@[a].order_id);
                                    assert(before[b].order_id == opp@[b].order_id);
                                }
                                assert forall|a: int| 0 <= a < opp@.len() implies valid_resting(
                                    #[trigger] opp@[a],
                                    opposite(req.side),
                                    coin_lot,
                                    pc_lot,
                                ) by {
                                    if a > 0 {
                                        assert(opp@[a] == before[a]);
                                    } else {
                                        lemma_mul3_mono_first(
                                            new_qty as int,
                                            best.qty as int,
                                            spec_id_price(best.order_id) as int,
                                            pc_lot as int,
                                        );
                                        lemma_mul_mono(
                                            new_qty as int,
                                            best.qty as int,
                                            coin_lot as int,
                                        );
                                    }
                                }
                            }
                        }
                        remaining = remaining - q;
                    }
                },
            }
        }
    }
    proof {
        let prior = old(opp)@;
        let cur = opp@;
        assert(0 <= consumed <= prior.len());
        if cur == prior.skip(consumed) {
            assert(consumed_prefix(cur, prior)) by {
                assert(0 <= consumed <= prior.len() && (cur == prior.skip(consumed)
                    || head_reduced(cur, prior, consumed)));
            }
        } else {
            assert(head_reduced(cur, prior, consumed));
            assert(consumed_prefix(cur, prior)) by {
                assert(0 <= consumed <= prior.len() && (cur == prior.skip(consumed)
                    || head_reduced(cur, prior, consumed)));
            }
        }
    }
    (remaining, queue_full)
}

/// One fill's pair of event writes preserves the log relation: the two
/// freshly written slots hold the mirrored maker and taker legs, every other
/// slot is as before, and each previously written leg keeps its partner
/// because pending records never count as free slots.
proof fn lemma_fill_pair_preserved(
    newbuf: Seq<Option<Event>>,
    mid: Seq<Option<Event>>,
    oldbuf: Seq<Option<Event>>,
    req: NewOrderRequest,
    prior_opp: Seq<RestingOrder>,
    coin_lot: u64,
    pc_lot: u64,
    slot1: int,
    slot2: int,
    maker_ev: Event,
    taker_ev: Event,
)
    requires
        events_preserved(mid, oldbuf, req, prior_opp, coin_lot, pc_lot),
        mid.len() == EVENT_CAPACITY,
        0 <= slot1 < EVENT_CAPACITY,
        0 <= slot2 < EVENT_CAPACITY,
        slot1 != slot2,
        event_slot_free(mid, slot1),
        event_slot_free(mid, slot2),
        newbuf == mid.update(slot1, Some(maker_ev)).update(slot2, Some(taker_ev)),
        maker_leg_ok(maker_ev, req, prior_opp, coin_lot, pc_lot),
        taker_leg_ok(taker_ev, req, coin_lot, pc_lot),
        mirrored_legs(maker_ev, taker_ev),
    ensures
        events_preserved(newbuf, oldbuf, req, prior_opp, coin_lot, pc_lot),
{
    assert forall|i: int|
        0 <= i < oldbuf.len() && !event_slot_free(oldbuf, i) implies #[trigger] newbuf[i]
        == oldbuf[i] by {
        assert(mid[i] == oldbuf[i]);
        assert(!event_slot_free(mid, i));
        assert(i != slot1 && i != slot2);
    }
    assert(newbuf[slot1] != oldbuf[slot1]) by {
        if newbuf[slot1] == oldbuf[slot1] {
            assert(!event_slot_free(oldbuf, slot1));
            assert(mid[slot1] == oldbuf[slot1]);
            assert(!event_slot_free(mid, slot1));
        }
    }
    assert(newbuf[slot2] != oldbuf[slot2]) by {
        if newbuf[slot2] == oldbuf[slot2] {
            assert(!event_slot_free(oldbuf, slot2));
            assert(mid[slot2] == oldbuf[slot2]);
            assert(!event_slot_free(mid, slot2));
        }
    }
    assert forall|i: int|
        0 <= i < oldbuf.len() && #[trigger] newbuf[i] != oldbuf[i] implies newbuf[i] is Some && (
    taker_leg_ok(newbuf[i]->0, req, coin_lot, pc_lot) || maker_leg_ok(
        newbuf[i]->0,
        req,
        prior_opp,
        coin_lot,
        pc_lot,
    )) by {
        if i != slot1 && i != slot2 {
            assert(newbuf[i] == mid[i]);
        }
    }
    assert forall|i: int|
        0 <= i < oldbuf.len() && #[trigger] newbuf[i] != oldbuf[i] implies exists|j: int|
            {
                &&& 0 <= j < oldbuf.len()
                &&& j != i
                &&& #[trigger] newbuf[j] != oldbuf[j]
                &&& newbuf[j] is Some
                &&& if newbuf[i]->0.maker {
                    mirrored_legs(newbuf[i]->0, newbuf[j]->0)
                } else {
                    mirrored_legs(newbuf[j]->0, newbuf[i]->0)
                }
            } by {
        if i == slot1 {
            assert(0 <= slot2 < oldbuf.len() && slot2 != i && newbuf[slot2] != oldbuf[slot2]
                && newbuf[slot2] is Some && mirrored_legs(newbuf[i]->0, newbuf[slot2]->0));
        } else if i == slot2 {
            assert(0 <= slot1 < oldbuf.len() && slot1 != i && newbuf[slot1] != oldbuf[slot1]
                && newbuf[slot1] is Some && mirrored_legs(newbuf[slot1]->0, newbuf[i]->0));
        } else {
            assert(newbuf[i] == mid[i]);
            assert(mid[i] != oldbuf[i]);
            let j = choose|j: int|
                {
                    &&& 0 <= j < oldbuf.len()
                    &&& j != i
                    &&& #[trigger] mid[j] != oldbuf[j]
                    &&& mid[j] is Some
                    &&& if mid[i]->0.maker {
                        mirrored_legs(mid[i]->0, mid[j]->0)
                    } else {
                        mirrored_legs(mid[j]->0, mid[i]->0)
                    }
                };
            // the partner is a pending leg, so its slot is not free and the
            // new writes did not land on it
            assert(taker_leg_ok(mid[j]->0, req, coin_lot, pc_lot) || maker_leg_ok(
                mid[j]->0,
                req,
                prior_opp,
                coin_lot,
                pc_lot,
            ));
            assert(mid[j]->0.finalised == SettleStatus::Pending);
            assert(!event_slot_free(mid, j));
            assert(j != slot1 && j != slot2);
            assert(newbuf[j] == mid[j]);
            assert(0 <= j < oldbuf.len() && j != i && newbuf[j] != oldbuf[j] && newbuf[j] is Some
                && if newbuf[i]->0.maker {
                mirrored_legs(newbuf[i]->0, newbuf[j]->0)
            } else {
                mirrored_legs(newbuf[j]->0, newbuf[i]->0)
            });
        }
    }
}

/// A triple product with a zero first factor is zero.
proof fn lemma_mul3_zero(p: int, l: int)
    ensures
        0 * p * l == 0,
{
    assert(0 * p * l == 0) by (nonlinear_arith);
}

/// Multiplying by a larger factor cannot shrink a product.
proof fn lemma_mul_mono(a: int, b: int, c: int)
    requires
        0 <= a <= b,
        0 <= c,
    ensures
        a * c <= b * c,
{
    assert(a * c <= b * c) by (nonlinear_arith)
        requires
            0 <= a <= b,
            0 <= c,
    ;
}

impl OrderBook {
    /// Processes an accepted order: matches it against the opposite side by
    /// price-time priority until nothing more can fill, and rests any
    /// unfilled remainder of a limit order on its own side (an immediate-or-
    /// cancel order discards it and reports the discarded quantity as
    /// unlocked).  Returns the unfilled remainder in base lots and whether
    /// matching stopped because the event log lacked the two free slots of
    /// the next fill.  The request's id must be fresh on its own side, which
    /// the sequence generator guarantees.
    pub fn process_request(
        &mut self,
        market: &Market,
        req: &NewOrderRequest,
        event_q: &mut EventQueue,
        proceeds: &mut RequestProceeds,
    ) -> (res: (u64, bool))
        requires
            market.wf(),
            old(self).wf(market.coin_lot_size, market.pc_lot_size),
            old(event_q).wf(),
            valid_request(*req, market.coin_lot_size, market.pc_lot_size),
            match req.side {
                Side::Bid => forall|i: int|
                    0 <= i < old(self).bids@.len() ==> old(self).bids@[i].order_id != req.order_id,
                Side::Ask => forall|i: int|
                    0 <= i < old(self).asks@.len() ==> old(self).asks@[i].order_id != req.order_id,
            },
            old(self).bids@.len() < usize::MAX,
            old(self).asks@.len() < usize::MAX,
            old(proceeds).coin_unlocked == 0,
            old(proceeds).native_pc_unlocked == 0,
            old(proceeds).coin_credit == 0,
            old(proceeds).native_pc_credit == 0,
            old(proceeds).coin_debit == 0,
            old(proceeds).native_pc_debit == 0,
        ensures
            final(self).wf(market.coin_lot_size, market.pc_lot_size),
            final(event_q).wf(),
            res.0 <= req.max_coin_qty,
            match req.side {
                Side::Bid => {
                    &&& events_preserved(
                        final(event_q).buf@,
                        old(event_q).buf@,
                        *req,
                        old(self).asks@,
                        market.coin_lot_size,
                        market.pc_lot_size,
                    )
                    &&& match_stopped(
                        *req,
                        res.0,
                        final(self).asks@,
                        final(event_q).buf@,
                        final(proceeds).native_pc_credit,
                        market.pc_lot_size,
                        res.1,
                    )
                    &&& consumed_prefix(final(self).asks@, old(self).asks@)
                    &&& side_qty_sum(old(self).asks@) - side_qty_sum(final(self).asks@)
                        == req.max_coin_qty - res.0
                    &&& ((res.0 == 0 || req.order_type == OrderType::ImmediateOrCancel)
                        ==> final(self).bids@ == old(self).bids@)
                    &&& ((res.0 > 0 && req.order_type == OrderType::Limit) ==> exists|k: int|
                        0 <= k <= old(self).bids@.len() && final(self).bids@ == old(
                            self,
                        ).bids@.insert(k, rested_order(*req, res.0)))
                },
                Side::Ask => {
                    &&& events_preserved(
                        final(event_q).buf@,
                        old(event_q).buf@,
                        *req,
                        old(self).bids@,
                        market.coin_lot_size,
                        market.pc_lot_size,
                    )
                    &&& match_stopped(
                        *req,
                        res.0,
                        final(self).bids@,
                        final(event_q).buf@,
                        final(proceeds).native_pc_credit,
                        market.pc_lot_size,
                        res.1,
                    )
                    &&& consumed_prefix(final(self).bids@, old(self).bids@)
                    &&& side_qty_sum(old(self).bids@) - side_qty_sum(final(self).bids@)
                        == req.max_coin_qty - res.0
                    &&& ((res.0 == 0 || req.order_type == OrderType::ImmediateOrCancel)
                        ==> final(self).asks@ == old(self).asks@)
                    &&& ((res.0 > 0 && req.order_type == OrderType::Limit) ==> exists|k: int|
                        0 <= k <= old(self).asks@.len() && final(self).asks@ == old(
                            self,
                        ).asks@.insert(k, rested_order(*req, res.0)))
                },
            },
            match req.side {
                Side::Bid => {
                    &&& final(proceeds).coin_credit == req.max_coin_qty - res.0
                    &&& final(proceeds).coin_debit == 0
                    &&& final(proceeds).native_pc_credit == 0
                    &&& final(proceeds).coin_unlocked == 0
                    &&& final(proceeds).native_pc_debit + final(proceeds).native_pc_unlocked == (
                    match req.order_type {
                        OrderType::Limit => req.max_coin_qty - res.0,
                        OrderType::ImmediateOrCancel => req.max_coin_qty as int,
                    }) * spec_id_price(req.order_id) * market.pc_lot_size
                },
                Side::Ask => {
                    &&& final(proceeds).coin_debit == req.max_coin_qty - res.0
                    &&& final(proceeds).coin_credit == 0
                    &&& final(proceeds).native_pc_debit == 0
                    &&& final(proceeds).coin_unlocked == (match req.order_type {
                        OrderType::Limit => 0int,
                        OrderType::ImmediateOrCancel => res.0 as int,
                    })
                    &&& final(proceeds).native_pc_unlocked == 0
                    &&& final(proceeds).native_pc_credit >= (req.max_coin_qty - res.0)
                        * spec_id_price(req.order_id) * market.pc_lot_size
                },
            },
    {
        let matched: (u64, bool) = match req.side {
            Side::Bid => match_loop(
                &mut self.asks,
                req,
                market.coin_lot_size,
                market.pc_lot_size,
                event_q,
                proceeds,
            ),
            Side::Ask => match_loop(
                &mut self.bids,
                req,
                market.coin_lot_size,
                market.pc_lot_size,
                event_q,
                proceeds,
            ),
        };
        let remaining: u64 = matched.0;
        let queue_full: bool = matched.1;
        if remaining > 0 {
            match req.order_type {
                OrderType::Limit => {
                    let rest = RestingOrder {
                        order_id: req.order_id,
                        owner: req.owner,
                        owner_slot: req.owner_slot,
                        qty: remaining,
                    };
                    proof {
                        lemma_mul3_mono_first(
                            remaining as int,
                            req.max_coin_qty as int,
                            spec_id_price(req.order_id) as int,
                            market.pc_lot_size as int,
                        );
                        lemma_mul_mono(
                            remaining as int,
                            req.max_coin_qty as int,
                            market.coin_lot_size as int,
                        );
                    }
                    match req.side {
                        Side::Bid => {
                            let ghost prior = self.bids@;
                            insert_resting(
                                &mut self.bids,
                                rest,
                                Ghost(Side::Bid),
                                Ghost(market.coin_lot_size),
                                Ghost(market.pc_lot_size),
                            );
                            proof {
                                assert(rest == rested_order(*req, remaining));
                                let k = choose|k: int|
                                    0 <= k <= prior.len() && self.bids@ == prior.insert(k, rest);
                                assert(self.bids@ == prior.insert(
                                    k,
                                    rested_order(*req, remaining),
                                ));
                                assert(exists|k: int|
                                    0 <= k <= prior.len() && self.bids@ == prior.insert(
                                        k,
                                        rested_order(*req, remaining),
                                    ));
                            }
                        },
                        Side::Ask => {
                            let ghost prior = self.asks@;
                            insert_resting(
                                &mut self.asks,
                                rest,
                                Ghost(Side::Ask),
                                Ghost(market.coin_lot_size),
                                Ghost(market.pc_lot_size),
                            );
                            proof {
                                assert(rest == rested_order(*req, remaining));
                                let k = choose|k: int|
                                    0 <= k <= prior.len() && self.asks@ == prior.insert(k, rest);
                                assert(self.asks@ == prior.insert(
                                    k,
                                    rested_order(*req, remaining),
                                ));
                                assert(exists|k: int|
                                    0 <= k <= prior.len() && self.asks@ == prior.insert(
                                        k,
                                        rested_order(*req, remaining),
                                    ));
                            }
                        },
                    }
                },
                OrderType::ImmediateOrCancel => {
                    // the discarded remainder's margin is no longer needed:
                    // report it as unlocked for the caller to release
                    match req.side {
                        Side::Bid => {
                            let limit: u64 = price_from_order_id(req.order_id);
                            proof {
                                let li = spec_id_price(req.order_id) as int;
                                let pl = market.pc_lot_size as int;
                                lemma_mul3_mono_first(
                                    remaining as int,
                                    req.max_coin_qty as int,
                                    li,
                                    pl,
                                );
                                lemma_mul3_last_one(remaining as int, li, pl);
                                lemma_mul3_distrib(
                                    (req.max_coin_qty - remaining) as int,
                                    remaining as int,
                                    li,
                                    pl,
                                );
                            }
                            let extra: u64 = remaining * limit * market.pc_lot_size;
                            proceeds.native_pc_unlocked = proceeds.native_pc_unlocked + extra;
                        },
                        Side::Ask => {
                            proceeds.coin_unlocked = remaining;
                        },
                    }
                },
            }
        }
        (remaining, queue_full)
    }
}

} // verus!
