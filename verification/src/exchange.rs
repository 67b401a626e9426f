//! Public entry points of the exchange core: order placement, cancellation,
//! and the free-balance deposit/withdraw hooks.
//!
//! Custody is a collaborator, not part of the core: every function here only
//! computes and mutates the core's own records.  `new_order` returns the
//! amounts the caller must have approved and transferred as margin through
//! the custody service; the deposit and withdraw hooks record a transfer the
//! caller has already carried out.

use crate::book::{
    consumed_prefix, events_preserved, head_reduced, match_stopped, rested_order, side_qty_sum,
    valid_request, NewOrderRequest, OrderBook, RequestProceeds, RestingOrder,
};
use crate::errors::ErrorCodeCustom;
use crate::events::EventQueue;
use crate::ledger::{slot_bit_free, OpenOrders, ALL_SLOTS_FREE, MAX_OPEN_ORDERS};
use crate::market::Market;
use crate::orders::{
    lemma_order_id_nonzero, lemma_order_id_round_trip, price_from_order_id, spec_id_price,
    spec_id_seq, spec_id_side, spec_order_id, OrderType, RequestQueue, Side, SEQ_LIMIT,
};
use vstd::prelude::*;

verus! {

/// Every resting order on this side was issued a sequence number below the
/// bound, so an id carrying the bound itself is fresh.
pub open spec fn book_seqs_below(s: Seq<RestingOrder>, bound: u64) -> bool {
    forall|i: int| 0 <= i < s.len() ==> spec_id_seq((#[trigger] s[i]).order_id) < bound
}

/// The native quantity an order commits: the quote limit for a bid, the base
/// quantity for an ask, in native units.
pub open spec fn spec_lock_qty(
    side: Side,
    max_coin_qty: u64,
    max_native_pc_qty: u64,
    coin_lot: u64,
    pc_lot: u64,
) -> int {
    match side {
        Side::Bid => max_native_pc_qty * pc_lot,
        Side::Ask => max_coin_qty * coin_lot,
    }
}

/// How much of the committed quantity the trader's free balance covers.
pub open spec fn spec_free_to_lock(lock_qty: int, free: int) -> int {
    if lock_qty <= free {
        lock_qty
    } else {
        free
    }
}

/// The part of the committed quantity not covered by the free balance: the
/// caller must get this amount approved through the custody service.
pub open spec fn spec_deposit(lock_qty: int, free: int) -> int {
    lock_qty - spec_free_to_lock(lock_qty, free)
}

/// The free balance the order placement may lock, by side; zero for an entry
/// that is only being initialized by this very call.
pub open spec fn spec_side_free(oo: OpenOrders, side: Side) -> int {
    if oo.is_initialized {
        match side {
            Side::Bid => oo.native_pc_free as int,
            Side::Ask => oo.native_coin_free as int,
        }
    } else {
        0
    }
}

/// The part of the locked free balance an immediate-or-cancel order gives
/// back: everything beyond what its executed fills will pay at settlement.
pub open spec fn spec_ioc_release(locked: int, spent: int) -> int {
    if locked > spent {
        locked - spent
    } else {
        0
    }
}

/// Every condition under which `new_order` accepts the order.
pub open spec fn new_order_accepts(
    market: Market,
    req_q: RequestQueue,
    oo: OpenOrders,
    authority: u64,
    side: Side,
    limit_price: u64,
    max_coin_qty: u64,
    max_native_pc_qty: u64,
) -> bool {
    let lock_qty = spec_lock_qty(
        side,
        max_coin_qty,
        max_native_pc_qty,
        market.coin_lot_size,
        market.pc_lot_size,
    );
    let deposit = spec_deposit(lock_qty, spec_side_free(oo, side));
    &&& 1 <= limit_price
    &&& lock_qty <= u64::MAX
    &&& max_coin_qty * limit_price * market.pc_lot_size <= u64::MAX
    &&& max_coin_qty * market.coin_lot_size <= u64::MAX
    &&& (oo.is_initialized ==> oo.market == market.key && oo.authority == authority)
    &&& (oo.is_initialized ==> exists|i: int|
        0 <= i < MAX_OPEN_ORDERS && slot_bit_free(oo.free_slot_bits, i))
    &&& req_q.next_seq < SEQ_LIMIT - 1
    &&& (match side {
        Side::Bid => market.pc_deposits_total + deposit <= u64::MAX,
        Side::Ask => market.coin_deposits_total + deposit <= u64::MAX,
    })
}

/// What an accepted order returns: its id and ledger slot, the unfilled
/// remainder in base lots, the native amount the caller must get approved
/// through custody, the one-percent margin of it the caller must transfer
/// (and then record with `credit_locked_pc` or `credit_locked_coin`), and
/// the match proceeds.
pub struct OrderOutcome {
    pub order_id: u128,
    pub owner_slot: u8,
    pub remaining_qty: u64,
    pub deposit_amount: u64,
    pub margin_amount: u64,
    /// Matching stopped because the event log lacked the two free slots of
    /// the next fill; the already-matched portion stands.
    pub queue_full: bool,
    pub proceeds: RequestProceeds,
}

/// A product of two values that fit in 64 bits fits in 128 bits.
proof fn lemma_mul_fits_u128(a: int, b: int)
    requires
        0 <= a <= u64::MAX,
        0 <= b <= u64::MAX,
    ensures
        0 <= a * b <= u128::MAX,
{
    assert(0 <= a * b && a * b <= 0xFFFF_FFFF_FFFF_FFFF * 0xFFFF_FFFF_FFFF_FFFF)
        by (nonlinear_arith)
        requires
            0 <= a <= 0xFFFF_FFFF_FFFF_FFFF,
            0 <= b <= 0xFFFF_FFFF_FFFF_FFFF,
    ;
}

/// Multiplying by a larger factor cannot shrink a product.
proof fn lemma_mul_mono(a: int, b: int, c: int)
    requires
        0 <= a <= b,
        0 <= c,
    ensures
        a * c <= b * c,
{
    assert(a * c <= b * c) by (nonlinear_arith)
        requires
            0 <= a <= b,
            0 <= c,
    ;
}

/// A product cannot shrink when multiplied by a positive factor.
proof fn lemma_mul_ge(a: int, l: int)
    requires
        0 <= a,
        1 <= l,
    ensures
        a <= a * l,
{
    assert(a <= a * l) by (nonlinear_arith)
        requires
            0 <= a,
            1 <= l,
    ;
}

/// A consumed or head-reduced side keeps any sequence bound.
proof fn lemma_seqs_below_consumed(
    new: Seq<RestingOrder>,
    prior: Seq<RestingOrder>,
    b1: u64,
    b2: u64,
)
    requires
        consumed_prefix(new, prior),
        book_seqs_below(prior, b1),
        b1 <= b2,
    ensures
        book_seqs_below(new, b2),
{
    let k = choose|k: int|
        #![trigger head_reduced(new, prior, k)]
        #![trigger prior.subrange(k, prior.len() as int)]
        0 <= k <= prior.len() && (new == prior.skip(k) || head_reduced(new, prior, k));
    assert forall|i: int| 0 <= i < new.len() implies spec_id_seq((#[trigger] new[i]).order_id)
        < b2 by {
        if new == prior.skip(k) {
            assert(new[i] == prior[k + i]);
            assert(spec_id_seq(prior[k + i].order_id) < b1);
        } else {
            if i == 0 {
                assert(new[0].order_id == prior[k].order_id);
                assert(spec_id_seq(prior[k].order_id) < b1);
            } else {
                assert(new[i] == prior[k + i]);
                assert(spec_id_seq(prior[k + i].order_id) < b1);
            }
        }
    }
}

/// Inserting an order whose sequence is below the bound keeps the bound.
proof fn lemma_seqs_below_insert(
    new: Seq<RestingOrder>,
    prior: Seq<RestingOrder>,
    o: RestingOrder,
    k: int,
    b1: u64,
    b2: u64,
)
    requires
        0 <= k <= prior.len(),
        new == prior.insert(k, o),
        book_seqs_below(prior, b1),
        b1 <= b2,
        spec_id_seq(o.order_id) < b2,
    ensures
        book_seqs_below(new, b2),
{
    prior.insert_ensures(k, o);
    assert forall|i: int| 0 <= i < new.len() implies spec_id_seq((#[trigger] new[i]).order_id)
        < b2 by {
        if i < k {
            assert(new[i] == prior[i]);
            assert(spec_id_seq(prior[i].order_id) < b1);
        } else if i > k {
            assert(new[i] == prior[i - 1]);
            assert(spec_id_seq(prior[i - 1].order_id) < b1);
        }
    }
}

/// Places an order: initializes the trader's ledger entry on first use,
/// locks the free balance the order can draw on, issues the order id,
/// records it in the lowest free ledger slot, matches against the opposite
/// side, and rests any unfilled remainder of a limit order.  Every rejection
/// leaves all five records unchanged.  The caller must then get
/// `deposit_amount` approved through the custody service and transfer
/// `margin_amount` as the posted margin, recording it with
/// `credit_locked_pc` (bid) or `credit_locked_coin` (ask) on success.
#[verifier::rlimit(100)]
pub fn new_order(
    market: &mut Market,
    book: &mut OrderBook,
    req_q: &mut RequestQueue,
    event_q: &mut EventQueue,
    open_orders: &mut OpenOrders,
    authority: u64,
    side: Side,
    limit_price: u64,
    max_coin_qty: u64,
    max_native_pc_qty: u64,
    order_type: OrderType,
    timestamp: u64,
) -> (r: Result<OrderOutcome, ErrorCodeCustom>)
    requires
        old(market).wf(),
        old(book).wf(old(market).coin_lot_size, old(market).pc_lot_size),
        old(event_q).wf(),
        old(open_orders).wf(),
        book_seqs_below(old(book).bids@, old(req_q).next_seq),
        book_seqs_below(old(book).asks@, old(req_q).next_seq),
        old(book).bids@.len() < usize::MAX,
        old(book).asks@.len() < usize::MAX,
    ensures
        final(market).wf(),
        final(book).wf(old(market).coin_lot_size, old(market).pc_lot_size),
        final(event_q).wf(),
        final(open_orders).wf(),
        final(market).coin_lot_size == old(market).coin_lot_size,
        final(market).pc_lot_size == old(market).pc_lot_size,
        final(req_q).next_seq >= old(req_q).next_seq,
        book_seqs_below(final(book).bids@, final(req_q).next_seq),
        book_seqs_below(final(book).asks@, final(req_q).next_seq),
        r is Err ==> {
            &&& *final(market) == *old(market)
            &&& final(book).bids@ == old(book).bids@
            &&& final(book).asks@ == old(book).asks@
            &&& *final(req_q) == *old(req_q)
            &&& final(event_q).buf@ == old(event_q).buf@
            &&& *final(open_orders) == *old(open_orders)
        },
        r is Ok <==> new_order_accepts(
            *old(market),
            *old(req_q),
            *old(open_orders),
            authority,
            side,
            limit_price,
            max_coin_qty,
            max_native_pc_qty,
        ),
        limit_price == 0 ==> r == Err::<OrderOutcome, ErrorCodeCustom>(
            ErrorCodeCustom::InvalidPrice,
        ),
        (1 <= limit_price && spec_lock_qty(
            side,
            max_coin_qty,
            max_native_pc_qty,
            old(market).coin_lot_size,
            old(market).pc_lot_size,
        ) <= u64::MAX && max_coin_qty * limit_price * old(market).pc_lot_size <= u64::MAX
            && max_coin_qty * old(market).coin_lot_size <= u64::MAX && old(
            open_orders,
        ).is_initialized && old(open_orders).market == old(market).key && old(
            open_orders,
        ).authority == authority && !(exists|i: int|
            0 <= i < MAX_OPEN_ORDERS && slot_bit_free(old(open_orders).free_slot_bits, i))) ==> r
            == Err::<OrderOutcome, ErrorCodeCustom>(ErrorCodeCustom::TooManyOpenOrders),
        r is Ok ==> ({
            let outcome = r->Ok_0;
            let was_init = old(open_orders).is_initialized;
            let lock_qty = spec_lock_qty(
                side,
                max_coin_qty,
                max_native_pc_qty,
                old(market).coin_lot_size,
                old(market).pc_lot_size,
            );
            let free_seen = spec_side_free(*old(open_orders), side);
            let free_to_lock = spec_free_to_lock(lock_qty, free_seen);
            &&& outcome.order_id == spec_order_id(limit_price, side, old(req_q).next_seq)
            &&& spec_id_price(outcome.order_id) == limit_price
            &&& spec_id_side(outcome.order_id) == side
            &&& spec_id_seq(outcome.order_id) == old(req_q).next_seq
            &&& final(req_q).next_seq == old(req_q).next_seq + 1
            &&& outcome.deposit_amount == spec_deposit(lock_qty, free_seen)
            &&& outcome.margin_amount == outcome.deposit_amount / 100
            &&& outcome.remaining_qty <= max_coin_qty
            // the ledger entry holds the order in its lowest free slot; a
            // first-use entry is initialized for this market and owner
            &&& final(open_orders).is_initialized
            &&& final(open_orders).market == (if was_init {
                old(open_orders).market
            } else {
                old(market).key
            })
            &&& final(open_orders).authority == (if was_init {
                old(open_orders).authority
            } else {
                authority
            })
            &&& (outcome.owner_slot as int) < MAX_OPEN_ORDERS
            &&& final(open_orders).orders@[outcome.owner_slot as int] == outcome.order_id
            &&& !slot_bit_free(final(open_orders).free_slot_bits, outcome.owner_slot as int)
            &&& (was_init ==> {
                &&& slot_bit_free(old(open_orders).free_slot_bits, outcome.owner_slot as int)
                &&& (forall|j: int|
                    0 <= j < outcome.owner_slot as int ==> !slot_bit_free(
                        old(open_orders).free_slot_bits,
                        j,
                    ))
                &&& final(open_orders).orders@ == old(open_orders).orders@.update(
                    outcome.owner_slot as int,
                    outcome.order_id,
                )
                &&& (forall|j: int|
                    0 <= j < MAX_OPEN_ORDERS ==> (slot_bit_free(
                        final(open_orders).free_slot_bits,
                        j,
                    ) <==> (j != outcome.owner_slot as int && slot_bit_free(
                        old(open_orders).free_slot_bits,
                        j,
                    ))))
                &&& final(open_orders).native_coin_total == old(open_orders).native_coin_total
                &&& final(open_orders).native_pc_total == old(open_orders).native_pc_total
                &&& (side == Side::Bid ==> {
                    &&& final(open_orders).native_pc_free == old(open_orders).native_pc_free
                        - free_to_lock + (if order_type == OrderType::ImmediateOrCancel {
                        spec_ioc_release(free_to_lock, outcome.proceeds.native_pc_debit as int)
                    } else {
                        0int
                    })
                    &&& final(open_orders).native_coin_free == old(open_orders).native_coin_free
                })
                &&& (side == Side::Ask ==> {
                    &&& final(open_orders).native_coin_free == old(open_orders).native_coin_free
                        - free_to_lock + (if order_type == OrderType::ImmediateOrCancel {
                        spec_ioc_release(
                            free_to_lock,
                            outcome.proceeds.coin_debit * old(market).coin_lot_size,
                        )
                    } else {
                        0int
                    })
                    &&& final(open_orders).native_pc_free == old(open_orders).native_pc_free
                })
            })
            &&& (!was_init ==> {
                &&& outcome.owner_slot == 0
                &&& final(open_orders).orders@ =~= Seq::new(
                    MAX_OPEN_ORDERS as nat,
                    |i: int| 0u128,
                ).update(0, outcome.order_id)
                &&& (forall|j: int|
                    0 <= j < MAX_OPEN_ORDERS ==> (slot_bit_free(
                        final(open_orders).free_slot_bits,
                        j,
                    ) <==> (j != 0 && slot_bit_free(ALL_SLOTS_FREE, j))))
                &&& final(open_orders).native_coin_free == 0
                &&& final(open_orders).native_coin_total == 0
                &&& final(open_orders).native_pc_free == 0
                &&& final(open_orders).native_pc_total == 0
            })
            // market deposit totals grow by the requested deposit
            &&& (side == Side::Bid ==> *final(market) == (Market {
                pc_deposits_total: (old(market).pc_deposits_total
                    + outcome.deposit_amount) as u64,
                ..*old(market)
            }))
            &&& (side == Side::Ask ==> *final(market) == (Market {
                coin_deposits_total: (old(market).coin_deposits_total
                    + outcome.deposit_amount) as u64,
                ..*old(market)
            }))
            // the book: a prefix of the opposite side was consumed, and the
            // remainder of a limit order rests on its own side
            &&& (side == Side::Bid ==> {
                &&& consumed_prefix(final(book).asks@, old(book).asks@)
                &&& side_qty_sum(old(book).asks@) - side_qty_sum(final(book).asks@)
                    == max_coin_qty - outcome.remaining_qty
                &&& ((outcome.remaining_qty == 0 || order_type == OrderType::ImmediateOrCancel)
                    ==> final(book).bids@ == old(book).bids@)
                &&& ((outcome.remaining_qty > 0 && order_type == OrderType::Limit) ==> exists|
                    k: int,
                |
                    0 <= k <= old(book).bids@.len() && final(book).bids@ == old(
                        book,
                    ).bids@.insert(
                        k,
                        (RestingOrder {
                            order_id: outcome.order_id,
                            owner: authority,
                            owner_slot: outcome.owner_slot,
                            qty: outcome.remaining_qty,
                        }),
                    ))
            })
            &&& (side == Side::Ask ==> {
                &&& consumed_prefix(final(book).bids@, old(book).bids@)
                &&& side_qty_sum(old(book).bids@) - side_qty_sum(final(book).bids@)
                    == max_coin_qty - outcome.remaining_qty
                &&& ((outcome.remaining_qty == 0 || order_type == OrderType::ImmediateOrCancel)
                    ==> final(book).asks@ == old(book).asks@)
                &&& ((outcome.remaining_qty > 0 && order_type == OrderType::Limit) ==> exists|
                    k: int,
                |
                    0 <= k <= old(book).asks@.len() && final(book).asks@ == old(
                        book,
                    ).asks@.insert(
                        k,
                        (RestingOrder {
                            order_id: outcome.order_id,
                            owner: authority,
                            owner_slot: outcome.owner_slot,
                            qty: outcome.remaining_qty,
                        }),
                    ))
            })
            // the event log: live records untouched, new records are the
            // mirrored maker/taker leg pairs of this order's fills
            &&& events_preserved(
                final(event_q).buf@,
                old(event_q).buf@,
                (NewOrderRequest {
                    side,
                    order_type,
                    order_id: outcome.order_id,
                    owner: authority,
                    owner_slot: outcome.owner_slot,
                    max_coin_qty,
                    timestamp,
                }),
                (match side {
                    Side::Bid => old(book).asks@,
                    Side::Ask => old(book).bids@,
                }),
                old(market).coin_lot_size,
                old(market).pc_lot_size,
            )
            // matching progress: the order stopped filling only because its
            // quantity ran out, the opposite side gave out, its front no
            // longer crosses, the event log lacked two free slots, or the
            // quote-credit counter could not take the next fill
            &&& match_stopped(
                (NewOrderRequest {
                    side,
                    order_type,
                    order_id: outcome.order_id,
                    owner: authority,
                    owner_slot: outcome.owner_slot,
                    max_coin_qty,
                    timestamp,
                }),
                outcome.remaining_qty,
                (match side {
                    Side::Bid => final(book).asks@,
                    Side::Ask => final(book).bids@,
                }),
                final(event_q).buf@,
                outcome.proceeds.native_pc_credit,
                old(market).pc_lot_size,
                outcome.queue_full,
            )
            // proceeds: exact base-lot accounting, and quote flows never
            // worse than the limit price
            &&& (side == Side::Bid ==> {
                &&& outcome.proceeds.coin_credit == max_coin_qty - outcome.remaining_qty
                &&& outcome.proceeds.coin_debit == 0
                &&& outcome.proceeds.native_pc_credit == 0
                &&& outcome.proceeds.coin_unlocked == 0
                &&& outcome.proceeds.native_pc_debit + outcome.proceeds.native_pc_unlocked == (
                match order_type {
                    OrderType::Limit => max_coin_qty - outcome.remaining_qty,
                    OrderType::ImmediateOrCancel => max_coin_qty as int,
                }) * limit_price * old(market).pc_lot_size
            })
            &&& (side == Side::Ask ==> {
                &&& outcome.proceeds.coin_debit == max_coin_qty - outcome.remaining_qty
                &&& outcome.proceeds.coin_credit == 0
                &&& outcome.proceeds.native_pc_debit == 0
                &&& outcome.proceeds.coin_unlocked == (match order_type {
                    OrderType::Limit => 0int,
                    OrderType::ImmediateOrCancel => outcome.remaining_qty as int,
                })
                &&& outcome.proceeds.native_pc_unlocked == 0
                &&& outcome.proceeds.native_pc_credit >= (max_coin_qty - outcome.remaining_qty)
                    * limit_price * old(market).pc_lot_size
            })
        }),
{
    if limit_price == 0 {
        return Err(ErrorCodeCustom::InvalidPrice);
    }
    let coin_lot = market.coin_lot_size;
    let pc_lot = market.pc_lot_size;
    // The order's committed quantity and its full value must fit the
    // balance width; these products also bound every partial fill.
    proof {
        lemma_mul_fits_u128(max_native_pc_qty as int, pc_lot as int);
        lemma_mul_fits_u128(max_coin_qty as int, coin_lot as int);
        lemma_mul_fits_u128(max_coin_qty as int, limit_price as int);
    }
    let lock_qty128: u128 = match side {
        Side::Bid => (max_native_pc_qty as u128) * (pc_lot as u128),
        Side::Ask => (max_coin_qty as u128) * (coin_lot as u128),
    };
    if lock_qty128 > u64::MAX as u128 {
        return Err(ErrorCodeCustom::InsufficientFunds);
    }
    let lock_qty: u64 = lock_qty128 as u64;
    let value128: u128 = (max_coin_qty as u128) * (limit_price as u128);
    if value128 > u64::MAX as u128 {
        proof {
            lemma_mul_ge((max_coin_qty as int) * (limit_price as int), pc_lot as int);
        }
        return Err(ErrorCodeCustom::InsufficientFunds);
    }
    proof {
        lemma_mul_fits_u128(value128 as int, pc_lot as int);
    }
    let value_pc128: u128 = value128 * (pc_lot as u128);
    if value_pc128 > u64::MAX as u128 {
        return Err(ErrorCodeCustom::InsufficientFunds);
    }
    let base128: u128 = (max_coin_qty as u128) * (coin_lot as u128);
    if base128 > u64::MAX as u128 {
        return Err(ErrorCodeCustom::InsufficientFunds);
    }
    if open_orders.is_initialized {
        if open_orders.market != market.key {
            return Err(ErrorCodeCustom::WrongMarket);
        }
        if open_orders.authority != authority {
            return Err(ErrorCodeCustom::WrongAuthority);
        }
        if !open_orders.has_free_slot() {
            return Err(ErrorCodeCustom::TooManyOpenOrders);
        }
    }
    if req_q.next_seq >= SEQ_LIMIT - 1 {
        // the sequence counter is exhausted: the market can accept no
        // further orders
        return Err(ErrorCodeCustom::Error);
    }
    let side_free: u64 = if open_orders.is_initialized {
        match side {
            Side::Bid => open_orders.native_pc_free,
            Side::Ask => open_orders.native_coin_free,
        }
    } else {
        0
    };
    let free_qty_to_lock: u64 = if lock_qty < side_free {
        lock_qty
    } else {
        side_free
    };
    let deposit_amount: u64 = lock_qty - free_qty_to_lock;
    match side {
        Side::Bid => {
            if deposit_amount > u64::MAX - market.pc_deposits_total {
                return Err(ErrorCodeCustom::Error);
            }
        },
        Side::Ask => {
            if deposit_amount > u64::MAX - market.coin_deposits_total {
                return Err(ErrorCodeCustom::Error);
            }
        },
    }
    // All checks passed: commit.
    if !open_orders.is_initialized {
        let init_r = open_orders.init(market.key, authority);
        proof {
            assert(init_r is Ok);
        }
    }
    match side {
        Side::Bid => {
            let lock_r = open_orders.lock_pc(free_qty_to_lock);
            proof {
                assert(lock_r is Ok);
            }
            market.pc_deposits_total = market.pc_deposits_total + deposit_amount;
        },
        Side::Ask => {
            let lock_r = open_orders.lock_coin(free_qty_to_lock);
            proof {
                assert(lock_r is Ok);
            }
            market.coin_deposits_total = market.coin_deposits_total + deposit_amount;
        },
    }
    let ghost seq0 = req_q.next_seq;
    let order_id: u128 = req_q.gen_order_id(limit_price, side);
    proof {
        lemma_order_id_round_trip(limit_price, side, seq0);
        lemma_order_id_nonzero(limit_price, side, seq0);
        assert(slot_bit_free(ALL_SLOTS_FREE, 0)) by (bit_vector);
        assert(exists|i: int|
            0 <= i < MAX_OPEN_ORDERS && slot_bit_free(open_orders.free_slot_bits, i));
    }
    let owner_slot: u8 = match open_orders.add_order(order_id, side) {
        Result::Ok(slot) => slot,
        Result::Err(e) => {
            proof {
                // unreachable: a free slot was checked above
                assert(false);
            }
            return Err(e);
        },
    };
    proof {
        if !old(open_orders).is_initialized {
            assert(owner_slot == 0);
            assert(open_orders.orders@ =~= Seq::new(MAX_OPEN_ORDERS as nat, |i: int| 0u128).update(
                0,
                order_id,
            ));
        }
    }
    let request = NewOrderRequest {
        side,
        order_type,
        order_id,
        owner: authority,
        owner_slot,
        max_coin_qty,
        timestamp,
    };
    let mut proceeds = RequestProceeds::new();
    proof {
        assert(valid_request(request, coin_lot, pc_lot));
        assert forall|i: int|
            0 <= i < book.bids@.len() implies (#[trigger] book.bids@[i]).order_id != order_id by {
            assert(spec_id_seq(book.bids@[i].order_id) < seq0);
        }
        assert forall|i: int|
            0 <= i < book.asks@.len() implies (#[trigger] book.asks@[i]).order_id != order_id by {
            assert(spec_id_seq(book.asks@[i].order_id) < seq0);
        }
    }
    let ghost bids_before = book.bids@;
    let ghost asks_before = book.asks@;
    let matched: (u64, bool) = book.process_request(market, &request, event_q, &mut proceeds);
    let remaining: u64 = matched.0;
    let queue_full: bool = matched.1;
    proof {
        match side {
            Side::Bid => {
                lemma_seqs_below_consumed(book.asks@, asks_before, seq0, req_q.next_seq);
                if remaining > 0 && order_type == OrderType::Limit {
                    let k = choose|k: int|
                        0 <= k <= bids_before.len() && book.bids@ == bids_before.insert(
                            k,
                            rested_order(request, remaining),
                        );
                    lemma_seqs_below_insert(
                        book.bids@,
                        bids_before,
                        rested_order(request, remaining),
                        k,
                        seq0,
                        req_q.next_seq,
                    );
                } else {
                    assert(book.bids@ == bids_before);
                }
            },
            Side::Ask => {
                lemma_seqs_below_consumed(book.bids@, bids_before, seq0, req_q.next_seq);
                if remaining > 0 && order_type == OrderType::Limit {
                    let k = choose|k: int|
                        0 <= k <= asks_before.len() && book.asks@ == asks_before.insert(
                            k,
                            rested_order(request, remaining),
                        );
                    lemma_seqs_below_insert(
                        book.asks@,
                        asks_before,
                        rested_order(request, remaining),
                        k,
                        seq0,
                        req_q.next_seq,
                    );
                } else {
                    assert(book.asks@ == asks_before);
                }
            },
        }
    }
    match order_type {
        OrderType::ImmediateOrCancel => {
            // nothing rests: release the locked free balance beyond what the
            // executed fills will pay at settlement
            match side {
                Side::Bid => {
                    let spent: u64 = proceeds.native_pc_debit;
                    let release: u64 = if free_qty_to_lock > spent {
                        free_qty_to_lock - spent
                    } else {
                        0
                    };
                    let unlock_r = open_orders.unlock_pc(release);
                    proof {
                        assert(unlock_r is Ok);
                    }
                },
                Side::Ask => {
                    proof {
                        lemma_mul_mono(
                            proceeds.coin_debit as int,
                            max_coin_qty as int,
                            coin_lot as int,
                        );
                    }
                    let spent: u64 = proceeds.coin_debit * coin_lot;
                    let release: u64 = if free_qty_to_lock > spent {
                        free_qty_to_lock - spent
                    } else {
                        0
                    };
                    let unlock_r = open_orders.unlock_coin(release);
                    proof {
                        assert(unlock_r is Ok);
                    }
                },
            }
        },
        OrderType::Limit => {},
    }
    let margin_amount: u64 = deposit_amount / 100;
    Ok(
        OrderOutcome {
            order_id,
            owner_slot,
            remaining_qty: remaining,
            deposit_amount,
            margin_amount,
            queue_full,
            proceeds,
        },
    )
}


/// Every condition under which a bid cancellation succeeds: the caller owns
/// the ledger entry, the id is recorded in one of its occupied slots, the
/// bid rests on the book under the expected owner, and the margin to release
/// is actually locked.
pub open spec fn cancel_bid_ok(
    book: OrderBook,
    oo: OpenOrders,
    order_id: u128,
    expected_owner: u64,
    authority: u64,
) -> bool {
    &&& oo.authority == authority
    &&& (exists|s: int|
        0 <= s < MAX_OPEN_ORDERS && oo.orders[s] == order_id && !slot_bit_free(
            oo.free_slot_bits,
            s,
        ))
    &&& (exists|i: int|
        0 <= i < book.bids@.len() && (#[trigger] book.bids@[i]).order_id == order_id
            && book.bids@[i].owner == expected_owner)
    &&& spec_id_price(order_id) / 100 <= oo.pc_locked()
}

/// Every condition under which an ask cancellation succeeds.
pub open spec fn cancel_ask_ok(
    book: OrderBook,
    oo: OpenOrders,
    order_id: u128,
    expected_owner: u64,
    authority: u64,
) -> bool {
    &&& oo.authority == authority
    &&& (exists|s: int|
        0 <= s < MAX_OPEN_ORDERS && oo.orders[s] == order_id && !slot_bit_free(
            oo.free_slot_bits,
            s,
        ))
    &&& (exists|i: int|
        0 <= i < book.asks@.len() && (#[trigger] book.asks@[i]).order_id == order_id
            && book.asks@[i].owner == expected_owner)
    &&& spec_id_price(order_id) / 100 <= oo.coin_locked()
}

/// Cancels a resting bid: removes it from the book and the caller's ledger
/// slot and unlocks one percent of the order's price as the margin freed by
/// the cancellation.  Fails with a not-found condition when the caller does
/// not own the ledger entry, the id is in none of its slots, or no such bid
/// rests on the book; with an ownership-mismatch condition when the resting
/// bid belongs to someone else.  Every failure leaves the book and the
/// ledger entry unchanged.
pub fn cancel_bid(
    market: &Market,
    book: &mut OrderBook,
    open_orders: &mut OpenOrders,
    order_id: u128,
    expected_owner: u64,
    authority: u64,
) -> (r: Result<u64, ErrorCodeCustom>)
    requires
        market.wf(),
        old(book).wf(market.coin_lot_size, market.pc_lot_size),
        old(open_orders).wf(),
    ensures
        final(book).wf(market.coin_lot_size, market.pc_lot_size),
        final(open_orders).wf(),
        final(book).asks == old(book).asks,
        r is Err ==> {
            &&& final(book).bids@ == old(book).bids@
            &&& *final(open_orders) == *old(open_orders)
        },
        r is Ok <==> cancel_bid_ok(*old(book), *old(open_orders), order_id, expected_owner, authority),
        (old(open_orders).authority != authority || (forall|s: int|
            0 <= s < MAX_OPEN_ORDERS ==> !(old(open_orders).orders[s] == order_id
                && !slot_bit_free(old(open_orders).free_slot_bits, s))) || (forall|i: int|
            0 <= i < old(book).bids@.len() ==> old(book).bids@[i].order_id != order_id)) ==> r
            == Err::<u64, ErrorCodeCustom>(ErrorCodeCustom::OrderNotFound),
        (old(open_orders).authority == authority && (exists|s: int|
            0 <= s < MAX_OPEN_ORDERS && old(open_orders).orders[s] == order_id && !slot_bit_free(
                old(open_orders).free_slot_bits,
                s,
            )) && (exists|i: int|
            0 <= i < old(book).bids@.len() && (#[trigger] old(book).bids@[i]).order_id == order_id
                && old(book).bids@[i].owner != expected_owner)) ==> r == Err::<
            u64,
            ErrorCodeCustom,
        >(ErrorCodeCustom::InvalidAuthority),
        r is Ok ==> {
            let marginal = spec_id_price(order_id) / 100;
            &&& (exists|i: int|
                {
                    &&& 0 <= i < old(book).bids@.len()
                    &&& old(book).bids@[i].order_id == order_id
                    &&& old(book).bids@[i].owner == expected_owner
                    &&& r->Ok_0 == old(book).bids@[i].qty
                    &&& final(book).bids@ == old(book).bids@.remove(i)
                })
            &&& (exists|s: int|
                {
                    &&& 0 <= s < MAX_OPEN_ORDERS
                    &&& old(open_orders).orders[s] == order_id
                    &&& !slot_bit_free(old(open_orders).free_slot_bits, s)
                    &&& final(open_orders).orders@ == old(open_orders).orders@.update(s, 0u128)
                    &&& (forall|j: int|
                        0 <= j < MAX_OPEN_ORDERS ==> (slot_bit_free(
                            final(open_orders).free_slot_bits,
                            j,
                        ) <==> (j == s || slot_bit_free(old(open_orders).free_slot_bits, j))))
                })
            &&& final(open_orders).native_pc_free == old(open_orders).native_pc_free + marginal
            &&& final(open_orders).native_pc_total == old(open_orders).native_pc_total
            &&& final(open_orders).native_coin_free == old(open_orders).native_coin_free
            &&& final(open_orders).native_coin_total == old(open_orders).native_coin_total
            &&& final(open_orders).market == old(open_orders).market
            &&& final(open_orders).authority == old(open_orders).authority
            &&& final(open_orders).is_initialized == old(open_orders).is_initialized
        },
{
    if open_orders.authority != authority {
        return Err(ErrorCodeCustom::OrderNotFound);
    }
    let slot: u8 = match open_orders.find_order_slot(order_id) {
        Option::Some(s) => s,
        Option::None => {
            return Err(ErrorCodeCustom::OrderNotFound);
        },
    };
    let idx: usize = match book.find_bid_index(order_id) {
        Option::Some(i) => i,
        Option::None => {
            return Err(ErrorCodeCustom::OrderNotFound);
        },
    };
    proof {
        let s = book.bids@;
        assert forall|j: int|
            0 <= j < s.len() && (#[trigger] s[j]).order_id == order_id implies j == idx as int by {
            if j < idx as int {
                assert(s[j].order_id < s[idx as int].order_id);
            } else if j > idx as int {
                assert(s[idx as int].order_id < s[j].order_id);
            }
        }
    }
    if book.bids[idx].owner != expected_owner {
        return Err(ErrorCodeCustom::InvalidAuthority);
    }
    // the margin freed by the cancellation: one percent of the order's price
    let order_value: u64 = price_from_order_id(order_id);
    let marginal_deposit: u64 = order_value / 100;
    if marginal_deposit > open_orders.native_pc_total - open_orders.native_pc_free {
        return Err(ErrorCodeCustom::InvalidLocked);
    }
    // All checks passed: commit.
    let ghost bids_before = book.bids@;
    let cancel_r = book.cancel_order_bid(order_id, expected_owner);
    let freed_qty: u64 = match cancel_r {
        Result::Ok(qty) => qty,
        Result::Err(e) => {
            return Err(e);
        },
    };
    proof {
        assert(cancel_r is Ok);
        let i = choose|i: int|
            {
                &&& 0 <= i < bids_before.len()
                &&& bids_before[i].order_id == order_id
                &&& bids_before[i].owner == expected_owner
                &&& cancel_r->Ok_0 == bids_before[i].qty
                &&& book.bids@ == bids_before.remove(i)
            };
        crate::book::lemma_side_wf_remove(
            bids_before,
            i,
            Side::Bid,
            market.coin_lot_size,
            market.pc_lot_size,
        );
    }
    let unlock_r = open_orders.unlock_pc(marginal_deposit);
    proof {
        assert(unlock_r is Ok);
    }
    let remove_r = open_orders.remove_order(slot);
    proof {
        assert(remove_r is Ok);
    }
    Ok(freed_qty)
}

/// Cancels a resting ask, as `cancel_bid` does for bids; the freed margin is
/// unlocked in the base asset.
pub fn cancel_ask(
    market: &Market,
    book: &mut OrderBook,
    open_orders: &mut OpenOrders,
    order_id: u128,
    expected_owner: u64,
    authority: u64,
) -> (r: Result<u64, ErrorCodeCustom>)
    requires
        market.wf(),
        old(book).wf(market.coin_lot_size, market.pc_lot_size),
        old(open_orders).wf(),
    ensures
        final(book).wf(market.coin_lot_size, market.pc_lot_size),
        final(open_orders).wf(),
        final(book).bids == old(book).bids,
        r is Err ==> {
            &&& final(book).asks@ == old(book).asks@
            &&& *final(open_orders) == *old(open_orders)
        },
        r is Ok <==> cancel_ask_ok(*old(book), *old(open_orders), order_id, expected_owner, authority),
        (old(open_orders).authority != authority || (forall|s: int|
            0 <= s < MAX_OPEN_ORDERS ==> !(old(open_orders).orders[s] == order_id
                && !slot_bit_free(old(open_orders).free_slot_bits, s))) || (forall|i: int|
            0 <= i < old(book).asks@.len() ==> old(book).asks@[i].order_id != order_id)) ==> r
            == Err::<u64, ErrorCodeCustom>(ErrorCodeCustom::OrderNotFound),
        (old(open_orders).authority == authority && (exists|s: int|
            0 <= s < MAX_OPEN_ORDERS && old(open_orders).orders[s] == order_id && !slot_bit_free(
                old(open_orders).free_slot_bits,
                s,
            )) && (exists|i: int|
            0 <= i < old(book).asks@.len() && (#[trigger] old(book).asks@[i]).order_id == order_id
                && old(book).asks@[i].owner != expected_owner)) ==> r == Err::<
            u64,
            ErrorCodeCustom,
        >(ErrorCodeCustom::InvalidAuthority),
        r is Ok ==> {
            let marginal = spec_id_price(order_id) / 100;
            &&& (exists|i: int|
                {
                    &&& 0 <= i < old(book).asks@.len()
                    &&& old(book).asks@[i].order_id == order_id
                    &&& old(book).asks@[i].owner == expected_owner
                    &&& r->Ok_0 == old(book).asks@[i].qty
                    &&& final(book).asks@ == old(book).asks@.remove(i)
                })
            &&& (exists|s: int|
                {
                    &&& 0 <= s < MAX_OPEN_ORDERS
                    &&& old(open_orders).orders[s] == order_id
                    &&& !slot_bit_free(old(open_orders).free_slot_bits, s)
                    &&& final(open_orders).orders@ == old(open_orders).orders@.update(s, 0u128)
                    &&& (forall|j: int|
                        0 <= j < MAX_OPEN_ORDERS ==> (slot_bit_free(
                            final(open_orders).free_slot_bits,
                            j,
                        ) <==> (j == s || slot_bit_free(old(open_orders).free_slot_bits, j))))
                })
            &&& final(open_orders).native_coin_free == old(open_orders).native_coin_free
                + marginal
            &&& final(open_orders).native_coin_total == old(open_orders).native_coin_total
            &&& final(open_orders).native_pc_free == old(open_orders).native_pc_free
            &&& final(open_orders).native_pc_total == old(open_orders).native_pc_total
            &&& final(open_orders).market == old(open_orders).market
            &&& final(open_orders).authority == old(open_orders).authority
            &&& final(open_orders).is_initialized == old(open_orders).is_initialized
        },
{
    if open_orders.authority != authority {
        return Err(ErrorCodeCustom::OrderNotFound);
    }
    let slot: u8 = match open_orders.find_order_slot(order_id) {
        Option::Some(s) => s,
        Option::None => {
            return Err(ErrorCodeCustom::OrderNotFound);
        },
    };
    let idx: usize = match book.find_ask_index(order_id) {
        Option::Some(i) => i,
        Option::None => {
            return Err(ErrorCodeCustom::OrderNotFound);
        },
    };
    proof {
        let s = book.asks@;
        assert forall|j: int|
            0 <= j < s.len() && (#[trigger] s[j]).order_id == order_id implies j == idx as int by {
            if j < idx as int {
                assert(s[j].order_id < s[idx as int].order_id);
            } else if j > idx as int {
                assert(s[idx as int].order_id < s[j].order_id);
            }
        }
    }
    if book.asks[idx].owner != expected_owner {
        return Err(ErrorCodeCustom::InvalidAuthority);
    }
    // the margin freed by the cancellation: one percent of the order's price
    let order_value: u64 = price_from_order_id(order_id);
    let marginal_deposit: u64 = order_value / 100;
    if marginal_deposit > open_orders.native_coin_total - open_orders.native_coin_free {
        return Err(ErrorCodeCustom::InvalidLocked);
    }
    // All checks passed: commit.
    let ghost asks_before = book.asks@;
    let cancel_r = book.cancel_order_ask(order_id, expected_owner);
    let freed_qty: u64 = match cancel_r {
        Result::Ok(qty) => qty,
        Result::Err(e) => {
            return Err(e);
        },
    };
    proof {
        assert(cancel_r is Ok);
        let i = choose|i: int|
            {
                &&& 0 <= i < asks_before.len()
                &&& asks_before[i].order_id == order_id
                &&& asks_before[i].owner == expected_owner
                &&& cancel_r->Ok_0 == asks_before[i].qty
                &&& book.asks@ == asks_before.remove(i)
            };
        crate::book::lemma_side_wf_remove(
            asks_before,
            i,
            Side::Ask,
            market.coin_lot_size,
            market.pc_lot_size,
        );
    }
    let unlock_r = open_orders.unlock_coin(marginal_deposit);
    proof {
        assert(unlock_r is Ok);
    }
    let remove_r = open_orders.remove_order(slot);
    proof {
        assert(remove_r is Ok);
    }
    Ok(freed_qty)
}

/// Records a quote-asset deposit the caller has already transferred into the
/// vault through the custody service: the amount arrives withdrawable.
pub fn deposit_pc_tokens(open_orders: &mut OpenOrders, amount: u64) -> (r: Result<
    (),
    ErrorCodeCustom,
>)
    requires
        old(open_orders).wf(),
    ensures
        final(open_orders).wf(),
        r is Ok <==> old(open_orders).native_pc_total + amount <= u64::MAX,
        r is Err ==> *final(open_orders) == *old(open_orders) && r == Err::<(), ErrorCodeCustom>(
            ErrorCodeCustom::Error,
        ),
        r is Ok ==> final(open_orders).balances_set(
            *old(open_orders),
            old(open_orders).native_coin_free as int,
            old(open_orders).native_coin_total as int,
            old(open_orders).native_pc_free + amount,
            old(open_orders).native_pc_total + amount,
        ),
{
    open_orders.credit_unlocked_pc(amount)
}

/// Records a base-asset deposit the caller has already transferred into the
/// vault through the custody service: the amount arrives withdrawable.
pub fn deposit_coin_tokens(open_orders: &mut OpenOrders, amount: u64) -> (r: Result<
    (),
    ErrorCodeCustom,
>)
    requires
        old(open_orders).wf(),
    ensures
        final(open_orders).wf(),
        r is Ok <==> old(open_orders).native_coin_total + amount <= u64::MAX,
        r is Err ==> *final(open_orders) == *old(open_orders) && r == Err::<(), ErrorCodeCustom>(
            ErrorCodeCustom::Error,
        ),
        r is Ok ==> final(open_orders).balances_set(
            *old(open_orders),
            old(open_orders).native_coin_free + amount,
            old(open_orders).native_coin_total + amount,
            old(open_orders).native_pc_free as int,
            old(open_orders).native_pc_total as int,
        ),
{
    open_orders.credit_unlocked_coin(amount)
}

/// Debits a base-asset withdrawal: the caller owns the entry and has at
/// least `amount` free; the custody service then pays the trader out of the
/// vault.  Rejection leaves the entry unchanged.
pub fn withdraw_coins(open_orders: &mut OpenOrders, authority: u64, amount: u64) -> (r: Result<
    (),
    ErrorCodeCustom,
>)
    requires
        old(open_orders).wf(),
    ensures
        final(open_orders).wf(),
        r is Ok <==> (old(open_orders).authority == authority && amount <= old(
            open_orders,
        ).native_coin_free),
        old(open_orders).authority != authority ==> r == Err::<(), ErrorCodeCustom>(
            ErrorCodeCustom::InvalidAuthority,
        ),
        r is Err ==> *final(open_orders) == *old(open_orders),
        r is Ok ==> final(open_orders).balances_set(
            *old(open_orders),
            old(open_orders).native_coin_free - amount,
            old(open_orders).native_coin_total - amount,
            old(open_orders).native_pc_free as int,
            old(open_orders).native_pc_total as int,
        ),
{
    if open_orders.authority != authority {
        return Err(ErrorCodeCustom::InvalidAuthority);
    }
    open_orders.debit_unlocked_coin(amount)
}

/// Debits a quote-asset withdrawal, as `withdraw_coins` does for the base
/// asset.
pub fn withdraw_tokens(open_orders: &mut OpenOrders, authority: u64, amount: u64) -> (r: Result<
    (),
    ErrorCodeCustom,
>)
    requires
        old(open_orders).wf(),
    ensures
        final(open_orders).wf(),
        r is Ok <==> (old(open_orders).authority == authority && amount <= old(
            open_orders,
        ).native_pc_free),
        old(open_orders).authority != authority ==> r == Err::<(), ErrorCodeCustom>(
            ErrorCodeCustom::InvalidAuthority,
        ),
        r is Err ==> *final(open_orders) == *old(open_orders),
        r is Ok ==> final(open_orders).balances_set(
            *old(open_orders),
            old(open_orders).native_coin_free as int,
            old(open_orders).native_coin_total as int,
            old(open_orders).native_pc_free - amount,
            old(open_orders).native_pc_total - amount,
        ),
{
    if open_orders.authority != authority {
        return Err(ErrorCodeCustom::InvalidAuthority);
    }
    open_orders.debit_unlocked_pc(amount)
}

} // verus!
