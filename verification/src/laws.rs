//! The library's laws: properties that relate several components, stated and
//! proved once so a reader sees them rather than deriving them.

use crate::book::{side_wf, RestingOrder};
use crate::events::EventQueue;
use crate::ledger::OpenOrders;
use crate::orders::{
    spec_id_price, spec_id_price_key, spec_id_seq, spec_id_side, spec_id_side_bit,
    spec_order_id, lemma_order_id_round_trip, Side, PRICE_FACTOR, SEQ_LIMIT, SIDE_FACTOR,
};
use vstd::arithmetic::div_mod::{lemma_fundamental_div_mod, lemma_fundamental_div_mod_converse};
use vstd::prelude::*;

verus! {

/// For every valid price and side, projecting the price back out of a
/// freshly issued order id returns exactly that price: the id encoding is a
/// lossless inverse pair with `price_from_order_id`.
pub proof fn law_price_round_trip(price: u64, side: Side, seq: u64)
    requires
        seq < SEQ_LIMIT,
    ensures
        spec_id_price(spec_order_id(price, side, seq) as u128) == price,
        spec_id_side(spec_order_id(price, side, seq) as u128) == side,
{
    lemma_order_id_round_trip(price, side, seq);
}

/// Every id splits uniquely into its price key, side bit and sequence
/// number: the three projections reassemble to the id itself.
pub proof fn lemma_order_id_decompose(id: u128)
    ensures
        id == spec_id_price_key(id) * (PRICE_FACTOR as int) + spec_id_side_bit(id) * (
        SIDE_FACTOR as int) + spec_id_seq(id),
        0 <= spec_id_seq(id) < SIDE_FACTOR,
        spec_id_side_bit(id) == 0 || spec_id_side_bit(id) == 1,
        0 <= spec_id_price_key(id) <= u64::MAX,
{
    lemma_fundamental_div_mod(id as int, PRICE_FACTOR as int);
    lemma_mod_bound(id as int, PRICE_FACTOR as int);
    lemma_div_bound(id as int, PRICE_FACTOR as int);
    let pk = spec_id_price_key(id);
    let a = (id as int) % (PRICE_FACTOR as int);
    lemma_fundamental_div_mod(a, SIDE_FACTOR as int);
    lemma_mod_bound(a, SIDE_FACTOR as int);
    let sb = a / (SIDE_FACTOR as int);
    let r2 = a % (SIDE_FACTOR as int);
    assert(a == (SIDE_FACTOR as int) * sb + r2);
    assert(sb == 0 || sb == 1);
    assert((id as int) == (PRICE_FACTOR as int) * pk + (SIDE_FACTOR as int) * sb + r2);
    assert((PRICE_FACTOR as int) * pk == (2 * pk) * (SIDE_FACTOR as int)) by (nonlinear_arith);
    lemma_fundamental_div_mod_converse(id as int, SIDE_FACTOR as int, 2 * pk + sb, r2);
    assert(spec_id_seq(id) == r2);
    assert((SIDE_FACTOR as int) * sb == sb * (SIDE_FACTOR as int)) by (nonlinear_arith);
}

/// The remainder of a division by a positive divisor stays below it.
proof fn lemma_mod_bound(x: int, d: int)
    requires
        0 <= x,
        0 < d,
    ensures
        0 <= x % d < d,
{
}

/// The quotient of a 128-bit value by the price factor fits in 64 bits.
proof fn lemma_div_bound(x: int, d: int)
    requires
        0 <= x <= u128::MAX,
        d == PRICE_FACTOR as int,
    ensures
        0 <= x / d <= u64::MAX,
{
    assert(0 <= x / d <= u64::MAX) by (nonlinear_arith)
        requires
            0 <= x <= u128::MAX,
            d == PRICE_FACTOR as int,
    ;
}

/// First-in-first-out at equal price: of two resting orders at the same
/// price on one well-formed side, the one standing closer to the front
/// carries the strictly smaller sequence number.  Because the matcher always
/// consumes a prefix of the side, the earlier-sequence order fills first.
pub proof fn law_equal_price_fifo(
    s: Seq<RestingOrder>,
    side: Side,
    coin_lot: u64,
    pc_lot: u64,
    i: int,
    j: int,
)
    requires
        side_wf(s, side, coin_lot, pc_lot),
        0 <= i < j < s.len(),
        spec_id_price(s[i].order_id) == spec_id_price(s[j].order_id),
    ensures
        spec_id_seq(s[i].order_id) < spec_id_seq(s[j].order_id),
{
    let a = s[i].order_id;
    let b = s[j].order_id;
    lemma_order_id_decompose(a);
    lemma_order_id_decompose(b);
    assert(a < b);
    assert(spec_id_side_bit(a) == spec_id_side_bit(b));
    assert(spec_id_price_key(a) == spec_id_price_key(b));
}

/// The event log never records an uncrossed trade: every match record in a
/// well-formed log has its bid-side price at or above its ask-side price,
/// and every operation of the library preserves log well-formedness.
pub proof fn law_matches_crossed(eq: EventQueue, i: int)
    requires
        eq.wf(),
        0 <= i < eq.buf@.len(),
        eq.buf@[i] is Some,
    ensures
        spec_id_price(
            match eq.buf@[i]->0.side {
                Side::Bid => eq.buf@[i]->0.order_id,
                Side::Ask => eq.buf@[i]->0.order_id_second,
            },
        ) >= spec_id_price(
            match eq.buf@[i]->0.side {
                Side::Bid => eq.buf@[i]->0.order_id_second,
                Side::Ask => eq.buf@[i]->0.order_id,
            },
        ),
{
}

/// In every well-formed ledger entry the free balance never exceeds the
/// total balance, on both assets; every operation of the library preserves
/// ledger well-formedness, so the bound holds at every point.
pub proof fn law_free_within_total(oo: OpenOrders)
    requires
        oo.wf(),
    ensures
        oo.native_coin_free <= oo.native_coin_total,
        oo.native_pc_free <= oo.native_pc_total,
{
}

} // verus!
