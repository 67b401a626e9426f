//! The settlement engine: the finalize/penalize state machine over matched
//! event pairs.
//!
//! Each matched pair is Pending until both legs are resolved.  `finalise_*`
//! reads a leg, requires the pair not to be fully settled already, and takes
//! the outcome of the custody transfer of the leg's paid quantity as an
//! argument: the caller performs the transfer (the margin was only approved,
//! not moved, at order time) and hands the result in.  On success the leg is
//! marked Settled and the payer's `total` grows by the amount that arrived in
//! custody; when the second leg settles, the cross-credit runs exactly once.
//! A failed transfer is an ordinary, distinguishable error that changes
//! nothing, so the counterparty can later invoke the penalty path.
//! `cancel_with_penalty` slashes a non-performing party's margin after a
//! fixed grace period and compensates the performing counterparty.

use crate::errors::ErrorCodeCustom;
use crate::events::{Event, EventQueue, SettleStatus, EVENT_CAPACITY};
use crate::ledger::OpenOrders;
use crate::orders::Side;
use vstd::prelude::*;

verus! {

/// Time units a pair must age before it can be penalized.
pub const GRACE_PERIOD: u64 = 60;

/// Both slots are in range, distinct, and hold a record.
pub open spec fn slots_readable(buf: Seq<Option<Event>>, s1: int, s2: int) -> bool {
    &&& 0 <= s1 < EVENT_CAPACITY
    &&& 0 <= s2 < EVENT_CAPACITY
    &&& s1 != s2
    &&& buf[s1] is Some
    &&& buf[s2] is Some
}

/// The two records are a genuine matched pair with the bid leg first: they
/// cross-reference each other's order ids.
pub open spec fn is_bid_ask_pair(e1: Event, e2: Event) -> bool {
    &&& e1.order_id_second == e2.order_id
    &&& e2.order_id_second == e1.order_id
    &&& e1.side == Side::Bid
    &&& e2.side == Side::Ask
}

/// The record reached a terminal settlement state.
pub open spec fn terminal(e: Event) -> bool {
    e.finalised != SettleStatus::Pending
}

/// The same record with its settlement status replaced.
pub open spec fn with_status(e: Event, st: SettleStatus) -> Event {
    Event { finalised: st, ..e }
}

/// The grace period of the record has elapsed at time `now`.
pub open spec fn grace_elapsed(e: Event, now: u64) -> bool {
    now > e.timestamp + GRACE_PERIOD
}

/// Every balance move of finalizing the bid leg fits the counters: crediting
/// the arriving quote margin, and, if the ask leg has already settled, the
/// cross-credit of both parties.
pub open spec fn finalise_bid_feasible(
    bidder: OpenOrders,
    asker: OpenOrders,
    e1: Event,
    e2: Event,
) -> bool {
    &&& bidder.native_pc_total + e1.native_qty_paid <= u64::MAX
    &&& (e2.finalised == SettleStatus::Settled ==> {
        &&& e2.native_qty_paid <= asker.coin_locked()
        &&& bidder.native_coin_total + e1.native_qty_released <= u64::MAX
        &&& asker.native_pc_total + e2.native_qty_released <= u64::MAX
    })
}

/// Every condition under which finalizing the bid leg succeeds.
pub open spec fn finalise_bid_ok(
    bidder: OpenOrders,
    asker: OpenOrders,
    buf: Seq<Option<Event>>,
    s1: int,
    s2: int,
    transfer_ok: bool,
) -> bool {
    &&& slots_readable(buf, s1, s2)
    &&& is_bid_ask_pair(buf[s1]->0, buf[s2]->0)
    &&& !terminal(buf[s1]->0)
    &&& transfer_ok
    &&& finalise_bid_feasible(bidder, asker, buf[s1]->0, buf[s2]->0)
}

/// Every balance move of finalizing the ask leg fits the counters.
pub open spec fn finalise_ask_feasible(
    bidder: OpenOrders,
    asker: OpenOrders,
    e1: Event,
    e2: Event,
) -> bool {
    &&& asker.native_coin_total + e2.native_qty_paid <= u64::MAX
    &&& (e1.finalised == SettleStatus::Settled ==> {
        &&& e1.native_qty_paid <= bidder.pc_locked()
        &&& asker.native_pc_total + e2.native_qty_released <= u64::MAX
        &&& bidder.native_coin_total + e1.native_qty_released <= u64::MAX
    })
}

/// Every condition under which finalizing the ask leg succeeds.
pub open spec fn finalise_ask_ok(
    bidder: OpenOrders,
    asker: OpenOrders,
    buf: Seq<Option<Event>>,
    s1: int,
    s2: int,
    transfer_ok: bool,
) -> bool {
    &&& slots_readable(buf, s1, s2)
    &&& is_bid_ask_pair(buf[s1]->0, buf[s2]->0)
    &&& !terminal(buf[s2]->0)
    &&& transfer_ok
    &&& finalise_ask_feasible(bidder, asker, buf[s1]->0, buf[s2]->0)
}

/// Finalizes the bid leg of the matched pair at `(event1_slot, event2_slot)`
/// (bid leg first): the bidder's paid quote quantity was transferred into
/// custody with outcome `transfer_ok`.  On success the bid leg is marked
/// Settled and the bidder's quote `total` grows by the amount now held for
/// it; if the ask leg had already settled, the cross-credit runs at once:
/// each party's committed quantity is debited and each receives the other's
/// released quantity as a withdrawable balance.  Every failure leaves both
/// ledger entries and the event log unchanged.
pub fn finalise_matches_bid(
    open_orders_owner: &mut OpenOrders,
    open_orders_counterparty: &mut OpenOrders,
    event_q: &mut EventQueue,
    event1_slot: usize,
    event2_slot: usize,
    transfer_ok: bool,
) -> (r: Result<(), ErrorCodeCustom>)
    requires
        old(open_orders_owner).wf(),
        old(open_orders_counterparty).wf(),
        old(event_q).wf(),
    ensures
        final(open_orders_owner).wf(),
        final(open_orders_counterparty).wf(),
        final(event_q).wf(),
        r is Err ==> {
            &&& *final(open_orders_owner) == *old(open_orders_owner)
            &&& *final(open_orders_counterparty) == *old(open_orders_counterparty)
            &&& final(event_q).buf@ == old(event_q).buf@
        },
        r is Ok <==> finalise_bid_ok(
            *old(open_orders_owner),
            *old(open_orders_counterparty),
            old(event_q).buf@,
            event1_slot as int,
            event2_slot as int,
            transfer_ok,
        ),
        !slots_readable(old(event_q).buf@, event1_slot as int, event2_slot as int) ==> r
            == Err::<(), ErrorCodeCustom>(ErrorCodeCustom::EmptyQueue),
        (slots_readable(old(event_q).buf@, event1_slot as int, event2_slot as int)
            && is_bid_ask_pair(
            old(event_q).buf@[event1_slot as int]->0,
            old(event_q).buf@[event2_slot as int]->0,
        ) && terminal(old(event_q).buf@[event1_slot as int]->0) && terminal(
            old(event_q).buf@[event2_slot as int]->0,
        )) ==> r == Err::<(), ErrorCodeCustom>(ErrorCodeCustom::BothEventsFinalised),
        (slots_readable(old(event_q).buf@, event1_slot as int, event2_slot as int)
            && is_bid_ask_pair(
            old(event_q).buf@[event1_slot as int]->0,
            old(event_q).buf@[event2_slot as int]->0,
        ) && terminal(old(event_q).buf@[event1_slot as int]->0) && !terminal(
            old(event_q).buf@[event2_slot as int]->0,
        )) ==> r == Err::<(), ErrorCodeCustom>(ErrorCodeCustom::SideAlreadyFinalised),
        r is Ok ==> {
            let e1 = old(event_q).buf@[event1_slot as int]->0;
            let e2 = old(event_q).buf@[event2_slot as int]->0;
            &&& final(event_q).buf@ == old(event_q).buf@.update(
                event1_slot as int,
                Some(with_status(e1, SettleStatus::Settled)),
            )
            &&& (e2.finalised == SettleStatus::Settled ==> {
                &&& final(open_orders_owner).balances_set(
                    *old(open_orders_owner),
                    old(open_orders_owner).native_coin_free + e1.native_qty_released,
                    old(open_orders_owner).native_coin_total + e1.native_qty_released,
                    old(open_orders_owner).native_pc_free as int,
                    old(open_orders_owner).native_pc_total as int,
                )
                &&& final(open_orders_counterparty).balances_set(
                    *old(open_orders_counterparty),
                    old(open_orders_counterparty).native_coin_free as int,
                    old(open_orders_counterparty).native_coin_total - e2.native_qty_paid,
                    old(open_orders_counterparty).native_pc_free + e2.native_qty_released,
                    old(open_orders_counterparty).native_pc_total + e2.native_qty_released,
                )
            })
            &&& (e2.finalised != SettleStatus::Settled ==> {
                &&& final(open_orders_owner).balances_set(
                    *old(open_orders_owner),
                    old(open_orders_owner).native_coin_free as int,
                    old(open_orders_owner).native_coin_total as int,
                    old(open_orders_owner).native_pc_free as int,
                    old(open_orders_owner).native_pc_total + e1.native_qty_paid,
                )
                &&& *final(open_orders_counterparty) == *old(open_orders_counterparty)
            })
        },
{
    if event1_slot >= EVENT_CAPACITY || event2_slot >= EVENT_CAPACITY {
        return Err(ErrorCodeCustom::EmptyQueue);
    }
    let e1 = match event_q.get_event(event1_slot) {
        Option::Some(e) => e,
        Option::None => {
            return Err(ErrorCodeCustom::EmptyQueue);
        },
    };
    let e2 = match event_q.get_event(event2_slot) {
        Option::Some(e) => e,
        Option::None => {
            return Err(ErrorCodeCustom::EmptyQueue);
        },
    };
    if event1_slot == event2_slot {
        return Err(ErrorCodeCustom::EmptyQueue);
    }
    if e1.order_id_second != e2.order_id || e2.order_id_second != e1.order_id {
        return Err(ErrorCodeCustom::Error);
    }
    if !(matches!(e1.side, Side::Bid) && matches!(e2.side, Side::Ask)) {
        return Err(ErrorCodeCustom::WrongSide);
    }
    if !matches!(e1.finalised, SettleStatus::Pending) {
        if !matches!(e2.finalised, SettleStatus::Pending) {
            return Err(ErrorCodeCustom::BothEventsFinalised);
        }
        return Err(ErrorCodeCustom::SideAlreadyFinalised);
    }
    if !transfer_ok {
        return Err(ErrorCodeCustom::TransferFailed);
    }
    // The full settlement quantity arrives in custody: record it as locked.
    if e1.native_qty_paid > u64::MAX - open_orders_owner.native_pc_total {
        return Err(ErrorCodeCustom::Error);
    }
    if matches!(e2.finalised, SettleStatus::Settled) {
        // The pair completes now: pre-check the whole cross-credit, then
        // apply it atomically.
        if e2.native_qty_paid > open_orders_counterparty.native_coin_total
            - open_orders_counterparty.native_coin_free {
            return Err(ErrorCodeCustom::Error);
        }
        if e1.native_qty_released > u64::MAX - open_orders_owner.native_coin_total {
            return Err(ErrorCodeCustom::Error);
        }
        if e2.native_qty_released > u64::MAX - open_orders_counterparty.native_pc_total {
            return Err(ErrorCodeCustom::Error);
        }
        let c1 = open_orders_owner.credit_locked_pc(e1.native_qty_paid);
        proof {
            assert(c1 is Ok);
        }
        let d1 = open_orders_owner.debit_locked_pc(e1.native_qty_paid);
        proof {
            assert(d1 is Ok);
        }
        let d2 = open_orders_counterparty.debit_locked_coin(e2.native_qty_paid);
        proof {
            assert(d2 is Ok);
        }
        let c2 = open_orders_owner.credit_unlocked_coin(e1.native_qty_released);
        proof {
            assert(c2 is Ok);
        }
        let c3 = open_orders_counterparty.credit_unlocked_pc(e2.native_qty_released);
        proof {
            assert(c3 is Ok);
        }
    } else {
        let c1 = open_orders_owner.credit_locked_pc(e1.native_qty_paid);
        proof {
            assert(c1 is Ok);
        }
    }
    let mut settled = e1;
    settled.finalised = SettleStatus::Settled;
    proof {
        assert(settled.crossed());
    }
    event_q.set_event(event1_slot, settled);
    Ok(())
}


/// Finalizes the ask leg of the matched pair at `(event1_slot, event2_slot)`
/// (bid leg first, ask leg second): the asker's paid base quantity was
/// transferred into custody with outcome `transfer_ok`.  `open_orders_owner`
/// is the ask-side party, `open_orders_counterparty` the bid-side party.  On
/// success the ask leg is marked Settled and the asker's base `total` grows
/// by the amount now held for it; if the bid leg had already settled, the
/// cross-credit runs at once.  Every failure leaves both ledger entries and
/// the event log unchanged.
pub fn finalise_matches_ask(
    open_orders_owner: &mut OpenOrders,
    open_orders_counterparty: &mut OpenOrders,
    event_q: &mut EventQueue,
    event1_slot: usize,
    event2_slot: usize,
    transfer_ok: bool,
) -> (r: Result<(), ErrorCodeCustom>)
    requires
        old(open_orders_owner).wf(),
        old(open_orders_counterparty).wf(),
        old(event_q).wf(),
    ensures
        final(open_orders_owner).wf(),
        final(open_orders_counterparty).wf(),
        final(event_q).wf(),
        r is Err ==> {
            &&& *final(open_orders_owner) == *old(open_orders_owner)
            &&& *final(open_orders_counterparty) == *old(open_orders_counterparty)
            &&& final(event_q).buf@ == old(event_q).buf@
        },
        r is Ok <==> finalise_ask_ok(
            *old(open_orders_counterparty),
            *old(open_orders_owner),
            old(event_q).buf@,
            event1_slot as int,
            event2_slot as int,
            transfer_ok,
        ),
        !slots_readable(old(event_q).buf@, event1_slot as int, event2_slot as int) ==> r
            == Err::<(), ErrorCodeCustom>(ErrorCodeCustom::EmptyQueue),
        (slots_readable(old(event_q).buf@, event1_slot as int, event2_slot as int)
            && is_bid_ask_pair(
            old(event_q).buf@[event1_slot as int]->0,
            old(event_q).buf@[event2_slot as int]->0,
        ) && terminal(old(event_q).buf@[event1_slot as int]->0) && terminal(
            old(event_q).buf@[event2_slot as int]->0,
        )) ==> r == Err::<(), ErrorCodeCustom>(ErrorCodeCustom::BothEventsFinalised),
        (slots_readable(old(event_q).buf@, event1_slot as int, event2_slot as int)
            && is_bid_ask_pair(
            old(event_q).buf@[event1_slot as int]->0,
            old(event_q).buf@[event2_slot as int]->0,
        ) && terminal(old(event_q).buf@[event2_slot as int]->0) && !terminal(
            old(event_q).buf@[event1_slot as int]->0,
        )) ==> r == Err::<(), ErrorCodeCustom>(ErrorCodeCustom::SideAlreadyFinalised),
        r is Ok ==> {
            let e1 = old(event_q).buf@[event1_slot as int]->0;
            let e2 = old(event_q).buf@[event2_slot as int]->0;
            &&& final(event_q).buf@ == old(event_q).buf@.update(
                event2_slot as int,
                Some(with_status(e2, SettleStatus::Settled)),
            )
            &&& (e1.finalised == SettleStatus::Settled ==> {
                &&& final(open_orders_owner).balances_set(
                    *old(open_orders_owner),
                    old(open_orders_owner).native_coin_free as int,
                    old(open_orders_owner).native_coin_total as int,
                    old(open_orders_owner).native_pc_free + e2.native_qty_released,
                    old(open_orders_owner).native_pc_total + e2.native_qty_released,
                )
                &&& final(open_orders_counterparty).balances_set(
                    *old(open_orders_counterparty),
                    old(open_orders_counterparty).native_coin_free + e1.native_qty_released,
                    old(open_orders_counterparty).native_coin_total + e1.native_qty_released,
                    old(open_orders_counterparty).native_pc_free as int,
                    old(open_orders_counterparty).native_pc_total - e1.native_qty_paid,
                )
            })
            &&& (e1.finalised != SettleStatus::Settled ==> {
                &&& final(open_orders_owner).balances_set(
                    *old(open_orders_owner),
                    old(open_orders_owner).native_coin_free as int,
                    old(open_orders_owner).native_coin_total + e2.native_qty_paid,
                    old(open_orders_owner).native_pc_free as int,
                    old(open_orders_owner).native_pc_total as int,
                )
                &&& *final(open_orders_counterparty) == *old(open_orders_counterparty)
            })
        },
{
    if event1_slot >= EVENT_CAPACITY || event2_slot >= EVENT_CAPACITY {
        return Err(ErrorCodeCustom::EmptyQueue);
    }
    let e1 = match event_q.get_event(event1_slot) {
        Option::Some(e) => e,
        Option::None => {
            return Err(ErrorCodeCustom::EmptyQueue);
        },
    };
    let e2 = match event_q.get_event(event2_slot) {
        Option::Some(e) => e,
        Option::None => {
            return Err(ErrorCodeCustom::EmptyQueue);
        },
    };
    if event1_slot == event2_slot {
        return Err(ErrorCodeCustom::EmptyQueue);
    }
    if e1.order_id_second != e2.order_id || e2.order_id_second != e1.order_id {
        return Err(ErrorCodeCustom::Error);
    }
    if !(matches!(e1.side, Side::Bid) && matches!(e2.side, Side::Ask)) {
        return Err(ErrorCodeCustom::WrongSide);
    }
    if !matches!(e2.finalised, SettleStatus::Pending) {
        if !matches!(e1.finalised, SettleStatus::Pending) {
            return Err(ErrorCodeCustom::BothEventsFinalised);
        }
        return Err(ErrorCodeCustom::SideAlreadyFinalised);
    }
    if !transfer_ok {
        return Err(ErrorCodeCustom::TransferFailed);
    }
    // The full settlement quantity arrives in custody: record it as locked.
    if e2.native_qty_paid > u64::MAX - open_orders_owner.native_coin_total {
        return Err(ErrorCodeCustom::Error);
    }
    if matches!(e1.finalised, SettleStatus::Settled) {
        // The pair completes now: pre-check the whole cross-credit, then
        // apply it atomically.
        if e1.native_qty_paid > open_orders_counterparty.native_pc_total
            - open_orders_counterparty.native_pc_free {
            return Err(ErrorCodeCustom::Error);
        }
        if e2.native_qty_released > u64::MAX - open_orders_owner.native_pc_total {
            return Err(ErrorCodeCustom::Error);
        }
        if e1.native_qty_released > u64::MAX - open_orders_counterparty.native_coin_total {
            return Err(ErrorCodeCustom::Error);
        }
        let c1 = open_orders_owner.credit_locked_coin(e2.native_qty_paid);
        proof {
            assert(c1 is Ok);
        }
        let d1 = open_orders_owner.debit_locked_coin(e2.native_qty_paid);
        proof {
            assert(d1 is Ok);
        }
        let d2 = open_orders_counterparty.debit_locked_pc(e1.native_qty_paid);
        proof {
            assert(d2 is Ok);
        }
        let c2 = open_orders_owner.credit_unlocked_pc(e2.native_qty_released);
        proof {
            assert(c2 is Ok);
        }
        let c3 = open_orders_counterparty.credit_unlocked_coin(e1.native_qty_released);
        proof {
            assert(c3 is Ok);
        }
    } else {
        let c1 = open_orders_owner.credit_locked_coin(e2.native_qty_paid);
        proof {
            assert(c1 is Ok);
        }
    }
    let mut settled = e2;
    settled.finalised = SettleStatus::Settled;
    proof {
        assert(settled.crossed());
    }
    event_q.set_event(event2_slot, settled);
    Ok(())
}

/// Every balance move of the penalty fits the counters: slashing the
/// defaulter's margin, compensating the counterparty, and releasing the
/// counterparty's remaining locked margin (its full paid quantity if it had
/// already settled, one percent of it otherwise).
pub open spec fn penalty_feasible(
    bidder: OpenOrders,
    asker: OpenOrders,
    e1: Event,
    e2: Event,
    side: Side,
) -> bool {
    match side {
        Side::Bid => {
            let penalty = e1.native_qty_paid / 100;
            let release = if e2.finalised == SettleStatus::Settled {
                e2.native_qty_paid as int
            } else {
                e2.native_qty_paid as int / 100
            };
            &&& penalty <= bidder.pc_locked()
            &&& asker.native_pc_total + penalty <= u64::MAX
            &&& release <= asker.coin_locked()
        },
        Side::Ask => {
            let penalty = e2.native_qty_paid / 100;
            let release = if e1.finalised == SettleStatus::Settled {
                e1.native_qty_paid as int
            } else {
                e1.native_qty_paid as int / 100
            };
            &&& penalty <= asker.coin_locked()
            &&& bidder.native_coin_total + penalty <= u64::MAX
            &&& release <= bidder.pc_locked()
        },
    }
}

/// Every condition under which the penalty call succeeds: readable slots, an
/// elapsed grace period on both legs, a genuine pair, at least one leg still
/// pending, a still-pending defaulting leg, and feasible balance moves.
pub open spec fn penalty_ok(
    bidder: OpenOrders,
    asker: OpenOrders,
    buf: Seq<Option<Event>>,
    s1: int,
    s2: int,
    side: Side,
    now: u64,
) -> bool {
    &&& slots_readable(buf, s1, s2)
    &&& grace_elapsed(buf[s1]->0, now)
    &&& grace_elapsed(buf[s2]->0, now)
    &&& is_bid_ask_pair(buf[s1]->0, buf[s2]->0)
    &&& !(terminal(buf[s1]->0) && terminal(buf[s2]->0))
    &&& !terminal(
        match side {
            Side::Bid => buf[s1]->0,
            Side::Ask => buf[s2]->0,
        },
    )
    &&& penalty_feasible(bidder, asker, buf[s1]->0, buf[s2]->0, side)
}

/// Penalizes the defaulting (still pending) leg of the matched pair at
/// `(event_slot1, event_slot2)` (bid leg first) after the grace period: one
/// percent of the defaulter's paid quantity is slashed from its locked
/// margin and credited to the counterparty's withdrawable balance; the
/// counterparty's remaining locked margin for the match is released back to
/// it (in full if it had already performed, proportionately otherwise), and
/// both legs are marked Penalized.  A party that already finalized is never
/// the penalized side.  Every failure leaves both ledger entries and the
/// event log unchanged.
pub fn cancel_with_penalty(
    open_orders_bidder: &mut OpenOrders,
    open_orders_asker: &mut OpenOrders,
    event_q: &mut EventQueue,
    side: Side,
    event_slot1: usize,
    event_slot2: usize,
    now: u64,
) -> (r: Result<(), ErrorCodeCustom>)
    requires
        old(open_orders_bidder).wf(),
        old(open_orders_asker).wf(),
        old(event_q).wf(),
    ensures
        final(open_orders_bidder).wf(),
        final(open_orders_asker).wf(),
        final(event_q).wf(),
        r is Err ==> {
            &&& *final(open_orders_bidder) == *old(open_orders_bidder)
            &&& *final(open_orders_asker) == *old(open_orders_asker)
            &&& final(event_q).buf@ == old(event_q).buf@
        },
        r is Ok <==> penalty_ok(
            *old(open_orders_bidder),
            *old(open_orders_asker),
            old(event_q).buf@,
            event_slot1 as int,
            event_slot2 as int,
            side,
            now,
        ),
        !slots_readable(old(event_q).buf@, event_slot1 as int, event_slot2 as int) ==> r
            == Err::<(), ErrorCodeCustom>(ErrorCodeCustom::EmptyQueue),
        slots_readable(old(event_q).buf@, event_slot1 as int, event_slot2 as int) && !(
        grace_elapsed(old(event_q).buf@[event_slot1 as int]->0, now) && grace_elapsed(
            old(event_q).buf@[event_slot2 as int]->0,
            now,
        )) ==> r == Err::<(), ErrorCodeCustom>(ErrorCodeCustom::FinalizeNotExpired),
        (slots_readable(old(event_q).buf@, event_slot1 as int, event_slot2 as int)
            && grace_elapsed(old(event_q).buf@[event_slot1 as int]->0, now) && grace_elapsed(
            old(event_q).buf@[event_slot2 as int]->0,
            now,
        ) && is_bid_ask_pair(
            old(event_q).buf@[event_slot1 as int]->0,
            old(event_q).buf@[event_slot2 as int]->0,
        ) && terminal(old(event_q).buf@[event_slot1 as int]->0) && terminal(
            old(event_q).buf@[event_slot2 as int]->0,
        )) ==> r == Err::<(), ErrorCodeCustom>(ErrorCodeCustom::EventFinalised),
        (slots_readable(old(event_q).buf@, event_slot1 as int, event_slot2 as int)
            && grace_elapsed(old(event_q).buf@[event_slot1 as int]->0, now) && grace_elapsed(
            old(event_q).buf@[event_slot2 as int]->0,
            now,
        ) && is_bid_ask_pair(
            old(event_q).buf@[event_slot1 as int]->0,
            old(event_q).buf@[event_slot2 as int]->0,
        ) && !(terminal(old(event_q).buf@[event_slot1 as int]->0) && terminal(
            old(event_q).buf@[event_slot2 as int]->0,
        )) && terminal(
            match side {
                Side::Bid => old(event_q).buf@[event_slot1 as int]->0,
                Side::Ask => old(event_q).buf@[event_slot2 as int]->0,
            },
        )) ==> r == Err::<(), ErrorCodeCustom>(ErrorCodeCustom::SideAlreadyFinalised),
        r is Ok ==> {
            let e1 = old(event_q).buf@[event_slot1 as int]->0;
            let e2 = old(event_q).buf@[event_slot2 as int]->0;
            &&& final(event_q).buf@ == old(event_q).buf@.update(
                event_slot1 as int,
                Some(with_status(e1, SettleStatus::Penalized)),
            ).update(event_slot2 as int, Some(with_status(e2, SettleStatus::Penalized)))
            &&& (side == Side::Bid ==> {
                let penalty = e1.native_qty_paid / 100;
                let release = if e2.finalised == SettleStatus::Settled {
                    e2.native_qty_paid as int
                } else {
                    e2.native_qty_paid as int / 100
                };
                &&& final(open_orders_bidder).balances_set(
                    *old(open_orders_bidder),
                    old(open_orders_bidder).native_coin_free as int,
                    old(open_orders_bidder).native_coin_total as int,
                    old(open_orders_bidder).native_pc_free as int,
                    old(open_orders_bidder).native_pc_total - penalty,
                )
                &&& final(open_orders_asker).balances_set(
                    *old(open_orders_asker),
                    old(open_orders_asker).native_coin_free + release,
                    old(open_orders_asker).native_coin_total as int,
                    old(open_orders_asker).native_pc_free + penalty,
                    old(open_orders_asker).native_pc_total + penalty,
                )
            })
            &&& (side == Side::Ask ==> {
                let penalty = e2.native_qty_paid / 100;
                let release = if e1.finalised == SettleStatus::Settled {
                    e1.native_qty_paid as int
                } else {
                    e1.native_qty_paid as int / 100
                };
                &&& final(open_orders_asker).balances_set(
                    *old(open_orders_asker),
                    old(open_orders_asker).native_coin_free as int,
                    old(open_orders_asker).native_coin_total - penalty,
                    old(open_orders_asker).native_pc_free as int,
                    old(open_orders_asker).native_pc_total as int,
                )
                &&& final(open_orders_bidder).balances_set(
                    *old(open_orders_bidder),
                    old(open_orders_bidder).native_coin_free + penalty,
                    old(open_orders_bidder).native_coin_total + penalty,
                    old(open_orders_bidder).native_pc_free + release,
                    old(open_orders_bidder).native_pc_total as int,
                )
            })
        },
{
    if event_slot1 >= EVENT_CAPACITY || event_slot2 >= EVENT_CAPACITY {
        return Err(ErrorCodeCustom::EmptyQueue);
    }
    let e1 = match event_q.get_event(event_slot1) {
        Option::Some(e) => e,
        Option::None => {
            return Err(ErrorCodeCustom::EmptyQueue);
        },
    };
    let e2 = match event_q.get_event(event_slot2) {
        Option::Some(e) => e,
        Option::None => {
            return Err(ErrorCodeCustom::EmptyQueue);
        },
    };
    if event_slot1 == event_slot2 {
        return Err(ErrorCodeCustom::EmptyQueue);
    }
    // The mandated delay must have been exceeded on both legs.
    if (now as u128) <= (e1.timestamp as u128) + (GRACE_PERIOD as u128) || (now as u128) <= (
    e2.timestamp as u128) + (GRACE_PERIOD as u128) {
        return Err(ErrorCodeCustom::FinalizeNotExpired);
    }
    if e1.order_id_second != e2.order_id || e2.order_id_second != e1.order_id {
        return Err(ErrorCodeCustom::Error);
    }
    if !(matches!(e1.side, Side::Bid) && matches!(e2.side, Side::Ask)) {
        return Err(ErrorCodeCustom::WrongSide);
    }
    if !matches!(e1.finalised, SettleStatus::Pending) && !matches!(
        e2.finalised,
        SettleStatus::Pending,
    ) {
        return Err(ErrorCodeCustom::EventFinalised);
    }
    match side {
        Side::Bid => {
            if !matches!(e1.finalised, SettleStatus::Pending) {
                return Err(ErrorCodeCustom::SideAlreadyFinalised);
            }
            let penalty = e1.native_qty_paid / 100;
            let release = if matches!(e2.finalised, SettleStatus::Settled) {
                e2.native_qty_paid
            } else {
                e2.native_qty_paid / 100
            };
            if penalty > open_orders_bidder.native_pc_total - open_orders_bidder.native_pc_free {
                return Err(ErrorCodeCustom::Error);
            }
            if penalty > u64::MAX - open_orders_asker.native_pc_total {
                return Err(ErrorCodeCustom::Error);
            }
            if release > open_orders_asker.native_coin_total
                - open_orders_asker.native_coin_free {
                return Err(ErrorCodeCustom::Error);
            }
            let d1 = open_orders_bidder.debit_locked_pc(penalty);
            proof {
                assert(d1 is Ok);
            }
            let c1 = open_orders_asker.credit_unlocked_pc(penalty);
            proof {
                assert(c1 is Ok);
            }
            let u1 = open_orders_asker.unlock_coin(release);
            proof {
                assert(u1 is Ok);
            }
        },
        Side::Ask => {
            if !matches!(e2.finalised, SettleStatus::Pending) {
                return Err(ErrorCodeCustom::SideAlreadyFinalised);
            }
            let penalty = e2.native_qty_paid / 100;
            let release = if matches!(e1.finalised, SettleStatus::Settled) {
                e1.native_qty_paid
            } else {
                e1.native_qty_paid / 100
            };
            if penalty > open_orders_asker.native_coin_total
                - open_orders_asker.native_coin_free {
                return Err(ErrorCodeCustom::Error);
            }
            if penalty > u64::MAX - open_orders_bidder.native_coin_total {
                return Err(ErrorCodeCustom::Error);
            }
            if release > open_orders_bidder.native_pc_total - open_orders_bidder.native_pc_free {
                return Err(ErrorCodeCustom::Error);
            }
            let d1 = open_orders_asker.debit_locked_coin(penalty);
            proof {
                assert(d1 is Ok);
            }
            let c1 = open_orders_bidder.credit_unlocked_coin(penalty);
            proof {
                assert(c1 is Ok);
            }
            let u1 = open_orders_bidder.unlock_pc(release);
            proof {
                assert(u1 is Ok);
            }
        },
    }
    let mut pen1 = e1;
    pen1.finalised = SettleStatus::Penalized;
    let mut pen2 = e2;
    pen2.finalised = SettleStatus::Penalized;
    proof {
        assert(pen1.crossed());
        assert(pen2.crossed());
    }
    event_q.set_event(event_slot1, pen1);
    event_q.set_event(event_slot2, pen2);
    Ok(())
}

} // verus!
