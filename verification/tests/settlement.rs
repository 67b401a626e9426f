use fermi_dex::book::OrderBook;
use fermi_dex::errors::ErrorCodeCustom;
use fermi_dex::events::{EventQueue, SettleStatus};
use fermi_dex::exchange::new_order;
use fermi_dex::ledger::OpenOrders;
use fermi_dex::market::{initialize_market, Market};
use fermi_dex::orders::{OrderType, RequestQueue, Side};
use fermi_dex::settle::{cancel_with_penalty, finalise_matches_ask, finalise_matches_bid};

const MARKET_KEY: u64 = 1;
const TRADER_A: u64 = 11;
const TRADER_B: u64 = 22;
const MATCH_TIME: u64 = 1000;
const BID_SLOT: usize = 0;
const ASK_SLOT: usize = 1;

// Scenario: trader A posts a bid for 10 lots at price 100, trader B posts an
// ask for 10 lots at price 100; one fill event pair is created (the resting
// bid leg in slot 0, the incoming ask leg in slot 1) and both margins are
// posted.  With coin lot size 100 and quote lot size 3, the match moves 1000
// native base units against 3000 native quote units.
fn matched_pair() -> (Market, OrderBook, RequestQueue, EventQueue, OpenOrders, OpenOrders) {
    let mut market = initialize_market(MARKET_KEY, 2, 3, 4, 5, 100, 3, 6, 7, 8, 9, 10);
    let mut book = OrderBook::new();
    let mut req_q = RequestQueue::new();
    let mut event_q = EventQueue::new();
    let mut oo_a = OpenOrders::new();
    let mut oo_b = OpenOrders::new();
    let bid = new_order(
        &mut market, &mut book, &mut req_q, &mut event_q, &mut oo_a,
        TRADER_A, Side::Bid, 100, 10, 1000, OrderType::Limit, MATCH_TIME,
    )
    .unwrap();
    oo_a.credit_locked_pc(bid.margin_amount).unwrap();
    let ask = new_order(
        &mut market, &mut book, &mut req_q, &mut event_q, &mut oo_b,
        TRADER_B, Side::Ask, 100, 10, 0, OrderType::Limit, MATCH_TIME,
    )
    .unwrap();
    oo_b.credit_locked_coin(ask.margin_amount).unwrap();
    assert_eq!(bid.remaining_qty, 10);
    assert_eq!(ask.remaining_qty, 0);
    (market, book, req_q, event_q, oo_a, oo_b)
}

#[test]
fn match_creates_a_cross_referenced_pending_pair() {
    let (_market, book, _req_q, event_q, oo_a, oo_b) = matched_pair();
    let bid_leg = event_q.get_event(BID_SLOT).unwrap();
    let ask_leg = event_q.get_event(ASK_SLOT).unwrap();
    assert_eq!(bid_leg.order_id_second, ask_leg.order_id);
    assert_eq!(ask_leg.order_id_second, bid_leg.order_id);
    assert_eq!(bid_leg.owner, TRADER_A);
    assert_eq!(ask_leg.owner, TRADER_B);
    assert!(matches!(bid_leg.finalised, SettleStatus::Pending));
    assert!(matches!(ask_leg.finalised, SettleStatus::Pending));
    assert!(matches!(bid_leg.side, Side::Bid));
    assert!(matches!(ask_leg.side, Side::Ask));
    assert_eq!(bid_leg.native_qty_paid, 3000);
    assert_eq!(bid_leg.native_qty_released, 1000);
    assert_eq!(ask_leg.native_qty_paid, 1000);
    assert_eq!(ask_leg.native_qty_released, 3000);
    assert_eq!(book.bids.len(), 0);
    assert_eq!(book.asks.len(), 0);
    // posted margins: one percent of each deposit, locked
    assert_eq!(oo_a.native_pc_total, 30);
    assert_eq!(oo_a.native_pc_free, 0);
    assert_eq!(oo_b.native_coin_total, 10);
    assert_eq!(oo_b.native_coin_free, 0);
}

#[test]
fn both_legs_settling_fires_the_cross_credit_once() {
    let (_market, _book, _req_q, mut event_q, mut oo_a, mut oo_b) = matched_pair();
    finalise_matches_bid(&mut oo_a, &mut oo_b, &mut event_q, BID_SLOT, ASK_SLOT, true).unwrap();
    let bid_leg = event_q.get_event(BID_SLOT).unwrap();
    assert!(matches!(bid_leg.finalised, SettleStatus::Settled));
    // the bidder's paid quote quantity arrived in custody, still locked
    assert_eq!(oo_a.native_pc_total, 3030);
    assert_eq!(oo_a.native_pc_free, 0);
    finalise_matches_ask(&mut oo_b, &mut oo_a, &mut event_q, BID_SLOT, ASK_SLOT, true).unwrap();
    let ask_leg = event_q.get_event(ASK_SLOT).unwrap();
    assert!(matches!(ask_leg.finalised, SettleStatus::Settled));
    // cross-credit: A's quote total fell by the paid 3000, B's base total by
    // the paid 1000; A received 1000 base free, B received 3000 quote free
    assert_eq!(oo_a.native_pc_total, 30);
    assert_eq!(oo_a.native_pc_free, 0);
    assert_eq!(oo_a.native_coin_free, 1000);
    assert_eq!(oo_a.native_coin_total, 1000);
    assert_eq!(oo_b.native_coin_total, 10);
    assert_eq!(oo_b.native_coin_free, 0);
    assert_eq!(oo_b.native_pc_free, 3000);
    assert_eq!(oo_b.native_pc_total, 3000);
}

#[test]
fn settled_legs_reject_further_settlement_calls() {
    let (_market, _book, _req_q, mut event_q, mut oo_a, mut oo_b) = matched_pair();
    finalise_matches_bid(&mut oo_a, &mut oo_b, &mut event_q, BID_SLOT, ASK_SLOT, true).unwrap();
    finalise_matches_ask(&mut oo_b, &mut oo_a, &mut event_q, BID_SLOT, ASK_SLOT, true).unwrap();
    let a_before = (
        oo_a.native_pc_free, oo_a.native_pc_total, oo_a.native_coin_free, oo_a.native_coin_total,
    );
    let b_before = (
        oo_b.native_pc_free, oo_b.native_pc_total, oo_b.native_coin_free, oo_b.native_coin_total,
    );
    let r = finalise_matches_bid(&mut oo_a, &mut oo_b, &mut event_q, BID_SLOT, ASK_SLOT, true);
    assert_eq!(r, Err(ErrorCodeCustom::BothEventsFinalised));
    let r = finalise_matches_ask(&mut oo_b, &mut oo_a, &mut event_q, BID_SLOT, ASK_SLOT, true);
    assert_eq!(r, Err(ErrorCodeCustom::BothEventsFinalised));
    let r = cancel_with_penalty(
        &mut oo_a, &mut oo_b, &mut event_q, Side::Ask, BID_SLOT, ASK_SLOT, MATCH_TIME + 61,
    );
    assert_eq!(r, Err(ErrorCodeCustom::EventFinalised));
    assert_eq!(
        a_before,
        (oo_a.native_pc_free, oo_a.native_pc_total, oo_a.native_coin_free, oo_a.native_coin_total)
    );
    assert_eq!(
        b_before,
        (oo_b.native_pc_free, oo_b.native_pc_total, oo_b.native_coin_free, oo_b.native_coin_total)
    );
}

#[test]
fn a_settled_leg_cannot_be_finalized_or_penalized_again() {
    let (_market, _book, _req_q, mut event_q, mut oo_a, mut oo_b) = matched_pair();
    finalise_matches_bid(&mut oo_a, &mut oo_b, &mut event_q, BID_SLOT, ASK_SLOT, true).unwrap();
    // the bid leg is settled, the ask leg still pending
    let r = finalise_matches_bid(&mut oo_a, &mut oo_b, &mut event_q, BID_SLOT, ASK_SLOT, true);
    assert_eq!(r, Err(ErrorCodeCustom::SideAlreadyFinalised));
    // a party that already performed is never the penalized side
    let r = cancel_with_penalty(
        &mut oo_a, &mut oo_b, &mut event_q, Side::Bid, BID_SLOT, ASK_SLOT, MATCH_TIME + 61,
    );
    assert_eq!(r, Err(ErrorCodeCustom::SideAlreadyFinalised));
    assert!(matches!(
        event_q.get_event(BID_SLOT).unwrap().finalised,
        SettleStatus::Settled
    ));
    assert!(matches!(
        event_q.get_event(ASK_SLOT).unwrap().finalised,
        SettleStatus::Pending
    ));
}

#[test]
fn failed_custody_transfer_changes_nothing() {
    let (_market, _book, _req_q, mut event_q, mut oo_a, mut oo_b) = matched_pair();
    let r = finalise_matches_bid(&mut oo_a, &mut oo_b, &mut event_q, BID_SLOT, ASK_SLOT, false);
    assert_eq!(r, Err(ErrorCodeCustom::TransferFailed));
    let bid_leg = event_q.get_event(BID_SLOT).unwrap();
    assert!(matches!(bid_leg.finalised, SettleStatus::Pending));
    assert_eq!(oo_a.native_pc_total, 30);
    assert_eq!(oo_a.native_pc_free, 0);
}

#[test]
fn penalty_waits_for_the_grace_period() {
    let (_market, _book, _req_q, mut event_q, mut oo_a, mut oo_b) = matched_pair();
    // exactly at the boundary the grace period has not elapsed yet
    let r = cancel_with_penalty(
        &mut oo_a, &mut oo_b, &mut event_q, Side::Ask, BID_SLOT, ASK_SLOT, MATCH_TIME + 60,
    );
    assert_eq!(r, Err(ErrorCodeCustom::FinalizeNotExpired));
    assert!(matches!(
        event_q.get_event(ASK_SLOT).unwrap().finalised,
        SettleStatus::Pending
    ));
    // one unit later it succeeds and both legs become penalized
    cancel_with_penalty(
        &mut oo_a, &mut oo_b, &mut event_q, Side::Ask, BID_SLOT, ASK_SLOT, MATCH_TIME + 61,
    )
    .unwrap();
    assert!(matches!(
        event_q.get_event(BID_SLOT).unwrap().finalised,
        SettleStatus::Penalized
    ));
    assert!(matches!(
        event_q.get_event(ASK_SLOT).unwrap().finalised,
        SettleStatus::Penalized
    ));
}

#[test]
fn penalizing_the_silent_asker_compensates_the_bidder() {
    let (_market, _book, _req_q, mut event_q, mut oo_a, mut oo_b) = matched_pair();
    // B never finalizes; after the grace period A penalizes the ask side
    cancel_with_penalty(
        &mut oo_a, &mut oo_b, &mut event_q, Side::Ask, BID_SLOT, ASK_SLOT, MATCH_TIME + 61,
    )
    .unwrap();
    // one percent of B's paid base quantity moved from B's locked margin to
    // A's free balance
    assert_eq!(oo_b.native_coin_total, 0);
    assert_eq!(oo_a.native_coin_free, 10);
    assert_eq!(oo_a.native_coin_total, 10);
    // A also had not finalized: its own one-percent margin is released
    assert_eq!(oo_a.native_pc_free, 30);
    assert_eq!(oo_a.native_pc_total, 30);
    // a second penalty call on the same pair fails and changes nothing
    let r = cancel_with_penalty(
        &mut oo_a, &mut oo_b, &mut event_q, Side::Ask, BID_SLOT, ASK_SLOT, MATCH_TIME + 61,
    );
    assert_eq!(r, Err(ErrorCodeCustom::EventFinalised));
    assert_eq!(oo_b.native_coin_total, 0);
    assert_eq!(oo_a.native_coin_free, 10);
}

#[test]
fn penalty_releases_a_settled_counterparty_in_full() {
    let (_market, _book, _req_q, mut event_q, mut oo_a, mut oo_b) = matched_pair();
    // A performs: the bid leg settles and A's 3000 quote sits locked
    finalise_matches_bid(&mut oo_a, &mut oo_b, &mut event_q, BID_SLOT, ASK_SLOT, true).unwrap();
    assert_eq!(oo_a.native_pc_total, 3030);
    // B never performs; A penalizes the ask side after the grace period
    cancel_with_penalty(
        &mut oo_a, &mut oo_b, &mut event_q, Side::Ask, BID_SLOT, ASK_SLOT, MATCH_TIME + 61,
    )
    .unwrap();
    // the performing bidder gets its full deposited quantity unlocked
    assert_eq!(oo_a.native_pc_free, 3000);
    assert_eq!(oo_a.native_pc_total, 3030);
    // and the penalty moved one percent of B's base margin over
    assert_eq!(oo_a.native_coin_free, 10);
    assert_eq!(oo_b.native_coin_total, 0);
}

#[test]
fn mismatched_pairs_are_rejected() {
    let (mut market, mut book, mut req_q, mut event_q, mut oo_a, mut oo_b) = matched_pair();
    // a second, unrelated pair in slots 2 and 3
    let bid = new_order(
        &mut market, &mut book, &mut req_q, &mut event_q, &mut oo_a,
        TRADER_A, Side::Bid, 100, 1, 100, OrderType::Limit, MATCH_TIME,
    )
    .unwrap();
    oo_a.credit_locked_pc(bid.margin_amount).unwrap();
    let ask = new_order(
        &mut market, &mut book, &mut req_q, &mut event_q, &mut oo_b,
        TRADER_B, Side::Ask, 100, 1, 0, OrderType::Limit, MATCH_TIME,
    )
    .unwrap();
    oo_b.credit_locked_coin(ask.margin_amount).unwrap();
    // slot 0 and slot 3 belong to different matches
    let r = finalise_matches_bid(&mut oo_a, &mut oo_b, &mut event_q, 0, 3, true);
    assert_eq!(r, Err(ErrorCodeCustom::Error));
    let r = cancel_with_penalty(
        &mut oo_a, &mut oo_b, &mut event_q, Side::Ask, 0, 3, MATCH_TIME + 61,
    );
    assert_eq!(r, Err(ErrorCodeCustom::Error));
    // an empty slot is its own condition
    let r = finalise_matches_bid(&mut oo_a, &mut oo_b, &mut event_q, 9, 10, true);
    assert_eq!(r, Err(ErrorCodeCustom::EmptyQueue));
    // the wrong side supplied for a slot is rejected too
    let r = finalise_matches_bid(&mut oo_a, &mut oo_b, &mut event_q, ASK_SLOT, BID_SLOT, true);
    assert_eq!(r, Err(ErrorCodeCustom::WrongSide));
}
