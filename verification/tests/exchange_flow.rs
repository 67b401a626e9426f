use fermi_dex::book::OrderBook;
use fermi_dex::errors::ErrorCodeCustom;
use fermi_dex::events::{EventQueue, SettleStatus, EVENT_CAPACITY};
use fermi_dex::exchange::{
    cancel_bid, deposit_pc_tokens, new_order, withdraw_coins, withdraw_tokens,
};
use fermi_dex::ledger::{OpenOrders, MAX_OPEN_ORDERS};
use fermi_dex::market::{initialize_market, Market};
use fermi_dex::orders::{price_from_order_id, OrderType, RequestQueue, Side};

const MARKET_KEY: u64 = 1;
const TRADER_A: u64 = 11;
const TRADER_B: u64 = 22;
const TRADER_C: u64 = 33;

// coin lot size 100, quote lot size 3: a 10-lot fill at price 100 moves
// 1000 native base units against 3000 native quote units.
fn setup() -> (Market, OrderBook, RequestQueue, EventQueue) {
    let market = initialize_market(MARKET_KEY, 2, 3, 4, 5, 100, 3, 6, 7, 8, 9, 10);
    (market, OrderBook::new(), RequestQueue::new(), EventQueue::new())
}

#[test]
fn resting_order_keeps_book_and_ledger_in_step() {
    let (mut market, mut book, mut req_q, mut event_q) = setup();
    let mut oo_a = OpenOrders::new();
    let outcome = new_order(
        &mut market, &mut book, &mut req_q, &mut event_q, &mut oo_a,
        TRADER_A, Side::Bid, 100, 10, 1000, OrderType::Limit, 1000,
    )
    .unwrap();
    assert_eq!(outcome.remaining_qty, 10);
    assert_eq!(outcome.deposit_amount, 3000);
    assert_eq!(outcome.margin_amount, 30);
    assert_eq!(price_from_order_id(outcome.order_id), 100);
    assert_eq!(book.bids.len(), 1);
    assert_eq!(book.bids[0].order_id, outcome.order_id);
    assert_eq!(book.bids[0].qty, 10);
    assert_eq!(oo_a.orders[outcome.owner_slot as usize], outcome.order_id);
    assert_eq!(market.pc_deposits_total, 3000);
}

#[test]
fn matching_never_crosses_below_the_ask() {
    let (mut market, mut book, mut req_q, mut event_q) = setup();
    let mut oo_a = OpenOrders::new();
    let mut oo_b = OpenOrders::new();
    // bid at 99 against an ask at 100: prices do not cross, nothing fills
    new_order(
        &mut market, &mut book, &mut req_q, &mut event_q, &mut oo_a,
        TRADER_A, Side::Bid, 99, 10, 1000, OrderType::Limit, 1000,
    )
    .unwrap();
    let ask = new_order(
        &mut market, &mut book, &mut req_q, &mut event_q, &mut oo_b,
        TRADER_B, Side::Ask, 100, 10, 0, OrderType::Limit, 1000,
    )
    .unwrap();
    assert_eq!(ask.remaining_qty, 10);
    assert_eq!(book.bids.len(), 1);
    assert_eq!(book.asks.len(), 1);
    for slot in 0..EVENT_CAPACITY {
        assert!(event_q.get_event(slot).is_none());
    }
}

#[test]
fn equal_price_fills_earliest_sequence_first() {
    let (mut market, mut book, mut req_q, mut event_q) = setup();
    let mut oo_a = OpenOrders::new();
    let mut oo_b = OpenOrders::new();
    let mut oo_c = OpenOrders::new();
    let first_ask = new_order(
        &mut market, &mut book, &mut req_q, &mut event_q, &mut oo_b,
        TRADER_B, Side::Ask, 100, 5, 0, OrderType::Limit, 1000,
    )
    .unwrap();
    let second_ask = new_order(
        &mut market, &mut book, &mut req_q, &mut event_q, &mut oo_c,
        TRADER_C, Side::Ask, 100, 5, 0, OrderType::Limit, 1000,
    )
    .unwrap();
    assert!(first_ask.order_id < second_ask.order_id);
    // a bid for exactly five lots takes the earlier ask, never the later one
    let bid = new_order(
        &mut market, &mut book, &mut req_q, &mut event_q, &mut oo_a,
        TRADER_A, Side::Bid, 100, 5, 500, OrderType::Limit, 1000,
    )
    .unwrap();
    assert_eq!(bid.remaining_qty, 0);
    let maker_leg = event_q.get_event(0).unwrap();
    assert_eq!(maker_leg.owner, TRADER_B);
    assert_eq!(maker_leg.order_id, first_ask.order_id);
    assert_eq!(book.asks.len(), 1);
    assert_eq!(book.asks[0].order_id, second_ask.order_id);
}

#[test]
fn cancel_of_absent_order_changes_nothing() {
    let (mut market, mut book, mut req_q, mut event_q) = setup();
    let mut oo_a = OpenOrders::new();
    let outcome = new_order(
        &mut market, &mut book, &mut req_q, &mut event_q, &mut oo_a,
        TRADER_A, Side::Bid, 100, 10, 1000, OrderType::Limit, 1000,
    )
    .unwrap();
    oo_a.credit_locked_pc(outcome.margin_amount).unwrap();
    let free_before = oo_a.native_pc_free;
    let total_before = oo_a.native_pc_total;
    let r = cancel_bid(&market, &mut book, &mut oo_a, 424242, TRADER_A, TRADER_A);
    assert_eq!(r, Err(ErrorCodeCustom::OrderNotFound));
    assert_eq!(book.bids.len(), 1);
    assert_eq!(oo_a.native_pc_free, free_before);
    assert_eq!(oo_a.native_pc_total, total_before);
    assert_eq!(oo_a.orders[outcome.owner_slot as usize], outcome.order_id);
}

#[test]
fn cancel_releases_margin_and_clears_the_slot() {
    let (mut market, mut book, mut req_q, mut event_q) = setup();
    let mut oo_a = OpenOrders::new();
    let outcome = new_order(
        &mut market, &mut book, &mut req_q, &mut event_q, &mut oo_a,
        TRADER_A, Side::Bid, 100, 10, 1000, OrderType::Limit, 1000,
    )
    .unwrap();
    oo_a.credit_locked_pc(outcome.margin_amount).unwrap();
    assert_eq!(oo_a.native_pc_total, 30);
    let freed = cancel_bid(&market, &mut book, &mut oo_a, outcome.order_id, TRADER_A, TRADER_A)
        .unwrap();
    // the freed quantity is what the resting order still held, in base lots
    assert_eq!(freed, 10);
    assert_eq!(book.bids.len(), 0);
    assert_eq!(oo_a.orders[outcome.owner_slot as usize], 0);
    // one percent of the price comes back as free balance
    assert_eq!(oo_a.native_pc_free, 1);
    assert_eq!(oo_a.native_pc_total, 30);
}

#[test]
fn cancel_by_wrong_owner_is_rejected() {
    let (mut market, mut book, mut req_q, mut event_q) = setup();
    let mut oo_a = OpenOrders::new();
    let outcome = new_order(
        &mut market, &mut book, &mut req_q, &mut event_q, &mut oo_a,
        TRADER_A, Side::Bid, 100, 10, 1000, OrderType::Limit, 1000,
    )
    .unwrap();
    oo_a.credit_locked_pc(outcome.margin_amount).unwrap();
    let r = cancel_bid(&market, &mut book, &mut oo_a, outcome.order_id, TRADER_B, TRADER_A);
    assert_eq!(r, Err(ErrorCodeCustom::InvalidAuthority));
    assert_eq!(book.bids.len(), 1);
}

#[test]
fn zero_price_is_rejected() {
    let (mut market, mut book, mut req_q, mut event_q) = setup();
    let mut oo_a = OpenOrders::new();
    let r = new_order(
        &mut market, &mut book, &mut req_q, &mut event_q, &mut oo_a,
        TRADER_A, Side::Bid, 0, 10, 1000, OrderType::Limit, 1000,
    );
    assert_eq!(r.err(), Some(ErrorCodeCustom::InvalidPrice));
    assert!(!oo_a.is_initialized);
}

#[test]
fn oversized_order_value_is_rejected() {
    let (mut market, mut book, mut req_q, mut event_q) = setup();
    let mut oo_a = OpenOrders::new();
    let r = new_order(
        &mut market, &mut book, &mut req_q, &mut event_q, &mut oo_a,
        TRADER_A, Side::Bid, u64::MAX, u64::MAX, 1, OrderType::Limit, 1000,
    );
    assert_eq!(r.err(), Some(ErrorCodeCustom::InsufficientFunds));
}

#[test]
fn wrong_market_and_wrong_authority_are_rejected() {
    let (mut market, mut book, mut req_q, mut event_q) = setup();
    let mut oo_a = OpenOrders::new();
    new_order(
        &mut market, &mut book, &mut req_q, &mut event_q, &mut oo_a,
        TRADER_A, Side::Bid, 100, 1, 100, OrderType::Limit, 1000,
    )
    .unwrap();
    let r = new_order(
        &mut market, &mut book, &mut req_q, &mut event_q, &mut oo_a,
        TRADER_B, Side::Bid, 100, 1, 100, OrderType::Limit, 1000,
    );
    assert_eq!(r.err(), Some(ErrorCodeCustom::WrongAuthority));
    let mut other_market = initialize_market(77, 2, 3, 4, 5, 100, 3, 6, 7, 8, 9, 10);
    let r = new_order(
        &mut other_market, &mut book, &mut req_q, &mut event_q, &mut oo_a,
        TRADER_A, Side::Bid, 100, 1, 100, OrderType::Limit, 1000,
    );
    assert_eq!(r.err(), Some(ErrorCodeCustom::WrongMarket));
}

#[test]
fn seventeenth_open_order_is_rejected_without_eviction() {
    let (mut market, mut book, mut req_q, mut event_q) = setup();
    let mut oo_a = OpenOrders::new();
    for i in 0..MAX_OPEN_ORDERS as u64 {
        new_order(
            &mut market, &mut book, &mut req_q, &mut event_q, &mut oo_a,
            TRADER_A, Side::Bid, 100 + i, 1, 100, OrderType::Limit, 1000,
        )
        .unwrap();
    }
    let first_slot_id = oo_a.orders[0];
    let r = new_order(
        &mut market, &mut book, &mut req_q, &mut event_q, &mut oo_a,
        TRADER_A, Side::Bid, 500, 1, 100, OrderType::Limit, 1000,
    );
    assert_eq!(r.err(), Some(ErrorCodeCustom::TooManyOpenOrders));
    assert_eq!(oo_a.orders[0], first_slot_id);
    assert_eq!(book.bids.len(), MAX_OPEN_ORDERS);
}

#[test]
fn matching_stops_when_the_event_log_is_full() {
    let (mut market, mut book, mut req_q, mut event_q) = setup();
    let mut oo_a = OpenOrders::new();
    let mut oo_b = OpenOrders::new();
    // nine one-lot asks; a nine-lot bid can only write eight event pairs
    for _ in 0..9 {
        new_order(
            &mut market, &mut book, &mut req_q, &mut event_q, &mut oo_b,
            TRADER_B, Side::Ask, 100, 1, 0, OrderType::Limit, 1000,
        )
        .unwrap();
    }
    let bid = new_order(
        &mut market, &mut book, &mut req_q, &mut event_q, &mut oo_a,
        TRADER_A, Side::Bid, 100, 9, 900, OrderType::Limit, 1000,
    )
    .unwrap();
    assert_eq!(bid.remaining_qty, 1);
    // the stop is distinguishable: the outcome reports the full event log
    assert!(bid.queue_full);
    assert_eq!(book.asks.len(), 1);
    assert_eq!(book.bids.len(), 1);
    assert_eq!(book.bids[0].qty, 1);
    for slot in 0..EVENT_CAPACITY {
        let e = event_q.get_event(slot).unwrap();
        assert!(matches!(e.finalised, SettleStatus::Pending));
    }
}

#[test]
fn immediate_or_cancel_discards_the_remainder() {
    let (mut market, mut book, mut req_q, mut event_q) = setup();
    let mut oo_a = OpenOrders::new();
    let mut oo_b = OpenOrders::new();
    new_order(
        &mut market, &mut book, &mut req_q, &mut event_q, &mut oo_b,
        TRADER_B, Side::Ask, 100, 4, 0, OrderType::Limit, 1000,
    )
    .unwrap();
    // fund the bidder so the whole order locks free balance
    deposit_pc_tokens(&mut oo_a, 3000).unwrap();
    oo_a.init(MARKET_KEY, TRADER_A).unwrap();
    deposit_pc_tokens(&mut oo_a, 3000).unwrap();
    let bid = new_order(
        &mut market, &mut book, &mut req_q, &mut event_q, &mut oo_a,
        TRADER_A, Side::Bid, 100, 10, 1000, OrderType::ImmediateOrCancel, 1000,
    )
    .unwrap();
    assert_eq!(bid.remaining_qty, 6);
    assert!(!bid.queue_full);
    assert_eq!(bid.proceeds.coin_credit, 4);
    // four lots filled at 100 cost 1200 native quote; the rest of the order's
    // value is reported as unlocked because nothing rests
    assert_eq!(bid.proceeds.native_pc_debit, 1200);
    assert_eq!(bid.proceeds.native_pc_unlocked, 1800);
    // and the locked free balance beyond the fills' cost is released
    assert_eq!(oo_a.native_pc_free, 1800);
    assert_eq!(oo_a.native_pc_total, 3000);
    assert_eq!(book.bids.len(), 0);
    assert_eq!(book.asks.len(), 0);
}

#[test]
fn deposits_fund_orders_and_withdrawals_are_checked() {
    let (mut market, mut book, mut req_q, mut event_q) = setup();
    let mut oo_a = OpenOrders::new();
    deposit_pc_tokens(&mut oo_a, 3000).unwrap();
    assert_eq!(oo_a.native_pc_free, 3000);
    assert_eq!(oo_a.native_pc_total, 3000);
    // the free balance covers the whole order: nothing to deposit
    oo_a.init(MARKET_KEY, TRADER_A).unwrap();
    // a fresh init zeroes balances, so fund it again
    deposit_pc_tokens(&mut oo_a, 3000).unwrap();
    let outcome = new_order(
        &mut market, &mut book, &mut req_q, &mut event_q, &mut oo_a,
        TRADER_A, Side::Bid, 100, 10, 1000, OrderType::Limit, 1000,
    )
    .unwrap();
    assert_eq!(outcome.deposit_amount, 0);
    assert_eq!(oo_a.native_pc_free, 0);
    assert_eq!(oo_a.native_pc_total, 3000);
    // free <= total holds throughout, and withdrawals are bounded by free
    assert_eq!(
        withdraw_tokens(&mut oo_a, TRADER_A, 1),
        Err(ErrorCodeCustom::InsufficientFunds)
    );
    assert_eq!(
        withdraw_coins(&mut oo_a, TRADER_B, 0),
        Err(ErrorCodeCustom::InvalidAuthority)
    );
    assert!(oo_a.native_pc_free <= oo_a.native_pc_total);
    assert!(oo_a.native_coin_free <= oo_a.native_coin_total);
}

#[test]
fn ledger_init_is_single_shot() {
    let mut oo = OpenOrders::new();
    oo.init(MARKET_KEY, TRADER_A).unwrap();
    assert_eq!(oo.init(MARKET_KEY, TRADER_A), Err(ErrorCodeCustom::AlreadyInitialized));
}
