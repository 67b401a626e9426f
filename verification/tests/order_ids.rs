use fermi_dex::orders::{price_from_order_id, seq_from_order_id, side_from_order_id, RequestQueue, Side};

#[test]
fn price_round_trips_for_bids_and_asks() {
    let mut req_q = RequestQueue::new();
    let bid_id = req_q.gen_order_id(100, Side::Bid);
    let ask_id = req_q.gen_order_id(100, Side::Ask);
    assert_eq!(price_from_order_id(bid_id), 100);
    assert_eq!(price_from_order_id(ask_id), 100);
    assert!(matches!(side_from_order_id(bid_id), Side::Bid));
    assert!(matches!(side_from_order_id(ask_id), Side::Ask));
    assert_eq!(seq_from_order_id(bid_id), 0);
    assert_eq!(seq_from_order_id(ask_id), 1);
}

#[test]
fn price_round_trips_at_extremes() {
    let mut req_q = RequestQueue::new();
    let low_bid = req_q.gen_order_id(1, Side::Bid);
    let high_bid = req_q.gen_order_id(u64::MAX, Side::Bid);
    let low_ask = req_q.gen_order_id(1, Side::Ask);
    let high_ask = req_q.gen_order_id(u64::MAX, Side::Ask);
    assert_eq!(price_from_order_id(low_bid), 1);
    assert_eq!(price_from_order_id(high_bid), u64::MAX);
    assert_eq!(price_from_order_id(low_ask), 1);
    assert_eq!(price_from_order_id(high_ask), u64::MAX);
}

#[test]
fn equal_price_orders_sort_by_sequence() {
    let mut req_q = RequestQueue::new();
    let first = req_q.gen_order_id(250, Side::Bid);
    let second = req_q.gen_order_id(250, Side::Bid);
    assert!(first < second);
    let first_ask = req_q.gen_order_id(250, Side::Ask);
    let second_ask = req_q.gen_order_id(250, Side::Ask);
    assert!(first_ask < second_ask);
}

#[test]
fn better_price_sorts_first_on_both_sides() {
    let mut req_q = RequestQueue::new();
    // a later, higher-priced bid still sorts before an earlier, lower one
    let low_bid = req_q.gen_order_id(90, Side::Bid);
    let high_bid = req_q.gen_order_id(110, Side::Bid);
    assert!(high_bid < low_bid);
    // a later, lower-priced ask still sorts before an earlier, higher one
    let high_ask = req_q.gen_order_id(110, Side::Ask);
    let low_ask = req_q.gen_order_id(90, Side::Ask);
    assert!(low_ask < high_ask);
}
