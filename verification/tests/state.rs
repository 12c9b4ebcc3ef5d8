use queue_aware_smdp::arch::execution_probe_module::evaluation::{
    recovery_request_due, trade_consumes_queue,
};
use queue_aware_smdp::arch::execution_probe_module::base::RestRequestGate;
use queue_aware_smdp::arch::execution_probe_module::frames::{
    exchange_timestamp_ns, frame_channel, parse_binance_bbo, parse_hl_book, parse_hl_trades,
    parse_okx_bbo, parse_order_updates, parse_user_fills, parse_xyz_inventory, timestamp_to_ns,
};
use queue_aware_smdp::arch::execution_probe_module::state::{
    BookLevel, BookState, MarketState, PendingMarkout, ProbePhase, ProbeSide, QueueBelief,
};
use queue_aware_smdp::arch::execution_probe_module::utils::{
    TASK_BINANCE_AGG_TRADE, TASK_BINANCE_LOB, TASK_HL_ACTION, TASK_HL_FAST_L2, TASK_HL_PRIVATE,
    TASK_HL_STANDARD, TASK_OKX_LOB, TASK_OKX_TRADES_ALL,
};
use queue_aware_smdp::binary64::Binary64;
use queue_aware_smdp::json::{Json, decode};

fn number(x: f64) -> Binary64 {
    Binary64::from_bits(x.to_bits())
}

fn value(x: Binary64) -> f64 {
    f64::from_bits(x.to_bits())
}

fn frame(text: &str) -> Json {
    decode(text).unwrap()
}

fn test_book(received_monotonic_ns: u64, bid: f64, ask: f64) -> BookState {
    BookState {
        received_monotonic_ns,
        exchange_ts_ns: None,
        bids: vec![BookLevel { price: number(bid), size: number(1.0), order_count: Some(1) }],
        asks: vec![BookLevel { price: number(ask), size: number(1.0), order_count: Some(1) }],
    }
}

#[test]
fn task_ids_are_unique() {
    let ids = [
        TASK_HL_STANDARD,
        TASK_HL_FAST_L2,
        TASK_HL_PRIVATE,
        TASK_HL_ACTION,
        TASK_BINANCE_LOB,
        TASK_BINANCE_AGG_TRADE,
        TASK_OKX_LOB,
        TASK_OKX_TRADES_ALL,
    ];
    let unique: std::collections::HashSet<u64> = ids.iter().copied().collect();
    assert_eq!(unique.len(), ids.len());
}

#[test]
fn only_opposite_taker_flow_consumes_a_resting_queue() {
    assert!(trade_consumes_queue(ProbeSide::Bid, ProbeSide::Ask));
    assert!(trade_consumes_queue(ProbeSide::Ask, ProbeSide::Bid));
    assert!(!trade_consumes_queue(ProbeSide::Bid, ProbeSide::Bid));
    assert!(!trade_consumes_queue(ProbeSide::Ask, ProbeSide::Ask));
}

#[test]
fn recovery_waits_for_its_settlement_deadline() {
    assert!(!recovery_request_due(ProbePhase::Recovering, 999, 1_000));
    assert!(recovery_request_due(ProbePhase::Recovering, 1_000, 1_000));
    assert!(!recovery_request_due(ProbePhase::Resting, 2_000, 1_000));
}

#[test]
fn rest_request_gate_coalesces_until_the_snapshot_completes() {
    let mut gate = RestRequestGate::default();
    assert!(gate.try_begin(1_000, 0));
    assert!(!gate.try_begin(2_000, 0));
    gate.complete();
    assert!(gate.try_begin(2_000, 0));
}

#[test]
fn urgent_request_is_not_blocked_by_the_throttle_after_completion() {
    let mut gate = RestRequestGate::default();
    assert!(gate.try_begin(1_000, 0));
    gate.complete();
    assert!(!gate.try_begin(1_001, 1_000_000_000));
    assert!(gate.try_begin(1_001, 0));
}

#[test]
fn queue_belief_preserves_uncertainty() {
    let mut belief = QueueBelief::initialize(number(100.0), Some(10), number(1.0));
    belief.observe_trade(number(20.0));
    assert_eq!(value(belief.queue_ahead_upper), 79.0);
    assert_eq!(value(belief.queue_ahead_p50), 29.5);
    belief.observe_visible(number(70.0), Some(7));
    assert!(value(belief.queue_ahead_lower) <= value(belief.queue_ahead_p10));
    assert!(value(belief.queue_ahead_p10) <= value(belief.queue_ahead_p50));
    assert!(value(belief.queue_ahead_p50) <= value(belief.queue_ahead_p90));
    assert!(value(belief.queue_ahead_p90) <= value(belief.queue_ahead_upper));
}

#[test]
fn a_fill_empties_the_queue_ahead() {
    let mut belief = QueueBelief::initialize(number(100.0), Some(10), number(1.0));
    assert_eq!(value(belief.queue_ahead_lower), 0.0);
    assert_eq!(value(belief.queue_ahead_p10), 99.0 * 0.1);
    assert_eq!(value(belief.queue_ahead_p90), 99.0 * 0.9);
    belief.observe_visible(number(130.0), None);
    assert_eq!(value(belief.visible_add_since_ack), 30.0);
    assert_eq!(belief.same_price_order_count, None);
    belief.observe_visible(number(120.0), Some(4));
    assert_eq!(value(belief.visible_remove_since_ack), 10.0);
    assert_eq!(value(belief.queue_ahead_p50), 99.0 * 0.5 - 10.0 * 0.5);
    belief.observe_trade(number(f64::NAN));
    assert_eq!(value(belief.same_price_public_trades_since_ack), 0.0);
    belief.observe_partial_fill();
    assert_eq!(value(belief.queue_ahead_upper), 0.0);
    assert_eq!(belief.method_version, "interval_fifo_v1");
}

#[test]
fn parses_private_order_and_fill_frames() {
    let order = frame(
        r#"{
            "channel": "orderUpdates",
            "data": [{
                "order": {"coin":"xyz:XYZ100","side":"B","limitPx":"29500","sz":"0.0003","origSz":"0.0005","oid":42,"timestamp":1,"cloid":"0xabc"},
                "status":"open","statusTimestamp":2
            }]
        }"#,
    );
    let fills = frame(
        r#"{
            "channel":"userFills",
            "data":{"fills":[{"oid":42,"tid":99,"coin":"xyz:XYZ100","side":"B","px":"29500","sz":"0.0002","time":3,"fee":"0.001","feeToken":"USDC"}]}
        }"#,
    );

    let parsed_order = parse_order_updates(&order);
    assert_eq!(parsed_order[0].oid, 42);
    assert_eq!(value(parsed_order[0].remaining_size), 0.0003);
    let parsed_fill = parse_user_fills(&fills);
    assert_eq!(parsed_fill[0].trade_id, "99");
    assert_eq!(value(parsed_fill[0].size), 0.0002);
}

#[test]
fn the_rest_of_private_frames_is_read() {
    let order = frame(
        r#"{"channel":"orderUpdates","data":[
            {"order":{"coin":"c","side":"A","limitPx":1.5,"sz":"2","origSz":"3","oid":"7","timestamp":1,"cloid":""},"status":"canceled","statusTimestamp":"5"},
            {"order":{"coin":"c"},"status":"open","statusTimestamp":2},
            {"order":{"coin":"c","side":"X","limitPx":"1","sz":"2","origSz":"3","oid":7,"timestamp":1},"status":"open","statusTimestamp":5}
        ]}"#,
    );
    let updates = parse_order_updates(&order);
    assert_eq!(updates.len(), 1);
    assert_eq!(updates[0].side, ProbeSide::Ask);
    assert_eq!(updates[0].cloid, None);
    assert_eq!(updates[0].status, "canceled");
    assert_eq!(updates[0].status_timestamp_ms, 5);
    assert_eq!(value(updates[0].price), 1.5);

    let fills = frame(
        r#"{"channel":"userFills","data":[{"oid":1,"tid":"t-2","coin":"c","side":"A","px":"2","sz":"3","time":4}]}"#,
    );
    let parsed = parse_user_fills(&fills);
    assert_eq!(parsed.len(), 1);
    assert_eq!(parsed[0].trade_id, "t-2");
    assert_eq!(parsed[0].fee, None);
    assert_eq!(parsed[0].fee_token, None);
    assert_eq!(
        parsed[0].raw,
        r#"{"coin":"c","oid":1,"px":"2","side":"A","sz":"3","tid":"t-2","time":4}"#
    );

    let nested = frame(
        r#"{"data":{"clearinghouseState":{"assetPositions":[{"position":{"coin":"other","szi":"1"}},{"position":{"coin":"c","szi":"-0.25"}}]}}}"#,
    );
    assert_eq!(parse_xyz_inventory(&nested, "c").map(value), Some(-0.25));
    assert_eq!(parse_xyz_inventory(&nested, "d").map(value), None);
    let flat = frame(r#"{"data":{"assetPositions":[{"position":{"coin":"c","szi":2}}]}}"#);
    assert_eq!(parse_xyz_inventory(&flat, "c").map(value), Some(2.0));
}

#[test]
fn parses_hl_books_without_losing_order_count() {
    let book_frame = frame(
        r#"{
            "channel":"l2Book",
            "data":{"time":10,"levels":[
                [{"px":"29500","sz":"12.5","n":44}],
                [{"px":"29501","sz":"13.5","n":45}]
            ]}
        }"#,
    );
    let book = parse_hl_book(&book_frame, 100).unwrap();
    assert_eq!(book.bids[0].order_count, Some(44));
    assert_eq!(value(book.asks[0].price), 29_501.0);
}

#[test]
fn best_levels_and_trades_are_read() {
    let bbo = frame(r#"{"channel":"bbo","data":{"time":1700000000000,"bbo":[{"px":"1","sz":"2","n":3},null]}}"#);
    let book = parse_hl_book(&bbo, 9).unwrap();
    assert_eq!(book.bids.len(), 1);
    assert_eq!(book.asks.len(), 0);
    assert_eq!(book.exchange_ts_ns, Some(1_700_000_000_000_000_000));
    assert!(book.midpoint().is_none());
    assert!(parse_hl_book(&frame(r#"{"data":{}}"#), 9).is_none());

    let trades = parse_hl_trades(&frame(
        r#"{"data":[{"side":"B","px":"10","sz":"1.5"},{"side":"?","px":"1","sz":"1"},{"side":"A","px":9,"sz":2}]}"#,
    ));
    assert_eq!(trades.len(), 2);
    assert_eq!(trades[0].0, ProbeSide::Bid);
    assert_eq!(value(trades[0].2), 1.5);
    assert_eq!(trades[1].0, ProbeSide::Ask);

    let ticker = frame(r#"{"e":"bookTicker","b":"1.25","a":"1.5"}"#);
    let (bid, ask) = parse_binance_bbo(&ticker).unwrap();
    assert_eq!((value(bid), value(ask)), (1.25, 1.5));
    assert!(parse_binance_bbo(&frame(r#"{"e":"aggTrade","b":"1","a":"2"}"#)).is_none());

    let okx = frame(r#"{"arg":{"channel":"bbo-tbt"},"data":[{"bids":[["7","1"]],"asks":[["8","1"]]}]}"#);
    let (bid, ask) = parse_okx_bbo(&okx).unwrap();
    assert_eq!((value(bid), value(ask)), (7.0, 8.0));
    assert!(parse_okx_bbo(&frame(r#"{"arg":{"channel":"books"},"data":[]}"#)).is_none());
    assert_eq!(frame_channel(&okx), Some("bbo-tbt"));
    assert_eq!(frame_channel(&bbo), Some("bbo"));
}

#[test]
fn timestamps_come_in_nanoseconds() {
    assert_eq!(timestamp_to_ns(1_700_000_000_000), 1_700_000_000_000_000_000);
    assert_eq!(timestamp_to_ns(1_700_000_000_000_000_000), 1_700_000_000_000_000_000);
    assert_eq!(
        exchange_timestamp_ns(&frame(r#"{"data":{"time":1700000000000}}"#)),
        Some(1_700_000_000_000_000_000)
    );
    assert_eq!(exchange_timestamp_ns(&frame("[]")), None);
}

#[test]
fn markout_is_complete_only_after_every_horizon() {
    let mut markout = PendingMarkout {
        probe_id: "probe-1".into(),
        oid: 42,
        fill_id: "42:1".into(),
        side: ProbeSide::Bid,
        fill_price: number(100.0),
        fill_size: number(0.1),
        fill_monotonic_ns: 10,
        horizons_ms: vec![100, 500, 1_000, 5_000],
        next_horizon_index: 3,
    };
    assert!(!markout.is_complete());
    markout.next_horizon_index = 4;
    assert!(markout.is_complete());
}

#[test]
fn quiet_external_quote_remains_valid_without_new_market_events() {
    let mut market = MarketState {
        hl_bbo: test_book(100, 100.0, 101.0),
        hl_fast_l2: test_book(1_000, 100.0, 101.0),
        hl_default_l2: test_book(1, 100.0, 101.0),
        binance_bid: Some(number(99.0)),
        binance_ask: Some(number(100.0)),
        okx_bid: Some(number(99.0)),
        okx_ask: Some(number(100.0)),
        ..Default::default()
    };
    market.mark_feed("hl_bbo", 100);
    market.mark_feed("hl_fast_l2", 1_000);
    market.mark_feed("hl_default_l2", 1);
    market.mark_feed("binance_bbo", 100);
    market.mark_feed("binance_depth", 100);
    market.mark_feed("okx_bbo", 100);
    market.mark_feed("okx_books", 100);

    assert!(market.required_quotes_fresh(2_000, 1_000, 10_000));
}

#[test]
fn venue_requires_an_initialized_quote_even_when_depth_is_live() {
    let mut market = MarketState {
        hl_fast_l2: test_book(1_000, 100.0, 101.0),
        hl_default_l2: test_book(1_000, 100.0, 101.0),
        okx_bid: Some(number(99.0)),
        okx_ask: Some(number(100.0)),
        ..Default::default()
    };
    for feed in ["hl_fast_l2", "hl_default_l2", "binance_depth", "okx_books"] {
        market.mark_feed(feed, 1_000);
    }

    assert!(!market.required_quotes_fresh(2_000, 1_000, 10_000));
}

#[test]
fn fair_value_uses_freshest_valid_hl_book() {
    let mut market = MarketState {
        hl_bbo: test_book(100, 100.0, 102.0),
        hl_fast_l2: test_book(200, 103.0, 104.0),
        hl_default_l2: test_book(300, 106.0, 105.0),
        ..Default::default()
    };

    assert_eq!(market.fair_value().map(value), Some(103.5));
    market.clear_reconnecting_feed("hl_fast_l2");
    assert_eq!(market.fair_value().map(value), Some(101.0));
}

#[test]
fn reconnect_clears_old_quote_and_liveness() {
    let mut market = MarketState {
        binance_bid: Some(number(99.0)),
        binance_ask: Some(number(100.0)),
        ..Default::default()
    };
    market.mark_feed("binance_bbo", 100);
    market.mark_feed("binance_depth", 200);

    market.clear_reconnecting_feed("binance_lob");

    assert_eq!(market.binance_bid, None);
    assert!(!market.feed_last_receive_ns.contains_key("binance_bbo"));
    assert!(!market.feed_last_receive_ns.contains_key("binance_depth"));
}
