use queue_aware_smdp::arch::execution_probe_module::account::{
    AccountAnswers, AccountCollector, FeeRates, FullAnswers, ListedBalance, ListedCoin, ListedOrder,
    ListedPosition, RateUse,
};
use queue_aware_smdp::arch::execution_probe_module::feeds::{
    FeedPlan, Venue, VenueMessages, build_feed_plans,
};
use queue_aware_smdp::arch::execution_probe_module::health::{
    HealthCounter, ProgramOutput, clock_tracking,
};
use queue_aware_smdp::arch::execution_probe_module::utils::MarketConfig;
use queue_aware_smdp::binary64::Binary64;

fn number(x: f64) -> Binary64 {
    Binary64::from_bits(x.to_bits())
}

fn value(x: Binary64) -> f64 {
    f64::from_bits(x.to_bits())
}

fn full() -> FullAnswers {
    FullAnswers {
        balances: Ok(vec![
            ListedBalance { asset: "HYPE".into(), total: number(9.0), available: number(8.0) },
            ListedBalance { asset: "USDC".into(), total: number(100.5), available: number(90.25) },
        ]),
        rate_limit: Ok(RateUse { used: 10, cap: 100, surplus: 3 }),
        fees: Ok(FeeRates { add_rate: "0.00015".into(), cross_rate: "0.00045".into() }),
        metadata: Ok(vec![
            ListedCoin {
                name: "xyz:OTHER".into(),
                size_decimals: 1,
                growth_mode: None,
                deployer_fee_scale: None,
            },
            ListedCoin {
                name: "xyz:XYZ100".into(),
                size_decimals: 4,
                growth_mode: Some("enabled".into()),
                deployer_fee_scale: Some("1.0".into()),
            },
        ]),
    }
}

fn answers(full: Option<FullAnswers>) -> AccountAnswers {
    AccountAnswers {
        orders: Ok(vec![
            ListedOrder {
                order_id: "42".into(),
                cli_order_id: Some("0xabc".into()),
                price: number(1.0),
                size: number(2.0),
                executed_size: number(0.5),
            },
            ListedOrder {
                order_id: "not a number".into(),
                cli_order_id: None,
                price: number(1.0),
                size: number(2.0),
                executed_size: number(0.0),
            },
        ]),
        positions: Ok(vec![
            ListedPosition { inst: "OTHER".into(), size: number(7.0) },
            ListedPosition { inst: "XYZ100_USDC_PERP".into(), size: number(-0.25) },
        ]),
        full,
    }
}

const INSTRUMENT: &str = "XYZ100_USDC_PERP";
const COIN: &str = "xyz:XYZ100";

#[test]
fn a_full_snapshot_is_put_together() {
    let mut collector = AccountCollector::new();
    let snapshot = collector.take_in(&answers(Some(full())), 77, INSTRUMENT, COIN);
    let state = &snapshot.state;
    assert_eq!(snapshot.event_id, "rest-1");
    assert!(snapshot.errors.is_empty());
    assert!(state.rest_snapshot_healthy);
    assert_eq!(state.snapshot_monotonic_ns, 77);
    assert_eq!(state.open_order_count, 2);
    assert_eq!(state.open_orders.len(), 1);
    assert_eq!(state.open_orders[0].oid, 42);
    assert_eq!(state.open_orders[0].cloid.as_deref(), Some("0xabc"));
    assert_eq!(value(state.confirmed_inventory), -0.25);
    assert_eq!(state.account_value.map(value), Some(100.5));
    assert_eq!(state.withdrawable.map(value), Some(90.25));
    assert_eq!(state.action_budget_remaining(), Some(90));
    assert_eq!(state.requests_surplus, Some(3));
    assert_eq!(state.maker_fee.map(value), Some(0.00015));
    assert_eq!(state.taker_fee.map(value), Some(0.00045));
    assert_eq!(state.lot_size.map(value), Some(0.0001));
    assert_eq!(state.size_decimals, Some(4));
    assert_eq!(state.growth_mode.as_deref(), Some("enabled"));
}

#[test]
fn a_smaller_snapshot_keeps_the_rest() {
    let mut collector = AccountCollector::new();
    collector.take_in(&answers(Some(full())), 77, INSTRUMENT, COIN);
    let mut small = answers(None);
    small.positions = Ok(vec![]);
    let snapshot = collector.take_in(&small, 88, INSTRUMENT, COIN);
    assert_eq!(snapshot.event_id, "rest-2");
    assert!(snapshot.state.rest_snapshot_healthy);
    assert_eq!(snapshot.state.snapshot_monotonic_ns, 88);
    assert_eq!(value(snapshot.state.confirmed_inventory), 0.0);
    assert_eq!(snapshot.state.withdrawable.map(value), Some(90.25));
    assert_eq!(snapshot.state.lot_size.map(value), Some(0.0001));
}

#[test]
fn every_failure_is_listed() {
    let mut collector = AccountCollector::new();
    collector.take_in(&answers(Some(full())), 77, INSTRUMENT, COIN);
    let failed = AccountAnswers {
        orders: Err("a".into()),
        positions: Err("b".into()),
        full: Some(FullAnswers {
            balances: Err("c".into()),
            rate_limit: Err("d".into()),
            fees: Err("e".into()),
            metadata: Err("f".into()),
        }),
    };
    let snapshot = collector.take_in(&failed, 99, INSTRUMENT, COIN);
    assert_eq!(
        snapshot.errors,
        [
            "open_orders:a",
            "positions:b",
            "balances:c",
            "user_rate_limit:d",
            "user_fees:e",
            "metadata:f",
            "balances:USDC_not_found",
            "user_fees:unparseable_rate",
        ]
    );
    assert!(!snapshot.state.rest_snapshot_healthy);
    assert_eq!(snapshot.state.withdrawable, None);
    assert_eq!(snapshot.state.open_orders.len(), 1);
    // The last healthy state is still the one that is remembered.
    assert_eq!(collector.cached.snapshot_monotonic_ns, 77);
    assert_eq!(collector.cached.withdrawable.map(value), Some(90.25));
}

#[test]
fn gaps_of_a_full_snapshot_are_failures() {
    let mut collector = AccountCollector::new();
    let mut lacking = full();
    lacking.balances = Ok(vec![]);
    lacking.fees = Ok(FeeRates { add_rate: "free".into(), cross_rate: "0.1".into() });
    lacking.metadata = Ok(vec![]);
    let snapshot = collector.take_in(&answers(Some(lacking)), 1, INSTRUMENT, COIN);
    assert_eq!(
        snapshot.errors,
        [
            "metadata:coin_not_found:xyz:XYZ100",
            "balances:USDC_not_found",
            "user_fees:unparseable_rate",
        ]
    );
    assert_eq!(snapshot.state.maker_fee, None);
    assert_eq!(snapshot.state.taker_fee.map(value), Some(0.1));
}

#[test]
fn the_clock_of_the_host_is_reported() {
    let good = clock_tracking(Ok(ProgramOutput {
        success: true,
        stdout: "in sync".into(),
        stderr: String::new(),
    }));
    assert_eq!(good.chrony_tracking.as_deref(), Some("in sync"));
    assert_eq!(good.chrony_error, None);
    let bad = clock_tracking(Ok(ProgramOutput {
        success: false,
        stdout: "x".into(),
        stderr: "no daemon".into(),
    }));
    assert_eq!(bad.chrony_tracking, None);
    assert_eq!(bad.chrony_error.as_deref(), Some("no daemon"));
    assert_eq!(clock_tracking(Err("missing".into())).chrony_error.as_deref(), Some("missing"));
    let mut counter = HealthCounter { sequence: 0 };
    assert_eq!(counter.next_event_id(), "system-worker-1");
    assert_eq!(counter.next_event_id(), "system-worker-2");
}

fn plans() -> Vec<FeedPlan> {
    let markets = MarketConfig {
        hyperliquid_instrument: INSTRUMENT.into(),
        hyperliquid_coin: COIN.into(),
        hyperliquid_perp_dex: "xyz".into(),
        binance_instrument: "QQQ_USDT_PERP".into(),
        okx_instrument: "QQQ_USDT_PERP".into(),
    };
    build_feed_plans(
        &markets,
        "0xowner",
        VenueMessages {
            hl_url: "wss://hl".into(),
            hl_bbo: "bbo".into(),
            hl_default_l2: "l2".into(),
            hl_trades: "trades".into(),
            hl_fast_l2: "fast".into(),
            hl_action_channel: "actions".into(),
            binance_lob_url: "wss://b1".into(),
            binance_bbo: "b-bbo".into(),
            binance_depth: "b-depth".into(),
            binance_trades_url: "wss://b2".into(),
            binance_trades: "b-trades".into(),
            okx_lob_url: "wss://o1".into(),
            okx_bbo: "o-bbo".into(),
            okx_books: "o-books".into(),
            okx_trades_url: "wss://o2".into(),
            okx_trades: "o-trades".into(),
        },
    )
}

#[test]
fn every_feed_is_planned() {
    let plans = plans();
    assert_eq!(plans.len(), 8);
    let ids: std::collections::HashSet<u64> = plans.iter().map(|plan| plan.task_id).collect();
    assert_eq!(ids.len(), 8);
    assert_eq!(
        plans[0].subscriptions,
        [
            "bbo",
            "l2",
            "trades",
            r#"{"method":"subscribe","subscription":{"coin":"xyz:XYZ100","type":"activeAssetCtx"}}"#,
        ]
    );
    assert_eq!(
        plans[2].subscriptions,
        [
            r#"{"method":"subscribe","subscription":{"type":"orderUpdates","user":"0xowner"}}"#,
            r#"{"method":"subscribe","subscription":{"aggregateByTime":false,"type":"userFills","user":"0xowner"}}"#,
            r#"{"method":"subscribe","subscription":{"dex":"xyz","type":"clearinghouseState","user":"0xowner"}}"#,
        ]
    );
    assert!(plans[2].is_private && !plans[2].is_action);
    assert!(plans[3].is_private && plans[3].is_action);
    assert_eq!(plans[3].channel, "actions");
    assert_eq!(plans[3].feed, "hl_action");
    assert!(plans[3].subscriptions.is_empty());
    assert_eq!(plans[4].market, Venue::BinanceUmFutures);
    assert_eq!(plans[4].subscriptions, ["b-bbo", "b-depth"]);
    assert_eq!(plans[6].channel, "okx_public_lob");
    assert_eq!(plans[7].url, "wss://o2");
    assert!(plans.iter().filter(|plan| plan.is_action).count() == 1);
}
