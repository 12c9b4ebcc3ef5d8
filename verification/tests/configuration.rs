use queue_aware_smdp::arch::execution_probe_module::utils::{
    AppConfig, CollectorConfig, ConfigError, MarketConfig, ProbeConfig, ProcessClock, build_commit,
    default_account_snapshot_interval_sec, default_behavior_policy_id, default_behavior_seed,
    default_binance_instrument, default_cancel_timeout_ms, default_cooldown_ms,
    default_default_l2_freshness_ms, default_dwell_seconds, default_fair_value_guard_ticks,
    default_flush_interval_ms, default_freshness_ms, default_hl_coin, default_hl_dex,
    default_hl_instrument, default_ioc_slippage_bps, default_keep_interval_ms,
    default_markout_horizons_ms, default_max_abs_inventory, default_max_order_notional,
    default_okx_instrument, default_post_timeout_ms, default_price_levels, default_probe_notional,
    default_schedule_interval_ms, default_sync_interval_sec, default_system_snapshot_interval_sec,
    default_writer_capacity, default_zstd_level, hyperliquid_tick_size, make_cloid, make_run_id,
    minimum_probe_size, power_of_ten, reduce_only_size, round_price_to_tick, sha256_hex,
    wall_time_ns,
};
use queue_aware_smdp::binary64::Binary64;

fn number(x: f64) -> Binary64 {
    Binary64::from_bits(x.to_bits())
}

fn value(x: Binary64) -> f64 {
    f64::from_bits(x.to_bits())
}

fn tick(price: f64, size_decimals: u32) -> Option<f64> {
    hyperliquid_tick_size(number(price), size_decimals, number(price.log10())).map(value)
}

fn config() -> AppConfig {
    AppConfig {
        collector: CollectorConfig {
            host_id: "host".into(),
            data_root: "data".into(),
            writer_capacity: default_writer_capacity(),
            flush_interval_ms: default_flush_interval_ms(),
            sync_interval_sec: default_sync_interval_sec(),
            zstd_level: default_zstd_level(),
            schedule_interval_ms: default_schedule_interval_ms(),
            account_snapshot_interval_sec: default_account_snapshot_interval_sec(),
            system_snapshot_interval_sec: default_system_snapshot_interval_sec(),
        },
        markets: MarketConfig {
            hyperliquid_instrument: default_hl_instrument(),
            hyperliquid_coin: default_hl_coin(),
            hyperliquid_perp_dex: default_hl_dex(),
            binance_instrument: default_binance_instrument(),
            okx_instrument: default_okx_instrument(),
        },
        probe: ProbeConfig {
            enabled: false,
            i_understand_live_orders: false,
            probe_notional_usd: default_probe_notional(),
            max_order_notional_usd: default_max_order_notional(),
            max_abs_inventory_usd: default_max_abs_inventory(),
            price_levels_ticks: default_price_levels(),
            dwell_seconds: default_dwell_seconds(),
            keep_interval_ms: default_keep_interval_ms(),
            cooldown_ms: default_cooldown_ms(),
            market_freshness_ms: default_freshness_ms(),
            default_l2_freshness_ms: default_default_l2_freshness_ms(),
            cancel_timeout_ms: default_cancel_timeout_ms(),
            post_timeout_ms: default_post_timeout_ms(),
            markout_horizons_ms: default_markout_horizons_ms(),
            ioc_slippage_bps: default_ioc_slippage_bps(),
            fair_value_guard_ticks: default_fair_value_guard_ticks(),
            behavior_seed: default_behavior_seed(),
            behavior_policy_id: default_behavior_policy_id(),
        },
    }
}

#[test]
fn computes_hyperliquid_price_grid() {
    assert_eq!(tick(29_577.0, 4), Some(1.0));
    assert_eq!(tick(999.9, 4), Some(0.01));
    assert_eq!(tick(1.2345, 4), Some(0.01));
    assert_eq!(
        round_price_to_tick(number(29_577.9), number(1.0), false).as_deref(),
        Some("29577")
    );
    assert_eq!(
        round_price_to_tick(number(29_577.1), number(1.0), true).as_deref(),
        Some("29578")
    );
}

#[test]
fn rounds_probe_size_up_to_lot() {
    assert_eq!(
        minimum_probe_size(number(12.0), number(29_577.0), number(0.0001)).as_deref(),
        Some("0.0005")
    );
}

#[test]
fn live_probe_requires_explicit_config_acknowledgement() {
    let mut config = config();
    config.probe.enabled = true;
    config.probe.i_understand_live_orders = false;
    assert!(config.validate(None).unwrap_err().message().contains("i_understand_live_orders"));
}

#[test]
fn the_defaults_are_valid_and_collect_only() {
    let config = config();
    assert!(config.validate(None).is_ok());
    assert!(config.has_fitting_times());
    assert!(!config.probe.enabled);
    assert_eq!(config.markets.hyperliquid_coin, "xyz:XYZ100");
    assert_eq!(config.probe.price_levels_ticks, [0, 1, 2, 3, 5, 8]);
    assert_eq!(config.probe.dwell_seconds, [30, 60, 120, 300]);
    assert_eq!(config.probe.markout_horizons_ms, [100, 500, 1_000, 5_000]);
    assert_eq!(config.probe.behavior_seed, 20_260_827);
    assert_eq!(config.probe.behavior_policy_id, "uniform_probe_v1");
}

#[test]
fn every_gate_of_live_orders_is_needed() {
    let mut config = config();
    config.probe.enabled = true;
    config.probe.i_understand_live_orders = true;
    assert_eq!(config.validate(None), Err(ConfigError::LiveGuardMissing));
    assert_eq!(config.validate(Some("yes")), Err(ConfigError::LiveGuardMissing));
    assert_eq!(config.validate(Some("1")), Ok(()));
}

#[test]
fn each_fault_of_a_configuration_is_named() {
    let mut c = config();
    c.collector.host_id = " \u{a0}".into();
    assert_eq!(c.validate(None), Err(ConfigError::HostIdEmpty));
    let mut c = config();
    c.collector.data_root = String::new();
    assert_eq!(c.validate(None), Err(ConfigError::DataRootEmpty));
    let mut c = config();
    c.collector.sync_interval_sec = 0;
    assert_eq!(c.validate(None), Err(ConfigError::CollectorNotPositive));
    let mut c = config();
    c.collector.zstd_level = 23;
    assert_eq!(c.validate(None), Err(ConfigError::ZstdLevelOutOfRange));
    c.collector.zstd_level = -7;
    assert_eq!(c.validate(None), Ok(()));
    let mut c = config();
    c.markets.okx_instrument = "".into();
    assert_eq!(c.validate(None), Err(ConfigError::InstrumentMissing));
    let mut c = config();
    c.probe.probe_notional_usd = number(16.0);
    assert_eq!(c.validate(None), Err(ConfigError::ProbeNotionalOutOfRange));
    let mut c = config();
    c.probe.max_abs_inventory_usd = number(f64::INFINITY);
    assert_eq!(c.validate(None), Err(ConfigError::InventoryLimitOutOfRange));
    let mut c = config();
    c.probe.dwell_seconds = vec![];
    assert_eq!(c.validate(None), Err(ConfigError::ProbeListEmpty));
    let mut c = config();
    c.probe.markout_horizons_ms = vec![100, 100];
    assert_eq!(c.validate(None), Err(ConfigError::HorizonsNotIncreasing));
    let mut c = config();
    c.probe.dwell_seconds = vec![30, 0];
    assert_eq!(c.validate(None), Err(ConfigError::ProbeTimingNotPositive));
    let mut c = config();
    c.probe.ioc_slippage_bps = number(100.5);
    assert_eq!(c.validate(None), Err(ConfigError::SlippageOrGuardOutOfRange));
    assert_eq!(
        ConfigError::SlippageOrGuardOutOfRange.message(),
        "IOC slippage must be 0-100 bps and fair-value guard must be positive"
    );
}

#[test]
fn waiting_times_must_be_countable() {
    let mut c = config();
    c.probe.dwell_seconds = vec![10_000_000_000];
    assert!(!c.has_fitting_times());
    let mut c = config();
    c.probe.cooldown_ms = u64::MAX;
    assert!(!c.has_fitting_times());
}

#[test]
fn identifiers_are_made() {
    assert_eq!(make_run_id("tokyo", 17, 4), "tokyo-17-4");
    assert_eq!(
        sha256_hex(b"abc"),
        "ba7816bf8f01cfea414140de5dae2223b00361a396177a9cb410ff61f20015ad"
    );
    let cloid = make_cloid("run", 1);
    assert_eq!(cloid.len(), 34);
    assert!(cloid.starts_with("0x"));
    assert_ne!(cloid, make_cloid("run", 2));
    let mut bytes = b"run".to_vec();
    bytes.extend_from_slice(&1u64.to_be_bytes());
    assert_eq!(cloid[2..], sha256_hex(&bytes)[..32]);
    assert_eq!(build_commit(Some("abc")), "abc");
    assert_eq!(build_commit(None), "unknown");
}

#[test]
fn clocks_stay_in_range() {
    let clock = ProcessClock::new(5);
    assert_eq!(clock.process_start_wall_ns, 5);
    assert_eq!(clock.monotonic_ns(7), 7);
    assert_eq!(clock.monotonic_ns(u128::MAX), u64::MAX);
    assert_eq!(wall_time_ns(Some(9)), Some(9));
    assert_eq!(wall_time_ns(None), None);
}

#[test]
fn powers_and_grids_have_exact_values() {
    for n in -30..=30 {
        assert_eq!(value(power_of_ten(n)), 10f64.powi(n));
    }
    assert_eq!(tick(0.0, 4), None);
    assert_eq!(tick(5.0, 7), None);
    assert_eq!(tick(123_456.0, 0), Some(10.0));
    assert_eq!(tick(0.5, 0), Some(0.00001));
    assert_eq!(round_price_to_tick(number(1.239), number(0.01), false).as_deref(), Some("1.23"));
    assert_eq!(round_price_to_tick(number(1.231), number(0.01), true).as_deref(), Some("1.24"));
    assert_eq!(round_price_to_tick(number(-1.0), number(0.01), true), None);
    assert_eq!(minimum_probe_size(number(12.0), number(0.0), number(0.1)), None);
    assert_eq!(minimum_probe_size(number(10.0), number(3.0), number(0.5)).as_deref(), Some("3.5"));
    assert_eq!(reduce_only_size(number(0.0005), number(0.0001), "0.0005").as_deref(), Some("0.0005"));
    assert_eq!(reduce_only_size(number(0.0), number(0.0001), "0.0000"), None);
}
