//! What a configuration must be to be accepted.
use vstd::prelude::*;
use vstd::arithmetic::power2::*;
use crate::constants;

use crate::ordering;
use crate::text;
use super::super::utils;
use super::super::utils::{AppConfig, CollectorConfig, ConfigError, MarketConfig, ProbeConfig};

verus! {

/// The collector knows its host and its place, every interval is positive, and the
/// level of compression exists.
pub open spec fn is_sound_collector(collector: CollectorConfig) -> bool {
    &&& !text::blank(collector.host_id@)
    &&& collector.data_root@.len() > 0
    &&& collector.writer_capacity != 0
    &&& collector.flush_interval_ms != 0
    &&& collector.sync_interval_sec != 0
    &&& collector.schedule_interval_ms != 0
    &&& collector.account_snapshot_interval_sec != 0
    &&& collector.system_snapshot_interval_sec != 0
    &&& -7 <= collector.zstd_level <= 22
}

/// Every market is named.
pub open spec fn names_every_market(markets: MarketConfig) -> bool {
    &&& !text::blank(markets.hyperliquid_instrument@)
    &&& !text::blank(markets.hyperliquid_coin@)
    &&& !text::blank(markets.hyperliquid_perp_dex@)
    &&& !text::blank(markets.binance_instrument@)
    &&& !text::blank(markets.okx_instrument@)
}

/// A probe is worth something, an order may be worth a probe, and the inventory may
/// be worth an order.
pub open spec fn limits_are_ordered(probe: ProbeConfig) -> bool {
    &&& probe.probe_notional_usd.finite()
    &&& probe.max_order_notional_usd.finite()
    &&& probe.max_abs_inventory_usd.finite()
    &&& 0 < probe.probe_notional_usd.value() <= probe.max_order_notional_usd.value()
        <= probe.max_abs_inventory_usd.value()
}

/// There are levels, dwells and horizons; no time is zero and every horizon is later
/// than the one before it.
pub open spec fn times_are_sound(probe: ProbeConfig) -> bool {
    &&& probe.price_levels_ticks@.len() > 0
    &&& probe.dwell_seconds@.len() > 0
    &&& probe.markout_horizons_ms@.len() > 0
    &&& forall|i: int| 0 <= i < probe.dwell_seconds@.len() ==> #[trigger] probe.dwell_seconds@[i] > 0
    &&& forall|i: int|
        0 <= i < probe.markout_horizons_ms@.len() ==> #[trigger] probe.markout_horizons_ms@[i] > 0
    &&& forall|i: int, j: int|
        0 <= i < j < probe.markout_horizons_ms@.len() ==> probe.markout_horizons_ms@[i]
            < probe.markout_horizons_ms@[j]
    &&& probe.keep_interval_ms > 0
    &&& probe.market_freshness_ms > 0
    &&& probe.default_l2_freshness_ms > 0
    &&& probe.cancel_timeout_ms > 0
    &&& probe.post_timeout_ms > 0
}

/// The slippage is between 0 and 100 basis points, and the guard is positive.
pub open spec fn guards_are_sound(probe: ProbeConfig) -> bool {
    &&& probe.ioc_slippage_bps.finite()
    &&& 0 <= probe.ioc_slippage_bps.value() <= 100 * pow2(1074)
    &&& probe.fair_value_guard_ticks.finite()
    &&& probe.fair_value_guard_ticks.value() > 0
}

/// A configuration is accepted exactly where the collector is sound, every market is
/// named, live orders are acknowledged and guarded where the probe is enabled, the
/// limits are ordered, and times and guards are sound.
pub proof fn law_sound_configurations_are_accepted(
    config: AppConfig,
    live_guard: Option<Seq<char>>,
)
    ensures
        config.fault(live_guard) is None <==> {
            &&& is_sound_collector(config.collector)
            &&& names_every_market(config.markets)
            &&& config.probe.enabled ==> config.probe.i_understand_live_orders && live_guard
                == Some("1"@)
            &&& limits_are_ordered(config.probe)
            &&& times_are_sound(config.probe)
            &&& guards_are_sound(config.probe)
        },
{
    ordering::lemma_zero_value();
    constants::law_constants_are_exact();
    let probe = config.probe;
    let dwells = probe.dwell_seconds@;
    let horizons = probe.markout_horizons_ms@;
    if dwells.contains(0) {
        let i = choose|i: int| 0 <= i < dwells.len() && dwells[i] == 0;
        assert(!(dwells[i] > 0));
    }
    if horizons.contains(0) {
        let i = choose|i: int| 0 <= i < horizons.len() && horizons[i] == 0;
        assert(!(horizons[i] > 0));
    }
    assert(!dwells.contains(0) ==> forall|i: int|
        0 <= i < dwells.len() ==> #[trigger] dwells[i] > 0);
    assert(!horizons.contains(0) ==> forall|i: int|
        0 <= i < horizons.len() ==> #[trigger] horizons[i] > 0);
}

/// A refusal names something that is wrong.
pub proof fn law_refusals_name_the_fault(config: AppConfig, live_guard: Option<Seq<char>>)
    requires
        config.fault(live_guard) is Some,
    ensures
        match config.fault(live_guard)->0 {
            ConfigError::HostIdEmpty => text::blank(config.collector.host_id@),
            ConfigError::DataRootEmpty => config.collector.data_root@.len() == 0,
            ConfigError::CollectorNotPositive => config.collector.writer_capacity == 0
                || config.collector.flush_interval_ms == 0 || config.collector.sync_interval_sec
                == 0 || config.collector.schedule_interval_ms == 0
                || config.collector.account_snapshot_interval_sec == 0
                || config.collector.system_snapshot_interval_sec == 0,
            ConfigError::ZstdLevelOutOfRange => config.collector.zstd_level < -7
                || config.collector.zstd_level > 22,
            ConfigError::InstrumentMissing => !names_every_market(config.markets),
            ConfigError::LiveOrdersNotAcknowledged => config.probe.enabled
                && !config.probe.i_understand_live_orders,
            ConfigError::LiveGuardMissing => config.probe.enabled && live_guard != Some("1"@),
            ConfigError::ProbeNotionalOutOfRange => !limits_are_ordered(config.probe),
            ConfigError::InventoryLimitOutOfRange => !limits_are_ordered(config.probe),
            ConfigError::ProbeListEmpty => config.probe.price_levels_ticks@.len() == 0
                || config.probe.dwell_seconds@.len() == 0 || config.probe.markout_horizons_ms@.len()
                == 0,
            ConfigError::HorizonsNotIncreasing => !utils::is_increasing(
                config.probe.markout_horizons_ms@,
            ),
            ConfigError::ProbeTimingNotPositive => !times_are_sound(config.probe),
            ConfigError::SlippageOrGuardOutOfRange => !guards_are_sound(config.probe),
        },
{
    ordering::lemma_zero_value();
    constants::law_constants_are_exact();
    let probe = config.probe;
    let dwells = probe.dwell_seconds@;
    let horizons = probe.markout_horizons_ms@;
    if dwells.contains(0) {
        let i = choose|i: int| 0 <= i < dwells.len() && dwells[i] == 0;
        assert(!(dwells[i] > 0));
    }
    if horizons.contains(0) {
        let i = choose|i: int| 0 <= i < horizons.len() && horizons[i] == 0;
        assert(!(horizons[i] > 0));
    }
}

} // verus!
