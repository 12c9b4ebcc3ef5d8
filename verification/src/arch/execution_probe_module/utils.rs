//! Configuration, identifiers and safety checks.
use sha2::Digest;
use vstd::prelude::*;
use crate::binary64;
use crate::binary64::Binary64;
use crate::constants;
use crate::constants::{
    FIFTEEN, HUNDRED, ONE, TEN, TWELVE, TWENTY, TWO, ZERO,
};
use crate::decimal;
use crate::decimal::read;
use crate::notation;
use crate::notation::trim_decimal;
use crate::ordering;
use crate::rounding;
use crate::text;
use crate::text::{hex_text, is_blank, owned, push_number, same};

verus! {

pub const TASK_HL_STANDARD: u64 = 10_001;

pub const TASK_HL_FAST_L2: u64 = 10_002;

pub const TASK_HL_PRIVATE: u64 = 10_003;

pub const TASK_HL_ACTION: u64 = 10_004;

pub const TASK_BINANCE_LOB: u64 = 20_001;

pub const TASK_BINANCE_AGG_TRADE: u64 = 20_002;

pub const TASK_OKX_LOB: u64 = 30_001;

pub const TASK_OKX_TRADES_ALL: u64 = 30_002;

pub const TASK_PROBE_TIMER: u64 = 90_001;

pub const LIVE_GUARD_ENV: &'static str = "QUEUE_AWARE_SMDP_ALLOW_LIVE";

/// The whole configuration.
#[derive(Debug)]
pub struct AppConfig {
    pub collector: CollectorConfig,
    pub markets: MarketConfig,
    pub probe: ProbeConfig,
}

/// How events are collected and stored.
#[derive(Debug)]
pub struct CollectorConfig {
    pub host_id: String,
    pub data_root: String,
    pub writer_capacity: usize,
    pub flush_interval_ms: u64,
    pub sync_interval_sec: u64,
    pub zstd_level: i32,
    pub schedule_interval_ms: u64,
    pub account_snapshot_interval_sec: u64,
    pub system_snapshot_interval_sec: u64,
}

/// What is traded and watched.
#[derive(Debug)]
pub struct MarketConfig {
    pub hyperliquid_instrument: String,
    pub hyperliquid_coin: String,
    pub hyperliquid_perp_dex: String,
    pub binance_instrument: String,
    pub okx_instrument: String,
}

/// How probes are run.
#[derive(Debug)]
pub struct ProbeConfig {
    pub enabled: bool,
    pub i_understand_live_orders: bool,
    pub probe_notional_usd: Binary64,
    pub max_order_notional_usd: Binary64,
    pub max_abs_inventory_usd: Binary64,
    pub price_levels_ticks: Vec<u32>,
    pub dwell_seconds: Vec<u64>,
    pub keep_interval_ms: u64,
    pub cooldown_ms: u64,
    pub market_freshness_ms: u64,
    pub default_l2_freshness_ms: u64,
    pub cancel_timeout_ms: u64,
    pub post_timeout_ms: u64,
    pub markout_horizons_ms: Vec<u64>,
    pub ioc_slippage_bps: Binary64,
    pub fair_value_guard_ticks: Binary64,
    pub behavior_seed: u64,
    pub behavior_policy_id: String,
}

/// What is wrong with a configuration.
#[derive(Clone, Copy, Debug, PartialEq, Eq, Structural)]
pub enum ConfigError {
    HostIdEmpty,
    DataRootEmpty,
    CollectorNotPositive,
    ZstdLevelOutOfRange,
    InstrumentMissing,
    LiveOrdersNotAcknowledged,
    LiveGuardMissing,
    ProbeNotionalOutOfRange,
    InventoryLimitOutOfRange,
    ProbeListEmpty,
    HorizonsNotIncreasing,
    ProbeTimingNotPositive,
    SlippageOrGuardOutOfRange,
}

impl ConfigError {
    /// What the error says.
    pub open spec fn text(self) -> Seq<char> {
        match self {
            ConfigError::HostIdEmpty => "collector.host_id must not be empty"@,
            ConfigError::DataRootEmpty => "collector.data_root must not be empty"@,
            ConfigError::CollectorNotPositive => "collector intervals and capacity must be positive"@,
            ConfigError::ZstdLevelOutOfRange => "collector.zstd_level must be between -7 and 22"@,
            ConfigError::InstrumentMissing => "all market instruments must be configured"@,
            ConfigError::LiveOrdersNotAcknowledged => "probe.enabled requires probe.i_understand_live_orders = true"@,
            ConfigError::LiveGuardMissing => "probe.enabled requires QUEUE_AWARE_SMDP_ALLOW_LIVE=1"@,
            ConfigError::ProbeNotionalOutOfRange => "probe_notional_usd must be positive and no greater than max_order_notional_usd"@,
            ConfigError::InventoryLimitOutOfRange => "max_abs_inventory_usd must be finite and no smaller than max_order_notional_usd"@,
            ConfigError::ProbeListEmpty => "probe price levels, dwell times, and markout horizons must not be empty"@,
            ConfigError::HorizonsNotIncreasing => "probe.markout_horizons_ms must be strictly increasing"@,
            ConfigError::ProbeTimingNotPositive => "probe dwell, markout, keep, freshness, and timeout values must be positive"@,
            ConfigError::SlippageOrGuardOutOfRange => "IOC slippage must be 0-100 bps and fair-value guard must be positive"@,
        }
    }

    pub fn message(self) -> (r: &'static str)
        ensures
            r@ == self.text(),
    {
        match self {
            ConfigError::HostIdEmpty => "collector.host_id must not be empty",
            ConfigError::DataRootEmpty => "collector.data_root must not be empty",
            ConfigError::CollectorNotPositive => "collector intervals and capacity must be positive",
            ConfigError::ZstdLevelOutOfRange => "collector.zstd_level must be between -7 and 22",
            ConfigError::InstrumentMissing => "all market instruments must be configured",
            ConfigError::LiveOrdersNotAcknowledged => "probe.enabled requires probe.i_understand_live_orders = true",
            ConfigError::LiveGuardMissing => "probe.enabled requires QUEUE_AWARE_SMDP_ALLOW_LIVE=1",
            ConfigError::ProbeNotionalOutOfRange => "probe_notional_usd must be positive and no greater than max_order_notional_usd",
            ConfigError::InventoryLimitOutOfRange => "max_abs_inventory_usd must be finite and no smaller than max_order_notional_usd",
            ConfigError::ProbeListEmpty => "probe price levels, dwell times, and markout horizons must not be empty",
            ConfigError::HorizonsNotIncreasing => "probe.markout_horizons_ms must be strictly increasing",
            ConfigError::ProbeTimingNotPositive => "probe dwell, markout, keep, freshness, and timeout values must be positive",
            ConfigError::SlippageOrGuardOutOfRange => "IOC slippage must be 0-100 bps and fair-value guard must be positive",
        }
    }
}

/// Every number is larger than the one before it.
pub open spec fn is_increasing(s: Seq<u64>) -> bool {
    forall|i: int, j: int| 0 <= i < j < s.len() ==> s[i] < s[j]
}

fn increasing(list: &Vec<u64>) -> (r: bool)
    ensures
        r == is_increasing(list@),
{
    if list.len() == 0 {
        return true;
    }
    let mut i: usize = 1;
    while i < list.len()
        invariant
            1 <= i <= list@.len(),
            forall|a: int, b: int| 0 <= a < b < i ==> list@[a] < list@[b],
        decreases list@.len() - i,
    {
        if list[i - 1] >= list[i] {
            proof {
                assert(list@[i - 1] >= list@[i as int]);
            }
            return false;
        }
        proof {
            assert forall|a: int, b: int| 0 <= a < b < i + 1 implies list@[a] < list@[b] by {
                if b == i {
                    assert(a == i - 1 || list@[a] < list@[i - 1]);
                }
            }
        }
        i = i + 1;
    }
    true
}

fn has_zero(list: &Vec<u64>) -> (r: bool)
    ensures
        r == list@.contains(0),
{
    let mut i: usize = 0;
    while i < list.len()
        invariant
            i <= list@.len(),
            forall|a: int| 0 <= a < i ==> list@[a] != 0,
        decreases list@.len() - i,
    {
        if list[i] == 0 {
            return true;
        }
        i = i + 1;
    }
    false
}

impl CollectorConfig {
    /// Every interval and the capacity are positive.
    pub open spec fn is_positive(self) -> bool {
        self.writer_capacity > 0 && self.flush_interval_ms > 0 && self.sync_interval_sec > 0
            && self.schedule_interval_ms > 0 && self.account_snapshot_interval_sec > 0
            && self.system_snapshot_interval_sec > 0
    }
}

impl MarketConfig {
    /// Every instrument has a name.
    pub open spec fn is_named(self) -> bool {
        !text::blank(self.hyperliquid_instrument@) && !text::blank(self.hyperliquid_coin@)
            && !text::blank(self.binance_instrument@) && !text::blank(self.okx_instrument@)
            && !text::blank(self.hyperliquid_perp_dex@)
    }
}

impl ProbeConfig {
    /// The notional of a probe is positive and within the largest order.
    pub open spec fn has_sound_notional(self) -> bool {
        let zero = constants::number(ZERO);
        self.probe_notional_usd.finite() && zero.below(self.probe_notional_usd)
            && self.max_order_notional_usd.finite() && zero.below(self.max_order_notional_usd)
            && self.probe_notional_usd.not_above(self.max_order_notional_usd)
    }

    /// The inventory limit is no smaller than the largest order.
    pub open spec fn has_sound_inventory(self) -> bool {
        self.max_abs_inventory_usd.finite() && !self.max_abs_inventory_usd.below(
            self.max_order_notional_usd,
        )
    }

    /// There is something to choose from and something to sample.
    pub open spec fn has_lists(self) -> bool {
        self.price_levels_ticks@.len() > 0 && self.dwell_seconds@.len() > 0
            && self.markout_horizons_ms@.len() > 0
    }

    /// Every time is positive.
    pub open spec fn has_positive_times(self) -> bool {
        !self.dwell_seconds@.contains(0) && !self.markout_horizons_ms@.contains(0)
            && self.keep_interval_ms > 0 && self.market_freshness_ms > 0
            && self.default_l2_freshness_ms > 0 && self.cancel_timeout_ms > 0
            && self.post_timeout_ms > 0
    }

    /// The slippage lies between 0 and 100 basis points, and the guard is
    /// positive.
    pub open spec fn has_sound_guards(self) -> bool {
        let zero = constants::number(ZERO);
        self.ioc_slippage_bps.finite() && zero.not_above(self.ioc_slippage_bps)
            && self.ioc_slippage_bps.not_above(constants::number(HUNDRED))
            && self.fair_value_guard_ticks.finite() && zero.below(self.fair_value_guard_ticks)
    }
}

impl AppConfig {
    /// The first thing that is wrong, given what the live guard of the
    /// environment holds.
    pub open spec fn fault(self, live_guard: Option<Seq<char>>) -> Option<ConfigError> {
        if text::blank(self.collector.host_id@) {
            Some(ConfigError::HostIdEmpty)
        } else if self.collector.data_root@.len() == 0 {
            Some(ConfigError::DataRootEmpty)
        } else if !self.collector.is_positive() {
            Some(ConfigError::CollectorNotPositive)
        } else if !(-7 <= self.collector.zstd_level <= 22) {
            Some(ConfigError::ZstdLevelOutOfRange)
        } else if !self.markets.is_named() {
            Some(ConfigError::InstrumentMissing)
        } else if self.probe.enabled && !self.probe.i_understand_live_orders {
            Some(ConfigError::LiveOrdersNotAcknowledged)
        } else if self.probe.enabled && live_guard != Some("1"@) {
            Some(ConfigError::LiveGuardMissing)
        } else if !self.probe.has_sound_notional() {
            Some(ConfigError::ProbeNotionalOutOfRange)
        } else if !self.probe.has_sound_inventory() {
            Some(ConfigError::InventoryLimitOutOfRange)
        } else if !self.probe.has_lists() {
            Some(ConfigError::ProbeListEmpty)
        } else if !is_increasing(self.probe.markout_horizons_ms@) {
            Some(ConfigError::HorizonsNotIncreasing)
        } else if !self.probe.has_positive_times() {
            Some(ConfigError::ProbeTimingNotPositive)
        } else if !self.probe.has_sound_guards() {
            Some(ConfigError::SlippageOrGuardOutOfRange)
        } else {
            None
        }
    }

    /// Checks the configuration. `live_guard` is the value of the environment
    /// variable [`LIVE_GUARD_ENV`], where it is set.
    pub fn validate(&self, live_guard: Option<&str>) -> (r: Result<(), ConfigError>)
        ensures
            match r {
                Ok(_) => self.fault(guard_text(live_guard)) is None,
                Err(error) => self.fault(guard_text(live_guard)) == Some(error),
            },
    {
        let zero = Binary64 { bits: ZERO };
        if is_blank(self.collector.host_id.as_str()) {
            return Err(ConfigError::HostIdEmpty);
        }
        if self.collector.data_root.as_str().is_empty() {
            return Err(ConfigError::DataRootEmpty);
        }
        if self.collector.writer_capacity == 0 || self.collector.flush_interval_ms == 0
            || self.collector.sync_interval_sec == 0 || self.collector.schedule_interval_ms == 0
            || self.collector.account_snapshot_interval_sec == 0
            || self.collector.system_snapshot_interval_sec == 0 {
            return Err(ConfigError::CollectorNotPositive);
        }
        if self.collector.zstd_level < -7 || self.collector.zstd_level > 22 {
            return Err(ConfigError::ZstdLevelOutOfRange);
        }
        if is_blank(self.markets.hyperliquid_instrument.as_str()) || is_blank(
            self.markets.hyperliquid_coin.as_str(),
        ) || is_blank(self.markets.binance_instrument.as_str()) || is_blank(
            self.markets.okx_instrument.as_str(),
        ) || is_blank(self.markets.hyperliquid_perp_dex.as_str()) {
            return Err(ConfigError::InstrumentMissing);
        }
        if self.probe.enabled && !self.probe.i_understand_live_orders {
            return Err(ConfigError::LiveOrdersNotAcknowledged);
        }
        let guarded = match live_guard {
            Some(value) => same(value, "1"),
            None => false,
        };
        if self.probe.enabled && !guarded {
            return Err(ConfigError::LiveGuardMissing);
        }
        if !self.probe.probe_notional_usd.is_finite() || !zero.lt(self.probe.probe_notional_usd)
            || !self.probe.max_order_notional_usd.is_finite() || !zero.lt(
            self.probe.max_order_notional_usd,
        ) || !self.probe.probe_notional_usd.le(self.probe.max_order_notional_usd) {
            return Err(ConfigError::ProbeNotionalOutOfRange);
        }
        if !self.probe.max_abs_inventory_usd.is_finite() || self.probe.max_abs_inventory_usd.lt(
            self.probe.max_order_notional_usd,
        ) {
            return Err(ConfigError::InventoryLimitOutOfRange);
        }
        if self.probe.price_levels_ticks.len() == 0 || self.probe.dwell_seconds.len() == 0
            || self.probe.markout_horizons_ms.len() == 0 {
            return Err(ConfigError::ProbeListEmpty);
        }
        if !increasing(&self.probe.markout_horizons_ms) {
            return Err(ConfigError::HorizonsNotIncreasing);
        }
        if has_zero(&self.probe.dwell_seconds) || has_zero(&self.probe.markout_horizons_ms)
            || self.probe.keep_interval_ms == 0 || self.probe.market_freshness_ms == 0
            || self.probe.default_l2_freshness_ms == 0 || self.probe.cancel_timeout_ms == 0
            || self.probe.post_timeout_ms == 0 {
            return Err(ConfigError::ProbeTimingNotPositive);
        }
        if !self.probe.ioc_slippage_bps.is_finite() || !zero.le(self.probe.ioc_slippage_bps)
            || !self.probe.ioc_slippage_bps.le(Binary64 { bits: HUNDRED })
            || !self.probe.fair_value_guard_ticks.is_finite() || !zero.lt(
            self.probe.fair_value_guard_ticks,
        ) {
            return Err(ConfigError::SlippageOrGuardOutOfRange);
        }
        Ok(())
    }
}

/// The characters of the live guard.
pub open spec fn guard_text(live_guard: Option<&str>) -> Option<Seq<char>> {
    match live_guard {
        Some(value) => Some(value@),
        None => None,
    }
}

/// Live orders pass three gates: a configuration with an enabled probe is
/// accepted only with the acknowledgement and with the live guard at `1`.
pub proof fn law_live_orders_pass_every_gate(config: AppConfig, live_guard: Option<Seq<char>>)
    requires
        config.fault(live_guard) is None,
        config.probe.enabled,
    ensures
        config.probe.i_understand_live_orders,
        live_guard == Some("1"@),
{
}

/// The process clock: its start on the wall, and the time since then.
#[derive(Clone, Copy, Debug, PartialEq, Eq, Structural)]
pub struct ProcessClock {
    pub process_start_wall_ns: u64,
}

/// A number of nanoseconds within the range of `u64`.
pub open spec fn within_u64(nanoseconds: u128) -> u64 {
    if nanoseconds > u64::MAX {
        u64::MAX
    } else {
        nanoseconds as u64
    }
}

impl ProcessClock {
    /// The clock of a process that starts at a wall time.
    pub fn new(process_start_wall_ns: u64) -> (r: Self)
        ensures
            r.process_start_wall_ns == process_start_wall_ns,
    {
        ProcessClock { process_start_wall_ns }
    }

    /// The monotonic time, from the nanoseconds since the clock's origin.
    pub fn monotonic_ns(&self, since_origin: u128) -> (r: u64)
        ensures
            r == within_u64(since_origin),
    {
        clamp_ns(since_origin)
    }
}

fn clamp_ns(nanoseconds: u128) -> (r: u64)
    ensures
        r == within_u64(nanoseconds),
{
    if nanoseconds > 0xffff_ffff_ffff_ffff {
        0xffff_ffff_ffff_ffff
    } else {
        nanoseconds as u64
    }
}

/// The wall time, from the nanoseconds since the epoch. A system clock before
/// the epoch gives none.
pub fn wall_time_ns(since_epoch: Option<u128>) -> (r: Option<u64>)
    ensures
        r == (match since_epoch {
            Some(nanoseconds) => Some(within_u64(nanoseconds)),
            None => None,
        }),
{
    match since_epoch {
        Some(nanoseconds) => Some(clamp_ns(nanoseconds)),
        None => None,
    }
}

/// The commit that the build names, or `unknown`.
pub fn build_commit(named: Option<&str>) -> (r: String)
    ensures
        r@ == (match named {
            Some(commit) => commit@,
            None => "unknown"@,
        }),
{
    match named {
        Some(commit) => owned(commit),
        None => owned("unknown"),
    }
}

/// The host, the start of the process and its number, joined by hyphens.
pub open spec fn run_id_text(host_id: Seq<char>, start_ns: u64, process_id: u32) -> Seq<char> {
    host_id + "-"@ + text::digits(start_ns as nat) + "-"@ + text::digits(process_id as nat)
}

pub fn make_run_id(host_id: &str, process_start_wall_ns: u64, process_id: u32) -> (r: String)
    ensures
        r@ == run_id_text(host_id@, process_start_wall_ns, process_id),
{
    let mut out = owned(host_id);
    out.append("-");
    push_number(&mut out, process_start_wall_ns);
    out.append("-");
    push_number(&mut out, process_id as u64);
    out
}

/// The bytes of a number, highest first.
pub open spec fn big_endian(n: u64) -> Seq<u8> {
    seq![
        (n / 0x100_0000_0000_0000 % 0x100) as u8,
        (n / 0x1_0000_0000_0000 % 0x100) as u8,
        (n / 0x100_0000_0000 % 0x100) as u8,
        (n / 0x1_0000_0000 % 0x100) as u8,
        (n / 0x100_0000 % 0x100) as u8,
        (n / 0x1_0000 % 0x100) as u8,
        (n / 0x100 % 0x100) as u8,
        (n % 0x100) as u8,
    ]
}

fn push_big_endian(out: &mut Vec<u8>, n: u64)
    ensures
        final(out)@ == old(out)@ + big_endian(n),
{
    let ghost before = out@;
    out.push((n / 0x100_0000_0000_0000 % 0x100) as u8);
    out.push((n / 0x1_0000_0000_0000 % 0x100) as u8);
    out.push((n / 0x100_0000_0000 % 0x100) as u8);
    out.push((n / 0x1_0000_0000 % 0x100) as u8);
    out.push((n / 0x100_0000 % 0x100) as u8);
    out.push((n / 0x1_0000 % 0x100) as u8);
    out.push((n / 0x100 % 0x100) as u8);
    out.push((n % 0x100) as u8);
    proof {
        assert(out@ =~= before + big_endian(n));
    }
}

/// The SHA-256 digest of bytes.
pub uninterp spec fn sha256_digest(bytes: Seq<u8>) -> Seq<u8>;

/// Calls `Sha256::digest`. The digest depends on the bytes alone and has 32
/// bytes; which bytes they are is not stated.
#[verifier::external_body]
fn sha256(bytes: &[u8]) -> (r: Vec<u8>)
    ensures
        r@ == sha256_digest(bytes@),
        r@.len() == 32,
{
    sha2::Sha256::digest(bytes).to_vec()
}

/// The digest of bytes in hexadecimal digits.
pub fn sha256_hex(bytes: &[u8]) -> (r: String)
    ensures
        r@ == text::hex(sha256_digest(bytes@)),
{
    hex_text(sha256(bytes).as_slice())
}

/// A client order id: the first 16 bytes of the digest of the run and the
/// sequence number.
pub open spec fn cloid_text(run_id: Seq<char>, sequence: u64) -> Seq<char> {
    "0x"@ + text::hex(
        sha256_digest(vstd::utf8::encode_utf8(run_id) + big_endian(sequence)).take(16),
    )
}

/// A client order id that the exchange accepts: 32 hexadecimal digits after
/// `0x`.
pub open spec fn is_cloid(s: Seq<char>) -> bool {
    &&& s.len() == 34
    &&& s[0] == '0'
    &&& s[1] == 'x'
    &&& forall|i: int| 2 <= i < 34 ==> is_hex_digit(#[trigger] s[i])
}

/// A hexadecimal digit.
pub open spec fn is_hex_digit(c: char) -> bool {
    0x30 <= c as u32 <= 0x39 || 0x41 <= c as u32 <= 0x46 || 0x61 <= c as u32 <= 0x66
}

proof fn lemma_hex_digits(bytes: Seq<u8>)
    ensures
        text::hex(bytes).len() == 2 * bytes.len(),
        forall|i: int| 0 <= i < text::hex(bytes).len() ==> is_hex_digit(#[trigger] text::hex(bytes)[i]),
    decreases bytes.len(),
{
    if bytes.len() > 0 {
        lemma_hex_digits(bytes.drop_last());
    }
}

pub fn make_cloid(run_id: &str, probe_sequence: u64) -> (r: String)
    ensures
        r@ == cloid_text(run_id@, probe_sequence),
        is_cloid(r@),
{
    let bytes = run_id.as_bytes();
    let mut input: Vec<u8> = Vec::new();
    let mut i: usize = 0;
    while i < bytes.len()
        invariant
            i <= bytes@.len(),
            input@ == bytes@.take(i as int),
        decreases bytes@.len() - i,
    {
        input.push(bytes[i]);
        i = i + 1;
        proof {
            assert(input@ =~= bytes@.take(i as int));
        }
    }
    proof {
        assert(bytes@.take(bytes@.len() as int) =~= bytes@);
    }
    push_big_endian(&mut input, probe_sequence);
    let digest = sha256(input.as_slice());
    let mut half: Vec<u8> = Vec::new();
    let mut j: usize = 0;
    while j < 16
        invariant
            j <= 16,
            digest@.len() == 32,
            half@ == digest@.take(j as int),
        decreases 16 - j,
    {
        half.push(digest[j]);
        j = j + 1;
        proof {
            assert(half@ =~= digest@.take(j as int));
        }
    }
    let mut out = owned("0x");
    out.append(hex_text(half.as_slice()).as_str());
    proof {
        reveal_strlit("0x");
        lemma_hex_digits(half@);
        assert(out@[0] == '0' && out@[1] == 'x');
        assert forall|i: int| 2 <= i < 34 implies is_hex_digit(#[trigger] out@[i]) by {
            assert(out@[i] == text::hex(half@)[i - 2]);
        }
    }
    out
}

/// `base`^`n` times `so_far`, by squaring.
pub open spec fn squared_power(base: Binary64, n: nat, so_far: Binary64) -> Binary64
    decreases n,
{
    let next = if n % 2 == 1 {
        so_far.product(base)
    } else {
        so_far
    };
    if n / 2 == 0 {
        next
    } else {
        squared_power(base.product(base), n / 2, next)
    }
}

/// 10^n as a number.
pub open spec fn ten_power(n: int) -> Binary64 {
    let one = constants::number(ONE);
    if n < 0 {
        one.quotient(squared_power(constants::number(TEN), (-n) as nat, one))
    } else {
        squared_power(constants::number(TEN), n as nat, one)
    }
}

/// 10^n as a number.
pub fn power_of_ten(n: i32) -> (r: Binary64)
    ensures
        r == ten_power(n as int),
{
    let one = Binary64 { bits: ONE };
    let mut base = Binary64 { bits: TEN };
    let mut result = one;
    let size: u64 = if n < 0 {
        (0 - n as i64) as u64
    } else {
        n as u64
    };
    let mut left: u64 = size;
    loop
        invariant
            squared_power(base, left as nat, result) == squared_power(
                constants::number(TEN),
                size as nat,
                constants::number(ONE),
            ),
        ensures
            result == squared_power(constants::number(TEN), size as nat, constants::number(ONE)),
        decreases left,
    {
        if left % 2 == 1 {
            result = result.times(base);
        }
        left = left / 2;
        if left == 0 {
            break;
        }
        base = base.times(base);
    }
    if n < 0 {
        one.over(result)
    } else {
        result
    }
}

/// The price step: five significant digits, but no more decimals than the size
/// decimals leave of six.
pub open spec fn tick_size(price: Binary64, size_decimals: u32, log10_price: Binary64) -> Option<
    Binary64,
> {
    if !price.finite() || price.not_above(constants::number(ZERO)) || size_decimals > 6 {
        None
    } else {
        let digits_before_decimal = log10_price.floored().truncated() + 1;
        Some(
            ten_power(digits_before_decimal - 5).larger(ten_power(-(6 - size_decimals as int))),
        )
    }
}

/// The price step of Hyperliquid. `log10_price` is the base-ten logarithm of
/// the price, which lies between -400 and 400 for every positive price.
pub fn hyperliquid_tick_size(price: Binary64, size_decimals: u32, log10_price: Binary64) -> (r:
    Option<Binary64>)
    requires
        -400 <= log10_price.floored().truncated() <= 400,
    ensures
        r == tick_size(price, size_decimals, log10_price),
{
    if !price.is_finite() || price.le(Binary64 { bits: ZERO }) || size_decimals > 6 {
        return None;
    }
    let digits_before_decimal: i32 = log10_price.floor().to_i32() + 1;
    let significant_digit_tick = power_of_ten(digits_before_decimal - 5);
    let decimal_cap_tick = power_of_ten(-(6 - size_decimals as i32));
    Some(significant_digit_tick.max(decimal_cap_tick))
}

/// A price on the grid of its tick.
pub open spec fn on_grid(price: Binary64, tick: Binary64, round_up: bool) -> Binary64 {
    let units = price.quotient(tick);
    (if round_up {
        units.raised()
    } else {
        units.floored()
    }).product(tick)
}

/// A finite number above zero.
pub open spec fn is_positive(x: Binary64) -> bool {
    x.finite() && !x.not_above(constants::number(ZERO))
}

fn positive(x: Binary64) -> (r: bool)
    ensures
        r == is_positive(x),
{
    x.is_finite() && !x.le(Binary64 { bits: ZERO })
}

proof fn lemma_positive(x: Binary64)
    requires
        is_positive(x),
    ensures
        !x.negative(),
        x.magnitude() > 0,
        !x.nan(),
{
    ordering::lemma_zero_value();
    binary64::lemma_compared(x, x);
}

/// A number with a positive sign that is not less than a number.
pub open spec fn is_unsigned(x: Binary64) -> bool {
    !x.negative() && !x.nan()
}

proof fn lemma_unsigned_signed(magnitude: nat)
    requires
        magnitude <= rounding::INFINITE,
    ensures
        is_unsigned(binary64::signed(false, magnitude)),
{
    binary64::lemma_signed(false, magnitude);
}

proof fn lemma_unsigned_quotient(a: Binary64, b: Binary64)
    requires
        is_unsigned(a),
        a.finite(),
        !b.negative(),
        b.finite(),
        b.magnitude() > 0,
    ensures
        is_unsigned(a.quotient(b)),
{
    reveal(Binary64::quotient);
    binary64::lemma_compared(b, b);
    rounding::lemma_nearest(
        rounding::units(a.magnitude()) * vstd::arithmetic::power2::pow2(1074),
        rounding::units(b.magnitude()),
    );
    lemma_unsigned_signed(
        rounding::nearest(
            rounding::units(a.magnitude()) * vstd::arithmetic::power2::pow2(1074),
            rounding::units(b.magnitude()),
        ),
    );
}

proof fn lemma_unsigned_floor(a: Binary64)
    requires
        is_unsigned(a),
    ensures
        is_unsigned(a.floored()),
        is_unsigned(a.raised()),
{
    reveal(Binary64::floored);
    let p = vstd::arithmetic::power2::pow2(1074) as int;
    vstd::arithmetic::power2::lemma_pow2_pos(1074);
    let b = a.opposite();
    ordering::lemma_opposite(a);
    ordering::lemma_opposite(b.floored());
    let up = a.value() / p;
    let down = b.value() / p;
    vstd::arithmetic::div_mod::lemma_div_pos_is_pos(a.value(), p);
    assert(down <= 0) by {
        vstd::arithmetic::div_mod::lemma_fundamental_div_mod(b.value(), p);
        vstd::arithmetic::div_mod::lemma_mod_bound(b.value(), p);
        assert(down <= 0) by (nonlinear_arith)
            requires
                b.value() == p * down + b.value() % p,
                b.value() % p >= 0,
                b.value() <= 0,
                p > 0,
        ;
    }
    binary64::lemma_signed(false, 0);
    binary64::lemma_signed(true, 0);
    if a.finite() {
        if up > 0 {
            rounding::lemma_nearest(up as nat * p as nat, 1);
            lemma_unsigned_signed(rounding::nearest(up as nat * p as nat, 1));
        }
        if down < 0 {
            rounding::lemma_nearest((-down) as nat * p as nat, 1);
            binary64::lemma_signed(true, rounding::nearest((-down) as nat * p as nat, 1));
        }
    }
}

proof fn lemma_unsigned_product(a: Binary64, b: Binary64)
    requires
        is_unsigned(a),
        !b.negative(),
        b.finite(),
        b.magnitude() > 0,
    ensures
        is_unsigned(a.product(b)),
{
    reveal(Binary64::product);
    let p = vstd::arithmetic::power2::pow2(1074);
    vstd::arithmetic::power2::lemma_pow2_pos(1074);
    let num = rounding::units(a.magnitude()) * rounding::units(b.magnitude());
    rounding::lemma_nearest(num, p);
    lemma_unsigned_signed(rounding::nearest(num, p));
    lemma_unsigned_signed(rounding::INFINITE as nat);
}

/// The text of a price on the grid of its tick.
pub open spec fn grid_price(price: Binary64, tick: Binary64, round_up: bool) -> Option<Seq<char>> {
    if is_positive(price) && is_positive(tick) {
        Some(notation::trimmed(on_grid(price, tick, round_up), tick))
    } else {
        None
    }
}

pub fn round_price_to_tick(price: Binary64, tick: Binary64, round_up: bool) -> (r: Option<String>)
    ensures
        text::optional_text(r) == grid_price(price, tick, round_up),
{
    if !positive(price) || !positive(tick) {
        return None;
    }
    proof {
        lemma_positive(price);
        lemma_positive(tick);
        lemma_unsigned_quotient(price, tick);
        lemma_unsigned_floor(price.quotient(tick));
    }
    let units = price.over(tick);
    let whole = if round_up {
        units.ceil()
    } else {
        units.floor()
    };
    proof {
        lemma_unsigned_product(whole, tick);
    }
    Some(trim_decimal(whole.times(tick), tick))
}

/// The smallest size of whole lots that reaches a notional.
pub open spec fn lots_for(notional: Binary64, price: Binary64, lot_size: Binary64) -> Binary64 {
    notional.quotient(price).quotient(lot_size).raised().larger(constants::number(ONE)).product(
        lot_size,
    )
}

/// The text of the smallest size of whole lots that reaches a notional.
pub open spec fn probe_size(notional: Binary64, price: Binary64, lot_size: Binary64) -> Option<
    Seq<char>,
> {
    if is_positive(notional) && is_positive(price) && is_positive(lot_size) {
        Some(notation::trimmed(lots_for(notional, price, lot_size), lot_size))
    } else {
        None
    }
}

pub fn minimum_probe_size(notional: Binary64, price: Binary64, lot_size: Binary64) -> (r: Option<
    String,
>)
    ensures
        text::optional_text(r) == probe_size(notional, price, lot_size),
{
    if !positive(notional) || !positive(price) || !positive(lot_size) {
        return None;
    }
    let one = Binary64 { bits: ONE };
    let size = notional.over(price);
    let lots = size.over(lot_size).ceil().max(one);
    proof {
        lemma_positive(notional);
        lemma_positive(price);
        lemma_positive(lot_size);
        lemma_unsigned_quotient(notional, price);
        if size.finite() {
            lemma_unsigned_quotient(size, lot_size);
            lemma_unsigned_floor(size.quotient(lot_size));
        } else {
            reveal(Binary64::quotient);
            lemma_unsigned_signed(rounding::INFINITE as nat);
            lemma_unsigned_floor(size.quotient(lot_size));
        }
        ordering::lemma_one();
        lemma_unsigned_product(lots, lot_size);
    }
    Some(trim_decimal(lots.times(lot_size), lot_size))
}

/// The size of a reduce-only order, from the text to which the exchange client
/// normalises it: none where the size or the lot is not positive, or where the
/// text holds no number above zero.
pub open spec fn reduced_size(
    size: Binary64,
    lot_size: Binary64,
    normalized: Seq<char>,
) -> Option<Seq<char>> {
    if is_positive(size) && is_positive(lot_size) && decimal::reading(normalized) is Some
        && constants::number(ZERO).below(decimal::reading(normalized)->0) {
        Some(normalized)
    } else {
        None
    }
}

pub fn reduce_only_size(size: Binary64, lot_size: Binary64, normalized: &str) -> (r: Option<String>)
    ensures
        text::optional_text(r) == reduced_size(size, lot_size, normalized@),
{
    if !positive(size) || !positive(lot_size) {
        return None;
    }
    match read(normalized) {
        Some(value) => if (Binary64 { bits: ZERO }).lt(value) {
            Some(owned(normalized))
        } else {
            None
        },
        None => None,
    }
}

pub fn default_writer_capacity() -> (r: usize)
    ensures
        r == 32_768,
{
    32_768
}

pub fn default_flush_interval_ms() -> (r: u64)
    ensures
        r == 250,
{
    250
}

pub fn default_sync_interval_sec() -> (r: u64)
    ensures
        r == 5,
{
    5
}

pub fn default_zstd_level() -> (r: i32)
    ensures
        r == 3,
{
    3
}

pub fn default_schedule_interval_ms() -> (r: u64)
    ensures
        r == 100,
{
    100
}

pub fn default_account_snapshot_interval_sec() -> (r: u64)
    ensures
        r == 30,
{
    30
}

pub fn default_system_snapshot_interval_sec() -> (r: u64)
    ensures
        r == 30,
{
    30
}

pub fn default_hl_instrument() -> (r: String)
    ensures
        r@ == "XYZ100_USDC_PERP"@,
{
    owned("XYZ100_USDC_PERP")
}

pub fn default_hl_coin() -> (r: String)
    ensures
        r@ == "xyz:XYZ100"@,
{
    owned("xyz:XYZ100")
}

pub fn default_hl_dex() -> (r: String)
    ensures
        r@ == "xyz"@,
{
    owned("xyz")
}

pub fn default_binance_instrument() -> (r: String)
    ensures
        r@ == "QQQ_USDT_PERP"@,
{
    owned("QQQ_USDT_PERP")
}

pub fn default_okx_instrument() -> (r: String)
    ensures
        r@ == "QQQ_USDT_PERP"@,
{
    owned("QQQ_USDT_PERP")
}

pub fn default_probe_notional() -> (r: Binary64)
    ensures
        r == constants::number(TWELVE),
{
    Binary64 { bits: TWELVE }
}

pub fn default_max_order_notional() -> (r: Binary64)
    ensures
        r == constants::number(FIFTEEN),
{
    Binary64 { bits: FIFTEEN }
}

pub fn default_max_abs_inventory() -> (r: Binary64)
    ensures
        r == constants::number(TWENTY),
{
    Binary64 { bits: TWENTY }
}

/// The placement levels, in ticks from the best price of the same side.
pub fn default_price_levels() -> (r: Vec<u32>)
    ensures
        r@ == seq![0u32, 1, 2, 3, 5, 8],
{
    let r = vec![0u32, 1, 2, 3, 5, 8];
    proof {
        assert(r@ =~= seq![0u32, 1, 2, 3, 5, 8]);
    }
    r
}

/// The planned dwell times of an open order.
pub fn default_dwell_seconds() -> (r: Vec<u64>)
    ensures
        r@ == seq![30u64, 60, 120, 300],
{
    let r = vec![30u64, 60, 120, 300];
    proof {
        assert(r@ =~= seq![30u64, 60, 120, 300]);
    }
    r
}

pub fn default_keep_interval_ms() -> (r: u64)
    ensures
        r == 5_000,
{
    5_000
}

pub fn default_cooldown_ms() -> (r: u64)
    ensures
        r == 10_000,
{
    10_000
}

pub fn default_freshness_ms() -> (r: u64)
    ensures
        r == 2_000,
{
    2_000
}

pub fn default_default_l2_freshness_ms() -> (r: u64)
    ensures
        r == 15_000,
{
    15_000
}

pub fn default_cancel_timeout_ms() -> (r: u64)
    ensures
        r == 5_000,
{
    5_000
}

pub fn default_post_timeout_ms() -> (r: u64)
    ensures
        r == 5_000,
{
    5_000
}

/// The times after a fill at which its markout is sampled.
pub fn default_markout_horizons_ms() -> (r: Vec<u64>)
    ensures
        r@ == seq![100u64, 500, 1_000, 5_000],
{
    let r = vec![100u64, 500, 1_000, 5_000];
    proof {
        assert(r@ =~= seq![100u64, 500, 1_000, 5_000]);
    }
    r
}

pub fn default_ioc_slippage_bps() -> (r: Binary64)
    ensures
        r == constants::number(TWENTY),
{
    Binary64 { bits: TWENTY }
}

pub fn default_fair_value_guard_ticks() -> (r: Binary64)
    ensures
        r == constants::number(TWO),
{
    Binary64 { bits: TWO }
}

pub fn default_behavior_seed() -> (r: u64)
    ensures
        r == 20_260_827,
{
    20_260_827
}

pub fn default_behavior_policy_id() -> (r: String)
    ensures
        r@ == "uniform_probe_v1"@,
{
    owned("uniform_probe_v1")
}

} // verus!
