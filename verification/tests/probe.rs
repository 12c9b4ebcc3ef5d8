use queue_aware_smdp::arch::action_gateway::{ActionContext, ActionKind};
use queue_aware_smdp::arch::execution_probe_module::base::{
    ExecutionProbe, ProbeError, RuntimeIdentity, Surroundings,
};
use queue_aware_smdp::arch::execution_probe_module::commands::{Agenda, Command};
use queue_aware_smdp::arch::execution_probe_module::connections::{FrameError, RawFrame, decode_frame};
use queue_aware_smdp::arch::execution_probe_module::feeds::{VenueMessages, build_feed_plans};
use queue_aware_smdp::arch::execution_probe_module::flatten::FlattenStep;
use queue_aware_smdp::arch::execution_probe_module::orders::CancelStep;
use queue_aware_smdp::arch::execution_probe_module::placement::ProbePlan;
use queue_aware_smdp::arch::execution_probe_module::recording::{
    Aftermath, KeptRecord, aftermath, goes_out,
};
use queue_aware_smdp::arch::execution_probe_module::state::{
    AccountOpenOrder, AccountState, ProbePhase, ProbeSide,
};
use queue_aware_smdp::arch::execution_probe_module::utils::{
    AppConfig, CollectorConfig, MarketConfig, ProbeConfig, ProcessClock, TASK_BINANCE_LOB,
    TASK_HL_ACTION, TASK_HL_FAST_L2, TASK_HL_PRIVATE, TASK_HL_STANDARD, TASK_OKX_LOB,
    TASK_OKX_TRADES_ALL, default_behavior_policy_id, default_behavior_seed, default_dwell_seconds,
    default_markout_horizons_ms, default_price_levels,
};
use queue_aware_smdp::arch::records::{Action, SystemEvent};
use queue_aware_smdp::arch::storage::StorageStream;
use queue_aware_smdp::arch::vocabulary::{FinishReason, Reason, RestReason, RestScope, Trigger};
use queue_aware_smdp::binary64::Binary64;

fn number(x: f64) -> Binary64 {
    Binary64::from_bits(x.to_bits())
}

fn value(x: Binary64) -> f64 {
    f64::from_bits(x.to_bits())
}

const SECOND: u64 = 1_000_000_000;

fn around(monotonic_ns: u64) -> Surroundings {
    Surroundings { wall_ns: 5_000 * SECOND + monotonic_ns, monotonic_ns, writer_remaining: 1_000 }
}

fn config(enabled: bool) -> AppConfig {
    AppConfig {
        collector: CollectorConfig {
            host_id: "host".into(),
            data_root: "data".into(),
            writer_capacity: 1_000,
            flush_interval_ms: 100,
            sync_interval_sec: 1,
            zstd_level: 3,
            schedule_interval_ms: 100,
            account_snapshot_interval_sec: 60,
            system_snapshot_interval_sec: 60,
        },
        markets: MarketConfig {
            hyperliquid_instrument: "XYZ100_USDC_PERP".into(),
            hyperliquid_coin: "xyz:XYZ100".into(),
            hyperliquid_perp_dex: "xyz".into(),
            binance_instrument: "QQQ_USDT_PERP".into(),
            okx_instrument: "QQQ_USDT_PERP".into(),
        },
        probe: ProbeConfig {
            enabled,
            i_understand_live_orders: enabled,
            probe_notional_usd: number(12.0),
            max_order_notional_usd: number(15.0),
            max_abs_inventory_usd: number(20.0),
            price_levels_ticks: default_price_levels(),
            dwell_seconds: default_dwell_seconds(),
            keep_interval_ms: 5_000,
            cooldown_ms: 2_000,
            market_freshness_ms: 3_000,
            default_l2_freshness_ms: 10_000,
            cancel_timeout_ms: 4_000,
            post_timeout_ms: 3_000,
            markout_horizons_ms: default_markout_horizons_ms(),
            ioc_slippage_bps: number(20.0),
            fair_value_guard_ticks: number(2.0),
            behavior_seed: default_behavior_seed(),
            behavior_policy_id: default_behavior_policy_id(),
        },
    }
}

fn module(enabled: bool) -> ExecutionProbe {
    let config = config(enabled);
    let text = |name: &str| name.to_string();
    let plans = build_feed_plans(
        &config.markets,
        "0xowner",
        VenueMessages {
            hl_url: text("u"),
            hl_bbo: text("bbo"),
            hl_default_l2: text("l2"),
            hl_trades: text("trades"),
            hl_fast_l2: text("fast"),
            hl_action_channel: text("actions"),
            binance_lob_url: text("u"),
            binance_bbo: text("b"),
            binance_depth: text("d"),
            binance_trades_url: text("u"),
            binance_trades: text("t"),
            okx_lob_url: text("u"),
            okx_bbo: text("b"),
            okx_books: text("k"),
            okx_trades_url: text("u"),
            okx_trades: text("t"),
        },
    );
    let identity = RuntimeIdentity {
        run_id: "run".into(),
        host_id: "host".into(),
        build_commit: "commit".into(),
        process_id: 3,
        clock: ProcessClock::new(5_000 * SECOND),
    };
    ExecutionProbe::new(config, identity, plans, 110_000)
}

fn feed(module: &mut ExecutionProbe, task_id: u64, text: &str, now_ns: u64) -> Vec<Command> {
    let frame = decode_frame(text).unwrap();
    let raw = RawFrame {
        timestamp_us: 7,
        raw_json: text.to_string(),
        received_monotonic_ns: now_ns,
        decoded_monotonic_ns: now_ns + 1,
    };
    module.admit_frame(task_id, raw, &frame).unwrap();
    module.process_frame(task_id, &frame, now_ns).unwrap()
}

fn quote(module: &mut ExecutionProbe, bid: &str, ask: &str, now_ns: u64) {
    let bbo = format!(
        r#"{{"channel":"bbo","data":{{"time":1,"bbo":[{{"px":"{bid}","sz":"5","n":3}},{{"px":"{ask}","sz":"6","n":4}}]}}}}"#
    );
    feed(module, TASK_HL_STANDARD, &bbo, now_ns);
    let levels: Vec<String> = (0..12)
        .map(|i| {
            let price = bid.parse::<f64>().unwrap() - i as f64;
            format!(r#"{{"px":"{price}","sz":"2.5","n":4}}"#)
        })
        .collect();
    let asks: Vec<String> = (0..12)
        .map(|i| {
            let price = ask.parse::<f64>().unwrap() + i as f64;
            format!(r#"{{"px":"{price}","sz":"2.5","n":4}}"#)
        })
        .collect();
    let book = format!(
        r#"{{"channel":"l2Book","data":{{"time":1,"levels":[[{}],[{}]]}}}}"#,
        levels.join(","),
        asks.join(",")
    );
    feed(module, TASK_HL_FAST_L2, &book, now_ns);
    feed(module, TASK_BINANCE_LOB, r#"{"e":"bookTicker","b":"500","a":"500.5"}"#, now_ns);
    feed(
        module,
        TASK_OKX_LOB,
        r#"{"arg":{"channel":"bbo-tbt"},"data":[{"bids":[["500","1"]],"asks":[["501","1"]]}]}"#,
        now_ns,
    );
}

fn account(now_ns: u64, inventory: f64) -> AccountState {
    AccountState {
        snapshot_monotonic_ns: now_ns,
        rest_snapshot_healthy: true,
        confirmed_inventory: number(inventory),
        account_value: Some(number(100.0)),
        withdrawable: Some(number(90.0)),
        requests_used: Some(5),
        requests_cap: Some(100),
        requests_surplus: Some(0),
        maker_fee: Some(number(0.0001)),
        taker_fee: Some(number(0.0004)),
        lot_size: Some(number(0.0001)),
        size_decimals: Some(4),
        ..AccountState::default()
    }
}

fn ready(enabled: bool) -> ExecutionProbe {
    let mut module = module(enabled);
    for plan in [
        10_001u64, 10_002, 10_003, 10_004, 20_001, 20_002, 30_001, TASK_OKX_TRADES_ALL,
    ] {
        module.begin_connection(plan).unwrap();
    }
    quote(&mut module, "29500", "29501", SECOND);
    let commands = module.refresh_account_state(Some(account(SECOND, 0.0)));
    assert!(matches!(commands[..], [Command::Reconcile]));
    module
}

fn log10_middle(module: &ExecutionProbe) -> Binary64 {
    number(value(module.placement_reference().unwrap()).log10())
}

fn plan(module: &mut ExecutionProbe, now_ns: u64) -> ProbePlan {
    let log10 = log10_middle(module);
    module.maybe_start_probe(around(now_ns), log10).unwrap().unwrap()
}

fn placed(module: &mut ExecutionProbe, now_ns: u64) {
    let plan = plan(module, now_ns);
    module.place_sent(plan, 1, now_ns);
}

fn update(module: &mut ExecutionProbe, status: &str, left: &str, now_ns: u64) -> Vec<Command> {
    let probe = module.active_probe.as_ref().unwrap();
    let frame = format!(
        r#"{{"channel":"orderUpdates","data":[{{"order":{{"coin":"xyz:XYZ100","side":"B","limitPx":"1","sz":"{left}","origSz":"0.0005","oid":42,"timestamp":1,"cloid":"{}"}},"status":"{status}","statusTimestamp":2}}]}}"#,
        probe.cloid
    );
    let mut commands = feed(module, TASK_HL_PRIVATE, &frame, now_ns);
    assert_eq!(commands.len(), 1);
    match commands.remove(0) {
        Command::OrderUpdate { update, received_ns } => {
            assert_eq!(received_ns, now_ns);
            module.process_order_update(&update, received_ns, now_ns)
        }
        other => panic!("unexpected {other:?}"),
    }
}

fn fill(module: &mut ExecutionProbe, oid: u64, trade: u64, side: &str, size: &str, now_ns: u64) -> Vec<Command> {
    let frame = format!(
        r#"{{"channel":"userFills","data":{{"fills":[{{"oid":{oid},"tid":{trade},"coin":"xyz:XYZ100","side":"{side}","px":"29500","sz":"{size}","time":3,"fee":"0.0015","feeToken":"USDC"}}]}}}}"#
    );
    let mut commands = feed(module, TASK_HL_PRIVATE, &frame, now_ns);
    assert_eq!(commands.len(), 1);
    match commands.remove(0) {
        Command::UserFill { fill, received_ns } => module.process_user_fill(fill, received_ns),
        other => panic!("unexpected {other:?}"),
    }
}

fn resting(now_ns: u64) -> ExecutionProbe {
    let mut module = ready(true);
    placed(&mut module, now_ns);
    let commands = update(&mut module, "open", "0.0005", now_ns);
    assert!(matches!(
        commands[..],
        [Command::Keep { trigger: Trigger::OwnOrderOpen, reason: Reason::AcknowledgedRestingOrder }]
    ));
    module
}

fn phase(module: &ExecutionProbe) -> ProbePhase {
    module.active_probe.as_ref().unwrap().phase
}

#[test]
fn a_collector_alone_never_starts_a_probe() {
    let mut module = ready(false);
    let log10 = log10_middle(&module);
    assert!(module.maybe_start_probe(around(2 * SECOND), log10).unwrap().is_none());
    assert!(module.active_probe.is_none());
    let step = module.cancel_active(
        Trigger::Timer,
        Reason::MarketSourceStale,
        around(2 * SECOND),
        "1".into(),
        "1".into(),
    );
    assert!(matches!(step, CancelStep::Nothing));
    let step = module.maybe_flatten(true, around(2 * SECOND), number(0.0), "1").unwrap();
    assert!(matches!(step, FlattenStep::Wait(commands) if commands.is_empty()));
}

#[test]
fn a_planned_order_is_accepted_by_the_client() {
    let mut module = ready(true);
    let plan = plan(&mut module, 2 * SECOND);
    let context = &plan.dispatch.context;
    for text in [context.price.as_ref().unwrap(), context.size.as_ref().unwrap()] {
        assert!(text.chars().all(|c| c.is_ascii_digit() || c == '.'), "{text}");
        assert!(!text.contains('.') || !text.ends_with(['0', '.']), "{text}");
    }
    assert!(module.gateway.place_alo(context).is_ok());
}

#[test]
fn a_probe_is_planned_in_a_cell() {
    let mut module = ready(true);
    assert!(module.eligible(around(2 * SECOND)));
    let candidates = module.probe_candidates();
    assert_eq!(candidates.len(), 48);
    let plan = plan(&mut module, 2 * SECOND);
    let decision = &plan.dispatch.decision;
    let context: &ActionContext = &plan.dispatch.context;
    assert_eq!(decision.candidate_actions.len(), 48);
    assert_eq!(value(decision.selection_probability), 1.0 / 48.0);
    assert_eq!(decision.decision_id, "decision-1");
    assert_eq!(decision.state_snapshot_id, "snapshot-decision-1");
    assert_eq!(decision.behavior_policy_id, "uniform_probe_v1");
    assert_eq!(decision.risk_limits.max_active_probe_orders, 1);
    assert_eq!(context.action_id, "action-1");
    assert_eq!(context.size.as_deref(), Some("0.0005"));
    assert_eq!(value(plan.size), 0.0005);
    assert_eq!(value(plan.tick_size), 1.0);
    let level = plan.price_level_ticks as f64;
    let expected = match plan.side {
        ProbeSide::Bid => 29_500.0 - level,
        ProbeSide::Ask => 29_501.0 + level,
    };
    assert_eq!(value(plan.price), expected);
    assert_eq!(context.price.as_deref(), Some(format!("{expected}").as_str()));
    match &decision.selected_action {
        Action::Place { side, price_level_ticks, planned_dwell_sec, .. } => {
            assert_eq!(*side, plan.side);
            assert_eq!(*price_level_ticks, plan.price_level_ticks);
            assert_eq!(plan.planned_dwell_ms, planned_dwell_sec * 1_000);
        }
        other => panic!("unexpected {other:?}"),
    }
}

#[test]
fn every_cell_is_drawn_sooner_or_later() {
    let mut module = ready(true);
    let mut seen = std::collections::HashSet::new();
    for _ in 0..600 {
        quote(&mut module, "29500", "29501", SECOND);
        let plan = plan(&mut module, 2 * SECOND);
        seen.insert((plan.side == ProbeSide::Bid, plan.price_level_ticks, plan.planned_dwell_ms));
    }
    assert_eq!(seen.len(), 48);
}

#[test]
fn a_probe_waits_for_everything_it_needs() {
    let start = around(2 * SECOND);
    let mut module = ready(true);
    module.cooldown_until_ns = 3 * SECOND;
    assert!(!module.eligible(start));
    let mut module = ready(true);
    module.account.open_order_count = 1;
    assert!(!module.eligible(start));
    let mut module = ready(true);
    module.account.confirmed_inventory = number(0.001);
    assert!(!module.eligible(start));
    let mut module = ready(true);
    module.account.requests_used = Some(91);
    assert!(!module.eligible(start));
    module.account.requests_used = Some(90);
    assert!(module.eligible(start));
    let mut module = ready(true);
    module.account.withdrawable = Some(number(14.0));
    assert!(!module.eligible(start));
    let module = ready(true);
    assert!(!module.eligible(around(5 * SECOND)));
    let mut low = start;
    low.writer_remaining = 499;
    assert!(!module.eligible(low));
    let mut module = ready(true);
    placed(&mut module, 2 * SECOND);
    assert!(!module.eligible(start));
}

#[test]
fn an_order_that_is_too_large_is_refused() {
    let mut module = ready(true);
    module.account.lot_size = Some(number(0.001));
    let log10 = log10_middle(&module);
    let error = module.maybe_start_probe(around(2 * SECOND), log10).unwrap_err();
    match &error {
        ProbeError::NotionalAboveCap { notional, cap } => {
            assert_eq!(value(*notional), 0.001 * 29_500.5);
            assert_eq!(value(*cap), 15.0);
        }
        other => panic!("unexpected {other:?}"),
    }
    assert_eq!(
        error.message("29.5005", "15"),
        "minimum valid probe notional 29.5005 exceeds configured cap 15"
    );
    assert_eq!(ProbeError::InventoryBelowLot.message("", ""), "inventory smaller than one lot");
}

#[test]
fn the_dwell_starts_at_the_first_open() {
    let mut module = ready(true);
    placed(&mut module, 2 * SECOND);
    let probe = module.active_probe.as_ref().unwrap();
    let dwell_ns = probe.planned_dwell_ms * 1_000_000;
    assert_eq!(probe.planned_expiry_monotonic_ns, 2 * SECOND + dwell_ns);
    assert_eq!(probe.phase, ProbePhase::PlacePending);
    update(&mut module, "open", "0.0005", 3 * SECOND);
    let probe = module.active_probe.as_ref().unwrap();
    assert_eq!(probe.planned_expiry_monotonic_ns, 3 * SECOND + dwell_ns);
    assert_eq!(probe.open_monotonic_ns, Some(3 * SECOND));
    assert_eq!(probe.phase, ProbePhase::Resting);
    assert_eq!(value(probe.queue_belief.same_price_visible_size), 2.5);
    assert_eq!(value(probe.queue_belief.queue_ahead_upper), 2.5 - 0.0005);
    assert_eq!(probe.queue_belief.same_price_order_count, Some(4));
    let commands = update(&mut module, "open", "0.0005", 4 * SECOND);
    assert!(commands.is_empty());
    let probe = module.active_probe.as_ref().unwrap();
    assert_eq!(probe.planned_expiry_monotonic_ns, 3 * SECOND + dwell_ns);
}

#[test]
fn answers_to_a_placement_are_taken_in() {
    let mut module = ready(true);
    placed(&mut module, 2 * SECOND);
    let accepted = r#"{"channel":"post","data":{"id":1,"response":{"payload":{"status":"ok","response":{"data":{"statuses":[{"resting":{"oid":42}}]}}}}}}"#;
    let commands = feed(&mut module, TASK_HL_ACTION, accepted, 2 * SECOND);
    assert!(matches!(
        commands[..],
        [Command::Record(SystemEvent::PlacePostAccepted { request_id: 1, oid: 42 })]
    ));
    assert_eq!(phase(&module), ProbePhase::PostAccepted);
    assert_eq!(module.active_probe.as_ref().unwrap().oid, Some(42));
    let stranger = accepted.replace(r#""id":1"#, r#""id":9"#);
    let commands = feed(&mut module, TASK_HL_ACTION, &stranger, 2 * SECOND);
    assert!(matches!(
        commands[..],
        [Command::Record(SystemEvent::UnmatchedPostResponse { request_id: 9 })]
    ));
    let broken = decode_frame(r#"{"channel":"post","data":{}}"#).unwrap();
    let error = module.process_frame(TASK_HL_ACTION, &broken, 0).unwrap_err();
    assert_eq!(error.message(), "HL post response missing data.id");
}

#[test]
fn an_open_order_is_kept_and_then_cancelled() {
    let mut module = resting(2 * SECOND);
    let expiry = module.active_probe.as_ref().unwrap().planned_expiry_monotonic_ns;
    let commands = module.evaluate_active_probe(around(2 * SECOND));
    assert!(matches!(commands[..], [Command::GuardInventory]));
    quote(&mut module, "29500", "29501", 7 * SECOND);
    let commands = module.evaluate_active_probe(around(7 * SECOND));
    assert!(matches!(commands[..], [Command::Keep { trigger: Trigger::Timer, .. }, Command::GuardInventory]));
    let decision = module
        .record_keep(Trigger::Timer, Reason::RestingExposureRemainsEligible, around(7 * SECOND))
        .unwrap();
    assert_eq!(decision.planned_expiry_ts_ns, Some(5_000 * SECOND + expiry));
    module.keep_recorded(decision.decision_id, 7 * SECOND);
    let commands = module.evaluate_active_probe(around(7 * SECOND));
    assert!(matches!(commands[..], [Command::GuardInventory]));
    quote(&mut module, "29500", "29501", expiry);
    let commands = module.evaluate_active_probe(around(expiry));
    assert!(matches!(
        commands[..],
        [Command::Cancel { trigger: Trigger::PlannedExpiry, reason: Reason::PlannedDwellElapsed }]
    ));
}

#[test]
fn exposure_ends_early_where_it_must() {
    let mut module = resting(2 * SECOND);
    let mut full = around(2 * SECOND);
    full.writer_remaining = 99;
    assert!(matches!(
        module.evaluate_active_probe(full)[..],
        [Command::Cancel { trigger: Trigger::StorageBackpressure, .. }]
    ));
    assert!(matches!(
        module.evaluate_active_probe(around(6 * SECOND))[..],
        [Command::Cancel { trigger: Trigger::StaleData, .. }]
    ));
    let (bid, ask) = match module.active_probe.as_ref().unwrap().side {
        ProbeSide::Bid => ("29400", "29401"),
        ProbeSide::Ask => ("29600", "29601"),
    };
    quote(&mut module, bid, ask, 3 * SECOND);
    assert!(matches!(
        module.evaluate_active_probe(around(3 * SECOND))[..],
        [Command::Cancel { trigger: Trigger::FairValueGuard, .. }]
    ));
}

#[test]
fn a_cancelled_order_waits_for_late_fills() {
    let mut module = resting(2 * SECOND);
    let step = module.cancel_active(
        Trigger::PlannedExpiry,
        Reason::PlannedDwellElapsed,
        around(3 * SECOND),
        "29500".into(),
        "0.0005".into(),
    );
    let (dispatch, oid) = match step {
        CancelStep::Send { dispatch, oid } => (dispatch, oid),
        other => panic!("unexpected {other:?}"),
    };
    assert_eq!(oid, 42);
    assert_eq!(dispatch.context.intent_id, "cancel-probe-1-42");
    assert_eq!(dispatch.context.remaining_size.as_deref(), Some("0.0005"));
    module.cancel_sent(2, 3 * SECOND);
    assert_eq!(phase(&module), ProbePhase::CancelPending);
    let again = module.cancel_active(
        Trigger::Timer,
        Reason::PlannedDwellElapsed,
        around(3 * SECOND),
        "1".into(),
        "1".into(),
    );
    assert!(matches!(again, CancelStep::Nothing));
    let commands = update(&mut module, "canceled", "0.0005", 3 * SECOND);
    match &commands[..] {
        [
            Command::Record(SystemEvent::CancelEffective { oid: 42, has_fill: false, .. }),
            Command::CancelSettled { has_fill, filled, received_ns },
        ] => {
            assert!(!has_fill);
            let follow = module.cancel_settled(*has_fill, *filled, *received_ns, 3 * SECOND);
            assert!(matches!(
                follow[..],
                [Command::Decide { trigger: Trigger::CancelEffective, action: Action::Reconcile, .. }]
            ));
        }
        other => panic!("unexpected {other:?}"),
    }
    assert_eq!(phase(&module), ProbePhase::Recovering);
    // The deadline of the recovery is not reached yet.
    assert!(matches!(module.evaluate_active_probe(around(6 * SECOND))[..], [Command::GuardInventory]));
    assert!(module.reconcile_from_rest(6 * SECOND).is_empty());
    // Then the private feed has shown that the order is gone.
    let commands = module.evaluate_active_probe(around(7 * SECOND));
    assert!(matches!(
        commands[..],
        [
            Command::Decide { trigger: Trigger::WsRecovery, action: Action::Finish, .. },
            Command::Finish(FinishReason::WsOrderInventoryReconciled),
        ]
    ));
    let commands = module.finish_probe(FinishReason::WsOrderInventoryReconciled, 7 * SECOND);
    match &commands[..] {
        [Command::Record(SystemEvent::Finalized(record)), Command::Cooldown { now_ns }] => {
            assert!(record.censored);
            assert_eq!(record.exposure_trigger, Some(Trigger::PlannedExpiry));
            assert_eq!(record.actual_dwell_ms, 5_000);
            module.begin_cooldown(*now_ns);
        }
        other => panic!("unexpected {other:?}"),
    }
    assert!(module.active_probe.is_none());
    quote(&mut module, "29500", "29501", 8 * SECOND);
    assert!(!module.eligible(around(9 * SECOND - 1)));
    assert!(module.eligible(around(9 * SECOND)));
}

#[test]
fn a_new_private_connection_voids_the_evidence() {
    let mut module = resting(2 * SECOND);
    module.cancel_settled(false, number(0.0), 3 * SECOND, 3 * SECOND);
    assert!(module.active_probe.as_ref().unwrap().terminal_order_update_monotonic_ns.is_some());
    let opening = module.begin_connection(TASK_HL_PRIVATE).unwrap();
    assert!(matches!(
        opening.notice,
        Some(SystemEvent::RecoveryEvidenceInvalidated { reconnect_index: 2 })
    ));
    assert_eq!(opening.connection_id, "hl_private-2");
    assert!(module.active_probe.as_ref().unwrap().terminal_order_update_monotonic_ns.is_none());
    let commands = module.evaluate_active_probe(around(8 * SECOND));
    assert!(matches!(
        commands[..],
        [Command::RestThrottled { reason: RestReason::LifecycleRecovery, .. }, Command::GuardInventory]
    ));
}

#[test]
fn a_fill_runs_through_to_a_flat_account() {
    let mut module = resting(2 * SECOND);
    let side = module.active_probe.as_ref().unwrap().side;
    let (letter, sign, back) = match side {
        ProbeSide::Bid => ("B", 1.0, "A"),
        ProbeSide::Ask => ("A", -1.0, "B"),
    };
    let commands = fill(&mut module, 42, 1, letter, "0.0002", 3 * SECOND);
    match &commands[..] {
        [
            Command::Record(SystemEvent::Fill(link)),
            Command::Rest { reason: RestReason::UserFill, scope: RestScope::Reconciliation },
            Command::Cancel { trigger: Trigger::PartialFill, .. },
        ] => {
            assert_eq!(link.fill_id, "42:1");
            assert_eq!(link.probe_id, "probe-1");
            assert_eq!(value(link.inventory_after), sign * 0.0002);
            assert_eq!(value(link.cumulative_filled_size), 0.0002);
            assert_eq!(link.realized_fee_rate.map(value), Some(0.0015 / (29_500.0 * 0.0002)));
            assert_eq!(link.fee_ticks.map(value), Some(0.0015 / 0.0002 / 1.0));
            assert_eq!(link.maker_fee_rate.map(value), Some(0.0001));
        }
        other => panic!("unexpected {other:?}"),
    }
    // The same fill counts once.
    assert!(fill(&mut module, 42, 1, letter, "0.0002", 3 * SECOND).is_empty());
    let left = 0.0005 - 0.0002;
    let commands = fill(&mut module, 42, 2, letter, &format!("{left}"), 3 * SECOND);
    assert!(matches!(
        commands[..],
        [_, _, Command::Decide { trigger: Trigger::Fill, action: Action::WaitMarkout, .. }]
    ));
    assert_eq!(module.pending_markouts.len(), 2);
    update(&mut module, "filled", "0.0", 3 * SECOND);
    assert_eq!(phase(&module), ProbePhase::MarkoutPending);

    // Nothing is flattened while markouts are waited for.
    let step = module.maybe_flatten(false, around(3 * SECOND), number(4.0), "0.0005").unwrap();
    assert!(matches!(step, FlattenStep::Wait(ref commands) if commands.is_empty()));
    let mut samples = 0;
    for command in module.sample_markouts(3 * SECOND + 600_000_000) {
        match command {
            Command::Record(SystemEvent::Markout(sample)) => {
                samples += 1;
                let expected = sign * (29_500.5 - 29_500.0);
                assert_eq!(sample.signed_markout.map(value), Some(expected));
            }
            Command::DropCompleteMarkouts => module.drop_complete_markouts(),
            other => panic!("unexpected {other:?}"),
        }
    }
    assert_eq!(samples, 4);
    assert_eq!(module.pending_markouts.len(), 2);
    let rest = module.sample_markouts(9 * SECOND);
    assert_eq!(rest.len(), 5);
    module.drop_complete_markouts();
    assert!(module.pending_markouts.is_empty());

    assert!(matches!(
        module.evaluate_active_probe(around(9 * SECOND))[..],
        [Command::Flatten { risk_exit: false }, Command::GuardInventory]
    ));
    let best = value(module.flatten_reference().unwrap());
    let step = module
        .maybe_flatten(false, around(9 * SECOND), number(best.log10()), "0.0005")
        .unwrap();
    let dispatch = match step {
        FlattenStep::Send(dispatch) => dispatch,
        other => panic!("unexpected {other:?}"),
    };
    let expected = match side {
        ProbeSide::Bid => (29_500.0f64 * (1.0 - 20.0 / 10_000.0)).floor(),
        ProbeSide::Ask => (29_501.0f64 * (1.0 + 20.0 / 10_000.0)).ceil(),
    };
    assert_eq!(dispatch.context.price.as_deref(), Some(format!("{expected}").as_str()));
    assert_eq!(dispatch.context.size.as_deref(), Some("0.0005"));
    assert_ne!(dispatch.context.side, Some(side));
    module.flatten_sent(5, dispatch.context.action_id, 9 * SECOND);
    assert_eq!(phase(&module), ProbePhase::FlattenPending);
    let filled = r#"{"channel":"post","data":{"id":5,"response":{"payload":{"status":"ok","response":{"data":{"statuses":[{"filled":{"oid":43}}]}}}}}}"#;
    let mut commands = feed(&mut module, TASK_HL_ACTION, filled, 9 * SECOND);
    assert_eq!(commands.len(), 2);
    match commands.remove(1) {
        Command::FlattenAnswered { request_id, outcome } => {
            module.flatten_answered(request_id, outcome, 9 * SECOND);
        }
        other => panic!("unexpected {other:?}"),
    }
    assert_eq!(module.active_probe.as_ref().unwrap().flatten_oid, Some(43));
    let commands = fill(&mut module, 43, 3, back, "0.0005", 9 * SECOND);
    assert!(matches!(
        commands[..],
        [
            Command::Record(SystemEvent::FlattenFill(_)),
            Command::FinishIfFlat,
            Command::RestIfActive { reason: RestReason::FlattenUserFill, .. },
        ]
    ));
    assert!(matches!(
        module.maybe_finish_flatten()[..],
        [Command::Finish(FinishReason::InventoryReconciled)]
    ));
}

#[test]
fn requests_without_an_answer_enter_recovery() {
    let mut module = ready(true);
    placed(&mut module, 2 * SECOND);
    assert!(matches!(module.evaluate_active_probe(around(5 * SECOND - 1))[..], [Command::GuardInventory]));
    let commands = module.evaluate_active_probe(around(5 * SECOND));
    assert!(matches!(
        commands[..],
        [
            Command::Rest { reason: RestReason::PlaceTimeout, .. },
            Command::Record(SystemEvent::PlaceTimeout { .. }),
        ]
    ));
    assert_eq!(phase(&module), ProbePhase::Recovering);
    // A snapshot that still shows the order cancels it.
    let mut state = account(6 * SECOND, 0.0);
    state.open_order_count = 1;
    state.open_orders = vec![AccountOpenOrder {
        oid: 50,
        cloid: Some(module.active_probe.as_ref().unwrap().cloid.clone()),
        price: number(1.0),
        size: number(1.0),
        executed_size: number(0.0),
    }];
    module.refresh_account_state(Some(state));
    let commands = module.reconcile_from_rest(6 * SECOND);
    assert!(matches!(
        commands[..],
        [Command::Cancel { trigger: Trigger::RestRecovery, reason: Reason::OrderStillOpen }]
    ));
    assert_eq!(module.active_probe.as_ref().unwrap().oid, Some(50));
    // One without the order ends the probe.
    module.refresh_account_state(Some(account(7 * SECOND, 0.0)));
    let commands = module.reconcile_from_rest(7 * SECOND);
    assert!(matches!(commands[..], [Command::Finish(FinishReason::RestInventoryReconciled)]));
}

#[test]
fn unhealthy_snapshots_are_not_taken_over() {
    let mut module = ready(true);
    assert!(module.request_rest(2 * SECOND));
    assert!(!module.request_rest(2 * SECOND));
    let mut state = account(3 * SECOND, 9.0);
    state.rest_snapshot_healthy = false;
    let commands = module.refresh_account_state(Some(state));
    assert!(matches!(
        commands[..],
        [Command::Record(SystemEvent::RestSnapshotUnhealthy { snapshot_monotonic_ns })]
            if snapshot_monotonic_ns == 3 * SECOND
    ));
    assert_eq!(value(module.account.confirmed_inventory), 0.0);
    assert!(!module.request_rest_throttled(2 * SECOND + 5));
    assert!(module.request_rest_throttled(3 * SECOND));
    module.rest_refused();
    assert!(module.request_rest(3 * SECOND));
    assert!(module.refresh_account_state(None).is_empty());
    // An older snapshot changes nothing.
    assert!(module.refresh_account_state(Some(account(0, 5.0))).is_empty());
    assert_eq!(value(module.account.confirmed_inventory), 0.0);
}

#[test]
fn too_much_inventory_is_flattened_at_once() {
    let mut module = resting(2 * SECOND);
    assert!(module.guard_inventory().is_empty());
    module.account.confirmed_inventory = number(-0.001);
    assert!(matches!(
        module.guard_inventory()[..],
        [
            Command::Cancel {
                trigger: Trigger::HardInventoryGuard,
                reason: Reason::HardInventoryGuard,
            },
            Command::Flatten { risk_exit: true },
        ]
    ));
    assert!(module.pending_markouts.is_empty());
    // Nothing rests any more once the cancellation is on its way.
    cancelling(&mut module, 3 * SECOND);
    assert!(matches!(module.guard_inventory()[..], [Command::Flatten { risk_exit: true }]));
}

fn cancelling(module: &mut ExecutionProbe, now_ns: u64) {
    let step = module.cancel_active(
        Trigger::PlannedExpiry,
        Reason::PlannedDwellElapsed,
        around(now_ns),
        "29500".into(),
        "0.0005".into(),
    );
    assert!(matches!(step, CancelStep::Send { oid: 42, .. }));
    module.cancel_sent(2, now_ns);
    assert_eq!(phase(module), ProbePhase::CancelPending);
}

fn own_order(module: &ExecutionProbe, oid: u64) -> AccountOpenOrder {
    AccountOpenOrder {
        oid,
        cloid: Some(module.active_probe.as_ref().unwrap().cloid.clone()),
        price: number(1.0),
        size: number(1.0),
        executed_size: number(0.0),
    }
}

#[test]
fn inventory_without_a_fill_is_flattened_before_the_end() {
    let mut module = ready(true);
    placed(&mut module, 2 * SECOND);
    module.evaluate_active_probe(around(5 * SECOND));
    assert_eq!(phase(&module), ProbePhase::Recovering);
    // The fill was never seen, but the snapshot shows what it left.
    module.refresh_account_state(Some(account(6 * SECOND, 0.0005)));
    assert!(module.reconcile_from_rest(6 * SECOND).is_empty());
    let probe = module.active_probe.as_ref().unwrap();
    assert_eq!(probe.phase, ProbePhase::MarkoutPending);
    assert_eq!(value(probe.remaining_size), 0.0);
    assert_eq!(value(probe.cumulative_filled_size), 0.0);
    assert!(matches!(
        module.evaluate_active_probe(around(6 * SECOND))[..],
        [Command::Flatten { risk_exit: false }, Command::GuardInventory]
    ));
    let best = value(module.flatten_reference().unwrap());
    let step = module
        .maybe_flatten(false, around(6 * SECOND), number(best.log10()), "0.0005")
        .unwrap();
    let dispatch = match step {
        FlattenStep::Send(dispatch) => dispatch,
        other => panic!("unexpected {other:?}"),
    };
    assert_eq!(dispatch.context.side, Some(ProbeSide::Ask));
    module.flatten_sent(5, dispatch.context.action_id, 6 * SECOND);
    assert!(module.maybe_finish_flatten().is_empty());
    module.refresh_account_state(Some(account(7 * SECOND, 0.0)));
    assert!(matches!(module.reconcile_from_rest(7 * SECOND)[..], [Command::FinishIfFlat]));
    assert!(matches!(
        module.maybe_finish_flatten()[..],
        [Command::Finish(FinishReason::InventoryReconciled)]
    ));
}

#[test]
fn a_probe_with_an_open_order_is_not_finished() {
    let mut module = resting(2 * SECOND);
    module.account.confirmed_inventory = number(0.0005);
    let best = value(module.flatten_reference().unwrap());
    let step = module
        .maybe_flatten(true, around(3 * SECOND), number(best.log10()), "0.0005")
        .unwrap();
    assert!(matches!(step, FlattenStep::Send(_)));
    module.flatten_sent(5, "action-9".into(), 3 * SECOND);
    let mut state = account(4 * SECOND, 0.0);
    state.open_order_count = 1;
    state.open_orders = vec![own_order(&module, 42)];
    module.refresh_account_state(Some(state));
    assert!(module.maybe_finish_flatten().is_empty());
    module.refresh_account_state(Some(account(5 * SECOND, 0.0)));
    assert!(matches!(
        module.maybe_finish_flatten()[..],
        [Command::Finish(FinishReason::InventoryReconciled)]
    ));
}

#[test]
fn a_late_answer_leaves_a_resting_order_as_it_is() {
    let answer = |status: &str| {
        format!(
            r#"{{"channel":"post","data":{{"id":1,"response":{{"payload":{{"status":"ok","response":{{"data":{{"statuses":[{{"{status}":{{"oid":42}}}}]}}}}}}}}}}}}"#
        )
    };
    let mut module = resting(2 * SECOND);
    let expiry = module.active_probe.as_ref().unwrap().planned_expiry_monotonic_ns;
    assert_eq!(feed(&mut module, TASK_HL_ACTION, &answer("resting"), 3 * SECOND).len(), 1);
    assert_eq!(phase(&module), ProbePhase::Resting);
    assert_eq!(module.active_probe.as_ref().unwrap().oid, Some(42));
    quote(&mut module, "29500", "29501", expiry);
    assert!(matches!(
        module.evaluate_active_probe(around(expiry))[..],
        [Command::Cancel { trigger: Trigger::PlannedExpiry, .. }]
    ));
    // An order that was filled does not rest any more.
    let mut module = resting(2 * SECOND);
    let commands = feed(&mut module, TASK_HL_ACTION, &answer("filled"), 3 * SECOND);
    assert!(matches!(
        commands[..],
        [Command::Record(SystemEvent::PlaceImmediateFill { request_id: 1, oid: 42 })]
    ));
    assert_eq!(phase(&module), ProbePhase::Filled);
}

#[test]
fn the_number_that_is_drawn_takes_its_cell() {
    let count = ready(true).probe_candidates().len();
    assert_eq!(count, 48);
    let mut taken = Vec::new();
    for drawn in 0..count {
        let mut module = ready(true);
        let log10 = log10_middle(&module);
        let sizing = module.size_order(log10).unwrap().unwrap();
        let candidates = module.probe_candidates();
        let plan = module
            .plan_drawn(sizing, candidates, drawn, around(2 * SECOND))
            .unwrap();
        assert_eq!(value(plan.dispatch.decision.selection_probability), 1.0 / 48.0);
        let level = plan.price_level_ticks;
        let price = match plan.side {
            ProbeSide::Bid => 29_500.0 - f64::from(level),
            ProbeSide::Ask => 29_501.0 + f64::from(level),
        };
        assert_eq!(value(plan.price), price);
        taken.push((plan.side == ProbeSide::Ask, level, plan.planned_dwell_ms / 1_000));
    }
    let mut expected = Vec::new();
    for ask in [false, true] {
        for level in [0, 1, 2, 3, 5, 8] {
            for dwell in [30, 60, 120, 300] {
                expected.push((ask, level, dwell));
            }
        }
    }
    assert_eq!(taken, expected);
}

#[test]
fn only_a_placement_waits_for_its_records() {
    assert!(goes_out(ActionKind::Place, true));
    assert!(!goes_out(ActionKind::Place, false));
    let failed = Aftermath { is_noted: false, failure: Some(KeptRecord::Action) };
    assert_eq!(aftermath(ActionKind::Place, true, false), failed);
    for kind in [ActionKind::Cancel, ActionKind::Ioc] {
        assert!(goes_out(kind, true) && goes_out(kind, false));
        for (decision, action, failure) in [
            (true, true, None),
            (true, false, Some(KeptRecord::Action)),
            (false, true, Some(KeptRecord::Decision)),
            (false, false, Some(KeptRecord::Decision)),
        ] {
            assert_eq!(aftermath(kind, decision, action), Aftermath { is_noted: true, failure });
        }
    }
}

#[test]
fn trades_with_different_numbers_are_different_fills() {
    let mut module = resting(2 * SECOND);
    let letter = match module.active_probe.as_ref().unwrap().side {
        ProbeSide::Bid => "B",
        ProbeSide::Ask => "A",
    };
    for trade in [1, 12, u64::MAX] {
        let commands = fill(&mut module, 42, trade, letter, "0.0001", 3 * SECOND);
        match &commands[0] {
            Command::Record(SystemEvent::Fill(link)) => {
                assert_eq!(link.fill_id, format!("42:{trade}"));
            }
            other => panic!("unexpected {other:?}"),
        }
        assert!(fill(&mut module, 42, trade, letter, "0.0001", 3 * SECOND).is_empty());
    }
}

#[test]
fn a_pending_cancellation_keeps_its_timeout() {
    let mut module = resting(2 * SECOND);
    let letter = match module.active_probe.as_ref().unwrap().side {
        ProbeSide::Bid => "B",
        ProbeSide::Ask => "A",
    };
    cancelling(&mut module, 3 * SECOND);
    fill(&mut module, 42, 1, letter, "0.0002", 3 * SECOND);
    assert_eq!(phase(&module), ProbePhase::CancelPending);
    update(&mut module, "open", "0.0003", 4 * SECOND);
    assert_eq!(phase(&module), ProbePhase::CancelPending);
    assert!(matches!(
        module.evaluate_active_probe(around(7 * SECOND))[..],
        [
            Command::Rest { reason: RestReason::CancelTimeout, .. },
            Command::Record(SystemEvent::CancelTimeout { .. }),
        ]
    ));
    assert_eq!(phase(&module), ProbePhase::Recovering);
    // A fill of all that was left ends the wait.
    let mut module = resting(2 * SECOND);
    cancelling(&mut module, 3 * SECOND);
    fill(&mut module, 42, 1, letter, "0.0005", 3 * SECOND);
    assert_eq!(phase(&module), ProbePhase::MarkoutPending);
}

#[test]
fn the_queue_never_grows() {
    let lengths = |module: &ExecutionProbe| {
        let belief = &module.active_probe.as_ref().unwrap().queue_belief;
        [
            belief.queue_ahead_lower,
            belief.queue_ahead_p10,
            belief.queue_ahead_p50,
            belief.queue_ahead_p90,
            belief.queue_ahead_upper,
        ]
        .map(value)
    };
    let mut module = resting(2 * SECOND);
    let seen = |module: &mut ExecutionProbe, size: f64| {
        let probe = module.active_probe.as_mut().unwrap();
        probe.queue_belief.observe_visible(number(size), Some(1));
    };
    let visible = value(
        module.active_probe.as_ref().unwrap().queue_belief.same_price_visible_size,
    );
    let before = lengths(&module);
    seen(&mut module, visible + 3.0);
    assert_eq!(lengths(&module), before);
    seen(&mut module, visible + 3.0);
    assert_eq!(lengths(&module), before);
    seen(&mut module, visible + 2.0);
    let after = lengths(&module);
    assert!(before.iter().zip(after).all(|(old, new)| new <= *old));
    assert_eq!(after[4], before[4]);
    assert_eq!(after[2], before[2] - 0.5);
    module.active_probe.as_mut().unwrap().queue_belief.observe_trade(number(0.25));
    let last = lengths(&module);
    assert!(after.iter().zip(last).all(|(old, new)| new <= *old));
    assert_eq!(last[4], after[4] - 0.25);
}

#[test]
fn a_start_is_the_last_thing_on_the_agenda() {
    let mut module = ready(true);
    let commands = module.on_timer(false, 60 * SECOND);
    let mut agenda = Agenda::new(commands);
    let mut done = Vec::new();
    while let Some(command) = agenda.next() {
        let following = match &command {
            Command::SampleMarkouts => module.sample_markouts(60 * SECOND),
            Command::Evaluate => module.evaluate_active_probe(around(60 * SECOND)),
            _ => Vec::new(),
        };
        agenda.put_first(following);
        done.push(command);
    }
    assert!(matches!(
        done[..],
        [
            Command::Rest { .. },
            Command::SampleMarkouts,
            Command::DropCompleteMarkouts,
            Command::Evaluate,
            Command::StartIfIdle,
        ]
    ));
    let shutdown = module.on_timer(true, 60 * SECOND);
    assert!(!shutdown.iter().any(|command| matches!(command, Command::StartIfIdle)));
}

#[test]
fn a_module_starts_blank() {
    let module = module(true);
    assert!(module.market.hl_bbo.bids.is_empty() && module.market.hl_fast_l2.asks.is_empty());
    assert!(module.market.hl_default_l2.bids.is_empty());
    assert!(module.market.binance_bid.is_none() && module.market.okx_ask.is_none());
    assert_eq!(module.market.hl_trade_count, 0);
    assert_eq!(value(module.market.hl_signed_trade_size), 0.0);
    assert!(module.active_probe.is_none() && module.connections.is_empty());
    assert!(module.seen_fill_ids.is_empty());
    assert_eq!(module.feed_plans.len(), 8);
}

#[test]
fn trades_of_the_other_side_use_up_the_queue() {
    let mut module = resting(2 * SECOND);
    let probe = module.active_probe.as_ref().unwrap();
    let price = value(probe.price);
    let (own, other) = match probe.side {
        ProbeSide::Bid => ("B", "A"),
        ProbeSide::Ask => ("A", "B"),
    };
    let upper = value(probe.queue_belief.queue_ahead_upper);
    let trades = |side: &str, price: f64| {
        format!(r#"{{"channel":"trades","data":[{{"side":"{side}","px":"{price}","sz":"0.5"}}]}}"#)
    };
    feed(&mut module, TASK_HL_STANDARD, &trades(own, price), 3 * SECOND);
    feed(&mut module, TASK_HL_STANDARD, &trades(other, price + 1.0), 3 * SECOND);
    let belief = &module.active_probe.as_ref().unwrap().queue_belief;
    assert_eq!(value(belief.queue_ahead_upper), upper);
    feed(&mut module, TASK_HL_STANDARD, &trades(other, price), 3 * SECOND);
    let belief = &module.active_probe.as_ref().unwrap().queue_belief;
    assert_eq!(value(belief.queue_ahead_upper), upper - 0.5);
    assert_eq!(module.market.hl_trade_count, 3);
}

#[test]
fn frames_are_counted_and_kept() {
    let mut module = module(false);
    let opening = module.begin_connection(TASK_HL_STANDARD).unwrap();
    assert!(opening.notice.is_none());
    assert_eq!(opening.connection_id, "hl_standard-1");
    assert!(module.begin_connection(999).is_none());
    let text = r#"{"channel":"bbo","data":{"time":1700000000000,"bbo":[null,null]}}"#;
    let frame = decode_frame(text).unwrap();
    for number in 1..=2u64 {
        let raw = RawFrame {
            timestamp_us: 1_700_000_000_000_123,
            raw_json: text.into(),
            received_monotonic_ns: 10 + number,
            decoded_monotonic_ns: 20,
        };
        let (stream, record) = module.admit_frame(TASK_HL_STANDARD, raw, &frame).unwrap();
        assert_eq!(stream, StorageStream::PublicMarket);
        assert_eq!(record.envelope.event_type, "raw_hl_standard");
        assert_eq!(record.envelope.event_id, format!("strategy-{number}"));
        assert_eq!(record.envelope.connection_id.as_deref(), Some("hl_standard-1"));
        assert_eq!(record.envelope.connection_frame_seq, Some(number));
        assert_eq!(record.envelope.received_wall_ns, 1_700_000_000_000_123_000);
        assert_eq!(record.envelope.exchange_ts_ns, Some(1_700_000_000_000_000_000));
        assert_eq!(record.envelope.raw_json.as_deref(), Some(text));
        assert_eq!(record.channel.as_deref(), Some("bbo"));
        assert_eq!(record.source, "hyperliquid");
    }
    let raw = RawFrame {
        timestamp_us: 1,
        raw_json: text.into(),
        received_monotonic_ns: 1,
        decoded_monotonic_ns: 1,
    };
    let error = module.admit_frame(999, raw, &frame).unwrap_err();
    assert_eq!(error.message(), "unknown raw task id 999");
    let undecodable = decode_frame("{").unwrap_err();
    assert!(matches!(undecodable, FrameError::Undecodable(_)));
    assert!(undecodable.message().starts_with("decode raw JSON: EOF"));
    match module.connection_ready(TASK_HL_STANDARD, "hl_standard-1".into(), 5, 2_000_005) {
        Some(SystemEvent::ConnectionReady { subscriptions, elapsed_ms, .. }) => {
            assert_eq!(subscriptions, 4);
            assert_eq!(value(elapsed_ms), 2.0);
        }
        other => panic!("unexpected {other:?}"),
    }
}

#[test]
fn a_reconnect_clears_what_its_feed_brought() {
    let mut module = ready(true);
    assert!(module.eligible(around(2 * SECOND)));
    module.begin_connection(TASK_BINANCE_LOB).unwrap();
    assert!(module.market.binance_bid.is_none());
    assert!(!module.eligible(around(2 * SECOND)));
}

#[test]
fn the_private_feed_states_the_inventory() {
    let mut module = ready(true);
    let frame = r#"{"channel":"clearinghouseState","data":{"clearinghouseState":{"assetPositions":[{"position":{"coin":"xyz:XYZ100","szi":"0.0005"}}]}}}"#;
    let commands = feed(&mut module, TASK_HL_PRIVATE, frame, 4 * SECOND);
    assert!(matches!(commands[..], [Command::FinishIfFlat]));
    assert_eq!(value(module.account.confirmed_inventory), 0.0005);
    assert_eq!(module.account.snapshot_monotonic_ns, 4 * SECOND);
}

#[test]
fn the_timer_asks_for_snapshots_and_drives_the_probe() {
    let mut module = ready(true);
    let commands = module.on_timer(false, 59 * SECOND);
    assert!(matches!(
        commands[..],
        [Command::SampleMarkouts, Command::Evaluate, Command::StartIfIdle]
    ));
    let commands = module.on_timer(false, 60 * SECOND);
    assert!(matches!(
        commands[..],
        [
            Command::Rest { reason: RestReason::Periodic, scope: RestScope::Full },
            Command::SampleMarkouts,
            Command::Evaluate,
            Command::StartIfIdle,
        ]
    ));
    let commands = module.initialize_module();
    assert!(matches!(
        commands[..],
        [
            Command::Rest { reason: RestReason::ProcessStart, scope: RestScope::Full },
            Command::Note(SystemEvent::ProcessStart {
                probe_enabled: true,
                feed_count: 8,
                action_asset_id: 110_000,
            }),
        ]
    ));
}

#[test]
fn a_shutdown_cancels_reconciles_and_then_stops() {
    let mut module = resting(2 * SECOND);
    let commands = module.on_timer(true, 3 * SECOND);
    assert!(matches!(
        commands[..],
        [
            Command::Note(SystemEvent::ShutdownRequested),
            Command::Cancel { trigger: Trigger::ManualStop, reason: Reason::ShutdownRequested },
        ]
    ));
    let commands = module.on_timer(true, 3 * SECOND);
    assert_eq!(commands.len(), 1);
    module.finish_probe(FinishReason::RestInventoryReconciled, 4 * SECOND);
    assert!(matches!(module.on_timer(true, 4 * SECOND)[..], [Command::ShutdownSnapshot]));
    module.shutdown_snapshot_requested(4 * SECOND);
    assert!(module.on_timer(true, 5 * SECOND).is_empty());
    module.refresh_account_state(Some(account(5 * SECOND, 0.0)));
    assert!(matches!(
        module.on_timer(true, 6 * SECOND)[..],
        [Command::Stop(SystemEvent::ProcessStop { open_order_count: 0, .. })]
    ));
    module.stop_notified();
    assert!(module.on_timer(true, 7 * SECOND).is_empty());
}

#[test]
fn a_shutdown_recovers_a_placement_and_gives_markouts_up() {
    let mut module = ready(true);
    placed(&mut module, 2 * SECOND);
    let commands = module.on_timer(true, 3 * SECOND);
    assert!(matches!(
        commands[..],
        [
            Command::Note(SystemEvent::ShutdownRequested),
            Command::RestThrottled { reason: RestReason::ShutdownPlaceRecovery, .. },
        ]
    ));
    assert_eq!(phase(&module), ProbePhase::Recovering);

    let mut module = resting(2 * SECOND);
    let letter = match module.active_probe.as_ref().unwrap().side {
        ProbeSide::Bid => "B",
        ProbeSide::Ask => "A",
    };
    fill(&mut module, 42, 1, letter, "0.0005", 3 * SECOND);
    update(&mut module, "filled", "0.0", 3 * SECOND);
    let commands = module.on_timer(true, 3 * SECOND);
    assert!(matches!(
        commands[..],
        [
            Command::Note(SystemEvent::MarkoutsCensored { pending_fill_count: 1 }),
            Command::Note(SystemEvent::ShutdownRequested),
            Command::Flatten { risk_exit: true },
        ]
    ));
    assert!(module.pending_markouts.is_empty());
}

#[test]
fn a_rejected_order_ends_the_probe() {
    let mut module = ready(true);
    placed(&mut module, 2 * SECOND);
    let commands = update(&mut module, "badAloPxRejected", "0.0005", 2 * SECOND);
    assert!(matches!(
        commands[..],
        [
            Command::Decide {
                trigger: Trigger::OwnOrderAck,
                action: Action::Terminate { reason: FinishReason::OrderRejected },
                ..
            },
            Command::Finish(FinishReason::OrderRejected),
        ]
    ));
}
