//! The probe module: what it holds, and what it writes down.
use rand::{Rng, SeedableRng};
use rand::rngs::StdRng;
use std::collections::HashMap;
use vstd::hash_set::StringHashSet;
use vstd::prelude::*;
use crate::arch::action_gateway::ActionGateway;
use crate::arch::action_gateway;
use crate::arch::records::{
    Action, DecisionRecord, ExecutionSnapshot, ExposureSnapshot, RiskLimits, RiskSnapshot,
    SystemEvent,
};
use crate::arch::schema::{EventEnvelope, empty_envelope};
use crate::arch::vocabulary::{Reason, Trigger};
use crate::binary64::Binary64;
use crate::constants;
use crate::constants::ZERO;
use crate::text;
use crate::text::{numbered, owned};
use super::feeds::FeedPlan;
use super::state::{
    AccountState, ActiveProbe, ConnectionState, MarketState, PendingMarkout, ProbeSide,
};
use super::utils::{AppConfig, ProcessClock};

verus! {

/// The generator of `rand` from which cells are drawn.
#[verifier::external_type_specification]
#[verifier::external_body]
pub struct ExStdRng(StdRng);

/// Calls `StdRng::seed_from_u64`. Nothing is stated of the generator: its
/// stream is not fixed across versions of `rand`.
#[verifier::external_body]
fn seeded(seed: u64) -> (r: StdRng) {
    StdRng::seed_from_u64(seed)
}

/// Calls `random_range` on the range from zero to `count`, which must not be
/// empty. Which number of the range comes out is not stated.
#[verifier::external_body]
pub(crate) fn draw(rng: &mut StdRng, count: usize) -> (r: usize)
    requires
        count > 0,
    ensures
        r < count,
{
    rng.random_range(0..count)
}

/// Who writes the records.
#[derive(Debug)]
pub struct RuntimeIdentity {
    pub run_id: String,
    pub host_id: String,
    pub build_commit: String,
    pub process_id: u32,
    pub clock: ProcessClock,
}

/// What a step of the probe reads from its surroundings: the clocks, and the
/// room that the store has left.
#[derive(Clone, Copy, Debug, PartialEq, Eq, Structural)]
pub struct Surroundings {
    pub wall_ns: u64,
    pub monotonic_ns: u64,
    pub writer_remaining: usize,
}

/// The latest monotonic time at which waiting times can be added without
/// leaving the range of `u64`.
pub const LATEST_NS: u64 = 0x7fff_ffff_ffff_ffff;

/// Lets one request for a snapshot of the account through at a time.
#[derive(Debug)]
pub struct RestRequestGate {
    pub pending: bool,
    pub last_request_ns: u64,
}

impl Default for RestRequestGate {
    fn default() -> (r: Self)
        ensures
            !r.pending,
            r.last_request_ns == 0,
    {
        RestRequestGate { pending: false, last_request_ns: 0 }
    }
}

impl RestRequestGate {
    /// A request is let through: none is pending, and the last one is old
    /// enough.
    pub open spec fn lets_through(self, now_ns: u64, minimum_interval_ns: u64) -> bool {
        !self.pending && now_ns - self.last_request_ns >= minimum_interval_ns
            || !self.pending && minimum_interval_ns == 0
    }

    pub fn try_begin(&mut self, now_ns: u64, minimum_interval_ns: u64) -> (r: bool)
        ensures
            r == old(self).lets_through(now_ns, minimum_interval_ns),
            *final(self) == (if r {
                RestRequestGate { pending: true, last_request_ns: now_ns }
            } else {
                *old(self)
            }),
    {
        if self.pending || now_ns.saturating_sub(self.last_request_ns) < minimum_interval_ns {
            return false;
        }
        self.pending = true;
        self.last_request_ns = now_ns;
        true
    }

    pub fn complete(&mut self)
        ensures
            *final(self) == (RestRequestGate { pending: false, ..*old(self) }),
    {
        self.pending = false;
    }
}

/// Why a step of the probe failed.
#[derive(Debug)]
pub enum ProbeError {
    /// The smallest order is worth more than an order may be.
    NotionalAboveCap { notional: Binary64, cap: Binary64 },
    ProbeSizeUnreadable,
    ProbePriceNotRounded,
    ProbePriceUnreadable,
    FlattenWithoutBook,
    FlattenPriceNotRounded,
    InventoryBelowLot,
}

impl ProbeError {
    /// What the error says. `notional` and `cap` are the texts of the two
    /// figures that it may hold.
    pub open spec fn text(self, notional: Seq<char>, cap: Seq<char>) -> Seq<char> {
        match self {
            ProbeError::NotionalAboveCap { .. } => "minimum valid probe notional "@ + notional
                + " exceeds configured cap "@ + cap,
            ProbeError::ProbeSizeUnreadable => "parse probe size"@,
            ProbeError::ProbePriceNotRounded => "failed to round probe price"@,
            ProbeError::ProbePriceUnreadable => "parse probe price"@,
            ProbeError::FlattenWithoutBook => "cannot flatten without a valid HL book"@,
            ProbeError::FlattenPriceNotRounded => "failed to round IOC price"@,
            ProbeError::InventoryBelowLot => "inventory smaller than one lot"@,
        }
    }

    /// What the error says. `notional` and `cap` are the texts of the two
    /// figures that it may hold; that they are is left to the caller.
    pub fn message(&self, notional: &str, cap: &str) -> (r: String)
        ensures
            r@ == self.text(notional@, cap@),
    {
        match self {
            ProbeError::NotionalAboveCap { .. } => {
                let mut out = owned("minimum valid probe notional ");
                out.append(notional);
                out.append(" exceeds configured cap ");
                out.append(cap);
                out
            },
            ProbeError::ProbeSizeUnreadable => owned("parse probe size"),
            ProbeError::ProbePriceNotRounded => owned("failed to round probe price"),
            ProbeError::ProbePriceUnreadable => owned("parse probe price"),
            ProbeError::FlattenWithoutBook => owned("cannot flatten without a valid HL book"),
            ProbeError::FlattenPriceNotRounded => owned("failed to round IOC price"),
            ProbeError::InventoryBelowLot => owned("inventory smaller than one lot"),
        }
    }
}

/// `ms` milliseconds, in nanoseconds.
pub open spec fn ms_in_ns(ms: u64) -> int {
    ms * 1_000_000
}

impl AppConfig {
    /// Every waiting time of the probe can be counted in nanoseconds, and those
    /// that are added to a time can be added to one up to [`LATEST_NS`].
    pub open spec fn times_fit(self) -> bool {
        &&& ms_in_ns(self.probe.keep_interval_ms) <= u64::MAX
        &&& ms_in_ns(self.probe.cooldown_ms) <= LATEST_NS
        &&& ms_in_ns(self.probe.market_freshness_ms) <= u64::MAX
        &&& ms_in_ns(self.probe.default_l2_freshness_ms) <= u64::MAX
        &&& ms_in_ns(self.probe.cancel_timeout_ms) <= u64::MAX
        &&& ms_in_ns(self.probe.post_timeout_ms) <= u64::MAX
        &&& self.collector.account_snapshot_interval_sec * 2_000_000_000 <= u64::MAX
        &&& forall|i: int|
            0 <= i < self.probe.dwell_seconds@.len() ==> #[trigger] self.probe.dwell_seconds@[i]
                * 1_000_000_000 <= LATEST_NS
        &&& forall|i: int|
            0 <= i < self.probe.markout_horizons_ms@.len() ==> ms_in_ns(
                #[trigger] self.probe.markout_horizons_ms@[i],
            ) <= LATEST_NS
    }

    /// Whether every waiting time of the probe can be counted.
    pub fn has_fitting_times(&self) -> (r: bool)
        ensures
            r == self.times_fit(),
    {
        let most_ms: u64 = 18_446_744_073_709;
        let most_added_ms: u64 = 9_223_372_036_854;
        let most_added_sec: u64 = 9_223_372_036;
        if self.probe.keep_interval_ms > most_ms || self.probe.cooldown_ms > most_added_ms
            || self.probe.market_freshness_ms > most_ms || self.probe.default_l2_freshness_ms
            > most_ms || self.probe.cancel_timeout_ms > most_ms || self.probe.post_timeout_ms
            > most_ms || self.collector.account_snapshot_interval_sec > 9_223_372_036 {
            return false;
        }
        all_at_most(&self.probe.dwell_seconds, most_added_sec) && all_at_most(
            &self.probe.markout_horizons_ms,
            most_added_ms,
        )
    }
}

fn all_at_most(list: &Vec<u64>, most: u64) -> (r: bool)
    ensures
        r == (forall|i: int| 0 <= i < list@.len() ==> #[trigger] list@[i] <= most),
{
    let mut i: usize = 0;
    while i < list.len()
        invariant
            i <= list@.len(),
            forall|j: int| 0 <= j < i ==> #[trigger] list@[j] <= most,
        decreases list@.len() - i,
    {
        if list[i] > most {
            return false;
        }
        i = i + 1;
    }
    true
}

/// The plans by their tasks; where a task has several, the last one counts.
pub open spec fn plans_by_task(plans: Seq<FeedPlan>) -> Map<u64, FeedPlan>
    decreases plans.len(),
{
    if plans.len() == 0 {
        Map::empty()
    } else {
        plans_by_task(plans.drop_last()).insert(plans.last().task_id, plans.last())
    }
}

/// Every plan stands under its own task.
pub open spec fn stand_by_task(plans: Map<u64, FeedPlan>) -> bool {
    forall|task_id: u64| #[trigger]
        plans.contains_key(task_id) ==> plans[task_id].task_id == task_id
}

fn by_task(plans: Vec<FeedPlan>) -> (r: HashMap<u64, FeedPlan>)
    ensures
        r@ == plans_by_task(plans@),
        stand_by_task(r@),
{
    let ghost all = plans@;
    let mut rest = plans;
    let mut out: HashMap<u64, FeedPlan> = HashMap::new();
    let ghost mut done: int = 0;
    while rest.len() > 0
        invariant
            0 <= done,
            done + rest@.len() == all.len(),
            rest@ == all.skip(done),
            out@ == plans_by_task(all.take(done)),
            stand_by_task(out@),
        decreases rest@.len(),
    {
        let plan = rest.remove(0);
        out.insert(plan.task_id, plan);
        proof {
            assert(all.take(done + 1).drop_last() =~= all.take(done));
            done = done + 1;
            assert(rest@ =~= all.skip(done));
        }
    }
    proof {
        assert(all.take(done) =~= all);
    }
    out
}

/// The probe module.
pub struct ExecutionProbe {
    pub config: AppConfig,
    pub identity: RuntimeIdentity,
    pub feed_plans: HashMap<u64, FeedPlan>,
    pub connections: HashMap<u64, ConnectionState>,
    pub market: MarketState,
    pub account: AccountState,
    pub gateway: ActionGateway,
    pub active_probe: Option<ActiveProbe>,
    pub pending_markouts: Vec<PendingMarkout>,
    pub seen_fill_ids: StringHashSet,
    pub rng: StdRng,
    pub event_sequence: u64,
    pub probe_sequence: u64,
    pub decision_sequence: u64,
    pub action_sequence: u64,
    pub cooldown_until_ns: u64,
    pub rest_request_gate: RestRequestGate,
    pub shutdown_started: bool,
    pub shutdown_snapshot_requested_ns: Option<u64>,
    pub shutdown_notified: bool,
}

/// The horizons of a fill can be counted from any time.
pub open spec fn horizons_fit(markout: PendingMarkout) -> bool {
    forall|i: int|
        0 <= i < markout.horizons_ms@.len() ==> ms_in_ns(#[trigger] markout.horizons_ms@[i])
            <= LATEST_NS
}

impl ExecutionProbe {
    /// The times of the configuration can be counted, and its lists hold
    /// something. Every plan stands under its own task. Only an enabled probe is
    /// ever active, its queue belief is ordered, and its dwell and the horizons of
    /// its fills can be counted.
    pub open spec fn is_sound(self) -> bool {
        &&& self.config.times_fit()
        &&& self.config.probe.has_lists()
        &&& stand_by_task(self.feed_plans@)
        &&& self.active_probe is Some ==> self.config.probe.enabled
            && self.active_probe->0.queue_belief.is_ordered() && ms_in_ns(
            self.active_probe->0.planned_dwell_ms,
        ) <= LATEST_NS
        &&& forall|i: int|
            0 <= i < self.pending_markouts@.len() ==> horizons_fit(
                #[trigger] self.pending_markouts@[i],
            )
    }

    /// The module of a process that has just started.
    pub fn new(
        config: AppConfig,
        identity: RuntimeIdentity,
        feed_plans: Vec<FeedPlan>,
        asset_id: u32,
    ) -> (r: ExecutionProbe)
        requires
            config.times_fit(),
            config.probe.has_lists(),
        ensures
            r.config == config,
            r.identity == identity,
            r.feed_plans@ == plans_by_task(feed_plans@),
            r.connections@ == Map::<u64, ConnectionState>::empty(),
            r.account.is_blank(),
            r.gateway.asset() == asset_id,
            r.gateway.next_request() == 1,
            r.gateway.nonce() == 0,
            r.active_probe is None,
            r.pending_markouts@.len() == 0,
            r.seen_fill_ids@ == Set::<Seq<char>>::empty(),
            r.event_sequence == 0,
            r.probe_sequence == 0,
            r.decision_sequence == 0,
            r.action_sequence == 0,
            r.cooldown_until_ns == 0,
            !r.rest_request_gate.pending,
            r.rest_request_gate.last_request_ns == 0,
            !r.shutdown_started,
            r.shutdown_snapshot_requested_ns is None,
            !r.shutdown_notified,
            r.market.hl_bbo.is_blank(),
            r.market.hl_fast_l2.is_blank(),
            r.market.hl_default_l2.is_blank(),
            r.market.binance_bid is None,
            r.market.binance_ask is None,
            r.market.okx_bid is None,
            r.market.okx_ask is None,
            r.market.hl_trade_count == 0,
            r.market.hl_signed_trade_size == constants::number(ZERO),
            forall|feed: Seq<char>|
                #[trigger] r.market.feed_last_receive_ns.at(feed) is None,
            r.market.fair() is None,
            r.is_sound(),
    {
        let seed = config.probe.behavior_seed;
        ExecutionProbe {
            config,
            identity,
            feed_plans: by_task(feed_plans),
            connections: HashMap::new(),
            market: MarketState::default(),
            account: AccountState::default(),
            gateway: ActionGateway::new(asset_id),
            active_probe: None,
            pending_markouts: Vec::new(),
            seen_fill_ids: StringHashSet::new(),
            rng: seeded(seed),
            event_sequence: 0,
            probe_sequence: 0,
            decision_sequence: 0,
            action_sequence: 0,
            cooldown_until_ns: 0,
            rest_request_gate: RestRequestGate::default(),
            shutdown_started: false,
            shutdown_snapshot_requested_ns: None,
            shutdown_notified: false,
        }
    }

    /// The envelope that the module gives to its next event.
    pub open spec fn is_next_envelope(
        self,
        envelope: EventEnvelope,
        event_type: Seq<char>,
        wall_ns: u64,
        monotonic_ns: u64,
    ) -> bool {
        envelope.is_plain(
            self.identity.run_id@,
            self.identity.host_id@,
            self.identity.process_id,
            self.identity.build_commit@,
            "strategy-"@ + text::digits(
                action_gateway::successor(self.event_sequence) as nat,
            ),
            event_type,
            wall_ns,
            monotonic_ns,
        )
    }

    /// The module after it has numbered an event.
    pub open spec fn after_event(self) -> ExecutionProbe {
        ExecutionProbe {
            event_sequence: action_gateway::successor(self.event_sequence),
            ..self
        }
    }

    /// Numbers an event.
    pub fn new_envelope(&mut self, event_type: &str, wall_ns: u64, monotonic_ns: u64) -> (r:
        EventEnvelope)
        ensures
            old(self).is_next_envelope(r, event_type@, wall_ns, monotonic_ns),
            *final(self) == old(self).after_event(),
    {
        self.event_sequence = self.event_sequence.saturating_add(1);
        empty_envelope(
            self.identity.run_id.as_str(),
            self.identity.host_id.as_str(),
            self.identity.process_id,
            self.identity.build_commit.as_str(),
            numbered("strategy-", self.event_sequence),
            event_type,
            wall_ns,
            monotonic_ns,
        )
    }

    /// The record of a system event.
    pub fn system_record(&mut self, event: SystemEvent, around: Surroundings) -> (r: SystemRecord)
        ensures
            old(self).is_next_envelope(
                r.envelope,
                event.kind_text(),
                around.wall_ns,
                around.monotonic_ns,
            ),
            r.kind@ == event.kind_text(),
            r.details == event,
            *final(self) == old(self).after_event(),
    {
        let kind = event.kind();
        let envelope = self.new_envelope(kind, around.wall_ns, around.monotonic_ns);
        SystemRecord { envelope, kind: owned(kind), details: event }
    }

    /// The size that still rests on a side.
    pub open spec fn pending_on(self, side: ProbeSide) -> Binary64 {
        if self.active_probe is Some && self.active_probe->0.side == side {
            self.active_probe->0.remaining_size
        } else {
            constants::number(ZERO)
        }
    }

    fn pending_inventory(&self, side: ProbeSide) -> (r: Binary64)
        ensures
            r == self.pending_on(side),
    {
        match &self.active_probe {
            Some(probe) => if probe.side == side {
                probe.remaining_size
            } else {
                Binary64 { bits: ZERO }
            },
            None => Binary64 { bits: ZERO },
        }
    }

    /// What a decision record says of the risk.
    pub open spec fn risk(self, writer_remaining: usize) -> RiskSnapshot {
        RiskSnapshot {
            confirmed_inventory: self.account.confirmed_inventory,
            pending_bid_inventory: self.pending_on(ProbeSide::Bid),
            pending_ask_inventory: self.pending_on(ProbeSide::Ask),
            worst_case_long_inventory: self.account.confirmed_inventory.sum(
                self.pending_on(ProbeSide::Bid),
            ),
            worst_case_short_inventory: self.account.confirmed_inventory.difference(
                self.pending_on(ProbeSide::Ask),
            ),
            account_value: self.account.account_value,
            withdrawable: self.account.withdrawable,
            maker_fee: self.account.maker_fee,
            taker_fee: self.account.taker_fee,
            action_budget_remaining: self.account.budget(),
            writer_remaining_capacity: writer_remaining,
        }
    }

    /// What a decision record says of the order.
    pub open spec fn exposure(self, now_ns: u64) -> Option<ExposureSnapshot> {
        match self.active_probe {
            Some(probe) => Some(
                ExposureSnapshot {
                    probe_id: probe.probe_id,
                    cloid: probe.cloid,
                    oid: probe.oid,
                    phase: probe.phase,
                    side: probe.side,
                    price: probe.price,
                    tick_size: probe.tick_size,
                    size: probe.size,
                    remaining_size: probe.remaining_size,
                    filled_size: probe.cumulative_filled_size,
                    order_age_ms: probe.age_ms(now_ns),
                    queue_belief: probe.queue_belief,
                    position: self.market.position_of(probe, now_ns),
                },
            ),
            None => None,
        }
    }

    /// The state in which a decision is taken.
    pub open spec fn snapshot(self, around: Surroundings) -> ExecutionSnapshot {
        ExecutionSnapshot {
            market: self.market.snapshot_at(around.monotonic_ns),
            execution: self.exposure(around.monotonic_ns),
            risk: self.risk(around.writer_remaining),
        }
    }

    /// The state in which a decision is taken.
    pub fn execution_snapshot(&self, around: Surroundings) -> (r: ExecutionSnapshot)
        ensures
            r == self.snapshot(around),
    {
        let now_ns = around.monotonic_ns;
        let execution = match &self.active_probe {
            Some(probe) => Some(
                ExposureSnapshot {
                    probe_id: probe.probe_id.clone(),
                    cloid: probe.cloid.clone(),
                    oid: probe.oid,
                    phase: probe.phase,
                    side: probe.side,
                    price: probe.price,
                    tick_size: probe.tick_size,
                    size: probe.size,
                    remaining_size: probe.remaining_size,
                    filled_size: probe.cumulative_filled_size,
                    order_age_ms: probe.order_age_ms(now_ns),
                    queue_belief: probe.queue_belief.duplicate(),
                    position: self.market.quote_position(probe, now_ns),
                },
            ),
            None => None,
        };
        let bid = self.pending_inventory(ProbeSide::Bid);
        let ask = self.pending_inventory(ProbeSide::Ask);
        ExecutionSnapshot {
            market: self.market.snapshot(now_ns),
            execution,
            risk: RiskSnapshot {
                confirmed_inventory: self.account.confirmed_inventory,
                pending_bid_inventory: bid,
                pending_ask_inventory: ask,
                worst_case_long_inventory: self.account.confirmed_inventory.plus(bid),
                worst_case_short_inventory: self.account.confirmed_inventory.minus(ask),
                account_value: self.account.account_value,
                withdrawable: self.account.withdrawable,
                maker_fee: self.account.maker_fee,
                taker_fee: self.account.taker_fee,
                action_budget_remaining: self.account.action_budget_remaining(),
                writer_remaining_capacity: around.writer_remaining,
            },
        }
    }

    /// A decision as it is written down.
    pub open spec fn writes_down(
        self,
        record: DecisionRecord,
        choice: ChoiceView,
        around: Surroundings,
    ) -> bool {
        &&& self.is_next_envelope(
            record.envelope,
            "decision"@,
            around.wall_ns,
            around.monotonic_ns,
        )
        &&& record.probe_id@ == choice.probe_id
        &&& record.decision_id@ == choice.decision_id
        &&& record.decision_ts_ns == around.monotonic_ns
        &&& record.trigger_type == choice.trigger
        &&& record.state_snapshot_id@ == "snapshot-"@ + choice.decision_id
        &&& record.state_snapshot == self.snapshot(around)
        &&& record.candidate_actions@ == choice.candidates
        &&& record.selected_action == choice.selected
        &&& record.behavior_policy_id@ == self.config.probe.behavior_policy_id@
        &&& record.selection_probability == choice.probability
        &&& record.random_seed == choice.random_seed
        &&& record.planned_expiry_ts_ns == choice.planned_expiry_ts_ns
        &&& record.risk_limits == RiskLimits {
            max_order_notional_usd: self.config.probe.max_order_notional_usd,
            max_abs_inventory_usd: self.config.probe.max_abs_inventory_usd,
            max_active_probe_orders: 1,
        }
        &&& record.reason_code == choice.reason
    }

    /// Writes a decision down.
    pub fn build_decision(&mut self, choice: Choice, around: Surroundings) -> (r: DecisionRecord)
        ensures
            old(self).writes_down(r, choice@, around),
            *final(self) == old(self).after_event(),
            r.decision_id == choice.decision_id,
    {
        let state_snapshot = self.execution_snapshot(around);
        let envelope = self.new_envelope("decision", around.wall_ns, around.monotonic_ns);
        let mut state_snapshot_id = owned("snapshot-");
        state_snapshot_id.append(choice.decision_id.as_str());
        DecisionRecord {
            envelope,
            probe_id: choice.probe_id,
            decision_id: choice.decision_id,
            decision_ts_ns: around.monotonic_ns,
            trigger_type: choice.trigger,
            state_snapshot_id,
            state_snapshot,
            candidate_actions: choice.candidates,
            selected_action: choice.selected,
            behavior_policy_id: self.config.probe.behavior_policy_id.clone(),
            selection_probability: choice.probability,
            random_seed: choice.random_seed,
            planned_expiry_ts_ns: choice.planned_expiry_ts_ns,
            risk_limits: RiskLimits {
                max_order_notional_usd: self.config.probe.max_order_notional_usd,
                max_abs_inventory_usd: self.config.probe.max_abs_inventory_usd,
                max_active_probe_orders: 1,
            },
            reason_code: choice.reason,
        }
    }

    /// The id of the next decision.
    pub open spec fn next_decision_text(self) -> Seq<char> {
        "decision-"@ + text::digits(action_gateway::successor(self.decision_sequence) as nat)
    }

    /// The id of the next action.
    pub open spec fn next_action_text(self) -> Seq<char> {
        "action-"@ + text::digits(action_gateway::successor(self.action_sequence) as nat)
    }

    pub fn next_decision_id(&mut self) -> (r: String)
        ensures
            r@ == old(self).next_decision_text(),
            *final(self) == (ExecutionProbe {
                decision_sequence: action_gateway::successor(old(self).decision_sequence),
                ..*old(self)
            }),
    {
        self.decision_sequence = self.decision_sequence.saturating_add(1);
        numbered("decision-", self.decision_sequence)
    }

    pub fn next_action_id(&mut self) -> (r: String)
        ensures
            r@ == old(self).next_action_text(),
            *final(self) == (ExecutionProbe {
                action_sequence: action_gateway::successor(old(self).action_sequence),
                ..*old(self)
            }),
    {
        self.action_sequence = self.action_sequence.saturating_add(1);
        numbered("action-", self.action_sequence)
    }
}

/// A decision before it is written down.
#[derive(Debug)]
pub struct Choice {
    pub probe_id: String,
    pub decision_id: String,
    pub trigger: Trigger,
    pub candidates: Vec<Action>,
    pub selected: Action,
    pub probability: Binary64,
    pub planned_expiry_ts_ns: Option<u64>,
    pub random_seed: u64,
    pub reason: Reason,
}

/// What a decision holds.
pub ghost struct ChoiceView {
    pub probe_id: Seq<char>,
    pub decision_id: Seq<char>,
    pub trigger: Trigger,
    pub candidates: Seq<Action>,
    pub selected: Action,
    pub probability: Binary64,
    pub planned_expiry_ts_ns: Option<u64>,
    pub random_seed: u64,
    pub reason: Reason,
}

impl Choice {
    pub open spec fn view(self) -> ChoiceView {
        ChoiceView {
            probe_id: self.probe_id@,
            decision_id: self.decision_id@,
            trigger: self.trigger,
            candidates: self.candidates@,
            selected: self.selected,
            probability: self.probability,
            planned_expiry_ts_ns: self.planned_expiry_ts_ns,
            random_seed: self.random_seed,
            reason: self.reason,
        }
    }
}

/// A system event with its envelope.
#[derive(Debug)]
pub struct SystemRecord {
    pub envelope: EventEnvelope,
    pub kind: String,
    pub details: SystemEvent,
}

/// Requests for snapshots coalesce: while one is pending none is let through.
/// Once it is complete, an urgent one is let through at once.
pub proof fn law_requests_coalesce(gate: RestRequestGate, now_ns: u64, minimum_interval_ns: u64)
    ensures
        gate.pending ==> !gate.lets_through(now_ns, minimum_interval_ns),
        (RestRequestGate { pending: false, ..gate }).lets_through(now_ns, 0),
{
}

/// Events have ids of their own.
pub proof fn law_events_have_their_own_ids(
    earlier: ExecutionProbe,
    later: ExecutionProbe,
    first: EventEnvelope,
    second: EventEnvelope,
    types: (Seq<char>, Seq<char>),
    times: (u64, u64, u64, u64),
)
    requires
        earlier.event_sequence < later.event_sequence < u64::MAX,
        earlier.is_next_envelope(first, types.0, times.0, times.1),
        later.is_next_envelope(second, types.1, times.2, times.3),
    ensures
        first.event_id@ != second.event_id@,
{
    lemma_numbered_texts_differ(
        "strategy-"@,
        earlier.event_sequence + 1,
        later.event_sequence + 1,
    );
}

/// Decisions and actions have ids of their own.
pub proof fn law_decisions_and_actions_have_their_own_ids(
    earlier: ExecutionProbe,
    later: ExecutionProbe,
)
    ensures
        earlier.decision_sequence < later.decision_sequence < u64::MAX
            ==> earlier.next_decision_text() != later.next_decision_text(),
        earlier.action_sequence < later.action_sequence < u64::MAX ==> earlier.next_action_text()
            != later.next_action_text(),
{
    if earlier.decision_sequence < later.decision_sequence < u64::MAX {
        lemma_numbered_texts_differ(
            "decision-"@,
            earlier.decision_sequence + 1,
            later.decision_sequence + 1,
        );
    }
    if earlier.action_sequence < later.action_sequence < u64::MAX {
        lemma_numbered_texts_differ(
            "action-"@,
            earlier.action_sequence + 1,
            later.action_sequence + 1,
        );
    }
}

/// Numbered texts with one prefix differ where their numbers do.
proof fn lemma_numbered_texts_differ(prefix: Seq<char>, a: int, b: int)
    requires
        0 <= a,
        0 <= b,
        a != b,
    ensures
        prefix + text::digits(a as nat) != prefix + text::digits(b as nat),
{
    if prefix + text::digits(a as nat) == prefix + text::digits(b as nat) {
        assert((prefix + text::digits(a as nat)).skip(prefix.len() as int) =~= text::digits(
            a as nat,
        ));
        assert((prefix + text::digits(b as nat)).skip(prefix.len() as int) =~= text::digits(
            b as nat,
        ));
        text::law_digits_are_unique(a as nat, b as nat);
    }
}

} // verus!
