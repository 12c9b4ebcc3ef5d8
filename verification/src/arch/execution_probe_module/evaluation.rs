//! The timer: what it finds due, how the probe recovers, and how the process
//! stops.
use vstd::prelude::*;
use crate::arch::records::{Action, SystemEvent};
use crate::arch::vocabulary::{FinishReason, Reason, RestReason, RestScope, Trigger};
use crate::binary64::Binary64;
use crate::constants;
use crate::constants::{EPSILON, ZERO};
use crate::text::same;
use super::base;
use super::base::{ExecutionProbe, Surroundings};
use super::commands;
use super::commands::{Command, nothing, only, pair};
use super::feeds::FeedPlan;
use super::state;
use super::state::{
    AccountOpenOrder, AccountState, ActiveProbe, OrderUpdate, ProbePhase, ProbeSide,
};

verus! {

/// The order that trades against the resting side uses its queue up.
pub open spec fn consumes_queue(resting_side: ProbeSide, taker_side: ProbeSide) -> bool {
    resting_side != taker_side
}

/// Whether a trade uses up the queue of a resting order: only trades of the
/// other side do.
pub fn trade_consumes_queue(resting_side: ProbeSide, taker_side: ProbeSide) -> (r: bool)
    ensures
        r == consumes_queue(resting_side, taker_side),
{
    resting_side != taker_side
}

/// A probe in recovery has waited long enough.
pub open spec fn is_recovery_due(phase: ProbePhase, now_ns: u64, not_before_ns: u64) -> bool {
    phase == ProbePhase::Recovering && now_ns >= not_before_ns
}

/// Whether a probe in recovery has waited long enough.
pub fn recovery_request_due(phase: ProbePhase, now_ns: u64, not_before_ns: u64) -> (r: bool)
    ensures
        r == is_recovery_due(phase, now_ns, not_before_ns),
{
    phase == ProbePhase::Recovering && now_ns >= not_before_ns
}

/// Something that was sent has not been answered in time.
pub open spec fn is_overdue(sent_ns: u64, now_ns: u64, timeout_ms: u64) -> bool {
    state::elapsed(now_ns, sent_ns) >= base::ms_in_ns(timeout_ms)
}

/// What the timer finds of the active probe.
#[derive(Clone, Copy, Debug, PartialEq, Eq, Structural)]
pub enum Finding {
    NoProbe,
    PlaceTimeout,
    CancelTimeout,
    FlattenTimeout,
    /// The private feed shows that the order is gone and nothing is held.
    Settled,
    /// The recovery asks for a snapshot again.
    StillRecovering,
    StoreFull,
    DataStale,
    DwellOver,
    GuardCrossed,
    /// The order is kept, and the decision is to be written down again.
    KeepDue,
    /// The fills wait for their flattening.
    FlattenDue,
    /// Nothing of its own is due.
    Quiet,
}

impl ExecutionProbe {
    /// The quote of a probe has been passed by the fair value by more than the
    /// guard, or there is no fair value.
    pub open spec fn is_stale(self, probe: ActiveProbe) -> bool {
        match self.market.fair() {
            Some(fair) => {
                let threshold = self.config.probe.fair_value_guard_ticks.product(probe.tick_size);
                match probe.side {
                    ProbeSide::Bid => threshold.below(probe.price.difference(fair)),
                    ProbeSide::Ask => threshold.below(fair.difference(probe.price)),
                }
            },
            None => true,
        }
    }

    fn quote_is_stale(&self, probe: &ActiveProbe) -> (r: bool)
        ensures
            r == self.is_stale(*probe),
    {
        match self.market.fair_value() {
            Some(fair) => {
                let threshold = self.config.probe.fair_value_guard_ticks.times(probe.tick_size);
                match probe.side {
                    ProbeSide::Bid => threshold.lt(probe.price.minus(fair)),
                    ProbeSide::Ask => threshold.lt(fair.minus(probe.price)),
                }
            },
            None => true,
        }
    }

    /// The private feed shows that the order of a probe in recovery is gone, that
    /// none of it was filled, and that nothing is held.
    pub open spec fn is_settled_by_feed(self, probe: ActiveProbe, now_ns: u64) -> bool {
        let epsilon = constants::number(EPSILON);
        &&& is_recovery_due(probe.phase, now_ns, probe.recovery_not_before_monotonic_ns)
        &&& probe.terminal_order_update_monotonic_ns is Some
        &&& probe.terminal_order_update_monotonic_ns->0 >= (match probe.cancel_send_monotonic_ns {
            Some(sent_ns) => sent_ns,
            None => probe.send_monotonic_ns,
        })
        &&& probe.remaining_size.not_above(epsilon)
        &&& probe.cumulative_filled_size.not_above(epsilon)
        &&& self.account.rest_snapshot_healthy
        &&& self.account.snapshot_monotonic_ns > 0
        &&& self.account.is_flat()
    }

    fn ws_confirms_flat_recovery(&self, probe: &ActiveProbe, now_ns: u64) -> (r: bool)
        ensures
            r == self.is_settled_by_feed(*probe, now_ns),
    {
        let epsilon = Binary64 { bits: EPSILON };
        let since_ns = match probe.cancel_send_monotonic_ns {
            Some(sent_ns) => sent_ns,
            None => probe.send_monotonic_ns,
        };
        let order_terminal = match probe.terminal_order_update_monotonic_ns {
            Some(terminal_ns) => terminal_ns >= since_ns,
            None => false,
        };
        recovery_request_due(probe.phase, now_ns, probe.recovery_not_before_monotonic_ns)
            && order_terminal && probe.remaining_size.le(epsilon)
            && probe.cumulative_filled_size.le(epsilon) && self.account.rest_snapshot_healthy
            && self.account.snapshot_monotonic_ns > 0 && self.account.inventory_is_flat()
    }

    /// What the timer finds of the active probe.
    pub open spec fn finding(self, around: Surroundings) -> Finding {
        let now_ns = around.monotonic_ns;
        match self.active_probe {
            None => Finding::NoProbe,
            Some(probe) => if probe.phase == ProbePhase::PlacePending {
                if is_overdue(probe.send_monotonic_ns, now_ns, self.config.probe.post_timeout_ms) {
                    Finding::PlaceTimeout
                } else {
                    Finding::Quiet
                }
            } else if probe.phase == ProbePhase::CancelPending {
                if probe.cancel_send_monotonic_ns is Some && is_overdue(
                    probe.cancel_send_monotonic_ns->0,
                    now_ns,
                    self.config.probe.cancel_timeout_ms,
                ) {
                    Finding::CancelTimeout
                } else {
                    Finding::Quiet
                }
            } else if probe.phase == ProbePhase::FlattenPending {
                if probe.flatten_send_monotonic_ns is Some && is_overdue(
                    probe.flatten_send_monotonic_ns->0,
                    now_ns,
                    self.config.probe.post_timeout_ms,
                ) {
                    Finding::FlattenTimeout
                } else {
                    Finding::Quiet
                }
            } else if probe.phase == ProbePhase::Recovering {
                if !is_recovery_due(
                    probe.phase,
                    now_ns,
                    probe.recovery_not_before_monotonic_ns,
                ) {
                    Finding::Quiet
                } else if self.is_settled_by_feed(probe, now_ns) {
                    Finding::Settled
                } else {
                    Finding::StillRecovering
                }
            } else if probe.is_resting() {
                if around.writer_remaining < self.config.collector.writer_capacity / 10
                    || around.writer_remaining < 1 {
                    Finding::StoreFull
                } else if !self.market.quotes_are_fresh(
                    now_ns,
                    (self.config.probe.market_freshness_ms * 1_000_000) as u64,
                    (self.config.probe.default_l2_freshness_ms * 1_000_000) as u64,
                ) {
                    Finding::DataStale
                } else if now_ns >= probe.planned_expiry_monotonic_ns {
                    Finding::DwellOver
                } else if self.is_stale(probe) {
                    Finding::GuardCrossed
                } else if is_overdue(
                    probe.last_keep_monotonic_ns,
                    now_ns,
                    self.config.probe.keep_interval_ms,
                ) {
                    Finding::KeepDue
                } else {
                    Finding::Quiet
                }
            } else if probe.phase == ProbePhase::MarkoutPending || probe.phase
                == ProbePhase::Filled {
                Finding::FlattenDue
            } else {
                Finding::Quiet
            },
        }
    }

    fn find(&self, around: Surroundings) -> (r: Finding)
        requires
            self.is_sound(),
        ensures
            r == self.finding(around),
    {
        let now_ns = around.monotonic_ns;
        let probe = match &self.active_probe {
            Some(probe) => probe,
            None => {
                return Finding::NoProbe;
            },
        };
        match probe.phase {
            ProbePhase::PlacePending => {
                if now_ns.saturating_sub(probe.send_monotonic_ns)
                    >= self.config.probe.post_timeout_ms * 1_000_000 {
                    Finding::PlaceTimeout
                } else {
                    Finding::Quiet
                }
            },
            ProbePhase::CancelPending => match probe.cancel_send_monotonic_ns {
                Some(sent_ns) => if now_ns.saturating_sub(sent_ns)
                    >= self.config.probe.cancel_timeout_ms * 1_000_000 {
                    Finding::CancelTimeout
                } else {
                    Finding::Quiet
                },
                None => Finding::Quiet,
            },
            ProbePhase::FlattenPending => match probe.flatten_send_monotonic_ns {
                Some(sent_ns) => if now_ns.saturating_sub(sent_ns)
                    >= self.config.probe.post_timeout_ms * 1_000_000 {
                    Finding::FlattenTimeout
                } else {
                    Finding::Quiet
                },
                None => Finding::Quiet,
            },
            ProbePhase::Recovering => {
                if !recovery_request_due(
                    probe.phase,
                    now_ns,
                    probe.recovery_not_before_monotonic_ns,
                ) {
                    Finding::Quiet
                } else if self.ws_confirms_flat_recovery(probe, now_ns) {
                    Finding::Settled
                } else {
                    Finding::StillRecovering
                }
            },
            ProbePhase::Resting | ProbePhase::Partial => {
                let freshness_ns = self.config.probe.market_freshness_ms * 1_000_000;
                let default_l2_freshness_ns = self.config.probe.default_l2_freshness_ms * 1_000_000;
                if around.writer_remaining < self.config.collector.writer_capacity / 10
                    || around.writer_remaining < 1 {
                    Finding::StoreFull
                } else if !self.market.required_quotes_fresh(
                    now_ns,
                    freshness_ns,
                    default_l2_freshness_ns,
                ) {
                    Finding::DataStale
                } else if now_ns >= probe.planned_expiry_monotonic_ns {
                    Finding::DwellOver
                } else if self.quote_is_stale(probe) {
                    Finding::GuardCrossed
                } else if now_ns.saturating_sub(probe.last_keep_monotonic_ns)
                    >= self.config.probe.keep_interval_ms * 1_000_000 {
                    Finding::KeepDue
                } else {
                    Finding::Quiet
                }
            },
            ProbePhase::MarkoutPending | ProbePhase::Filled => Finding::FlattenDue,
            ProbePhase::PostAccepted => Finding::Quiet,
        }
    }

    /// The module with its probe in recovery from now on.
    pub open spec fn in_recovery(self, now_ns: u64) -> ExecutionProbe {
        self.with_probe(
            ActiveProbe {
                phase: ProbePhase::Recovering,
                recovery_not_before_monotonic_ns: now_ns,
                ..self.active_probe->0
            },
        )
    }

    /// What a finding asks for.
    pub open spec fn finding_commands(self, finding: Finding, now_ns: u64) -> Seq<Command> {
        let probe_id = self.active_probe->0.probe_id;
        let scope = RestScope::Reconciliation;
        match finding {
            Finding::NoProbe => Seq::empty(),
            Finding::PlaceTimeout => seq![
                Command::Rest { reason: RestReason::PlaceTimeout, scope },
                Command::Record(SystemEvent::PlaceTimeout { probe_id }),
            ],
            Finding::CancelTimeout => seq![
                Command::Rest { reason: RestReason::CancelTimeout, scope },
                Command::Record(SystemEvent::CancelTimeout { probe_id }),
            ],
            Finding::FlattenTimeout => seq![
                Command::Rest { reason: RestReason::FlattenTimeout, scope },
                Command::Record(SystemEvent::FlattenTimeout { probe_id }),
            ],
            Finding::Settled => seq![
                Command::Decide {
                    trigger: Trigger::WsRecovery,
                    action: Action::Finish,
                    reason: Reason::PrivateWsConfirmedFlat,
                },
                Command::Finish(FinishReason::WsOrderInventoryReconciled),
            ],
            Finding::StillRecovering => seq![
                Command::RestThrottled { reason: RestReason::LifecycleRecovery, scope, now_ns },
                Command::GuardInventory,
            ],
            Finding::StoreFull => seq![
                Command::Cancel {
                    trigger: Trigger::StorageBackpressure,
                    reason: Reason::TelemetryWriterCapacityLow,
                },
            ],
            Finding::DataStale => seq![
                Command::Cancel { trigger: Trigger::StaleData, reason: Reason::MarketSourceStale },
            ],
            Finding::DwellOver => seq![
                Command::Cancel {
                    trigger: Trigger::PlannedExpiry,
                    reason: Reason::PlannedDwellElapsed,
                },
            ],
            Finding::GuardCrossed => seq![
                Command::Cancel {
                    trigger: Trigger::FairValueGuard,
                    reason: Reason::QuoteOutsideFairValueGuard,
                },
            ],
            Finding::KeepDue => seq![
                Command::Keep {
                    trigger: Trigger::Timer,
                    reason: Reason::RestingExposureRemainsEligible,
                },
                Command::GuardInventory,
            ],
            Finding::FlattenDue => seq![
                Command::Flatten { risk_exit: false },
                Command::GuardInventory,
            ],
            Finding::Quiet => seq![Command::GuardInventory],
        }
    }

    /// The finding sends the probe into recovery.
    pub open spec fn is_timeout(finding: Finding) -> bool {
        finding == Finding::PlaceTimeout || finding == Finding::CancelTimeout || finding
            == Finding::FlattenTimeout
    }

    /// The module after the timer has looked at its probe.
    pub open spec fn after_evaluation(self, around: Surroundings) -> ExecutionProbe {
        if Self::is_timeout(self.finding(around)) {
            self.in_recovery(around.monotonic_ns)
        } else {
            self
        }
    }

    /// Looks at the active probe.
    pub fn evaluate_active_probe(&mut self, around: Surroundings) -> (r: Vec<Command>)
        requires
            old(self).is_sound(),
        ensures
            commands::start_nothing(r@),
            final(self).is_sound(),
            r@ == old(self).finding_commands(old(self).finding(around), around.monotonic_ns),
            *final(self) == old(self).after_evaluation(around),
    {
        let now_ns = around.monotonic_ns;
        let scope = RestScope::Reconciliation;
        let finding = self.find(around);
        let probe_id = match &mut self.active_probe {
            Some(probe) => {
                match finding {
                    Finding::PlaceTimeout | Finding::CancelTimeout | Finding::FlattenTimeout => {
                        probe.phase = ProbePhase::Recovering;
                        probe.recovery_not_before_monotonic_ns = now_ns;
                    },
                    _ => {},
                }
                probe.probe_id.clone()
            },
            None => {
                return nothing();
            },
        };
        match finding {
            Finding::NoProbe => nothing(),
            Finding::PlaceTimeout => pair(
                Command::Rest { reason: RestReason::PlaceTimeout, scope },
                Command::Record(SystemEvent::PlaceTimeout { probe_id }),
            ),
            Finding::CancelTimeout => pair(
                Command::Rest { reason: RestReason::CancelTimeout, scope },
                Command::Record(SystemEvent::CancelTimeout { probe_id }),
            ),
            Finding::FlattenTimeout => pair(
                Command::Rest { reason: RestReason::FlattenTimeout, scope },
                Command::Record(SystemEvent::FlattenTimeout { probe_id }),
            ),
            Finding::Settled => pair(
                Command::Decide {
                    trigger: Trigger::WsRecovery,
                    action: Action::Finish,
                    reason: Reason::PrivateWsConfirmedFlat,
                },
                Command::Finish(FinishReason::WsOrderInventoryReconciled),
            ),
            Finding::StillRecovering => pair(
                Command::RestThrottled { reason: RestReason::LifecycleRecovery, scope, now_ns },
                Command::GuardInventory,
            ),
            Finding::StoreFull => only(
                Command::Cancel {
                    trigger: Trigger::StorageBackpressure,
                    reason: Reason::TelemetryWriterCapacityLow,
                },
            ),
            Finding::DataStale => only(
                Command::Cancel { trigger: Trigger::StaleData, reason: Reason::MarketSourceStale },
            ),
            Finding::DwellOver => only(
                Command::Cancel {
                    trigger: Trigger::PlannedExpiry,
                    reason: Reason::PlannedDwellElapsed,
                },
            ),
            Finding::GuardCrossed => only(
                Command::Cancel {
                    trigger: Trigger::FairValueGuard,
                    reason: Reason::QuoteOutsideFairValueGuard,
                },
            ),
            Finding::KeepDue => pair(
                Command::Keep {
                    trigger: Trigger::Timer,
                    reason: Reason::RestingExposureRemainsEligible,
                },
                Command::GuardInventory,
            ),
            Finding::FlattenDue => pair(
                Command::Flatten { risk_exit: false },
                Command::GuardInventory,
            ),
            Finding::Quiet => only(Command::GuardInventory),
        }
    }

    /// The inventory is worth more than it may be.
    pub open spec fn is_over_limit(self) -> bool {
        &&& self.market.fair() is Some
        &&& constants::number(ZERO).below(self.market.fair()->0)
        &&& self.config.probe.max_abs_inventory_usd.below(
            self.account.confirmed_inventory.absolute().product(self.market.fair()->0),
        )
    }

    /// What the size of the inventory asks for: beyond the limit a resting order
    /// is cancelled, and the inventory is flattened.
    pub open spec fn guard_commands(self) -> Seq<Command> {
        if !self.is_over_limit() {
            Seq::empty()
        } else if self.active_probe is Some && self.active_probe->0.is_resting() {
            seq![
                Command::Cancel {
                    trigger: Trigger::HardInventoryGuard,
                    reason: Reason::HardInventoryGuard,
                },
                Command::Flatten { risk_exit: true },
            ]
        } else {
            seq![Command::Flatten { risk_exit: true }]
        }
    }

    /// `after` follows when the size of the inventory was looked at: beyond the
    /// limit no markout is waited for any more.
    pub open spec fn is_guarded(self, after: ExecutionProbe) -> bool {
        if self.is_over_limit() {
            &&& after == (ExecutionProbe { pending_markouts: after.pending_markouts, ..self })
            &&& after.pending_markouts@.len() == 0
        } else {
            after == self
        }
    }

    /// Looks at the size of the inventory: beyond the limit the exposure ends and
    /// the inventory is flattened without waiting for markouts.
    pub fn guard_inventory(&mut self) -> (r: Vec<Command>)
        requires
            old(self).is_sound(),
        ensures
            commands::start_nothing(r@),
            final(self).is_sound(),
            r@ == old(self).guard_commands(),
            old(self).is_guarded(*final(self)),
    {
        let over = match self.market.fair_value() {
            Some(fair) => (Binary64 { bits: ZERO }).lt(fair)
                && self.config.probe.max_abs_inventory_usd.lt(
                self.account.confirmed_inventory.abs().times(fair),
            ),
            None => false,
        };
        if !over {
            return nothing();
        }
        self.pending_markouts = Vec::new();
        let resting = match &self.active_probe {
            Some(probe) => probe.phase == ProbePhase::Resting || probe.phase == ProbePhase::Partial,
            None => false,
        };
        if resting {
            pair(
                Command::Cancel {
                    trigger: Trigger::HardInventoryGuard,
                    reason: Reason::HardInventoryGuard,
                },
                Command::Flatten { risk_exit: true },
            )
        } else {
            only(Command::Flatten { risk_exit: true })
        }
    }

    /// A new snapshot of the account is taken over: it is healthy and not older
    /// than what is known.
    pub open spec fn accepts(self, latest: AccountState) -> bool {
        latest.rest_snapshot_healthy && latest.snapshot_monotonic_ns
            >= self.account.snapshot_monotonic_ns
    }

    /// What a new snapshot of the account does: a healthy one that is not older than
    /// what is known is taken over, an unhealthy one is told and ends the wait of a
    /// shutdown for it, and no request is pending any more.
    pub open spec fn handles_refresh(
        self,
        after: ExecutionProbe,
        commands: Seq<Command>,
        latest: Option<AccountState>,
    ) -> bool {
        match latest {
            Some(latest) => {
                let open = ExecutionProbe {
                    rest_request_gate: base::RestRequestGate {
                        pending: false,
                        ..self.rest_request_gate
                    },
                    ..self
                };
                if self.accepts(latest) {
                    &&& after == (ExecutionProbe { account: latest, ..open })
                    &&& commands == seq![Command::Reconcile]
                } else if !latest.rest_snapshot_healthy {
                    let requested = self.shutdown_snapshot_requested_ns;
                    &&& after == (ExecutionProbe {
                        shutdown_snapshot_requested_ns: if requested is Some
                            && latest.snapshot_monotonic_ns >= requested->0 {
                            None
                        } else {
                            requested
                        },
                        ..open
                    })
                    &&& commands == seq![
                        Command::Record(
                            SystemEvent::RestSnapshotUnhealthy {
                                snapshot_monotonic_ns: latest.snapshot_monotonic_ns,
                            },
                        ),
                    ]
                } else {
                    after == open && commands.len() == 0
                }
            },
            None => after == self && commands.len() == 0,
        }
    }

    /// Takes over a new snapshot of the account, where there is one.
    pub fn refresh_account_state(&mut self, latest: Option<AccountState>) -> (r: Vec<Command>)
        requires
            old(self).is_sound(),
        ensures
            commands::start_nothing(r@),
            final(self).is_sound(),
            old(self).handles_refresh(*final(self), r@, latest),
    {
        let latest = match latest {
            Some(latest) => latest,
            None => {
                return nothing();
            },
        };
        self.rest_request_gate.complete();
        if latest.rest_snapshot_healthy && latest.snapshot_monotonic_ns
            >= self.account.snapshot_monotonic_ns {
            self.account = latest;
            return only(Command::Reconcile);
        }
        if latest.rest_snapshot_healthy {
            return nothing();
        }
        let snapshot_monotonic_ns = latest.snapshot_monotonic_ns;
        if let Some(requested_ns) = self.shutdown_snapshot_requested_ns {
            if snapshot_monotonic_ns >= requested_ns {
                self.shutdown_snapshot_requested_ns = None;
            }
        }
        only(Command::Record(SystemEvent::RestSnapshotUnhealthy { snapshot_monotonic_ns }))
    }

    /// An open order belongs to a probe.
    pub open spec fn is_order_of(order: AccountOpenOrder, probe: ActiveProbe) -> bool {
        ||| probe.oid == Some(order.oid)
        ||| probe.flatten_oid == Some(order.oid)
        ||| order.cloid is Some && order.cloid->0@ == probe.cloid@
    }

    /// The first open order that belongs to a probe.
    pub open spec fn first_order_of(orders: Seq<AccountOpenOrder>, probe: ActiveProbe) -> Option<u64>
        decreases orders.len(),
    {
        if orders.len() == 0 {
            None
        } else if Self::is_order_of(orders[0], probe) {
            Some(orders[0].oid)
        } else {
            Self::first_order_of(orders.skip(1), probe)
        }
    }

    pub(crate) fn recovered_order(&self, probe: &ActiveProbe) -> (r: Option<u64>)
        ensures
            r == Self::first_order_of(self.account.open_orders@, *probe),
    {
        let orders = &self.account.open_orders;
        let mut i: usize = 0;
        proof {
            assert(orders@.skip(0) =~= orders@);
        }
        while i < orders.len()
            invariant
                i <= orders@.len(),
                orders@ == self.account.open_orders@,
                Self::first_order_of(self.account.open_orders@, *probe) == Self::first_order_of(
                    orders@.skip(i as int),
                    *probe,
                ),
            decreases orders@.len() - i,
        {
            let order = &orders[i];
            let by_oid = match probe.oid {
                Some(oid) => oid == order.oid,
                None => false,
            };
            let by_flatten = match probe.flatten_oid {
                Some(oid) => oid == order.oid,
                None => false,
            };
            let by_cloid = match &order.cloid {
                Some(cloid) => same(cloid.as_str(), probe.cloid.as_str()),
                None => false,
            };
            if by_oid || by_flatten || by_cloid {
                return Some(order.oid);
            }
            proof {
                assert(orders@.skip(i as int).skip(1) =~= orders@.skip(i as int + 1));
            }
            i = i + 1;
        }
        None
    }

    /// What a snapshot of the account means for the probe. An order that is still
    /// open is cancelled, and an inventory that is still held is left to be
    /// flattened; only without both does the probe end.
    pub open spec fn handles_snapshot(
        self,
        after: ExecutionProbe,
        commands: Seq<Command>,
        now_ns: u64,
    ) -> bool {
        match self.active_probe {
            None => after == self && commands.len() == 0,
            Some(probe) => if probe.phase != ProbePhase::Recovering {
                after == self && commands == seq![Command::FinishIfFlat]
            } else if now_ns < probe.recovery_not_before_monotonic_ns {
                after == self && commands.len() == 0
            } else {
                match Self::first_order_of(self.account.open_orders@, probe) {
                    Some(oid) => {
                        &&& after == self.with_probe(
                            ActiveProbe { oid: Some(oid), cancel_request_id: None, ..probe },
                        )
                        &&& commands == seq![
                            Command::Cancel {
                                trigger: Trigger::RestRecovery,
                                reason: Reason::OrderStillOpen,
                            },
                        ]
                    },
                    None => if self.account.is_flat() {
                        after == self && commands == seq![
                            Command::Finish(FinishReason::RestInventoryReconciled),
                        ]
                    } else {
                        &&& after == self.with_probe(
                            ActiveProbe {
                                phase: ProbePhase::MarkoutPending,
                                remaining_size: constants::number(ZERO),
                                flatten_request_id: None,
                                flatten_send_monotonic_ns: None,
                                ..probe
                            },
                        )
                        &&& commands.len() == 0
                    },
                }
            },
        }
    }

    /// Compares the probe with a new snapshot of the account.
    pub fn reconcile_from_rest(&mut self, now_ns: u64) -> (r: Vec<Command>)
        requires
            old(self).is_sound(),
        ensures
            commands::start_nothing(r@),
            final(self).is_sound(),
            old(self).handles_snapshot(*final(self), r@, now_ns),
    {
        let recovered = match &self.active_probe {
            Some(probe) => {
                if probe.phase != ProbePhase::Recovering {
                    return only(Command::FinishIfFlat);
                }
                if now_ns < probe.recovery_not_before_monotonic_ns {
                    return nothing();
                }
                self.recovered_order(probe)
            },
            None => {
                return nothing();
            },
        };
        if let Some(oid) = recovered {
            if let Some(probe) = &mut self.active_probe {
                probe.oid = Some(oid);
                probe.cancel_request_id = None;
            }
            only(
                Command::Cancel { trigger: Trigger::RestRecovery, reason: Reason::OrderStillOpen },
            )
        } else if self.account.inventory_is_flat() {
            only(Command::Finish(FinishReason::RestInventoryReconciled))
        } else {
            if let Some(probe) = &mut self.active_probe {
                probe.phase = ProbePhase::MarkoutPending;
                probe.remaining_size = Binary64 { bits: ZERO };
                probe.flatten_request_id = None;
                probe.flatten_send_monotonic_ns = None;
            }
            nothing()
        }
    }

    /// The periodic snapshot of the account is due.
    pub open spec fn is_snapshot_due(self, now_ns: u64) -> bool {
        state::elapsed(now_ns, self.rest_request_gate.last_request_ns)
            >= self.config.collector.account_snapshot_interval_sec * 1_000_000_000
    }

    /// What the timer does while no shutdown is under way: a snapshot of the
    /// account where one is due, the markouts, the active probe, and a new probe
    /// where none is active.
    pub open spec fn tick_commands(self, now_ns: u64) -> Seq<Command> {
        (if self.is_snapshot_due(now_ns) {
            seq![Command::Rest { reason: RestReason::Periodic, scope: RestScope::Full }]
        } else {
            Seq::empty()
        }) + seq![Command::SampleMarkouts, Command::Evaluate, Command::StartIfIdle]
    }

    fn tick(&self, now_ns: u64) -> (r: Vec<Command>)
        requires
            self.is_sound(),
        ensures
            r@ == self.tick_commands(now_ns),
    {
        let mut out: Vec<Command> = Vec::new();
        let interval_ns = self.config.collector.account_snapshot_interval_sec * 1_000_000_000;
        if now_ns.saturating_sub(self.rest_request_gate.last_request_ns) >= interval_ns {
            out.push(Command::Rest { reason: RestReason::Periodic, scope: RestScope::Full });
        }
        out.push(Command::SampleMarkouts);
        out.push(Command::Evaluate);
        out.push(Command::StartIfIdle);
        proof {
            assert(out@ =~= self.tick_commands(now_ns));
        }
        out
    }

    /// What the first step of a shutdown notes.
    pub open spec fn shutdown_notes(self) -> Seq<Command> {
        if self.shutdown_started {
            Seq::empty()
        } else if self.pending_markouts@.len() > 0 {
            seq![
                Command::Note(
                    SystemEvent::MarkoutsCensored {
                        pending_fill_count: self.pending_markouts@.len() as usize,
                    },
                ),
                Command::Note(SystemEvent::ShutdownRequested),
            ]
        } else {
            seq![Command::Note(SystemEvent::ShutdownRequested)]
        }
    }

    /// What a shutdown does with the active probe: its order is cancelled, its
    /// inventory flattened, its recovery driven on. Only without a probe does
    /// the process stop.
    pub open spec fn shutdown_commands(self, now_ns: u64) -> Seq<Command> {
        match self.active_probe {
            Some(probe) => match probe.phase {
                ProbePhase::Resting | ProbePhase::Partial | ProbePhase::PostAccepted => seq![
                    Command::Cancel {
                        trigger: Trigger::ManualStop,
                        reason: Reason::ShutdownRequested,
                    },
                ],
                ProbePhase::PlacePending => seq![
                    Command::RestThrottled {
                        reason: RestReason::ShutdownPlaceRecovery,
                        scope: RestScope::Reconciliation,
                        now_ns,
                    },
                ],
                ProbePhase::Filled | ProbePhase::MarkoutPending => seq![
                    Command::Flatten { risk_exit: true },
                ],
                _ => seq![
                    Command::Evaluate,
                    Command::RestIfActiveThrottled {
                        reason: RestReason::ShutdownReconciliation,
                        scope: RestScope::Reconciliation,
                    },
                ],
            },
            None => match self.shutdown_snapshot_requested_ns {
                None => seq![Command::ShutdownSnapshot],
                Some(requested_ns) => if self.account.snapshot_monotonic_ns < requested_ns
                    || self.shutdown_notified {
                    Seq::empty()
                } else {
                    seq![
                        Command::Stop(
                            SystemEvent::ProcessStop {
                                open_order_count: self.account.open_order_count,
                                confirmed_inventory: self.account.confirmed_inventory,
                                account_snapshot_monotonic_ns: self.account.snapshot_monotonic_ns,
                            },
                        ),
                    ]
                },
            },
        }
    }

    /// `after` follows when a shutdown was driven one step on: markouts are given
    /// up, and a placement without an answer is taken into recovery.
    pub open spec fn is_shutting_down(self, after: ExecutionProbe, now_ns: u64) -> bool {
        &&& after == (ExecutionProbe {
            shutdown_started: true,
            pending_markouts: after.pending_markouts,
            active_probe: if self.active_probe is Some && self.active_probe->0.phase
                == ProbePhase::PlacePending {
                self.in_recovery(now_ns).active_probe
            } else {
                self.active_probe
            },
            ..self
        })
        &&& after.pending_markouts@ == (if self.shutdown_started {
            self.pending_markouts@
        } else {
            Seq::empty()
        })
    }

    /// Drives a shutdown one step on.
    pub fn drive_shutdown(&mut self, now_ns: u64) -> (r: Vec<Command>)
        requires
            old(self).is_sound(),
        ensures
            commands::start_nothing(r@),
            final(self).is_sound(),
            r@ == old(self).shutdown_notes() + old(self).shutdown_commands(now_ns),
            old(self).is_shutting_down(*final(self), now_ns),
    {
        let ghost before = *self;
        let mut out: Vec<Command> = Vec::new();
        if !self.shutdown_started {
            self.shutdown_started = true;
            if self.pending_markouts.len() > 0 {
                out.push(
                    Command::Note(
                        SystemEvent::MarkoutsCensored {
                            pending_fill_count: self.pending_markouts.len(),
                        },
                    ),
                );
                self.pending_markouts = Vec::new();
            }
            out.push(Command::Note(SystemEvent::ShutdownRequested));
        }
        proof {
            assert(out@ =~= before.shutdown_notes());
            assert(self.pending_markouts@ =~= (if before.shutdown_started {
                before.pending_markouts@
            } else {
                Seq::empty()
            }));
        }
        let phase = match &self.active_probe {
            Some(probe) => Some(probe.phase),
            None => None,
        };
        match phase {
            Some(ProbePhase::Resting) | Some(ProbePhase::Partial) | Some(
                ProbePhase::PostAccepted,
            ) => {
                out.push(
                    Command::Cancel {
                        trigger: Trigger::ManualStop,
                        reason: Reason::ShutdownRequested,
                    },
                );
            },
            Some(ProbePhase::PlacePending) => {
                if let Some(probe) = &mut self.active_probe {
                    probe.phase = ProbePhase::Recovering;
                    probe.recovery_not_before_monotonic_ns = now_ns;
                }
                out.push(
                    Command::RestThrottled {
                        reason: RestReason::ShutdownPlaceRecovery,
                        scope: RestScope::Reconciliation,
                        now_ns,
                    },
                );
            },
            Some(ProbePhase::Filled) | Some(ProbePhase::MarkoutPending) => {
                out.push(Command::Flatten { risk_exit: true });
            },
            Some(_) => {
                out.push(Command::Evaluate);
                out.push(
                    Command::RestIfActiveThrottled {
                        reason: RestReason::ShutdownReconciliation,
                        scope: RestScope::Reconciliation,
                    },
                );
            },
            None => match self.shutdown_snapshot_requested_ns {
                None => {
                    out.push(Command::ShutdownSnapshot);
                },
                Some(requested_ns) => {
                    if self.account.snapshot_monotonic_ns >= requested_ns
                        && !self.shutdown_notified {
                        out.push(
                            Command::Stop(
                                SystemEvent::ProcessStop {
                                    open_order_count: self.account.open_order_count,
                                    confirmed_inventory: self.account.confirmed_inventory,
                                    account_snapshot_monotonic_ns:
                                        self.account.snapshot_monotonic_ns,
                                },
                            ),
                        );
                    }
                },
            },
        }
        proof {
            assert(out@ =~= before.shutdown_notes() + before.shutdown_commands(now_ns));
        }
        out
    }

    /// Notes that the last snapshot of the account was asked for.
    pub fn shutdown_snapshot_requested(&mut self, now_ns: u64)
        requires
            old(self).is_sound(),
        ensures
            *final(self) == (ExecutionProbe {
                shutdown_snapshot_requested_ns: Some(now_ns),
                ..*old(self)
            }),
            final(self).is_sound(),
    {
        self.shutdown_snapshot_requested_ns = Some(now_ns);
    }

    /// Notes that the process was told to stop.
    pub fn stop_notified(&mut self)
        requires
            old(self).is_sound(),
        ensures
            *final(self) == (ExecutionProbe { shutdown_notified: true, ..*old(self) }),
            final(self).is_sound(),
    {
        self.shutdown_notified = true;
    }

    /// What the timer does.
    pub open spec fn timer_commands(self, shutdown: bool, now_ns: u64) -> Seq<Command> {
        if shutdown {
            self.shutdown_notes() + self.shutdown_commands(now_ns)
        } else {
            self.tick_commands(now_ns)
        }
    }

    /// The timer, once the account is up to date: a shutdown is driven on where
    /// one was asked for, else the probe.
    pub fn on_timer(&mut self, shutdown: bool, now_ns: u64) -> (r: Vec<Command>)
        requires
            old(self).is_sound(),
        ensures
            final(self).is_sound(),
            r@ == old(self).timer_commands(shutdown, now_ns),
            if shutdown {
                old(self).is_shutting_down(*final(self), now_ns)
            } else {
                *final(self) == *old(self)
            },
    {
        if shutdown {
            self.drive_shutdown(now_ns)
        } else {
            self.tick(now_ns)
        }
    }

    /// The module after a request for a snapshot of the account, let through or
    /// not.
    pub open spec fn after_request(self, now_ns: u64, minimum_interval_ns: u64) -> ExecutionProbe {
        if self.rest_request_gate.lets_through(now_ns, minimum_interval_ns) {
            ExecutionProbe {
                rest_request_gate: base::RestRequestGate {
                    pending: true,
                    last_request_ns: now_ns,
                },
                ..self
            }
        } else {
            self
        }
    }

    /// Lets an urgent request for a snapshot of the account through, unless one
    /// is pending.
    pub fn request_rest(&mut self, now_ns: u64) -> (r: bool)
        requires
            old(self).is_sound(),
        ensures
            r == !old(self).rest_request_gate.pending,
            *final(self) == old(self).after_request(now_ns, 0),
            final(self).is_sound(),
    {
        self.request_rest_at(now_ns, 0)
    }

    /// A request that can wait is let through: none is pending, and the last one is
    /// at least a second old.
    pub open spec fn lets_wait_through(self, now_ns: u64) -> bool {
        self.rest_request_gate.lets_through(now_ns, 1_000_000_000)
    }

    /// The module after a request that can wait.
    pub open spec fn after_waiting_request(self, now_ns: u64) -> ExecutionProbe {
        self.after_request(now_ns, 1_000_000_000)
    }

    /// Lets a request for a snapshot through where none is pending and the last
    /// one is at least a second old.
    pub fn request_rest_throttled(&mut self, now_ns: u64) -> (r: bool)
        requires
            old(self).is_sound(),
        ensures
            r == old(self).lets_wait_through(now_ns),
            *final(self) == old(self).after_waiting_request(now_ns),
            final(self).is_sound(),
    {
        self.request_rest_at(now_ns, 1_000_000_000)
    }

    fn request_rest_at(&mut self, now_ns: u64, minimum_interval_ns: u64) -> (r: bool)
        requires
            old(self).is_sound(),
        ensures
            r == old(self).rest_request_gate.lets_through(now_ns, minimum_interval_ns),
            *final(self) == old(self).after_request(now_ns, minimum_interval_ns),
            final(self).is_sound(),
    {
        self.rest_request_gate.try_begin(now_ns, minimum_interval_ns)
    }

    /// Notes that a request for a snapshot could not be handed over.
    pub fn rest_refused(&mut self)
        requires
            old(self).is_sound(),
        ensures
            *final(self) == (ExecutionProbe {
                rest_request_gate: base::RestRequestGate {
                    pending: false,
                    ..old(self).rest_request_gate
                },
                ..*old(self)
            }),
            final(self).is_sound(),
    {
        self.rest_request_gate.complete();
    }
}

/// A recovery waits for its deadline: before it, neither the timer nor a
/// snapshot of the account ends it.
pub proof fn law_recovery_waits_for_its_deadline(
    before: ExecutionProbe,
    after: ExecutionProbe,
    commands: Seq<Command>,
    around: Surroundings,
)
    requires
        before.active_probe is Some,
        before.active_probe->0.phase == ProbePhase::Recovering,
        around.monotonic_ns < before.active_probe->0.recovery_not_before_monotonic_ns,
        before.handles_snapshot(after, commands, around.monotonic_ns),
    ensures
        before.finding(around) == Finding::Quiet,
        after == before,
        commands.len() == 0,
{
}

/// A request that is not answered in time takes the probe into recovery and asks
/// for a snapshot; the probe stays active, so no other one starts.
pub proof fn law_timeouts_enter_recovery(before: ExecutionProbe, around: Surroundings)
    requires
        ExecutionProbe::is_timeout(before.finding(around)),
    ensures
        before.in_recovery(around.monotonic_ns).active_probe is Some,
        before.in_recovery(around.monotonic_ns).active_probe->0.phase == ProbePhase::Recovering,
        before.finding_commands(before.finding(around), around.monotonic_ns)[0] is Rest,
        !before.in_recovery(around.monotonic_ns).is_eligible(around),
{
}

/// A placement, a cancellation and a flattening whose time is over are found.
pub proof fn law_no_timeout_is_missed(before: ExecutionProbe, around: Surroundings)
    requires
        before.active_probe is Some,
    ensures
        before.active_probe->0.phase == ProbePhase::PlacePending && is_overdue(
            before.active_probe->0.send_monotonic_ns,
            around.monotonic_ns,
            before.config.probe.post_timeout_ms,
        ) ==> before.finding(around) == Finding::PlaceTimeout,
        before.active_probe->0.phase == ProbePhase::CancelPending
            && before.active_probe->0.cancel_send_monotonic_ns is Some && is_overdue(
            before.active_probe->0.cancel_send_monotonic_ns->0,
            around.monotonic_ns,
            before.config.probe.cancel_timeout_ms,
        ) ==> before.finding(around) == Finding::CancelTimeout,
        before.active_probe->0.phase == ProbePhase::FlattenPending
            && before.active_probe->0.flatten_send_monotonic_ns is Some && is_overdue(
            before.active_probe->0.flatten_send_monotonic_ns->0,
            around.monotonic_ns,
            before.config.probe.post_timeout_ms,
        ) ==> before.finding(around) == Finding::FlattenTimeout,
{
}

impl ExecutionProbe {
    /// A resting order may stay: the store has room, the market is fresh, the
    /// dwell is not over, the quote is within the guard and the inventory within
    /// its limit.
    pub open spec fn may_rest(self, around: Surroundings) -> bool {
        &&& around.writer_remaining >= self.config.collector.writer_capacity / 10
        &&& around.writer_remaining >= 1
        &&& self.market.quotes_are_fresh(
            around.monotonic_ns,
            (self.config.probe.market_freshness_ms * 1_000_000) as u64,
            (self.config.probe.default_l2_freshness_ms * 1_000_000) as u64,
        )
        &&& around.monotonic_ns < self.active_probe->0.planned_expiry_monotonic_ns
        &&& !self.is_stale(self.active_probe->0)
        &&& !self.is_over_limit()
    }

    /// The timer cancels the resting order: at once, or when it comes to look at
    /// the inventory.
    pub open spec fn ends_exposure(self, around: Surroundings) -> bool {
        let commands = self.finding_commands(self.finding(around), around.monotonic_ns);
        ||| commands[0] is Cancel
        ||| commands.last() == Command::GuardInventory && self.guard_commands().len() > 0
            && self.guard_commands()[0] is Cancel
    }
}

/// A resting order is cancelled exactly where it may not stay: when its dwell is
/// over, or earlier when the market is stale, the quote is outside the guard, the
/// store runs full or the inventory is beyond its limit.
pub proof fn law_exposure_ends_when_it_must(before: ExecutionProbe, around: Surroundings)
    requires
        before.active_probe is Some,
        before.active_probe->0.is_resting(),
    ensures
        !before.may_rest(around) <==> before.ends_exposure(around),
{
}

/// While a resting order may stay, the decision to keep it is written down again
/// each time the interval is over, and nothing is sent for it.
pub proof fn law_kept_orders_are_written_down(before: ExecutionProbe, around: Surroundings)
    requires
        before.active_probe is Some,
        before.active_probe->0.is_resting(),
        before.may_rest(around),
    ensures
        before.finding(around) == (if is_overdue(
            before.active_probe->0.last_keep_monotonic_ns,
            around.monotonic_ns,
            before.config.probe.keep_interval_ms,
        ) {
            Finding::KeepDue
        } else {
            Finding::Quiet
        }),
        forall|i: int|
            0 <= i < before.finding_commands(before.finding(around), around.monotonic_ns).len()
                ==> {
                let command = #[trigger] before.finding_commands(
                    before.finding(around),
                    around.monotonic_ns,
                )[i];
                command is Keep || command is GuardInventory
            },
        before.guard_commands().len() == 0,
{
}

/// The dwell of an order starts when it is first seen open: whatever was planned
/// before, it is not over earlier than its length after that time.
pub proof fn law_dwell_starts_when_the_order_opens(
    before: ExecutionProbe,
    after: ExecutionProbe,
    update: OrderUpdate,
    now_ns: u64,
    around: Surroundings,
)
    requires
        before.is_sound(),
        now_ns <= base::LATEST_NS,
        before.active_probe is Some,
        before.active_probe->0.open_monotonic_ns is None,
        before.is_opened(after, update, now_ns),
    ensures
        after.active_probe->0.open_monotonic_ns == Some(now_ns),
        after.active_probe->0.planned_expiry_monotonic_ns == now_ns + base::ms_in_ns(
            before.active_probe->0.planned_dwell_ms,
        ),
        after.finding(around) == Finding::DwellOver ==> around.monotonic_ns >= now_ns
            + base::ms_in_ns(before.active_probe->0.planned_dwell_ms),
{
}

/// Later updates of an open order leave its dwell as it is.
pub proof fn law_dwell_starts_once(
    before: ExecutionProbe,
    after: ExecutionProbe,
    update: OrderUpdate,
    now_ns: u64,
)
    requires
        before.active_probe is Some,
        before.active_probe->0.open_monotonic_ns is Some,
        before.is_opened(after, update, now_ns),
    ensures
        after.active_probe->0.open_monotonic_ns == before.active_probe->0.open_monotonic_ns,
        after.active_probe->0.planned_expiry_monotonic_ns
            == before.active_probe->0.planned_expiry_monotonic_ns,
{
}

/// The timer has a start at most at its end, and none in a shutdown.
proof fn lemma_timer_commands(module: ExecutionProbe, shutdown: bool, now_ns: u64)
    ensures
        commands::start_last(module.timer_commands(shutdown, now_ns)),
        shutdown ==> commands::start_nothing(module.timer_commands(shutdown, now_ns)),
{
    if shutdown {
        assert(commands::start_nothing(module.shutdown_notes()));
        assert(commands::start_nothing(module.shutdown_commands(now_ns)));
    }
}

/// The timer starts a probe at most once, and only as the last thing that it
/// does: after the markouts and the active probe, with all that they ask for. It
/// starts none while a shutdown is under way.
pub proof fn law_timer_starts_at_most_one_probe(
    module: ExecutionProbe,
    shutdown: bool,
    now_ns: u64,
    agendas: Seq<Seq<Command>>,
    i: int,
)
    requires
        commands::is_run(agendas),
        0 <= i < agendas.len(),
        agendas[0] == module.timer_commands(shutdown, now_ns),
        agendas[i].len() > 0,
        agendas[i][0] is StartIfIdle,
    ensures
        !shutdown,
        agendas[i].len() == 1,
        forall|j: int| i < j < agendas.len() ==> commands::start_nothing(#[trigger] agendas[j]),
{
    lemma_timer_commands(module, shutdown, now_ns);
    if shutdown {
        commands::law_nothing_starts_by_itself(agendas, i);
    } else {
        commands::law_start_comes_once_and_last(agendas, i);
    }
}

/// A snapshot of the account ends a probe only where no order of the probe is
/// open and the inventory is flat.
pub proof fn law_probes_end_reconciled(
    before: ExecutionProbe,
    after: ExecutionProbe,
    commands: Seq<Command>,
    now_ns: u64,
    i: int,
)
    requires
        before.handles_snapshot(after, commands, now_ns),
        0 <= i < commands.len(),
        commands[i] is Finish,
    ensures
        before.active_probe is Some,
        ExecutionProbe::first_order_of(
            before.account.open_orders@,
            before.active_probe->0,
        ) is None,
        before.account.is_flat(),
{
}

/// The process stops only when no probe is active, and after a snapshot of the
/// account that was asked for in the shutdown.
pub proof fn law_the_stop_comes_last(before: ExecutionProbe, now_ns: u64, i: int)
    requires
        0 <= i < before.shutdown_commands(now_ns).len(),
        before.shutdown_commands(now_ns)[i] is Stop,
    ensures
        before.active_probe is None,
        before.shutdown_snapshot_requested_ns is Some,
        before.account.snapshot_monotonic_ns >= before.shutdown_snapshot_requested_ns->0,
        !before.shutdown_notified,
{
}

/// A shutdown does not leave an order or an inventory alone: as long as a probe
/// is active, each step cancels, flattens or reconciles.
pub proof fn law_shutdown_works_on_the_probe(before: ExecutionProbe, now_ns: u64)
    requires
        before.active_probe is Some,
    ensures
        before.shutdown_commands(now_ns).len() > 0,
        before.active_probe->0.is_resting() ==> before.shutdown_commands(now_ns)[0] is Cancel,
        before.active_probe->0.phase == ProbePhase::MarkoutPending
            ==> before.shutdown_commands(now_ns)[0] == (Command::Flatten { risk_exit: true }),
{
}

/// A new private connection voids the evidence of the one before: what the old
/// connection showed of the order no longer ends a recovery.
pub proof fn law_reconnects_void_the_evidence(
    before: ExecutionProbe,
    after: ExecutionProbe,
    plan: FeedPlan,
    now_ns: u64,
)
    requires
        before.is_connecting(after, plan),
        before.voids_evidence(plan.task_id),
        after.active_probe is Some,
    ensures
        !after.is_settled_by_feed(after.active_probe->0, now_ns),
{
}

} // verus!
