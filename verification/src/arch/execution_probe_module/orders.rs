//! Decisions on the active probe: to keep its order, to cancel it, and to end
//! it.
use vstd::prelude::*;
use crate::arch::action_gateway;
use crate::arch::action_gateway::ActionContext;
use crate::arch::records::{Action, DecisionRecord, FinalizedProbe, SystemEvent};
use crate::arch::vocabulary::{FinishReason, Reason, RestReason, RestScope, Trigger};
use crate::binary64::Binary64;
use crate::constants;
use crate::constants::{ONE, ZERO};
use crate::text;
use crate::text::{owned, push_number};
use super::base;
use super::base::{Choice, ExecutionProbe, LATEST_NS, Surroundings};
use super::commands;
use super::commands::{Command, nothing, only, pair};
use super::state;
use super::state::{ActiveProbe, ProbePhase};

verus! {

/// An order on its way: the decision behind it, and what it is about.
#[derive(Debug)]
pub struct Dispatch {
    pub decision: DecisionRecord,
    pub context: ActionContext,
}

/// What a request to cancel leads to.
#[derive(Debug)]
pub enum CancelStep {
    /// Nothing is to be cancelled, or it was asked for already.
    Nothing,
    /// The order has no id yet; its state is to be recovered.
    Recover(Vec<Command>),
    /// The order with the id is to be cancelled.
    Send { dispatch: Dispatch, oid: u64 },
}

/// `base + duration`, within the range of `u64`.
pub open spec fn capped_sum(base: u64, duration: u64) -> u64 {
    if base + duration > u64::MAX {
        u64::MAX
    } else {
        (base + duration) as u64
    }
}

impl ExecutionProbe {
    /// The module after it has numbered a decision and an action.
    pub open spec fn after_ids(self) -> ExecutionProbe {
        ExecutionProbe {
            decision_sequence: action_gateway::successor(self.decision_sequence),
            action_sequence: action_gateway::successor(self.action_sequence),
            ..self
        }
    }

    /// The module after it has numbered a decision.
    pub open spec fn after_decision_id(self) -> ExecutionProbe {
        ExecutionProbe {
            decision_sequence: action_gateway::successor(self.decision_sequence),
            ..self
        }
    }

    /// The figures of the resting order that an action names: its price and
    /// what is left of its size.
    pub fn order_figures(&self) -> (r: Option<(Binary64, Binary64)>)
        ensures
            r == (match self.active_probe {
                Some(probe) => Some((probe.price, probe.remaining_size)),
                None => None,
            }),
    {
        match &self.active_probe {
            Some(probe) => Some((probe.price, probe.remaining_size)),
            None => None,
        }
    }

    /// The module after it has decided to cancel.
    pub open spec fn after_cancel_decided(self, trigger: Trigger) -> ExecutionProbe {
        self.with_probe(
            ActiveProbe { end_reason: Some(trigger), ..self.active_probe->0 },
        ).after_ids()
    }

    /// The context of a cancellation.
    pub open spec fn is_cancel_context(
        self,
        context: ActionContext,
        price: String,
        remaining: String,
    ) -> bool {
        let probe = self.active_probe->0;
        &&& context == ActionContext {
            action_id: context.action_id,
            probe_id: probe.probe_id,
            decision_id: context.decision_id,
            intent_id: context.intent_id,
            cloid: Some(probe.cloid),
            oid: probe.oid,
            side: Some(probe.side),
            price: Some(price),
            size: None,
            remaining_size: Some(remaining),
        }
        &&& context.action_id@ == self.next_action_text()
        &&& context.decision_id@ == self.next_decision_text()
        &&& context.intent_id@ == "cancel-"@ + probe.probe_id@ + "-"@ + text::digits(
            probe.oid->0 as nat,
        )
    }

    /// What a request to cancel does.
    pub open spec fn handles_cancel(
        self,
        after: ExecutionProbe,
        step: CancelStep,
        trigger: Trigger,
        reason: Reason,
        around: Surroundings,
        price: String,
        remaining: String,
    ) -> bool {
        if self.active_probe is None {
            after == self && step is Nothing
        } else if self.active_probe->0.oid is None {
            &&& after == self.with_probe(
                ActiveProbe {
                    phase: ProbePhase::Recovering,
                    recovery_not_before_monotonic_ns: around.monotonic_ns,
                    ..self.active_probe->0
                },
            )
            &&& step matches CancelStep::Recover(commands) && commands@ == seq![
                Command::Rest {
                    reason: RestReason::CancelWithoutOid(trigger),
                    scope: RestScope::Reconciliation,
                },
            ]
        } else if self.active_probe->0.cancel_request_id is Some {
            after == self && step is Nothing
        } else {
            let oid = self.active_probe->0.oid->0;
            let decided = self.after_cancel_decided(trigger);
            &&& after == decided.after_event()
            &&& step matches CancelStep::Send { dispatch, oid: told } && {
                &&& told == oid
                &&& self.is_cancel_context(dispatch.context, price, remaining)
                &&& decided.writes_down(
                    dispatch.decision,
                    base::ChoiceView {
                        probe_id: self.active_probe->0.probe_id@,
                        decision_id: self.next_decision_text(),
                        trigger,
                        candidates: seq![
                            Action::Keep { oid: Some(oid) },
                            Action::Cancel { oid: Some(oid) },
                        ],
                        selected: Action::Cancel { oid: Some(oid) },
                        probability: constants::number(ONE),
                        planned_expiry_ts_ns: None,
                        random_seed: 0,
                        reason,
                    },
                    around,
                )
            }
        }
    }

    /// Decides on a request to cancel the resting order. `price` and `remaining`
    /// are the texts of the order's figures.
    pub fn cancel_active(
        &mut self,
        trigger: Trigger,
        reason: Reason,
        around: Surroundings,
        price: String,
        remaining: String,
    ) -> (r: CancelStep)
        requires
            old(self).is_sound(),
        ensures
            r matches CancelStep::Recover(following) ==> commands::start_nothing(following@),
            old(self).handles_cancel(
                *final(self),
                r,
                trigger,
                reason,
                around,
                price,
                remaining,
            ),
            final(self).is_sound(),
    {
        let probe = match &mut self.active_probe {
            Some(probe) => probe,
            None => {
                return CancelStep::Nothing;
            },
        };
        let oid = match probe.oid {
            Some(oid) => oid,
            None => {
                probe.phase = ProbePhase::Recovering;
                probe.recovery_not_before_monotonic_ns = around.monotonic_ns;
                return CancelStep::Recover(
                    only(
                        Command::Rest {
                            reason: RestReason::CancelWithoutOid(trigger),
                            scope: RestScope::Reconciliation,
                        },
                    ),
                );
            },
        };
        if probe.cancel_request_id.is_some() {
            return CancelStep::Nothing;
        }
        probe.end_reason = Some(trigger);
        let probe_id = probe.probe_id.clone();
        let cloid = probe.cloid.clone();
        let side = probe.side;
        let decision_id = self.next_decision_id();
        let action_id = self.next_action_id();
        let candidates = vec![
            Action::Keep { oid: Some(oid) },
            Action::Cancel { oid: Some(oid) },
        ];
        proof {
            assert(candidates@ =~= seq![
                Action::Keep { oid: Some(oid) },
                Action::Cancel { oid: Some(oid) },
            ]);
        }
        let decision = self.build_decision(
            Choice {
                probe_id: probe_id.clone(),
                decision_id: decision_id.clone(),
                trigger,
                candidates,
                selected: Action::Cancel { oid: Some(oid) },
                probability: Binary64 { bits: ONE },
                planned_expiry_ts_ns: None,
                random_seed: 0,
                reason,
            },
            around,
        );
        let mut intent_id = owned("cancel-");
        intent_id.append(probe_id.as_str());
        intent_id.append("-");
        push_number(&mut intent_id, oid);
        let context = ActionContext {
            action_id,
            probe_id,
            decision_id,
            intent_id,
            cloid: Some(cloid),
            oid: Some(oid),
            side: Some(side),
            price: Some(price),
            size: None,
            remaining_size: Some(remaining),
        };
        CancelStep::Send { dispatch: Dispatch { decision, context }, oid }
    }

    /// The module after a cancellation was sent.
    pub open spec fn after_cancel_sent(self, request_id: u64, socket_write_ns: u64) -> ExecutionProbe {
        match self.active_probe {
            Some(probe) => self.with_probe(
                ActiveProbe {
                    phase: ProbePhase::CancelPending,
                    cancel_send_monotonic_ns: Some(socket_write_ns),
                    cancel_request_id: Some(request_id),
                    ..probe
                },
            ),
            None => self,
        }
    }

    /// Notes that a cancellation was sent.
    pub fn cancel_sent(&mut self, request_id: u64, socket_write_ns: u64)
        requires
            old(self).is_sound(),
        ensures
            *final(self) == old(self).after_cancel_sent(request_id, socket_write_ns),
            final(self).is_sound(),
    {
        if let Some(probe) = &mut self.active_probe {
            probe.phase = ProbePhase::CancelPending;
            probe.cancel_send_monotonic_ns = Some(socket_write_ns);
            probe.cancel_request_id = Some(request_id);
        }
    }

    /// What is decided when the order is kept. The dwell that is left is told as a
    /// time of day.
    pub open spec fn keep_choice(
        self,
        trigger: Trigger,
        reason: Reason,
        around: Surroundings,
    ) -> base::ChoiceView {
        let probe = self.active_probe->0;
        base::ChoiceView {
            probe_id: probe.probe_id@,
            decision_id: self.next_decision_text(),
            trigger,
            candidates: seq![Action::Keep { oid: probe.oid }, Action::Cancel { oid: probe.oid }],
            selected: Action::Keep { oid: probe.oid },
            probability: constants::number(ONE),
            planned_expiry_ts_ns: Some(
                capped_sum(
                    around.wall_ns,
                    state::elapsed(probe.planned_expiry_monotonic_ns, around.monotonic_ns),
                ),
            ),
            random_seed: 0,
            reason,
        }
    }

    /// The decision to keep the order, where one is active.
    pub fn record_keep(&mut self, trigger: Trigger, reason: Reason, around: Surroundings) -> (r:
        Option<DecisionRecord>)
        requires
            old(self).is_sound(),
        ensures
            match old(self).active_probe {
                Some(_) => r is Some && *final(self) == old(
                    self,
                ).after_decision_id().after_event() && old(self).after_decision_id().writes_down(
                    r->0,
                    old(self).keep_choice(trigger, reason, around),
                    around,
                ),
                None => r is None && *final(self) == *old(self),
            },
            final(self).is_sound(),
    {
        let (probe_id, oid, left_ns) = match &self.active_probe {
            Some(probe) => (
                probe.probe_id.clone(),
                probe.oid,
                probe.planned_expiry_monotonic_ns.saturating_sub(around.monotonic_ns),
            ),
            None => {
                return None;
            },
        };
        let decision_id = self.next_decision_id();
        let candidates = vec![Action::Keep { oid }, Action::Cancel { oid }];
        proof {
            assert(candidates@ =~= seq![Action::Keep { oid }, Action::Cancel { oid }]);
        }
        let decision = self.build_decision(
            Choice {
                probe_id,
                decision_id,
                trigger,
                candidates,
                selected: Action::Keep { oid },
                probability: Binary64 { bits: ONE },
                planned_expiry_ts_ns: Some(around.wall_ns.saturating_add(left_ns)),
                random_seed: 0,
                reason,
            },
            around,
        );
        Some(decision)
    }

    /// The module after a decision to keep the order was stored.
    pub open spec fn after_keep_recorded(self, decision_id: String, now_ns: u64) -> ExecutionProbe {
        match self.active_probe {
            Some(probe) => self.with_probe(
                ActiveProbe { last_keep_monotonic_ns: now_ns, decision_id, ..probe },
            ),
            None => self,
        }
    }

    /// Notes that a decision to keep the order was stored.
    pub fn keep_recorded(&mut self, decision_id: String, now_ns: u64)
        requires
            old(self).is_sound(),
        ensures
            *final(self) == old(self).after_keep_recorded(decision_id, now_ns),
            final(self).is_sound(),
    {
        if let Some(probe) = &mut self.active_probe {
            probe.last_keep_monotonic_ns = now_ns;
            probe.decision_id = decision_id;
        }
    }

    /// What is decided at a turn of the lifecycle: there is no choice.
    pub open spec fn lifecycle_choice(
        self,
        trigger: Trigger,
        action: Action,
        reason: Reason,
    ) -> base::ChoiceView {
        base::ChoiceView {
            probe_id: self.active_probe->0.probe_id@,
            decision_id: self.next_decision_text(),
            trigger,
            candidates: seq![action],
            selected: action,
            probability: constants::number(ONE),
            planned_expiry_ts_ns: None,
            random_seed: 0,
            reason,
        }
    }

    /// A decision of the lifecycle, where a probe is active.
    pub fn record_lifecycle_decision(
        &mut self,
        trigger: Trigger,
        action: Action,
        reason: Reason,
        around: Surroundings,
    ) -> (r: Option<DecisionRecord>)
        requires
            old(self).is_sound(),
        ensures
            match old(self).active_probe {
                Some(_) => r is Some && *final(self) == old(
                    self,
                ).after_decision_id().after_event() && old(self).after_decision_id().writes_down(
                    r->0,
                    old(self).lifecycle_choice(trigger, action, reason),
                    around,
                ),
                None => r is None && *final(self) == *old(self),
            },
            final(self).is_sound(),
    {
        let probe_id = match &self.active_probe {
            Some(probe) => probe.probe_id.clone(),
            None => {
                return None;
            },
        };
        let decision_id = self.next_decision_id();
        let candidates = vec![action.duplicate()];
        proof {
            assert(candidates@ =~= seq![action]);
        }
        let decision = self.build_decision(
            Choice {
                probe_id,
                decision_id,
                trigger,
                candidates,
                selected: action,
                probability: Binary64 { bits: ONE },
                planned_expiry_ts_ns: None,
                random_seed: 0,
                reason,
            },
            around,
        );
        Some(decision)
    }

    /// The module after a decision of the lifecycle was stored.
    pub open spec fn after_decision_recorded(self, decision_id: String) -> ExecutionProbe {
        match self.active_probe {
            Some(probe) => self.with_probe(ActiveProbe { decision_id, ..probe }),
            None => self,
        }
    }

    /// Notes that a decision of the lifecycle was stored.
    pub fn decision_recorded(&mut self, decision_id: String)
        requires
            old(self).is_sound(),
        ensures
            *final(self) == old(self).after_decision_recorded(decision_id),
            final(self).is_sound(),
    {
        if let Some(probe) = &mut self.active_probe {
            probe.decision_id = decision_id;
        }
    }

    /// The last record of a probe.
    pub open spec fn final_record(
        self,
        probe: ActiveProbe,
        reason: FinishReason,
        now_ns: u64,
    ) -> FinalizedProbe {
        FinalizedProbe {
            probe_id: probe.probe_id,
            oid: probe.oid,
            side: probe.side,
            price: probe.price,
            size: probe.size,
            filled_size: probe.cumulative_filled_size,
            first_fill_monotonic_ns: probe.first_fill_monotonic_ns,
            planned_dwell_ms: probe.planned_dwell_ms,
            flatten_oid: probe.flatten_oid,
            flatten_action_id: probe.flatten_action_id,
            actual_dwell_ms: (state::elapsed(now_ns, probe.created_monotonic_ns)
                / 1_000_000) as u64,
            end_reason: reason,
            exposure_trigger: probe.end_reason,
            censored: probe.cumulative_filled_size.not_above(constants::number(ZERO)),
            initial_queue_belief: probe.initial_queue_belief,
            queue_belief: probe.queue_belief,
            position: self.market.position_of(probe, now_ns),
        }
    }

    /// The module after its probe has ended.
    pub open spec fn after_finish(self) -> ExecutionProbe {
        ExecutionProbe { active_probe: None, ..self }
    }

    /// What the end of a probe asks for: its last record, then the cooldown.
    pub open spec fn finish_commands(self, reason: FinishReason, now_ns: u64) -> Seq<Command> {
        match self.active_probe {
            Some(probe) => seq![
                Command::Record(SystemEvent::Finalized(self.final_record(probe, reason, now_ns))),
                Command::Cooldown { now_ns },
            ],
            None => seq![Command::Cooldown { now_ns }],
        }
    }

    /// Ends the probe. The cooldown starts once its last record is stored.
    pub fn finish_probe(&mut self, reason: FinishReason, now_ns: u64) -> (r: Vec<Command>)
        requires
            old(self).is_sound(),
        ensures
            commands::start_nothing(r@),
            *final(self) == old(self).after_finish(),
            r@ == old(self).finish_commands(reason, now_ns),
            final(self).is_sound(),
    {
        match self.active_probe.take() {
            Some(probe) => {
                let position = self.market.quote_position(&probe, now_ns);
                let censored = probe.cumulative_filled_size.le(Binary64 { bits: ZERO });
                let record = FinalizedProbe {
                    probe_id: probe.probe_id,
                    oid: probe.oid,
                    side: probe.side,
                    price: probe.price,
                    size: probe.size,
                    filled_size: probe.cumulative_filled_size,
                    first_fill_monotonic_ns: probe.first_fill_monotonic_ns,
                    planned_dwell_ms: probe.planned_dwell_ms,
                    flatten_oid: probe.flatten_oid,
                    flatten_action_id: probe.flatten_action_id,
                    actual_dwell_ms: now_ns.saturating_sub(probe.created_monotonic_ns) / 1_000_000,
                    end_reason: reason,
                    exposure_trigger: probe.end_reason,
                    censored,
                    initial_queue_belief: probe.initial_queue_belief,
                    queue_belief: probe.queue_belief,
                    position,
                };
                pair(
                    Command::Record(SystemEvent::Finalized(record)),
                    Command::Cooldown { now_ns },
                )
            },
            None => only(Command::Cooldown { now_ns }),
        }
    }

    /// The module when the cooldown has started.
    pub open spec fn cooled_down(self, now_ns: u64) -> ExecutionProbe {
        ExecutionProbe {
            cooldown_until_ns: (now_ns + base::ms_in_ns(self.config.probe.cooldown_ms)) as u64,
            ..self
        }
    }

    /// Starts the cooldown.
    pub fn begin_cooldown(&mut self, now_ns: u64)
        requires
            old(self).is_sound(),
            now_ns <= LATEST_NS,
        ensures
            *final(self) == old(self).cooled_down(now_ns),
            final(self).is_sound(),
    {
        self.cooldown_until_ns = now_ns + self.config.probe.cooldown_ms * 1_000_000;
    }

    /// The probe waits for nothing but an account without inventory: it is being
    /// flattened, or what it was to flatten came without a fill of its own.
    pub open spec fn awaits_flat_account(probe: ActiveProbe) -> bool {
        probe.phase == ProbePhase::FlattenPending || (probe.phase == ProbePhase::MarkoutPending
            && !constants::number(ZERO).below(probe.cumulative_filled_size))
    }

    /// The probe has come to its end: it waits for a flat account, the account is
    /// flat, and no order of the probe is open.
    pub open spec fn is_flattened(self) -> bool {
        &&& self.active_probe is Some
        &&& Self::awaits_flat_account(self.active_probe->0)
        &&& self.account.is_flat()
        &&& Self::first_order_of(self.account.open_orders@, self.active_probe->0) is None
    }

    /// What follows where the probe may have come to its end.
    pub open spec fn flattened_commands(self) -> Seq<Command> {
        if self.is_flattened() {
            seq![Command::Finish(FinishReason::InventoryReconciled)]
        } else {
            Seq::empty()
        }
    }

    /// Ends the probe where no inventory and no open order is left of it.
    pub fn maybe_finish_flatten(&self) -> (r: Vec<Command>)
        ensures
            commands::start_nothing(r@),
            r@ == self.flattened_commands(),
    {
        let ended = match &self.active_probe {
            Some(probe) => {
                let waits = match probe.phase {
                    ProbePhase::FlattenPending => true,
                    ProbePhase::MarkoutPending => !(Binary64 { bits: ZERO }).lt(
                        probe.cumulative_filled_size,
                    ),
                    _ => false,
                };
                waits && self.account.inventory_is_flat() && self.recovered_order(probe).is_none()
            },
            None => false,
        };
        if ended {
            only(Command::Finish(FinishReason::InventoryReconciled))
        } else {
            nothing()
        }
    }
}

} // verus!
