//! The lifecycle of a probe, from the answer to its placement to its end.
use vstd::prelude::*;
use crate::arch::action_gateway;
use crate::arch::action_gateway::{
    GatewayError, PlaceOutcome, cancel_succeeded, parse_post_frame, place_outcome,
};
use crate::arch::records::{Action, SystemEvent};
use crate::arch::vocabulary::{FinishReason, Reason, RestReason, RestScope, Trigger};
use crate::binary64::Binary64;
use crate::constants;
use crate::constants::ZERO;
use crate::json::Json;
use crate::text;
use crate::text::{contains, lower_case, same, spells};
use super::base;
use super::base::{ExecutionProbe, LATEST_NS};
use super::commands;
use super::commands::{Command, nothing, only, pair, triple};
use super::fills;
use super::orders;
use super::state;
use super::state::{ActiveProbe, BookLevel, OrderUpdate, ProbePhase, QueueBelief};

verus! {

/// Which request of the active probe an answer belongs to.
#[derive(Clone, Copy, Debug, PartialEq, Eq, Structural)]
pub enum PostTarget {
    /// No probe is active.
    Orphan,
    Place,
    Cancel,
    Flatten,
    Unmatched,
}

impl ExecutionProbe {
    /// The request that an answer belongs to.
    pub open spec fn target(self, request_id: u64) -> PostTarget {
        match self.active_probe {
            Some(probe) => if probe.post_request_id == request_id {
                PostTarget::Place
            } else if probe.cancel_request_id == Some(request_id) {
                PostTarget::Cancel
            } else if probe.flatten_request_id == Some(request_id) {
                PostTarget::Flatten
            } else {
                PostTarget::Unmatched
            },
            None => PostTarget::Orphan,
        }
    }

    /// The module with another active probe.
    pub open spec fn with_probe(self, probe: ActiveProbe) -> ExecutionProbe {
        ExecutionProbe { active_probe: Some(probe), ..self }
    }

    /// The phase after a placement was accepted: the answer settles a placement
    /// that was waiting for it, and undoes nothing that came to be known before.
    pub open spec fn accepted_phase(self) -> ProbePhase {
        if self.active_probe->0.phase == ProbePhase::PlacePending {
            ProbePhase::PostAccepted
        } else {
            self.active_probe->0.phase
        }
    }

    /// The module after the answer to a placement.
    pub open spec fn after_place_answer(self, outcome: PlaceOutcome) -> ExecutionProbe {
        match outcome {
            PlaceOutcome::Resting(oid) => self.with_probe(
                ActiveProbe {
                    oid: Some(oid),
                    phase: self.accepted_phase(),
                    ..self.active_probe->0
                },
            ),
            PlaceOutcome::Filled(oid) => self.with_probe(
                ActiveProbe {
                    oid: Some(oid),
                    phase: ProbePhase::Filled,
                    ..self.active_probe->0
                },
            ),
            PlaceOutcome::Rejected(_) => self,
        }
    }

    /// What the answer to a placement asks for: a refused order ends the probe.
    pub open spec fn place_answer_commands(request_id: u64, outcome: PlaceOutcome) -> Seq<Command> {
        match outcome {
            PlaceOutcome::Resting(oid) => seq![
                Command::Record(SystemEvent::PlacePostAccepted { request_id, oid }),
            ],
            PlaceOutcome::Filled(oid) => seq![
                Command::Record(SystemEvent::PlaceImmediateFill { request_id, oid }),
            ],
            PlaceOutcome::Rejected(reason) => seq![
                Command::Record(SystemEvent::PlaceRejected { request_id, reason }),
                Command::Decide {
                    trigger: Trigger::OwnOrderAck,
                    action: Action::Terminate { reason: FinishReason::PlaceRejected },
                    reason: Reason::ExchangeRejectedPlace,
                },
                Command::Finish(FinishReason::PlaceRejected),
            ],
        }
    }

    /// Handles the answer to a placement.
    pub fn place_answered(&mut self, request_id: u64, outcome: PlaceOutcome) -> (r: Vec<Command>)
        requires
            old(self).is_sound(),
            old(self).active_probe is Some,
        ensures
            commands::start_nothing(r@),
            *final(self) == old(self).after_place_answer(outcome),
            r@ == Self::place_answer_commands(request_id, outcome),
            final(self).is_sound(),
    {
        match outcome {
            PlaceOutcome::Resting(oid) => {
                if let Some(probe) = &mut self.active_probe {
                    probe.oid = Some(oid);
                    if probe.phase == ProbePhase::PlacePending {
                        probe.phase = ProbePhase::PostAccepted;
                    }
                }
                only(Command::Record(SystemEvent::PlacePostAccepted { request_id, oid }))
            },
            PlaceOutcome::Filled(oid) => {
                if let Some(probe) = &mut self.active_probe {
                    probe.oid = Some(oid);
                    probe.phase = ProbePhase::Filled;
                }
                only(Command::Record(SystemEvent::PlaceImmediateFill { request_id, oid }))
            },
            PlaceOutcome::Rejected(reason) => triple(
                Command::Record(SystemEvent::PlaceRejected { request_id, reason }),
                Command::Decide {
                    trigger: Trigger::OwnOrderAck,
                    action: Action::Terminate { reason: FinishReason::PlaceRejected },
                    reason: Reason::ExchangeRejectedPlace,
                },
                Command::Finish(FinishReason::PlaceRejected),
            ),
        }
    }

    /// The module after the answer to a flattening order. An order that rests,
    /// or that was refused, leaves the probe to its recovery.
    pub open spec fn after_flatten_answer(self, outcome: PlaceOutcome, now_ns: u64) -> ExecutionProbe {
        if self.active_probe is None {
            self
        } else {
            match outcome {
                PlaceOutcome::Filled(oid) => self.with_probe(
                    ActiveProbe { flatten_oid: Some(oid), ..self.active_probe->0 },
                ),
                PlaceOutcome::Resting(oid) => self.with_probe(
                    ActiveProbe {
                        flatten_oid: Some(oid),
                        phase: ProbePhase::Recovering,
                        recovery_not_before_monotonic_ns: now_ns,
                        ..self.active_probe->0
                    },
                ),
                PlaceOutcome::Rejected(_) => self.with_probe(
                    ActiveProbe {
                        phase: ProbePhase::Recovering,
                        flatten_request_id: None,
                        flatten_send_monotonic_ns: None,
                        recovery_not_before_monotonic_ns: now_ns,
                        ..self.active_probe->0
                    },
                ),
            }
        }
    }

    /// What the answer to a flattening order asks for.
    pub open spec fn flatten_answer_commands(request_id: u64, outcome: PlaceOutcome) -> Seq<Command> {
        let rest = Command::Rest {
            reason: RestReason::FlattenPostResponse,
            scope: RestScope::Reconciliation,
        };
        match outcome {
            PlaceOutcome::Filled(_) => Seq::empty(),
            PlaceOutcome::Resting(oid) => seq![
                Command::Record(SystemEvent::FlattenIocUnexpectedResting { request_id, oid }),
                rest,
            ],
            PlaceOutcome::Rejected(reason) => seq![
                Command::Record(SystemEvent::FlattenIocRejected { request_id, reason }),
                rest,
            ],
        }
    }

    /// Handles the answer to a flattening order.
    pub fn flatten_answered(&mut self, request_id: u64, outcome: PlaceOutcome, now_ns: u64) -> (r:
        Vec<Command>)
        requires
            old(self).is_sound(),
        ensures
            commands::start_nothing(r@),
            *final(self) == old(self).after_flatten_answer(outcome, now_ns),
            r@ == Self::flatten_answer_commands(request_id, outcome),
            final(self).is_sound(),
    {
        let rest = Command::Rest {
            reason: RestReason::FlattenPostResponse,
            scope: RestScope::Reconciliation,
        };
        match outcome {
            PlaceOutcome::Filled(oid) => {
                if let Some(probe) = &mut self.active_probe {
                    probe.flatten_oid = Some(oid);
                }
                nothing()
            },
            PlaceOutcome::Resting(oid) => {
                if let Some(probe) = &mut self.active_probe {
                    probe.flatten_oid = Some(oid);
                    probe.phase = ProbePhase::Recovering;
                    probe.recovery_not_before_monotonic_ns = now_ns;
                }
                pair(
                    Command::Record(SystemEvent::FlattenIocUnexpectedResting { request_id, oid }),
                    rest,
                )
            },
            PlaceOutcome::Rejected(reason) => {
                if let Some(probe) = &mut self.active_probe {
                    probe.phase = ProbePhase::Recovering;
                    probe.flatten_request_id = None;
                    probe.flatten_send_monotonic_ns = None;
                    probe.recovery_not_before_monotonic_ns = now_ns;
                }
                pair(
                    Command::Record(SystemEvent::FlattenIocRejected { request_id, reason }),
                    rest,
                )
            },
        }
    }

    /// The first status of a good answer.
    pub open spec fn first_status(frame: Json) -> Option<Json> {
        match action_gateway::good_statuses(frame) {
            Some(statuses) => if statuses.len() > 0 {
                Some(statuses[0])
            } else {
                None
            },
            None => None,
        }
    }

    /// What an answer does, given the outcome that it states.
    pub open spec fn handles_answer(
        self,
        after: ExecutionProbe,
        commands: Seq<Command>,
        frame: Json,
        request_id: u64,
    ) -> bool {
        match self.target(request_id) {
            PostTarget::Orphan => after == self && commands == seq![
                Command::Record(SystemEvent::OrphanPostResponse { request_id }),
            ],
            PostTarget::Unmatched => after == self && commands == seq![
                Command::Record(SystemEvent::UnmatchedPostResponse { request_id }),
            ],
            PostTarget::Cancel => {
                &&& after == self
                &&& commands == seq![
                    Command::Record(SystemEvent::CancelPostAccepted { request_id }),
                ]
                &&& Self::first_status(frame) is Some
                &&& Self::first_status(frame)->0.characters() == Some("success"@)
            },
            PostTarget::Place => exists|outcome: PlaceOutcome|
                {
                    &&& Self::first_status(frame) is Some
                    &&& #[trigger] action_gateway::is_outcome_of(
                        outcome,
                        Self::first_status(frame)->0,
                    )
                    &&& after == self.after_place_answer(outcome)
                    &&& commands == Self::place_answer_commands(request_id, outcome)
                },
            PostTarget::Flatten => exists|outcome: PlaceOutcome|
                {
                    &&& Self::first_status(frame) is Some
                    &&& #[trigger] action_gateway::is_outcome_of(
                        outcome,
                        Self::first_status(frame)->0,
                    )
                    &&& after == self
                    &&& commands == seq![
                        Command::Record(SystemEvent::FlattenPostResponse { request_id, outcome }),
                        Command::FlattenAnswered { request_id, outcome },
                    ]
                },
        }
    }

    /// What a frame of the action feed does. Frames of other channels do nothing.
    pub open spec fn handles_post(
        self,
        after: ExecutionProbe,
        commands: Seq<Command>,
        frame: Json,
    ) -> bool {
        if action_gateway::is_post(frame) {
            &&& action_gateway::response_id(frame) is Some
            &&& self.handles_answer(
                after,
                commands,
                frame,
                action_gateway::response_id(frame)->0,
            )
        } else {
            after == self && commands.len() == 0
        }
    }

    /// Why an answer cannot be used: it names no request, or it belongs to a
    /// request of the probe and confirms nothing.
    pub open spec fn is_answer_error(self, error: GatewayError, frame: Json) -> bool {
        &&& action_gateway::is_post(frame)
        &&& match action_gateway::response_id(frame) {
            Some(request_id) => match self.target(request_id) {
                PostTarget::Cancel => action_gateway::is_cancel_error(error, frame),
                PostTarget::Place => action_gateway::is_place_error(error, frame),
                PostTarget::Flatten => action_gateway::is_place_error(error, frame),
                _ => false,
            },
            None => error is ResponseWithoutId,
        }
    }

    /// Handles an answer on the action feed.
    pub fn process_post_response(&mut self, value: &Json) -> (r: Result<Vec<Command>, GatewayError>)
        requires
            old(self).is_sound(),
        ensures
            r matches Ok(following) ==> commands::start_nothing(following@),
            final(self).is_sound(),
            match r {
                Ok(commands) => old(self).handles_post(*final(self), commands@, *value),
                Err(error) => *final(self) == *old(self) && old(self).is_answer_error(
                    error,
                    *value,
                ),
            },
    {
        let request_id = match parse_post_frame(value) {
            Ok(Some((request_id, _))) => request_id,
            Ok(None) => {
                return Ok(nothing());
            },
            Err(error) => {
                return Err(error);
            },
        };
        let target = self.post_target(request_id);
        match target {
            PostTarget::Orphan => Ok(
                only(Command::Record(SystemEvent::OrphanPostResponse { request_id })),
            ),
            PostTarget::Place => match place_outcome(value) {
                Ok(outcome) => {
                    proof {
                        assert(action_gateway::is_outcome_of(
                            outcome,
                            Self::first_status(*value)->0,
                        ));
                    }
                    Ok(self.place_answered(request_id, outcome))
                },
                Err(error) => Err(error),
            },
            PostTarget::Cancel => match cancel_succeeded(value) {
                Ok(_) => Ok(only(Command::Record(SystemEvent::CancelPostAccepted { request_id }))),
                Err(error) => Err(error),
            },
            PostTarget::Flatten => match place_outcome(value) {
                Ok(outcome) => {
                    proof {
                        assert(action_gateway::is_outcome_of(
                            outcome,
                            Self::first_status(*value)->0,
                        ));
                    }
                    let told = outcome.duplicate();
                    Ok(
                        pair(
                            Command::Record(
                                SystemEvent::FlattenPostResponse { request_id, outcome: told },
                            ),
                            Command::FlattenAnswered { request_id, outcome },
                        ),
                    )
                },
                Err(error) => Err(error),
            },
            PostTarget::Unmatched => Ok(
                only(Command::Record(SystemEvent::UnmatchedPostResponse { request_id })),
            ),
        }
    }

    fn post_target(&self, request_id: u64) -> (r: PostTarget)
        ensures
            r == self.target(request_id),
    {
        match &self.active_probe {
            Some(probe) => {
                let cancel = match probe.cancel_request_id {
                    Some(id) => id == request_id,
                    None => false,
                };
                let flatten = match probe.flatten_request_id {
                    Some(id) => id == request_id,
                    None => false,
                };
                if probe.post_request_id == request_id {
                    PostTarget::Place
                } else if cancel {
                    PostTarget::Cancel
                } else if flatten {
                    PostTarget::Flatten
                } else {
                    PostTarget::Unmatched
                }
            },
            None => PostTarget::Orphan,
        }
    }
}

/// What an order update tells of its order.
#[derive(Clone, Copy, Debug, PartialEq, Eq, Structural)]
pub enum OrderStatus {
    Open,
    Filled,
    Canceled,
    Rejected,
    Other,
}

/// The status that a text stands for, whatever the case of its letters.
pub open spec fn status_of(status: Seq<char>) -> OrderStatus {
    let word = text::lowered(status);
    if word == "open"@ || word == "triggered"@ {
        OrderStatus::Open
    } else if word == "filled"@ {
        OrderStatus::Filled
    } else if text::holds_part(word, "cancel"@) {
        OrderStatus::Canceled
    } else if text::holds_part(word, "reject"@) {
        OrderStatus::Rejected
    } else {
        OrderStatus::Other
    }
}

fn order_status(status: &str) -> (r: OrderStatus)
    ensures
        r == status_of(status@),
{
    let word = lower_case(status);
    if spells(&word, "open") || spells(&word, "triggered") {
        OrderStatus::Open
    } else if spells(&word, "filled") {
        OrderStatus::Filled
    } else if contains(&word, "cancel") {
        OrderStatus::Canceled
    } else if contains(&word, "reject") {
        OrderStatus::Rejected
    } else {
        OrderStatus::Other
    }
}

impl ExecutionProbe {
    /// The update is about the order of the active probe.
    pub open spec fn is_about(self, update: OrderUpdate) -> bool {
        &&& update.coin@ == self.config.markets.hyperliquid_coin@
        &&& self.active_probe is Some
        &&& (update.cloid is Some && update.cloid->0@ == self.active_probe->0.cloid@)
            || self.active_probe->0.oid == Some(update.oid)
    }

    fn concerns(&self, update: &OrderUpdate) -> (r: bool)
        ensures
            r == self.is_about(*update),
    {
        if !same(update.coin.as_str(), self.config.markets.hyperliquid_coin.as_str()) {
            return false;
        }
        match &self.active_probe {
            Some(probe) => {
                let by_cloid = match &update.cloid {
                    Some(cloid) => same(cloid.as_str(), probe.cloid.as_str()),
                    None => false,
                };
                let by_oid = match probe.oid {
                    Some(oid) => oid == update.oid,
                    None => false,
                };
                by_cloid || by_oid
            },
            None => false,
        }
    }

    /// The level of the queue book at the price of a probe.
    pub open spec fn queue_level(self, probe: ActiveProbe) -> Option<BookLevel> {
        state::level_at(
            self.market.queue_book().side_levels(probe.side),
            probe.price,
            probe.tick_size,
        )
    }

    /// `after` follows when the order is seen open. The first time, its dwell
    /// starts and the belief of its queue is formed. An order that is being
    /// cancelled stays so.
    pub open spec fn is_opened(self, after: ExecutionProbe, update: OrderUpdate, now_ns: u64) -> bool {
        let probe = self.active_probe->0;
        let first = probe.open_monotonic_ns is None;
        let filled = state::reduced(update.original_size, update.remaining_size);
        let level = self.queue_level(probe);
        &&& after.active_probe is Some
        &&& after == self.with_probe(
            ActiveProbe {
                oid: Some(update.oid),
                remaining_size: update.remaining_size,
                cumulative_filled_size: filled,
                phase: if probe.cancel_request_id is Some {
                    probe.phase
                } else if constants::number(ZERO).below(filled) {
                    ProbePhase::Partial
                } else {
                    ProbePhase::Resting
                },
                open_monotonic_ns: if first {
                    Some(now_ns)
                } else {
                    probe.open_monotonic_ns
                },
                planned_expiry_monotonic_ns: if first {
                    orders::capped_sum(now_ns, base::ms_in_ns(probe.planned_dwell_ms) as u64)
                } else {
                    probe.planned_expiry_monotonic_ns
                },
                queue_belief: after.active_probe->0.queue_belief,
                initial_queue_belief: after.active_probe->0.initial_queue_belief,
                ..probe
            },
        )
        &&& if first {
            &&& after.active_probe->0.queue_belief.is_initial(
                match level {
                    Some(level) => level.size,
                    None => constants::number(ZERO),
                },
                match level {
                    Some(level) => level.order_count,
                    None => None,
                },
                update.remaining_size,
            )
            &&& after.active_probe->0.initial_queue_belief == Some(
                after.active_probe->0.queue_belief,
            )
        } else {
            &&& after.active_probe->0.queue_belief == probe.queue_belief
            &&& after.active_probe->0.initial_queue_belief == probe.initial_queue_belief
        }
    }

    /// The module after the order was filled.
    pub open spec fn after_filled(self, update: OrderUpdate) -> ExecutionProbe {
        let probe = self.active_probe->0;
        self.with_probe(
            ActiveProbe {
                oid: Some(update.oid),
                remaining_size: constants::number(ZERO),
                cumulative_filled_size: probe.cumulative_filled_size.larger(
                    update.original_size.difference(update.remaining_size),
                ),
                phase: ProbePhase::MarkoutPending,
                ..probe
            },
        )
    }

    /// Some of the order was filled before it was cancelled.
    pub open spec fn was_filled(self, update: OrderUpdate) -> bool {
        constants::number(ZERO).below(
            self.active_probe->0.cumulative_filled_size.larger(
                state::reduced(update.original_size, update.remaining_size),
            ),
        )
    }

    /// What an order update asks for.
    pub open spec fn update_commands(self, update: OrderUpdate, received_ns: u64) -> Seq<Command> {
        match status_of(update.status@) {
            OrderStatus::Open => if self.active_probe->0.open_monotonic_ns is None {
                seq![
                    Command::Keep {
                        trigger: Trigger::OwnOrderOpen,
                        reason: Reason::AcknowledgedRestingOrder,
                    },
                ]
            } else {
                Seq::empty()
            },
            OrderStatus::Filled => Seq::empty(),
            OrderStatus::Canceled => seq![
                Command::Record(
                    SystemEvent::CancelEffective {
                        oid: update.oid,
                        status_timestamp_ms: update.status_timestamp_ms,
                        has_fill: self.was_filled(update),
                    },
                ),
                Command::CancelSettled {
                    has_fill: self.was_filled(update),
                    filled: state::reduced(update.original_size, update.remaining_size),
                    received_ns,
                },
            ],
            OrderStatus::Rejected => seq![
                Command::Decide {
                    trigger: Trigger::OwnOrderAck,
                    action: Action::Terminate { reason: FinishReason::OrderRejected },
                    reason: Reason::OrderUpdateRejected,
                },
                Command::Finish(FinishReason::OrderRejected),
            ],
            OrderStatus::Other => Seq::empty(),
        }
    }

    /// What an order update does: one of another order, nothing.
    pub open spec fn handles_update(
        self,
        after: ExecutionProbe,
        commands: Seq<Command>,
        update: OrderUpdate,
        received_ns: u64,
        now_ns: u64,
    ) -> bool {
        if self.is_about(update) {
            &&& commands == self.update_commands(update, received_ns)
            &&& match status_of(update.status@) {
                OrderStatus::Open => self.is_opened(after, update, now_ns),
                OrderStatus::Filled => after == self.after_filled(update),
                _ => after == self,
            }
        } else {
            after == self && commands.len() == 0
        }
    }

    /// Handles an order update.
    pub fn process_order_update(&mut self, update: &OrderUpdate, received_ns: u64, now_ns: u64) -> (r:
        Vec<Command>)
        requires
            old(self).is_sound(),
            now_ns <= LATEST_NS,
        ensures
            commands::start_nothing(r@),
            final(self).is_sound(),
            old(self).handles_update(*final(self), r@, *update, received_ns, now_ns),
    {
        if !self.concerns(update) {
            return nothing();
        }
        let zero = Binary64 { bits: ZERO };
        let filled = update.original_size.minus(update.remaining_size).max(zero);
        match order_status(update.status.as_str()) {
            OrderStatus::Open => {
                let mut first = false;
                let book = self.market.book_for_queue();
                if let Some(probe) = &mut self.active_probe {
                    first = probe.open_monotonic_ns.is_none();
                    probe.oid = Some(update.oid);
                    probe.remaining_size = update.remaining_size;
                    probe.cumulative_filled_size = filled;
                    if probe.cancel_request_id.is_none() {
                        probe.phase = if zero.lt(filled) {
                            ProbePhase::Partial
                        } else {
                            ProbePhase::Resting
                        };
                    }
                    if first {
                        probe.open_monotonic_ns = Some(now_ns);
                        probe.planned_expiry_monotonic_ns = now_ns + probe.planned_dwell_ms
                            * 1_000_000;
                        let level = book.level(probe.side, probe.price, probe.tick_size);
                        let (size, order_count) = match level {
                            Some(level) => (level.size, level.order_count),
                            None => (zero, None),
                        };
                        probe.queue_belief = QueueBelief::initialize(
                            size,
                            order_count,
                            update.remaining_size,
                        );
                        probe.initial_queue_belief = Some(probe.queue_belief.duplicate());
                    }
                }
                if first {
                    only(
                        Command::Keep {
                            trigger: Trigger::OwnOrderOpen,
                            reason: Reason::AcknowledgedRestingOrder,
                        },
                    )
                } else {
                    nothing()
                }
            },
            OrderStatus::Filled => {
                if let Some(probe) = &mut self.active_probe {
                    probe.oid = Some(update.oid);
                    probe.remaining_size = zero;
                    probe.cumulative_filled_size = probe.cumulative_filled_size.max(
                        update.original_size.minus(update.remaining_size),
                    );
                    probe.phase = ProbePhase::MarkoutPending;
                }
                nothing()
            },
            OrderStatus::Canceled => {
                let has_fill = match &self.active_probe {
                    Some(probe) => zero.lt(probe.cumulative_filled_size.max(filled)),
                    None => false,
                };
                pair(
                    Command::Record(
                        SystemEvent::CancelEffective {
                            oid: update.oid,
                            status_timestamp_ms: update.status_timestamp_ms,
                            has_fill,
                        },
                    ),
                    Command::CancelSettled { has_fill, filled, received_ns },
                )
            },
            OrderStatus::Rejected => pair(
                Command::Decide {
                    trigger: Trigger::OwnOrderAck,
                    action: Action::Terminate { reason: FinishReason::OrderRejected },
                    reason: Reason::OrderUpdateRejected,
                },
                Command::Finish(FinishReason::OrderRejected),
            ),
            OrderStatus::Other => nothing(),
        }
    }

    /// The module after a cancelled order was settled: a fill waits for its
    /// markouts, an order without one waits for late fills.
    pub open spec fn after_cancel_settled(
        self,
        has_fill: bool,
        filled: Binary64,
        received_ns: u64,
        now_ns: u64,
    ) -> ExecutionProbe {
        match self.active_probe {
            Some(probe) => if has_fill {
                self.with_probe(
                    ActiveProbe {
                        remaining_size: constants::number(ZERO),
                        cumulative_filled_size: probe.cumulative_filled_size.larger(filled),
                        phase: ProbePhase::MarkoutPending,
                        ..probe
                    },
                )
            } else {
                self.with_probe(
                    ActiveProbe {
                        remaining_size: constants::number(ZERO),
                        phase: ProbePhase::Recovering,
                        terminal_order_update_monotonic_ns: Some(received_ns),
                        recovery_not_before_monotonic_ns: orders::capped_sum(
                            now_ns,
                            base::ms_in_ns(self.config.probe.cancel_timeout_ms) as u64,
                        ),
                        ..probe
                    },
                )
            },
            None => self,
        }
    }

    /// What a settled cancellation asks for.
    pub open spec fn settled_commands(has_fill: bool) -> Seq<Command> {
        if has_fill {
            Seq::empty()
        } else {
            seq![
                Command::Decide {
                    trigger: Trigger::CancelEffective,
                    action: Action::Reconcile,
                    reason: Reason::CancelConfirmedWaitForLateFills,
                },
            ]
        }
    }

    /// Settles a cancelled order.
    pub fn cancel_settled(
        &mut self,
        has_fill: bool,
        filled: Binary64,
        received_ns: u64,
        now_ns: u64,
    ) -> (r: Vec<Command>)
        requires
            old(self).is_sound(),
        ensures
            commands::start_nothing(r@),
            *final(self) == old(self).after_cancel_settled(has_fill, filled, received_ns, now_ns),
            r@ == Self::settled_commands(has_fill),
            final(self).is_sound(),
    {
        let zero = Binary64 { bits: ZERO };
        let settled_ns = now_ns.saturating_add(self.config.probe.cancel_timeout_ms * 1_000_000);
        if let Some(probe) = &mut self.active_probe {
            probe.remaining_size = zero;
            if has_fill {
                probe.cumulative_filled_size = probe.cumulative_filled_size.max(filled);
                probe.phase = ProbePhase::MarkoutPending;
            } else {
                probe.phase = ProbePhase::Recovering;
                probe.terminal_order_update_monotonic_ns = Some(received_ns);
                probe.recovery_not_before_monotonic_ns = settled_ns;
            }
        }
        if has_fill {
            nothing()
        } else {
            only(
                Command::Decide {
                    trigger: Trigger::CancelEffective,
                    action: Action::Reconcile,
                    reason: Reason::CancelConfirmedWaitForLateFills,
                },
            )
        }
    }
}

/// Whichever comes first, the answer that an order rests undoes nothing: an order
/// that was seen open still rests after it, with the dwell that was running.
pub proof fn law_answers_leave_resting_orders(before: ExecutionProbe, outcome: PlaceOutcome)
    requires
        before.active_probe is Some,
        outcome is Resting,
    ensures
        ({
            let probe = before.active_probe->0;
            let after = before.after_place_answer(outcome).active_probe->0;
            &&& before.after_place_answer(outcome).active_probe is Some
            &&& probe.phase != ProbePhase::PlacePending ==> after.phase == probe.phase
            &&& probe.is_resting() ==> after.is_resting()
            &&& after.open_monotonic_ns == probe.open_monotonic_ns
            &&& after.planned_expiry_monotonic_ns == probe.planned_expiry_monotonic_ns
        }),
{
}

/// Until a cancellation is settled, no sight of the open order and no partial
/// fill takes the probe out of its wait: its timeout stays in force.
pub proof fn law_cancellations_stay_pending(
    before: ExecutionProbe,
    after: ExecutionProbe,
    update: OrderUpdate,
    size: Binary64,
    received_ns: u64,
    now_ns: u64,
)
    requires
        before.active_probe is Some,
        before.active_probe->0.phase == ProbePhase::CancelPending,
        before.active_probe->0.cancel_request_id is Some,
    ensures
        before.is_opened(after, update, now_ns) ==> after.active_probe->0.phase
            == ProbePhase::CancelPending && after.active_probe->0.cancel_send_monotonic_ns
            == before.active_probe->0.cancel_send_monotonic_ns,
        constants::number(ZERO).below(
            state::reduced(before.active_probe->0.remaining_size, size),
        ) ==> fills::probe_after_fill(before.active_probe->0, size, received_ns).phase
            == ProbePhase::CancelPending,
        fills::probe_after_fill(
            before.active_probe->0,
            size,
            received_ns,
        ).cancel_send_monotonic_ns == before.active_probe->0.cancel_send_monotonic_ns,
{
}

} // verus!
