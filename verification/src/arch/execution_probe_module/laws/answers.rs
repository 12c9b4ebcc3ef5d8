//! What answers, updates and requests do to a probe.
use vstd::prelude::*;
use crate::arch::action_gateway;
use crate::arch::action_gateway::PlaceOutcome;
use crate::arch::records::{Action, DecisionRecord, SystemEvent};
use crate::arch::vocabulary::{FinishReason, Reason, RestReason, RestScope, Trigger};
use crate::binary64::Binary64;
use crate::json::Json;
use crate::ordering;
use crate::text;

use super::super::base::{ChoiceView, ExecutionProbe, Surroundings};
use super::super::commands::Command;
use super::super::evaluation::Finding;
use super::super::flatten;
use super::super::flatten::FlattenNeed;
use super::super::lifecycle;
use super::super::lifecycle::{OrderStatus, PostTarget};
use super::super::orders::CancelStep;
use super::super::state::{AccountState, ActiveProbe, OrderUpdate, ProbePhase};
use super::market::has_lasted;
use super::queue::without;
use super::timing::has_passed;

verus! {

/// An answer belongs to the request of its number: to the placement first, then to
/// the cancellation, then to the flattening. Without a probe it belongs to nobody.
pub proof fn law_answers_belong_to_their_request(module: ExecutionProbe, request_id: u64)
    ensures
        ({
            let target = module.target(request_id);
            let probe = module.active_probe->0;
            &&& module.active_probe is None <==> target == PostTarget::Orphan
            &&& target == PostTarget::Place <==> module.active_probe is Some
                && probe.post_request_id == request_id
            &&& target == PostTarget::Cancel <==> module.active_probe is Some
                && probe.post_request_id != request_id && probe.cancel_request_id is Some
                && probe.cancel_request_id->0 == request_id
            &&& target == PostTarget::Flatten <==> module.active_probe is Some
                && probe.post_request_id != request_id && probe.cancel_request_id != Some(
                request_id,
            ) && probe.flatten_request_id is Some && probe.flatten_request_id->0 == request_id
        }),
{
}

/// The answer to a placement gives the order its id. A resting order leaves its wait
/// for the answer, a filled one waits for its fills, and a refused one ends the
/// probe.
pub proof fn law_placements_are_answered(
    module: ExecutionProbe,
    request_id: u64,
    outcome: PlaceOutcome,
)
    requires
        module.active_probe is Some,
    ensures
        ({
            let probe = module.active_probe->0;
            let after = module.after_place_answer(outcome);
            let commands = ExecutionProbe::place_answer_commands(request_id, outcome);
            &&& after.active_probe is Some
            &&& after == (ExecutionProbe { active_probe: after.active_probe, ..module })
            &&& match outcome {
                PlaceOutcome::Resting(oid) => {
                    &&& after.active_probe->0.oid == Some(oid)
                    &&& probe.phase == ProbePhase::PlacePending ==> after.active_probe->0.phase
                        == ProbePhase::PostAccepted
                    &&& probe.phase != ProbePhase::PlacePending ==> after.active_probe->0.phase
                        == probe.phase
                    &&& commands.len() == 1
                    &&& commands[0] == Command::Record(
                        SystemEvent::PlacePostAccepted { request_id, oid },
                    )
                },
                PlaceOutcome::Filled(oid) => {
                    &&& after.active_probe->0.oid == Some(oid)
                    &&& after.active_probe->0.phase == ProbePhase::Filled
                    &&& commands.len() == 1
                    &&& commands[0] == Command::Record(
                        SystemEvent::PlaceImmediateFill { request_id, oid },
                    )
                },
                PlaceOutcome::Rejected(reason) => {
                    &&& after == module
                    &&& commands.len() == 3
                    &&& commands[0] == Command::Record(
                        SystemEvent::PlaceRejected { request_id, reason },
                    )
                    &&& commands[1] == (Command::Decide {
                        trigger: Trigger::OwnOrderAck,
                        action: Action::Terminate { reason: FinishReason::PlaceRejected },
                        reason: Reason::ExchangeRejectedPlace,
                    })
                    &&& commands[2] == Command::Finish(FinishReason::PlaceRejected)
                },
            }
            &&& after.active_probe->0.remaining_size == probe.remaining_size
            &&& after.active_probe->0.cumulative_filled_size == probe.cumulative_filled_size
            &&& after.active_probe->0.send_monotonic_ns == probe.send_monotonic_ns
            &&& after.active_probe->0.open_monotonic_ns == probe.open_monotonic_ns
        }),
{
}

/// The answer to a flattening order: a fill gives it its id and changes nothing
/// else; an order that rests, or that was refused, takes the probe into recovery
/// from now on, and a snapshot is asked for. A refused one may be sent again.
pub proof fn law_flattenings_are_answered(
    module: ExecutionProbe,
    request_id: u64,
    outcome: PlaceOutcome,
    now_ns: u64,
)
    requires
        module.active_probe is Some,
    ensures
        ({
            let probe = module.active_probe->0;
            let after = module.after_flatten_answer(outcome, now_ns);
            let left = after.active_probe->0;
            let commands = ExecutionProbe::flatten_answer_commands(request_id, outcome);
            &&& after.active_probe is Some
            &&& after == (ExecutionProbe { active_probe: after.active_probe, ..module })
            &&& match outcome {
                PlaceOutcome::Filled(oid) => {
                    &&& left == (ActiveProbe { flatten_oid: Some(oid), ..probe })
                    &&& commands.len() == 0
                },
                PlaceOutcome::Resting(oid) => {
                    &&& left.flatten_oid == Some(oid)
                    &&& left.phase == ProbePhase::Recovering
                    &&& left.recovery_not_before_monotonic_ns == now_ns
                    &&& commands.len() == 2
                    &&& commands[0] == Command::Record(
                        SystemEvent::FlattenIocUnexpectedResting { request_id, oid },
                    )
                    &&& commands[1] is Rest
                },
                PlaceOutcome::Rejected(reason) => {
                    &&& commands[0] == Command::Record(
                        SystemEvent::FlattenIocRejected { request_id, reason },
                    )
                    &&& left.flatten_oid == probe.flatten_oid
                    &&& left.phase == ProbePhase::Recovering
                    &&& left.recovery_not_before_monotonic_ns == now_ns
                    &&& left.flatten_request_id is None
                    &&& left.flatten_send_monotonic_ns is None
                    &&& commands.len() == 2
                    &&& commands[1] is Rest
                },
            }
        }),
{
}

/// An update is about the order of the probe where the coin is the traded one and
/// it bears the client id or the id of the order. Updates of other orders do
/// nothing.
pub proof fn law_updates_are_about_their_order(
    before: ExecutionProbe,
    after: ExecutionProbe,
    commands: Seq<Command>,
    update: OrderUpdate,
    received_ns: u64,
    now_ns: u64,
)
    requires
        before.handles_update(after, commands, update, received_ns, now_ns),
    ensures
        ({
            let probe = before.active_probe->0;
            let own = before.active_probe is Some && update.coin@
                == before.config.markets.hyperliquid_coin@ && ((update.cloid is Some
                && update.cloid->0@ == probe.cloid@) || (probe.oid is Some && probe.oid->0
                == update.oid));
            let status = lifecycle::status_of(update.status@);
            &&& before.is_about(update) == own
            &&& !own ==> after == before && commands.len() == 0
            &&& own && status == OrderStatus::Filled ==> commands.len() == 0
            &&& own && status == OrderStatus::Rejected ==> after == before && commands.last()
                == Command::Finish(FinishReason::OrderRejected)
            &&& own && status == OrderStatus::Canceled ==> after == before && commands.len() == 2
                && commands[1] is CancelSettled
            &&& own && status == OrderStatus::Other ==> after == before && commands.len() == 0
            &&& own && status == OrderStatus::Open ==> (commands.len() == 1
                <==> probe.open_monotonic_ns is None)
        }),
{
}

/// An order that is seen open has what the update says left, and the difference to
/// its original size filled, but no less than nothing. It rests, in part where
/// some of it was filled, unless it is being cancelled. Its dwell counts from the
/// first time that it is seen open.
pub proof fn law_open_orders_are_counted(
    before: ExecutionProbe,
    after: ExecutionProbe,
    update: OrderUpdate,
    now_ns: u64,
)
    requires
        before.active_probe is Some,
        before.is_opened(after, update, now_ns),
        update.original_size.finite(),
        update.remaining_size.finite(),
    ensures
        ({
            let probe = before.active_probe->0;
            let left = after.active_probe->0;
            &&& left.oid == Some(update.oid)
            &&& left.remaining_size == update.remaining_size
            &&& left.cumulative_filled_size.value() == without(
                update.original_size,
                update.remaining_size,
            ).value()
            &&& left.cumulative_filled_size.value() > 0 <==> update.remaining_size.value()
                < update.original_size.value()
            &&& left.cumulative_filled_size.value() >= 0
            &&& probe.cancel_request_id is Some ==> left.phase == probe.phase
            &&& probe.cancel_request_id is None ==> left.phase == (if update.remaining_size.value()
                < update.original_size.value() {
                ProbePhase::Partial
            } else {
                ProbePhase::Resting
            })
            &&& probe.open_monotonic_ns is Some ==> left.open_monotonic_ns
                == probe.open_monotonic_ns && left.planned_expiry_monotonic_ns
                == probe.planned_expiry_monotonic_ns && left.queue_belief == probe.queue_belief
                && left.initial_queue_belief == probe.initial_queue_belief
            &&& probe.open_monotonic_ns is None ==> left.open_monotonic_ns == Some(now_ns)
            &&& probe.open_monotonic_ns is None && now_ns + probe.planned_dwell_ms * 1_000_000
                <= u64::MAX ==> left.planned_expiry_monotonic_ns - now_ns
                == probe.planned_dwell_ms * 1_000_000
            &&& left == (ActiveProbe {
                oid: left.oid,
                remaining_size: left.remaining_size,
                cumulative_filled_size: left.cumulative_filled_size,
                phase: left.phase,
                open_monotonic_ns: left.open_monotonic_ns,
                planned_expiry_monotonic_ns: left.planned_expiry_monotonic_ns,
                queue_belief: left.queue_belief,
                initial_queue_belief: left.initial_queue_belief,
                ..probe
            })
            &&& after == (ExecutionProbe { active_probe: after.active_probe, ..before })
        }),
{
    ordering::lemma_zero_value();
    ordering::law_differences_compare(update.remaining_size, update.original_size);
}

/// The queue of an order is first judged when it is first seen open, from the size
/// that the later deep book shows at its price and side, less what is left of the
/// order itself; without a level nothing is ahead.
pub proof fn law_first_sights_judge_the_queue(
    before: ExecutionProbe,
    after: ExecutionProbe,
    update: OrderUpdate,
    now_ns: u64,
)
    requires
        before.active_probe is Some,
        before.active_probe->0.open_monotonic_ns is None,
        before.is_opened(after, update, now_ns),
        update.remaining_size.finite(),
        update.remaining_size.value() >= 0,
    ensures
        ({
            let level = before.queue_level(before.active_probe->0);
            let belief = after.active_probe->0.queue_belief;
            &&& after.active_probe->0.initial_queue_belief == Some(belief)
            &&& belief.queue_ahead_lower.value() == 0
            &&& level is None ==> belief.queue_ahead_upper.value() == 0
            &&& level is Some && level->0.size.finite() ==> belief.queue_ahead_upper.value()
                == without(level->0.size, update.remaining_size).value()
                && belief.same_price_visible_size == level->0.size
                && belief.same_price_order_count == level->0.order_count
        }),
{
    let level = before.queue_level(before.active_probe->0);
    ordering::lemma_zero_value();
    ordering::law_differences_compare(update.remaining_size, ordering::zero());
    if level is Some && level->0.size.finite() {
        ordering::law_differences_compare(update.remaining_size, level->0.size);
    }
}

/// A filled order has nothing left and no less filled than before, nor less than the
/// update says; it waits for its markouts.
pub proof fn law_filled_orders_wait_for_markouts(before: ExecutionProbe, update: OrderUpdate)
    requires
        before.active_probe is Some,
        update.original_size.finite(),
        update.remaining_size.finite(),
        before.active_probe->0.cumulative_filled_size.finite(),
    ensures
        ({
            let probe = before.active_probe->0;
            let left = before.after_filled(update).active_probe->0;
            let told = update.original_size.difference(update.remaining_size);
            &&& before.after_filled(update).active_probe is Some
            &&& left.oid == Some(update.oid)
            &&& left.remaining_size.value() == 0
            &&& left.phase == ProbePhase::MarkoutPending
            &&& left.cumulative_filled_size.value() >= probe.cumulative_filled_size.value()
            &&& left.cumulative_filled_size.value() >= told.value()
            &&& left.cumulative_filled_size == probe.cumulative_filled_size
                || left.cumulative_filled_size == told
        }),
{
    ordering::lemma_zero_value();
    ordering::law_differences_compare(update.remaining_size, update.original_size);
}

/// A cancelled order has a fill exactly where one was counted before or the update
/// shows less left than there was. The record and the settlement say the same.
pub proof fn law_cancelled_orders_tell_their_fills(
    before: ExecutionProbe,
    update: OrderUpdate,
    at_ns: u64,
)
    requires
        before.active_probe is Some,
        before.active_probe->0.cumulative_filled_size.finite(),
        update.original_size.finite(),
        update.remaining_size.finite(),
        lifecycle::status_of(update.status@) == OrderStatus::Canceled,
    ensures
        ({
            let some = before.active_probe->0.cumulative_filled_size.value() > 0
                || update.remaining_size.value() < update.original_size.value();
            let commands = before.update_commands(update, at_ns);
            &&& commands.len() == 2
            &&& commands[0] matches Command::Record(
                SystemEvent::CancelEffective { oid, has_fill, .. },
            ) && oid == update.oid && has_fill == some
            &&& commands[1] matches Command::CancelSettled { has_fill, filled, received_ns }
                && has_fill == some && received_ns == at_ns && filled.value() == without(
                update.original_size,
                update.remaining_size,
            ).value()
        }),
{
    ordering::lemma_zero_value();
    ordering::law_differences_compare(update.remaining_size, update.original_size);
}

/// A settled cancellation leaves nothing of the order. With a fill it waits for the
/// markouts, and no less is filled than before or than was told; without one it
/// waits for late fills as long as a cancellation may take, and keeps when the order
/// was seen to end.
pub proof fn law_cancellations_are_settled(
    module: ExecutionProbe,
    has_fill: bool,
    filled: Binary64,
    received_ns: u64,
    now_ns: u64,
)
    requires
        module.is_sound(),
        module.active_probe is Some,
        filled.finite(),
        module.active_probe->0.cumulative_filled_size.finite(),
    ensures
        ({
            let probe = module.active_probe->0;
            let after = module.after_cancel_settled(has_fill, filled, received_ns, now_ns);
            let left = after.active_probe->0;
            let wait_ns = module.config.probe.cancel_timeout_ms * 1_000_000;
            &&& after.active_probe is Some
            &&& after == (ExecutionProbe { active_probe: after.active_probe, ..module })
            &&& left.remaining_size.value() == 0
            &&& has_fill ==> {
                &&& left.phase == ProbePhase::MarkoutPending
                &&& left.cumulative_filled_size.value() >= probe.cumulative_filled_size.value()
                &&& left.cumulative_filled_size.value() >= filled.value()
                &&& left.cumulative_filled_size == probe.cumulative_filled_size
                    || left.cumulative_filled_size == filled
                &&& ExecutionProbe::settled_commands(has_fill).len() == 0
            }
            &&& !has_fill ==> {
                &&& left.phase == ProbePhase::Recovering
                &&& left.cumulative_filled_size == probe.cumulative_filled_size
                &&& left.terminal_order_update_monotonic_ns == Some(received_ns)
                &&& now_ns + wait_ns <= u64::MAX ==> left.recovery_not_before_monotonic_ns
                    == now_ns + wait_ns
                &&& now_ns + wait_ns > u64::MAX ==> left.recovery_not_before_monotonic_ns
                    == u64::MAX
                &&& ExecutionProbe::settled_commands(has_fill).len() == 1
                &&& ExecutionProbe::settled_commands(has_fill)[0] == (Command::Decide {
                    trigger: Trigger::CancelEffective,
                    action: Action::Reconcile,
                    reason: Reason::CancelConfirmedWaitForLateFills,
                })
            }
        }),
{
    ordering::lemma_zero_value();
}

/// A request to cancel sends one cancellation of the order's own id, never a
/// second one while the first is out. Without an id the probe is recovered, and
/// without a probe nothing happens. The cause is kept as the end of the exposure.
pub proof fn law_orders_are_cancelled_once(
    before: ExecutionProbe,
    after: ExecutionProbe,
    step: CancelStep,
    trigger: Trigger,
    reason: Reason,
    around: Surroundings,
    price: String,
    remaining: String,
)
    requires
        before.handles_cancel(after, step, trigger, reason, around, price, remaining),
    ensures
        ({
            let probe = before.active_probe->0;
            let known = before.active_probe is Some && probe.oid is Some;
            &&& before.active_probe is None ==> step is Nothing && after == before
            &&& before.active_probe is Some && probe.oid is None ==> step is Recover
                && step->Recover_0@ =~= seq![
                Command::Rest {
                    reason: RestReason::CancelWithoutOid(trigger),
                    scope: RestScope::Reconciliation,
                },
            ] && after.active_probe->0.phase == ProbePhase::Recovering
                && after.active_probe->0.recovery_not_before_monotonic_ns == around.monotonic_ns
            &&& known && probe.cancel_request_id is Some ==> step is Nothing && after == before
            &&& known && probe.cancel_request_id is None ==> {
                &&& step matches CancelStep::Send { dispatch, oid }
                &&& Some(oid) == probe.oid
                &&& dispatch.context.oid == probe.oid
                &&& dispatch.context.cloid == Some(probe.cloid)
                &&& dispatch.context.side == Some(probe.side)
                &&& dispatch.context.probe_id == probe.probe_id
                &&& dispatch.context.price == Some(price)
                &&& dispatch.context.remaining_size == Some(remaining)
                &&& dispatch.context.size is None
                &&& dispatch.context.decision_id@ == dispatch.decision.decision_id@
                &&& dispatch.context.action_id@ == "action-"@ + text::digits(
                    after.action_sequence as nat,
                )
                &&& dispatch.context.decision_id@ == "decision-"@ + text::digits(
                    after.decision_sequence as nat,
                )
                &&& dispatch.context.intent_id@ == "cancel-"@ + probe.probe_id@ + "-"@
                    + text::digits(oid as nat)
                &&& dispatch.decision.probe_id@ == probe.probe_id@
                &&& dispatch.decision.candidate_actions@.len() == 2
                &&& dispatch.decision.candidate_actions@[0] == (Action::Keep { oid: Some(oid) })
                &&& dispatch.decision.candidate_actions@[1] == (Action::Cancel {
                    oid: Some(oid),
                })
                &&& dispatch.decision.planned_expiry_ts_ns is None
                &&& dispatch.decision.selected_action == (Action::Cancel { oid: Some(oid) })
                &&& dispatch.decision.trigger_type == trigger
                &&& dispatch.decision.reason_code == reason
                &&& after.active_probe->0 == (ActiveProbe { end_reason: Some(trigger), ..probe })
            }
        }),
{
}

/// A cancellation that was sent waits for its answer: its answer is its own, its
/// time counts from the write to the socket, and no other one is sent meanwhile.
pub proof fn law_sent_cancellations_wait(
    module: ExecutionProbe,
    request_id: u64,
    socket_write_ns: u64,
    around: Surroundings,
)
    requires
        module.active_probe is Some,
    ensures
        ({
            let after = module.after_cancel_sent(request_id, socket_write_ns);
            let left = after.active_probe->0;
            &&& after.active_probe is Some
            &&& after == (ExecutionProbe { active_probe: after.active_probe, ..module })
            &&& left == (ActiveProbe {
                phase: ProbePhase::CancelPending,
                cancel_send_monotonic_ns: Some(socket_write_ns),
                cancel_request_id: Some(request_id),
                ..module.active_probe->0
            })
            &&& left.post_request_id != request_id ==> after.target(request_id)
                == PostTarget::Cancel
            &&& after.finding(around) == Finding::CancelTimeout <==> has_passed(
                socket_write_ns,
                around.monotonic_ns,
                module.config.probe.cancel_timeout_ms,
            )
        }),
{
}

/// A flattening order that was sent waits for its answer, counted from the write to
/// the socket, and no other one is sent meanwhile, not even as a risk exit.
pub proof fn law_sent_flattenings_wait(
    module: ExecutionProbe,
    request_id: u64,
    action_id: String,
    socket_write_ns: u64,
    around: Surroundings,
    risk_exit: bool,
)
    requires
        module.active_probe is Some,
    ensures
        ({
            let after = module.after_flatten_sent(request_id, action_id, socket_write_ns);
            let left = after.active_probe->0;
            &&& after.active_probe is Some
            &&& after == (ExecutionProbe { active_probe: after.active_probe, ..module })
            &&& left.flatten_action_id == Some(action_id)
            &&& left.flatten_request_id == Some(request_id)
            &&& left.oid == module.active_probe->0.oid
            &&& left.cumulative_filled_size == module.active_probe->0.cumulative_filled_size
            &&& after.flatten_need(risk_exit) == FlattenNeed::NotNow
            &&& left.post_request_id != request_id && left.cancel_request_id != Some(request_id)
                ==> after.target(request_id) == PostTarget::Flatten
            &&& after.finding(around) == Finding::FlattenTimeout <==> has_passed(
                socket_write_ns,
                around.monotonic_ns,
                module.config.probe.post_timeout_ms,
            )
        }),
{
}

/// A kept order is not kept again before its interval is over, and its decision is
/// the last one of the probe.
pub proof fn law_kept_orders_wait_for_their_interval(
    module: ExecutionProbe,
    decision_id: String,
    now_ns: u64,
    around: Surroundings,
)
    requires
        module.active_probe is Some,
    ensures
        ({
            let after = module.after_keep_recorded(decision_id, now_ns);
            &&& after.active_probe is Some
            &&& after.active_probe->0 == (ActiveProbe {
                last_keep_monotonic_ns: now_ns,
                decision_id,
                ..module.active_probe->0
            })
            &&& after == (ExecutionProbe { active_probe: after.active_probe, ..module })
            &&& after.finding(around) == Finding::KeepDue ==> has_passed(
                now_ns,
                around.monotonic_ns,
                module.config.probe.keep_interval_ms,
            )
            &&& module.after_decision_recorded(decision_id).active_probe == Some(
                ActiveProbe { decision_id, ..module.active_probe->0 },
            )
        }),
{
}

/// A decision to keep tells when the dwell ends as a time of day: as long from now
/// as is left of it, and now where nothing is left. Both choices name the order.
pub proof fn law_kept_orders_tell_their_end(
    module: ExecutionProbe,
    trigger: Trigger,
    reason: Reason,
    around: Surroundings,
)
    requires
        module.active_probe is Some,
    ensures
        ({
            let probe = module.active_probe->0;
            let choice = module.keep_choice(trigger, reason, around);
            let left_ns = probe.planned_expiry_monotonic_ns - around.monotonic_ns;
            &&& choice.selected == (Action::Keep { oid: probe.oid })
            &&& choice.candidates.len() == 2
            &&& choice.candidates[0] == choice.selected
            &&& choice.candidates[1] == (Action::Cancel { oid: probe.oid })
            &&& choice.trigger == trigger
            &&& choice.reason == reason
            &&& choice.probe_id == probe.probe_id@
            &&& choice.planned_expiry_ts_ns is Some
            &&& left_ns <= 0 ==> choice.planned_expiry_ts_ns->0 == around.wall_ns
            &&& 0 <= left_ns && around.wall_ns + left_ns <= u64::MAX
                ==> choice.planned_expiry_ts_ns->0 == around.wall_ns + left_ns
            &&& choice.probability.value() == vstd::arithmetic::power2::pow2(1074)
        }),
{
    ordering::lemma_one();
}

/// A turn of the lifecycle leaves no choice: its action is the only candidate and
/// is taken for certain.
pub proof fn law_turns_leave_no_choice(
    module: ExecutionProbe,
    trigger: Trigger,
    action: Action,
    reason: Reason,
)
    requires
        module.active_probe is Some,
    ensures
        ({
            let choice = module.lifecycle_choice(trigger, action, reason);
            &&& choice.selected == action
            &&& choice.candidates.len() == 1
            &&& choice.candidates[0] == action
            &&& choice.trigger == trigger
            &&& choice.reason == reason
            &&& choice.probe_id == module.active_probe->0.probe_id@
            &&& choice.planned_expiry_ts_ns is None
            &&& choice.probability.value() == vstd::arithmetic::power2::pow2(1074)
        }),
{
    ordering::lemma_one();
}

/// The end of a probe leaves no probe active, writes its last record and starts the
/// cooldown, in this order. The record is censored exactly where none of the order
/// was filled.
pub proof fn law_ended_probes_leave_a_record(
    module: ExecutionProbe,
    reason: FinishReason,
    now_ns: u64,
)
    requires
        module.active_probe is Some,
        !module.active_probe->0.cumulative_filled_size.nan(),
    ensures
        ({
            let probe = module.active_probe->0;
            let commands = module.finish_commands(reason, now_ns);
            &&& module.after_finish().active_probe is None
            &&& module.after_finish() == (ExecutionProbe { active_probe: None, ..module })
            &&& commands.len() == 2
            &&& commands[0] matches Command::Record(SystemEvent::Finalized(record)) && {
                &&& record.probe_id == probe.probe_id
                &&& record.end_reason == reason
                &&& record.filled_size == probe.cumulative_filled_size
                &&& record.censored <==> probe.cumulative_filled_size.value() <= 0
            }
            &&& commands[1] == (Command::Cooldown { now_ns })
        }),
{
    ordering::lemma_zero_value();
}

/// A probe is finished as flattened exactly where it has come to its end.
pub proof fn law_only_flattened_probes_finish(module: ExecutionProbe)
    ensures
        module.is_flattened() ==> module.flattened_commands() =~= seq![
            Command::Finish(FinishReason::InventoryReconciled),
        ],
        !module.is_flattened() ==> module.flattened_commands().len() == 0,
{
}

/// The timer changes a probe only where it gives a request up.
pub proof fn law_the_timer_only_gives_up(module: ExecutionProbe, around: Surroundings)
    ensures
        ({
            let after = module.after_evaluation(around);
            let finding = module.finding(around);
            let timeout = finding == Finding::PlaceTimeout || finding == Finding::CancelTimeout
                || finding == Finding::FlattenTimeout;
            &&& !timeout ==> after == module
            &&& timeout ==> after.active_probe is Some && after.active_probe->0.phase
                == ProbePhase::Recovering && after.active_probe->0.recovery_not_before_monotonic_ns
                == around.monotonic_ns
            &&& after.account == module.account
            &&& after.pending_markouts == module.pending_markouts
        }),
{
}

/// Beyond the limit no markout is waited for any more; within it nothing changes.
pub proof fn law_risk_exits_wait_for_no_markout(before: ExecutionProbe, after: ExecutionProbe)
    requires
        before.is_guarded(after),
    ensures
        before.is_over_limit() ==> after.pending_markouts@.len() == 0,
        !before.is_over_limit() ==> after == before,
        after.active_probe == before.active_probe,
        after.account == before.account,
{
}

/// After a snapshot of the account no request is pending. A healthy one that is not
/// older than what is known takes its place and is compared with the probe; any
/// other leaves the account as it is, and an unhealthy one makes a shutdown ask
/// again.
pub proof fn law_snapshots_are_taken_over(
    before: ExecutionProbe,
    after: ExecutionProbe,
    commands: Seq<Command>,
    latest: AccountState,
)
    requires
        before.handles_refresh(after, commands, Some(latest)),
    ensures
        ({
            let newer = latest.rest_snapshot_healthy && latest.snapshot_monotonic_ns
                >= before.account.snapshot_monotonic_ns;
            &&& !after.rest_request_gate.pending
            &&& after.rest_request_gate.last_request_ns == before.rest_request_gate.last_request_ns
            &&& newer ==> after.account == latest && commands =~= seq![Command::Reconcile]
            &&& !newer ==> after.account == before.account
            &&& !newer && latest.rest_snapshot_healthy ==> commands.len() == 0
            &&& !latest.rest_snapshot_healthy ==> commands.len() == 1 && commands[0] is Record
            &&& !latest.rest_snapshot_healthy && before.shutdown_snapshot_requested_ns is Some
                && latest.snapshot_monotonic_ns >= before.shutdown_snapshot_requested_ns->0
                ==> after.shutdown_snapshot_requested_ns is None
            &&& latest.rest_snapshot_healthy ==> after.shutdown_snapshot_requested_ns
                == before.shutdown_snapshot_requested_ns
            &&& after.active_probe == before.active_probe
            &&& after.pending_markouts == before.pending_markouts
        }),
{
}

/// A frame of the action feed that is no answer does nothing. An answer changes the
/// probe only where it answers its placement; a confirmed cancellation and a
/// flattening are told, the latter for its outcome to be taken in.
pub proof fn law_answers_do_what_they_answer(
    before: ExecutionProbe,
    after: ExecutionProbe,
    commands: Seq<Command>,
    frame: Json,
)
    requires
        before.handles_post(after, commands, frame),
    ensures
        frame.entry_text("channel"@) != Some("post"@) ==> after == before && commands.len() == 0,
        frame.entry_text("channel"@) == Some("post"@) ==> {
            let id = frame.path2("data"@, "id"@);
            let request_id = id->0.as_whole()->0;
            let target = before.target(request_id);
            let first = action_gateway::good_statuses(frame)->0[0];
            &&& id is Some
            &&& id->0.as_whole() is Some
            &&& target != PostTarget::Place ==> after == before
            &&& target == PostTarget::Orphan || target == PostTarget::Unmatched ==> commands.len()
                == 1 && (commands[0] == Command::Record(
                SystemEvent::OrphanPostResponse { request_id },
            ) || commands[0] == Command::Record(
                SystemEvent::UnmatchedPostResponse { request_id },
            ))
            &&& target == PostTarget::Cancel ==> first.characters() == Some("success"@)
                && commands =~= seq![
                Command::Record(SystemEvent::CancelPostAccepted { request_id }),
            ]
            &&& target == PostTarget::Place ==> exists|outcome: PlaceOutcome|
                {
                    &&& #[trigger] action_gateway::is_outcome_of(outcome, first)
                    &&& after == before.after_place_answer(outcome)
                    &&& commands == ExecutionProbe::place_answer_commands(request_id, outcome)
                }
            &&& target == PostTarget::Flatten ==> exists|outcome: PlaceOutcome|
                {
                    &&& #[trigger] action_gateway::is_outcome_of(outcome, first)
                    &&& commands.len() == 2
                    &&& commands[0] == Command::Record(
                        SystemEvent::FlattenPostResponse { request_id, outcome },
                    )
                    &&& commands[1] == Command::FlattenAnswered { request_id, outcome }
                }
        },
{
}

/// Statuses are read whatever the case of their letters.
pub proof fn law_statuses_have_no_case(status: Seq<char>)
    ensures
        lifecycle::status_of(text::lowered(status)) == lifecycle::status_of(status),
        status == "open"@ || status == "triggered"@ ==> lifecycle::status_of(status)
            == OrderStatus::Open,
        status == "filled"@ ==> lifecycle::status_of(status) == OrderStatus::Filled,
        forall|i: int| #[trigger]
            text::part_at(text::lowered(status), "cancel"@, i) ==> lifecycle::status_of(status)
                == OrderStatus::Canceled,
        (forall|i: int| !#[trigger] text::part_at(text::lowered(status), "cancel"@, i))
            ==> lifecycle::status_of(status) != OrderStatus::Canceled,
        (forall|i: int| !#[trigger] text::part_at(text::lowered(status), "cancel"@, i)) ==> (
        forall|i: int| #[trigger]
            text::part_at(text::lowered(status), "reject"@, i) ==> lifecycle::status_of(status)
                == OrderStatus::Rejected),
        (forall|i: int| !#[trigger] text::part_at(text::lowered(status), "reject"@, i))
            ==> lifecycle::status_of(status) != OrderStatus::Rejected,
{
    assert(text::lowered(text::lowered(status)) =~= text::lowered(status));
    reveal_strlit("open");
    reveal_strlit("triggered");
    reveal_strlit("filled");
    assert("open"@.len() == 4 && "triggered"@.len() == 9 && "filled"@.len() == 6);
    assert(text::lowered("open"@) =~= "open"@);
    assert(text::lowered("triggered"@) =~= "triggered"@);
    assert(text::lowered("filled"@) =~= "filled"@);
    let word = text::lowered(status);
    reveal_strlit("cancel");
    reveal_strlit("reject");
    assert forall|i: int| #[trigger] text::part_at(word, "cancel"@, i) implies word[i] == 'c'
        && word[i + 1] == 'a' && word.len() >= 6 by {
        assert(word.subrange(i, i + 6)[0] == "cancel"@[0]);
        assert(word.subrange(i, i + 6)[1] == "cancel"@[1]);
    }
    assert forall|i: int| #[trigger] text::part_at(word, "reject"@, i) implies word[i + 2]
        == 'j' by {
        assert(word.subrange(i, i + 6)[2] == "reject"@[2]);
    }
}

/// What a decision shows of the order: its ids, its price, what of it is left and
/// filled, its phase, its age since it was seen open, or else sent, and where it
/// stands.
pub proof fn law_decisions_show_the_order(module: ExecutionProbe, around: Surroundings)
    ensures
        ({
            let shown = module.snapshot(around);
            let now_ns = around.monotonic_ns;
            &&& shown.market == module.market.snapshot_at(now_ns)
            &&& shown.risk == module.risk(around.writer_remaining)
            &&& shown.execution is Some <==> module.active_probe is Some
            &&& module.active_probe is Some ==> {
                let probe = module.active_probe->0;
                let order = shown.execution->0;
                &&& order.probe_id == probe.probe_id
                &&& order.cloid == probe.cloid
                &&& order.oid == probe.oid
                &&& order.phase == probe.phase
                &&& order.side == probe.side
                &&& order.price == probe.price
                &&& order.tick_size == probe.tick_size
                &&& order.size == probe.size
                &&& order.remaining_size == probe.remaining_size
                &&& order.filled_size == probe.cumulative_filled_size
                &&& order.queue_belief == probe.queue_belief
                &&& order.position == module.market.position_of(probe, now_ns)
                &&& has_lasted(
                    order.order_age_ms,
                    if probe.open_monotonic_ns is Some {
                        probe.open_monotonic_ns->0
                    } else {
                        probe.send_monotonic_ns
                    },
                    now_ns,
                )
            }
        }),
{
}

/// A decision is written down with the state in which it was taken, the limits that
/// held, and the choice as it was made.
pub proof fn law_decisions_are_written_as_taken(
    module: ExecutionProbe,
    record: DecisionRecord,
    choice: ChoiceView,
    around: Surroundings,
)
    requires
        module.writes_down(record, choice, around),
    ensures
        record.state_snapshot == module.snapshot(around),
        record.decision_ts_ns == around.monotonic_ns,
        record.envelope.received_monotonic_ns == around.monotonic_ns,
        record.envelope.received_wall_ns == around.wall_ns,
        record.probe_id@ == choice.probe_id,
        record.decision_id@ == choice.decision_id,
        record.trigger_type == choice.trigger,
        record.reason_code == choice.reason,
        record.candidate_actions@ == choice.candidates,
        record.selected_action == choice.selected,
        record.selection_probability == choice.probability,
        record.planned_expiry_ts_ns == choice.planned_expiry_ts_ns,
        record.random_seed == choice.random_seed,
        record.risk_limits.max_order_notional_usd == module.config.probe.max_order_notional_usd,
        record.risk_limits.max_abs_inventory_usd == module.config.probe.max_abs_inventory_usd,
        record.risk_limits.max_active_probe_orders == 1,
        record.behavior_policy_id@ == module.config.probe.behavior_policy_id@,
        record.state_snapshot_id@ == "snapshot-"@ + record.decision_id@,
        record.envelope.event_type@ == "decision"@,
{
}

/// The number of a flattening order is that of no placement, as long as fewer than
/// 2^32 probes and actions were numbered, and no other flattening order's.
pub proof fn law_flattening_orders_have_their_own_numbers(
    probe: u64,
    action: u64,
    other_probe: u64,
    other_action: u64,
)
    requires
        probe < 0x1_0000_0000,
        other_probe < 0x1_0000_0000,
        0 < action < 0x1_0000_0000,
        0 < other_action < 0x1_0000_0000,
    ensures
        flatten::flatten_number(probe, action) != other_probe,
        flatten::flatten_number(probe, action) == flatten::flatten_number(
            other_probe,
            other_action,
        ) ==> probe == other_probe && action == other_action,
{
}

} // verus!
