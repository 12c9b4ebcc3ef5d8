//! What the timer is for: nothing that is due is missed, and nothing is done
//! before it is due.
use vstd::prelude::*;
use crate::arch::records::SystemEvent;
use crate::arch::vocabulary::{FinishReason, Reason, RestReason, RestScope, Trigger};
use crate::constants;
use crate::ordering;
use super::super::base;
use super::super::base::{ExecutionProbe, Surroundings};
use super::super::commands::Command;
use super::super::evaluation;
use super::super::evaluation::Finding;
use super::super::orders;
use super::super::state;
use super::super::state::{AccountOpenOrder, AccountState, ActiveProbe, ProbePhase};

verus! {

/// `ms` milliseconds have passed since `since_ns`.
pub open spec fn has_passed(since_ns: u64, now_ns: u64, ms: u64) -> bool {
    ms == 0 || now_ns >= since_ns + ms * 1_000_000
}

/// Times are counted in nanoseconds and waiting times in milliseconds; a clock that
/// stands earlier than the start has waited for nothing.
pub proof fn law_waits_are_counted_in_milliseconds(since_ns: u64, now_ns: u64, ms: u64)
    ensures
        base::ms_in_ns(ms) == ms * 1_000_000,
        evaluation::is_overdue(since_ns, now_ns, ms) <==> has_passed(since_ns, now_ns, ms),
        state::elapsed(now_ns, since_ns) == (if now_ns >= since_ns {
            now_ns - since_ns
        } else {
            0
        }),
        orders::capped_sum(since_ns, now_ns) == (if since_ns + now_ns <= u64::MAX {
            since_ns + now_ns
        } else {
            u64::MAX as int
        }),
{
}

/// A placement, a cancellation and a flattening are given up exactly when their
/// time has passed since they were sent, each after its own time; until then the
/// timer does nothing of its own.
pub proof fn law_requests_are_given_up_in_time(module: ExecutionProbe, around: Surroundings)
    requires
        module.active_probe is Some,
    ensures
        ({
            let probe = module.active_probe->0;
            let now_ns = around.monotonic_ns;
            let finding = module.finding(around);
            &&& finding == Finding::PlaceTimeout <==> probe.phase == ProbePhase::PlacePending
                && has_passed(
                probe.send_monotonic_ns,
                now_ns,
                module.config.probe.post_timeout_ms,
            )
            &&& finding == Finding::CancelTimeout <==> probe.phase == ProbePhase::CancelPending
                && probe.cancel_send_monotonic_ns is Some && has_passed(
                probe.cancel_send_monotonic_ns->0,
                now_ns,
                module.config.probe.cancel_timeout_ms,
            )
            &&& finding == Finding::FlattenTimeout <==> probe.phase == ProbePhase::FlattenPending
                && probe.flatten_send_monotonic_ns is Some && has_passed(
                probe.flatten_send_monotonic_ns->0,
                now_ns,
                module.config.probe.post_timeout_ms,
            )
            &&& probe.phase == ProbePhase::PlacePending || probe.phase == ProbePhase::CancelPending
                || probe.phase == ProbePhase::FlattenPending ==> finding == Finding::PlaceTimeout
                || finding == Finding::CancelTimeout || finding == Finding::FlattenTimeout
                || finding == Finding::Quiet
            &&& probe.phase == ProbePhase::PostAccepted ==> finding == Finding::Quiet
            &&& finding == Finding::FlattenDue <==> probe.phase == ProbePhase::Filled
                || probe.phase == ProbePhase::MarkoutPending
        }),
{
}

/// A request that is given up takes the probe into recovery from this moment on,
/// asks for a snapshot at once and leaves a record of the probe; all else stays as
/// it is.
pub proof fn law_given_up_requests_are_recovered(module: ExecutionProbe, around: Surroundings)
    requires
        module.active_probe is Some,
        module.finding(around) == Finding::PlaceTimeout || module.finding(around)
            == Finding::CancelTimeout || module.finding(around) == Finding::FlattenTimeout,
    ensures
        ({
            let probe = module.active_probe->0;
            let commands = module.finding_commands(module.finding(around), around.monotonic_ns);
            let after = module.in_recovery(around.monotonic_ns);
            &&& ExecutionProbe::is_timeout(module.finding(around))
            &&& after.active_probe is Some
            &&& after == (ExecutionProbe { active_probe: after.active_probe, ..module })
            &&& after.active_probe->0 == (ActiveProbe {
                phase: ProbePhase::Recovering,
                recovery_not_before_monotonic_ns: around.monotonic_ns,
                ..probe
            })
            &&& commands.len() == 2
            &&& commands[0] == (Command::Rest {
                reason: match probe.phase {
                    ProbePhase::PlacePending => RestReason::PlaceTimeout,
                    ProbePhase::CancelPending => RestReason::CancelTimeout,
                    _ => RestReason::FlattenTimeout,
                },
                scope: RestScope::Reconciliation,
            })
            &&& commands[1] == Command::Record(
                match probe.phase {
                    ProbePhase::PlacePending => SystemEvent::PlaceTimeout {
                        probe_id: probe.probe_id,
                    },
                    ProbePhase::CancelPending => SystemEvent::CancelTimeout {
                        probe_id: probe.probe_id,
                    },
                    _ => SystemEvent::FlattenTimeout { probe_id: probe.probe_id },
                },
            )
        }),
{
}

/// Of a resting order the first thing counts that ends its rest, in this order: the
/// store runs full, the market is stale, the dwell is over, the quote is passed by
/// the guard. Only an order that may stay is kept, at its interval.
pub proof fn law_resting_orders_end_for_the_first_reason(
    module: ExecutionProbe,
    around: Surroundings,
)
    requires
        module.is_sound(),
        module.active_probe is Some,
        module.active_probe->0.phase == ProbePhase::Resting || module.active_probe->0.phase
            == ProbePhase::Partial,
    ensures
        ({
            let probe = module.active_probe->0;
            let now_ns = around.monotonic_ns;
            let finding = module.finding(around);
            let full = around.writer_remaining == 0 || around.writer_remaining
                < module.config.collector.writer_capacity / 10;
            let fresh = module.market.quotes_are_fresh(
                now_ns,
                (module.config.probe.market_freshness_ms * 1_000_000) as u64,
                (module.config.probe.default_l2_freshness_ms * 1_000_000) as u64,
            );
            let over = probe.planned_expiry_monotonic_ns <= now_ns;
            let passed = module.is_stale(probe);
            let due = has_passed(
                probe.last_keep_monotonic_ns,
                now_ns,
                module.config.probe.keep_interval_ms,
            );
            &&& finding == Finding::StoreFull <==> full
            &&& finding == Finding::DataStale <==> !full && !fresh
            &&& finding == Finding::DwellOver <==> !full && fresh && over
            &&& finding == Finding::GuardCrossed <==> !full && fresh && !over && passed
            &&& finding == Finding::KeepDue <==> !full && fresh && !over && !passed && due
            &&& finding == Finding::Quiet <==> !full && fresh && !over && !passed && !due
        }),
{
}

/// What ends the rest of an order is told as the reason of its cancellation, and
/// the order is cancelled and not flattened or finished.
pub proof fn law_ended_rests_are_cancelled(module: ExecutionProbe, now_ns: u64)
    requires
        module.active_probe is Some,
    ensures
        module.finding_commands(Finding::StoreFull, now_ns) =~= seq![
            Command::Cancel {
                trigger: Trigger::StorageBackpressure,
                reason: Reason::TelemetryWriterCapacityLow,
            },
        ],
        module.finding_commands(Finding::DataStale, now_ns) =~= seq![
            Command::Cancel { trigger: Trigger::StaleData, reason: Reason::MarketSourceStale },
        ],
        module.finding_commands(Finding::DwellOver, now_ns) =~= seq![
            Command::Cancel {
                trigger: Trigger::PlannedExpiry,
                reason: Reason::PlannedDwellElapsed,
            },
        ],
        module.finding_commands(Finding::GuardCrossed, now_ns) =~= seq![
            Command::Cancel {
                trigger: Trigger::FairValueGuard,
                reason: Reason::QuoteOutsideFairValueGuard,
            },
        ],
        module.finding_commands(Finding::KeepDue, now_ns).len() == 2,
        module.finding_commands(Finding::KeepDue, now_ns)[0] is Keep,
        module.finding_commands(Finding::KeepDue, now_ns)[1] is GuardInventory,
        module.finding_commands(Finding::FlattenDue, now_ns)[0] == (Command::Flatten {
            risk_exit: false,
        }),
        module.finding_commands(Finding::FlattenDue, now_ns).last() is GuardInventory,
        module.finding_commands(Finding::Quiet, now_ns) =~= seq![Command::GuardInventory],
        module.finding_commands(Finding::StillRecovering, now_ns)[0] == (Command::RestThrottled {
            reason: RestReason::LifecycleRecovery,
            scope: RestScope::Reconciliation,
            now_ns,
        }),
        module.finding_commands(Finding::StillRecovering, now_ns).last() is GuardInventory,
        module.finding_commands(Finding::Settled, now_ns).last() == Command::Finish(
            FinishReason::WsOrderInventoryReconciled,
        ),
{
}

/// A recovery goes on until its time: before it nothing happens; then it ends on
/// the evidence of the private feed, that the order is gone since it was last
/// asked for, nothing is left of it, nothing of it was filled and nothing is held
/// in a healthy account; and without that evidence it asks again.
pub proof fn law_recoveries_end_on_evidence(module: ExecutionProbe, around: Surroundings)
    requires
        module.active_probe is Some,
        module.active_probe->0.phase == ProbePhase::Recovering,
        module.active_probe->0.remaining_size.finite(),
        module.active_probe->0.cumulative_filled_size.finite(),
        module.account.confirmed_inventory.finite(),
        module.account.lot().finite(),
    ensures
        ({
            let probe = module.active_probe->0;
            let now_ns = around.monotonic_ns;
            let finding = module.finding(around);
            let due = probe.recovery_not_before_monotonic_ns <= now_ns;
            let asked_ns = if probe.cancel_send_monotonic_ns is Some {
                probe.cancel_send_monotonic_ns->0
            } else {
                probe.send_monotonic_ns
            };
            let epsilon = constants::number(constants::EPSILON).value();
            let half = module.account.lot().product(constants::number(constants::HALF)).value();
            let held = module.account.confirmed_inventory.value();
            let gone = probe.terminal_order_update_monotonic_ns is Some
                && probe.terminal_order_update_monotonic_ns->0 >= asked_ns;
            let evidence = gone && probe.remaining_size.value() <= epsilon
                && probe.cumulative_filled_size.value() <= epsilon
                && module.account.rest_snapshot_healthy && module.account.snapshot_monotonic_ns
                != 0 && -half < held < half;
            &&& finding == Finding::Quiet <==> !due
            &&& finding == Finding::Settled <==> due && evidence
            &&& finding == Finding::StillRecovering <==> due && !evidence
        }),
{
    let lot = module.account.lot();
    constants::law_constants_are_exact();
    ordering::lemma_zero_value();
    ordering::law_absolute_forgets_the_sign(module.account.confirmed_inventory);
    ordering::law_signs_multiply(lot, constants::number(constants::HALF));
    lemma_epsilon();
}

/// The smallest step above one is a finite number.
proof fn lemma_epsilon()
    ensures
        constants::number(constants::EPSILON).finite(),
{
}

/// Without a probe the timer finds nothing to do with one.
pub proof fn law_no_probe_nothing_to_do(module: ExecutionProbe, around: Surroundings)
    requires
        module.active_probe is None,
    ensures
        module.finding(around) == Finding::NoProbe,
        module.finding_commands(Finding::NoProbe, around.monotonic_ns).len() == 0,
        !ExecutionProbe::is_timeout(Finding::NoProbe),
{
}

/// The timer asks for the periodic snapshot when its interval has passed since the
/// last request, and always looks at the markouts, the probe and a new start, in
/// this order.
pub proof fn law_each_tick_looks_at_everything(module: ExecutionProbe, now_ns: u64)
    ensures
        ({
            let interval_ns = module.config.collector.account_snapshot_interval_sec * 1_000_000_000;
            let last_ns = module.rest_request_gate.last_request_ns;
            let due = interval_ns == 0 || now_ns >= last_ns + interval_ns;
            let rest = seq![
                Command::SampleMarkouts,
                Command::Evaluate,
                Command::StartIfIdle,
            ];
            &&& due ==> module.tick_commands(now_ns) =~= seq![
                Command::Rest { reason: RestReason::Periodic, scope: RestScope::Full },
            ] + rest
            &&& !due ==> module.tick_commands(now_ns) =~= rest
            &&& module.timer_commands(false, now_ns) == module.tick_commands(now_ns)
            &&& module.timer_commands(true, now_ns) == module.shutdown_notes()
                + module.shutdown_commands(now_ns)
        }),
{
}

/// A request for a snapshot goes through where none is pending and the last one is
/// long enough ago; it is then pending, and is counted from now. Otherwise nothing
/// changes.
pub proof fn law_requests_go_through_one_at_a_time(
    module: ExecutionProbe,
    now_ns: u64,
    minimum_interval_ns: u64,
)
    ensures
        ({
            let gate = module.rest_request_gate;
            let through = !gate.pending && (minimum_interval_ns == 0 || now_ns
                >= gate.last_request_ns + minimum_interval_ns);
            let after = module.after_request(now_ns, minimum_interval_ns);
            &&& gate.lets_through(now_ns, minimum_interval_ns) == through
            &&& through ==> after.rest_request_gate.pending
                && after.rest_request_gate.last_request_ns == now_ns
            &&& !through ==> after == module
            &&& after.active_probe == module.active_probe
            &&& after.account == module.account
            &&& !after.after_request(now_ns, minimum_interval_ns).rest_request_gate.lets_through(
                now_ns,
                0,
            ) || !after.rest_request_gate.pending
        }),
{
}

/// A snapshot of the account is taken over where it is healthy and not older than
/// what is known.
pub proof fn law_snapshots_replace_older_ones(module: ExecutionProbe, latest: AccountState)
    ensures
        module.accepts(latest) <==> latest.rest_snapshot_healthy
            && module.account.snapshot_monotonic_ns <= latest.snapshot_monotonic_ns,
{
}

/// The order of a probe among the open ones is the first that bears its id, the id
/// of its flattening order, or its client id; none is found only where no open
/// order bears one of them.
pub proof fn law_orders_of_a_probe_are_found(orders: Seq<AccountOpenOrder>, probe: ActiveProbe)
    ensures
        match ExecutionProbe::first_order_of(orders, probe) {
            Some(oid) => exists|i: int|
                {
                    &&& 0 <= i < orders.len()
                    &&& (#[trigger] orders[i]).oid == oid
                    &&& bears_an_id_of(orders[i], probe)
                    &&& forall|j: int|
                        0 <= j < i ==> !bears_an_id_of(#[trigger] orders[j], probe)
                },
            None => forall|j: int|
                0 <= j < orders.len() ==> !bears_an_id_of(#[trigger] orders[j], probe),
        },
    decreases orders.len(),
{
    if orders.len() > 0 {
        assert(ExecutionProbe::is_order_of(orders[0], probe) == bears_an_id_of(orders[0], probe));
        if bears_an_id_of(orders[0], probe) {
            assert(orders[0].oid == orders[0].oid);
        } else {
            let rest = orders.skip(1);
            law_orders_of_a_probe_are_found(rest, probe);
            match ExecutionProbe::first_order_of(rest, probe) {
                Some(oid) => {
                    let i = choose|i: int|
                        {
                            &&& 0 <= i < rest.len()
                            &&& (#[trigger] rest[i]).oid == oid
                            &&& bears_an_id_of(rest[i], probe)
                            &&& forall|j: int|
                                0 <= j < i ==> !bears_an_id_of(#[trigger] rest[j], probe)
                        };
                    assert(orders[i + 1] == rest[i]);
                    assert forall|j: int| 0 <= j < i + 1 implies !bears_an_id_of(
                        #[trigger] orders[j],
                        probe,
                    ) by {
                        if j > 0 {
                            assert(rest[j - 1] == orders[j]);
                        }
                    }
                },
                None => {
                    assert forall|j: int| 0 <= j < orders.len() implies !bears_an_id_of(
                        #[trigger] orders[j],
                        probe,
                    ) by {
                        if j > 0 {
                            assert(rest[j - 1] == orders[j]);
                        }
                    }
                },
            }
        }
    }
}

/// An open order bears one of the ids of a probe.
pub open spec fn bears_an_id_of(order: AccountOpenOrder, probe: ActiveProbe) -> bool {
    ||| probe.oid is Some && probe.oid->0 == order.oid
    ||| probe.flatten_oid is Some && probe.flatten_oid->0 == order.oid
    ||| order.cloid is Some && order.cloid->0@ == probe.cloid@
}

/// What a snapshot means for a probe in recovery whose time has come: an open order
/// is cancelled under the id that the snapshot gives; without one a flat account
/// ends the probe, and an inventory is left to be flattened anew.
pub proof fn law_snapshots_settle_recoveries(
    before: ExecutionProbe,
    after: ExecutionProbe,
    commands: Seq<Command>,
    now_ns: u64,
)
    requires
        before.handles_snapshot(after, commands, now_ns),
        before.active_probe is Some,
        before.active_probe->0.phase == ProbePhase::Recovering,
        before.active_probe->0.recovery_not_before_monotonic_ns <= now_ns,
    ensures
        ({
            let probe = before.active_probe->0;
            let found = ExecutionProbe::first_order_of(before.account.open_orders@, probe);
            &&& after.active_probe is Some
            &&& after == (ExecutionProbe { active_probe: after.active_probe, ..before })
            &&& found is Some ==> {
                &&& after.active_probe->0.oid == found
                &&& after.active_probe->0.cancel_request_id is None
                &&& after.active_probe->0.phase == ProbePhase::Recovering
                &&& commands.len() == 1
                &&& commands[0] == (Command::Cancel {
                    trigger: Trigger::RestRecovery,
                    reason: Reason::OrderStillOpen,
                })
            }
            &&& found is None && before.account.is_flat() ==> {
                &&& after == before
                &&& commands.len() == 1
                &&& commands[0] == Command::Finish(FinishReason::RestInventoryReconciled)
            }
            &&& found is None && !before.account.is_flat() ==> {
                &&& after.active_probe->0.phase == ProbePhase::MarkoutPending
                &&& after.active_probe->0.remaining_size == ordering::zero()
                &&& after.active_probe->0.flatten_request_id is None
                &&& after.active_probe->0.flatten_send_monotonic_ns is None
                &&& after.active_probe->0.cumulative_filled_size == probe.cumulative_filled_size
                &&& commands.len() == 0
            }
        }),
{
}

/// A snapshot leaves every probe alone that is not in recovery, but for asking
/// whether it has come to its end.
pub proof fn law_snapshots_leave_other_probes_alone(
    before: ExecutionProbe,
    after: ExecutionProbe,
    commands: Seq<Command>,
    now_ns: u64,
)
    requires
        before.handles_snapshot(after, commands, now_ns),
    ensures
        before.active_probe is None ==> after == before && commands.len() == 0,
        before.active_probe is Some && before.active_probe->0.phase != ProbePhase::Recovering
            ==> after == before && commands.len() == 1 && commands[0] is FinishIfFlat,
{
}

/// A flattened probe ends exactly where its flattening was sent, or its fills came
/// to nothing, and the account holds less than half a lot of either side and no
/// open order of the probe.
pub proof fn law_flattened_probes_end(module: ExecutionProbe)
    requires
        module.active_probe is Some,
        module.account.confirmed_inventory.finite(),
        module.account.lot().finite(),
    ensures
        ({
            let probe = module.active_probe->0;
            let filled = probe.cumulative_filled_size;
            let half = module.account.lot().product(constants::number(constants::HALF)).value();
            let held = module.account.confirmed_inventory.value();
            module.is_flattened() <==> {
                &&& probe.phase == ProbePhase::FlattenPending || (probe.phase
                    == ProbePhase::MarkoutPending && (filled.nan() || filled.value() <= 0))
                &&& -half < held < half
                &&& ExecutionProbe::first_order_of(module.account.open_orders@, probe) is None
            }
        }),
{
    constants::law_constants_are_exact();
    ordering::lemma_zero_value();
    ordering::law_absolute_forgets_the_sign(module.account.confirmed_inventory);
    ordering::law_signs_multiply(module.account.lot(), constants::number(constants::HALF));
}

/// The cooldown ends its time after it began, and a probe may start then at the
/// earliest.
pub proof fn law_the_cooldown_lasts_its_time(
    module: ExecutionProbe,
    now_ns: u64,
    around: Surroundings,
)
    requires
        module.is_sound(),
        now_ns <= base::LATEST_NS,
        around.monotonic_ns < now_ns + module.config.probe.cooldown_ms * 1_000_000,
    ensures
        module.cooled_down(now_ns).cooldown_until_ns == now_ns + module.config.probe.cooldown_ms
            * 1_000_000,
        !module.cooled_down(now_ns).is_eligible(around),
        module.cooled_down(now_ns) == (ExecutionProbe {
            cooldown_until_ns: module.cooled_down(now_ns).cooldown_until_ns,
            ..module
        }),
{
}

/// A shutdown does with each phase what brings it on: what rests is cancelled, what
/// waits for its answer is reconciled, what was filled is flattened without waiting
/// for markouts, and what is already on its way is driven on.
pub proof fn law_shutdowns_drive_each_phase_on(module: ExecutionProbe, now_ns: u64)
    requires
        module.active_probe is Some,
    ensures
        ({
            let phase = module.active_probe->0.phase;
            let commands = module.shutdown_commands(now_ns);
            &&& phase == ProbePhase::Resting || phase == ProbePhase::Partial || phase
                == ProbePhase::PostAccepted ==> commands =~= seq![
                Command::Cancel {
                    trigger: Trigger::ManualStop,
                    reason: Reason::ShutdownRequested,
                },
            ]
            &&& phase == ProbePhase::PlacePending ==> commands.len() == 1 && commands[0]
                is RestThrottled
            &&& phase == ProbePhase::Filled || phase == ProbePhase::MarkoutPending ==> commands
                =~= seq![Command::Flatten { risk_exit: true }]
            &&& phase == ProbePhase::CancelPending || phase == ProbePhase::FlattenPending || phase
                == ProbePhase::Recovering ==> commands.len() == 2 && commands[0] is Evaluate
                && commands[1] is RestIfActiveThrottled
        }),
{
}

/// The last steps of a shutdown: a last snapshot is asked for, and once one came
/// that is not older than the request, the process stops, once, and tells what the
/// account then shows.
pub proof fn law_shutdowns_end_with_a_snapshot(module: ExecutionProbe, now_ns: u64)
    requires
        module.active_probe is None,
    ensures
        ({
            let commands = module.shutdown_commands(now_ns);
            let asked = module.shutdown_snapshot_requested_ns;
            &&& asked is None ==> commands =~= seq![Command::ShutdownSnapshot]
            &&& asked is Some && (module.account.snapshot_monotonic_ns < asked->0
                || module.shutdown_notified) ==> commands.len() == 0
            &&& asked is Some && module.account.snapshot_monotonic_ns >= asked->0
                && !module.shutdown_notified ==> commands =~= seq![
                Command::Stop(
                    SystemEvent::ProcessStop {
                        open_order_count: module.account.open_order_count,
                        confirmed_inventory: module.account.confirmed_inventory,
                        account_snapshot_monotonic_ns: module.account.snapshot_monotonic_ns,
                    },
                ),
            ]
        }),
{
}

/// The first step of a shutdown gives the pending markouts up, and says so where
/// there are any; later steps neither say it again nor give up others.
pub proof fn law_shutdowns_give_markouts_up_once(
    before: ExecutionProbe,
    after: ExecutionProbe,
    now_ns: u64,
)
    requires
        before.is_shutting_down(after, now_ns),
    ensures
        after.shutdown_started,
        !before.shutdown_started ==> after.pending_markouts@.len() == 0,
        before.shutdown_started ==> after.pending_markouts@ == before.pending_markouts@
            && before.shutdown_notes().len() == 0,
        !before.shutdown_started && before.pending_markouts@.len() == 0
            ==> before.shutdown_notes().len() == 1,
        !before.shutdown_started && before.pending_markouts@.len() > 0
            ==> before.shutdown_notes().len() == 2 && before.shutdown_notes()[0] == Command::Note(
            SystemEvent::MarkoutsCensored {
                pending_fill_count: before.pending_markouts@.len() as usize,
            },
        ),
        !before.shutdown_started ==> before.shutdown_notes().last() == Command::Note(
            SystemEvent::ShutdownRequested,
        ),
        after.account == before.account,
        after.active_probe is Some <==> before.active_probe is Some,
        before.active_probe is Some && before.active_probe->0.phase != ProbePhase::PlacePending
            ==> after.active_probe == before.active_probe,
        before.active_probe is Some && before.active_probe->0.phase == ProbePhase::PlacePending
            ==> after.active_probe->0.phase == ProbePhase::Recovering
            && after.active_probe->0.recovery_not_before_monotonic_ns == now_ns,
{
}

/// A request that can wait goes through once a second at most, and not while one is
/// pending.
pub proof fn law_requests_that_can_wait_come_once_a_second(module: ExecutionProbe, now_ns: u64)
    ensures
        ({
            let gate = module.rest_request_gate;
            let through = !gate.pending && now_ns >= gate.last_request_ns + 1_000_000_000;
            let after = module.after_waiting_request(now_ns);
            &&& module.lets_wait_through(now_ns) == through
            &&& through ==> after.rest_request_gate.pending
                && after.rest_request_gate.last_request_ns == now_ns
            &&& !through ==> after == module
            &&& after.active_probe == module.active_probe
        }),
{
}

} // verus!
