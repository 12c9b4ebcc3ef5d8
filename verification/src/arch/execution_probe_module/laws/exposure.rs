//! When exposure ends: the inventory limit, the guard, the times, and the last
//! record.
use vstd::prelude::*;
use crate::arch::vocabulary::{FinishReason, Reason, Trigger};
use crate::binary64::Binary64;
use crate::ordering;
use super::super::base::ExecutionProbe;
use super::super::commands::Command;
use super::super::fills;
use super::super::state::{AccountState, ActiveProbe, ProbePhase, ProbeSide, UserFill};

verus! {

/// The module with another inventory.
pub open spec fn holding(module: ExecutionProbe, inventory: Binary64) -> ExecutionProbe {
    ExecutionProbe {
        account: AccountState { confirmed_inventory: inventory, ..module.account },
        ..module
    }
}

/// The inventory limit counts the size of the inventory and not its side: what is
/// held is beyond the limit exactly where its size times a positive fair value,
/// rounded, is above the limit.
pub proof fn law_the_limit_counts_the_size(module: ExecutionProbe, size: Binary64)
    requires
        size.finite(),
        !size.negative(),
        module.account.confirmed_inventory.finite(),
        size.value() == module.account.confirmed_inventory.value() || size.value()
            == -module.account.confirmed_inventory.value(),
    ensures
        module.is_over_limit() <==> match module.market.fair() {
            Some(fair) => fair.value() > 0 && !fair.nan()
                && module.config.probe.max_abs_inventory_usd.below(size.product(fair)),
            None => false,
        },
{
    let held = module.account.confirmed_inventory;
    ordering::lemma_zero_value();
    ordering::law_absolute_forgets_the_sign(held);
    ordering::lemma_same_value(held.absolute(), size);
}

/// A long and a short inventory of the same size are both beyond the limit, or
/// both within it, and ask for the same.
pub proof fn law_the_limit_ignores_the_side(module: ExecutionProbe)
    ensures
        ({
            let other = holding(module, module.account.confirmed_inventory.opposite());
            &&& other.is_over_limit() == module.is_over_limit()
            &&& other.guard_commands() == module.guard_commands()
        }),
{
    ordering::law_absolute_forgets_the_sign(module.account.confirmed_inventory);
}

/// Who holds more is beyond the limit first.
pub proof fn law_more_inventory_stays_beyond_the_limit(module: ExecutionProbe, more: Binary64)
    requires
        module.is_over_limit(),
        module.market.fair()->0.finite(),
        module.account.confirmed_inventory.finite(),
        more.finite(),
        more.value() >= module.account.confirmed_inventory.value(),
        more.value() >= -module.account.confirmed_inventory.value(),
    ensures
        holding(module, more).is_over_limit(),
        holding(module, more.opposite()).is_over_limit(),
{
    let held = module.account.confirmed_inventory;
    let fair = module.market.fair()->0;
    ordering::lemma_zero_value();
    ordering::law_absolute_forgets_the_sign(held);
    ordering::law_absolute_forgets_the_sign(more);
    if held.value() == 0 {
        ordering::lemma_same_value(held.absolute(), ordering::zero());
        ordering::law_product_commutes(held.absolute(), fair);
        ordering::law_product_commutes(more.absolute(), fair);
        ordering::law_signs_multiply(held.absolute(), fair);
        ordering::law_signs_multiply(ordering::zero(), fair);
        ordering::law_signs_multiply(more.absolute(), fair);
        ordering::lemma_nothing_times(held.absolute(), fair);
    } else {
        ordering::law_product_commutes(held.absolute(), fair);
        ordering::law_product_commutes(more.absolute(), fair);
        ordering::law_product_keeps_order(fair, held.absolute(), more.absolute());
    }
}

/// Beyond the limit the inventory is flattened at once as a risk exit, and an
/// order that rests is cancelled before that. Within it nothing is asked for.
pub proof fn law_the_limit_ends_exposure(module: ExecutionProbe)
    ensures
        ({
            let rests = module.active_probe is Some && (module.active_probe->0.phase
                == ProbePhase::Resting || module.active_probe->0.phase == ProbePhase::Partial);
            let asked = module.guard_commands();
            &&& module.is_over_limit() ==> asked.len() > 0 && asked.last() == (Command::Flatten {
                risk_exit: true,
            })
            &&& module.is_over_limit() ==> asked.len() == (if rests {
                2nat
            } else {
                1nat
            })
            &&& module.is_over_limit() && rests ==> asked[0] == (Command::Cancel {
                trigger: Trigger::HardInventoryGuard,
                reason: Reason::HardInventoryGuard,
            })
            &&& !module.is_over_limit() ==> asked.len() == 0
        }),
{
}

/// The guard watches the market run through a quote: a bid is stale exactly where
/// it lies more than the guard above the fair value, an ask where it lies more
/// than the guard below it. Without a fair value every quote is stale.
pub proof fn law_the_guard_watches_the_market(module: ExecutionProbe, probe: ActiveProbe)
    ensures
        ({
            let room = module.config.probe.fair_value_guard_ticks.product(probe.tick_size);
            module.is_stale(probe) <==> match module.market.fair() {
                None => true,
                Some(fair) => match probe.side {
                    ProbeSide::Bid => room.below(probe.price.difference(fair)),
                    ProbeSide::Ask => room.below(fair.difference(probe.price)),
                },
            }
        }),
{
}

/// A quote that the fair value has not passed is never stale: a bid at or below
/// it, an ask at or above it.
pub proof fn law_quotes_on_their_own_side_are_not_stale(
    module: ExecutionProbe,
    probe: ActiveProbe,
)
    requires
        module.config.probe.fair_value_guard_ticks.finite(),
        module.config.probe.fair_value_guard_ticks.value() > 0,
        probe.tick_size.finite(),
        probe.tick_size.value() > 0,
        probe.price.finite(),
        module.market.fair() is Some,
        module.market.fair()->0.finite(),
        probe.side == ProbeSide::Bid ==> probe.price.not_above(module.market.fair()->0),
        probe.side == ProbeSide::Ask ==> module.market.fair()->0.not_above(probe.price),
    ensures
        !module.is_stale(probe),
{
    let guard = module.config.probe.fair_value_guard_ticks;
    let fair = module.market.fair()->0;
    ordering::lemma_zero_value();
    ordering::law_product_keeps_order(guard, probe.tick_size, probe.tick_size);
    ordering::law_differences_compare(fair, probe.price);
    ordering::law_differences_compare(probe.price, fair);
}

/// The last record calls a probe censored exactly where nothing of its order was
/// filled, and repeats what was planned and what came.
pub proof fn law_the_last_record_tells_the_outcome(
    module: ExecutionProbe,
    probe: ActiveProbe,
    reason: FinishReason,
    now_ns: u64,
)
    requires
        probe.created_monotonic_ns <= now_ns,
        !probe.cumulative_filled_size.nan(),
    ensures
        ({
            let record = module.final_record(probe, reason, now_ns);
            &&& record.censored <==> probe.cumulative_filled_size.value() <= 0
            &&& record.filled_size == probe.cumulative_filled_size
            &&& record.size == probe.size
            &&& record.price == probe.price
            &&& record.side == probe.side
            &&& record.probe_id == probe.probe_id
            &&& record.oid == probe.oid
            &&& record.flatten_oid == probe.flatten_oid
            &&& record.flatten_action_id == probe.flatten_action_id
            &&& record.first_fill_monotonic_ns == probe.first_fill_monotonic_ns
            &&& record.planned_dwell_ms == probe.planned_dwell_ms
            &&& record.actual_dwell_ms * 1_000_000 <= now_ns - probe.created_monotonic_ns
                < record.actual_dwell_ms * 1_000_000 + 1_000_000
            &&& record.end_reason == reason
            &&& record.exposure_trigger == probe.end_reason
            &&& record.initial_queue_belief == probe.initial_queue_belief
            &&& record.queue_belief == probe.queue_belief
            &&& record.position == module.market.position_of(probe, now_ns)
        }),
{
    ordering::lemma_zero_value();
}

/// Once a fill of positive size was taken in for a probe, its last record is not
/// censored.
pub proof fn law_filled_probes_are_not_censored(
    before: ExecutionProbe,
    after: ExecutionProbe,
    commands: Seq<Command>,
    fill: UserFill,
    received_ns: u64,
    reason: FinishReason,
    now_ns: u64,
)
    requires
        before.handles_fill(after, commands, fill, received_ns),
        before.kind_of(fill) == fills::FillKind::Passive,
        before.active_probe->0.cumulative_filled_size.finite(),
        before.active_probe->0.cumulative_filled_size.value() >= 0,
        fill.size.finite(),
        fill.size.value() > 0,
    ensures
        after.active_probe is Some,
        !after.final_record(after.active_probe->0, reason, now_ns).censored,
{
    let so_far = before.active_probe->0.cumulative_filled_size;
    ordering::lemma_zero_value();
    ordering::law_sums_of_sizes(so_far, fill.size);
}

} // verus!
