//! What a fill does: it moves the inventory, is counted once, and is told as it
//! came.
use vstd::prelude::*;
use vstd::arithmetic::power2::*;
use crate::arch::records::SystemEvent;
use crate::arch::vocabulary::{Reason, Trigger};
use crate::binary64::Binary64;
use crate::constants;
use crate::ordering;
use super::super::base::ExecutionProbe;
use super::super::commands::Command;
use super::super::fills;
use super::super::fills::FillKind;
use super::super::state::{ActiveProbe, ProbePhase, ProbeSide, UserFill};
use super::gains;
use super::grid;
use super::market::has_lasted;
use super::queue::without;

verus! {

/// A purchase raises the inventory by its size, a sale lowers it by its size, up to
/// rounding; from an empty inventory the size itself is held, long or short. The
/// account is as recent as the fill, and nothing else in it changes.
pub proof fn law_fills_move_the_inventory(
    before: ExecutionProbe,
    after: ExecutionProbe,
    commands: Seq<Command>,
    fill: UserFill,
    received_ns: u64,
)
    requires
        before.handles_fill(after, commands, fill, received_ns),
        before.kind_of(fill) == FillKind::Passive || before.kind_of(fill) == FillKind::Flattening,
        before.account.confirmed_inventory.finite(),
        fill.size.finite(),
        fill.size.value() >= 0,
    ensures
        ({
            let side = if before.kind_of(fill) == FillKind::Passive {
                before.active_probe->0.side
            } else {
                fill.side
            };
            let held = before.account.confirmed_inventory;
            let holds = after.account.confirmed_inventory;
            &&& !holds.nan()
            &&& side == ProbeSide::Bid ==> holds.value() == held.sum(fill.size).value()
                && holds.value() >= held.value()
            &&& side == ProbeSide::Ask ==> holds.value() == held.difference(fill.size).value()
                && holds.value() <= held.value()
            &&& held.value() == 0 && side == ProbeSide::Bid ==> holds.value() == fill.size.value()
            &&& held.value() == 0 && side == ProbeSide::Ask ==> holds.value()
                == -fill.size.value()
            &&& held.value() == fill.size.value() && side == ProbeSide::Ask ==> holds.value() == 0
            &&& held.value() == -fill.size.value() && side == ProbeSide::Bid ==> holds.value() == 0
            &&& after.account.snapshot_monotonic_ns == received_ns
            &&& after.account.open_orders == before.account.open_orders
            &&& after.account.withdrawable == before.account.withdrawable
        }),
{
    let held = before.account.confirmed_inventory;
    let one = constants::number(constants::ONE);
    ordering::lemma_zero_value();
    ordering::lemma_one();
    constants::law_constants_are_exact();
    ordering::law_unit_products(fill.size);
    ordering::law_sizes_move_numbers(held, fill.size);
    ordering::lemma_opposite(ordering::one());
    ordering::lemma_opposite(fill.size);
    assert(constants::number(constants::MINUS_ONE) == ordering::one().opposite()) by {
        crate::binary64::lemma_parts(constants::number(constants::MINUS_ONE));
        crate::binary64::lemma_parts(ordering::one());
    }
    ordering::lemma_same_value_same_sum(
        held,
        ordering::one().product(fill.size),
        fill.size,
    );
    ordering::lemma_same_value_same_sum(
        held,
        ordering::one().opposite().product(fill.size),
        fill.size.opposite(),
    );
}

/// A fill is the business of the probe whose order it names: of its flattening
/// order first, then of its resting order. Others are only remembered, and fills of
/// other coins or fills that were seen before do nothing.
pub proof fn law_fills_belong_to_their_order(
    before: ExecutionProbe,
    after: ExecutionProbe,
    commands: Seq<Command>,
    fill: UserFill,
    received_ns: u64,
)
    requires
        before.handles_fill(after, commands, fill, received_ns),
    ensures
        ({
            let name = fills::fill_id_text(fill.oid, fill.trade_id@);
            let fresh = fill.coin@ == before.config.markets.hyperliquid_coin@
                && !before.seen_fill_ids@.contains(name);
            let flattens = before.active_probe is Some && before.active_probe->0.flatten_oid
                == Some(fill.oid);
            let rests = before.active_probe is Some && before.active_probe->0.oid == Some(
                fill.oid,
            );
            &&& !fresh ==> after == before && commands.len() == 0
            &&& fresh ==> after.seen_fill_ids@ == before.seen_fill_ids@.insert(name)
            &&& fresh ==> (before.kind_of(fill) == FillKind::Flattening <==> flattens)
            &&& fresh ==> (before.kind_of(fill) == FillKind::Passive <==> rests && !flattens)
            &&& fresh && !flattens && !rests ==> after.account == before.account
                && after.active_probe == before.active_probe && after.pending_markouts
                == before.pending_markouts && commands =~= seq![
                Command::Record(
                    SystemEvent::UnmatchedUserFill { oid: fill.oid, trade_id: fill.trade_id },
                ),
            ]
            &&& fresh && flattens ==> after.active_probe == before.active_probe
                && after.pending_markouts == before.pending_markouts && commands.len() == 3
                && commands[0] is Record && commands[1] is FinishIfFlat && commands[2]
                is RestIfActive
            &&& fresh && rests && !flattens ==> commands.len() == 3 && commands[0] is Record
                && commands[1] is Rest && after.pending_markouts@.len()
                == before.pending_markouts@.len() + 1
        }),
{
}

/// A fill of the resting order is taken from what is left of it, which does not
/// fall below nothing, and added to what was filled. The time of the first fill
/// stays. An order that is used up waits for its markouts; of one that is not, the
/// rest is cancelled unless it is being cancelled already.
pub proof fn law_fills_use_the_order_up(
    before: ExecutionProbe,
    after: ExecutionProbe,
    commands: Seq<Command>,
    fill: UserFill,
    received_ns: u64,
)
    requires
        before.handles_fill(after, commands, fill, received_ns),
        before.kind_of(fill) == FillKind::Passive,
        before.active_probe->0.remaining_size.finite(),
        fill.size.finite(),
    ensures
        ({
            let probe = before.active_probe->0;
            let left = after.active_probe->0;
            let rest = left.remaining_size;
            &&& after.active_probe is Some
            &&& left.remaining_size.value() == without(probe.remaining_size, fill.size).value()
            &&& probe.remaining_size.value() <= fill.size.value() ==> rest.value() == 0
            &&& probe.remaining_size.value() > fill.size.value() ==> rest.value() > 0
            &&& left.cumulative_filled_size == probe.cumulative_filled_size.sum(fill.size)
            &&& probe.first_fill_monotonic_ns is Some ==> left.first_fill_monotonic_ns
                == probe.first_fill_monotonic_ns
            &&& probe.first_fill_monotonic_ns is None ==> left.first_fill_monotonic_ns == Some(
                received_ns,
            )
            &&& rest.value() == 0 ==> left.phase == ProbePhase::MarkoutPending
            &&& rest.value() > 0 && probe.cancel_request_id is None ==> left.phase
                == ProbePhase::Partial
            &&& rest.value() > 0 && probe.cancel_request_id is Some ==> left.phase == probe.phase
            &&& commands[2] == (if rest.value() > 0 && probe.cancel_request_id is None {
                Command::Cancel {
                    trigger: Trigger::PartialFill,
                    reason: Reason::CancelRemainderAfterPartial,
                }
            } else {
                commands[2]
            })
            &&& rest.value() == 0 || probe.cancel_request_id is Some ==> commands[2] is Decide
            &&& left.queue_belief.queue_ahead_upper.value() == 0
            &&& left.queue_belief.queue_ahead_p50.value() == 0
            &&& left.oid == probe.oid
            &&& left.price == probe.price
            &&& left.size == probe.size
            &&& left.side == probe.side
            &&& left.planned_expiry_monotonic_ns == probe.planned_expiry_monotonic_ns
            &&& left.cancel_request_id == probe.cancel_request_id
        }),
{
    let probe = before.active_probe->0;
    ordering::lemma_zero_value();
    ordering::law_differences_compare(fill.size, probe.remaining_size);
}

/// A fill of the resting order waits for its markouts from the moment it came: at
/// every horizon of the configuration, none of them sampled yet.
pub proof fn law_fills_wait_for_their_markouts(
    before: ExecutionProbe,
    after: ExecutionProbe,
    commands: Seq<Command>,
    fill: UserFill,
    received_ns: u64,
)
    requires
        before.handles_fill(after, commands, fill, received_ns),
        before.kind_of(fill) == FillKind::Passive,
    ensures
        ({
            let markout = after.pending_markouts@.last();
            &&& after.pending_markouts@.drop_last() == before.pending_markouts@
            &&& markout.probe_id == before.active_probe->0.probe_id
            &&& markout.oid == fill.oid
            &&& markout.side == fill.side
            &&& markout.fill_price == fill.price
            &&& markout.fill_size == fill.size
            &&& markout.fill_monotonic_ns == received_ns
            &&& markout.next_horizon_index == 0
            &&& markout.horizons_ms@ == before.config.probe.markout_horizons_ms@
            &&& markout.fill_id@ == fills::fill_id_text(fill.oid, fill.trade_id@)
        }),
{
}

/// The record of a fill tells the inventory before and after it, what was filled
/// and what is left after it, and the edge at the fill: a gain exactly where the
/// fair value lies in favour of the order's side.
pub proof fn law_fill_records_tell_what_happened(
    before: ExecutionProbe,
    after: ExecutionProbe,
    commands: Seq<Command>,
    fill: UserFill,
    received_ns: u64,
)
    requires
        before.handles_fill(after, commands, fill, received_ns),
        before.kind_of(fill) == FillKind::Passive,
    ensures
        commands[0] matches Command::Record(SystemEvent::Fill(link)) && {
            let probe = before.active_probe->0;
            let fair = before.market.fair();
            &&& link.probe_id == probe.probe_id
            &&& link.decision_id == probe.decision_id
            &&& link.action_id == probe.action_id
            &&& link.cloid == probe.cloid
            &&& link.oid == fill.oid
            &&& link.fill_id@ == fills::fill_id_text(fill.oid, fill.trade_id@)
            &&& link.price == fill.price
            &&& link.size == fill.size
            &&& link.side == fill.side
            &&& link.fee == fill.fee
            &&& link.fee_token == fill.fee_token
            &&& link.maker_fee_rate == before.account.maker_fee
            &&& link.taker_fee_rate == before.account.taker_fee
            &&& link.priority_fee == 0
            &&& link.inventory_before == before.account.confirmed_inventory
            &&& link.inventory_after == after.account.confirmed_inventory
            &&& link.cumulative_filled_size == after.active_probe->0.cumulative_filled_size
            &&& link.remaining_size_after_fill == after.active_probe->0.remaining_size
            &&& link.queue_belief == after.active_probe->0.queue_belief
            &&& link.exchange_time_ms == fill.timestamp_ms
            &&& link.raw_fill == fill.raw
            &&& link.fair_value == fair
            &&& has_lasted(
                link.order_age_ms,
                if probe.open_monotonic_ns is Some {
                    probe.open_monotonic_ns->0
                } else {
                    probe.send_monotonic_ns
                },
                received_ns,
            )
            &&& link.position == before.market.position_of(probe, received_ns)
            &&& link.realized_fee_rate is Some <==> fill.fee is Some
            &&& link.fee_ticks is Some <==> fill.fee is Some
            &&& link.spread_edge_at_fill is Some <==> fair is Some
            &&& fair is Some && fair->0.finite() && fill.price.finite() ==> {
                let edge = link.spread_edge_at_fill->0.value();
                &&& edge > 0 <==> (if probe.side == ProbeSide::Bid {
                    fill.price.value() < fair->0.value()
                } else {
                    fill.price.value() > fair->0.value()
                })
                &&& edge == 0 <==> fill.price.value() == fair->0.value()
            }
        },
{
    let fair = before.market.fair();
    if fair is Some && fair->0.finite() && fill.price.finite() {
        gains::law_edges_favour_their_side(fill.price, fair->0);
    }
}

/// The record of a fill of the flattening order names that order and its action.
pub proof fn law_flattening_fills_are_told(
    before: ExecutionProbe,
    after: ExecutionProbe,
    commands: Seq<Command>,
    fill: UserFill,
    received_ns: u64,
)
    requires
        before.handles_fill(after, commands, fill, received_ns),
        before.kind_of(fill) == FillKind::Flattening,
    ensures
        commands[0] matches Command::Record(SystemEvent::FlattenFill(link)) && {
            &&& link.probe_id == before.active_probe->0.probe_id
            &&& link.action_id == before.active_probe->0.flatten_action_id
            &&& link.oid == fill.oid
            &&& before.active_probe->0.flatten_oid == Some(link.oid)
            &&& link.price == fill.price
            &&& link.size == fill.size
            &&& link.side == fill.side
            &&& link.fee == fill.fee
            &&& link.fee_token == fill.fee_token
            &&& link.exchange_time_ms == fill.timestamp_ms
            &&& link.raw_fill == fill.raw
        },
{
}

/// The realised fee rate is the share of the notional that the fee is: rate times
/// notional gives the fee back. The fee in ticks, times the tick, gives the fee for
/// one unit of size back. Rounding moves both by no more than a part in 2^50 and a
/// last unit.
pub proof fn law_fees_are_shares(fee: Binary64, price: Binary64, size: Binary64, tick: Binary64)
    requires
        fee.finite(),
        fee.value() >= 0,
        price.product(size).finite(),
        price.product(size).value() > 0,
        fees_are_in_range(fee, price, size, tick),
    ensures
        ({
            let rate = fills::fee_rate(Some(fee), price, size)->0.value();
            let notional = price.product(size).value();
            let found = rate * notional;
            let exact = fee.value() * pow2(1074);
            let room = found + grid::fine() * notional;
            &&& grid::fine() * (found - exact) <= room
            &&& grid::fine() * (exact - found) <= room
        }),
        ({
            let ticks = fills::fee_in_ticks(Some(fee), size, tick)->0.value();
            let found = ticks * tick.value();
            let exact = fee.quotient(size).value() * pow2(1074);
            let room = found + grid::fine() * tick.value();
            &&& grid::fine() * (found - exact) <= room
            &&& grid::fine() * (exact - found) <= room
        }),
        fills::fee_rate(None, price, size) is None,
        fills::fee_in_ticks(None, size, tick) is None,
{
    ordering::lemma_quotient_error(fee, price.product(size));
    ordering::lemma_quotient_error(fee, size);
    ordering::lemma_quotient_error(fee.quotient(size), tick);
}

/// The figures of a fee do not leave the range of numbers.
pub open spec fn fees_are_in_range(
    fee: Binary64,
    price: Binary64,
    size: Binary64,
    tick: Binary64,
) -> bool {
    &&& size.finite()
    &&& size.value() > 0
    &&& tick.finite()
    &&& tick.value() > 0
    &&& fee.quotient(price.product(size)).finite()
    &&& fee.quotient(size).finite()
    &&& fee.quotient(size).quotient(tick).finite()
}

/// The account and the probe after a fill, and what was filled in all: fills of a
/// probe add up, whatever order they come in, as long as their sums are exact.
pub proof fn law_fills_add_up(probe: ActiveProbe, first: Binary64, second: Binary64, at_ns: u64)
    requires
        probe.cumulative_filled_size.finite(),
        probe.cumulative_filled_size.value() >= 0,
        first.finite(),
        first.value() >= 0,
        second.finite(),
        second.value() >= 0,
    ensures
        ({
            let once = fills::probe_after_fill(probe, first, at_ns);
            let twice = fills::probe_after_fill(once, second, at_ns);
            &&& once.cumulative_filled_size.value() >= probe.cumulative_filled_size.value()
            &&& once.cumulative_filled_size.value() >= first.value()
            &&& once.cumulative_filled_size.finite() ==> twice.cumulative_filled_size.value()
                >= once.cumulative_filled_size.value()
            &&& probe.cumulative_filled_size.value() == 0 ==> once.cumulative_filled_size.value()
                == first.value()
            &&& twice.first_fill_monotonic_ns == once.first_fill_monotonic_ns
        }),
{
    ordering::lemma_zero_value();
    ordering::law_sums_of_sizes(probe.cumulative_filled_size, first);
    ordering::law_sizes_move_numbers(probe.cumulative_filled_size, first);
    let once = probe.cumulative_filled_size.sum(first);
    if once.finite() {
        ordering::law_sums_of_sizes(once, second);
    }
}

} // verus!
