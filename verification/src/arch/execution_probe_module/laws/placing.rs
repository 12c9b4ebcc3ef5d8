//! What a new order is for: it rests behind the market, is worth its notional, and
//! comes from a clean account.
use vstd::prelude::*;
use vstd::arithmetic::power2::*;
use crate::arch::records::Action;
use crate::arch::vocabulary::{Reason, Trigger};
use crate::binary64;
use crate::binary64::Binary64;
use crate::constants;
use crate::decimal;
use crate::notation;
use crate::ordering;
use crate::rounding;
use super::super::base::{ExecutionProbe, Surroundings};
use super::super::lifecycle::PostTarget;
use super::super::placement;
use super::super::placement::{ProbePlan, Sizing};
use super::super::state::{ProbePhase, ProbeSide};
use super::super::utils;
use super::grid;

verus! {

/// As many ticks as the level says.
spec fn offset(level: u32, tick: Binary64) -> Binary64 {
    binary64::whole_number(false, level as nat).product(tick)
}

proof fn lemma_offset(level: u32, tick: Binary64)
    requires
        tick.finite(),
        tick.value() > 0,
        offset(level, tick).finite(),
    ensures
        offset(level, tick).value() >= 0,
        level == 0 ==> offset(level, tick).value() == 0,
        ({
            let exact = level * tick.value();
            let found = offset(level, tick).value();
            let room = found + grid::fine();
            &&& grid::fine() * (found - exact) <= room
            &&& grid::fine() * (exact - found) <= room
        }),
{
    let whole = binary64::whole_number(false, level as nat);
    let u = pow2(1074) as int;
    let o = offset(level, tick).value();
    let t = tick.value();
    lemma_pow2_pos(1074);
    ordering::lemma_zero_value();
    ordering::lemma_whole_number_value(false, level as nat);
    assert(level * u >= 0) by (nonlinear_arith)
        requires
            level >= 0,
            u > 0,
    ;
    ordering::law_signs_multiply(whole, tick);
    ordering::lemma_product_error(whole, tick);
    if level == 0 {
        assert(0 * u == 0) by (nonlinear_arith);
        ordering::lemma_nothing_times(whole, tick);
    }
    assert((level * u) * t == (level * t) * u) by (nonlinear_arith);
    let found = o * u;
    let exact = (level * t) * u;
    assert(0x4_0000_0000_0000 * (found - exact) <= found + 0x4_0000_0000_0000 * u);
    assert(0x4_0000_0000_0000 * (exact - found) <= found + 0x4_0000_0000_0000 * u);
    assert(grid::fine() * (o - level * t) <= o + grid::fine()) by (nonlinear_arith)
        requires
            0x4_0000_0000_0000 * (o * u - (level * t) * u) <= o * u + 0x4_0000_0000_0000 * u,
            u > 0,
            grid::fine() == 0x4_0000_0000_0000,
    ;
    assert(grid::fine() * (level * t - o) <= o + grid::fine()) by (nonlinear_arith)
        requires
            0x4_0000_0000_0000 * ((level * t) * u - o * u) <= o * u + 0x4_0000_0000_0000 * u,
            u > 0,
            grid::fine() == 0x4_0000_0000_0000,
    ;
}

/// The price of a level lies as many ticks as the level says behind the best price
/// of its own side, never in front of it, and at it for the level zero. Rounding
/// moves the ticks by no more than a part in 2^50 and a last unit.
pub proof fn law_levels_lie_behind_the_best_price(
    best_bid: Binary64,
    best_ask: Binary64,
    tick: Binary64,
    level: u32,
)
    requires
        best_bid.finite(),
        best_ask.finite(),
        tick.finite(),
        tick.value() > 0,
        binary64::whole_number(false, level as nat).product(tick).finite(),
    ensures
        ({
            let bid = ExecutionProbe::level_price(best_bid, best_ask, tick, ProbeSide::Bid, level);
            let ask = ExecutionProbe::level_price(best_bid, best_ask, tick, ProbeSide::Ask, level);
            &&& !bid.nan()
            &&& !ask.nan()
            &&& bid.value() <= best_bid.value()
            &&& ask.value() >= best_ask.value()
            &&& level == 0 ==> bid.value() == best_bid.value()
            &&& level == 0 ==> ask.value() == best_ask.value()
            &&& exists|ticks: Binary64|
                {
                    &&& bid == #[trigger] best_bid.difference(ticks)
                    &&& ask == best_ask.sum(ticks)
                    &&& ticks.finite()
                    &&& grid::fine() * (ticks.value() - level * tick.value()) <= ticks.value()
                        + grid::fine()
                    &&& grid::fine() * (level * tick.value() - ticks.value()) <= ticks.value()
                        + grid::fine()
                }
        }),
{
    let ticks = offset(level, tick);
    lemma_offset(level, tick);
    ordering::law_sizes_move_numbers(best_bid, ticks);
    ordering::law_sizes_move_numbers(best_ask, ticks);
    if level == 0 {
        ordering::law_nothing_moves_nothing(best_bid, ticks);
        ordering::law_nothing_moves_nothing(best_ask, ticks);
    }
    assert(best_bid.difference(ticks) == ExecutionProbe::level_price(
        best_bid,
        best_ask,
        tick,
        ProbeSide::Bid,
        level,
    ));
}

/// A bid is put on the grid downwards and an ask upwards, so that neither comes
/// nearer to the market: a bid not above the best bid, an ask not below the best
/// ask, up to a part in 2^50.
pub proof fn law_resting_prices_stay_behind_the_market(
    sizing: Sizing,
    side: ProbeSide,
    level: u32,
)
    requires
        sizing.best_bid.finite(),
        sizing.best_bid.value() > 0,
        sizing.best_ask.finite(),
        sizing.best_ask.value() > 0,
        sizing.tick.finite(),
        sizing.tick.value() >= pow2(60),
        binary64::whole_number(false, level as nat).product(sizing.tick).finite(),
        ExecutionProbe::cell_price_text(sizing, side, level) is Some,
        ({
            let price = ExecutionProbe::level_price(
                sizing.best_bid,
                sizing.best_ask,
                sizing.tick,
                side,
                level,
            );
            &&& price.quotient(sizing.tick).finite()
            &&& price.quotient(sizing.tick).value() > 0
            &&& utils::on_grid(price, sizing.tick, side == ProbeSide::Ask).finite()
        }),
    ensures
        exists|number: Binary64|
            {
                &&& ExecutionProbe::cell_price_text(sizing, side, level) == Some(
                    #[trigger] notation::trimmed(number, sizing.tick),
                )
                &&& number.finite()
                &&& side == ProbeSide::Bid ==> grid::fine() * number.value() <= (grid::fine() + 1)
                    * sizing.best_bid.value()
                &&& side == ProbeSide::Ask ==> grid::fine() * sizing.best_ask.value() <= (
                grid::fine() + 1) * number.value()
            },
{
    let price = ExecutionProbe::level_price(
        sizing.best_bid,
        sizing.best_ask,
        sizing.tick,
        side,
        level,
    );
    lemma_pow2_pos(60);
    ordering::lemma_zero_value();
    law_levels_lie_behind_the_best_price(sizing.best_bid, sizing.best_ask, sizing.tick, level);
    grid::law_grid_prices_lie_within_a_tick(price, sizing.tick, side == ProbeSide::Ask);
    let number = utils::on_grid(price, sizing.tick, side == ProbeSide::Ask);
    let g = number.value();
    let p = price.value();
    let b = sizing.best_bid.value();
    let a = sizing.best_ask.value();
    assert(ExecutionProbe::cell_price_text(sizing, side, level) == Some(
        notation::trimmed(number, sizing.tick),
    ));
    if side == ProbeSide::Bid {
        assert(0x4_0000_0000_0001 * p <= 0x4_0000_0000_0001 * b);
    } else {
        assert(0x4_0000_0000_0000 * a <= 0x4_0000_0000_0000 * p);
    }
}

/// The middle from which an order is sized lies between the best bid and the best
/// ask.
pub proof fn law_orders_are_sized_at_the_middle(module: ExecutionProbe)
    requires
        module.market.hl_bbo.bids@.len() > 0,
        module.market.hl_bbo.asks@.len() > 0,
        ({
            let bid = module.market.hl_bbo.bids@[0].price;
            let ask = module.market.hl_bbo.asks@[0].price;
            &&& bid.finite()
            &&& ask.finite()
            &&& 0 <= bid.value() <= ask.value()
            &&& bid.sum(ask).finite()
        }),
    ensures
        module.placement_middle() is Some,
        module.market.hl_bbo.bids@[0].price.value() <= module.placement_middle()->0.value()
            <= module.market.hl_bbo.asks@[0].price.value(),
{
    constants::law_constants_are_exact();
    ordering::law_the_mean_lies_between(
        module.market.hl_bbo.bids@[0].price,
        module.market.hl_bbo.asks@[0].price,
        constants::number(constants::HALF),
    );
}

/// Without a best bid or a best ask nothing is sized.
pub proof fn law_no_sizing_without_a_book(module: ExecutionProbe, log10_middle: Binary64)
    requires
        module.market.hl_bbo.bids@.len() == 0 || module.market.hl_bbo.asks@.len() == 0
            || module.account.size_decimals is None,
    ensures
        !module.is_sizable(log10_middle),
{
}

/// The size of an order is written from the smallest number of lots that is worth
/// the notional at the middle.
pub proof fn law_sizes_are_the_smallest(module: ExecutionProbe, log10_middle: Binary64)
    requires
        module.is_sizable(log10_middle),
        module.account.lot_size is Some,
    ensures
        module.placement_size_text() == Some(
            notation::trimmed(
                utils::lots_for(
                    module.config.probe.probe_notional_usd,
                    module.placement_middle()->0,
                    module.account.lot_size->0,
                ),
                module.account.lot_size->0,
            ),
        ),
        module.placement_size() == decimal::reading(module.placement_size_text()->0),
{
}

/// An order within the cap is accepted: one that is worth no more than an order may
/// be always is, and one that is accepted is worth no more than that and a tick for
/// each unit of its size.
pub proof fn law_orders_keep_within_the_cap(module: ExecutionProbe, log10_middle: Binary64)
    requires
        module.placement_size() is Some,
        module.placement_size()->0.finite(),
        module.placement_size()->0.value() >= 0,
        module.placement_tick(log10_middle) is Some,
        module.placement_tick(log10_middle)->0.finite(),
        module.placement_tick(log10_middle)->0.value() >= 0,
        module.placement_middle() is Some,
        module.placement_middle()->0.finite(),
        module.config.probe.max_order_notional_usd.finite(),
        module.config.probe.max_order_notional_usd.value() >= 0,
        module.placement_tick(log10_middle)->0.product(module.placement_size()->0).finite(),
    ensures
        ({
            let size = module.placement_size()->0;
            let worth = size.product(module.placement_middle()->0);
            let cap = module.config.probe.max_order_notional_usd;
            let more = module.placement_tick(log10_middle)->0.product(size);
            &&& !worth.nan() && worth.value() <= cap.value() ==> module.is_within_cap(log10_middle)
            &&& module.is_within_cap(log10_middle) ==> worth.nan() || worth.value() <= cap.sum(
                more,
            ).value()
        }),
{
    let size = module.placement_size()->0;
    let tick = module.placement_tick(log10_middle)->0;
    let cap = module.config.probe.max_order_notional_usd;
    ordering::lemma_zero_value();
    ordering::law_signs_multiply(tick, size);
    ordering::law_sums_of_sizes(cap, tick.product(size));
}

/// When the account allows an order: a healthy and recent snapshot, no open order,
/// no more inventory than half a lot of either side, the price of an order to
/// withdraw, a known lot, and ten requests to spend.
pub proof fn law_orders_need_a_clean_account(module: ExecutionProbe, now_ns: u64)
    requires
        module.account.confirmed_inventory.finite(),
        module.account.lot_size is Some ==> module.account.lot_size->0.finite(),
        module.config.probe.max_order_notional_usd.finite(),
    ensures
        module.account_is_ready(now_ns) <==> {
            let account = module.account;
            let held = account.confirmed_inventory.value();
            let half = account.lot_size->0.product(constants::number(constants::HALF)).value();
            &&& account.rest_snapshot_healthy
            &&& account.snapshot_monotonic_ns > 0
            &&& now_ns <= account.snapshot_monotonic_ns
                + module.config.collector.account_snapshot_interval_sec * 2_000_000_000
            &&& account.open_order_count == 0
            &&& account.withdrawable is Some
            &&& account.withdrawable->0.nan() || account.withdrawable->0.value()
                >= module.config.probe.max_order_notional_usd.value()
            &&& account.lot_size is Some
            &&& account.size_decimals is Some
            &&& -half <= held <= half
            &&& account.requests_cap is Some
            &&& account.requests_used is Some
            &&& account.requests_cap->0 >= account.requests_used->0 + 10
        },
{
    ordering::lemma_zero_value();
    constants::law_constants_are_exact();
    ordering::law_absolute_forgets_the_sign(module.account.confirmed_inventory);
    if module.account.lot_size is Some {
        ordering::law_signs_multiply(
            module.account.lot_size->0,
            constants::number(constants::HALF),
        );
    }
}

/// When a probe may start, beyond the account: it is enabled, none is active, the
/// cooldown is over, no markout is waited for, the market is fresh, every feed was
/// connected, and half the store is free.
pub proof fn law_probes_start_when_all_is_ready(module: ExecutionProbe, around: Surroundings)
    ensures
        module.is_eligible(around) <==> {
            &&& module.config.probe.enabled
            &&& module.active_probe is None
            &&& module.cooldown_until_ns <= around.monotonic_ns
            &&& module.pending_markouts@.len() == 0
            &&& module.market.quotes_are_fresh(
                around.monotonic_ns,
                (module.config.probe.market_freshness_ms * 1_000_000) as u64,
                (module.config.probe.default_l2_freshness_ms * 1_000_000) as u64,
            )
            &&& forall|task_id: u64| #[trigger]
                module.feed_plans@.contains_key(task_id) ==> module.connections@.contains_key(
                    task_id,
                ) && module.connections@[task_id].generation > 0
            &&& module.account_is_ready(around.monotonic_ns)
            &&& around.writer_remaining > 0
            &&& around.writer_remaining >= module.config.collector.writer_capacity / 2
        },
{
    assert forall|task_id: u64| module.is_started(task_id) == (module.connections@.contains_key(
        task_id,
    ) && module.connections@[task_id].generation > 0) by {}
}

/// A plan is of its cell: its side and level, the price that its text reads, the
/// size, and a dwell of as many seconds from now on. Every cell is equally likely.
pub proof fn law_plans_are_of_their_cell(
    module: ExecutionProbe,
    plan: ProbePlan,
    sizing: Sizing,
    side: ProbeSide,
    level: u32,
    dwell_sec: u64,
    around: Surroundings,
)
    requires
        module.plans(plan, sizing, side, level, dwell_sec, around),
        module.config.probe.price_levels_ticks@.len() > 0,
        module.config.probe.dwell_seconds@.len() > 0,
        2 * module.config.probe.price_levels_ticks@.len()
            * module.config.probe.dwell_seconds@.len() <= 2 * rounding::NORMAL,
    ensures
        ({
            let decision = plan.dispatch.decision;
            let cells = 2 * module.config.probe.price_levels_ticks@.len()
                * module.config.probe.dwell_seconds@.len();
            &&& plan.side == side
            &&& plan.price_level_ticks == level
            &&& decimal::reading(plan.dispatch.context.price->0@) == Some(plan.price)
            &&& plan.dispatch.context.size == Some(sizing.size_text)
            &&& plan.size == sizing.size
            &&& plan.tick_size == sizing.tick
            &&& plan.created_monotonic_ns == around.monotonic_ns
            &&& plan.planned_expiry_monotonic_ns - plan.created_monotonic_ns == dwell_sec
                * 1_000_000_000
            &&& plan.planned_dwell_ms * 1_000_000 == plan.planned_expiry_monotonic_ns
                - plan.created_monotonic_ns
            &&& plan.dispatch.context.cloid == Some(plan.cloid)
            &&& plan.dispatch.context.side == Some(side)
            &&& plan.dispatch.context.oid is None
            &&& plan.dispatch.context.remaining_size is None
            &&& plan.dispatch.context.intent_id@ == "intent-"@ + plan.dispatch.context.action_id@
            &&& plan.dispatch.context.decision_id@ == decision.decision_id@
            &&& plan.dispatch.context.probe_id@ == decision.probe_id@
            &&& decision.trigger_type == Trigger::Timer
            &&& decision.reason_code == Reason::EligibleProbeCell
            &&& decision.candidate_actions@.len() == cells
            &&& decision.selection_probability == binary64::signed(
                false,
                rounding::nearest(pow2(1074), cells as nat),
            )
            &&& decision.planned_expiry_ts_ns is Some
            &&& around.wall_ns + dwell_sec * 1_000_000_000 <= u64::MAX
                ==> decision.planned_expiry_ts_ns->0 == around.wall_ns + dwell_sec * 1_000_000_000
            &&& decision.selected_action == (Action::Place {
                side,
                price_level_ticks: level,
                price: plan.dispatch.context.price->0,
                size: sizing.size_text,
                planned_dwell_sec: dwell_sec,
            })
            &&& decision.random_seed == module.config.probe.behavior_seed
        }),
{
    let levels = module.config.probe.price_levels_ticks@;
    let dwells = module.config.probe.dwell_seconds@;
    placement::law_cells_cover_the_experiment(levels, dwells);
    let n = module.experiment().len();
    assert(2 * levels.len() * dwells.len() == 2 * (levels.len() * dwells.len()))
        by (nonlinear_arith);
    assert(levels.len() * dwells.len() > 0) by (nonlinear_arith)
        requires
            levels.len() > 0,
            dwells.len() > 0,
    ;
    ordering::lemma_whole_number_value(false, n);
    ordering::law_one_over(binary64::whole_number(false, n), n);
}

/// A placed order waits for its answer: all of it is left and nothing filled, the
/// wait counts from the write to the socket, and the answer to its request is its
/// own.
pub proof fn law_placed_orders_wait_for_their_answer(
    before: ExecutionProbe,
    after: ExecutionProbe,
    plan: ProbePlan,
    request_id: u64,
    socket_write_ns: u64,
)
    requires
        before.is_placed(after, plan, request_id, socket_write_ns),
    ensures
        ({
            let probe = after.active_probe->0;
            &&& after.active_probe is Some
            &&& after == (ExecutionProbe { active_probe: after.active_probe, ..before })
            &&& probe.remaining_size == plan.size
            &&& probe.size == plan.size
            &&& probe.cumulative_filled_size.value() == 0
            &&& probe.price == plan.price
            &&& probe.side == plan.side
            &&& probe.tick_size == plan.tick_size
            &&& probe.phase == ProbePhase::PlacePending
            &&& probe.send_monotonic_ns == socket_write_ns
            &&& probe.created_monotonic_ns == plan.created_monotonic_ns
            &&& probe.planned_expiry_monotonic_ns == plan.planned_expiry_monotonic_ns
            &&& probe.planned_dwell_ms == plan.planned_dwell_ms
            &&& probe.cloid == plan.cloid
            &&& probe.probe_id == plan.dispatch.context.probe_id
            &&& probe.decision_id == plan.dispatch.context.decision_id
            &&& probe.action_id == plan.dispatch.context.action_id
            &&& probe.price_level_ticks == plan.price_level_ticks
            &&& probe.last_keep_monotonic_ns == plan.created_monotonic_ns
            &&& probe.post_request_id == request_id
            &&& probe.end_reason is None
            &&& probe.oid is None
            &&& probe.open_monotonic_ns is None
            &&& probe.cancel_request_id is None
            &&& probe.flatten_request_id is None
            &&& probe.flatten_oid is None
            &&& probe.first_fill_monotonic_ns is None
            &&& probe.terminal_order_update_monotonic_ns is None
            &&& after.target(request_id) == PostTarget::Place
        }),
{
    ordering::lemma_zero_value();
}

/// The risk of a decision: what is held, and what would be held if all that still
/// rests were filled, on either side.
pub proof fn law_risk_counts_what_rests(module: ExecutionProbe, writer_remaining: usize)
    requires
        module.account.confirmed_inventory.finite(),
        module.active_probe is Some ==> module.active_probe->0.remaining_size.finite()
            && module.active_probe->0.remaining_size.value() >= 0,
    ensures
        ({
            let risk = module.risk(writer_remaining);
            let held = module.account.confirmed_inventory;
            let bids = module.active_probe is Some && module.active_probe->0.side
                == ProbeSide::Bid;
            let asks = module.active_probe is Some && module.active_probe->0.side
                == ProbeSide::Ask;
            let rest = module.active_probe->0.remaining_size;
            &&& risk.confirmed_inventory == held
            &&& bids ==> risk.pending_bid_inventory == rest && risk.worst_case_long_inventory
                == held.sum(rest)
            &&& asks ==> risk.pending_ask_inventory == rest && risk.worst_case_short_inventory
                == held.difference(rest)
            &&& !bids ==> risk.pending_bid_inventory.value() == 0
                && risk.worst_case_long_inventory.value() == held.value()
            &&& !asks ==> risk.pending_ask_inventory.value() == 0
                && risk.worst_case_short_inventory.value() == held.value()
            &&& risk.worst_case_short_inventory.value() <= held.value()
                <= risk.worst_case_long_inventory.value()
            &&& risk.account_value == module.account.account_value
            &&& risk.withdrawable == module.account.withdrawable
            &&& risk.maker_fee == module.account.maker_fee
            &&& risk.taker_fee == module.account.taker_fee
            &&& risk.writer_remaining_capacity == writer_remaining
            &&& match (module.account.requests_cap, module.account.requests_used) {
                (Some(cap), Some(used)) => risk.action_budget_remaining == Some(
                    if cap >= used {
                        (cap - used) as u64
                    } else {
                        0
                    },
                ),
                _ => risk.action_budget_remaining is None,
            }
        }),
{
    let held = module.account.confirmed_inventory;
    ordering::lemma_zero_value();
    ordering::law_nothing_moves_nothing(held, ordering::zero());
    if module.active_probe is Some {
        ordering::law_sizes_move_numbers(held, module.active_probe->0.remaining_size);
    }
}

} // verus!
