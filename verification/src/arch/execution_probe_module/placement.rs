//! The start of a probe: who may start, which cell is drawn, what is sent.
use vstd::prelude::*;
use crate::arch::action_gateway;
use crate::arch::action_gateway::ActionContext;
use crate::arch::records::Action;
use crate::arch::signing;
use crate::arch::vocabulary::{Reason, Trigger};
use crate::binary64;
use crate::binary64::Binary64;
use crate::constants;
use crate::constants::{HALF, ONE, ZERO};
use crate::decimal;
use crate::decimal::read;
use crate::notation;
use crate::text;
use crate::text::{numbered, owned};
use super::base;
use super::base::{Choice, ExecutionProbe, LATEST_NS, ProbeError, Surroundings, draw};
use super::connections;
use super::connections::generation;
use super::flatten::FlattenNeed;
use super::orders;
use super::orders::Dispatch;
use super::state;
use super::state::{ActiveProbe, ProbePhase, ProbeSide, QueueBelief};
use super::utils;
use super::utils::{
    hyperliquid_tick_size, make_cloid, minimum_probe_size, round_price_to_tick,
};

verus! {

/// The cells of a side and a level, one for each dwell.
pub open spec fn level_cells(side: ProbeSide, level: u32, dwells: Seq<u64>) -> Seq<Action> {
    Seq::new(
        dwells.len(),
        |i: int|
            Action::Cell { side, price_level_ticks: level, planned_dwell_sec: dwells[i] },
    )
}

/// The cells of a side.
pub open spec fn side_cells(side: ProbeSide, levels: Seq<u32>, dwells: Seq<u64>) -> Seq<Action>
    decreases levels.len(),
{
    if levels.len() == 0 {
        Seq::empty()
    } else {
        side_cells(side, levels.drop_last(), dwells) + level_cells(side, levels.last(), dwells)
    }
}

/// The cells of the experiment: every side, level and dwell.
pub open spec fn cells(levels: Seq<u32>, dwells: Seq<u64>) -> Seq<Action> {
    side_cells(ProbeSide::Bid, levels, dwells) + side_cells(ProbeSide::Ask, levels, dwells)
}

/// A cell with one of the levels and one of the dwells.
pub open spec fn is_cell_of(action: Action, levels: Seq<u32>, dwells: Seq<u64>) -> bool {
    action matches Action::Cell { side, price_level_ticks, planned_dwell_sec } && levels.contains(
        price_level_ticks,
    ) && dwells.contains(planned_dwell_sec)
}

proof fn lemma_side_cells(side: ProbeSide, levels: Seq<u32>, dwells: Seq<u64>)
    ensures
        side_cells(side, levels, dwells).len() == levels.len() * dwells.len(),
        forall|i: int|
            0 <= i < side_cells(side, levels, dwells).len() ==> is_cell_of(
                #[trigger] side_cells(side, levels, dwells)[i],
                levels,
                dwells,
            ),
    decreases levels.len(),
{
    if levels.len() > 0 {
        let fewer = levels.drop_last();
        lemma_side_cells(side, fewer, dwells);
        let all = side_cells(side, levels, dwells);
        let before = side_cells(side, fewer, dwells);
        let added = level_cells(side, levels.last(), dwells);
        assert(fewer.len() * dwells.len() + dwells.len() == levels.len() * dwells.len())
            by (nonlinear_arith)
            requires
                fewer.len() + 1 == levels.len(),
        ;
        assert forall|i: int| 0 <= i < all.len() implies is_cell_of(
            #[trigger] all[i],
            levels,
            dwells,
        ) by {
            if i < before.len() {
                assert(all[i] == before[i]);
                let price_level_ticks = before[i]->Cell_price_level_ticks;
                let j = choose|j: int| 0 <= j < fewer.len() && fewer[j] == price_level_ticks;
                assert(levels[j] == price_level_ticks);
            } else {
                let k = i - before.len();
                assert(all[i] == added[k]);
                assert(levels[levels.len() - 1] == levels.last());
                assert(dwells[k] == added[k]->Cell_planned_dwell_sec);
            }
        }
    }
}

/// The experiment has two sides times the levels times the dwells as its cells,
/// and every cell has one of the levels and one of the dwells.
pub proof fn law_cells_cover_the_experiment(levels: Seq<u32>, dwells: Seq<u64>)
    ensures
        cells(levels, dwells).len() == 2 * (levels.len() * dwells.len()),
        forall|i: int|
            0 <= i < cells(levels, dwells).len() ==> is_cell_of(
                #[trigger] cells(levels, dwells)[i],
                levels,
                dwells,
            ),
{
    lemma_side_cells(ProbeSide::Bid, levels, dwells);
    lemma_side_cells(ProbeSide::Ask, levels, dwells);
    let all = cells(levels, dwells);
    let bids = side_cells(ProbeSide::Bid, levels, dwells);
    let asks = side_cells(ProbeSide::Ask, levels, dwells);
    assert forall|i: int| 0 <= i < all.len() implies is_cell_of(
        #[trigger] all[i],
        levels,
        dwells,
    ) by {
        if i < bids.len() {
            assert(all[i] == bids[i]);
        } else {
            assert(all[i] == asks[i - bids.len()]);
        }
    }
}

/// Every side, level and dwell has its cell.
pub proof fn law_no_cell_is_missing(
    levels: Seq<u32>,
    dwells: Seq<u64>,
    side: ProbeSide,
    l: int,
    d: int,
)
    requires
        0 <= l < levels.len(),
        0 <= d < dwells.len(),
    ensures
        cells(levels, dwells).contains(
            Action::Cell { side, price_level_ticks: levels[l], planned_dwell_sec: dwells[d] },
        ),
{
    let cell = Action::Cell { side, price_level_ticks: levels[l], planned_dwell_sec: dwells[d] };
    let part = side_cells(side, levels, dwells);
    lemma_cell_present(side, levels, dwells, l, d);
    let i = choose|i: int| 0 <= i < part.len() && part[i] == cell;
    let bids = side_cells(ProbeSide::Bid, levels, dwells);
    if side == ProbeSide::Bid {
        assert(cells(levels, dwells)[i] == cell);
    } else {
        assert(cells(levels, dwells)[bids.len() + i] == cell);
    }
}

proof fn lemma_cell_present(
    side: ProbeSide,
    levels: Seq<u32>,
    dwells: Seq<u64>,
    l: int,
    d: int,
)
    requires
        0 <= l < levels.len(),
        0 <= d < dwells.len(),
    ensures
        side_cells(side, levels, dwells).contains(
            Action::Cell { side, price_level_ticks: levels[l], planned_dwell_sec: dwells[d] },
        ),
    decreases levels.len(),
{
    let cell = Action::Cell { side, price_level_ticks: levels[l], planned_dwell_sec: dwells[d] };
    let fewer = levels.drop_last();
    let before = side_cells(side, fewer, dwells);
    let all = side_cells(side, levels, dwells);
    if l < fewer.len() {
        lemma_cell_present(side, fewer, dwells, l, d);
        let i = choose|i: int| 0 <= i < before.len() && before[i] == cell;
        assert(all[i] == cell);
    } else {
        assert(all[before.len() + d] == cell);
    }
}

/// The cells of a side all have it, and differ where no level and no dwell is
/// given twice.
proof fn lemma_side_cells_differ(side: ProbeSide, levels: Seq<u32>, dwells: Seq<u64>)
    requires
        levels.no_duplicates(),
        dwells.no_duplicates(),
    ensures
        side_cells(side, levels, dwells).no_duplicates(),
        forall|i: int|
            0 <= i < side_cells(side, levels, dwells).len() ==> (#[trigger] side_cells(
                side,
                levels,
                dwells,
            )[i]) is Cell && side_cells(side, levels, dwells)[i]->Cell_side == side,
    decreases levels.len(),
{
    if levels.len() > 0 {
        let fewer = levels.drop_last();
        lemma_side_cells_differ(side, fewer, dwells);
        lemma_side_cells(side, fewer, dwells);
        let all = side_cells(side, levels, dwells);
        let before = side_cells(side, fewer, dwells);
        let added = level_cells(side, levels.last(), dwells);
        assert forall|i: int| 0 <= i < all.len() implies (#[trigger] all[i]) is Cell
            && all[i]->Cell_side == side && (i < before.len() <==> all[i]->Cell_price_level_ticks
            != levels.last()) by {
            if i < before.len() {
                assert(is_cell_of(before[i], fewer, dwells));
                let level = before[i]->Cell_price_level_ticks;
                let j = choose|j: int| 0 <= j < fewer.len() && fewer[j] == level;
                assert(levels[j] == level && levels[levels.len() - 1] == levels.last());
            } else {
                assert(all[i] == added[i - before.len()]);
            }
        }
        assert forall|i: int, j: int|
            0 <= i < all.len() && 0 <= j < all.len() && i != j implies all[i] != all[j] by {
            if i < before.len() && j < before.len() {
                assert(before[i] != before[j]);
            } else if i >= before.len() && j >= before.len() {
                assert(dwells[i - before.len()] != dwells[j - before.len()]);
            }
        }
    }
}

/// No cell has two numbers where no level and no dwell is given twice: a number
/// that is drawn uniformly takes every cell with the same probability.
pub proof fn law_no_cell_has_two_numbers(levels: Seq<u32>, dwells: Seq<u64>)
    requires
        levels.no_duplicates(),
        dwells.no_duplicates(),
    ensures
        cells(levels, dwells).no_duplicates(),
{
    lemma_side_cells_differ(ProbeSide::Bid, levels, dwells);
    lemma_side_cells_differ(ProbeSide::Ask, levels, dwells);
    let all = cells(levels, dwells);
    let bids = side_cells(ProbeSide::Bid, levels, dwells);
    let asks = side_cells(ProbeSide::Ask, levels, dwells);
    assert forall|i: int, j: int|
        0 <= i < all.len() && 0 <= j < all.len() && i != j implies all[i] != all[j] by {
        assert(all[i] == (if i < bids.len() {
            bids[i]
        } else {
            asks[i - bids.len()]
        }));
        assert(all[j] == (if j < bids.len() {
            bids[j]
        } else {
            asks[j - bids.len()]
        }));
    }
}

fn push_side_cells(out: &mut Vec<Action>, side: ProbeSide, levels: &Vec<u32>, dwells: &Vec<u64>)
    ensures
        final(out)@ == old(out)@ + side_cells(side, levels@, dwells@),
{
    let ghost start = out@;
    let mut l: usize = 0;
    proof {
        assert(levels@.take(0) =~= Seq::<u32>::empty());
        assert(out@ =~= start + side_cells(side, levels@.take(0), dwells@));
    }
    while l < levels.len()
        invariant
            l <= levels@.len(),
            out@ == start + side_cells(side, levels@.take(l as int), dwells@),
        decreases levels@.len() - l,
    {
        let level = levels[l];
        let ghost row = out@;
        let mut d: usize = 0;
        proof {
            assert(out@ =~= row + level_cells(side, level, dwells@).take(0));
        }
        while d < dwells.len()
            invariant
                d <= dwells@.len(),
                out@ == row + level_cells(side, level, dwells@).take(d as int),
            decreases dwells@.len() - d,
        {
            out.push(
                Action::Cell { side, price_level_ticks: level, planned_dwell_sec: dwells[d] },
            );
            d = d + 1;
            proof {
                assert(out@ =~= row + level_cells(side, level, dwells@).take(d as int));
            }
        }
        proof {
            let full = level_cells(side, level, dwells@);
            assert(full.take(full.len() as int) =~= full);
            assert(levels@.take(l as int + 1).drop_last() =~= levels@.take(l as int));
            assert(out@ =~= start + side_cells(side, levels@.take(l as int + 1), dwells@));
        }
        l = l + 1;
    }
    proof {
        assert(levels@.take(levels@.len() as int) =~= levels@);
    }
}

/// The size and the grid of the next order.
#[derive(Debug)]
pub struct Sizing {
    pub best_bid: Binary64,
    pub best_ask: Binary64,
    pub tick: Binary64,
    pub size: Binary64,
    pub size_text: String,
}

/// An order that is ready to be placed.
#[derive(Debug)]
pub struct ProbePlan {
    pub dispatch: Dispatch,
    pub cloid: String,
    pub side: ProbeSide,
    pub price_level_ticks: u32,
    pub price: Binary64,
    pub tick_size: Binary64,
    pub size: Binary64,
    pub created_monotonic_ns: u64,
    pub planned_expiry_monotonic_ns: u64,
    pub planned_dwell_ms: u64,
}

impl ExecutionProbe {
    /// The cells of the experiment.
    pub open spec fn experiment(self) -> Seq<Action> {
        cells(self.config.probe.price_levels_ticks@, self.config.probe.dwell_seconds@)
    }

    /// The cells of the experiment.
    pub fn probe_candidates(&self) -> (r: Vec<Action>)
        ensures
            r@ == self.experiment(),
    {
        let mut out: Vec<Action> = Vec::new();
        push_side_cells(
            &mut out,
            ProbeSide::Bid,
            &self.config.probe.price_levels_ticks,
            &self.config.probe.dwell_seconds,
        );
        push_side_cells(
            &mut out,
            ProbeSide::Ask,
            &self.config.probe.price_levels_ticks,
            &self.config.probe.dwell_seconds,
        );
        proof {
            assert(out@ =~= self.experiment());
        }
        out
    }

    /// The connection of a task has been started.
    pub open spec fn is_started(self, task_id: u64) -> bool {
        connections::generation_of(self.connections@, task_id) > 0
    }

    /// Every feed has been connected at least once.
    pub open spec fn all_started(self) -> bool {
        forall|task_id: u64| #[trigger]
            self.feed_plans@.contains_key(task_id) ==> self.is_started(task_id)
    }

    pub fn all_connections_started(&self) -> (r: bool)
        ensures
            r == self.all_started(),
    {
        for task_id in tasks: self.feed_plans.keys()
            invariant
                tasks.seq().unref().to_set() == self.feed_plans@.dom(),
                forall|j: int| 0 <= j < tasks.index() ==> self.is_started(*#[trigger] tasks.seq()[j]),
        {
            proof {
                assert(tasks.seq().unref()[tasks.index()] == *task_id);
                assert(tasks.seq().unref().to_set().contains(*task_id));
            }
            if generation(&self.connections, *task_id) == 0 {
                return false;
            }
        }
        true
    }

    /// The account allows a new order: its state is known and recent, nothing is
    /// open, nothing is held, and money and requests are left.
    pub open spec fn account_is_ready(self, now_ns: u64) -> bool {
        &&& self.account.rest_snapshot_healthy
        &&& self.account.snapshot_monotonic_ns != 0
        &&& state::elapsed(now_ns, self.account.snapshot_monotonic_ns)
            <= self.config.collector.account_snapshot_interval_sec * 2_000_000_000
        &&& self.account.open_order_count == 0
        &&& self.account.withdrawable is Some
        &&& !self.account.withdrawable->0.below(self.config.probe.max_order_notional_usd)
        &&& self.account.lot_size is Some
        &&& self.account.size_decimals is Some
        &&& !self.account.lot().product(constants::number(HALF)).below(
            self.account.confirmed_inventory.absolute(),
        )
        &&& self.account.budget() is Some
        &&& self.account.budget()->0 >= 10
    }

    /// A probe may start: none is active, the cooldown is over, no markout is
    /// waited for, and the market, the connections, the account and the store are
    /// ready.
    pub open spec fn is_eligible(self, around: Surroundings) -> bool {
        &&& self.config.probe.enabled
        &&& self.active_probe is None
        &&& around.monotonic_ns >= self.cooldown_until_ns
        &&& self.pending_markouts@.len() == 0
        &&& self.market.quotes_are_fresh(
            around.monotonic_ns,
            (self.config.probe.market_freshness_ms * 1_000_000) as u64,
            (self.config.probe.default_l2_freshness_ms * 1_000_000) as u64,
        )
        &&& self.all_started()
        &&& self.account_is_ready(around.monotonic_ns)
        &&& around.writer_remaining >= self.config.collector.writer_capacity / 2
        &&& around.writer_remaining >= 1
    }

    fn account_ready(&self, now_ns: u64) -> (r: bool)
        requires
            self.is_sound(),
        ensures
            r == self.account_is_ready(now_ns),
    {
        let withdrawable = match self.account.withdrawable {
            Some(withdrawable) => !withdrawable.lt(self.config.probe.max_order_notional_usd),
            None => false,
        };
        let budget = match self.account.action_budget_remaining() {
            Some(remaining) => remaining >= 10,
            None => false,
        };
        self.account.rest_snapshot_healthy && self.account.snapshot_monotonic_ns != 0
            && now_ns.saturating_sub(self.account.snapshot_monotonic_ns)
            <= self.config.collector.account_snapshot_interval_sec * 2_000_000_000
            && self.account.open_order_count == 0 && withdrawable && self.account.lot_size.is_some()
            && self.account.size_decimals.is_some() && !self.account.lot_or_default().times(
            Binary64 { bits: HALF },
        ).lt(self.account.confirmed_inventory.abs()) && budget
    }

    /// Whether a probe may start.
    pub fn eligible(&self, around: Surroundings) -> (r: bool)
        requires
            self.is_sound(),
        ensures
            r == self.is_eligible(around),
    {
        if !self.config.probe.enabled || self.active_probe.is_some() {
            return false;
        }
        let now_ns = around.monotonic_ns;
        if now_ns < self.cooldown_until_ns || self.pending_markouts.len() > 0 {
            return false;
        }
        let freshness_ns = self.config.probe.market_freshness_ms * 1_000_000;
        let default_l2_freshness_ns = self.config.probe.default_l2_freshness_ms * 1_000_000;
        self.market.required_quotes_fresh(now_ns, freshness_ns, default_l2_freshness_ns)
            && self.all_connections_started() && self.account_ready(now_ns)
            && around.writer_remaining >= self.config.collector.writer_capacity / 2
            && around.writer_remaining >= 1
    }

    /// The middle of the best prices from which the next order is sized.
    pub open spec fn placement_middle(self) -> Option<Binary64> {
        match (self.market.hl_bbo.bid(), self.market.hl_bbo.ask()) {
            (Some(bid), Some(ask)) => Some(bid.sum(ask).product(constants::number(HALF))),
            _ => None,
        }
    }

    /// The middle of the best prices from which the next order is sized.
    pub fn placement_reference(&self) -> (r: Option<Binary64>)
        ensures
            r == self.placement_middle(),
    {
        match (self.market.hl_bbo.best_bid(), self.market.hl_bbo.best_ask()) {
            (Some(bid), Some(ask)) => Some(bid.plus(ask).times(Binary64 { bits: HALF })),
            _ => None,
        }
    }

    /// The price step of the next order.
    pub open spec fn placement_tick(self, log10_middle: Binary64) -> Option<Binary64> {
        match (self.placement_middle(), self.account.size_decimals) {
            (Some(middle), Some(decimals)) => utils::tick_size(middle, decimals, log10_middle),
            _ => None,
        }
    }

    /// The text of the size of the next order.
    pub open spec fn placement_size_text(self) -> Option<Seq<char>> {
        match self.placement_middle() {
            Some(middle) => utils::probe_size(
                self.config.probe.probe_notional_usd,
                middle,
                self.account.lot(),
            ),
            None => None,
        }
    }

    /// The order can be sized at all.
    pub open spec fn is_sizable(self, log10_middle: Binary64) -> bool {
        self.placement_tick(log10_middle) is Some && self.placement_size_text() is Some
    }

    /// The size of the next order.
    pub open spec fn placement_size(self) -> Option<Binary64> {
        decimal::reading(self.placement_size_text()->0)
    }

    /// The next order is worth no more than an order may be, but for one tick.
    pub open spec fn is_within_cap(self, log10_middle: Binary64) -> bool {
        let size = self.placement_size()->0;
        let tick = self.placement_tick(log10_middle)->0;
        !self.config.probe.max_order_notional_usd.sum(tick.product(size)).below(
            size.product(self.placement_middle()->0),
        )
    }

    /// Sizes the next order. `log10_middle` is the base-ten logarithm of
    /// [`Self::placement_reference`].
    pub fn size_order(&self, log10_middle: Binary64) -> (r: Result<Option<Sizing>, ProbeError>)
        requires
            -400 <= log10_middle.floored().truncated() <= 400,
        ensures
            match r {
                Ok(Some(sizing)) => {
                    &&& self.is_sizable(log10_middle)
                    &&& self.placement_size() == Some(sizing.size)
                    &&& self.is_within_cap(log10_middle)
                    &&& sizing.size_text@ == self.placement_size_text()->0
                    &&& sizing.tick == self.placement_tick(log10_middle)->0
                    &&& self.market.hl_bbo.bid() == Some(sizing.best_bid)
                    &&& self.market.hl_bbo.ask() == Some(sizing.best_ask)
                },
                Ok(None) => !self.is_sizable(log10_middle),
                Err(ProbeError::ProbeSizeUnreadable) => self.is_sizable(log10_middle)
                    && self.placement_size() is None,
                Err(ProbeError::NotionalAboveCap { notional, cap }) => {
                    &&& self.is_sizable(log10_middle)
                    &&& self.placement_size() is Some
                    &&& !self.is_within_cap(log10_middle)
                    &&& notional == self.placement_size()->0.product(self.placement_middle()->0)
                    &&& cap == self.config.probe.max_order_notional_usd
                },
                Err(_) => false,
            },
    {
        let (best_bid, best_ask) = match (
            self.market.hl_bbo.best_bid(),
            self.market.hl_bbo.best_ask(),
        ) {
            (Some(best_bid), Some(best_ask)) => (best_bid, best_ask),
            _ => {
                return Ok(None);
            },
        };
        let middle = best_bid.plus(best_ask).times(Binary64 { bits: HALF });
        let size_decimals = match self.account.size_decimals {
            Some(size_decimals) => size_decimals,
            None => {
                return Ok(None);
            },
        };
        let tick = match hyperliquid_tick_size(middle, size_decimals, log10_middle) {
            Some(tick) => tick,
            None => {
                return Ok(None);
            },
        };
        let lot_size = self.account.lot_or_default();
        let size_text = match minimum_probe_size(
            self.config.probe.probe_notional_usd,
            middle,
            lot_size,
        ) {
            Some(size_text) => size_text,
            None => {
                return Ok(None);
            },
        };
        let size = match read(size_text.as_str()) {
            Some(size) => size,
            None => {
                return Err(ProbeError::ProbeSizeUnreadable);
            },
        };
        let cap = self.config.probe.max_order_notional_usd;
        let notional = size.times(middle);
        if cap.plus(tick.times(size)).lt(notional) {
            return Err(ProbeError::NotionalAboveCap { notional, cap });
        }
        Ok(Some(Sizing { best_bid, best_ask, tick, size, size_text }))
    }

    /// The price of a level before it is put on the grid: behind the best price
    /// of its own side.
    pub open spec fn level_price(
        best_bid: Binary64,
        best_ask: Binary64,
        tick: Binary64,
        side: ProbeSide,
        level: u32,
    ) -> Binary64 {
        let offset = binary64::whole_number(false, level as nat).product(tick);
        match side {
            ProbeSide::Bid => best_bid.difference(offset),
            ProbeSide::Ask => best_ask.sum(offset),
        }
    }

    /// The text of the price of a level, on the grid and away from the market.
    pub open spec fn level_price_text(
        best_bid: Binary64,
        best_ask: Binary64,
        tick: Binary64,
        side: ProbeSide,
        level: u32,
    ) -> Option<Seq<char>> {
        utils::grid_price(
            Self::level_price(best_bid, best_ask, tick, side, level),
            tick,
            side == ProbeSide::Ask,
        )
    }

    /// The text of the price of a cell.
    pub open spec fn cell_price_text(sizing: Sizing, side: ProbeSide, level: u32) -> Option<Seq<char>> {
        Self::level_price_text(sizing.best_bid, sizing.best_ask, sizing.tick, side, level)
    }

    /// The price of a cell can be written and read.
    pub open spec fn is_priced(self, log10_middle: Binary64, cell: Action) -> bool {
        cell matches Action::Cell { side, price_level_ticks, .. } && {
            let price_text = Self::level_price_text(
                self.market.hl_bbo.bid()->0,
                self.market.hl_bbo.ask()->0,
                self.placement_tick(log10_middle)->0,
                side,
                price_level_ticks,
            );
            price_text is Some && decimal::reading(price_text->0) is Some
        }
    }

    /// A probe may start and its order can be sized within the cap.
    pub open spec fn is_ready(self, around: Surroundings, log10_middle: Binary64) -> bool {
        self.is_eligible(around) && self.is_sizable(log10_middle) && self.placement_size() is Some
            && self.is_within_cap(log10_middle)
    }

    /// The module after it has numbered a probe, a decision and an action.
    pub open spec fn after_probe_ids(self) -> ExecutionProbe {
        ExecutionProbe {
            probe_sequence: action_gateway::successor(self.probe_sequence),
            ..self
        }.after_ids()
    }

    /// The plan of an order in a cell.
    pub open spec fn plans(
        self,
        plan: ProbePlan,
        sizing: Sizing,
        side: ProbeSide,
        level: u32,
        dwell_sec: u64,
        around: Surroundings,
    ) -> bool {
        let number = action_gateway::successor(self.probe_sequence);
        let probe_id = "probe-"@ + text::digits(number as nat);
        let all = self.experiment();
        let context = plan.dispatch.context;
        let selected = plan.dispatch.decision.selected_action;
        &&& plan.side == side
        &&& plan.price_level_ticks == level
        &&& Self::cell_price_text(sizing, side, level) is Some
        &&& decimal::reading(Self::cell_price_text(sizing, side, level)->0) == Some(plan.price)
        &&& plan.tick_size == sizing.tick
        &&& plan.size == sizing.size
        &&& plan.created_monotonic_ns == around.monotonic_ns
        &&& plan.planned_expiry_monotonic_ns == around.monotonic_ns + dwell_sec * 1_000_000_000
        &&& plan.planned_dwell_ms == dwell_sec * 1_000
        &&& plan.cloid@ == utils::cloid_text(self.identity.run_id@, number)
        &&& utils::is_cloid(plan.cloid@)
        &&& context.action_id@ == self.next_action_text()
        &&& context.probe_id@ == probe_id
        &&& context.decision_id@ == self.next_decision_text()
        &&& context.intent_id@ == "intent-"@ + self.next_action_text()
        &&& context.cloid == Some(plan.cloid)
        &&& context.oid is None
        &&& context.side == Some(side)
        &&& text::optional_text(context.price) == Self::cell_price_text(sizing, side, level)
        &&& context.size == Some(sizing.size_text)
        &&& context.remaining_size is None
        &&& selected == Action::Place {
            side,
            price_level_ticks: level,
            price: context.price->0,
            size: sizing.size_text,
            planned_dwell_sec: dwell_sec,
        }
        &&& self.after_probe_ids().writes_down(
            plan.dispatch.decision,
            base::ChoiceView {
                probe_id,
                decision_id: self.next_decision_text(),
                trigger: Trigger::Timer,
                candidates: all,
                selected,
                probability: constants::number(ONE).quotient(
                    binary64::whole_number(false, all.len()),
                ),
                planned_expiry_ts_ns: Some(
                    orders::capped_sum(around.wall_ns, (dwell_sec * 1_000_000_000) as u64),
                ),
                random_seed: self.config.probe.behavior_seed,
                reason: Reason::EligibleProbeCell,
            },
            around,
        )
    }

    /// Plans an order in a cell: its price on the grid, its ids, and the record
    /// of the decision.
    pub fn plan_cell(
        &mut self,
        sizing: Sizing,
        candidates: Vec<Action>,
        side: ProbeSide,
        level: u32,
        dwell_sec: u64,
        around: Surroundings,
    ) -> (r: Result<ProbePlan, ProbeError>)
        requires
            old(self).is_sound(),
            around.monotonic_ns <= LATEST_NS,
            dwell_sec * 1_000_000_000 <= LATEST_NS,
            candidates@ == old(self).experiment(),
        ensures
            final(self).is_sound(),
            match r {
                Ok(plan) => *final(self) == old(self).after_probe_ids().after_event() && old(
                    self,
                ).plans(plan, sizing, side, level, dwell_sec, around),
                Err(ProbeError::ProbePriceNotRounded) => *final(self) == *old(self)
                    && Self::cell_price_text(sizing, side, level) is None,
                Err(ProbeError::ProbePriceUnreadable) => *final(self) == *old(self)
                    && Self::cell_price_text(sizing, side, level) is Some && decimal::reading(
                    Self::cell_price_text(sizing, side, level)->0,
                ) is None,
                Err(_) => false,
            },
    {
        let offset = Binary64::from_u64(level as u64).times(sizing.tick);
        let raw_price = match side {
            ProbeSide::Bid => sizing.best_bid.minus(offset),
            ProbeSide::Ask => sizing.best_ask.plus(offset),
        };
        let price_text = match round_price_to_tick(
            raw_price,
            sizing.tick,
            side == ProbeSide::Ask,
        ) {
            Some(price_text) => price_text,
            None => {
                return Err(ProbeError::ProbePriceNotRounded);
            },
        };
        let price = match read(price_text.as_str()) {
            Some(price) => price,
            None => {
                return Err(ProbeError::ProbePriceUnreadable);
            },
        };
        let dwell_ns = dwell_sec * 1_000_000_000;
        self.probe_sequence = self.probe_sequence.saturating_add(1);
        let probe_id = numbered("probe-", self.probe_sequence);
        let cloid = make_cloid(self.identity.run_id.as_str(), self.probe_sequence);
        let decision_id = self.next_decision_id();
        let action_id = self.next_action_id();
        let count = candidates.len();
        let probability = Binary64 { bits: ONE }.over(Binary64::from_u64(count as u64));
        let decision = self.build_decision(
            Choice {
                probe_id: probe_id.clone(),
                decision_id: decision_id.clone(),
                trigger: Trigger::Timer,
                candidates,
                selected: Action::Place {
                    side,
                    price_level_ticks: level,
                    price: price_text.clone(),
                    size: sizing.size_text.clone(),
                    planned_dwell_sec: dwell_sec,
                },
                probability,
                planned_expiry_ts_ns: Some(around.wall_ns.saturating_add(dwell_ns)),
                random_seed: self.config.probe.behavior_seed,
                reason: Reason::EligibleProbeCell,
            },
            around,
        );
        let mut intent_id = owned("intent-");
        intent_id.append(action_id.as_str());
        let context = ActionContext {
            action_id,
            probe_id,
            decision_id,
            intent_id,
            cloid: Some(cloid.clone()),
            oid: None,
            side: Some(side),
            price: Some(price_text),
            size: Some(sizing.size_text),
            remaining_size: None,
        };
        Ok(
            ProbePlan {
                dispatch: Dispatch { decision, context },
                cloid,
                side,
                price_level_ticks: level,
                price,
                tick_size: sizing.tick,
                size: sizing.size,
                created_monotonic_ns: around.monotonic_ns,
                planned_expiry_monotonic_ns: around.monotonic_ns + dwell_ns,
                planned_dwell_ms: dwell_sec * 1_000,
            },
        )
    }

    /// Some sizing and some cell of the experiment lead to the plan.
    pub open spec fn plans_some_cell(
        self,
        plan: ProbePlan,
        log10_middle: Binary64,
        around: Surroundings,
    ) -> bool {
        exists|sizing: Sizing, i: int|
            {
                &&& 0 <= i < self.experiment().len()
                &&& sizing.tick == self.placement_tick(log10_middle)->0
                &&& sizing.size == self.placement_size()->0
                &&& sizing.size_text@ == self.placement_size_text()->0
                &&& self.market.hl_bbo.bid() == Some(sizing.best_bid)
                &&& self.market.hl_bbo.ask() == Some(sizing.best_ask)
                &&& #[trigger] self.plans_cell(plan, sizing, self.experiment()[i], around)
            }
    }

    /// The plan of an order in a cell.
    pub open spec fn plans_cell(
        self,
        plan: ProbePlan,
        sizing: Sizing,
        cell: Action,
        around: Surroundings,
    ) -> bool {
        cell matches Action::Cell { side, price_level_ticks, planned_dwell_sec } && self.plans(
            plan,
            sizing,
            side,
            price_level_ticks,
            planned_dwell_sec,
            around,
        )
    }

    /// The text of the price of a cell of the experiment.
    pub open spec fn drawn_price_text(sizing: Sizing, cell: Action) -> Option<Seq<char>> {
        match cell {
            Action::Cell { side, price_level_ticks, .. } => Self::cell_price_text(
                sizing,
                side,
                price_level_ticks,
            ),
            _ => None,
        }
    }

    /// Plans an order in the cell with the number that was drawn, whichever it is.
    pub fn plan_drawn(
        &mut self,
        sizing: Sizing,
        candidates: Vec<Action>,
        drawn: usize,
        around: Surroundings,
    ) -> (r: Result<ProbePlan, ProbeError>)
        requires
            old(self).is_sound(),
            around.monotonic_ns <= LATEST_NS,
            candidates@ == old(self).experiment(),
            drawn < candidates@.len(),
        ensures
            final(self).is_sound(),
            ({
                let cell = old(self).experiment()[drawn as int];
                let price_text = Self::drawn_price_text(sizing, cell);
                match r {
                    Ok(plan) => *final(self) == old(self).after_probe_ids().after_event() && old(
                        self,
                    ).plans_cell(plan, sizing, cell, around),
                    Err(ProbeError::ProbePriceNotRounded) => *final(self) == *old(self)
                        && price_text is None,
                    Err(ProbeError::ProbePriceUnreadable) => *final(self) == *old(self)
                        && price_text is Some && decimal::reading(price_text->0) is None,
                    Err(_) => false,
                }
            }),
    {
        let ghost levels = self.config.probe.price_levels_ticks@;
        let ghost dwells = self.config.probe.dwell_seconds@;
        proof {
            law_cells_cover_the_experiment(levels, dwells);
            assert(is_cell_of(cells(levels, dwells)[drawn as int], levels, dwells));
        }
        let (side, level, dwell_sec) = match &candidates[drawn] {
            Action::Cell { side, price_level_ticks, planned_dwell_sec } => (
                *side,
                *price_level_ticks,
                *planned_dwell_sec,
            ),
            _ => (ProbeSide::Bid, 0, 30),
        };
        proof {
            let j = choose|j: int| 0 <= j < dwells.len() && dwells[j] == dwell_sec;
            assert(dwells[j] * 1_000_000_000 <= LATEST_NS);
        }
        self.plan_cell(sizing, candidates, side, level, dwell_sec, around)
    }

    /// Starts a probe where one may start: draws a cell of the experiment and
    /// plans an order in it. Which number is drawn is left to chance; the plan for
    /// each number is that of [`Self::plan_drawn`].
    pub fn maybe_start_probe(&mut self, around: Surroundings, log10_middle: Binary64) -> (r: Result<
        Option<ProbePlan>,
        ProbeError,
    >)
        requires
            old(self).is_sound(),
            around.monotonic_ns <= LATEST_NS,
            -400 <= log10_middle.floored().truncated() <= 400,
        ensures
            final(self).is_sound(),
            old(self).is_ready(around, log10_middle) && (forall|i: int|
                0 <= i < old(self).experiment().len() ==> old(self).is_priced(
                    log10_middle,
                    #[trigger] old(self).experiment()[i],
                )) ==> r is Ok && r->Ok_0 is Some,
            match r {
                Ok(Some(plan)) => {
                    &&& old(self).is_ready(around, log10_middle)
                    &&& *final(self) == (ExecutionProbe {
                        rng: final(self).rng,
                        ..old(self).after_probe_ids().after_event()
                    })
                    &&& (ExecutionProbe { rng: final(self).rng, ..*old(self) }).plans_some_cell(
                        plan,
                        log10_middle,
                        around,
                    )
                },
                Ok(None) => *final(self) == *old(self) && (!old(self).is_eligible(around) || !old(
                    self,
                ).is_sizable(log10_middle)),
                Err(ProbeError::ProbeSizeUnreadable) => *final(self) == *old(self) && old(
                    self,
                ).is_eligible(around) && old(self).is_sizable(log10_middle) && old(
                    self,
                ).placement_size() is None,
                Err(ProbeError::NotionalAboveCap { notional, cap }) => {
                    &&& *final(self) == *old(self)
                    &&& old(self).is_eligible(around)
                    &&& old(self).is_sizable(log10_middle)
                    &&& old(self).placement_size() is Some
                    &&& !old(self).is_within_cap(log10_middle)
                    &&& notional == old(self).placement_size()->0.product(
                        old(self).placement_middle()->0,
                    )
                    &&& cap == old(self).config.probe.max_order_notional_usd
                },
                Err(error) => {
                    &&& error is ProbePriceNotRounded || error is ProbePriceUnreadable
                    &&& *final(self) == (ExecutionProbe { rng: final(self).rng, ..*old(self) })
                    &&& old(self).is_ready(around, log10_middle)
                    &&& exists|i: int|
                        0 <= i < old(self).experiment().len() && !old(self).is_priced(
                            log10_middle,
                            #[trigger] old(self).experiment()[i],
                        )
                },
            },
    {
        if !self.eligible(around) {
            return Ok(None);
        }
        let sizing = match self.size_order(log10_middle) {
            Ok(Some(sizing)) => sizing,
            Ok(None) => {
                return Ok(None);
            },
            Err(error) => {
                return Err(error);
            },
        };
        let candidates = self.probe_candidates();
        let ghost levels = self.config.probe.price_levels_ticks@;
        let ghost dwells = self.config.probe.dwell_seconds@;
        proof {
            law_cells_cover_the_experiment(levels, dwells);
            assert(levels.len() * dwells.len() > 0) by (nonlinear_arith)
                requires
                    levels.len() > 0,
                    dwells.len() > 0,
            ;
        }
        let drawn = draw(&mut self.rng, candidates.len());
        let ghost before = *self;
        let ghost taken = sizing;
        match self.plan_drawn(sizing, candidates, drawn, around) {
            Ok(plan) => {
                proof {
                    assert(before.plans_cell(
                        plan,
                        taken,
                        before.experiment()[drawn as int],
                        around,
                    ));
                }
                Ok(Some(plan))
            },
            Err(error) => {
                proof {
                    assert(!before.is_priced(log10_middle, before.experiment()[drawn as int]));
                }
                Err(error)
            },
        }
    }

    /// `after` follows when the order of a plan was sent: its probe is active, waits
    /// for its answer, and has neither an id nor a fill.
    pub open spec fn is_placed(
        self,
        after: ExecutionProbe,
        plan: ProbePlan,
        request_id: u64,
        socket_write_ns: u64,
    ) -> bool {
        &&& after.active_probe is Some
        &&& after == self.with_probe(after.active_probe->0)
        &&& after.active_probe->0.queue_belief.is_blank()
        &&& after.active_probe->0 == (ActiveProbe {
            probe_id: plan.dispatch.context.probe_id,
            decision_id: plan.dispatch.context.decision_id,
            action_id: plan.dispatch.context.action_id,
            cloid: plan.cloid,
            oid: None,
            side: plan.side,
            price_level_ticks: plan.price_level_ticks,
            price: plan.price,
            tick_size: plan.tick_size,
            size: plan.size,
            remaining_size: plan.size,
            cumulative_filled_size: constants::number(ZERO),
            phase: ProbePhase::PlacePending,
            created_monotonic_ns: plan.created_monotonic_ns,
            send_monotonic_ns: socket_write_ns,
            post_accepted_monotonic_ns: None,
            open_monotonic_ns: None,
            first_fill_monotonic_ns: None,
            planned_expiry_monotonic_ns: plan.planned_expiry_monotonic_ns,
            planned_dwell_ms: plan.planned_dwell_ms,
            last_keep_monotonic_ns: plan.created_monotonic_ns,
            cancel_send_monotonic_ns: None,
            post_request_id: request_id,
            cancel_request_id: None,
            flatten_request_id: None,
            flatten_oid: None,
            flatten_action_id: None,
            flatten_send_monotonic_ns: None,
            terminal_order_update_monotonic_ns: None,
            recovery_not_before_monotonic_ns: 0,
            end_reason: None,
            initial_queue_belief: None,
            queue_belief: after.active_probe->0.queue_belief,
        })
    }

    /// Notes that the order of a plan was sent: the probe is active now.
    pub fn place_sent(&mut self, plan: ProbePlan, request_id: u64, socket_write_ns: u64)
        requires
            old(self).is_sound(),
            old(self).config.probe.enabled,
            base::ms_in_ns(plan.planned_dwell_ms) <= LATEST_NS,
        ensures
            final(self).is_sound(),
            old(self).is_placed(*final(self), plan, request_id, socket_write_ns),
    {
        let queue_belief = QueueBelief::default();
        proof {
            crate::ordering::lemma_zero_value();
        }
        self.active_probe = Some(
            ActiveProbe {
                probe_id: plan.dispatch.context.probe_id,
                decision_id: plan.dispatch.context.decision_id,
                action_id: plan.dispatch.context.action_id,
                cloid: plan.cloid,
                oid: None,
                side: plan.side,
                price_level_ticks: plan.price_level_ticks,
                price: plan.price,
                tick_size: plan.tick_size,
                size: plan.size,
                remaining_size: plan.size,
                cumulative_filled_size: Binary64 { bits: ZERO },
                phase: ProbePhase::PlacePending,
                created_monotonic_ns: plan.created_monotonic_ns,
                send_monotonic_ns: socket_write_ns,
                post_accepted_monotonic_ns: None,
                open_monotonic_ns: None,
                first_fill_monotonic_ns: None,
                planned_expiry_monotonic_ns: plan.planned_expiry_monotonic_ns,
                planned_dwell_ms: plan.planned_dwell_ms,
                last_keep_monotonic_ns: plan.created_monotonic_ns,
                cancel_send_monotonic_ns: None,
                post_request_id: request_id,
                cancel_request_id: None,
                flatten_request_id: None,
                flatten_oid: None,
                flatten_action_id: None,
                flatten_send_monotonic_ns: None,
                terminal_order_update_monotonic_ns: None,
                recovery_not_before_monotonic_ns: 0,
                end_reason: None,
                initial_queue_belief: None,
                queue_belief,
            },
        );
    }
}

/// With the probe disabled nothing is ever sent: no probe is active, none may
/// start, and requests to cancel or to flatten send nothing.
pub proof fn law_collection_only_sends_nothing(
    before: ExecutionProbe,
    after: ExecutionProbe,
    step: super::orders::CancelStep,
    trigger: Trigger,
    reason: Reason,
    around: Surroundings,
    price: String,
    remaining: String,
    risk_exit: bool,
)
    requires
        before.is_sound(),
        !before.config.probe.enabled,
    ensures
        before.active_probe is None,
        !before.is_eligible(around),
        before.flatten_need(risk_exit) == FlattenNeed::NotNow,
        before.handles_cancel(after, step, trigger, reason, around, price, remaining) ==> step is Nothing
            && after == before,
{
}

/// The exchange reads the numbers of a planned order as they stand in the plan:
/// a finite price and a finite size are written as plain decimals, and the client
/// order id has the accepted form.
pub proof fn law_planned_orders_are_plain(
    module: ExecutionProbe,
    plan: ProbePlan,
    sizing: Sizing,
    side: ProbeSide,
    level: u32,
    dwell_sec: u64,
    around: Surroundings,
)
    requires
        module.plans(plan, sizing, side, level, dwell_sec, around),
        module.placement_size_text() == Some(sizing.size_text@),
        !utils::lots_for(
            module.config.probe.probe_notional_usd,
            module.placement_middle()->0,
            module.account.lot(),
        ).infinite(),
        !utils::on_grid(
            ExecutionProbe::level_price(
                sizing.best_bid,
                sizing.best_ask,
                sizing.tick,
                side,
                level,
            ),
            sizing.tick,
            side == ProbeSide::Ask,
        ).infinite(),
    ensures
        signing::is_plain_order(
            plan.dispatch.context.size->0@,
            plan.dispatch.context.price->0@,
            text::optional_text(plan.dispatch.context.cloid),
        ),
{
    notation::law_trimmed_numbers_are_plain(
        utils::lots_for(
            module.config.probe.probe_notional_usd,
            module.placement_middle()->0,
            module.account.lot(),
        ),
        module.account.lot(),
    );
    notation::law_trimmed_numbers_are_plain(
        utils::on_grid(
            ExecutionProbe::level_price(
                sizing.best_bid,
                sizing.best_ask,
                sizing.tick,
                side,
                level,
            ),
            sizing.tick,
            side == ProbeSide::Ask,
        ),
        sizing.tick,
    );
}

/// At most one probe is under way: while one is active, none may start.
pub proof fn law_one_probe_at_a_time(module: ExecutionProbe, around: Surroundings)
    requires
        module.active_probe is Some,
    ensures
        !module.is_eligible(around),
{
}

/// A probe starts from a clean account: a healthy snapshot shows no open order
/// and no more inventory than half a lot, and no markout is waited for.
pub proof fn law_probes_start_clean(module: ExecutionProbe, around: Surroundings)
    requires
        module.is_eligible(around),
    ensures
        module.account.rest_snapshot_healthy,
        module.account.open_order_count == 0,
        !module.account.lot().product(constants::number(HALF)).below(
            module.account.confirmed_inventory.absolute(),
        ),
        module.pending_markouts@.len() == 0,
        module.market.fair() is Some,
{
    assert(module.market.is_quoted(crate::arch::execution_probe_module::state::HlBook::Bbo)
        || module.market.is_quoted(crate::arch::execution_probe_module::state::HlBook::FastL2));
}

/// After the end of a probe the next one waits for the cooldown.
pub proof fn law_probes_keep_the_cooldown(
    before: ExecutionProbe,
    now_ns: u64,
    around: Surroundings,
)
    requires
        before.is_sound(),
        now_ns <= LATEST_NS,
        around.monotonic_ns < now_ns + base::ms_in_ns(before.config.probe.cooldown_ms),
    ensures
        !before.cooled_down(now_ns).is_eligible(around),
{
}

} // verus!
