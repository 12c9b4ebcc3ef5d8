//! The way back to no inventory.
use vstd::prelude::*;
use crate::arch::action_gateway::ActionContext;
use crate::arch::records::Action;
use crate::arch::vocabulary::{Reason, RestReason, RestScope, Trigger};
use crate::binary64::Binary64;
use crate::constants;
use crate::constants::{ONE, TEN_THOUSAND, ZERO};
use crate::text;
use crate::text::{numbered, same};
use super::base;
use super::base::{Choice, ExecutionProbe, ProbeError, Surroundings};
use super::commands;
use super::commands::{Command, nothing, only};
use super::orders::Dispatch;
use super::orders;
use super::state::{ActiveProbe, ProbePhase, ProbeSide};
use super::utils;
use super::utils::{hyperliquid_tick_size, make_cloid, reduce_only_size, round_price_to_tick};

verus! {

/// What a request to flatten leads to.
#[derive(Debug)]
pub enum FlattenStep {
    /// Nothing is to be sent; these commands follow.
    Wait(Vec<Command>),
    /// A reduce-only order is to be sent.
    Send(Dispatch),
}

/// Why nothing is sent, or which order is.
#[derive(Clone, Copy, Debug, PartialEq, Eq, Structural)]
pub enum FlattenNeed {
    /// No probe is active, it is being flattened already, or its markouts are
    /// still waited for.
    NotNow,
    /// The inventory is flat, but the probe has fills: the inventory is awaited.
    AwaitInventory,
    /// The inventory is flat.
    Flat,
    /// An order is needed.
    Order,
}

/// The number under which a flattening order is identified.
pub open spec fn flatten_number(probe_sequence: u64, action_sequence: u64) -> u64 {
    orders::capped_sum(
        probe_sequence,
        ((action_sequence % 0x1_0000_0000) * 0x1_0000_0000) as u64,
    )
}

impl ExecutionProbe {
    /// Markouts of the active probe are waited for.
    pub open spec fn awaits_markouts(self) -> bool {
        exists|i: int|
            0 <= i < self.pending_markouts@.len() && (#[trigger] self.pending_markouts@[i]).probe_id@
                == self.active_probe->0.probe_id@
    }

    /// What is needed to flatten.
    pub open spec fn flatten_need(self, risk_exit: bool) -> FlattenNeed {
        if self.active_probe is None || self.active_probe->0.phase == ProbePhase::FlattenPending
            || (!risk_exit && self.awaits_markouts()) {
            FlattenNeed::NotNow
        } else if self.account.is_flat() {
            if constants::number(ZERO).below(self.active_probe->0.cumulative_filled_size) {
                FlattenNeed::AwaitInventory
            } else {
                FlattenNeed::Flat
            }
        } else {
            FlattenNeed::Order
        }
    }

    /// The side that reduces the inventory.
    pub open spec fn flatten_side(self) -> ProbeSide {
        if constants::number(ZERO).below(self.account.confirmed_inventory) {
            ProbeSide::Ask
        } else {
            ProbeSide::Bid
        }
    }

    /// The best price on the other side of the book.
    pub open spec fn flatten_best(self) -> Option<Binary64> {
        match self.market.top() {
            Some((bid, ask)) => Some(
                match self.flatten_side() {
                    ProbeSide::Ask => bid,
                    ProbeSide::Bid => ask,
                },
            ),
            None => None,
        }
    }

    /// The limit price of the order before it is put on the grid: the best
    /// price, worsened by the slippage.
    pub open spec fn flatten_limit(self) -> Binary64 {
        let one = constants::number(ONE);
        let slippage = self.config.probe.ioc_slippage_bps.quotient(
            constants::number(TEN_THOUSAND),
        );
        self.flatten_best()->0.product(
            match self.flatten_side() {
                ProbeSide::Ask => one.difference(slippage),
                ProbeSide::Bid => one.sum(slippage),
            },
        )
    }

    /// The price step of the order.
    pub open spec fn flatten_tick(self, log10_best: Binary64) -> Binary64 {
        let decimals = match self.account.size_decimals {
            Some(decimals) => decimals,
            None => 4,
        };
        match utils::tick_size(self.flatten_best()->0, decimals, log10_best) {
            Some(tick) => tick,
            None => constants::number(ONE),
        }
    }

    /// The text of the price of the order.
    pub open spec fn flatten_price_text(self, log10_best: Binary64) -> Option<Seq<char>> {
        utils::grid_price(
            self.flatten_limit(),
            self.flatten_tick(log10_best),
            self.flatten_side() == ProbeSide::Bid,
        )
    }

    /// The text of the size of the order.
    pub open spec fn flatten_size_text(self, normalized: Seq<char>) -> Option<Seq<char>> {
        utils::reduced_size(
            self.account.confirmed_inventory.absolute(),
            self.account.lot(),
            normalized,
        )
    }

    fn markouts_awaited(&self, probe_id: &str) -> (r: bool)
        ensures
            r == (exists|i: int|
                0 <= i < self.pending_markouts@.len() && (
                #[trigger] self.pending_markouts@[i]).probe_id@ == probe_id@),
    {
        let mut i: usize = 0;
        while i < self.pending_markouts.len()
            invariant
                i <= self.pending_markouts@.len(),
                forall|j: int|
                    0 <= j < i ==> (#[trigger] self.pending_markouts@[j]).probe_id@ != probe_id@,
            decreases self.pending_markouts@.len() - i,
        {
            if same(self.pending_markouts[i].probe_id.as_str(), probe_id) {
                return true;
            }
            i = i + 1;
        }
        false
    }

    fn need_to_flatten(&self, risk_exit: bool) -> (r: FlattenNeed)
        ensures
            r == self.flatten_need(risk_exit),
    {
        match &self.active_probe {
            Some(probe) => {
                if probe.phase == ProbePhase::FlattenPending || (!risk_exit
                    && self.markouts_awaited(probe.probe_id.as_str())) {
                    FlattenNeed::NotNow
                } else if self.account.inventory_is_flat() {
                    if (Binary64 { bits: ZERO }).lt(probe.cumulative_filled_size) {
                        FlattenNeed::AwaitInventory
                    } else {
                        FlattenNeed::Flat
                    }
                } else {
                    FlattenNeed::Order
                }
            },
            None => FlattenNeed::NotNow,
        }
    }

    fn side_to_flatten(&self) -> (r: ProbeSide)
        ensures
            r == self.flatten_side(),
    {
        if (Binary64 { bits: ZERO }).lt(self.account.confirmed_inventory) {
            ProbeSide::Ask
        } else {
            ProbeSide::Bid
        }
    }

    /// The best price against which the inventory would be flattened.
    pub fn flatten_reference(&self) -> (r: Option<Binary64>)
        ensures
            r == self.flatten_best(),
    {
        match self.market.freshest_quote() {
            Some((bid, ask)) => match self.side_to_flatten() {
                ProbeSide::Ask => Some(bid),
                ProbeSide::Bid => Some(ask),
            },
            None => None,
        }
    }

    /// The size to flatten, and the lot in which it is counted.
    pub fn flatten_figures(&self) -> (r: (Binary64, Binary64))
        ensures
            r.0 == self.account.confirmed_inventory.absolute(),
            r.1 == self.account.lot(),
    {
        (self.account.confirmed_inventory.abs(), self.account.lot_or_default())
    }

    /// The trigger of a flattening.
    pub open spec fn flatten_trigger(risk_exit: bool) -> Trigger {
        if risk_exit {
            Trigger::HardInventoryGuard
        } else {
            Trigger::MarkoutComplete
        }
    }

    /// The reason of a flattening.
    pub open spec fn flatten_reason(risk_exit: bool) -> Reason {
        if risk_exit {
            Reason::HardInventoryGuard
        } else {
            Reason::MarkoutComplete
        }
    }

    /// A flattening order: its context, and the decision behind it.
    pub open spec fn is_flatten_dispatch(
        self,
        dispatch: Dispatch,
        risk_exit: bool,
        around: Surroundings,
        log10_best: Binary64,
        normalized: Seq<char>,
    ) -> bool {
        let context = dispatch.context;
        let numbered = self.after_ids();
        let order = Action::Ioc {
            side: self.flatten_side(),
            price: context.price->0,
            size: context.size->0,
        };
        &&& context.action_id@ == self.next_action_text()
        &&& context.probe_id == self.active_probe->0.probe_id
        &&& context.decision_id@ == self.next_decision_text()
        &&& context.intent_id@ == "flatten-"@ + text::digits(numbered.action_sequence as nat)
        &&& text::optional_text(context.cloid) == Some(
            utils::cloid_text(
                self.identity.run_id@,
                flatten_number(numbered.probe_sequence, numbered.action_sequence),
            ),
        )
        &&& utils::is_cloid(context.cloid->0@)
        &&& context.oid is None
        &&& context.side == Some(self.flatten_side())
        &&& context.price is Some
        &&& text::optional_text(context.price) == self.flatten_price_text(log10_best)
        &&& context.size is Some
        &&& text::optional_text(context.size) == self.flatten_size_text(normalized)
        &&& context.remaining_size is None
        &&& numbered.writes_down(
            dispatch.decision,
            base::ChoiceView {
                probe_id: self.active_probe->0.probe_id@,
                decision_id: self.next_decision_text(),
                trigger: Self::flatten_trigger(risk_exit),
                candidates: seq![order],
                selected: order,
                probability: constants::number(ONE),
                planned_expiry_ts_ns: None,
                random_seed: 0,
                reason: Self::flatten_reason(risk_exit),
            },
            around,
        )
    }

    /// What a request to flatten does: an order where one is needed and its book,
    /// its price and its size are there, a request for a snapshot where the
    /// inventory of the fills is awaited, else nothing.
    pub open spec fn handles_flatten(
        self,
        after: ExecutionProbe,
        step: Result<FlattenStep, ProbeError>,
        risk_exit: bool,
        around: Surroundings,
        log10_best: Binary64,
        normalized: Seq<char>,
    ) -> bool {
        &&& match self.flatten_need(risk_exit) {
            FlattenNeed::Order => if self.flatten_best() is None {
                step matches Err(ProbeError::FlattenWithoutBook)
            } else if self.flatten_price_text(log10_best) is None {
                step matches Err(ProbeError::FlattenPriceNotRounded)
            } else if self.flatten_size_text(normalized) is None {
                step matches Err(ProbeError::InventoryBelowLot)
            } else {
                step matches Ok(FlattenStep::Send(dispatch)) && self.is_flatten_dispatch(
                    dispatch,
                    risk_exit,
                    around,
                    log10_best,
                    normalized,
                )
            },
            FlattenNeed::AwaitInventory => step matches Ok(FlattenStep::Wait(commands))
                && commands@ == seq![
                Command::RestThrottled {
                    reason: RestReason::AwaitInventoryBeforeFlatten,
                    scope: RestScope::Reconciliation,
                    now_ns: around.monotonic_ns,
                },
            ],
            _ => step matches Ok(FlattenStep::Wait(commands)) && commands@.len() == 0,
        }
        &&& after == (if step matches Ok(FlattenStep::Send(_)) {
            self.after_ids().after_event()
        } else {
            self
        })
    }

    /// Decides on a request to flatten. `log10_best` is the base-ten logarithm of
    /// [`Self::flatten_reference`], and `normalized` the text to which the
    /// exchange client brings the size of [`Self::flatten_figures`].
    pub fn maybe_flatten(
        &mut self,
        risk_exit: bool,
        around: Surroundings,
        log10_best: Binary64,
        normalized: &str,
    ) -> (r: Result<FlattenStep, ProbeError>)
        requires
            old(self).is_sound(),
            -400 <= log10_best.floored().truncated() <= 400,
        ensures
            r matches Ok(FlattenStep::Wait(waiting)) ==> commands::start_nothing(waiting@),
            final(self).is_sound(),
            old(self).handles_flatten(
                *final(self),
                r,
                risk_exit,
                around,
                log10_best,
                normalized@,
            ),
    {
        match self.need_to_flatten(risk_exit) {
            FlattenNeed::Order => {},
            FlattenNeed::AwaitInventory => {
                return Ok(
                    FlattenStep::Wait(
                        only(
                            Command::RestThrottled {
                                reason: RestReason::AwaitInventoryBeforeFlatten,
                                scope: RestScope::Reconciliation,
                                now_ns: around.monotonic_ns,
                            },
                        ),
                    ),
                );
            },
            _ => {
                return Ok(FlattenStep::Wait(nothing()));
            },
        }
        let one = Binary64 { bits: ONE };
        let side = self.side_to_flatten();
        let best = match self.flatten_reference() {
            Some(best) => best,
            None => {
                return Err(ProbeError::FlattenWithoutBook);
            },
        };
        let slippage = self.config.probe.ioc_slippage_bps.over(Binary64 { bits: TEN_THOUSAND });
        let multiplier = match side {
            ProbeSide::Ask => one.minus(slippage),
            ProbeSide::Bid => one.plus(slippage),
        };
        let size_decimals: u32 = match self.account.size_decimals {
            Some(size_decimals) => size_decimals,
            None => 4,
        };
        let tick = match hyperliquid_tick_size(best, size_decimals, log10_best) {
            Some(tick) => tick,
            None => one,
        };
        let price_text = match round_price_to_tick(
            best.times(multiplier),
            tick,
            side == ProbeSide::Bid,
        ) {
            Some(price_text) => price_text,
            None => {
                return Err(ProbeError::FlattenPriceNotRounded);
            },
        };
        let size_text = match reduce_only_size(
            self.account.confirmed_inventory.abs(),
            self.account.lot_or_default(),
            normalized,
        ) {
            Some(size_text) => size_text,
            None => {
                return Err(ProbeError::InventoryBelowLot);
            },
        };
        let probe_id = match &self.active_probe {
            Some(probe) => probe.probe_id.clone(),
            None => String::new(),
        };
        let decision_id = self.next_decision_id();
        let action_id = self.next_action_id();
        let (trigger, reason) = if risk_exit {
            (Trigger::HardInventoryGuard, Reason::HardInventoryGuard)
        } else {
            (Trigger::MarkoutComplete, Reason::MarkoutComplete)
        };
        let order = Action::Ioc { side, price: price_text.clone(), size: size_text.clone() };
        let candidates = vec![order.duplicate()];
        proof {
            assert(candidates@ =~= seq![order]);
        }
        let decision = self.build_decision(
            Choice {
                probe_id: probe_id.clone(),
                decision_id: decision_id.clone(),
                trigger,
                candidates,
                selected: order,
                probability: one,
                planned_expiry_ts_ns: None,
                random_seed: 0,
                reason,
            },
            around,
        );
        let number = self.probe_sequence.saturating_add(
            (self.action_sequence % 0x1_0000_0000) * 0x1_0000_0000,
        );
        let context = ActionContext {
            action_id,
            probe_id,
            decision_id,
            intent_id: numbered("flatten-", self.action_sequence),
            cloid: Some(make_cloid(self.identity.run_id.as_str(), number)),
            oid: None,
            side: Some(side),
            price: Some(price_text),
            size: Some(size_text),
            remaining_size: None,
        };
        Ok(FlattenStep::Send(Dispatch { decision, context }))
    }

    /// The module after a flattening order was sent.
    pub open spec fn after_flatten_sent(
        self,
        request_id: u64,
        action_id: String,
        socket_write_ns: u64,
    ) -> ExecutionProbe {
        match self.active_probe {
            Some(probe) => self.with_probe(
                ActiveProbe {
                    phase: ProbePhase::FlattenPending,
                    flatten_request_id: Some(request_id),
                    flatten_action_id: Some(action_id),
                    flatten_send_monotonic_ns: Some(socket_write_ns),
                    ..probe
                },
            ),
            None => self,
        }
    }

    /// Notes that a flattening order was sent.
    pub fn flatten_sent(&mut self, request_id: u64, action_id: String, socket_write_ns: u64)
        requires
            old(self).is_sound(),
        ensures
            *final(self) == old(self).after_flatten_sent(request_id, action_id, socket_write_ns),
            final(self).is_sound(),
    {
        if let Some(probe) = &mut self.active_probe {
            probe.phase = ProbePhase::FlattenPending;
            probe.flatten_request_id = Some(request_id);
            probe.flatten_action_id = Some(action_id);
            probe.flatten_send_monotonic_ns = Some(socket_write_ns);
        }
    }
}

/// Without a risk exit the inventory of a probe is not flattened before its
/// markouts are complete.
pub proof fn law_flattening_waits_for_markouts(module: ExecutionProbe)
    requires
        module.active_probe is Some,
        module.awaits_markouts(),
    ensures
        module.flatten_need(false) == FlattenNeed::NotNow,
{
}

/// A flattening order is of the side that brings the inventory back.
pub proof fn law_flattening_opposes_the_inventory(module: ExecutionProbe)
    ensures
        constants::number(ZERO).below(module.account.confirmed_inventory) ==> module.flatten_side()
            == ProbeSide::Ask,
        module.account.confirmed_inventory.below(constants::number(ZERO)) ==> module.flatten_side()
            == ProbeSide::Bid,
{
    crate::ordering::lemma_zero_value();
}

} // verus!
