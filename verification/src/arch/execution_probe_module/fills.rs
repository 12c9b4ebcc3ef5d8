//! Fills and their markouts.
use vstd::prelude::*;
use crate::arch::records::{Action, FillLink, FlattenFillLink, SystemEvent};
use crate::arch::vocabulary::{Reason, RestReason, RestScope, Trigger};
use crate::binary64::Binary64;
use crate::constants;
use crate::constants::ZERO;
use crate::text;
use crate::text::{push_number, same};
use super::base;
use super::base::ExecutionProbe;
use super::commands;
use super::commands::{Command, nothing, only, triple};
use super::state;
use super::state::{
    AccountState, ActiveProbe, PendingMarkout, ProbePhase, ProbeSide, UserFill, distance_behind,
    duplicate_text,
};

verus! {

/// The id of a fill: its order and its trade.
pub open spec fn fill_id_text(oid: u64, trade_id: Seq<char>) -> Seq<char> {
    text::digits(oid as nat) + ":"@ + trade_id
}

fn make_fill_id(oid: u64, trade_id: &str) -> (r: String)
    ensures
        r@ == fill_id_text(oid, trade_id@),
{
    let mut out = String::new();
    push_number(&mut out, oid);
    out.append(":");
    out.append(trade_id);
    proof {
        assert(out@ =~= fill_id_text(oid, trade_id@));
    }
    out
}

/// A fee as a share of the notional.
pub open spec fn fee_rate(fee: Option<Binary64>, price: Binary64, size: Binary64) -> Option<
    Binary64,
> {
    match fee {
        Some(fee) => Some(fee.quotient(price.product(size))),
        None => None,
    }
}

/// A fee for each unit of size, in ticks.
pub open spec fn fee_in_ticks(fee: Option<Binary64>, size: Binary64, tick: Binary64) -> Option<
    Binary64,
> {
    match fee {
        Some(fee) => Some(fee.quotient(size).quotient(tick)),
        None => None,
    }
}

/// What a fill does to the account.
pub open spec fn account_after_fill(
    account: AccountState,
    side: ProbeSide,
    size: Binary64,
    received_ns: u64,
) -> AccountState {
    AccountState {
        confirmed_inventory: account.confirmed_inventory.sum(side.sign().product(size)),
        snapshot_monotonic_ns: received_ns,
        ..account
    }
}

/// What a fill does to its probe. Where something is left of the order, one that
/// is being cancelled stays so.
pub open spec fn probe_after_fill(probe: ActiveProbe, size: Binary64, received_ns: u64) -> ActiveProbe {
    let remaining = state::reduced(probe.remaining_size, size);
    ActiveProbe {
        first_fill_monotonic_ns: match probe.first_fill_monotonic_ns {
            Some(first_ns) => Some(first_ns),
            None => Some(received_ns),
        },
        cumulative_filled_size: probe.cumulative_filled_size.sum(size),
        remaining_size: remaining,
        queue_belief: probe.queue_belief.after_partial_fill(),
        phase: if !constants::number(ZERO).below(remaining) {
            ProbePhase::MarkoutPending
        } else if probe.cancel_request_id is Some {
            probe.phase
        } else {
            ProbePhase::Partial
        },
        ..probe
    }
}

/// How a fill is handled.
#[derive(Clone, Copy, Debug, PartialEq, Eq, Structural)]
pub enum FillKind {
    /// Another coin, or a fill that was handled before.
    Ignored,
    /// A fill of the flattening order.
    Flattening,
    /// A fill of the resting order.
    Passive,
    /// A fill of an order that is not known.
    Unmatched,
}

impl ExecutionProbe {
    /// A fill was handled before.
    pub open spec fn has_seen(self, fill_id: Seq<char>) -> bool {
        self.seen_fill_ids@.contains(fill_id)
    }

    /// How a fill is handled.
    pub open spec fn kind_of(self, fill: UserFill) -> FillKind {
        if fill.coin@ != self.config.markets.hyperliquid_coin@ || self.has_seen(
            fill_id_text(fill.oid, fill.trade_id@),
        ) {
            FillKind::Ignored
        } else {
            match self.active_probe {
                Some(probe) => if probe.flatten_oid == Some(fill.oid) {
                    FillKind::Flattening
                } else if probe.oid == Some(fill.oid) {
                    FillKind::Passive
                } else {
                    FillKind::Unmatched
                },
                None => FillKind::Unmatched,
            }
        }
    }

    fn fill_kind(&self, fill: &UserFill, fill_id: &str) -> (r: FillKind)
        requires
            fill_id@ == fill_id_text(fill.oid, fill.trade_id@),
        ensures
            r == self.kind_of(*fill),
    {
        if !same(fill.coin.as_str(), self.config.markets.hyperliquid_coin.as_str())
            || self.seen_fill_ids.contains(fill_id) {
            return FillKind::Ignored;
        }
        match &self.active_probe {
            Some(probe) => {
                let flattening = match probe.flatten_oid {
                    Some(oid) => oid == fill.oid,
                    None => false,
                };
                let passive = match probe.oid {
                    Some(oid) => oid == fill.oid,
                    None => false,
                };
                if flattening {
                    FillKind::Flattening
                } else if passive {
                    FillKind::Passive
                } else {
                    FillKind::Unmatched
                }
            },
            None => FillKind::Unmatched,
        }
    }

    /// `after` differs from `self` in the fill that it remembers, and where the
    /// fill says so in the account, the probe and the markouts.
    pub open spec fn remembers(
        self,
        after: ExecutionProbe,
        fill_id: Seq<char>,
        account: AccountState,
        active_probe: Option<ActiveProbe>,
    ) -> bool {
        &&& after == ExecutionProbe {
            seen_fill_ids: after.seen_fill_ids,
            pending_markouts: after.pending_markouts,
            account,
            active_probe,
            ..self
        }
        &&& after.seen_fill_ids@ == self.seen_fill_ids@.insert(fill_id)
    }

    /// The record of a fill of the flattening order.
    pub open spec fn is_flatten_link(self, link: FlattenFillLink, fill: UserFill) -> bool {
        &&& link == FlattenFillLink {
            probe_id: self.active_probe->0.probe_id,
            action_id: self.active_probe->0.flatten_action_id,
            oid: fill.oid,
            fill_id: link.fill_id,
            price: fill.price,
            size: fill.size,
            side: fill.side,
            fee: fill.fee,
            fee_token: fill.fee_token,
            exchange_time_ms: fill.timestamp_ms,
            raw_fill: fill.raw,
        }
        &&& link.fill_id@ == fill_id_text(fill.oid, fill.trade_id@)
    }

    /// The record of a fill of the resting order.
    pub open spec fn is_fill_link(self, link: FillLink, fill: UserFill, received_ns: u64) -> bool {
        let before = self.active_probe->0;
        let probe = probe_after_fill(before, fill.size, received_ns);
        let fair = self.market.fair();
        &&& link == FillLink {
            probe_id: before.probe_id,
            decision_id: before.decision_id,
            action_id: before.action_id,
            cloid: before.cloid,
            oid: fill.oid,
            fill_id: link.fill_id,
            price: fill.price,
            size: fill.size,
            side: fill.side,
            fee: fill.fee,
            fee_token: fill.fee_token,
            realized_fee_rate: fee_rate(fill.fee, fill.price, fill.size),
            fee_ticks: fee_in_ticks(fill.fee, fill.size, before.tick_size),
            fair_value: fair,
            spread_edge_at_fill: match fair {
                Some(fair) => Some(state::behind(before.side, fill.price, fair)),
                None => None,
            },
            maker_fee_rate: self.account.maker_fee,
            taker_fee_rate: self.account.taker_fee,
            priority_fee: 0,
            inventory_before: self.account.confirmed_inventory,
            inventory_after: account_after_fill(
                self.account,
                before.side,
                fill.size,
                received_ns,
            ).confirmed_inventory,
            cumulative_filled_size: probe.cumulative_filled_size,
            remaining_size_after_fill: probe.remaining_size,
            order_age_ms: before.age_ms(received_ns),
            queue_belief: probe.queue_belief,
            position: self.market.position_of(before, received_ns),
            exchange_time_ms: fill.timestamp_ms,
            raw_fill: fill.raw,
        }
        &&& link.fill_id@ == fill_id_text(fill.oid, fill.trade_id@)
    }

    /// The markouts that a fill of the resting order waits for.
    pub open spec fn is_new_markout(
        self,
        markout: PendingMarkout,
        fill: UserFill,
        received_ns: u64,
    ) -> bool {
        &&& markout == PendingMarkout {
            probe_id: self.active_probe->0.probe_id,
            oid: fill.oid,
            fill_id: markout.fill_id,
            side: fill.side,
            fill_price: fill.price,
            fill_size: fill.size,
            fill_monotonic_ns: received_ns,
            horizons_ms: markout.horizons_ms,
            next_horizon_index: 0,
        }
        &&& markout.fill_id@ == fill_id_text(fill.oid, fill.trade_id@)
        &&& markout.horizons_ms@ == self.config.probe.markout_horizons_ms@
    }

    /// What follows the record of a fill of the resting order: what is left of
    /// the order is cancelled, or the markouts are waited for.
    pub open spec fn after_fill_command(self, size: Binary64) -> Command {
        let remaining = state::reduced(self.active_probe->0.remaining_size, size);
        if constants::number(ZERO).below(remaining)
            && self.active_probe->0.cancel_request_id is None {
            Command::Cancel {
                trigger: Trigger::PartialFill,
                reason: Reason::CancelRemainderAfterPartial,
            }
        } else {
            Command::Decide {
                trigger: Trigger::Fill,
                action: Action::WaitMarkout,
                reason: Reason::FullFillWaitForMarkoutHorizons,
            }
        }
    }

    /// What a fill does.
    pub open spec fn handles_fill(
        self,
        after: ExecutionProbe,
        commands: Seq<Command>,
        fill: UserFill,
        received_ns: u64,
    ) -> bool {
        let fill_id = fill_id_text(fill.oid, fill.trade_id@);
        match self.kind_of(fill) {
            FillKind::Ignored => after == self && commands.len() == 0,
            FillKind::Flattening => {
                &&& self.remembers(
                    after,
                    fill_id,
                    account_after_fill(self.account, fill.side, fill.size, received_ns),
                    self.active_probe,
                )
                &&& after.pending_markouts == self.pending_markouts
                &&& commands.len() == 3
                &&& commands[0] matches Command::Record(SystemEvent::FlattenFill(link))
                    && self.is_flatten_link(link, fill)
                &&& commands[1] == Command::FinishIfFlat
                &&& commands[2] == Command::RestIfActive {
                    reason: RestReason::FlattenUserFill,
                    scope: RestScope::Reconciliation,
                }
            },
            FillKind::Passive => {
                &&& self.remembers(
                    after,
                    fill_id,
                    account_after_fill(
                        self.account,
                        self.active_probe->0.side,
                        fill.size,
                        received_ns,
                    ),
                    Some(probe_after_fill(self.active_probe->0, fill.size, received_ns)),
                )
                &&& after.pending_markouts@.len() == self.pending_markouts@.len() + 1
                &&& after.pending_markouts@.drop_last() == self.pending_markouts@
                &&& self.is_new_markout(after.pending_markouts@.last(), fill, received_ns)
                &&& commands.len() == 3
                &&& commands[0] matches Command::Record(SystemEvent::Fill(link))
                    && self.is_fill_link(link, fill, received_ns)
                &&& commands[1] == Command::Rest {
                    reason: RestReason::UserFill,
                    scope: RestScope::Reconciliation,
                }
                &&& commands[2] == self.after_fill_command(fill.size)
            },
            FillKind::Unmatched => {
                &&& self.remembers(after, fill_id, self.account, self.active_probe)
                &&& after.pending_markouts == self.pending_markouts
                &&& commands == seq![
                    Command::Record(
                        SystemEvent::UnmatchedUserFill { oid: fill.oid, trade_id: fill.trade_id },
                    ),
                ]
            },
        }
    }

    /// Handles a fill.
    pub fn process_user_fill(&mut self, fill: UserFill, received_ns: u64) -> (r: Vec<Command>)
        requires
            old(self).is_sound(),
        ensures
            commands::start_nothing(r@),
            final(self).is_sound(),
            old(self).handles_fill(*final(self), r@, fill, received_ns),
    {
        let fill_id = make_fill_id(fill.oid, fill.trade_id.as_str());
        let kind = self.fill_kind(&fill, fill_id.as_str());
        if kind == FillKind::Ignored {
            return nothing();
        }
        self.seen_fill_ids.insert(fill_id.clone());
        match kind {
            FillKind::Flattening => self.flattening_fill(fill, fill_id, received_ns),
            FillKind::Passive => self.passive_fill(fill, fill_id, received_ns),
            _ => only(
                Command::Record(
                    SystemEvent::UnmatchedUserFill { oid: fill.oid, trade_id: fill.trade_id },
                ),
            ),
        }
    }

    fn flattening_fill(&mut self, fill: UserFill, fill_id: String, received_ns: u64) -> (r: Vec<
        Command,
    >)
        requires
            old(self).is_sound(),
            old(self).active_probe is Some,
            fill_id@ == fill_id_text(fill.oid, fill.trade_id@),
        ensures
            *final(self) == (ExecutionProbe {
                account: account_after_fill(old(self).account, fill.side, fill.size, received_ns),
                ..*old(self)
            }),
            final(self).is_sound(),
            r@.len() == 3,
            r@[0] matches Command::Record(SystemEvent::FlattenFill(link)) && old(
                self,
            ).is_flatten_link(link, fill),
            r@[1] == Command::FinishIfFlat,
            r@[2] == (Command::RestIfActive {
                reason: RestReason::FlattenUserFill,
                scope: RestScope::Reconciliation,
            }),
    {
        let (probe_id, action_id) = match &self.active_probe {
            Some(probe) => (probe.probe_id.clone(), duplicate_text(&probe.flatten_action_id)),
            None => (String::new(), None),
        };
        self.account.confirmed_inventory = self.account.confirmed_inventory.plus(
            fill.side.order_sign().times(fill.size),
        );
        self.account.snapshot_monotonic_ns = received_ns;
        let link = FlattenFillLink {
            probe_id,
            action_id,
            oid: fill.oid,
            fill_id,
            price: fill.price,
            size: fill.size,
            side: fill.side,
            fee: fill.fee,
            fee_token: fill.fee_token,
            exchange_time_ms: fill.timestamp_ms,
            raw_fill: fill.raw,
        };
        triple(
            Command::Record(SystemEvent::FlattenFill(link)),
            Command::FinishIfFlat,
            Command::RestIfActive {
                reason: RestReason::FlattenUserFill,
                scope: RestScope::Reconciliation,
            },
        )
    }

    fn passive_fill(&mut self, fill: UserFill, fill_id: String, received_ns: u64) -> (r: Vec<
        Command,
    >)
        requires
            old(self).is_sound(),
            old(self).active_probe is Some,
            fill_id@ == fill_id_text(fill.oid, fill.trade_id@),
        ensures
            commands::start_nothing(r@),
            *final(self) == (ExecutionProbe {
                account: account_after_fill(
                    old(self).account,
                    old(self).active_probe->0.side,
                    fill.size,
                    received_ns,
                ),
                active_probe: Some(
                    probe_after_fill(old(self).active_probe->0, fill.size, received_ns),
                ),
                pending_markouts: final(self).pending_markouts,
                ..*old(self)
            }),
            final(self).is_sound(),
            final(self).pending_markouts@.len() == old(self).pending_markouts@.len() + 1,
            final(self).pending_markouts@.drop_last() == old(self).pending_markouts@,
            old(self).is_new_markout(final(self).pending_markouts@.last(), fill, received_ns),
            r@.len() == 3,
            r@[0] matches Command::Record(SystemEvent::Fill(link)) && old(self).is_fill_link(
                link,
                fill,
                received_ns,
            ),
            r@[1] == (Command::Rest {
                reason: RestReason::UserFill,
                scope: RestScope::Reconciliation,
            }),
            r@[2] == old(self).after_fill_command(fill.size),
    {
        let zero = Binary64 { bits: ZERO };
        let ghost before = *self;
        let inventory_before = self.account.confirmed_inventory;
        let fair_value = self.market.fair_value();
        let probe = match &mut self.active_probe {
            Some(probe) => probe,
            None => {
                return nothing();
            },
        };
        let order_age_ms = probe.order_age_ms(received_ns);
        let position = self.market.quote_position(probe, received_ns);
        if probe.first_fill_monotonic_ns.is_none() {
            probe.first_fill_monotonic_ns = Some(received_ns);
        }
        probe.cumulative_filled_size = probe.cumulative_filled_size.plus(fill.size);
        probe.remaining_size = probe.remaining_size.minus(fill.size).max(zero);
        probe.queue_belief.observe_partial_fill();
        let open = zero.lt(probe.remaining_size);
        let should_cancel = open && probe.cancel_request_id.is_none();
        if should_cancel {
            probe.phase = ProbePhase::Partial;
        } else if !open {
            probe.phase = ProbePhase::MarkoutPending;
        }
        self.account.confirmed_inventory = self.account.confirmed_inventory.plus(
            probe.side.order_sign().times(fill.size),
        );
        self.account.snapshot_monotonic_ns = received_ns;
        let horizons_ms = self.config.probe.markout_horizons_ms.clone();
        proof {
            assert(horizons_ms@ =~= self.config.probe.markout_horizons_ms@);
        }
        let markout = PendingMarkout {
            probe_id: probe.probe_id.clone(),
            oid: fill.oid,
            fill_id: fill_id.clone(),
            side: fill.side,
            fill_price: fill.price,
            fill_size: fill.size,
            fill_monotonic_ns: received_ns,
            horizons_ms,
            next_horizon_index: 0,
        };
        let link = FillLink {
            probe_id: probe.probe_id.clone(),
            decision_id: probe.decision_id.clone(),
            action_id: probe.action_id.clone(),
            cloid: probe.cloid.clone(),
            oid: fill.oid,
            fill_id,
            price: fill.price,
            size: fill.size,
            side: fill.side,
            fee: fill.fee,
            fee_token: fill.fee_token,
            realized_fee_rate: match fill.fee {
                Some(fee) => Some(fee.over(fill.price.times(fill.size))),
                None => None,
            },
            fee_ticks: match fill.fee {
                Some(fee) => Some(fee.over(fill.size).over(probe.tick_size)),
                None => None,
            },
            fair_value,
            spread_edge_at_fill: match fair_value {
                Some(fair) => Some(distance_behind(probe.side, fill.price, fair)),
                None => None,
            },
            maker_fee_rate: self.account.maker_fee,
            taker_fee_rate: self.account.taker_fee,
            priority_fee: 0,
            inventory_before,
            inventory_after: self.account.confirmed_inventory,
            cumulative_filled_size: probe.cumulative_filled_size,
            remaining_size_after_fill: probe.remaining_size,
            order_age_ms,
            queue_belief: probe.queue_belief.duplicate(),
            position,
            exchange_time_ms: fill.timestamp_ms,
            raw_fill: fill.raw,
        };
        self.pending_markouts.push(markout);
        proof {
            assert(self.pending_markouts@.drop_last() =~= before.pending_markouts@);
            assert forall|i: int| 0 <= i < self.pending_markouts@.len() implies base::horizons_fit(
                #[trigger] self.pending_markouts@[i],
            ) by {
                if i < before.pending_markouts@.len() {
                    assert(self.pending_markouts@[i] == before.pending_markouts@[i]);
                }
            }
        }
        let next = if should_cancel {
            Command::Cancel {
                trigger: Trigger::PartialFill,
                reason: Reason::CancelRemainderAfterPartial,
            }
        } else {
            Command::Decide {
                trigger: Trigger::Fill,
                action: Action::WaitMarkout,
                reason: Reason::FullFillWaitForMarkoutHorizons,
            }
        };
        triple(
            Command::Record(SystemEvent::Fill(link)),
            Command::Rest { reason: RestReason::UserFill, scope: RestScope::Reconciliation },
            next,
        )
    }
}

/// A fill counts once: when the same fill comes again, nothing happens.
pub proof fn law_a_fill_counts_once(
    before: ExecutionProbe,
    after: ExecutionProbe,
    commands: Seq<Command>,
    fill: UserFill,
    again: UserFill,
    received_ns: u64,
)
    requires
        before.handles_fill(after, commands, fill, received_ns),
        fill.coin@ == before.config.markets.hyperliquid_coin@,
        again.oid == fill.oid,
        again.trade_id@ == fill.trade_id@,
    ensures
        after.kind_of(again) == FillKind::Ignored,
{
}

/// Fills of different orders or of different trades have different ids.
pub proof fn law_fills_have_their_own_ids(
    oid: u64,
    trade_id: Seq<char>,
    other_oid: u64,
    other_trade_id: Seq<char>,
)
    requires
        oid != other_oid || trade_id != other_trade_id,
    ensures
        fill_id_text(oid, trade_id) != fill_id_text(other_oid, other_trade_id),
{
    let first = text::digits(oid as nat);
    let second = text::digits(other_oid as nat);
    let a = fill_id_text(oid, trade_id);
    let b = fill_id_text(other_oid, other_trade_id);
    reveal_strlit(":");
    text::lemma_digits(oid as nat);
    text::lemma_digits(other_oid as nat);
    if a == b {
        if first.len() < second.len() {
            let n = first.len() as int;
            assert(a[n] == ':' && b[n] == second[n]);
        } else if second.len() < first.len() {
            let n = second.len() as int;
            assert(b[n] == ':' && a[n] == first[n]);
        }
        assert(a.take(first.len() as int) =~= first && b.take(second.len() as int) =~= second);
        text::law_digits_are_unique(oid as nat, other_oid as nat);
        assert(a.skip(first.len() as int + 1) =~= trade_id);
        assert(b.skip(second.len() as int + 1) =~= other_trade_id);
    }
}

/// A partial fill cancels what is left of the order, unless it is being
/// cancelled already.
pub proof fn law_partial_fills_cancel_the_rest(
    before: ExecutionProbe,
    after: ExecutionProbe,
    commands: Seq<Command>,
    fill: UserFill,
    received_ns: u64,
)
    requires
        before.handles_fill(after, commands, fill, received_ns),
        before.kind_of(fill) == FillKind::Passive,
        before.active_probe->0.cancel_request_id is None,
        constants::number(ZERO).below(
            state::reduced(before.active_probe->0.remaining_size, fill.size),
        ),
    ensures
        commands.last() == (Command::Cancel {
            trigger: Trigger::PartialFill,
            reason: Reason::CancelRemainderAfterPartial,
        }),
{
}

} // verus!
