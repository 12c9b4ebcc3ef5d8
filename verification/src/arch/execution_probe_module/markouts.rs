//! The sampling of markouts: the fair value at set times after a fill.
use vstd::prelude::*;
use crate::arch::records::{MarkoutSample, SystemEvent};
use crate::binary64::Binary64;
use super::base;
use super::base::ExecutionProbe;
use super::commands;
use super::commands::Command;
use super::state;
use super::state::{PendingMarkout, distance_behind};

verus! {

/// The first horizon from `index` on that is not due.
pub open spec fn next_index(markout: PendingMarkout, now_ns: u64, index: nat) -> nat
    decreases markout.horizons_ms@.len() - index,
{
    if index < markout.horizons_ms@.len() && state::elapsed(now_ns, markout.fill_monotonic_ns)
        >= base::ms_in_ns(markout.horizons_ms@[index as int]) {
        next_index(markout, now_ns, index + 1)
    } else {
        index
    }
}

/// The markout after the horizons that are due were sampled.
pub open spec fn after_sampling(markout: PendingMarkout, now_ns: u64) -> PendingMarkout {
    PendingMarkout {
        next_horizon_index: next_index(
            markout,
            now_ns,
            markout.next_horizon_index as nat,
        ) as usize,
        ..markout
    }
}

/// The sample of a horizon.
pub open spec fn sample_of(
    markout: PendingMarkout,
    fair_value: Option<Binary64>,
    index: nat,
) -> MarkoutSample {
    MarkoutSample {
        probe_id: markout.probe_id,
        oid: markout.oid,
        fill_id: markout.fill_id,
        horizon_ms: markout.horizons_ms@[index as int],
        fill_price: markout.fill_price,
        fill_size: markout.fill_size,
        fair_value,
        signed_markout: match fair_value {
            Some(fair) => Some(state::behind(markout.side, markout.fill_price, fair)),
            None => None,
        },
    }
}

/// The records of the horizons from `from` on and below `to`.
pub open spec fn sample_commands(
    markout: PendingMarkout,
    fair_value: Option<Binary64>,
    from: nat,
    to: nat,
) -> Seq<Command> {
    Seq::new(
        (to - from) as nat,
        |i: int|
            Command::Record(
                SystemEvent::Markout(sample_of(markout, fair_value, (from + i) as nat)),
            ),
    )
}

/// The records of the horizons of a fill that are due.
pub open spec fn due_commands(
    markout: PendingMarkout,
    fair_value: Option<Binary64>,
    now_ns: u64,
) -> Seq<Command> {
    let from = markout.next_horizon_index as nat;
    sample_commands(markout, fair_value, from, next_index(markout, now_ns, from))
}

/// The records of all horizons that are due.
pub open spec fn all_due_commands(
    markouts: Seq<PendingMarkout>,
    fair_value: Option<Binary64>,
    now_ns: u64,
) -> Seq<Command>
    decreases markouts.len(),
{
    if markouts.len() == 0 {
        Seq::empty()
    } else {
        all_due_commands(markouts.drop_last(), fair_value, now_ns) + due_commands(
            markouts.last(),
            fair_value,
            now_ns,
        )
    }
}

/// Sampling only writes records.
proof fn lemma_samples_start_nothing(
    markouts: Seq<PendingMarkout>,
    fair_value: Option<Binary64>,
    now_ns: u64,
)
    ensures
        commands::start_nothing(all_due_commands(markouts, fair_value, now_ns)),
    decreases markouts.len(),
{
    if markouts.len() > 0 {
        lemma_samples_start_nothing(markouts.drop_last(), fair_value, now_ns);
    }
}

/// Sampling goes forward only, and never beyond the last horizon.
pub proof fn lemma_next_index(markout: PendingMarkout, now_ns: u64, index: nat)
    ensures
        index <= next_index(markout, now_ns, index),
        index <= markout.horizons_ms@.len() ==> next_index(markout, now_ns, index)
            <= markout.horizons_ms@.len(),
        forall|i: int|
            index <= i < next_index(markout, now_ns, index) ==> state::elapsed(
                now_ns,
                markout.fill_monotonic_ns,
            ) >= base::ms_in_ns(#[trigger] markout.horizons_ms@[i]),
        next_index(markout, now_ns, index) < markout.horizons_ms@.len() ==> state::elapsed(
            now_ns,
            markout.fill_monotonic_ns,
        ) < base::ms_in_ns(markout.horizons_ms@[next_index(markout, now_ns, index) as int]),
    decreases markout.horizons_ms@.len() - index,
{
    if index < markout.horizons_ms@.len() && state::elapsed(now_ns, markout.fill_monotonic_ns)
        >= base::ms_in_ns(markout.horizons_ms@[index as int]) {
        lemma_next_index(markout, now_ns, index + 1);
    }
}

/// Every sample that is taken is due, none that is due next is left out, and what
/// is sampled at one time is not sampled again at a later time: sampling goes on
/// where it left off.
pub proof fn law_horizons_are_sampled_once_and_in_time(
    markout: PendingMarkout,
    now_ns: u64,
    later_ns: u64,
)
    requires
        markout.next_horizon_index <= markout.horizons_ms@.len(),
    ensures
        forall|i: int|
            markout.next_horizon_index <= i < after_sampling(markout, now_ns).next_horizon_index
                ==> state::elapsed(now_ns, markout.fill_monotonic_ns) >= base::ms_in_ns(
                #[trigger] markout.horizons_ms@[i],
            ),
        after_sampling(markout, now_ns).next_horizon_index < markout.horizons_ms@.len()
            ==> state::elapsed(now_ns, markout.fill_monotonic_ns) < base::ms_in_ns(
            markout.horizons_ms@[after_sampling(markout, now_ns).next_horizon_index as int],
        ),
        markout.next_horizon_index <= after_sampling(markout, now_ns).next_horizon_index,
        after_sampling(markout, now_ns).next_horizon_index <= after_sampling(
            after_sampling(markout, now_ns),
            later_ns,
        ).next_horizon_index,
        after_sampling(markout, now_ns).is_done() ==> forall|i: int|
            markout.next_horizon_index <= i < markout.horizons_ms@.len() ==> state::elapsed(
                now_ns,
                markout.fill_monotonic_ns,
            ) >= base::ms_in_ns(#[trigger] markout.horizons_ms@[i]),
{
    lemma_next_index(markout, now_ns, markout.next_horizon_index as nat);
    let once = after_sampling(markout, now_ns);
    lemma_next_index(once, later_ns, once.next_horizon_index as nat);
    assert(markout.horizons_ms@.len() <= usize::MAX) by {
        vstd::std_specs::vec::axiom_spec_len(&markout.horizons_ms);
    }
}

/// Markouts that wait for more.
pub open spec fn incomplete(markouts: Seq<PendingMarkout>) -> Seq<PendingMarkout> {
    markouts.filter(|markout: PendingMarkout| !markout.is_done())
}

impl ExecutionProbe {
    /// `after` follows when the markouts that are due were sampled: a record for each
    /// horizon that is reached, and then the complete ones are to be forgotten.
    pub open spec fn has_sampled(
        self,
        after: ExecutionProbe,
        commands: Seq<Command>,
        now_ns: u64,
    ) -> bool {
        &&& after == (ExecutionProbe { pending_markouts: after.pending_markouts, ..self })
        &&& after.pending_markouts@ == self.pending_markouts@.map_values(
            |markout: PendingMarkout| after_sampling(markout, now_ns),
        )
        &&& commands == all_due_commands(
            self.pending_markouts@,
            self.market.fair(),
            now_ns,
        ).push(Command::DropCompleteMarkouts)
    }

    /// Samples the markouts that are due.
    pub fn sample_markouts(&mut self, now_ns: u64) -> (r: Vec<Command>)
        requires
            old(self).is_sound(),
        ensures
            commands::start_nothing(r@),
            old(self).has_sampled(*final(self), r@, now_ns),
            final(self).is_sound(),
    {
        let fair_value = self.market.fair_value();
        let ghost before = *self;
        let ghost sampled = before.pending_markouts@.map_values(
            |markout: PendingMarkout| after_sampling(markout, now_ns),
        );
        let mut commands: Vec<Command> = Vec::new();
        let mut i: usize = 0;
        proof {
            assert(before.pending_markouts@.take(0) =~= Seq::<PendingMarkout>::empty());
        }
        while i < self.pending_markouts.len()
            invariant
                i <= self.pending_markouts@.len(),
                before.is_sound(),
                *self == (ExecutionProbe { pending_markouts: self.pending_markouts, ..before }),
                self.pending_markouts@.len() == before.pending_markouts@.len(),
                sampled == before.pending_markouts@.map_values(
                    |markout: PendingMarkout| after_sampling(markout, now_ns),
                ),
                forall|j: int| 0 <= j < i ==> self.pending_markouts@[j] == sampled[j],
                forall|j: int|
                    i <= j < before.pending_markouts@.len() ==> self.pending_markouts@[j]
                        == before.pending_markouts@[j],
                fair_value == before.market.fair(),
                commands@ == all_due_commands(
                    before.pending_markouts@.take(i as int),
                    fair_value,
                    now_ns,
                ),
            decreases before.pending_markouts@.len() - i,
        {
            let ghost unsampled = before.pending_markouts@[i as int];
            proof {
                assert(base::horizons_fit(unsampled));
            }
            let pending = &mut self.pending_markouts[i];
            sample_one(pending, fair_value, now_ns, &mut commands);
            proof {
                assert(before.pending_markouts@.take(i as int + 1).drop_last()
                    =~= before.pending_markouts@.take(i as int));
            }
            i = i + 1;
        }
        proof {
            lemma_samples_start_nothing(before.pending_markouts@, fair_value, now_ns);
            assert(self.pending_markouts@ =~= sampled);
            assert(before.pending_markouts@.take(i as int) =~= before.pending_markouts@);
            assert forall|j: int| 0 <= j < self.pending_markouts@.len() implies base::horizons_fit(
                #[trigger] self.pending_markouts@[j],
            ) by {
                assert(base::horizons_fit(before.pending_markouts@[j]));
            }
        }
        commands.push(Command::DropCompleteMarkouts);
        commands
    }

    /// Forgets the markouts that are complete.
    pub fn drop_complete_markouts(&mut self)
        requires
            old(self).is_sound(),
        ensures
            *final(self) == (ExecutionProbe {
                pending_markouts: final(self).pending_markouts,
                ..*old(self)
            }),
            final(self).pending_markouts@ == incomplete(old(self).pending_markouts@),
            final(self).is_sound(),
    {
        let ghost all = self.pending_markouts@;
        let mut rest: Vec<PendingMarkout> = Vec::new();
        std::mem::swap(&mut rest, &mut self.pending_markouts);
        let ghost mut i: int = 0;
        proof {
            assert(all.skip(0) =~= all);
            assert(all.take(0) =~= Seq::<PendingMarkout>::empty());
            reveal(Seq::filter);
        }
        while rest.len() > 0
            invariant
                0 <= i <= all.len(),
                old(self).is_sound(),
                all == old(self).pending_markouts@,
                rest@ == all.skip(i),
                *self == (ExecutionProbe {
                    pending_markouts: self.pending_markouts,
                    ..*old(self)
                }),
                self.pending_markouts@ == incomplete(all.take(i)),
                forall|j: int|
                    0 <= j < self.pending_markouts@.len() ==> base::horizons_fit(
                        #[trigger] self.pending_markouts@[j],
                    ),
            decreases rest@.len(),
        {
            let markout = rest.remove(0);
            proof {
                reveal(Seq::filter);
                assert(markout == all[i]);
                assert(base::horizons_fit(all[i]));
                assert(all.take(i + 1).drop_last() =~= all.take(i));
                assert(all.take(i + 1).last() == markout);
                assert(rest@ =~= all.skip(i + 1));
                i = i + 1;
            }
            if !markout.is_complete() {
                self.pending_markouts.push(markout);
            }
        }
        proof {
            assert(i == all.len());
            assert(all.take(i) =~= all);
        }
    }
}

/// Samples the horizons of a fill that are due.
fn sample_one(
    pending: &mut PendingMarkout,
    fair_value: Option<Binary64>,
    now_ns: u64,
    commands: &mut Vec<Command>,
)
    requires
        base::horizons_fit(*old(pending)),
    ensures
        *final(pending) == after_sampling(*old(pending), now_ns),
        final(commands)@ == old(commands)@ + due_commands(*old(pending), fair_value, now_ns),
{
    let ghost start = *pending;
    let ghost first = commands@;
    let ghost from = pending.next_horizon_index as nat;
    proof {
        assert(commands@ =~= first + sample_commands(start, fair_value, from, from));
    }
    while pending.next_horizon_index < pending.horizons_ms.len()
        invariant
            base::horizons_fit(start),
            from == start.next_horizon_index,
            *pending == (PendingMarkout {
                next_horizon_index: pending.next_horizon_index,
                ..start
            }),
            from <= pending.next_horizon_index,
            next_index(start, now_ns, from) == next_index(
                start,
                now_ns,
                pending.next_horizon_index as nat,
            ),
            commands@ == first + sample_commands(
                start,
                fair_value,
                from,
                pending.next_horizon_index as nat,
            ),
        ensures
            next_index(start, now_ns, from) == pending.next_horizon_index,
        decreases pending.horizons_ms@.len() - pending.next_horizon_index,
    {
        let index = pending.next_horizon_index;
        let horizon_ms = pending.horizons_ms[index];
        if now_ns.saturating_sub(pending.fill_monotonic_ns) < horizon_ms * 1_000_000 {
            break;
        }
        let signed_markout = match fair_value {
            Some(fair) => Some(distance_behind(pending.side, pending.fill_price, fair)),
            None => None,
        };
        let sample = MarkoutSample {
            probe_id: pending.probe_id.clone(),
            oid: pending.oid,
            fill_id: pending.fill_id.clone(),
            horizon_ms,
            fill_price: pending.fill_price,
            fill_size: pending.fill_size,
            fair_value,
            signed_markout,
        };
        let ghost longer = commands@;
        commands.push(Command::Record(SystemEvent::Markout(sample)));
        pending.next_horizon_index = index + 1;
        proof {
            assert(sample == sample_of(start, fair_value, index as nat));
            assert(commands@ =~= first + sample_commands(
                start,
                fair_value,
                from,
                (index + 1) as nat,
            ));
        }
    }
}

} // verus!
