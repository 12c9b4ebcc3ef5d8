//! Markouts and edges: what a fill gained, told by its side and the market.
use vstd::prelude::*;
use crate::arch::records::{MarkoutSample, SystemEvent};
use crate::binary64::Binary64;
use crate::ordering;
use super::super::base::ExecutionProbe;
use super::super::commands::Command;
use super::super::markouts;
use super::super::state;
use super::super::state::{PendingMarkout, ProbeSide};

verus! {

/// A distance in favour of a side: what the market stands above a purchase, or
/// below a sale. It is a gain exactly where the market moved in favour, and a
/// purchase and a sale at one price are opposite.
pub proof fn law_edges_favour_their_side(price: Binary64, reference: Binary64)
    requires
        price.finite(),
        reference.finite(),
    ensures
        ({
            let bought = state::behind(ProbeSide::Bid, price, reference);
            let sold = state::behind(ProbeSide::Ask, price, reference);
            &&& !bought.nan() && !sold.nan()
            &&& bought.value() > 0 <==> price.value() < reference.value()
            &&& bought.value() == 0 <==> price.value() == reference.value()
            &&& sold.value() > 0 <==> reference.value() < price.value()
            &&& sold.value() == 0 <==> price.value() == reference.value()
            &&& sold.value() == -bought.value()
            &&& bought == reference.difference(price)
            &&& sold == price.difference(reference)
        }),
{
    ordering::law_differences_compare(price, reference);
    ordering::law_differences_compare(reference, price);
    ordering::law_differences_are_opposite(price, reference);
    ordering::lemma_zero_value();
}

/// The record of a markout, told by its fill: it names the fill, the horizon and
/// the fair value, and its sign is that of the gain.
pub open spec fn tells_the_gain(
    sample: MarkoutSample,
    markout: PendingMarkout,
    horizon_ms: u64,
    fair_value: Option<Binary64>,
) -> bool {
    &&& sample.probe_id == markout.probe_id
    &&& sample.oid == markout.oid
    &&& sample.fill_id == markout.fill_id
    &&& sample.horizon_ms == horizon_ms
    &&& sample.fill_price == markout.fill_price
    &&& sample.fill_size == markout.fill_size
    &&& sample.fair_value == fair_value
    &&& match fair_value {
        None => sample.signed_markout is None,
        Some(fair) => {
            let gain = sample.signed_markout->0;
            &&& sample.signed_markout is Some
            &&& fair.finite() && markout.fill_price.finite() ==> match markout.side {
                ProbeSide::Bid => {
                    &&& gain == fair.difference(markout.fill_price)
                    &&& gain.value() >= 0 <==> fair.value() >= markout.fill_price.value()
                    &&& gain.value() <= 0 <==> fair.value() <= markout.fill_price.value()
                },
                ProbeSide::Ask => {
                    &&& gain == markout.fill_price.difference(fair)
                    &&& gain.value() >= 0 <==> fair.value() <= markout.fill_price.value()
                    &&& gain.value() <= 0 <==> fair.value() >= markout.fill_price.value()
                },
            }
        },
    }
}

/// The horizon lies `horizon_ms` after the fill, and is reached.
pub open spec fn is_reached(markout: PendingMarkout, horizon_ms: u64, now_ns: u64) -> bool {
    horizon_ms == 0 || markout.fill_monotonic_ns + horizon_ms * 1_000_000 <= now_ns
}

/// Sampling writes one record for each horizon that is reached, in their order,
/// from the first one that was not sampled yet to the first one that is not
/// reached. Each record is a gain exactly where the market moved in favour of
/// the fill.
pub proof fn law_markouts_tell_the_gain(
    markout: PendingMarkout,
    fair_value: Option<Binary64>,
    now_ns: u64,
)
    requires
        markout.next_horizon_index <= markout.horizons_ms@.len(),
    ensures
        ({
            let records = markouts::due_commands(markout, fair_value, now_ns);
            let from = markout.next_horizon_index;
            let horizons = markout.horizons_ms@;
            let after = markouts::after_sampling(markout, now_ns);
            &&& from + records.len() <= horizons.len()
            &&& forall|i: int|
                0 <= i < records.len() ==> {
                    &&& #[trigger] records[i] matches Command::Record(SystemEvent::Markout(sample))
                    &&& tells_the_gain(sample, markout, horizons[from + i], fair_value)
                    &&& is_reached(markout, horizons[from + i], now_ns)
                }
            &&& from + records.len() < horizons.len() ==> !is_reached(
                markout,
                horizons[from + records.len()],
                now_ns,
            )
            &&& after == (PendingMarkout {
                next_horizon_index: (from + records.len()) as usize,
                ..markout
            })
        }),
{
    let from = markout.next_horizon_index as nat;
    markouts::lemma_next_index(markout, now_ns, from);
    assert(markout.horizons_ms@.len() <= usize::MAX) by {
        vstd::std_specs::vec::axiom_spec_len(&markout.horizons_ms);
    }
    let records = markouts::due_commands(markout, fair_value, now_ns);
    assert forall|i: int| 0 <= i < records.len() implies {
        &&& #[trigger] records[i] matches Command::Record(SystemEvent::Markout(sample))
        &&& tells_the_gain(sample, markout, markout.horizons_ms@[from + i], fair_value)
        &&& is_reached(markout, markout.horizons_ms@[from + i], now_ns)
    } by {
        if fair_value is Some && fair_value->0.finite() && markout.fill_price.finite() {
            law_edges_favour_their_side(markout.fill_price, fair_value->0);
        }
    }
}

/// A bid and an ask fill at one price have opposite markouts.
pub proof fn law_sides_have_opposite_markouts(
    bid: PendingMarkout,
    ask: PendingMarkout,
    fair: Binary64,
    index: nat,
)
    requires
        bid.side == ProbeSide::Bid,
        ask.side == ProbeSide::Ask,
        bid.fill_price == ask.fill_price,
        bid.fill_price.finite(),
        fair.finite(),
    ensures
        markouts::sample_of(bid, Some(fair), index).signed_markout is Some,
        markouts::sample_of(ask, Some(fair), index).signed_markout is Some,
        markouts::sample_of(bid, Some(fair), index).signed_markout->0.value()
            == -markouts::sample_of(ask, Some(fair), index).signed_markout->0.value(),
{
    law_edges_favour_their_side(bid.fill_price, fair);
}

/// The fills are sampled one after the other, each on its own.
pub proof fn law_fills_are_sampled_in_order(
    earlier: Seq<PendingMarkout>,
    last: PendingMarkout,
    fair_value: Option<Binary64>,
    now_ns: u64,
)
    ensures
        markouts::all_due_commands(Seq::empty(), fair_value, now_ns).len() == 0,
        markouts::all_due_commands(earlier.push(last), fair_value, now_ns)
            == markouts::all_due_commands(earlier, fair_value, now_ns) + markouts::due_commands(
            last,
            fair_value,
            now_ns,
        ),
{
    assert(earlier.push(last).drop_last() =~= earlier);
}

/// A fill is forgotten exactly when its last horizon was sampled, and the others
/// keep their order.
pub proof fn law_only_complete_markouts_are_dropped(
    earlier: Seq<PendingMarkout>,
    last: PendingMarkout,
)
    ensures
        markouts::incomplete(Seq::empty()).len() == 0,
        markouts::incomplete(earlier.push(last)) == (if last.next_horizon_index
            < last.horizons_ms@.len() {
            markouts::incomplete(earlier).push(last)
        } else {
            markouts::incomplete(earlier)
        }),
{
    reveal(Seq::filter);
    assert(earlier.push(last).drop_last() =~= earlier);
}

/// Every record that sampling writes is of a pending fill and of a horizon that it
/// has reached, and is a gain exactly where the market moved in favour of that fill.
proof fn lemma_all_records_tell_a_gain(
    pending: Seq<PendingMarkout>,
    fair_value: Option<Binary64>,
    now_ns: u64,
    k: int,
)
    requires
        forall|i: int|
            0 <= i < pending.len() ==> (#[trigger] pending[i]).next_horizon_index
                <= pending[i].horizons_ms@.len(),
        0 <= k < markouts::all_due_commands(pending, fair_value, now_ns).len(),
    ensures
        markouts::all_due_commands(pending, fair_value, now_ns)[k] matches Command::Record(
            SystemEvent::Markout(sample),
        ) && is_sampled_from(sample, pending, fair_value, now_ns),
    decreases pending.len(),
{
    let earlier = pending.drop_last();
    let last = pending.last();
    assert(earlier.push(last) =~= pending);
    law_fills_are_sampled_in_order(earlier, last, fair_value, now_ns);
    let first = markouts::all_due_commands(earlier, fair_value, now_ns);
    if k < first.len() {
        assert forall|i: int| 0 <= i < earlier.len() implies (
        #[trigger] earlier[i]).next_horizon_index <= earlier[i].horizons_ms@.len() by {
            assert(earlier[i] == pending[i]);
        }
        lemma_all_records_tell_a_gain(earlier, fair_value, now_ns, k);
        let sample = first[k]->Record_0->Markout_0;
        let (i, h) = choose|i: int, h: u64|
            0 <= i < earlier.len() && #[trigger] tells_the_gain(sample, earlier[i], h, fair_value)
                && is_reached(earlier[i], h, now_ns);
        assert(tells_the_gain(sample, pending[i], h, fair_value));
    } else {
        assert(pending[pending.len() - 1] == last);
        law_markouts_tell_the_gain(last, fair_value, now_ns);
        let records = markouts::due_commands(last, fair_value, now_ns);
        let j = k - first.len();
        assert(records[j] == markouts::all_due_commands(pending, fair_value, now_ns)[k]);
        let h = last.horizons_ms@[last.next_horizon_index + j];
        let sample = records[j]->Record_0->Markout_0;
        assert(tells_the_gain(sample, pending[pending.len() - 1], h, fair_value));
    }
}

/// A sample tells the gain of some pending fill at some horizon that it has reached.
pub open spec fn is_sampled_from(
    sample: MarkoutSample,
    pending: Seq<PendingMarkout>,
    fair_value: Option<Binary64>,
    now_ns: u64,
) -> bool {
    exists|i: int, h: u64|
        0 <= i < pending.len() && #[trigger] tells_the_gain(sample, pending[i], h, fair_value)
            && is_reached(pending[i], h, now_ns)
}

/// Sampling writes records of pending fills only, each of them a gain exactly where
/// the fair value moved in favour of its fill, and ends with forgetting the complete
/// ones. Every fill stays in its place, as far sampled as its horizons are reached.
pub proof fn law_sampling_tells_the_gains(
    before: ExecutionProbe,
    after: ExecutionProbe,
    commands: Seq<Command>,
    now_ns: u64,
    k: int,
)
    requires
        before.has_sampled(after, commands, now_ns),
        forall|i: int|
            0 <= i < before.pending_markouts@.len() ==> (
            #[trigger] before.pending_markouts@[i]).next_horizon_index
                <= before.pending_markouts@[i].horizons_ms@.len(),
        0 <= k < commands.len(),
    ensures
        commands.last() is DropCompleteMarkouts,
        k < commands.len() - 1 ==> {
            &&& commands[k] matches Command::Record(SystemEvent::Markout(sample))
            &&& is_sampled_from(sample, before.pending_markouts@, before.market.fair(), now_ns)
        },
        after.pending_markouts@.len() == before.pending_markouts@.len(),
        forall|i: int|
            0 <= i < after.pending_markouts@.len() ==> #[trigger] after.pending_markouts@[i]
                == markouts::after_sampling(before.pending_markouts@[i], now_ns),
        after.account == before.account,
        after.active_probe == before.active_probe,
{
    if k < commands.len() - 1 {
        lemma_all_records_tell_a_gain(
            before.pending_markouts@,
            before.market.fair(),
            now_ns,
            k,
        );
    }
}

} // verus!
