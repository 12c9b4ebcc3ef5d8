//! What a queue belief makes of the sizes and the trades that it sees.
use vstd::prelude::*;
use vstd::arithmetic::power2::*;
use crate::binary64::Binary64;
use crate::constants;
use crate::constants::{HALF, NINE_TENTHS, ONE, TENTH};
use crate::ordering;
use super::super::market_feed;
use super::super::state;
use super::super::state::{ActiveProbe, ProbePhase, ProbeSide, QueueBelief};

verus! {

/// `taken` is taken from an estimate, which does not fall below zero.
pub open spec fn without(estimate: Binary64, taken: Binary64) -> Binary64 {
    let left = estimate.difference(taken);
    if left.nan() || left.value() < 0 {
        ordering::zero()
    } else {
        left
    }
}

/// `x` is `estimate`, or the bound that it would cross.
pub open spec fn is_kept_between(
    x: Binary64,
    estimate: Binary64,
    low: Binary64,
    high: Binary64,
) -> bool {
    x.value() == (if estimate.value() < low.value() {
        low.value()
    } else if estimate.value() > high.value() {
        high.value()
    } else {
        estimate.value()
    })
}

proof fn lemma_removed(before: Binary64, after: Binary64)
    requires
        before.finite(),
        after.finite(),
        after.below(before),
    ensures
        after.difference(before).opposite() == before.difference(after),
        after.difference(before).below(ordering::zero()),
        !ordering::zero().below(after.difference(before)),
        ordering::zero().below(before.difference(after)),
{
    ordering::law_differences_compare(before, after);
    ordering::law_differences_compare(after, before);
    ordering::law_differences_are_opposite(before, after);
}

/// When the visible size at the price of an order falls by `r`, what went may
/// have stood ahead: the lower bound falls by `r`, the quantiles by a tenth, a
/// half and nine tenths of `r`. None falls below zero, each stays between the one
/// below it and the upper bound, and the upper bound stays where it is.
pub proof fn law_removals_shorten_the_queue(
    belief: QueueBelief,
    visible_size: Binary64,
    order_count: Option<u64>,
)
    requires
        belief.is_ordered(),
        visible_size.finite(),
        belief.same_price_visible_size.finite(),
        visible_size.value() >= 0,
        visible_size.below(belief.same_price_visible_size),
    ensures
        ({
            let after = belief.after_visible(visible_size, order_count);
            let r = belief.same_price_visible_size.difference(visible_size);
            let upper = belief.queue_ahead_upper;
            &&& after.queue_ahead_lower == without(belief.queue_ahead_lower, r)
            &&& is_kept_between(
                after.queue_ahead_p10,
                without(belief.queue_ahead_p10, r.product(constants::number(TENTH))),
                after.queue_ahead_lower,
                upper,
            )
            &&& is_kept_between(
                after.queue_ahead_p50,
                without(belief.queue_ahead_p50, r.product(constants::number(HALF))),
                after.queue_ahead_p10,
                upper,
            )
            &&& is_kept_between(
                after.queue_ahead_p90,
                without(belief.queue_ahead_p90, r.product(constants::number(NINE_TENTHS))),
                after.queue_ahead_p50,
                upper,
            )
            &&& after.queue_ahead_upper == upper
            &&& after.same_price_visible_size == visible_size
            &&& after.same_price_order_count == order_count
            &&& after.visible_remove_since_ack == belief.visible_remove_since_ack.sum(r)
            &&& after.visible_add_since_ack == belief.visible_add_since_ack
            &&& after.same_price_public_trades_since_ack
                == belief.same_price_public_trades_since_ack
            &&& after.method_version == belief.method_version
        }),
{
    ordering::lemma_zero_value();
    lemma_removed(belief.same_price_visible_size, visible_size);
    state::lemma_change_is_sound(belief, visible_size);
    state::law_sightings_keep_the_order(belief, visible_size, order_count);
}

/// A removal that is not lost in the last place of an estimate lowers it, where
/// the estimate below it leaves room.
pub proof fn law_removals_lower_every_estimate(
    belief: QueueBelief,
    visible_size: Binary64,
    order_count: Option<u64>,
)
    requires
        belief.is_ordered(),
        visible_size.finite(),
        belief.same_price_visible_size.finite(),
        visible_size.value() >= 0,
        visible_size.below(belief.same_price_visible_size),
        belief.queue_ahead_upper.finite(),
    ensures
        ({
            let after = belief.after_visible(visible_size, order_count);
            let r = belief.same_price_visible_size.difference(visible_size);
            &&& 0 < belief.queue_ahead_lower.value() <= r.value() * pow2(52)
                ==> after.queue_ahead_lower.below(belief.queue_ahead_lower)
            &&& 0 < belief.queue_ahead_p10.value() <= r.product(constants::number(TENTH)).value()
                * pow2(52) && after.queue_ahead_lower.below(belief.queue_ahead_p10)
                ==> after.queue_ahead_p10.below(belief.queue_ahead_p10)
            &&& 0 < belief.queue_ahead_p50.value() <= r.product(constants::number(HALF)).value()
                * pow2(52) && after.queue_ahead_p10.below(belief.queue_ahead_p50)
                ==> after.queue_ahead_p50.below(belief.queue_ahead_p50)
            &&& 0 < belief.queue_ahead_p90.value() <= r.product(
                constants::number(NINE_TENTHS),
            ).value() * pow2(52) && after.queue_ahead_p50.below(belief.queue_ahead_p90)
                ==> after.queue_ahead_p90.below(belief.queue_ahead_p90)
        }),
{
    let r = belief.same_price_visible_size.difference(visible_size);
    ordering::lemma_zero_value();
    lemma_removed(belief.same_price_visible_size, visible_size);
    state::lemma_change_is_sound(belief, visible_size);
    state::law_sightings_keep_the_order(belief, visible_size, order_count);
    constants::lemma_fractions_ordered();
    ordering::law_product_keeps_order(r, constants::number(TENTH), constants::number(HALF));
    ordering::law_product_keeps_order(r, constants::number(HALF), constants::number(NINE_TENTHS));
    ordering::law_product_keeps_order(r, constants::number(NINE_TENTHS), constants::number(ONE));
    lemma_falls(belief.queue_ahead_lower, r, belief.queue_ahead_upper);
    lemma_falls(
        belief.queue_ahead_p10,
        r.product(constants::number(TENTH)),
        belief.queue_ahead_upper,
    );
    lemma_falls(
        belief.queue_ahead_p50,
        r.product(constants::number(HALF)),
        belief.queue_ahead_upper,
    );
    lemma_falls(
        belief.queue_ahead_p90,
        r.product(constants::number(NINE_TENTHS)),
        belief.queue_ahead_upper,
    );
}

proof fn lemma_falls(x: Binary64, taken: Binary64, upper: Binary64)
    requires
        ordering::zero().not_above(x),
        x.not_above(upper),
        upper.finite(),
        ordering::zero().not_above(taken),
    ensures
        0 < x.value() <= taken.value() * pow2(52) ==> state::reduced(x, taken).below(x),
{
    ordering::lemma_zero_value();
    crate::binary64::lemma_compared(x, upper);
    if 0 < x.value() <= taken.value() * pow2(52) {
        assert(taken.value() > 0) by (nonlinear_arith)
            requires
                0 < taken.value() * pow2(52),
        ;
        ordering::lemma_below_infinity(x, upper);
        ordering::law_remainder_is_below(x, taken);
    }
}

/// What is added at the price stands behind the order and is counted; no
/// estimate moves.
pub proof fn law_additions_are_counted(
    belief: QueueBelief,
    visible_size: Binary64,
    order_count: Option<u64>,
)
    requires
        belief.is_ordered(),
        visible_size.finite(),
        belief.same_price_visible_size.finite(),
        visible_size.value() >= 0,
        belief.same_price_visible_size.below(visible_size),
    ensures
        ({
            let after = belief.after_visible(visible_size, order_count);
            &&& after == QueueBelief {
                same_price_visible_size: visible_size,
                same_price_order_count: order_count,
                visible_add_since_ack: belief.visible_add_since_ack.sum(
                    visible_size.difference(belief.same_price_visible_size),
                ),
                ..belief
            }
        }),
{
    ordering::lemma_zero_value();
    ordering::law_differences_compare(belief.same_price_visible_size, visible_size);
}

/// A size that is no number, that is infinite or negative tells nothing, and
/// neither does a trade without a size.
pub proof fn law_nonsense_tells_nothing(belief: QueueBelief, size: Binary64, count: Option<u64>)
    ensures
        size.nan() || size.infinite() || size.value() < 0 ==> belief.after_visible(size, count)
            == belief,
        size.nan() || size.infinite() || size.value() <= 0 ==> belief.after_trade(size) == belief,
{
    ordering::lemma_zero_value();
}

/// A trade at the price takes its size from every estimate, down to nothing, and
/// is counted. What was seen in the book stays as it is.
pub proof fn law_trades_take_their_size(belief: QueueBelief, size: Binary64)
    requires
        belief.is_ordered(),
        size.finite(),
        size.value() > 0,
    ensures
        ({
            let after = belief.after_trade(size);
            &&& after == QueueBelief {
                queue_ahead_lower: without(belief.queue_ahead_lower, size),
                queue_ahead_p10: without(belief.queue_ahead_p10, size),
                queue_ahead_p50: without(belief.queue_ahead_p50, size),
                queue_ahead_p90: without(belief.queue_ahead_p90, size),
                queue_ahead_upper: without(belief.queue_ahead_upper, size),
                same_price_public_trades_since_ack: belief.same_price_public_trades_since_ack.sum(
                    size,
                ),
                ..belief
            }
            &&& belief.queue_ahead_upper.not_above(size) ==> after.queue_ahead_upper.value() == 0
                && after.queue_ahead_p90.value() == 0
            &&& belief.queue_ahead_upper.finite() && size.below(belief.queue_ahead_upper)
                ==> after.queue_ahead_upper.value() > 0
        }),
{
    ordering::lemma_zero_value();
    let upper = belief.queue_ahead_upper;
    if upper.finite() {
        ordering::law_differences_compare(size, upper);
        ordering::lemma_below_infinity(belief.queue_ahead_p90, upper);
        ordering::law_differences_compare(size, belief.queue_ahead_p90);
    } else if upper.not_above(size) {
        ordering::lemma_below_infinity(upper, size);
    }
}

/// At first sight nothing is known of the place of the order: between nothing and
/// all of the others may stand ahead. The quantiles lie at a tenth, a half and
/// nine tenths of the others, and where the order stands alone nothing is ahead.
pub proof fn law_first_sight_knows_no_place(
    belief: QueueBelief,
    visible_size: Binary64,
    order_count: Option<u64>,
    own_size: Binary64,
)
    requires
        belief.is_initial(visible_size, order_count, own_size),
        visible_size.finite(),
        own_size.finite(),
    ensures
        belief.queue_ahead_lower.value() == 0,
        belief.queue_ahead_upper == without(visible_size, own_size),
        belief.queue_ahead_p10 == belief.queue_ahead_upper.product(constants::number(TENTH)),
        belief.queue_ahead_p50 == belief.queue_ahead_upper.product(constants::number(HALF)),
        belief.queue_ahead_p90 == belief.queue_ahead_upper.product(
            constants::number(NINE_TENTHS),
        ),
        visible_size.not_above(own_size) ==> belief.queue_ahead_upper.value() == 0
            && belief.queue_ahead_p90.value() == 0,
        own_size.below(visible_size) ==> belief.queue_ahead_upper.value() > 0,
        belief.same_price_visible_size == visible_size,
        belief.same_price_order_count == order_count,
        belief.same_price_public_trades_since_ack.value() == 0,
        belief.visible_add_since_ack.value() == 0,
        belief.visible_remove_since_ack.value() == 0,
{
    ordering::lemma_zero_value();
    ordering::law_differences_compare(own_size, visible_size);
    state::law_initial_belief_is_ordered(belief, visible_size, order_count, own_size);
}

/// A fill of the order shows that nothing is ahead of it any more.
pub proof fn law_fills_end_the_queue(belief: QueueBelief)
    ensures
        ({
            let after = belief.after_partial_fill();
            &&& after.queue_ahead_lower.value() == 0
            &&& after.queue_ahead_p10.value() == 0
            &&& after.queue_ahead_p50.value() == 0
            &&& after.queue_ahead_p90.value() == 0
            &&& after.queue_ahead_upper.value() == 0
            &&& after.is_ordered()
            &&& after.same_price_visible_size == belief.same_price_visible_size
            &&& after.same_price_order_count == belief.same_price_order_count
            &&& after.same_price_public_trades_since_ack
                == belief.same_price_public_trades_since_ack
            &&& after.visible_add_since_ack == belief.visible_add_since_ack
            &&& after.visible_remove_since_ack == belief.visible_remove_since_ack
            &&& after.method_version == belief.method_version
        }),
{
    ordering::lemma_zero_value();
}

/// One trade reaches the belief of an order exactly where the order rests, the
/// taker came from the other side, and the prices differ by no more than a tenth
/// of a tick.
pub proof fn law_only_trades_against_the_order_count(
    probe: ActiveProbe,
    taker: ProbeSide,
    price: Binary64,
    size: Binary64,
)
    ensures
        ({
            let rests = probe.phase == ProbePhase::Resting || probe.phase == ProbePhase::Partial;
            let against = match probe.side {
                ProbeSide::Bid => taker == ProbeSide::Ask,
                ProbeSide::Ask => taker == ProbeSide::Bid,
            };
            let near = price.difference(probe.price).absolute().not_above(
                probe.tick_size.product(constants::number(TENTH)),
            );
            market_feed::belief_after(probe, seq![(taker, price, size)]) == (if rests && against
                && near {
                probe.queue_belief.after_trade(size)
            } else {
                probe.queue_belief
            })
        }),
{
    let trades = seq![(taker, price, size)];
    assert(trades.drop_last() =~= Seq::<(ProbeSide, Binary64, Binary64)>::empty());
    reveal_with_fuel(market_feed::belief_after, 2);
}

/// Trades reach the belief one after the other.
pub proof fn law_trades_come_one_by_one(
    probe: ActiveProbe,
    trades: Seq<(ProbeSide, Binary64, Binary64)>,
    last: (ProbeSide, Binary64, Binary64),
)
    ensures
        market_feed::belief_after(probe, trades.push(last)) == market_feed::belief_after(
            ActiveProbe { queue_belief: market_feed::belief_after(probe, trades), ..probe },
            seq![last],
        ),
{
    assert(trades.push(last).drop_last() =~= trades);
    assert(seq![last].drop_last() =~= Seq::<(ProbeSide, Binary64, Binary64)>::empty());
    reveal_with_fuel(market_feed::belief_after, 2);
}

/// The trades of both sides are added up with their signs: a buyer's size counts
/// for, a seller's against.
pub proof fn law_signed_sizes_add_up(
    start: Binary64,
    trades: Seq<(ProbeSide, Binary64, Binary64)>,
    price: Binary64,
    size: Binary64,
)
    requires
        size.finite(),
    ensures
        ({
            let so_far = market_feed::signed_size(start, trades);
            let bought = market_feed::signed_size(start, trades.push((ProbeSide::Bid, price, size)));
            let sold = market_feed::signed_size(start, trades.push((ProbeSide::Ask, price, size)));
            &&& bought.nan() == so_far.sum(size).nan()
            &&& bought.value() == so_far.sum(size).value()
            &&& sold.nan() == so_far.difference(size).nan()
            &&& sold.value() == so_far.difference(size).value()
        }),
{
    let bid = (ProbeSide::Bid, price, size);
    let ask = (ProbeSide::Ask, price, size);
    assert(trades.push(bid).drop_last() =~= trades);
    assert(trades.push(ask).drop_last() =~= trades);
    ordering::law_unit_products(size);
    let so_far = market_feed::signed_size(start, trades);
    ordering::lemma_same_value_same_sum(
        so_far,
        constants::number(ONE).product(size),
        size,
    );
    ordering::lemma_opposite(size);
    ordering::lemma_same_value_same_sum(
        so_far,
        constants::number(constants::MINUS_ONE).product(size),
        size.opposite(),
    );
}

/// A size that did not change moves no estimate and counts as nothing, but the
/// number of orders is that of the sighting.
pub proof fn law_steady_sizes_move_nothing(
    belief: QueueBelief,
    visible_size: Binary64,
    order_count: Option<u64>,
)
    requires
        belief.is_ordered(),
        visible_size.finite(),
        belief.same_price_visible_size.finite(),
        visible_size.value() >= 0,
        visible_size.value() == belief.same_price_visible_size.value(),
    ensures
        belief.after_visible(visible_size, order_count) == (QueueBelief {
            same_price_visible_size: visible_size,
            same_price_order_count: order_count,
            ..belief
        }),
{
    ordering::lemma_zero_value();
    ordering::law_differences_compare(belief.same_price_visible_size, visible_size);
}

} // verus!
