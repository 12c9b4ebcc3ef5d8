//! Market, account, order and queue-belief data structures.
use vstd::hash_map::StringHashMap;
use vstd::prelude::*;
use crate::binary64::Binary64;
use crate::constants;
use crate::constants::{HALF, MINUS_ONE, NINE_TENTHS, ONE, TENTH, ZERO};
use crate::ordering;
use crate::arch::vocabulary::Trigger;
use crate::text::{owned, same};

verus! {

/// The state of one websocket connection.
#[derive(Debug)]
pub struct ConnectionState {
    pub generation: u64,
    pub connection_id: String,
    pub frame_seq: u64,
    pub last_receive_monotonic_ns: Option<u64>,
}

impl Default for ConnectionState {
    fn default() -> (r: Self)
        ensures
            r.generation == 0,
            r.connection_id@ == Seq::<char>::empty(),
            r.frame_seq == 0,
            r.last_receive_monotonic_ns is None,
    {
        ConnectionState {
            generation: 0,
            connection_id: String::new(),
            frame_seq: 0,
            last_receive_monotonic_ns: None,
        }
    }
}

/// The side of an order or of a trade.
#[derive(Clone, Copy, Debug, PartialEq, Eq, Structural)]
pub enum ProbeSide {
    Bid,
    Ask,
}

impl ProbeSide {
    /// The side that an order names in an action.
    pub open spec fn action_side(self) -> Seq<char> {
        match self {
            ProbeSide::Bid => "buy"@,
            ProbeSide::Ask => "sell"@,
        }
    }

    /// One for a bid, minus one for an ask.
    pub open spec fn sign(self) -> Binary64 {
        match self {
            ProbeSide::Bid => constants::number(ONE),
            ProbeSide::Ask => constants::number(MINUS_ONE),
        }
    }

    pub fn as_action_side(self) -> (r: &'static str)
        ensures
            r@ == self.action_side(),
    {
        match self {
            ProbeSide::Bid => "buy",
            ProbeSide::Ask => "sell",
        }
    }

    pub fn order_sign(self) -> (r: Binary64)
        ensures
            r == self.sign(),
    {
        match self {
            ProbeSide::Bid => Binary64 { bits: ONE },
            ProbeSide::Ask => Binary64 { bits: MINUS_ONE },
        }
    }
}

/// Where a probe stands in its lifecycle.
#[derive(Clone, Copy, Debug, PartialEq, Eq, Structural)]
pub enum ProbePhase {
    PlacePending,
    PostAccepted,
    Resting,
    Partial,
    CancelPending,
    Filled,
    MarkoutPending,
    FlattenPending,
    Recovering,
}

/// What is left of `x` after `taken` was taken from it, but no less than zero.
pub open spec fn reduced(x: Binary64, taken: Binary64) -> Binary64 {
    x.difference(taken).larger(constants::number(ZERO))
}

fn reduce(x: Binary64, taken: Binary64) -> (r: Binary64)
    ensures
        r == reduced(x, taken),
{
    x.minus(taken).max(Binary64 { bits: ZERO })
}

/// An interval estimate of the queue ahead of a resting order, from the book
/// and the trades that everybody sees.
#[derive(Debug)]
pub struct QueueBelief {
    pub queue_ahead_lower: Binary64,
    pub queue_ahead_p10: Binary64,
    pub queue_ahead_p50: Binary64,
    pub queue_ahead_p90: Binary64,
    pub queue_ahead_upper: Binary64,
    pub same_price_visible_size: Binary64,
    pub same_price_order_count: Option<u64>,
    pub same_price_public_trades_since_ack: Binary64,
    pub visible_add_since_ack: Binary64,
    pub visible_remove_since_ack: Binary64,
    pub method_version: String,
}

impl Default for QueueBelief {
    fn default() -> (r: Self)
        ensures
            r.is_blank(),
    {
        let zero = Binary64 { bits: ZERO };
        QueueBelief {
            queue_ahead_lower: zero,
            queue_ahead_p10: zero,
            queue_ahead_p50: zero,
            queue_ahead_p90: zero,
            queue_ahead_upper: zero,
            same_price_visible_size: zero,
            same_price_order_count: None,
            same_price_public_trades_since_ack: zero,
            visible_add_since_ack: zero,
            visible_remove_since_ack: zero,
            method_version: String::new(),
        }
    }
}

impl QueueBelief {
    /// Nothing is believed yet.
    pub open spec fn is_blank(self) -> bool {
        let zero = constants::number(ZERO);
        &&& self == (QueueBelief {
            queue_ahead_lower: zero,
            queue_ahead_p10: zero,
            queue_ahead_p50: zero,
            queue_ahead_p90: zero,
            queue_ahead_upper: zero,
            same_price_visible_size: zero,
            same_price_order_count: None,
            same_price_public_trades_since_ack: zero,
            visible_add_since_ack: zero,
            visible_remove_since_ack: zero,
            method_version: self.method_version,
        })
        &&& self.method_version@ == Seq::<char>::empty()
    }

    /// The bounds and the quantiles between them are numbers in their order,
    /// and none is negative.
    pub open spec fn is_ordered(self) -> bool {
        &&& ordering::zero().not_above(self.queue_ahead_lower)
        &&& self.queue_ahead_lower.not_above(self.queue_ahead_p10)
        &&& self.queue_ahead_p10.not_above(self.queue_ahead_p50)
        &&& self.queue_ahead_p50.not_above(self.queue_ahead_p90)
        &&& self.queue_ahead_p90.not_above(self.queue_ahead_upper)
    }

    /// The belief at the first sight of the order: anything from nothing to all
    /// of the other visible size may be ahead.
    pub open spec fn is_initial(
        self,
        visible_size: Binary64,
        order_count: Option<u64>,
        own_size: Binary64,
    ) -> bool {
        let zero = constants::number(ZERO);
        let ahead = reduced(visible_size, own_size);
        &&& self == (QueueBelief {
            queue_ahead_lower: zero,
            queue_ahead_p10: ahead.product(constants::number(TENTH)),
            queue_ahead_p50: ahead.product(constants::number(HALF)),
            queue_ahead_p90: ahead.product(constants::number(NINE_TENTHS)),
            queue_ahead_upper: ahead,
            same_price_visible_size: visible_size,
            same_price_order_count: order_count,
            same_price_public_trades_since_ack: zero,
            visible_add_since_ack: zero,
            visible_remove_since_ack: zero,
            method_version: self.method_version,
        })
        &&& self.method_version@ == "interval_fifo_v1"@
    }

    /// The belief after a trade at the price of the order.
    pub open spec fn after_trade(self, size: Binary64) -> QueueBelief {
        if !size.finite() || size.not_above(constants::number(ZERO)) {
            self
        } else {
            QueueBelief {
                same_price_public_trades_since_ack: self.same_price_public_trades_since_ack.sum(
                    size,
                ),
                queue_ahead_lower: reduced(self.queue_ahead_lower, size),
                queue_ahead_p10: reduced(self.queue_ahead_p10, size),
                queue_ahead_p50: reduced(self.queue_ahead_p50, size),
                queue_ahead_p90: reduced(self.queue_ahead_p90, size),
                queue_ahead_upper: reduced(self.queue_ahead_upper, size),
                ..self
            }
        }
    }

    /// The belief after the visible size has changed, before the quantiles are
    /// put back into their order.
    pub open spec fn after_change(self, visible_size: Binary64) -> QueueBelief {
        let zero = constants::number(ZERO);
        let delta = visible_size.difference(self.same_price_visible_size);
        if zero.below(delta) {
            QueueBelief { visible_add_since_ack: self.visible_add_since_ack.sum(delta), ..self }
        } else if delta.below(zero) {
            let removed = delta.opposite();
            QueueBelief {
                visible_remove_since_ack: self.visible_remove_since_ack.sum(removed),
                queue_ahead_lower: reduced(self.queue_ahead_lower, removed),
                queue_ahead_p10: reduced(
                    self.queue_ahead_p10,
                    removed.product(constants::number(TENTH)),
                ),
                queue_ahead_p50: reduced(
                    self.queue_ahead_p50,
                    removed.product(constants::number(HALF)),
                ),
                queue_ahead_p90: reduced(
                    self.queue_ahead_p90,
                    removed.product(constants::number(NINE_TENTHS)),
                ),
                ..self
            }
        } else {
            self
        }
    }

    /// The quantiles, each moved between the one below it and the upper bound.
    pub open spec fn clamped(self) -> QueueBelief {
        let p10 = self.queue_ahead_p10.confined(self.queue_ahead_lower, self.queue_ahead_upper);
        let p50 = self.queue_ahead_p50.confined(p10, self.queue_ahead_upper);
        let p90 = self.queue_ahead_p90.confined(p50, self.queue_ahead_upper);
        QueueBelief { queue_ahead_p10: p10, queue_ahead_p50: p50, queue_ahead_p90: p90, ..self }
    }

    /// The belief after the visible size at the price of the order was seen.
    pub open spec fn after_visible(
        self,
        visible_size: Binary64,
        order_count: Option<u64>,
    ) -> QueueBelief {
        if !visible_size.finite() || visible_size.below(constants::number(ZERO)) {
            self
        } else {
            QueueBelief {
                same_price_visible_size: visible_size,
                same_price_order_count: order_count,
                ..self.after_change(visible_size)
            }.clamped()
        }
    }

    /// The belief after a fill of the order: nothing is ahead of it.
    pub open spec fn after_partial_fill(self) -> QueueBelief {
        let zero = constants::number(ZERO);
        QueueBelief {
            queue_ahead_lower: zero,
            queue_ahead_p10: zero,
            queue_ahead_p50: zero,
            queue_ahead_p90: zero,
            queue_ahead_upper: zero,
            ..self
        }
    }

    pub fn initialize(visible_size: Binary64, order_count: Option<u64>, own_size: Binary64) -> (r:
        Self)
        ensures
            r.is_initial(visible_size, order_count, own_size),
            r.is_ordered(),
    {
        let zero = Binary64 { bits: ZERO };
        let possible_ahead = reduce(visible_size, own_size);
        let r = QueueBelief {
            queue_ahead_lower: zero,
            queue_ahead_p10: possible_ahead.times(Binary64 { bits: TENTH }),
            queue_ahead_p50: possible_ahead.times(Binary64 { bits: HALF }),
            queue_ahead_p90: possible_ahead.times(Binary64 { bits: NINE_TENTHS }),
            queue_ahead_upper: possible_ahead,
            same_price_visible_size: visible_size,
            same_price_order_count: order_count,
            same_price_public_trades_since_ack: zero,
            visible_add_since_ack: zero,
            visible_remove_since_ack: zero,
            method_version: owned("interval_fifo_v1"),
        };
        proof {
            law_initial_belief_is_ordered(r, visible_size, order_count, own_size);
        }
        r
    }

    pub fn observe_trade(&mut self, size: Binary64)
        ensures
            *final(self) == old(self).after_trade(size),
            old(self).is_ordered() ==> final(self).is_ordered(),
    {
        proof {
            if self.is_ordered() {
                law_trades_keep_the_order(*self, size);
            }
        }
        if !size.is_finite() || size.le(Binary64 { bits: ZERO }) {
            return ;
        }
        self.same_price_public_trades_since_ack = self.same_price_public_trades_since_ack.plus(
            size,
        );
        self.queue_ahead_lower = reduce(self.queue_ahead_lower, size);
        self.queue_ahead_p10 = reduce(self.queue_ahead_p10, size);
        self.queue_ahead_p50 = reduce(self.queue_ahead_p50, size);
        self.queue_ahead_p90 = reduce(self.queue_ahead_p90, size);
        self.queue_ahead_upper = reduce(self.queue_ahead_upper, size);
    }

    pub fn observe_visible(&mut self, visible_size: Binary64, order_count: Option<u64>)
        requires
            old(self).is_ordered(),
        ensures
            *final(self) == old(self).after_visible(visible_size, order_count),
            final(self).is_ordered(),
    {
        let zero = Binary64 { bits: ZERO };
        proof {
            law_sightings_keep_the_order(*self, visible_size, order_count);
        }
        if !visible_size.is_finite() || visible_size.lt(zero) {
            return ;
        }
        let ghost before = *self;
        let delta = visible_size.minus(self.same_price_visible_size);
        if zero.lt(delta) {
            self.visible_add_since_ack = self.visible_add_since_ack.plus(delta);
        } else if delta.lt(zero) {
            let removed = delta.neg();
            self.visible_remove_since_ack = self.visible_remove_since_ack.plus(removed);
            self.queue_ahead_lower = reduce(self.queue_ahead_lower, removed);
            self.queue_ahead_p10 = reduce(
                self.queue_ahead_p10,
                removed.times(Binary64 { bits: TENTH }),
            );
            self.queue_ahead_p50 = reduce(
                self.queue_ahead_p50,
                removed.times(Binary64 { bits: HALF }),
            );
            self.queue_ahead_p90 = reduce(
                self.queue_ahead_p90,
                removed.times(Binary64 { bits: NINE_TENTHS }),
            );
        }
        self.same_price_visible_size = visible_size;
        self.same_price_order_count = order_count;
        proof {
            lemma_change_is_sound(before, visible_size);
        }
        self.clamp();
    }

    pub fn observe_partial_fill(&mut self)
        ensures
            *final(self) == old(self).after_partial_fill(),
            final(self).is_ordered(),
    {
        let zero = Binary64 { bits: ZERO };
        proof {
            ordering::lemma_zero_value();
        }
        self.queue_ahead_lower = zero;
        self.queue_ahead_p10 = zero;
        self.queue_ahead_p50 = zero;
        self.queue_ahead_p90 = zero;
        self.queue_ahead_upper = zero;
    }

    fn clamp(&mut self)
        requires
            old(self).queue_ahead_lower.not_above(old(self).queue_ahead_upper),
            !old(self).queue_ahead_p10.nan(),
            !old(self).queue_ahead_p50.nan(),
        ensures
            *final(self) == old(self).clamped(),
    {
        proof {
            ordering::law_confined_lies_within(
                self.queue_ahead_p10,
                self.queue_ahead_lower,
                self.queue_ahead_upper,
            );
        }
        self.queue_ahead_p10 = self.queue_ahead_p10.clamp(
            self.queue_ahead_lower,
            self.queue_ahead_upper,
        );
        proof {
            ordering::law_confined_lies_within(
                self.queue_ahead_p50,
                self.queue_ahead_p10,
                self.queue_ahead_upper,
            );
        }
        self.queue_ahead_p50 = self.queue_ahead_p50.clamp(
            self.queue_ahead_p10,
            self.queue_ahead_upper,
        );
        self.queue_ahead_p90 = self.queue_ahead_p90.clamp(
            self.queue_ahead_p50,
            self.queue_ahead_upper,
        );
    }

    /// The same belief.
    pub fn duplicate(&self) -> (r: QueueBelief)
        ensures
            r == *self,
    {
        QueueBelief {
            queue_ahead_lower: self.queue_ahead_lower,
            queue_ahead_p10: self.queue_ahead_p10,
            queue_ahead_p50: self.queue_ahead_p50,
            queue_ahead_p90: self.queue_ahead_p90,
            queue_ahead_upper: self.queue_ahead_upper,
            same_price_visible_size: self.same_price_visible_size,
            same_price_order_count: self.same_price_order_count,
            same_price_public_trades_since_ack: self.same_price_public_trades_since_ack,
            visible_add_since_ack: self.visible_add_since_ack,
            visible_remove_since_ack: self.visible_remove_since_ack,
            method_version: self.method_version.clone(),
        }
    }
}

/// The initial belief is ordered, whatever the sizes are.
pub proof fn law_initial_belief_is_ordered(
    belief: QueueBelief,
    visible_size: Binary64,
    order_count: Option<u64>,
    own_size: Binary64,
)
    requires
        belief.is_initial(visible_size, order_count, own_size),
    ensures
        belief.is_ordered(),
{
    let ahead = reduced(visible_size, own_size);
    let tenth = constants::number(TENTH);
    let half = constants::number(HALF);
    let most = constants::number(NINE_TENTHS);
    let one = constants::number(ONE);
    ordering::lemma_zero_value();
    constants::lemma_fractions_ordered();
    ordering::law_product_keeps_order(ahead, tenth, half);
    ordering::law_product_keeps_order(ahead, half, most);
    ordering::law_product_keeps_order(ahead, most, one);
    ordering::law_times_one(ahead);
}

/// A trade keeps an ordered belief ordered, whatever its size is.
pub proof fn law_trades_keep_the_order(belief: QueueBelief, size: Binary64)
    requires
        belief.is_ordered(),
    ensures
        belief.after_trade(size).is_ordered(),
{
    if size.finite() && !size.not_above(constants::number(ZERO)) {
        ordering::law_remainders_keep_order(
            belief.queue_ahead_lower,
            belief.queue_ahead_p10,
            size,
        );
        ordering::law_remainders_keep_order(belief.queue_ahead_p10, belief.queue_ahead_p50, size);
        ordering::law_remainders_keep_order(belief.queue_ahead_p50, belief.queue_ahead_p90, size);
        ordering::law_remainders_keep_order(
            belief.queue_ahead_p90,
            belief.queue_ahead_upper,
            size,
        );
    }
}

/// A change of the visible size leaves the bounds in their order and makes
/// nothing that is not a number.
pub proof fn lemma_change_is_sound(belief: QueueBelief, visible_size: Binary64)
    requires
        belief.is_ordered(),
    ensures
        ({
            let changed = belief.after_change(visible_size);
            &&& ordering::zero().not_above(changed.queue_ahead_lower)
            &&& changed.queue_ahead_lower.not_above(changed.queue_ahead_upper)
            &&& !changed.queue_ahead_p10.nan()
            &&& !changed.queue_ahead_p50.nan()
            &&& !changed.queue_ahead_p90.nan()
        }),
{
    let zero = constants::number(ZERO);
    let delta = visible_size.difference(belief.same_price_visible_size);
    ordering::lemma_zero_value();
    if !zero.below(delta) && delta.below(zero) {
        ordering::lemma_opposite(delta);
        ordering::law_remainder_is_not_above(belief.queue_ahead_lower, delta.opposite());
    }
}

/// A sight of the visible size keeps an ordered belief ordered, whatever the
/// size is.
pub proof fn law_sightings_keep_the_order(
    belief: QueueBelief,
    visible_size: Binary64,
    order_count: Option<u64>,
)
    requires
        belief.is_ordered(),
    ensures
        belief.after_visible(visible_size, order_count).is_ordered(),
{
    if visible_size.finite() && !visible_size.below(constants::number(ZERO)) {
        lemma_change_is_sound(belief, visible_size);
        let changed = belief.after_change(visible_size);
        let low = changed.queue_ahead_lower;
        let high = changed.queue_ahead_upper;
        let p10 = changed.queue_ahead_p10.confined(low, high);
        let p50 = changed.queue_ahead_p50.confined(p10, high);
        ordering::law_confined_lies_within(changed.queue_ahead_p10, low, high);
        ordering::law_confined_lies_within(changed.queue_ahead_p50, p10, high);
        ordering::law_confined_lies_within(changed.queue_ahead_p90, p50, high);
    }
}

/// No estimate of the second belief is above that of the first.
pub open spec fn not_lengthened(before: QueueBelief, after: QueueBelief) -> bool {
    &&& after.queue_ahead_lower.not_above(before.queue_ahead_lower)
    &&& after.queue_ahead_p10.not_above(before.queue_ahead_p10)
    &&& after.queue_ahead_p50.not_above(before.queue_ahead_p50)
    &&& after.queue_ahead_p90.not_above(before.queue_ahead_p90)
    &&& after.queue_ahead_upper.not_above(before.queue_ahead_upper)
}

/// A trade at the price of the order lets no estimate of the queue grow.
pub proof fn law_trades_never_lengthen_the_queue(belief: QueueBelief, size: Binary64)
    requires
        belief.is_ordered(),
    ensures
        not_lengthened(belief, belief.after_trade(size)),
{
    ordering::lemma_zero_value();
    if size.finite() && !size.not_above(constants::number(ZERO)) {
        ordering::law_remainder_is_not_above(belief.queue_ahead_lower, size);
        ordering::law_remainder_is_not_above(belief.queue_ahead_p10, size);
        ordering::law_remainder_is_not_above(belief.queue_ahead_p50, size);
        ordering::law_remainder_is_not_above(belief.queue_ahead_p90, size);
        ordering::law_remainder_is_not_above(belief.queue_ahead_upper, size);
    }
}

/// A sight of the visible size lets no estimate of the queue grow, and leaves
/// the upper bound as it is.
pub proof fn law_sightings_never_lengthen_the_queue(
    belief: QueueBelief,
    visible_size: Binary64,
    order_count: Option<u64>,
)
    requires
        belief.is_ordered(),
    ensures
        not_lengthened(belief, belief.after_visible(visible_size, order_count)),
        belief.after_visible(visible_size, order_count).queue_ahead_upper
            == belief.queue_ahead_upper,
{
    let zero = constants::number(ZERO);
    let delta = visible_size.difference(belief.same_price_visible_size);
    ordering::lemma_zero_value();
    if !zero.below(delta) && delta.below(zero) {
        let removed = delta.opposite();
        let tenth = constants::number(TENTH);
        let half = constants::number(HALF);
        let most = constants::number(NINE_TENTHS);
        let one = constants::number(ONE);
        ordering::lemma_opposite(delta);
        constants::lemma_fractions_ordered();
        ordering::law_product_keeps_order(removed, tenth, half);
        ordering::law_product_keeps_order(removed, half, most);
        ordering::law_product_keeps_order(removed, most, one);
        ordering::law_remainder_is_not_above(belief.queue_ahead_lower, removed);
        ordering::law_remainder_is_not_above(belief.queue_ahead_p10, removed.product(tenth));
        ordering::law_remainder_is_not_above(belief.queue_ahead_p50, removed.product(half));
        ordering::law_remainder_is_not_above(belief.queue_ahead_p90, removed.product(most));
    }
}

/// Where no less is visible than before, the newcomers stand behind the order:
/// no estimate of the queue changes.
pub proof fn law_newcomers_stand_behind(
    belief: QueueBelief,
    visible_size: Binary64,
    order_count: Option<u64>,
)
    requires
        belief.is_ordered(),
        belief.same_price_visible_size.not_above(visible_size),
    ensures
        ({
            let after = belief.after_visible(visible_size, order_count);
            &&& after.queue_ahead_lower == belief.queue_ahead_lower
            &&& after.queue_ahead_p10 == belief.queue_ahead_p10
            &&& after.queue_ahead_p50 == belief.queue_ahead_p50
            &&& after.queue_ahead_p90 == belief.queue_ahead_p90
            &&& after.queue_ahead_upper == belief.queue_ahead_upper
        }),
{
    ordering::lemma_zero_value();
    if visible_size.finite() {
        ordering::law_difference_is_not_negative(belief.same_price_visible_size, visible_size);
    }
}

/// One price of a book.
#[derive(Clone, Copy, Debug, PartialEq, Eq, Structural)]
pub struct BookLevel {
    pub price: Binary64,
    pub size: Binary64,
    pub order_count: Option<u64>,
}

/// A book, best prices first.
#[derive(Debug)]
pub struct BookState {
    pub received_monotonic_ns: u64,
    pub exchange_ts_ns: Option<u64>,
    pub bids: Vec<BookLevel>,
    pub asks: Vec<BookLevel>,
}

impl Default for BookState {
    fn default() -> (r: Self)
        ensures
            r.is_blank(),
    {
        BookState {
            received_monotonic_ns: 0,
            exchange_ts_ns: None,
            bids: Vec::new(),
            asks: Vec::new(),
        }
    }
}

/// A bid above zero and an ask that is not below it.
pub open spec fn is_valid_quote(bid: Option<Binary64>, ask: Option<Binary64>) -> bool {
    bid is Some && ask is Some && constants::number(ZERO).below(bid->0) && bid->0.not_above(ask->0)
}

fn valid_quote(bid: Option<Binary64>, ask: Option<Binary64>) -> (r: bool)
    ensures
        r == is_valid_quote(bid, ask),
{
    match (bid, ask) {
        (Some(bid), Some(ask)) => Binary64 { bits: ZERO }.lt(bid) && bid.le(ask),
        _ => false,
    }
}

/// The price of the first level.
pub open spec fn top_price(levels: Seq<BookLevel>) -> Option<Binary64> {
    if levels.len() > 0 {
        Some(levels[0].price)
    } else {
        None
    }
}

/// Two prices are the same, up to a tenth of a tick.
pub open spec fn is_same_price(a: Binary64, b: Binary64, tick: Binary64) -> bool {
    a.difference(b).absolute().not_above(tick.product(constants::number(TENTH)))
}

/// Whether two prices are the same, up to a tenth of a tick.
pub fn same_price(a: Binary64, b: Binary64, tick: Binary64) -> (r: bool)
    ensures
        r == is_same_price(a, b, tick),
{
    a.minus(b).abs().le(tick.times(Binary64 { bits: TENTH }))
}

/// The first level at a price.
pub open spec fn level_at(levels: Seq<BookLevel>, price: Binary64, tick: Binary64) -> Option<
    BookLevel,
>
    decreases levels.len(),
{
    if levels.len() == 0 {
        None
    } else if is_same_price(levels[0].price, price, tick) {
        Some(levels[0])
    } else {
        level_at(levels.skip(1), price, tick)
    }
}

impl BookState {
    /// Nothing is known yet.
    pub open spec fn is_blank(self) -> bool {
        &&& self.received_monotonic_ns == 0
        &&& self.exchange_ts_ns is None
        &&& self.bids@.len() == 0
        &&& self.asks@.len() == 0
    }

    pub open spec fn bid(self) -> Option<Binary64> {
        top_price(self.bids@)
    }

    pub open spec fn ask(self) -> Option<Binary64> {
        top_price(self.asks@)
    }

    /// The middle of a valid quote.
    pub open spec fn middle(self) -> Option<Binary64> {
        if is_valid_quote(self.bid(), self.ask()) {
            Some(self.bid()->0.sum(self.ask()->0).product(constants::number(HALF)))
        } else {
            None
        }
    }

    /// The levels of one side.
    pub open spec fn side_levels(self, side: ProbeSide) -> Seq<BookLevel> {
        match side {
            ProbeSide::Bid => self.bids@,
            ProbeSide::Ask => self.asks@,
        }
    }

    pub fn best_bid(&self) -> (r: Option<Binary64>)
        ensures
            r == self.bid(),
    {
        if self.bids.len() > 0 {
            Some(self.bids[0].price)
        } else {
            None
        }
    }

    pub fn best_ask(&self) -> (r: Option<Binary64>)
        ensures
            r == self.ask(),
    {
        if self.asks.len() > 0 {
            Some(self.asks[0].price)
        } else {
            None
        }
    }

    pub fn midpoint(&self) -> (r: Option<Binary64>)
        ensures
            r == self.middle(),
    {
        match (self.best_bid(), self.best_ask()) {
            (Some(bid), Some(ask)) => if valid_quote(Some(bid), Some(ask)) {
                Some(bid.plus(ask).times(Binary64 { bits: HALF }))
            } else {
                None
            },
            _ => None,
        }
    }

    pub fn level(&self, side: ProbeSide, price: Binary64, tick: Binary64) -> (r: Option<&BookLevel>)
        ensures
            match r {
                Some(level) => level_at(self.side_levels(side), price, tick) == Some(*level),
                None => level_at(self.side_levels(side), price, tick) is None,
            },
    {
        let levels = match side {
            ProbeSide::Bid => &self.bids,
            ProbeSide::Ask => &self.asks,
        };
        let mut i: usize = 0;
        proof {
            assert(levels@.skip(0) =~= levels@);
        }
        while i < levels.len()
            invariant
                i <= levels@.len(),
                level_at(self.side_levels(side), price, tick) == level_at(
                    levels@.skip(i as int),
                    price,
                    tick,
                ),
            decreases levels@.len() - i,
        {
            if same_price(levels[i].price, price, tick) {
                return Some(&levels[i]);
            }
            proof {
                assert(levels@.skip(i as int).skip(1) =~= levels@.skip(i as int + 1));
            }
            i = i + 1;
        }
        None
    }
}

/// When each feed last brought something.
pub struct FeedTimes {
    entries: StringHashMap<u64>,
}

impl Default for FeedTimes {
    fn default() -> (r: Self)
        ensures
            forall|feed: Seq<char>| #[trigger] r.at(feed) is None,
    {
        FeedTimes { entries: StringHashMap::new() }
    }
}

impl FeedTimes {
    /// The time of a feed.
    pub closed spec fn at(self, feed: Seq<char>) -> Option<u64> {
        if self.entries@.contains_key(feed) {
            Some(self.entries@[feed])
        } else {
            None
        }
    }

    /// Forgets a feed.
    pub fn remove(&mut self, feed: &str)
        ensures
            forall|other: Seq<char>| #[trigger]
                final(self).at(other) == (if other == feed@ {
                    None
                } else {
                    old(self).at(other)
                }),
    {
        self.entries.remove(feed);
    }

    /// Notes the time of a feed.
    pub fn insert(&mut self, feed: &str, time_ns: u64)
        ensures
            forall|other: Seq<char>| #[trigger]
                final(self).at(other) == (if other == feed@ {
                    Some(time_ns)
                } else {
                    old(self).at(other)
                }),
    {
        self.entries.insert(owned(feed), time_ns);
    }

    /// The time of a feed.
    pub fn get(&self, feed: &str) -> (r: Option<u64>)
        ensures
            r == self.at(feed@),
    {
        match self.entries.get(feed) {
            Some(time_ns) => Some(*time_ns),
            None => None,
        }
    }

    /// Whether a feed has brought something.
    pub fn contains_key(&self, feed: &str) -> (r: bool)
        ensures
            r == (self.at(feed@) is Some),
    {
        self.entries.contains_key(feed)
    }
}

/// What is known of the markets.
pub struct MarketState {
    pub feed_last_receive_ns: FeedTimes,
    pub hl_bbo: BookState,
    pub hl_fast_l2: BookState,
    pub hl_default_l2: BookState,
    pub binance_bid: Option<Binary64>,
    pub binance_ask: Option<Binary64>,
    pub okx_bid: Option<Binary64>,
    pub okx_ask: Option<Binary64>,
    pub hl_trade_count: u64,
    pub hl_signed_trade_size: Binary64,
}

impl Default for MarketState {
    fn default() -> (r: Self)
        ensures
            r.hl_bbo.is_blank(),
            r.hl_fast_l2.is_blank(),
            r.hl_default_l2.is_blank(),
            r.binance_bid is None,
            r.binance_ask is None,
            r.okx_bid is None,
            r.okx_ask is None,
            r.hl_trade_count == 0,
            r.hl_signed_trade_size == constants::number(ZERO),
            forall|feed: Seq<char>| #[trigger] r.feed_last_receive_ns.at(feed) is None,
    {
        MarketState {
            feed_last_receive_ns: FeedTimes::default(),
            hl_bbo: BookState::default(),
            hl_fast_l2: BookState::default(),
            hl_default_l2: BookState::default(),
            binance_bid: None,
            binance_ask: None,
            okx_bid: None,
            okx_ask: None,
            hl_trade_count: 0,
            hl_signed_trade_size: Binary64 { bits: ZERO },
        }
    }
}

/// `a - b`, but no less than zero.
pub open spec fn elapsed(a: u64, b: u64) -> u64 {
    if a >= b {
        (a - b) as u64
    } else {
        0
    }
}

/// The Hyperliquid books.
#[derive(Clone, Copy, Debug, PartialEq, Eq, Structural)]
pub enum HlBook {
    Bbo,
    FastL2,
    DefaultL2,
}

impl HlBook {
    /// The feed that brings the book.
    pub open spec fn feed(self) -> Seq<char> {
        match self {
            HlBook::Bbo => "hl_bbo"@,
            HlBook::FastL2 => "hl_fast_l2"@,
            HlBook::DefaultL2 => "hl_default_l2"@,
        }
    }

    pub fn as_str(self) -> (r: &'static str)
        ensures
            r@ == self.feed(),
    {
        match self {
            HlBook::Bbo => "hl_bbo",
            HlBook::FastL2 => "hl_fast_l2",
            HlBook::DefaultL2 => "hl_default_l2",
        }
    }
}

impl MarketState {
    /// One of the Hyperliquid books.
    pub open spec fn book(self, which: HlBook) -> BookState {
        match which {
            HlBook::Bbo => self.hl_bbo,
            HlBook::FastL2 => self.hl_fast_l2,
            HlBook::DefaultL2 => self.hl_default_l2,
        }
    }

    /// The book has a valid quote.
    pub open spec fn is_quoted(self, which: HlBook) -> bool {
        self.book(which).middle() is Some
    }

    /// Of two books, the quoted one, or the later of two quoted ones. The second
    /// book goes before the first at equal times.
    pub open spec fn fresher(self, a: Option<HlBook>, b: HlBook) -> Option<HlBook> {
        if !self.is_quoted(b) {
            a
        } else if a is Some && self.book(b).received_monotonic_ns < self.book(
            a->0,
        ).received_monotonic_ns {
            a
        } else {
            Some(b)
        }
    }

    /// The latest quoted book.
    pub open spec fn freshest(self) -> Option<HlBook> {
        self.fresher(self.fresher(self.fresher(None, HlBook::Bbo), HlBook::FastL2), HlBook::DefaultL2)
    }

    /// The middle of the latest quoted book.
    pub open spec fn fair(self) -> Option<Binary64> {
        match self.freshest() {
            Some(which) => self.book(which).middle(),
            None => None,
        }
    }

    /// A feed brought something within the given time.
    pub open spec fn is_fresh(self, feed: Seq<char>, now_ns: u64, freshness_ns: u64) -> bool {
        match self.feed_last_receive_ns.at(feed) {
            Some(time_ns) => elapsed(now_ns, time_ns) <= freshness_ns,
            None => false,
        }
    }

    /// A book is quoted and its feed is fresh.
    pub open spec fn is_live(self, which: HlBook, now_ns: u64, freshness_ns: u64) -> bool {
        self.is_quoted(which) && self.is_fresh(which.feed(), now_ns, freshness_ns)
    }

    /// The quotes that a probe needs are there: a live Hyperliquid quote, a live
    /// book for the queue, and a valid quote of each other venue.
    pub open spec fn quotes_are_fresh(
        self,
        now_ns: u64,
        freshness_ns: u64,
        default_l2_freshness_ns: u64,
    ) -> bool {
        &&& self.is_live(HlBook::Bbo, now_ns, freshness_ns) || self.is_live(
            HlBook::FastL2,
            now_ns,
            freshness_ns,
        )
        &&& self.is_live(HlBook::FastL2, now_ns, freshness_ns) || self.is_live(
            HlBook::DefaultL2,
            now_ns,
            default_l2_freshness_ns,
        )
        &&& is_valid_quote(self.binance_bid, self.binance_ask)
        &&& is_valid_quote(self.okx_bid, self.okx_ask)
    }

    /// The book from which the queue is estimated: the later of the two deep
    /// books.
    pub open spec fn queue_book(self) -> BookState {
        if self.hl_fast_l2.received_monotonic_ns >= self.hl_default_l2.received_monotonic_ns {
            self.hl_fast_l2
        } else {
            self.hl_default_l2
        }
    }

    /// Feeds that a connection brings.
    pub open spec fn is_carried(connection: Seq<char>, feed: Seq<char>) -> bool {
        ||| connection == "hl_standard"@ && (feed == "hl_bbo"@ || feed == "hl_default_l2"@ || feed
            == "hl_trades"@ || feed == "hl_active_asset_ctx"@)
        ||| connection == "hl_fast_l2"@ && feed == "hl_fast_l2"@
        ||| connection == "binance_lob"@ && (feed == "binance_bbo"@ || feed == "binance_depth"@)
        ||| connection == "binance_agg_trade"@ && feed == "binance_agg_trade"@
        ||| connection == "okx_public_lob"@ && (feed == "okx_bbo"@ || feed == "okx_books"@)
        ||| connection == "okx_trades_all"@ && feed == "okx_trades_all"@
    }

    /// `self` is what is left of `before` when a connection starts anew: what the
    /// connection brings is forgotten, everything else is kept.
    pub open spec fn is_cleared_from(self, before: MarketState, connection: Seq<char>) -> bool {
        &&& forall|feed: Seq<char>| #[trigger]
            self.feed_last_receive_ns.at(feed) == (if Self::is_carried(connection, feed) {
                None
            } else {
                before.feed_last_receive_ns.at(feed)
            })
        &&& self == (MarketState {
            feed_last_receive_ns: self.feed_last_receive_ns,
            hl_bbo: if connection == "hl_standard"@ {
                self.hl_bbo
            } else {
                before.hl_bbo
            },
            hl_default_l2: if connection == "hl_standard"@ {
                self.hl_default_l2
            } else {
                before.hl_default_l2
            },
            hl_fast_l2: if connection == "hl_fast_l2"@ {
                self.hl_fast_l2
            } else {
                before.hl_fast_l2
            },
            binance_bid: if connection == "binance_lob"@ {
                None
            } else {
                before.binance_bid
            },
            binance_ask: if connection == "binance_lob"@ {
                None
            } else {
                before.binance_ask
            },
            okx_bid: if connection == "okx_public_lob"@ {
                None
            } else {
                before.okx_bid
            },
            okx_ask: if connection == "okx_public_lob"@ {
                None
            } else {
                before.okx_ask
            },
            ..before
        })
        &&& connection == "hl_standard"@ ==> self.hl_bbo.is_blank() && self.hl_default_l2.is_blank()
        &&& connection == "hl_fast_l2"@ ==> self.hl_fast_l2.is_blank()
    }

    pub fn mark_feed(&mut self, feed: &str, received_monotonic_ns: u64)
        ensures
            *final(self) == (MarketState {
                feed_last_receive_ns: final(self).feed_last_receive_ns,
                ..*old(self)
            }),
            forall|other: Seq<char>| #[trigger]
                final(self).feed_last_receive_ns.at(other) == (if other == feed@ {
                    Some(received_monotonic_ns)
                } else {
                    old(self).feed_last_receive_ns.at(other)
                }),
    {
        self.feed_last_receive_ns.insert(feed, received_monotonic_ns);
    }

    fn feed_fresh(&self, feed: &str, now_ns: u64, freshness_ns: u64) -> (r: bool)
        ensures
            r == self.is_fresh(feed@, now_ns, freshness_ns),
    {
        match self.feed_last_receive_ns.get(feed) {
            Some(time_ns) => now_ns.saturating_sub(time_ns) <= freshness_ns,
            None => false,
        }
    }

    pub fn required_quotes_fresh(
        &self,
        now_ns: u64,
        freshness_ns: u64,
        default_l2_freshness_ns: u64,
    ) -> (r: bool)
        ensures
            r == self.quotes_are_fresh(now_ns, freshness_ns, default_l2_freshness_ns),
    {
        let bbo_live = self.hl_bbo.midpoint().is_some() && self.feed_fresh(
            "hl_bbo",
            now_ns,
            freshness_ns,
        );
        let fast_live = self.hl_fast_l2.midpoint().is_some() && self.feed_fresh(
            "hl_fast_l2",
            now_ns,
            freshness_ns,
        );
        let default_live = self.hl_default_l2.midpoint().is_some() && self.feed_fresh(
            "hl_default_l2",
            now_ns,
            default_l2_freshness_ns,
        );
        (bbo_live || fast_live) && (fast_live || default_live) && valid_quote(
            self.binance_bid,
            self.binance_ask,
        ) && valid_quote(self.okx_bid, self.okx_ask)
    }

    /// Which Hyperliquid book is the latest quoted one.
    pub fn freshest_hl(&self) -> (r: Option<HlBook>)
        ensures
            r == self.freshest(),
    {
        let mut best: Option<HlBook> = None;
        let mut best_ns: u64 = 0;
        if self.hl_bbo.midpoint().is_some() {
            best = Some(HlBook::Bbo);
            best_ns = self.hl_bbo.received_monotonic_ns;
        }
        if self.hl_fast_l2.midpoint().is_some() && (best.is_none()
            || self.hl_fast_l2.received_monotonic_ns >= best_ns) {
            best = Some(HlBook::FastL2);
            best_ns = self.hl_fast_l2.received_monotonic_ns;
        }
        if self.hl_default_l2.midpoint().is_some() && (best.is_none()
            || self.hl_default_l2.received_monotonic_ns >= best_ns) {
            best = Some(HlBook::DefaultL2);
        }
        best
    }

    pub fn freshest_hl_book(&self) -> (r: Option<(&'static str, &BookState)>)
        ensures
            match r {
                Some((source, book)) => self.freshest() is Some && source@
                    == self.freshest()->0.feed() && *book == self.book(self.freshest()->0),
                None => self.freshest() is None,
            },
    {
        match self.freshest_hl() {
            Some(HlBook::Bbo) => Some(("hl_bbo", &self.hl_bbo)),
            Some(HlBook::FastL2) => Some(("hl_fast_l2", &self.hl_fast_l2)),
            Some(HlBook::DefaultL2) => Some(("hl_default_l2", &self.hl_default_l2)),
            None => None,
        }
    }

    pub fn fair_value(&self) -> (r: Option<Binary64>)
        ensures
            r == self.fair(),
    {
        match self.freshest_hl_book() {
            Some((_, book)) => book.midpoint(),
            None => None,
        }
    }

    pub fn clear_reconnecting_feed(&mut self, feed: &str)
        ensures
            final(self).is_cleared_from(*old(self), feed@),
    {
        proof {
            reveal_strlit("hl_standard");
            reveal_strlit("hl_fast_l2");
            reveal_strlit("binance_lob");
            reveal_strlit("binance_agg_trade");
            reveal_strlit("okx_public_lob");
            reveal_strlit("okx_trades_all");
            assert("hl_standard"@.len() == 11);
            assert("hl_fast_l2"@.len() == 10);
            assert("binance_lob"@.len() == 11);
            assert("binance_agg_trade"@.len() == 17);
            assert("okx_public_lob"@.len() == 14);
            assert("okx_trades_all"@.len() == 14);
            assert("hl_standard"@[0] == 'h');
            assert("binance_lob"@[0] == 'b');
            assert("okx_public_lob"@[4] == 'p');
            assert("okx_trades_all"@[4] == 't');
        }
        if same(feed, "hl_standard") {
            self.hl_bbo = BookState::default();
            self.hl_default_l2 = BookState::default();
            self.feed_last_receive_ns.remove("hl_bbo");
            self.feed_last_receive_ns.remove("hl_default_l2");
            self.feed_last_receive_ns.remove("hl_trades");
            self.feed_last_receive_ns.remove("hl_active_asset_ctx");
        } else if same(feed, "hl_fast_l2") {
            self.hl_fast_l2 = BookState::default();
            self.feed_last_receive_ns.remove("hl_fast_l2");
        } else if same(feed, "binance_lob") {
            self.binance_bid = None;
            self.binance_ask = None;
            self.feed_last_receive_ns.remove("binance_bbo");
            self.feed_last_receive_ns.remove("binance_depth");
        } else if same(feed, "binance_agg_trade") {
            self.feed_last_receive_ns.remove("binance_agg_trade");
        } else if same(feed, "okx_public_lob") {
            self.okx_bid = None;
            self.okx_ask = None;
            self.feed_last_receive_ns.remove("okx_bbo");
            self.feed_last_receive_ns.remove("okx_books");
        } else if same(feed, "okx_trades_all") {
            self.feed_last_receive_ns.remove("okx_trades_all");
        }
    }

    pub fn book_for_queue(&self) -> (r: &BookState)
        ensures
            *r == self.queue_book(),
    {
        if self.hl_fast_l2.received_monotonic_ns >= self.hl_default_l2.received_monotonic_ns {
            &self.hl_fast_l2
        } else {
            &self.hl_default_l2
        }
    }
}

/// The ages of the feeds, in whole milliseconds.
#[derive(Clone, Copy, Debug, PartialEq, Eq, Structural)]
pub struct FeedAges {
    pub hl_bbo: Option<u64>,
    pub hl_fast_l2: Option<u64>,
    pub hl_default_l2: Option<u64>,
    pub hl_trades: Option<u64>,
    pub hl_active_asset_ctx: Option<u64>,
    pub binance_bbo: Option<u64>,
    pub binance_depth: Option<u64>,
    pub binance_agg_trade: Option<u64>,
    pub okx_bbo: Option<u64>,
    pub okx_books: Option<u64>,
    pub okx_trades_all: Option<u64>,
}

/// What a decision record says of the markets.
#[derive(Clone, Copy, Debug, PartialEq, Eq, Structural)]
pub struct MarketSnapshot {
    pub fair_value: Option<Binary64>,
    pub fair_value_source: Option<HlBook>,
    pub hl_best_bid: Option<Binary64>,
    pub hl_best_ask: Option<Binary64>,
    pub binance_bid: Option<Binary64>,
    pub binance_ask: Option<Binary64>,
    pub okx_bid: Option<Binary64>,
    pub okx_ask: Option<Binary64>,
    pub feed_age_ms: FeedAges,
    pub fast_l2_age_ms: u64,
    pub default_l2_age_ms: u64,
    pub hl_trade_count: u64,
    pub hl_signed_trade_size: Binary64,
}

impl MarketState {
    /// The age of a feed, in whole milliseconds.
    pub open spec fn age_ms(self, feed: Seq<char>, now_ns: u64) -> Option<u64> {
        match self.feed_last_receive_ns.at(feed) {
            Some(time_ns) => Some((elapsed(now_ns, time_ns) / 1_000_000) as u64),
            None => None,
        }
    }

    /// The snapshot at a time.
    pub open spec fn snapshot_at(self, now_ns: u64) -> MarketSnapshot {
        MarketSnapshot {
            fair_value: self.fair(),
            fair_value_source: self.freshest(),
            hl_best_bid: match self.freshest() {
                Some(which) => self.book(which).bid(),
                None => None,
            },
            hl_best_ask: match self.freshest() {
                Some(which) => self.book(which).ask(),
                None => None,
            },
            binance_bid: self.binance_bid,
            binance_ask: self.binance_ask,
            okx_bid: self.okx_bid,
            okx_ask: self.okx_ask,
            feed_age_ms: FeedAges {
                hl_bbo: self.age_ms("hl_bbo"@, now_ns),
                hl_fast_l2: self.age_ms("hl_fast_l2"@, now_ns),
                hl_default_l2: self.age_ms("hl_default_l2"@, now_ns),
                hl_trades: self.age_ms("hl_trades"@, now_ns),
                hl_active_asset_ctx: self.age_ms("hl_active_asset_ctx"@, now_ns),
                binance_bbo: self.age_ms("binance_bbo"@, now_ns),
                binance_depth: self.age_ms("binance_depth"@, now_ns),
                binance_agg_trade: self.age_ms("binance_agg_trade"@, now_ns),
                okx_bbo: self.age_ms("okx_bbo"@, now_ns),
                okx_books: self.age_ms("okx_books"@, now_ns),
                okx_trades_all: self.age_ms("okx_trades_all"@, now_ns),
            },
            fast_l2_age_ms: (elapsed(now_ns, self.hl_fast_l2.received_monotonic_ns)
                / 1_000_000) as u64,
            default_l2_age_ms: (elapsed(now_ns, self.hl_default_l2.received_monotonic_ns)
                / 1_000_000) as u64,
            hl_trade_count: self.hl_trade_count,
            hl_signed_trade_size: self.hl_signed_trade_size,
        }
    }

    fn feed_age(&self, feed: &str, now_ns: u64) -> (r: Option<u64>)
        ensures
            r == self.age_ms(feed@, now_ns),
    {
        match self.feed_last_receive_ns.get(feed) {
            Some(time_ns) => Some(now_ns.saturating_sub(time_ns) / 1_000_000),
            None => None,
        }
    }

    /// The best prices of the latest quoted Hyperliquid book.
    pub fn freshest_quote(&self) -> (r: Option<(Binary64, Binary64)>)
        ensures
            match r {
                Some((bid, ask)) => self.freshest() is Some && self.book(self.freshest()->0).bid()
                    == Some(bid) && self.book(self.freshest()->0).ask() == Some(ask),
                None => self.freshest() is None,
            },
    {
        match self.freshest_hl_book() {
            Some((_, book)) => match (book.best_bid(), book.best_ask()) {
                (Some(bid), Some(ask)) => Some((bid, ask)),
                _ => None,
            },
            None => None,
        }
    }

    pub fn snapshot(&self, now_ns: u64) -> (r: MarketSnapshot)
        ensures
            r == self.snapshot_at(now_ns),
    {
        let quote = self.freshest_quote();
        MarketSnapshot {
            fair_value: self.fair_value(),
            fair_value_source: self.freshest_hl(),
            hl_best_bid: match quote {
                Some((bid, _)) => Some(bid),
                None => None,
            },
            hl_best_ask: match quote {
                Some((_, ask)) => Some(ask),
                None => None,
            },
            binance_bid: self.binance_bid,
            binance_ask: self.binance_ask,
            okx_bid: self.okx_bid,
            okx_ask: self.okx_ask,
            feed_age_ms: FeedAges {
                hl_bbo: self.feed_age("hl_bbo", now_ns),
                hl_fast_l2: self.feed_age("hl_fast_l2", now_ns),
                hl_default_l2: self.feed_age("hl_default_l2", now_ns),
                hl_trades: self.feed_age("hl_trades", now_ns),
                hl_active_asset_ctx: self.feed_age("hl_active_asset_ctx", now_ns),
                binance_bbo: self.feed_age("binance_bbo", now_ns),
                binance_depth: self.feed_age("binance_depth", now_ns),
                binance_agg_trade: self.feed_age("binance_agg_trade", now_ns),
                okx_bbo: self.feed_age("okx_bbo", now_ns),
                okx_books: self.feed_age("okx_books", now_ns),
                okx_trades_all: self.feed_age("okx_trades_all", now_ns),
            },
            fast_l2_age_ms: now_ns.saturating_sub(self.hl_fast_l2.received_monotonic_ns)
                / 1_000_000,
            default_l2_age_ms: now_ns.saturating_sub(self.hl_default_l2.received_monotonic_ns)
                / 1_000_000,
            hl_trade_count: self.hl_trade_count,
            hl_signed_trade_size: self.hl_signed_trade_size,
        }
    }
}

/// The one probe that is under way.
#[derive(Debug)]
pub struct ActiveProbe {
    pub probe_id: String,
    pub decision_id: String,
    pub action_id: String,
    pub cloid: String,
    pub oid: Option<u64>,
    pub side: ProbeSide,
    /// The placement cell: the distance from the best price when the order was
    /// placed.
    pub price_level_ticks: u32,
    pub price: Binary64,
    pub tick_size: Binary64,
    pub size: Binary64,
    pub remaining_size: Binary64,
    pub cumulative_filled_size: Binary64,
    pub phase: ProbePhase,
    pub created_monotonic_ns: u64,
    pub send_monotonic_ns: u64,
    pub post_accepted_monotonic_ns: Option<u64>,
    pub open_monotonic_ns: Option<u64>,
    pub first_fill_monotonic_ns: Option<u64>,
    /// The end of the planned dwell. It is counted from the placement until the
    /// order is seen open, and from then on from that time.
    pub planned_expiry_monotonic_ns: u64,
    pub planned_dwell_ms: u64,
    pub last_keep_monotonic_ns: u64,
    pub cancel_send_monotonic_ns: Option<u64>,
    pub post_request_id: u64,
    pub cancel_request_id: Option<u64>,
    pub flatten_request_id: Option<u64>,
    pub flatten_oid: Option<u64>,
    pub flatten_action_id: Option<String>,
    pub flatten_send_monotonic_ns: Option<u64>,
    pub terminal_order_update_monotonic_ns: Option<u64>,
    pub recovery_not_before_monotonic_ns: u64,
    pub end_reason: Option<Trigger>,
    pub initial_queue_belief: Option<QueueBelief>,
    pub queue_belief: QueueBelief,
}

impl ActiveProbe {
    /// The order rests in the book.
    pub open spec fn is_resting(self) -> bool {
        self.phase == ProbePhase::Resting || self.phase == ProbePhase::Partial
    }

    /// The age of the order: since it was seen open, or else since it was sent.
    pub open spec fn age_ms(self, now_ns: u64) -> u64 {
        (elapsed(
            now_ns,
            match self.open_monotonic_ns {
                Some(open_ns) => open_ns,
                None => self.send_monotonic_ns,
            },
        ) / 1_000_000) as u64
    }

    /// Whether the order rests in the book.
    pub fn rests(&self) -> (r: bool)
        ensures
            r == self.is_resting(),
    {
        self.phase == ProbePhase::Resting || self.phase == ProbePhase::Partial
    }

    /// The age of the order, in whole milliseconds.
    pub fn order_age_ms(&self, now_ns: u64) -> (r: u64)
        ensures
            r == self.age_ms(now_ns),
    {
        let since = match self.open_monotonic_ns {
            Some(open_ns) => open_ns,
            None => self.send_monotonic_ns,
        };
        now_ns.saturating_sub(since) / 1_000_000
    }
}

/// Where a resting quote stands in the market now. A negative distance means
/// that the market has moved through the quote.
#[derive(Clone, Copy, Debug, PartialEq, Eq, Structural)]
pub struct QuotePosition {
    pub bbo_distance_ticks: Option<Binary64>,
    pub fair_value_distance_ticks: Option<Binary64>,
    pub fair_value_distance_bps: Option<Binary64>,
    pub spread: Option<Binary64>,
    pub open_age_ms: Option<u64>,
    pub remaining_dwell_ms: u64,
}

/// How far a price lies behind a reference: below it for a bid, above it for
/// an ask.
pub open spec fn behind(side: ProbeSide, price: Binary64, reference: Binary64) -> Binary64 {
    match side {
        ProbeSide::Bid => reference.difference(price),
        ProbeSide::Ask => price.difference(reference),
    }
}

/// How far a price lies behind a reference.
pub fn distance_behind(side: ProbeSide, price: Binary64, reference: Binary64) -> (r: Binary64)
    ensures
        r == behind(side, price, reference),
{
    match side {
        ProbeSide::Bid => reference.minus(price),
        ProbeSide::Ask => price.minus(reference),
    }
}

impl MarketState {
    /// The best prices of the latest quoted book.
    pub open spec fn top(self) -> Option<(Binary64, Binary64)> {
        match self.freshest() {
            Some(which) => Some((self.book(which).bid()->0, self.book(which).ask()->0)),
            None => None,
        }
    }

    /// Where the quote of a probe stands: its distance from the best price of
    /// its own side and from the fair value, the spread, its age since it was
    /// seen open, and what is left of its dwell.
    pub open spec fn position_of(self, probe: ActiveProbe, now_ns: u64) -> QuotePosition {
        QuotePosition {
            bbo_distance_ticks: match self.top() {
                Some((bid, ask)) => Some(
                    behind(
                        probe.side,
                        probe.price,
                        match probe.side {
                            ProbeSide::Bid => bid,
                            ProbeSide::Ask => ask,
                        },
                    ).quotient(probe.tick_size),
                ),
                None => None,
            },
            fair_value_distance_ticks: match self.fair() {
                Some(fair) => Some(
                    behind(probe.side, probe.price, fair).quotient(probe.tick_size),
                ),
                None => None,
            },
            fair_value_distance_bps: match self.fair() {
                Some(fair) => Some(
                    behind(probe.side, probe.price, fair).quotient(fair).product(
                        constants::number(constants::TEN_THOUSAND),
                    ),
                ),
                None => None,
            },
            spread: match self.top() {
                Some((bid, ask)) => Some(ask.difference(bid)),
                None => None,
            },
            open_age_ms: match probe.open_monotonic_ns {
                Some(open_ns) => Some((elapsed(now_ns, open_ns) / 1_000_000) as u64),
                None => None,
            },
            remaining_dwell_ms: (elapsed(probe.planned_expiry_monotonic_ns, now_ns)
                / 1_000_000) as u64,
        }
    }

    /// Where the quote of a probe stands.
    pub fn quote_position(&self, probe: &ActiveProbe, now_ns: u64) -> (r: QuotePosition)
        ensures
            r == self.position_of(*probe, now_ns),
    {
        let top = self.freshest_quote();
        let fair = self.fair_value();
        QuotePosition {
            bbo_distance_ticks: match top {
                Some((bid, ask)) => {
                    let best = match probe.side {
                        ProbeSide::Bid => bid,
                        ProbeSide::Ask => ask,
                    };
                    Some(distance_behind(probe.side, probe.price, best).over(probe.tick_size))
                },
                None => None,
            },
            fair_value_distance_ticks: match fair {
                Some(fair) => Some(
                    distance_behind(probe.side, probe.price, fair).over(probe.tick_size),
                ),
                None => None,
            },
            fair_value_distance_bps: match fair {
                Some(fair) => Some(
                    distance_behind(probe.side, probe.price, fair).over(fair).times(
                        Binary64 { bits: constants::TEN_THOUSAND },
                    ),
                ),
                None => None,
            },
            spread: match top {
                Some((bid, ask)) => Some(ask.minus(bid)),
                None => None,
            },
            open_age_ms: match probe.open_monotonic_ns {
                Some(open_ns) => Some(now_ns.saturating_sub(open_ns) / 1_000_000),
                None => None,
            },
            remaining_dwell_ms: probe.planned_expiry_monotonic_ns.saturating_sub(now_ns)
                / 1_000_000,
        }
    }
}

/// Markouts of a fill that are still to be sampled.
#[derive(Debug)]
pub struct PendingMarkout {
    pub probe_id: String,
    pub oid: u64,
    pub fill_id: String,
    pub side: ProbeSide,
    pub fill_price: Binary64,
    pub fill_size: Binary64,
    pub fill_monotonic_ns: u64,
    pub horizons_ms: Vec<u64>,
    pub next_horizon_index: usize,
}

impl PendingMarkout {
    /// Every horizon has been sampled.
    pub open spec fn is_done(self) -> bool {
        self.next_horizon_index >= self.horizons_ms@.len()
    }

    pub fn is_complete(&self) -> (r: bool)
        ensures
            r == self.is_done(),
    {
        self.next_horizon_index >= self.horizons_ms.len()
    }
}

/// An open order of the account.
#[derive(Debug)]
pub struct AccountOpenOrder {
    pub oid: u64,
    pub cloid: Option<String>,
    pub price: Binary64,
    pub size: Binary64,
    pub executed_size: Binary64,
}

/// The same optional text.
pub fn duplicate_text(source: &Option<String>) -> (r: Option<String>)
    ensures
        r == *source,
{
    match source {
        Some(inner) => Some(inner.clone()),
        None => None,
    }
}

impl AccountOpenOrder {
    /// The same order.
    pub fn duplicate(&self) -> (r: AccountOpenOrder)
        ensures
            r == *self,
    {
        AccountOpenOrder {
            oid: self.oid,
            cloid: duplicate_text(&self.cloid),
            price: self.price,
            size: self.size,
            executed_size: self.executed_size,
        }
    }
}

/// What is known of the account.
#[derive(Debug)]
pub struct AccountState {
    pub snapshot_monotonic_ns: u64,
    pub rest_snapshot_healthy: bool,
    pub confirmed_inventory: Binary64,
    pub account_value: Option<Binary64>,
    pub withdrawable: Option<Binary64>,
    pub open_order_count: usize,
    pub open_orders: Vec<AccountOpenOrder>,
    pub requests_used: Option<u64>,
    pub requests_cap: Option<u64>,
    pub requests_surplus: Option<u64>,
    pub maker_fee: Option<Binary64>,
    pub taker_fee: Option<Binary64>,
    pub active_referral_discount: Option<Binary64>,
    pub lot_size: Option<Binary64>,
    pub size_decimals: Option<u32>,
    pub growth_mode: Option<String>,
    pub deployer_fee_scale: Option<String>,
}

impl Default for AccountState {
    fn default() -> (r: Self)
        ensures
            r.is_blank(),
    {
        AccountState {
            snapshot_monotonic_ns: 0,
            rest_snapshot_healthy: false,
            confirmed_inventory: Binary64 { bits: ZERO },
            account_value: None,
            withdrawable: None,
            open_order_count: 0,
            open_orders: Vec::new(),
            requests_used: None,
            requests_cap: None,
            requests_surplus: None,
            maker_fee: None,
            taker_fee: None,
            active_referral_discount: None,
            lot_size: None,
            size_decimals: None,
            growth_mode: None,
            deployer_fee_scale: None,
        }
    }
}

impl AccountState {
    /// Nothing is known yet.
    pub open spec fn is_blank(self) -> bool {
        &&& self == (AccountState {
            snapshot_monotonic_ns: 0,
            rest_snapshot_healthy: false,
            confirmed_inventory: constants::number(ZERO),
            account_value: None,
            withdrawable: None,
            open_order_count: 0,
            open_orders: self.open_orders,
            requests_used: None,
            requests_cap: None,
            requests_surplus: None,
            maker_fee: None,
            taker_fee: None,
            active_referral_discount: None,
            lot_size: None,
            size_decimals: None,
            growth_mode: None,
            deployer_fee_scale: None,
        })
        &&& self.open_orders@.len() == 0
    }

    /// Two states hold the same.
    pub open spec fn is_like(self, other: AccountState) -> bool {
        &&& self == (AccountState { open_orders: self.open_orders, ..other })
        &&& self.open_orders@ == other.open_orders@
    }

    /// The actions that the rate limit still allows.
    pub open spec fn budget(self) -> Option<u64> {
        match (self.requests_cap, self.requests_used) {
            (Some(cap), Some(used)) => Some(elapsed(cap, used)),
            _ => None,
        }
    }

    /// The lot size, a ten-thousandth where it is unknown.
    pub open spec fn lot(self) -> Binary64 {
        match self.lot_size {
            Some(lot) => lot,
            None => constants::number(constants::TEN_THOUSANDTH),
        }
    }

    /// The inventory is smaller than half a lot.
    pub open spec fn is_flat(self) -> bool {
        self.confirmed_inventory.absolute().below(self.lot().product(constants::number(HALF)))
    }

    pub fn action_budget_remaining(&self) -> (r: Option<u64>)
        ensures
            r == self.budget(),
    {
        match (self.requests_cap, self.requests_used) {
            (Some(cap), Some(used)) => Some(cap.saturating_sub(used)),
            _ => None,
        }
    }

    /// The lot size, a ten-thousandth where it is unknown.
    pub fn lot_or_default(&self) -> (r: Binary64)
        ensures
            r == self.lot(),
    {
        match self.lot_size {
            Some(lot) => lot,
            None => Binary64 { bits: constants::TEN_THOUSANDTH },
        }
    }

    /// Whether the inventory is smaller than half a lot.
    pub fn inventory_is_flat(&self) -> (r: bool)
        ensures
            r == self.is_flat(),
    {
        self.confirmed_inventory.abs().lt(self.lot_or_default().times(Binary64 { bits: HALF }))
    }

    /// The same state.
    pub fn duplicate(&self) -> (r: AccountState)
        ensures
            r.is_like(*self),
    {
        let mut orders: Vec<AccountOpenOrder> = Vec::new();
        let mut i: usize = 0;
        while i < self.open_orders.len()
            invariant
                i <= self.open_orders@.len(),
                orders@ == self.open_orders@.take(i as int),
            decreases self.open_orders@.len() - i,
        {
            orders.push(self.open_orders[i].duplicate());
            i = i + 1;
            proof {
                assert(orders@ =~= self.open_orders@.take(i as int));
            }
        }
        proof {
            assert(self.open_orders@.take(self.open_orders@.len() as int) =~= self.open_orders@);
        }
        AccountState {
            snapshot_monotonic_ns: self.snapshot_monotonic_ns,
            rest_snapshot_healthy: self.rest_snapshot_healthy,
            confirmed_inventory: self.confirmed_inventory,
            account_value: self.account_value,
            withdrawable: self.withdrawable,
            open_order_count: self.open_order_count,
            open_orders: orders,
            requests_used: self.requests_used,
            requests_cap: self.requests_cap,
            requests_surplus: self.requests_surplus,
            maker_fee: self.maker_fee,
            taker_fee: self.taker_fee,
            active_referral_discount: self.active_referral_discount,
            lot_size: self.lot_size,
            size_decimals: self.size_decimals,
            growth_mode: duplicate_text(&self.growth_mode),
            deployer_fee_scale: duplicate_text(&self.deployer_fee_scale),
        }
    }
}

/// An update of an order on the private feed.
#[derive(Debug)]
pub struct OrderUpdate {
    pub coin: String,
    pub side: ProbeSide,
    pub price: Binary64,
    pub remaining_size: Binary64,
    pub original_size: Binary64,
    pub oid: u64,
    pub cloid: Option<String>,
    pub order_timestamp_ms: u64,
    pub status: String,
    pub status_timestamp_ms: u64,
}

/// A fill on the private feed. `raw` is the compact text of its entry.
#[derive(Debug)]
pub struct UserFill {
    pub oid: u64,
    pub trade_id: String,
    pub coin: String,
    pub side: ProbeSide,
    pub price: Binary64,
    pub size: Binary64,
    pub timestamp_ms: u64,
    pub fee: Option<Binary64>,
    pub fee_token: Option<String>,
    pub raw: String,
}

/// The fair value comes from a valid Hyperliquid book, and no valid one is more
/// recent. Without a valid book there is none.
pub proof fn law_fair_value_is_the_freshest(market: MarketState, which: HlBook)
    ensures
        market.is_quoted(which) ==> market.fair() is Some,
        market.freshest() is Some ==> market.is_quoted(market.freshest()->0) && market.fair()
            == market.book(market.freshest()->0).middle(),
        market.freshest() is Some && market.is_quoted(which) ==> market.book(
            which,
        ).received_monotonic_ns <= market.book(market.freshest()->0).received_monotonic_ns,
        market.fair() is Some ==> market.freshest() is Some,
{
}

/// A reconnected order-book feed of another venue has no valid quote until it
/// brings one: the market is not fresh.
pub proof fn law_reconnects_suspend_the_market(
    before: MarketState,
    after: MarketState,
    connection: Seq<char>,
    now_ns: u64,
    freshness_ns: u64,
    default_l2_freshness_ns: u64,
)
    requires
        after.is_cleared_from(before, connection),
        connection == "binance_lob"@ || connection == "okx_public_lob"@,
    ensures
        !after.quotes_are_fresh(now_ns, freshness_ns, default_l2_freshness_ns),
{
}

} // verus!
