//! What the market is read for: the latest quote, its age, and where an order
//! stands in it.
use vstd::prelude::*;
use vstd::arithmetic::power2::*;
use crate::binary64::Binary64;
use crate::constants;
use crate::constants::{HALF, TENTH};
use crate::ordering;
use super::super::state;
use super::super::state::{ActiveProbe, BookLevel, BookState, HlBook, MarketState, ProbeSide};
use super::grid;

verus! {

/// Both sides of a book are filled, and its best prices are a positive bid and an
/// ask at or above it.
pub open spec fn has_quote(book: BookState) -> bool {
    &&& book.bids@.len() > 0
    &&& book.asks@.len() > 0
    &&& !book.bids@[0].price.nan()
    &&& !book.asks@[0].price.nan()
    &&& 0 < book.bids@[0].price.value() <= book.asks@[0].price.value()
}

/// A quoted book that no other quoted book is later than.
pub open spec fn is_latest_quote(market: MarketState, book: BookState) -> bool {
    &&& book == market.hl_bbo || book == market.hl_fast_l2 || book == market.hl_default_l2
    &&& has_quote(book)
    &&& has_quote(market.hl_bbo) ==> market.hl_bbo.received_monotonic_ns
        <= book.received_monotonic_ns
    &&& has_quote(market.hl_fast_l2) ==> market.hl_fast_l2.received_monotonic_ns
        <= book.received_monotonic_ns
    &&& has_quote(market.hl_default_l2) ==> market.hl_default_l2.received_monotonic_ns
        <= book.received_monotonic_ns
}

/// The best prices, the fair value and their source are those of the latest
/// quoted book; there are none exactly where no book is quoted. Of books that came
/// at the same time the deeper feed goes first.
pub proof fn law_prices_come_from_the_latest_quote(market: MarketState)
    ensures
        match market.freshest() {
            Some(which) => {
                let book = market.book(which);
                &&& is_latest_quote(market, book)
                &&& market.top() == Some((book.bids@[0].price, book.asks@[0].price))
                &&& market.fair() == Some(
                    book.bids@[0].price.sum(book.asks@[0].price).product(
                        constants::number(constants::HALF),
                    ),
                )
                &&& which == HlBook::Bbo ==> book == market.hl_bbo && (has_quote(market.hl_fast_l2)
                    ==> market.hl_fast_l2.received_monotonic_ns < book.received_monotonic_ns) && (
                has_quote(market.hl_default_l2) ==> market.hl_default_l2.received_monotonic_ns
                    < book.received_monotonic_ns)
                &&& which == HlBook::FastL2 ==> book == market.hl_fast_l2 && (has_quote(
                    market.hl_default_l2,
                ) ==> market.hl_default_l2.received_monotonic_ns < book.received_monotonic_ns)
                &&& which == HlBook::DefaultL2 ==> book == market.hl_default_l2
            },
            None => {
                &&& !has_quote(market.hl_bbo)
                &&& !has_quote(market.hl_fast_l2)
                &&& !has_quote(market.hl_default_l2)
                &&& market.top() is None
                &&& market.fair() is None
            },
        },
{
    ordering::lemma_zero_value();
}

/// The fair value lies between the best bid and the best ask of the latest quoted
/// book.
pub proof fn law_the_fair_value_lies_within_the_quote(market: MarketState)
    requires
        market.freshest() is Some,
        market.book(market.freshest()->0).asks@[0].price.finite(),
        market.book(market.freshest()->0).bids@[0].price.sum(
            market.book(market.freshest()->0).asks@[0].price,
        ).finite(),
    ensures
        ({
            let book = market.book(market.freshest()->0);
            &&& is_latest_quote(market, book)
            &&& market.fair() is Some
            &&& !market.fair()->0.nan()
            &&& book.bids@[0].price.value() <= market.fair()->0.value()
                <= book.asks@[0].price.value()
        }),
{
    let book = market.book(market.freshest()->0);
    law_prices_come_from_the_latest_quote(market);
    ordering::lemma_zero_value();
    constants::law_constants_are_exact();
    ordering::lemma_below_infinity(book.bids@[0].price, book.asks@[0].price);
    ordering::law_the_mean_lies_between(
        book.bids@[0].price,
        book.asks@[0].price,
        constants::number(HALF),
    );
}

/// A best bid and a best ask that are numbers, the bid positive, the ask at or
/// above it.
pub open spec fn is_quote(bid: Option<Binary64>, ask: Option<Binary64>) -> bool {
    &&& bid is Some
    &&& ask is Some
    &&& !bid->0.nan()
    &&& !ask->0.nan()
    &&& 0 < bid->0.value() <= ask->0.value()
}

/// A feed brought something no longer ago than `limit_ns`.
pub open spec fn came_within(market: MarketState, feed: Seq<char>, now_ns: u64, limit_ns: u64) -> bool {
    &&& market.feed_last_receive_ns.at(feed) is Some
    &&& now_ns <= market.feed_last_receive_ns.at(feed)->0 + limit_ns
}

/// When the market is fresh enough for a probe: a quoted and recent best price or
/// fast book, a quoted and recent fast or standard book for the queue, and a quote
/// of both other venues.
pub proof fn law_the_market_is_fresh_on_all_venues(
    market: MarketState,
    now_ns: u64,
    freshness_ns: u64,
    default_l2_freshness_ns: u64,
)
    ensures
        market.quotes_are_fresh(now_ns, freshness_ns, default_l2_freshness_ns) <==> {
            let top = has_quote(market.hl_bbo) && came_within(
                market,
                "hl_bbo"@,
                now_ns,
                freshness_ns,
            );
            let fast = has_quote(market.hl_fast_l2) && came_within(
                market,
                "hl_fast_l2"@,
                now_ns,
                freshness_ns,
            );
            let deep = has_quote(market.hl_default_l2) && came_within(
                market,
                "hl_default_l2"@,
                now_ns,
                default_l2_freshness_ns,
            );
            &&& top || fast
            &&& fast || deep
            &&& is_quote(market.binance_bid, market.binance_ask)
            &&& is_quote(market.okx_bid, market.okx_ask)
        },
{
    ordering::lemma_zero_value();
}

/// A market that is fresh was so all the time since what it was read from came,
/// and a longer patience does not make it stale.
pub proof fn law_freshness_runs_out_once(
    market: MarketState,
    earlier_ns: u64,
    now_ns: u64,
    freshness_ns: u64,
    longer_ns: u64,
    default_l2_freshness_ns: u64,
)
    requires
        market.quotes_are_fresh(now_ns, freshness_ns, default_l2_freshness_ns),
        earlier_ns <= now_ns,
        freshness_ns <= longer_ns,
    ensures
        market.quotes_are_fresh(earlier_ns, freshness_ns, default_l2_freshness_ns),
        market.quotes_are_fresh(now_ns, longer_ns, default_l2_freshness_ns),
{
    law_the_market_is_fresh_on_all_venues(
        market,
        now_ns,
        freshness_ns,
        default_l2_freshness_ns,
    );
    law_the_market_is_fresh_on_all_venues(
        market,
        earlier_ns,
        freshness_ns,
        default_l2_freshness_ns,
    );
    law_the_market_is_fresh_on_all_venues(market, now_ns, longer_ns, default_l2_freshness_ns);
}

/// The queue is read from the later of the two deep books, from the fast one where
/// they came together.
pub proof fn law_the_queue_is_read_from_the_later_book(market: MarketState)
    ensures
        market.hl_default_l2.received_monotonic_ns <= market.hl_fast_l2.received_monotonic_ns
            ==> market.queue_book() == market.hl_fast_l2,
        market.hl_fast_l2.received_monotonic_ns < market.hl_default_l2.received_monotonic_ns
            ==> market.queue_book() == market.hl_default_l2,
        market.queue_book().side_levels(ProbeSide::Bid) == market.queue_book().bids@,
        market.queue_book().side_levels(ProbeSide::Ask) == market.queue_book().asks@,
{
}

/// Prices are the same whichever is named first, a price is the same as itself,
/// and prices that are a tick or more apart are not the same.
pub proof fn law_same_prices_are_less_than_a_tick_apart(a: Binary64, b: Binary64, tick: Binary64)
    requires
        a.finite(),
        b.finite(),
        tick.finite(),
        tick.value() >= 2,
        tick.product(constants::number(TENTH)).finite(),
    ensures
        state::is_same_price(a, b, tick) == state::is_same_price(b, a, tick),
        state::is_same_price(a, a, tick),
        a.value() == b.value() ==> state::is_same_price(a, b, tick),
        a.value() - b.value() >= tick.value() ==> !state::is_same_price(a, b, tick),
        b.value() - a.value() >= tick.value() ==> !state::is_same_price(a, b, tick),
{
    let share = constants::number(TENTH);
    ordering::lemma_zero_value();
    constants::law_constants_are_exact();
    constants::lemma_fractions_ordered();
    ordering::law_shares_are_below(tick, share);
    ordering::law_differences_compare(a, b);
    ordering::law_differences_compare(b, a);
    ordering::law_differences_compare(a, a);
    ordering::law_differences_are_opposite(a, b);
    ordering::law_absolute_forgets_the_sign(a.difference(b));
    ordering::law_absolute_forgets_the_sign(b.difference(a));
    ordering::law_absolute_forgets_the_sign(a.difference(a));
    ordering::law_far_differences(a, b, tick);
    ordering::law_far_differences(b, a, tick);
}

/// Prices are the same up to a tenth of a tick: a ninth apart they are not, and an
/// eleventh apart they are.
pub proof fn law_same_prices_are_a_tenth_of_a_tick_apart(
    a: Binary64,
    b: Binary64,
    tick: Binary64,
    ninth: Binary64,
    eleventh: Binary64,
)
    requires
        a.finite(),
        b.finite(),
        tick.finite(),
        tick.value() >= pow2(60),
        tick.product(constants::number(TENTH)).finite(),
        ninth.finite(),
        9 * ninth.value() >= tick.value(),
        eleventh.finite(),
        0 <= 11 * eleventh.value() <= tick.value(),
    ensures
        a.value() - b.value() >= ninth.value() ==> !state::is_same_price(a, b, tick),
        0 <= a.value() - b.value() <= eleventh.value() ==> state::is_same_price(a, b, tick),
{
    let share = constants::number(TENTH);
    lemma_pow2_pos(60);
    ordering::lemma_zero_value();
    constants::lemma_fractions_ordered();
    constants::law_fractions_are_nearest();
    ordering::law_a_tenth_is_a_tenth(tick, share);
    ordering::law_differences_compare(b, a);
    ordering::law_far_differences(a, b, ninth);
    ordering::law_absolute_forgets_the_sign(a.difference(b));
    if 0 <= a.value() - b.value() <= eleventh.value() {
        ordering::lemma_opposite(b);
        ordering::law_sums_stay_within(a, b.opposite(), eleventh);
    }
}

/// The level at a price is the first one of its side that has this price, and none
/// is found only where no level has it.
pub proof fn law_the_first_level_at_a_price_is_found(
    levels: Seq<BookLevel>,
    price: Binary64,
    tick: Binary64,
)
    ensures
        match state::level_at(levels, price, tick) {
            Some(level) => exists|i: int|
                {
                    &&& 0 <= i < levels.len()
                    &&& #[trigger] levels[i] == level
                    &&& state::is_same_price(levels[i].price, price, tick)
                    &&& forall|j: int|
                        0 <= j < i ==> !state::is_same_price(
                            (#[trigger] levels[j]).price,
                            price,
                            tick,
                        )
                },
            None => forall|j: int|
                0 <= j < levels.len() ==> !state::is_same_price(
                    (#[trigger] levels[j]).price,
                    price,
                    tick,
                ),
        },
    decreases levels.len(),
{
    if levels.len() > 0 && !state::is_same_price(levels[0].price, price, tick) {
        let rest = levels.skip(1);
        law_the_first_level_at_a_price_is_found(rest, price, tick);
        match state::level_at(levels, price, tick) {
            Some(level) => {
                let i = choose|i: int|
                    {
                        &&& 0 <= i < rest.len()
                        &&& #[trigger] rest[i] == level
                        &&& state::is_same_price(rest[i].price, price, tick)
                        &&& forall|j: int|
                            0 <= j < i ==> !state::is_same_price(
                                (#[trigger] rest[j]).price,
                                price,
                                tick,
                            )
                    };
                assert(levels[i + 1] == level);
                assert forall|j: int| 0 <= j < i + 1 implies !state::is_same_price(
                    (#[trigger] levels[j]).price,
                    price,
                    tick,
                ) by {
                    if j > 0 {
                        assert(rest[j - 1] == levels[j]);
                    }
                }
            },
            None => {
                assert forall|j: int| 0 <= j < levels.len() implies !state::is_same_price(
                    (#[trigger] levels[j]).price,
                    price,
                    tick,
                ) by {
                    if j > 0 {
                        assert(rest[j - 1] == levels[j]);
                    }
                }
            },
        }
    } else if levels.len() > 0 {
        assert(levels[0] == levels[0]);
    }
}

/// `ms` whole milliseconds have passed from `since_ns` to `now_ns`; none before.
pub open spec fn has_lasted(ms: u64, since_ns: u64, now_ns: u64) -> bool {
    if now_ns < since_ns {
        ms == 0
    } else {
        ms * 1_000_000 <= now_ns - since_ns < (ms + 1) * 1_000_000
    }
}

/// Ages are whole milliseconds since something came, and are told of each feed by
/// its own name.
pub proof fn law_ages_count_whole_milliseconds(market: MarketState, feed: Seq<char>, now_ns: u64)
    ensures
        match market.feed_last_receive_ns.at(feed) {
            Some(time_ns) => market.age_ms(feed, now_ns) is Some && has_lasted(
                market.age_ms(feed, now_ns)->0,
                time_ns,
                now_ns,
            ),
            None => market.age_ms(feed, now_ns) is None,
        },
        ({
            let shot = market.snapshot_at(now_ns);
            let ages = shot.feed_age_ms;
            &&& has_lasted(shot.fast_l2_age_ms, market.hl_fast_l2.received_monotonic_ns, now_ns)
            &&& has_lasted(
                shot.default_l2_age_ms,
                market.hl_default_l2.received_monotonic_ns,
                now_ns,
            )
            &&& ages.hl_bbo == market.age_ms("hl_bbo"@, now_ns)
            &&& ages.hl_fast_l2 == market.age_ms("hl_fast_l2"@, now_ns)
            &&& ages.hl_default_l2 == market.age_ms("hl_default_l2"@, now_ns)
            &&& ages.hl_trades == market.age_ms("hl_trades"@, now_ns)
            &&& ages.hl_active_asset_ctx == market.age_ms("hl_active_asset_ctx"@, now_ns)
            &&& ages.binance_bbo == market.age_ms("binance_bbo"@, now_ns)
            &&& ages.binance_depth == market.age_ms("binance_depth"@, now_ns)
            &&& ages.binance_agg_trade == market.age_ms("binance_agg_trade"@, now_ns)
            &&& ages.okx_bbo == market.age_ms("okx_bbo"@, now_ns)
            &&& ages.okx_books == market.age_ms("okx_books"@, now_ns)
            &&& ages.okx_trades_all == market.age_ms("okx_trades_all"@, now_ns)
        }),
{
}

/// A snapshot shows the best prices of the latest quoted book and the middle
/// between them, and the quotes and trades of the venues under their own names.
pub proof fn law_snapshots_show_the_latest_quote(market: MarketState, now_ns: u64)
    ensures
        ({
            let shot = market.snapshot_at(now_ns);
            &&& match market.freshest() {
                Some(which) => {
                    let book = market.book(which);
                    &&& is_latest_quote(market, book)
                    &&& shot.fair_value_source == Some(which)
                    &&& shot.hl_best_bid == Some(book.bids@[0].price)
                    &&& shot.hl_best_ask == Some(book.asks@[0].price)
                    &&& shot.fair_value == Some(
                        book.bids@[0].price.sum(book.asks@[0].price).product(
                            constants::number(HALF),
                        ),
                    )
                },
                None => shot.fair_value_source is None && shot.fair_value is None
                    && shot.hl_best_bid is None && shot.hl_best_ask is None,
            }
            &&& shot.binance_bid == market.binance_bid
            &&& shot.binance_ask == market.binance_ask
            &&& shot.okx_bid == market.okx_bid
            &&& shot.okx_ask == market.okx_ask
            &&& shot.hl_trade_count == market.hl_trade_count
            &&& shot.hl_signed_trade_size == market.hl_signed_trade_size
        }),
{
    law_prices_come_from_the_latest_quote(market);
}

/// A quotient by a positive number keeps the side of zero.
proof fn lemma_quotient_side(x: Binary64, y: Binary64)
    requires
        x.finite(),
        y.finite(),
        y.value() > 0,
    ensures
        !x.quotient(y).nan(),
        x.value() >= 0 ==> x.quotient(y).value() >= 0,
        x.value() <= 0 ==> x.quotient(y).value() <= 0,
{
    ordering::law_signs_divide(x, y);
}

/// Where a quote stands: behind the best price of its own side and behind the fair
/// value the distances are not negative, in front of them they are not positive; a
/// valid quote has no negative spread; the age counts from the time the order was
/// seen open, and what is left of the dwell runs down to its end.
pub proof fn law_positions_tell_where_a_quote_stands(
    market: MarketState,
    probe: ActiveProbe,
    now_ns: u64,
)
    requires
        market.freshest() is Some,
        market.book(market.freshest()->0).bids@[0].price.finite(),
        market.book(market.freshest()->0).asks@[0].price.finite(),
        market.fair()->0.finite(),
        probe.price.finite(),
        probe.tick_size.finite(),
        probe.tick_size.value() > 0,
        ({
            let book = market.book(market.freshest()->0);
            &&& book.bids@[0].price.difference(probe.price).finite()
            &&& probe.price.difference(book.asks@[0].price).finite()
            &&& market.fair()->0.difference(probe.price).finite()
            &&& probe.price.difference(market.fair()->0).finite()
        }),
    ensures
        ({
            let book = market.book(market.freshest()->0);
            let place = market.position_of(probe, now_ns);
            let price = probe.price.value();
            let best = match probe.side {
                ProbeSide::Bid => book.bids@[0].price.value(),
                ProbeSide::Ask => book.asks@[0].price.value(),
            };
            let fair = market.fair()->0.value();
            let bid = probe.side == ProbeSide::Bid;
            &&& place.bbo_distance_ticks is Some
            &&& place.fair_value_distance_ticks is Some
            &&& place.fair_value_distance_bps is Some
            &&& place.spread is Some
            &&& (if bid { price <= best } else { price >= best })
                ==> place.bbo_distance_ticks->0.value() >= 0
            &&& (if bid { price >= best } else { price <= best })
                ==> place.bbo_distance_ticks->0.value() <= 0
            &&& (if bid { price <= fair } else { price >= fair })
                ==> place.fair_value_distance_ticks->0.value() >= 0
            &&& (if bid { price >= fair } else { price <= fair })
                ==> place.fair_value_distance_ticks->0.value() <= 0
            &&& place.spread->0 == book.asks@[0].price.difference(book.bids@[0].price)
            &&& ordering::zero().not_above(place.spread->0)
            &&& match probe.open_monotonic_ns {
                Some(open_ns) => place.open_age_ms is Some && has_lasted(
                    place.open_age_ms->0,
                    open_ns,
                    now_ns,
                ),
                None => place.open_age_ms is None,
            }
            &&& has_lasted(place.remaining_dwell_ms, now_ns, probe.planned_expiry_monotonic_ns)
        }),
{
    let book = market.book(market.freshest()->0);
    let fair = market.fair()->0;
    let bid = book.bids@[0].price;
    let ask = book.asks@[0].price;
    law_prices_come_from_the_latest_quote(market);
    ordering::lemma_zero_value();
    ordering::law_differences_compare(probe.price, bid);
    ordering::law_differences_compare(ask, probe.price);
    ordering::law_differences_compare(probe.price, fair);
    ordering::law_differences_compare(fair, probe.price);
    ordering::law_differences_compare(bid, ask);
    lemma_quotient_side(bid.difference(probe.price), probe.tick_size);
    lemma_quotient_side(probe.price.difference(ask), probe.tick_size);
    lemma_quotient_side(fair.difference(probe.price), probe.tick_size);
    lemma_quotient_side(probe.price.difference(fair), probe.tick_size);
}

/// Distances are counted in ticks, and in ten-thousandths of the fair value: as
/// many ticks as the tick goes into the distance, and the distance over the fair
/// value times ten thousand. Rounding moves the ticks by no more than a part in
/// 2^50 and a last unit.
pub proof fn law_distances_are_counted_in_ticks(
    market: MarketState,
    probe: ActiveProbe,
    now_ns: u64,
)
    requires
        market.freshest() is Some,
        market.fair()->0.finite(),
        probe.price.finite(),
        probe.tick_size.finite(),
        probe.tick_size.value() > 0,
    ensures
        ({
            let place = market.position_of(probe, now_ns);
            let book = market.book(market.freshest()->0);
            let fair = market.fair()->0;
            let apart = if probe.side == ProbeSide::Bid {
                fair.difference(probe.price)
            } else {
                probe.price.difference(fair)
            };
            let behind = if probe.side == ProbeSide::Bid {
                book.bids@[0].price.difference(probe.price)
            } else {
                probe.price.difference(book.asks@[0].price)
            };
            &&& place.fair_value_distance_ticks is Some
            &&& place.bbo_distance_ticks is Some
            &&& counts_ticks(place.fair_value_distance_ticks->0, apart, probe.tick_size)
            &&& counts_ticks(place.bbo_distance_ticks->0, behind, probe.tick_size)
            &&& place.fair_value_distance_bps == Some(
                apart.quotient(fair).product(constants::number(constants::TEN_THOUSAND)),
            )
        }),
{
    let fair = market.fair()->0;
    let book = market.book(market.freshest()->0);
    law_prices_come_from_the_latest_quote(market);
    let apart = if probe.side == ProbeSide::Bid {
        fair.difference(probe.price)
    } else {
        probe.price.difference(fair)
    };
    let behind = if probe.side == ProbeSide::Bid {
        book.bids@[0].price.difference(probe.price)
    } else {
        probe.price.difference(book.asks@[0].price)
    };
    lemma_counts_ticks(apart, probe.tick_size);
    lemma_counts_ticks(behind, probe.tick_size);
}

/// `ticks` times the tick is the distance, where the distance is not negative and
/// nothing is out of range.
pub open spec fn counts_ticks(ticks: Binary64, distance: Binary64, tick: Binary64) -> bool {
    let counted = ticks.value() * tick.value();
    let exact = distance.value() * pow2(1074);
    let room = counted + grid::fine() * tick.value();
    distance.finite() && ticks.finite() && distance.value() >= 0 ==> grid::fine() * (counted
        - exact) <= room && grid::fine() * (exact - counted) <= room
}

proof fn lemma_counts_ticks(distance: Binary64, tick: Binary64)
    requires
        tick.finite(),
        tick.value() > 0,
    ensures
        counts_ticks(distance.quotient(tick), distance, tick),
{
    if distance.finite() && distance.quotient(tick).finite() && distance.value() >= 0 {
        ordering::lemma_quotient_error(distance, tick);
    }
}

/// The two sides see the market from opposite ends: what is behind for a bid is in
/// front for an ask at the same price.
pub proof fn law_sides_see_opposite_distances(
    price: Binary64,
    reference: Binary64,
)
    requires
        price.finite(),
        reference.finite(),
    ensures
        state::behind(ProbeSide::Bid, price, reference).value() == -state::behind(
            ProbeSide::Ask,
            price,
            reference,
        ).value(),
        price.value() < reference.value() ==> state::behind(
            ProbeSide::Bid,
            price,
            reference,
        ).value() > 0,
{
    ordering::lemma_zero_value();
    ordering::law_differences_are_opposite(price, reference);
    ordering::law_differences_compare(price, reference);
}

/// A connection that starts anew forgets what it brings and nothing else: its
/// feeds have no time, its quotes are gone, and every other feed, book and quote
/// stays.
pub proof fn law_reconnects_forget_their_own_feeds(
    before: MarketState,
    after: MarketState,
    connection: Seq<char>,
    feed: Seq<char>,
)
    requires
        after.is_cleared_from(before, connection),
    ensures
        after.feed_last_receive_ns.at(feed) is None || after.feed_last_receive_ns.at(feed)
            == before.feed_last_receive_ns.at(feed),
        connection == "hl_standard"@ && feed == "hl_bbo"@ ==> after.feed_last_receive_ns.at(
            feed,
        ) is None,
        connection == "hl_standard"@ && feed == "hl_default_l2"@ ==> after.feed_last_receive_ns.at(
            feed,
        ) is None,
        connection == "hl_standard"@ && feed == "hl_trades"@ ==> after.feed_last_receive_ns.at(
            feed,
        ) is None,
        connection == "hl_fast_l2"@ && feed == "hl_fast_l2"@ ==> after.feed_last_receive_ns.at(
            feed,
        ) is None,
        connection == "binance_lob"@ ==> after.binance_bid is None && after.binance_ask is None,
        connection == "okx_public_lob"@ ==> after.okx_bid is None && after.okx_ask is None,
        connection != "binance_lob"@ ==> after.binance_bid == before.binance_bid
            && after.binance_ask == before.binance_ask,
        connection != "okx_public_lob"@ ==> after.okx_bid == before.okx_bid && after.okx_ask
            == before.okx_ask,
        connection != "hl_standard"@ ==> after.hl_bbo == before.hl_bbo && after.hl_default_l2
            == before.hl_default_l2,
        connection != "hl_fast_l2"@ ==> after.hl_fast_l2 == before.hl_fast_l2,
        after.hl_trade_count == before.hl_trade_count,
        after.hl_signed_trade_size == before.hl_signed_trade_size,
{
}

} // verus!
