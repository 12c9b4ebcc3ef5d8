//! What frames are read for: each number reaches the place that its name says.
use vstd::prelude::*;
use crate::json::Json;
use super::super::base::ExecutionProbe;
use super::super::commands::Command;
use super::super::connections::FrameError;
use super::super::frames;
use super::super::market_feed;
use super::super::market_feed::PublicNews;
use super::super::state::{ActiveProbe, MarketState, ProbePhase, ProbeSide};
use super::super::utils::{
    TASK_BINANCE_AGG_TRADE, TASK_BINANCE_LOB, TASK_HL_FAST_L2, TASK_HL_STANDARD, TASK_OKX_LOB,
    TASK_OKX_TRADES_ALL,
};

verus! {

/// The same moment in seconds, milliseconds, microseconds and nanoseconds is the
/// same number of nanoseconds. A number of nanoseconds stays as it is.
pub proof fn law_units_of_time_are_told_apart(seconds: u64)
    requires
        10_000_000 <= seconds <= 9_999_999_999,
        seconds * 1_000_000_000 <= u64::MAX,
    ensures
        frames::in_nanoseconds(seconds) == seconds * 1_000_000_000,
        frames::in_nanoseconds((seconds * 1_000) as u64) == frames::in_nanoseconds(seconds),
        frames::in_nanoseconds((seconds * 1_000_000) as u64) == frames::in_nanoseconds(seconds),
        frames::in_nanoseconds((seconds * 1_000_000_000) as u64) == frames::in_nanoseconds(
            seconds,
        ),
{
}

/// The letter B stands for a bid and A for an ask, nothing else for a side.
pub proof fn law_letters_name_their_side(entry: Json)
    ensures
        frames::side_of(entry) == Some(ProbeSide::Bid) <==> entry.entry_text("side"@) == Some(
            "B"@,
        ),
        frames::side_of(entry) == Some(ProbeSide::Ask) <==> entry.entry_text("side"@) == Some(
            "A"@,
        ),
{
    reveal_strlit("A");
    reveal_strlit("B");
    assert("A"@[0] == 'A');
    assert("B"@[0] == 'B');
}

/// A level needs a price and a size, and has its number of orders where it is told.
/// The levels of a list keep their order, and entries that are no levels are left
/// out.
pub proof fn law_levels_are_read_in_order(entries: Seq<Json>, last: Json)
    ensures
        ({
            let level = frames::level_of(last);
            &&& level is Some <==> last.entry_real("px"@) is Some && last.entry_real("sz"@) is Some
            &&& level is Some ==> Some(level->0.price) == last.entry_real("px"@)
            &&& level is Some ==> Some(level->0.size) == last.entry_real("sz"@)
            &&& level is Some ==> level->0.order_count == last.entry_whole("n"@)
            &&& frames::levels_of(Seq::empty()).len() == 0
            &&& level is Some ==> frames::levels_of(entries.push(last)) == frames::levels_of(
                entries,
            ).push(level->0)
            &&& level is None ==> frames::levels_of(entries.push(last)) == frames::levels_of(
                entries,
            )
        }),
{
    assert(entries.push(last).drop_last() =~= entries);
}

/// Bids come first and asks second, in a deep book as in a best quote. A frame
/// without either is no book.
pub proof fn law_bids_come_before_asks(frame: Json, data: Json, sides: Json)
    requires
        frame.entry("data"@) == Some(data),
        sides.items() is Some,
    ensures
        data.entry("levels"@) == Some(sides) ==> frames::hl_sides(frame) == Some(
            (frames::levels_at(sides.item(0)), frames::levels_at(sides.item(1))),
        ),
        data.entry("levels"@) is None && data.entry("bbo"@) == Some(sides) ==> frames::hl_sides(
            frame,
        ) == Some((frames::single_level(sides.item(0)), frames::single_level(sides.item(1)))),
        data.entry("levels"@) is None && data.entry("bbo"@) is None ==> frames::hl_sides(
            frame,
        ) is None,
        data.entry_whole("time"@) is Some ==> frames::hl_time(frame) == Some(
            frames::in_nanoseconds(data.entry_whole("time"@)->0),
        ),
{
}

/// A trade needs the side of its taker, a price and a size. The trades of a list
/// keep their order, and entries that are no trades are left out.
pub proof fn law_trades_are_read_in_order(entries: Seq<Json>, last: Json)
    ensures
        ({
            let trade = frames::trade_of(last);
            &&& trade is Some <==> frames::side_of(last) is Some && last.entry_real("px"@) is Some
                && last.entry_real("sz"@) is Some
            &&& trade is Some ==> Some((trade->0).0) == frames::side_of(last)
            &&& trade is Some ==> Some((trade->0).1) == last.entry_real("px"@)
            &&& trade is Some ==> Some((trade->0).2) == last.entry_real("sz"@)
            &&& frames::trades_of(Seq::empty()).len() == 0
            &&& trade is Some ==> frames::trades_of(entries.push(last)) == frames::trades_of(
                entries,
            ).push(trade->0)
            &&& trade is None ==> frames::trades_of(entries.push(last)) == frames::trades_of(
                entries,
            )
        }),
{
    assert(entries.push(last).drop_last() =~= entries);
}

/// An order update tells what is left under `sz` and what there was under `origSz`,
/// and bears the ids, the price and the status under their names.
pub proof fn law_updates_are_read_by_name(entries: Seq<Json>, last: Json)
    ensures
        ({
            let update = frames::update_of(last);
            let order = last.entry("order"@)->0;
            &&& update is Some ==> {
                &&& last.entry("order"@) is Some
                &&& order.entry_real("sz"@) == Some(update->0.remaining_size)
                &&& order.entry_real("origSz"@) == Some(update->0.original_size)
                &&& order.entry_real("limitPx"@) == Some(update->0.price)
                &&& order.entry_whole("oid"@) == Some(update->0.oid)
                &&& order.entry_whole("timestamp"@) == Some(update->0.order_timestamp_ms)
                &&& order.entry_text("coin"@) == Some(update->0.coin)
                &&& frames::side_of(order) == Some(update->0.side)
                &&& last.entry_text("status"@) == Some(update->0.status)
                &&& last.entry_whole("statusTimestamp"@) == Some(update->0.status_timestamp_ms)
                &&& update->0.cloid is Some ==> order.entry_text("cloid"@) == update->0.cloid
                    && update->0.cloid->0.len() > 0
            }
            &&& frames::updates_of(Seq::empty()).len() == 0
            &&& update is Some ==> frames::updates_of(entries.push(last)) == frames::updates_of(
                entries,
            ).push(update->0)
            &&& update is None ==> frames::updates_of(entries.push(last)) == frames::updates_of(
                entries,
            )
        }),
{
    assert(entries.push(last).drop_last() =~= entries);
}

/// A fill bears its order, its price, its size, its fee and its time under their
/// names.
pub proof fn law_fills_are_read_by_name(entries: Seq<Json>, last: Json)
    ensures
        ({
            let fill = frames::fill_of(last);
            &&& fill is Some ==> {
                &&& last.entry_whole("oid"@) == Some(fill->0.oid)
                &&& last.entry_text("coin"@) == Some(fill->0.coin)
                &&& frames::side_of(last) == Some(fill->0.side)
                &&& last.entry_real("px"@) == Some(fill->0.price)
                &&& last.entry_real("sz"@) == Some(fill->0.size)
                &&& last.entry_whole("time"@) == Some(fill->0.timestamp_ms)
                &&& last.entry_real("fee"@) == fill->0.fee
                &&& last.entry_text("feeToken"@) == fill->0.fee_token
                &&& last.entry("tid"@) is None ==> fill->0.trade_id.len() == 0
                &&& last.entry("tid"@) is Some && last.entry("tid"@)->0.characters() is Some
                    ==> Some(fill->0.trade_id) == last.entry("tid"@)->0.characters()
            }
            &&& frames::fills_of(Seq::empty()).len() == 0
            &&& fill is Some ==> frames::fills_of(entries.push(last)) == frames::fills_of(
                entries,
            ).push(fill->0)
            &&& fill is None ==> frames::fills_of(entries.push(last)) == frames::fills_of(entries)
        }),
{
    assert(entries.push(last).drop_last() =~= entries);
}

/// The inventory is the first position that is in the coin; positions in other coins
/// are passed over.
pub proof fn law_the_first_position_in_the_coin_counts(
    first: Json,
    rest: Seq<Json>,
    coin: Seq<char>,
)
    ensures
        ({
            let all = seq![first] + rest;
            let position = first.entry("position"@)->0;
            let own = first.entry("position"@) is Some && position.entry_text("coin"@) == Some(
                coin,
            );
            &&& frames::first_position(Seq::empty(), coin) is None
            &&& own && position.entry_real("szi"@) is Some ==> frames::first_position(all, coin)
                == position.entry_real("szi"@)
            &&& !own ==> frames::first_position(all, coin) == frames::first_position(rest, coin)
        }),
{
    assert((seq![first] + rest).skip(1) =~= rest);
}

/// Of a Binance ticker the bid stands under `b` and the ask under `a`; of an OKX
/// quote under `bids` and `asks`.
pub proof fn law_quotes_are_read_by_name(frame: Json, row: Json)
    ensures
        frames::binance_quote(frame) is Some ==> {
            &&& frame.entry_text("e"@) == Some("bookTicker"@)
            &&& frame.entry_real("b"@) == Some((frames::binance_quote(frame)->0).0)
            &&& frame.entry_real("a"@) == Some((frames::binance_quote(frame)->0).1)
        },
        frame.path2("data"@, "0"@) == Some(row) && frames::okx_quote(frame) is Some ==> {
            &&& frames::okx_channel(frame) == Some("bbo-tbt"@)
            &&& frames::first_price(row, "bids"@) == Some((frames::okx_quote(frame)->0).0)
            &&& frames::first_price(row, "asks"@) == Some((frames::okx_quote(frame)->0).1)
        },
{
}

/// News changes what it is about and nothing else: a book takes the place of the
/// one before it, a quote that of its venue, and trades are counted. Only the feed
/// that brought it is marked.
pub proof fn law_news_changes_what_it_is_about(
    before: MarketState,
    after: MarketState,
    news: PublicNews,
    frame: Json,
    received_ns: u64,
    feed: Seq<char>,
)
    requires
        market_feed::hears(before, after, news, frame, received_ns),
    ensures
        news.feed() == Some(feed) ==> after.feed_last_receive_ns.at(feed) == Some(received_ns),
        news.feed() != Some(feed) ==> after.feed_last_receive_ns.at(feed)
            == before.feed_last_receive_ns.at(feed),
        news != PublicNews::HlBbo ==> after.hl_bbo == before.hl_bbo,
        news != PublicNews::HlFastL2 ==> after.hl_fast_l2 == before.hl_fast_l2,
        news != PublicNews::HlDefaultL2 ==> after.hl_default_l2 == before.hl_default_l2,
        news == PublicNews::HlBbo ==> after.hl_bbo.received_monotonic_ns == received_ns
            && frames::hl_sides(frame) == Some((after.hl_bbo.bids@, after.hl_bbo.asks@)),
        news == PublicNews::HlFastL2 ==> after.hl_fast_l2.received_monotonic_ns == received_ns
            && frames::hl_sides(frame) == Some((after.hl_fast_l2.bids@, after.hl_fast_l2.asks@)),
        news == PublicNews::HlDefaultL2 ==> after.hl_default_l2.received_monotonic_ns
            == received_ns && frames::hl_sides(frame) == Some(
            (after.hl_default_l2.bids@, after.hl_default_l2.asks@),
        ),
        news == PublicNews::BinanceBbo && frames::binance_quote(frame) is Some
            ==> after.binance_bid == frame.entry_real("b"@) && after.binance_ask
            == frame.entry_real("a"@),
        news != PublicNews::BinanceBbo ==> after.binance_bid == before.binance_bid
            && after.binance_ask == before.binance_ask,
        news == PublicNews::OkxBbo && frames::okx_quote(frame) is Some ==> after.okx_bid == Some(
            (frames::okx_quote(frame)->0).0,
        ) && after.okx_ask == Some((frames::okx_quote(frame)->0).1),
        news != PublicNews::OkxBbo ==> after.okx_bid == before.okx_bid && after.okx_ask
            == before.okx_ask,
        news != PublicNews::HlTrades ==> after.hl_trade_count == before.hl_trade_count
            && after.hl_signed_trade_size == before.hl_signed_trade_size,
        news == PublicNews::HlTrades && before.hl_trade_count + frames::trades_of(
            frames::data_items(frame),
        ).len() <= u64::MAX ==> after.hl_trade_count == before.hl_trade_count + frames::trades_of(
            frames::data_items(frame),
        ).len(),
{
}

/// The queue of a resting order is seen in every deep book, at its own price and
/// side, and its trades are heard; other news leaves the probe as it is. What is
/// heard changes only the belief.
pub proof fn law_the_queue_is_watched(
    before: ExecutionProbe,
    after: ExecutionProbe,
    news: PublicNews,
    frame: Json,
    received_ns: u64,
)
    requires
        before.has_heard(after, news, frame, received_ns),
        before.active_probe is Some,
    ensures
        ({
            let probe = before.active_probe->0;
            let left = after.active_probe->0;
            let deep = news == PublicNews::HlDefaultL2 || news == PublicNews::HlFastL2;
            let rests = probe.phase == ProbePhase::Resting || probe.phase == ProbePhase::Partial;
            let level = after.queue_level(probe);
            &&& after.active_probe is Some
            &&& left == (ActiveProbe { queue_belief: left.queue_belief, ..probe })
            &&& deep && rests && level is Some ==> left.queue_belief
                == probe.queue_belief.after_visible(level->0.size, level->0.order_count)
            &&& deep && (!rests || level is None) ==> left == probe
            &&& news == PublicNews::HlTrades ==> left.queue_belief == market_feed::belief_after(
                probe,
                frames::trades_of(frames::data_items(frame)),
            )
            &&& !deep && news != PublicNews::HlTrades ==> left == probe
            &&& after.account == before.account
        }),
{
}

/// The level at which a queue is seen is one of the side of the order, in the later
/// of the deep books.
pub proof fn law_queues_are_seen_on_their_own_side(module: ExecutionProbe, probe: ActiveProbe)
    ensures
        ({
            let book = if module.market.hl_fast_l2.received_monotonic_ns
                >= module.market.hl_default_l2.received_monotonic_ns {
                module.market.hl_fast_l2
            } else {
                module.market.hl_default_l2
            };
            let levels = if probe.side == ProbeSide::Bid {
                book.bids@
            } else {
                book.asks@
            };
            module.queue_level(probe) == super::super::state::level_at(
                levels,
                probe.price,
                probe.tick_size,
            )
        }),
{
}

/// Each connection is heard for what it brings.
pub proof fn law_connections_are_heard_for_their_own_news(frame: Json)
    ensures
        market_feed::news(TASK_HL_STANDARD, frame) == market_feed::standard_news(frame),
        market_feed::news(TASK_HL_FAST_L2, frame) == PublicNews::HlFastL2 || market_feed::news(
            TASK_HL_FAST_L2,
            frame,
        ) == PublicNews::Nothing,
        frames::channel_of(frame) == Some("l2Book"@) && frames::hl_sides(frame) is Some
            ==> market_feed::news(TASK_HL_FAST_L2, frame) == PublicNews::HlFastL2
            && market_feed::news(TASK_HL_STANDARD, frame) == PublicNews::HlDefaultL2,
        frames::channel_of(frame) == Some("bbo"@) && frames::hl_sides(frame) is Some
            ==> market_feed::news(TASK_HL_STANDARD, frame) == PublicNews::HlBbo,
        frames::channel_of(frame) == Some("trades"@) && frames::trades_of(
            frames::data_items(frame),
        ).len() > 0 ==> market_feed::news(TASK_HL_STANDARD, frame) == PublicNews::HlTrades,
        market_feed::news(TASK_HL_STANDARD, frame) == PublicNews::HlTrades ==> frames::trades_of(
            frames::data_items(frame),
        ).len() > 0,
        frames::channel_of(frame) == Some("activeAssetCtx"@) ==> market_feed::news(
            TASK_HL_STANDARD,
            frame,
        ) == PublicNews::HlActiveAssetCtx,
        frames::hl_sides(frame) is None ==> market_feed::news(TASK_HL_STANDARD, frame)
            != PublicNews::HlBbo && market_feed::news(TASK_HL_STANDARD, frame)
            != PublicNews::HlDefaultL2 && market_feed::news(TASK_HL_FAST_L2, frame)
            == PublicNews::Nothing,
        frame.entry_text("e"@) == Some("depthUpdate"@) ==> market_feed::news(
            TASK_BINANCE_LOB,
            frame,
        ) == PublicNews::BinanceDepth,
        frame.entry_text("e"@) == Some("aggTrade"@) ==> market_feed::news(TASK_BINANCE_LOB, frame)
            == PublicNews::BinanceAggTrade,
        frames::okx_channel(frame) == Some("books"@) ==> market_feed::news(TASK_OKX_LOB, frame)
            == PublicNews::OkxBooks,
        frames::okx_channel(frame) == Some("trades-all"@) ==> market_feed::news(
            TASK_OKX_TRADES_ALL,
            frame,
        ) == PublicNews::OkxTradesAll,
        frames::binance_quote(frame) is Some ==> market_feed::news(TASK_BINANCE_LOB, frame)
            == PublicNews::BinanceBbo,
        frames::binance_quote(frame) is None ==> market_feed::news(TASK_BINANCE_LOB, frame)
            != PublicNews::BinanceBbo,
        market_feed::news(TASK_BINANCE_AGG_TRADE, frame) == market_feed::news(
            TASK_BINANCE_LOB,
            frame,
        ),
        frames::okx_quote(frame) is Some ==> market_feed::news(TASK_OKX_LOB, frame)
            == PublicNews::OkxBbo,
        frames::okx_quote(frame) is None ==> market_feed::news(TASK_OKX_LOB, frame)
            != PublicNews::OkxBbo,
        market_feed::news(TASK_OKX_TRADES_ALL, frame) == market_feed::news(TASK_OKX_LOB, frame),
{
    reveal_strlit("bbo");
    reveal_strlit("l2Book");
    reveal_strlit("trades");
    assert("bbo"@.len() == 3);
    assert("l2Book"@[0] == 'l');
    assert("trades"@[0] == 't');
    assert("l2Book"@.len() == 6 && "trades"@.len() == 6);
    reveal_strlit("activeAssetCtx");
    assert("activeAssetCtx"@.len() == 14);
    reveal_strlit("bookTicker");
    reveal_strlit("depthUpdate");
    reveal_strlit("aggTrade");
    assert("bookTicker"@.len() == 10 && "depthUpdate"@.len() == 11 && "aggTrade"@.len() == 8);
    reveal_strlit("bbo-tbt");
    reveal_strlit("books");
    reveal_strlit("trades-all");
    assert("bbo-tbt"@.len() == 7 && "books"@.len() == 5 && "trades-all"@.len() == 10);
}

/// A private frame that states the inventory replaces what is known of it, and of
/// nothing else in the account; updates and fills change nothing by themselves.
pub proof fn law_stated_inventories_are_believed(
    before: ExecutionProbe,
    after: ExecutionProbe,
    commands: Seq<Command>,
    frame: Json,
    received_ns: u64,
)
    requires
        before.handles_private(after, commands, frame, received_ns),
    ensures
        ({
            let channel = frames::channel_of(frame);
            let stated = frames::inventory_of(frame, before.config.markets.hyperliquid_coin@);
            &&& channel == Some("clearinghouseState"@) && stated is Some ==> {
                &&& after.account.confirmed_inventory == stated->0
                &&& after.account.snapshot_monotonic_ns == received_ns
                &&& after.account.open_orders == before.account.open_orders
                &&& after.account.rest_snapshot_healthy == before.account.rest_snapshot_healthy
                &&& commands.len() == 1
                &&& commands[0] is FinishIfFlat
            }
            &&& channel != Some("clearinghouseState"@) ==> after == before
            &&& stated is None ==> after == before
            &&& after.active_probe == before.active_probe
        }),
{
    reveal_strlit("orderUpdates");
    reveal_strlit("userFills");
    reveal_strlit("clearinghouseState");
    assert("orderUpdates"@.len() == 12);
    assert("userFills"@.len() == 9);
    assert("clearinghouseState"@.len() == 18);
}

/// Updates and fills are handed on one by one, in the order of their frame, each
/// with the time at which the frame came.
pub proof fn law_private_news_is_handed_on_in_order(
    before: ExecutionProbe,
    after: ExecutionProbe,
    commands: Seq<Command>,
    frame: Json,
    at_ns: u64,
    i: int,
)
    requires
        before.handles_private(after, commands, frame, at_ns),
        0 <= i < commands.len(),
    ensures
        frames::channel_of(frame) == Some("orderUpdates"@) ==> {
            &&& commands.len() == frames::updates_of(frames::data_items(frame)).len()
            &&& commands[i] matches Command::OrderUpdate { update, received_ns }
            &&& update@ == frames::updates_of(frames::data_items(frame))[i]
            &&& received_ns == at_ns
        },
        frames::channel_of(frame) == Some("userFills"@) ==> {
            &&& commands.len() == frames::fills_of(frames::fill_items(frame)).len()
            &&& commands[i] matches Command::UserFill { fill, received_ns }
            &&& fill@ == frames::fills_of(frames::fill_items(frame))[i]
            &&& received_ns == at_ns
        },
{
    reveal_strlit("orderUpdates");
    reveal_strlit("userFills");
    assert("orderUpdates"@.len() == 12);
    assert("userFills"@.len() == 9);
}

/// The time of the exchange is the first that a frame tells, in nanoseconds.
pub proof fn law_exchange_times_are_in_nanoseconds(frame: Json, time: u64)
    ensures
        frames::whole_at(frame.path2("data"@, "time"@)) == Some(time) ==> frames::exchange_time(
            frame,
        ) == Some(frames::in_nanoseconds(time)),
        frames::whole_at(frame.path2("data"@, "time"@)) is None && frames::whole_at(
            frame.path3("data"@, "0"@, "time"@),
        ) is None && frames::whole_at(frame.path3("data"@, "0"@, "ts"@)) is None
            && frames::whole_at(frame.entry("E"@)) == Some(time) ==> frames::exchange_time(frame)
            == Some(frames::in_nanoseconds(time)),
        ({
            let inner = frames::whole_at(frame.path2("data"@, "time"@));
            let first = frames::whole_at(frame.path3("data"@, "0"@, "time"@));
            let first_ts = frames::whole_at(frame.path3("data"@, "0"@, "ts"@));
            let event = frames::whole_at(frame.entry("E"@));
            let trade = frames::whole_at(frame.entry("T"@));
            let outer = frames::whole_at(frame.entry("ts"@));
            let told = Some(frames::in_nanoseconds(time));
            &&& inner is None && first == Some(time) ==> frames::exchange_time(frame) == told
            &&& inner is None && first is None && first_ts == Some(time)
                ==> frames::exchange_time(frame) == told
            &&& inner is None && first is None && first_ts is None && event is None && trade
                == Some(time) ==> frames::exchange_time(frame) == told
            &&& inner is None && first is None && first_ts is None && event is None && trade
                is None && outer == Some(time) ==> frames::exchange_time(frame) == told
            &&& inner is None && first is None && first_ts is None && event is None && trade
                is None && outer is None ==> frames::exchange_time(frame) is None
        }),
{
}

/// A frame is taken for what its feed brings: only the action feed answers requests,
/// only the private one tells of the account, and public frames ask for nothing. A
/// frame that fails changes nothing.
pub proof fn law_frames_are_taken_for_what_their_feed_brings(
    before: ExecutionProbe,
    after: ExecutionProbe,
    r: Result<Vec<Command>, FrameError>,
    task_id: u64,
    frame: Json,
    received_ns: u64,
)
    requires
        before.handles_frame(after, r, task_id, frame, received_ns),
    ensures
        ({
            let known = before.feed_plans@.contains_key(task_id);
            let plan = before.feed_plans@[task_id];
            &&& !known ==> r is Err && after == before
            &&& r is Err ==> after == before
            &&& known && plan.is_action && r is Ok ==> before.handles_post(
                after,
                r->Ok_0@,
                frame,
            ) && after.market == before.market && after.account == before.account
            &&& known && !plan.is_action && plan.is_private ==> r is Ok && before.handles_private(
                after,
                r->Ok_0@,
                frame,
                received_ns,
            ) && after.market == before.market
            &&& known && !plan.is_action && !plan.is_private ==> r is Ok && r->Ok_0@.len() == 0
                && after.account == before.account
        }),
{
}

/// The channel of a frame is the one that it names itself, else the one under its
/// argument, else its event.
pub proof fn law_channels_are_named(frame: Json)
    ensures
        frame.entry_text("channel"@) is Some ==> frames::channel_of(frame) == frame.entry_text(
            "channel"@,
        ),
        frame.entry_text("channel"@) is None && frames::okx_channel(frame) is Some
            ==> frames::channel_of(frame) == frames::okx_channel(frame),
        frame.entry_text("channel"@) is None && frames::okx_channel(frame) is None
            ==> frames::channel_of(frame) == frame.entry_text("e"@),
{
}

/// Fills stand in a list of their own where the frame has one, else its data is
/// that list. The positions stand under the state of the account, else under the
/// data itself.
pub proof fn law_lists_are_found_in_their_place(frame: Json, coin: Seq<char>, entries: Seq<Json>)
    ensures
        frame.path2("data"@, "fills"@) is Some && frame.path2("data"@, "fills"@)->0.items()
            == Some(entries) ==> frames::fill_items(frame) == entries,
        frame.path2("data"@, "fills"@) is None && frame.entry("data"@) is Some && frame.entry(
            "data"@,
        )->0.items() == Some(entries) ==> frames::fill_items(frame) == entries,
        ({
            let nested = frame.path3("data"@, "clearinghouseState"@, "assetPositions"@);
            let plain = frame.path2("data"@, "assetPositions"@);
            &&& nested is Some && nested->0.items() == Some(entries) ==> frames::inventory_of(
                frame,
                coin,
            ) == frames::first_position(entries, coin)
            &&& nested is None && plain is Some && plain->0.items() == Some(entries)
                ==> frames::inventory_of(frame, coin) == frames::first_position(entries, coin)
            &&& nested is None && plain is None ==> frames::inventory_of(frame, coin) is None
        }),
{
}

} // verus!
