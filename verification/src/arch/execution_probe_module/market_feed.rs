//! What the public feeds tell.
use vstd::prelude::*;
use crate::binary64::Binary64;
use crate::json::Json;
use crate::text::same;
use super::base::ExecutionProbe;
use super::evaluation;
use super::evaluation::trade_consumes_queue;
use super::frames;
use super::frames::{
    frame_channel, is_okx_channel, parse_binance_bbo, parse_hl_book, parse_hl_trades, parse_okx_bbo,
};
use super::state;
use super::state::{ActiveProbe, BookState, MarketState, ProbeSide, QueueBelief, same_price};
use super::utils::{
    TASK_BINANCE_AGG_TRADE, TASK_BINANCE_LOB, TASK_HL_FAST_L2, TASK_HL_STANDARD, TASK_OKX_LOB,
    TASK_OKX_TRADES_ALL,
};

verus! {

/// What a public frame tells.
#[derive(Clone, Copy, Debug, PartialEq, Eq, Structural)]
pub enum PublicNews {
    HlBbo,
    HlDefaultL2,
    HlTrades,
    HlActiveAssetCtx,
    HlFastL2,
    BinanceBbo,
    BinanceDepth,
    BinanceAggTrade,
    OkxBbo,
    OkxBooks,
    OkxTradesAll,
    Nothing,
}

impl PublicNews {
    /// The feed that brought the news.
    pub open spec fn feed(self) -> Option<Seq<char>> {
        match self {
            PublicNews::HlBbo => Some("hl_bbo"@),
            PublicNews::HlDefaultL2 => Some("hl_default_l2"@),
            PublicNews::HlTrades => Some("hl_trades"@),
            PublicNews::HlActiveAssetCtx => Some("hl_active_asset_ctx"@),
            PublicNews::HlFastL2 => Some("hl_fast_l2"@),
            PublicNews::BinanceBbo => Some("binance_bbo"@),
            PublicNews::BinanceDepth => Some("binance_depth"@),
            PublicNews::BinanceAggTrade => Some("binance_agg_trade"@),
            PublicNews::OkxBbo => Some("okx_bbo"@),
            PublicNews::OkxBooks => Some("okx_books"@),
            PublicNews::OkxTradesAll => Some("okx_trades_all"@),
            PublicNews::Nothing => None,
        }
    }

    fn as_str(self) -> (r: Option<&'static str>)
        ensures
            match r {
                Some(name) => self.feed() == Some(name@),
                None => self.feed() is None,
            },
    {
        match self {
            PublicNews::HlBbo => Some("hl_bbo"),
            PublicNews::HlDefaultL2 => Some("hl_default_l2"),
            PublicNews::HlTrades => Some("hl_trades"),
            PublicNews::HlActiveAssetCtx => Some("hl_active_asset_ctx"),
            PublicNews::HlFastL2 => Some("hl_fast_l2"),
            PublicNews::BinanceBbo => Some("binance_bbo"),
            PublicNews::BinanceDepth => Some("binance_depth"),
            PublicNews::BinanceAggTrade => Some("binance_agg_trade"),
            PublicNews::OkxBbo => Some("okx_bbo"),
            PublicNews::OkxBooks => Some("okx_books"),
            PublicNews::OkxTradesAll => Some("okx_trades_all"),
            PublicNews::Nothing => None,
        }
    }
}

/// What a frame of the standard Hyperliquid connection tells.
pub open spec fn standard_news(frame: Json) -> PublicNews {
    let channel = frames::channel_of(frame);
    if channel == Some("bbo"@) {
        if frames::hl_sides(frame) is Some {
            PublicNews::HlBbo
        } else {
            PublicNews::Nothing
        }
    } else if channel == Some("l2Book"@) {
        if frames::hl_sides(frame) is Some {
            PublicNews::HlDefaultL2
        } else {
            PublicNews::Nothing
        }
    } else if channel == Some("trades"@) {
        if frames::trades_of(frames::data_items(frame)).len() > 0 {
            PublicNews::HlTrades
        } else {
            PublicNews::Nothing
        }
    } else if channel == Some("activeAssetCtx"@) {
        PublicNews::HlActiveAssetCtx
    } else {
        PublicNews::Nothing
    }
}

/// What a frame of the fast Hyperliquid connection tells.
pub open spec fn fast_news(frame: Json) -> PublicNews {
    if frames::channel_of(frame) == Some("l2Book"@) && frames::hl_sides(frame) is Some {
        PublicNews::HlFastL2
    } else {
        PublicNews::Nothing
    }
}

/// What a Binance frame tells.
pub open spec fn binance_news(frame: Json) -> PublicNews {
    let event = frame.entry_text("e"@);
    if frames::binance_quote(frame) is Some {
        PublicNews::BinanceBbo
    } else if event == Some("depthUpdate"@) {
        PublicNews::BinanceDepth
    } else if event == Some("aggTrade"@) {
        PublicNews::BinanceAggTrade
    } else {
        PublicNews::Nothing
    }
}

/// What an OKX frame tells.
pub open spec fn okx_news(frame: Json) -> PublicNews {
    let channel = frames::okx_channel(frame);
    if frames::okx_quote(frame) is Some {
        PublicNews::OkxBbo
    } else if channel == Some("books"@) {
        PublicNews::OkxBooks
    } else if channel == Some("trades-all"@) {
        PublicNews::OkxTradesAll
    } else {
        PublicNews::Nothing
    }
}

/// What a public frame of a task tells.
pub open spec fn news(task_id: u64, frame: Json) -> PublicNews {
    if task_id == TASK_HL_STANDARD {
        standard_news(frame)
    } else if task_id == TASK_HL_FAST_L2 {
        fast_news(frame)
    } else if task_id == TASK_BINANCE_LOB || task_id == TASK_BINANCE_AGG_TRADE {
        binance_news(frame)
    } else if task_id == TASK_OKX_LOB || task_id == TASK_OKX_TRADES_ALL {
        okx_news(frame)
    } else {
        PublicNews::Nothing
    }
}

/// The book of a frame.
pub open spec fn is_book_of(book: BookState, frame: Json, received_ns: u64) -> bool {
    &&& frames::hl_sides(frame) == Some((book.bids@, book.asks@))
    &&& book.received_monotonic_ns == received_ns
    &&& book.exchange_ts_ns == frames::hl_time(frame)
}

/// A number of trades more, within the range of `u64`.
pub open spec fn more_trades(count: u64, trades: nat) -> u64 {
    if count + trades > u64::MAX {
        u64::MAX
    } else {
        (count + trades) as u64
    }
}

/// The signed size of trades, added up in order.
pub open spec fn signed_size(
    start: Binary64,
    trades: Seq<(ProbeSide, Binary64, Binary64)>,
) -> Binary64
    decreases trades.len(),
{
    if trades.len() == 0 {
        start
    } else {
        signed_size(start, trades.drop_last()).sum(trades.last().0.sign().product(trades.last().2))
    }
}

/// A trade takes from the queue of a probe: the order rests, the trade is of the
/// other side, and it is at the price of the order.
pub open spec fn takes_from_queue(
    probe: ActiveProbe,
    trade: (ProbeSide, Binary64, Binary64),
) -> bool {
    &&& probe.is_resting()
    &&& evaluation::consumes_queue(probe.side, trade.0)
    &&& state::is_same_price(trade.1, probe.price, probe.tick_size)
}

/// The belief of a probe's queue after trades.
pub open spec fn belief_after(
    probe: ActiveProbe,
    trades: Seq<(ProbeSide, Binary64, Binary64)>,
) -> QueueBelief
    decreases trades.len(),
{
    if trades.len() == 0 {
        probe.queue_belief
    } else if takes_from_queue(probe, trades.last()) {
        belief_after(probe, trades.drop_last()).after_trade(trades.last().2)
    } else {
        belief_after(probe, trades.drop_last())
    }
}

/// Only trades of the other side take from a resting queue: trades of the side
/// of the order leave the belief as it is, whatever their prices and sizes.
pub proof fn law_own_side_trades_leave_the_queue(
    probe: ActiveProbe,
    trades: Seq<(ProbeSide, Binary64, Binary64)>,
)
    requires
        forall|i: int| 0 <= i < trades.len() ==> (#[trigger] trades[i]).0 == probe.side,
    ensures
        belief_after(probe, trades) == probe.queue_belief,
    decreases trades.len(),
{
    if trades.len() > 0 {
        assert(trades[trades.len() - 1].0 == probe.side);
        law_own_side_trades_leave_the_queue(probe, trades.drop_last());
    }
}

/// Without a resting order no trade changes the belief.
pub proof fn law_queue_waits_for_the_order(
    probe: ActiveProbe,
    trades: Seq<(ProbeSide, Binary64, Binary64)>,
)
    requires
        !probe.is_resting(),
    ensures
        belief_after(probe, trades) == probe.queue_belief,
    decreases trades.len(),
{
    if trades.len() > 0 {
        law_queue_waits_for_the_order(probe, trades.drop_last());
    }
}

/// The market after a public frame.
pub open spec fn hears(
    before: MarketState,
    after: MarketState,
    news: PublicNews,
    frame: Json,
    received_ns: u64,
) -> bool {
    let trades = frames::trades_of(frames::data_items(frame));
    &&& forall|feed: Seq<char>| #[trigger]
        after.feed_last_receive_ns.at(feed) == (if news.feed() == Some(feed) {
            Some(received_ns)
        } else {
            before.feed_last_receive_ns.at(feed)
        })
    &&& after == (MarketState {
        feed_last_receive_ns: after.feed_last_receive_ns,
        hl_bbo: if news == PublicNews::HlBbo {
            after.hl_bbo
        } else {
            before.hl_bbo
        },
        hl_default_l2: if news == PublicNews::HlDefaultL2 {
            after.hl_default_l2
        } else {
            before.hl_default_l2
        },
        hl_fast_l2: if news == PublicNews::HlFastL2 {
            after.hl_fast_l2
        } else {
            before.hl_fast_l2
        },
        binance_bid: if news == PublicNews::BinanceBbo {
            Some((frames::binance_quote(frame)->0).0)
        } else {
            before.binance_bid
        },
        binance_ask: if news == PublicNews::BinanceBbo {
            Some((frames::binance_quote(frame)->0).1)
        } else {
            before.binance_ask
        },
        okx_bid: if news == PublicNews::OkxBbo {
            Some((frames::okx_quote(frame)->0).0)
        } else {
            before.okx_bid
        },
        okx_ask: if news == PublicNews::OkxBbo {
            Some((frames::okx_quote(frame)->0).1)
        } else {
            before.okx_ask
        },
        hl_trade_count: if news == PublicNews::HlTrades {
            more_trades(before.hl_trade_count, trades.len())
        } else {
            before.hl_trade_count
        },
        hl_signed_trade_size: if news == PublicNews::HlTrades {
            signed_size(before.hl_signed_trade_size, trades)
        } else {
            before.hl_signed_trade_size
        },
    })
    &&& news == PublicNews::HlBbo ==> is_book_of(after.hl_bbo, frame, received_ns)
    &&& news == PublicNews::HlDefaultL2 ==> is_book_of(after.hl_default_l2, frame, received_ns)
    &&& news == PublicNews::HlFastL2 ==> is_book_of(after.hl_fast_l2, frame, received_ns)
}

impl ExecutionProbe {
    /// The active probe after its queue was seen in the later of the deep books.
    pub open spec fn after_sighting(self) -> Option<ActiveProbe> {
        match self.active_probe {
            Some(probe) => match self.queue_level(probe) {
                Some(level) => if probe.is_resting() {
                    Some(
                        ActiveProbe {
                            queue_belief: probe.queue_belief.after_visible(
                                level.size,
                                level.order_count,
                            ),
                            ..probe
                        },
                    )
                } else {
                    Some(probe)
                },
                None => Some(probe),
            },
            None => None,
        }
    }

    /// The active probe after trades.
    pub open spec fn after_trades(self, trades: Seq<(ProbeSide, Binary64, Binary64)>) -> Option<
        ActiveProbe,
    > {
        match self.active_probe {
            Some(probe) => Some(
                ActiveProbe { queue_belief: belief_after(probe, trades), ..probe },
            ),
            None => None,
        }
    }
}

/// Whether a frame names the Hyperliquid channel.
fn is_channel(frame: &Json, channel: &str) -> (r: bool)
    ensures
        r == (frames::channel_of(*frame) == Some(channel@)),
{
    match frame_channel(frame) {
        Some(name) => same(name, channel),
        None => false,
    }
}

impl ExecutionProbe {
    fn update_queue_from_book(&mut self)
        requires
            old(self).is_sound(),
        ensures
            final(self).is_sound(),
            *final(self) == (ExecutionProbe {
                active_probe: old(self).after_sighting(),
                ..*old(self)
            }),
    {
        if let Some(probe) = &mut self.active_probe {
            if probe.rests() {
                if let Some(level) = self.market.book_for_queue().level(
                    probe.side,
                    probe.price,
                    probe.tick_size,
                ) {
                    probe.queue_belief.observe_visible(level.size, level.order_count);
                }
            }
        }
    }
}

fn observe_trades(probe: &mut ActiveProbe, trades: &Vec<(ProbeSide, Binary64, Binary64)>)
    requires
        old(probe).queue_belief.is_ordered(),
    ensures
        *final(probe) == (ActiveProbe {
            queue_belief: belief_after(*old(probe), trades@),
            ..*old(probe)
        }),
        final(probe).queue_belief.is_ordered(),
{
    let ghost before = *probe;
    let mut i: usize = 0;
    proof {
        assert(trades@.take(0) =~= Seq::<(ProbeSide, Binary64, Binary64)>::empty());
    }
    while i < trades.len()
        invariant
            i <= trades@.len(),
            *probe == (ActiveProbe {
                queue_belief: belief_after(before, trades@.take(i as int)),
                ..before
            }),
            probe.queue_belief.is_ordered(),
        decreases trades@.len() - i,
    {
        proof {
            assert(trades@.take(i as int + 1).drop_last() =~= trades@.take(i as int));
        }
        let (side, price, size) = trades[i];
        if probe.rests() && trade_consumes_queue(probe.side, side) && same_price(
            price,
            probe.price,
            probe.tick_size,
        ) {
            probe.queue_belief.observe_trade(size);
        }
        i = i + 1;
    }
    proof {
        assert(trades@.take(trades@.len() as int) =~= trades@);
    }
}

fn tally_trades(market: &mut MarketState, trades: &Vec<(ProbeSide, Binary64, Binary64)>)
    ensures
        *final(market) == (MarketState {
            hl_trade_count: more_trades(old(market).hl_trade_count, trades@.len()),
            hl_signed_trade_size: signed_size(old(market).hl_signed_trade_size, trades@),
            ..*old(market)
        }),
{
    let ghost before = *market;
    let mut i: usize = 0;
    proof {
        assert(trades@.take(0) =~= Seq::<(ProbeSide, Binary64, Binary64)>::empty());
    }
    while i < trades.len()
        invariant
            i <= trades@.len(),
            *market == (MarketState {
                hl_trade_count: more_trades(before.hl_trade_count, i as nat),
                hl_signed_trade_size: signed_size(
                    before.hl_signed_trade_size,
                    trades@.take(i as int),
                ),
                ..before
            }),
        decreases trades@.len() - i,
    {
        proof {
            assert(trades@.take(i as int + 1).drop_last() =~= trades@.take(i as int));
        }
        let (side, _price, size) = trades[i];
        market.hl_trade_count = market.hl_trade_count.saturating_add(1);
        market.hl_signed_trade_size = market.hl_signed_trade_size.plus(
            side.order_sign().times(size),
        );
        i = i + 1;
    }
    proof {
        assert(trades@.take(trades@.len() as int) =~= trades@);
    }
}

impl ExecutionProbe {
    /// `after` follows when a public frame has told its news.
    pub open spec fn has_heard(
        self,
        after: ExecutionProbe,
        news: PublicNews,
        frame: Json,
        received_ns: u64,
    ) -> bool {
        let trades = frames::trades_of(frames::data_items(frame));
        &&& hears(self.market, after.market, news, frame, received_ns)
        &&& after == (ExecutionProbe {
            market: after.market,
            active_probe: if news == PublicNews::HlTrades {
                self.after_trades(trades)
            } else if news == PublicNews::HlDefaultL2 || news == PublicNews::HlFastL2 {
                (ExecutionProbe { market: after.market, ..self }).after_sighting()
            } else {
                self.active_probe
            },
            ..self
        })
    }

    fn mark(&mut self, news: PublicNews, received_ns: u64)
        requires
            old(self).is_sound(),
        ensures
            final(self).is_sound(),
            *final(self) == (ExecutionProbe { market: final(self).market, ..*old(self) }),
            final(self).market == (MarketState {
                feed_last_receive_ns: final(self).market.feed_last_receive_ns,
                ..old(self).market
            }),
            forall|feed: Seq<char>| #[trigger]
                final(self).market.feed_last_receive_ns.at(feed) == (if news.feed() == Some(feed) {
                    Some(received_ns)
                } else {
                    old(self).market.feed_last_receive_ns.at(feed)
                }),
    {
        if let Some(feed) = news.as_str() {
            self.market.mark_feed(feed, received_ns);
        }
    }

    fn hear_standard(&mut self, frame: &Json, received_ns: u64)
        requires
            old(self).is_sound(),
        ensures
            final(self).is_sound(),
            old(self).has_heard(*final(self), standard_news(*frame), *frame, received_ns),
    {
        proof {
            reveal_strlit("bbo");
            reveal_strlit("l2Book");
            reveal_strlit("trades");
            reveal_strlit("activeAssetCtx");
            assert("bbo"@.len() == 3);
            assert("l2Book"@.len() == 6);
            assert("trades"@.len() == 6);
            assert("l2Book"@[0] == 'l');
            assert("trades"@[0] == 't');
            assert("activeAssetCtx"@.len() == 14);
        }
        if is_channel(frame, "bbo") {
            if let Some(book) = parse_hl_book(frame, received_ns) {
                self.market.hl_bbo = book;
                self.mark(PublicNews::HlBbo, received_ns);
            }
        } else if is_channel(frame, "l2Book") {
            if let Some(book) = parse_hl_book(frame, received_ns) {
                self.market.hl_default_l2 = book;
                self.mark(PublicNews::HlDefaultL2, received_ns);
                self.update_queue_from_book();
            }
        } else if is_channel(frame, "trades") {
            let trades = parse_hl_trades(frame);
            if trades.len() > 0 {
                self.mark(PublicNews::HlTrades, received_ns);
                tally_trades(&mut self.market, &trades);
                if let Some(probe) = &mut self.active_probe {
                    observe_trades(probe, &trades);
                }
            }
        } else if is_channel(frame, "activeAssetCtx") {
            self.mark(PublicNews::HlActiveAssetCtx, received_ns);
        }
    }

    fn hear_fast(&mut self, frame: &Json, received_ns: u64)
        requires
            old(self).is_sound(),
        ensures
            final(self).is_sound(),
            old(self).has_heard(*final(self), fast_news(*frame), *frame, received_ns),
    {
        if is_channel(frame, "l2Book") {
            if let Some(book) = parse_hl_book(frame, received_ns) {
                self.market.hl_fast_l2 = book;
                self.mark(PublicNews::HlFastL2, received_ns);
                self.update_queue_from_book();
            }
        }
    }

    fn hear_binance(&mut self, frame: &Json, received_ns: u64)
        requires
            old(self).is_sound(),
        ensures
            final(self).is_sound(),
            old(self).has_heard(*final(self), binance_news(*frame), *frame, received_ns),
    {
        if let Some((bid, ask)) = parse_binance_bbo(frame) {
            self.market.binance_bid = Some(bid);
            self.market.binance_ask = Some(ask);
            self.mark(PublicNews::BinanceBbo, received_ns);
        } else if frame.has_text("e", "depthUpdate") {
            self.mark(PublicNews::BinanceDepth, received_ns);
        } else if frame.has_text("e", "aggTrade") {
            self.mark(PublicNews::BinanceAggTrade, received_ns);
        }
    }

    fn hear_okx(&mut self, frame: &Json, received_ns: u64)
        requires
            old(self).is_sound(),
        ensures
            final(self).is_sound(),
            old(self).has_heard(*final(self), okx_news(*frame), *frame, received_ns),
    {
        if let Some((bid, ask)) = parse_okx_bbo(frame) {
            self.market.okx_bid = Some(bid);
            self.market.okx_ask = Some(ask);
            self.mark(PublicNews::OkxBbo, received_ns);
        } else if is_okx_channel(frame, "books") {
            self.mark(PublicNews::OkxBooks, received_ns);
        } else if is_okx_channel(frame, "trades-all") {
            self.mark(PublicNews::OkxTradesAll, received_ns);
        }
    }

    /// Takes in a frame of a public feed.
    pub fn process_public_frame(&mut self, task_id: u64, frame: &Json, received_ns: u64)
        requires
            old(self).is_sound(),
        ensures
            final(self).is_sound(),
            old(self).has_heard(*final(self), news(task_id, *frame), *frame, received_ns),
    {
        if task_id == TASK_HL_STANDARD {
            self.hear_standard(frame, received_ns);
        } else if task_id == TASK_HL_FAST_L2 {
            self.hear_fast(frame, received_ns);
        } else if task_id == TASK_BINANCE_LOB || task_id == TASK_BINANCE_AGG_TRADE {
            self.hear_binance(frame, received_ns);
        } else if task_id == TASK_OKX_LOB || task_id == TASK_OKX_TRADES_ALL {
            self.hear_okx(frame, received_ns);
        }
    }
}

} // verus!
